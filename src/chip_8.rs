//! The machine: processor, framebuffer, keypad and the knobs of the scheduler
//! that drives it.
use vstd::prelude::*;
use crate::cpu_state::{
    add16, default_ipf, fresh_cpu, model_ok, quirks_of, word_at, CpuModel, CpuState, Mode, Quirks,
};
use crate::display::{blank_plane, Display, DisplayModel};
use crate::execute::{next_core, next_cpu, v, Core};
use crate::instruction::{decode_word, split_word, DecodedInstruction, Instruction};
use crate::keypad::{key_index, KeyPad};
use crate::{
    big_font, big_font_data, font_data, small_font, BIG_FONT_MEMORY_START, FONT_MEMORY_START, PROGRAM_START,
};

verus! {

/// Why a program image was refused.
#[derive(PartialEq, Eq, Structural, Copy, Clone, Debug)]
pub enum RomError {
    /// The image does not fit between `0x200` and the end of memory.
    RomTooLarge,
}

/// What the audio output reads: the sound timer, the XO-Chip pattern and pitch, and the dialect.
#[derive(Copy, Clone)]
pub struct AudioView {
    pub sound_timer: u8,
    pub sound_pattern_buffer: [u8; 16],
    pub pitch_register: u8,
    pub mode: Mode,
}

/// One fetch/decode/execute step: the word at the program counter is
/// fetched, the program counter moves past it, and the instruction it stands
/// for (if any) is executed; an unknown word does nothing more.
pub open spec fn step_core(k: Core, keys: Seq<bool>, rnd: u8) -> Core {
    let w = word_at(k.cpu.memory, k.cpu.pc as int);
    let k1 = Core { cpu: CpuModel { pc: add16(k.cpu.pc, 2), ..k.cpu }, ..k };
    match decode_word(w) {
        Some(ins) => next_core(ins, k1, keys, rnd),
        None => k1,
    }
}

/// Steps run one after another, the `j`-th with random byte `rs[j]`.
pub open spec fn run_core(k: Core, keys: Seq<bool>, rs: Seq<u8>) -> Core
    decreases rs.len(),
{
    if rs.len() == 0 {
        k
    } else {
        step_core(run_core(k, keys, rs.drop_last()), keys, rs.last())
    }
}

/// Memory with a program image at `0x200`.
pub open spec fn with_rom(mem: Seq<u8>, rom: Seq<u8>) -> Seq<u8> {
    Seq::new(
        65536,
        |a: int| if 0x200 <= a < 0x200 + rom.len() { rom[a - 0x200] } else { mem[a] },
    )
}

/// Memory with the small font at `0x50` and the big font right after it, at `0xA0`.
pub open spec fn with_fonts(mem: Seq<u8>) -> Seq<u8> {
    Seq::new(
        65536,
        |a: int|
            if 0x50 <= a < 0xA0 {
                small_font()[a - 0x50]
            } else if 0xA0 <= a < 0x104 {
                big_font()[a - 0xA0]
            } else {
                mem[a]
            },
    )
}

/// The largest program image that fits in memory.
pub open spec fn max_rom_len() -> int {
    0x10000 - 0x200
}

/// A CHIP-8 family machine: processor, framebuffer, keypad, the hi-res and
/// running flags, the frame period in nanoseconds, the instructions executed
/// per frame (0 while paused; the rate to resume with is kept aside) and the
/// dialect.
pub struct Chip8 {
    pub state: CpuState,
    pub display: Display,
    pub running: bool,
    pub keys: [bool; 16],
    pub hires_mode: bool,
    pub fps_ns: u64,
    pub ipf: u32,
    pub ipf_before_pause: u32,
    pub compatibility_mode: Mode,
}

impl Chip8 {
    /// The parts of the machine that instructions act on.
    pub open spec fn machine_core(&self) -> Core {
        Core { cpu: self.state@, display: self.display@, hires: self.hires_mode, running: self.running }
    }

    /// A machine in dialect `mode`: cleared memory and registers, the program
    /// counter at `0x200`, a blank lo-res display with plane 1 selected, no key
    /// pressed, running, 60 frames per second and the dialect's default rate.
    pub fn new(mode: Mode) -> (r: Chip8)
        ensures
            r.state@ == fresh_cpu(quirks_of(mode)),
            r.display@ == (DisplayModel { plane_1: blank_plane(), plane_2: blank_plane(), selected_plane: 1 }),
            r.running,
            !r.hires_mode,
            r.keys@ == Seq::new(16, |k: int| false),
            r.fps_ns == 16_666_667,
            r.ipf == default_ipf(mode),
            r.ipf_before_pause == default_ipf(mode),
            r.compatibility_mode == mode,
    {
        let mut chip_8 = Chip8 {
            state: CpuState::with_quirks(Quirks::for_mode(mode)),
            display: Display::new(),
            running: true,
            keys: [false; 16],
            hires_mode: false,
            fps_ns: 16_666_667,
            ipf: 100,
            ipf_before_pause: 100,
            compatibility_mode: mode,
        };
        chip_8.set_compatibility_mode(&mode);
        chip_8.ipf_before_pause = chip_8.ipf;
        assert(chip_8.keys@ =~= Seq::new(16, |k: int| false));
        chip_8
    }

    /// A machine in dialect `mode` with the fonts and the program image `rom` loaded.
    pub fn get_new_and_start(rom: &[u8], mode: Mode) -> (r: Result<Chip8, RomError>)
        ensures
            rom@.len() > max_rom_len() <==> r is Err,
            r matches Ok(c) ==> c.state@ == (CpuModel {
                memory: with_rom(with_fonts(fresh_cpu(quirks_of(mode)).memory), rom@),
                ..fresh_cpu(quirks_of(mode))
            }) && c.display@ == (DisplayModel { plane_1: blank_plane(), plane_2: blank_plane(), selected_plane: 1 })
                && c.running && !c.hires_mode && c.ipf == default_ipf(mode) && c.compatibility_mode == mode,
    {
        let mut chip_8 = Chip8::new(mode);
        match chip_8.start(rom) {
            Ok(()) => Ok(chip_8),
            Err(e) => Err(e),
        }
    }

    /// Switches dialect: the quirk flags and the instruction rate become the
    /// dialect's defaults; memory, registers and the display are kept.
    pub fn set_compatibility_mode(&mut self, mode: &Mode)
        ensures
            final(self).state@ == (CpuModel { quirks: quirks_of(*mode), ..old(self).state@ }),
            final(self).ipf == default_ipf(*mode),
            final(self).compatibility_mode == *mode,
            final(self).display == old(self).display,
            final(self).running == old(self).running,
            final(self).hires_mode == old(self).hires_mode,
            final(self).keys == old(self).keys,
            final(self).fps_ns == old(self).fps_ns,
            final(self).ipf_before_pause == old(self).ipf_before_pause,
    {
        self.compatibility_mode = *mode;
        self.state.set_compatibility_mode(mode);
        self.ipf = match mode {
            Mode::Chip8 => 100,
            Mode::SuperChip => 500,
            Mode::XoChip => 1000,
            Mode::Experimental => 500,
        };
    }

    /// Clears the running flag, so the loops that drive the machine end, and
    /// blanks both planes, so the last published frame is empty.
    pub fn stop(&mut self)
        ensures
            !final(self).running,
            final(self).display@ == (DisplayModel {
                plane_1: blank_plane(),
                plane_2: blank_plane(),
                ..old(self).display@
            }),
            final(self).state@ == old(self).state@,
            final(self).hires_mode == old(self).hires_mode,
            final(self).keys == old(self).keys,
            final(self).ipf == old(self).ipf,
    {
        self.running = false;
        self.display.plane_1 = [false; 8192];
        self.display.plane_2 = [false; 8192];
        assert(self.display@ =~= (DisplayModel { plane_1: blank_plane(), plane_2: blank_plane(), ..old(self).display@ }));
    }

    /// Loads the fonts and the program image `rom`; refused, with nothing
    /// changed, when the image does not fit in memory.
    pub fn start(&mut self, rom: &[u8]) -> (r: Result<(), RomError>)
        ensures
            rom@.len() > max_rom_len() <==> r is Err,
            r is Ok ==> final(self).state@ == (CpuModel {
                memory: with_rom(with_fonts(old(self).state@.memory), rom@),
                ..old(self).state@
            }),
            r is Err ==> final(self).state@ == old(self).state@,
            final(self).display == old(self).display,
            final(self).running == old(self).running,
            final(self).hires_mode == old(self).hires_mode,
            final(self).ipf == old(self).ipf,
            final(self).compatibility_mode == old(self).compatibility_mode,
    {
        if rom.len() > 0xFE00 {
            return Err(RomError::RomTooLarge);
        }
        self.load_font_into_memory();
        self.load_cartridge(rom)
    }

    /// Writes the small font at `0x50` and the big font at `0xA0`.
    pub fn load_font_into_memory(&mut self)
        ensures
            final(self).state@ == (CpuModel { memory: with_fonts(old(self).state@.memory), ..old(self).state@ }),
            final(self).display == old(self).display,
            final(self).running == old(self).running,
            final(self).hires_mode == old(self).hires_mode,
            final(self).ipf == old(self).ipf,
            final(self).compatibility_mode == old(self).compatibility_mode,
    {
        let ghost c = self.state@;
        let small = font_data();
        let big = big_font_data();
        let mut k: usize = 0;
        while k < 80
            invariant
                0 <= k <= 80,
                small@ == small_font(),
                self.state@ == (CpuModel { memory: self.state@.memory, ..c }),
                self.state@.memory.len() == 65536,
                forall|a: int| 0 <= a < 65536 ==> self.state@.memory[a] == if 0x50 <= a < 0x50 + k {
                    small_font()[a - 0x50]
                } else {
                    c.memory[a]
                },
                self.display == old(self).display,
                self.running == old(self).running,
                self.hires_mode == old(self).hires_mode,
                self.ipf == old(self).ipf,
                self.compatibility_mode == old(self).compatibility_mode,
            decreases 80 - k,
        {
            self.state.memory[FONT_MEMORY_START + k] = small[k];
            k = k + 1;
        }
        let mut k: usize = 0;
        while k < 100
            invariant
                0 <= k <= 100,
                big@ == big_font(),
                self.state@ == (CpuModel { memory: self.state@.memory, ..c }),
                self.state@.memory.len() == 65536,
                forall|a: int| 0 <= a < 65536 ==> self.state@.memory[a] == if 0x50 <= a < 0xA0 {
                    small_font()[a - 0x50]
                } else if 0xA0 <= a < 0xA0 + k {
                    big_font()[a - 0xA0]
                } else {
                    c.memory[a]
                },
                self.display == old(self).display,
                self.running == old(self).running,
                self.hires_mode == old(self).hires_mode,
                self.ipf == old(self).ipf,
                self.compatibility_mode == old(self).compatibility_mode,
            decreases 100 - k,
        {
            self.state.memory[BIG_FONT_MEMORY_START + k] = big[k];
            k = k + 1;
        }
        assert(self.state@.memory =~= with_fonts(c.memory));
        assert(self.state@ =~= (CpuModel { memory: with_fonts(c.memory), ..c }));
    }

    /// Copies the program image `rom` to memory from `0x200` on; refused, with
    /// nothing changed, when it does not fit.
    pub fn load_cartridge(&mut self, rom: &[u8]) -> (r: Result<(), RomError>)
        ensures
            rom@.len() > max_rom_len() <==> r is Err,
            r is Ok ==> final(self).state@ == (CpuModel {
                memory: with_rom(old(self).state@.memory, rom@),
                ..old(self).state@
            }),
            r is Err ==> final(self).state@ == old(self).state@,
            final(self).display == old(self).display,
            final(self).running == old(self).running,
            final(self).hires_mode == old(self).hires_mode,
            final(self).ipf == old(self).ipf,
            final(self).compatibility_mode == old(self).compatibility_mode,
    {
        if rom.len() > 0xFE00 {
            return Err(RomError::RomTooLarge);
        }
        let ghost c = self.state@;
        let mut k: usize = 0;
        while k < rom.len()
            invariant
                0 <= k <= rom.len() <= 0xFE00,
                self.state@ == (CpuModel { memory: self.state@.memory, ..c }),
                self.state@.memory.len() == 65536,
                forall|a: int| 0 <= a < 65536 ==> self.state@.memory[a] == if 0x200 <= a < 0x200 + k {
                    rom@[a - 0x200]
                } else {
                    c.memory[a]
                },
                self.display == old(self).display,
                self.running == old(self).running,
                self.hires_mode == old(self).hires_mode,
                self.ipf == old(self).ipf,
                self.compatibility_mode == old(self).compatibility_mode,
            decreases rom.len() - k,
        {
            self.state.memory[PROGRAM_START + k] = rom[k];
            k = k + 1;
        }
        assert(self.state@.memory =~= with_rom(c.memory, rom@));
        assert(self.state@ =~= (CpuModel { memory: with_rom(c.memory, rom@), ..c }));
        Ok(())
    }

    /// Records that `pressed_key` went down (`pressed`) or up.
    pub fn handle_input(&mut self, pressed_key: KeyPad, pressed: bool)
        ensures
            final(self).keys@ == old(self).keys@.update(key_index(pressed_key), pressed),
            final(self).machine_core() == old(self).machine_core(),
            final(self).ipf == old(self).ipf,
    {
        self.keys[pressed_key.index()] = pressed;
    }

    /// Releases every key.
    pub fn clear_keys(&mut self)
        ensures
            final(self).keys@ == Seq::new(16, |k: int| false),
            final(self).machine_core() == old(self).machine_core(),
            final(self).ipf == old(self).ipf,
    {
        self.keys = [false; 16];
        assert(self.keys@ =~= Seq::new(16, |k: int| false));
    }

    /// Stalls the processor: the current rate is kept aside and the rate becomes 0.
    pub fn pause(&mut self)
        ensures
            final(self).ipf == 0,
            final(self).ipf_before_pause == old(self).ipf,
            final(self).machine_core() == old(self).machine_core(),
            final(self).keys == old(self).keys,
    {
        self.ipf_before_pause = self.ipf;
        self.ipf = 0;
    }

    /// Restores the rate kept aside by `pause`.
    pub fn resume(&mut self)
        ensures
            final(self).ipf == old(self).ipf_before_pause,
            final(self).ipf_before_pause == old(self).ipf_before_pause,
            final(self).machine_core() == old(self).machine_core(),
            final(self).keys == old(self).keys,
    {
        self.ipf = self.ipf_before_pause;
    }

    /// Sets the number of instructions executed per frame.
    pub fn set_ipf(&mut self, ipf: u32)
        ensures
            final(self).ipf == ipf,
            final(self).machine_core() == old(self).machine_core(),
            final(self).keys == old(self).keys,
    {
        self.ipf = ipf;
    }

    /// Sets the frame rate; the frame period becomes `10^9 / fps` nanoseconds.
    /// A rate of 0 is refused and changes nothing.
    pub fn set_fps(&mut self, fps: u16) -> (accepted: bool)
        ensures
            accepted == (fps > 0),
            final(self).fps_ns == if fps > 0 { 1_000_000_000int / fps as int } else { old(self).fps_ns as int },
            final(self).machine_core() == old(self).machine_core(),
            final(self).ipf == old(self).ipf,
    {
        if fps == 0 {
            return false;
        }
        self.fps_ns = 1_000_000_000u64 / (fps as u64);
        true
    }

    /// A copy of the framebuffer.
    pub fn snapshot_display(&self) -> (r: Display)
        ensures
            r@ == self.display@,
    {
        self.display
    }

    /// What the audio output reads.
    pub fn snapshot_audio(&self) -> (r: AudioView)
        ensures
            r.sound_timer == self.state.sound_timer,
            r.sound_pattern_buffer@ == self.state.sound_pattern_buffer@,
            r.pitch_register == self.state.pitch_register,
            r.mode == self.compatibility_mode,
    {
        AudioView {
            sound_timer: self.state.sound_timer,
            sound_pattern_buffer: self.state.sound_pattern_buffer,
            pitch_register: self.state.pitch_register,
            mode: self.compatibility_mode,
        }
    }

    /// The instruction word at the program counter; nothing moves.
    pub fn fetch(&self) -> (r: u16)
        ensures
            r == word_at(self.state@.memory, self.state.pc as int),
    {
        self.state.fetch()
    }

    /// Splits an instruction word into its fields.
    pub fn decode(instruction: u16) -> (r: DecodedInstruction)
        ensures
            r == split_word(instruction),
    {
        DecodedInstruction::from_word(instruction)
    }

    /// One fetch/decode/execute step; `random_byte` is what `CXNN` masks.
    pub fn step(&mut self, random_byte: u8)
        ensures
            final(self).machine_core() == step_core(old(self).machine_core(), old(self).keys@, random_byte),
            final(self).keys == old(self).keys,
            final(self).ipf == old(self).ipf,
            final(self).ipf_before_pause == old(self).ipf_before_pause,
            final(self).fps_ns == old(self).fps_ns,
            final(self).compatibility_mode == old(self).compatibility_mode,
    {
        let ghost k = self.machine_core();
        let ins = self.state.get_current_instruction(true);
        match ins {
            Some(ins) => {
                ins.execute(
                    &mut self.state,
                    &mut self.display,
                    &self.keys,
                    &mut self.hires_mode,
                    &mut self.running,
                    random_byte,
                );
            },
            None => {},
        }
        assert(self.machine_core() =~= step_core(k, self.keys@, random_byte));
    }

    /// One tick of the processor loop: `ipf` steps, each with a fresh random byte.
    pub fn cpu_tick(&mut self)
        ensures
            exists|rs: Seq<u8>| rs.len() == old(self).ipf
                && #[trigger] run_core(old(self).machine_core(), old(self).keys@, rs) == final(self).machine_core(),
            final(self).keys == old(self).keys,
            final(self).ipf == old(self).ipf,
            final(self).ipf_before_pause == old(self).ipf_before_pause,
            final(self).fps_ns == old(self).fps_ns,
            final(self).compatibility_mode == old(self).compatibility_mode,
    {
        let ghost k0 = self.machine_core();
        let ghost mut rs: Seq<u8> = seq![];
        let mut n: u32 = 0;
        while n < self.ipf
            invariant
                0 <= n <= self.ipf,
                rs.len() == n,
                self.machine_core() == run_core(k0, self.keys@, rs),
                self.keys == old(self).keys,
                self.ipf == old(self).ipf,
                self.ipf_before_pause == old(self).ipf_before_pause,
                self.fps_ns == old(self).fps_ns,
                self.compatibility_mode == old(self).compatibility_mode,
            decreases self.ipf - n,
        {
            let r = random_byte();
            self.step(r);
            proof {
                let rs1 = rs.push(r);
                assert(rs1.drop_last() =~= rs);
                rs = rs1;
            }
            n = n + 1;
        }
    }

    /// One tick of the 60 Hz timer loop: both timers count down to 0.
    pub fn timer_tick(&mut self)
        ensures
            final(self).state@ == (CpuModel {
                delay_timer: if old(self).state.delay_timer > 0 { (old(self).state.delay_timer - 1) as u8 } else { 0 },
                sound_timer: if old(self).state.sound_timer > 0 { (old(self).state.sound_timer - 1) as u8 } else { 0 },
                ..old(self).state@
            }),
            final(self).display == old(self).display,
            final(self).running == old(self).running,
            final(self).hires_mode == old(self).hires_mode,
            final(self).keys == old(self).keys,
            final(self).ipf == old(self).ipf,
    {
        if self.state.delay_timer > 0 {
            self.state.delay_timer = self.state.delay_timer - 1;
        }
        if self.state.sound_timer > 0 {
            self.state.sound_timer = self.state.sound_timer - 1;
        }
    }
}

/// Relies on `rand::random`: a byte drawn from the thread-local generator.
/// Nothing is known of its value.
#[verifier::external_body]
fn random_byte() -> u8 {
    rand::random::<u8>()
}

/// Whether the program counter and every return address on the stack are even.
pub open spec fn even_addresses(c: CpuModel) -> bool {
    c.pc % 2 == 0 && forall|j: int| 0 <= j < c.stack.len() ==> #[trigger] c.stack[j] % 2 == 0
}

/// Whether the instruction at the program counter jumps or calls to an odd address.
pub open spec fn jumps_to_odd(k: Core) -> bool {
    match decode_word(word_at(k.cpu.memory, k.cpu.pc as int)) {
        Some(Instruction::I1NNN { nnn }) => nnn % 2 == 1,
        Some(Instruction::I2NNN { nnn }) => nnn % 2 == 1,
        Some(Instruction::IBNNN { x, nnn }) => add16(
            nnn,
            if k.cpu.quirks.jump_uses_vx { v(k.cpu, x) as int } else { v(k.cpu, 0) as int },
        ) % 2 == 1,
        _ => false,
    }
}

proof fn lemma_add16_even(a: u16, d: int)
    requires
        a % 2 == 0,
        d % 2 == 0,
        0 <= d,
    ensures
        add16(a, d) % 2 == 0,
{
    vstd::arithmetic::div_mod::lemma_fundamental_div_mod(a + d, 65536);
}

proof fn lemma_next_cpu_even(ins: Instruction, c: CpuModel, keys: Seq<bool>, rnd: u8)
    requires
        model_ok(c),
        even_addresses(c),
        !(ins matches Instruction::I1NNN { nnn } && nnn % 2 == 1),
        !(ins matches Instruction::I2NNN { nnn } && nnn % 2 == 1),
        !(ins matches Instruction::IBNNN { x, nnn } && add16(
            nnn,
            if c.quirks.jump_uses_vx { v(c, x) as int } else { v(c, 0) as int },
        ) % 2 == 1),
    ensures
        even_addresses(next_cpu(ins, c, keys, rnd)),
{
    reveal(next_cpu);
    lemma_add16_even(c.pc, 2);
    lemma_add16_even(c.pc, 4);
    lemma_add16_even(c.pc, 65534);
    let c1 = next_cpu(ins, c, keys, rnd);
    match ins {
        Instruction::I00EE => {
            if c.stack.len() > 0 {
                assert(c.stack[c.stack.len() - 1] % 2 == 0);
                assert forall|j: int| 0 <= j < c1.stack.len() implies #[trigger] c1.stack[j] % 2 == 0 by {
                    assert(c1.stack[j] == c.stack[j]);
                }
            }
        },
        Instruction::I2NNN { nnn } => {
            assert forall|j: int| 0 <= j < c1.stack.len() implies #[trigger] c1.stack[j] % 2 == 0 by {
                if j < c.stack.len() {
                    assert(c1.stack[j] == c.stack[j]);
                }
            }
        },
        _ => {},
    }
}

/// Even addresses stay even: a step from a state whose program counter and
/// return addresses are even leaves them even (and below `0x10000`), unless
/// the instruction executed jumps or calls to an odd address. `F000` and the
/// skips over it move the program counter by four, so they keep it even too.
pub proof fn lemma_pc_stays_even(k: Core, keys: Seq<bool>, rnd: u8)
    requires
        model_ok(k.cpu),
        even_addresses(k.cpu),
        !jumps_to_odd(k),
    ensures
        even_addresses(step_core(k, keys, rnd).cpu),
        step_core(k, keys, rnd).cpu.pc < 0x10000,
{
    let w = word_at(k.cpu.memory, k.cpu.pc as int);
    let c1 = CpuModel { pc: add16(k.cpu.pc, 2), ..k.cpu };
    let k1 = Core { cpu: c1, ..k };
    lemma_add16_even(k.cpu.pc, 2);
    match decode_word(w) {
        Some(ins) => {
            lemma_next_cpu_even(ins, c1, keys, rnd);
            let k2 = next_core(ins, k1, keys, rnd);
            if ins is IDXYN || ins is IDXY0 {
                assert(k2.cpu.pc == c1.pc && k2.cpu.stack == c1.stack);
            }
        },
        None => {},
    }
}

proof fn lemma_back_and_forth(pc: u16)
    ensures
        add16(add16(pc, 2), 65534) == pc,
{
    assert(add16(pc, 2) as int == (pc as int + 2) % 65536);
    if pc as int + 2 < 65536 {
        assert((pc as int + 2) % 65536 == pc as int + 2);
        vstd::arithmetic::div_mod::lemma_mod_sub_multiples_vanish(pc as int, 65536);
        assert((pc as int + 2 + 65534) % 65536 == pc as int);
    } else {
        assert((pc as int + 2) % 65536 == pc as int + 2 - 65536);
        assert((pc as int + 2 - 65536 + 65534) % 65536 == pc as int);
    }
}

/// Whether the word at the program counter is `FX0A`.
pub open spec fn at_wait_key(k: Core, x: u8) -> bool {
    decode_word(word_at(k.cpu.memory, k.cpu.pc as int)) == Some(Instruction::IFX0A { x })
}

/// Pressing a key while `FX0A` waits latches it and does not advance: the
/// program counter stays on the instruction and nothing else changes.
pub proof fn lemma_wait_key_press(k: Core, x: u8, keys: Seq<bool>, rnd: u8)
    requires
        at_wait_key(k, x),
        k.cpu.awaiting_key is None,
    ensures
        step_core(k, keys, rnd) == (Core {
            cpu: CpuModel { awaiting_key: crate::execute::first_pressed(keys), ..k.cpu },
            ..k
        }),
{
    let c1 = CpuModel { pc: add16(k.cpu.pc, 2), ..k.cpu };
    crate::execute::lemma_fx0a(c1, x, keys, rnd);
    lemma_back_and_forth(k.cpu.pc);
    assert(step_core(k, keys, rnd).cpu =~= CpuModel { awaiting_key: crate::execute::first_pressed(keys), ..k.cpu });
}

/// Holding the latched key is a fixed point: however many steps run while
/// the key stays down, the machine does not change.
pub proof fn lemma_wait_key_hold(k: Core, x: u8, keys: Seq<bool>, rs: Seq<u8>)
    requires
        at_wait_key(k, x),
        k.cpu.awaiting_key matches Some(key) && keys[(key % 16) as int],
    ensures
        run_core(k, keys, rs) == k,
    decreases rs.len(),
{
    if rs.len() > 0 {
        lemma_wait_key_hold(k, x, keys, rs.drop_last());
        let c1 = CpuModel { pc: add16(k.cpu.pc, 2), ..k.cpu };
        crate::execute::lemma_fx0a(c1, x, keys, rs.last());
        lemma_back_and_forth(k.cpu.pc);
        assert(step_core(k, keys, rs.last()).cpu =~= k.cpu);
    }
}

/// Releasing the latched key completes `FX0A` on that step: the key's number
/// lands in `Vx`, the latch clears and the program counter moves past the instruction.
pub proof fn lemma_wait_key_release(k: Core, x: u8, keys: Seq<bool>, rnd: u8)
    requires
        at_wait_key(k, x),
        k.cpu.awaiting_key matches Some(key) && !keys[(key % 16) as int],
        model_ok(k.cpu),
    ensures
        step_core(k, keys, rnd).cpu.registers[(x % 16) as int] == k.cpu.awaiting_key->Some_0,
        step_core(k, keys, rnd).cpu.awaiting_key is None,
        step_core(k, keys, rnd).cpu.pc == add16(k.cpu.pc, 2),
{
    let c1 = CpuModel { pc: add16(k.cpu.pc, 2), ..k.cpu };
    crate::execute::lemma_fx0a(c1, x, keys, rnd);
}

/// A step keeps the sizes of memory and of the register files.
pub proof fn lemma_step_model_ok(k: Core, keys: Seq<bool>, rnd: u8)
    requires
        model_ok(k.cpu),
    ensures
        model_ok(step_core(k, keys, rnd).cpu),
{
    let k1 = Core { cpu: CpuModel { pc: add16(k.cpu.pc, 2), ..k.cpu }, ..k };
    match decode_word(word_at(k.cpu.memory, k.cpu.pc as int)) {
        Some(ins) => crate::execute::lemma_next_core_model_ok(ins, k1, keys, rnd),
        None => {},
    }
}

/// For every sequence of steps, the program counter and the return addresses
/// stay even (and the program counter below `0x10000`) as long as no step
/// jumps or calls to an odd address.
pub proof fn lemma_run_keeps_pc_even(k: Core, keys: Seq<bool>, rs: Seq<u8>)
    requires
        model_ok(k.cpu),
        even_addresses(k.cpu),
        forall|j: int| 0 <= j < rs.len() ==> !jumps_to_odd(#[trigger] run_core(k, keys, rs.take(j))),
    ensures
        model_ok(run_core(k, keys, rs).cpu),
        even_addresses(run_core(k, keys, rs).cpu),
    decreases rs.len(),
{
    if rs.len() > 0 {
        let front = rs.drop_last();
        assert forall|j: int| 0 <= j < front.len() implies !jumps_to_odd(#[trigger] run_core(k, keys, front.take(j))) by {
            assert(front.take(j) =~= rs.take(j));
        }
        lemma_run_keeps_pc_even(k, keys, front);
        let last = (rs.len() - 1) as int;
        assert(rs.take(last) =~= front);
        assert(!jumps_to_odd(run_core(k, keys, rs.take(last))));
        lemma_step_model_ok(run_core(k, keys, front), keys, rs.last());
        lemma_pc_stays_even(run_core(k, keys, front), keys, rs.last());
    }
}

} // verus!
