//! Registers, memory, timers and quirk flags of the interpreter.
use vstd::prelude::*;
use crate::instruction::{decode_word, DecodedInstruction, Instruction};

verus! {

/// The dialect whose quirks the interpreter follows.
#[derive(PartialEq, Eq, Structural, Copy, Clone, Debug)]
pub enum Mode {
    Chip8,
    SuperChip,
    XoChip,
    Experimental,
}

/// The behaviour differences between dialects.
#[derive(PartialEq, Eq, Structural, Copy, Clone, Debug)]
pub struct Quirks {
    /// `8XY6`/`8XYE` shift `Vx` in place instead of shifting `Vy` into `Vx`.
    pub shift_uses_x_only: bool,
    /// `BNNN` jumps to `NNN + Vx` (x the high nibble of `NNN`) instead of `NNN + V0`.
    pub jump_uses_vx: bool,
    /// `FX55`/`FX65` advance `I` past the bytes they move.
    pub load_store_increments_i: bool,
    /// `8XY1`/`8XY2`/`8XY3` clear `VF` afterwards.
    pub logic_clears_vf: bool,
    /// `FX1E` sets `VF` to the carry out of `I`.
    pub add_i_sets_vf: bool,
    /// Sprites wrap around the framebuffer instead of being clipped at its border.
    pub allow_scroll_in_lowres: bool,
}

/// The quirk flags of each dialect.
pub open spec fn quirks_of(mode: Mode) -> Quirks {
    match mode {
        Mode::Chip8 => Quirks {
            shift_uses_x_only: false,
            jump_uses_vx: false,
            load_store_increments_i: true,
            logic_clears_vf: true,
            add_i_sets_vf: false,
            allow_scroll_in_lowres: false,
        },
        Mode::SuperChip => Quirks {
            shift_uses_x_only: true,
            jump_uses_vx: true,
            load_store_increments_i: false,
            logic_clears_vf: false,
            add_i_sets_vf: false,
            allow_scroll_in_lowres: false,
        },
        Mode::XoChip => Quirks {
            shift_uses_x_only: false,
            jump_uses_vx: false,
            load_store_increments_i: true,
            logic_clears_vf: false,
            add_i_sets_vf: false,
            allow_scroll_in_lowres: true,
        },
        Mode::Experimental => Quirks {
            shift_uses_x_only: false,
            jump_uses_vx: false,
            load_store_increments_i: false,
            logic_clears_vf: false,
            add_i_sets_vf: false,
            allow_scroll_in_lowres: true,
        },
    }
}

/// The default number of instructions per frame of each dialect.
pub open spec fn default_ipf(mode: Mode) -> u32 {
    match mode {
        Mode::Chip8 => 100,
        Mode::SuperChip => 500,
        Mode::XoChip => 1000,
        Mode::Experimental => 500,
    }
}

impl Quirks {
    /// The quirk flags of a dialect.
    pub fn for_mode(mode: Mode) -> (r: Quirks)
        ensures
            r == quirks_of(mode),
    {
        match mode {
            Mode::Chip8 => Quirks {
                shift_uses_x_only: false,
                jump_uses_vx: false,
                load_store_increments_i: true,
                logic_clears_vf: true,
                add_i_sets_vf: false,
                allow_scroll_in_lowres: false,
            },
            Mode::SuperChip => Quirks {
                shift_uses_x_only: true,
                jump_uses_vx: true,
                load_store_increments_i: false,
                logic_clears_vf: false,
                add_i_sets_vf: false,
                allow_scroll_in_lowres: false,
            },
            Mode::XoChip => Quirks {
                shift_uses_x_only: false,
                jump_uses_vx: false,
                load_store_increments_i: true,
                logic_clears_vf: false,
                add_i_sets_vf: false,
                allow_scroll_in_lowres: true,
            },
            Mode::Experimental => Quirks {
                shift_uses_x_only: false,
                jump_uses_vx: false,
                load_store_increments_i: false,
                logic_clears_vf: false,
                add_i_sets_vf: false,
                allow_scroll_in_lowres: true,
            },
        }
    }
}

/// The state of the interpreter's processor: 64 KiB of memory, the program
/// counter, the index register `I`, the call stack, the registers `V0`..`VF`
/// (`VF` doubles as the flag register), the SuperChip RPL flags, the two
/// timers, the XO-Chip audio pattern and pitch, the key latched by a pending
/// `FX0A`, and the quirk flags.
pub struct CpuState {
    pub memory: [u8; 65536],
    pub pc: u16,
    pub i: u16,
    pub stack: Vec<u16>,
    pub registers: [u8; 16],
    pub rpl_flags: [u8; 8],
    pub delay_timer: u8,
    pub sound_timer: u8,
    pub sound_pattern_buffer: [u8; 16],
    pub pitch_register: u8,
    pub awaiting_key: Option<u8>,
    pub quirks: Quirks,
}

/// The mathematical value of a `CpuState`.
#[verifier::ext_equal]
pub struct CpuModel {
    pub memory: Seq<u8>,
    pub pc: u16,
    pub i: u16,
    pub stack: Seq<u16>,
    pub registers: Seq<u8>,
    pub rpl_flags: Seq<u8>,
    pub delay_timer: u8,
    pub sound_timer: u8,
    pub sound_pattern_buffer: Seq<u8>,
    pub pitch_register: u8,
    pub awaiting_key: Option<u8>,
    pub quirks: Quirks,
}

impl View for CpuState {
    type V = CpuModel;

    open spec fn view(&self) -> CpuModel {
        CpuModel {
            memory: self.memory@,
            pc: self.pc,
            i: self.i,
            stack: self.stack@,
            registers: self.registers@,
            rpl_flags: self.rpl_flags@,
            delay_timer: self.delay_timer,
            sound_timer: self.sound_timer,
            sound_pattern_buffer: self.sound_pattern_buffer@,
            pitch_register: self.pitch_register,
            awaiting_key: self.awaiting_key,
            quirks: self.quirks,
        }
    }
}

/// Whether a model has the sizes of a real state.
pub open spec fn model_ok(c: CpuModel) -> bool {
    c.memory.len() == 65536 && c.registers.len() == 16 && c.rpl_flags.len() == 8
        && c.sound_pattern_buffer.len() == 16
}

/// The byte at address `a`, wrapping around the 64 KiB memory.
pub open spec fn byte_at(mem: Seq<u8>, a: int) -> u8 {
    mem[a % 65536]
}

/// The big-endian word at address `a`, wrapping around the 64 KiB memory.
pub open spec fn word_at(mem: Seq<u8>, a: int) -> u16 {
    (byte_at(mem, a) as int * 256 + byte_at(mem, a + 1) as int) as u16
}

/// `a + d` modulo 2^16.
pub open spec fn add16(a: u16, d: int) -> u16 {
    ((a as int + d) % 65536) as u16
}

/// How far a skip moves the program counter: past the four-byte `F000` or
/// past one two-byte instruction.
pub open spec fn skip_len(c: CpuModel) -> int {
    if word_at(c.memory, c.pc as int) == 0xF000 { 4 } else { 2 }
}

/// The state after skipping the instruction at the program counter.
pub open spec fn skipped(c: CpuModel) -> CpuModel {
    CpuModel { pc: add16(c.pc, skip_len(c)), ..c }
}

/// The state of a machine that was just constructed in a dialect.
pub open spec fn fresh_cpu(q: Quirks) -> CpuModel {
    CpuModel {
        memory: Seq::new(65536, |a: int| 0u8),
        pc: 0x200,
        i: 0,
        stack: seq![],
        registers: Seq::new(16, |r: int| 0u8),
        rpl_flags: Seq::new(8, |r: int| 0u8),
        delay_timer: 0,
        sound_timer: 0,
        sound_pattern_buffer: Seq::new(16, |k: int| 0u8),
        pitch_register: 64,
        awaiting_key: None,
        quirks: q,
    }
}

impl CpuState {
    /// A cleared state with the program counter at `0x200`, the pitch at 64
    /// (4000 Hz playback) and the quirk flags `quirks`.
    pub fn with_quirks(quirks: Quirks) -> (r: CpuState)
        ensures
            r@ == fresh_cpu(quirks),
    {
        let r = CpuState {
            memory: [0u8; 65536],
            pc: 0x200,
            i: 0,
            stack: Vec::new(),
            registers: [0u8; 16],
            rpl_flags: [0u8; 8],
            delay_timer: 0,
            sound_timer: 0,
            sound_pattern_buffer: [0u8; 16],
            pitch_register: 64,
            awaiting_key: None,
            quirks,
        };
        assert(r@ =~= fresh_cpu(quirks));
        r
    }

    /// Applies the quirk flags of a dialect; nothing else changes.
    pub fn set_compatibility_mode(&mut self, mode: &Mode)
        ensures
            final(self)@ == (CpuModel { quirks: quirks_of(*mode), ..old(self)@ }),
    {
        self.quirks = Quirks::for_mode(*mode);
    }

    /// The big-endian word at the program counter; the program counter does not move.
    pub fn fetch(&self) -> (r: u16)
        ensures
            r == word_at(self@.memory, self.pc as int),
    {
        let hi = self.memory[self.pc as usize];
        let lo = self.memory[((self.pc as usize) + 1) % 65536];
        proof {
            assert((self.pc as int) % 65536 == self.pc as int);
            assert(((hi as u16) << 8u16) | (lo as u16) == (hi as int * 256 + lo as int) as u16)
                by (bit_vector);
        }
        ((hi as u16) << 8) | (lo as u16)
    }

    /// The instruction that a word stands for, if any.
    pub fn decode(instruction: u16) -> (r: Option<Instruction>)
        ensures
            r == decode_word(instruction),
    {
        DecodedInstruction::from_word(instruction).to_instruction()
    }

    /// Moves the program counter to the next instruction.
    pub fn advance(&mut self)
        ensures
            final(self)@ == (CpuModel { pc: add16(old(self).pc, 2), ..old(self)@ }),
    {
        self.pc = ((self.pc as u32 + 2) % 65536) as u16;
    }

    /// Fetches and decodes the instruction at the program counter, and moves
    /// past it when `increment_pc` holds.
    pub fn get_current_instruction(&mut self, increment_pc: bool) -> (r: Option<Instruction>)
        ensures
            r == decode_word(word_at(old(self)@.memory, old(self).pc as int)),
            final(self)@ == if increment_pc {
                CpuModel { pc: add16(old(self).pc, 2), ..old(self)@ }
            } else {
                old(self)@
            },
    {
        let instruction = self.fetch();
        if increment_pc {
            self.advance();
        }
        Self::decode(instruction)
    }

    /// Skips the instruction at the program counter: four bytes for `F000`,
    /// which carries a 16-bit operand, two for any other word.
    pub fn skip_instruction(&mut self)
        ensures
            final(self)@ == skipped(old(self)@),
    {
        let w = self.fetch();
        let len: u32 = if w == 0xF000 { 4 } else { 2 };
        self.pc = ((self.pc as u32 + len) % 65536) as u16;
    }
}

impl Default for CpuState {
    /// A cleared state with the quirk flags of CHIP-8.
    fn default() -> (r: CpuState)
        ensures
            r@ == fresh_cpu(quirks_of(Mode::Chip8)),
    {
        CpuState::with_quirks(Quirks::for_mode(Mode::Chip8))
    }
}

} // verus!
