//! The effect of each instruction on the processor, the framebuffer and the
//! machine's resolution and running flags.
use vstd::prelude::*;
use crate::cpu_state::{add16, byte_at, model_ok, skipped, word_at, CpuModel, CpuState};
use crate::display::{
    is_selected, cleared_display, draw_collides, drawn_display, scrolled_display, Display, DisplayModel,
    ScrollDirection, SpritePlacement,
};
use crate::instruction::Instruction;

verus! {

/// Everything an instruction can change: the processor, the framebuffer, the
/// hi-res flag and the running flag.
#[verifier::ext_equal]
pub struct Core {
    pub cpu: CpuModel,
    pub display: DisplayModel,
    pub hires: bool,
    pub running: bool,
}

/// The register that an operand nibble names (masked to `0..=15`).
pub open spec fn reg(x: u8) -> int {
    (x % 16) as int
}

/// The value of register `Vx`.
pub open spec fn v(c: CpuModel, x: u8) -> u8 {
    c.registers[reg(x)]
}

/// The state with register `r` set to `val`.
pub open spec fn with_reg(c: CpuModel, r: int, val: u8) -> CpuModel {
    CpuModel { registers: c.registers.update(r, val), ..c }
}

/// The state with the flag register `VF` set to `val`.
pub open spec fn with_flag(c: CpuModel, val: u8) -> CpuModel {
    with_reg(c, 15, val)
}

/// The state after a conditional skip.
pub open spec fn skip_if(c: CpuModel, cond: bool) -> CpuModel {
    if cond { skipped(c) } else { c }
}

/// Memory with `vals` written from address `base` on, wrapping around 64 KiB.
/// It is opaque to keep proofs small: `reveal(stored)` unfolds it.
#[verifier::opaque]
pub open spec fn stored(mem: Seq<u8>, base: int, vals: Seq<u8>) -> Seq<u8> {
    Seq::new(
        65536,
        |a: int| if (a - base) % 65536 < vals.len() { vals[(a - base) % 65536] } else { mem[a] },
    )
}

/// The `count` bytes of memory from address `base` on, wrapping around 64 KiB.
pub open spec fn loaded(mem: Seq<u8>, base: int, count: int) -> Seq<u8> {
    Seq::new(count as nat, |k: int| byte_at(mem, base + k))
}

/// The hundreds, tens and ones digits of a byte.
pub open spec fn bcd(val: u8) -> Seq<u8> {
    seq![val / 100, (val % 100) / 10, val % 10]
}

/// The lowest pressed key at or above position `i`.
pub open spec fn first_pressed_from(keys: Seq<bool>, i: int) -> Option<u8>
    decreases 16 - i,
{
    if i >= 16 || i < 0 {
        None
    } else if keys[i] {
        Some(i as u8)
    } else {
        first_pressed_from(keys, i + 1)
    }
}

/// The lowest pressed key.
pub open spec fn first_pressed(keys: Seq<bool>) -> Option<u8> {
    first_pressed_from(keys, 0)
}

/// The lower of the two registers that `5XY2`/`5XY3` name.
pub open spec fn range_lo(x: u8, y: u8) -> int {
    if reg(x) <= reg(y) { reg(x) } else { reg(y) }
}

/// The higher of the two registers that `5XY2`/`5XY3` name.
pub open spec fn range_hi(x: u8, y: u8) -> int {
    if reg(x) <= reg(y) { reg(y) } else { reg(x) }
}

/// The position in memory, counted from `I`, of register `r` for `5XY2`/`5XY3`:
/// `Vx` comes first, then the registers towards `Vy`.
pub open spec fn range_offset(x: u8, y: u8, r: int) -> int {
    if reg(x) <= reg(y) { r - reg(x) } else { reg(x) - r }
}

/// The registers `Vx` to `Vy`, in that order (descending when `x > y`).
pub open spec fn range_regs(c: CpuModel, x: u8, y: u8) -> Seq<u8> {
    Seq::new(
        (range_hi(x, y) - range_lo(x, y) + 1) as nat,
        |k: int| c.registers[if reg(x) <= reg(y) { reg(x) + k } else { reg(x) - k }],
    )
}

/// The registers after `5XY3`.
pub open spec fn regs_from_range(c: CpuModel, x: u8, y: u8) -> Seq<u8> {
    Seq::new(
        16,
        |r: int|
            if range_lo(x, y) <= r <= range_hi(x, y) {
                byte_at(c.memory, c.i + range_offset(x, y, r))
            } else {
                c.registers[r]
            },
    )
}

/// A bitwise operation into `Vx`, then `VF` cleared where the dialect says so.
pub open spec fn logic(c: CpuModel, x: u8, val: u8) -> CpuModel {
    let c1 = with_reg(c, reg(x), val);
    if c.quirks.logic_clears_vf { with_flag(c1, 0) } else { c1 }
}

/// The value that `8XY6`/`8XYE` shift.
pub open spec fn shift_source(c: CpuModel, x: u8, y: u8) -> u8 {
    if c.quirks.shift_uses_x_only { v(c, x) } else { v(c, y) }
}

/// The state with the program counter moved back onto the instruction just fetched.
pub open spec fn held(c: CpuModel) -> CpuModel {
    CpuModel { pc: add16(c.pc, 65534), ..c }
}

/// `FX0A`: a latched key that is released lands in `Vx` and execution goes on;
/// otherwise the instruction repeats, latching the lowest pressed key if none is latched.
pub open spec fn wait_key(c: CpuModel, x: u8, keys: Seq<bool>) -> CpuModel {
    match c.awaiting_key {
        Some(k) => if !keys[(k % 16) as int] {
            CpuModel { awaiting_key: None, ..with_reg(c, reg(x), k) }
        } else {
            held(c)
        },
        None => CpuModel { awaiting_key: first_pressed(keys), ..held(c) },
    }
}

/// `I` advanced past `count` bytes where the dialect says so.
pub open spec fn bump_i(c: CpuModel, count: int) -> CpuModel {
    if c.quirks.load_store_increments_i { CpuModel { i: add16(c.i, count), ..c } } else { c }
}

/// The effect of an instruction that touches only the processor, given the
/// keypad and a random byte for `CXNN`; the state is returned unchanged for
/// the instructions that `next_core` handles itself. `FX75`/`FX85` move at
/// most the eight RPL flags, whatever `x`. It is opaque to keep
/// proofs small: `reveal(next_cpu)` unfolds it.
#[verifier::opaque]
pub open spec fn next_cpu(ins: Instruction, c: CpuModel, keys: Seq<bool>, rnd: u8) -> CpuModel {
    match ins {
        Instruction::I00EE => if c.stack.len() > 0 {
            CpuModel { pc: c.stack.last(), stack: c.stack.drop_last(), ..c }
        } else {
            c
        },
        Instruction::I1NNN { nnn } => CpuModel { pc: nnn, ..c },
        Instruction::I2NNN { nnn } => CpuModel { stack: c.stack.push(c.pc), pc: nnn, ..c },
        Instruction::I3XNN { x, nn } => skip_if(c, v(c, x) == nn),
        Instruction::I4XNN { x, nn } => skip_if(c, v(c, x) != nn),
        Instruction::I5XY0 { x, y } => skip_if(c, v(c, x) == v(c, y)),
        Instruction::I5XY2 { x, y } => CpuModel {
            memory: stored(c.memory, c.i as int, range_regs(c, x, y)),
            ..c
        },
        Instruction::I5XY3 { x, y } => CpuModel { registers: regs_from_range(c, x, y), ..c },
        Instruction::I6XNN { x, nn } => with_reg(c, reg(x), nn),
        Instruction::I7XNN { x, nn } => with_reg(c, reg(x), ((v(c, x) + nn) % 256) as u8),
        Instruction::I8XY0 { x, y } => with_reg(c, reg(x), v(c, y)),
        Instruction::I8XY1 { x, y } => logic(c, x, v(c, x) | v(c, y)),
        Instruction::I8XY2 { x, y } => logic(c, x, v(c, x) & v(c, y)),
        Instruction::I8XY3 { x, y } => logic(c, x, v(c, x) ^ v(c, y)),
        Instruction::I8XY4 { x, y } => with_flag(
            with_reg(c, reg(x), ((v(c, x) + v(c, y)) % 256) as u8),
            if v(c, x) + v(c, y) > 255 { 1 } else { 0 },
        ),
        Instruction::I8XY5 { x, y } => with_flag(
            with_reg(c, reg(x), ((v(c, x) - v(c, y) + 256) % 256) as u8),
            if v(c, x) >= v(c, y) { 1 } else { 0 },
        ),
        Instruction::I8XY6 { x, y } => with_flag(
            with_reg(c, reg(x), shift_source(c, x, y) / 2),
            shift_source(c, x, y) % 2,
        ),
        Instruction::I8XY7 { x, y } => with_flag(
            with_reg(c, reg(x), ((v(c, y) - v(c, x) + 256) % 256) as u8),
            if v(c, y) >= v(c, x) { 1 } else { 0 },
        ),
        Instruction::I8XYE { x, y } => with_flag(
            with_reg(c, reg(x), ((shift_source(c, x, y) * 2) % 256) as u8),
            shift_source(c, x, y) / 128,
        ),
        Instruction::I9XY0 { x, y } => skip_if(c, v(c, x) != v(c, y)),
        Instruction::IANNN { nnn } => CpuModel { i: nnn, ..c },
        Instruction::IBNNN { x, nnn } => CpuModel {
            pc: add16(nnn, if c.quirks.jump_uses_vx { v(c, x) as int } else { v(c, 0) as int }),
            ..c
        },
        Instruction::ICXNN { x, nn } => with_reg(c, reg(x), rnd & nn),
        Instruction::IEX9E { x } => skip_if(c, keys[(v(c, x) % 16) as int]),
        Instruction::IEXA1 { x } => skip_if(c, !keys[(v(c, x) % 16) as int]),
        Instruction::IF000 => CpuModel { i: word_at(c.memory, c.pc as int), pc: add16(c.pc, 2), ..c },
        Instruction::IF002 => CpuModel { sound_pattern_buffer: loaded(c.memory, c.i as int, 16), ..c },
        Instruction::IFX07 { x } => with_reg(c, reg(x), c.delay_timer),
        Instruction::IFX0A { x } => wait_key(c, x, keys),
        Instruction::IFX15 { x } => CpuModel { delay_timer: v(c, x), ..c },
        Instruction::IFX18 { x } => CpuModel { sound_timer: v(c, x), ..c },
        Instruction::IFX1E { x } => {
            let c1 = CpuModel { i: add16(c.i, v(c, x) as int), ..c };
            if c.quirks.add_i_sets_vf {
                with_flag(c1, if c.i + v(c, x) > 65535 { 1 } else { 0 })
            } else {
                c1
            }
        },
        Instruction::IFX29 { x } => CpuModel { i: (0x50 + (v(c, x) % 16) * 5) as u16, ..c },
        Instruction::IFX30 { x } => CpuModel { i: (0xA0 + (v(c, x) % 16) * 10) as u16, ..c },
        Instruction::IFX33 { x } => CpuModel { memory: stored(c.memory, c.i as int, bcd(v(c, x))), ..c },
        Instruction::IFX3A { x } => CpuModel { pitch_register: v(c, x), ..c },
        Instruction::IFX55 { x } => bump_i(
            CpuModel { memory: stored(c.memory, c.i as int, c.registers.subrange(0, reg(x) + 1)), ..c },
            reg(x) + 1,
        ),
        Instruction::IFX65 { x } => bump_i(
            CpuModel {
                registers: Seq::new(
                    16,
                    |r: int| if r <= reg(x) { byte_at(c.memory, c.i + r) } else { c.registers[r] },
                ),
                ..c
            },
            reg(x) + 1,
        ),
        Instruction::IFX75 { x } => CpuModel {
            rpl_flags: Seq::new(8, |k: int| if k <= reg(x) { c.registers[k] } else { c.rpl_flags[k] }),
            ..c
        },
        Instruction::IFX85 { x } => CpuModel {
            registers: Seq::new(
                16,
                |r: int| if r <= reg(x) && r < 8 { c.rpl_flags[r] } else { c.registers[r] },
            ),
            ..c
        },
        _ => c,
    }
}

/// Where `DXYN`/`DXY0` draw: at (`Vx`, `Vy`) scaled by two in lo-res, modulo
/// the framebuffer; wrapping where the dialect allows it.
pub open spec fn placement(c: CpuModel, hires: bool, x: u8, y: u8, rows: int, wide: bool) -> SpritePlacement {
    let vx = v(c, x) as int;
    let vy = v(c, y) as int;
    SpritePlacement {
        x0: ((if hires { vx } else { 2 * vx }) % 128) as usize,
        y0: ((if hires { vy } else { 2 * vy }) % 64) as usize,
        rows: rows as usize,
        wide,
        scale: if hires { 1 } else { 2 },
        wrap: c.quirks.allow_scroll_in_lowres,
    }
}

/// A draw: the sprite at `I` XORed onto the selected planes, then `VF` set to
/// whether a pixel was turned off.
pub open spec fn draw(k: Core, x: u8, y: u8, rows: int, wide: bool) -> Core {
    let s = placement(k.cpu, k.hires, x, y, rows, wide);
    Core {
        cpu: with_flag(k.cpu, if draw_collides(k.display, k.cpu.memory, k.cpu.i as int, s) { 1 } else { 0 }),
        display: drawn_display(k.display, k.cpu.memory, k.cpu.i as int, s),
        ..k
    }
}

/// A scroll by `n` native pixels, doubled in lo-res.
pub open spec fn scroll(k: Core, dir: ScrollDirection, n: int) -> Core {
    Core { display: scrolled_display(k.display, dir, if k.hires { n } else { 2 * n }), ..k }
}

/// The effect of executing `ins`, given the keypad and a random byte for `CXNN`.
/// The program counter has already been moved past the instruction.
pub open spec fn next_core(ins: Instruction, k: Core, keys: Seq<bool>, rnd: u8) -> Core {
    match ins {
        Instruction::I0000 => Core { running: false, ..k },
        Instruction::I00FD => Core { running: false, ..k },
        Instruction::I00FE => Core { hires: false, ..k },
        Instruction::I00FF => Core { hires: true, ..k },
        Instruction::I00BN { n } => scroll(k, ScrollDirection::Up, n as int),
        Instruction::I00DN { n } => scroll(k, ScrollDirection::Up, n as int),
        Instruction::I00CN { n } => scroll(k, ScrollDirection::Down, n as int),
        Instruction::I00FB => scroll(k, ScrollDirection::Right, 4),
        Instruction::I00FC => scroll(k, ScrollDirection::Left, 4),
        Instruction::I00E0 => Core { display: cleared_display(k.display), ..k },
        Instruction::IFN01 { n } => Core { display: DisplayModel { selected_plane: n, ..k.display }, ..k },
        Instruction::IDXYN { x, y, n } => draw(k, x, y, (n % 16) as int, false),
        Instruction::IDXY0 { x, y } => draw(k, x, y, 16, true),
        _ => Core { cpu: next_cpu(ins, k.cpu, keys, rnd), ..k },
    }
}

/// Address `b` lies `k` bytes after `base`, counting around the 64 KiB memory,
/// exactly when it is `(base + k) mod 2^16`.
pub proof fn lemma_offset(base: int, b: int, k: int)
    requires
        0 <= base < 65536,
        0 <= b < 65536,
        0 <= k < 65536,
    ensures
        ((b - base) % 65536 == k) == (b == (base + k) % 65536),
        ((base + k) % 65536 - base) % 65536 == k,
{
    if b >= base {
        assert((b - base) % 65536 == b - base);
    } else {
        vstd::arithmetic::div_mod::lemma_mod_add_multiples_vanish(b - base, 65536);
        assert((b - base) % 65536 == b - base + 65536);
    }
    if base + k < 65536 {
        assert((base + k) % 65536 == base + k);
    } else {
        vstd::arithmetic::div_mod::lemma_mod_sub_multiples_vanish(base + k, 65536);
        assert((base + k) % 65536 == base + k - 65536);
        vstd::arithmetic::div_mod::lemma_mod_add_multiples_vanish(k - 65536, 65536);
    }
}

/// Writes `vals` into memory from address `base` on, wrapping around 64 KiB.
fn store_bytes(mem: &mut [u8; 65536], base: u16, vals: &Vec<u8>)
    requires
        vals.len() <= 16,
    ensures
        final(mem)@ == stored(old(mem)@, base as int, vals@),
{
    let ghost orig = mem@;
    proof {
        reveal(stored);
        assert(mem@ =~= stored(orig, base as int, vals@.take(0)));
    }
    let mut k: usize = 0;
    while k < vals.len()
        invariant
            0 <= k <= vals.len() <= 16,
            mem@ == stored(orig, base as int, vals@.take(k as int)),
        decreases vals.len() - k,
    {
        let a: usize = (base as usize + k) % 65536;
        mem[a] = vals[k];
        proof {
            reveal(stored);
            assert forall|b: int| 0 <= b < 65536 implies mem@[b] == stored(orig, base as int, vals@.take(k + 1))[b] by {
                lemma_offset(base as int, b, k as int);
                if (b - base) % 65536 < k {
                    lemma_offset(base as int, b, (b - base) % 65536);
                }
            }
            assert(mem@ =~= stored(orig, base as int, vals@.take(k + 1)));
        }
        k = k + 1;
    }
    assert(vals@.take(vals.len() as int) =~= vals@);
}

/// Reads `count` bytes of memory from address `base` on, wrapping around 64 KiB.
fn load_bytes(mem: &[u8; 65536], base: u16, count: usize) -> (r: Vec<u8>)
    requires
        count <= 16,
    ensures
        r@ == loaded(mem@, base as int, count as int),
{
    let mut r: Vec<u8> = Vec::new();
    let mut k: usize = 0;
    while k < count
        invariant
            0 <= k <= count <= 16,
            r@ == loaded(mem@, base as int, k as int),
        decreases count - k,
    {
        r.push(mem[(base as usize + k) % 65536]);
        k = k + 1;
        assert(r@ =~= loaded(mem@, base as int, k as int));
    }
    r
}

/// The instructions that change only the program counter, the stack or the key latch.
pub open spec fn is_flow(ins: Instruction) -> bool {
    ins is I00EE || ins is I1NNN || ins is I2NNN || ins is I3XNN || ins is I4XNN || ins is I5XY0
        || ins is I9XY0 || ins is IBNNN || ins is IEX9E || ins is IEXA1 || ins is IF000
        || ins is IFX0A
}

/// The lowest pressed key.
pub fn find_pressed(keys: &[bool; 16]) -> (r: Option<u8>)
    ensures
        r == first_pressed(keys@),
{
    let mut i: usize = 0;
    while i < 16
        invariant
            0 <= i <= 16,
            first_pressed(keys@) == first_pressed_from(keys@, i as int),
        decreases 16 - i,
    {
        if keys[i] {
            return Some(i as u8);
        }
        i = i + 1;
    }
    None
}

fn execute_flow(ins: Instruction, cpu: &mut CpuState, keys: &[bool; 16], rnd: u8)
    requires
        is_flow(ins),
    ensures
        final(cpu)@ == next_cpu(ins, old(cpu)@, keys@, rnd),
{
    proof {
        reveal(next_cpu);
    }
    match ins {
        Instruction::I00EE => {
            match cpu.stack.pop() {
                Some(a) => {
                    cpu.pc = a;
                },
                None => {},
            }
        },
        Instruction::I1NNN { nnn } => {
            cpu.pc = nnn;
        },
        Instruction::I2NNN { nnn } => {
            cpu.stack.push(cpu.pc);
            cpu.pc = nnn;
        },
        Instruction::I3XNN { x, nn } => {
            if cpu.registers[(x % 16) as usize] == nn {
                cpu.skip_instruction();
            }
        },
        Instruction::I4XNN { x, nn } => {
            if cpu.registers[(x % 16) as usize] != nn {
                cpu.skip_instruction();
            }
        },
        Instruction::I5XY0 { x, y } => {
            if cpu.registers[(x % 16) as usize] == cpu.registers[(y % 16) as usize] {
                cpu.skip_instruction();
            }
        },
        Instruction::I9XY0 { x, y } => {
            if cpu.registers[(x % 16) as usize] != cpu.registers[(y % 16) as usize] {
                cpu.skip_instruction();
            }
        },
        Instruction::IBNNN { x, nnn } => {
            let offset = if cpu.quirks.jump_uses_vx {
                cpu.registers[(x % 16) as usize]
            } else {
                cpu.registers[0]
            };
            cpu.pc = ((nnn as u32 + offset as u32) % 65536) as u16;
        },
        Instruction::IEX9E { x } => {
            if keys[(cpu.registers[(x % 16) as usize] % 16) as usize] {
                cpu.skip_instruction();
            }
        },
        Instruction::IEXA1 { x } => {
            if !keys[(cpu.registers[(x % 16) as usize] % 16) as usize] {
                cpu.skip_instruction();
            }
        },
        Instruction::IF000 => {
            cpu.i = cpu.fetch();
            cpu.advance();
        },
        Instruction::IFX0A { x } => {
            match cpu.awaiting_key {
                Some(k) => {
                    if !keys[(k % 16) as usize] {
                        cpu.registers[(x % 16) as usize] = k;
                        cpu.awaiting_key = None;
                    } else {
                        cpu.pc = ((cpu.pc as u32 + 65534) % 65536) as u16;
                    }
                },
                None => {
                    cpu.awaiting_key = find_pressed(keys);
                    cpu.pc = ((cpu.pc as u32 + 65534) % 65536) as u16;
                },
            }
        },
        _ => {},
    }
    assert(cpu@ =~= next_cpu(ins, old(cpu)@, keys@, rnd));
}

/// The instructions that compute into registers, `I` or the timers.
pub open spec fn is_alu(ins: Instruction) -> bool {
    ins is I6XNN || ins is I7XNN || ins is I8XY0 || ins is I8XY1 || ins is I8XY2 || ins is I8XY3
        || ins is I8XY4 || ins is I8XY5 || ins is I8XY6 || ins is I8XY7 || ins is I8XYE
        || ins is IANNN || ins is ICXNN || ins is IFX07 || ins is IFX15 || ins is IFX18
        || ins is IFX1E || ins is IFX29 || ins is IFX30 || ins is IFX3A
}

#[verifier::rlimit(40)]
fn execute_alu(ins: Instruction, cpu: &mut CpuState, keys: &[bool; 16], rnd: u8)
    requires
        is_alu(ins),
    ensures
        final(cpu)@ == next_cpu(ins, old(cpu)@, keys@, rnd),
{
    proof {
        reveal(next_cpu);
    }
    match ins {
        Instruction::I6XNN { x, nn } => {
            cpu.registers[(x % 16) as usize] = nn;
        },
        Instruction::I7XNN { x, nn } => {
            let rx = (x % 16) as usize;
            cpu.registers[rx] = ((cpu.registers[rx] as u16 + nn as u16) % 256) as u8;
        },
        Instruction::I8XY0 { x, y } => {
            cpu.registers[(x % 16) as usize] = cpu.registers[(y % 16) as usize];
        },
        Instruction::I8XY1 { x, y } => {
            let rx = (x % 16) as usize;
            cpu.registers[rx] = cpu.registers[rx] | cpu.registers[(y % 16) as usize];
            if cpu.quirks.logic_clears_vf {
                cpu.registers[15] = 0;
            }
        },
        Instruction::I8XY2 { x, y } => {
            let rx = (x % 16) as usize;
            cpu.registers[rx] = cpu.registers[rx] & cpu.registers[(y % 16) as usize];
            if cpu.quirks.logic_clears_vf {
                cpu.registers[15] = 0;
            }
        },
        Instruction::I8XY3 { x, y } => {
            let rx = (x % 16) as usize;
            cpu.registers[rx] = cpu.registers[rx] ^ cpu.registers[(y % 16) as usize];
            if cpu.quirks.logic_clears_vf {
                cpu.registers[15] = 0;
            }
        },
        Instruction::I8XY4 { x, y } => {
            let rx = (x % 16) as usize;
            let sum = cpu.registers[rx] as u16 + cpu.registers[(y % 16) as usize] as u16;
            cpu.registers[rx] = (sum % 256) as u8;
            cpu.registers[15] = if sum > 255 { 1 } else { 0 };
        },
        Instruction::I8XY5 { x, y } => {
            let rx = (x % 16) as usize;
            let vx = cpu.registers[rx];
            let vy = cpu.registers[(y % 16) as usize];
            cpu.registers[rx] = ((vx as u16 + 256 - vy as u16) % 256) as u8;
            cpu.registers[15] = if vx >= vy { 1 } else { 0 };
        },
        Instruction::I8XY6 { x, y } => {
            let rx = (x % 16) as usize;
            let src = if cpu.quirks.shift_uses_x_only { cpu.registers[rx] } else { cpu.registers[(y % 16) as usize] };
            cpu.registers[rx] = src / 2;
            cpu.registers[15] = src % 2;
        },
        Instruction::I8XY7 { x, y } => {
            let rx = (x % 16) as usize;
            let vx = cpu.registers[rx];
            let vy = cpu.registers[(y % 16) as usize];
            cpu.registers[rx] = ((vy as u16 + 256 - vx as u16) % 256) as u8;
            cpu.registers[15] = if vy >= vx { 1 } else { 0 };
        },
        Instruction::I8XYE { x, y } => {
            let rx = (x % 16) as usize;
            let src = if cpu.quirks.shift_uses_x_only { cpu.registers[rx] } else { cpu.registers[(y % 16) as usize] };
            cpu.registers[rx] = ((src as u16 * 2) % 256) as u8;
            cpu.registers[15] = src / 128;
        },
        Instruction::IANNN { nnn } => {
            cpu.i = nnn;
        },
        Instruction::ICXNN { x, nn } => {
            cpu.registers[(x % 16) as usize] = rnd & nn;
        },
        Instruction::IFX07 { x } => {
            cpu.registers[(x % 16) as usize] = cpu.delay_timer;
        },
        Instruction::IFX15 { x } => {
            cpu.delay_timer = cpu.registers[(x % 16) as usize];
        },
        Instruction::IFX18 { x } => {
            cpu.sound_timer = cpu.registers[(x % 16) as usize];
        },
        Instruction::IFX1E { x } => {
            let sum = cpu.i as u32 + cpu.registers[(x % 16) as usize] as u32;
            cpu.i = (sum % 65536) as u16;
            if cpu.quirks.add_i_sets_vf {
                cpu.registers[15] = if sum > 65535 { 1 } else { 0 };
            }
        },
        Instruction::IFX29 { x } => {
            cpu.i = 0x50 + (cpu.registers[(x % 16) as usize] % 16) as u16 * 5;
        },
        Instruction::IFX30 { x } => {
            cpu.i = 0xA0 + (cpu.registers[(x % 16) as usize] % 16) as u16 * 10;
        },
        Instruction::IFX3A { x } => {
            cpu.pitch_register = cpu.registers[(x % 16) as usize];
        },
        _ => {},
    }
    assert(cpu@ =~= next_cpu(ins, old(cpu)@, keys@, rnd));
}

/// The instructions that move bytes between registers, memory and the other buffers.
pub open spec fn is_memory(ins: Instruction) -> bool {
    ins is I5XY2 || ins is I5XY3 || ins is IF002 || ins is IFX33 || ins is IFX55 || ins is IFX65
        || ins is IFX75 || ins is IFX85
}

/// The registers `Vx` to `Vy` in the order `5XY2` stores them.
fn collect_range(regs: &[u8; 16], x: u8, y: u8) -> (r: Vec<u8>)
    ensures
        r@ == Seq::new(
            (range_hi(x, y) - range_lo(x, y) + 1) as nat,
            |k: int| regs@[if reg(x) <= reg(y) { reg(x) + k } else { reg(x) - k }],
        ),
{
    let rx = (x % 16) as usize;
    let ry = (y % 16) as usize;
    let count: usize = if rx <= ry { ry - rx + 1 } else { rx - ry + 1 };
    let ghost target = Seq::new(
        (range_hi(x, y) - range_lo(x, y) + 1) as nat,
        |k: int| regs@[if reg(x) <= reg(y) { reg(x) + k } else { reg(x) - k }],
    );
    let mut r: Vec<u8> = Vec::new();
    let mut k: usize = 0;
    while k < count
        invariant
            rx == reg(x),
            ry == reg(y),
            rx < 16,
            ry < 16,
            count == if rx <= ry { ry - rx + 1 } else { rx - ry + 1 },
            count == target.len(),
            target == Seq::new(
                (range_hi(x, y) - range_lo(x, y) + 1) as nat,
                |k: int| regs@[if reg(x) <= reg(y) { reg(x) + k } else { reg(x) - k }],
            ),
            0 <= k <= count,
            r@ == target.take(k as int),
        decreases count - k,
    {
        let idx = if rx <= ry { rx + k } else { rx - k };
        r.push(regs[idx]);
        k = k + 1;
        assert(r@ =~= target.take(k as int));
    }
    assert(target.take(count as int) =~= target);
    r
}

/// The first `count` registers.
fn collect_prefix(regs: &[u8; 16], count: usize) -> (r: Vec<u8>)
    requires
        count <= 16,
    ensures
        r@ == regs@.subrange(0, count as int),
{
    let mut r: Vec<u8> = Vec::new();
    let mut k: usize = 0;
    while k < count
        invariant
            0 <= k <= count <= 16,
            r@ == regs@.subrange(0, k as int),
        decreases count - k,
    {
        r.push(regs[k]);
        k = k + 1;
        assert(r@ =~= regs@.subrange(0, k as int));
    }
    r
}

fn execute_memory(ins: Instruction, cpu: &mut CpuState, keys: &[bool; 16], rnd: u8)
    requires
        is_memory(ins),
    ensures
        final(cpu)@ == next_cpu(ins, old(cpu)@, keys@, rnd),
{
    proof {
        reveal(next_cpu);
    }
    let ghost c = cpu@;
    match ins {
        Instruction::I5XY2 { x, y } => {
            let vals = collect_range(&cpu.registers, x, y);
            assert(vals@ =~= range_regs(c, x, y));
            store_bytes(&mut cpu.memory, cpu.i, &vals);
        },
        Instruction::I5XY3 { x, y } => {
            let rx = (x % 16) as usize;
            let ry = (y % 16) as usize;
            let count: usize = if rx <= ry { ry - rx + 1 } else { rx - ry + 1 };
            let data = load_bytes(&cpu.memory, cpu.i, count);
            let mut k: usize = 0;
            while k < count
                invariant
                    rx == reg(x),
                    ry == reg(y),
                    count == range_hi(x, y) - range_lo(x, y) + 1,
                    0 <= k <= count,
                    data@ == loaded(c.memory, c.i as int, count as int),
                    cpu@ == (CpuModel { registers: cpu@.registers, ..c }),
                    forall|r: int| 0 <= r < 16 ==> cpu.registers@[r] == if range_lo(x, y) <= r <= range_hi(x, y)
                        && range_offset(x, y, r) < k {
                        byte_at(c.memory, c.i + range_offset(x, y, r))
                    } else {
                        c.registers[r]
                    },
                decreases count - k,
            {
                let idx = if rx <= ry { rx + k } else { rx - k };
                cpu.registers[idx] = data[k];
                k = k + 1;
            }
            assert(cpu@.registers =~= regs_from_range(c, x, y));
        },
        Instruction::IF002 => {
            let data = load_bytes(&cpu.memory, cpu.i, 16);
            let mut k: usize = 0;
            while k < 16
                invariant
                    0 <= k <= 16,
                    data@ == loaded(c.memory, c.i as int, 16),
                    cpu@ == (CpuModel { sound_pattern_buffer: cpu@.sound_pattern_buffer, ..c }),
                    forall|j: int| 0 <= j < 16 ==> cpu.sound_pattern_buffer@[j] == if j < k { data@[j] } else { c.sound_pattern_buffer[j] },
                decreases 16 - k,
            {
                cpu.sound_pattern_buffer[k] = data[k];
                k = k + 1;
            }
            assert(cpu@.sound_pattern_buffer =~= loaded(c.memory, c.i as int, 16));
        },
        Instruction::IFX33 { x } => {
            let val = cpu.registers[(x % 16) as usize];
            let vals = vec![val / 100, (val % 100) / 10, val % 10];
            assert(vals@ =~= bcd(val));
            store_bytes(&mut cpu.memory, cpu.i, &vals);
        },
        Instruction::IFX55 { x } => {
            let count = (x % 16) as usize + 1;
            let vals = collect_prefix(&cpu.registers, count);
            store_bytes(&mut cpu.memory, cpu.i, &vals);
            if cpu.quirks.load_store_increments_i {
                cpu.i = ((cpu.i as u32 + count as u32) % 65536) as u16;
            }
        },
        Instruction::IFX65 { x } => {
            let count = (x % 16) as usize + 1;
            let data = load_bytes(&cpu.memory, cpu.i, count);
            let mut k: usize = 0;
            while k < count
                invariant
                    count == reg(x) + 1,
                    0 <= k <= count,
                    data@ == loaded(c.memory, c.i as int, count as int),
                    cpu@ == (CpuModel { registers: cpu@.registers, ..c }),
                    forall|r: int| 0 <= r < 16 ==> cpu.registers@[r] == if r < k { byte_at(c.memory, c.i + r) } else { c.registers[r] },
                decreases count - k,
            {
                cpu.registers[k] = data[k];
                k = k + 1;
            }
            if cpu.quirks.load_store_increments_i {
                cpu.i = ((cpu.i as u32 + count as u32) % 65536) as u16;
            }
        },
        Instruction::IFX75 { x } => {
            let last = (x % 16) as usize;
            let mut k: usize = 0;
            while k < 8 && k <= last
                invariant
                    last == reg(x),
                    0 <= k <= 8,
                    cpu@ == (CpuModel { rpl_flags: cpu@.rpl_flags, ..c }),
                    forall|j: int| 0 <= j < 8 ==> cpu.rpl_flags@[j] == if j < k { c.registers[j] } else { c.rpl_flags[j] },
                    k <= last + 1,
                decreases 8 - k,
            {
                cpu.rpl_flags[k] = cpu.registers[k];
                k = k + 1;
            }
        },
        Instruction::IFX85 { x } => {
            let last = (x % 16) as usize;
            let mut k: usize = 0;
            while k < 8 && k <= last
                invariant
                    last == reg(x),
                    0 <= k <= 8,
                    cpu@ == (CpuModel { registers: cpu@.registers, ..c }),
                    forall|r: int| 0 <= r < 16 ==> cpu.registers@[r] == if r < k { c.rpl_flags[r] } else { c.registers[r] },
                    k <= last + 1,
                decreases 8 - k,
            {
                cpu.registers[k] = cpu.rpl_flags[k];
                k = k + 1;
            }
        },
        _ => {},
    }
    assert(cpu@ =~= next_cpu(ins, c, keys@, rnd));
}

impl Instruction {
    /// Executes this instruction; the program counter has already been moved
    /// past it. `keys` is the keypad (pressed keys are `true`), `hires_mode`
    /// and `is_running` are the machine's resolution and running flags, and
    /// `random_byte` is the byte that `CXNN` masks.
    pub fn execute(
        &self,
        cpu: &mut CpuState,
        display: &mut Display,
        keys: &[bool; 16],
        hires_mode: &mut bool,
        is_running: &mut bool,
        random_byte: u8,
    )
        ensures
            (Core {
                cpu: final(cpu)@,
                display: final(display)@,
                hires: *final(hires_mode),
                running: *final(is_running),
            }) == next_core(
                *self,
                Core {
                    cpu: old(cpu)@,
                    display: old(display)@,
                    hires: *old(hires_mode),
                    running: *old(is_running),
                },
                keys@,
                random_byte,
            ),
    {
        let ins = *self;
        let lores_factor: usize = if *hires_mode { 1 } else { 2 };
        match ins {
            Instruction::I0000 | Instruction::I00FD => {
                *is_running = false;
            },
            Instruction::I00FE => {
                *hires_mode = false;
            },
            Instruction::I00FF => {
                *hires_mode = true;
            },
            Instruction::I00BN { n } | Instruction::I00DN { n } => {
                display.execute_scroll(ScrollDirection::Up, n as usize * lores_factor);
            },
            Instruction::I00CN { n } => {
                display.execute_scroll(ScrollDirection::Down, n as usize * lores_factor);
            },
            Instruction::I00FB => {
                display.execute_scroll(ScrollDirection::Right, 4 * lores_factor);
            },
            Instruction::I00FC => {
                display.execute_scroll(ScrollDirection::Left, 4 * lores_factor);
            },
            Instruction::I00E0 => {
                display.clear_selected();
            },
            Instruction::IFN01 { n } => {
                display.select_plane(n);
            },
            Instruction::IDXYN { x, y, n } => {
                let s = sprite_placement(cpu, *hires_mode, x, y, (n % 16) as usize, false);
                let collided = display.draw_sprite(&cpu.memory, cpu.i, s);
                cpu.registers[15] = if collided { 1 } else { 0 };
            },
            Instruction::IDXY0 { x, y } => {
                let s = sprite_placement(cpu, *hires_mode, x, y, 16, true);
                let collided = display.draw_sprite(&cpu.memory, cpu.i, s);
                cpu.registers[15] = if collided { 1 } else { 0 };
            },
            _ => {
                if is_flow_ins(&ins) {
                    execute_flow(ins, cpu, keys, random_byte);
                } else if is_alu_ins(&ins) {
                    execute_alu(ins, cpu, keys, random_byte);
                } else if is_memory_ins(&ins) {
                    execute_memory(ins, cpu, keys, random_byte);
                }
            },
        }
        proof {
            reveal(next_cpu);
            if !(is_flow(ins) || is_alu(ins) || is_memory(ins)) {
                assert(next_cpu(ins, old(cpu)@, keys@, random_byte) == old(cpu)@);
            }
        }
        assert(cpu@ =~= next_core(
            ins,
            Core { cpu: old(cpu)@, display: old(display)@, hires: *old(hires_mode), running: *old(is_running) },
            keys@,
            random_byte,
        ).cpu);
    }
}

/// Where `DXYN`/`DXY0` with registers `x`, `y` draw.
fn sprite_placement(cpu: &CpuState, hires: bool, x: u8, y: u8, rows: usize, wide: bool) -> (s: SpritePlacement)
    requires
        rows <= 16,
    ensures
        s == placement(cpu@, hires, x, y, rows as int, wide),
        crate::display::placement_ok(s),
{
    let vx = cpu.registers[(x % 16) as usize] as usize;
    let vy = cpu.registers[(y % 16) as usize] as usize;
    SpritePlacement {
        x0: (if hires { vx } else { 2 * vx }) % 128,
        y0: (if hires { vy } else { 2 * vy }) % 64,
        rows,
        wide,
        scale: if hires { 1 } else { 2 },
        wrap: cpu.quirks.allow_scroll_in_lowres,
    }
}

fn is_flow_ins(ins: &Instruction) -> (r: bool)
    ensures
        r == is_flow(*ins),
{
    match ins {
        Instruction::I00EE | Instruction::I1NNN { .. } | Instruction::I2NNN { .. }
        | Instruction::I3XNN { .. } | Instruction::I4XNN { .. } | Instruction::I5XY0 { .. }
        | Instruction::I9XY0 { .. } | Instruction::IBNNN { .. } | Instruction::IEX9E { .. }
        | Instruction::IEXA1 { .. } | Instruction::IF000 | Instruction::IFX0A { .. } => true,
        _ => false,
    }
}

fn is_alu_ins(ins: &Instruction) -> (r: bool)
    ensures
        r == is_alu(*ins),
{
    match ins {
        Instruction::I6XNN { .. } | Instruction::I7XNN { .. } | Instruction::I8XY0 { .. }
        | Instruction::I8XY1 { .. } | Instruction::I8XY2 { .. } | Instruction::I8XY3 { .. }
        | Instruction::I8XY4 { .. } | Instruction::I8XY5 { .. } | Instruction::I8XY6 { .. }
        | Instruction::I8XY7 { .. } | Instruction::I8XYE { .. } | Instruction::IANNN { .. }
        | Instruction::ICXNN { .. } | Instruction::IFX07 { .. } | Instruction::IFX15 { .. }
        | Instruction::IFX18 { .. } | Instruction::IFX1E { .. } | Instruction::IFX29 { .. }
        | Instruction::IFX30 { .. } | Instruction::IFX3A { .. } => true,
        _ => false,
    }
}

fn is_memory_ins(ins: &Instruction) -> (r: bool)
    ensures
        r == is_memory(*ins),
{
    match ins {
        Instruction::I5XY2 { .. } | Instruction::I5XY3 { .. } | Instruction::IF002
        | Instruction::IFX33 { .. } | Instruction::IFX55 { .. } | Instruction::IFX65 { .. }
        | Instruction::IFX75 { .. } | Instruction::IFX85 { .. } => true,
        _ => false,
    }
}

/// Byte `k` of what `stored` wrote is at `base + k`.
pub proof fn lemma_stored_at(mem: Seq<u8>, base: int, vals: Seq<u8>, k: int)
    requires
        0 <= base < 65536,
        0 <= k < vals.len() <= 16,
    ensures
        byte_at(stored(mem, base, vals), base + k) == vals[k],
{
    reveal(stored);
    lemma_offset(base, (base + k) % 65536, k);
}

/// What `FX55` does, field by field.
proof fn lemma_fx55_fields(c: CpuModel, x: u8, keys: Seq<bool>, rnd: u8)
    ensures
        next_cpu(Instruction::IFX55 { x }, c, keys, rnd).memory
            == stored(c.memory, c.i as int, c.registers.subrange(0, reg(x) + 1)),
        next_cpu(Instruction::IFX55 { x }, c, keys, rnd).registers == c.registers,
        next_cpu(Instruction::IFX55 { x }, c, keys, rnd).i
            == if c.quirks.load_store_increments_i { add16(c.i, reg(x) + 1) } else { c.i },
        next_cpu(Instruction::IFX55 { x }, c, keys, rnd).quirks == c.quirks,
{
    reveal(next_cpu);
}

/// What `FX65` does, field by field.
proof fn lemma_fx65_fields(c: CpuModel, x: u8, keys: Seq<bool>, rnd: u8)
    ensures
        next_cpu(Instruction::IFX65 { x }, c, keys, rnd).memory == c.memory,
        next_cpu(Instruction::IFX65 { x }, c, keys, rnd).registers == Seq::new(
            16,
            |r: int| if r <= reg(x) { byte_at(c.memory, c.i + r) } else { c.registers[r] },
        ),
        next_cpu(Instruction::IFX65 { x }, c, keys, rnd).i
            == if c.quirks.load_store_increments_i { add16(c.i, reg(x) + 1) } else { c.i },
        next_cpu(Instruction::IFX65 { x }, c, keys, rnd).quirks == c.quirks,
{
    reveal(next_cpu);
}

/// Storing `V0..=Vx` with `FX55` and loading them back from the same address
/// with `FX65` is lossless in both halves: memory holds the registers after
/// the store, the registers come back unchanged after the load, and `I`
/// either stays or advances by exactly `x + 1`, as the dialect says.
#[verifier::rlimit(60)]
pub proof fn lemma_store_load_round_trip(c: CpuModel, x: u8, keys: Seq<bool>, rnd: u8)
    requires
        model_ok(c),
        x <= 15,
    ensures
        ({
            let c1 = next_cpu(Instruction::IFX55 { x }, c, keys, rnd);
            &&& forall|k: int| 0 <= k <= x ==> #[trigger] byte_at(c1.memory, c.i + k) == c.registers[k]
            &&& c1.i == if c.quirks.load_store_increments_i { add16(c.i, x + 1) } else { c.i }
            &&& c1.registers == c.registers
        }),
        ({
            let c1 = next_cpu(Instruction::IFX55 { x }, c, keys, rnd);
            let c2 = next_cpu(Instruction::IFX65 { x }, CpuModel { i: c.i, ..c1 }, keys, rnd);
            &&& c2.registers == c.registers
            &&& c2.i == c1.i
        }),
{
    let c1 = next_cpu(Instruction::IFX55 { x }, c, keys, rnd);
    let vals = c.registers.subrange(0, reg(x) + 1);
    lemma_fx55_fields(c, x, keys, rnd);
    assert forall|k: int| 0 <= k <= x implies #[trigger] byte_at(c1.memory, c.i + k) == c.registers[k] by {
        lemma_stored_at(c.memory, c.i as int, vals, k);
    }
    let c1i = CpuModel { i: c.i, ..c1 };
    let c2 = next_cpu(Instruction::IFX65 { x }, c1i, keys, rnd);
    lemma_fx65_fields(c1i, x, keys, rnd);
    assert forall|r: int| 0 <= r < 16 implies c2.registers[r] == c.registers[r] by {
        if r <= x {
            assert(byte_at(c1.memory, c.i + r) == c.registers[r]);
        }
    }
    assert(c2.registers =~= c.registers);
}

/// Loading `V0..=Vx` with `FX65` and storing them back to the same address
/// with `FX55` leaves memory as it was.
/// One byte of the load-then-store round trip.
proof fn lemma_load_store_byte(c: CpuModel, x: u8, keys: Seq<bool>, rnd: u8, b: int)
    requires
        model_ok(c),
        x <= 15,
        0 <= b < 65536,
    ensures
        next_cpu(
            Instruction::IFX55 { x },
            CpuModel { i: c.i, ..next_cpu(Instruction::IFX65 { x }, c, keys, rnd) },
            keys,
            rnd,
        ).memory[b] == c.memory[b],
{
    let c1 = next_cpu(Instruction::IFX65 { x }, c, keys, rnd);
    lemma_fx65_fields(c, x, keys, rnd);
    let c1i = CpuModel { i: c.i, ..c1 };
    lemma_fx55_fields(c1i, x, keys, rnd);
    let vals = c1.registers.subrange(0, reg(x) + 1);
    let k = (b - c.i) % 65536;
    reveal(stored);
    if k < vals.len() {
        lemma_offset(c.i as int, b, k);
        assert(vals[k] == c1.registers[k]);
        assert(c1.registers[k] == byte_at(c.memory, c.i + k));
    }
}

pub proof fn lemma_load_store_round_trip(c: CpuModel, x: u8, keys: Seq<bool>, rnd: u8)
    requires
        model_ok(c),
        x <= 15,
    ensures
        ({
            let c1 = next_cpu(Instruction::IFX65 { x }, c, keys, rnd);
            let c2 = next_cpu(Instruction::IFX55 { x }, CpuModel { i: c.i, ..c1 }, keys, rnd);
            &&& forall|k: int| 0 <= k <= x ==> #[trigger] c1.registers[k] == byte_at(c.memory, c.i + k)
            &&& c2.memory == c.memory
        }),
{
    let c1 = next_cpu(Instruction::IFX65 { x }, c, keys, rnd);
    lemma_fx65_fields(c, x, keys, rnd);
    let c2 = next_cpu(Instruction::IFX55 { x }, CpuModel { i: c.i, ..c1 }, keys, rnd);
    assert forall|b: int| 0 <= b < 65536 implies c2.memory[b] == c.memory[b] by {
        lemma_load_store_byte(c, x, keys, rnd, b);
    }
    lemma_fx55_fields(CpuModel { i: c.i, ..c1 }, x, keys, rnd);
    lemma_stored_len(c.memory, c.i as int, c1.registers.subrange(0, reg(x) + 1));
    assert(c2.memory =~= c.memory);
}

/// Storing keeps the size of memory.
pub proof fn lemma_stored_len(mem: Seq<u8>, base: int, vals: Seq<u8>)
    ensures
        stored(mem, base, vals).len() == 65536,
{
    reveal(stored);
}


/// The arithmetic instructions write their flag after their result, so when
/// the destination is `VF` itself the flag is what remains: for every `x`,
/// `VF` ends up as the carry, the no-borrow bit or the bit shifted out,
/// computed from the values before the instruction.
pub proof fn lemma_flag_written_last(c: CpuModel, x: u8, y: u8, keys: Seq<bool>, rnd: u8)
    requires
        model_ok(c),
    ensures
        next_cpu(Instruction::I8XY4 { x, y }, c, keys, rnd).registers[15]
            == if v(c, x) + v(c, y) > 255 { 1u8 } else { 0u8 },
        next_cpu(Instruction::I8XY5 { x, y }, c, keys, rnd).registers[15]
            == if v(c, x) >= v(c, y) { 1u8 } else { 0u8 },
        next_cpu(Instruction::I8XY7 { x, y }, c, keys, rnd).registers[15]
            == if v(c, y) >= v(c, x) { 1u8 } else { 0u8 },
        next_cpu(Instruction::I8XY6 { x, y }, c, keys, rnd).registers[15] == shift_source(c, x, y) % 2,
        next_cpu(Instruction::I8XYE { x, y }, c, keys, rnd).registers[15] == shift_source(c, x, y) / 128,
        reg(x) != 15 ==> next_cpu(Instruction::I8XY4 { x, y }, c, keys, rnd).registers[reg(x)]
            == ((v(c, x) + v(c, y)) % 256) as u8,
{
    reveal(next_cpu);

}

/// Setting `Vx` to `NN` and then comparing it with `NN` always skips with
/// `3XNN` and never skips with `4XNN`.
pub proof fn lemma_set_then_compare(c: CpuModel, x: u8, nn: u8, keys: Seq<bool>, rnd: u8)
    requires
        model_ok(c),
    ensures
        ({
            let c1 = next_cpu(Instruction::I6XNN { x, nn }, c, keys, rnd);
            &&& next_cpu(Instruction::I3XNN { x, nn }, c1, keys, rnd) == skipped(c1)
            &&& next_cpu(Instruction::I4XNN { x, nn }, c1, keys, rnd) == c1
        }),
{
    reveal(next_cpu);

}

/// A skip over `F000` moves the program counter by four bytes, past its
/// operand word; over any other word, by two.
pub proof fn lemma_skip_over_long_instruction(c: CpuModel, x: u8, nn: u8, keys: Seq<bool>, rnd: u8)
    requires
        model_ok(c),
        v(c, x) == nn,
    ensures
        next_cpu(Instruction::I3XNN { x, nn }, c, keys, rnd).pc == add16(
            c.pc,
            if word_at(c.memory, c.pc as int) == 0xF000 { 4 } else { 2 },
        ),
{
    reveal(next_cpu);

}

/// `FX33` writes the decimal digits of `Vx`: three digits below ten whose
/// value is `Vx`.
pub proof fn lemma_bcd_digits(c: CpuModel, x: u8, keys: Seq<bool>, rnd: u8)
    requires
        model_ok(c),
    ensures
        ({
            let m = next_cpu(Instruction::IFX33 { x }, c, keys, rnd).memory;
            let (d0, d1, d2) = (byte_at(m, c.i as int), byte_at(m, c.i + 1), byte_at(m, c.i + 2));
            &&& d0 < 10 && d1 < 10 && d2 < 10
            &&& 100 * d0 + 10 * d1 + d2 == v(c, x)
        }),
{
    let m = next_cpu(Instruction::IFX33 { x }, c, keys, rnd).memory;
    let d = bcd(v(c, x));
    lemma_fx33(c, x, keys, rnd);
    lemma_stored_at(c.memory, c.i as int, d, 0);
    lemma_stored_at(c.memory, c.i as int, d, 1);
    lemma_stored_at(c.memory, c.i as int, d, 2);
    lemma_decimal_digits(v(c, x));
}

/// The effect of `FX33` on memory.
proof fn lemma_fx33(c: CpuModel, x: u8, keys: Seq<bool>, rnd: u8)
    ensures
        next_cpu(Instruction::IFX33 { x }, c, keys, rnd).memory == stored(c.memory, c.i as int, bcd(v(c, x))),
{
    reveal(next_cpu);
}

/// The three decimal digits of a byte are below ten and make up its value.
proof fn lemma_decimal_digits(val: u8)
    ensures
        bcd(val)[0] < 10 && bcd(val)[1] < 10 && bcd(val)[2] < 10,
        100 * bcd(val)[0] + 10 * bcd(val)[1] + bcd(val)[2] == val,
{
    let n = val as int;
    vstd::arithmetic::div_mod::lemma_fundamental_div_mod(n, 100);
    vstd::arithmetic::div_mod::lemma_fundamental_div_mod(n % 100, 10);
    vstd::arithmetic::div_mod::lemma_mod_mod(n, 10, 10);
    assert(bcd(val)[0] as int == n / 100);
    assert(bcd(val)[1] as int == (n % 100) / 10);
    assert(bcd(val)[2] as int == n % 10);
}

/// The effect of `FX0A`.
pub proof fn lemma_fx0a(c: CpuModel, x: u8, keys: Seq<bool>, rnd: u8)
    ensures
        next_cpu(Instruction::IFX0A { x }, c, keys, rnd) == wait_key(c, x, keys),
{
    reveal(next_cpu);
}

/// `FX0A` completes on release: while the latched key is held the
/// instruction repeats with everything else unchanged; once it is released
/// its number lands in `Vx`, the latch clears and execution goes on.
pub proof fn lemma_wait_for_release(c: CpuModel, x: u8, keys: Seq<bool>, rnd: u8)
    requires
        model_ok(c),
        keys.len() == 16,
        c.awaiting_key matches Some(k) && k < 16,
    ensures
        ({
            let k = c.awaiting_key->Some_0;
            let c1 = next_cpu(Instruction::IFX0A { x }, c, keys, rnd);
            &&& keys[k as int] ==> c1 == held(c)
            &&& !keys[k as int] ==> c1.registers[reg(x)] == k && c1.awaiting_key is None && c1.pc == c.pc
        }),
{
    lemma_fx0a(c, x, keys, rnd);
}

/// `FX0A` with no key latched latches the lowest pressed key (if any) and repeats.
pub proof fn lemma_wait_latches_press(c: CpuModel, x: u8, keys: Seq<bool>, rnd: u8)
    requires
        model_ok(c),
        keys.len() == 16,
        c.awaiting_key is None,
    ensures
        next_cpu(Instruction::IFX0A { x }, c, keys, rnd) == (CpuModel {
            awaiting_key: first_pressed(keys),
            ..held(c)
        }),
{
    lemma_fx0a(c, x, keys, rnd);
}

/// Whether pixel `q` of a plane selected in `before` is on in `before` and off in `after`.
pub open spec fn pixel_turned_off(before: DisplayModel, after: DisplayModel, q: int) -> bool {
    (is_selected(before.selected_plane, 1) && before.plane_1[q] && !after.plane_1[q])
    || (is_selected(before.selected_plane, 2) && before.plane_2[q] && !after.plane_2[q])
}

/// After a draw, `VF` is 0 or 1, and it is 1 exactly when some pixel of a
/// selected plane went from on to off.
pub proof fn lemma_draw_flag(ins: Instruction, k: Core, keys: Seq<bool>, rnd: u8)
    requires
        ins is IDXYN || ins is IDXY0,
        model_ok(k.cpu),
        k.display.plane_1.len() == 8192,
        k.display.plane_2.len() == 8192,
    ensures
        next_core(ins, k, keys, rnd).cpu.registers[15] == 0 || next_core(ins, k, keys, rnd).cpu.registers[15] == 1,
        next_core(ins, k, keys, rnd).cpu.registers[15] == 1 <==> exists|q: int|
            0 <= q < 8192 && #[trigger] pixel_turned_off(k.display, next_core(ins, k, keys, rnd).display, q),
{
    let k1 = next_core(ins, k, keys, rnd);
    let (x, y, rows, wide) = match ins {
        Instruction::IDXYN { x, y, n } => (x, y, (n % 16) as int, false),
        Instruction::IDXY0 { x, y } => (x, y, 16int, true),
        _ => (0u8, 0u8, 0int, false),
    };
    let mask = k.display.selected_plane;
    let s = placement(k.cpu, k.hires, x, y, rows, wide);
    let mem = k.cpu.memory;
    let a = k.cpu.i as int;
    let b2 = crate::display::plane_2_base(mask, a, s);
    assert(k1 == draw(k, x, y, rows, wide));
    crate::display::lemma_collides_iff_pixel_off(k.display.plane_1, mem, a, s);
    crate::display::lemma_collides_iff_pixel_off(k.display.plane_2, mem, b2, s);
    let d1 = crate::display::drawn_plane(k.display.plane_1, mem, a, s);
    let d2 = crate::display::drawn_plane(k.display.plane_2, mem, b2, s);
    let c1 = crate::display::collides(k.display.plane_1, mem, a, s);
    let c2 = crate::display::collides(k.display.plane_2, mem, b2, s);
    assert(k1.cpu.registers[15] == if draw_collides(k.display, mem, a, s) { 1u8 } else { 0u8 });
    assert(draw_collides(k.display, mem, a, s) == ((is_selected(mask, 1) && c1) || (is_selected(mask, 2) && c2)));
    assert(is_selected(mask, 1) ==> k1.display.plane_1 == d1);
    assert(is_selected(mask, 2) ==> k1.display.plane_2 == d2);
    if is_selected(mask, 1) && c1 {
        let q = choose|q: int| 0 <= q < 8192 && k.display.plane_1[q] && !#[trigger] d1[q];
        assert(pixel_turned_off(k.display, k1.display, q));
    } else if is_selected(mask, 2) && c2 {
        let q = choose|q: int| 0 <= q < 8192 && k.display.plane_2[q] && !#[trigger] d2[q];
        assert(pixel_turned_off(k.display, k1.display, q));
    }
    if exists|q: int| 0 <= q < 8192 && #[trigger] pixel_turned_off(k.display, k1.display, q) {
        let q = choose|q: int| 0 <= q < 8192 && #[trigger] pixel_turned_off(k.display, k1.display, q);
        if is_selected(mask, 1) && k.display.plane_1[q] && !k1.display.plane_1[q] {
            assert(k.display.plane_1[q] && !d1[q]);
        } else {
            assert(k.display.plane_2[q] && !d2[q]);
        }
    }
}

/// Executing an instruction keeps the sizes of memory and of the register files.
pub proof fn lemma_next_core_model_ok(ins: Instruction, k: Core, keys: Seq<bool>, rnd: u8)
    requires
        model_ok(k.cpu),
    ensures
        model_ok(next_core(ins, k, keys, rnd).cpu),
{
    reveal(next_cpu);
    let c = k.cpu;
    match ins {
        Instruction::I5XY2 { x, y } => {
            lemma_stored_len(c.memory, c.i as int, range_regs(c, x, y));
        },
        Instruction::IFX33 { x } => {
            lemma_stored_len(c.memory, c.i as int, bcd(v(c, x)));
        },
        Instruction::IFX55 { x } => {
            lemma_stored_len(c.memory, c.i as int, c.registers.subrange(0, reg(x) + 1));
        },
        _ => {},
    }
}

} // verus!
