//! Instruction words and their decoding.
use vstd::prelude::*;

verus! {

/// One instruction of the CHIP-8 family, with its operands.
#[derive(PartialEq, Eq, Structural, Copy, Clone, Debug)]
pub enum Instruction {
    I0000,
    I00BN { n: u8 },
    I00CN { n: u8 },
    I00DN { n: u8 },
    I00E0,
    I00EE,
    I00FB,
    I00FC,
    I00FD,
    I00FE,
    I00FF,
    I1NNN { nnn: u16 },
    I2NNN { nnn: u16 },
    I3XNN { x: u8, nn: u8 },
    I4XNN { x: u8, nn: u8 },
    I5XY0 { x: u8, y: u8 },
    I5XY2 { x: u8, y: u8 },
    I5XY3 { x: u8, y: u8 },
    I6XNN { x: u8, nn: u8 },
    I7XNN { x: u8, nn: u8 },
    I8XY0 { x: u8, y: u8 },
    I8XY1 { x: u8, y: u8 },
    I8XY2 { x: u8, y: u8 },
    I8XY3 { x: u8, y: u8 },
    I8XY4 { x: u8, y: u8 },
    I8XY5 { x: u8, y: u8 },
    I8XY6 { x: u8, y: u8 },
    I8XY7 { x: u8, y: u8 },
    I8XYE { x: u8, y: u8 },
    I9XY0 { x: u8, y: u8 },
    IANNN { nnn: u16 },
    IBNNN { x: u8, nnn: u16 },
    ICXNN { x: u8, nn: u8 },
    IDXYN { x: u8, y: u8, n: u8 },
    IDXY0 { x: u8, y: u8 },
    IEX9E { x: u8 },
    IEXA1 { x: u8 },
    IF000,
    IFN01 { n: u8 },
    IF002,
    IFX07 { x: u8 },
    IFX15 { x: u8 },
    IFX18 { x: u8 },
    IFX1E { x: u8 },
    IFX0A { x: u8 },
    IFX29 { x: u8 },
    IFX30 { x: u8 },
    IFX33 { x: u8 },
    IFX3A { x: u8 },
    IFX55 { x: u8 },
    IFX65 { x: u8 },
    IFX75 { x: u8 },
    IFX85 { x: u8 },
}

/// An instruction word split into its fields: the top nibble `opcode`, the
/// nibbles `x`, `y`, `n`, the low byte `nn` and the low twelve bits `nnn`.
#[derive(PartialEq, Eq, Structural, Copy, Clone, Debug)]
pub struct DecodedInstruction {
    pub opcode: u8,
    pub x: u8,
    pub y: u8,
    pub n: u8,
    pub nn: u8,
    pub nnn: u16,
}

/// The fields of an instruction word.
pub open spec fn split_word(w: u16) -> DecodedInstruction {
    DecodedInstruction {
        opcode: ((w & 0xF000) >> 12) as u8,
        x: ((w & 0x0F00) >> 8) as u8,
        y: ((w & 0x00F0) >> 4) as u8,
        n: (w & 0x000F) as u8,
        nn: (w & 0x00FF) as u8,
        nnn: w & 0x0FFF,
    }
}

/// The instruction that a split word stands for, if any (the opcode table).
pub open spec fn instruction_of(d: DecodedInstruction) -> Option<Instruction> {
    let (op, x, y, n, nn, nnn) = (d.opcode, d.x, d.y, d.n, d.nn, d.nnn);
    if op == 0x0 && x == 0x0 && y == 0x0 && n == 0x0 { Some(Instruction::I0000) }
    else if op == 0x0 && x == 0x0 && y == 0xB { Some(Instruction::I00BN { n }) }
    else if op == 0x0 && x == 0x0 && y == 0xD { Some(Instruction::I00DN { n }) }
    else if op == 0x0 && x == 0x0 && y == 0xC { Some(Instruction::I00CN { n }) }
    else if op == 0x0 && x == 0x0 && y == 0xE && n == 0x0 { Some(Instruction::I00E0) }
    else if op == 0x0 && x == 0x0 && y == 0xE && n == 0xE { Some(Instruction::I00EE) }
    else if op == 0x0 && x == 0x0 && y == 0xF && n == 0xB { Some(Instruction::I00FB) }
    else if op == 0x0 && x == 0x0 && y == 0xF && n == 0xC { Some(Instruction::I00FC) }
    else if op == 0x0 && x == 0x0 && y == 0xF && n == 0xD { Some(Instruction::I00FD) }
    else if op == 0x0 && x == 0x0 && y == 0xF && n == 0xE { Some(Instruction::I00FE) }
    else if op == 0x0 && x == 0x0 && y == 0xF && n == 0xF { Some(Instruction::I00FF) }
    else if op == 0x1 { Some(Instruction::I1NNN { nnn }) }
    else if op == 0x2 { Some(Instruction::I2NNN { nnn }) }
    else if op == 0x3 { Some(Instruction::I3XNN { x, nn }) }
    else if op == 0x4 { Some(Instruction::I4XNN { x, nn }) }
    else if op == 0x5 && n == 0x0 { Some(Instruction::I5XY0 { x, y }) }
    else if op == 0x5 && n == 0x2 { Some(Instruction::I5XY2 { x, y }) }
    else if op == 0x5 && n == 0x3 { Some(Instruction::I5XY3 { x, y }) }
    else if op == 0x6 { Some(Instruction::I6XNN { x, nn }) }
    else if op == 0x7 { Some(Instruction::I7XNN { x, nn }) }
    else if op == 0x8 && n == 0x0 { Some(Instruction::I8XY0 { x, y }) }
    else if op == 0x8 && n == 0x1 { Some(Instruction::I8XY1 { x, y }) }
    else if op == 0x8 && n == 0x2 { Some(Instruction::I8XY2 { x, y }) }
    else if op == 0x8 && n == 0x3 { Some(Instruction::I8XY3 { x, y }) }
    else if op == 0x8 && n == 0x4 { Some(Instruction::I8XY4 { x, y }) }
    else if op == 0x8 && n == 0x5 { Some(Instruction::I8XY5 { x, y }) }
    else if op == 0x8 && n == 0x6 { Some(Instruction::I8XY6 { x, y }) }
    else if op == 0x8 && n == 0x7 { Some(Instruction::I8XY7 { x, y }) }
    else if op == 0x8 && n == 0xE { Some(Instruction::I8XYE { x, y }) }
    else if op == 0x9 && n == 0x0 { Some(Instruction::I9XY0 { x, y }) }
    else if op == 0xA { Some(Instruction::IANNN { nnn }) }
    else if op == 0xB { Some(Instruction::IBNNN { x, nnn }) }
    else if op == 0xC { Some(Instruction::ICXNN { x, nn }) }
    else if op == 0xD && n == 0x0 { Some(Instruction::IDXY0 { x, y }) }
    else if op == 0xD { Some(Instruction::IDXYN { x, y, n }) }
    else if op == 0xE && y == 0x9 && n == 0xE { Some(Instruction::IEX9E { x }) }
    else if op == 0xE && y == 0xA && n == 0x1 { Some(Instruction::IEXA1 { x }) }
    else if op == 0xF && x == 0x0 && y == 0x0 && n == 0x0 { Some(Instruction::IF000) }
    else if op == 0xF && y == 0x0 && n == 0x1 { Some(Instruction::IFN01 { n: x }) }
    else if op == 0xF && x == 0x0 && y == 0x0 && n == 0x2 { Some(Instruction::IF002) }
    else if op == 0xF && y == 0x0 && n == 0x7 { Some(Instruction::IFX07 { x }) }
    else if op == 0xF && y == 0x0 && n == 0xA { Some(Instruction::IFX0A { x }) }
    else if op == 0xF && y == 0x1 && n == 0x5 { Some(Instruction::IFX15 { x }) }
    else if op == 0xF && y == 0x1 && n == 0x8 { Some(Instruction::IFX18 { x }) }
    else if op == 0xF && y == 0x1 && n == 0xE { Some(Instruction::IFX1E { x }) }
    else if op == 0xF && y == 0x2 && n == 0x9 { Some(Instruction::IFX29 { x }) }
    else if op == 0xF && y == 0x3 && n == 0x0 { Some(Instruction::IFX30 { x }) }
    else if op == 0xF && y == 0x3 && n == 0x3 { Some(Instruction::IFX33 { x }) }
    else if op == 0xF && y == 0x3 && n == 0xA { Some(Instruction::IFX3A { x }) }
    else if op == 0xF && y == 0x5 && n == 0x5 { Some(Instruction::IFX55 { x }) }
    else if op == 0xF && y == 0x6 && n == 0x5 { Some(Instruction::IFX65 { x }) }
    else if op == 0xF && y == 0x7 && n == 0x5 { Some(Instruction::IFX75 { x }) }
    else if op == 0xF && y == 0x8 && n == 0x5 { Some(Instruction::IFX85 { x }) }
    else { None }
}

/// The instruction that a word stands for, if any.
pub open spec fn decode_word(w: u16) -> Option<Instruction> {
    instruction_of(split_word(w))
}

impl DecodedInstruction {
    /// Splits an instruction word into its fields.
    pub fn from_word(w: u16) -> (r: DecodedInstruction)
        ensures
            r == split_word(w),
    {
        DecodedInstruction {
            opcode: ((w & 0xF000) >> 12) as u8,
            x: ((w & 0x0F00) >> 8) as u8,
            y: ((w & 0x00F0) >> 4) as u8,
            n: (w & 0x000F) as u8,
            nn: (w & 0x00FF) as u8,
            nnn: w & 0x0FFF,
        }
    }

    /// The instruction that these fields stand for; `None` for a word outside the opcode table.
    pub fn to_instruction(&self) -> (r: Option<Instruction>)
        ensures
            r == instruction_of(*self),
    {
        let (op, x, y, n, nn, nnn) = (self.opcode, self.x, self.y, self.n, self.nn, self.nnn);
        if op == 0x0 && x == 0x0 && y == 0x0 && n == 0x0 { Some(Instruction::I0000) }
        else if op == 0x0 && x == 0x0 && y == 0xB { Some(Instruction::I00BN { n }) }
        else if op == 0x0 && x == 0x0 && y == 0xD { Some(Instruction::I00DN { n }) }
        else if op == 0x0 && x == 0x0 && y == 0xC { Some(Instruction::I00CN { n }) }
        else if op == 0x0 && x == 0x0 && y == 0xE && n == 0x0 { Some(Instruction::I00E0) }
        else if op == 0x0 && x == 0x0 && y == 0xE && n == 0xE { Some(Instruction::I00EE) }
        else if op == 0x0 && x == 0x0 && y == 0xF && n == 0xB { Some(Instruction::I00FB) }
        else if op == 0x0 && x == 0x0 && y == 0xF && n == 0xC { Some(Instruction::I00FC) }
        else if op == 0x0 && x == 0x0 && y == 0xF && n == 0xD { Some(Instruction::I00FD) }
        else if op == 0x0 && x == 0x0 && y == 0xF && n == 0xE { Some(Instruction::I00FE) }
        else if op == 0x0 && x == 0x0 && y == 0xF && n == 0xF { Some(Instruction::I00FF) }
        else if op == 0x1 { Some(Instruction::I1NNN { nnn }) }
        else if op == 0x2 { Some(Instruction::I2NNN { nnn }) }
        else if op == 0x3 { Some(Instruction::I3XNN { x, nn }) }
        else if op == 0x4 { Some(Instruction::I4XNN { x, nn }) }
        else if op == 0x5 && n == 0x0 { Some(Instruction::I5XY0 { x, y }) }
        else if op == 0x5 && n == 0x2 { Some(Instruction::I5XY2 { x, y }) }
        else if op == 0x5 && n == 0x3 { Some(Instruction::I5XY3 { x, y }) }
        else if op == 0x6 { Some(Instruction::I6XNN { x, nn }) }
        else if op == 0x7 { Some(Instruction::I7XNN { x, nn }) }
        else if op == 0x8 && n == 0x0 { Some(Instruction::I8XY0 { x, y }) }
        else if op == 0x8 && n == 0x1 { Some(Instruction::I8XY1 { x, y }) }
        else if op == 0x8 && n == 0x2 { Some(Instruction::I8XY2 { x, y }) }
        else if op == 0x8 && n == 0x3 { Some(Instruction::I8XY3 { x, y }) }
        else if op == 0x8 && n == 0x4 { Some(Instruction::I8XY4 { x, y }) }
        else if op == 0x8 && n == 0x5 { Some(Instruction::I8XY5 { x, y }) }
        else if op == 0x8 && n == 0x6 { Some(Instruction::I8XY6 { x, y }) }
        else if op == 0x8 && n == 0x7 { Some(Instruction::I8XY7 { x, y }) }
        else if op == 0x8 && n == 0xE { Some(Instruction::I8XYE { x, y }) }
        else if op == 0x9 && n == 0x0 { Some(Instruction::I9XY0 { x, y }) }
        else if op == 0xA { Some(Instruction::IANNN { nnn }) }
        else if op == 0xB { Some(Instruction::IBNNN { x, nnn }) }
        else if op == 0xC { Some(Instruction::ICXNN { x, nn }) }
        else if op == 0xD && n == 0x0 { Some(Instruction::IDXY0 { x, y }) }
        else if op == 0xD { Some(Instruction::IDXYN { x, y, n }) }
        else if op == 0xE && y == 0x9 && n == 0xE { Some(Instruction::IEX9E { x }) }
        else if op == 0xE && y == 0xA && n == 0x1 { Some(Instruction::IEXA1 { x }) }
        else if op == 0xF && x == 0x0 && y == 0x0 && n == 0x0 { Some(Instruction::IF000) }
        else if op == 0xF && y == 0x0 && n == 0x1 { Some(Instruction::IFN01 { n: x }) }
        else if op == 0xF && x == 0x0 && y == 0x0 && n == 0x2 { Some(Instruction::IF002) }
        else if op == 0xF && y == 0x0 && n == 0x7 { Some(Instruction::IFX07 { x }) }
        else if op == 0xF && y == 0x0 && n == 0xA { Some(Instruction::IFX0A { x }) }
        else if op == 0xF && y == 0x1 && n == 0x5 { Some(Instruction::IFX15 { x }) }
        else if op == 0xF && y == 0x1 && n == 0x8 { Some(Instruction::IFX18 { x }) }
        else if op == 0xF && y == 0x1 && n == 0xE { Some(Instruction::IFX1E { x }) }
        else if op == 0xF && y == 0x2 && n == 0x9 { Some(Instruction::IFX29 { x }) }
        else if op == 0xF && y == 0x3 && n == 0x0 { Some(Instruction::IFX30 { x }) }
        else if op == 0xF && y == 0x3 && n == 0x3 { Some(Instruction::IFX33 { x }) }
        else if op == 0xF && y == 0x3 && n == 0xA { Some(Instruction::IFX3A { x }) }
        else if op == 0xF && y == 0x5 && n == 0x5 { Some(Instruction::IFX55 { x }) }
        else if op == 0xF && y == 0x6 && n == 0x5 { Some(Instruction::IFX65 { x }) }
        else if op == 0xF && y == 0x7 && n == 0x5 { Some(Instruction::IFX75 { x }) }
        else if op == 0xF && y == 0x8 && n == 0x5 { Some(Instruction::IFX85 { x }) }
        else { None }
    }
}

} // verus!
