//! Instruction decoding: from a 16-bit opcode to a typed instruction.

use vstd::prelude::*;

verus! {

/// One decoded CHIP-8 instruction. Register operands are indices 0..=15,
/// addresses are 12-bit and sprite heights are 4-bit.
#[derive(Clone, Copy, Debug, PartialEq, Eq, Structural)]
pub enum Instruction {
    /// `00E0` CLS: clear the display.
    ClearScreen,
    /// `00EE` RET: return from a subroutine.
    Return,
    /// `0NNN` SYS: historical machine routine call, ignored.
    System { addr: u16 },
    /// `1NNN` JP: jump to `addr`.
    Jump { addr: u16 },
    /// `2NNN` CALL: call the subroutine at `addr`.
    Call { addr: u16 },
    /// `3XNN` SE: skip the next instruction if `V[x] == nn`.
    SkipIfEqualImm { x: usize, nn: u8 },
    /// `4XNN` SNE: skip the next instruction if `V[x] != nn`.
    SkipIfNotEqualImm { x: usize, nn: u8 },
    /// `5XY0` SE: skip the next instruction if `V[x] == V[y]`.
    SkipIfEqualReg { x: usize, y: usize },
    /// `6XNN` LD: `V[x] = nn`.
    LoadImm { x: usize, nn: u8 },
    /// `7XNN` ADD: `V[x] += nn`, wrapping, flag untouched.
    AddImm { x: usize, nn: u8 },
    /// `8XY0` LD: `V[x] = V[y]`.
    Move { x: usize, y: usize },
    /// `8XY1` OR.
    Or { x: usize, y: usize },
    /// `8XY2` AND.
    And { x: usize, y: usize },
    /// `8XY3` XOR.
    Xor { x: usize, y: usize },
    /// `8XY4` ADD with carry into `VF`.
    AddReg { x: usize, y: usize },
    /// `8XY5` SUB: `V[x] - V[y]`, not-borrow into `VF`.
    Sub { x: usize, y: usize },
    /// `8XY6` SHR.
    ShiftRight { x: usize, y: usize },
    /// `8XY7` SUBN: `V[y] - V[x]`, not-borrow into `VF`.
    SubReversed { x: usize, y: usize },
    /// `8XYE` SHL.
    ShiftLeft { x: usize, y: usize },
    /// `9XY0` SNE: skip the next instruction if `V[x] != V[y]`.
    SkipIfNotEqualReg { x: usize, y: usize },
    /// `ANNN` LD I: `I = addr`.
    LoadIndex { addr: u16 },
    /// `BNNN` JP V0: jump to `addr + V[0]`.
    JumpOffset { addr: u16 },
    /// `CXNN` RND: `V[x] = random & nn`.
    Random { x: usize, nn: u8 },
    /// `DXYN` DRW: draw an `n`-row sprite from `memory[I..]` at `(V[x], V[y])`.
    Draw { x: usize, y: usize, n: u8 },
    /// `EX9E` SKP: skip if the key `V[x]` is pressed.
    SkipIfKey { x: usize },
    /// `EXA1` SKNP: skip if the key `V[x]` is not pressed.
    SkipIfNotKey { x: usize },
    /// `FX07` LD: `V[x] = delay timer`.
    LoadDelay { x: usize },
    /// `FX0A` LD K: wait for a key press and store the key in `V[x]`.
    WaitKey { x: usize },
    /// `FX15` LD DT: `delay timer = V[x]`.
    SetDelay { x: usize },
    /// `FX18` LD ST: `sound timer = V[x]`.
    SetSound { x: usize },
    /// `FX1E` ADD I: `I += V[x]`, wrapping at 16 bits.
    AddIndex { x: usize },
    /// `FX29` LD F: point `I` at the font glyph of the low nibble of `V[x]`.
    LoadFont { x: usize },
    /// `FX33` LD B: store the decimal digits of `V[x]` at `memory[I..I + 3]`.
    StoreBcd { x: usize },
    /// `FX55` LD [I]: store `V[0..=x]` at `memory[I..]`.
    StoreRegs { x: usize },
    /// `FX65` LD Vx, [I]: load `V[0..=x]` from `memory[I..]`.
    LoadRegs { x: usize },
}

/// Bits 8..12 of an opcode: the first register operand.
pub open spec fn op_x(op: u16) -> usize {
    ((op as int / 256) % 16) as usize
}

/// Bits 4..8 of an opcode: the second register operand.
pub open spec fn op_y(op: u16) -> usize {
    ((op as int / 16) % 16) as usize
}

/// The low nibble of an opcode.
pub open spec fn op_n(op: u16) -> u8 {
    (op as int % 16) as u8
}

/// The low byte of an opcode.
pub open spec fn op_nn(op: u16) -> u8 {
    (op as int % 256) as u8
}

/// The low twelve bits of an opcode: an address.
pub open spec fn op_nnn(op: u16) -> u16 {
    (op as int % 4096) as u16
}

/// The instruction that `op` encodes, or `None` for an unknown opcode.
pub open spec fn decode_spec(op: u16) -> Option<Instruction> {
    let x = op_x(op);
    let y = op_y(op);
    let n = op_n(op);
    let nn = op_nn(op);
    let addr = op_nnn(op);
    let top = op as int / 4096;
    if top == 0x0 {
        if op == 0x00E0 {
            Some(Instruction::ClearScreen)
        } else if op == 0x00EE {
            Some(Instruction::Return)
        } else {
            Some(Instruction::System { addr })
        }
    } else if top == 0x1 {
        Some(Instruction::Jump { addr })
    } else if top == 0x2 {
        Some(Instruction::Call { addr })
    } else if top == 0x3 {
        Some(Instruction::SkipIfEqualImm { x, nn })
    } else if top == 0x4 {
        Some(Instruction::SkipIfNotEqualImm { x, nn })
    } else if top == 0x5 {
        if n == 0 {
            Some(Instruction::SkipIfEqualReg { x, y })
        } else {
            None
        }
    } else if top == 0x6 {
        Some(Instruction::LoadImm { x, nn })
    } else if top == 0x7 {
        Some(Instruction::AddImm { x, nn })
    } else if top == 0x8 {
        if n == 0x0 {
            Some(Instruction::Move { x, y })
        } else if n == 0x1 {
            Some(Instruction::Or { x, y })
        } else if n == 0x2 {
            Some(Instruction::And { x, y })
        } else if n == 0x3 {
            Some(Instruction::Xor { x, y })
        } else if n == 0x4 {
            Some(Instruction::AddReg { x, y })
        } else if n == 0x5 {
            Some(Instruction::Sub { x, y })
        } else if n == 0x6 {
            Some(Instruction::ShiftRight { x, y })
        } else if n == 0x7 {
            Some(Instruction::SubReversed { x, y })
        } else if n == 0xE {
            Some(Instruction::ShiftLeft { x, y })
        } else {
            None
        }
    } else if top == 0x9 {
        if n == 0 {
            Some(Instruction::SkipIfNotEqualReg { x, y })
        } else {
            None
        }
    } else if top == 0xA {
        Some(Instruction::LoadIndex { addr })
    } else if top == 0xB {
        Some(Instruction::JumpOffset { addr })
    } else if top == 0xC {
        Some(Instruction::Random { x, nn })
    } else if top == 0xD {
        Some(Instruction::Draw { x, y, n })
    } else if top == 0xE {
        if nn == 0x9E {
            Some(Instruction::SkipIfKey { x })
        } else if nn == 0xA1 {
            Some(Instruction::SkipIfNotKey { x })
        } else {
            None
        }
    } else {
        if nn == 0x07 {
            Some(Instruction::LoadDelay { x })
        } else if nn == 0x0A {
            Some(Instruction::WaitKey { x })
        } else if nn == 0x15 {
            Some(Instruction::SetDelay { x })
        } else if nn == 0x18 {
            Some(Instruction::SetSound { x })
        } else if nn == 0x1E {
            Some(Instruction::AddIndex { x })
        } else if nn == 0x29 {
            Some(Instruction::LoadFont { x })
        } else if nn == 0x33 {
            Some(Instruction::StoreBcd { x })
        } else if nn == 0x55 {
            Some(Instruction::StoreRegs { x })
        } else if nn == 0x65 {
            Some(Instruction::LoadRegs { x })
        } else {
            None
        }
    }
}

impl Instruction {
    /// Operands are in range: registers below 16, addresses below 0x1000,
    /// sprite heights below 16.
    pub open spec fn well_formed(self) -> bool {
        match self {
            Instruction::System { addr } => addr < 0x1000,
            Instruction::Jump { addr } => addr < 0x1000,
            Instruction::Call { addr } => addr < 0x1000,
            Instruction::LoadIndex { addr } => addr < 0x1000,
            Instruction::JumpOffset { addr } => addr < 0x1000,
            Instruction::SkipIfEqualImm { x, .. } => x < 16,
            Instruction::SkipIfNotEqualImm { x, .. } => x < 16,
            Instruction::LoadImm { x, .. } => x < 16,
            Instruction::AddImm { x, .. } => x < 16,
            Instruction::Random { x, .. } => x < 16,
            Instruction::SkipIfEqualReg { x, y } => x < 16 && y < 16,
            Instruction::Move { x, y } => x < 16 && y < 16,
            Instruction::Or { x, y } => x < 16 && y < 16,
            Instruction::And { x, y } => x < 16 && y < 16,
            Instruction::Xor { x, y } => x < 16 && y < 16,
            Instruction::AddReg { x, y } => x < 16 && y < 16,
            Instruction::Sub { x, y } => x < 16 && y < 16,
            Instruction::ShiftRight { x, y } => x < 16 && y < 16,
            Instruction::SubReversed { x, y } => x < 16 && y < 16,
            Instruction::ShiftLeft { x, y } => x < 16 && y < 16,
            Instruction::SkipIfNotEqualReg { x, y } => x < 16 && y < 16,
            Instruction::Draw { x, y, n } => x < 16 && y < 16 && n < 16,
            Instruction::SkipIfKey { x } => x < 16,
            Instruction::SkipIfNotKey { x } => x < 16,
            Instruction::LoadDelay { x } => x < 16,
            Instruction::WaitKey { x } => x < 16,
            Instruction::SetDelay { x } => x < 16,
            Instruction::SetSound { x } => x < 16,
            Instruction::AddIndex { x } => x < 16,
            Instruction::LoadFont { x } => x < 16,
            Instruction::StoreBcd { x } => x < 16,
            Instruction::StoreRegs { x } => x < 16,
            Instruction::LoadRegs { x } => x < 16,
            Instruction::ClearScreen => true,
            Instruction::Return => true,
        }
    }
}

/// The bit-level field extraction used by `decode` agrees with the
/// arithmetic description of the fields.
proof fn lemma_opcode_fields(op: u16)
    ensures
        (op & 0x0F00) >> 8u16 == (op as int / 256) % 16,
        (op & 0x00F0) >> 4u16 == (op as int / 16) % 16,
        op & 0x000F == op as int % 16,
        op & 0x00FF == op as int % 256,
        op & 0x0FFF == op as int % 4096,
        op >> 12u16 == op as int / 4096,
{
    assert((op & 0x0F00) >> 8u16 == (op / 256) % 16) by (bit_vector);
    assert((op & 0x00F0) >> 4u16 == (op / 16) % 16) by (bit_vector);
    assert(op & 0x000F == op % 16) by (bit_vector);
    assert(op & 0x00FF == op % 256) by (bit_vector);
    assert(op & 0x0FFF == op % 4096) by (bit_vector);
    assert(op >> 12u16 == op / 4096) by (bit_vector);
}

/// Decodes a big-endian opcode into an instruction; `None` for an opcode
/// that names no instruction.
pub fn decode(op: u16) -> (r: Option<Instruction>)
    ensures
        r == decode_spec(op),
        r matches Some(ins) ==> ins.well_formed(),
{
    proof {
        lemma_opcode_fields(op);
    }
    let x = ((op & 0x0F00) >> 8) as usize;
    let y = ((op & 0x00F0) >> 4) as usize;
    let n = (op & 0x000F) as u8;
    let nn = (op & 0x00FF) as u8;
    let addr = op & 0x0FFF;
    let top = op >> 12;
    if top == 0x0 {
        if op == 0x00E0 {
            Some(Instruction::ClearScreen)
        } else if op == 0x00EE {
            Some(Instruction::Return)
        } else {
            Some(Instruction::System { addr })
        }
    } else if top == 0x1 {
        Some(Instruction::Jump { addr })
    } else if top == 0x2 {
        Some(Instruction::Call { addr })
    } else if top == 0x3 {
        Some(Instruction::SkipIfEqualImm { x, nn })
    } else if top == 0x4 {
        Some(Instruction::SkipIfNotEqualImm { x, nn })
    } else if top == 0x5 {
        if n == 0 {
            Some(Instruction::SkipIfEqualReg { x, y })
        } else {
            None
        }
    } else if top == 0x6 {
        Some(Instruction::LoadImm { x, nn })
    } else if top == 0x7 {
        Some(Instruction::AddImm { x, nn })
    } else if top == 0x8 {
        match n {
            0x0 => Some(Instruction::Move { x, y }),
            0x1 => Some(Instruction::Or { x, y }),
            0x2 => Some(Instruction::And { x, y }),
            0x3 => Some(Instruction::Xor { x, y }),
            0x4 => Some(Instruction::AddReg { x, y }),
            0x5 => Some(Instruction::Sub { x, y }),
            0x6 => Some(Instruction::ShiftRight { x, y }),
            0x7 => Some(Instruction::SubReversed { x, y }),
            0xE => Some(Instruction::ShiftLeft { x, y }),
            _ => None,
        }
    } else if top == 0x9 {
        if n == 0 {
            Some(Instruction::SkipIfNotEqualReg { x, y })
        } else {
            None
        }
    } else if top == 0xA {
        Some(Instruction::LoadIndex { addr })
    } else if top == 0xB {
        Some(Instruction::JumpOffset { addr })
    } else if top == 0xC {
        Some(Instruction::Random { x, nn })
    } else if top == 0xD {
        Some(Instruction::Draw { x, y, n })
    } else if top == 0xE {
        match nn {
            0x9E => Some(Instruction::SkipIfKey { x }),
            0xA1 => Some(Instruction::SkipIfNotKey { x }),
            _ => None,
        }
    } else {
        match nn {
            0x07 => Some(Instruction::LoadDelay { x }),
            0x0A => Some(Instruction::WaitKey { x }),
            0x15 => Some(Instruction::SetDelay { x }),
            0x18 => Some(Instruction::SetSound { x }),
            0x1E => Some(Instruction::AddIndex { x }),
            0x29 => Some(Instruction::LoadFont { x }),
            0x33 => Some(Instruction::StoreBcd { x }),
            0x55 => Some(Instruction::StoreRegs { x }),
            0x65 => Some(Instruction::LoadRegs { x }),
            _ => None,
        }
    }
}

} // verus!
