use vstd::prelude::*;

verus! {

/// A decoded instruction. `x` and `y` select registers (0 to 15), `byte` is
/// an 8-bit immediate, `addr` a 12-bit address and `n` a 4-bit height.
#[derive(Debug, Clone, Copy, PartialEq, Eq, Structural)]
pub enum Instruction {
    /// 0000: do nothing.
    Nop,
    /// 00E0: turn every pixel off.
    Cls,
    /// 00EE: return from a subroutine.
    Ret,
    /// 1NNN: jump to `addr`.
    Jp { addr: u16 },
    /// 2NNN: call the subroutine at `addr`.
    Call { addr: u16 },
    /// 3XNN: skip the next instruction if `Vx == byte`.
    SeByte { x: usize, byte: u8 },
    /// 4XNN: skip the next instruction if `Vx != byte`.
    SneByte { x: usize, byte: u8 },
    /// 5XY0: skip the next instruction if `Vx == Vy`.
    SeReg { x: usize, y: usize },
    /// 6XNN: `Vx = byte`.
    LdByte { x: usize, byte: u8 },
    /// 7XNN: `Vx += byte`, wrapping, flag untouched.
    AddByte { x: usize, byte: u8 },
    /// 8XY0: `Vx = Vy`.
    LdReg { x: usize, y: usize },
    /// 8XY1: `Vx |= Vy`.
    Or { x: usize, y: usize },
    /// 8XY2: `Vx &= Vy`.
    And { x: usize, y: usize },
    /// 8XY3: `Vx ^= Vy`.
    Xor { x: usize, y: usize },
    /// 8XY4: `Vx += Vy`, flag set to the carry.
    AddReg { x: usize, y: usize },
    /// 8XY5: `Vx -= Vy`, flag set to 1 when no borrow occurred.
    Sub { x: usize, y: usize },
    /// 8XY6: `Vx >>= 1`, flag set to the bit shifted out.
    Shr { x: usize },
    /// 8XY7: `Vx = Vy - Vx`, flag set to 1 when no borrow occurred.
    SubN { x: usize, y: usize },
    /// 8XYE: `Vx <<= 1`, flag set to the bit shifted out.
    Shl { x: usize },
    /// 9XY0: skip the next instruction if `Vx != Vy`.
    SneReg { x: usize, y: usize },
    /// ANNN: `I = addr`.
    LdI { addr: u16 },
    /// BNNN: jump to `addr + V0`.
    JpV0 { addr: u16 },
    /// CXNN: `Vx = random & byte`.
    Rnd { x: usize, byte: u8 },
    /// DXYN: draw the `n`-row sprite at `I` at `(Vx, Vy)`.
    Drw { x: usize, y: usize, n: u8 },
    /// EX9E: skip the next instruction if key `Vx` is pressed.
    Skp { x: usize },
    /// EXA1: skip the next instruction if key `Vx` is not pressed.
    Sknp { x: usize },
    /// FX07: `Vx = delay timer`.
    LdVxDt { x: usize },
    /// FX0A: wait for a key press and store the key in `Vx`.
    LdKey { x: usize },
    /// FX15: `delay timer = Vx`.
    LdDtVx { x: usize },
    /// FX18: `sound timer = Vx`.
    LdStVx { x: usize },
    /// FX1E: `I += Vx`, wrapping, flag untouched.
    AddI { x: usize },
    /// FX29: point `I` at the font glyph of digit `Vx`.
    LdF { x: usize },
    /// FX33: store the decimal digits of `Vx` at `I`, `I + 1`, `I + 2`.
    LdB { x: usize },
    /// FX55: store `V0..=Vx` at `I..=I + x`.
    StoreRegs { x: usize },
    /// FX65: load `V0..=Vx` from `I..=I + x`.
    LoadRegs { x: usize },
}

/// Top nibble of an instruction word: the opcode class.
pub open spec fn class_of(op: u16) -> int {
    op as int / 0x1000
}

/// Second nibble: the first register selector.
pub open spec fn x_of(op: u16) -> usize {
    ((op as int / 0x100) % 0x10) as usize
}

/// Third nibble: the second register selector.
pub open spec fn y_of(op: u16) -> usize {
    ((op as int / 0x10) % 0x10) as usize
}

/// Low nibble.
pub open spec fn n_of(op: u16) -> u8 {
    (op as int % 0x10) as u8
}

/// Low byte.
pub open spec fn byte_of(op: u16) -> u8 {
    (op as int % 0x100) as u8
}

/// Low twelve bits.
pub open spec fn addr_of(op: u16) -> u16 {
    (op as int % 0x1000) as u16
}

/// The instruction that `op` encodes, if any.
pub open spec fn decode_spec(op: u16) -> Option<Instruction> {
    let x = x_of(op);
    let y = y_of(op);
    let n = n_of(op);
    let byte = byte_of(op);
    let addr = addr_of(op);
    let c = class_of(op);
    if op == 0x0000 {
        Some(Instruction::Nop)
    } else if op == 0x00E0 {
        Some(Instruction::Cls)
    } else if op == 0x00EE {
        Some(Instruction::Ret)
    } else if c == 0x1 {
        Some(Instruction::Jp { addr })
    } else if c == 0x2 {
        Some(Instruction::Call { addr })
    } else if c == 0x3 {
        Some(Instruction::SeByte { x, byte })
    } else if c == 0x4 {
        Some(Instruction::SneByte { x, byte })
    } else if c == 0x5 && n == 0 {
        Some(Instruction::SeReg { x, y })
    } else if c == 0x6 {
        Some(Instruction::LdByte { x, byte })
    } else if c == 0x7 {
        Some(Instruction::AddByte { x, byte })
    } else if c == 0x8 {
        if n == 0x0 {
            Some(Instruction::LdReg { x, y })
        } else if n == 0x1 {
            Some(Instruction::Or { x, y })
        } else if n == 0x2 {
            Some(Instruction::And { x, y })
        } else if n == 0x3 {
            Some(Instruction::Xor { x, y })
        } else if n == 0x4 {
            Some(Instruction::AddReg { x, y })
        } else if n == 0x5 {
            Some(Instruction::Sub { x, y })
        } else if n == 0x6 {
            Some(Instruction::Shr { x })
        } else if n == 0x7 {
            Some(Instruction::SubN { x, y })
        } else if n == 0xE {
            Some(Instruction::Shl { x })
        } else {
            None
        }
    } else if c == 0x9 && n == 0 {
        Some(Instruction::SneReg { x, y })
    } else if c == 0xA {
        Some(Instruction::LdI { addr })
    } else if c == 0xB {
        Some(Instruction::JpV0 { addr })
    } else if c == 0xC {
        Some(Instruction::Rnd { x, byte })
    } else if c == 0xD {
        Some(Instruction::Drw { x, y, n })
    } else if c == 0xE && byte == 0x9E {
        Some(Instruction::Skp { x })
    } else if c == 0xE && byte == 0xA1 {
        Some(Instruction::Sknp { x })
    } else if c == 0xF {
        if byte == 0x07 {
            Some(Instruction::LdVxDt { x })
        } else if byte == 0x0A {
            Some(Instruction::LdKey { x })
        } else if byte == 0x15 {
            Some(Instruction::LdDtVx { x })
        } else if byte == 0x18 {
            Some(Instruction::LdStVx { x })
        } else if byte == 0x1E {
            Some(Instruction::AddI { x })
        } else if byte == 0x29 {
            Some(Instruction::LdF { x })
        } else if byte == 0x33 {
            Some(Instruction::LdB { x })
        } else if byte == 0x55 {
            Some(Instruction::StoreRegs { x })
        } else if byte == 0x65 {
            Some(Instruction::LoadRegs { x })
        } else {
            None
        }
    } else {
        None
    }
}

impl Instruction {
    /// Every register selector is below 16 and every height below 16.
    pub open spec fn wf(self) -> bool {
        match self {
            Instruction::SeByte { x, .. } | Instruction::SneByte { x, .. } | Instruction::LdByte {
                x,
                ..
            } | Instruction::AddByte { x, .. } | Instruction::Shr { x } | Instruction::Shl { x }
            | Instruction::Rnd { x, .. } | Instruction::Skp { x } | Instruction::Sknp { x }
            | Instruction::LdVxDt { x } | Instruction::LdKey { x } | Instruction::LdDtVx { x }
            | Instruction::LdStVx { x } | Instruction::AddI { x } | Instruction::LdF { x }
            | Instruction::LdB { x } | Instruction::StoreRegs { x } | Instruction::LoadRegs {
                x,
            } => x < 16,
            Instruction::SeReg { x, y } | Instruction::LdReg { x, y } | Instruction::Or { x, y }
            | Instruction::And { x, y } | Instruction::Xor { x, y } | Instruction::AddReg { x, y }
            | Instruction::Sub { x, y } | Instruction::SubN { x, y } | Instruction::SneReg {
                x,
                y,
            } => x < 16 && y < 16,
            Instruction::Drw { x, y, n } => x < 16 && y < 16 && n < 16,
            Instruction::Jp { addr } | Instruction::Call { addr } | Instruction::LdI { addr }
            | Instruction::JpV0 { addr } => addr < 0x1000,
            _ => true,
        }
    }

    /// Decodes an instruction word; `None` for a word that encodes no instruction.
    pub fn decode(op: u16) -> (r: Option<Instruction>)
        ensures
            r == decode_spec(op),
            r matches Some(i) ==> i.wf(),
    {
        let c: u16 = op / 0x1000;
        let x: usize = ((op / 0x100) % 0x10) as usize;
        let y: usize = ((op / 0x10) % 0x10) as usize;
        let n: u8 = (op % 0x10) as u8;
        let byte: u8 = (op % 0x100) as u8;
        let addr: u16 = op % 0x1000;
        if op == 0x0000 {
            Some(Instruction::Nop)
        } else if op == 0x00E0 {
            Some(Instruction::Cls)
        } else if op == 0x00EE {
            Some(Instruction::Ret)
        } else if c == 0x1 {
            Some(Instruction::Jp { addr })
        } else if c == 0x2 {
            Some(Instruction::Call { addr })
        } else if c == 0x3 {
            Some(Instruction::SeByte { x, byte })
        } else if c == 0x4 {
            Some(Instruction::SneByte { x, byte })
        } else if c == 0x5 && n == 0 {
            Some(Instruction::SeReg { x, y })
        } else if c == 0x6 {
            Some(Instruction::LdByte { x, byte })
        } else if c == 0x7 {
            Some(Instruction::AddByte { x, byte })
        } else if c == 0x8 {
            match n {
                0x0 => Some(Instruction::LdReg { x, y }),
                0x1 => Some(Instruction::Or { x, y }),
                0x2 => Some(Instruction::And { x, y }),
                0x3 => Some(Instruction::Xor { x, y }),
                0x4 => Some(Instruction::AddReg { x, y }),
                0x5 => Some(Instruction::Sub { x, y }),
                0x6 => Some(Instruction::Shr { x }),
                0x7 => Some(Instruction::SubN { x, y }),
                0xE => Some(Instruction::Shl { x }),
                _ => None,
            }
        } else if c == 0x9 && n == 0 {
            Some(Instruction::SneReg { x, y })
        } else if c == 0xA {
            Some(Instruction::LdI { addr })
        } else if c == 0xB {
            Some(Instruction::JpV0 { addr })
        } else if c == 0xC {
            Some(Instruction::Rnd { x, byte })
        } else if c == 0xD {
            Some(Instruction::Drw { x, y, n })
        } else if c == 0xE && byte == 0x9E {
            Some(Instruction::Skp { x })
        } else if c == 0xE && byte == 0xA1 {
            Some(Instruction::Sknp { x })
        } else if c == 0xF {
            match byte {
                0x07 => Some(Instruction::LdVxDt { x }),
                0x0A => Some(Instruction::LdKey { x }),
                0x15 => Some(Instruction::LdDtVx { x }),
                0x18 => Some(Instruction::LdStVx { x }),
                0x1E => Some(Instruction::AddI { x }),
                0x29 => Some(Instruction::LdF { x }),
                0x33 => Some(Instruction::LdB { x }),
                0x55 => Some(Instruction::StoreRegs { x }),
                0x65 => Some(Instruction::LoadRegs { x }),
                _ => None,
            }
        } else {
            None
        }
    }
}

} // verus!
