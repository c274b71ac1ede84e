//! Decoding of 16-bit instruction words into operations.

use vstd::prelude::*;

verus! {

/// One decoded instruction. Register operands (`x`, `y`) are register
/// numbers 0..16; `kk` is an immediate byte; `addr` a 12-bit address;
/// `n` a sprite height in bytes.
#[derive(Clone, Copy, Debug, PartialEq, Eq, Structural)]
pub enum Op {
    /// `0000`: the all-zero word, executed as a no-op.
    Nop,
    /// `00E0`: clear the display.
    ClearScreen,
    /// `00EE`: return from a subroutine.
    Return,
    /// `1nnn`: jump to `addr`.
    Jump { addr: u16 },
    /// `2nnn`: call the subroutine at `addr`.
    Call { addr: u16 },
    /// `3xkk`: skip the next instruction if `Vx == kk`.
    SkipEqImm { x: u8, kk: u8 },
    /// `4xkk`: skip the next instruction if `Vx != kk`.
    SkipNeImm { x: u8, kk: u8 },
    /// `5xy0`: skip the next instruction if `Vx == Vy`.
    SkipEqReg { x: u8, y: u8 },
    /// `6xkk`: `Vx = kk`.
    LoadImm { x: u8, kk: u8 },
    /// `7xkk`: `Vx = Vx + kk`, wrapping, no flag.
    AddImm { x: u8, kk: u8 },
    /// `8xy0`: `Vx = Vy`.
    LoadReg { x: u8, y: u8 },
    /// `8xy1`: `Vx = Vx | Vy`.
    Or { x: u8, y: u8 },
    /// `8xy2`: `Vx = Vx & Vy`.
    And { x: u8, y: u8 },
    /// `8xy3`: `Vx = Vx ^ Vy`.
    Xor { x: u8, y: u8 },
    /// `8xy4`: `Vx = Vx + Vy`, `VF` = carry.
    AddReg { x: u8, y: u8 },
    /// `8xy5`: `Vx = Vx - Vy`, `VF` = not borrow.
    SubReg { x: u8, y: u8 },
    /// `8xy6`: `Vx = Vy >> 1`, `VF` = bit shifted out.
    ShiftRight { x: u8, y: u8 },
    /// `8xy7`: `Vx = Vy - Vx`, `VF` = not borrow.
    SubNeg { x: u8, y: u8 },
    /// `8xyE`: `Vx = Vy << 1`, `VF` = bit shifted out.
    ShiftLeft { x: u8, y: u8 },
    /// `9xy0`: skip the next instruction if `Vx != Vy`.
    SkipNeReg { x: u8, y: u8 },
    /// `Annn`: `I = addr`.
    LoadIndex { addr: u16 },
    /// `Bnnn`: jump to `addr + V0`.
    JumpPlusV0 { addr: u16 },
    /// `Cxkk`: `Vx = random byte & kk`.
    Random { x: u8, kk: u8 },
    /// `Dxyn`: draw an `n`-byte sprite from `memory[I..]` at `(Vx, Vy)`.
    Draw { x: u8, y: u8, n: u8 },
    /// `Ex9E`: skip the next instruction if key `Vx` is down.
    SkipKey { x: u8 },
    /// `ExA1`: skip the next instruction if key `Vx` is up.
    SkipNotKey { x: u8 },
    /// `Fx07`: `Vx = delay timer`.
    LoadDelay { x: u8 },
    /// `Fx0A`: wait for a key press and store it in `Vx`.
    WaitKey { x: u8 },
    /// `Fx15`: `delay timer = Vx`.
    SetDelay { x: u8 },
    /// `Fx18`: `sound timer = Vx`.
    SetSound { x: u8 },
    /// `Fx1E`: `I = I + Vx`.
    AddIndex { x: u8 },
    /// `Fx29`: `I` = address of the font glyph for the low nibble of `Vx`.
    FontAddr { x: u8 },
    /// `Fx33`: store the decimal digits of `Vx` at `memory[I..I+3]`.
    Bcd { x: u8 },
    /// `Fx55`: store `V0..=Vx` at `memory[I..]`.
    StoreRegs { x: u8 },
    /// `Fx65`: load `V0..=Vx` from `memory[I..]`.
    LoadRegs { x: u8 },
}

/// The `x` field: `(word & 0x0F00) >> 8`.
pub open spec fn field_x(w: u16) -> u8 {
    ((w & 0x0F00) >> 8) as u8
}

/// The `y` field: `(word & 0x00F0) >> 4`.
pub open spec fn field_y(w: u16) -> u8 {
    ((w & 0x00F0) >> 4) as u8
}

/// The `n` field: `word & 0x000F`.
pub open spec fn field_n(w: u16) -> u8 {
    (w & 0x000F) as u8
}

/// The `kk` field: `word & 0x00FF`.
pub open spec fn field_kk(w: u16) -> u8 {
    (w & 0x00FF) as u8
}

/// The `addr` field: `word & 0x0FFF`.
pub open spec fn field_addr(w: u16) -> u16 {
    w & 0x0FFF
}

/// The major opcode family: the top nibble.
pub open spec fn family(w: u16) -> u16 {
    w >> 12
}

/// The operation a word encodes, or `None` for a word that encodes none.
pub open spec fn decode_spec(w: u16) -> Option<Op> {
    let x = field_x(w);
    let y = field_y(w);
    let n = field_n(w);
    let kk = field_kk(w);
    let addr = field_addr(w);
    let f = family(w);
    if w == 0 {
        Some(Op::Nop)
    } else if f == 0 {
        if w == 0x00E0 {
            Some(Op::ClearScreen)
        } else if w == 0x00EE {
            Some(Op::Return)
        } else {
            None
        }
    } else if f == 1 {
        Some(Op::Jump { addr })
    } else if f == 2 {
        Some(Op::Call { addr })
    } else if f == 3 {
        Some(Op::SkipEqImm { x, kk })
    } else if f == 4 {
        Some(Op::SkipNeImm { x, kk })
    } else if f == 5 {
        if n == 0 {
            Some(Op::SkipEqReg { x, y })
        } else {
            None
        }
    } else if f == 6 {
        Some(Op::LoadImm { x, kk })
    } else if f == 7 {
        Some(Op::AddImm { x, kk })
    } else if f == 8 {
        if n == 0x0 {
            Some(Op::LoadReg { x, y })
        } else if n == 0x1 {
            Some(Op::Or { x, y })
        } else if n == 0x2 {
            Some(Op::And { x, y })
        } else if n == 0x3 {
            Some(Op::Xor { x, y })
        } else if n == 0x4 {
            Some(Op::AddReg { x, y })
        } else if n == 0x5 {
            Some(Op::SubReg { x, y })
        } else if n == 0x6 {
            Some(Op::ShiftRight { x, y })
        } else if n == 0x7 {
            Some(Op::SubNeg { x, y })
        } else if n == 0xE {
            Some(Op::ShiftLeft { x, y })
        } else {
            None
        }
    } else if f == 9 {
        if n == 0 {
            Some(Op::SkipNeReg { x, y })
        } else {
            None
        }
    } else if f == 0xA {
        Some(Op::LoadIndex { addr })
    } else if f == 0xB {
        Some(Op::JumpPlusV0 { addr })
    } else if f == 0xC {
        Some(Op::Random { x, kk })
    } else if f == 0xD {
        Some(Op::Draw { x, y, n })
    } else if f == 0xE {
        if kk == 0x9E {
            Some(Op::SkipKey { x })
        } else if kk == 0xA1 {
            Some(Op::SkipNotKey { x })
        } else {
            None
        }
    } else {
        if kk == 0x07 {
            Some(Op::LoadDelay { x })
        } else if kk == 0x0A {
            Some(Op::WaitKey { x })
        } else if kk == 0x15 {
            Some(Op::SetDelay { x })
        } else if kk == 0x18 {
            Some(Op::SetSound { x })
        } else if kk == 0x1E {
            Some(Op::AddIndex { x })
        } else if kk == 0x29 {
            Some(Op::FontAddr { x })
        } else if kk == 0x33 {
            Some(Op::Bcd { x })
        } else if kk == 0x55 {
            Some(Op::StoreRegs { x })
        } else if kk == 0x65 {
            Some(Op::LoadRegs { x })
        } else {
            None
        }
    }
}

impl Op {
    /// Register numbers are below 16, heights below 16, addresses 12-bit.
    pub open spec fn operands_in_range(self) -> bool {
        match self {
            Op::Jump { addr } | Op::Call { addr } | Op::LoadIndex { addr } | Op::JumpPlusV0 {
                addr,
            } => addr < 0x1000,
            Op::SkipEqImm { x, .. } | Op::SkipNeImm { x, .. } | Op::LoadImm { x, .. }
            | Op::AddImm { x, .. } | Op::Random { x, .. } => x < 16,
            Op::SkipEqReg { x, y } | Op::LoadReg { x, y } | Op::Or { x, y } | Op::And { x, y }
            | Op::Xor { x, y } | Op::AddReg { x, y } | Op::SubReg { x, y } | Op::ShiftRight {
                x,
                y,
            } | Op::SubNeg { x, y } | Op::ShiftLeft { x, y } | Op::SkipNeReg { x, y } => x < 16
                && y < 16,
            Op::Draw { x, y, n } => x < 16 && y < 16 && n < 16,
            Op::SkipKey { x } | Op::SkipNotKey { x } | Op::LoadDelay { x } | Op::WaitKey { x }
            | Op::SetDelay { x } | Op::SetSound { x } | Op::AddIndex { x } | Op::FontAddr { x }
            | Op::Bcd { x } | Op::StoreRegs { x } | Op::LoadRegs { x } => x < 16,
            Op::Nop | Op::ClearScreen | Op::Return => true,
        }
    }
}

proof fn lemma_fields_in_range(w: u16)
    by (bit_vector)
    ensures
        (w & 0x0F00) >> 8 < 16,
        (w & 0x00F0) >> 4 < 16,
        w & 0x000F < 16,
        w & 0x00FF < 256,
        w & 0x0FFF < 0x1000,
        w >> 12 < 16,
{
}

/// Every operation that a word decodes to has its operands in range.
pub proof fn lemma_decoded_operands_in_range(w: u16)
    ensures
        decode_spec(w) matches Some(op) ==> op.operands_in_range(),
{
    lemma_fields_in_range(w);
}

/// Decodes an instruction word.
pub fn decode(w: u16) -> (r: Option<Op>)
    ensures
        r == decode_spec(w),
{
    proof {
        lemma_fields_in_range(w);
    }
    let x = ((w & 0x0F00) >> 8) as u8;
    let y = ((w & 0x00F0) >> 4) as u8;
    let n = (w & 0x000F) as u8;
    let kk = (w & 0x00FF) as u8;
    let addr = w & 0x0FFF;
    let f = w >> 12;
    if w == 0 {
        Some(Op::Nop)
    } else if f == 0 {
        if w == 0x00E0 {
            Some(Op::ClearScreen)
        } else if w == 0x00EE {
            Some(Op::Return)
        } else {
            None
        }
    } else if f == 1 {
        Some(Op::Jump { addr })
    } else if f == 2 {
        Some(Op::Call { addr })
    } else if f == 3 {
        Some(Op::SkipEqImm { x, kk })
    } else if f == 4 {
        Some(Op::SkipNeImm { x, kk })
    } else if f == 5 {
        if n == 0 {
            Some(Op::SkipEqReg { x, y })
        } else {
            None
        }
    } else if f == 6 {
        Some(Op::LoadImm { x, kk })
    } else if f == 7 {
        Some(Op::AddImm { x, kk })
    } else if f == 8 {
        match n {
            0x0 => Some(Op::LoadReg { x, y }),
            0x1 => Some(Op::Or { x, y }),
            0x2 => Some(Op::And { x, y }),
            0x3 => Some(Op::Xor { x, y }),
            0x4 => Some(Op::AddReg { x, y }),
            0x5 => Some(Op::SubReg { x, y }),
            0x6 => Some(Op::ShiftRight { x, y }),
            0x7 => Some(Op::SubNeg { x, y }),
            0xE => Some(Op::ShiftLeft { x, y }),
            _ => None,
        }
    } else if f == 9 {
        if n == 0 {
            Some(Op::SkipNeReg { x, y })
        } else {
            None
        }
    } else if f == 0xA {
        Some(Op::LoadIndex { addr })
    } else if f == 0xB {
        Some(Op::JumpPlusV0 { addr })
    } else if f == 0xC {
        Some(Op::Random { x, kk })
    } else if f == 0xD {
        Some(Op::Draw { x, y, n })
    } else if f == 0xE {
        match kk {
            0x9E => Some(Op::SkipKey { x }),
            0xA1 => Some(Op::SkipNotKey { x }),
            _ => None,
        }
    } else {
        match kk {
            0x07 => Some(Op::LoadDelay { x }),
            0x0A => Some(Op::WaitKey { x }),
            0x15 => Some(Op::SetDelay { x }),
            0x18 => Some(Op::SetSound { x }),
            0x1E => Some(Op::AddIndex { x }),
            0x29 => Some(Op::FontAddr { x }),
            0x33 => Some(Op::Bcd { x }),
            0x55 => Some(Op::StoreRegs { x }),
            0x65 => Some(Op::LoadRegs { x }),
            _ => None,
        }
    }
}

} // verus!
