//! Instruction decoding: a pure map from a 16-bit instruction word to an
//! operation tag with its operand fields.
use vstd::prelude::*;

verus! {

/// Register index in bits 8..12 of an instruction word.
pub open spec fn x_of(w: u16) -> u8 {
    ((w & 0x0F00u16) >> 8u16) as u8
}

/// Register index in bits 4..8 of an instruction word.
pub open spec fn y_of(w: u16) -> u8 {
    ((w & 0x00F0u16) >> 4u16) as u8
}

/// The lowest nibble of an instruction word.
pub open spec fn n_of(w: u16) -> u8 {
    (w & 0x000Fu16) as u8
}

/// The low byte of an instruction word.
pub open spec fn nn_of(w: u16) -> u8 {
    (w & 0x00FFu16) as u8
}

/// The 12-bit address of an instruction word.
pub open spec fn nnn_of(w: u16) -> u16 {
    w & 0x0FFFu16
}

/// The primary selector: the top nibble.
pub open spec fn family_of(w: u16) -> u16 {
    w >> 12u16
}

/// The register and nibble fields are below 16.
pub proof fn lemma_fields_bounded(w: u16)
    ensures
        x_of(w) < 16,
        y_of(w) < 16,
        n_of(w) < 16,
{
    assert(((w & 0x0F00u16) >> 8u16) < 16u16) by (bit_vector);
    assert(((w & 0x00F0u16) >> 4u16) < 16u16) by (bit_vector);
    assert((w & 0x000Fu16) < 16u16) by (bit_vector);
}

pub fn field_x(w: u16) -> (r: u8)
    ensures
        r == x_of(w),
        r < 16,
{
    proof {
        assert(((w & 0x0F00u16) >> 8u16) < 16u16) by (bit_vector);
    }
    ((w & 0x0F00) >> 8) as u8
}

pub fn field_y(w: u16) -> (r: u8)
    ensures
        r == y_of(w),
        r < 16,
{
    proof {
        assert(((w & 0x00F0u16) >> 4u16) < 16u16) by (bit_vector);
    }
    ((w & 0x00F0) >> 4) as u8
}

pub fn field_n(w: u16) -> (r: u8)
    ensures
        r == n_of(w),
        r < 16,
{
    proof {
        assert((w & 0x000Fu16) < 16u16) by (bit_vector);
    }
    (w & 0x000F) as u8
}

pub fn field_nn(w: u16) -> (r: u8)
    ensures
        r == nn_of(w),
{
    (w & 0x00FF) as u8
}

pub fn field_nnn(w: u16) -> (r: u16)
    ensures
        r == nnn_of(w),
        r <= 0x0FFF,
{
    proof {
        assert((w & 0x0FFFu16) <= 0x0FFFu16) by (bit_vector);
    }
    w & 0x0FFF
}

/// One operation of the instruction set, with the operand fields it uses.
#[derive(PartialEq, Eq, Structural, Clone, Copy, Debug)]
pub enum Op {
    /// 00E0: clear the display.
    Cls,
    /// 00EE: return from a subroutine.
    Ret,
    /// 0nnn: a machine-code routine call, which this interpreter ignores.
    Sys { addr: u16 },
    /// 1nnn: jump to `addr`.
    Jp { addr: u16 },
    /// 2nnn: call the subroutine at `addr`.
    Call { addr: u16 },
    /// 3xnn: skip if `Vx == nn`.
    SeByte { x: u8, nn: u8 },
    /// 4xnn: skip if `Vx != nn`.
    SneByte { x: u8, nn: u8 },
    /// 5xy_: skip if `Vx == Vy`.
    SeReg { x: u8, y: u8 },
    /// 6xnn: `Vx := nn`.
    LdByte { x: u8, nn: u8 },
    /// 7xnn: `Vx := Vx + nn`, wrapping, no flag.
    AddByte { x: u8, nn: u8 },
    /// 8xy0: `Vx := Vy`.
    LdReg { x: u8, y: u8 },
    /// 8xy1: `Vx := Vx | Vy`.
    Or { x: u8, y: u8 },
    /// 8xy2: `Vx := Vx & Vy`.
    And { x: u8, y: u8 },
    /// 8xy3: `Vx := Vx ^ Vy`.
    Xor { x: u8, y: u8 },
    /// 8xy4: add with carry into VF.
    AddReg { x: u8, y: u8 },
    /// 8xy5: subtract with not-borrow into VF.
    Sub { x: u8, y: u8 },
    /// 8xy6: shift right, the bit shifted out into VF.
    Shr { x: u8, y: u8 },
    /// 8xy7: reversed subtract with not-borrow into VF.
    Subn { x: u8, y: u8 },
    /// 8xyE: shift left, the bit shifted out into VF.
    Shl { x: u8, y: u8 },
    /// 9xy_: skip if `Vx != Vy`.
    SneReg { x: u8, y: u8 },
    /// Annn: `I := addr`.
    LdI { addr: u16 },
    /// Bnnn: jump to `addr + V0`.
    JpV0 { addr: u16 },
    /// Cxnn: `Vx := random & nn`.
    Rnd { x: u8, nn: u8 },
    /// Dxyn: draw an `n`-row sprite at `(Vx, Vy)`.
    Drw { x: u8, y: u8, n: u8 },
    /// Ex9E: skip if key `Vx` is pressed.
    Skp { x: u8 },
    /// ExA1: skip if key `Vx` is not pressed.
    Sknp { x: u8 },
    /// Fx07: `Vx := delay timer`.
    LdVxDt { x: u8 },
    /// Fx0A: wait for a key press, then store its index in `Vx`.
    LdVxK { x: u8 },
    /// Fx15: `delay timer := Vx`.
    LdDtVx { x: u8 },
    /// Fx18: `sound timer := Vx`.
    LdStVx { x: u8 },
    /// Fx1E: `I := I + Vx`, modulo 0x1000.
    AddI { x: u8 },
    /// Fx29: `I :=` address of the font glyph for digit `Vx`.
    LdF { x: u8 },
    /// Fx33: store the decimal digits of `Vx` at `I`, `I+1`, `I+2`.
    LdB { x: u8 },
    /// Fx55: store `V0..=Vx` at `I`.
    StoreRegs { x: u8 },
    /// Fx65: load `V0..=Vx` from `I`.
    LoadRegs { x: u8 },
    /// A word that names no operation.
    Unknown { word: u16 },
}

/// What a word decodes to.
pub open spec fn decode_spec(w: u16) -> Op {
    let x = x_of(w);
    let y = y_of(w);
    let nn = nn_of(w);
    let addr = nnn_of(w);
    let f = family_of(w);
    if f == 0 {
        if w == 0x00E0 {
            Op::Cls
        } else if w == 0x00EE {
            Op::Ret
        } else {
            Op::Sys { addr }
        }
    } else if f == 1 {
        Op::Jp { addr }
    } else if f == 2 {
        Op::Call { addr }
    } else if f == 3 {
        Op::SeByte { x, nn }
    } else if f == 4 {
        Op::SneByte { x, nn }
    } else if f == 5 {
        Op::SeReg { x, y }
    } else if f == 6 {
        Op::LdByte { x, nn }
    } else if f == 7 {
        Op::AddByte { x, nn }
    } else if f == 8 {
        let k = n_of(w);
        if k == 0x0 {
            Op::LdReg { x, y }
        } else if k == 0x1 {
            Op::Or { x, y }
        } else if k == 0x2 {
            Op::And { x, y }
        } else if k == 0x3 {
            Op::Xor { x, y }
        } else if k == 0x4 {
            Op::AddReg { x, y }
        } else if k == 0x5 {
            Op::Sub { x, y }
        } else if k == 0x6 {
            Op::Shr { x, y }
        } else if k == 0x7 {
            Op::Subn { x, y }
        } else if k == 0xE {
            Op::Shl { x, y }
        } else {
            Op::Unknown { word: w }
        }
    } else if f == 9 {
        Op::SneReg { x, y }
    } else if f == 0xA {
        Op::LdI { addr }
    } else if f == 0xB {
        Op::JpV0 { addr }
    } else if f == 0xC {
        Op::Rnd { x, nn }
    } else if f == 0xD {
        Op::Drw { x, y, n: n_of(w) }
    } else if f == 0xE {
        if nn == 0x9E {
            Op::Skp { x }
        } else if nn == 0xA1 {
            Op::Sknp { x }
        } else {
            Op::Unknown { word: w }
        }
    } else {
        if nn == 0x07 {
            Op::LdVxDt { x }
        } else if nn == 0x0A {
            Op::LdVxK { x }
        } else if nn == 0x15 {
            Op::LdDtVx { x }
        } else if nn == 0x18 {
            Op::LdStVx { x }
        } else if nn == 0x1E {
            Op::AddI { x }
        } else if nn == 0x29 {
            Op::LdF { x }
        } else if nn == 0x33 {
            Op::LdB { x }
        } else if nn == 0x55 {
            Op::StoreRegs { x }
        } else if nn == 0x65 {
            Op::LoadRegs { x }
        } else {
            Op::Unknown { word: w }
        }
    }
}

/// Decodes an instruction word. Total: a word that names no operation
/// decodes to `Op::Unknown`.
pub fn decode(w: u16) -> (op: Op)
    ensures
        op == decode_spec(w),
{
    let x = field_x(w);
    let y = field_y(w);
    let nn = field_nn(w);
    let addr = field_nnn(w);
    let f = w >> 12;
    if f == 0 {
        if w == 0x00E0 {
            Op::Cls
        } else if w == 0x00EE {
            Op::Ret
        } else {
            Op::Sys { addr }
        }
    } else if f == 1 {
        Op::Jp { addr }
    } else if f == 2 {
        Op::Call { addr }
    } else if f == 3 {
        Op::SeByte { x, nn }
    } else if f == 4 {
        Op::SneByte { x, nn }
    } else if f == 5 {
        Op::SeReg { x, y }
    } else if f == 6 {
        Op::LdByte { x, nn }
    } else if f == 7 {
        Op::AddByte { x, nn }
    } else if f == 8 {
        let k = field_n(w);
        if k == 0x0 {
            Op::LdReg { x, y }
        } else if k == 0x1 {
            Op::Or { x, y }
        } else if k == 0x2 {
            Op::And { x, y }
        } else if k == 0x3 {
            Op::Xor { x, y }
        } else if k == 0x4 {
            Op::AddReg { x, y }
        } else if k == 0x5 {
            Op::Sub { x, y }
        } else if k == 0x6 {
            Op::Shr { x, y }
        } else if k == 0x7 {
            Op::Subn { x, y }
        } else if k == 0xE {
            Op::Shl { x, y }
        } else {
            Op::Unknown { word: w }
        }
    } else if f == 9 {
        Op::SneReg { x, y }
    } else if f == 0xA {
        Op::LdI { addr }
    } else if f == 0xB {
        Op::JpV0 { addr }
    } else if f == 0xC {
        Op::Rnd { x, nn }
    } else if f == 0xD {
        Op::Drw { x, y, n: field_n(w) }
    } else if f == 0xE {
        if nn == 0x9E {
            Op::Skp { x }
        } else if nn == 0xA1 {
            Op::Sknp { x }
        } else {
            Op::Unknown { word: w }
        }
    } else {
        if nn == 0x07 {
            Op::LdVxDt { x }
        } else if nn == 0x0A {
            Op::LdVxK { x }
        } else if nn == 0x15 {
            Op::LdDtVx { x }
        } else if nn == 0x18 {
            Op::LdStVx { x }
        } else if nn == 0x1E {
            Op::AddI { x }
        } else if nn == 0x29 {
            Op::LdF { x }
        } else if nn == 0x33 {
            Op::LdB { x }
        } else if nn == 0x55 {
            Op::StoreRegs { x }
        } else if nn == 0x65 {
            Op::LoadRegs { x }
        } else {
            Op::Unknown { word: w }
        }
    }
}

} // verus!
