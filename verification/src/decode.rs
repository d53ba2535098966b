//! Decoding of 16-bit CHIP-8 opcodes into explicit instruction values.
//!
//! An opcode is a big-endian 16-bit word.  Decoding splits it into four
//! nibbles and derived fields (`nnn`, `kk`, `x`, `y`, `n`) and maps the
//! nibble pattern to exactly one [`Instruction`] variant; any pattern
//! outside the table is a decode failure and yields `None`.

use vstd::prelude::*;

verus! {

/// A decoded CHIP-8 instruction.
///
/// Register indices (`x`, `y`) are 4-bit values in `0..16`, addresses are
/// 12-bit values in `0..4096`, immediates are full bytes and sprite heights
/// are 4-bit values; [`instr_wf`] states these bounds.
#[derive(Clone, Copy, Debug, PartialEq, Eq, Structural)]
pub enum Instruction {
    /// `00E0`: clear the display.
    Cls,
    /// `00EE`: return from a subroutine.
    Ret,
    /// `0nnn`: machine-code routine; modern interpreters treat it as a jump.
    Sys(u16),
    /// `1nnn`: jump to `nnn`.
    Jp(u16),
    /// `2nnn`: call the subroutine at `nnn`.
    Call(u16),
    /// `3xkk`: skip the next instruction if `Vx == kk`.
    SeVxKk(u8, u8),
    /// `4xkk`: skip the next instruction if `Vx != kk`.
    SneVxKk(u8, u8),
    /// `5xy0`: skip the next instruction if `Vx == Vy`.
    SeVxVy(u8, u8),
    /// `6xkk`: `Vx <- kk`.
    LdVxKk(u8, u8),
    /// `7xkk`: `Vx <- Vx + kk` (wrapping, no flag).
    AddVxKk(u8, u8),
    /// `8xy0`: `Vx <- Vy`.
    LdVxVy(u8, u8),
    /// `8xy1`: `Vx <- Vx | Vy`.
    OrVxVy(u8, u8),
    /// `8xy2`: `Vx <- Vx & Vy`.
    AndVxVy(u8, u8),
    /// `8xy3`: `Vx <- Vx ^ Vy`.
    XorVxVy(u8, u8),
    /// `8xy4`: `Vx <- Vx + Vy`, `VF` = carry.
    AddVxVy(u8, u8),
    /// `8xy5`: `Vx <- Vx - Vy`, `VF` = no-borrow.
    SubVxVy(u8, u8),
    /// `8xy6`: `Vx <- Vx >> 1`, `VF` = the bit shifted out.
    ShrVx(u8),
    /// `8xy7`: `Vx <- Vy - Vx`, `VF` = no-borrow.
    SubnVxVy(u8, u8),
    /// `8xyE`: `Vx <- Vx << 1`, `VF` = the bit shifted out.
    ShlVx(u8),
    /// `9xy0`: skip the next instruction if `Vx != Vy`.
    SneVxVy(u8, u8),
    /// `Annn`: `I <- nnn`.
    LdIAddr(u16),
    /// `Bnnn`: jump to `nnn + V0`.
    JpV0Addr(u16),
    /// `Cxkk`: `Vx <- random byte & kk`.
    RndVxKk(u8, u8),
    /// `Dxyn`: draw the `n`-row sprite at `I` at position `(Vx, Vy)`.
    DrwVxVyN(u8, u8, u8),
    /// `Ex9E`: skip the next instruction if the key `Vx` is pressed.
    SkpVx(u8),
    /// `ExA1`: skip the next instruction if the key `Vx` is not pressed.
    SknpVx(u8),
    /// `Fx07`: `Vx <- DT`.
    LdVxDt(u8),
    /// `Fx0A`: wait for a key press and store its index in `Vx`.
    LdVxK(u8),
    /// `Fx15`: `DT <- Vx`.
    LdDtVx(u8),
    /// `Fx18`: `ST <- Vx`.
    LdStVx(u8),
    /// `Fx1E`: `I <- I + Vx`.
    AddIVx(u8),
    /// `Fx29`: `I <-` address of the font glyph for the low nibble of `Vx`.
    LdFVx(u8),
    /// `Fx33`: store the BCD digits of `Vx` at `I`, `I+1`, `I+2`.
    LdBVx(u8),
    /// `Fx55`: copy `V0..=Vx` into memory at `I..`.
    LdIVx(u8),
    /// `Fx65`: copy memory at `I..` into `V0..=Vx`.
    LdVxI(u8),
}

/// The low 12 bits of an opcode: an address.
pub open spec fn op_addr(op: u16) -> u16 {
    op % 0x1000
}

/// The second nibble of an opcode: the first register index.
pub open spec fn op_x(op: u16) -> u8 {
    ((op / 0x100) % 16) as u8
}

/// The third nibble of an opcode: the second register index.
pub open spec fn op_y(op: u16) -> u8 {
    ((op / 16) % 16) as u8
}

/// The last nibble of an opcode: a sprite height.
pub open spec fn op_n(op: u16) -> u8 {
    (op % 16) as u8
}

/// The low byte of an opcode: an immediate.
pub open spec fn op_kk(op: u16) -> u8 {
    (op % 0x100) as u8
}

/// The decode table: which instruction, if any, an opcode denotes.
///
/// Dispatch is on the leading nibble, disambiguated by the trailing nibble
/// for the `0x5`/`0x8`/`0x9` families and by the low byte for the
/// `0xE`/`0xF` families.  `None` is a decode failure.
pub open spec fn spec_decode(op: u16) -> Option<Instruction> {
    let n1 = op / 0x1000;
    let nnn = op_addr(op);
    let x = op_x(op);
    let y = op_y(op);
    let n = op_n(op);
    let kk = op_kk(op);
    if op == 0x00E0 {
        Some(Instruction::Cls)
    } else if op == 0x00EE {
        Some(Instruction::Ret)
    } else if n1 == 0x0 {
        Some(Instruction::Sys(nnn))
    } else if n1 == 0x1 {
        Some(Instruction::Jp(nnn))
    } else if n1 == 0x2 {
        Some(Instruction::Call(nnn))
    } else if n1 == 0x3 {
        Some(Instruction::SeVxKk(x, kk))
    } else if n1 == 0x4 {
        Some(Instruction::SneVxKk(x, kk))
    } else if n1 == 0x5 && n == 0x0 {
        Some(Instruction::SeVxVy(x, y))
    } else if n1 == 0x6 {
        Some(Instruction::LdVxKk(x, kk))
    } else if n1 == 0x7 {
        Some(Instruction::AddVxKk(x, kk))
    } else if n1 == 0x8 && n == 0x0 {
        Some(Instruction::LdVxVy(x, y))
    } else if n1 == 0x8 && n == 0x1 {
        Some(Instruction::OrVxVy(x, y))
    } else if n1 == 0x8 && n == 0x2 {
        Some(Instruction::AndVxVy(x, y))
    } else if n1 == 0x8 && n == 0x3 {
        Some(Instruction::XorVxVy(x, y))
    } else if n1 == 0x8 && n == 0x4 {
        Some(Instruction::AddVxVy(x, y))
    } else if n1 == 0x8 && n == 0x5 {
        Some(Instruction::SubVxVy(x, y))
    } else if n1 == 0x8 && n == 0x6 {
        Some(Instruction::ShrVx(x))
    } else if n1 == 0x8 && n == 0x7 {
        Some(Instruction::SubnVxVy(x, y))
    } else if n1 == 0x8 && n == 0xE {
        Some(Instruction::ShlVx(x))
    } else if n1 == 0x9 && n == 0x0 {
        Some(Instruction::SneVxVy(x, y))
    } else if n1 == 0xA {
        Some(Instruction::LdIAddr(nnn))
    } else if n1 == 0xB {
        Some(Instruction::JpV0Addr(nnn))
    } else if n1 == 0xC {
        Some(Instruction::RndVxKk(x, kk))
    } else if n1 == 0xD {
        Some(Instruction::DrwVxVyN(x, y, n))
    } else if n1 == 0xE && kk == 0x9E {
        Some(Instruction::SkpVx(x))
    } else if n1 == 0xE && kk == 0xA1 {
        Some(Instruction::SknpVx(x))
    } else if n1 == 0xF && kk == 0x07 {
        Some(Instruction::LdVxDt(x))
    } else if n1 == 0xF && kk == 0x0A {
        Some(Instruction::LdVxK(x))
    } else if n1 == 0xF && kk == 0x15 {
        Some(Instruction::LdDtVx(x))
    } else if n1 == 0xF && kk == 0x18 {
        Some(Instruction::LdStVx(x))
    } else if n1 == 0xF && kk == 0x1E {
        Some(Instruction::AddIVx(x))
    } else if n1 == 0xF && kk == 0x29 {
        Some(Instruction::LdFVx(x))
    } else if n1 == 0xF && kk == 0x33 {
        Some(Instruction::LdBVx(x))
    } else if n1 == 0xF && kk == 0x55 {
        Some(Instruction::LdIVx(x))
    } else if n1 == 0xF && kk == 0x65 {
        Some(Instruction::LdVxI(x))
    } else {
        None
    }
}

/// Bounds that every decoded instruction satisfies: register indices are
/// below 16, addresses below 4096 and sprite heights below 16.
pub open spec fn instr_wf(instr: Instruction) -> bool {
    match instr {
        Instruction::Cls => true,
        Instruction::Ret => true,
        Instruction::Sys(nnn) => nnn < 4096,
        Instruction::Jp(nnn) => nnn < 4096,
        Instruction::Call(nnn) => nnn < 4096,
        Instruction::SeVxKk(x, _kk) => x < 16,
        Instruction::SneVxKk(x, _kk) => x < 16,
        Instruction::SeVxVy(x, y) => x < 16 && y < 16,
        Instruction::LdVxKk(x, _kk) => x < 16,
        Instruction::AddVxKk(x, _kk) => x < 16,
        Instruction::LdVxVy(x, y) => x < 16 && y < 16,
        Instruction::OrVxVy(x, y) => x < 16 && y < 16,
        Instruction::AndVxVy(x, y) => x < 16 && y < 16,
        Instruction::XorVxVy(x, y) => x < 16 && y < 16,
        Instruction::AddVxVy(x, y) => x < 16 && y < 16,
        Instruction::SubVxVy(x, y) => x < 16 && y < 16,
        Instruction::ShrVx(x) => x < 16,
        Instruction::SubnVxVy(x, y) => x < 16 && y < 16,
        Instruction::ShlVx(x) => x < 16,
        Instruction::SneVxVy(x, y) => x < 16 && y < 16,
        Instruction::LdIAddr(nnn) => nnn < 4096,
        Instruction::JpV0Addr(nnn) => nnn < 4096,
        Instruction::RndVxKk(x, _kk) => x < 16,
        Instruction::DrwVxVyN(x, y, n) => x < 16 && y < 16 && n < 16,
        Instruction::SkpVx(x) => x < 16,
        Instruction::SknpVx(x) => x < 16,
        Instruction::LdVxDt(x) => x < 16,
        Instruction::LdVxK(x) => x < 16,
        Instruction::LdDtVx(x) => x < 16,
        Instruction::LdStVx(x) => x < 16,
        Instruction::AddIVx(x) => x < 16,
        Instruction::LdFVx(x) => x < 16,
        Instruction::LdBVx(x) => x < 16,
        Instruction::LdIVx(x) => x < 16,
        Instruction::LdVxI(x) => x < 16,
    }
}

/// Every instruction the decode table yields satisfies [`instr_wf`].
pub proof fn lemma_decode_wf(op: u16)
    ensures
        (spec_decode(op) matches Some(instr) ==> instr_wf(instr)),
{
}

/// Decode one opcode, or report a decode failure as `None`.
pub fn decode_opcode(op: u16) -> (r: Option<Instruction>)
    ensures
        r == spec_decode(op),
{
    let n1 = op / 0x1000;
    let nnn = op % 0x1000;
    let x = ((op / 0x100) % 16) as u8;
    let y = ((op / 16) % 16) as u8;
    let n = (op % 16) as u8;
    let kk = (op % 0x100) as u8;
    if op == 0x00E0 {
        Some(Instruction::Cls)
    } else if op == 0x00EE {
        Some(Instruction::Ret)
    } else if n1 == 0x0 {
        Some(Instruction::Sys(nnn))
    } else if n1 == 0x1 {
        Some(Instruction::Jp(nnn))
    } else if n1 == 0x2 {
        Some(Instruction::Call(nnn))
    } else if n1 == 0x3 {
        Some(Instruction::SeVxKk(x, kk))
    } else if n1 == 0x4 {
        Some(Instruction::SneVxKk(x, kk))
    } else if n1 == 0x5 && n == 0x0 {
        Some(Instruction::SeVxVy(x, y))
    } else if n1 == 0x6 {
        Some(Instruction::LdVxKk(x, kk))
    } else if n1 == 0x7 {
        Some(Instruction::AddVxKk(x, kk))
    } else if n1 == 0x8 && n == 0x0 {
        Some(Instruction::LdVxVy(x, y))
    } else if n1 == 0x8 && n == 0x1 {
        Some(Instruction::OrVxVy(x, y))
    } else if n1 == 0x8 && n == 0x2 {
        Some(Instruction::AndVxVy(x, y))
    } else if n1 == 0x8 && n == 0x3 {
        Some(Instruction::XorVxVy(x, y))
    } else if n1 == 0x8 && n == 0x4 {
        Some(Instruction::AddVxVy(x, y))
    } else if n1 == 0x8 && n == 0x5 {
        Some(Instruction::SubVxVy(x, y))
    } else if n1 == 0x8 && n == 0x6 {
        Some(Instruction::ShrVx(x))
    } else if n1 == 0x8 && n == 0x7 {
        Some(Instruction::SubnVxVy(x, y))
    } else if n1 == 0x8 && n == 0xE {
        Some(Instruction::ShlVx(x))
    } else if n1 == 0x9 && n == 0x0 {
        Some(Instruction::SneVxVy(x, y))
    } else if n1 == 0xA {
        Some(Instruction::LdIAddr(nnn))
    } else if n1 == 0xB {
        Some(Instruction::JpV0Addr(nnn))
    } else if n1 == 0xC {
        Some(Instruction::RndVxKk(x, kk))
    } else if n1 == 0xD {
        Some(Instruction::DrwVxVyN(x, y, n))
    } else if n1 == 0xE && kk == 0x9E {
        Some(Instruction::SkpVx(x))
    } else if n1 == 0xE && kk == 0xA1 {
        Some(Instruction::SknpVx(x))
    } else if n1 == 0xF && kk == 0x07 {
        Some(Instruction::LdVxDt(x))
    } else if n1 == 0xF && kk == 0x0A {
        Some(Instruction::LdVxK(x))
    } else if n1 == 0xF && kk == 0x15 {
        Some(Instruction::LdDtVx(x))
    } else if n1 == 0xF && kk == 0x18 {
        Some(Instruction::LdStVx(x))
    } else if n1 == 0xF && kk == 0x1E {
        Some(Instruction::AddIVx(x))
    } else if n1 == 0xF && kk == 0x29 {
        Some(Instruction::LdFVx(x))
    } else if n1 == 0xF && kk == 0x33 {
        Some(Instruction::LdBVx(x))
    } else if n1 == 0xF && kk == 0x55 {
        Some(Instruction::LdIVx(x))
    } else if n1 == 0xF && kk == 0x65 {
        Some(Instruction::LdVxI(x))
    } else {
        None
    }
}

} // verus!
