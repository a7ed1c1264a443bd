use vstd::prelude::*;

verus! {

/// One decoded CHIP-8 instruction with its operands. Register operands are
/// register indices, addresses are 12-bit.
#[derive(Clone, Copy, Debug, PartialEq, Eq, Structural)]
pub enum Opcode {
    /// 00E0
    ClearScreen,
    /// 00EE
    Return,
    /// 1nnn
    Jump(u16),
    /// 2nnn
    Call(u16),
    /// 3xkk
    Skip(u8, u8),
    /// 4xkk
    SkipNotEqual(u8, u8),
    /// 5xy0
    SkipRegEqual(u8, u8),
    /// 6xkk
    SetReg(u8, u8),
    /// 7xkk
    IncrementReg(u8, u8),
    /// 8xy0
    CopyReg(u8, u8),
    /// 8xy1
    BitwiseOr(u8, u8),
    /// 8xy2
    BitwiseAnd(u8, u8),
    /// 8xy3
    BitwiseXor(u8, u8),
    /// 8xy4
    AddReg(u8, u8),
    /// 8xy5
    SubtractReg(u8, u8),
    /// 8xy6
    BitwiseRight(u8, u8),
    /// 8xy7
    NegativeSubtractReg(u8, u8),
    /// 8xyE
    BitwiseLeft(u8, u8),
    /// 9xy0
    SkipRegNotEqual(u8, u8),
    /// Annn
    SetI(u16),
    /// Bnnn
    JumpOffset(u16),
    /// Cxkk
    RandomAnd(u8, u8),
    /// Dxyn
    Draw(u8, u8, u8),
    /// Ex9E
    SkipKeyPressed(u8),
    /// ExA1
    SkipKeyNotPressed(u8),
    /// Fx07
    CopyDelayToReg(u8),
    /// Fx0A
    WaitForKeyPress(u8),
    /// Fx15
    SetDelayFromReg(u8),
    /// Fx18
    SetSoundFromReg(u8),
    /// Fx1E
    AddI(u8),
    /// Fx29
    SetIToFontDigit(u8),
    /// Fx33
    BinaryCodeI(u8),
    /// Fx55
    CopyRegistersToI(u8),
    /// Fx65
    CopyIToRegisters(u8),
}

/// An instruction word that is no CHIP-8 instruction.
#[derive(Clone, Copy, Debug, PartialEq, Eq, Structural)]
pub struct DecodeError {
    pub word: u16,
}

/// Bits 8 to 11: the first register operand.
pub open spec fn reg_x(w: u16) -> u8 {
    ((w / 0x100) % 16) as u8
}

/// Bits 4 to 7: the second register operand.
pub open spec fn reg_y(w: u16) -> u8 {
    ((w / 0x10) % 16) as u8
}

/// Bits 0 to 7: an immediate byte.
pub open spec fn imm(w: u16) -> u8 {
    (w % 0x100) as u8
}

/// Bits 0 to 11: an address.
pub open spec fn addr(w: u16) -> u16 {
    w % 0x1000
}

/// Bits 0 to 3: a nibble.
pub open spec fn low(w: u16) -> u8 {
    (w % 0x10) as u8
}

/// Bits 12 to 15: the instruction family.
pub open spec fn family(w: u16) -> u16 {
    w / 0x1000
}

/// The instruction that a word encodes, if any.
pub open spec fn decoded(w: u16) -> Option<Opcode> {
    let (x, y, kk, nnn, n, f) = (reg_x(w), reg_y(w), imm(w), addr(w), low(w), family(w));
    if w == 0x00e0 {
        Some(Opcode::ClearScreen)
    } else if w == 0x00ee {
        Some(Opcode::Return)
    } else if f == 1 {
        Some(Opcode::Jump(nnn))
    } else if f == 2 {
        Some(Opcode::Call(nnn))
    } else if f == 3 {
        Some(Opcode::Skip(x, kk))
    } else if f == 4 {
        Some(Opcode::SkipNotEqual(x, kk))
    } else if f == 5 && n == 0 {
        Some(Opcode::SkipRegEqual(x, y))
    } else if f == 6 {
        Some(Opcode::SetReg(x, kk))
    } else if f == 7 {
        Some(Opcode::IncrementReg(x, kk))
    } else if f == 8 {
        alu(n, x, y)
    } else if f == 9 && n == 0 {
        Some(Opcode::SkipRegNotEqual(x, y))
    } else if f == 0xa {
        Some(Opcode::SetI(nnn))
    } else if f == 0xb {
        Some(Opcode::JumpOffset(nnn))
    } else if f == 0xc {
        Some(Opcode::RandomAnd(x, kk))
    } else if f == 0xd {
        Some(Opcode::Draw(x, y, n))
    } else if f == 0xe && kk == 0x9e {
        Some(Opcode::SkipKeyPressed(x))
    } else if f == 0xe && kk == 0xa1 {
        Some(Opcode::SkipKeyNotPressed(x))
    } else if f == 0xf {
        misc(kk, x)
    } else {
        None
    }
}

/// The register-to-register instructions of family 8, by low nibble.
pub open spec fn alu(n: u8, x: u8, y: u8) -> Option<Opcode> {
    if n == 0 {
        Some(Opcode::CopyReg(x, y))
    } else if n == 1 {
        Some(Opcode::BitwiseOr(x, y))
    } else if n == 2 {
        Some(Opcode::BitwiseAnd(x, y))
    } else if n == 3 {
        Some(Opcode::BitwiseXor(x, y))
    } else if n == 4 {
        Some(Opcode::AddReg(x, y))
    } else if n == 5 {
        Some(Opcode::SubtractReg(x, y))
    } else if n == 6 {
        Some(Opcode::BitwiseRight(x, y))
    } else if n == 7 {
        Some(Opcode::NegativeSubtractReg(x, y))
    } else if n == 0xe {
        Some(Opcode::BitwiseLeft(x, y))
    } else {
        None
    }
}

/// The timer, key, index and block-transfer instructions of family F, by
/// low byte.
pub open spec fn misc(kk: u8, x: u8) -> Option<Opcode> {
    if kk == 0x07 {
        Some(Opcode::CopyDelayToReg(x))
    } else if kk == 0x0a {
        Some(Opcode::WaitForKeyPress(x))
    } else if kk == 0x15 {
        Some(Opcode::SetDelayFromReg(x))
    } else if kk == 0x18 {
        Some(Opcode::SetSoundFromReg(x))
    } else if kk == 0x1e {
        Some(Opcode::AddI(x))
    } else if kk == 0x29 {
        Some(Opcode::SetIToFontDigit(x))
    } else if kk == 0x33 {
        Some(Opcode::BinaryCodeI(x))
    } else if kk == 0x55 {
        Some(Opcode::CopyRegistersToI(x))
    } else if kk == 0x65 {
        Some(Opcode::CopyIToRegisters(x))
    } else {
        None
    }
}

/// Whether the operands are in range: registers below 16, addresses below
/// 4096, sprite heights below 16. Every decoded instruction is.
pub open spec fn operands_ok(op: Opcode) -> bool {
    match op {
        Opcode::Jump(a) | Opcode::Call(a) | Opcode::SetI(a) | Opcode::JumpOffset(a) => a < 4096,
        Opcode::Skip(x, _) | Opcode::SkipNotEqual(x, _) | Opcode::SetReg(x, _)
        | Opcode::IncrementReg(x, _) | Opcode::RandomAnd(x, _) => x < 16,
        Opcode::SkipRegEqual(x, y) | Opcode::CopyReg(x, y) | Opcode::BitwiseOr(x, y)
        | Opcode::BitwiseAnd(x, y) | Opcode::BitwiseXor(x, y) | Opcode::AddReg(x, y)
        | Opcode::SubtractReg(x, y) | Opcode::BitwiseRight(x, y)
        | Opcode::NegativeSubtractReg(x, y) | Opcode::BitwiseLeft(x, y)
        | Opcode::SkipRegNotEqual(x, y) => x < 16 && y < 16,
        Opcode::Draw(x, y, n) => x < 16 && y < 16 && n < 16,
        Opcode::SkipKeyPressed(x) | Opcode::SkipKeyNotPressed(x) | Opcode::CopyDelayToReg(x)
        | Opcode::WaitForKeyPress(x) | Opcode::SetDelayFromReg(x) | Opcode::SetSoundFromReg(x)
        | Opcode::AddI(x) | Opcode::SetIToFontDigit(x) | Opcode::BinaryCodeI(x)
        | Opcode::CopyRegistersToI(x) | Opcode::CopyIToRegisters(x) => x < 16,
        Opcode::ClearScreen | Opcode::Return => true,
    }
}

/// In family 8 the low nibble picks the register operation: 0 to 7 and E
/// name one each (copy, or, and, xor, add, subtract, shift right, reverse
/// subtract, shift left), every other nibble is no instruction.
pub proof fn lemma_decode_family_eight(w: u16)
    requires
        family(w) == 8,
    ensures
        decoded(w) == alu(low(w), reg_x(w), reg_y(w)),
        decoded(w) is Some <==> (low(w) <= 7 || low(w) == 0xe),
        low(w) == 0x0 ==> decoded(w) == Some(Opcode::CopyReg(reg_x(w), reg_y(w))),
        low(w) == 0x1 ==> decoded(w) == Some(Opcode::BitwiseOr(reg_x(w), reg_y(w))),
        low(w) == 0x2 ==> decoded(w) == Some(Opcode::BitwiseAnd(reg_x(w), reg_y(w))),
        low(w) == 0x3 ==> decoded(w) == Some(Opcode::BitwiseXor(reg_x(w), reg_y(w))),
        low(w) == 0x4 ==> decoded(w) == Some(Opcode::AddReg(reg_x(w), reg_y(w))),
        low(w) == 0x5 ==> decoded(w) == Some(Opcode::SubtractReg(reg_x(w), reg_y(w))),
        low(w) == 0x6 ==> decoded(w) == Some(Opcode::BitwiseRight(reg_x(w), reg_y(w))),
        low(w) == 0x7 ==> decoded(w) == Some(Opcode::NegativeSubtractReg(reg_x(w), reg_y(w))),
        low(w) == 0xe ==> decoded(w) == Some(Opcode::BitwiseLeft(reg_x(w), reg_y(w))),
{
}

/// A register comparison (families 5 and 9) with a low nibble other than 0
/// is no instruction.
pub proof fn lemma_decode_register_compare(w: u16)
    requires
        family(w) == 5 || family(w) == 9,
        low(w) != 0,
    ensures
        decoded(w) is None,
{
}

fn alu_of(n: u8, x: u8, y: u8) -> (r: Option<Opcode>)
    ensures
        r == alu(n, x, y),
{
    match n {
        0x0 => Some(Opcode::CopyReg(x, y)),
        0x1 => Some(Opcode::BitwiseOr(x, y)),
        0x2 => Some(Opcode::BitwiseAnd(x, y)),
        0x3 => Some(Opcode::BitwiseXor(x, y)),
        0x4 => Some(Opcode::AddReg(x, y)),
        0x5 => Some(Opcode::SubtractReg(x, y)),
        0x6 => Some(Opcode::BitwiseRight(x, y)),
        0x7 => Some(Opcode::NegativeSubtractReg(x, y)),
        0xe => Some(Opcode::BitwiseLeft(x, y)),
        _ => None,
    }
}

fn misc_of(kk: u8, x: u8) -> (r: Option<Opcode>)
    ensures
        r == misc(kk, x),
{
    match kk {
        0x07 => Some(Opcode::CopyDelayToReg(x)),
        0x0a => Some(Opcode::WaitForKeyPress(x)),
        0x15 => Some(Opcode::SetDelayFromReg(x)),
        0x18 => Some(Opcode::SetSoundFromReg(x)),
        0x1e => Some(Opcode::AddI(x)),
        0x29 => Some(Opcode::SetIToFontDigit(x)),
        0x33 => Some(Opcode::BinaryCodeI(x)),
        0x55 => Some(Opcode::CopyRegistersToI(x)),
        0x65 => Some(Opcode::CopyIToRegisters(x)),
        _ => None,
    }
}

/// Decodes one instruction word; a word that encodes no instruction is a
/// `DecodeError` carrying that word.
pub fn decode(instruction: u16) -> (r: Result<Opcode, DecodeError>)
    ensures
        r == (match decoded(instruction) {
            Some(op) => Ok(op),
            None => Err(DecodeError { word: instruction }),
        }),
        r is Ok ==> operands_ok(r->Ok_0),
{
    let w = instruction;
    let x = ((w / 0x100) % 16) as u8;
    let y = ((w / 0x10) % 16) as u8;
    let kk = (w % 0x100) as u8;
    let nnn = w % 0x1000;
    let n = (w % 0x10) as u8;
    let f = w / 0x1000;
    let op = if w == 0x00e0 {
        Some(Opcode::ClearScreen)
    } else if w == 0x00ee {
        Some(Opcode::Return)
    } else if f == 1 {
        Some(Opcode::Jump(nnn))
    } else if f == 2 {
        Some(Opcode::Call(nnn))
    } else if f == 3 {
        Some(Opcode::Skip(x, kk))
    } else if f == 4 {
        Some(Opcode::SkipNotEqual(x, kk))
    } else if f == 5 && n == 0 {
        Some(Opcode::SkipRegEqual(x, y))
    } else if f == 6 {
        Some(Opcode::SetReg(x, kk))
    } else if f == 7 {
        Some(Opcode::IncrementReg(x, kk))
    } else if f == 8 {
        alu_of(n, x, y)
    } else if f == 9 && n == 0 {
        Some(Opcode::SkipRegNotEqual(x, y))
    } else if f == 0xa {
        Some(Opcode::SetI(nnn))
    } else if f == 0xb {
        Some(Opcode::JumpOffset(nnn))
    } else if f == 0xc {
        Some(Opcode::RandomAnd(x, kk))
    } else if f == 0xd {
        Some(Opcode::Draw(x, y, n))
    } else if f == 0xe && kk == 0x9e {
        Some(Opcode::SkipKeyPressed(x))
    } else if f == 0xe && kk == 0xa1 {
        Some(Opcode::SkipKeyNotPressed(x))
    } else if f == 0xf {
        misc_of(kk, x)
    } else {
        None
    };
    match op {
        Some(o) => Ok(o),
        None => Err(DecodeError { word: w }),
    }
}

} // verus!
