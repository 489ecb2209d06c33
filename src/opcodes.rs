//! Decoding of 16-bit instruction words into tagged instructions.
use vstd::prelude::*;

verus! {

/// A 12-bit memory address carried by an instruction.
pub type Address = u16;

/// The index (0x0 to 0xF) of a general-purpose register.
pub type Register = u8;

/// One instruction of the machine, with its operands.
#[derive(Clone, Copy, Debug, PartialEq, Eq, Structural)]
pub enum OpCode {
    ClearScreen,
    Return,
    JumpTo(Address),
    Call(Address),
    SkipIfEqualsByte(Register, u8),
    SkipIfNotEqualsByte(Register, u8),
    SkipIfEquals(Register, Register),
    LoadByte(Register, u8),
    AddByte(Register, u8),
    Move(Register, Register),
    Or(Register, Register),
    And(Register, Register),
    XOr(Register, Register),
    Add(Register, Register),
    Sub(Register, Register),
    ShiftRight(Register),
    ReverseSub(Register, Register),
    ShiftLeft(Register),
    SkipIfNotEquals(Register, Register),
    LoadIReg(Address),
    JumpPlus(Address),
    LoadRand(Register, u8),
    Draw(Register, Register, u8),
    SkipPressed(Register),
    SkipNotPressed(Register),
    LoadDelay(Register),
    WaitForKey(Register),
    SetDelay(Register),
    SetSoundDelay(Register),
    AddToIReg(Register),
    LoadSprite(Register),
    StoreBCD(Register),
    RegDump(Register),
    RegLoad(Register),
}

/// The most significant nibble of a word.
pub open spec fn nibble0(w: u16) -> int {
    w as int / 4096
}

/// The second nibble of a word.
pub open spec fn nibble1(w: u16) -> int {
    (w as int / 256) % 16
}

/// The third nibble of a word.
pub open spec fn nibble2(w: u16) -> int {
    (w as int / 16) % 16
}

/// The least significant nibble of a word.
pub open spec fn nibble3(w: u16) -> int {
    w as int % 16
}

/// The low byte of a word.
pub open spec fn low_byte(w: u16) -> int {
    w as int % 256
}

/// The low twelve bits of a word.
pub open spec fn low_address(w: u16) -> int {
    w as int % 4096
}

/// The instruction that a word stands for, if any: the machine's opcode table.
pub open spec fn decode(w: u16) -> Option<OpCode> {
    let x = nibble1(w) as u8;
    let y = nibble2(w) as u8;
    let n = nibble3(w) as u8;
    let kk = low_byte(w) as u8;
    let nnn = low_address(w) as u16;
    if nibble0(w) == 0x0 {
        if low_byte(w) == 0xE0 {
            Some(OpCode::ClearScreen)
        } else if low_byte(w) == 0xEE {
            Some(OpCode::Return)
        } else {
            None
        }
    } else if nibble0(w) == 0x1 {
        Some(OpCode::JumpTo(nnn))
    } else if nibble0(w) == 0x2 {
        Some(OpCode::Call(nnn))
    } else if nibble0(w) == 0x3 {
        Some(OpCode::SkipIfEqualsByte(x, kk))
    } else if nibble0(w) == 0x4 {
        Some(OpCode::SkipIfNotEqualsByte(x, kk))
    } else if nibble0(w) == 0x5 {
        Some(OpCode::SkipIfEquals(x, y))
    } else if nibble0(w) == 0x6 {
        Some(OpCode::LoadByte(x, kk))
    } else if nibble0(w) == 0x7 {
        Some(OpCode::AddByte(x, kk))
    } else if nibble0(w) == 0x8 {
        if n == 0x0 {
            Some(OpCode::Move(x, y))
        } else if n == 0x1 {
            Some(OpCode::Or(x, y))
        } else if n == 0x2 {
            Some(OpCode::And(x, y))
        } else if n == 0x3 {
            Some(OpCode::XOr(x, y))
        } else if n == 0x4 {
            Some(OpCode::Add(x, y))
        } else if n == 0x5 {
            Some(OpCode::Sub(x, y))
        } else if n == 0x6 {
            Some(OpCode::ShiftRight(x))
        } else if n == 0x7 {
            Some(OpCode::ReverseSub(x, y))
        } else if n == 0xE {
            Some(OpCode::ShiftLeft(x))
        } else {
            None
        }
    } else if nibble0(w) == 0x9 {
        Some(OpCode::SkipIfNotEquals(x, y))
    } else if nibble0(w) == 0xA {
        Some(OpCode::LoadIReg(nnn))
    } else if nibble0(w) == 0xB {
        Some(OpCode::JumpPlus(nnn))
    } else if nibble0(w) == 0xC {
        Some(OpCode::LoadRand(x, kk))
    } else if nibble0(w) == 0xD {
        Some(OpCode::Draw(x, y, n))
    } else if nibble0(w) == 0xE {
        if kk == 0x9E {
            Some(OpCode::SkipPressed(x))
        } else if kk == 0xA1 {
            Some(OpCode::SkipNotPressed(x))
        } else {
            None
        }
    } else {
        if kk == 0x07 {
            Some(OpCode::LoadDelay(x))
        } else if kk == 0x0A {
            Some(OpCode::WaitForKey(x))
        } else if kk == 0x15 {
            Some(OpCode::SetDelay(x))
        } else if kk == 0x18 {
            Some(OpCode::SetSoundDelay(x))
        } else if kk == 0x1E {
            Some(OpCode::AddToIReg(x))
        } else if kk == 0x29 {
            Some(OpCode::LoadSprite(x))
        } else if kk == 0x33 {
            Some(OpCode::StoreBCD(x))
        } else if kk == 0x55 {
            Some(OpCode::RegDump(x))
        } else if kk == 0x65 {
            Some(OpCode::RegLoad(x))
        } else {
            None
        }
    }
}

impl OpCode {
    /// Every operand is in its field's range: registers below 16, addresses
    /// below 4096, sprite heights below 16.
    pub open spec fn wf(self) -> bool {
        match self {
            OpCode::ClearScreen | OpCode::Return => true,
            OpCode::JumpTo(a) | OpCode::Call(a) | OpCode::LoadIReg(a) | OpCode::JumpPlus(a) => a < 4096,
            OpCode::SkipIfEqualsByte(x, _) | OpCode::SkipIfNotEqualsByte(x, _) | OpCode::LoadByte(x, _)
            | OpCode::AddByte(x, _) | OpCode::LoadRand(x, _) => x < 16,
            OpCode::SkipIfEquals(x, y) | OpCode::Move(x, y) | OpCode::Or(x, y) | OpCode::And(x, y)
            | OpCode::XOr(x, y) | OpCode::Add(x, y) | OpCode::Sub(x, y) | OpCode::ReverseSub(x, y)
            | OpCode::SkipIfNotEquals(x, y) => x < 16 && y < 16,
            OpCode::Draw(x, y, n) => x < 16 && y < 16 && n < 16,
            OpCode::ShiftRight(x) | OpCode::ShiftLeft(x) | OpCode::SkipPressed(x)
            | OpCode::SkipNotPressed(x) | OpCode::LoadDelay(x) | OpCode::WaitForKey(x)
            | OpCode::SetDelay(x) | OpCode::SetSoundDelay(x) | OpCode::AddToIReg(x)
            | OpCode::LoadSprite(x) | OpCode::StoreBCD(x) | OpCode::RegDump(x)
            | OpCode::RegLoad(x) => x < 16,
        }
    }

    /// The canonical word of an instruction: its fixed bits with its operands
    /// at their nibble positions, and every bit that decoding ignores clear.
    pub open spec fn encode(self) -> int {
        match self {
            OpCode::ClearScreen => 0x00E0,
            OpCode::Return => 0x00EE,
            OpCode::JumpTo(a) => 0x1000 + a,
            OpCode::Call(a) => 0x2000 + a,
            OpCode::SkipIfEqualsByte(x, k) => 0x3000 + x * 256 + k,
            OpCode::SkipIfNotEqualsByte(x, k) => 0x4000 + x * 256 + k,
            OpCode::SkipIfEquals(x, y) => 0x5000 + x * 256 + y * 16,
            OpCode::LoadByte(x, k) => 0x6000 + x * 256 + k,
            OpCode::AddByte(x, k) => 0x7000 + x * 256 + k,
            OpCode::Move(x, y) => 0x8000 + x * 256 + y * 16,
            OpCode::Or(x, y) => 0x8001 + x * 256 + y * 16,
            OpCode::And(x, y) => 0x8002 + x * 256 + y * 16,
            OpCode::XOr(x, y) => 0x8003 + x * 256 + y * 16,
            OpCode::Add(x, y) => 0x8004 + x * 256 + y * 16,
            OpCode::Sub(x, y) => 0x8005 + x * 256 + y * 16,
            OpCode::ShiftRight(x) => 0x8006 + x * 256,
            OpCode::ReverseSub(x, y) => 0x8007 + x * 256 + y * 16,
            OpCode::ShiftLeft(x) => 0x800E + x * 256,
            OpCode::SkipIfNotEquals(x, y) => 0x9000 + x * 256 + y * 16,
            OpCode::LoadIReg(a) => 0xA000 + a,
            OpCode::JumpPlus(a) => 0xB000 + a,
            OpCode::LoadRand(x, k) => 0xC000 + x * 256 + k,
            OpCode::Draw(x, y, n) => 0xD000 + x * 256 + y * 16 + n,
            OpCode::SkipPressed(x) => 0xE09E + x * 256,
            OpCode::SkipNotPressed(x) => 0xE0A1 + x * 256,
            OpCode::LoadDelay(x) => 0xF007 + x * 256,
            OpCode::WaitForKey(x) => 0xF00A + x * 256,
            OpCode::SetDelay(x) => 0xF015 + x * 256,
            OpCode::SetSoundDelay(x) => 0xF018 + x * 256,
            OpCode::AddToIReg(x) => 0xF01E + x * 256,
            OpCode::LoadSprite(x) => 0xF029 + x * 256,
            OpCode::StoreBCD(x) => 0xF033 + x * 256,
            OpCode::RegDump(x) => 0xF055 + x * 256,
            OpCode::RegLoad(x) => 0xF065 + x * 256,
        }
    }

    /// The part of a word that decoding to this instruction ignores: the
    /// second nibble of the clear and return words, the third nibble of the
    /// shifts, the last nibble of the register comparisons.
    pub open spec fn ignored(self, w: u16) -> int {
        match self {
            OpCode::ClearScreen | OpCode::Return => nibble1(w) * 256,
            OpCode::ShiftRight(_) | OpCode::ShiftLeft(_) => nibble2(w) * 16,
            OpCode::SkipIfEquals(_, _) | OpCode::SkipIfNotEquals(_, _) => nibble3(w),
            _ => 0,
        }
    }

    /// Decodes an instruction word; `None` where it matches no instruction.
    pub fn from_u16(raw_code: u16) -> (r: Option<Self>)
        ensures
            r == decode(raw_code),
    {
        match xooo(raw_code) {
            0x0 => {
                match ooxx(raw_code) {
                    0xE0 => Some(OpCode::ClearScreen),
                    0xEE => Some(OpCode::Return),
                    _ => None,
                }
            },
            0x1 => Some(OpCode::JumpTo(oxxx(raw_code))),
            0x2 => Some(OpCode::Call(oxxx(raw_code))),
            0x3 => Some(OpCode::SkipIfEqualsByte(oxoo(raw_code), ooxx(raw_code))),
            0x4 => Some(OpCode::SkipIfNotEqualsByte(oxoo(raw_code), ooxx(raw_code))),
            0x5 => Some(OpCode::SkipIfEquals(oxoo(raw_code), ooxo(raw_code))),
            0x6 => Some(OpCode::LoadByte(oxoo(raw_code), ooxx(raw_code))),
            0x7 => Some(OpCode::AddByte(oxoo(raw_code), ooxx(raw_code))),
            0x8 => {
                match ooox(raw_code) {
                    0x0 => Some(OpCode::Move(oxoo(raw_code), ooxo(raw_code))),
                    0x1 => Some(OpCode::Or(oxoo(raw_code), ooxo(raw_code))),
                    0x2 => Some(OpCode::And(oxoo(raw_code), ooxo(raw_code))),
                    0x3 => Some(OpCode::XOr(oxoo(raw_code), ooxo(raw_code))),
                    0x4 => Some(OpCode::Add(oxoo(raw_code), ooxo(raw_code))),
                    0x5 => Some(OpCode::Sub(oxoo(raw_code), ooxo(raw_code))),
                    0x6 => Some(OpCode::ShiftRight(oxoo(raw_code))),
                    0x7 => Some(OpCode::ReverseSub(oxoo(raw_code), ooxo(raw_code))),
                    0xE => Some(OpCode::ShiftLeft(oxoo(raw_code))),
                    _ => None,
                }
            },
            0x9 => Some(OpCode::SkipIfNotEquals(oxoo(raw_code), ooxo(raw_code))),
            0xA => Some(OpCode::LoadIReg(oxxx(raw_code))),
            0xB => Some(OpCode::JumpPlus(oxxx(raw_code))),
            0xC => Some(OpCode::LoadRand(oxoo(raw_code), ooxx(raw_code))),
            0xD => Some(OpCode::Draw(oxoo(raw_code), ooxo(raw_code), ooox(raw_code))),
            0xE => {
                match ooxx(raw_code) {
                    0x9E => Some(OpCode::SkipPressed(oxoo(raw_code))),
                    0xA1 => Some(OpCode::SkipNotPressed(oxoo(raw_code))),
                    _ => None,
                }
            },
            _ => {
                match ooxx(raw_code) {
                    0x07 => Some(OpCode::LoadDelay(oxoo(raw_code))),
                    0x0a => Some(OpCode::WaitForKey(oxoo(raw_code))),
                    0x15 => Some(OpCode::SetDelay(oxoo(raw_code))),
                    0x18 => Some(OpCode::SetSoundDelay(oxoo(raw_code))),
                    0x1E => Some(OpCode::AddToIReg(oxoo(raw_code))),
                    0x29 => Some(OpCode::LoadSprite(oxoo(raw_code))),
                    0x33 => Some(OpCode::StoreBCD(oxoo(raw_code))),
                    0x55 => Some(OpCode::RegDump(oxoo(raw_code))),
                    0x65 => Some(OpCode::RegLoad(oxoo(raw_code))),
                    _ => None,
                }
            },
        }
    }
}

fn xooo(code: u16) -> (r: u8)
    ensures
        r == nibble0(code),
{
    assert(((code >> 12u16) & 0xFu16) == code / 4096) by (bit_vector);
    ((code >> 12u16) & 0xF) as u8
}

fn oxoo(code: u16) -> (r: u8)
    ensures
        r == nibble1(code),
{
    assert(((code >> 8u16) & 0xFu16) == (code / 256) % 16) by (bit_vector);
    ((code >> 8u16) & 0xF) as u8
}

fn ooxo(code: u16) -> (r: u8)
    ensures
        r == nibble2(code),
{
    assert(((code >> 4u16) & 0xFu16) == (code / 16) % 16) by (bit_vector);
    ((code >> 4u16) & 0xF) as u8
}

fn ooox(code: u16) -> (r: u8)
    ensures
        r == nibble3(code),
{
    assert((code & 0xFu16) == code % 16) by (bit_vector);
    (code & 0xF) as u8
}

fn ooxx(code: u16) -> (r: u8)
    ensures
        r == low_byte(code),
{
    assert((code & 0xFFu16) == code % 256) by (bit_vector);
    (code & 0xFF) as u8
}

fn oxxx(code: u16) -> (r: u16)
    ensures
        r == low_address(code),
{
    assert((code & 0xFFFu16) == code % 4096) by (bit_vector);
    code & 0xFFF
}

/// The nibbles of a word assembled from four nibbles are those nibbles.
proof fn lemma_nibbles(a: int, x: int, y: int, n: int)
    requires
        0 <= a < 16,
        0 <= x < 16,
        0 <= y < 16,
        0 <= n < 16,
    ensures
        0 <= a * 4096 + x * 256 + y * 16 + n < 0x10000,
        nibble0((a * 4096 + x * 256 + y * 16 + n) as u16) == a,
        nibble1((a * 4096 + x * 256 + y * 16 + n) as u16) == x,
        nibble2((a * 4096 + x * 256 + y * 16 + n) as u16) == y,
        nibble3((a * 4096 + x * 256 + y * 16 + n) as u16) == n,
        low_byte((a * 4096 + x * 256 + y * 16 + n) as u16) == y * 16 + n,
        low_address((a * 4096 + x * 256 + y * 16 + n) as u16) == x * 256 + y * 16 + n,
{
    let w = a * 4096 + x * 256 + y * 16 + n;
    assert(w / 4096 == a && w % 4096 == x * 256 + y * 16 + n) by (nonlinear_arith)
        requires 0 <= a < 16, 0 <= x < 16, 0 <= y < 16, 0 <= n < 16, w == a * 4096 + x * 256 + y * 16 + n;
    assert(w / 256 == a * 16 + x && w % 256 == y * 16 + n) by (nonlinear_arith)
        requires 0 <= a < 16, 0 <= x < 16, 0 <= y < 16, 0 <= n < 16, w == a * 4096 + x * 256 + y * 16 + n;
    assert(w / 16 == a * 256 + x * 16 + y && w % 16 == n) by (nonlinear_arith)
        requires 0 <= a < 16, 0 <= x < 16, 0 <= y < 16, 0 <= n < 16, w == a * 4096 + x * 256 + y * 16 + n;
    assert((a * 16 + x) % 16 == x) by (nonlinear_arith)
        requires 0 <= a < 16, 0 <= x < 16;
    assert((a * 256 + x * 16 + y) % 16 == y) by (nonlinear_arith)
        requires 0 <= a < 16, 0 <= x < 16, 0 <= y < 16;
}

/// Every word is assembled from its four nibbles.
proof fn lemma_split(w: u16)
    ensures
        0 <= nibble0(w) < 16,
        0 <= nibble1(w) < 16,
        0 <= nibble2(w) < 16,
        0 <= nibble3(w) < 16,
        w == nibble0(w) * 4096 + nibble1(w) * 256 + nibble2(w) * 16 + nibble3(w),
{
    let v = w as int;
    assert(v == (v / 4096) * 4096 + ((v / 256) % 16) * 256 + ((v / 16) % 16) * 16 + v % 16
        && v / 4096 < 16) by (nonlinear_arith)
        requires 0 <= v < 0x10000;
}

/// Every instruction with operands in range decodes back from its canonical
/// word, which is a 16-bit value.
pub proof fn lemma_decode_encode(op: OpCode)
    requires
        op.wf(),
    ensures
        0 <= op.encode() < 0x10000,
        decode(op.encode() as u16) == Some(op),
{
    match op {
        OpCode::ClearScreen => lemma_nibbles(0, 0, 0xE, 0),
        OpCode::Return => lemma_nibbles(0, 0, 0xE, 0xE),
        OpCode::JumpTo(a) => lemma_nibbles(1, a as int / 256, (a as int / 16) % 16, a as int % 16),
        OpCode::Call(a) => lemma_nibbles(2, a as int / 256, (a as int / 16) % 16, a as int % 16),
        OpCode::SkipIfEqualsByte(x, k) => lemma_nibbles(3, x as int, k as int / 16, k as int % 16),
        OpCode::SkipIfNotEqualsByte(x, k) => lemma_nibbles(4, x as int, k as int / 16, k as int % 16),
        OpCode::SkipIfEquals(x, y) => lemma_nibbles(5, x as int, y as int, 0),
        OpCode::LoadByte(x, k) => lemma_nibbles(6, x as int, k as int / 16, k as int % 16),
        OpCode::AddByte(x, k) => lemma_nibbles(7, x as int, k as int / 16, k as int % 16),
        OpCode::Move(x, y) => lemma_nibbles(8, x as int, y as int, 0),
        OpCode::Or(x, y) => lemma_nibbles(8, x as int, y as int, 1),
        OpCode::And(x, y) => lemma_nibbles(8, x as int, y as int, 2),
        OpCode::XOr(x, y) => lemma_nibbles(8, x as int, y as int, 3),
        OpCode::Add(x, y) => lemma_nibbles(8, x as int, y as int, 4),
        OpCode::Sub(x, y) => lemma_nibbles(8, x as int, y as int, 5),
        OpCode::ShiftRight(x) => lemma_nibbles(8, x as int, 0, 6),
        OpCode::ReverseSub(x, y) => lemma_nibbles(8, x as int, y as int, 7),
        OpCode::ShiftLeft(x) => lemma_nibbles(8, x as int, 0, 0xE),
        OpCode::SkipIfNotEquals(x, y) => lemma_nibbles(9, x as int, y as int, 0),
        OpCode::LoadIReg(a) => lemma_nibbles(0xA, a as int / 256, (a as int / 16) % 16, a as int % 16),
        OpCode::JumpPlus(a) => lemma_nibbles(0xB, a as int / 256, (a as int / 16) % 16, a as int % 16),
        OpCode::LoadRand(x, k) => lemma_nibbles(0xC, x as int, k as int / 16, k as int % 16),
        OpCode::Draw(x, y, n) => lemma_nibbles(0xD, x as int, y as int, n as int),
        OpCode::SkipPressed(x) => lemma_nibbles(0xE, x as int, 9, 0xE),
        OpCode::SkipNotPressed(x) => lemma_nibbles(0xE, x as int, 0xA, 1),
        OpCode::LoadDelay(x) => lemma_nibbles(0xF, x as int, 0, 7),
        OpCode::WaitForKey(x) => lemma_nibbles(0xF, x as int, 0, 0xA),
        OpCode::SetDelay(x) => lemma_nibbles(0xF, x as int, 1, 5),
        OpCode::SetSoundDelay(x) => lemma_nibbles(0xF, x as int, 1, 8),
        OpCode::AddToIReg(x) => lemma_nibbles(0xF, x as int, 1, 0xE),
        OpCode::LoadSprite(x) => lemma_nibbles(0xF, x as int, 2, 9),
        OpCode::StoreBCD(x) => lemma_nibbles(0xF, x as int, 3, 3),
        OpCode::RegDump(x) => lemma_nibbles(0xF, x as int, 5, 5),
        OpCode::RegLoad(x) => lemma_nibbles(0xF, x as int, 6, 5),
    }
}

/// A word that decodes is made of the decoded instruction's canonical word
/// and the bits that the instruction ignores: each operand is read from its
/// exact nibble position, and every operand is in range.
pub proof fn lemma_decode_fields(w: u16)
    requires
        decode(w) is Some,
    ensures
        decode(w).unwrap().wf(),
        decode(w).unwrap().encode() + decode(w).unwrap().ignored(w) == w,
{
    lemma_split(w);
    lemma_nibbles(nibble0(w), nibble1(w), nibble2(w), nibble3(w));
}

/// A word that does not decode is the canonical word of no instruction.
pub proof fn lemma_unknown_word(w: u16)
    requires
        decode(w) is None,
    ensures
        forall|op: OpCode| op.wf() ==> #[trigger] op.encode() != w,
{
    assert forall|op: OpCode| op.wf() implies #[trigger] op.encode() != w by {
        lemma_decode_encode(op);
    }
}

} // verus!
