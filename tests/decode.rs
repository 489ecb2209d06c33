use chip8_core::opcodes::OpCode;
use chip8_core::input::key_value;

#[test]
fn decodes_every_pattern() {
    let cases: Vec<(u16, OpCode)> = vec![
        (0x00E0, OpCode::ClearScreen),
        (0x00EE, OpCode::Return),
        (0x1ABC, OpCode::JumpTo(0xABC)),
        (0x2123, OpCode::Call(0x123)),
        (0x3A42, OpCode::SkipIfEqualsByte(0xA, 0x42)),
        (0x4B17, OpCode::SkipIfNotEqualsByte(0xB, 0x17)),
        (0x5120, OpCode::SkipIfEquals(0x1, 0x2)),
        (0x6C99, OpCode::LoadByte(0xC, 0x99)),
        (0x7D01, OpCode::AddByte(0xD, 0x01)),
        (0x8120, OpCode::Move(0x1, 0x2)),
        (0x8341, OpCode::Or(0x3, 0x4)),
        (0x8562, OpCode::And(0x5, 0x6)),
        (0x8783, OpCode::XOr(0x7, 0x8)),
        (0x89A4, OpCode::Add(0x9, 0xA)),
        (0x8BC5, OpCode::Sub(0xB, 0xC)),
        (0x8D06, OpCode::ShiftRight(0xD)),
        (0x8EF7, OpCode::ReverseSub(0xE, 0xF)),
        (0x810E, OpCode::ShiftLeft(0x1)),
        (0x9230, OpCode::SkipIfNotEquals(0x2, 0x3)),
        (0xA2F0, OpCode::LoadIReg(0x2F0)),
        (0xB300, OpCode::JumpPlus(0x300)),
        (0xC40F, OpCode::LoadRand(0x4, 0x0F)),
        (0xD125, OpCode::Draw(0x1, 0x2, 0x5)),
        (0xE59E, OpCode::SkipPressed(0x5)),
        (0xE6A1, OpCode::SkipNotPressed(0x6)),
        (0xF707, OpCode::LoadDelay(0x7)),
        (0xF80A, OpCode::WaitForKey(0x8)),
        (0xF915, OpCode::SetDelay(0x9)),
        (0xFA18, OpCode::SetSoundDelay(0xA)),
        (0xFB1E, OpCode::AddToIReg(0xB)),
        (0xFC29, OpCode::LoadSprite(0xC)),
        (0xFD33, OpCode::StoreBCD(0xD)),
        (0xFE55, OpCode::RegDump(0xE)),
        (0xFF65, OpCode::RegLoad(0xF)),
    ];
    assert_eq!(cases.len(), 34);
    for (word, op) in cases {
        assert_eq!(OpCode::from_u16(word), Some(op), "word {:#06x}", word);
    }
}

#[test]
fn decode_ignores_unused_nibbles() {
    assert_eq!(OpCode::from_u16(0x05E0), Some(OpCode::ClearScreen));
    assert_eq!(OpCode::from_u16(0x8376), Some(OpCode::ShiftRight(0x3)));
    assert_eq!(OpCode::from_u16(0x512F), Some(OpCode::SkipIfEquals(0x1, 0x2)));
}

#[test]
fn rejects_unknown_words() {
    for word in [0x0000u16, 0x0123, 0x00E1, 0x00FF, 0x8128, 0x812F, 0xE19F, 0xE000, 0xF000, 0xF1FF, 0xF066] {
        assert_eq!(OpCode::from_u16(word), None, "word {:#06x}", word);
    }
}

#[test]
fn host_key_codes_map_to_logical_keys() {
    assert_eq!(key_value(48), Some(0));
    assert_eq!(key_value(57), Some(9));
    assert_eq!(key_value(97), Some(0xA));
    assert_eq!(key_value(102), Some(0xF));
    assert_eq!(key_value(47), None);
    assert_eq!(key_value(58), None);
    assert_eq!(key_value(103), None);
    assert_eq!(key_value(65), None);
}
