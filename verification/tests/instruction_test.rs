use chip8rs::instruction::{Addr, Instruction};

#[test]
fn test_decode() {
    assert_eq!(Instruction::decode(0x00e0), Instruction::Clear);
    assert_eq!(Instruction::decode(0x00ee), Instruction::Return);
    assert_eq!(Instruction::decode(0x1000), Instruction::Jump(0 as Addr));
}

#[test]
fn test_decode_examples() {
    assert_eq!(Instruction::decode(0x00E0), Instruction::Clear);
    assert_eq!(Instruction::decode(0x00EE), Instruction::Return);
    assert_eq!(Instruction::decode(0x1ABC), Instruction::Jump(0xABC));
    assert_eq!(Instruction::decode(0x8010), Instruction::SetReg(0, 1));
}

#[test]
fn test_decode_total() {
    // Every 16-bit pattern decodes to some variant without panicking.
    let mut opcode: u32 = 0;
    while opcode <= 0xFFFF {
        let _ = Instruction::decode(opcode as u16);
        opcode += 1;
    }
}

#[test]
fn test_decode_groups() {
    assert_eq!(Instruction::decode(0x2345), Instruction::Call(0x345));
    assert_eq!(Instruction::decode(0x3A7F), Instruction::SkipEqualK(0xA, 0x7F));
    assert_eq!(Instruction::decode(0x4A7F), Instruction::SkipNotEqualK(0xA, 0x7F));
    assert_eq!(Instruction::decode(0x5120), Instruction::SkipEqual(1, 2));
    assert_eq!(Instruction::decode(0x6CDE), Instruction::LoadK(0xC, 0xDE));
    assert_eq!(Instruction::decode(0x7C01), Instruction::AddK(0xC, 1));
    assert_eq!(Instruction::decode(0x8121), Instruction::Or(1, 2));
    assert_eq!(Instruction::decode(0x8122), Instruction::And(1, 2));
    assert_eq!(Instruction::decode(0x8123), Instruction::Xor(1, 2));
    assert_eq!(Instruction::decode(0x8124), Instruction::Add(1, 2));
    assert_eq!(Instruction::decode(0x8125), Instruction::Sub(1, 2));
    assert_eq!(Instruction::decode(0x8126), Instruction::ShiftRight(1));
    assert_eq!(Instruction::decode(0x8127), Instruction::SubInv(1, 2));
    assert_eq!(Instruction::decode(0x812E), Instruction::ShiftLeft(1));
    assert_eq!(Instruction::decode(0x9120), Instruction::SkipNotEqual(1, 2));
    assert_eq!(Instruction::decode(0xA9AB), Instruction::LoadI(0x9AB));
    assert_eq!(Instruction::decode(0xB9AB), Instruction::LongJump(0x9AB));
    assert_eq!(Instruction::decode(0xC577), Instruction::Rand(5, 0x77));
    assert_eq!(Instruction::decode(0xD12F), Instruction::Draw(1, 2, 0xF));
    assert_eq!(Instruction::decode(0xE19E), Instruction::SkipPressed(1));
    assert_eq!(Instruction::decode(0xE1A1), Instruction::SkipNotPressed(1));
    assert_eq!(Instruction::decode(0xF107), Instruction::GetTimer(1));
    assert_eq!(Instruction::decode(0xF10A), Instruction::WaitKey(1));
    assert_eq!(Instruction::decode(0xF115), Instruction::SetTimer(1));
    assert_eq!(Instruction::decode(0xF118), Instruction::SetSoundTimer(1));
    assert_eq!(Instruction::decode(0xF11E), Instruction::AddI(1));
    assert_eq!(Instruction::decode(0xF129), Instruction::LoadHexGlyph(1));
    assert_eq!(Instruction::decode(0xF133), Instruction::StoreBCD(1));
    assert_eq!(Instruction::decode(0xF155), Instruction::StoreRegisters(1));
    assert_eq!(Instruction::decode(0xF165), Instruction::LoadRegisters(1));
}

#[test]
fn test_decode_unknown() {
    assert_eq!(Instruction::decode(0x0000), Instruction::Unknown);
    assert_eq!(Instruction::decode(0x0123), Instruction::Unknown);
    assert_eq!(Instruction::decode(0x5121), Instruction::Unknown);
    assert_eq!(Instruction::decode(0x8128), Instruction::Unknown);
    assert_eq!(Instruction::decode(0x9121), Instruction::Unknown);
    assert_eq!(Instruction::decode(0xE1FF), Instruction::Unknown);
    assert_eq!(Instruction::decode(0xF100), Instruction::Unknown);
    assert_eq!(Instruction::decode(0xFFFF), Instruction::Unknown);
}
