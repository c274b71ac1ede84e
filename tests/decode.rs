use chip8::decode::{decode, Op};

#[test]
fn decode_zero_word_is_nop() {
    assert_eq!(decode(0x0000), Some(Op::Nop));
}

#[test]
fn decode_system_family() {
    assert_eq!(decode(0x00E0), Some(Op::ClearScreen));
    assert_eq!(decode(0x00EE), Some(Op::Return));
    assert_eq!(decode(0x0123), None);
}

#[test]
fn decode_fields() {
    assert_eq!(decode(0x1ABC), Some(Op::Jump { addr: 0xABC }));
    assert_eq!(decode(0x2345), Some(Op::Call { addr: 0x345 }));
    assert_eq!(decode(0x3A42), Some(Op::SkipEqImm { x: 0xA, kk: 0x42 }));
    assert_eq!(decode(0x4B07), Some(Op::SkipNeImm { x: 0xB, kk: 0x07 }));
    assert_eq!(decode(0x5120), Some(Op::SkipEqReg { x: 1, y: 2 }));
    assert_eq!(decode(0x6C99), Some(Op::LoadImm { x: 0xC, kk: 0x99 }));
    assert_eq!(decode(0x7D01), Some(Op::AddImm { x: 0xD, kk: 0x01 }));
    assert_eq!(decode(0x9340), Some(Op::SkipNeReg { x: 3, y: 4 }));
    assert_eq!(decode(0xA123), Some(Op::LoadIndex { addr: 0x123 }));
    assert_eq!(decode(0xBFFF), Some(Op::JumpPlusV0 { addr: 0xFFF }));
    assert_eq!(decode(0xC50F), Some(Op::Random { x: 5, kk: 0x0F }));
    assert_eq!(decode(0xD12F), Some(Op::Draw { x: 1, y: 2, n: 0xF }));
}

#[test]
fn decode_register_family() {
    assert_eq!(decode(0x8120), Some(Op::LoadReg { x: 1, y: 2 }));
    assert_eq!(decode(0x8121), Some(Op::Or { x: 1, y: 2 }));
    assert_eq!(decode(0x8122), Some(Op::And { x: 1, y: 2 }));
    assert_eq!(decode(0x8123), Some(Op::Xor { x: 1, y: 2 }));
    assert_eq!(decode(0x8124), Some(Op::AddReg { x: 1, y: 2 }));
    assert_eq!(decode(0x8125), Some(Op::SubReg { x: 1, y: 2 }));
    assert_eq!(decode(0x8126), Some(Op::ShiftRight { x: 1, y: 2 }));
    assert_eq!(decode(0x8127), Some(Op::SubNeg { x: 1, y: 2 }));
    assert_eq!(decode(0x812E), Some(Op::ShiftLeft { x: 1, y: 2 }));
    assert_eq!(decode(0x8128), None);
    assert_eq!(decode(0x812F), None);
}

#[test]
fn decode_key_and_misc_families() {
    assert_eq!(decode(0xE39E), Some(Op::SkipKey { x: 3 }));
    assert_eq!(decode(0xE3A1), Some(Op::SkipNotKey { x: 3 }));
    assert_eq!(decode(0xE300), None);
    assert_eq!(decode(0xF207), Some(Op::LoadDelay { x: 2 }));
    assert_eq!(decode(0xF20A), Some(Op::WaitKey { x: 2 }));
    assert_eq!(decode(0xF215), Some(Op::SetDelay { x: 2 }));
    assert_eq!(decode(0xF218), Some(Op::SetSound { x: 2 }));
    assert_eq!(decode(0xF21E), Some(Op::AddIndex { x: 2 }));
    assert_eq!(decode(0xF229), Some(Op::FontAddr { x: 2 }));
    assert_eq!(decode(0xF233), Some(Op::Bcd { x: 2 }));
    assert_eq!(decode(0xF255), Some(Op::StoreRegs { x: 2 }));
    assert_eq!(decode(0xF265), Some(Op::LoadRegs { x: 2 }));
    assert_eq!(decode(0xF2FF), None);
}

#[test]
fn decode_rejects_nonzero_low_nibble_in_register_compares() {
    assert_eq!(decode(0x5121), None);
    assert_eq!(decode(0x912F), None);
}
