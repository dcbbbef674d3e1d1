use chip8::instruction::{decode, DecodeError, Inst};

#[test]
fn decode_clear_return_and_machine_subroutine() {
    assert_eq!(decode(0x00E0), Ok(Inst::Clear));
    assert_eq!(decode(0x00EE), Ok(Inst::Return));
    // Any other word of the 0x0 family is a structurally valid
    // machine-subroutine call, not a decode error.
    assert_eq!(decode(0x0123), Ok(Inst::Exe { nnn: 0x123 }));
    assert_eq!(decode(0x0000), Ok(Inst::Exe { nnn: 0x000 }));
    assert_eq!(decode(0x00E1), Ok(Inst::Exe { nnn: 0x0E1 }));
}

#[test]
fn decode_jumps_and_calls() {
    assert_eq!(decode(0x1ABC), Ok(Inst::Jump { nnn: 0xABC }));
    assert_eq!(decode(0x2ABC), Ok(Inst::Call { nnn: 0xABC }));
    assert_eq!(decode(0xBABC), Ok(Inst::JumpAdd { nnn: 0xABC }));
}

#[test]
fn decode_value_instructions() {
    assert_eq!(decode(0x3A7F), Ok(Inst::SkipEqualValue { vx: 0xA, nn: 0x7F }));
    assert_eq!(decode(0x4A7F), Ok(Inst::SkipNotEqualValue { vx: 0xA, nn: 0x7F }));
    assert_eq!(decode(0x6A7F), Ok(Inst::LoadValue { vx: 0xA, nn: 0x7F }));
    assert_eq!(decode(0x7A7F), Ok(Inst::AddValue { vx: 0xA, nn: 0x7F }));
    assert_eq!(decode(0xCA7F), Ok(Inst::LoadRandom { vx: 0xA, nn: 0x7F }));
}

#[test]
fn decode_register_skips() {
    assert_eq!(decode(0x5120), Ok(Inst::SkipEqualRegister { vx: 1, vy: 2 }));
    assert_eq!(decode(0x9120), Ok(Inst::SkipNotEqualRegister { vx: 1, vy: 2 }));
    // A nonzero low nibble makes these unknown instructions.
    assert_eq!(decode(0x5121), Err(DecodeError::UnknownInstruction { inst: 0x5121 }));
    assert_eq!(decode(0x912F), Err(DecodeError::UnknownInstruction { inst: 0x912F }));
}

#[test]
fn decode_arithmetic_family() {
    assert_eq!(decode(0x8120), Ok(Inst::LoadRegister { vx: 1, vy: 2 }));
    assert_eq!(decode(0x8121), Ok(Inst::Or { vx: 1, vy: 2 }));
    assert_eq!(decode(0x8122), Ok(Inst::And { vx: 1, vy: 2 }));
    assert_eq!(decode(0x8123), Ok(Inst::Xor { vx: 1, vy: 2 }));
    assert_eq!(decode(0x8124), Ok(Inst::AddRegister { vx: 1, vy: 2 }));
    assert_eq!(decode(0x8125), Ok(Inst::SubRegisterXY { vx: 1, vy: 2 }));
    assert_eq!(decode(0x8126), Ok(Inst::ShiftRight { vx: 1, vy: 2 }));
    assert_eq!(decode(0x8127), Ok(Inst::SubRegisterYX { vx: 1, vy: 2 }));
    assert_eq!(decode(0x812E), Ok(Inst::ShiftLeft { vx: 1, vy: 2 }));
    assert_eq!(decode(0x8128), Err(DecodeError::UnknownInstruction { inst: 0x8128 }));
    assert_eq!(decode(0x812D), Err(DecodeError::UnknownInstruction { inst: 0x812D }));
}

#[test]
fn decode_address_and_draw() {
    assert_eq!(decode(0xAABC), Ok(Inst::LoadIntoI { nnn: 0xABC }));
    assert_eq!(decode(0xD12F), Ok(Inst::DrawSprite { vx: 1, vy: 2, n: 0xF }));
}

#[test]
fn decode_key_family() {
    assert_eq!(decode(0xE19E), Ok(Inst::SkipIfKey { vx: 1 }));
    assert_eq!(decode(0xE1A1), Ok(Inst::SkipIfNotKey { vx: 1 }));
    assert_eq!(decode(0xE100), Err(DecodeError::UnknownInstruction { inst: 0xE100 }));
    assert_eq!(decode(0xE19F), Err(DecodeError::UnknownInstruction { inst: 0xE19F }));
}

#[test]
fn decode_timer_and_memory_family() {
    assert_eq!(decode(0xF107), Ok(Inst::LoadDelay { vx: 1 }));
    assert_eq!(decode(0xF10A), Ok(Inst::WaitForKey { vx: 1 }));
    assert_eq!(decode(0xF115), Ok(Inst::SetDelay { vx: 1 }));
    assert_eq!(decode(0xF118), Ok(Inst::SetSound { vx: 1 }));
    assert_eq!(decode(0xF11E), Ok(Inst::AddToI { vx: 1 }));
    assert_eq!(decode(0xF129), Ok(Inst::LoadDigitSpriteAddrIntoI { vx: 1 }));
    assert_eq!(decode(0xF133), Ok(Inst::StoreBCD { vx: 1 }));
    assert_eq!(decode(0xF155), Ok(Inst::StoreRegisters { vx: 1 }));
    assert_eq!(decode(0xF165), Ok(Inst::LoadRegisters { vx: 1 }));
    assert_eq!(decode(0xF100), Err(DecodeError::UnknownInstruction { inst: 0xF100 }));
    assert_eq!(decode(0xF1FF), Err(DecodeError::UnknownInstruction { inst: 0xF1FF }));
}

#[test]
fn decode_unknown_error_carries_the_word() {
    // Every unknown word's error carries exactly that word.
    for word in [0x5ABF_u16, 0x8ABB, 0x9AB1, 0xEA00, 0xFA99] {
        assert_eq!(decode(word), Err(DecodeError::UnknownInstruction { inst: word }));
    }
}
