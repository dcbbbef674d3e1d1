use chip8::memory::{Chip8Memory, MemoryError, CHIP8_MEMORY_SIZE_BYTES, PROGRAM_OFFSET_BYTES};

#[test]
fn memory_new_loads_font_and_program() {
    let memory = Chip8Memory::new(&[0x12, 0x34, 0x56]).unwrap();
    // The glyph for digit 0 starts the font table at offset 0.
    assert_eq!(memory.get(0), Ok(0xF0));
    assert_eq!(memory.get(1), Ok(0x90));
    assert_eq!(memory.get(4), Ok(0xF0));
    // The glyph for digit F ends the font table.
    assert_eq!(memory.get(75), Ok(0xF0));
    assert_eq!(memory.get(79), Ok(0x80));
    // Between font and program everything is zero.
    assert_eq!(memory.get(80), Ok(0));
    assert_eq!(memory.get(0x1FF), Ok(0));
    // The program sits at 0x200.
    assert_eq!(memory.get(0x200), Ok(0x12));
    assert_eq!(memory.get(0x201), Ok(0x34));
    assert_eq!(memory.get(0x202), Ok(0x56));
    assert_eq!(memory.get(0x203), Ok(0));
}

#[test]
fn memory_new_rejects_too_long_program() {
    let fits = vec![0xAB; CHIP8_MEMORY_SIZE_BYTES - PROGRAM_OFFSET_BYTES];
    assert!(Chip8Memory::new(&fits).is_ok());
    let too_long = vec![0xAB; CHIP8_MEMORY_SIZE_BYTES - PROGRAM_OFFSET_BYTES + 1];
    let result = Chip8Memory::new(&too_long);
    assert!(matches!(
        result,
        Err(MemoryError::DoesNotFit { offset: 0x200, len: 3585 })
    ));
}

#[test]
fn memory_get_set_roundtrip_and_bounds() {
    let mut memory = Chip8Memory::new(&[]).unwrap();
    assert_eq!(memory.set(0x300, 0x7E), Ok(()));
    assert_eq!(memory.get(0x300), Ok(0x7E));
    assert_eq!(memory.get(4096), Err(MemoryError::OutOfRange { index: 4096 }));
    assert_eq!(memory.set(4096, 1), Err(MemoryError::OutOfRange { index: 4096 }));
    assert_eq!(memory.get(4095), Ok(0));
}

#[test]
fn memory_get_bytes_returns_range_or_error() {
    let memory = Chip8Memory::new(&[1, 2, 3, 4]).unwrap();
    let bytes = memory.get_bytes(0x200, 4).unwrap();
    assert_eq!(bytes, vec![1, 2, 3, 4]);
    assert_eq!(memory.get_bytes(0x200, 0).unwrap(), Vec::<u8>::new());
    assert_eq!(
        memory.get_bytes(4090, 10),
        Err(MemoryError::DoesNotFit { offset: 4090, len: 10 })
    );
}

#[test]
fn memory_load_bytes_writes_at_offset() {
    let mut memory = Chip8Memory::new(&[]).unwrap();
    assert_eq!(memory.load_bytes(0x400, &[9, 8, 7]), Ok(()));
    assert_eq!(memory.get(0x3FF), Ok(0));
    assert_eq!(memory.get(0x400), Ok(9));
    assert_eq!(memory.get(0x401), Ok(8));
    assert_eq!(memory.get(0x402), Ok(7));
    assert_eq!(memory.get(0x403), Ok(0));
    assert_eq!(
        memory.load_bytes(4095, &[1, 2]),
        Err(MemoryError::DoesNotFit { offset: 4095, len: 2 })
    );
    // The failed load left the memory untouched.
    assert_eq!(memory.get(4095), Ok(0));
}
