//! The machine's memory: a fixed 4096-byte store preloaded at construction
//! with the 16 built-in 5-byte glyph sprites at offset 0 and the program at
//! offset 0x200, and never resized. Every access is bounds-checked and an
//! out-of-range access is reported as a typed error, never clamped.

use vstd::prelude::*;

verus! {

/// The amount of memory available to the machine.
pub const CHIP8_MEMORY_SIZE_BYTES: usize = 4096;

/// The offset from the start of memory of the built-in hex digit sprites.
pub const SPRITES_OFFSET_BYTES: usize = 0x0;

/// The offset from the start of memory at which the program is loaded.
pub const PROGRAM_OFFSET_BYTES: usize = 0x200;

/// The 80 bytes of the built-in font: one 5-byte sprite for each hex digit
/// 0 through F, in order.
pub open spec fn font_seq() -> Seq<u8> {
    seq![
        0xF0u8, 0x90, 0x90, 0x90, 0xF0,
        0x20, 0x60, 0x20, 0x20, 0x70,
        0xF0, 0x10, 0xF0, 0x80, 0xF0,
        0xF0, 0x10, 0xF0, 0x10, 0xF0,
        0x90, 0x90, 0xF0, 0x10, 0x10,
        0xF0, 0x80, 0xF0, 0x10, 0xF0,
        0xF0, 0x80, 0xF0, 0x90, 0xF0,
        0xF0, 0x10, 0x20, 0x40, 0x40,
        0xF0, 0x90, 0xF0, 0x90, 0xF0,
        0xF0, 0x90, 0xF0, 0x10, 0xF0,
        0xF0, 0x90, 0xF0, 0x90, 0x90,
        0xE0, 0x90, 0xE0, 0x90, 0xE0,
        0xF0, 0x80, 0x80, 0x80, 0xF0,
        0xE0, 0x90, 0x90, 0x90, 0xE0,
        0xF0, 0x80, 0xF0, 0x80, 0xF0,
        0xF0, 0x80, 0xF0, 0x80, 0x80,
    ]
}

/// The memory contents right after construction: the font at offset 0, the
/// program at offset 0x200, and zero everywhere else.
pub open spec fn initial_memory(program: Seq<u8>) -> Seq<u8> {
    Seq::new(
        CHIP8_MEMORY_SIZE_BYTES as nat,
        |i: int|
            if 0 <= i < 80 {
                font_seq()[i]
            } else if PROGRAM_OFFSET_BYTES <= i < PROGRAM_OFFSET_BYTES + program.len() {
                program[i - PROGRAM_OFFSET_BYTES]
            } else {
                0u8
            },
    )
}

/// Error produced by the memory accessors.
#[derive(Clone, Copy, Debug, PartialEq, Eq, Structural)]
pub enum MemoryError {
    /// A read or write touched an index at or beyond the end of memory.
    OutOfRange { index: usize },
    /// A block of bytes would not fit between its offset and the end of memory.
    DoesNotFit { offset: usize, len: usize },
}

/// The memory (RAM) of the machine: 4096 bytes, addressed from 0.
pub struct Chip8Memory {
    bytes: Vec<u8>,
}

impl View for Chip8Memory {
    type V = Seq<u8>;

    closed spec fn view(&self) -> Seq<u8> {
        self.bytes@
    }
}

impl Chip8Memory {
    /// The memory always holds exactly 4096 bytes.
    pub open spec fn wf(&self) -> bool {
        self@.len() == CHIP8_MEMORY_SIZE_BYTES
    }

    /// Create a memory holding the built-in hex digit sprites and the given
    /// program, or report that the program does not fit before the end of
    /// the store.
    pub fn new(program: &[u8]) -> (r: Result<Chip8Memory, MemoryError>)
        ensures
            program@.len() <= CHIP8_MEMORY_SIZE_BYTES - PROGRAM_OFFSET_BYTES ==> (r matches Ok(m)
                && m.wf() && m@ == initial_memory(program@)),
            program@.len() > CHIP8_MEMORY_SIZE_BYTES - PROGRAM_OFFSET_BYTES ==> r == Err::<
                Chip8Memory,
                MemoryError,
            >(MemoryError::DoesNotFit { offset: PROGRAM_OFFSET_BYTES, len: program@.len() as usize }),
    {
        let mut bytes: Vec<u8> = Vec::new();
        let mut i: usize = 0;
        while i < CHIP8_MEMORY_SIZE_BYTES
            invariant
                i <= CHIP8_MEMORY_SIZE_BYTES,
                bytes@.len() == i,
                forall|k: int| 0 <= k < i ==> bytes@[k] == 0u8,
            decreases CHIP8_MEMORY_SIZE_BYTES - i,
        {
            bytes.push(0);
            i += 1;
        }
        let mut memory = Chip8Memory { bytes };
        let font: [u8; 80] = [
            0xF0, 0x90, 0x90, 0x90, 0xF0,
            0x20, 0x60, 0x20, 0x20, 0x70,
            0xF0, 0x10, 0xF0, 0x80, 0xF0,
            0xF0, 0x10, 0xF0, 0x10, 0xF0,
            0x90, 0x90, 0xF0, 0x10, 0x10,
            0xF0, 0x80, 0xF0, 0x10, 0xF0,
            0xF0, 0x80, 0xF0, 0x90, 0xF0,
            0xF0, 0x10, 0x20, 0x40, 0x40,
            0xF0, 0x90, 0xF0, 0x90, 0xF0,
            0xF0, 0x90, 0xF0, 0x10, 0xF0,
            0xF0, 0x90, 0xF0, 0x90, 0x90,
            0xE0, 0x90, 0xE0, 0x90, 0xE0,
            0xF0, 0x80, 0x80, 0x80, 0xF0,
            0xE0, 0x90, 0x90, 0x90, 0xE0,
            0xF0, 0x80, 0xF0, 0x80, 0xF0,
            0xF0, 0x80, 0xF0, 0x80, 0x80,
        ];
        proof {
            assert(font@ =~= font_seq());
        }
        match memory.load_bytes(SPRITES_OFFSET_BYTES, font.as_slice()) {
            Ok(()) => {},
            Err(_) => {
                // The 80 font bytes always fit at offset 0.
                proof {
                    assert(false);
                }
            },
        }
        match memory.load_bytes(PROGRAM_OFFSET_BYTES, program) {
            Ok(()) => {
                proof {
                    assert(memory@ =~= initial_memory(program@));
                }
                Ok(memory)
            },
            Err(_) => Err(MemoryError::DoesNotFit {
                offset: PROGRAM_OFFSET_BYTES,
                len: program.len(),
            }),
        }
    }

    /// Read the byte at an index already known to be in range.
    pub(crate) fn read_byte(&self, index: usize) -> (r: u8)
        requires
            self.wf(),
            index < CHIP8_MEMORY_SIZE_BYTES,
        ensures
            r == self@[index as int],
    {
        self.bytes[index]
    }

    /// Write a byte at an index already known to be in range.
    pub(crate) fn write_byte(&mut self, index: usize, value: u8)
        requires
            old(self).wf(),
            index < CHIP8_MEMORY_SIZE_BYTES,
        ensures
            final(self).wf(),
            final(self)@ == old(self)@.update(index as int, value),
    {
        self.bytes[index] = value;
    }

    /// Copy out a range of bytes already known to be in bounds.
    pub(crate) fn read_bytes(&self, index: usize, len: usize) -> (r: Vec<u8>)
        requires
            self.wf(),
            index + len <= CHIP8_MEMORY_SIZE_BYTES,
        ensures
            r@ == self@.subrange(index as int, index + len),
    {
        let mut out: Vec<u8> = Vec::new();
        let mut k: usize = 0;
        while k < len
            invariant
                self.wf(),
                k <= len,
                index + len <= CHIP8_MEMORY_SIZE_BYTES,
                out@.len() == k,
                forall|j: int| 0 <= j < k ==> out@[j] == self@[index + j],
            decreases len - k,
        {
            out.push(self.bytes[index + k]);
            k += 1;
        }
        proof {
            assert(out@ =~= self@.subrange(index as int, index + len));
        }
        out
    }

    /// Read the byte at `index`, or report the index as out of range.
    pub fn get(&self, index: usize) -> (r: Result<u8, MemoryError>)
        requires
            self.wf(),
        ensures
            index < CHIP8_MEMORY_SIZE_BYTES ==> r == Ok::<u8, MemoryError>(self@[index as int]),
            index >= CHIP8_MEMORY_SIZE_BYTES ==> r == Err::<u8, MemoryError>(
                MemoryError::OutOfRange { index },
            ),
    {
        if index < CHIP8_MEMORY_SIZE_BYTES {
            Ok(self.read_byte(index))
        } else {
            Err(MemoryError::OutOfRange { index })
        }
    }

    /// Write `value` at `index`, or report the index as out of range and
    /// leave the memory unchanged.
    pub fn set(&mut self, index: usize, value: u8) -> (r: Result<(), MemoryError>)
        requires
            old(self).wf(),
        ensures
            final(self).wf(),
            index < CHIP8_MEMORY_SIZE_BYTES ==> r == Ok::<(), MemoryError>(()) && final(self)@
                == old(self)@.update(index as int, value),
            index >= CHIP8_MEMORY_SIZE_BYTES ==> r == Err::<(), MemoryError>(
                MemoryError::OutOfRange { index },
            ) && final(self)@ == old(self)@,
    {
        if index < CHIP8_MEMORY_SIZE_BYTES {
            self.write_byte(index, value);
            Ok(())
        } else {
            Err(MemoryError::OutOfRange { index })
        }
    }

    /// Copy out the `len` bytes starting at `index`, or report the range as
    /// out of bounds.
    pub fn get_bytes(&self, index: usize, len: usize) -> (r: Result<Vec<u8>, MemoryError>)
        requires
            self.wf(),
        ensures
            index + len <= CHIP8_MEMORY_SIZE_BYTES ==> (r matches Ok(bytes) && bytes@ == self@
                .subrange(index as int, index + len)),
            index + len > CHIP8_MEMORY_SIZE_BYTES ==> r == Err::<Vec<u8>, MemoryError>(
                MemoryError::DoesNotFit { offset: index, len },
            ),
    {
        if len <= CHIP8_MEMORY_SIZE_BYTES && index <= CHIP8_MEMORY_SIZE_BYTES - len {
            Ok(self.read_bytes(index, len))
        } else {
            Err(MemoryError::DoesNotFit { offset: index, len })
        }
    }

    /// Write `bytes` into memory starting at `offset`, or report that the
    /// block does not fit and leave the memory unchanged.
    pub fn load_bytes(&mut self, offset: usize, bytes: &[u8]) -> (r: Result<(), MemoryError>)
        requires
            old(self).wf(),
        ensures
            final(self).wf(),
            offset + bytes@.len() <= CHIP8_MEMORY_SIZE_BYTES ==> r == Ok::<(), MemoryError>(())
                && final(self)@ == Seq::new(
                CHIP8_MEMORY_SIZE_BYTES as nat,
                |i: int|
                    if offset <= i < offset + bytes@.len() {
                        bytes@[i - offset]
                    } else {
                        old(self)@[i]
                    },
            ),
            offset + bytes@.len() > CHIP8_MEMORY_SIZE_BYTES ==> r == Err::<(), MemoryError>(
                MemoryError::DoesNotFit { offset, len: bytes@.len() as usize },
            ) && final(self)@ == old(self)@,
    {
        let len = bytes.len();
        if len <= CHIP8_MEMORY_SIZE_BYTES && offset <= CHIP8_MEMORY_SIZE_BYTES - len {
            let mut k: usize = 0;
            while k < len
                invariant
                    self@.len() == CHIP8_MEMORY_SIZE_BYTES,
                    k <= len,
                    len == bytes@.len(),
                    offset + len <= CHIP8_MEMORY_SIZE_BYTES,
                    forall|i: int|
                        0 <= i < CHIP8_MEMORY_SIZE_BYTES ==> self@[i] == (if offset <= i < offset
                            + k {
                            bytes@[i - offset]
                        } else {
                            old(self)@[i]
                        }),
                decreases len - k,
            {
                self.bytes[offset + k] = bytes[k];
                k += 1;
            }
            proof {
                assert(self@ =~= Seq::new(
                    CHIP8_MEMORY_SIZE_BYTES as nat,
                    |i: int|
                        if offset <= i < offset + bytes@.len() {
                            bytes@[i - offset]
                        } else {
                            old(self)@[i]
                        },
                ));
            }
            Ok(())
        } else {
            Err(MemoryError::DoesNotFit { offset, len })
        }
    }
}

} // verus!
