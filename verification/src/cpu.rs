//! The interpreter: registers, call stack, program counter and timers, and
//! the fetch-decode-execute cycle that drives them. The exact effect of every
//! instruction on the machine state is written down once, as the transition
//! function `spec_execute`, and the executable interpreter is proved to match
//! it step for step.

use vstd::prelude::*;

verus! {

use crate::instruction::{decode, spec_decode, DecodeError, Inst};
use crate::memory::{
    initial_memory, Chip8Memory, MemoryError, CHIP8_MEMORY_SIZE_BYTES, PROGRAM_OFFSET_BYTES,
    SPRITES_OFFSET_BYTES,
};
use crate::screen::{
    blank_screen, spec_draw, spec_draw_collision, Chip8Screen, SCREEN_HEIGHT_PIXELS,
    SCREEN_WIDTH_PIXELS,
};
use vstd::slice::slice_subrange;

/// The capacity of the call stack, in return addresses.
pub const STACK_SIZE: usize = 12;

/// The seed the pseudo-random byte generator starts from when none is given.
pub const DEFAULT_RNG_SEED: u64 = 0x853C_49E6_748F_EA9B;

const RNG_MULTIPLIER: u64 = 0x5851_F42D_4C95_7F2D;

const RNG_INCREMENT: u64 = 0x1405_7B7E_F767_814F;

/// The machine state as contracts speak of it: plain mathematical values for
/// memory, screen, registers, stack, program counter, timers and the
/// pseudo-random generator state.
pub ghost struct Chip8View {
    /// The 4096 bytes of memory.
    pub mem: Seq<u8>,
    /// The 64 * 32 pixels of the screen, row-major.
    pub screen: Seq<bool>,
    /// The 16 general-purpose registers `V0` through `VF`.
    pub v: Seq<u8>,
    /// The address register `I`.
    pub i: u16,
    /// The call stack of return addresses, most recent last.
    pub stack: Seq<u16>,
    /// The program counter.
    pub pc: u16,
    /// The delay timer.
    pub delay: u8,
    /// The sound timer.
    pub sound: u8,
    /// The state of the pseudo-random byte generator.
    pub rng: u64,
}

impl Chip8View {
    /// The structural invariant: every buffer has its architectural size and
    /// the stack is within capacity.
    pub open spec fn wf(self) -> bool {
        &&& self.mem.len() == CHIP8_MEMORY_SIZE_BYTES
        &&& self.screen.len() == SCREEN_WIDTH_PIXELS * SCREEN_HEIGHT_PIXELS
        &&& self.v.len() == 16
        &&& self.stack.len() <= STACK_SIZE
    }
}

/// 16-bit addition that wraps modulo 2^16, as the program counter and the
/// address register do.
pub open spec fn wrap_add16(a: u16, b: u16) -> u16 {
    ((a + b) % 0x1_0000) as u16
}

/// One step of the pseudo-random generator: a linear congruential step
/// modulo 2^64.
pub open spec fn next_rng(state: u64) -> u64 {
    ((state * 0x5851_F42D_4C95_7F2D + 0x1405_7B7E_F767_814F) % 0x1_0000_0000_0000_0000) as u64
}

/// The pseudo-random byte drawn after stepping the generator from `state`:
/// the high byte of the new state.
pub open spec fn rng_byte(state: u64) -> u8 {
    (next_rng(state) >> 56) as u8
}

/// The lowest key index that was down in the previous snapshot and is up in
/// the current one, scanning from `i`; `None` if no key at or after `i` has
/// such a falling edge.
pub open spec fn falling_edge_from(prev: Seq<bool>, cur: Seq<bool>, i: int) -> Option<u8>
    decreases 16 - i,
{
    if i < 0 || i >= 16 {
        None
    } else if prev[i] && !cur[i] {
        Some(i as u8)
    } else {
        falling_edge_from(prev, cur, i + 1)
    }
}

/// The lowest key index with a falling edge between the two snapshots.
pub open spec fn first_falling_edge(prev: Seq<bool>, cur: Seq<bool>) -> Option<u8> {
    falling_edge_from(prev, cur, 0)
}

/// Error produced when executing a decoded instruction fails.
#[derive(Clone, Copy, Debug, PartialEq, Eq, Structural)]
pub enum ExecuteError {
    /// A `0NNN` instruction attempted to call a machine-code subroutine,
    /// which this machine never supports.
    UnknownMachineSubroutine { nnn: u16 },
    /// A `Return` was executed with nothing on the call stack.
    EmptyStackReturn,
    /// A `Call` was executed with the call stack already at capacity.
    StackOverflow,
    /// A `DrawSprite` would read sprite bytes beyond the end of memory.
    SpriteMemoryOverflow { index: u16, len: u8 },
    /// A store or load of `len` bytes at `index` would run beyond the end of
    /// memory.
    MemoryOverflow { index: u16, len: u8 },
    /// A key instruction consulted a register holding a value outside the 16
    /// keys.
    KeyOutOfRange { key: u8 },
}

/// Error produced by `cycle`: either the fetched word failed to decode, or
/// the decoded instruction failed to execute.
#[derive(Clone, Copy, Debug, PartialEq, Eq, Structural)]
pub enum CycleError {
    /// The fetched word matches no instruction encoding.
    DecodeError(DecodeError),
    /// The decoded instruction could not be executed.
    ExecuteError(ExecuteError),
}

/// `pre` with the program counter advanced past one instruction.
pub open spec fn step_pc(pre: Chip8View) -> Chip8View {
    Chip8View { pc: wrap_add16(pre.pc, 2), ..pre }
}

/// `pre` with the program counter advanced past this instruction and, when
/// `cond` holds, past the following one too.
pub open spec fn skip_pc(pre: Chip8View, cond: bool) -> Chip8View {
    Chip8View {
        pc: if cond {
            wrap_add16(pre.pc, 4)
        } else {
            wrap_add16(pre.pc, 2)
        },
        ..pre
    }
}

/// `pre` with register `idx` set to `value`.
pub open spec fn set_v(pre: Chip8View, idx: int, value: u8) -> Chip8View {
    Chip8View { v: pre.v.update(idx, value), ..pre }
}

/// The effect of `DrawSprite`: the `n` sprite bytes at `I` are XOR-drawn at
/// `(VX, VY)` and `VF` records the collision; reading past the end of memory
/// is an error.
pub open spec fn spec_draw_sprite_inst(pre: Chip8View, vx: u8, vy: u8, n: u8) -> Result<
    Chip8View,
    ExecuteError,
> {
    if pre.i + n > CHIP8_MEMORY_SIZE_BYTES {
        Err(ExecuteError::SpriteMemoryOverflow { index: pre.i, len: n })
    } else {
        let sprite = pre.mem.subrange(pre.i as int, pre.i + n);
        let coll = spec_draw_collision(pre.screen, pre.v[vx as int], pre.v[vy as int], sprite);
        Ok(
            step_pc(
                Chip8View {
                    screen: spec_draw(pre.screen, pre.v[vx as int], pre.v[vy as int], sprite),
                    v: pre.v.update(
                        0xf,
                        if coll {
                            1u8
                        } else {
                            0u8
                        },
                    ),
                    ..pre
                },
            ),
        )
    }
}

/// The effect of `StoreBCD`: the decimal digits of `VX` are stored at `I`,
/// `I + 1` and `I + 2`; running past the end of memory is an error.
pub open spec fn spec_store_bcd(pre: Chip8View, vx: u8) -> Result<Chip8View, ExecuteError> {
    if pre.i + 3 > CHIP8_MEMORY_SIZE_BYTES {
        Err(ExecuteError::MemoryOverflow { index: pre.i, len: 3 })
    } else {
        let value = pre.v[vx as int];
        Ok(
            step_pc(
                Chip8View {
                    mem: pre.mem.update(pre.i as int, ((value / 100) % 10) as u8).update(
                        pre.i + 1,
                        ((value / 10) % 10) as u8,
                    ).update(pre.i + 2, (value % 10) as u8),
                    ..pre
                },
            ),
        )
    }
}

/// The effect of `StoreRegisters`: `V0..=VX` are stored at `I` and `I`
/// advances by `X + 1`; running past the end of memory is an error.
pub open spec fn spec_store_registers(pre: Chip8View, vx: u8) -> Result<Chip8View, ExecuteError> {
    if pre.i + vx >= CHIP8_MEMORY_SIZE_BYTES {
        Err(ExecuteError::MemoryOverflow { index: pre.i, len: (vx + 1) as u8 })
    } else {
        Ok(
            step_pc(
                Chip8View {
                    mem: Seq::new(
                        CHIP8_MEMORY_SIZE_BYTES as nat,
                        |k: int|
                            if pre.i <= k <= pre.i + vx {
                                pre.v[k - pre.i]
                            } else {
                                pre.mem[k]
                            },
                    ),
                    i: (pre.i + vx + 1) as u16,
                    ..pre
                },
            ),
        )
    }
}

/// The effect of `LoadRegisters`: `V0..=VX` are filled from `I` and `I`
/// advances by `X + 1`; running past the end of memory is an error.
pub open spec fn spec_load_registers(pre: Chip8View, vx: u8) -> Result<Chip8View, ExecuteError> {
    if pre.i + vx >= CHIP8_MEMORY_SIZE_BYTES {
        Err(ExecuteError::MemoryOverflow { index: pre.i, len: (vx + 1) as u8 })
    } else {
        Ok(
            step_pc(
                Chip8View {
                    v: Seq::new(
                        16,
                        |k: int|
                            if 0 <= k <= vx {
                                pre.mem[pre.i + k]
                            } else {
                                pre.v[k]
                            },
                    ),
                    i: (pre.i + vx + 1) as u16,
                    ..pre
                },
            ),
        )
    }
}

/// The effect of `LoadRandom`: the generator steps once and `VX` receives
/// its output byte masked with `nn`.
pub open spec fn spec_load_random(pre: Chip8View, vx: u8, nn: u8) -> Chip8View {
    step_pc(
        Chip8View {
            v: pre.v.update(vx as int, rng_byte(pre.rng) & nn),
            rng: next_rng(pre.rng),
            ..pre
        },
    )
}

/// The effect of `WaitForKey`: if some key has a falling edge between the
/// snapshots, the lowest such key lands in `VX` and the program counter
/// advances; otherwise nothing changes and the instruction is refetched next
/// cycle.
pub open spec fn spec_wait_for_key(
    pre: Chip8View,
    vx: u8,
    keys: Seq<bool>,
    prev: Seq<bool>,
) -> Chip8View {
    match first_falling_edge(prev, keys) {
        Some(k) => step_pc(set_v(pre, vx as int, k)),
        None => pre,
    }
}

/// The exact effect of executing one decoded instruction on the machine
/// state, given the current and previous keyboard snapshots: either the next
/// state, or a typed error, in which case the state is unchanged.
///
/// The conventions the architecture mandates are all here: 8-bit wraparound
/// with carry in `VF` for add, inverted borrow polarity for the subtracts,
/// shifts that read `VY` and leave it unchanged, anchor-wrapped edge-clipped
/// XOR sprite drawing, and a key wait that completes only on a falling edge
/// between the two snapshots.
pub open spec fn spec_execute(
    pre: Chip8View,
    inst: Inst,
    keys: Seq<bool>,
    prev: Seq<bool>,
) -> Result<Chip8View, ExecuteError> {
    match inst {
        Inst::Exe { nnn } => Err(ExecuteError::UnknownMachineSubroutine { nnn }),
        Inst::Clear => Ok(step_pc(Chip8View { screen: blank_screen(), ..pre })),
        Inst::Return => if pre.stack.len() == 0 {
            Err(ExecuteError::EmptyStackReturn)
        } else {
            Ok(
                Chip8View {
                    pc: wrap_add16(pre.stack.last(), 2),
                    stack: pre.stack.drop_last(),
                    ..pre
                },
            )
        },
        Inst::Jump { nnn } => Ok(Chip8View { pc: nnn, ..pre }),
        Inst::Call { nnn } => if pre.stack.len() >= STACK_SIZE {
            Err(ExecuteError::StackOverflow)
        } else {
            Ok(Chip8View { stack: pre.stack.push(pre.pc), pc: nnn, ..pre })
        },
        Inst::SkipEqualValue { vx, nn } => Ok(skip_pc(pre, pre.v[vx as int] == nn)),
        Inst::SkipNotEqualValue { vx, nn } => Ok(skip_pc(pre, pre.v[vx as int] != nn)),
        Inst::SkipEqualRegister { vx, vy } => Ok(
            skip_pc(pre, pre.v[vx as int] == pre.v[vy as int]),
        ),
        Inst::LoadValue { vx, nn } => Ok(step_pc(set_v(pre, vx as int, nn))),
        Inst::AddValue { vx, nn } => Ok(
            step_pc(set_v(pre, vx as int, ((pre.v[vx as int] + nn) % 256) as u8)),
        ),
        Inst::LoadRegister { vx, vy } => Ok(step_pc(set_v(pre, vx as int, pre.v[vy as int]))),
        Inst::Or { vx, vy } => Ok(
            step_pc(set_v(pre, vx as int, pre.v[vx as int] | pre.v[vy as int])),
        ),
        Inst::And { vx, vy } => Ok(
            step_pc(set_v(pre, vx as int, pre.v[vx as int] & pre.v[vy as int])),
        ),
        Inst::Xor { vx, vy } => Ok(
            step_pc(set_v(pre, vx as int, pre.v[vx as int] ^ pre.v[vy as int])),
        ),
        Inst::AddRegister { vx, vy } => {
            let sum = pre.v[vx as int] + pre.v[vy as int];
            let carry: u8 = if sum > 255 {
                1
            } else {
                0
            };
            Ok(step_pc(set_v(set_v(pre, 0xf, carry), vx as int, (sum % 256) as u8)))
        },
        Inst::SubRegisterXY { vx, vy } => {
            let a = pre.v[vx as int];
            let b = pre.v[vy as int];
            let no_borrow: u8 = if a >= b {
                1
            } else {
                0
            };
            Ok(step_pc(set_v(set_v(pre, 0xf, no_borrow), vx as int, ((a - b) % 256) as u8)))
        },
        Inst::ShiftRight { vx, vy } => {
            let b = pre.v[vy as int];
            Ok(step_pc(set_v(set_v(pre, vx as int, b >> 1), 0xf, b & 1)))
        },
        Inst::SubRegisterYX { vx, vy } => {
            let a = pre.v[vx as int];
            let b = pre.v[vy as int];
            let no_borrow: u8 = if b >= a {
                1
            } else {
                0
            };
            Ok(step_pc(set_v(set_v(pre, 0xf, no_borrow), vx as int, ((b - a) % 256) as u8)))
        },
        Inst::ShiftLeft { vx, vy } => {
            let b = pre.v[vy as int];
            Ok(step_pc(set_v(set_v(pre, vx as int, ((b << 1) & 0xff) as u8), 0xf, (b & 0x80) >> 7)))
        },
        Inst::SkipNotEqualRegister { vx, vy } => Ok(
            skip_pc(pre, pre.v[vx as int] != pre.v[vy as int]),
        ),
        Inst::LoadIntoI { nnn } => Ok(step_pc(Chip8View { i: nnn, ..pre })),
        Inst::JumpAdd { nnn } => Ok(Chip8View { pc: (nnn + pre.v[0]) as u16, ..pre }),
        Inst::LoadRandom { vx, nn } => Ok(spec_load_random(pre, vx, nn)),
        Inst::DrawSprite { vx, vy, n } => spec_draw_sprite_inst(pre, vx, vy, n),
        Inst::SkipIfKey { vx } => if pre.v[vx as int] >= 16 {
            Err(ExecuteError::KeyOutOfRange { key: pre.v[vx as int] })
        } else {
            Ok(skip_pc(pre, keys[pre.v[vx as int] as int]))
        },
        Inst::SkipIfNotKey { vx } => if pre.v[vx as int] >= 16 {
            Err(ExecuteError::KeyOutOfRange { key: pre.v[vx as int] })
        } else {
            Ok(skip_pc(pre, !keys[pre.v[vx as int] as int]))
        },
        Inst::LoadDelay { vx } => Ok(step_pc(set_v(pre, vx as int, pre.delay))),
        Inst::WaitForKey { vx } => Ok(spec_wait_for_key(pre, vx, keys, prev)),
        Inst::SetDelay { vx } => Ok(step_pc(Chip8View { delay: pre.v[vx as int], ..pre })),
        Inst::SetSound { vx } => Ok(step_pc(Chip8View { sound: pre.v[vx as int], ..pre })),
        Inst::AddToI { vx } => Ok(
            step_pc(Chip8View { i: wrap_add16(pre.i, pre.v[vx as int] as u16), ..pre }),
        ),
        Inst::LoadDigitSpriteAddrIntoI { vx } => Ok(
            step_pc(
                Chip8View { i: (SPRITES_OFFSET_BYTES + (pre.v[vx as int] & 0x0f) * 5) as u16, ..pre },
            ),
        ),
        Inst::StoreBCD { vx } => spec_store_bcd(pre, vx),
        Inst::StoreRegisters { vx } => spec_store_registers(pre, vx),
        Inst::LoadRegisters { vx } => spec_load_registers(pre, vx),
    }
}

/// The effect of one 60 Hz timer tick: each timer counts down by one and
/// stops at zero; nothing else moves.
pub open spec fn spec_update_timers(pre: Chip8View) -> Chip8View {
    Chip8View {
        delay: if pre.delay > 0 {
            (pre.delay - 1) as u8
        } else {
            0
        },
        sound: if pre.sound > 0 {
            (pre.sound - 1) as u8
        } else {
            0
        },
        ..pre
    }
}

/// The machine after `n` timer ticks.
pub open spec fn spec_tick_n(pre: Chip8View, n: nat) -> Chip8View
    decreases n,
{
    if n == 0 {
        pre
    } else {
        spec_update_timers(spec_tick_n(pre, (n - 1) as nat))
    }
}

/// The exact effect of one whole cycle: fetch the big-endian word at the
/// program counter, decode it, execute it. Each stage's failure is surfaced
/// as a typed error with the state unchanged.
pub open spec fn spec_cycle(pre: Chip8View, keys: Seq<bool>, prev: Seq<bool>) -> Result<
    Chip8View,
    CycleError,
> {
    if pre.pc + 1 >= CHIP8_MEMORY_SIZE_BYTES {
        Err(CycleError::ExecuteError(ExecuteError::MemoryOverflow { index: pre.pc, len: 2 }))
    } else {
        let word = ((pre.mem[pre.pc as int] as u16) << 8) | (pre.mem[pre.pc as int + 1] as u16);
        match spec_decode(word) {
            Err(e) => Err(CycleError::DecodeError(e)),
            Ok(inst) => match spec_execute(pre, inst, keys, prev) {
                Ok(s) => Ok(s),
                Err(e) => Err(CycleError::ExecuteError(e)),
            },
        }
    }
}

/// The whole machine: memory, screen, registers, stack, program counter,
/// timers and the pseudo-random generator state.
pub struct Chip8 {
    memory: Chip8Memory,
    screen: Chip8Screen,
    /// general purpose registers
    v_reg: Vec<u8>,
    /// memory address register
    i_reg: u16,
    stack: Vec<u16>,
    /// program counter
    pc: u16,
    delay_timer: u8,
    sound_timer: u8,
    rng_state: u64,
}

impl View for Chip8 {
    type V = Chip8View;

    closed spec fn view(&self) -> Chip8View {
        Chip8View {
            mem: self.memory@,
            screen: self.screen@,
            v: self.v_reg@,
            i: self.i_reg,
            stack: self.stack@,
            pc: self.pc,
            delay: self.delay_timer,
            sound: self.sound_timer,
            rng: self.rng_state,
        }
    }
}

impl Chip8 {
    /// The machine's structural invariant, preserved by every operation.
    pub open spec fn wf(&self) -> bool {
        self@.wf()
    }

    /// Create a machine with the font and `program` loaded, the program
    /// counter at the program's base address, cleared screen, zeroed
    /// registers and timers, an empty call stack and the default random
    /// seed; or report that the program does not fit in memory.
    pub fn new(program: &[u8]) -> (r: Result<Chip8, MemoryError>)
        ensures
            program@.len() <= CHIP8_MEMORY_SIZE_BYTES - PROGRAM_OFFSET_BYTES ==> (r matches Ok(c)
                && c.wf() && c@ == (Chip8View {
                mem: initial_memory(program@),
                screen: blank_screen(),
                v: Seq::new(16, |k: int| 0u8),
                i: 0,
                stack: Seq::<u16>::empty(),
                pc: PROGRAM_OFFSET_BYTES as u16,
                delay: 0,
                sound: 0,
                rng: DEFAULT_RNG_SEED,
            })),
            program@.len() > CHIP8_MEMORY_SIZE_BYTES - PROGRAM_OFFSET_BYTES ==> r == Err::<
                Chip8,
                MemoryError,
            >(MemoryError::DoesNotFit { offset: PROGRAM_OFFSET_BYTES, len: program@.len() as usize }),
    {
        let memory = match Chip8Memory::new(program) {
            Ok(m) => m,
            Err(e) => {
                return Err(e);
            },
        };
        let mut v_reg: Vec<u8> = Vec::new();
        let mut k: usize = 0;
        while k < 16
            invariant
                k <= 16,
                v_reg@.len() == k,
                forall|j: int| 0 <= j < k ==> v_reg@[j] == 0u8,
            decreases 16 - k,
        {
            v_reg.push(0);
            k += 1;
        }
        proof {
            assert(v_reg@ =~= Seq::new(16, |j: int| 0u8));
        }
        let c = Chip8 {
            memory,
            screen: Chip8Screen::new(),
            v_reg,
            i_reg: 0,
            stack: Vec::new(),
            pc: PROGRAM_OFFSET_BYTES as u16,
            delay_timer: 0,
            sound_timer: 0,
            rng_state: DEFAULT_RNG_SEED,
        };
        Ok(c)
    }

    /// Advance the machine by one cycle using the given current and previous
    /// keyboard snapshots; the exact effect, including every failure, is
    /// `spec_cycle` of the state before the call.
    ///
    /// `update_timers` must still be called 60 times per realtime second.
    pub fn cycle(
        &mut self,
        keyboard_state: &[bool; 16],
        previous_keyboard_state: &[bool; 16],
    ) -> (r: Result<(), CycleError>)
        requires
            old(self).wf(),
        ensures
            final(self).wf(),
            (match spec_cycle(old(self)@, keyboard_state@, previous_keyboard_state@) {
                Ok(s) => r is Ok && final(self)@ == s,
                Err(e) => r == Err::<(), CycleError>(e) && final(self)@ == old(self)@,
            }),
    {
        if self.pc as usize >= CHIP8_MEMORY_SIZE_BYTES - 1 {
            return Err(
                CycleError::ExecuteError(ExecuteError::MemoryOverflow { index: self.pc, len: 2 }),
            );
        }
        let instruction_bytes = self.get_instruction();
        let instruction = match decode(instruction_bytes) {
            Ok(inst) => inst,
            Err(err) => {
                return Err(CycleError::DecodeError(err));
            },
        };
        proof {
            crate::instruction::lemma_decode_total(instruction_bytes);
        }
        match self.execute_instruction(instruction, keyboard_state, previous_keyboard_state) {
            Err(err) => Err(CycleError::ExecuteError(err)),
            Ok(()) => Ok(()),
        }
    }

    /// Tick both timers down by one, stopping at zero. Must be called 60
    /// times per realtime second, independently of how often `cycle` runs.
    pub fn update_timers(&mut self)
        requires
            old(self).wf(),
        ensures
            final(self).wf(),
            final(self)@ == spec_update_timers(old(self)@),
    {
        if self.delay_timer > 0 {
            self.delay_timer = self.delay_timer - 1;
        }
        if self.sound_timer > 0 {
            self.sound_timer = self.sound_timer - 1;
        }
    }

    /// Whether the speaker is playing: the sound timer is at least 2.
    pub fn is_sound_playing(&self) -> (r: bool)
        ensures
            r == (self@.sound >= 2),
    {
        self.sound_timer >= 2
    }

    /// The screen, for the host to read between cycles.
    pub fn get_screen(&self) -> (r: &Chip8Screen)
        ensures
            r@ == self@.screen,
    {
        &self.screen
    }

    /// The value of general-purpose register `index`.
    pub fn get_register(&self, index: u8) -> (r: u8)
        requires
            self.wf(),
            index < 16,
        ensures
            r == self@.v[index as int],
    {
        self.v_reg[index as usize]
    }

    /// The current program counter.
    pub fn get_pc(&self) -> (r: u16)
        ensures
            r == self@.pc,
    {
        self.pc
    }

    /// Reseed the pseudo-random byte generator, for reproducible runs.
    pub fn set_random_seed(&mut self, seed: u64)
        requires
            old(self).wf(),
        ensures
            final(self).wf(),
            final(self)@ == (Chip8View { rng: seed, ..old(self)@ }),
    {
        self.rng_state = seed;
    }
}

impl Chip8 {
    /// Fetch the big-endian instruction word at the program counter.
    fn get_instruction(&self) -> (r: u16)
        requires
            self.wf(),
            self@.pc + 1 < CHIP8_MEMORY_SIZE_BYTES,
        ensures
            r == ((self@.mem[self@.pc as int] as u16) << 8) | (self@.mem[self@.pc as int
                + 1] as u16),
    {
        let pc = self.pc as usize;
        ((self.memory.read_byte(pc) as u16) << 8) | (self.memory.read_byte(pc + 1) as u16)
    }

    /// Draw the `n`-byte sprite at address `I` at `(VX, VY)` and set the
    /// collision flag, or report that the sprite bytes run past the end of
    /// memory.
    fn exec_draw_sprite(&mut self, vx: u8, vy: u8, n: u8) -> (r: Result<(), ExecuteError>)
        requires
            old(self).wf(),
            vx < 16,
            vy < 16,
        ensures
            final(self).wf(),
            (match spec_draw_sprite_inst(old(self)@, vx, vy, n) {
                Ok(s) => r is Ok && final(self)@ == s,
                Err(e) => r == Err::<(), ExecuteError>(e) && final(self)@ == old(self)@,
            }),
    {
        if self.i_reg as usize + n as usize > CHIP8_MEMORY_SIZE_BYTES {
            return Err(ExecuteError::SpriteMemoryOverflow { index: self.i_reg, len: n });
        }
        let sprite = self.memory.read_bytes(self.i_reg as usize, n as usize);
        let collision = self.screen.draw_sprite(
            self.v_reg[vx as usize],
            self.v_reg[vy as usize],
            sprite.as_slice(),
        );
        self.v_reg[0xf] = if collision {
            1
        } else {
            0
        };
        self.pc = self.pc.wrapping_add(2);
        Ok(())
    }

    /// Store the decimal digits of `VX` at `I`, `I + 1` and `I + 2`, or
    /// report that the three bytes run past the end of memory.
    fn exec_store_bcd(&mut self, vx: u8) -> (r: Result<(), ExecuteError>)
        requires
            old(self).wf(),
            vx < 16,
        ensures
            final(self).wf(),
            (match spec_store_bcd(old(self)@, vx) {
                Ok(s) => r is Ok && final(self)@ == s,
                Err(e) => r == Err::<(), ExecuteError>(e) && final(self)@ == old(self)@,
            }),
    {
        if self.i_reg as usize + 3 > CHIP8_MEMORY_SIZE_BYTES {
            return Err(ExecuteError::MemoryOverflow { index: self.i_reg, len: 3 });
        }
        let value = self.v_reg[vx as usize];
        let ones = value % 10;
        let tens = (value / 10) % 10;
        let hundreds = (value / 100) % 10;
        let base = self.i_reg as usize;
        self.memory.write_byte(base, hundreds);
        self.memory.write_byte(base + 1, tens);
        self.memory.write_byte(base + 2, ones);
        self.pc = self.pc.wrapping_add(2);
        Ok(())
    }

    /// Store `V0..=VX` at `I` and advance `I` by `X + 1`, or report that the
    /// block runs past the end of memory.
    fn exec_store_registers(&mut self, vx: u8) -> (r: Result<(), ExecuteError>)
        requires
            old(self).wf(),
            vx < 16,
        ensures
            final(self).wf(),
            (match spec_store_registers(old(self)@, vx) {
                Ok(s) => r is Ok && final(self)@ == s,
                Err(e) => r == Err::<(), ExecuteError>(e) && final(self)@ == old(self)@,
            }),
    {
        let ghost pre = self@;
        if self.i_reg as usize + vx as usize >= CHIP8_MEMORY_SIZE_BYTES {
            return Err(ExecuteError::MemoryOverflow { index: self.i_reg, len: vx + 1 });
        }
        let regs = slice_subrange(self.v_reg.as_slice(), 0, vx as usize + 1);
        let base = self.i_reg as usize;
        match self.memory.load_bytes(base, regs) {
            Ok(()) => {},
            Err(_) => {
                // The bounds check above rules a failed load out.
                proof {
                    assert(false);
                }
            },
        }
        self.i_reg = self.i_reg + vx as u16 + 1;
        self.pc = self.pc.wrapping_add(2);
        proof {
            assert(self.memory@ =~= Seq::new(
                CHIP8_MEMORY_SIZE_BYTES as nat,
                |k: int|
                    if pre.i <= k <= pre.i + vx {
                        pre.v[k - pre.i]
                    } else {
                        pre.mem[k]
                    },
            ));
        }
        Ok(())
    }

    /// Load `V0..=VX` from `I` and advance `I` by `X + 1`, or report that
    /// the block runs past the end of memory.
    fn exec_load_registers(&mut self, vx: u8) -> (r: Result<(), ExecuteError>)
        requires
            old(self).wf(),
            vx < 16,
        ensures
            final(self).wf(),
            (match spec_load_registers(old(self)@, vx) {
                Ok(s) => r is Ok && final(self)@ == s,
                Err(e) => r == Err::<(), ExecuteError>(e) && final(self)@ == old(self)@,
            }),
    {
        let ghost pre = self@;
        if self.i_reg as usize + vx as usize >= CHIP8_MEMORY_SIZE_BYTES {
            return Err(ExecuteError::MemoryOverflow { index: self.i_reg, len: vx + 1 });
        }
        let base = self.i_reg as usize;
        proof {
            assert(pre.v =~= Seq::new(
                16,
                |j: int|
                    if 0 <= j < 0 {
                        pre.mem[pre.i + j]
                    } else {
                        pre.v[j]
                    },
            ));
        }
        let mut k: usize = 0;
        while k <= vx as usize
            invariant
                pre.wf(),
                vx < 16,
                k <= vx as usize + 1,
                base == pre.i,
                base + vx < CHIP8_MEMORY_SIZE_BYTES,
                self@ == (Chip8View {
                    v: Seq::new(
                        16,
                        |j: int|
                            if 0 <= j < k {
                                pre.mem[pre.i + j]
                            } else {
                                pre.v[j]
                            },
                    ),
                    ..pre
                }),
            decreases vx as usize + 1 - k,
        {
            let byte = self.memory.read_byte(base + k);
            self.v_reg[k] = byte;
            proof {
                assert(self@.v =~= Seq::new(
                    16,
                    |j: int|
                        if 0 <= j < k + 1 {
                            pre.mem[pre.i + j]
                        } else {
                            pre.v[j]
                        },
                ));
            }
            k += 1;
        }
        self.i_reg = self.i_reg + vx as u16 + 1;
        self.pc = self.pc.wrapping_add(2);
        proof {
            assert(self@.v =~= Seq::new(
                16,
                |j: int|
                    if 0 <= j <= vx {
                        pre.mem[pre.i + j]
                    } else {
                        pre.v[j]
                    },
            ));
        }
        Ok(())
    }

    /// Step the pseudo-random generator and store its output byte, masked
    /// with `nn`, in `VX`.
    fn exec_load_random(&mut self, vx: u8, nn: u8)
        requires
            old(self).wf(),
            vx < 16,
        ensures
            final(self).wf(),
            final(self)@ == spec_load_random(old(self)@, vx, nn),
    {
        let ghost pre = self@;
        let next = self.rng_state.wrapping_mul(RNG_MULTIPLIER).wrapping_add(RNG_INCREMENT);
        proof {
            assert(next == (pre.rng * RNG_MULTIPLIER + RNG_INCREMENT) % 0x1_0000_0000_0000_0000)
                by {
                assert(next == ((pre.rng * RNG_MULTIPLIER) % 0x1_0000_0000_0000_0000
                    + RNG_INCREMENT) % 0x1_0000_0000_0000_0000);
                assert(((pre.rng * RNG_MULTIPLIER) % 0x1_0000_0000_0000_0000 + RNG_INCREMENT)
                    % 0x1_0000_0000_0000_0000 == (pre.rng * RNG_MULTIPLIER + RNG_INCREMENT)
                    % 0x1_0000_0000_0000_0000) by (nonlinear_arith);
            }
            assert(next == next_rng(pre.rng));
        }
        self.rng_state = next;
        self.v_reg[vx as usize] = ((next >> 56) as u8) & nn;
        self.pc = self.pc.wrapping_add(2);
    }

    /// Complete a key wait if some key shows a falling edge between the two
    /// snapshots: store the lowest such key in `VX` and advance; otherwise
    /// leave the state untouched so the instruction is refetched.
    fn exec_wait_for_key(
        &mut self,
        vx: u8,
        keyboard_state: &[bool; 16],
        previous_keyboard_state: &[bool; 16],
    )
        requires
            old(self).wf(),
            vx < 16,
        ensures
            final(self).wf(),
            final(self)@ == spec_wait_for_key(
                old(self)@,
                vx,
                keyboard_state@,
                previous_keyboard_state@,
            ),
    {
        let mut i: usize = 0;
        while i < 16 && !(previous_keyboard_state[i] && !keyboard_state[i])
            invariant
                i <= 16,
                first_falling_edge(previous_keyboard_state@, keyboard_state@)
                    == falling_edge_from(previous_keyboard_state@, keyboard_state@, i as int),
            decreases 16 - i,
        {
            i += 1;
        }
        if i < 16 {
            self.v_reg[vx as usize] = i as u8;
            self.pc = self.pc.wrapping_add(2);
            proof {
                assert(first_falling_edge(previous_keyboard_state@, keyboard_state@) == Some(
                    i as u8,
                ));
            }
        } else {
            proof {
                assert(first_falling_edge(previous_keyboard_state@, keyboard_state@) is None);
            }
        }
    }

    /// Execute one decoded instruction against the machine state; the exact
    /// effect, including every failure, is `spec_execute` of the state
    /// before the call.
    pub fn execute_instruction(
        &mut self,
        instruction: Inst,
        keyboard_state: &[bool; 16],
        previous_keyboard_state: &[bool; 16],
    ) -> (r: Result<(), ExecuteError>)
        requires
            old(self).wf(),
            instruction.wf(),
        ensures
            final(self).wf(),
            (match spec_execute(
                old(self)@,
                instruction,
                keyboard_state@,
                previous_keyboard_state@,
            ) {
                Ok(s) => r is Ok && final(self)@ == s,
                Err(e) => r == Err::<(), ExecuteError>(e) && final(self)@ == old(self)@,
            }),
    {
        match instruction {
            Inst::Exe { .. } | Inst::Clear | Inst::Return | Inst::Jump { .. } | Inst::Call {
                ..
            } | Inst::SkipEqualValue { .. } | Inst::SkipNotEqualValue { .. }
                | Inst::SkipEqualRegister { .. } | Inst::SkipNotEqualRegister { .. }
                | Inst::SkipIfKey { .. } | Inst::SkipIfNotKey { .. } | Inst::JumpAdd { .. } => self
                .execute_control_flow(instruction, keyboard_state, previous_keyboard_state),
            Inst::LoadValue { .. } | Inst::AddValue { .. } | Inst::LoadRegister { .. } | Inst::Or {
                ..
            } | Inst::And { .. } | Inst::Xor { .. } | Inst::AddRegister { .. }
                | Inst::SubRegisterXY { .. } | Inst::ShiftRight { .. } | Inst::SubRegisterYX {
                ..
            } | Inst::ShiftLeft { .. } | Inst::LoadIntoI { .. } | Inst::LoadDelay { .. }
                | Inst::SetDelay { .. } | Inst::SetSound { .. } | Inst::AddToI { .. }
                | Inst::LoadDigitSpriteAddrIntoI { .. } => self.execute_register_ops(
                instruction,
                keyboard_state,
                previous_keyboard_state,
            ),
            Inst::LoadRandom { vx, nn } => {
                self.exec_load_random(vx, nn);
                Ok(())
            },
            Inst::DrawSprite { vx, vy, n } => self.exec_draw_sprite(vx, vy, n),
            Inst::WaitForKey { vx } => {
                self.exec_wait_for_key(vx, keyboard_state, previous_keyboard_state);
                Ok(())
            },
            Inst::StoreBCD { vx } => self.exec_store_bcd(vx),
            Inst::StoreRegisters { vx } => self.exec_store_registers(vx),
            Inst::LoadRegisters { vx } => self.exec_load_registers(vx),
        }
    }

    /// Execute the control-flow and skip instructions: machine subroutine,
    /// clear, return, jumps, call, and the conditional skips.
    #[verifier::rlimit(100)]
    fn execute_control_flow(
        &mut self,
        instruction: Inst,
        keyboard_state: &[bool; 16],
        previous_keyboard_state: &[bool; 16],
    ) -> (r: Result<(), ExecuteError>)
        requires
            old(self).wf(),
            instruction.wf(),
            instruction matches Inst::Exe { .. } || instruction matches Inst::Clear || instruction
                matches Inst::Return || instruction matches Inst::Jump { .. } || instruction
                matches Inst::Call { .. } || instruction matches Inst::SkipEqualValue { .. }
                || instruction matches Inst::SkipNotEqualValue { .. } || instruction
                matches Inst::SkipEqualRegister { .. } || instruction
                matches Inst::SkipNotEqualRegister { .. } || instruction matches Inst::SkipIfKey {
                ..
            } || instruction matches Inst::SkipIfNotKey { .. } || instruction
                matches Inst::JumpAdd { .. },
        ensures
            final(self).wf(),
            (match spec_execute(
                old(self)@,
                instruction,
                keyboard_state@,
                previous_keyboard_state@,
            ) {
                Ok(s) => r is Ok && final(self)@ == s,
                Err(e) => r == Err::<(), ExecuteError>(e) && final(self)@ == old(self)@,
            }),
    {
        match instruction {
            Inst::Exe { nnn } => Err(ExecuteError::UnknownMachineSubroutine { nnn }),
            Inst::Clear => {
                self.screen.clear();
                self.pc = self.pc.wrapping_add(2);
                Ok(())
            },
            Inst::Return => {
                if self.stack.len() == 0 {
                    return Err(ExecuteError::EmptyStackReturn);
                }
                let addr = match self.stack.pop() {
                    Some(a) => a,
                    None => {
                        // The emptiness check above rules this out.
                        proof {
                            assert(false);
                        }
                        0
                    },
                };
                self.pc = addr.wrapping_add(2);
                Ok(())
            },
            Inst::Jump { nnn } => {
                self.pc = nnn;
                Ok(())
            },
            Inst::Call { nnn } => {
                if self.stack.len() >= STACK_SIZE {
                    return Err(ExecuteError::StackOverflow);
                }
                self.stack.push(self.pc);
                self.pc = nnn;
                Ok(())
            },
            Inst::SkipEqualValue { vx, nn } => {
                if self.v_reg[vx as usize] == nn {
                    self.pc = self.pc.wrapping_add(4);
                } else {
                    self.pc = self.pc.wrapping_add(2);
                }
                Ok(())
            },
            Inst::SkipNotEqualValue { vx, nn } => {
                if self.v_reg[vx as usize] != nn {
                    self.pc = self.pc.wrapping_add(4);
                } else {
                    self.pc = self.pc.wrapping_add(2);
                }
                Ok(())
            },
            Inst::SkipEqualRegister { vx, vy } => {
                if self.v_reg[vx as usize] == self.v_reg[vy as usize] {
                    self.pc = self.pc.wrapping_add(4);
                } else {
                    self.pc = self.pc.wrapping_add(2);
                }
                Ok(())
            },
            Inst::SkipNotEqualRegister { vx, vy } => {
                if self.v_reg[vx as usize] != self.v_reg[vy as usize] {
                    self.pc = self.pc.wrapping_add(4);
                } else {
                    self.pc = self.pc.wrapping_add(2);
                }
                Ok(())
            },
            Inst::SkipIfKey { vx } => {
                let key = self.v_reg[vx as usize];
                if key >= 16 {
                    return Err(ExecuteError::KeyOutOfRange { key });
                }
                if keyboard_state[key as usize] {
                    self.pc = self.pc.wrapping_add(4);
                } else {
                    self.pc = self.pc.wrapping_add(2);
                }
                Ok(())
            },
            Inst::SkipIfNotKey { vx } => {
                let key = self.v_reg[vx as usize];
                if key >= 16 {
                    return Err(ExecuteError::KeyOutOfRange { key });
                }
                if !keyboard_state[key as usize] {
                    self.pc = self.pc.wrapping_add(4);
                } else {
                    self.pc = self.pc.wrapping_add(2);
                }
                Ok(())
            },
            Inst::JumpAdd { nnn } => {
                self.pc = nnn + self.v_reg[0] as u16;
                Ok(())
            },
            _ => {
                // The requires admit only this family of instructions, so
                // this arm is unreachable.
                proof {
                    assert(false);
                }
                Err(ExecuteError::EmptyStackReturn)
            },
        }
    }

    /// Execute the instructions that only move or combine register, timer
    /// and address-register values.
    #[verifier::rlimit(100)]
    fn execute_register_ops(
        &mut self,
        instruction: Inst,
        keyboard_state: &[bool; 16],
        previous_keyboard_state: &[bool; 16],
    ) -> (r: Result<(), ExecuteError>)
        requires
            old(self).wf(),
            instruction.wf(),
            instruction matches Inst::LoadValue { .. } || instruction matches Inst::AddValue {
                ..
            } || instruction matches Inst::LoadRegister { .. } || instruction matches Inst::Or {
                ..
            } || instruction matches Inst::And { .. } || instruction matches Inst::Xor { .. }
                || instruction matches Inst::AddRegister { .. } || instruction
                matches Inst::SubRegisterXY { .. } || instruction matches Inst::ShiftRight { .. }
                || instruction matches Inst::SubRegisterYX { .. } || instruction
                matches Inst::ShiftLeft { .. } || instruction matches Inst::LoadIntoI { .. }
                || instruction matches Inst::LoadDelay { .. } || instruction
                matches Inst::SetDelay { .. } || instruction matches Inst::SetSound { .. }
                || instruction matches Inst::AddToI { .. } || instruction
                matches Inst::LoadDigitSpriteAddrIntoI { .. },
        ensures
            final(self).wf(),
            (match spec_execute(
                old(self)@,
                instruction,
                keyboard_state@,
                previous_keyboard_state@,
            ) {
                Ok(s) => r is Ok && final(self)@ == s,
                Err(e) => r == Err::<(), ExecuteError>(e) && final(self)@ == old(self)@,
            }),
    {
        match instruction {
            Inst::LoadValue { vx, nn } => {
                self.v_reg[vx as usize] = nn;
                self.pc = self.pc.wrapping_add(2);
                Ok(())
            },
            Inst::AddValue { vx, nn } => {
                self.v_reg[vx as usize] = self.v_reg[vx as usize].wrapping_add(nn);
                self.pc = self.pc.wrapping_add(2);
                Ok(())
            },
            Inst::LoadRegister { vx, vy } => {
                self.v_reg[vx as usize] = self.v_reg[vy as usize];
                self.pc = self.pc.wrapping_add(2);
                Ok(())
            },
            Inst::Or { vx, vy } => {
                self.v_reg[vx as usize] = self.v_reg[vx as usize] | self.v_reg[vy as usize];
                self.pc = self.pc.wrapping_add(2);
                Ok(())
            },
            Inst::And { vx, vy } => {
                self.v_reg[vx as usize] = self.v_reg[vx as usize] & self.v_reg[vy as usize];
                self.pc = self.pc.wrapping_add(2);
                Ok(())
            },
            Inst::Xor { vx, vy } => {
                self.v_reg[vx as usize] = self.v_reg[vx as usize] ^ self.v_reg[vy as usize];
                self.pc = self.pc.wrapping_add(2);
                Ok(())
            },
            Inst::AddRegister { vx, vy } => {
                let a = self.v_reg[vx as usize];
                let b = self.v_reg[vy as usize];
                self.v_reg[0xf] = if a as u16 + b as u16 > 255 {
                    1
                } else {
                    0
                };
                self.v_reg[vx as usize] = a.wrapping_add(b);
                self.pc = self.pc.wrapping_add(2);
                Ok(())
            },
            Inst::SubRegisterXY { vx, vy } => {
                let a = self.v_reg[vx as usize];
                let b = self.v_reg[vy as usize];
                self.v_reg[0xf] = if a >= b {
                    1
                } else {
                    0
                };
                self.v_reg[vx as usize] = a.wrapping_sub(b);
                self.pc = self.pc.wrapping_add(2);
                Ok(())
            },
            Inst::ShiftRight { vx, vy } => {
                let b = self.v_reg[vy as usize];
                self.v_reg[vx as usize] = b >> 1;
                self.v_reg[0xf] = b & 1;
                self.pc = self.pc.wrapping_add(2);
                Ok(())
            },
            Inst::SubRegisterYX { vx, vy } => {
                let a = self.v_reg[vx as usize];
                let b = self.v_reg[vy as usize];
                self.v_reg[0xf] = if b >= a {
                    1
                } else {
                    0
                };
                self.v_reg[vx as usize] = b.wrapping_sub(a);
                self.pc = self.pc.wrapping_add(2);
                Ok(())
            },
            Inst::ShiftLeft { vx, vy } => {
                let b = self.v_reg[vy as usize];
                self.v_reg[vx as usize] = (b & 0x7f) << 1;
                self.v_reg[0xf] = (b & 0x80) >> 7;
                self.pc = self.pc.wrapping_add(2);
                proof {
                    assert((b & 0x7f) << 1 == (b << 1) & 0xff) by (bit_vector);
                }
                Ok(())
            },
            Inst::LoadIntoI { nnn } => {
                self.i_reg = nnn;
                self.pc = self.pc.wrapping_add(2);
                Ok(())
            },
            Inst::LoadDelay { vx } => {
                self.v_reg[vx as usize] = self.delay_timer;
                self.pc = self.pc.wrapping_add(2);
                Ok(())
            },
            Inst::SetDelay { vx } => {
                self.delay_timer = self.v_reg[vx as usize];
                self.pc = self.pc.wrapping_add(2);
                Ok(())
            },
            Inst::SetSound { vx } => {
                self.sound_timer = self.v_reg[vx as usize];
                self.pc = self.pc.wrapping_add(2);
                Ok(())
            },
            Inst::AddToI { vx } => {
                self.i_reg = self.i_reg.wrapping_add(self.v_reg[vx as usize] as u16);
                self.pc = self.pc.wrapping_add(2);
                Ok(())
            },
            Inst::LoadDigitSpriteAddrIntoI { vx } => {
                self.i_reg = SPRITES_OFFSET_BYTES as u16 + (self.v_reg[vx as usize] & 0x0f) as u16
                    * 5;
                self.pc = self.pc.wrapping_add(2);
                Ok(())
            },
            _ => {
                // The requires admit only this family of instructions, so
                // this arm is unreachable.
                proof {
                    assert(false);
                }
                Err(ExecuteError::EmptyStackReturn)
            },
        }
    }
}

proof fn lemma_no_edge_from(prev: Seq<bool>, cur: Seq<bool>, i: int)
    requires
        forall|j: int| i <= j < 16 ==> !(prev[j] && !cur[j]),
    ensures
        falling_edge_from(prev, cur, i) is None,
    decreases 16 - i,
{
    if 0 <= i < 16 {
        lemma_no_edge_from(prev, cur, i + 1);
    }
}

proof fn lemma_edge_from(prev: Seq<bool>, cur: Seq<bool>, i: int, k: int)
    requires
        0 <= i <= k < 16,
        prev[k] && !cur[k],
        forall|j: int| i <= j < k ==> !(prev[j] && !cur[j]),
    ensures
        falling_edge_from(prev, cur, i) == Some(k as u8),
    decreases k - i,
{
    if i < k {
        lemma_edge_from(prev, cur, i + 1, k);
    }
}

/// Law: the timers floor at zero: `n` ticks leave each timer at its old
/// value lowered by `n` and stopped at zero, so no run of `update_timers`
/// calls drives `delay` or `sound` below zero, and nothing but the two
/// timers moves.
pub proof fn lemma_timer_floor(s: Chip8View, n: nat)
    ensures
        spec_tick_n(s, n).delay == (if n >= s.delay {
            0u8
        } else {
            (s.delay - n) as u8
        }),
        spec_tick_n(s, n).sound == (if n >= s.sound {
            0u8
        } else {
            (s.sound - n) as u8
        }),
        spec_tick_n(s, n) == (Chip8View {
            delay: spec_tick_n(s, n).delay,
            sound: spec_tick_n(s, n).sound,
            ..s
        }),
    decreases n,
{
    if n > 0 {
        lemma_timer_floor(s, (n - 1) as nat);
    }
}

/// Law: a `Call` followed by a `Return` restores the program counter to the
/// instruction immediately after the call — the pushed address plus two,
/// wrapping — and leaves the call stack, registers, memory, screen and
/// timers exactly as they were before the call.
pub proof fn lemma_call_return_round_trip(s: Chip8View, nnn: u16, keys: Seq<bool>, prev: Seq<bool>)
    requires
        s.wf(),
        s.stack.len() < STACK_SIZE,
    ensures
        spec_execute(s, Inst::Call { nnn }, keys, prev) is Ok,
        ({
            let s1 = spec_execute(s, Inst::Call { nnn }, keys, prev)->Ok_0;
            &&& spec_execute(s1, Inst::Return, keys, prev) is Ok
            &&& spec_execute(s1, Inst::Return, keys, prev)->Ok_0 == (Chip8View {
                pc: wrap_add16(s.pc, 2),
                ..s
            })
        }),
{
    let s1 = spec_execute(s, Inst::Call { nnn }, keys, prev)->Ok_0;
    assert(s1.stack.last() == s.pc);
    assert(s1.stack.drop_last() =~= s.stack);
}

/// Law: a `Return` with an empty call stack fails with `EmptyStackReturn`;
/// by `execute_instruction`'s contract a failed instruction leaves the
/// machine, program counter and stack included, unchanged.
pub proof fn lemma_empty_stack_return(s: Chip8View, keys: Seq<bool>, prev: Seq<bool>)
    requires
        s.stack.len() == 0,
    ensures
        spec_execute(s, Inst::Return, keys, prev) == Err::<Chip8View, ExecuteError>(
            ExecuteError::EmptyStackReturn,
        ),
{
}

/// Law: a machine-language subroutine call fails for every address operand,
/// with `UnknownMachineSubroutine` carrying that address; by
/// `execute_instruction`'s contract the machine is left unchanged.
pub proof fn lemma_machine_subroutine_always_fails(
    s: Chip8View,
    nnn: u16,
    keys: Seq<bool>,
    prev: Seq<bool>,
)
    ensures
        spec_execute(s, Inst::Exe { nnn }, keys, prev) == Err::<Chip8View, ExecuteError>(
            ExecuteError::UnknownMachineSubroutine { nnn },
        ),
{
}

/// Law: a key wait over snapshots with no falling edge — no key down before
/// and up now — leaves the machine exactly as it was, program counter
/// included, so the same instruction is refetched on the next cycle.
pub proof fn lemma_wait_for_key_stalls(s: Chip8View, vx: u8, keys: Seq<bool>, prev: Seq<bool>)
    requires
        forall|i: int| 0 <= i < 16 ==> !(prev[i] && !keys[i]),
    ensures
        spec_execute(s, Inst::WaitForKey { vx }, keys, prev) == Ok::<Chip8View, ExecuteError>(s),
{
    lemma_no_edge_from(prev, keys, 0);
}

/// Law: when key `k` was down in the previous snapshot, is up in the current
/// one, and no lower key shows such a falling edge, the key wait completes
/// in this very cycle: `k` lands in `VX` and the program counter advances
/// past the instruction.
pub proof fn lemma_wait_for_key_completes(
    s: Chip8View,
    vx: u8,
    keys: Seq<bool>,
    prev: Seq<bool>,
    k: u8,
)
    requires
        s.wf(),
        vx < 16,
        k < 16,
        prev[k as int] && !keys[k as int],
        forall|j: int| 0 <= j < k ==> !(prev[j] && !keys[j]),
    ensures
        spec_execute(s, Inst::WaitForKey { vx }, keys, prev) == Ok::<Chip8View, ExecuteError>(
            Chip8View { v: s.v.update(vx as int, k), pc: wrap_add16(s.pc, 2), ..s },
        ),
{
    lemma_edge_from(prev, keys, 0, k as int);
}

} // verus!
