//! Instruction decoding: a pure function from a 16-bit big-endian word to one
//! of the machine's 35 tagged instructions, or a decode error for words that
//! fall outside every documented encoding.

use vstd::prelude::*;

verus! {

/// A decoded CHIP-8 instruction.
///
/// Each variant carries only the operand fields its opcode uses: `vx`/`vy` are
/// 4-bit register indices, `n` a 4-bit immediate, `nn` an 8-bit immediate and
/// `nnn` a 12-bit address.
#[derive(Clone, Copy, Debug, PartialEq, Eq, Structural)]
pub enum Inst {
    /// `0NNN`: call the machine-language subroutine at address `NNN`
    Exe { nnn: u16 },
    /// `00E0`: clear the screen
    Clear,
    /// `00EE`: return from a subroutine
    Return,
    /// `1NNN`: jump to address `NNN`
    Jump { nnn: u16 },
    /// `2NNN`: call the subroutine at address `NNN`
    Call { nnn: u16 },
    /// `3XNN`: skip the next instruction if `VX == NN`
    SkipEqualValue { vx: u8, nn: u8 },
    /// `4XNN`: skip the next instruction if `VX != NN`
    SkipNotEqualValue { vx: u8, nn: u8 },
    /// `5XY0`: skip the next instruction if `VX == VY`
    SkipEqualRegister { vx: u8, vy: u8 },
    /// `6XNN`: store `NN` in `VX`
    LoadValue { vx: u8, nn: u8 },
    /// `7XNN`: add `NN` to `VX`, wrapping, without touching the flag
    AddValue { vx: u8, nn: u8 },
    /// `8XY0`: store the value of `VY` in `VX`
    LoadRegister { vx: u8, vy: u8 },
    /// `8XY1`: set `VX` to `VX | VY`
    Or { vx: u8, vy: u8 },
    /// `8XY2`: set `VX` to `VX & VY`
    And { vx: u8, vy: u8 },
    /// `8XY3`: set `VX` to `VX ^ VY`
    Xor { vx: u8, vy: u8 },
    /// `8XY4`: add `VY` to `VX`; `VF` becomes 1 on carry, else 0
    AddRegister { vx: u8, vy: u8 },
    /// `8XY5`: set `VX` to `VX - VY`; `VF` becomes 0 on borrow, else 1
    SubRegisterXY { vx: u8, vy: u8 },
    /// `8XY6`: store `VY >> 1` in `VX`; `VF` receives `VY`'s old low bit
    ShiftRight { vx: u8, vy: u8 },
    /// `8XY7`: set `VX` to `VY - VX`; `VF` becomes 0 on borrow, else 1
    SubRegisterYX { vx: u8, vy: u8 },
    /// `8XYE`: store `VY << 1` in `VX`; `VF` receives `VY`'s old high bit
    ShiftLeft { vx: u8, vy: u8 },
    /// `9XY0`: skip the next instruction if `VX != VY`
    SkipNotEqualRegister { vx: u8, vy: u8 },
    /// `ANNN`: store address `NNN` in `I`
    LoadIntoI { nnn: u16 },
    /// `BNNN`: jump to address `NNN + V0`
    JumpAdd { nnn: u16 },
    /// `CXNN`: set `VX` to a pseudo-random byte masked with `NN`
    LoadRandom { vx: u8, nn: u8 },
    /// `DXYN`: draw the `N`-byte sprite at address `I` at position `(VX, VY)`;
    /// `VF` becomes 1 if any set pixel was turned off, else 0
    DrawSprite { vx: u8, vy: u8, n: u8 },
    /// `EX9E`: skip the next instruction if the key numbered `VX` is down
    SkipIfKey { vx: u8 },
    /// `EXA1`: skip the next instruction if the key numbered `VX` is up
    SkipIfNotKey { vx: u8 },
    /// `FX07`: store the delay timer in `VX`
    LoadDelay { vx: u8 },
    /// `FX0A`: wait for a key release and store the key number in `VX`
    WaitForKey { vx: u8 },
    /// `FX15`: set the delay timer to `VX`
    SetDelay { vx: u8 },
    /// `FX18`: set the sound timer to `VX`
    SetSound { vx: u8 },
    /// `FX1E`: add `VX` to `I`, wrapping
    AddToI { vx: u8 },
    /// `FX29`: point `I` at the built-in glyph sprite for the digit in `VX`
    LoadDigitSpriteAddrIntoI { vx: u8 },
    /// `FX33`: store the decimal digits of `VX` at `I`, `I + 1` and `I + 2`
    StoreBCD { vx: u8 },
    /// `FX55`: store `V0..=VX` at `I`; `I` advances by `X + 1`
    StoreRegisters { vx: u8 },
    /// `FX65`: load `V0..=VX` from `I`; `I` advances by `X + 1`
    LoadRegisters { vx: u8 },
}

/// Error produced by `decode` for words outside every documented encoding.
#[derive(Clone, Copy, Debug, PartialEq, Eq, Structural)]
pub enum DecodeError {
    /// The word matches no instruction encoding.
    UnknownInstruction { inst: u16 },
}

impl Inst {
    /// Every operand field lies within the width of its encoding: register
    /// indices and 4-bit immediates below 16, addresses below 4096.
    pub open spec fn wf(self) -> bool {
        match self {
            Inst::Exe { nnn } => nnn < 4096,
            Inst::Clear => true,
            Inst::Return => true,
            Inst::Jump { nnn } => nnn < 4096,
            Inst::Call { nnn } => nnn < 4096,
            Inst::SkipEqualValue { vx, nn } => vx < 16,
            Inst::SkipNotEqualValue { vx, nn } => vx < 16,
            Inst::SkipEqualRegister { vx, vy } => vx < 16 && vy < 16,
            Inst::LoadValue { vx, nn } => vx < 16,
            Inst::AddValue { vx, nn } => vx < 16,
            Inst::LoadRegister { vx, vy } => vx < 16 && vy < 16,
            Inst::Or { vx, vy } => vx < 16 && vy < 16,
            Inst::And { vx, vy } => vx < 16 && vy < 16,
            Inst::Xor { vx, vy } => vx < 16 && vy < 16,
            Inst::AddRegister { vx, vy } => vx < 16 && vy < 16,
            Inst::SubRegisterXY { vx, vy } => vx < 16 && vy < 16,
            Inst::ShiftRight { vx, vy } => vx < 16 && vy < 16,
            Inst::SubRegisterYX { vx, vy } => vx < 16 && vy < 16,
            Inst::ShiftLeft { vx, vy } => vx < 16 && vy < 16,
            Inst::SkipNotEqualRegister { vx, vy } => vx < 16 && vy < 16,
            Inst::LoadIntoI { nnn } => nnn < 4096,
            Inst::JumpAdd { nnn } => nnn < 4096,
            Inst::LoadRandom { vx, nn } => vx < 16,
            Inst::DrawSprite { vx, vy, n } => vx < 16 && vy < 16 && n < 16,
            Inst::SkipIfKey { vx } => vx < 16,
            Inst::SkipIfNotKey { vx } => vx < 16,
            Inst::LoadDelay { vx } => vx < 16,
            Inst::WaitForKey { vx } => vx < 16,
            Inst::SetDelay { vx } => vx < 16,
            Inst::SetSound { vx } => vx < 16,
            Inst::AddToI { vx } => vx < 16,
            Inst::LoadDigitSpriteAddrIntoI { vx } => vx < 16,
            Inst::StoreBCD { vx } => vx < 16,
            Inst::StoreRegisters { vx } => vx < 16,
            Inst::LoadRegisters { vx } => vx < 16,
        }
    }
}

/// The meaning of `decode`: which instruction, if any, a 16-bit word encodes.
///
/// The word's high nibble selects the opcode family; families `0x0`, `0x8`,
/// `0xE` and `0xF` dispatch further on the low byte or low nibble. Any word
/// within a recognized family whose sub-opcode is unmapped decodes to
/// `UnknownInstruction`. A family-`0x0` word other than exactly `0x00E0` and
/// `0x00EE` decodes to the machine-subroutine call `Exe`, a structurally
/// valid instruction whose failure surfaces only at execution.
pub open spec fn spec_decode(inst: u16) -> Result<Inst, DecodeError> {
    let vx = ((inst & 0x0f00) >> 8) as u8;
    let vy = ((inst & 0x00f0) >> 4) as u8;
    let n = (inst & 0x000f) as u8;
    let nn = (inst & 0x00ff) as u8;
    let nnn = inst & 0x0fff;
    match inst & 0xf000 {
        0x0000 => match inst {
            0x00e0 => Ok(Inst::Clear),
            0x00ee => Ok(Inst::Return),
            _ => Ok(Inst::Exe { nnn }),
        },
        0x1000 => Ok(Inst::Jump { nnn }),
        0x2000 => Ok(Inst::Call { nnn }),
        0x3000 => Ok(Inst::SkipEqualValue { vx, nn }),
        0x4000 => Ok(Inst::SkipNotEqualValue { vx, nn }),
        0x5000 => if inst & 0x000f == 0 {
            Ok(Inst::SkipEqualRegister { vx, vy })
        } else {
            Err(DecodeError::UnknownInstruction { inst })
        },
        0x6000 => Ok(Inst::LoadValue { vx, nn }),
        0x7000 => Ok(Inst::AddValue { vx, nn }),
        0x8000 => match inst & 0x000f {
            0x0000 => Ok(Inst::LoadRegister { vx, vy }),
            0x0001 => Ok(Inst::Or { vx, vy }),
            0x0002 => Ok(Inst::And { vx, vy }),
            0x0003 => Ok(Inst::Xor { vx, vy }),
            0x0004 => Ok(Inst::AddRegister { vx, vy }),
            0x0005 => Ok(Inst::SubRegisterXY { vx, vy }),
            0x0006 => Ok(Inst::ShiftRight { vx, vy }),
            0x0007 => Ok(Inst::SubRegisterYX { vx, vy }),
            0x000e => Ok(Inst::ShiftLeft { vx, vy }),
            _ => Err(DecodeError::UnknownInstruction { inst }),
        },
        0x9000 => if inst & 0x000f == 0 {
            Ok(Inst::SkipNotEqualRegister { vx, vy })
        } else {
            Err(DecodeError::UnknownInstruction { inst })
        },
        0xa000 => Ok(Inst::LoadIntoI { nnn }),
        0xb000 => Ok(Inst::JumpAdd { nnn }),
        0xc000 => Ok(Inst::LoadRandom { vx, nn }),
        0xd000 => Ok(Inst::DrawSprite { vx, vy, n }),
        0xe000 => match inst & 0x00ff {
            0x009e => Ok(Inst::SkipIfKey { vx }),
            0x00a1 => Ok(Inst::SkipIfNotKey { vx }),
            _ => Err(DecodeError::UnknownInstruction { inst }),
        },
        _ => match inst & 0x00ff {
            0x0007 => Ok(Inst::LoadDelay { vx }),
            0x000a => Ok(Inst::WaitForKey { vx }),
            0x0015 => Ok(Inst::SetDelay { vx }),
            0x0018 => Ok(Inst::SetSound { vx }),
            0x001e => Ok(Inst::AddToI { vx }),
            0x0029 => Ok(Inst::LoadDigitSpriteAddrIntoI { vx }),
            0x0033 => Ok(Inst::StoreBCD { vx }),
            0x0055 => Ok(Inst::StoreRegisters { vx }),
            0x0065 => Ok(Inst::LoadRegisters { vx }),
            _ => Err(DecodeError::UnknownInstruction { inst }),
        },
    }
}

/// Decode a 16-bit word into an instruction, or report the word as unknown.
pub fn decode(inst: u16) -> (r: Result<Inst, DecodeError>)
    ensures
        r == spec_decode(inst),
{
    let vx = ((inst & 0x0f00) >> 8) as u8;
    let vy = ((inst & 0x00f0) >> 4) as u8;
    let n = (inst & 0x000f) as u8;
    let nn = (inst & 0x00ff) as u8;
    let nnn = inst & 0x0fff;
    match inst & 0xf000 {
        0x0000 => match inst {
            0x00e0 => Ok(Inst::Clear),
            0x00ee => Ok(Inst::Return),
            _ => Ok(Inst::Exe { nnn }),
        },
        0x1000 => Ok(Inst::Jump { nnn }),
        0x2000 => Ok(Inst::Call { nnn }),
        0x3000 => Ok(Inst::SkipEqualValue { vx, nn }),
        0x4000 => Ok(Inst::SkipNotEqualValue { vx, nn }),
        0x5000 => if inst & 0x000f == 0 {
            Ok(Inst::SkipEqualRegister { vx, vy })
        } else {
            Err(DecodeError::UnknownInstruction { inst })
        },
        0x6000 => Ok(Inst::LoadValue { vx, nn }),
        0x7000 => Ok(Inst::AddValue { vx, nn }),
        0x8000 => match inst & 0x000f {
            0x0000 => Ok(Inst::LoadRegister { vx, vy }),
            0x0001 => Ok(Inst::Or { vx, vy }),
            0x0002 => Ok(Inst::And { vx, vy }),
            0x0003 => Ok(Inst::Xor { vx, vy }),
            0x0004 => Ok(Inst::AddRegister { vx, vy }),
            0x0005 => Ok(Inst::SubRegisterXY { vx, vy }),
            0x0006 => Ok(Inst::ShiftRight { vx, vy }),
            0x0007 => Ok(Inst::SubRegisterYX { vx, vy }),
            0x000e => Ok(Inst::ShiftLeft { vx, vy }),
            _ => Err(DecodeError::UnknownInstruction { inst }),
        },
        0x9000 => if inst & 0x000f == 0 {
            Ok(Inst::SkipNotEqualRegister { vx, vy })
        } else {
            Err(DecodeError::UnknownInstruction { inst })
        },
        0xa000 => Ok(Inst::LoadIntoI { nnn }),
        0xb000 => Ok(Inst::JumpAdd { nnn }),
        0xc000 => Ok(Inst::LoadRandom { vx, nn }),
        0xd000 => Ok(Inst::DrawSprite { vx, vy, n }),
        0xe000 => match inst & 0x00ff {
            0x009e => Ok(Inst::SkipIfKey { vx }),
            0x00a1 => Ok(Inst::SkipIfNotKey { vx }),
            _ => Err(DecodeError::UnknownInstruction { inst }),
        },
        _ => match inst & 0x00ff {
            0x0007 => Ok(Inst::LoadDelay { vx }),
            0x000a => Ok(Inst::WaitForKey { vx }),
            0x0015 => Ok(Inst::SetDelay { vx }),
            0x0018 => Ok(Inst::SetSound { vx }),
            0x001e => Ok(Inst::AddToI { vx }),
            0x0029 => Ok(Inst::LoadDigitSpriteAddrIntoI { vx }),
            0x0033 => Ok(Inst::StoreBCD { vx }),
            0x0055 => Ok(Inst::StoreRegisters { vx }),
            0x0065 => Ok(Inst::LoadRegisters { vx }),
            _ => Err(DecodeError::UnknownInstruction { inst }),
        },
    }
}

/// Decoding is total and pins the error: every 16-bit word decodes to either
/// a single instruction or to `UnknownInstruction` carrying that very word,
/// and every decoded instruction's operand fields are within their encodings.
pub proof fn lemma_decode_total(inst: u16)
    ensures
        spec_decode(inst) is Err ==> spec_decode(inst) == Err::<Inst, DecodeError>(
            DecodeError::UnknownInstruction { inst },
        ),
        spec_decode(inst) is Ok ==> spec_decode(inst)->Ok_0.wf(),
{
    assert(((inst & 0x0f00) >> 8) < 16) by (bit_vector);
    assert(((inst & 0x00f0) >> 4) < 16) by (bit_vector);
    assert((inst & 0x000f) < 16) by (bit_vector);
    assert((inst & 0x0fff) < 4096) by (bit_vector);
}

} // verus!
