use vstd::prelude::*;
use crate::utils::{get_first_n_nibbles, get_nth_nibble, nibble, pow16};

verus! {

/// One decoded instruction. `x` and `y` name registers, `nn` is an
/// immediate byte, `n` a sprite height and `addr` a 12-bit address.
#[derive(Debug, Clone, Copy, PartialEq, Eq, Structural)]
pub enum Instruction {
    /// `00E0`: clear the framebuffer.
    ClearScreen,
    /// `00EE`: return from a subroutine.
    Return,
    /// `1NNN`: jump to `addr`.
    Jump { addr: u16 },
    /// `2NNN`: call the subroutine at `addr`.
    Call { addr: u16 },
    /// `3XNN`: skip the next instruction if `Vx == nn`.
    SkipIfEqual { x: u8, nn: u8 },
    /// `4XNN`: skip the next instruction if `Vx != nn`.
    SkipIfNotEqual { x: u8, nn: u8 },
    /// `5XY0`: skip the next instruction if `Vx == Vy`.
    SkipIfRegistersEqual { x: u8, y: u8 },
    /// `6XNN`: `Vx := nn`.
    Load { x: u8, nn: u8 },
    /// `7XNN`: `Vx := Vx + nn` modulo 256, `VF` untouched.
    AddConst { x: u8, nn: u8 },
    /// `8XY0`: `Vx := Vy`.
    Copy { x: u8, y: u8 },
    /// `8XY1`: `Vx := Vx | Vy`.
    Or { x: u8, y: u8 },
    /// `8XY2`: `Vx := Vx & Vy`.
    And { x: u8, y: u8 },
    /// `8XY3`: `Vx := Vx ^ Vy`.
    Xor { x: u8, y: u8 },
    /// `8XY4`: `Vx := Vx + Vy` modulo 256, then `VF` := carry.
    Add { x: u8, y: u8 },
    /// `8XY5`: `Vx := Vx - Vy` modulo 256, then `VF` := no borrow.
    Sub { x: u8, y: u8 },
    /// `8X_6`: `VF := Vx & 1`, then `Vx := Vx >> 1`.
    ShiftRight { x: u8 },
    /// `8XY7`: `Vx := Vy - Vx` modulo 256, then `VF` := no borrow.
    SubReverse { x: u8, y: u8 },
    /// `8X_E`: `VF` := top bit of `Vx`, then `Vx := Vx << 1` modulo 256.
    ShiftLeft { x: u8 },
    /// `9XY0`: skip the next instruction if `Vx != Vy`.
    SkipIfRegistersNotEqual { x: u8, y: u8 },
    /// `ANNN`: `I := addr`.
    SetIndex { addr: u16 },
    /// `BNNN`: jump to `V0 + addr`.
    JumpOffset { addr: u16 },
    /// `CXNN`: `Vx :=` a random byte `& nn`.
    Random { x: u8, nn: u8 },
    /// `DXYN`: draw an `n`-row sprite at `(Vx, Vy)`.
    Draw { x: u8, y: u8, n: u8 },
    /// `EX9E`: skip the next instruction if the key `Vx` is pressed.
    SkipIfKeyPressed { x: u8 },
    /// `EXA1`: skip the next instruction if the key `Vx` is released.
    SkipIfKeyReleased { x: u8 },
    /// `FX07`: `Vx :=` delay timer.
    LoadDelayTimer { x: u8 },
    /// `FX0A`: wait for a key press and store the key in `Vx`.
    WaitForKey { x: u8 },
    /// `FX15`: delay timer `:= Vx`.
    SetDelayTimer { x: u8 },
    /// `FX18`: sound timer `:= Vx`.
    SetSoundTimer { x: u8 },
    /// `FX1E`: `I := I + Vx` modulo 2^16.
    AddToIndex { x: u8 },
    /// `FX29`: `I := Vx * 5`, the glyph of digit `Vx` in the font.
    LoadFontChar { x: u8 },
    /// `FX33`: store the three decimal digits of `Vx` at `I`, `I+1`, `I+2`.
    StoreBcd { x: u8 },
    /// `FX55`: store `V0..=Vx` in memory from `I` on.
    StoreRegisters { x: u8 },
    /// `FX65`: load `V0..=Vx` from memory from `I` on.
    LoadRegisters { x: u8 },
}

/// The instruction that the four nibbles `[a, b, c, d]` (most significant
/// first) spell, with the low byte `nn` and the low twelve bits `addr`;
/// `None` where they match no pattern.
pub open spec fn instruction_of(a: int, b: int, c: int, d: int, nn: u8, addr: u16) -> Option<
    Instruction,
> {
    let x = b as u8;
    let y = c as u8;
    if a == 0 && b == 0 && c == 0xE && d == 0 {
        Some(Instruction::ClearScreen)
    } else if a == 0 && b == 0 && c == 0xE && d == 0xE {
        Some(Instruction::Return)
    } else if a == 1 {
        Some(Instruction::Jump { addr })
    } else if a == 2 {
        Some(Instruction::Call { addr })
    } else if a == 3 {
        Some(Instruction::SkipIfEqual { x, nn })
    } else if a == 4 {
        Some(Instruction::SkipIfNotEqual { x, nn })
    } else if a == 5 && d == 0 {
        Some(Instruction::SkipIfRegistersEqual { x, y })
    } else if a == 6 {
        Some(Instruction::Load { x, nn })
    } else if a == 7 {
        Some(Instruction::AddConst { x, nn })
    } else if a == 8 && d == 0 {
        Some(Instruction::Copy { x, y })
    } else if a == 8 && d == 1 {
        Some(Instruction::Or { x, y })
    } else if a == 8 && d == 2 {
        Some(Instruction::And { x, y })
    } else if a == 8 && d == 3 {
        Some(Instruction::Xor { x, y })
    } else if a == 8 && d == 4 {
        Some(Instruction::Add { x, y })
    } else if a == 8 && d == 5 {
        Some(Instruction::Sub { x, y })
    } else if a == 8 && d == 6 {
        Some(Instruction::ShiftRight { x })
    } else if a == 8 && d == 7 {
        Some(Instruction::SubReverse { x, y })
    } else if a == 8 && d == 0xE {
        Some(Instruction::ShiftLeft { x })
    } else if a == 9 && d == 0 {
        Some(Instruction::SkipIfRegistersNotEqual { x, y })
    } else if a == 0xA {
        Some(Instruction::SetIndex { addr })
    } else if a == 0xB {
        Some(Instruction::JumpOffset { addr })
    } else if a == 0xC {
        Some(Instruction::Random { x, nn })
    } else if a == 0xD {
        Some(Instruction::Draw { x, y, n: d as u8 })
    } else if a == 0xE && c == 9 && d == 0xE {
        Some(Instruction::SkipIfKeyPressed { x })
    } else if a == 0xE && c == 0xA && d == 1 {
        Some(Instruction::SkipIfKeyReleased { x })
    } else if a == 0xF && c == 0 && d == 7 {
        Some(Instruction::LoadDelayTimer { x })
    } else if a == 0xF && c == 0 && d == 0xA {
        Some(Instruction::WaitForKey { x })
    } else if a == 0xF && c == 1 && d == 5 {
        Some(Instruction::SetDelayTimer { x })
    } else if a == 0xF && c == 1 && d == 8 {
        Some(Instruction::SetSoundTimer { x })
    } else if a == 0xF && c == 1 && d == 0xE {
        Some(Instruction::AddToIndex { x })
    } else if a == 0xF && c == 2 && d == 9 {
        Some(Instruction::LoadFontChar { x })
    } else if a == 0xF && c == 3 && d == 3 {
        Some(Instruction::StoreBcd { x })
    } else if a == 0xF && c == 5 && d == 5 {
        Some(Instruction::StoreRegisters { x })
    } else if a == 0xF && c == 6 && d == 5 {
        Some(Instruction::LoadRegisters { x })
    } else {
        None
    }
}

/// The instruction that the 16-bit word `op` encodes, if any.
pub open spec fn decode_spec(op: u16) -> Option<Instruction> {
    instruction_of(
        nibble(op, 3),
        nibble(op, 2),
        nibble(op, 1),
        nibble(op, 0),
        (op % 256) as u8,
        (op % 4096) as u16,
    )
}

impl Instruction {
    /// Register numbers are nibbles, a sprite is at most fifteen rows high,
    /// and an address has twelve bits.
    pub open spec fn wf(self) -> bool {
        match self {
            Instruction::Jump { addr } => addr < 4096,
            Instruction::Call { addr } => addr < 4096,
            Instruction::SetIndex { addr } => addr < 4096,
            Instruction::JumpOffset { addr } => addr < 4096,
            Instruction::SkipIfEqual { x, .. } => x < 16,
            Instruction::SkipIfNotEqual { x, .. } => x < 16,
            Instruction::Load { x, .. } => x < 16,
            Instruction::AddConst { x, .. } => x < 16,
            Instruction::Random { x, .. } => x < 16,
            Instruction::SkipIfRegistersEqual { x, y } => x < 16 && y < 16,
            Instruction::Copy { x, y } => x < 16 && y < 16,
            Instruction::Or { x, y } => x < 16 && y < 16,
            Instruction::And { x, y } => x < 16 && y < 16,
            Instruction::Xor { x, y } => x < 16 && y < 16,
            Instruction::Add { x, y } => x < 16 && y < 16,
            Instruction::Sub { x, y } => x < 16 && y < 16,
            Instruction::SubReverse { x, y } => x < 16 && y < 16,
            Instruction::SkipIfRegistersNotEqual { x, y } => x < 16 && y < 16,
            Instruction::Draw { x, y, n } => x < 16 && y < 16 && n < 16,
            Instruction::ShiftRight { x } => x < 16,
            Instruction::ShiftLeft { x } => x < 16,
            Instruction::SkipIfKeyPressed { x } => x < 16,
            Instruction::SkipIfKeyReleased { x } => x < 16,
            Instruction::LoadDelayTimer { x } => x < 16,
            Instruction::WaitForKey { x } => x < 16,
            Instruction::SetDelayTimer { x } => x < 16,
            Instruction::SetSoundTimer { x } => x < 16,
            Instruction::AddToIndex { x } => x < 16,
            Instruction::LoadFontChar { x } => x < 16,
            Instruction::StoreBcd { x } => x < 16,
            Instruction::StoreRegisters { x } => x < 16,
            Instruction::LoadRegisters { x } => x < 16,
            Instruction::ClearScreen => true,
            Instruction::Return => true,
        }
    }
}

/// The word spelled by the nibbles `[a, b, c, d]`, most significant first,
/// decodes by exactly those nibbles.
pub proof fn lemma_decode_nibbles(a: int, b: int, c: int, d: int)
    requires
        0 <= a < 16,
        0 <= b < 16,
        0 <= c < 16,
        0 <= d < 16,
    ensures
        decode_spec((a * 4096 + b * 256 + c * 16 + d) as u16) == instruction_of(
            a,
            b,
            c,
            d,
            (c * 16 + d) as u8,
            (b * 256 + c * 16 + d) as u16,
        ),
{
    let op = a * 4096 + b * 256 + c * 16 + d;
    assert(pow16(0) == 1);
    assert(pow16(1) == 16);
    assert(pow16(2) == 256);
    assert(pow16(3) == 4096);
    assert(op / 4096 == a && op / 256 == a * 16 + b && op / 16 == a * 256 + b * 16 + c) by (nonlinear_arith)
        requires
            op == a * 4096 + b * 256 + c * 16 + d,
            0 <= a < 16,
            0 <= b < 16,
            0 <= c < 16,
            0 <= d < 16,
    ;
    assert(op % 256 == c * 16 + d && op % 4096 == b * 256 + c * 16 + d) by (nonlinear_arith)
        requires
            op == a * 4096 + b * 256 + c * 16 + d,
            0 <= a < 16,
            0 <= b < 16,
            0 <= c < 16,
            0 <= d < 16,
    ;
    assert((a * 16 + b) % 16 == b && (a * 256 + b * 16 + c) % 16 == c && op % 16 == d) by (nonlinear_arith)
        requires
            op == a * 4096 + b * 256 + c * 16 + d,
            0 <= a < 16,
            0 <= b < 16,
            0 <= c < 16,
            0 <= d < 16,
    ;
}

/// Decodes the 16-bit word `op`: `None` where it matches no instruction.
pub fn decode(op: u16) -> (r: Option<Instruction>)
    ensures
        r == decode_spec(op),
        r matches Some(ins) ==> ins.wf(),
{
    let a = get_nth_nibble(op, 3);
    let b = get_nth_nibble(op, 2);
    let c = get_nth_nibble(op, 1);
    let d = get_nth_nibble(op, 0);
    let nn = get_first_n_nibbles(op, 2);
    let addr = get_first_n_nibbles(op, 3);
    proof {
        assert(pow16(1) == 16);
        assert(pow16(2) == 256);
        assert(pow16(3) == 4096);
    }
    let nn = nn as u8;
    let x = b as u8;
    let y = c as u8;
    let r = match (a, b, c, d) {
        (0, 0, 0xE, 0) => Some(Instruction::ClearScreen),
        (0, 0, 0xE, 0xE) => Some(Instruction::Return),
        (1, _, _, _) => Some(Instruction::Jump { addr }),
        (2, _, _, _) => Some(Instruction::Call { addr }),
        (3, _, _, _) => Some(Instruction::SkipIfEqual { x, nn }),
        (4, _, _, _) => Some(Instruction::SkipIfNotEqual { x, nn }),
        (5, _, _, 0) => Some(Instruction::SkipIfRegistersEqual { x, y }),
        (6, _, _, _) => Some(Instruction::Load { x, nn }),
        (7, _, _, _) => Some(Instruction::AddConst { x, nn }),
        (8, _, _, 0) => Some(Instruction::Copy { x, y }),
        (8, _, _, 1) => Some(Instruction::Or { x, y }),
        (8, _, _, 2) => Some(Instruction::And { x, y }),
        (8, _, _, 3) => Some(Instruction::Xor { x, y }),
        (8, _, _, 4) => Some(Instruction::Add { x, y }),
        (8, _, _, 5) => Some(Instruction::Sub { x, y }),
        (8, _, _, 6) => Some(Instruction::ShiftRight { x }),
        (8, _, _, 7) => Some(Instruction::SubReverse { x, y }),
        (8, _, _, 0xE) => Some(Instruction::ShiftLeft { x }),
        (9, _, _, 0) => Some(Instruction::SkipIfRegistersNotEqual { x, y }),
        (0xA, _, _, _) => Some(Instruction::SetIndex { addr }),
        (0xB, _, _, _) => Some(Instruction::JumpOffset { addr }),
        (0xC, _, _, _) => Some(Instruction::Random { x, nn }),
        (0xD, _, _, _) => Some(Instruction::Draw { x, y, n: d as u8 }),
        (0xE, _, 9, 0xE) => Some(Instruction::SkipIfKeyPressed { x }),
        (0xE, _, 0xA, 1) => Some(Instruction::SkipIfKeyReleased { x }),
        (0xF, _, 0, 7) => Some(Instruction::LoadDelayTimer { x }),
        (0xF, _, 0, 0xA) => Some(Instruction::WaitForKey { x }),
        (0xF, _, 1, 5) => Some(Instruction::SetDelayTimer { x }),
        (0xF, _, 1, 8) => Some(Instruction::SetSoundTimer { x }),
        (0xF, _, 1, 0xE) => Some(Instruction::AddToIndex { x }),
        (0xF, _, 2, 9) => Some(Instruction::LoadFontChar { x }),
        (0xF, _, 3, 3) => Some(Instruction::StoreBcd { x }),
        (0xF, _, 5, 5) => Some(Instruction::StoreRegisters { x }),
        (0xF, _, 6, 5) => Some(Instruction::LoadRegisters { x }),
        _ => None,
    };
    r
}

} // verus!
