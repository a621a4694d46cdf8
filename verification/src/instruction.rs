//! The instruction set and its encoding in two-byte words.

use vstd::prelude::*;

verus! {

/// One decoded instruction. `x` and `y` name registers, `kk` is a byte
/// operand, `addr` a twelve-bit address and `n` a sprite height.
#[derive(Clone, Copy, Debug, PartialEq, Eq, Structural)]
pub enum Instruction {
    /// `00E0`: clear the display.
    ClearScreen,
    /// `00EE`: return from a subroutine.
    Return,
    /// `1nnn`: jump to `addr`.
    Jump { addr: u16 },
    /// `2nnn`: call the subroutine at `addr`.
    Call { addr: u16 },
    /// `3xkk`: skip the next instruction if `Vx == kk`.
    SkipEqByte { x: u8, kk: u8 },
    /// `4xkk`: skip the next instruction if `Vx != kk`.
    SkipNeByte { x: u8, kk: u8 },
    /// `5xy0`: skip the next instruction if `Vx == Vy`.
    SkipEqReg { x: u8, y: u8 },
    /// `6xkk`: `Vx = kk`.
    LoadByte { x: u8, kk: u8 },
    /// `7xkk`: `Vx = Vx + kk`, wrapping, flag untouched.
    AddByte { x: u8, kk: u8 },
    /// `8xy0`: `Vx = Vy`.
    Move { x: u8, y: u8 },
    /// `8xy1`: `Vx = Vx | Vy`, flag reset.
    Or { x: u8, y: u8 },
    /// `8xy2`: `Vx = Vx & Vy`, flag reset.
    And { x: u8, y: u8 },
    /// `8xy3`: `Vx = Vx ^ Vy`, flag reset.
    Xor { x: u8, y: u8 },
    /// `8xy4`: `Vx = Vx + Vy`, flag set on carry.
    AddReg { x: u8, y: u8 },
    /// `8xy5`: `Vx = Vx - Vy`, flag cleared on borrow.
    SubReg { x: u8, y: u8 },
    /// `8xy6`: `Vx = Vy >> 1`, flag takes the bit shifted out.
    ShiftRight { x: u8, y: u8 },
    /// `8xy7`: `Vx = Vy - Vx`, flag cleared on borrow.
    SubFrom { x: u8, y: u8 },
    /// `8xyE`: `Vx = Vy << 1`, flag takes the bit shifted out.
    ShiftLeft { x: u8, y: u8 },
    /// `9xy0`: skip the next instruction if `Vx != Vy`.
    SkipNeReg { x: u8, y: u8 },
    /// `Annn`: `I = addr`.
    LoadIndex { addr: u16 },
    /// `Bnnn`: jump to `addr + V0`.
    JumpOffset { addr: u16 },
    /// `Cxkk`: `Vx = random byte & kk`.
    Random { x: u8, kk: u8 },
    /// `Dxyn`: draw an `n`-row sprite at `(Vx, Vy)`.
    Draw { x: u8, y: u8, n: u8 },
    /// `Ex9E`: skip the next instruction if key `Vx` is down.
    SkipKey { x: u8 },
    /// `ExA1`: skip the next instruction if key `Vx` is up.
    SkipNoKey { x: u8 },
    /// `Fx07`: `Vx = delay timer`.
    ReadDelay { x: u8 },
    /// `Fx0A`: wait for a key release and store the key in `Vx`.
    WaitKey { x: u8 },
    /// `Fx15`: `delay timer = Vx`.
    SetDelay { x: u8 },
    /// `Fx18`: `sound timer = Vx`.
    SetSound { x: u8 },
    /// `Fx1E`: `I = I + Vx`.
    AddIndex { x: u8 },
    /// `Fx29`: `I` = address of the glyph for the low digit of `Vx`.
    FontAddr { x: u8 },
    /// `Fx33`: store the decimal digits of `Vx` at `I`, `I+1`, `I+2`.
    StoreBcd { x: u8 },
    /// `Fx55`: store `V0..=Vx` at `I`.
    StoreRegs { x: u8 },
    /// `Fx65`: load `V0..=Vx` from `I`.
    LoadRegs { x: u8 },
}

impl Instruction {
    /// Register numbers and the sprite height are below 16, addresses below 4096.
    pub open spec fn wf(self) -> bool {
        match self {
            Instruction::ClearScreen | Instruction::Return => true,
            Instruction::Jump { addr }
            | Instruction::Call { addr }
            | Instruction::LoadIndex { addr }
            | Instruction::JumpOffset { addr } => addr < 0x1000,
            Instruction::SkipEqByte { x, .. }
            | Instruction::SkipNeByte { x, .. }
            | Instruction::LoadByte { x, .. }
            | Instruction::AddByte { x, .. }
            | Instruction::Random { x, .. }
            | Instruction::SkipKey { x }
            | Instruction::SkipNoKey { x }
            | Instruction::ReadDelay { x }
            | Instruction::WaitKey { x }
            | Instruction::SetDelay { x }
            | Instruction::SetSound { x }
            | Instruction::AddIndex { x }
            | Instruction::FontAddr { x }
            | Instruction::StoreBcd { x }
            | Instruction::StoreRegs { x }
            | Instruction::LoadRegs { x } => x < 16,
            Instruction::SkipEqReg { x, y }
            | Instruction::Move { x, y }
            | Instruction::Or { x, y }
            | Instruction::And { x, y }
            | Instruction::Xor { x, y }
            | Instruction::AddReg { x, y }
            | Instruction::SubReg { x, y }
            | Instruction::ShiftRight { x, y }
            | Instruction::SubFrom { x, y }
            | Instruction::ShiftLeft { x, y }
            | Instruction::SkipNeReg { x, y } => x < 16 && y < 16,
            Instruction::Draw { x, y, n } => x < 16 && y < 16 && n < 16,
        }
    }
}

/// The instruction that the word `hi lo` encodes, if any. With the word
/// written as four hexadecimal digits `o x y n`, `kk` is the low byte and
/// `nnn` the low three digits.
pub open spec fn decode_spec(hi: u8, lo: u8) -> Option<Instruction> {
    let o = hi / 16;
    let x = hi % 16;
    let y = lo / 16;
    let n = lo % 16;
    let kk = lo;
    let addr = (x * 256 + lo) as u16;
    if o == 0x0 {
        if addr == 0x0E0 {
            Some(Instruction::ClearScreen)
        } else if addr == 0x0EE {
            Some(Instruction::Return)
        } else {
            None
        }
    } else if o == 0x1 {
        Some(Instruction::Jump { addr })
    } else if o == 0x2 {
        Some(Instruction::Call { addr })
    } else if o == 0x3 {
        Some(Instruction::SkipEqByte { x, kk })
    } else if o == 0x4 {
        Some(Instruction::SkipNeByte { x, kk })
    } else if o == 0x5 {
        if n == 0 {
            Some(Instruction::SkipEqReg { x, y })
        } else {
            None
        }
    } else if o == 0x6 {
        Some(Instruction::LoadByte { x, kk })
    } else if o == 0x7 {
        Some(Instruction::AddByte { x, kk })
    } else if o == 0x8 {
        if n == 0x0 {
            Some(Instruction::Move { x, y })
        } else if n == 0x1 {
            Some(Instruction::Or { x, y })
        } else if n == 0x2 {
            Some(Instruction::And { x, y })
        } else if n == 0x3 {
            Some(Instruction::Xor { x, y })
        } else if n == 0x4 {
            Some(Instruction::AddReg { x, y })
        } else if n == 0x5 {
            Some(Instruction::SubReg { x, y })
        } else if n == 0x6 {
            Some(Instruction::ShiftRight { x, y })
        } else if n == 0x7 {
            Some(Instruction::SubFrom { x, y })
        } else if n == 0xE {
            Some(Instruction::ShiftLeft { x, y })
        } else {
            None
        }
    } else if o == 0x9 {
        if n == 0 {
            Some(Instruction::SkipNeReg { x, y })
        } else {
            None
        }
    } else if o == 0xA {
        Some(Instruction::LoadIndex { addr })
    } else if o == 0xB {
        Some(Instruction::JumpOffset { addr })
    } else if o == 0xC {
        Some(Instruction::Random { x, kk })
    } else if o == 0xD {
        Some(Instruction::Draw { x, y, n })
    } else if o == 0xE {
        if kk == 0x9E {
            Some(Instruction::SkipKey { x })
        } else if kk == 0xA1 {
            Some(Instruction::SkipNoKey { x })
        } else {
            None
        }
    } else {
        if kk == 0x07 {
            Some(Instruction::ReadDelay { x })
        } else if kk == 0x0A {
            Some(Instruction::WaitKey { x })
        } else if kk == 0x15 {
            Some(Instruction::SetDelay { x })
        } else if kk == 0x18 {
            Some(Instruction::SetSound { x })
        } else if kk == 0x1E {
            Some(Instruction::AddIndex { x })
        } else if kk == 0x29 {
            Some(Instruction::FontAddr { x })
        } else if kk == 0x33 {
            Some(Instruction::StoreBcd { x })
        } else if kk == 0x55 {
            Some(Instruction::StoreRegs { x })
        } else if kk == 0x65 {
            Some(Instruction::LoadRegs { x })
        } else {
            None
        }
    }
}

/// The word that encodes `instruction`, high byte first.
pub open spec fn encode_spec(instruction: Instruction) -> (u8, u8) {
    match instruction {
        Instruction::ClearScreen => (0x00, 0xE0),
        Instruction::Return => (0x00, 0xEE),
        Instruction::Jump { addr } => with_address(0x1, addr),
        Instruction::Call { addr } => with_address(0x2, addr),
        Instruction::SkipEqByte { x, kk } => with_byte(0x3, x, kk),
        Instruction::SkipNeByte { x, kk } => with_byte(0x4, x, kk),
        Instruction::SkipEqReg { x, y } => with_registers(0x5, x, y, 0x0),
        Instruction::LoadByte { x, kk } => with_byte(0x6, x, kk),
        Instruction::AddByte { x, kk } => with_byte(0x7, x, kk),
        Instruction::Move { x, y } => with_registers(0x8, x, y, 0x0),
        Instruction::Or { x, y } => with_registers(0x8, x, y, 0x1),
        Instruction::And { x, y } => with_registers(0x8, x, y, 0x2),
        Instruction::Xor { x, y } => with_registers(0x8, x, y, 0x3),
        Instruction::AddReg { x, y } => with_registers(0x8, x, y, 0x4),
        Instruction::SubReg { x, y } => with_registers(0x8, x, y, 0x5),
        Instruction::ShiftRight { x, y } => with_registers(0x8, x, y, 0x6),
        Instruction::SubFrom { x, y } => with_registers(0x8, x, y, 0x7),
        Instruction::ShiftLeft { x, y } => with_registers(0x8, x, y, 0xE),
        Instruction::SkipNeReg { x, y } => with_registers(0x9, x, y, 0x0),
        Instruction::LoadIndex { addr } => with_address(0xA, addr),
        Instruction::JumpOffset { addr } => with_address(0xB, addr),
        Instruction::Random { x, kk } => with_byte(0xC, x, kk),
        Instruction::Draw { x, y, n } => with_registers(0xD, x, y, n),
        Instruction::SkipKey { x } => with_byte(0xE, x, 0x9E),
        Instruction::SkipNoKey { x } => with_byte(0xE, x, 0xA1),
        Instruction::ReadDelay { x } => with_byte(0xF, x, 0x07),
        Instruction::WaitKey { x } => with_byte(0xF, x, 0x0A),
        Instruction::SetDelay { x } => with_byte(0xF, x, 0x15),
        Instruction::SetSound { x } => with_byte(0xF, x, 0x18),
        Instruction::AddIndex { x } => with_byte(0xF, x, 0x1E),
        Instruction::FontAddr { x } => with_byte(0xF, x, 0x29),
        Instruction::StoreBcd { x } => with_byte(0xF, x, 0x33),
        Instruction::StoreRegs { x } => with_byte(0xF, x, 0x55),
        Instruction::LoadRegs { x } => with_byte(0xF, x, 0x65),
    }
}

/// The word `o nnn`.
pub open spec fn with_address(o: u8, addr: u16) -> (u8, u8) {
    ((o * 16 + addr / 256) as u8, (addr % 256) as u8)
}

/// The word `o x kk`.
pub open spec fn with_byte(o: u8, x: u8, kk: u8) -> (u8, u8) {
    ((o * 16 + x) as u8, kk)
}

/// The word `o x y n`.
pub open spec fn with_registers(o: u8, x: u8, y: u8, n: u8) -> (u8, u8) {
    ((o * 16 + x) as u8, (y * 16 + n) as u8)
}

/// Every decoded instruction is well formed.
pub proof fn lemma_decoded_is_wf(hi: u8, lo: u8)
    ensures
        decode_spec(hi, lo) matches Some(instruction) ==> instruction.wf(),
{
}

/// Decoding undoes encoding: the word of a well-formed instruction decodes to it.
pub proof fn lemma_decode_of_encode(instruction: Instruction)
    requires
        instruction.wf(),
    ensures
        decode_spec(encode_spec(instruction).0, encode_spec(instruction).1) == Some(instruction),
{
}

/// Encoding undoes decoding: a word decodes only to the instruction that
/// it encodes, so that no two words stand for one instruction.
pub proof fn lemma_encode_of_decode(hi: u8, lo: u8)
    ensures
        decode_spec(hi, lo) matches Some(instruction) ==> encode_spec(instruction) == (hi, lo),
{
}

/// Decodes the word whose high byte is `hi` and whose low byte is `lo`.
/// `None` means that the word matches no instruction.
pub fn decode(hi: u8, lo: u8) -> (instruction: Option<Instruction>)
    ensures
        instruction == decode_spec(hi, lo),
        match instruction {
            Some(decoded) => decoded.wf() && encode_spec(decoded) == (hi, lo),
            None => forall|other: Instruction|
                other.wf() ==> #[trigger] encode_spec(other) != (hi, lo),
        },
{
    proof {
        lemma_encode_of_decode(hi, lo);
        assert forall|other: Instruction| other.wf() && decode_spec(hi, lo) is None implies
            #[trigger] encode_spec(other) != (hi, lo) by {
            lemma_decode_of_encode(other);
        }
    }
    let o: u8 = hi / 16;
    let x: u8 = hi % 16;
    let y: u8 = lo / 16;
    let n: u8 = lo % 16;
    let kk: u8 = lo;
    let addr: u16 = x as u16 * 256 + lo as u16;
    match o {
        0x0 => match addr {
            0x0E0 => Some(Instruction::ClearScreen),
            0x0EE => Some(Instruction::Return),
            _ => None,
        },
        0x1 => Some(Instruction::Jump { addr }),
        0x2 => Some(Instruction::Call { addr }),
        0x3 => Some(Instruction::SkipEqByte { x, kk }),
        0x4 => Some(Instruction::SkipNeByte { x, kk }),
        0x5 => match n {
            0x0 => Some(Instruction::SkipEqReg { x, y }),
            _ => None,
        },
        0x6 => Some(Instruction::LoadByte { x, kk }),
        0x7 => Some(Instruction::AddByte { x, kk }),
        0x8 => match n {
            0x0 => Some(Instruction::Move { x, y }),
            0x1 => Some(Instruction::Or { x, y }),
            0x2 => Some(Instruction::And { x, y }),
            0x3 => Some(Instruction::Xor { x, y }),
            0x4 => Some(Instruction::AddReg { x, y }),
            0x5 => Some(Instruction::SubReg { x, y }),
            0x6 => Some(Instruction::ShiftRight { x, y }),
            0x7 => Some(Instruction::SubFrom { x, y }),
            0xE => Some(Instruction::ShiftLeft { x, y }),
            _ => None,
        },
        0x9 => match n {
            0x0 => Some(Instruction::SkipNeReg { x, y }),
            _ => None,
        },
        0xA => Some(Instruction::LoadIndex { addr }),
        0xB => Some(Instruction::JumpOffset { addr }),
        0xC => Some(Instruction::Random { x, kk }),
        0xD => Some(Instruction::Draw { x, y, n }),
        0xE => match kk {
            0x9E => Some(Instruction::SkipKey { x }),
            0xA1 => Some(Instruction::SkipNoKey { x }),
            _ => None,
        },
        _ => match kk {
            0x07 => Some(Instruction::ReadDelay { x }),
            0x0A => Some(Instruction::WaitKey { x }),
            0x15 => Some(Instruction::SetDelay { x }),
            0x18 => Some(Instruction::SetSound { x }),
            0x1E => Some(Instruction::AddIndex { x }),
            0x29 => Some(Instruction::FontAddr { x }),
            0x33 => Some(Instruction::StoreBcd { x }),
            0x55 => Some(Instruction::StoreRegs { x }),
            0x65 => Some(Instruction::LoadRegs { x }),
            _ => None,
        },
    }
}

} // verus!
