use vstd::prelude::*;

verus! {

/// Index of a general-purpose register (always below 16 when produced by `decode`).
pub type Register = u8;

/// A 12-bit memory address carried inside an opcode.
pub type Addr = u16;

/// An 8-bit immediate operand carried inside an opcode.
pub type Byte = u8;

/// The CHIP-8 instruction set as a closed sum type. `decode` maps every 16-bit
/// opcode to exactly one of these variants; bit patterns the instruction set
/// does not define map to the `Unknown` sentinel.
#[derive(PartialEq, Eq, Structural, Debug, Clone, Copy)]
pub enum Instruction {
    // 00E0 - CLS, clear the screen
    Clear,
    // 00EE - RET
    Return,
    // 0nnn - SYS addr (ignored by the machine)
    Sys(Addr),
    // 1nnn - JP addr
    Jump(Addr),
    // 2nnn - CALL addr
    Call(Addr),
    // 3xkk - SE Vx, byte: skips the next instruction if `Vx` equals `kk`
    SkipEqualK(Register, Byte),
    // 4xkk - SNE Vx, byte
    SkipNotEqualK(Register, Byte),
    // 5xy0 - SE Vx, Vy: skips the next instruction if `Vx` and `Vy` are equal
    SkipEqual(Register, Register),
    // 6xkk - LD Vx, byte: sets `Vx` to `kk`
    LoadK(Register, Byte),
    // 7xkk - ADD Vx, byte: adds `kk` to `Vx`, wrapping, without touching `VF`
    AddK(Register, Byte),
    // 8xy0 - LD Vx, Vy: stores `Vy` in `Vx`
    SetReg(Register, Register),
    // 8xy1 - OR Vx, Vy
    Or(Register, Register),
    // 8xy2 - AND Vx, Vy
    And(Register, Register),
    // 8xy3 - XOR Vx, Vy
    Xor(Register, Register),
    // 8xy4 - ADD Vx, Vy: `VF` is set to 1 on overflow, 0 otherwise
    Add(Register, Register),
    // 8xy5 - SUB Vx, Vy: `VF` is set to 1 if `Vx` > `Vy` before subtracting
    Sub(Register, Register),
    // 8xy6 - SHR Vx: the bit shifted out lands in `VF`
    ShiftRight(Register),
    // 8xy7 - SUBN Vx, Vy: `Vx` becomes `Vy - Vx`; `VF` is 1 if `Vy` > `Vx`
    SubInv(Register, Register),
    // 8xyE - SHL Vx: the bit shifted out lands in `VF`
    ShiftLeft(Register),
    // 9xy0 - SNE Vx, Vy
    SkipNotEqual(Register, Register),
    // Annn - LD I, addr
    LoadI(Addr),
    // Bnnn - JP V0, addr: jumps to `V0 + addr`
    LongJump(Addr),
    // Cxkk - RND Vx, byte: sets `Vx` to a random byte ANDed with `kk`
    Rand(Register, Byte),
    // Dxyn - DRW Vx, Vy, nibble: XOR-draws an n-row sprite from address `I`
    // at `(Vx, Vy)` with toroidal wrap; `VF` reports collisions
    Draw(Register, Register, Byte),
    // Ex9E - SKP Vx: skips the next instruction if key `Vx` is pressed
    SkipPressed(Register),
    // ExA1 - SKNP Vx: skips the next instruction if key `Vx` is not pressed
    SkipNotPressed(Register),
    // Fx07 - LD Vx, DT: stores the delay timer in `Vx`
    GetTimer(Register),
    // Fx0A - LD Vx, K: suspends execution until a key is pressed
    WaitKey(Register),
    // Fx15 - LD DT, Vx: sets the delay timer to `Vx`
    SetTimer(Register),
    // Fx18 - LD ST, Vx: sets the sound timer to `Vx`
    SetSoundTimer(Register),
    // Fx1E - ADD I, Vx
    AddI(Register),
    // Fx29 - LD F, Vx: loads the address of the glyph for digit `Vx` into `I`
    LoadHexGlyph(Register),
    // Fx33 - LD B, Vx: stores the decimal digits of `Vx` at `I`, `I+1`, `I+2`
    StoreBCD(Register),
    // Fx55 - LD [I], Vx: stores `V0..=Vx` at address `I`, then advances `I`
    StoreRegisters(Register),
    // Fx65 - LD Vx, [I]: loads `V0..=Vx` from address `I`, then advances `I`
    LoadRegisters(Register),
    // Placeholder for an unknown or illegal instruction.
    Unknown,
}

/// The meaning of a 16-bit opcode, written over the opcode's nibbles:
/// the first nibble selects the group, `nnn` is the low 12 bits, `kk` the
/// low byte, `x` and `y` the second and third nibbles, `n` the fourth.
pub open spec fn spec_decode(opcode: u16) -> Instruction {
    let n1 = opcode / 0x1000;
    let n3 = (opcode / 0x10) % 0x10;
    let n4 = opcode % 0x10;
    let nnn = opcode % 0x1000;
    let kk = (opcode % 0x100) as u8;
    let x = ((opcode / 0x100) % 0x10) as u8;
    let y = ((opcode / 0x10) % 0x10) as u8;
    let n = (opcode % 0x10) as u8;
    if opcode == 0x00E0 {
        Instruction::Clear
    } else if opcode == 0x00EE {
        Instruction::Return
    } else if n1 == 0x1 {
        Instruction::Jump(nnn)
    } else if n1 == 0x2 {
        Instruction::Call(nnn)
    } else if n1 == 0x3 {
        Instruction::SkipEqualK(x, kk)
    } else if n1 == 0x4 {
        Instruction::SkipNotEqualK(x, kk)
    } else if n1 == 0x5 && n4 == 0x0 {
        Instruction::SkipEqual(x, y)
    } else if n1 == 0x6 {
        Instruction::LoadK(x, kk)
    } else if n1 == 0x7 {
        Instruction::AddK(x, kk)
    } else if n1 == 0x8 && n4 == 0x0 {
        Instruction::SetReg(x, y)
    } else if n1 == 0x8 && n4 == 0x1 {
        Instruction::Or(x, y)
    } else if n1 == 0x8 && n4 == 0x2 {
        Instruction::And(x, y)
    } else if n1 == 0x8 && n4 == 0x3 {
        Instruction::Xor(x, y)
    } else if n1 == 0x8 && n4 == 0x4 {
        Instruction::Add(x, y)
    } else if n1 == 0x8 && n4 == 0x5 {
        Instruction::Sub(x, y)
    } else if n1 == 0x8 && n4 == 0x6 {
        Instruction::ShiftRight(x)
    } else if n1 == 0x8 && n4 == 0x7 {
        Instruction::SubInv(x, y)
    } else if n1 == 0x8 && n4 == 0xE {
        Instruction::ShiftLeft(x)
    } else if n1 == 0x9 && n4 == 0x0 {
        Instruction::SkipNotEqual(x, y)
    } else if n1 == 0xA {
        Instruction::LoadI(nnn)
    } else if n1 == 0xB {
        Instruction::LongJump(nnn)
    } else if n1 == 0xC {
        Instruction::Rand(x, kk)
    } else if n1 == 0xD {
        Instruction::Draw(x, y, n)
    } else if n1 == 0xE && n3 == 0x9 && n4 == 0xE {
        Instruction::SkipPressed(x)
    } else if n1 == 0xE && n3 == 0xA && n4 == 0x1 {
        Instruction::SkipNotPressed(x)
    } else if n1 == 0xF && n3 == 0x0 && n4 == 0x7 {
        Instruction::GetTimer(x)
    } else if n1 == 0xF && n3 == 0x0 && n4 == 0xA {
        Instruction::WaitKey(x)
    } else if n1 == 0xF && n3 == 0x1 && n4 == 0x5 {
        Instruction::SetTimer(x)
    } else if n1 == 0xF && n3 == 0x1 && n4 == 0x8 {
        Instruction::SetSoundTimer(x)
    } else if n1 == 0xF && n3 == 0x1 && n4 == 0xE {
        Instruction::AddI(x)
    } else if n1 == 0xF && n3 == 0x2 && n4 == 0x9 {
        Instruction::LoadHexGlyph(x)
    } else if n1 == 0xF && n3 == 0x3 && n4 == 0x3 {
        Instruction::StoreBCD(x)
    } else if n1 == 0xF && n3 == 0x5 && n4 == 0x5 {
        Instruction::StoreRegisters(x)
    } else if n1 == 0xF && n3 == 0x6 && n4 == 0x5 {
        Instruction::LoadRegisters(x)
    } else {
        Instruction::Unknown
    }
}

/// Every register index a decoded instruction carries is below 16, and every
/// address is below 0x1000.
pub open spec fn fields_bounded(inst: Instruction) -> bool {
    match inst {
        Instruction::Sys(a) => a < 0x1000,
        Instruction::Jump(a) => a < 0x1000,
        Instruction::Call(a) => a < 0x1000,
        Instruction::SkipEqualK(x, _) => x < 16,
        Instruction::SkipNotEqualK(x, _) => x < 16,
        Instruction::SkipEqual(x, y) => x < 16 && y < 16,
        Instruction::LoadK(x, _) => x < 16,
        Instruction::AddK(x, _) => x < 16,
        Instruction::SetReg(x, y) => x < 16 && y < 16,
        Instruction::Or(x, y) => x < 16 && y < 16,
        Instruction::And(x, y) => x < 16 && y < 16,
        Instruction::Xor(x, y) => x < 16 && y < 16,
        Instruction::Add(x, y) => x < 16 && y < 16,
        Instruction::Sub(x, y) => x < 16 && y < 16,
        Instruction::ShiftRight(x) => x < 16,
        Instruction::SubInv(x, y) => x < 16 && y < 16,
        Instruction::ShiftLeft(x) => x < 16,
        Instruction::SkipNotEqual(x, y) => x < 16 && y < 16,
        Instruction::LoadI(a) => a < 0x1000,
        Instruction::LongJump(a) => a < 0x1000,
        Instruction::Rand(x, _) => x < 16,
        Instruction::Draw(x, y, n) => x < 16 && y < 16 && n < 16,
        Instruction::SkipPressed(x) => x < 16,
        Instruction::SkipNotPressed(x) => x < 16,
        Instruction::GetTimer(x) => x < 16,
        Instruction::WaitKey(x) => x < 16,
        Instruction::SetTimer(x) => x < 16,
        Instruction::SetSoundTimer(x) => x < 16,
        Instruction::AddI(x) => x < 16,
        Instruction::LoadHexGlyph(x) => x < 16,
        Instruction::StoreBCD(x) => x < 16,
        Instruction::StoreRegisters(x) => x < 16,
        Instruction::LoadRegisters(x) => x < 16,
        _ => true,
    }
}

impl Instruction {
    /// Decoding is total: every 16-bit opcode maps to exactly one variant,
    /// the one `spec_decode` names, and the carried fields stay in range.
    pub fn decode(opcode: u16) -> (inst: Instruction)
        ensures
            inst == spec_decode(opcode),
            fields_bounded(inst),
    {
        let n1 = opcode / 0x1000;
        let n3 = (opcode / 0x10) % 0x10;
        let n4 = opcode % 0x10;
        let nnn = opcode % 0x1000;
        let kk = (opcode % 0x100) as u8;
        let x = ((opcode / 0x100) % 0x10) as u8;
        let y = ((opcode / 0x10) % 0x10) as u8;
        let n = (opcode % 0x10) as u8;
        if opcode == 0x00E0 {
            Instruction::Clear
        } else if opcode == 0x00EE {
            Instruction::Return
        } else if n1 == 0x1 {
            Instruction::Jump(nnn)
        } else if n1 == 0x2 {
            Instruction::Call(nnn)
        } else if n1 == 0x3 {
            Instruction::SkipEqualK(x, kk)
        } else if n1 == 0x4 {
            Instruction::SkipNotEqualK(x, kk)
        } else if n1 == 0x5 && n4 == 0x0 {
            Instruction::SkipEqual(x, y)
        } else if n1 == 0x6 {
            Instruction::LoadK(x, kk)
        } else if n1 == 0x7 {
            Instruction::AddK(x, kk)
        } else if n1 == 0x8 && n4 == 0x0 {
            Instruction::SetReg(x, y)
        } else if n1 == 0x8 && n4 == 0x1 {
            Instruction::Or(x, y)
        } else if n1 == 0x8 && n4 == 0x2 {
            Instruction::And(x, y)
        } else if n1 == 0x8 && n4 == 0x3 {
            Instruction::Xor(x, y)
        } else if n1 == 0x8 && n4 == 0x4 {
            Instruction::Add(x, y)
        } else if n1 == 0x8 && n4 == 0x5 {
            Instruction::Sub(x, y)
        } else if n1 == 0x8 && n4 == 0x6 {
            Instruction::ShiftRight(x)
        } else if n1 == 0x8 && n4 == 0x7 {
            Instruction::SubInv(x, y)
        } else if n1 == 0x8 && n4 == 0xE {
            Instruction::ShiftLeft(x)
        } else if n1 == 0x9 && n4 == 0x0 {
            Instruction::SkipNotEqual(x, y)
        } else if n1 == 0xA {
            Instruction::LoadI(nnn)
        } else if n1 == 0xB {
            Instruction::LongJump(nnn)
        } else if n1 == 0xC {
            Instruction::Rand(x, kk)
        } else if n1 == 0xD {
            Instruction::Draw(x, y, n)
        } else if n1 == 0xE && n3 == 0x9 && n4 == 0xE {
            Instruction::SkipPressed(x)
        } else if n1 == 0xE && n3 == 0xA && n4 == 0x1 {
            Instruction::SkipNotPressed(x)
        } else if n1 == 0xF && n3 == 0x0 && n4 == 0x7 {
            Instruction::GetTimer(x)
        } else if n1 == 0xF && n3 == 0x0 && n4 == 0xA {
            Instruction::WaitKey(x)
        } else if n1 == 0xF && n3 == 0x1 && n4 == 0x5 {
            Instruction::SetTimer(x)
        } else if n1 == 0xF && n3 == 0x1 && n4 == 0x8 {
            Instruction::SetSoundTimer(x)
        } else if n1 == 0xF && n3 == 0x1 && n4 == 0xE {
            Instruction::AddI(x)
        } else if n1 == 0xF && n3 == 0x2 && n4 == 0x9 {
            Instruction::LoadHexGlyph(x)
        } else if n1 == 0xF && n3 == 0x3 && n4 == 0x3 {
            Instruction::StoreBCD(x)
        } else if n1 == 0xF && n3 == 0x5 && n4 == 0x5 {
            Instruction::StoreRegisters(x)
        } else if n1 == 0xF && n3 == 0x6 && n4 == 0x5 {
            Instruction::LoadRegisters(x)
        } else {
            Instruction::Unknown
        }
    }
}

} // verus!
