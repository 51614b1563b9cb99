use vstd::prelude::*;

verus! {

/// One decoded CHIP-8 instruction. `x` and `y` name registers, `kk` is an 8-bit
/// immediate, `nnn` a 12-bit address and `n` a 4-bit sprite height.
#[derive(Clone, Copy, Debug, PartialEq, Eq, Structural)]
pub enum Instruction {
    /// 00E0: clear the screen.
    Clear,
    /// 00EE: return from a subroutine.
    Return,
    /// 1nnn: jump to `nnn`.
    Jump { nnn: u16 },
    /// 2nnn: call the subroutine at `nnn`.
    Call { nnn: u16 },
    /// 3xkk: skip the next instruction if Vx == kk.
    SkipEqImm { x: u8, kk: u8 },
    /// 4xkk: skip the next instruction if Vx != kk.
    SkipNeImm { x: u8, kk: u8 },
    /// 5xy0: skip the next instruction if Vx == Vy.
    SkipEqReg { x: u8, y: u8 },
    /// 6xkk: Vx = kk.
    LoadImm { x: u8, kk: u8 },
    /// 7xkk: Vx += kk, wrapping, VF untouched.
    AddImm { x: u8, kk: u8 },
    /// 8xy0: Vx = Vy.
    Copy { x: u8, y: u8 },
    /// 8xy1: Vx |= Vy.
    Or { x: u8, y: u8 },
    /// 8xy2: Vx &= Vy.
    And { x: u8, y: u8 },
    /// 8xy3: Vx ^= Vy.
    Xor { x: u8, y: u8 },
    /// 8xy4: Vx += Vy, VF = carry.
    AddReg { x: u8, y: u8 },
    /// 8xy5: Vx -= Vy, VF = no borrow.
    SubReg { x: u8, y: u8 },
    /// 8xy6: Vx >>= 1, VF = the bit shifted out.
    ShiftRight { x: u8 },
    /// 8xy7: Vx = Vy - Vx, VF = no borrow.
    SubReverse { x: u8, y: u8 },
    /// 8xyE: Vx <<= 1, VF = the bit shifted out.
    ShiftLeft { x: u8 },
    /// 9xy0: skip the next instruction if Vx != Vy.
    SkipNeReg { x: u8, y: u8 },
    /// Annn: I = nnn.
    SetIndex { nnn: u16 },
    /// Bnnn: jump to V0 + nnn.
    JumpOffset { nnn: u16 },
    /// Cxkk: Vx = a random byte AND kk.
    Random { x: u8, kk: u8 },
    /// Dxyn: draw the `n`-byte sprite at I at (Vx, Vy), VF = collision.
    Draw { x: u8, y: u8, n: u8 },
    /// Ex9E: skip the next instruction if key Vx is pressed.
    SkipKeyPressed { x: u8 },
    /// ExA1: skip the next instruction if key Vx is not pressed.
    SkipKeyReleased { x: u8 },
    /// Fx07: Vx = delay timer.
    LoadTimer { x: u8 },
    /// Fx0A: wait for a key press and store the key in Vx.
    WaitKey { x: u8 },
    /// Fx15: delay timer = Vx.
    SetTimer { x: u8 },
    /// Fx18: sound timer = Vx (no sound is produced).
    SetSound { x: u8 },
    /// Fx1E: I += Vx, wrapping at 16 bits.
    AddIndex { x: u8 },
    /// Fx29: I = address of the font glyph for Vx.
    FontChar { x: u8 },
    /// Fx33: store the decimal digits of Vx at I, I+1, I+2.
    Bcd { x: u8 },
    /// Fx55: store V0..=Vx at I onwards.
    StoreRegs { x: u8 },
    /// Fx65: load V0..=Vx from I onwards.
    LoadRegs { x: u8 },
}

/// Register operands name one of the sixteen registers, addresses fit in 12 bits and
/// sprite heights in 4.
pub open spec fn well_formed(ins: Instruction) -> bool {
    match ins {
        Instruction::Clear | Instruction::Return => true,
        Instruction::Jump { nnn } | Instruction::Call { nnn } | Instruction::SetIndex { nnn }
        | Instruction::JumpOffset { nnn } => nnn < 0x1000,
        Instruction::SkipEqImm { x, .. } | Instruction::SkipNeImm { x, .. }
        | Instruction::LoadImm { x, .. } | Instruction::AddImm { x, .. }
        | Instruction::Random { x, .. } | Instruction::ShiftRight { x }
        | Instruction::ShiftLeft { x } | Instruction::SkipKeyPressed { x }
        | Instruction::SkipKeyReleased { x } | Instruction::LoadTimer { x }
        | Instruction::WaitKey { x } | Instruction::SetTimer { x } | Instruction::SetSound { x }
        | Instruction::AddIndex { x } | Instruction::FontChar { x } | Instruction::Bcd { x }
        | Instruction::StoreRegs { x } | Instruction::LoadRegs { x } => x < 16,
        Instruction::SkipEqReg { x, y } | Instruction::Copy { x, y } | Instruction::Or { x, y }
        | Instruction::And { x, y } | Instruction::Xor { x, y } | Instruction::AddReg { x, y }
        | Instruction::SubReg { x, y } | Instruction::SubReverse { x, y }
        | Instruction::SkipNeReg { x, y } => x < 16 && y < 16,
        Instruction::Draw { x, y, n } => x < 16 && y < 16 && n < 16,
    }
}

/// The instruction that opcode `op` encodes, or `None` when it encodes none.
pub open spec fn decoded(op: u16) -> Option<Instruction> {
    let a = op >> 12u16;
    let x = ((op >> 8u16) & 0xF) as u8;
    let y = ((op >> 4u16) & 0xF) as u8;
    let n = (op & 0xF) as u8;
    let kk = (op & 0xFF) as u8;
    let nnn = op & 0xFFF;
    if op == 0x00E0 {
        Some(Instruction::Clear)
    } else if op == 0x00EE {
        Some(Instruction::Return)
    } else if a == 0x1 {
        Some(Instruction::Jump { nnn })
    } else if a == 0x2 {
        Some(Instruction::Call { nnn })
    } else if a == 0x3 {
        Some(Instruction::SkipEqImm { x, kk })
    } else if a == 0x4 {
        Some(Instruction::SkipNeImm { x, kk })
    } else if a == 0x5 && n == 0x0 {
        Some(Instruction::SkipEqReg { x, y })
    } else if a == 0x6 {
        Some(Instruction::LoadImm { x, kk })
    } else if a == 0x7 {
        Some(Instruction::AddImm { x, kk })
    } else if a == 0x8 && n == 0x0 {
        Some(Instruction::Copy { x, y })
    } else if a == 0x8 && n == 0x1 {
        Some(Instruction::Or { x, y })
    } else if a == 0x8 && n == 0x2 {
        Some(Instruction::And { x, y })
    } else if a == 0x8 && n == 0x3 {
        Some(Instruction::Xor { x, y })
    } else if a == 0x8 && n == 0x4 {
        Some(Instruction::AddReg { x, y })
    } else if a == 0x8 && n == 0x5 {
        Some(Instruction::SubReg { x, y })
    } else if a == 0x8 && n == 0x6 {
        Some(Instruction::ShiftRight { x })
    } else if a == 0x8 && n == 0x7 {
        Some(Instruction::SubReverse { x, y })
    } else if a == 0x8 && n == 0xE {
        Some(Instruction::ShiftLeft { x })
    } else if a == 0x9 && n == 0x0 {
        Some(Instruction::SkipNeReg { x, y })
    } else if a == 0xA {
        Some(Instruction::SetIndex { nnn })
    } else if a == 0xB {
        Some(Instruction::JumpOffset { nnn })
    } else if a == 0xC {
        Some(Instruction::Random { x, kk })
    } else if a == 0xD {
        Some(Instruction::Draw { x, y, n })
    } else if a == 0xE && kk == 0x9E {
        Some(Instruction::SkipKeyPressed { x })
    } else if a == 0xE && kk == 0xA1 {
        Some(Instruction::SkipKeyReleased { x })
    } else if a == 0xF && kk == 0x07 {
        Some(Instruction::LoadTimer { x })
    } else if a == 0xF && kk == 0x0A {
        Some(Instruction::WaitKey { x })
    } else if a == 0xF && kk == 0x15 {
        Some(Instruction::SetTimer { x })
    } else if a == 0xF && kk == 0x18 {
        Some(Instruction::SetSound { x })
    } else if a == 0xF && kk == 0x1E {
        Some(Instruction::AddIndex { x })
    } else if a == 0xF && kk == 0x29 {
        Some(Instruction::FontChar { x })
    } else if a == 0xF && kk == 0x33 {
        Some(Instruction::Bcd { x })
    } else if a == 0xF && kk == 0x55 {
        Some(Instruction::StoreRegs { x })
    } else if a == 0xF && kk == 0x65 {
        Some(Instruction::LoadRegs { x })
    } else {
        None
    }
}

/// Splits an opcode into its fields and looks it up in the instruction table.
pub fn decode(op: u16) -> (r: Option<Instruction>)
    ensures
        r == decoded(op),
        r matches Some(ins) ==> well_formed(ins),
{
    let a = op >> 12u16;
    let x = ((op >> 8u16) & 0xF) as u8;
    let y = ((op >> 4u16) & 0xF) as u8;
    let n = (op & 0xF) as u8;
    let kk = (op & 0xFF) as u8;
    let nnn = op & 0xFFF;
    assert(((op >> 8u16) & 0xF) < 16 && ((op >> 4u16) & 0xF) < 16 && (op & 0xF) < 16 && (op
        & 0xFFF) < 0x1000) by (bit_vector);
    if op == 0x00E0 {
        Some(Instruction::Clear)
    } else if op == 0x00EE {
        Some(Instruction::Return)
    } else if a == 0x1 {
        Some(Instruction::Jump { nnn })
    } else if a == 0x2 {
        Some(Instruction::Call { nnn })
    } else if a == 0x3 {
        Some(Instruction::SkipEqImm { x, kk })
    } else if a == 0x4 {
        Some(Instruction::SkipNeImm { x, kk })
    } else if a == 0x5 && n == 0x0 {
        Some(Instruction::SkipEqReg { x, y })
    } else if a == 0x6 {
        Some(Instruction::LoadImm { x, kk })
    } else if a == 0x7 {
        Some(Instruction::AddImm { x, kk })
    } else if a == 0x8 && n == 0x0 {
        Some(Instruction::Copy { x, y })
    } else if a == 0x8 && n == 0x1 {
        Some(Instruction::Or { x, y })
    } else if a == 0x8 && n == 0x2 {
        Some(Instruction::And { x, y })
    } else if a == 0x8 && n == 0x3 {
        Some(Instruction::Xor { x, y })
    } else if a == 0x8 && n == 0x4 {
        Some(Instruction::AddReg { x, y })
    } else if a == 0x8 && n == 0x5 {
        Some(Instruction::SubReg { x, y })
    } else if a == 0x8 && n == 0x6 {
        Some(Instruction::ShiftRight { x })
    } else if a == 0x8 && n == 0x7 {
        Some(Instruction::SubReverse { x, y })
    } else if a == 0x8 && n == 0xE {
        Some(Instruction::ShiftLeft { x })
    } else if a == 0x9 && n == 0x0 {
        Some(Instruction::SkipNeReg { x, y })
    } else if a == 0xA {
        Some(Instruction::SetIndex { nnn })
    } else if a == 0xB {
        Some(Instruction::JumpOffset { nnn })
    } else if a == 0xC {
        Some(Instruction::Random { x, kk })
    } else if a == 0xD {
        Some(Instruction::Draw { x, y, n })
    } else if a == 0xE && kk == 0x9E {
        Some(Instruction::SkipKeyPressed { x })
    } else if a == 0xE && kk == 0xA1 {
        Some(Instruction::SkipKeyReleased { x })
    } else if a == 0xF && kk == 0x07 {
        Some(Instruction::LoadTimer { x })
    } else if a == 0xF && kk == 0x0A {
        Some(Instruction::WaitKey { x })
    } else if a == 0xF && kk == 0x15 {
        Some(Instruction::SetTimer { x })
    } else if a == 0xF && kk == 0x18 {
        Some(Instruction::SetSound { x })
    } else if a == 0xF && kk == 0x1E {
        Some(Instruction::AddIndex { x })
    } else if a == 0xF && kk == 0x29 {
        Some(Instruction::FontChar { x })
    } else if a == 0xF && kk == 0x33 {
        Some(Instruction::Bcd { x })
    } else if a == 0xF && kk == 0x55 {
        Some(Instruction::StoreRegs { x })
    } else if a == 0xF && kk == 0x65 {
        Some(Instruction::LoadRegs { x })
    } else {
        None
    }
}

} // verus!
