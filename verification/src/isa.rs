//! The instruction set: decoded opcodes and the two-level decoder
//! (family selector first, sub-opcode second).

use vstd::prelude::*;

verus! {

/// One decoded CHIP-8 instruction. `x` and `y` are register indices taken
/// from the opcode's nibbles, `kk` an immediate byte, `nnn` a 12-bit address,
/// `n` a 4-bit count.
#[derive(Clone, Copy, PartialEq, Eq, Debug, Structural)]
pub enum Instruction {
    /// 00E0: clear the display.
    Cls,
    /// 00EE: return from a call.
    Ret,
    /// 0NNN: legacy machine routine; ignored.
    Sys(u16),
    /// 1NNN: jump.
    Jp(u16),
    /// 2NNN: call.
    Call(u16),
    /// 3XKK: skip next if Vx == KK.
    SeByte(u8, u8),
    /// 4XKK: skip next if Vx != KK.
    SneByte(u8, u8),
    /// 5XY0: skip next if Vx == Vy.
    SeReg(u8, u8),
    /// 6XKK: Vx := KK.
    LdByte(u8, u8),
    /// 7XKK: Vx := Vx + KK, wrapping, no flag.
    AddByte(u8, u8),
    /// 8XY0: Vx := Vy.
    LdReg(u8, u8),
    /// 8XY1: Vx := Vx | Vy.
    Or(u8, u8),
    /// 8XY2: Vx := Vx & Vy.
    And(u8, u8),
    /// 8XY3: Vx := Vx ^ Vy.
    Xor(u8, u8),
    /// 8XY4: Vx := Vx + Vy wrapping; VF is the carry.
    AddReg(u8, u8),
    /// 8XY5: VF := Vx > Vy; Vx := Vx - Vy wrapping.
    Sub(u8, u8),
    /// 8XY6: VF := low bit of Vx; Vx := Vx >> 1.
    Shr(u8),
    /// 8XY7: VF := Vy > Vx; Vx := Vy - Vx wrapping.
    Subn(u8, u8),
    /// 8XYE: VF := high bit of Vx; Vx := Vx << 1 wrapping.
    Shl(u8),
    /// 9XY0: skip next if Vx != Vy.
    SneReg(u8, u8),
    /// ANNN: I := NNN.
    LdIndex(u16),
    /// BNNN: jump to NNN + V0.
    JpV0(u16),
    /// CXKK: Vx := pseudo-random byte & KK.
    Rnd(u8, u8),
    /// DXYN: draw an N-row sprite from memory at I to (Vx, Vy).
    Drw(u8, u8, u8),
    /// EX9E: skip next if key Vx is pressed.
    Skp(u8),
    /// EXA1: skip next if key Vx is not pressed.
    Sknp(u8),
    /// FX07: Vx := delay timer.
    LdVxDt(u8),
    /// FX0A: wait for a key press; Vx := its code.
    WaitKey(u8),
    /// FX15: delay timer := Vx.
    LdDtVx(u8),
    /// FX18: sound timer := Vx.
    LdStVx(u8),
    /// FX1E: I := I + Vx, kept to 12 bits.
    AddIndex(u8),
    /// FX29: I := font address of digit Vx.
    LdFont(u8),
    /// FX33: three decimal digits of Vx to memory at I.
    StoreBcd(u8),
    /// FX55: V0..Vx to memory at I.
    StoreRegs(u8),
    /// FX65: V0..Vx from memory at I.
    LoadRegs(u8),
}

impl Instruction {
    /// Register indices fit the register file and sprite heights fit a
    /// nibble. The decoder only produces such instructions.
    pub open spec fn wf(self) -> bool {
        match self {
            Instruction::Cls => true,
            Instruction::Ret => true,
            Instruction::Sys(_) => true,
            Instruction::Jp(_) => true,
            Instruction::Call(_) => true,
            Instruction::SeByte(x, _) => x < 16,
            Instruction::SneByte(x, _) => x < 16,
            Instruction::SeReg(x, y) => x < 16 && y < 16,
            Instruction::LdByte(x, _) => x < 16,
            Instruction::AddByte(x, _) => x < 16,
            Instruction::LdReg(x, y) => x < 16 && y < 16,
            Instruction::Or(x, y) => x < 16 && y < 16,
            Instruction::And(x, y) => x < 16 && y < 16,
            Instruction::Xor(x, y) => x < 16 && y < 16,
            Instruction::AddReg(x, y) => x < 16 && y < 16,
            Instruction::Sub(x, y) => x < 16 && y < 16,
            Instruction::Shr(x) => x < 16,
            Instruction::Subn(x, y) => x < 16 && y < 16,
            Instruction::Shl(x) => x < 16,
            Instruction::SneReg(x, y) => x < 16 && y < 16,
            Instruction::LdIndex(_) => true,
            Instruction::JpV0(_) => true,
            Instruction::Rnd(x, _) => x < 16,
            Instruction::Drw(x, y, n) => x < 16 && y < 16 && n < 16,
            Instruction::Skp(x) => x < 16,
            Instruction::Sknp(x) => x < 16,
            Instruction::LdVxDt(x) => x < 16,
            Instruction::WaitKey(x) => x < 16,
            Instruction::LdDtVx(x) => x < 16,
            Instruction::LdStVx(x) => x < 16,
            Instruction::AddIndex(x) => x < 16,
            Instruction::LdFont(x) => x < 16,
            Instruction::StoreBcd(x) => x < 16,
            Instruction::StoreRegs(x) => x < 16,
            Instruction::LoadRegs(x) => x < 16,
        }
    }
}

/// What an opcode decodes to: its variant and fields as the dispatch table
/// prescribes, or nothing for an opcode outside the table.
pub open spec fn decode_spec(op: u16) -> Option<Instruction> {
    let family = op >> 12;
    let x = ((op >> 8) & 0xF) as u8;
    let y = ((op >> 4) & 0xF) as u8;
    let n = (op & 0xF) as u8;
    let kk = (op & 0xFF) as u8;
    let nnn = op & 0xFFF;
    if family == 0x0 {
        if op == 0x00E0 {
            Some(Instruction::Cls)
        } else if op == 0x00EE {
            Some(Instruction::Ret)
        } else {
            Some(Instruction::Sys(nnn))
        }
    } else if family == 0x1 {
        Some(Instruction::Jp(nnn))
    } else if family == 0x2 {
        Some(Instruction::Call(nnn))
    } else if family == 0x3 {
        Some(Instruction::SeByte(x, kk))
    } else if family == 0x4 {
        Some(Instruction::SneByte(x, kk))
    } else if family == 0x5 {
        if n == 0 {
            Some(Instruction::SeReg(x, y))
        } else {
            None
        }
    } else if family == 0x6 {
        Some(Instruction::LdByte(x, kk))
    } else if family == 0x7 {
        Some(Instruction::AddByte(x, kk))
    } else if family == 0x8 {
        if n == 0x0 {
            Some(Instruction::LdReg(x, y))
        } else if n == 0x1 {
            Some(Instruction::Or(x, y))
        } else if n == 0x2 {
            Some(Instruction::And(x, y))
        } else if n == 0x3 {
            Some(Instruction::Xor(x, y))
        } else if n == 0x4 {
            Some(Instruction::AddReg(x, y))
        } else if n == 0x5 {
            Some(Instruction::Sub(x, y))
        } else if n == 0x6 {
            Some(Instruction::Shr(x))
        } else if n == 0x7 {
            Some(Instruction::Subn(x, y))
        } else if n == 0xE {
            Some(Instruction::Shl(x))
        } else {
            None
        }
    } else if family == 0x9 {
        if n == 0 {
            Some(Instruction::SneReg(x, y))
        } else {
            None
        }
    } else if family == 0xA {
        Some(Instruction::LdIndex(nnn))
    } else if family == 0xB {
        Some(Instruction::JpV0(nnn))
    } else if family == 0xC {
        Some(Instruction::Rnd(x, kk))
    } else if family == 0xD {
        Some(Instruction::Drw(x, y, n))
    } else if family == 0xE {
        if kk == 0x9E {
            Some(Instruction::Skp(x))
        } else if kk == 0xA1 {
            Some(Instruction::Sknp(x))
        } else {
            None
        }
    } else {
        if kk == 0x07 {
            Some(Instruction::LdVxDt(x))
        } else if kk == 0x0A {
            Some(Instruction::WaitKey(x))
        } else if kk == 0x15 {
            Some(Instruction::LdDtVx(x))
        } else if kk == 0x18 {
            Some(Instruction::LdStVx(x))
        } else if kk == 0x1E {
            Some(Instruction::AddIndex(x))
        } else if kk == 0x29 {
            Some(Instruction::LdFont(x))
        } else if kk == 0x33 {
            Some(Instruction::StoreBcd(x))
        } else if kk == 0x55 {
            Some(Instruction::StoreRegs(x))
        } else if kk == 0x65 {
            Some(Instruction::LoadRegs(x))
        } else {
            None
        }
    }
}

/// Decodes one opcode, exactly as `decode_spec` says; `None` is a decode
/// fault. Every decoded instruction is well formed.
pub fn decode(op: u16) -> (r: Option<Instruction>)
    ensures
        r == decode_spec(op),
        r matches Some(instr) ==> instr.wf(),
{
    proof {
        assert(((op >> 8) & 0xF) < 16 && ((op >> 4) & 0xF) < 16 && (op & 0xF) < 16) by (bit_vector);
    }
    let family = op >> 12;
    let x = ((op >> 8) & 0xF) as u8;
    let y = ((op >> 4) & 0xF) as u8;
    let n = (op & 0xF) as u8;
    let kk = (op & 0xFF) as u8;
    let nnn = op & 0xFFF;
    if family == 0x0 {
        if op == 0x00E0 {
            Some(Instruction::Cls)
        } else if op == 0x00EE {
            Some(Instruction::Ret)
        } else {
            Some(Instruction::Sys(nnn))
        }
    } else if family == 0x1 {
        Some(Instruction::Jp(nnn))
    } else if family == 0x2 {
        Some(Instruction::Call(nnn))
    } else if family == 0x3 {
        Some(Instruction::SeByte(x, kk))
    } else if family == 0x4 {
        Some(Instruction::SneByte(x, kk))
    } else if family == 0x5 {
        if n == 0 {
            Some(Instruction::SeReg(x, y))
        } else {
            None
        }
    } else if family == 0x6 {
        Some(Instruction::LdByte(x, kk))
    } else if family == 0x7 {
        Some(Instruction::AddByte(x, kk))
    } else if family == 0x8 {
        if n == 0x0 {
            Some(Instruction::LdReg(x, y))
        } else if n == 0x1 {
            Some(Instruction::Or(x, y))
        } else if n == 0x2 {
            Some(Instruction::And(x, y))
        } else if n == 0x3 {
            Some(Instruction::Xor(x, y))
        } else if n == 0x4 {
            Some(Instruction::AddReg(x, y))
        } else if n == 0x5 {
            Some(Instruction::Sub(x, y))
        } else if n == 0x6 {
            Some(Instruction::Shr(x))
        } else if n == 0x7 {
            Some(Instruction::Subn(x, y))
        } else if n == 0xE {
            Some(Instruction::Shl(x))
        } else {
            None
        }
    } else if family == 0x9 {
        if n == 0 {
            Some(Instruction::SneReg(x, y))
        } else {
            None
        }
    } else if family == 0xA {
        Some(Instruction::LdIndex(nnn))
    } else if family == 0xB {
        Some(Instruction::JpV0(nnn))
    } else if family == 0xC {
        Some(Instruction::Rnd(x, kk))
    } else if family == 0xD {
        Some(Instruction::Drw(x, y, n))
    } else if family == 0xE {
        if kk == 0x9E {
            Some(Instruction::Skp(x))
        } else if kk == 0xA1 {
            Some(Instruction::Sknp(x))
        } else {
            None
        }
    } else {
        if kk == 0x07 {
            Some(Instruction::LdVxDt(x))
        } else if kk == 0x0A {
            Some(Instruction::WaitKey(x))
        } else if kk == 0x15 {
            Some(Instruction::LdDtVx(x))
        } else if kk == 0x18 {
            Some(Instruction::LdStVx(x))
        } else if kk == 0x1E {
            Some(Instruction::AddIndex(x))
        } else if kk == 0x29 {
            Some(Instruction::LdFont(x))
        } else if kk == 0x33 {
            Some(Instruction::StoreBcd(x))
        } else if kk == 0x55 {
            Some(Instruction::StoreRegs(x))
        } else if kk == 0x65 {
            Some(Instruction::LoadRegs(x))
        } else {
            None
        }
    }
}

/// A fault surfaced to the driver: no fault corrupts the data model before
/// being reported.
#[derive(Clone, Copy, PartialEq, Eq, Debug, Structural)]
pub enum Fault {
    /// The opcode matches no family/sub-opcode combination.
    UnknownOpcode(u16),
    /// CALL with all sixteen stack slots in use.
    StackOverflow,
    /// RET with no active call.
    StackUnderflow,
    /// The program counter does not point at two readable bytes.
    ProgramCounterOutOfRange,
    /// An indirect opcode would touch memory past the last address.
    MemoryOutOfRange,
}

/// What one `step` reports on success.
#[derive(Clone, Copy, PartialEq, Eq, Debug, Structural)]
pub enum StepEvent {
    /// The instruction retired.
    Executed,
    /// A wait-for-key instruction found no key pressed; the program counter
    /// stays on it and the driver should poll input and step again.
    WaitingForKey,
}

} // verus!
