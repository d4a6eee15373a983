//! Instruction execution: a functional model of every instruction's effect
//! (`exec_spec`) and the executable `execute` and `step` proved against it.

use vstd::prelude::*;
use crate::chip8::{Chip8, Chip8View, combine_bytes, MEMORY_SIZE};
use crate::isa::{Instruction, Fault, StepEvent, decode, decode_spec};
use crate::draw::drw_spec;

verus! {

/// Byte addition wrapping modulo 256.
pub open spec fn wrap_add_byte(a: u8, b: u8) -> u8 {
    ((a + b) % 256) as u8
}

/// Byte subtraction wrapping modulo 256.
pub open spec fn wrap_sub_byte(a: u8, b: u8) -> u8 {
    (if a >= b {
        a - b
    } else {
        a + 256 - b
    }) as u8
}

/// Byte left shift by one, wrapping modulo 256.
pub open spec fn wrap_shl_byte(a: u8) -> u8 {
    ((a * 2) % 256) as u8
}

/// The program counter two bytes further on, wrapping at 16 bits.
pub open spec fn pc_plus_2(pc: u16) -> u16 {
    ((pc + 2) % 0x10000) as u16
}

/// The program counter two bytes back, wrapping at 16 bits. A wait-for-key
/// instruction that found no key steps the counter back onto itself.
pub open spec fn pc_minus_2(pc: u16) -> u16 {
    ((pc + 0xFFFE) % 0x10000) as u16
}

/// The next state of the pseudo-random generator: a 16-bit linear
/// congruential step.
pub open spec fn rng_next(s: u16) -> u16 {
    ((s * 25173 + 13849) % 0x10000) as u16
}

/// The byte drawn from one generator step: its high half.
pub open spec fn rng_byte(s: u16) -> u8 {
    (rng_next(s) >> 8u16) as u8
}

/// The lowest pressed key at or above index `i`, if any.
pub open spec fn lowest_pressed_from(keys: Seq<bool>, i: int) -> Option<u8>
    decreases 16 - i,
{
    if i < 0 || i >= 16 {
        None
    } else if keys[i] {
        Some(i as u8)
    } else {
        lowest_pressed_from(keys, i + 1)
    }
}

/// Memory after V0..Vx have been stored at the index register.
pub open spec fn store_regs_memory(pre: Chip8View, x: int) -> Seq<u8> {
    Seq::new(MEMORY_SIZE as nat, |j: int| if pre.index_register <= j <= pre.index_register + x {
        pre.v[j - pre.index_register]
    } else {
        pre.memory[j]
    })
}

/// State and result of FX55: V0..Vx to memory at the index register, a
/// memory fault if the range would run past the last address.
pub open spec fn store_regs_spec(pre: Chip8View, x: int) -> (Chip8View, Result<StepEvent, Fault>) {
    if pre.index_register + x + 1 > MEMORY_SIZE {
        (pre, Err(Fault::MemoryOutOfRange))
    } else {
        (Chip8View { memory: store_regs_memory(pre, x), ..pre }, Ok(StepEvent::Executed))
    }
}

/// Registers after V0..Vx have been loaded from the index register.
pub open spec fn load_regs_v(pre: Chip8View, x: int) -> Seq<u8> {
    Seq::new(16, |k: int| if k <= x {
        pre.memory[pre.index_register + k]
    } else {
        pre.v[k]
    })
}

/// State and result of FX65: V0..Vx from memory at the index register, a
/// memory fault if the range would run past the last address.
pub open spec fn load_regs_spec(pre: Chip8View, x: int) -> (Chip8View, Result<StepEvent, Fault>) {
    if pre.index_register + x + 1 > MEMORY_SIZE {
        (pre, Err(Fault::MemoryOutOfRange))
    } else {
        (Chip8View { v: load_regs_v(pre, x), ..pre }, Ok(StepEvent::Executed))
    }
}

/// State and result of FX33: the three decimal digits of Vx, most
/// significant first, to memory at the index register.
pub open spec fn bcd_spec(pre: Chip8View, x: int) -> (Chip8View, Result<StepEvent, Fault>) {
    if pre.index_register + 3 > MEMORY_SIZE {
        (pre, Err(Fault::MemoryOutOfRange))
    } else {
        let val = pre.v[x] as int;
        (Chip8View {
            memory: pre.memory
                .update(pre.index_register as int, (val / 100) as u8)
                .update(pre.index_register + 1, ((val / 10) % 10) as u8)
                .update(pre.index_register + 2, (val % 10) as u8),
            ..pre
        }, Ok(StepEvent::Executed))
    }
}

/// The effect of one instruction on the machine state, with the program
/// counter already advanced past it. This is the opcode dispatch table as a
/// function: the state afterwards and what the driver is told.
pub open spec fn exec_spec(pre: Chip8View, instr: Instruction) -> (Chip8View, Result<StepEvent, Fault>) {
    match instr {
        Instruction::Cls => (
            Chip8View { gfx: Seq::new(2048, |i: int| 0u8), ..pre },
            Ok(StepEvent::Executed),
        ),
        Instruction::Ret => if pre.stack_pointer == 0 {
            (pre, Err(Fault::StackUnderflow))
        } else {
            (Chip8View {
                program_counter: pre.stack[pre.stack_pointer - 1],
                stack_pointer: (pre.stack_pointer - 1) as u16,
                ..pre
            }, Ok(StepEvent::Executed))
        },
        Instruction::Sys(_) => (pre, Ok(StepEvent::Executed)),
        Instruction::Jp(nnn) => (
            Chip8View { program_counter: nnn, ..pre },
            Ok(StepEvent::Executed),
        ),
        Instruction::Call(nnn) => if pre.stack_pointer >= 16 {
            (pre, Err(Fault::StackOverflow))
        } else {
            (Chip8View {
                stack: pre.stack.update(pre.stack_pointer as int, pre.program_counter),
                stack_pointer: (pre.stack_pointer + 1) as u16,
                program_counter: nnn,
                ..pre
            }, Ok(StepEvent::Executed))
        },
        Instruction::SeByte(x, kk) => (
            Chip8View {
                program_counter: if pre.v[x as int] == kk {
                    pc_plus_2(pre.program_counter)
                } else {
                    pre.program_counter
                },
                ..pre
            },
            Ok(StepEvent::Executed),
        ),
        Instruction::SneByte(x, kk) => (
            Chip8View {
                program_counter: if pre.v[x as int] != kk {
                    pc_plus_2(pre.program_counter)
                } else {
                    pre.program_counter
                },
                ..pre
            },
            Ok(StepEvent::Executed),
        ),
        Instruction::SeReg(x, y) => (
            Chip8View {
                program_counter: if pre.v[x as int] == pre.v[y as int] {
                    pc_plus_2(pre.program_counter)
                } else {
                    pre.program_counter
                },
                ..pre
            },
            Ok(StepEvent::Executed),
        ),
        Instruction::LdByte(x, kk) => (
            Chip8View { v: pre.v.update(x as int, kk), ..pre },
            Ok(StepEvent::Executed),
        ),
        Instruction::AddByte(x, kk) => (
            Chip8View { v: pre.v.update(x as int, wrap_add_byte(pre.v[x as int], kk)), ..pre },
            Ok(StepEvent::Executed),
        ),
        Instruction::LdReg(x, y) => (
            Chip8View { v: pre.v.update(x as int, pre.v[y as int]), ..pre },
            Ok(StepEvent::Executed),
        ),
        Instruction::Or(x, y) => (
            Chip8View { v: pre.v.update(x as int, pre.v[x as int] | pre.v[y as int]), ..pre },
            Ok(StepEvent::Executed),
        ),
        Instruction::And(x, y) => (
            Chip8View { v: pre.v.update(x as int, pre.v[x as int] & pre.v[y as int]), ..pre },
            Ok(StepEvent::Executed),
        ),
        Instruction::Xor(x, y) => (
            Chip8View { v: pre.v.update(x as int, pre.v[x as int] ^ pre.v[y as int]), ..pre },
            Ok(StepEvent::Executed),
        ),
        Instruction::AddReg(x, y) => (
            Chip8View {
                v: pre.v
                    .update(x as int, wrap_add_byte(pre.v[x as int], pre.v[y as int]))
                    .update(15, if pre.v[x as int] + pre.v[y as int] > 255 { 1u8 } else { 0u8 }),
                ..pre
            },
            Ok(StepEvent::Executed),
        ),
        Instruction::Sub(x, y) => (
            Chip8View {
                v: pre.v
                    .update(15, if pre.v[x as int] > pre.v[y as int] { 1u8 } else { 0u8 })
                    .update(x as int, wrap_sub_byte(pre.v[x as int], pre.v[y as int])),
                ..pre
            },
            Ok(StepEvent::Executed),
        ),
        Instruction::Shr(x) => (
            Chip8View {
                v: pre.v
                    .update(15, pre.v[x as int] & 1)
                    .update(x as int, pre.v[x as int] >> 1u8),
                ..pre
            },
            Ok(StepEvent::Executed),
        ),
        Instruction::Subn(x, y) => (
            Chip8View {
                v: pre.v
                    .update(15, if pre.v[y as int] > pre.v[x as int] { 1u8 } else { 0u8 })
                    .update(x as int, wrap_sub_byte(pre.v[y as int], pre.v[x as int])),
                ..pre
            },
            Ok(StepEvent::Executed),
        ),
        Instruction::Shl(x) => (
            Chip8View {
                v: pre.v
                    .update(15, pre.v[x as int] >> 7u8)
                    .update(x as int, wrap_shl_byte(pre.v[x as int])),
                ..pre
            },
            Ok(StepEvent::Executed),
        ),
        Instruction::SneReg(x, y) => (
            Chip8View {
                program_counter: if pre.v[x as int] != pre.v[y as int] {
                    pc_plus_2(pre.program_counter)
                } else {
                    pre.program_counter
                },
                ..pre
            },
            Ok(StepEvent::Executed),
        ),
        Instruction::LdIndex(nnn) => (
            Chip8View { index_register: (nnn % 4096) as u16, ..pre },
            Ok(StepEvent::Executed),
        ),
        Instruction::JpV0(nnn) => (
            Chip8View { program_counter: ((nnn + pre.v[0]) % 0x10000) as u16, ..pre },
            Ok(StepEvent::Executed),
        ),
        Instruction::Rnd(x, kk) => (
            Chip8View {
                rng_state: rng_next(pre.rng_state),
                v: pre.v.update(x as int, rng_byte(pre.rng_state) & kk),
                ..pre
            },
            Ok(StepEvent::Executed),
        ),
        Instruction::Drw(x, y, n) => drw_spec(pre, x as int, y as int, n as int),
        Instruction::Skp(x) => (
            Chip8View {
                program_counter: if pre.keys[(pre.v[x as int] & 0x0F) as int] {
                    pc_plus_2(pre.program_counter)
                } else {
                    pre.program_counter
                },
                ..pre
            },
            Ok(StepEvent::Executed),
        ),
        Instruction::Sknp(x) => (
            Chip8View {
                program_counter: if !pre.keys[(pre.v[x as int] & 0x0F) as int] {
                    pc_plus_2(pre.program_counter)
                } else {
                    pre.program_counter
                },
                ..pre
            },
            Ok(StepEvent::Executed),
        ),
        Instruction::LdVxDt(x) => (
            Chip8View { v: pre.v.update(x as int, pre.delay_timer), ..pre },
            Ok(StepEvent::Executed),
        ),
        Instruction::WaitKey(x) => match lowest_pressed_from(pre.keys, 0) {
            Some(k) => (
                Chip8View { v: pre.v.update(x as int, k), ..pre },
                Ok(StepEvent::Executed),
            ),
            None => (
                Chip8View { program_counter: pc_minus_2(pre.program_counter), ..pre },
                Ok(StepEvent::WaitingForKey),
            ),
        },
        Instruction::LdDtVx(x) => (
            Chip8View { delay_timer: pre.v[x as int], ..pre },
            Ok(StepEvent::Executed),
        ),
        Instruction::LdStVx(x) => (
            Chip8View { sound_timer: pre.v[x as int], ..pre },
            Ok(StepEvent::Executed),
        ),
        Instruction::AddIndex(x) => (
            Chip8View {
                index_register: ((pre.index_register + pre.v[x as int]) % 4096) as u16,
                ..pre
            },
            Ok(StepEvent::Executed),
        ),
        Instruction::LdFont(x) => (
            Chip8View { index_register: ((pre.v[x as int] & 0x0F) * 5) as u16, ..pre },
            Ok(StepEvent::Executed),
        ),
        Instruction::StoreBcd(x) => bcd_spec(pre, x as int),
        Instruction::StoreRegs(x) => store_regs_spec(pre, x as int),
        Instruction::LoadRegs(x) => load_regs_spec(pre, x as int),
    }
}

/// One fetch-decode-execute round from a given state: the fault cases
/// (unreadable program counter, unknown opcode) and otherwise the decoded
/// instruction's effect on the state with the program counter advanced by 2.
pub open spec fn step_spec(pre: Chip8View) -> (Chip8View, Result<StepEvent, Fault>) {
    if pre.program_counter + 1 >= MEMORY_SIZE {
        (pre, Err(Fault::ProgramCounterOutOfRange))
    } else {
        let op = combine_bytes(
            pre.memory[pre.program_counter as int],
            pre.memory[pre.program_counter + 1],
        );
        let fetched = Chip8View { current_opcode: op, ..pre };
        match decode_spec(op) {
            None => (fetched, Err(Fault::UnknownOpcode(op))),
            Some(instr) => exec_spec(
                Chip8View { program_counter: (pre.program_counter + 2) as u16, ..fetched },
                instr,
            ),
        }
    }
}

/// Adds 2 to a program counter value, wrapping at 16 bits.
fn bump_pc(pc: u16) -> (r: u16)
    ensures
        r == pc_plus_2(pc),
{
    ((pc as u32 + 2) % 0x10000) as u16
}

impl Chip8 {
    /// The lowest pressed key, if any.
    fn first_pressed_key(&self) -> (r: Option<u8>)
        requires
            self.wf(),
        ensures
            r == lowest_pressed_from(self@.keys, 0),
    {
        let mut i: usize = 0;
        while i < 16
            invariant
                0 <= i <= 16,
                self.wf(),
                lowest_pressed_from(self@.keys, 0) == lowest_pressed_from(self@.keys, i as int),
            decreases 16 - i,
        {
            if self.keys[i] {
                return Some(i as u8);
            }
            i = i + 1;
        }
        None
    }

    /// Stores V0..Vx to memory at the index register.
    #[verifier::loop_isolation(false)]
    fn exec_store_regs(&mut self, x: u8) -> (r: Result<StepEvent, Fault>)
        requires
            old(self).wf(),
            x < 16,
        ensures
            final(self).wf(),
            final(self)@ == store_regs_spec(old(self)@, x as int).0,
            r == store_regs_spec(old(self)@, x as int).1,
    {
        let i0 = self.index_register as usize;
        if (x as usize) + 1 > MEMORY_SIZE - i0 {
            return Err(Fault::MemoryOutOfRange);
        }
        let mut k: usize = 0;
        while k < (x as usize) + 1
            invariant
                0 <= k <= x as usize + 1,
                self.memory@.len() == MEMORY_SIZE,
                forall|j: int| 0 <= j < k ==> self.memory@[i0 + j] == old(self)@.v[j],
                forall|j: int| 0 <= j < MEMORY_SIZE && !(i0 <= j < i0 + k) ==> self.memory@[j] == old(self)@.memory[j],
                self.current_opcode == old(self).current_opcode,
                self.index_register == old(self).index_register,
                self.program_counter == old(self).program_counter,
                self.delay_timer == old(self).delay_timer,
                self.sound_timer == old(self).sound_timer,
                self.stack_pointer == old(self).stack_pointer,
                self.rng_state == old(self).rng_state,
                self.v@ == old(self)@.v,
                self.gfx@ == old(self)@.gfx,
                self.stack@ == old(self)@.stack,
                self.keys@ == old(self)@.keys,
            decreases x as usize + 1 - k,
        {
            let b = self.v[k];
            self.memory.set(i0 + k, b);
            k = k + 1;
        }
        proof {
            assert(self@.memory =~= store_regs_memory(old(self)@, x as int));
            assert(self@ =~= (Chip8View { memory: store_regs_memory(old(self)@, x as int), ..old(self)@ }));
        }
        Ok(StepEvent::Executed)
    }

    /// Loads V0..Vx from memory at the index register.
    #[verifier::loop_isolation(false)]
    fn exec_load_regs(&mut self, x: u8) -> (r: Result<StepEvent, Fault>)
        requires
            old(self).wf(),
            x < 16,
        ensures
            final(self).wf(),
            final(self)@ == load_regs_spec(old(self)@, x as int).0,
            r == load_regs_spec(old(self)@, x as int).1,
    {
        let i0 = self.index_register as usize;
        if (x as usize) + 1 > MEMORY_SIZE - i0 {
            return Err(Fault::MemoryOutOfRange);
        }
        let mut k: usize = 0;
        while k < (x as usize) + 1
            invariant
                0 <= k <= x as usize + 1,
                self.v@.len() == 16,
                forall|j: int| 0 <= j < k ==> self.v@[j] == old(self)@.memory[i0 + j],
                forall|j: int| 0 <= j < 16 && !(j < k) ==> self.v@[j] == old(self)@.v[j],
                self.current_opcode == old(self).current_opcode,
                self.index_register == old(self).index_register,
                self.program_counter == old(self).program_counter,
                self.delay_timer == old(self).delay_timer,
                self.sound_timer == old(self).sound_timer,
                self.stack_pointer == old(self).stack_pointer,
                self.rng_state == old(self).rng_state,
                self.memory@ == old(self)@.memory,
                self.gfx@ == old(self)@.gfx,
                self.stack@ == old(self)@.stack,
                self.keys@ == old(self)@.keys,
            decreases x as usize + 1 - k,
        {
            let b = self.memory[i0 + k];
            self.v.set(k, b);
            k = k + 1;
        }
        proof {
            assert(self@.v =~= load_regs_v(old(self)@, x as int));
            assert(self@ =~= (Chip8View { v: load_regs_v(old(self)@, x as int), ..old(self)@ }));
        }
        Ok(StepEvent::Executed)
    }

    /// Stores the three decimal digits of Vx at the index register.
    fn exec_store_bcd(&mut self, x: u8) -> (r: Result<StepEvent, Fault>)
        requires
            old(self).wf(),
            x < 16,
        ensures
            final(self).wf(),
            final(self)@ == bcd_spec(old(self)@, x as int).0,
            r == bcd_spec(old(self)@, x as int).1,
    {
        let i0 = self.index_register as usize;
        if 3 > MEMORY_SIZE - i0 {
            return Err(Fault::MemoryOutOfRange);
        }
        let val = self.v[x as usize];
        self.memory.set(i0, val / 100);
        self.memory.set(i0 + 1, (val / 10) % 10);
        self.memory.set(i0 + 2, val % 10);
        Ok(StepEvent::Executed)
    }

    /// Retires one decoded instruction. The program counter must already
    /// point past it; a wait-for-key that finds no key steps the counter back
    /// onto the instruction and reports that it is waiting.
    pub fn execute(&mut self, instr: Instruction) -> (r: Result<StepEvent, Fault>)
        requires
            old(self).wf(),
            instr.wf(),
        ensures
            final(self).wf(),
            final(self)@ == exec_spec(old(self)@, instr).0,
            r == exec_spec(old(self)@, instr).1,
    {
        match instr {
            Instruction::Cls => {
                self.clear_screen();
                Ok(StepEvent::Executed)
            },
            Instruction::Ret => {
                if self.stack_pointer == 0 {
                    Err(Fault::StackUnderflow)
                } else {
                    self.stack_pointer = self.stack_pointer - 1;
                    self.program_counter = self.stack[self.stack_pointer as usize];
                    Ok(StepEvent::Executed)
                }
            },
            Instruction::Sys(_) => Ok(StepEvent::Executed),
            Instruction::Jp(nnn) => {
                self.program_counter = nnn;
                Ok(StepEvent::Executed)
            },
            Instruction::Call(nnn) => {
                if self.stack_pointer >= 16 {
                    Err(Fault::StackOverflow)
                } else {
                    let pc = self.program_counter;
                    self.stack.set(self.stack_pointer as usize, pc);
                    self.stack_pointer = self.stack_pointer + 1;
                    self.program_counter = nnn;
                    Ok(StepEvent::Executed)
                }
            },
            Instruction::SeByte(x, kk) => {
                if self.v[x as usize] == kk {
                    self.program_counter = bump_pc(self.program_counter);
                }
                Ok(StepEvent::Executed)
            },
            Instruction::SneByte(x, kk) => {
                if self.v[x as usize] != kk {
                    self.program_counter = bump_pc(self.program_counter);
                }
                Ok(StepEvent::Executed)
            },
            Instruction::SeReg(x, y) => {
                if self.v[x as usize] == self.v[y as usize] {
                    self.program_counter = bump_pc(self.program_counter);
                }
                Ok(StepEvent::Executed)
            },
            Instruction::LdByte(x, kk) => {
                self.v.set(x as usize, kk);
                Ok(StepEvent::Executed)
            },
            Instruction::AddByte(x, kk) => {
                let sum: u16 = self.v[x as usize] as u16 + kk as u16;
                self.v.set(x as usize, (sum % 256) as u8);
                Ok(StepEvent::Executed)
            },
            Instruction::LdReg(x, y) => {
                let b = self.v[y as usize];
                self.v.set(x as usize, b);
                Ok(StepEvent::Executed)
            },
            Instruction::Or(x, y) => {
                let b = self.v[x as usize] | self.v[y as usize];
                self.v.set(x as usize, b);
                Ok(StepEvent::Executed)
            },
            Instruction::And(x, y) => {
                let b = self.v[x as usize] & self.v[y as usize];
                self.v.set(x as usize, b);
                Ok(StepEvent::Executed)
            },
            Instruction::Xor(x, y) => {
                let b = self.v[x as usize] ^ self.v[y as usize];
                self.v.set(x as usize, b);
                Ok(StepEvent::Executed)
            },
            Instruction::AddReg(x, y) => {
                let a = self.v[x as usize];
                let b = self.v[y as usize];
                let sum: u16 = a as u16 + b as u16;
                self.v.set(x as usize, (sum % 256) as u8);
                self.v.set(15, if sum > 255 { 1 } else { 0 });
                Ok(StepEvent::Executed)
            },
            Instruction::Sub(x, y) => {
                let a = self.v[x as usize];
                let b = self.v[y as usize];
                self.v.set(15, if a > b { 1 } else { 0 });
                self.v.set(x as usize, sub_bytes(a, b));
                Ok(StepEvent::Executed)
            },
            Instruction::Shr(x) => {
                let a = self.v[x as usize];
                self.v.set(15, a & 1);
                self.v.set(x as usize, a >> 1u8);
                Ok(StepEvent::Executed)
            },
            Instruction::Subn(x, y) => {
                let a = self.v[x as usize];
                let b = self.v[y as usize];
                self.v.set(15, if b > a { 1 } else { 0 });
                self.v.set(x as usize, sub_bytes(b, a));
                Ok(StepEvent::Executed)
            },
            Instruction::Shl(x) => {
                let a = self.v[x as usize];
                self.v.set(15, a >> 7u8);
                self.v.set(x as usize, ((a as u16 * 2) % 256) as u8);
                Ok(StepEvent::Executed)
            },
            Instruction::SneReg(x, y) => {
                if self.v[x as usize] != self.v[y as usize] {
                    self.program_counter = bump_pc(self.program_counter);
                }
                Ok(StepEvent::Executed)
            },
            Instruction::LdIndex(nnn) => {
                self.index_register = nnn % 4096;
                Ok(StepEvent::Executed)
            },
            Instruction::JpV0(nnn) => {
                self.program_counter = ((nnn as u32 + self.v[0] as u32) % 0x10000) as u16;
                Ok(StepEvent::Executed)
            },
            Instruction::Rnd(x, kk) => {
                let ns = ((self.rng_state as u32 * 25173 + 13849) % 0x10000) as u16;
                self.rng_state = ns;
                let rb = ((ns >> 8u16) as u8) & kk;
                self.v.set(x as usize, rb);
                Ok(StepEvent::Executed)
            },
            Instruction::Drw(x, y, n) => self.exec_draw(x, y, n),
            Instruction::Skp(x) => {
                let vb = self.v[x as usize];
                proof {
                    assert(vb & 0x0F < 16) by (bit_vector);
                }
                if self.keys[(vb & 0x0F) as usize] {
                    self.program_counter = bump_pc(self.program_counter);
                }
                Ok(StepEvent::Executed)
            },
            Instruction::Sknp(x) => {
                let vb = self.v[x as usize];
                proof {
                    assert(vb & 0x0F < 16) by (bit_vector);
                }
                if !self.keys[(vb & 0x0F) as usize] {
                    self.program_counter = bump_pc(self.program_counter);
                }
                Ok(StepEvent::Executed)
            },
            Instruction::LdVxDt(x) => {
                let d = self.delay_timer;
                self.v.set(x as usize, d);
                Ok(StepEvent::Executed)
            },
            Instruction::WaitKey(x) => {
                match self.first_pressed_key() {
                    Some(k) => {
                        proof {
                            lemma_lowest_pressed_bound(self@.keys, 0);
                        }
                        self.v.set(x as usize, k);
                        Ok(StepEvent::Executed)
                    },
                    None => {
                        self.program_counter = ((self.program_counter as u32 + 0xFFFE) % 0x10000) as u16;
                        Ok(StepEvent::WaitingForKey)
                    },
                }
            },
            Instruction::LdDtVx(x) => {
                self.delay_timer = self.v[x as usize];
                Ok(StepEvent::Executed)
            },
            Instruction::LdStVx(x) => {
                self.sound_timer = self.v[x as usize];
                Ok(StepEvent::Executed)
            },
            Instruction::AddIndex(x) => {
                self.index_register = (self.index_register + self.v[x as usize] as u16) % 4096;
                Ok(StepEvent::Executed)
            },
            Instruction::LdFont(x) => {
                let vb = self.v[x as usize];
                proof {
                    assert(vb & 0x0F < 16) by (bit_vector);
                }
                self.index_register = ((vb & 0x0F) as u16) * 5;
                Ok(StepEvent::Executed)
            },
            Instruction::StoreBcd(x) => self.exec_store_bcd(x),
            Instruction::StoreRegs(x) => self.exec_store_regs(x),
            Instruction::LoadRegs(x) => self.exec_load_regs(x),
        }
    }

    /// One unit of forward progress: fetch the opcode at the program counter,
    /// advance the counter by 2, decode, execute. A fault leaves the counter
    /// where it was; a wait-for-key with no key pressed does not retire.
    pub fn step(&mut self) -> (r: Result<StepEvent, Fault>)
        requires
            old(self).wf(),
        ensures
            final(self).wf(),
            final(self)@ == step_spec(old(self)@).0,
            r == step_spec(old(self)@).1,
    {
        if self.program_counter >= 4095 {
            return Err(Fault::ProgramCounterOutOfRange);
        }
        self.fetch_opcode();
        let op = self.current_opcode;
        match decode(op) {
            None => Err(Fault::UnknownOpcode(op)),
            Some(instr) => {
                self.program_counter = self.program_counter + 2;
                self.execute(instr)
            },
        }
    }
}

/// Byte subtraction wrapping modulo 256, as the subtraction opcodes use it.
fn sub_bytes(a: u8, b: u8) -> (r: u8)
    ensures
        r == wrap_sub_byte(a, b),
{
    if a >= b {
        a - b
    } else {
        ((a as u16 + 256) - b as u16) as u8
    }
}

/// The lowest pressed key that the search reports is a real key index.
proof fn lemma_lowest_pressed_bound(keys: Seq<bool>, i: int)
    ensures
        lowest_pressed_from(keys, i) matches Some(k) ==> 0 <= k < 16,
    decreases 16 - i,
{
    if i < 0 || i >= 16 {
    } else if keys[i] {
    } else {
        lemma_lowest_pressed_bound(keys, i + 1);
    }
}

} // verus!
