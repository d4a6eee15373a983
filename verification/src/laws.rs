//! Laws of the machine that relate several instructions, proved over the
//! functional model `exec_spec`.

use vstd::prelude::*;
use crate::chip8::{Chip8View, MEMORY_SIZE};
use crate::isa::{Instruction, Fault, StepEvent};
use crate::exec::exec_spec;
use crate::draw::{draw_collision, draw_gfx, sprite_bit, pixel_index};

verus! {

/// A CALL followed immediately by RET restores the program counter and the
/// stack pointer to their values before the CALL. The bound on the stack
/// pointer is exactly "a slot is free", so the law covers every nesting
/// depth up to the sixteen slots the machine has.
pub proof fn lemma_call_ret_round_trip(pre: Chip8View, nnn: u16)
    requires
        pre.wf(),
        pre.stack_pointer < 16,
    ensures
        ({
            let (s1, r1) = exec_spec(pre, Instruction::Call(nnn));
            let (s2, r2) = exec_spec(s1, Instruction::Ret);
            &&& r1 == Ok::<StepEvent, Fault>(StepEvent::Executed)
            &&& r2 == Ok::<StepEvent, Fault>(StepEvent::Executed)
            &&& s1.program_counter == nnn
            &&& s2.program_counter == pre.program_counter
            &&& s2.stack_pointer == pre.stack_pointer
            &&& s2.v == pre.v
            &&& s2.memory == pre.memory
            &&& s2.gfx == pre.gfx
        }),
{
}

/// Storing V0..Vx at the index register and loading the same extent back
/// reproduces the register file exactly, and the load does not touch memory.
pub proof fn lemma_store_load_round_trip(pre: Chip8View, x: u8)
    requires
        pre.wf(),
        x < 16,
        pre.index_register + x < MEMORY_SIZE,
    ensures
        ({
            let (s1, r1) = exec_spec(pre, Instruction::StoreRegs(x));
            let (s2, r2) = exec_spec(s1, Instruction::LoadRegs(x));
            &&& r1 == Ok::<StepEvent, Fault>(StepEvent::Executed)
            &&& r2 == Ok::<StepEvent, Fault>(StepEvent::Executed)
            &&& s2.v == pre.v
            &&& s2.memory == s1.memory
        }),
{
    let (s1, r1) = exec_spec(pre, Instruction::StoreRegs(x));
    let (s2, r2) = exec_spec(s1, Instruction::LoadRegs(x));
    assert(s2.v =~= pre.v);
}

/// Drawing the same sprite twice at the same coordinates XORs it away: the
/// framebuffer returns to its state before the first draw, and the collision
/// flag of the second draw reports exactly whether some cell lit after the
/// first draw lies under a 1-bit of the sprite. The coordinate registers must
/// not be VF, which the first draw overwrites with its collision flag.
pub proof fn lemma_draw_twice_restores(pre: Chip8View, x: u8, y: u8, n: u8)
    requires
        pre.wf(),
        x < 15,
        y < 15,
        n < 16,
        pre.index_register + n <= MEMORY_SIZE,
    ensures
        ({
            let (s1, r1) = exec_spec(pre, Instruction::Drw(x, y, n));
            let (s2, r2) = exec_spec(s1, Instruction::Drw(x, y, n));
            let vx = pre.v[x as int] as int;
            let vy = pre.v[y as int] as int;
            &&& r1 == Ok::<StepEvent, Fault>(StepEvent::Executed)
            &&& r2 == Ok::<StepEvent, Fault>(StepEvent::Executed)
            &&& s2.gfx == pre.gfx
            &&& (s2.v[15] == 1 <==> exists|rr: int, cc: int|
                #![trigger pixel_index(vx, vy, rr, cc)]
                0 <= rr < n && 0 <= cc < 8
                    && sprite_bit(pre.memory[pre.index_register + rr], cc) == 1
                    && s1.gfx[pixel_index(vx, vy, rr, cc)] == 1)
        }),
{
    let (s1, r1) = exec_spec(pre, Instruction::Drw(x, y, n));
    let (s2, r2) = exec_spec(s1, Instruction::Drw(x, y, n));
    let vx = pre.v[x as int] as int;
    let vy = pre.v[y as int] as int;
    assert(s1.v[x as int] == pre.v[x as int]);
    assert(s1.v[y as int] == pre.v[y as int]);
    assert(s2.gfx == draw_gfx(s1, vx, vy, n as int));
    assert forall|idx: int| 0 <= idx < 2048 implies s2.gfx[idx] == pre.gfx[idx] by {
        let a = pre.gfx[idx];
        assert((a ^ 1) ^ 1 == a) by (bit_vector);
        assert(s1.gfx[idx] == draw_gfx(pre, vx, vy, n as int)[idx]);
    }
    assert(s2.gfx =~= pre.gfx);
    assert(s2.v[15] == 1 <==> draw_collision(s1, vx, vy, n as int));
    assert(draw_collision(s1, vx, vy, n as int) <==> exists|rr: int, cc: int|
        #![trigger pixel_index(vx, vy, rr, cc)]
        0 <= rr < n && 0 <= cc < 8
            && sprite_bit(pre.memory[pre.index_register + rr], cc) == 1
            && s1.gfx[pixel_index(vx, vy, rr, cc)] == 1) by {
        if draw_collision(s1, vx, vy, n as int) {
            let (rr, cc) = choose|rr: int, cc: int|
                #![trigger pixel_index(vx, vy, rr, cc)]
                0 <= rr && 0 <= cc < 8 && (rr < n as int || (rr == n as int && cc < 0))
                    && sprite_bit(s1.memory[s1.index_register + rr], cc) == 1
                    && s1.gfx[pixel_index(vx, vy, rr, cc)] == 1;
            assert(0 <= rr < n && 0 <= cc < 8
                && sprite_bit(pre.memory[pre.index_register + rr], cc) == 1
                && s1.gfx[pixel_index(vx, vy, rr, cc)] == 1);
        }
        if exists|rr: int, cc: int|
            #![trigger pixel_index(vx, vy, rr, cc)]
            0 <= rr < n && 0 <= cc < 8
                && sprite_bit(pre.memory[pre.index_register + rr], cc) == 1
                && s1.gfx[pixel_index(vx, vy, rr, cc)] == 1 {
            let (rr, cc) = choose|rr: int, cc: int|
                #![trigger pixel_index(vx, vy, rr, cc)]
                0 <= rr < n && 0 <= cc < 8
                    && sprite_bit(pre.memory[pre.index_register + rr], cc) == 1
                    && s1.gfx[pixel_index(vx, vy, rr, cc)] == 1;
            assert(0 <= rr && 0 <= cc < 8 && (rr < n as int || (rr == n as int && cc < 0))
                && sprite_bit(s1.memory[s1.index_register + rr], cc) == 1
                && s1.gfx[pixel_index(vx, vy, rr, cc)] == 1);
        }
    }
}

} // verus!
