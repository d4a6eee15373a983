//! The sprite-draw opcode: XOR blit with wraparound and collision flag.
//!
//! A sprite is `n` rows of 8 pixels, one bit per pixel, read from memory at
//! the index register. Row `r`, column `c` lands on the framebuffer cell at
//! `((vy + r) % 32) * 64 + (vx + c) % 64`. Every 1-bit of the sprite toggles
//! its cell; the collision flag reports whether any cell went from on to off.

use vstd::prelude::*;
use vstd::arithmetic::div_mod::{
    lemma_fundamental_div_mod, lemma_fundamental_div_mod_converse, lemma_mod_bound,
    lemma_add_mod_noop_right, lemma_mod_multiples_vanish, lemma_small_mod,
};
use crate::chip8::{Chip8, Chip8View, MEMORY_SIZE};
use crate::isa::{Fault, StepEvent};

verus! {

/// The bit of sprite row byte `b` that falls in column `c`, highest bit
/// first, as 0 or 1.
pub open spec fn sprite_bit(b: u8, c: int) -> u8 {
    (b >> ((7 - c) as u8)) & 1
}

/// The framebuffer cell that sprite row `r`, column `c` lands on when the
/// sprite origin is `(vx, vy)`; coordinates wrap around the display.
pub open spec fn pixel_index(vx: int, vy: int, r: int, c: int) -> int {
    ((vy + r) % 32) * 64 + (vx + c) % 64
}

/// The sprite row that covers the cell `idx`, counted from origin row `vy`.
pub open spec fn row_of(vy: int, idx: int) -> int {
    (idx / 64 - vy) % 32
}

/// The sprite column that covers the cell `idx`, counted from origin
/// column `vx`.
pub open spec fn col_of(vx: int, idx: int) -> int {
    (idx % 64 - vx) % 64
}

/// The value of cell `idx` after drawing the first `r` rows, and in row `r`
/// the first `c` columns, of an `(vx, vy)`-origin sprite: toggled where a
/// drawn 1-bit covers it, unchanged otherwise.
pub open spec fn draw_cell_upto(pre: Chip8View, vx: int, vy: int, r: int, c: int, idx: int) -> u8 {
    let rr = row_of(vy, idx);
    let cc = col_of(vx, idx);
    if (rr < r || (rr == r && cc < c)) && cc < 8
        && sprite_bit(pre.memory[pre.index_register + rr], cc) == 1 {
        pre.gfx[idx] ^ 1
    } else {
        pre.gfx[idx]
    }
}

/// The value of cell `idx` after the whole `n`-row sprite has been drawn.
pub open spec fn draw_cell(pre: Chip8View, vx: int, vy: int, n: int, idx: int) -> u8 {
    draw_cell_upto(pre, vx, vy, n, 0, idx)
}

/// The framebuffer after the whole sprite has been drawn.
pub open spec fn draw_gfx(pre: Chip8View, vx: int, vy: int, n: int) -> Seq<u8> {
    Seq::new(2048, |idx: int| draw_cell(pre, vx, vy, n, idx))
}

/// Whether drawing the first `r` rows, and in row `r` the first `c` columns,
/// turns some lit cell off: a drawn 1-bit over a cell that is on.
pub open spec fn draw_collision_upto(pre: Chip8View, vx: int, vy: int, r: int, c: int) -> bool {
    exists|rr: int, cc: int|
        #![trigger pixel_index(vx, vy, rr, cc)]
        0 <= rr && 0 <= cc < 8 && (rr < r || (rr == r && cc < c))
            && sprite_bit(pre.memory[pre.index_register + rr], cc) == 1
            && pre.gfx[pixel_index(vx, vy, rr, cc)] == 1
}

/// Whether drawing the whole `n`-row sprite turns some lit cell off.
pub open spec fn draw_collision(pre: Chip8View, vx: int, vy: int, n: int) -> bool {
    draw_collision_upto(pre, vx, vy, n, 0)
}

/// State and result of DXYN: the sprite XOR-blitted into the framebuffer and
/// VF set to the collision flag, or a memory fault if the sprite rows would
/// run past the last address.
pub open spec fn drw_spec(pre: Chip8View, x: int, y: int, n: int) -> (Chip8View, Result<StepEvent, Fault>) {
    if pre.index_register + n > MEMORY_SIZE {
        (pre, Err(Fault::MemoryOutOfRange))
    } else {
        let vx = pre.v[x] as int;
        let vy = pre.v[y] as int;
        (Chip8View {
            gfx: draw_gfx(pre, vx, vy, n),
            v: pre.v.update(15, if draw_collision(pre, vx, vy, n) { 1u8 } else { 0u8 }),
            ..pre
        }, Ok(StepEvent::Executed))
    }
}

/// Round trip between a sprite position and its framebuffer cell: the cell a
/// position lands on is inside the buffer and maps back to that position.
pub proof fn lemma_pixel_inverse(vx: int, vy: int, r: int, c: int)
    requires
        0 <= vx < 256,
        0 <= vy < 256,
        0 <= r < 32,
        0 <= c < 8,
    ensures
        0 <= pixel_index(vx, vy, r, c) < 2048,
        row_of(vy, pixel_index(vx, vy, r, c)) == r,
        col_of(vx, pixel_index(vx, vy, r, c)) == c,
{
    let gy = (vy + r) % 32;
    let gx = (vx + c) % 64;
    lemma_mod_bound(vy + r, 32);
    lemma_mod_bound(vx + c, 64);
    let idx = gy * 64 + gx;
    assert(0 <= idx < 2048);
    lemma_fundamental_div_mod_converse(idx, 64, gy, gx);
    assert(idx / 64 == gy && idx % 64 == gx);
    lemma_fundamental_div_mod(vy + r, 32);
    let ky = (vy + r) / 32;
    assert(gy - vy == 32 * (-ky) + r);
    lemma_mod_multiples_vanish(-ky, r, 32);
    lemma_small_mod(r as nat, 32);
    assert(row_of(vy, idx) == r);
    lemma_fundamental_div_mod(vx + c, 64);
    let kx = (vx + c) / 64;
    assert(gx - vx == 64 * (-kx) + c);
    lemma_mod_multiples_vanish(-kx, c, 64);
    lemma_small_mod(c as nat, 64);
    assert(col_of(vx, idx) == c);
}

/// A framebuffer cell is covered by at most one sprite position: a cell that
/// maps back to row `r`, column `c` is the cell that position lands on.
pub proof fn lemma_pixel_unique(vx: int, vy: int, r: int, c: int, idx: int)
    requires
        0 <= vx < 256,
        0 <= vy < 256,
        0 <= idx < 2048,
        row_of(vy, idx) == r,
        col_of(vx, idx) == c,
        0 <= c < 8,
    ensures
        idx == pixel_index(vx, vy, r, c),
{
    let g = idx / 64;
    let h = idx % 64;
    lemma_fundamental_div_mod(idx, 64);
    lemma_mod_bound(idx, 64);
    assert(idx == 64 * g + h);
    assert(0 <= g < 32);
    // row: g == (vy + r) % 32 because r == (g - vy) % 32 and 0 <= g < 32.
    lemma_add_mod_noop_right(vy, g - vy, 32);
    assert((vy + (g - vy) % 32) % 32 == (vy + (g - vy)) % 32);
    lemma_small_mod(g as nat, 32);
    assert((vy + r) % 32 == g);
    // column: h == (vx + c) % 64 because c == (h - vx) % 64 and 0 <= h < 64.
    lemma_add_mod_noop_right(vx, h - vx, 64);
    assert((vx + (h - vx) % 64) % 64 == (vx + (h - vx)) % 64);
    lemma_small_mod(h as nat, 64);
    assert((vx + c) % 64 == h);
}

impl Chip8 {
    /// Draws the `n`-row sprite at the index register to `(Vx, Vy)` and sets
    /// VF to the collision flag, cell by cell, row-major.
    #[verifier::loop_isolation(false)]
    pub(crate) fn exec_draw(&mut self, x: u8, y: u8, n: u8) -> (res: Result<StepEvent, Fault>)
        requires
            old(self).wf(),
            x < 16,
            y < 16,
            n < 16,
        ensures
            final(self).wf(),
            final(self)@ == drw_spec(old(self)@, x as int, y as int, n as int).0,
            res == drw_spec(old(self)@, x as int, y as int, n as int).1,
    {
        let i0 = self.index_register as usize;
        if (n as usize) > MEMORY_SIZE - i0 {
            return Err(Fault::MemoryOutOfRange);
        }
        let vx = self.v[x as usize];
        let vy = self.v[y as usize];
        let ghost pre = self@;
        let mut collision: bool = false;
        let mut r: usize = 0;
        proof {
            assert forall|idx: int| 0 <= idx < 2048 implies
                self.gfx@[idx] == draw_cell_upto(pre, vx as int, vy as int, 0, 0, idx) by {}
            assert(!draw_collision_upto(pre, vx as int, vy as int, 0, 0));
        }
        while r < n as usize
            invariant
                0 <= r <= n as usize,
                self.gfx@.len() == 2048,
                forall|idx: int| 0 <= idx < 2048 ==>
                    self.gfx@[idx] == draw_cell_upto(pre, vx as int, vy as int, r as int, 0, idx),
                collision == draw_collision_upto(pre, vx as int, vy as int, r as int, 0),
                self.memory@ == pre.memory,
                self.v@ == pre.v,
                self.current_opcode == pre.current_opcode,
                self.index_register == pre.index_register,
                self.program_counter == pre.program_counter,
                self.delay_timer == pre.delay_timer,
                self.sound_timer == pre.sound_timer,
                self.stack_pointer == pre.stack_pointer,
                self.rng_state == pre.rng_state,
                self.stack@ == pre.stack,
                self.keys@ == pre.keys,
            decreases n as usize - r,
        {
            let row_byte = self.memory[i0 + r];
            let mut c: u8 = 0;
            while c < 8
                invariant
                    0 <= c <= 8,
                    r < n as usize,
                    row_byte == pre.memory[i0 + r],
                    self.gfx@.len() == 2048,
                    forall|idx: int| 0 <= idx < 2048 ==>
                        self.gfx@[idx] == draw_cell_upto(pre, vx as int, vy as int, r as int, c as int, idx),
                    collision == draw_collision_upto(pre, vx as int, vy as int, r as int, c as int),
                    self.memory@ == pre.memory,
                    self.v@ == pre.v,
                    self.current_opcode == pre.current_opcode,
                    self.index_register == pre.index_register,
                    self.program_counter == pre.program_counter,
                    self.delay_timer == pre.delay_timer,
                    self.sound_timer == pre.sound_timer,
                    self.stack_pointer == pre.stack_pointer,
                    self.rng_state == pre.rng_state,
                    self.stack@ == pre.stack,
                    self.keys@ == pre.keys,
                decreases 8 - c,
            {
                let ghost vxi = vx as int;
                let ghost vyi = vy as int;
                let ghost ri = r as int;
                let ghost ci = c as int;
                let bit = (row_byte >> (7 - c)) & 1;
                proof {
                    assert(bit == sprite_bit(pre.memory[pre.index_register + ri], ci));
                }
                if bit == 1 {
                    let gx = (vx as usize + c as usize) % 64;
                    let gy = (vy as usize + r) % 32;
                    let idx = gy * 64 + gx;
                    proof {
                        lemma_pixel_inverse(vxi, vyi, ri, ci);
                        assert(idx == pixel_index(vxi, vyi, ri, ci));
                        assert(row_of(vyi, idx as int) == ri);
                        assert(col_of(vxi, idx as int) == ci);
                    }
                    let old_px = self.gfx[idx];
                    proof {
                        assert(old_px == draw_cell_upto(pre, vxi, vyi, ri, ci, idx as int));
                        assert(old_px == pre.gfx[idx as int]);
                    }
                    if old_px == 1 {
                        collision = true;
                        proof {
                            assert(0 <= ri && 0 <= ci < 8 && (ri < ri || (ri == ri && ci < ci + 1))
                                && sprite_bit(pre.memory[pre.index_register + ri], ci) == 1
                                && pre.gfx[pixel_index(vxi, vyi, ri, ci)] == 1);
                            assert(draw_collision_upto(pre, vxi, vyi, ri, ci + 1));
                        }
                    } else {
                        proof {
                            assert(draw_collision_upto(pre, vxi, vyi, ri, ci)
                                == draw_collision_upto(pre, vxi, vyi, ri, ci + 1)) by {
                                if draw_collision_upto(pre, vxi, vyi, ri, ci + 1) {
                                    let (rr, cc) = choose|rr: int, cc: int|
                                        #![trigger pixel_index(vxi, vyi, rr, cc)]
                                        0 <= rr && 0 <= cc < 8 && (rr < ri || (rr == ri && cc < ci + 1))
                                            && sprite_bit(pre.memory[pre.index_register + rr], cc) == 1
                                            && pre.gfx[pixel_index(vxi, vyi, rr, cc)] == 1;
                                    if rr == ri && cc == ci {
                                        assert(pre.gfx[idx as int] == 1);
                                        assert(false);
                                    } else {
                                        assert(draw_collision_upto(pre, vxi, vyi, ri, ci));
                                    }
                                }
                            }
                        }
                    }
                    self.gfx.set(idx, old_px ^ 1);
                    proof {
                        assert forall|j: int| 0 <= j < 2048 implies
                            self.gfx@[j] == draw_cell_upto(pre, vxi, vyi, ri, ci + 1, j) by {
                            if j == idx as int {
                                assert(self.gfx@[j] == pre.gfx[j] ^ 1);
                            } else {
                                let rr = row_of(vyi, j);
                                let cc = col_of(vxi, j);
                                if rr == ri && cc == ci && 0 <= cc < 8 {
                                    lemma_pixel_unique(vxi, vyi, ri, ci, j);
                                    assert(false);
                                }
                            }
                        }
                    }
                } else {
                    proof {
                        assert forall|j: int| 0 <= j < 2048 implies
                            self.gfx@[j] == draw_cell_upto(pre, vxi, vyi, ri, ci + 1, j) by {
                            let rr = row_of(vyi, j);
                            let cc = col_of(vxi, j);
                            if rr == ri && cc == ci {
                                assert(sprite_bit(pre.memory[pre.index_register + rr], cc) == bit);
                            }
                        }
                        assert(draw_collision_upto(pre, vxi, vyi, ri, ci)
                            == draw_collision_upto(pre, vxi, vyi, ri, ci + 1)) by {
                            if draw_collision_upto(pre, vxi, vyi, ri, ci + 1) {
                                let (rr, cc) = choose|rr: int, cc: int|
                                    #![trigger pixel_index(vxi, vyi, rr, cc)]
                                    0 <= rr && 0 <= cc < 8 && (rr < ri || (rr == ri && cc < ci + 1))
                                        && sprite_bit(pre.memory[pre.index_register + rr], cc) == 1
                                        && pre.gfx[pixel_index(vxi, vyi, rr, cc)] == 1;
                                if rr == ri && cc == ci {
                                    assert(false);
                                } else {
                                    assert(draw_collision_upto(pre, vxi, vyi, ri, ci));
                                }
                            }
                        }
                    }
                }
                c = c + 1;
            }
            proof {
                let vxi = vx as int;
                let vyi = vy as int;
                let ri = r as int;
                assert forall|j: int| 0 <= j < 2048 implies
                    draw_cell_upto(pre, vxi, vyi, ri, 8, j) == draw_cell_upto(pre, vxi, vyi, ri + 1, 0, j) by {}
                assert(draw_collision_upto(pre, vxi, vyi, ri, 8)
                    == draw_collision_upto(pre, vxi, vyi, ri + 1, 0)) by {
                    if draw_collision_upto(pre, vxi, vyi, ri, 8) {
                        let (rr, cc) = choose|rr: int, cc: int|
                            #![trigger pixel_index(vxi, vyi, rr, cc)]
                            0 <= rr && 0 <= cc < 8 && (rr < ri || (rr == ri && cc < 8))
                                && sprite_bit(pre.memory[pre.index_register + rr], cc) == 1
                                && pre.gfx[pixel_index(vxi, vyi, rr, cc)] == 1;
                        assert(rr < ri + 1 || (rr == ri + 1 && cc < 0));
                        assert(draw_collision_upto(pre, vxi, vyi, ri + 1, 0));
                    }
                    if draw_collision_upto(pre, vxi, vyi, ri + 1, 0) {
                        let (rr, cc) = choose|rr: int, cc: int|
                            #![trigger pixel_index(vxi, vyi, rr, cc)]
                            0 <= rr && 0 <= cc < 8 && (rr < ri + 1 || (rr == ri + 1 && cc < 0))
                                && sprite_bit(pre.memory[pre.index_register + rr], cc) == 1
                                && pre.gfx[pixel_index(vxi, vyi, rr, cc)] == 1;
                        assert(draw_collision_upto(pre, vxi, vyi, ri, 8));
                    }
                }
            }
            r = r + 1;
        }
        let flag: u8 = if collision { 1 } else { 0 };
        self.v.set(15, flag);
        proof {
            let vxi = vx as int;
            let vyi = vy as int;
            let ni = n as int;
            assert forall|j: int| 0 <= j < 2048 implies self.gfx@[j] <= 1 by {
                let a = pre.gfx[j];
                assert(a <= 1);
                assert(a <= 1 ==> (a ^ 1) <= 1 && a ^ 1 <= 1) by (bit_vector);
            }
            assert(self@.gfx =~= draw_gfx(pre, vxi, vyi, ni));
            assert(self@ =~= (Chip8View {
                gfx: draw_gfx(pre, vxi, vyi, ni),
                v: pre.v.update(15, if draw_collision(pre, vxi, vyi, ni) { 1u8 } else { 0u8 }),
                ..pre
            }));
        }
        Ok(StepEvent::Executed)
    }
}

} // verus!
