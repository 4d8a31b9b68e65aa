//! Sprite drawing: the XOR blit with coordinate wraparound on both axes.
//!
//! A sprite is `n` consecutive bytes of memory, each byte one row of eight
//! pixels, the leftmost pixel in the high bit. The blit toggles every pixel
//! under a set sprite bit; the collision flag reports whether some pixel
//! that was lit before the draw went dark. Columns wrap modulo 64 and rows
//! modulo 32, so a sprite drawn near the right or bottom edge continues on
//! the opposite edge rather than being clipped.
//!
//! The specification is pointwise: because a sprite is at most 15 rows of 8
//! columns, distinct sprite bits land on distinct pixels, so each pixel `p`
//! of the new display is a direct function of the old pixel and of the one
//! sprite bit (if any) that covers `p`.

use vstd::prelude::*;
use vstd::pervasive::VecAdditionalExecFns;
use vstd::arithmetic::div_mod::{
    lemma_fundamental_div_mod, lemma_fundamental_div_mod_converse_div,
    lemma_fundamental_div_mod_converse_mod, lemma_mod_bound, lemma_mod_multiples_vanish,
    lemma_small_mod,
};

use crate::machine::{ChipView, Chipst8};

verus! {

/// Whether column bit `c` (0 is the leftmost pixel) of sprite row `b` is set.
pub open spec fn sprite_bit(b: u8, c: int) -> bool {
    (b >> ((7 - c) as u8)) & 1 == 1
}

/// The flat display index hit by sprite row `r`, column `c`, for a sprite
/// anchored at `(vx, vy)`: wraparound on both axes.
pub open spec fn hit_index(vx: u8, vy: u8, r: int, c: int) -> int {
    ((vy + r) % 32) * 64 + ((vx + c) % 64)
}

/// Whether the draw of an `n`-row sprite at `(vx, vy)`, read from memory at
/// `i`, covers flat pixel `p` with a set sprite bit. Keyed by the pixel: the
/// sprite row and column that could cover `p` are recovered by inverting the
/// wraparound.
pub open spec fn draw_hit(mem: Seq<u8>, i: u16, vx: u8, vy: u8, n: int, p: int) -> bool {
    let dr = (p / 64 - vy) % 32;
    let dc = (p % 64 - vx) % 64;
    &&& dr < n
    &&& dc < 8
    &&& sprite_bit(mem[(i + dr) % 4096], dc)
}

/// [`draw_hit`] restricted to the sprite bits before row `r`, column `c` in
/// drawing order; used to state the blit's loop invariants.
spec fn draw_hit_upto(
    mem: Seq<u8>,
    i: u16,
    vx: u8,
    vy: u8,
    r: int,
    c: int,
    p: int,
) -> bool {
    let dr = (p / 64 - vy) % 32;
    let dc = (p % 64 - vx) % 64;
    &&& dc < 8
    &&& sprite_bit(mem[(i + dr) % 4096], dc)
    &&& (dr < r || (dr == r && dc < c))
}

/// The display after the draw: every covered pixel toggled.
pub open spec fn draw_display(
    d: Seq<bool>,
    mem: Seq<u8>,
    i: u16,
    vx: u8,
    vy: u8,
    n: int,
) -> Seq<bool> {
    Seq::new(2048, |p: int| if draw_hit(mem, i, vx, vy, n, p) { !d[p] } else { d[p] })
}

/// Whether the draw turns some lit pixel dark: the collision flag.
pub open spec fn draw_collision(
    d: Seq<bool>,
    mem: Seq<u8>,
    i: u16,
    vx: u8,
    vy: u8,
    n: int,
) -> bool {
    exists|p: int| 0 <= p < 2048 && d[p] && draw_hit(mem, i, vx, vy, n, p)
}

/// Inverting the wraparound: offset `off` into a wrapped span starting at
/// `base` is recovered from the wrapped position.
pub(crate) proof fn lemma_wrap_inverse(base: int, off: int, m: int)
    requires
        0 < m,
        0 <= off < m,
        0 <= base,
    ensures
        ((base + off) % m - base) % m == off,
{
    let t = base + off;
    let q = t / m;
    lemma_fundamental_div_mod(t, m);
    assert(t % m - base == m * (-q) + off) by {
        assert(m * (-q) == -(m * q)) by (nonlinear_arith);
    }
    lemma_mod_multiples_vanish(-q, off, m);
    lemma_small_mod(off as nat, m as nat);
}

/// The converse: a wrapped position is recovered from its offset.
pub(crate) proof fn lemma_wrap_forward(base: int, x: int, m: int)
    requires
        0 < m,
        0 <= x < m,
        0 <= base,
    ensures
        (base + ((x - base) % m)) % m == x,
{
    let o = (x - base) % m;
    let q = (x - base) / m;
    lemma_fundamental_div_mod(x - base, m);
    assert(base + o == m * (-q) + x) by {
        assert(m * (-q) == -(m * q)) by (nonlinear_arith);
    }
    lemma_mod_multiples_vanish(-q, x, m);
    lemma_small_mod(x as nat, m as nat);
}

/// Where sprite bit `(r, c)` lands: the hit index is in range and inverts
/// back to exactly `(r, c)`.
pub(crate) proof fn lemma_hit_offsets(vx: u8, vy: u8, r: int, c: int)
    requires
        0 <= r < 32,
        0 <= c < 64,
    ensures
        0 <= hit_index(vx, vy, r, c) < 2048,
        hit_index(vx, vy, r, c) / 64 == (vy + r) % 32,
        hit_index(vx, vy, r, c) % 64 == (vx + c) % 64,
        (hit_index(vx, vy, r, c) / 64 - vy) % 32 == r,
        (hit_index(vx, vy, r, c) % 64 - vx) % 64 == c,
{
    let row = (vy + r) % 32;
    let col = (vx + c) % 64;
    lemma_mod_bound(vy + r, 32);
    lemma_mod_bound(vx + c, 64);
    let p = hit_index(vx, vy, r, c);
    lemma_fundamental_div_mod_converse_div(p, 64, row, col);
    lemma_fundamental_div_mod_converse_mod(p, 64, row, col);
    lemma_wrap_inverse(vy as int, r, 32);
    lemma_wrap_inverse(vx as int, c, 64);
}

/// Uniqueness: a pixel whose inverted offsets are `(r, c)` is the one hit
/// index of `(r, c)`.
proof fn lemma_hit_unique(vx: u8, vy: u8, r: int, c: int, p: int)
    requires
        0 <= r < 32,
        0 <= c < 64,
        0 <= p < 2048,
        (p / 64 - vy) % 32 == r,
        (p % 64 - vx) % 64 == c,
    ensures
        p == hit_index(vx, vy, r, c),
{
    let row = p / 64;
    let col = p % 64;
    lemma_mod_bound(p, 64);
    assert(0 <= row < 32 && 0 <= col < 64);
    lemma_wrap_forward(vy as int, row, 32);
    lemma_wrap_forward(vx as int, col, 64);
    assert((vy + r) % 32 == row);
    assert((vx + c) % 64 == col);
    lemma_fundamental_div_mod(p, 64);
}

impl Chipst8 {
    /// The XOR blit of one `n`-row sprite anchored at `(VX, VY)`, read from
    /// memory at the index register, with wraparound on both axes; VF is set
    /// to 1 exactly when some lit pixel went dark.
    pub(crate) fn op_draw(&mut self, x: usize, y: usize, n: usize)
        requires
            old(self).wf(),
            x < 16,
            y < 16,
            n < 16,
        ensures
            final(self).wf(),
            final(self)@ == (ChipView {
                display: draw_display(
                    old(self)@.display,
                    old(self)@.memory,
                    old(self)@.i,
                    old(self)@.v[x as int],
                    old(self)@.v[y as int],
                    n as int,
                ),
                v: old(self)@.v.update(
                    15,
                    if draw_collision(
                        old(self)@.display,
                        old(self)@.memory,
                        old(self)@.i,
                        old(self)@.v[x as int],
                        old(self)@.v[y as int],
                        n as int,
                    ) {
                        1u8
                    } else {
                        0u8
                    },
                ),
                ..old(self)@
            }),
    {
        let vx = self.v[x];
        let vy = self.v[y];
        let ghost d0 = self@.display;
        let ghost mem = self@.memory;
        let ghost i0 = self@.i;
        let mut collision = false;
        let mut r: usize = 0;
        while r < n
            invariant
                r <= n,
                n < 16,
                self.wf(),
                self@ == (ChipView { display: self@.display, ..old(self)@ }),
                d0 == old(self)@.display,
                mem == old(self)@.memory,
                i0 == old(self)@.i,
                vx == old(self)@.v[x as int],
                vy == old(self)@.v[y as int],
                forall|p: int|
                    0 <= p < 2048 ==> self@.display[p] == (if draw_hit_upto(
                        mem,
                        i0,
                        vx,
                        vy,
                        r as int,
                        0,
                        p,
                    ) {
                        !d0[p]
                    } else {
                        d0[p]
                    }),
                collision == exists|p: int|
                    0 <= p < 2048 && d0[p] && draw_hit_upto(mem, i0, vx, vy, r as int, 0, p),
            decreases n - r,
        {
            let row_byte = self.memory[((self.i as usize) + r) % 4096];
            let mut c: usize = 0;
            while c < 8
                invariant
                    c <= 8,
                    r < n,
                    n < 16,
                    self.wf(),
                    self@ == (ChipView { display: self@.display, ..old(self)@ }),
                    d0 == old(self)@.display,
                    mem == old(self)@.memory,
                    i0 == old(self)@.i,
                    vx == old(self)@.v[x as int],
                    vy == old(self)@.v[y as int],
                    row_byte == mem[(i0 + r) % 4096],
                    forall|p: int|
                        0 <= p < 2048 ==> self@.display[p] == (if draw_hit_upto(
                            mem,
                            i0,
                            vx,
                            vy,
                            r as int,
                            c as int,
                            p,
                        ) {
                            !d0[p]
                        } else {
                            d0[p]
                        }),
                    collision == exists|p: int|
                        0 <= p < 2048 && d0[p] && draw_hit_upto(
                            mem,
                            i0,
                            vx,
                            vy,
                            r as int,
                            c as int,
                            p,
                        ),
                decreases 8 - c,
            {
                let bit_set = (row_byte >> ((7 - c) as u8)) & 1 == 1;
                proof {
                    lemma_hit_offsets(vx, vy, r as int, c as int);
                }
                let ghost p0 = hit_index(vx, vy, r as int, c as int);
                if bit_set {
                    let px = ((vx as usize) + c) % 64;
                    let py = ((vy as usize) + r) % 32;
                    let p = py * 64 + px;
                    proof {
                        assert(p == p0);
                        assert(draw_hit_upto(mem, i0, vx, vy, r as int, c as int, p0) == false);
                        assert(self@.display[p0] == d0[p0]);
                    }
                    let cur = self.display[p];
                    if cur {
                        collision = true;
                    }
                    self.display.set(p, !cur);
                    proof {
                        assert(draw_hit_upto(mem, i0, vx, vy, r as int, c as int + 1, p0));
                        assert forall|q: int| 0 <= q < 2048 implies self@.display[q] == (
                        if draw_hit_upto(mem, i0, vx, vy, r as int, c as int + 1, q) {
                            !d0[q]
                        } else {
                            d0[q]
                        }) by {
                            if q != p0 {
                                let dr = (q / 64 - vy) % 32;
                                let dc = (q % 64 - vx) % 64;
                                if dr == r as int && dc == c as int {
                                    lemma_hit_unique(vx, vy, r as int, c as int, q);
                                }
                                assert(draw_hit_upto(mem, i0, vx, vy, r as int, c as int + 1, q)
                                    == draw_hit_upto(mem, i0, vx, vy, r as int, c as int, q));
                            }
                        };
                        if cur {
                            assert(d0[p0] && draw_hit_upto(
                                mem,
                                i0,
                                vx,
                                vy,
                                r as int,
                                c as int + 1,
                                p0,
                            ));
                        } else {
                            assert forall|q: int|
                                0 <= q < 2048 && d0[q] && #[trigger] draw_hit_upto(
                                    mem,
                                    i0,
                                    vx,
                                    vy,
                                    r as int,
                                    c as int + 1,
                                    q,
                                ) implies draw_hit_upto(mem, i0, vx, vy, r as int, c as int, q) by {
                                if q == p0 {
                                    assert(!d0[p0]);
                                } else {
                                    let dr = (q / 64 - vy) % 32;
                                    let dc = (q % 64 - vx) % 64;
                                    if dr == r as int && dc == c as int {
                                        lemma_hit_unique(vx, vy, r as int, c as int, q);
                                    }
                                }
                            };
                        }
                    }
                } else {
                    proof {
                        assert forall|q: int| 0 <= q < 2048 implies draw_hit_upto(
                            mem,
                            i0,
                            vx,
                            vy,
                            r as int,
                            c as int + 1,
                            q,
                        ) == draw_hit_upto(mem, i0, vx, vy, r as int, c as int, q) by {
                            let dr = (q / 64 - vy) % 32;
                            let dc = (q % 64 - vx) % 64;
                            if dr == r as int && dc == c as int {
                                assert(!sprite_bit(mem[(i0 + dr) % 4096], dc));
                            }
                        };
                    }
                }
                c = c + 1;
            }
            proof {
                assert forall|q: int| 0 <= q < 2048 implies draw_hit_upto(
                    mem,
                    i0,
                    vx,
                    vy,
                    r as int + 1,
                    0,
                    q,
                ) == draw_hit_upto(mem, i0, vx, vy, r as int, 8, q) by {};
            }
            r = r + 1;
        }
        proof {
            assert forall|q: int| 0 <= q < 2048 implies draw_hit_upto(
                mem,
                i0,
                vx,
                vy,
                n as int,
                0,
                q,
            ) == draw_hit(mem, i0, vx, vy, n as int, q) by {};
        }
        let vf: u8 = if collision {
            1
        } else {
            0
        };
        self.v.set(15, vf);
        proof {
            assert(self@.display =~= draw_display(d0, mem, i0, vx, vy, n as int));
        }
    }
}

} // verus!
