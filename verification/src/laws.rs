//! Laws of the machine: properties that relate several steps or hold of
//! every state, stated once and proved from the step semantics.

use vstd::prelude::*;
use vstd::arithmetic::div_mod::lemma_mod_bound;

use crate::draw::{
    draw_collision, draw_display, draw_hit, hit_index, lemma_hit_offsets, lemma_wrap_inverse,
    sprite_bit,
};
use crate::machine::{
    blank_display, loaded_view, no_keys, spec_tick, zero_regs, ChipView,
};
use crate::step::{
    imm_nn, nib_n, op_nib, spec_step, wrap16, wrap8, x_reg, y_reg, Effect, Fault,
};

verus! {

/// A 7XNN step adds the immediate to VX modulo 256; no other register, and
/// in particular not the flag register VF (when VX is not VF itself), is
/// touched, and nothing is published.
pub proof fn lemma_add_immediate_wraps(m: ChipView, inst: u16, rnd: u8)
    requires
        m.wf(),
        op_nib(inst) == 0x7,
    ensures
        spec_step(m, inst, rnd).0.v[x_reg(inst)] == wrap8(m.v[x_reg(inst)] + imm_nn(inst)),
        forall|j: int|
            0 <= j < 16 && j != x_reg(inst) ==> spec_step(m, inst, rnd).0.v[j] == m.v[j],
        spec_step(m, inst, rnd).0 == (ChipView {
            v: spec_step(m, inst, rnd).0.v,
            ..m
        }),
        spec_step(m, inst, rnd).1 == Effect::Quiet,
{
}

/// An 8XY4 step leaves in VX the sum of VX and VY modulo 256 and leaves in
/// VF exactly the carry bit of that sum.
pub proof fn lemma_add_regs_carry(m: ChipView, inst: u16, rnd: u8)
    requires
        m.wf(),
        op_nib(inst) == 0x8,
        nib_n(inst) == 0x4,
    ensures
        x_reg(inst) != 15 ==> spec_step(m, inst, rnd).0.v[x_reg(inst)] == wrap8(
            m.v[x_reg(inst)] + m.v[y_reg(inst)],
        ),
        spec_step(m, inst, rnd).0.v[15] == (if m.v[x_reg(inst)] + m.v[y_reg(inst)] > 255 {
            1u8
        } else {
            0u8
        }),
        spec_step(m, inst, rnd).1 == Effect::Quiet,
{
}

/// An 8XY5 step leaves in VX the difference of VX and VY modulo 256 and
/// leaves in VF 1 exactly when no borrow was needed.
pub proof fn lemma_sub_regs_borrow(m: ChipView, inst: u16, rnd: u8)
    requires
        m.wf(),
        op_nib(inst) == 0x8,
        nib_n(inst) == 0x5,
    ensures
        x_reg(inst) != 15 ==> spec_step(m, inst, rnd).0.v[x_reg(inst)] == wrap8(
            m.v[x_reg(inst)] - m.v[y_reg(inst)],
        ),
        spec_step(m, inst, rnd).0.v[15] == (if m.v[x_reg(inst)] >= m.v[y_reg(inst)] {
            1u8
        } else {
            0u8
        }),
        spec_step(m, inst, rnd).1 == Effect::Quiet,
{
}

/// An 8XY7 step leaves in VX the difference of VY and VX modulo 256 and
/// leaves in VF 1 exactly when no borrow was needed.
pub proof fn lemma_rsub_regs_borrow(m: ChipView, inst: u16, rnd: u8)
    requires
        m.wf(),
        op_nib(inst) == 0x8,
        nib_n(inst) == 0x7,
    ensures
        x_reg(inst) != 15 ==> spec_step(m, inst, rnd).0.v[x_reg(inst)] == wrap8(
            m.v[y_reg(inst)] - m.v[x_reg(inst)],
        ),
        spec_step(m, inst, rnd).0.v[15] == (if m.v[y_reg(inst)] >= m.v[x_reg(inst)] {
            1u8
        } else {
            0u8
        }),
        spec_step(m, inst, rnd).1 == Effect::Quiet,
{
}

/// Drawing the same sprite at the same anchor twice restores the display
/// exactly, and the second draw reports a collision precisely when the
/// first draw lit some pixel.
pub proof fn lemma_draw_twice_restores(
    d: Seq<bool>,
    mem: Seq<u8>,
    i: u16,
    vx: u8,
    vy: u8,
    n: int,
)
    requires
        d.len() == 2048,
    ensures
        draw_display(draw_display(d, mem, i, vx, vy, n), mem, i, vx, vy, n) == d,
        draw_collision(draw_display(d, mem, i, vx, vy, n), mem, i, vx, vy, n) <==> (exists|p: int|
            0 <= p < 2048 && !d[p] && draw_display(d, mem, i, vx, vy, n)[p]),
{
    let d1 = draw_display(d, mem, i, vx, vy, n);
    let d2 = draw_display(d1, mem, i, vx, vy, n);
    assert(d2 =~= d);
    if draw_collision(d1, mem, i, vx, vy, n) {
        let p = choose|p: int| 0 <= p < 2048 && d1[p] && draw_hit(mem, i, vx, vy, n, p);
        assert(!d[p] && d1[p]);
    }
    if exists|p: int| 0 <= p < 2048 && !d[p] && d1[p] {
        let p = choose|p: int| 0 <= p < 2048 && !d[p] && d1[p];
        assert(draw_hit(mem, i, vx, vy, n, p));
        assert(d1[p] && draw_hit(mem, i, vx, vy, n, p));
    }
}

/// A DXYN step on registers other than VF draws the same sprite twice back
/// to the same display, with the second step's VF reporting whether the
/// first step lit some pixel.
pub proof fn lemma_draw_opcode_twice(m: ChipView, inst: u16, rnd: u8)
    requires
        m.wf(),
        op_nib(inst) == 0xD,
        x_reg(inst) != 15,
        y_reg(inst) != 15,
    ensures
        spec_step(spec_step(m, inst, rnd).0, inst, rnd).0.display == m.display,
        spec_step(spec_step(m, inst, rnd).0, inst, rnd).0.v[15] == (if exists|p: int|
            0 <= p < 2048 && !m.display[p] && spec_step(m, inst, rnd).0.display[p] {
            1u8
        } else {
            0u8
        }),
{
    let x = x_reg(inst);
    let y = y_reg(inst);
    let n = nib_n(inst) as int;
    let m1 = spec_step(m, inst, rnd).0;
    assert(m1.v[x] == m.v[x] && m1.v[y] == m.v[y]);
    lemma_draw_twice_restores(m.display, m.memory, m.i, m.v[x], m.v[y], n);
}

/// Every sprite bit lands on the display with wraparound on both axes:
/// row `r`, column `c` of the sprite toggles the pixel at row
/// `(VY + r) mod 32`, column `(VX + c) mod 64`, never a clipped one.
pub proof fn lemma_draw_wraps(
    d: Seq<bool>,
    mem: Seq<u8>,
    i: u16,
    vx: u8,
    vy: u8,
    n: int,
    r: int,
    c: int,
)
    requires
        d.len() == 2048,
        0 <= r < n,
        n <= 15,
        0 <= c < 8,
    ensures
        0 <= hit_index(vx, vy, r, c) < 2048,
        draw_display(d, mem, i, vx, vy, n)[hit_index(vx, vy, r, c)] == (if sprite_bit(
            mem[(i + r) % 4096],
            c,
        ) {
            !d[hit_index(vx, vy, r, c)]
        } else {
            d[hit_index(vx, vy, r, c)]
        }),
{
    lemma_hit_offsets(vx, vy, r, c);
}

/// A subroutine return on an empty call stack halts the machine and reports
/// the fault; no other part of the state is touched, so in particular no
/// out-of-range access happens.
pub proof fn lemma_empty_stack_halts(m: ChipView, rnd: u8)
    requires
        m.wf(),
        m.stack.len() == 0,
    ensures
        spec_step(m, 0x00EE, rnd).0 == (ChipView { running: false, ..m }),
        spec_step(m, 0x00EE, rnd).1 == Effect::Fatal(Fault::EmptyStack),
{
}

/// The FX55/FX65 round trip: storing V0 through VX at the index register,
/// then (with the registers arbitrarily clobbered and the index register
/// restored) loading them back, reproduces the original register values;
/// the index register advances by X + 1 after each of the two steps.
pub proof fn lemma_store_load_roundtrip(
    m: ChipView,
    inst_store: u16,
    inst_load: u16,
    clobber: Seq<u8>,
    rnd: u8,
)
    requires
        m.wf(),
        op_nib(inst_store) == 0xF,
        imm_nn(inst_store) == 0x55,
        op_nib(inst_load) == 0xF,
        imm_nn(inst_load) == 0x65,
        x_reg(inst_load) == x_reg(inst_store),
        clobber.len() == 16,
    ensures
        ({
            let x = x_reg(inst_store);
            let m1 = spec_step(m, inst_store, rnd).0;
            let m2 = ChipView { v: clobber, i: m.i, ..m1 };
            let m3 = spec_step(m2, inst_load, rnd).0;
            &&& m1.i == wrap16(m.i + x + 1)
            &&& m3.i == wrap16(m.i + x + 1)
            &&& forall|k: int| 0 <= k <= x ==> m3.v[k] == m.v[k]
        }),
{
    let x = x_reg(inst_store);
    let m1 = spec_step(m, inst_store, rnd).0;
    let m2 = ChipView { v: clobber, i: m.i, ..m1 };
    let m3 = spec_step(m2, inst_load, rnd).0;
    assert forall|k: int| 0 <= k <= x implies m3.v[k] == m.v[k] by {
        lemma_mod_bound(m.i + k, 4096);
        lemma_wrap_inverse(m.i as int, k, 4096);
    };
}

/// The timer value after `k` ticks.
pub open spec fn ticks(t: u8, k: nat) -> u8
    decreases k,
{
    if k == 0 {
        t
    } else {
        spec_tick(ticks(t, (k - 1) as nat))
    }
}

/// A timer at zero stays at zero under any number of ticks: the decrement
/// never takes it below zero, and a sound timer at zero therefore reports
/// the tone off on every such tick.
pub proof fn lemma_ticks_from_zero(k: nat)
    ensures
        ticks(0, k) == 0,
    decreases k,
{
    if k > 0 {
        lemma_ticks_from_zero((k - 1) as nat);
    }
}

/// Loading always resets fully: whatever the prior session held, the loaded
/// state has cleared registers, stack, display, keys and timers, and the
/// program counter back at the origin.
pub proof fn lemma_load_fully_resets(m: ChipView, rom: Seq<u8>)
    ensures
        loaded_view(m, rom).v == zero_regs(),
        loaded_view(m, rom).stack == Seq::<u16>::empty(),
        loaded_view(m, rom).display == blank_display(),
        loaded_view(m, rom).keys == no_keys(),
        loaded_view(m, rom).delay == 0,
        loaded_view(m, rom).sound == 0,
        loaded_view(m, rom).pc == 0x200,
        loaded_view(m, rom).i == 0,
        loaded_view(m, rom).running,
        !loaded_view(m, rom).waiting,
{
}

} // verus!
