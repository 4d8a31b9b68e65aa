//! The fetch-decode-execute step: the complete instruction semantics.
//!
//! [`spec_step`] is the mathematical meaning of one decoded instruction: it
//! maps a machine view, an instruction word and one random byte to the next
//! view and the effect the step publishes (nothing, a display frame, or a
//! fatal fault). [`Chipst8::execute`] is the verified interpreter, proved to
//! follow `spec_step` exactly; [`Chipst8::cycle`] adds the fetch and the
//! idle cases.
//!
//! Memory is addressed modulo 4096 everywhere, so no access ever leaves the
//! address space; the index register itself wraps at sixteen bits where the
//! instruction says so. The program counter wraps at sixteen bits.

use vstd::prelude::*;
use vstd::pervasive::VecAdditionalExecFns;
use vstd::arithmetic::div_mod::lemma_mod_multiples_vanish;

use crate::draw::{draw_collision, draw_display, lemma_wrap_forward, lemma_wrap_inverse};
use crate::machine::{blank_display, false_flags, ChipView, Chipst8};
use crate::rng::random_byte;

verus! {

/// The two fatal conditions. Either one halts the machine; it runs again
/// only after the next successful load.
#[derive(Clone, Copy, Debug, PartialEq, Eq, Structural)]
pub enum Fault {
    /// A subroutine return was executed with an empty call stack.
    EmptyStack,
    /// The fetched word is not a CHIP-8 instruction.
    UnknownOpcode,
}

/// What one step asks the surrounding application to do.
#[derive(Clone, Copy, Debug, PartialEq, Eq, Structural)]
pub enum Effect {
    /// Nothing to publish.
    Quiet,
    /// The display changed: publish a frame snapshot.
    Frame,
    /// The machine halted on a fatal condition: report it.
    Fatal(Fault),
}

/// A value reduced modulo 2^16, as the program counter and index register
/// wrap.
pub open spec fn wrap16(x: int) -> u16 {
    (x % 0x10000) as u16
}

/// A value reduced modulo 2^8, as register arithmetic wraps.
pub open spec fn wrap8(x: int) -> u8 {
    (x % 256) as u8
}

/// The leading nibble of an instruction word, the dispatch key.
pub open spec fn op_nib(inst: u16) -> u16 {
    inst / 0x1000
}

/// Register index X: bits 8 to 11.
pub open spec fn x_reg(inst: u16) -> int {
    (inst / 0x100 % 0x10) as int
}

/// Register index Y: bits 4 to 7.
pub open spec fn y_reg(inst: u16) -> int {
    (inst / 0x10 % 0x10) as int
}

/// The 12-bit address operand.
pub open spec fn addr_nnn(inst: u16) -> u16 {
    inst % 0x1000
}

/// The 8-bit immediate operand.
pub open spec fn imm_nn(inst: u16) -> u8 {
    (inst % 0x100) as u8
}

/// The 4-bit count operand.
pub open spec fn nib_n(inst: u16) -> u16 {
    inst % 0x10
}

/// The machine with the program counter advanced past one instruction when
/// `cond` holds: the skip instructions.
pub open spec fn skip_if(m: ChipView, cond: bool) -> ChipView {
    if cond {
        ChipView { pc: wrap16(m.pc + 2), ..m }
    } else {
        m
    }
}

/// The register file with VX set and the flag register VF set after it, in
/// that order, as the arithmetic instructions write them.
pub open spec fn flag_update(v: Seq<u8>, x: int, val: u8, flag: u8) -> Seq<u8> {
    v.update(x, val).update(15, flag)
}

/// The lowest-numbered pressed key at index `k` or above, if any.
pub open spec fn first_pressed(keys: Seq<bool>, k: int) -> Option<int>
    decreases 16 - k,
{
    if k < 0 || k >= 16 {
        None
    } else if keys[k] {
        Some(k)
    } else {
        first_pressed(keys, k + 1)
    }
}

/// Memory after registers V0 through VX are stored at the index register,
/// consecutive addresses taken modulo 4096.
pub open spec fn store_regs(mem: Seq<u8>, i: u16, v: Seq<u8>, x: int) -> Seq<u8> {
    Seq::new(
        4096,
        |a: int|
            if (a - i) % 4096 <= x {
                v[(a - i) % 4096]
            } else {
                mem[a]
            },
    )
}

/// Registers after V0 through VX are loaded from memory at the index
/// register, consecutive addresses taken modulo 4096.
pub open spec fn load_regs(v: Seq<u8>, mem: Seq<u8>, i: u16, x: int) -> Seq<u8> {
    Seq::new(
        16,
        |k: int|
            if k <= x {
                mem[(i + k) % 4096]
            } else {
                v[k]
            },
    )
}

/// The meaning of the 8XYN register-to-register instructions.
pub open spec fn spec_alu(m: ChipView, x: int, y: int, n: u16) -> (ChipView, Effect) {
    let vx = m.v[x];
    let vy = m.v[y];
    if n == 0x0 {
        (ChipView { v: m.v.update(x, vy), ..m }, Effect::Quiet)
    } else if n == 0x1 {
        (ChipView { v: m.v.update(x, vx | vy), ..m }, Effect::Quiet)
    } else if n == 0x2 {
        (ChipView { v: m.v.update(x, vx & vy), ..m }, Effect::Quiet)
    } else if n == 0x3 {
        (ChipView { v: m.v.update(x, vx ^ vy), ..m }, Effect::Quiet)
    } else if n == 0x4 {
        let flag: u8 = if vx + vy > 255 {
            1
        } else {
            0
        };
        (ChipView { v: flag_update(m.v, x, wrap8(vx + vy), flag), ..m }, Effect::Quiet)
    } else if n == 0x5 {
        let flag: u8 = if vx >= vy {
            1
        } else {
            0
        };
        (ChipView { v: flag_update(m.v, x, wrap8(vx - vy), flag), ..m }, Effect::Quiet)
    } else if n == 0x6 {
        let s = if m.quirks.shift_reads_vy {
            vy
        } else {
            vx
        };
        (
            ChipView { v: flag_update(m.v, x, ((s as int) / 2) as u8, ((s as int) % 2) as u8), ..m },
            Effect::Quiet,
        )
    } else if n == 0x7 {
        let flag: u8 = if vy >= vx {
            1
        } else {
            0
        };
        (ChipView { v: flag_update(m.v, x, wrap8(vy - vx), flag), ..m }, Effect::Quiet)
    } else if n == 0xE {
        let s = if m.quirks.shift_reads_vy {
            vy
        } else {
            vx
        };
        (
            ChipView { v: flag_update(m.v, x, wrap8(2 * s), ((s as int) / 128) as u8), ..m },
            Effect::Quiet,
        )
    } else {
        (ChipView { running: false, ..m }, Effect::Fatal(Fault::UnknownOpcode))
    }
}

/// The meaning of the FXNN instructions.
pub open spec fn spec_misc(m: ChipView, x: int, nn: u8) -> (ChipView, Effect) {
    if nn == 0x07 {
        (ChipView { v: m.v.update(x, m.delay), ..m }, Effect::Quiet)
    } else if nn == 0x0A {
        match first_pressed(m.keys, 0) {
            Some(k) => (
                ChipView {
                    v: m.v.update(x, k as u8),
                    waiting: m.quirks.wait_for_release,
                    ..m
                },
                Effect::Quiet,
            ),
            None => (ChipView { pc: wrap16(m.pc - 2), ..m }, Effect::Quiet),
        }
    } else if nn == 0x15 {
        (ChipView { delay: m.v[x], ..m }, Effect::Quiet)
    } else if nn == 0x18 {
        (ChipView { sound: m.v[x], ..m }, Effect::Quiet)
    } else if nn == 0x1E {
        (ChipView { i: wrap16(m.i + m.v[x]), ..m }, Effect::Quiet)
    } else if nn == 0x29 {
        (ChipView { i: (0x50 + m.v[x] * 5) as u16, ..m }, Effect::Quiet)
    } else if nn == 0x33 {
        let vx = m.v[x];
        (
            ChipView {
                memory: m.memory.update((m.i as int) % 4096, ((vx as int) / 100) as u8).update(
                    (m.i + 1) % 4096,
                    ((vx as int) / 10 % 10) as u8,
                ).update((m.i + 2) % 4096, ((vx as int) % 10) as u8),
                ..m
            },
            Effect::Quiet,
        )
    } else if nn == 0x55 {
        (
            ChipView { memory: store_regs(m.memory, m.i, m.v, x), i: wrap16(m.i + x + 1), ..m },
            Effect::Quiet,
        )
    } else if nn == 0x65 {
        (
            ChipView { v: load_regs(m.v, m.memory, m.i, x), i: wrap16(m.i + x + 1), ..m },
            Effect::Quiet,
        )
    } else {
        (ChipView { running: false, ..m }, Effect::Fatal(Fault::UnknownOpcode))
    }
}

/// The meaning of one decoded instruction: the next machine view and the
/// effect to publish. `rnd` is the random byte the step consumes; only the
/// CXNN instruction reads it.
pub open spec fn spec_step(m: ChipView, inst: u16, rnd: u8) -> (ChipView, Effect) {
    let op = op_nib(inst);
    let x = x_reg(inst);
    let y = y_reg(inst);
    let nnn = addr_nnn(inst);
    let nn = imm_nn(inst);
    let n = nib_n(inst);
    if inst == 0x00E0 {
        (ChipView { display: blank_display(), ..m }, Effect::Frame)
    } else if inst == 0x00EE {
        if m.stack.len() == 0 {
            (ChipView { running: false, ..m }, Effect::Fatal(Fault::EmptyStack))
        } else {
            (
                ChipView { pc: m.stack.last(), stack: m.stack.drop_last(), ..m },
                Effect::Quiet,
            )
        }
    } else if op == 0x1 {
        (ChipView { pc: nnn, ..m }, Effect::Quiet)
    } else if op == 0x2 {
        (ChipView { stack: m.stack.push(m.pc), pc: nnn, ..m }, Effect::Quiet)
    } else if op == 0x3 {
        (skip_if(m, m.v[x] == nn), Effect::Quiet)
    } else if op == 0x4 {
        (skip_if(m, m.v[x] != nn), Effect::Quiet)
    } else if op == 0x5 && n == 0x0 {
        (skip_if(m, m.v[x] == m.v[y]), Effect::Quiet)
    } else if op == 0x6 {
        (ChipView { v: m.v.update(x, nn), ..m }, Effect::Quiet)
    } else if op == 0x7 {
        (ChipView { v: m.v.update(x, wrap8(m.v[x] + nn)), ..m }, Effect::Quiet)
    } else if op == 0x8 {
        spec_alu(m, x, y, n)
    } else if op == 0x9 && n == 0x0 {
        (skip_if(m, m.v[x] != m.v[y]), Effect::Quiet)
    } else if op == 0xA {
        (ChipView { i: nnn, ..m }, Effect::Quiet)
    } else if op == 0xB {
        (ChipView { pc: (nnn + m.v[0]) as u16, ..m }, Effect::Quiet)
    } else if op == 0xC {
        (ChipView { v: m.v.update(x, nn & rnd), ..m }, Effect::Quiet)
    } else if op == 0xD {
        (
            ChipView {
                display: draw_display(m.display, m.memory, m.i, m.v[x], m.v[y], n as int),
                v: m.v.update(
                    15,
                    if draw_collision(m.display, m.memory, m.i, m.v[x], m.v[y], n as int) {
                        1u8
                    } else {
                        0u8
                    },
                ),
                ..m
            },
            Effect::Frame,
        )
    } else if op == 0xE && nn == 0x9E {
        (skip_if(m, m.keys[(m.v[x] % 16) as int]), Effect::Quiet)
    } else if op == 0xE && nn == 0xA1 {
        (skip_if(m, !m.keys[(m.v[x] % 16) as int]), Effect::Quiet)
    } else if op == 0xF {
        spec_misc(m, x, nn)
    } else {
        (ChipView { running: false, ..m }, Effect::Fatal(Fault::UnknownOpcode))
    }
}

/// The big-endian instruction word at the program counter, both bytes read
/// modulo the memory size.
pub open spec fn spec_fetch(m: ChipView) -> u16 {
    ((m.memory[(m.pc as int) % 4096] as int) * 256 + (m.memory[(m.pc + 1) % 4096] as int)) as u16
}

/// The meaning of one driven cycle: nothing while idle or waiting for a key;
/// otherwise a fetch, the program counter advanced, and one step.
pub open spec fn spec_cycle(m: ChipView, rnd: u8) -> (ChipView, Effect) {
    if !m.running || m.waiting {
        (m, Effect::Quiet)
    } else {
        spec_step(ChipView { pc: wrap16(m.pc + 2), ..m }, spec_fetch(m), rnd)
    }
}

/// Adding one full period leaves a residue unchanged.
proof fn lemma_mod_add_period(x: int, m: int)
    requires
        0 < m,
    ensures
        (x + m) % m == x % m,
{
    lemma_mod_multiples_vanish(1, x, m);
}

/// Scanning a prefix of released keys does not change which key is found.
proof fn lemma_first_pressed_prefix(keys: Seq<bool>, k: int)
    requires
        keys.len() == 16,
        0 <= k <= 16,
        forall|j: int| 0 <= j < k ==> !keys[j],
    ensures
        first_pressed(keys, 0) == first_pressed(keys, k),
    decreases k,
{
    if k > 0 {
        lemma_first_pressed_prefix(keys, k - 1);
        assert(first_pressed(keys, k - 1) == first_pressed(keys, k));
    }
}

impl Chipst8 {
    /// Advances the program counter past one instruction when `cond` holds.
    fn advance_if(&mut self, cond: bool)
        requires
            old(self).wf(),
        ensures
            final(self).wf(),
            final(self)@ == skip_if(old(self)@, cond),
    {
        if cond {
            self.pc = ((self.pc as u32 + 2) % 0x10000) as u16;
        }
    }

    /// The 8XYN register-to-register instructions.
    fn op_alu(&mut self, x: usize, y: usize, n: u16) -> (eff: Effect)
        requires
            old(self).wf(),
            x < 16,
            y < 16,
        ensures
            final(self).wf(),
            final(self)@ == spec_alu(old(self)@, x as int, y as int, n).0,
            eff == spec_alu(old(self)@, x as int, y as int, n).1,
    {
        let vx = self.v[x];
        let vy = self.v[y];
        if n == 0x0 {
            self.v.set(x, vy);
            Effect::Quiet
        } else if n == 0x1 {
            self.v.set(x, vx | vy);
            Effect::Quiet
        } else if n == 0x2 {
            self.v.set(x, vx & vy);
            Effect::Quiet
        } else if n == 0x3 {
            self.v.set(x, vx ^ vy);
            Effect::Quiet
        } else if n == 0x4 {
            let sum: u16 = vx as u16 + vy as u16;
            self.v.set(x, (sum % 256) as u8);
            self.v.set(15, if sum > 255 { 1 } else { 0 });
            Effect::Quiet
        } else if n == 0x5 {
            let diff: u16 = 256 + vx as u16 - vy as u16;
            self.v.set(x, (diff % 256) as u8);
            self.v.set(15, if vx >= vy { 1 } else { 0 });
            proof {
                lemma_mod_add_period(vx - vy, 256);
            }
            Effect::Quiet
        } else if n == 0x6 {
            let s = if self.quirks.shift_reads_vy {
                vy
            } else {
                vx
            };
            self.v.set(x, s / 2);
            self.v.set(15, s % 2);
            Effect::Quiet
        } else if n == 0x7 {
            let diff: u16 = 256 + vy as u16 - vx as u16;
            self.v.set(x, (diff % 256) as u8);
            self.v.set(15, if vy >= vx { 1 } else { 0 });
            proof {
                lemma_mod_add_period(vy - vx, 256);
            }
            Effect::Quiet
        } else if n == 0xE {
            let s = if self.quirks.shift_reads_vy {
                vy
            } else {
                vx
            };
            self.v.set(x, ((2 * (s as u16)) % 256) as u8);
            self.v.set(15, s / 128);
            Effect::Quiet
        } else {
            self.is_running = false;
            Effect::Fatal(Fault::UnknownOpcode)
        }
    }

    /// Stores V0 through VX at the index register (the FX55 instruction),
    /// then advances the index register.
    fn op_store(&mut self, x: usize)
        requires
            old(self).wf(),
            x < 16,
        ensures
            final(self).wf(),
            final(self)@ == (ChipView {
                memory: store_regs(old(self)@.memory, old(self)@.i, old(self)@.v, x as int),
                i: wrap16(old(self)@.i + x + 1),
                ..old(self)@
            }),
    {
        let ghost mem0 = self@.memory;
        let ghost i0 = self@.i;
        let mut k: usize = 0;
        while k < x + 1
            invariant
                k <= x + 1,
                x < 16,
                self.wf(),
                self@ == (ChipView { memory: self@.memory, ..old(self)@ }),
                mem0 == old(self)@.memory,
                i0 == old(self)@.i,
                forall|a: int|
                    0 <= a < 4096 ==> self@.memory[a] == (if (a - i0) % 4096 < k {
                        old(self)@.v[(a - i0) % 4096]
                    } else {
                        mem0[a]
                    }),
            decreases x + 1 - k,
        {
            let a = ((self.i as usize) + k) % 4096;
            let val = self.v[k];
            self.memory.set(a, val);
            proof {
                lemma_wrap_inverse(i0 as int, k as int, 4096);
                assert forall|b: int| 0 <= b < 4096 implies self@.memory[b] == (if (b - i0) % 4096
                    < k + 1 {
                    old(self)@.v[(b - i0) % 4096]
                } else {
                    mem0[b]
                }) by {
                    let d = (b - i0) % 4096;
                    if b != a as int && d == k as int {
                        lemma_wrap_forward(i0 as int, b, 4096);
                    }
                };
            }
            k = k + 1;
        }
        self.i = ((self.i as u32 + x as u32 + 1) % 0x10000) as u16;
        proof {
            assert(self@.memory =~= store_regs(mem0, i0, old(self)@.v, x as int));
        }
    }

    /// Loads V0 through VX from memory at the index register (the FX65
    /// instruction), then advances the index register.
    fn op_load(&mut self, x: usize)
        requires
            old(self).wf(),
            x < 16,
        ensures
            final(self).wf(),
            final(self)@ == (ChipView {
                v: load_regs(old(self)@.v, old(self)@.memory, old(self)@.i, x as int),
                i: wrap16(old(self)@.i + x + 1),
                ..old(self)@
            }),
    {
        let ghost v0 = self@.v;
        let ghost i0 = self@.i;
        let mut k: usize = 0;
        while k < x + 1
            invariant
                k <= x + 1,
                x < 16,
                self.wf(),
                self@ == (ChipView { v: self@.v, ..old(self)@ }),
                v0 == old(self)@.v,
                i0 == old(self)@.i,
                forall|j: int|
                    0 <= j < 16 ==> self@.v[j] == (if j < k {
                        old(self)@.memory[(i0 + j) % 4096]
                    } else {
                        v0[j]
                    }),
            decreases x + 1 - k,
        {
            let b = self.memory[((self.i as usize) + k) % 4096];
            self.v.set(k, b);
            k = k + 1;
        }
        self.i = ((self.i as u32 + x as u32 + 1) % 0x10000) as u16;
        proof {
            assert(self@.v =~= load_regs(v0, old(self)@.memory, i0, x as int));
        }
    }

    /// Scans the keypad for the wait-for-key instruction (FX0A): the first
    /// pressed key lands in VX and, under the classic quirk, execution then
    /// blocks until that key is released; with no key pressed the program
    /// counter rewinds so the instruction retries next cycle.
    fn op_wait_key(&mut self, x: usize) -> (eff: Effect)
        requires
            old(self).wf(),
            x < 16,
        ensures
            final(self).wf(),
            final(self)@ == spec_misc(old(self)@, x as int, 0x0A).0,
            eff == spec_misc(old(self)@, x as int, 0x0A).1,
    {
        let mut k: usize = 0;
        while k < 16
            invariant
                k <= 16,
                x < 16,
                self.wf(),
                self@ == old(self)@,
                forall|j: int| 0 <= j < k ==> !self@.keys[j],
            decreases 16 - k,
        {
            if self.keys[k] {
                proof {
                    lemma_first_pressed_prefix(self@.keys, k as int);
                    assert(first_pressed(self@.keys, 0) == Some(k as int));
                }
                self.v.set(x, k as u8);
                self.wait_for_key_up = self.quirks.wait_for_release;
                return Effect::Quiet;
            }
            k = k + 1;
        }
        proof {
            lemma_first_pressed_prefix(self@.keys, 16);
            assert(first_pressed(self@.keys, 0) == None::<int>);
            lemma_mod_add_period(self@.pc - 2, 0x10000);
        }
        self.pc = ((self.pc as u32 + 0x10000 - 2) % 0x10000) as u16;
        Effect::Quiet
    }

    /// The FXNN instructions.
    fn op_misc(&mut self, x: usize, nn: u8) -> (eff: Effect)
        requires
            old(self).wf(),
            x < 16,
        ensures
            final(self).wf(),
            final(self)@ == spec_misc(old(self)@, x as int, nn).0,
            eff == spec_misc(old(self)@, x as int, nn).1,
    {
        if nn == 0x07 {
            let d = self.delay_timer;
            self.v.set(x, d);
            Effect::Quiet
        } else if nn == 0x0A {
            self.op_wait_key(x)
        } else if nn == 0x15 {
            self.delay_timer = self.v[x];
            Effect::Quiet
        } else if nn == 0x18 {
            self.sound_timer = self.v[x];
            Effect::Quiet
        } else if nn == 0x1E {
            let vx = self.v[x];
            self.i = ((self.i as u32 + vx as u32) % 0x10000) as u16;
            Effect::Quiet
        } else if nn == 0x29 {
            let vx = self.v[x];
            self.i = 0x50 + (vx as u16) * 5;
            Effect::Quiet
        } else if nn == 0x33 {
            let vx = self.v[x];
            let base = self.i as usize;
            self.memory.set(base % 4096, vx / 100);
            self.memory.set((base + 1) % 4096, (vx / 10) % 10);
            self.memory.set((base + 2) % 4096, vx % 10);
            Effect::Quiet
        } else if nn == 0x55 {
            self.op_store(x);
            Effect::Quiet
        } else if nn == 0x65 {
            self.op_load(x);
            Effect::Quiet
        } else {
            self.is_running = false;
            Effect::Fatal(Fault::UnknownOpcode)
        }
    }

    /// Executes one decoded instruction word, consuming the given random
    /// byte (only CXNN reads it), exactly as [`spec_step`] prescribes.
    pub fn execute(&mut self, inst: u16, rnd: u8) -> (eff: Effect)
        requires
            old(self).wf(),
        ensures
            final(self).wf(),
            final(self)@ == spec_step(old(self)@, inst, rnd).0,
            eff == spec_step(old(self)@, inst, rnd).1,
    {
        let op = inst / 0x1000;
        let x = ((inst / 0x100) % 0x10) as usize;
        let y = ((inst / 0x10) % 0x10) as usize;
        let nnn = inst % 0x1000;
        let nn = (inst % 0x100) as u8;
        let n = inst % 0x10;
        if inst == 0x00E0 {
            self.display = false_flags(2048);
            proof {
                assert(self@.display =~= blank_display());
            }
            Effect::Frame
        } else if inst == 0x00EE {
            match self.stack.pop() {
                Some(addr) => {
                    self.pc = addr;
                    Effect::Quiet
                },
                None => {
                    self.is_running = false;
                    Effect::Fatal(Fault::EmptyStack)
                },
            }
        } else if op == 0x1 {
            self.pc = nnn;
            Effect::Quiet
        } else if op == 0x2 {
            let ret = self.pc;
            self.stack.push(ret);
            self.pc = nnn;
            Effect::Quiet
        } else if op == 0x3 {
            let cond = self.v[x] == nn;
            self.advance_if(cond);
            Effect::Quiet
        } else if op == 0x4 {
            let cond = self.v[x] != nn;
            self.advance_if(cond);
            Effect::Quiet
        } else if op == 0x5 && n == 0x0 {
            let cond = self.v[x] == self.v[y];
            self.advance_if(cond);
            Effect::Quiet
        } else if op == 0x6 {
            self.v.set(x, nn);
            Effect::Quiet
        } else if op == 0x7 {
            let vx = self.v[x];
            let sum: u16 = vx as u16 + nn as u16;
            self.v.set(x, (sum % 256) as u8);
            Effect::Quiet
        } else if op == 0x8 {
            self.op_alu(x, y, n)
        } else if op == 0x9 && n == 0x0 {
            let cond = self.v[x] != self.v[y];
            self.advance_if(cond);
            Effect::Quiet
        } else if op == 0xA {
            self.i = nnn;
            Effect::Quiet
        } else if op == 0xB {
            self.pc = nnn + self.v[0] as u16;
            Effect::Quiet
        } else if op == 0xC {
            self.v.set(x, nn & rnd);
            Effect::Quiet
        } else if op == 0xD {
            self.op_draw(x, y, n as usize);
            Effect::Frame
        } else if op == 0xE && nn == 0x9E {
            let key = (self.v[x] % 16) as usize;
            let cond = self.keys[key];
            self.advance_if(cond);
            Effect::Quiet
        } else if op == 0xE && nn == 0xA1 {
            let key = (self.v[x] % 16) as usize;
            let cond = !self.keys[key];
            self.advance_if(cond);
            Effect::Quiet
        } else if op == 0xF {
            self.op_misc(x, nn)
        } else {
            self.is_running = false;
            Effect::Fatal(Fault::UnknownOpcode)
        }
    }

    /// Reads the big-endian instruction word at the program counter and
    /// advances the program counter past it.
    fn fetch(&mut self) -> (inst: u16)
        requires
            old(self).wf(),
        ensures
            final(self).wf(),
            inst == spec_fetch(old(self)@),
            final(self)@ == (ChipView { pc: wrap16(old(self)@.pc + 2), ..old(self)@ }),
    {
        let hi = self.memory[(self.pc as usize) % 4096];
        let lo = self.memory[((self.pc as usize) + 1) % 4096];
        let inst = (hi as u16) * 256 + (lo as u16);
        self.pc = ((self.pc as u32 + 2) % 0x10000) as u16;
        inst
    }

    /// One externally driven cycle. While no program runs, or while blocked
    /// awaiting a key release, nothing happens; otherwise one instruction is
    /// fetched and executed, with a fresh random byte. The caller paces the
    /// loop; timers tick on their own schedule.
    pub fn cycle(&mut self) -> (eff: Effect)
        requires
            old(self).wf(),
        ensures
            final(self).wf(),
            (!old(self)@.running || old(self)@.waiting) ==> final(self)@ == old(self)@ && eff
                == Effect::Quiet,
            (old(self)@.running && !old(self)@.waiting) ==> exists|r: u8|
                spec_cycle(old(self)@, r) == (final(self)@, eff),
    {
        if !self.is_running || self.wait_for_key_up {
            return Effect::Quiet;
        }
        let inst = self.fetch();
        let rnd = random_byte();
        let eff = self.execute(inst, rnd);
        proof {
            assert(spec_cycle(old(self)@, rnd) == (self@, eff));
        }
        eff
    }
}

} // verus!
