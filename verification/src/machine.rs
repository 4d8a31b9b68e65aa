//! The machine state: memory, registers, stack, display, keys, timers.
//!
//! The struct [`Chipst8`] holds the executable state; its mathematical view
//! is [`ChipView`], a ghost struct over sequences, and every public method
//! states in its contract exactly how it moves the view.

use vstd::prelude::*;
use vstd::pervasive::VecAdditionalExecFns;

use crate::font::{font_data, font_byte, FONT_ADDRESS, FONT_SIZE};

verus! {

/// Number of addressable bytes of memory.
pub const MEMORY_SIZE: usize = 4096;

/// Address at which a program is loaded and at which execution starts.
pub const PROGRAM_START: usize = 0x200;

/// Largest ROM that fits between the program origin and the end of memory.
pub const MAX_ROM_SIZE: usize = 4096 - 0x200;

/// Number of general registers.
pub const NUM_REGS: usize = 16;

/// Number of keys on the keypad.
pub const NUM_KEYS: usize = 16;

/// Number of pixels of the display (32 rows of 64 columns, row-major).
pub const DISPLAY_LEN: usize = 32 * 64;

/// Slowest allowed pacing, in microseconds per instruction.
pub const SLOWEST_MICROS: u64 = 2000;

/// Fastest allowed pacing, in microseconds per instruction.
pub const FASTEST_MICROS: u64 = 100;

/// Pacing step applied by one speed adjustment, in microseconds.
pub const SPEED_STEP: u64 = 100;

/// Documented points of behavioral divergence between CHIP-8 variants.
/// The machine is created with the classic choices and a host may pick the
/// other ones instead of relying on a silent default.
#[derive(Clone, Copy, Debug, PartialEq, Eq, Structural)]
pub struct Quirks {
    /// Shift instructions read their input from VY when true, from VX itself
    /// when false.
    pub shift_reads_vy: bool,
    /// The wait-for-key instruction blocks the cycle loop until the key is
    /// released when true; when false it resumes on the next cycle.
    pub wait_for_release: bool,
}

/// The error returned when a ROM does not fit in program memory.
#[derive(Clone, Copy, Debug, PartialEq, Eq, Structural)]
pub enum LoadError {
    /// The ROM is larger than `MAX_ROM_SIZE` bytes.
    TooLarge,
}

/// The mathematical view of the machine state.
pub ghost struct ChipView {
    /// The 4096 bytes of memory.
    pub memory: Seq<u8>,
    /// The program counter.
    pub pc: u16,
    /// The index register; only its low twelve bits address memory.
    pub i: u16,
    /// The sixteen general registers V0 through VF.
    pub v: Seq<u8>,
    /// The call stack of return addresses, most recent last.
    pub stack: Seq<u16>,
    /// The delay timer counter.
    pub delay: u8,
    /// The sound timer counter.
    pub sound: u8,
    /// The 32 x 64 pixel grid, row-major.
    pub display: Seq<bool>,
    /// The sixteen key flags, true while pressed.
    pub keys: Seq<bool>,
    /// False until a ROM is loaded and after a fatal fault.
    pub running: bool,
    /// True while execution is blocked awaiting a key release.
    pub waiting: bool,
    /// Pacing of the cycle loop, in microseconds per instruction.
    pub speed: u64,
    /// The configured behavioral variants.
    pub quirks: Quirks,
}

impl ChipView {
    /// The dimensions every reachable machine state keeps.
    pub open spec fn wf(self) -> bool {
        &&& self.memory.len() == 4096
        &&& self.v.len() == 16
        &&& self.keys.len() == 16
        &&& self.display.len() == 2048
    }
}

/// Sixteen zeroed registers.
pub open spec fn zero_regs() -> Seq<u8> {
    Seq::new(16, |k: int| 0u8)
}

/// A display with every pixel off.
pub open spec fn blank_display() -> Seq<bool> {
    Seq::new(2048, |p: int| false)
}

/// A keypad with every key released.
pub open spec fn no_keys() -> Seq<bool> {
    Seq::new(16, |k: int| false)
}

/// Memory as it is at creation: zero everywhere but the font table.
pub open spec fn initial_memory() -> Seq<u8> {
    Seq::new(4096, |a: int| if 0x50 <= a < 0x50 + 80 { font_data(a - 0x50) } else { 0u8 })
}

/// The classic quirk choices: shifts read VY, waiting ends on key release.
pub open spec fn classic_quirks() -> Quirks {
    Quirks { shift_reads_vy: true, wait_for_release: true }
}

/// The state of a freshly created machine.
pub open spec fn initial_view() -> ChipView {
    ChipView {
        memory: initial_memory(),
        pc: 0x200,
        i: 0,
        v: zero_regs(),
        stack: Seq::empty(),
        delay: 0,
        sound: 0,
        display: blank_display(),
        keys: no_keys(),
        running: false,
        waiting: false,
        speed: 300,
        quirks: classic_quirks(),
    }
}

/// The state after a full reset: every mutable field zeroed, memory, pacing
/// and quirks kept.
pub open spec fn reset_view(m: ChipView) -> ChipView {
    ChipView {
        memory: m.memory,
        pc: 0x200,
        i: 0,
        v: zero_regs(),
        stack: Seq::empty(),
        delay: 0,
        sound: 0,
        display: blank_display(),
        keys: no_keys(),
        running: false,
        waiting: false,
        speed: m.speed,
        quirks: m.quirks,
    }
}

/// The state after a successful load: a full reset, the ROM copied to the
/// program origin, and the machine running.
pub open spec fn loaded_view(m: ChipView, rom: Seq<u8>) -> ChipView {
    let r = reset_view(m);
    ChipView {
        memory: Seq::new(
            4096,
            |a: int| if 0x200 <= a < 0x200 + rom.len() { rom[a - 0x200] } else { r.memory[a] },
        ),
        running: true,
        ..r
    }
}

/// One 60 Hz tick of a countdown timer: down one, never below zero.
pub open spec fn spec_tick(t: u8) -> u8 {
    if t > 0 { (t - 1) as u8 } else { 0 }
}

/// One speed-up step: pacing shrinks by `SPEED_STEP` unless already at the
/// fastest allowed pacing.
pub open spec fn spec_speedup(s: u64) -> u64 {
    if s > 100 { (s - 100) as u64 } else { s }
}

/// One slow-down step: pacing grows by `SPEED_STEP` unless already at the
/// slowest allowed pacing.
pub open spec fn spec_speeddown(s: u64) -> u64 {
    if s < 2000 { (s + 100) as u64 } else { s }
}

/// The view after a key event: the flag set or cleared; a release also ends
/// a pending wait for a key.
pub open spec fn key_view(m: ChipView, key: int, pressed: bool) -> ChipView {
    ChipView {
        keys: m.keys.update(key, pressed),
        waiting: if pressed { m.waiting } else { false },
        ..m
    }
}

/// The CHIP-8 virtual machine.
pub struct Chipst8 {
    pub(crate) memory: Vec<u8>,
    pub(crate) pc: u16,
    pub(crate) i: u16,
    pub(crate) v: Vec<u8>,
    pub(crate) stack: Vec<u16>,
    pub(crate) delay_timer: u8,
    pub(crate) sound_timer: u8,
    pub(crate) display: Vec<bool>,
    pub(crate) keys: Vec<bool>,
    pub(crate) is_running: bool,
    pub(crate) wait_for_key_up: bool,
    pub(crate) micros_per_cycle: u64,
    pub(crate) quirks: Quirks,
}

impl View for Chipst8 {
    type V = ChipView;

    open(crate) spec fn view(&self) -> ChipView {
        ChipView {
            memory: self.memory@,
            pc: self.pc,
            i: self.i,
            v: self.v@,
            stack: self.stack@,
            delay: self.delay_timer,
            sound: self.sound_timer,
            display: self.display@,
            keys: self.keys@,
            running: self.is_running,
            waiting: self.wait_for_key_up,
            speed: self.micros_per_cycle,
            quirks: self.quirks,
        }
    }
}

/// A vector of `n` zero bytes.
pub(crate) fn zero_bytes(n: usize) -> (r: Vec<u8>)
    ensures
        r@ == Seq::new(n as nat, |k: int| 0u8),
{
    let mut r: Vec<u8> = Vec::new();
    let mut k: usize = 0;
    while k < n
        invariant
            k <= n,
            r@.len() == k,
            forall|j: int| 0 <= j < k ==> r@[j] == 0u8,
        decreases n - k,
    {
        r.push(0);
        k = k + 1;
    }
    proof {
        assert(r@ =~= Seq::new(n as nat, |k: int| 0u8));
    }
    r
}

/// A vector of `n` cleared flags.
pub(crate) fn false_flags(n: usize) -> (r: Vec<bool>)
    ensures
        r@ == Seq::new(n as nat, |k: int| false),
{
    let mut r: Vec<bool> = Vec::new();
    let mut k: usize = 0;
    while k < n
        invariant
            k <= n,
            r@.len() == k,
            forall|j: int| 0 <= j < k ==> r@[j] == false,
        decreases n - k,
    {
        r.push(false);
        k = k + 1;
    }
    proof {
        assert(r@ =~= Seq::new(n as nat, |k: int| false));
    }
    r
}

impl Chipst8 {
    /// The dimensions the methods rely on; established by `new` and kept by
    /// every method.
    pub open spec fn wf(&self) -> bool {
        self@.wf()
    }

    /// A fresh machine: memory zeroed but for the font table, the program
    /// counter at the program origin, everything else cleared, not running.
    pub fn new() -> (m: Chipst8)
        ensures
            m.wf(),
            m@ == initial_view(),
    {
        let mut memory = zero_bytes(MEMORY_SIZE);
        let mut k: usize = 0;
        while k < FONT_SIZE
            invariant
                k <= 80,
                memory@.len() == 4096,
                forall|a: int|
                    0 <= a < 4096 ==> memory@[a] == (if 0x50 <= a < 0x50 + k {
                        font_data(a - 0x50)
                    } else {
                        0u8
                    }),
            decreases 80 - k,
        {
            let b = font_byte(k);
            memory.set(FONT_ADDRESS + k, b);
            k = k + 1;
        }
        proof {
            assert(memory@ =~= initial_memory());
        }
        let m = Chipst8 {
            memory,
            pc: 0x200,
            i: 0,
            v: zero_bytes(NUM_REGS),
            stack: Vec::new(),
            delay_timer: 0,
            sound_timer: 0,
            display: false_flags(DISPLAY_LEN),
            keys: false_flags(NUM_KEYS),
            is_running: false,
            wait_for_key_up: false,
            micros_per_cycle: 300,
            quirks: Quirks { shift_reads_vy: true, wait_for_release: true },
        };
        proof {
            assert(m@ == initial_view());
        }
        m
    }

    /// Full reset: registers, stack, display, keys, timers and flags cleared,
    /// the program counter back at the origin; memory, pacing and quirks kept.
    pub fn reset(&mut self)
        requires
            old(self).wf(),
        ensures
            final(self).wf(),
            final(self)@ == reset_view(old(self)@),
    {
        self.pc = 0x200;
        self.i = 0;
        self.v = zero_bytes(NUM_REGS);
        self.stack = Vec::new();
        self.display = false_flags(DISPLAY_LEN);
        self.keys = false_flags(NUM_KEYS);
        self.is_running = false;
        self.wait_for_key_up = false;
        self.delay_timer = 0;
        self.sound_timer = 0;
    }

    /// Loads a ROM: always a full reset first, then the bytes copied to the
    /// program origin and the machine set running. A ROM that does not fit in
    /// program memory is rejected and the state is left untouched.
    pub fn load_rom(&mut self, rom: Vec<u8>) -> (r: Result<(), LoadError>)
        requires
            old(self).wf(),
        ensures
            final(self).wf(),
            rom@.len() <= 3584 ==> r == Ok::<(), LoadError>(())
                && final(self)@ == loaded_view(old(self)@, rom@),
            rom@.len() > 3584 ==> r == Err::<(), LoadError>(LoadError::TooLarge)
                && final(self)@ == old(self)@,
    {
        if rom.len() > MAX_ROM_SIZE {
            return Err(LoadError::TooLarge);
        }
        self.reset();
        let ghost after_reset = self@;
        let mut k: usize = 0;
        while k < rom.len()
            invariant
                k <= rom@.len(),
                rom@.len() <= 3584,
                self@ == (ChipView {
                    memory: self@.memory,
                    ..after_reset
                }),
                self@.memory.len() == 4096,
                forall|a: int|
                    0 <= a < 4096 ==> self@.memory[a] == (if 0x200 <= a < 0x200 + k {
                        rom@[a - 0x200]
                    } else {
                        after_reset.memory[a]
                    }),
            decreases rom@.len() - k,
        {
            let b = rom[k];
            self.memory.set(PROGRAM_START + k, b);
            k = k + 1;
        }
        self.is_running = true;
        proof {
            assert(self@.memory =~= loaded_view(old(self)@, rom@).memory);
            assert(self@ == loaded_view(old(self)@, rom@));
        }
        Ok(())
    }

    /// One speed-up request: pacing shrinks one step, clamped at the floor.
    pub fn speedup(&mut self)
        requires
            old(self).wf(),
        ensures
            final(self).wf(),
            final(self)@ == (ChipView { speed: spec_speedup(old(self)@.speed), ..old(self)@ }),
    {
        if self.micros_per_cycle > FASTEST_MICROS {
            self.micros_per_cycle = self.micros_per_cycle - SPEED_STEP;
        }
    }

    /// One slow-down request: pacing grows one step, clamped at the ceiling.
    pub fn speeddown(&mut self)
        requires
            old(self).wf(),
        ensures
            final(self).wf(),
            final(self)@ == (ChipView { speed: spec_speeddown(old(self)@.speed), ..old(self)@ }),
    {
        if self.micros_per_cycle < SLOWEST_MICROS {
            self.micros_per_cycle = self.micros_per_cycle + SPEED_STEP;
        }
    }

    /// Records a key press or release. A release also ends a pending wait
    /// for a key.
    pub fn set_key(&mut self, key: usize, pressed: bool)
        requires
            old(self).wf(),
            key < 16,
        ensures
            final(self).wf(),
            final(self)@ == key_view(old(self)@, key as int, pressed),
    {
        self.keys.set(key, pressed);
        if !pressed {
            self.wait_for_key_up = false;
        }
    }

    /// One 60 Hz tick of the delay timer: down one, never below zero.
    pub fn tick_delay(&mut self)
        requires
            old(self).wf(),
        ensures
            final(self).wf(),
            final(self)@ == (ChipView { delay: spec_tick(old(self)@.delay), ..old(self)@ }),
    {
        if self.delay_timer > 0 {
            self.delay_timer = self.delay_timer - 1;
        }
    }

    /// One 60 Hz tick of the sound timer. The tone sounds for this tick
    /// exactly when the counter was nonzero before the decrement.
    pub fn tick_sound(&mut self) -> (beep: bool)
        requires
            old(self).wf(),
        ensures
            final(self).wf(),
            beep == (old(self)@.sound > 0),
            final(self)@ == (ChipView { sound: spec_tick(old(self)@.sound), ..old(self)@ }),
    {
        if self.sound_timer > 0 {
            self.sound_timer = self.sound_timer - 1;
            true
        } else {
            false
        }
    }

    /// An immutable snapshot of the whole display, row-major.
    pub fn frame(&self) -> (f: Vec<bool>)
        requires
            self.wf(),
        ensures
            f@ == self@.display,
    {
        let mut f: Vec<bool> = Vec::new();
        let mut p: usize = 0;
        while p < DISPLAY_LEN
            invariant
                p <= 2048,
                self@.display.len() == 2048,
                f@.len() == p,
                forall|q: int| 0 <= q < p ==> f@[q] == self@.display[q],
            decreases 2048 - p,
        {
            let b = self.display[p];
            f.push(b);
            p = p + 1;
        }
        proof {
            assert(f@ =~= self@.display);
        }
        f
    }

    /// The pixel at `row`, `col`; true while lit.
    pub fn pixel(&self, row: usize, col: usize) -> (p: bool)
        requires
            self.wf(),
            row < 32,
            col < 64,
        ensures
            p == self@.display[row as int * 64 + col as int],
    {
        self.display[row * 64 + col]
    }

    /// Register VX.
    pub fn reg(&self, x: usize) -> (r: u8)
        requires
            self.wf(),
            x < 16,
        ensures
            r == self@.v[x as int],
    {
        self.v[x]
    }

    /// The byte of memory at `addr`.
    pub fn mem(&self, addr: usize) -> (b: u8)
        requires
            self.wf(),
            addr < 4096,
        ensures
            b == self@.memory[addr as int],
    {
        self.memory[addr]
    }

    /// The key flag for key `key`.
    pub fn key(&self, key: usize) -> (p: bool)
        requires
            self.wf(),
            key < 16,
        ensures
            p == self@.keys[key as int],
    {
        self.keys[key]
    }

    /// The program counter.
    pub fn pc(&self) -> (r: u16)
        ensures
            r == self@.pc,
    {
        self.pc
    }

    /// The index register.
    pub fn index_reg(&self) -> (r: u16)
        ensures
            r == self@.i,
    {
        self.i
    }

    /// The delay timer counter.
    pub fn delay(&self) -> (r: u8)
        ensures
            r == self@.delay,
    {
        self.delay_timer
    }

    /// The sound timer counter.
    pub fn sound(&self) -> (r: u8)
        ensures
            r == self@.sound,
    {
        self.sound_timer
    }

    /// Whether a program is running.
    pub fn running(&self) -> (r: bool)
        ensures
            r == self@.running,
    {
        self.is_running
    }

    /// Whether execution is blocked awaiting a key release.
    pub fn waiting(&self) -> (r: bool)
        ensures
            r == self@.waiting,
    {
        self.wait_for_key_up
    }

    /// The pacing of the cycle loop, in microseconds per instruction.
    pub fn speed(&self) -> (r: u64)
        ensures
            r == self@.speed,
    {
        self.micros_per_cycle
    }

    /// How many return addresses the call stack holds.
    pub fn stack_len(&self) -> (r: usize)
        ensures
            r == self@.stack.len(),
    {
        self.stack.len()
    }

    /// The configured quirks.
    pub fn quirks(&self) -> (q: Quirks)
        ensures
            q == self@.quirks,
    {
        self.quirks
    }

    /// Picks the behavioral variants the machine follows.
    pub fn set_quirks(&mut self, q: Quirks)
        requires
            old(self).wf(),
        ensures
            final(self).wf(),
            final(self)@ == (ChipView { quirks: q, ..old(self)@ }),
    {
        self.quirks = q;
    }
}

} // verus!
