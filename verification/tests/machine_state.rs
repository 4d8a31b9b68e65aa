//! Creation, loading, resetting, timers, keys and pacing.

use chipst8::{Chipst8, Effect, LoadError};

#[test]
fn new_machine_holds_font_and_nothing_else() {
    let m = Chipst8::new();
    assert_eq!(m.pc(), 0x200);
    assert_eq!(m.index_reg(), 0);
    assert!(!m.running());
    assert!(!m.waiting());
    assert_eq!(m.speed(), 300);
    assert_eq!(m.stack_len(), 0);
    assert_eq!(m.mem(0x50), 0xF0); // first row of glyph 0
    assert_eq!(m.mem(0x9F), 0x80); // last row of glyph F
    assert_eq!(m.mem(0x4F), 0);
    assert_eq!(m.mem(0xA0), 0);
    assert_eq!(m.mem(0x200), 0);
    for k in 0..16 {
        assert_eq!(m.reg(k), 0);
        assert!(!m.key(k));
    }
    assert!(m.frame().iter().all(|p| !p));
}

#[test]
fn load_copies_rom_and_starts() {
    let mut m = Chipst8::new();
    let r = m.load_rom(vec![0xAB, 0xCD, 0xEF]);
    assert_eq!(r, Ok(()));
    assert!(m.running());
    assert_eq!(m.pc(), 0x200);
    assert_eq!(m.mem(0x200), 0xAB);
    assert_eq!(m.mem(0x201), 0xCD);
    assert_eq!(m.mem(0x202), 0xEF);
    assert_eq!(m.mem(0x203), 0);
}

#[test]
fn load_accepts_the_largest_rom() {
    let mut m = Chipst8::new();
    let r = m.load_rom(vec![7u8; 4096 - 0x200]);
    assert_eq!(r, Ok(()));
    assert_eq!(m.mem(4095), 7);
}

#[test]
fn oversized_rom_is_rejected_untouched() {
    let mut m = Chipst8::new();
    m.load_rom(vec![0x60, 0x2A]).unwrap();
    m.execute(0x7001, 0);
    let r = m.load_rom(vec![0u8; 4096 - 0x200 + 1]);
    assert_eq!(r, Err(LoadError::TooLarge));
    // Everything from before the failed load is still there.
    assert!(m.running());
    assert_eq!(m.reg(0), 1);
    assert_eq!(m.mem(0x200), 0x60);
}

#[test]
fn load_fully_resets_prior_session() {
    let mut m = Chipst8::new();
    m.load_rom(vec![0xFF; 8]).unwrap();
    // Dirty every part of the state.
    m.execute(0x60AA, 0); // V0
    m.execute(0x6F07, 0); // VF
    m.execute(0x2ABC, 0); // push a return address
    m.execute(0xA300, 0);
    m.execute(0x61C0, 0);
    m.execute(0xF155, 0); // write memory, advance I
    m.execute(0xA300, 0);
    m.execute(0x6200, 0);
    m.execute(0x6300, 0);
    m.execute(0xD231, 0); // light pixels
    m.execute(0x6430, 0);
    m.execute(0xF415, 0); // delay timer = 0x30
    m.execute(0xF418, 0); // sound timer = 0x30
    m.set_key(5, true);
    m.speedup();

    m.load_rom(vec![0x12, 0x00]).unwrap();
    assert!(m.running());
    assert_eq!(m.pc(), 0x200);
    assert_eq!(m.index_reg(), 0);
    assert_eq!(m.stack_len(), 0);
    assert_eq!(m.delay(), 0);
    assert_eq!(m.sound(), 0);
    assert!(!m.waiting());
    for k in 0..16 {
        assert_eq!(m.reg(k), 0);
        assert!(!m.key(k));
    }
    assert!(m.frame().iter().all(|p| !p));
    // The new ROM is in place; pacing survives a load.
    assert_eq!(m.mem(0x200), 0x12);
    assert_eq!(m.speed(), 200);
}

#[test]
fn reset_keeps_memory_and_pacing() {
    let mut m = Chipst8::new();
    m.load_rom(vec![0x11, 0x22]).unwrap();
    m.execute(0x6099, 0);
    m.reset();
    assert!(!m.running());
    assert_eq!(m.reg(0), 0);
    assert_eq!(m.mem(0x200), 0x11); // memory is not zeroed by a reset
    assert_eq!(m.speed(), 300);
}

#[test]
fn timers_set_and_read_by_opcodes() {
    let mut m = Chipst8::new();
    m.load_rom(vec![]).unwrap();
    m.execute(0x6030, 0);
    m.execute(0xF015, 0);
    assert_eq!(m.delay(), 0x30);
    m.execute(0xF118, 0); // sound = V1 = 0
    assert_eq!(m.sound(), 0);
    m.execute(0xF107, 0); // V1 = delay
    assert_eq!(m.reg(1), 0x30);
}

#[test]
fn delay_timer_counts_down_to_zero_and_stays() {
    let mut m = Chipst8::new();
    m.load_rom(vec![]).unwrap();
    m.execute(0x6002, 0);
    m.execute(0xF015, 0);
    m.tick_delay();
    assert_eq!(m.delay(), 1);
    m.tick_delay();
    assert_eq!(m.delay(), 0);
    for _ in 0..10 {
        m.tick_delay();
        assert_eq!(m.delay(), 0);
    }
}

#[test]
fn sound_timer_beeps_only_while_nonzero() {
    let mut m = Chipst8::new();
    m.load_rom(vec![]).unwrap();
    m.execute(0x6002, 0);
    m.execute(0xF018, 0);
    assert!(m.tick_sound());
    assert!(m.tick_sound());
    assert_eq!(m.sound(), 0);
    for _ in 0..10 {
        assert!(!m.tick_sound());
        assert_eq!(m.sound(), 0);
    }
}

#[test]
fn store_load_roundtrip_restores_registers() {
    let mut m = Chipst8::new();
    m.load_rom(vec![]).unwrap();
    m.execute(0x6011, 0);
    m.execute(0x6122, 0);
    m.execute(0x6233, 0);
    m.execute(0x6344, 0);
    m.execute(0xA400, 0);
    m.execute(0xF355, 0); // store V0..V3 at 0x400
    assert_eq!(m.index_reg(), 0x404); // I advanced by X + 1
    assert_eq!(m.mem(0x400), 0x11);
    assert_eq!(m.mem(0x403), 0x44);
    for k in 0..4 {
        m.execute(0x6000 | ((k as u16) << 8), 0); // clear V0..V3
        assert_eq!(m.reg(k), 0);
    }
    m.execute(0xA400, 0); // restore I
    m.execute(0xF365, 0);
    assert_eq!(m.index_reg(), 0x404);
    assert_eq!(m.reg(0), 0x11);
    assert_eq!(m.reg(1), 0x22);
    assert_eq!(m.reg(2), 0x33);
    assert_eq!(m.reg(3), 0x44);
}

#[test]
fn key_events_update_key_state() {
    let mut m = Chipst8::new();
    m.set_key(0, true);
    m.set_key(15, true);
    assert!(m.key(0));
    assert!(m.key(15));
    assert!(!m.key(7));
    m.set_key(0, false);
    assert!(!m.key(0));
}

#[test]
fn speed_adjustments_are_clamped() {
    let mut m = Chipst8::new();
    assert_eq!(m.speed(), 300);
    m.speedup();
    assert_eq!(m.speed(), 200);
    m.speedup();
    assert_eq!(m.speed(), 100);
    m.speedup();
    assert_eq!(m.speed(), 100); // floor
    for _ in 0..25 {
        m.speeddown();
    }
    assert_eq!(m.speed(), 2000); // ceiling
    m.speeddown();
    assert_eq!(m.speed(), 2000);
}

#[test]
fn idle_machine_reports_quiet_cycles() {
    let mut m = Chipst8::new();
    for _ in 0..3 {
        assert_eq!(m.cycle(), Effect::Quiet);
    }
}
