//! Sprite drawing, collision, wraparound and the frame snapshot.

use chipst8::{Chipst8, Effect};

fn fresh() -> Chipst8 {
    let mut m = Chipst8::new();
    m.load_rom(vec![]).unwrap();
    m
}

#[test]
fn clear_display_publishes_frame() {
    let mut m = fresh();
    // Light a pixel first.
    m.execute(0xA300, 0);
    m.execute(0x6080, 0); // V0 = 0b1000_0000: one sprite pixel
    m.execute(0xF055, 0); // store at 0x300
    m.execute(0xA300, 0);
    m.execute(0x6000, 0);
    m.execute(0x6100, 0);
    m.execute(0xD011, 0);
    assert!(m.pixel(0, 0));
    let eff = m.execute(0x00E0, 0);
    assert_eq!(eff, Effect::Frame);
    assert!(!m.pixel(0, 0));
    assert!(m.frame().iter().all(|p| !p));
}

#[test]
fn draw_xors_and_reports_collision() {
    let mut m = fresh();
    m.execute(0xA300, 0);
    m.execute(0x60FF, 0);
    m.execute(0xF055, 0); // memory[0x300] = 0xFF
    m.execute(0xA300, 0);
    m.execute(0x6005, 0); // x = 5
    m.execute(0x6103, 0); // y = 3
    let eff = m.execute(0xD011, 0);
    assert_eq!(eff, Effect::Frame);
    for c in 0..8 {
        assert!(m.pixel(3, 5 + c));
    }
    assert!(!m.pixel(3, 13));
    assert_eq!(m.reg(15), 0);
}

#[test]
fn double_draw_restores_display() {
    let mut m = fresh();
    m.execute(0xA300, 0);
    m.execute(0x60A5, 0);
    m.execute(0xF055, 0); // memory[0x300] = 0xA5
    m.execute(0xA300, 0);
    m.execute(0x6005, 0);
    m.execute(0x6103, 0);
    m.execute(0xD011, 0);
    assert_eq!(m.reg(15), 0);
    assert!(m.pixel(3, 5)); // high bit of 0xA5
    m.execute(0xD011, 0); // same sprite, same anchor
    assert_eq!(m.reg(15), 1); // every lit pixel collided
    for c in 0..8 {
        assert!(!m.pixel(3, 5 + c));
    }
    assert!(m.frame().iter().all(|p| !p));
}

#[test]
fn draw_wraps_at_both_edges() {
    let mut m = fresh();
    m.execute(0xA300, 0);
    m.execute(0x60FF, 0);
    m.execute(0x61FF, 0);
    m.execute(0xF155, 0); // memory[0x300] = memory[0x301] = 0xFF
    m.execute(0xA300, 0);
    m.execute(0x603F, 0); // x = 63
    m.execute(0x611F, 0); // y = 31
    m.execute(0xD012, 0); // 8 wide, 2 tall at the far corner
    // The first row starts at column 63 of row 31 and wraps to column 0.
    assert!(m.pixel(31, 63));
    for c in 0..7 {
        assert!(m.pixel(31, c));
    }
    assert!(!m.pixel(31, 7));
    // The second row wraps to row 0.
    assert!(m.pixel(0, 63));
    for c in 0..7 {
        assert!(m.pixel(0, c));
    }
    assert_eq!(m.reg(15), 0);
}

#[test]
fn draw_coordinates_reduce_modulo_grid() {
    let mut m = fresh();
    m.execute(0xA300, 0);
    m.execute(0x6080, 0);
    m.execute(0xF055, 0); // one-pixel sprite at 0x300
    m.execute(0xA300, 0);
    m.execute(0x6042, 0); // x = 66 == 2 (mod 64)
    m.execute(0x6122, 0); // y = 34 == 2 (mod 32)
    m.execute(0xD011, 0);
    assert!(m.pixel(2, 2));
}

#[test]
fn frame_is_a_snapshot() {
    let mut m = fresh();
    m.execute(0xA300, 0);
    m.execute(0x6080, 0);
    m.execute(0xF055, 0);
    m.execute(0xA300, 0);
    m.execute(0x6000, 0);
    m.execute(0x6100, 0);
    m.execute(0xD011, 0);
    let f = m.frame();
    assert_eq!(f.len(), 64 * 32);
    assert!(f[0]);
    m.execute(0x00E0, 0);
    // The snapshot is unaffected by later mutation.
    assert!(f[0]);
    assert!(!m.pixel(0, 0));
}
