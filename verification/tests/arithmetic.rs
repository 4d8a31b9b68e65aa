//! Arithmetic, logic and register instructions.

use chipst8::{Chipst8, Effect, Quirks};

fn fresh() -> Chipst8 {
    let mut m = Chipst8::new();
    m.load_rom(vec![]).unwrap();
    m
}

#[test]
fn set_and_copy_registers() {
    let mut m = fresh();
    m.execute(0x602A, 0);
    assert_eq!(m.reg(0), 0x2A);
    m.execute(0x8100, 0);
    assert_eq!(m.reg(1), 0x2A);
}

#[test]
fn add_immediate_wraps_without_flag() {
    let mut m = fresh();
    m.execute(0x6F05, 0); // VF = 5
    m.execute(0x60FF, 0); // V0 = 0xFF
    m.execute(0x7002, 0); // V0 += 2
    assert_eq!(m.reg(0), 0x01);
    assert_eq!(m.reg(15), 5); // VF untouched by 7XNN
}

#[test]
fn add_registers_with_carry() {
    let mut m = fresh();
    m.execute(0x60F0, 0);
    m.execute(0x6120, 0);
    m.execute(0x8014, 0); // V0 += V1
    assert_eq!(m.reg(0), 0x10);
    assert_eq!(m.reg(15), 1);
}

#[test]
fn add_registers_without_carry() {
    let mut m = fresh();
    m.execute(0x6010, 0);
    m.execute(0x6120, 0);
    m.execute(0x8014, 0);
    assert_eq!(m.reg(0), 0x30);
    assert_eq!(m.reg(15), 0);
}

#[test]
fn sub_registers_no_borrow() {
    let mut m = fresh();
    m.execute(0x6010, 0);
    m.execute(0x6105, 0);
    m.execute(0x8015, 0); // V0 -= V1
    assert_eq!(m.reg(0), 0x0B);
    assert_eq!(m.reg(15), 1);
}

#[test]
fn sub_registers_with_borrow() {
    let mut m = fresh();
    m.execute(0x6005, 0);
    m.execute(0x6110, 0);
    m.execute(0x8015, 0);
    assert_eq!(m.reg(0), 0xF5);
    assert_eq!(m.reg(15), 0);
}

#[test]
fn rsub_registers_both_ways() {
    let mut m = fresh();
    m.execute(0x6005, 0);
    m.execute(0x6110, 0);
    m.execute(0x8017, 0); // V0 = V1 - V0
    assert_eq!(m.reg(0), 0x0B);
    assert_eq!(m.reg(15), 1);
    m.execute(0x6020, 0);
    m.execute(0x6110, 0);
    m.execute(0x8017, 0);
    assert_eq!(m.reg(0), 0xF0);
    assert_eq!(m.reg(15), 0);
}

#[test]
fn logic_or_and_xor() {
    let mut m = fresh();
    m.execute(0x60F0, 0);
    m.execute(0x610F, 0);
    m.execute(0x8011, 0);
    assert_eq!(m.reg(0), 0xFF);
    m.execute(0x60CC, 0);
    m.execute(0x61AA, 0);
    m.execute(0x8012, 0);
    assert_eq!(m.reg(0), 0x88);
    m.execute(0x60CC, 0);
    m.execute(0x61AA, 0);
    m.execute(0x8013, 0);
    assert_eq!(m.reg(0), 0x66);
}

#[test]
fn shift_right_reads_vy_under_classic_quirk() {
    let mut m = fresh();
    m.execute(0x6105, 0); // V1 = 0b101
    m.execute(0x6070, 0); // V0 = junk that must be ignored
    m.execute(0x8016, 0); // V0 = V1 >> 1
    assert_eq!(m.reg(0), 2);
    assert_eq!(m.reg(15), 1);
}

#[test]
fn shift_left_reads_vy_under_classic_quirk() {
    let mut m = fresh();
    m.execute(0x6181, 0); // V1 = 0b1000_0001
    m.execute(0x801E, 0); // V0 = V1 << 1
    assert_eq!(m.reg(0), 0x02);
    assert_eq!(m.reg(15), 1);
}

#[test]
fn shifts_read_vx_under_alternate_quirk() {
    let mut m = fresh();
    m.set_quirks(Quirks { shift_reads_vy: false, wait_for_release: true });
    m.execute(0x6006, 0); // V0 = 0b110
    m.execute(0x61FF, 0); // V1 must be ignored
    m.execute(0x8016, 0);
    assert_eq!(m.reg(0), 3);
    assert_eq!(m.reg(15), 0);
    m.execute(0x6041, 0); // V0 = 0b0100_0001
    m.execute(0x801E, 0);
    assert_eq!(m.reg(0), 0x82);
    assert_eq!(m.reg(15), 0);
}

#[test]
fn random_is_masked_by_immediate() {
    let mut m = fresh();
    let eff = m.execute(0xC0FF, 0x5C);
    assert_eq!(eff, Effect::Quiet);
    assert_eq!(m.reg(0), 0x5C);
    m.execute(0xC10F, 0x5C);
    assert_eq!(m.reg(1), 0x0C);
    m.execute(0xC200, 0x5C);
    assert_eq!(m.reg(2), 0);
}

#[test]
fn bcd_digits_stored_at_index() {
    let mut m = fresh();
    m.execute(0xA300, 0); // I = 0x300
    m.execute(0x60FE, 0); // V0 = 254
    m.execute(0xF033, 0);
    assert_eq!(m.mem(0x300), 2);
    assert_eq!(m.mem(0x301), 5);
    assert_eq!(m.mem(0x302), 4);
}
