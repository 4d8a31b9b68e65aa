//! The sixteen built-in hexadecimal digit glyphs.
//!
//! Each glyph is five bytes tall and eight pixels wide (only the high nibble
//! of each byte is drawn). The whole table is eighty bytes and is written at
//! a fixed offset of memory when the machine is created. A glyph is packed
//! here into one 40-bit word, row 0 in the highest byte.

use vstd::prelude::*;

verus! {

/// Lowest memory address of the font table.
pub const FONT_ADDRESS: usize = 0x50;

/// Number of bytes in the font table.
pub const FONT_SIZE: usize = 80;

/// The five rows of the glyph for digit `d`, packed into one word with
/// row 0 in bits 32..39 and row 4 in bits 0..7.
pub open spec fn glyph_word(d: int) -> u64 {
    if d == 0x0 {
        0xF0909090F0
    } else if d == 0x1 {
        0x2060202070
    } else if d == 0x2 {
        0xF010F080F0
    } else if d == 0x3 {
        0xF010F010F0
    } else if d == 0x4 {
        0x9090F01010
    } else if d == 0x5 {
        0xF080F010F0
    } else if d == 0x6 {
        0xF080F090F0
    } else if d == 0x7 {
        0xF010204040
    } else if d == 0x8 {
        0xF090F090F0
    } else if d == 0x9 {
        0xF090F010F0
    } else if d == 0xA {
        0xF090F09090
    } else if d == 0xB {
        0xE090E090E0
    } else if d == 0xC {
        0xF0808080F0
    } else if d == 0xD {
        0xE0909090E0
    } else {
        if d == 0xE {
            0xF080F080F0
        } else {
            0xF080F08080
        }
    }
}

/// Byte `k` of the eighty-byte font table: row `k % 5` of digit `k / 5`.
pub open spec fn font_data(k: int) -> u8 {
    (glyph_word(k / 5) >> ((8 * (4 - k % 5)) as u64)) as u8
}

/// Executable counterpart of [`glyph_word`].
pub fn glyph_word_exec(d: usize) -> (w: u64)
    requires
        d < 16,
    ensures
        w == glyph_word(d as int),
{
    if d == 0x0 {
        0xF0909090F0
    } else if d == 0x1 {
        0x2060202070
    } else if d == 0x2 {
        0xF010F080F0
    } else if d == 0x3 {
        0xF010F010F0
    } else if d == 0x4 {
        0x9090F01010
    } else if d == 0x5 {
        0xF080F010F0
    } else if d == 0x6 {
        0xF080F090F0
    } else if d == 0x7 {
        0xF010204040
    } else if d == 0x8 {
        0xF090F090F0
    } else if d == 0x9 {
        0xF090F010F0
    } else if d == 0xA {
        0xF090F09090
    } else if d == 0xB {
        0xE090E090E0
    } else if d == 0xC {
        0xF0808080F0
    } else if d == 0xD {
        0xE0909090E0
    } else if d == 0xE {
        0xF080F080F0
    } else {
        0xF080F08080
    }
}

/// Byte `k` of the font table, as the machine writes it into memory.
pub fn font_byte(k: usize) -> (b: u8)
    requires
        k < 80,
    ensures
        b == font_data(k as int),
{
    let w = glyph_word_exec(k / 5);
    let shift: u64 = (8 * (4 - k % 5)) as u64;
    (w >> shift) as u8
}

} // verus!
