//! Colors of eight bits per channel, and two of them in one word.

use vstd::prelude::*;

verus! {

/// A color in the sRGB space, with its opacity.
#[derive(Clone, Copy, Debug, PartialEq, Eq, Structural)]
pub struct Rgba {
    pub r: u8,
    pub g: u8,
    pub b: u8,
    pub a: u8,
}

impl View for Rgba {
    type V = Rgba;

    open spec fn view(&self) -> Rgba {
        *self
    }
}

/// An opaque color of the given components.
pub open spec fn opaque(r: u8, g: u8, b: u8) -> Rgba {
    Rgba { r, g, b, a: 255 }
}

/// White.
pub open spec fn white() -> Rgba {
    opaque(255, 255, 255)
}

/// Black that nothing shows of.
pub open spec fn clear() -> Rgba {
    Rgba { r: 0, g: 0, b: 0, a: 0 }
}

/// The four channels of `c` as one number, red first.
pub open spec fn channels_value(c: Rgba) -> int {
    ((c.r * 0x100 + c.g) * 0x100 + c.b) * 0x100 + c.a
}

/// The word that holds `ca` in its upper half and `cb` in its lower.
pub open spec fn packed(ca: Rgba, cb: Rgba) -> int {
    channels_value(ca) * 0x1_0000_0000 + channels_value(cb)
}

/// The color in a word's half.
fn half_to_color(half: u64) -> (c: Rgba)
    requires
        half <= 0xffff_ffff,
    ensures
        channels_value(c) == half,
{
    let r: u64 = half / 0x100_0000;
    let g: u64 = half / 0x1_0000 % 0x100;
    let b: u64 = half / 0x100 % 0x100;
    let a: u64 = half % 0x100;
    Rgba { r: r as u8, g: g as u8, b: b as u8, a: a as u8 }
}

/// The text color and the background color that the word `n` holds.
pub fn u64_to_2_rgba_colors(n: u64) -> (colors: (Rgba, Rgba))
    ensures
        packed(colors.0, colors.1) == n,
{
    let high: u64 = n / 0x1_0000_0000;
    let low: u64 = n % 0x1_0000_0000;
    (half_to_color(high), half_to_color(low))
}

/// Puts `ca` and `cb` into one word, the bytes of `ca` first.
pub fn color_pair_to_u64(ca: Rgba, cb: Rgba) -> (n: u64)
    ensures
        n == packed(ca, cb),
{
    let high: u64 = ((ca.r as u64 * 0x100 + ca.g as u64) * 0x100 + ca.b as u64) * 0x100
        + ca.a as u64;
    let low: u64 = ((cb.r as u64 * 0x100 + cb.g as u64) * 0x100 + cb.b as u64) * 0x100
        + cb.a as u64;
    high * 0x1_0000_0000 + low
}

/// Every pair of colors fits a word.
pub proof fn packed_fits(ca: Rgba, cb: Rgba)
    ensures
        0 <= packed(ca, cb) <= u64::MAX,
{
}

/// A number's quotient and remainder by 256 are its own.
proof fn last_byte(x: int, y: u8, z: int, w: u8)
    requires
        x * 0x100 + y == z * 0x100 + w,
    ensures
        x == z,
        y == w,
{
}

/// No two colors have the same channels.
proof fn channels_keep_color(c: Rgba, d: Rgba)
    requires
        channels_value(c) == channels_value(d),
    ensures
        c == d,
{
    last_byte((c.r * 0x100 + c.g) * 0x100 + c.b, c.a, (d.r * 0x100 + d.g) * 0x100 + d.b, d.a);
    last_byte(c.r * 0x100 + c.g, c.b, d.r * 0x100 + d.g, d.b);
    last_byte(c.r as int, c.g, d.r as int, d.g);
}

/// No two pairs of colors share a word: what a word gives back is the pair that was put in.
pub proof fn packing_keeps_both_colors(ca: Rgba, cb: Rgba, da: Rgba, db: Rgba)
    requires
        packed(ca, cb) == packed(da, db),
    ensures
        ca == da,
        cb == db,
{
    let (x, y) = (channels_value(ca), channels_value(cb));
    let (z, w) = (channels_value(da), channels_value(db));
    assert(0 <= x < 0x1_0000_0000 && 0 <= y < 0x1_0000_0000);
    assert(0 <= z < 0x1_0000_0000 && 0 <= w < 0x1_0000_0000);
    assert(x * 0x1_0000_0000 + y == z * 0x1_0000_0000 + w);
    channels_keep_color(ca, da);
    channels_keep_color(cb, db);
}

/// The channels of a pair stand in its word in this order, from the highest byte to the lowest: red,
/// green, blue and opacity of the first color, then those of the second.
pub proof fn channels_stand_in_order(ca: Rgba, cb: Rgba)
    ensures
        packed(ca, cb) == ca.r * 0x100_0000_0000_0000 + ca.g * 0x1_0000_0000_0000 + ca.b
            * 0x100_0000_0000 + ca.a * 0x1_0000_0000 + cb.r * 0x100_0000 + cb.g * 0x1_0000 + cb.b
            * 0x100 + cb.a,
{
}

/// What stands for white is white, for clear is clear, and an opaque color has full opacity.
pub proof fn named_colors_are_these(r: u8, g: u8, b: u8)
    ensures
        white() == (Rgba { r: 255, g: 255, b: 255, a: 255 }),
        clear() == (Rgba { r: 0, g: 0, b: 0, a: 0 }),
        opaque(r, g, b) == (Rgba { r, g, b, a: 255 }),
{
}

} // verus!
