//! The packed `0RGB` pixel format of the framebuffer.

use vstd::prelude::*;

verus! {

/// The number that a packed pixel with the given channels is: red in bits
/// 16..24, green in bits 8..16, blue in bits 0..8, the top byte zero.
pub open spec fn packed(r: u8, g: u8, b: u8) -> int {
    r as int * 65536 + g as int * 256 + b as int
}

/// The red, green and blue channels of a packed pixel. The top byte is ignored.
pub open spec fn channels(color: u32) -> (u8, u8, u8) {
    (
        ((color as int / 65536) % 256) as u8,
        ((color as int / 256) % 256) as u8,
        (color as int % 256) as u8,
    )
}

/// Packs three 8-bit channels into one `0RGB` word.
pub fn from_u8_0rgb(r: u8, g: u8, b: u8) -> (color: u32)
    ensures
        color as int == packed(r, g, b),
        channels(color) == (r, g, b),
{
    let (r32, g32, b32): (u32, u32, u32) = (r as u32, g as u32, b as u32);
    let color: u32 = (r32 << 16) | (g32 << 8) | b32;
    proof {
        assert(((r32 << 16) | (g32 << 8) | b32) == r32 * 65536 + g32 * 256 + b32) by (bit_vector)
            requires
                r32 < 256,
                g32 < 256,
                b32 < 256,
        ;
        lemma_channels_of_packed(r, g, b);
    }
    color
}

/// Unpacks a `0RGB` word into its red, green and blue channels.
pub fn to_rgb(color: u32) -> (rgb: (u8, u8, u8))
    ensures
        rgb == channels(color),
{
    let r: u32 = (color >> 16) & 0xff;
    let g: u32 = (color >> 8) & 0xff;
    let b: u32 = color & 0xff;
    proof {
        assert(((color >> 16) & 0xff) == (color / 65536) % 256) by (bit_vector);
        assert(((color >> 8) & 0xff) == (color / 256) % 256) by (bit_vector);
        assert((color & 0xff) == color % 256) by (bit_vector);
    }
    (r as u8, g as u8, b as u8)
}

/// Unpacking a packed pixel gives back the three channels it was packed from.
pub proof fn lemma_channels_of_packed(r: u8, g: u8, b: u8)
    ensures
        0 <= packed(r, g, b) < 0x100_0000,
        channels(packed(r, g, b) as u32) == (r, g, b),
{
    let p = packed(r, g, b);
    assert(p / 65536 == r as int && (p / 256) % 256 == g as int && p % 256 == b as int) by {
        let (ri, gi, bi) = (r as int, g as int, b as int);
        assert((ri * 65536 + gi * 256 + bi) / 65536 == ri && ((ri * 65536 + gi * 256 + bi) / 256)
            % 256 == gi && (ri * 65536 + gi * 256 + bi) % 256 == bi) by (nonlinear_arith)
            requires
                0 <= ri < 256,
                0 <= gi < 256,
                0 <= bi < 256,
        ;
    }
}

/// A pixel whose top byte is zero is the packing of its own channels.
pub proof fn lemma_packed_of_channels(color: u32)
    requires
        color < 0x100_0000,
    ensures
        packed(channels(color).0, channels(color).1, channels(color).2) == color as int,
{
    let c = color as int;
    assert(((c / 65536) % 256) * 65536 + ((c / 256) % 256) * 256 + c % 256 == c)
        by (nonlinear_arith)
        requires
            0 <= c < 0x100_0000,
    ;
}

} // verus!
