//! Colours as `0xRRGGBB`: splitting one into its channels and putting
//! channels back together.
use vstd::prelude::*;

verus! {

pub open spec fn red(c: u32) -> u32 {
    (c >> 16u32) & 0xFFu32
}

pub open spec fn green(c: u32) -> u32 {
    (c >> 8u32) & 0xFFu32
}

pub open spec fn blue(c: u32) -> u32 {
    c & 0xFFu32
}

/// The colour with channels `r`, `g` and `b`, each shifted into its byte.
pub open spec fn rgb_spec(r: u32, g: u32, b: u32) -> u32 {
    (r << 16u32) | (g << 8u32) | b
}

/// The red, green and blue channels of a colour.
pub fn channels(color: u32) -> (r: (u32, u32, u32))
    ensures
        r == (red(color), green(color), blue(color)),
{
    ((color >> 16) & 0xFF, (color >> 8) & 0xFF, color & 0xFF)
}

/// The colour made of the channels `r`, `g` and `b`.
pub fn rgb(r: u32, g: u32, b: u32) -> (c: u32)
    ensures
        c == rgb_spec(r, g, b),
{
    (r << 16) | (g << 8) | b
}

/// Law: putting the channels of a colour back together gives the colour,
/// less its top byte.
pub proof fn law_channels_then_rgb(c: u32)
    ensures
        rgb_spec(red(c), green(c), blue(c)) == c & 0xFF_FFFFu32,
{
    assert(((((c >> 16u32) & 0xFFu32) << 16u32) | ((((c >> 8u32) & 0xFFu32) << 8u32)) | (c
        & 0xFFu32)) == c & 0xFF_FFFFu32) by (bit_vector);
}

/// Law: the channels of a colour made of byte-sized channels are those channels.
pub proof fn law_rgb_then_channels(r: u32, g: u32, b: u32)
    requires
        r <= 0xFF,
        g <= 0xFF,
        b <= 0xFF,
    ensures
        red(rgb_spec(r, g, b)) == r,
        green(rgb_spec(r, g, b)) == g,
        blue(rgb_spec(r, g, b)) == b,
{
    assert((((r << 16u32) | (g << 8u32) | b) >> 16u32) & 0xFFu32 == r) by (bit_vector)
        requires
            r <= 0xFF,
            g <= 0xFF,
            b <= 0xFF,
    ;
    assert((((r << 16u32) | (g << 8u32) | b) >> 8u32) & 0xFFu32 == g) by (bit_vector)
        requires
            r <= 0xFF,
            g <= 0xFF,
            b <= 0xFF,
    ;
    assert(((r << 16u32) | (g << 8u32) | b) & 0xFFu32 == b) by (bit_vector)
        requires
            r <= 0xFF,
            g <= 0xFF,
            b <= 0xFF,
    ;
}

/// Law: the channels of `0xRRGGBB` are its bytes counted from the top:
/// red is `c / 65536 % 256`, green `c / 256 % 256`, blue `c % 256`; a
/// colour made of byte-sized channels is `r * 65536 + g * 256 + b`.
pub proof fn law_channel_values(c: u32, r: u32, g: u32, b: u32)
    requires
        r <= 0xFF,
        g <= 0xFF,
        b <= 0xFF,
    ensures
        red(c) == c / 65536 % 256,
        green(c) == c / 256 % 256,
        blue(c) == c % 256,
        rgb_spec(r, g, b) == r * 65536 + g * 256 + b,
{
    assert((c >> 16u32) & 0xFFu32 == c / 65536 % 256) by (bit_vector);
    assert((c >> 8u32) & 0xFFu32 == c / 256 % 256) by (bit_vector);
    assert(c & 0xFFu32 == c % 256) by (bit_vector);
    assert((r << 16u32) | (g << 8u32) | b == r * 65536 + g * 256 + b) by (bit_vector)
        requires
            r <= 0xFF,
            g <= 0xFF,
            b <= 0xFF,
    ;
}

} // verus!
