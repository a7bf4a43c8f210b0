//! Pixels of client requests, split into channels.

use vstd::prelude::*;

use crate::command::Rgba8;

verus! {

/// The channels of a pixel: blue in the lowest byte, then green, red, alpha.
pub open spec fn pixel_channels(pixel: u32) -> Rgba8 {
    Rgba8 {
        r: ((pixel >> 16) & 0xff) as u8,
        g: ((pixel >> 8) & 0xff) as u8,
        b: (pixel & 0xff) as u8,
        a: ((pixel >> 24) & 0xff) as u8,
    }
}

/// Splits a pixel into its channels. A channel `c` stands for `c / 255`.
pub fn decode_x11_pixel_bgra(pixel: u32) -> (r: Rgba8)
    ensures
        r == pixel_channels(pixel),
{
    Rgba8 {
        r: ((pixel >> 16) & 0xff) as u8,
        g: ((pixel >> 8) & 0xff) as u8,
        b: (pixel & 0xff) as u8,
        a: ((pixel >> 24) & 0xff) as u8,
    }
}

/// Splits a pixel for a drawable of the given depth. Only at depth 32 does
/// alpha belong to the client; otherwise it is opaque.
pub fn decode_x11_pixel_server_alpha(pixel: u32, depth: u8) -> (r: Rgba8)
    ensures
        r == if depth == 32 {
            pixel_channels(pixel)
        } else {
            Rgba8 { a: 255, ..pixel_channels(pixel) }
        },
{
    let c = decode_x11_pixel_bgra(pixel);
    if depth != 32 {
        Rgba8 { a: 255, ..c }
    } else {
        c
    }
}

/// The channels of a pixel determine it.
pub proof fn channels_determine_pixel(pixel: u32)
    ensures
        pixel == (pixel_channels(pixel).b as u32) | (pixel_channels(pixel).g as u32) << 8 | (
        pixel_channels(pixel).r as u32) << 16 | (pixel_channels(pixel).a as u32) << 24,
{
    assert(pixel == (((pixel & 0xff) as u8) as u32) | ((((pixel >> 8) & 0xff) as u8) as u32) << 8 | (
    (((pixel >> 16) & 0xff) as u8) as u32) << 16 | ((((pixel >> 24) & 0xff) as u8) as u32) << 24)
        by (bit_vector);
}

} // verus!
