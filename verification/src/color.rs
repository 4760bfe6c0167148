//! Packing of 8-bit colour channels into the `0x00RRGGBB` pixel format.
use vstd::prelude::*;

verus! {

/// The pixel value `0x00RRGGBB` of three 8-bit channels.
pub open spec fn packed_rgb(r: u8, g: u8, b: u8) -> u32 {
    (r as int * 65536 + g as int * 256 + b as int) as u32
}

/// Packs the red, green and blue channels into one pixel:
/// red in bits 16..24, green in bits 8..16, blue in bits 0..8.
pub fn pack_rgb(r: u8, g: u8, b: u8) -> (pixel: u32)
    ensures
        pixel == packed_rgb(r, g, b),
        pixel == r as int * 65536 + g as int * 256 + b as int,
        pixel < 0x0100_0000,
        pixel / 65536 == r,
        (pixel / 256) % 256 == g,
        pixel % 256 == b,
{
    let r32: u32 = r as u32;
    let g32: u32 = g as u32;
    let b32: u32 = b as u32;
    let pixel: u32 = (r32 << 16) | (g32 << 8) | b32;
    assert(pixel == r32 * 65536 + g32 * 256 + b32) by (bit_vector)
        requires
            pixel == (r32 << 16) | (g32 << 8) | b32,
            r32 < 256,
            g32 < 256,
            b32 < 256,
    ;
    pixel
}

} // verus!
