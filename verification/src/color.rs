use vstd::prelude::*;

verus! {

/// The 24-bit `0x00RRGGBB` value of a colour.
pub open spec fn rgb_value(r: u8, g: u8, b: u8) -> int {
    r as int * 0x10000 + g as int * 0x100 + b as int
}

/// Packs a colour into the `0x00RRGGBB` layout that point-cloud files keep in
/// the bits of their `rgb` field; each channel can be read back from its byte.
pub fn pack_rgb(r: u8, g: u8, b: u8) -> (packed: u32)
    ensures
        packed == rgb_value(r, g, b),
        packed >> 16u32 == r as u32,
        (packed >> 8u32) & 0xffu32 == g as u32,
        packed & 0xffu32 == b as u32,
        packed < 0x100_0000,
{
    let (r32, g32, b32) = (r as u32, g as u32, b as u32);
    let packed = (r32 << 16u32) | (g32 << 8u32) | b32;
    assert(packed == r32 * 0x10000 + g32 * 0x100 + b32) by (bit_vector)
        requires
            r32 < 256,
            g32 < 256,
            b32 < 256,
            packed == (r32 << 16u32) | (g32 << 8u32) | b32;
    assert(packed >> 16u32 == r32 && (packed >> 8u32) & 0xffu32 == g32 && packed & 0xffu32 == b32
        && packed < 0x100_0000) by (bit_vector)
        requires
            r32 < 256,
            g32 < 256,
            b32 < 256,
            packed == (r32 << 16u32) | (g32 << 8u32) | b32;
    packed
}

/// Distinct colours pack to distinct values.
pub proof fn lemma_pack_rgb_injective(r1: u8, g1: u8, b1: u8, r2: u8, g2: u8, b2: u8)
    requires
        rgb_value(r1, g1, b1) == rgb_value(r2, g2, b2),
    ensures
        r1 == r2 && g1 == g2 && b1 == b2,
{
}

} // verus!
