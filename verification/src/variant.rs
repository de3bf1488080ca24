use vstd::prelude::*;

verus! {

/// The xorshift scramble of a tile position, from the bit patterns of its coordinates.
pub open spec fn spec_scramble(x_bits: u32, y_bits: u32) -> u32 {
    let p0 = x_bits.wrapping_mul(9).wrapping_add(y_bits);
    let p1 = p0 ^ p0.wrapping_shl(11);
    let p2 = p1 ^ p1.wrapping_shr(7);
    p2 ^ p2.wrapping_shl(17)
}

/// Which of the three sprite variants a tile is drawn with. `x_bits` is the bit pattern
/// of the tile's x coordinate with its bytes reversed, `y_bits` that of its y coordinate.
pub fn tile_variant(x_bits: u32, y_bits: u32) -> (r: u32)
    ensures
        r == spec_scramble(x_bits, y_bits) % 3,
        r < 3,
{
    let mut p: u32 = x_bits.wrapping_mul(9).wrapping_add(y_bits);
    p = p ^ p.wrapping_shl(11);
    p = p ^ p.wrapping_shr(7);
    p = p ^ p.wrapping_shl(17);
    p % 3
}

} // verus!
