use rustaria::backend::{clear_bits, ClearTarget};
use rustaria::buffer::generate_index;
use rustaria::variant::tile_variant;

#[test]
fn clear_masks() {
    assert_eq!(clear_bits(&vec![]), 0);
    assert_eq!(clear_bits(&vec![ClearTarget::Color]), 0x4000);
    assert_eq!(clear_bits(&vec![ClearTarget::Depth]), 0x100);
    assert_eq!(clear_bits(&vec![ClearTarget::Depth, ClearTarget::Color, ClearTarget::Depth]), 0x4100);
}

fn scramble(x: f32, y: f32) -> u32 {
    let mut p = u32::from_le_bytes(x.to_be_bytes()).wrapping_mul(9).wrapping_add(u32::from_le_bytes(y.to_le_bytes()));
    p ^= p.wrapping_shl(11);
    p ^= p.wrapping_shr(7);
    p ^= p.wrapping_shl(17);
    p % 3
}

#[test]
fn variants_follow_the_scramble() {
    for (x, y) in [(0.0f32, 0.0f32), (1.0, 2.0), (17.0, -3.0), (1024.0, 511.0)] {
        let v = tile_variant(u32::from_le_bytes(x.to_be_bytes()), y.to_bits());
        assert_eq!(v, scramble(x, y));
        assert!(v < 3);
    }
    assert_eq!(tile_variant(0, 0), 0);
}

#[test]
fn quad_indices_for_meshes() {
    let indices = generate_index(&[0u32, 1, 3, 1, 2, 3], 4, 2);
    assert_eq!(indices, vec![0, 1, 3, 1, 2, 3, 4, 5, 7, 5, 6, 7]);
}
