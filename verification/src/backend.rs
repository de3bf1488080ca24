use vstd::prelude::*;
use crate::gl;

verus! {

/// A feature of the OpenGL pipeline that can be switched on.
pub enum OpenGlFeature {
    Alpha,
}

/// A buffer that a frame clear resets: the color buffer (to some color) or the depth buffer.
#[derive(PartialEq, Eq, Structural)]
pub enum ClearTarget {
    Color,
    Depth,
}

/// The OpenGL clear mask for a list of clear commands: the color bit when some command
/// clears the color, the depth bit when some command clears the depth.
pub fn clear_bits(commands: &Vec<ClearTarget>) -> (r: u32)
    ensures
        r == (if commands@.contains(ClearTarget::Color) { gl::COLOR_BUFFER_BIT } else { 0 })
            + (if commands@.contains(ClearTarget::Depth) { gl::DEPTH_BUFFER_BIT } else { 0 }),
{
    let mut clear_bit: u32 = 0;
    let mut i: usize = 0;
    while i < commands.len()
        invariant
            i <= commands@.len(),
            clear_bit == (if commands@.take(i as int).contains(ClearTarget::Color) { gl::COLOR_BUFFER_BIT } else { 0 })
                + (if commands@.take(i as int).contains(ClearTarget::Depth) { gl::DEPTH_BUFFER_BIT } else { 0 }),
        decreases commands@.len() - i,
    {
        let ghost old_bit = clear_bit;
        match &commands[i] {
            ClearTarget::Color => {
                clear_bit = clear_bit | gl::COLOR_BUFFER_BIT;
                assert(old_bit == 0 || old_bit == 0x100 || old_bit == 0x4000 || old_bit == 0x4100);
                assert((old_bit == 0 || old_bit == 0x100 || old_bit == 0x4000 || old_bit == 0x4100) ==>
                    (old_bit | 0x4000u32) == (if old_bit == 0 || old_bit == 0x4000 { 0x4000u32 } else { 0x4100u32 })) by (bit_vector);
            },
            ClearTarget::Depth => {
                clear_bit = clear_bit | gl::DEPTH_BUFFER_BIT;
                assert((old_bit == 0 || old_bit == 0x100 || old_bit == 0x4000 || old_bit == 0x4100) ==>
                    (old_bit | 0x100u32) == (if old_bit == 0 || old_bit == 0x100 { 0x100u32 } else { 0x4100u32 })) by (bit_vector);
            },
        }
        proof {
            let s = commands@.take(i as int);
            let s1 = commands@.take(i + 1);
            assert(s1 =~= s.push(commands@[i as int]));
            assert forall|c: ClearTarget| s1.contains(c) <==> (s.contains(c) || c == commands@[i as int]) by {
                if s1.contains(c) {
                    let k = choose|k: int| 0 <= k < s1.len() && s1[k] == c;
                    if k < s.len() {
                        assert(s[k] == c);
                    }
                }
                if s.contains(c) {
                    let k = choose|k: int| 0 <= k < s.len() && s[k] == c;
                    assert(s1[k] == c);
                }
                if c == commands@[i as int] {
                    assert(s1[i as int] == c);
                }
            }
        }
        i = i + 1;
    }
    assert(commands@.take(commands@.len() as int) =~= commands@);
    clear_bit
}

} // verus!
