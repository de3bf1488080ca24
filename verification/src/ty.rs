use vstd::prelude::*;

verus! {

/// World Space
pub struct WS;

/// Screen Space
pub struct SS;

/// Errors of coordinate computations.
#[derive(Debug)]
pub enum Error {
    OutOfBounds,
}

impl Error {
    /// The message that describes the error to a user.
    pub fn to_string(&self) -> (r: String)
        ensures
            r@ == "Coordinates are out of bounds"@,
    {
        match self {
            Error::OutOfBounds => String::from_str("Coordinates are out of bounds"),
        }
    }
}

/// Access to one of several inner values of a type, selected by the inner value's type.
pub trait MultiDeref<T> {
    fn get_child(&self) -> &T;

    fn get_mut_child(&mut self) -> &mut T;
}

/// Displacement of a position by a value of type `D`.
pub trait Offset<D>: Sized {
    fn wrapping_offset(self, displacement: D) -> Self;

    fn checked_offset(self, displacement: D) -> Option<Self>;
}

/// `a + b` when it lies in `0..=u32::MAX`, else nothing.
pub open spec fn spec_checked_add_signed_u32(a: u32, b: i32) -> Option<u32> {
    if 0 <= a + b <= u32::MAX {
        Some((a + b) as u32)
    } else {
        None
    }
}

/// `a + b` when it lies in `0..=u8::MAX`, else nothing.
pub open spec fn spec_checked_add_signed_u8(a: u8, b: i8) -> Option<u8> {
    if 0 <= a + b <= u8::MAX {
        Some((a + b) as u8)
    } else {
        None
    }
}

/// Adds a signed displacement to an unsigned coordinate, failing on under- or overflow.
pub fn checked_add_signed_u32(a: u32, b: i32) -> (r: Option<u32>)
    ensures
        r == spec_checked_add_signed_u32(a, b),
{
    let bu: u32 = #[verifier::truncate] (b as u32);
    let res: u32 = a.wrapping_add(bu);
    let overflowed: bool = res < a;
    assert(bu == (if b < 0 { b + 0x1_0000_0000 } else { b as int })) by (bit_vector)
        requires
            bu == #[verifier::truncate] (b as u32),
    ;
    if overflowed ^ (b < 0) {
        None
    } else {
        Some(res)
    }
}

/// Adds a signed displacement to an unsigned coordinate, failing on under- or overflow.
pub fn checked_add_signed_u8(a: u8, b: i8) -> (r: Option<u8>)
    ensures
        r == spec_checked_add_signed_u8(a, b),
{
    let bu: u8 = #[verifier::truncate] (b as u8);
    let res: u8 = a.wrapping_add(bu);
    let overflowed: bool = res < a;
    assert(bu == (if b < 0 { b + 0x100 } else { b as int })) by (bit_vector)
        requires
            bu == #[verifier::truncate] (b as u8),
    ;
    if overflowed ^ (b < 0) {
        None
    } else {
        Some(res)
    }
}

} // verus!
