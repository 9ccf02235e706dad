//! Primitive identity.
//!
//! Two primitives can be geometrically identical and still be different
//! objects, so identity is a value of its own, compared by value.

use vstd::prelude::*;

verus! {

/// The bits of a 128-bit identifier that carry its version and its variant.
pub const LAYOUT_MASK: u128 = 0x0000_0000_0000_F000_C000_0000_0000_0000u128;

/// What `LAYOUT_MASK` selects in a random (version 4) identifier.
pub const RANDOM_LAYOUT: u128 = 0x0000_0000_0000_4000_8000_0000_0000_0000u128;

/// The identity of a primitive.
#[derive(Debug, Clone, Copy, PartialEq, Eq, Hash, Structural)]
pub struct ShapeId {
    pub value: u128,
}

/// Calls `uuid::Uuid::new_v4` and returns the identifier as the number that
/// `Uuid::as_u128` packs its sixteen bytes into.
///
/// Trusted: the version nibble is 4 and the variant bits are `10`. The other
/// 122 bits come from the operating system's random source and nothing is
/// claimed of them; the call aborts if that source cannot be read.
#[verifier::external_body]
fn random_uuid() -> (bits: u128)
    ensures
        bits & LAYOUT_MASK == RANDOM_LAYOUT,
{
    uuid::Uuid::new_v4().as_u128()
}

impl ShapeId {
    /// Whether the identifier has the layout of a randomly drawn one.
    pub open spec fn is_random(self) -> bool {
        self.value & LAYOUT_MASK == RANDOM_LAYOUT
    }

    /// Draws a fresh identity.
    ///
    /// The value is random: two calls are expected, not proved, to differ.
    pub fn new() -> (id: ShapeId)
        ensures
            id.is_random(),
    {
        ShapeId { value: random_uuid() }
    }

    /// The identifier as a number.
    pub fn value(&self) -> (value: u128)
        ensures
            value == self.value,
    {
        self.value
    }
}

} // verus!
