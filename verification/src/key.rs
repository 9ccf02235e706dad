//! Order keys: the integers that real quantities enter this library as.
//!
//! A program holds its reals as IEEE 754 doubles. The bit pattern of a
//! double is a sign bit followed by 63 bits of magnitude, and of two doubles
//! that are numbers the one with the larger magnitude bits is the one
//! farther from zero. So the magnitude bits, taken as an integer and negated
//! where the sign bit is set, order the numbers as the numbers themselves
//! are ordered: that integer is the key. Both zeros have the key zero, and
//! a pattern that stands for no number has no key.

use vstd::prelude::*;

verus! {

/// The sign bit of a pattern.
pub const SIGN: u64 = 0x8000_0000_0000_0000u64;

/// The magnitude bits of infinity. Larger magnitudes stand for no number.
pub const INFINITE: u64 = 0x7FF0_0000_0000_0000u64;

/// The magnitude bits of a pattern.
pub open spec fn magnitude(bits: u64) -> u64 {
    if bits >= SIGN {
        (bits - SIGN) as u64
    } else {
        bits
    }
}

/// Whether a pattern stands for a number, infinities included.
pub open spec fn is_number(bits: u64) -> bool {
    magnitude(bits) <= INFINITE
}

/// The key of a pattern: its magnitude, negated under a sign bit.
pub open spec fn key_of(bits: u64) -> int {
    if bits >= SIGN {
        -(magnitude(bits) as int)
    } else {
        magnitude(bits) as int
    }
}

/// Whether an integer is the key of a number.
pub open spec fn is_key(key: i64) -> bool {
    -(INFINITE as int) <= key <= INFINITE as int
}

/// The pattern of the number with the given key; of zero, the positive one.
pub open spec fn bits_of(key: i64) -> u64 {
    if key >= 0 {
        key as u64
    } else {
        (SIGN + (-(key as int))) as u64
    }
}

/// The key of the number with the given bit pattern, or `None` for a
/// pattern that stands for no number.
pub fn from_bits(bits: u64) -> (key: Option<i64>)
    ensures
        key == if is_number(bits) {
            Some(key_of(bits) as i64)
        } else {
            None::<i64>
        },
        key matches Some(k) ==> is_key(k),
{
    if bits >= SIGN {
        let magnitude: u64 = bits - SIGN;
        if magnitude <= INFINITE {
            Some(-(magnitude as i64))
        } else {
            None
        }
    } else if bits <= INFINITE {
        Some(bits as i64)
    } else {
        None
    }
}

/// The bit pattern of the number with the given key, or `None` for an
/// integer that is the key of no number.
pub fn to_bits(key: i64) -> (bits: Option<u64>)
    ensures
        bits == if is_key(key) {
            Some(bits_of(key))
        } else {
            None::<u64>
        },
{
    if key >= 0 {
        if key as u64 <= INFINITE {
            Some(key as u64)
        } else {
            None
        }
    } else if key >= -0x7FF0_0000_0000_0000i64 {
        let magnitude: u64 = (-key) as u64;
        Some(SIGN + magnitude)
    } else {
        None
    }
}

/// Whether a number is nearer to zero than a tolerance: the comparison that
/// stands in for a test against zero wherever rounding may have left a
/// number just beside it.
pub fn near_zero(x: i64, epsilon: i64) -> (near: bool)
    ensures
        near == (-(epsilon as int) < x < epsilon),
{
    if epsilon <= 0 {
        // nothing is nearer to zero than zero, or than a negative tolerance
        false
    } else {
        -epsilon < x && x < epsilon
    }
}

/// A key leads back to the number it came from: to the same pattern, but
/// for the negative zero, which shares its key with the positive one.
pub proof fn lemma_key_round_trip(bits: u64)
    requires
        is_number(bits),
    ensures
        is_key(key_of(bits) as i64),
        bits_of(key_of(bits) as i64) == if bits == SIGN {
            0u64
        } else {
            bits
        },
{
}

/// A pattern leads back to the key it came from.
pub proof fn lemma_bits_round_trip(key: i64)
    requires
        is_key(key),
    ensures
        is_number(bits_of(key)),
        key_of(bits_of(key)) == key,
{
}

/// Keys are ordered by sign first and magnitude second: a key is positive
/// exactly for a positive number, negative exactly for a negative one, and
/// among numbers of one sign the key farther from zero belongs to the
/// larger magnitude.
pub proof fn lemma_key_order(a: u64, b: u64)
    requires
        is_number(a),
        is_number(b),
    ensures
        key_of(a) > 0 <==> a < SIGN && magnitude(a) > 0,
        key_of(a) < 0 <==> a >= SIGN && magnitude(a) > 0,
        key_of(a) == key_of(b) <==> a == b || (magnitude(a) == 0 && magnitude(b) == 0),
        a < SIGN && b < SIGN ==> (key_of(a) < key_of(b) <==> magnitude(a) < magnitude(b)),
        a >= SIGN && b >= SIGN ==> (key_of(a) < key_of(b) <==> magnitude(a) > magnitude(b)),
        a >= SIGN && b < SIGN ==> key_of(a) <= key_of(b),
{
}

} // verus!
