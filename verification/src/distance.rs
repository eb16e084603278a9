use vstd::prelude::*;

verus! {

/// The sign bit in the bit pattern of a 64-bit IEEE 754 number.
pub const SIGN_BIT: u64 = 0x8000_0000_0000_0000;

/// The bit pattern of positive infinity. A pattern whose magnitude lies above
/// it stands for no number.
pub const INFINITY_BITS: u64 = 0x7ff0_0000_0000_0000;

/// The bit pattern without its sign bit.
pub open spec fn magnitude(bits: u64) -> int {
    if bits >= SIGN_BIT {
        bits - SIGN_BIT
    } else {
        bits as int
    }
}

/// Whether the bit pattern stands for a number, finite or infinite.
pub open spec fn is_number(bits: u64) -> bool {
    magnitude(bits) <= INFINITY_BITS
}

/// The key of a bit pattern: its magnitude, negated when the sign bit is
/// set. IEEE 754 numbers are ordered as their keys are: a smaller number has
/// a smaller key, both zeros have the key zero, and negative numbers have
/// negative keys.
pub open spec fn ordered(bits: u64) -> int {
    if bits >= SIGN_BIT {
        -magnitude(bits)
    } else {
        magnitude(bits)
    }
}

/// The key by which a distance is compared, from the bit pattern of the
/// distance; nothing when the pattern stands for no number.
pub fn distance_key(bits: u64) -> (key: Option<i64>)
    ensures
        key is Some <==> is_number(bits),
        key matches Some(k) ==> k == ordered(bits),
{
    if bits >= SIGN_BIT {
        let magnitude: u64 = bits - SIGN_BIT;
        if magnitude > INFINITY_BITS {
            None
        } else {
            Some(-(magnitude as i64))
        }
    } else if bits > INFINITY_BITS {
        None
    } else {
        Some(bits as i64)
    }
}

/// The bit pattern of the distance with the given key; nothing when no
/// number has that key. The pattern of zero is that of positive zero.
pub fn distance_bits(key: i64) -> (bits: Option<u64>)
    ensures
        bits is Some <==> -INFINITY_BITS <= key <= INFINITY_BITS,
        bits matches Some(b) ==> is_number(b) && ordered(b) == key && b != SIGN_BIT,
{
    if key >= 0 {
        if key as u64 > INFINITY_BITS {
            None
        } else {
            Some(key as u64)
        }
    } else if key < -0x7ff0_0000_0000_0000i64 {
        None
    } else {
        Some((-key) as u64 + SIGN_BIT)
    }
}

/// Keys order bit patterns as IEEE 754 orders numbers: among patterns
/// without the sign bit the greater pattern has the greater key, among
/// patterns with it the smaller key, and a pattern with the sign bit never
/// has a greater key than one without.
pub proof fn lemma_keys_order_by_sign_and_magnitude(a: u64, b: u64)
    ensures
        a < SIGN_BIT && b < SIGN_BIT ==> (ordered(a) < ordered(b) <==> a < b),
        a >= SIGN_BIT && b >= SIGN_BIT ==> (ordered(a) < ordered(b) <==> a > b),
        a >= SIGN_BIT && b < SIGN_BIT ==> ordered(a) <= ordered(b),
        ordered(a) < 0 <==> a > SIGN_BIT,
{
}

/// Two numbers with the same key are the same number, but for the sign of
/// zero.
pub proof fn lemma_key_names_one_number(a: u64, b: u64)
    requires
        ordered(a) == ordered(b),
    ensures
        a == b || (magnitude(a) == 0 && magnitude(b) == 0),
{
}

} // verus!
