//! Unsigned integers as bytes give them, digit by digit to the base 256.

use vstd::prelude::*;

use crate::endian::{
    lemma_u16_round_trip, lemma_u32_round_trip, lemma_u64_round_trip, u16_at, u16_bytes, u32_at,
    u32_bytes, u64_at, u64_bytes, Endianness,
};

verus! {

broadcast use crate::endian::group_widths;

/// The integer whose digits are the `n` bytes from `p`, the first byte being the lowest digit or
/// the highest.
pub open spec fn number_of(s: Seq<u8>, p: int, n: nat, lowest_first: bool) -> int
    decreases n,
{
    if n == 0 {
        0
    } else if lowest_first {
        s[p] + 256 * number_of(s, p + 1, (n - 1) as nat, lowest_first)
    } else {
        256 * number_of(s, p, (n - 1) as nat, lowest_first) + s[p + n - 1]
    }
}

/// Integers are read with the lowest digit first in the one byte order, and last in the other.
pub proof fn law_integers_are_read(e: Endianness, s: Seq<u8>, p: int)
    ensures
        u16_at(e, s, p) == number_of(s, p, 2, e == Endianness::Little),
        u32_at(e, s, p) == number_of(s, p, 4, e == Endianness::Little),
        u64_at(e, s, p) == number_of(s, p, 8, e == Endianness::Little),
{
    reveal_with_fuel(number_of, 9);
    reveal(u16_at);
    reveal(u32_at);
    reveal(u64_at);
}

/// The bytes that an integer is stored as are as many as its width, and give the integer.
pub proof fn law_integers_are_stored(e: Endianness, v: int)
    requires
        0 <= v,
    ensures
        u16_bytes(e, v).len() == 2,
        v < 0x1_0000 ==> number_of(u16_bytes(e, v), 0, 2, e == Endianness::Little) == v,
        u32_bytes(e, v).len() == 4,
        v < 0x1_0000_0000 ==> number_of(u32_bytes(e, v), 0, 4, e == Endianness::Little) == v,
        u64_bytes(e, v).len() == 8,
        v < 0x1_0000_0000_0000_0000 ==> number_of(u64_bytes(e, v), 0, 8, e == Endianness::Little)
            == v,
{
    if v < 0x1_0000 {
        let b = u16_bytes(e, v);
        assert(b.subrange(0, 2) =~= b);
        lemma_u16_round_trip(e, b, 0, v);
        law_integers_are_read(e, b, 0);
    }
    if v < 0x1_0000_0000 {
        let b = u32_bytes(e, v);
        assert(b.subrange(0, 4) =~= b);
        lemma_u32_round_trip(e, b, 0, v);
        law_integers_are_read(e, b, 0);
    }
    if v < 0x1_0000_0000_0000_0000 {
        let b = u64_bytes(e, v);
        assert(b.subrange(0, 8) =~= b);
        lemma_u64_round_trip(e, b, 0, v);
        law_integers_are_read(e, b, 0);
    }
}

} // verus!
