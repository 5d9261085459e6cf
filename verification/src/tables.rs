//! The character byte-length lookup tables.
//!
//! A UTF-8 leading byte announces in its high bits how many bytes the
//! character occupies. The compact table has one entry per high nibble;
//! the expanded table has one entry per byte value and is derived from the
//! compact one, trading 240 bytes of memory for the nibble shift.

use vstd::prelude::*;
use vstd::utf8::is_leading_byte_width_1;
use vstd::utf8::is_leading_byte_width_2;
use vstd::utf8::is_leading_byte_width_3;
use vstd::utf8::is_leading_byte_width_4;
use vstd::utf8::length_of_first_scalar;
use vstd::utf8::valid_first_scalar;

verus! {

/// The 16-entry length table, indexed by the high nibble of a leading byte:
/// nibbles 0x0-0x7 start a 1-byte character, 0x8-0xB are continuation bytes
/// (no character starts there, recorded as length 0), 0xC-0xD start a 2-byte
/// character, 0xE a 3-byte one, and 0xF a 4-byte one.
pub open spec fn compact_table() -> Seq<u8> {
    seq![1u8, 1u8, 1u8, 1u8, 1u8, 1u8, 1u8, 1u8, 0u8, 0u8, 0u8, 0u8, 2u8, 2u8, 3u8, 4u8]
}

/// The 256-entry table, derived mechanically from the compact one: the entry
/// for a byte value is the compact entry for that value's high nibble.
pub open spec fn expanded_table() -> Seq<u8> {
    Seq::new(256, |i: int| compact_table()[i / 16])
}

/// Character byte length the compact table assigns to a leading byte.
pub open spec fn compact_len(b: u8) -> u8 {
    compact_table()[(b >> 4) as int]
}

/// Character byte length the expanded table assigns to a leading byte.
pub open spec fn expanded_len(b: u8) -> u8 {
    expanded_table()[b as int]
}

/// The two tables agree on every byte value: expanding the table changes the
/// indexing strategy, never the length that comes out.
pub proof fn lemma_tables_agree(b: u8)
    ensures
        expanded_len(b) == compact_len(b),
{
    assert(b >> 4 == b / 16) by (bit_vector);
}

/// On a byte sequence that starts with a well-formed scalar encoding, the
/// table length for the leading byte is exactly the byte length of that
/// scalar, and that many bytes are present.
pub proof fn lemma_compact_len_first_scalar(s: Seq<u8>)
    requires
        valid_first_scalar(s),
    ensures
        compact_len(s[0]) as int == length_of_first_scalar(s),
        1 <= length_of_first_scalar(s) <= s.len(),
{
    let b = s[0];
    if is_leading_byte_width_1(b) {
        assert(b >> 4 < 8) by (bit_vector)
            requires
                b <= 0x7f,
        ;
    } else if is_leading_byte_width_2(b) {
        assert(b >> 4 == 12 || b >> 4 == 13) by (bit_vector)
            requires
                0xc0 <= b <= 0xdf,
        ;
    } else if is_leading_byte_width_3(b) {
        assert(b >> 4 == 14) by (bit_vector)
            requires
                0xe0 <= b <= 0xef,
        ;
    } else {
        assert(b >> 4 == 15) by (bit_vector)
            requires
                0xf0 <= b <= 0xf7,
        ;
    }
}

/// Look a leading byte up in the 16-entry table, indexed by its high nibble.
pub fn compact_lookup(b: u8) -> (n: u8)
    ensures
        n == compact_len(b),
{
    let lut: [u8; 16] = [1, 1, 1, 1, 1, 1, 1, 1, 0, 0, 0, 0, 2, 2, 3, 4];
    proof {
        assert(b >> 4 < 16) by (bit_vector);
        assert(lut@ =~= compact_table());
    }
    lut[(b >> 4) as usize]
}

/// Build the expanded 256-entry table from the compact one: entry `i` is the
/// compact entry for the high nibble of `i`.
pub fn build_expanded_table() -> (t: Vec<u8>)
    ensures
        t@ == expanded_table(),
{
    let lut: [u8; 16] = [1, 1, 1, 1, 1, 1, 1, 1, 0, 0, 0, 0, 2, 2, 3, 4];
    proof {
        assert(lut@ =~= compact_table());
    }
    let mut t: Vec<u8> = Vec::new();
    let mut i: usize = 0;
    while i < 256
        invariant
            i <= 256,
            t@.len() == i,
            lut@ == compact_table(),
            forall|j: int| 0 <= j < i ==> t@[j] == expanded_table()[j],
        decreases 256 - i,
    {
        t.push(lut[i / 16]);
        i = i + 1;
    }
    proof {
        assert(t@ =~= expanded_table());
    }
    t
}

} // verus!
