//! The mathematical model of segmentation, and the laws the iterators obey.
//!
//! [`char_slices_seq`] is the canonical segmentation of a valid UTF-8 byte
//! sequence, defined from vstd's UTF-8 theory; both iterator variants promise
//! to yield exactly its elements. [`compact_slices`] and [`expanded_slices`]
//! are the segmentations the two lookup tables drive, defined over arbitrary
//! byte sequences; the lemmas below show that they coincide with each other
//! everywhere and with the canonical segmentation on valid UTF-8 input.

use crate::tables::compact_len;
use crate::tables::expanded_len;
use crate::tables::lemma_compact_len_first_scalar;
use crate::tables::lemma_tables_agree;
use vstd::prelude::*;
use vstd::utf8::decode_utf8;
use vstd::utf8::length_of_first_scalar;
use vstd::utf8::pop_first_scalar;
use vstd::utf8::take_first_scalar;
use vstd::utf8::valid_first_scalar;
use vstd::utf8::valid_utf8;
use vstd::utf8::valid_utf8_concat;

verus! {

/// The sequence of character slices of a valid UTF-8 byte sequence: the bytes
/// of the first scalar, then the slices of what follows.
pub open spec fn char_slices_seq(s: Seq<u8>) -> Seq<Seq<u8>>
    recommends
        valid_utf8(s),
    decreases s.len(),
    when valid_utf8(s)
{
    if s.len() == 0 {
        seq![]
    } else {
        seq![take_first_scalar(s)] + char_slices_seq(pop_first_scalar(s))
    }
}

/// The segmentation the compact table drives: repeatedly split off the prefix
/// whose length the table gives for the first byte. Defined for every byte
/// sequence; where the table yields no positive length that fits in the
/// remaining bytes, the segmentation ends.
pub open spec fn compact_slices(s: Seq<u8>) -> Seq<Seq<u8>>
    decreases s.len(),
{
    if s.len() == 0 {
        seq![]
    } else {
        let n = compact_len(s[0]) as int;
        if 1 <= n <= s.len() {
            seq![s.take(n)] + compact_slices(s.skip(n))
        } else {
            seq![]
        }
    }
}

/// The segmentation the expanded table drives, in the same way.
pub open spec fn expanded_slices(s: Seq<u8>) -> Seq<Seq<u8>>
    decreases s.len(),
{
    if s.len() == 0 {
        seq![]
    } else {
        let n = expanded_len(s[0]) as int;
        if 1 <= n <= s.len() {
            seq![s.take(n)] + expanded_slices(s.skip(n))
        } else {
            seq![]
        }
    }
}

/// Variant equivalence: the compact-table and the expanded-table
/// segmentations agree on every byte sequence, valid UTF-8 or not, because
/// the expanded table is the compact table spread over full byte values.
pub proof fn lemma_variant_equivalence(s: Seq<u8>)
    ensures
        compact_slices(s) == expanded_slices(s),
    decreases s.len(),
{
    if s.len() != 0 {
        lemma_tables_agree(s[0]);
        let n = compact_len(s[0]) as int;
        if 1 <= n <= s.len() {
            lemma_variant_equivalence(s.skip(n));
        }
    }
}

/// On valid UTF-8 input the table-driven segmentation is the canonical one:
/// the table length for a leading byte is the byte length of the first
/// scalar, so the table splits exactly on character boundaries.
pub proof fn lemma_table_drives_segmentation(s: Seq<u8>)
    requires
        valid_utf8(s),
    ensures
        compact_slices(s) == char_slices_seq(s),
    decreases s.len(),
{
    if s.len() != 0 {
        lemma_compact_len_first_scalar(s);
        let n = compact_len(s[0]) as int;
        assert(s.take(n) =~= take_first_scalar(s));
        assert(s.skip(n) =~= pop_first_scalar(s));
        lemma_table_drives_segmentation(pop_first_scalar(s));
    }
}

/// Round-trip: concatenating, in order, all character slices of a valid
/// UTF-8 byte sequence reproduces the sequence exactly.
pub proof fn lemma_round_trip(s: Seq<u8>)
    requires
        valid_utf8(s),
    ensures
        char_slices_seq(s).flatten() == s,
    decreases s.len(),
{
    if s.len() == 0 {
        assert(char_slices_seq(s).flatten() =~= s);
    } else {
        let head = take_first_scalar(s);
        let tail = pop_first_scalar(s);
        lemma_round_trip(tail);
        let cs = char_slices_seq(s);
        assert(cs.drop_first() =~= char_slices_seq(tail));
        assert(cs.flatten() == head + char_slices_seq(tail).flatten());
        assert(head + tail =~= s);
    }
}

/// Count correctness: a valid UTF-8 byte sequence has exactly as many
/// character slices as it has Unicode scalar values.
pub proof fn lemma_count_correct(s: Seq<u8>)
    requires
        valid_utf8(s),
    ensures
        char_slices_seq(s).len() == decode_utf8(s).len(),
    decreases s.len(),
{
    if s.len() != 0 {
        lemma_count_correct(pop_first_scalar(s));
    }
}

/// A valid UTF-8 byte sequence has no more character slices than bytes:
/// every slice takes at least one byte.
pub proof fn lemma_count_le_len(s: Seq<u8>)
    requires
        valid_utf8(s),
    ensures
        char_slices_seq(s).len() <= s.len(),
    decreases s.len(),
{
    if s.len() != 0 {
        lemma_compact_len_first_scalar(s);
        lemma_count_le_len(pop_first_scalar(s));
    }
}

/// The encoding of one character, repeated `k` times.
pub open spec fn repeated(c: Seq<u8>, k: nat) -> Seq<u8>
    decreases k,
{
    if k == 0 {
        Seq::empty()
    } else {
        c + repeated(c, (k - 1) as nat)
    }
}

/// True when the bytes are exactly the UTF-8 encoding of one Unicode scalar.
pub open spec fn single_scalar(c: Seq<u8>) -> bool {
    valid_first_scalar(c) && length_of_first_scalar(c) == c.len()
}

/// Per-class length check: a sequence built by repeating one character's
/// encoding `k` times is valid UTF-8 and segments into exactly `k` slices,
/// each equal to that encoding.
pub proof fn lemma_repeated_char(c: Seq<u8>, k: nat)
    requires
        single_scalar(c),
    ensures
        valid_utf8(repeated(c, k)),
        char_slices_seq(repeated(c, k)) == Seq::new(k, |i: int| c),
    decreases k,
{
    if k == 0 {
        assert(char_slices_seq(repeated(c, 0)) =~= Seq::new(0nat, |i: int| c));
    } else {
        lemma_repeated_char(c, (k - 1) as nat);
        let s = repeated(c, k);
        let rest = repeated(c, (k - 1) as nat);
        lemma_compact_len_first_scalar(c);
        assert(valid_utf8(c)) by {
            assert(pop_first_scalar(c) =~= Seq::<u8>::empty());
            assert(valid_utf8(Seq::<u8>::empty()));
        }
        valid_utf8_concat(c, rest);
        assert(s[0] == c[0]);
        assert(take_first_scalar(s) =~= c);
        assert(pop_first_scalar(s) =~= rest);
        assert(char_slices_seq(s) =~= Seq::new(k, |i: int| c));
    }
}

} // verus!
