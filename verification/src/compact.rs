//! The segmentation iterator driven by the 16-entry table.

use crate::model::char_slices_seq;
use crate::model::lemma_count_correct;
use crate::model::lemma_count_le_len;
use crate::tables::compact_len;
use crate::tables::compact_lookup;
use crate::tables::lemma_compact_len_first_scalar;
use vstd::prelude::*;
use vstd::seq_lib::lemma_seq_skip_index;
use vstd::seq_lib::lemma_seq_skip_of_skip;
use vstd::slice::slice_subrange;
use vstd::utf8::decode_utf8;
use vstd::utf8::pop_first_scalar;
use vstd::utf8::take_first_scalar;
use vstd::utf8::valid_utf8;

verus! {

/// Iterator over the character slices of a valid UTF-8 byte view. It never
/// copies the input: it keeps a suffix of the input view (the bytes not
/// yet yielded) and narrows that suffix on each step.
pub struct CharSlices<'s> {
    rem: &'s [u8],
}

impl<'s> View for CharSlices<'s> {
    type V = Seq<u8>;

    /// The view of the iterator is its remaining, not yet yielded, bytes.
    closed spec fn view(&self) -> Seq<u8> {
        self.rem@
    }
}

impl<'s> CharSlices<'s> {
    /// Wrap a borrowed byte view. Constant time; performs no validation.
    /// The caller guarantees the bytes are valid UTF-8; that promise is the
    /// `requires` of [`Self::next`], [`Self::slices`] and [`Self::count`].
    pub fn new(input: &'s [u8]) -> (it: Self)
        ensures
            it@ == input@,
    {
        CharSlices { rem: input }
    }

    /// The bytes not yet yielded: always a suffix of the input view,
    /// starting on a character boundary.
    pub fn remaining(&self) -> (r: &'s [u8])
        ensures
            r@ == self@,
    {
        self.rem
    }

    /// Yield the next character slice, or signal exhaustion.
    ///
    /// On an empty view it returns `None` and changes nothing, so exhaustion
    /// is idempotent. Otherwise it returns the bytes of the first scalar —
    /// the prefix whose length the compact table gives for the leading
    /// byte — and keeps the rest, which is again valid UTF-8.
    pub fn next(&mut self) -> (r: Option<&'s [u8]>)
        requires
            valid_utf8(old(self)@),
        ensures
            valid_utf8(final(self)@),
            old(self)@.len() == 0 ==> r is None && final(self)@ == old(self)@,
            old(self)@.len() != 0 ==> (r matches Some(ch) && {
                &&& ch@ == take_first_scalar(old(self)@)
                &&& ch@.len() == compact_len(old(self)@[0]) as int
                &&& final(self)@ == pop_first_scalar(old(self)@)
                &&& old(self)@ == ch@ + final(self)@
                &&& final(self)@.len() < old(self)@.len()
            }),
    {
        if self.rem.len() == 0 {
            None
        } else {
            let rem = self.rem;
            let b = rem[0];
            let n = compact_lookup(b) as usize;
            proof {
                lemma_compact_len_first_scalar(rem@);
            }
            let ch = slice_subrange(rem, 0, n);
            self.rem = slice_subrange(rem, n, rem.len());
            proof {
                assert(rem@ =~= ch@ + self.rem@);
            }
            Some(ch)
        }
    }

    /// Drive the iterator to exhaustion and collect every yielded slice, in
    /// order: exactly the character slices of the view.
    pub fn slices(self) -> (out: Vec<&'s [u8]>)
        requires
            valid_utf8(self@),
        ensures
            out@.len() == char_slices_seq(self@).len(),
            forall|i: int| 0 <= i < out@.len() ==> out@[i]@ == char_slices_seq(self@)[i],
    {
        let ghost s0 = self@;
        let mut it = self;
        let mut out: Vec<&'s [u8]> = Vec::new();
        while it.rem.len() != 0
            invariant
                valid_utf8(s0),
                valid_utf8(it@),
                char_slices_seq(it@) == char_slices_seq(s0).skip(out@.len() as int),
                out@.len() <= char_slices_seq(s0).len(),
                forall|i: int| 0 <= i < out@.len() ==> out@[i]@ == char_slices_seq(s0)[i],
            decreases it@.len(),
        {
            let ghost before = it@;
            let ghost k = out@.len() as int;
            let ch = it.next();
            proof {
                let head = take_first_scalar(before);
                assert(char_slices_seq(before) == seq![head] + char_slices_seq(it@));
                lemma_seq_skip_index(char_slices_seq(s0), k, 0);
                assert((seq![head] + char_slices_seq(it@))[0] == head);
                lemma_seq_skip_of_skip(char_slices_seq(s0), k, 1);
                assert((seq![head] + char_slices_seq(it@)).skip(1) =~= char_slices_seq(it@));
                assert(char_slices_seq(it@) =~= char_slices_seq(s0).skip(k + 1));
            }
            match ch {
                Some(ch) => out.push(ch),
                None => (),
            }
        }
        out
    }

    /// Drive the iterator to exhaustion and return how many slices it
    /// yielded: the number of Unicode scalar values in the view.
    pub fn count(self) -> (n: usize)
        requires
            valid_utf8(self@),
        ensures
            n == char_slices_seq(self@).len(),
            n == decode_utf8(self@).len(),
    {
        let ghost s0 = self@;
        proof {
            lemma_count_le_len(s0);
            lemma_count_correct(s0);
        }
        let mut it = self;
        let len0 = it.rem.len();
        proof {
            assert(s0.len() == len0);
        }
        let mut n: usize = 0;
        while it.rem.len() != 0
            invariant
                valid_utf8(it@),
                char_slices_seq(s0).len() == n + char_slices_seq(it@).len(),
                char_slices_seq(s0).len() <= s0.len() <= usize::MAX,
            decreases it@.len(),
        {
            let ghost before = it@;
            let _ = it.next();
            proof {
                assert(char_slices_seq(before) == seq![take_first_scalar(before)]
                    + char_slices_seq(it@));
            }
            n = n + 1;
        }
        n
    }
}

/// Entry point in the style of an extension method: any byte view offers
/// its compact-table segmentation iterator.
pub trait CharSlicesStrExt: View<V = Seq<u8>> {
    /// Wrap the view in a [`CharSlices`] iterator over its bytes.
    fn char_slices<'s>(&'s self) -> (it: CharSlices<'s>)
        ensures
            it@ == self@,
    ;
}

impl CharSlicesStrExt for [u8] {
    fn char_slices<'s>(&'s self) -> (it: CharSlices<'s>) {
        CharSlices::new(self)
    }
}

} // verus!
