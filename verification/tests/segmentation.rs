use char_slices::CharSlices;
use char_slices::CharSlicesLarge;
use char_slices::CharSlicesLargeStrExt;
use char_slices::CharSlicesStrExt;

fn compact_slices_of(s: &str) -> Vec<&[u8]> {
    let mut out: Vec<&[u8]> = Vec::new();
    let mut it = s.as_bytes().char_slices();
    while let Some(ch) = it.next() {
        out.push(ch);
    }
    out
}

fn large_slices_of(s: &str) -> Vec<&[u8]> {
    let mut out: Vec<&[u8]> = Vec::new();
    let mut it = s.as_bytes().char_slices_large();
    while let Some(ch) = it.next() {
        out.push(ch);
    }
    out
}

const SAMPLES: [&str; 8] = [
    "",
    "a",
    "hello, world",
    "a\u{c3}\u{e04}\u{121a3}",
    "\u{e04}\u{e04}x\u{c3}",
    "na\u{ef}ve caf\u{e9}",
    "\u{1f600}\u{1f680}",
    "mixed \u{410}\u{411} text \u{4e2d}\u{6587} here",
];

#[test]
fn empty_input_signals_end() {
    let empty: &[u8] = &[];
    let mut it = CharSlices::new(empty);
    assert_eq!(it.next(), None);
    let mut it_large = CharSlicesLarge::new(empty);
    assert_eq!(it_large.next(), None);
}

#[test]
fn empty_input_counts_zero() {
    let s = "";
    assert_eq!(s.as_bytes().char_slices().count(), 0);
    assert_eq!(s.as_bytes().char_slices_large().count(), 0);
}

#[test]
fn exhaustion_is_idempotent() {
    let s = "ab\u{e04}";
    let mut it = s.as_bytes().char_slices();
    while it.next().is_some() {}
    assert_eq!(it.next(), None);
    assert_eq!(it.next(), None);
    assert_eq!(it.remaining(), &[] as &[u8]);

    let mut it_large = s.as_bytes().char_slices_large();
    while it_large.next().is_some() {}
    assert_eq!(it_large.next(), None);
    assert_eq!(it_large.next(), None);
    assert_eq!(it_large.remaining(), &[] as &[u8]);
}

#[test]
fn mixed_input_yields_lengths_one_to_four() {
    let s = "a\u{c3}\u{e04}\u{121a3}";
    for slices in [compact_slices_of(s), large_slices_of(s)] {
        assert_eq!(slices.len(), 4);
        let lengths: Vec<usize> = slices.iter().map(|ch| ch.len()).collect();
        assert_eq!(lengths, vec![1, 2, 3, 4]);
        assert_eq!(slices[0], "a".as_bytes());
        assert_eq!(slices[1], "\u{c3}".as_bytes());
        assert_eq!(slices[2], "\u{e04}".as_bytes());
        assert_eq!(slices[3], "\u{121a3}".as_bytes());
    }
}

#[test]
fn ascii_repeated_yields_unit_slices() {
    let s = "a".repeat(1024);
    for slices in [compact_slices_of(&s), large_slices_of(&s)] {
        assert_eq!(slices.len(), 1024);
        for ch in slices {
            assert_eq!(ch, "a".as_bytes());
            assert_eq!(ch.len(), 1);
        }
    }
}

#[test]
fn two_byte_repeated_yields_pair_slices() {
    let s = "\u{c3}".repeat(1024);
    for slices in [compact_slices_of(&s), large_slices_of(&s)] {
        assert_eq!(slices.len(), 1024);
        for ch in slices {
            assert_eq!(ch, "\u{c3}".as_bytes());
            assert_eq!(ch.len(), 2);
        }
    }
}

#[test]
fn three_byte_repeated_yields_triple_slices() {
    let s = "\u{e04}".repeat(1024);
    for slices in [compact_slices_of(&s), large_slices_of(&s)] {
        assert_eq!(slices.len(), 1024);
        for ch in slices {
            assert_eq!(ch, "\u{e04}".as_bytes());
            assert_eq!(ch.len(), 3);
        }
    }
}

#[test]
fn four_byte_repeated_yields_quad_slices() {
    let s = "\u{121a3}".repeat(1024);
    for slices in [compact_slices_of(&s), large_slices_of(&s)] {
        assert_eq!(slices.len(), 1024);
        for ch in slices {
            assert_eq!(ch, "\u{121a3}".as_bytes());
            assert_eq!(ch.len(), 4);
        }
    }
}

#[test]
fn concatenated_slices_round_trip() {
    for s in SAMPLES {
        for slices in [compact_slices_of(s), large_slices_of(s)] {
            let mut rebuilt: Vec<u8> = Vec::new();
            for ch in slices {
                rebuilt.extend_from_slice(ch);
            }
            assert_eq!(rebuilt, s.as_bytes());
        }
    }
}

#[test]
fn count_equals_number_of_chars() {
    for s in SAMPLES {
        let expected = s.chars().count();
        assert_eq!(s.as_bytes().char_slices().count(), expected);
        assert_eq!(s.as_bytes().char_slices_large().count(), expected);
    }
}

#[test]
fn slices_collects_the_yielded_sequence() {
    for s in SAMPLES {
        assert_eq!(s.as_bytes().char_slices().slices(), compact_slices_of(s));
        assert_eq!(s.as_bytes().char_slices_large().slices(), large_slices_of(s));
    }
}

#[test]
fn variants_yield_identical_sequences() {
    for s in SAMPLES {
        assert_eq!(compact_slices_of(s), large_slices_of(s));
    }
}

#[test]
fn slices_match_chars_of_input() {
    for s in SAMPLES {
        let slices = compact_slices_of(s);
        let chars: Vec<char> = s.chars().collect();
        assert_eq!(slices.len(), chars.len());
        for (ch, c) in slices.iter().zip(chars.iter()) {
            assert_eq!(std::str::from_utf8(ch).unwrap().chars().next().unwrap(), *c);
        }
    }
}

#[test]
fn remaining_is_the_unconsumed_suffix() {
    let s = "a\u{c3}\u{e04}\u{121a3}";
    let bytes = s.as_bytes();
    let mut it = CharSlices::new(bytes);
    let mut consumed = 0;
    assert_eq!(it.remaining(), bytes);
    while let Some(ch) = it.next() {
        consumed += ch.len();
        assert_eq!(it.remaining(), &bytes[consumed..]);
    }
    assert_eq!(consumed, bytes.len());

    let mut it_large = CharSlicesLarge::new(bytes);
    let mut consumed_large = 0;
    assert_eq!(it_large.remaining(), bytes);
    while let Some(ch) = it_large.next() {
        consumed_large += ch.len();
        assert_eq!(it_large.remaining(), &bytes[consumed_large..]);
    }
    assert_eq!(consumed_large, bytes.len());
}

#[test]
fn slices_borrow_from_the_input() {
    let s = "ab\u{e9}";
    let bytes = s.as_bytes();
    let slices = compact_slices_of(s);
    let start = bytes.as_ptr() as usize;
    let mut offset = 0;
    for ch in slices {
        assert_eq!(ch.as_ptr() as usize, start + offset);
        offset += ch.len();
    }
}
