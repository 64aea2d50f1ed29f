//! The base64 payload of a data URI.

use vstd::prelude::*;
use vstd::slice::slice_subrange;

verus! {

/// The number of bytes of the marker.
pub const MARKER_LEN: usize = 7;

/// The bytes of the marker `base64,` that ends the prefix of a data URI.
pub open spec fn marker() -> Seq<u8> {
    seq![0x62u8, 0x61u8, 0x73u8, 0x65u8, 0x36u8, 0x34u8, 0x2cu8]
}

/// The marker stands in `s` at offset `i`.
pub open spec fn marker_at(s: Seq<u8>, i: int) -> bool {
    0 <= i && i + MARKER_LEN <= s.len() && s.subrange(i, i + MARKER_LEN) == marker()
}

/// The marker stands in `s` at offset `i` and at no smaller offset.
pub open spec fn first_marker_at(s: Seq<u8>, i: int) -> bool {
    marker_at(s, i) && forall|j: int| 0 <= j < i ==> !marker_at(s, j)
}

/// What is left of `s` once its data-URI prefix is taken away: where the
/// marker occurs in `s`, everything behind its first occurrence, whatever
/// stands before it; where it does not occur, all of `s`.
pub open spec fn payload(s: Seq<u8>) -> Seq<u8> {
    if exists|i: int| marker_at(s, i) {
        let first = choose|i: int| first_marker_at(s, i);
        s.subrange(first + MARKER_LEN, s.len() as int)
    } else {
        s
    }
}

/// The first occurrence of the marker is the one that `payload` cuts at.
pub proof fn lemma_payload_after_first(s: Seq<u8>, i: int)
    requires
        first_marker_at(s, i),
    ensures
        payload(s) == s.subrange(i + MARKER_LEN, s.len() as int),
{
    let first = choose|k: int| first_marker_at(s, k);
    assert(first_marker_at(s, first));
    assert(first == i) by {
        if first < i {
            assert(!marker_at(s, first));
        }
        if i < first {
            assert(!marker_at(s, i));
        }
    }
}

/// Without any occurrence of the marker, `payload` keeps everything.
pub proof fn lemma_payload_without_marker(s: Seq<u8>)
    requires
        forall|i: int| !marker_at(s, i),
    ensures
        payload(s) == s,
{
}

/// Whether the marker stands in `input` at offset `i`.
fn marker_found_at(input: &[u8], i: usize) -> (found: bool)
    requires
        i + MARKER_LEN <= input@.len(),
    ensures
        found == marker_at(input@, i as int),
{
    let found = input[i] == 0x62 && input[i + 1] == 0x61 && input[i + 2] == 0x73 && input[i + 3]
        == 0x65 && input[i + 4] == 0x36 && input[i + 5] == 0x34 && input[i + 6] == 0x2c;
    proof {
        let part = input@.subrange(i as int, i + MARKER_LEN);
        assert(part.len() == 7);
        assert(part[0] == input@[i as int]);
        assert(part[1] == input@[i + 1]);
        assert(part[2] == input@[i + 2]);
        assert(part[3] == input@[i + 3]);
        assert(part[4] == input@[i + 4]);
        assert(part[5] == input@[i + 5]);
        assert(part[6] == input@[i + 6]);
        if found {
            assert(part =~= marker());
        }
    }
    found
}

/// The offset of the first occurrence of the marker `base64,` in `input`.
pub fn find_marker(input: &[u8]) -> (at: Option<usize>)
    ensures
        match at {
            Some(i) => first_marker_at(input@, i as int),
            None => forall|i: int| !marker_at(input@, i),
        },
{
    let len: usize = input.len();
    if len < MARKER_LEN {
        return None;
    }
    let last: usize = len - MARKER_LEN;
    let mut i: usize = 0;
    while i <= last
        invariant
            len == input@.len(),
            last == len - MARKER_LEN,
            0 <= i <= last + 1,
            forall|j: int| 0 <= j < i ==> !marker_at(input@, j),
        decreases last + 1 - i,
    {
        if marker_found_at(input, i) {
            return Some(i);
        }
        i = i + 1;
    }
    None
}

/// The base64 text of `input`: what stands behind the first `base64,`, or all
/// of `input` where that marker does not occur.
pub fn data_uri_payload(input: &[u8]) -> (rest: &[u8])
    ensures
        rest@ == payload(input@),
{
    let len: usize = input.len();
    match find_marker(input) {
        Some(i) => {
            proof {
                lemma_payload_after_first(input@, i as int);
                assert(marker_at(input@, i as int));
            }
            slice_subrange(input, i + MARKER_LEN, len)
        },
        None => {
            proof {
                lemma_payload_without_marker(input@);
            }
            input
        },
    }
}

} // verus!
