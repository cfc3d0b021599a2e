//! Laws of the scanner's model: the verdict on a byte stream does not depend
//! on how the stream is cut into chunks, and a reset severs any marker pair
//! that would otherwise straddle the cut.

use vstd::prelude::*;
use crate::model::{
    carry_after, chunked_suspicious, has_forbidden, has_marker_pair, has_marker_pair_within,
    suspicious, MARKER,
};

verus! {

proof fn lemma_forbidden_split(f: Set<u8>, s1: Seq<u8>, s2: Seq<u8>)
    ensures
        has_forbidden(f, s1 + s2) == (has_forbidden(f, s1) || has_forbidden(f, s2)),
{
    let s = s1 + s2;
    if has_forbidden(f, s) {
        let i = choose|i: int| 0 <= i < s.len() && f.contains(s[i]);
        if i < s1.len() {
            assert(s1[i] == s[i]);
        } else {
            assert(s2[i - s1.len()] == s[i]);
        }
    }
    if has_forbidden(f, s1) {
        let i = choose|i: int| 0 <= i < s1.len() && f.contains(s1[i]);
        assert(s[i] == s1[i]);
    }
    if has_forbidden(f, s2) {
        let i = choose|i: int| 0 <= i < s2.len() && f.contains(s2[i]);
        assert(s[s1.len() + i] == s2[i]);
    }
}

proof fn lemma_pair_split(prev: Option<u8>, s1: Seq<u8>, s2: Seq<u8>)
    ensures
        has_marker_pair(prev, s1 + s2) == (has_marker_pair(prev, s1) || has_marker_pair(
            carry_after(prev, s1),
            s2,
        )),
{
    let s = s1 + s2;
    let n1 = s1.len() as int;
    if s1.len() == 0 {
        assert(s =~= s2);
    } else {
        if has_marker_pair(prev, s) {
            if prev == Some(MARKER) && s.len() > 0 && s[0] == MARKER {
                assert(s1[0] == s[0]);
            } else {
                let i = choose|i: int|
                    #![trigger s[i], s[i + 1]]
                    0 <= i && i + 1 < s.len() && s[i] == MARKER && s[i + 1] == MARKER;
                if i + 1 < n1 {
                    assert(s1[i] == s[i] && s1[i + 1] == s[i + 1]);
                    assert(has_marker_pair_within(s1));
                } else if i + 1 == n1 {
                    assert(s1.last() == s1[n1 - 1] == s[i]);
                    assert(s2[0] == s[i + 1]);
                } else {
                    assert(s2[i - n1] == s[i] && s2[i - n1 + 1] == s[i + 1]);
                    assert(has_marker_pair_within(s2));
                }
            }
        }
        if has_marker_pair(prev, s1) {
            if prev == Some(MARKER) && s1[0] == MARKER {
                assert(s[0] == s1[0]);
            } else {
                let i = choose|i: int|
                    #![trigger s1[i], s1[i + 1]]
                    0 <= i && i + 1 < s1.len() && s1[i] == MARKER && s1[i + 1] == MARKER;
                assert(s[i] == s1[i] && s[i + 1] == s1[i + 1]);
                assert(has_marker_pair_within(s));
            }
        }
        if has_marker_pair(carry_after(prev, s1), s2) {
            if carry_after(prev, s1) == Some(MARKER) && s2.len() > 0 && s2[0] == MARKER {
                assert(s[n1 - 1] == s1[n1 - 1] == s1.last());
                assert(s[n1 - 1 + 1] == s2[0]);
                assert(has_marker_pair_within(s));
            } else {
                let i = choose|i: int|
                    #![trigger s2[i], s2[i + 1]]
                    0 <= i && i + 1 < s2.len() && s2[i] == MARKER && s2[i + 1] == MARKER;
                assert(s[n1 + i] == s2[i] && s[n1 + i + 1] == s2[i + 1]);
                assert(has_marker_pair_within(s));
            }
        }
    }
}

/// Carrying composes: scanning `s1` then `s2` leaves the same carried byte as
/// scanning their concatenation in one piece.
pub proof fn lemma_carry_split(prev: Option<u8>, s1: Seq<u8>, s2: Seq<u8>)
    ensures
        carry_after(prev, s1 + s2) == carry_after(carry_after(prev, s1), s2),
{
    let s = s1 + s2;
    if s2.len() == 0 {
        assert(s =~= s1);
    } else {
        assert(s.last() == s2.last());
    }
}

/// The two-chunk law: one scan of a whole byte sequence answers the same as
/// two scans of its halves, where the second scan starts from the carried
/// byte that the first leaves behind.
pub proof fn lemma_scan_split(f: Set<u8>, prev: Option<u8>, s1: Seq<u8>, s2: Seq<u8>)
    ensures
        suspicious(f, prev, s1 + s2) == (suspicious(f, prev, s1) || suspicious(
            f,
            carry_after(prev, s1),
            s2,
        )),
{
    lemma_forbidden_split(f, s1, s2);
    lemma_pair_split(prev, s1, s2);
}

/// Chunk-invariance: feeding the chunks of any splitting of a stream, in
/// order, to one scanner reports suspicious at some chunk exactly when the
/// whole stream, fed as a single chunk, is suspicious.
pub proof fn lemma_chunked_scan(f: Set<u8>, prev: Option<u8>, chunks: Seq<Seq<u8>>)
    ensures
        chunked_suspicious(f, prev, chunks) == suspicious(f, prev, chunks.flatten()),
    decreases chunks.len(),
{
    if chunks.len() == 0 {
        assert(chunks.flatten() =~= Seq::<u8>::empty());
    } else {
        let c0 = chunks.first();
        let rest = chunks.drop_first();
        lemma_chunked_scan(f, carry_after(prev, c0), rest);
        lemma_scan_split(f, prev, c0, rest.flatten());
    }
}

/// A reset severs the boundary: with no carried byte, the verdict depends on
/// the new stream alone — a marker byte seen before the reset cannot pair
/// with a marker byte after it.
pub proof fn lemma_no_carry(f: Set<u8>, s: Seq<u8>)
    ensures
        suspicious(f, Option::<u8>::None, s) == (has_forbidden(f, s) || has_marker_pair_within(s)),
{
}

/// An empty chunk is never suspicious by itself and leaves the carried byte
/// untouched.
pub proof fn lemma_empty_chunk(f: Set<u8>, prev: Option<u8>)
    ensures
        !suspicious(f, prev, Seq::<u8>::empty()),
        carry_after(prev, Seq::<u8>::empty()) == prev,
{
}

} // verus!
