//! The mathematical model of the scanner: what "suspicious" means for a byte
//! sequence, given a set of forbidden bytes and the byte carried over from
//! earlier chunks, and how the verdict behaves when a stream is split into
//! chunks.

use vstd::prelude::*;

verus! {

/// The marker byte (ASCII dash, 0x2D).  Two marker bytes in a row make a
/// sequence suspicious; a single one is ordinary data.
pub const MARKER: u8 = 45;

/// The sequence holds at least one forbidden byte.
pub open spec fn has_forbidden(f: Set<u8>, s: Seq<u8>) -> bool {
    exists|i: int| 0 <= i < s.len() && f.contains(s[i])
}

/// Two marker bytes stand next to each other inside `s` itself.
pub open spec fn has_marker_pair_within(s: Seq<u8>) -> bool {
    exists|i: int| #![trigger s[i], s[i + 1]] 0 <= i && i + 1 < s.len() && s[i] == MARKER && s[i + 1] == MARKER
}

/// Two marker bytes stand next to each other, counting the carried byte
/// `prev` as standing immediately before `s`.
pub open spec fn has_marker_pair(prev: Option<u8>, s: Seq<u8>) -> bool {
    (prev == Some(MARKER) && s.len() > 0 && s[0] == MARKER) || has_marker_pair_within(s)
}

/// The verdict on one chunk: suspicious iff it holds a forbidden byte or a
/// marker pair (possibly completed by the carried byte `prev`).
pub open spec fn suspicious(f: Set<u8>, prev: Option<u8>, s: Seq<u8>) -> bool {
    has_forbidden(f, s) || has_marker_pair(prev, s)
}

/// The byte carried forward after scanning `s` with carried byte `prev`:
/// the last byte of `s`, or `prev` unchanged when `s` is empty.
pub open spec fn carry_after(prev: Option<u8>, s: Seq<u8>) -> Option<u8> {
    if s.len() == 0 {
        prev
    } else {
        Some(s.last())
    }
}

/// Some chunk of `chunks`, fed in order to one scanner that starts with
/// carried byte `prev`, is judged suspicious.
pub open spec fn chunked_suspicious(f: Set<u8>, prev: Option<u8>, chunks: Seq<Seq<u8>>) -> bool
    decreases chunks.len(),
{
    if chunks.len() == 0 {
        false
    } else {
        suspicious(f, prev, chunks.first()) || chunked_suspicious(
            f,
            carry_after(prev, chunks.first()),
            chunks.drop_first(),
        )
    }
}

} // verus!
