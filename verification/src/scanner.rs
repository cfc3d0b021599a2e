//! The stream scanner: a `ForbiddenSet` plus one byte of carried-over state,
//! judging byte chunks as they arrive and catching marker pairs that straddle
//! chunk boundaries.

use vstd::prelude::*;
use crate::forbidden::ForbiddenSet;
use crate::model::{carry_after, has_forbidden, has_marker_pair_within, suspicious, MARKER};

verus! {

/// A scanner over a stream of byte chunks.  It owns an immutable
/// [`ForbiddenSet`] and one mutable cursor: the last byte observed across all
/// `scan` calls since construction or the last `reset`, or nothing when no
/// byte has been observed yet.
pub struct Scanner {
    set: ForbiddenSet,
    last: Option<u8>,
}

impl Scanner {
    /// The scanner's membership table is well formed.
    pub closed spec fn wf(self) -> bool {
        self.set.wf()
    }

    /// The configured set of forbidden bytes.
    pub closed spec fn forbidden(self) -> Set<u8> {
        self.set@
    }

    /// The carried cursor: the last byte observed, if any.
    pub closed spec fn carry(self) -> Option<u8> {
        self.last
    }

    /// Wraps a forbidden-byte set; no byte has been observed yet.
    pub fn new(set: ForbiddenSet) -> (r: Scanner)
        requires
            set.wf(),
        ensures
            r.wf(),
            r.forbidden() == set@,
            r.carry() is None,
    {
        Scanner { set, last: None }
    }

    /// Single-byte membership query, a pass-through to the set's `contains`.
    /// It reads only the immutable set, so its answer for a given byte never
    /// changes, however many `scan` or `reset` calls come between.
    pub fn is_forbidden(&self, b: u8) -> (r: bool)
        requires
            self.wf(),
        ensures
            r == self.forbidden().contains(b),
    {
        self.set.contains(b)
    }

    /// Forgets the carried byte, so that a fresh, unrelated stream can be
    /// scanned with the same scanner.  The forbidden-byte set is untouched.
    pub fn reset(&mut self)
        requires
            old(self).wf(),
        ensures
            final(self).wf(),
            final(self).forbidden() == old(self).forbidden(),
            final(self).carry() is None,
    {
        self.last = None;
    }

    /// Scans one chunk in order and reports whether the stream has become
    /// suspicious: the chunk holds a forbidden byte, or two marker bytes
    /// stand adjacent, counting the carried byte as standing just before the
    /// chunk.  The call returns at the first byte that decides the verdict.
    ///
    /// On a `false` verdict the cursor has moved to the chunk's last byte (an
    /// empty chunk leaves it untouched), so a later call still sees a marker
    /// pair that spans the boundary.  After a `true` verdict the cursor is
    /// unspecified: a caller must `reset` before reusing the scanner.
    pub fn scan(&mut self, bytes: &[u8]) -> (sus: bool)
        requires
            old(self).wf(),
        ensures
            final(self).wf(),
            final(self).forbidden() == old(self).forbidden(),
            sus == suspicious(old(self).forbidden(), old(self).carry(), bytes@),
            !sus ==> final(self).carry() == carry_after(old(self).carry(), bytes@),
    {
        let ghost f0 = self.set@;
        let ghost prev0 = self.last;
        let mut i: usize = 0;
        while i < bytes.len()
            invariant
                i <= bytes.len(),
                f0 == old(self).forbidden(),
                prev0 == old(self).carry(),
                self.set.wf(),
                self.set@ == f0,
                !suspicious(f0, prev0, bytes@.take(i as int)),
                self.last == carry_after(prev0, bytes@.take(i as int)),
            decreases bytes.len() - i,
        {
            let b = bytes[i];
            if self.set.contains(b) {
                proof {
                    assert(f0.contains(bytes@[i as int]));
                }
                return true;
            }
            let marker_pair = match self.last {
                Some(p) => b == MARKER && p == MARKER,
                None => false,
            };
            if marker_pair {
                proof {
                    if i == 0 {
                        assert(prev0 == Some(MARKER) && bytes@[0] == MARKER);
                    } else {
                        let j = i - 1 as int;
                        assert(bytes@.take(i as int).last() == bytes@[j]);
                        assert(bytes@[j] == MARKER);
                        assert(bytes@[j + 1] == MARKER);
                        assert(has_marker_pair_within(bytes@));
                    }
                }
                return true;
            }
            proof {
                let pre = bytes@.take(i as int);
                let post = bytes@.take(i + 1);
                assert(post =~= pre.push(bytes@[i as int]));
                assert(!has_forbidden(f0, post)) by {
                    if has_forbidden(f0, post) {
                        let j = choose|j: int| 0 <= j < post.len() && f0.contains(post[j]);
                        if j < i {
                            assert(pre[j] == post[j]);
                        } else {
                            assert(post[j] == bytes@[i as int]);
                        }
                    }
                }
                assert(!has_marker_pair_within(post)) by {
                    if has_marker_pair_within(post) {
                        let j = choose|j: int|
                            #![trigger post[j], post[j + 1]]
                            0 <= j && j + 1 < post.len() && post[j] == MARKER && post[j + 1]
                                == MARKER;
                        if j + 1 < i {
                            assert(pre[j] == post[j] && pre[j + 1] == post[j + 1]);
                        } else {
                            assert(post[j + 1] == bytes@[i as int]);
                            if i > 0 {
                                assert(pre.last() == pre[i - 1] == post[j]);
                            }
                        }
                    }
                }
            }
            self.last = Some(b);
            i = i + 1;
        }
        proof {
            assert(bytes@.take(bytes@.len() as int) =~= bytes@);
        }
        false
    }
}

} // verus!
