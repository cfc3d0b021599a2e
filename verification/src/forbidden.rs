//! A fixed-size membership table over the full byte range: which byte values
//! the caller has configured as forbidden.

use vstd::prelude::*;

verus! {

/// A membership table with one entry for every byte value 0..=255, built once
/// from a list of byte values and immutable afterwards.
pub struct ForbiddenSet {
    table: Vec<bool>,
}

impl View for ForbiddenSet {
    type V = Set<u8>;

    /// The set of byte values marked as forbidden.
    closed spec fn view(&self) -> Set<u8> {
        Set::new(|b: u8| self.table[b as int])
    }
}

impl ForbiddenSet {
    /// The table covers the whole byte range, exactly.
    pub closed spec fn wf(self) -> bool {
        self.table.len() == 256
    }

    /// Builds the table from a list of byte values; duplicates are harmless,
    /// and an empty list yields a set that matches nothing.
    pub fn build(bytes: &[u8]) -> (r: ForbiddenSet)
        ensures
            r.wf(),
            forall|b: u8| r@.contains(b) <==> bytes@.contains(b),
    {
        let mut table: Vec<bool> = Vec::new();
        let mut k: usize = 0;
        while k < 256
            invariant
                k <= 256,
                table.len() == k,
                forall|j: int| 0 <= j < k ==> !table[j],
            decreases 256 - k,
        {
            table.push(false);
            k = k + 1;
        }
        let mut i: usize = 0;
        while i < bytes.len()
            invariant
                i <= bytes.len(),
                table.len() == 256,
                forall|b: u8| #[trigger] table[b as int] <==> bytes@.take(i as int).contains(b),
            decreases bytes.len() - i,
        {
            let b = bytes[i];
            table.set(b as usize, true);
            proof {
                assert(bytes@.take(i + 1) =~= bytes@.take(i as int).push(bytes@[i as int]));
                assert forall|x: u8| #[trigger] table[x as int] <==> bytes@.take(i + 1).contains(x) by {
                    broadcast use vstd::seq_lib::lemma_seq_contains_after_push;

                }
            }
            i = i + 1;
        }
        proof {
            assert(bytes@.take(bytes@.len() as int) =~= bytes@);
        }
        ForbiddenSet { table }
    }

    /// O(1) membership lookup: is `b` one of the configured forbidden bytes?
    pub fn contains(&self, b: u8) -> (r: bool)
        requires
            self.wf(),
        ensures
            r == self@.contains(b),
    {
        self.table[b as usize]
    }
}

} // verus!
