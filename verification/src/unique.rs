//! Detection of repeated digests in a sequence.

use crate::crypto::Digest;
use std::collections::BTreeSet;
use vstd::prelude::*;

verus! {

broadcast use vstd::laws_cmp::group_laws_cmp;

/// Whether the digest at position `j` occurred at an earlier position.
pub open spec fn repeats_at(ids: Seq<Digest>, j: int) -> bool {
    0 <= j < ids.len() && exists|k: int| 0 <= k < j && ids[k] == ids[j]
}

/// Whether position `j` holds the first digest that occurred before.
pub open spec fn first_repeat(ids: Seq<Digest>, j: int) -> bool {
    repeats_at(ids, j) && forall|i: int| 0 <= i < j ==> !repeats_at(ids, i)
}

/// Whether no digest occurs twice.
pub open spec fn all_distinct(ids: Seq<Digest>) -> bool {
    forall|i: int, j: int| 0 <= i < j < ids.len() ==> ids[i] != ids[j]
}

/// At most one position is the first repeat.
pub proof fn lemma_first_repeat_unique(ids: Seq<Digest>, i: int, j: int)
    requires
        first_repeat(ids, i),
        first_repeat(ids, j),
    ensures
        i == j,
{
}

/// A sequence without repeats has no first repeat, so the two answers of
/// [`find_first_repeat`] exclude each other.
pub proof fn lemma_distinct_has_no_repeat(ids: Seq<Digest>, j: int)
    requires
        all_distinct(ids),
    ensures
        !first_repeat(ids, j),
{
}

/// Finds the first position whose digest occurred at an earlier position.
pub fn find_first_repeat(ids: &Vec<Digest>) -> (r: Option<usize>)
    ensures
        match r {
            Some(j) => first_repeat(ids@, j as int),
            None => all_distinct(ids@),
        },
{
    let mut seen: BTreeSet<(u64, u64, u64, u64)> = BTreeSet::new();
    let n = ids.len();
    let mut i: usize = 0;
    while i < n
        invariant
            n == ids@.len(),
            i <= n,
            forall|k: int| 0 <= k < i ==> seen@.contains(#[trigger] ids@[k].key()),
            forall|key: (u64, u64, u64, u64)| #[trigger]
                seen@.contains(key) ==> exists|k: int| 0 <= k < i && ids@[k].key() == key,
            forall|a: int, b: int| 0 <= a < b < i ==> ids@[a] != ids@[b],
        decreases n - i,
    {
        let key = ids[i].to_key();
        let fresh = seen.insert(key);
        if !fresh {
            proof {
                let k = choose|k: int| 0 <= k < i && ids@[k].key() == key;
                assert(ids@[k] == ids@[i as int]);
                assert forall|j: int| 0 <= j < i implies !repeats_at(ids@, j) by {
                    if repeats_at(ids@, j) {
                        let m = choose|m: int| 0 <= m < j && ids@[m] == ids@[j];
                        assert(ids@[m] != ids@[j]);
                    }
                }
            }
            return Some(i);
        }
        proof {
            assert forall|a: int, b: int| 0 <= a < b < i + 1 implies ids@[a] != ids@[b] by {
                if b == i {
                    if ids@[a] == ids@[b] {
                        assert(ids@[a].key() == key);
                    }
                }
            }
            assert forall|key2: (u64, u64, u64, u64)| #[trigger]
                seen@.contains(key2) implies exists|k: int|
                0 <= k < i + 1 && ids@[k].key() == key2 by {
                if key2 == key {
                    assert(ids@[i as int].key() == key2);
                } else {
                    let k = choose|k: int| 0 <= k < i && ids@[k].key() == key2;
                    assert(0 <= k < i + 1 && ids@[k].key() == key2);
                }
            }
        }
        i += 1;
    }
    None
}

} // verus!
