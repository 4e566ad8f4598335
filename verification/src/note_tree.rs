//! The notes of a block by position.
//!
//! A note tree files each note of a block under its position: the place of
//! its batch in the block and its own place in the batch. No two notes share
//! a position, and every position lies within the bounds of a block.

use crate::block::BlockNoteIndex;
use crate::block::NoteId;
use crate::block::NoteMetadata;
use crate::block::MAX_BATCHES_PER_BLOCK;
use crate::block::MAX_NOTES_PER_BATCH;
use vstd::prelude::*;

verus! {

/// Number of positions in a block.
pub const MAX_NOTES_PER_BLOCK: usize = 65536;

/// One entry of a note tree: a position, and the note filed there.
#[derive(Clone, Copy, Debug, PartialEq, Eq, Structural)]
pub struct NoteTreeEntry {
    pub index: BlockNoteIndex,
    pub note_id: NoteId,
    pub metadata: NoteMetadata,
}

/// Why a list of entries is not a note tree.
#[derive(Clone, Copy, Debug, PartialEq, Eq, Structural)]
pub enum NoteTreeError {
    /// The entry at the place given here lies outside the bounds of a block.
    IndexOutOfBounds(usize),
    /// The entry at the place given here has the position of an earlier one.
    DuplicateIndex(usize),
}

/// Whether the entry at place `i` has the position of an earlier entry.
pub open spec fn repeats_position(entries: Seq<NoteTreeEntry>, i: int) -> bool {
    exists|k: int|
        0 <= k < i && (#[trigger] entries[k]).index.spec_leaf_index()
            == entries[i].index.spec_leaf_index()
}

/// Whether the entry at place `i` cannot be filed after those before it.
pub open spec fn bad_entry(entries: Seq<NoteTreeEntry>, i: int) -> bool {
    !entries[i].index.in_bounds() || repeats_position(entries, i)
}

/// Whether the entries can be filed: all in bounds, no position twice.
pub open spec fn fileable(entries: Seq<NoteTreeEntry>) -> bool {
    forall|i: int| 0 <= i < entries.len() ==> !bad_entry(entries, i)
}

/// Whether `e` is the reason for which the entries cannot be filed: the
/// first entry that cannot be filed, out of bounds before repeated.
pub open spec fn unfileable_for(entries: Seq<NoteTreeEntry>, e: NoteTreeError) -> bool {
    match e {
        NoteTreeError::IndexOutOfBounds(i) => {
            &&& i < entries.len()
            &&& !entries[i as int].index.in_bounds()
            &&& forall|j: int| 0 <= j < i ==> !bad_entry(entries, j)
        },
        NoteTreeError::DuplicateIndex(i) => {
            &&& i < entries.len()
            &&& entries[i as int].index.in_bounds()
            &&& repeats_position(entries, i as int)
            &&& forall|j: int| 0 <= j < i ==> !bad_entry(entries, j)
        },
    }
}

/// The notes of a block, filed by position.
#[derive(Clone, Debug)]
pub struct BlockNoteTree {
    entries: Vec<NoteTreeEntry>,
}

impl View for BlockNoteTree {
    type V = Seq<NoteTreeEntry>;

    /// The entries in the order in which they were filed.
    closed spec fn view(&self) -> Seq<NoteTreeEntry> {
        self.entries@
    }
}

impl BlockNoteTree {
    /// Every entry is in bounds and no position occurs twice.
    pub open spec fn wf(&self) -> bool {
        fileable(self@)
    }

    /// Files the entries. Fails at the first entry that lies outside the
    /// bounds of a block or has the position of an earlier entry.
    pub fn with_entries(entries: Vec<NoteTreeEntry>) -> (r: Result<Self, NoteTreeError>)
        ensures
            r is Ok <==> fileable(entries@),
            r is Ok ==> r->Ok_0@ == entries@ && r->Ok_0.wf(),
            r is Err ==> unfileable_for(entries@, r->Err_0),
    {
        let mut seen: Vec<bool> = vec![false; MAX_NOTES_PER_BLOCK];
        let n = entries.len();
        let mut i: usize = 0;
        while i < n
            invariant
                n == entries@.len(),
                i <= n,
                seen@.len() == MAX_NOTES_PER_BLOCK,
                forall|j: int| 0 <= j < i ==> !bad_entry(entries@, j),
                forall|l: int|
                    0 <= l < MAX_NOTES_PER_BLOCK ==> (#[trigger] seen@[l] <==> exists|k: int|
                        0 <= k < i && (#[trigger] entries@[k]).index.spec_leaf_index() == l),
            decreases n - i,
        {
            match entries[i].index.leaf_index() {
                None => {
                    proof {
                        assert(bad_entry(entries@, i as int));
                    }
                    return Err(NoteTreeError::IndexOutOfBounds(i));
                },
                Some(leaf) => {
                    if seen[leaf] {
                        proof {
                            assert(repeats_position(entries@, i as int));
                            assert(bad_entry(entries@, i as int));
                        }
                        return Err(NoteTreeError::DuplicateIndex(i));
                    }
                    proof {
                        assert(!repeats_position(entries@, i as int)) by {
                            if repeats_position(entries@, i as int) {
                                let k = choose|k: int|
                                    0 <= k < i && (#[trigger] entries@[k]).index.spec_leaf_index()
                                        == entries@[i as int].index.spec_leaf_index();
                                assert(seen@[leaf as int]);
                            }
                        }
                    }
                    let ghost before = seen@;
                    seen.set(leaf, true);
                    proof {
                        assert forall|l: int| 0 <= l < MAX_NOTES_PER_BLOCK implies (
                        #[trigger] seen@[l] <==> exists|k: int|
                            0 <= k < i + 1 && (#[trigger] entries@[k]).index.spec_leaf_index()
                                == l) by {
                            if l == leaf {
                                assert(entries@[i as int].index.spec_leaf_index() == l);
                            } else if before[l] {
                                let k = choose|k: int|
                                    0 <= k < i && (#[trigger] entries@[k]).index.spec_leaf_index()
                                        == l;
                                assert(0 <= k < i + 1);
                            } else if exists|k: int|
                                0 <= k < i + 1 && (#[trigger] entries@[k]).index.spec_leaf_index()
                                    == l {
                                let k = choose|k: int|
                                    0 <= k < i + 1 && (
                                    #[trigger] entries@[k]).index.spec_leaf_index() == l;
                                assert(k < i);
                            }
                        }
                    }
                },
            }
            i += 1;
        }
        Ok(BlockNoteTree { entries })
    }

    /// Number of notes filed.
    pub fn num_notes(&self) -> (n: usize)
        ensures
            n == self@.len(),
    {
        self.entries.len()
    }

    /// The entries in the order in which they were filed.
    pub fn entries(&self) -> (e: &[NoteTreeEntry])
        ensures
            e@ == self@,
    {
        self.entries.as_slice()
    }

    /// The note filed at a position, if there is one.
    pub fn get_note(&self, index: BlockNoteIndex) -> (r: Option<(NoteId, NoteMetadata)>)
        ensures
            match r {
                Some(found) => exists|k: int|
                    0 <= k < self@.len() && (#[trigger] self@[k]).index == index && found == (
                        self@[k].note_id,
                        self@[k].metadata,
                    ),
                None => forall|k: int| 0 <= k < self@.len() ==> (#[trigger] self@[k]).index != index,
            },
    {
        let n = self.entries.len();
        let mut i: usize = 0;
        while i < n
            invariant
                n == self.entries@.len(),
                i <= n,
                forall|k: int| 0 <= k < i ==> (#[trigger] self.entries@[k]).index != index,
            decreases n - i,
        {
            if self.entries[i].index == index {
                assert(self@[i as int].index == index);
                return Some((self.entries[i].note_id, self.entries[i].metadata));
            }
            i += 1;
        }
        None
    }
}

} // verus!
