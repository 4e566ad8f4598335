//! Blocks: the account updates, notes and nullifiers that a set of
//! transactions leaves behind, under a header that commits to them.
//!
//! A block is valid when it holds no more batches than a block may hold, no
//! batch holds more notes than a batch may hold, and no note occurs twice.
//! Every `Block` value is valid; `Block::new` is the only way to make one.

use crate::crypto::hash_elements;
use crate::crypto::rpo_hash_elements;
use crate::crypto::Digest;
use crate::crypto::Felt;
use crate::crypto::ZERO;
use crate::note_tree::fileable;
use crate::note_tree::BlockNoteTree;
use crate::note_tree::NoteTreeEntry;
use crate::unique::all_distinct;
use crate::unique::find_first_repeat;
use crate::unique::first_repeat;
use vstd::prelude::*;

verus! {

/// Largest number of note batches in a block.
pub const MAX_BATCHES_PER_BLOCK: usize = 64;

/// Largest number of notes in a batch.
pub const MAX_NOTES_PER_BATCH: usize = 1024;

/// Identifier of an account: one field element.
#[derive(Clone, Copy, Debug, PartialEq, Eq, Structural)]
pub struct AccountId(pub Felt);

/// Identifier of a transaction: a digest.
#[derive(Clone, Copy, Debug, PartialEq, Eq, Structural)]
pub struct TransactionId(pub Digest);

/// Identifier of a note: a digest.
#[derive(Clone, Copy, Debug, PartialEq, Eq, Structural)]
pub struct NoteId(pub Digest);

/// What marks a note as consumed: a digest.
#[derive(Clone, Copy, Debug, PartialEq, Eq, Structural)]
pub struct Nullifier(pub Digest);

/// The public description of a note, as one word of field elements.
#[derive(Clone, Copy, Debug, PartialEq, Eq, Structural)]
pub struct NoteMetadata(pub Digest);

/// A note created by a transaction.
#[derive(Clone, Copy, Debug, PartialEq, Eq, Structural)]
pub struct OutputNote {
    pub id: NoteId,
    pub metadata: NoteMetadata,
}

/// The notes created by one batch of transactions.
pub type NoteBatch = Vec<OutputNote>;

/// The header of a block: its number, the commitments to its notes and
/// transactions, and the commitment to the block as a whole.
#[derive(Clone, Copy, Debug, PartialEq, Eq, Structural)]
pub struct BlockHeader {
    pub block_num: u32,
    pub note_root: Digest,
    pub tx_hash: Digest,
    pub hash: Digest,
}

/// How the change to an account is recorded in a block.
#[derive(Clone, Debug, PartialEq, Eq)]
pub enum AccountUpdateDetails {
    /// The account is private: only the new state commitment is recorded.
    Private,
    /// The account is new and public: its full state, serialized.
    New(Vec<u8>),
    /// The account is public: the change to its state, serialized.
    Delta(Vec<u8>),
}

/// Where a note sits in a block: its batch, and its place in the batch.
#[derive(Clone, Copy, Debug, PartialEq, Eq, Structural)]
pub struct BlockNoteIndex {
    batch_idx: usize,
    note_idx_in_batch: usize,
}

/// Why a set of components is not a block.
#[derive(Clone, Copy, Debug, PartialEq, Eq, Structural)]
pub enum BlockError {
    /// There are more batches than a block may hold; their number is given.
    TooManyTransactionBatches(usize),
    /// A batch holds more notes than a batch may hold; their number is given.
    TooManyNotesInBatch(usize),
    /// The note given here occurs more than once.
    DuplicateNoteFound(NoteId),
}

impl OutputNote {
    /// A note with the given identifier and metadata.
    pub fn new(id: NoteId, metadata: NoteMetadata) -> (n: Self)
        ensures
            n.spec_id() == id,
            n.spec_metadata() == metadata,
    {
        OutputNote { id, metadata }
    }

    /// The note's identifier.
    pub open spec fn spec_id(&self) -> NoteId {
        self.id
    }

    /// The note's metadata.
    pub open spec fn spec_metadata(&self) -> NoteMetadata {
        self.metadata
    }

    /// The note's identifier.
    pub fn id(&self) -> (id: NoteId)
        ensures
            id == self.spec_id(),
    {
        self.id
    }

    /// The note's metadata.
    pub fn metadata(&self) -> (m: NoteMetadata)
        ensures
            m == self.spec_metadata(),
    {
        self.metadata
    }
}

impl BlockHeader {
    /// A header from its parts.
    pub fn new(block_num: u32, note_root: Digest, tx_hash: Digest, hash: Digest) -> (h: Self)
        ensures
            h.spec_block_num() == block_num,
            h.spec_note_root() == note_root,
            h.spec_tx_hash() == tx_hash,
            h.spec_hash() == hash,
    {
        BlockHeader { block_num, note_root, tx_hash, hash }
    }

    /// The block's number.
    pub open spec fn spec_block_num(&self) -> u32 {
        self.block_num
    }

    /// The commitment to the block's notes.
    pub open spec fn spec_note_root(&self) -> Digest {
        self.note_root
    }

    /// The commitment to the block's transactions.
    pub open spec fn spec_tx_hash(&self) -> Digest {
        self.tx_hash
    }

    /// The commitment to the block.
    pub open spec fn spec_hash(&self) -> Digest {
        self.hash
    }

    /// The block's number.
    pub fn block_num(&self) -> (n: u32)
        ensures
            n == self.spec_block_num(),
    {
        self.block_num
    }

    /// The commitment to the block's notes.
    pub fn note_root(&self) -> (d: Digest)
        ensures
            d == self.spec_note_root(),
    {
        self.note_root
    }

    /// The commitment to the block's transactions.
    pub fn tx_hash(&self) -> (d: Digest)
        ensures
            d == self.spec_tx_hash(),
    {
        self.tx_hash
    }

    /// The commitment to the block.
    pub fn hash(&self) -> (d: Digest)
        ensures
            d == self.spec_hash(),
    {
        self.hash
    }
}

impl AccountUpdateDetails {
    /// Whether the details are those of a private account.
    pub fn is_private(&self) -> (b: bool)
        ensures
            b == (*self is Private),
    {
        match self {
            AccountUpdateDetails::Private => true,
            _ => false,
        }
    }
}

impl BlockNoteIndex {
    /// The position of the note at place `note_idx_in_batch` of the batch
    /// at place `batch_idx`.
    pub fn new(batch_idx: usize, note_idx_in_batch: usize) -> (i: Self)
        ensures
            i.spec_batch_idx() == batch_idx,
            i.spec_note_idx_in_batch() == note_idx_in_batch,
    {
        BlockNoteIndex { batch_idx, note_idx_in_batch }
    }

    /// The place of the batch in the block.
    pub closed spec fn spec_batch_idx(&self) -> usize {
        self.batch_idx
    }

    /// The place of the note in its batch.
    pub closed spec fn spec_note_idx_in_batch(&self) -> usize {
        self.note_idx_in_batch
    }

    /// Whether the position lies within the bounds of a block.
    pub open spec fn in_bounds(&self) -> bool {
        self.spec_batch_idx() < MAX_BATCHES_PER_BLOCK && self.spec_note_idx_in_batch()
            < MAX_NOTES_PER_BATCH
    }

    /// The place of the note among all places of a block, batch by batch.
    pub open spec fn spec_leaf_index(&self) -> int {
        self.spec_batch_idx() * MAX_NOTES_PER_BATCH + self.spec_note_idx_in_batch()
    }

    /// The place of the batch in the block.
    pub fn batch_idx(&self) -> (i: usize)
        ensures
            i == self.spec_batch_idx(),
    {
        self.batch_idx
    }

    /// The place of the note in its batch.
    pub fn note_idx_in_batch(&self) -> (i: usize)
        ensures
            i == self.spec_note_idx_in_batch(),
    {
        self.note_idx_in_batch
    }

    /// The place of the note among all places of a block, or `None` for a
    /// position outside the bounds of a block.
    pub fn leaf_index(&self) -> (r: Option<usize>)
        ensures
            self.in_bounds() ==> r == Some(self.spec_leaf_index() as usize),
            !self.in_bounds() ==> r is None,
            r is Some ==> r->0 < MAX_BATCHES_PER_BLOCK * MAX_NOTES_PER_BATCH,
    {
        if self.batch_idx < MAX_BATCHES_PER_BLOCK && self.note_idx_in_batch < MAX_NOTES_PER_BATCH {
            Some(self.batch_idx * MAX_NOTES_PER_BATCH + self.note_idx_in_batch)
        } else {
            None
        }
    }
}

/// The mathematical content of [`AccountUpdateDetails`].
pub enum DetailsView {
    Private,
    New(Seq<u8>),
    Delta(Seq<u8>),
}

impl View for AccountUpdateDetails {
    type V = DetailsView;

    open spec fn view(&self) -> DetailsView {
        match *self {
            AccountUpdateDetails::Private => DetailsView::Private,
            AccountUpdateDetails::New(account) => DetailsView::New(account@),
            AccountUpdateDetails::Delta(delta) => DetailsView::Delta(delta@),
        }
    }
}

/// The mathematical content of a [`BlockAccountUpdate`].
pub struct UpdateView {
    pub account_id: AccountId,
    pub new_state_hash: Digest,
    pub details: DetailsView,
    pub transactions: Seq<TransactionId>,
}

/// The change that the transactions of a block made to one account.
#[derive(Clone, Debug, PartialEq, Eq)]
pub struct BlockAccountUpdate {
    account_id: AccountId,
    new_state_hash: Digest,
    details: AccountUpdateDetails,
    transactions: Vec<TransactionId>,
}

impl View for BlockAccountUpdate {
    type V = UpdateView;

    open spec fn view(&self) -> UpdateView {
        UpdateView {
            account_id: self.spec_account_id(),
            new_state_hash: self.spec_new_state_hash(),
            details: self.spec_details()@,
            transactions: self.spec_transactions(),
        }
    }
}

impl BlockAccountUpdate {
    /// The updated account.
    pub closed spec fn spec_account_id(&self) -> AccountId {
        self.account_id
    }

    /// The commitment to the account's new state.
    pub closed spec fn spec_new_state_hash(&self) -> Digest {
        self.new_state_hash
    }

    /// How the change is recorded.
    pub closed spec fn spec_details(&self) -> AccountUpdateDetails {
        self.details
    }

    /// The transactions that updated the account, in order.
    pub closed spec fn spec_transactions(&self) -> Seq<TransactionId> {
        self.transactions@
    }

    /// The lists of an update are no longer than a machine word can count.
    pub proof fn lemma_lengths_bounded(&self)
        ensures
            self@.transactions.len() <= usize::MAX,
            self@.details matches DetailsView::New(x) ==> x.len() <= usize::MAX,
            self@.details matches DetailsView::Delta(x) ==> x.len() <= usize::MAX,
    {
        assert(self.transactions@.len() == self.transactions.len());
        match self.details {
            AccountUpdateDetails::Private => {},
            AccountUpdateDetails::New(account) => {
                assert(account@.len() == account.len());
            },
            AccountUpdateDetails::Delta(delta) => {
                assert(delta@.len() == delta.len());
            },
        }
    }

    /// The transactions that updated the account, each with the account.
    pub open spec fn spec_pairs(&self) -> Seq<(TransactionId, AccountId)> {
        Seq::new(
            self.spec_transactions().len(),
            |i: int| (self.spec_transactions()[i], self.spec_account_id()),
        )
    }

    /// An update from its parts.
    pub fn new(
        account_id: AccountId,
        new_state_hash: Digest,
        details: AccountUpdateDetails,
        transactions: Vec<TransactionId>,
    ) -> (u: Self)
        ensures
            u.spec_account_id() == account_id,
            u.spec_new_state_hash() == new_state_hash,
            u.spec_details() == details,
            u.spec_transactions() == transactions@,
    {
        BlockAccountUpdate { account_id, new_state_hash, details, transactions }
    }

    /// The updated account.
    pub fn account_id(&self) -> (id: AccountId)
        ensures
            id == self.spec_account_id(),
    {
        self.account_id
    }

    /// The commitment to the account's new state.
    pub fn new_state_hash(&self) -> (d: Digest)
        ensures
            d == self.spec_new_state_hash(),
    {
        self.new_state_hash
    }

    /// How the change is recorded.
    pub fn details(&self) -> (d: &AccountUpdateDetails)
        ensures
            *d == self.spec_details(),
    {
        &self.details
    }

    /// The transactions that updated the account, in order.
    pub fn transactions(&self) -> (t: &[TransactionId])
        ensures
            t@ == self.spec_transactions(),
    {
        self.transactions.as_slice()
    }

    /// Whether the account is private.
    pub fn is_private(&self) -> (b: bool)
        ensures
            b == (self.spec_details() is Private),
    {
        self.details.is_private()
    }
}

/// The identifiers of the notes of a batch, in order.
pub open spec fn batch_ids(batch: Seq<OutputNote>) -> Seq<Digest> {
    Seq::new(batch.len(), |i: int| batch[i].spec_id().0)
}

/// The batches as sequences of notes.
pub open spec fn note_seqs(batches: Seq<NoteBatch>) -> Seq<Seq<OutputNote>> {
    Seq::new(batches.len(), |i: int| batches[i]@)
}

/// The identifiers of all notes of the batches, batch by batch.
pub open spec fn flat_ids(batches: Seq<Seq<OutputNote>>) -> Seq<Digest>
    decreases batches.len(),
{
    if batches.len() == 0 {
        Seq::empty()
    } else {
        flat_ids(batches.drop_last()) + batch_ids(batches.last())
    }
}

/// The notes of the batch at place `b`, each with its position.
pub open spec fn batch_positions(b: int, batch: Seq<OutputNote>) -> Seq<
    (BlockNoteIndex, OutputNote),
> {
    Seq::new(batch.len(), |i: int| (position(b, i), batch[i]))
}

/// The position of the note at place `n` of the batch at place `b`.
pub closed spec fn position(b: int, n: int) -> BlockNoteIndex {
    BlockNoteIndex { batch_idx: b as usize, note_idx_in_batch: n as usize }
}

/// What `position` stands for.
pub proof fn lemma_position(b: int, n: int)
    requires
        0 <= b <= usize::MAX,
        0 <= n <= usize::MAX,
    ensures
        position(b, n).spec_batch_idx() == b,
        position(b, n).spec_note_idx_in_batch() == n,
{
}

/// All notes of the batches with their positions, batch by batch.
pub open spec fn flat_positions(batches: Seq<Seq<OutputNote>>) -> Seq<(BlockNoteIndex, OutputNote)>
    decreases batches.len(),
{
    if batches.len() == 0 {
        Seq::empty()
    } else {
        flat_positions(batches.drop_last()) + batch_positions(
            batches.len() - 1,
            batches.last(),
        )
    }
}

/// The transactions of all updates, each with its account, update by
/// update.
pub open spec fn flat_transactions(updates: Seq<BlockAccountUpdate>) -> Seq<
    (TransactionId, AccountId),
>
    decreases updates.len(),
{
    if updates.len() == 0 {
        Seq::empty()
    } else {
        flat_transactions(updates.drop_last()) + updates.last().spec_pairs()
    }
}

/// The field elements that commit to a list of transactions: for each
/// transaction the account followed by three zeros, then the four elements
/// of the transaction's identifier.
pub open spec fn tx_hash_elements(pairs: Seq<(TransactionId, AccountId)>) -> Seq<u64>
    decreases pairs.len(),
{
    if pairs.len() == 0 {
        Seq::empty()
    } else {
        tx_hash_elements(pairs.drop_last()) + seq![pairs.last().1.0, 0u64, 0u64, 0u64]
            + pairs.last().0.0.elements()
    }
}

/// Whether the batch at place `b` is the first that holds too many notes.
pub open spec fn first_oversized_batch(batches: Seq<Seq<OutputNote>>, b: int) -> bool {
    &&& 0 <= b < batches.len()
    &&& batches[b].len() > MAX_NOTES_PER_BATCH
    &&& forall|i: int| 0 <= i < b ==> (#[trigger] batches[i]).len() <= MAX_NOTES_PER_BATCH
}

/// Whether the batches can be the notes of a block.
pub open spec fn valid_notes(batches: Seq<Seq<OutputNote>>) -> bool {
    &&& batches.len() <= MAX_BATCHES_PER_BLOCK
    &&& forall|i: int|
        0 <= i < batches.len() ==> (#[trigger] batches[i]).len() <= MAX_NOTES_PER_BATCH
    &&& all_distinct(flat_ids(batches))
}

/// Whether `e` is the reason for which the batches cannot be the notes of a
/// block. The number of batches is checked first, then the size of each
/// batch in order, then the notes in order for one that occurred before.
pub open spec fn rejected_for(batches: Seq<Seq<OutputNote>>, e: BlockError) -> bool {
    match e {
        BlockError::TooManyTransactionBatches(n) => {
            &&& n == batches.len()
            &&& batches.len() > MAX_BATCHES_PER_BLOCK
        },
        BlockError::TooManyNotesInBatch(n) => {
            &&& batches.len() <= MAX_BATCHES_PER_BLOCK
            &&& exists|b: int| first_oversized_batch(batches, b) && n == batches[b].len()
        },
        BlockError::DuplicateNoteFound(id) => {
            &&& batches.len() <= MAX_BATCHES_PER_BLOCK
            &&& forall|i: int|
                0 <= i < batches.len() ==> (#[trigger] batches[i]).len() <= MAX_NOTES_PER_BATCH
            &&& exists|j: int| first_repeat(flat_ids(batches), j) && id.0 == flat_ids(batches)[j]
        },
    }
}

/// The identifiers of all notes of the batches, batch by batch.
pub fn note_ids(batches: &Vec<NoteBatch>) -> (ids: Vec<Digest>)
    ensures
        ids@ == flat_ids(note_seqs(batches@)),
{
    let ghost all = note_seqs(batches@);
    let mut ids: Vec<Digest> = Vec::new();
    let mut b: usize = 0;
    proof {
        assert(all.take(0) =~= Seq::<Seq<OutputNote>>::empty());
    }
    while b < batches.len()
        invariant
            b <= batches@.len(),
            all == note_seqs(batches@),
            ids@ == flat_ids(all.take(b as int)),
        decreases batches@.len() - b,
    {
        let batch = &batches[b];
        let ghost before = ids@;
        let mut n: usize = 0;
        while n < batch.len()
            invariant
                n <= batch@.len(),
                ids@ == before + batch_ids(batch@.take(n as int)),
            decreases batch@.len() - n,
        {
            ids.push(batch[n].id().0);
            proof {
                assert(batch_ids(batch@.take(n + 1)) =~= batch_ids(batch@.take(n as int)).push(
                    batch@[n as int].spec_id().0,
                ));
                assert(ids@ =~= before + batch_ids(batch@.take(n + 1)));
            }
            n += 1;
        }
        proof {
            assert(batch@.take(batch@.len() as int) =~= batch@);
            assert(all.take(b + 1).drop_last() =~= all.take(b as int));
            assert(all.take(b + 1).last() == batch@);
        }
        b += 1;
    }
    proof {
        assert(all.take(batches@.len() as int) =~= all);
    }
    ids
}

/// A commitment to the transactions of a block: the hash of the elements
/// that stand for them.
pub open spec fn tx_hash_of(pairs: Seq<(TransactionId, AccountId)>) -> Seq<u64> {
    rpo_hash_elements(tx_hash_elements(pairs))
}

/// The field elements that commit to a list of transactions.
pub fn tx_elements(pairs: &Vec<(TransactionId, AccountId)>) -> (elements: Vec<Felt>)
    ensures
        elements@ == tx_hash_elements(pairs@),
{
    let mut elements: Vec<Felt> = Vec::new();
    let mut i: usize = 0;
    proof {
        assert(pairs@.take(0) =~= Seq::<(TransactionId, AccountId)>::empty());
    }
    while i < pairs.len()
        invariant
            i <= pairs@.len(),
            elements@ == tx_hash_elements(pairs@.take(i as int)),
        decreases pairs@.len() - i,
    {
        let ghost before = elements@;
        let (transaction_id, account_id) = pairs[i];
        elements.push(account_id.0);
        elements.push(ZERO);
        elements.push(ZERO);
        elements.push(ZERO);
        elements.push(transaction_id.0.e0);
        elements.push(transaction_id.0.e1);
        elements.push(transaction_id.0.e2);
        elements.push(transaction_id.0.e3);
        proof {
            assert(pairs@.take(i + 1).drop_last() =~= pairs@.take(i as int));
            assert(pairs@.take(i + 1).last() == pairs@[i as int]);
            assert(elements@ =~= before + seq![account_id.0, 0u64, 0u64, 0u64]
                + transaction_id.0.elements());
        }
        i += 1;
    }
    proof {
        assert(pairs@.take(pairs@.len() as int) =~= pairs@);
    }
    elements
}

/// The entry of the note tree for a note at a position.
pub open spec fn tree_entry(p: (BlockNoteIndex, OutputNote)) -> NoteTreeEntry {
    NoteTreeEntry { index: p.0, note_id: p.1.spec_id(), metadata: p.1.spec_metadata() }
}

/// The entries of the note tree of the batches: every note under its
/// position, batch by batch.
pub open spec fn tree_entries(batches: Seq<Seq<OutputNote>>) -> Seq<NoteTreeEntry> {
    Seq::new(flat_positions(batches).len(), |k: int| tree_entry(flat_positions(batches)[k]))
}

/// Whether no batch holds more notes than a batch may hold.
pub open spec fn batches_within_bounds(batches: Seq<Seq<OutputNote>>) -> bool {
    &&& batches.len() <= MAX_BATCHES_PER_BLOCK
    &&& forall|i: int|
        0 <= i < batches.len() ==> (#[trigger] batches[i]).len() <= MAX_NOTES_PER_BATCH
}

/// Every note of the batches is listed at the place of its batch and its
/// own place in the batch.
pub proof fn lemma_flat_positions_place(batches: Seq<Seq<OutputNote>>, k: int)
    requires
        batches_within_bounds(batches),
        0 <= k < flat_positions(batches).len(),
    ensures
        ({
            let p = flat_positions(batches)[k].0;
            &&& p.spec_batch_idx() < batches.len()
            &&& p.spec_note_idx_in_batch() < batches[p.spec_batch_idx() as int].len()
            &&& flat_positions(batches)[k].1 == batches[p.spec_batch_idx() as int][p.spec_note_idx_in_batch() as int]
            &&& p.in_bounds()
        }),
    decreases batches.len(),
{
    let before = flat_positions(batches.drop_last());
    if k < before.len() {
        lemma_flat_positions_place(batches.drop_last(), k);
    }
}

/// The notes of the batches are listed in the order of their positions.
pub proof fn lemma_flat_positions_ordered(batches: Seq<Seq<OutputNote>>, j: int, k: int)
    requires
        batches_within_bounds(batches),
        0 <= j < k < flat_positions(batches).len(),
    ensures
        flat_positions(batches)[j].0.spec_leaf_index() < flat_positions(batches)[k].0.spec_leaf_index(),
    decreases batches.len(),
{
    let before = flat_positions(batches.drop_last());
    if k < before.len() {
        lemma_flat_positions_ordered(batches.drop_last(), j, k);
    } else if j < before.len() {
        lemma_flat_positions_place(batches.drop_last(), j);
    }
}

/// The notes of batches within bounds can always be filed in a note tree.
pub proof fn lemma_tree_entries_fileable(batches: Seq<Seq<OutputNote>>)
    requires
        batches_within_bounds(batches),
    ensures
        fileable(tree_entries(batches)),
{
    let entries = tree_entries(batches);
    assert forall|i: int| 0 <= i < entries.len() implies !crate::note_tree::bad_entry(
        entries,
        i,
    ) by {
        lemma_flat_positions_place(batches, i);
        if crate::note_tree::repeats_position(entries, i) {
            let k = choose|k: int|
                0 <= k < i && (#[trigger] entries[k]).index.spec_leaf_index()
                    == entries[i].index.spec_leaf_index();
            lemma_flat_positions_ordered(batches, k, i);
        }
    }
}

/// The mathematical content of a [`Block`].
pub struct BlockView {
    pub header: BlockHeader,
    pub updated_accounts: Seq<UpdateView>,
    pub created_notes: Seq<Seq<OutputNote>>,
    pub created_nullifiers: Seq<Nullifier>,
}

/// The contents of the account updates in order.
pub open spec fn update_views(updates: Seq<BlockAccountUpdate>) -> Seq<UpdateView> {
    Seq::new(updates.len(), |i: int| updates[i]@)
}

/// A block.
#[derive(Clone, Debug)]
pub struct Block {
    header: BlockHeader,
    updated_accounts: Vec<BlockAccountUpdate>,
    created_notes: Vec<NoteBatch>,
    created_nullifiers: Vec<Nullifier>,
}

impl View for Block {
    type V = BlockView;

    open spec fn view(&self) -> BlockView {
        BlockView {
            header: self.spec_header(),
            updated_accounts: update_views(self.spec_updated_accounts()),
            created_notes: self.spec_notes(),
            created_nullifiers: self.spec_created_nullifiers(),
        }
    }
}

impl Block {
    /// The block's header.
    pub closed spec fn spec_header(&self) -> BlockHeader {
        self.header
    }

    /// The account updates of the block.
    pub closed spec fn spec_updated_accounts(&self) -> Seq<BlockAccountUpdate> {
        self.updated_accounts@
    }

    /// The note batches of the block.
    pub closed spec fn spec_created_notes(&self) -> Seq<NoteBatch> {
        self.created_notes@
    }

    /// The nullifiers of the block.
    pub closed spec fn spec_created_nullifiers(&self) -> Seq<Nullifier> {
        self.created_nullifiers@
    }

    /// The note batches of the block, as sequences of notes.
    pub open spec fn spec_notes(&self) -> Seq<Seq<OutputNote>> {
        note_seqs(self.spec_created_notes())
    }

    /// The lists of a block are no longer than a machine word can count.
    pub proof fn lemma_lengths_bounded(&self)
        ensures
            self@.updated_accounts.len() <= usize::MAX,
            self@.created_notes.len() <= usize::MAX,
            self@.created_nullifiers.len() <= usize::MAX,
            forall|i: int|
                0 <= i < self@.created_notes.len() ==> (#[trigger] self@.created_notes[i]).len()
                    <= usize::MAX,
    {
        assert(self.updated_accounts@.len() == self.updated_accounts.len());
        assert(self.created_notes@.len() == self.created_notes.len());
        assert(self.created_nullifiers@.len() == self.created_nullifiers.len());
        assert forall|i: int| 0 <= i < self@.created_notes.len() implies (
        #[trigger] self@.created_notes[i]).len() <= usize::MAX by {
            let batch = self.created_notes@[i];
            assert(batch@.len() == batch.len());
        }
    }

    /// Whether the block is valid.
    pub open spec fn wf(&self) -> bool {
        valid_notes(self.spec_notes())
    }

    /// Checks the note batches of a block: their number, the size of each,
    /// and that no note occurs twice. The first failure found is returned.
    pub fn validate(created_notes: &Vec<NoteBatch>) -> (r: Result<(), BlockError>)
        ensures
            r is Ok <==> valid_notes(note_seqs(created_notes@)),
            r is Err ==> rejected_for(note_seqs(created_notes@), r->Err_0),
    {
        let batch_count = created_notes.len();
        if batch_count > MAX_BATCHES_PER_BLOCK {
            return Err(BlockError::TooManyTransactionBatches(batch_count));
        }
        let mut b: usize = 0;
        while b < batch_count
            invariant
                batch_count == created_notes@.len(),
                batch_count <= MAX_BATCHES_PER_BLOCK,
                b <= batch_count,
                forall|i: int|
                    0 <= i < b ==> (#[trigger] created_notes@[i])@.len() <= MAX_NOTES_PER_BATCH,
            decreases batch_count - b,
        {
            if created_notes[b].len() > MAX_NOTES_PER_BATCH {
                assert(first_oversized_batch(note_seqs(created_notes@), b as int));
                return Err(BlockError::TooManyNotesInBatch(created_notes[b].len()));
            }
            b += 1;
        }
        let ids = note_ids(created_notes);
        match find_first_repeat(&ids) {
            Some(j) => {
                proof {
                    assert(ids@[j as int] != ids@[j as int] || !all_distinct(ids@)) by {
                        let k = choose|k: int| 0 <= k < j && ids@[k] == ids@[j as int];
                    }
                }
                Err(BlockError::DuplicateNoteFound(NoteId(ids[j])))
            },
            None => Ok(()),
        }
    }

    /// A block from its components. Fails, with the first reason found, if
    /// the note batches cannot be the notes of a block; the other
    /// components are taken as they are.
    pub fn new(
        header: BlockHeader,
        updated_accounts: Vec<BlockAccountUpdate>,
        created_notes: Vec<NoteBatch>,
        created_nullifiers: Vec<Nullifier>,
    ) -> (r: Result<Self, BlockError>)
        ensures
            r is Ok <==> valid_notes(note_seqs(created_notes@)),
            r is Err ==> rejected_for(note_seqs(created_notes@), r->Err_0),
            r is Ok ==> {
                &&& r->Ok_0.wf()
                &&& r->Ok_0.spec_header() == header
                &&& r->Ok_0.spec_updated_accounts() == updated_accounts@
                &&& r->Ok_0.spec_created_notes() == created_notes@
                &&& r->Ok_0.spec_created_nullifiers() == created_nullifiers@
            },
    {
        match Self::validate(&created_notes) {
            Ok(()) => Ok(Block { header, updated_accounts, created_notes, created_nullifiers }),
            Err(e) => Err(e),
        }
    }

    /// The commitment to the block.
    pub fn hash(&self) -> (d: Digest)
        ensures
            d == self.spec_header().spec_hash(),
    {
        self.header.hash()
    }

    /// The block's header.
    pub fn header(&self) -> (h: BlockHeader)
        ensures
            h == self.spec_header(),
    {
        self.header
    }

    /// The account updates of the block.
    pub fn updated_accounts(&self) -> (u: &[BlockAccountUpdate])
        ensures
            u@ == self.spec_updated_accounts(),
    {
        self.updated_accounts.as_slice()
    }

    /// The note batches of the block.
    pub fn created_notes(&self) -> (n: &[NoteBatch])
        ensures
            n@ == self.spec_created_notes(),
    {
        self.created_notes.as_slice()
    }

    /// The nullifiers of the block.
    pub fn created_nullifiers(&self) -> (n: &[Nullifier])
        ensures
            n@ == self.spec_created_nullifiers(),
    {
        self.created_nullifiers.as_slice()
    }

    /// All notes of the block, batch by batch, each with its position.
    pub fn notes(&self) -> (notes: Vec<(BlockNoteIndex, OutputNote)>)
        ensures
            notes@ == flat_positions(self.spec_notes()),
    {
        let batches = &self.created_notes;
        let ghost all = note_seqs(batches@);
        let mut notes: Vec<(BlockNoteIndex, OutputNote)> = Vec::new();
        let mut b: usize = 0;
        proof {
            assert(all.take(0) =~= Seq::<Seq<OutputNote>>::empty());
        }
        while b < batches.len()
            invariant
                b <= batches@.len(),
                all == note_seqs(batches@),
                notes@ == flat_positions(all.take(b as int)),
            decreases batches@.len() - b,
        {
            let batch = &batches[b];
            let ghost before = notes@;
            let mut n: usize = 0;
            while n < batch.len()
                invariant
                    n <= batch@.len(),
                    notes@ == before + batch_positions(b as int, batch@.take(n as int)),
                decreases batch@.len() - n,
            {
                notes.push((BlockNoteIndex::new(b, n), batch[n]));
                proof {
                    assert(batch_positions(b as int, batch@.take(n + 1)) =~= batch_positions(
                        b as int,
                        batch@.take(n as int),
                    ).push((position(b as int, n as int), batch@[n as int])));
                    assert(notes@ =~= before + batch_positions(b as int, batch@.take(n + 1)));
                }
                n += 1;
            }
            proof {
                assert(batch@.take(batch@.len() as int) =~= batch@);
                assert(all.take(b + 1).drop_last() =~= all.take(b as int));
                assert(all.take(b + 1).last() == batch@);
                assert(all.take(b + 1).len() - 1 == b);
            }
            b += 1;
        }
        proof {
            assert(all.take(batches@.len() as int) =~= all);
        }
        notes
    }

    /// The note tree of the block: every note under its position.
    pub fn build_note_tree(&self) -> (tree: BlockNoteTree)
        requires
            self.wf(),
        ensures
            tree.wf(),
            tree@ == tree_entries(self.spec_notes()),
    {
        let notes = self.notes();
        let mut entries: Vec<NoteTreeEntry> = Vec::new();
        let mut i: usize = 0;
        while i < notes.len()
            invariant
                i <= notes@.len(),
                entries@.len() == i,
                forall|k: int| 0 <= k < i ==> entries@[k] == tree_entry(notes@[k]),
            decreases notes@.len() - i,
        {
            let (index, note) = notes[i];
            entries.push(NoteTreeEntry { index, note_id: note.id(), metadata: note.metadata() });
            i += 1;
        }
        proof {
            assert(entries@ =~= tree_entries(self.spec_notes()));
            lemma_tree_entries_fileable(self.spec_notes());
        }
        match BlockNoteTree::with_entries(entries) {
            Ok(tree) => tree,
            Err(_) => vstd::pervasive::unreached(),
        }
    }

    /// The transactions that updated accounts in the block, each with its
    /// account, update by update.
    pub fn transactions(&self) -> (pairs: Vec<(TransactionId, AccountId)>)
        ensures
            pairs@ == flat_transactions(self.spec_updated_accounts()),
    {
        let updates = &self.updated_accounts;
        let mut pairs: Vec<(TransactionId, AccountId)> = Vec::new();
        let mut u: usize = 0;
        proof {
            assert(updates@.take(0) =~= Seq::<BlockAccountUpdate>::empty());
        }
        while u < updates.len()
            invariant
                u <= updates@.len(),
                pairs@ == flat_transactions(updates@.take(u as int)),
            decreases updates@.len() - u,
        {
            let update = &updates[u];
            let ghost before = pairs@;
            let transactions = update.transactions();
            let account_id = update.account_id();
            let mut t: usize = 0;
            while t < transactions.len()
                invariant
                    t <= transactions@.len(),
                    transactions@ == update.spec_transactions(),
                    account_id == update.spec_account_id(),
                    pairs@ == before + update.spec_pairs().take(t as int),
                decreases transactions@.len() - t,
            {
                pairs.push((transactions[t], account_id));
                proof {
                    assert(update.spec_pairs().take(t + 1) =~= update.spec_pairs().take(
                        t as int,
                    ).push((transactions@[t as int], account_id)));
                    assert(pairs@ =~= before + update.spec_pairs().take(t + 1));
                }
                t += 1;
            }
            proof {
                assert(update.spec_pairs().take(transactions@.len() as int) =~= update.spec_pairs());
                assert(updates@.take(u + 1).drop_last() =~= updates@.take(u as int));
                assert(updates@.take(u + 1).last() == updates@[u as int]);
            }
            u += 1;
        }
        proof {
            assert(updates@.take(updates@.len() as int) =~= updates@);
        }
        pairs
    }

    /// A commitment to a list of transactions with their accounts: the hash
    /// of the field elements that stand for them.
    pub fn compute_tx_hash(updated_accounts: &Vec<(TransactionId, AccountId)>) -> (d: Digest)
        ensures
            d.elements() == tx_hash_of(updated_accounts@),
    {
        let elements = tx_elements(updated_accounts);
        hash_elements(&elements)
    }
}

} // verus!
