//! The public inputs and outputs of the transaction kernel.
//!
//! The kernel is run on an operand stack of sixteen field elements. This
//! module lays out what goes onto the stack before a transaction is
//! executed, and reads back what the kernel leaves on it. Words are held on
//! the stack with their last element on top.

use crate::crypto::Digest;
use crate::crypto::Felt;
use crate::crypto::ZERO;
use crate::merkle::digest_elements;
use crate::merkle::index_fits;
use crate::merkle::inner_nodes_of_path;
use crate::merkle::path_nodes;
use crate::merkle::store_nodes;
use crate::merkle::with_nodes;
use crate::merkle::MerkleFailure;
use crate::merkle::MerkleStore;
use crate::merkle::MAX_PATH_DEPTH;
use vstd::prelude::*;
use vstd::string::StringExecFns;

verus! {

/// Number of elements of the operand stack that are public.
pub const MIN_STACK_DEPTH: usize = 16;

/// Which word of the output stack holds the commitment to the output notes.
pub const OUTPUT_NOTES_COMMITMENT_WORD_IDX: usize = 0;

/// Which word of the output stack holds the final account hash.
pub const FINAL_ACCOUNT_HASH_WORD_IDX: usize = 1;

/// Which element of the output stack holds the expiration block number.
pub const EXPIRATION_BLOCK_ELEMENT_IDX: usize = 8;

/// Identifier of an account as the kernel sees it: two field elements.
#[derive(Clone, Copy, Debug, PartialEq, Eq, Structural)]
pub struct AccountId {
    pub prefix: Felt,
    pub suffix: Felt,
}

/// The number of a block.
#[derive(Clone, Copy, Debug, PartialEq, Eq, Structural)]
pub struct BlockNumber(pub u32);

/// Why a list of values is not a stack.
#[derive(Clone, Copy, Debug, PartialEq, Eq, Structural)]
pub enum StackError {
    /// More values were given than the stack holds; their number is given.
    TooManyValues(usize),
}

/// Why an output stack is not the result of a transaction.
#[derive(Clone, Debug, PartialEq, Eq)]
pub enum TransactionOutputError {
    /// The stack is not laid out as the kernel leaves it; the text says how.
    OutputStackInvalid(String),
    /// The advice map holds nothing under the final account hash.
    FinalAccountHashMissingInAdviceMap,
    /// The output notes commit to something else than the stack says.
    OutputNotesCommitmentInconsistent { actual: Digest, expected: Digest },
}

/// The stack that results from pushing `values` in order and filling up
/// with zeros below: the last value is on top.
pub open spec fn pushed(values: Seq<u64>) -> Seq<u64> {
    Seq::new(
        MIN_STACK_DEPTH as nat,
        |i: int|
            if i < values.len() {
                values[values.len() - 1 - i]
            } else {
                0u64
            },
    )
}

/// The stack that holds `values` from the top down, filled up with zeros.
pub open spec fn padded(values: Seq<u64>) -> Seq<u64> {
    Seq::new(
        MIN_STACK_DEPTH as nat,
        |i: int|
            if i < values.len() {
                values[i]
            } else {
                0u64
            },
    )
}

/// The word that starts at position `idx` of the stack `s`.
pub open spec fn stack_word(s: Seq<u64>, idx: int) -> Digest {
    Digest { e0: s[idx + 3], e1: s[idx + 2], e2: s[idx + 1], e3: s[idx] }
}

/// The values pushed for the inputs of a transaction, first to last.
pub open spec fn input_values(
    account_id: AccountId,
    init_acct_hash: Digest,
    input_notes_hash: Digest,
    block_hash: Digest,
) -> Seq<u64> {
    input_notes_hash.elements() + init_acct_hash.elements() + seq![
        account_id.suffix,
        account_id.prefix,
    ] + block_hash.elements()
}

/// The output stack of a transaction, from the top down: the commitment to
/// the output notes, the final account hash, the expiration block number.
pub open spec fn output_stack(
    final_acct_hash: Digest,
    output_notes_hash: Digest,
    expiration_block_num: BlockNumber,
) -> Seq<u64> {
    padded(
        seq![
            output_notes_hash.e3,
            output_notes_hash.e2,
            output_notes_hash.e1,
            output_notes_hash.e0,
            final_acct_hash.e3,
            final_acct_hash.e2,
            final_acct_hash.e1,
            final_acct_hash.e0,
            expiration_block_num.0 as u64,
        ],
    )
}

/// The text of the failure for an expiration block number out of range.
pub open spec fn expiration_message() -> Seq<char> {
    "Expiration block number should be smaller than u32::MAX"@
}

/// The text of the failure for a fourth word that is not empty.
pub open spec fn fourth_word_message() -> Seq<char> {
    "Fourth word on output stack should consist only of ZEROs"@
}

impl TransactionOutputError {
    /// The text that says how the stack is wrong; empty for a failure that
    /// is not about the layout of the stack.
    pub open spec fn spec_message(&self) -> Seq<char> {
        match *self {
            TransactionOutputError::OutputStackInvalid(m) => m@,
            _ => Seq::empty(),
        }
    }
}

/// The public inputs of a program: the stack before execution.
#[derive(Clone, Debug, PartialEq, Eq)]
pub struct StackInputs {
    elements: Vec<Felt>,
}

impl View for StackInputs {
    type V = Seq<u64>;

    /// The elements from the top of the stack down.
    closed spec fn view(&self) -> Seq<u64> {
        self.elements@
    }
}

/// The public outputs of a program: the stack after execution.
#[derive(Clone, Debug, PartialEq, Eq)]
pub struct StackOutputs {
    elements: Vec<Felt>,
}

impl View for StackOutputs {
    type V = Seq<u64>;

    /// The elements from the top of the stack down.
    closed spec fn view(&self) -> Seq<u64> {
        self.elements@
    }
}

/// Fills a list of at most sixteen values up with zeros.
fn fill_up(values: Vec<Felt>) -> (r: Vec<Felt>)
    requires
        values@.len() <= MIN_STACK_DEPTH,
    ensures
        r@ == padded(values@),
{
    let mut r = values;
    while r.len() < MIN_STACK_DEPTH
        invariant
            values@.len() <= r@.len() <= MIN_STACK_DEPTH,
            forall|i: int| 0 <= i < values@.len() ==> r@[i] == values@[i],
            forall|i: int| values@.len() <= i < r@.len() ==> r@[i] == 0,
        decreases MIN_STACK_DEPTH - r@.len(),
    {
        r.push(ZERO);
    }
    assert(r@ =~= padded(values@));
    r
}

impl StackInputs {
    /// A stack always has sixteen elements.
    pub open spec fn wf(&self) -> bool {
        self@.len() == MIN_STACK_DEPTH
    }

    /// The stack that results from pushing `values` in order. Fails if
    /// there are more than sixteen.
    pub fn new(values: Vec<Felt>) -> (r: Result<Self, StackError>)
        ensures
            values@.len() <= MIN_STACK_DEPTH ==> r is Ok && r->Ok_0@ == pushed(values@)
                && r->Ok_0.wf(),
            values@.len() > MIN_STACK_DEPTH ==> r == Err::<Self, StackError>(
                StackError::TooManyValues(values@.len() as usize),
            ),
    {
        let n = values.len();
        if n > MIN_STACK_DEPTH {
            return Err(StackError::TooManyValues(n));
        }
        let mut reversed: Vec<Felt> = Vec::new();
        let mut i: usize = 0;
        while i < n
            invariant
                n == values@.len(),
                i <= n,
                reversed@.len() == i,
                forall|k: int| 0 <= k < i ==> reversed@[k] == values@[n - 1 - k],
            decreases n - i,
        {
            reversed.push(values[n - 1 - i]);
            i += 1;
        }
        let elements = fill_up(reversed);
        assert(elements@ =~= pushed(values@));
        Ok(StackInputs { elements })
    }

    /// The elements from the top of the stack down.
    pub fn elements(&self) -> (e: &[Felt])
        ensures
            e@ == self@,
    {
        self.elements.as_slice()
    }
}

impl StackOutputs {
    /// A stack always has sixteen elements.
    pub open spec fn wf(&self) -> bool {
        self@.len() == MIN_STACK_DEPTH
    }

    /// The stack that holds `stack` from the top down. Fails if there are
    /// more than sixteen elements.
    pub fn new(stack: Vec<Felt>) -> (r: Result<Self, StackError>)
        ensures
            stack@.len() <= MIN_STACK_DEPTH ==> r is Ok && r->Ok_0@ == padded(stack@)
                && r->Ok_0.wf(),
            stack@.len() > MIN_STACK_DEPTH ==> r == Err::<Self, StackError>(
                StackError::TooManyValues(stack@.len() as usize),
            ),
    {
        let n = stack.len();
        if n > MIN_STACK_DEPTH {
            return Err(StackError::TooManyValues(n));
        }
        let elements = fill_up(stack);
        Ok(StackOutputs { elements })
    }

    /// The elements from the top of the stack down.
    pub fn elements(&self) -> (e: &[Felt])
        ensures
            e@ == self@,
    {
        self.elements.as_slice()
    }

    /// The element at position `idx`, or `None` past the end of the stack.
    pub fn get_stack_item(&self, idx: usize) -> (r: Option<Felt>)
        ensures
            idx < self@.len() ==> r == Some(self@[idx as int]),
            idx >= self@.len() ==> r is None,
    {
        if idx < self.elements.len() {
            Some(self.elements[idx])
        } else {
            None
        }
    }

    /// The word that starts at position `idx`, or `None` if it would reach
    /// past the end of the stack.
    pub fn get_stack_word(&self, idx: usize) -> (r: Option<Digest>)
        ensures
            idx + 4 <= self@.len() ==> r == Some(stack_word(self@, idx as int)),
            idx + 4 > self@.len() ==> r is None,
    {
        if idx <= self.elements.len() && self.elements.len() - idx >= 4 {
            Some(
                Digest {
                    e0: self.elements[idx + 3],
                    e1: self.elements[idx + 2],
                    e2: self.elements[idx + 1],
                    e3: self.elements[idx],
                },
            )
        } else {
            None
        }
    }
}

/// What the output stack `s` yields: the final account hash, the commitment
/// to the output notes and the expiration block number, if the stack is
/// laid out as the kernel leaves it.
pub open spec fn parsed_outputs(s: Seq<u64>) -> Option<(Digest, Digest, BlockNumber)> {
    if s[EXPIRATION_BLOCK_ELEMENT_IDX as int] > u32::MAX || stack_word(s, 12) != (Digest {
        e0: 0,
        e1: 0,
        e2: 0,
        e3: 0,
    }) {
        None
    } else {
        Some(
            (
                stack_word(s, FINAL_ACCOUNT_HASH_WORD_IDX * 4),
                stack_word(s, OUTPUT_NOTES_COMMITMENT_WORD_IDX * 4),
                BlockNumber(s[EXPIRATION_BLOCK_ELEMENT_IDX as int] as u32),
            ),
        )
    }
}

/// The final account hash on the output stack `s`.
pub open spec fn read_account_hash(s: Seq<u64>) -> Digest {
    stack_word(s, FINAL_ACCOUNT_HASH_WORD_IDX * 4)
}

/// The commitment to the output notes on the output stack `s`.
pub open spec fn read_notes_commitment(s: Seq<u64>) -> Digest {
    stack_word(s, OUTPUT_NOTES_COMMITMENT_WORD_IDX * 4)
}

/// The expiration block number on the output stack `s`, if it is one.
pub open spec fn read_expiration(s: Seq<u64>) -> Option<BlockNumber> {
    if s[EXPIRATION_BLOCK_ELEMENT_IDX as int] <= u32::MAX {
        Some(BlockNumber(s[EXPIRATION_BLOCK_ELEMENT_IDX as int] as u32))
    } else {
        None
    }
}

/// The transaction kernel's view of a transaction's public data.
#[derive(Clone, Copy, Debug)]
pub struct TransactionKernel;

impl TransactionKernel {
    /// The stack with the public inputs of a transaction. From the top
    /// down: the hash of the reference block, the account, the account's
    /// initial state hash, the commitment to the input notes.
    pub fn build_input_stack(
        account_id: AccountId,
        init_acct_hash: Digest,
        input_notes_hash: Digest,
        block_hash: Digest,
    ) -> (stack: StackInputs)
        ensures
            stack.wf(),
            stack@ == pushed(input_values(account_id, init_acct_hash, input_notes_hash, block_hash)),
    {
        let mut inputs: Vec<Felt> = Vec::new();
        inputs.push(input_notes_hash.e0);
        inputs.push(input_notes_hash.e1);
        inputs.push(input_notes_hash.e2);
        inputs.push(input_notes_hash.e3);
        inputs.push(init_acct_hash.e0);
        inputs.push(init_acct_hash.e1);
        inputs.push(init_acct_hash.e2);
        inputs.push(init_acct_hash.e3);
        inputs.push(account_id.suffix);
        inputs.push(account_id.prefix);
        inputs.push(block_hash.e0);
        inputs.push(block_hash.e1);
        inputs.push(block_hash.e2);
        inputs.push(block_hash.e3);
        assert(inputs@ =~= input_values(account_id, init_acct_hash, input_notes_hash, block_hash));
        match StackInputs::new(inputs) {
            Ok(stack) => stack,
            Err(_) => vstd::pervasive::unreached(),
        }
    }

    /// The stack that a transaction with the given results leaves. From
    /// the top down: the commitment to the output notes, the final account
    /// hash, the expiration block number.
    pub fn build_output_stack(
        final_acct_hash: Digest,
        output_notes_hash: Digest,
        expiration_block_num: BlockNumber,
    ) -> (stack: StackOutputs)
        ensures
            stack.wf(),
            stack@ == output_stack(final_acct_hash, output_notes_hash, expiration_block_num),
    {
        let mut outputs: Vec<Felt> = Vec::new();
        outputs.push(output_notes_hash.e3);
        outputs.push(output_notes_hash.e2);
        outputs.push(output_notes_hash.e1);
        outputs.push(output_notes_hash.e0);
        outputs.push(final_acct_hash.e3);
        outputs.push(final_acct_hash.e2);
        outputs.push(final_acct_hash.e1);
        outputs.push(final_acct_hash.e0);
        outputs.push(expiration_block_num.0 as u64);
        assert(outputs@ =~= seq![
            output_notes_hash.e3,
            output_notes_hash.e2,
            output_notes_hash.e1,
            output_notes_hash.e0,
            final_acct_hash.e3,
            final_acct_hash.e2,
            final_acct_hash.e1,
            final_acct_hash.e0,
            expiration_block_num.0 as u64,
        ]);
        match StackOutputs::new(outputs) {
            Ok(stack) => stack,
            Err(_) => vstd::pervasive::unreached(),
        }
    }

    /// Reads the results of a transaction off its output stack: the final
    /// account hash, the commitment to the output notes and the expiration
    /// block number.
    ///
    /// Fails if the expiration block number does not fit into 32 bits, or
    /// else if the fourth word of the stack is not empty.
    pub fn parse_output_stack(stack: &StackOutputs) -> (r: Result<
        (Digest, Digest, BlockNumber),
        TransactionOutputError,
    >)
        requires
            stack.wf(),
        ensures
            match parsed_outputs(stack@) {
                Some(outputs) => r is Ok && r->Ok_0 == outputs,
                None => r is Err,
            },
            r is Err ==> r->Err_0 is OutputStackInvalid && r->Err_0.spec_message() == if stack@[EXPIRATION_BLOCK_ELEMENT_IDX as int]
                > u32::MAX {
                expiration_message()
            } else {
                fourth_word_message()
            },
    {
        let output_notes_hash = match stack.get_stack_word(OUTPUT_NOTES_COMMITMENT_WORD_IDX * 4) {
            Some(w) => w,
            None => vstd::pervasive::unreached(),
        };
        let final_account_hash = match stack.get_stack_word(FINAL_ACCOUNT_HASH_WORD_IDX * 4) {
            Some(w) => w,
            None => vstd::pervasive::unreached(),
        };
        let expiration = match stack.get_stack_item(EXPIRATION_BLOCK_ELEMENT_IDX) {
            Some(e) => e,
            None => vstd::pervasive::unreached(),
        };
        if expiration > 0xffff_ffff {
            return Err(
                TransactionOutputError::OutputStackInvalid(
                    String::from_str("Expiration block number should be smaller than u32::MAX"),
                ),
            );
        }
        let fourth = match stack.get_stack_word(12) {
            Some(w) => w,
            None => vstd::pervasive::unreached(),
        };
        if fourth != Digest::empty() {
            return Err(
                TransactionOutputError::OutputStackInvalid(
                    String::from_str("Fourth word on output stack should consist only of ZEROs"),
                ),
            );
        }
        Ok((final_account_hash, output_notes_hash, BlockNumber(expiration as u32)))
    }
}

/// What is built as an output stack is read back unchanged.
pub proof fn lemma_output_stack_round_trip(
    final_acct_hash: Digest,
    output_notes_hash: Digest,
    expiration_block_num: BlockNumber,
)
    ensures
        parsed_outputs(output_stack(final_acct_hash, output_notes_hash, expiration_block_num))
            == Some((final_acct_hash, output_notes_hash, expiration_block_num)),
{
}

/// The order of the base field: 2^64 - 2^32 + 1.
pub const FIELD_MODULUS: u64 = 0xffff_ffff_0000_0001;

/// The integer below the order of the field that stands for the same
/// element as `v`.
pub open spec fn canonical(v: u64) -> u64 {
    (v % FIELD_MODULUS) as u64
}

/// The key under which the advice map files data for the digest `d`.
pub open spec fn advice_key(d: Digest) -> Seq<u64> {
    seq![canonical(d.e0), canonical(d.e1), canonical(d.e2), canonical(d.e3)]
}

/// The virtual machine's advice map: lists of field elements filed under
/// digests.
#[verifier::external_type_specification]
#[verifier::external_body]
pub struct ExAdviceMap(miden_core::AdviceMap);

/// What an advice map holds: for each key, as four integers, the elements
/// filed under it, as integers.
pub uninterp spec fn advice_entries(map: miden_core::AdviceMap) -> Map<Seq<u64>, Seq<u64>>;

/// Calls `miden_core::AdviceMap::get` with the digest that the four
/// integers stand for. Trusted: the answer is what the map holds under that
/// digest, each element given as its integer, and nothing if the map holds
/// nothing there.
#[verifier::external_body]
fn advice_map_get(map: &miden_core::AdviceMap, key: Digest) -> (r: Option<Vec<Felt>>)
    ensures
        (r is Some) == advice_entries(*map).contains_key(advice_key(key)),
        r is Some ==> r->0@ == advice_entries(*map)[advice_key(key)],
{
    let digest = miden_core::crypto::hash::RpoDigest::from(
        [
            miden_core::Felt::new(key.e0),
            miden_core::Felt::new(key.e1),
            miden_core::Felt::new(key.e2),
            miden_core::Felt::new(key.e3),
        ],
    );
    map.get(&digest).map(|elements| elements.iter().map(|e| e.as_int()).collect())
}

/// What a transaction leaves behind, as far as the kernel reports it.
#[derive(Clone, Debug, PartialEq, Eq)]
pub struct TransactionOutputs {
    /// The data that describes the final state of the account.
    pub final_account_data: Vec<Felt>,
    /// The commitment to the output notes.
    pub output_notes_commitment: Digest,
    /// The block at which the transaction expires.
    pub expiration_block_num: BlockNumber,
}

impl TransactionKernel {
    /// Puts the results of a transaction together from what was read off the
    /// stack, what the advice map holds under the final account hash, and
    /// what the output notes commit to.
    ///
    /// Fails if the advice map holds nothing there, or else if the notes
    /// commit to something else than the stack says.
    pub fn outputs_from_parts(
        parsed: (Digest, Digest, BlockNumber),
        final_account_data: Option<Vec<Felt>>,
        actual_commitment: Digest,
    ) -> (r: Result<TransactionOutputs, TransactionOutputError>)
        ensures
            final_account_data is None ==> r == Err::<TransactionOutputs, TransactionOutputError>(
                TransactionOutputError::FinalAccountHashMissingInAdviceMap,
            ),
            final_account_data is Some && parsed.1 != actual_commitment ==> r == Err::<
                TransactionOutputs,
                TransactionOutputError,
            >(
                TransactionOutputError::OutputNotesCommitmentInconsistent {
                    actual: actual_commitment,
                    expected: parsed.1,
                },
            ),
            final_account_data is Some && parsed.1 == actual_commitment ==> r == Ok::<
                TransactionOutputs,
                TransactionOutputError,
            >(
                TransactionOutputs {
                    final_account_data: final_account_data->0,
                    output_notes_commitment: actual_commitment,
                    expiration_block_num: parsed.2,
                },
            ),
    {
        let (_, output_notes_hash, expiration_block_num) = parsed;
        let final_account_data = match final_account_data {
            Some(data) => data,
            None => {
                return Err(TransactionOutputError::FinalAccountHashMissingInAdviceMap);
            },
        };
        if output_notes_hash != actual_commitment {
            return Err(
                TransactionOutputError::OutputNotesCommitmentInconsistent {
                    actual: actual_commitment,
                    expected: output_notes_hash,
                },
            );
        }
        Ok(
            TransactionOutputs {
                final_account_data,
                output_notes_commitment: actual_commitment,
                expiration_block_num,
            },
        )
    }

    /// The results of a transaction, from its output stack, the advice map
    /// and the commitment of the notes that it created.
    ///
    /// The stack is read first; then the data of the final account is
    /// looked up in the advice map under the final account hash; then the
    /// commitment of the notes is held against the one on the stack. The
    /// first failure is returned.
    pub fn from_transaction_parts(
        stack: &StackOutputs,
        adv_map: &miden_core::AdviceMap,
        output_notes_commitment: Digest,
    ) -> (r: Result<TransactionOutputs, TransactionOutputError>)
        requires
            stack.wf(),
        ensures
            r is Ok <==> {
                &&& parsed_outputs(stack@) is Some
                &&& advice_entries(*adv_map).contains_key(advice_key(read_account_hash(stack@)))
                &&& read_notes_commitment(stack@) == output_notes_commitment
            },
            r is Ok ==> {
                &&& r->Ok_0.final_account_data@ == advice_entries(*adv_map)[advice_key(
                    read_account_hash(stack@),
                )]
                &&& r->Ok_0.output_notes_commitment == output_notes_commitment
                &&& Some(r->Ok_0.expiration_block_num) == read_expiration(stack@)
            },
            parsed_outputs(stack@) is None ==> r is Err && r->Err_0 is OutputStackInvalid
                && r->Err_0.spec_message() == if stack@[EXPIRATION_BLOCK_ELEMENT_IDX as int]
                > u32::MAX {
                expiration_message()
            } else {
                fourth_word_message()
            },
            parsed_outputs(stack@) is Some && !advice_entries(*adv_map).contains_key(
                advice_key(read_account_hash(stack@)),
            ) ==> r == Err::<TransactionOutputs, TransactionOutputError>(
                TransactionOutputError::FinalAccountHashMissingInAdviceMap,
            ),
            parsed_outputs(stack@) is Some && advice_entries(*adv_map).contains_key(
                advice_key(read_account_hash(stack@)),
            ) && read_notes_commitment(stack@) != output_notes_commitment ==> r == Err::<
                TransactionOutputs,
                TransactionOutputError,
            >(
                TransactionOutputError::OutputNotesCommitmentInconsistent {
                    actual: output_notes_commitment,
                    expected: read_notes_commitment(stack@),
                },
            ),
    {
        let parsed = match Self::parse_output_stack(stack) {
            Ok(parsed) => parsed,
            Err(e) => {
                return Err(e);
            },
        };
        let final_account_data = advice_map_get(adv_map, parsed.0);
        Self::outputs_from_parts(parsed, final_account_data, output_notes_commitment)
    }
}

/// The elements of `values` as the integers below the order of the field.
pub open spec fn canonical_elements(values: Seq<u64>) -> Seq<u64> {
    Seq::new(values.len(), |i: int| canonical(values[i]))
}

/// Calls `miden_core::AdviceMap::insert` with the digest and the field
/// elements that the integers stand for. Trusted: afterwards the map holds
/// the elements under that digest, in place of what it held there, and is
/// otherwise as before.
#[verifier::external_body]
fn advice_map_insert(map: &mut miden_core::AdviceMap, key: Digest, values: Vec<Felt>)
    ensures
        advice_entries(*final(map)) == advice_entries(*old(map)).insert(
            advice_key(key),
            canonical_elements(values@),
        ),
{
    let digest = miden_core::crypto::hash::RpoDigest::from(
        [
            miden_core::Felt::new(key.e0),
            miden_core::Felt::new(key.e1),
            miden_core::Felt::new(key.e2),
            miden_core::Felt::new(key.e3),
        ],
    );
    map.insert(digest, values.iter().map(|v| miden_core::Felt::new(*v)).collect());
}

/// What the kernel needs to know of an account that a transaction touches:
/// its identifier, the hash of its header, the commitments to its storage
/// and its code, and the elements that its header, its storage header and
/// its code consist of.
#[derive(Clone, Debug, PartialEq, Eq)]
pub struct AccountAdvice {
    pub id: AccountId,
    pub hash: Digest,
    pub storage_commitment: Digest,
    pub code_commitment: Digest,
    pub header_elements: Vec<Felt>,
    pub storage_elements: Vec<Felt>,
    pub code_elements: Vec<Felt>,
}

/// The key under which the kernel looks up the header of an account: the
/// two elements of its identifier, suffix first, followed by two zeros.
pub open spec fn account_key(id: AccountId) -> Digest {
    Digest { e0: id.suffix, e1: id.prefix, e2: 0, e3: 0 }
}

/// The advice map after the data of `account` has been filed: the header
/// under the account's key, then the storage header under the storage
/// commitment, then the code under the code commitment.
pub open spec fn with_account_advice(
    entries: Map<Seq<u64>, Seq<u64>>,
    account: AccountAdvice,
) -> Map<Seq<u64>, Seq<u64>> {
    entries.insert(
        advice_key(account_key(account.id)),
        canonical_elements(account.header_elements@),
    ).insert(
        advice_key(account.storage_commitment),
        canonical_elements(account.storage_elements@),
    ).insert(advice_key(account.code_commitment), canonical_elements(account.code_elements@))
}

/// The place of an account in the account tree: its prefix, as the integer
/// below the order of the field.
pub open spec fn account_index(id: AccountId) -> u64 {
    canonical(id.prefix)
}

impl TransactionKernel {
    /// Extends the advice inputs with the data of an account and with the
    /// proof that the account is in the account tree.
    ///
    /// First the advice map receives the account's header, its storage
    /// header and its code, each under the key by which the kernel asks for
    /// it. Then the inner nodes on the way from the account's hash up the
    /// `merkle_path` are filed in the store. The place of the account in
    /// the tree is its prefix; if the path is too short for that place, the
    /// store is left as it was and the error is returned, the advice map
    /// being extended all the same.
    pub fn extend_advice_inputs_for_account(
        advice_map: &mut miden_core::AdviceMap,
        merkle_store: &mut MerkleStore,
        account: AccountAdvice,
        merkle_path: &Vec<Digest>,
    ) -> (r: Result<(), MerkleFailure>)
        requires
            merkle_path@.len() <= MAX_PATH_DEPTH,
        ensures
            advice_entries(*final(advice_map)) == with_account_advice(
                advice_entries(*old(advice_map)),
                account,
            ),
            index_fits(merkle_path@.len(), account_index(account.id)) ==> {
                &&& r is Ok
                &&& store_nodes(*final(merkle_store)) == with_nodes(
                    store_nodes(*old(merkle_store)),
                    path_nodes(
                        digest_elements(merkle_path@),
                        account_index(account.id),
                        account.hash.elements(),
                    ),
                )
            },
            !index_fits(merkle_path@.len(), account_index(account.id)) ==> {
                &&& r == Err::<(), MerkleFailure>(
                    MerkleFailure::InvalidNodeIndex {
                        depth: merkle_path@.len() as u8,
                        value: account_index(account.id),
                    },
                )
                &&& store_nodes(*final(merkle_store)) == store_nodes(*old(merkle_store))
            },
    {
        let id = account.id;
        let hash = account.hash;
        let key = Digest { e0: id.suffix, e1: id.prefix, e2: ZERO, e3: ZERO };
        advice_map_insert(advice_map, key, account.header_elements);
        advice_map_insert(advice_map, account.storage_commitment, account.storage_elements);
        advice_map_insert(advice_map, account.code_commitment, account.code_elements);
        let index = id.prefix % FIELD_MODULUS;
        match inner_nodes_of_path(merkle_path, index, hash) {
            Ok(nodes) => {
                merkle_store.extend(nodes);
                Ok(())
            },
            Err(e) => Err(e),
        }
    }
}

/// The entries of an advice map that holds nothing.
pub open spec fn no_advice() -> Map<Seq<u64>, Seq<u64>> {
    Map::empty()
}

/// Calls `miden_core::AdviceMap::new`. Trusted: the map that it gives holds
/// nothing.
#[verifier::external_body]
fn advice_map_new() -> (map: miden_core::AdviceMap)
    ensures
        advice_entries(map) == no_advice(),
{
    miden_core::AdviceMap::new()
}

/// What the kernel is told of a transaction before it runs: the account
/// that the transaction is executed against with its state hash before the
/// transaction, the commitment to the input notes, and the hash of the
/// reference block.
#[derive(Clone, Copy, Debug, PartialEq, Eq, Structural)]
pub struct TransactionInputs {
    pub account_id: AccountId,
    pub init_account_hash: Digest,
    pub input_notes_commitment: Digest,
    pub block_hash: Digest,
}

impl TransactionKernel {
    /// The stack and the advice map with which the kernel starts on a
    /// transaction: the stack with the public inputs, and the advice map
    /// that was handed in, or an empty one if none was. The map is handed
    /// back as it came; the caller files the data of the transaction in it,
    /// for an account with [`Self::extend_advice_inputs_for_account`].
    pub fn prepare_inputs(
        tx_inputs: &TransactionInputs,
        init_advice_map: Option<miden_core::AdviceMap>,
    ) -> (r: (StackInputs, miden_core::AdviceMap))
        ensures
            r.0.wf(),
            r.0@ == pushed(
                input_values(
                    tx_inputs.account_id,
                    tx_inputs.init_account_hash,
                    tx_inputs.input_notes_commitment,
                    tx_inputs.block_hash,
                ),
            ),
            advice_entries(r.1) == match init_advice_map {
                Some(map) => advice_entries(map),
                None => no_advice(),
            },
    {
        let stack_inputs = Self::build_input_stack(
            tx_inputs.account_id,
            tx_inputs.init_account_hash,
            tx_inputs.input_notes_commitment,
            tx_inputs.block_hash,
        );
        let advice_map = match init_advice_map {
            Some(map) => map,
            None => advice_map_new(),
        };
        (stack_inputs, advice_map)
    }
}

} // verus!
