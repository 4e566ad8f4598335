//! The byte format of account updates and blocks.
//!
//! Integers are written as eight bytes, least significant first. A digest
//! is its four elements in order. A list is its length followed by its
//! items. What is written can be read back, and what is read back was
//! written: reading is specified as a function on the bytes, and the laws
//! at the end of each part say that it undoes writing.

use crate::block::note_seqs;
use crate::block::rejected_for;
use crate::block::update_views;
use crate::block::valid_notes;
use crate::block::AccountId;
use crate::block::AccountUpdateDetails;
use crate::block::Block;
use crate::block::BlockAccountUpdate;
use crate::block::BlockError;
use crate::block::BlockHeader;
use crate::block::BlockView;
use crate::block::DetailsView;
use crate::block::NoteBatch;
use crate::block::NoteId;
use crate::block::NoteMetadata;
use crate::block::Nullifier;
use crate::block::OutputNote;
use crate::block::TransactionId;
use crate::block::UpdateView;
use crate::crypto::Digest;
use vstd::bytes::lemma_auto_spec_u64_to_from_le_bytes;
use vstd::bytes::spec_u64_from_le_bytes;
use vstd::bytes::spec_u64_to_le_bytes;
use vstd::bytes::u64_from_le_bytes;
use vstd::bytes::u64_to_le_bytes;
use vstd::prelude::*;
use vstd::slice::slice_subrange;
use vstd::slice::slice_to_vec;

verus! {

/// Why bytes cannot be read back.
#[derive(Clone, Copy, Debug, PartialEq, Eq, Structural)]
pub enum WireError {
    /// The bytes end before the value does.
    UnexpectedEof,
    /// The tag of the account update details, given here, is unknown.
    UnknownTag(u8),
    /// Bytes are left over after the value.
    TrailingBytes,
    /// The block number, given here, does not fit into 32 bits.
    BlockNumberOutOfRange(u64),
    /// The components do not make a block, for the reason given here.
    InvalidBlock(BlockError),
}

/// The bytes of an integer.
pub open spec fn enc_u64(v: u64) -> Seq<u8> {
    spec_u64_to_le_bytes(v)
}

/// The bytes of a digest.
pub open spec fn enc_digest(d: Digest) -> Seq<u8> {
    enc_u64(d.e0) + enc_u64(d.e1) + enc_u64(d.e2) + enc_u64(d.e3)
}

/// The bytes of the digests in order, without their number.
pub open spec fn enc_digests(s: Seq<Digest>) -> Seq<u8>
    decreases s.len(),
{
    if s.len() == 0 {
        Seq::empty()
    } else {
        enc_digests(s.drop_last()) + enc_digest(s.last())
    }
}

/// The bytes of a byte string: its length, then the bytes.
pub open spec fn enc_bytes(b: Seq<u8>) -> Seq<u8> {
    enc_u64(b.len() as u64) + b
}

/// The bytes of account update details: a tag, then the data if any.
pub open spec fn enc_details(d: DetailsView) -> Seq<u8> {
    match d {
        DetailsView::Private => seq![0u8],
        DetailsView::New(account) => seq![1u8] + enc_bytes(account),
        DetailsView::Delta(delta) => seq![2u8] + enc_bytes(delta),
    }
}

/// The digests of the transaction identifiers in order.
pub open spec fn tx_digests(s: Seq<TransactionId>) -> Seq<Digest> {
    Seq::new(s.len(), |i: int| s[i].0)
}

/// The bytes of an account update: the account, the new state hash, the
/// details, the number of transactions, the transactions.
pub open spec fn enc_update(u: UpdateView) -> Seq<u8> {
    enc_u64(u.account_id.0) + enc_digest(u.new_state_hash) + enc_details(u.details) + enc_u64(
        u.transactions.len() as u64,
    ) + enc_digests(tx_digests(u.transactions))
}

/// The integer written at position `p` of `b`.
pub open spec fn u64_at(b: Seq<u8>, p: int) -> u64 {
    spec_u64_from_le_bytes(b.subrange(p, p + 8))
}

/// The digest written at position `p` of `b`.
pub open spec fn digest_at(b: Seq<u8>, p: int) -> Digest {
    Digest {
        e0: u64_at(b, p),
        e1: u64_at(b, p + 8),
        e2: u64_at(b, p + 16),
        e3: u64_at(b, p + 24),
    }
}

/// Reads an integer at position `p`: the value and the position after it.
pub open spec fn dec_u64(b: Seq<u8>, p: int) -> Result<(u64, int), WireError> {
    if p + 8 <= b.len() {
        Ok((u64_at(b, p), p + 8))
    } else {
        Err(WireError::UnexpectedEof)
    }
}

/// Reads a digest at position `p`.
pub open spec fn dec_digest(b: Seq<u8>, p: int) -> Result<(Digest, int), WireError> {
    if p + 32 <= b.len() {
        Ok((digest_at(b, p), p + 32))
    } else {
        Err(WireError::UnexpectedEof)
    }
}

/// Reads `n` digests at position `p`.
pub open spec fn dec_digests(b: Seq<u8>, p: int, n: int) -> Result<(Seq<Digest>, int), WireError> {
    if p + 32 * n <= b.len() {
        Ok((Seq::new(n as nat, |i: int| digest_at(b, p + 32 * i)), p + 32 * n))
    } else {
        Err(WireError::UnexpectedEof)
    }
}

/// Reads a byte string at position `p`.
pub open spec fn dec_bytes(b: Seq<u8>, p: int) -> Result<(Seq<u8>, int), WireError> {
    match dec_u64(b, p) {
        Err(e) => Err(e),
        Ok((n, q)) => if q + n <= b.len() {
            Ok((b.subrange(q, q + n), q + n))
        } else {
            Err(WireError::UnexpectedEof)
        },
    }
}

/// Reads account update details at position `p`.
pub open spec fn dec_details(b: Seq<u8>, p: int) -> Result<(DetailsView, int), WireError> {
    if p >= b.len() {
        Err(WireError::UnexpectedEof)
    } else if b[p] == 0 {
        Ok((DetailsView::Private, p + 1))
    } else if b[p] == 1 {
        match dec_bytes(b, p + 1) {
            Err(e) => Err(e),
            Ok((account, q)) => Ok((DetailsView::New(account), q)),
        }
    } else if b[p] == 2 {
        match dec_bytes(b, p + 1) {
            Err(e) => Err(e),
            Ok((delta, q)) => Ok((DetailsView::Delta(delta), q)),
        }
    } else {
        Err(WireError::UnknownTag(b[p]))
    }
}

/// The transaction identifiers with the given digests.
pub open spec fn tx_ids(s: Seq<Digest>) -> Seq<TransactionId> {
    Seq::new(s.len(), |i: int| TransactionId(s[i]))
}

/// Reads an account update at position `p`.
pub open spec fn dec_update(b: Seq<u8>, p: int) -> Result<(UpdateView, int), WireError> {
    match dec_u64(b, p) {
        Err(e) => Err(e),
        Ok((account, at1)) => match dec_digest(b, at1) {
            Err(e) => Err(e),
            Ok((new_state_hash, at2)) => match dec_details(b, at2) {
                Err(e) => Err(e),
                Ok((details, at3)) => match dec_u64(b, at3) {
                    Err(e) => Err(e),
                    Ok((count, at4)) => match dec_digests(b, at4, count as int) {
                        Err(e) => Err(e),
                        Ok((digests, at5)) => Ok(
                            (
                                UpdateView {
                                    account_id: AccountId(account),
                                    new_state_hash,
                                    details,
                                    transactions: tx_ids(digests),
                                },
                                at5,
                            ),
                        ),
                    },
                },
            },
        },
    }
}

/// Appends the bytes of an integer.
pub fn write_u64(out: &mut Vec<u8>, v: u64)
    ensures
        final(out)@ == old(out)@ + enc_u64(v),
{
    let mut bytes = u64_to_le_bytes(v);
    out.append(&mut bytes);
}

/// Appends the bytes of a digest.
pub fn write_digest(out: &mut Vec<u8>, d: &Digest)
    ensures
        final(out)@ == old(out)@ + enc_digest(*d),
{
    write_u64(out, d.e0);
    write_u64(out, d.e1);
    write_u64(out, d.e2);
    write_u64(out, d.e3);
    assert(out@ =~= old(out)@ + enc_digest(*d));
}

/// Appends a byte string: its length, then the bytes.
pub fn write_bytes(out: &mut Vec<u8>, bytes: &Vec<u8>)
    ensures
        final(out)@ == old(out)@ + enc_bytes(bytes@),
{
    write_u64(out, bytes.len() as u64);
    let ghost start = out@;
    let mut i: usize = 0;
    while i < bytes.len()
        invariant
            i <= bytes@.len(),
            out@ == start + bytes@.take(i as int),
        decreases bytes@.len() - i,
    {
        out.push(bytes[i]);
        assert(bytes@.take(i + 1) =~= bytes@.take(i as int).push(bytes@[i as int]));
        assert(out@ =~= start + bytes@.take(i + 1));
        i += 1;
    }
    assert(bytes@.take(bytes@.len() as int) =~= bytes@);
    assert(out@ =~= old(out)@ + enc_bytes(bytes@));
}

/// Appends the bytes of account update details.
pub fn write_details(out: &mut Vec<u8>, details: &AccountUpdateDetails)
    ensures
        final(out)@ == old(out)@ + enc_details(details@),
{
    match details {
        AccountUpdateDetails::Private => {
            out.push(0);
            assert(out@ =~= old(out)@ + seq![0u8]);
        },
        AccountUpdateDetails::New(account) => {
            out.push(1);
            write_bytes(out, account);
            assert(out@ =~= old(out)@ + (seq![1u8] + enc_bytes(account@)));
        },
        AccountUpdateDetails::Delta(delta) => {
            out.push(2);
            write_bytes(out, delta);
            assert(out@ =~= old(out)@ + (seq![2u8] + enc_bytes(delta@)));
        },
    }
}

/// Appends the bytes of an account update.
pub fn write_update(out: &mut Vec<u8>, update: &BlockAccountUpdate)
    ensures
        final(out)@ == old(out)@ + enc_update(update@),
{
    write_u64(out, update.account_id().0);
    write_digest(out, &update.new_state_hash());
    write_details(out, update.details());
    let transactions = update.transactions();
    write_u64(out, transactions.len() as u64);
    let ghost start = out@;
    let ghost digests = tx_digests(transactions@);
    let mut i: usize = 0;
    while i < transactions.len()
        invariant
            i <= transactions@.len(),
            digests == tx_digests(transactions@),
            out@ == start + enc_digests(digests.take(i as int)),
        decreases transactions@.len() - i,
    {
        write_digest(out, &transactions[i].0);
        proof {
            assert(digests.take(i + 1).drop_last() =~= digests.take(i as int));
            assert(digests.take(i + 1).last() == transactions@[i as int].0);
            assert(out@ =~= start + enc_digests(digests.take(i + 1)));
        }
        i += 1;
    }
    proof {
        assert(digests.take(transactions@.len() as int) =~= digests);
        assert(out@ =~= old(out)@ + enc_update(update@));
    }
}

/// Reads an integer at position `pos`.
pub fn read_u64(bytes: &[u8], pos: usize) -> (r: Result<(u64, usize), WireError>)
    requires
        pos <= bytes@.len(),
    ensures
        match dec_u64(bytes@, pos as int) {
            Ok((v, q)) => r is Ok && r->Ok_0.0 == v && r->Ok_0.1 == q && q <= bytes@.len(),
            Err(e) => r is Err && r->Err_0 == e,
        },
{
    if bytes.len() - pos < 8 {
        return Err(WireError::UnexpectedEof);
    }
    let v = u64_from_le_bytes(slice_subrange(bytes, pos, pos + 8));
    Ok((v, pos + 8))
}

/// Reads a digest at position `pos`.
pub fn read_digest(bytes: &[u8], pos: usize) -> (r: Result<(Digest, usize), WireError>)
    requires
        pos <= bytes@.len(),
    ensures
        match dec_digest(bytes@, pos as int) {
            Ok((d, q)) => r is Ok && r->Ok_0.0 == d && r->Ok_0.1 == q && q <= bytes@.len(),
            Err(e) => r is Err && r->Err_0 == e,
        },
{
    if bytes.len() - pos < 32 {
        return Err(WireError::UnexpectedEof);
    }
    let e0 = u64_from_le_bytes(slice_subrange(bytes, pos, pos + 8));
    let e1 = u64_from_le_bytes(slice_subrange(bytes, pos + 8, pos + 16));
    let e2 = u64_from_le_bytes(slice_subrange(bytes, pos + 16, pos + 24));
    let e3 = u64_from_le_bytes(slice_subrange(bytes, pos + 24, pos + 32));
    Ok((Digest { e0, e1, e2, e3 }, pos + 32))
}

/// Reads a byte string at position `pos`.
pub fn read_bytes(bytes: &[u8], pos: usize) -> (r: Result<(Vec<u8>, usize), WireError>)
    requires
        pos <= bytes@.len(),
    ensures
        match dec_bytes(bytes@, pos as int) {
            Ok((v, q)) => r is Ok && r->Ok_0.0@ == v && r->Ok_0.1 == q && q <= bytes@.len(),
            Err(e) => r is Err && r->Err_0 == e,
        },
{
    let (n, q) = match read_u64(bytes, pos) {
        Ok(x) => x,
        Err(e) => {
            return Err(e);
        },
    };
    if n > (bytes.len() - q) as u64 {
        return Err(WireError::UnexpectedEof);
    }
    let n = n as usize;
    let v = slice_to_vec(slice_subrange(bytes, q, q + n));
    Ok((v, q + n))
}

/// Reads account update details at position `pos`.
pub fn read_details(bytes: &[u8], pos: usize) -> (r: Result<
    (AccountUpdateDetails, usize),
    WireError,
>)
    requires
        pos <= bytes@.len(),
    ensures
        match dec_details(bytes@, pos as int) {
            Ok((v, q)) => r is Ok && r->Ok_0.0@ == v && r->Ok_0.1 == q && q <= bytes@.len(),
            Err(e) => r is Err && r->Err_0 == e,
        },
{
    if pos >= bytes.len() {
        return Err(WireError::UnexpectedEof);
    }
    let tag = bytes[pos];
    if tag == 0 {
        Ok((AccountUpdateDetails::Private, pos + 1))
    } else if tag == 1 {
        match read_bytes(bytes, pos + 1) {
            Ok((account, q)) => Ok((AccountUpdateDetails::New(account), q)),
            Err(e) => Err(e),
        }
    } else if tag == 2 {
        match read_bytes(bytes, pos + 1) {
            Ok((delta, q)) => Ok((AccountUpdateDetails::Delta(delta), q)),
            Err(e) => Err(e),
        }
    } else {
        Err(WireError::UnknownTag(tag))
    }
}

/// Reads `n` digests at position `pos`.
pub fn read_digests(bytes: &[u8], pos: usize, n: u64) -> (r: Result<(Vec<Digest>, usize), WireError>)
    requires
        pos <= bytes@.len(),
    ensures
        match dec_digests(bytes@, pos as int, n as int) {
            Ok((v, q)) => r is Ok && r->Ok_0.0@ == v && r->Ok_0.1 == q && q <= bytes@.len(),
            Err(e) => r is Err && r->Err_0 == e,
        },
{
    if n > ((bytes.len() - pos) / 32) as u64 {
        return Err(WireError::UnexpectedEof);
    }
    let n = n as usize;
    let mut digests: Vec<Digest> = Vec::new();
    let mut i: usize = 0;
    while i < n
        invariant
            pos + 32 * n <= bytes@.len(),
            bytes@.len() <= usize::MAX,
            i <= n,
            digests@.len() == i,
            forall|k: int| 0 <= k < i ==> digests@[k] == digest_at(bytes@, pos + 32 * k),
        decreases n - i,
    {
        match read_digest(bytes, pos + 32 * i) {
            Ok((d, _)) => digests.push(d),
            Err(_) => {
                assert(false);
            },
        }
        i += 1;
    }
    assert(digests@ =~= Seq::new(n as nat, |i: int| digest_at(bytes@, pos + 32 * i)));
    Ok((digests, pos + 32 * n))
}

/// Reads an account update at position `pos`.
pub fn read_update(bytes: &[u8], pos: usize) -> (r: Result<(BlockAccountUpdate, usize), WireError>)
    requires
        pos <= bytes@.len(),
    ensures
        match dec_update(bytes@, pos as int) {
            Ok((v, q)) => r is Ok && r->Ok_0.0@ == v && r->Ok_0.1 == q && q <= bytes@.len(),
            Err(e) => r is Err && r->Err_0 == e,
        },
{
    let (account, at1) = match read_u64(bytes, pos) {
        Ok(x) => x,
        Err(e) => {
            return Err(e);
        },
    };
    let (new_state_hash, at2) = match read_digest(bytes, at1) {
        Ok(x) => x,
        Err(e) => {
            return Err(e);
        },
    };
    let (details, at3) = match read_details(bytes, at2) {
        Ok(x) => x,
        Err(e) => {
            return Err(e);
        },
    };
    let (count, at4) = match read_u64(bytes, at3) {
        Ok(x) => x,
        Err(e) => {
            return Err(e);
        },
    };
    let (digests, at5) = match read_digests(bytes, at4, count) {
        Ok(x) => x,
        Err(e) => {
            return Err(e);
        },
    };
    let mut transactions: Vec<TransactionId> = Vec::new();
    let mut i: usize = 0;
    while i < digests.len()
        invariant
            i <= digests@.len(),
            transactions@.len() == i,
            forall|k: int| 0 <= k < i ==> transactions@[k] == TransactionId(digests@[k]),
        decreases digests@.len() - i,
    {
        transactions.push(TransactionId(digests[i]));
        i += 1;
    }
    assert(transactions@ =~= tx_ids(digests@));
    let update = BlockAccountUpdate::new(AccountId(account), new_state_hash, details, transactions);
    Ok((update, at5))
}

/// Whether the bytes `e` stand at position `p` of `b`.
pub open spec fn holds(b: Seq<u8>, p: int, e: Seq<u8>) -> bool {
    0 <= p && p + e.len() <= b.len() && b.subrange(p, p + e.len()) == e
}

/// Where two byte strings stand one after the other, each stands by itself.
pub proof fn lemma_holds_split(b: Seq<u8>, p: int, x: Seq<u8>, y: Seq<u8>)
    requires
        holds(b, p, x + y),
    ensures
        holds(b, p, x),
        holds(b, p + x.len(), y),
{
    let w = b.subrange(p, p + (x + y).len());
    assert(b.subrange(p, p + x.len()) =~= w.subrange(0, x.len() as int));
    assert((x + y).subrange(0, x.len() as int) =~= x);
    assert(b.subrange(p + x.len(), p + x.len() + y.len()) =~= w.subrange(
        x.len() as int,
        (x + y).len() as int,
    ));
    assert((x + y).subrange(x.len() as int, (x + y).len() as int) =~= y);
}

/// An integer is eight bytes, and is read back from them.
pub proof fn lemma_u64_read_back(b: Seq<u8>, p: int, v: u64)
    requires
        holds(b, p, enc_u64(v)),
    ensures
        enc_u64(v).len() == 8,
        dec_u64(b, p) == Ok::<(u64, int), WireError>((v, p + 8)),
{
    lemma_auto_spec_u64_to_from_le_bytes();
}

/// A digest is thirty-two bytes, and is read back from them.
pub proof fn lemma_digest_read_back(b: Seq<u8>, p: int, d: Digest)
    requires
        holds(b, p, enc_digest(d)),
    ensures
        enc_digest(d).len() == 32,
        dec_digest(b, p) == Ok::<(Digest, int), WireError>((d, p + 32)),
{
    lemma_auto_spec_u64_to_from_le_bytes();
    let x = enc_u64(d.e0) + enc_u64(d.e1) + enc_u64(d.e2);
    lemma_holds_split(b, p, x, enc_u64(d.e3));
    let y = enc_u64(d.e0) + enc_u64(d.e1);
    lemma_holds_split(b, p, y, enc_u64(d.e2));
    lemma_holds_split(b, p, enc_u64(d.e0), enc_u64(d.e1));
}

/// The digests of a list take thirty-two bytes each.
pub proof fn lemma_digests_len(s: Seq<Digest>)
    ensures
        enc_digests(s).len() == 32 * s.len(),
    decreases s.len(),
{
    lemma_auto_spec_u64_to_from_le_bytes();
    if s.len() > 0 {
        lemma_digests_len(s.drop_last());
    }
}

/// Each digest of a list stands at its place among the bytes of the list.
pub proof fn lemma_digests_item(s: Seq<Digest>, i: int)
    requires
        0 <= i < s.len(),
    ensures
        holds(enc_digests(s), 32 * i, enc_digest(s[i])),
    decreases s.len(),
{
    lemma_auto_spec_u64_to_from_le_bytes();
    lemma_digests_len(s);
    lemma_digests_len(s.drop_last());
    let front = enc_digests(s.drop_last());
    let all = enc_digests(s);
    if i == s.len() - 1 {
        assert(all.subrange(32 * i, 32 * i + 32) =~= enc_digest(s.last()));
    } else {
        lemma_digests_item(s.drop_last(), i);
        assert(all.subrange(32 * i, 32 * i + 32) =~= front.subrange(32 * i, 32 * i + 32));
    }
}

/// A list of digests is read back from its bytes.
pub proof fn lemma_digests_read_back(b: Seq<u8>, p: int, s: Seq<Digest>)
    requires
        holds(b, p, enc_digests(s)),
    ensures
        enc_digests(s).len() == 32 * s.len(),
        dec_digests(b, p, s.len() as int) == Ok::<(Seq<Digest>, int), WireError>(
            (s, p + 32 * s.len()),
        ),
{
    lemma_digests_len(s);
    let read = Seq::new(s.len(), |i: int| digest_at(b, p + 32 * i));
    assert forall|i: int| 0 <= i < s.len() implies read[i] == s[i] by {
        lemma_digests_item(s, i);
        let e = enc_digest(s[i]);
        lemma_auto_spec_u64_to_from_le_bytes();
        assert(b.subrange(p + 32 * i, p + 32 * i + 32) =~= enc_digests(s).subrange(
            32 * i,
            32 * i + 32,
        ));
        assert(holds(b, p + 32 * i, e));
        lemma_digest_read_back(b, p + 32 * i, s[i]);
    }
    assert(read =~= s);
}

/// A byte string is read back from its bytes.
pub proof fn lemma_bytes_read_back(b: Seq<u8>, p: int, x: Seq<u8>)
    requires
        x.len() <= u64::MAX,
        holds(b, p, enc_bytes(x)),
    ensures
        enc_bytes(x).len() == 8 + x.len(),
        dec_bytes(b, p) == Ok::<(Seq<u8>, int), WireError>((x, p + 8 + x.len())),
{
    lemma_auto_spec_u64_to_from_le_bytes();
    lemma_holds_split(b, p, enc_u64(x.len() as u64), x);
    lemma_u64_read_back(b, p, x.len() as u64);
}

/// Account update details are read back from their bytes.
pub proof fn lemma_details_read_back(b: Seq<u8>, p: int, d: DetailsView)
    requires
        d matches DetailsView::New(x) ==> x.len() <= u64::MAX,
        d matches DetailsView::Delta(x) ==> x.len() <= u64::MAX,
        holds(b, p, enc_details(d)),
    ensures
        dec_details(b, p) == Ok::<(DetailsView, int), WireError>((d, p + enc_details(d).len())),
{
    match d {
        DetailsView::Private => {
            assert(b.subrange(p, p + 1)[0] == b[p]);
        },
        DetailsView::New(x) => {
            lemma_holds_split(b, p, seq![1u8], enc_bytes(x));
            assert(b.subrange(p, p + 1)[0] == b[p]);
            lemma_bytes_read_back(b, p + 1, x);
        },
        DetailsView::Delta(x) => {
            lemma_holds_split(b, p, seq![2u8], enc_bytes(x));
            assert(b.subrange(p, p + 1)[0] == b[p]);
            lemma_bytes_read_back(b, p + 1, x);
        },
    }
}

/// Whether the lists of an account update are short enough for their
/// lengths to be written.
pub open spec fn update_fits(u: UpdateView) -> bool {
    &&& u.transactions.len() <= u64::MAX
    &&& u.details matches DetailsView::New(x) ==> x.len() <= u64::MAX
    &&& u.details matches DetailsView::Delta(x) ==> x.len() <= u64::MAX
}

/// An account update is read back from its bytes, wherever they stand.
pub proof fn lemma_update_read_back(b: Seq<u8>, p: int, u: UpdateView)
    requires
        update_fits(u),
        holds(b, p, enc_update(u)),
    ensures
        dec_update(b, p) == Ok::<(UpdateView, int), WireError>((u, p + enc_update(u).len())),
{
    lemma_auto_spec_u64_to_from_le_bytes();
    let a = enc_u64(u.account_id.0);
    let h = enc_digest(u.new_state_hash);
    let d = enc_details(u.details);
    let n = enc_u64(u.transactions.len() as u64);
    let t = enc_digests(tx_digests(u.transactions));
    lemma_holds_split(b, p, a + h + d + n, t);
    lemma_holds_split(b, p, a + h + d, n);
    lemma_holds_split(b, p, a + h, d);
    lemma_holds_split(b, p, a, h);
    lemma_u64_read_back(b, p, u.account_id.0);
    lemma_digest_read_back(b, p + 8, u.new_state_hash);
    lemma_details_read_back(b, p + 40, u.details);
    lemma_u64_read_back(b, p + 40 + d.len(), u.transactions.len() as u64);
    lemma_digests_read_back(b, p + 48 + d.len(), tx_digests(u.transactions));
    assert(tx_ids(tx_digests(u.transactions)) =~= u.transactions);
}

impl BlockAccountUpdate {
    /// Appends the bytes of the update to `target`.
    pub fn write_into(&self, target: &mut Vec<u8>)
        ensures
            final(target)@ == old(target)@ + enc_update(self@),
    {
        write_update(target, self);
    }

    /// The bytes of the update, from which the same update is read back.
    pub fn to_bytes(&self) -> (bytes: Vec<u8>)
        ensures
            bytes@ == enc_update(self@),
            update_fits(self@),
            dec_update(bytes@, 0) == Ok::<(UpdateView, int), WireError>(
                (self@, bytes@.len() as int),
            ),
    {
        let mut bytes: Vec<u8> = Vec::new();
        write_update(&mut bytes, self);
        proof {
            assert(bytes@ =~= enc_update(self@));
            lemma_update_fits(*self);
            lemma_update_bytes_round_trip(*self);
        }
        bytes
    }

    /// Reads an update at position `pos` of `source`; answers with the
    /// update and the position after it.
    pub fn read_from(source: &[u8], pos: usize) -> (r: Result<(Self, usize), WireError>)
        ensures
            pos > source@.len() ==> r is Err && r->Err_0 == WireError::UnexpectedEof,
            pos <= source@.len() ==> match dec_update(source@, pos as int) {
                Ok((v, q)) => r is Ok && r->Ok_0.0@ == v && r->Ok_0.1 == q && q <= source@.len(),
                Err(e) => r is Err && r->Err_0 == e,
            },
    {
        if pos > source.len() {
            return Err(WireError::UnexpectedEof);
        }
        read_update(source, pos)
    }

    /// Reads an update from bytes that hold nothing else.
    pub fn read_from_bytes(bytes: &[u8]) -> (r: Result<Self, WireError>)
        ensures
            match dec_update(bytes@, 0) {
                Ok((v, q)) => if q == bytes@.len() {
                    r is Ok && r->Ok_0@ == v
                } else {
                    r is Err && r->Err_0 == WireError::TrailingBytes
                },
                Err(e) => r is Err && r->Err_0 == e,
            },
    {
        match read_update(bytes, 0) {
            Ok((update, end)) => {
                if end == bytes.len() {
                    Ok(update)
                } else {
                    Err(WireError::TrailingBytes)
                }
            },
            Err(e) => Err(e),
        }
    }
}

/// What is written as an account update and nothing else is read back as
/// the same update.
pub proof fn lemma_update_round_trip(u: UpdateView)
    requires
        update_fits(u),
    ensures
        dec_update(enc_update(u), 0) == Ok::<(UpdateView, int), WireError>(
            (u, enc_update(u).len() as int),
        ),
{
    let b = enc_update(u);
    assert(b.subrange(0, b.len() as int) =~= b);
    lemma_update_read_back(b, 0, u);
}

/// Every account update can be written: its lists are short enough.
pub proof fn lemma_update_fits(update: BlockAccountUpdate)
    ensures
        update_fits(update@),
{
    update.lemma_lengths_bounded();
}

/// The bytes of any account update are read back as the same update.
pub proof fn lemma_update_bytes_round_trip(update: BlockAccountUpdate)
    ensures
        dec_update(enc_update(update@), 0) == Ok::<(UpdateView, int), WireError>(
            (update@, enc_update(update@).len() as int),
        ),
{
    lemma_update_fits(update);
    lemma_update_round_trip(update@);
}

/// The bytes of a note: its identifier, then its metadata.
pub open spec fn enc_note(n: OutputNote) -> Seq<u8> {
    enc_digest(n.id.0) + enc_digest(n.metadata.0)
}

/// The bytes of the notes in order, without their number.
pub open spec fn enc_notes(s: Seq<OutputNote>) -> Seq<u8>
    decreases s.len(),
{
    if s.len() == 0 {
        Seq::empty()
    } else {
        enc_notes(s.drop_last()) + enc_note(s.last())
    }
}

/// The bytes of a batch: the number of its notes, then the notes.
pub open spec fn enc_batch(s: Seq<OutputNote>) -> Seq<u8> {
    enc_u64(s.len() as u64) + enc_notes(s)
}

/// The bytes of the batches in order, without their number.
pub open spec fn enc_batches(s: Seq<Seq<OutputNote>>) -> Seq<u8>
    decreases s.len(),
{
    if s.len() == 0 {
        Seq::empty()
    } else {
        enc_batch(s.first()) + enc_batches(s.drop_first())
    }
}

/// The bytes of the account updates in order, without their number.
pub open spec fn enc_updates(s: Seq<UpdateView>) -> Seq<u8>
    decreases s.len(),
{
    if s.len() == 0 {
        Seq::empty()
    } else {
        enc_update(s.first()) + enc_updates(s.drop_first())
    }
}

/// The digests of the nullifiers in order.
pub open spec fn nullifier_digests(s: Seq<Nullifier>) -> Seq<Digest> {
    Seq::new(s.len(), |i: int| s[i].0)
}

/// The nullifiers with the given digests.
pub open spec fn nullifiers_of(s: Seq<Digest>) -> Seq<Nullifier> {
    Seq::new(s.len(), |i: int| Nullifier(s[i]))
}

/// The bytes of a block header: the block number, then the three
/// commitments.
pub open spec fn enc_header(h: BlockHeader) -> Seq<u8> {
    enc_u64(h.block_num as u64) + enc_digest(h.note_root) + enc_digest(h.tx_hash) + enc_digest(
        h.hash,
    )
}

/// The bytes of a block: the header, then the account updates, the note
/// batches and the nullifiers, each list after its length.
pub open spec fn enc_block(v: BlockView) -> Seq<u8> {
    enc_header(v.header) + enc_u64(v.updated_accounts.len() as u64) + enc_updates(
        v.updated_accounts,
    ) + enc_u64(v.created_notes.len() as u64) + enc_batches(v.created_notes) + enc_u64(
        v.created_nullifiers.len() as u64,
    ) + enc_digests(nullifier_digests(v.created_nullifiers))
}

/// The note written at position `p` of `b`.
pub open spec fn note_at(b: Seq<u8>, p: int) -> OutputNote {
    OutputNote { id: NoteId(digest_at(b, p)), metadata: NoteMetadata(digest_at(b, p + 32)) }
}

/// Reads `n` notes at position `p`.
pub open spec fn dec_notes(b: Seq<u8>, p: int, n: int) -> Result<(Seq<OutputNote>, int), WireError> {
    if p + 64 * n <= b.len() {
        Ok((Seq::new(n as nat, |i: int| note_at(b, p + 64 * i)), p + 64 * n))
    } else {
        Err(WireError::UnexpectedEof)
    }
}

/// Reads a batch at position `p`.
pub open spec fn dec_batch(b: Seq<u8>, p: int) -> Result<(Seq<OutputNote>, int), WireError> {
    match dec_u64(b, p) {
        Err(e) => Err(e),
        Ok((n, q)) => dec_notes(b, q, n as int),
    }
}

/// What was read so far followed by what is read next, if that succeeds.
pub open spec fn after<T>(done: Seq<T>, next: Result<(Seq<T>, int), WireError>) -> Result<
    (Seq<T>, int),
    WireError,
> {
    match next {
        Err(e) => Err(e),
        Ok((rest, q)) => Ok((done + rest, q)),
    }
}

/// Reads `n` batches at position `p`.
pub open spec fn dec_batches(b: Seq<u8>, p: int, n: nat) -> Result<
    (Seq<Seq<OutputNote>>, int),
    WireError,
>
    decreases n,
{
    if n == 0 {
        Ok((Seq::empty(), p))
    } else {
        match dec_batch(b, p) {
            Err(e) => Err(e),
            Ok((x, q)) => after(seq![x], dec_batches(b, q, (n - 1) as nat)),
        }
    }
}

/// Reads `n` account updates at position `p`.
pub open spec fn dec_updates(b: Seq<u8>, p: int, n: nat) -> Result<(Seq<UpdateView>, int), WireError>
    decreases n,
{
    if n == 0 {
        Ok((Seq::empty(), p))
    } else {
        match dec_update(b, p) {
            Err(e) => Err(e),
            Ok((x, q)) => after(seq![x], dec_updates(b, q, (n - 1) as nat)),
        }
    }
}

/// Reads a block header at position `p`.
pub open spec fn dec_header(b: Seq<u8>, p: int) -> Result<(BlockHeader, int), WireError> {
    match dec_u64(b, p) {
        Err(e) => Err(e),
        Ok((n, at1)) => if n > u32::MAX {
            Err(WireError::BlockNumberOutOfRange(n))
        } else if at1 + 96 <= b.len() {
            Ok(
                (
                    BlockHeader {
                        block_num: n as u32,
                        note_root: digest_at(b, at1),
                        tx_hash: digest_at(b, at1 + 32),
                        hash: digest_at(b, at1 + 64),
                    },
                    at1 + 96,
                ),
            )
        } else {
            Err(WireError::UnexpectedEof)
        },
    }
}

/// Reads the components of a block at position `p`.
pub open spec fn dec_block(b: Seq<u8>, p: int) -> Result<(BlockView, int), WireError> {
    match dec_header(b, p) {
        Err(e) => Err(e),
        Ok((header, at1)) => match dec_u64(b, at1) {
            Err(e) => Err(e),
            Ok((nu, at2)) => match dec_updates(b, at2, nu as nat) {
                Err(e) => Err(e),
                Ok((updated_accounts, at3)) => match dec_u64(b, at3) {
                    Err(e) => Err(e),
                    Ok((nb, at4)) => match dec_batches(b, at4, nb as nat) {
                        Err(e) => Err(e),
                        Ok((created_notes, at5)) => match dec_u64(b, at5) {
                            Err(e) => Err(e),
                            Ok((nn, at6)) => match dec_digests(b, at6, nn as int) {
                                Err(e) => Err(e),
                                Ok((digests, at7)) => Ok(
                                    (
                                        BlockView {
                                            header,
                                            updated_accounts,
                                            created_notes,
                                            created_nullifiers: nullifiers_of(digests),
                                        },
                                        at7,
                                    ),
                                ),
                            },
                        },
                    },
                },
            },
        },
    }
}

/// Appends the bytes of a batch.
pub fn write_batch(out: &mut Vec<u8>, batch: &NoteBatch)
    ensures
        final(out)@ == old(out)@ + enc_batch(batch@),
{
    write_u64(out, batch.len() as u64);
    let ghost start = out@;
    let mut i: usize = 0;
    while i < batch.len()
        invariant
            i <= batch@.len(),
            out@ == start + enc_notes(batch@.take(i as int)),
        decreases batch@.len() - i,
    {
        let ghost before = out@;
        write_digest(out, &batch[i].id.0);
        write_digest(out, &batch[i].metadata.0);
        proof {
            assert(batch@.take(i + 1).drop_last() =~= batch@.take(i as int));
            assert(batch@.take(i + 1).last() == batch@[i as int]);
            assert(out@ =~= before + enc_note(batch@[i as int]));
            assert(out@ =~= start + enc_notes(batch@.take(i + 1)));
        }
        i += 1;
    }
    proof {
        assert(batch@.take(batch@.len() as int) =~= batch@);
        assert(out@ =~= old(out)@ + enc_batch(batch@));
    }
}

/// Appends the bytes of a block.
pub fn write_block(out: &mut Vec<u8>, block: &Block)
    ensures
        final(out)@ == old(out)@ + enc_block(block@),
{
    let header = block.header();
    write_u64(out, header.block_num as u64);
    write_digest(out, &header.note_root);
    write_digest(out, &header.tx_hash);
    write_digest(out, &header.hash);
    assert(out@ =~= old(out)@ + enc_header(header));

    let updates = block.updated_accounts();
    write_u64(out, updates.len() as u64);
    let ghost start = out@;
    let ghost views = update_views(updates@);
    let mut i: usize = 0;
    proof {
        assert(views.skip(0) =~= views);
    }
    while i < updates.len()
        invariant
            i <= updates@.len(),
            views == update_views(updates@),
            start + enc_updates(views) == out@ + enc_updates(views.skip(i as int)),
        decreases updates@.len() - i,
    {
        let ghost before = out@;
        write_update(out, &updates[i]);
        proof {
            assert(views.skip(i as int).first() == updates@[i as int]@);
            assert(views.skip(i as int).drop_first() =~= views.skip(i + 1));
            assert(before + enc_updates(views.skip(i as int)) =~= out@ + enc_updates(
                views.skip(i + 1),
            ));
        }
        i += 1;
    }
    proof {
        assert(views.skip(updates@.len() as int) =~= Seq::<UpdateView>::empty());
        assert(out@ =~= start + enc_updates(views));
    }
    let ghost after_updates = out@;

    let batches = block.created_notes();
    write_u64(out, batches.len() as u64);
    let ghost start = out@;
    let ghost seqs = note_seqs(batches@);
    let mut i: usize = 0;
    proof {
        assert(seqs.skip(0) =~= seqs);
    }
    while i < batches.len()
        invariant
            i <= batches@.len(),
            seqs == note_seqs(batches@),
            start + enc_batches(seqs) == out@ + enc_batches(seqs.skip(i as int)),
        decreases batches@.len() - i,
    {
        let ghost before = out@;
        write_batch(out, &batches[i]);
        proof {
            assert(seqs.skip(i as int).first() == batches@[i as int]@);
            assert(seqs.skip(i as int).drop_first() =~= seqs.skip(i + 1));
            assert(before + enc_batches(seqs.skip(i as int)) =~= out@ + enc_batches(
                seqs.skip(i + 1),
            ));
        }
        i += 1;
    }
    proof {
        assert(seqs.skip(batches@.len() as int) =~= Seq::<Seq<OutputNote>>::empty());
        assert(out@ =~= start + enc_batches(seqs));
    }
    let ghost after_batches = out@;

    let nullifiers = block.created_nullifiers();
    write_u64(out, nullifiers.len() as u64);
    let ghost start = out@;
    let ghost digests = nullifier_digests(nullifiers@);
    let mut i: usize = 0;
    while i < nullifiers.len()
        invariant
            i <= nullifiers@.len(),
            digests == nullifier_digests(nullifiers@),
            out@ == start + enc_digests(digests.take(i as int)),
        decreases nullifiers@.len() - i,
    {
        write_digest(out, &nullifiers[i].0);
        proof {
            assert(digests.take(i + 1).drop_last() =~= digests.take(i as int));
            assert(digests.take(i + 1).last() == nullifiers@[i as int].0);
            assert(out@ =~= start + enc_digests(digests.take(i + 1)));
        }
        i += 1;
    }
    proof {
        assert(digests.take(nullifiers@.len() as int) =~= digests);
        assert(out@ =~= old(out)@ + enc_block(block@));
    }
}

/// Reads `n` notes at position `pos`.
pub fn read_notes(bytes: &[u8], pos: usize, n: u64) -> (r: Result<(Vec<OutputNote>, usize), WireError>)
    requires
        pos <= bytes@.len(),
    ensures
        match dec_notes(bytes@, pos as int, n as int) {
            Ok((v, q)) => r is Ok && r->Ok_0.0@ == v && r->Ok_0.1 == q && q <= bytes@.len(),
            Err(e) => r is Err && r->Err_0 == e,
        },
{
    if n > ((bytes.len() - pos) / 64) as u64 {
        return Err(WireError::UnexpectedEof);
    }
    let n = n as usize;
    let mut notes: Vec<OutputNote> = Vec::new();
    let mut i: usize = 0;
    while i < n
        invariant
            pos + 64 * n <= bytes@.len(),
            bytes@.len() <= usize::MAX,
            i <= n,
            notes@.len() == i,
            forall|k: int| 0 <= k < i ==> notes@[k] == note_at(bytes@, pos + 64 * k),
        decreases n - i,
    {
        let id = match read_digest(bytes, pos + 64 * i) {
            Ok((d, _)) => d,
            Err(_) => {
                assert(false);
                Digest { e0: 0, e1: 0, e2: 0, e3: 0 }
            },
        };
        let metadata = match read_digest(bytes, pos + 64 * i + 32) {
            Ok((d, _)) => d,
            Err(_) => {
                assert(false);
                Digest { e0: 0, e1: 0, e2: 0, e3: 0 }
            },
        };
        notes.push(OutputNote { id: NoteId(id), metadata: NoteMetadata(metadata) });
        i += 1;
    }
    assert(notes@ =~= Seq::new(n as nat, |i: int| note_at(bytes@, pos + 64 * i)));
    Ok((notes, pos + 64 * n))
}

/// Reads a batch at position `pos`.
pub fn read_batch(bytes: &[u8], pos: usize) -> (r: Result<(Vec<OutputNote>, usize), WireError>)
    requires
        pos <= bytes@.len(),
    ensures
        match dec_batch(bytes@, pos as int) {
            Ok((v, q)) => r is Ok && r->Ok_0.0@ == v && r->Ok_0.1 == q && q <= bytes@.len(),
            Err(e) => r is Err && r->Err_0 == e,
        },
{
    match read_u64(bytes, pos) {
        Ok((n, q)) => read_notes(bytes, q, n),
        Err(e) => Err(e),
    }
}

/// Reads `n` batches at position `pos`.
pub fn read_batches(bytes: &[u8], pos: usize, n: u64) -> (r: Result<(Vec<NoteBatch>, usize), WireError>)
    requires
        pos <= bytes@.len(),
    ensures
        match dec_batches(bytes@, pos as int, n as nat) {
            Ok((v, q)) => r is Ok && note_seqs(r->Ok_0.0@) == v && r->Ok_0.1 == q && q
                <= bytes@.len(),
            Err(e) => r is Err && r->Err_0 == e,
        },
{
    let mut batches: Vec<NoteBatch> = Vec::new();
    let mut at: usize = pos;
    let mut i: u64 = 0;
    proof {
        assert(note_seqs(batches@) =~= Seq::<Seq<OutputNote>>::empty());
        assert(after(Seq::<Seq<OutputNote>>::empty(), dec_batches(bytes@, pos as int, n as nat))
            == dec_batches(bytes@, pos as int, n as nat)) by {
            match dec_batches(bytes@, pos as int, n as nat) {
                Ok((rest, q)) => {
                    assert(Seq::<Seq<OutputNote>>::empty() + rest =~= rest);
                },
                Err(_) => {},
            }
        }
    }
    while i < n
        invariant
            at <= bytes@.len(),
            i <= n,
            dec_batches(bytes@, pos as int, n as nat) == after(
                note_seqs(batches@),
                dec_batches(bytes@, at as int, (n - i) as nat),
            ),
        decreases n - i,
    {
        let ghost done = note_seqs(batches@);
        match read_batch(bytes, at) {
            Err(e) => {
                return Err(e);
            },
            Ok((batch, q)) => {
                proof {
                    let next = dec_batches(bytes@, q as int, (n - i - 1) as nat);
                    assert(note_seqs(batches@.push(batch)) =~= done.push(batch@));
                    match next {
                        Ok((rest, end)) => {
                            assert(done + (seq![batch@] + rest) =~= done.push(batch@) + rest);
                        },
                        Err(_) => {},
                    }
                }
                batches.push(batch);
                at = q;
            },
        }
        i += 1;
    }
    proof {
        assert(note_seqs(batches@) + Seq::<Seq<OutputNote>>::empty() =~= note_seqs(batches@));
    }
    Ok((batches, at))
}

/// Reads `n` account updates at position `pos`.
pub fn read_updates(bytes: &[u8], pos: usize, n: u64) -> (r: Result<
    (Vec<BlockAccountUpdate>, usize),
    WireError,
>)
    requires
        pos <= bytes@.len(),
    ensures
        match dec_updates(bytes@, pos as int, n as nat) {
            Ok((v, q)) => r is Ok && update_views(r->Ok_0.0@) == v && r->Ok_0.1 == q && q
                <= bytes@.len(),
            Err(e) => r is Err && r->Err_0 == e,
        },
{
    let mut updates: Vec<BlockAccountUpdate> = Vec::new();
    let mut at: usize = pos;
    let mut i: u64 = 0;
    proof {
        assert(update_views(updates@) =~= Seq::<UpdateView>::empty());
        assert(after(Seq::<UpdateView>::empty(), dec_updates(bytes@, pos as int, n as nat))
            == dec_updates(bytes@, pos as int, n as nat)) by {
            match dec_updates(bytes@, pos as int, n as nat) {
                Ok((rest, q)) => {
                    assert(Seq::<UpdateView>::empty() + rest =~= rest);
                },
                Err(_) => {},
            }
        }
    }
    while i < n
        invariant
            at <= bytes@.len(),
            i <= n,
            dec_updates(bytes@, pos as int, n as nat) == after(
                update_views(updates@),
                dec_updates(bytes@, at as int, (n - i) as nat),
            ),
        decreases n - i,
    {
        let ghost done = update_views(updates@);
        match read_update(bytes, at) {
            Err(e) => {
                return Err(e);
            },
            Ok((update, q)) => {
                proof {
                    let next = dec_updates(bytes@, q as int, (n - i - 1) as nat);
                    assert(update_views(updates@.push(update)) =~= done.push(update@));
                    match next {
                        Ok((rest, end)) => {
                            assert(done + (seq![update@] + rest) =~= done.push(update@) + rest);
                        },
                        Err(_) => {},
                    }
                }
                updates.push(update);
                at = q;
            },
        }
        i += 1;
    }
    proof {
        assert(update_views(updates@) + Seq::<UpdateView>::empty() =~= update_views(updates@));
    }
    Ok((updates, at))
}

/// Reads a block header at position `pos`.
pub fn read_header(bytes: &[u8], pos: usize) -> (r: Result<(BlockHeader, usize), WireError>)
    requires
        pos <= bytes@.len(),
    ensures
        match dec_header(bytes@, pos as int) {
            Ok((v, q)) => r is Ok && r->Ok_0.0 == v && r->Ok_0.1 == q && q <= bytes@.len(),
            Err(e) => r is Err && r->Err_0 == e,
        },
{
    let (n, at1) = match read_u64(bytes, pos) {
        Ok(x) => x,
        Err(e) => {
            return Err(e);
        },
    };
    if n > 0xffff_ffff {
        return Err(WireError::BlockNumberOutOfRange(n));
    }
    if bytes.len() - at1 < 96 {
        return Err(WireError::UnexpectedEof);
    }
    let note_root = match read_digest(bytes, at1) {
        Ok((d, _)) => d,
        Err(e) => {
            return Err(e);
        },
    };
    let tx_hash = match read_digest(bytes, at1 + 32) {
        Ok((d, _)) => d,
        Err(e) => {
            return Err(e);
        },
    };
    let hash = match read_digest(bytes, at1 + 64) {
        Ok((d, _)) => d,
        Err(e) => {
            return Err(e);
        },
    };
    Ok((BlockHeader { block_num: n as u32, note_root, tx_hash, hash }, at1 + 96))
}

/// Reads a block at position `pos`: its components, which must make a
/// valid block.
pub fn read_block(bytes: &[u8], pos: usize) -> (r: Result<(Block, usize), WireError>)
    requires
        pos <= bytes@.len(),
    ensures
        match dec_block(bytes@, pos as int) {
            Ok((v, q)) => if valid_notes(v.created_notes) {
                r is Ok && r->Ok_0.0@ == v && r->Ok_0.0.wf() && r->Ok_0.1 == q && q
                    <= bytes@.len()
            } else {
                r is Err && r->Err_0 is InvalidBlock && rejected_for(
                    v.created_notes,
                    r->Err_0->InvalidBlock_0,
                )
            },
            Err(e) => r is Err && r->Err_0 == e,
        },
{
    let (header, at1) = match read_header(bytes, pos) {
        Ok(x) => x,
        Err(e) => {
            return Err(e);
        },
    };
    let (nu, at2) = match read_u64(bytes, at1) {
        Ok(x) => x,
        Err(e) => {
            return Err(e);
        },
    };
    let (updated_accounts, at3) = match read_updates(bytes, at2, nu) {
        Ok(x) => x,
        Err(e) => {
            return Err(e);
        },
    };
    let (nb, at4) = match read_u64(bytes, at3) {
        Ok(x) => x,
        Err(e) => {
            return Err(e);
        },
    };
    let (created_notes, at5) = match read_batches(bytes, at4, nb) {
        Ok(x) => x,
        Err(e) => {
            return Err(e);
        },
    };
    let (nn, at6) = match read_u64(bytes, at5) {
        Ok(x) => x,
        Err(e) => {
            return Err(e);
        },
    };
    let (digests, at7) = match read_digests(bytes, at6, nn) {
        Ok(x) => x,
        Err(e) => {
            return Err(e);
        },
    };
    let mut created_nullifiers: Vec<Nullifier> = Vec::new();
    let mut i: usize = 0;
    while i < digests.len()
        invariant
            i <= digests@.len(),
            created_nullifiers@.len() == i,
            forall|k: int| 0 <= k < i ==> created_nullifiers@[k] == Nullifier(digests@[k]),
        decreases digests@.len() - i,
    {
        created_nullifiers.push(Nullifier(digests[i]));
        i += 1;
    }
    assert(created_nullifiers@ =~= nullifiers_of(digests@));
    match Block::new(header, updated_accounts, created_notes, created_nullifiers) {
        Ok(block) => Ok((block, at7)),
        Err(e) => Err(WireError::InvalidBlock(e)),
    }
}

/// The notes of a list take sixty-four bytes each.
pub proof fn lemma_notes_len(s: Seq<OutputNote>)
    ensures
        enc_notes(s).len() == 64 * s.len(),
    decreases s.len(),
{
    lemma_auto_spec_u64_to_from_le_bytes();
    if s.len() > 0 {
        lemma_notes_len(s.drop_last());
    }
}

/// Each note of a list stands at its place among the bytes of the list.
pub proof fn lemma_notes_item(s: Seq<OutputNote>, i: int)
    requires
        0 <= i < s.len(),
    ensures
        holds(enc_notes(s), 64 * i, enc_note(s[i])),
    decreases s.len(),
{
    lemma_auto_spec_u64_to_from_le_bytes();
    lemma_notes_len(s);
    lemma_notes_len(s.drop_last());
    let front = enc_notes(s.drop_last());
    let all = enc_notes(s);
    if i == s.len() - 1 {
        assert(all.subrange(64 * i, 64 * i + 64) =~= enc_note(s.last()));
    } else {
        lemma_notes_item(s.drop_last(), i);
        assert(all.subrange(64 * i, 64 * i + 64) =~= front.subrange(64 * i, 64 * i + 64));
    }
}

/// A list of notes is read back from its bytes.
pub proof fn lemma_notes_read_back(b: Seq<u8>, p: int, s: Seq<OutputNote>)
    requires
        holds(b, p, enc_notes(s)),
    ensures
        enc_notes(s).len() == 64 * s.len(),
        dec_notes(b, p, s.len() as int) == Ok::<(Seq<OutputNote>, int), WireError>(
            (s, p + 64 * s.len()),
        ),
{
    lemma_notes_len(s);
    let read = Seq::new(s.len(), |i: int| note_at(b, p + 64 * i));
    assert forall|i: int| 0 <= i < s.len() implies read[i] == s[i] by {
        lemma_notes_item(s, i);
        lemma_auto_spec_u64_to_from_le_bytes();
        assert(b.subrange(p + 64 * i, p + 64 * i + 64) =~= enc_notes(s).subrange(
            64 * i,
            64 * i + 64,
        ));
        assert(holds(b, p + 64 * i, enc_note(s[i])));
        lemma_holds_split(b, p + 64 * i, enc_digest(s[i].id.0), enc_digest(s[i].metadata.0));
        lemma_digest_read_back(b, p + 64 * i, s[i].id.0);
        lemma_digest_read_back(b, p + 64 * i + 32, s[i].metadata.0);
    }
    assert(read =~= s);
}

/// A batch is read back from its bytes.
pub proof fn lemma_batch_read_back(b: Seq<u8>, p: int, s: Seq<OutputNote>)
    requires
        s.len() <= u64::MAX,
        holds(b, p, enc_batch(s)),
    ensures
        dec_batch(b, p) == Ok::<(Seq<OutputNote>, int), WireError>((s, p + enc_batch(s).len())),
{
    lemma_auto_spec_u64_to_from_le_bytes();
    lemma_holds_split(b, p, enc_u64(s.len() as u64), enc_notes(s));
    lemma_u64_read_back(b, p, s.len() as u64);
    lemma_notes_read_back(b, p + 8, s);
}

/// Whether every batch is short enough for its length to be written.
pub open spec fn batches_fit(s: Seq<Seq<OutputNote>>) -> bool {
    forall|i: int| 0 <= i < s.len() ==> (#[trigger] s[i]).len() <= u64::MAX
}

/// A list of batches is read back from its bytes.
pub proof fn lemma_batches_read_back(b: Seq<u8>, p: int, s: Seq<Seq<OutputNote>>)
    requires
        batches_fit(s),
        holds(b, p, enc_batches(s)),
    ensures
        dec_batches(b, p, s.len()) == Ok::<(Seq<Seq<OutputNote>>, int), WireError>(
            (s, p + enc_batches(s).len()),
        ),
    decreases s.len(),
{
    if s.len() > 0 {
        let rest = s.drop_first();
        lemma_holds_split(b, p, enc_batch(s.first()), enc_batches(rest));
        lemma_batch_read_back(b, p, s.first());
        assert forall|i: int| 0 <= i < rest.len() implies (#[trigger] rest[i]).len()
            <= u64::MAX by {
            assert(rest[i] == s[i + 1]);
        }
        let q = p + enc_batch(s.first()).len();
        lemma_batches_read_back(b, q, rest);
        assert(seq![s.first()] + rest =~= s);
        assert((s.len() - 1) as nat == rest.len());
        assert(enc_batches(s).len() == enc_batch(s.first()).len() + enc_batches(rest).len());
        assert(dec_batches(b, p, s.len()) == after(
            seq![s.first()],
            dec_batches(b, q, rest.len()),
        ));
    } else {
        assert(s =~= Seq::<Seq<OutputNote>>::empty());
    }
}

/// Whether every account update can be written.
pub open spec fn updates_fit(s: Seq<UpdateView>) -> bool {
    forall|i: int| 0 <= i < s.len() ==> update_fits(#[trigger] s[i])
}

/// A list of account updates is read back from its bytes.
pub proof fn lemma_updates_read_back(b: Seq<u8>, p: int, s: Seq<UpdateView>)
    requires
        updates_fit(s),
        holds(b, p, enc_updates(s)),
    ensures
        dec_updates(b, p, s.len()) == Ok::<(Seq<UpdateView>, int), WireError>(
            (s, p + enc_updates(s).len()),
        ),
    decreases s.len(),
{
    if s.len() > 0 {
        let rest = s.drop_first();
        lemma_holds_split(b, p, enc_update(s.first()), enc_updates(rest));
        lemma_update_read_back(b, p, s.first());
        assert forall|i: int| 0 <= i < rest.len() implies update_fits(#[trigger] rest[i]) by {
            assert(rest[i] == s[i + 1]);
        }
        let q = p + enc_update(s.first()).len();
        lemma_updates_read_back(b, q, rest);
        assert(seq![s.first()] + rest =~= s);
        assert((s.len() - 1) as nat == rest.len());
        assert(enc_updates(s).len() == enc_update(s.first()).len() + enc_updates(rest).len());
        assert(dec_updates(b, p, s.len()) == after(
            seq![s.first()],
            dec_updates(b, q, rest.len()),
        ));
    } else {
        assert(s =~= Seq::<UpdateView>::empty());
    }
}

/// A block header is read back from its bytes.
pub proof fn lemma_header_read_back(b: Seq<u8>, p: int, h: BlockHeader)
    requires
        holds(b, p, enc_header(h)),
    ensures
        enc_header(h).len() == 104,
        dec_header(b, p) == Ok::<(BlockHeader, int), WireError>((h, p + 104)),
{
    lemma_auto_spec_u64_to_from_le_bytes();
    let n = enc_u64(h.block_num as u64);
    let a = enc_digest(h.note_root);
    let t = enc_digest(h.tx_hash);
    let c = enc_digest(h.hash);
    lemma_holds_split(b, p, n + a + t, c);
    lemma_holds_split(b, p, n + a, t);
    lemma_holds_split(b, p, n, a);
    lemma_u64_read_back(b, p, h.block_num as u64);
    lemma_digest_read_back(b, p + 8, h.note_root);
    lemma_digest_read_back(b, p + 40, h.tx_hash);
    lemma_digest_read_back(b, p + 72, h.hash);
}

/// Whether the lists of a block are short enough for their lengths to be
/// written.
pub open spec fn block_fits(v: BlockView) -> bool {
    &&& v.updated_accounts.len() <= u64::MAX
    &&& v.created_notes.len() <= u64::MAX
    &&& v.created_nullifiers.len() <= u64::MAX
    &&& updates_fit(v.updated_accounts)
    &&& batches_fit(v.created_notes)
}

/// The components of a block are read back from its bytes, wherever they
/// stand.
pub proof fn lemma_block_read_back(b: Seq<u8>, p: int, v: BlockView)
    requires
        block_fits(v),
        holds(b, p, enc_block(v)),
    ensures
        dec_block(b, p) == Ok::<(BlockView, int), WireError>((v, p + enc_block(v).len())),
{
    lemma_auto_spec_u64_to_from_le_bytes();
    let h = enc_header(v.header);
    let nu = enc_u64(v.updated_accounts.len() as u64);
    let u = enc_updates(v.updated_accounts);
    let nb = enc_u64(v.created_notes.len() as u64);
    let c = enc_batches(v.created_notes);
    let nn = enc_u64(v.created_nullifiers.len() as u64);
    let d = enc_digests(nullifier_digests(v.created_nullifiers));
    lemma_holds_split(b, p, h + nu + u + nb + c + nn, d);
    lemma_holds_split(b, p, h + nu + u + nb + c, nn);
    lemma_holds_split(b, p, h + nu + u + nb, c);
    lemma_holds_split(b, p, h + nu + u, nb);
    lemma_holds_split(b, p, h + nu, u);
    lemma_holds_split(b, p, h, nu);
    lemma_header_read_back(b, p, v.header);
    let at1 = p + 104;
    lemma_u64_read_back(b, at1, v.updated_accounts.len() as u64);
    let at2 = at1 + 8;
    lemma_updates_read_back(b, at2, v.updated_accounts);
    let at3 = at2 + u.len();
    lemma_u64_read_back(b, at3, v.created_notes.len() as u64);
    let at4 = at3 + 8;
    lemma_batches_read_back(b, at4, v.created_notes);
    let at5 = at4 + c.len();
    lemma_u64_read_back(b, at5, v.created_nullifiers.len() as u64);
    let at6 = at5 + 8;
    lemma_digests_read_back(b, at6, nullifier_digests(v.created_nullifiers));
    assert(nullifiers_of(nullifier_digests(v.created_nullifiers)) =~= v.created_nullifiers);
}

/// What is written as a block and nothing else is read back as the same
/// components.
pub proof fn lemma_block_round_trip(v: BlockView)
    requires
        block_fits(v),
    ensures
        dec_block(enc_block(v), 0) == Ok::<(BlockView, int), WireError>(
            (v, enc_block(v).len() as int),
        ),
{
    let b = enc_block(v);
    assert(b.subrange(0, b.len() as int) =~= b);
    lemma_block_read_back(b, 0, v);
}

/// Every block can be written: its lists are short enough.
pub proof fn lemma_block_fits(block: Block)
    ensures
        block_fits(block@),
{
    block.lemma_lengths_bounded();
    assert forall|i: int| 0 <= i < block@.updated_accounts.len() implies update_fits(
        #[trigger] block@.updated_accounts[i],
    ) by {
        lemma_update_fits(block.spec_updated_accounts()[i]);
    }
}

/// The bytes of any block are read back as the same components.
pub proof fn lemma_block_bytes_round_trip(block: Block)
    ensures
        dec_block(enc_block(block@), 0) == Ok::<(BlockView, int), WireError>(
            (block@, enc_block(block@).len() as int),
        ),
{
    lemma_block_fits(block);
    lemma_block_round_trip(block@);
}

impl Block {
    /// Appends the bytes of the block to `target`.
    pub fn write_into(&self, target: &mut Vec<u8>)
        ensures
            final(target)@ == old(target)@ + enc_block(self@),
    {
        write_block(target, self);
    }

    /// The bytes of the block, from which the same components are read
    /// back.
    pub fn to_bytes(&self) -> (bytes: Vec<u8>)
        ensures
            bytes@ == enc_block(self@),
            block_fits(self@),
            dec_block(bytes@, 0) == Ok::<(BlockView, int), WireError>(
                (self@, bytes@.len() as int),
            ),
    {
        let mut bytes: Vec<u8> = Vec::new();
        write_block(&mut bytes, self);
        proof {
            assert(bytes@ =~= enc_block(self@));
            lemma_block_fits(*self);
            lemma_block_bytes_round_trip(*self);
        }
        bytes
    }

    /// Reads a block at position `pos` of `source`; answers with the block
    /// and the position after it. The components that are read must make a
    /// valid block.
    pub fn read_from(source: &[u8], pos: usize) -> (r: Result<(Self, usize), WireError>)
        ensures
            pos > source@.len() ==> r is Err && r->Err_0 == WireError::UnexpectedEof,
            pos <= source@.len() ==> match dec_block(source@, pos as int) {
                Ok((v, q)) => if valid_notes(v.created_notes) {
                    r is Ok && r->Ok_0.0@ == v && r->Ok_0.0.wf() && r->Ok_0.1 == q && q
                        <= source@.len()
                } else {
                    r is Err && r->Err_0 is InvalidBlock && rejected_for(
                        v.created_notes,
                        r->Err_0->InvalidBlock_0,
                    )
                },
                Err(e) => r is Err && r->Err_0 == e,
            },
    {
        if pos > source.len() {
            return Err(WireError::UnexpectedEof);
        }
        read_block(source, pos)
    }

    /// Reads a block from bytes that hold nothing else.
    pub fn read_from_bytes(bytes: &[u8]) -> (r: Result<Self, WireError>)
        ensures
            match dec_block(bytes@, 0) {
                Ok((v, q)) => if !valid_notes(v.created_notes) {
                    r is Err && r->Err_0 is InvalidBlock && rejected_for(
                        v.created_notes,
                        r->Err_0->InvalidBlock_0,
                    )
                } else if q == bytes@.len() {
                    r is Ok && r->Ok_0@ == v && r->Ok_0.wf()
                } else {
                    r is Err && r->Err_0 == WireError::TrailingBytes
                },
                Err(e) => r is Err && r->Err_0 == e,
            },
    {
        match read_block(bytes, 0) {
            Ok((block, end)) => {
                if end == bytes.len() {
                    Ok(block)
                } else {
                    Err(WireError::TrailingBytes)
                }
            },
            Err(e) => Err(e),
        }
    }
}

} // verus!
