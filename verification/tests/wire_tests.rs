use proving_service::block::AccountId;
use proving_service::block::AccountUpdateDetails;
use proving_service::block::Block;
use proving_service::block::BlockAccountUpdate;
use proving_service::block::BlockError;
use proving_service::block::BlockHeader;
use proving_service::block::NoteId;
use proving_service::block::NoteMetadata;
use proving_service::block::Nullifier;
use proving_service::block::OutputNote;
use proving_service::block::TransactionId;
use proving_service::crypto::Digest;
use proving_service::wire::read_bytes;
use proving_service::wire::read_details;
use proving_service::wire::read_digest;
use proving_service::wire::read_u64;
use proving_service::wire::write_bytes;
use proving_service::wire::write_digest;
use proving_service::wire::write_u64;
use proving_service::wire::WireError;

fn digest(n: u64) -> Digest {
    Digest { e0: n, e1: n + 1, e2: n + 2, e3: n + 3 }
}

fn note(n: u64) -> OutputNote {
    OutputNote::new(NoteId(digest(n)), NoteMetadata(digest(1000 + n)))
}

fn update(account: u64, details: AccountUpdateDetails, txs: &[u64]) -> BlockAccountUpdate {
    let mut ids = Vec::new();
    for t in txs {
        ids.push(TransactionId(digest(*t)));
    }
    BlockAccountUpdate::new(AccountId(account), digest(account), details, ids)
}

fn sample_block() -> Block {
    Block::new(
        BlockHeader::new(7, digest(100), digest(200), digest(300)),
        vec![
            update(1, AccountUpdateDetails::Private, &[10, 20]),
            update(2, AccountUpdateDetails::New(vec![9, 8, 7]), &[]),
            update(3, AccountUpdateDetails::Delta(vec![]), &[30]),
        ],
        vec![vec![note(1), note(2)], vec![], vec![note(3)]],
        vec![Nullifier(digest(50)), Nullifier(digest(60))],
    )
    .unwrap()
}

#[test]
fn integers_are_eight_bytes_least_significant_first() {
    let mut out = vec![0xaa];
    write_u64(&mut out, 0x0102030405060708);
    assert_eq!(out, vec![0xaa, 8, 7, 6, 5, 4, 3, 2, 1]);
    assert_eq!(read_u64(&out, 1), Ok((0x0102030405060708, 9)));
    assert_eq!(read_u64(&out, 2), Err(WireError::UnexpectedEof));
    assert_eq!(read_u64(&out, 9), Err(WireError::UnexpectedEof));
}

#[test]
fn digests_and_byte_strings_are_read_back() {
    let mut out = Vec::new();
    write_digest(&mut out, &digest(5));
    write_bytes(&mut out, &vec![1, 2, 3]);
    assert_eq!(out.len(), 32 + 8 + 3);
    assert_eq!(read_digest(&out, 0), Ok((digest(5), 32)));
    assert_eq!(read_bytes(&out, 32), Ok((vec![1, 2, 3], 43)));
    assert_eq!(read_digest(&out, 12), Err(WireError::UnexpectedEof));
    let mut short = Vec::new();
    write_u64(&mut short, 4);
    short.extend_from_slice(&[1, 2, 3]);
    assert_eq!(read_bytes(&short, 0), Err(WireError::UnexpectedEof));
    let mut huge = Vec::new();
    write_u64(&mut huge, u64::MAX);
    assert_eq!(read_bytes(&huge, 0), Err(WireError::UnexpectedEof));
}

#[test]
fn account_update_bytes_are_exact() {
    let u = update(1, AccountUpdateDetails::New(vec![0xee]), &[4]);
    let mut expected = Vec::new();
    write_u64(&mut expected, 1);
    write_digest(&mut expected, &digest(1));
    expected.push(1);
    write_u64(&mut expected, 1);
    expected.push(0xee);
    write_u64(&mut expected, 1);
    write_digest(&mut expected, &digest(4));
    assert_eq!(u.to_bytes(), expected);
    assert_eq!(expected.len(), 8 + 32 + 1 + 8 + 1 + 8 + 32);
    let mut target = vec![5, 5];
    u.write_into(&mut target);
    assert_eq!(&target[..2], &[5, 5]);
    assert_eq!(&target[2..], expected.as_slice());
}

#[test]
fn account_updates_are_read_back() {
    for u in [
        update(1, AccountUpdateDetails::Private, &[]),
        update(2, AccountUpdateDetails::New(vec![1, 2, 3]), &[7, 8, 9]),
        update(u64::MAX, AccountUpdateDetails::Delta(vec![0; 300]), &[1]),
    ] {
        let bytes = u.to_bytes();
        assert_eq!(BlockAccountUpdate::read_from_bytes(&bytes), Ok(u.clone()));
        let mut padded = vec![1, 2, 3];
        padded.extend_from_slice(&bytes);
        padded.push(9);
        assert_eq!(BlockAccountUpdate::read_from(&padded, 3), Ok((u, padded.len() - 1)));
        assert_eq!(BlockAccountUpdate::read_from_bytes(&padded[3..]), Err(WireError::TrailingBytes));
    }
}

#[test]
fn damaged_account_updates_are_refused() {
    let bytes = update(2, AccountUpdateDetails::New(vec![1, 2, 3]), &[7]).to_bytes();
    for cut in 0..bytes.len() {
        assert_eq!(
            BlockAccountUpdate::read_from_bytes(&bytes[..cut]),
            Err(WireError::UnexpectedEof)
        );
    }
    let mut bad_tag = bytes.clone();
    bad_tag[40] = 3;
    assert_eq!(BlockAccountUpdate::read_from_bytes(&bad_tag), Err(WireError::UnknownTag(3)));
    assert_eq!(read_details(&[7], 0).err(), Some(WireError::UnknownTag(7)));
    assert_eq!(read_details(&[0], 0), Ok((AccountUpdateDetails::Private, 1)));
    assert_eq!(
        BlockAccountUpdate::read_from(&bytes, bytes.len() + 1).err(),
        Some(WireError::UnexpectedEof)
    );
}

#[test]
fn blocks_are_read_back() {
    let block = sample_block();
    let bytes = block.to_bytes();
    let read = Block::read_from_bytes(&bytes).expect("what was written is read back");
    assert_eq!(read.header(), block.header());
    assert_eq!(read.updated_accounts(), block.updated_accounts());
    assert_eq!(read.created_notes(), block.created_notes());
    assert_eq!(read.created_nullifiers(), block.created_nullifiers());
    assert_eq!(read.to_bytes(), bytes);
    let mut target = vec![1];
    block.write_into(&mut target);
    let (again, end) = Block::read_from(&target, 1).unwrap();
    assert_eq!(end, target.len());
    assert_eq!(again.transactions(), block.transactions());
}

#[test]
fn empty_block_is_header_and_three_zero_lengths() {
    let block = Block::new(BlockHeader::new(1, digest(1), digest(2), digest(3)), vec![], vec![], vec![])
        .unwrap();
    let bytes = block.to_bytes();
    assert_eq!(bytes.len(), 8 + 96 + 24);
    assert_eq!(&bytes[..8], &[1, 0, 0, 0, 0, 0, 0, 0]);
    assert_eq!(&bytes[104..], &[0u8; 24]);
    assert!(Block::read_from_bytes(&bytes).is_ok());
}

#[test]
fn damaged_blocks_are_refused() {
    let bytes = sample_block().to_bytes();
    for cut in [0, 7, 8, 50, 104, 111, 112, 200, bytes.len() - 1] {
        assert_eq!(Block::read_from_bytes(&bytes[..cut]).err(), Some(WireError::UnexpectedEof));
    }
    let mut longer = bytes.clone();
    longer.push(0);
    assert_eq!(Block::read_from_bytes(&longer).err(), Some(WireError::TrailingBytes));
    let mut number = bytes.clone();
    number[4] = 1;
    assert_eq!(
        Block::read_from_bytes(&number).err(),
        Some(WireError::BlockNumberOutOfRange((1 << 32) + 7))
    );
    // with a larger number of updates the batches are read as a fourth
    // update, whose details tag is then the byte 4 of the first note
    let mut count = bytes.clone();
    count[104] = 200;
    assert_eq!(Block::read_from_bytes(&count).err(), Some(WireError::UnknownTag(4)));
    let empty = Block::new(BlockHeader::new(1, digest(1), digest(2), digest(3)), vec![], vec![], vec![])
        .unwrap();
    let mut one_more = empty.to_bytes();
    one_more[104] = 1;
    assert_eq!(Block::read_from_bytes(&one_more).err(), Some(WireError::UnexpectedEof));
    assert_eq!(Block::read_from(&bytes, bytes.len() + 5).err(), Some(WireError::UnexpectedEof));
}

#[test]
fn bytes_of_an_invalid_block_are_refused() {
    let mut bytes = Vec::new();
    write_u64(&mut bytes, 1);
    write_digest(&mut bytes, &digest(1));
    write_digest(&mut bytes, &digest(2));
    write_digest(&mut bytes, &digest(3));
    write_u64(&mut bytes, 0);
    write_u64(&mut bytes, 1);
    write_u64(&mut bytes, 2);
    for _ in 0..2 {
        write_digest(&mut bytes, &digest(9));
        write_digest(&mut bytes, &digest(10));
    }
    write_u64(&mut bytes, 0);
    assert_eq!(
        Block::read_from_bytes(&bytes).err(),
        Some(WireError::InvalidBlock(BlockError::DuplicateNoteFound(NoteId(digest(9)))))
    );
    let mut batches = Vec::new();
    write_u64(&mut batches, 1);
    write_digest(&mut batches, &digest(1));
    write_digest(&mut batches, &digest(2));
    write_digest(&mut batches, &digest(3));
    write_u64(&mut batches, 0);
    write_u64(&mut batches, 65);
    for _ in 0..65 {
        write_u64(&mut batches, 0);
    }
    write_u64(&mut batches, 0);
    assert_eq!(
        Block::read_from_bytes(&batches).err(),
        Some(WireError::InvalidBlock(BlockError::TooManyTransactionBatches(65)))
    );
}
