use proving_service::crypto::Digest;
use proving_service::kernel::AccountId;
use proving_service::kernel::BlockNumber;
use proving_service::kernel::StackError;
use proving_service::kernel::StackInputs;
use proving_service::kernel::StackOutputs;
use proving_service::kernel::TransactionKernel;
use proving_service::kernel::TransactionOutputError;
use proving_service::kernel::FIELD_MODULUS;
use proving_service::merkle::MerkleFailure;
use proving_service::merkle::MerkleStore;

fn word(n: u64) -> Digest {
    Digest { e0: n, e1: n + 1, e2: n + 2, e3: n + 3 }
}

#[test]
fn input_stack_layout() {
    let stack = TransactionKernel::build_input_stack(
        AccountId { prefix: 77, suffix: 88 },
        word(10),
        word(20),
        word(30),
    );
    assert_eq!(
        stack.elements(),
        &[33, 32, 31, 30, 77, 88, 13, 12, 11, 10, 23, 22, 21, 20, 0, 0]
    );
}

#[test]
fn input_stack_matches_the_vm_library() {
    let values: Vec<u64> = vec![20, 21, 22, 23, 10, 11, 12, 13, 88, 77, 30, 31, 32, 33];
    let theirs = miden_core::StackInputs::try_from_ints(values.clone()).unwrap();
    let mut theirs_ints = Vec::new();
    for e in theirs.iter() {
        theirs_ints.push(e.as_int());
    }
    let ours = StackInputs::new(values).unwrap();
    assert_eq!(ours.elements(), theirs_ints.as_slice());
}

#[test]
fn output_stack_layout() {
    let stack = TransactionKernel::build_output_stack(word(10), word(20), BlockNumber(99));
    assert_eq!(
        stack.elements(),
        &[23, 22, 21, 20, 13, 12, 11, 10, 99, 0, 0, 0, 0, 0, 0, 0]
    );
}

#[test]
fn output_stack_is_read_back() {
    let stack = TransactionKernel::build_output_stack(word(10), word(20), BlockNumber(u32::MAX));
    assert_eq!(
        TransactionKernel::parse_output_stack(&stack),
        Ok((word(10), word(20), BlockNumber(u32::MAX)))
    );
}

#[test]
fn output_words_match_the_vm_library() {
    let values: Vec<u64> = vec![23, 22, 21, 20, 13, 12, 11, 10, 99, 1, 2, 3, 4, 5, 6, 7];
    let theirs = miden_core::StackOutputs::try_from_ints(values.clone()).unwrap();
    let ours = StackOutputs::new(values).unwrap();
    for idx in [0usize, 4, 8, 12, 13, 16] {
        let t = theirs.get_stack_word(idx).map(|w| [w[0].as_int(), w[1].as_int(), w[2].as_int(), w[3].as_int()]);
        let o = ours.get_stack_word(idx).map(|d| d.as_elements());
        assert_eq!(o, t);
    }
    for idx in [0usize, 8, 15, 16, 100] {
        assert_eq!(ours.get_stack_item(idx), theirs.get_stack_item(idx).map(|e| e.as_int()));
    }
}

#[test]
fn expiration_out_of_range_is_rejected() {
    let stack = StackOutputs::new(vec![1, 2, 3, 4, 5, 6, 7, 8, 1 << 32]).unwrap();
    match TransactionKernel::parse_output_stack(&stack) {
        Err(TransactionOutputError::OutputStackInvalid(m)) => {
            assert_eq!(m, "Expiration block number should be smaller than u32::MAX")
        },
        other => panic!("expected an invalid stack, got {:?}", other),
    }
}

#[test]
fn nonempty_fourth_word_is_rejected() {
    let stack = StackOutputs::new(vec![1, 2, 3, 4, 5, 6, 7, 8, 9, 0, 0, 0, 0, 0, 0, 1]).unwrap();
    assert_eq!(
        TransactionKernel::parse_output_stack(&stack),
        Err(TransactionOutputError::OutputStackInvalid(
            "Fourth word on output stack should consist only of ZEROs".to_string()
        ))
    );
    let stack = StackOutputs::new(vec![1, 2, 3, 4, 5, 6, 7, 8, 9, 5, 5, 5]).unwrap();
    assert_eq!(
        TransactionKernel::parse_output_stack(&stack),
        Ok((
            Digest { e0: 8, e1: 7, e2: 6, e3: 5 },
            Digest { e0: 4, e1: 3, e2: 2, e3: 1 },
            BlockNumber(9)
        ))
    );
}

#[test]
fn expiration_is_checked_before_the_fourth_word() {
    let stack =
        StackOutputs::new(vec![0, 0, 0, 0, 0, 0, 0, 0, u64::MAX, 0, 0, 0, 1, 1, 1, 1]).unwrap();
    assert_eq!(
        TransactionKernel::parse_output_stack(&stack),
        Err(TransactionOutputError::OutputStackInvalid(
            "Expiration block number should be smaller than u32::MAX".to_string()
        ))
    );
}

#[test]
fn stacks_hold_at_most_sixteen_values() {
    let seventeen: Vec<u64> = (0..17).collect();
    assert_eq!(StackInputs::new(seventeen.clone()).err(), Some(StackError::TooManyValues(17)));
    assert_eq!(StackOutputs::new(seventeen).err(), Some(StackError::TooManyValues(17)));
    let sixteen: Vec<u64> = (1..17).collect();
    assert_eq!(StackOutputs::new(sixteen.clone()).unwrap().elements(), sixteen.as_slice());
    let mut reversed = sixteen.clone();
    reversed.reverse();
    assert_eq!(StackInputs::new(sixteen).unwrap().elements(), reversed.as_slice());
    assert_eq!(StackInputs::new(vec![]).unwrap().elements(), &[0u64; 16]);
    assert_eq!(StackInputs::new(vec![1, 2]).unwrap().elements()[..3], [2, 1, 0]);
}

fn advice_map_with(key: [u64; 4], data: &[u64]) -> miden_core::AdviceMap {
    let mut map = miden_core::AdviceMap::new();
    let digest = miden_core::crypto::hash::RpoDigest::from([
        miden_core::Felt::new(key[0]),
        miden_core::Felt::new(key[1]),
        miden_core::Felt::new(key[2]),
        miden_core::Felt::new(key[3]),
    ]);
    let mut felts = Vec::new();
    for v in data {
        felts.push(miden_core::Felt::new(*v));
    }
    map.insert(digest, felts);
    map
}

#[test]
fn transaction_outputs_are_put_together() {
    let stack = TransactionKernel::build_output_stack(word(10), word(20), BlockNumber(5));
    let map = advice_map_with([10, 11, 12, 13], &[1, 2, 3]);
    assert_eq!(
        TransactionKernel::from_transaction_parts(&stack, &map, word(20)),
        Ok(proving_service::kernel::TransactionOutputs {
            final_account_data: vec![1, 2, 3],
            output_notes_commitment: word(20),
            expiration_block_num: BlockNumber(5),
        })
    );
}

#[test]
fn missing_final_account_is_reported() {
    let stack = TransactionKernel::build_output_stack(word(10), word(20), BlockNumber(5));
    let map = advice_map_with([20, 21, 22, 23], &[1, 2, 3]);
    assert_eq!(
        TransactionKernel::from_transaction_parts(&stack, &map, word(20)),
        Err(TransactionOutputError::FinalAccountHashMissingInAdviceMap)
    );
    assert_eq!(
        TransactionKernel::from_transaction_parts(&stack, &miden_core::AdviceMap::new(), word(20)),
        Err(TransactionOutputError::FinalAccountHashMissingInAdviceMap)
    );
}

#[test]
fn inconsistent_commitment_is_reported() {
    let stack = TransactionKernel::build_output_stack(word(10), word(20), BlockNumber(5));
    let map = advice_map_with([10, 11, 12, 13], &[1, 2, 3]);
    assert_eq!(
        TransactionKernel::from_transaction_parts(&stack, &map, word(21)),
        Err(TransactionOutputError::OutputNotesCommitmentInconsistent {
            actual: word(21),
            expected: word(20),
        })
    );
}

#[test]
fn invalid_stack_is_reported_before_the_lookup() {
    let stack = StackOutputs::new(vec![0, 0, 0, 0, 0, 0, 0, 0, 1 << 40]).unwrap();
    let r = TransactionKernel::from_transaction_parts(&stack, &miden_core::AdviceMap::new(), word(0));
    assert!(matches!(r, Err(TransactionOutputError::OutputStackInvalid(_))));
}

#[test]
fn outputs_from_parts_decides_in_order() {
    let parsed = (word(1), word(2), BlockNumber(3));
    assert_eq!(
        TransactionKernel::outputs_from_parts(parsed, None, word(9)),
        Err(TransactionOutputError::FinalAccountHashMissingInAdviceMap)
    );
    assert_eq!(
        TransactionKernel::outputs_from_parts(parsed, Some(vec![4]), word(9)),
        Err(TransactionOutputError::OutputNotesCommitmentInconsistent {
            actual: word(9),
            expected: word(2),
        })
    );
    assert_eq!(
        TransactionKernel::outputs_from_parts(parsed, Some(vec![4]), word(2)),
        Ok(proving_service::kernel::TransactionOutputs {
            final_account_data: vec![4],
            output_notes_commitment: word(2),
            expiration_block_num: BlockNumber(3),
        })
    );
}

fn lookup(map: &miden_core::AdviceMap, key: [u64; 4]) -> Option<Vec<u64>> {
    let digest = miden_core::crypto::hash::RpoDigest::from([
        miden_core::Felt::new(key[0]),
        miden_core::Felt::new(key[1]),
        miden_core::Felt::new(key[2]),
        miden_core::Felt::new(key[3]),
    ]);
    map.get(&digest).map(|v| v.iter().map(|e| e.as_int()).collect())
}

fn store_nodes(store: &MerkleStore) -> Vec<([u64; 4], [u64; 4], [u64; 4])> {
    let mut nodes: Vec<_> =
        store.inner_nodes().into_iter().map(|n| (n.value, n.left, n.right)).collect();
    nodes.sort();
    nodes
}

fn their_digest(d: Digest) -> miden_crypto::hash::rpo::RpoDigest {
    [d.e0, d.e1, d.e2, d.e3].map(miden_crypto::Felt::new).into()
}

fn their_nodes(store: &miden_crypto::merkle::MerkleStore) -> Vec<([u64; 4], [u64; 4], [u64; 4])> {
    let mut nodes: Vec<([u64; 4], [u64; 4], [u64; 4])> =
        store.inner_nodes().map(|n| (n.value.into(), n.left.into(), n.right.into())).collect();
    nodes.sort();
    nodes
}

#[test]
fn account_data_is_filed_under_the_kernel_keys() {
    let mut map = advice_map_with([1, 1, 1, 1], &[9]);
    let mut store = MerkleStore::new();
    let path: Vec<Digest> = (0..7).map(|i| word(1000 + 10 * i)).collect();
    let r = TransactionKernel::extend_advice_inputs_for_account(
        &mut map,
        &mut store,
        proving_service::kernel::AccountAdvice {
            id: AccountId { prefix: 77, suffix: 88 },
            hash: word(300),
            storage_commitment: word(100),
            code_commitment: word(200),
            header_elements: vec![1, 2, 3, 4],
            storage_elements: vec![5, 6],
            code_elements: vec![7],
        },
        &path,
    );
    assert_eq!(r, Ok(()));
    assert_eq!(map.len(), 4);
    assert_eq!(lookup(&map, [88, 77, 0, 0]), Some(vec![1, 2, 3, 4]));
    assert_eq!(lookup(&map, [100, 101, 102, 103]), Some(vec![5, 6]));
    assert_eq!(lookup(&map, [200, 201, 202, 203]), Some(vec![7]));
    assert_eq!(lookup(&map, [1, 1, 1, 1]), Some(vec![9]));
    assert_eq!(lookup(&map, [77, 88, 0, 0]), None);
}

#[test]
fn account_proof_is_filed_in_the_store() {
    let mut map = miden_core::AdviceMap::new();
    let mut store = MerkleStore::new();
    let before = store_nodes(&store);
    let path: Vec<Digest> = (0..7).map(|i| word(1000 + 10 * i)).collect();
    let r = TransactionKernel::extend_advice_inputs_for_account(
        &mut map,
        &mut store,
        proving_service::kernel::AccountAdvice {
            id: AccountId { prefix: 77, suffix: 88 },
            hash: word(300),
            storage_commitment: word(100),
            code_commitment: word(200),
            header_elements: vec![1],
            storage_elements: vec![2],
            code_elements: vec![3],
        },
        &path,
    );
    assert_eq!(r, Ok(()));

    let mut theirs = miden_crypto::merkle::MerkleStore::new();
    let their_path =
        miden_crypto::merkle::MerklePath::new(path.iter().map(|d| their_digest(*d)).collect());
    theirs.extend(their_path.inner_nodes(77, their_digest(word(300))).unwrap());
    let after = store_nodes(&store);
    assert_eq!(after, their_nodes(&theirs));
    assert_eq!(after.len(), before.len() + 7);
}

#[test]
fn account_prefix_is_taken_below_the_order_of_the_field() {
    let mut map = miden_core::AdviceMap::new();
    let mut store = MerkleStore::new();
    let path: Vec<Digest> = vec![word(1), word(5)];
    let r = TransactionKernel::extend_advice_inputs_for_account(
        &mut map,
        &mut store,
        proving_service::kernel::AccountAdvice {
            id: AccountId { prefix: FIELD_MODULUS + 3, suffix: 0 },
            hash: word(9),
            storage_commitment: word(100),
            code_commitment: word(200),
            header_elements: vec![1],
            storage_elements: vec![2],
            code_elements: vec![3],
        },
        &path,
    );
    assert_eq!(r, Ok(()));
    let mut theirs = miden_crypto::merkle::MerkleStore::new();
    let their_path =
        miden_crypto::merkle::MerklePath::new(path.iter().map(|d| their_digest(*d)).collect());
    theirs.extend(their_path.inner_nodes(3, their_digest(word(9))).unwrap());
    assert_eq!(store_nodes(&store), their_nodes(&theirs));
}

#[test]
fn short_path_leaves_the_store_but_fills_the_map() {
    let mut map = miden_core::AdviceMap::new();
    let mut store = MerkleStore::new();
    let before = store_nodes(&store);
    let path: Vec<Digest> = vec![word(1), word(5)];
    let r = TransactionKernel::extend_advice_inputs_for_account(
        &mut map,
        &mut store,
        proving_service::kernel::AccountAdvice {
            id: AccountId { prefix: 4, suffix: 2 },
            hash: word(300),
            storage_commitment: word(100),
            code_commitment: word(200),
            header_elements: vec![1],
            storage_elements: vec![2],
            code_elements: vec![3],
        },
        &path,
    );
    assert_eq!(r, Err(MerkleFailure::InvalidNodeIndex { depth: 2, value: 4 }));
    assert_eq!(store_nodes(&store), before);
    assert_eq!(map.len(), 3);
    assert_eq!(lookup(&map, [2, 4, 0, 0]), Some(vec![1]));
    let their_path =
        miden_crypto::merkle::MerklePath::new(path.iter().map(|d| their_digest(*d)).collect());
    assert!(their_path.inner_nodes(4, their_digest(word(300))).is_err());
}

#[test]
fn later_account_data_replaces_earlier_under_the_same_key() {
    let mut map = miden_core::AdviceMap::new();
    let mut store = MerkleStore::new();
    let r = TransactionKernel::extend_advice_inputs_for_account(
        &mut map,
        &mut store,
        proving_service::kernel::AccountAdvice {
            id: AccountId { prefix: 1, suffix: 2 },
            hash: word(300),
            storage_commitment: word(100),
            code_commitment: word(100),
            header_elements: vec![1],
            storage_elements: vec![2],
            code_elements: vec![3],
        },
        &vec![word(7)],
    );
    assert_eq!(r, Ok(()));
    assert_eq!(map.len(), 2);
    assert_eq!(lookup(&map, [100, 101, 102, 103]), Some(vec![3]));
}

#[test]
fn inputs_are_prepared_with_the_given_or_an_empty_advice_map() {
    let inputs = proving_service::kernel::TransactionInputs {
        account_id: AccountId { prefix: 77, suffix: 88 },
        init_account_hash: word(10),
        input_notes_commitment: word(20),
        block_hash: word(30),
    };
    let (stack, map) = TransactionKernel::prepare_inputs(&inputs, None);
    assert_eq!(
        stack.elements(),
        &[33, 32, 31, 30, 77, 88, 13, 12, 11, 10, 23, 22, 21, 20, 0, 0]
    );
    assert!(map.is_empty());
    let given = advice_map_with([1, 2, 3, 4], &[5]);
    let (_, map) = TransactionKernel::prepare_inputs(&inputs, Some(given));
    assert_eq!(map.len(), 1);
    assert_eq!(lookup(&map, [1, 2, 3, 4]), Some(vec![5]));
}
