use proving_service::crypto::Digest;
use proving_service::merkle::inner_nodes_of_path;
use proving_service::merkle::InnerNode;
use proving_service::merkle::MerkleFailure;
use proving_service::merkle::MerkleStore;

fn digest(n: u64) -> Digest {
    Digest { e0: n, e1: n + 1, e2: n + 2, e3: n + 3 }
}

fn theirs(d: Digest) -> miden_crypto::hash::rpo::RpoDigest {
    [d.e0, d.e1, d.e2, d.e3].map(miden_crypto::Felt::new).into()
}

fn their_path_nodes(path: &[Digest], index: u64, node: Digest) -> Vec<InnerNode> {
    let whole = miden_crypto::merkle::MerklePath::new(path.iter().map(|d| theirs(*d)).collect());
    whole
        .inner_nodes(index, theirs(node))
        .unwrap()
        .map(|n| InnerNode { value: n.value.into(), left: n.left.into(), right: n.right.into() })
        .collect()
}

fn sorted(store: &MerkleStore) -> Vec<([u64; 4], [u64; 4], [u64; 4])> {
    let mut nodes: Vec<_> =
        store.inner_nodes().into_iter().map(|n| (n.value, n.left, n.right)).collect();
    nodes.sort();
    nodes
}

#[test]
fn inner_nodes_climb_from_the_node_to_the_root() {
    let path = vec![digest(10), digest(20), digest(30)];
    let nodes = inner_nodes_of_path(&path, 5, digest(1)).unwrap();
    assert_eq!(nodes, their_path_nodes(&path, 5, digest(1)));
    assert_eq!(nodes.len(), 3);
    // place 5 is odd: the node is the right child, its sibling the left
    assert_eq!(nodes[0].left, [10, 11, 12, 13]);
    assert_eq!(nodes[0].right, [1, 2, 3, 4]);
    // place 2 is even: what was computed is the left child
    assert_eq!(nodes[1].left, nodes[0].value);
    assert_eq!(nodes[1].right, [20, 21, 22, 23]);
    // place 1 is odd again
    assert_eq!(nodes[2].left, [30, 31, 32, 33]);
    assert_eq!(nodes[2].right, nodes[1].value);
}

#[test]
fn index_must_fit_the_depth_of_the_path() {
    let path = vec![digest(10), digest(20)];
    assert!(inner_nodes_of_path(&path, 3, digest(1)).is_ok());
    assert_eq!(
        inner_nodes_of_path(&path, 4, digest(1)),
        Err(MerkleFailure::InvalidNodeIndex { depth: 2, value: 4 })
    );
    assert_eq!(
        inner_nodes_of_path(&path, u64::MAX, digest(1)),
        Err(MerkleFailure::InvalidNodeIndex { depth: 2, value: u64::MAX })
    );
}

#[test]
fn empty_path_has_no_inner_nodes() {
    let path: Vec<Digest> = Vec::new();
    assert_eq!(inner_nodes_of_path(&path, 0, digest(1)), Ok(Vec::new()));
    assert_eq!(
        inner_nodes_of_path(&path, 1, digest(1)),
        Err(MerkleFailure::InvalidNodeIndex { depth: 0, value: 1 })
    );
}

#[test]
fn deep_path_takes_every_index() {
    let path: Vec<Digest> = (0..64).map(|i| digest(100 + 4 * i)).collect();
    let nodes = inner_nodes_of_path(&path, u64::MAX, digest(1)).unwrap();
    assert_eq!(nodes.len(), 64);
    assert_eq!(nodes, their_path_nodes(&path, u64::MAX, digest(1)));
}

#[test]
fn store_holds_what_is_filed() {
    let mut store = MerkleStore::new();
    let fresh = sorted(&store);
    assert_eq!(fresh.len(), miden_crypto::merkle::DefaultMerkleStore::new().num_internal_nodes());

    let path = vec![digest(10), digest(20)];
    let nodes = inner_nodes_of_path(&path, 2, digest(1)).unwrap();
    store.extend(nodes.clone());
    let filled = sorted(&store);
    assert_eq!(filled.len(), fresh.len() + 2);
    for n in &nodes {
        assert!(filled.contains(&(n.value, n.left, n.right)));
    }
    for n in &fresh {
        assert!(filled.contains(n));
    }
}

#[test]
fn later_node_replaces_earlier_with_the_same_digest() {
    let mut store = MerkleStore::new();
    let count = sorted(&store).len();
    let first = InnerNode { value: [1, 2, 3, 4], left: [5, 5, 5, 5], right: [6, 6, 6, 6] };
    let second = InnerNode { value: [1, 2, 3, 4], left: [7, 7, 7, 7], right: [8, 8, 8, 8] };
    store.extend(vec![first, second]);
    let filled = sorted(&store);
    assert_eq!(filled.len(), count + 1);
    assert!(filled.contains(&([1, 2, 3, 4], [7, 7, 7, 7], [8, 8, 8, 8])));
    assert!(!filled.contains(&([1, 2, 3, 4], [5, 5, 5, 5], [6, 6, 6, 6])));
}
