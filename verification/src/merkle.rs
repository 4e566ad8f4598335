//! Authentication paths and the store of tree nodes.
//!
//! A path lists the siblings met on the way from a node of a Merkle tree
//! up to the root. The inner nodes that lie on that way are computed by the
//! cryptography library and kept in its store, which is opaque here: what a
//! store holds is named as a map from the digest of a node to the digests of
//! its two children.

use crate::crypto::Digest;
use crate::crypto::Felt;
use crate::kernel::canonical_elements;
use vstd::arithmetic::power2::lemma2_to64;
use vstd::arithmetic::power2::lemma_pow2_strictly_increases;
use vstd::arithmetic::power2::pow2;
use vstd::prelude::*;

verus! {

/// Largest number of siblings in a path.
pub const MAX_PATH_DEPTH: usize = 255;

/// An inner node of a tree: its digest and the digests of its two children,
/// each as four field elements.
#[derive(Clone, Copy, Debug, PartialEq, Eq)]
pub struct InnerNode {
    pub value: [Felt; 4],
    pub left: [Felt; 4],
    pub right: [Felt; 4],
}

/// Why the inner nodes of a path could not be computed.
#[derive(Clone, Copy, Debug, PartialEq, Eq, Structural)]
pub enum MerkleFailure {
    /// The index `value` names no node at the depth `depth` of the path.
    InvalidNodeIndex { depth: u8, value: u64 },
}

/// The store of tree nodes: the cryptography library's `MerkleStore`, kept
/// whole. What it holds is named by [`store_nodes`].
#[verifier::external_body]
pub struct MerkleStore {
    inner: miden_crypto::merkle::MerkleStore,
}

/// The cryptography library's error for trees and paths.
#[verifier::external_type_specification]
#[verifier::external_body]
pub struct ExMerkleError(miden_crypto::merkle::MerkleError);

/// What a store holds: for the digest of each node, as four integers, the
/// digests of its left and its right child.
pub uninterp spec fn store_nodes(store: MerkleStore) -> Map<
    Seq<u64>,
    (Seq<u64>, Seq<u64>),
>;

/// The inner nodes on the way from the node with digest `node` at place
/// `index` of its level up to the root, given the siblings `path` met on
/// that way: each with its digest and the digests of its children, from the
/// lowest to the root.
pub uninterp spec fn path_nodes(path: Seq<Seq<u64>>, index: u64, node: Seq<u64>) -> Seq<
    (Seq<u64>, Seq<u64>, Seq<u64>),
>;

/// Whether `index` names a node at depth `depth`: a level at that depth has
/// two to the power of `depth` places.
pub open spec fn index_fits(depth: nat, index: u64) -> bool {
    (index as nat) < pow2(depth)
}

/// A path of 64 or more siblings leads to a level on which every index
/// names a node.
pub proof fn lemma_every_index_fits_a_deep_path(depth: nat, index: u64)
    requires
        depth >= 64,
    ensures
        index_fits(depth, index),
{
    lemma2_to64();
    if depth > 64 {
        lemma_pow2_strictly_increases(64, depth);
    }
}

/// The elements of each digest of a list.
pub open spec fn digest_elements(digests: Seq<Digest>) -> Seq<Seq<u64>> {
    Seq::new(digests.len(), |i: int| digests[i].elements())
}

/// An inner node as three lists of elements: digest, left child, right
/// child.
pub open spec fn node_triple(n: InnerNode) -> (Seq<u64>, Seq<u64>, Seq<u64>) {
    (n.value@, n.left@, n.right@)
}

/// The inner nodes of a list as lists of elements.
pub open spec fn node_triples(nodes: Seq<InnerNode>) -> Seq<(Seq<u64>, Seq<u64>, Seq<u64>)> {
    Seq::new(nodes.len(), |i: int| node_triple(nodes[i]))
}

/// The store after the nodes have been filed in order: each under its
/// digest, in place of what was filed there.
pub open spec fn with_nodes(
    store: Map<Seq<u64>, (Seq<u64>, Seq<u64>)>,
    nodes: Seq<(Seq<u64>, Seq<u64>, Seq<u64>)>,
) -> Map<Seq<u64>, (Seq<u64>, Seq<u64>)>
    decreases nodes.len(),
{
    if nodes.len() == 0 {
        store
    } else {
        with_nodes(store, nodes.drop_last()).insert(
            canonical_elements(nodes.last().0),
            (canonical_elements(nodes.last().1), canonical_elements(nodes.last().2)),
        )
    }
}

/// Calls `miden_crypto::merkle::MerklePath::new` on the digests that the
/// integers stand for, and `MerklePath::inner_nodes` on the result. Trusted:
/// the call succeeds exactly when the index names a node at the depth of
/// the path, which is the number of its siblings; the nodes that it then
/// yields depend on the siblings, the index and the digest alone. A path of
/// more than 255 siblings cannot be built.
#[verifier::external_body]
fn merkle_path_inner_nodes(path: &Vec<Digest>, index: u64, node: Digest) -> (r: Result<
    Vec<InnerNode>,
    miden_crypto::merkle::MerkleError,
>)
    requires
        path@.len() <= MAX_PATH_DEPTH,
    ensures
        (r is Ok) == index_fits(path@.len(), index),
        r is Ok ==> node_triples(r->Ok_0@) == path_nodes(
            digest_elements(path@),
            index,
            node.elements(),
        ),
{
    let siblings =
        path.iter().map(|d| [d.e0, d.e1, d.e2, d.e3].map(miden_crypto::Felt::new).into()).collect();
    let leaf = [node.e0, node.e1, node.e2, node.e3].map(miden_crypto::Felt::new).into();
    let whole = miden_crypto::merkle::MerklePath::new(siblings);
    let inner = whole.inner_nodes(index, leaf)?;
    Ok(
        inner.map(
            |n| InnerNode { value: n.value.into(), left: n.left.into(), right: n.right.into() },
        ).collect(),
    )
}

/// The contents of a store that holds nothing.
pub open spec fn no_nodes() -> Map<Seq<u64>, (Seq<u64>, Seq<u64>)> {
    Map::empty()
}

/// Calls `miden_crypto::merkle::MerkleStore::new`. The library files the
/// roots of the empty subtrees in a new store; nothing is claimed of what
/// the result holds.
#[verifier::external_body]
fn merkle_store_new() -> (store: MerkleStore) {
    MerkleStore { inner: miden_crypto::merkle::MerkleStore::new() }
}

/// Calls `miden_crypto::merkle::MerkleStore::extend` with the nodes that the
/// integers stand for. Trusted: afterwards the store holds each node under
/// its digest, a later node in place of an earlier one with the same
/// digest, and is otherwise as before.
#[verifier::external_body]
fn merkle_store_extend(store: &mut MerkleStore, nodes: Vec<InnerNode>)
    ensures
        store_nodes(*final(store)) == with_nodes(store_nodes(*old(store)), node_triples(nodes@)),
{
    store.inner.extend(
        nodes.into_iter().map(
            |n|
                miden_crypto::merkle::InnerNodeInfo {
                    value: n.value.map(miden_crypto::Felt::new).into(),
                    left: n.left.map(miden_crypto::Felt::new).into(),
                    right: n.right.map(miden_crypto::Felt::new).into(),
                },
        ),
    );
}

/// Calls `miden_crypto::merkle::MerkleStore::inner_nodes` and gives what it
/// yields as integers. Trusted: the nodes listed are those that the store
/// holds, each once; nothing is claimed of their order.
#[verifier::external_body]
fn merkle_store_inner_nodes(store: &MerkleStore) -> (nodes: Vec<InnerNode>)
    ensures
        with_nodes(no_nodes(), node_triples(nodes@)) == store_nodes(*store),
{
    store.inner.inner_nodes().map(
        |n| InnerNode { value: n.value.into(), left: n.left.into(), right: n.right.into() },
    ).collect()
}

impl MerkleStore {
    /// A store as the cryptography library makes it.
    pub fn new() -> (store: Self) {
        merkle_store_new()
    }

    /// Files the nodes in order, each under its digest.
    pub fn extend(&mut self, nodes: Vec<InnerNode>)
        ensures
            store_nodes(*final(self)) == with_nodes(store_nodes(*old(self)), node_triples(nodes@)),
    {
        merkle_store_extend(self, nodes)
    }

    /// The nodes that the store holds, each once, in no stated order.
    pub fn inner_nodes(&self) -> (nodes: Vec<InnerNode>)
        ensures
            with_nodes(no_nodes(), node_triples(nodes@)) == store_nodes(*self),
    {
        merkle_store_inner_nodes(self)
    }
}

/// The inner nodes on the way from a node up to the root of its tree, given
/// the siblings met on that way. Fails exactly when the index names no node
/// at the depth of the path.
pub fn inner_nodes_of_path(path: &Vec<Digest>, index: u64, node: Digest) -> (r: Result<
    Vec<InnerNode>,
    MerkleFailure,
>)
    requires
        path@.len() <= MAX_PATH_DEPTH,
    ensures
        index_fits(path@.len(), index) ==> r is Ok && node_triples(r->Ok_0@) == path_nodes(
            digest_elements(path@),
            index,
            node.elements(),
        ),
        !index_fits(path@.len(), index) ==> r == Err::<Vec<InnerNode>, MerkleFailure>(
            MerkleFailure::InvalidNodeIndex { depth: path@.len() as u8, value: index },
        ),
{
    match merkle_path_inner_nodes(path, index, node) {
        Ok(nodes) => Ok(nodes),
        Err(_) => Err(MerkleFailure::InvalidNodeIndex { depth: path.len() as u8, value: index }),
    }
}

} // verus!
