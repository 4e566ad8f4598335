//! Field elements, digests and the hash that commits to them.
//!
//! A field element is held as a `u64`. The hash is the RPO hash of the
//! cryptography library, called on the elements that the element vector
//! stands for; nothing is proved of it beyond that equal inputs give equal
//! digests.

use vstd::prelude::*;

verus! {

/// An element of the base field, as an integer.
pub type Felt = u64;

/// The zero element.
pub const ZERO: Felt = 0;

/// Four field elements: a hash digest, or a word of data.
#[derive(Clone, Copy, Debug, PartialEq, Eq, Structural)]
pub struct Digest {
    pub e0: Felt,
    pub e1: Felt,
    pub e2: Felt,
    pub e3: Felt,
}

/// The RPO hash of a sequence of field elements, as its four elements.
pub uninterp spec fn rpo_hash_elements(elements: Seq<u64>) -> Seq<u64>;

impl Digest {
    /// The four elements in order.
    pub open spec fn elements(self) -> Seq<u64> {
        seq![self.e0, self.e1, self.e2, self.e3]
    }

    /// The sort key of the digest: its elements as a tuple.
    pub open spec fn key(self) -> (u64, u64, u64, u64) {
        (self.e0, self.e1, self.e2, self.e3)
    }

    /// A digest from its four elements.
    pub fn new(elements: [Felt; 4]) -> (d: Digest)
        ensures
            d.elements() == elements@,
    {
        let d = Digest { e0: elements[0], e1: elements[1], e2: elements[2], e3: elements[3] };
        assert(d.elements() =~= elements@);
        d
    }

    /// The four elements in order.
    pub fn as_elements(&self) -> (elements: [Felt; 4])
        ensures
            elements@ == self.elements(),
    {
        let elements = [self.e0, self.e1, self.e2, self.e3];
        assert(elements@ =~= self.elements());
        elements
    }

    /// The sort key of the digest.
    pub fn to_key(&self) -> (k: (u64, u64, u64, u64))
        ensures
            k == self.key(),
    {
        (self.e0, self.e1, self.e2, self.e3)
    }

    /// The digest of no data: four zeros.
    pub fn empty() -> (d: Digest)
        ensures
            d == (Digest { e0: 0, e1: 0, e2: 0, e3: 0 }),
    {
        Digest { e0: ZERO, e1: ZERO, e2: ZERO, e3: ZERO }
    }
}

/// Calls `miden_crypto::hash::rpo::Rpo256::hash_elements` on the field
/// elements that the integers stand for, and gives the digest's elements as
/// integers. Trusted: the digest depends on the elements alone.
#[verifier::external_body]
pub(crate) fn hash_elements(elements: &Vec<Felt>) -> (d: Digest)
    ensures
        d.elements() == rpo_hash_elements(elements@),
{
    let felts: Vec<miden_crypto::Felt> = elements.iter().map(|e| miden_crypto::Felt::new(*e)).collect();
    let digest = miden_crypto::hash::rpo::Rpo256::hash_elements(&felts);
    let word: [miden_crypto::Felt; 4] = digest.into();
    Digest {
        e0: word[0].as_int(),
        e1: word[1].as_int(),
        e2: word[2].as_int(),
        e3: word[3].as_int(),
    }
}

} // verus!
