use vstd::prelude::*;
use crate::digest::{
    digest_le, keccak256, keccak_of, lemma_seq_le_antisymmetric, lemma_seq_le_total, seq_le,
};

verus! {

/// Bytes hashed into the leaf of one entitlement: the index as 4 bytes
/// little-endian, the 32-byte recipient identity, the amount as 8 bytes
/// little-endian.
pub open spec fn leaf_bytes(index: u32, recipient: Seq<u8>, amount: u64) -> Seq<u8> {
    vstd::bytes::spec_u32_to_le_bytes(index) + recipient + vstd::bytes::spec_u64_to_le_bytes(
        amount,
    )
}

/// Leaf digest of one entitlement.
pub open spec fn leaf_digest(index: u32, recipient: Seq<u8>, amount: u64) -> Seq<u8> {
    keccak_of(leaf_bytes(index, recipient, amount))
}

/// Parent digest of a sibling pair: the two children are put in low/high
/// order as byte strings before hashing, so an authentication path need not
/// record which side each sibling stood on.
pub open spec fn node_digest(a: Seq<u8>, b: Seq<u8>) -> Seq<u8> {
    if seq_le(a, b) {
        keccak_of(a + b)
    } else {
        keccak_of(b + a)
    }
}

/// The root reached by folding the authentication path onto a leaf digest,
/// nearest sibling first.
pub open spec fn fold_path(leaf: Seq<u8>, path: Seq<Seq<u8>>) -> Seq<u8>
    decreases path.len(),
{
    if path.len() == 0 {
        leaf
    } else {
        fold_path(node_digest(leaf, path[0]), path.drop_first())
    }
}

/// The byte strings of a vector of sibling digests.
pub open spec fn path_view(path: Seq<[u8; 32]>) -> Seq<Seq<u8>> {
    path.map_values(|d: [u8; 32]| d@)
}

/// A sibling contributes the same parent digest whether it stands on the
/// left or on the right: the low/high normalization makes the pair order
/// irrelevant.
pub proof fn lemma_node_digest_symmetric(a: Seq<u8>, b: Seq<u8>)
    ensures
        node_digest(a, b) == node_digest(b, a),
{
    lemma_seq_le_total(a, b);
    if seq_le(a, b) && seq_le(b, a) {
        lemma_seq_le_antisymmetric(a, b);
    }
}

/// Leaf serialization binds the whole entitlement: two entitlements with
/// 32-byte identities have the same leaf bytes only if index, identity and
/// amount all agree. (That distinct leaf bytes also give distinct digests is
/// the hash function's collision resistance, which is not modeled here.)
pub proof fn lemma_leaf_bytes_injective(
    i1: u32,
    r1: Seq<u8>,
    a1: u64,
    i2: u32,
    r2: Seq<u8>,
    a2: u64,
)
    requires
        r1.len() == 32,
        r2.len() == 32,
        leaf_bytes(i1, r1, a1) == leaf_bytes(i2, r2, a2),
    ensures
        i1 == i2,
        r1 == r2,
        a1 == a2,
{
    vstd::bytes::lemma_auto_spec_u32_to_from_le_bytes();
    vstd::bytes::lemma_auto_spec_u64_to_from_le_bytes();
    let s1 = leaf_bytes(i1, r1, a1);
    let s2 = leaf_bytes(i2, r2, a2);
    assert(vstd::bytes::spec_u32_to_le_bytes(i1) =~= s1.subrange(0, 4));
    assert(vstd::bytes::spec_u32_to_le_bytes(i2) =~= s2.subrange(0, 4));
    assert(r1 =~= s1.subrange(4, 36));
    assert(r2 =~= s2.subrange(4, 36));
    assert(vstd::bytes::spec_u64_to_le_bytes(a1) =~= s1.subrange(36, 44));
    assert(vstd::bytes::spec_u64_to_le_bytes(a2) =~= s2.subrange(36, 44));
    assert(i1 == vstd::bytes::spec_u32_from_le_bytes(vstd::bytes::spec_u32_to_le_bytes(i1)));
    assert(a1 == vstd::bytes::spec_u64_from_le_bytes(vstd::bytes::spec_u64_to_le_bytes(a1)));
}

/// Leaf digest of one entitlement, exactly as hashed into the committed
/// tree.
pub fn leaf_hash(index: u32, recipient: &[u8; 32], amount: u64) -> (r: [u8; 32])
    ensures
        r@ == leaf_digest(index, recipient@, amount),
{
    let mut data = vstd::bytes::u32_to_le_bytes(index);
    let mut rec = vstd::slice::slice_to_vec(recipient.as_slice());
    data.append(&mut rec);
    let mut amt = vstd::bytes::u64_to_le_bytes(amount);
    data.append(&mut amt);
    proof {
        assert(data@ =~= leaf_bytes(index, recipient@, amount));
    }
    keccak256(&data)
}

/// Parent digest of two sibling digests.
pub fn hash_pair(a: &[u8; 32], b: &[u8; 32]) -> (r: [u8; 32])
    ensures
        r@ == node_digest(a@, b@),
{
    let low_first = digest_le(a, b);
    let (low, high) = if low_first {
        (a, b)
    } else {
        (b, a)
    };
    let mut data = vstd::slice::slice_to_vec(low.as_slice());
    let mut rest = vstd::slice::slice_to_vec(high.as_slice());
    data.append(&mut rest);
    keccak256(&data)
}

/// Folds an authentication path onto a leaf digest and returns the root it
/// reaches.
pub fn fold_proof(leaf: &[u8; 32], path: &Vec<[u8; 32]>) -> (r: [u8; 32])
    ensures
        r@ == fold_path(leaf@, path_view(path@)),
{
    let ghost pv = path_view(path@);
    let mut computed: [u8; 32] = *leaf;
    let mut i: usize = 0;
    proof {
        assert(pv.skip(0) =~= pv);
    }
    while i < path.len()
        invariant
            i <= path@.len(),
            pv == path_view(path@),
            fold_path(computed@, pv.skip(i as int)) == fold_path(leaf@, pv),
        decreases path@.len() - i,
    {
        let sibling = &path[i];
        proof {
            assert(pv.skip(i as int)[0] == pv[i as int]);
            assert(pv.skip(i as int).drop_first() =~= pv.skip(i as int + 1));
        }
        computed = hash_pair(&computed, sibling);
        i = i + 1;
    }
    proof {
        assert(pv.skip(path@.len() as int) =~= Seq::<Seq<u8>>::empty());
    }
    computed
}

} // verus!
