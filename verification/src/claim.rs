use vstd::prelude::*;
use crate::BITMAP_BYTES;
use crate::digest::digest_eq;
use crate::distributor::Distributor;
use crate::merkle::{fold_path, fold_proof, leaf_digest, leaf_hash, path_view};

verus! {

/// The caller-visible failures of `claim`; both leave the record unchanged
/// and neither is retriable with the same inputs.
#[derive(Clone, Copy, Debug, PartialEq, Eq, Structural)]
pub enum AirdropError {
    /// The folded proof does not reach the committed root.
    InvalidMerkleRoot,
    /// The claim bit for this index is already set.
    AlreadyClaimed,
}

/// Whether the supplied entitlement and authentication path reconstruct
/// `root`.
pub open spec fn proof_reaches_root(
    root: Seq<u8>,
    index: u32,
    recipient: Seq<u8>,
    amount: u64,
    path: Seq<Seq<u8>>,
) -> bool {
    fold_path(leaf_digest(index, recipient, amount), path) == root
}

/// When a claim must succeed: the path reconstructs the committed root and
/// the index is still unclaimed.
pub open spec fn claim_allowed(
    d: Distributor,
    index: u32,
    recipient: Seq<u8>,
    amount: u64,
    path: Seq<Seq<u8>>,
) -> bool {
    proof_reaches_root(d.merkle_root@, index, recipient, amount, path)
        && !d.spec_claimed(index as int)
}

/// Verifies one entitlement against the committed root and marks its index
/// claimed. The recipient identity must be the one bound to the transfer
/// destination. On success the caller owes the recipient a transfer of
/// exactly `amount` from the vault; the claim bit is set before that
/// transfer is requested, so a re-entering call on the same index is
/// already rejected, and the surrounding transaction must roll the bit back
/// if the transfer fails.
pub fn claim(
    distributor: &mut Distributor,
    index: u32,
    amount: u64,
    recipient: &[u8; 32],
    path: &Vec<[u8; 32]>,
) -> (r: Result<(), AirdropError>)
    requires
        index as int / 8 < BITMAP_BYTES as int,
    ensures
        final(distributor).same_bindings(*old(distributor)),
        r is Ok <==> claim_allowed(*old(distributor), index, recipient@, amount, path_view(path@)),
        r == Err::<(), AirdropError>(AirdropError::InvalidMerkleRoot) <==> !proof_reaches_root(
            old(distributor).merkle_root@,
            index,
            recipient@,
            amount,
            path_view(path@),
        ),
        r == Err::<(), AirdropError>(AirdropError::AlreadyClaimed) <==> proof_reaches_root(
            old(distributor).merkle_root@,
            index,
            recipient@,
            amount,
            path_view(path@),
        ) && old(distributor).spec_claimed(index as int),
        r is Err ==> *final(distributor) == *old(distributor),
        r is Ok ==> forall|j: int|
            0 <= j < 8 * BITMAP_BYTES ==> (final(distributor).spec_claimed(j) <==> (j
                == index as int || old(distributor).spec_claimed(j))),
        forall|j: int|
            0 <= j < 8 * BITMAP_BYTES && old(distributor).spec_claimed(j)
                ==> final(distributor).spec_claimed(j),
{
    let leaf = leaf_hash(index, recipient, amount);
    let computed = fold_proof(&leaf, path);
    if !digest_eq(&computed, &distributor.merkle_root) {
        return Err(AirdropError::InvalidMerkleRoot);
    }
    if distributor.is_claimed(index) {
        return Err(AirdropError::AlreadyClaimed);
    }
    distributor.mark_claimed(index);
    Ok(())
}

/// At most once: whatever record a successful claim of `index` leaves
/// behind, no later claim of the same index can succeed, whatever amount,
/// recipient or path it supplies.
pub proof fn lemma_at_most_once(
    before: Distributor,
    after: Distributor,
    index: u32,
    amount: u64,
    recipient: Seq<u8>,
    path: Seq<Seq<u8>>,
)
    requires
        index as int / 8 < BITMAP_BYTES as int,
        forall|j: int|
            0 <= j < 8 * BITMAP_BYTES ==> (after.spec_claimed(j) <==> (j == index as int
                || before.spec_claimed(j))),
    ensures
        !claim_allowed(after, index, recipient, amount, path),
{
    assert(after.spec_claimed(index as int));
}

} // verus!
