use vstd::prelude::*;
use crate::BITMAP_BYTES;

verus! {

/// Total length of the persisted record layout: root, vault, bump, mint,
/// total supply, claim bitmap, authority.
pub const RECORD_BYTES: usize = 32 + 32 + 1 + 32 + 16 + BITMAP_BYTES + 32;

/// Whether bit `i` of a packed bitmap is set: bit `i % 8` of byte `i / 8`.
pub open spec fn bitmap_bit(bm: Seq<u8>, i: int) -> bool
    recommends
        0 <= i,
        i / 8 < bm.len(),
{
    (bm[i / 8] >> ((i % 8) as u8)) & 1 == 1
}

/// The persistent record binding a committed merkle root to its claim
/// bitmap, its funding source and its signing material. Created once;
/// after that only the bitmap ever changes, one bit per successful claim.
pub struct Distributor {
    /// The committed root; the single source of truth for valid
    /// entitlements.
    pub merkle_root: [u8; 32],
    /// The funding account the payouts are drawn from.
    pub vault: [u8; 32],
    /// Seed bump of the record's derived signing address.
    pub bump: u8,
    /// The asset type being distributed.
    pub token_mint: [u8; 32],
    /// Informational total committed; not checked against cumulative
    /// claims.
    pub total_supply: u128,
    /// One bit per entitlement index; a set bit means that index has been
    /// paid.
    pub claimed_bitmap: [u8; BITMAP_BYTES],
    /// The identity allowed to sign outgoing transfers for the vault.
    pub authority: [u8; 32],
}

impl Distributor {
    /// Whether entitlement `index` has been paid.
    pub open spec fn spec_claimed(self, index: int) -> bool {
        bitmap_bit(self.claimed_bitmap@, index)
    }

    /// The fields no claim ever changes.
    pub open spec fn same_bindings(self, other: Distributor) -> bool {
        &&& self.merkle_root == other.merkle_root
        &&& self.vault == other.vault
        &&& self.bump == other.bump
        &&& self.token_mint == other.token_mint
        &&& self.total_supply == other.total_supply
        &&& self.authority == other.authority
    }

    /// Reads the claim bit of `index`.
    pub fn is_claimed(&self, index: u32) -> (r: bool)
        requires
            index as int / 8 < BITMAP_BYTES as int,
        ensures
            r == self.spec_claimed(index as int),
    {
        let byte_index: usize = (index / 8) as usize;
        let bit: u8 = (index % 8) as u8;
        let b: u8 = self.claimed_bitmap[byte_index];
        let r = b & (1u8 << bit) != 0;
        proof {
            let p = (index % 8) as u8;
            assert((b & (1u8 << p) != 0) == ((b >> p) & 1 == 1)) by (bit_vector)
                requires
                    p < 8,
            ;
        }
        r
    }

    /// Sets the claim bit of `index`; every other bit keeps its value.
    pub fn mark_claimed(&mut self, index: u32)
        requires
            index as int / 8 < BITMAP_BYTES as int,
        ensures
            final(self).same_bindings(*old(self)),
            final(self).spec_claimed(index as int),
            forall|j: int|
                0 <= j < 8 * BITMAP_BYTES ==> (final(self).spec_claimed(j) <==> (j == index as int
                    || old(self).spec_claimed(j))),
    {
        let byte_index: usize = (index / 8) as usize;
        let bit: u8 = (index % 8) as u8;
        let b: u8 = self.claimed_bitmap[byte_index];
        self.claimed_bitmap[byte_index] = b | (1u8 << bit);
        proof {
            let bm0 = old(self).claimed_bitmap@;
            let bm1 = self.claimed_bitmap@;
            let bi = index as int / 8;
            let p = (index % 8) as u8;
            assert(((b | (1u8 << p)) >> p) & 1 == 1) by (bit_vector)
                requires
                    p < 8,
            ;
            assert forall|j: int|
                0 <= j < 8 * BITMAP_BYTES implies (bitmap_bit(bm1, j) <==> (j == index as int
                || bitmap_bit(bm0, j))) by {
                let q = (j % 8) as u8;
                if j / 8 == bi {
                    assert(bm1[j / 8] == b | (1u8 << p));
                    assert(bm0[j / 8] == b);
                    assert(((b | (1u8 << p)) >> q) & 1 == 1 <==> (q == p || (b >> q) & 1 == 1))
                        by (bit_vector)
                        requires
                            p < 8,
                            q < 8,
                    ;
                    assert(j == index as int <==> (j / 8 == bi && q == p));
                } else {
                    assert(bm1[j / 8] == bm0[j / 8]);
                    assert(j != index as int);
                }
            }
        }
    }

    /// The record's persisted byte layout: root, vault, bump, mint, total
    /// supply little-endian, claim bitmap, authority.
    pub open spec fn spec_bytes(self) -> Seq<u8> {
        self.merkle_root@ + self.vault@ + seq![self.bump] + self.token_mint@
            + vstd::bytes::spec_u128_to_le_bytes(self.total_supply) + self.claimed_bitmap@
            + self.authority@
    }

    /// Serializes the record into its persisted layout.
    pub fn to_bytes(&self) -> (r: Vec<u8>)
        ensures
            r@ == self.spec_bytes(),
            r@.len() == RECORD_BYTES,
    {
        let mut out = vstd::slice::slice_to_vec(self.merkle_root.as_slice());
        let mut piece = vstd::slice::slice_to_vec(self.vault.as_slice());
        out.append(&mut piece);
        out.push(self.bump);
        let mut piece = vstd::slice::slice_to_vec(self.token_mint.as_slice());
        out.append(&mut piece);
        let mut piece = vstd::bytes::u128_to_le_bytes(self.total_supply);
        out.append(&mut piece);
        let mut piece = vstd::slice::slice_to_vec(self.claimed_bitmap.as_slice());
        out.append(&mut piece);
        let mut piece = vstd::slice::slice_to_vec(self.authority.as_slice());
        out.append(&mut piece);
        proof {
            assert(out@ =~= self.spec_bytes());
        }
        out
    }

    /// Parses a persisted record; returns `None` exactly when the input is
    /// not `RECORD_BYTES` long.
    pub fn from_bytes(bytes: &[u8]) -> (r: Option<Distributor>)
        ensures
            r is Some <==> bytes@.len() == RECORD_BYTES,
            r matches Some(d) ==> d.spec_bytes() == bytes@,
    {
        if bytes.len() != RECORD_BYTES {
            return None;
        }
        let merkle_root: [u8; 32] = read_array(bytes, 0);
        let vault: [u8; 32] = read_array(bytes, 32);
        let bump: u8 = *vstd::slice::slice_index_get(bytes, 64);
        let token_mint: [u8; 32] = read_array(bytes, 65);
        let total_supply: u128 = vstd::bytes::u128_from_le_bytes(
            vstd::slice::slice_subrange(bytes, 97, 113),
        );
        let claimed_bitmap: [u8; BITMAP_BYTES] = read_array(bytes, 113);
        let authority: [u8; 32] = read_array(bytes, 115);
        let d = Distributor {
            merkle_root,
            vault,
            bump,
            token_mint,
            total_supply,
            claimed_bitmap,
            authority,
        };
        proof {
            vstd::bytes::lemma_auto_spec_u128_to_from_le_bytes();
            assert(d.spec_bytes() =~= bytes@);
        }
        Some(d)
    }
}

/// Copies `N` bytes out of a slice, starting at `start`.
fn read_array<const N: usize>(bytes: &[u8], start: usize) -> (r: [u8; N])
    requires
        start + N <= bytes@.len(),
    ensures
        r@ == bytes@.subrange(start as int, start as int + N),
{
    let len: usize = bytes.len();
    let mut r: [u8; N] = [0u8; N];
    let mut i: usize = 0;
    while i < N
        invariant
            i <= N,
            start + N <= len,
            len == bytes@.len(),
            r@.len() == N,
            forall|j: int| 0 <= j < i ==> r@[j] == bytes@[start + j],
        decreases N - i,
    {
        r[i] = *vstd::slice::slice_index_get(bytes, start + i);
        i = i + 1;
    }
    proof {
        assert(r@ =~= bytes@.subrange(start as int, start as int + N));
    }
    r
}

/// Creates the record for a newly committed root: the given bindings and a
/// fully clear bitmap — no index starts claimed.
pub fn initialize(
    merkle_root: [u8; 32],
    total_supply: u128,
    vault: [u8; 32],
    token_mint: [u8; 32],
    authority: [u8; 32],
    bump: u8,
) -> (d: Distributor)
    ensures
        d.merkle_root == merkle_root,
        d.vault == vault,
        d.bump == bump,
        d.token_mint == token_mint,
        d.total_supply == total_supply,
        d.authority == authority,
        d.claimed_bitmap@ == Seq::<u8>::new(BITMAP_BYTES as nat, |i: int| 0u8),
        forall|j: int| 0 <= j < 8 * BITMAP_BYTES ==> !d.spec_claimed(j),
{
    let d = Distributor {
        merkle_root,
        vault,
        bump,
        token_mint,
        total_supply,
        claimed_bitmap: [0u8; BITMAP_BYTES],
        authority,
    };
    proof {
        assert(d.claimed_bitmap@ =~= Seq::<u8>::new(BITMAP_BYTES as nat, |i: int| 0u8));
        assert forall|j: int| 0 <= j < 8 * BITMAP_BYTES implies !d.spec_claimed(j) by {
            let q = (j % 8) as u8;
            assert((0u8 >> q) & 1 == 0) by (bit_vector);
        }
    }
    d
}

/// Two records with the same persisted bytes agree on every field: the
/// layout loses nothing.
pub proof fn lemma_record_bytes_injective(d1: Distributor, d2: Distributor)
    requires
        d1.spec_bytes() == d2.spec_bytes(),
    ensures
        d1.merkle_root@ == d2.merkle_root@,
        d1.vault@ == d2.vault@,
        d1.bump == d2.bump,
        d1.token_mint@ == d2.token_mint@,
        d1.total_supply == d2.total_supply,
        d1.claimed_bitmap@ == d2.claimed_bitmap@,
        d1.authority@ == d2.authority@,
{
    vstd::bytes::lemma_auto_spec_u128_to_from_le_bytes();
    let s1 = d1.spec_bytes();
    let s2 = d2.spec_bytes();
    assert(d1.merkle_root@ =~= s1.subrange(0, 32));
    assert(d2.merkle_root@ =~= s2.subrange(0, 32));
    assert(d1.vault@ =~= s1.subrange(32, 64));
    assert(d2.vault@ =~= s2.subrange(32, 64));
    assert(d1.bump == s1[64]);
    assert(d2.bump == s2[64]);
    assert(d1.token_mint@ =~= s1.subrange(65, 97));
    assert(d2.token_mint@ =~= s2.subrange(65, 97));
    assert(vstd::bytes::spec_u128_to_le_bytes(d1.total_supply) =~= s1.subrange(97, 113));
    assert(vstd::bytes::spec_u128_to_le_bytes(d2.total_supply) =~= s2.subrange(97, 113));
    assert(d1.total_supply == vstd::bytes::spec_u128_from_le_bytes(
        vstd::bytes::spec_u128_to_le_bytes(d1.total_supply),
    ));
    assert(d1.claimed_bitmap@ =~= s1.subrange(113, 113 + BITMAP_BYTES as int));
    assert(d2.claimed_bitmap@ =~= s2.subrange(113, 113 + BITMAP_BYTES as int));
    assert(d1.authority@ =~= s1.subrange(
        113 + BITMAP_BYTES as int,
        113 + BITMAP_BYTES as int + 32,
    ));
    assert(d2.authority@ =~= s2.subrange(
        113 + BITMAP_BYTES as int,
        113 + BITMAP_BYTES as int + 32,
    ));
}

} // verus!
