//! An airdrop distributor: an issuer commits to a fixed list of
//! (recipient, amount) entitlements through one 32-byte merkle root, and
//! each recipient later proves membership and withdraws its allotted amount
//! exactly once. The membership-proof check, the per-index claim bitmap and
//! the claim orchestration are verified here; storing the record and moving
//! the asset are the surrounding ledger's work.

use vstd::prelude::*;

pub mod claim;
pub mod digest;
pub mod distributor;
pub mod merkle;

verus! {

/// Number of entitlement indices a committed tree may cover.
pub const MAX_LEAVES: usize = 10;

/// Length in bytes of the packed claim bitmap: one bit per entitlement index.
pub const BITMAP_BYTES: usize = (MAX_LEAVES + 7) / 8;

} // verus!
