use airdropper::claim::claim;
use airdropper::distributor::{initialize, Distributor, RECORD_BYTES};
use airdropper::merkle::leaf_hash;

fn sample() -> Distributor {
    initialize(
        [1u8; 32],
        0x0102_0304_0506_0708_090a_0b0c_0d0e_0f10,
        [2u8; 32],
        [3u8; 32],
        [4u8; 32],
        251,
    )
}

#[test]
fn record_layout_is_byte_exact() {
    let d = sample();
    let bytes = d.to_bytes();
    assert_eq!(RECORD_BYTES, 147);
    assert_eq!(bytes.len(), 147);
    assert_eq!(&bytes[0..32], &[1u8; 32]);
    assert_eq!(&bytes[32..64], &[2u8; 32]);
    assert_eq!(bytes[64], 251);
    assert_eq!(&bytes[65..97], &[3u8; 32]);
    assert_eq!(
        &bytes[97..113],
        &0x0102_0304_0506_0708_090a_0b0c_0d0e_0f10u128.to_le_bytes()
    );
    assert_eq!(&bytes[113..115], &[0u8, 0u8]);
    assert_eq!(&bytes[115..147], &[4u8; 32]);
}

#[test]
fn record_round_trips_through_its_layout() {
    let mut d = sample();
    let leaf = leaf_hash(9, &[7u8; 32], 3);
    d.merkle_root = leaf;
    assert_eq!(claim(&mut d, 9, 3, &[7u8; 32], &vec![]), Ok(()));
    let parsed = Distributor::from_bytes(&d.to_bytes()).unwrap();
    assert_eq!(parsed.merkle_root, d.merkle_root);
    assert_eq!(parsed.vault, d.vault);
    assert_eq!(parsed.bump, d.bump);
    assert_eq!(parsed.token_mint, d.token_mint);
    assert_eq!(parsed.total_supply, d.total_supply);
    assert_eq!(parsed.claimed_bitmap, d.claimed_bitmap);
    assert_eq!(parsed.authority, d.authority);
    assert!(parsed.is_claimed(9));
}

#[test]
fn wrong_length_is_not_a_record() {
    let d = sample();
    let mut bytes = d.to_bytes();
    bytes.push(0);
    assert!(Distributor::from_bytes(&bytes).is_none());
    assert!(Distributor::from_bytes(&bytes[0..146]).is_none());
    assert!(Distributor::from_bytes(&[]).is_none());
}
