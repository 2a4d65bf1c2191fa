use ghost_core::account_mapping::{h160_to_ss58, ss58_to_h160, verify_evm_roundtrip};

// The well-known development account identifiers for Alice and Bob.
const ALICE_ACCOUNT_ID: [u8; 32] = [
    0xd4, 0x35, 0x93, 0xc7, 0x15, 0xfd, 0xd3, 0x1c, 0x61, 0x14, 0x1a, 0xbd, 0x04, 0xa9, 0x9f,
    0xd6, 0x82, 0x2c, 0x85, 0x58, 0x85, 0x4c, 0xcd, 0xe3, 0x9a, 0x56, 0x84, 0xe7, 0xa5, 0x6d,
    0xa2, 0x7d,
];
const BOB_ACCOUNT_ID: [u8; 32] = [
    0x8e, 0xaf, 0x04, 0x15, 0x16, 0x87, 0x73, 0x63, 0x26, 0xc9, 0xfe, 0xa1, 0x7e, 0x25, 0xfc,
    0x52, 0x87, 0x61, 0x36, 0x93, 0xc9, 0x12, 0x90, 0x9c, 0xb2, 0x26, 0xaa, 0x47, 0x94, 0xf2,
    0x6a, 0x48,
];

// A 20-byte address whose last eight bytes hold `value` big-endian.
fn h160_from_low_u64_be(value: u64) -> Vec<u8> {
    let mut address = vec![0u8; 20];
    address[12..20].copy_from_slice(&value.to_be_bytes());
    address
}

#[test]
fn test_ss58_to_h160_deterministic() {
    let account_id = vec![1u8; 32];
    let h160_1 = ss58_to_h160(&account_id);
    let h160_2 = ss58_to_h160(&account_id);

    assert_eq!(h160_1, h160_2, "Conversion should be deterministic");
    assert_eq!(h160_1, vec![1u8; 20], "Should take first 20 bytes");
}

#[test]
fn test_h160_to_ss58_deterministic() {
    let eth_address = h160_from_low_u64_be(42);
    let account_1 = h160_to_ss58(&eth_address);
    let account_2 = h160_to_ss58(&eth_address);

    assert_eq!(account_1, account_2, "Conversion should be deterministic");
}

#[test]
fn test_h160_to_ss58_different_addresses() {
    let addr1 = h160_from_low_u64_be(1);
    let addr2 = h160_from_low_u64_be(2);

    let account1 = h160_to_ss58(&addr1);
    let account2 = h160_to_ss58(&addr2);

    assert_ne!(
        account1, account2,
        "Different addresses should map to different accounts"
    );
}

#[test]
fn test_ss58_to_h160_truncation() {
    let mut account_bytes = vec![0u8; 32];
    // Set first 20 bytes to 1
    account_bytes[0..20].copy_from_slice(&[1u8; 20]);
    // Set last 12 bytes to 2 (these should be ignored)
    account_bytes[20..32].copy_from_slice(&[2u8; 12]);

    let h160_addr = ss58_to_h160(&account_bytes);

    assert_eq!(h160_addr, vec![1u8; 20], "Should only use first 20 bytes");
}

#[test]
fn test_alice_account_conversion() {
    let alice = ALICE_ACCOUNT_ID.to_vec();
    let alice_eth = ss58_to_h160(&alice);

    // Verify the conversion is deterministic
    assert_eq!(alice_eth, ss58_to_h160(&alice));

    // Verify it's 20 bytes
    assert_eq!(alice_eth.len(), 20);
}

#[test]
fn test_bob_account_conversion() {
    let bob = BOB_ACCOUNT_ID.to_vec();
    let bob_eth = ss58_to_h160(&bob);

    // Bob and Alice should have different Ethereum addresses
    let alice_eth = ss58_to_h160(&ALICE_ACCOUNT_ID.to_vec());
    assert_ne!(
        alice_eth, bob_eth,
        "Different accounts should map to different addresses"
    );
}

#[test]
fn test_zero_address() {
    let zero_eth = vec![0u8; 20];
    let account = h160_to_ss58(&zero_eth);

    // Zero address should create a valid AccountId
    assert_ne!(
        account,
        vec![0u8; 32],
        "Should not be all zeros due to hashing"
    );

    // Should be deterministic
    assert_eq!(account, h160_to_ss58(&zero_eth));
}

#[test]
fn test_max_address() {
    let max_eth = vec![0xff; 20];
    let account = h160_to_ss58(&max_eth);

    // Should create a valid AccountId
    assert_ne!(
        account,
        vec![0xff; 32],
        "Should not be all 0xff due to hashing"
    );

    // Should be deterministic
    assert_eq!(account, h160_to_ss58(&max_eth));
}

#[test]
fn roundtrip_check_matches_conversions() {
    let address = h160_from_low_u64_be(7);
    let recovered = ss58_to_h160(&h160_to_ss58(&address));
    assert_eq!(verify_evm_roundtrip(&address), recovered == address);
}
