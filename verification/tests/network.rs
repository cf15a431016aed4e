use circuit_field::network::{Network, Testnet3};

#[test]
fn test_testnet3_parameters() {
    assert_eq!(Testnet3::ID, 3);
    assert_eq!(Testnet3::EDITION, 0);
    assert_eq!(Testnet3::MAX_DATA_DEPTH, 32);
    assert_eq!(Testnet3::MAX_DATA_ENTRIES, 32);
    assert_eq!(Testnet3::MAX_INPUTS, 8);
    assert_eq!(Testnet3::MAX_OUTPUTS, 8);
    assert_eq!(Testnet3::MAX_TRANSITIONS, 16);
    assert_eq!(Testnet3::MAX_TRANSACTIONS, 65536);
    assert_eq!(Testnet3::MAX_STRING_BYTES, 255);
}

#[test]
fn test_max_data_size_in_fields() {
    // 128 KiB of bits, in elements of 252 data bits each.
    assert_eq!(Testnet3::MAX_DATA_SIZE_IN_FIELDS, 4161);
    assert_eq!(Testnet3::MAX_DATA_SIZE_IN_FIELDS, (128 * 1024 * 8) / 252);
}

#[test]
fn test_max_data_depth_is_below_u8_max() {
    assert!(Testnet3::MAX_DATA_DEPTH < u8::MAX as usize);
}

#[test]
fn test_network_halt() {
    let halt = Testnet3::halt("The network halts.");
    assert_eq!(halt.message(), "The network halts.");
}
