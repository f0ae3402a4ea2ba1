use bevy_solana::pubkey::WrappedPubkey;
use bevy_solana::wire::transaction_payload;

#[test]
fn from_bytes_keeps_the_bytes() {
    let mut bytes = [0u8; 32];
    bytes[0] = 1;
    bytes[31] = 255;
    assert_eq!(WrappedPubkey::from_bytes(bytes).0, bytes);
}

#[test]
fn default_key_is_zero() {
    assert_eq!(WrappedPubkey::default().0, [0u8; 32]);
}

#[test]
fn payload_is_standard_base64() {
    assert_eq!(transaction_payload(b"hello"), "aGVsbG8=");
    assert_eq!(transaction_payload(b""), "");
    assert_eq!(transaction_payload(&[0xff, 0xfe, 0xfd]), "//79");
    assert_eq!(transaction_payload(&[0, 0, 0, 0]), "AAAAAA==");
}

#[test]
fn payload_length_counts_started_groups_of_three() {
    for n in 0..20usize {
        let bytes = vec![0x5au8; n];
        assert_eq!(transaction_payload(&bytes).len(), 4 * ((n + 2) / 3));
    }
}

#[test]
fn payload_uses_plus_and_slash_digits() {
    assert_eq!(transaction_payload(&[0xfb, 0xff]), "+/8=");
    assert_eq!(transaction_payload(&[0x00, 0x10, 0x83]), "ABCD");
}
