use heimdal_packages::checksum::{checksum, to_hex, verify_checksum};

#[test]
fn checksum_of_empty_input_is_the_known_digest() {
    assert_eq!(
        checksum(&[]),
        "e3b0c44298fc1c149afbf4c8996fb92427ae41e4649b934ca495991b7852b855"
    );
}

#[test]
fn checksum_of_hello_world_is_the_known_digest() {
    assert_eq!(
        checksum(b"hello world"),
        "b94d27b9934d3e08a52e52d7da7dabfac484efe37a5380ee9088f7ace2efcde9"
    );
}

#[test]
fn to_hex_writes_two_lowercase_digits_per_byte() {
    assert_eq!(to_hex(&[0x00, 0x0f, 0xa5, 0xff]), "000fa5ff");
    assert_eq!(to_hex(&[]), "");
}

#[test]
fn verify_checksum_accepts_the_stamp_and_rejects_a_flipped_byte() {
    let bytes = b"hello world".to_vec();
    let stamp = checksum(&bytes);
    assert!(verify_checksum(&bytes, &stamp));
    let mut flipped = bytes.clone();
    flipped[0] ^= 1;
    assert!(!verify_checksum(&flipped, &stamp));
    assert!(!verify_checksum(&bytes, "not a stamp"));
}
