use fieldnotes::codec::hex_encode;

#[test]
fn hex_is_lower_case_high_nibble_first() {
    assert_eq!(hex_encode(&[]), "");
    assert_eq!(hex_encode(&[0x00, 0x0f, 0xa5, 0xff]), "000fa5ff");
}

#[test]
fn hex_matches_the_hex_crate() {
    let bytes: Vec<u8> = (0..=255u8).collect();
    assert_eq!(hex_encode(&bytes), hex::encode(&bytes));
}
