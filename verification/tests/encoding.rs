use app_extract_info::encoding::encode_checked;

#[test]
fn encode_gives_padded_standard_base64() {
    assert_eq!(encode_checked(&b"".to_vec()), Some("".to_string()));
    assert_eq!(encode_checked(&b"f".to_vec()), Some("Zg==".to_string()));
    assert_eq!(encode_checked(&b"fo".to_vec()), Some("Zm8=".to_string()));
    assert_eq!(encode_checked(&b"foo".to_vec()), Some("Zm9v".to_string()));
    assert_eq!(encode_checked(&b"foob".to_vec()), Some("Zm9vYg==".to_string()));
    assert_eq!(encode_checked(&b"fooba".to_vec()), Some("Zm9vYmE=".to_string()));
    assert_eq!(encode_checked(&b"foobar".to_vec()), Some("Zm9vYmFy".to_string()));
}

#[test]
fn encode_uses_plus_and_slash() {
    assert_eq!(encode_checked(&vec![0xff, 0xfe, 0xfd]), Some("//79".to_string()));
    assert_eq!(encode_checked(&vec![0xfb, 0xff]), Some("+/8=".to_string()));
}

#[test]
fn encoded_text_is_made_of_the_alphabet_and_padding() {
    let bytes: Vec<u8> = (0..=255u8).collect();
    let text = encode_checked(&bytes).unwrap();
    assert_eq!(text.len(), 344);
    assert!(text
        .chars()
        .all(|c| c.is_ascii_alphanumeric() || c == '+' || c == '/' || c == '='));
    assert!(!text.contains(':'));
}
