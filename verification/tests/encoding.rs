use digester::error::DigestError;
use digester::post_process::{base64_encode, hex_encode, Encoding};

#[test]
fn hex_of_two_bytes() {
    assert_eq!(Encoding::Hex.encode(vec![0x00, 0xff]), "00ff");
}

#[test]
fn hex_puts_the_high_nibble_first() {
    assert_eq!(hex_encode(&[0x1a]), "1a");
    assert_eq!(hex_encode(&[0xa1]), "a1");
    assert_eq!(hex_encode(&[0x01, 0x23, 0x45, 0x67, 0x89, 0xab, 0xcd, 0xef]), "0123456789abcdef");
}

#[test]
fn hex_of_nothing_is_empty() {
    assert_eq!(Encoding::Hex.encode(Vec::new()), "");
}

#[test]
fn hex_is_lowercase_and_twice_as_long() {
    let bytes: Vec<u8> = (0..=255u8).collect();
    let text = Encoding::Hex.encode(bytes.clone());
    assert_eq!(text.len(), 2 * bytes.len());
    assert!(text.chars().all(|c| matches!(c, '0'..='9' | 'a'..='f')));
    for (i, byte) in bytes.iter().enumerate() {
        assert_eq!(&text[2 * i..2 * i + 2], format!("{:02x}", byte));
    }
}

#[test]
fn base64_of_the_standard_vectors() {
    assert_eq!(base64_encode(b""), "");
    assert_eq!(base64_encode(b"f"), "Zg==");
    assert_eq!(base64_encode(b"fo"), "Zm8=");
    assert_eq!(base64_encode(b"foo"), "Zm9v");
    assert_eq!(base64_encode(b"foob"), "Zm9vYg==");
    assert_eq!(base64_encode(b"fooba"), "Zm9vYmE=");
    assert_eq!(base64_encode(b"foobar"), "Zm9vYmFy");
}

#[test]
fn base64_uses_the_last_two_symbols() {
    assert_eq!(Encoding::Base64.encode(vec![0xfb, 0xff]), "+/8=");
    assert_eq!(Encoding::Base64.encode(vec![0xff, 0xff, 0xff]), "////");
    assert_eq!(Encoding::Base64.encode(vec![0x00, 0x00, 0x00]), "AAAA");
}

#[test]
fn encoding_names_are_matched_exactly() {
    assert_eq!(Encoding::from_str("hex"), Ok(Encoding::Hex));
    assert_eq!(Encoding::from_str("base64"), Ok(Encoding::Base64));
    assert_eq!(
        Encoding::from_str("HEX"),
        Err(DigestError::UnknownEncoding("HEX".to_string()))
    );
    assert_eq!(
        Encoding::from_str("Base64"),
        Err(DigestError::UnknownEncoding("Base64".to_string()))
    );
    assert_eq!(Encoding::from_str(""), Err(DigestError::UnknownEncoding(String::new())));
    assert_eq!(
        Encoding::from_str("hex "),
        Err(DigestError::UnknownEncoding("hex ".to_string()))
    );
}

#[test]
fn error_diagnostics() {
    assert_eq!(DigestError::Io("no such file".to_string()).describe(), "I/O error: no such file");
    assert_eq!(
        DigestError::UnknownAlgorithm("crc".to_string()).describe(),
        "Unknown algorithm: crc"
    );
    assert_eq!(
        DigestError::UnknownEncoding("octal".to_string()).describe(),
        "Unknown encoding: octal"
    );
    assert_eq!(
        DigestError::InvalidInvocation.describe(),
        "Opts are unhandled! Please refer to the developers."
    );
}

#[test]
fn hex_is_the_default_encoding() {
    assert_eq!(Encoding::default(), Encoding::Hex);
}
