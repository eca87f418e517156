use tails::fs::{base64_decode, base64_encode, path_exists};

#[test]
fn base64_encode_known_values() {
    assert_eq!(base64_encode(b""), "");
    assert_eq!(base64_encode(b"f"), "Zg==");
    assert_eq!(base64_encode(b"fo"), "Zm8=");
    assert_eq!(base64_encode(b"foo"), "Zm9v");
    assert_eq!(base64_encode(b"hello"), "aGVsbG8=");
    assert_eq!(base64_encode(&[0xff, 0xfe, 0x00]), "//4A");
}

#[test]
fn base64_decode_known_values() {
    assert_eq!(base64_decode(""), Some(vec![]));
    assert_eq!(base64_decode("===="), Some(vec![]));
    assert_eq!(base64_decode("aGVsbG8="), Some(b"hello".to_vec()));
    assert_eq!(base64_decode("Zm9v"), Some(b"foo".to_vec()));
    assert_eq!(base64_decode("//4A"), Some(vec![0xff, 0xfe, 0x00]));
}

#[test]
fn base64_decode_partial_groups() {
    // A single symbol still yields its top byte.
    assert_eq!(base64_decode("Q"), Some(vec![64]));
    assert_eq!(base64_decode("QQ"), Some(vec![0x41]));
    // '=' inside the text reads as zero.
    assert_eq!(base64_decode("QQ=Q"), Some(vec![0x41, 0x00, 0x10]));
}

#[test]
fn base64_decode_rejects_bad_symbols() {
    assert_eq!(base64_decode("a*bc"), None);
    assert_eq!(base64_decode("ab c"), None);
    assert_eq!(base64_decode("é"), None);
}

#[test]
fn base64_round_trip_on_samples() {
    let samples: Vec<Vec<u8>> = vec![
        vec![],
        vec![0],
        vec![1, 2],
        (0u8..=255).collect(),
        b"The quick brown fox".to_vec(),
    ];
    for s in samples {
        assert_eq!(base64_decode(&base64_encode(&s)), Some(s.clone()));
    }
}

#[test]
fn path_exists_sees_the_file_system() {
    assert!(path_exists("/"));
    assert!(!path_exists("/definitely/not/here/xyz-123"));
}
