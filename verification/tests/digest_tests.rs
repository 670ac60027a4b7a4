use scli::digest::{sha256_hex_of, short_hash};

#[test]
fn short_hash_is_first_eight_hex_chars_of_sha256() {
    assert_eq!(short_hash("abc"), "ba7816bf");
    assert_eq!(short_hash(""), "e3b0c442");
    assert_eq!(short_hash("xoxp-123"), "27ad9a71");
}

#[test]
fn short_hash_is_stable() {
    assert_eq!(short_hash("xoxp-123"), short_hash("xoxp-123"));
    assert_ne!(short_hash("xoxp-123"), short_hash("xoxp-124"));
    for t in ["", "x", "a much longer token SECRET-REDACTED"] {
        assert_eq!(short_hash(t).len(), 8);
    }
}

#[test]
fn full_sha256_in_lowercase_hex() {
    assert_eq!(
        sha256_hex_of(b"abc"),
        "ba7816bf8f01cfea414140de5dae2223b00361a396177a9cb410ff61f20015ad"
    );
    assert_eq!(
        sha256_hex_of(b""),
        "e3b0c44298fc1c149afbf4c8996fb92427ae41e4649b934ca495991b7852b855"
    );
    assert_eq!(sha256_hex_of(b"hello\n").len(), 64);
}
