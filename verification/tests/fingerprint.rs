use cb_patcher::hashing::{blob_header_bytes, calculate_github_sha1, decimal_digits, BlobHasher};

#[test]
fn blob_fingerprint_of_abc_matches_fixture() {
    assert_eq!(
        calculate_github_sha1(b"abc"),
        "f2ba8f84ab5c1bce84a7b441cb1959cfc7093b7f"
    );
}

#[test]
fn blob_fingerprint_of_empty_content() {
    assert_eq!(
        calculate_github_sha1(b""),
        "e69de29bb2d1d6434b8b29ae775ad8c2e48c5391"
    );
}

#[test]
fn header_is_word_length_and_zero_byte() {
    assert_eq!(blob_header_bytes(3), b"blob 3\0".to_vec());
    assert_eq!(blob_header_bytes(0), b"blob 0\0".to_vec());
    assert_eq!(blob_header_bytes(1024), b"blob 1024\0".to_vec());
}

#[test]
fn decimal_digits_are_most_significant_first() {
    assert_eq!(decimal_digits(0), b"0".to_vec());
    assert_eq!(decimal_digits(9), b"9".to_vec());
    assert_eq!(decimal_digits(10), b"10".to_vec());
    assert_eq!(decimal_digits(907), b"907".to_vec());
    assert_eq!(
        decimal_digits(u64::MAX),
        b"18446744073709551615".to_vec()
    );
}

#[test]
fn fingerprint_does_not_depend_on_how_content_is_cut() {
    let content: Vec<u8> = (0..5000u32).map(|i| (i % 251) as u8).collect();
    let whole = calculate_github_sha1(&content);
    let mut hasher = BlobHasher::new(content.len() as u64);
    hasher.update(&content[..1]);
    hasher.update(&content[1..1024]);
    hasher.update(&content[1024..1025]);
    hasher.update(&[]);
    hasher.update(&content[1025..]);
    assert_eq!(hasher.finish(), whole);
    assert_eq!(whole.len(), 40);
}

#[test]
fn fingerprint_differs_from_plain_sha1() {
    assert_ne!(
        calculate_github_sha1(b"abc"),
        "a9993e364706816aba3e25717850c26c9cd0d89d"
    );
}
