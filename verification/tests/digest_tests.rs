use treehash::algorithm::HashAlgorithm;
use treehash::digest::{digest_bytes, digest_chunks, StreamingDigest};

const ALL: [HashAlgorithm; 5] = [
    HashAlgorithm::Sha256,
    HashAlgorithm::Md5,
    HashAlgorithm::Crc32,
    HashAlgorithm::Blake2,
    HashAlgorithm::Xxh3,
];

#[test]
fn empty_input_known_digests() {
    assert_eq!(
        digest_bytes(HashAlgorithm::Sha256, &[]),
        "e3b0c44298fc1c149afbf4c8996fb92427ae41e4649b934ca495991b7852b855"
    );
    assert_eq!(digest_bytes(HashAlgorithm::Md5, &[]), "d41d8cd98f00b204e9800998ecf8427e");
    assert_eq!(digest_bytes(HashAlgorithm::Crc32, &[]), "00000000");
    assert_eq!(
        digest_bytes(HashAlgorithm::Blake2, &[]),
        "69217a3079908094e11121d042354a7c1f55b6482ca1a51e1b250dfd1ed0eef9"
    );
    assert_eq!(digest_bytes(HashAlgorithm::Xxh3, &[]), "2d06800538d394c2");
}

#[test]
fn known_digests_of_text() {
    let data = b"Hello, World!";
    assert_eq!(
        digest_bytes(HashAlgorithm::Sha256, data),
        "dffd6021bb2bd5b0af676290809ec3a53191dd81c7f70a4b28688a362182986f"
    );
    assert_eq!(digest_bytes(HashAlgorithm::Md5, data), "65a8e27d8879283831b664bd8b7f0ad4");
}

#[test]
fn crc32_check_value() {
    assert_eq!(digest_bytes(HashAlgorithm::Crc32, b"123456789"), "cbf43926");
}

#[test]
fn digest_width_invariant() {
    let data = b"some file content, long enough to cross a few words";
    for alg in ALL {
        let d = digest_bytes(alg, data);
        assert_eq!(d.len(), alg.hex_width(), "width for {:?}", alg);
        let e = digest_bytes(alg, &[]);
        assert_eq!(e.len(), alg.hex_width(), "empty-input width for {:?}", alg);
        assert!(d.chars().all(|c| c.is_ascii_hexdigit() && !c.is_ascii_uppercase()));
    }
}

#[test]
fn chunked_digest_equals_whole() {
    let whole: Vec<u8> = (0u16..2000).map(|i| (i % 251) as u8).collect();
    let chunks: Vec<Vec<u8>> = whole.chunks(333).map(|c| c.to_vec()).collect();
    for alg in ALL {
        assert_eq!(digest_chunks(alg, &chunks), digest_bytes(alg, &whole));
    }
}

#[test]
fn streaming_updates_accumulate() {
    for alg in ALL {
        let mut h = StreamingDigest::new(alg);
        h.update(b"Hello, ");
        h.update(b"World!");
        assert_eq!(h.finalize_hex(), digest_bytes(alg, b"Hello, World!"));
    }
}

#[test]
fn different_content_different_digest() {
    for alg in ALL {
        assert_ne!(
            digest_bytes(alg, b"Original content"),
            digest_bytes(alg, b"Different content"),
            "collision for {:?}",
            alg
        );
    }
}
