use treehash::algorithm::HashAlgorithm;

#[test]
fn canonical_names() {
    assert_eq!(HashAlgorithm::Sha256.name(), "sha256");
    assert_eq!(HashAlgorithm::Md5.name(), "md5");
    assert_eq!(HashAlgorithm::Crc32.name(), "crc32");
    assert_eq!(HashAlgorithm::Blake2.name(), "blake2");
    assert_eq!(HashAlgorithm::Xxh3.name(), "xxh3");
}

#[test]
fn parse_known_names() {
    assert_eq!(HashAlgorithm::from_name("sha256"), Some(HashAlgorithm::Sha256));
    assert_eq!(HashAlgorithm::from_name("md5"), Some(HashAlgorithm::Md5));
    assert_eq!(HashAlgorithm::from_name("crc32"), Some(HashAlgorithm::Crc32));
    assert_eq!(HashAlgorithm::from_name("blake2"), Some(HashAlgorithm::Blake2));
    assert_eq!(HashAlgorithm::from_name("xxh3"), Some(HashAlgorithm::Xxh3));
    assert_eq!(HashAlgorithm::from_name("sha1"), None);
    assert_eq!(HashAlgorithm::from_name(""), None);
    assert_eq!(HashAlgorithm::from_name("SHA256"), None);
}

#[test]
fn unknown_name_degrades_to_sha256() {
    assert_eq!(HashAlgorithm::from_name_or_default("whirlpool"), HashAlgorithm::Sha256);
    assert_eq!(HashAlgorithm::from_name_or_default("md5"), HashAlgorithm::Md5);
}

#[test]
fn name_parses_back() {
    for alg in [
        HashAlgorithm::Sha256,
        HashAlgorithm::Md5,
        HashAlgorithm::Crc32,
        HashAlgorithm::Blake2,
        HashAlgorithm::Xxh3,
    ] {
        assert_eq!(HashAlgorithm::from_name(alg.name().as_str()), Some(alg));
    }
}

#[test]
fn hex_widths() {
    assert_eq!(HashAlgorithm::Sha256.hex_width(), 64);
    assert_eq!(HashAlgorithm::Md5.hex_width(), 32);
    assert_eq!(HashAlgorithm::Crc32.hex_width(), 8);
    assert_eq!(HashAlgorithm::Blake2.hex_width(), 64);
    assert_eq!(HashAlgorithm::Xxh3.hex_width(), 16);
}
