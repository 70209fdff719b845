use treehash::algorithm::HashAlgorithm;
use treehash::digest::digest_bytes;
use treehash::manifest::{build_manifest, collect_results, ChecksumEntry};

fn entry(path: &str, hash: &str) -> ChecksumEntry {
    ChecksumEntry::new(path.to_owned(), hash.to_owned(), None)
}

#[test]
fn build_sorts_entries_by_path() {
    let entries = vec![entry("sub1/file1.txt", "aa"), entry("root.txt", "bb"), entry(
        "sub1/sub2/file2.txt",
        "cc",
    )];
    let m = build_manifest(HashAlgorithm::Sha256, entries);
    assert_eq!(m.version, "1.0");
    assert_eq!(m.algorithm, "sha256");
    let paths: Vec<&str> = m.entries.iter().map(|e| e.path.as_str()).collect();
    assert_eq!(paths, vec!["root.txt", "sub1/file1.txt", "sub1/sub2/file2.txt"]);
}

#[test]
fn generation_is_deterministic_across_orders() {
    let a = vec![entry("c", "3"), entry("a", "1"), entry("b", "2")];
    let b = vec![entry("b", "2"), entry("c", "3"), entry("a", "1")];
    let ma = build_manifest(HashAlgorithm::Md5, a);
    let mb = build_manifest(HashAlgorithm::Md5, b);
    assert_eq!(ma.entries.len(), mb.entries.len());
    for (ea, eb) in ma.entries.iter().zip(mb.entries.iter()) {
        assert_eq!(ea.path, eb.path);
        assert_eq!(ea.hash, eb.hash);
        assert_eq!(ea.modified, eb.modified);
        assert_eq!(ea.size, eb.size);
    }
}

#[test]
fn one_unreadable_file_is_counted_not_fatal() {
    let results = vec![
        Some(entry("file1.txt", digest_bytes(HashAlgorithm::Sha256, b"Hello, World!").as_str())),
        None,
        Some(entry("file2.txt", digest_bytes(HashAlgorithm::Sha256, b"Test content").as_str())),
    ];
    let (kept, errors) = collect_results(results);
    assert_eq!(kept.len(), 2);
    assert_eq!(errors, 1);
    assert_eq!(kept[0].path, "file1.txt");
    assert_eq!(kept[1].path, "file2.txt");
}

#[test]
fn metadata_is_present_together_or_absent_together() {
    let with = ChecksumEntry::new("p".to_owned(), "h".to_owned(), Some((1700000000, 42)));
    assert_eq!(with.modified, Some(1700000000));
    assert_eq!(with.size, Some(42));
    let without = ChecksumEntry::new("p".to_owned(), "h".to_owned(), None);
    assert_eq!(without.modified, None);
    assert_eq!(without.size, None);
}

#[test]
fn built_digests_keep_algorithm_width() {
    for alg in [
        HashAlgorithm::Sha256,
        HashAlgorithm::Md5,
        HashAlgorithm::Crc32,
        HashAlgorithm::Blake2,
        HashAlgorithm::Xxh3,
    ] {
        let entries = vec![
            ChecksumEntry::new("one".to_owned(), digest_bytes(alg, b"one"), Some((7, 3))),
            ChecksumEntry::new("two".to_owned(), digest_bytes(alg, b"two"), Some((8, 3))),
        ];
        let m = build_manifest(alg, entries);
        assert_eq!(m.algorithm, alg.name());
        for e in &m.entries {
            assert_eq!(e.hash.len(), alg.hex_width());
        }
    }
}
