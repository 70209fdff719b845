use treehash::exclude::{filter_files, ExcludeSet, FileRecord};

fn record(walked: &str, relative: &str) -> FileRecord {
    FileRecord { walked: walked.to_owned(), relative: relative.to_owned() }
}

#[test]
fn exclude_patterns_drop_matching_files() {
    let patterns = vec!["*.tmp".to_owned(), "**/.git/**".to_owned()];
    let excl = ExcludeSet::new(&patterns);
    let files = vec![
        record("root/a.txt", "a.txt"),
        record("root/b.tmp", "b.tmp"),
        record("root/.git/config", ".git/config"),
    ];
    let kept = filter_files(files, &excl);
    assert_eq!(kept.len(), 1);
    assert_eq!(kept[0].relative, "a.txt");
}

#[test]
fn should_exclude_matches_any_pattern() {
    let patterns = vec!["*.tmp".to_owned(), "**/.git/**".to_owned()];
    let excl = ExcludeSet::new(&patterns);
    assert!(excl.should_exclude("root/b.tmp"));
    assert!(excl.should_exclude("root/.git/config"));
    assert!(!excl.should_exclude("root/a.txt"));
}

#[test]
fn malformed_pattern_is_skipped() {
    let patterns = vec!["[".to_owned(), "*.tmp".to_owned()];
    let excl = ExcludeSet::new(&patterns);
    assert_eq!(excl.len(), 1);
    assert!(excl.should_exclude("b.tmp"));
    assert!(!excl.should_exclude("a.txt"));
}

#[test]
fn empty_pattern_set_keeps_everything() {
    let excl = ExcludeSet::new(&Vec::new());
    assert_eq!(excl.len(), 0);
    assert!(!excl.should_exclude("anything/at/all.tmp"));
    let files = vec![record("x", "x"), record("y", "y")];
    let kept = filter_files(files, &excl);
    assert_eq!(kept.len(), 2);
}
