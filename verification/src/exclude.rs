//! Exclusion rules for the tree scan: glob-style patterns, compiled once,
//! matched against the path string of every candidate file. A file is
//! dropped when any pattern matches; malformed patterns are skipped silently
//! rather than failing the whole scan.
//!
//! Patterns are matched against the path string exactly as the caller hands
//! it in; the scan matches the walked path of each file.

use vstd::prelude::*;

verus! {

/// Whether glob accepts `pattern` as well formed; compilation succeeds on
/// exactly these pattern strings.
pub uninterp spec fn glob_pattern_ok(pattern: Seq<char>) -> bool;

/// The pattern string a compiled `glob::Pattern` was built from.
pub uninterp spec fn pattern_source(p: glob::Pattern) -> Seq<char>;

/// Whether the well-formed pattern `pattern` matches `path`, under glob's
/// default match options.
pub uninterp spec fn glob_match(pattern: Seq<char>, path: Seq<char>) -> bool;

#[verifier::external_type_specification]
#[verifier::external_body]
pub struct ExPattern(glob::Pattern);

/// Relies on glob's `Pattern::new`: compiling succeeds exactly on well-formed
/// pattern strings, and the compiled pattern holds the source it was built
/// from.
#[verifier::external_body]
fn compile_pattern(s: &str) -> (r: Option<glob::Pattern>)
    ensures
        r is Some <==> glob_pattern_ok(s@),
        r is Some ==> pattern_source(r.unwrap()) == s@,
{
    glob::Pattern::new(s).ok()
}

/// Relies on glob's `Pattern::matches`: a pure function of the pattern and
/// the path string, using the default match options.
#[verifier::external_body]
fn pattern_matches(p: &glob::Pattern, path: &str) -> (r: bool)
    ensures
        r == glob_match(pattern_source(*p), path@),
{
    p.matches(path)
}

/// The views of a sequence of pattern strings.
pub open spec fn string_views(strings: Seq<String>) -> Seq<Seq<char>> {
    Seq::new(strings.len(), |i: int| strings[i]@)
}

/// The well-formed patterns among `inputs`, in order: what survives the
/// lenient compilation pass.
pub open spec fn well_formed_only(inputs: Seq<Seq<char>>) -> Seq<Seq<char>>
    decreases inputs.len(),
{
    if inputs.len() == 0 {
        Seq::empty()
    } else {
        let rest = well_formed_only(inputs.drop_last());
        if glob_pattern_ok(inputs.last()) {
            rest.push(inputs.last())
        } else {
            rest
        }
    }
}

/// Whether any pattern in the set matches the path.
pub open spec fn matched_by_any(patterns: Seq<Seq<char>>, path: Seq<char>) -> bool {
    exists|i: int| 0 <= i < patterns.len() && glob_match(#[trigger] patterns[i], path)
}

/// A compiled set of exclusion patterns.
pub struct ExcludeSet {
    patterns: Vec<glob::Pattern>,
}

impl ExcludeSet {
    /// The pattern strings the set holds, in order.
    pub closed spec fn sources(self) -> Seq<Seq<char>> {
        Seq::new(self.patterns@.len(), |i: int| pattern_source(self.patterns@[i]))
    }

    /// Compile the given pattern strings, keeping exactly the well-formed
    /// ones, in order.
    pub fn new(patterns: &Vec<String>) -> (r: ExcludeSet)
        ensures
            r.sources() == well_formed_only(string_views(patterns@)),
    {
        let ghost views = string_views(patterns@);
        let mut out: Vec<glob::Pattern> = Vec::new();
        let mut i: usize = 0;
        proof {
            assert(views.take(0) =~= Seq::<Seq<char>>::empty());
            assert((ExcludeSet { patterns: out }).sources() =~= well_formed_only(views.take(0)));
        }
        while i < patterns.len()
            invariant
                i <= patterns@.len(),
                views == string_views(patterns@),
                (ExcludeSet { patterns: out }).sources() == well_formed_only(views.take(i as int)),
            decreases patterns@.len() - i,
        {
            proof {
                assert(views.take(i + 1).drop_last() =~= views.take(i as int));
                assert(views.take(i + 1).last() == patterns@[i as int]@);
            }
            match compile_pattern(patterns[i].as_str()) {
                Some(p) => {
                    out.push(p);
                    proof {
                        assert((ExcludeSet { patterns: out }).sources() =~= well_formed_only(
                            views.take(i + 1),
                        ));
                    }
                },
                None => {
                    proof {
                        assert((ExcludeSet { patterns: out }).sources() =~= well_formed_only(
                            views.take(i + 1),
                        ));
                    }
                },
            }
            i = i + 1;
        }
        proof {
            assert(views.take(patterns@.len() as int) =~= views);
        }
        ExcludeSet { patterns: out }
    }

    /// How many patterns survived compilation.
    pub fn len(&self) -> (n: usize)
        ensures
            n == self.sources().len(),
    {
        self.patterns.len()
    }

    /// Whether the file at `path` is excluded: true exactly when some
    /// pattern in the set matches the path string.
    pub fn should_exclude(&self, path: &str) -> (r: bool)
        ensures
            r == matched_by_any(self.sources(), path@),
    {
        let mut i: usize = 0;
        while i < self.patterns.len()
            invariant
                i <= self.patterns@.len(),
                forall|k: int| 0 <= k < i ==> !glob_match(#[trigger] self.sources()[k], path@),
            decreases self.patterns@.len() - i,
        {
            if pattern_matches(&self.patterns[i], path) {
                proof {
                    assert(glob_match(self.sources()[i as int], path@));
                }
                return true;
            }
            i = i + 1;
        }
        false
    }
}

/// A file found by the tree scan: the path string the walk produced (what
/// exclusion patterns are matched against) and the root-relative path that
/// keys the manifest.
pub struct FileRecord {
    pub walked: String,
    pub relative: String,
}

/// The records whose walked path no pattern matches, in order.
pub open spec fn kept_records(files: Seq<FileRecord>, patterns: Seq<Seq<char>>) -> Seq<FileRecord>
    decreases files.len(),
{
    if files.len() == 0 {
        Seq::empty()
    } else {
        let rest = kept_records(files.drop_last(), patterns);
        if !matched_by_any(patterns, files.last().walked@) {
            rest.push(files.last())
        } else {
            rest
        }
    }
}

/// Drop every file some exclusion pattern matches; keep the rest in order.
pub fn filter_files(files: Vec<FileRecord>, excl: &ExcludeSet) -> (kept: Vec<FileRecord>)
    ensures
        kept@ == kept_records(files@, excl.sources()),
{
    let ghost orig = files@;
    let mut rest = files;
    let mut kept: Vec<FileRecord> = Vec::new();
    let mut i: usize = 0;
    let n = rest.len();
    proof {
        assert(orig.len() == n);
        assert(orig.take(0) =~= Seq::<FileRecord>::empty());
    }
    while rest.len() > 0
        invariant
            i + rest@.len() == orig.len(),
            orig.len() <= usize::MAX,
            rest@ == orig.skip(i as int),
            kept@ == kept_records(orig.take(i as int), excl.sources()),
        decreases rest@.len(),
    {
        let f = rest.remove(0);
        proof {
            assert(f == orig[i as int]);
            assert(rest@ =~= orig.skip(i + 1));
            assert(orig.take(i + 1).drop_last() =~= orig.take(i as int));
            assert(orig.take(i + 1).last() == orig[i as int]);
        }
        if !excl.should_exclude(f.walked.as_str()) {
            kept.push(f);
            proof {
                assert(kept@ =~= kept_records(orig.take(i + 1), excl.sources()));
            }
        } else {
            proof {
                assert(kept@ =~= kept_records(orig.take(i + 1), excl.sources()));
            }
        }
        i = i + 1;
    }
    proof {
        assert(orig.take(orig.len() as int) =~= orig);
    }
    kept
}

/// Law of exclusion: filtering keeps exactly the files no pattern matches —
/// every kept record is an unmatched input record, and every unmatched input
/// record is kept.
pub proof fn lemma_kept_records_exact(files: Seq<FileRecord>, patterns: Seq<Seq<char>>)
    ensures
        forall|i: int|
            0 <= i < kept_records(files, patterns).len() ==> !matched_by_any(
                patterns,
                (#[trigger] kept_records(files, patterns)[i]).walked@,
            ) && files.contains(kept_records(files, patterns)[i]),
        forall|j: int|
            0 <= j < files.len() && !matched_by_any(patterns, (#[trigger] files[j]).walked@)
                ==> kept_records(files, patterns).contains(files[j]),
    decreases files.len(),
{
    if files.len() > 0 {
        let rest = files.drop_last();
        lemma_kept_records_exact(rest, patterns);
        let kept = kept_records(files, patterns);
        let kept_rest = kept_records(rest, patterns);
        assert forall|i: int| 0 <= i < kept.len() implies !matched_by_any(
            patterns,
            (#[trigger] kept[i]).walked@,
        ) && files.contains(kept[i]) by {
            if i < kept_rest.len() {
                assert(kept[i] == kept_rest[i]);
                let w = choose|k: int| 0 <= k < rest.len() && rest[k] == kept_rest[i];
                assert(files[w] == kept[i]);
            } else {
                assert(kept[i] == files.last());
                assert(files[files.len() - 1] == kept[i]);
            }
        }
        assert forall|j: int|
            0 <= j < files.len() && !matched_by_any(
                patterns,
                (#[trigger] files[j]).walked@,
            ) implies kept.contains(files[j]) by {
            if j < files.len() - 1 {
                assert(rest[j] == files[j]);
                assert(kept_rest.contains(files[j]));
                let w = choose|k: int| 0 <= k < kept_rest.len() && kept_rest[k] == files[j];
                assert(kept[w] == files[j]);
            } else {
                assert(kept[kept.len() - 1] == files[j]);
            }
        }
    }
}

} // verus!
