//! The manifest data model and the builder that turns per-file digest
//! results into a manifest: successful results are kept, failures are
//! counted, and the surviving entries are sorted by path so that the output
//! is deterministic whatever order the parallel digesting finished in.

use crate::algorithm::HashAlgorithm;
use crate::pathorder::{
    lemma_lex_le_antisymmetric, lemma_lex_lt_le_transitive, lemma_lex_not_lt_le, lex_le, lex_lt,
    str_lt,
};
use vstd::prelude::*;
use vstd::seq_lib::lemma_multiset_commutative;

verus! {

/// One file in a manifest: its root-relative path, its hex digest, and the
/// optional metadata captured at generation time.
#[derive(Debug, Clone)]
pub struct ChecksumEntry {
    pub path: String,
    pub hash: String,
    pub modified: Option<u64>,
    pub size: Option<u64>,
}

impl ChecksumEntry {
    /// Modification time and size are captured together or not at all.
    pub open spec fn wf(self) -> bool {
        self.modified is Some <==> self.size is Some
    }

    pub fn new(path: String, hash: String, metadata: Option<(u64, u64)>) -> (e: ChecksumEntry)
        ensures
            e.path == path,
            e.hash == hash,
            match metadata {
                Some(ms) => e.modified == Some(ms.0) && e.size == Some(ms.1),
                None => e.modified is None && e.size is None,
            },
            e.wf(),
    {
        match metadata {
            Some((m, s)) => ChecksumEntry { path, hash, modified: Some(m), size: Some(s) },
            None => ChecksumEntry { path, hash, modified: None, size: None },
        }
    }
}

/// Entries are in ascending path order.
pub open spec fn sorted_by_path(s: Seq<ChecksumEntry>) -> bool {
    forall|i: int, j: int|
        0 <= i < j < s.len() ==> lex_le(#[trigger] s[i].path@, #[trigger] s[j].path@)
}

/// No two entries share a path.
pub open spec fn distinct_paths(s: Seq<ChecksumEntry>) -> bool {
    forall|i: int, j: int|
        0 <= i < j < s.len() ==> (#[trigger] s[i].path@) != (#[trigger] s[j].path@)
}

/// Every entry's digest has the fixed hex width of the given algorithm.
pub open spec fn digests_have_width(s: Seq<ChecksumEntry>, alg: HashAlgorithm) -> bool {
    forall|i: int| 0 <= i < s.len() ==> (#[trigger] s[i].hash@).len() == alg.spec_hex_width()
}

/// A whole manifest: format version, canonical algorithm name, and the
/// sorted entries.
#[derive(Debug)]
pub struct ChecksumFile {
    pub version: String,
    pub algorithm: String,
    pub entries: Vec<ChecksumEntry>,
}

impl ChecksumFile {
    /// The invariant a generated manifest satisfies: fixed format version, a
    /// canonical algorithm name, entries sorted ascending by path with no
    /// duplicates, metadata fields present together or absent together, and
    /// every digest of the algorithm's fixed width.
    pub open spec fn wf(self) -> bool {
        &&& self.version@ == "1.0"@
        &&& HashAlgorithm::spec_of_name(self.algorithm@) is Some
        &&& sorted_by_path(self.entries@)
        &&& distinct_paths(self.entries@)
        &&& forall|i: int| 0 <= i < self.entries@.len() ==> (#[trigger] self.entries@[i]).wf()
        &&& digests_have_width(
            self.entries@,
            HashAlgorithm::spec_of_name(self.algorithm@).unwrap(),
        )
    }
}

/// The entries of the successful per-file results, in order.
pub open spec fn successes(results: Seq<Option<ChecksumEntry>>) -> Seq<ChecksumEntry>
    decreases results.len(),
{
    if results.len() == 0 {
        Seq::empty()
    } else {
        let rest = successes(results.drop_last());
        match results.last() {
            Some(e) => rest.push(e),
            None => rest,
        }
    }
}

/// Keep the successful per-file results in order; count the failures.
/// One unreadable file never aborts a run: it only increments the error
/// count and drops out of the manifest.
pub fn collect_results(results: Vec<Option<ChecksumEntry>>) -> (r: (Vec<ChecksumEntry>, usize))
    ensures
        r.0@ == successes(results@),
        r.0@.len() + r.1 == results@.len(),
{
    let ghost orig = results@;
    let mut rest = results;
    let mut kept: Vec<ChecksumEntry> = Vec::new();
    let mut errors: usize = 0;
    let mut i: usize = 0;
    let n = rest.len();
    proof {
        assert(orig.len() == n);
        assert(orig.take(0) =~= Seq::<Option<ChecksumEntry>>::empty());
    }
    while rest.len() > 0
        invariant
            i + rest@.len() == orig.len(),
            orig.len() <= usize::MAX,
            rest@ == orig.skip(i as int),
            kept@ == successes(orig.take(i as int)),
            kept@.len() + errors == i,
        decreases rest@.len(),
    {
        let o = rest.remove(0);
        proof {
            assert(o == orig[i as int]);
            assert(rest@ =~= orig.skip(i + 1));
            assert(orig.take(i + 1).drop_last() =~= orig.take(i as int));
            assert(orig.take(i + 1).last() == orig[i as int]);
        }
        match o {
            Some(e) => {
                kept.push(e);
                proof {
                    assert(kept@ =~= successes(orig.take(i + 1)));
                }
            },
            None => {
                errors = errors + 1;
                proof {
                    assert(kept@ =~= successes(orig.take(i + 1)));
                }
            },
        }
        i = i + 1;
    }
    proof {
        assert(orig.take(orig.len() as int) =~= orig);
    }
    (kept, errors)
}

/// The index at which `p` is inserted to keep `out` sorted: everything
/// before it is at most `p`, everything from it on is strictly above `p`.
fn insert_pos(out: &Vec<ChecksumEntry>, p: &String) -> (idx: usize)
    requires
        sorted_by_path(out@),
    ensures
        idx <= out@.len(),
        forall|k: int| 0 <= k < idx ==> lex_le((#[trigger] out@[k]).path@, p@),
        forall|k: int| idx <= k < out@.len() ==> lex_lt(p@, (#[trigger] out@[k]).path@),
{
    let mut idx: usize = 0;
    loop
        invariant_except_break
            idx <= out@.len(),
            sorted_by_path(out@),
            forall|k: int| 0 <= k < idx ==> !lex_lt(p@, (#[trigger] out@[k]).path@),
        ensures
            idx <= out@.len(),
            forall|k: int| 0 <= k < idx ==> !lex_lt(p@, (#[trigger] out@[k]).path@),
            idx == out@.len() || lex_lt(p@, out@[idx as int].path@),
        decreases out@.len() - idx,
    {
        if idx == out.len() {
            break ;
        }
        if str_lt(p.as_str(), out[idx].path.as_str()) {
            break ;
        }
        idx = idx + 1;
    }
    proof {
        assert forall|k: int| 0 <= k < idx implies lex_le((#[trigger] out@[k]).path@, p@) by {
            lemma_lex_not_lt_le(p@, out@[k].path@);
        }
        assert forall|k: int| idx <= k < out@.len() implies lex_lt(
            p@,
            (#[trigger] out@[k]).path@,
        ) by {
            if k > idx {
                lemma_lex_lt_le_transitive(p@, out@[idx as int].path@, out@[k].path@);
            }
        }
    }
    idx
}

/// Inserting an element anywhere in a sequence adds it to the multiset of
/// elements.
proof fn lemma_insert_to_multiset(s: Seq<ChecksumEntry>, i: int, e: ChecksumEntry)
    requires
        0 <= i <= s.len(),
    ensures
        s.insert(i, e).to_multiset() == s.to_multiset().insert(e),
{
    broadcast use vstd::seq_lib::group_to_multiset_ensures;
    broadcast use vstd::multiset::group_multiset_axioms;

    let pre = s.subrange(0, i);
    let post = s.subrange(i, s.len() as int);
    assert(s =~= pre + post);
    lemma_multiset_commutative(pre, post);
    lemma_multiset_commutative(pre.push(e), post);
    assert(pre.push(e).to_multiset() =~= pre.to_multiset().insert(e));
    assert(s.insert(i, e) == pre.push(e) + post);
    assert(pre.to_multiset().insert(e).add(post.to_multiset()) =~= pre.to_multiset().add(
        post.to_multiset(),
    ).insert(e));
}

/// Sort entries ascending by path. The result is a permutation of the
/// input; only the order changes.
pub fn sort_entries(entries: Vec<ChecksumEntry>) -> (out: Vec<ChecksumEntry>)
    ensures
        out@.to_multiset() == entries@.to_multiset(),
        sorted_by_path(out@),
{
    broadcast use vstd::seq_lib::group_to_multiset_ensures;
    broadcast use vstd::multiset::group_multiset_axioms;

    let ghost orig = entries@;
    let mut rest = entries;
    let mut out: Vec<ChecksumEntry> = Vec::new();
    proof {
        assert(out@.to_multiset().add(rest@.to_multiset()) =~= orig.to_multiset());
    }
    while rest.len() > 0
        invariant
            sorted_by_path(out@),
            out@.to_multiset().add(rest@.to_multiset()) == orig.to_multiset(),
        decreases rest@.len(),
    {
        let ghost rest_before = rest@;
        let ghost out_before = out@;
        let e = rest.pop().unwrap();
        proof {
            rest@.to_multiset_ensures();
            assert(rest_before =~= rest@.push(e));
            assert(rest@.push(e).to_multiset() =~= rest@.to_multiset().insert(e));
            assert(rest_before.to_multiset() == rest@.to_multiset().insert(e));
        }
        let idx = insert_pos(&out, &e.path);
        out.insert(idx, e);
        proof {
            lemma_insert_to_multiset(out_before, idx as int, e);
            assert(out@.to_multiset().add(rest@.to_multiset()) =~= out_before.to_multiset().add(
                rest_before.to_multiset(),
            ));
            assert forall|i: int, j: int| 0 <= i < j < out@.len() implies lex_le(
                #[trigger] out@[i].path@,
                #[trigger] out@[j].path@,
            ) by {
                out_before.insert_ensures(idx as int, e);
            }
        }
    }
    proof {
        assert(rest@.to_multiset().len() == 0);
        assert(out@.to_multiset().add(rest@.to_multiset()) =~= out@.to_multiset());
    }
    out
}

/// Every element of `b` occurs in `a` when the two hold the same multiset
/// of entries.
pub proof fn lemma_permutation_membership(a: Seq<ChecksumEntry>, b: Seq<ChecksumEntry>)
    requires
        a.to_multiset() == b.to_multiset(),
    ensures
        forall|i: int| 0 <= i < b.len() ==> a.contains(#[trigger] b[i]),
{
    broadcast use vstd::seq_lib::group_to_multiset_ensures;

    assert forall|i: int| 0 <= i < b.len() implies a.contains(#[trigger] b[i]) by {
        assert(b.contains(b[i]));
        assert(b.to_multiset().count(b[i]) > 0);
    }
}

/// Two positions holding the same entry put its multiset count at two or
/// more.
proof fn lemma_two_indices_count_ge2(s: Seq<ChecksumEntry>, i: int, j: int)
    requires
        0 <= i < j < s.len(),
        s[i] == s[j],
    ensures
        s.to_multiset().count(s[i]) >= 2,
    decreases s.len(),
{
    broadcast use vstd::seq_lib::group_to_multiset_ensures;
    broadcast use vstd::multiset::group_multiset_axioms;

    let d = s.drop_last();
    assert(s =~= d.push(s.last()));
    if j == s.len() - 1 {
        assert(d[i] == s[i]);
        assert(d.contains(s[i]));
        assert(d.to_multiset().count(s[i]) > 0);
        assert(s.to_multiset() =~= d.to_multiset().insert(s.last()));
        assert(s.to_multiset().count(s[i]) == d.to_multiset().count(s[i]) + 1);
    } else {
        lemma_two_indices_count_ge2(d, i, j);
        assert(s.to_multiset() =~= d.to_multiset().insert(s.last()));
        assert(s.to_multiset().count(s[i]) >= d.to_multiset().count(s[i]));
    }
}

/// A multiset count of two or more puts the same entry at two positions.
proof fn lemma_count_ge2_two_indices(s: Seq<ChecksumEntry>, x: ChecksumEntry)
    requires
        s.to_multiset().count(x) >= 2,
    ensures
        exists|i: int, j: int| 0 <= i < j < s.len() && s[i] == x && s[j] == x,
    decreases s.len(),
{
    broadcast use vstd::seq_lib::group_to_multiset_ensures;
    broadcast use vstd::multiset::group_multiset_axioms;

    assert(s.to_multiset().count(x) > 0);
    assert(s.contains(x));
    assert(s.len() > 0);
    let d = s.drop_last();
    assert(s =~= d.push(s.last()));
    assert(s.to_multiset() =~= d.to_multiset().insert(s.last()));
    if s.last() == x {
        assert(d.to_multiset().count(x) >= 1);
        assert(d.contains(x));
        let i = choose|i: int| 0 <= i < d.len() && d[i] == x;
        assert(s[i] == x && s[s.len() - 1] == x && i < s.len() - 1);
    } else {
        assert(d.to_multiset().count(x) >= 2);
        lemma_count_ge2_two_indices(d, x);
        let (i, j) = choose|i: int, j: int| 0 <= i < j < d.len() && d[i] == x && d[j] == x;
        assert(s[i] == x && s[j] == x && 0 <= i < j < s.len());
    }
}

/// Reordering entries preserves path distinctness: a permutation of a
/// duplicate-free entry list is duplicate-free.
pub proof fn lemma_permutation_distinct_paths(a: Seq<ChecksumEntry>, b: Seq<ChecksumEntry>)
    requires
        a.to_multiset() == b.to_multiset(),
        distinct_paths(a),
    ensures
        distinct_paths(b),
{
    broadcast use vstd::seq_lib::group_to_multiset_ensures;

    assert forall|i: int, j: int| 0 <= i < j < b.len() implies (#[trigger] b[i].path@) != (
    #[trigger] b[j].path@) by {
        if b[i].path@ == b[j].path@ {
            if b[i] == b[j] {
                lemma_two_indices_count_ge2(b, i, j);
                lemma_count_ge2_two_indices(a, b[i]);
                let (p, q) = choose|p: int, q: int|
                    0 <= p < q < a.len() && a[p] == b[i] && a[q] == b[i];
                assert(a[p].path@ != a[q].path@);
                assert(false);
            } else {
                assert(b.contains(b[i]));
                assert(b.contains(b[j]));
                assert(b.to_multiset().count(b[i]) > 0);
                assert(b.to_multiset().count(b[j]) > 0);
                assert(a.to_multiset().count(b[i]) > 0);
                assert(a.to_multiset().count(b[j]) > 0);
                assert(a.contains(b[i]));
                assert(a.contains(b[j]));
                let p = choose|p: int| 0 <= p < a.len() && a[p] == b[i];
                let q = choose|q: int| 0 <= q < a.len() && a[q] == b[j];
                assert(p != q);
                if p < q {
                    assert(a[p].path@ != a[q].path@);
                } else {
                    assert(a[q].path@ != a[p].path@);
                }
                assert(false);
            }
        }
    }
}

/// Determinism of generation: a sorted, duplicate-free entry list is the
/// unique such arrangement of its entries, so two runs that digest the same
/// files — in whatever order the workers finished — build identical
/// manifests.
pub proof fn lemma_sorted_distinct_unique(a: Seq<ChecksumEntry>, b: Seq<ChecksumEntry>)
    requires
        sorted_by_path(a),
        sorted_by_path(b),
        distinct_paths(a),
        a.to_multiset() == b.to_multiset(),
    ensures
        a == b,
    decreases a.len(),
{
    broadcast use vstd::seq_lib::group_to_multiset_ensures;
    broadcast use vstd::multiset::group_multiset_axioms;

    if a.len() == 0 {
        assert(a.to_multiset().len() == 0);
        assert(b.to_multiset().len() == b.len());
        assert(b =~= a);
    } else {
        assert(b.to_multiset().len() == b.len());
        assert(a.to_multiset().len() == a.len());
        assert(b.len() > 0);
        assert(a.contains(a[0]));
        assert(b.to_multiset().count(a[0]) > 0);
        assert(b.contains(a[0]));
        let i = choose|i: int| 0 <= i < b.len() && b[i] == a[0];
        assert(b.contains(b[0]));
        assert(a.to_multiset().count(b[0]) > 0);
        assert(a.contains(b[0]));
        let j = choose|j: int| 0 <= j < a.len() && a[j] == b[0];
        assert(lex_le(b[0].path@, a[0].path@)) by {
            if i > 0 {
                assert(lex_le(b[0].path@, b[i].path@));
            }
        }
        assert(lex_le(a[0].path@, b[0].path@)) by {
            if j > 0 {
                assert(lex_le(a[0].path@, a[j].path@));
            }
        }
        lemma_lex_le_antisymmetric(a[0].path@, b[0].path@);
        assert(a[0].path@ == b[0].path@);
        if j != 0 {
            assert(a[0].path@ != a[j].path@);
            assert(false);
        }
        assert(a[0] == b[0]);
        let da = a.drop_first();
        let db = b.drop_first();
        assert(a.remove(0) =~= da);
        assert(b.remove(0) =~= db);
        assert(da.to_multiset() =~= a.to_multiset().remove(a[0]));
        assert(db.to_multiset() =~= b.to_multiset().remove(b[0]));
        assert(da.to_multiset() == db.to_multiset());
        assert forall|p: int, q: int| 0 <= p < q < da.len() implies lex_le(
            #[trigger] da[p].path@,
            #[trigger] da[q].path@,
        ) && da[p].path@ != da[q].path@ by {
            assert(da[p] == a[p + 1]);
            assert(da[q] == a[q + 1]);
        }
        assert forall|p: int, q: int| 0 <= p < q < db.len() implies lex_le(
            #[trigger] db[p].path@,
            #[trigger] db[q].path@,
        ) by {
            assert(db[p] == b[p + 1]);
            assert(db[q] == b[q + 1]);
        }
        lemma_sorted_distinct_unique(da, db);
        assert forall|k: int| 0 <= k < a.len() implies a[k] == b[k] by {
            if k > 0 {
                assert(a[k] == da[k - 1]);
                assert(b[k] == db[k - 1]);
            }
        }
        assert(a =~= b);
    }
}

/// Wrap sorted entries into a manifest for the given algorithm. The entries
/// are a permutation of the input, sorted by path; when the input came from
/// one digest pass over a scan — distinct paths, metadata captured
/// consistently, digests of the algorithm's width — the result satisfies
/// the full manifest invariant.
pub fn build_manifest(alg: HashAlgorithm, entries: Vec<ChecksumEntry>) -> (m: ChecksumFile)
    ensures
        m.version@ == "1.0"@,
        m.algorithm@ == alg.spec_name(),
        m.entries@.to_multiset() == entries@.to_multiset(),
        sorted_by_path(m.entries@),
        distinct_paths(entries@) ==> distinct_paths(m.entries@),
        (forall|i: int| 0 <= i < entries@.len() ==> (#[trigger] entries@[i]).wf()) ==> forall|
            i: int,
        | 0 <= i < m.entries@.len() ==> (#[trigger] m.entries@[i]).wf(),
        digests_have_width(entries@, alg) ==> digests_have_width(m.entries@, alg),
        distinct_paths(entries@) && (forall|i: int|
            0 <= i < entries@.len() ==> (#[trigger] entries@[i]).wf()) && digests_have_width(
            entries@,
            alg,
        ) ==> m.wf(),
{
    let sorted = sort_entries(entries);
    let m = ChecksumFile { version: "1.0".to_owned(), algorithm: alg.name(), entries: sorted };
    proof {
        let es = m.entries@;
        lemma_permutation_membership(entries@, es);
        if distinct_paths(entries@) {
            lemma_permutation_distinct_paths(entries@, es);
        }
        if forall|i: int| 0 <= i < entries@.len() ==> (#[trigger] entries@[i]).wf() {
            assert forall|i: int| 0 <= i < es.len() implies (#[trigger] es[i]).wf() by {
                let w = choose|w: int| 0 <= w < entries@.len() && entries@[w] == es[i];
                assert(entries@[w].wf());
            }
        }
        if digests_have_width(entries@, alg) {
            assert forall|i: int| 0 <= i < es.len() implies (#[trigger] es[i].hash@).len()
                == alg.spec_hex_width() by {
                let w = choose|w: int| 0 <= w < entries@.len() && entries@[w] == es[i];
                assert(entries@[w].hash@.len() == alg.spec_hex_width());
            }
        }
        alg.lemma_name_round_trip();
    }
    m
}

} // verus!
