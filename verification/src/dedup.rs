//! The append-only fingerprint ledger and the run-level extraction of NEW
//! findings.
//!
//! A finding is NEW for a run exactly when its fingerprint was absent from
//! the ledger when the run checked, and no earlier finding of the same run
//! carries the same fingerprint. Registration only ever adds fingerprints:
//! nothing is updated or removed.
use vstd::prelude::*;
use crate::finding::{Finding, FindingModel};
use crate::fingerprint::{fingerprint, spec_fingerprint};
use crate::strutil::vec_contains_str;

verus! {

/// The set of fingerprints a sequence holds.
pub open spec fn seq_set(s: Seq<Seq<char>>) -> Set<Seq<char>> {
    Set::new(|x: Seq<char>| s.contains(x))
}

proof fn lemma_contains_push(s: Seq<Seq<char>>, x: Seq<char>, y: Seq<char>)
    ensures
        s.push(x).contains(y) <==> (s.contains(y) || x == y),
{
    if s.contains(y) {
        let i = choose|i: int| 0 <= i < s.len() && s[i] == y;
        assert(s.push(x)[i] == y);
    }
    if x == y {
        assert(s.push(x)[s.len() as int] == y);
    }
    if s.push(x).contains(y) {
        let i = choose|i: int| 0 <= i < s.push(x).len() && s.push(x)[i] == y;
        if i < s.len() {
            assert(s[i] == y);
        }
    }
}

/// The persistent "seen" ledger: a write-once, content-addressed set of
/// fingerprints. Its abstract value is the set of fingerprints it holds.
pub struct DedupStore {
    seen: Vec<String>,
}

impl View for DedupStore {
    type V = Set<Seq<char>>;

    closed spec fn view(&self) -> Set<Seq<char>> {
        Set::new(|x: Seq<char>| self.seen.deep_view().contains(x))
    }
}

/// The fingerprints of `hashes` that `store` already knows, in query
/// order.
pub open spec fn known_of(hashes: Seq<Seq<char>>, store: Set<Seq<char>>) -> Seq<Seq<char>>
    decreases hashes.len(),
{
    if hashes.len() == 0 {
        Seq::empty()
    } else {
        let p = known_of(hashes.drop_last(), store);
        if store.contains(hashes.last()) {
            p.push(hashes.last())
        } else {
            p
        }
    }
}

/// Bulk-check correctness: what `bulk_check` returns holds exactly the
/// queried fingerprints that the store knows — their intersection — and
/// never a fingerprint outside the query.
pub proof fn lemma_bulk_check_exact(hashes: Seq<Seq<char>>, store: Set<Seq<char>>)
    ensures
        forall|x: Seq<char>|
            #[trigger] known_of(hashes, store).contains(x) <==> hashes.contains(x)
                && store.contains(x),
        seq_set(known_of(hashes, store)) =~= seq_set(hashes).intersect(store),
    decreases hashes.len(),
{
    if hashes.len() == 0 {
        assert(forall|x: Seq<char>| !known_of(hashes, store).contains(x));
        assert(forall|x: Seq<char>| !hashes.contains(x));
    } else {
        let pre = hashes.drop_last();
        let h = hashes.last();
        lemma_bulk_check_exact(pre, store);
        assert(pre.push(h) =~= hashes);
        assert forall|x: Seq<char>|
            #[trigger] known_of(hashes, store).contains(x) <==> hashes.contains(x)
                && store.contains(x) by {
            lemma_contains_push(pre, h, x);
            if store.contains(h) {
                lemma_contains_push(known_of(pre, store), h, x);
            }
        }
    }
}

impl DedupStore {
    /// An empty ledger.
    pub fn new() -> (s: DedupStore)
        ensures
            s@ == Set::<Seq<char>>::empty(),
    {
        let s = DedupStore { seen: Vec::new() };
        proof {
            assert(s.seen.deep_view().len() == 0);
            assert(s@ =~= Set::<Seq<char>>::empty());
        }
        s
    }

    /// A ledger holding exactly the given fingerprints, as loaded from
    /// wherever the ledger is persisted.
    pub fn from_hashes(hashes: Vec<String>) -> (s: DedupStore)
        ensures
            s@ == seq_set(hashes.deep_view()),
    {
        let s = DedupStore { seen: hashes };
        proof {
            assert(s@ =~= seq_set(hashes.deep_view()));
        }
        s
    }

    /// The fingerprints the ledger holds, for persisting.
    pub fn contents(&self) -> (r: &Vec<String>)
        ensures
            seq_set(r.deep_view()) == self@,
    {
        proof {
            assert(seq_set(self.seen.deep_view()) =~= self@);
        }
        &self.seen
    }

    /// Whether the ledger knows `h`.
    pub fn contains(&self, h: &str) -> (r: bool)
        ensures
            r == self@.contains(h@),
    {
        vec_contains_str(&self.seen, h)
    }

    /// Idempotent insert: afterwards the ledger knows `h` and everything
    /// it knew before; it never fails, also not on a duplicate.
    pub fn register(&mut self, h: String)
        ensures
            final(self)@ == old(self)@.insert(h@),
    {
        if !vec_contains_str(&self.seen, h.as_str()) {
            let ghost prev = self.seen;
            self.seen.push(h);
            proof {
                assert(self.seen.deep_view() =~= prev.deep_view().push(h@)) by {
                    assert(self.seen@.len() == prev@.len() + 1);
                    assert forall|j: int| 0 <= j < self.seen@.len() implies self.seen.deep_view()[j]
                        == prev.deep_view().push(h@)[j] by {
                        if j < prev@.len() {
                            assert(self.seen@[j] == prev@[j]);
                            assert(prev.deep_view()[j] == prev@[j].deep_view());
                        } else {
                            assert(self.seen@[j].deep_view() == h@);
                        }
                    }
                }
                assert forall|x: Seq<char>| final(self)@.contains(x) <==> old(
                    self,
                )@.insert(h@).contains(x) by {
                    lemma_contains_push(prev.deep_view(), h@, x);
                }
                assert(final(self)@ =~= old(self)@.insert(h@));
            }
        } else {
            proof {
                assert(final(self)@ =~= old(self)@.insert(h@));
            }
        }
    }

    /// Registers every fingerprint of `hashes`.
    pub fn register_all(&mut self, hashes: &Vec<String>)
        ensures
            final(self)@ == old(self)@.union(seq_set(hashes.deep_view())),
    {
        let ghost hm = hashes.deep_view();
        let n = hashes.len();
        let mut i: usize = 0;
        while i < n
            invariant
                hm == hashes.deep_view(),
                n == hashes@.len(),
                hm.len() == n,
                i <= n,
                self@ == old(self)@.union(seq_set(hm.take(i as int))),
            decreases n - i,
        {
            let h = hashes[i].clone();
            proof {
                assert(hm[i as int] == hashes@[i as int]@);
            }
            self.register(h);
            proof {
                assert forall|x: Seq<char>| self@.contains(x) <==> old(self)@.union(
                    seq_set(hm.take(i + 1)),
                ).contains(x) by {
                    assert(hm.take(i + 1) =~= hm.take(i as int).push(hm[i as int]));
                    lemma_contains_push(hm.take(i as int), hm[i as int], x);
                }
                assert(self@ =~= old(self)@.union(seq_set(hm.take(i + 1))));
            }
            i += 1;
        }
        proof {
            assert(hm.take(n as int) =~= hm);
            assert(self@ =~= old(self)@.union(seq_set(hm)));
        }
    }

    /// One batched lookup: returns, in query order, exactly those queried
    /// fingerprints that the ledger knows.
    pub fn bulk_check(&self, hashes: &Vec<String>) -> (known: Vec<String>)
        ensures
            known.deep_view() == known_of(hashes.deep_view(), self@),
    {
        let ghost hm = hashes.deep_view();
        let n = hashes.len();
        let mut known: Vec<String> = Vec::new();
        let mut i: usize = 0;
        while i < n
            invariant
                hm == hashes.deep_view(),
                n == hashes@.len(),
                hm.len() == n,
                i <= n,
                known.deep_view() == known_of(hm.take(i as int), self@),
            decreases n - i,
        {
            let h = &hashes[i];
            proof {
                assert(hm.take(i + 1).drop_last() =~= hm.take(i as int));
                assert(hm.take(i + 1).last() == hm[i as int]);
                assert(hm[i as int] == hashes@[i as int]@);
            }
            if self.contains(h.as_str()) {
                known.push(h.clone());
                proof {
                    assert(known.deep_view() =~= known_of(hm.take(i + 1), self@));
                }
            }
            i += 1;
        }
        proof {
            assert(hm.take(n as int) =~= hm);
        }
        known
    }
}

/// The fingerprints of a run's findings, in order.
pub open spec fn fps_of(fs: Seq<FindingModel>) -> Seq<Seq<char>>
    decreases fs.len(),
{
    if fs.len() == 0 {
        Seq::empty()
    } else {
        fps_of(fs.drop_last()).push(spec_fingerprint(fs.last()))
    }
}

/// Each position of `fps_of` carries the fingerprint of the finding at the
/// same position.
pub proof fn lemma_fps_of_index(fs: Seq<FindingModel>, i: int)
    requires
        0 <= i < fs.len(),
    ensures
        fps_of(fs).len() == fs.len(),
        fps_of(fs)[i] == spec_fingerprint(fs[i]),
    decreases fs.len(),
{
    lemma_fps_of_len(fs);
    if i < fs.len() - 1 {
        lemma_fps_of_index(fs.drop_last(), i);
    }
}

pub proof fn lemma_fps_of_len(fs: Seq<FindingModel>)
    ensures
        fps_of(fs).len() == fs.len(),
    decreases fs.len(),
{
    if fs.len() > 0 {
        lemma_fps_of_len(fs.drop_last());
    }
}

/// The findings of a run that are NEW against `store`: fingerprint absent
/// from the store, and not carried by any earlier finding of the run.
pub open spec fn spec_new_findings(fs: Seq<FindingModel>, store: Set<Seq<char>>) -> Seq<
    FindingModel,
>
    decreases fs.len(),
{
    if fs.len() == 0 {
        Seq::empty()
    } else {
        let p = spec_new_findings(fs.drop_last(), store);
        let f = fs.last();
        let h = spec_fingerprint(f);
        if !store.contains(h) && !fps_of(fs.drop_last()).contains(h) {
            p.push(f)
        } else {
            p
        }
    }
}

/// The fingerprints of all of `findings`, in order.
pub fn fingerprints(findings: &Vec<Finding>) -> (r: Vec<String>)
    ensures
        r.deep_view() == fps_of(findings.deep_view()),
{
    let ghost model = findings.deep_view();
    let n = findings.len();
    let mut r: Vec<String> = Vec::new();
    let mut i: usize = 0;
    while i < n
        invariant
            model == findings.deep_view(),
            n == findings@.len(),
            model.len() == n,
            i <= n,
            r.deep_view() == fps_of(model.take(i as int)),
        decreases n - i,
    {
        let h = fingerprint(&findings[i]);
        proof {
            assert(model.take(i + 1).drop_last() =~= model.take(i as int));
            assert(model.take(i + 1).last() == model[i as int]);
            assert(model[i as int] == findings@[i as int]@);
        }
        r.push(h);
        proof {
            assert(r.deep_view() =~= fps_of(model.take(i + 1)));
        }
        i += 1;
    }
    proof {
        assert(model.take(n as int) =~= model);
    }
    r
}

/// Keeps exactly the NEW findings of a run, in order: those whose
/// fingerprint the store does not know and that no earlier finding of the
/// run shares.
pub fn dedup_filter(findings: &Vec<Finding>, store: &DedupStore) -> (r: Vec<Finding>)
    ensures
        r.deep_view() == spec_new_findings(findings.deep_view(), store@),
{
    let ghost model = findings.deep_view();
    let n = findings.len();
    let mut r: Vec<Finding> = Vec::new();
    let mut seen: Vec<String> = Vec::new();
    let mut i: usize = 0;
    while i < n
        invariant
            model == findings.deep_view(),
            n == findings@.len(),
            model.len() == n,
            i <= n,
            seen.deep_view() == fps_of(model.take(i as int)),
            r.deep_view() == spec_new_findings(model.take(i as int), store@),
        decreases n - i,
    {
        let f = &findings[i];
        let h = fingerprint(f);
        proof {
            assert(model.take(i + 1).drop_last() =~= model.take(i as int));
            assert(model.take(i + 1).last() == model[i as int]);
            assert(model[i as int] == findings@[i as int]@);
        }
        if !store.contains(h.as_str()) && !vec_contains_str(&seen, h.as_str()) {
            let copy = f.duplicate();
            r.push(copy);
            proof {
                assert(r.deep_view() =~= spec_new_findings(model.take(i + 1), store@));
            }
        } else {
            proof {
                assert(r.deep_view() =~= spec_new_findings(model.take(i + 1), store@));
            }
        }
        seen.push(h);
        proof {
            assert(seen.deep_view() =~= fps_of(model.take(i + 1)));
        }
        i += 1;
    }
    proof {
        assert(model.take(n as int) =~= model);
    }
    r
}

/// How often a fingerprint occurs among findings.
pub open spec fn count_fp(fs: Seq<FindingModel>, h: Seq<char>) -> int
    decreases fs.len(),
{
    if fs.len() == 0 {
        0
    } else {
        count_fp(fs.drop_last(), h) + if spec_fingerprint(fs.last()) == h {
            1int
        } else {
            0
        }
    }
}

proof fn lemma_count_zero(fs: Seq<FindingModel>, store: Set<Seq<char>>, h: Seq<char>)
    requires
        !fps_of(fs).contains(h),
    ensures
        count_fp(spec_new_findings(fs, store), h) == 0,
    decreases fs.len(),
{
    if fs.len() > 0 {
        let pre = fs.drop_last();
        let f = fs.last();
        let hf = spec_fingerprint(f);
        lemma_contains_push(fps_of(pre), hf, h);
        assert(!fps_of(pre).contains(h));
        lemma_count_zero(pre, store, h);
        assert(hf != h);
        let p = spec_new_findings(pre, store);
        if !store.contains(hf) && !fps_of(pre).contains(hf) {
            assert(p.push(f).drop_last() =~= p);
            assert(p.push(f).last() == f);
            assert(count_fp(p.push(f), h) == count_fp(p, h));
        }
    }
}

/// At-most-once-until-seen, first half: a fingerprint the store does not
/// know, carried by at least one finding of the run, appears exactly once
/// among the NEW findings.
pub proof fn lemma_new_exactly_once(fs: Seq<FindingModel>, store: Set<Seq<char>>, h: Seq<char>)
    requires
        !store.contains(h),
        fps_of(fs).contains(h),
    ensures
        count_fp(spec_new_findings(fs, store), h) == 1,
    decreases fs.len(),
{
    if fs.len() == 0 {
        assert(false);
    } else {
        let pre = fs.drop_last();
        let f = fs.last();
        let hf = spec_fingerprint(f);
        let p = spec_new_findings(pre, store);
        lemma_contains_push(fps_of(pre), hf, h);
        if fps_of(pre).contains(h) {
            lemma_new_exactly_once(pre, store, h);
            if !store.contains(hf) && !fps_of(pre).contains(hf) {
                assert(hf != h);
                assert(p.push(f).drop_last() =~= p);
                assert(p.push(f).last() == f);
                assert(count_fp(p.push(f), h) == count_fp(p, h));
            }
        } else {
            assert(hf == h);
            lemma_count_zero(pre, store, h);
            assert(p.push(f).drop_last() =~= p);
            assert(p.push(f).last() == f);
            assert(count_fp(p.push(f), h) == count_fp(p, h) + 1);
        }
    }
}

proof fn lemma_all_known_none_new(fs: Seq<FindingModel>, store: Set<Seq<char>>)
    requires
        forall|i: int| 0 <= i < fs.len() ==> store.contains(spec_fingerprint(fs[i])),
    ensures
        spec_new_findings(fs, store) == Seq::<FindingModel>::empty(),
    decreases fs.len(),
{
    if fs.len() > 0 {
        let pre = fs.drop_last();
        assert(forall|i: int| 0 <= i < pre.len() ==> pre[i] == fs[i]);
        lemma_all_known_none_new(pre, store);
        assert(store.contains(spec_fingerprint(fs.last())));
        assert(spec_new_findings(fs, store) =~= Seq::<FindingModel>::empty());
    } else {
        assert(spec_new_findings(fs, store) =~= Seq::<FindingModel>::empty());
    }
}

proof fn lemma_new_covers(fs: Seq<FindingModel>, store: Set<Seq<char>>, i: int)
    requires
        0 <= i < fs.len(),
    ensures
        store.contains(spec_fingerprint(fs[i])) || fps_of(spec_new_findings(fs, store)).contains(
            spec_fingerprint(fs[i]),
        ),
    decreases fs.len(),
{
    let pre = fs.drop_last();
    let f = fs.last();
    let hf = spec_fingerprint(f);
    let p = spec_new_findings(pre, store);
    let nf = spec_new_findings(fs, store);
    let pushed = !store.contains(hf) && !fps_of(pre).contains(hf);
    assert(pushed ==> nf == p.push(f));
    assert(!pushed ==> nf == p);
    if pushed {
        assert(p.push(f).drop_last() =~= p);
        assert(p.push(f).last() == f);
        assert(fps_of(nf) == fps_of(p).push(hf));
    }
    if i < fs.len() - 1 {
        assert(fs[i] == pre[i]);
        lemma_new_covers(pre, store, i);
        if !store.contains(spec_fingerprint(fs[i])) {
            assert(fps_of(p).contains(spec_fingerprint(fs[i])));
            if pushed {
                lemma_contains_push(fps_of(p), hf, spec_fingerprint(fs[i]));
            }
        }
    } else {
        assert(fs[i] == f);
        if !store.contains(hf) {
            if fps_of(pre).contains(hf) {
                let j = choose|j: int| 0 <= j < fps_of(pre).len() && fps_of(pre)[j] == hf;
                lemma_fps_of_len(pre);
                lemma_fps_of_index(pre, j);
                assert(spec_fingerprint(pre[j]) == hf);
                lemma_new_covers(pre, store, j);
                assert(fps_of(p).contains(hf));
                assert(nf == p);
            } else {
                lemma_contains_push(fps_of(p), hf, hf);
                assert(fps_of(nf).contains(hf));
            }
        }
    }
}

/// Every NEW finding's fingerprint was absent from the store.
pub proof fn lemma_new_fresh(fs: Seq<FindingModel>, store: Set<Seq<char>>, i: int)
    requires
        0 <= i < spec_new_findings(fs, store).len(),
    ensures
        !store.contains(spec_fingerprint(spec_new_findings(fs, store)[i])),
    decreases fs.len(),
{
    let pre = fs.drop_last();
    let f = fs.last();
    let hf = spec_fingerprint(f);
    let p = spec_new_findings(pre, store);
    if !store.contains(hf) && !fps_of(pre).contains(hf) {
        if i < p.len() {
            assert(p.push(f)[i] == p[i]);
            lemma_new_fresh(pre, store, i);
        } else {
            assert(p.push(f)[i] == f);
        }
    } else {
        lemma_new_fresh(pre, store, i);
    }
}

/// Every NEW finding's fingerprint occurs among the run's fingerprints.
proof fn lemma_new_in_fps(fs: Seq<FindingModel>, store: Set<Seq<char>>, i: int)
    requires
        0 <= i < spec_new_findings(fs, store).len(),
    ensures
        fps_of(fs).contains(spec_fingerprint(spec_new_findings(fs, store)[i])),
    decreases fs.len(),
{
    let pre = fs.drop_last();
    let f = fs.last();
    let hf = spec_fingerprint(f);
    let p = spec_new_findings(pre, store);
    if !store.contains(hf) && !fps_of(pre).contains(hf) {
        if i < p.len() {
            assert(p.push(f)[i] == p[i]);
            lemma_new_in_fps(pre, store, i);
            lemma_contains_push(fps_of(pre), hf, spec_fingerprint(p[i]));
        } else {
            assert(p.push(f)[i] == f);
            lemma_contains_push(fps_of(pre), hf, hf);
        }
    } else {
        lemma_new_in_fps(pre, store, i);
        lemma_contains_push(fps_of(pre), hf, spec_fingerprint(p[i]));
    }
}

/// No two NEW findings of a run share a fingerprint: the report built
/// from them has no duplicates.
pub proof fn lemma_new_distinct(fs: Seq<FindingModel>, store: Set<Seq<char>>, i: int, j: int)
    requires
        0 <= i < j < spec_new_findings(fs, store).len(),
    ensures
        spec_fingerprint(spec_new_findings(fs, store)[i]) != spec_fingerprint(
            spec_new_findings(fs, store)[j],
        ),
    decreases fs.len(),
{
    let pre = fs.drop_last();
    let f = fs.last();
    let hf = spec_fingerprint(f);
    let p = spec_new_findings(pre, store);
    if !store.contains(hf) && !fps_of(pre).contains(hf) {
        assert(p.push(f)[i] == p[i]);
        if j < p.len() {
            assert(p.push(f)[j] == p[j]);
            lemma_new_distinct(pre, store, i, j);
        } else {
            assert(p.push(f)[j] == f);
            lemma_new_in_fps(pre, store, i);
        }
    } else {
        lemma_new_distinct(pre, store, i, j);
    }
}

/// At-most-once-until-seen, second half: once the NEW fingerprints of a
/// run are registered, replaying the same findings against the grown store
/// yields no NEW finding at all.
pub proof fn lemma_replay_not_new(fs: Seq<FindingModel>, store: Set<Seq<char>>)
    ensures
        spec_new_findings(
            fs,
            store.union(seq_set(fps_of(spec_new_findings(fs, store)))),
        ) == Seq::<FindingModel>::empty(),
{
    let grown = store.union(seq_set(fps_of(spec_new_findings(fs, store))));
    assert forall|i: int| 0 <= i < fs.len() implies grown.contains(spec_fingerprint(fs[i])) by {
        lemma_new_covers(fs, store, i);
    }
    lemma_all_known_none_new(fs, grown);
}

} // verus!
