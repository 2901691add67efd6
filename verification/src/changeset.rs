//! The per-project change set and the fold that builds it.
//!
//! Selected revisions are folded oldest to newest into one deduplicated set
//! keyed by repository-relative path.  A later entry for a path overwrites an
//! earlier one, except that once a path is marked `Deleted` it stays
//! `Deleted`, and a `Deleted` entry overwrites whatever came before it.

use vstd::prelude::*;
use crate::assoc::{map_of, unique_keys, lemma_map_of_contains, lemma_map_of_at, lemma_map_of_push,
    lemma_map_of_update, lemma_unique_keys_update, lemma_unique_keys_push};

verus! {

/// Spec-level classification of how a revision affected a path.
pub enum ChangeKindV {
    Added,
    Modified,
    Deleted,
    /// Holds the old path the file was renamed away from.
    Renamed(Seq<char>),
}

/// How a revision affected one repository-relative path.
#[derive(Debug, PartialEq, Eq)]
pub enum ChangeKind {
    Added,
    Modified,
    Deleted,
    /// The entry's own path is the new name; `from` is the old one.
    Renamed { from: String },
}

impl View for ChangeKind {
    type V = ChangeKindV;

    open spec fn view(&self) -> ChangeKindV {
        match self {
            ChangeKind::Added => ChangeKindV::Added,
            ChangeKind::Modified => ChangeKindV::Modified,
            ChangeKind::Deleted => ChangeKindV::Deleted,
            ChangeKind::Renamed { from } => ChangeKindV::Renamed(from@),
        }
    }
}

impl Clone for ChangeKind {
    fn clone(&self) -> (r: Self)
        ensures
            r@ == self@,
    {
        match self {
            ChangeKind::Added => ChangeKind::Added,
            ChangeKind::Modified => ChangeKind::Modified,
            ChangeKind::Deleted => ChangeKind::Deleted,
            ChangeKind::Renamed { from } => ChangeKind::Renamed { from: from.clone() },
        }
    }
}

/// Spec-level change entry.
pub struct ChangeEntryV {
    pub path: Seq<char>,
    pub kind: ChangeKindV,
}

/// One changed path, as reported by a single revision.
#[derive(Debug, PartialEq, Eq)]
pub struct ChangeEntry {
    pub path: String,
    pub kind: ChangeKind,
}

impl View for ChangeEntry {
    type V = ChangeEntryV;

    open spec fn view(&self) -> ChangeEntryV {
        ChangeEntryV { path: self.path@, kind: self.kind@ }
    }
}

impl DeepView for ChangeEntry {
    type V = ChangeEntryV;

    open spec fn deep_view(&self) -> ChangeEntryV {
        self@
    }
}

impl Clone for ChangeEntry {
    fn clone(&self) -> (r: Self)
        ensures
            r@ == self@,
    {
        ChangeEntry { path: self.path.clone(), kind: self.kind.clone() }
    }
}

/// The entries' (path, kind) pairs.
pub open spec fn entry_pairs(s: Seq<ChangeEntryV>) -> Seq<(Seq<char>, ChangeKindV)> {
    s.map_values(|e: ChangeEntryV| (e.path, e.kind))
}

/// The map a change-entry sequence denotes.
pub open spec fn entries_as_map(s: Seq<ChangeEntryV>) -> Map<Seq<char>, ChangeKindV> {
    map_of(entry_pairs(s))
}

/// At most one entry per path.
pub open spec fn entries_unique(s: Seq<ChangeEntryV>) -> bool {
    unique_keys(entry_pairs(s))
}

/// Index of the first entry holding `p`, or `s.len()` if none does.
pub open spec fn find_path(s: Seq<ChangeEntryV>, p: Seq<char>) -> int
    decreases s.len(),
{
    if s.len() == 0 {
        0
    } else if s[0].path == p {
        0
    } else {
        1 + find_path(s.drop_first(), p)
    }
}

pub proof fn lemma_find_path(s: Seq<ChangeEntryV>, p: Seq<char>)
    ensures
        0 <= find_path(s, p) <= s.len(),
        forall|j: int| 0 <= j < find_path(s, p) ==> s[j].path != p,
        find_path(s, p) < s.len() ==> s[find_path(s, p)].path == p,
    decreases s.len(),
{
    if s.len() != 0 && s[0].path != p {
        lemma_find_path(s.drop_first(), p);
        assert forall|j: int| 0 <= j < find_path(s, p) implies s[j].path != p by {
            if j > 0 {
                assert(s.drop_first()[j - 1] == s[j]);
            }
        }
    }
}

pub proof fn lemma_find_path_at(s: Seq<ChangeEntryV>, p: Seq<char>, k: int)
    requires
        0 <= k <= s.len(),
        forall|j: int| 0 <= j < k ==> s[j].path != p,
        k < s.len() ==> s[k].path == p,
    ensures
        find_path(s, p) == k,
    decreases s.len(),
{
    if s.len() != 0 && s[0].path != p {
        lemma_find_path_at(s.drop_first(), p, k - 1);
    }
}

/// One step of the fold, on the ordered entry sequence.
pub open spec fn fold_step_seq(s: Seq<ChangeEntryV>, e: ChangeEntryV) -> Seq<ChangeEntryV> {
    let i = find_path(s, e.path);
    if 0 <= i < s.len() {
        if e.kind is Deleted {
            s.update(i, ChangeEntryV { path: e.path, kind: ChangeKindV::Deleted })
        } else if s[i].kind is Deleted {
            s
        } else {
            s.update(i, e)
        }
    } else {
        s.push(e)
    }
}

/// Folding a whole revision's entries, oldest selection first.
pub open spec fn fold_seq(s: Seq<ChangeEntryV>, es: Seq<ChangeEntryV>) -> Seq<ChangeEntryV>
    decreases es.len(),
{
    if es.len() == 0 {
        s
    } else {
        fold_seq(fold_step_seq(s, es[0]), es.drop_first())
    }
}

/// One step of the fold, on the denoted map.
pub open spec fn fold_step_map(
    m: Map<Seq<char>, ChangeKindV>,
    e: ChangeEntryV,
) -> Map<Seq<char>, ChangeKindV> {
    if e.kind is Deleted {
        m.insert(e.path, ChangeKindV::Deleted)
    } else if m.contains_key(e.path) && m[e.path] is Deleted {
        m
    } else {
        m.insert(e.path, e.kind)
    }
}

/// The whole fold, on the denoted map.
pub open spec fn fold_map(
    m: Map<Seq<char>, ChangeKindV>,
    es: Seq<ChangeEntryV>,
) -> Map<Seq<char>, ChangeKindV>
    decreases es.len(),
{
    if es.len() == 0 {
        m
    } else {
        fold_map(fold_step_map(m, es[0]), es.drop_first())
    }
}

pub proof fn lemma_fold_step_seq_unique(s: Seq<ChangeEntryV>, e: ChangeEntryV)
    requires
        entries_unique(s),
    ensures
        entries_unique(fold_step_seq(s, e)),
{
    lemma_find_path(s, e.path);
    let i = find_path(s, e.path);
    if 0 <= i < s.len() {
        if e.kind is Deleted {
            let p = (e.path, ChangeKindV::Deleted);
            assert(entry_pairs(s.update(i, ChangeEntryV { path: e.path, kind: ChangeKindV::Deleted }))
                =~= entry_pairs(s).update(i, p));
            lemma_unique_keys_update(entry_pairs(s), i, p);
        } else if s[i].kind is Deleted {
        } else {
            let p = (e.path, e.kind);
            assert(entry_pairs(s.update(i, e)) =~= entry_pairs(s).update(i, p));
            lemma_unique_keys_update(entry_pairs(s), i, p);
        }
    } else {
        let p = (e.path, e.kind);
        assert(entry_pairs(s.push(e)) =~= entry_pairs(s).push(p));
        assert forall|j: int| 0 <= j < entry_pairs(s).len() implies entry_pairs(s)[j].0 != p.0 by {
            assert(s[j].path != e.path);
        }
        lemma_unique_keys_push(entry_pairs(s), p);
    }
}

/// The sequence-level step denotes the map-level step.
pub proof fn lemma_fold_step_denotes(s: Seq<ChangeEntryV>, e: ChangeEntryV)
    requires
        entries_unique(s),
    ensures
        entries_as_map(fold_step_seq(s, e)) =~= fold_step_map(entries_as_map(s), e),
{
    lemma_find_path(s, e.path);
    lemma_map_of_contains(entry_pairs(s), e.path);
    let i = find_path(s, e.path);
    if 0 <= i < s.len() {
        assert(entry_pairs(s)[i].0 == e.path);
        lemma_map_of_at(entry_pairs(s), i);
        if e.kind is Deleted {
            let p = (e.path, ChangeKindV::Deleted);
            assert(entry_pairs(s.update(i, ChangeEntryV { path: e.path, kind: ChangeKindV::Deleted }))
                =~= entry_pairs(s).update(i, p));
            lemma_map_of_update(entry_pairs(s), i, p);
        } else if s[i].kind is Deleted {
        } else {
            let p = (e.path, e.kind);
            assert(entry_pairs(s.update(i, e)) =~= entry_pairs(s).update(i, p));
            lemma_map_of_update(entry_pairs(s), i, p);
        }
    } else {
        assert forall|j: int| 0 <= j < entry_pairs(s).len() implies entry_pairs(s)[j].0 != e.path by {
            assert(s[j].path != e.path);
        }
        if entries_as_map(s).contains_key(e.path) {
            let j = choose|j: int|
                0 <= j < entry_pairs(s).len() && entry_pairs(s)[j].0 == e.path;
            assert(false);
        }
        let p = (e.path, e.kind);
        assert(entry_pairs(s.push(e)) =~= entry_pairs(s).push(p));
        lemma_map_of_push(entry_pairs(s), p);
    }
}

pub proof fn lemma_fold_seq_unique(s: Seq<ChangeEntryV>, es: Seq<ChangeEntryV>)
    requires
        entries_unique(s),
    ensures
        entries_unique(fold_seq(s, es)),
    decreases es.len(),
{
    if es.len() > 0 {
        lemma_fold_step_seq_unique(s, es[0]);
        lemma_fold_seq_unique(fold_step_seq(s, es[0]), es.drop_first());
    }
}

/// The sequence-level fold denotes the map-level fold.
pub proof fn lemma_fold_denotes(s: Seq<ChangeEntryV>, es: Seq<ChangeEntryV>)
    requires
        entries_unique(s),
    ensures
        entries_as_map(fold_seq(s, es)) =~= fold_map(entries_as_map(s), es),
    decreases es.len(),
{
    if es.len() > 0 {
        lemma_fold_step_denotes(s, es[0]);
        lemma_fold_step_seq_unique(s, es[0]);
        lemma_fold_denotes(fold_step_seq(s, es[0]), es.drop_first());
        assert(fold_map(entries_as_map(fold_step_seq(s, es[0])), es.drop_first())
            =~= fold_map(fold_step_map(entries_as_map(s), es[0]), es.drop_first())) by {
            lemma_fold_map_congruent(
                entries_as_map(fold_step_seq(s, es[0])),
                fold_step_map(entries_as_map(s), es[0]),
                es.drop_first(),
            );
        }
    }
}

/// Law: the fold is deterministic.  Equal starting sets folded over equal
/// entry sequences yield equal change sets; nothing but the inputs matters.
pub proof fn lemma_fold_map_congruent(
    m1: Map<Seq<char>, ChangeKindV>,
    m2: Map<Seq<char>, ChangeKindV>,
    es: Seq<ChangeEntryV>,
)
    requires
        m1 =~= m2,
    ensures
        fold_map(m1, es) =~= fold_map(m2, es),
    decreases es.len(),
{
    if es.len() > 0 {
        assert(fold_step_map(m1, es[0]) =~= fold_step_map(m2, es[0]));
        lemma_fold_map_congruent(fold_step_map(m1, es[0]), fold_step_map(m2, es[0]), es.drop_first());
    }
}

/// Once a path's entry is `Deleted`, every later fold step keeps it `Deleted`.
pub proof fn lemma_fold_map_keeps_deleted(
    m: Map<Seq<char>, ChangeKindV>,
    es: Seq<ChangeEntryV>,
    p: Seq<char>,
)
    requires
        m.contains_key(p),
        m[p] is Deleted,
    ensures
        fold_map(m, es).contains_key(p),
        fold_map(m, es)[p] is Deleted,
    decreases es.len(),
{
    if es.len() > 0 {
        let m1 = fold_step_map(m, es[0]);
        assert(m1.contains_key(p) && m1[p] is Deleted);
        lemma_fold_map_keeps_deleted(m1, es.drop_first(), p);
    }
}

/// Law (delete-dominance): if any folded entry marks a path `Deleted`, the
/// final entry for that path is `Deleted`, whatever its position in the fold.
pub proof fn lemma_delete_dominance(
    m: Map<Seq<char>, ChangeKindV>,
    es: Seq<ChangeEntryV>,
    k: int,
)
    requires
        0 <= k < es.len(),
        es[k].kind is Deleted,
    ensures
        fold_map(m, es).contains_key(es[k].path),
        fold_map(m, es)[es[k].path] is Deleted,
    decreases es.len(),
{
    let p = es[k].path;
    if k == 0 {
        let m1 = fold_step_map(m, es[0]);
        assert(m1.contains_key(p) && m1[p] is Deleted);
        lemma_fold_map_keeps_deleted(m1, es.drop_first(), p);
    } else {
        assert(es.drop_first()[k - 1] == es[k]);
        lemma_delete_dominance(fold_step_map(m, es[0]), es.drop_first(), k - 1);
    }
}

/// Law (delete-dominance), stated of the fold the executable change set is
/// specified by: if any folded entry marks a path `Deleted`, the resulting
/// set's entry for that path is `Deleted`.
pub proof fn lemma_fold_seq_delete_dominance(
    s: Seq<ChangeEntryV>,
    es: Seq<ChangeEntryV>,
    k: int,
)
    requires
        entries_unique(s),
        0 <= k < es.len(),
        es[k].kind is Deleted,
    ensures
        entries_as_map(fold_seq(s, es)).contains_key(es[k].path),
        entries_as_map(fold_seq(s, es))[es[k].path] is Deleted,
{
    lemma_fold_denotes(s, es);
    lemma_delete_dominance(entries_as_map(s), es, k);
}

pub proof fn lemma_fold_seq_snoc(s: Seq<ChangeEntryV>, es: Seq<ChangeEntryV>, e: ChangeEntryV)
    ensures
        fold_seq(s, es.push(e)) == fold_step_seq(fold_seq(s, es), e),
    decreases es.len(),
{
    let one = es.push(e);
    if es.len() == 0 {
        assert(one[0] == e);
        assert(one.drop_first() =~= Seq::<ChangeEntryV>::empty());
        assert(fold_seq(s, one) == fold_seq(fold_step_seq(s, e), one.drop_first()));
        assert(fold_seq(fold_step_seq(s, e), one.drop_first()) == fold_step_seq(s, e));
        assert(fold_seq(s, es) == s);
    } else {
        assert(one[0] == es[0]);
        assert(one.drop_first() =~= es.drop_first().push(e));
        assert(fold_seq(s, one) == fold_seq(fold_step_seq(s, es[0]), es.drop_first().push(e)));
        lemma_fold_seq_snoc(fold_step_seq(s, es[0]), es.drop_first(), e);
        assert(fold_seq(s, es) == fold_seq(fold_step_seq(s, es[0]), es.drop_first()));
    }
}

/// The merged, deduplicated change set of one project.
#[derive(Debug)]
pub struct ChangeSet {
    entries: Vec<ChangeEntry>,
}

impl View for ChangeSet {
    type V = Seq<ChangeEntryV>;

    closed spec fn view(&self) -> Seq<ChangeEntryV> {
        self.entries.deep_view()
    }
}

impl ChangeSet {
    /// At most one entry per path.
    pub open spec fn wf(&self) -> bool {
        entries_unique(self@)
    }

    /// The path-to-kind map this set denotes.
    pub open spec fn as_map(&self) -> Map<Seq<char>, ChangeKindV> {
        entries_as_map(self@)
    }

    pub fn new() -> (r: ChangeSet)
        ensures
            r@ =~= Seq::<ChangeEntryV>::empty(),
            r.wf(),
    {
        let r = ChangeSet { entries: Vec::new() };
        proof {
            assert(r@ =~= Seq::<ChangeEntryV>::empty());
        }
        r
    }

    pub fn len(&self) -> (r: usize)
        ensures
            r == self@.len(),
    {
        self.entries.len()
    }

    pub fn get(&self, i: usize) -> (r: &ChangeEntry)
        requires
            i < self@.len(),
        ensures
            r@ == self@[i as int],
    {
        &self.entries[i]
    }

    /// Folds one entry in: last write wins, but `Deleted` both wins and stays.
    pub fn fold_entry(&mut self, e: ChangeEntry)
        requires
            old(self).wf(),
        ensures
            final(self)@ == fold_step_seq(old(self)@, e@),
            final(self).wf(),
    {
        proof {
            lemma_find_path(self@, e@.path);
            lemma_fold_step_seq_unique(self@, e@);
        }
        let n = self.entries.len();
        let mut i: usize = 0;
        while i < n
            invariant
                i <= n,
                n == self@.len(),
                self.wf(),
                self@ == old(self)@,
                forall|j: int| 0 <= j < i ==> self@[j].path != e@.path,
            decreases n - i,
        {
            if self.entries[i].path == e.path {
                proof {
                    lemma_find_path_at(self@, e@.path, i as int);
                    lemma_fold_step_seq_unique(self@, e@);
                }
                let deleted = matches!(self.entries[i].kind, ChangeKind::Deleted);
                proof {
                    assert(deleted == (old(self)@[i as int].kind is Deleted));
                }
                let e_deleted = matches!(e.kind, ChangeKind::Deleted);
                if e_deleted {
                    self.entries.set(i, ChangeEntry { path: e.path, kind: ChangeKind::Deleted });
                    proof {
                        assert(self@ =~= fold_step_seq(old(self)@, e@));
                    }
                } else if !deleted {
                    self.entries.set(i, e);
                    proof {
                        assert(self@ =~= fold_step_seq(old(self)@, e@));
                    }
                } else {
                    proof {
                        assert(self@ =~= fold_step_seq(old(self)@, e@));
                    }
                }
                return ;
            }
            i = i + 1;
        }
        proof {
            lemma_find_path_at(self@, e@.path, n as int);
        }
        self.entries.push(e);
        proof {
            assert(self@ =~= fold_step_seq(old(self)@, e@));
        }
    }

    /// Folds a whole revision's entries, in their reported order.
    pub fn fold_revision(&mut self, entries: &Vec<ChangeEntry>)
        requires
            old(self).wf(),
        ensures
            final(self)@ == fold_seq(old(self)@, entries.deep_view()),
            final(self).wf(),
    {
        let ghost all = entries.deep_view();
        let mut k: usize = 0;
        let n = entries.len();
        while k < n
            invariant
                k <= n,
                n == entries.len(),
                entries.deep_view() == all,
                self.wf(),
                self@ == fold_seq(old(self)@, all.take(k as int)),
            decreases n - k,
        {
            let e = entries[k].clone();
            proof {
                assert(e@ == all[k as int]);
                lemma_fold_seq_snoc(old(self)@, all.take(k as int), all[k as int]);
                assert(all.take(k as int).push(all[k as int]) =~= all.take(k as int + 1));
            }
            self.fold_entry(e);
            k = k + 1;
        }
        proof {
            assert(all.take(n as int) =~= all);
        }
    }
}

} // verus!
