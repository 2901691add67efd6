//! The target-side apply protocol: back up, then write.
//!
//! Applying a manifest to a target tree runs in two disjoint phases.  The
//! backup phase copies every file the manifest is about to touch — and that
//! exists on the target — into a fresh snapshot; it must complete in full
//! before anything is written, and a single unreadable file aborts the whole
//! apply with the target untouched.  The write phase then applies each entry;
//! a per-file failure (its replacement is missing from the bundle) is
//! recorded and the rest still proceeds, the snapshot making the file
//! revertible by hand.

use vstd::prelude::*;
use crate::changeset::{ChangeSet, ChangeEntryV, ChangeKind, ChangeKindV};
use crate::files::{FileSet, clone_bytes, contains_str};

verus! {

/// Why an apply performed no writes at all.
#[derive(Debug)]
pub enum ApplyError {
    /// Some file owed a backup could not be read; nothing was mutated.
    BackupIncomplete,
}

/// The file-tree value of a path, or nothing where the path is unbound.
pub open spec fn fs_at(m: Map<Seq<char>, Seq<u8>>, p: Seq<char>) -> Option<Seq<u8>> {
    if m.contains_key(p) {
        Some(m[p])
    } else {
        None
    }
}

/// One write-phase step.  `Added` and `Modified` copy the bundled
/// replacement over the path; `Deleted` removes the path, absence being no
/// error; `Renamed` removes the old path and writes the new one.  An entry
/// whose replacement the bundle lacks changes nothing.
pub open spec fn write_one(
    fs: Map<Seq<char>, Seq<u8>>,
    bundle: Map<Seq<char>, Seq<u8>>,
    e: ChangeEntryV,
) -> Map<Seq<char>, Seq<u8>> {
    match e.kind {
        ChangeKindV::Deleted => fs.remove(e.path),
        ChangeKindV::Added | ChangeKindV::Modified => if bundle.contains_key(e.path) {
            fs.insert(e.path, bundle[e.path])
        } else {
            fs
        },
        ChangeKindV::Renamed(from) => if bundle.contains_key(e.path) {
            fs.remove(from).insert(e.path, bundle[e.path])
        } else {
            fs
        },
    }
}

/// The write phase: the entries applied in order.
pub open spec fn apply_entries(
    fs: Map<Seq<char>, Seq<u8>>,
    bundle: Map<Seq<char>, Seq<u8>>,
    s: Seq<ChangeEntryV>,
) -> Map<Seq<char>, Seq<u8>>
    decreases s.len(),
{
    if s.len() == 0 {
        fs
    } else {
        write_one(apply_entries(fs, bundle, s.drop_last()), bundle, s.last())
    }
}

/// The paths one entry owes a backup for: its own, and for a rename also
/// the old one.
pub open spec fn entry_guards(e: ChangeEntryV, p: Seq<char>) -> bool {
    e.path == p || (e.kind is Renamed && e.kind->Renamed_0 == p)
}

/// The backup phase: for every entry, the target's current bytes at each
/// guarded path that exists, keyed by that path.
pub open spec fn backup_fold(
    s: Seq<ChangeEntryV>,
    t: Map<Seq<char>, Seq<u8>>,
) -> Map<Seq<char>, Seq<u8>>
    decreases s.len(),
{
    if s.len() == 0 {
        Map::empty()
    } else {
        let m = backup_fold(s.drop_last(), t);
        let e = s.last();
        let m1 = if t.contains_key(e.path) {
            m.insert(e.path, t[e.path])
        } else {
            m
        };
        match e.kind {
            ChangeKindV::Renamed(from) => if t.contains_key(from) {
                m1.insert(from, t[from])
            } else {
                m1
            },
            _ => m1,
        }
    }
}

/// The write-phase failures: entries whose replacement the bundle lacks,
/// in entry order.
pub open spec fn failed_fold(s: Seq<ChangeEntryV>, bundle: Map<Seq<char>, Seq<u8>>) -> Seq<
    Seq<char>,
>
    decreases s.len(),
{
    if s.len() == 0 {
        seq![]
    } else {
        failed_fold(s.drop_last(), bundle) + (match s.last().kind {
            ChangeKindV::Deleted => seq![],
            _ => if bundle.contains_key(s.last().path) {
                seq![]
            } else {
                seq![s.last().path]
            },
        })
    }
}

/// Whether some owed backup cannot be taken: a guarded path that exists on
/// the target but cannot be read.
pub open spec fn backup_blocked(
    s: Seq<ChangeEntryV>,
    t: Map<Seq<char>, Seq<u8>>,
    unreadable: Seq<Seq<char>>,
) -> bool {
    exists|p: Seq<char>| #[trigger] backup_fold(s, t).contains_key(p) && unreadable.contains(p)
}

/// What a completed apply returns.
#[derive(Debug)]
pub struct ApplyOutcome {
    /// The pre-mutation copies of every touched file that existed.
    pub backup: FileSet,
    /// The target tree after the write phase.
    pub patched: FileSet,
    /// The paths whose write failed, for the operator's summary.
    pub failed: Vec<String>,
}

/// Law (backup domain): the snapshot holds exactly the guarded paths that
/// exist on the target.
pub proof fn lemma_backup_domain(s: Seq<ChangeEntryV>, t: Map<Seq<char>, Seq<u8>>, p: Seq<char>)
    ensures
        backup_fold(s, t).contains_key(p) <==> (t.contains_key(p) && exists|i: int|
            0 <= i < s.len() && entry_guards(s[i], p)),
    decreases s.len(),
{
    if s.len() > 0 {
        lemma_backup_domain(s.drop_last(), t, p);
        if backup_fold(s, t).contains_key(p) {
            if backup_fold(s.drop_last(), t).contains_key(p) {
                let i = choose|i: int| 0 <= i < s.drop_last().len() && entry_guards(
                    s.drop_last()[i],
                    p,
                );
                assert(entry_guards(s[i], p));
            } else {
                assert(entry_guards(s[s.len() - 1], p));
            }
        }
        if t.contains_key(p) && exists|i: int| 0 <= i < s.len() && entry_guards(s[i], p) {
            let i = choose|i: int| 0 <= i < s.len() && entry_guards(s[i], p);
            if i < s.len() - 1 {
                assert(entry_guards(s.drop_last()[i], p));
                assert(backup_fold(s.drop_last(), t).contains_key(p));
            }
            assert(backup_fold(s, t).contains_key(p));
        }
    }
}

/// Every snapshot binding is verbatim from the target.
pub proof fn lemma_backup_values(s: Seq<ChangeEntryV>, t: Map<Seq<char>, Seq<u8>>, p: Seq<char>)
    ensures
        backup_fold(s, t).contains_key(p) ==> t.contains_key(p) && backup_fold(s, t)[p] == t[p],
    decreases s.len(),
{
    if s.len() > 0 {
        lemma_backup_values(s.drop_last(), t, p);
    }
}

/// Law (backup completeness): every manifest entry whose path existed
/// before the apply has its exact pre-apply bytes in the snapshot.
pub proof fn lemma_backup_complete(s: Seq<ChangeEntryV>, t: Map<Seq<char>, Seq<u8>>, p: Seq<char>)
    requires
        t.contains_key(p),
        exists|i: int| 0 <= i < s.len() && entry_guards(#[trigger] s[i], p),
    ensures
        backup_fold(s, t).contains_key(p),
        backup_fold(s, t)[p] == t[p],
{
    lemma_backup_domain(s, t, p);
    lemma_backup_values(s, t, p);
}

/// Whether one write-phase step settles the path `p` to a value of its own
/// (rather than passing the tree's previous value through).
pub open spec fn settles(e: ChangeEntryV, bundle: Map<Seq<char>, Seq<u8>>, p: Seq<char>) -> bool {
    match e.kind {
        ChangeKindV::Deleted => e.path == p,
        ChangeKindV::Added | ChangeKindV::Modified => e.path == p && bundle.contains_key(e.path),
        ChangeKindV::Renamed(from) => bundle.contains_key(e.path) && (e.path == p || from == p),
    }
}

/// A step that does not settle `p` leaves the tree's value at `p` alone.
pub proof fn lemma_write_one_frame(
    fs: Map<Seq<char>, Seq<u8>>,
    bundle: Map<Seq<char>, Seq<u8>>,
    e: ChangeEntryV,
    p: Seq<char>,
)
    requires
        !settles(e, bundle, p),
    ensures
        fs_at(write_one(fs, bundle, e), p) == fs_at(fs, p),
{
}

/// A step that settles `p` fixes its value regardless of the tree written.
pub proof fn lemma_write_one_settles(
    fs1: Map<Seq<char>, Seq<u8>>,
    fs2: Map<Seq<char>, Seq<u8>>,
    bundle: Map<Seq<char>, Seq<u8>>,
    e: ChangeEntryV,
    p: Seq<char>,
)
    requires
        settles(e, bundle, p),
    ensures
        fs_at(write_one(fs1, bundle, e), p) == fs_at(write_one(fs2, bundle, e), p),
{
}

/// The write phase leaves untouched paths exactly as found.
pub proof fn lemma_apply_frame(
    fs: Map<Seq<char>, Seq<u8>>,
    bundle: Map<Seq<char>, Seq<u8>>,
    s: Seq<ChangeEntryV>,
    p: Seq<char>,
)
    requires
        forall|i: int| 0 <= i < s.len() ==> !settles(#[trigger] s[i], bundle, p),
    ensures
        fs_at(apply_entries(fs, bundle, s), p) == fs_at(fs, p),
    decreases s.len(),
{
    if s.len() > 0 {
        assert forall|i: int| 0 <= i < s.drop_last().len() implies !settles(
            #[trigger] s.drop_last()[i],
            bundle,
            p,
        ) by {
            assert(s.drop_last()[i] == s[i]);
        }
        lemma_apply_frame(fs, bundle, s.drop_last(), p);
        lemma_write_one_frame(apply_entries(fs, bundle, s.drop_last()), bundle, s.last(), p);
    }
}

/// A touched path ends at the same value whatever tree the phase started
/// from.
pub proof fn lemma_apply_settles(
    fs1: Map<Seq<char>, Seq<u8>>,
    fs2: Map<Seq<char>, Seq<u8>>,
    bundle: Map<Seq<char>, Seq<u8>>,
    s: Seq<ChangeEntryV>,
    p: Seq<char>,
)
    requires
        exists|i: int| 0 <= i < s.len() && settles(#[trigger] s[i], bundle, p),
    ensures
        fs_at(apply_entries(fs1, bundle, s), p) == fs_at(apply_entries(fs2, bundle, s), p),
    decreases s.len(),
{
    let a1 = apply_entries(fs1, bundle, s.drop_last());
    let a2 = apply_entries(fs2, bundle, s.drop_last());
    if settles(s.last(), bundle, p) {
        lemma_write_one_settles(a1, a2, bundle, s.last(), p);
    } else {
        let i = choose|i: int| 0 <= i < s.len() && settles(s[i], bundle, p);
        assert(s.drop_last()[i] == s[i]);
        lemma_apply_settles(fs1, fs2, bundle, s.drop_last(), p);
        lemma_write_one_frame(a1, bundle, s.last(), p);
        lemma_write_one_frame(a2, bundle, s.last(), p);
    }
}

/// Law (idempotence of re-apply): applying the same manifest to an
/// already-patched tree leaves that tree exactly as it is.
pub proof fn lemma_apply_idempotent(
    fs: Map<Seq<char>, Seq<u8>>,
    bundle: Map<Seq<char>, Seq<u8>>,
    s: Seq<ChangeEntryV>,
)
    ensures
        apply_entries(apply_entries(fs, bundle, s), bundle, s) =~= apply_entries(fs, bundle, s),
{
    let t1 = apply_entries(fs, bundle, s);
    let t2 = apply_entries(t1, bundle, s);
    assert forall|p: Seq<char>| #[trigger] fs_at(t2, p) == fs_at(t1, p) by {
        if exists|i: int| 0 <= i < s.len() && settles(#[trigger] s[i], bundle, p) {
            lemma_apply_settles(t1, fs, bundle, s, p);
        } else {
            lemma_apply_frame(t1, bundle, s, p);
        }
    }
    assert(t2.dom() =~= t1.dom()) by {
        assert forall|p: Seq<char>| t2.dom().contains(p) <==> t1.dom().contains(p) by {
            assert(fs_at(t2, p) == fs_at(t1, p));
        }
    }
    assert forall|p: Seq<char>| t1.dom().contains(p) implies t2[p] == t1[p] by {
        assert(fs_at(t2, p) == fs_at(t1, p));
    }
    assert(t2 =~= t1);
}

/// Applies a change set to a target tree: a full backup of every touched,
/// existing file first, then the writes, per-file write failures recorded.
/// An apply whose backup would be incomplete — some guarded path exists but
/// cannot be read — mutates nothing and reports the abort.
pub fn apply_changes(
    changes: &ChangeSet,
    bundle: &FileSet,
    target: &FileSet,
    unreadable: &Vec<String>,
) -> (r: Result<ApplyOutcome, ApplyError>)
    requires
        changes.wf(),
        bundle.wf(),
        target.wf(),
    ensures
        match r {
            Ok(o) => {
                &&& !backup_blocked(changes@, target@, unreadable.deep_view())
                &&& o.backup@ == backup_fold(changes@, target@)
                &&& forall|p: Seq<char>| #[trigger] o.backup@.contains_key(p) ==> target@.contains_key(p)
                    && o.backup@[p] == target@[p]
                &&& o.patched@ == apply_entries(target@, bundle@, changes@)
                &&& o.failed.deep_view() == failed_fold(changes@, bundle@)
                &&& o.backup.wf()
                &&& o.patched.wf()
            },
            Err(e) => {
                &&& e is BackupIncomplete
                &&& backup_blocked(changes@, target@, unreadable.deep_view())
            },
        },
{
    let n = changes.len();
    let ghost cs = changes@;

    // Backup phase: gather every guarded path's current bytes; abort whole
    // if any owed backup cannot be taken.
    let mut backup = FileSet::new();
    proof {
        assert(backup@ =~= backup_fold(cs.take(0), target@));
    }
    let mut i: usize = 0;
    while i < n
        invariant
            i <= n,
            n == cs.len(),
            changes@ == cs,
            changes.wf(),
            target.wf(),
            backup.wf(),
            backup@ == backup_fold(cs.take(i as int), target@),
            !backup_blocked(cs.take(i as int), target@, unreadable.deep_view()),
        decreases n - i,
    {
        proof {
            assert(cs.take(i + 1).drop_last() =~= cs.take(i as int));
            assert(cs.take(i + 1).last() == cs[i as int]);
        }
        let e = changes.get(i);
        let ghost before = backup@;
        match target.get(e.path.as_str()) {
            Some(d) => {
                if contains_str(unreadable, e.path.as_str()) {
                    proof {
                        lemma_backup_domain(cs, target@, e.path@);
                        assert(entry_guards(cs[i as int], e.path@));
                        assert(backup_fold(cs, target@).contains_key(e.path@));
                    }
                    return Err(ApplyError::BackupIncomplete);
                }
                let bytes = clone_bytes(d);
                backup.insert_file(e.path.clone(), bytes);
            },
            None => {},
        }
        match &e.kind {
            ChangeKind::Renamed { from } => {
                match target.get(from.as_str()) {
                    Some(d) => {
                        if contains_str(unreadable, from.as_str()) {
                            proof {
                                lemma_backup_domain(cs, target@, from@);
                                assert(entry_guards(cs[i as int], from@));
                                assert(backup_fold(cs, target@).contains_key(from@));
                            }
                            return Err(ApplyError::BackupIncomplete);
                        }
                        let bytes = clone_bytes(d);
                        backup.insert_file(from.clone(), bytes);
                    },
                    None => {},
                }
            },
            _ => {},
        }
        proof {
            assert(backup@ =~= backup_fold(cs.take(i + 1), target@));
            assert forall|p: Seq<char>| #[trigger] backup_fold(
                cs.take(i + 1),
                target@,
                ).contains_key(p) && unreadable.deep_view().contains(p) implies false by {
                lemma_backup_domain(cs.take(i + 1), target@, p);
                let j = choose|j: int| 0 <= j < cs.take(i + 1).len() && entry_guards(
                    #[trigger] cs.take(i + 1)[j],
                    p,
                );
                if j < i {
                    lemma_backup_domain(cs.take(i as int), target@, p);
                    assert(cs.take(i as int)[j] == cs[j]);
                    assert(backup_blocked(cs.take(i as int), target@, unreadable.deep_view()));
                } else {
                    assert(cs.take(i + 1)[j] == cs[i as int]);
                    if cs[i as int].path == p {
                        assert(target@.contains_key(cs[i as int].path));
                    } else {
                        assert(cs[i as int].kind is Renamed && cs[i as int].kind->Renamed_0 == p);
                        assert(target@.contains_key(p));
                    }
                }
            }
        }
        i = i + 1;
    }
    proof {
        assert(cs.take(n as int) =~= cs);
    }

    // Write phase: apply each entry; a missing replacement is recorded and
    // the rest still proceeds.
    let mut patched = target.duplicate();
    let mut failed: Vec<String> = Vec::new();
    proof {
        assert(patched@ =~= apply_entries(target@, bundle@, cs.take(0)));
        assert(failed.deep_view() =~= failed_fold(cs.take(0), bundle@));
    }
    let mut k: usize = 0;
    while k < n
        invariant
            k <= n,
            n == cs.len(),
            changes@ == cs,
            changes.wf(),
            bundle.wf(),
            patched.wf(),
            patched@ == apply_entries(target@, bundle@, cs.take(k as int)),
            failed.deep_view() == failed_fold(cs.take(k as int), bundle@),
        decreases n - k,
    {
        proof {
            assert(cs.take(k + 1).drop_last() =~= cs.take(k as int));
            assert(cs.take(k + 1).last() == cs[k as int]);
        }
        let e = changes.get(k);
        let ghost failed_before = failed.deep_view();
        match &e.kind {
            ChangeKind::Deleted => {
                patched.remove_file(e.path.as_str());
            },
            ChangeKind::Added | ChangeKind::Modified => {
                match bundle.get(e.path.as_str()) {
                    Some(d) => {
                        let bytes = clone_bytes(d);
                        patched.insert_file(e.path.clone(), bytes);
                    },
                    None => {
                        failed.push(e.path.clone());
                        proof {
                            assert(failed.deep_view() =~= failed_before.push(e.path@));
                            assert(failed_before + seq![cs[k as int].path] =~= failed.deep_view());
                        }
                    },
                }
            },
            ChangeKind::Renamed { from } => {
                match bundle.get(e.path.as_str()) {
                    Some(d) => {
                        let bytes = clone_bytes(d);
                        patched.remove_file(from.as_str());
                        patched.insert_file(e.path.clone(), bytes);
                    },
                    None => {
                        failed.push(e.path.clone());
                        proof {
                            assert(failed.deep_view() =~= failed_before.push(e.path@));
                            assert(failed_before + seq![cs[k as int].path] =~= failed.deep_view());
                        }
                    },
                }
            },
        }
        proof {
            assert(patched@ =~= apply_entries(target@, bundle@, cs.take(k + 1)));
            assert(failed.deep_view() =~= failed_fold(cs.take(k + 1), bundle@));
        }
        k = k + 1;
    }
    proof {
        assert(cs.take(n as int) =~= cs);
    }
    proof {
        assert forall|p: Seq<char>| #[trigger] backup@.contains_key(p) implies target@.contains_key(
            p,
        ) && backup@[p] == target@[p] by {
            lemma_backup_values(cs, target@, p);
        }
    }
    Ok(ApplyOutcome { backup, patched, failed })
}

} // verus!
