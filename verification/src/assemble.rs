//! The patch-set assembler: from an operator's revision selections to one
//! manifest per project.
//!
//! A project whose operator selected no revision is dropped from the run
//! entirely; each other project's selected revisions are folded oldest to
//! newest into its deduplicated change set.

use vstd::prelude::*;
use crate::changeset::{ChangeEntry, ChangeEntryV, ChangeSet, fold_seq};
use crate::output::{PatchManifest, PatchManifestV};
use crate::vcs::{RevisionRecord, RevisionRecordV, VcsKind};

verus! {

/// Spec-level selection.
pub struct ProjectSelectionV {
    pub project_path: Seq<char>,
    pub vcs: VcsKind,
    pub revisions: Seq<RevisionRecordV>,
    pub revision_changes: Seq<Seq<ChangeEntryV>>,
}

/// One project's selected revisions, oldest first, each with the change
/// entries its changed-file query reported.  A revision whose query failed
/// is excluded by the caller before assembly; the rest still proceed.
#[derive(Debug)]
pub struct ProjectSelection {
    pub project_path: String,
    pub vcs: VcsKind,
    pub revisions: Vec<RevisionRecord>,
    pub revision_changes: Vec<Vec<ChangeEntry>>,
}

impl View for ProjectSelection {
    type V = ProjectSelectionV;

    open spec fn view(&self) -> ProjectSelectionV {
        ProjectSelectionV {
            project_path: self.project_path@,
            vcs: self.vcs,
            revisions: self.revisions.deep_view(),
            revision_changes: self.revision_changes.deep_view(),
        }
    }
}

impl DeepView for ProjectSelection {
    type V = ProjectSelectionV;

    open spec fn deep_view(&self) -> ProjectSelectionV {
        self@
    }
}

/// The fold of §4.3, revision by revision, starting from an empty set.
pub open spec fn fold_revisions(
    s: Seq<ChangeEntryV>,
    rs: Seq<Seq<ChangeEntryV>>,
) -> Seq<ChangeEntryV>
    decreases rs.len(),
{
    if rs.len() == 0 {
        s
    } else {
        fold_revisions(fold_seq(s, rs[0]), rs.drop_first())
    }
}

pub proof fn lemma_fold_revisions_snoc(
    s: Seq<ChangeEntryV>,
    rs: Seq<Seq<ChangeEntryV>>,
    es: Seq<ChangeEntryV>,
)
    ensures
        fold_revisions(s, rs.push(es)) == fold_seq(fold_revisions(s, rs), es),
    decreases rs.len(),
{
    let one = rs.push(es);
    if rs.len() == 0 {
        assert(one[0] == es);
        assert(one.drop_first() =~= Seq::<Seq<ChangeEntryV>>::empty());
        assert(fold_revisions(s, one) == fold_revisions(fold_seq(s, es), one.drop_first()));
    } else {
        assert(one[0] == rs[0]);
        assert(one.drop_first() =~= rs.drop_first().push(es));
        assert(fold_revisions(s, one) == fold_revisions(fold_seq(s, rs[0]), rs.drop_first().push(
            es,
        )));
        lemma_fold_revisions_snoc(fold_seq(s, rs[0]), rs.drop_first(), es);
        assert(fold_revisions(s, rs) == fold_revisions(fold_seq(s, rs[0]), rs.drop_first()));
    }
}

/// Builds one project's merged change set from its selected revisions'
/// change entries, oldest selection folded first.
pub fn build_change_set(revision_changes: &Vec<Vec<ChangeEntry>>) -> (r: ChangeSet)
    ensures
        r@ == fold_revisions(Seq::<ChangeEntryV>::empty(), revision_changes.deep_view()),
        r.wf(),
{
    let ghost rs = revision_changes.deep_view();
    let mut cs = ChangeSet::new();
    proof {
        assert(rs.take(0) =~= Seq::<Seq<ChangeEntryV>>::empty());
        assert(cs@ == fold_revisions(Seq::<ChangeEntryV>::empty(), rs.take(0)));
    }
    let n = revision_changes.len();
    let mut i: usize = 0;
    while i < n
        invariant
            i <= n,
            n == rs.len(),
            revision_changes.deep_view() == rs,
            cs.wf(),
            cs@ == fold_revisions(Seq::<ChangeEntryV>::empty(), rs.take(i as int)),
        decreases n - i,
    {
        proof {
            assert(revision_changes.deep_view()[i as int] == revision_changes@[i as int].deep_view());
            lemma_fold_revisions_snoc(Seq::<ChangeEntryV>::empty(), rs.take(i as int), rs[i as int]);
            assert(rs.take(i as int).push(rs[i as int]) =~= rs.take(i + 1));
        }
        cs.fold_revision(&revision_changes[i]);
        i = i + 1;
    }
    proof {
        assert(rs.take(n as int) =~= rs);
    }
    cs
}

/// Copies a revision list.
pub fn clone_revisions(v: &Vec<RevisionRecord>) -> (r: Vec<RevisionRecord>)
    ensures
        r.deep_view() == v.deep_view(),
{
    let mut r: Vec<RevisionRecord> = Vec::new();
    let n = v.len();
    let mut i: usize = 0;
    while i < n
        invariant
            i <= n,
            n == v.deep_view().len(),
            r.deep_view() == v.deep_view().take(i as int),
        decreases n - i,
    {
        let rec = v[i].clone();
        r.push(rec);
        proof {
            assert(r.deep_view() =~= v.deep_view().take(i as int).push(v.deep_view()[i as int]));
            assert(v.deep_view().take(i + 1) =~= v.deep_view().take(i as int).push(
                v.deep_view()[i as int],
            ));
        }
        i = i + 1;
    }
    proof {
        assert(v.deep_view().take(n as int) =~= v.deep_view());
    }
    r
}

/// The manifest one selection assembles to.
pub open spec fn manifest_of_selection(s: ProjectSelectionV) -> PatchManifestV {
    PatchManifestV {
        project_path: s.project_path,
        vcs: s.vcs,
        revisions: s.revisions,
        changes: fold_revisions(Seq::<ChangeEntryV>::empty(), s.revision_changes),
    }
}

/// The manifests of a whole run: empty selections dropped, the rest
/// assembled in registration order.
pub open spec fn assemble_spec(sels: Seq<ProjectSelectionV>) -> Seq<PatchManifestV>
    decreases sels.len(),
{
    if sels.len() == 0 {
        seq![]
    } else {
        assemble_spec(sels.drop_last()) + (if sels.last().revisions.len() == 0 {
            seq![]
        } else {
            seq![manifest_of_selection(sels.last())]
        })
    }
}

/// Turns the operator's selections into one manifest per project that kept
/// at least one revision; a project with an empty selection produces no
/// patch at all.
pub fn assemble_patch_sets(selections: &Vec<ProjectSelection>) -> (r: Vec<PatchManifest>)
    ensures
        r.deep_view() == assemble_spec(selections.deep_view()),
{
    let ghost sels = selections.deep_view();
    let mut r: Vec<PatchManifest> = Vec::new();
    proof {
        assert(sels.take(0) =~= Seq::<ProjectSelectionV>::empty());
        assert(r.deep_view() =~= assemble_spec(sels.take(0)));
    }
    let n = selections.len();
    let mut i: usize = 0;
    while i < n
        invariant
            i <= n,
            n == sels.len(),
            selections.deep_view() == sels,
            r.deep_view() == assemble_spec(sels.take(i as int)),
        decreases n - i,
    {
        proof {
            assert(sels[i as int] == selections@[i as int]@);
            assert(sels.take(i + 1).drop_last() =~= sels.take(i as int));
            assert(sels.take(i + 1).last() == sels[i as int]);
        }
        let sel = &selections[i];
        if sel.revisions.len() > 0 {
            let m = PatchManifest {
                project_path: sel.project_path.clone(),
                vcs: sel.vcs,
                revisions: clone_revisions(&sel.revisions),
                changes: build_change_set(&sel.revision_changes),
            };
            let ghost before = r.deep_view();
            r.push(m);
            proof {
                assert(m@ == manifest_of_selection(sels[i as int]));
                assert(r.deep_view() =~= before.push(m@));
                assert(before + seq![manifest_of_selection(sels[i as int])] =~= r.deep_view());
            }
        }
        i = i + 1;
    }
    proof {
        assert(sels.take(n as int) =~= sels);
    }
    r
}

} // verus!
