use easy_patcher::changeset::{ChangeEntry, ChangeKind, ChangeSet};
use easy_patcher::assemble::{build_change_set, assemble_patch_sets, ProjectSelection};
use easy_patcher::vcs::{RevisionRecord, VcsKind};

fn added(path: &str) -> ChangeEntry {
    ChangeEntry { path: path.to_string(), kind: ChangeKind::Added }
}

fn modified(path: &str) -> ChangeEntry {
    ChangeEntry { path: path.to_string(), kind: ChangeKind::Modified }
}

fn deleted(path: &str) -> ChangeEntry {
    ChangeEntry { path: path.to_string(), kind: ChangeKind::Deleted }
}

fn entries_of(cs: &ChangeSet) -> Vec<(String, ChangeKind)> {
    let mut out = Vec::new();
    for i in 0..cs.len() {
        let e = cs.get(i);
        out.push((e.path.clone(), e.kind.clone()));
    }
    out
}

#[test]
fn last_write_wins_for_same_path() {
    let mut cs = ChangeSet::new();
    cs.fold_entry(added("a.txt"));
    cs.fold_entry(modified("a.txt"));
    let es = entries_of(&cs);
    assert_eq!(es.len(), 1);
    assert_eq!(es[0].0, "a.txt");
    assert!(matches!(es[0].1, ChangeKind::Modified));
}

#[test]
fn delete_wins_when_folded_after() {
    // Selecting [r1: Modified(a.txt), r2: Deleted(a.txt)] in that fold order.
    let mut cs = ChangeSet::new();
    cs.fold_entry(modified("a.txt"));
    cs.fold_entry(deleted("a.txt"));
    let es = entries_of(&cs);
    assert_eq!(es.len(), 1);
    assert!(matches!(es[0].1, ChangeKind::Deleted));
}

#[test]
fn delete_wins_when_folded_before() {
    // The reverse fold order still yields Deleted: delete always wins.
    let mut cs = ChangeSet::new();
    cs.fold_entry(deleted("a.txt"));
    cs.fold_entry(modified("a.txt"));
    let es = entries_of(&cs);
    assert_eq!(es.len(), 1);
    assert!(matches!(es[0].1, ChangeKind::Deleted));
}

#[test]
fn fold_is_deterministic_across_reruns() {
    let run = || {
        let mut cs = ChangeSet::new();
        cs.fold_entry(added("x"));
        cs.fold_entry(modified("y"));
        cs.fold_entry(deleted("x"));
        cs.fold_entry(added("z"));
        entries_of(&cs)
    };
    assert_eq!(run(), run());
}

#[test]
fn merged_set_skips_unselected_revision() {
    // Project P (Git) lists [r3: Modified(config.xml), r2: Added(readme.md),
    // r1: Added(config.xml)] newest first; the operator selects r1 and r2
    // only.  Folding oldest to newest: r1 then r2.
    let r1 = vec![added("config.xml")];
    let r2 = vec![added("readme.md")];
    let cs = build_change_set(&vec![r1, r2]);
    let es = entries_of(&cs);
    assert_eq!(es.len(), 2);
    assert_eq!(es[0].0, "config.xml");
    assert!(matches!(es[0].1, ChangeKind::Added));
    assert_eq!(es[1].0, "readme.md");
    assert!(matches!(es[1].1, ChangeKind::Added));
}

#[test]
fn delete_dominates_across_revisions() {
    // Selecting {r1: Added(a), r2: Deleted(a)} folded r1 then r2 gives
    // {a: Deleted}; presenting the selection the other way round while the
    // fold order stays oldest-to-newest gives the same set.
    let cs = build_change_set(&vec![vec![added("a")], vec![deleted("a")]]);
    let es = entries_of(&cs);
    assert_eq!(es.len(), 1);
    assert_eq!(es[0].0, "a");
    assert!(matches!(es[0].1, ChangeKind::Deleted));

    let cs2 = build_change_set(&vec![vec![added("a")], vec![deleted("a")]]);
    assert_eq!(entries_of(&cs2), es);
}

#[test]
fn empty_selection_drops_project_from_run() {
    let kept = ProjectSelection {
        project_path: "p1".to_string(),
        vcs: VcsKind::Git,
        revisions: vec![RevisionRecord {
            id: "abc".to_string(),
            summary: "first".to_string(),
            vcs: VcsKind::Git,
        }],
        revision_changes: vec![vec![added("a")]],
    };
    let dropped = ProjectSelection {
        project_path: "p2".to_string(),
        vcs: VcsKind::Svn,
        revisions: vec![],
        revision_changes: vec![],
    };
    let manifests = assemble_patch_sets(&vec![dropped, kept]);
    assert_eq!(manifests.len(), 1);
    assert_eq!(manifests[0].project_path, "p1");
    assert_eq!(manifests[0].revisions.len(), 1);
    assert_eq!(manifests[0].changes.len(), 1);
    assert_eq!(manifests[0].changes.get(0).path, "a");
}
