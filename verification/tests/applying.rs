use easy_patcher::apply::{apply_changes, ApplyError};
use easy_patcher::changeset::{ChangeEntry, ChangeKind, ChangeSet};
use easy_patcher::files::FileSet;

fn set_of(pairs: &[(&str, &[u8])]) -> FileSet {
    let mut fs = FileSet::new();
    for (p, d) in pairs {
        fs.insert_file(p.to_string(), d.to_vec());
    }
    fs
}

fn changes_of(entries: Vec<ChangeEntry>) -> ChangeSet {
    let mut cs = ChangeSet::new();
    for e in entries {
        cs.fold_entry(e);
    }
    cs
}

fn entry(path: &str, kind: ChangeKind) -> ChangeEntry {
    ChangeEntry { path: path.to_string(), kind }
}

#[test]
fn backup_holds_every_touched_existing_file_verbatim() {
    let target = set_of(&[("a.txt", b"old a"), ("b.txt", b"keep me")]);
    let bundle = set_of(&[("a.txt", b"new a"), ("c.txt", b"new c")]);
    let changes = changes_of(vec![
        entry("a.txt", ChangeKind::Modified),
        entry("c.txt", ChangeKind::Added),
    ]);
    let out = apply_changes(&changes, &bundle, &target, &vec![]).unwrap();
    // a.txt existed before the apply, so its old bytes are in the snapshot.
    assert_eq!(out.backup.get("a.txt").unwrap(), b"old a");
    // c.txt did not exist, so nothing of it is snapshotted.
    assert!(out.backup.get("c.txt").is_none());
    // b.txt is untouched by the manifest.
    assert!(out.backup.get("b.txt").is_none());
    assert_eq!(out.patched.get("a.txt").unwrap(), b"new a");
    assert_eq!(out.patched.get("c.txt").unwrap(), b"new c");
    assert_eq!(out.patched.get("b.txt").unwrap(), b"keep me");
    assert!(out.failed.is_empty());
}

#[test]
fn unreadable_backup_aborts_with_no_outcome() {
    let target = set_of(&[("a.txt", b"old a")]);
    let bundle = set_of(&[("a.txt", b"new a")]);
    let changes = changes_of(vec![entry("a.txt", ChangeKind::Modified)]);
    let r = apply_changes(&changes, &bundle, &target, &vec!["a.txt".to_string()]);
    assert!(matches!(r, Err(ApplyError::BackupIncomplete)));
}

#[test]
fn unreadable_untouched_file_does_not_block() {
    let target = set_of(&[("a.txt", b"old a"), ("other.txt", b"x")]);
    let bundle = set_of(&[("a.txt", b"new a")]);
    let changes = changes_of(vec![entry("a.txt", ChangeKind::Modified)]);
    let r = apply_changes(&changes, &bundle, &target, &vec!["other.txt".to_string()]);
    assert!(r.is_ok());
}

#[test]
fn delete_of_absent_file_is_no_error() {
    let target = set_of(&[("a.txt", b"a")]);
    let bundle = FileSet::new();
    let changes = changes_of(vec![entry("gone.txt", ChangeKind::Deleted)]);
    let out = apply_changes(&changes, &bundle, &target, &vec![]).unwrap();
    assert!(out.failed.is_empty());
    assert_eq!(out.patched.get("a.txt").unwrap(), b"a");
    assert!(out.patched.get("gone.txt").is_none());
}

#[test]
fn rename_moves_old_path_to_new() {
    let target = set_of(&[("old/name.cfg", b"v1")]);
    let bundle = set_of(&[("new/name.cfg", b"v2")]);
    let changes = changes_of(vec![entry(
        "new/name.cfg",
        ChangeKind::Renamed { from: "old/name.cfg".to_string() },
    )]);
    let out = apply_changes(&changes, &bundle, &target, &vec![]).unwrap();
    assert!(out.patched.get("old/name.cfg").is_none());
    assert_eq!(out.patched.get("new/name.cfg").unwrap(), b"v2");
    // The old path existed pre-apply, so it was backed up.
    assert_eq!(out.backup.get("old/name.cfg").unwrap(), b"v1");
}

#[test]
fn missing_replacement_is_recorded_and_rest_proceeds() {
    let target = set_of(&[("a.txt", b"old a"), ("b.txt", b"old b")]);
    let bundle = set_of(&[("b.txt", b"new b")]);
    let changes = changes_of(vec![
        entry("a.txt", ChangeKind::Modified),
        entry("b.txt", ChangeKind::Modified),
    ]);
    let out = apply_changes(&changes, &bundle, &target, &vec![]).unwrap();
    assert_eq!(out.failed, vec!["a.txt".to_string()]);
    // The failed file is left as found; the other write went through.
    assert_eq!(out.patched.get("a.txt").unwrap(), b"old a");
    assert_eq!(out.patched.get("b.txt").unwrap(), b"new b");
}

#[test]
fn reapplying_the_same_manifest_changes_nothing_more() {
    let target = set_of(&[("a.txt", b"old"), ("dead.txt", b"bye"), ("keep.txt", b"k")]);
    let bundle = set_of(&[("a.txt", b"new"), ("added.txt", b"plus")]);
    let changes = changes_of(vec![
        entry("a.txt", ChangeKind::Modified),
        entry("dead.txt", ChangeKind::Deleted),
        entry("added.txt", ChangeKind::Added),
    ]);
    let once = apply_changes(&changes, &bundle, &target, &vec![]).unwrap();
    let twice = apply_changes(&changes, &bundle, &once.patched, &vec![]).unwrap();
    for path in ["a.txt", "dead.txt", "added.txt", "keep.txt"] {
        assert_eq!(once.patched.get(path), twice.patched.get(path), "path {}", path);
    }
    // Deleting an already-absent file stayed a no-op.
    assert!(twice.patched.get("dead.txt").is_none());
    assert_eq!(twice.patched.get("a.txt").unwrap(), b"new");
}
