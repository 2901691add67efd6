use easy_patcher::changeset::{ChangeEntry, ChangeKind, ChangeSet};
use easy_patcher::output::{
    manifest_lines, output_dir_name, register_output_dir, OutputError, PatchManifest,
};
use easy_patcher::script::{configure_target, generate_apply_script, script_op, ScriptOp};
use easy_patcher::vcs::{RevisionRecord, VcsKind};

fn sample_manifest() -> PatchManifest {
    let mut changes = ChangeSet::new();
    changes.fold_entry(ChangeEntry { path: "config.xml".to_string(), kind: ChangeKind::Added });
    changes.fold_entry(ChangeEntry { path: "old.txt".to_string(), kind: ChangeKind::Deleted });
    changes.fold_entry(ChangeEntry {
        path: "new/name.rs".to_string(),
        kind: ChangeKind::Renamed { from: "old/name.rs".to_string() },
    });
    PatchManifest {
        project_path: "work/webapp".to_string(),
        vcs: VcsKind::Git,
        revisions: vec![
            RevisionRecord {
                id: "abc123".to_string(),
                summary: "add config".to_string(),
                vcs: VcsKind::Git,
            },
            RevisionRecord {
                id: "def456".to_string(),
                summary: "tidy up".to_string(),
                vcs: VcsKind::Git,
            },
        ],
        changes,
    }
}

#[test]
fn output_dir_flattens_the_project_path() {
    assert_eq!(output_dir_name("work/webapp", "20240102_030405"), "work_webapp_20240102_030405");
    assert_eq!(output_dir_name("plain", "20240102_030405"), "plain_20240102_030405");
}

#[test]
fn registering_the_same_output_twice_fails_fast() {
    let mut existing = Vec::new();
    let first = register_output_dir(&mut existing, "work/webapp", "20240102_030405").unwrap();
    assert_eq!(first, "work_webapp_20240102_030405");
    assert_eq!(existing, vec!["work_webapp_20240102_030405".to_string()]);
    let again = register_output_dir(&mut existing, "work/webapp", "20240102_030405");
    assert!(matches!(again, Err(OutputError::Collision)));
    assert_eq!(existing.len(), 1);
}

#[test]
fn different_projects_share_one_run_label() {
    let mut existing = Vec::new();
    let a = register_output_dir(&mut existing, "alpha", "20240102_030405").unwrap();
    let b = register_output_dir(&mut existing, "beta", "20240102_030405").unwrap();
    assert_eq!(a, "alpha_20240102_030405");
    assert_eq!(b, "beta_20240102_030405");
}

#[test]
fn manifest_lines_record_revisions_and_changes() {
    let m = sample_manifest();
    let lines = manifest_lines(&m);
    assert_eq!(
        lines,
        vec![
            "project work/webapp".to_string(),
            "vcs git".to_string(),
            "revision abc123 add config".to_string(),
            "revision def456 tidy up".to_string(),
            "change added config.xml".to_string(),
            "change deleted old.txt".to_string(),
            "change renamed old/name.rs new/name.rs".to_string(),
        ]
    );
}

#[test]
fn script_generation_is_deterministic_and_carries_the_changes() {
    let m = sample_manifest();
    let lines = generate_apply_script(&m);
    let again = generate_apply_script(&m);
    assert_eq!(lines, again);
    assert_eq!(lines[0], "#!/bin/sh");
    let n = lines.len();
    assert_eq!(lines[n - 3], "#C A\tconfig.xml");
    assert_eq!(lines[n - 2], "#C D\told.txt");
    assert_eq!(lines[n - 1], "#C R\told/name.rs\tnew/name.rs");
    // The script exposes exactly the three operations.
    assert!(lines.iter().any(|l| l.contains("1) configure target  2) apply patch  3) exit")));
    // Backup must complete before any write.
    assert!(lines.iter().any(|l| l.contains("if backup_all; then write_all")));
}

#[test]
fn script_menu_decodes_the_three_operations() {
    assert_eq!(script_op(Some(1)), Some(ScriptOp::ConfigureTarget));
    assert_eq!(script_op(Some(2)), Some(ScriptOp::ApplyPatch));
    assert_eq!(script_op(Some(3)), Some(ScriptOp::Exit));
    assert_eq!(script_op(Some(9)), None);
    assert_eq!(script_op(None), None);
}

#[test]
fn configuring_targets_appends_in_order() {
    let mut targets = vec!["/srv/one".to_string()];
    configure_target(&mut targets, "/srv/two".to_string());
    assert_eq!(targets, vec!["/srv/one".to_string(), "/srv/two".to_string()]);
}
