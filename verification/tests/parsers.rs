use easy_patcher::changeset::ChangeKind;
use easy_patcher::vcs::{
    changed_files_from_output, detect_vcs, history_from_output, parse_git_changes, parse_git_log,
    parse_svn_changes, parse_svn_log, svn_revision_number, VcsKind,
};

#[test]
fn git_log_lines_become_records() {
    let out = "abc123 first commit\ndef456 fix the parser\n";
    let recs = parse_git_log(out);
    assert_eq!(recs.len(), 2);
    assert_eq!(recs[0].id, "abc123");
    assert_eq!(recs[0].summary, "first commit");
    assert_eq!(recs[0].vcs, VcsKind::Git);
    assert_eq!(recs[1].id, "def456");
    assert_eq!(recs[1].summary, "fix the parser");
}

#[test]
fn git_log_blank_lines_and_empty_output_yield_nothing() {
    assert_eq!(parse_git_log("").len(), 0);
    let recs = parse_git_log("\n\nabc one\n\n");
    assert_eq!(recs.len(), 1);
    assert_eq!(recs[0].id, "abc");
}

#[test]
fn git_log_line_without_subject_keeps_hash() {
    let recs = parse_git_log("abc123\n");
    assert_eq!(recs.len(), 1);
    assert_eq!(recs[0].id, "abc123");
    assert_eq!(recs[0].summary, "");
}

#[test]
fn svn_log_keeps_revision_headers_only() {
    let out = "------------------------------------------------------------------------\n\
r3 | carol | 2024-01-03 | 1 line\n\
some message\n\
r2 | bob | 2024-01-02 | 1 line\n\
r1 | alice | 2024-01-01 | 1 line\n";
    let recs = parse_svn_log(out, 10);
    assert_eq!(recs.len(), 3);
    assert_eq!(recs[0].id, "r3");
    assert_eq!(recs[0].vcs, VcsKind::Svn);
    assert_eq!(recs[0].summary, "r3 | carol | 2024-01-03 | 1 line");
    assert_eq!(recs[2].id, "r1");
}

#[test]
fn svn_log_window_keeps_newest() {
    let out = "r3 | c | t | 1 line\nr2 | b | t | 1 line\nr1 | a | t | 1 line\n";
    let recs = parse_svn_log(out, 2);
    assert_eq!(recs.len(), 2);
    assert_eq!(recs[0].id, "r3");
    assert_eq!(recs[1].id, "r2");
}

#[test]
fn git_changes_cover_all_kinds() {
    let out = "commit abc123\nAuthor: someone\n\nA\tdocs/new.md\nM\tsrc/main.rs\nD\told.txt\nR100\tsrc/old_name.rs\tsrc/new_name.rs\n";
    let es = parse_git_changes(out);
    assert_eq!(es.len(), 4);
    assert_eq!(es[0].path, "docs/new.md");
    assert!(matches!(es[0].kind, ChangeKind::Added));
    assert_eq!(es[1].path, "src/main.rs");
    assert!(matches!(es[1].kind, ChangeKind::Modified));
    assert_eq!(es[2].path, "old.txt");
    assert!(matches!(es[2].kind, ChangeKind::Deleted));
    assert_eq!(es[3].path, "src/new_name.rs");
    match &es[3].kind {
        ChangeKind::Renamed { from } => assert_eq!(from, "src/old_name.rs"),
        other => panic!("expected a rename, got {:?}", other),
    }
}

#[test]
fn svn_changes_strip_leading_slash_and_skip_noise() {
    let out = "r2 | bob | 2024 | 1 line\nChanged paths:\n   A /trunk/a.txt\n   M /trunk/src/b.xml\n   D /trunk/c.cfg\n\na commit message\n";
    let es = parse_svn_changes(out);
    assert_eq!(es.len(), 3);
    assert_eq!(es[0].path, "trunk/a.txt");
    assert!(matches!(es[0].kind, ChangeKind::Added));
    assert_eq!(es[1].path, "trunk/src/b.xml");
    assert!(matches!(es[1].kind, ChangeKind::Modified));
    assert_eq!(es[2].path, "trunk/c.cfg");
    assert!(matches!(es[2].kind, ChangeKind::Deleted));
}

#[test]
fn unknown_vcs_yields_empty_history_and_changes() {
    assert_eq!(history_from_output(VcsKind::Unknown, "anything at all", 5).len(), 0);
    assert_eq!(changed_files_from_output(VcsKind::Unknown, "A\tx").len(), 0);
}

#[test]
fn history_dispatch_matches_kind() {
    let git = history_from_output(VcsKind::Git, "abc one\n", 10);
    assert_eq!(git.len(), 1);
    assert_eq!(git[0].vcs, VcsKind::Git);
    let svn = history_from_output(VcsKind::Svn, "r1 | a | t | 1 line\n", 10);
    assert_eq!(svn.len(), 1);
    assert_eq!(svn[0].vcs, VcsKind::Svn);
}

#[test]
fn svn_revision_number_strips_prefix() {
    assert_eq!(svn_revision_number("r42"), "42");
    assert_eq!(svn_revision_number("17"), "17");
    assert_eq!(svn_revision_number(""), "");
}

#[test]
fn vcs_detection_prefers_git() {
    assert_eq!(detect_vcs(true, false), VcsKind::Git);
    assert_eq!(detect_vcs(true, true), VcsKind::Git);
    assert_eq!(detect_vcs(false, true), VcsKind::Svn);
    assert_eq!(detect_vcs(false, false), VcsKind::Unknown);
}
