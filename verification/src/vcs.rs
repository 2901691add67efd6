//! Revision history, normalized across the two supported version-control
//! systems.
//!
//! The log output of the underlying tools is parsed here from plain text;
//! running the tools themselves is left to the caller.  Git history is a
//! sequence of `hash subject` lines; Subversion history is the `rN | ...`
//! header lines of its quiet log.  Unrecognized lines are skipped, and an
//! unrecognized project kind yields an empty history rather than an error.

use vstd::prelude::*;
use crate::strutil::{find_char, lemma_find_char, scan_char, substr, split_lines, split_lines_exec, span_char, scan_span};
use crate::changeset::{ChangeEntry, ChangeEntryV, ChangeKind, ChangeKindV};

verus! {

/// Which version-control system backs a project.
#[derive(Clone, Copy, Debug, PartialEq, Eq, Structural)]
pub enum VcsKind {
    Git,
    Svn,
    Unknown,
}

/// A project is Git if it has a `.git` metadata directory, Svn if it has a
/// `.svn` one, and unrecognized otherwise.
pub fn detect_vcs(has_git_dir: bool, has_svn_dir: bool) -> (r: VcsKind)
    ensures
        r == (if has_git_dir {
            VcsKind::Git
        } else if has_svn_dir {
            VcsKind::Svn
        } else {
            VcsKind::Unknown
        }),
{
    if has_git_dir {
        VcsKind::Git
    } else if has_svn_dir {
        VcsKind::Svn
    } else {
        VcsKind::Unknown
    }
}

/// Spec-level revision record.
pub struct RevisionRecordV {
    pub id: Seq<char>,
    pub summary: Seq<char>,
    pub vcs: VcsKind,
}

/// One revision of a project's history: a commit hash or `rN` revision
/// number, with its one-line summary.
#[derive(Debug, PartialEq, Eq)]
pub struct RevisionRecord {
    pub id: String,
    pub summary: String,
    pub vcs: VcsKind,
}

impl View for RevisionRecord {
    type V = RevisionRecordV;

    open spec fn view(&self) -> RevisionRecordV {
        RevisionRecordV { id: self.id@, summary: self.summary@, vcs: self.vcs }
    }
}

impl DeepView for RevisionRecord {
    type V = RevisionRecordV;

    open spec fn deep_view(&self) -> RevisionRecordV {
        self@
    }
}

impl Clone for RevisionRecord {
    fn clone(&self) -> (r: Self)
        ensures
            r@ == self@,
    {
        RevisionRecord { id: self.id.clone(), summary: self.summary.clone(), vcs: self.vcs }
    }
}

/// The record denoted by one nonempty `hash subject` line.
pub open spec fn git_record_of_line(l: Seq<char>) -> RevisionRecordV {
    let k = find_char(l, ' ');
    if 0 <= k < l.len() {
        RevisionRecordV { id: l.take(k), summary: l.skip(k + 1), vcs: VcsKind::Git }
    } else {
        RevisionRecordV { id: l, summary: Seq::empty(), vcs: VcsKind::Git }
    }
}

/// The records of a Git one-line log: one per nonempty line.
pub open spec fn git_records(lines: Seq<Seq<char>>) -> Seq<RevisionRecordV>
    decreases lines.len(),
{
    if lines.len() == 0 {
        seq![]
    } else {
        git_records(lines.drop_last()) + (if lines.last().len() == 0 {
            seq![]
        } else {
            seq![git_record_of_line(lines.last())]
        })
    }
}

pub open spec fn parse_git_log_spec(s: Seq<char>) -> Seq<RevisionRecordV> {
    git_records(split_lines(s))
}

/// Parses `git log --oneline` output: each nonempty line is `hash subject`.
pub fn parse_git_log(out: &str) -> (r: Vec<RevisionRecord>)
    ensures
        r.deep_view() == parse_git_log_spec(out@),
{
    let lines = split_lines_exec(out);
    let ghost ls = lines.deep_view();
    let mut r: Vec<RevisionRecord> = Vec::new();
    let n = lines.len();
    proof {
        assert(ls.take(0) =~= Seq::<Seq<char>>::empty());
        assert(r.deep_view() =~= git_records(ls.take(0)));
    }
    let mut i: usize = 0;
    while i < n
        invariant
            i <= n,
            n == lines.len(),
            lines.deep_view() == ls,
            r.deep_view() == git_records(ls.take(i as int)),
        decreases n - i,
    {
        proof {
            assert(ls[i as int] == lines@[i as int]@);
            assert(ls.take(i + 1).drop_last() =~= ls.take(i as int));
            assert(ls.take(i + 1).last() == ls[i as int]);
        }
        let line = &lines[i];
        let ll = line.as_str().unicode_len();
        if ll > 0 {
            let k = scan_char(line.as_str(), 0, ' ');
            proof {
                assert(line@.subrange(0, line@.len() as int) =~= line@);
                lemma_find_char(line@, ' ');
            }
            let rec = if k < ll {
                let id = substr(line.as_str(), 0, k);
                let summary = substr(line.as_str(), k + 1, ll);
                proof {
                    assert(id@ =~= line@.take(k as int));
                    assert(summary@ =~= line@.skip(k + 1));
                }
                RevisionRecord { id, summary, vcs: VcsKind::Git }
            } else {
                RevisionRecord { id: line.clone(), summary: String::new(), vcs: VcsKind::Git }
            };
            let ghost before = r.deep_view();
            r.push(rec);
            proof {
                assert(r.deep_view() =~= before.push(rec@));
                assert(rec@ == git_record_of_line(ls[i as int]));
                assert(before + seq![rec@] =~= before.push(rec@));
            }
        }
        i = i + 1;
    }
    proof {
        assert(ls.take(n as int) =~= ls);
    }
    r
}

/// Whether a line holds the ` | ` column separator of Subversion's log.
pub open spec fn has_log_sep(l: Seq<char>) -> bool {
    exists|i: int| 0 <= i && i + 3 <= l.len() && #[trigger] l[i] == ' ' && l[i + 1] == '|' && l[i + 2] == ' '
}

fn has_log_sep_exec(l: &str) -> (r: bool)
    ensures
        r == has_log_sep(l@),
{
    let n = l.unicode_len();
    if n < 3 {
        return false;
    }
    let mut i: usize = 0;
    while i <= n - 3
        invariant
            n == l@.len(),
            n >= 3,
            i <= n,
            forall|j: int|
                0 <= j < i ==> !(#[trigger] l@[j] == ' ' && l@[j + 1] == '|' && l@[j + 2] == ' '),
        decreases n - i,
    {
        if l.get_char(i) == ' ' && l.get_char(i + 1) == '|' && l.get_char(i + 2) == ' ' {
            return true;
        }
        i = i + 1;
    }
    proof {
        assert forall|j: int| 0 <= j && j + 3 <= n implies
            !(#[trigger] l@[j] == ' ' && l@[j + 1] == '|' && l@[j + 2] == ' ') by {
            assert(j < i);
        }
    }
    false
}

/// A history line of Subversion's quiet log: `rN | author | timestamp`.
pub open spec fn is_svn_rev_line(l: Seq<char>) -> bool {
    l.len() > 0 && l[0] == 'r' && has_log_sep(l)
}

/// The record denoted by one revision-header line: the `rN` token is the
/// identifier and the whole line is kept as the summary.
pub open spec fn svn_record_of_line(l: Seq<char>) -> RevisionRecordV {
    let k = find_char(l, ' ');
    if 0 <= k < l.len() {
        RevisionRecordV { id: l.take(k), summary: l, vcs: VcsKind::Svn }
    } else {
        RevisionRecordV { id: l, summary: l, vcs: VcsKind::Svn }
    }
}

/// The records of a Subversion quiet log: one per revision-header line.
pub open spec fn svn_records(lines: Seq<Seq<char>>) -> Seq<RevisionRecordV>
    decreases lines.len(),
{
    if lines.len() == 0 {
        seq![]
    } else {
        svn_records(lines.drop_last()) + (if is_svn_rev_line(lines.last()) {
            seq![svn_record_of_line(lines.last())]
        } else {
            seq![]
        })
    }
}

/// The most recent `limit` records of the log.
pub open spec fn parse_svn_log_spec(s: Seq<char>, limit: int) -> Seq<RevisionRecordV> {
    let rs = svn_records(split_lines(s));
    if rs.len() <= limit {
        rs
    } else {
        rs.take(limit)
    }
}

/// Parses `svn log -q` output, keeping at most the `limit` newest revisions.
pub fn parse_svn_log(out: &str, limit: usize) -> (r: Vec<RevisionRecord>)
    ensures
        r.deep_view() == parse_svn_log_spec(out@, limit as int),
{
    let lines = split_lines_exec(out);
    let ghost ls = lines.deep_view();
    let mut r: Vec<RevisionRecord> = Vec::new();
    let n = lines.len();
    proof {
        assert(ls.take(0) =~= Seq::<Seq<char>>::empty());
        assert(r.deep_view() =~= svn_records(ls.take(0)));
    }
    let mut i: usize = 0;
    while i < n
        invariant
            i <= n,
            n == lines.len(),
            lines.deep_view() == ls,
            r.deep_view() == svn_records(ls.take(i as int)),
        decreases n - i,
    {
        proof {
            assert(ls[i as int] == lines@[i as int]@);
            assert(ls.take(i + 1).drop_last() =~= ls.take(i as int));
            assert(ls.take(i + 1).last() == ls[i as int]);
        }
        let line = &lines[i];
        let ll = line.as_str().unicode_len();
        if ll > 0 && line.as_str().get_char(0) == 'r' && has_log_sep_exec(line.as_str()) {
            let k = scan_char(line.as_str(), 0, ' ');
            proof {
                assert(line@.subrange(0, line@.len() as int) =~= line@);
                lemma_find_char(line@, ' ');
            }
            let rec = if k < ll {
                let id = substr(line.as_str(), 0, k);
                proof {
                    assert(id@ =~= line@.take(k as int));
                }
                RevisionRecord { id, summary: line.clone(), vcs: VcsKind::Svn }
            } else {
                RevisionRecord { id: line.clone(), summary: line.clone(), vcs: VcsKind::Svn }
            };
            let ghost before = r.deep_view();
            r.push(rec);
            proof {
                assert(r.deep_view() =~= before.push(rec@));
                assert(rec@ == svn_record_of_line(ls[i as int]));
                assert(before + seq![rec@] =~= before.push(rec@));
            }
        }
        i = i + 1;
    }
    proof {
        assert(ls.take(n as int) =~= ls);
    }
    if r.len() > limit {
        r.truncate(limit);
        proof {
            assert(r.deep_view() =~= svn_records(ls).take(limit as int));
        }
    }
    proof {
        assert(ls.take(n as int) =~= ls);
    }
    r
}

/// What one history query returned for a project.
pub open spec fn history_spec(kind: VcsKind, s: Seq<char>, limit: int) -> Seq<RevisionRecordV> {
    match kind {
        VcsKind::Git => parse_git_log_spec(s),
        VcsKind::Svn => parse_svn_log_spec(s, limit),
        VcsKind::Unknown => seq![],
    }
}

/// Normalizes one history query: Git output is parsed whole, Subversion
/// output is parsed and windowed to `limit`, and an unrecognized project
/// yields no history at all.
pub fn history_from_output(kind: VcsKind, output: &str, limit: usize) -> (r: Vec<RevisionRecord>)
    ensures
        r.deep_view() == history_spec(kind, output@, limit as int),
{
    match kind {
        VcsKind::Git => parse_git_log(output),
        VcsKind::Svn => parse_svn_log(output, limit),
        VcsKind::Unknown => Vec::new(),
    }
}

/// Strips the leading `r` from an `rN` revision identifier, yielding the
/// bare number the log query for that revision wants.
pub fn svn_revision_number(id: &str) -> (r: String)
    ensures
        r@ == (if id@.len() > 0 && id@[0] == 'r' {
            id@.skip(1)
        } else {
            id@
        }),
{
    let n = id.unicode_len();
    if n > 0 && id.get_char(0) == 'r' {
        let r = substr(id, 1, n);
        proof {
            assert(r@ =~= id@.skip(1));
        }
        r
    } else {
        String::from_str(id)
    }
}

/// The change denoted by one `git show --name-status` line: an action
/// letter, a tab, and the path — or `R`, a tab, the old path, a tab, and
/// the new path for a rename.  Other lines denote nothing.
pub open spec fn git_change_of_line(l: Seq<char>) -> Option<ChangeEntryV> {
    if l.len() >= 2 && l[0] == 'A' && l[1] == '\t' {
        Some(ChangeEntryV { path: l.skip(2), kind: ChangeKindV::Added })
    } else if l.len() >= 2 && l[0] == 'M' && l[1] == '\t' {
        Some(ChangeEntryV { path: l.skip(2), kind: ChangeKindV::Modified })
    } else if l.len() >= 2 && l[0] == 'D' && l[1] == '\t' {
        Some(ChangeEntryV { path: l.skip(2), kind: ChangeKindV::Deleted })
    } else if l.len() >= 1 && l[0] == 'R' {
        git_rename_of_line(l)
    } else {
        None
    }
}

/// A rename line carries the old and the new path, tab-separated, after the
/// `R` token with its similarity score.
pub open spec fn git_rename_of_line(l: Seq<char>) -> Option<ChangeEntryV> {
    let k1 = find_char(l, '\t');
    if 0 <= k1 < l.len() {
        let rest = l.skip(k1 + 1);
        let k2 = find_char(rest, '\t');
        if 0 <= k2 < rest.len() {
            Some(ChangeEntryV { path: rest.skip(k2 + 1), kind: ChangeKindV::Renamed(rest.take(k2)) })
        } else {
            None
        }
    } else {
        None
    }
}

/// The change entries of a whole `git show --name-status` output.
pub open spec fn git_changes(lines: Seq<Seq<char>>) -> Seq<ChangeEntryV>
    decreases lines.len(),
{
    if lines.len() == 0 {
        seq![]
    } else {
        git_changes(lines.drop_last()) + (match git_change_of_line(lines.last()) {
            Some(e) => seq![e],
            None => seq![],
        })
    }
}

pub open spec fn parse_git_changes_spec(s: Seq<char>) -> Seq<ChangeEntryV> {
    git_changes(split_lines(s))
}

/// Parses the changed-file report of one Git commit.
pub fn parse_git_changes(out: &str) -> (r: Vec<ChangeEntry>)
    ensures
        r.deep_view() == parse_git_changes_spec(out@),
{
    let lines = split_lines_exec(out);
    let ghost ls = lines.deep_view();
    let mut r: Vec<ChangeEntry> = Vec::new();
    let n = lines.len();
    proof {
        assert(ls.take(0) =~= Seq::<Seq<char>>::empty());
        assert(r.deep_view() =~= git_changes(ls.take(0)));
    }
    let mut i: usize = 0;
    while i < n
        invariant
            i <= n,
            n == lines.len(),
            lines.deep_view() == ls,
            r.deep_view() == git_changes(ls.take(i as int)),
        decreases n - i,
    {
        proof {
            assert(ls[i as int] == lines@[i as int]@);
            assert(ls.take(i + 1).drop_last() =~= ls.take(i as int));
            assert(ls.take(i + 1).last() == ls[i as int]);
        }
        let line = &lines[i];
        let ll = line.as_str().unicode_len();
        let entry: Option<ChangeEntry> = if ll >= 2 && line.as_str().get_char(1) == '\t'
            && (line.as_str().get_char(0) == 'A' || line.as_str().get_char(0) == 'M'
                || line.as_str().get_char(0) == 'D') {
            let kind = match line.as_str().get_char(0) {
                'A' => ChangeKind::Added,
                'M' => ChangeKind::Modified,
                _ => ChangeKind::Deleted,
            };
            let path = substr(line.as_str(), 2, ll);
            proof {
                assert(path@ =~= line@.skip(2));
            }
            Some(ChangeEntry { path, kind })
        } else if ll >= 1 && line.as_str().get_char(0) == 'R' {
            let k1 = scan_char(line.as_str(), 0, '\t');
            proof {
                assert(line@.subrange(0, line@.len() as int) =~= line@);
                lemma_find_char(line@, '\t');
            }
            if k1 < ll {
                let k2 = scan_char(line.as_str(), k1 + 1, '\t');
                let ghost rest = line@.skip(k1 + 1);
                proof {
                    assert(line@.subrange(k1 + 1, line@.len() as int) =~= rest);
                    lemma_find_char(rest, '\t');
                    assert(find_char(rest, '\t') == k2 - (k1 + 1));
                }
                if k2 < ll {
                    let from = substr(line.as_str(), k1 + 1, k2);
                    let path = substr(line.as_str(), k2 + 1, ll);
                    proof {
                        assert(from@ =~= rest.take(k2 - (k1 + 1)));
                        assert(path@ =~= rest.skip(k2 - (k1 + 1) + 1));
                    }
                    Some(ChangeEntry { path, kind: ChangeKind::Renamed { from } })
                } else {
                    None
                }
            } else {
                None
            }
        } else {
            None
        };
        match entry {
            Some(e) => {
                let ghost before = r.deep_view();
                proof {
                    assert(git_change_of_line(ls[i as int]) == Some(e@));
                }
                r.push(e);
                proof {
                    assert(r.deep_view() =~= before.push(git_change_of_line(ls[i as int])->Some_0));
                    assert(before + seq![git_change_of_line(ls[i as int])->Some_0]
                        =~= r.deep_view());
                }
            },
            None => {
                proof {
                    assert(git_change_of_line(ls[i as int]) is None);
                }
            },
        }
        i = i + 1;
    }
    proof {
        assert(ls.take(n as int) =~= ls);
    }
    r
}

/// The change denoted by one verbose Subversion log line: an indented
/// action letter, a space, and the repository path (its leading slash is
/// dropped).  Other lines denote nothing.
pub open spec fn svn_change_of_line(l: Seq<char>) -> Option<ChangeEntryV> {
    let t = span_char(l, ' ');
    if 0 < t && t + 2 <= l.len() && (l[t] == 'A' || l[t] == 'M' || l[t] == 'D') && l[t + 1] == ' ' {
        let raw = l.skip(t + 2);
        let path = if raw.len() > 0 && raw[0] == '/' {
            raw.skip(1)
        } else {
            raw
        };
        let kind = if l[t] == 'A' {
            ChangeKindV::Added
        } else if l[t] == 'M' {
            ChangeKindV::Modified
        } else {
            ChangeKindV::Deleted
        };
        Some(ChangeEntryV { path, kind })
    } else {
        None
    }
}

/// The change entries of a whole `svn log -v` output for one revision.
pub open spec fn svn_changes(lines: Seq<Seq<char>>) -> Seq<ChangeEntryV>
    decreases lines.len(),
{
    if lines.len() == 0 {
        seq![]
    } else {
        svn_changes(lines.drop_last()) + (match svn_change_of_line(lines.last()) {
            Some(e) => seq![e],
            None => seq![],
        })
    }
}

pub open spec fn parse_svn_changes_spec(s: Seq<char>) -> Seq<ChangeEntryV> {
    svn_changes(split_lines(s))
}

/// Parses the per-path action lines of one Subversion revision's verbose log.
pub fn parse_svn_changes(out: &str) -> (r: Vec<ChangeEntry>)
    ensures
        r.deep_view() == parse_svn_changes_spec(out@),
{
    let lines = split_lines_exec(out);
    let ghost ls = lines.deep_view();
    let mut r: Vec<ChangeEntry> = Vec::new();
    let n = lines.len();
    proof {
        assert(ls.take(0) =~= Seq::<Seq<char>>::empty());
        assert(r.deep_view() =~= svn_changes(ls.take(0)));
    }
    let mut i: usize = 0;
    while i < n
        invariant
            i <= n,
            n == lines.len(),
            lines.deep_view() == ls,
            r.deep_view() == svn_changes(ls.take(i as int)),
        decreases n - i,
    {
        proof {
            assert(ls[i as int] == lines@[i as int]@);
            assert(ls.take(i + 1).drop_last() =~= ls.take(i as int));
            assert(ls.take(i + 1).last() == ls[i as int]);
        }
        let line = &lines[i];
        let ll = line.as_str().unicode_len();
        let t = scan_span(line.as_str(), ' ');
        let entry: Option<ChangeEntry> = if 0 < t && ll >= 2 && t <= ll - 2
            && (line.as_str().get_char(t) == 'A' || line.as_str().get_char(t) == 'M'
                || line.as_str().get_char(t) == 'D') && line.as_str().get_char(t + 1) == ' ' {
            let kind = match line.as_str().get_char(t) {
                'A' => ChangeKind::Added,
                'M' => ChangeKind::Modified,
                _ => ChangeKind::Deleted,
            };
            let ghost raw = line@.skip(t + 2);
            let path = if t + 2 < ll && line.as_str().get_char(t + 2) == '/' {
                let p = substr(line.as_str(), t + 3, ll);
                proof {
                    assert(raw.len() > 0 && raw[0] == '/');
                    assert(p@ =~= raw.skip(1));
                }
                p
            } else {
                let p = substr(line.as_str(), t + 2, ll);
                proof {
                    assert(p@ =~= raw);
                }
                p
            };
            Some(ChangeEntry { path, kind })
        } else {
            None
        };
        match entry {
            Some(e) => {
                let ghost before = r.deep_view();
                proof {
                    assert(svn_change_of_line(ls[i as int]) == Some(e@));
                }
                r.push(e);
                proof {
                    assert(r.deep_view() =~= before.push(svn_change_of_line(ls[i as int])->Some_0));
                    assert(before + seq![svn_change_of_line(ls[i as int])->Some_0]
                        =~= r.deep_view());
                }
            },
            None => {
                proof {
                    assert(svn_change_of_line(ls[i as int]) is None);
                }
            },
        }
        i = i + 1;
    }
    proof {
        assert(ls.take(n as int) =~= ls);
    }
    r
}

/// What the changed-file query for one revision denotes.
pub open spec fn changes_spec(kind: VcsKind, s: Seq<char>) -> Seq<ChangeEntryV> {
    match kind {
        VcsKind::Git => parse_git_changes_spec(s),
        VcsKind::Svn => parse_svn_changes_spec(s),
        VcsKind::Unknown => seq![],
    }
}

/// Normalizes one revision's changed-file report across the two systems;
/// an unrecognized project kind reports no changes.
pub fn changed_files_from_output(kind: VcsKind, output: &str) -> (r: Vec<ChangeEntry>)
    ensures
        r.deep_view() == changes_spec(kind, output@),
{
    match kind {
        VcsKind::Git => parse_git_changes(output),
        VcsKind::Svn => parse_svn_changes(output),
        VcsKind::Unknown => Vec::new(),
    }
}

/// One project's fetched history, tagged by its system.
#[derive(Debug)]
pub enum ProjectHistory {
    GitHistory(String, Vec<RevisionRecord>),
    SvnHistory(String, Vec<RevisionRecord>),
}

/// Spec-level project history.
pub enum ProjectHistoryV {
    GitHistory(Seq<char>, Seq<RevisionRecordV>),
    SvnHistory(Seq<char>, Seq<RevisionRecordV>),
}

impl View for ProjectHistory {
    type V = ProjectHistoryV;

    open spec fn view(&self) -> ProjectHistoryV {
        match self {
            ProjectHistory::GitHistory(p, rs) => ProjectHistoryV::GitHistory(p@, rs.deep_view()),
            ProjectHistory::SvnHistory(p, rs) => ProjectHistoryV::SvnHistory(p@, rs.deep_view()),
        }
    }
}

} // verus!
