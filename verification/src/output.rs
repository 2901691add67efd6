//! Output assembly: per-project, per-run output directories and the patch
//! manifest written into them.
//!
//! All projects of one run share a single timestamp label, handed in by the
//! caller; a directory name is derived deterministically from the project
//! path and that label, and registering the same name twice in one run fails
//! fast instead of silently overwriting.

use vstd::prelude::*;
use crate::changeset::{ChangeSet, ChangeEntryV, ChangeKindV};
use crate::files::contains_str;
use crate::strutil::substr;
use crate::vcs::{RevisionRecord, RevisionRecordV, VcsKind};

verus! {

/// Why an output directory could not be assembled.
#[derive(Debug)]
pub enum OutputError {
    /// The same project and run label were already registered.
    Collision,
}

/// `s` with every `a` replaced by `b`.
pub open spec fn replace_char(s: Seq<char>, a: char, b: char) -> Seq<char> {
    Seq::new(s.len(), |i: int| if s[i] == a {
        b
    } else {
        s[i]
    })
}

/// The output directory of one project in one run: the project path with
/// its separators flattened, an underscore, and the shared run label.
pub open spec fn output_dir_spec(project: Seq<char>, stamp: Seq<char>) -> Seq<char> {
    replace_char(project, '/', '_') + "_"@ + stamp
}

/// Builds a project's output directory name from the shared run label.
pub fn output_dir_name(project_path: &str, stamp: &str) -> (r: String)
    ensures
        r@ == output_dir_spec(project_path@, stamp@),
{
    let n = project_path.unicode_len();
    let mut flat = String::new();
    let mut i: usize = 0;
    while i < n
        invariant
            i <= n,
            n == project_path@.len(),
            flat@ == replace_char(project_path@, '/', '_').take(i as int),
        decreases n - i,
    {
        if project_path.get_char(i) == '/' {
            flat.append("_");
        } else {
            let c = substr(project_path, i, i + 1);
            flat.append(c.as_str());
        }
        proof {
            assert(flat@ =~= replace_char(project_path@, '/', '_').take(i + 1)) by {
                reveal_strlit("_");
                assert(replace_char(project_path@, '/', '_').take(i + 1) =~= replace_char(
                    project_path@,
                    '/',
                    '_',
                ).take(i as int).push(replace_char(project_path@, '/', '_')[i as int]));
            }
        }
        i = i + 1;
    }
    proof {
        assert(replace_char(project_path@, '/', '_').take(n as int) =~= replace_char(
            project_path@,
            '/',
            '_',
        ));
    }
    flat.concat("_").concat(stamp)
}

/// Registers one project's output directory for this run.  A name already
/// registered fails fast with nothing changed; otherwise the name is
/// recorded and returned.
pub fn register_output_dir(existing: &mut Vec<String>, project_path: &str, stamp: &str) -> (r:
    Result<String, OutputError>)
    ensures
        match r {
            Ok(name) => {
                &&& name@ == output_dir_spec(project_path@, stamp@)
                &&& !old(existing).deep_view().contains(name@)
                &&& final(existing).deep_view() == old(existing).deep_view().push(name@)
            },
            Err(e) => {
                &&& e is Collision
                &&& old(existing).deep_view().contains(output_dir_spec(project_path@, stamp@))
                &&& final(existing).deep_view() == old(existing).deep_view()
            },
        },
{
    let name = output_dir_name(project_path, stamp);
    if contains_str(existing, name.as_str()) {
        return Err(OutputError::Collision);
    }
    let ghost before = existing.deep_view();
    let result = name.clone();
    existing.push(name);
    proof {
        assert(existing.deep_view() =~= before.push(result@));
    }
    Ok(result)
}

/// Spec-level patch manifest.
pub struct PatchManifestV {
    pub project_path: Seq<char>,
    pub vcs: VcsKind,
    pub revisions: Seq<RevisionRecordV>,
    pub changes: Seq<ChangeEntryV>,
}

/// The recorded result of one project's run: which revisions the operator
/// selected and the merged change set they imply.  Immutable once written.
#[derive(Debug)]
pub struct PatchManifest {
    pub project_path: String,
    pub vcs: VcsKind,
    pub revisions: Vec<RevisionRecord>,
    pub changes: ChangeSet,
}

impl View for PatchManifest {
    type V = PatchManifestV;

    open spec fn view(&self) -> PatchManifestV {
        PatchManifestV {
            project_path: self.project_path@,
            vcs: self.vcs,
            revisions: self.revisions.deep_view(),
            changes: self.changes@,
        }
    }
}

impl DeepView for PatchManifest {
    type V = PatchManifestV;

    open spec fn deep_view(&self) -> PatchManifestV {
        self@
    }
}

/// The manifest's header line.
pub open spec fn project_line(p: Seq<char>) -> Seq<char> {
    "project "@ + p
}

/// The manifest's system line.
pub open spec fn vcs_line(k: VcsKind) -> Seq<char> {
    match k {
        VcsKind::Git => "vcs git"@,
        VcsKind::Svn => "vcs svn"@,
        VcsKind::Unknown => "vcs unknown"@,
    }
}

/// One selected revision's line.
pub open spec fn revision_line(r: RevisionRecordV) -> Seq<char> {
    "revision "@ + r.id + " "@ + r.summary
}

/// One merged change's line.
pub open spec fn change_line(e: ChangeEntryV) -> Seq<char> {
    match e.kind {
        ChangeKindV::Added => "change added "@ + e.path,
        ChangeKindV::Modified => "change modified "@ + e.path,
        ChangeKindV::Deleted => "change deleted "@ + e.path,
        ChangeKindV::Renamed(from) => "change renamed "@ + from + " "@ + e.path,
    }
}

/// The manifest document, line by line: the project, its system, the
/// selected revisions in selection order, then the merged changes.
pub open spec fn manifest_lines_spec(m: PatchManifestV) -> Seq<Seq<char>> {
    seq![project_line(m.project_path), vcs_line(m.vcs)]
        + m.revisions.map_values(|r: RevisionRecordV| revision_line(r))
        + m.changes.map_values(|e: ChangeEntryV| change_line(e))
}

/// Serializes a manifest into its line-oriented document.
pub fn manifest_lines(m: &PatchManifest) -> (r: Vec<String>)
    ensures
        r.deep_view() == manifest_lines_spec(m@),
{
    let ghost revs = m.revisions.deep_view();
    let ghost head: Seq<Seq<char>> = seq![project_line(m@.project_path), vcs_line(m@.vcs)];
    let mut r: Vec<String> = Vec::new();
    r.push(String::from_str("project ").concat(m.project_path.as_str()));
    let vcs_text = match m.vcs {
        VcsKind::Git => String::from_str("vcs git"),
        VcsKind::Svn => String::from_str("vcs svn"),
        VcsKind::Unknown => String::from_str("vcs unknown"),
    };
    r.push(vcs_text);
    proof {
        assert(r.deep_view() =~= head + revs.map_values(
            |x: RevisionRecordV| revision_line(x),
        ).take(0));
    }
    let n = m.revisions.len();
    let mut i: usize = 0;
    while i < n
        invariant
            i <= n,
            n == revs.len(),
            m.revisions.deep_view() == revs,
            r.deep_view() == head + revs.map_values(|x: RevisionRecordV| revision_line(x)).take(
                i as int,
            ),
        decreases n - i,
    {
        let rec = &m.revisions[i];
        let line = String::from_str("revision ").concat(rec.id.as_str()).concat(" ").concat(
            rec.summary.as_str(),
        );
        let ghost before = r.deep_view();
        r.push(line);
        proof {
            assert(line@ =~= revision_line(revs[i as int]));
            assert(r.deep_view() =~= before.push(line@));
            assert(revs.map_values(|x: RevisionRecordV| revision_line(x)).take(i + 1)
                =~= revs.map_values(|x: RevisionRecordV| revision_line(x)).take(i as int).push(
                revision_line(revs[i as int]),
            ));
            assert(r.deep_view() =~= head + revs.map_values(
                |x: RevisionRecordV| revision_line(x),
            ).take(i + 1));
        }
        i = i + 1;
    }
    proof {
        assert(revs.map_values(|x: RevisionRecordV| revision_line(x)).take(n as int) =~= revs
            .map_values(|x: RevisionRecordV| revision_line(x)));
    }
    let ghost mid = r.deep_view();
    let ghost chs = m.changes@;
    proof {
        assert(mid + chs.map_values(|e: ChangeEntryV| change_line(e)).take(0) =~= mid);
    }
    let cn = m.changes.len();
    let mut k: usize = 0;
    while k < cn
        invariant
            k <= cn,
            cn == chs.len(),
            m.changes@ == chs,
            r.deep_view() == mid + chs.map_values(|e: ChangeEntryV| change_line(e)).take(k as int),
        decreases cn - k,
    {
        let e = m.changes.get(k);
        let line = match &e.kind {
            crate::changeset::ChangeKind::Added => String::from_str("change added ").concat(
                e.path.as_str(),
            ),
            crate::changeset::ChangeKind::Modified => String::from_str("change modified ").concat(
                e.path.as_str(),
            ),
            crate::changeset::ChangeKind::Deleted => String::from_str("change deleted ").concat(
                e.path.as_str(),
            ),
            crate::changeset::ChangeKind::Renamed { from } => String::from_str("change renamed ")
                .concat(from.as_str()).concat(" ").concat(e.path.as_str()),
        };
        let ghost before = r.deep_view();
        r.push(line);
        proof {
            assert(line@ =~= change_line(chs[k as int]));
            assert(r.deep_view() =~= before.push(line@));
            assert(chs.map_values(|e: ChangeEntryV| change_line(e)).take(k + 1) =~= chs.map_values(
                |e: ChangeEntryV| change_line(e),
            ).take(k as int).push(change_line(chs[k as int])));
            assert(r.deep_view() =~= mid + chs.map_values(|e: ChangeEntryV| change_line(e)).take(
                k + 1,
            ));
        }
        k = k + 1;
    }
    proof {
        assert(chs.map_values(|e: ChangeEntryV| change_line(e)).take(cn as int) =~= chs.map_values(
            |e: ChangeEntryV| change_line(e),
        ));
        assert(r.deep_view() =~= manifest_lines_spec(m@));
    }
    r
}

} // verus!
