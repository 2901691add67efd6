//! Artifact staging: re-extracting an archive into a clean staging set.
//!
//! An artifact whose name marks it as a web/zip archive is read entry by
//! entry and staged from scratch — whatever a previous stage left behind is
//! discarded, never mixed in.  A non-archive artifact is left untouched and
//! only referenced.

use vstd::prelude::*;
use crate::files::{FileSet, clone_bytes};
use crate::strutil::{after_last_sep, scan_last_sep, str_eq, substr, ends_with};

verus! {

/// Why an artifact could not be staged.
#[derive(Debug)]
pub enum ArtifactStagingError {
    /// The artifact's bytes do not read as an archive.
    UnreadableArchive,
}

/// Spec-level archive entry.
pub struct ArchiveEntryV {
    pub name: Seq<char>,
    pub is_dir: bool,
    pub data: Seq<u8>,
}

/// One archive entry: its path inside the archive, whether it is a
/// directory, and its decompressed bytes.
#[derive(Debug)]
pub struct ArchiveEntry {
    pub name: String,
    pub is_dir: bool,
    pub data: Vec<u8>,
}

impl View for ArchiveEntry {
    type V = ArchiveEntryV;

    open spec fn view(&self) -> ArchiveEntryV {
        ArchiveEntryV { name: self.name@, is_dir: self.is_dir, data: self.data@ }
    }
}

impl DeepView for ArchiveEntry {
    type V = ArchiveEntryV;

    open spec fn deep_view(&self) -> ArchiveEntryV {
        self@
    }
}

/// The entries as plain tuples of name, directory flag and bytes.
pub open spec fn entry_tuples(s: Seq<ArchiveEntryV>) -> Seq<(Seq<char>, bool, Seq<u8>)> {
    s.map_values(|e: ArchiveEntryV| (e.name, e.is_dir, e.data))
}

/// What an archive's bytes decode to: its entry list in archive order, or
/// nothing where the bytes do not read as an archive.  A function of the
/// bytes alone.
pub uninterp spec fn archive_entries_of(data: Seq<u8>) -> Option<Seq<(Seq<char>, bool, Seq<u8>)>>;

/// Relies on zip's ZipArchive reader over an in-memory buffer: whether the
/// bytes parse, and each entry's name, directory flag and decompressed
/// bytes, depend on the buffer alone.
#[verifier::external_body]
fn read_archive_raw(data: &Vec<u8>) -> (r: Result<Vec<ArchiveEntry>, ArtifactStagingError>)
    ensures
        match r {
            Ok(es) => archive_entries_of(data@) == Some(entry_tuples(es.deep_view())),
            Err(e) => e is UnreadableArchive && archive_entries_of(data@) is None,
        },
{
    let cursor = std::io::Cursor::new(data.clone());
    let mut archive = zip::ZipArchive::new(cursor).map_err(|_| ArtifactStagingError::UnreadableArchive)?;
    let mut out = Vec::new();
    for i in 0..archive.len() {
        let mut f = archive.by_index(i).map_err(|_| ArtifactStagingError::UnreadableArchive)?;
        let (name, is_dir) = (f.name().to_string(), f.is_dir());
        let mut buf = Vec::new();
        std::io::Read::read_to_end(&mut f, &mut buf).map_err(|_| ArtifactStagingError::UnreadableArchive)?;
        out.push(ArchiveEntry { name, is_dir, data: buf });
    }
    Ok(out)
}

/// Reads an archive held in memory into its entry list.
pub fn read_archive(data: &Vec<u8>) -> (r: Result<Vec<ArchiveEntry>, ArtifactStagingError>)
    ensures
        match r {
            Ok(es) => archive_entries_of(data@) == Some(entry_tuples(es.deep_view())),
            Err(e) => e is UnreadableArchive && archive_entries_of(data@) is None,
        },
{
    read_archive_raw(data)
}

/// The file set an entry list stages: every non-directory entry's bytes at
/// its name, directories contributing only structure.
pub open spec fn stage_map(entries: Seq<ArchiveEntryV>) -> Map<Seq<char>, Seq<u8>>
    decreases entries.len(),
{
    if entries.len() == 0 {
        Map::empty()
    } else {
        let m = stage_map(entries.drop_last());
        if entries.last().is_dir {
            m
        } else {
            m.insert(entries.last().name, entries.last().data)
        }
    }
}

/// What a staging directory holds after a stage: exactly the archive's own
/// files, whatever the directory held before.
pub open spec fn restage_spec(
    prev: Map<Seq<char>, Seq<u8>>,
    entries: Seq<ArchiveEntryV>,
) -> Map<Seq<char>, Seq<u8>> {
    stage_map(entries)
}

/// Law (re-stage cleanliness): two stagings of the same entry list agree —
/// nothing of the prior staging-directory state survives into the result,
/// which is exactly the archive's own file set.
pub proof fn lemma_restage_clean(
    prev1: Map<Seq<char>, Seq<u8>>,
    prev2: Map<Seq<char>, Seq<u8>>,
    entries: Seq<ArchiveEntryV>,
)
    ensures
        restage_spec(prev1, entries) == restage_spec(prev2, entries),
        restage_spec(prev1, entries) == stage_map(entries),
{
}

/// Replaces a staging directory's contents with an archive's entries.
pub fn restage(prev: &FileSet, entries: &Vec<ArchiveEntry>) -> (r: FileSet)
    ensures
        r@ == restage_spec(prev@, entries.deep_view()),
        r.wf(),
{
    let ghost es = entries.deep_view();
    let mut r = FileSet::new();
    proof {
        assert(r@ =~= stage_map(es.take(0)));
    }
    let n = entries.len();
    let mut i: usize = 0;
    while i < n
        invariant
            i <= n,
            n == es.len(),
            entries.deep_view() == es,
            r.wf(),
            r@ == stage_map(es.take(i as int)),
        decreases n - i,
    {
        proof {
            assert(es.take(i + 1).drop_last() =~= es.take(i as int));
            assert(es.take(i + 1).last() == es[i as int]);
        }
        if !entries[i].is_dir {
            let name = entries[i].name.clone();
            let data = clone_bytes(&entries[i].data);
            r.insert_file(name, data);
        }
        proof {
            assert(r@ =~= stage_map(es.take(i + 1)));
        }
        i = i + 1;
    }
    proof {
        assert(es.take(n as int) =~= es);
    }
    r
}

/// Whether an artifact's name marks it as a web/zip archive.
pub open spec fn is_archive_name(s: Seq<char>) -> bool {
    ends_with(s, ".war"@) || ends_with(s, ".zip"@)
}

pub fn has_archive_extension(path: &str) -> (r: bool)
    ensures
        r == is_archive_name(path@),
{
    proof {
        reveal_strlit(".war");
        reveal_strlit(".zip");
    }
    let n = path.unicode_len();
    if n < 4 {
        return false;
    }
    let tail = path.substring_char(n - 4, n);
    proof {
        assert(tail@ =~= path@.skip(n - 4));
    }
    let war = str_eq(tail, ".war");
    let zip = str_eq(tail, ".zip");
    war || zip
}

/// The deterministic staging directory beside the artifact: its parent
/// directory, then `unzip_target`.
pub open spec fn staging_dir_spec(p: Seq<char>) -> Seq<char> {
    p.take(after_last_sep(p)) + "unzip_target"@
}

pub fn staging_dir_for(artifact_path: &str) -> (r: String)
    ensures
        r@ == staging_dir_spec(artifact_path@),
{
    let k = scan_last_sep(artifact_path);
    proof {
        crate::strutil::lemma_after_last_sep(artifact_path@);
    }
    let prefix = substr(artifact_path, 0, k);
    proof {
        assert(prefix@ =~= artifact_path@.take(k as int));
    }
    prefix.concat("unzip_target")
}

/// Stages one artifact.  An archive is read and re-staged from scratch;
/// a non-archive is left untouched and only referenced (`None`).  An
/// unreadable archive fails, staging nothing.
pub fn stage_artifact(artifact_path: &str, data: &Vec<u8>, prev: &FileSet) -> (r: Result<
    Option<FileSet>,
    ArtifactStagingError,
>)
    ensures
        match r {
            Ok(Some(fs)) => {
                &&& is_archive_name(artifact_path@)
                &&& archive_entries_of(data@) is Some
                &&& fs.wf()
                &&& exists|es: Seq<ArchiveEntryV>|
                    archive_entries_of(data@) == Some(entry_tuples(es)) && fs@ == #[trigger] stage_map(es)
            },
            Ok(None) => !is_archive_name(artifact_path@),
            Err(e) => {
                &&& is_archive_name(artifact_path@)
                &&& e is UnreadableArchive
                &&& archive_entries_of(data@) is None
            },
        },
{
    if !has_archive_extension(artifact_path) {
        return Ok(None);
    }
    match read_archive(data) {
        Ok(entries) => {
            let fs = restage(prev, &entries);
            proof {
                assert(archive_entries_of(data@) == Some(entry_tuples(entries.deep_view()))
                    && fs@ == stage_map(entries.deep_view()));
            }
            Ok(Some(fs))
        },
        Err(e) => Err(e),
    }
}

} // verus!
