use std::io::Write;

use easy_patcher::files::FileSet;
use easy_patcher::stage::{
    has_archive_extension, read_archive, restage, stage_artifact, staging_dir_for, ArchiveEntry,
    ArtifactStagingError,
};

fn sample_zip() -> Vec<u8> {
    let cursor = std::io::Cursor::new(Vec::new());
    let mut w = zip::ZipWriter::new(cursor);
    let opts = zip::write::SimpleFileOptions::default()
        .compression_method(zip::CompressionMethod::Stored);
    w.add_directory("WEB-INF", opts).unwrap();
    w.start_file("WEB-INF/web.xml", opts).unwrap();
    w.write_all(b"<web-app/>").unwrap();
    w.start_file("index.html", opts).unwrap();
    w.write_all(b"<html></html>").unwrap();
    w.finish().unwrap().into_inner()
}

#[test]
fn archive_extension_detection() {
    assert!(has_archive_extension("build/app.war"));
    assert!(has_archive_extension("bundle.zip"));
    assert!(!has_archive_extension("notes.txt"));
    assert!(!has_archive_extension("war"));
    assert!(!has_archive_extension(""));
}

#[test]
fn staging_dir_sits_beside_the_artifact() {
    assert_eq!(staging_dir_for("/opt/app/build.war"), "/opt/app/unzip_target");
    assert_eq!(staging_dir_for("build.war"), "unzip_target");
    assert_eq!(staging_dir_for("C:\\deploy\\app.war"), "C:\\deploy\\unzip_target");
}

#[test]
fn reading_an_archive_lists_its_entries() {
    let data = sample_zip();
    let entries = read_archive(&data).unwrap();
    assert_eq!(entries.len(), 3);
    assert_eq!(entries[0].name, "WEB-INF/");
    assert!(entries[0].is_dir);
    assert_eq!(entries[1].name, "WEB-INF/web.xml");
    assert!(!entries[1].is_dir);
    assert_eq!(entries[1].data, b"<web-app/>");
    assert_eq!(entries[2].name, "index.html");
    assert_eq!(entries[2].data, b"<html></html>");
}

#[test]
fn unreadable_bytes_are_a_staging_error() {
    let garbage = vec![0u8, 1, 2, 3, 4, 5];
    assert!(matches!(read_archive(&garbage), Err(ArtifactStagingError::UnreadableArchive)));
}

#[test]
fn restage_discards_whatever_was_staged_before() {
    let mut stale = FileSet::new();
    stale.insert_file("leftover.tmp".to_string(), b"junk".to_vec());
    stale.insert_file("index.html".to_string(), b"old".to_vec());
    let entries = vec![
        ArchiveEntry { name: "WEB-INF/".to_string(), is_dir: true, data: vec![] },
        ArchiveEntry { name: "index.html".to_string(), is_dir: false, data: b"new".to_vec() },
    ];
    let staged = restage(&stale, &entries);
    assert!(staged.get("leftover.tmp").is_none());
    assert_eq!(staged.get("index.html").unwrap(), b"new");
    assert!(staged.get("WEB-INF/").is_none());
    assert_eq!(staged.list().len(), 1);
}

#[test]
fn staging_twice_equals_the_archives_own_file_set() {
    let data = sample_zip();
    let entries = read_archive(&data).unwrap();
    let first = restage(&FileSet::new(), &entries);
    let second = restage(&first, &entries);
    assert_eq!(second.list().len(), 2);
    assert_eq!(second.get("WEB-INF/web.xml").unwrap(), b"<web-app/>");
    assert_eq!(second.get("index.html").unwrap(), b"<html></html>");
    assert_eq!(first.list().len(), second.list().len());
}

#[test]
fn non_archive_artifacts_are_left_untouched() {
    let r = stage_artifact("app.jarlike.txt", &vec![1, 2, 3], &FileSet::new());
    assert!(matches!(r, Ok(None)));
}

#[test]
fn archive_artifacts_are_staged_from_scratch() {
    let data = sample_zip();
    let mut prev = FileSet::new();
    prev.insert_file("stray".to_string(), b"x".to_vec());
    let staged = stage_artifact("deploy/app.war", &data, &prev).unwrap().unwrap();
    assert!(staged.get("stray").is_none());
    assert_eq!(staged.get("WEB-INF/web.xml").unwrap(), b"<web-app/>");
}

#[test]
fn unreadable_archive_fails_that_artifact_only() {
    let r = stage_artifact("deploy/app.war", &vec![9, 9, 9], &FileSet::new());
    assert!(matches!(r, Err(ArtifactStagingError::UnreadableArchive)));
}
