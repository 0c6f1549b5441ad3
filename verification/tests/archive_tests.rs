use std::io::Cursor;
use std::io::Write;

use automa::archive::{install_archive, LoadedArchive};
use automa::install::{install, ArchiveEntry, Directory, InstallError};

fn zip_bytes(entries: &[(&str, &str)]) -> Vec<u8> {
    let mut writer = zip::ZipWriter::new(Cursor::new(Vec::new()));
    let options = zip::write::SimpleFileOptions::default();
    for (name, body) in entries {
        writer.start_file(*name, options).unwrap();
        writer.write_all(body.as_bytes()).unwrap();
    }
    writer.finish().unwrap().into_inner()
}

#[test]
fn install_extracts_every_entry_with_contents() {
    let bytes = zip_bytes(&[("a/b.txt", "hello"), ("c.txt", "world")]);
    let mut dest = Directory::new();
    install_archive(&mut dest, &bytes).unwrap();
    assert_eq!(dest.get("a/b.txt").unwrap(), &b"hello".to_vec());
    assert_eq!(dest.get("c.txt").unwrap(), &b"world".to_vec());
    assert!(!dest.contains("a"));
    assert!(!dest.contains("b.txt"));
    assert!(!dest.contains("keep.txt"));
}

#[test]
fn install_leaves_unrelated_files_untouched() {
    let bytes = zip_bytes(&[("a/b.txt", "hello"), ("c.txt", "world")]);
    let mut dest = Directory::new();
    dest.write("keep.txt".to_string(), b"original".to_vec());
    install_archive(&mut dest, &bytes).unwrap();
    assert_eq!(dest.get("keep.txt").unwrap(), &b"original".to_vec());
    assert_eq!(dest.get("a/b.txt").unwrap(), &b"hello".to_vec());
    assert_eq!(dest.get("c.txt").unwrap(), &b"world".to_vec());
}

#[test]
fn install_overwrites_existing_file_at_entry_path() {
    let bytes = zip_bytes(&[("c.txt", "new contents")]);
    let mut dest = Directory::new();
    dest.write("c.txt".to_string(), b"old contents".to_vec());
    install_archive(&mut dest, &bytes).unwrap();
    assert_eq!(dest.get("c.txt").unwrap(), &b"new contents".to_vec());
}

#[test]
fn open_rejects_corrupt_bytes() {
    let garbage = vec![1u8, 2, 3, 4, 5, 6, 7, 8];
    let mut dest = Directory::new();
    let err = install_archive(&mut dest, &garbage).unwrap_err();
    assert!(matches!(err, InstallError::ArchiveCorrupt));
    assert!(LoadedArchive::open(&garbage).is_err());
}

#[test]
fn failed_install_leaves_destination_untouched() {
    let garbage = b"this is not a zip archive".to_vec();
    let mut dest = Directory::new();
    dest.write("keep.txt".to_string(), b"original".to_vec());
    let err = install_archive(&mut dest, &garbage).unwrap_err();
    assert!(matches!(err, InstallError::ArchiveCorrupt));
    assert_eq!(dest.get("keep.txt").unwrap(), &b"original".to_vec());
    assert!(!dest.contains("this"));
    assert!(!dest.contains(""));
}

#[test]
fn extract_entries_reports_names_and_bytes() {
    let bytes = zip_bytes(&[("x.txt", "xx"), ("y/z.txt", "zz")]);
    let mut archive = LoadedArchive::open(&bytes).unwrap();
    assert_eq!(archive.len(), 2);
    let entries = archive.extract_entries().unwrap();
    assert_eq!(entries.len(), 2);
    assert_eq!(entries[0].path, "x.txt");
    assert_eq!(entries[0].data, b"xx".to_vec());
    assert_eq!(entries[1].path, "y/z.txt");
    assert_eq!(entries[1].data, b"zz".to_vec());
}

#[test]
fn install_entries_last_write_wins() {
    let entries = vec![
        ArchiveEntry { path: "f.txt".to_string(), data: b"first".to_vec() },
        ArchiveEntry { path: "f.txt".to_string(), data: b"second".to_vec() },
    ];
    let mut dest = Directory::new();
    install(&mut dest, &entries);
    assert_eq!(dest.get("f.txt").unwrap(), &b"second".to_vec());
}

#[test]
fn empty_archive_installs_nothing() {
    let bytes = zip_bytes(&[]);
    let mut dest = Directory::new();
    dest.write("keep.txt".to_string(), b"original".to_vec());
    install_archive(&mut dest, &bytes).unwrap();
    assert_eq!(dest.get("keep.txt").unwrap(), &b"original".to_vec());
    assert!(!dest.contains("anything-else"));
}
