use std::io::{Cursor, Write};

use paigaldaja::archive::{extract_overrides, override_paths, zip_open, OverrideFile};
use paigaldaja::errors::{InstallError, ValidationError};
use zip::write::SimpleFileOptions;

fn build_zip(entries: &[(&str, &[u8])], dirs: &[&str]) -> Vec<u8> {
    let mut w = zip::ZipWriter::new(Cursor::new(Vec::new()));
    let opts = SimpleFileOptions::default();
    for (name, data) in entries {
        w.start_file(*name, opts).unwrap();
        w.write_all(data).unwrap();
    }
    for d in dirs {
        w.add_directory(*d, opts).unwrap();
    }
    w.finish().unwrap().into_inner()
}

#[test]
fn client_override_wins_over_plain() {
    let bytes = build_zip(
        &[
            ("modrinth.index.json", b"{}"),
            ("overrides/x.cfg", b"plain"),
            ("client-overrides/x.cfg", b"client"),
            ("overrides/keep.txt", b"keep"),
        ],
        &[],
    );
    let mut z = zip_open(bytes).unwrap();
    let files = extract_overrides(&mut z).unwrap();
    assert_eq!(
        files,
        vec![
            OverrideFile { path: "x.cfg".to_string(), data: b"client".to_vec() },
            OverrideFile { path: "keep.txt".to_string(), data: b"keep".to_vec() },
        ]
    );
    let written: Vec<String> = files.iter().filter(|f| f.path == "x.cfg").map(|f| String::from_utf8(f.data.clone()).unwrap()).collect();
    assert_eq!(written, vec!["client".to_string()]);
}

#[test]
fn directory_entries_and_unrelated_content_ignored() {
    let bytes = build_zip(
        &[("modrinth.index.json", b"{}"), ("overrides/config/a.txt", b"a")],
        &["overrides/config"],
    );
    let mut z = zip_open(bytes).unwrap();
    let files = extract_overrides(&mut z).unwrap();
    assert_eq!(
        files,
        vec![OverrideFile { path: "config/a.txt".to_string(), data: b"a".to_vec() }]
    );
    assert_eq!(override_paths(&files), vec!["config/a.txt".to_string()]);
}

#[test]
fn traversal_in_override_name_fails_extraction() {
    let bytes = build_zip(&[("overrides/../evil.txt", b"x")], &[]);
    let mut z = zip_open(bytes).unwrap();
    assert_eq!(
        extract_overrides(&mut z),
        Err(InstallError::Validation(ValidationError::UnsafePath))
    );
}

#[test]
fn override_paths_are_normalized() {
    let bytes = build_zip(&[("overrides/./cfg//opt.txt", b"v")], &[]);
    let mut z = zip_open(bytes).unwrap();
    let files = extract_overrides(&mut z).unwrap();
    assert_eq!(files[0].path, "cfg/opt.txt");
}

#[test]
fn plain_override_written_when_no_client_variant() {
    let bytes = build_zip(&[("overrides/x.cfg", b"plain")], &[]);
    let mut z = zip_open(bytes).unwrap();
    let files = extract_overrides(&mut z).unwrap();
    assert_eq!(
        files,
        vec![OverrideFile { path: "x.cfg".to_string(), data: b"plain".to_vec() }]
    );
}

#[test]
fn client_override_alone_is_written() {
    let bytes = build_zip(&[("client-overrides/y.cfg", b"client only")], &[]);
    let mut z = zip_open(bytes).unwrap();
    let files = extract_overrides(&mut z).unwrap();
    assert_eq!(
        files,
        vec![OverrideFile { path: "y.cfg".to_string(), data: b"client only".to_vec() }]
    );
}

#[test]
fn overrides_prefix_without_separator_is_not_an_override() {
    let bytes = build_zip(&[("overridesfoo.txt", b"x")], &[]);
    let mut z = zip_open(bytes).unwrap();
    let files = extract_overrides(&mut z).unwrap();
    assert!(files.is_empty());
}
