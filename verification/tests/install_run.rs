use paigaldaja::download::{check_url, require_ok_status, DownloadBuffer, MirrorRun};
use paigaldaja::errors::{InstallError, IntegrityError, ManifestError};
use paigaldaja::install::{InstallStage, Installer};
use paigaldaja::mrpack::{EnvType, PackDependency, PackFile, PackFileHash, PackIndex, SideType};
use sha2::Digest;

fn hex_of(bytes: &[u8]) -> String {
    let mut s = String::new();
    for b in bytes {
        s.push_str(&format!("{:02x}", b));
    }
    s
}

fn one_file_index(path: &str, content: &[u8], mirrors: &[&str]) -> PackIndex {
    let digest = sha2::Sha512::digest(content).to_vec();
    PackIndex {
        game: "minecraft".to_string(),
        format_version: 1,
        version_id: "1.0".to_string(),
        name: "Pack".to_string(),
        summary: None,
        files: vec![PackFile {
            path: path.to_string(),
            hashes: vec![(PackFileHash::Sha512, hex_of(&digest))],
            env: None,
            downloads: mirrors.iter().map(|m| m.to_string()).collect(),
            file_size: content.len() as u32,
        }],
        dependencies: vec![(PackDependency::Minecraft, "1.20.1".to_string())],
    }
}

/// One mirror's simulated answer: a non-200 status, or a body.
enum MirrorAnswer {
    Status(u16),
    Body(Vec<u8>),
}

/// Drives one install run the way the surrounding program does, with the
/// network simulated: per task, mirrors are tried in order, each answer
/// checked by the download buffer; the run fails once a task exhausts its
/// mirrors.
fn drive_install(
    index: PackIndex,
    allowed: &Vec<String>,
    answers: &[MirrorAnswer],
) -> (Installer, Result<Vec<String>, InstallError>) {
    let mut inst = Installer::new();
    inst.cleanup_done();
    if let Err(e) = inst.load_manifest(index) {
        return (inst, Err(e));
    }
    while let Some(task) = {
        let t = inst.pending_task();
        t.map(|t| (t.urls.clone(), t.hash.clone(), t.size))
    } {
        let (urls, hash, size) = task;
        let mut answer_iter = answers.iter();
        let mut run = MirrorRun::new(urls);
        let mut got: Option<Vec<u8>> = None;
        while let Some(url) = run.pending().cloned() {
            let checked = match check_url(url.as_str(), allowed) {
                Ok(u) => u,
                Err(e) => {
                    run.failed(e);
                    continue;
                }
            };
            assert!(checked.starts_with("https://"));
            let answer = answer_iter.next().expect("one answer per attempted mirror");
            let (status, body) = match answer {
                MirrorAnswer::Status(code) => (*code, None),
                MirrorAnswer::Body(b) => (200, Some(b)),
            };
            if let Err(e) = require_ok_status(status) {
                run.failed(e);
                continue;
            }
            let body = body.expect("a 200 answer carries a body");
            let mut buf = DownloadBuffer::new(hash.clone(), size);
            let outcome = match buf.push_chunk(body) {
                Ok(()) => buf.finish().map(|_content| ()),
                Err(e) => Err(e),
            };
            match outcome {
                Ok(()) => {
                    got = Some(body.clone());
                    break;
                }
                Err(e) => run.failed(e),
            }
        }
        if got.is_none() {
            inst.fail();
            return (inst, Err(run.surfaced_error()));
        }
        inst.download_done();
    }
    inst.downloads_finished();
    inst.overrides_done(&vec![]);
    inst.loader_done();
    let files = inst.finish();
    (inst, Ok(files))
}

#[test]
fn second_mirror_rescues_install() {
    let content: Vec<u8> = (0..100u32).map(|i| i as u8).collect();
    let index = one_file_index(
        "mods/a.jar",
        &content,
        &["https://cdn.modrinth.com/bad", "https://cdn.modrinth.com/good"],
    );
    let allowed = vec!["cdn.modrinth.com".to_string()];
    let answers = [MirrorAnswer::Status(500), MirrorAnswer::Body(content)];
    let (inst, result) = drive_install(index, &allowed, &answers);
    assert_eq!(inst.stage, InstallStage::Done);
    assert_eq!(result.unwrap(), vec!["mods/a.jar".to_string()]);
}

#[test]
fn short_body_from_last_mirror_fails_install() {
    let content: Vec<u8> = (0..100u32).map(|i| i as u8).collect();
    let index = one_file_index(
        "mods/a.jar",
        &content,
        &["https://cdn.modrinth.com/bad", "https://cdn.modrinth.com/short"],
    );
    let allowed = vec!["cdn.modrinth.com".to_string()];
    let answers = [
        MirrorAnswer::Status(500),
        MirrorAnswer::Body(content[..99].to_vec()),
    ];
    let (inst, result) = drive_install(index, &allowed, &answers);
    assert_eq!(inst.stage, InstallStage::Failed);
    assert_eq!(
        result,
        Err(InstallError::Integrity(IntegrityError::WrongSize {
            expected: 100,
            received: 99
        }))
    );
}

#[test]
fn invalid_format_version_fails_before_any_download() {
    let mut index = one_file_index("mods/a.jar", b"x", &["https://cdn.modrinth.com/x"]);
    index.format_version = 2;
    let allowed = vec!["cdn.modrinth.com".to_string()];
    let (inst, result) = drive_install(index, &allowed, &[]);
    assert_eq!(inst.stage, InstallStage::Failed);
    assert_eq!(
        result,
        Err(InstallError::Manifest(ManifestError::UnsupportedFormatVersion))
    );
    assert_eq!(inst.tasks.len(), 0);
}

#[test]
fn wrong_game_fails_before_any_download() {
    let mut index = one_file_index("mods/a.jar", b"x", &["https://cdn.modrinth.com/x"]);
    index.game = "factorio".to_string();
    let allowed = vec!["cdn.modrinth.com".to_string()];
    let (inst, result) = drive_install(index, &allowed, &[]);
    assert_eq!(inst.stage, InstallStage::Failed);
    assert_eq!(
        result,
        Err(InstallError::Manifest(ManifestError::UnsupportedGame))
    );
    assert_eq!(inst.tasks.len(), 0);
}

#[test]
fn client_unsupported_file_not_downloaded_or_tracked() {
    let content = b"server only".to_vec();
    let mut index = one_file_index("mods/a.jar", b"client file", &["https://cdn.modrinth.com/a"]);
    let digest = sha2::Sha512::digest(&content).to_vec();
    index.files.push(PackFile {
        path: "mods/server-only.jar".to_string(),
        hashes: vec![(PackFileHash::Sha512, hex_of(&digest))],
        env: Some(vec![(EnvType::Client, SideType::Unsupported)]),
        downloads: vec!["https://cdn.modrinth.com/s".to_string()],
        file_size: content.len() as u32,
    });
    let allowed = vec!["cdn.modrinth.com".to_string()];
    let answers = [MirrorAnswer::Body(b"client file".to_vec())];
    let (inst, result) = drive_install(index, &allowed, &answers);
    assert_eq!(inst.stage, InstallStage::Done);
    let files = result.unwrap();
    assert_eq!(files, vec!["mods/a.jar".to_string()]);
    assert!(!files.contains(&"mods/server-only.jar".to_string()));
}

#[test]
fn override_paths_join_written_files() {
    let content = b"data".to_vec();
    let index = one_file_index("mods/a.jar", &content, &["https://cdn.modrinth.com/a"]);
    let allowed = vec!["cdn.modrinth.com".to_string()];
    let mut inst = Installer::new();
    inst.cleanup_done();
    inst.load_manifest(index).unwrap();
    let task = inst.pending_task().unwrap();
    let url = check_url(task.urls[0].as_str(), &allowed).unwrap();
    assert_eq!(url, "https://cdn.modrinth.com/a");
    let mut buf = DownloadBuffer::new(task.hash.clone(), task.size);
    buf.push_chunk(&content).unwrap();
    buf.finish().unwrap();
    inst.download_done();
    assert!(inst.pending_task().is_none());
    inst.downloads_finished();
    inst.overrides_done(&vec!["config/opt.txt".to_string()]);
    inst.loader_done();
    let files = inst.finish();
    assert_eq!(
        files,
        vec!["mods/a.jar".to_string(), "config/opt.txt".to_string()]
    );
    assert_eq!(inst.stage, InstallStage::Done);
}
