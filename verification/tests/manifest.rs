use paigaldaja::errors::{InstallError, ManifestError, ValidationError};
use paigaldaja::install::plan_downloads;
use paigaldaja::mrpack::{
    client_unsupported, dep_lookup, sha512_hex, validate_index, EnvType, PackDependency, PackFile,
    PackFileHash, PackIndex, SideType,
};

fn index(format_version: i32, game: &str) -> PackIndex {
    PackIndex {
        game: game.to_string(),
        format_version,
        version_id: "1.0".to_string(),
        name: "Pack".to_string(),
        summary: None,
        files: vec![],
        dependencies: vec![],
    }
}

fn entry(path: &str, hex: &str) -> PackFile {
    PackFile {
        path: path.to_string(),
        hashes: vec![(PackFileHash::Sha512, hex.to_string())],
        env: None,
        downloads: vec!["https://cdn.modrinth.com/x".to_string()],
        file_size: 100,
    }
}

#[test]
fn validates_supported_manifest() {
    assert_eq!(validate_index(&index(1, "minecraft")), Ok(()));
}

#[test]
fn rejects_unknown_format_version() {
    assert_eq!(
        validate_index(&index(2, "minecraft")),
        Err(InstallError::Manifest(ManifestError::UnsupportedFormatVersion))
    );
}

#[test]
fn rejects_unknown_game() {
    assert_eq!(
        validate_index(&index(1, "fortnite")),
        Err(InstallError::Manifest(ManifestError::UnsupportedGame))
    );
}

#[test]
fn hash_names_parse_with_unknown_kept() {
    assert!(matches!(PackFileHash::from("sha1".to_string()), PackFileHash::Sha1));
    assert!(matches!(PackFileHash::from("sha512".to_string()), PackFileHash::Sha512));
    match PackFileHash::from("blake3".to_string()) {
        PackFileHash::Unknown(s) => assert_eq!(s, "blake3"),
        _ => panic!("an unrecognized hash name must be preserved"),
    }
}

#[test]
fn finds_sha512_entry() {
    let hashes = vec![
        (PackFileHash::Sha1, "aa".to_string()),
        (PackFileHash::Sha512, "bb".to_string()),
    ];
    assert_eq!(sha512_hex(&hashes), Some(&"bb".to_string()));
    let only_sha1 = vec![(PackFileHash::Sha1, "aa".to_string())];
    assert_eq!(sha512_hex(&only_sha1), None);
}

#[test]
fn client_unsupported_entry_detected() {
    let mut f = entry("mods/a.jar", "00");
    assert!(!client_unsupported(&f));
    f.env = Some(vec![(EnvType::Client, SideType::Unsupported)]);
    assert!(client_unsupported(&f));
    f.env = Some(vec![(EnvType::Server, SideType::Unsupported)]);
    assert!(!client_unsupported(&f));
    f.env = Some(vec![(EnvType::Client, SideType::Required)]);
    assert!(!client_unsupported(&f));
}

#[test]
fn dependency_lookup_finds_first() {
    let deps = vec![
        (PackDependency::Minecraft, "1.20.1".to_string()),
        (PackDependency::FabricLoader, "0.15.0".to_string()),
    ];
    assert_eq!(dep_lookup(&deps, PackDependency::Minecraft), Some(&"1.20.1".to_string()));
    assert_eq!(dep_lookup(&deps, PackDependency::Forge), None);
}

#[test]
fn plan_skips_client_unsupported_entry() {
    let mut skipped = entry("mods/server-only.jar", "0011");
    skipped.env = Some(vec![(EnvType::Client, SideType::Unsupported)]);
    let kept = entry("mods/a.jar", "00ff");
    let plan = plan_downloads(&vec![skipped, kept]).unwrap();
    assert_eq!(plan.len(), 1);
    assert_eq!(plan[0].path, "mods/a.jar");
    assert_eq!(plan[0].hash, vec![0u8, 255]);
    assert_eq!(plan[0].size, 100);
    assert_eq!(plan[0].urls, vec!["https://cdn.modrinth.com/x".to_string()]);
}

#[test]
fn plan_rejects_missing_sha512() {
    let mut f = entry("mods/a.jar", "00");
    f.hashes = vec![(PackFileHash::Sha1, "aa".to_string())];
    assert_eq!(
        plan_downloads(&vec![f]),
        Err(InstallError::Validation(ValidationError::MissingSha512))
    );
}

#[test]
fn plan_rejects_unsafe_path() {
    let f = entry("../escape.jar", "00");
    assert_eq!(
        plan_downloads(&vec![f]),
        Err(InstallError::Validation(ValidationError::UnsafePath))
    );
}

#[test]
fn plan_rejects_malformed_hash_hex() {
    let f = entry("mods/a.jar", "xyz");
    assert_eq!(
        plan_downloads(&vec![f]),
        Err(InstallError::Validation(ValidationError::InvalidHashHex))
    );
}

#[test]
fn plan_normalizes_paths() {
    let f = entry("config/../mods/./a.jar", "00ff");
    let plan = plan_downloads(&vec![f]).unwrap();
    assert_eq!(plan[0].path, "mods/a.jar");
}

#[test]
fn plan_is_deterministic_for_same_manifest() {
    let files = vec![entry("mods/a.jar", "00ff"), entry("mods/b.jar", "11ee")];
    let first = plan_downloads(&files).unwrap();
    let second = plan_downloads(&files).unwrap();
    assert_eq!(first.len(), second.len());
    for (a, b) in first.iter().zip(second.iter()) {
        assert_eq!(a.path, b.path);
        assert_eq!(a.hash, b.hash);
        assert_eq!(a.size, b.size);
        assert_eq!(a.urls, b.urls);
    }
}

#[test]
fn empty_file_list_plans_nothing() {
    let plan = plan_downloads(&vec![]).unwrap();
    assert!(plan.is_empty());
}

#[test]
fn first_of_equal_hash_keys_wins() {
    let hashes = vec![
        (PackFileHash::Sha512, "aa".to_string()),
        (PackFileHash::Sha512, "bb".to_string()),
    ];
    assert_eq!(sha512_hex(&hashes), Some(&"aa".to_string()));
}

#[test]
fn first_of_equal_dependency_keys_wins() {
    let deps = vec![
        (PackDependency::Minecraft, "1.20.1".to_string()),
        (PackDependency::Minecraft, "1.19.4".to_string()),
    ];
    assert_eq!(dep_lookup(&deps, PackDependency::Minecraft), Some(&"1.20.1".to_string()));
}
