use paigaldaja::paths::parse_and_sanitize_path;

#[test]
fn accepts_plain_relative_path() {
    assert_eq!(
        parse_and_sanitize_path("mods/a.jar"),
        Some("mods/a.jar".to_string())
    );
}

#[test]
fn rejects_ascent_above_root() {
    assert_eq!(parse_and_sanitize_path("a/../../b"), None);
}

#[test]
fn accepts_and_normalizes_inner_ascent() {
    assert_eq!(parse_and_sanitize_path("a/../b"), Some("b".to_string()));
}

#[test]
fn rejects_nul_byte() {
    assert_eq!(parse_and_sanitize_path("a\0b"), None);
}

#[test]
fn rejects_absolute_path() {
    assert_eq!(parse_and_sanitize_path("/etc/passwd"), None);
}

#[test]
fn backslash_separates_components() {
    assert_eq!(parse_and_sanitize_path("a\\b"), Some("a/b".to_string()));
    assert_eq!(parse_and_sanitize_path("mods\\sub\\a.jar"), Some("mods/sub/a.jar".to_string()));
}

#[test]
fn backslash_ascent_rejected() {
    assert_eq!(parse_and_sanitize_path("a\\..\\..\\b"), None);
    assert_eq!(parse_and_sanitize_path("..\\x"), None);
}

#[test]
fn leading_backslash_is_absolute() {
    assert_eq!(parse_and_sanitize_path("\\server\\share"), None);
}

#[test]
fn rejects_drive_prefix() {
    assert_eq!(parse_and_sanitize_path("C:/windows"), None);
    assert_eq!(parse_and_sanitize_path("C:x"), None);
}

#[test]
fn rejects_leading_parent() {
    assert_eq!(parse_and_sanitize_path(".."), None);
    assert_eq!(parse_and_sanitize_path("../x"), None);
}

#[test]
fn ignores_current_dir_and_doubled_slashes() {
    assert_eq!(
        parse_and_sanitize_path("./config//options.txt/"),
        Some("config/options.txt".to_string())
    );
}

#[test]
fn colon_allowed_past_first_component() {
    assert_eq!(
        parse_and_sanitize_path("mods/a:b.jar"),
        Some("mods/a:b.jar".to_string())
    );
}

#[test]
fn empty_path_normalizes_to_empty() {
    assert_eq!(parse_and_sanitize_path(""), Some(String::new()));
    assert_eq!(parse_and_sanitize_path("a/.."), Some(String::new()));
}
