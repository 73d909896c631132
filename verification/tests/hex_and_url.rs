use paigaldaja::errors::{InstallError, NetworkError};
use paigaldaja::download::check_url;
use paigaldaja::hexutil::hex_decode;

#[test]
fn hex_decodes_bytes() {
    assert_eq!(hex_decode("00ff10"), Some(vec![0u8, 255, 16]));
}

#[test]
fn hex_decodes_empty() {
    assert_eq!(hex_decode(""), Some(vec![]));
}

#[test]
fn hex_accepts_upper_case() {
    assert_eq!(hex_decode("AbCd"), Some(vec![0xab, 0xcd]));
}

#[test]
fn hex_rejects_odd_length() {
    assert_eq!(hex_decode("abc"), None);
}

#[test]
fn hex_rejects_non_digit() {
    assert_eq!(hex_decode("zz"), None);
}

fn allow(hosts: &[&str]) -> Vec<String> {
    hosts.iter().map(|h| h.to_string()).collect()
}

#[test]
fn url_accepts_allowed_https_host() {
    let allowed = allow(&["cdn.modrinth.com"]);
    assert_eq!(
        check_url("https://cdn.modrinth.com/data/x.jar", &allowed),
        Ok("https://cdn.modrinth.com/data/x.jar".to_string())
    );
}

#[test]
fn url_upgrades_http_to_https() {
    let allowed = allow(&["cdn.modrinth.com"]);
    assert_eq!(
        check_url("http://cdn.modrinth.com/data/x.jar", &allowed),
        Ok("https://cdn.modrinth.com/data/x.jar".to_string())
    );
}

#[test]
fn url_rejects_unlisted_host() {
    let allowed = allow(&["cdn.modrinth.com"]);
    assert_eq!(
        check_url("https://evil.example.org/x.jar", &allowed),
        Err(InstallError::Network(NetworkError::DomainNotAllowed))
    );
}

#[test]
fn url_rejects_other_scheme() {
    let allowed = allow(&["cdn.modrinth.com"]);
    assert_eq!(
        check_url("ftp://cdn.modrinth.com/x.jar", &allowed),
        Err(InstallError::Network(NetworkError::UnexpectedScheme))
    );
}

#[test]
fn url_rejects_missing_host() {
    let allowed = allow(&["cdn.modrinth.com"]);
    assert_eq!(
        check_url("https:///x.jar", &allowed),
        Err(InstallError::Network(NetworkError::NoHost))
    );
}

#[test]
fn url_rejects_unparsable() {
    let allowed = allow(&["cdn.modrinth.com"]);
    assert_eq!(
        check_url("no scheme at all", &allowed),
        Err(InstallError::Network(NetworkError::InvalidUrl))
    );
    assert_eq!(
        check_url("mailto:someone", &allowed),
        Err(InstallError::Network(NetworkError::InvalidUrl))
    );
}

#[test]
fn url_accepts_explicit_port() {
    let allowed = allow(&["cdn.modrinth.com"]);
    assert_eq!(
        check_url("http://cdn.modrinth.com:8080/x.jar", &allowed),
        Ok("https://cdn.modrinth.com:8080/x.jar".to_string())
    );
    assert_eq!(
        check_url("https://cdn.modrinth.com:/x.jar", &allowed),
        Ok("https://cdn.modrinth.com:/x.jar".to_string())
    );
}

#[test]
fn url_folds_ascii_case_in_scheme_and_host() {
    let allowed = allow(&["cdn.modrinth.com"]);
    assert_eq!(
        check_url("HTTP://CDN.Modrinth.COM/x.jar", &allowed),
        Ok("https://CDN.Modrinth.COM/x.jar".to_string())
    );
}

#[test]
fn url_rejects_userinfo() {
    let allowed = allow(&["cdn.modrinth.com"]);
    assert_eq!(
        check_url("https://user@cdn.modrinth.com/x.jar", &allowed),
        Err(InstallError::Network(NetworkError::DomainNotAllowed))
    );
}

#[test]
fn url_rejects_non_decimal_port() {
    let allowed = allow(&["cdn.modrinth.com"]);
    assert_eq!(
        check_url("https://cdn.modrinth.com:8o80/x.jar", &allowed),
        Err(InstallError::Network(NetworkError::InvalidUrl))
    );
}
