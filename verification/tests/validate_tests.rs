use opentainer_core::validate::validate_docker_id;

#[test]
fn validate_docker_id_accepts_short_hex() {
    assert!(validate_docker_id("abc123def456").is_ok());
}

#[test]
fn validate_docker_id_accepts_full_sha() {
    let sha = "a".repeat(64);
    assert!(validate_docker_id(&sha).is_ok());
}

#[test]
fn validate_docker_id_accepts_image_with_tag() {
    assert!(validate_docker_id("nginx:latest").is_ok());
}

#[test]
fn validate_docker_id_accepts_image_with_registry() {
    assert!(validate_docker_id("ghcr.io/user/image:v1.2.3").is_ok());
}

#[test]
fn validate_docker_id_accepts_digest_ref() {
    assert!(validate_docker_id("nginx@sha256:abc123").is_ok());
}

#[test]
fn validate_docker_id_accepts_name_with_underscores() {
    assert!(validate_docker_id("my_volume-name.v2").is_ok());
}

#[test]
fn validate_docker_id_rejects_empty() {
    let err = validate_docker_id("").unwrap_err();
    assert!(err.contains("empty"));
}

#[test]
fn validate_docker_id_rejects_too_long() {
    let long = "x".repeat(257);
    let err = validate_docker_id(&long).unwrap_err();
    assert!(err.contains("too long"));
}

#[test]
fn validate_docker_id_rejects_semicolon() {
    assert!(validate_docker_id("nginx; rm -rf /").is_err());
}

#[test]
fn validate_docker_id_rejects_backtick() {
    assert!(validate_docker_id("nginx`whoami`").is_err());
}

#[test]
fn validate_docker_id_rejects_dollar_sign() {
    assert!(validate_docker_id("$HOME").is_err());
}

#[test]
fn validate_docker_id_rejects_pipe() {
    assert!(validate_docker_id("nginx | cat /etc/passwd").is_err());
}

#[test]
fn validate_docker_id_accepts_boundary_length() {
    let id = "a".repeat(256);
    assert!(validate_docker_id(&id).is_ok());
}

#[test]
fn validate_docker_id_invalid_message_names_the_id() {
    let err = validate_docker_id("bad id").unwrap_err();
    assert_eq!(err, "Invalid identifier: bad id");
}

#[test]
fn validate_docker_id_rejects_quotes_and_redirects() {
    assert!(validate_docker_id("a\"b").is_err());
    assert!(validate_docker_id("a'b").is_err());
    assert!(validate_docker_id("a>b").is_err());
    assert!(validate_docker_id("a<b").is_err());
    assert!(validate_docker_id("a&b").is_err());
    assert!(validate_docker_id("a*b").is_err());
}

#[test]
fn validate_docker_id_rejects_non_ascii() {
    assert!(validate_docker_id("caf\u{e9}").is_err());
}
