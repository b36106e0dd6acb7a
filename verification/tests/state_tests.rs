use dnsmesh_app::state::{
    default_tsig_algorithm, identity_config_path, identity_db_path, identity_dir, index_path,
    IdentityConfig, IdentityIndex,
};
use dnsmesh_app::username::{sanitize_username, USERNAME_MAX_BYTES};

#[test]
fn sanitize_username_accepts_normal() {
    assert_eq!(sanitize_username("alice").unwrap(), "alice");
    assert_eq!(sanitize_username("  bob  ").unwrap(), "bob");
    assert_eq!(sanitize_username("user-1_2").unwrap(), "user-1_2");
}

#[test]
fn sanitize_username_rejects_traversal_and_separators() {
    for bad in ["../../etc", "../etc/passwd", "foo/bar", "a/b\\c", "..", "/", "\\"] {
        assert!(sanitize_username(bad).is_err(), "expected `{bad}` to be rejected");
    }
}

#[test]
fn sanitize_username_rejects_hidden_and_empty() {
    assert!(sanitize_username("").is_err());
    assert!(sanitize_username("   ").is_err());
    assert!(sanitize_username(".hidden").is_err());
    assert!(sanitize_username(".").is_err());
}

#[test]
fn sanitize_username_rejects_too_long() {
    let too_long = "a".repeat(USERNAME_MAX_BYTES + 1);
    assert!(sanitize_username(&too_long).is_err());
    let just_right = "a".repeat(USERNAME_MAX_BYTES);
    assert!(sanitize_username(&just_right).is_ok());
}

#[test]
fn sanitize_username_rejects_nul() {
    assert!(sanitize_username("foo\0bar").is_err());
}

#[test]
fn sanitize_username_messages_name_each_rule() {
    let e = sanitize_username("  ").unwrap_err();
    assert_eq!(e.kind, "validation");
    assert_eq!(e.message, "username must not be empty");
    let e = sanitize_username(&"é".repeat(33)).unwrap_err();
    assert_eq!(e.message, "username must be at most 64 bytes (got 66)");
    let e = sanitize_username(".x").unwrap_err();
    assert_eq!(e.message, "username must not start with '.'");
    let e = sanitize_username("a\\b").unwrap_err();
    assert_eq!(e.message, "username must not contain path separators or NUL");
}

#[test]
fn identity_dir_layout() {
    let root = "/tmp/dmp-root";
    assert_eq!(identity_dir(root, "alice"), "/tmp/dmp-root/alice");
    assert_eq!(identity_db_path(root, "alice"), "/tmp/dmp-root/alice/dmp-rs.sqlite");
    assert_eq!(identity_config_path(root, "alice"), "/tmp/dmp-root/alice/config.yaml");
    assert_eq!(index_path("/tmp/dmp-root/"), "/tmp/dmp-root/index.yaml");
}

#[test]
fn missing_index_and_config_defaults_are_empty() {
    let idx = IdentityIndex::default();
    assert!(idx.active.is_none());
    assert!(idx.identities.is_empty());
    let cfg = IdentityConfig::default();
    assert!(cfg.resolvers.is_none());
    assert!(cfg.publish.is_none());
    assert!(cfg.kdf_salt_base64.is_none());
    assert!(cfg.claim_via.is_none());
}

#[test]
fn default_tsig_algorithm_is_hmac_sha256() {
    assert_eq!(default_tsig_algorithm(), "hmac-sha256");
}
