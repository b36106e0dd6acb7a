use dnsmesh_app::error::{from_client_failure, ClientFailure};
use dnsmesh_app::hexcodec::hex_string;
use dnsmesh_app::identity::{
    check_database_encrypted, check_derived_key, check_verifier_gate, materialise_publish_block,
    pin_verifier, PublishConfigInput,
};
use dnsmesh_app::inbox::{mark_all_read, PersistedInboxMessage};
use dnsmesh_app::state::IdentityConfig;
use dnsmesh_app::username::sanitize_username;

#[test]
fn plaintext_database_has_its_own_kind() {
    let mut head = b"SQLite format 3\0".to_vec();
    head.extend_from_slice(b"rest");
    let err = check_database_encrypted("alice", &head).unwrap_err();
    assert_eq!(err.kind, "legacy_plaintext_db");
    assert!(err.message.contains("unencrypted"));
    assert!(check_database_encrypted("alice", b"").is_ok());
    assert!(check_database_encrypted("alice", &[0x8a; 16]).is_ok());
}

#[test]
fn unpinned_existing_identity_asks_first() {
    let err = check_verifier_gate("alice", None, true, false).unwrap_err();
    assert_eq!(err.kind, "verifier_unpinned");
    assert!(check_verifier_gate("alice", None, true, true).is_ok());
    assert!(check_verifier_gate("alice", None, false, false).is_ok());
    assert!(check_verifier_gate("alice", Some("ab"), true, false).is_ok());
}

#[test]
fn derived_key_is_held_against_the_verifier() {
    assert_eq!(check_derived_key("alice", Some("abcd"), "abcd").unwrap(), false);
    let err = check_derived_key("alice", Some("abcd"), "abce").unwrap_err();
    assert_eq!(err.kind, "wrong_passphrase");
    assert_eq!(check_derived_key("alice", None, "abcd").unwrap(), true);
    let mut cfg = IdentityConfig::default();
    cfg.kdf_salt_base64 = Some("c2FsdHNhbHQ=".into());
    pin_verifier(&mut cfg, "abcd".into());
    assert_eq!(cfg.verifier_spk_hex.as_deref(), Some("abcd"));
    assert_eq!(cfg.kdf_salt_base64.as_deref(), Some("c2FsdHNhbHQ="));
}

#[test]
fn hex_string_is_lower_case() {
    assert_eq!(hex_string(&[0x00, 0xab, 0xff]), "00abff");
}

#[test]
fn client_failure_details_carry_their_fields() {
    let e = from_client_failure(ClientFailure::ContactNotFound { username: "bob".into() });
    let d = e.details.unwrap();
    let obj = d.as_object().unwrap();
    assert_eq!(obj.len(), 1);
    assert_eq!(obj["username"], "bob");
    let e = from_client_failure(ClientFailure::PublishFailed { kind: "prekey".into(), name: "n.example".into() });
    let d = e.details.unwrap();
    let obj = d.as_object().unwrap();
    assert_eq!(obj.len(), 2);
    assert_eq!(obj["publish_kind"], "prekey");
    assert_eq!(obj["name"], "n.example");
    assert!(from_client_failure(ClientFailure::Io("x".into())).details.is_none());
}

#[test]
fn inline_secret_is_always_written() {
    let input = PublishConfigInput {
        zone: "z".into(),
        server: "s:53".into(),
        tsig_key_name: "k".into(),
        tsig_algorithm: "hmac-sha256".into(),
        tsig_secret_path: "/ids/alice/tsig.key".into(),
        tsig_secret_base64: Some(" c2VjcmV0 ".into()),
    };
    let m = materialise_publish_block("/ids/alice", input).unwrap();
    let (path, body) = m.secret_file.unwrap();
    assert_eq!(path, "/ids/alice/tsig.key");
    assert_eq!(body, "base64:c2VjcmV0");
}

#[test]
fn sanitizing_twice_changes_nothing() {
    let once = sanitize_username("  dave  ").unwrap();
    assert_eq!(sanitize_username(&once).unwrap(), once);
}

fn msg(id: &str) -> PersistedInboxMessage {
    PersistedInboxMessage {
        sender_signing_pk_hex: "ab".repeat(32),
        msg_id_hex: id.to_string(),
        timestamp: 1,
        plaintext_utf8: String::new(),
        plaintext_bytes: Vec::new(),
        sender_label: None,
    }
}

#[test]
fn mark_all_read_adds_only_log_ids_once() {
    let mut set = vec!["a".to_string()];
    let changed = mark_all_read(&mut set, &vec![msg("a"), msg("b"), msg("b")]);
    assert!(changed);
    assert_eq!(set, vec!["a".to_string(), "b".to_string()]);
}

#[test]
fn reader_failure_reports_an_inbox_only_diagnostic() {
    let d = dnsmesh_app::messaging::inbox_only_diagnostic(
        "alice@z.example".into(),
        "00ff".into(),
        "z.example".into(),
        10,
        3,
        "no resolvers",
    );
    assert_eq!(d.zones_polled, vec!["z.example".to_string()]);
    assert!(d.manifests_found.is_empty());
    assert_eq!(d.pinned_contacts, 0);
    assert!(d.tofu_mode);
    assert_eq!(d.inbox_count, 3);
    assert_eq!(
        d.notes,
        vec!["diagnostic reader build failed: no resolvers; falling back to inbox-only count".to_string()]
    );
}
