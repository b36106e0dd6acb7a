use dnsmesh_app::intro::{intro_view, persisted_from};
use dnsmesh_app::messaging::{
    check_send, classify_record, inbox_message_view, poll_zones, tofu_mode, ManifestFacts,
};

#[test]
fn inbox_message_view_round_trips_hex() {
    let view = inbox_message_view(&[0xAB; 32], &[0xCD; 16], 1_700_000_000, b"hello".to_vec());
    assert_eq!(view.sender_signing_pk_hex, "ab".repeat(32));
    assert_eq!(view.msg_id_hex, "cd".repeat(16));
    assert_eq!(view.plaintext_utf8, "hello");
}

#[test]
fn lossy_text_replaces_invalid_utf8() {
    let view = inbox_message_view(&[], &[], 0, vec![b'h', 0xff, b'i']);
    assert_eq!(view.plaintext_utf8, "h\u{fffd}i");
    assert_eq!(view.plaintext_bytes, vec![b'h', 0xff, b'i']);
}

#[test]
fn send_preconditions() {
    assert_eq!(check_send(false, "bob").unwrap_err().kind, "publish_unconfigured");
    assert_eq!(check_send(true, "  ").unwrap_err().message, "recipient_username must not be empty");
    assert!(check_send(true, "bob").is_ok());
}

#[test]
fn zones_walked_own_first_then_distinct_contacts() {
    let z = poll_zones("mesh.local", &vec!["a.zone".into(), "".into(), "mesh.local".into(), "a.zone".into(), "b.zone".into()]);
    assert_eq!(z, vec!["mesh.local".to_string(), "a.zone".to_string(), "b.zone".to_string()]);
}

fn facts(rid: u8, sender: u8) -> Option<ManifestFacts> {
    Some(ManifestFacts { sender_spk: vec![sender; 32], msg_id: vec![0xef; 16], recipient_id: vec![rid; 32], exp: 50 })
}

#[test]
fn manifest_decisions() {
    let ours = vec![0x11u8; 32];
    let ours_hex = "11".repeat(32);
    let pinned = vec![vec![0x22u8; 32]];
    let m = classify_record("z", 3, "n", None, false, &ours, &ours_hex, &pinned, false, 10);
    assert_eq!(m.decision, "signature_invalid");
    assert_eq!(m.note, "TXT under n did not parse / verify");
    let m = classify_record("z", 3, "n", facts(0x12, 0x22), false, &ours, &ours_hex, &pinned, false, 10);
    assert_eq!(m.decision, "recipient_mismatch");
    let m = classify_record("z", 3, "n", facts(0x11, 0x22), true, &ours, &ours_hex, &pinned, false, 10);
    assert_eq!(m.decision, "expired");
    assert_eq!(m.note, "exp=50 (now=10)");
    let m = classify_record("z", 3, "n", facts(0x11, 0x22), false, &ours, &ours_hex, &pinned, false, 10);
    assert_eq!(m.decision, "deliverable_pinned");
    assert_eq!(m.msg_id_hex, "ef".repeat(16));
    let m = classify_record("z", 3, "n", facts(0x11, 0x33), false, &ours, &ours_hex, &vec![], true, 10);
    assert_eq!(m.decision, "deliverable_tofu");
    let m = classify_record("z", 3, "n", facts(0x11, 0x33), false, &ours, &ours_hex, &pinned, false, 10);
    assert_eq!(m.decision, "quarantine_intro");
    assert_eq!(m.note, format!("sender {} is not in your pinned contacts — would land in the intro queue", "33".repeat(8)));
    assert!(tofu_mode(&vec![]));
    assert!(!tofu_mode(&pinned));
}

#[test]
fn intro_views_are_shaped_for_the_inbox() {
    let v = intro_view(7, &[0x01, 0x02], Some("bob@x".into()), &[0x03], b"hi".to_vec(), 5, 9);
    assert_eq!(v.sender_spk_hex, "0102");
    assert_eq!(v.msg_id_hex, "03");
    assert_eq!(v.plaintext_utf8, "hi");
    let m = persisted_from(&[0xff], &[0x00], 4, b"yo".to_vec(), None);
    assert_eq!(m.sender_signing_pk_hex, "ff");
    assert_eq!(m.msg_id_hex, "00");
    assert_eq!(m.plaintext_utf8, "yo");
    assert_eq!(m.timestamp, 4);
}
