use dnsmesh_app::atrest::seal;
use dnsmesh_app::inbox::{
    classify_line, dedupe_ids, fresh_for_append, mark_all_read, mark_read, plan_delete,
    retain_read_set, rows_with_read, sorted_ids, InboxLine, PersistedInboxMessage,
};

const TEST_KEY: [u8; 32] = [0x2a; 32];

fn sample(id: u8) -> PersistedInboxMessage {
    PersistedInboxMessage {
        sender_signing_pk_hex: "ab".repeat(32),
        msg_id_hex: format!("{id:032x}"),
        timestamp: 1_700_000_000 + u64::from(id),
        plaintext_utf8: format!("hello {id}"),
        plaintext_bytes: format!("hello {id}").into_bytes(),
        sender_label: None,
    }
}

#[test]
fn append_dedupes_by_msg_id() {
    let log = vec![sample(1), sample(2)];
    let fresh = fresh_for_append(&log, vec![sample(2), sample(3), sample(3)]);
    assert_eq!(fresh.len(), 1, "sample(2) should be deduped");
    assert_eq!(fresh[0].msg_id_hex, sample(3).msg_id_hex);
    let mut all = log.clone();
    all.extend(fresh);
    assert!(fresh_for_append(&all, vec![sample(3)]).is_empty());
}

#[test]
fn lines_are_classified() {
    let sealed = seal(&TEST_KEY, b"{}").unwrap();
    assert!(matches!(classify_line(&TEST_KEY, "   "), InboxLine::Blank));
    match classify_line(&TEST_KEY, &format!(" {sealed} ")) {
        InboxLine::Sealed(p) => assert_eq!(p, b"{}"),
        _ => panic!("expected a sealed record"),
    }
    match classify_line(&TEST_KEY, " {not json\n") {
        InboxLine::Unsealed(t) => assert_eq!(t, "{not json"),
        _ => panic!("expected an unsealed line"),
    }
    assert!(matches!(classify_line(&[0x99; 32], &sealed), InboxLine::Unsealed(_)));
}

#[test]
fn delete_known_id_removes_row_case_insensitively() {
    let rows = vec![sample(1), sample(2), sample(3)];
    let target = sample(2).msg_id_hex.to_uppercase();
    let plan = plan_delete(rows, &vec![target, "deadbeef".to_string()]);
    assert_eq!(plan.kept.len(), 2);
    assert_eq!(plan.removed_ids, vec![sample(2).msg_id_hex]);
}

#[test]
fn delete_drops_read_state_entry() {
    let read = vec![sample(1).msg_id_hex, sample(2).msg_id_hex.to_uppercase(), "other".to_string()];
    let kept = retain_read_set(read, &vec![sample(2).msg_id_hex], &vec![]);
    assert_eq!(kept, vec![sample(1).msg_id_hex, "other".to_string()]);
    let kept = retain_read_set(vec!["x".into(), "y".into()], &vec![], &vec!["y".into()]);
    assert_eq!(kept, vec!["x".to_string()]);
}

#[test]
fn mark_read_persists() {
    let mut set: Vec<String> = Vec::new();
    assert!(mark_read(&mut set, sample(1).msg_id_hex));
    assert!(!mark_read(&mut set, sample(1).msg_id_hex));
    assert!(!mark_read(&mut set, String::new()));
    let rows = rows_with_read(vec![sample(1), sample(2)], &set);
    assert!(rows[0].read, "first message should be marked read");
    assert!(!rows[1].read, "second message should still be unread");
    assert_eq!(rows[1].plaintext_utf8, "hello 2");
}

#[test]
fn mark_all_read_reports_change() {
    let mut set = vec![sample(1).msg_id_hex];
    let log = vec![sample(1), sample(2)];
    assert!(mark_all_read(&mut set, &log));
    assert_eq!(set.len(), 2);
    assert!(!mark_all_read(&mut set, &log));
}

#[test]
fn read_set_is_deduped_on_load() {
    let ids = dedupe_ids(vec!["a".into(), "b".into(), "a".into()]);
    assert_eq!(ids, vec!["a".to_string(), "b".to_string()]);
}

#[test]
fn read_set_is_written_in_sorted_order() {
    let ids = vec!["c".to_string(), "a".to_string(), "b1".to_string(), "b".to_string()];
    assert_eq!(sorted_ids(ids), vec!["a", "b", "b1", "c"]);
    assert!(sorted_ids(Vec::new()).is_empty());
}
