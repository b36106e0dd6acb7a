use dnsmesh_app::sent::{append_row, remove_by_recipient, sweep, SentRow};

fn row(id: u8, recipient: &str, ts: u64) -> SentRow {
    SentRow {
        msg_id_hex: format!("{id:032x}"),
        recipient_username: recipient.to_string(),
        timestamp: ts,
        plaintext_utf8: format!("message {id}"),
    }
}

#[test]
fn sweep_drops_only_expired_rows() {
    let now = 1_000_000u64;
    let rows = vec![row(1, "bob", now - 3600), row(2, "bob", now - 25 * 3600)];
    let kept = sweep(rows.clone(), Some(24), now);
    assert_eq!(kept.len(), 1);
    assert_eq!(kept[0].msg_id_hex, row(1, "bob", 0).msg_id_hex);
    assert_eq!(sweep(rows, None, now).len(), 2);
}

#[test]
fn sweep_handles_timestamps_beyond_the_window_without_underflow() {
    let kept = sweep(vec![row(1, "bob", 5)], Some(24), 10);
    assert_eq!(kept.len(), 1);
}

#[test]
fn sweep_keeps_a_row_exactly_at_the_cutoff() {
    let now = 100_000u64;
    let kept = sweep(vec![row(1, "a", now - 3600), row(2, "a", now - 3601)], Some(1), now);
    assert_eq!(kept.len(), 1);
    assert_eq!(kept[0].timestamp, now - 3600);
}

#[test]
fn sent_append_dedupes_by_msg_id() {
    let mut rows = vec![row(1, "bob", 1)];
    assert!(append_row(&mut rows, row(2, "carol", 2)));
    assert!(!append_row(&mut rows, row(2, "dave", 3)));
    assert_eq!(rows.len(), 2);
    assert_eq!(rows[1].recipient_username, "carol");
}

#[test]
fn remove_by_recipient_ignores_case_and_keeps_order() {
    let rows = vec![row(1, "Bob", 1), row(2, "carol", 2), row(3, "BOB", 3), row(4, "dave", 4)];
    let kept = remove_by_recipient(rows, "bob");
    let ids: Vec<u64> = kept.iter().map(|r| r.timestamp).collect();
    assert_eq!(ids, vec![2, 4]);
}
