//! The per-identity sent log: retention sweep, de-duplicated append and
//! per-recipient removal.

use vstd::prelude::*;
use crate::text::str_eq;

verus! {

/// File name of the per-identity sent log.
pub const SENT_FILE: &'static str = "sent.jsonl";

/// One outgoing message as persisted.
#[derive(Debug, Clone)]
pub struct SentRow {
    pub msg_id_hex: String,
    pub recipient_username: String,
    /// Unix seconds.
    pub timestamp: u64,
    pub plaintext_utf8: String,
}

/// Arguments of `sent_load`.
#[derive(Debug, Clone)]
pub struct SentLoadArgs {
    /// Retention window in hours; `None` keeps everything.
    pub ttl_hours: Option<u32>,
}

/// Arguments of `sent_append`.
#[derive(Debug, Clone)]
pub struct SentAppendArgs {
    pub row: SentRow,
}

/// Arguments of `sent_remove_by_recipient`.
#[derive(Debug, Clone)]
pub struct SentRemoveArgs {
    pub recipient_username: String,
}

/// The oldest timestamp a sweep keeps: `now` less the window, floored at
/// zero.
pub open spec fn sweep_cutoff(ttl_hours: u32, now: u64) -> int {
    if now >= ttl_hours * 3600 {
        now - ttl_hours * 3600
    } else {
        0
    }
}

/// What a sweep keeps: every row, or with a window the rows no older
/// than the cutoff, in order.
pub open spec fn sweep_spec(rows: Seq<SentRow>, ttl_hours: Option<u32>, now: u64) -> Seq<SentRow> {
    match ttl_hours {
        None => rows,
        Some(t) => rows.filter(|r: SentRow| r.timestamp >= sweep_cutoff(t, now)),
    }
}

/// Drop rows older than `ttl_hours`; `None` disables the sweep.
pub fn sweep(rows: Vec<SentRow>, ttl_hours: Option<u32>, now: u64) -> (r: Vec<SentRow>)
    ensures
        r@ == sweep_spec(rows@, ttl_hours, now),
{
    let ttl = match ttl_hours {
        Some(t) => t,
        None => return rows,
    };
    let window: u64 = (ttl as u64) * 3600;
    let cutoff: u64 = if now >= window {
        now - window
    } else {
        0
    };
    let ghost pred = |r: SentRow| r.timestamp >= sweep_cutoff(ttl, now);
    let ghost all = rows@;
    let mut out: Vec<SentRow> = Vec::new();
    for row in it: rows.into_iter()
        invariant
            it.seq() == all,
            cutoff == sweep_cutoff(ttl, now),
            pred == (|r: SentRow| r.timestamp >= sweep_cutoff(ttl, now)),
            out@ == all.take(it.index() as int).filter(pred),
    {
        proof {
            let k = it.index() as int;
            assert(all.take(k + 1).drop_last() =~= all.take(k));
            assert(all.take(k + 1).last() == row);
            reveal(Seq::filter);
        }
        if row.timestamp >= cutoff {
            out.push(row);
        }
    }
    proof {
        assert(all.take(all.len() as int) =~= all);
    }
    out
}

/// Whether some row has message id `id`.
pub open spec fn has_id(rows: Seq<SentRow>, id: Seq<char>) -> bool {
    exists|i: int| 0 <= i < rows.len() && (#[trigger] rows[i]).msg_id_hex@ == id
}

/// Append `row` unless a row with its message id is already logged;
/// reports whether it was appended.
pub fn append_row(rows: &mut Vec<SentRow>, row: SentRow) -> (appended: bool)
    ensures
        appended == !has_id(old(rows)@, row.msg_id_hex@),
        final(rows)@ == (if appended {
            old(rows)@.push(row)
        } else {
            old(rows)@
        }),
{
    let mut i: usize = 0;
    while i < rows.len()
        invariant
            i <= rows@.len(),
            forall|k: int| 0 <= k < i ==> (#[trigger] rows@[k]).msg_id_hex@ != row.msg_id_hex@,
        decreases rows@.len() - i,
    {
        if str_eq(rows[i].msg_id_hex.as_str(), row.msg_id_hex.as_str()) {
            assert(rows@[i as int].msg_id_hex@ == row.msg_id_hex@);
            return false;
        }
        i = i + 1;
    }
    rows.push(row);
    true
}

/// Appending the same row twice logs it once.
pub proof fn law_append_idempotent(rows: Seq<SentRow>, row: SentRow)
    ensures
        has_id(rows.push(row), row.msg_id_hex@),
{
    assert(rows.push(row)[rows.len() as int] == row);
}

/// Message ids of a log are pairwise distinct.
pub open spec fn distinct_ids(rows: Seq<SentRow>) -> bool {
    forall|i: int, j: int| 0 <= i < j < rows.len() ==> rows[i].msg_id_hex@ != rows[j].msg_id_hex@
}

/// De-duplicated appends keep message ids distinct.
pub proof fn law_append_keeps_ids_distinct(rows: Seq<SentRow>, row: SentRow)
    requires
        distinct_ids(rows),
    ensures
        distinct_ids(if has_id(rows, row.msg_id_hex@) { rows } else { rows.push(row) }),
{
    if !has_id(rows, row.msg_id_hex@) {
        let r2 = rows.push(row);
        assert forall|i: int, j: int| 0 <= i < j < r2.len() implies r2[i].msg_id_hex@
            != r2[j].msg_id_hex@ by {
            if j == rows.len() {
                assert(r2[i] == rows[i]);
            }
        }
    }
}

/// The lower-case form of `s` as `str::to_lowercase` computes it (full
/// Unicode case mapping).
pub uninterp spec fn unicode_lower(s: Seq<char>) -> Seq<char>;

/// `str::to_lowercase`.
///
/// Claims: the result is `unicode_lower` of the input.
#[verifier::external_body]
pub(crate) fn to_lowercase(s: &str) -> (r: String)
    ensures
        r@ == unicode_lower(s@),
{
    s.to_lowercase()
}

/// What removing a recipient's thread keeps: the rows whose recipient,
/// lower-cased, differs from the target lower-cased, in order.
pub open spec fn remove_recipient_spec(rows: Seq<SentRow>, recipient: Seq<char>) -> Seq<SentRow> {
    rows.filter(|r: SentRow| unicode_lower(r.recipient_username@) != unicode_lower(recipient))
}

/// Drop every row addressed to `recipient`, ignoring case.
pub fn remove_by_recipient(rows: Vec<SentRow>, recipient: &str) -> (r: Vec<SentRow>)
    ensures
        r@ == remove_recipient_spec(rows@, recipient@),
{
    let target = to_lowercase(recipient);
    let ghost pred = |r: SentRow| unicode_lower(r.recipient_username@) != unicode_lower(recipient@);
    let ghost all = rows@;
    let mut out: Vec<SentRow> = Vec::new();
    for row in it: rows.into_iter()
        invariant
            it.seq() == all,
            target@ == unicode_lower(recipient@),
            pred == (|r: SentRow| unicode_lower(r.recipient_username@) != unicode_lower(recipient@)),
            out@ == all.take(it.index() as int).filter(pred),
    {
        proof {
            let k = it.index() as int;
            assert(all.take(k + 1).drop_last() =~= all.take(k));
            assert(all.take(k + 1).last() == row);
            reveal(Seq::filter);
        }
        let lower = to_lowercase(row.recipient_username.as_str());
        if !str_eq(lower.as_str(), target.as_str()) {
            out.push(row);
        }
    }
    proof {
        assert(all.take(all.len() as int) =~= all);
    }
    out
}

} // verus!
