//! The per-identity persistent inbox: how a stored line is read, how an
//! append de-duplicates, how a delete picks its rows, and the read-state
//! set kept beside the log.

use vstd::prelude::*;
use crate::atrest::{open, open_spec};
use crate::text::{ascii_lower, str_eq, to_ascii_lowercase, trim, trim_seq};

verus! {

/// File name of the per-identity inbox log.
pub const INBOX_FILE: &'static str = "inbox.jsonl";

/// File name of the per-identity read-state set.
pub const INBOX_READ_FILE: &'static str = "inbox-read.json";

/// One persisted inbox row.
#[derive(Debug, Clone)]
pub struct PersistedInboxMessage {
    pub sender_signing_pk_hex: String,
    pub msg_id_hex: String,
    pub timestamp: u64,
    pub plaintext_utf8: String,
    pub plaintext_bytes: Vec<u8>,
    /// Verified `user@host` of the sender, when the envelope carried one.
    pub sender_label: Option<String>,
}

/// One inbox row as the UI shows it: the persisted row and its read flag.
#[derive(Debug, Clone)]
pub struct InboxRow {
    pub sender_signing_pk_hex: String,
    pub msg_id_hex: String,
    pub timestamp: u64,
    pub plaintext_utf8: String,
    pub plaintext_bytes: Vec<u8>,
    pub sender_label: Option<String>,
    pub read: bool,
}

/// Arguments of `inbox_append`.
#[derive(Debug, Clone)]
pub struct InboxAppendArgs {
    pub messages: Vec<PersistedInboxMessage>,
}

/// Result of `inbox_append`.
#[derive(Debug, Clone)]
pub struct InboxAppendResult {
    pub appended: usize,
    pub total: usize,
}

/// Arguments of `inbox_mark_read`.
#[derive(Debug, Clone)]
pub struct InboxMarkReadArgs {
    pub msg_id_hex: String,
}

/// Arguments of `inbox_delete`.
#[derive(Debug, Clone)]
pub struct InboxDeleteArgs {
    pub msg_id_hexes: Vec<String>,
}

/// Result of `inbox_delete`.
#[derive(Debug, Clone)]
pub struct InboxDeleteResult {
    pub removed: usize,
}

/// What a stored inbox line is.
#[derive(Debug, Clone)]
pub enum InboxLine {
    /// Blank after trimming: skipped.
    Blank,
    /// Sealed under the key; the opened record.
    Sealed(Vec<u8>),
    /// Not sealed under the key; the trimmed line, which may be a row
    /// left in plaintext by an older build.
    Unsealed(String),
}

/// Read one stored line under `key`.
pub fn classify_line(key: &[u8], line: &str) -> (r: InboxLine)
    ensures
        ({
            let t = trim_seq(line@);
            if t.len() == 0 {
                r is Blank
            } else {
                match open_spec(key@, t) {
                    Some(p) => r matches InboxLine::Sealed(q) && q@ == p,
                    None => r matches InboxLine::Unsealed(s) && s@ == t,
                }
            }
        }),
{
    let t = trim(line);
    if t.as_str().is_empty() {
        return InboxLine::Blank;
    }
    match open(key, t.as_str()) {
        Some(p) => InboxLine::Sealed(p),
        None => InboxLine::Unsealed(t),
    }
}

/// The message ids of `msgs`, in order.
pub open spec fn ids(msgs: Seq<PersistedInboxMessage>) -> Seq<Seq<char>> {
    msgs.map_values(|m: PersistedInboxMessage| m.msg_id_hex@)
}

/// The messages of a batch an append keeps: each whose id is neither in
/// the log nor taken by an earlier kept message of the batch, in order.
pub open spec fn fresh_messages(
    log_ids: Seq<Seq<char>>,
    batch: Seq<PersistedInboxMessage>,
) -> Seq<PersistedInboxMessage>
    decreases batch.len(),
{
    if batch.len() == 0 {
        seq![]
    } else {
        let kept = fresh_messages(log_ids, batch.drop_last());
        let m = batch.last();
        if log_ids.contains(m.msg_id_hex@) || ids(kept).contains(m.msg_id_hex@) {
            kept
        } else {
            kept.push(m)
        }
    }
}

/// Whether `s` holds no string twice.
pub open spec fn distinct(s: Seq<Seq<char>>) -> bool {
    forall|i: int, j: int| 0 <= i < j < s.len() ==> s[i] != s[j]
}

/// Whether `id` is one of `v`.
pub fn contains_id(v: &Vec<String>, id: &str) -> (b: bool)
    ensures
        b == v@.map_values(|s: String| s@).contains(id@),
{
    let ghost vs = v@.map_values(|s: String| s@);
    let mut i: usize = 0;
    while i < v.len()
        invariant
            i <= v@.len(),
            vs == v@.map_values(|s: String| s@),
            forall|k: int| 0 <= k < i ==> vs[k] != id@,
        decreases v@.len() - i,
    {
        if str_eq(v[i].as_str(), id) {
            assert(vs[i as int] == id@);
            return true;
        }
        i = i + 1;
    }
    false
}

/// The ids of a list of strings.
pub open spec fn strs(v: Seq<String>) -> Seq<Seq<char>> {
    v.map_values(|s: String| s@)
}

/// The messages of `batch` an append adds to a log holding `log`: those
/// whose ids are new, first occurrence winning.
pub fn fresh_for_append(log: &Vec<PersistedInboxMessage>, batch: Vec<PersistedInboxMessage>) -> (r: Vec<
    PersistedInboxMessage,
>)
    ensures
        r@ == fresh_messages(ids(log@), batch@),
{
    let mut seen: Vec<String> = Vec::new();
    let mut i: usize = 0;
    while i < log.len()
        invariant
            i <= log@.len(),
            strs(seen@) == ids(log@).take(i as int),
        decreases log@.len() - i,
    {
        let ghost before = seen@;
        seen.push(log[i].msg_id_hex.clone());
        proof {
            assert(strs(seen@) =~= strs(before).push(log@[i as int].msg_id_hex@));
            assert(ids(log@)[i as int] == log@[i as int].msg_id_hex@);
            assert(ids(log@).take(i + 1) =~= ids(log@).take(i as int).push(ids(log@)[i as int]));
        }
        i = i + 1;
    }
    assert(ids(log@).take(log@.len() as int) =~= ids(log@));
    let ghost all = batch@;
    let ghost log_ids = ids(log@);
    let mut out: Vec<PersistedInboxMessage> = Vec::new();
    for m in it: batch.into_iter()
        invariant
            it.seq() == all,
            log_ids == ids(log@),
            out@ == fresh_messages(log_ids, all.take(it.index() as int)),
            strs(seen@) == log_ids + ids(out@),
    {
        let ghost k = it.index() as int;
        proof {
            assert(all.take(k + 1).drop_last() =~= all.take(k));
            assert(all.take(k + 1).last() == m);
            let kept = fresh_messages(log_ids, all.take(k));
            assert((log_ids + ids(kept)).contains(m.msg_id_hex@) <==> (log_ids.contains(
                m.msg_id_hex@,
            ) || ids(kept).contains(m.msg_id_hex@))) by {
                if (log_ids + ids(kept)).contains(m.msg_id_hex@) {
                    let w = choose|w: int| 0 <= w < (log_ids + ids(kept)).len() && (log_ids + ids(kept))[w] == m.msg_id_hex@;
                    if w < log_ids.len() {
                        assert(log_ids[w] == m.msg_id_hex@);
                    } else {
                        assert(ids(kept)[w - log_ids.len()] == m.msg_id_hex@);
                    }
                }
                if log_ids.contains(m.msg_id_hex@) {
                    let w = choose|w: int| 0 <= w < log_ids.len() && log_ids[w] == m.msg_id_hex@;
                    assert((log_ids + ids(kept))[w] == m.msg_id_hex@);
                }
                if ids(kept).contains(m.msg_id_hex@) {
                    let w = choose|w: int| 0 <= w < ids(kept).len() && ids(kept)[w] == m.msg_id_hex@;
                    assert((log_ids + ids(kept))[log_ids.len() + w] == m.msg_id_hex@);
                }
            }
        }
        if !contains_id(&seen, m.msg_id_hex.as_str()) {
            let ghost before_seen = seen@;
            seen.push(m.msg_id_hex.clone());
            let ghost before = out@;
            let ghost mid = m.msg_id_hex@;
            out.push(m);
            proof {
                assert(strs(seen@) =~= strs(before_seen).push(mid));
                assert(ids(out@) =~= ids(before).push(mid));
                assert(strs(seen@) =~= log_ids + ids(out@));
            }
        }
    }
    proof {
        assert(all.take(all.len() as int) =~= all);
    }
    out
}

/// An append never brings an id already in the log, nor one twice.
pub proof fn law_fresh_ids_are_new(log_ids: Seq<Seq<char>>, batch: Seq<PersistedInboxMessage>)
    requires
        distinct(log_ids),
    ensures
        distinct(log_ids + ids(fresh_messages(log_ids, batch))),
    decreases batch.len(),
{
    if batch.len() > 0 {
        law_fresh_ids_are_new(log_ids, batch.drop_last());
        let kept = fresh_messages(log_ids, batch.drop_last());
        let m = batch.last();
        if !(log_ids.contains(m.msg_id_hex@) || ids(kept).contains(m.msg_id_hex@)) {
            let all = log_ids + ids(kept.push(m));
            assert(all =~= (log_ids + ids(kept)).push(m.msg_id_hex@));
            assert forall|i: int, j: int| 0 <= i < j < all.len() implies all[i] != all[j] by {
                if j == all.len() - 1 {
                    if i < log_ids.len() {
                        assert(log_ids[i] == all[i]);
                    } else {
                        assert(ids(kept)[i - log_ids.len()] == all[i]);
                    }
                }
            }
        }
    }
}

/// Appending a batch a second time adds nothing.
pub proof fn law_append_twice_adds_nothing(
    log_ids: Seq<Seq<char>>,
    batch: Seq<PersistedInboxMessage>,
)
    ensures
        fresh_messages(log_ids + ids(fresh_messages(log_ids, batch)), batch).len() == 0,
    decreases batch.len(),
{
    lemma_fresh_covers(log_ids, batch);
    lemma_nothing_fresh(log_ids + ids(fresh_messages(log_ids, batch)), batch);
}

/// Every id of a batch ends up in the log or among the kept messages.
proof fn lemma_fresh_covers(log_ids: Seq<Seq<char>>, batch: Seq<PersistedInboxMessage>)
    ensures
        forall|k: int|
            0 <= k < batch.len() ==> (log_ids + ids(fresh_messages(log_ids, batch))).contains(
                #[trigger] batch[k].msg_id_hex@,
            ),
    decreases batch.len(),
{
    if batch.len() > 0 {
        let prev = batch.drop_last();
        lemma_fresh_covers(log_ids, prev);
        let kept = fresh_messages(log_ids, prev);
        let now = fresh_messages(log_ids, batch);
        let m = batch.last();
        assert forall|k: int| 0 <= k < batch.len() implies (log_ids + ids(now)).contains(
            #[trigger] batch[k].msg_id_hex@,
        ) by {
            let id = batch[k].msg_id_hex@;
            let old_all = log_ids + ids(kept);
            let new_all = log_ids + ids(now);
            if k < prev.len() {
                assert(prev[k] == batch[k]);
                assert(old_all.contains(id));
                let w = choose|w: int| 0 <= w < old_all.len() && old_all[w] == id;
                if now != kept {
                    assert(ids(now) =~= ids(kept).push(m.msg_id_hex@));
                }
                assert(new_all[w] == old_all[w]);
            } else {
                assert(batch[k] == m);
                if log_ids.contains(id) {
                    let w = choose|w: int| 0 <= w < log_ids.len() && log_ids[w] == id;
                    assert(new_all[w] == id);
                } else if ids(kept).contains(id) {
                    let w = choose|w: int| 0 <= w < ids(kept).len() && ids(kept)[w] == id;
                    assert(new_all[log_ids.len() + w] == id);
                } else {
                    assert(ids(now) =~= ids(kept).push(id));
                    assert(new_all[new_all.len() - 1] == id);
                }
            }
        }
    }
}

/// A batch whose ids are all known contributes nothing.
proof fn lemma_nothing_fresh(known: Seq<Seq<char>>, batch: Seq<PersistedInboxMessage>)
    requires
        forall|k: int| 0 <= k < batch.len() ==> known.contains(#[trigger] batch[k].msg_id_hex@),
    ensures
        fresh_messages(known, batch).len() == 0,
    decreases batch.len(),
{
    if batch.len() > 0 {
        let prev = batch.drop_last();
        assert forall|k: int| 0 <= k < prev.len() implies known.contains(
            #[trigger] prev[k].msg_id_hex@,
        ) by {
            assert(prev[k] == batch[k]);
        }
        lemma_nothing_fresh(known, prev);
        assert(batch[batch.len() - 1] == batch.last());
    }
}

/// Whether `target` names `id`, ignoring ASCII case.
pub open spec fn targeted(targets: Seq<Seq<char>>, id: Seq<char>) -> bool {
    targets.map_values(|t: Seq<char>| ascii_lower(t)).contains(ascii_lower(id))
}

/// The rows a delete keeps: those not targeted, in order.
pub open spec fn delete_kept_spec(rows: Seq<PersistedInboxMessage>, targets: Seq<Seq<char>>) -> Seq<
    PersistedInboxMessage,
> {
    rows.filter(|m: PersistedInboxMessage| !targeted(targets, m.msg_id_hex@))
}

/// ASCII-lower-cased copies of `v`.
fn lower_all(v: &Vec<String>) -> (r: Vec<String>)
    ensures
        strs(r@) == strs(v@).map_values(|t: Seq<char>| ascii_lower(t)),
{
    let mut out: Vec<String> = Vec::new();
    let mut i: usize = 0;
    while i < v.len()
        invariant
            i <= v@.len(),
            strs(out@) == strs(v@).map_values(|t: Seq<char>| ascii_lower(t)).take(i as int),
        decreases v@.len() - i,
    {
        let ghost before = out@;
        let l = to_ascii_lowercase(v[i].as_str());
        out.push(l);
        proof {
            let full = strs(v@).map_values(|t: Seq<char>| ascii_lower(t));
            assert(strs(out@) =~= strs(before).push(ascii_lower(v@[i as int]@)));
            assert(full[i as int] == ascii_lower(v@[i as int]@));
            assert(full.take(i + 1) =~= full.take(i as int).push(full[i as int]));
        }
        i = i + 1;
    }
    assert(strs(v@).map_values(|t: Seq<char>| ascii_lower(t)).take(v@.len() as int) =~= strs(
        v@,
    ).map_values(|t: Seq<char>| ascii_lower(t)));
    out
}

/// What a delete does to the log: the rows kept and the ids removed.
#[derive(Debug, Clone)]
pub struct DeletePlan {
    pub kept: Vec<PersistedInboxMessage>,
    pub removed_ids: Vec<String>,
}

/// Split the log into the rows a delete keeps and the ids it removes;
/// ids match their targets ignoring ASCII case.
pub fn plan_delete(rows: Vec<PersistedInboxMessage>, targets: &Vec<String>) -> (r: DeletePlan)
    ensures
        r.kept@ == delete_kept_spec(rows@, strs(targets@)),
        strs(r.removed_ids@) == ids(
            rows@.filter(|m: PersistedInboxMessage| targeted(strs(targets@), m.msg_id_hex@)),
        ),
{
    let lowered = lower_all(targets);
    let ghost tv = strs(targets@);
    let ghost keep = |m: PersistedInboxMessage| !targeted(tv, m.msg_id_hex@);
    let ghost drop = |m: PersistedInboxMessage| targeted(tv, m.msg_id_hex@);
    let ghost all = rows@;
    let mut kept: Vec<PersistedInboxMessage> = Vec::new();
    let mut removed_ids: Vec<String> = Vec::new();
    for m in it: rows.into_iter()
        invariant
            it.seq() == all,
            tv == strs(targets@),
            strs(lowered@) == tv.map_values(|t: Seq<char>| ascii_lower(t)),
            keep == (|m: PersistedInboxMessage| !targeted(tv, m.msg_id_hex@)),
            drop == (|m: PersistedInboxMessage| targeted(tv, m.msg_id_hex@)),
            kept@ == all.take(it.index() as int).filter(keep),
            strs(removed_ids@) == ids(all.take(it.index() as int).filter(drop)),
    {
        let ghost k = it.index() as int;
        proof {
            assert(all.take(k + 1).drop_last() =~= all.take(k));
            assert(all.take(k + 1).last() == m);
            reveal(Seq::filter);
        }
        let lower = to_ascii_lowercase(m.msg_id_hex.as_str());
        let hit = contains_id(&lowered, lower.as_str());
        let ghost before_removed = removed_ids@;
        if hit {
            removed_ids.push(m.msg_id_hex.clone());
            proof {
                let f = all.take(k).filter(drop);
                assert(ids(f.push(m)) =~= ids(f).push(m.msg_id_hex@));
                assert(strs(removed_ids@) =~= strs(before_removed).push(m.msg_id_hex@));
            }
        } else {
            kept.push(m);
        }
    }
    proof {
        assert(all.take(all.len() as int) =~= all);
    }
    DeletePlan { kept, removed_ids }
}

/// What the read-state set keeps after a delete: ids neither targeted
/// (ignoring ASCII case) nor among the removed ones.
pub fn retain_read_set(read_set: Vec<String>, targets: &Vec<String>, removed_ids: &Vec<String>) -> (r: Vec<
    String,
>)
    ensures
        r@ == read_set@.filter(
            |id: String| !targeted(strs(targets@), id@) && !strs(removed_ids@).contains(id@),
        ),
{
    let lowered = lower_all(targets);
    let ghost tv = strs(targets@);
    let ghost rv = strs(removed_ids@);
    let ghost pred = |id: String| !targeted(tv, id@) && !rv.contains(id@);
    let ghost all = read_set@;
    let mut out: Vec<String> = Vec::new();
    for id in it: read_set.into_iter()
        invariant
            it.seq() == all,
            tv == strs(targets@),
            rv == strs(removed_ids@),
            strs(lowered@) == tv.map_values(|t: Seq<char>| ascii_lower(t)),
            pred == (|id: String| !targeted(tv, id@) && !rv.contains(id@)),
            out@ == all.take(it.index() as int).filter(pred),
    {
        let ghost k = it.index() as int;
        proof {
            assert(all.take(k + 1).drop_last() =~= all.take(k));
            assert(all.take(k + 1).last() == id);
            reveal(Seq::filter);
        }
        let lower = to_ascii_lowercase(id.as_str());
        if !contains_id(&lowered, lower.as_str()) && !contains_id(removed_ids, id.as_str()) {
            out.push(id);
        }
    }
    proof {
        assert(all.take(all.len() as int) =~= all);
    }
    out
}

/// Mark `id` read; reports whether the set changed. An empty id is
/// ignored.
pub fn mark_read(set: &mut Vec<String>, id: String) -> (changed: bool)
    ensures
        changed == (id@.len() > 0 && !strs(old(set)@).contains(id@)),
        final(set)@ == (if changed {
            old(set)@.push(id)
        } else {
            old(set)@
        }),
{
    if id.as_str().is_empty() {
        return false;
    }
    if contains_id(set, id.as_str()) {
        return false;
    }
    set.push(id);
    true
}

/// Marking read keeps the read-state set free of duplicates.
pub proof fn law_mark_read_keeps_distinct(set: Seq<String>, id: String)
    requires
        distinct(strs(set)),
    ensures
        distinct(strs(if id@.len() > 0 && !strs(set).contains(id@) { set.push(id) } else { set })),
{
    if id@.len() > 0 && !strs(set).contains(id@) {
        assert(strs(set.push(id)) =~= strs(set).push(id@));
        let s2 = strs(set).push(id@);
        assert forall|i: int, j: int| 0 <= i < j < s2.len() implies s2[i] != s2[j] by {
            if j == s2.len() - 1 {
                assert(s2[i] == strs(set)[i]);
            }
        }
    }
}

/// Mark every message of the log read; reports whether the set changed.
pub fn mark_all_read(set: &mut Vec<String>, messages: &Vec<PersistedInboxMessage>) -> (changed: bool)
    ensures
        forall|k: int|
            0 <= k < messages@.len() ==> strs(final(set)@).contains(#[trigger] messages@[k].msg_id_hex@),
        forall|k: int|
            0 <= k < old(set)@.len() ==> strs(final(set)@).contains(#[trigger] strs(old(set)@)[k]),
        changed == exists|k: int|
            0 <= k < messages@.len() && !strs(old(set)@).contains(#[trigger] messages@[k].msg_id_hex@),
        final(set)@.len() >= old(set)@.len(),
        strs(final(set)@).take(old(set)@.len() as int) == strs(old(set)@),
        forall|k: int|
            old(set)@.len() <= k < final(set)@.len() ==> ids(messages@).contains(
                #[trigger] strs(final(set)@)[k],
            ),
        distinct(strs(old(set)@)) ==> distinct(strs(final(set)@)),
{
    let mut changed = false;
    let mut i: usize = 0;
    let ghost start = set@;
    while i < messages.len()
        invariant
            i <= messages@.len(),
            start == old(set)@,
            strs(set@).take(start.len() as int) == strs(start),
            set@.len() >= start.len(),
            forall|k: int| 0 <= k < i ==> strs(set@).contains(#[trigger] messages@[k].msg_id_hex@),
            forall|k: int|
                0 <= k < set@.len() - start.len() ==> exists|j: int|
                    0 <= j < i && #[trigger] strs(set@)[start.len() + k] == messages@[j].msg_id_hex@,
            changed == exists|k: int|
                0 <= k < i && !strs(start).contains(#[trigger] messages@[k].msg_id_hex@),
            distinct(strs(start)) ==> distinct(strs(set@)),
        decreases messages@.len() - i,
    {
        let id = messages[i].msg_id_hex.clone();
        let present = contains_id(set, id.as_str());
        let ghost before = set@;
        if !present {
            set.push(id);
            changed = true;
            proof {
                assert(strs(set@) =~= strs(before).push(messages@[i as int].msg_id_hex@));
                assert(strs(set@)[set@.len() - 1] == messages@[i as int].msg_id_hex@);
                if distinct(strs(start)) {
                    let s2 = strs(set@);
                    assert forall|a: int, b: int| 0 <= a < b < s2.len() implies s2[a] != s2[b] by {
                        if b == s2.len() - 1 {
                            assert(s2[a] == strs(before)[a]);
                        } else {
                            assert(s2[a] == strs(before)[a]);
                            assert(s2[b] == strs(before)[b]);
                        }
                    }
                }
                assert(strs(set@).take(start.len() as int) =~= strs(before).take(start.len() as int));
                assert forall|k: int| 0 <= k <= i implies strs(set@).contains(
                    #[trigger] messages@[k].msg_id_hex@,
                ) by {
                    if k < i {
                        let w = choose|w: int| 0 <= w < strs(before).len() && strs(before)[w] == messages@[k].msg_id_hex@;
                        assert(strs(set@)[w] == strs(before)[w]);
                    } else {
                        assert(strs(set@)[set@.len() - 1] == messages@[k].msg_id_hex@);
                    }
                }
                assert forall|k: int| 0 <= k < set@.len() - start.len() implies exists|j: int|
                    0 <= j < i + 1 && #[trigger] strs(set@)[start.len() + k]
                        == messages@[j].msg_id_hex@ by {
                    if k < before.len() - start.len() {
                        assert(strs(set@)[start.len() + k] == strs(before)[start.len() + k]);
                    } else {
                        assert(strs(set@)[start.len() + k] == messages@[i as int].msg_id_hex@);
                    }
                }
                assert(!strs(start).contains(messages@[i as int].msg_id_hex@)) by {
                    if strs(start).contains(messages@[i as int].msg_id_hex@) {
                        let w = choose|w: int| 0 <= w < strs(start).len() && strs(start)[w] == messages@[i as int].msg_id_hex@;
                        assert(strs(before).take(start.len() as int)[w] == strs(start)[w]);
                        assert(strs(before)[w] == messages@[i as int].msg_id_hex@);
                    }
                }
            }
        } else {
            proof {
                assert(strs(before).contains(messages@[i as int].msg_id_hex@));
                if strs(start).contains(messages@[i as int].msg_id_hex@) {
                } else {
                    let w = choose|w: int| 0 <= w < strs(before).len() && strs(before)[w] == messages@[i as int].msg_id_hex@;
                    if w < start.len() {
                        assert(strs(before).take(start.len() as int)[w] == strs(start)[w]);
                        assert(false);
                    } else {
                        let j = choose|j: int| 0 <= j < i && #[trigger] strs(before)[start.len() + (w - start.len())] == messages@[j].msg_id_hex@;
                        assert(!strs(start).contains(messages@[j].msg_id_hex@));
                    }
                }
            }
        }
        i = i + 1;
    }
    proof {
        assert forall|k: int| 0 <= k < old(set)@.len() implies strs(set@).contains(
            #[trigger] strs(old(set)@)[k],
        ) by {
            assert(strs(set@).take(start.len() as int)[k] == strs(start)[k]);
            assert(strs(set@)[k] == strs(start)[k]);
        }
        assert forall|k: int| old(set)@.len() <= k < set@.len() implies ids(messages@).contains(
            #[trigger] strs(set@)[k],
        ) by {
            assert(strs(set@)[start.len() + (k - start.len())] == strs(set@)[k]);
            let j = choose|j: int|
                0 <= j < i && #[trigger] strs(set@)[start.len() + (k - start.len())]
                    == messages@[j].msg_id_hex@;
            assert(ids(messages@)[j] == strs(set@)[k]);
        }
    }
    changed
}

/// The UI rows for `messages`: each with its read flag set exactly when
/// its id is in the read-state set.
pub fn rows_with_read(messages: Vec<PersistedInboxMessage>, read_set: &Vec<String>) -> (r: Vec<InboxRow>)
    ensures
        r@.len() == messages@.len(),
        forall|k: int|
            0 <= k < r@.len() ==> {
                let m = messages@[k];
                let row = #[trigger] r@[k];
                &&& row.sender_signing_pk_hex == m.sender_signing_pk_hex
                &&& row.msg_id_hex == m.msg_id_hex
                &&& row.timestamp == m.timestamp
                &&& row.plaintext_utf8 == m.plaintext_utf8
                &&& row.plaintext_bytes == m.plaintext_bytes
                &&& row.sender_label == m.sender_label
                &&& row.read == strs(read_set@).contains(m.msg_id_hex@)
            },
{
    let ghost all = messages@;
    let mut out: Vec<InboxRow> = Vec::new();
    for m in it: messages.into_iter()
        invariant
            it.seq() == all,
            out@.len() == it.index(),
            forall|k: int|
                0 <= k < out@.len() ==> {
                    let m = all[k];
                    let row = #[trigger] out@[k];
                    &&& row.sender_signing_pk_hex == m.sender_signing_pk_hex
                    &&& row.msg_id_hex == m.msg_id_hex
                    &&& row.timestamp == m.timestamp
                    &&& row.plaintext_utf8 == m.plaintext_utf8
                    &&& row.plaintext_bytes == m.plaintext_bytes
                    &&& row.sender_label == m.sender_label
                    &&& row.read == strs(read_set@).contains(m.msg_id_hex@)
                },
    {
        let read = contains_id(read_set, m.msg_id_hex.as_str());
        let ghost mm = m;
        proof {
            assert(mm == all[it.index() as int]);
        }
        out.push(
            InboxRow {
                sender_signing_pk_hex: m.sender_signing_pk_hex,
                msg_id_hex: m.msg_id_hex,
                timestamp: m.timestamp,
                plaintext_utf8: m.plaintext_utf8,
                plaintext_bytes: m.plaintext_bytes,
                sender_label: m.sender_label,
                read,
            },
        );
    }
    out
}

/// The ids of a loaded read-state file as a set: first occurrences, in
/// order.
pub fn dedupe_ids(ids_in: Vec<String>) -> (r: Vec<String>)
    ensures
        distinct(strs(r@)),
        forall|k: int| 0 <= k < ids_in@.len() ==> strs(r@).contains(#[trigger] strs(ids_in@)[k]),
        forall|k: int| 0 <= k < r@.len() ==> strs(ids_in@).contains(#[trigger] strs(r@)[k]),
{
    let ghost all = ids_in@;
    let mut out: Vec<String> = Vec::new();
    let mut i: usize = 0;
    while i < ids_in.len()
        invariant
            i <= ids_in@.len(),
            all == ids_in@,
            distinct(strs(out@)),
            forall|k: int| 0 <= k < i ==> strs(out@).contains(#[trigger] strs(all)[k]),
            forall|k: int| 0 <= k < out@.len() ==> strs(all).contains(#[trigger] strs(out@)[k]),
        decreases ids_in@.len() - i,
    {
        let id = ids_in[i].clone();
        let ghost idv = strs(all)[i as int];
        assert(id@ == idv);
        let ghost before = out@;
        if !contains_id(&out, id.as_str()) {
            out.push(id);
            proof {
                assert(strs(out@) =~= strs(before).push(idv));
                let s2 = strs(out@);
                assert forall|p: int, q: int| 0 <= p < q < s2.len() implies s2[p] != s2[q] by {
                    if q == s2.len() - 1 {
                        assert(s2[p] == strs(before)[p]);
                    }
                }
                assert forall|k: int| 0 <= k <= i implies strs(out@).contains(#[trigger] strs(all)[k]) by {
                    if k < i {
                        let w = choose|w: int| 0 <= w < strs(before).len() && strs(before)[w] == strs(all)[k];
                        assert(s2[w] == strs(before)[w]);
                    } else {
                        assert(s2[s2.len() - 1] == idv);
                    }
                }
                assert forall|k: int| 0 <= k < out@.len() implies strs(all).contains(#[trigger] strs(out@)[k]) by {
                    if k < before.len() {
                        assert(s2[k] == strs(before)[k]);
                    } else {
                        assert(strs(all)[i as int] == s2[k]);
                    }
                }
            }
        }
        i = i + 1;
    }
    out
}

/// Whether `a[i..]` is at most `b[i..]` in character order, which is
/// the byte order of their UTF-8.
pub open spec fn lex_le_from(a: Seq<char>, b: Seq<char>, i: int) -> bool
    decreases a.len() - i,
{
    if i >= a.len() {
        true
    } else if i >= b.len() {
        false
    } else if a[i] != b[i] {
        (a[i] as u32) < (b[i] as u32)
    } else {
        lex_le_from(a, b, i + 1)
    }
}

/// Whether `a` sorts no later than `b`.
pub open spec fn lex_le(a: Seq<char>, b: Seq<char>) -> bool {
    lex_le_from(a, b, 0)
}

/// Whether `a` sorts no later than `b`.
fn lex_le_exec(a: &[char], b: &[char]) -> (r: bool)
    ensures
        r == lex_le(a@, b@),
{
    let mut i: usize = 0;
    while i < a.len() && i < b.len() && a[i] == b[i]
        invariant
            i <= a@.len(),
            i <= b@.len(),
            lex_le_from(a@, b@, 0) == lex_le_from(a@, b@, i as int),
        decreases a@.len() - i,
    {
        i = i + 1;
    }
    if i >= a.len() {
        true
    } else if i >= b.len() {
        false
    } else {
        (a[i] as u32) < (b[i] as u32)
    }
}

/// Where an id goes among sorted ids: after every id sorting no later.
pub open spec fn id_pos_ok(s: Seq<Seq<char>>, x: Seq<char>, p: int) -> bool {
    0 <= p <= s.len() && (forall|i: int| 0 <= i < p ==> lex_le(s[i], x)) && (p == s.len()
        || !lex_le(s[p], x))
}

/// The position `id_pos_ok` describes.
pub open spec fn id_pos(s: Seq<Seq<char>>, x: Seq<char>) -> int {
    choose|p: int| id_pos_ok(s, x, p)
}

/// `ids` in character order, ties in their original order.
pub open spec fn sorted_ids_spec(ids: Seq<Seq<char>>) -> Seq<Seq<char>>
    decreases ids.len(),
{
    if ids.len() == 0 {
        seq![]
    } else {
        let t = sorted_ids_spec(ids.drop_last());
        let x = ids.last();
        let p = id_pos(t, x);
        t.take(p).push(x) + t.skip(p)
    }
}

proof fn lemma_id_pos(s: Seq<Seq<char>>, x: Seq<char>, p: int)
    requires
        id_pos_ok(s, x, p),
    ensures
        id_pos(s, x) == p,
{
    let w = id_pos(s, x);
    assert(id_pos_ok(s, x, w));
    if w < p {
        assert(lex_le(s[w], x));
    } else if p < w {
        assert(lex_le(s[p], x));
    }
}

/// The read-state set in the order it is written: sorted by character,
/// as the original sorts the ids before serialising them.
pub fn sorted_ids(ids: Vec<String>) -> (r: Vec<String>)
    ensures
        strs(r@) == sorted_ids_spec(strs(ids@)),
{
    let ghost all = strs(ids@);
    let mut out: Vec<String> = Vec::new();
    let mut k: usize = 0;
    let ghost orig = ids@;
    let mut rest = ids;
    let mut taken: Vec<String> = Vec::new();
    proof {
        assert(all.take(0) =~= Seq::<Seq<char>>::empty());
    }
    for id in it: rest.into_iter()
        invariant
            it.seq() == orig,
            all == strs(orig),
            strs(out@) == sorted_ids_spec(all.take(it.index() as int)),
    {
        let ghost j = it.index() as int;
        let ghost t = strs(out@);
        let ghost x = id@;
        proof {
            assert(all.take(j + 1).drop_last() =~= all.take(j));
            assert(all.take(j + 1).last() == x);
        }
        let xv = crate::text::chars_of(id.as_str());
        let mut p: usize = 0;
        while p < out.len() && lex_le_exec(crate::text::chars_of(out[p].as_str()).as_slice(), xv.as_slice())
            invariant
                p <= out@.len(),
                t == strs(out@),
                xv@ == x,
                forall|i: int| 0 <= i < p ==> lex_le(t[i], x),
            decreases out@.len() - p,
        {
            p = p + 1;
        }
        proof {
            lemma_id_pos(t, x, p as int);
        }
        out.insert(p, id);
        proof {
            assert(strs(out@) =~= t.take(p as int).push(x) + t.skip(p as int));
        }
    }
    proof {
        assert(all.take(orig.len() as int) =~= all);
    }
    out
}

} // verus!
