//! Sending and receiving: the send preconditions, the views of delivered
//! messages, the zones a receive walks and the per-manifest verdict the
//! diagnostic reports.

use vstd::prelude::*;
use crate::bytes::bytes_eq;
use crate::error::{no_details, err, err_view, CommandError, ErrorView};
use crate::hexcodec::{hex_encode, hex_encode_spec};
use crate::inbox::strs;
use crate::text::{decimal, decimal_string, str_eq, trim, trim_seq};
use vstd::string::StringExecFns;

verus! {

/// Arguments of `send_message`.
#[derive(Debug, Clone)]
pub struct SendMessageArgs {
    /// Recipient username; must be a pinned contact.
    pub recipient_username: String,
    pub plaintext: String,
}

/// Result of `send_message`: the 16-byte message id in hex.
#[derive(Debug, Clone)]
pub struct SendMessageResult {
    pub msg_id_hex: String,
}

/// One delivered message as the UI shows it.
#[derive(Debug, Clone)]
pub struct InboxMessageView {
    pub sender_signing_pk_hex: String,
    pub msg_id_hex: String,
    pub timestamp: u64,
    pub plaintext_utf8: String,
    pub plaintext_bytes: Vec<u8>,
}

/// One slot manifest a diagnostic walk found, and the verdict on it.
#[derive(Debug, Clone)]
pub struct ManifestSeen {
    pub zone: String,
    pub slot: u32,
    pub sender_spk_hex: String,
    pub msg_id_hex: String,
    pub decision: String,
    pub note: String,
}

/// Diagnostic snapshot of a receive walk.
#[derive(Debug, Clone)]
pub struct ReceiveDiagnostic {
    pub identity: String,
    pub recipient_id_hex: String,
    pub zones_polled: Vec<String>,
    pub slots_per_zone: u32,
    pub manifests_found: Vec<ManifestSeen>,
    pub pinned_contacts: usize,
    pub tofu_mode: bool,
    pub inbox_count: usize,
    pub notes: Vec<String>,
}

/// The diagnostic reported when no DNS reader could be built for the
/// walk: only the own zone is named, no manifest was seen, the count is
/// what the live receive returned, and a note says why.
pub fn inbox_only_diagnostic(
    identity: String,
    recipient_id_hex: String,
    domain: String,
    slots_per_zone: u32,
    inbox_count: usize,
    reader_error: &str,
) -> (d: ReceiveDiagnostic)
    ensures
        d.identity == identity,
        d.recipient_id_hex == recipient_id_hex,
        d.zones_polled@ == seq![domain],
        d.slots_per_zone == slots_per_zone,
        d.manifests_found@.len() == 0,
        d.pinned_contacts == 0,
        d.tofu_mode,
        d.inbox_count == inbox_count,
        d.notes@.len() == 1,
        d.notes@[0]@ == "diagnostic reader build failed: "@ + reader_error@
            + "; falling back to inbox-only count"@,
{
    let mut note = String::from_str("diagnostic reader build failed: ");
    note.append(reader_error);
    note.append("; falling back to inbox-only count");
    let mut notes: Vec<String> = Vec::new();
    notes.push(note);
    let mut zones_polled: Vec<String> = Vec::new();
    zones_polled.push(domain);
    ReceiveDiagnostic {
        identity,
        recipient_id_hex,
        zones_polled,
        slots_per_zone,
        manifests_found: Vec::new(),
        pinned_contacts: 0,
        tofu_mode: true,
        inbox_count,
        notes,
    }
}

/// The fields of a slot manifest that parsed and verified.
#[derive(Debug, Clone)]
pub struct ManifestFacts {
    pub sender_spk: Vec<u8>,
    pub msg_id: Vec<u8>,
    pub recipient_id: Vec<u8>,
    pub exp: u64,
}

/// Refuse a send without a publish destination or without a recipient.
pub fn check_send(publish_configured: bool, recipient_username: &str) -> (r: Result<(), CommandError>)
    ensures
        no_details(r),
        r is Ok <==> (publish_configured && trim_seq(recipient_username@).len() > 0),
        r matches Err(e) ==> err_view(e) == (if !publish_configured {
            (
                "publish_unconfigured"@,
                "send requires a configured publish (TSIG) destination — open Settings to add one"@,
            )
        } else {
            ("validation"@, "recipient_username must not be empty"@)
        }),
{
    if !publish_configured {
        return Err(
            err(
                "publish_unconfigured",
                String::from_str(
                    "send requires a configured publish (TSIG) destination — open Settings to add one",
                ),
            ),
        );
    }
    let t = trim(recipient_username);
    if t.as_str().is_empty() {
        return Err(err("validation", String::from_str("recipient_username must not be empty")));
    }
    Ok(())
}

/// What `String::from_utf8_lossy` makes of `bytes`: the text, with each
/// invalid sequence replaced by U+FFFD.
pub uninterp spec fn utf8_lossy(bytes: Seq<u8>) -> Seq<char>;

/// `String::from_utf8_lossy`.
///
/// Claims: the result is `utf8_lossy` of the bytes, and valid UTF-8 is
/// decoded as it is.
#[verifier::external_body]
pub(crate) fn lossy_text(bytes: &[u8]) -> (s: String)
    ensures
        s@ == utf8_lossy(bytes@),
        vstd::utf8::valid_utf8(bytes@) ==> s@ == vstd::utf8::decode_utf8(bytes@),
{
    String::from_utf8_lossy(bytes).into_owned()
}

/// The UI view of a delivered message: hex ids, the text lossily decoded
/// and the raw bytes.
pub fn inbox_message_view(sender_signing_pk: &[u8], msg_id: &[u8], timestamp: u64, plaintext: Vec<
    u8,
>) -> (v: InboxMessageView)
    ensures
        v.sender_signing_pk_hex@ == hex_encode_spec(sender_signing_pk@),
        v.msg_id_hex@ == hex_encode_spec(msg_id@),
        v.timestamp == timestamp,
        v.plaintext_utf8@ == utf8_lossy(plaintext@),
        v.plaintext_bytes == plaintext,
{
    let text = lossy_text(plaintext.as_slice());
    InboxMessageView {
        sender_signing_pk_hex: hex_encode(sender_signing_pk),
        msg_id_hex: hex_encode(msg_id),
        timestamp,
        plaintext_utf8: text,
        plaintext_bytes: plaintext,
    }
}

/// Zones a receive walks: the own zone first, then each non-empty
/// contact zone not yet listed, in contact order.
pub open spec fn poll_zones_spec(own: Seq<char>, domains: Seq<Seq<char>>) -> Seq<Seq<char>>
    decreases domains.len(),
{
    if domains.len() == 0 {
        seq![own]
    } else {
        let z = poll_zones_spec(own, domains.drop_last());
        let d = domains.last();
        if d.len() == 0 || z.contains(d) {
            z
        } else {
            z.push(d)
        }
    }
}

/// The zones a receive walks.
pub fn poll_zones(own: &str, contact_domains: &Vec<String>) -> (r: Vec<String>)
    ensures
        strs(r@) == poll_zones_spec(own@, strs(contact_domains@)),
{
    let mut zones: Vec<String> = Vec::new();
    zones.push(String::from_str(own));
    assert(strs(zones@) =~= poll_zones_spec(own@, strs(contact_domains@).take(0)));
    let mut i: usize = 0;
    while i < contact_domains.len()
        invariant
            i <= contact_domains@.len(),
            strs(zones@) == poll_zones_spec(own@, strs(contact_domains@).take(i as int)),
        decreases contact_domains@.len() - i,
    {
        let d = &contact_domains[i];
        let ghost dv = d@;
        proof {
            let pre = strs(contact_domains@).take(i + 1);
            assert(pre.drop_last() =~= strs(contact_domains@).take(i as int));
            assert(pre.last() == dv);
        }
        if !d.as_str().is_empty() && !crate::inbox::contains_id(&zones, d.as_str()) {
            let ghost before = zones@;
            zones.push(d.clone());
            assert(strs(zones@) =~= strs(before).push(dv));
        }
        i = i + 1;
    }
    assert(strs(contact_domains@).take(contact_domains@.len() as int) =~= strs(contact_domains@));
    zones
}

/// Receive walks never visit a zone twice.
pub proof fn law_poll_zones_distinct(own: Seq<char>, domains: Seq<Seq<char>>)
    ensures
        crate::inbox::distinct(poll_zones_spec(own, domains)),
        poll_zones_spec(own, domains).len() >= 1,
        poll_zones_spec(own, domains)[0] == own,
    decreases domains.len(),
{
    if domains.len() > 0 {
        law_poll_zones_distinct(own, domains.drop_last());
        let z = poll_zones_spec(own, domains.drop_last());
        let d = domains.last();
        if !(d.len() == 0 || z.contains(d)) {
            let z2 = z.push(d);
            assert forall|i: int, j: int| 0 <= i < j < z2.len() implies z2[i] != z2[j] by {
                if j == z.len() {
                    assert(z2[i] == z[i]);
                }
            }
        }
    }
}

/// The first `n` characters of `s`, or all of it when shorter.
pub open spec fn prefix_of(s: Seq<char>, n: int) -> Seq<char> {
    if s.len() <= n {
        s
    } else {
        s.subrange(0, n)
    }
}

/// The verdict a diagnostic records for one TXT: its decision and note.
pub open spec fn verdict_spec(
    name: Seq<char>,
    facts: Option<(Seq<u8>, Seq<u8>, Seq<u8>, u64)>,
    expired: bool,
    recipient_id: Seq<u8>,
    recipient_id_hex: Seq<char>,
    pinned: Seq<Seq<u8>>,
    tofu_mode: bool,
    now: u64,
) -> (Seq<char>, Seq<char>) {
    match facts {
        None => ("signature_invalid"@, "TXT under "@ + name + " did not parse / verify"@),
        Some((sender, _msg, rid, exp)) => if rid != recipient_id {
            (
                "recipient_mismatch"@,
                "manifest names recipient_id "@ + hex_encode_spec(rid) + " but ours is "@
                    + recipient_id_hex,
            )
        } else if expired {
            ("expired"@, "exp="@ + decimal(exp as nat) + " (now="@ + decimal(now as nat) + ")"@)
        } else if pinned.contains(sender) {
            ("deliverable_pinned"@, seq![])
        } else if tofu_mode {
            ("deliverable_tofu"@, "no pinned contacts; TOFU mode accepts any verified manifest"@)
        } else {
            (
                "quarantine_intro"@,
                "sender "@ + prefix_of(hex_encode_spec(sender), 16)
                    + " is not in your pinned contacts — would land in the intro queue"@,
            )
        },
    }
}

/// How a manifest is classified, in order: one that did not verify is
/// `signature_invalid`; one naming another recipient is
/// `recipient_mismatch` whatever its expiry, pin or TOFU state; one for
/// us that expired is `expired`; then a pinned sender is deliverable, an
/// unpinned one is deliverable in TOFU mode and quarantined otherwise.
pub proof fn law_manifest_decisions(
    name: Seq<char>,
    sender: Seq<u8>,
    msg_id: Seq<u8>,
    rid: Seq<u8>,
    exp: u64,
    expired: bool,
    recipient_id: Seq<u8>,
    recipient_id_hex: Seq<char>,
    pinned: Seq<Seq<u8>>,
    tofu_mode: bool,
    now: u64,
)
    ensures
        verdict_spec(name, None, expired, recipient_id, recipient_id_hex, pinned, tofu_mode, now).0
            == "signature_invalid"@,
        ({
            let v = verdict_spec(
                name,
                Some((sender, msg_id, rid, exp)),
                expired,
                recipient_id,
                recipient_id_hex,
                pinned,
                tofu_mode,
                now,
            );
            &&& rid != recipient_id ==> v.0 == "recipient_mismatch"@
            &&& rid != recipient_id ==> v.1 == "manifest names recipient_id "@ + hex_encode_spec(rid)
                + " but ours is "@ + recipient_id_hex
            &&& rid == recipient_id && expired ==> v.0 == "expired"@
            &&& rid == recipient_id && !expired && pinned.contains(sender) ==> v.0
                == "deliverable_pinned"@
            &&& rid == recipient_id && !expired && !pinned.contains(sender) && tofu_mode ==> v.0
                == "deliverable_tofu"@
            &&& rid == recipient_id && !expired && !pinned.contains(sender) && !tofu_mode ==> v.0
                == "quarantine_intro"@
        }),
{
}

/// Whether `v` holds the byte string `b`.
fn contains_bytes(v: &Vec<Vec<u8>>, b: &[u8]) -> (r: bool)
    ensures
        r == v@.map_values(|x: Vec<u8>| x@).contains(b@),
{
    let ghost vs = v@.map_values(|x: Vec<u8>| x@);
    let mut i: usize = 0;
    while i < v.len()
        invariant
            i <= v@.len(),
            vs == v@.map_values(|x: Vec<u8>| x@),
            forall|k: int| 0 <= k < i ==> vs[k] != b@,
        decreases v@.len() - i,
    {
        if bytes_eq(v[i].as_slice(), b) {
            assert(vs[i as int] == b@);
            return true;
        }
        i = i + 1;
    }
    false
}

/// Classify one TXT found at `name` (slot `slot` of `zone`), mirroring the
/// receive path: a TXT that did not parse or verify (`facts` is `None`),
/// a manifest for another recipient, an expired one (`expired` says
/// whether its `exp` has passed at `now`), one from a pinned sender, one
/// accepted in TOFU mode, or one that would be quarantined as an intro.
pub fn classify_record(
    zone: &str,
    slot: u32,
    name: &str,
    facts: Option<ManifestFacts>,
    expired: bool,
    recipient_id: &[u8],
    recipient_id_hex: &str,
    pinned: &Vec<Vec<u8>>,
    tofu_mode: bool,
    now: u64,
) -> (m: ManifestSeen)
    ensures
        m.zone@ == zone@,
        m.slot == slot,
        (m.decision@, m.note@) == verdict_spec(
            name@,
            match facts {
                Some(f) => Some((f.sender_spk@, f.msg_id@, f.recipient_id@, f.exp)),
                None => None,
            },
            expired,
            recipient_id@,
            recipient_id_hex@,
            pinned@.map_values(|x: Vec<u8>| x@),
            tofu_mode,
            now,
        ),
        facts matches Some(f) ==> m.sender_spk_hex@ == hex_encode_spec(f.sender_spk@)
            && m.msg_id_hex@ == hex_encode_spec(f.msg_id@),
        facts is None ==> m.sender_spk_hex@.len() == 0 && m.msg_id_hex@.len() == 0,
{
    let f = match facts {
        None => {
            let mut note = String::from_str("TXT under ");
            note.append(name);
            note.append(" did not parse / verify");
            return ManifestSeen {
                zone: String::from_str(zone),
                slot,
                sender_spk_hex: String::new(),
                msg_id_hex: String::new(),
                decision: String::from_str("signature_invalid"),
                note,
            };
        },
        Some(f) => f,
    };
    let sender_hex = hex_encode(f.sender_spk.as_slice());
    let msg_id_hex = hex_encode(f.msg_id.as_slice());
    let (decision, note) = if !bytes_eq(f.recipient_id.as_slice(), recipient_id) {
        let mut note = String::from_str("manifest names recipient_id ");
        let rid = hex_encode(f.recipient_id.as_slice());
        note.append(rid.as_str());
        note.append(" but ours is ");
        note.append(recipient_id_hex);
        (String::from_str("recipient_mismatch"), note)
    } else if expired {
        let mut note = String::from_str("exp=");
        let e = decimal_string(f.exp as u128);
        note.append(e.as_str());
        note.append(" (now=");
        let n = decimal_string(now as u128);
        note.append(n.as_str());
        note.append(")");
        (String::from_str("expired"), note)
    } else if contains_bytes(pinned, f.sender_spk.as_slice()) {
        (String::from_str("deliverable_pinned"), String::new())
    } else if tofu_mode {
        (
            String::from_str("deliverable_tofu"),
            String::from_str("no pinned contacts; TOFU mode accepts any verified manifest"),
        )
    } else {
        let chars = crate::text::chars_of(sender_hex.as_str());
        let end: usize = if chars.len() < 16 {
            chars.len()
        } else {
            16
        };
        let head = crate::text::slice_string(chars.as_slice(), 0, end);
        proof {
            if chars@.len() <= 16 {
                assert(chars@.subrange(0, end as int) =~= chars@);
            }
        }
        let mut note = String::from_str("sender ");
        note.append(head.as_str());
        note.append(" is not in your pinned contacts — would land in the intro queue");
        (String::from_str("quarantine_intro"), note)
    };
    ManifestSeen {
        zone: String::from_str(zone),
        slot,
        sender_spk_hex: sender_hex,
        msg_id_hex,
        decision,
        note,
    }
}

/// Whether the contact set puts the receive path in TOFU mode: no
/// pinned contacts at all.
pub fn tofu_mode(pinned: &Vec<Vec<u8>>) -> (b: bool)
    ensures
        b == (pinned@.len() == 0),
{
    pinned.len() == 0
}

} // verus!
