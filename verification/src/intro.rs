//! The intro queue: first-contact messages from senders that are not
//! pinned, shaped for review and for promotion into the inbox.

use vstd::prelude::*;
use crate::hexcodec::{hex_encode, hex_encode_spec};
use crate::inbox::PersistedInboxMessage;
use crate::messaging::{lossy_text, utf8_lossy};

verus! {

/// One quarantined intro the user can review.
#[derive(Debug, Clone)]
pub struct IntroView {
    pub intro_id: i64,
    pub sender_spk_hex: String,
    pub sender_label: Option<String>,
    pub msg_id_hex: String,
    pub plaintext_utf8: String,
    pub plaintext_bytes: Vec<u8>,
    pub received_at: u64,
    pub expires_at: u64,
}

/// An intro promoted into the inbox.
#[derive(Debug, Clone)]
pub struct DeliveredIntroView {
    pub intro_id: i64,
    pub message: PersistedInboxMessage,
}

/// Arguments of `intro_accept`.
#[derive(Debug, Clone)]
pub struct IntroAcceptArgs {
    pub intro_id: i64,
}

/// Arguments of `intro_trust`.
#[derive(Debug, Clone)]
pub struct IntroTrustArgs {
    pub intro_id: i64,
    /// Canonical `user@host` of the sender.
    pub address: String,
}

/// Arguments of `intro_block`.
#[derive(Debug, Clone)]
pub struct IntroBlockArgs {
    pub intro_id: i64,
    /// Local annotation stored next to the denylist entry.
    pub note: String,
}

/// Result of `intro_block`.
#[derive(Debug, Clone)]
pub struct IntroBlockResult {
    /// Whether a queue row was removed.
    pub removed: bool,
}

/// The review view of a pending intro.
pub fn intro_view(
    intro_id: i64,
    sender_spk: &[u8],
    sender_label: Option<String>,
    msg_id: &[u8],
    payload: Vec<u8>,
    received_at: u64,
    expires_at: u64,
) -> (v: IntroView)
    ensures
        v.intro_id == intro_id,
        v.sender_spk_hex@ == hex_encode_spec(sender_spk@),
        v.sender_label == sender_label,
        v.msg_id_hex@ == hex_encode_spec(msg_id@),
        v.plaintext_utf8@ == utf8_lossy(payload@),
        v.plaintext_bytes == payload,
        v.received_at == received_at,
        v.expires_at == expires_at,
{
    let text = lossy_text(payload.as_slice());
    IntroView {
        intro_id,
        sender_spk_hex: hex_encode(sender_spk),
        sender_label,
        msg_id_hex: hex_encode(msg_id),
        plaintext_utf8: text,
        plaintext_bytes: payload,
        received_at,
        expires_at,
    }
}

/// The inbox row a promoted intro becomes.
pub fn persisted_from(
    sender_signing_pk: &[u8],
    msg_id: &[u8],
    timestamp: u64,
    plaintext: Vec<u8>,
    sender_label: Option<String>,
) -> (m: PersistedInboxMessage)
    ensures
        m.sender_signing_pk_hex@ == hex_encode_spec(sender_signing_pk@),
        m.msg_id_hex@ == hex_encode_spec(msg_id@),
        m.timestamp == timestamp,
        m.plaintext_utf8@ == utf8_lossy(plaintext@),
        m.plaintext_bytes == plaintext,
        m.sender_label == sender_label,
{
    let text = lossy_text(plaintext.as_slice());
    PersistedInboxMessage {
        sender_signing_pk_hex: hex_encode(sender_signing_pk),
        msg_id_hex: hex_encode(msg_id),
        timestamp,
        plaintext_utf8: text,
        plaintext_bytes: plaintext,
        sender_label,
    }
}

} // verus!
