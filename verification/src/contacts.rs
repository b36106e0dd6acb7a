//! Contacts: validating a manually pinned contact and shaping the view
//! the UI shows.

use vstd::prelude::*;
use crate::error::{no_details, err, err_view, CommandError, ErrorView};
use crate::hexcodec::{hex_bytes, hex_decode, hex_encode, hex_encode_spec, hex_error_text, hex_valid};
use crate::text::{decimal, decimal_string, trim, trim_seq};
use vstd::string::StringExecFns;

verus! {

/// A contact as the UI shows it: hex-encoded public keys; an empty
/// `domain` means the active identity's own zone.
#[derive(Debug, Clone)]
pub struct ContactView {
    pub username: String,
    pub domain: String,
    pub x25519_public_key_hex: String,
    pub ed25519_signing_public_key_hex: String,
}

/// Arguments of `add_contact`.
#[derive(Debug, Clone)]
pub struct AddContactArgs {
    pub username: String,
    pub domain: String,
    pub x25519_public_key_hex: String,
    pub ed25519_signing_public_key_hex: String,
}

/// Result of `add_contact`.
#[derive(Debug, Clone)]
pub struct AddContactResult {
    /// Whether the username was pinned for the first time.
    pub newly_added: bool,
    pub contact: ContactView,
}

/// Arguments of `fetch_identity`.
#[derive(Debug, Clone)]
pub struct FetchIdentityArgs {
    /// `user@host`.
    pub address: String,
}

/// Arguments of `delete_contact`.
#[derive(Debug, Clone)]
pub struct DeleteContactArgs {
    pub username: String,
}

/// Result of `delete_contact`.
#[derive(Debug, Clone)]
pub struct DeleteContactResult {
    /// Whether a pinned contact was removed.
    pub removed: bool,
}

/// A contact ready to pin: trimmed names and 32-byte keys.
#[derive(Debug, Clone)]
pub struct ValidatedContact {
    pub username: String,
    pub domain: String,
    pub x25519_pk: Vec<u8>,
    pub ed25519_spk: Vec<u8>,
}

/// What parsing `value` as a 32-byte hex key named `field` yields.
pub open spec fn parse_hex_32_spec(field: Seq<char>, value: Seq<char>) -> Result<Seq<u8>, ErrorView> {
    let data = vstd::utf8::encode_utf8(value);
    if !hex_valid(data) {
        Err(("validation"@, field + " is not valid hex: "@ + hex_error_text(data)))
    } else if hex_bytes(data).len() != 32 {
        Err(
            (
                "validation"@,
                field + " must decode to 32 bytes (got "@ + decimal(hex_bytes(data).len()) + ")"@,
            ),
        )
    } else {
        Ok(hex_bytes(data))
    }
}

/// Parse a hex-encoded 32-byte key; `field` names it in errors.
pub fn parse_hex_32(field: &str, value: &str) -> (r: Result<Vec<u8>, CommandError>)
    ensures
        no_details(r),
        match r {
            Ok(v) => parse_hex_32_spec(field@, value@) == Ok::<Seq<u8>, ErrorView>(v@),
            Err(e) => parse_hex_32_spec(field@, value@) == Err::<Seq<u8>, ErrorView>(err_view(e)),
        },
{
    let bytes = match hex_decode(value) {
        Ok(b) => b,
        Err(e) => {
            let mut m = String::from_str(field);
            m.append(" is not valid hex: ");
            m.append(e.as_str());
            return Err(err("validation", m));
        },
    };
    if bytes.len() != 32 {
        let mut m = String::from_str(field);
        m.append(" must decode to 32 bytes (got ");
        let n = decimal_string(bytes.len() as u128);
        m.append(n.as_str());
        m.append(")");
        return Err(err("validation", m));
    }
    Ok(bytes)
}

/// What validating a manual contact yields.
pub open spec fn validate_contact_spec(args: AddContactArgs) -> Result<
    (Seq<char>, Seq<char>, Seq<u8>, Seq<u8>),
    ErrorView,
> {
    let u = trim_seq(args.username@);
    let d = trim_seq(args.domain@);
    if u.len() == 0 {
        Err(("validation"@, "username must not be empty"@))
    } else if d.len() == 0 {
        Err(("validation"@, "domain must not be empty"@))
    } else {
        match parse_hex_32_spec("x25519_public_key_hex"@, args.x25519_public_key_hex@) {
            Err(e) => Err(e),
            Ok(x) => match parse_hex_32_spec(
                "ed25519_signing_public_key_hex"@,
                args.ed25519_signing_public_key_hex@,
            ) {
                Err(e) => Err(e),
                Ok(s) => Ok((u, d, x, s)),
            },
        }
    }
}

/// Validate a manually pinned contact: names trimmed and non-empty, both
/// keys 32 bytes of hex.
pub fn validate_contact(args: &AddContactArgs) -> (r: Result<ValidatedContact, CommandError>)
    ensures
        no_details(r),
        match r {
            Ok(c) => validate_contact_spec(*args) == Ok::<
                (Seq<char>, Seq<char>, Seq<u8>, Seq<u8>),
                ErrorView,
            >((c.username@, c.domain@, c.x25519_pk@, c.ed25519_spk@)),
            Err(e) => validate_contact_spec(*args) == Err::<
                (Seq<char>, Seq<char>, Seq<u8>, Seq<u8>),
                ErrorView,
            >(err_view(e)),
        },
{
    let username = trim(args.username.as_str());
    let domain = trim(args.domain.as_str());
    if username.as_str().is_empty() {
        return Err(err("validation", String::from_str("username must not be empty")));
    }
    if domain.as_str().is_empty() {
        return Err(err("validation", String::from_str("domain must not be empty")));
    }
    proof {
        reveal_strlit("x25519_public_key_hex");
        reveal_strlit("ed25519_signing_public_key_hex");
    }
    let x = match parse_hex_32("x25519_public_key_hex", args.x25519_public_key_hex.as_str()) {
        Ok(v) => v,
        Err(e) => return Err(e),
    };
    let s = match parse_hex_32(
        "ed25519_signing_public_key_hex",
        args.ed25519_signing_public_key_hex.as_str(),
    ) {
        Ok(v) => v,
        Err(e) => return Err(e),
    };
    Ok(ValidatedContact { username, domain, x25519_pk: x, ed25519_spk: s })
}

/// Refuse a blank username; returns it trimmed.
pub fn contact_username(username: &str) -> (r: Result<String, CommandError>)
    ensures
        no_details(r),
        match r {
            Ok(u) => u@ == trim_seq(username@) && u@.len() > 0,
            Err(e) => trim_seq(username@).len() == 0 && err_view(e) == (
                "validation"@,
                "username must not be empty"@,
            ),
        },
{
    let u = trim(username);
    if u.as_str().is_empty() {
        return Err(err("validation", String::from_str("username must not be empty")));
    }
    Ok(u)
}

/// The UI view of a contact: its names and its keys in lower-case hex.
pub fn contact_view(username: String, domain: String, x25519_pk: &[u8], ed25519_spk: &[u8]) -> (v:
    ContactView)
    ensures
        v.username == username,
        v.domain == domain,
        v.x25519_public_key_hex@ == hex_encode_spec(x25519_pk@),
        v.ed25519_signing_public_key_hex@ == hex_encode_spec(ed25519_spk@),
{
    ContactView {
        username,
        domain,
        x25519_public_key_hex: hex_encode(x25519_pk),
        ed25519_signing_public_key_hex: hex_encode(ed25519_spk),
    }
}

} // verus!
