//! Where an identity's TSIG secret may sit, and how its file is read.
//!
//! The plaintext `tsig.key` is the import/export interchange format; the
//! sealed `tsig.key.sealed` is the fallback store on platforms without a
//! credential store. A secret file holds `base64:<secret>`, `hex:<secret>`
//! or the raw bytes.

use vstd::prelude::*;
use crate::crypto::{b64_decode, b64_decode_str};
use crate::error::{no_details, err, err_view, CommandError, ErrorView};
use crate::hexcodec::{hex_bytes, hex_decode, hex_error_text, hex_valid};
use crate::paths::{components, join_spec, path_join, same_path};
use crate::text::{chars_of, has_prefix, slice_string, starts_with, trim, trim_seq};
use vstd::string::StringExecFns;

verus! {

/// Legacy plaintext file name.
pub const TSIG_FILE: &'static str = "tsig.key";

/// Sealed file name used without a credential store.
pub const SEALED_FILE: &'static str = "tsig.key.sealed";

/// Where the sealed fallback lives in `identity_dir`.
pub fn sealed_path(identity_dir: &str) -> (r: String)
    ensures
        r@ == join_spec(identity_dir@, "tsig.key.sealed"@),
{
    path_join(identity_dir, SEALED_FILE)
}

/// Where the legacy plaintext lives in `identity_dir`.
pub fn plaintext_path(identity_dir: &str) -> (r: String)
    ensures
        r@ == join_spec(identity_dir@, "tsig.key"@),
{
    path_join(identity_dir, TSIG_FILE)
}

/// Plaintext locations to consider, in priority order: a configured
/// path first when it names another file than the default, then the
/// identity directory's `tsig.key`.
pub fn plaintext_candidates(identity_dir: &str, configured_path: Option<&str>) -> (r: Vec<String>)
    ensures
        ({
            let default = join_spec(identity_dir@, "tsig.key"@);
            match configured_path {
                Some(p) => if components(p@) != components(default) {
                    r@.len() == 2 && r@[0]@ == p@ && r@[1]@ == default
                } else {
                    r@.len() == 1 && r@[0]@ == default
                },
                None => r@.len() == 1 && r@[0]@ == default,
            }
        }),
{
    let default = plaintext_path(identity_dir);
    match configured_path {
        Some(p) => {
            if !same_path(p, default.as_str()) {
                let mut v: Vec<String> = Vec::new();
                v.push(String::from_str(p));
                v.push(default);
                v
            } else {
                let mut v: Vec<String> = Vec::new();
                v.push(default);
                v
            }
        },
        None => {
            let mut v: Vec<String> = Vec::new();
            v.push(default);
            v
        },
    }
}

/// What `std::str::from_utf8` makes of `bytes`: the text when they are
/// valid UTF-8.
#[verifier::external_body]
pub(crate) fn str_from_utf8(bytes: &[u8]) -> (r: Option<String>)
    ensures
        r is Some <==> vstd::utf8::valid_utf8(bytes@),
        r matches Some(s) ==> s@ == vstd::utf8::decode_utf8(bytes@),
{
    match std::str::from_utf8(bytes) {
        Ok(s) => Some(s.to_string()),
        Err(_) => None,
    }
}

/// The text of a secret file: its trimmed UTF-8, or empty when it is
/// not UTF-8.
pub open spec fn secret_text(bytes: Seq<u8>) -> Seq<char> {
    if vstd::utf8::valid_utf8(bytes) {
        trim_seq(vstd::utf8::decode_utf8(bytes))
    } else {
        seq![]
    }
}

/// What a TSIG secret file holding `bytes` at `path` yields: the decoded
/// body of a `base64:` or `hex:` line, else the bytes as they are.
pub open spec fn tsig_secret_spec(path: Seq<char>, bytes: Seq<u8>) -> Result<Seq<u8>, ErrorView> {
    let text = secret_text(bytes);
    if has_prefix(text, "base64:"@) {
        let body = trim_seq(text.subrange(7, text.len() as int));
        match b64_decode(body) {
            Ok(v) => Ok(v),
            Err(e) => Err(("internal"@, "base64-decoding TSIG secret at "@ + path + ": "@ + e)),
        }
    } else if has_prefix(text, "hex:"@) {
        let body = vstd::utf8::encode_utf8(trim_seq(text.subrange(4, text.len() as int)));
        if hex_valid(body) {
            Ok(hex_bytes(body))
        } else {
            Err(("internal"@, "hex-decoding TSIG secret at "@ + path + ": "@ + hex_error_text(body)))
        }
    } else {
        Ok(bytes)
    }
}

/// Decode the contents of a TSIG secret file read from `path`.
pub fn decode_tsig_secret(path: &str, bytes: Vec<u8>) -> (r: Result<Vec<u8>, CommandError>)
    ensures
        no_details(r),
        match r {
            Ok(v) => tsig_secret_spec(path@, bytes@) == Ok::<Seq<u8>, ErrorView>(v@),
            Err(e) => tsig_secret_spec(path@, bytes@) == Err::<Seq<u8>, ErrorView>(err_view(e)),
        },
{
    let text = match str_from_utf8(bytes.as_slice()) {
        Some(s) => trim(s.as_str()),
        None => String::new(),
    };
    let chars = chars_of(text.as_str());
    let b64_tag: Vec<char> = vec!['b', 'a', 's', 'e', '6', '4', ':'];
    let hex_tag: Vec<char> = vec!['h', 'e', 'x', ':'];
    proof {
        reveal_strlit("base64:");
        reveal_strlit("hex:");
        assert(b64_tag@ =~= "base64:"@);
        assert(hex_tag@ =~= "hex:"@);
        assert(chars@ == secret_text(bytes@));
    }
    if starts_with(chars.as_slice(), b64_tag.as_slice()) {
        let rest = slice_string(chars.as_slice(), 7, chars.len());
        let body = trim(rest.as_str());
        return match b64_decode_str(body.as_str()) {
            Ok(v) => Ok(v),
            Err(e) => {
                let mut m = String::from_str("base64-decoding TSIG secret at ");
                m.append(path);
                m.append(": ");
                m.append(e.as_str());
                Err(err("internal", m))
            },
        };
    }
    if starts_with(chars.as_slice(), hex_tag.as_slice()) {
        let rest = slice_string(chars.as_slice(), 4, chars.len());
        let body = trim(rest.as_str());
        return match hex_decode(body.as_str()) {
            Ok(v) => Ok(v),
            Err(e) => {
                let mut m = String::from_str("hex-decoding TSIG secret at ");
                m.append(path);
                m.append(": ");
                m.append(e.as_str());
                Err(err("internal", m))
            },
        };
    }
    Ok(bytes)
}

} // verus!
