//! Validation of usernames before they become path components.

use vstd::prelude::*;
use crate::error::{no_details, err, CommandError};
use crate::text::{
    chars_of, contains_char, decimal, decimal_string, lemma_trim_idempotent, trim, trim_seq,
    utf8_byte_len, utf8_len,
};
use vstd::string::StringExecFns;
use crate::paths::{all_normal, components, lemma_single_name};

verus! {

/// Maximum bytes allowed in a username.
pub const USERNAME_MAX_BYTES: usize = 64;

/// The outcome of validating `input` as a username: the trimmed name, or
/// the message of the `validation` error that rejects it.
pub open spec fn sanitize_spec(input: Seq<char>) -> Result<Seq<char>, Seq<char>> {
    let t = trim_seq(input);
    if t.len() == 0 {
        Err("username must not be empty"@)
    } else if utf8_len(t) > USERNAME_MAX_BYTES {
        Err("username must be at most 64 bytes (got "@ + decimal(utf8_len(t)) + ")"@)
    } else if t[0] == '.' {
        Err("username must not start with '.'"@)
    } else if t.contains('/') || t.contains('\\') || t.contains('\0') {
        Err("username must not contain path separators or NUL"@)
    } else {
        Ok(t)
    }
}

/// Validate a username before it is used as a path component.
///
/// Rejects empty or overlong values, path separators, NUL and a leading
/// `.`; what remains is exactly one normal path component. Returns the
/// trimmed username on success.
pub fn sanitize_username(input: &str) -> (r: Result<String, CommandError>)
    ensures
        no_details(r),
        match r {
            Ok(name) => sanitize_spec(input@) == Ok::<Seq<char>, Seq<char>>(name@),
            Err(e) => e.kind@ == "validation"@ && sanitize_spec(input@) == Err::<Seq<char>, Seq<char>>(
                e.message@,
            ),
        },
{
    let trimmed = trim(input);
    let chars = chars_of(trimmed.as_str());
    if chars.len() == 0 {
        return Err(err("validation", String::from_str("username must not be empty")));
    }
    let nbytes = utf8_byte_len(chars.as_slice());
    if nbytes > USERNAME_MAX_BYTES as u128 {
        let mut m = String::from_str("username must be at most 64 bytes (got ");
        let n = decimal_string(nbytes);
        m.append(n.as_str());
        m.append(")");
        return Err(err("validation", m));
    }
    assert(chars@ == trim_seq(input@));
    if chars[0] == '.' {
        return Err(err("validation", String::from_str("username must not start with '.'")));
    }
    if contains_char(chars.as_slice(), '/') || contains_char(chars.as_slice(), '\\')
        || contains_char(chars.as_slice(), '\0') {
        return Err(
            err("validation", String::from_str("username must not contain path separators or NUL")),
        );
    }
    Ok(trimmed)
}

/// A username that passes validation is exactly one plain path
/// component: joined to a directory it names an entry directly inside it.
pub proof fn law_sanitized_is_single_component(input: Seq<char>, name: Seq<char>)
    requires
        sanitize_spec(input) == Ok::<Seq<char>, Seq<char>>(name),
    ensures
        components(name) == seq![name],
        all_normal(name),
{
    lemma_single_name(name);
}

/// Validating an accepted name again accepts it unchanged.
pub proof fn law_sanitize_idempotent(input: Seq<char>, name: Seq<char>)
    requires
        sanitize_spec(input) == Ok::<Seq<char>, Seq<char>>(name),
    ensures
        sanitize_spec(name) == Ok::<Seq<char>, Seq<char>>(name),
{
    lemma_trim_idempotent(input);
}

} // verus!
