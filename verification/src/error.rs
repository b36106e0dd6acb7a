//! Error envelope returned by every command.

use vstd::prelude::*;
use vstd::string::StringExecFns;

verus! {

/// Opaque JSON payload attached to some errors.
#[verifier::external_type_specification]
#[verifier::external_body]
pub struct ExJsonValue(serde_json::Value);

/// Error envelope returned by every command.
///
/// `kind` is the stable discriminant the UI switches on; `message` is
/// safe to render verbatim; `details` optionally carries structured data.
#[derive(Debug, Clone)]
pub struct CommandError {
    pub kind: String,
    pub message: String,
    pub details: Option<serde_json::Value>,
}

/// Convenience alias used by every command.
pub type CommandResult<T> = Result<T, CommandError>;

impl CommandError {
    /// An error with the given kind and message and no details.
    pub fn new(kind: String, message: String) -> (e: Self)
        ensures
            e.kind@ == kind@,
            e.message@ == message@,
            e.details is None,
    {
        CommandError { kind, message, details: None }
    }

    /// An error carrying a structured payload.
    pub fn with_details(kind: String, message: String, details: serde_json::Value) -> (e: Self)
        ensures
            e.kind@ == kind@,
            e.message@ == message@,
            e.details == Some(details),
    {
        CommandError { kind, message, details: Some(details) }
    }

    /// The error every command returns when no identity is unlocked.
    pub fn not_initialized() -> (e: Self)
        ensures
            e.kind@ == "not_initialized"@,
            e.message@ == "no identity is unlocked — call init_or_unlock first"@,
            e.details is None,
    {
        Self::new(
            String::from_str("not_initialized"),
            String::from_str("no identity is unlocked — call init_or_unlock first"),
        )
    }
}

/// What a contract says of an error: its kind and its message.
pub type ErrorView = (Seq<char>, Seq<char>);

/// Whether a failed outcome carries no details: the library's own
/// errors carry none, only a client failure's structured variants do.
pub open spec fn no_details<T>(r: Result<T, CommandError>) -> bool {
    r matches Err(e) ==> e.details is None
}

/// The kind and message of `e`.
pub open spec fn err_view(e: CommandError) -> ErrorView {
    (e.kind@, e.message@)
}

/// Whether `r` is the outcome `spec` describes: the same value on
/// success, an error of the same kind and message on failure.
pub open spec fn outcome_is<T, V>(r: Result<T, CommandError>, spec: Result<V, ErrorView>, view: spec_fn(T) -> V) -> bool {
    match r {
        Ok(v) => spec == Ok::<V, ErrorView>(view(v)),
        Err(e) => spec == Err::<V, ErrorView>(err_view(e)),
    }
}

/// Shorthand for an error of the given kind and message.
pub fn err(kind: &str, message: String) -> (e: CommandError)
    ensures
        e.kind@ == kind@,
        e.message@ == message@,
        e.details is None,
{
    CommandError::new(String::from_str(kind), message)
}

/// An I/O failure, with the error's text.
pub fn io_error(message: String) -> (e: CommandError)
    ensures
        e.kind@ == "io"@,
        e.message@ == message@,
        e.details is None,
{
    CommandError::new(String::from_str("io"), message)
}

/// A config file that does not parse, with the parser's text.
pub fn config_error(message: String) -> (e: CommandError)
    ensures
        e.kind@ == "config"@,
        e.message@ == message@,
        e.details is None,
{
    CommandError::new(String::from_str("config"), message)
}

/// A network failure, with the error's text.
pub fn net_error(message: String) -> (e: CommandError)
    ensures
        e.kind@ == "net"@,
        e.message@ == message@,
        e.details is None,
{
    CommandError::new(String::from_str("net"), message)
}

/// Any other failure, with its text (its whole context chain).
pub fn internal_error(message: String) -> (e: CommandError)
    ensures
        e.kind@ == "internal"@,
        e.message@ == message@,
        e.details is None,
{
    CommandError::new(String::from_str("internal"), message)
}

/// How an SDK call failed, as plain values.
#[derive(Debug, Clone)]
pub enum ClientFailure {
    InvalidConfig(String),
    InvalidAddress { address: String },
    ContactNotFound { username: String },
    NoRecordFound { name: String },
    VerifyFailed { name: String },
    PublishFailed { kind: String, name: String },
    /// A network or storage failure, with its text.
    Io(String),
    /// A crypto, identity, prekey, manifest, erasure or chunking failure,
    /// with its text.
    Internal(String),
}

/// A JSON object under construction.
#[verifier::external_type_specification]
#[verifier::external_body]
#[verifier::reject_recursive_types(K)]
#[verifier::reject_recursive_types(V)]
pub struct ExJsonMap<K, V>(serde_json::Map<K, V>);

/// The string-valued fields a JSON object holds, by key.
pub uninterp spec fn json_map_strings(m: serde_json::Map<String, serde_json::Value>) -> Map<
    Seq<char>,
    Seq<char>,
>;

/// The string-valued fields of a JSON value when it is an object, `None`
/// when it is not an object.
pub uninterp spec fn json_value_strings(v: serde_json::Value) -> Option<Map<Seq<char>, Seq<char>>>;

/// No fields at all.
pub open spec fn no_fields() -> Map<Seq<char>, Seq<char>> {
    Map::empty()
}

/// An empty JSON object (`serde_json::Map::new`).
///
/// Claims: the object holds no field.
#[verifier::external_body]
fn json_map_new() -> (obj: serde_json::Map<String, serde_json::Value>)
    ensures
        json_map_strings(obj) == no_fields(),
{
    serde_json::Map::new()
}

/// Set a string field of a JSON object (`serde_json::Map::insert` with a
/// `Value::String`).
///
/// Claims: the key now holds the string, replacing what it held; the
/// other string fields stay as they were.
#[verifier::external_body]
fn json_map_insert(m: &mut serde_json::Map<String, serde_json::Value>, key: String, value: String)
    ensures
        json_map_strings(*final(m)) == json_map_strings(*old(m)).insert(key@, value@),
{
    m.insert(key, serde_json::Value::String(value));
}

/// The JSON value of an object (`serde_json::Value::Object`).
///
/// Claims: the value is an object with the map's string fields.
#[verifier::external_body]
fn json_object(m: serde_json::Map<String, serde_json::Value>) -> (v: serde_json::Value)
    ensures
        json_value_strings(v) == Some(json_map_strings(m)),
{
    serde_json::Value::Object(m)
}

/// The fields a list of key/value pairs sets, in order: a later pair
/// overrides an earlier one with the same key.
pub open spec fn string_fields(pairs: Seq<(String, String)>) -> Map<Seq<char>, Seq<char>>
    decreases pairs.len(),
{
    if pairs.len() == 0 {
        Map::empty()
    } else {
        string_fields(pairs.drop_last()).insert(pairs.last().0@, pairs.last().1@)
    }
}

/// A JSON object of string fields.
fn json_string_fields(pairs: Vec<(String, String)>) -> (v: serde_json::Value)
    ensures
        json_value_strings(v) == Some(string_fields(pairs@)),
{
    let mut m = json_map_new();
    let mut i: usize = 0;
    while i < pairs.len()
        invariant
            i <= pairs@.len(),
            json_map_strings(m) == string_fields(pairs@.take(i as int)),
        decreases pairs@.len() - i,
    {
        let k = pairs[i].0.clone();
        let val = pairs[i].1.clone();
        json_map_insert(&mut m, k, val);
        proof {
            assert(pairs@.take(i + 1).drop_last() =~= pairs@.take(i as int));
        }
        i = i + 1;
    }
    proof {
        assert(pairs@.take(pairs@.len() as int) =~= pairs@);
    }
    json_object(m)
}

/// One string field.
fn field(key: &str, value: &String) -> (r: Vec<(String, String)>)
    ensures
        r@.len() == 1,
        r@[0].0@ == key@,
        r@[0].1@ == value@,
{
    let mut v: Vec<(String, String)> = Vec::new();
    v.push((String::from_str(key), value.clone()));
    v
}

/// The fields a single pair sets.
proof fn lemma_one_field(fs: Seq<(String, String)>)
    requires
        fs.len() == 1,
    ensures
        string_fields(fs) == no_fields().insert(fs[0].0@, fs[0].1@),
{
    assert(fs.drop_last() =~= Seq::<(String, String)>::empty());
    assert(string_fields(fs.drop_last()) == no_fields());
}

/// The error kind and message a client failure maps to.
pub open spec fn client_failure_view(f: ClientFailure) -> ErrorView {
    match f {
        ClientFailure::InvalidConfig(m) => ("invalid_config"@, m@),
        ClientFailure::InvalidAddress { address } => (
            "invalid_config"@,
            "invalid address `"@ + address@ + "`: must be in the form user@host"@,
        ),
        ClientFailure::ContactNotFound { username } => (
            "contact_not_found"@,
            "contact `"@ + username@ + "` is not pinned"@,
        ),
        ClientFailure::NoRecordFound { name } => (
            "no_record_found"@,
            "dns record not found at `"@ + name@ + "`"@,
        ),
        ClientFailure::VerifyFailed { name } => (
            "verify_failed"@,
            "record at `"@ + name@ + "` failed verification"@,
        ),
        ClientFailure::PublishFailed { kind, name } => (
            "publish_failed"@,
            "publish failed for "@ + kind@ + " at "@ + name@,
        ),
        ClientFailure::Io(m) => ("io"@, m@),
        ClientFailure::Internal(m) => ("internal"@, m@),
    }
}

/// The string fields a client failure's details carry, or `None` for the
/// variants that carry none.
pub open spec fn client_failure_fields(f: ClientFailure) -> Option<Map<Seq<char>, Seq<char>>> {
    match f {
        ClientFailure::InvalidAddress { address } => Some(no_fields().insert("address"@, address@)),
        ClientFailure::ContactNotFound { username } => Some(
            no_fields().insert("username"@, username@),
        ),
        ClientFailure::NoRecordFound { name } => Some(no_fields().insert("name"@, name@)),
        ClientFailure::VerifyFailed { name } => Some(no_fields().insert("name"@, name@)),
        ClientFailure::PublishFailed { kind, name } => Some(
            no_fields().insert("publish_kind"@, kind@).insert("name"@, name@),
        ),
        _ => None,
    }
}

/// Map a client failure to the error the UI switches on; the structured
/// variants carry their fields as details.
pub fn from_client_failure(f: ClientFailure) -> (e: CommandError)
    ensures
        err_view(e) == client_failure_view(f),
        (e.details is Some) <==> !(f is InvalidConfig || f is Io || f is Internal),
        match e.details {
            Some(d) => client_failure_fields(f) matches Some(m) && json_value_strings(d) == Some(m),
            None => client_failure_fields(f) is None,
        },
{
    match f {
        ClientFailure::InvalidConfig(m) => CommandError::new(String::from_str("invalid_config"), m),
        ClientFailure::InvalidAddress { address } => {
            let mut m = String::from_str("invalid address `");
            m.append(address.as_str());
            m.append("`: must be in the form user@host");
            let fs = field("address", &address);
            proof {
                lemma_one_field(fs@);
            }
            let d = json_string_fields(fs);
            CommandError::with_details(String::from_str("invalid_config"), m, d)
        },
        ClientFailure::ContactNotFound { username } => {
            let mut m = String::from_str("contact `");
            m.append(username.as_str());
            m.append("` is not pinned");
            let fs = field("username", &username);
            proof {
                lemma_one_field(fs@);
            }
            let d = json_string_fields(fs);
            CommandError::with_details(String::from_str("contact_not_found"), m, d)
        },
        ClientFailure::NoRecordFound { name } => {
            let mut m = String::from_str("dns record not found at `");
            m.append(name.as_str());
            m.append("`");
            let fs = field("name", &name);
            proof {
                lemma_one_field(fs@);
            }
            let d = json_string_fields(fs);
            CommandError::with_details(String::from_str("no_record_found"), m, d)
        },
        ClientFailure::VerifyFailed { name } => {
            let mut m = String::from_str("record at `");
            m.append(name.as_str());
            m.append("` failed verification");
            let fs = field("name", &name);
            proof {
                lemma_one_field(fs@);
            }
            let d = json_string_fields(fs);
            CommandError::with_details(String::from_str("verify_failed"), m, d)
        },
        ClientFailure::PublishFailed { kind, name } => {
            let mut m = String::from_str("publish failed for ");
            m.append(kind.as_str());
            m.append(" at ");
            m.append(name.as_str());
            let mut fields = field("publish_kind", &kind);
            let ghost first = fields@;
            fields.push((String::from_str("name"), name.clone()));
            proof {
                lemma_one_field(first);
                assert(fields@.drop_last() =~= first);
                assert(string_fields(fields@) =~= no_fields().insert("publish_kind"@, kind@).insert(
                    "name"@,
                    name@,
                ));
            }
            let d = json_string_fields(fields);
            CommandError::with_details(String::from_str("publish_failed"), m, d)
        },
        ClientFailure::Io(m) => CommandError::new(String::from_str("io"), m),
        ClientFailure::Internal(m) => CommandError::new(String::from_str("internal"), m),
    }
}

} // verus!
