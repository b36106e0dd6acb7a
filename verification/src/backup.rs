//! Per-identity backup: what an export archive holds and under which
//! names, and how an import decides the identity's name, which entries it
//! extracts where, and what it refuses.
//!
//! Archive layout:
//!
//! ```text
//! backup-meta.json
//! identities/<username>/config.yaml
//! identities/<username>/dmp-rs.sqlite
//! identities/<username>/tsig.key            # if present
//! identities/<username>/inbox.jsonl         # if present
//! identities/<username>/inbox-read.json     # if present
//! ```

use vstd::prelude::*;
use crate::error::{no_details, err, err_view, CommandError, ErrorView};
use crate::index::{first_index_of, find_entry};
use crate::paths::{all_normal, components, is_absolute, is_normal, path_components};
use crate::state::{IdentityConfig, IdentityIndex};
use crate::text::{
    ascii_lower, chars_of, decimal, decimal_string, ends_with, has_prefix, has_suffix,
    slice_string, starts_with, str_eq, to_ascii_lowercase, trim, trim_seq,
};
use crate::username::{sanitize_spec, sanitize_username};
use crate::tarball::{
    built_full_view, built_view, entries_view, fault_view, opt_fault_view, scan_view, scanned_clean,
    tar_gz_build, tar_gz_built_of, tar_gz_scan, tar_gz_scan_of, tar_name_check, tar_name_ok,
    TarFault,
};
use vstd::string::StringExecFns;

verus! {

/// Database file name.
pub const DB_FILE: &'static str = "dmp-rs.sqlite";

/// TSIG secret file name.
pub const TSIG_FILE: &'static str = "tsig.key";

/// Inbox log file name.
pub const INBOX_FILE: &'static str = "inbox.jsonl";

/// Inbox read-state file name.
pub const INBOX_READ_FILE: &'static str = "inbox-read.json";

/// Name of the metadata entry.
pub const META_FILE: &'static str = "backup-meta.json";

/// Current metadata schema version.
pub const BACKUP_VERSION: u32 = 1;

/// Suffix every archive path carries.
pub const ARCHIVE_SUFFIX: &'static str = ".dmp-backup.tar.gz";

/// The `backup-meta.json` payload.
#[derive(Debug, Clone)]
pub struct BackupMeta {
    pub version: u32,
    pub generated_at: u64,
    pub username: String,
    pub domain: String,
}

/// Arguments of `export_identity_backup`.
pub struct ExportArgs {
    pub username: String,
    /// Output path; the archive suffix is appended when missing.
    pub output_path: String,
}

/// Result of a successful export.
pub struct ExportResult {
    pub archive_path: String,
    pub total_bytes: u64,
    /// File count including `backup-meta.json`.
    pub file_count: u32,
}

/// Arguments of `import_identity_backup`.
#[derive(Debug, Clone)]
pub struct ImportArgs {
    pub archive_path: String,
    /// Import under this name instead of the archived one.
    pub override_username: Option<String>,
}

/// Result of a successful import.
#[derive(Debug, Clone)]
pub struct ImportResult {
    pub username: String,
    pub domain: String,
    /// Files extracted, `backup-meta.json` excluded.
    pub file_count: u32,
}

/// In-archive path of an identity file: `identities/<username>/<file>`.
pub fn archive_entry_path(username: &str, file_name: &str) -> (r: String)
    ensures
        r@ == "identities/"@ + username@ + "/"@ + file_name@,
{
    let mut r = String::from_str("identities/");
    r.append(username);
    r.append("/");
    r.append(file_name);
    r
}

/// Sibling `.tmp` path for the atomic write.
pub fn with_tmp_suffix(path: &str) -> (r: String)
    ensures
        r@ == path@ + ".tmp"@,
{
    let mut r = String::from_str(path);
    r.append(".tmp");
    r
}

/// What `ensure_archive_suffix` returns: `p` when it already ends, in
/// any ASCII case, with the suffix; otherwise `p` with it appended.
pub open spec fn archive_suffix_spec(p: Seq<char>) -> Seq<char> {
    if has_suffix(ascii_lower(p), ".dmp-backup.tar.gz"@) {
        p
    } else {
        p + ".dmp-backup.tar.gz"@
    }
}

/// Append `.dmp-backup.tar.gz` when missing. The check ignores ASCII case
/// so an upper-case suffix is kept as it is.
pub fn ensure_archive_suffix(path: String) -> (r: String)
    ensures
        r@ == archive_suffix_spec(path@),
{
    let lower = to_ascii_lowercase(path.as_str());
    let lv = chars_of(lower.as_str());
    let sv = chars_of(ARCHIVE_SUFFIX);
    if ends_with(lv.as_slice(), sv.as_slice()) {
        return path;
    }
    let mut out = path;
    out.append(ARCHIVE_SUFFIX);
    out
}

/// The suffixed path ends with the suffix, so suffixing is idempotent.
pub proof fn law_archive_suffix_idempotent(p: Seq<char>)
    ensures
        archive_suffix_spec(archive_suffix_spec(p)) == archive_suffix_spec(p),
{
    reveal_strlit(".dmp-backup.tar.gz");
    let s = ".dmp-backup.tar.gz"@;
    let q = archive_suffix_spec(p);
    if !has_suffix(ascii_lower(p), s) {
        let lq = ascii_lower(q);
        assert(q == p + s);
        assert(lq.len() == p.len() + s.len());
        assert(lq.subrange(lq.len() - s.len(), lq.len() as int) =~= s) by {
            assert forall|k: int| 0 <= k < s.len() implies lq[p.len() + k] == s[k] by {
                assert(q[p.len() + k] == s[k]);
            }
        }
    }
}

/// Whether `rel` is safe to extract: non-empty and every component a
/// plain name.
pub open spec fn safe_relative(rel: Seq<char>) -> bool {
    rel.len() > 0 && all_normal(rel)
}

/// Reject path suffixes that could escape the destination directory:
/// only plain-name components are allowed.
pub fn ensure_safe_relative(rel: &str) -> (r: Result<(), CommandError>)
    ensures
        no_details(r),
        r is Ok <==> safe_relative(rel@),
        r matches Err(e) ==> err_view(e) == (if rel@.len() == 0 {
            ("validation"@, "archive contains an empty path suffix"@)
        } else {
            ("validation"@, "archive path `"@ + rel@ + "` contains an unsafe component"@)
        }),
{
    if rel.is_empty() {
        return Err(err("validation", String::from_str("archive contains an empty path suffix")));
    }
    let comps = path_components(rel);
    let mut i: usize = 0;
    while i < comps.len()
        invariant
            i <= comps@.len(),
            rel@.len() > 0,
            crate::paths::views(comps@) == components(rel@),
            forall|k: int| 0 <= k < i ==> is_normal(#[trigger] components(rel@)[k]),
        decreases comps@.len() - i,
    {
        let c = comps[i].as_slice();
        let normal = !(c.len() == 1 && c[0] == '/') && !(c.len() == 1 && c[0] == '.') && !(
        c.len() == 2 && c[0] == '.' && c[1] == '.');
        proof {
            assert(crate::paths::views(comps@)[i as int] == comps@[i as int]@);
            let cv = comps@[i as int]@;
            if normal {
                assert(cv != seq!['/']);
                assert(cv != seq!['.']);
                assert(cv != seq!['.', '.']);
            } else {
                if c@.len() == 1 && c@[0] == '/' {
                    assert(cv =~= seq!['/']);
                } else if c@.len() == 1 && c@[0] == '.' {
                    assert(cv =~= seq!['.']);
                } else {
                    assert(cv =~= seq!['.', '.']);
                }
            }
        }
        if !normal {
            let mut m = String::from_str("archive path `");
            m.append(rel);
            m.append("` contains an unsafe component");
            return Err(err("validation", m));
        }
        i = i + 1;
    }
    Ok(())
}

/// The domain an export records: that of the index entry named
/// `username`, which must exist.
pub fn export_domain(index: &IdentityIndex, username: &str) -> (r: Result<String, CommandError>)
    ensures
        no_details(r),
        match r {
            Ok(d) => exists|i: int|
                0 <= i < index.identities@.len() && index.identities@[i].username@ == username@
                    && d@ == index.identities@[i].domain@ && forall|j: int|
                    0 <= j < i ==> index.identities@[j].username@ != username@,
            Err(e) => !index.usernames().contains(username@) && err_view(e) == (
                "validation"@,
                "identity `"@ + username@ + "` is not in the index"@,
            ),
        },
{
    match find_entry(index, username) {
        Some(i) => {
            let d = index.identities[i].domain.clone();
            assert(index.usernames()[i as int] == index.identities@[i as int].username@);
            assert(forall|j: int| 0 <= j < i ==> index.usernames()[j] == index.identities@[j].username@);
            let ghost k = i as int;
            assert(d@ == index.identities@[k].domain@);
            assert forall|j: int| 0 <= j < k implies index.identities@[j].username@ != username@ by {
                assert(index.usernames()[j] == index.identities@[j].username@);
            }
            Ok(d)
        },
        None => {
            let mut m = String::from_str("identity `");
            m.append(username);
            m.append("` is not in the index");
            Err(err("validation", m))
        },
    }
}

/// The archive entries of an export after `backup-meta.json`, as
/// (entry name, file name) pairs: the config and the database, then each
/// optional file that is present.
pub open spec fn export_entries_spec(u: Seq<char>, tsig: bool, inbox: bool, read: bool) -> Seq<
    Seq<char>,
> {
    let req = seq!["config.yaml"@, "dmp-rs.sqlite"@];
    let t = if tsig { seq!["tsig.key"@] } else { Seq::<Seq<char>>::empty() };
    let i = if inbox { seq!["inbox.jsonl"@] } else { Seq::<Seq<char>>::empty() };
    let r = if read { seq!["inbox-read.json"@] } else { Seq::<Seq<char>>::empty() };
    req + t + i + r
}

/// The identity files an export packs, in order, with their in-archive
/// names; the archive's file count is one more, for the metadata.
pub fn export_entries(username: &str, tsig: bool, inbox: bool, read: bool) -> (r: Vec<(String, String)>)
    ensures
        r@.len() == export_entries_spec(username@, tsig, inbox, read).len(),
        forall|k: int|
            0 <= k < r@.len() ==> {
                &&& (#[trigger] r@[k]).1@ == export_entries_spec(username@, tsig, inbox, read)[k]
                &&& r@[k].0@ == "identities/"@ + username@ + "/"@ + r@[k].1@
            },
{
    let mut names: Vec<&'static str> = Vec::new();
    names.push("config.yaml");
    names.push(DB_FILE);
    if tsig {
        names.push(TSIG_FILE);
    }
    if inbox {
        names.push(INBOX_FILE);
    }
    if read {
        names.push(INBOX_READ_FILE);
    }
    let ghost spec_names = export_entries_spec(username@, tsig, inbox, read);
    proof {
        assert(names@.len() == spec_names.len());
        assert forall|k: int| 0 <= k < names@.len() implies names@[k]@ == spec_names[k] by {
        }
    }
    let mut out: Vec<(String, String)> = Vec::new();
    let mut i: usize = 0;
    while i < names.len()
        invariant
            i <= names@.len(),
            names@.len() == spec_names.len(),
            spec_names == export_entries_spec(username@, tsig, inbox, read),
            forall|k: int| 0 <= k < names@.len() ==> names@[k]@ == spec_names[k],
            out@.len() == i,
            forall|k: int|
                0 <= k < i ==> {
                    &&& (#[trigger] out@[k]).1@ == spec_names[k]
                    &&& out@[k].0@ == "identities/"@ + username@ + "/"@ + out@[k].1@
                },
        decreases names@.len() - i,
    {
        let f = names[i];
        let entry = archive_entry_path(username, f);
        out.push((entry, String::from_str(f)));
        i = i + 1;
    }
    out
}

/// Refuse a metadata version this build does not read.
pub fn check_meta_version(version: u32) -> (r: Result<(), CommandError>)
    ensures
        no_details(r),
        r is Ok <==> version == BACKUP_VERSION,
        r matches Err(e) ==> err_view(e) == (
            "validation"@,
            "backup-meta.version "@ + decimal(version as nat)
                + " is not supported (this build expects 1)"@,
        ),
{
    if version != BACKUP_VERSION {
        let mut m = String::from_str("backup-meta.version ");
        let d = decimal_string(version as u128);
        m.append(d.as_str());
        m.append(" is not supported (this build expects 1)");
        return Err(err("validation", m));
    }
    Ok(())
}

/// The name an import asks for: the override, trimmed, when it is not
/// blank; else the archived name, trimmed.
pub open spec fn requested_name(override_username: Option<Seq<char>>, archived: Seq<char>) -> Seq<
    char,
> {
    match override_username {
        Some(o) => if trim_seq(o).len() > 0 {
            trim_seq(o)
        } else {
            trim_seq(archived)
        },
        None => trim_seq(archived),
    }
}

/// What the name choice of an import yields: the final name and the
/// archived one, or the error. The requested name must be a valid
/// username, and so must the archived one, which must not be blank.
pub open spec fn import_names_spec(override_username: Option<Seq<char>>, archived: Seq<char>) -> Result<
    (Seq<char>, Seq<char>),
    ErrorView,
> {
    match sanitize_spec(requested_name(override_username, archived)) {
        Err(m) => Err(("validation"@, m)),
        Ok(final_name) => {
            let original = trim_seq(archived);
            if original.len() == 0 {
                Err(("validation"@, "backup-meta.username is empty"@))
            } else {
                match sanitize_spec(original) {
                    Err(m) => Err(("validation"@, m)),
                    Ok(_) => Ok((final_name, original)),
                }
            }
        },
    }
}

/// Choose the name an archive is imported under, and check the archived
/// name too: a doctored archive could hide `..` or `/` in it.
pub fn import_names(override_username: Option<&str>, archived: &str) -> (r: Result<
    (String, String),
    CommandError,
>)
    ensures
        no_details(r),
        match r {
            Ok(n) => import_names_spec(crate::index::opt_view(override_username), archived@) == Ok::<
                (Seq<char>, Seq<char>),
                ErrorView,
            >((n.0@, n.1@)),
            Err(e) => import_names_spec(crate::index::opt_view(override_username), archived@)
                == Err::<(Seq<char>, Seq<char>), ErrorView>(err_view(e)),
        },
{
    let requested = match override_username {
        Some(o) => {
            let t = trim(o);
            if t.as_str().is_empty() {
                trim(archived)
            } else {
                t
            }
        },
        None => trim(archived),
    };
    let final_name = match sanitize_username(requested.as_str()) {
        Ok(n) => n,
        Err(e) => return Err(e),
    };
    let original = trim(archived);
    if original.as_str().is_empty() {
        return Err(err("validation", String::from_str("backup-meta.username is empty")));
    }
    match sanitize_username(original.as_str()) {
        Ok(_) => {},
        Err(e) => return Err(e),
    }
    Ok((final_name, original))
}

/// What an import does with one archive entry.
#[derive(Debug, Clone)]
pub enum EntryAction {
    /// The metadata, read already.
    Skip,
    /// Extract to `<root>/<dest_rel>`; `is_tsig` marks the TSIG secret.
    Extract { suffix: String, dest_rel: String, is_tsig: bool },
}

/// What an import does with the entry at `path`, archived under
/// `original` and imported as `final_name`, or the error refusing it.
pub open spec fn entry_action_spec(path: Seq<char>, original: Seq<char>, final_name: Seq<char>) -> Result<
    Option<(Seq<char>, Seq<char>)>,
    ErrorView,
> {
    let prefix = "identities/"@ + original + "/"@;
    if path == "backup-meta.json"@ {
        Ok(None)
    } else if !has_prefix(path, prefix) {
        Err(("validation"@, "unexpected archive entry: "@ + path))
    } else {
        let suffix = path.subrange(prefix.len() as int, path.len() as int);
        if suffix.len() == 0 {
            Err(("validation"@, "archive contains an empty path suffix"@))
        } else if !all_normal(suffix) {
            Err(("validation"@, "archive path `"@ + suffix + "` contains an unsafe component"@))
        } else {
            Ok(Some((suffix, final_name + "/"@ + suffix)))
        }
    }
}

/// Decide what to do with one archive entry: skip the metadata, refuse
/// anything outside `identities/<original>/` or with an unsafe suffix,
/// and otherwise extract it to `<final_name>/<suffix>` under the root.
pub fn plan_entry(path: &str, original: &str, final_name: &str) -> (r: Result<EntryAction, CommandError>)
    ensures
        no_details(r),
        match r {
            Ok(EntryAction::Skip) => entry_action_spec(path@, original@, final_name@) == Ok::<
                Option<(Seq<char>, Seq<char>)>,
                ErrorView,
            >(None),
            Ok(EntryAction::Extract { suffix, dest_rel, is_tsig }) => {
                &&& entry_action_spec(path@, original@, final_name@) == Ok::<
                    Option<(Seq<char>, Seq<char>)>,
                    ErrorView,
                >(Some((suffix@, dest_rel@)))
                &&& is_tsig == (suffix@ == "tsig.key"@)
                &&& safe_relative(suffix@)
            },
            Err(e) => entry_action_spec(path@, original@, final_name@) == Err::<
                Option<(Seq<char>, Seq<char>)>,
                ErrorView,
            >(err_view(e)),
        },
{
    if str_eq(path, META_FILE) {
        return Ok(EntryAction::Skip);
    }
    let mut prefix = String::from_str("identities/");
    prefix.append(original);
    prefix.append("/");
    let pv = chars_of(path);
    let xv = chars_of(prefix.as_str());
    if !starts_with(pv.as_slice(), xv.as_slice()) {
        let mut m = String::from_str("unexpected archive entry: ");
        m.append(path);
        return Err(err("validation", m));
    }
    let suffix = slice_string(pv.as_slice(), xv.len(), pv.len());
    match ensure_safe_relative(suffix.as_str()) {
        Ok(()) => {},
        Err(e) => return Err(e),
    }
    let mut dest_rel = String::from_str(final_name);
    dest_rel.append("/");
    dest_rel.append(suffix.as_str());
    let is_tsig = str_eq(suffix.as_str(), TSIG_FILE);
    Ok(EntryAction::Extract { suffix, dest_rel, is_tsig })
}

/// After extraction, point the imported publish block at the identity's
/// own `tsig.key`; refuse a publish block whose secret was not in the
/// archive.
pub fn rewrite_imported_publish(
    cfg: &mut IdentityConfig,
    secret_imported: bool,
    tsig_path: String,
) -> (r: Result<(), CommandError>)
    ensures
        no_details(r),
        r is Err <==> (old(cfg).publish is Some && !secret_imported),
        r matches Err(e) ==> err_view(e) == (
            "validation"@,
            "imported config.yaml has a publish block but the archive did not include tsig.key"@,
        ),
        r is Ok ==> {
            &&& final(cfg).resolvers == old(cfg).resolvers
            &&& final(cfg).kdf_salt_base64 == old(cfg).kdf_salt_base64
            &&& final(cfg).claim_via == old(cfg).claim_via
            &&& final(cfg).verifier_spk_hex == old(cfg).verifier_spk_hex
            &&& final(cfg).publish is Some <==> old(cfg).publish is Some
            &&& (old(cfg).publish matches Some(p) ==> final(cfg).publish matches Some(q)
                && q.zone == p.zone && q.server == p.server && q.tsig_key_name == p.tsig_key_name
                && q.tsig_algorithm == p.tsig_algorithm && q.tsig_secret_path@ == tsig_path@)
        },
{
    match &mut cfg.publish {
        Some(p) => {
            if !secret_imported {
                return Err(
                    err(
                        "validation",
                        String::from_str(
                            "imported config.yaml has a publish block but the archive did not include tsig.key",
                        ),
                    ),
                );
            }
            p.tsig_secret_path = tsig_path;
            Ok(())
        },
        None => Ok(()),
    }
}

/// Every entry an import extracts lands inside the new identity's
/// directory: its destination, relative to the root, is the sanitized
/// name followed by the entry's plain-name components, so it can neither
/// be absolute nor climb out with `..`.
pub proof fn law_extracted_entries_stay_inside(
    path: Seq<char>,
    original: Seq<char>,
    requested: Seq<char>,
    final_name: Seq<char>,
    suffix: Seq<char>,
    dest_rel: Seq<char>,
)
    requires
        sanitize_spec(requested) == Ok::<Seq<char>, Seq<char>>(final_name),
        entry_action_spec(path, original, final_name) == Ok::<
            Option<(Seq<char>, Seq<char>)>,
            ErrorView,
        >(Some((suffix, dest_rel))),
    ensures
        !is_absolute(dest_rel),
        all_normal(dest_rel),
        components(dest_rel) == seq![final_name] + components(suffix),
{
    crate::paths::lemma_join_under_name(final_name, suffix);
    assert(dest_rel == final_name + seq!['/'] + suffix) by {
        reveal_strlit("/");
        assert("/"@ =~= seq!['/']);
    }
}

/// Read a backup archive: the entries read in full, in order, and the
/// fault that stopped the reading, if any.
pub fn archive_entries(raw_gz: &[u8]) -> (r: (Vec<(String, Vec<u8>)>, Option<TarFault>))
    ensures
        scan_view(r) == tar_gz_scan_of(raw_gz@),
{
    tar_gz_scan(raw_gz)
}

/// The message of a backup without metadata.
pub open spec fn missing_meta_message() -> Seq<char> {
    "archive is missing backup-meta.json — not a DMP backup"@
}

/// The error a search for the metadata ends with when the entries read
/// hold none: the fault that stopped the reading, as the metadata search
/// words it, or the missing-metadata refusal. The search does not read
/// other entries' contents, so a fault there is met as a failure to read
/// the next entry.
pub open spec fn meta_error_spec(fault: Option<(int, Seq<char>, Seq<char>)>) -> ErrorView {
    match fault {
        None => ("validation"@, missing_meta_message()),
        Some(f) => if f.0 == 0 {
            ("io"@, "opening archive failed: "@ + f.2)
        } else if f.0 == 2 && f.1 == "backup-meta.json"@ {
            ("io"@, "reading meta failed: "@ + f.2)
        } else {
            ("io"@, "reading entry failed: "@ + f.2)
        },
    }
}

/// The contents of the first `backup-meta.json` among the entries read;
/// without one, the error of the fault that stopped the reading, or the
/// `validation` error of an archive without metadata.
pub fn meta_entry(entries: &Vec<(String, Vec<u8>)>, fault: &Option<TarFault>) -> (r: Result<
    Vec<u8>,
    CommandError,
>)
    ensures
        no_details(r),
        match r {
            Ok(b) => exists|i: int|
                0 <= i < entries@.len() && #[trigger] entries@[i].0@ == "backup-meta.json"@
                    && b@ == entries@[i].1@ && forall|k: int|
                    0 <= k < i ==> (#[trigger] entries@[k]).0@ != "backup-meta.json"@,
            Err(e) => err_view(e) == meta_error_spec(opt_fault_view(*fault)) && forall|k: int|
                0 <= k < entries@.len() ==> (#[trigger] entries@[k]).0@ != "backup-meta.json"@,
        },
{
    let mut i: usize = 0;
    while i < entries.len()
        invariant
            i <= entries@.len(),
            forall|k: int| 0 <= k < i ==> (#[trigger] entries@[k]).0@ != "backup-meta.json"@,
        decreases entries@.len() - i,
    {
        if str_eq(entries[i].0.as_str(), META_FILE) {
            let b = crate::identity::slice_to_vec(entries[i].1.as_slice());
            return Ok(b);
        }
        i = i + 1;
    }
    proof {
        reveal_strlit("backup-meta.json");
    }
    let (prefix, text) = match fault {
        None => {
            return Err(
                err("validation", String::from_str("archive is missing backup-meta.json — not a DMP backup")),
            );
        },
        Some(TarFault::Open(t)) => ("opening archive failed: ", t),
        Some(TarFault::Entry(t)) => ("reading entry failed: ", t),
        Some(TarFault::Content { path, text }) => {
            if str_eq(path.as_str(), META_FILE) {
                ("reading meta failed: ", text)
            } else {
                ("reading entry failed: ", text)
            }
        },
    };
    let mut m = String::from_str(prefix);
    m.append(text.as_str());
    Err(err("io", m))
}

/// The files an import extracts from the entries `es`, archived under
/// `original` and imported as `final_name`: in order, each extracted
/// entry's destination (relative to the root), contents and whether it is
/// the TSIG secret; or the refusal of the first entry refused.
pub open spec fn import_entries_spec(
    es: Seq<(Seq<char>, Seq<u8>)>,
    original: Seq<char>,
    final_name: Seq<char>,
) -> Result<Seq<(Seq<char>, Seq<u8>, bool)>, ErrorView>
    decreases es.len(),
{
    if es.len() == 0 {
        Ok(Seq::empty())
    } else {
        match import_entries_spec(es.drop_last(), original, final_name) {
            Err(e) => Err(e),
            Ok(p) => match entry_action_spec(es.last().0, original, final_name) {
                Err(e) => Err(e),
                Ok(None) => Ok(p),
                Ok(Some(sd)) => Ok(p.push((sd.1, es.last().1, sd.0 == "tsig.key"@))),
            },
        }
    }
}

/// The error an import's extraction pass ends with at the fault that
/// stopped the reading, archived under `original` and imported as
/// `final_name`. An entry whose contents failed is first held to the
/// entry rules; the metadata, which the pass skips, fails as the next
/// entry would.
pub open spec fn import_fault_spec(
    f: (int, Seq<char>, Seq<char>),
    original: Seq<char>,
    final_name: Seq<char>,
) -> ErrorView {
    if f.0 == 0 {
        ("io"@, "opening archive entries failed: "@ + f.2)
    } else if f.0 == 1 {
        ("io"@, "reading archive entry failed: "@ + f.2)
    } else {
        match entry_action_spec(f.1, original, final_name) {
            Err(e) => e,
            Ok(None) => ("io"@, "reading archive entry failed: "@ + f.2),
            Ok(Some(_)) => ("io"@, "reading "@ + f.1 + " failed: "@ + f.2),
        }
    }
}

/// What an import decides, in order: the metadata version, the names,
/// a collision with an identity the index holds, then every entry read,
/// then the fault that stopped the reading; the final name, the archived
/// name and the files to extract, or the first refusal.
pub open spec fn import_plan_spec(
    es: Seq<(Seq<char>, Seq<u8>)>,
    fault: Option<(int, Seq<char>, Seq<char>)>,
    version: u32,
    archived: Seq<char>,
    override_username: Option<Seq<char>>,
    names: Seq<Seq<char>>,
) -> Result<(Seq<char>, Seq<char>, Seq<(Seq<char>, Seq<u8>, bool)>), ErrorView> {
    if version != BACKUP_VERSION {
        Err(
            (
                "validation"@,
                "backup-meta.version "@ + decimal(version as nat)
                    + " is not supported (this build expects 1)"@,
            ),
        )
    } else {
        match import_names_spec(override_username, archived) {
            Err(e) => Err(e),
            Ok(n) => if names.contains(n.0) {
                Err(("validation"@, crate::index::collision_message(n.0)))
            } else {
                match import_entries_spec(es, n.1, n.0) {
                    Err(e) => Err(e),
                    Ok(p) => match fault {
                        None => Ok((n.0, n.1, p)),
                        Some(f) => Err(import_fault_spec(f, n.1, n.0)),
                    },
                }
            },
        }
    }
}

/// The error an import's extraction pass ends with at `fault`.
pub fn import_fault_error(fault: &TarFault, original: &str, final_name: &str) -> (e: CommandError)
    ensures
        err_view(e) == import_fault_spec(fault_view(*fault), original@, final_name@),
        e.details is None,
{
    let (prefix, text) = match fault {
        TarFault::Open(t) => ("opening archive entries failed: ", t),
        TarFault::Entry(t) => ("reading archive entry failed: ", t),
        TarFault::Content { path, text } => {
            match plan_entry(path.as_str(), original, final_name) {
                Err(e) => return e,
                Ok(EntryAction::Skip) => ("reading archive entry failed: ", text),
                Ok(EntryAction::Extract { .. }) => {
                    let mut m = String::from_str("reading ");
                    m.append(path.as_str());
                    m.append(" failed: ");
                    m.append(text.as_str());
                    return err("io", m);
                },
            }
        },
    };
    let mut m = String::from_str(prefix);
    m.append(text.as_str());
    err("io", m)
}

/// What an import extracts and under which name.
#[derive(Debug, Clone)]
pub struct ImportPlan {
    pub final_username: String,
    pub original_username: String,
    /// (destination relative to the root, contents, is the TSIG secret).
    pub files: Vec<(String, Vec<u8>, bool)>,
    /// Whether the TSIG secret is among the files.
    pub secret_imported: bool,
}

/// The files of a plan as views.
pub open spec fn plan_files_view(v: Seq<(String, Vec<u8>, bool)>) -> Seq<(Seq<char>, Seq<u8>, bool)> {
    v.map_values(|f: (String, Vec<u8>, bool)| (f.0@, f.1@, f.2))
}

/// A refused entry keeps the import refused, however many entries follow.
proof fn lemma_entries_refused(es: Seq<(Seq<char>, Seq<u8>)>, i: int, original: Seq<char>, final_name: Seq<char>)
    requires
        0 <= i <= es.len(),
        import_entries_spec(es.take(i), original, final_name) is Err,
    ensures
        import_entries_spec(es, original, final_name) == import_entries_spec(es.take(i), original, final_name),
    decreases es.len(),
{
    if es.len() == i {
        assert(es.take(i) =~= es);
    } else {
        assert(es.drop_last().take(i) =~= es.take(i));
        lemma_entries_refused(es.drop_last(), i, original, final_name);
    }
}

/// Plan every entry of an archive archived under `original` and imported
/// as `final_name`: the files to extract, in order, and whether the TSIG
/// secret is among them; or the refusal of the first entry refused.
pub fn plan_entries(entries: &Vec<(String, Vec<u8>)>, original: &str, final_name: &str) -> (r: Result<
    (Vec<(String, Vec<u8>, bool)>, bool),
    CommandError,
>)
    ensures
        no_details(r),
        match r {
            Ok(p) => {
                &&& import_entries_spec(entries_view(entries@), original@, final_name@) == Ok::<
                    Seq<(Seq<char>, Seq<u8>, bool)>,
                    ErrorView,
                >(plan_files_view(p.0@))
                &&& p.1 == exists|k: int| 0 <= k < p.0@.len() && (#[trigger] p.0@[k]).2
            },
            Err(e) => import_entries_spec(entries_view(entries@), original@, final_name@) == Err::<
                Seq<(Seq<char>, Seq<u8>, bool)>,
                ErrorView,
            >(err_view(e)),
        },
{
    let ghost es = entries_view(entries@);
    let mut files: Vec<(String, Vec<u8>, bool)> = Vec::new();
    let mut secret_imported = false;
    let mut i: usize = 0;
    proof {
        assert(es.take(0) =~= Seq::<(Seq<char>, Seq<u8>)>::empty());
        assert(plan_files_view(files@) =~= Seq::<(Seq<char>, Seq<u8>, bool)>::empty());
    }
    while i < entries.len()
        invariant
            i <= entries@.len(),
            es == entries_view(entries@),
            es.len() == entries@.len(),
            import_entries_spec(es.take(i as int), original@, final_name@) == Ok::<
                Seq<(Seq<char>, Seq<u8>, bool)>,
                ErrorView,
            >(plan_files_view(files@)),
            secret_imported == exists|k: int| 0 <= k < files@.len() && (#[trigger] files@[k]).2,
        decreases entries@.len() - i,
    {
        let ghost prev = files@;
        proof {
            assert(es.take(i + 1).drop_last() =~= es.take(i as int));
            assert(es.take(i + 1).last() == es[i as int]);
            assert(es[i as int].0 == entries@[i as int].0@);
            assert(es[i as int].1 == entries@[i as int].1@);
        }
        match plan_entry(entries[i].0.as_str(), original, final_name) {
            Ok(EntryAction::Skip) => {},
            Ok(EntryAction::Extract { suffix, dest_rel, is_tsig }) => {
                let bytes = crate::identity::slice_to_vec(entries[i].1.as_slice());
                files.push((dest_rel, bytes, is_tsig));
                if is_tsig {
                    secret_imported = true;
                }
                proof {
                    assert(plan_files_view(files@) =~= plan_files_view(prev).push(
                        (files@.last().0@, files@.last().1@, files@.last().2),
                    ));
                    assert forall|k: int| 0 <= k < prev.len() implies files@[k] == prev[k] by {}
                    if secret_imported && !is_tsig {
                        let w = choose|k: int| 0 <= k < prev.len() && (#[trigger] prev[k]).2;
                        assert(files@[w].2);
                    }
                    if !secret_imported {
                        assert forall|k: int| 0 <= k < files@.len() implies !(#[trigger] files@[k]).2 by {
                            if k < prev.len() {
                                assert(files@[k] == prev[k]);
                            }
                        }
                    }
                    if is_tsig {
                        assert(files@[files@.len() - 1].2);
                    }
                }
            },
            Err(e) => {
                proof {
                    assert(import_entries_spec(es.take(i + 1), original@, final_name@)
                        == Err::<Seq<(Seq<char>, Seq<u8>, bool)>, ErrorView>(err_view(e)));
                    lemma_entries_refused(es, i + 1, original@, final_name@);
                }
                return Err(e);
            },
        }
        i = i + 1;
    }
    proof {
        assert(es.take(es.len() as int) =~= es);
        assert(import_entries_spec(es, original@, final_name@) == Ok::<
            Seq<(Seq<char>, Seq<u8>, bool)>,
            ErrorView,
        >(plan_files_view(files@)));
    }
    Ok((files, secret_imported))
}

/// An import plan as views: final name, archived name, files.
pub open spec fn plan_view(p: ImportPlan) -> (Seq<char>, Seq<char>, Seq<(Seq<char>, Seq<u8>, bool)>) {
    (p.final_username@, p.original_username@, plan_files_view(p.files@))
}

/// An import that goes ahead with `v`.
pub open spec fn plan_ok(v: (Seq<char>, Seq<char>, Seq<(Seq<char>, Seq<u8>, bool)>)) -> Result<
    (Seq<char>, Seq<char>, Seq<(Seq<char>, Seq<u8>, bool)>),
    ErrorView,
> {
    Ok(v)
}

/// An import refused with `e`.
pub open spec fn plan_refused(e: ErrorView) -> Result<
    (Seq<char>, Seq<char>, Seq<(Seq<char>, Seq<u8>, bool)>),
    ErrorView,
> {
    Err(e)
}

/// Decide an import of a backup whose metadata gave `meta_version` and
/// `meta_username`: refuse an unsupported version, invalid names or a
/// collision with `index`, then plan every entry read, refusing the first
/// one outside `identities/<archived name>/` or with an unsafe path, and
/// then refuse with the fault that stopped the reading, if any.
pub fn plan_import(
    entries: &Vec<(String, Vec<u8>)>,
    fault: &Option<TarFault>,
    meta_version: u32,
    meta_username: &str,
    override_username: Option<&str>,
    index: &IdentityIndex,
) -> (r: Result<ImportPlan, CommandError>)
    ensures
        no_details(r),
        r matches Ok(p) ==> import_plan_spec(
            entries_view(entries@),
            opt_fault_view(*fault),
            meta_version,
            meta_username@,
            crate::index::opt_view(override_username),
            index.usernames(),
        ) == plan_ok(plan_view(p)),
        r matches Ok(p) ==> p.secret_imported == exists|k: int|
            0 <= k < p.files@.len() && (#[trigger] p.files@[k]).2,
        r matches Err(e) ==> import_plan_spec(
            entries_view(entries@),
            opt_fault_view(*fault),
            meta_version,
            meta_username@,
            crate::index::opt_view(override_username),
            index.usernames(),
        ) == plan_refused(err_view(e)),
{
    match check_meta_version(meta_version) {
        Ok(()) => {},
        Err(e) => return Err(e),
    }
    let names = match import_names(override_username, meta_username) {
        Ok(n) => n,
        Err(e) => return Err(e),
    };
    let (final_username, original_username) = names;
    match crate::index::check_no_collision(index, final_username.as_str()) {
        Ok(()) => {},
        Err(e) => return Err(e),
    }
    match plan_entries(entries, original_username.as_str(), final_username.as_str()) {
        Ok(planned) => {
            if let Some(f) = fault {
                return Err(import_fault_error(f, original_username.as_str(), final_username.as_str()));
            }
            let (files, secret_imported) = planned;
            Ok(ImportPlan { final_username, original_username, files, secret_imported })
        },
        Err(e) => Err(e),
    }
}

/// The entries an export writes after its metadata: each identity file
/// `fs[k]` of `u` with its contents `cs[k]`.
pub open spec fn exported_files(u: Seq<char>, fs: Seq<Seq<char>>, cs: Seq<Seq<u8>>) -> Seq<
    (Seq<char>, Seq<u8>),
> {
    Seq::new(fs.len(), |k: int| ("identities/"@ + u + "/"@ + fs[k], cs[k]))
}

/// What importing those entries as `final_name` extracts: each file
/// under the final name, with its contents, the TSIG secret marked.
pub open spec fn restored_files(final_name: Seq<char>, fs: Seq<Seq<char>>, cs: Seq<Seq<u8>>) -> Seq<
    (Seq<char>, Seq<u8>, bool),
> {
    Seq::new(fs.len(), |k: int| (final_name + "/"@ + fs[k], cs[k], fs[k] == "tsig.key"@))
}

/// One exported file is extracted to `<final_name>/<file>`.
proof fn lemma_exported_entry(u: Seq<char>, f: Seq<char>, final_name: Seq<char>)
    requires
        f.len() > 0,
        !f.contains('/'),
        f[0] != '.',
    ensures
        entry_action_spec("identities/"@ + u + "/"@ + f, u, final_name) == Ok::<
            Option<(Seq<char>, Seq<char>)>,
            ErrorView,
        >(Some((f, final_name + "/"@ + f))),
{
    reveal_strlit("identities/");
    reveal_strlit("backup-meta.json");
    let prefix = "identities/"@ + u + "/"@;
    let path = prefix + f;
    assert(path =~= "identities/"@ + u + "/"@ + f);
    assert(path[0] == 'i');
    assert(path != "backup-meta.json"@);
    assert(path.subrange(0, prefix.len() as int) =~= prefix);
    assert(path.subrange(prefix.len() as int, path.len() as int) =~= f);
    crate::paths::lemma_single_name(f);
}

/// What an export writes, an import of it restores: after the metadata,
/// every identity file comes back under the imported name, in order, with
/// the same contents, the TSIG secret marked as such.
pub proof fn law_export_import_round_trip(
    u: Seq<char>,
    final_name: Seq<char>,
    meta: Seq<u8>,
    fs: Seq<Seq<char>>,
    cs: Seq<Seq<u8>>,
)
    requires
        fs.len() == cs.len(),
        forall|k: int|
            0 <= k < fs.len() ==> (#[trigger] fs[k]).len() > 0 && !fs[k].contains('/') && fs[k][0]
                != '.',
    ensures
        import_entries_spec(seq![("backup-meta.json"@, meta)] + exported_files(u, fs, cs), u, final_name)
            == Ok::<Seq<(Seq<char>, Seq<u8>, bool)>, ErrorView>(restored_files(final_name, fs, cs)),
    decreases fs.len(),
{
    let es = seq![("backup-meta.json"@, meta)] + exported_files(u, fs, cs);
    if fs.len() == 0 {
        assert(es.drop_last() =~= Seq::<(Seq<char>, Seq<u8>)>::empty());
        assert(es.last() == ("backup-meta.json"@, meta));
        assert(entry_action_spec("backup-meta.json"@, u, final_name) == Ok::<
            Option<(Seq<char>, Seq<char>)>,
            ErrorView,
        >(None));
        assert(import_entries_spec(es.drop_last(), u, final_name) == Ok::<
            Seq<(Seq<char>, Seq<u8>, bool)>,
            ErrorView,
        >(Seq::empty()));
        assert(restored_files(final_name, fs, cs) =~= Seq::<(Seq<char>, Seq<u8>, bool)>::empty());
    } else {
        let n = fs.len() - 1;
        let fs2 = fs.drop_last();
        let cs2 = cs.drop_last();
        assert forall|k: int| 0 <= k < fs2.len() implies (#[trigger] fs2[k]).len() > 0 && !fs2[k].contains('/')
            && fs2[k][0] != '.' by {
            assert(fs2[k] == fs[k]);
        }
        law_export_import_round_trip(u, final_name, meta, fs2, cs2);
        assert(es.drop_last() =~= seq![("backup-meta.json"@, meta)] + exported_files(u, fs2, cs2));
        assert(es.last() == ("identities/"@ + u + "/"@ + fs[n], cs[n]));
        assert(fs[n] == fs[n]);
        lemma_exported_entry(u, fs[n], final_name);
        assert(restored_files(final_name, fs, cs) =~= restored_files(final_name, fs2, cs2).push(
            (final_name + "/"@ + fs[n], cs[n], fs[n] == "tsig.key"@),
        ));
    }
}

/// What an export writes, an import of it restores: an archive whose
/// reading gives the metadata and then the identity's files, with no
/// fault (as `export_archive` states of what it packs), yields that
/// metadata, and once the version, the names and the index allow the
/// import, every file comes back under the imported name, in order, with
/// the same contents, the TSIG secret marked as such.
pub proof fn law_backup_round_trip(
    raw: Seq<u8>,
    meta: Seq<u8>,
    u: Seq<char>,
    fs: Seq<Seq<char>>,
    cs: Seq<Seq<u8>>,
    override_username: Option<Seq<char>>,
    final_name: Seq<char>,
    names: Seq<Seq<char>>,
)
    requires
        tar_gz_scan_of(raw) == scanned_clean(
            seq![("backup-meta.json"@, meta)] + exported_files(u, fs, cs),
        ),
        fs.len() == cs.len(),
        forall|k: int|
            0 <= k < fs.len() ==> (#[trigger] fs[k]).len() > 0 && !fs[k].contains('/') && fs[k][0]
                != '.',
        import_names_spec(override_username, u) == Ok::<(Seq<char>, Seq<char>), ErrorView>(
            (final_name, u),
        ),
        !names.contains(final_name),
    ensures
        tar_gz_scan_of(raw).0[0] == ("backup-meta.json"@, meta),
        tar_gz_scan_of(raw).1 is None,
        import_plan_spec(
            tar_gz_scan_of(raw).0,
            tar_gz_scan_of(raw).1,
            BACKUP_VERSION,
            u,
            override_username,
            names,
        ) == Ok::<(Seq<char>, Seq<char>, Seq<(Seq<char>, Seq<u8>, bool)>), ErrorView>(
            (final_name, u, restored_files(final_name, fs, cs)),
        ),
{
    law_export_import_round_trip(u, final_name, meta, fs, cs);
}

/// The file mode of every archive entry: owner read-write, others read.
pub const ENTRY_MODE: u32 = 0o644;

/// The message refusing an entry name the archive could not hold.
pub open spec fn unsafe_entry_message(name: Seq<char>) -> Seq<char> {
    "appending "@ + name + " to archive failed: the name is not a plain relative path"@
}

/// Pack an export: `backup-meta.json` (the serialised metadata, stamped
/// `generated_at`) first, then the identity files in order, into a
/// gzip-compressed tar archive, every entry with mode `ENTRY_MODE` and
/// its own modification time. Returns the archive and its file count,
/// the metadata included. An entry name the archive could not hold
/// unchanged is refused.
pub fn export_archive(meta_json: Vec<u8>, generated_at: u64, files: Vec<(String, Vec<u8>, u64)>) -> (r: Result<
    (Vec<u8>, usize),
    CommandError,
>)
    ensures
        no_details(r),
        r is Ok <==> forall|k: int| 0 <= k < files@.len() ==> tar_name_ok(#[trigger] files@[k].0@),
        r matches Ok(out) ==> {
            &&& out.0@ == tar_gz_built_of(
                seq![("backup-meta.json"@, meta_json@, generated_at)] + built_full_view(files@),
                ENTRY_MODE,
            )
            &&& tar_gz_scan_of(out.0@) == scanned_clean(
                seq![("backup-meta.json"@, meta_json@)] + built_view(files@),
            )
            &&& out.1 == files@.len() + 1
        },
        r matches Err(e) ==> exists|k: int|
            0 <= k < files@.len() && !tar_name_ok(#[trigger] files@[k].0@) && err_view(e) == (
                "io"@,
                unsafe_entry_message(files@[k].0@),
            ),
{
    let mut i: usize = 0;
    while i < files.len()
        invariant
            i <= files@.len(),
            forall|k: int| 0 <= k < i ==> tar_name_ok(#[trigger] files@[k].0@),
        decreases files@.len() - i,
    {
        let cs = chars_of(files[i].0.as_str());
        if !tar_name_check(cs.as_slice()) {
            let mut m = String::from_str("appending ");
            m.append(files[i].0.as_str());
            m.append(" to archive failed: the name is not a plain relative path");
            return Err(err("io", m));
        }
        i = i + 1;
    }
    let ghost fv = files@;
    let mut all: Vec<(String, Vec<u8>, u64)> = Vec::new();
    all.push((String::from_str(META_FILE), meta_json, generated_at));
    proof {
        reveal_strlit("backup-meta.json");
    }
    let mut rest = files;
    all.append(&mut rest);
    proof {
        assert(all@ =~= seq![all@[0]] + fv);
        assert(tar_name_ok(all@[0].0@));
        assert forall|k: int| 0 <= k < all@.len() implies tar_name_ok(#[trigger] all@[k].0@) by {
            if k > 0 {
                assert(all@[k] == fv[k - 1]);
            }
        }
        assert(built_view(all@) =~= seq![("backup-meta.json"@, all@[0].1@)] + built_view(fv));
        assert(built_full_view(all@) =~= seq![("backup-meta.json"@, all@[0].1@, generated_at)]
            + built_full_view(fv));
    }
    let n = all.len();
    match tar_gz_build(&all, ENTRY_MODE) {
        Ok(b) => Ok((b, n)),
        Err(t) => {
            let mut m = String::from_str("finalising archive failed: ");
            m.append(t.as_str());
            Err(err("io", m))
        },
    }
}


/// The five file names an export may pack are distinct.
proof fn lemma_export_names_distinct()
    ensures
        "config.yaml"@ != "dmp-rs.sqlite"@,
        "config.yaml"@ != "tsig.key"@,
        "config.yaml"@ != "inbox.jsonl"@,
        "config.yaml"@ != "inbox-read.json"@,
        "dmp-rs.sqlite"@ != "tsig.key"@,
        "dmp-rs.sqlite"@ != "inbox.jsonl"@,
        "dmp-rs.sqlite"@ != "inbox-read.json"@,
        "tsig.key"@ != "inbox.jsonl"@,
        "tsig.key"@ != "inbox-read.json"@,
        "inbox.jsonl"@ != "inbox-read.json"@,
{
    reveal_strlit("config.yaml");
    reveal_strlit("dmp-rs.sqlite");
    reveal_strlit("tsig.key");
    reveal_strlit("inbox.jsonl");
    reveal_strlit("inbox-read.json");
    assert("config.yaml"@[0] != "dmp-rs.sqlite"@[0]);
    assert("config.yaml"@[0] != "tsig.key"@[0]);
    assert("config.yaml"@[0] != "inbox.jsonl"@[0]);
    assert("config.yaml"@[0] != "inbox-read.json"@[0]);
    assert("dmp-rs.sqlite"@[0] != "tsig.key"@[0]);
    assert("dmp-rs.sqlite"@[0] != "inbox.jsonl"@[0]);
    assert("dmp-rs.sqlite"@[0] != "inbox-read.json"@[0]);
    assert("tsig.key"@[0] != "inbox.jsonl"@[0]);
    assert("tsig.key"@[0] != "inbox-read.json"@[0]);
    assert("inbox.jsonl"@[5] != "inbox-read.json"@[5]);
}

/// An export packs the config and the database first and then each
/// optional identity file exactly when it is present, whatever else is
/// present: the TSIG secret, the inbox and its read state, each once.
pub proof fn law_export_entries_follow_presence(u: Seq<char>, tsig: bool, inbox: bool, read: bool)
    ensures
        export_entries_spec(u, tsig, inbox, read).len() == 2 + (if tsig { 1int } else { 0 }) + (if inbox {
            1int
        } else {
            0
        }) + (if read { 1int } else { 0 }),
        export_entries_spec(u, tsig, inbox, read)[0] == "config.yaml"@,
        export_entries_spec(u, tsig, inbox, read)[1] == "dmp-rs.sqlite"@,
        export_entries_spec(u, tsig, inbox, read).contains("tsig.key"@) <==> tsig,
        export_entries_spec(u, tsig, inbox, read).contains("inbox.jsonl"@) <==> inbox,
        export_entries_spec(u, tsig, inbox, read).contains("inbox-read.json"@) <==> read,
        forall|i: int, j: int|
            0 <= i < j < export_entries_spec(u, tsig, inbox, read).len() ==> export_entries_spec(
                u,
                tsig,
                inbox,
                read,
            )[i] != export_entries_spec(u, tsig, inbox, read)[j],
{
    lemma_export_names_distinct();
    let s = export_entries_spec(u, tsig, inbox, read);
    if tsig {
        assert(s[2] == "tsig.key"@);
    }
    if inbox {
        let k = if tsig { 3int } else { 2int };
        assert(s[k] == "inbox.jsonl"@);
    }
    if read {
        let k = 2 + (if tsig { 1int } else { 0 }) + (if inbox { 1int } else { 0 });
        assert(s[k] == "inbox-read.json"@);
    }
}

} // verus!
