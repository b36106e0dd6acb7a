//! Gzip-compressed tar archives, read and written in memory with the
//! `tar` and `flate2` crates, and the entry names such an archive can
//! hold unchanged.

use vstd::prelude::*;
use flate2::read::GzDecoder;
use std::io::Read;
use tar::Archive;

verus! {

/// What reading the gzip-compressed tar archive `raw` yields: the
/// entries read in full before any fault, in archive order, as (path,
/// contents) with the path's bytes decoded lossily; and the fault
/// that stopped the reading, if any, as `fault_view` gives it.
pub uninterp spec fn tar_gz_scan_of(raw: Seq<u8>) -> (
    Seq<(Seq<char>, Seq<u8>)>,
    Option<(int, Seq<char>, Seq<char>)>,
);

/// The gzip-compressed tar archive `tar_gz_build` writes for `entries`
/// (name, contents, modification time), each with file mode `mode`.
pub uninterp spec fn tar_gz_built_of(entries: Seq<(Seq<char>, Seq<u8>, u64)>, mode: u32) -> Seq<u8>;

/// What stopped the reading of an archive, with the error's text.
#[derive(Debug, Clone)]
pub enum TarFault {
    /// The entry list could not be opened.
    Open(String),
    /// The next entry could not be read.
    Entry(String),
    /// The contents of the entry at `path` could not be read.
    Content { path: String, text: String },
}

/// A fault as (stage, path, text): stage 0 opening, 1 reading the next
/// entry, 2 reading an entry's contents (with its path).
pub open spec fn fault_view(f: TarFault) -> (int, Seq<char>, Seq<char>) {
    match f {
        TarFault::Open(t) => (0, Seq::empty(), t@),
        TarFault::Entry(t) => (1, Seq::empty(), t@),
        TarFault::Content { path, text } => (2, path@, text@),
    }
}

/// An optional fault, viewed.
pub open spec fn opt_fault_view(f: Option<TarFault>) -> Option<(int, Seq<char>, Seq<char>)> {
    match f {
        Some(x) => Some(fault_view(x)),
        None => None,
    }
}

/// A reading that got `entries` and met no fault.
pub open spec fn scanned_clean(entries: Seq<(Seq<char>, Seq<u8>)>) -> (
    Seq<(Seq<char>, Seq<u8>)>,
    Option<(int, Seq<char>, Seq<char>)>,
) {
    (entries, None)
}

/// What a reading returned, viewed.
pub open spec fn scan_view(r: (Vec<(String, Vec<u8>)>, Option<TarFault>)) -> (
    Seq<(Seq<char>, Seq<u8>)>,
    Option<(int, Seq<char>, Seq<char>)>,
) {
    (entries_view(r.0@), opt_fault_view(r.1))
}

/// Entries as (name, contents) views.
pub open spec fn entries_view(v: Seq<(String, Vec<u8>)>) -> Seq<(Seq<char>, Seq<u8>)> {
    v.map_values(|e: (String, Vec<u8>)| (e.0@, e.1@))
}

/// Entries to write, with their modification times, as (name, contents)
/// views.
pub open spec fn built_view(v: Seq<(String, Vec<u8>, u64)>) -> Seq<(Seq<char>, Seq<u8>)> {
    v.map_values(|e: (String, Vec<u8>, u64)| (e.0@, e.1@))
}

/// Entries to write as (name, contents, modification time) views.
pub open spec fn built_full_view(v: Seq<(String, Vec<u8>, u64)>) -> Seq<(Seq<char>, Seq<u8>, u64)> {
    v.map_values(|e: (String, Vec<u8>, u64)| (e.0@, e.1@, e.2))
}

/// Whether position `i` of `n` begins a `/`-separated segment.
pub open spec fn seg_starts(n: Seq<char>, i: int) -> bool {
    i == 0 || n[i - 1] == '/'
}

/// Whether position `i` of `n` ends a `/`-separated segment.
pub open spec fn seg_ends(n: Seq<char>, i: int) -> bool {
    i == n.len() || n[i] == '/'
}

/// Whether position `i` of `n` is acceptable in an archive entry name: no
/// NUL; a `/` neither first, last nor doubled; and no segment that is
/// `.` or `..`.
pub open spec fn tar_char_ok(n: Seq<char>, i: int) -> bool {
    &&& n[i] != '\0'
    &&& n[i] == '/' ==> (0 < i && i + 1 < n.len() && n[i + 1] != '/')
    &&& !(n[i] == '.' && seg_starts(n, i) && seg_ends(n, i + 1))
    &&& !(i + 1 < n.len() && n[i] == '.' && n[i + 1] == '.' && seg_starts(n, i) && seg_ends(
        n,
        i + 2,
    ))
}

/// A relative entry name that tar stores and reads back unchanged: not
/// empty, and made of `/`-separated segments that are neither empty nor
/// `.` or `..`, with no NUL.
pub open spec fn tar_name_ok(n: Seq<char>) -> bool {
    n.len() > 0 && forall|i: int| 0 <= i < n.len() ==> tar_char_ok(n, i)
}

/// Check `tar_name_ok`.
pub fn tar_name_check(n: &[char]) -> (r: bool)
    ensures
        r == tar_name_ok(n@),
{
    if n.len() == 0 {
        return false;
    }
    let mut i: usize = 0;
    while i < n.len()
        invariant
            i <= n@.len(),
            n@.len() > 0,
            forall|k: int| 0 <= k < i ==> tar_char_ok(n@, k),
        decreases n@.len() - i,
    {
        let c = n[i];
        let starts = i == 0 || n[i - 1] == '/';
        assert(starts == seg_starts(n@, i as int));
        if c == '\0' {
            assert(!tar_char_ok(n@, i as int));
            return false;
        }
        if c == '/' && !(0 < i && i + 1 < n.len() && n[i + 1] != '/') {
            assert(!tar_char_ok(n@, i as int));
            return false;
        }
        if c == '.' && starts && (i + 1 == n.len() || n[i + 1] == '/') {
            assert(seg_ends(n@, i + 1));
            assert(!tar_char_ok(n@, i as int));
            return false;
        }
        if i + 1 < n.len() && c == '.' && n[i + 1] == '.' && starts && (i + 2 == n.len() || n[i
            + 2] == '/') {
            assert(seg_ends(n@, i + 2));
            assert(!tar_char_ok(n@, i as int));
            return false;
        }
        i = i + 1;
    }
    true
}

/// Read a gzip-compressed tar archive (`flate2`'s `GzDecoder` under
/// `tar::Archive::entries`; each entry's `path_bytes()` decoded lossily,
/// which on Unix is what `path().to_string_lossy()` gives, and its
/// contents by `read_to_end`), stopping at the first fault.
///
/// Claims: the entries read and the fault are `tar_gz_scan_of` of the
/// bytes, each error carried as its `Display` text.
#[verifier::external_body]
pub(crate) fn tar_gz_scan(raw_gz: &[u8]) -> (r: (Vec<(String, Vec<u8>)>, Option<TarFault>))
    ensures
        scan_view(r) == tar_gz_scan_of(raw_gz@),
{
    let mut out = Vec::new();
    let mut ar = Archive::new(GzDecoder::new(raw_gz));
    let it = match ar.entries() { Ok(it) => it, Err(e) => return (out, Some(TarFault::Open(e.to_string()))) };
    for item in it {
        let mut en = match item { Ok(x) => x, Err(e) => return (out, Some(TarFault::Entry(e.to_string()))) };
        let path = String::from_utf8_lossy(&en.path_bytes()).into_owned();
        let mut bytes = Vec::new();
        if let Err(e) = en.read_to_end(&mut bytes) { return (out, Some(TarFault::Content { path, text: e.to_string() })) }
        out.push((path, bytes));
    }
    (out, None)
}

/// Write a gzip-compressed tar archive in memory (`tar::Builder` over
/// `flate2`'s `GzEncoder`, one GNU header per entry with mode `mode`, its
/// size and its modification time, via `append_data`).
///
/// Claims: with every name acceptable to `tar_name_ok`, writing succeeds
/// (the sink is a `Vec`, and `append_data` refuses only absolute names,
/// `..`, empty names and NUL); the archive is `tar_gz_built_of` of the
/// entries and mode; and reading it back yields the entries' names and
/// contents in order, with no fault.
#[verifier::external_body]
pub(crate) fn tar_gz_build(entries: &Vec<(String, Vec<u8>, u64)>, mode: u32) -> (r: Result<Vec<u8>, String>)
    requires
        forall|k: int| 0 <= k < entries@.len() ==> tar_name_ok(#[trigger] entries@[k].0@),
    ensures
        r is Ok,
        r matches Ok(b) ==> b@ == tar_gz_built_of(built_full_view(entries@), mode),
        r matches Ok(b) ==> tar_gz_scan_of(b@) == scanned_clean(built_view(entries@)),
{
    let gz = flate2::write::GzEncoder::new(Vec::new(), flate2::Compression::default());
    let mut tar = tar::Builder::new(gz);
    for (name, bytes, mtime) in entries.iter() {
        let mut header = tar::Header::new_gnu();
        header.set_size(bytes.len() as u64);
        header.set_mode(mode);
        header.set_mtime(*mtime);
        tar.append_data(&mut header, name, bytes.as_slice()).map_err(|e| e.to_string())?;
    }
    tar.into_inner().and_then(|gz| gz.finish()).map_err(|e| e.to_string())
}

} // verus!
