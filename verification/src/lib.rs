//! Verified core of the DNSMesh desktop host: the on-disk formats, the
//! validation rules and the bookkeeping decisions behind every command.

pub mod error;
pub mod text;
pub mod username;
pub mod bytes;
pub mod crypto;
pub mod archive;
pub mod atrest;
pub mod paths;
pub mod hexcodec;
pub mod state;
pub mod index;
pub mod identity;
pub mod tsig;
pub mod tarball;
pub mod backup;
pub mod import_cli;
pub mod sent;
pub mod inbox;
pub mod contacts;
pub mod messaging;
pub mod intro;
pub mod nodes;
