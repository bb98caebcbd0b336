//! What the server asks of the file system, and what it is told.
//!
//! Work that needs the file system is a run: it has a request pending, is resumed with the reply, and
//! is done when nothing is pending any more.
use vstd::prelude::*;

verus! {

/// Something that the file system is asked for.
#[derive(Debug)]
pub enum DiskRequest {
    /// The canonical form of a path, with all symbolic links followed.
    Canonicalize(Vec<u8>),
    /// When a file was last modified, in nanoseconds since the epoch.
    Modified(Vec<u8>),
    /// The text in a file.
    ReadText(Vec<u8>),
    /// The bytes in a file.
    ReadBytes(Vec<u8>),
    /// The entries of a directory.
    ReadDir(Vec<u8>),
}

/// An entry of a directory as the file system gives it.
#[derive(Debug)]
pub struct RawEntry {
    /// The name; what is not Unicode in it has been replaced.
    pub name: String,
    pub path: Vec<u8>,
    pub is_dir: bool,
    pub is_file: bool,
}

/// What came of a request. A text that stands for an error says what the system said.
#[derive(Debug)]
pub enum DiskReply {
    Canonical(Result<Vec<u8>, String>),
    Modified(Result<i128, String>),
    Text(Result<String, String>),
    Bytes(Result<Vec<u8>, String>),
    Entries(Result<Vec<RawEntry>, String>),
}

/// Whether a reply is one to the request, whatever it says.
pub open spec fn answers(reply: DiskReply, request: DiskRequest) -> bool {
    match (request, reply) {
        (DiskRequest::Canonicalize(_), DiskReply::Canonical(_)) => true,
        (DiskRequest::Modified(_), DiskReply::Modified(_)) => true,
        (DiskRequest::ReadText(_), DiskReply::Text(_)) => true,
        (DiskRequest::ReadBytes(_), DiskReply::Bytes(_)) => true,
        (DiskRequest::ReadDir(_), DiskReply::Entries(_)) => true,
        _ => false,
    }
}

} // verus!
