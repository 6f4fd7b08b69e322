//! The directories below a root, as the setup pages show them.

use vstd::prelude::*;
use crate::config::DirProbe;
use crate::pools::{usage_from_blocks, usage_of, BlockStats};
use crate::text::{is_blank, is_blank_str};

verus! {

/// One directory below a root, with the size of the storage behind it.
#[derive(Debug, Clone)]
pub struct DirectoryEntry {
    pub name: String,
    pub full_path: String,
    pub total_bytes: u64,
    pub used_bytes: u64,
    pub free_bytes: u64,
}

/// Why a root could not be listed.
#[derive(Debug, Clone)]
pub enum PathsError {
    /// No root was given.
    MissingRoot,
    /// Nothing is at the path.
    NotFound(String),
    /// The path is no directory.
    NotDirectory(String),
    /// The path could not be looked at, with the error's words.
    NotReadable(String, String),
    /// The entries below the path could not be read, with the error's words.
    Enumerate(String, String),
    /// The filesystem behind the path did not give its size, with the
    /// error's words.
    Stat(String, String),
}

/// What a failure says to the one who asked.
pub open spec fn failure_words(e: PathsError) -> Seq<char> {
    match e {
        PathsError::MissingRoot => "root query parameter is required"@,
        PathsError::NotFound(path) => "Root path '"@ + path@ + "' not found"@,
        PathsError::NotDirectory(path) => "Root path '"@ + path@ + "' is not a directory"@,
        PathsError::NotReadable(path, _) => "Root path '"@ + path@ + "' is not readable"@,
        PathsError::Enumerate(path, _) => "Failed to enumerate '"@ + path@ + "'"@,
        PathsError::Stat(path, _) => "Failed to read filesystem stats for '"@ + path@ + "'"@,
    }
}

/// `a`, `b` and `c` written one after the other.
fn concat3(a: &str, b: &str, c: &str) -> (r: String)
    ensures
        r@ == a@ + b@ + c@,
{
    let mut out = a.to_owned();
    out.append(b);
    out.append(c);
    out
}

impl PathsError {
    /// What the failure says to the one who asked.
    pub fn to_string(&self) -> (r: String)
        ensures
            r@ == failure_words(*self),
    {
        match self {
            PathsError::MissingRoot => "root query parameter is required".to_owned(),
            PathsError::NotFound(path) => concat3("Root path '", path.as_str(), "' not found"),
            PathsError::NotDirectory(path) => concat3(
                "Root path '",
                path.as_str(),
                "' is not a directory",
            ),
            PathsError::NotReadable(path, _) => concat3(
                "Root path '",
                path.as_str(),
                "' is not readable",
            ),
            PathsError::Enumerate(path, _) => concat3("Failed to enumerate '", path.as_str(), "'"),
            PathsError::Stat(path, _) => concat3(
                "Failed to read filesystem stats for '",
                path.as_str(),
                "'",
            ),
        }
    }

    /// The HTTP status that answers the request: the caller's fault unless
    /// listing or measuring failed.
    pub fn status_code(&self) -> (r: u16)
        ensures
            r == if *self is Enumerate || *self is Stat {
                500u16
            } else {
                400u16
            },
    {
        match self {
            PathsError::Enumerate(_, _) => 500,
            PathsError::Stat(_, _) => 500,
            _ => 400,
        }
    }
}

/// Accepts a root to list, given what a look at it found: the root as it
/// was given, or the reason against it.
pub fn validate_root(root: &str, probe: &DirProbe) -> (r: Result<String, PathsError>)
    ensures
        r is Ok <==> !is_blank(root@) && *probe is Directory,
        r matches Ok(path) ==> path@ == root@,
        r matches Err(e) ==> {
            if is_blank(root@) {
                e is MissingRoot
            } else {
                match *probe {
                    DirProbe::Directory => false,
                    DirProbe::NotDirectory => e matches PathsError::NotDirectory(p) && p@ == root@,
                    DirProbe::Missing => e matches PathsError::NotFound(p) && p@ == root@,
                    DirProbe::Unreadable(words) => e matches PathsError::NotReadable(p, w) && p@
                        == root@ && w@ == words@,
                }
            }
        },
{
    if is_blank_str(root) {
        return Err(PathsError::MissingRoot);
    }
    match probe {
        DirProbe::Directory => Ok(root.to_owned()),
        DirProbe::NotDirectory => Err(PathsError::NotDirectory(root.to_owned())),
        DirProbe::Missing => Err(PathsError::NotFound(root.to_owned())),
        DirProbe::Unreadable(words) => Err(PathsError::NotReadable(root.to_owned(), words.clone())),
    }
}

/// The entry of a directory below a root, with the size of the storage
/// behind it.
pub fn directory_entry(name: &str, full_path: &str, stats: &BlockStats) -> (r: DirectoryEntry)
    ensures
        r.name@ == name@,
        r.full_path@ == full_path@,
        r.total_bytes == usage_of(*stats).total_bytes,
        r.used_bytes == usage_of(*stats).used_bytes,
        r.free_bytes == usage_of(*stats).free_bytes,
{
    let usage = usage_from_blocks(stats);
    DirectoryEntry {
        name: name.to_owned(),
        full_path: full_path.to_owned(),
        total_bytes: usage.total_bytes,
        used_bytes: usage.used_bytes,
        free_bytes: usage.free_bytes,
    }
}

} // verus!
