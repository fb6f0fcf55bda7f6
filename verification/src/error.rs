//! Error classification for a scan. Every failure is fatal to the running
//! scan; each class carries the human-readable message text that the caller
//! receives.

use vstd::prelude::*;
use vstd::string::StringExecFns;

verus! {

/// Why a scan failed.
#[derive(Clone, Copy, Debug, PartialEq, Eq, Structural)]
pub enum ScanErrorKind {
    /// The root path could not be resolved (missing, permission denied,
    /// invalid).
    PathAccess,
    /// The resolved root exists but is not a directory.
    NotADirectory,
    /// The directory listing operation itself failed after validation.
    Listing,
    /// Reading one entry of the listing failed mid-scan.
    EntryRead,
    /// One entry's metadata could not be read.
    Metadata,
    /// Delivering an event to the sink failed.
    Sink,
}

/// A fatal scan failure: its class, and the detail text of the underlying
/// failure (empty where there is none).
pub struct ScanError {
    pub kind: ScanErrorKind,
    pub detail: String,
}

/// The fixed text that opens the message of each error class.
pub open spec fn kind_prefix(k: ScanErrorKind) -> Seq<char> {
    match k {
        ScanErrorKind::PathAccess => "Unable to access directory: "@,
        ScanErrorKind::NotADirectory => "Selected path is not a directory."@,
        ScanErrorKind::Listing => "Unable to read directory: "@,
        ScanErrorKind::EntryRead => "Scan failed: "@,
        ScanErrorKind::Metadata => "Metadata error: "@,
        ScanErrorKind::Sink => "Event dispatch failed: "@,
    }
}

impl ScanError {
    /// Packs a failure class with the underlying failure's own text.
    pub fn new(kind: ScanErrorKind, detail: String) -> (r: ScanError)
        ensures
            r.kind == kind,
            r.detail == detail,
    {
        ScanError { kind, detail }
    }

    /// The human-readable message surfaced to the caller: the class's fixed
    /// text followed by the underlying failure's own text.
    pub fn message(&self) -> (r: String)
        ensures
            r@ == kind_prefix(self.kind) + self.detail@,
    {
        let p: &str = match self.kind {
            ScanErrorKind::PathAccess => "Unable to access directory: ",
            ScanErrorKind::NotADirectory => "Selected path is not a directory.",
            ScanErrorKind::Listing => "Unable to read directory: ",
            ScanErrorKind::EntryRead => "Scan failed: ",
            ScanErrorKind::Metadata => "Metadata error: ",
            ScanErrorKind::Sink => "Event dispatch failed: ",
        };
        let s = <String as StringExecFns>::from_str(p);
        s.concat(self.detail.as_str())
    }
}

/// Classifies the outcome of root-path validation. `None` means the root did
/// not resolve, which fails as a path-access error carrying the resolver's
/// text; `Some(false)` means it resolved to something other than a
/// directory, which is rejected as such; `Some(true)` lets the scan proceed.
pub fn validate_root(resolved_is_dir: Option<bool>, detail: String) -> (r: Result<(), ScanError>)
    ensures
        resolved_is_dir is None ==> r is Err && r->Err_0.kind == ScanErrorKind::PathAccess
            && r->Err_0.detail == detail,
        resolved_is_dir == Some(false) ==> r is Err && r->Err_0.kind
            == ScanErrorKind::NotADirectory && r->Err_0.detail@ == Seq::<char>::empty(),
        resolved_is_dir == Some(true) ==> r is Ok,
{
    match resolved_is_dir {
        None => Err(ScanError { kind: ScanErrorKind::PathAccess, detail }),
        Some(false) => {
            let empty = <String as StringExecFns>::from_str("");
            proof {
                reveal_strlit("");
                assert(empty@ =~= Seq::<char>::empty());
            }
            Err(ScanError { kind: ScanErrorKind::NotADirectory, detail: empty })
        },
        Some(true) => Ok(()),
    }
}

} // verus!
