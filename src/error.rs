use vstd::prelude::*;

verus! {

/// The conditions that an operation of the library can end in.
#[derive(PartialEq, Eq, Structural, Clone, Copy, Debug)]
pub enum GError {
    /// The remote index could not be fetched or read; the previous catalog stands.
    CatalogUnavailable,
    /// No catalog entry and no explicit location for the requested target.
    UnresolvedTarget,
    /// The artifact could not be downloaded within the allowed attempts.
    DownloadFailed,
    /// The artifact's digest did not match the published reference.
    ChecksumMismatch,
    /// The unpacked archive did not hold exactly one top-level directory.
    AmbiguousArchiveLayout,
    /// The configure or build step failed.
    BuildFailed,
    /// The target is not installed.
    UnknownVersion,
    /// The target is the active version and removal was not forced.
    CannotRemoveActive,
    /// No prefix root was supplied.
    ConfigurationError,
    /// The host's operating system has no published binaries.
    UnsupportedOS,
}

} // verus!
