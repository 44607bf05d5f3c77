//! The error kinds that the manifest core can report. Every failure is a
//! value returned to the caller; the core never terminates the process.

use vstd::prelude::*;

verus! {

/// One error kind, each carrying a human-readable detail string.
#[derive(Clone, PartialEq, Eq, Debug)]
pub enum KraitError {
    /// The directory is not under version control.
    NotARepository(String),
    /// The repository has no symbolic branch at its head.
    DetachedHead(String),
    /// No configured remote points at a supported hosting provider.
    NoValidRemote,
    /// The repository has no `packages` directory.
    NoPackagesDirectory,
    /// A package directory has no descriptor declaring its version.
    MissingPackageDescriptor(String),
    /// A package directory contains a nested directory.
    UnsupportedNestedContent(String),
    /// A subpath has no history in the repository.
    NoSuchRevision(String),
    /// A file could not be opened, read or written.
    IoError(String),
    /// A manifest script failed to run or could not be coerced to the schema.
    ManifestParseError(String),
}

/// The mathematical shape of an error: the same kinds over character
/// sequences, so that contracts can speak of them.
pub enum KraitErrorV {
    NotARepository(Seq<char>),
    DetachedHead(Seq<char>),
    NoValidRemote,
    NoPackagesDirectory,
    MissingPackageDescriptor(Seq<char>),
    UnsupportedNestedContent(Seq<char>),
    NoSuchRevision(Seq<char>),
    IoError(Seq<char>),
    ManifestParseError(Seq<char>),
}

impl View for KraitError {
    type V = KraitErrorV;

    open spec fn view(&self) -> KraitErrorV {
        match self {
            KraitError::NotARepository(d) => KraitErrorV::NotARepository(d@),
            KraitError::DetachedHead(d) => KraitErrorV::DetachedHead(d@),
            KraitError::NoValidRemote => KraitErrorV::NoValidRemote,
            KraitError::NoPackagesDirectory => KraitErrorV::NoPackagesDirectory,
            KraitError::MissingPackageDescriptor(d) => KraitErrorV::MissingPackageDescriptor(d@),
            KraitError::UnsupportedNestedContent(d) => KraitErrorV::UnsupportedNestedContent(d@),
            KraitError::NoSuchRevision(d) => KraitErrorV::NoSuchRevision(d@),
            KraitError::IoError(d) => KraitErrorV::IoError(d@),
            KraitError::ManifestParseError(d) => KraitErrorV::ManifestParseError(d@),
        }
    }
}

impl KraitError {
    /// A short name for the kind, for callers that print errors.
    pub fn kind_name(&self) -> (r: &'static str) {
        match self {
            KraitError::NotARepository(_) => "not a repository",
            KraitError::DetachedHead(_) => "detached head",
            KraitError::NoValidRemote => "no valid remote",
            KraitError::NoPackagesDirectory => "no packages directory",
            KraitError::MissingPackageDescriptor(_) => "missing package descriptor",
            KraitError::UnsupportedNestedContent(_) => "unsupported nested content",
            KraitError::NoSuchRevision(_) => "no such revision",
            KraitError::IoError(_) => "io error",
            KraitError::ManifestParseError(_) => "manifest parse error",
        }
    }
}

} // verus!
