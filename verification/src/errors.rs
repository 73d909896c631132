//! The installer's error taxonomy. Every failure of the verified pipeline is
//! one of these; the surrounding program renders them for the caller.
use vstd::prelude::*;

verus! {

/// A malformed or unsupported pack manifest. Always fatal before any file
/// is downloaded.
#[derive(Clone, Copy, PartialEq, Eq, Structural, Debug)]
pub enum ManifestError {
    /// `formatVersion` is not the supported version 1.
    UnsupportedFormatVersion,
    /// `game` is not `minecraft`.
    UnsupportedGame,
    /// The manifest declares the unsupported loader dependency.
    UnsupportedLoader,
    /// The manifest declares no target game version.
    MissingGameVersion,
}

/// Hostile or spec-violating input: an unsafe path or a missing mandated
/// hash. Always fatal.
#[derive(Clone, Copy, PartialEq, Eq, Structural, Debug)]
pub enum ValidationError {
    /// A manifest or archive path that the sanitizer rejects.
    UnsafePath,
    /// A file entry without the mandated `sha512` hash.
    MissingSha512,
    /// A hash value that is not a well-formed lower-case hex string.
    InvalidHashHex,
}

/// A failure reaching or speaking to a mirror. Fatal for that mirror; fatal
/// for the file once every mirror has failed.
#[derive(Clone, Copy, PartialEq, Eq, Structural, Debug)]
pub enum NetworkError {
    /// The URL could not be parsed into a scheme and a host.
    InvalidUrl,
    /// The URL has no host.
    NoHost,
    /// The host is not in the download allow-list.
    DomainNotAllowed,
    /// A scheme other than `http` or `https`.
    UnexpectedScheme,
    /// The server answered with a status other than 200.
    Status(u16),
    /// The request could not be completed.
    Transport,
}

/// Downloaded bytes that do not match the manifest's pinned size or hash.
/// Each variant carries both the expected and the received value, so a
/// report of the failure can show them side by side.
#[derive(Clone, PartialEq, Eq, Debug)]
pub enum IntegrityError {
    /// The stream exceeded the expected size; aborted mid-transfer.
    TooLarge { expected: u64, received: u64 },
    /// The stream ended with fewer bytes than expected.
    WrongSize { expected: u64, received: u64 },
    /// The complete stream does not hash to the expected digest.
    WrongHash { expected: Vec<u8>, received: Vec<u8> },
}

/// Any failure of one install run.
#[derive(Clone, PartialEq, Eq, Debug)]
pub enum InstallError {
    Manifest(ManifestError),
    Validation(ValidationError),
    Network(NetworkError),
    Integrity(IntegrityError),
    /// An I/O failure reading or writing files or the archive.
    Filesystem,
    /// The launcher's profile registry lacks its required structure.
    Registry,
}

} // verus!
