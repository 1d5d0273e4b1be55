//! The error kinds that repository and object-store operations report.

use vstd::prelude::*;

verus! {

/// Every recoverable failure of the repository locator, the object codec and
/// the object store. `LengthMismatch` carries the identity of the offending
/// object for diagnostics.
#[derive(Debug)]
pub enum GitError {
    /// The path lacks the expected metadata directory (on explicit open).
    NotARepository,
    /// The ancestor search was exhausted with no match (on discovery).
    NoRepositoryFound,
    /// A path component expected to be a directory is a regular file.
    NotADirectory,
    /// Creation was attempted over an existing, populated metadata directory.
    NonEmptyMetadataDir,
    /// A type token outside the fixed four-token set.
    UnknownObjectType,
    /// The identity has no corresponding object file.
    ObjectNotFound,
    /// The stored bytes fail to decompress.
    CorruptCompression,
    /// The header framing (missing space or null, non-numeric length) is invalid.
    MalformedHeader,
    /// The declared length disagrees with the actual payload size.
    LengthMismatch { identity: String },
}

impl GitError {
    /// A one-line human-readable description, for diagnostics.
    pub fn describe(&self) -> (r: String)
        ensures
            match self {
                GitError::NotARepository => r@ == "not a repository"@,
                GitError::NoRepositoryFound => r@ == "no repository found"@,
                GitError::NotADirectory => r@ == "not a directory"@,
                GitError::NonEmptyMetadataDir => r@ == "metadata directory is not empty"@,
                GitError::UnknownObjectType => r@ == "unknown object type"@,
                GitError::ObjectNotFound => r@ == "object not found"@,
                GitError::CorruptCompression => r@ == "object file fails to decompress"@,
                GitError::MalformedHeader => r@ == "malformed object header"@,
                GitError::LengthMismatch { identity } => r@ == "bad length for object "@
                    + identity@,
            },
    {
        match self {
            GitError::NotARepository => "not a repository".to_owned(),
            GitError::NoRepositoryFound => "no repository found".to_owned(),
            GitError::NotADirectory => "not a directory".to_owned(),
            GitError::NonEmptyMetadataDir => "metadata directory is not empty".to_owned(),
            GitError::UnknownObjectType => "unknown object type".to_owned(),
            GitError::ObjectNotFound => "object not found".to_owned(),
            GitError::CorruptCompression => "object file fails to decompress".to_owned(),
            GitError::MalformedHeader => "malformed object header".to_owned(),
            GitError::LengthMismatch { identity } => {
                let mut m = "bad length for object ".to_owned();
                m.append(identity.as_str());
                m
            },
        }
    }
}

} // verus!
