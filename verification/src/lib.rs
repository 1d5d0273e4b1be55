//! A minimal content-addressable object store in the style of a
//! version-control repository: objects are framed as
//! `"<type> <decimal-length>\0<payload>"`, named by the SHA-1 hex digest of
//! that frame, and kept zlib-compressed under `objects/<xx>/<38 hex chars>`.

pub mod digest;
pub mod errors;
pub mod frame;
pub mod object;
pub mod repo;
pub mod store;
pub mod zlib;

pub use errors::GitError;
