use vstd::prelude::*;

pub mod config;
pub mod error;
pub mod hash;
pub mod lock;
pub mod tools;
pub mod uuid;

pub use self::hash::HashAlgo;
pub use self::lock::Lock;
pub use self::uuid::Uuid;

verus! {

/// Everything that can go wrong in the library.
///
/// Failures of the file system, of the catalog backend and of the metadata
/// codec are carried as their rendered messages.
#[derive(Debug)]
pub enum Error {
    NotExists(String),
    AlreadyExists(String),
    Locked(String),
    NotMatch(String),
    TypeMismatch { val: String, expect: String, found: String },
    Occupied(String),
    NotIn { a: String, b: String },
    IO(String),
    DB(String),
    DBPool(String),
    LockError(LockError),
    JsonError(String),
    Other(String),
    MediaDecode(String),
    NoThumbnail,
    NoneError,
}

#[derive(Debug, Clone, Copy, PartialEq, Eq, Structural)]
pub enum LockType {
    FileLock,
    FolderLock,
}

#[derive(Debug, Clone, Copy, PartialEq, Eq, Structural)]
pub enum LockStatus {
    Locked,
    Unlocked,
}

#[derive(Debug)]
pub enum LockError {
    LockFailed(String),
    UnlockFailed(String),
}

} // verus!
