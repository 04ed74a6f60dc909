use vstd::prelude::*;
use vstd::string::StringExecFns;
use super::config::LOCKFILE;
use super::error::err_type_mismatch_expect_dir_found_file;
use super::tools::concat3;
use super::Error;
use super::LockError;
use super::LockStatus;
use super::LockType;

verus! {

/// The exclusive marker of one library folder, as its holder sees it.
///
/// The handle records decisions only: the caller probes the file system
/// before each step and creates or removes the marker file after it.
#[derive(Debug)]
pub struct Lock {
    kind: LockType,
    status: LockStatus,
    location: String,
    lock_file: String,
}

/// What a lock handle stands for.
pub struct LockView {
    pub kind: LockType,
    pub status: LockStatus,
    pub location: Seq<char>,
    pub lock_file: Seq<char>,
}

/// Where the marker of the folder `location` lies.
pub open spec fn marker_path(location: Seq<char>) -> Seq<char> {
    location + "/"@ + LOCKFILE@
}

impl View for Lock {
    type V = LockView;

    closed spec fn view(&self) -> LockView {
        LockView {
            kind: self.kind,
            status: self.status,
            location: self.location@,
            lock_file: self.lock_file@,
        }
    }
}

impl Lock {
    /// The path of the marker file that guards `location`.
    pub fn marker_of(location: &str) -> (r: String)
        ensures
            r@ == marker_path(location@),
    {
        concat3(location, "/", LOCKFILE)
    }

    /// Decides whether the folder `location` can be locked, given what the
    /// caller found there: whether it exists, whether it is a folder and
    /// whether its marker is already present. On success the caller creates
    /// the marker file at `lock_file()`.
    pub fn acquire(
        kind: LockType,
        location: &str,
        exists: bool,
        is_dir: bool,
        marker_exists: bool,
    ) -> (r: Result<Lock, Error>)
        requires
            kind == LockType::FolderLock,
        ensures
            !exists ==> (r matches Err(Error::NotExists(s)) && s@ == location@),
            exists && !is_dir ==> (r matches Err(e) && e.is_dir_expected(location@)),
            exists && is_dir && marker_exists ==> (r matches Err(Error::Locked(s)) && s@
                == location@),
            exists && is_dir && !marker_exists ==> (r matches Ok(lock) && lock@ == (LockView {
                kind,
                status: LockStatus::Locked,
                location: location@,
                lock_file: marker_path(location@),
            })),
    {
        if !exists {
            return Err(Error::NotExists(String::from_str(location)));
        }
        if !is_dir {
            return Err(err_type_mismatch_expect_dir_found_file(String::from_str(location)));
        }
        if marker_exists {
            return Err(Error::Locked(String::from_str(location)));
        }
        Ok(
            Lock {
                kind,
                status: LockStatus::Locked,
                location: String::from_str(location),
                lock_file: Lock::marker_of(location),
            },
        )
    }

    /// Gives the lock up, given whether the marker file is still present.
    /// A handle that is no longer locked, or whose marker is gone, fails
    /// with `UnlockFailed` and stays as it is; otherwise the handle becomes
    /// unlocked and the caller removes the marker file.
    pub fn release(&mut self, marker_exists: bool) -> (r: Result<(), Error>)
        ensures
            old(self)@.status == LockStatus::Locked && marker_exists ==> r is Ok && final(self)@
                == (LockView { status: LockStatus::Unlocked, ..old(self)@ }),
            !(old(self)@.status == LockStatus::Locked && marker_exists) ==> final(self)@ == old(
                self,
            )@ && (r matches Err(Error::LockError(LockError::UnlockFailed(s))) && s@ == old(
                self,
            )@.location),
    {
        match self.status {
            LockStatus::Locked => {
                if marker_exists {
                    self.status = LockStatus::Unlocked;
                    return Ok(());
                }
            },
            LockStatus::Unlocked => {},
        }
        Err(Error::LockError(LockError::UnlockFailed(self.location.clone())))
    }

    pub fn kind(&self) -> (r: LockType)
        ensures
            r == self@.kind,
    {
        self.kind
    }

    pub fn status(&self) -> (r: LockStatus)
        ensures
            r == self@.status,
    {
        self.status
    }

    /// Whether the handle still holds its folder.
    pub fn is_locked(&self) -> (r: bool)
        ensures
            r == (self@.status == LockStatus::Locked),
    {
        match self.status {
            LockStatus::Locked => true,
            LockStatus::Unlocked => false,
        }
    }

    /// The folder that the handle guards.
    pub fn location(&self) -> (r: &String)
        ensures
            r@ == self@.location,
    {
        &self.location
    }

    /// The path of the marker file.
    pub fn lock_file(&self) -> (r: &String)
        ensures
            r@ == self@.lock_file,
    {
        &self.lock_file
    }
}

} // verus!
