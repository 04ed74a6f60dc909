use shiromana::misc::Error;
use shiromana::misc::Lock;
use shiromana::misc::LockError;
use shiromana::misc::LockStatus;
use shiromana::misc::LockType;

#[test]
fn free_folder_is_locked() {
    let lock = Lock::acquire(LockType::FolderLock, "/data/test.mlib", true, true, false).unwrap();
    assert_eq!(lock.kind(), LockType::FolderLock);
    assert_eq!(lock.status(), LockStatus::Locked);
    assert!(lock.is_locked());
    assert_eq!(lock.location(), "/data/test.mlib");
    assert_eq!(lock.lock_file(), "/data/test.mlib/.LOCK");
    assert_eq!(Lock::marker_of("/data/test.mlib"), "/data/test.mlib/.LOCK");
}

#[test]
fn missing_folder_is_not_exists() {
    match Lock::acquire(LockType::FolderLock, "/nowhere", false, false, false) {
        Err(Error::NotExists(s)) => assert_eq!(s, "/nowhere"),
        other => panic!("unexpected: {:?}", other),
    }
    assert!(matches!(
        Lock::acquire(LockType::FolderLock, "/nowhere", false, true, true),
        Err(Error::NotExists(_))
    ));
}

#[test]
fn file_in_place_of_folder_is_type_mismatch() {
    match Lock::acquire(LockType::FolderLock, "/data/file", true, false, false) {
        Err(Error::TypeMismatch { val, expect, found }) => {
            assert_eq!(val, "/data/file");
            assert_eq!(expect, "Dir");
            assert_eq!(found, "File");
        }
        other => panic!("unexpected: {:?}", other),
    }
}

#[test]
fn marker_in_place_is_locked() {
    match Lock::acquire(LockType::FolderLock, "/data/test.mlib", true, true, true) {
        Err(Error::Locked(s)) => assert_eq!(s, "/data/test.mlib"),
        other => panic!("unexpected: {:?}", other),
    }
}

#[test]
fn release_unlocks_once() {
    let mut lock = Lock::acquire(LockType::FolderLock, "/data/l", true, true, false).unwrap();
    assert!(lock.release(true).is_ok());
    assert_eq!(lock.status(), LockStatus::Unlocked);
    assert!(!lock.is_locked());
    match lock.release(true) {
        Err(Error::LockError(LockError::UnlockFailed(s))) => assert_eq!(s, "/data/l"),
        other => panic!("unexpected: {:?}", other),
    }
    assert_eq!(lock.status(), LockStatus::Unlocked);
}

#[test]
fn release_without_marker_fails_and_keeps_the_lock() {
    let mut lock = Lock::acquire(LockType::FolderLock, "/data/l", true, true, false).unwrap();
    match lock.release(false) {
        Err(Error::LockError(LockError::UnlockFailed(s))) => assert_eq!(s, "/data/l"),
        other => panic!("unexpected: {:?}", other),
    }
    assert_eq!(lock.status(), LockStatus::Locked);
    assert_eq!(lock.lock_file(), "/data/l/.LOCK");
}
