use shiromana::misc::error::err_type_mismatch_expect_dir_found_file;
use shiromana::misc::Error;
use shiromana::misc::LockError;

#[test]
fn every_error_has_its_message() {
    let s = |t: &str| t.to_string();
    assert_eq!(Error::NotExists(s("x")).to_string(), "x is not exists");
    assert_eq!(Error::AlreadyExists(s("x")).to_string(), "x is already exists.");
    assert_eq!(Error::NotMatch(s("x")).to_string(), "Resource \"x\" is not match.");
    assert_eq!(Error::Occupied(s("x")).to_string(), "Resource \"x\" is occupied.");
    assert_eq!(Error::NotIn { a: s("a"), b: s("b") }.to_string(), "a is not in b.");
    assert_eq!(Error::IO(s("e")).to_string(), "IO Error. (e)");
    assert_eq!(Error::DB(s("e")).to_string(), "Database Error. (e)");
    assert_eq!(Error::DBPool(s("e")).to_string(), "Database Connection Pool Error. (e)");
    assert_eq!(Error::Other(s("x")).to_string(), "Other Error: x");
    assert_eq!(
        Error::TypeMismatch { val: s("v"), expect: s("Dir"), found: s("File") }.to_string(),
        "Type Mismatch for v. Expect Dir, found File."
    );
    assert_eq!(Error::Locked(s("x")).to_string(), "Resource \"x\" is locked.");
    assert_eq!(
        Error::LockError(LockError::LockFailed(s("p"))).to_string(),
        "Lock for \"p\" is failed."
    );
    assert_eq!(
        Error::LockError(LockError::UnlockFailed(s("p"))).to_string(),
        "Unlock for \"p\" is failed."
    );
    assert_eq!(Error::JsonError(s("e")).to_string(), "Error when processing json. e");
    assert_eq!(Error::NoneError.to_string(), "Some values goes none.");
    assert_eq!(Error::MediaDecode(s("x")).to_string(), "Media decode error: x");
    assert_eq!(Error::NoThumbnail.to_string(), "Media no Thumbnail");
}

#[test]
fn lock_errors_have_their_messages() {
    assert_eq!(LockError::LockFailed("a".to_string()).to_string(), "Lock for \"a\" is failed.");
    assert_eq!(LockError::UnlockFailed("a".to_string()).to_string(), "Unlock for \"a\" is failed.");
}

#[test]
fn folder_expected_error_names_the_path() {
    match err_type_mismatch_expect_dir_found_file("/p".to_string()) {
        Error::TypeMismatch { val, expect, found } => {
            assert_eq!(val, "/p");
            assert_eq!(expect, "Dir");
            assert_eq!(found, "File");
        }
        other => panic!("unexpected: {:?}", other),
    }
}
