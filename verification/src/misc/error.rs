use vstd::prelude::*;
use vstd::string::StringExecFns;
use super::tools::concat2;
use super::tools::concat3;
use super::Error;
use super::LockError;

verus! {

/// What a lock failure says.
pub enum LockErrorView {
    LockFailed(Seq<char>),
    UnlockFailed(Seq<char>),
}

/// What an error says: its case and the text it carries.
pub enum ErrorView {
    NotExists(Seq<char>),
    AlreadyExists(Seq<char>),
    Locked(Seq<char>),
    NotMatch(Seq<char>),
    TypeMismatch { val: Seq<char>, expect: Seq<char>, found: Seq<char> },
    Occupied(Seq<char>),
    NotIn { a: Seq<char>, b: Seq<char> },
    IO(Seq<char>),
    DB(Seq<char>),
    DBPool(Seq<char>),
    LockError(LockErrorView),
    JsonError(Seq<char>),
    Other(Seq<char>),
    MediaDecode(Seq<char>),
    NoThumbnail,
    NoneError,
}

impl View for LockError {
    type V = LockErrorView;

    open spec fn view(&self) -> LockErrorView {
        match self {
            LockError::LockFailed(s) => LockErrorView::LockFailed(s@),
            LockError::UnlockFailed(s) => LockErrorView::UnlockFailed(s@),
        }
    }
}

impl View for Error {
    type V = ErrorView;

    open spec fn view(&self) -> ErrorView {
        match self {
            Error::NotExists(s) => ErrorView::NotExists(s@),
            Error::AlreadyExists(s) => ErrorView::AlreadyExists(s@),
            Error::Locked(s) => ErrorView::Locked(s@),
            Error::NotMatch(s) => ErrorView::NotMatch(s@),
            Error::TypeMismatch { val, expect, found } => ErrorView::TypeMismatch {
                val: val@,
                expect: expect@,
                found: found@,
            },
            Error::Occupied(s) => ErrorView::Occupied(s@),
            Error::NotIn { a, b } => ErrorView::NotIn { a: a@, b: b@ },
            Error::IO(s) => ErrorView::IO(s@),
            Error::DB(s) => ErrorView::DB(s@),
            Error::DBPool(s) => ErrorView::DBPool(s@),
            Error::LockError(e) => ErrorView::LockError(e@),
            Error::JsonError(s) => ErrorView::JsonError(s@),
            Error::Other(s) => ErrorView::Other(s@),
            Error::MediaDecode(s) => ErrorView::MediaDecode(s@),
            Error::NoThumbnail => ErrorView::NoThumbnail,
            Error::NoneError => ErrorView::NoneError,
        }
    }
}

/// Whether `r` failed, and with an error that says `e`.
pub open spec fn fails_with<T>(r: Result<T, Error>, e: ErrorView) -> bool {
    r matches Err(x) && x@ == e
}

impl LockError {
    /// The message of this failure.
    pub open spec fn text(&self) -> Seq<char> {
        match self {
            LockError::LockFailed(s) => "Lock for \""@ + s@ + "\" is failed."@,
            LockError::UnlockFailed(s) => "Unlock for \""@ + s@ + "\" is failed."@,
        }
    }

    pub fn to_string(&self) -> (r: String)
        ensures
            r@ == self.text(),
    {
        match self {
            LockError::LockFailed(s) => concat3("Lock for \"", s.as_str(), "\" is failed."),
            LockError::UnlockFailed(s) => concat3("Unlock for \"", s.as_str(), "\" is failed."),
        }
    }
}

impl Error {
    /// The message of this error.
    pub open spec fn text(&self) -> Seq<char> {
        match self {
            Error::NotExists(s) => s@ + " is not exists"@,
            Error::AlreadyExists(s) => s@ + " is already exists."@,
            Error::NotMatch(s) => "Resource \""@ + s@ + "\" is not match."@,
            Error::Occupied(s) => "Resource \""@ + s@ + "\" is occupied."@,
            Error::NotIn { a, b } => a@ + " is not in "@ + b@ + "."@,
            Error::IO(s) => "IO Error. ("@ + s@ + ")"@,
            Error::DB(s) => "Database Error. ("@ + s@ + ")"@,
            Error::DBPool(s) => "Database Connection Pool Error. ("@ + s@ + ")"@,
            Error::Other(s) => "Other Error: "@ + s@,
            Error::TypeMismatch { val, expect, found } => "Type Mismatch for "@ + val@
                + ". Expect "@ + expect@ + ", found "@ + found@ + "."@,
            Error::Locked(s) => "Resource \""@ + s@ + "\" is locked."@,
            Error::LockError(e) => e.text(),
            Error::JsonError(s) => "Error when processing json. "@ + s@,
            Error::NoneError => "Some values goes none."@,
            Error::MediaDecode(s) => "Media decode error: "@ + s@,
            Error::NoThumbnail => "Media no Thumbnail"@,
        }
    }

    pub fn to_string(&self) -> (r: String)
        ensures
            r@ == self.text(),
    {
        match self {
            Error::NotExists(s) => concat2(s.as_str(), " is not exists"),
            Error::AlreadyExists(s) => concat2(s.as_str(), " is already exists."),
            Error::NotMatch(s) => concat3("Resource \"", s.as_str(), "\" is not match."),
            Error::Occupied(s) => concat3("Resource \"", s.as_str(), "\" is occupied."),
            Error::NotIn { a, b } => {
                let mut r = concat3(a.as_str(), " is not in ", b.as_str());
                r.append(".");
                r
            },
            Error::IO(s) => concat3("IO Error. (", s.as_str(), ")"),
            Error::DB(s) => concat3("Database Error. (", s.as_str(), ")"),
            Error::DBPool(s) => concat3("Database Connection Pool Error. (", s.as_str(), ")"),
            Error::Other(s) => concat2("Other Error: ", s.as_str()),
            Error::TypeMismatch { val, expect, found } => {
                let mut r = concat3("Type Mismatch for ", val.as_str(), ". Expect ");
                r.append(expect.as_str());
                r.append(", found ");
                r.append(found.as_str());
                r.append(".");
                r
            },
            Error::Locked(s) => concat3("Resource \"", s.as_str(), "\" is locked."),
            Error::LockError(e) => e.to_string(),
            Error::JsonError(s) => concat2("Error when processing json. ", s.as_str()),
            Error::NoneError => String::from_str("Some values goes none."),
            Error::MediaDecode(s) => concat2("Media decode error: ", s.as_str()),
            Error::NoThumbnail => String::from_str("Media no Thumbnail"),
        }
    }

    /// Whether this error is a `TypeMismatch` that found a file named `val`
    /// where a folder was expected.
    pub open spec fn is_dir_expected(&self, val: Seq<char>) -> bool {
        self matches Error::TypeMismatch { val: v, expect, found } && v@ == val && expect@
            == "Dir"@ && found@ == "File"@
    }
}

/// The error for a path `val` that should be a folder and is a file.
pub fn err_type_mismatch_expect_dir_found_file(val: String) -> (r: Error)
    ensures
        r.is_dir_expected(val@),
{
    Error::TypeMismatch { val, expect: String::from_str("Dir"), found: String::from_str("File") }
}

} // verus!
