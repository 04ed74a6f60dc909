use vstd::prelude::*;
use vstd::string::StringExecFns;
use crate::misc::config::DEFAULT_MEDIAS_FOLDER;
use crate::misc::config::LIBRARY_EXT;
use crate::misc::config::VERSION;
use crate::misc::error::fails_with;
use crate::misc::error::ErrorView;
use crate::misc::error::LockErrorView;
use crate::misc::lock::LockView;
use crate::misc::tools::concat3;
use crate::misc::tools::is_valid_filename;
use crate::misc::tools::valid_filename;
use crate::misc::uuid::uuid_text;
use crate::misc::Error;
use crate::misc::HashAlgo;
use crate::misc::Lock;
use crate::misc::LockError;
use crate::misc::LockStatus;
use crate::misc::Uuid;
use super::model::lemma_empty_wf;
use super::opt_text;
use super::Catalog;
use super::Library;
use super::LibraryFeatures;
use super::LibraryMetadata;
use super::LibrarySummary;
use super::LibraryView;

verus! {

/// A copy of an optional string.
pub fn clone_opt(s: &Option<String>) -> (r: Option<String>)
    ensures
        r == *s,
{
    match s {
        Some(s) => Some(s.clone()),
        None => None,
    }
}

/// The name of the folder that holds the library called `library_name`.
pub open spec fn folder_name_of(library_name: Seq<char>) -> Seq<char> {
    library_name + "."@ + LIBRARY_EXT@
}

/// The media folder of a new library: the one asked for where it is a
/// valid file name, the default otherwise.
pub open spec fn media_folder_of(asked: Option<String>) -> Seq<char> {
    match asked {
        Some(v) => if valid_filename(v@) {
            v@
        } else {
            DEFAULT_MEDIAS_FOLDER@
        },
        None => DEFAULT_MEDIAS_FOLDER@,
    }
}

/// The error of a library that is handed a lock it does not hold.
pub open spec fn lock_not_held(lock: LockView) -> ErrorView {
    ErrorView::LockError(LockErrorView::LockFailed(lock.location))
}

/// The error for a folder that is already there where a library is to be
/// made.
pub open spec fn folder_taken(path: Seq<char>) -> ErrorView {
    ErrorView::AlreadyExists(path)
}

/// `semver::Version::new`: the version with these three numbers. The
/// value is carried, never looked into, so nothing is claimed of it.
#[verifier::external_body]
fn version_of(major: u64, minor: u64, patch: u64) -> semver::Version {
    semver::Version::new(major, minor, patch)
}

/// The snapshot that is kept beside the catalog of the library `lib`.
pub open spec fn metadata_of(lib: LibraryView, m: LibraryMetadata) -> bool {
    &&& m.UUID@ == uuid_text(lib.uuid@)
    &&& m.library_name@ == lib.library_name
    &&& opt_text(m.master_name) == lib.master_name
    &&& m.media_folder@ == lib.media_folder
    &&& m.schema@ == lib.schema
    &&& m.hash_algo@ == lib.catalog.algo.name()
    &&& m.summary == lib.catalog.summary
}

impl Library {
    /// The name of the folder that holds the library called `library_name`.
    pub fn folder_name(library_name: &str) -> (r: String)
        ensures
            r@ == folder_name_of(library_name@),
    {
        concat3(library_name, ".", LIBRARY_EXT)
    }

    /// The version that this library writes into a new catalog.
    pub fn current_version() -> semver::Version {
        version_of(VERSION.0, VERSION.1, VERSION.2)
    }

    /// Decides whether a library can be made in the folder `path`, given
    /// whether anything lies there already: a path that is taken is
    /// `AlreadyExists` with the path, and nothing is to be touched.
    pub fn create_precheck(path: &str, exists: bool) -> (r: Result<(), Error>)
        ensures
            exists ==> fails_with(r, folder_taken(path@)),
            !exists ==> r is Ok,
    {
        if exists {
            Err(Error::AlreadyExists(String::from_str(path)))
        } else {
            Ok(())
        }
    }

    /// A new, empty library in the folder `path`. `exists` says whether
    /// anything lay at `path` before the caller went to make the folder:
    /// a path that was taken is `AlreadyExists` with the path. Else the
    /// caller has made the folder and locked it with `lock`, and the
    /// library gets a fresh random identifier, the schema `Default` and
    /// the BLAKE3 algorithm. A lock that is not held is a `LockFailed`
    /// error.
    pub fn create(
        path: String,
        library_name: String,
        master_name: Option<String>,
        media_folder: Option<String>,
        features: LibraryFeatures,
        version: semver::Version,
        exists: bool,
        lock: Lock,
    ) -> (r: Result<Library, Error>)
        ensures
            exists ==> fails_with(r, folder_taken(path@)),
            !exists && lock@.status != LockStatus::Locked ==> fails_with(r, lock_not_held(lock@)),
            !exists && lock@.status == LockStatus::Locked ==> (r matches Ok(lib) && lib.wf()
                && lib@ == (
            LibraryView {
                version,
                path: path@,
                uuid: lib@.uuid,
                library_name: library_name@,
                master_name: opt_text(master_name),
                schema: "Default"@,
                media_folder: media_folder_of(media_folder),
                lock: lock@,
                features: features@,
                catalog: Catalog::empty(HashAlgo::BLAKE3),
            })),
    {
        if exists {
            return Err(Error::AlreadyExists(path));
        }
        if !lock.is_locked() {
            return Err(Error::LockError(LockError::LockFailed(lock.location().clone())));
        }
        let media_folder = match media_folder {
            Some(v) => {
                if is_valid_filename(v.as_str()) {
                    v
                } else {
                    String::from_str(DEFAULT_MEDIAS_FOLDER)
                }
            },
            None => String::from_str(DEFAULT_MEDIAS_FOLDER),
        };
        let lib = Library {
            version,
            path,
            uuid: Uuid::new_v4(),
            library_name,
            master_name,
            schema: String::from_str("Default"),
            media_folder,
            summary: LibrarySummary { media_count: 0, series_count: 0, tag_count: 0, media_size: 0 },
            hash_algo: HashAlgo::BLAKE3,
            lock,
            features,
            next_id: 1,
            medias: Vec::new(),
            series: Vec::new(),
            tags: Vec::new(),
            series_refs: Vec::new(),
            tag_refs: Vec::new(),
            locations: Vec::new(),
            thumbnails: Vec::new(),
            generated: 0,
        };
        proof {
            lemma_empty_wf(HashAlgo::BLAKE3);
            assert(lib@.catalog =~= Catalog::empty(HashAlgo::BLAKE3));
        }
        Ok(lib)
    }

    /// The snapshot to keep beside the catalog.
    pub fn metadata(&self) -> (m: LibraryMetadata)
        ensures
            metadata_of(self@, m),
    {
        LibraryMetadata {
            UUID: self.uuid.to_string(),
            library_name: self.library_name.clone(),
            master_name: clone_opt(&self.master_name),
            media_folder: self.media_folder.clone(),
            schema: self.schema.clone(),
            hash_algo: self.hash_algo.to_string(),
            summary: self.summary,
        }
    }

    /// Ends the use of the library: hands out the final snapshot, to be
    /// written beside the catalog, and the lock, to be released.
    pub fn close(self) -> (r: (LibraryMetadata, Lock))
        ensures
            metadata_of(self@, r.0),
            r.1@ == self@.lock,
    {
        let m = self.metadata();
        (m, self.lock)
    }

    pub fn get_library_name(&self) -> (r: &String)
        ensures
            r@ == self@.library_name,
    {
        &self.library_name
    }

    pub fn get_master_name(&self) -> (r: &Option<String>)
        ensures
            opt_text(*r) == self@.master_name,
    {
        &self.master_name
    }

    pub fn get_uuid(&self) -> (r: &Uuid)
        ensures
            *r == self@.uuid,
    {
        &self.uuid
    }

    pub fn get_path(&self) -> (r: &String)
        ensures
            r@ == self@.path,
    {
        &self.path
    }

    pub fn get_schema(&self) -> (r: &String)
        ensures
            r@ == self@.schema,
    {
        &self.schema
    }

    pub fn get_media_folder(&self) -> (r: &String)
        ensures
            r@ == self@.media_folder,
    {
        &self.media_folder
    }

    pub fn get_summary(&self) -> (r: &LibrarySummary)
        ensures
            *r == self@.catalog.summary,
    {
        &self.summary
    }

    pub fn get_hash_size(&self) -> (r: usize)
        ensures
            r == self@.catalog.algo.size(),
    {
        self.hash_algo.get_size()
    }

    pub fn get_hash_algo(&self) -> (r: HashAlgo)
        ensures
            r == self@.catalog.algo,
    {
        self.hash_algo
    }

    pub fn get_version(&self) -> (r: &semver::Version)
        ensures
            *r == self@.version,
    {
        &self.version
    }

    pub fn get_features(&self) -> (r: &LibraryFeatures)
        ensures
            r@ == self@.features,
    {
        &self.features
    }

    pub fn get_lock(&self) -> (r: &Lock)
        ensures
            r@ == self@.lock,
    {
        &self.lock
    }
}

} // verus!
