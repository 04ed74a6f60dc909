use vstd::prelude::*;
use vstd::string::StringExecFns;
use crate::misc::config::DATABASE_FN;
use crate::misc::config::FINGERPRINT_FN;
use crate::misc::config::METADATA_FN;
use crate::misc::config::SHARED_DATABASE_FN;
use crate::misc::error::fails_with;
use crate::misc::error::ErrorView;
use crate::misc::lock::LockView;
use crate::misc::uuid::uuid_from_parsed;
use crate::misc::hash::law_name_round_trip;
use crate::misc::uuid::law_uuid_round_trip;
use crate::misc::uuid::uuid_read;
use crate::misc::Error;
use crate::misc::HashAlgo;
use crate::misc::Lock;
use crate::misc::LockError;
use crate::misc::LockStatus;
use crate::misc::Uuid;
use super::integrity::check_locations;
use super::integrity::check_medias;
use super::integrity::check_series_refs;
use super::integrity::check_sets;
use super::integrity::check_summary;
use super::integrity::check_tag_refs;
use super::integrity::check_thumbnails;
use super::lib_ops::lock_not_held;
use super::lib_ops::metadata_of;
use super::misc::features_named;
use super::misc::pieces;
use super::opt_text;
use super::Catalog;
use super::Library;
use super::LibraryFeatures;
use super::LibraryMetadata;
use super::LibrarySummary;
use super::LibraryView;
use super::LocationRef;
use super::MediaRow;
use super::MediaSet;
use super::SeriesRef;
use super::TagRef;
use super::Thumbnail;

verus! {

/// The rows of a catalog as they were read back from where they are kept.
#[derive(Debug)]
pub struct Snapshot {
    /// The largest media id that was ever handed out.
    pub last_media_id: u64,
    pub medias: Vec<MediaRow>,
    pub series: Vec<MediaSet>,
    pub tags: Vec<MediaSet>,
    pub series_refs: Vec<SeriesRef>,
    pub tag_refs: Vec<TagRef>,
    pub locations: Vec<LocationRef>,
    pub thumbnails: Vec<Thumbnail>,
}

impl Snapshot {
    /// The catalog that the rows make up under the algorithm `algo` and
    /// the counters `summary`.
    pub open spec fn catalog(self, algo: HashAlgo, summary: LibrarySummary) -> Catalog {
        Catalog {
            algo,
            next_id: (self.last_media_id + 1) as u64,
            medias: self.medias@,
            series: self.series@,
            tags: self.tags@,
            series_refs: self.series_refs@,
            tag_refs: self.tag_refs@,
            locations: self.locations@,
            thumbnails: self.thumbnails@,
            generated: 0,
            summary,
        }
    }
}

/// Whether a file called `name` is among `files`.
pub open spec fn has_file(files: Seq<String>, name: Seq<char>) -> bool {
    exists|i: int| 0 <= i < files.len() && (#[trigger] files[i])@ == name
}

/// Whether a folder with the files `files` has all that a library folder
/// must have: the metadata, the fingerprint and the two catalog files.
pub open spec fn structure_complete(files: Seq<String>) -> bool {
    &&& has_file(files, METADATA_FN@)
    &&& has_file(files, FINGERPRINT_FN@)
    &&& has_file(files, DATABASE_FN@)
    &&& has_file(files, SHARED_DATABASE_FN@)
}

/// The error of a folder that lacks a file.
pub open spec fn structure_mismatch() -> ErrorView {
    ErrorView::NotMatch("Library structure not match."@)
}

/// The error of a path at which nothing lies.
pub open spec fn nothing_at(path: Seq<char>) -> ErrorView {
    ErrorView::NotExists(path)
}

/// The error of a path at which a file lies where a folder is expected.
pub open spec fn not_a_folder() -> ErrorView {
    ErrorView::NotMatch("Library is not a folder."@)
}

/// Whether what lies at `path` can be opened as a library, going by what
/// was found there: whether anything lies at the path, whether it is a
/// regular file, and which files the folder holds.
pub open spec fn precheck(path: Seq<char>, exists: bool, is_file: bool, files: Seq<String>) -> Result<
    (),
    ErrorView,
> {
    if !exists {
        Err(nothing_at(path))
    } else if is_file {
        Err(not_a_folder())
    } else if !structure_complete(files) {
        Err(structure_mismatch())
    } else {
        Ok(())
    }
}

/// Who a library that is opened turns out to be, or why it cannot be
/// opened. First the path is looked at, as `precheck` says. Then the
/// fingerprint is held against the metadata and read as an identifier;
/// then the algorithm is looked up, the lock is asked for, and last the
/// rows are held to the invariant of a catalog.
pub open spec fn open_check(
    path: Seq<char>,
    exists: bool,
    is_file: bool,
    files: Seq<String>,
    metadata: LibraryMetadata,
    fingerprint: Seq<char>,
    lock: LockView,
    snapshot: Snapshot,
) -> Result<(Uuid, HashAlgo), ErrorView> {
    if precheck(path, exists, is_file, files) is Err {
        Err(precheck(path, exists, is_file, files)->Err_0)
    } else if fingerprint != metadata.UUID@ {
        Err(ErrorView::NotMatch("Library UUID"@))
    } else {
        match uuid_from_parsed(fingerprint, uuid_read(fingerprint)) {
            Err(e) => Err(e),
            Ok(uuid) => match HashAlgo::named(metadata.hash_algo@) {
                None => Err(ErrorView::NotExists("Hash algo not exists: "@ + metadata.hash_algo@)),
                Some(algo) => if lock.status != LockStatus::Locked {
                    Err(lock_not_held(lock))
                } else if snapshot.last_media_id == u64::MAX || !snapshot.catalog(
                    algo,
                    metadata.summary,
                ).wf() {
                    Err(ErrorView::NotMatch("Library catalog"@))
                } else {
                    Ok((uuid, algo))
                },
            },
        }
    }
}

/// A library that was closed opens again as itself: with the metadata
/// that it handed out, the fingerprint that the metadata holds, the rows
/// that it had, a folder that is complete and a lock that is held, `open`
/// gives a library of the same identifier and algorithm.
pub proof fn law_reopen(
    lib: LibraryView,
    metadata: LibraryMetadata,
    path: Seq<char>,
    files: Seq<String>,
    lock: LockView,
    snapshot: Snapshot,
)
    requires
        lib.catalog.wf(),
        metadata_of(lib, metadata),
        structure_complete(files),
        lock.status == LockStatus::Locked,
        snapshot.last_media_id < u64::MAX,
        snapshot.catalog(lib.catalog.algo, lib.catalog.summary) == (Catalog {
            generated: 0,
            ..lib.catalog
        }),
    ensures
        open_check(path, true, false, files, metadata, metadata.UUID@, lock, snapshot) == Ok::<
            (Uuid, HashAlgo),
            ErrorView,
        >((lib.uuid, lib.catalog.algo)),
{
    law_uuid_round_trip(lib.uuid@);
    law_name_round_trip(lib.catalog.algo);
}

fn contains_file(files: &Vec<String>, name: &str) -> (r: bool)
    ensures
        r == has_file(files@, name@),
{
    let key = String::from_str(name);
    let n: usize = files.len();
    let mut i: usize = 0;
    while i < n
        invariant
            n == files@.len(),
            i <= n,
            key@ == name@,
            forall|j: int| 0 <= j < i ==> (#[trigger] files@[j])@ != name@,
        decreases n - i,
    {
        if files[i] == key {
            return true;
        }
        i += 1;
    }
    false
}

/// Checks that a folder with the files `files` can hold a library.
/// A missing file is `NotMatch`.
pub fn check_structure(files: &Vec<String>) -> (r: Result<(), Error>)
    ensures
        structure_complete(files@) ==> r is Ok,
        !structure_complete(files@) ==> fails_with(r, structure_mismatch()),
{
    if contains_file(files, METADATA_FN) && contains_file(files, FINGERPRINT_FN) && contains_file(
        files,
        DATABASE_FN,
    ) && contains_file(files, SHARED_DATABASE_FN) {
        Ok(())
    } else {
        Err(Error::NotMatch(String::from_str("Library structure not match.")))
    }
}

impl Library {
    /// Decides, before anything is locked or read, whether what lies at
    /// `path` can be opened as a library. `exists` says whether anything
    /// lies at the path, `is_file` whether it is a regular file, and
    /// `files` names what the folder holds.
    ///
    /// Nothing at the path is `NotExists` with the path; a regular file is
    /// `NotMatch`, and so is a folder that lacks one of the files of a
    /// library. On a failure nothing is to be locked, read or written.
    pub fn open_precheck(path: &str, exists: bool, is_file: bool, files: &Vec<String>) -> (r:
        Result<(), Error>)
        ensures
            match precheck(path@, exists, is_file, files@) {
                Ok(_) => r is Ok,
                Err(e) => fails_with(r, e),
            },
    {
        if !exists {
            return Err(Error::NotExists(String::from_str(path)));
        }
        if is_file {
            return Err(Error::NotMatch(String::from_str("Library is not a folder.")));
        }
        check_structure(files)
    }

    /// Opens the library in the folder `path` from what was found and read
    /// there: whether anything lies at the path, whether it is a regular
    /// file, the files of the folder, the metadata, the fingerprint, the
    /// version and the feature list of the catalog, and the rows. The
    /// caller holds `lock` on the folder.
    ///
    /// The path is judged first, as `open_precheck` does. A fingerprint
    /// that differs from the identifier in the metadata is `NotMatch`, and
    /// so are rows that do not make up a well-formed catalog with the
    /// counters of the metadata; an algorithm that is not known is
    /// `NotExists`.
    pub fn open(
        path: String,
        exists: bool,
        is_file: bool,
        files: &Vec<String>,
        metadata: LibraryMetadata,
        fingerprint: String,
        version: semver::Version,
        features: &str,
        lock: Lock,
        snapshot: Snapshot,
    ) -> (r: Result<Library, Error>)
        ensures
            match open_check(
                path@,
                exists,
                is_file,
                files@,
                metadata,
                fingerprint@,
                lock@,
                snapshot,
            ) {
                Ok((uuid, algo)) => r matches Ok(lib) && lib.wf() && lib@ == (LibraryView {
                    version,
                    path: path@,
                    uuid,
                    library_name: metadata.library_name@,
                    master_name: opt_text(metadata.master_name),
                    schema: metadata.schema@,
                    media_folder: metadata.media_folder@,
                    lock: lock@,
                    features: features_named(pieces(features@)),
                    catalog: snapshot.catalog(algo, metadata.summary),
                }),
                Err(e) => fails_with(r, e),
            },
    {
        match Library::open_precheck(path.as_str(), exists, is_file, files) {
            Ok(_) => {},
            Err(e) => {
                return Err(e);
            },
        }
        if fingerprint != metadata.UUID {
            return Err(Error::NotMatch(String::from_str("Library UUID")));
        }
        let uuid = match Uuid::parse_str(fingerprint.as_str()) {
            Ok(u) => u,
            Err(e) => {
                return Err(e);
            },
        };
        let hash_algo = match HashAlgo::from_string(metadata.hash_algo) {
            Ok(a) => a,
            Err(e) => {
                return Err(e);
            },
        };
        if !lock.is_locked() {
            return Err(Error::LockError(LockError::LockFailed(lock.location().clone())));
        }
        if snapshot.last_media_id == u64::MAX {
            return Err(Error::NotMatch(String::from_str("Library catalog")));
        }
        let next_id: u64 = snapshot.last_media_id + 1;
        let sound = check_medias(&snapshot.medias, next_id, &hash_algo) && check_sets(
            &snapshot.series,
        ) && check_sets(&snapshot.tags) && check_series_refs(
            &snapshot.medias,
            &snapshot.series,
            &snapshot.series_refs,
        ) && check_tag_refs(&snapshot.medias, &snapshot.tags, &snapshot.tag_refs)
            && check_locations(&snapshot.medias, &snapshot.locations) && check_thumbnails(
            &snapshot.thumbnails,
        ) && check_summary(&metadata.summary, &snapshot.medias, &snapshot.series, &snapshot.tags);
        if !sound {
            return Err(Error::NotMatch(String::from_str("Library catalog")));
        }
        let lib = Library {
            version,
            path,
            uuid,
            library_name: metadata.library_name,
            master_name: metadata.master_name,
            schema: metadata.schema,
            media_folder: metadata.media_folder,
            summary: metadata.summary,
            hash_algo,
            lock,
            features: LibraryFeatures::parse(features),
            next_id,
            medias: snapshot.medias,
            series: snapshot.series,
            tags: snapshot.tags,
            series_refs: snapshot.series_refs,
            tag_refs: snapshot.tag_refs,
            locations: snapshot.locations,
            thumbnails: snapshot.thumbnails,
            generated: 0,
        };
        Ok(lib)
    }
}

} // verus!
