use vstd::prelude::*;
use crate::media::MediaDetail;
use crate::media::MediaType;
use crate::media::SeriesNo;
use crate::misc::HashAlgo;
use crate::misc::lock::LockView;
use crate::misc::Lock;
use crate::misc::Uuid;

pub mod guards;
pub mod integrity;
pub mod laws;
pub mod lib_ops;
pub mod media_model;
pub mod media_ops;
pub mod media_query;
pub mod media_update;
pub mod messages;
pub mod misc;
pub mod model;
pub mod open_ops;
pub mod order_laws;
pub mod order_model;
pub mod seq_lemmas;
pub mod series_ops;
pub mod set_model;
pub mod set_ops;
pub mod summary;
pub mod tag_ops;
pub mod thumbnail;

pub use self::model::Catalog;

verus! {

/// The version of the library format, carried as the `semver` crate
/// represents it. The library never looks inside.
#[verifier::external_type_specification]
#[verifier::external_body]
pub struct ExVersion(semver::Version);

/// The counters that a library keeps of its contents.
#[derive(Debug, Clone, Copy, PartialEq, Eq, Structural)]
pub struct LibrarySummary {
    pub media_count: usize,
    pub series_count: usize,
    pub tag_count: usize,
    pub media_size: usize,
}

/// The snapshot of a library that is kept beside its catalog.
#[derive(Debug)]
#[allow(non_snake_case)]
pub struct LibraryMetadata {
    pub UUID: String,
    pub library_name: String,
    pub master_name: Option<String>,
    pub media_folder: String,
    pub schema: String,
    pub hash_algo: String,
    pub summary: LibrarySummary,
}

#[derive(Debug, Clone, Copy, PartialEq, Eq, Structural, Hash)]
pub enum LibraryFeature {
    NoFeature,
    GenerateThumbnailAtAdding,
}

/// A set of feature flags.
#[derive(Debug)]
pub struct LibraryFeatures {
    pub(crate) no_feature: bool,
    pub(crate) generate_thumbnail_at_adding: bool,
}

/// The two kinds of media set.
#[derive(Debug, Clone, Copy, PartialEq, Eq, Structural)]
pub enum MediaSetType {
    Series,
    Tag,
}

/// One row of the media table.
#[derive(Debug)]
pub struct MediaRow {
    pub id: u64,
    pub hash: String,
    pub filename: String,
    pub filesize: usize,
    pub caption: Option<String>,
    /// Milliseconds since the Unix epoch.
    pub time_add: i64,
    pub kind: MediaType,
    pub sub_kind: Option<String>,
    pub kind_addition: Option<String>,
    pub comment: Option<String>,
    pub detail: Option<MediaDetail>,
}

/// A series or a tag. How many members it has is counted from the
/// membership rows.
#[derive(Debug)]
pub struct MediaSet {
    pub uuid: Uuid,
    pub caption: String,
    pub comment: Option<String>,
}

/// Membership of a media item in a series.
#[derive(Debug, Clone, Copy, PartialEq, Eq, Structural)]
pub struct SeriesRef {
    pub media_id: u64,
    pub series_uuid: Uuid,
    pub series_no: SeriesNo,
}

/// Membership of a media item in a tag.
#[derive(Debug, Clone, Copy, PartialEq, Eq, Structural)]
pub struct TagRef {
    pub media_id: u64,
    pub tag_uuid: Uuid,
}

/// A place from which the content of a media item was once taken.
#[derive(Debug)]
pub struct LocationRef {
    pub media_id: u64,
    pub path: String,
    pub filename: String,
}

/// A stored preview, keyed by content hash. `size` declares the length of
/// `image`.
#[derive(Debug)]
pub struct Thumbnail {
    pub hash: String,
    pub image: Vec<u8>,
    pub size: usize,
}

/// A media library: its identity and the whole of its catalog.
///
/// The value is the library's state and nothing else. Whoever holds it
/// does the work on disk that each operation names in its result.
#[derive(Debug)]
pub struct Library {
    pub(crate) version: semver::Version,
    pub(crate) path: String,
    pub(crate) uuid: Uuid,
    pub(crate) library_name: String,
    pub(crate) master_name: Option<String>,
    pub(crate) schema: String,
    pub(crate) media_folder: String,
    pub(crate) summary: LibrarySummary,
    pub(crate) hash_algo: HashAlgo,
    pub(crate) lock: Lock,
    pub(crate) features: LibraryFeatures,
    pub(crate) next_id: u64,
    pub(crate) medias: Vec<MediaRow>,
    pub(crate) series: Vec<MediaSet>,
    pub(crate) tags: Vec<MediaSet>,
    pub(crate) series_refs: Vec<SeriesRef>,
    pub(crate) tag_refs: Vec<TagRef>,
    pub(crate) locations: Vec<LocationRef>,
    pub(crate) thumbnails: Vec<Thumbnail>,
    pub(crate) generated: u64,
}

/// What a library is: who it is, and what its catalog holds.
pub struct LibraryView {
    pub version: semver::Version,
    pub path: Seq<char>,
    pub uuid: Uuid,
    pub library_name: Seq<char>,
    pub master_name: Option<Seq<char>>,
    pub schema: Seq<char>,
    pub media_folder: Seq<char>,
    pub lock: LockView,
    pub features: Set<LibraryFeature>,
    pub catalog: Catalog,
}

/// The text inside an optional string.
pub open spec fn opt_text(s: Option<String>) -> Option<Seq<char>> {
    match s {
        Some(s) => Some(s@),
        None => None,
    }
}

impl View for LibraryFeatures {
    type V = Set<LibraryFeature>;

    closed spec fn view(&self) -> Set<LibraryFeature> {
        Set::new(
            |f: LibraryFeature|
                match f {
                    LibraryFeature::NoFeature => self.no_feature,
                    LibraryFeature::GenerateThumbnailAtAdding => self.generate_thumbnail_at_adding,
                },
        )
    }
}

impl View for Library {
    type V = LibraryView;

    closed spec fn view(&self) -> LibraryView {
        LibraryView {
            version: self.version,
            path: self.path@,
            uuid: self.uuid,
            library_name: self.library_name@,
            master_name: opt_text(self.master_name),
            schema: self.schema@,
            media_folder: self.media_folder@,
            lock: self.lock@,
            features: self.features@,
            catalog: Catalog {
                algo: self.hash_algo,
                next_id: self.next_id,
                medias: self.medias@,
                series: self.series@,
                tags: self.tags@,
                series_refs: self.series_refs@,
                tag_refs: self.tag_refs@,
                locations: self.locations@,
                thumbnails: self.thumbnails@,
                generated: self.generated,
                summary: self.summary,
            },
        }
    }
}

impl Library {
    /// The invariant of a library: its catalog is well formed and its lock
    /// is held.
    pub open spec fn wf(&self) -> bool {
        &&& self@.catalog.wf()
        &&& self@.lock.status == crate::misc::LockStatus::Locked
    }
}

} // verus!
