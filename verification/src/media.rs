use vstd::prelude::*;
use crate::misc::Uuid;

pub mod detail;
pub mod kind;

pub use self::detail::AudioDetail;
pub use self::detail::ImageDetail;
pub use self::detail::ImageFormatName;
pub use self::detail::MediaDetail;
pub use self::detail::MediaDetailView;
pub use self::detail::TextDetail;
pub use self::detail::TypesDetail;
pub use self::detail::URLDetail;
pub use self::detail::VideoDetail;

verus! {

/// The fields of a media row that a patch may name.
#[derive(Debug, Clone, Copy, PartialEq, Eq, Structural)]
pub enum MediaUpdateKey {
    Filename,
    Caption,
    SubType,
    TypeAddition,
    Comment,
}

/// What a media item is.
#[derive(Debug, Clone, Copy, PartialEq, Eq, Structural)]
pub enum MediaType {
    Image,
    Text,
    Audio,
    Video,
    URL,
    Other,
    Unset,
}

/// Position of a member inside a series.
#[derive(Debug, Clone, Copy, PartialEq, Eq, Structural)]
pub enum SeriesNo {
    Ordered(u64),
    Unordered,
}

/// One series that a media item belongs to, with its position there.
#[derive(Debug, Clone, Copy, PartialEq, Eq, Structural)]
pub struct SeriesMembership {
    pub uuid: Uuid,
    pub no: SeriesNo,
}

/// A media item as read from the catalog: its row, its memberships, its
/// detail payload and the path of its content file.
#[derive(Debug)]
pub struct Media {
    pub id: u64,
    pub library_uuid: Uuid,
    pub hash: String,
    pub filename: String,
    pub filepath: String,
    pub filesize: usize,
    pub caption: Option<String>,
    /// Milliseconds since the Unix epoch.
    pub time_add: i64,
    pub kind: MediaType,
    pub sub_kind: Option<String>,
    pub kind_addition: Option<String>,
    pub series: Vec<SeriesMembership>,
    pub tag: Vec<Uuid>,
    pub comment: Option<String>,
    pub detail: Option<MediaDetail>,
}

/// The descriptive fields that accompany a new media item.
#[derive(Debug)]
pub struct AddingMediaParam {
    pub caption: Option<String>,
    pub kind: MediaType,
    pub sub_kind: Option<String>,
    pub kind_addition: Option<String>,
    pub comment: Option<String>,
}

impl Default for AddingMediaParam {
    fn default() -> (r: AddingMediaParam)
        ensures
            r.caption is None,
            r.kind == MediaType::Unset,
            r.sub_kind is None,
            r.kind_addition is None,
            r.comment is None,
    {
        AddingMediaParam {
            caption: None,
            kind: MediaType::Unset,
            sub_kind: None,
            kind_addition: None,
            comment: None,
        }
    }
}

} // verus!
