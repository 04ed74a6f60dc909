use vstd::prelude::*;
use crate::media::SeriesNo;
use crate::misc::HashAlgo;
use crate::misc::Uuid;
use super::LibrarySummary;
use super::LocationRef;
use super::MediaRow;
use super::MediaSet;
use super::SeriesRef;
use super::TagRef;
use super::Thumbnail;

verus! {

/// The catalog of a library as a mathematical value: its tables in row
/// order, the next media id and the counters.
pub struct Catalog {
    pub algo: HashAlgo,
    pub next_id: u64,
    pub medias: Seq<MediaRow>,
    pub series: Seq<MediaSet>,
    pub tags: Seq<MediaSet>,
    pub series_refs: Seq<SeriesRef>,
    pub tag_refs: Seq<TagRef>,
    pub locations: Seq<LocationRef>,
    pub thumbnails: Seq<Thumbnail>,
    pub generated: u64,
    pub summary: LibrarySummary,
}

/// Whether some row has the id `id`.
pub open spec fn has_media(medias: Seq<MediaRow>, id: u64) -> bool {
    exists|i: int| 0 <= i < medias.len() && (#[trigger] medias[i]).id == id
}

/// The position of a row with the id `id`.
pub open spec fn media_index(medias: Seq<MediaRow>, id: u64) -> int {
    choose|i: int| 0 <= i < medias.len() && (#[trigger] medias[i]).id == id
}

/// Whether some row holds the content hash `hash`.
pub open spec fn has_hash(medias: Seq<MediaRow>, hash: Seq<char>) -> bool {
    exists|i: int| 0 <= i < medias.len() && (#[trigger] medias[i]).hash@ == hash
}

/// The position of a row with the content hash `hash`.
pub open spec fn hash_index(medias: Seq<MediaRow>, hash: Seq<char>) -> int {
    choose|i: int| 0 <= i < medias.len() && (#[trigger] medias[i]).hash@ == hash
}

/// Whether some set has the identifier `uuid`.
pub open spec fn has_set(sets: Seq<MediaSet>, uuid: Uuid) -> bool {
    exists|i: int| 0 <= i < sets.len() && (#[trigger] sets[i]).uuid == uuid
}

/// The position of a set with the identifier `uuid`.
pub open spec fn set_index(sets: Seq<MediaSet>, uuid: Uuid) -> int {
    choose|i: int| 0 <= i < sets.len() && (#[trigger] sets[i]).uuid == uuid
}

/// Whether some set has the caption `caption`.
pub open spec fn has_caption(sets: Seq<MediaSet>, caption: Seq<char>) -> bool {
    exists|i: int| 0 <= i < sets.len() && (#[trigger] sets[i]).caption@ == caption
}

/// The position of a set with the caption `caption`.
pub open spec fn caption_index(sets: Seq<MediaSet>, caption: Seq<char>) -> int {
    choose|i: int| 0 <= i < sets.len() && (#[trigger] sets[i]).caption@ == caption
}

/// Whether the media item `id` is a member of the series `uuid`.
pub open spec fn is_member(refs: Seq<SeriesRef>, id: u64, uuid: Uuid) -> bool {
    exists|i: int|
        0 <= i < refs.len() && (#[trigger] refs[i]).media_id == id && refs[i].series_uuid == uuid
}

/// The position of the membership of `id` in the series `uuid`.
pub open spec fn member_index(refs: Seq<SeriesRef>, id: u64, uuid: Uuid) -> int {
    choose|i: int|
        0 <= i < refs.len() && (#[trigger] refs[i]).media_id == id && refs[i].series_uuid == uuid
}

/// Whether a member of the series `uuid` other than `id` holds the ordinal
/// `no`.
pub open spec fn occupied(refs: Seq<SeriesRef>, id: u64, uuid: Uuid, no: u64) -> bool {
    exists|i: int|
        0 <= i < refs.len() && (#[trigger] refs[i]).series_uuid == uuid && refs[i].media_id != id
            && refs[i].series_no == SeriesNo::Ordered(no)
}

/// Whether the media item `id` carries the tag `uuid`.
pub open spec fn is_tagged(refs: Seq<TagRef>, id: u64, uuid: Uuid) -> bool {
    exists|i: int|
        0 <= i < refs.len() && (#[trigger] refs[i]).media_id == id && refs[i].tag_uuid == uuid
}

/// The position of the tag `uuid` on the media item `id`.
pub open spec fn tagged_index(refs: Seq<TagRef>, id: u64, uuid: Uuid) -> int {
    choose|i: int|
        0 <= i < refs.len() && (#[trigger] refs[i]).media_id == id && refs[i].tag_uuid == uuid
}

/// Whether the source path `path` is on record for the media item `id`.
pub open spec fn has_location(locations: Seq<LocationRef>, id: u64, path: Seq<char>) -> bool {
    exists|i: int|
        0 <= i < locations.len() && (#[trigger] locations[i]).media_id == id && locations[i].path@
            == path
}

/// Whether a preview is stored for the content hash `hash`.
pub open spec fn has_thumbnail(thumbnails: Seq<Thumbnail>, hash: Seq<char>) -> bool {
    exists|i: int| 0 <= i < thumbnails.len() && (#[trigger] thumbnails[i]).hash@ == hash
}

/// The position of the preview for the content hash `hash`.
pub open spec fn thumbnail_index(thumbnails: Seq<Thumbnail>, hash: Seq<char>) -> int {
    choose|i: int| 0 <= i < thumbnails.len() && (#[trigger] thumbnails[i]).hash@ == hash
}

/// The sizes of all rows, added up.
pub open spec fn total_size(medias: Seq<MediaRow>) -> nat
    decreases medias.len(),
{
    if medias.len() == 0 {
        0
    } else {
        total_size(medias.drop_last()) + medias.last().filesize as nat
    }
}

/// The largest ordinal held in the series `uuid`, or 0 where none is held.
pub open spec fn max_ordinal(refs: Seq<SeriesRef>, uuid: Uuid) -> nat
    decreases refs.len(),
{
    if refs.len() == 0 {
        0
    } else {
        let rest = max_ordinal(refs.drop_last(), uuid);
        match refs.last().series_no {
            SeriesNo::Ordered(n) => if refs.last().series_uuid == uuid && n > rest {
                n as nat
            } else {
                rest
            },
            SeriesNo::Unordered => rest,
        }
    }
}

/// How many members of the series `uuid` hold an ordinal below `no`.
pub open spec fn count_below(refs: Seq<SeriesRef>, uuid: Uuid, no: u64) -> nat
    decreases refs.len(),
{
    if refs.len() == 0 {
        0
    } else {
        let rest = count_below(refs.drop_last(), uuid, no);
        match refs.last().series_no {
            SeriesNo::Ordered(n) => if refs.last().series_uuid == uuid && n < no {
                rest + 1
            } else {
                rest
            },
            SeriesNo::Unordered => rest,
        }
    }
}

/// How many members the series `uuid` has.
pub open spec fn member_count(refs: Seq<SeriesRef>, uuid: Uuid) -> nat
    decreases refs.len(),
{
    if refs.len() == 0 {
        0
    } else {
        member_count(refs.drop_last(), uuid) + if refs.last().series_uuid == uuid {
            1nat
        } else {
            0nat
        }
    }
}

/// How many media items carry the tag `uuid`.
pub open spec fn tagged_count(refs: Seq<TagRef>, uuid: Uuid) -> nat
    decreases refs.len(),
{
    if refs.len() == 0 {
        0
    } else {
        tagged_count(refs.drop_last(), uuid) + if refs.last().tag_uuid == uuid {
            1nat
        } else {
            0nat
        }
    }
}

/// Media rows stand in the order of their ids, which are positive and
/// below the next id to hand out; every hash has the shape of the
/// library's algorithm and belongs to one row only.
pub open spec fn medias_wf(medias: Seq<MediaRow>, next_id: u64, algo: HashAlgo) -> bool {
    &&& next_id >= 1
    &&& forall|i: int, j: int|
        0 <= i < j < medias.len() ==> (#[trigger] medias[i]).id < (#[trigger] medias[j]).id
    &&& forall|i: int| 0 <= i < medias.len() ==> 0 < (#[trigger] medias[i]).id < next_id
    &&& forall|i: int| 0 <= i < medias.len() ==> algo.is_hash((#[trigger] medias[i]).hash@)
    &&& forall|i: int, j: int|
        0 <= i < j < medias.len() ==> (#[trigger] medias[i]).hash@ != (#[trigger] medias[j]).hash@
}

/// No two sets share an identifier or a caption.
pub open spec fn sets_wf(sets: Seq<MediaSet>) -> bool {
    &&& forall|i: int, j: int|
        0 <= i < j < sets.len() ==> (#[trigger] sets[i]).uuid != (#[trigger] sets[j]).uuid
    &&& forall|i: int, j: int|
        0 <= i < j < sets.len() ==> (#[trigger] sets[i]).caption@ != (#[trigger] sets[j]).caption@
}

/// Whether two memberships can stand in one table: in one series they
/// belong to different media items and hold different ordinals.
pub open spec fn refs_compatible(a: SeriesRef, b: SeriesRef) -> bool {
    a.series_uuid == b.series_uuid ==> a.media_id != b.media_id && (a.series_no is Ordered
        ==> a.series_no != b.series_no)
}

/// Every series membership names a media item and a series that exist,
/// and any two of them are compatible.
pub open spec fn series_refs_wf(
    medias: Seq<MediaRow>,
    series: Seq<MediaSet>,
    refs: Seq<SeriesRef>,
) -> bool {
    &&& forall|i: int|
        0 <= i < refs.len() ==> has_media(medias, (#[trigger] refs[i]).media_id) && has_set(
            series,
            refs[i].series_uuid,
        )
    &&& forall|i: int, j: int|
        0 <= i < j < refs.len() ==> refs_compatible(#[trigger] refs[i], #[trigger] refs[j])
}

/// Every tag membership names a media item and a tag that exist, and no
/// item carries a tag twice.
pub open spec fn tag_refs_wf(medias: Seq<MediaRow>, tags: Seq<MediaSet>, refs: Seq<TagRef>) -> bool {
    &&& forall|i: int|
        0 <= i < refs.len() ==> has_media(medias, (#[trigger] refs[i]).media_id) && has_set(
            tags,
            refs[i].tag_uuid,
        )
    &&& forall|i: int, j: int|
        0 <= i < j < refs.len() ==> (#[trigger] refs[i]) != (#[trigger] refs[j])
}

/// Every source location names a media item that exists, and no item has
/// one path on record twice.
pub open spec fn locations_wf(medias: Seq<MediaRow>, locations: Seq<LocationRef>) -> bool {
    &&& forall|i: int|
        0 <= i < locations.len() ==> has_media(medias, (#[trigger] locations[i]).media_id)
    &&& forall|i: int, j: int|
        0 <= i < j < locations.len() ==> !((#[trigger] locations[i]).media_id
            == (#[trigger] locations[j]).media_id && locations[i].path@ == locations[j].path@)
}

/// Every preview is as long as it declares and not empty, and no hash has
/// two previews.
pub open spec fn thumbnails_wf(thumbnails: Seq<Thumbnail>) -> bool {
    &&& forall|i: int|
        0 <= i < thumbnails.len() ==> 0 < (#[trigger] thumbnails[i]).size
            == thumbnails[i].image@.len()
    &&& forall|i: int, j: int|
        0 <= i < j < thumbnails.len() ==> (#[trigger] thumbnails[i]).hash@
            != (#[trigger] thumbnails[j]).hash@
}

impl Catalog {
    /// The counters say what the tables hold.
    pub open spec fn summary_wf(self) -> bool {
        &&& self.summary.media_count == self.medias.len()
        &&& self.summary.series_count == self.series.len()
        &&& self.summary.tag_count == self.tags.len()
        &&& self.summary.media_size == total_size(self.medias)
    }

    /// The invariant of a catalog.
    pub open spec fn wf(self) -> bool {
        &&& medias_wf(self.medias, self.next_id, self.algo)
        &&& sets_wf(self.series)
        &&& sets_wf(self.tags)
        &&& series_refs_wf(self.medias, self.series, self.series_refs)
        &&& tag_refs_wf(self.medias, self.tags, self.tag_refs)
        &&& locations_wf(self.medias, self.locations)
        &&& thumbnails_wf(self.thumbnails)
        &&& self.summary_wf()
    }

    /// A catalog without rows for the algorithm `algo`.
    pub open spec fn empty(algo: HashAlgo) -> Catalog {
        Catalog {
            algo,
            next_id: 1,
            medias: Seq::empty(),
            series: Seq::empty(),
            tags: Seq::empty(),
            series_refs: Seq::empty(),
            tag_refs: Seq::empty(),
            locations: Seq::empty(),
            thumbnails: Seq::empty(),
            generated: 0,
            summary: LibrarySummary { media_count: 0, series_count: 0, tag_count: 0, media_size: 0 },
        }
    }
}

/// An empty catalog meets the invariant.
pub proof fn lemma_empty_wf(algo: HashAlgo)
    ensures
        Catalog::empty(algo).wf(),
{
}

} // verus!
