use vstd::prelude::*;
use crate::misc::error::ErrorView;
use super::messages::bad_hash;
use super::messages::duplicate_content;
use super::messages::library_full;
use super::model::has_hash;
use super::model::has_location;
use super::model::has_media;
use super::model::has_set;
use super::model::hash_index;
use super::model::media_index;
use super::model::medias_wf;
use super::model::refs_compatible;
use super::model::total_size;
use super::seq_lemmas::lemma_filter_one;
use super::seq_lemmas::lemma_filter_two;
use super::Catalog;
use super::LibrarySummary;
use super::LocationRef;
use super::MediaRow;
use super::SeriesRef;
use super::TagRef;

verus! {

/// Holds of the series memberships of every media item but `id`.
pub open spec fn series_ref_of_other(id: u64) -> spec_fn(SeriesRef) -> bool {
    |r: SeriesRef| r.media_id != id
}

/// Holds of the tag memberships of every media item but `id`.
pub open spec fn tag_ref_of_other(id: u64) -> spec_fn(TagRef) -> bool {
    |r: TagRef| r.media_id != id
}

/// Holds of the source locations of every media item but `id`.
pub open spec fn location_of_other(id: u64) -> spec_fn(LocationRef) -> bool {
    |l: LocationRef| l.media_id != id
}

impl Catalog {
    /// Whether the catalog has room for one more row of `filesize` bytes.
    pub open spec fn has_room(self, filesize: usize) -> bool {
        &&& self.next_id < u64::MAX
        &&& self.summary.media_count < usize::MAX
        &&& self.summary.media_size + filesize <= usize::MAX
    }

    /// What adding content with the hash `hash` comes to: the id of the
    /// new row, or the error. `dest_exists` says whether a file already
    /// lies where the content would be stored.
    pub open spec fn add_check(self, hash: Seq<char>, filesize: usize, dest_exists: bool) -> Result<
        u64,
        ErrorView,
    > {
        if !self.algo.is_hash(hash) {
            Err(bad_hash())
        } else if has_hash(self.medias, hash) {
            Err(duplicate_content(self.medias[hash_index(self.medias, hash)].id))
        } else if dest_exists {
            Err(ErrorView::AlreadyExists(hash))
        } else if !self.has_room(filesize) {
            Err(library_full())
        } else {
            Ok(self.next_id)
        }
    }

    /// The catalog with `row` appended, the next id moved past it and the
    /// counters raised.
    pub open spec fn with_media(self, row: MediaRow) -> Catalog {
        Catalog {
            next_id: (row.id + 1) as u64,
            medias: self.medias.push(row),
            summary: LibrarySummary {
                media_count: (self.summary.media_count + 1) as usize,
                media_size: (self.summary.media_size + row.filesize) as usize,
                ..self.summary
            },
            ..self
        }
    }

    /// The catalog after content that it already holds was offered again
    /// from `location`: the location is put on record, unless it already is.
    pub open spec fn noting_duplicate(self, hash: Seq<char>, location: LocationRef) -> Catalog {
        if self.algo.is_hash(hash) && has_hash(self.medias, hash) && !has_location(
            self.locations,
            location.media_id,
            location.path@,
        ) {
            self.with_location(location)
        } else {
            self
        }
    }

    /// The catalog with one more source location on record.
    pub open spec fn with_location(self, location: LocationRef) -> Catalog {
        Catalog { locations: self.locations.push(location), ..self }
    }

    /// The catalog without the row `id`, without the memberships and
    /// source locations of that media item, and with the counters lowered.
    /// Previews stay: they belong to content, not to rows.
    pub open spec fn without_media(self, id: u64) -> Catalog {
        let i = media_index(self.medias, id);
        Catalog {
            medias: self.medias.remove(i),
            series_refs: self.series_refs.filter(series_ref_of_other(id)),
            tag_refs: self.tag_refs.filter(tag_ref_of_other(id)),
            locations: self.locations.filter(location_of_other(id)),
            summary: LibrarySummary {
                media_count: (self.summary.media_count - 1) as usize,
                media_size: (self.summary.media_size - self.medias[i].filesize) as usize,
                ..self.summary
            },
            ..self
        }
    }
}

/// A row that is in a table is still there after another is appended, and
/// so is the appended one.
pub proof fn lemma_has_media_push(medias: Seq<MediaRow>, row: MediaRow, id: u64)
    ensures
        has_media(medias, id) ==> has_media(medias.push(row), id),
        has_media(medias.push(row), row.id),
{
    if has_media(medias, id) {
        let i = media_index(medias, id);
        assert(medias.push(row)[i].id == id);
    }
    assert(medias.push(row)[medias.len() as int].id == row.id);
}

/// A row other than the removed one is still in the table.
pub proof fn lemma_has_media_remove(medias: Seq<MediaRow>, i: int, id: u64)
    requires
        0 <= i < medias.len(),
        has_media(medias, id),
        medias[i].id != id,
    ensures
        has_media(medias.remove(i), id),
{
    let k = media_index(medias, id);
    if k < i {
        assert(medias.remove(i)[k].id == id);
    } else {
        assert(medias.remove(i)[k - 1].id == id);
    }
}

/// The sizes add up row by row.
pub proof fn lemma_total_size_push(medias: Seq<MediaRow>, row: MediaRow)
    ensures
        total_size(medias.push(row)) == total_size(medias) + row.filesize,
{
    assert(medias.push(row).drop_last() =~= medias);
}

/// Removing a row takes its size off the total.
pub proof fn lemma_total_size_remove(medias: Seq<MediaRow>, i: int)
    requires
        0 <= i < medias.len(),
    ensures
        total_size(medias.remove(i)) + medias[i].filesize == total_size(medias),
    decreases medias.len(),
{
    if i == medias.len() - 1 {
        assert(medias.remove(i) =~= medias.drop_last());
    } else {
        lemma_total_size_remove(medias.drop_last(), i);
        assert(medias.remove(i).drop_last() =~= medias.drop_last().remove(i));
        assert(medias.remove(i).last() == medias.last());
    }
}

/// Replacing a row changes the total by the difference of the two sizes.
pub proof fn lemma_total_size_update(medias: Seq<MediaRow>, i: int, row: MediaRow)
    requires
        0 <= i < medias.len(),
    ensures
        total_size(medias.update(i, row)) + medias[i].filesize == total_size(medias)
            + row.filesize,
    decreases medias.len(),
{
    if i == medias.len() - 1 {
        assert(medias.update(i, row).drop_last() =~= medias.drop_last());
    } else {
        lemma_total_size_update(medias.drop_last(), i, row);
        assert(medias.update(i, row).drop_last() =~= medias.drop_last().update(i, row));
    }
}

/// Appending a fresh row keeps the invariant.
pub proof fn lemma_with_media_wf(c: Catalog, row: MediaRow)
    requires
        c.wf(),
        row.id == c.next_id,
        c.has_room(row.filesize),
        c.algo.is_hash(row.hash@),
        !has_hash(c.medias, row.hash@),
    ensures
        c.with_media(row).wf(),
{
    let d = c.with_media(row);
    lemma_total_size_push(c.medias, row);
    assert forall|i: int| 0 <= i < d.series_refs.len() implies has_media(
        d.medias,
        (#[trigger] d.series_refs[i]).media_id,
    ) && has_set(d.series, d.series_refs[i].series_uuid) by {
        lemma_has_media_push(c.medias, row, d.series_refs[i].media_id);
    }
    assert forall|i: int| 0 <= i < d.tag_refs.len() implies has_media(
        d.medias,
        (#[trigger] d.tag_refs[i]).media_id,
    ) && has_set(d.tags, d.tag_refs[i].tag_uuid) by {
        lemma_has_media_push(c.medias, row, d.tag_refs[i].media_id);
    }
    assert forall|i: int| 0 <= i < d.locations.len() implies has_media(
        d.medias,
        (#[trigger] d.locations[i]).media_id,
    ) by {
        lemma_has_media_push(c.medias, row, d.locations[i].media_id);
    }
    assert(medias_wf(d.medias, d.next_id, d.algo));
}

/// Recording a new source location of an existing media item keeps the
/// invariant.
pub proof fn lemma_with_location_wf(c: Catalog, location: LocationRef)
    requires
        c.wf(),
        has_media(c.medias, location.media_id),
        !has_location(c.locations, location.media_id, location.path@),
    ensures
        c.with_location(location).wf(),
{
}

/// Removing a media item with all that refers to it keeps the invariant.
pub proof fn lemma_without_media_wf(c: Catalog, id: u64)
    requires
        c.wf(),
        has_media(c.medias, id),
    ensures
        c.without_media(id).wf(),
{
    let d = c.without_media(id);
    let i = media_index(c.medias, id);
    lemma_total_size_remove(c.medias, i);
    assert(medias_wf(d.medias, d.next_id, d.algo));
    let ps = series_ref_of_other(id);
    assert forall|k: int| 0 <= k < d.series_refs.len() implies has_media(
        d.medias,
        (#[trigger] d.series_refs[k]).media_id,
    ) && has_set(d.series, d.series_refs[k].series_uuid) by {
        lemma_filter_one(c.series_refs, ps, k);
        let j = choose|j: int|
            0 <= j < c.series_refs.len() && #[trigger] c.series_refs[j] == d.series_refs[k] && ps(
                c.series_refs[j],
            );
        lemma_has_media_remove(c.medias, i, c.series_refs[j].media_id);
    }
    assert forall|k: int, l: int| 0 <= k < l < d.series_refs.len() implies refs_compatible(
        #[trigger] d.series_refs[k],
        #[trigger] d.series_refs[l],
    ) by {
        lemma_filter_two(c.series_refs, ps, k, l);
    }
    let pt = tag_ref_of_other(id);
    assert forall|k: int| 0 <= k < d.tag_refs.len() implies has_media(
        d.medias,
        (#[trigger] d.tag_refs[k]).media_id,
    ) && has_set(d.tags, d.tag_refs[k].tag_uuid) by {
        lemma_filter_one(c.tag_refs, pt, k);
        let j = choose|j: int|
            0 <= j < c.tag_refs.len() && #[trigger] c.tag_refs[j] == d.tag_refs[k] && pt(
                c.tag_refs[j],
            );
        lemma_has_media_remove(c.medias, i, c.tag_refs[j].media_id);
    }
    assert forall|k: int, l: int| 0 <= k < l < d.tag_refs.len() implies (#[trigger] d.tag_refs[k])
        != (#[trigger] d.tag_refs[l]) by {
        lemma_filter_two(c.tag_refs, pt, k, l);
    }
    let pl = location_of_other(id);
    assert forall|k: int| 0 <= k < d.locations.len() implies has_media(
        d.medias,
        (#[trigger] d.locations[k]).media_id,
    ) by {
        lemma_filter_one(c.locations, pl, k);
        let j = choose|j: int|
            0 <= j < c.locations.len() && #[trigger] c.locations[j] == d.locations[k] && pl(
                c.locations[j],
            );
        lemma_has_media_remove(c.medias, i, c.locations[j].media_id);
    }
    assert forall|k: int, l: int| 0 <= k < l < d.locations.len() implies !((
    #[trigger] d.locations[k]).media_id == (#[trigger] d.locations[l]).media_id
        && d.locations[k].path@ == d.locations[l].path@) by {
        lemma_filter_two(c.locations, pl, k, l);
    }
}

} // verus!
