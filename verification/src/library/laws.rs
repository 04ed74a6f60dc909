use vstd::prelude::*;
use crate::media::SeriesNo;
use crate::misc::error::ErrorView;
use crate::misc::Uuid;
use super::guards::lemma_media_at;
use super::guards::lemma_thumbnail_at;
use super::media_model::lemma_has_media_push;
use super::media_model::lemma_with_location_wf;
use super::media_model::lemma_with_media_wf;
use super::media_model::location_of_other;
use super::media_model::series_ref_of_other;
use super::media_model::tag_ref_of_other;
use super::messages::duplicate_content;
use super::messages::ordinal_occupied;
use super::model::has_media;
use super::model::max_ordinal;
use super::model::media_index;
use super::model::occupied;
use super::seq_lemmas::lemma_filter_all;
use super::seq_lemmas::lemma_filter_push;
use super::thumbnail::lemma_with_rendering_wf;
use super::thumbnail::ThumbnailStepView;
use super::Catalog;
use super::LibraryView;
use super::LocationRef;
use super::MediaRow;
use super::SeriesRef;
use super::Thumbnail;

verus! {

/// Adding a media item and removing it again gives back the catalog as it
/// was, counters included; only the id is spent.
pub proof fn law_add_then_remove(c: Catalog, row: MediaRow, location: LocationRef)
    requires
        c.wf(),
        c.add_check(row.hash@, row.filesize, false) == Ok::<u64, ErrorView>(row.id),
        location.media_id == row.id,
    ensures
        c.with_media(row).with_location(location).without_media(row.id) == (Catalog {
            next_id: (row.id + 1) as u64,
            ..c
        }),
        c.with_media(row).with_location(location).without_media(row.id).summary == c.summary,
{
    let id = row.id;
    let d = c.with_media(row).with_location(location);
    lemma_with_media_wf(c, row);
    lemma_has_media_push(c.medias, row, id);
    lemma_with_location_wf(c.with_media(row), location);
    let last = c.medias.len() as int;
    lemma_media_at(d.medias, d.next_id, d.algo, last);
    assert(media_index(d.medias, id) == last);
    assert(d.medias.remove(last) =~= c.medias);
    assert forall|i: int| 0 <= i < c.series_refs.len() implies series_ref_of_other(id)(
        #[trigger] c.series_refs[i],
    ) by {
        let k = media_index(c.medias, c.series_refs[i].media_id);
        assert(c.medias[k].id < c.next_id);
    }
    lemma_filter_all(c.series_refs, series_ref_of_other(id));
    assert forall|i: int| 0 <= i < c.tag_refs.len() implies tag_ref_of_other(id)(
        #[trigger] c.tag_refs[i],
    ) by {
        let k = media_index(c.medias, c.tag_refs[i].media_id);
        assert(c.medias[k].id < c.next_id);
    }
    lemma_filter_all(c.tag_refs, tag_ref_of_other(id));
    assert forall|i: int| 0 <= i < c.locations.len() implies location_of_other(id)(
        #[trigger] c.locations[i],
    ) by {
        let k = media_index(c.medias, c.locations[i].media_id);
        assert(c.medias[k].id < c.next_id);
    }
    lemma_filter_all(c.locations, location_of_other(id));
    lemma_filter_push(c.locations, location_of_other(id), location);
}

/// Ids are not used again: a new row gets the next id, which lies above
/// the id of every row, then the next id moves on, and removing a row does
/// not move it back.
pub proof fn law_ids_are_not_reused(c: Catalog, row: MediaRow, removed: u64)
    requires
        c.wf(),
        c.add_check(row.hash@, row.filesize, false) == Ok::<u64, ErrorView>(row.id),
    ensures
        row.id == c.next_id,
        forall|i: int| 0 <= i < c.medias.len() ==> (#[trigger] c.medias[i]).id < row.id,
        c.with_media(row).next_id > row.id,
        c.with_media(row).without_media(removed).next_id == c.with_media(row).next_id,
{
}

/// Content that was added is never added again: a second attempt with the
/// same hash, which is what the same content has, is turned down with the
/// id that the first attempt gave, and leaves the media table as it is.
pub proof fn law_no_second_row(
    c: Catalog,
    row: MediaRow,
    location: LocationRef,
    filesize: usize,
    dest_exists: bool,
    again: LocationRef,
)
    requires
        c.wf(),
        c.add_check(row.hash@, row.filesize, false) == Ok::<u64, ErrorView>(row.id),
        location.media_id == row.id,
    ensures
        c.with_media(row).with_location(location).add_check(row.hash@, filesize, dest_exists)
            == Err::<u64, ErrorView>(duplicate_content(row.id)),
        c.with_media(row).with_location(location).noting_duplicate(row.hash@, again).medias
            == c.with_media(row).medias,
{
    let d = c.with_media(row).with_location(location);
    lemma_with_media_wf(c, row);
    lemma_has_media_push(c.medias, row, row.id);
    lemma_with_location_wf(c.with_media(row), location);
    lemma_media_at(d.medias, d.next_id, d.algo, c.medias.len() as int);
}

/// An explicit ordinal that another member of the series holds is always
/// turned down as occupied, whatever else holds of the request.
pub proof fn law_occupied_is_refused(c: Catalog, id: u64, uuid: Uuid, no: u64, unsorted: bool)
    requires
        occupied(c.series_refs, id, uuid, no),
    ensures
        c.add_to_series_check(id, uuid, Some(no), unsorted) == Err::<SeriesNo, ErrorView>(
            ordinal_occupied(id, uuid, no),
        ),
{
}

/// In a series without ordinals the largest ordinal counts as 0, so that
/// the next one is 1.
pub proof fn law_first_ordinal(refs: Seq<SeriesRef>, uuid: Uuid)
    requires
        forall|i: int|
            0 <= i < refs.len() ==> !((#[trigger] refs[i]).series_uuid == uuid
                && refs[i].series_no is Ordered),
    ensures
        max_ordinal(refs, uuid) == 0,
    decreases refs.len(),
{
    if refs.len() > 0 {
        let init = refs.drop_last();
        assert forall|i: int| 0 <= i < init.len() implies !((#[trigger] init[i]).series_uuid == uuid
            && init[i].series_no is Ordered) by {
            assert(init[i] == refs[i]);
        }
        law_first_ordinal(init, uuid);
        assert(refs.last() == refs[refs.len() - 1]);
    }
}

/// After a member joined at an ordinal, the largest ordinal of the series
/// is that ordinal or the one before, whichever is larger.
pub proof fn law_ordinal_after_join(refs: Seq<SeriesRef>, id: u64, uuid: Uuid, no: u64)
    ensures
        max_ordinal(
            refs.push(SeriesRef { media_id: id, series_uuid: uuid, series_no: SeriesNo::Ordered(no) }),
            uuid,
        ) == if no > max_ordinal(refs, uuid) {
            no as nat
        } else {
            max_ordinal(refs, uuid)
        },
{
    let r = SeriesRef { media_id: id, series_uuid: uuid, series_no: SeriesNo::Ordered(no) };
    assert(refs.push(r).drop_last() =~= refs);
    assert(refs.push(r).last() == r);
}

/// A preview is rendered once: after a rendering was stored for a
/// content hash, every request for the preview of a media item with that
/// content gets the stored bytes, which are the rendered ones, so that no
/// second rendering is asked for; a further rendering that comes in for
/// the hash is not stored; one row of the cache, and no more, has the
/// hash; and the generation counter, unless it stood at its ceiling, is
/// one higher than before.
pub proof fn law_thumbnail_rendered_once(
    lib: LibraryView,
    t: Thumbnail,
    id: u64,
    other: Seq<u8>,
)
    requires
        lib.catalog.wf(),
        lib.catalog.store_check(t.hash@, t.image@) == Ok::<bool, ErrorView>(true),
        t.size == t.image@.len(),
        has_media(lib.catalog.medias, id),
        lib.catalog.medias[media_index(lib.catalog.medias, id)].hash@ == t.hash@,
        other.len() > 0,
    ensures
        (LibraryView { catalog: lib.catalog.with_rendering(t, true), ..lib }).thumbnail_step(id)
            == Ok::<ThumbnailStepView, ErrorView>(ThumbnailStepView::Ready(t.image@)),
        lib.catalog.with_rendering(t, true).store_check(t.hash@, other) == Ok::<bool, ErrorView>(
            false,
        ),
        lib.catalog.with_rendering(t, true).with_rendering(t, false).thumbnails
            == lib.catalog.with_rendering(t, true).thumbnails,
        forall|i: int|
            0 <= i < lib.catalog.with_rendering(t, true).thumbnails.len() ==> ((
            #[trigger] lib.catalog.with_rendering(t, true).thumbnails[i]).hash@ == t.hash@ <==> i
                == lib.catalog.thumbnails.len()),
        lib.catalog.generated < u64::MAX ==> lib.catalog.with_rendering(t, true).generated
            == lib.catalog.generated + 1,
{
    let d = lib.catalog.with_rendering(t, true);
    lemma_with_rendering_wf(lib.catalog, t, true);
    lemma_thumbnail_at(d.thumbnails, lib.catalog.thumbnails.len() as int);
}

} // verus!
