use vstd::prelude::*;
use crate::media::detail::detail_view;
use crate::media::detail::duplicate_detail;
use crate::media::Media;
use crate::media::MediaType;
use crate::media::SeriesMembership;
use crate::media::TypesDetail;
use crate::misc::error::fails_with;
use crate::misc::tools::file_extension;
use crate::misc::tools::file_stem;
use crate::misc::tools::stem_of;
use crate::misc::Error;
use crate::misc::Uuid;
use super::guards::find_media;
use super::guards::lemma_media_at;
use super::lib_ops::clone_opt;
use super::messages::err_media_not_exists;
use super::messages::media_not_exists;
use super::model::has_media;
use super::model::media_index;
use super::seq_lemmas::lemma_filter_step;
use super::Library;
use super::LibraryView;
use super::LocationRef;
use super::MediaRow;
use super::SeriesRef;
use super::TagRef;

verus! {

/// Holds of the series memberships of the media item `id`.
pub open spec fn series_ref_of(id: u64) -> spec_fn(SeriesRef) -> bool {
    |r: SeriesRef| r.media_id == id
}

/// Holds of the tag memberships of the media item `id`.
pub open spec fn tag_ref_of(id: u64) -> spec_fn(TagRef) -> bool {
    |r: TagRef| r.media_id == id
}

/// The series that the media item `id` belongs to, with its ordinal in
/// each, in the order of the membership table.
pub open spec fn series_of(refs: Seq<SeriesRef>, id: u64) -> Seq<SeriesMembership> {
    refs.filter(series_ref_of(id)).map_values(
        |r: SeriesRef| SeriesMembership { uuid: r.series_uuid, no: r.series_no },
    )
}

/// The tags that the media item `id` carries, in the order of the
/// membership table.
pub open spec fn tags_of(refs: Seq<TagRef>, id: u64) -> Seq<Uuid> {
    refs.filter(tag_ref_of(id)).map_values(|r: TagRef| r.tag_uuid)
}

/// Whether the media item `id` was once taken from a file called `name`,
/// or one whose stem `name` has.
pub open spec fn located_as(locations: Seq<LocationRef>, id: u64, name: Seq<char>) -> bool {
    exists|i: int|
        0 <= i < locations.len() && (#[trigger] locations[i]).media_id == id && (
        locations[i].filename@ == stem_of(name) || locations[i].filename@ == name)
}

/// Holds of the rows that were once taken from a file called `name`.
pub open spec fn row_located_as(locations: Seq<LocationRef>, name: Seq<char>) -> spec_fn(
    MediaRow,
) -> bool {
    |row: MediaRow| located_as(locations, row.id, name)
}

/// The ids of the rows that were once taken from a file called `name`, in
/// rising order.
pub open spec fn ids_located_as(
    medias: Seq<MediaRow>,
    locations: Seq<LocationRef>,
    name: Seq<char>,
) -> Seq<u64> {
    medias.filter(row_located_as(locations, name)).map_values(|row: MediaRow| row.id)
}

/// Whether `m` is the media item that the library `lib` makes of `row`:
/// the row's fields, the path of its content file, its memberships, and its
/// detail payload unless the type is unset.
pub open spec fn is_media_of(lib: LibraryView, row: MediaRow, m: Media) -> bool {
    &&& m.id == row.id
    &&& m.library_uuid == lib.uuid
    &&& m.hash == row.hash
    &&& m.filename == row.filename
    &&& m.filepath@ == lib.path_of(row)
    &&& m.filesize == row.filesize
    &&& m.caption == row.caption
    &&& m.time_add == row.time_add
    &&& m.kind == row.kind
    &&& m.sub_kind == row.sub_kind
    &&& m.kind_addition == row.kind_addition
    &&& m.comment == row.comment
    &&& m.series@ == series_of(lib.catalog.series_refs, row.id)
    &&& m.tag@ == tags_of(lib.catalog.tag_refs, row.id)
    &&& detail_view(m.detail) == if row.kind != MediaType::Unset {
        detail_view(row.detail)
    } else {
        None
    }
}

pub(crate) fn collect_series(refs: &Vec<SeriesRef>, id: u64) -> (r: Vec<SeriesMembership>)
    ensures
        r@ == series_of(refs@, id),
{
    let mut out: Vec<SeriesMembership> = Vec::new();
    let n: usize = refs.len();
    let mut i: usize = 0;
    proof {
        reveal(Seq::filter);
        assert(series_of(refs@.take(0), id) =~= Seq::<SeriesMembership>::empty());
    }
    while i < n
        invariant
            n == refs@.len(),
            i <= n,
            out@ == series_of(refs@.take(i as int), id),
        decreases n - i,
    {
        proof {
            lemma_filter_step(refs@, series_ref_of(id), i as int);
        }
        if refs[i].media_id == id {
            out.push(SeriesMembership { uuid: refs[i].series_uuid, no: refs[i].series_no });
        }
        assert(out@ =~= series_of(refs@.take(i + 1), id));
        i += 1;
    }
    assert(refs@.take(n as int) =~= refs@);
    out
}

pub(crate) fn collect_tags(refs: &Vec<TagRef>, id: u64) -> (r: Vec<Uuid>)
    ensures
        r@ == tags_of(refs@, id),
{
    let mut out: Vec<Uuid> = Vec::new();
    let n: usize = refs.len();
    let mut i: usize = 0;
    proof {
        reveal(Seq::filter);
        assert(tags_of(refs@.take(0), id) =~= Seq::<Uuid>::empty());
    }
    while i < n
        invariant
            n == refs@.len(),
            i <= n,
            out@ == tags_of(refs@.take(i as int), id),
        decreases n - i,
    {
        proof {
            lemma_filter_step(refs@, tag_ref_of(id), i as int);
        }
        if refs[i].media_id == id {
            out.push(refs[i].tag_uuid);
        }
        assert(out@ =~= tags_of(refs@.take(i + 1), id));
        i += 1;
    }
    assert(refs@.take(n as int) =~= refs@);
    out
}

fn is_located_as(locations: &Vec<LocationRef>, id: u64, name: &String, stem: &String) -> (r: bool)
    requires
        stem@ == stem_of(name@),
    ensures
        r == located_as(locations@, id, name@),
{
    let n: usize = locations.len();
    let mut i: usize = 0;
    while i < n
        invariant
            n == locations@.len(),
            i <= n,
            stem@ == stem_of(name@),
            forall|j: int|
                0 <= j < i ==> !((#[trigger] locations@[j]).media_id == id && (
                locations@[j].filename@ == stem_of(name@) || locations@[j].filename@ == name@)),
        decreases n - i,
    {
        if locations[i].media_id == id && (locations[i].filename == *stem || locations[i].filename
            == *name) {
            return true;
        }
        i += 1;
    }
    false
}

impl Library {
    /// Reads the media item `id` with all that the catalog knows of it.
    /// An id that no row has is `NotExists`.
    pub fn get_media(&self, id: u64) -> (r: Result<Media, Error>)
        requires
            self.wf(),
        ensures
            has_media(self@.catalog.medias, id) ==> (r matches Ok(m) && is_media_of(
                self@,
                self@.catalog.medias[media_index(self@.catalog.medias, id)],
                m,
            )),
            !has_media(self@.catalog.medias, id) ==> fails_with(r, media_not_exists(id)),
    {
        match find_media(&self.medias, id) {
            None => Err(err_media_not_exists(id)),
            Some(i) => {
                proof {
                    lemma_media_at(self.medias@, self.next_id, self.hash_algo, i as int);
                }
                let row = &self.medias[i];
                let ext = file_extension(row.filename.as_str());
                let filepath = self.get_media_path_by_hash(row.hash.as_str(), ext.as_str());
                let detail = if row.kind.is_some() {
                    duplicate_detail(&row.detail)
                } else {
                    None
                };
                Ok(
                    Media {
                        id,
                        library_uuid: self.uuid,
                        hash: row.hash.clone(),
                        filename: row.filename.clone(),
                        filepath,
                        filesize: row.filesize,
                        caption: clone_opt(&row.caption),
                        time_add: row.time_add,
                        kind: row.kind,
                        sub_kind: clone_opt(&row.sub_kind),
                        kind_addition: clone_opt(&row.kind_addition),
                        series: collect_series(&self.series_refs, id),
                        tag: collect_tags(&self.tag_refs, id),
                        comment: clone_opt(&row.comment),
                        detail,
                    },
                )
            },
        }
    }

    /// Works out the detail payload of the media item `id` from what a
    /// probe of its content found, and drops it: the catalog is not
    /// changed. An id that no row has is `NotExists`.
    pub fn detailize(&self, id: u64, probe: Option<TypesDetail>) -> (r: Result<(), Error>)
        requires
            self.wf(),
        ensures
            has_media(self@.catalog.medias, id) ==> r is Ok,
            !has_media(self@.catalog.medias, id) ==> fails_with(r, media_not_exists(id)),
    {
        match self.get_media(id) {
            Ok(media) => {
                let _ = media.detailize(probe, None);
                Ok(())
            },
            Err(e) => Err(e),
        }
    }

    /// The ids, in rising order, of the media items that were once taken
    /// from a file called `filename`, or one whose stem `filename` has.
    pub fn get_media_by_filename(&self, filename: String) -> (r: Result<Vec<u64>, Error>)
        ensures
            r matches Ok(ids) && ids@ == ids_located_as(
                self@.catalog.medias,
                self@.catalog.locations,
                filename@,
            ),
    {
        let stem = file_stem(filename.as_str());
        let mut out: Vec<u64> = Vec::new();
        let n: usize = self.medias.len();
        let mut i: usize = 0;
        proof {
            reveal(Seq::filter);
            assert(ids_located_as(self.medias@.take(0), self.locations@, filename@) =~= Seq::<
                u64,
            >::empty());
        }
        while i < n
            invariant
                n == self.medias@.len(),
                i <= n,
                stem@ == stem_of(filename@),
                out@ == ids_located_as(self.medias@.take(i as int), self.locations@, filename@),
            decreases n - i,
        {
            proof {
                lemma_filter_step(
                    self.medias@,
                    row_located_as(self.locations@, filename@),
                    i as int,
                );
            }
            if is_located_as(&self.locations, self.medias[i].id, &filename, &stem) {
                out.push(self.medias[i].id);
            }
            assert(out@ =~= ids_located_as(
                self.medias@.take(i + 1),
                self.locations@,
                filename@,
            ));
            i += 1;
        }
        assert(self.medias@.take(n as int) =~= self.medias@);
        Ok(out)
    }
}

} // verus!
