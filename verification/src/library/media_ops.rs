use vstd::prelude::*;
use vstd::string::StringExecFns;
use vstd::string::StrSliceExecFns;
use crate::media::MediaType;
use crate::misc::error::fails_with;
use crate::misc::hash::hex_char;
use crate::misc::hash::is_hex_char;
use crate::misc::tools::concat3;
use crate::misc::tools::extension_of;
use crate::misc::tools::file_extension;
use crate::misc::tools::make_shard_path;
use crate::misc::tools::shard_path;
use crate::misc::error::err_type_mismatch_expect_dir_found_file;
use crate::misc::error::ErrorView;
use crate::misc::Error;
use crate::misc::HashAlgo;
use super::guards::find_hash;
use super::guards::find_location;
use super::guards::find_media;
use super::guards::lemma_media_at;
use super::media_model::lemma_with_location_wf;
use super::media_model::lemma_with_media_wf;
use super::media_model::lemma_without_media_wf;
use super::media_model::lemma_has_media_push;
use super::media_model::location_of_other;
use super::media_model::series_ref_of_other;
use super::media_model::tag_ref_of_other;
use super::messages::err_bad_hash;
use super::messages::err_duplicate_content;
use super::messages::err_library_full;
use super::messages::err_media_not_exists;
use super::messages::media_not_exists;
use super::model::has_hash;
use super::model::has_media;
use super::model::hash_index;
use super::model::media_index;
use super::seq_lemmas::lemma_filter_step;
use super::thumbnail::ThumbnailStep;
use super::thumbnail::ThumbnailStepView;
use super::Library;
use super::LibraryFeature;
use super::LibraryView;
use super::LocationRef;
use super::MediaRow;
use super::SeriesRef;
use super::TagRef;

verus! {

/// What the caller found out about a file that is to be added. Where the
/// path names no regular file, the other fields say nothing.
#[derive(Debug)]
pub struct AddedFile {
    /// Whether the path names a regular file.
    pub is_file: bool,
    /// The content hash, as `ingest` gave it.
    pub hash: String,
    /// The file's name, without folders.
    pub filename: String,
    /// The length in bytes of the stored copy.
    pub filesize: usize,
    /// Whether a file already lay at the stored path before any copy.
    pub dest_exists: bool,
    /// The place the file was taken from.
    pub source_path: String,
    /// The stem of the name it had there.
    pub source_stem: String,
    /// When it is added, in milliseconds since the Unix epoch.
    pub time_add: i64,
}

/// What an add comes to: the id of the new row and, where the library
/// makes previews at adding and the item is an image without one, the
/// order to render the preview. The add stands whatever becomes of the
/// rendering.
#[derive(Debug)]
pub struct AddedMedia {
    pub id: u64,
    pub preview: Option<ThumbnailStep>,
}

/// Where content belongs in the store.
#[derive(Debug)]
pub struct Ingest {
    pub hash: String,
    pub stored_path: String,
}

impl LibraryView {
    /// The path of the content file with the hash `hash` and the extension
    /// `ext`.
    pub open spec fn media_path(self, hash: Seq<char>, ext: Seq<char>) -> Seq<char> {
        shard_path(self.path + "/"@ + self.media_folder, hash, ext)
    }

    /// The path of the content file of `row`.
    pub open spec fn path_of(self, row: MediaRow) -> Seq<char> {
        self.media_path(row.hash@, extension_of(row.filename@))
    }

    /// The file that backs `row`: none for a URL.
    pub open spec fn file_of(self, row: MediaRow) -> Option<Seq<char>> {
        if row.kind == MediaType::URL {
            None
        } else {
            Some(self.path_of(row))
        }
    }
}

/// The error for a path that names no regular file.
pub open spec fn not_a_file(path: Seq<char>) -> ErrorView {
    ErrorView::TypeMismatch { val: path, expect: "Dir"@, found: "File"@ }
}

/// What an optional step says.
pub open spec fn step_view(step: Option<ThumbnailStep>) -> Option<ThumbnailStepView> {
    match step {
        Some(s) => Some(s@),
        None => None,
    }
}

impl LibraryView {
    /// The preview to render right after the media item `id` was added:
    /// the order that a request for its preview gives, where the library
    /// makes previews at adding and a preview is to be rendered at all.
    pub open spec fn preview_at_adding(self, id: u64) -> Option<ThumbnailStepView> {
        if self.features.contains(LibraryFeature::GenerateThumbnailAtAdding) {
            match self.thumbnail_step(id) {
                Ok(ThumbnailStepView::Render { hash, filepath, width, height }) => Some(
                    ThumbnailStepView::Render { hash, filepath, width, height },
                ),
                _ => None,
            }
        } else {
            None
        }
    }
}

/// Whether `r` is the outcome `added` of adding a row, with the preview
/// that the library `after` asks for.
pub open spec fn is_added(r: Result<AddedMedia, Error>, added: Result<u64, Error>, after: LibraryView) -> bool {
    match added {
        Ok(id) => r matches Ok(a) && a.id == id && step_view(a.preview) == after.preview_at_adding(
            id,
        ),
        Err(e) => r matches Err(x) && x@ == e@,
    }
}

/// The id that an add gave, or its error.
pub open spec fn added_id(r: Result<AddedMedia, Error>) -> Result<u64, Error> {
    match r {
        Ok(a) => Ok(a.id),
        Err(e) => Err(e),
    }
}

/// The row of a newly added file.
pub open spec fn file_row(
    id: u64,
    file: AddedFile,
    kind: MediaType,
    sub_kind: Option<String>,
    kind_addition: Option<String>,
    caption: Option<String>,
    comment: Option<String>,
) -> MediaRow {
    MediaRow {
        id,
        hash: file.hash,
        filename: file.filename,
        filesize: file.filesize,
        caption,
        time_add: file.time_add,
        kind,
        sub_kind,
        kind_addition,
        comment,
        detail: None,
    }
}

/// The source location of an added file.
pub open spec fn file_location(id: u64, file: AddedFile) -> LocationRef {
    LocationRef { media_id: id, path: file.source_path, filename: file.source_stem }
}

/// Whether `row` is the row of the URL `url` under the id `id`.
pub open spec fn is_url_row(
    row: MediaRow,
    id: u64,
    hash: Seq<char>,
    url: String,
    sub_kind: Option<String>,
    kind_addition: Option<String>,
    caption: Option<String>,
    comment: Option<String>,
    time_add: i64,
) -> bool {
    &&& row.hash@ == hash
    &&& row == (MediaRow {
        id,
        hash: row.hash,
        filename: url,
        filesize: 0,
        caption,
        time_add,
        kind: MediaType::URL,
        sub_kind,
        kind_addition,
        comment,
        detail: None,
    })
}

/// What `add_url` leaves behind and returns.
pub open spec fn url_added(
    before: LibraryView,
    after: LibraryView,
    r: Result<u64, Error>,
    url: String,
    sub_kind: Option<String>,
    kind_addition: Option<String>,
    caption: Option<String>,
    comment: Option<String>,
    time_add: i64,
) -> bool {
    let hash = before.catalog.algo.hash_of(vstd::utf8::encode_utf8(url@));
    match before.catalog.add_check(hash, 0, false) {
        Ok(id) => {
            &&& r == Ok::<u64, Error>(id)
            &&& after.catalog.medias.len() == before.catalog.medias.len() + 1
            &&& is_url_row(
                after.catalog.medias.last(),
                id,
                hash,
                url,
                sub_kind,
                kind_addition,
                caption,
                comment,
                time_add,
            )
            &&& after == (LibraryView {
                catalog: before.catalog.with_media(after.catalog.medias.last()),
                ..before
            })
        },
        Err(e) => fails_with(r, e) && after == before,
    }
}

fn is_hex(c: char) -> (r: bool)
    ensures
        r == is_hex_char(c),
{
    let r = c == '0' || c == '1' || c == '2' || c == '3' || c == '4' || c == '5' || c == '6' || c
        == '7' || c == '8' || c == '9' || c == 'A' || c == 'B' || c == 'C' || c == 'D' || c == 'E'
        || c == 'F';
    proof {
        if r {
            assert(c == hex_char(0) || c == hex_char(1) || c == hex_char(2) || c == hex_char(3)
                || c == hex_char(4) || c == hex_char(5) || c == hex_char(6) || c == hex_char(7)
                || c == hex_char(8) || c == hex_char(9) || c == hex_char(10) || c == hex_char(11)
                || c == hex_char(12) || c == hex_char(13) || c == hex_char(14) || c == hex_char(
                15,
            ));
        }
    }
    r
}

/// Whether `s` has the shape of a content hash of `algo`.
pub fn is_hash_text(algo: &HashAlgo, s: &str) -> (r: bool)
    ensures
        r == algo.is_hash(s@),
{
    let n: usize = s.unicode_len();
    if n != 2 * algo.get_size() {
        return false;
    }
    let mut i: usize = 0;
    while i < n
        invariant
            n == s@.len(),
            i <= n,
            forall|j: int| 0 <= j < i ==> is_hex_char(#[trigger] s@[j]),
        decreases n - i,
    {
        if !is_hex(s.get_char(i)) {
            return false;
        }
        i += 1;
    }
    true
}

pub(crate) fn keep_series_refs(refs: &Vec<SeriesRef>, id: u64) -> (r: Vec<SeriesRef>)
    ensures
        r@ == refs@.filter(series_ref_of_other(id)),
{
    let mut out: Vec<SeriesRef> = Vec::new();
    let n: usize = refs.len();
    let mut i: usize = 0;
    proof {
        reveal(Seq::filter);
        assert(refs@.take(0).filter(series_ref_of_other(id)) =~= Seq::<SeriesRef>::empty());
    }
    while i < n
        invariant
            n == refs@.len(),
            i <= n,
            out@ == refs@.take(i as int).filter(series_ref_of_other(id)),
        decreases n - i,
    {
        proof {
            lemma_filter_step(refs@, series_ref_of_other(id), i as int);
        }
        if refs[i].media_id != id {
            out.push(refs[i]);
        }
        i += 1;
    }
    assert(refs@.take(n as int) =~= refs@);
    out
}

pub(crate) fn keep_tag_refs(refs: &Vec<TagRef>, id: u64) -> (r: Vec<TagRef>)
    ensures
        r@ == refs@.filter(tag_ref_of_other(id)),
{
    let mut out: Vec<TagRef> = Vec::new();
    let n: usize = refs.len();
    let mut i: usize = 0;
    proof {
        reveal(Seq::filter);
        assert(refs@.take(0).filter(tag_ref_of_other(id)) =~= Seq::<TagRef>::empty());
    }
    while i < n
        invariant
            n == refs@.len(),
            i <= n,
            out@ == refs@.take(i as int).filter(tag_ref_of_other(id)),
        decreases n - i,
    {
        proof {
            lemma_filter_step(refs@, tag_ref_of_other(id), i as int);
        }
        if refs[i].media_id != id {
            out.push(refs[i]);
        }
        i += 1;
    }
    assert(refs@.take(n as int) =~= refs@);
    out
}

pub(crate) fn keep_locations(locations: &Vec<LocationRef>, id: u64) -> (r: Vec<LocationRef>)
    ensures
        r@ == locations@.filter(location_of_other(id)),
{
    let mut out: Vec<LocationRef> = Vec::new();
    let n: usize = locations.len();
    let mut i: usize = 0;
    proof {
        reveal(Seq::filter);
        assert(locations@.take(0).filter(location_of_other(id)) =~= Seq::<LocationRef>::empty());
    }
    while i < n
        invariant
            n == locations@.len(),
            i <= n,
            out@ == locations@.take(i as int).filter(location_of_other(id)),
        decreases n - i,
    {
        proof {
            lemma_filter_step(locations@, location_of_other(id), i as int);
        }
        if locations[i].media_id != id {
            out.push(
                LocationRef {
                    media_id: locations[i].media_id,
                    path: locations[i].path.clone(),
                    filename: locations[i].filename.clone(),
                },
            );
        }
        i += 1;
    }
    assert(locations@.take(n as int) =~= locations@);
    out
}

impl Library {
    /// The path of the content file with the hash `hash` and the extension
    /// `ext`. Nothing says that the file exists.
    pub fn get_media_path_by_hash(&self, hash: &str, ext: &str) -> (r: String)
        requires
            hash@.len() >= 2,
        ensures
            r@ == self@.media_path(hash@, ext@),
    {
        let folder = concat3(self.path.as_str(), "/", self.media_folder.as_str());
        make_shard_path(folder.as_str(), hash, ext)
    }

    /// Hashes `content` with the library's algorithm and says where a file
    /// of that content and the name `filename` is stored.
    pub fn ingest(&self, content: &[u8], filename: &str) -> (r: Ingest)
        ensures
            r.hash@ == self@.catalog.algo.hash_of(content@),
            self@.catalog.algo.is_hash(r.hash@),
            r.stored_path@ == self@.media_path(r.hash@, extension_of(filename@)),
    {
        let hash = self.hash_algo.hash_bytes(content);
        let ext = file_extension(filename);
        let stored_path = self.get_media_path_by_hash(hash.as_str(), ext.as_str());
        Ingest { hash, stored_path }
    }

    /// Whether content with the hash `hash` is to be copied into the store:
    /// it is, unless a file lies at the stored path already or a row holds
    /// the content.
    pub fn must_copy(&self, hash: &str, dest_exists: bool) -> (r: bool)
        ensures
            r == (!dest_exists && !has_hash(self@.catalog.medias, hash@)),
    {
        if dest_exists {
            return false;
        }
        let key = String::from_str(hash);
        find_hash(&self.medias, &key).is_none()
    }

    /// The content hash of the media item `id`, if there is such an item.
    pub fn get_media_hash(&self, id: u64) -> (r: Option<String>)
        requires
            self.wf(),
        ensures
            match r {
                Some(h) => has_media(self@.catalog.medias, id) && h
                    == self@.catalog.medias[media_index(self@.catalog.medias, id)].hash,
                None => !has_media(self@.catalog.medias, id),
            },
    {
        match find_media(&self.medias, id) {
            Some(i) => {
                proof {
                    lemma_media_at(self.medias@, self.next_id, self.hash_algo, i as int);
                }
                Some(self.medias[i].hash.clone())
            },
            None => None,
        }
    }

    /// The id of the media item with the content hash `hash`, if there is
    /// such an item.
    pub fn get_media_id(&self, hash: &str) -> (r: Option<u64>)
        requires
            self.wf(),
        ensures
            match r {
                Some(id) => has_hash(self@.catalog.medias, hash@) && id
                    == self@.catalog.medias[hash_index(self@.catalog.medias, hash@)].id,
                None => !has_hash(self@.catalog.medias, hash@),
            },
    {
        let hash = String::from_str(hash);
        match find_hash(&self.medias, &hash) {
            Some(i) => {
                proof {
                    lemma_media_at(self.medias@, self.next_id, self.hash_algo, i as int);
                }
                Some(self.medias[i].id)
            },
            None => None,
        }
    }

    /// Adds the URL `url` as a media item without a file. Its hash is that
    /// of the URL's text. A URL that the catalog already holds is reported
    /// with the id of its row and changes nothing.
    pub fn add_url(
        &mut self,
        url: String,
        sub_kind: Option<String>,
        kind_addition: Option<String>,
        caption: Option<String>,
        comment: Option<String>,
        time_add: i64,
    ) -> (r: Result<u64, Error>)
        requires
            old(self).wf(),
        ensures
            final(self).wf(),
            url_added(
                old(self)@,
                final(self)@,
                r,
                url,
                sub_kind,
                kind_addition,
                caption,
                comment,
                time_add,
            ),
    {
        let hash = self.hash_algo.hash_bytes(url.as_str().as_bytes());
        match find_hash(&self.medias, &hash) {
            Some(i) => {
                proof {
                    lemma_media_at(self.medias@, self.next_id, self.hash_algo, i as int);
                }
                return Err(err_duplicate_content(self.medias[i].id));
            },
            None => {},
        }
        if self.next_id == u64::MAX || self.summary.media_count == usize::MAX {
            return Err(err_library_full());
        }
        let id: u64 = self.next_id;
        let row = MediaRow {
            id,
            hash,
            filename: url,
            filesize: 0,
            caption,
            time_add,
            kind: MediaType::URL,
            sub_kind,
            kind_addition,
            comment,
            detail: None,
        };
        proof {
            lemma_with_media_wf(self@.catalog, row);
        }
        self.medias.push(row);
        self.next_id = id + 1;
        self.summary.media_count = self.summary.media_count + 1;
        proof {
            assert(self@.catalog == old(self)@.catalog.with_media(row));
        }
        Ok(id)
    }

    /// Adds a file whose content the caller has hashed with `ingest` and,
    /// unless it was already there, copied into the store.
    ///
    /// A path that names no regular file is a `TypeMismatch` with the
    /// path, and nothing changes. Content that a row already holds is not
    /// added again: the source location is put on record and the error
    /// carries the id of that row. A file that lay at the stored path
    /// without any row is reported with its hash. A media item of the type
    /// `URL` is added as `add_url` adds the text of `source_path`.
    ///
    /// Where the library makes previews at adding, the result of a
    /// successful add names the preview to render as the last step; the
    /// add stands whatever becomes of that rendering.
    pub fn add_media(
        &mut self,
        file: AddedFile,
        kind: MediaType,
        sub_kind: Option<String>,
        kind_addition: Option<String>,
        caption: Option<String>,
        comment: Option<String>,
    ) -> (r: Result<AddedMedia, Error>)
        requires
            old(self).wf(),
        ensures
            final(self).wf(),
            r matches Ok(a) ==> step_view(a.preview) == final(self)@.preview_at_adding(a.id),
            kind == MediaType::URL ==> url_added(
                old(self)@,
                final(self)@,
                added_id(r),
                file.source_path,
                sub_kind,
                kind_addition,
                caption,
                comment,
                file.time_add,
            ),
            kind != MediaType::URL && !file.is_file ==> fails_with(
                r,
                not_a_file(file.source_path@),
            ) && final(self)@ == old(self)@,
            kind != MediaType::URL && file.is_file ==> match old(self)@.catalog.add_check(
                file.hash@,
                file.filesize,
                file.dest_exists,
            ) {
                Ok(id) => (r matches Ok(a) && a.id == id) && final(self)@ == (LibraryView {
                    catalog: old(self)@.catalog.with_media(
                        file_row(id, file, kind, sub_kind, kind_addition, caption, comment),
                    ).with_location(file_location(id, file)),
                    ..old(self)@
                }),
                Err(e) => fails_with(r, e) && final(self)@ == (LibraryView {
                    catalog: old(self)@.catalog.noting_duplicate(
                        file.hash@,
                        file_location(
                            old(self)@.catalog.medias[hash_index(
                                old(self)@.catalog.medias,
                                file.hash@,
                            )].id,
                            file,
                        ),
                    ),
                    ..old(self)@
                }),
            },
    {
        match kind {
            MediaType::URL => {
                let added = self.add_url(
                    file.source_path,
                    sub_kind,
                    kind_addition,
                    caption,
                    comment,
                    file.time_add,
                );
                return match added {
                    Ok(id) => {
                        proof {
                            let last = self.medias@.len() - 1;
                            lemma_media_at(self.medias@, self.next_id, self.hash_algo, last);
                        }
                        Ok(AddedMedia { id, preview: None })
                    },
                    Err(e) => Err(e),
                };
            },
            _ => {},
        }
        if !file.is_file {
            return Err(err_type_mismatch_expect_dir_found_file(file.source_path));
        }
        if !is_hash_text(&self.hash_algo, file.hash.as_str()) {
            return Err(err_bad_hash());
        }
        match find_hash(&self.medias, &file.hash) {
            Some(i) => {
                let id: u64 = self.medias[i].id;
                proof {
                    lemma_media_at(self.medias@, self.next_id, self.hash_algo, i as int);
                }
                if !find_location(&self.locations, id, &file.source_path) {
                    let location = LocationRef {
                        media_id: id,
                        path: file.source_path,
                        filename: file.source_stem,
                    };
                    proof {
                        lemma_with_location_wf(self@.catalog, location);
                    }
                    self.locations.push(location);
                }
                return Err(err_duplicate_content(id));
            },
            None => {},
        }
        if file.dest_exists {
            return Err(Error::AlreadyExists(file.hash));
        }
        if self.next_id == u64::MAX || self.summary.media_count == usize::MAX
            || self.summary.media_size > usize::MAX - file.filesize {
            return Err(err_library_full());
        }
        let id: u64 = self.next_id;
        let size: usize = file.filesize;
        let row = MediaRow {
            id,
            hash: file.hash,
            filename: file.filename,
            filesize: file.filesize,
            caption,
            time_add: file.time_add,
            kind,
            sub_kind,
            kind_addition,
            comment,
            detail: None,
        };
        let location = LocationRef {
            media_id: id,
            path: file.source_path,
            filename: file.source_stem,
        };
        proof {
            let c = self@.catalog;
            lemma_with_media_wf(c, row);
            lemma_has_media_push(c.medias, row, id);
            lemma_with_location_wf(c.with_media(row), location);
        }
        self.medias.push(row);
        self.next_id = id + 1;
        self.summary.media_count = self.summary.media_count + 1;
        self.summary.media_size = self.summary.media_size + size;
        self.locations.push(location);
        proof {
            assert(self@.catalog == old(self)@.catalog.with_media(row).with_location(location));
        }
        let preview = if self.features.contains(LibraryFeature::GenerateThumbnailAtAdding) {
            match self.get_thumbnail(id) {
                Ok(ThumbnailStep::Render { hash, filepath, width, height }) => Some(
                    ThumbnailStep::Render { hash, filepath, width, height },
                ),
                _ => None,
            }
        } else {
            None
        };
        Ok(AddedMedia { id, preview })
    }

    /// Removes the media item `id` with its memberships and source
    /// locations, and names the content file that the caller is to delete:
    /// none for a URL. An id that no row has is `NotExists`.
    pub fn remove_media(&mut self, id: u64) -> (r: Result<Option<String>, Error>)
        requires
            old(self).wf(),
        ensures
            final(self).wf(),
            has_media(old(self)@.catalog.medias, id) ==> (r matches Ok(p) && crate::library::opt_text(
                p,
            ) == old(self)@.file_of(
                old(self)@.catalog.medias[media_index(old(self)@.catalog.medias, id)],
            ) && final(self)@ == (LibraryView {
                catalog: old(self)@.catalog.without_media(id),
                ..old(self)@
            })),
            !has_media(old(self)@.catalog.medias, id) ==> fails_with(r, media_not_exists(id))
                && final(self)@ == old(self)@,
    {
        match find_media(&self.medias, id) {
            None => Err(err_media_not_exists(id)),
            Some(i) => {
                proof {
                    lemma_media_at(self.medias@, self.next_id, self.hash_algo, i as int);
                    lemma_without_media_wf(self@.catalog, id);
                    crate::library::media_model::lemma_total_size_remove(self.medias@, i as int);
                }
                let row = self.medias.remove(i);
                let series_refs = keep_series_refs(&self.series_refs, id);
                let tag_refs = keep_tag_refs(&self.tag_refs, id);
                let locations = keep_locations(&self.locations, id);
                self.series_refs = series_refs;
                self.tag_refs = tag_refs;
                self.locations = locations;
                self.summary.media_count = self.summary.media_count - 1;
                self.summary.media_size = self.summary.media_size - row.filesize;
                let path = match row.kind {
                    MediaType::URL => None,
                    _ => {
                        let ext = file_extension(row.filename.as_str());
                        Some(self.get_media_path_by_hash(row.hash.as_str(), ext.as_str()))
                    },
                };
                proof {
                    assert(self@.catalog == old(self)@.catalog.without_media(id));
                }
                Ok(path)
            },
        }
    }
}

} // verus!
