use vstd::prelude::*;
use crate::media::detail::detail_view;
use crate::media::detail::duplicate_detail;
use crate::media::Media;
use crate::media::MediaType;
use crate::misc::error::fails_with;
use crate::misc::error::ErrorView;
use crate::misc::tools::file_extension;
use crate::misc::Error;
use super::guards::find_hash;
use super::guards::find_media;
use super::guards::lemma_media_at;
use super::lib_ops::clone_opt;
use super::media_model::lemma_total_size_remove;
use super::media_model::lemma_total_size_update;
use super::messages::err_hash_not_exists;
use super::messages::err_library_full;
use super::messages::err_media_not_exists;
use super::messages::hash_not_exists;
use super::messages::library_full;
use super::messages::media_not_exists;
use super::model::has_hash;
use super::model::has_media;
use super::model::has_set;
use super::model::hash_index;
use super::model::media_index;
use super::model::medias_wf;
use super::Catalog;
use super::Library;
use super::LibrarySummary;
use super::LibraryView;
use super::MediaRow;

verus! {

/// What the caller is to do with content files after an update.
#[derive(Debug)]
pub enum FileAction {
    /// Nothing.
    Keep,
    /// Delete the file at this path.
    Remove(String),
    /// Move the file at the first path to the second.
    Rename(String, String),
}

/// What a file action says.
pub enum FileActionView {
    Keep,
    Remove(Seq<char>),
    Rename(Seq<char>, Seq<char>),
}

impl View for FileAction {
    type V = FileActionView;

    open spec fn view(&self) -> FileActionView {
        match self {
            FileAction::Keep => FileActionView::Keep,
            FileAction::Remove(p) => FileActionView::Remove(p@),
            FileAction::Rename(a, b) => FileActionView::Rename(a@, b@),
        }
    }
}

/// The detail payload of an updated row: the one that `media` brings, or
/// the row's own where `media` brings none.
pub open spec fn updated_detail(row: MediaRow, media: Media, new_row: MediaRow) -> bool {
    detail_view(new_row.detail) == if media.detail is Some {
        detail_view(media.detail)
    } else {
        detail_view(row.detail)
    }
}

/// Whether `new_row` is `row` with the fields of `media` written over it.
pub open spec fn is_patched(row: MediaRow, media: Media, new_row: MediaRow) -> bool {
    &&& new_row == (MediaRow {
        id: row.id,
        hash: row.hash,
        filename: media.filename,
        filesize: media.filesize,
        caption: media.caption,
        time_add: row.time_add,
        kind: media.kind,
        sub_kind: media.sub_kind,
        kind_addition: media.kind_addition,
        comment: media.comment,
        detail: new_row.detail,
    })
    &&& updated_detail(row, media, new_row)
}

/// Whether `new_row` is `row` after it took over the content of `target`:
/// the hash, the file name and the size of `target`, the descriptive
/// fields of `media`, and its own id and time.
pub open spec fn is_merged(row: MediaRow, target: MediaRow, media: Media, new_row: MediaRow) -> bool {
    &&& new_row == (MediaRow {
        id: row.id,
        hash: target.hash,
        filename: target.filename,
        filesize: target.filesize,
        caption: media.caption,
        time_add: row.time_add,
        kind: media.kind,
        sub_kind: media.sub_kind,
        kind_addition: media.kind_addition,
        comment: media.comment,
        detail: new_row.detail,
    })
    &&& updated_detail(row, media, new_row)
}

/// What is to be done with the content file of a patched row: it moves
/// where its path changed, unless the row is or was a URL.
pub open spec fn patch_action(
    old_kind: MediaType,
    old_path: Seq<char>,
    new_kind: MediaType,
    new_path: Seq<char>,
) -> FileActionView {
    if old_kind != MediaType::URL && new_kind != MediaType::URL && old_path != new_path {
        FileActionView::Rename(old_path, new_path)
    } else {
        FileActionView::Keep
    }
}

/// What is to be done with the content file that a merged row gives up.
pub open spec fn merge_action(old_kind: MediaType, old_path: Seq<char>) -> FileActionView {
    if old_kind != MediaType::URL {
        FileActionView::Remove(old_path)
    } else {
        FileActionView::Keep
    }
}

impl Catalog {
    /// Whether the row of `media` can be updated: `Ok(true)` where the
    /// hash of `media` differs from the row's and the row is to take over
    /// the content of the row that owns that hash, `Ok(false)` where the
    /// fields are patched in place.
    pub open spec fn update_check(self, media: Media) -> Result<bool, ErrorView> {
        if !has_media(self.medias, media.id) {
            Err(media_not_exists(media.id))
        } else {
            let row = self.medias[media_index(self.medias, media.id)];
            if row.hash@ != media.hash@ {
                if !has_hash(self.medias, media.hash@) {
                    Err(hash_not_exists(media.hash@))
                } else {
                    Ok(true)
                }
            } else if self.summary.media_size - row.filesize + media.filesize > usize::MAX {
                Err(library_full())
            } else {
                Ok(false)
            }
        }
    }

    /// The catalog with `row` in the place of the row at the position `i`
    /// and the size counter adjusted.
    pub open spec fn with_row(self, i: int, row: MediaRow) -> Catalog {
        Catalog {
            medias: self.medias.update(i, row),
            summary: LibrarySummary {
                media_size: (self.summary.media_size - self.medias[i].filesize + row.filesize) as usize,
                ..self.summary
            },
            ..self
        }
    }
}

/// A row's size is part of the total.
pub proof fn lemma_total_size_covers(medias: Seq<MediaRow>, i: int)
    requires
        0 <= i < medias.len(),
    ensures
        medias[i].filesize <= super::model::total_size(medias),
{
    lemma_total_size_remove(medias, i);
}

/// Replacing a row by one with the same id keeps the invariant, where the
/// new hash is well formed and no other row's, and the size counter fits.
pub proof fn lemma_with_row_wf(c: Catalog, i: int, row: MediaRow)
    requires
        c.wf(),
        0 <= i < c.medias.len(),
        row.id == c.medias[i].id,
        c.algo.is_hash(row.hash@),
        forall|j: int| 0 <= j < c.medias.len() && j != i ==> (#[trigger] c.medias[j]).hash@
            != row.hash@,
        c.summary.media_size - c.medias[i].filesize + row.filesize <= usize::MAX,
    ensures
        c.with_row(i, row).wf(),
{
    let d = c.with_row(i, row);
    lemma_total_size_update(c.medias, i, row);
    lemma_total_size_covers(c.medias, i);
    assert(medias_wf(d.medias, d.next_id, d.algo)) by {
        assert forall|a: int, b: int| 0 <= a < b < d.medias.len() implies (#[trigger] d.medias[a]).id
            < (#[trigger] d.medias[b]).id by {
            assert(c.medias[a].id < c.medias[b].id);
        }
        assert forall|a: int, b: int| 0 <= a < b < d.medias.len() implies (
        #[trigger] d.medias[a]).hash@ != (#[trigger] d.medias[b]).hash@ by {
            assert(c.medias[a].hash@ != c.medias[b].hash@);
        }
    }
    assert forall|id: u64| has_media(c.medias, id) implies has_media(d.medias, id) by {
        let k = media_index(c.medias, id);
        assert(d.medias[k].id == id);
    }
    assert forall|k: int| 0 <= k < d.series_refs.len() implies has_media(
        d.medias,
        (#[trigger] d.series_refs[k]).media_id,
    ) && has_set(d.series, d.series_refs[k].series_uuid) by {
        assert(has_media(c.medias, c.series_refs[k].media_id));
    }
    assert forall|k: int| 0 <= k < d.tag_refs.len() implies has_media(
        d.medias,
        (#[trigger] d.tag_refs[k]).media_id,
    ) && has_set(d.tags, d.tag_refs[k].tag_uuid) by {
        assert(has_media(c.medias, c.tag_refs[k].media_id));
    }
    assert forall|k: int| 0 <= k < d.locations.len() implies has_media(
        d.medias,
        (#[trigger] d.locations[k]).media_id,
    ) by {
        assert(has_media(c.medias, c.locations[k].media_id));
    }
}

/// What `update_media` leaves behind and returns.
pub open spec fn media_updated(
    before: LibraryView,
    after: LibraryView,
    given: Media,
    left: Media,
    r: Result<FileAction, Error>,
) -> bool {
    match before.catalog.update_check(given) {
        Err(e) => fails_with(r, e) && after == before && left == given,
        Ok(false) => {
            let i = media_index(before.catalog.medias, given.id);
            let row = before.catalog.medias[i];
            let new_row = after.catalog.medias[i];
            &&& is_patched(row, given, new_row)
            &&& after == (LibraryView { catalog: before.catalog.with_row(i, new_row), ..before })
            &&& left == (Media { filepath: left.filepath, ..given })
            &&& left.filepath@ == after.path_of(new_row)
            &&& r matches Ok(a) && a@ == patch_action(
                row.kind,
                before.path_of(row),
                new_row.kind,
                after.path_of(new_row),
            )
        },
        Ok(true) => {
            let row = before.catalog.medias[media_index(before.catalog.medias, given.id)];
            let target = before.catalog.medias[hash_index(before.catalog.medias, given.hash@)];
            let rest = before.catalog.without_media(target.id);
            let i = media_index(rest.medias, given.id);
            let new_row = after.catalog.medias[i];
            &&& is_merged(row, target, given, new_row)
            &&& after == (LibraryView { catalog: rest.with_row(i, new_row), ..before })
            &&& left == (Media {
                filename: target.filename,
                filesize: target.filesize,
                filepath: left.filepath,
                ..given
            })
            &&& left.filepath@ == after.path_of(new_row)
            &&& r matches Ok(a) && a@ == merge_action(row.kind, before.path_of(row))
        },
    }
}

impl Library {
    fn row_path(&self, i: usize) -> (r: String)
        requires
            self.wf(),
            i < self.medias@.len(),
        ensures
            r@ == self@.path_of(self.medias@[i as int]),
    {
        let ext = file_extension(self.medias[i].filename.as_str());
        self.get_media_path_by_hash(self.medias[i].hash.as_str(), ext.as_str())
    }

    /// Writes the fields of `media` into its row.
    ///
    /// Where the hash of `media` is the row's, the file name, size,
    /// caption, type, subtype, type addition and comment are patched in
    /// place, and so is the detail payload where `media` brings one. The
    /// content file is to be moved where the new file name gives it
    /// another path.
    ///
    /// Where the hash differs, the row takes over the content of the row
    /// that owns that hash: its hash, file name and size. That other row is
    /// removed with its memberships and source locations, the file that
    /// the row had until now is to be deleted, and `media` is brought up
    /// to date. A hash that no row owns is `NotExists`.
    ///
    /// A failure changes nothing.
    pub fn update_media(&mut self, media: &mut Media) -> (r: Result<FileAction, Error>)
        requires
            old(self).wf(),
        ensures
            final(self).wf(),
            media_updated(old(self)@, final(self)@, *old(media), *final(media), r),
    {
        let id: u64 = media.id;
        let i: usize = match find_media(&self.medias, id) {
            Some(i) => i,
            None => {
                return Err(err_media_not_exists(id));
            },
        };
        proof {
            lemma_media_at(self.medias@, self.next_id, self.hash_algo, i as int);
            lemma_total_size_covers(self.medias@, i as int);
        }
        let old_path = self.row_path(i);
        let old_kind = self.medias[i].kind;
        let old_size: usize = self.medias[i].filesize;
        let time_add: i64 = self.medias[i].time_add;
        if self.medias[i].hash != media.hash {
            let j: usize = match find_hash(&self.medias, &media.hash) {
                Some(j) => j,
                None => {
                    return Err(err_hash_not_exists(media.hash.as_str()));
                },
            };
            proof {
                lemma_media_at(self.medias@, self.next_id, self.hash_algo, j as int);
            }
            let target_id: u64 = self.medias[j].id;
            let target_hash = self.medias[j].hash.clone();
            let target_name = self.medias[j].filename.clone();
            let target_size: usize = self.medias[j].filesize;
            let detail = match &media.detail {
                Some(_) => duplicate_detail(&media.detail),
                None => duplicate_detail(&self.medias[i].detail),
            };
            let ghost before = self@;
            let ghost row = self.medias@[i as int];
            let _ = self.remove_media(target_id);
            let ghost rest = self@.catalog;
            assert(rest == before.catalog.without_media(target_id));
            let k: usize = match find_media(&self.medias, id) {
                Some(k) => k,
                None => {
                    proof {
                        let at = if i < j {
                            i as int
                        } else {
                            i - 1
                        };
                        assert(rest.medias[at].id == id);
                    }
                    return Err(err_media_not_exists(id));
                },
            };
            proof {
                lemma_media_at(self.medias@, self.next_id, self.hash_algo, k as int);
                lemma_total_size_covers(self.medias@, k as int);
                let at = if i < j {
                    i as int
                } else {
                    i - 1
                };
                assert(rest.medias[at] == row);
                lemma_media_at(rest.medias, rest.next_id, rest.algo, at);
                assert(k == at);
                lemma_total_size_remove(before.catalog.medias, j as int);
            }
            let new_row = MediaRow {
                id,
                hash: target_hash,
                filename: target_name,
                filesize: target_size,
                caption: clone_opt(&media.caption),
                time_add,
                kind: media.kind,
                sub_kind: clone_opt(&media.sub_kind),
                kind_addition: clone_opt(&media.kind_addition),
                comment: clone_opt(&media.comment),
                detail,
            };
            proof {
                assert forall|x: int| 0 <= x < rest.medias.len() && x != k implies (
                #[trigger] rest.medias[x]).hash@ != new_row.hash@ by {
                    let y = if x < j {
                        x
                    } else {
                        x + 1
                    };
                    assert(before.catalog.medias[y] == rest.medias[x]);
                    assert(before.catalog.medias[y].hash@ != before.catalog.medias[j as int].hash@);
                }
                lemma_with_row_wf(rest, k as int, new_row);
            }
            self.summary.media_size = self.summary.media_size - old_size + target_size;
            self.medias[k] = new_row;
            media.filename = self.medias[k].filename.clone();
            media.filesize = target_size;
            media.filepath = self.row_path(k);
            proof {
                assert(self@.catalog == rest.with_row(k as int, new_row));
            }
            match old_kind {
                MediaType::URL => Ok(FileAction::Keep),
                _ => Ok(FileAction::Remove(old_path)),
            }
        } else {
            if self.summary.media_size - old_size > usize::MAX - media.filesize {
                return Err(err_library_full());
            }
            let detail = match &media.detail {
                Some(_) => duplicate_detail(&media.detail),
                None => duplicate_detail(&self.medias[i].detail),
            };
            let new_row = MediaRow {
                id,
                hash: self.medias[i].hash.clone(),
                filename: media.filename.clone(),
                filesize: media.filesize,
                caption: clone_opt(&media.caption),
                time_add,
                kind: media.kind,
                sub_kind: clone_opt(&media.sub_kind),
                kind_addition: clone_opt(&media.kind_addition),
                comment: clone_opt(&media.comment),
                detail,
            };
            proof {
                lemma_with_row_wf(self@.catalog, i as int, new_row);
            }
            self.summary.media_size = self.summary.media_size - old_size + media.filesize;
            self.medias[i] = new_row;
            let new_path = self.row_path(i);
            media.filepath = new_path.clone();
            proof {
                assert(self@.catalog == old(self)@.catalog.with_row(i as int, new_row));
            }
            let moved = match old_kind {
                MediaType::URL => false,
                _ => match media.kind {
                    MediaType::URL => false,
                    _ => old_path != new_path,
                },
            };
            if moved {
                Ok(FileAction::Rename(old_path, new_path))
            } else {
                Ok(FileAction::Keep)
            }
        }
    }
}

} // verus!
