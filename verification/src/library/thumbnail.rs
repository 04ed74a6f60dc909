use vstd::prelude::*;
use vstd::string::StringExecFns;
use crate::media::MediaType;
use crate::misc::config::THUMBNAIL_SIZE;
use crate::misc::error::fails_with;
use crate::misc::error::ErrorView;
use crate::misc::tools::concat2;
use crate::misc::tools::file_extension;
use crate::misc::Error;
use super::guards::find_hash;
use super::guards::find_media;
use super::guards::find_thumbnail;
use super::guards::lemma_media_at;
use super::guards::lemma_thumbnail_at;
use super::messages::err_media_not_exists;
use super::messages::media_not_exists;
use super::model::has_hash;
use super::model::has_media;
use super::model::has_thumbnail;
use super::model::hash_index;
use super::model::media_index;
use super::model::thumbnail_index;
use super::Catalog;
use super::Library;
use super::LibraryView;
use super::Thumbnail;

verus! {

/// What is to be done for a preview: hand out the stored bytes, or render
/// the content file within the given bounds and store the outcome under
/// the content hash.
#[derive(Debug)]
pub enum ThumbnailStep {
    Ready(Vec<u8>),
    Render { hash: String, filepath: String, width: u32, height: u32 },
}

/// What a step says.
pub enum ThumbnailStepView {
    Ready(Seq<u8>),
    Render { hash: Seq<char>, filepath: Seq<char>, width: u32, height: u32 },
}

impl View for ThumbnailStep {
    type V = ThumbnailStepView;

    open spec fn view(&self) -> ThumbnailStepView {
        match self {
            ThumbnailStep::Ready(b) => ThumbnailStepView::Ready(b@),
            ThumbnailStep::Render { hash, filepath, width, height } => ThumbnailStepView::Render {
                hash: hash@,
                filepath: filepath@,
                width: *width,
                height: *height,
            },
        }
    }
}

/// The error for a content hash that no media item has.
pub open spec fn no_media_with_hash(hash: Seq<char>) -> ErrorView {
    ErrorView::NotExists("Media with hash "@ + hash)
}

/// The error for a content hash without a stored preview.
pub open spec fn no_thumbnail_for(hash: Seq<char>) -> ErrorView {
    ErrorView::NotExists("Thumbnail of "@ + hash)
}

/// The error for a write that does not fit the reserved preview.
pub open spec fn blob_out_of_range() -> ErrorView {
    ErrorView::Other("Thumbnail write out of range."@)
}

/// `n` zero bytes.
pub open spec fn zeros(n: nat) -> Seq<u8> {
    Seq::new(n, |i: int| 0u8)
}

/// `blob` with `data` written over it from the position `offset` on.
pub open spec fn overwritten(blob: Seq<u8>, offset: int, data: Seq<u8>) -> Seq<u8> {
    Seq::new(
        blob.len(),
        |i: int|
            if offset <= i < offset + data.len() {
                data[i - offset]
            } else {
                blob[i]
            },
    )
}

impl LibraryView {
    /// What a request for the preview of the media item `id` comes to:
    /// the stored bytes where the content has a preview; else, for an
    /// image, the order to render one; for any other type `NoThumbnail`.
    pub open spec fn thumbnail_step(self, id: u64) -> Result<ThumbnailStepView, ErrorView> {
        if !has_media(self.catalog.medias, id) {
            Err(media_not_exists(id))
        } else {
            let row = self.catalog.medias[media_index(self.catalog.medias, id)];
            if has_thumbnail(self.catalog.thumbnails, row.hash@) {
                Ok(
                    ThumbnailStepView::Ready(
                        self.catalog.thumbnails[thumbnail_index(
                            self.catalog.thumbnails,
                            row.hash@,
                        )].image@,
                    ),
                )
            } else if row.kind != MediaType::Image {
                Err(ErrorView::NoThumbnail)
            } else {
                Ok(
                    ThumbnailStepView::Render {
                        hash: row.hash@,
                        filepath: self.path_of(row),
                        width: THUMBNAIL_SIZE.0,
                        height: THUMBNAIL_SIZE.1,
                    },
                )
            }
        }
    }
}

impl Catalog {
    /// Whether a rendered preview of the content `hash` is taken in, and
    /// whether it is stored: `Ok(true)` where it is stored, `Ok(false)`
    /// where the content already has a preview and the rendered one is
    /// only handed back.
    pub open spec fn store_check(self, hash: Seq<char>, rendered: Seq<u8>) -> Result<
        bool,
        ErrorView,
    > {
        if !has_hash(self.medias, hash) {
            Err(no_media_with_hash(hash))
        } else if self.medias[hash_index(self.medias, hash)].kind != MediaType::Image {
            Err(ErrorView::NoThumbnail)
        } else if rendered.len() == 0 {
            Err(ErrorView::NoThumbnail)
        } else {
            Ok(!has_thumbnail(self.thumbnails, hash))
        }
    }

    /// The generation counter after one more rendering; it stops at the
    /// largest number.
    pub open spec fn counted(self) -> u64 {
        if self.generated < u64::MAX {
            (self.generated + 1) as u64
        } else {
            self.generated
        }
    }

    /// The catalog after one more rendering, with the preview `t` stored
    /// where `store` is set.
    pub open spec fn with_rendering(self, t: Thumbnail, store: bool) -> Catalog {
        Catalog {
            thumbnails: if store {
                self.thumbnails.push(t)
            } else {
                self.thumbnails
            },
            generated: self.counted(),
            ..self
        }
    }
}

/// Storing a preview for content that has none keeps the invariant.
pub proof fn lemma_with_rendering_wf(c: Catalog, t: Thumbnail, store: bool)
    requires
        c.wf(),
        store ==> !has_thumbnail(c.thumbnails, t.hash@) && 0 < t.size == t.image@.len(),
    ensures
        c.with_rendering(t, store).wf(),
{
}

/// A blob of `n` zero bytes.
pub fn zero_blob(n: usize) -> (r: Vec<u8>)
    ensures
        r@ == zeros(n as nat),
{
    let mut out: Vec<u8> = Vec::new();
    let mut i: usize = 0;
    while i < n
        invariant
            i <= n,
            out@ == zeros(i as nat),
        decreases n - i,
    {
        out.push(0u8);
        assert(out@ =~= zeros((i + 1) as nat));
        i += 1;
    }
    out
}

/// Writes `data` into `blob` from the position `offset` on and returns how
/// many bytes were written. The blob keeps its length.
pub fn write_blob(blob: &mut Vec<u8>, offset: usize, data: &[u8]) -> (written: usize)
    requires
        offset + data@.len() <= old(blob)@.len(),
    ensures
        written == data@.len(),
        final(blob)@ == overwritten(old(blob)@, offset as int, data@),
{
    let n: usize = data.len();
    let total: usize = blob.len();
    let mut i: usize = 0;
    assert(blob@ =~= overwritten(blob@, offset as int, data@.take(0)));
    while i < n
        invariant
            n == data@.len(),
            i <= n,
            total == old(blob)@.len(),
            offset + n <= total,
            blob@ == overwritten(old(blob)@, offset as int, data@.take(i as int)),
        decreases n - i,
    {
        blob[offset + i] = data[i];
        assert(blob@ =~= overwritten(old(blob)@, offset as int, data@.take(i + 1)));
        i += 1;
    }
    assert(data@.take(n as int) =~= data@);
    n
}

/// A copy of `bytes`.
pub fn copy_bytes(bytes: &Vec<u8>) -> (r: Vec<u8>)
    ensures
        r@ == bytes@,
{
    let mut out: Vec<u8> = Vec::new();
    let n: usize = bytes.len();
    let mut i: usize = 0;
    while i < n
        invariant
            n == bytes@.len(),
            i <= n,
            out@ == bytes@.take(i as int),
        decreases n - i,
    {
        out.push(bytes[i]);
        assert(out@ =~= bytes@.take(i + 1));
        i += 1;
    }
    assert(bytes@.take(n as int) =~= bytes@);
    out
}

impl Library {
    /// Whether a preview is stored for the content hash `hash`.
    pub fn is_cached(&self, hash: &str) -> (r: bool)
        ensures
            r == has_thumbnail(self@.catalog.thumbnails, hash@),
    {
        let key = String::from_str(hash);
        find_thumbnail(&self.thumbnails, &key).is_some()
    }

    /// How often a preview has been rendered for this library.
    pub fn generated_thumbnails(&self) -> (r: u64)
        ensures
            r == self@.catalog.generated,
    {
        self.generated
    }

    /// The stored preview of the content `hash`; `NotExists` where there
    /// is none.
    pub fn get_thumbnail_no_check(&self, hash: &str) -> (r: Result<Vec<u8>, Error>)
        requires
            self.wf(),
        ensures
            has_thumbnail(self@.catalog.thumbnails, hash@) ==> (r matches Ok(b) && b@
                == self@.catalog.thumbnails[thumbnail_index(
                self@.catalog.thumbnails,
                hash@,
            )].image@),
            !has_thumbnail(self@.catalog.thumbnails, hash@) ==> fails_with(
                r,
                no_thumbnail_for(hash@),
            ),
    {
        let key = String::from_str(hash);
        match find_thumbnail(&self.thumbnails, &key) {
            Some(i) => {
                proof {
                    lemma_thumbnail_at(self.thumbnails@, i as int);
                }
                Ok(copy_bytes(&self.thumbnails[i].image))
            },
            None => Err(Error::NotExists(concat2("Thumbnail of ", hash))),
        }
    }

    /// Says what is to be done for the preview of the media item `id`.
    /// Nothing is rendered for content that has a preview.
    pub fn get_thumbnail(&self, id: u64) -> (r: Result<ThumbnailStep, Error>)
        requires
            self.wf(),
        ensures
            match self@.thumbnail_step(id) {
                Ok(step) => r matches Ok(s) && s@ == step,
                Err(e) => fails_with(r, e),
            },
    {
        let i: usize = match find_media(&self.medias, id) {
            Some(i) => i,
            None => {
                return Err(err_media_not_exists(id));
            },
        };
        proof {
            lemma_media_at(self.medias@, self.next_id, self.hash_algo, i as int);
        }
        let row = &self.medias[i];
        match find_thumbnail(&self.thumbnails, &row.hash) {
            Some(k) => {
                proof {
                    lemma_thumbnail_at(self.thumbnails@, k as int);
                }
                Ok(ThumbnailStep::Ready(copy_bytes(&self.thumbnails[k].image)))
            },
            None => {
                match row.kind {
                    MediaType::Image => {
                        let ext = file_extension(row.filename.as_str());
                        Ok(
                            ThumbnailStep::Render {
                                hash: row.hash.clone(),
                                filepath: self.get_media_path_by_hash(
                                    row.hash.as_str(),
                                    ext.as_str(),
                                ),
                                width: THUMBNAIL_SIZE.0,
                                height: THUMBNAIL_SIZE.1,
                            },
                        )
                    },
                    _ => Err(Error::NoThumbnail),
                }
            },
        }
    }

    /// The same as `get_thumbnail`: a preview is made where there is none.
    pub fn make_thumbnail(&self, id: u64) -> (r: Result<ThumbnailStep, Error>)
        requires
            self.wf(),
        ensures
            match self@.thumbnail_step(id) {
                Ok(step) => r matches Ok(s) && s@ == step,
                Err(e) => fails_with(r, e),
            },
    {
        self.get_thumbnail(id)
    }

    /// Takes in the preview `rendered` of the content `hash` and hands it
    /// back. It is stored in two steps: a blob of zero bytes of the final
    /// length is reserved under the hash, then the bytes are written into
    /// it, so that the stored length never differs from the declared one.
    ///
    /// A hash that no media item has is `NotExists`; content that is no
    /// image, or an empty preview, is `NoThumbnail`. Where the content
    /// already has a preview, the stored one stays and the rendered one is
    /// handed back. Every rendering taken in is counted.
    pub fn make_thumbnail_no_check(&mut self, hash: &str, rendered: Vec<u8>) -> (r: Result<
        Vec<u8>,
        Error,
    >)
        requires
            old(self).wf(),
        ensures
            final(self).wf(),
            match old(self)@.catalog.store_check(hash@, rendered@) {
                Ok(store) => r == Ok::<Vec<u8>, Error>(rendered) && final(self)@.catalog.generated
                    == old(self)@.catalog.counted() && (if store {
                    &&& final(self)@.catalog.thumbnails.len() == old(
                        self,
                    )@.catalog.thumbnails.len() + 1
                    &&& final(self)@.catalog.thumbnails.last().hash@ == hash@
                    &&& final(self)@.catalog.thumbnails.last().image@ == rendered@
                    &&& final(self)@ == (LibraryView {
                        catalog: old(self)@.catalog.with_rendering(
                            final(self)@.catalog.thumbnails.last(),
                            true,
                        ),
                        ..old(self)@
                    })
                } else {
                    final(self)@ == (LibraryView {
                        catalog: Catalog {
                            generated: old(self)@.catalog.counted(),
                            ..old(self)@.catalog
                        },
                        ..old(self)@
                    })
                }),
                Err(e) => fails_with(r, e) && final(self)@ == old(self)@,
            },
    {
        let key = String::from_str(hash);
        let i: usize = match find_hash(&self.medias, &key) {
            Some(i) => i,
            None => {
                return Err(Error::NotExists(concat2("Media with hash ", hash)));
            },
        };
        proof {
            lemma_media_at(self.medias@, self.next_id, self.hash_algo, i as int);
        }
        match self.medias[i].kind {
            MediaType::Image => {},
            _ => {
                return Err(Error::NoThumbnail);
            },
        }
        let size: usize = rendered.len();
        if size == 0 {
            return Err(Error::NoThumbnail);
        }
        if self.generated < u64::MAX {
            self.generated = self.generated + 1;
        }
        if find_thumbnail(&self.thumbnails, &key).is_some() {
            return Ok(rendered);
        }
        let reserved = Thumbnail { hash: key, image: zero_blob(size), size };
        proof {
            lemma_with_rendering_wf(old(self)@.catalog, reserved, true);
        }
        self.thumbnails.push(reserved);
        let row: usize = self.thumbnails.len() - 1;
        let _ = write_blob(&mut self.thumbnails[row].image, 0, rendered.as_slice());
        proof {
            let t = self.thumbnails@.last();
            assert(t.image@ =~= rendered@);
            assert(self.thumbnails@ =~= old(self).thumbnails@.push(t));
            lemma_with_rendering_wf(old(self)@.catalog, t, true);
            assert(self@.catalog == old(self)@.catalog.with_rendering(t, true));
        }
        Ok(rendered)
    }
}

} // verus!
