use vstd::prelude::*;
use vstd::string::StringExecFns;
use crate::misc::error::fails_with;
use crate::misc::error::ErrorView;
use crate::misc::Error;
use crate::misc::Uuid;
use super::guards::find_caption;
use super::guards::find_media;
use super::guards::find_set;
use super::guards::find_tagged;
use super::guards::lemma_set_at;
use super::guards::lemma_tagged_at;
use super::messages::err_already_member;
use super::messages::err_library_full;
use super::messages::err_media_not_exists;
use super::messages::err_set_exists;
use super::messages::err_tag_caption_not_exists;
use super::messages::err_tag_not_exists;
use super::messages::tag_caption_not_exists;
use super::messages::tag_not_exists;
use super::model::caption_index;
use super::model::has_caption;
use super::model::has_set;
use super::model::tagged_count;
use super::seq_lemmas::lemma_filter_step;
use super::set_model::lemma_with_tag_ref_wf;
use super::set_model::lemma_with_tag_wf;
use super::set_model::lemma_without_tag_ref_wf;
use super::set_model::lemma_without_tag_wf;
use super::set_model::ref_of_other_tag;
use super::Library;
use super::LibraryView;
use super::MediaSet;
use super::TagRef;

verus! {

/// What `insert_tag` leaves behind and returns.
pub open spec fn tag_inserted(
    before: LibraryView,
    after: LibraryView,
    r: Result<(), Error>,
    set: MediaSet,
) -> bool {
    match before.catalog.insert_tag_check(set.uuid, set.caption@) {
        Ok(_) => r is Ok && after == (LibraryView { catalog: before.catalog.with_tag(set), ..before }),
        Err(e) => fails_with(r, e) && after == before,
    }
}

/// What `create_tag` leaves behind and returns. A caption that a tag has
/// gives that tag and changes nothing. Else the identifier is drawn at
/// random: either the tag stands in the catalog under the identifier
/// returned, or the draw hit an identifier in use or the table is full,
/// and nothing changed.
pub open spec fn tag_created(
    before: LibraryView,
    after: LibraryView,
    r: Result<Uuid, Error>,
    caption: String,
    comment: Option<String>,
) -> bool {
    if has_caption(before.catalog.tags, caption@) {
        after == before && r == Ok::<Uuid, Error>(
            before.catalog.tags[caption_index(before.catalog.tags, caption@)].uuid,
        )
    } else {
        match r {
            Ok(uuid) => tag_inserted(before, after, Ok(()), MediaSet { uuid, caption, comment }),
            Err(e) => after == before && exists|uuid: Uuid| #[trigger]
                before.catalog.insert_tag_check(uuid, caption@) == Err::<(), ErrorView>(e@),
        }
    }
}

/// What `delete_tag` leaves behind and returns.
pub open spec fn tag_deleted(
    before: LibraryView,
    after: LibraryView,
    r: Result<(), Error>,
    uuid: Uuid,
) -> bool {
    if has_set(before.catalog.tags, uuid) {
        r is Ok && after == (LibraryView { catalog: before.catalog.without_tag(uuid), ..before })
    } else {
        fails_with(r, tag_not_exists(uuid)) && after == before
    }
}

/// What `add_tag` leaves behind and returns.
pub open spec fn tag_added(
    before: LibraryView,
    after: LibraryView,
    r: Result<(), Error>,
    id: u64,
    uuid: Uuid,
) -> bool {
    match before.catalog.add_tag_check(id, uuid) {
        Ok(_) => r is Ok && after == (LibraryView {
            catalog: before.catalog.with_tag_ref(TagRef { media_id: id, tag_uuid: uuid }),
            ..before
        }),
        Err(e) => fails_with(r, e) && after == before,
    }
}

/// What `remove_tag` leaves behind and returns.
pub open spec fn tag_removed(
    before: LibraryView,
    after: LibraryView,
    r: Result<(), Error>,
    id: u64,
    uuid: Uuid,
) -> bool {
    match before.catalog.remove_tag_check(id, uuid) {
        Ok(_) => r is Ok && after == (LibraryView {
            catalog: before.catalog.without_tag_ref(id, uuid),
            ..before
        }),
        Err(e) => fails_with(r, e) && after == before,
    }
}

/// How many media items carry the tag `uuid`.
pub fn count_tagged(refs: &Vec<TagRef>, uuid: &Uuid) -> (c: usize)
    ensures
        c == tagged_count(refs@, *uuid),
{
    let n: usize = refs.len();
    let mut c: usize = 0;
    let mut i: usize = 0;
    while i < n
        invariant
            n == refs@.len(),
            i <= n,
            c <= i,
            c == tagged_count(refs@.take(i as int), *uuid),
        decreases n - i,
    {
        proof {
            assert(refs@.take(i + 1).drop_last() =~= refs@.take(i as int));
            assert(refs@.take(i + 1).last() == refs@[i as int]);
        }
        if refs[i].tag_uuid == *uuid {
            c += 1;
        }
        i += 1;
    }
    assert(refs@.take(n as int) =~= refs@);
    c
}

pub(crate) fn keep_other_tags(refs: &Vec<TagRef>, uuid: &Uuid) -> (r: Vec<TagRef>)
    ensures
        r@ == refs@.filter(ref_of_other_tag(*uuid)),
{
    let mut out: Vec<TagRef> = Vec::new();
    let n: usize = refs.len();
    let mut i: usize = 0;
    proof {
        reveal(Seq::filter);
        assert(refs@.take(0).filter(ref_of_other_tag(*uuid)) =~= Seq::<TagRef>::empty());
    }
    while i < n
        invariant
            n == refs@.len(),
            i <= n,
            out@ == refs@.take(i as int).filter(ref_of_other_tag(*uuid)),
        decreases n - i,
    {
        proof {
            lemma_filter_step(refs@, ref_of_other_tag(*uuid), i as int);
        }
        if refs[i].tag_uuid != *uuid {
            out.push(refs[i]);
        }
        i += 1;
    }
    assert(refs@.take(n as int) =~= refs@);
    out
}

impl Library {
    /// Adds a tag under the identifier `uuid`. A caption or an identifier
    /// that a tag already has is `AlreadyExists`.
    pub fn insert_tag(&mut self, uuid: Uuid, caption: String, comment: Option<String>) -> (r:
        Result<(), Error>)
        requires
            old(self).wf(),
        ensures
            final(self).wf(),
            tag_inserted(old(self)@, final(self)@, r, MediaSet { uuid, caption, comment }),
    {
        if find_caption(&self.tags, &caption).is_some() {
            return Err(err_set_exists(caption.as_str()));
        }
        if find_set(&self.tags, &uuid).is_some() {
            return Err(err_set_exists(uuid.to_string().as_str()));
        }
        if self.summary.tag_count == usize::MAX {
            return Err(err_library_full());
        }
        let set = MediaSet { uuid, caption, comment };
        proof {
            lemma_with_tag_wf(self@.catalog, set);
        }
        self.tags.push(set);
        self.summary.tag_count = self.summary.tag_count + 1;
        proof {
            assert(self@.catalog == old(self)@.catalog.with_tag(set));
        }
        Ok(())
    }

    /// Tags the media item `id` with `tag_uuid`. A tag or a media item
    /// that does not exist is `NotExists`; an item that already carries
    /// the tag is `AlreadyExists`.
    pub fn add_tag(&mut self, id: u64, tag_uuid: &Uuid) -> (r: Result<(), Error>)
        requires
            old(self).wf(),
        ensures
            final(self).wf(),
            tag_added(old(self)@, final(self)@, r, id, *tag_uuid),
    {
        if find_set(&self.tags, tag_uuid).is_none() {
            return Err(err_tag_not_exists(tag_uuid));
        }
        if find_media(&self.medias, id).is_none() {
            return Err(err_media_not_exists(id));
        }
        if find_tagged(&self.tag_refs, id, tag_uuid).is_some() {
            return Err(err_already_member(id, tag_uuid));
        }
        proof {
            lemma_with_tag_ref_wf(self@.catalog, id, *tag_uuid);
        }
        self.tag_refs.push(TagRef { media_id: id, tag_uuid: *tag_uuid });
        proof {
            assert(self@.catalog == old(self)@.catalog.with_tag_ref(
                TagRef { media_id: id, tag_uuid: *tag_uuid },
            ));
        }
        Ok(())
    }

    /// Takes the tag `tag_uuid` off the media item `id`. A tag or a media
    /// item that does not exist is `NotExists`; an item that does not
    /// carry the tag is left as it is.
    pub fn remove_tag(&mut self, id: u64, tag_uuid: &Uuid) -> (r: Result<(), Error>)
        requires
            old(self).wf(),
        ensures
            final(self).wf(),
            tag_removed(old(self)@, final(self)@, r, id, *tag_uuid),
    {
        if find_set(&self.tags, tag_uuid).is_none() {
            return Err(err_tag_not_exists(tag_uuid));
        }
        if find_media(&self.medias, id).is_none() {
            return Err(err_media_not_exists(id));
        }
        match find_tagged(&self.tag_refs, id, tag_uuid) {
            None => Ok(()),
            Some(i) => {
                proof {
                    lemma_tagged_at(self.tag_refs@, i as int);
                    lemma_without_tag_ref_wf(self@.catalog, id, *tag_uuid);
                }
                let _ = self.tag_refs.remove(i);
                proof {
                    assert(self@.catalog == old(self)@.catalog.without_tag_ref(id, *tag_uuid));
                }
                Ok(())
            },
        }
    }

    /// Gives the tag with the caption `caption`, creating it under a
    /// fresh random identifier where there is none.
    pub fn create_tag(&mut self, caption: String, comment: Option<String>) -> (r: Result<
        Uuid,
        Error,
    >)
        requires
            old(self).wf(),
        ensures
            final(self).wf(),
            tag_created(old(self)@, final(self)@, r, caption, comment),
    {
        match find_caption(&self.tags, &caption) {
            Some(i) => {
                proof {
                    lemma_set_at(self.tags@, i as int);
                }
                return Ok(self.tags[i].uuid);
            },
            None => {},
        }
        let uuid = Uuid::new_v4();
        match self.insert_tag(uuid, caption, comment) {
            Ok(_) => Ok(uuid),
            Err(e) => {
                proof {
                    assert(old(self)@.catalog.insert_tag_check(uuid, caption@) == Err::<
                        (),
                        ErrorView,
                    >(e@));
                }
                Err(e)
            },
        }
    }

    /// Deletes the tag `tag_uuid` and takes it off every media item.
    /// A tag that does not exist is `NotExists`.
    pub fn delete_tag(&mut self, tag_uuid: Uuid) -> (r: Result<(), Error>)
        requires
            old(self).wf(),
        ensures
            final(self).wf(),
            tag_deleted(old(self)@, final(self)@, r, tag_uuid),
    {
        match find_set(&self.tags, &tag_uuid) {
            None => Err(err_tag_not_exists(&tag_uuid)),
            Some(i) => {
                proof {
                    lemma_set_at(self.tags@, i as int);
                    lemma_without_tag_wf(self@.catalog, tag_uuid);
                }
                let _ = self.tags.remove(i);
                let refs = keep_other_tags(&self.tag_refs, &tag_uuid);
                self.tag_refs = refs;
                self.summary.tag_count = self.summary.tag_count - 1;
                proof {
                    assert(self@.catalog == old(self)@.catalog.without_tag(tag_uuid));
                }
                Ok(())
            },
        }
    }

    /// The tag with the caption `caption`; `NotExists` where there is none.
    pub fn get_tag_by_caption(&self, caption: &str) -> (r: Result<Uuid, Error>)
        requires
            self.wf(),
        ensures
            has_caption(self@.catalog.tags, caption@) ==> r == Ok::<Uuid, Error>(
                self@.catalog.tags[caption_index(self@.catalog.tags, caption@)].uuid,
            ),
            !has_caption(self@.catalog.tags, caption@) ==> fails_with(
                r,
                tag_caption_not_exists(caption@),
            ),
    {
        let key = String::from_str(caption);
        match find_caption(&self.tags, &key) {
            Some(i) => {
                proof {
                    lemma_set_at(self.tags@, i as int);
                }
                Ok(self.tags[i].uuid)
            },
            None => Err(err_tag_caption_not_exists(caption)),
        }
    }

    /// How many media items carry the tag `uuid`. A tag that does not
    /// exist is `NotExists`.
    pub fn tag_media_count(&self, uuid: &Uuid) -> (r: Result<usize, Error>)
        ensures
            has_set(self@.catalog.tags, *uuid) ==> (r matches Ok(n) && n == tagged_count(
                self@.catalog.tag_refs,
                *uuid,
            )),
            !has_set(self@.catalog.tags, *uuid) ==> fails_with(r, tag_not_exists(*uuid)),
    {
        if find_set(&self.tags, uuid).is_none() {
            return Err(err_tag_not_exists(uuid));
        }
        Ok(count_tagged(&self.tag_refs, uuid))
    }
}

} // verus!
