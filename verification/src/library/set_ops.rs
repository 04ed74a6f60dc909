use vstd::prelude::*;
use crate::misc::Error;
use crate::misc::Uuid;
use super::model::caption_index;
use super::model::has_caption;
use super::series_ops::added_to_series;
use super::series_ops::removed_from_series;
use super::series_ops::series_created;
use super::series_ops::series_deleted;
use super::tag_ops::tag_added;
use super::tag_ops::tag_created;
use super::tag_ops::tag_deleted;
use super::tag_ops::tag_removed;
use super::Library;
use super::MediaSetType;

verus! {

impl Library {
    /// Creates a set of the kind `kind`: a series as `create_series` does,
    /// a tag as `create_tag` does.
    pub fn create_set(&mut self, kind: MediaSetType, caption: String, comment: Option<String>) -> (r:
        Result<Uuid, Error>)
        requires
            old(self).wf(),
        ensures
            final(self).wf(),
            kind == MediaSetType::Series ==> series_created(
                old(self)@,
                final(self)@,
                r,
                caption,
                comment,
            ),
            kind == MediaSetType::Tag ==> tag_created(old(self)@, final(self)@, r, caption, comment),
    {
        match kind {
            MediaSetType::Series => self.create_series(caption, comment),
            MediaSetType::Tag => self.create_tag(caption, comment),
        }
    }

    /// Deletes the set `uuid` of the kind `kind` with its memberships.
    pub fn delete_set(&mut self, kind: MediaSetType, uuid: &Uuid) -> (r: Result<(), Error>)
        requires
            old(self).wf(),
        ensures
            final(self).wf(),
            kind == MediaSetType::Series ==> series_deleted(old(self)@, final(self)@, r, *uuid),
            kind == MediaSetType::Tag ==> tag_deleted(old(self)@, final(self)@, r, *uuid),
    {
        match kind {
            MediaSetType::Series => self.delete_series(uuid),
            MediaSetType::Tag => self.delete_tag(*uuid),
        }
    }

    /// The series and the tag that have the caption `caption`, each if
    /// there is one.
    pub fn get_set_by_name(&self, caption: String) -> (r: Result<
        (Option<Uuid>, Option<Uuid>),
        Error,
    >)
        requires
            self.wf(),
        ensures
            r matches Ok(found) && found.0 == (if has_caption(self@.catalog.series, caption@) {
                Some(
                    self@.catalog.series[caption_index(self@.catalog.series, caption@)].uuid,
                )
            } else {
                None
            }) && found.1 == (if has_caption(self@.catalog.tags, caption@) {
                Some(self@.catalog.tags[caption_index(self@.catalog.tags, caption@)].uuid)
            } else {
                None
            }),
    {
        self.get_series_by_name(caption)
    }

    /// Lets the media item `id` join the set `uuid`: a series as
    /// `add_to_series` does, a tag as `add_tag` does, where `no` and
    /// `unsorted` play no part.
    pub fn add_to_set(
        &mut self,
        kind: MediaSetType,
        id: u64,
        uuid: &Uuid,
        no: Option<u64>,
        unsorted: bool,
    ) -> (r: Result<(), Error>)
        requires
            old(self).wf(),
        ensures
            final(self).wf(),
            kind == MediaSetType::Series ==> added_to_series(
                old(self)@,
                final(self)@,
                r,
                id,
                *uuid,
                no,
                unsorted,
            ),
            kind == MediaSetType::Tag ==> tag_added(old(self)@, final(self)@, r, id, *uuid),
    {
        match kind {
            MediaSetType::Series => self.add_to_series(id, uuid, no, unsorted),
            MediaSetType::Tag => self.add_tag(id, uuid),
        }
    }

    /// Takes the media item `id` out of the set `uuid`: out of a series as
    /// `remove_from_series` does, out of a tag as `remove_tag` does.
    pub fn remove_from_set(&mut self, kind: MediaSetType, id: u64, uuid: &Uuid) -> (r: Result<
        (),
        Error,
    >)
        requires
            old(self).wf(),
        ensures
            final(self).wf(),
            kind == MediaSetType::Series ==> removed_from_series(
                old(self)@,
                final(self)@,
                r,
                id,
                *uuid,
            ),
            kind == MediaSetType::Tag ==> tag_removed(old(self)@, final(self)@, r, id, *uuid),
    {
        match kind {
            MediaSetType::Series => self.remove_from_series(id, uuid),
            MediaSetType::Tag => self.remove_tag(id, uuid),
        }
    }
}

} // verus!
