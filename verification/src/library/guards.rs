use vstd::prelude::*;
use crate::media::SeriesNo;
use crate::misc::error::fails_with;
use crate::misc::Error;
use crate::misc::HashAlgo;
use crate::misc::Uuid;
use super::messages::err_media_not_exists;
use super::messages::err_tag_not_exists;
use super::messages::media_not_exists;
use super::messages::tag_not_exists;
use super::model::has_caption;
use super::model::has_hash;
use super::model::has_location;
use super::model::has_media;
use super::model::has_set;
use super::model::has_thumbnail;
use super::model::hash_index;
use super::model::is_member;
use super::model::is_tagged;
use super::model::media_index;
use super::model::medias_wf;
use super::model::occupied;
use super::model::refs_compatible;
use super::model::set_index;
use super::model::caption_index;
use super::model::member_index;
use super::model::tagged_index;
use super::model::thumbnail_index;
use super::model::sets_wf;
use super::model::thumbnails_wf;
use super::Library;
use super::LocationRef;
use super::MediaRow;
use super::MediaSet;
use super::SeriesRef;
use super::TagRef;
use super::Thumbnail;

verus! {

/// In a well-formed table an id is found at one position only.
pub proof fn lemma_media_at(medias: Seq<MediaRow>, next_id: u64, algo: HashAlgo, i: int)
    requires
        medias_wf(medias, next_id, algo),
        0 <= i < medias.len(),
    ensures
        has_media(medias, medias[i].id),
        media_index(medias, medias[i].id) == i,
        has_hash(medias, medias[i].hash@),
        hash_index(medias, medias[i].hash@) == i,
{
    let j = media_index(medias, medias[i].id);
    assert(medias[j].id == medias[i].id);
    if j < i {
        assert(medias[j].id < medias[i].id);
    }
    if i < j {
        assert(medias[i].id < medias[j].id);
    }
    let k = hash_index(medias, medias[i].hash@);
    assert(medias[k].hash@ == medias[i].hash@);
    if k < i {
        assert(medias[k].hash@ != medias[i].hash@);
    }
    if i < k {
        assert(medias[i].hash@ != medias[k].hash@);
    }
}

/// In a well-formed table of sets an identifier and a caption are found at
/// one position only.
pub proof fn lemma_set_at(sets: Seq<MediaSet>, i: int)
    requires
        sets_wf(sets),
        0 <= i < sets.len(),
    ensures
        has_set(sets, sets[i].uuid),
        set_index(sets, sets[i].uuid) == i,
        has_caption(sets, sets[i].caption@),
        caption_index(sets, sets[i].caption@) == i,
{
    let j = set_index(sets, sets[i].uuid);
    assert(sets[j].uuid == sets[i].uuid);
    if j < i {
        assert(sets[j].uuid != sets[i].uuid);
    }
    if i < j {
        assert(sets[i].uuid != sets[j].uuid);
    }
    let k = caption_index(sets, sets[i].caption@);
    assert(sets[k].caption@ == sets[i].caption@);
    if k < i {
        assert(sets[k].caption@ != sets[i].caption@);
    }
    if i < k {
        assert(sets[i].caption@ != sets[k].caption@);
    }
}

/// Among compatible memberships a media item is found in a series at one
/// position only.
pub proof fn lemma_member_at(refs: Seq<SeriesRef>, i: int)
    requires
        forall|i: int, j: int|
            0 <= i < j < refs.len() ==> refs_compatible(#[trigger] refs[i], #[trigger] refs[j]),
        0 <= i < refs.len(),
    ensures
        is_member(refs, refs[i].media_id, refs[i].series_uuid),
        member_index(refs, refs[i].media_id, refs[i].series_uuid) == i,
{
    let j = member_index(refs, refs[i].media_id, refs[i].series_uuid);
    assert(refs[j].media_id == refs[i].media_id && refs[j].series_uuid == refs[i].series_uuid);
    if j < i {
        assert(refs_compatible(refs[j], refs[i]));
    }
    if i < j {
        assert(refs_compatible(refs[i], refs[j]));
    }
}

/// Among distinct tag memberships each is found at one position only.
pub proof fn lemma_tagged_at(refs: Seq<TagRef>, i: int)
    requires
        forall|i: int, j: int| 0 <= i < j < refs.len() ==> (#[trigger] refs[i]) != (#[trigger] refs[j]),
        0 <= i < refs.len(),
    ensures
        is_tagged(refs, refs[i].media_id, refs[i].tag_uuid),
        tagged_index(refs, refs[i].media_id, refs[i].tag_uuid) == i,
{
    let j = tagged_index(refs, refs[i].media_id, refs[i].tag_uuid);
    assert(refs[j].media_id == refs[i].media_id && refs[j].tag_uuid == refs[i].tag_uuid);
    if j < i {
        assert(refs[j] != refs[i]);
    }
    if i < j {
        assert(refs[i] != refs[j]);
    }
}

/// In a well-formed cache a hash is found at one position only.
pub proof fn lemma_thumbnail_at(thumbnails: Seq<Thumbnail>, i: int)
    requires
        thumbnails_wf(thumbnails),
        0 <= i < thumbnails.len(),
    ensures
        has_thumbnail(thumbnails, thumbnails[i].hash@),
        thumbnail_index(thumbnails, thumbnails[i].hash@) == i,
{
    let j = thumbnail_index(thumbnails, thumbnails[i].hash@);
    assert(thumbnails[j].hash@ == thumbnails[i].hash@);
    if j < i {
        assert(thumbnails[j].hash@ != thumbnails[i].hash@);
    }
    if i < j {
        assert(thumbnails[i].hash@ != thumbnails[j].hash@);
    }
}

pub(crate) fn find_media(medias: &Vec<MediaRow>, id: u64) -> (r: Option<usize>)
    ensures
        match r {
            Some(i) => i < medias@.len() && medias@[i as int].id == id && has_media(medias@, id),
            None => !has_media(medias@, id),
        },
{
    let n: usize = medias.len();
    let mut i: usize = 0;
    while i < n
        invariant
            n == medias@.len(),
            i <= n,
            forall|j: int| 0 <= j < i ==> (#[trigger] medias@[j]).id != id,
        decreases n - i,
    {
        if medias[i].id == id {
            return Some(i);
        }
        i += 1;
    }
    None
}

pub(crate) fn find_hash(medias: &Vec<MediaRow>, hash: &String) -> (r: Option<usize>)
    ensures
        match r {
            Some(i) => i < medias@.len() && medias@[i as int].hash@ == hash@ && has_hash(
                medias@,
                hash@,
            ),
            None => !has_hash(medias@, hash@),
        },
{
    let n: usize = medias.len();
    let mut i: usize = 0;
    while i < n
        invariant
            n == medias@.len(),
            i <= n,
            forall|j: int| 0 <= j < i ==> (#[trigger] medias@[j]).hash@ != hash@,
        decreases n - i,
    {
        if medias[i].hash == *hash {
            return Some(i);
        }
        i += 1;
    }
    None
}

pub(crate) fn find_set(sets: &Vec<MediaSet>, uuid: &Uuid) -> (r: Option<usize>)
    ensures
        match r {
            Some(i) => i < sets@.len() && sets@[i as int].uuid == *uuid && has_set(sets@, *uuid),
            None => !has_set(sets@, *uuid),
        },
{
    let n: usize = sets.len();
    let mut i: usize = 0;
    while i < n
        invariant
            n == sets@.len(),
            i <= n,
            forall|j: int| 0 <= j < i ==> (#[trigger] sets@[j]).uuid != *uuid,
        decreases n - i,
    {
        if sets[i].uuid == *uuid {
            return Some(i);
        }
        i += 1;
    }
    None
}

pub(crate) fn find_caption(sets: &Vec<MediaSet>, caption: &String) -> (r: Option<usize>)
    ensures
        match r {
            Some(i) => i < sets@.len() && sets@[i as int].caption@ == caption@ && has_caption(
                sets@,
                caption@,
            ),
            None => !has_caption(sets@, caption@),
        },
{
    let n: usize = sets.len();
    let mut i: usize = 0;
    while i < n
        invariant
            n == sets@.len(),
            i <= n,
            forall|j: int| 0 <= j < i ==> (#[trigger] sets@[j]).caption@ != caption@,
        decreases n - i,
    {
        if sets[i].caption == *caption {
            return Some(i);
        }
        i += 1;
    }
    None
}

pub(crate) fn find_member(refs: &Vec<SeriesRef>, id: u64, uuid: &Uuid) -> (r: Option<usize>)
    ensures
        match r {
            Some(i) => i < refs@.len() && refs@[i as int].media_id == id && refs@[i as int].series_uuid
                == *uuid && is_member(refs@, id, *uuid),
            None => !is_member(refs@, id, *uuid),
        },
{
    let n: usize = refs.len();
    let mut i: usize = 0;
    while i < n
        invariant
            n == refs@.len(),
            i <= n,
            forall|j: int|
                0 <= j < i ==> !((#[trigger] refs@[j]).media_id == id && refs@[j].series_uuid
                    == *uuid),
        decreases n - i,
    {
        if refs[i].media_id == id && refs[i].series_uuid == *uuid {
            return Some(i);
        }
        i += 1;
    }
    None
}

pub(crate) fn find_tagged(refs: &Vec<TagRef>, id: u64, uuid: &Uuid) -> (r: Option<usize>)
    ensures
        match r {
            Some(i) => i < refs@.len() && refs@[i as int].media_id == id && refs@[i as int].tag_uuid
                == *uuid && is_tagged(refs@, id, *uuid),
            None => !is_tagged(refs@, id, *uuid),
        },
{
    let n: usize = refs.len();
    let mut i: usize = 0;
    while i < n
        invariant
            n == refs@.len(),
            i <= n,
            forall|j: int|
                0 <= j < i ==> !((#[trigger] refs@[j]).media_id == id && refs@[j].tag_uuid == *uuid),
        decreases n - i,
    {
        if refs[i].media_id == id && refs[i].tag_uuid == *uuid {
            return Some(i);
        }
        i += 1;
    }
    None
}

pub(crate) fn find_location(locations: &Vec<LocationRef>, id: u64, path: &String) -> (r: bool)
    ensures
        r == has_location(locations@, id, path@),
{
    let n: usize = locations.len();
    let mut i: usize = 0;
    while i < n
        invariant
            n == locations@.len(),
            i <= n,
            forall|j: int|
                0 <= j < i ==> !((#[trigger] locations@[j]).media_id == id && locations@[j].path@
                    == path@),
        decreases n - i,
    {
        if locations[i].media_id == id && locations[i].path == *path {
            return true;
        }
        i += 1;
    }
    false
}

pub(crate) fn find_thumbnail(thumbnails: &Vec<Thumbnail>, hash: &String) -> (r: Option<usize>)
    ensures
        match r {
            Some(i) => i < thumbnails@.len() && thumbnails@[i as int].hash@ == hash@
                && has_thumbnail(thumbnails@, hash@),
            None => !has_thumbnail(thumbnails@, hash@),
        },
{
    let n: usize = thumbnails.len();
    let mut i: usize = 0;
    while i < n
        invariant
            n == thumbnails@.len(),
            i <= n,
            forall|j: int| 0 <= j < i ==> (#[trigger] thumbnails@[j]).hash@ != hash@,
        decreases n - i,
    {
        if thumbnails[i].hash == *hash {
            return Some(i);
        }
        i += 1;
    }
    None
}

pub(crate) fn holds_ordinal(r: &SeriesRef, no: u64) -> (b: bool)
    ensures
        b == (r.series_no == SeriesNo::Ordered(no)),
{
    match r.series_no {
        SeriesNo::Ordered(n) => n == no,
        SeriesNo::Unordered => false,
    }
}

pub(crate) fn is_occupied(refs: &Vec<SeriesRef>, id: u64, uuid: &Uuid, no: u64) -> (r: bool)
    ensures
        r == occupied(refs@, id, *uuid, no),
{
    let n: usize = refs.len();
    let mut i: usize = 0;
    while i < n
        invariant
            n == refs@.len(),
            i <= n,
            forall|j: int|
                0 <= j < i ==> !((#[trigger] refs@[j]).series_uuid == *uuid && refs@[j].media_id
                    != id && refs@[j].series_no == SeriesNo::Ordered(no)),
        decreases n - i,
    {
        if refs[i].series_uuid == *uuid && refs[i].media_id != id && holds_ordinal(&refs[i], no) {
            return true;
        }
        i += 1;
    }
    false
}

impl Library {
    /// Whether a tag with the identifier `tag_uuid` exists.
    pub fn is_tag_existed(&self, tag_uuid: &Uuid) -> (r: bool)
        ensures
            r == has_set(self@.catalog.tags, *tag_uuid),
    {
        find_set(&self.tags, tag_uuid).is_some()
    }

    /// Fails with `NotExists` unless the tag exists.
    pub fn tag_exist_guard(&self, tag_uuid: &Uuid) -> (r: Result<(), Error>)
        ensures
            has_set(self@.catalog.tags, *tag_uuid) ==> r is Ok,
            !has_set(self@.catalog.tags, *tag_uuid) ==> fails_with(r, tag_not_exists(*tag_uuid)),
    {
        if !self.is_tag_existed(tag_uuid) {
            Err(err_tag_not_exists(tag_uuid))
        } else {
            Ok(())
        }
    }

    /// Whether a media item with the id `id` exists.
    pub fn is_media_existed(&self, id: u64) -> (r: bool)
        ensures
            r == has_media(self@.catalog.medias, id),
    {
        find_media(&self.medias, id).is_some()
    }

    /// Fails with `NotExists` unless the media item exists.
    pub fn media_exist_guard(&self, id: u64) -> (r: Result<(), Error>)
        ensures
            has_media(self@.catalog.medias, id) ==> r is Ok,
            !has_media(self@.catalog.medias, id) ==> fails_with(r, media_not_exists(id)),
    {
        if !self.is_media_existed(id) {
            Err(err_media_not_exists(id))
        } else {
            Ok(())
        }
    }

    /// Whether a preview is stored for the content of the media item `id`.
    /// An id that no row has is not thumbnailed.
    pub fn is_thumbnailed(&self, id: u64) -> (r: bool)
        requires
            self.wf(),
        ensures
            r == (has_media(self@.catalog.medias, id) && has_thumbnail(
                self@.catalog.thumbnails,
                self@.catalog.medias[media_index(self@.catalog.medias, id)].hash@,
            )),
    {
        match find_media(&self.medias, id) {
            Some(i) => {
                proof {
                    lemma_media_at(self.medias@, self.next_id, self.hash_algo, i as int);
                }
                find_thumbnail(&self.thumbnails, &self.medias[i].hash).is_some()
            },
            None => false,
        }
    }
}

} // verus!
