use vstd::prelude::*;
use crate::media::SeriesNo;
use crate::misc::error::ErrorView;
use crate::misc::uuid::uuid_text;
use crate::misc::Uuid;
use super::messages::already_member;
use super::messages::library_full;
use super::messages::media_not_exists;
use super::messages::not_in_series;
use super::messages::ordinal_occupied;
use super::messages::series_not_exists;
use super::messages::set_exists;
use super::messages::tag_not_exists;
use super::model::count_below;
use super::model::has_caption;
use super::model::has_media;
use super::model::has_set;
use super::model::is_member;
use super::model::is_tagged;
use super::model::max_ordinal;
use super::model::member_index;
use super::model::occupied;
use super::model::refs_compatible;
use super::model::set_index;
use super::model::sets_wf;
use super::model::tagged_index;
use super::seq_lemmas::lemma_filter_one;
use super::seq_lemmas::lemma_filter_two;
use super::Catalog;
use super::LibrarySummary;
use super::MediaSet;
use super::SeriesRef;
use super::TagRef;

verus! {

/// Holds of the memberships in every series but `uuid`.
pub open spec fn ref_of_other_series(uuid: Uuid) -> spec_fn(SeriesRef) -> bool {
    |r: SeriesRef| r.series_uuid != uuid
}

/// Holds of the memberships in every tag but `uuid`.
pub open spec fn ref_of_other_tag(uuid: Uuid) -> spec_fn(TagRef) -> bool {
    |r: TagRef| r.tag_uuid != uuid
}

/// Whether `r` is a member of the series `uuid` other than `id` that holds
/// an ordinal of `no` or above.
pub open spec fn shifts(r: SeriesRef, id: u64, uuid: Uuid, no: u64) -> bool {
    r.series_uuid == uuid && r.media_id != id && (r.series_no matches SeriesNo::Ordered(n) && n
        >= no)
}

/// Moves the members of the series `uuid` other than `id` that hold an
/// ordinal of `no` or above up by one.
pub open spec fn shift_ref(id: u64, uuid: Uuid, no: u64) -> spec_fn(SeriesRef) -> SeriesRef {
    |r: SeriesRef|
        if shifts(r, id, uuid, no) {
            SeriesRef { series_no: SeriesNo::Ordered((r.series_no->0 + 1) as u64), ..r }
        } else {
            r
        }
}

/// Gives each ordered member of the series `uuid` the ordinal that says
/// how many members stand at or before it: one more than the number of
/// members with a smaller ordinal.
pub open spec fn trim_ref(refs: Seq<SeriesRef>, uuid: Uuid) -> spec_fn(SeriesRef) -> SeriesRef {
    |r: SeriesRef|
        if r.series_uuid == uuid && r.series_no is Ordered {
            SeriesRef {
                series_no: SeriesNo::Ordered((count_below(refs, uuid, r.series_no->0) + 1) as u64),
                ..r
            }
        } else {
            r
        }
}

/// The membership table after the series `uuid` was renumbered.
pub open spec fn trimmed(refs: Seq<SeriesRef>, uuid: Uuid) -> Seq<SeriesRef> {
    refs.map_values(trim_ref(refs, uuid))
}

impl Catalog {
    /// Whether a series with the identifier `uuid` and the caption `caption`
    /// can be added, and why not.
    pub open spec fn insert_series_check(self, uuid: Uuid, caption: Seq<char>) -> Result<
        (),
        ErrorView,
    > {
        if has_caption(self.series, caption) {
            Err(set_exists(caption))
        } else if has_set(self.series, uuid) {
            Err(set_exists(uuid_text(uuid@)))
        } else if self.summary.series_count == usize::MAX {
            Err(library_full())
        } else {
            Ok(())
        }
    }

    /// Whether a tag with the identifier `uuid` and the caption `caption`
    /// can be added, and why not.
    pub open spec fn insert_tag_check(self, uuid: Uuid, caption: Seq<char>) -> Result<
        (),
        ErrorView,
    > {
        if has_caption(self.tags, caption) {
            Err(set_exists(caption))
        } else if has_set(self.tags, uuid) {
            Err(set_exists(uuid_text(uuid@)))
        } else if self.summary.tag_count == usize::MAX {
            Err(library_full())
        } else {
            Ok(())
        }
    }

    /// The catalog with one more series.
    pub open spec fn with_series(self, set: MediaSet) -> Catalog {
        Catalog {
            series: self.series.push(set),
            summary: LibrarySummary {
                series_count: (self.summary.series_count + 1) as usize,
                ..self.summary
            },
            ..self
        }
    }

    /// The catalog with one more tag.
    pub open spec fn with_tag(self, set: MediaSet) -> Catalog {
        Catalog {
            tags: self.tags.push(set),
            summary: LibrarySummary {
                tag_count: (self.summary.tag_count + 1) as usize,
                ..self.summary
            },
            ..self
        }
    }

    /// The catalog without the series `uuid` and without its memberships.
    pub open spec fn without_series(self, uuid: Uuid) -> Catalog {
        Catalog {
            series: self.series.remove(set_index(self.series, uuid)),
            series_refs: self.series_refs.filter(ref_of_other_series(uuid)),
            summary: LibrarySummary {
                series_count: (self.summary.series_count - 1) as usize,
                ..self.summary
            },
            ..self
        }
    }

    /// The catalog without the tag `uuid` and without its memberships.
    pub open spec fn without_tag(self, uuid: Uuid) -> Catalog {
        Catalog {
            tags: self.tags.remove(set_index(self.tags, uuid)),
            tag_refs: self.tag_refs.filter(ref_of_other_tag(uuid)),
            summary: LibrarySummary {
                tag_count: (self.summary.tag_count - 1) as usize,
                ..self.summary
            },
            ..self
        }
    }

    /// The position that the media item `id` gets in the series `uuid`, or
    /// why it cannot join. An ordinal that another member holds is refused
    /// before anything else is looked at.
    pub open spec fn add_to_series_check(
        self,
        id: u64,
        uuid: Uuid,
        no: Option<u64>,
        unsorted: bool,
    ) -> Result<SeriesNo, ErrorView> {
        if no is Some && occupied(self.series_refs, id, uuid, no->0) {
            Err(ordinal_occupied(id, uuid, no->0))
        } else if !has_set(self.series, uuid) {
            Err(series_not_exists(uuid))
        } else if !has_media(self.medias, id) {
            Err(media_not_exists(id))
        } else if is_member(self.series_refs, id, uuid) {
            Err(already_member(id, uuid))
        } else {
            match no {
                Some(n) => Ok(SeriesNo::Ordered(n)),
                None => if unsorted {
                    Ok(SeriesNo::Unordered)
                } else if max_ordinal(self.series_refs, uuid) >= u64::MAX {
                    Err(library_full())
                } else {
                    Ok(SeriesNo::Ordered((max_ordinal(self.series_refs, uuid) + 1) as u64))
                },
            }
        }
    }

    /// The catalog with one more series membership.
    pub open spec fn with_series_ref(self, r: SeriesRef) -> Catalog {
        Catalog { series_refs: self.series_refs.push(r), ..self }
    }

    /// The catalog without the membership of `id` in the series `uuid`.
    pub open spec fn without_series_ref(self, id: u64, uuid: Uuid) -> Catalog {
        Catalog {
            series_refs: self.series_refs.remove(member_index(self.series_refs, id, uuid)),
            ..self
        }
    }

    /// Whether the media item `id` can be tagged with `uuid`, and why not.
    pub open spec fn add_tag_check(self, id: u64, uuid: Uuid) -> Result<(), ErrorView> {
        if !has_set(self.tags, uuid) {
            Err(tag_not_exists(uuid))
        } else if !has_media(self.medias, id) {
            Err(media_not_exists(id))
        } else if is_tagged(self.tag_refs, id, uuid) {
            Err(already_member(id, uuid))
        } else {
            Ok(())
        }
    }

    /// Whether the tag `uuid` can be taken off the media item `id`, and why
    /// not. An item that does not carry the tag is no error.
    pub open spec fn remove_tag_check(self, id: u64, uuid: Uuid) -> Result<(), ErrorView> {
        if !has_set(self.tags, uuid) {
            Err(tag_not_exists(uuid))
        } else if !has_media(self.medias, id) {
            Err(media_not_exists(id))
        } else {
            Ok(())
        }
    }

    /// The catalog with one more tag membership.
    pub open spec fn with_tag_ref(self, r: TagRef) -> Catalog {
        Catalog { tag_refs: self.tag_refs.push(r), ..self }
    }

    /// The catalog without the tag `uuid` on the media item `id`.
    pub open spec fn without_tag_ref(self, id: u64, uuid: Uuid) -> Catalog {
        if is_tagged(self.tag_refs, id, uuid) {
            Catalog { tag_refs: self.tag_refs.remove(tagged_index(self.tag_refs, id, uuid)), ..self }
        } else {
            self
        }
    }

    /// Whether the member `id` of the series `uuid` can move to the
    /// ordinal `no`: `Ok(true)` where other members have to make room
    /// first, `Ok(false)` where the ordinal is free.
    pub open spec fn update_no_check(self, id: u64, uuid: Uuid, no: u64, insert: bool) -> Result<
        bool,
        ErrorView,
    > {
        if !is_member(self.series_refs, id, uuid) {
            Err(not_in_series(id, uuid))
        } else if occupied(self.series_refs, id, uuid, no) {
            if !insert {
                Err(ordinal_occupied(id, uuid, no))
            } else if occupied(self.series_refs, id, uuid, u64::MAX) {
                Err(library_full())
            } else {
                Ok(true)
            }
        } else {
            Ok(false)
        }
    }

    /// The catalog after the member `id` of the series `uuid` was placed at
    /// the ordinal `no`; with `shift`, after every other member at `no` or
    /// above was moved up by one first.
    pub open spec fn with_series_no(self, id: u64, uuid: Uuid, no: u64, shift: bool) -> Catalog {
        let moved = if shift {
            self.series_refs.map_values(shift_ref(id, uuid, no))
        } else {
            self.series_refs
        };
        let i = member_index(self.series_refs, id, uuid);
        Catalog {
            series_refs: moved.update(
                i,
                SeriesRef { series_no: SeriesNo::Ordered(no), ..self.series_refs[i] },
            ),
            ..self
        }
    }

    /// The catalog after the series `uuid` was renumbered.
    pub open spec fn with_trimmed(self, uuid: Uuid) -> Catalog {
        Catalog { series_refs: trimmed(self.series_refs, uuid), ..self }
    }
}

/// A set that is in a table is still there after another is appended, and
/// so is the appended one.
pub proof fn lemma_has_set_push(sets: Seq<MediaSet>, set: MediaSet, uuid: Uuid)
    ensures
        has_set(sets, uuid) ==> has_set(sets.push(set), uuid),
        has_set(sets.push(set), set.uuid),
{
    if has_set(sets, uuid) {
        let i = set_index(sets, uuid);
        assert(sets.push(set)[i].uuid == uuid);
    }
    assert(sets.push(set)[sets.len() as int].uuid == set.uuid);
}

/// A set other than the removed one is still in the table.
pub proof fn lemma_has_set_remove(sets: Seq<MediaSet>, i: int, uuid: Uuid)
    requires
        0 <= i < sets.len(),
        has_set(sets, uuid),
        sets[i].uuid != uuid,
    ensures
        has_set(sets.remove(i), uuid),
{
    let k = set_index(sets, uuid);
    if k < i {
        assert(sets.remove(i)[k].uuid == uuid);
    } else {
        assert(sets.remove(i)[k - 1].uuid == uuid);
    }
}

/// No member of a series holds an ordinal above the largest.
pub proof fn lemma_max_ordinal_bound(refs: Seq<SeriesRef>, uuid: Uuid, i: int)
    requires
        0 <= i < refs.len(),
        refs[i].series_uuid == uuid,
        refs[i].series_no is Ordered,
    ensures
        refs[i].series_no->0 <= max_ordinal(refs, uuid) <= u64::MAX,
    decreases refs.len(),
{
    lemma_max_ordinal_range(refs, uuid);
    if i < refs.len() - 1 {
        lemma_max_ordinal_bound(refs.drop_last(), uuid, i);
    }
}

/// The largest ordinal of a series is an ordinal.
pub proof fn lemma_max_ordinal_range(refs: Seq<SeriesRef>, uuid: Uuid)
    ensures
        max_ordinal(refs, uuid) <= u64::MAX,
    decreases refs.len(),
{
    if refs.len() > 0 {
        lemma_max_ordinal_range(refs.drop_last(), uuid);
    }
}

/// Where a series holds an ordinal, its largest ordinal is held by one of
/// its members.
pub proof fn law_largest_ordinal_is_held(refs: Seq<SeriesRef>, uuid: Uuid)
    requires
        max_ordinal(refs, uuid) > 0,
    ensures
        exists|i: int|
            0 <= i < refs.len() && (#[trigger] refs[i]).series_uuid == uuid && refs[i].series_no
                == SeriesNo::Ordered(max_ordinal(refs, uuid) as u64),
    decreases refs.len(),
{
    lemma_max_ordinal_range(refs, uuid);
    if refs.len() > 0 {
        let init = refs.drop_last();
        if max_ordinal(refs, uuid) == max_ordinal(init, uuid) {
            law_largest_ordinal_is_held(init, uuid);
            let i = choose|i: int|
                0 <= i < init.len() && (#[trigger] init[i]).series_uuid == uuid && init[i].series_no
                    == SeriesNo::Ordered(max_ordinal(init, uuid) as u64);
            assert(refs[i] == init[i]);
        } else {
            assert(refs[refs.len() - 1].series_uuid == uuid);
        }
    }
}

/// The ordinal after the largest is free.
pub proof fn lemma_next_ordinal_free(refs: Seq<SeriesRef>, id: u64, uuid: Uuid)
    requires
        max_ordinal(refs, uuid) < u64::MAX,
    ensures
        !occupied(refs, id, uuid, (max_ordinal(refs, uuid) + 1) as u64),
{
    let no = (max_ordinal(refs, uuid) + 1) as u64;
    if occupied(refs, id, uuid, no) {
        let i = choose|i: int|
            0 <= i < refs.len() && (#[trigger] refs[i]).series_uuid == uuid && refs[i].media_id
                != id && refs[i].series_no == SeriesNo::Ordered(no);
        lemma_max_ordinal_bound(refs, uuid, i);
    }
}

/// Adding a series with a new identifier and a new caption keeps the
/// invariant.
pub proof fn lemma_with_series_wf(c: Catalog, set: MediaSet)
    requires
        c.wf(),
        c.insert_series_check(set.uuid, set.caption@) is Ok,
    ensures
        c.with_series(set).wf(),
{
    let d = c.with_series(set);
    assert(sets_wf(d.series));
    assert forall|i: int| 0 <= i < d.series_refs.len() implies has_media(
        d.medias,
        (#[trigger] d.series_refs[i]).media_id,
    ) && has_set(d.series, d.series_refs[i].series_uuid) by {
        lemma_has_set_push(c.series, set, d.series_refs[i].series_uuid);
    }
}

/// Adding a tag with a new identifier and a new caption keeps the
/// invariant.
pub proof fn lemma_with_tag_wf(c: Catalog, set: MediaSet)
    requires
        c.wf(),
        c.insert_tag_check(set.uuid, set.caption@) is Ok,
    ensures
        c.with_tag(set).wf(),
{
    let d = c.with_tag(set);
    assert(sets_wf(d.tags));
    assert forall|i: int| 0 <= i < d.tag_refs.len() implies has_media(
        d.medias,
        (#[trigger] d.tag_refs[i]).media_id,
    ) && has_set(d.tags, d.tag_refs[i].tag_uuid) by {
        lemma_has_set_push(c.tags, set, d.tag_refs[i].tag_uuid);
    }
}

/// Deleting a series with its memberships keeps the invariant.
pub proof fn lemma_without_series_wf(c: Catalog, uuid: Uuid)
    requires
        c.wf(),
        has_set(c.series, uuid),
    ensures
        c.without_series(uuid).wf(),
{
    let d = c.without_series(uuid);
    let i = set_index(c.series, uuid);
    assert(sets_wf(d.series));
    let p = ref_of_other_series(uuid);
    assert forall|k: int| 0 <= k < d.series_refs.len() implies has_media(
        d.medias,
        (#[trigger] d.series_refs[k]).media_id,
    ) && has_set(d.series, d.series_refs[k].series_uuid) by {
        lemma_filter_one(c.series_refs, p, k);
        let j = choose|j: int|
            0 <= j < c.series_refs.len() && #[trigger] c.series_refs[j] == d.series_refs[k] && p(
                c.series_refs[j],
            );
        lemma_has_set_remove(c.series, i, c.series_refs[j].series_uuid);
    }
    assert forall|k: int, l: int| 0 <= k < l < d.series_refs.len() implies refs_compatible(
        #[trigger] d.series_refs[k],
        #[trigger] d.series_refs[l],
    ) by {
        lemma_filter_two(c.series_refs, p, k, l);
    }
}

/// Deleting a tag with its memberships keeps the invariant.
pub proof fn lemma_without_tag_wf(c: Catalog, uuid: Uuid)
    requires
        c.wf(),
        has_set(c.tags, uuid),
    ensures
        c.without_tag(uuid).wf(),
{
    let d = c.without_tag(uuid);
    let i = set_index(c.tags, uuid);
    assert(sets_wf(d.tags));
    let p = ref_of_other_tag(uuid);
    assert forall|k: int| 0 <= k < d.tag_refs.len() implies has_media(
        d.medias,
        (#[trigger] d.tag_refs[k]).media_id,
    ) && has_set(d.tags, d.tag_refs[k].tag_uuid) by {
        lemma_filter_one(c.tag_refs, p, k);
        let j = choose|j: int|
            0 <= j < c.tag_refs.len() && #[trigger] c.tag_refs[j] == d.tag_refs[k] && p(
                c.tag_refs[j],
            );
        lemma_has_set_remove(c.tags, i, c.tag_refs[j].tag_uuid);
    }
    assert forall|k: int, l: int| 0 <= k < l < d.tag_refs.len() implies (#[trigger] d.tag_refs[k])
        != (#[trigger] d.tag_refs[l]) by {
        lemma_filter_two(c.tag_refs, p, k, l);
    }
}

/// Letting a media item join a series at the position that
/// `add_to_series_check` allows keeps the invariant.
pub proof fn lemma_with_series_ref_wf(c: Catalog, id: u64, uuid: Uuid, no: Option<u64>, unsorted: bool)
    requires
        c.wf(),
        c.add_to_series_check(id, uuid, no, unsorted) is Ok,
    ensures
        c.with_series_ref(
            SeriesRef {
                media_id: id,
                series_uuid: uuid,
                series_no: c.add_to_series_check(id, uuid, no, unsorted)->Ok_0,
            },
        ).wf(),
{
    let r = SeriesRef {
        media_id: id,
        series_uuid: uuid,
        series_no: c.add_to_series_check(id, uuid, no, unsorted)->Ok_0,
    };
    let d = c.with_series_ref(r);
    if no is None && !unsorted {
        lemma_next_ordinal_free(c.series_refs, id, uuid);
    }
    assert forall|k: int, l: int| 0 <= k < l < d.series_refs.len() implies refs_compatible(
        #[trigger] d.series_refs[k],
        #[trigger] d.series_refs[l],
    ) by {
        if l == c.series_refs.len() {
            let a = c.series_refs[k];
            assert(d.series_refs[k] == a);
            if a.series_uuid == uuid {
                assert(a.media_id != id);
            }
        }
    }
}

/// Taking a media item out of a series keeps the invariant.
pub proof fn lemma_without_series_ref_wf(c: Catalog, id: u64, uuid: Uuid)
    requires
        c.wf(),
        is_member(c.series_refs, id, uuid),
    ensures
        c.without_series_ref(id, uuid).wf(),
{
    let d = c.without_series_ref(id, uuid);
    let i = member_index(c.series_refs, id, uuid);
    assert forall|k: int, l: int| 0 <= k < l < d.series_refs.len() implies refs_compatible(
        #[trigger] d.series_refs[k],
        #[trigger] d.series_refs[l],
    ) by {
        let k2 = if k < i { k } else { k + 1 };
        let l2 = if l < i { l } else { l + 1 };
        assert(refs_compatible(c.series_refs[k2], c.series_refs[l2]));
    }
}

/// Tagging a media item that does not carry the tag keeps the invariant.
pub proof fn lemma_with_tag_ref_wf(c: Catalog, id: u64, uuid: Uuid)
    requires
        c.wf(),
        c.add_tag_check(id, uuid) is Ok,
    ensures
        c.with_tag_ref(TagRef { media_id: id, tag_uuid: uuid }).wf(),
{
}

/// Taking a tag off a media item keeps the invariant.
pub proof fn lemma_without_tag_ref_wf(c: Catalog, id: u64, uuid: Uuid)
    requires
        c.wf(),
    ensures
        c.without_tag_ref(id, uuid).wf(),
{
    if is_tagged(c.tag_refs, id, uuid) {
        let d = c.without_tag_ref(id, uuid);
        let i = tagged_index(c.tag_refs, id, uuid);
        assert forall|k: int, l: int| 0 <= k < l < d.tag_refs.len() implies (
        #[trigger] d.tag_refs[k]) != (#[trigger] d.tag_refs[l]) by {
            let k2 = if k < i { k } else { k + 1 };
            let l2 = if l < i { l } else { l + 1 };
            assert(c.tag_refs[k2] != c.tag_refs[l2]);
        }
    }
}

} // verus!
