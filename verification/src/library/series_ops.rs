use vstd::prelude::*;
use crate::media::SeriesNo;
use crate::misc::error::fails_with;
use crate::misc::error::ErrorView;
use crate::misc::Error;
use crate::misc::Uuid;
use super::guards::find_caption;
use super::guards::find_media;
use super::guards::find_member;
use super::guards::find_set;
use super::guards::is_occupied;
use super::guards::lemma_member_at;
use super::guards::lemma_set_at;
use super::messages::err_already_member;
use super::messages::err_library_full;
use super::messages::err_media_not_exists;
use super::messages::err_not_in_series;
use super::messages::err_ordinal_occupied;
use super::messages::err_series_not_exists;
use super::messages::err_set_exists;
use super::messages::not_in_series;
use super::messages::series_not_exists;
use super::model::caption_index;
use super::model::count_below;
use super::model::has_caption;
use super::model::has_set;
use super::model::is_member;
use super::model::max_ordinal;
use super::model::member_count;
use super::order_model::lemma_count_below_member;
use super::order_model::lemma_with_series_no_wf;
use super::order_model::lemma_with_trimmed_wf;
use super::seq_lemmas::lemma_filter_step;
use super::set_model::lemma_with_series_ref_wf;
use super::set_model::lemma_with_series_wf;
use super::set_model::lemma_without_series_ref_wf;
use super::set_model::lemma_without_series_wf;
use super::set_model::ref_of_other_series;
use super::set_model::shift_ref;
use super::set_model::trim_ref;
use super::set_model::trimmed;
use super::Library;
use super::LibraryView;
use super::MediaSet;
use super::SeriesRef;

verus! {

/// What `insert_series` leaves behind and returns.
pub open spec fn series_inserted(
    before: LibraryView,
    after: LibraryView,
    r: Result<(), Error>,
    set: MediaSet,
) -> bool {
    match before.catalog.insert_series_check(set.uuid, set.caption@) {
        Ok(_) => r is Ok && after == (LibraryView {
            catalog: before.catalog.with_series(set),
            ..before
        }),
        Err(e) => fails_with(r, e) && after == before,
    }
}

/// What `create_series` leaves behind and returns. The identifier is
/// drawn at random: where the caption is free, either the series stands
/// in the catalog under the identifier returned, or the draw hit an
/// identifier in use or the table is full, and nothing changed.
pub open spec fn series_created(
    before: LibraryView,
    after: LibraryView,
    r: Result<Uuid, Error>,
    caption: String,
    comment: Option<String>,
) -> bool {
    match r {
        Ok(uuid) => series_inserted(before, after, Ok(()), MediaSet { uuid, caption, comment }),
        Err(e) => after == before && exists|uuid: Uuid| #[trigger]
            before.catalog.insert_series_check(uuid, caption@) == Err::<(), ErrorView>(e@),
    }
}

/// What `delete_series` leaves behind and returns.
pub open spec fn series_deleted(
    before: LibraryView,
    after: LibraryView,
    r: Result<(), Error>,
    uuid: Uuid,
) -> bool {
    if has_set(before.catalog.series, uuid) {
        r is Ok && after == (LibraryView { catalog: before.catalog.without_series(uuid), ..before })
    } else {
        fails_with(r, series_not_exists(uuid)) && after == before
    }
}

/// What `add_to_series` leaves behind and returns.
pub open spec fn added_to_series(
    before: LibraryView,
    after: LibraryView,
    r: Result<(), Error>,
    id: u64,
    uuid: Uuid,
    no: Option<u64>,
    unsorted: bool,
) -> bool {
    match before.catalog.add_to_series_check(id, uuid, no, unsorted) {
        Ok(series_no) => r is Ok && after == (LibraryView {
            catalog: before.catalog.with_series_ref(
                SeriesRef { media_id: id, series_uuid: uuid, series_no },
            ),
            ..before
        }),
        Err(e) => fails_with(r, e) && after == before,
    }
}

/// What `remove_from_series` leaves behind and returns.
pub open spec fn removed_from_series(
    before: LibraryView,
    after: LibraryView,
    r: Result<(), Error>,
    id: u64,
    uuid: Uuid,
) -> bool {
    if is_member(before.catalog.series_refs, id, uuid) {
        r is Ok && after == (LibraryView {
            catalog: before.catalog.without_series_ref(id, uuid),
            ..before
        })
    } else {
        fails_with(r, not_in_series(id, uuid)) && after == before
    }
}

/// Holds of the memberships in the series `uuid`.
pub open spec fn ref_of_series(uuid: Uuid) -> spec_fn(SeriesRef) -> bool {
    |r: SeriesRef| r.series_uuid == uuid
}

/// The largest ordinal held in the series `uuid`, or 0.
pub fn max_no(refs: &Vec<SeriesRef>, uuid: &Uuid) -> (m: u64)
    ensures
        m == max_ordinal(refs@, *uuid),
{
    let n: usize = refs.len();
    let mut m: u64 = 0;
    let mut i: usize = 0;
    while i < n
        invariant
            n == refs@.len(),
            i <= n,
            m == max_ordinal(refs@.take(i as int), *uuid),
        decreases n - i,
    {
        proof {
            assert(refs@.take(i + 1).drop_last() =~= refs@.take(i as int));
            assert(refs@.take(i + 1).last() == refs@[i as int]);
        }
        if refs[i].series_uuid == *uuid {
            match refs[i].series_no {
                SeriesNo::Ordered(k) => {
                    if k > m {
                        m = k;
                    }
                },
                SeriesNo::Unordered => {},
            }
        }
        i += 1;
    }
    assert(refs@.take(n as int) =~= refs@);
    m
}

/// How many members of the series `uuid` hold an ordinal below `no`.
pub fn count_no_below(refs: &Vec<SeriesRef>, uuid: &Uuid, no: u64) -> (c: usize)
    ensures
        c == count_below(refs@, *uuid, no),
{
    let n: usize = refs.len();
    let mut c: usize = 0;
    let mut i: usize = 0;
    while i < n
        invariant
            n == refs@.len(),
            i <= n,
            c <= i,
            c == count_below(refs@.take(i as int), *uuid, no),
        decreases n - i,
    {
        proof {
            assert(refs@.take(i + 1).drop_last() =~= refs@.take(i as int));
            assert(refs@.take(i + 1).last() == refs@[i as int]);
        }
        if refs[i].series_uuid == *uuid {
            match refs[i].series_no {
                SeriesNo::Ordered(k) => {
                    if k < no {
                        c += 1;
                    }
                },
                SeriesNo::Unordered => {},
            }
        }
        i += 1;
    }
    assert(refs@.take(n as int) =~= refs@);
    c
}

/// How many members the series `uuid` has.
pub fn count_members(refs: &Vec<SeriesRef>, uuid: &Uuid) -> (c: usize)
    ensures
        c == member_count(refs@, *uuid),
{
    let n: usize = refs.len();
    let mut c: usize = 0;
    let mut i: usize = 0;
    while i < n
        invariant
            n == refs@.len(),
            i <= n,
            c <= i,
            c == member_count(refs@.take(i as int), *uuid),
        decreases n - i,
    {
        proof {
            assert(refs@.take(i + 1).drop_last() =~= refs@.take(i as int));
            assert(refs@.take(i + 1).last() == refs@[i as int]);
        }
        if refs[i].series_uuid == *uuid {
            c += 1;
        }
        i += 1;
    }
    assert(refs@.take(n as int) =~= refs@);
    c
}

pub(crate) fn keep_other_series(refs: &Vec<SeriesRef>, uuid: &Uuid) -> (r: Vec<SeriesRef>)
    ensures
        r@ == refs@.filter(ref_of_other_series(*uuid)),
{
    let mut out: Vec<SeriesRef> = Vec::new();
    let n: usize = refs.len();
    let mut i: usize = 0;
    proof {
        reveal(Seq::filter);
        assert(refs@.take(0).filter(ref_of_other_series(*uuid)) =~= Seq::<SeriesRef>::empty());
    }
    while i < n
        invariant
            n == refs@.len(),
            i <= n,
            out@ == refs@.take(i as int).filter(ref_of_other_series(*uuid)),
        decreases n - i,
    {
        proof {
            lemma_filter_step(refs@, ref_of_other_series(*uuid), i as int);
        }
        if refs[i].series_uuid != *uuid {
            out.push(refs[i]);
        }
        i += 1;
    }
    assert(refs@.take(n as int) =~= refs@);
    out
}

fn shift_refs(refs: &Vec<SeriesRef>, id: u64, uuid: &Uuid, no: u64) -> (r: Vec<SeriesRef>)
    requires
        !super::model::occupied(refs@, id, *uuid, u64::MAX),
    ensures
        r@ == refs@.map_values(shift_ref(id, *uuid, no)),
{
    let mut out: Vec<SeriesRef> = Vec::new();
    let n: usize = refs.len();
    let mut i: usize = 0;
    while i < n
        invariant
            n == refs@.len(),
            i <= n,
            out@.len() == i,
            !super::model::occupied(refs@, id, *uuid, u64::MAX),
            forall|j: int| 0 <= j < i ==> #[trigger] out@[j] == shift_ref(id, *uuid, no)(refs@[j]),
        decreases n - i,
    {
        let r = refs[i];
        let moved = if r.series_uuid == *uuid && r.media_id != id {
            match r.series_no {
                SeriesNo::Ordered(k) => {
                    if k >= no {
                        assert(k < u64::MAX) by {
                            if k == u64::MAX {
                                assert(refs@[i as int].series_no == SeriesNo::Ordered(u64::MAX));
                            }
                        }
                        SeriesRef { series_no: SeriesNo::Ordered(k + 1), ..r }
                    } else {
                        r
                    }
                },
                SeriesNo::Unordered => r,
            }
        } else {
            r
        };
        out.push(moved);
        i += 1;
    }
    assert(out@ =~= refs@.map_values(shift_ref(id, *uuid, no)));
    out
}

fn trim_refs(refs: &Vec<SeriesRef>, uuid: &Uuid) -> (r: Vec<SeriesRef>)
    ensures
        r@ == trimmed(refs@, *uuid),
{
    let mut out: Vec<SeriesRef> = Vec::new();
    let n: usize = refs.len();
    let mut i: usize = 0;
    while i < n
        invariant
            n == refs@.len(),
            i <= n,
            out@.len() == i,
            forall|j: int| 0 <= j < i ==> #[trigger] out@[j] == trim_ref(refs@, *uuid)(refs@[j]),
        decreases n - i,
    {
        let r = refs[i];
        let moved = if r.series_uuid == *uuid {
            match r.series_no {
                SeriesNo::Ordered(k) => {
                    let c: usize = count_no_below(refs, uuid, k);
                    proof {
                        lemma_count_below_member(refs@, *uuid, k, i as int);
                    }
                    SeriesRef { series_no: SeriesNo::Ordered(c as u64 + 1), ..r }
                },
                SeriesNo::Unordered => r,
            }
        } else {
            r
        };
        out.push(moved);
        i += 1;
    }
    assert(out@ =~= trimmed(refs@, *uuid));
    out
}

impl Library {
    /// Adds a series under the identifier `uuid`. A caption or an
    /// identifier that a series already has is `AlreadyExists`.
    pub fn insert_series(&mut self, uuid: Uuid, caption: String, comment: Option<String>) -> (r:
        Result<(), Error>)
        requires
            old(self).wf(),
        ensures
            final(self).wf(),
            series_inserted(old(self)@, final(self)@, r, MediaSet { uuid, caption, comment }),
    {
        if find_caption(&self.series, &caption).is_some() {
            return Err(err_set_exists(caption.as_str()));
        }
        if find_set(&self.series, &uuid).is_some() {
            return Err(err_set_exists(uuid.to_string().as_str()));
        }
        if self.summary.series_count == usize::MAX {
            return Err(err_library_full());
        }
        let set = MediaSet { uuid, caption, comment };
        proof {
            lemma_with_series_wf(self@.catalog, set);
        }
        self.series.push(set);
        self.summary.series_count = self.summary.series_count + 1;
        proof {
            assert(self@.catalog == old(self)@.catalog.with_series(set));
        }
        Ok(())
    }

    /// Creates a series under a fresh random identifier and returns it.
    pub fn create_series(&mut self, caption: String, comment: Option<String>) -> (r: Result<
        Uuid,
        Error,
    >)
        requires
            old(self).wf(),
        ensures
            final(self).wf(),
            series_created(old(self)@, final(self)@, r, caption, comment),
    {
        let uuid = Uuid::new_v4();
        match self.insert_series(uuid, caption, comment) {
            Ok(_) => Ok(uuid),
            Err(e) => {
                proof {
                    assert(old(self)@.catalog.insert_series_check(uuid, caption@) == Err::<
                        (),
                        ErrorView,
                    >(e@));
                }
                Err(e)
            },
        }
    }

    /// Deletes the series `uuid` and every membership in it. A series that
    /// does not exist is `NotExists`.
    pub fn delete_series(&mut self, uuid: &Uuid) -> (r: Result<(), Error>)
        requires
            old(self).wf(),
        ensures
            final(self).wf(),
            series_deleted(old(self)@, final(self)@, r, *uuid),
    {
        match find_set(&self.series, uuid) {
            None => Err(err_series_not_exists(uuid)),
            Some(i) => {
                proof {
                    lemma_set_at(self.series@, i as int);
                    lemma_without_series_wf(self@.catalog, *uuid);
                }
                let _ = self.series.remove(i);
                let refs = keep_other_series(&self.series_refs, uuid);
                self.series_refs = refs;
                self.summary.series_count = self.summary.series_count - 1;
                proof {
                    assert(self@.catalog == old(self)@.catalog.without_series(*uuid));
                }
                Ok(())
            },
        }
    }

    /// The series and the tag that have the caption `caption`, each if
    /// there is one.
    pub fn get_series_by_name(&self, caption: String) -> (r: Result<
        (Option<Uuid>, Option<Uuid>),
        Error,
    >)
        requires
            self.wf(),
        ensures
            r matches Ok(found) && found.0 == (if has_caption(self@.catalog.series, caption@) {
                Some(
                    self@.catalog.series[caption_index(self@.catalog.series, caption@)].uuid,
                )
            } else {
                None
            }) && found.1 == (if has_caption(self@.catalog.tags, caption@) {
                Some(self@.catalog.tags[caption_index(self@.catalog.tags, caption@)].uuid)
            } else {
                None
            }),
    {
        let series = match find_caption(&self.series, &caption) {
            Some(i) => {
                proof {
                    lemma_set_at(self.series@, i as int);
                }
                Some(self.series[i].uuid)
            },
            None => None,
        };
        let tag = match find_caption(&self.tags, &caption) {
            Some(i) => {
                proof {
                    lemma_set_at(self.tags@, i as int);
                }
                Some(self.tags[i].uuid)
            },
            None => None,
        };
        Ok((series, tag))
    }

    /// Lets the media item `id` join the series `uuid`: at the ordinal
    /// `no` where one is given, without an ordinal where none is given and
    /// `unsorted` is set, and else at one past the largest ordinal held
    /// (1 in a series without ordinals).
    ///
    /// An ordinal that another member holds is `Occupied`, whatever else
    /// holds; a series or a media item that does not exist is `NotExists`;
    /// a media item that already is a member is `AlreadyExists`. A failure
    /// changes nothing.
    pub fn add_to_series(&mut self, id: u64, uuid: &Uuid, no: Option<u64>, unsorted: bool) -> (r:
        Result<(), Error>)
        requires
            old(self).wf(),
        ensures
            final(self).wf(),
            added_to_series(old(self)@, final(self)@, r, id, *uuid, no, unsorted),
    {
        match no {
            Some(n) => {
                if is_occupied(&self.series_refs, id, uuid, n) {
                    return Err(err_ordinal_occupied(id, uuid, n));
                }
            },
            None => {},
        }
        if find_set(&self.series, uuid).is_none() {
            return Err(err_series_not_exists(uuid));
        }
        if find_media(&self.medias, id).is_none() {
            return Err(err_media_not_exists(id));
        }
        if find_member(&self.series_refs, id, uuid).is_some() {
            return Err(err_already_member(id, uuid));
        }
        let series_no = match no {
            Some(n) => SeriesNo::Ordered(n),
            None => {
                if unsorted {
                    SeriesNo::Unordered
                } else {
                    let m: u64 = max_no(&self.series_refs, uuid);
                    if m == u64::MAX {
                        return Err(err_library_full());
                    }
                    SeriesNo::Ordered(m + 1)
                }
            },
        };
        let r = SeriesRef { media_id: id, series_uuid: *uuid, series_no };
        proof {
            lemma_with_series_ref_wf(self@.catalog, id, *uuid, no, unsorted);
        }
        self.series_refs.push(r);
        proof {
            assert(self@.catalog == old(self)@.catalog.with_series_ref(r));
        }
        Ok(())
    }

    /// Takes the media item `id` out of the series `uuid`. An item that is
    /// no member is `NotIn`.
    pub fn remove_from_series(&mut self, id: u64, uuid: &Uuid) -> (r: Result<(), Error>)
        requires
            old(self).wf(),
        ensures
            final(self).wf(),
            removed_from_series(old(self)@, final(self)@, r, id, *uuid),
    {
        match find_member(&self.series_refs, id, uuid) {
            None => Err(err_not_in_series(id, uuid)),
            Some(i) => {
                proof {
                    lemma_member_at(self.series_refs@, i as int);
                    lemma_without_series_ref_wf(self@.catalog, id, *uuid);
                }
                let _ = self.series_refs.remove(i);
                proof {
                    assert(self@.catalog == old(self)@.catalog.without_series_ref(id, *uuid));
                }
                Ok(())
            },
        }
    }

    /// Moves the member `id` of the series `series_uuid` to the ordinal
    /// `no`. Where another member holds that ordinal, the move fails with
    /// `Occupied` unless `insert` is set; with `insert`, every other
    /// member at `no` or above moves up by one first. An item that is no
    /// member is `NotIn`. A failure changes nothing.
    pub fn update_series_no(&mut self, id: u64, series_uuid: &Uuid, no: u64, insert: bool) -> (r:
        Result<(), Error>)
        requires
            old(self).wf(),
        ensures
            final(self).wf(),
            match old(self)@.catalog.update_no_check(id, *series_uuid, no, insert) {
                Ok(shift) => r is Ok && final(self)@ == (LibraryView {
                    catalog: old(self)@.catalog.with_series_no(id, *series_uuid, no, shift),
                    ..old(self)@
                }),
                Err(e) => fails_with(r, e) && final(self)@ == old(self)@,
            },
    {
        let i: usize = match find_member(&self.series_refs, id, series_uuid) {
            None => {
                return Err(err_not_in_series(id, series_uuid));
            },
            Some(i) => i,
        };
        proof {
            lemma_member_at(self.series_refs@, i as int);
            if old(self)@.catalog.update_no_check(id, *series_uuid, no, insert) is Ok {
                lemma_with_series_no_wf(self@.catalog, id, *series_uuid, no, insert);
            }
        }
        let target = self.series_refs[i];
        if is_occupied(&self.series_refs, id, series_uuid, no) {
            if !insert {
                return Err(err_ordinal_occupied(id, series_uuid, no));
            }
            if is_occupied(&self.series_refs, id, series_uuid, u64::MAX) {
                return Err(err_library_full());
            }
            let moved = shift_refs(&self.series_refs, id, series_uuid, no);
            self.series_refs = moved;
        }
        self.series_refs[i] = SeriesRef { series_no: SeriesNo::Ordered(no), ..target };
        proof {
            assert(self@.catalog.series_refs =~= old(self)@.catalog.with_series_no(
                id,
                *series_uuid,
                no,
                old(self)@.catalog.update_no_check(id, *series_uuid, no, insert)->Ok_0,
            ).series_refs);
        }
        Ok(())
    }

    /// Renumbers the ordered members of the series `uuid` to 1, 2, 3 and so
    /// on, in the order of the ordinals they held. Members without an
    /// ordinal stay without. A series that does not exist is `NotExists`.
    pub fn trim_series_no(&mut self, uuid: &Uuid) -> (r: Result<(), Error>)
        requires
            old(self).wf(),
        ensures
            final(self).wf(),
            has_set(old(self)@.catalog.series, *uuid) ==> r is Ok && final(self)@ == (LibraryView {
                catalog: old(self)@.catalog.with_trimmed(*uuid),
                ..old(self)@
            }),
            !has_set(old(self)@.catalog.series, *uuid) ==> fails_with(
                r,
                series_not_exists(*uuid),
            ) && final(self)@ == old(self)@,
    {
        if find_set(&self.series, uuid).is_none() {
            return Err(err_series_not_exists(uuid));
        }
        let rows: usize = self.series_refs.len();
        proof {
            assert(self@.catalog.series_refs.len() == rows);
            lemma_with_trimmed_wf(self@.catalog, *uuid);
        }
        let renumbered = trim_refs(&self.series_refs, uuid);
        self.series_refs = renumbered;
        proof {
            assert(self@.catalog == old(self)@.catalog.with_trimmed(*uuid));
        }
        Ok(())
    }

    /// The ordinal that the next member of the series `uuid` gets: one
    /// past the largest ordinal held, 1 where none is held, and none where
    /// the largest ordinal is the largest number. A series that does not
    /// exist is `NotExists`.
    pub fn get_next_no_in_series(&self, uuid: &Uuid) -> (r: Result<Option<u64>, Error>)
        ensures
            has_set(self@.catalog.series, *uuid) ==> (r matches Ok(next) && next == (
            if max_ordinal(self@.catalog.series_refs, *uuid) < u64::MAX {
                Some((max_ordinal(self@.catalog.series_refs, *uuid) + 1) as u64)
            } else {
                None
            })),
            !has_set(self@.catalog.series, *uuid) ==> fails_with(r, series_not_exists(*uuid)),
    {
        if find_set(&self.series, uuid).is_none() {
            return Err(err_series_not_exists(uuid));
        }
        let m: u64 = max_no(&self.series_refs, uuid);
        if m == u64::MAX {
            Ok(None)
        } else {
            Ok(Some(m + 1))
        }
    }

    /// The memberships of the series `uuid`, in the order of the table.
    pub fn get_series_members(&self, uuid: &Uuid) -> (r: Vec<SeriesRef>)
        ensures
            r@ == self@.catalog.series_refs.filter(ref_of_series(*uuid)),
    {
        let mut out: Vec<SeriesRef> = Vec::new();
        let n: usize = self.series_refs.len();
        let mut i: usize = 0;
        proof {
            reveal(Seq::filter);
            assert(self.series_refs@.take(0).filter(ref_of_series(*uuid)) =~= Seq::<
                SeriesRef,
            >::empty());
        }
        while i < n
            invariant
                n == self.series_refs@.len(),
                i <= n,
                out@ == self.series_refs@.take(i as int).filter(ref_of_series(*uuid)),
            decreases n - i,
        {
            proof {
                lemma_filter_step(self.series_refs@, ref_of_series(*uuid), i as int);
            }
            if self.series_refs[i].series_uuid == *uuid {
                out.push(self.series_refs[i]);
            }
            i += 1;
        }
        assert(self.series_refs@.take(n as int) =~= self.series_refs@);
        out
    }

    /// How many members the series `uuid` has. A series that does not
    /// exist is `NotExists`.
    pub fn series_media_count(&self, uuid: &Uuid) -> (r: Result<usize, Error>)
        ensures
            has_set(self@.catalog.series, *uuid) ==> (r matches Ok(n) && n == member_count(
                self@.catalog.series_refs,
                *uuid,
            )),
            !has_set(self@.catalog.series, *uuid) ==> fails_with(r, series_not_exists(*uuid)),
    {
        if find_set(&self.series, uuid).is_none() {
            return Err(err_series_not_exists(uuid));
        }
        Ok(count_members(&self.series_refs, uuid))
    }
}

} // verus!
