use vstd::prelude::*;
use crate::media::SeriesNo;
use crate::misc::Uuid;
use super::guards::lemma_member_at;
use super::model::count_below;
use super::model::member_index;
use super::model::refs_compatible;
use super::set_model::shift_ref;
use super::set_model::trim_ref;
use super::Catalog;
use super::SeriesRef;

verus! {

/// Fewer members lie below an ordinal than there are memberships.
pub proof fn lemma_count_below_len(refs: Seq<SeriesRef>, uuid: Uuid, no: u64)
    ensures
        count_below(refs, uuid, no) <= refs.len(),
    decreases refs.len(),
{
    if refs.len() > 0 {
        lemma_count_below_len(refs.drop_last(), uuid, no);
    }
}

/// A larger ordinal has at least as many members below it.
pub proof fn lemma_count_below_mono(refs: Seq<SeriesRef>, uuid: Uuid, a: u64, b: u64)
    requires
        a <= b,
    ensures
        count_below(refs, uuid, a) <= count_below(refs, uuid, b),
    decreases refs.len(),
{
    if refs.len() > 0 {
        lemma_count_below_mono(refs.drop_last(), uuid, a, b);
    }
}

/// An ordinal above one that a member holds has more members below it.
pub proof fn lemma_count_below_strict(refs: Seq<SeriesRef>, uuid: Uuid, a: u64, b: u64, i: int)
    requires
        0 <= i < refs.len(),
        refs[i].series_uuid == uuid,
        refs[i].series_no == SeriesNo::Ordered(a),
        a < b,
    ensures
        count_below(refs, uuid, a) < count_below(refs, uuid, b),
    decreases refs.len(),
{
    let init = refs.drop_last();
    if i == refs.len() - 1 {
        lemma_count_below_mono(init, uuid, a, b);
    } else {
        lemma_count_below_strict(init, uuid, a, b, i);
    }
}

/// The member that holds an ordinal is not counted below it.
pub proof fn lemma_count_below_member(refs: Seq<SeriesRef>, uuid: Uuid, a: u64, i: int)
    requires
        0 <= i < refs.len(),
        refs[i].series_uuid == uuid,
        refs[i].series_no == SeriesNo::Ordered(a),
    ensures
        count_below(refs, uuid, a) < refs.len(),
    decreases refs.len(),
{
    let init = refs.drop_last();
    if i == refs.len() - 1 {
        lemma_count_below_len(init, uuid, a);
    } else {
        lemma_count_below_member(init, uuid, a, i);
    }
}

/// Renumbering a series keeps the invariant.
pub proof fn lemma_with_trimmed_wf(c: Catalog, uuid: Uuid)
    requires
        c.wf(),
        c.series_refs.len() <= u64::MAX,
    ensures
        c.with_trimmed(uuid).wf(),
{
    let refs = c.series_refs;
    let d = c.with_trimmed(uuid);
    assert forall|k: int, l: int| 0 <= k < l < d.series_refs.len() implies refs_compatible(
        #[trigger] d.series_refs[k],
        #[trigger] d.series_refs[l],
    ) by {
        let a = refs[k];
        let b = refs[l];
        assert(refs_compatible(a, b));
        assert(d.series_refs[k] == trim_ref(refs, uuid)(a));
        assert(d.series_refs[l] == trim_ref(refs, uuid)(b));
        if a.series_uuid == uuid && b.series_uuid == uuid && a.series_no is Ordered
            && b.series_no is Ordered {
            let x = a.series_no->0;
            let y = b.series_no->0;
            lemma_count_below_member(refs, uuid, x, k);
            lemma_count_below_member(refs, uuid, y, l);
            if x < y {
                lemma_count_below_strict(refs, uuid, x, y, k);
            } else {
                lemma_count_below_strict(refs, uuid, y, x, l);
            }
        }
    }
}

/// Placing a member at an ordinal, after making room where the ordinal was
/// taken, keeps the invariant.
pub proof fn lemma_with_series_no_wf(c: Catalog, id: u64, uuid: Uuid, no: u64, insert: bool)
    requires
        c.wf(),
        c.update_no_check(id, uuid, no, insert) is Ok,
    ensures
        c.with_series_no(id, uuid, no, c.update_no_check(id, uuid, no, insert)->Ok_0).wf(),
{
    let refs = c.series_refs;
    let shift = c.update_no_check(id, uuid, no, insert)->Ok_0;
    let d = c.with_series_no(id, uuid, no, shift);
    let i = member_index(refs, id, uuid);
    lemma_member_at(refs, i);
    assert forall|k: int| 0 <= k < d.series_refs.len() implies (#[trigger] d.series_refs[k]).media_id
        == refs[k].media_id && d.series_refs[k].series_uuid == refs[k].series_uuid by {
        if shift {
            assert(refs.map_values(shift_ref(id, uuid, no))[k] == shift_ref(id, uuid, no)(refs[k]));
        }
    }
    assert forall|k: int, l: int| 0 <= k < l < d.series_refs.len() implies refs_compatible(
        #[trigger] d.series_refs[k],
        #[trigger] d.series_refs[l],
    ) by {
        let a = refs[k];
        let b = refs[l];
        assert(refs_compatible(a, b));
        if shift {
            assert(refs.map_values(shift_ref(id, uuid, no))[k] == shift_ref(id, uuid, no)(a));
            assert(refs.map_values(shift_ref(id, uuid, no))[l] == shift_ref(id, uuid, no)(b));
        }
        if a.series_uuid == uuid && b.series_uuid == uuid {
            if k != i {
                assert(a.media_id != id) by {
                    if a.media_id == id {
                        lemma_member_at(refs, k);
                    }
                }
            }
            if l != i {
                assert(b.media_id != id) by {
                    if b.media_id == id {
                        lemma_member_at(refs, l);
                    }
                }
            }
        }
    }
}

} // verus!
