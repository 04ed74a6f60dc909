use vstd::prelude::*;
use crate::media::SeriesNo;
use crate::misc::Uuid;
use super::laws::law_first_ordinal;
use super::guards::lemma_member_at;
use super::model::count_below;
use super::model::is_member;
use super::model::member_index;
use super::model::max_ordinal;
use super::model::refs_compatible;
use super::order_model::lemma_count_below_member;
use super::order_model::lemma_count_below_mono;
use super::order_model::lemma_count_below_strict;
use super::set_model::law_largest_ordinal_is_held;
use super::set_model::lemma_max_ordinal_bound;
use super::set_model::shift_ref;
use super::set_model::shifts;
use super::set_model::trim_ref;
use super::set_model::trimmed;
use super::Catalog;
use super::SeriesRef;

verus! {

/// Whether `r` is a member of the series `uuid` that holds an ordinal.
pub open spec fn is_ordered_in(r: SeriesRef, uuid: Uuid) -> bool {
    r.series_uuid == uuid && r.series_no is Ordered
}

/// How many members of the series `uuid` hold an ordinal.
pub open spec fn ordered_count(refs: Seq<SeriesRef>, uuid: Uuid) -> nat
    decreases refs.len(),
{
    if refs.len() == 0 {
        0
    } else {
        ordered_count(refs.drop_last(), uuid) + if is_ordered_in(refs.last(), uuid) {
            1nat
        } else {
            0nat
        }
    }
}

/// Whether some member of the series `uuid` holds the ordinal `no`.
pub open spec fn ordinal_held(refs: Seq<SeriesRef>, uuid: Uuid, no: u64) -> bool {
    exists|i: int|
        0 <= i < refs.len() && (#[trigger] refs[i]).series_uuid == uuid && refs[i].series_no
            == SeriesNo::Ordered(no)
}

/// Any two memberships of the table are compatible.
pub open spec fn all_compatible(refs: Seq<SeriesRef>) -> bool {
    forall|i: int, j: int|
        0 <= i < j < refs.len() ==> refs_compatible(#[trigger] refs[i], #[trigger] refs[j])
}

proof fn lemma_count_below_at_most_ordered(refs: Seq<SeriesRef>, uuid: Uuid, b: u64)
    ensures
        count_below(refs, uuid, b) <= ordered_count(refs, uuid) <= refs.len(),
    decreases refs.len(),
{
    if refs.len() > 0 {
        lemma_count_below_at_most_ordered(refs.drop_last(), uuid, b);
    }
}

proof fn lemma_count_below_under_ordered(refs: Seq<SeriesRef>, uuid: Uuid, i: int)
    requires
        0 <= i < refs.len(),
        is_ordered_in(refs[i], uuid),
    ensures
        count_below(refs, uuid, refs[i].series_no->0) < ordered_count(refs, uuid),
    decreases refs.len(),
{
    let init = refs.drop_last();
    if i == refs.len() - 1 {
        lemma_count_below_at_most_ordered(init, uuid, refs[i].series_no->0);
    } else {
        lemma_count_below_under_ordered(init, uuid, i);
    }
}

proof fn lemma_all_below(refs: Seq<SeriesRef>, uuid: Uuid, b: u64)
    requires
        forall|j: int|
            0 <= j < refs.len() && is_ordered_in(#[trigger] refs[j], uuid) ==> refs[j].series_no->0
                < b,
    ensures
        count_below(refs, uuid, b) == ordered_count(refs, uuid),
    decreases refs.len(),
{
    if refs.len() > 0 {
        let init = refs.drop_last();
        assert forall|j: int| 0 <= j < init.len() && is_ordered_in(
            #[trigger] init[j],
            uuid,
        ) implies init[j].series_no->0 < b by {
            assert(init[j] == refs[j]);
        }
        lemma_all_below(init, uuid, b);
        assert(refs.last() == refs[refs.len() - 1]);
    }
}

proof fn lemma_remove_counts(refs: Seq<SeriesRef>, uuid: Uuid, b: u64, m: int)
    requires
        0 <= m < refs.len(),
    ensures
        ordered_count(refs, uuid) == ordered_count(refs.remove(m), uuid) + if is_ordered_in(
            refs[m],
            uuid,
        ) {
            1nat
        } else {
            0nat
        },
        count_below(refs, uuid, b) == count_below(refs.remove(m), uuid, b) + if is_ordered_in(
            refs[m],
            uuid,
        ) && refs[m].series_no->0 < b {
            1nat
        } else {
            0nat
        },
    decreases refs.len(),
{
    if m == refs.len() - 1 {
        assert(refs.remove(m) =~= refs.drop_last());
    } else {
        lemma_remove_counts(refs.drop_last(), uuid, b, m);
        assert(refs.remove(m).drop_last() =~= refs.drop_last().remove(m));
        assert(refs.remove(m).last() == refs.last());
    }
}

proof fn lemma_largest_exists(refs: Seq<SeriesRef>, uuid: Uuid)
    requires
        ordered_count(refs, uuid) > 0,
    ensures
        exists|m: int|
            0 <= m < refs.len() && is_ordered_in(#[trigger] refs[m], uuid) && forall|j: int|
                0 <= j < refs.len() && is_ordered_in(#[trigger] refs[j], uuid)
                    ==> refs[j].series_no->0 <= refs[m].series_no->0,
    decreases refs.len(),
{
    let init = refs.drop_last();
    let last = refs.len() - 1;
    if ordered_count(init, uuid) == 0 {
        assert forall|j: int| 0 <= j < init.len() implies !is_ordered_in(#[trigger] init[j], uuid) by {
            if is_ordered_in(init[j], uuid) {
                lemma_count_below_under_ordered(init, uuid, j);
            }
        }
        assert forall|j: int| 0 <= j < refs.len() && is_ordered_in(
            #[trigger] refs[j],
            uuid,
        ) implies refs[j].series_no->0 <= refs[last].series_no->0 by {
            if j < last {
                assert(init[j] == refs[j]);
            }
        }
        assert(is_ordered_in(refs[last], uuid));
    } else {
        lemma_largest_exists(init, uuid);
        let m0 = choose|m: int|
            0 <= m < init.len() && is_ordered_in(#[trigger] init[m], uuid) && forall|j: int|
                0 <= j < init.len() && is_ordered_in(#[trigger] init[j], uuid)
                    ==> init[j].series_no->0 <= init[m].series_no->0;
        let m = if is_ordered_in(refs[last], uuid) && refs[last].series_no->0
            > init[m0].series_no->0 {
            last
        } else {
            m0
        };
        assert(refs[m0] == init[m0]);
        assert forall|j: int| 0 <= j < refs.len() && is_ordered_in(
            #[trigger] refs[j],
            uuid,
        ) implies refs[j].series_no->0 <= refs[m].series_no->0 by {
            if j < last {
                assert(init[j] == refs[j]);
            }
        }
        assert(is_ordered_in(refs[m], uuid));
    }
}

proof fn lemma_every_rank_taken(refs: Seq<SeriesRef>, uuid: Uuid, k: nat)
    requires
        all_compatible(refs),
        1 <= k <= ordered_count(refs, uuid),
    ensures
        exists|i: int|
            0 <= i < refs.len() && is_ordered_in(#[trigger] refs[i], uuid) && count_below(
                refs,
                uuid,
                refs[i].series_no->0,
            ) + 1 == k,
    decreases refs.len(),
{
    lemma_largest_exists(refs, uuid);
    let m = choose|m: int|
        0 <= m < refs.len() && is_ordered_in(#[trigger] refs[m], uuid) && forall|j: int|
            0 <= j < refs.len() && is_ordered_in(#[trigger] refs[j], uuid) ==> refs[j].series_no->0
                <= refs[m].series_no->0;
    let top = refs[m].series_no->0;
    let rest = refs.remove(m);
    assert forall|j: int| 0 <= j < rest.len() && is_ordered_in(
        #[trigger] rest[j],
        uuid,
    ) implies rest[j].series_no->0 < top by {
        let j2 = if j < m {
            j
        } else {
            j + 1
        };
        assert(rest[j] == refs[j2]);
        assert(is_ordered_in(refs[j2], uuid));
        if j2 < m {
            assert(refs_compatible(refs[j2], refs[m]));
        } else {
            assert(refs_compatible(refs[m], refs[j2]));
        }
    }
    lemma_remove_counts(refs, uuid, top, m);
    lemma_all_below(rest, uuid, top);
    if k == ordered_count(refs, uuid) {
        assert(count_below(refs, uuid, top) + 1 == k);
    } else {
        assert(all_compatible(rest)) by {
            assert forall|a: int, b: int| 0 <= a < b < rest.len() implies refs_compatible(
                #[trigger] rest[a],
                #[trigger] rest[b],
            ) by {
                let a2 = if a < m {
                    a
                } else {
                    a + 1
                };
                let b2 = if b < m {
                    b
                } else {
                    b + 1
                };
                assert(refs_compatible(refs[a2], refs[b2]));
            }
        }
        lemma_every_rank_taken(rest, uuid, k);
        let i0 = choose|i: int|
            0 <= i < rest.len() && is_ordered_in(#[trigger] rest[i], uuid) && count_below(
                rest,
                uuid,
                rest[i].series_no->0,
            ) + 1 == k;
        let i = if i0 < m {
            i0
        } else {
            i0 + 1
        };
        assert(rest[i0] == refs[i]);
        lemma_remove_counts(refs, uuid, refs[i].series_no->0, m);
        assert(is_ordered_in(refs[i], uuid));
    }
}

/// After a series was renumbered, its ordinals are the numbers from 1 to
/// the number of its ordered members: each ordered member holds one of
/// them, and each of them is held.
pub proof fn law_trim_contiguous(refs: Seq<SeriesRef>, uuid: Uuid)
    requires
        all_compatible(refs),
        refs.len() <= u64::MAX,
    ensures
        trimmed(refs, uuid).len() == refs.len(),
        forall|i: int|
            0 <= i < refs.len() && is_ordered_in(#[trigger] refs[i], uuid) ==> is_ordered_in(
                trimmed(refs, uuid)[i],
                uuid,
            ) && 1 <= trimmed(refs, uuid)[i].series_no->0 <= ordered_count(refs, uuid),
        forall|k: u64|
            1 <= k <= ordered_count(refs, uuid) ==> #[trigger] ordinal_held(
                trimmed(refs, uuid),
                uuid,
                k,
            ),
{
    let t = trimmed(refs, uuid);
    assert forall|i: int| 0 <= i < refs.len() && is_ordered_in(
        #[trigger] refs[i],
        uuid,
    ) implies is_ordered_in(t[i], uuid) && 1 <= t[i].series_no->0 <= ordered_count(refs, uuid) by {
        lemma_count_below_under_ordered(refs, uuid, i);
        lemma_count_below_at_most_ordered(refs, uuid, refs[i].series_no->0);
        assert(t[i] == trim_ref(refs, uuid)(refs[i]));
    }
    assert forall|k: u64| 1 <= k <= ordered_count(refs, uuid) implies #[trigger] ordinal_held(
        t,
        uuid,
        k,
    ) by {
        lemma_every_rank_taken(refs, uuid, k as nat);
        let i = choose|i: int|
            0 <= i < refs.len() && is_ordered_in(#[trigger] refs[i], uuid) && count_below(
                refs,
                uuid,
                refs[i].series_no->0,
            ) + 1 == k;
        assert(t[i] == trim_ref(refs, uuid)(refs[i]));
        assert(t[i].series_uuid == uuid && t[i].series_no == SeriesNo::Ordered(k));
    }
}

/// Renumbering keeps the order of the members: of two ordered members of
/// the series, the one with the smaller ordinal before has the smaller
/// ordinal after.
pub proof fn law_trim_keeps_order(refs: Seq<SeriesRef>, uuid: Uuid, i: int, j: int)
    requires
        refs.len() <= u64::MAX,
        0 <= i < refs.len(),
        0 <= j < refs.len(),
        is_ordered_in(refs[i], uuid),
        is_ordered_in(refs[j], uuid),
    ensures
        refs[i].series_no->0 < refs[j].series_no->0 <==> trimmed(refs, uuid)[i].series_no->0
            < trimmed(refs, uuid)[j].series_no->0,
{
    let t = trimmed(refs, uuid);
    let a = refs[i].series_no->0;
    let b = refs[j].series_no->0;
    assert(t[i] == trim_ref(refs, uuid)(refs[i]));
    assert(t[j] == trim_ref(refs, uuid)(refs[j]));
    lemma_count_below_member(refs, uuid, a, i);
    lemma_count_below_member(refs, uuid, b, j);
    if a < b {
        lemma_count_below_strict(refs, uuid, a, b, i);
    } else {
        lemma_count_below_mono(refs, uuid, b, a);
    }
}

/// Renumbering touches nothing but the ordinals of the ordered members of
/// the series: every membership keeps its media item and its series,
/// members without an ordinal stay without, and the other series stay as
/// they are.
pub proof fn law_trim_keeps_members(refs: Seq<SeriesRef>, uuid: Uuid, i: int)
    requires
        0 <= i < refs.len(),
    ensures
        trimmed(refs, uuid)[i].media_id == refs[i].media_id,
        trimmed(refs, uuid)[i].series_uuid == refs[i].series_uuid,
        !is_ordered_in(refs[i], uuid) ==> trimmed(refs, uuid)[i] == refs[i],
{
    assert(trimmed(refs, uuid)[i] == trim_ref(refs, uuid)(refs[i]));
}

proof fn lemma_count_below_after_trim(refs: Seq<SeriesRef>, uuid: Uuid, i: int, k: int)
    requires
        refs.len() <= u64::MAX,
        0 <= i < refs.len(),
        is_ordered_in(refs[i], uuid),
        0 <= k <= refs.len(),
    ensures
        count_below(
            refs.take(k).map_values(trim_ref(refs, uuid)),
            uuid,
            (count_below(refs, uuid, refs[i].series_no->0) + 1) as u64,
        ) == count_below(refs.take(k), uuid, refs[i].series_no->0),
    decreases k,
{
    let f = trim_ref(refs, uuid);
    let b = refs[i].series_no->0;
    lemma_count_below_member(refs, uuid, b, i);
    if k > 0 {
        lemma_count_below_after_trim(refs, uuid, i, k - 1);
        let p = refs.take(k);
        let e = refs[k - 1];
        assert(p.drop_last() =~= refs.take(k - 1));
        assert(p.map_values(f).drop_last() =~= refs.take(k - 1).map_values(f));
        assert(p.map_values(f).last() == f(e));
        assert(p.last() == e);
        if is_ordered_in(e, uuid) {
            let n = e.series_no->0;
            lemma_count_below_member(refs, uuid, n, k - 1);
            if n < b {
                lemma_count_below_strict(refs, uuid, n, b, k - 1);
            } else {
                lemma_count_below_mono(refs, uuid, b, n);
            }
        }
    }
}

/// Renumbering a series that was just renumbered changes nothing.
pub proof fn law_trim_idempotent(refs: Seq<SeriesRef>, uuid: Uuid)
    requires
        refs.len() <= u64::MAX,
    ensures
        trimmed(trimmed(refs, uuid), uuid) == trimmed(refs, uuid),
{
    let t = trimmed(refs, uuid);
    assert forall|i: int| 0 <= i < t.len() implies trimmed(t, uuid)[i] == t[i] by {
        assert(t[i] == trim_ref(refs, uuid)(refs[i]));
        assert(trimmed(t, uuid)[i] == trim_ref(t, uuid)(t[i]));
        if is_ordered_in(refs[i], uuid) {
            lemma_count_below_member(refs, uuid, refs[i].series_no->0, i);
            lemma_count_below_after_trim(refs, uuid, i, refs.len() as int);
            assert(refs.take(refs.len() as int) =~= refs);
        }
    }
    assert(trimmed(t, uuid) =~= t);
}

/// After a series was renumbered, its largest ordinal is the number of
/// its ordered members, so that the next member joins right behind them.
pub proof fn law_next_after_trim(refs: Seq<SeriesRef>, uuid: Uuid)
    requires
        all_compatible(refs),
        refs.len() <= u64::MAX,
    ensures
        max_ordinal(trimmed(refs, uuid), uuid) == ordered_count(refs, uuid),
{
    let t = trimmed(refs, uuid);
    let n = ordered_count(refs, uuid);
    law_trim_contiguous(refs, uuid);
    lemma_count_below_at_most_ordered(refs, uuid, 0);
    if n == 0 {
        assert forall|i: int| 0 <= i < t.len() implies !((#[trigger] t[i]).series_uuid == uuid
            && t[i].series_no is Ordered) by {
            law_trim_keeps_members(refs, uuid, i);
            if is_ordered_in(refs[i], uuid) {
                lemma_count_below_under_ordered(refs, uuid, i);
            }
        }
        law_first_ordinal(t, uuid);
    } else {
        assert(ordinal_held(t, uuid, n as u64));
        let i = choose|i: int|
            0 <= i < t.len() && (#[trigger] t[i]).series_uuid == uuid && t[i].series_no
                == SeriesNo::Ordered(n as u64);
        lemma_max_ordinal_bound(t, uuid, i);
        law_largest_ordinal_is_held(t, uuid);
        let j = choose|j: int|
            0 <= j < t.len() && (#[trigger] t[j]).series_uuid == uuid && t[j].series_no
                == SeriesNo::Ordered(max_ordinal(t, uuid) as u64);
        law_trim_keeps_members(refs, uuid, j);
        assert(is_ordered_in(refs[j], uuid));
    }
}

/// Moving a member to an ordinal works as inserting into a list does:
/// the member holds the new ordinal; where room had to be made, every
/// other member of the series that held that ordinal or a larger one
/// holds the ordinal one above; every other membership is as it was.
pub proof fn law_move_makes_room(c: Catalog, id: u64, uuid: Uuid, no: u64, shift: bool, k: int)
    requires
        all_compatible(c.series_refs),
        is_member(c.series_refs, id, uuid),
        0 <= k < c.series_refs.len(),
    ensures
        c.with_series_no(id, uuid, no, shift).series_refs.len() == c.series_refs.len(),
        c.with_series_no(id, uuid, no, shift).series_refs[k] == (if c.series_refs[k].media_id == id
            && c.series_refs[k].series_uuid == uuid {
            SeriesRef { series_no: SeriesNo::Ordered(no), ..c.series_refs[k] }
        } else if shift && shifts(c.series_refs[k], id, uuid, no) {
            SeriesRef {
                series_no: SeriesNo::Ordered((c.series_refs[k].series_no->0 + 1) as u64),
                ..c.series_refs[k]
            }
        } else {
            c.series_refs[k]
        }),
{
    let refs = c.series_refs;
    let i = member_index(refs, id, uuid);
    lemma_member_at(refs, i);
    if refs[k].media_id == id && refs[k].series_uuid == uuid {
        lemma_member_at(refs, k);
    }
    if shift {
        assert(refs.map_values(shift_ref(id, uuid, no))[k] == shift_ref(id, uuid, no)(refs[k]));
    }
}

} // verus!
