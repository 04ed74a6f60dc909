use vstd::prelude::*;
use crate::misc::HashAlgo;
use super::guards::find_media;
use super::guards::find_set;
use super::media_ops::is_hash_text;
use super::model::has_media;
use super::model::has_set;
use super::model::locations_wf;
use super::model::medias_wf;
use super::model::refs_compatible;
use super::model::series_refs_wf;
use super::model::sets_wf;
use super::model::tag_refs_wf;
use super::model::thumbnails_wf;
use super::model::total_size;
use super::Library;
use super::LibrarySummary;
use super::LocationRef;
use super::MediaRow;
use super::MediaSet;
use super::SeriesRef;
use super::TagRef;
use super::Thumbnail;
use crate::media::SeriesNo;

verus! {

fn ids_in_order(medias: &Vec<MediaRow>, next_id: u64) -> (r: bool)
    ensures
        r == ((forall|i: int, j: int|
            0 <= i < j < medias@.len() ==> (#[trigger] medias@[i]).id < (#[trigger] medias@[j]).id)
            && (forall|i: int| 0 <= i < medias@.len() ==> 0 < (#[trigger] medias@[i]).id < next_id)),
{
    let n: usize = medias.len();
    let mut j: usize = 0;
    while j < n
        invariant
            n == medias@.len(),
            j <= n,
            forall|a: int, b: int|
                0 <= a < b < j ==> (#[trigger] medias@[a]).id < (#[trigger] medias@[b]).id,
            forall|a: int| 0 <= a < j ==> 0 < (#[trigger] medias@[a]).id < next_id,
        decreases n - j,
    {
        if medias[j].id == 0 || medias[j].id >= next_id {
            return false;
        }
        if j > 0 && medias[j - 1].id >= medias[j].id {
            return false;
        }
        proof {
            assert forall|a: int| 0 <= a < j implies (#[trigger] medias@[a]).id < medias@[j as int].id by {
                if a < j - 1 {
                    assert(medias@[a].id < medias@[j - 1].id);
                }
            }
        }
        j += 1;
    }
    true
}

fn hashes_valid(medias: &Vec<MediaRow>, algo: &HashAlgo) -> (r: bool)
    ensures
        r == (forall|i: int| 0 <= i < medias@.len() ==> algo.is_hash((#[trigger] medias@[i]).hash@)),
{
    let n: usize = medias.len();
    let mut i: usize = 0;
    while i < n
        invariant
            n == medias@.len(),
            i <= n,
            forall|a: int| 0 <= a < i ==> algo.is_hash((#[trigger] medias@[a]).hash@),
        decreases n - i,
    {
        if !is_hash_text(algo, medias[i].hash.as_str()) {
            return false;
        }
        i += 1;
    }
    true
}

fn hashes_distinct(medias: &Vec<MediaRow>) -> (r: bool)
    ensures
        r == (forall|i: int, j: int|
            0 <= i < j < medias@.len() ==> (#[trigger] medias@[i]).hash@ != (
            #[trigger] medias@[j]).hash@),
{
    let n: usize = medias.len();
    let mut j: usize = 0;
    while j < n
        invariant
            n == medias@.len(),
            j <= n,
            forall|a: int, b: int|
                0 <= a < b < j ==> (#[trigger] medias@[a]).hash@ != (#[trigger] medias@[b]).hash@,
        decreases n - j,
    {
        let mut i: usize = 0;
        while i < j
            invariant
                n == medias@.len(),
                i <= j < n,
                forall|a: int, b: int|
                    0 <= a < b < j ==> (#[trigger] medias@[a]).hash@ != (
                    #[trigger] medias@[b]).hash@,
                forall|a: int| 0 <= a < i ==> (#[trigger] medias@[a]).hash@ != medias@[j as int].hash@,
            decreases j - i,
        {
            if medias[i].hash == medias[j].hash {
                return false;
            }
            i += 1;
        }
        j += 1;
    }
    true
}

/// Whether the media table meets its part of the invariant.
pub fn check_medias(medias: &Vec<MediaRow>, next_id: u64, algo: &HashAlgo) -> (r: bool)
    ensures
        r == medias_wf(medias@, next_id, *algo),
{
    next_id >= 1 && ids_in_order(medias, next_id) && hashes_valid(medias, algo) && hashes_distinct(
        medias,
    )
}

/// Whether a table of sets meets its part of the invariant.
pub fn check_sets(sets: &Vec<MediaSet>) -> (r: bool)
    ensures
        r == sets_wf(sets@),
{
    let n: usize = sets.len();
    let mut j: usize = 0;
    while j < n
        invariant
            n == sets@.len(),
            j <= n,
            forall|a: int, b: int|
                0 <= a < b < j ==> (#[trigger] sets@[a]).uuid != (#[trigger] sets@[b]).uuid,
            forall|a: int, b: int|
                0 <= a < b < j ==> (#[trigger] sets@[a]).caption@ != (#[trigger] sets@[b]).caption@,
        decreases n - j,
    {
        let mut i: usize = 0;
        while i < j
            invariant
                n == sets@.len(),
                i <= j < n,
                forall|a: int, b: int|
                    0 <= a < b < j ==> (#[trigger] sets@[a]).uuid != (#[trigger] sets@[b]).uuid,
                forall|a: int, b: int|
                    0 <= a < b < j ==> (#[trigger] sets@[a]).caption@ != (
                    #[trigger] sets@[b]).caption@,
                forall|a: int| 0 <= a < i ==> (#[trigger] sets@[a]).uuid != sets@[j as int].uuid,
                forall|a: int|
                    0 <= a < i ==> (#[trigger] sets@[a]).caption@ != sets@[j as int].caption@,
            decreases j - i,
        {
            if sets[i].uuid == sets[j].uuid || sets[i].caption == sets[j].caption {
                return false;
            }
            i += 1;
        }
        j += 1;
    }
    true
}

fn compatible(a: &SeriesRef, b: &SeriesRef) -> (r: bool)
    ensures
        r == refs_compatible(*a, *b),
{
    if a.series_uuid == b.series_uuid {
        if a.media_id == b.media_id {
            false
        } else {
            match a.series_no {
                SeriesNo::Ordered(x) => match b.series_no {
                    SeriesNo::Ordered(y) => x != y,
                    SeriesNo::Unordered => true,
                },
                SeriesNo::Unordered => true,
            }
        }
    } else {
        true
    }
}

/// Whether the series memberships meet their part of the invariant.
pub fn check_series_refs(medias: &Vec<MediaRow>, series: &Vec<MediaSet>, refs: &Vec<SeriesRef>) -> (r:
    bool)
    ensures
        r == series_refs_wf(medias@, series@, refs@),
{
    let n: usize = refs.len();
    let mut j: usize = 0;
    while j < n
        invariant
            n == refs@.len(),
            j <= n,
            forall|a: int|
                0 <= a < j ==> has_media(medias@, (#[trigger] refs@[a]).media_id) && has_set(
                    series@,
                    refs@[a].series_uuid,
                ),
            forall|a: int, b: int|
                0 <= a < b < j ==> refs_compatible(#[trigger] refs@[a], #[trigger] refs@[b]),
        decreases n - j,
    {
        if find_media(medias, refs[j].media_id).is_none() {
            return false;
        }
        if find_set(series, &refs[j].series_uuid).is_none() {
            return false;
        }
        let mut i: usize = 0;
        while i < j
            invariant
                n == refs@.len(),
                i <= j < n,
                forall|a: int, b: int|
                    0 <= a < b < j ==> refs_compatible(#[trigger] refs@[a], #[trigger] refs@[b]),
                forall|a: int| 0 <= a < i ==> refs_compatible(#[trigger] refs@[a], refs@[j as int]),
            decreases j - i,
        {
            if !compatible(&refs[i], &refs[j]) {
                return false;
            }
            i += 1;
        }
        j += 1;
    }
    true
}

/// Whether the tag memberships meet their part of the invariant.
pub fn check_tag_refs(medias: &Vec<MediaRow>, tags: &Vec<MediaSet>, refs: &Vec<TagRef>) -> (r: bool)
    ensures
        r == tag_refs_wf(medias@, tags@, refs@),
{
    let n: usize = refs.len();
    let mut j: usize = 0;
    while j < n
        invariant
            n == refs@.len(),
            j <= n,
            forall|a: int|
                0 <= a < j ==> has_media(medias@, (#[trigger] refs@[a]).media_id) && has_set(
                    tags@,
                    refs@[a].tag_uuid,
                ),
            forall|a: int, b: int| 0 <= a < b < j ==> (#[trigger] refs@[a]) != (#[trigger] refs@[b]),
        decreases n - j,
    {
        if find_media(medias, refs[j].media_id).is_none() {
            return false;
        }
        if find_set(tags, &refs[j].tag_uuid).is_none() {
            return false;
        }
        let mut i: usize = 0;
        while i < j
            invariant
                n == refs@.len(),
                i <= j < n,
                forall|a: int, b: int|
                    0 <= a < b < j ==> (#[trigger] refs@[a]) != (#[trigger] refs@[b]),
                forall|a: int| 0 <= a < i ==> (#[trigger] refs@[a]) != refs@[j as int],
            decreases j - i,
        {
            if refs[i].media_id == refs[j].media_id && refs[i].tag_uuid == refs[j].tag_uuid {
                return false;
            }
            i += 1;
        }
        j += 1;
    }
    true
}

/// Whether the source locations meet their part of the invariant.
pub fn check_locations(medias: &Vec<MediaRow>, locations: &Vec<LocationRef>) -> (r: bool)
    ensures
        r == locations_wf(medias@, locations@),
{
    let n: usize = locations.len();
    let mut j: usize = 0;
    while j < n
        invariant
            n == locations@.len(),
            j <= n,
            forall|a: int| 0 <= a < j ==> has_media(medias@, (#[trigger] locations@[a]).media_id),
            forall|a: int, b: int|
                0 <= a < b < j ==> !((#[trigger] locations@[a]).media_id == (
                #[trigger] locations@[b]).media_id && locations@[a].path@ == locations@[b].path@),
        decreases n - j,
    {
        if find_media(medias, locations[j].media_id).is_none() {
            return false;
        }
        let mut i: usize = 0;
        while i < j
            invariant
                n == locations@.len(),
                i <= j < n,
                forall|a: int, b: int|
                    0 <= a < b < j ==> !((#[trigger] locations@[a]).media_id == (
                    #[trigger] locations@[b]).media_id && locations@[a].path@
                        == locations@[b].path@),
                forall|a: int|
                    0 <= a < i ==> !((#[trigger] locations@[a]).media_id
                        == locations@[j as int].media_id && locations@[a].path@
                        == locations@[j as int].path@),
            decreases j - i,
        {
            if locations[i].media_id == locations[j].media_id && locations[i].path
                == locations[j].path {
                return false;
            }
            i += 1;
        }
        j += 1;
    }
    true
}

/// Whether the stored previews meet their part of the invariant.
pub fn check_thumbnails(thumbnails: &Vec<Thumbnail>) -> (r: bool)
    ensures
        r == thumbnails_wf(thumbnails@),
{
    let n: usize = thumbnails.len();
    let mut j: usize = 0;
    while j < n
        invariant
            n == thumbnails@.len(),
            j <= n,
            forall|a: int|
                0 <= a < j ==> 0 < (#[trigger] thumbnails@[a]).size == thumbnails@[a].image@.len(),
            forall|a: int, b: int|
                0 <= a < b < j ==> (#[trigger] thumbnails@[a]).hash@ != (
                #[trigger] thumbnails@[b]).hash@,
        decreases n - j,
    {
        if thumbnails[j].size == 0 || thumbnails[j].size != thumbnails[j].image.len() {
            return false;
        }
        let mut i: usize = 0;
        while i < j
            invariant
                n == thumbnails@.len(),
                i <= j < n,
                forall|a: int, b: int|
                    0 <= a < b < j ==> (#[trigger] thumbnails@[a]).hash@ != (
                    #[trigger] thumbnails@[b]).hash@,
                forall|a: int|
                    0 <= a < i ==> (#[trigger] thumbnails@[a]).hash@ != thumbnails@[j as int].hash@,
            decreases j - i,
        {
            if thumbnails[i].hash == thumbnails[j].hash {
                return false;
            }
            i += 1;
        }
        j += 1;
    }
    true
}

/// The sizes of the first rows do not add up to more than those of all.
pub proof fn lemma_total_size_prefix(medias: Seq<MediaRow>, k: int)
    requires
        0 <= k <= medias.len(),
    ensures
        total_size(medias.take(k)) <= total_size(medias),
    decreases medias.len() - k,
{
    if k < medias.len() {
        lemma_total_size_prefix(medias, k + 1);
        assert(medias.take(k + 1).drop_last() =~= medias.take(k));
    } else {
        assert(medias.take(k) =~= medias);
    }
}

/// Whether the counters say what the tables hold.
pub fn check_summary(
    summary: &LibrarySummary,
    medias: &Vec<MediaRow>,
    series: &Vec<MediaSet>,
    tags: &Vec<MediaSet>,
) -> (r: bool)
    ensures
        r == (summary.media_count == medias@.len() && summary.series_count == series@.len()
            && summary.tag_count == tags@.len() && summary.media_size == total_size(medias@)),
{
    if summary.media_count != medias.len() || summary.series_count != series.len()
        || summary.tag_count != tags.len() {
        return false;
    }
    let n: usize = medias.len();
    let mut sum: usize = 0;
    let mut i: usize = 0;
    assert(medias@.take(0) =~= Seq::<MediaRow>::empty());
    while i < n
        invariant
            n == medias@.len(),
            i <= n,
            sum == total_size(medias@.take(i as int)),
        decreases n - i,
    {
        proof {
            assert(medias@.take(i + 1).drop_last() =~= medias@.take(i as int));
            assert(medias@.take(i + 1).last() == medias@[i as int]);
            lemma_total_size_prefix(medias@, i + 1);
        }
        if sum > usize::MAX - medias[i].filesize {
            return false;
        }
        sum = sum + medias[i].filesize;
        i += 1;
    }
    assert(medias@.take(n as int) =~= medias@);
    sum == summary.media_size
}

impl Library {
    /// Checks the whole invariant of the catalog at run time.
    pub fn verify_integrity(&self) -> (r: bool)
        ensures
            r == self@.catalog.wf(),
    {
        check_medias(&self.medias, self.next_id, &self.hash_algo) && check_sets(&self.series)
            && check_sets(&self.tags) && check_series_refs(
            &self.medias,
            &self.series,
            &self.series_refs,
        ) && check_tag_refs(&self.medias, &self.tags, &self.tag_refs) && check_locations(
            &self.medias,
            &self.locations,
        ) && check_thumbnails(&self.thumbnails) && check_summary(
            &self.summary,
            &self.medias,
            &self.series,
            &self.tags,
        )
    }
}

} // verus!
