//! Samples by their presentation times.

use vstd::prelude::*;
use vstd::seq_lib::group_to_multiset_ensures;

use super::error::{Mp4Error, Result};
use super::sample_table::Sample;
use crate::h264::arithmetic::lemma_product_bound;
use crate::media::MediaTime;

verus! {

/// A sample may be sought: every one, or only sync samples.
pub open spec fn eligible(samples: Seq<Sample>, every: bool, index: int) -> bool {
    0 <= index < samples.len() && (every || samples[index].sync)
}

/// A presentation time with an offset, in ticks of both scales.
pub open spec fn scaled(sample: Sample, offset: int, scale: int) -> int {
    (sample.presentation_time + offset) * scale
}

/// How far a number is from another.
pub open spec fn distance(first: int, second: int) -> int {
    if first < second {
        second - first
    } else {
        first - second
    }
}

/// One of the samples has no presentation time with the offset.
pub open spec fn overflows(samples: Seq<Sample>, every: bool, offset: int) -> bool {
    exists|i: int|
        #[trigger] eligible(samples, every, i) && !(i64::MIN <= samples[i].presentation_time
            + offset <= i64::MAX)
}

/// The sample is the last one to be presented by `goal`, and the first in
/// decode order of those presented together.
pub open spec fn is_latest(
    samples: Seq<Sample>,
    every: bool,
    offset: int,
    scale: int,
    goal: int,
    found: Option<usize>,
) -> bool {
    match found {
        None => forall|j: int|
            #[trigger] eligible(samples, every, j) ==> scaled(samples[j], offset, scale) > goal,
        Some(i) => {
            &&& eligible(samples, every, i as int)
            &&& scaled(samples[i as int], offset, scale) <= goal
            &&& forall|j: int| #[trigger]
                eligible(samples, every, j) && scaled(samples[j], offset, scale) <= goal ==> {
                    ||| samples[j].presentation_time < samples[i as int].presentation_time
                    ||| samples[j].presentation_time == samples[i as int].presentation_time && i
                        <= j
                }
        },
    }
}

/// The sample is the first one to be presented at `goal` or later, and the
/// first in decode order of those presented together.
pub open spec fn is_earliest(
    samples: Seq<Sample>,
    every: bool,
    offset: int,
    scale: int,
    goal: int,
    found: Option<usize>,
) -> bool {
    match found {
        None => forall|j: int|
            #[trigger] eligible(samples, every, j) ==> scaled(samples[j], offset, scale) < goal,
        Some(i) => {
            &&& eligible(samples, every, i as int)
            &&& scaled(samples[i as int], offset, scale) >= goal
            &&& forall|j: int| #[trigger]
                eligible(samples, every, j) && scaled(samples[j], offset, scale) >= goal ==> {
                    ||| samples[j].presentation_time > samples[i as int].presentation_time
                    ||| samples[j].presentation_time == samples[i as int].presentation_time && i
                        <= j
                }
        },
    }
}

/// The sample is presented nearest to `goal`, before it rather than as far
/// behind it, and is the first in decode order of those presented together.
pub open spec fn is_nearest(
    samples: Seq<Sample>,
    every: bool,
    offset: int,
    scale: int,
    goal: int,
    found: Option<usize>,
) -> bool {
    match found {
        None => forall|j: int| !#[trigger] eligible(samples, every, j),
        Some(i) => {
            &&& eligible(samples, every, i as int)
            &&& forall|j: int| #[trigger]
                eligible(samples, every, j) ==> {
                    let near = distance(scaled(samples[i as int], offset, scale), goal);
                    let far = distance(scaled(samples[j], offset, scale), goal);
                    ||| near < far
                    ||| near == far && samples[i as int].presentation_time
                        < samples[j].presentation_time
                    ||| near == far && samples[i as int].presentation_time
                        == samples[j].presentation_time && i <= j
                }
        },
    }
}

/// The sync samples among the first `count`, in decode order.
pub open spec fn sync_among(samples: Seq<Sample>, count: int) -> Seq<usize>
    decreases count,
{
    if count <= 0 {
        Seq::empty()
    } else if samples[count - 1].sync {
        sync_among(samples, count - 1).push((count - 1) as usize)
    } else {
        sync_among(samples, count - 1)
    }
}

/// The sync samples, in decode order.
pub open spec fn sync_indices(samples: Seq<Sample>) -> Seq<usize> {
    sync_among(samples, samples.len() as int)
}

/// The sync samples in the order in which they are presented.
pub open spec fn ordered_sync(samples: Seq<Sample>, ordered: Seq<usize>) -> bool {
    &&& forall|k: int|
        0 <= k < ordered.len() ==> eligible(samples, false, (#[trigger] ordered[k]) as int)
    &&& forall|i: int| #[trigger]
        eligible(samples, false, i) ==> exists|k: int| 0 <= k < ordered.len() && ordered[k] == i
    &&& forall|a: int, b: int|
        0 <= a < b < ordered.len() ==> in_turn(samples, #[trigger] ordered[a], #[trigger] ordered[b])
}

/// One sample comes no later than another.
pub open spec fn in_turn(samples: Seq<Sample>, first: usize, second: usize) -> bool {
    ||| samples[first as int].presentation_time < samples[second as int].presentation_time
    ||| samples[first as int].presentation_time == samples[second as int].presentation_time
        && first <= second
}

/// The indices of the sync samples, in decode order.
pub fn sync_samples(samples: &Vec<Sample>) -> (indices: Vec<usize>)
    ensures
        indices@ == sync_indices(samples@),
        samples@.len() <= usize::MAX,
{
    let mut indices: Vec<usize> = Vec::new();
    let mut index: usize = 0;
    assert(indices@ =~= sync_among(samples@, 0));
    while index < samples.len()
        invariant
            index <= samples@.len(),
            indices@ == sync_among(samples@, index as int),
        decreases samples@.len() - index,
    {
        if samples[index].sync {
            indices.push(index);
        }
        index = index + 1;
    }
    indices
}

/// The sync samples are those that are sync.
pub proof fn lemma_sync_among(samples: Seq<Sample>, count: int)
    requires
        count <= samples.len() <= usize::MAX,
    ensures
        forall|k: int|
            0 <= k < sync_among(samples, count).len() ==> eligible(
                samples,
                false,
                (#[trigger] sync_among(samples, count)[k]) as int,
            ),
        forall|i: int| #[trigger]
            eligible(samples, false, i) && i < count ==> exists|k: int|
                0 <= k < sync_among(samples, count).len() && sync_among(samples, count)[k] == i,
    decreases count,
{
    if count > 0 {
        lemma_sync_among(samples, count - 1);
        let before = sync_among(samples, count - 1);
        let after = sync_among(samples, count);
        assert forall|i: int| #[trigger]
            eligible(samples, false, i) && i < count implies exists|k: int|
            0 <= k < after.len() && after[k] == i by {
            if i < count - 1 {
                let k = choose|k: int| 0 <= k < before.len() && before[k] == i;
                assert(after[k] == i);
            } else {
                assert(after[after.len() - 1] == i);
            }
        }
    }
}

/// Pairs in lexicographic order.
pub open spec fn sorted_pairs(pairs: Seq<(i64, usize)>) -> bool {
    forall|a: int, b: int|
        0 <= a < b < pairs.len() ==> (#[trigger] pairs[a]).0 < (#[trigger] pairs[b]).0
            || pairs[a].0 == pairs[b].0 && pairs[a].1 <= pairs[b].1
}

/// `slice::sort_unstable` on pairs of integers: the same pairs, in
/// lexicographic order.
#[verifier::external_body]
fn sort_pairs(pairs: &mut Vec<(i64, usize)>)
    ensures
        final(pairs)@.to_multiset() == old(pairs)@.to_multiset(),
        sorted_pairs(final(pairs)@),
{
    pairs.sort_unstable();
}

/// The indices of the sync samples in the order in which they are presented.
pub fn order_by_presentation(samples: &Vec<Sample>, indices: &Vec<usize>) -> (ordered: Vec<usize>)
    requires
        indices@ == sync_indices(samples@),
        samples@.len() <= usize::MAX,
    ensures
        ordered_sync(samples@, ordered@),
{
    proof {
        lemma_sync_among(samples@, samples@.len() as int);
    }
    let count: usize = indices.len();
    let mut pairs: Vec<(i64, usize)> = Vec::with_capacity(count);
    let mut index: usize = 0;
    while index < count
        invariant
            index <= count == indices@.len(),
            forall|k: int|
                0 <= k < indices@.len() ==> eligible(
                    samples@,
                    false,
                    (#[trigger] indices@[k]) as int,
                ),
            pairs@.len() == index,
            forall|k: int|
                0 <= k < index ==> (#[trigger] pairs@[k]).1 == indices@[k] && pairs@[k].0
                    == samples@[indices@[k] as int].presentation_time,
        decreases count - index,
    {
        let sample_index: usize = indices[index];
        assert(eligible(samples@, false, indices@[index as int] as int));
        pairs.push((samples[sample_index].presentation_time, sample_index));
        index = index + 1;
    }
    let ghost before = pairs@;
    sort_pairs(&mut pairs);
    proof {
        broadcast use group_to_multiset_ensures;

        assert forall|k: int| 0 <= k < pairs@.len() implies eligible(
            samples@,
            false,
            (#[trigger] pairs@[k]).1 as int,
        ) && pairs@[k].0 == samples@[pairs@[k].1 as int].presentation_time by {
            assert(pairs@.contains(pairs@[k]));
            assert(pairs@.to_multiset().count(pairs@[k]) > 0);
            assert(before.to_multiset().count(pairs@[k]) > 0);
            assert(before.contains(pairs@[k]));
            let m = choose|m: int| 0 <= m < before.len() && before[m] == pairs@[k];
            assert(before[m].1 == indices@[m]);
            assert(eligible(samples@, false, indices@[m] as int));
        }
        assert forall|i: int| #[trigger] eligible(samples@, false, i) implies exists|k: int|
            0 <= k < pairs@.len() && (#[trigger] pairs@[k]).1 == i by {
            let m = choose|m: int| 0 <= m < indices@.len() && indices@[m] == i;
            assert(before.contains(before[m]));
            assert(before.to_multiset().count(before[m]) > 0);
            assert(pairs@.contains(before[m]));
            let k = choose|k: int| 0 <= k < pairs@.len() && pairs@[k] == before[m];
            assert(pairs@[k].1 == i);
        }
    }
    let total: usize = pairs.len();
    let mut ordered: Vec<usize> = Vec::with_capacity(total);
    let mut index: usize = 0;
    while index < total
        invariant
            index <= total == pairs@.len(),
            ordered@.len() == index,
            forall|k: int| 0 <= k < index ==> #[trigger] ordered@[k] == pairs@[k].1,
        decreases total - index,
    {
        ordered.push(pairs[index].1);
        index = index + 1;
    }
    proof {
        assert forall|i: int| #[trigger] eligible(samples@, false, i) implies exists|k: int|
            0 <= k < ordered@.len() && ordered@[k] == i by {
            let k = choose|k: int| 0 <= k < pairs@.len() && (#[trigger] pairs@[k]).1 == i;
            assert(ordered@[k] == i);
        }
        assert forall|a: int, b: int| 0 <= a < b < ordered@.len() implies in_turn(
            samples@,
            #[trigger] ordered@[a],
            #[trigger] ordered@[b],
        ) by {
            assert(pairs@[a].1 == ordered@[a] && pairs@[b].1 == ordered@[b]);
        }
        assert forall|k: int| 0 <= k < ordered@.len() implies eligible(
            samples@,
            false,
            (#[trigger] ordered@[k]) as int,
        ) by {
            assert(pairs@[k].1 == ordered@[k]);
        }
    }
    ordered
}

/// Later times are larger in any scale.
pub proof fn lemma_scaled_order(first: Sample, second: Sample, offset: int, scale: int)
    requires
        scale > 0,
    ensures
        first.presentation_time <= second.presentation_time ==> scaled(first, offset, scale)
            <= scaled(second, offset, scale),
        first.presentation_time < second.presentation_time ==> scaled(first, offset, scale)
            < scaled(second, offset, scale),
{
    let a = first.presentation_time + offset;
    let b = second.presentation_time + offset;
    assert((a <= b ==> a * scale <= b * scale) && (a < b ==> a * scale < b * scale))
        by (nonlinear_arith)
        requires
            scale > 0,
    ;
}

fn scaled_time(sample: Sample, offset: i64, scale: u32) -> (time: i128)
    ensures
        time == scaled(sample, offset as int, scale as int),
        -0x1_0000_0000_0000_0000_0000_0000 <= time <= 0x1_0000_0000_0000_0000_0000_0000,
{
    let adjusted: i128 = sample.presentation_time as i128 + offset as i128;
    proof {
        lemma_product_bound(
            adjusted as int,
            scale as int,
            0x1_0000_0000_0000_0000,
            0x1_0000_0000,
        );
    }
    adjusted * scale as i128
}

/// A target time in ticks of both scales.
pub open spec fn goal_of(target: MediaTime, media_timescale: int) -> int {
    target.value * media_timescale
}

/// A target time in ticks of both scales.
pub fn scaled_goal(target: MediaTime, media_timescale: u32) -> (goal: i128)
    ensures
        goal == goal_of(target, media_timescale as int),
        -0x1_0000_0000_0000_0000_0000_0000 < goal < 0x1_0000_0000_0000_0000_0000_0000,
{
    proof {
        lemma_product_bound(
            target.value as int,
            media_timescale as int,
            0x8000_0000_0000_0000,
            0x1_0000_0000,
        );
    }
    target.value as i128 * media_timescale as i128
}

/// How many of the ordered samples are presented before `limit`.
fn count_before(
    samples: &Vec<Sample>,
    ordered: &Vec<usize>,
    offset: i64,
    scale: u32,
    limit: i128,
) -> (position: usize)
    requires
        ordered_sync(samples@, ordered@),
        scale > 0,
    ensures
        position <= ordered@.len(),
        forall|k: int|
            0 <= k < position ==> scaled(
                samples@[(#[trigger] ordered@[k]) as int],
                offset as int,
                scale as int,
            ) < limit,
        forall|k: int|
            position <= k < ordered@.len() ==> scaled(
                samples@[(#[trigger] ordered@[k]) as int],
                offset as int,
                scale as int,
            ) >= limit,
{
    let mut low: usize = 0;
    let mut high: usize = ordered.len();
    while low < high
        invariant
            ordered_sync(samples@, ordered@),
            scale > 0,
            low <= high <= ordered@.len(),
            forall|k: int|
                0 <= k < low ==> scaled(
                    samples@[(#[trigger] ordered@[k]) as int],
                    offset as int,
                    scale as int,
                ) < limit,
            forall|k: int|
                high <= k < ordered@.len() ==> scaled(
                    samples@[(#[trigger] ordered@[k]) as int],
                    offset as int,
                    scale as int,
                ) >= limit,
        decreases high - low,
    {
        let middle: usize = low + (high - low) / 2;
        assert(eligible(samples@, false, ordered@[middle as int] as int));
        let sample = samples[ordered[middle]];
        let before: bool = scaled_time(sample, offset, scale) < limit;
        proof {
            assert forall|k: int| 0 <= k < ordered@.len() implies {
                &&& k <= middle ==> scaled(
                    samples@[(#[trigger] ordered@[k]) as int],
                    offset as int,
                    scale as int,
                ) <= scaled(sample, offset as int, scale as int)
                &&& k >= middle ==> scaled(
                    samples@[ordered@[k] as int],
                    offset as int,
                    scale as int,
                ) >= scaled(sample, offset as int, scale as int)
            } by {
                let other = samples@[ordered@[k] as int];
                lemma_scaled_order(other, sample, offset as int, scale as int);
                lemma_scaled_order(sample, other, offset as int, scale as int);
                if k < middle {
                    assert(in_turn(samples@, ordered@[k], ordered@[middle as int]));
                }
                if k > middle {
                    assert(in_turn(samples@, ordered@[middle as int], ordered@[k]));
                }
            }
        }
        if before {
            low = middle + 1;
        } else {
            high = middle;
        }
    }
    low
}

/// A sync sample stands somewhere in the order.
proof fn lemma_place_in_order(samples: Seq<Sample>, ordered: Seq<usize>, index: int) -> (place: int)
    requires
        ordered_sync(samples, ordered),
        eligible(samples, false, index),
    ensures
        0 <= place < ordered.len(),
        ordered[place] == index,
{
    choose|k: int| 0 <= k < ordered.len() && ordered[k] == index
}

/// Refuses an offset that takes a sync sample out of range.
pub fn check_sync_range(samples: &Vec<Sample>, ordered: &Vec<usize>, offset: i64) -> (result: Result<
    (),
>)
    requires
        ordered_sync(samples@, ordered@),
    ensures
        result == if overflows(samples@, false, offset as int) {
            Err::<(), Mp4Error>(Mp4Error::IntegerOverflow)
        } else {
            Ok(())
        },
{
    let count: usize = ordered.len();
    if count == 0 {
        proof {
            if overflows(samples@, false, offset as int) {
                let i = choose|i: int|
                    #[trigger] eligible(samples@, false, i) && !(i64::MIN
                        <= samples@[i].presentation_time + offset <= i64::MAX);
                let place = lemma_place_in_order(samples@, ordered@, i);
            }
        }
        return Ok(());
    }
    assert(eligible(samples@, false, ordered@[0] as int));
    assert(eligible(samples@, false, ordered@[count - 1] as int));
    let first: i64 = samples[ordered[0]].presentation_time;
    let last: i64 = samples[ordered[count - 1]].presentation_time;
    if first.checked_add(offset).is_none() || last.checked_add(offset).is_none() {
        return Err(Mp4Error::IntegerOverflow);
    }
    proof {
        assert forall|i: int| #[trigger] eligible(samples@, false, i) implies i64::MIN
            <= samples@[i].presentation_time + offset <= i64::MAX by {
            let place = lemma_place_in_order(samples@, ordered@, i);
            if place > 0 {
                assert(in_turn(samples@, ordered@[0], ordered@[place]));
            }
            if place < count - 1 {
                assert(in_turn(samples@, ordered@[place], ordered@[count - 1]));
            }
        }
    }
    Ok(())
}

/// The first of the ordered samples that are presented together with the last
/// of the first `position`.
fn first_together(
    samples: &Vec<Sample>,
    ordered: &Vec<usize>,
    offset: i64,
    scale: u32,
    position: usize,
) -> (index: usize)
    requires
        ordered_sync(samples@, ordered@),
        scale > 0,
        0 < position <= ordered@.len(),
    ensures
        eligible(samples@, false, index as int),
        samples@[index as int].presentation_time == samples@[ordered@[position - 1] as int].presentation_time,
        forall|k: int|
            0 <= k < position ==> {
                ||| samples@[(#[trigger] ordered@[k]) as int].presentation_time
                    < samples@[index as int].presentation_time
                ||| samples@[ordered@[k] as int].presentation_time
                    == samples@[index as int].presentation_time && index <= ordered@[k]
            },
{
    assert(eligible(samples@, false, ordered@[position - 1] as int));
    let candidate = samples[ordered[position - 1]];
    let limit: i128 = scaled_time(candidate, offset, scale);
    let first: usize = count_before(samples, ordered, offset, scale, limit);
    proof {
        assert(first <= position - 1);
        let chosen = ordered@[first as int];
        assert(eligible(samples@, false, chosen as int));
        lemma_scaled_order(samples@[chosen as int], candidate, offset as int, scale as int);
        if first < position - 1 {
            assert(in_turn(samples@, chosen, ordered@[position - 1]));
        }
        assert forall|k: int| 0 <= k < position implies {
            ||| samples@[(#[trigger] ordered@[k]) as int].presentation_time
                < samples@[chosen as int].presentation_time
            ||| samples@[ordered@[k] as int].presentation_time
                == samples@[chosen as int].presentation_time && chosen <= ordered@[k]
        } by {
            let other = samples@[ordered@[k] as int];
            lemma_scaled_order(candidate, other, offset as int, scale as int);
            if k < position - 1 {
                assert(in_turn(samples@, ordered@[k], ordered@[position - 1]));
            }
            if k > first {
                assert(in_turn(samples@, chosen, ordered@[k]));
            }
        }
    }
    ordered[first]
}

/// The last sync sample to be presented by `goal`.
pub fn latest_sync(
    samples: &Vec<Sample>,
    ordered: &Vec<usize>,
    offset: i64,
    scale: u32,
    goal: i128,
) -> (found: Option<usize>)
    requires
        ordered_sync(samples@, ordered@),
        scale > 0,
        goal < i128::MAX,
    ensures
        is_latest(samples@, false, offset as int, scale as int, goal as int, found),
{
    let position: usize = count_before(samples, ordered, offset, scale, goal + 1);
    if position == 0 {
        proof {
            assert forall|j: int| #[trigger] eligible(samples@, false, j) implies scaled(
                samples@[j],
                offset as int,
                scale as int,
            ) > goal by {
                lemma_place_in_order(samples@, ordered@, j);
            }
        }
        return None;
    }
    let index: usize = first_together(samples, ordered, offset, scale, position);
    proof {
        let last = samples@[ordered@[position - 1] as int];
        lemma_scaled_order(samples@[index as int], last, offset as int, scale as int);
        assert forall|j: int| #[trigger]
            eligible(samples@, false, j) && scaled(samples@[j], offset as int, scale as int)
                <= goal implies {
            ||| samples@[j].presentation_time < samples@[index as int].presentation_time
            ||| samples@[j].presentation_time == samples@[index as int].presentation_time && index
                <= j
        } by {
            let place = lemma_place_in_order(samples@, ordered@, j);
            assert(place < position);
            assert(ordered@[place] == j);
        }
    }
    Some(index)
}

/// The sample at a place of the order is the first of those behind it.
proof fn lemma_first_behind(
    samples: Seq<Sample>,
    ordered: Seq<usize>,
    offset: int,
    scale: int,
    limit: int,
    position: int,
)
    requires
        ordered_sync(samples, ordered),
        0 <= position < ordered.len(),
        scaled(samples[ordered[position] as int], offset, scale) >= limit,
        forall|k: int|
            0 <= k < position ==> scaled(samples[(#[trigger] ordered[k]) as int], offset, scale)
                < limit,
    ensures
        is_earliest(samples, false, offset, scale, limit, Some(ordered[position])),
{
    let chosen = ordered[position];
    assert(eligible(samples, false, chosen as int));
    assert forall|j: int| #[trigger]
        eligible(samples, false, j) && scaled(samples[j], offset, scale) >= limit implies {
        ||| samples[j].presentation_time > samples[chosen as int].presentation_time
        ||| samples[j].presentation_time == samples[chosen as int].presentation_time && chosen <= j
    } by {
        let place = lemma_place_in_order(samples, ordered, j);
        if place < position {
            assert(scaled(samples[ordered[place] as int], offset, scale) < limit);
        }
        if place > position {
            assert(in_turn(samples, ordered[position], ordered[place]));
        }
    }
}

/// The first sync sample to be presented at `goal` or later.
pub fn earliest_sync(
    samples: &Vec<Sample>,
    ordered: &Vec<usize>,
    offset: i64,
    scale: u32,
    goal: i128,
) -> (found: Option<usize>)
    requires
        ordered_sync(samples@, ordered@),
        scale > 0,
    ensures
        is_earliest(samples@, false, offset as int, scale as int, goal as int, found),
{
    let position: usize = count_before(samples, ordered, offset, scale, goal);
    if position == ordered.len() {
        proof {
            assert forall|j: int| #[trigger] eligible(samples@, false, j) implies scaled(
                samples@[j],
                offset as int,
                scale as int,
            ) < goal by {
                lemma_place_in_order(samples@, ordered@, j);
            }
        }
        return None;
    }
    proof {
        lemma_first_behind(
            samples@,
            ordered@,
            offset as int,
            scale as int,
            goal as int,
            position as int,
        );
    }
    Some(ordered[position])
}

/// The nearer of the last before a time and the first behind it is the nearest.
proof fn lemma_nearest(
    samples: Seq<Sample>,
    offset: int,
    scale: int,
    goal: int,
    before: Option<usize>,
    after: Option<usize>,
)
    requires
        scale > 0,
        is_latest(samples, false, offset, scale, goal - 1, before),
        is_earliest(samples, false, offset, scale, goal, after),
    ensures
        match (before, after) {
            (None, _) => is_nearest(samples, false, offset, scale, goal, after),
            (_, None) => is_nearest(samples, false, offset, scale, goal, before),
            (Some(b), Some(a)) => if distance(scaled(samples[b as int], offset, scale), goal)
                <= distance(scaled(samples[a as int], offset, scale), goal) {
                is_nearest(samples, false, offset, scale, goal, before)
            } else {
                is_nearest(samples, false, offset, scale, goal, after)
            },
        },
{
    let chosen = match (before, after) {
        (None, _) => after,
        (_, None) => before,
        (Some(b), Some(a)) => if distance(scaled(samples[b as int], offset, scale), goal)
            <= distance(scaled(samples[a as int], offset, scale), goal) {
            before
        } else {
            after
        },
    };
    if let Some(i) = chosen {
        assert(eligible(samples, false, i as int));
        assert forall|j: int| #[trigger] eligible(samples, false, j) implies {
            let near = distance(scaled(samples[i as int], offset, scale), goal);
            let far = distance(scaled(samples[j], offset, scale), goal);
            ||| near < far
            ||| near == far && samples[i as int].presentation_time < samples[j].presentation_time
            ||| near == far && samples[i as int].presentation_time == samples[j].presentation_time
                && i <= j
        } by {
            if let Some(b) = before {
                lemma_scaled_order(samples[b as int], samples[j], offset, scale);
                lemma_scaled_order(samples[j], samples[b as int], offset, scale);
            }
            if let Some(a) = after {
                lemma_scaled_order(samples[a as int], samples[j], offset, scale);
                lemma_scaled_order(samples[j], samples[a as int], offset, scale);
            }
        }
    }
}

/// The sync sample that is presented nearest to `goal`.
pub fn nearest_sync(
    samples: &Vec<Sample>,
    ordered: &Vec<usize>,
    offset: i64,
    scale: u32,
    goal: i128,
) -> (found: Option<usize>)
    requires
        ordered_sync(samples@, ordered@),
        scale > 0,
        -0x1_0000_0000_0000_0000_0000_0000 < goal < 0x1_0000_0000_0000_0000_0000_0000,
    ensures
        is_nearest(samples@, false, offset as int, scale as int, goal as int, found),
{
    let before = latest_sync(samples, ordered, offset, scale, goal - 1);
    let after = earliest_sync(samples, ordered, offset, scale, goal);
    proof {
        lemma_nearest(samples@, offset as int, scale as int, goal as int, before, after);
    }
    match (before, after) {
        (None, _) => after,
        (Some(_), None) => before,
        (Some(earlier), Some(later)) => {
            let before_distance: i128 = goal - scaled_time(samples[earlier], offset, scale);
            let after_distance: i128 = scaled_time(samples[later], offset, scale) - goal;
            if before_distance <= after_distance {
                before
            } else {
                after
            }
        },
    }
}

/// The last sample to be presented by `goal`, or the refusal of an offset that
/// takes a sample out of range.
pub fn latest_sample(samples: &Vec<Sample>, offset: i64, scale: u32, goal: i128) -> (result: Result<
    Option<usize>,
>)
    requires
        scale > 0,
    ensures
        if overflows(samples@, true, offset as int) {
            result == Err::<Option<usize>, Mp4Error>(Mp4Error::IntegerOverflow)
        } else {
            result matches Ok(found) && is_latest(
                samples@,
                true,
                offset as int,
                scale as int,
                goal as int,
                found,
            )
        },
{
    let mut found: Option<usize> = None;
    let mut index: usize = 0;
    while index < samples.len()
        invariant
            index <= samples@.len(),
            scale > 0,
            forall|j: int|
                0 <= j < index ==> i64::MIN <= #[trigger] samples@[j].presentation_time + offset
                    <= i64::MAX,
            match found {
                None => forall|j: int|
                    0 <= j < index ==> scaled(
                        #[trigger] samples@[j],
                        offset as int,
                        scale as int,
                    ) > goal,
                Some(i) => {
                    &&& i < index
                    &&& scaled(samples@[i as int], offset as int, scale as int) <= goal
                    &&& forall|j: int|
                        0 <= j < index && scaled(
                            #[trigger] samples@[j],
                            offset as int,
                            scale as int,
                        ) <= goal ==> {
                            ||| samples@[j].presentation_time
                                < samples@[i as int].presentation_time
                            ||| samples@[j].presentation_time
                                == samples@[i as int].presentation_time && i <= j
                        }
                },
            },
        decreases samples@.len() - index,
    {
        let sample = samples[index];
        if sample.presentation_time.checked_add(offset).is_none() {
            assert(eligible(samples@, true, index as int));
            return Err(Mp4Error::IntegerOverflow);
        }
        if scaled_time(sample, offset, scale) <= goal {
            let later: bool = match found {
                None => true,
                Some(i) => samples[i].presentation_time < sample.presentation_time,
            };
            if later {
                found = Some(index);
            }
        }
        index = index + 1;
    }
    Ok(found)
}

/// What is sought is one sample or none, whoever looks for it.
pub proof fn law_sought_samples_are_unique(
    samples: Seq<Sample>,
    every: bool,
    offset: int,
    scale: int,
    goal: int,
    first: Option<usize>,
    second: Option<usize>,
)
    ensures
        is_latest(samples, every, offset, scale, goal, first) && is_latest(
            samples,
            every,
            offset,
            scale,
            goal,
            second,
        ) ==> first == second,
        is_earliest(samples, every, offset, scale, goal, first) && is_earliest(
            samples,
            every,
            offset,
            scale,
            goal,
            second,
        ) ==> first == second,
        is_nearest(samples, every, offset, scale, goal, first) && is_nearest(
            samples,
            every,
            offset,
            scale,
            goal,
            second,
        ) ==> first == second,
{
}

/// The nearest sample is the last before a time or the first from it on.
pub proof fn law_nearest_is_a_neighbour(
    samples: Seq<Sample>,
    offset: int,
    scale: int,
    goal: int,
    before: Option<usize>,
    after: Option<usize>,
    nearest: Option<usize>,
)
    requires
        scale > 0,
        is_latest(samples, false, offset, scale, goal - 1, before),
        is_earliest(samples, false, offset, scale, goal, after),
        is_nearest(samples, false, offset, scale, goal, nearest),
    ensures
        nearest == before || nearest == after,
{
    lemma_nearest(samples, offset, scale, goal, before, after);
    law_sought_samples_are_unique(samples, false, offset, scale, goal, nearest, before);
    law_sought_samples_are_unique(samples, false, offset, scale, goal, nearest, after);
}

} // verus!
