//! Bounded picture-order-count output reordering.
//!
//! H.264 references are decoded before pictures that depend on them, so decode
//! order can differ from display order. This buffer is deliberately separate
//! from the decoded picture buffer: the DPB owns prediction references, while
//! this component owns pictures waiting to be presented.

use vstd::multiset::Multiset;
use vstd::prelude::*;

use super::error::{H264Error, Result};

verus! {

#[derive(Debug)]
struct PendingOutput<T> {
    picture_order_count: i32,
    value: T,
}

/// Holds at most the signalled reorder depth before releasing the lowest POC.
#[derive(Debug)]
pub struct PictureReorderBuffer<T> {
    max_num_reorder_frames: usize,
    next_decode_index: u64,
    pending: Vec<PendingOutput<T>>,
}

/// The index of the entry with the lowest picture order count, the earliest
/// of several.
pub open spec fn lowest<T>(pending: Seq<(i32, T)>) -> int
    decreases pending.len(),
{
    if pending.len() <= 1 {
        0
    } else {
        let before = lowest(pending.drop_last());
        if pending.last().0 < pending[before].0 {
            pending.len() - 1
        } else {
            before
        }
    }
}

/// The entries in display order: by picture order count, and in decode order
/// where that is equal.
pub open spec fn display_entries<T>(pending: Seq<(i32, T)>) -> Seq<(i32, T)>
    decreases pending.len(),
{
    if pending.len() == 0 {
        Seq::empty()
    } else {
        let index = lowest(pending);
        if 0 <= index < pending.len() {
            seq![pending[index]] + display_entries(pending.remove(index))
        } else {
            Seq::empty()
        }
    }
}

/// The values in display order.
pub open spec fn display_order<T>(pending: Seq<(i32, T)>) -> Seq<T> {
    display_entries(pending).map_values(|entry: (i32, T)| entry.1)
}

/// Where the lowest entry is, and that it is the lowest and the earliest.
proof fn lemma_lowest<T>(pending: Seq<(i32, T)>)
    requires
        pending.len() > 0,
    ensures
        0 <= lowest(pending) < pending.len(),
        forall|i: int|
            #![trigger pending[i]]
            0 <= i < pending.len() ==> pending[lowest(pending)].0 <= pending[i].0,
        forall|i: int|
            #![trigger pending[i]]
            0 <= i < lowest(pending) ==> pending[lowest(pending)].0 < pending[i].0,
    decreases pending.len(),
{
    if pending.len() > 1 {
        let front = pending.drop_last();
        lemma_lowest(front);
        assert forall|i: int| #![trigger pending[i]] 0 <= i < pending.len() implies pending[lowest(
            pending,
        )].0 <= pending[i].0 by {
            if i < front.len() {
                assert(front[i] == pending[i]);
            }
        }
        assert forall|i: int| #![trigger pending[i]] 0 <= i < lowest(pending) implies pending[lowest(
            pending,
        )].0 < pending[i].0 by {
            assert(front[i] == pending[i]);
        }
    }
}

impl<T> PictureReorderBuffer<T> {
    /// The delayed pictures with their picture order counts, in decode order.
    pub closed spec fn delayed(&self) -> Seq<(i32, T)> {
        self.pending@.map_values(
            |entry: PendingOutput<T>| (entry.picture_order_count, entry.value),
        )
    }

    /// How many pictures may be delayed.
    pub closed spec fn depth(&self) -> nat {
        self.max_num_reorder_frames as nat
    }

    /// How many pictures came in since the beginning or the last clearing.
    pub closed spec fn decoded(&self) -> nat {
        self.next_decode_index as nat
    }

    pub fn new(max_num_reorder_frames: usize) -> (buffer: Self)
        ensures
            buffer.delayed() == Seq::<(i32, T)>::empty(),
            buffer.depth() == max_num_reorder_frames,
            buffer.decoded() == 0,
    {
        let buffer = PictureReorderBuffer {
            max_num_reorder_frames,
            next_decode_index: 0,
            pending: Vec::new(),
        };
        assert(buffer.delayed() =~= Seq::<(i32, T)>::empty());
        buffer
    }

    /// Adds one decoded picture and returns the next displayable value once
    /// the configured reorder depth is exceeded.
    pub fn push(&mut self, picture_order_count: i32, value: T) -> (result: Result<Option<T>>)
        ensures
            final(self).depth() == old(self).depth(),
            old(self).decoded() == u64::MAX ==> result == Err::<Option<T>, H264Error>(
                H264Error::IntegerOverflow,
            ) && final(self).delayed() == old(self).delayed() && final(self).decoded()
                == old(self).decoded(),
            old(self).decoded() < u64::MAX ==> {
                let all = old(self).delayed().push((picture_order_count, value));
                &&& final(self).decoded() == old(self).decoded() + 1
                &&& if all.len() <= old(self).depth() {
                    result == Ok::<Option<T>, H264Error>(None) && final(self).delayed() == all
                } else {
                    result == Ok::<Option<T>, H264Error>(Some(all[lowest(all)].1))
                        && final(self).delayed() == all.remove(lowest(all))
                }
            },
    {
        if self.next_decode_index == u64::MAX {
            return Err(H264Error::IntegerOverflow);
        }
        self.next_decode_index = self.next_decode_index + 1;
        self.pending.push(PendingOutput { picture_order_count, value });
        proof {
            assert(self.delayed() =~= old(self).delayed().push((picture_order_count, value)));
        }
        if self.pending.len() <= self.max_num_reorder_frames {
            return Ok(None);
        }
        Ok(Some(self.remove_lowest_poc()))
    }

    /// Releases every delayed picture in display order.
    pub fn drain(&mut self) -> (values: Vec<T>)
        ensures
            values@ == display_order(old(self).delayed()),
            final(self).delayed() == Seq::<(i32, T)>::empty(),
            final(self).depth() == old(self).depth(),
            final(self).decoded() == old(self).decoded(),
    {
        let mut values: Vec<T> = Vec::with_capacity(self.pending.len());
        assert(Seq::<T>::empty() + display_order(self.delayed()) =~= display_order(self.delayed()));
        while self.pending.len() > 0
            invariant
                values@ + display_order(self.delayed()) == display_order(old(self).delayed()),
                self.depth() == old(self).depth(),
                self.decoded() == old(self).decoded(),
            decreases self.pending@.len(),
        {
            let ghost before = self.delayed();
            let ghost values_before = values@;
            proof {
                lemma_lowest(before);
            }
            let value = self.remove_lowest_poc();
            values.push(value);
            proof {
                assert(display_order(before) =~= seq![value] + display_order(self.delayed()));
                assert(values_before + (seq![value] + display_order(self.delayed())) =~= values@
                    + display_order(self.delayed()));
            }
        }
        proof {
            assert(self.delayed() =~= Seq::<(i32, T)>::empty());
            assert(display_order(self.delayed()) =~= Seq::<T>::empty());
            assert(values@ + Seq::<T>::empty() =~= values@);
        }
        values
    }

    /// Drops delayed output after a discontinuity or an IDR instruction that
    /// suppresses prior pictures.
    pub fn clear(&mut self)
        ensures
            final(self).delayed() == Seq::<(i32, T)>::empty(),
            final(self).depth() == old(self).depth(),
            final(self).decoded() == 0,
    {
        self.pending.clear();
        self.next_decode_index = 0;
        assert(self.delayed() =~= Seq::<(i32, T)>::empty());
    }

    fn remove_lowest_poc(&mut self) -> (value: T)
        requires
            old(self).pending@.len() > 0,
        ensures
            value == old(self).delayed()[lowest(old(self).delayed())].1,
            final(self).delayed() == old(self).delayed().remove(lowest(old(self).delayed())),
            final(self).pending@.len() == old(self).pending@.len() - 1,
            final(self).depth() == old(self).depth(),
            final(self).decoded() == old(self).decoded(),
    {
        let ghost all = self.delayed();
        let mut best: usize = 0;
        let mut index: usize = 1;
        assert(lowest(all.take(1)) == 0);
        while index < self.pending.len()
            invariant
                all == self.delayed(),
                1 <= index <= self.pending@.len(),
                best < index,
                best == lowest(all.take(index as int)),
            decreases self.pending@.len() - index,
        {
            proof {
                assert(all.take(index + 1).drop_last() =~= all.take(index as int));
            }
            if self.pending[index].picture_order_count < self.pending[best].picture_order_count {
                best = index;
            }
            index = index + 1;
        }
        assert(all.take(index as int) =~= all);
        let entry = self.pending.remove(best);
        assert(self.delayed() =~= all.remove(best as int));
        entry.value
    }
}

/// The picture that leaves is never shown after one that stays: no delayed
/// picture has a lower picture order count, and none that came before it has
/// the same.
pub proof fn law_lowest_leaves_first<T>(pending: Seq<(i32, T)>, index: int)
    requires
        0 <= index < pending.len(),
    ensures
        pending[lowest(pending)].0 <= pending[index].0,
        index < lowest(pending) ==> pending[lowest(pending)].0 < pending[index].0,
{
    lemma_lowest(pending);
}

/// Draining loses and invents no picture.
pub proof fn law_drain_keeps_every_picture<T>(pending: Seq<(i32, T)>)
    ensures
        display_entries(pending).to_multiset() == pending.to_multiset(),
    decreases pending.len(),
{
    broadcast use vstd::seq_lib::group_to_multiset_ensures;

    if pending.len() == 0 {
        assert(pending =~= display_entries(pending));
    } else {
        lemma_lowest(pending);
        let index = lowest(pending);
        let rest = pending.remove(index);
        law_drain_keeps_every_picture(rest);
        let entry = pending[index];
        vstd::seq_lib::lemma_multiset_commutative(seq![entry], display_entries(rest));
        assert(seq![entry].to_multiset() =~= Multiset::singleton(entry));
        assert(display_entries(pending).to_multiset() =~= pending.to_multiset());
    }
}

/// Drained pictures come out by rising picture order count.
pub proof fn law_drain_is_sorted<T>(pending: Seq<(i32, T)>, first: int, second: int)
    requires
        0 <= first <= second < display_entries(pending).len(),
    ensures
        display_entries(pending)[first].0 <= display_entries(pending)[second].0,
    decreases pending.len(),
{
    if pending.len() > 0 {
        lemma_lowest(pending);
        let index = lowest(pending);
        let rest = pending.remove(index);
        if first > 0 {
            law_drain_is_sorted(rest, first - 1, second - 1);
        } else if second > 0 {
            lemma_drained_entry(rest, second - 1);
            let at = choose|i: int|
                0 <= i < rest.len() && #[trigger] rest[i] == display_entries(rest)[second - 1];
            if at < index {
                assert(rest[at] == pending[at]);
            } else {
                assert(rest[at] == pending[at + 1]);
            }
        }
    }
}

/// A drained entry was delayed.
proof fn lemma_drained_entry<T>(pending: Seq<(i32, T)>, at: int)
    requires
        0 <= at < display_entries(pending).len(),
    ensures
        exists|i: int|
            0 <= i < pending.len() && #[trigger] pending[i] == display_entries(pending)[at],
    decreases pending.len(),
{
    if pending.len() > 0 {
        lemma_lowest(pending);
        let index = lowest(pending);
        let rest = pending.remove(index);
        if at == 0 {
            assert(pending[index] == display_entries(pending)[0]);
        } else {
            lemma_drained_entry(rest, at - 1);
            let i = choose|i: int|
                0 <= i < rest.len() && #[trigger] rest[i] == display_entries(rest)[at - 1];
            if i < index {
                assert(rest[i] == pending[i]);
            } else {
                assert(rest[i] == pending[i + 1]);
            }
        }
    }
}

} // verus!
