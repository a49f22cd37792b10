//! Cached reading of a remote object.

use std::ops::Range;
use std::sync::Arc;

use vstd::arithmetic::div_mod::lemma_fundamental_div_mod_converse;
use vstd::prelude::*;

use super::cache::{
    counted, evicts, later, CacheRecord, CacheState, RangeCacheConfig, RangeCacheStats,
    RangeInputStats,
};
use super::error::{NetworkError, Result};
use crate::shared::share;

verus! {

/// What there is to know of a remote object.
pub struct ObjectContent {
    pub content: Seq<u8>,
    pub dependable: bool,
}

/// What holds of an object that does not describe itself: it is a function of
/// the object, and nothing more is known.
pub open spec fn undescribed<F: ?Sized>(fetcher: &F) -> ObjectContent {
    arbitrary::<spec_fn(&F) -> ObjectContent>()(fetcher)
}

/// Synchronous source of exact byte ranges from one immutable media object.
pub trait RangeFetcher: Send + Sync {
    /// The bytes of the object.
    open spec fn content(&self) -> Seq<u8> {
        undescribed(self).content
    }

    /// Requests never fail.
    open spec fn dependable(&self) -> bool {
        undescribed(self).dependable
    }

    /// Stable total length of the remote object.
    fn len(&self) -> (result: std::io::Result<u64>)
        ensures
            result matches Ok(length) ==> length == self.content().len(),
            self.dependable() ==> result is Ok,
    ;

    /// Whether the remote object has no bytes.
    fn is_empty(&self) -> (result: std::io::Result<bool>)
        ensures
            result matches Ok(empty) ==> empty == (self.content().len() == 0),
            self.dependable() ==> result is Ok,
    {
        match self.len() {
            Ok(length) => Ok(length == 0),
            Err(error) => Err(error),
        }
    }

    /// Fetches exactly `range.end - range.start` bytes.
    ///
    /// Implementations must reject partial responses and responses for a
    /// different range. Sources with object validators should also reject
    /// version changes instead of silently combining different versions.
    fn fetch_range(&self, range: Range<u64>) -> (result: std::io::Result<Vec<u8>>)
        ensures
            range.start <= range.end <= self.content().len() ==> match result {
                Ok(bytes) => bytes@.len() == range.end - range.start ==> bytes@
                    == self.content().subrange(range.start as int, range.end as int),
                Err(_) => true,
            },
            self.dependable() && range.start <= range.end <= self.content().len() ==> (
            result matches Ok(bytes) && bytes@.len() == range.end - range.start),
    ;
}

/// The part of a request that lies before the end.
pub open spec fn clipped(total: int, offset: int, requested: int) -> int {
    if offset >= total {
        0
    } else if requested <= total - offset {
        requested
    } else {
        total - offset
    }
}

/// The part of a request that lies before the end.
pub fn clipped_length(total: u64, offset: u64, requested: usize) -> (length: usize)
    ensures
        length == clipped(total as int, offset as int, requested as int),
{
    if offset >= total || requested == 0 {
        return 0;
    }
    let available: u64 = total - offset;
    if requested as u64 <= available {
        requested
    } else {
        available as usize
    }
}

/// Where a block starts.
pub open spec fn block_start(block_size: int, index: int) -> int {
    index * block_size
}

/// Where a block ends: where the next one starts, or with the object.
pub open spec fn block_end(length: int, block_size: int, index: int) -> int {
    if block_start(block_size, index) + block_size <= length {
        block_start(block_size, index) + block_size
    } else {
        length
    }
}

/// A block ends behind the last number, so that it has no range.
pub open spec fn block_overflows(block_size: int, index: int) -> bool {
    block_start(block_size, index) + block_size > u64::MAX
}

/// The bytes of a block.
pub open spec fn block_bytes(content: Seq<u8>, block_size: int, index: int) -> Seq<u8> {
    content.subrange(
        block_start(block_size, index),
        block_end(content.len() as int, block_size, index),
    )
}

/// The range of a block, which starts inside the object.
pub fn block_range(length: u64, block_size: usize, index: u64) -> (result: Result<Range<u64>>)
    ensures
        if block_overflows(block_size as int, index as int) {
            result == Err::<Range<u64>, NetworkError>(NetworkError::IntegerOverflow)
        } else {
            result matches Ok(range) && range.start == block_start(block_size as int, index as int)
                && range.end == block_end(length as int, block_size as int, index as int)
        },
{
    let start: u64 = match index.checked_mul(block_size as u64) {
        Some(start) => start,
        None => return Err(NetworkError::IntegerOverflow),
    };
    let end: u64 = match start.checked_add(block_size as u64) {
        Some(end) => end,
        None => return Err(NetworkError::IntegerOverflow),
    };
    Ok(
        start..if end <= length {
            end
        } else {
            length
        },
    )
}

/// The part of a request that one block serves.
#[derive(Debug, Clone, Copy, PartialEq, Eq, Structural)]
pub struct BlockPiece {
    /// The block.
    pub index: u64,
    /// Where the part starts in the block.
    pub start: usize,
    pub count: usize,
}

/// The part of a request for `requested` bytes from `position` on that the first
/// block serves, if there is anything to serve.
pub fn next_piece(length: u64, block_size: usize, position: u64, requested: usize) -> (piece:
    Option<BlockPiece>)
    requires
        block_size > 0,
    ensures
        match piece {
            Some(piece) => {
                &&& clipped(length as int, position as int, requested as int) > 0
                &&& piece.index == position as int / block_size as int
                &&& piece.start == position as int % block_size as int
                &&& piece.count == {
                    let available = block_end(
                        length as int,
                        block_size as int,
                        position as int / block_size as int,
                    ) - position;
                    if available < requested {
                        available
                    } else {
                        requested as int
                    }
                }
                &&& piece.count > 0
            },
            None => clipped(length as int, position as int, requested as int) == 0,
        },
{
    if clipped_length(length, position, requested) == 0 {
        return None;
    }
    let size: u64 = block_size as u64;
    let index: u64 = position / size;
    let within: u64 = position % size;
    proof {
        lemma_in_block(position as int, block_size as int);
    }
    let to_block_end: u64 = size - within;
    let to_end: u64 = length - position;
    let available: u64 = if to_block_end <= to_end {
        to_block_end
    } else {
        to_end
    };
    let count: usize = if available < requested as u64 {
        available as usize
    } else {
        requested
    };
    Some(BlockPiece { index, start: within as usize, count })
}

/// A position lies in the block whose range holds it.
proof fn lemma_block_of(position: int, block_size: int, index: int)
    requires
        block_size > 0,
        block_start(block_size, index) <= position < block_start(block_size, index) + block_size,
    ensures
        position / block_size == index,
        position % block_size == position - block_start(block_size, index),
{
    assert(position == index * block_size + (position - index * block_size));
    lemma_fundamental_div_mod_converse(
        position,
        block_size,
        index,
        position - index * block_size,
    );
}

/// The block of a position holds it.
proof fn lemma_in_block(position: int, block_size: int)
    requires
        block_size > 0,
        position >= 0,
    ensures
        block_start(block_size, position / block_size) <= position < block_start(
            block_size,
            position / block_size,
        ) + block_size,
        position - block_start(block_size, position / block_size) == position % block_size,
        position / block_size >= 0,
{
    vstd::arithmetic::div_mod::lemma_fundamental_div_mod(position, block_size);
    vstd::arithmetic::mul::lemma_mul_is_commutative(block_size, position / block_size);
    vstd::arithmetic::div_mod::lemma_div_pos_is_pos(position, block_size);
}

/// The start of the next block.
proof fn lemma_next_start(block_size: int, index: int)
    ensures
        block_start(block_size, index + 1) == block_start(block_size, index) + block_size,
{
    assert((index + 1) * block_size == index * block_size + block_size) by (nonlinear_arith);
}

/// A cached object as mathematics.
pub struct CachedView {
    pub content: Seq<u8>,
    pub dependable: bool,
    pub block_size: nat,
    pub maximum_blocks: nat,
    pub blocks: Map<u64, CacheRecord<Arc<Vec<u8>>>>,
    pub next_recency: u64,
    pub stats: RangeInputStats,
}

impl CachedView {
    /// A block with its bytes.
    pub open spec fn holds(self, index: u64) -> bool {
        &&& !self.blocks[index].loading
        &&& block_start(self.block_size as int, index as int) < self.content.len()
        &&& self.blocks[index].entry@ == block_bytes(
            self.content,
            self.block_size as int,
            index as int,
        )
    }

    /// No more blocks are kept than may be, each with its bytes.
    pub open spec fn sound(self) -> bool {
        &&& self.block_size > 0
        &&& self.maximum_blocks > 0
        &&& self.content.len() <= u64::MAX
        &&& self.blocks.dom().finite()
        &&& self.blocks.len() <= self.maximum_blocks
        &&& forall|index: u64| #[trigger]
            self.blocks.contains_key(index) ==> self.holds(index) && self.is_past(index)
    }

    /// A block was last used before now. At the end of all recencies nothing is
    /// said.
    pub open spec fn is_past(self, index: u64) -> bool {
        self.next_recency == u64::MAX || self.blocks[index].last_used < self.next_recency
    }

    /// Another state of the cache of the same object.
    pub open spec fn same_object(self, other: CachedView) -> bool {
        &&& self.content == other.content
        &&& self.dependable == other.dependable
        &&& self.block_size == other.block_size
        &&& self.maximum_blocks == other.maximum_blocks
    }

    /// The counters after a block was not found, `evicted` blocks were
    /// forgotten, and the block was asked for and came, as far as it did.
    pub open spec fn missed(self, index: u64, evicted: int, came: bool) -> RangeInputStats {
        let length = block_bytes(self.content, self.block_size as int, index as int).len();
        RangeInputStats {
            cache_hits: self.stats.cache_hits,
            cache_misses: counted(self.stats.cache_misses, 1),
            range_requests: if block_overflows(self.block_size as int, index as int) {
                self.stats.range_requests
            } else {
                counted(self.stats.range_requests, 1)
            },
            fetched_bytes: if came {
                counted(self.stats.fetched_bytes, length as int)
            } else {
                self.stats.fetched_bytes
            },
            evicted_blocks: counted(self.stats.evicted_blocks, evicted),
        }
    }
}

/// From one state to the other a block was used. One that was kept is only
/// noted as used. For another one room was made, and it was fetched and kept, if
/// it came.
pub open spec fn visited(before: CachedView, after: CachedView, index: u64, came: bool) -> bool {
    &&& after.same_object(before)
    &&& after.next_recency == later(before.next_recency)
    &&& if before.blocks.contains_key(index) {
        &&& came
        &&& after.blocks == before.blocks.insert(
            index,
            CacheRecord { last_used: before.next_recency, ..before.blocks[index] },
        )
        &&& after.stats == (RangeInputStats {
            cache_hits: counted(before.stats.cache_hits, 1),
            ..before.stats
        })
    } else {
        exists|kept: Map<u64, CacheRecord<Arc<Vec<u8>>>>, evicted: int|
            #![trigger evicts(before.blocks, kept, before.maximum_blocks - 1, evicted)]
            {
                &&& evicts(before.blocks, kept, before.maximum_blocks - 1, evicted)
                &&& after.stats == before.missed(index, evicted, came)
                &&& if came {
                    &&& after.blocks == kept.insert(index, after.blocks[index])
                    &&& after.holds(index)
                    &&& after.blocks[index].last_used == before.next_recency
                } else {
                    after.blocks == kept
                }
            }
    }
}

/// From one state to the other the blocks from `first` up to `end` were used,
/// one after the other.
pub open spec fn visits(before: CachedView, after: CachedView, first: int, end: int) -> bool
    decreases end - first,
{
    if end <= first {
        after == before
    } else {
        exists|middle: CachedView|
            visits(before, middle, first, end - 1) && #[trigger] visited(
                middle,
                after,
                (end - 1) as u64,
                true,
            )
    }
}

/// From one state to the other the blocks from `first` on were used until one
/// before `end` did not come.
pub open spec fn breaks_off(before: CachedView, after: CachedView, first: int, end: int) -> bool {
    exists|middle: CachedView, index: int|
        #![trigger visits(before, middle, first, index)]
        first <= index < end && visits(before, middle, first, index) && visited(
            middle,
            after,
            index as u64,
            false,
        )
}

/// Why a block did not come.
pub open spec fn is_block_error(view: CachedView, index: int, error: NetworkError) -> bool {
    if block_overflows(view.block_size as int, index) {
        error == NetworkError::IntegerOverflow
    } else {
        !view.dependable && (error is Source || error is BlockLength)
    }
}

/// A bounded block cache over a range source.
///
/// Ready blocks are retained using least-recently-used eviction.
#[derive(Debug)]
pub struct CachedRangeInput<F: RangeFetcher> {
    fetcher: F,
    length: u64,
    config: RangeCacheConfig,
    cache: CacheState<Arc<Vec<u8>>>,
    stats: RangeCacheStats,
}

impl<F: RangeFetcher> View for CachedRangeInput<F> {
    type V = CachedView;

    closed spec fn view(&self) -> CachedView {
        CachedView {
            content: self.fetcher.content(),
            dependable: self.fetcher.dependable(),
            block_size: self.config@.block_size,
            maximum_blocks: self.config@.maximum_blocks,
            blocks: self.cache@.blocks,
            next_recency: self.cache@.next_recency,
            stats: self.stats@,
        }
    }
}

impl<F: RangeFetcher> CachedRangeInput<F> {
    /// The length is that of the object, and the cache is sound.
    pub closed spec fn valid(self) -> bool {
        self.length == self.fetcher.content().len() && self@.sound()
    }

    pub fn new(fetcher: F, config: RangeCacheConfig) -> (result: Result<Self>)
        ensures
            match result {
                Ok(input) => input.valid() && input@ == (CachedView {
                    content: fetcher.content(),
                    dependable: fetcher.dependable(),
                    block_size: config@.block_size,
                    maximum_blocks: config@.maximum_blocks,
                    blocks: Map::empty(),
                    next_recency: 0,
                    stats: RangeInputStats::none(),
                }),
                Err(error) => !fetcher.dependable() && error is Source,
            },
    {
        let length: u64 = match fetcher.len() {
            Ok(length) => length,
            Err(error) => return Err(NetworkError::Source(error)),
        };
        let cache = CacheState::new();
        proof {
            cache.lemma_finite();
            use_type_invariant(&config);
        }
        Ok(CachedRangeInput { fetcher, length, config, cache, stats: RangeCacheStats::default() })
    }

    pub fn config(&self) -> (config: RangeCacheConfig)
        ensures
            config@.block_size == self@.block_size,
            config@.maximum_blocks == self@.maximum_blocks,
    {
        self.config
    }

    pub fn content_length(&self) -> (length: u64)
        requires
            self.valid(),
        ensures
            length == self@.content.len(),
    {
        self.length
    }

    pub fn stats(&self) -> (stats: &RangeCacheStats)
        ensures
            stats@ == self@.stats,
    {
        &self.stats
    }

    /// Starts the counters again from zero.
    pub fn reset_stats(&mut self)
        requires
            old(self).valid(),
        ensures
            final(self).valid(),
            final(self)@ == (CachedView { stats: RangeInputStats::none(), ..old(self)@ }),
    {
        self.stats.reset();
    }

    pub fn clear(&mut self)
        requires
            old(self).valid(),
        ensures
            final(self).valid(),
            final(self)@ == (CachedView { blocks: Map::empty(), ..old(self)@ }),
    {
        self.cache.clear();
        proof {
            self.cache.lemma_finite();
        }
    }

    fn fetch_block(&mut self, index: u64) -> (result: Result<Arc<Vec<u8>>>)
        requires
            old(self)@.block_size > 0,
            old(self).length_known(),
            block_start(old(self)@.block_size as int, index as int) < old(self)@.content.len(),
        ensures
            final(self).length_known(),
            match result {
                Ok(bytes) => !block_overflows(old(self)@.block_size as int, index as int) && bytes@
                    == block_bytes(old(self)@.content, old(self)@.block_size as int, index as int)
                    && final(self)@ == (CachedView {
                    stats: RangeInputStats {
                        range_requests: counted(old(self)@.stats.range_requests, 1),
                        fetched_bytes: counted(
                            old(self)@.stats.fetched_bytes,
                            bytes@.len() as int,
                        ),
                        ..old(self)@.stats
                    },
                    ..old(self)@
                }),
                Err(error) => is_block_error(old(self)@, index as int, error) && final(self)@ == (
                CachedView {
                    stats: RangeInputStats {
                        range_requests: if block_overflows(
                            old(self)@.block_size as int,
                            index as int,
                        ) {
                            old(self)@.stats.range_requests
                        } else {
                            counted(old(self)@.stats.range_requests, 1)
                        },
                        ..old(self)@.stats
                    },
                    ..old(self)@
                }),
            },
    {
        let block_size: usize = self.config.block_size();
        let range = block_range(self.length, block_size, index)?;
        let expected: usize = (range.end - range.start) as usize;
        self.stats.record_request();
        match self.fetcher.fetch_range(range) {
            Ok(bytes) => {
                let returned: usize = bytes.len();
                if returned != expected {
                    return Err(NetworkError::BlockLength { returned, expected });
                }
                self.stats.record_fetched(returned as u64);
                Ok(Arc::new(bytes))
            },
            Err(error) => Err(NetworkError::Source(error)),
        }
    }

    /// The length is that of the object.
    pub closed spec fn length_known(self) -> bool {
        self.length == self.fetcher.content().len()
    }

    fn get_block(&mut self, index: u64) -> (result: Result<Arc<Vec<u8>>>)
        requires
            old(self).valid(),
            block_start(old(self)@.block_size as int, index as int) < old(self)@.content.len(),
        ensures
            final(self).valid(),
            visited(old(self)@, final(self)@, index, result is Ok),
            match result {
                Ok(bytes) => bytes@ == block_bytes(
                    old(self)@.content,
                    old(self)@.block_size as int,
                    index as int,
                ),
                Err(error) => is_block_error(old(self)@, index as int, error),
            },
    {
        let ghost before = self@;
        let (_, recency) = self.cache.touch(index);
        let found: Option<Arc<Vec<u8>>> = match self.cache.entry(index) {
            Some(entry) => Some(share(entry)),
            None => None,
        };
        if let Some(bytes) = found {
            self.stats.record_hit();
            proof {
                self.cache.lemma_finite();
                assert forall|i: u64| #[trigger] self@.blocks.contains_key(i) implies self@.holds(
                    i,
                ) && self@.is_past(i) by {
                    assert(before.blocks.contains_key(i));
                    assert(before.holds(i) && before.is_past(i));
                }
                assert(self@.blocks.dom() =~= before.blocks.dom());
                assert(before.holds(index));
            }
            return Ok(bytes);
        }
        self.stats.record_miss();
        let maximum: usize = self.config.maximum_blocks();
        let evicted: u64 = self.cache.evict(maximum - 1);
        self.stats.record_evicted(evicted);
        let ghost kept = self@.blocks;
        proof {
            self.cache.lemma_finite();
            assert(evicts(before.blocks, kept, before.maximum_blocks - 1, evicted as int));
            assert forall|i: u64| #[trigger] kept.contains_key(i) implies before.blocks.contains_key(
                i,
            ) && kept[i] == before.blocks[i] && before.holds(i) by {
                assert(before.blocks.dom().contains(i));
            }
            if kept.len() > before.maximum_blocks - 1 {
                assert forall|i: u64| !kept.contains_key(i) by {
                    if kept.contains_key(i) {
                        assert(super::cache::is_ready(kept, i));
                    }
                }
                assert(kept.dom() =~= Set::empty());
            }
        }
        let bytes = match self.fetch_block(index) {
            Ok(bytes) => bytes,
            Err(error) => {
                proof {
                    assert(self@.sound()) by {
                        assert forall|i: u64| #[trigger]
                            self@.blocks.contains_key(i) implies self@.holds(i) && self@.is_past(
                            i,
                        ) by {
                            assert(before.holds(i) && before.is_past(i));
                        }
                    }
                }
                return Err(error);
            },
        };
        self.cache.insert(index, share(&bytes), false, recency);
        proof {
            self.cache.lemma_finite();
            assert(self@.sound()) by {
                assert forall|i: u64| #[trigger] self@.blocks.contains_key(i) implies self@.holds(
                    i,
                ) && self@.is_past(i) by {
                    if i != index {
                        assert(kept.contains_key(i));
                        assert(before.holds(i) && before.is_past(i));
                    }
                }
                assert(self@.blocks.dom() =~= kept.dom().insert(index));
            }
            assert(self@.blocks == kept.insert(index, self@.blocks[index]));
        }
        Ok(bytes)
    }

    /// Synchronously warms every block intersecting the requested range.
    ///
    /// Applications should normally call this on a worker thread. The range is
    /// clipped to the known media length.
    pub fn prefetch(&mut self, offset: u64, length: usize) -> (result: Result<()>)
        requires
            old(self).valid(),
        ensures
            final(self).valid(),
            ({
                let first = first_block(old(self)@, offset as int);
                let end = end_block(old(self)@, offset as int, length as int);
                match result {
                    Ok(_) => visits(old(self)@, final(self)@, first, end),
                    Err(error) => breaks_off(old(self)@, final(self)@, first, end)
                        && fails_between(old(self)@, first, end, error),
                }
            }),
    {
        let requested: usize = clipped_length(self.length, offset, length);
        if requested == 0 {
            return Ok(());
        }
        let ghost before = self@;
        let block_size: u64 = self.config.block_size() as u64;
        let end: u64 = offset + requested as u64;
        let first: u64 = offset / block_size;
        let last: u64 = (end - 1) / block_size;
        proof {
            lemma_in_block(offset as int, block_size as int);
            lemma_in_block(end - 1, block_size as int);
            lemma_later_block(offset as int, end - 1, block_size as int);
        }
        let mut index: u64 = first;
        loop
            invariant
                self.valid(),
                self@.same_object(before),
                before == old(self)@,
                before.block_size == block_size,
                block_size > 0,
                first <= index <= last,
                end <= before.content.len(),
                block_start(block_size as int, last as int) <= end - 1,
                first == first_block(before, offset as int),
                last + 1 == end_block(before, offset as int, length as int),
                visits(before, self@, first as int, index as int),
            decreases last - index,
        {
            proof {
                lemma_block_order(block_size as int, index as int, last as int);
            }
            let ghost middle = self@;
            match self.get_block(index) {
                Ok(_) => {
                    proof {
                        lemma_one_more(before, middle, self@, first as int, index as int);
                    }
                },
                Err(error) => {
                    assert(visits(before, middle, first as int, index as int));
                    assert(is_block_error(before, index as int, error));
                    return Err(error);
                },
            }
            if index == last {
                return Ok(());
            }
            index = index + 1;
        }
    }

    /// Reads bytes from `offset` on and returns how many were read: as many as
    /// the buffer takes or the object has.
    pub fn read_at(&mut self, offset: u64, buffer: &mut [u8]) -> (result: Result<usize>)
        requires
            old(self).valid(),
        ensures
            final(self).valid(),
            final(buffer)@.len() == old(buffer)@.len(),
            ({
                let first = first_block(old(self)@, offset as int);
                let end = end_block(old(self)@, offset as int, old(buffer)@.len() as int);
                match result {
                    Ok(count) => {
                        &&& count == clipped(
                            old(self)@.content.len() as int,
                            offset as int,
                            old(buffer)@.len() as int,
                        )
                        &&& count > 0 ==> final(buffer)@.take(count as int)
                            == old(self)@.content.subrange(offset as int, offset + count)
                        &&& final(buffer)@.skip(count as int) == old(buffer)@.skip(count as int)
                        &&& visits(old(self)@, final(self)@, first, end)
                    },
                    Err(error) => breaks_off(old(self)@, final(self)@, first, end)
                        && fails_between(old(self)@, first, end, error),
                }
            }),
    {
        let requested: usize = clipped_length(self.length, offset, buffer.len());
        if requested == 0 {
            return Ok(0);
        }
        let ghost before = self@;
        let ghost content = self@.content;
        let ghost room = buffer@;
        let size: usize = self.config.block_size();
        let block_size: u64 = size as u64;
        let ghost first: int = offset as int / block_size as int;
        let ghost last: int = (offset + requested - 1) / block_size as int;
        proof {
            lemma_in_block(offset as int, block_size as int);
            lemma_in_block(offset + requested - 1, block_size as int);
            lemma_later_block(offset as int, offset + requested - 1, block_size as int);
        }
        let mut position: u64 = offset;
        let mut written: usize = 0;
        let ghost mut done: int = first;
        while written < requested
            invariant
                self.valid(),
                self@.same_object(before),
                before == old(self)@,
                content == before.content,
                room == old(buffer)@,
                before.block_size == block_size == size,
                block_size > 0,
                written <= requested <= room.len(),
                buffer@.len() == room.len(),
                requested == clipped(content.len() as int, offset as int, room.len() as int),
                offset + requested <= content.len() <= u64::MAX,
                position == offset + written,
                first == offset as int / block_size as int,
                first == first_block(before, offset as int),
                last == (offset + requested - 1) / block_size as int,
                last + 1 == end_block(before, offset as int, room.len() as int),
                written < requested ==> position as int / block_size as int == done,
                written == requested ==> done == last + 1,
                first <= done <= last + 1,
                visits(before, self@, first, done),
                forall|i: int| 0 <= i < written ==> #[trigger] buffer@[i] == content[offset + i],
                forall|i: int| written <= i < room.len() ==> #[trigger] buffer@[i] == room[i],
            decreases requested - written,
        {
            let piece = match next_piece(self.length, size, position, requested - written) {
                Some(piece) => piece,
                None => return Ok(written),
            };
            let block_index: u64 = piece.index;
            let within: usize = piece.start;
            let count: usize = piece.count;
            let ghost middle = self@;
            proof {
                lemma_in_block(position as int, block_size as int);
                lemma_later_block(
                    position as int,
                    offset + requested - 1,
                    block_size as int,
                );
            }
            let bytes = match self.get_block(block_index) {
                Ok(bytes) => bytes,
                Err(error) => {
                    assert(visits(before, middle, first, block_index as int));
                    assert(is_block_error(before, block_index as int, error));
                    return Err(error);
                },
            };
            proof {
                lemma_one_more(before, middle, self@, first, block_index as int);
            }
            let block_length: usize = bytes.len();
            let ghost start = block_start(block_size as int, block_index as int);
            let ghost part = buffer@;
            let mut copied: usize = 0;
            while copied < count
                invariant
                    copied <= count,
                    written + count <= requested <= buffer@.len(),
                    buffer@.len() == part.len(),
                    within + count <= block_length == bytes@.len(),
                    bytes@ == block_bytes(content, block_size as int, block_index as int),
                    start == block_start(block_size as int, block_index as int),
                    start + within == offset + written,
                    start + bytes@.len() <= content.len(),
                    start >= 0,
                    forall|i: int|
                        written <= i < written + copied ==> #[trigger] buffer@[i] == content[offset
                            + i],
                    forall|i: int| 0 <= i < written ==> #[trigger] buffer@[i] == part[i],
                    forall|i: int|
                        written + copied <= i < part.len() ==> #[trigger] buffer@[i] == part[i],
                decreases count - copied,
            {
                assert(bytes@[within + copied] == content[start + within + copied]);
                buffer[written + copied] = bytes[within + copied];
                copied = copied + 1;
            }
            proof {
                lemma_next_start(block_size as int, block_index as int);
                let behind = position + count;
                if written + count < requested {
                    lemma_block_of(behind, block_size as int, block_index + 1);
                } else {
                    lemma_block_of(behind - 1, block_size as int, block_index as int);
                }
                done = block_index + 1;
            }
            position = position + count as u64;
            written = written + count;
        }
        assert(buffer@.take(written as int) =~= content.subrange(offset as int, offset + written));
        assert(buffer@.skip(written as int) =~= room.skip(written as int));
        Ok(written)
    }
}

/// The blocks were used up to one, and then that one.
proof fn lemma_one_more(
    before: CachedView,
    middle: CachedView,
    after: CachedView,
    first: int,
    index: int,
)
    requires
        first <= index <= u64::MAX,
        visits(before, middle, first, index),
        visited(middle, after, index as u64, true),
    ensures
        visits(before, after, first, index + 1),
{
    reveal_with_fuel(visits, 2);
    let end = index + 1;
    assert(visited(middle, after, (end - 1) as u64, true));
}

/// The first block of a request.
pub open spec fn first_block(view: CachedView, offset: int) -> int {
    offset / view.block_size as int
}

/// The block behind the last one of a request, as far as it lies before the end
/// of the object.
pub open spec fn end_block(view: CachedView, offset: int, requested: int) -> int {
    let count = clipped(view.content.len() as int, offset, requested);
    if count <= 0 {
        first_block(view, offset)
    } else {
        (offset + count - 1) / view.block_size as int + 1
    }
}

/// The error is that of one of the blocks.
pub open spec fn fails_between(
    view: CachedView,
    first: int,
    end: int,
    error: NetworkError,
) -> bool {
    exists|index: int| first <= index < end && #[trigger] is_block_error(view, index, error)
}

/// A later position lies in the same block or a later one.
proof fn lemma_later_block(first: int, second: int, block_size: int)
    requires
        block_size > 0,
        first <= second,
    ensures
        first / block_size <= second / block_size,
{
    vstd::arithmetic::div_mod::lemma_div_is_ordered(first, second, block_size);
}

/// An earlier block starts no later.
proof fn lemma_block_order(block_size: int, first: int, second: int)
    requires
        block_size > 0,
        first <= second,
    ensures
        block_start(block_size, first) <= block_start(block_size, second),
{
    assert(first * block_size <= second * block_size) by (nonlinear_arith)
        requires
            block_size > 0,
            first <= second,
    ;
}

impl RangeFetcher for Vec<u8> {
    open spec fn content(&self) -> Seq<u8> {
        self@
    }

    open spec fn dependable(&self) -> bool {
        true
    }

    fn len(&self) -> (result: std::io::Result<u64>) {
        let length: usize = self.as_slice().len();
        Ok(length as u64)
    }

    fn fetch_range(&self, range: Range<u64>) -> (result: std::io::Result<Vec<u8>>) {
        let length: usize = self.as_slice().len();
        let mut bytes: Vec<u8> = Vec::new();
        if range.start > range.end || range.end > length as u64 {
            return Ok(bytes);
        }
        let end: usize = range.end as usize;
        let start: usize = range.start as usize;
        let mut index: usize = start;
        while index < end
            invariant
                start <= index <= end <= self@.len(),
                bytes@ == self@.subrange(start as int, index as int),
            decreases end - index,
        {
            bytes.push(self[index]);
            index = index + 1;
            assert(bytes@ =~= self@.subrange(start as int, index as int));
        }
        Ok(bytes)
    }
}

/// A block that was just used is found at the next use, without another request.
pub proof fn law_second_use_is_a_hit(
    before: CachedView,
    middle: CachedView,
    after: CachedView,
    index: u64,
    came: bool,
)
    requires
        visited(before, middle, index, true),
        visited(middle, after, index, came),
    ensures
        came,
        after.stats == (RangeInputStats {
            cache_hits: counted(middle.stats.cache_hits, 1),
            ..middle.stats
        }),
        after.blocks.contains_key(index),
        after.blocks.dom() == middle.blocks.dom(),
{
    assert(middle.blocks.contains_key(index));
    assert(after.blocks.dom() =~= middle.blocks.dom());
}

/// In a cache of more than one block, the block that was used last is not
/// forgotten for the next one.
pub proof fn law_recent_block_is_retained(
    before: CachedView,
    middle: CachedView,
    after: CachedView,
    recent: u64,
    other: u64,
    came: bool,
)
    requires
        before.sound(),
        middle.sound(),
        before.next_recency < u64::MAX,
        before.maximum_blocks >= 2,
        visited(before, middle, recent, true),
        visited(middle, after, other, came),
    ensures
        after.blocks.contains_key(recent),
{
    assert(middle.blocks.contains_key(recent));
    assert(middle.holds(recent));
    assert(middle.blocks[recent].last_used == before.next_recency);
    if !middle.blocks.contains_key(other) {
        let (kept, evicted) = choose|kept: Map<u64, CacheRecord<Arc<Vec<u8>>>>, evicted: int|
            #![trigger evicts(middle.blocks, kept, middle.maximum_blocks - 1, evicted)]
            {
                &&& evicts(middle.blocks, kept, middle.maximum_blocks - 1, evicted)
                &&& after.stats == middle.missed(other, evicted, came)
                &&& if came {
                    &&& after.blocks == kept.insert(other, after.blocks[other])
                    &&& after.holds(other)
                    &&& after.blocks[other].last_used == middle.next_recency
                } else {
                    after.blocks == kept
                }
            };
        if !kept.contains_key(recent) {
            assert(kept.dom().subset_of(middle.blocks.dom().remove(recent)));
            vstd::set_lib::lemma_len_subset(kept.dom(), middle.blocks.dom().remove(recent));
            assert(evicted > 0);
            assert(kept.len() >= 1);
            let left = kept.dom().choose();
            assert(kept.dom().contains(left));
            assert(middle.blocks.dom().contains(left));
            assert(middle.holds(left));
            assert(super::cache::is_ready(kept, left));
            assert(before.blocks.contains_key(left) && before.is_past(left));
        }
    }
}

} // verus!
