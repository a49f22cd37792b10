//! A bounded cache of the blocks of a remote object.

use std::collections::HashMap;

use vstd::prelude::*;
use vstd::std_specs::hash::group_hash_axioms;

verus! {

/// Memory and request granularity of a cache.
#[derive(Debug, Clone, Copy, PartialEq, Eq)]
pub struct RangeCacheConfig {
    block_size: usize,
    maximum_blocks: usize,
}

/// A configuration as mathematics.
pub struct ConfigView {
    pub block_size: nat,
    pub maximum_blocks: nat,
}

impl View for RangeCacheConfig {
    type V = ConfigView;

    closed spec fn view(&self) -> ConfigView {
        ConfigView {
            block_size: self.block_size as nat,
            maximum_blocks: self.maximum_blocks as nat,
        }
    }
}

impl RangeCacheConfig {
    /// Neither of the numbers is zero.
    #[verifier::type_invariant]
    pub open spec fn positive(self) -> bool {
        self@.block_size > 0 && self@.maximum_blocks > 0
    }

    /// A configuration, unless one of the numbers is zero.
    pub fn new(block_size: usize, maximum_blocks: usize) -> (config: Option<Self>)
        ensures
            match config {
                Some(config) => block_size > 0 && maximum_blocks > 0 && config@ == (ConfigView {
                    block_size: block_size as nat,
                    maximum_blocks: maximum_blocks as nat,
                }),
                None => block_size == 0 || maximum_blocks == 0,
            },
    {
        if block_size == 0 || maximum_blocks == 0 {
            None
        } else {
            Some(RangeCacheConfig { block_size, maximum_blocks })
        }
    }

    pub fn block_size(self) -> (size: usize)
        ensures
            size == self@.block_size,
            size > 0,
    {
        proof {
            use_type_invariant(&self);
        }
        self.block_size
    }

    pub fn maximum_blocks(self) -> (count: usize)
        ensures
            count == self@.maximum_blocks,
            count > 0,
    {
        proof {
            use_type_invariant(&self);
        }
        self.maximum_blocks
    }

    pub fn maximum_cached_bytes(self) -> (bytes: usize)
        ensures
            bytes == if self@.block_size * self@.maximum_blocks > usize::MAX {
                usize::MAX as int
            } else {
                (self@.block_size * self@.maximum_blocks) as int
            },
    {
        match self.block_size.checked_mul(self.maximum_blocks) {
            Some(bytes) => bytes,
            None => usize::MAX,
        }
    }
}

impl Default for RangeCacheConfig {
    fn default() -> (config: Self)
        ensures
            config@ == (ConfigView { block_size: 262_144, maximum_blocks: 32 }),
    {
        RangeCacheConfig { block_size: 262_144, maximum_blocks: 32 }
    }
}

/// Snapshot of cache activity since construction or the last reset.
#[derive(Debug, Clone, Copy, PartialEq, Eq, Structural)]
pub struct RangeInputStats {
    pub cache_hits: u64,
    pub cache_misses: u64,
    pub range_requests: u64,
    pub fetched_bytes: u64,
    pub evicted_blocks: u64,
}

impl RangeInputStats {
    /// Nothing has happened.
    pub open spec fn none() -> RangeInputStats {
        RangeInputStats {
            cache_hits: 0,
            cache_misses: 0,
            range_requests: 0,
            fetched_bytes: 0,
            evicted_blocks: 0,
        }
    }
}

impl Default for RangeInputStats {
    fn default() -> (stats: Self)
        ensures
            stats == RangeInputStats::none(),
    {
        RangeInputStats {
            cache_hits: 0,
            cache_misses: 0,
            range_requests: 0,
            fetched_bytes: 0,
            evicted_blocks: 0,
        }
    }
}

/// A counter after `count` more. It starts again from zero when it is full.
pub open spec fn counted(counter: u64, count: int) -> u64 {
    ((counter + count) % 0x1_0000_0000_0000_0000) as u64
}

fn count_up(counter: u64, count: u64) -> (next: u64)
    ensures
        next == counted(counter, count as int),
{
    counter.wrapping_add(count)
}

/// The counters of a cache.
#[derive(Debug)]
pub struct RangeCacheStats {
    counters: RangeInputStats,
}

impl View for RangeCacheStats {
    type V = RangeInputStats;

    closed spec fn view(&self) -> RangeInputStats {
        self.counters
    }
}

impl Default for RangeCacheStats {
    fn default() -> (stats: Self)
        ensures
            stats@ == RangeInputStats::none(),
    {
        RangeCacheStats { counters: RangeInputStats::default() }
    }
}

impl RangeCacheStats {
    pub fn snapshot(&self) -> (stats: RangeInputStats)
        ensures
            stats == self@,
    {
        self.counters
    }

    pub fn reset(&mut self)
        ensures
            final(self)@ == RangeInputStats::none(),
    {
        self.counters = RangeInputStats::default();
    }

    pub fn record_hit(&mut self)
        ensures
            final(self)@ == (RangeInputStats {
                cache_hits: counted(old(self)@.cache_hits, 1),
                ..old(self)@
            }),
    {
        self.counters.cache_hits = count_up(self.counters.cache_hits, 1);
    }

    pub fn record_miss(&mut self)
        ensures
            final(self)@ == (RangeInputStats {
                cache_misses: counted(old(self)@.cache_misses, 1),
                ..old(self)@
            }),
    {
        self.counters.cache_misses = count_up(self.counters.cache_misses, 1);
    }

    pub fn record_request(&mut self)
        ensures
            final(self)@ == (RangeInputStats {
                range_requests: counted(old(self)@.range_requests, 1),
                ..old(self)@
            }),
    {
        self.counters.range_requests = count_up(self.counters.range_requests, 1);
    }

    pub fn record_fetched(&mut self, bytes: u64)
        ensures
            final(self)@ == (RangeInputStats {
                fetched_bytes: counted(old(self)@.fetched_bytes, bytes as int),
                ..old(self)@
            }),
    {
        self.counters.fetched_bytes = count_up(self.counters.fetched_bytes, bytes);
    }

    pub fn record_evicted(&mut self, blocks: u64)
        ensures
            final(self)@ == (RangeInputStats {
                evicted_blocks: counted(old(self)@.evicted_blocks, blocks as int),
                ..old(self)@
            }),
    {
        self.counters.evicted_blocks = count_up(self.counters.evicted_blocks, blocks);
    }
}

/// A block of the cache: what stands for it, whether it is still being fetched,
/// and when it was last used.
#[derive(Debug)]
pub struct CacheRecord<E> {
    pub entry: E,
    pub loading: bool,
    pub last_used: u64,
}

/// Which blocks are kept, and how recently each was used.
#[derive(Debug)]
pub struct CacheState<E> {
    blocks: HashMap<u64, CacheRecord<E>>,
    next_recency: u64,
}

/// The state of a cache as mathematics.
pub struct CacheView<E> {
    pub blocks: Map<u64, CacheRecord<E>>,
    pub next_recency: u64,
}

impl<E> View for CacheState<E> {
    type V = CacheView<E>;

    closed spec fn view(&self) -> CacheView<E> {
        CacheView { blocks: self.blocks@, next_recency: self.next_recency }
    }
}

/// A block that may be forgotten.
pub open spec fn is_ready<E>(blocks: Map<u64, CacheRecord<E>>, index: u64) -> bool {
    blocks.contains_key(index) && !blocks[index].loading
}

/// The block is the one that was used the longest ago of those that may be
/// forgotten.
pub open spec fn is_oldest_ready<E>(
    blocks: Map<u64, CacheRecord<E>>,
    candidate: Option<u64>,
) -> bool {
    match candidate {
        None => forall|other: u64| !#[trigger] is_ready(blocks, other),
        Some(index) => is_ready(blocks, index) && forall|other: u64| #[trigger]
            is_ready(blocks, other) ==> blocks[index].last_used <= blocks[other].last_used,
    }
}

/// From one state to the other the blocks that were used the longest ago have
/// been forgotten, none of them being fetched, and no more than it takes to keep
/// `limit` blocks. More are kept only where all of them are being fetched.
pub open spec fn evicts<E>(
    before: Map<u64, CacheRecord<E>>,
    after: Map<u64, CacheRecord<E>>,
    limit: int,
    evicted: int,
) -> bool {
    &&& after.submap_of(before)
    &&& evicted == before.len() - after.len()
    &&& after.len() <= limit || forall|index: u64| !#[trigger] is_ready(after, index)
    &&& evicted > 0 ==> after.len() >= limit
    &&& forall|gone: u64| #[trigger]
        before.contains_key(gone) && !after.contains_key(gone) ==> is_ready(before, gone)
    &&& forall|gone: u64, kept: u64|
        #![trigger before.contains_key(gone), is_ready(after, kept)]
        before.contains_key(gone) && !after.contains_key(gone) && is_ready(after, kept)
            ==> before[gone].last_used <= after[kept].last_used
}

/// What happens to a block of a cache with many readers.
pub enum CacheEvent<E> {
    /// A reader needs the block. The entry stands for it if it is not kept yet.
    Wanted { entry: E },
    /// The block was fetched. `current` tells whether the entry that is kept is
    /// still the one that it was fetched for.
    Fetched { current: bool },
    /// The block could not be fetched.
    Failed { current: bool },
}

/// What the reader does next.
#[derive(Debug, Clone, Copy, PartialEq, Eq, Structural)]
pub enum CacheAction {
    /// Take the block from the entry that is kept, once it is ready.
    Wait,
    /// Fetch the block.
    Fetch,
    /// Hand the outcome to those who wait.
    Deliver,
}

/// The blocks with one of them ready.
pub open spec fn readied<E>(blocks: Map<u64, CacheRecord<E>>, index: u64) -> Map<
    u64,
    CacheRecord<E>,
> {
    if blocks.contains_key(index) {
        blocks.insert(index, CacheRecord { loading: false, ..blocks[index] })
    } else {
        blocks
    }
}

/// The step of a cache from one state to another. A block that is wanted is kept
/// from then on, and makes room for itself; one that was fetched may be forgotten,
/// and so may be any that are too many; one that could not be fetched is forgotten.
pub open spec fn steps<E>(
    before: CacheView<E>,
    after: CacheView<E>,
    index: u64,
    event: CacheEvent<E>,
    maximum: int,
    action: CacheAction,
    evicted: int,
) -> bool {
    match event {
        CacheEvent::Wanted { entry } => {
            &&& after.next_recency == later(before.next_recency)
            &&& if before.blocks.contains_key(index) {
                &&& action == CacheAction::Wait
                &&& evicted == 0
                &&& after.blocks == before.blocks.insert(
                    index,
                    CacheRecord { last_used: before.next_recency, ..before.blocks[index] },
                )
            } else {
                &&& action == CacheAction::Fetch
                &&& after.blocks.contains_key(index)
                &&& after.blocks[index] == CacheRecord {
                    entry,
                    loading: true,
                    last_used: before.next_recency,
                }
                &&& evicts(before.blocks, after.blocks.remove(index), maximum - 1, evicted)
            }
        },
        CacheEvent::Fetched { current } => {
            &&& action == CacheAction::Deliver
            &&& after.next_recency == before.next_recency
            &&& evicts(
                if current {
                    readied(before.blocks, index)
                } else {
                    before.blocks
                },
                after.blocks,
                maximum,
                evicted,
            )
        },
        CacheEvent::Failed { current } => {
            &&& action == CacheAction::Deliver
            &&& evicted == 0
            &&& after.next_recency == before.next_recency
            &&& after.blocks == if current {
                before.blocks.remove(index)
            } else {
                before.blocks
            }
        },
    }
}

impl<E> CacheState<E> {
    /// A cache without blocks.
    pub fn new() -> (state: Self)
        ensures
            state@.blocks == Map::<u64, CacheRecord<E>>::empty(),
            state@.next_recency == 0,
    {
        CacheState { blocks: HashMap::new(), next_recency: 0 }
    }

    /// Only so many blocks are kept.
    pub proof fn lemma_finite(&self)
        ensures
            self@.blocks.dom().finite(),
    {
        broadcast use group_hash_axioms;

    }

    /// How many blocks are kept.
    pub fn len(&self) -> (count: usize)
        ensures
            count == self@.blocks.len(),
            self@.blocks.dom().finite(),
    {
        broadcast use group_hash_axioms;

        self.blocks.len()
    }

    /// What stands for a block.
    pub fn entry(&self, index: u64) -> (entry: Option<&E>)
        ensures
            match entry {
                Some(entry) => self@.blocks.contains_key(index) && *entry
                    == self@.blocks[index].entry,
                None => !self@.blocks.contains_key(index),
            },
    {
        broadcast use group_hash_axioms;

        match self.blocks.get(&index) {
            Some(record) => Some(&record.entry),
            None => None,
        }
    }

    fn take_recency(&mut self) -> (recency: u64)
        ensures
            recency == old(self)@.next_recency,
            final(self)@ == (CacheView {
                next_recency: later(old(self)@.next_recency),
                ..old(self)@
            }),
    {
        let recency: u64 = self.next_recency;
        self.next_recency = if recency == u64::MAX {
            u64::MAX
        } else {
            recency + 1
        };
        recency
    }

    /// Looks for a block and notes its use. Returns whether it is kept, and the
    /// recency of this use.
    pub fn touch(&mut self, index: u64) -> (found: (bool, u64))
        ensures
            found.0 == old(self)@.blocks.contains_key(index),
            found.1 == old(self)@.next_recency,
            final(self)@.next_recency == later(old(self)@.next_recency),
            final(self)@.blocks == if found.0 {
                old(self)@.blocks.insert(
                    index,
                    CacheRecord { last_used: found.1, ..old(self)@.blocks[index] },
                )
            } else {
                old(self)@.blocks
            },
    {
        broadcast use group_hash_axioms;

        let recency: u64 = self.take_recency();
        match self.blocks.remove(&index) {
            Some(record) => {
                let renewed = CacheRecord {
                    entry: record.entry,
                    loading: record.loading,
                    last_used: recency,
                };
                self.blocks.insert(index, renewed);
                assert(self@.blocks =~= old(self)@.blocks.insert(index, renewed));
                (true, recency)
            },
            None => {
                assert(self@.blocks =~= old(self)@.blocks);
                (false, recency)
            },
        }
    }

    /// The block that was used the longest ago of those that may be forgotten.
    pub fn oldest_ready_block(&self) -> (candidate: Option<u64>)
        ensures
            is_oldest_ready(self@.blocks, candidate),
    {
        broadcast use group_hash_axioms;

        let mut candidate: Option<u64> = None;
        let mut oldest: u64 = 0;
        for pair in it: self.blocks.iter()
            invariant
                match candidate {
                    None => forall|i: int|
                        0 <= i < it.index() ==> (#[trigger] it.seq()[i]).1.loading,
                    Some(index) => is_ready(self@.blocks, index) && oldest
                        == self@.blocks[index].last_used && forall|i: int|
                        0 <= i < it.index() && !(#[trigger] it.seq()[i]).1.loading ==> oldest
                            <= it.seq()[i].1.last_used,
                },
        {
            let (index, record) = pair;
            assert(self@.blocks.contains_key(*index) && self@.blocks[*index] == *record);
            if !record.loading && (candidate.is_none() || record.last_used < oldest) {
                candidate = Some(*index);
                oldest = record.last_used;
            }
        }
        candidate
    }

    /// Forgets the blocks that were used the longest ago until `limit` are kept
    /// or all are being fetched. Returns how many were forgotten.
    ///
    /// A block that is being fetched stays, since another reader may wait for
    /// it.
    pub fn evict(&mut self, limit: usize) -> (evicted: u64)
        ensures
            evicts(old(self)@.blocks, final(self)@.blocks, limit as int, evicted as int),
            final(self)@.next_recency == old(self)@.next_recency,
    {
        broadcast use group_hash_axioms;

        let ghost before = self@.blocks;
        let mut evicted: u64 = 0;
        let total: usize = self.len();
        loop
            invariant
                before == old(self)@.blocks,
                self@.next_recency == old(self)@.next_recency,
                self@.blocks.dom().finite(),
                self@.blocks.submap_of(before),
                total == before.len(),
                evicted + self@.blocks.len() == total,
                evicted > 0 ==> self@.blocks.len() >= limit,
                forall|gone: u64| #[trigger]
                    before.contains_key(gone) && !self@.blocks.contains_key(gone) ==> is_ready(
                        before,
                        gone,
                    ),
                forall|gone: u64, kept: u64|
                    #![trigger before.contains_key(gone), is_ready(self@.blocks, kept)]
                    before.contains_key(gone) && !self@.blocks.contains_key(gone) && is_ready(
                        self@.blocks,
                        kept,
                    ) ==> before[gone].last_used <= self@.blocks[kept].last_used,
            decreases self@.blocks.len(),
        {
            if self.len() <= limit {
                return evicted;
            }
            let ghost current = self@.blocks;
            match self.oldest_ready_block() {
                None => return evicted,
                Some(index) => {
                    assert(is_ready(current, index));
                    assert(before.contains_key(index));
                    self.blocks.remove(&index);
                    assert(self@.blocks == current.remove(index));
                    assert forall|gone: u64, kept: u64|
                        #![trigger before.contains_key(gone), is_ready(self@.blocks, kept)]
                        before.contains_key(gone) && !self@.blocks.contains_key(gone) && is_ready(
                            self@.blocks,
                            kept,
                        ) implies before[gone].last_used <= self@.blocks[kept].last_used by {
                        assert(is_ready(current, kept));
                        if gone != index {
                            assert(!current.contains_key(gone));
                        }
                    }
                    evicted = evicted + 1;
                },
            }
        }
    }

    /// Keeps a block that is not kept yet.
    pub fn insert(&mut self, index: u64, entry: E, loading: bool, recency: u64)
        ensures
            final(self)@ == (CacheView {
                blocks: old(self)@.blocks.insert(
                    index,
                    CacheRecord { entry, loading, last_used: recency },
                ),
                ..old(self)@
            }),
    {
        broadcast use group_hash_axioms;

        self.blocks.insert(index, CacheRecord { entry, loading, last_used: recency });
    }

    /// Notes that a block has been fetched, so that it may be forgotten.
    pub fn set_ready(&mut self, index: u64)
        ensures
            final(self)@.next_recency == old(self)@.next_recency,
            final(self)@.blocks == readied(old(self)@.blocks, index),
    {
        broadcast use group_hash_axioms;

        match self.blocks.remove(&index) {
            Some(record) => {
                let ready = CacheRecord {
                    entry: record.entry,
                    loading: false,
                    last_used: record.last_used,
                };
                self.blocks.insert(index, ready);
                assert(self@.blocks =~= old(self)@.blocks.insert(index, ready));
            },
            None => {
                assert(self@.blocks =~= old(self)@.blocks);
            },
        }
    }

    /// Forgets a block.
    pub fn remove(&mut self, index: u64)
        ensures
            final(self)@ == (CacheView {
                blocks: old(self)@.blocks.remove(index),
                ..old(self)@
            }),
    {
        broadcast use group_hash_axioms;

        self.blocks.remove(&index);
    }

    /// Takes notice of what happens to a block. Returns what the reader does next,
    /// and how many blocks were forgotten to keep no more than `maximum`.
    pub fn step(&mut self, index: u64, event: CacheEvent<E>, maximum: usize) -> (outcome: (
        CacheAction,
        u64,
    ))
        requires
            maximum > 0,
        ensures
            steps(
                old(self)@,
                final(self)@,
                index,
                event,
                maximum as int,
                outcome.0,
                outcome.1 as int,
            ),
    {
        match event {
            CacheEvent::Wanted { entry } => {
                let (hit, recency): (bool, u64) = self.touch(index);
                if hit {
                    return (CacheAction::Wait, 0);
                }
                let evicted: u64 = self.evict(maximum - 1);
                let ghost kept = self@.blocks;
                self.insert(index, entry, true, recency);
                assert(!kept.contains_key(index)) by {
                    assert(kept.dom().contains(index) ==> old(self)@.blocks.dom().contains(index));
                }
                assert(self@.blocks.remove(index) =~= kept);
                (CacheAction::Fetch, evicted)
            },
            CacheEvent::Fetched { current } => {
                if current {
                    self.set_ready(index);
                }
                let evicted: u64 = self.evict(maximum);
                (CacheAction::Deliver, evicted)
            },
            CacheEvent::Failed { current } => {
                if current {
                    self.remove(index);
                }
                (CacheAction::Deliver, 0)
            },
        }
    }

    /// Forgets all blocks.
    pub fn clear(&mut self)
        ensures
            final(self)@ == (CacheView {
                blocks: Map::<u64, CacheRecord<E>>::empty(),
                ..old(self)@
            }),
    {
        self.blocks.clear();
    }
}

/// The recency behind another.
pub open spec fn later(recency: u64) -> u64 {
    if recency == u64::MAX {
        u64::MAX
    } else {
        (recency + 1) as u64
    }
}

} // verus!
