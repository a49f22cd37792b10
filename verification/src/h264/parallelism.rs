//! How many threads reconstruct a picture.

use std::sync::Arc;
use vstd::prelude::*;

use super::error::{H264Error, Result};
use crate::media::Size;
use crate::shared::share;
use crate::text::{decimal, decimal_text};

verus! {

/// Pictures with this many pixels get more threads.
pub const WIDE_AUTO_PARALLELISM_MIN_PIXELS: u64 = 8_000_000;

/// A number of threads, never zero.
#[derive(Debug, Clone, Copy, PartialEq, Eq)]
pub struct ThreadCount {
    count: usize,
}

impl View for ThreadCount {
    type V = nat;

    closed spec fn view(&self) -> nat {
        self.count as nat
    }
}

impl ThreadCount {
    #[verifier::type_invariant]
    spec fn positive(self) -> bool {
        self.count > 0
    }

    pub fn new(count: usize) -> (threads: Option<Self>)
        ensures
            match threads {
                Some(threads) => threads@ == count && count > 0,
                None => count == 0,
            },
    {
        if count == 0 {
            None
        } else {
            Some(ThreadCount { count })
        }
    }

    pub fn get(self) -> (count: usize)
        ensures
            count == self@,
            count > 0,
    {
        proof {
            use_type_invariant(&self);
        }
        self.count
    }
}

/// CPU parallelism used by the H.264 reconstruction backend.
#[derive(Debug, Clone, Copy, PartialEq, Eq)]
#[non_exhaustive]
pub enum H264Parallelism {
    /// Keep all reconstruction work on the caller thread.
    Serial,
    /// Select a conservative worker count for the current implementation.
    ///
    /// CABAC parsing remains serial. `Auto` uses at most two workers below
    /// roughly eight megapixels and at most four workers for 4K-class pictures.
    Auto,
    /// Use exactly this many reconstruction threads.
    Threads(ThreadCount),
}

impl Default for H264Parallelism {
    fn default() -> (parallelism: Self)
        ensures
            parallelism == H264Parallelism::Auto,
    {
        H264Parallelism::Auto
    }
}

/// The most threads that `Auto` uses for a picture.
pub open spec fn auto_cap_for(size: Size) -> usize {
    if size.width * size.height >= WIDE_AUTO_PARALLELISM_MIN_PIXELS {
        4
    } else {
        2
    }
}

/// How many threads reconstruct, on a machine that runs `available` at a time.
pub open spec fn threads_for(
    parallelism: H264Parallelism,
    available: ThreadCount,
    auto_cap: usize,
) -> nat {
    match parallelism {
        H264Parallelism::Serial => 1,
        H264Parallelism::Auto => if available@ < auto_cap {
            available@
        } else {
            auto_cap as nat
        },
        H264Parallelism::Threads(threads) => threads@,
    }
}

/// A pool of rayon threads.
#[verifier::external_type_specification]
#[verifier::external_body]
pub struct ExThreadPool(rayon::ThreadPool);

/// The error of a pool that could not be built.
#[verifier::external_type_specification]
#[verifier::external_body]
pub struct ExThreadPoolBuildError(rayon::ThreadPoolBuildError);

/// The name of a thread.
pub open spec fn thread_name(index: usize) -> Seq<char> {
    "decv-h264-"@ + decimal(index as nat)
}

fn make_thread_name(index: usize) -> (name: String)
    ensures
        name@ == thread_name(index),
{
    let mut name: String = String::from_str("decv-h264-");
    name.append(decimal_text(index as u64).as_str());
    name
}

/// The most threads of one rayon pool. They are counted in a quarter of a word.
pub open spec fn most_threads() -> nat {
    if usize::BITS == 64 {
        0xffff
    } else {
        0xff
    }
}

/// A number of threads, held to the most that a pool can have.
pub open spec fn held(threads: nat) -> nat {
    if threads <= most_threads() {
        threads
    } else {
        most_threads()
    }
}

/// `rayon::ThreadPoolBuilder::build` starts a pool of `threads` threads, or of as
/// many as a pool can have, each named by its index. The pool comes with its
/// `current_num_threads`. Whether the threads can be had is up to the machine, so
/// that nothing is claimed of when there is a pool.
#[verifier::external_body]
fn build_pool(threads: usize) -> (result: std::result::Result<
    (rayon::ThreadPool, usize),
    rayon::ThreadPoolBuildError,
>)
    requires
        threads > 0,
    ensures
        match result {
            Ok(built) => built.1 == held(threads as nat),
            Err(_) => true,
        },
{
    let pool = rayon::ThreadPoolBuilder::new().num_threads(threads).thread_name(
        |index| make_thread_name(index),
    ).build()?;
    let count: usize = pool.current_num_threads();
    Ok((pool, count))
}

/// A pool and the number of its threads.
pub struct WorkerPool {
    pool: rayon::ThreadPool,
    threads: usize,
}

impl WorkerPool {
    /// The rayon pool.
    pub closed spec fn pool(&self) -> &rayon::ThreadPool {
        &self.pool
    }

    /// The number of threads.
    pub closed spec fn threads(&self) -> nat {
        self.threads as nat
    }

    /// The pool and the number of its threads came together, when a pool of this
    /// many threads was asked for.
    pub closed spec fn built_for(&self, threads: nat) -> bool {
        call_ensures(build_pool, (threads as usize,), Ok((self.pool, self.threads)))
    }
}

/// Where reconstruction work runs.
pub enum ReconstructionExecutor {
    Serial,
    Parallel(Arc<WorkerPool>),
}

impl ReconstructionExecutor {
    /// The number of threads that reconstruct.
    pub open spec fn workers(self) -> nat {
        match self {
            ReconstructionExecutor::Serial => 1,
            ReconstructionExecutor::Parallel(pool) => pool.threads(),
        }
    }

    /// The pool on whose threads reconstruction runs.
    pub open spec fn thread_pool(&self) -> Option<&rayon::ThreadPool> {
        match self {
            ReconstructionExecutor::Serial => None,
            ReconstructionExecutor::Parallel(pool) => Some(pool.pool()),
        }
    }

    pub fn serial() -> (executor: Self)
        ensures
            executor is Serial,
    {
        ReconstructionExecutor::Serial
    }

    /// An executor for a picture whose size is not known.
    pub fn try_new(parallelism: H264Parallelism, available: ThreadCount) -> (result: Result<Self>)
        ensures
            executes(result, threads_for(parallelism, available, 2)),
    {
        Self::try_new_with_auto_cap(parallelism, available, 2)
    }

    pub fn try_new_for_coded_size(
        parallelism: H264Parallelism,
        available: ThreadCount,
        coded_size: Size,
    ) -> (result: Result<Self>)
        ensures
            executes(result, threads_for(parallelism, available, auto_cap_for(coded_size))),
    {
        Self::try_new_with_auto_cap(parallelism, available, auto_cap(coded_size))
    }

    fn try_new_with_auto_cap(
        parallelism: H264Parallelism,
        available: ThreadCount,
        auto_cap: usize,
    ) -> (result: Result<Self>)
        requires
            auto_cap > 0,
        ensures
            executes(result, threads_for(parallelism, available, auto_cap)),
    {
        let threads: usize = worker_count(parallelism, available, auto_cap);
        if threads == 1 {
            return Ok(ReconstructionExecutor::Serial);
        }
        match build_pool(threads) {
            Ok((pool, count)) => Ok(
                ReconstructionExecutor::Parallel(Arc::new(WorkerPool { pool, threads: count })),
            ),
            Err(_) => Err(H264Error::UnsupportedFeature("failed to create H.264 worker pool")),
        }
    }

    /// Another handle of the same executor.
    pub fn share(&self) -> (other: Self)
        ensures
            other == *self,
    {
        match self {
            ReconstructionExecutor::Serial => ReconstructionExecutor::Serial,
            ReconstructionExecutor::Parallel(pool) => ReconstructionExecutor::Parallel(share(pool)),
        }
    }

    /// The pool, where there is one.
    pub fn pool(&self) -> (pool: Option<&rayon::ThreadPool>)
        ensures
            pool == self.thread_pool(),
    {
        match self {
            ReconstructionExecutor::Serial => None,
            ReconstructionExecutor::Parallel(pool) => Some(&pool.pool),
        }
    }

    /// The number of threads that reconstruct.
    pub fn worker_count(&self) -> (workers: usize)
        ensures
            workers == self.workers(),
    {
        match self {
            ReconstructionExecutor::Serial => 1,
            ReconstructionExecutor::Parallel(pool) => pool.threads,
        }
    }
}

/// An executor of this many threads, or of as many as a pool can have, on the pool
/// that was built for them, or the error of a pool that could not be built. One
/// thread needs no pool.
pub open spec fn executes(result: Result<ReconstructionExecutor>, threads: nat) -> bool {
    match result {
        Ok(executor) => {
            &&& executor.workers() == held(threads)
            &&& match executor {
                ReconstructionExecutor::Serial => threads == 1,
                ReconstructionExecutor::Parallel(pool) => threads != 1 && pool.built_for(threads),
            }
        },
        Err(error) => threads != 1 && error == H264Error::UnsupportedFeature(
            "failed to create H.264 worker pool",
        ),
    }
}

/// The most threads that `Auto` uses for a picture.
pub fn auto_cap(coded_size: Size) -> (cap: usize)
    ensures
        cap == auto_cap_for(coded_size),
{
    assert(coded_size.width * coded_size.height <= 0xffff_ffff * 0xffff_ffff) by (nonlinear_arith)
        requires
            coded_size.width <= 0xffff_ffff,
            coded_size.height <= 0xffff_ffff,
    ;
    let pixels: u64 = coded_size.width as u64 * coded_size.height as u64;
    if pixels >= WIDE_AUTO_PARALLELISM_MIN_PIXELS {
        4
    } else {
        2
    }
}

/// How many threads reconstruct, on a machine that runs `available` at a time.
pub fn worker_count(
    parallelism: H264Parallelism,
    available: ThreadCount,
    auto_cap: usize,
) -> (threads: usize)
    requires
        auto_cap > 0,
    ensures
        threads == threads_for(parallelism, available, auto_cap),
        threads > 0,
{
    match parallelism {
        H264Parallelism::Serial => 1,
        H264Parallelism::Auto => {
            let most: usize = available.get();
            if most < auto_cap {
                most
            } else {
                auto_cap
            }
        },
        H264Parallelism::Threads(threads) => threads.get(),
    }
}

/// Auto never uses more threads than the machine runs, nor more than four.
pub proof fn law_auto_is_conservative(available: ThreadCount, size: Size)
    ensures
        threads_for(H264Parallelism::Auto, available, auto_cap_for(size)) <= available@,
        threads_for(H264Parallelism::Auto, available, auto_cap_for(size)) <= 4,
        size.width * size.height < WIDE_AUTO_PARALLELISM_MIN_PIXELS ==> threads_for(
            H264Parallelism::Auto,
            available,
            auto_cap_for(size),
        ) <= 2,
{
}

} // verus!
