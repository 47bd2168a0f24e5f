//! Admission to the thread pool that CPU-heavy blocking work is offloaded to.
//!
//! EC multiplication, ECDSA signing and MAC verification run on one pool of worker threads rather
//! than on the executor's own. See the [`cpu`] module for the primary API.

use vstd::prelude::*;

use crate::parallelize::cpu::Pool;

pub mod cpu;

verus! {

/// Whether the encode tasks of `pool` leave room for another: they number no more than half the
/// pool's threads, or the pool has no threads yet.
pub open spec fn encode_headroom(pool: Pool) -> bool {
    pool.pool_threads == 0 || 2 * pool.encode_outstanding <= pool.pool_threads
}

/// Returns `true` when the encode pool has headroom for another encode task.
///
/// Pressure is high once encode tasks (queued and running) occupy more than half the pool's threads;
/// at exactly half there is still headroom. A pool that is not initialised yet never blocks.
#[inline]
pub fn encode_pool_has_headroom(pool: &Pool) -> (headroom: bool)
    ensures
        headroom == encode_headroom(*pool),
{
    if pool.pool_threads == 0 {
        return true;
    }
    pool.encode_outstanding <= pool.pool_threads && pool.encode_outstanding <= pool.pool_threads
        - pool.encode_outstanding
}

/// Twice as many threads as encode tasks are enough, one less is not; a pool without threads never says
/// no.
pub proof fn half_the_pool_is_enough(pool: Pool)
    ensures
        pool.pool_threads == 0 ==> encode_headroom(pool),
        pool.pool_threads >= pool.encode_outstanding + pool.encode_outstanding ==> encode_headroom(pool),
        0 < pool.pool_threads < pool.encode_outstanding + pool.encode_outstanding ==> !encode_headroom(pool),
{
}

} // verus!
