//! The accounts of the CPU pool: what is queued and running, for whom, and up to which limit.
//!
//! ## Zombie tasks
//!
//! The pool is sized to the CPU cores. Callers wrap tasks with timeouts; when a timeout fires, the
//! receiver of the result is gone, but a queued closure would still run. Under sustained load such
//! zombies starve the pool. So a task looks at its receiver before it starts: where the receiver was
//! dropped while the task was queued, the task is skipped.
//!
//! ## Queue depth
//!
//! The pool counts outstanding tasks (queued and running). Where a limit is configured, a task above
//! it is refused with [`SpawnError::QueueFull`].

use vstd::prelude::*;

use crate::text::{bounded_value, decimal, decimal_reads_back, decimal_string, parse_u64, unsigned_value};

pub mod arbitration;

pub use crate::parallelize::cpu::arbitration::{
    admit_decode, decode_admit_cap, running_tasks, try_reserve_decode, with_arbitration, with_arbitration_once,
    Admission, ArbitrationConfig, ArbitrationConfigError, RunningGuard, TaggedGuard, Terms,
};

verus! {

/// The blocked decode admitters that are owed a wake-up.
#[derive(Clone, Copy, Debug, PartialEq, Eq, Structural)]
pub enum Wakeups {
    /// This many waiters, each a distinct one.
    Additional(usize),
    /// Every waiter.
    All,
}

impl Wakeups {
    /// One more waiter, on top of those already owed a wake-up.
    pub open spec fn one_more(self) -> Wakeups {
        match self {
            Wakeups::Additional(count) => Wakeups::Additional(
                if count < usize::MAX {
                    (count + 1) as usize
                } else {
                    usize::MAX
                },
            ),
            Wakeups::All => Wakeups::All,
        }
    }

    /// Owes one more waiter a wake-up.
    pub(crate) fn add_one(self) -> (more: Wakeups)
        ensures
            more == self.one_more(),
    {
        match self {
            Wakeups::Additional(count) => Wakeups::Additional(count.saturating_add(1)),
            Wakeups::All => Wakeups::All,
        }
    }
}

/// The accounts of one process's CPU pool.
///
/// Every counter is one atomic cell of its own; an operation of this module is one step on them.
#[derive(Clone, Copy, Debug, PartialEq, Eq)]
pub struct Pool {
    /// Outstanding tasks (queued and running).
    pub outstanding: usize,
    /// Threads the pool was initialised with; zero before that.
    pub pool_threads: usize,
    /// The most tasks that may be outstanding; `None` means no limit.
    pub queue_limit: Option<usize>,
    /// Outstanding tasks of the encode path (packet encoding and SURB generation).
    pub encode_outstanding: usize,
    /// Outstanding tasks of the decode path (packet decoding).
    pub decode_outstanding: usize,
    /// Packets dropped so far because their decoding timed out.
    pub decode_timeout_drops: usize,
    /// Outgoing packets dropped so far because their encoding timed out.
    pub encode_timeout_drops: usize,
    /// Tasks that are executing on a pool thread.
    pub running: usize,
    /// Whether decode admission is arbitrated at all.
    pub arbitration_enabled: bool,
    /// Pool occupancy, in percent, from which decode admission may engage.
    pub occupancy_pct: u32,
    /// Share of the pool, in percent, that decode yields to encode under saturation.
    pub encode_reserve_pct: u32,
    /// Whether the arbiter was configured.
    pub arbitration_configured: bool,
    /// Wake-ups that blocked decode admitters are owed.
    pub wakeups: Wakeups,
}

impl Pool {
    /// What holds of the arbiter's settings in every state that this module leads to.
    pub open spec fn well_formed(self) -> bool {
        &&& 1 <= self.occupancy_pct <= 100
        &&& 1 <= self.encode_reserve_pct <= 100
    }

    /// The pool of a fresh process: nothing outstanding, no threads, arbitration on at 75 % and 50 %.
    pub open spec fn fresh(queue_limit: Option<usize>) -> Pool {
        Pool {
            outstanding: 0,
            pool_threads: 0,
            queue_limit,
            encode_outstanding: 0,
            decode_outstanding: 0,
            decode_timeout_drops: 0,
            encode_timeout_drops: 0,
            running: 0,
            arbitration_enabled: true,
            occupancy_pct: 75,
            encode_reserve_pct: 50,
            arbitration_configured: false,
            wakeups: Wakeups::Additional(0),
        }
    }

    /// The pool of a fresh process.
    pub fn new(queue_limit: Option<usize>) -> (pool: Self)
        ensures
            pool == Pool::fresh(queue_limit),
            pool.well_formed(),
    {
        Pool {
            outstanding: 0,
            pool_threads: 0,
            queue_limit,
            encode_outstanding: 0,
            decode_outstanding: 0,
            decode_timeout_drops: 0,
            encode_timeout_drops: 0,
            running: 0,
            arbitration_enabled: true,
            occupancy_pct: 75,
            encode_reserve_pct: 50,
            arbitration_configured: false,
            wakeups: Wakeups::Additional(0),
        }
    }

    /// Hands out the wake-ups that are owed, once.
    pub fn take_wakeups(&mut self) -> (wakeups: Wakeups)
        ensures
            wakeups == old(self).wakeups,
            *final(self) == (Pool { wakeups: Wakeups::Additional(0), ..*old(self) }),
    {
        let wakeups = self.wakeups;
        self.wakeups = Wakeups::Additional(0);
        wakeups
    }

    /// Counts a packet whose decoding timed out.
    pub fn count_decode_timeout(&mut self)
        ensures
            *final(self) == (Pool {
                decode_timeout_drops: plus_one(old(self).decode_timeout_drops),
                ..*old(self)
            }),
    {
        self.decode_timeout_drops = self.decode_timeout_drops.wrapping_add(1);
    }

    /// Counts an outgoing packet whose encoding timed out.
    pub fn count_encode_timeout(&mut self)
        ensures
            *final(self) == (Pool {
                encode_timeout_drops: plus_one(old(self).encode_timeout_drops),
                ..*old(self)
            }),
    {
        self.encode_timeout_drops = self.encode_timeout_drops.wrapping_add(1);
    }
}

/// A counter after one more; it wraps at the top, as the atomic cell behind it does.
pub open spec fn plus_one(counter: usize) -> usize {
    if counter < usize::MAX {
        (counter + 1) as usize
    } else {
        0
    }
}

/// A counter after one less; it wraps at zero, as the atomic cell behind it does.
pub open spec fn minus_one(counter: usize) -> usize {
    if counter > 0 {
        (counter - 1) as usize
    } else {
        usize::MAX
    }
}

/// Error type for spawn operations.
#[derive(Clone, Copy, Debug, PartialEq, Eq, Structural)]
pub enum SpawnError {
    /// The queue is full and cannot accept more tasks.
    QueueFull {
        /// Current outstanding task count when rejection occurred.
        current: usize,
        /// Configured queue limit.
        limit: usize,
    },
}

impl SpawnError {
    /// The error in words.
    pub fn message(&self) -> (text: String)
        ensures
            text@ == ({
                let SpawnError::QueueFull { current, limit } = *self;
                "rayon queue full: "@ + decimal(current as nat) + "/"@ + decimal(limit as nat)
                    + " tasks outstanding"@
            }),
    {
        let SpawnError::QueueFull { current, limit } = *self;
        let mut text: String = "rayon queue full: ".to_string();
        text.append(decimal_string(current as u64).as_str());
        text.append("/");
        text.append(decimal_string(limit as u64).as_str());
        text.append(" tasks outstanding");
        text
    }
}

/// The limit that the text of `HOPR_CPU_TASK_QUEUE_LIMIT` sets: a positive number. Anything else
/// sets none.
pub open spec fn configured_limit(value: Option<Seq<char>>) -> Option<nat> {
    match value {
        Some(text) => match bounded_value(text, usize::MAX as nat) {
            Some(limit) if limit > 0 => Some(limit),
            _ => None,
        },
        None => None,
    }
}

/// Reads the queue limit out of the value of `HOPR_CPU_TASK_QUEUE_LIMIT`, where there is one.
pub fn parse_queue_limit(value: Option<&str>) -> (limit: Option<usize>)
    ensures
        match limit {
            Some(found) => configured_limit(
                match value {
                    Some(text) => Some(text@),
                    None => None,
                },
            ) == Some(found as nat),
            None => configured_limit(
                match value {
                    Some(text) => Some(text@),
                    None => None,
                },
            ) is None,
        },
{
    match value {
        Some(text) => {
            let parsed: Result<u64, String> = parse_u64(text);
            match parsed {
                Ok(limit) => {
                    if limit > 0 && limit <= usize::MAX as u64 {
                        Some(limit as usize)
                    } else {
                        None
                    }
                },
                Err(_) => None,
            }
        },
        None => None,
    }
}

/// Returns the current outstanding task count (queued + running).
#[inline]
pub fn outstanding_tasks(pool: &Pool) -> (count: usize)
    ensures
        count == pool.outstanding,
{
    pool.outstanding
}

/// Returns the configured queue limit, or `None` if unlimited.
#[inline]
pub fn queue_limit(pool: &Pool) -> (limit: Option<usize>)
    ensures
        limit == pool.queue_limit,
{
    pool.queue_limit
}

/// Notes the thread count that the pool is about to be built with, and returns the one noted before:
/// [`thread_pool_built`] takes it back to where it was when the pool is not built after all.
pub fn init_thread_pool(pool: &mut Pool, num_threads: usize) -> (previous: usize)
    ensures
        previous == old(pool).pool_threads,
        *final(pool) == (Pool { pool_threads: num_threads, ..*old(pool) }),
{
    let previous: usize = pool.pool_threads;
    pool.pool_threads = num_threads;
    previous
}

/// Settles an [`init_thread_pool`]: a pool that was built keeps its thread count, one that was refused
/// leaves the count of the pool that is there.
pub fn thread_pool_built(pool: &mut Pool, previous: usize, built: bool)
    ensures
        *final(pool) == (if built {
            *old(pool)
        } else {
            Pool { pool_threads: previous, ..*old(pool) }
        }),
{
    if !built {
        pool.pool_threads = previous;
    }
}

/// Returns the thread count the pool was initialised with, or `0` if [`init_thread_pool`]
/// has not been called yet. An initialisation that was refused does not change it.
#[inline]
pub fn pool_thread_count(pool: &Pool) -> (count: usize)
    ensures
        count == pool.pool_threads,
{
    pool.pool_threads
}

/// Returns the current encode-path outstanding task count.
#[inline]
pub fn encode_outstanding_tasks(pool: &Pool) -> (count: usize)
    ensures
        count == pool.encode_outstanding,
{
    pool.encode_outstanding
}

/// Returns the current decode-path outstanding task count.
#[inline]
pub fn decode_outstanding_tasks(pool: &Pool) -> (count: usize)
    ensures
        count == pool.decode_outstanding,
{
    pool.decode_outstanding
}

/// Returns the cumulative decode timeout drop count.
#[inline]
pub fn decode_timeout_drop_count(pool: &Pool) -> (count: usize)
    ensures
        count == pool.decode_timeout_drops,
{
    pool.decode_timeout_drops
}

/// Returns the cumulative encode timeout drop count.
#[inline]
pub fn encode_timeout_drop_count(pool: &Pool) -> (count: usize)
    ensures
        count == pool.encode_timeout_drops,
{
    pool.encode_timeout_drops
}

/// A percentage brought into `1..=100`.
pub open spec fn clamped_pct(pct: u32) -> u32 {
    if pct < 1 {
        1
    } else if pct > 100 {
        100
    } else {
        pct
    }
}

/// Brings a percentage into `1..=100`.
pub(crate) fn clamp_pct(pct: u32) -> (clamped: u32)
    ensures
        clamped == clamped_pct(pct),
{
    if pct < 1 {
        1
    } else if pct > 100 {
        100
    } else {
        pct
    }
}

/// The pool with the arbiter switched on or off and both percentages, brought into `1..=100`, in
/// force.
pub open spec fn configured(pool: Pool, enabled: bool, occupancy_pct: u32, encode_reserve_pct: u32) -> Pool {
    Pool {
        arbitration_enabled: enabled,
        occupancy_pct: clamped_pct(occupancy_pct),
        encode_reserve_pct: clamped_pct(encode_reserve_pct),
        arbitration_configured: true,
        ..pool
    }
}

/// As [`configured`], where nobody has configured the arbiter before; otherwise as it was.
pub open spec fn configured_once(pool: Pool, enabled: bool, occupancy_pct: u32, encode_reserve_pct: u32) -> Pool {
    if pool.arbitration_configured {
        pool
    } else {
        configured(pool, enabled, occupancy_pct, encode_reserve_pct)
    }
}

/// Configure encode/decode pool arbitration. Call once at startup, next to [`init_thread_pool`].
///
/// `enabled` gates the whole mechanism. `occupancy_pct` is the pool-occupancy threshold below
/// which decode is never throttled. `encode_reserve_pct` is the share of the pool decode yields
/// to encode when both contend under saturation. Both percentages are clamped to `1..=100`.
///
/// Applies unconditionally (last write wins) and marks the arbiter configured — use this for an
/// explicit process-level override (e.g. a benchmark toggling on/off). Node startup should prefer
/// [`configure_arbitration_once`] so it cannot clobber such an override or a peer pipeline.
pub fn configure_arbitration(pool: &mut Pool, enabled: bool, occupancy_pct: u32, encode_reserve_pct: u32)
    ensures
        *final(pool) == configured(*old(pool), enabled, occupancy_pct, encode_reserve_pct),
        final(pool).well_formed(),
{
    pool.arbitration_enabled = enabled;
    pool.occupancy_pct = clamp_pct(occupancy_pct);
    pool.encode_reserve_pct = clamp_pct(encode_reserve_pct);
    pool.arbitration_configured = true;
}

/// Configure arbitration only if it has not been configured yet, returning `true` if this call
/// applied the settings. Idempotent and first-wins: the arbiter is a single process-global, so a
/// per-node pipeline startup uses this to configure it once without overwriting an earlier
/// explicit [`configure_arbitration`] or another node's already-applied settings.
pub fn configure_arbitration_once(
    pool: &mut Pool,
    enabled: bool,
    occupancy_pct: u32,
    encode_reserve_pct: u32,
) -> (applied: bool)
    ensures
        applied == !old(pool).arbitration_configured,
        *final(pool) == configured_once(*old(pool), enabled, occupancy_pct, encode_reserve_pct),
        old(pool).well_formed() ==> final(pool).well_formed(),
{
    if pool.arbitration_configured {
        return false;
    }
    pool.arbitration_enabled = enabled;
    pool.occupancy_pct = clamp_pct(occupancy_pct);
    pool.encode_reserve_pct = clamp_pct(encode_reserve_pct);
    pool.arbitration_configured = true;
    true
}

/// Whether the queue has no room for another task.
pub open spec fn queue_is_full(pool: Pool) -> bool {
    pool.queue_limit matches Some(limit) && pool.outstanding >= limit
}

/// The pool with one more task in its queue.
pub open spec fn slot_taken(pool: Pool) -> Pool {
    Pool { outstanding: plus_one(pool.outstanding), ..pool }
}

/// The pool with one task less outstanding.
pub open spec fn slot_released(pool: Pool) -> Pool {
    Pool { outstanding: minus_one(pool.outstanding), ..pool }
}

/// A slot in the pool's queue. Whoever holds one gives it back with [`SlotGuard::release`], also
/// where the task panics or ends early.
#[derive(Debug, PartialEq, Eq)]
pub struct SlotGuard {
    held: (),
}

impl SlotGuard {
    /// Attempts to acquire a slot for a new task.
    ///
    /// Returns a guard if there is no limit or a slot below it, `Err(QueueFull)` if at the limit.
    pub fn try_acquire_slot(pool: &mut Pool) -> (slot: Result<SlotGuard, SpawnError>)
        requires
            old(pool).queue_limit is Some ==> old(pool).outstanding < usize::MAX,
        ensures
            slot is Ok <==> !queue_is_full(*old(pool)),
            slot matches Err(error) ==> old(pool).queue_limit matches Some(limit) && error
                == (SpawnError::QueueFull { current: old(pool).outstanding, limit }),
            *final(pool) == (if slot is Ok {
                slot_taken(*old(pool))
            } else {
                *old(pool)
            }),
    {
        let previous: usize = pool.outstanding;
        pool.outstanding = previous.wrapping_add(1);
        let guard = SlotGuard { held: () };
        if let Some(limit) = pool.queue_limit {
            if previous + 1 > limit {
                guard.release(pool);
                return Err(SpawnError::QueueFull { current: previous, limit });
            }
        }
        Ok(guard)
    }

    /// Gives the slot back.
    pub fn release(self, pool: &mut Pool)
        requires
            old(pool).outstanding > 0,
        ensures
            *final(pool) == slot_released(*old(pool)),
    {
        pool.outstanding = pool.outstanding - 1;
    }
}

/// A task that was accepted into the queue and has not started.
#[derive(Debug, PartialEq, Eq)]
pub struct QueuedTask {
    slot: SlotGuard,
}

/// A task that is executing on a pool thread.
#[derive(Debug, PartialEq, Eq)]
pub struct RunningTask {
    slot: SlotGuard,
    running: RunningGuard,
}

/// How a task that ran has ended.
#[derive(Clone, Copy, Debug, PartialEq, Eq, Structural)]
pub enum TaskOutcome {
    /// Its result reached a live receiver.
    Completed,
    /// Its receiver was dropped while it ran, and the result was discarded.
    Orphaned,
}

/// Accepts a cancellable task into the queue, or refuses it where the queue is full.
pub fn cancellable_task(pool: &mut Pool) -> (task: Result<QueuedTask, SpawnError>)
    requires
        old(pool).queue_limit is Some ==> old(pool).outstanding < usize::MAX,
    ensures
        task is Ok <==> !queue_is_full(*old(pool)),
        task matches Err(error) ==> old(pool).queue_limit matches Some(limit) && error
            == (SpawnError::QueueFull { current: old(pool).outstanding, limit }),
        *final(pool) == (if task is Ok {
            slot_taken(*old(pool))
        } else {
            *old(pool)
        }),
{
    match SlotGuard::try_acquire_slot(pool) {
        Ok(slot) => Ok(QueuedTask { slot }),
        Err(error) => Err(error),
    }
}

impl QueuedTask {
    /// A pool thread takes the task up. Where its receiver is gone the task is skipped and its slot
    /// given back; otherwise the task counts as running until [`EndedTask::finish`].
    pub fn start(self, pool: &mut Pool, receiver_dropped: bool) -> (task: Option<RunningTask>)
        requires
            old(pool).outstanding > 0,
        ensures
            task is None <==> receiver_dropped,
            *final(pool) == (if receiver_dropped {
                slot_released(*old(pool))
            } else {
                thread_taken(*old(pool))
            }),
    {
        if receiver_dropped {
            self.slot.release(pool);
            None
        } else {
            Some(RunningTask { slot: self.slot, running: RunningGuard::enter(pool) })
        }
    }
}

/// A task whose work is done and whose result was sent, and which still occupies its thread.
#[derive(Debug, PartialEq, Eq)]
pub struct EndedTask {
    slot: SlotGuard,
    running: RunningGuard,
    delivered: bool,
}

/// Whether running a task came to this: `work` was called and gave a result, `send` was called with that
/// very result, and the result counts as delivered exactly where `send` did not give it back.
pub open spec fn ran<R, P, F, S>(work: F, send: S, delivered: bool) -> bool where
    F: FnOnce() -> Result<R, P>,
    S: FnOnce(Result<R, P>) -> Result<(), Result<R, P>>,
 {
    exists|result: Result<R, P>, answer: Result<(), Result<R, P>>|
        {
            &&& #[trigger] work.ensures((), result)
            &&& #[trigger] send.ensures((result,), answer)
            &&& delivered == (answer is Ok)
        }
}

/// How a task ends whose result was delivered, or not.
pub open spec fn outcome_where(delivered: bool) -> TaskOutcome {
    if delivered {
        TaskOutcome::Completed
    } else {
        TaskOutcome::Orphaned
    }
}

impl RunningTask {
    /// Does the work of the task and sends what came of it: the value that `work` returned, or the payload
    /// of a panic that was caught in it. `send` gives the result back where no receiver is there any more;
    /// the work is then done all the same. Each of the two is called once.
    pub fn run<R, P, F, S>(self, work: F, send: S) -> (task: EndedTask) where
        F: FnOnce() -> Result<R, P>,
        S: FnOnce(Result<R, P>) -> Result<(), Result<R, P>>,

        requires
            work.requires(()),
            forall|result: Result<R, P>| #[trigger] work.ensures((), result) ==> send.requires((result,)),
        ensures
            ran(work, send, task.delivered()),
    {
        let result = work();
        let ghost given = result;
        let answer = send(result);
        let delivered: bool = answer.is_ok();
        assert(work.ensures((), given) && send.ensures((given,), answer));
        EndedTask { slot: self.slot, running: self.running, delivered }
    }
}

impl EndedTask {
    /// Whether the result reached a live receiver.
    pub closed spec fn delivered(self) -> bool {
        self.delivered
    }

    /// The thread of the task is free again, and its slot is given back.
    pub fn finish(self, pool: &mut Pool) -> (outcome: TaskOutcome)
        requires
            old(pool).outstanding > 0,
        ensures
            outcome == outcome_where(self.delivered()),
            *final(pool) == slot_released(thread_released(*old(pool))),
    {
        self.running.release(pool);
        self.slot.release(pool);
        if self.delivered {
            TaskOutcome::Completed
        } else {
            TaskOutcome::Orphaned
        }
    }
}

/// The pool with one more thread at work.
pub open spec fn thread_taken(pool: Pool) -> Pool {
    Pool { running: plus_one(pool.running), ..pool }
}

/// The pool with one thread less at work, and one more blocked admitter owed a wake-up.
pub open spec fn thread_released(pool: Pool) -> Pool {
    Pool { running: minus_one(pool.running), wakeups: pool.wakeups.one_more(), ..pool }
}

/// A task that was accepted counts as outstanding from then on, and as running while it runs. It leaves
/// every counter where it found it: skipped, or run to its end, when only a wake-up is added.
pub proof fn an_accepted_task_leaves_the_counters_as_they_were(pool: Pool)
    ensures
        slot_taken(pool).outstanding == plus_one(pool.outstanding),
        slot_taken(pool).running == pool.running,
        thread_taken(slot_taken(pool)).outstanding == plus_one(pool.outstanding),
        thread_taken(slot_taken(pool)).running == plus_one(pool.running),
        slot_released(slot_taken(pool)) == pool,
        slot_released(thread_released(thread_taken(slot_taken(pool)))) == (Pool {
            wakeups: pool.wakeups.one_more(),
            ..pool
        }),
{
}

/// Every step on the queue and the threads changes one counter by one, up or down; a thread that is freed
/// owes one more waiter a wake-up, unless all are owed one.
pub proof fn a_step_changes_one_counter_by_one(pool: Pool)
    ensures
        pool.outstanding < usize::MAX ==> slot_taken(pool) == (Pool {
            outstanding: (pool.outstanding + 1) as usize,
            ..pool
        }),
        pool.outstanding > 0 ==> slot_released(pool) == (Pool {
            outstanding: (pool.outstanding - 1) as usize,
            ..pool
        }),
        pool.running < usize::MAX ==> thread_taken(pool) == (Pool { running: (pool.running + 1) as usize, ..pool }),
        pool.running > 0 ==> thread_released(pool) == (Pool {
            running: (pool.running - 1) as usize,
            wakeups: pool.wakeups.one_more(),
            ..pool
        }),
        pool.wakeups is All ==> pool.wakeups.one_more() is All,
        pool.wakeups matches Wakeups::Additional(count) ==> pool.wakeups.one_more() matches Wakeups::Additional(more)
            && more >= count && (count < usize::MAX ==> more == count + 1),
{
}

/// A queue without a limit is never full; one with a limit is full from there on and not before.
pub proof fn a_queue_is_full_at_its_limit(pool: Pool)
    ensures
        pool.queue_limit is None ==> !queue_is_full(pool),
        pool.queue_limit matches Some(limit) ==> (queue_is_full(pool) <==> pool.outstanding + 1 > limit),
{
}

/// A positive number that is written down is the limit, with a plus sign or without; zero is none, and
/// where nothing is written there is none.
pub proof fn a_written_limit_is_the_limit(limit: nat, text: Seq<char>)
    requires
        0 < limit <= usize::MAX,
    ensures
        configured_limit(Some(decimal(limit))) == Some(limit),
        configured_limit(Some(seq!['+'] + decimal(limit))) == Some(limit),
        configured_limit(Some(decimal(0))) is None,
        configured_limit(None) is None,
        configured_limit(Some(text)) == Some(limit) <==> unsigned_value(text) == Some(limit),
        unsigned_value(text) is None ==> configured_limit(Some(text)) is None,
        unsigned_value(text) is Some && unsigned_value(text)->0 > usize::MAX ==> configured_limit(Some(text)) is None,
{
    decimal_reads_back(limit);
    decimal_reads_back(0);
    assert((seq!['+'] + decimal(limit)).skip(1) =~= decimal(limit));
}

/// A configuration brings each percentage into `1..=100`, which leaves those alone that lie there; it
/// decides whether arbitration is on, and touches nothing else. Asking to be the first changes nothing
/// where there was one before.
pub proof fn a_setting_is_brought_into_range(pool: Pool, enabled: bool, occupancy_pct: u32, encode_reserve_pct: u32)
    ensures
        ({
            let after = configured(pool, enabled, occupancy_pct, encode_reserve_pct);
            let once = configured_once(pool, enabled, occupancy_pct, encode_reserve_pct);
            &&& after == (Pool {
                arbitration_enabled: enabled,
                occupancy_pct: after.occupancy_pct,
                encode_reserve_pct: after.encode_reserve_pct,
                arbitration_configured: true,
                ..pool
            })
            &&& 1 <= after.occupancy_pct <= 100
            &&& 1 <= after.encode_reserve_pct <= 100
            &&& 1 <= occupancy_pct <= 100 ==> after.occupancy_pct == occupancy_pct
            &&& 1 <= encode_reserve_pct <= 100 ==> after.encode_reserve_pct == encode_reserve_pct
            &&& occupancy_pct == 0 ==> after.occupancy_pct == 1
            &&& encode_reserve_pct == 0 ==> after.encode_reserve_pct == 1
            &&& occupancy_pct > 100 ==> after.occupancy_pct == 100
            &&& encode_reserve_pct > 100 ==> after.encode_reserve_pct == 100
            &&& pool.arbitration_configured ==> once == pool
            &&& !pool.arbitration_configured ==> once == after
        }),
{
}

/// In a fresh process nothing is outstanding, the pool has no threads, and nobody has configured the
/// arbiter, which is on at three quarters of the pool and leaves half of it to encode.
pub proof fn a_fresh_pool_is_idle(queue_limit: Option<usize>)
    ensures
        ({
            let pool = Pool::fresh(queue_limit);
            &&& pool.queue_limit == queue_limit
            &&& pool.outstanding == 0 && pool.running == 0 && pool.pool_threads == 0
            &&& pool.encode_outstanding == 0 && pool.decode_outstanding == 0
            &&& pool.encode_timeout_drops == 0 && pool.decode_timeout_drops == 0
            &&& pool.arbitration_enabled && !pool.arbitration_configured
            &&& 4 * pool.occupancy_pct == 3 * 100
            &&& 2 * pool.encode_reserve_pct == 100
            &&& pool.wakeups == Wakeups::Additional(0)
        }),
{
}

/// A task that starts hands on what its work gave. Where the work gives `gave`, be it a value or a panic,
/// that is what is sent: a receiver that is still there gets it and the task is completed, and otherwise it
/// is orphaned, though its work was done. One more task is outstanding and one more running meanwhile, and
/// afterwards as many as before.
pub proof fn a_started_task_hands_on_what_its_work_gave<R, P, F, S>(
    pool: Pool,
    work: F,
    send: S,
    gave: Result<R, P>,
    receiver_there: bool,
    delivered: bool,
) where F: FnOnce() -> Result<R, P>, S: FnOnce(Result<R, P>) -> Result<(), Result<R, P>>
    requires
        ran(work, send, delivered),
        forall|result: Result<R, P>| #[trigger] work.ensures((), result) ==> result == gave,
        forall|answer: Result<(), Result<R, P>>| #[trigger]
            send.ensures((gave,), answer) ==> (answer is Ok <==> receiver_there),
    ensures
        work.ensures((), gave),
        exists|answer: Result<(), Result<R, P>>| #[trigger]
            send.ensures((gave,), answer) && (answer is Ok <==> receiver_there),
        outcome_where(delivered) == (if receiver_there {
            TaskOutcome::Completed
        } else {
            TaskOutcome::Orphaned
        }),
        thread_taken(slot_taken(pool)).outstanding == plus_one(pool.outstanding),
        thread_taken(slot_taken(pool)).running == plus_one(pool.running),
        slot_released(thread_released(thread_taken(slot_taken(pool)))) == (Pool {
            wakeups: pool.wakeups.one_more(),
            ..pool
        }),
{
}

/// Where a limit is set, accepting tasks never takes the queue beyond it.
pub proof fn an_accepted_task_stays_within_the_limit(pool: Pool, limit: usize)
    requires
        pool.queue_limit == Some(limit),
        !queue_is_full(pool),
    ensures
        slot_taken(pool).outstanding == pool.outstanding + 1,
        slot_taken(pool).outstanding <= limit,
{
}

/// Of two configurations that each ask to be the first, the first stays; one that does not ask wins
/// over whatever came before it.
pub proof fn the_first_settings_stay_and_the_last_override(
    pool: Pool,
    first: (bool, u32, u32),
    second: (bool, u32, u32),
)
    ensures
        ({
            let once = configured_once(pool, first.0, first.1, first.2);
            &&& configured_once(once, second.0, second.1, second.2) == once
            &&& configured(once, second.0, second.1, second.2) == configured(pool, second.0, second.1, second.2)
        }),
{
}

} // verus!
