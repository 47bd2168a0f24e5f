//! Encode/decode arbitration for the shared pool.
//!
//! The encode (SPHINX wrap and SURB generation) and decode (SPHINX peel) paths share the single
//! pool. Left unmanaged, a heavy download floods decode (forwarding) and starves SURB encode, the
//! SURB ring drains, and the download collapses.
//!
//! The arbiter is deliberately **asymmetric and occupancy-gated** so it never harms the common case:
//!   * Only decode is ever throttled; encode never blocks (it is the light, latency-critical,
//!     protected class).
//!   * Decode is throttled only when all of these hold: the pool is genuinely saturated, encode work
//!     is actually present, and decode already exceeds its share.
//!   * A pure forwarding relay is therefore never throttled; nor is any node whose pool is below the
//!     occupancy threshold.
//!
//! Occupancy is measured by the tasks actually executing on a pool thread, not by the outstanding
//! counters, which the deep pipeline ready-queues keep saturated.

use vstd::prelude::*;

use crate::parallelize::cpu::{
    clamp_pct, clamped_pct, minus_one, plus_one, slot_taken, thread_released, thread_taken, Pool, Wakeups,
};
use crate::text::{decimal, decimal_string};

verus! {

/// Configuration of the encode/decode pool arbiter. Modelled as an enum so the disabled state cannot
/// carry (and silently ignore) tuning percentages.
#[derive(Clone, Copy, Debug, PartialEq, Eq, Structural)]
pub enum ArbitrationConfig {
    /// Decode is never throttled; the pool is shared first-come-first-served.
    Disabled,
    /// Decode yields pool slots to encode under a genuine flood.
    Enabled {
        /// Pool occupancy (percent of threads actually running) at or above which decode admission
        /// may engage. Below it, decode is never throttled.
        occupancy_pct: u32,
        /// Share of the pool (percent) that decode yields to encode when both contend under saturation.
        encode_reserve_pct: u32,
    },
}

/// A percentage in an [`ArbitrationConfig::Enabled`] fell outside `1..=100`.
#[derive(Clone, Copy, Debug, PartialEq, Eq, Structural)]
pub enum ArbitrationConfigError {
    /// `occupancy_pct` was out of range.
    OccupancyOutOfRange(u32),
    /// `encode_reserve_pct` was out of range.
    EncodeReserveOutOfRange(u32),
}

impl ArbitrationConfigError {
    /// The error in words.
    pub fn message(&self) -> (text: String)
        ensures
            text@ == (match *self {
                ArbitrationConfigError::OccupancyOutOfRange(pct) => "occupancy_pct must be in 1..=100, got "@
                    + decimal(pct as nat),
                ArbitrationConfigError::EncodeReserveOutOfRange(pct) =>
                    "encode_reserve_pct must be in 1..=100, got "@ + decimal(pct as nat),
            }),
    {
        match *self {
            ArbitrationConfigError::OccupancyOutOfRange(pct) => {
                let mut text: String = "occupancy_pct must be in 1..=100, got ".to_string();
                text.append(decimal_string(pct as u64).as_str());
                text
            },
            ArbitrationConfigError::EncodeReserveOutOfRange(pct) => {
                let mut text: String = "encode_reserve_pct must be in 1..=100, got ".to_string();
                text.append(decimal_string(pct as u64).as_str());
                text
            },
        }
    }
}

impl ArbitrationConfig {
    /// Both percentages must lie in `1..=100` when arbitration is enabled.
    pub fn validate(&self) -> (result: Result<(), ArbitrationConfigError>)
        ensures
            result == (match *self {
                ArbitrationConfig::Disabled => Ok::<(), ArbitrationConfigError>(()),
                ArbitrationConfig::Enabled { occupancy_pct, encode_reserve_pct } => {
                    if !(1 <= occupancy_pct <= 100) {
                        Err(ArbitrationConfigError::OccupancyOutOfRange(occupancy_pct))
                    } else if !(1 <= encode_reserve_pct <= 100) {
                        Err(ArbitrationConfigError::EncodeReserveOutOfRange(encode_reserve_pct))
                    } else {
                        Ok(())
                    }
                },
            }),
    {
        if let ArbitrationConfig::Enabled { occupancy_pct, encode_reserve_pct } = *self {
            if !(1 <= occupancy_pct && occupancy_pct <= 100) {
                return Err(ArbitrationConfigError::OccupancyOutOfRange(occupancy_pct));
            }
            if !(1 <= encode_reserve_pct && encode_reserve_pct <= 100) {
                return Err(ArbitrationConfigError::EncodeReserveOutOfRange(encode_reserve_pct));
            }
        }
        Ok(())
    }
}

/// Returns the number of tasks currently executing on a pool thread.
#[inline]
pub fn running_tasks(pool: &Pool) -> (count: usize)
    ensures
        count == pool.running,
{
    pool.running
}

/// The pool with `config` in force: the percentages brought into `1..=100`, those of an earlier
/// configuration kept while arbitration is off, and every waiter owed a wake-up.
pub open spec fn applied(pool: Pool, config: ArbitrationConfig) -> Pool {
    match config {
        ArbitrationConfig::Disabled => Pool { arbitration_enabled: false, wakeups: Wakeups::All, ..pool },
        ArbitrationConfig::Enabled { occupancy_pct, encode_reserve_pct } => Pool {
            arbitration_enabled: true,
            occupancy_pct: clamped_pct(occupancy_pct),
            encode_reserve_pct: clamped_pct(encode_reserve_pct),
            wakeups: Wakeups::All,
            ..pool
        },
    }
}

/// The pool with `config` in force and the arbiter marked as configured.
pub open spec fn arbitrated(pool: Pool, config: ArbitrationConfig) -> Pool {
    Pool { arbitration_configured: true, ..applied(pool, config) }
}

/// As [`arbitrated`], where nobody has configured the arbiter before; otherwise as it was.
pub open spec fn arbitrated_once(pool: Pool, config: ArbitrationConfig) -> Pool {
    if pool.arbitration_configured {
        pool
    } else {
        arbitrated(pool, config)
    }
}

/// Applies `config` to the arbiter's settings; percentages are clamped defensively to `1..=100`.
fn apply(pool: &mut Pool, config: ArbitrationConfig)
    ensures
        *final(pool) == applied(*old(pool), config),
{
    match config {
        ArbitrationConfig::Disabled => {
            pool.arbitration_enabled = false;
        },
        ArbitrationConfig::Enabled { occupancy_pct, encode_reserve_pct } => {
            pool.occupancy_pct = clamp_pct(occupancy_pct);
            pool.encode_reserve_pct = clamp_pct(encode_reserve_pct);
            pool.arbitration_enabled = true;
        },
    }
    // A live policy change must wake every blocked decode admitter: they re-evaluate admission on
    // wake, so a disable or a loosened cap takes effect immediately instead of stranding them under
    // the previous policy.
    pool.wakeups = Wakeups::All;
}

/// Configure the arbiter. Call once at startup, next to [`super::init_thread_pool`].
///
/// Applies unconditionally (last write wins) and marks the arbiter configured — use this for an
/// explicit process-level override (e.g. a benchmark toggling on/off). Node startup should prefer
/// [`with_arbitration_once`] so it cannot clobber such an override or a peer pipeline.
pub fn with_arbitration(pool: &mut Pool, config: ArbitrationConfig)
    ensures
        *final(pool) == arbitrated(*old(pool), config),
        old(pool).well_formed() ==> final(pool).well_formed(),
{
    apply(pool, config);
    pool.arbitration_configured = true;
}

/// Configure the arbiter only if it has not been configured yet, returning `true` if this call
/// applied the settings. Idempotent and first-wins: the arbiter is a single process-global, so a
/// per-node pipeline startup uses this to configure it once without overwriting an earlier explicit
/// [`with_arbitration`] or another node's already-applied settings.
pub fn with_arbitration_once(pool: &mut Pool, config: ArbitrationConfig) -> (applied_now: bool)
    ensures
        applied_now == !old(pool).arbitration_configured,
        *final(pool) == arbitrated_once(*old(pool), config),
        old(pool).well_formed() ==> final(pool).well_formed(),
{
    if pool.arbitration_configured {
        return false;
    }
    pool.arbitration_configured = true;
    apply(pool, config);
    true
}

/// The numbers that the admission policy computes with: the size of the pool and its percentages.
#[derive(Clone, Copy, Debug, PartialEq, Eq, Structural)]
pub struct Terms {
    pub pool_threads: usize,
    pub occupancy_pct: u32,
    pub reserve_pct: u32,
}

/// How far a decode task has come on its way to a pool slot.
#[derive(Clone, Copy, Debug, PartialEq, Eq, Structural)]
pub enum Admission {
    /// It has not asked yet.
    Fresh,
    /// It was refused: register for wake-ups, then ask again. It asks for a place among the threads that
    /// the pool had when it first asked.
    Listen { pool_threads: usize },
    /// It was refused again after it registered: wait for a wake-up, then ask again.
    Wait { pool_threads: usize },
    /// Its slot is reserved.
    Admitted,
}

/// Whether the thread counts that the admission policy computes with fit into 64 bits.
pub open spec fn cap_is_defined(pool: Pool, terms: Terms) -> bool {
    &&& terms.pool_threads * terms.occupancy_pct <= u64::MAX
    &&& throttles(
        terms.pool_threads,
        pool.running,
        pool.decode_outstanding,
        pool.encode_outstanding,
        terms.occupancy_pct,
    ) ==> terms.pool_threads * terms.reserve_pct <= u64::MAX
}

/// Whether one reservation on `terms` goes through: decode is below its cap, or has none and the
/// counter has not reached its end.
pub open spec fn may_reserve(pool: Pool, terms: Terms) -> bool {
    match admit_cap(
        terms.pool_threads,
        pool.running,
        pool.decode_outstanding,
        pool.encode_outstanding,
        terms.occupancy_pct,
        terms.reserve_pct,
    ) {
        Some(cap) => pool.decode_outstanding < cap,
        None => pool.decode_outstanding < usize::MAX,
    }
}

/// The terms on which `pool` admits a decode task that has come as far as `progress`, or `None` where it
/// passes straight through: arbitration is off, or the pool had no threads when the task first asked. The
/// percentages are those in force now; the thread count is the one at the first step.
pub open spec fn asking_terms(pool: Pool, progress: Admission) -> Option<Terms> {
    let pool_threads = match progress {
        Admission::Listen { pool_threads } => pool_threads,
        Admission::Wait { pool_threads } => pool_threads,
        _ => pool.pool_threads,
    };
    if !pool.arbitration_enabled || (progress is Fresh && pool_threads == 0) {
        None
    } else {
        Some(
            Terms { pool_threads, occupancy_pct: pool.occupancy_pct, reserve_pct: pool.encode_reserve_pct },
        )
    }
}

/// The pool with one more decode slot reserved.
pub open spec fn decode_reserved(pool: Pool) -> Pool {
    Pool { decode_outstanding: plus_one(pool.decode_outstanding), ..pool }
}

/// Where one step takes a decode task that has come as far as `progress`, and the pool with it.
pub open spec fn admission_step(pool: Pool, progress: Admission) -> (Pool, Admission) {
    if progress is Admitted {
        (pool, Admission::Admitted)
    } else {
        match asking_terms(pool, progress) {
            None => (decode_reserved(pool), Admission::Admitted),
            Some(terms) => if may_reserve(pool, terms) {
                (decode_reserved(pool), Admission::Admitted)
            } else if progress is Listen {
                (pool, Admission::Wait { pool_threads: terms.pool_threads })
            } else {
                (pool, Admission::Listen { pool_threads: terms.pool_threads })
            },
        }
    }
}

/// One step of a decode task towards a slot: reserve one without starving encode, or say what to wait
/// for. Passthrough when arbitration is disabled or the pool is uninitialised.
///
/// A task that is refused registers for wake-ups and asks once more before it waits, so that a slot
/// freed in between — or a disable, or a loosened policy — is not missed. The percentages and whether
/// arbitration is on are looked up at every step; the thread count is that of the first one.
pub fn admit_decode(pool: &mut Pool, progress: Admission) -> (next: Admission)
    requires
        progress !is Admitted ==> (asking_terms(*old(pool), progress) matches Some(terms) ==> cap_is_defined(
            *old(pool),
            terms,
        )),
    ensures
        (*final(pool), next) == admission_step(*old(pool), progress),
{
    let registered: bool = matches!(progress, Admission::Listen { .. });
    let pool_threads: usize = match progress {
        Admission::Admitted => {
            return Admission::Admitted;
        },
        Admission::Fresh => {
            if pool.pool_threads == 0 {
                pool.decode_outstanding = pool.decode_outstanding.wrapping_add(1);
                return Admission::Admitted;
            }
            pool.pool_threads
        },
        Admission::Listen { pool_threads } => pool_threads,
        Admission::Wait { pool_threads } => pool_threads,
    };
    if !pool.arbitration_enabled {
        pool.decode_outstanding = pool.decode_outstanding.wrapping_add(1);
        return Admission::Admitted;
    }
    let occupancy_pct: u32 = pool.occupancy_pct;
    let reserve_pct: u32 = pool.encode_reserve_pct;
    if try_reserve_decode(pool, pool_threads, occupancy_pct, reserve_pct) {
        Admission::Admitted
    } else if registered {
        Admission::Wait { pool_threads }
    } else {
        Admission::Listen { pool_threads }
    }
}

/// Atomically reserves one decode slot — increments the decode count iff decode is currently
/// under its admission cap — and returns `true`. Returns `false` without reserving when the cap is
/// full.
pub fn try_reserve_decode(pool: &mut Pool, pool_threads: usize, occupancy_pct: u32, reserve_pct: u32) -> (reserved: bool)
    requires
        cap_is_defined(*old(pool), Terms { pool_threads, occupancy_pct, reserve_pct }),
    ensures
        reserved == may_reserve(*old(pool), Terms { pool_threads, occupancy_pct, reserve_pct }),
        *final(pool) == (if reserved {
            decode_reserved(*old(pool))
        } else {
            *old(pool)
        }),
{
    let decode: usize = pool.decode_outstanding;
    let limit: usize = match decode_admit_cap(
        pool_threads,
        pool.running,
        decode,
        pool.encode_outstanding,
        occupancy_pct,
        reserve_pct,
    ) {
        Some(cap) => cap,
        None => usize::MAX,
    };
    if decode >= limit {
        return false;
    }
    pool.decode_outstanding = decode + 1;
    true
}

/// Decode must outnumber encode outstanding by more than this factor to count as a "flood" worth
/// throttling. Below it the two demands are comparable, FIFO already serves them fairly, and capping
/// decode would needlessly cut delivery throughput (a delivered packet needs both a decode and the
/// encode that replenishes its SURB).
///
/// Deliberately a fixed structural invariant, not an [`ArbitrationConfig`] knob: the flood ratio
/// defines *what counts as a flood at all* and changing it risks either never engaging or throttling
/// balanced load.
pub const DECODE_FLOOD_FACTOR: usize = 2;

/// The running tasks from which a pool counts as saturated: the least number that is not below
/// `occupancy_pct` percent of its threads, and at least one.
pub open spec fn occupancy_threshold(pool_threads: usize, occupancy_pct: u32) -> usize {
    let share = ((pool_threads * occupancy_pct + 99) / 100) as u64 as usize;
    if share > 1 {
        share
    } else {
        1
    }
}

/// Whether decode is throttled at all: the pool is saturated, encode work is present, and decode
/// floods it.
pub open spec fn throttles(
    pool_threads: usize,
    running: usize,
    decode_outstanding: usize,
    enc_outstanding: usize,
    occupancy_pct: u32,
) -> bool {
    &&& running >= occupancy_threshold(pool_threads, occupancy_pct)
    &&& enc_outstanding > 0
    &&& decode_outstanding > enc_outstanding * DECODE_FLOOD_FACTOR
}

/// The threads left to encode: `encode_reserve_pct` percent of the pool, rounded up, and no more than
/// encode can use.
pub open spec fn encode_reserve(pool_threads: usize, enc_outstanding: usize, encode_reserve_pct: u32) -> usize {
    let share = ((pool_threads * encode_reserve_pct + 99) / 100) as u64 as usize;
    if share < enc_outstanding {
        share
    } else {
        enc_outstanding
    }
}

/// The most decode tasks that may be outstanding, or `None` where decode is unconstrained.
pub open spec fn admit_cap(
    pool_threads: usize,
    running: usize,
    decode_outstanding: usize,
    enc_outstanding: usize,
    occupancy_pct: u32,
    encode_reserve_pct: u32,
) -> Option<usize> {
    if throttles(pool_threads, running, decode_outstanding, enc_outstanding, occupancy_pct) {
        let left = pool_threads - encode_reserve(pool_threads, enc_outstanding, encode_reserve_pct);
        Some(
            if left > 1 {
                left as usize
            } else {
                1
            },
        )
    } else {
        None
    }
}

/// The decode-admission policy, as a pure function.
///
/// Returns `None` when decode is unconstrained — the pool is below the occupancy threshold
/// (`running < occupancy_pct% of pool`, or nothing runs at all), there is no encode work to protect (the pure-forwarding-relay case), or decode is not flooding
/// relative to encode. Otherwise returns `Some(cap)`, the maximum decode tasks allowed outstanding so
/// that up to `min(enc, encode_reserve_pct% of pool)` threads are left for encode; floored at 1 for
/// liveness.
pub fn decode_admit_cap(
    pool_threads: usize,
    running: usize,
    decode_outstanding: usize,
    enc_outstanding: usize,
    occupancy_pct: u32,
    encode_reserve_pct: u32,
) -> (cap: Option<usize>)
    requires
        pool_threads * occupancy_pct <= u64::MAX,
        throttles(pool_threads, running, decode_outstanding, enc_outstanding, occupancy_pct) ==> pool_threads
            * encode_reserve_pct <= u64::MAX,
    ensures
        cap == admit_cap(
            pool_threads,
            running,
            decode_outstanding,
            enc_outstanding,
            occupancy_pct,
            encode_reserve_pct,
        ),
{
    // At least one, so that tiny pools don't floor the threshold to 0, which would treat an idle pool
    // as saturated and defeat the threshold on exactly the small hosts.
    let occupied: u64 = pool_threads as u64 * occupancy_pct as u64;
    let full: u64 = ((occupied as u128 + 99) / 100) as u64;
    let share: usize = full as usize;
    let threshold: usize = if share > 1 {
        share
    } else {
        1
    };
    if running < threshold {
        return None;
    }
    if enc_outstanding == 0 {
        return None;
    }
    if decode_outstanding as u128 <= enc_outstanding as u128 * DECODE_FLOOD_FACTOR as u128 {
        return None;
    }
    let product: u64 = pool_threads as u64 * encode_reserve_pct as u64;
    let rounded: u64 = ((product as u128 + 99) / 100) as u64;
    let wanted: usize = rounded as usize;
    let reserve: usize = if wanted < enc_outstanding {
        wanted
    } else {
        enc_outstanding
    };
    let left: usize = pool_threads.saturating_sub(reserve);
    Some(
        if left > 1 {
            left
        } else {
            1
        },
    )
}

/// The path that a tagged task is counted for.
#[derive(Clone, Copy, Debug, PartialEq, Eq, Structural)]
pub enum Path {
    Encode,
    Decode,
}

/// The pool with one more encode task.
pub open spec fn encode_counted(pool: Pool) -> Pool {
    Pool { encode_outstanding: plus_one(pool.encode_outstanding), ..pool }
}

/// The pool with one task of `path` less, and one more blocked admitter owed a wake-up.
pub open spec fn path_released(pool: Pool, path: Path) -> Pool {
    match path {
        Path::Encode => Pool {
            encode_outstanding: minus_one(pool.encode_outstanding),
            wakeups: pool.wakeups.one_more(),
            ..pool
        },
        Path::Decode => Pool {
            decode_outstanding: minus_one(pool.decode_outstanding),
            wakeups: pool.wakeups.one_more(),
            ..pool
        },
    }
}

/// A task counted for one of the two paths. Whoever holds one gives it back with
/// [`TaggedGuard::release`], which also wakes a blocked decode admitter.
#[derive(Debug, PartialEq, Eq)]
pub struct TaggedGuard {
    path: Path,
}

impl TaggedGuard {
    /// The path that the task is counted for.
    pub closed spec fn path(self) -> Path {
        self.path
    }

    /// Guards a count that the caller has already taken for `path`.
    #[inline]
    pub fn new(path: Path) -> (guard: Self)
        ensures
            guard.path() == path,
    {
        TaggedGuard { path }
    }

    /// Counts an encode task. Encode is the protected class: it is never throttled.
    #[inline]
    pub fn enter_encode(pool: &mut Pool) -> (guard: Self)
        ensures
            guard.path() == Path::Encode,
            *final(pool) == encode_counted(*old(pool)),
    {
        pool.encode_outstanding = pool.encode_outstanding.wrapping_add(1);
        TaggedGuard { path: Path::Encode }
    }

    /// Gives the count back. Either counter can make a blocked decode admitter admissible, so one
    /// more waiter is owed a wake-up.
    #[inline]
    pub fn release(self, pool: &mut Pool)
        ensures
            *final(pool) == path_released(*old(pool), self.path()),
    {
        match self.path {
            Path::Encode => {
                pool.encode_outstanding = pool.encode_outstanding.wrapping_sub(1);
            },
            Path::Decode => {
                pool.decode_outstanding = pool.decode_outstanding.wrapping_sub(1);
            },
        }
        pool.wakeups = pool.wakeups.add_one();
    }
}

/// A task that is actually executing on a pool thread, from [`RunningGuard::enter`] to
/// [`RunningGuard::release`].
#[derive(Debug, PartialEq, Eq)]
pub struct RunningGuard {
    entered: (),
}

impl RunningGuard {
    /// A pool thread starts on a task.
    #[inline]
    pub fn enter(pool: &mut Pool) -> (guard: Self)
        ensures
            *final(pool) == thread_taken(*old(pool)),
    {
        pool.running = pool.running.wrapping_add(1);
        RunningGuard { entered: () }
    }

    /// The thread is free again. A finishing task (tagged or not) lowers occupancy, which can open
    /// admission for a blocked decode admitter, so one more waiter is owed a wake-up.
    #[inline]
    pub fn release(self, pool: &mut Pool)
        ensures
            *final(pool) == thread_released(*old(pool)),
    {
        pool.running = pool.running.wrapping_sub(1);
        pool.wakeups = pool.wakeups.add_one();
    }
}

/// A throttled decode path is never shut: its cap is at least one.
pub proof fn a_cap_is_never_zero(
    pool_threads: usize,
    running: usize,
    decode_outstanding: usize,
    enc_outstanding: usize,
    occupancy_pct: u32,
    encode_reserve_pct: u32,
)
    ensures
        admit_cap(
            pool_threads,
            running,
            decode_outstanding,
            enc_outstanding,
            occupancy_pct,
            encode_reserve_pct,
        ) matches Some(cap) ==> cap >= 1,
{
}

/// Decode is free while less than `occupancy_pct` percent of the threads run, without encode work to
/// protect, and while it does not flood encode; for every share of the pool that is a number of threads.
pub proof fn decode_is_free_unless_it_floods_a_saturated_pool(
    pool_threads: usize,
    running: usize,
    decode_outstanding: usize,
    enc_outstanding: usize,
    occupancy_pct: u32,
    encode_reserve_pct: u32,
)
    requires
        (pool_threads * occupancy_pct + 99) / 100 <= usize::MAX,
        100 * running < pool_threads * occupancy_pct || running == 0 || enc_outstanding == 0
            || decode_outstanding <= 2 * enc_outstanding,
    ensures
        admit_cap(
            pool_threads,
            running,
            decode_outstanding,
            enc_outstanding,
            occupancy_pct,
            encode_reserve_pct,
        ) is None,
{
}

/// Where the pool is saturated, encode has work and decode floods it, decode is capped at what is left of
/// the pool once encode has its percentage of the threads, rounded up, or as many as it has tasks where
/// that is less; and at one where nothing would be left. Everywhere else it is free.
pub proof fn a_throttled_decode_leaves_encode_its_percentage(
    pool_threads: usize,
    running: usize,
    decode_outstanding: usize,
    enc_outstanding: usize,
    occupancy_pct: u32,
    encode_reserve_pct: u32,
    share: nat,
)
    requires
        pool_threads * occupancy_pct <= 100 * usize::MAX,
        share <= usize::MAX,
        100 * share >= pool_threads * encode_reserve_pct,
        share > 0 ==> 100 * (share - 1) < pool_threads * encode_reserve_pct,
    ensures
        ({
            let cap = admit_cap(
                pool_threads,
                running,
                decode_outstanding,
                enc_outstanding,
                occupancy_pct,
                encode_reserve_pct,
            );
            let given = if enc_outstanding < share {
                enc_outstanding as int
            } else {
                share as int
            };
            &&& cap is Some <==> running >= 1 && 100 * running >= pool_threads * occupancy_pct && enc_outstanding >= 1
                && decode_outstanding > enc_outstanding + enc_outstanding
            &&& cap matches Some(most) ==> {
                &&& pool_threads - given >= 1 ==> most == pool_threads - given
                &&& pool_threads - given < 1 ==> most == 1
            }
        }),
{
    assert((pool_threads * encode_reserve_pct + 99) / 100 == share);
}

/// A decode slot is to be had exactly where the counter can take it and decode is free or below its cap.
pub proof fn a_slot_is_to_be_had_below_the_cap(pool: Pool, terms: Terms, share: nat)
    requires
        terms.pool_threads * terms.occupancy_pct <= 100 * usize::MAX,
        share <= usize::MAX,
        100 * share >= terms.pool_threads * terms.reserve_pct,
        share > 0 ==> 100 * (share - 1) < terms.pool_threads * terms.reserve_pct,
    ensures
        ({
            let saturated = pool.running >= 1 && 100 * pool.running >= terms.pool_threads * terms.occupancy_pct;
            let flooded = pool.encode_outstanding >= 1 && pool.decode_outstanding > pool.encode_outstanding
                + pool.encode_outstanding;
            let given = if pool.encode_outstanding < share {
                pool.encode_outstanding as int
            } else {
                share as int
            };
            may_reserve(pool, terms) <==> {
                &&& pool.decode_outstanding < usize::MAX
                &&& saturated && flooded ==> pool.decode_outstanding < 1 || pool.decode_outstanding
                    < terms.pool_threads - given
            }
        }),
{
    a_throttled_decode_leaves_encode_its_percentage(
        terms.pool_threads,
        pool.running,
        pool.decode_outstanding,
        pool.encode_outstanding,
        terms.occupancy_pct,
        terms.reserve_pct,
        share,
    );
}

/// A decode task asks on the percentages in force, among the threads that the pool had when it first
/// asked; it does not ask at all where arbitration is off, or where it comes to a pool without threads.
pub proof fn a_task_asks_on_the_policy_in_force(pool: Pool, progress: Admission)
    requires
        progress !is Admitted,
    ensures
        !pool.arbitration_enabled ==> asking_terms(pool, progress) is None,
        pool.arbitration_enabled && progress is Fresh && pool.pool_threads == 0 ==> asking_terms(pool, progress) is None,
        pool.arbitration_enabled && progress is Fresh && pool.pool_threads > 0 ==> asking_terms(pool, progress) == Some(
            Terms {
                pool_threads: pool.pool_threads,
                occupancy_pct: pool.occupancy_pct,
                reserve_pct: pool.encode_reserve_pct,
            },
        ),
        pool.arbitration_enabled && progress is Wait ==> asking_terms(pool, progress) == Some(
            Terms {
                pool_threads: progress->Wait_pool_threads,
                occupancy_pct: pool.occupancy_pct,
                reserve_pct: pool.encode_reserve_pct,
            },
        ),
        pool.arbitration_enabled && progress is Listen ==> asking_terms(pool, progress) == Some(
            Terms {
                pool_threads: progress->Listen_pool_threads,
                occupancy_pct: pool.occupancy_pct,
                reserve_pct: pool.encode_reserve_pct,
            },
        ),
{
}

/// A task that is refused changes nothing. At first it listens; a task that listens already waits; one
/// that has waited listens again. One that does not have to ask, or that finds room, is admitted and
/// counted once, and one that is admitted is not counted again.
pub proof fn a_refused_task_listens_before_it_waits(pool: Pool, progress: Admission)
    ensures
        ({
            let (after, next) = admission_step(pool, progress);
            let refused = progress !is Admitted && (asking_terms(pool, progress) matches Some(terms) && !may_reserve(
                pool,
                terms,
            ));
            &&& refused ==> after == pool
            &&& refused && progress is Listen ==> next == (Admission::Wait {
                pool_threads: progress->Listen_pool_threads,
            })
            &&& refused && progress is Wait ==> next == (Admission::Listen {
                pool_threads: progress->Wait_pool_threads,
            })
            &&& refused && progress is Fresh ==> next == (Admission::Listen { pool_threads: pool.pool_threads })
            &&& !refused ==> next is Admitted
            &&& !refused && progress !is Admitted && pool.decode_outstanding < usize::MAX ==> after == (Pool {
                decode_outstanding: (pool.decode_outstanding + 1) as usize,
                ..pool
            })
            &&& progress is Admitted ==> after == pool
        }),
{
}

/// A configuration touches the arbiter's settings alone: it switches arbitration on with its percentages,
/// each brought into `1..=100`, or off with those that were there, and wakes every waiter.
pub proof fn a_configuration_sets_the_policy_and_nothing_else(pool: Pool, config: ArbitrationConfig)
    ensures
        ({
            let after = arbitrated(pool, config);
            &&& after == (Pool {
                arbitration_enabled: after.arbitration_enabled,
                occupancy_pct: after.occupancy_pct,
                encode_reserve_pct: after.encode_reserve_pct,
                arbitration_configured: true,
                wakeups: Wakeups::All,
                ..pool
            })
            &&& config is Disabled ==> !after.arbitration_enabled && after.occupancy_pct == pool.occupancy_pct
                && after.encode_reserve_pct == pool.encode_reserve_pct
            &&& config matches ArbitrationConfig::Enabled { occupancy_pct, encode_reserve_pct } ==> {
                &&& after.arbitration_enabled
                &&& 1 <= occupancy_pct <= 100 ==> after.occupancy_pct == occupancy_pct
                &&& 1 <= encode_reserve_pct <= 100 ==> after.encode_reserve_pct == encode_reserve_pct
                &&& occupancy_pct == 0 ==> after.occupancy_pct == 1
                &&& encode_reserve_pct == 0 ==> after.encode_reserve_pct == 1
                &&& occupancy_pct > 100 ==> after.occupancy_pct == 100
                &&& encode_reserve_pct > 100 ==> after.encode_reserve_pct == 100
            }
            &&& pool.arbitration_configured ==> arbitrated_once(pool, config) == pool
            &&& !pool.arbitration_configured ==> arbitrated_once(pool, config) == after
        }),
{
}

/// A task is counted for its own path and no other, and giving it back owes one more waiter a wake-up.
pub proof fn a_task_is_counted_for_its_own_path(pool: Pool)
    ensures
        pool.encode_outstanding < usize::MAX ==> encode_counted(pool) == (Pool {
            encode_outstanding: (pool.encode_outstanding + 1) as usize,
            ..pool
        }),
        pool.decode_outstanding < usize::MAX ==> decode_reserved(pool) == (Pool {
            decode_outstanding: (pool.decode_outstanding + 1) as usize,
            ..pool
        }),
        pool.encode_outstanding > 0 ==> path_released(pool, Path::Encode) == (Pool {
            encode_outstanding: (pool.encode_outstanding - 1) as usize,
            wakeups: pool.wakeups.one_more(),
            ..pool
        }),
        pool.decode_outstanding > 0 ==> path_released(pool, Path::Decode) == (Pool {
            decode_outstanding: (pool.decode_outstanding - 1) as usize,
            wakeups: pool.wakeups.one_more(),
            ..pool
        }),
{
}

/// Under throttling, the cap and what encode can use of its reserve fit into the pool together,
/// unless the pool is so small that liveness needs the last thread.
pub proof fn a_cap_leaves_the_reserve_to_encode(
    pool_threads: usize,
    running: usize,
    decode_outstanding: usize,
    enc_outstanding: usize,
    occupancy_pct: u32,
    encode_reserve_pct: u32,
)
    ensures
        admit_cap(
            pool_threads,
            running,
            decode_outstanding,
            enc_outstanding,
            occupancy_pct,
            encode_reserve_pct,
        ) matches Some(cap) ==> cap == 1 || cap + encode_reserve(
            pool_threads,
            enc_outstanding,
            encode_reserve_pct,
        ) == pool_threads,
{
}

/// The cap is a hard limit: a reservation that a cap governs never takes decode beyond it, and one
/// that is refused leaves every counter alone.
pub proof fn a_reservation_never_exceeds_the_cap(pool: Pool, terms: Terms, cap: usize)
    requires
        admit_cap(
            terms.pool_threads,
            pool.running,
            pool.decode_outstanding,
            pool.encode_outstanding,
            terms.occupancy_pct,
            terms.reserve_pct,
        ) == Some(cap),
        may_reserve(pool, terms),
    ensures
        decode_reserved(pool).decode_outstanding <= cap,
{
}

/// Taking a slot, a thread or a decode reservation never makes room for a refused decode task;
/// so no wake-up is owed for any of them.
pub proof fn taking_never_makes_room(pool: Pool, terms: Terms)
    requires
        !may_reserve(pool, terms),
        pool.running < usize::MAX,
        pool.decode_outstanding < usize::MAX,
    ensures
        !may_reserve(slot_taken(pool), terms),
        !may_reserve(thread_taken(pool), terms),
        !may_reserve(decode_reserved(pool), terms),
{
}

/// A task of either path that is counted and given back leaves every counter where it found it; only
/// a wake-up is added.
pub proof fn a_counted_task_leaves_the_counters_as_they_were(pool: Pool)
    ensures
        path_released(encode_counted(pool), Path::Encode) == (Pool { wakeups: pool.wakeups.one_more(), ..pool }),
        path_released(decode_reserved(pool), Path::Decode) == (Pool { wakeups: pool.wakeups.one_more(), ..pool }),
{
}

/// Of two configurations that each ask to be the first, the first stays; one that does not ask
/// decides whether arbitration is on, and with which percentages, whatever came before it.
pub proof fn the_first_configuration_stays_and_the_last_overrides(
    pool: Pool,
    first: ArbitrationConfig,
    second: ArbitrationConfig,
)
    ensures
        arbitrated_once(arbitrated_once(pool, first), second) == arbitrated_once(pool, first),
        arbitrated(arbitrated_once(pool, first), second).arbitration_enabled == (second is Enabled),
        second is Enabled ==> {
            let last = arbitrated(arbitrated_once(pool, first), second);
            &&& last.occupancy_pct == clamped_pct(second->occupancy_pct)
            &&& last.encode_reserve_pct == clamped_pct(second->encode_reserve_pct)
        },
{
}

/// With percentages of at most a hundred, a task that asks for a place among any number of threads that a
/// hundredfold of fits into 64 bits can ask at any time.
pub proof fn a_pool_of_ordinary_size_can_be_asked(pool: Pool, progress: Admission, terms: Terms)
    requires
        pool.well_formed(),
        asking_terms(pool, progress) == Some(terms),
        terms.pool_threads * 100 <= u64::MAX,
    ensures
        cap_is_defined(pool, terms),
{
    let threads = terms.pool_threads as int;
    let occupancy = pool.occupancy_pct as int;
    let reserve = pool.encode_reserve_pct as int;
    assert(threads * occupancy <= threads * 100) by (nonlinear_arith)
        requires
            threads >= 0,
            occupancy <= 100,
    ;
    assert(threads * reserve <= threads * 100) by (nonlinear_arith)
        requires
            threads >= 0,
            reserve <= 100,
    ;
}

/// A waiting decode task follows the pool: once the policy in force and the counters leave room for it,
/// its next step admits it and raises the decode count by one, whatever refused it before.
pub proof fn a_waiter_gets_the_room_that_the_pool_has_now(pool: Pool, progress: Admission, terms: Terms)
    requires
        progress !is Admitted,
        asking_terms(pool, progress) == Some(terms),
        may_reserve(pool, terms),
    ensures
        admission_step(pool, progress).1 == Admission::Admitted,
        admission_step(pool, progress).0 == (Pool {
            decode_outstanding: (pool.decode_outstanding + 1) as usize,
            ..pool
        }),
{
}

/// A policy that is changed while decode tasks wait reaches all of them: each is owed a wake-up, and its
/// next step goes by the new percentages alone.
pub proof fn a_new_policy_reaches_every_waiter(
    pool: Pool,
    pool_threads: usize,
    occupancy_pct: u32,
    encode_reserve_pct: u32,
)
    ensures
        ({
            let changed = arbitrated(pool, ArbitrationConfig::Enabled { occupancy_pct, encode_reserve_pct });
            let terms = Terms {
                pool_threads,
                occupancy_pct: clamped_pct(occupancy_pct),
                reserve_pct: clamped_pct(encode_reserve_pct),
            };
            &&& changed.wakeups == Wakeups::All
            &&& admission_step(changed, Admission::Wait { pool_threads }).1 is Admitted <==> may_reserve(changed, terms)
            &&& admission_step(changed, Admission::Listen { pool_threads }).1 is Admitted <==> may_reserve(
                changed,
                terms,
            )
        }),
{
}

/// A refused decode task keeps the thread count that it first asked with, whatever the pool's is later.
pub proof fn a_waiter_keeps_its_thread_count(pool: Pool, pool_threads: usize, later: usize)
    ensures
        ({
            let resized = Pool { pool_threads: later, ..pool };
            let waiting = Admission::Wait { pool_threads };
            let listening = Admission::Listen { pool_threads };
            &&& admission_step(resized, waiting).1 == admission_step(pool, waiting).1
            &&& admission_step(resized, listening).1 == admission_step(pool, listening).1
            &&& admission_step(pool, waiting).1 is Listen ==> admission_step(pool, waiting).1 == listening
            &&& admission_step(pool, listening).1 is Wait ==> admission_step(pool, listening).1 == waiting
        }),
{
}

/// Turning arbitration off lets every decode task that asks from then on through at once, those that
/// were refused before it as well.
pub proof fn disabling_lets_every_waiter_through(pool: Pool, progress: Admission)
    requires
        progress !is Admitted,
    ensures
        ({
            let disabled = arbitrated(pool, ArbitrationConfig::Disabled);
            &&& disabled.wakeups == Wakeups::All
            &&& admission_step(disabled, progress) == (decode_reserved(disabled), Admission::Admitted)
        }),
{
}

} // verus!
