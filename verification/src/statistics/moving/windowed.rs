//! Ratio of observed to expected events over a sliding time window.

use vstd::prelude::*;

use crate::time::{Duration, Instant, NANOS_PER_MILLI};

verus! {

/// One time slice of the ring.
///
/// `stamp` is the absolute slice number this slot currently holds, which is what makes reuse
/// detectable without a separate clear pass: a slot whose stamp is older than the window is stale,
/// and its counts are discarded the moment it is claimed.
#[derive(Clone, Copy, Debug, PartialEq, Eq)]
pub struct Bucket {
    pub stamp: u64,
    pub expected: u64,
    pub observed: u64,
}

/// The two counters a slice keeps.
#[derive(Clone, Copy, Debug, PartialEq, Eq)]
pub enum Tally {
    Expected,
    Observed,
}

impl Bucket {
    /// The counter that `tally` selects.
    pub open spec fn count(self, tally: Tally) -> u64 {
        match tally {
            Tally::Expected => self.expected,
            Tally::Observed => self.observed,
        }
    }
}

/// A fraction between zero and one: of `expected` events, `observed` came back.
///
/// `expected` is positive and `observed` never exceeds it.
#[derive(Clone, Copy, Debug, PartialEq, Eq)]
pub struct Ratio {
    pub observed: u64,
    pub expected: u64,
}

/// `total`, held at the largest count a slice can carry.
pub open spec fn capped(total: nat) -> u64 {
    if total <= u64::MAX {
        total as u64
    } else {
        u64::MAX
    }
}

/// The number of the slice that `now` falls in: whole slice widths since the epoch, with
/// everything before the epoch in slice zero. Slice numbers are 64 bits wide and wrap.
pub open spec fn slice_number(width: nat, epoch: int, now: int) -> u64 {
    let elapsed = if now >= epoch {
        now - epoch
    } else {
        0
    };
    ((elapsed / width as int) % 0x1_0000_0000_0000_0000) as u64
}

/// The slot of a ring that `slice` belongs to.
pub open spec fn slot_of(slice: u64, ring: nat) -> int {
    slice as int % ring as int
}

/// Whether every slot of a ring holds a slice that belongs to it, or nothing at all.
pub open spec fn ring_in_order(slots: Seq<Bucket>) -> bool {
    &&& slots.len() > 0
    &&& forall|j: int|
        0 <= j < slots.len() ==> slot_of((#[trigger] slots[j]).stamp, slots.len()) == j || slots[j] == (Bucket {
            stamp: 0,
            expected: 0,
            observed: 0,
        })
}

/// The ring after a record in `slice`: its slot takes the counts, starting afresh where it held an
/// older slice; where it holds a newer one, the record is dropped.
pub open spec fn recorded(slots: Seq<Bucket>, slice: u64, expected: u64, observed: u64) -> Seq<Bucket> {
    let index = slot_of(slice, slots.len());
    let slot = slots[index];
    if slice < slot.stamp {
        slots
    } else if slice == slot.stamp {
        slots.update(
            index,
            Bucket {
                stamp: slice,
                expected: capped((slot.expected + expected) as nat),
                observed: capped((slot.observed + observed) as nat),
            },
        )
    } else {
        slots.update(index, Bucket { stamp: slice, expected, observed })
    }
}

/// The sum of one counter over the slots whose slice lies in `oldest..=newest`.
pub open spec fn live_total(slots: Seq<Bucket>, oldest: nat, newest: nat, tally: Tally) -> nat
    decreases slots.len(),
{
    if slots.len() == 0 {
        0
    } else {
        let slot = slots.last();
        let rest = live_total(slots.drop_last(), oldest, newest, tally);
        if oldest <= slot.stamp <= newest {
            rest + slot.count(tally) as nat
        } else {
            rest
        }
    }
}

/// The oldest of the `slices` slices that end with `newest`, where `slices` is first brought into
/// `1..=ring`.
pub open spec fn oldest_of(slices: nat, ring: nat, newest: nat) -> nat {
    let span = if slices < 1 {
        1nat
    } else if slices > ring {
        ring
    } else {
        slices
    };
    if newest >= span - 1 {
        (newest - (span - 1)) as nat
    } else {
        0
    }
}

/// `observed` over `expected` as a fraction of at most one, or `None` where nothing was expected.
pub open spec fn ratio_of(expected: u64, observed: u64) -> Option<Ratio> {
    if expected == 0 {
        None
    } else if observed > expected {
        Some(Ratio { observed: expected, expected })
    } else {
        Some(Ratio { observed, expected })
    }
}

/// The ratio that a ring reads over the `slices` slices that end with `newest`.
pub open spec fn recent_ratio(slots: Seq<Bucket>, slices: nat, newest: u64) -> Option<Ratio> {
    let oldest = oldest_of(slices, slots.len(), newest as nat);
    ratio_of(
        capped(live_total(slots, oldest, newest as nat, Tally::Expected)),
        capped(live_total(slots, oldest, newest as nat, Tally::Observed)),
    )
}

/// Fraction of expected events that were actually observed, over a sliding window.
///
/// Answers "how much of what I set in motion came back, lately". Both counters only ever increase
/// within a slice, and whole slices age out — so unlike a decaying average the value can climb
/// again the moment things recover, and unlike a cumulative ratio it is not anchored by ancient
/// history. Idle reads as *no data* rather than as failure, so something merely unused is never
/// mistaken for something broken.
///
/// # Bucketing
///
/// Time is divided into fixed slices; the ring holds the most recent `BUCKETS`. A read sums the
/// live slices. Expectations and observations are counted in whichever slice they *occur* in,
/// which is not necessarily the same one — so the ratio is only meaningful when the window is
/// comfortably longer than the delay between an expectation and its observation. Where it is not,
/// a slice can briefly report more observations than expectations, hence the clamp.
///
/// # Storage
///
/// A fixed-size array of plain counters, so the whole type stays `Copy` and can live inside another
/// `Copy` observation without forcing heap allocation or interior mutability on it.
#[derive(Clone, Copy, Debug, PartialEq, Eq)]
pub struct WindowedRatio<const BUCKETS: usize> {
    buckets: [Bucket; BUCKETS],
    bucket_width: Duration,
    epoch: Instant,
}

impl<const BUCKETS: usize> WindowedRatio<BUCKETS> {
    #[verifier::type_invariant]
    spec fn well_formed(self) -> bool {
        &&& BUCKETS > 0
        &&& self.bucket_width.nanos() >= NANOS_PER_MILLI
        &&& ring_in_order(self.buckets@)
    }

    /// The slots of the ring.
    pub closed spec fn slots(self) -> Seq<Bucket> {
        self.buckets@
    }

    /// The width of a slice in nanoseconds.
    pub closed spec fn width(self) -> nat {
        self.bucket_width.nanos()
    }

    /// The start of slice zero, in nanoseconds on the clock.
    pub closed spec fn epoch(self) -> int {
        self.epoch.nanos()
    }

    /// What holds of every ratio: it has its `BUCKETS` slots, at least one, each with a slice of its
    /// own or none, and a slice has some width.
    pub open spec fn is_valid(self) -> bool {
        &&& BUCKETS > 0
        &&& self.slots().len() == BUCKETS
        &&& ring_in_order(self.slots())
        &&& self.width() >= NANOS_PER_MILLI
    }

    /// The number of the slice that `now` falls in.
    pub open spec fn slice(self, now: Instant) -> u64 {
        slice_number(self.width(), self.epoch(), now.nanos())
    }

    /// Creates a ratio over `BUCKETS` slices of `bucket_width`, i.e. a window of their product.
    ///
    /// More, narrower slices track change more finely at the cost of memory; fewer, wider ones
    /// smooth more. The width is clamped away from zero, which would divide by zero when locating
    /// a slice.
    ///
    /// `BUCKETS` must be at least one; a ring with no slices has nowhere to record into.
    pub fn new(bucket_width: Duration, epoch: Instant) -> (ratio: Self)
        requires
            BUCKETS > 0,
        ensures
            ratio.slots() == empty_ring(BUCKETS as nat),
            ratio.is_valid(),
            ratio.width() == (if bucket_width.nanos() >= NANOS_PER_MILLI {
                bucket_width.nanos()
            } else {
                NANOS_PER_MILLI as nat
            }),
            ratio.epoch() == epoch.nanos(),
    {
        let ratio = Self {
            buckets: [Bucket { stamp: 0, expected: 0, observed: 0 };BUCKETS],
            bucket_width: bucket_width.max(Duration::from_millis(1)),
            epoch,
        };
        assert(ratio.slots() =~= empty_ring(BUCKETS as nat));
        ratio
    }

    /// Records that `count` events are expected to be observed later.
    ///
    /// A record whose slice has already been overwritten by a newer one is dropped.
    pub fn record_expected(&mut self, count: u64, now: Instant)
        ensures
            final(self).slots() == recorded(old(self).slots(), old(self).slice(now), count, 0),
            old(self).is_valid(),
            final(self).is_valid(),
            final(self).width() == old(self).width(),
            final(self).epoch() == old(self).epoch(),
    {
        proof {
            use_type_invariant(&*self);
        }
        let slot: Option<usize> = self.bucket_at(now);
        proof {
            use_type_invariant(&*self);
        }
        if let Some(index) = slot {
            let bucket = self.buckets[index];
            self.buckets[index] = Bucket {
                stamp: bucket.stamp,
                expected: bucket.expected.saturating_add(count),
                observed: bucket.observed,
            };
        }
        proof {
            assert(self.slots() =~= recorded(old(self).slots(), old(self).slice(now), count, 0));
        }
    }

    /// Records that `count` expected events were observed.
    ///
    /// A record whose slice has already been overwritten by a newer one is dropped.
    pub fn record_observed(&mut self, count: u64, now: Instant)
        ensures
            final(self).slots() == recorded(old(self).slots(), old(self).slice(now), 0, count),
            old(self).is_valid(),
            final(self).is_valid(),
            final(self).width() == old(self).width(),
            final(self).epoch() == old(self).epoch(),
    {
        proof {
            use_type_invariant(&*self);
        }
        let slot: Option<usize> = self.bucket_at(now);
        proof {
            use_type_invariant(&*self);
        }
        if let Some(index) = slot {
            let bucket = self.buckets[index];
            self.buckets[index] = Bucket {
                stamp: bucket.stamp,
                expected: bucket.expected,
                observed: bucket.observed.saturating_add(count),
            };
        }
        proof {
            assert(self.slots() =~= recorded(old(self).slots(), old(self).slice(now), 0, count));
        }
    }

    /// Observed / expected across the live window, or `None` when nothing was expected in it.
    ///
    /// `None` is not zero: it means the window holds no evidence either way, which callers must
    /// treat as neutral rather than as a failing peer.
    pub fn value(&self, now: Instant) -> (ratio: Option<Ratio>)
        ensures
            ratio == recent_ratio(self.slots(), BUCKETS as nat, self.slice(now)),
            self.is_valid(),
            ratio matches Some(fraction) ==> 0 < fraction.expected && fraction.observed <= fraction.expected,
    {
        self.recent_value(BUCKETS, now)
    }

    /// Observed / expected across the most recent `slices` only, or `None` when they hold nothing.
    ///
    /// The full-window [`Self::value`] dilutes a sudden change by the history still in the ring: a
    /// path that stops delivering right now is one bad slice against `BUCKETS - 1` healthy ones.
    /// Reading the newest slices alone is what makes a collapse visible while it is still recent,
    /// at the cost of resting on less evidence -- so it is meant to be compared *against* the full
    /// window rather than used as a standalone verdict.
    ///
    /// `slices` is clamped to `1..=BUCKETS`, so a caller cannot ask for a window wider than the
    /// ring or narrower than one slice.
    pub fn recent_value(&self, slices: usize, now: Instant) -> (ratio: Option<Ratio>)
        ensures
            ratio == recent_ratio(self.slots(), slices as nat, self.slice(now)),
            slices >= BUCKETS ==> ratio == recent_ratio(self.slots(), BUCKETS as nat, self.slice(now)),
            slices == 0 ==> ratio == recent_ratio(self.slots(), 1, self.slice(now)),
            self.is_valid(),
            ratio matches Some(fraction) ==> 0 < fraction.expected && fraction.observed <= fraction.expected,
    {
        proof {
            use_type_invariant(self);
        }
        let span: u64 = if slices < 1 {
            1
        } else if slices > BUCKETS {
            BUCKETS as u64
        } else {
            slices as u64
        };
        let current: u64 = self.absolute_bucket(now);
        let oldest: u64 = current.saturating_sub(span - 1);

        // Saturating, because a wrapped total would not merely be imprecise: it would invert the
        // ratio and read as a collapse.
        let mut expected: u64 = 0;
        let mut observed: u64 = 0;
        let mut index: usize = 0;
        while index < BUCKETS
            invariant
                index <= BUCKETS,
                self.slots().len() == BUCKETS,
                expected == capped(
                    live_total(self.slots().take(index as int), oldest as nat, current as nat, Tally::Expected),
                ),
                observed == capped(
                    live_total(self.slots().take(index as int), oldest as nat, current as nat, Tally::Observed),
                ),
            decreases BUCKETS - index,
        {
            let bucket = self.buckets[index];
            proof {
                let upto = self.slots().take(index + 1);
                assert(upto.drop_last() =~= self.slots().take(index as int));
                assert(upto.last() == bucket);
            }
            if bucket.stamp >= oldest && bucket.stamp <= current {
                expected = expected.saturating_add(bucket.expected);
                observed = observed.saturating_add(bucket.observed);
            }
            index += 1;
        }
        assert(self.slots().take(BUCKETS as int) =~= self.slots());

        if expected == 0 {
            None
        } else if observed > expected {
            Some(Ratio { observed: expected, expected })
        } else {
            Some(Ratio { observed, expected })
        }
    }

    /// Total span covered by the window.
    ///
    /// Saturates at the longest span rather than panicking, so an absurdly wide slice degrades to
    /// "effectively forever" instead of taking the caller down.
    pub fn window(&self) -> (span: Duration)
        ensures
            span.nanos() == window_span(self.width(), BUCKETS as nat),
            self.is_valid(),
    {
        let factor: u32 = if BUCKETS <= 0xffff_ffff {
            BUCKETS as u32
        } else {
            u32::MAX
        };
        proof {
            use_type_invariant(self);
        }
        self.bucket_width.saturating_mul(factor)
    }

    fn absolute_bucket(&self, now: Instant) -> (slice: u64)
        ensures
            slice == self.slice(now),
    {
        proof {
            use_type_invariant(self);
        }
        let elapsed: u128 = now.saturating_duration_since(self.epoch).as_nanos();
        let width: u128 = self.bucket_width.as_nanos();
        let whole: u128 = elapsed / width;
        assert(whole as u64 == whole % 0x1_0000_0000_0000_0000) by (bit_vector);
        #[verifier::truncate]
        (whole as u64)
    }

    /// The slot for `now`, cleared first if it still holds an older slice, or `None` if it already
    /// holds a newer one.
    ///
    /// Every `BUCKETS`-th slice shares a slot, so a record that arrives out of order -- with a
    /// `now` behind one already recorded -- can land on a slot belonging to a newer slice. Clearing
    /// it would trade live evidence for a slice that has since aged out of the window, so the late
    /// record is dropped instead.
    fn bucket_at(&mut self, now: Instant) -> (slot: Option<usize>)
        ensures
            final(self).width() == old(self).width(),
            final(self).epoch() == old(self).epoch(),
            final(self).slots() == recorded(old(self).slots(), old(self).slice(now), 0, 0),
            slot matches Some(index) ==> {
                &&& index < BUCKETS
                &&& index == slot_of(old(self).slice(now), BUCKETS as nat)
                &&& old(self).slots()[index as int].stamp <= old(self).slice(now)
            },
            slot is None ==> old(self).slots()[slot_of(old(self).slice(now), BUCKETS as nat)].stamp
                > old(self).slice(now),
    {
        proof {
            use_type_invariant(&*self);
        }
        let absolute: u64 = self.absolute_bucket(now);
        let index: usize = (absolute % BUCKETS as u64) as usize;
        let stamp: u64 = self.buckets[index].stamp;
        if absolute < stamp {
            return None;
        }
        if absolute > stamp {
            // Reused for a newer slice, so the previous slice's counts go with it.
            self.buckets[index] = Bucket { stamp: absolute, expected: 0, observed: 0 };
        }
        proof {
            assert(self.slots() =~= recorded(old(self).slots(), old(self).slice(now), 0, 0));
        }
        Some(index)
    }
}

/// A ring of `ring` slots that nothing was recorded in.
pub open spec fn empty_ring(ring: nat) -> Seq<Bucket> {
    Seq::new(ring, |i: int| Bucket { stamp: 0, expected: 0, observed: 0 })
}

/// `ring` slice widths, held at the longest span there is.
pub open spec fn window_span(width: nat, ring: nat) -> nat {
    let factor = if ring <= u32::MAX {
        ring
    } else {
        u32::MAX as nat
    };
    if width * factor <= crate::time::MAX_SPAN_NANOS {
        width * factor
    } else {
        crate::time::MAX_SPAN_NANOS as nat
    }
}

/// One record of a history: what was expected and observed in a slice.
pub struct Record {
    pub slice: u64,
    pub expected: u64,
    pub observed: u64,
}

impl Record {
    /// The count that `tally` selects.
    pub open spec fn count(self, tally: Tally) -> u64 {
        match tally {
            Tally::Expected => self.expected,
            Tally::Observed => self.observed,
        }
    }
}

/// The ring after the records of `history`, in their order.
pub open spec fn replay(slots: Seq<Bucket>, history: Seq<Record>) -> Seq<Bucket>
    decreases history.len(),
{
    if history.len() == 0 {
        slots
    } else {
        let before = replay(slots, history.drop_last());
        let last = history.last();
        recorded(before, last.slice, last.expected, last.observed)
    }
}

/// The sum of one count over the records of `history` whose slice lies in `oldest..=newest`.
pub open spec fn history_total(history: Seq<Record>, oldest: nat, newest: nat, tally: Tally) -> nat
    decreases history.len(),
{
    if history.len() == 0 {
        0
    } else {
        let last = history.last();
        let rest = history_total(history.drop_last(), oldest, newest, tally);
        if oldest <= last.slice <= newest {
            rest + last.count(tally) as nat
        } else {
            rest
        }
    }
}

/// The sum of one count over the records of `history` in one slice, where that slice belongs to
/// slot `index`.
spec fn slot_total(history: Seq<Record>, ring: nat, index: int, stamp: nat, tally: Tally) -> nat
    decreases history.len(),
{
    if history.len() == 0 {
        0
    } else {
        let last = history.last();
        let rest = slot_total(history.drop_last(), ring, index, stamp, tally);
        if last.slice == stamp && slot_of(last.slice, ring) == index {
            rest + last.count(tally) as nat
        } else {
            rest
        }
    }
}

/// The sum of one count over the records in `oldest..=newest` that belong to the first `upto`
/// slots.
spec fn prefix_total(history: Seq<Record>, ring: nat, upto: int, oldest: nat, newest: nat, tally: Tally) -> nat
    decreases history.len(),
{
    if history.len() == 0 {
        0
    } else {
        let last = history.last();
        let rest = prefix_total(history.drop_last(), ring, upto, oldest, newest, tally);
        if oldest <= last.slice <= newest && slot_of(last.slice, ring) < upto {
            rest + last.count(tally) as nat
        } else {
            rest
        }
    }
}

/// What every slot holds after `history`: the newest slice recorded in it, with that slice's
/// counts.
spec fn slots_match(slots: Seq<Bucket>, history: Seq<Record>, ring: nat, newest: nat) -> bool {
    &&& slots.len() == ring
    &&& forall|j: int|
        0 <= j < ring ==> {
            &&& (#[trigger] slots[j]).stamp == 0 || slot_of(slots[j].stamp, ring) == j
            &&& slots[j].stamp <= newest
            &&& slots[j].expected == capped(
                slot_total(history, ring, j, slots[j].stamp as nat, Tally::Expected),
            )
            &&& slots[j].observed == capped(
                slot_total(history, ring, j, slots[j].stamp as nat, Tally::Observed),
            )
        }
    &&& forall|i: int|
        0 <= i < history.len() ==> (#[trigger] history[i]).slice
            <= slots[slot_of(history[i].slice, ring)].stamp
}

proof fn lemma_slot_total_absent(history: Seq<Record>, ring: nat, index: int, stamp: nat, tally: Tally)
    requires
        forall|i: int|
            0 <= i < history.len() ==> slot_of((#[trigger] history[i]).slice, ring) == index
                ==> history[i].slice < stamp,
    ensures
        slot_total(history, ring, index, stamp, tally) == 0,
    decreases history.len(),
{
    if history.len() > 0 {
        let init = history.drop_last();
        assert(history.last() == history[history.len() - 1]);
        assert forall|i: int|
            0 <= i < init.len() && slot_of((#[trigger] init[i]).slice, ring) == index implies init[i].slice
                < stamp by {
            assert(init[i] == history[i]);
        }
        lemma_slot_total_absent(init, ring, index, stamp, tally);
    }
}

proof fn lemma_replay_matches(history: Seq<Record>, ring: nat, newest: nat)
    requires
        ring > 0,
        forall|i: int| 0 <= i < history.len() ==> (#[trigger] history[i]).slice <= newest,
    ensures
        slots_match(replay(empty_ring(ring), history), history, ring, newest),
    decreases history.len(),
{
    if history.len() > 0 {
        let init = history.drop_last();
        let last = history.last();
        assert(last == history[history.len() - 1]);
        assert forall|i: int| 0 <= i < init.len() implies (#[trigger] init[i]).slice <= newest by {
            assert(init[i] == history[i]);
        }
        lemma_replay_matches(init, ring, newest);
        let before = replay(empty_ring(ring), init);
        let after = replay(empty_ring(ring), history);
        let index = slot_of(last.slice, ring);
        assert(0 <= index < ring);
        let slot = before[index];
        if last.slice > slot.stamp {
            assert forall|i: int|
                0 <= i < init.len() && slot_of((#[trigger] init[i]).slice, ring) == index implies init[i].slice
                    < last.slice by {}
            lemma_slot_total_absent(init, ring, index, last.slice as nat, Tally::Expected);
            lemma_slot_total_absent(init, ring, index, last.slice as nat, Tally::Observed);
        }
        assert forall|i: int| 0 <= i < history.len() implies (#[trigger] history[i]).slice
            <= after[slot_of(history[i].slice, ring)].stamp by {
            if i < init.len() {
                assert(init[i] == history[i]);
                assert(init[i].slice <= before[slot_of(init[i].slice, ring)].stamp);
            }
            assert(0 <= slot_of(history[i].slice, ring) < ring);
        }
        assert forall|j: int| 0 <= j < ring implies {
            &&& (#[trigger] after[j]).stamp == 0 || slot_of(after[j].stamp, ring) == j
            &&& after[j].stamp <= newest
            &&& after[j].expected == capped(
                slot_total(history, ring, j, after[j].stamp as nat, Tally::Expected),
            )
            &&& after[j].observed == capped(
                slot_total(history, ring, j, after[j].stamp as nat, Tally::Observed),
            )
        } by {
            assert(before[j].stamp <= newest);
        }
    }
}

/// Advancing from the first `upto` slots to one more adds exactly what slot `upto` holds.
proof fn lemma_prefix_step(
    history: Seq<Record>,
    ring: nat,
    upto: int,
    stamp: nat,
    oldest: nat,
    newest: nat,
    tally: Tally,
)
    requires
        ring > 0,
        forall|i: int|
            0 <= i < history.len() ==> slot_of((#[trigger] history[i]).slice, ring) == upto
                && oldest <= history[i].slice <= newest ==> history[i].slice == stamp,
    ensures
        prefix_total(history, ring, upto + 1, oldest, newest, tally) == prefix_total(
            history,
            ring,
            upto,
            oldest,
            newest,
            tally,
        ) + (if oldest <= stamp <= newest {
            slot_total(history, ring, upto, stamp, tally)
        } else {
            0
        }),
    decreases history.len(),
{
    if history.len() > 0 {
        let init = history.drop_last();
        assert(history.last() == history[history.len() - 1]);
        assert forall|i: int|
            0 <= i < init.len() && slot_of((#[trigger] init[i]).slice, ring) == upto && oldest <= init[i].slice
                <= newest implies init[i].slice == stamp by {
            assert(init[i] == history[i]);
        }
        lemma_prefix_step(init, ring, upto, stamp, oldest, newest, tally);
    }
}

proof fn lemma_prefix_ends(history: Seq<Record>, ring: nat, oldest: nat, newest: nat, tally: Tally)
    requires
        ring > 0,
    ensures
        prefix_total(history, ring, 0, oldest, newest, tally) == 0,
        prefix_total(history, ring, ring as int, oldest, newest, tally) == history_total(
            history,
            oldest,
            newest,
            tally,
        ),
    decreases history.len(),
{
    if history.len() > 0 {
        lemma_prefix_ends(history.drop_last(), ring, oldest, newest, tally);
        assert(0 <= slot_of(history.last().slice, ring) < ring);
    }
}

proof fn lemma_same_slot_same_slice(a: int, b: int, ring: int)
    requires
        ring > 0,
        a % ring == b % ring,
        0 <= b - a < ring,
    ensures
        a == b,
{
    vstd::arithmetic::div_mod::lemma_fundamental_div_mod(a, ring);
    vstd::arithmetic::div_mod::lemma_fundamental_div_mod(b, ring);
    let d = b / ring - a / ring;
    assert(b - a == ring * d) by (nonlinear_arith)
        requires
            a == ring * (a / ring) + a % ring,
            b == ring * (b / ring) + b % ring,
            a % ring == b % ring,
            d == b / ring - a / ring,
    ;
    assert(d == 0) by (nonlinear_arith)
        requires
            0 <= ring * d < ring,
            ring > 0,
    ;
}

proof fn lemma_prefix_is_live(
    slots: Seq<Bucket>,
    history: Seq<Record>,
    ring: nat,
    upto: int,
    oldest: nat,
    newest: nat,
    tally: Tally,
)
    requires
        ring > 0,
        slots_match(slots, history, ring, newest),
        newest < oldest + ring,
        0 <= upto <= ring,
    ensures
        capped(live_total(slots.take(upto), oldest, newest, tally)) == capped(
            prefix_total(history, ring, upto, oldest, newest, tally),
        ),
    decreases upto,
{
    if upto == 0 {
        lemma_prefix_ends(history, ring, oldest, newest, tally);
    } else {
        let index = upto - 1;
        lemma_prefix_is_live(slots, history, ring, index, oldest, newest, tally);
        assert(slots.take(upto).drop_last() =~= slots.take(index));
        assert(slots.take(upto).last() == slots[index]);
        let stamp = slots[index].stamp;
        assert forall|i: int|
            0 <= i < history.len() && slot_of((#[trigger] history[i]).slice, ring) == index && oldest
                <= history[i].slice <= newest implies history[i].slice == stamp by {
            let slice = history[i].slice;
            assert(slice <= stamp);
            if stamp != 0 {
                lemma_same_slot_same_slice(slice as int, stamp as int, ring as int);
            }
        }
        lemma_prefix_step(history, ring, index, stamp as nat, oldest, newest, tally);
    }
}

/// Whatever was recorded, in whatever order, a read over the last `slices` slices sees exactly the
/// records of those slices: nothing older, nothing twice, nothing lost, as long as the read is not
/// behind the newest record.
pub proof fn reads_see_exactly_the_recent_records(
    history: Seq<Record>,
    ring: nat,
    slices: nat,
    newest: u64,
)
    requires
        ring > 0,
        forall|i: int| 0 <= i < history.len() ==> (#[trigger] history[i]).slice <= newest,
    ensures
        recent_ratio(replay(empty_ring(ring), history), slices, newest) == ({
            let oldest = oldest_of(slices, ring, newest as nat);
            ratio_of(
                capped(history_total(history, oldest, newest as nat, Tally::Expected)),
                capped(history_total(history, oldest, newest as nat, Tally::Observed)),
            )
        }),
{
    let slots = replay(empty_ring(ring), history);
    let oldest = oldest_of(slices, ring, newest as nat);
    lemma_replay_matches(history, ring, newest as nat);
    assert(slots.take(ring as int) =~= slots);
    lemma_prefix_is_live(slots, history, ring, ring as int, oldest, newest as nat, Tally::Expected);
    lemma_prefix_is_live(slots, history, ring, ring as int, oldest, newest as nat, Tally::Observed);
    lemma_prefix_ends(history, ring, oldest, newest as nat, Tally::Expected);
    lemma_prefix_ends(history, ring, oldest, newest as nat, Tally::Observed);
}

/// The sum of one count over the records of the last `slices` slices up to `newest`: those whose slice
/// is above `newest - slices` and no later than `newest`.
pub open spec fn total_of_the_last(history: Seq<Record>, slices: nat, newest: nat, tally: Tally) -> nat
    decreases history.len(),
{
    if history.len() == 0 {
        0
    } else {
        let last = history.last();
        let rest = total_of_the_last(history.drop_last(), slices, newest, tally);
        if newest - slices < last.slice <= newest {
            match tally {
                Tally::Expected => rest + last.expected as nat,
                Tally::Observed => rest + last.observed as nat,
            }
        } else {
            rest
        }
    }
}

proof fn lemma_total_of_the_last(history: Seq<Record>, ring: nat, slices: nat, newest: nat, tally: Tally)
    requires
        1 <= slices <= ring,
    ensures
        total_of_the_last(history, slices, newest, tally) == history_total(
            history,
            oldest_of(slices, ring, newest),
            newest,
            tally,
        ),
    decreases history.len(),
{
    if history.len() > 0 {
        lemma_total_of_the_last(history.drop_last(), ring, slices, newest, tally);
    }
}

/// A read over `slices` slices, of as many as the ring has or fewer, is the fraction over exactly the
/// records of the slices above `newest - slices` and up to `newest`: of what was expected there, what was
/// observed there, and no more than all of it. It is no data exactly where nothing was expected there.
pub proof fn a_read_is_over_exactly_the_last_slices(history: Seq<Record>, ring: nat, slices: nat, newest: u64)
    requires
        1 <= slices <= ring,
        forall|i: int| 0 <= i < history.len() ==> (#[trigger] history[i]).slice <= newest,
    ensures
        ({
            let read = recent_ratio(replay(empty_ring(ring), history), slices, newest);
            let expected = total_of_the_last(history, slices, newest as nat, Tally::Expected);
            let observed = total_of_the_last(history, slices, newest as nat, Tally::Observed);
            &&& read is None <==> expected == 0
            &&& read matches Some(fraction) ==> {
                &&& expected <= u64::MAX ==> fraction.expected == expected
                &&& expected > u64::MAX ==> fraction.expected == u64::MAX
                &&& observed <= fraction.expected ==> fraction.observed == observed
                &&& observed > fraction.expected ==> fraction.observed == fraction.expected
            }
        }),
{
    reads_see_exactly_the_recent_records(history, ring, slices, newest);
    lemma_total_of_the_last(history, ring, slices, newest as nat, Tally::Expected);
    lemma_total_of_the_last(history, ring, slices, newest as nat, Tally::Observed);
}

/// The sum of one count over the slots that hold one of the last `slices` slices up to `newest`.
pub open spec fn total_in_the_last(slots: Seq<Bucket>, slices: nat, newest: nat, tally: Tally) -> nat
    decreases slots.len(),
{
    if slots.len() == 0 {
        0
    } else {
        let last = slots.last();
        let rest = total_in_the_last(slots.drop_last(), slices, newest, tally);
        if newest - slices < last.stamp <= newest {
            match tally {
                Tally::Expected => rest + last.expected as nat,
                Tally::Observed => rest + last.observed as nat,
            }
        } else {
            rest
        }
    }
}

proof fn lemma_total_in_the_last(slots: Seq<Bucket>, ring: nat, slices: nat, newest: nat, tally: Tally)
    requires
        1 <= slices <= ring,
    ensures
        total_in_the_last(slots, slices, newest, tally) == live_total(
            slots,
            oldest_of(slices, ring, newest),
            newest,
            tally,
        ),
    decreases slots.len(),
{
    if slots.len() > 0 {
        lemma_total_in_the_last(slots.drop_last(), ring, slices, newest, tally);
    }
}

/// A read adds up the slots of the slices that it asks for and takes no other, whatever the ring holds:
/// neither one that is older nor one that is newer than the read.
pub proof fn a_read_adds_up_the_slots_it_asks_for(slots: Seq<Bucket>, slices: nat, newest: u64)
    requires
        1 <= slices <= slots.len(),
    ensures
        ({
            let read = recent_ratio(slots, slices, newest);
            let expected = total_in_the_last(slots, slices, newest as nat, Tally::Expected);
            let observed = total_in_the_last(slots, slices, newest as nat, Tally::Observed);
            &&& read is None <==> expected == 0
            &&& read matches Some(fraction) ==> {
                &&& expected <= u64::MAX ==> fraction.expected == expected
                &&& expected > u64::MAX ==> fraction.expected == u64::MAX
                &&& observed <= fraction.expected ==> fraction.observed == observed
                &&& observed > fraction.expected ==> fraction.observed == fraction.expected
            }
        }),
{
    lemma_total_in_the_last(slots, slots.len(), slices, newest as nat, Tally::Expected);
    lemma_total_in_the_last(slots, slots.len(), slices, newest as nat, Tally::Observed);
}

/// A record in a slice that its slot holds already adds to the counts there; in a slice newer than the
/// one there it starts afresh with its own counts; in an older one it is lost.
pub proof fn a_record_goes_to_the_slot_of_its_slice(
    slots: Seq<Bucket>,
    slice: u64,
    expected: u64,
    observed: u64,
    index: int,
)
    requires
        slots.len() > 0,
        0 <= index < slots.len(),
        (slice - index) % slots.len() as int == 0,
    ensures
        ({
            let before = slots[index];
            let after = recorded(slots, slice, expected, observed)[index];
            &&& slice < before.stamp ==> after == before
            &&& slice >= before.stamp ==> after.stamp == slice
            &&& slice > before.stamp ==> after.expected == expected && after.observed == observed
            &&& slice == before.stamp ==> {
                &&& before.expected + expected <= u64::MAX ==> after.expected == before.expected + expected
                &&& before.expected + expected > u64::MAX ==> after.expected == u64::MAX
                &&& before.observed + observed <= u64::MAX ==> after.observed == before.observed + observed
                &&& before.observed + observed > u64::MAX ==> after.observed == u64::MAX
            }
        }),
{
    let ring = slots.len() as int;
    let turns = (slice - index) / ring;
    vstd::arithmetic::div_mod::lemma_fundamental_div_mod(slice - index, ring);
    assert(slice as int == turns * ring + index) by (nonlinear_arith)
        requires
            slice - index == ring * turns + 0,
    ;
    vstd::arithmetic::div_mod::lemma_fundamental_div_mod_converse(slice as int, ring, turns, index);
}

/// A slice is `width` long and the slices follow one another from the epoch on; what comes before the
/// epoch falls in the first.
pub proof fn a_slice_spans_its_width(width: nat, epoch: int, now: int)
    requires
        width > 0,
        now - epoch < 0x1_0000_0000_0000_0000 * width,
    ensures
        ({
            let slice = slice_number(width, epoch, now);
            &&& now >= epoch ==> epoch + slice * width <= now < epoch + (slice + 1) * width
            &&& now < epoch ==> slice == 0
        }),
{
    let w = width as int;
    if now >= epoch {
        let elapsed = now - epoch;
        vstd::arithmetic::div_mod::lemma_fundamental_div_mod(elapsed, w);
        let q = elapsed / w;
        let r = elapsed % w;
        assert(0 <= q < 0x1_0000_0000_0000_0000) by (nonlinear_arith)
            requires
                elapsed == w * q + r,
                0 <= r < w,
                0 <= elapsed < 0x1_0000_0000_0000_0000 * w,
                w > 0,
        ;
        let slice = slice_number(width, epoch, now);
        assert(slice == q);
        assert(slice * width == w * q) by (nonlinear_arith)
            requires
                slice == q,
                width == w,
        ;
        assert((slice + 1) * width == w * q + w) by (nonlinear_arith)
            requires
                slice == q,
                width == w,
        ;
    } else {
        assert(0int / w == 0) by (nonlinear_arith)
            requires
                w > 0,
        ;
    }
}

/// The window is as long as its slices together, and never longer than the longest span.
pub proof fn the_window_is_as_long_as_its_slices(width: nat, ring: nat)
    requires
        ring <= u32::MAX,
    ensures
        width * ring <= crate::time::MAX_SPAN_NANOS ==> window_span(width, ring) == width * ring,
        width * ring > crate::time::MAX_SPAN_NANOS ==> window_span(width, ring) == crate::time::MAX_SPAN_NANOS,
{
}

/// A ring that nothing was recorded in has its slots, all of them without a count, and reads as no data.
pub proof fn a_fresh_ring_holds_nothing(ring: nat, slices: nat, newest: u64)
    requires
        ring > 0,
    ensures
        empty_ring(ring).len() == ring,
        forall|i: int|
            0 <= i < ring ==> (#[trigger] empty_ring(ring)[i]).stamp == 0 && empty_ring(ring)[i].expected == 0
                && empty_ring(ring)[i].observed == 0,
        recent_ratio(empty_ring(ring), slices, newest) is None,
{
    aged_out_records_read_as_no_data(Seq::empty(), ring, slices, newest);
    assert(replay(empty_ring(ring), Seq::empty()) == empty_ring(ring));
}

/// Once every record has aged out of the window, the ring reads as no data, not as failure.
pub proof fn aged_out_records_read_as_no_data(history: Seq<Record>, ring: nat, slices: nat, newest: u64)
    requires
        ring > 0,
        forall|i: int|
            0 <= i < history.len() ==> (#[trigger] history[i]).slice < oldest_of(slices, ring, newest as nat),
    ensures
        recent_ratio(replay(empty_ring(ring), history), slices, newest) is None,
{
    reads_see_exactly_the_recent_records(history, ring, slices, newest);
    lemma_nothing_recent(history, oldest_of(slices, ring, newest as nat), newest as nat, Tally::Expected);
}

proof fn lemma_nothing_recent(history: Seq<Record>, oldest: nat, newest: nat, tally: Tally)
    requires
        forall|i: int| 0 <= i < history.len() ==> (#[trigger] history[i]).slice < oldest,
    ensures
        history_total(history, oldest, newest, tally) == 0,
    decreases history.len(),
{
    if history.len() > 0 {
        let init = history.drop_last();
        assert(history.last() == history[history.len() - 1]);
        assert forall|i: int| 0 <= i < init.len() implies (#[trigger] init[i]).slice < oldest by {
            assert(init[i] == history[i]);
        }
        lemma_nothing_recent(init, oldest, newest, tally);
    }
}

/// Asking for as many slices as the ring has, or more, reads the whole window.
pub proof fn asking_for_every_slice_reads_the_window(slots: Seq<Bucket>, slices: nat, newest: u64)
    requires
        slots.len() > 0,
        slices >= slots.len(),
    ensures
        recent_ratio(slots, slices, newest) == recent_ratio(slots, slots.len(), newest),
{
}

/// Asking for no slice at all reads the newest one.
pub proof fn asking_for_no_slice_reads_the_newest(slots: Seq<Bucket>, newest: u64)
    requires
        slots.len() > 0,
    ensures
        recent_ratio(slots, 0, newest) == recent_ratio(slots, 1, newest),
{
}

/// A record never displaces a slice newer than its own, and no record touches another slot.
pub proof fn a_record_leaves_newer_slices_and_other_slots_alone(
    slots: Seq<Bucket>,
    slice: u64,
    expected: u64,
    observed: u64,
    index: int,
)
    requires
        0 <= index < slots.len(),
        slots[index].stamp > slice || slot_of(slice, slots.len()) != index,
    ensures
        recorded(slots, slice, expected, observed).len() == slots.len(),
        recorded(slots, slice, expected, observed)[index] == slots[index],
{
    assert(0 <= slot_of(slice, slots.len()) < slots.len());
}

/// Within a slice, the counters only ever grow.
pub proof fn counters_only_grow_within_a_slice(
    slots: Seq<Bucket>,
    slice: u64,
    expected: u64,
    observed: u64,
    index: int,
)
    requires
        0 <= index < slots.len(),
    ensures
        ({
            let before = slots[index];
            let after = recorded(slots, slice, expected, observed)[index];
            &&& before.stamp <= after.stamp
            &&& before.stamp == after.stamp ==> before.expected <= after.expected && before.observed
                <= after.observed
        }),
{
    assert(0 <= slot_of(slice, slots.len()) < slots.len());
}

/// Two records in one slice are one record of both: their counts add up, and which came first makes no
/// difference.
pub proof fn records_in_one_slice_add_up(
    slots: Seq<Bucket>,
    slice: u64,
    first: (u64, u64),
    second: (u64, u64),
)
    requires
        slots.len() > 0,
    ensures
        recorded(recorded(slots, slice, first.0, first.1), slice, second.0, second.1) == recorded(
            slots,
            slice,
            capped((first.0 + second.0) as nat),
            capped((first.1 + second.1) as nat),
        ),
        recorded(recorded(slots, slice, first.0, first.1), slice, second.0, second.1) == recorded(
            recorded(slots, slice, second.0, second.1),
            slice,
            first.0,
            first.1,
        ),
{
    assert(0 <= slot_of(slice, slots.len()) < slots.len());
    assert(recorded(recorded(slots, slice, first.0, first.1), slice, second.0, second.1) =~= recorded(
        slots,
        slice,
        capped((first.0 + second.0) as nat),
        capped((first.1 + second.1) as nat),
    ));
    assert(recorded(recorded(slots, slice, first.0, first.1), slice, second.0, second.1) =~= recorded(
        recorded(slots, slice, second.0, second.1),
        slice,
        first.0,
        first.1,
    ));
}

/// Expecting `a` events and then `b` at one time is expecting them all at once, and so it is with
/// observing; expecting and observing at one time may come in either order.
pub proof fn counts_at_one_time_add_up(slots: Seq<Bucket>, slice: u64, a: u64, b: u64)
    requires
        slots.len() > 0,
    ensures
        recorded(recorded(slots, slice, a, 0), slice, b, 0) == recorded(slots, slice, capped((a + b) as nat), 0),
        recorded(recorded(slots, slice, 0, a), slice, 0, b) == recorded(slots, slice, 0, capped((a + b) as nat)),
        recorded(recorded(slots, slice, a, 0), slice, 0, b) == recorded(
            recorded(slots, slice, 0, b),
            slice,
            a,
            0,
        ),
{
    records_in_one_slice_add_up(slots, slice, (a, 0), (b, 0));
    records_in_one_slice_add_up(slots, slice, (0, a), (0, b));
    records_in_one_slice_add_up(slots, slice, (a, 0), (0, b));
}

/// What a record displaces lies outside every window that ends no earlier than the record.
proof fn lemma_displaced_slices_are_not_live(slots: Seq<Bucket>, slice: u64, oldest: nat, newest: nat)
    requires
        ring_in_order(slots),
        slice <= newest,
        newest < oldest + slots.len(),
    ensures
        ({
            let slot = slots[slot_of(slice, slots.len())];
            slot.stamp < slice ==> slot.stamp < oldest || slot.expected == 0
        }),
{
    let ring = slots.len() as int;
    let index = slot_of(slice, slots.len());
    assert(0 <= index < ring);
    let slot = slots[index];
    if slot.stamp < slice && slot.stamp >= oldest && slot_of(slot.stamp, slots.len()) == index {
        lemma_same_slot_same_slice(slot.stamp as int, slice as int, ring);
    }
}

/// Observations leave the sum of expectations alone that any window sees which ends no earlier.
proof fn lemma_observations_keep_the_expected(
    slots: Seq<Bucket>,
    slice: u64,
    count: u64,
    upto: int,
    oldest: nat,
    newest: nat,
)
    requires
        ring_in_order(slots),
        slice <= newest,
        newest < oldest + slots.len(),
        0 <= upto <= slots.len(),
    ensures
        live_total(recorded(slots, slice, 0, count).take(upto), oldest, newest, Tally::Expected) == live_total(
            slots.take(upto),
            oldest,
            newest,
            Tally::Expected,
        ),
    decreases upto,
{
    let after = recorded(slots, slice, 0, count);
    assert(0 <= slot_of(slice, slots.len()) < slots.len());
    if upto > 0 {
        let index = upto - 1;
        lemma_observations_keep_the_expected(slots, slice, count, index, oldest, newest);
        assert(slots.take(upto).drop_last() =~= slots.take(index));
        assert(after.take(upto).drop_last() =~= after.take(index));
        assert(slots.take(upto).last() == slots[index]);
        assert(after.take(upto).last() == after[index]);
        lemma_displaced_slices_are_not_live(slots, slice, oldest, newest);
    }
}

/// Only expectations are evidence: an observation, however late it comes, never turns *no data* into a
/// reading nor a reading into *no data*, at any time from then on until slice numbers wrap.
pub proof fn observations_alone_are_no_evidence(
    slots: Seq<Bucket>,
    width: nat,
    epoch: int,
    count: u64,
    now: int,
    later: int,
    slices: nat,
)
    requires
        ring_in_order(slots),
        width > 0,
        now <= later,
        later - epoch < 0x1_0000_0000_0000_0000 * width,
    ensures
        ({
            let after = recorded(slots, slice_number(width, epoch, now), 0, count);
            recent_ratio(after, slices, slice_number(width, epoch, later)) is None == recent_ratio(
                slots,
                slices,
                slice_number(width, epoch, later),
            ) is None
        }),
{
    later_instants_fall_in_later_slices(width, epoch, now, later);
    let slice = slice_number(width, epoch, now);
    let newest = slice_number(width, epoch, later) as nat;
    let oldest = oldest_of(slices, slots.len(), newest);
    let after = recorded(slots, slice, 0, count);
    lemma_observations_keep_the_expected(slots, slice, count, slots.len() as int, oldest, newest);
    assert(slots.take(slots.len() as int) =~= slots);
    assert(after.take(slots.len() as int) =~= after);
}

/// A later instant never falls in an earlier slice, for as long as slice numbers have not wrapped.
pub proof fn later_instants_fall_in_later_slices(width: nat, epoch: int, earlier: int, later: int)
    requires
        width > 0,
        earlier <= later,
        later - epoch < 0x1_0000_0000_0000_0000 * width,
    ensures
        slice_number(width, epoch, earlier) <= slice_number(width, epoch, later),
{
    let a = if earlier >= epoch {
        earlier - epoch
    } else {
        0
    };
    let b = if later >= epoch {
        later - epoch
    } else {
        0
    };
    let w = width as int;
    vstd::arithmetic::div_mod::lemma_div_is_ordered(a, b, w);
    assert(b / w < 0x1_0000_0000_0000_0000) by (nonlinear_arith)
        requires
            0 <= b < 0x1_0000_0000_0000_0000 * w,
            w > 0,
    ;
    assert(a / w >= 0) by (nonlinear_arith)
        requires
            a >= 0,
            w > 0,
    ;
}

/// A ratio counts an instant for the slice of its own width that the instant lies in, from its own epoch on.
pub proof fn an_instant_falls_in_a_slice_of_the_ratio<const BUCKETS: usize>(ratio: WindowedRatio<BUCKETS>, now: Instant)
    requires
        ratio.width() > 0,
        now.nanos() - ratio.epoch() < 0x1_0000_0000_0000_0000 * ratio.width(),
    ensures
        now.nanos() >= ratio.epoch() ==> ratio.epoch() + ratio.slice(now) * ratio.width() <= now.nanos()
            < ratio.epoch() + (ratio.slice(now) + 1) * ratio.width(),
        now.nanos() < ratio.epoch() ==> ratio.slice(now) == 0,
{
    a_slice_spans_its_width(ratio.width(), ratio.epoch(), now.nanos());
}

/// Slice numbers are 64 bits wide, and start over once they have run out.
pub proof fn slice_numbers_wrap(width: nat, epoch: int, now: int, slices: int)
    requires
        width > 0,
        slices >= 0,
        epoch + slices * width <= now < epoch + (slices + 1) * width,
    ensures
        slice_number(width, epoch, now) == slices % 0x1_0000_0000_0000_0000,
{
    let w = width as int;
    let rest = now - epoch - slices * w;
    assert(0 <= slices * w) by (nonlinear_arith)
        requires
            slices >= 0,
            w > 0,
    ;
    assert((slices + 1) * w == slices * w + w) by (nonlinear_arith);
    vstd::arithmetic::div_mod::lemma_fundamental_div_mod_converse(now - epoch, w, slices, rest);
}

} // verus!
