//! Fault injection for [`TestChainConnector`](super::connector::TestChainConnector).

use std::collections::hash_map::RandomState;

use dashmap::{DashMap, DashSet};
use vstd::prelude::*;

use crate::testing::blokli::chain::{ChainEvent, ChannelEntry, HoprBalance};
use crate::testing::blokli::connector::TestConnectorError;
use crate::testing::blokli::maps::{
    map_contents, map_get, map_insert, map_remove, new_map, new_set, set_contains, set_contents, set_insert,
    set_remove,
};

verus! {

/// How a chain operation should misbehave.
#[derive(Clone, Copy, Debug, PartialEq, Eq, Structural)]
pub enum Fault {
    /// Operate normally.
    Normal,
    /// Return an error.
    Fail,
    /// Never resolve. Models an RPC that neither answers nor times out.
    Hang,
}

impl Default for Fault {
    fn default() -> (fault: Self)
        ensures
            fault == Fault::Normal,
    {
        Fault::Normal
    }
}

/// Chain operations that [`ChainFaults`] can perturb, each naming the call it stands for.
#[derive(Clone, Copy, Debug, PartialEq, Eq, Hash, Structural)]
pub enum ChainOp {
    /// Looking up a safe.
    SafeInfo,
    /// Reading a balance, of the safe and of per-peer stake.
    Balance,
    /// Reading the minimum ticket price.
    TicketPrice,
    /// Reading the minimum winning probability of incoming tickets.
    WinProb,
    /// Reading the typical resolution time.
    ResolutionTime,
    /// Streaming channels.
    StreamChannels,
    /// Streaming accounts.
    StreamAccounts,
    /// Opening a channel.
    OpenChannel,
    /// Funding a channel.
    FundChannel,
    /// Closing a channel, which both initiates and finalizes a closure depending on the channel's
    /// status.
    CloseChannel,
}

/// Chain event kinds that [`ChainFaults`] can withhold from subscribers.
#[derive(Clone, Copy, Debug, PartialEq, Eq, Hash, Structural)]
pub enum EventKind {
    /// A funded channel.
    BalanceIncreased,
    /// A drained channel.
    BalanceDecreased,
    /// An opened channel.
    ChannelOpened,
    /// The first of the two closure steps: the channel has entered its notice period.
    ClosureInitiated,
    /// The second closure step.
    Closed,
    /// A redeemed ticket.
    TicketRedeemed,
}

impl Fault {
    spec fn spec_code(self) -> usize {
        match self {
            Fault::Normal => 0,
            Fault::Fail => 1,
            Fault::Hang => 2,
        }
    }

    fn code(self) -> (code: usize)
        ensures
            code == self.spec_code(),
    {
        match self {
            Fault::Normal => 0,
            Fault::Fail => 1,
            Fault::Hang => 2,
        }
    }

    spec fn spec_decode(code: usize) -> Fault {
        if code == 1 {
            Fault::Fail
        } else if code == 2 {
            Fault::Hang
        } else {
            Fault::Normal
        }
    }

    fn decode(code: usize) -> (fault: Fault)
        ensures
            fault == Fault::spec_decode(code),
    {
        if code == 1 {
            Fault::Fail
        } else if code == 2 {
            Fault::Hang
        } else {
            Fault::Normal
        }
    }
}

impl ChainOp {
    spec fn spec_code(self) -> u8 {
        match self {
            ChainOp::SafeInfo => 0,
            ChainOp::Balance => 1,
            ChainOp::TicketPrice => 2,
            ChainOp::WinProb => 3,
            ChainOp::ResolutionTime => 4,
            ChainOp::StreamChannels => 5,
            ChainOp::StreamAccounts => 6,
            ChainOp::OpenChannel => 7,
            ChainOp::FundChannel => 8,
            ChainOp::CloseChannel => 9,
        }
    }

    spec fn spec_key(self) -> Seq<u8> {
        seq![self.spec_code()]
    }

    fn key(self) -> (key: Vec<u8>)
        ensures
            key@ == self.spec_key(),
    {
        let code: u8 = match self {
            ChainOp::SafeInfo => 0,
            ChainOp::Balance => 1,
            ChainOp::TicketPrice => 2,
            ChainOp::WinProb => 3,
            ChainOp::ResolutionTime => 4,
            ChainOp::StreamChannels => 5,
            ChainOp::StreamAccounts => 6,
            ChainOp::OpenChannel => 7,
            ChainOp::FundChannel => 8,
            ChainOp::CloseChannel => 9,
        };
        let mut key: Vec<u8> = Vec::new();
        key.push(code);
        assert(key@ =~= self.spec_key());
        key
    }

    proof fn keys_are_distinct()
        ensures
            forall|a: ChainOp, b: ChainOp|
                #![trigger a.spec_key(), b.spec_key()]
                a.spec_key() == b.spec_key() ==> a == b,
    {
        assert forall|a: ChainOp, b: ChainOp|
            #![trigger a.spec_key(), b.spec_key()]
            a.spec_key() == b.spec_key() implies a == b by {
            assert(a.spec_key()[0] == b.spec_key()[0]);
        }
    }

    /// The name of the operation.
    pub open spec fn spec_name(self) -> Seq<char> {
        match self {
            ChainOp::SafeInfo => "SafeInfo"@,
            ChainOp::Balance => "Balance"@,
            ChainOp::TicketPrice => "TicketPrice"@,
            ChainOp::WinProb => "WinProb"@,
            ChainOp::ResolutionTime => "ResolutionTime"@,
            ChainOp::StreamChannels => "StreamChannels"@,
            ChainOp::StreamAccounts => "StreamAccounts"@,
            ChainOp::OpenChannel => "OpenChannel"@,
            ChainOp::FundChannel => "FundChannel"@,
            ChainOp::CloseChannel => "CloseChannel"@,
        }
    }

    /// The name of the operation.
    pub fn name(&self) -> (name: &'static str)
        ensures
            name@ == self.spec_name(),
    {
        match self {
            ChainOp::SafeInfo => "SafeInfo",
            ChainOp::Balance => "Balance",
            ChainOp::TicketPrice => "TicketPrice",
            ChainOp::WinProb => "WinProb",
            ChainOp::ResolutionTime => "ResolutionTime",
            ChainOp::StreamChannels => "StreamChannels",
            ChainOp::StreamAccounts => "StreamAccounts",
            ChainOp::OpenChannel => "OpenChannel",
            ChainOp::FundChannel => "FundChannel",
            ChainOp::CloseChannel => "CloseChannel",
        }
    }
}

impl EventKind {
    spec fn spec_code(self) -> u64 {
        match self {
            EventKind::BalanceIncreased => 0,
            EventKind::BalanceDecreased => 1,
            EventKind::ChannelOpened => 2,
            EventKind::ClosureInitiated => 3,
            EventKind::Closed => 4,
            EventKind::TicketRedeemed => 5,
        }
    }

    fn code(self) -> (code: u64)
        ensures
            code == self.spec_code(),
    {
        match self {
            EventKind::BalanceIncreased => 0,
            EventKind::BalanceDecreased => 1,
            EventKind::ChannelOpened => 2,
            EventKind::ClosureInitiated => 3,
            EventKind::Closed => 4,
            EventKind::TicketRedeemed => 5,
        }
    }

    /// The kind of an event, where it can be withheld at all.
    pub open spec fn spec_of(event: ChainEvent) -> Option<EventKind> {
        match event {
            ChainEvent::ChannelBalanceIncreased(_, _) => Some(EventKind::BalanceIncreased),
            ChainEvent::ChannelBalanceDecreased(_, _) => Some(EventKind::BalanceDecreased),
            ChainEvent::ChannelOpened(_) => Some(EventKind::ChannelOpened),
            ChainEvent::ChannelClosureInitiated(_) => Some(EventKind::ClosureInitiated),
            ChainEvent::ChannelClosed(_) => Some(EventKind::Closed),
            ChainEvent::TicketRedeemed(_) => Some(EventKind::TicketRedeemed),
            ChainEvent::Other => None,
        }
    }

    /// The kind of an event, where it can be withheld at all.
    pub fn of(event: &ChainEvent) -> (kind: Option<EventKind>)
        ensures
            kind == EventKind::spec_of(*event),
    {
        match event {
            ChainEvent::ChannelBalanceIncreased(_, _) => Some(EventKind::BalanceIncreased),
            ChainEvent::ChannelBalanceDecreased(_, _) => Some(EventKind::BalanceDecreased),
            ChainEvent::ChannelOpened(_) => Some(EventKind::ChannelOpened),
            ChainEvent::ChannelClosureInitiated(_) => Some(EventKind::ClosureInitiated),
            ChainEvent::ChannelClosed(_) => Some(EventKind::Closed),
            ChainEvent::TicketRedeemed(_) => Some(EventKind::TicketRedeemed),
            ChainEvent::Other => None,
        }
    }
}

/// What the fault configuration holds.
#[verifier::ext_equal]
pub struct FaultsView {
    /// The fault of each operation that was given one.
    pub ops: Map<ChainOp, Fault>,
    /// The fault of the confirmation of each operation that was given one.
    pub confirmations: Map<ChainOp, Fault>,
    /// The event kinds that subscribers do not see.
    pub withheld: Set<EventKind>,
    /// How often each operation was called.
    pub calls: Map<ChainOp, usize>,
    /// How many writes of each operation are between submission and confirmation.
    pub in_flight: Map<ChainOp, usize>,
    /// The most that were ever outstanding at once, for each operation.
    pub peak_in_flight: Map<ChainOp, usize>,
    /// How many writes are outstanding in total.
    pub in_flight_total: usize,
    /// The most that were ever outstanding at once, in total.
    pub peak_in_flight_total: usize,
}

/// The count of an operation, zero where it has none.
pub open spec fn count_of(counts: Map<ChainOp, usize>, op: ChainOp) -> usize {
    if counts.contains_key(op) {
        counts[op]
    } else {
        0
    }
}

/// The fault of an operation, `Normal` where it was given none.
pub open spec fn fault_of(faults: Map<ChainOp, Fault>, op: ChainOp) -> Fault {
    if faults.contains_key(op) {
        faults[op]
    } else {
        Fault::Normal
    }
}

/// The larger of two counts.
pub open spec fn larger(a: usize, b: usize) -> usize {
    if a >= b {
        a
    } else {
        b
    }
}

impl FaultsView {
    /// Nothing perturbed, nothing called.
    pub open spec fn quiet() -> FaultsView {
        FaultsView {
            ops: Map::empty(),
            confirmations: Map::empty(),
            withheld: Set::empty(),
            calls: Map::empty(),
            in_flight: Map::empty(),
            peak_in_flight: Map::empty(),
            in_flight_total: 0,
            peak_in_flight_total: 0,
        }
    }

    /// After one more call of `op`.
    pub open spec fn recorded(self, op: ChainOp) -> FaultsView {
        FaultsView { calls: self.calls.insert(op, (count_of(self.calls, op) + 1) as usize), ..self }
    }

    /// After a write of `op` was submitted.
    pub open spec fn entered(self, op: ChainOp) -> FaultsView {
        let outstanding = (count_of(self.in_flight, op) + 1) as usize;
        let total = (self.in_flight_total + 1) as usize;
        FaultsView {
            in_flight: self.in_flight.insert(op, outstanding),
            peak_in_flight: self.peak_in_flight.insert(op, larger(count_of(self.peak_in_flight, op), outstanding)),
            in_flight_total: total,
            peak_in_flight_total: larger(self.peak_in_flight_total, total),
            ..self
        }
    }

    /// After a write of `op` was finished.
    pub open spec fn left(self, op: ChainOp) -> FaultsView {
        let outstanding = count_of(self.in_flight, op);
        FaultsView {
            in_flight: if self.in_flight.contains_key(op) {
                self.in_flight.insert(
                    op,
                    if outstanding > 0 {
                        (outstanding - 1) as usize
                    } else {
                        0
                    },
                )
            } else {
                self.in_flight
            },
            in_flight_total: if self.in_flight_total > 0 {
                (self.in_flight_total - 1) as usize
            } else {
                0
            },
            ..self
        }
    }

    /// Whether subscribers do not see `event`.
    pub open spec fn withholds(self, event: ChainEvent) -> bool {
        EventKind::spec_of(event) matches Some(kind) && self.withheld.contains(kind)
    }

    /// Whether the watermarks are at or above what is outstanding, and the total is the sum over the
    /// operations.
    pub open spec fn consistent(self) -> bool {
        &&& forall|op: ChainOp| #[trigger] count_of(self.in_flight, op) <= count_of(self.peak_in_flight, op)
        &&& self.in_flight_total <= self.peak_in_flight_total
        &&& self.in_flight_total == outstanding_sum(self.in_flight)
    }
}

/// The writes that are outstanding over all operations.
pub open spec fn outstanding_sum(in_flight: Map<ChainOp, usize>) -> int {
    count_of(in_flight, ChainOp::SafeInfo) + count_of(in_flight, ChainOp::Balance) + count_of(
        in_flight,
        ChainOp::TicketPrice,
    ) + count_of(in_flight, ChainOp::WinProb) + count_of(in_flight, ChainOp::ResolutionTime) + count_of(
        in_flight,
        ChainOp::StreamChannels,
    ) + count_of(in_flight, ChainOp::StreamAccounts) + count_of(in_flight, ChainOp::OpenChannel) + count_of(
        in_flight,
        ChainOp::FundChannel,
    ) + count_of(in_flight, ChainOp::CloseChannel)
}

/// What an operation that faults can perturb does next.
#[derive(Clone, Copy, Debug, PartialEq, Eq, Structural)]
pub enum Passage {
    /// It goes on.
    Proceed,
    /// It never resolves.
    Hang,
}

/// What comes of an operation under `fault`: it goes on, never resolves, or fails.
pub open spec fn passage(op: ChainOp, fault: Fault) -> Result<Passage, TestConnectorError> {
    match fault {
        Fault::Normal => Ok(Passage::Proceed),
        Fault::Hang => Ok(Passage::Hang),
        Fault::Fail => Err(TestConnectorError::Injected(op)),
    }
}

/// Live-mutable fault configuration for a
/// [`TestChainConnector`](super::connector::TestChainConnector).
///
/// A test perturbs the chain while the strategy is running — which is how these failures actually
/// occur. Empty by default.
///
/// ```text
/// // The funding tx lands, but its outcome never comes back and the event that
/// // would report it is lost — the strategy learns nothing either way.
/// faults.set_confirmation(ChainOp::FundChannel, Fault::Hang);
/// faults.withhold_event(EventKind::BalanceIncreased);
///
/// // ... drive the strategy, then let the chain recover:
/// faults.clear(ChainOp::FundChannel);
/// faults.deliver_event(EventKind::BalanceIncreased);
///
/// // What the strategy did meanwhile:
/// assert_eq!(faults.calls(ChainOp::FundChannel), 1);
/// assert_eq!(faults.peak_in_flight(ChainOp::FundChannel), 1);
/// ```
pub struct ChainFaults {
    ops: DashMap<Vec<u8>, usize, RandomState>,
    /// Faults applied to the confirmation of a write, rather than to its submission.
    confirmations: DashMap<Vec<u8>, usize, RandomState>,
    withheld_events: DashSet<u64, RandomState>,
    calls: DashMap<Vec<u8>, usize, RandomState>,
    /// Writes between submission and confirmation, and the most ever outstanding at once, per kind
    /// and in total. Lets a test observe what the strategy does in parallel, not just what it
    /// eventually achieves.
    in_flight: DashMap<Vec<u8>, usize, RandomState>,
    peak_in_flight: DashMap<Vec<u8>, usize, RandomState>,
    in_flight_total: usize,
    peak_in_flight_total: usize,
}

spec fn counts_in(contents: Map<Seq<u8>, usize>) -> Map<ChainOp, usize> {
    Map::new(
        |op: ChainOp| contents.contains_key(op.spec_key()),
        |op: ChainOp| contents[op.spec_key()],
    )
}

spec fn faults_in(contents: Map<Seq<u8>, usize>) -> Map<ChainOp, Fault> {
    Map::new(
        |op: ChainOp| contents.contains_key(op.spec_key()),
        |op: ChainOp| Fault::spec_decode(contents[op.spec_key()]),
    )
}

spec fn kinds_in(members: Set<u64>) -> Set<EventKind> {
    Set::new(|kind: EventKind| members.contains(kind.spec_code()))
}

impl View for ChainFaults {
    type V = FaultsView;

    closed spec fn view(&self) -> FaultsView {
        FaultsView {
            ops: faults_in(map_contents(self.ops)),
            confirmations: faults_in(map_contents(self.confirmations)),
            withheld: kinds_in(set_contents(self.withheld_events)),
            calls: counts_in(map_contents(self.calls)),
            in_flight: counts_in(map_contents(self.in_flight)),
            peak_in_flight: counts_in(map_contents(self.peak_in_flight)),
            in_flight_total: self.in_flight_total,
            peak_in_flight_total: self.peak_in_flight_total,
        }
    }
}

impl Default for ChainFaults {
    /// A configuration that perturbs nothing.
    fn default() -> (faults: Self)
        ensures
            faults@ == FaultsView::quiet(),
            faults@.consistent(),
    {
        let faults = ChainFaults {
            ops: new_map(),
            confirmations: new_map(),
            withheld_events: new_set(),
            calls: new_map(),
            in_flight: new_map(),
            peak_in_flight: new_map(),
            in_flight_total: 0,
            peak_in_flight_total: 0,
        };
        assert(faults@ =~= FaultsView::quiet());
        faults
    }
}

impl ChainFaults {
    /// Makes `op` misbehave from now on. For writes this is *submission*; see
    /// [`ChainFaults::set_confirmation`].
    pub fn set(&mut self, op: ChainOp, fault: Fault)
        ensures
            final(self)@ == (FaultsView { ops: old(self)@.ops.insert(op, fault), ..old(self)@ }),
    {
        proof {
            ChainOp::keys_are_distinct();
        }
        map_insert(&mut self.ops, op.key(), fault.code());
        assert(self@.ops =~= old(self)@.ops.insert(op, fault));
    }

    /// Makes `op`'s confirmation misbehave while submission still succeeds: a tx accepted but whose
    /// outcome never arrives (`Hang`) or fails (`Fail`).
    pub fn set_confirmation(&mut self, op: ChainOp, fault: Fault)
        ensures
            final(self)@ == (FaultsView { confirmations: old(self)@.confirmations.insert(op, fault), ..old(self)@ }),
    {
        proof {
            ChainOp::keys_are_distinct();
        }
        map_insert(&mut self.confirmations, op.key(), fault.code());
        assert(self@.confirmations =~= old(self)@.confirmations.insert(op, fault));
    }

    /// Restores normal behaviour of `op`, both submission and confirmation.
    pub fn clear(&mut self, op: ChainOp)
        ensures
            final(self)@ == (FaultsView {
                ops: old(self)@.ops.remove(op),
                confirmations: old(self)@.confirmations.remove(op),
                ..old(self)@
            }),
    {
        proof {
            ChainOp::keys_are_distinct();
        }
        map_remove(&mut self.ops, &op.key());
        map_remove(&mut self.confirmations, &op.key());
        assert(self@.ops =~= old(self)@.ops.remove(op));
        assert(self@.confirmations =~= old(self)@.confirmations.remove(op));
    }

    /// Stops delivering `kind` to subscribers, as the lossy broadcast does: the on-chain effect still
    /// happens, the notification does not.
    pub fn withhold_event(&mut self, kind: EventKind)
        ensures
            final(self)@ == (FaultsView { withheld: old(self)@.withheld.insert(kind), ..old(self)@ }),
    {
        set_insert(&mut self.withheld_events, kind.code());
        assert(self@.withheld =~= old(self)@.withheld.insert(kind));
    }

    /// Resumes delivery of `kind`.
    pub fn deliver_event(&mut self, kind: EventKind)
        ensures
            final(self)@ == (FaultsView { withheld: old(self)@.withheld.remove(kind), ..old(self)@ }),
    {
        set_remove(&mut self.withheld_events, kind.code());
        assert(self@.withheld =~= old(self)@.withheld.remove(kind));
    }

    /// Times `op` was invoked, counted on entry, before any injected fault.
    pub fn calls(&self, op: ChainOp) -> (count: usize)
        ensures
            count == count_of(self@.calls, op),
    {
        match map_get(&self.calls, &op.key()) {
            Some(count) => count,
            None => 0,
        }
    }

    /// Most `op` transactions that were ever in flight at the same time.
    pub fn peak_in_flight(&self, op: ChainOp) -> (count: usize)
        ensures
            count == count_of(self@.peak_in_flight, op),
    {
        match map_get(&self.peak_in_flight, &op.key()) {
            Some(count) => count,
            None => 0,
        }
    }

    /// Most writes of any kind ever in flight at once — what a limit on the concurrent actions of a
    /// strategy bounds.
    pub fn peak_in_flight_total(&self) -> (count: usize)
        ensures
            count == self@.peak_in_flight_total,
    {
        self.peak_in_flight_total
    }

    /// Marks a submitted write as outstanding and updates the watermarks. Whoever holds the guard
    /// gives it back with [`InFlightGuard::release`].
    pub fn enter_in_flight(&mut self, op: ChainOp) -> (guard: InFlightGuard)
        requires
            count_of(old(self)@.in_flight, op) < usize::MAX,
            old(self)@.in_flight_total < usize::MAX,
        ensures
            guard.op() == op,
            final(self)@ == old(self)@.entered(op),
    {
        proof {
            ChainOp::keys_are_distinct();
        }
        let outstanding: usize = match map_get(&self.in_flight, &op.key()) {
            Some(count) => count + 1,
            None => 1,
        };
        map_insert(&mut self.in_flight, op.key(), outstanding);
        let peak: usize = match map_get(&self.peak_in_flight, &op.key()) {
            Some(peak) => if peak >= outstanding {
                peak
            } else {
                outstanding
            },
            None => outstanding,
        };
        map_insert(&mut self.peak_in_flight, op.key(), peak);
        self.in_flight_total = self.in_flight_total + 1;
        if self.peak_in_flight_total < self.in_flight_total {
            self.peak_in_flight_total = self.in_flight_total;
        }
        assert(self@ =~= old(self)@.entered(op));
        InFlightGuard { op }
    }

    /// Marks an outstanding write as finished.
    fn leave_in_flight(&mut self, op: ChainOp)
        ensures
            final(self)@ == old(self)@.left(op),
    {
        proof {
            ChainOp::keys_are_distinct();
        }
        if let Some(outstanding) = map_get(&self.in_flight, &op.key()) {
            map_insert(&mut self.in_flight, op.key(), outstanding.saturating_sub(1));
        }
        self.in_flight_total = self.in_flight_total.saturating_sub(1);
        assert(self@ =~= old(self)@.left(op));
    }

    fn fault(&self, op: ChainOp) -> (fault: Fault)
        ensures
            fault == fault_of(self@.ops, op),
    {
        match map_get(&self.ops, &op.key()) {
            Some(code) => Fault::decode(code),
            None => Fault::Normal,
        }
    }

    fn confirmation_fault(&self, op: ChainOp) -> (fault: Fault)
        ensures
            fault == fault_of(self@.confirmations, op),
    {
        match map_get(&self.confirmations, &op.key()) {
            Some(code) => Fault::decode(code),
            None => Fault::Normal,
        }
    }

    fn record(&mut self, op: ChainOp)
        requires
            count_of(old(self)@.calls, op) < usize::MAX,
        ensures
            final(self)@ == old(self)@.recorded(op),
    {
        proof {
            ChainOp::keys_are_distinct();
        }
        let count: usize = match map_get(&self.calls, &op.key()) {
            Some(count) => count + 1,
            None => 1,
        };
        map_insert(&mut self.calls, op.key(), count);
        assert(self@ =~= old(self)@.recorded(op));
    }

    /// Whether subscribers do not see `event`.
    pub fn is_withheld(&self, event: &ChainEvent) -> (withheld: bool)
        ensures
            withheld == self@.withholds(*event),
    {
        match EventKind::of(event) {
            Some(kind) => set_contains(&self.withheld_events, kind.code()),
            None => false,
        }
    }

    /// Counts a call of `op` and applies its fault, if one is set.
    pub fn gate(&mut self, op: ChainOp) -> (outcome: Result<Passage, TestConnectorError>)
        requires
            count_of(old(self)@.calls, op) < usize::MAX,
        ensures
            outcome == passage(op, fault_of(old(self)@.ops, op)),
            final(self)@ == old(self)@.recorded(op),
    {
        self.record(op);
        match self.fault(op) {
            Fault::Normal => Ok(Passage::Proceed),
            Fault::Fail => Err(injected_fault(op)),
            Fault::Hang => Ok(Passage::Hang),
        }
    }

    /// Counts a call of a stream-returning operation and applies its fault: `Fail` errors from the
    /// call, `Hang` is returned so the caller can yield a pending stream.
    pub fn gate_stream(&mut self, op: ChainOp) -> (outcome: Result<Fault, TestConnectorError>)
        requires
            count_of(old(self)@.calls, op) < usize::MAX,
        ensures
            outcome == (match fault_of(old(self)@.ops, op) {
                Fault::Fail => Err(TestConnectorError::Injected(op)),
                other => Ok(other),
            }),
            final(self)@ == old(self)@.recorded(op),
    {
        self.record(op);
        match self.fault(op) {
            Fault::Fail => Err(injected_fault(op)),
            other => Ok(other),
        }
    }

    /// Resolves the confirmation of write op `op`.
    pub fn confirm(&self, op: ChainOp) -> (outcome: Result<Passage, TestConnectorError>)
        ensures
            outcome == passage(op, fault_of(self@.confirmations, op)),
    {
        match self.confirmation_fault(op) {
            Fault::Normal => Ok(Passage::Proceed),
            Fault::Fail => Err(injected_fault(op)),
            Fault::Hang => Ok(Passage::Hang),
        }
    }
}

/// Holds an operation's in-flight count up until it is released.
///
/// Tied to the confirmation's lifetime rather than to a call at its end, so a caller that drops the
/// confirmation without waiting for it — an aborted task, say — cannot leave the count raised and
/// every later watermark reading too high.
#[derive(Debug, PartialEq, Eq)]
pub struct InFlightGuard {
    op: ChainOp,
}

impl InFlightGuard {
    /// The operation whose count is held up.
    pub closed spec fn op(self) -> ChainOp {
        self.op
    }

    /// Gives the count back.
    pub fn release(self, faults: &mut ChainFaults)
        ensures
            final(faults)@ == old(faults)@.left(self.op()),
    {
        faults.leave_in_flight(self.op);
    }
}

fn injected_fault(op: ChainOp) -> (error: TestConnectorError)
    ensures
        error == TestConnectorError::Injected(op),
{
    TestConnectorError::Injected(op)
}

/// Changing one count changes the sum by as much.
proof fn lemma_sum_follows_a_count(in_flight: Map<ChainOp, usize>, op: ChainOp, count: usize)
    ensures
        outstanding_sum(in_flight.insert(op, count)) == outstanding_sum(in_flight) - count_of(in_flight, op) + count,
{
    let after = in_flight.insert(op, count);
    assert(count_of(after, op) == count);
    assert forall|other: ChainOp| other != op implies #[trigger] count_of(after, other) == count_of(in_flight, other) by {}
    match op {
        ChainOp::SafeInfo => {},
        ChainOp::Balance => {},
        ChainOp::TicketPrice => {},
        ChainOp::WinProb => {},
        ChainOp::ResolutionTime => {},
        ChainOp::StreamChannels => {},
        ChainOp::StreamAccounts => {},
        ChainOp::OpenChannel => {},
        ChainOp::FundChannel => {},
        ChainOp::CloseChannel => {},
    }
}

/// A single count is no more than the sum.
proof fn lemma_count_is_within_the_sum(in_flight: Map<ChainOp, usize>, op: ChainOp)
    ensures
        count_of(in_flight, op) <= outstanding_sum(in_flight),
{
}

/// The watermarks never fall behind what is outstanding, and never fall; the total stays the sum over
/// the operations, as long as only what was entered leaves.
pub proof fn watermarks_stay_above_what_is_outstanding(view: FaultsView, op: ChainOp)
    requires
        view.consistent(),
        view.in_flight_total < usize::MAX,
    ensures
        view.entered(op).consistent(),
        count_of(view.peak_in_flight, op) <= count_of(view.entered(op).peak_in_flight, op),
        view.peak_in_flight_total <= view.entered(op).peak_in_flight_total,
        count_of(view.in_flight, op) > 0 ==> view.left(op).consistent(),
        view.left(op).peak_in_flight == view.peak_in_flight,
        view.left(op).peak_in_flight_total == view.peak_in_flight_total,
{
    lemma_count_is_within_the_sum(view.in_flight, op);
    let outstanding = count_of(view.in_flight, op);
    lemma_sum_follows_a_count(view.in_flight, op, (outstanding + 1) as usize);
    let entered = view.entered(op);
    assert forall|other: ChainOp| #[trigger]
        count_of(entered.in_flight, other) <= count_of(entered.peak_in_flight, other) by {
        assert(count_of(view.in_flight, other) <= count_of(view.peak_in_flight, other));
    }
    if outstanding > 0 {
        lemma_sum_follows_a_count(view.in_flight, op, (outstanding - 1) as usize);
        let left = view.left(op);
        assert forall|other: ChainOp| #[trigger]
            count_of(left.in_flight, other) <= count_of(left.peak_in_flight, other) by {
            assert(count_of(view.in_flight, other) <= count_of(view.peak_in_flight, other));
        }
    }
}

/// A write that enters and leaves again has what is outstanding as it was before.
pub proof fn a_finished_write_leaves_what_is_outstanding(view: FaultsView, op: ChainOp, other: ChainOp)
    requires
        count_of(view.in_flight, op) < usize::MAX,
        view.in_flight_total < usize::MAX,
    ensures
        count_of(view.entered(op).left(op).in_flight, other) == count_of(view.in_flight, other),
        view.entered(op).left(op).in_flight_total == view.in_flight_total,
{
}

/// An operation that was perturbed and cleared behaves as if it never had been, and the others as they
/// did.
pub proof fn clearing_undoes_a_fault(view: FaultsView, op: ChainOp, fault: Fault, other: ChainOp)
    ensures
        fault_of(view.ops.insert(op, fault).remove(op), op) == Fault::Normal,
        fault_of(view.confirmations.insert(op, fault).remove(op), op) == Fault::Normal,
        other != op ==> fault_of(view.ops.insert(op, fault).remove(op), other) == fault_of(view.ops, other),
{
}

/// A kind that is withheld hides its events and no others; once it is delivered again, it hides none.
pub proof fn delivery_undoes_withholding(view: FaultsView, kind: EventKind, event: ChainEvent)
    ensures
        ({
            let withholding = FaultsView { withheld: view.withheld.insert(kind), ..view };
            let delivering = FaultsView { withheld: withholding.withheld.remove(kind), ..withholding };
            &&& EventKind::spec_of(event) == Some(kind) ==> withholding.withholds(event)
            &&& EventKind::spec_of(event) == Some(kind) ==> !delivering.withholds(event)
            &&& EventKind::spec_of(event) != Some(kind) ==> withholding.withholds(event) == view.withholds(event)
            &&& EventKind::spec_of(event) != Some(kind) ==> delivering.withholds(event) == view.withholds(event)
        }),
{
}

/// A call counts once for its own operation and for no other, and changes nothing else.
pub proof fn a_call_is_counted_once(view: FaultsView, op: ChainOp, other: ChainOp)
    requires
        count_of(view.calls, op) < usize::MAX,
    ensures
        count_of(view.recorded(op).calls, op) == count_of(view.calls, op) + 1,
        other != op ==> count_of(view.recorded(op).calls, other) == count_of(view.calls, other),
        view.recorded(op) == (FaultsView { calls: view.recorded(op).calls, ..view }),
{
}

/// A write that enters raises the count of its operation and the total by one, and each watermark to what is
/// outstanding then where that is more than ever before; it touches no other operation and nothing else.
pub proof fn a_write_raises_its_own_count_and_the_total(view: FaultsView, op: ChainOp, other: ChainOp)
    requires
        count_of(view.in_flight, op) < usize::MAX,
        view.in_flight_total < usize::MAX,
    ensures
        ({
            let after = view.entered(op);
            let outstanding = count_of(view.in_flight, op) + 1;
            let total = view.in_flight_total + 1;
            &&& count_of(after.in_flight, op) == outstanding
            &&& after.in_flight_total == total
            &&& count_of(view.peak_in_flight, op) >= outstanding ==> count_of(after.peak_in_flight, op) == count_of(
                view.peak_in_flight,
                op,
            )
            &&& count_of(view.peak_in_flight, op) < outstanding ==> count_of(after.peak_in_flight, op) == outstanding
            &&& view.peak_in_flight_total >= total ==> after.peak_in_flight_total == view.peak_in_flight_total
            &&& view.peak_in_flight_total < total ==> after.peak_in_flight_total == total
            &&& other != op ==> count_of(after.in_flight, other) == count_of(view.in_flight, other)
            &&& other != op ==> count_of(after.peak_in_flight, other) == count_of(view.peak_in_flight, other)
            &&& after == (FaultsView {
                in_flight: after.in_flight,
                peak_in_flight: after.peak_in_flight,
                in_flight_total: after.in_flight_total,
                peak_in_flight_total: after.peak_in_flight_total,
                ..view
            })
        }),
{
}

/// A write that leaves lowers the count of its operation and the total by one, neither below zero; it touches
/// no other operation, no watermark and nothing else.
pub proof fn a_write_lowers_its_own_count_and_the_total(view: FaultsView, op: ChainOp, other: ChainOp)
    ensures
        ({
            let after = view.left(op);
            &&& count_of(view.in_flight, op) > 0 ==> count_of(after.in_flight, op) == count_of(view.in_flight, op) - 1
            &&& count_of(view.in_flight, op) == 0 ==> count_of(after.in_flight, op) == 0
            &&& view.in_flight_total > 0 ==> after.in_flight_total == view.in_flight_total - 1
            &&& view.in_flight_total == 0 ==> after.in_flight_total == 0
            &&& other != op ==> count_of(after.in_flight, other) == count_of(view.in_flight, other)
            &&& after == (FaultsView {
                in_flight: after.in_flight,
                in_flight_total: after.in_flight_total,
                ..view
            })
        }),
{
}

/// A fault that is set is the one that its operation meets, and no other operation meets it; an operation
/// that was given none goes on.
pub proof fn a_fault_is_met_by_its_own_operation(faults: Map<ChainOp, Fault>, op: ChainOp, fault: Fault, other: ChainOp)
    ensures
        fault_of(faults.insert(op, fault), op) == fault,
        other != op ==> fault_of(faults.insert(op, fault), other) == fault_of(faults, other),
        !faults.contains_key(other) ==> fault_of(faults, other) == Fault::Normal,
        passage(op, Fault::Normal) == Ok::<Passage, TestConnectorError>(Passage::Proceed),
        passage(op, Fault::Hang) == Ok::<Passage, TestConnectorError>(Passage::Hang),
        passage(op, Fault::Fail) == Err::<Passage, TestConnectorError>(TestConnectorError::Injected(op)),
{
}

/// Each event is hidden by the kind that it is of, and by no other; one that is of none is never hidden.
pub proof fn an_event_is_hidden_by_its_own_kind(view: FaultsView, channel: ChannelEntry, amount: HoprBalance)
    ensures
        view.withholds(ChainEvent::ChannelBalanceIncreased(channel, amount)) <==> view.withheld.contains(
            EventKind::BalanceIncreased,
        ),
        view.withholds(ChainEvent::ChannelBalanceDecreased(channel, amount)) <==> view.withheld.contains(
            EventKind::BalanceDecreased,
        ),
        view.withholds(ChainEvent::ChannelOpened(channel)) <==> view.withheld.contains(EventKind::ChannelOpened),
        view.withholds(ChainEvent::ChannelClosureInitiated(channel)) <==> view.withheld.contains(
            EventKind::ClosureInitiated,
        ),
        view.withholds(ChainEvent::ChannelClosed(channel)) <==> view.withheld.contains(EventKind::Closed),
        view.withholds(ChainEvent::TicketRedeemed(channel)) <==> view.withheld.contains(EventKind::TicketRedeemed),
        !view.withholds(ChainEvent::Other),
{
}

/// Where nothing was configured, nothing is perturbed, hidden or counted.
pub proof fn a_quiet_configuration_perturbs_nothing(op: ChainOp, event: ChainEvent)
    ensures
        fault_of(FaultsView::quiet().ops, op) == Fault::Normal,
        fault_of(FaultsView::quiet().confirmations, op) == Fault::Normal,
        !FaultsView::quiet().withholds(event),
        count_of(FaultsView::quiet().calls, op) == 0,
        count_of(FaultsView::quiet().in_flight, op) == 0,
        count_of(FaultsView::quiet().peak_in_flight, op) == 0,
        FaultsView::quiet().in_flight_total == 0,
        FaultsView::quiet().peak_in_flight_total == 0,
{
}

/// An operation is named after what it stands for.
pub proof fn an_operation_is_named_after_itself()
    ensures
        ChainOp::SafeInfo.spec_name() == "SafeInfo"@,
        ChainOp::Balance.spec_name() == "Balance"@,
        ChainOp::TicketPrice.spec_name() == "TicketPrice"@,
        ChainOp::WinProb.spec_name() == "WinProb"@,
        ChainOp::ResolutionTime.spec_name() == "ResolutionTime"@,
        ChainOp::StreamChannels.spec_name() == "StreamChannels"@,
        ChainOp::StreamAccounts.spec_name() == "StreamAccounts"@,
        ChainOp::OpenChannel.spec_name() == "OpenChannel"@,
        ChainOp::FundChannel.spec_name() == "FundChannel"@,
        ChainOp::CloseChannel.spec_name() == "CloseChannel"@,
{
}

} // verus!
