//! What the connector answers about the chain.

use vstd::prelude::*;

use crate::testing::blokli::chain::{
    AccountEntry, AccountType, AccountView, Address, ChainEvent, ChannelEntry, ChannelId, ChannelStatus, DeployedSafe,
    HoprBalance, Multiaddr, PacketKey, StatusKind, Timestamp, WinningProbability,
};
use crate::testing::blokli::connector::convert::{convert_safe_model, converted_safe, SafeView};
use crate::testing::blokli::connector::{ConnectorView, ErrorView, TestChainConnector, TestConnectorError};
use crate::testing::blokli::faults::{count_of, fault_of, passage, ChainOp, Fault, Passage};
use crate::testing::blokli::interop::{protocol_names, protocol_stack};
use crate::testing::blokli::maps::{lemma_place, lemma_put_commutes, value_of};
use crate::testing::blokli::model::{texts, Safe};
use crate::text::same_text;
use crate::time::{Duration, NANOS_PER_SEC};

verus! {

// ── Selectors ────────────────────────────────────────────────────────────────

/// Whether an address names a host and a port on it.
pub open spec fn is_routable(address: Seq<char>) -> bool {
    let names = protocol_names(address);
    &&& names.contains("ip4"@) || names.contains("dns4"@) || names.contains("ip6"@) || names.contains("dns6"@)
    &&& names.contains("tcp"@) || names.contains("udp"@)
}

/// Whether a node has announced addresses, all of which can be routed to.
pub open spec fn announced_with_routing_info(announced: Option<Seq<Seq<char>>>) -> bool {
    announced matches Some(addresses) && addresses.len() > 0 && forall|i: int|
        0 <= i < addresses.len() ==> is_routable(#[trigger] addresses[i])
}

/// Whether `names` holds `protocol`.
fn mentions(names: &Vec<String>, protocol: &str) -> (found: bool)
    ensures
        found == texts(names@).contains(protocol@),
{
    let mut i: usize = 0;
    while i < names.len()
        invariant
            i <= names@.len(),
            forall|j: int| 0 <= j < i ==> (#[trigger] texts(names@)[j]) != protocol@,
        decreases names@.len() - i,
    {
        if same_text(names[i].as_str(), protocol) {
            assert(texts(names@)[i as int] == protocol@);
            return true;
        }
        i += 1;
    }
    false
}

fn routable(address: &Multiaddr) -> (routable: bool)
    ensures
        routable == is_routable(address@),
{
    let names = protocol_stack(address.text.as_str());
    assert(texts(names@) =~= protocol_names(address@));
    let host: bool = mentions(&names, "ip4") || mentions(&names, "dns4") || mentions(&names, "ip6") || mentions(
        &names,
        "dns6",
    );
    host && (mentions(&names, "tcp") || mentions(&names, "udp"))
}

impl AccountEntry {
    /// If the node has announced, did it announce with routing information?
    pub fn has_announced_with_routing_info(&self) -> (routable: bool)
        ensures
            routable == announced_with_routing_info(self@.announced),
    {
        match &self.entry_type {
            AccountType::NotAnnounced => false,
            AccountType::Announced(addresses) => {
                let ghost all = addresses@.map_values(|a: Multiaddr| a@);
                let mut i: usize = 0;
                while i < addresses.len()
                    invariant
                        i <= addresses@.len(),
                        all == addresses@.map_values(|a: Multiaddr| a@),
                        self@.announced == Some(all),
                        forall|j: int| 0 <= j < i ==> is_routable(#[trigger] all[j]),
                    decreases addresses@.len() - i,
                {
                    if !routable(&addresses[i]) {
                        assert(!is_routable(all[i as int]));
                        return false;
                    }
                    i += 1;
                }
                addresses.len() > 0
            },
        }
    }
}

/// Selects accounts.
#[derive(Clone, Copy, Debug, PartialEq, Eq)]
pub struct AccountSelector {
    /// Only accounts that announced with publicly routable addresses.
    pub public_only: bool,
    /// Only the account with this chain key.
    pub chain_key: Option<Address>,
    /// Only accounts with this packet key.
    pub offchain_key: Option<PacketKey>,
}

/// Whether an account is selected.
pub open spec fn account_satisfies(selector: AccountSelector, account: AccountView) -> bool {
    &&& selector.public_only ==> announced_with_routing_info(account.announced)
    &&& selector.chain_key matches Some(key) ==> account.chain_addr == key
    &&& selector.offchain_key matches Some(key) ==> account.public_key == key
}

impl AccountSelector {
    /// Whether an account is selected.
    pub fn satisfies(&self, account: &AccountEntry) -> (selected: bool)
        ensures
            selected == account_satisfies(*self, account@),
    {
        if self.public_only && !account.has_announced_with_routing_info() {
            return false;
        }
        if let Some(key) = &self.chain_key {
            if !account.chain_addr.same(key) {
                return false;
            }
        }
        if let Some(key) = &self.offchain_key {
            if !account.public_key.same(key) {
                return false;
            }
        }
        true
    }
}

/// One end of a range of times.
#[derive(Clone, Copy, Debug, PartialEq, Eq, Structural)]
pub enum TimeBound {
    Unbounded,
    Included(Timestamp),
    Excluded(Timestamp),
}

/// Selects channels.
#[derive(Debug, PartialEq, Eq)]
pub struct ChannelSelector {
    /// Only channels from this source, unless an id is given.
    pub source: Option<Address>,
    /// Only channels to this destination, unless an id is given.
    pub destination: Option<Address>,
    /// Only the channel with this id.
    pub id: Option<ChannelId>,
    /// Only channels in these states; any where there are none.
    pub allowed_states: Vec<StatusKind>,
    /// Only these closure times, where pending channels are asked for.
    pub closure_time_range: (TimeBound, TimeBound),
}

/// Whether a time lies in a range.
pub open spec fn time_in_range(range: (TimeBound, TimeBound), time: Timestamp) -> bool {
    &&& match range.0 {
        TimeBound::Unbounded => true,
        TimeBound::Included(from) => from.nanos <= time.nanos,
        TimeBound::Excluded(from) => from.nanos < time.nanos,
    }
    &&& match range.1 {
        TimeBound::Unbounded => true,
        TimeBound::Included(to) => time.nanos <= to.nanos,
        TimeBound::Excluded(to) => time.nanos < to.nanos,
    }
}

/// Whether a channel is selected.
pub open spec fn channel_satisfies(selector: ChannelSelector, channel: ChannelEntry) -> bool {
    let states = selector.allowed_states@;
    &&& match selector.id {
        Some(id) => channel.id == id,
        None => {
            &&& selector.source matches Some(source) ==> channel.source == source
            &&& selector.destination matches Some(destination) ==> channel.destination == destination
        },
    }
    &&& states.len() > 0 ==> states.contains(channel.status.spec_kind())
    &&& states.contains(StatusKind::PendingToClose) ==> match channel.status {
        ChannelStatus::PendingToClose(time) => time_in_range(selector.closure_time_range, time),
        _ => true,
    }
}

/// Whether `kinds` holds `kind`.
fn has_kind(kinds: &Vec<StatusKind>, kind: StatusKind) -> (found: bool)
    ensures
        found == kinds@.contains(kind),
{
    let mut i: usize = 0;
    while i < kinds.len()
        invariant
            i <= kinds@.len(),
            forall|j: int| 0 <= j < i ==> kinds@[j] != kind,
        decreases kinds@.len() - i,
    {
        if kinds[i] == kind {
            return true;
        }
        i += 1;
    }
    false
}

/// Whether a time lies in a range.
fn in_range(range: &(TimeBound, TimeBound), time: Timestamp) -> (inside: bool)
    ensures
        inside == time_in_range(*range, time),
{
    let after: bool = match range.0 {
        TimeBound::Unbounded => true,
        TimeBound::Included(from) => from.nanos <= time.nanos,
        TimeBound::Excluded(from) => from.nanos < time.nanos,
    };
    let before: bool = match range.1 {
        TimeBound::Unbounded => true,
        TimeBound::Included(to) => time.nanos <= to.nanos,
        TimeBound::Excluded(to) => time.nanos < to.nanos,
    };
    after && before
}

impl ChannelSelector {
    /// Whether a channel is selected.
    pub fn satisfies(&self, channel: &ChannelEntry) -> (selected: bool)
        ensures
            selected == channel_satisfies(*self, *channel),
    {
        match &self.id {
            Some(id) => {
                if !channel.id.same(id) {
                    return false;
                }
            },
            None => {
                if let Some(source) = &self.source {
                    if !channel.source.same(source) {
                        return false;
                    }
                }
                if let Some(destination) = &self.destination {
                    if !channel.destination.same(destination) {
                        return false;
                    }
                }
            },
        }
        if self.allowed_states.len() > 0 && !has_kind(&self.allowed_states, channel.status.kind()) {
            return false;
        }
        if has_kind(&self.allowed_states, StatusKind::PendingToClose) {
            if let ChannelStatus::PendingToClose(time) = channel.status {
                return in_range(&self.closure_time_range, time);
            }
        }
        true
    }
}

// ── Accounts and channels ────────────────────────────────────────────────────

/// The accounts that are selected, in their order.
pub open spec fn selected_accounts(
    accounts: Seq<(Seq<u8>, AccountView)>,
    selector: AccountSelector,
) -> Seq<AccountView>
    decreases accounts.len(),
{
    if accounts.len() == 0 {
        Seq::empty()
    } else {
        let rest = selected_accounts(accounts.drop_last(), selector);
        if account_satisfies(selector, accounts.last().1) {
            rest.push(accounts.last().1)
        } else {
            rest
        }
    }
}

/// The channels that are selected, in their order.
pub open spec fn selected_channels(
    channels: Seq<(Seq<u8>, ChannelEntry)>,
    selector: ChannelSelector,
) -> Seq<ChannelEntry>
    decreases channels.len(),
{
    if channels.len() == 0 {
        Seq::empty()
    } else {
        let rest = selected_channels(channels.drop_last(), selector);
        if channel_satisfies(selector, channels.last().1) {
            rest.push(channels.last().1)
        } else {
            rest
        }
    }
}

/// The first account with a packet key, where there is one.
pub open spec fn bound_account(accounts: Seq<(Seq<u8>, AccountView)>, key: PacketKey) -> Option<AccountView>
    decreases accounts.len(),
{
    if accounts.len() == 0 {
        None
    } else {
        match bound_account(accounts.drop_last(), key) {
            Some(account) => Some(account),
            None => if accounts.last().1.public_key == key {
                Some(accounts.last().1)
            } else {
                None
            },
        }
    }
}

/// What a subscriber is told of the channels that are there already: those that are open and those that
/// are closing.
pub open spec fn snapshot_of(channels: Seq<(Seq<u8>, ChannelEntry)>) -> Seq<ChainEvent>
    decreases channels.len(),
{
    if channels.len() == 0 {
        Seq::empty()
    } else {
        let rest = snapshot_of(channels.drop_last());
        let channel = channels.last().1;
        match channel.status {
            ChannelStatus::Open => rest.push(ChainEvent::ChannelOpened(channel)),
            ChannelStatus::PendingToClose(_) => rest.push(ChainEvent::ChannelClosureInitiated(channel)),
            ChannelStatus::Closed => rest,
        }
    }
}

proof fn lemma_bound_account_stays(accounts: Seq<(Seq<u8>, AccountView)>, key: PacketKey, upto: int)
    requires
        0 <= upto <= accounts.len(),
        bound_account(accounts.take(upto), key) is Some,
    ensures
        bound_account(accounts, key) == bound_account(accounts.take(upto), key),
    decreases accounts.len() - upto,
{
    if upto < accounts.len() {
        assert(accounts.take(upto + 1).drop_last() =~= accounts.take(upto));
        lemma_bound_account_stays(accounts, key, upto + 1);
    } else {
        assert(accounts.take(upto) =~= accounts);
    }
}

/// The items of a stream, or a stream that never yields any.
#[derive(Clone, Debug, PartialEq, Eq)]
pub enum Streamed<T> {
    /// The stream never yields.
    Pending,
    /// The stream yields these, then ends.
    Items(Vec<T>),
}

impl TestChainConnector {
    /// The address of the connector's own node.
    pub fn me(&self) -> (address: Address)
        ensures
            address == self@.my_addr,
    {
        self.my_addr
    }

    /// Copies of the accounts that are selected.
    fn collect_accounts(&self, selector: &AccountSelector) -> (selected: Vec<AccountEntry>)
        requires
            self.well_formed(),
        ensures
            selected@.map_values(|a: AccountEntry| a@) == selected_accounts(self@.accounts, *selector),
    {
        let mut selected: Vec<AccountEntry> = Vec::new();
        let count: usize = self.accounts.len();
        let mut i: usize = 0;
        let ghost all = self@.accounts;
        assert(all.take(0) =~= Seq::empty());
        assert(selected@.map_values(|a: AccountEntry| a@) =~= Seq::empty());
        while i < count
            invariant
                i <= count,
                count == self.accounts.entries().len(),
                all == self@.accounts,
                all.len() == count,
                selected@.map_values(|a: AccountEntry| a@) == selected_accounts(all.take(i as int), *selector),
            decreases count - i,
        {
            let ghost before = selected@;
            let account = self.accounts.at(i);
            proof {
                assert(all.take(i + 1).drop_last() =~= all.take(i as int));
                assert(all.take(i + 1).last().1 == account@);
            }
            if selector.satisfies(account) {
                selected.push(account.copy());
                assert(selected@.map_values(|a: AccountEntry| a@) =~= before.map_values(|a: AccountEntry| a@).push(
                    account@,
                ));
            }
            i += 1;
        }
        assert(all.take(count as int) =~= all);
        selected
    }

    /// Streams the accounts that are selected.
    pub fn stream_accounts(
        &mut self,
        selector: &AccountSelector,
    ) -> (stream: Result<Streamed<AccountEntry>, TestConnectorError>)
        requires
            old(self).well_formed(),
            count_of(old(self)@.faults.calls, ChainOp::StreamAccounts) < usize::MAX,
        ensures
            final(self).well_formed(),
            final(self)@ == (ConnectorView {
                faults: old(self)@.faults.recorded(ChainOp::StreamAccounts),
                ..old(self)@
            }),
            match fault_of(old(self)@.faults.ops, ChainOp::StreamAccounts) {
                Fault::Fail => stream == Err::<Streamed<AccountEntry>, TestConnectorError>(
                    TestConnectorError::Injected(ChainOp::StreamAccounts),
                ),
                Fault::Hang => stream == Ok::<Streamed<AccountEntry>, TestConnectorError>(Streamed::Pending),
                Fault::Normal => stream matches Ok(Streamed::Items(items)) && items@.map_values(
                    |a: AccountEntry| a@,
                ) == selected_accounts(old(self)@.accounts, *selector),
            },
    {
        match self.faults.gate_stream(ChainOp::StreamAccounts) {
            Err(error) => Err(error),
            Ok(Fault::Hang) => Ok(Streamed::Pending),
            Ok(_) => Ok(Streamed::Items(self.collect_accounts(selector))),
        }
    }

    /// Counts the accounts that are selected.
    pub fn count_accounts(&self, selector: &AccountSelector) -> (count: usize)
        requires
            self.well_formed(),
        ensures
            count == selected_accounts(self@.accounts, *selector).len(),
    {
        let selected = self.collect_accounts(selector);
        assert(selected@.len() == selected@.map_values(|a: AccountEntry| a@).len());
        selected.len()
    }

    /// The place of the first account with a packet key.
    fn find_bound(&self, key: &PacketKey) -> (place: Option<usize>)
        requires
            self.well_formed(),
        ensures
            match place {
                Some(i) => i < self.accounts.entries().len() && bound_account(self@.accounts, *key) == Some(
                    self.accounts.entries()[i as int].1@,
                ),
                None => bound_account(self@.accounts, *key) is None,
            },
    {
        let count: usize = self.accounts.len();
        let mut i: usize = 0;
        let ghost all = self@.accounts;
        assert(all.take(0) =~= Seq::empty());
        while i < count
            invariant
                i <= count,
                count == self.accounts.entries().len(),
                all == self@.accounts,
                all.len() == count,
                bound_account(all.take(i as int), *key) is None,
            decreases count - i,
        {
            let account = self.accounts.at(i);
            proof {
                assert(all.take(i + 1).drop_last() =~= all.take(i as int));
                assert(all.take(i + 1).last().1 == account@);
            }
            if account.public_key.same(key) {
                proof {
                    lemma_bound_account_stays(all, *key, i + 1);
                }
                return Some(i);
            }
            i += 1;
        }
        assert(all.take(count as int) =~= all);
        None
    }

    /// The account with a packet key.
    pub fn await_key_binding(&self, offchain_key: &PacketKey) -> (account: Result<AccountEntry, TestConnectorError>)
        requires
            self.well_formed(),
        ensures
            match account {
                Ok(found) => bound_account(self@.accounts, *offchain_key) == Some(found@),
                Err(error) => bound_account(self@.accounts, *offchain_key) is None && error
                    == TestConnectorError::UnknownPacketKey(*offchain_key),
            },
    {
        match self.find_bound(offchain_key) {
            Some(place) => Ok(self.accounts.at(place).copy()),
            None => Err(TestConnectorError::UnknownPacketKey(*offchain_key)),
        }
    }

    /// The packet key of the account with a chain address.
    pub fn chain_key_to_packet_key(&self, chain: &Address) -> (key: Option<PacketKey>)
        requires
            self.well_formed(),
        ensures
            key == (match value_of(self@.accounts, chain@) {
                Some(account) => Some(account.public_key),
                None => None,
            }),
    {
        proof {
            lemma_put_commutes(
                self.accounts.entries(),
                chain@,
                arbitrary::<AccountEntry>(),
                |account: AccountEntry| account@,
            );
            let look = |account: AccountEntry| account@;
            let plain = |e: (Seq<u8>, AccountEntry)| (e.0, e.1@);
            let looked = |e: (Seq<u8>, AccountEntry)| (e.0, look(e.1));
            assert(self.accounts.entries().map_values(plain) =~= self.accounts.entries().map_values(looked));
            lemma_place(self.accounts.entries(), chain@);
        }
        match self.accounts.get(&chain.to_vec()) {
            Some(account) => Some(account.public_key),
            None => None,
        }
    }

    /// The chain address of the account with a packet key.
    pub fn packet_key_to_chain_key(&self, packet: &PacketKey) -> (address: Option<Address>)
        requires
            self.well_formed(),
        ensures
            address == (match bound_account(self@.accounts, *packet) {
                Some(account) => Some(account.chain_addr),
                None => None,
            }),
    {
        match self.find_bound(packet) {
            Some(place) => Some(self.accounts.at(place).chain_addr),
            None => None,
        }
    }

    /// The channel with an id.
    pub fn channel_by_id(&self, channel_id: &ChannelId) -> (channel: Option<ChannelEntry>)
        requires
            self.well_formed(),
        ensures
            channel == value_of(self@.channels, channel_id@),
    {
        match self.channels.get(&channel_id.to_vec()) {
            Some(channel) => Some(*channel),
            None => None,
        }
    }

    /// Streams the channels that are selected.
    pub fn stream_channels(
        &mut self,
        selector: &ChannelSelector,
    ) -> (stream: Result<Streamed<ChannelEntry>, TestConnectorError>)
        requires
            old(self).well_formed(),
            count_of(old(self)@.faults.calls, ChainOp::StreamChannels) < usize::MAX,
        ensures
            final(self).well_formed(),
            final(self)@ == (ConnectorView {
                faults: old(self)@.faults.recorded(ChainOp::StreamChannels),
                ..old(self)@
            }),
            match fault_of(old(self)@.faults.ops, ChainOp::StreamChannels) {
                Fault::Fail => stream == Err::<Streamed<ChannelEntry>, TestConnectorError>(
                    TestConnectorError::Injected(ChainOp::StreamChannels),
                ),
                Fault::Hang => stream == Ok::<Streamed<ChannelEntry>, TestConnectorError>(Streamed::Pending),
                Fault::Normal => stream matches Ok(Streamed::Items(items)) && items@ == selected_channels(
                    old(self)@.channels,
                    *selector,
                ),
            },
    {
        match self.faults.gate_stream(ChainOp::StreamChannels) {
            Err(error) => {
                return Err(error);
            },
            Ok(Fault::Hang) => {
                return Ok(Streamed::Pending);
            },
            Ok(_) => {},
        }
        let mut selected: Vec<ChannelEntry> = Vec::new();
        let count: usize = self.channels.len();
        let mut i: usize = 0;
        let ghost all = self@.channels;
        let ghost after = self@;
        assert(all.take(0) =~= Seq::empty());
        while i < count
            invariant
                i <= count,
                count == self.channels.entries().len(),
                self@ == after,
                self.well_formed(),
                all == self@.channels,
                all == self.channels.entries(),
                selected@ == selected_channels(all.take(i as int), *selector),
            decreases count - i,
        {
            let channel = self.channels.at(i);
            proof {
                assert(all.take(i + 1).drop_last() =~= all.take(i as int));
            }
            if selector.satisfies(channel) {
                selected.push(*channel);
            }
            i += 1;
        }
        assert(all.take(count as int) =~= all);
        Ok(Streamed::Items(selected))
    }

    /// What a new subscriber is told first. Events that were fired before the first subscription are
    /// lost, so the channels as they are now stand for them. Withheld kinds are filtered out as the
    /// events are delivered.
    pub fn subscribe_with_state_sync(&self) -> (snapshot: Vec<ChainEvent>)
        requires
            self.well_formed(),
        ensures
            snapshot@ == snapshot_of(self@.channels),
    {
        let mut snapshot: Vec<ChainEvent> = Vec::new();
        let count: usize = self.channels.len();
        let mut i: usize = 0;
        let ghost all = self@.channels;
        assert(all.take(0) =~= Seq::empty());
        while i < count
            invariant
                i <= count,
                count == self.channels.entries().len(),
                all == self.channels.entries(),
                snapshot@ == snapshot_of(all.take(i as int)),
            decreases count - i,
        {
            let channel = *self.channels.at(i);
            proof {
                assert(all.take(i + 1).drop_last() =~= all.take(i as int));
            }
            match channel.status {
                ChannelStatus::Open => {
                    snapshot.push(ChainEvent::ChannelOpened(channel));
                },
                ChannelStatus::PendingToClose(_) => {
                    snapshot.push(ChainEvent::ChannelClosureInitiated(channel));
                },
                ChannelStatus::Closed => {},
            }
            i += 1;
        }
        assert(all.take(count as int) =~= all);
        snapshot
    }

    /// The winning probability and the price that incoming tickets have to have.
    pub fn incoming_ticket_values(&self) -> (values: Result<(WinningProbability, HoprBalance), TestConnectorError>)
        ensures
            values == (match (self@.ticket_win_prob, self@.ticket_price) {
                (Some(probability), Some(price)) => Ok::<(WinningProbability, HoprBalance), TestConnectorError>(
                    (probability, price),
                ),
                _ => Err(TestConnectorError::NotConnected),
            }),
    {
        match (self.ticket_win_prob, self.ticket_price) {
            (Some(probability), Some(price)) => Ok((probability, price)),
            _ => Err(TestConnectorError::NotConnected),
        }
    }
}

/// The safe that a node is to be registered with: that of the node's account. `None` where the lookup
/// never resolves.
///
/// After a node has been connected, it registers with its pre-created safe, so that the safe is found
/// under the node's address — a prerequisite for strategies that read the safe balance.
pub fn register_test_safe(
    connector: &mut TestChainConnector,
    node_address: Address,
) -> (safe: Result<Option<Address>, TestConnectorError>)
    requires
        old(connector).well_formed(),
        count_of(old(connector)@.faults.calls, ChainOp::StreamAccounts) < usize::MAX,
    ensures
        final(connector).well_formed(),
        final(connector)@ == (ConnectorView {
            faults: old(connector)@.faults.recorded(ChainOp::StreamAccounts),
            ..old(connector)@
        }),
        safe == (match passage(
            ChainOp::StreamAccounts,
            fault_of(old(connector)@.faults.ops, ChainOp::StreamAccounts),
        ) {
            Err(error) => Err(error),
            Ok(Passage::Hang) => Ok(None),
            Ok(Passage::Proceed) => own_safe(old(connector)@.accounts, node_address),
        }),
{
    let selector = AccountSelector { public_only: false, chain_key: Some(node_address), offchain_key: None };
    match connector.stream_accounts(&selector) {
        Err(error) => Err(error),
        Ok(Streamed::Pending) => Ok(None),
        Ok(Streamed::Items(items)) => {
            let ghost views = items@.map_values(|a: AccountEntry| a@);
            assert(views.len() == items@.len());
            if items.len() == 0 {
                Err(TestConnectorError::AccountNotFound(node_address))
            } else {
                assert(views[0] == items@[0]@);
                match items[0].safe_address {
                    Some(address) => Ok(Some(address)),
                    None => Err(TestConnectorError::NoSafeAddress(node_address)),
                }
            }
        },
    }
}

/// The safe of the account with a chain address.
pub open spec fn own_safe(
    accounts: Seq<(Seq<u8>, AccountView)>,
    node: Address,
) -> Result<Option<Address>, TestConnectorError> {
    let selector = AccountSelector { public_only: false, chain_key: Some(node), offchain_key: None };
    let selected = selected_accounts(accounts, selector);
    if selected.len() == 0 {
        Err(TestConnectorError::AccountNotFound(node))
    } else {
        match selected[0].safe_address {
            Some(address) => Ok(Some(address)),
            None => Err(TestConnectorError::NoSafeAddress(node)),
        }
    }
}

// ── Safes and values ─────────────────────────────────────────────────────────

/// Selects a safe, as callers of the connector do.
#[derive(Clone, Copy, Debug, PartialEq, Eq)]
pub enum SafeSelector {
    /// The safe at an address.
    Address(Address),
    /// A safe that an account has deployed.
    Deployer(Address),
    /// The safe that a node is registered with.
    NodeAddress(Address),
    /// A safe that an account owns.
    Owner(Address),
}

/// Selects a safe, as the API is asked for it.
#[derive(Clone, Copy, Debug, PartialEq, Eq)]
pub enum SafeQuery {
    SafeAddress(Address),
    ChainKey(Address),
    RegisteredNode(Address),
    Owner(Address),
}

impl SafeSelector {
    /// What the API is asked for.
    pub open spec fn spec_query(self) -> SafeQuery {
        match self {
            SafeSelector::Address(address) => SafeQuery::SafeAddress(address),
            SafeSelector::Deployer(address) => SafeQuery::ChainKey(address),
            SafeSelector::NodeAddress(address) => SafeQuery::RegisteredNode(address),
            SafeSelector::Owner(address) => SafeQuery::Owner(address),
        }
    }

    /// What the API is asked for.
    pub fn query(&self) -> (query: SafeQuery)
        ensures
            query == self.spec_query(),
    {
        match self {
            SafeSelector::Address(address) => SafeQuery::SafeAddress(*address),
            SafeSelector::Deployer(address) => SafeQuery::ChainKey(*address),
            SafeSelector::NodeAddress(address) => SafeQuery::RegisteredNode(*address),
            SafeSelector::Owner(address) => SafeQuery::Owner(*address),
        }
    }
}

/// A question to the API that faults may keep from being asked.
#[derive(Clone, Copy, Debug, PartialEq, Eq)]
pub enum Query<T> {
    /// It is never answered.
    Hang,
    /// It is asked.
    Ask(T),
}

/// What comes of a question under the fault of its operation.
pub open spec fn asked<T>(
    passage: Result<Passage, TestConnectorError>,
    question: Result<T, TestConnectorError>,
) -> Result<Query<T>, TestConnectorError> {
    match passage {
        Err(error) => Err(error),
        Ok(Passage::Hang) => Ok(Query::Hang),
        Ok(Passage::Proceed) => match question {
            Ok(query) => Ok(Query::Ask(query)),
            Err(error) => Err(error),
        },
    }
}

/// The first of the safes that were found, read; `None` where none was found.
pub fn read_safe_info(found: &Vec<Safe>) -> (safe: Result<Option<DeployedSafe>, TestConnectorError>)
    ensures
        match safe {
            Ok(None) => found@.len() == 0,
            Ok(Some(read)) => found@.len() > 0 && converted_safe(found@[0]@) == Ok::<SafeView, ErrorView>(read@),
            Err(error) => found@.len() > 0 && converted_safe(found@[0]@) == Err::<SafeView, ErrorView>(error@),
        },
{
    if found.len() == 0 {
        return Ok(None);
    }
    match convert_safe_model(&found[0]) {
        Ok(safe) => Ok(Some(safe)),
        Err(error) => Err(error),
    }
}

/// A safe that has to be there.
pub fn await_safe_deployment(found: &Vec<Safe>) -> (safe: Result<DeployedSafe, TestConnectorError>)
    ensures
        match safe {
            Ok(read) => found@.len() > 0 && converted_safe(found@[0]@) == Ok::<SafeView, ErrorView>(read@),
            Err(error) => if found@.len() == 0 {
                error == TestConnectorError::SafeNotFound
            } else {
                converted_safe(found@[0]@) == Err::<SafeView, ErrorView>(error@)
            },
        },
{
    match read_safe_info(found) {
        Ok(Some(safe)) => Ok(safe),
        Ok(None) => Err(TestConnectorError::SafeNotFound),
        Err(error) => Err(error),
    }
}

/// The currency that a caller asks for.
#[derive(Clone, Copy, Debug, PartialEq, Eq, Structural)]
pub enum Currency {
    WxHOPR,
    XDai,
    /// Any other.
    Other,
}

/// Where the API keeps a balance.
#[derive(Clone, Copy, Debug, PartialEq, Eq, Structural)]
pub enum BalanceQuery {
    /// Among the token balances.
    Token,
    /// Among the native balances.
    Native,
}

/// Which balance of an account the API is asked for.
pub open spec fn balance_question(currency: Currency) -> Result<BalanceQuery, TestConnectorError> {
    match currency {
        Currency::WxHOPR => Ok(BalanceQuery::Token),
        Currency::XDai => Ok(BalanceQuery::Native),
        Currency::Other => Err(TestConnectorError::UnsupportedCurrency),
    }
}

impl TestChainConnector {
    /// Looks up a safe: what the API is asked for. Its answer is read by [`read_safe_info`].
    pub fn safe_info(&mut self, selector: &SafeSelector) -> (query: Result<Query<SafeQuery>, TestConnectorError>)
        requires
            old(self).well_formed(),
            count_of(old(self)@.faults.calls, ChainOp::SafeInfo) < usize::MAX,
        ensures
            final(self).well_formed(),
            final(self)@ == (ConnectorView { faults: old(self)@.faults.recorded(ChainOp::SafeInfo), ..old(self)@ }),
            query == asked(
                passage(ChainOp::SafeInfo, fault_of(old(self)@.faults.ops, ChainOp::SafeInfo)),
                Ok::<SafeQuery, TestConnectorError>(selector.spec_query()),
            ),
    {
        match self.faults.gate(ChainOp::SafeInfo) {
            Err(error) => Err(error),
            Ok(Passage::Hang) => Ok(Query::Hang),
            Ok(Passage::Proceed) => Ok(Query::Ask(selector.query())),
        }
    }

    /// Reads a balance: where the API is asked for it.
    pub fn balance(&mut self, currency: Currency) -> (query: Result<Query<BalanceQuery>, TestConnectorError>)
        requires
            old(self).well_formed(),
            count_of(old(self)@.faults.calls, ChainOp::Balance) < usize::MAX,
        ensures
            final(self).well_formed(),
            final(self)@ == (ConnectorView { faults: old(self)@.faults.recorded(ChainOp::Balance), ..old(self)@ }),
            query == asked(
                passage(ChainOp::Balance, fault_of(old(self)@.faults.ops, ChainOp::Balance)),
                balance_question(currency),
            ),
    {
        match self.faults.gate(ChainOp::Balance) {
            Err(error) => Err(error),
            Ok(Passage::Hang) => Ok(Query::Hang),
            Ok(Passage::Proceed) => match currency {
                Currency::WxHOPR => Ok(Query::Ask(BalanceQuery::Token)),
                Currency::XDai => Ok(Query::Ask(BalanceQuery::Native)),
                Currency::Other => Err(TestConnectorError::UnsupportedCurrency),
            },
        }
    }

    /// Reads the allowance of a safe: whether the API can be asked for it.
    pub fn safe_allowance(&self, currency: Currency) -> (query: Result<(), TestConnectorError>)
        ensures
            query == (match currency {
                Currency::WxHOPR => Ok::<(), TestConnectorError>(()),
                Currency::XDai => Err(TestConnectorError::AllowanceOnXDai),
                Currency::Other => Err(TestConnectorError::UnsupportedCurrency),
            }),
    {
        match currency {
            Currency::WxHOPR => Ok(()),
            Currency::XDai => Err(TestConnectorError::AllowanceOnXDai),
            Currency::Other => Err(TestConnectorError::UnsupportedCurrency),
        }
    }

    /// Reads the minimum winning probability: whether the API is asked for the chain.
    ///
    /// What the chain says is never kept: a test may change it at any time, and every reader of it has
    /// to see that the next time.
    pub fn minimum_incoming_ticket_win_prob(&mut self) -> (outcome: Result<Passage, TestConnectorError>)
        requires
            old(self).well_formed(),
            count_of(old(self)@.faults.calls, ChainOp::WinProb) < usize::MAX,
        ensures
            final(self).well_formed(),
            final(self)@ == (ConnectorView { faults: old(self)@.faults.recorded(ChainOp::WinProb), ..old(self)@ }),
            outcome == passage(ChainOp::WinProb, fault_of(old(self)@.faults.ops, ChainOp::WinProb)),
    {
        self.faults.gate(ChainOp::WinProb)
    }

    /// Reads the minimum ticket price: whether the API is asked for the chain.
    pub fn minimum_ticket_price(&mut self) -> (outcome: Result<Passage, TestConnectorError>)
        requires
            old(self).well_formed(),
            count_of(old(self)@.faults.calls, ChainOp::TicketPrice) < usize::MAX,
        ensures
            final(self).well_formed(),
            final(self)@ == (ConnectorView { faults: old(self)@.faults.recorded(ChainOp::TicketPrice), ..old(self)@ }),
            outcome == passage(ChainOp::TicketPrice, fault_of(old(self)@.faults.ops, ChainOp::TicketPrice)),
    {
        self.faults.gate(ChainOp::TicketPrice)
    }

    /// The time that a transaction typically takes: five seconds.
    pub fn typical_resolution_time(&mut self) -> (time: Result<Query<Duration>, TestConnectorError>)
        requires
            old(self).well_formed(),
            count_of(old(self)@.faults.calls, ChainOp::ResolutionTime) < usize::MAX,
        ensures
            final(self).well_formed(),
            final(self)@ == (ConnectorView {
                faults: old(self)@.faults.recorded(ChainOp::ResolutionTime),
                ..old(self)@
            }),
            match passage(ChainOp::ResolutionTime, fault_of(old(self)@.faults.ops, ChainOp::ResolutionTime)) {
                Err(error) => time == Err::<Query<Duration>, TestConnectorError>(error),
                Ok(Passage::Hang) => time == Ok::<Query<Duration>, TestConnectorError>(Query::Hang),
                Ok(Passage::Proceed) => time matches Ok(Query::Ask(span)) && span.nanos() == 5 * NANOS_PER_SEC,
            },
    {
        match self.faults.gate(ChainOp::ResolutionTime) {
            Err(error) => Err(error),
            Ok(Passage::Hang) => Ok(Query::Hang),
            Ok(Passage::Proceed) => Ok(Query::Ask(Duration::from_secs(5))),
        }
    }
}

/// The bytes that a packet carries.
pub fn packet_payload_size() -> (size: usize)
    ensures
        size == 1036,
{
    1036
}

/// The settings of a service registry that nothing was ever registered in.
#[derive(Clone, Copy, Debug, PartialEq, Eq)]
pub struct ServiceRegistryConfig {
    pub type_registration_fee: HoprBalance,
    pub node_safe_registry: Address,
}

/// The settings that the connector's chain, which does not model the service registry, answers with.
pub fn get_service_registry_config() -> (config: ServiceRegistryConfig)
    ensures
        config.type_registration_fee.wei.value() == 0,
        config.node_safe_registry@ == Seq::new(20, |i: int| 0u8),
{
    let config = ServiceRegistryConfig {
        type_registration_fee: HoprBalance::zero(),
        node_safe_registry: Address { bytes: [0u8;20] },
    };
    assert(config.node_safe_registry@ =~= Seq::new(20, |i: int| 0u8));
    config
}

/// A key mapper that knows no key. It is sufficient for tests that do not map packet keys to ids.
#[derive(Clone, Copy, Debug, PartialEq, Eq)]
pub struct NoopKeyMapper;

impl NoopKeyMapper {
    /// The id of a key: none.
    pub fn map_key_to_id(&self, key: &PacketKey) -> (id: Option<u32>)
        ensures
            id is None,
    {
        None
    }

    /// The key of an id: none.
    pub fn map_id_to_public(&self, id: u32) -> (key: Option<PacketKey>)
        ensures
            key is None,
    {
        None
    }
}

/// A closed channel is no part of the snapshot, and everything in the snapshot speaks of a channel that
/// is there, in the status it is in.
pub proof fn a_snapshot_shows_the_channels_as_they_are(channels: Seq<(Seq<u8>, ChannelEntry)>, i: int)
    requires
        0 <= i < snapshot_of(channels).len(),
    ensures
        exists|j: int|
            #![trigger channels[j]]
            0 <= j < channels.len() && (snapshot_of(channels)[i] == ChainEvent::ChannelOpened(channels[j].1)
                && channels[j].1.status is Open || snapshot_of(channels)[i] == ChainEvent::ChannelClosureInitiated(
                channels[j].1,
            ) && channels[j].1.status is PendingToClose),
    decreases channels.len(),
{
    let init = channels.drop_last();
    if i < snapshot_of(init).len() {
        a_snapshot_shows_the_channels_as_they_are(init, i);
        let j = choose|j: int|
            #![trigger init[j]]
            0 <= j < init.len() && (snapshot_of(init)[i] == ChainEvent::ChannelOpened(init[j].1)
                && init[j].1.status is Open || snapshot_of(init)[i] == ChainEvent::ChannelClosureInitiated(init[j].1)
                && init[j].1.status is PendingToClose);
        assert(channels[j] == init[j]);
    } else {
        assert(channels[channels.len() - 1] == channels.last());
    }
}

/// A channel selector asks for each of its criteria on its own. An id that is given stands for both ends;
/// where none is given, a source and a destination that are given are asked for, each whether or not the
/// other is. States that are given are the only ones; and where closing channels are among them, their
/// closing time has to lie in the range.
pub proof fn a_channel_selector_asks_for_each_of_its_criteria(selector: ChannelSelector, channel: ChannelEntry)
    ensures
        ({
            let states = selector.allowed_states@;
            let ends = {
                &&& selector.id is Some ==> channel.id == selector.id->0
                &&& selector.id is None && selector.source is Some ==> channel.source == selector.source->0
                &&& selector.id is None && selector.destination is Some ==> channel.destination
                    == selector.destination->0
            };
            let state = {
                ||| states.len() == 0
                ||| channel.status is Open && states.contains(StatusKind::Open)
                ||| channel.status is Closed && states.contains(StatusKind::Closed)
                ||| channel.status is PendingToClose && states.contains(StatusKind::PendingToClose)
            };
            let closing = channel.status is PendingToClose && states.contains(StatusKind::PendingToClose);
            let time = channel.status->PendingToClose_0.nanos;
            let timely = {
                &&& selector.closure_time_range.0 matches TimeBound::Included(from) ==> from.nanos <= time
                &&& selector.closure_time_range.0 matches TimeBound::Excluded(from) ==> from.nanos < time
                &&& selector.closure_time_range.1 matches TimeBound::Included(to) ==> time <= to.nanos
                &&& selector.closure_time_range.1 matches TimeBound::Excluded(to) ==> time < to.nanos
            };
            channel_satisfies(selector, channel) <==> ends && state && (closing ==> timely)
        }),
{
}

/// What is streamed are the channels of the view that are selected, in their order and each as often as it
/// is there.
pub proof fn a_stream_yields_the_selected_channels(channels: Seq<(Seq<u8>, ChannelEntry)>, selector: ChannelSelector)
    ensures
        selected_channels(channels, selector) == channels.map_values(
            |entry: (Seq<u8>, ChannelEntry)| entry.1,
        ).filter(|channel: ChannelEntry| channel_satisfies(selector, channel)),
    decreases channels.len(),
{
    reveal(Seq::filter);
    if channels.len() > 0 {
        let all = channels.map_values(|entry: (Seq<u8>, ChannelEntry)| entry.1);
        let init = channels.drop_last();
        a_stream_yields_the_selected_channels(init, selector);
        assert(all.drop_last() =~= init.map_values(|entry: (Seq<u8>, ChannelEntry)| entry.1));
    }
}

/// Every channel that is streamed is one of the view and has the ends that the selector asks for; and every
/// channel of the view that has them, and is in a state that is asked for, is streamed.
pub proof fn a_stream_leaves_out_no_channel_and_adds_none(
    channels: Seq<(Seq<u8>, ChannelEntry)>,
    selector: ChannelSelector,
    i: int,
)
    ensures
        0 <= i < selected_channels(channels, selector).len() ==> {
            let channel = selected_channels(channels, selector)[i];
            &&& exists|j: int| 0 <= j < channels.len() && (#[trigger] channels[j]).1 == channel
            &&& selector.id is Some ==> channel.id == selector.id->0
            &&& selector.id is None && selector.source is Some ==> channel.source == selector.source->0
            &&& selector.id is None && selector.destination is Some ==> channel.destination == selector.destination->0
            &&& selector.allowed_states@.len() > 0 ==> {
                &&& channel.status is Open ==> selector.allowed_states@.contains(StatusKind::Open)
                &&& channel.status is Closed ==> selector.allowed_states@.contains(StatusKind::Closed)
                &&& channel.status is PendingToClose ==> selector.allowed_states@.contains(StatusKind::PendingToClose)
            }
        },
        0 <= i < channels.len() ==> {
            let channel = channels[i].1;
            let states = selector.allowed_states@;
            let time = channel.status->PendingToClose_0.nanos;
            let asked_for = {
                &&& selector.id is Some ==> channel.id == selector.id->0
                &&& selector.id is None && selector.source is Some ==> channel.source == selector.source->0
                &&& selector.id is None && selector.destination is Some ==> channel.destination
                    == selector.destination->0
                &&& states.len() > 0 ==> {
                    ||| channel.status is Open && states.contains(StatusKind::Open)
                    ||| channel.status is Closed && states.contains(StatusKind::Closed)
                    ||| channel.status is PendingToClose && states.contains(StatusKind::PendingToClose)
                }
                &&& states.len() > 0 && channel.status is PendingToClose ==> {
                    &&& selector.closure_time_range.0 matches TimeBound::Included(from) ==> from.nanos <= time
                    &&& selector.closure_time_range.0 matches TimeBound::Excluded(from) ==> from.nanos < time
                    &&& selector.closure_time_range.1 matches TimeBound::Included(to) ==> time <= to.nanos
                    &&& selector.closure_time_range.1 matches TimeBound::Excluded(to) ==> time < to.nanos
                }
            };
            asked_for ==> selected_channels(channels, selector).contains(channel)
        },
    decreases channels.len(),
{
    if channels.len() > 0 {
        let init = channels.drop_last();
        let last = channels.last();
        let before = selected_channels(init, selector);
        let after = selected_channels(channels, selector);
        a_stream_leaves_out_no_channel_and_adds_none(init, selector, i);
        assert(channels[channels.len() - 1] == last);
        a_channel_selector_asks_for_each_of_its_criteria(selector, last.1);
        if 0 <= i < after.len() {
            if i < before.len() {
                let j = choose|j: int| 0 <= j < init.len() && (#[trigger] init[j]).1 == before[i];
                assert(channels[j] == init[j]);
            }
        }
        if 0 <= i < init.len() {
            assert(init[i] == channels[i]);
            if before.contains(channels[i].1) {
                let k = choose|k: int| 0 <= k < before.len() && before[k] == channels[i].1;
                assert(after[k] == channels[i].1);
            }
        } else if i == init.len() && channel_satisfies(selector, last.1) {
            assert(after[before.len() as int] == last.1);
        }
    }
}

/// An account selector asks for each of its criteria on its own, and for nothing that is not given.
pub proof fn an_account_selector_asks_for_each_of_its_criteria(selector: AccountSelector, account: AccountView)
    ensures
        account_satisfies(selector, account) <==> {
            &&& selector.chain_key is Some ==> account.chain_addr == selector.chain_key->0
            &&& selector.offchain_key is Some ==> account.public_key == selector.offchain_key->0
            &&& selector.public_only ==> {
                &&& account.announced is Some
                &&& account.announced->0.len() > 0
                &&& forall|i: int|
                    0 <= i < account.announced->0.len() ==> {
                        let names = protocol_names(#[trigger] account.announced->0[i]);
                        &&& names.contains("ip4"@) || names.contains("ip6"@) || names.contains("dns4"@)
                            || names.contains("dns6"@)
                        &&& names.contains("udp"@) || names.contains("tcp"@)
                    }
            }
        },
{
    if let Some(addresses) = account.announced {
        assert forall|i: int| 0 <= i < addresses.len() implies (#[trigger] is_routable(addresses[i]) <==> {
            let names = protocol_names(addresses[i]);
            &&& names.contains("ip4"@) || names.contains("ip6"@) || names.contains("dns4"@) || names.contains("dns6"@)
            &&& names.contains("udp"@) || names.contains("tcp"@)
        }) by {}
        if addresses.len() > 0 && forall|i: int|
            0 <= i < addresses.len() ==> {
                let names = protocol_names(#[trigger] addresses[i]);
                &&& names.contains("ip4"@) || names.contains("ip6"@) || names.contains("dns4"@) || names.contains(
                    "dns6"@,
                )
                &&& names.contains("udp"@) || names.contains("tcp"@)
            } {
            assert forall|i: int| 0 <= i < addresses.len() implies is_routable(#[trigger] addresses[i]) by {}
        }
    }
}

/// What is streamed are the accounts of the view that are selected, in their order and each as often as it
/// is there.
pub proof fn a_stream_yields_the_selected_accounts(accounts: Seq<(Seq<u8>, AccountView)>, selector: AccountSelector)
    ensures
        selected_accounts(accounts, selector) == accounts.map_values(
            |entry: (Seq<u8>, AccountView)| entry.1,
        ).filter(|account: AccountView| account_satisfies(selector, account)),
    decreases accounts.len(),
{
    reveal(Seq::filter);
    if accounts.len() > 0 {
        let all = accounts.map_values(|entry: (Seq<u8>, AccountView)| entry.1);
        let init = accounts.drop_last();
        a_stream_yields_the_selected_accounts(init, selector);
        assert(all.drop_last() =~= init.map_values(|entry: (Seq<u8>, AccountView)| entry.1));
    }
}

/// The account that a packet key is bound to is the first that has it, and there is none only where no
/// account has it.
pub proof fn a_key_is_bound_to_the_first_account_with_it(accounts: Seq<(Seq<u8>, AccountView)>, key: PacketKey)
    ensures
        match bound_account(accounts, key) {
            Some(account) => {
                &&& account.public_key == key
                &&& exists|i: int|
                    #![trigger accounts[i]]
                    0 <= i < accounts.len() && accounts[i].1 == account && forall|j: int|
                        0 <= j < i ==> (#[trigger] accounts[j]).1.public_key != key
            },
            None => forall|i: int| 0 <= i < accounts.len() ==> (#[trigger] accounts[i]).1.public_key != key,
        },
    decreases accounts.len(),
{
    if accounts.len() > 0 {
        let init = accounts.drop_last();
        let last = accounts[accounts.len() - 1];
        a_key_is_bound_to_the_first_account_with_it(init, key);
        match bound_account(init, key) {
            Some(account) => {
                let i = choose|i: int|
                    #![trigger init[i]]
                    0 <= i < init.len() && init[i].1 == account && forall|j: int|
                        0 <= j < i ==> (#[trigger] init[j]).1.public_key != key;
                assert(accounts[i] == init[i]);
                assert forall|j: int| 0 <= j < i implies (#[trigger] accounts[j]).1.public_key != key by {
                    assert(init[j] == accounts[j]);
                }
            },
            None => {
                assert forall|j: int| 0 <= j < init.len() implies (#[trigger] accounts[j]).1.public_key != key by {
                    assert(init[j] == accounts[j]);
                }
                assert(last == accounts.last());
            },
        }
    }
}

/// The snapshot leaves out no channel that is open or closing, and has one event for each.
pub proof fn a_snapshot_leaves_out_no_channel(channels: Seq<(Seq<u8>, ChannelEntry)>, i: int)
    requires
        0 <= i < channels.len(),
    ensures
        channels[i].1.status is Open ==> snapshot_of(channels).contains(ChainEvent::ChannelOpened(channels[i].1)),
        channels[i].1.status is PendingToClose ==> snapshot_of(channels).contains(
            ChainEvent::ChannelClosureInitiated(channels[i].1),
        ),
        snapshot_of(channels).len() == channels.filter(
            |entry: (Seq<u8>, ChannelEntry)| !(entry.1.status is Closed),
        ).len(),
    decreases channels.len(),
{
    reveal(Seq::filter);
    let init = channels.drop_last();
    let before = snapshot_of(init);
    let after = snapshot_of(channels);
    assert(after.len() == before.len() ==> after == before);
    assert(after.len() > before.len() ==> after.drop_last() =~= before);
    if init.len() > 0 {
        a_snapshot_leaves_out_no_channel(
            init,
            if i < init.len() {
                i
            } else {
                0
            },
        );
    }
    if i < init.len() {
        assert(init[i] == channels[i]);
        let told = if channels[i].1.status is Open {
            ChainEvent::ChannelOpened(channels[i].1)
        } else {
            ChainEvent::ChannelClosureInitiated(channels[i].1)
        };
        if channels[i].1.status !is Closed {
            let k = choose|k: int| 0 <= k < before.len() && before[k] == told;
            assert(after[k] == told);
        }
    } else {
        assert(channels.last() == channels[i]);
        if channels[i].1.status !is Closed {
            assert(after[before.len() as int] == after.last());
        }
    }
}

/// The safe of a node is that of the first account with its address: one without a safe, or no such
/// account, is an error that names the node.
pub proof fn a_nodes_safe_is_that_of_its_account(accounts: Seq<(Seq<u8>, AccountView)>, node: Address, i: int)
    requires
        0 <= i <= accounts.len(),
        forall|j: int| 0 <= j < i ==> (#[trigger] accounts[j]).1.chain_addr != node,
        i < accounts.len() ==> accounts[i].1.chain_addr == node,
    ensures
        i == accounts.len() ==> own_safe(accounts, node) == Err::<Option<Address>, TestConnectorError>(
            TestConnectorError::AccountNotFound(node),
        ),
        i < accounts.len() && accounts[i].1.safe_address is Some ==> own_safe(accounts, node) == Ok::<
            Option<Address>,
            TestConnectorError,
        >(accounts[i].1.safe_address),
        i < accounts.len() && accounts[i].1.safe_address is None ==> own_safe(accounts, node) == Err::<
            Option<Address>,
            TestConnectorError,
        >(TestConnectorError::NoSafeAddress(node)),
{
    let selector = AccountSelector { public_only: false, chain_key: Some(node), offchain_key: None };
    lemma_first_selected(accounts, selector, i);
}

/// Nothing is selected before the first account that is, and that one comes first.
proof fn lemma_first_selected(accounts: Seq<(Seq<u8>, AccountView)>, selector: AccountSelector, i: int)
    requires
        0 <= i <= accounts.len(),
        forall|j: int| 0 <= j < i ==> !account_satisfies(selector, (#[trigger] accounts[j]).1),
        i < accounts.len() ==> account_satisfies(selector, accounts[i].1),
    ensures
        i == accounts.len() ==> selected_accounts(accounts, selector).len() == 0,
        i < accounts.len() ==> selected_accounts(accounts, selector).len() > 0 && selected_accounts(
            accounts,
            selector,
        )[0] == accounts[i].1,
    decreases accounts.len(),
{
    if accounts.len() > 0 {
        let init = accounts.drop_last();
        assert forall|j: int| 0 <= j < i && j < init.len() implies !account_satisfies(
            selector,
            (#[trigger] init[j]).1,
        ) by {
            assert(init[j] == accounts[j]);
        }
        assert(accounts.last() == accounts[accounts.len() - 1]);
        if i < init.len() {
            assert(init[i] == accounts[i]);
            lemma_first_selected(init, selector, i);
        } else {
            lemma_first_selected(init, selector, init.len() as int);
        }
    }
}

/// A safe is asked for by what the caller knows of it, and a balance where its currency is kept.
pub proof fn a_question_asks_for_what_the_caller_wants(address: Address)
    ensures
        SafeSelector::Address(address).spec_query() == SafeQuery::SafeAddress(address),
        SafeSelector::Deployer(address).spec_query() == SafeQuery::ChainKey(address),
        SafeSelector::NodeAddress(address).spec_query() == SafeQuery::RegisteredNode(address),
        SafeSelector::Owner(address).spec_query() == SafeQuery::Owner(address),
        balance_question(Currency::WxHOPR) == Ok::<BalanceQuery, TestConnectorError>(BalanceQuery::Token),
        balance_question(Currency::XDai) == Ok::<BalanceQuery, TestConnectorError>(BalanceQuery::Native),
        balance_question(Currency::Other) == Err::<BalanceQuery, TestConnectorError>(
            TestConnectorError::UnsupportedCurrency,
        ),
{
}

/// A question is asked exactly where its operation is not perturbed and there is something to ask; one that
/// fails is answered with the injected fault, and one that hangs not at all.
pub proof fn a_question_is_asked_where_nothing_is_perturbed<T>(
    op: ChainOp,
    fault: Fault,
    question: Result<T, TestConnectorError>,
)
    ensures
        fault is Fail ==> asked(passage(op, fault), question) == Err::<Query<T>, TestConnectorError>(
            TestConnectorError::Injected(op),
        ),
        fault is Hang ==> asked(passage(op, fault), question) == Ok::<Query<T>, TestConnectorError>(Query::Hang),
        fault is Normal && question is Ok ==> asked(passage(op, fault), question) == Ok::<Query<T>, TestConnectorError>(
            Query::Ask(question->Ok_0),
        ),
        fault is Normal && question is Err ==> asked(passage(op, fault), question) == Err::<
            Query<T>,
            TestConnectorError,
        >(question->Err_0),
{
}

} // verus!
