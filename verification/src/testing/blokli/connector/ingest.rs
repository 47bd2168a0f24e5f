//! How the connector learns of the chain: once when it connects, then update by update.

use std::collections::HashMap;

use vstd::prelude::*;

use crate::testing::blokli::chain::{
    address_of, lemma_address_of, lemma_halves, lemma_u256_of, same_status, u256_of, wrap_u32, wrapped_u32, AccountEntry, AccountView, Address, ChainEvent,
    ChainKey, ChannelEntry, ChannelStatus,
    HoprBalance, WinningProbability,
};
use crate::testing::blokli::connector::convert::{
    convert_account_model, convert_channel_model, converted_account, converted_channel, parse_chain_info_model,
    parsed_chain_info, reading_of, ParsedChainView,
};
use crate::testing::blokli::connector::{outcome_of, ConnectorView, ErrorView, TestChainConnector, TestConnectorError};
use crate::testing::blokli::faults::FaultsView;
use crate::testing::blokli::interop::{chain_address, chain_key_address};
use crate::testing::blokli::maps::{a_put_value_is_found, lemma_put_commutes, put, value_of};
use crate::testing::blokli::model::{Account, AccountText, ChainInfoRecord, ChainInfoText, Channel, ChannelText, GraphEntry};

verus! {

/// A value that is set once: the first one stays.
pub open spec fn first_of<T>(current: Option<T>, new: T) -> Option<T> {
    match current {
        Some(value) => Some(value),
        None => Some(new),
    }
}

/// The connector with what the chain's record says, as far as nothing was known before.
pub open spec fn linked(view: ConnectorView, info: ParsedChainView) -> ConnectorView {
    ConnectorView {
        chain_id: first_of(view.chain_id, info.chain_id),
        contracts: first_of(view.contracts, info.contracts),
        ticket_price: first_of(view.ticket_price, info.ticket_price),
        ticket_win_prob: first_of(view.ticket_win_prob, info.ticket_win_prob),
        ..view
    }
}

/// What comes of loading account records.
#[verifier::ext_equal]
pub struct LoadedAccounts {
    /// The accounts, with those of the records.
    pub accounts: Seq<(Seq<u8>, AccountView)>,
    /// The address of each key id.
    pub keys: Map<u32, Address>,
    /// What stopped the loading, where something did.
    pub error: Option<ErrorView>,
}

/// Loads account records one by one, up to the first that cannot be read. A later record replaces an
/// earlier one of the same address, and a key id leads to the last account that has it.
pub open spec fn loaded_accounts(
    accounts: Seq<(Seq<u8>, AccountView)>,
    models: Seq<AccountText>,
) -> LoadedAccounts
    decreases models.len(),
{
    if models.len() == 0 {
        LoadedAccounts { accounts, keys: Map::empty(), error: None }
    } else {
        let before = loaded_accounts(accounts, models.drop_last());
        if before.error is Some {
            before
        } else {
            match converted_account(models.last()) {
                Ok(account) => LoadedAccounts {
                    accounts: put(before.accounts, account.chain_addr@, account),
                    keys: before.keys.insert(account.key_id, account.chain_addr),
                    error: None,
                },
                Err(error) => LoadedAccounts { error: Some(error), ..before },
            }
        }
    }
}

/// What comes of loading channel records.
#[verifier::ext_equal]
pub struct LoadedChannels {
    /// The channels, with those of the records.
    pub channels: Seq<(Seq<u8>, ChannelEntry)>,
    /// What stopped the loading, where something did.
    pub error: Option<ErrorView>,
}

/// What a channel record stands for among accounts with these key ids: its source is looked up before
/// its destination.
pub open spec fn located_channel(
    keys: Map<u32, Address>,
    model: ChannelText,
) -> Result<ChannelEntry, ErrorView> {
    let source = wrapped_u32(model.source);
    let destination = wrapped_u32(model.destination);
    if !keys.contains_key(source) {
        Err(ErrorView::SourceUnknown(model.source))
    } else if !keys.contains_key(destination) {
        Err(ErrorView::DestinationUnknown(model.destination))
    } else {
        converted_channel(model, keys[source], keys[destination])
    }
}

/// Loads channel records one by one, up to the first that cannot be read.
pub open spec fn loaded_channels(
    channels: Seq<(Seq<u8>, ChannelEntry)>,
    keys: Map<u32, Address>,
    models: Seq<ChannelText>,
) -> LoadedChannels
    decreases models.len(),
{
    if models.len() == 0 {
        LoadedChannels { channels, error: None }
    } else {
        let before = loaded_channels(channels, keys, models.drop_last());
        if before.error is Some {
            before
        } else {
            match located_channel(keys, models.last()) {
                Ok(channel) => LoadedChannels { channels: put(before.channels, channel.id@, channel), error: None },
                Err(error) => LoadedChannels { error: Some(error), ..before },
            }
        }
    }
}

/// The texts of account records.
pub open spec fn account_texts(models: Seq<Account>) -> Seq<AccountText> {
    models.map_values(|model: Account| model@)
}

/// The texts of channel records.
pub open spec fn channel_texts(models: Seq<Channel>) -> Seq<ChannelText> {
    models.map_values(|model: Channel| model@)
}

proof fn lemma_loading_stays_stopped(accounts: Seq<(Seq<u8>, AccountView)>, models: Seq<AccountText>, upto: int)
    requires
        0 <= upto <= models.len(),
        loaded_accounts(accounts, models.take(upto)).error is Some,
    ensures
        loaded_accounts(accounts, models) == loaded_accounts(accounts, models.take(upto)),
    decreases models.len() - upto,
{
    if upto < models.len() {
        assert(models.take(upto + 1).drop_last() =~= models.take(upto));
        lemma_loading_stays_stopped(accounts, models, upto + 1);
    } else {
        assert(models.take(upto) =~= models);
    }
}

proof fn lemma_channel_loading_stays_stopped(
    channels: Seq<(Seq<u8>, ChannelEntry)>,
    keys: Map<u32, Address>,
    models: Seq<ChannelText>,
    upto: int,
)
    requires
        0 <= upto <= models.len(),
        loaded_channels(channels, keys, models.take(upto)).error is Some,
    ensures
        loaded_channels(channels, keys, models) == loaded_channels(channels, keys, models.take(upto)),
    decreases models.len() - upto,
{
    if upto < models.len() {
        assert(models.take(upto + 1).drop_last() =~= models.take(upto));
        lemma_channel_loading_stays_stopped(channels, keys, models, upto + 1);
    } else {
        assert(models.take(upto) =~= models);
    }
}

/// What subscribers learn when a channel turns from `old` into `new`. A status that has changed tells
/// first; a balance only where the status has not. What has neither changed status nor balance is no
/// news.
pub open spec fn channel_event(old: Option<ChannelEntry>, new: ChannelEntry) -> Option<ChainEvent> {
    match old {
        None => if new.status is Open {
            Some(ChainEvent::ChannelOpened(new))
        } else {
            None
        },
        Some(old) => if !same_status(old.status, new.status) {
            Some(
                match new.status {
                    ChannelStatus::Open => ChainEvent::ChannelOpened(new),
                    ChannelStatus::PendingToClose(_) => ChainEvent::ChannelClosureInitiated(new),
                    ChannelStatus::Closed => ChainEvent::ChannelClosed(new),
                },
            )
        } else if old.balance == new.balance {
            None
        } else if new.balance.wei.value() > old.balance.wei.value() {
            Some(
                ChainEvent::ChannelBalanceIncreased(
                    new,
                    HoprBalance {
                        wei: u256_of(
                            (new.balance.wei.value() - old.balance.wei.value()) as nat,
                        ),
                    },
                ),
            )
        } else if new.ticket_index > old.ticket_index {
            Some(ChainEvent::TicketRedeemed(new))
        } else {
            Some(
                ChainEvent::ChannelBalanceDecreased(
                    new,
                    HoprBalance {
                        wei: u256_of(
                            (old.balance.wei.value() - new.balance.wei.value()) as nat,
                        ),
                    },
                ),
            )
        },
    }
}

/// Tells what subscribers learn when a channel turns from `old` into `new`.
pub fn event_between(old: Option<ChannelEntry>, new: ChannelEntry) -> (event: Option<ChainEvent>)
    ensures
        event == channel_event(old, new),
{
    match old {
        None => match new.status {
            ChannelStatus::Open => Some(ChainEvent::ChannelOpened(new)),
            _ => None,
        },
        Some(old) => {
            if !old.status.same(&new.status) {
                return Some(
                    match new.status {
                        ChannelStatus::Open => ChainEvent::ChannelOpened(new),
                        ChannelStatus::PendingToClose(_) => ChainEvent::ChannelClosureInitiated(new),
                        ChannelStatus::Closed => ChainEvent::ChannelClosed(new),
                    },
                );
            }
            if old.balance == new.balance {
                return None;
            }
            proof {
                old.balance.wei.values_are_unique(new.balance.wei);
            }
            if old.balance.wei.less(&new.balance.wei) {
                let difference = new.balance.wei.saturating_sub(&old.balance.wei);
                proof {
                    lemma_u256_of(difference);
                }
                Some(ChainEvent::ChannelBalanceIncreased(new, HoprBalance { wei: difference }))
            } else if new.ticket_index > old.ticket_index {
                Some(ChainEvent::TicketRedeemed(new))
            } else {
                let difference = old.balance.wei.saturating_sub(&new.balance.wei);
                proof {
                    lemma_u256_of(difference);
                }
                Some(ChainEvent::ChannelBalanceDecreased(new, HoprBalance { wei: difference }))
            }
        },
    }
}

/// What comes of one update of the chain's graph: an error where it cannot be read, and otherwise the
/// two accounts and the channel between them, and the channel as it was before.
pub open spec fn read_update(
    update: GraphEntry,
) -> Result<(AccountView, AccountView, ChannelEntry), ErrorView> {
    match (converted_account(update.source@), converted_account(update.destination@)) {
        (Err(error), _) => Err(error),
        (_, Err(error)) => Err(error),
        (Ok(source), Ok(destination)) => match converted_channel(
            update.channel@,
            source.chain_addr,
            destination.chain_addr,
        ) {
            Err(error) => Err(error),
            Ok(channel) => Ok((source, destination, channel)),
        },
    }
}

/// The connector after an update that could be read.
pub open spec fn updated(
    view: ConnectorView,
    source: AccountView,
    destination: AccountView,
    channel: ChannelEntry,
) -> ConnectorView {
    ConnectorView {
        accounts: put(put(view.accounts, source.chain_addr@, source), destination.chain_addr@, destination),
        channels: put(view.channels, channel.id@, channel),
        ..view
    }
}

impl TestChainConnector {
    /// Takes in an account.
    fn put_account(&mut self, entry: AccountEntry)
        requires
            old(self).well_formed(),
        ensures
            final(self).well_formed(),
            final(self)@ == (ConnectorView {
                accounts: put(old(self)@.accounts, entry.chain_addr@, entry@),
                ..old(self)@
            }),
    {
        proof {
            lemma_put_commutes(
                self.accounts.entries(),
                entry.chain_addr@,
                entry,
                |account: AccountEntry| account@,
            );
        }
        let key = entry.chain_addr.to_vec();
        self.accounts.put(key, entry);
        proof {
            let look = |account: AccountEntry| account@;
            let plain = |e: (Seq<u8>, AccountEntry)| (e.0, e.1@);
            let looked = |e: (Seq<u8>, AccountEntry)| (e.0, look(e.1));
            assert(old(self).accounts.entries().map_values(plain) =~= old(self).accounts.entries().map_values(looked));
            assert(self.accounts.entries().map_values(plain) =~= self.accounts.entries().map_values(looked));
        }
    }

    /// The first step of connecting: the chain's record sets the chain id, the contracts and the
    /// ticket values, as far as they are not set yet.
    pub fn connect_chain_info(
        &mut self,
        model: &ChainInfoRecord,
        win_prob: Result<WinningProbability, String>,
    ) -> (outcome: Result<(), TestConnectorError>)
        requires
            old(self).well_formed(),
        ensures
            final(self).well_formed(),
            match parsed_chain_info(model@, reading_of(win_prob)) {
                Ok(info) => outcome is Ok && final(self)@ == linked(old(self)@, info),
                Err(error) => outcome_of(outcome) == Err::<(), ErrorView>(error) && final(self)@ == old(self)@,
            },
    {
        match parse_chain_info_model(model, win_prob) {
            Err(error) => Err(error),
            Ok(parsed) => {
                if self.chain_id.is_none() {
                    self.chain_id = Some(parsed.chain_info.chain_id);
                }
                if self.contracts.is_none() {
                    self.contracts = Some(parsed.chain_info.contract_addresses);
                }
                if self.ticket_price.is_none() {
                    self.ticket_price = Some(parsed.ticket_price);
                }
                if self.ticket_win_prob.is_none() {
                    self.ticket_win_prob = Some(parsed.ticket_win_prob);
                }
                Ok(())
            },
        }
    }

    /// The second step of connecting: takes in all accounts, and tells the address of each key id. At a
    /// record that cannot be read it stops; the records before it have been taken in.
    pub fn connect_accounts(
        &mut self,
        models: &Vec<Account>,
    ) -> (outcome: Result<HashMap<u32, Address>, TestConnectorError>)
        requires
            old(self).well_formed(),
        ensures
            final(self).well_formed(),
            ({
                let loaded = loaded_accounts(old(self)@.accounts, account_texts(models@));
                &&& final(self)@ == (ConnectorView { accounts: loaded.accounts, ..old(self)@ })
                &&& match outcome {
                    Ok(keys) => loaded.error is None && keys@ == loaded.keys,
                    Err(error) => loaded.error == Some(error@),
                }
            }),
    {
        broadcast use vstd::std_specs::hash::group_hash_axioms;

        let mut keys: HashMap<u32, Address> = HashMap::new();
        let count: usize = models.len();
        let mut i: usize = 0;
        let ghost before = self@;
        let ghost all = account_texts(models@);
        assert(all.take(0) =~= Seq::empty());
        assert(self@ =~= (ConnectorView { accounts: before.accounts, ..before }));
        while i < count
            invariant
                i <= count,
                count == models@.len(),
                all == account_texts(models@),
                before == old(self)@,
                self.well_formed(),
                self@ == (ConnectorView {
                    accounts: loaded_accounts(before.accounts, all.take(i as int)).accounts,
                    ..before
                }),
                keys@ == loaded_accounts(before.accounts, all.take(i as int)).keys,
                loaded_accounts(before.accounts, all.take(i as int)).error is None,
            decreases count - i,
        {
            broadcast use vstd::std_specs::hash::group_hash_axioms;

            proof {
                assert(all.take(i + 1).drop_last() =~= all.take(i as int));
                assert(all.take(i + 1).last() == models@[i as int]@);
            }
            match convert_account_model(&models[i]) {
                Err(error) => {
                    proof {
                        lemma_loading_stays_stopped(before.accounts, all, i + 1);
                    }
                    return Err(error);
                },
                Ok(entry) => {
                    keys.insert(entry.key_id, entry.chain_addr);
                    self.put_account(entry);
                },
            }
            i += 1;
        }
        assert(all.take(count as int) =~= all);
        Ok(keys)
    }

    /// The third step of connecting: takes in all channels between the accounts with these key ids. At
    /// a record that cannot be read it stops; the records before it have been taken in.
    pub fn connect_channels(
        &mut self,
        keys: &HashMap<u32, Address>,
        models: &Vec<Channel>,
    ) -> (outcome: Result<(), TestConnectorError>)
        requires
            old(self).well_formed(),
        ensures
            final(self).well_formed(),
            ({
                let loaded = loaded_channels(old(self)@.channels, keys@, channel_texts(models@));
                &&& final(self)@ == (ConnectorView { channels: loaded.channels, ..old(self)@ })
                &&& match outcome {
                    Ok(()) => loaded.error is None,
                    Err(error) => loaded.error == Some(error@),
                }
            }),
    {
        broadcast use vstd::std_specs::hash::group_hash_axioms;

        let count: usize = models.len();
        let mut i: usize = 0;
        let ghost before = self@;
        let ghost all = channel_texts(models@);
        assert(all.take(0) =~= Seq::empty());
        assert(self@ =~= (ConnectorView { channels: before.channels, ..before }));
        while i < count
            invariant
                i <= count,
                count == models@.len(),
                all == channel_texts(models@),
                before == old(self)@,
                self.well_formed(),
                self@ == (ConnectorView {
                    channels: loaded_channels(before.channels, keys@, all.take(i as int)).channels,
                    ..before
                }),
                loaded_channels(before.channels, keys@, all.take(i as int)).error is None,
            decreases count - i,
        {
            broadcast use vstd::std_specs::hash::group_hash_axioms;

            let model = &models[i];
            proof {
                assert(all.take(i + 1).drop_last() =~= all.take(i as int));
                assert(all.take(i + 1).last() == models@[i as int]@);
            }
            let located = match (keys.get(&wrap_u32(model.source)), keys.get(&wrap_u32(model.destination))) {
                (None, _) => Err(TestConnectorError::SourceUnknown(model.source)),
                (_, None) => Err(TestConnectorError::DestinationUnknown(model.destination)),
                (Some(source), Some(destination)) => convert_channel_model(model, *source, *destination),
            };
            assert(outcome_of(located) == located_channel(keys@, model@));
            match located {
                Err(error) => {
                    proof {
                        lemma_channel_loading_stays_stopped(before.channels, keys@, all, i + 1);
                    }
                    return Err(error);
                },
                Ok(channel) => {
                    self.channels.put(channel.id.to_vec(), channel);
                },
            }
            i += 1;
        }
        assert(all.take(count as int) =~= all);
        Ok(())
    }

    /// Connects: takes in what the three queries for the chain, its accounts and its channels have
    /// brought, one step after the other. The step that fails is the last.
    pub fn connect(
        &mut self,
        chain_info: &ChainInfoRecord,
        win_prob: Result<WinningProbability, String>,
        accounts: &Vec<Account>,
        channels: &Vec<Channel>,
    ) -> (outcome: Result<(), TestConnectorError>)
        requires
            old(self).well_formed(),
        ensures
            final(self).well_formed(),
            final(self)@ == connected(
                old(self)@,
                chain_info@,
                reading_of(win_prob),
                account_texts(accounts@),
                channel_texts(channels@),
            ).0,
            match outcome {
                Ok(()) => connected(
                    old(self)@,
                    chain_info@,
                    reading_of(win_prob),
                    account_texts(accounts@),
                    channel_texts(channels@),
                ).1 is None,
                Err(error) => connected(
                    old(self)@,
                    chain_info@,
                    reading_of(win_prob),
                    account_texts(accounts@),
                    channel_texts(channels@),
                ).1 == Some(error@),
            },
    {
        match self.connect_chain_info(chain_info, win_prob) {
            Err(error) => {
                return Err(error);
            },
            Ok(()) => {},
        }
        match self.connect_accounts(accounts) {
            Err(error) => Err(error),
            Ok(keys) => self.connect_channels(&keys, channels),
        }
    }

    /// Takes in one update of the chain's graph, and tells what subscribers learn of it. An update that
    /// cannot be read changes nothing.
    pub fn apply_graph_update(&mut self, update: &GraphEntry) -> (event: Result<Option<ChainEvent>, TestConnectorError>)
        requires
            old(self).well_formed(),
        ensures
            final(self).well_formed(),
            match read_update(*update) {
                Err(error) => outcome_of(event) == Err::<Option<ChainEvent>, ErrorView>(error) && final(self)@
                    == old(self)@,
                Ok((source, destination, channel)) => {
                    &&& final(self)@ == updated(old(self)@, source, destination, channel)
                    &&& event == Ok::<Option<ChainEvent>, TestConnectorError>(
                        channel_event(value_of(old(self)@.channels, channel.id@), channel),
                    )
                },
            },
    {
        let source = match convert_account_model(&update.source) {
            Ok(entry) => entry,
            Err(error) => {
                return Err(error);
            },
        };
        let destination = match convert_account_model(&update.destination) {
            Ok(entry) => entry,
            Err(error) => {
                return Err(error);
            },
        };
        let channel = match convert_channel_model(&update.channel, source.chain_addr, destination.chain_addr) {
            Ok(channel) => channel,
            Err(error) => {
                return Err(error);
            },
        };
        self.put_account(source);
        self.put_account(destination);
        let old_channel = match self.channels.get(&channel.id.to_vec()) {
            Some(found) => Some(*found),
            None => None,
        };
        self.channels.put(channel.id.to_vec(), channel);
        Ok(event_between(old_channel, channel))
    }
}

/// The connector of a key before it is connected.
pub open spec fn disconnected(my_addr: Address, chain_key: ChainKey, module_address: Address) -> ConnectorView {
    ConnectorView {
        my_addr,
        chain_key,
        module_address,
        contracts: None,
        chain_id: None,
        ticket_price: None,
        ticket_win_prob: None,
        nonces: Seq::empty(),
        accounts: Seq::empty(),
        channels: Seq::empty(),
        faults: FaultsView::quiet(),
    }
}

/// What comes of connecting with what the three queries have brought: the connector as it is then, and
/// the error of the step that failed, where one did.
pub open spec fn connected(
    view: ConnectorView,
    chain_info: ChainInfoText,
    win_prob: Result<WinningProbability, Seq<char>>,
    accounts: Seq<AccountText>,
    channels: Seq<ChannelText>,
) -> (ConnectorView, Option<ErrorView>) {
    match parsed_chain_info(chain_info, win_prob) {
        Err(error) => (view, Some(error)),
        Ok(info) => {
            let known = loaded_accounts(view.accounts, accounts);
            let met = ConnectorView { accounts: known.accounts, ..linked(view, info) };
            if known.error is Some {
                (met, known.error)
            } else {
                let open = loaded_channels(view.channels, known.keys, channels);
                (ConnectorView { channels: open.channels, ..met }, open.error)
            }
        },
    }
}

/// Creates a connector for the node of a key, and connects it with what the three queries have brought.
pub fn create_test_blokli_connector(
    chain_key: &ChainKey,
    module_address: Address,
    chain_info: &ChainInfoRecord,
    win_prob: Result<WinningProbability, String>,
    accounts: &Vec<Account>,
    channels: &Vec<Channel>,
) -> (connector: Result<TestChainConnector, TestConnectorError>)
    ensures
        match chain_key_address(chain_key.secret@) {
            None => connector is Err && connector->Err_0 == TestConnectorError::InvalidSignerKey,
            Some(own) => {
                let outcome = connected(
                    disconnected(address_of(own), *chain_key, module_address),
                    chain_info@,
                    reading_of(win_prob),
                    account_texts(accounts@),
                    channel_texts(channels@),
                );
                match connector {
                    Ok(made) => made.well_formed() && made@ == outcome.0 && outcome.1 is None,
                    Err(error) => outcome.1 == Some(error@),
                }
            },
        },
{
    let my_addr = match chain_address(chain_key) {
        Some(address) => address,
        None => {
            return Err(TestConnectorError::InvalidSignerKey);
        },
    };
    proof {
        lemma_address_of(my_addr);
    }
    let mut connector = TestChainConnector::new(my_addr, *chain_key, module_address);
    match connector.connect(chain_info, win_prob, accounts, channels) {
        Ok(()) => Ok(connector),
        Err(error) => Err(error),
    }
}

/// A channel that is as it was is no news: the snapshot that a subscription to the graph starts with
/// tells nothing that was loaded before.
pub proof fn an_unchanged_channel_is_no_news(channel: ChannelEntry)
    ensures
        channel_event(Some(channel), channel) is None,
{
}

/// An event carries the channel as it is now, in the status that the event speaks of, and an amount
/// that is not zero and that lies between the balances before and after.
pub proof fn events_say_what_has_changed(old: Option<ChannelEntry>, new: ChannelEntry)
    ensures
        match channel_event(old, new) {
            None => true,
            Some(event) => match event {
                ChainEvent::ChannelOpened(channel) => channel == new && new.status is Open,
                ChainEvent::ChannelClosureInitiated(channel) => channel == new && new.status is PendingToClose,
                ChainEvent::ChannelClosed(channel) => channel == new && new.status is Closed,
                ChainEvent::ChannelBalanceIncreased(channel, amount) => {
                    &&& channel == new
                    &&& amount.wei.value() > 0
                    &&& old->0.balance.wei.value() + amount.wei.value() == new.balance.wei.value()
                },
                ChainEvent::ChannelBalanceDecreased(channel, amount) => {
                    &&& channel == new
                    &&& amount.wei.value() > 0
                    &&& new.balance.wei.value() + amount.wei.value() == old->0.balance.wei.value()
                },
                ChainEvent::TicketRedeemed(channel) => {
                    &&& channel == new
                    &&& new.ticket_index > old->0.ticket_index
                    &&& new.balance.wei.value() < old->0.balance.wei.value()
                },
                ChainEvent::Other => false,
            },
        },
{
    if let Some(before) = old {
        before.balance.wei.values_are_unique(new.balance.wei);
        new.balance.wei.values_are_unique(before.balance.wei);
        if new.balance.wei.value() > before.balance.wei.value() {
            lemma_halves((new.balance.wei.value() - before.balance.wei.value()) as nat);
        } else {
            lemma_halves((before.balance.wei.value() - new.balance.wei.value()) as nat);
        }
    }
}

/// A channel that changes its status is told of by the status that it has now. One that keeps its status
/// and changes its balance is told of in any status: as having grown by the difference, and where it has
/// shrunk, as a redeemed ticket where the ticket index has grown and as having shrunk by the difference
/// otherwise. Nothing is told where neither has changed. Closing times count to the second.
pub proof fn every_change_of_a_channel_is_told(old: ChannelEntry, new: ChannelEntry)
    ensures
        ({
            let event = channel_event(Some(old), new);
            let was = old.balance.wei.value();
            let is = new.balance.wei.value();
            let kept = {
                ||| old.status is Open && new.status is Open
                ||| old.status is Closed && new.status is Closed
                ||| old.status is PendingToClose && new.status is PendingToClose && -1_000_000_000
                    < old.status->PendingToClose_0.nanos - new.status->PendingToClose_0.nanos < 1_000_000_000
            };
            &&& event is None <==> kept && was == is
            &&& !kept && new.status is Open ==> event == Some(ChainEvent::ChannelOpened(new))
            &&& !kept && new.status is PendingToClose ==> event == Some(ChainEvent::ChannelClosureInitiated(new))
            &&& !kept && new.status is Closed ==> event == Some(ChainEvent::ChannelClosed(new))
            &&& kept && is > was ==> (event matches Some(ChainEvent::ChannelBalanceIncreased(channel, amount))
                && channel == new && was + amount.wei.value() == is)
            &&& kept && is < was && new.ticket_index > old.ticket_index ==> event == Some(
                ChainEvent::TicketRedeemed(new),
            )
            &&& kept && is < was && new.ticket_index <= old.ticket_index ==> (event matches Some(
                ChainEvent::ChannelBalanceDecreased(channel, amount),
            ) && channel == new && is + amount.wei.value() == was)
        }),
{
    old.balance.wei.values_are_unique(new.balance.wei);
    new.balance.wei.values_are_unique(old.balance.wei);
    if new.balance.wei.value() > old.balance.wei.value() {
        lemma_halves((new.balance.wei.value() - old.balance.wei.value()) as nat);
    } else {
        lemma_halves((old.balance.wei.value() - new.balance.wei.value()) as nat);
    }
}

/// Of a channel that was not known before, subscribers learn exactly where it is open.
pub proof fn a_new_channel_is_told_where_it_is_open(new: ChannelEntry)
    ensures
        new.status is Open ==> channel_event(None, new) == Some(ChainEvent::ChannelOpened(new)),
        new.status !is Open ==> channel_event(None, new) is None,
{
}

/// An update is taken in as a whole: both accounts are found under their addresses, the channel under its
/// id, and everything else is as it was.
pub proof fn an_update_is_taken_in(
    view: ConnectorView,
    source: AccountView,
    destination: AccountView,
    channel: ChannelEntry,
    key: Seq<u8>,
)
    ensures
        ({
            let after = updated(view, source, destination, channel);
            &&& value_of(after.accounts, destination.chain_addr@) == Some(destination)
            &&& source.chain_addr@ != destination.chain_addr@ ==> value_of(after.accounts, source.chain_addr@) == Some(
                source,
            )
            &&& key != source.chain_addr@ && key != destination.chain_addr@ ==> value_of(after.accounts, key)
                == value_of(view.accounts, key)
            &&& value_of(after.channels, channel.id@) == Some(channel)
            &&& key != channel.id@ ==> value_of(after.channels, key) == value_of(view.channels, key)
            &&& after == (ConnectorView { accounts: after.accounts, channels: after.channels, ..view })
        }),
{
    let first = put(view.accounts, source.chain_addr@, source);
    a_put_value_is_found(view.accounts, source.chain_addr@, source, key);
    a_put_value_is_found(first, destination.chain_addr@, destination, key);
    a_put_value_is_found(first, destination.chain_addr@, destination, source.chain_addr@);
    a_put_value_is_found(view.channels, channel.id@, channel, key);
}

/// An update can be read where its three records can; what is wrong with the source is told before what is
/// wrong with the destination, and that before what is wrong with the channel between them.
pub proof fn an_update_is_read_from_its_three_records(update: GraphEntry)
    ensures
        ({
            let source = converted_account(update.source@);
            let destination = converted_account(update.destination@);
            let read = read_update(update);
            &&& source is Err ==> (read matches Err(error) && error == source->Err_0)
            &&& source is Ok && destination is Err ==> (read matches Err(error) && error == destination->Err_0)
            &&& source is Ok && destination is Ok ==> {
                let channel = converted_channel(
                    update.channel@,
                    source->Ok_0.chain_addr,
                    destination->Ok_0.chain_addr,
                );
                &&& channel is Err ==> (read matches Err(error) && error == channel->Err_0)
                &&& channel is Ok ==> (read matches Ok(found) && found.0 == source->Ok_0 && found.1
                    == destination->Ok_0 && found.2 == channel->Ok_0)
            }
        }),
{
}

/// The chain's record sets what is not set yet and leaves alone what is; it touches nothing else.
pub proof fn a_connection_sets_what_is_not_set(view: ConnectorView, info: ParsedChainView)
    ensures
        ({
            let after = linked(view, info);
            &&& view.chain_id is None ==> after.chain_id == Some(info.chain_id)
            &&& view.contracts is None ==> after.contracts == Some(info.contracts)
            &&& view.ticket_price is None ==> after.ticket_price == Some(info.ticket_price)
            &&& view.ticket_win_prob is None ==> after.ticket_win_prob == Some(info.ticket_win_prob)
            &&& view.chain_id is Some ==> after.chain_id == view.chain_id
            &&& view.contracts is Some ==> after.contracts == view.contracts
            &&& view.ticket_price is Some ==> after.ticket_price == view.ticket_price
            &&& view.ticket_win_prob is Some ==> after.ticket_win_prob == view.ticket_win_prob
            &&& after == (ConnectorView {
                chain_id: after.chain_id,
                contracts: after.contracts,
                ticket_price: after.ticket_price,
                ticket_win_prob: after.ticket_win_prob,
                ..view
            })
        }),
{
}

/// Loading goes through where every account can be read. It changes nothing under an address that no record
/// has, and knows no key id that no record has.
pub proof fn loading_takes_in_nothing_but_the_accounts(
    accounts: Seq<(Seq<u8>, AccountView)>,
    models: Seq<AccountText>,
    read: Seq<AccountView>,
    other: Seq<u8>,
    id: u32,
)
    requires
        read.len() == models.len(),
        forall|i: int|
            0 <= i < models.len() ==> #[trigger] converted_account(models[i]) == Ok::<AccountView, ErrorView>(read[i]),
    ensures
        loaded_accounts(accounts, models).error is None,
        (forall|i: int| 0 <= i < read.len() ==> (#[trigger] read[i]).chain_addr@ != other) ==> value_of(
            loaded_accounts(accounts, models).accounts,
            other,
        ) == value_of(accounts, other),
        (forall|i: int| 0 <= i < read.len() ==> (#[trigger] read[i]).key_id != id) ==> !loaded_accounts(
            accounts,
            models,
        ).keys.contains_key(id),
    decreases models.len(),
{
    if models.len() > 0 {
        let init = models.drop_last();
        let before_read = read.drop_last();
        let last = read.last();
        assert(converted_account(models[models.len() - 1]) == Ok::<AccountView, ErrorView>(last));
        assert forall|i: int| 0 <= i < init.len() implies #[trigger] converted_account(init[i]) == Ok::<
            AccountView,
            ErrorView,
        >(before_read[i]) by {
            assert(converted_account(models[i]) == Ok::<AccountView, ErrorView>(read[i]));
        }
        loading_takes_in_nothing_but_the_accounts(accounts, init, before_read, other, id);
        a_put_value_is_found(loaded_accounts(accounts, init).accounts, last.chain_addr@, last, other);
        assert(last == read[read.len() - 1]);
        if forall|i: int| 0 <= i < read.len() ==> (#[trigger] read[i]).chain_addr@ != other {
            assert forall|i: int| 0 <= i < before_read.len() implies (#[trigger] before_read[i]).chain_addr@ != other by {
                assert(read[i].chain_addr@ != other);
            }
        }
        if forall|i: int| 0 <= i < read.len() ==> (#[trigger] read[i]).key_id != id {
            assert forall|i: int| 0 <= i < before_read.len() implies (#[trigger] before_read[i]).key_id != id by {
                assert(read[i].key_id != id);
            }
        }
    }
}

/// Loading takes in every account that can be read: it is found under its address unless a later record has
/// the same address, and its key id leads to it unless a later record has the same key id.
pub proof fn loading_takes_in_every_account(
    accounts: Seq<(Seq<u8>, AccountView)>,
    models: Seq<AccountText>,
    read: Seq<AccountView>,
    i: int,
)
    requires
        read.len() == models.len(),
        forall|i: int|
            0 <= i < models.len() ==> #[trigger] converted_account(models[i]) == Ok::<AccountView, ErrorView>(read[i]),
        0 <= i < read.len(),
    ensures
        (forall|j: int| i < j < read.len() ==> (#[trigger] read[j]).chain_addr@ != read[i].chain_addr@) ==> value_of(
            loaded_accounts(accounts, models).accounts,
            read[i].chain_addr@,
        ) == Some(read[i]),
        (forall|j: int| i < j < read.len() ==> (#[trigger] read[j]).key_id != read[i].key_id) ==> {
            &&& loaded_accounts(accounts, models).keys.contains_key(read[i].key_id)
            &&& loaded_accounts(accounts, models).keys[read[i].key_id] == read[i].chain_addr
        },
    decreases models.len(),
{
    let init = models.drop_last();
    let before_read = read.drop_last();
    let last = read.last();
    assert(converted_account(models[models.len() - 1]) == Ok::<AccountView, ErrorView>(last));
    assert forall|i: int| 0 <= i < init.len() implies #[trigger] converted_account(init[i]) == Ok::<
        AccountView,
        ErrorView,
    >(before_read[i]) by {
        assert(converted_account(models[i]) == Ok::<AccountView, ErrorView>(read[i]));
    }
    loading_takes_in_nothing_but_the_accounts(accounts, init, before_read, Seq::empty(), 0);
    let before = loaded_accounts(accounts, init);
    a_put_value_is_found(before.accounts, last.chain_addr@, last, read[i].chain_addr@);
    assert(last == read[read.len() - 1]);
    if i < before_read.len() {
        assert(before_read[i] == read[i]);
        loading_takes_in_every_account(accounts, init, before_read, i);
        if forall|j: int| i < j < read.len() ==> (#[trigger] read[j]).chain_addr@ != read[i].chain_addr@ {
            assert forall|j: int| i < j < before_read.len() implies (#[trigger] before_read[j]).chain_addr@
                != before_read[i].chain_addr@ by {
                assert(read[j].chain_addr@ != read[i].chain_addr@);
            }
        }
        if forall|j: int| i < j < read.len() ==> (#[trigger] read[j]).key_id != read[i].key_id {
            assert forall|j: int| i < j < before_read.len() implies (#[trigger] before_read[j]).key_id
                != before_read[i].key_id by {
                assert(read[j].key_id != read[i].key_id);
            }
        }
    }
}

/// Loading stops at the first account that cannot be read, with what is wrong with it; what came before it
/// was taken in, and nothing that comes after it.
pub proof fn loading_stops_at_the_first_unreadable_account(
    accounts: Seq<(Seq<u8>, AccountView)>,
    models: Seq<AccountText>,
    read: Seq<AccountView>,
    bad: int,
)
    requires
        0 <= bad < models.len(),
        read.len() == bad,
        forall|i: int|
            0 <= i < bad ==> #[trigger] converted_account(models[i]) == Ok::<AccountView, ErrorView>(read[i]),
        converted_account(models[bad]) is Err,
    ensures
        loaded_accounts(accounts, models).error == Some(converted_account(models[bad])->Err_0),
        loaded_accounts(accounts, models).accounts == loaded_accounts(accounts, models.take(bad)).accounts,
{
    let good = models.take(bad);
    assert forall|i: int| 0 <= i < good.len() implies #[trigger] converted_account(good[i]) == Ok::<
        AccountView,
        ErrorView,
    >(read[i]) by {
        assert(converted_account(models[i]) == Ok::<AccountView, ErrorView>(read[i]));
    }
    loading_takes_in_nothing_but_the_accounts(accounts, good, read, Seq::empty(), 0);
    assert(models.take(bad + 1).drop_last() =~= good);
    assert(models.take(bad + 1).last() == models[bad]);
    lemma_loading_stays_stopped(accounts, models, bad + 1);
}

/// A channel is located by the key ids of its two ends, in the two's complement of 32 bits; a source that
/// nobody has is told before such a destination, and both before what is wrong with the record.
pub proof fn a_channel_is_located_by_its_key_ids(
    keys: Map<u32, Address>,
    model: ChannelText,
    source: u32,
    destination: u32,
)
    requires
        (source - model.source) % 0x1_0000_0000 == 0,
        (destination - model.destination) % 0x1_0000_0000 == 0,
    ensures
        ({
            let located = located_channel(keys, model);
            &&& !keys.contains_key(source) ==> located == Err::<ChannelEntry, ErrorView>(
                ErrorView::SourceUnknown(model.source),
            )
            &&& keys.contains_key(source) && !keys.contains_key(destination) ==> located == Err::<
                ChannelEntry,
                ErrorView,
            >(ErrorView::DestinationUnknown(model.destination))
            &&& keys.contains_key(source) && keys.contains_key(destination) ==> located == converted_channel(
                model,
                keys[source],
                keys[destination],
            )
        }),
{
}

/// Loading takes in every channel that can be located and read: each is found under its id unless a later
/// record has the same id, and nothing else changes.
pub proof fn loading_takes_in_every_channel(
    channels: Seq<(Seq<u8>, ChannelEntry)>,
    keys: Map<u32, Address>,
    models: Seq<ChannelText>,
    read: Seq<ChannelEntry>,
    other: Seq<u8>,
)
    requires
        read.len() == models.len(),
        forall|i: int|
            0 <= i < models.len() ==> #[trigger] located_channel(keys, models[i]) == Ok::<ChannelEntry, ErrorView>(
                read[i],
            ),
    ensures
        ({
            let loaded = loaded_channels(channels, keys, models);
            &&& loaded.error is None
            &&& forall|i: int|
                #![trigger read[i]]
                0 <= i < read.len() && (forall|j: int| i < j < read.len() ==> (#[trigger] read[j]).id@ != read[i].id@)
                    ==> value_of(loaded.channels, read[i].id@) == Some(read[i])
            &&& (forall|i: int| 0 <= i < read.len() ==> (#[trigger] read[i]).id@ != other) ==> value_of(
                loaded.channels,
                other,
            ) == value_of(channels, other)
        }),
    decreases models.len(),
{
    if models.len() > 0 {
        let init = models.drop_last();
        let before_read = read.drop_last();
        let last = read.last();
        assert(located_channel(keys, models[models.len() - 1]) == Ok::<ChannelEntry, ErrorView>(last));
        assert forall|i: int| 0 <= i < init.len() implies #[trigger] located_channel(keys, init[i]) == Ok::<
            ChannelEntry,
            ErrorView,
        >(before_read[i]) by {
            assert(located_channel(keys, models[i]) == Ok::<ChannelEntry, ErrorView>(read[i]));
        }
        loading_takes_in_every_channel(channels, keys, init, before_read, other);
        let before = loaded_channels(channels, keys, init);
        let loaded = loaded_channels(channels, keys, models);
        a_put_value_is_found(before.channels, last.id@, last, other);
        assert forall|i: int|
            #![trigger read[i]]
            0 <= i < read.len() && (forall|j: int| i < j < read.len() ==> (#[trigger] read[j]).id@ != read[i].id@)
            implies value_of(loaded.channels, read[i].id@) == Some(read[i]) by {
            a_put_value_is_found(before.channels, last.id@, last, read[i].id@);
            if i < before_read.len() {
                assert(before_read[i] == read[i]);
                assert(read[read.len() - 1].id@ != read[i].id@);
                assert forall|j: int| i < j < before_read.len() implies (#[trigger] before_read[j]).id@
                    != before_read[i].id@ by {
                    assert(read[j].id@ != read[i].id@);
                }
            }
        }
        if forall|i: int| 0 <= i < read.len() ==> (#[trigger] read[i]).id@ != other {
            assert(read[read.len() - 1].id@ != other);
            assert forall|i: int| 0 <= i < before_read.len() implies (#[trigger] before_read[i]).id@ != other by {
                assert(read[i].id@ != other);
            }
        }
    }
}

/// Loading stops at the first channel that cannot be located or read, with what is wrong with it; what came
/// before it was taken in, and nothing that comes after it.
pub proof fn loading_stops_at_the_first_unreadable_channel(
    channels: Seq<(Seq<u8>, ChannelEntry)>,
    keys: Map<u32, Address>,
    models: Seq<ChannelText>,
    read: Seq<ChannelEntry>,
    bad: int,
)
    requires
        0 <= bad < models.len(),
        read.len() == bad,
        forall|i: int|
            0 <= i < bad ==> #[trigger] located_channel(keys, models[i]) == Ok::<ChannelEntry, ErrorView>(read[i]),
        located_channel(keys, models[bad]) is Err,
    ensures
        loaded_channels(channels, keys, models).error == Some(located_channel(keys, models[bad])->Err_0),
        loaded_channels(channels, keys, models).channels == loaded_channels(channels, keys, models.take(bad)).channels,
{
    let good = models.take(bad);
    assert forall|i: int| 0 <= i < good.len() implies #[trigger] located_channel(keys, good[i]) == Ok::<
        ChannelEntry,
        ErrorView,
    >(read[i]) by {
        assert(located_channel(keys, models[i]) == Ok::<ChannelEntry, ErrorView>(read[i]));
    }
    loading_takes_in_every_channel(channels, keys, good, read, Seq::empty());
    assert(models.take(bad + 1).drop_last() =~= good);
    assert(models.take(bad + 1).last() == models[bad]);
    lemma_channel_loading_stays_stopped(channels, keys, models, bad + 1);
}

/// Connecting takes the chain's record, the accounts and the channels in turn. A chain that cannot be read
/// leaves the connector as it was; accounts that cannot be read leave the channels as they were; and it
/// succeeds where all three can be.
pub proof fn connecting_goes_step_by_step(
    view: ConnectorView,
    chain_info: ChainInfoText,
    win_prob: Result<WinningProbability, Seq<char>>,
    accounts: Seq<AccountText>,
    channels: Seq<ChannelText>,
)
    ensures
        ({
            let info = parsed_chain_info(chain_info, win_prob);
            let known = loaded_accounts(view.accounts, accounts);
            let open = loaded_channels(view.channels, known.keys, channels);
            let (after, error) = connected(view, chain_info, win_prob, accounts, channels);
            &&& info is Err ==> after == view && error == Some(info->Err_0)
            &&& info is Ok ==> {
                let started = linked(view, info->Ok_0);
                &&& known.error is Some ==> error == known.error && after == (ConnectorView {
                    accounts: known.accounts,
                    ..started
                })
                &&& known.error is None ==> error == open.error && after == (ConnectorView {
                    accounts: known.accounts,
                    channels: open.channels,
                    ..started
                })
            }
        }),
{
}

/// A connector that was not connected knows its own node and nothing of the chain.
pub proof fn a_disconnected_connector_knows_its_node_alone(my_addr: Address, chain_key: ChainKey, module_address: Address)
    ensures
        ({
            let view = disconnected(my_addr, chain_key, module_address);
            &&& view.my_addr == my_addr && view.chain_key == chain_key && view.module_address == module_address
            &&& view.contracts is None && view.chain_id is None
            &&& view.ticket_price is None && view.ticket_win_prob is None
            &&& view.nonces.len() == 0 && view.accounts.len() == 0 && view.channels.len() == 0
            &&& view.faults == FaultsView::quiet()
        }),
{
}

/// A second connection, or a record that says something else, does not change what the first one has
/// set.
pub proof fn the_first_connection_stays(view: ConnectorView, first: ParsedChainView, second: ParsedChainView)
    ensures
        linked(linked(view, first), second) == linked(view, first),
{
}

/// Records are loaded as they came, in their order.
pub proof fn records_are_loaded_as_they_came(accounts: Seq<Account>, channels: Seq<Channel>, i: int)
    ensures
        account_texts(accounts).len() == accounts.len(),
        channel_texts(channels).len() == channels.len(),
        0 <= i < accounts.len() ==> account_texts(accounts)[i] == accounts[i]@,
        0 <= i < channels.len() ==> channel_texts(channels)[i] == channels[i]@,
{
}

} // verus!
