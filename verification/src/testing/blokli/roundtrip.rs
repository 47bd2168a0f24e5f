//! What a builder writes into the state of a chain, a connector reads out of it.

use vstd::prelude::*;

use crate::testing::blokli::builder::{
    account_text, accounts_added, chain_described, channel_text, channels_added, hopr_words, key_ids_are_new, keyid_of,
    reads_back,
};
use crate::testing::blokli::chain::{
    lemma_address_of, lemma_contracts_of, lemma_digest_of, lemma_packet_key_from, lemma_u256_of,
    signed_reading_keeps_the_bits, wrapped_u32, AccountView, Address, ChannelEntry, ContractAddresses, DomainSeparators,
    HoprBalance, WinningProbability,
};
use crate::testing::blokli::connector::convert::{
    canonical_addresses, converted_account, parsed_chain_info, separator_of, ParsedChainView,
};
use crate::testing::blokli::connector::ingest::{
    connected, linked, loaded_accounts, loaded_channels, located_channel, LoadedAccounts, LoadedChannels,
};
use crate::testing::blokli::connector::{ConnectorView, ErrorView};
use crate::testing::blokli::interop::{canonical_multiaddr, contracts_json, parsed_contracts, parsed_hopr, reads_as};
use crate::testing::blokli::maps::{lemma_place, place_of};
use crate::testing::blokli::model::{AccountText, ChainInfoText, ChannelText};
use crate::testing::blokli::state::StateView;
use crate::text::{decimal, decimal_reads_back, hex, hex_reads_back};
use crate::time::NANOS_PER_SEC;

verus! {

/// Whether an account is one that a record can hold: it is not announced, or it is with at least one
/// address, and all its addresses are canonical.
pub open spec fn is_recordable(account: AccountView) -> bool {
    account.announced matches Some(addresses) ==> {
        &&& addresses.len() > 0
        &&& forall|i: int|
            0 <= i < addresses.len() ==> canonical_multiaddr(#[trigger] addresses[i]) == Some(addresses[i])
    }
}

proof fn lemma_canonical_addresses_stay(addresses: Seq<Seq<char>>)
    requires
        forall|i: int|
            0 <= i < addresses.len() ==> canonical_multiaddr(#[trigger] addresses[i]) == Some(addresses[i]),
    ensures
        canonical_addresses(addresses) == addresses,
    decreases addresses.len(),
{
    if addresses.len() > 0 {
        let init = addresses.drop_last();
        assert forall|i: int| 0 <= i < init.len() implies canonical_multiaddr(#[trigger] init[i]) == Some(init[i]) by {
            assert(init[i] == addresses[i]);
        }
        lemma_canonical_addresses_stay(init);
        assert(addresses.last() == addresses[addresses.len() - 1]);
        assert(init.push(addresses.last()) =~= addresses);
    } else {
        assert(addresses =~= Seq::empty());
    }
}

/// An account that was written is read back as it was.
pub proof fn a_written_account_is_read_back(account: AccountView)
    requires
        is_recordable(account),
    ensures
        converted_account(account_text(account)) == Ok::<AccountView, ErrorView>(account),
{
    hex_reads_back(account.public_key@);
    hex_reads_back(account.chain_addr@);
    lemma_packet_key_from(account.public_key);
    lemma_address_of(account.chain_addr);
    signed_reading_keeps_the_bits(account.key_id);
    if let Some(safe) = account.safe_address {
        hex_reads_back(safe@);
        lemma_address_of(safe);
    }
    if let Some(addresses) = account.announced {
        lemma_canonical_addresses_stay(addresses);
    }
}

/// The records of accounts that were added, in the order of the state.
pub open spec fn account_records(state: StateView) -> Seq<AccountText> {
    state.accounts.map_values(|entry: (u32, AccountText)| entry.1)
}

/// The records of channels that were added, in the order of the state.
pub open spec fn channel_records(state: StateView) -> Seq<ChannelText> {
    state.channels.map_values(|entry: (Seq<char>, ChannelText)| entry.1)
}

/// Whether every account can be recorded, and no two have a key id or an address in common.
pub open spec fn accounts_are_distinct(accounts: Seq<(AccountView, nat, nat)>) -> bool {
    &&& forall|i: int| 0 <= i < accounts.len() ==> is_recordable((#[trigger] accounts[i]).0)
    &&& forall|i: int, j: int|
        0 <= i < j < accounts.len() ==> (#[trigger] accounts[i]).0.key_id != (#[trigger] accounts[j]).0.key_id
            && accounts[i].0.chain_addr != accounts[j].0.chain_addr
}

/// The state's accounts after accounts were added to none.
proof fn lemma_added_accounts(state: StateView, accounts: Seq<(AccountView, nat, nat)>)
    requires
        state.accounts.len() == 0,
        accounts_are_distinct(accounts),
    ensures
        accounts_added(state, accounts).accounts == Seq::new(
            accounts.len(),
            |i: int| (accounts[i].0.key_id, account_text(accounts[i].0)),
        ),
    decreases accounts.len(),
{
    let all = Seq::new(accounts.len(), |i: int| (accounts[i].0.key_id, account_text(accounts[i].0)));
    if accounts.len() == 0 {
        assert(state.accounts =~= all);
    } else {
        let init = accounts.drop_last();
        lemma_distinct_init(accounts);
        lemma_added_accounts(state, init);
        let before = accounts_added(state, init).accounts;
        let last = accounts.last().0;
        lemma_place(before, last.key_id);
        if let Some(i) = place_of(before, last.key_id) {
            assert(before[i].0 == accounts[i].0.key_id);
            assert(false);
        }
        assert(accounts_added(state, accounts).accounts =~= all);
    }
}

proof fn lemma_distinct_init(accounts: Seq<(AccountView, nat, nat)>)
    requires
        accounts.len() > 0,
        accounts_are_distinct(accounts),
    ensures
        accounts_are_distinct(accounts.drop_last()),
{
    let init = accounts.drop_last();
    assert forall|i: int| 0 <= i < init.len() implies is_recordable((#[trigger] init[i]).0) by {
        assert(init[i] == accounts[i]);
    }
    assert forall|i: int, j: int| 0 <= i < j < init.len() implies (#[trigger] init[i]).0.key_id != (
    #[trigger] init[j]).0.key_id && init[i].0.chain_addr != init[j].0.chain_addr by {
        assert(init[i] == accounts[i]);
        assert(init[j] == accounts[j]);
    }
}

/// The address of each key id of some accounts.
pub open spec fn key_map(accounts: Seq<(AccountView, nat, nat)>) -> Map<u32, Address>
    decreases accounts.len(),
{
    if accounts.len() == 0 {
        Map::empty()
    } else {
        key_map(accounts.drop_last()).insert(accounts.last().0.key_id, accounts.last().0.chain_addr)
    }
}

/// Loading the records of accounts gives the accounts.
proof fn lemma_loaded_accounts(accounts: Seq<(AccountView, nat, nat)>)
    requires
        accounts_are_distinct(accounts),
    ensures
        loaded_accounts(
            Seq::empty(),
            Seq::new(accounts.len(), |i: int| account_text(accounts[i].0)),
        ) == (LoadedAccounts {
            accounts: Seq::new(accounts.len(), |i: int| (accounts[i].0.chain_addr@, accounts[i].0)),
            keys: key_map(accounts),
            error: None,
        }),
    decreases accounts.len(),
{
    let records = Seq::new(accounts.len(), |i: int| account_text(accounts[i].0));
    let views = Seq::new(accounts.len(), |i: int| (accounts[i].0.chain_addr@, accounts[i].0));
    if accounts.len() == 0 {
        assert(records =~= Seq::empty());
        assert(views =~= Seq::empty());
    } else {
        let init = accounts.drop_last();
        lemma_distinct_init(accounts);
        lemma_loaded_accounts(init);
        assert(records.drop_last() =~= Seq::new(init.len(), |i: int| account_text(init[i].0)));
        let last = accounts.last().0;
        assert(is_recordable(accounts[accounts.len() - 1].0));
        a_written_account_is_read_back(last);
        let before = Seq::new(init.len(), |i: int| (init[i].0.chain_addr@, init[i].0));
        lemma_place(before, last.chain_addr@);
        if let Some(i) = place_of(before, last.chain_addr@) {
            lemma_address_of(last.chain_addr);
            lemma_address_of(accounts[i].0.chain_addr);
            assert(accounts[i].0.chain_addr != accounts[accounts.len() - 1].0.chain_addr);
            assert(false);
        }
        assert(views =~= before.push((last.chain_addr@, last)));
    }
}

proof fn lemma_key_map(accounts: Seq<(AccountView, nat, nat)>, i: int)
    requires
        accounts_are_distinct(accounts),
        0 <= i < accounts.len(),
    ensures
        key_map(accounts).contains_key(accounts[i].0.key_id),
        key_map(accounts)[accounts[i].0.key_id] == accounts[i].0.chain_addr,
    decreases accounts.len(),
{
    let init = accounts.drop_last();
    if i < init.len() {
        lemma_distinct_init(accounts);
        lemma_key_map(init, i);
        assert(init[i] == accounts[i]);
        assert(accounts[i].0.key_id != accounts[accounts.len() - 1].0.key_id);
    }
}

/// Accounts that are added to a state without accounts are loaded whole: in their order, nothing lost
/// and nothing made up, with the address of every key id.
pub proof fn added_accounts_are_loaded(state: StateView, accounts: Seq<(AccountView, nat, nat)>)
    requires
        state.accounts.len() == 0,
        accounts_are_distinct(accounts),
    ensures
        key_ids_are_new(state, accounts),
        loaded_accounts(Seq::empty(), account_records(accounts_added(state, accounts))) == (LoadedAccounts {
            accounts: Seq::new(accounts.len(), |i: int| (accounts[i].0.chain_addr@, accounts[i].0)),
            keys: key_map(accounts),
            error: None,
        }),
        forall|i: int|
            0 <= i < accounts.len() ==> key_map(accounts).contains_key((#[trigger] accounts[i]).0.key_id) && key_map(
                accounts,
            )[accounts[i].0.key_id] == accounts[i].0.chain_addr,
{
    lemma_added_accounts(state, accounts);
    assert(account_records(accounts_added(state, accounts)) =~= Seq::new(
        accounts.len(),
        |i: int| account_text(accounts[i].0),
    ));
    lemma_loaded_accounts(accounts);
    assert forall|i: int| 0 <= i < accounts.len() implies key_map(accounts).contains_key(
        (#[trigger] accounts[i]).0.key_id,
    ) && key_map(accounts)[accounts[i].0.key_id] == accounts[i].0.chain_addr by {
        lemma_key_map(accounts, i);
    }
}

proof fn lemma_hex_is_injective(a: Seq<u8>, b: Seq<u8>)
    requires
        hex(a) == hex(b),
        a.len() == b.len(),
    ensures
        a == b,
{
    hex_reads_back(a);
    hex_reads_back(b);
}

/// The key id under which the state's accounts know an address leads back to the address.
proof fn lemma_located(accounts: Seq<(AccountView, nat, nat)>, records: Seq<(u32, AccountText)>, address: Address)
    requires
        accounts_are_distinct(accounts),
        records == Seq::new(accounts.len(), |i: int| (accounts[i].0.key_id, account_text(accounts[i].0))),
        exists|i: int| 0 <= i < accounts.len() && (#[trigger] accounts[i]).0.chain_addr == address,
    ensures
        keyid_of(records, hex(address@)) is Some,
        key_map(accounts).contains_key(wrapped_u32(keyid_of(records, hex(address@))->0)),
        key_map(accounts)[wrapped_u32(keyid_of(records, hex(address@))->0)] == address,
{
    let keys = records.map_values(|entry: (u32, AccountText)| entry.1.chain_key);
    keys.index_of_first_ensures(hex(address@));
    let i = choose|i: int| 0 <= i < accounts.len() && (#[trigger] accounts[i]).0.chain_addr == address;
    assert(keys[i] == hex(address@));
    assert(keys.contains(hex(address@)));
    let place = keys.index_of_first(hex(address@))->0;
    assert(keys[place] == hex(accounts[place].0.chain_addr@));
    lemma_hex_is_injective(accounts[place].0.chain_addr@, address@);
    lemma_address_of(accounts[place].0.chain_addr);
    lemma_address_of(address);
    lemma_key_map(accounts, place);
    signed_reading_keeps_the_bits(accounts[place].0.key_id);
}

/// Whether every channel runs between two of the accounts and reads back from its record, and no two
/// channels have an id in common.
pub open spec fn channels_are_distinct(
    accounts: Seq<(AccountView, nat, nat)>,
    records: Seq<(u32, AccountText)>,
    channels: Seq<ChannelEntry>,
) -> bool {
    &&& forall|c: int|
        0 <= c < channels.len() ==> {
            &&& reads_back(channel_text(records, #[trigger] channels[c]), channels[c])
            &&& exists|i: int| 0 <= i < accounts.len() && (#[trigger] accounts[i]).0.chain_addr == channels[c].source
            &&& exists|i: int|
                0 <= i < accounts.len() && (#[trigger] accounts[i]).0.chain_addr == channels[c].destination
        }
    &&& forall|c: int, d: int|
        0 <= c < d < channels.len() ==> (#[trigger] channels[c]).id != (#[trigger] channels[d]).id
}

proof fn lemma_distinct_channels_init(
    accounts: Seq<(AccountView, nat, nat)>,
    records: Seq<(u32, AccountText)>,
    channels: Seq<ChannelEntry>,
)
    requires
        channels.len() > 0,
        channels_are_distinct(accounts, records, channels),
    ensures
        channels_are_distinct(accounts, records, channels.drop_last()),
{
    let init = channels.drop_last();
    assert forall|c: int| 0 <= c < init.len() implies {
        &&& reads_back(channel_text(records, #[trigger] init[c]), init[c])
        &&& exists|i: int| 0 <= i < accounts.len() && (#[trigger] accounts[i]).0.chain_addr == init[c].source
        &&& exists|i: int| 0 <= i < accounts.len() && (#[trigger] accounts[i]).0.chain_addr == init[c].destination
    } by {
        assert(init[c] == channels[c]);
    }
    assert forall|c: int, d: int| 0 <= c < d < init.len() implies (#[trigger] init[c]).id != (#[trigger] init[d]).id by {
        assert(init[c] == channels[c]);
        assert(init[d] == channels[d]);
    }
}

proof fn lemma_added_channels(
    state: StateView,
    accounts: Seq<(AccountView, nat, nat)>,
    channels: Seq<ChannelEntry>,
)
    requires
        state.channels.len() == 0,
        channels_are_distinct(accounts, state.accounts, channels),
    ensures
        channels_added(state, channels).channels == Seq::new(
            channels.len(),
            |c: int| (hex(channels[c].id@), channel_text(state.accounts, channels[c])),
        ),
    decreases channels.len(),
{
    let all = Seq::new(
        channels.len(),
        |c: int| (hex(channels[c].id@), channel_text(state.accounts, channels[c])),
    );
    if channels.len() == 0 {
        assert(state.channels =~= all);
    } else {
        let init = channels.drop_last();
        lemma_distinct_channels_init(accounts, state.accounts, channels);
        lemma_added_channels(state, accounts, init);
        let before = channels_added(state, init).channels;
        let last = channels.last();
        lemma_place(before, hex(last.id@));
        if let Some(c) = place_of(before, hex(last.id@)) {
            lemma_hex_is_injective(channels[c].id@, last.id@);
            lemma_digest_of(channels[c].id);
            lemma_digest_of(last.id);
            assert(channels[c].id != channels[channels.len() - 1].id);
            assert(false);
        }
        assert(channels_added(state, channels).channels =~= all);
    }
}

proof fn lemma_loaded_channels(
    accounts: Seq<(AccountView, nat, nat)>,
    records: Seq<(u32, AccountText)>,
    channels: Seq<ChannelEntry>,
)
    requires
        accounts_are_distinct(accounts),
        records == Seq::new(accounts.len(), |i: int| (accounts[i].0.key_id, account_text(accounts[i].0))),
        channels_are_distinct(accounts, records, channels),
    ensures
        loaded_channels(
            Seq::empty(),
            key_map(accounts),
            Seq::new(channels.len(), |c: int| channel_text(records, channels[c])),
        ) == (LoadedChannels {
            channels: Seq::new(channels.len(), |c: int| (channels[c].id@, channels[c])),
            error: None,
        }),
    decreases channels.len(),
{
    let models = Seq::new(channels.len(), |c: int| channel_text(records, channels[c]));
    let all = Seq::new(channels.len(), |c: int| (channels[c].id@, channels[c]));
    if channels.len() == 0 {
        assert(models =~= Seq::empty());
        assert(all =~= Seq::empty());
    } else {
        let init = channels.drop_last();
        lemma_distinct_channels_init(accounts, records, channels);
        lemma_loaded_channels(accounts, records, init);
        assert(models.drop_last() =~= Seq::new(init.len(), |c: int| channel_text(records, init[c])));
        let last = channels[channels.len() - 1];
        assert(reads_back(channel_text(records, last), last));
        lemma_located(accounts, records, last.source);
        lemma_located(accounts, records, last.destination);
        assert(located_channel(key_map(accounts), models.last()) == Ok::<ChannelEntry, ErrorView>(last));
        let before = Seq::new(init.len(), |c: int| (init[c].id@, init[c]));
        lemma_place(before, last.id@);
        if let Some(c) = place_of(before, last.id@) {
            lemma_digest_of(channels[c].id);
            lemma_digest_of(last.id);
            assert(channels[c].id != channels[channels.len() - 1].id);
            assert(false);
        }
        assert(all =~= before.push((last.id@, last)));
    }
}

/// Channels that are added to a state whose accounts were added before are loaded whole: in their order,
/// between the accounts they ran between, nothing lost and nothing made up.
pub proof fn added_channels_are_loaded(
    state: StateView,
    accounts: Seq<(AccountView, nat, nat)>,
    channels: Seq<ChannelEntry>,
)
    requires
        state.accounts.len() == 0,
        state.channels.len() == 0,
        accounts_are_distinct(accounts),
        channels_are_distinct(accounts, accounts_added(state, accounts).accounts, channels),
    ensures
        loaded_channels(
            Seq::empty(),
            key_map(accounts),
            channel_records(channels_added(accounts_added(state, accounts), channels)),
        ) == (LoadedChannels {
            channels: Seq::new(channels.len(), |c: int| (channels[c].id@, channels[c])),
            error: None,
        }),
{
    let known = accounts_added(state, accounts);
    lemma_added_accounts(state, accounts);
    lemma_accounts_leave_channels(state, accounts);
    lemma_added_channels(known, accounts, channels);
    assert(channel_records(channels_added(known, channels)) =~= Seq::new(
        channels.len(),
        |c: int| channel_text(known.accounts, channels[c]),
    ));
    lemma_loaded_channels(accounts, known.accounts, channels);
}

/// A connector that knows nothing yet, and connects to a chain whose accounts and channels were added to
/// a state without any, knows exactly those.
pub proof fn a_connector_loads_what_was_built(
    view: ConnectorView,
    chain_info: ChainInfoText,
    win_prob: Result<WinningProbability, Seq<char>>,
    info: ParsedChainView,
    state: StateView,
    accounts: Seq<(AccountView, nat, nat)>,
    channels: Seq<ChannelEntry>,
)
    requires
        view.accounts.len() == 0,
        view.channels.len() == 0,
        parsed_chain_info(chain_info, win_prob) == Ok::<ParsedChainView, ErrorView>(info),
        state.accounts.len() == 0,
        state.channels.len() == 0,
        accounts_are_distinct(accounts),
        channels_are_distinct(accounts, accounts_added(state, accounts).accounts, channels),
    ensures
        ({
            let built = channels_added(accounts_added(state, accounts), channels);
            connected(view, chain_info, win_prob, account_records(built), channel_records(built)) == (
                ConnectorView {
                    accounts: Seq::new(accounts.len(), |i: int| (accounts[i].0.chain_addr@, accounts[i].0)),
                    channels: Seq::new(channels.len(), |c: int| (channels[c].id@, channels[c])),
                    ..linked(view, info)
                },
                None::<ErrorView>,
            )
        }),
{
    assert(view.accounts =~= Seq::empty());
    assert(view.channels =~= Seq::empty());
    lemma_channels_leave_accounts(accounts_added(state, accounts), channels);
    added_accounts_are_loaded(state, accounts);
    added_channels_are_loaded(state, accounts, channels);
}

proof fn lemma_channels_leave_accounts(state: StateView, channels: Seq<ChannelEntry>)
    ensures
        channels_added(state, channels).accounts == state.accounts,
    decreases channels.len(),
{
    if channels.len() > 0 {
        lemma_channels_leave_accounts(state, channels.drop_last());
    }
}

proof fn lemma_accounts_leave_channels(state: StateView, accounts: Seq<(AccountView, nat, nat)>)
    ensures
        accounts_added(state, accounts).channels == state.channels,
    decreases accounts.len(),
{
    if accounts.len() > 0 {
        lemma_accounts_leave_channels(state, accounts.drop_last());
    }
}

/// What is written of a chain — its id, network and contracts, its ticket price and the grace period of
/// its channels — is read back, as long as the id fits the record.
///
/// That contracts and price read back from their texts is what writing them promises.
pub proof fn a_described_chain_is_read_back(
    record: ChainInfoText,
    chain_id: u64,
    network: Seq<char>,
    contracts: ContractAddresses,
    price: HoprBalance,
    grace_secs: u64,
    win_prob: WinningProbability,
)
    requires
        chain_id < 0x8000_0000,
        separator_of(record.ledger_dst) is Ok,
        separator_of(record.safe_registry_dst) is Ok,
        separator_of(record.channel_dst) is Ok,
        reads_as(parsed_contracts(contracts_json(contracts)), contracts@),
        reads_as(parsed_hopr(hopr_words(price.wei.value())), price.wei.value()),
    ensures
        ({
            let written = ChainInfoText {
                ticket_price: hopr_words(price.wei.value()),
                channel_closure_grace_period: decimal(grace_secs as nat),
                ..chain_described(record, chain_id, network, contracts)
            };
            parsed_chain_info(written, Ok(win_prob)) == Ok::<ParsedChainView, ErrorView>(
                ParsedChainView {
                    chain_id,
                    network,
                    contracts,
                    domain_separators: DomainSeparators {
                        ledger: separator_of(record.ledger_dst)->Ok_0,
                        safe_registry: separator_of(record.safe_registry_dst)->Ok_0,
                        channel: separator_of(record.channel_dst)->Ok_0,
                    },
                    ticket_win_prob: win_prob,
                    ticket_price: price,
                    grace_nanos: (grace_secs * NANOS_PER_SEC) as nat,
                },
            )
        }),
{
    decimal_reads_back(grace_secs as nat);
    lemma_u256_of(price.wei);
    lemma_contracts_of(contracts);
}

} // verus!
