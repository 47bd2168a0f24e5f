//! Builds the state of an emulated chain out of the chain's values.

use vstd::prelude::*;

use crate::testing::blokli::chain::{
    address_of, digest_of, lemma_address_of, lemma_packet_key_from, lemma_u256_of, low_half, low_i32, packet_key_from,
    signed_reading_keeps_the_bits, AccountEntry, AccountType,
    AccountView, Address, ChainInfo, ChannelEntry, ChannelStatus, ContractAddresses, DeployedSafe, Digest, HoprBalance,
    Multiaddr, Timestamp, XDaiBalance, U256,
};
use crate::testing::blokli::connector::convert::converted_channel;
use crate::testing::blokli::connector::reads::ServiceRegistryConfig;
use crate::testing::blokli::connector::ErrorView;
use crate::testing::blokli::interop::{
    contracts_json, contracts_text, hash_create, hopr_text, keccak256, offchain_public_key, packet_key_of,
    channel_is_valid, parse_multiaddr, parsed_contracts, parsed_hopr, parsed_time, peer_id, peer_id_of, reads_as, rfc3339, service_type_name, service_type_text,
    time_text, udp_multiaddr, units_text, without_padding, xdai_text, MAX_CALENDAR_SECS, MIN_CALENDAR_SECS,
};
use crate::testing::blokli::maps::{put, value_of};
use crate::testing::blokli::model::{
    texts, Account, AccountText, ChainInfoText, Channel, ChannelText, RegistryInfo, RegistryText, Safe, SafeText,
    ServiceRecord, ServiceText, ServiceTypeInfo, ServiceTypeText, TokenAmount, TokenAmountText,
};
use crate::testing::blokli::state::{BlokliTestState, Register, StateView};
use crate::testing::blokli::written::{
    generated_accounts_have_the_native_balance, generated_safe, generated_safes_hold_the_tokens,
};
use crate::text::{decimal, decimal_reads_back, decimal_string, encode_hex, hex, same_text};
use crate::time::{Duration, NANOS_PER_SEC};

verus! {

/// The allowance that a safe starts with, in wei: ten trillion tokens.
pub const DEFAULT_ALLOWANCE_WEI: u128 = 10_000_000_000_000_000_000_000_000_000_000;

/// An amount of wxHOPR in words.
pub open spec fn hopr_words(wei: nat) -> Seq<char> {
    units_text(wei) + " wxHOPR"@
}

/// An amount of xDai in words.
pub open spec fn xdai_words(wei: nat) -> Seq<char> {
    units_text(wei) + " xDai"@
}

/// The texts of the addresses that an account has announced.
pub open spec fn announced_texts(account: AccountView) -> Seq<Seq<char>> {
    match account.announced {
        Some(addresses) => addresses,
        None => Seq::empty(),
    }
}

/// An optional address in hexadecimal.
pub open spec fn optional_hex(address: Option<Address>) -> Option<Seq<char>> {
    match address {
        Some(found) => Some(hex(found@)),
        None => None,
    }
}

/// The record of an account.
pub open spec fn account_text(account: AccountView) -> AccountText {
    AccountText {
        chain_key: hex(account.chain_addr@),
        keyid: low_half(account.key_id as nat),
        multi_addresses: announced_texts(account),
        packet_key: hex(account.public_key@),
        safe_address: optional_hex(account.safe_address),
    }
}

/// The record of the safe that belongs to an account: the account owns it, and its module is a
/// pseudorandom function of the account.
pub open spec fn own_safe_text(safe: Address, owner: Address) -> SafeText {
    SafeText {
        address: hex(safe@),
        chain_key: hex(owner@),
        owners: seq![hex(owner@)],
        module_address: hex(keccak256(owner@).take(20)),
        registered_nodes: Seq::empty(),
        threshold: Some("1"@),
    }
}

/// The state with one more account: its record; a safe for it where it has one; a native balance of its
/// own, and tokens and an allowance of its safe.
pub open spec fn account_added(state: StateView, account: AccountView, hopr: nat, native: nat) -> StateView {
    let own = hex(account.chain_addr@);
    let tokens = put(
        state.token_balances,
        own,
        TokenAmountText { typename: "HoprBalance"@, value: hopr_words(0) },
    );
    let natives = put(
        state.native_balances,
        own,
        TokenAmountText { typename: "NativeBalance"@, value: xdai_words(native) },
    );
    let accounts = put(state.accounts, account.key_id, account_text(account));
    match account.safe_address {
        None => StateView { accounts, token_balances: tokens, native_balances: natives, ..state },
        Some(safe) => StateView {
            accounts,
            deployed_safes: put(state.deployed_safes, hex(safe@), own_safe_text(safe, account.chain_addr)),
            token_balances: put(
                tokens,
                hex(safe@),
                TokenAmountText { typename: "HoprBalance"@, value: hopr_words(hopr) },
            ),
            native_balances: put(
                natives,
                hex(safe@),
                TokenAmountText { typename: "NativeBalance"@, value: xdai_words(0) },
            ),
            safe_allowances: put(
                state.safe_allowances,
                hex(safe@),
                TokenAmountText { typename: "SafeHoprAllowance"@, value: hopr_words(DEFAULT_ALLOWANCE_WEI as nat) },
            ),
            ..state
        },
    }
}

/// What accounts to add are: an account, what its safe holds and what it holds itself.
pub open spec fn funded_views(
    accounts: Seq<(AccountEntry, HoprBalance, XDaiBalance)>,
) -> Seq<(AccountView, nat, nat)> {
    accounts.map_values(
        |entry: (AccountEntry, HoprBalance, XDaiBalance)| (entry.0@, entry.1.wei.value(), entry.2.wei.value()),
    )
}

/// The state with more accounts, in their order.
pub open spec fn accounts_added(state: StateView, accounts: Seq<(AccountView, nat, nat)>) -> StateView
    decreases accounts.len(),
{
    if accounts.len() == 0 {
        state
    } else {
        let before = accounts_added(state, accounts.drop_last());
        let last = accounts.last();
        account_added(before, last.0, last.1, last.2)
    }
}

/// Whether accounts bring key ids that are new, each a different one.
pub open spec fn key_ids_are_new(state: StateView, accounts: Seq<(AccountView, nat, nat)>) -> bool {
    &&& forall|i: int, j: int|
        0 <= i < accounts.len() && 0 <= j < state.accounts.len() ==> (#[trigger] accounts[i]).0.key_id != (
        #[trigger] state.accounts[j]).0
    &&& forall|i: int, j: int|
        0 <= i < j < accounts.len() ==> (#[trigger] accounts[i]).0.key_id != (#[trigger] accounts[j]).0.key_id
}

/// The second and the nanoseconds past it of a point in time.
pub open spec fn calendar_parts(time: Timestamp) -> (i64, u32) {
    ((time.nanos as int / NANOS_PER_SEC as int) as i64, (time.nanos as int % NANOS_PER_SEC as int) as u32)
}

/// Whether the calendar reaches a point in time.
pub open spec fn in_calendar(time: Timestamp) -> bool {
    MIN_CALENDAR_SECS <= time.nanos as int / NANOS_PER_SEC as int <= MAX_CALENDAR_SECS
}

/// Whether an account has a chain key.
pub open spec fn has_account(accounts: Seq<(u32, AccountText)>, chain_key: Seq<char>) -> bool {
    exists|i: int| 0 <= i < accounts.len() && (#[trigger] accounts[i]).1.chain_key == chain_key
}

/// Where an account has a chain key, one of them is the first.
proof fn lemma_keyid_is_found(accounts: Seq<(u32, AccountText)>, chain_key: Seq<char>)
    requires
        has_account(accounts, chain_key),
    ensures
        keyid_of(accounts, chain_key) is Some,
{
    let keys = accounts.map_values(|entry: (u32, AccountText)| entry.1.chain_key);
    keys.index_of_first_ensures(chain_key);
    let i = choose|i: int| 0 <= i < accounts.len() && (#[trigger] accounts[i]).1.chain_key == chain_key;
    assert(keys[i] == chain_key);
}

/// Whether no entry has a key.
pub open spec fn lacks<K, V>(entries: Seq<(K, V)>, key: K) -> bool {
    forall|i: int| 0 <= i < entries.len() ==> (#[trigger] entries[i]).0 != key
}

/// The key id of the first account with a chain key.
pub open spec fn keyid_of(accounts: Seq<(u32, AccountText)>, chain_key: Seq<char>) -> Option<i32> {
    match accounts.map_values(|entry: (u32, AccountText)| entry.1.chain_key).index_of_first(chain_key) {
        Some(i) => Some(accounts[i].1.keyid),
        None => None,
    }
}

/// The record of a channel between two of the accounts.
pub open spec fn channel_text(accounts: Seq<(u32, AccountText)>, channel: ChannelEntry) -> ChannelText {
    ChannelText {
        balance: hopr_words(channel.balance.wei.value()),
        closure_time: match channel.status {
            ChannelStatus::PendingToClose(time) => rfc3339(calendar_parts(time).0, calendar_parts(time).1),
            _ => None,
        },
        concrete_channel_id: hex(channel.id@),
        source: keyid_of(accounts, hex(channel.source@))->0,
        epoch: low_half(channel.channel_epoch as nat),
        destination: keyid_of(accounts, hex(channel.destination@))->0,
        status: channel.status.spec_kind(),
        ticket_index: decimal(channel.ticket_index as nat),
    }
}

/// The channels with more of them, in their order.
pub open spec fn channels_added(state: StateView, channels: Seq<ChannelEntry>) -> StateView
    decreases channels.len(),
{
    if channels.len() == 0 {
        state
    } else {
        let before = channels_added(state, channels.drop_last());
        let last = channels.last();
        StateView {
            channels: put(before.channels, hex(last.id@), channel_text(state.accounts, last)),
            ..before
        }
    }
}

/// Whether a channel can be added: both its ends have an account, and the calendar reaches its closing.
pub open spec fn channel_can_be_added(accounts: Seq<(u32, AccountText)>, channel: ChannelEntry) -> bool {
    &&& has_account(accounts, hex(channel.source@))
    &&& has_account(accounts, hex(channel.destination@))
    &&& channel.status matches ChannelStatus::PendingToClose(time) ==> in_calendar(time)
}

/// The texts of addresses.
pub open spec fn hex_list(addresses: Seq<Address>) -> Seq<Seq<char>> {
    addresses.map_values(|address: Address| hex(address@))
}

/// The record of a safe.
pub open spec fn safe_text(safe: DeployedSafe) -> SafeText {
    SafeText {
        address: hex(safe.address@),
        chain_key: hex(safe.deployer@),
        owners: hex_list(safe.owners@),
        module_address: hex(safe.module@),
        registered_nodes: hex_list(safe.registered_nodes@),
        threshold: Some("1"@),
    }
}

/// The safes with more of them, in their order.
pub open spec fn safes_added(
    safes: Seq<(Seq<char>, SafeText)>,
    added: Seq<DeployedSafe>,
) -> Seq<(Seq<char>, SafeText)>
    decreases added.len(),
{
    if added.len() == 0 {
        safes
    } else {
        put(safes_added(safes, added.drop_last()), hex(added.last().address@), safe_text(added.last()))
    }
}

/// A service that a node offers.
#[derive(Clone, Debug, PartialEq, Eq)]
pub struct ServiceEntry {
    pub service_type: [u8; 32],
    pub node: Address,
    pub safe: Address,
    pub metadata: Vec<u8>,
    pub registered_at: Timestamp,
    pub updated_at: Timestamp,
}

/// The terms of a service type.
#[derive(Clone, Copy, Debug, PartialEq, Eq)]
pub struct ServiceTypeConfig {
    pub owner: Option<Address>,
    pub requirement: Option<Address>,
    pub registration_burn: HoprBalance,
    pub update_burn: HoprBalance,
}

/// The whole seconds of a point in time from the Unix epoch on.
pub open spec fn unix_secs(time: Timestamp) -> nat {
    (time.nanos as int / NANOS_PER_SEC as int) as nat
}

/// Whether a point in time is none before the Unix epoch, and its seconds fit into 64 bits.
pub open spec fn is_unix_time(time: Timestamp) -> bool {
    time.nanos >= 0 && time.nanos as int / NANOS_PER_SEC as int <= u64::MAX
}

/// Converts a timestamp into the unsigned Unix seconds represented by the Blokli API.
pub fn unix_seconds(time: Timestamp) -> (text: String)
    requires
        is_unix_time(time),
    ensures
        text@ == decimal(unix_secs(time)),
{
    let secs: u64 = (time.nanos / 1_000_000_000) as u64;
    decimal_string(secs)
}

/// The key of a service entry: the node, then the type.
pub open spec fn service_key(service_type: Seq<char>, node: Seq<u8>) -> Seq<char> {
    hex(node) + service_type
}

/// The record of a service entry.
pub open spec fn service_text(service: ServiceEntry) -> ServiceText {
    ServiceText {
        service_type: service_type_name(service.service_type@),
        node: hex(service.node@),
        safe: hex(service.safe@),
        metadata: "0x"@ + hex(service.metadata@),
        registered_at: decimal(unix_secs(service.registered_at)),
        updated_at: decimal(unix_secs(service.updated_at)),
    }
}

/// The services with more of them, in their order.
pub open spec fn services_added(
    services: Seq<(Seq<char>, ServiceText)>,
    added: Seq<ServiceEntry>,
) -> Seq<(Seq<char>, ServiceText)>
    decreases added.len(),
{
    if added.len() == 0 {
        services
    } else {
        let last = added.last();
        put(
            services_added(services, added.drop_last()),
            service_key(service_type_name(last.service_type@), last.node@),
            service_text(last),
        )
    }
}

/// Whether service entries can be added: their types are none of zeros, their times are Unix times, and
/// no node has a type twice.
pub open spec fn services_can_be_added(
    services: Seq<(Seq<char>, ServiceText)>,
    added: Seq<ServiceEntry>,
) -> bool
    decreases added.len(),
{
    added.len() == 0 || {
        let last = added.last();
        &&& services_can_be_added(services, added.drop_last())
        &&& without_padding(last.service_type@).len() > 0
        &&& is_unix_time(last.registered_at)
        &&& is_unix_time(last.updated_at)
        &&& lacks(
            services_added(services, added.drop_last()),
            service_key(service_type_name(last.service_type@), last.node@),
        )
    }
}

/// The record of a service type.
pub open spec fn service_type_info(id: Seq<u8>, config: ServiceTypeConfig) -> ServiceTypeText {
    ServiceTypeText {
        service_type: service_type_name(id),
        owner: optional_hex(config.owner),
        requirement: optional_hex(config.requirement),
        registration_burn: hopr_words(config.registration_burn.wei.value()),
        update_burn: hopr_words(config.update_burn.wei.value()),
    }
}

/// The service types with more of them, in their order.
pub open spec fn service_types_added(
    types: Seq<(Seq<char>, ServiceTypeText)>,
    added: Seq<([u8; 32], ServiceTypeConfig)>,
) -> Seq<(Seq<char>, ServiceTypeText)>
    decreases added.len(),
{
    if added.len() == 0 {
        types
    } else {
        let last = added.last();
        put(
            service_types_added(types, added.drop_last()),
            service_type_name(last.0@),
            service_type_info(last.0@, last.1),
        )
    }
}

/// Whether service types can be added: they are none of zeros, and no name comes twice.
pub open spec fn service_types_can_be_added(
    types: Seq<(Seq<char>, ServiceTypeText)>,
    added: Seq<([u8; 32], ServiceTypeConfig)>,
) -> bool
    decreases added.len(),
{
    added.len() == 0 || {
        let last = added.last();
        &&& service_types_can_be_added(types, added.drop_last())
        &&& without_padding(last.0@).len() > 0
        &&& lacks(service_types_added(types, added.drop_last()), service_type_name(last.0@))
    }
}

/// The settings of the service registry as a record.
pub open spec fn registry_text(config: ServiceRegistryConfig) -> RegistryText {
    RegistryText {
        type_registration_fee: hopr_words(config.type_registration_fee.wei.value()),
        node_safe_registry: hex(config.node_safe_registry@),
    }
}

/// The account that is generated for an address: its packet key and safe are pseudorandom functions of
/// the address.
pub open spec fn generated_account(address: Address, index: nat, public: bool, key_id: nat) -> AccountView {
    let seed = keccak256(address@);
    let key = packet_key_of(seed);
    AccountView {
        public_key: packet_key_from(key),
        chain_addr: address,
        announced: if public {
            Some(seq![udp_multiaddr(10000 + index, peer_id_of(key))])
        } else {
            None
        },
        safe_address: Some(address_of(keccak256(seed).take(20))),
        key_id: key_id as u32,
    }
}

/// The accounts that are generated for addresses, numbered from `first_id` on.
pub open spec fn generated_accounts(
    addresses: Seq<Address>,
    public: bool,
    first_id: nat,
    token: nat,
    native: nat,
) -> Seq<(AccountView, nat, nat)> {
    Seq::new(
        addresses.len(),
        |i: int| (generated_account(addresses[i], i as nat, public, first_id + i as nat), token, native),
    )
}

/// The largest key id, or zero where there is none.
pub open spec fn largest_id(accounts: Seq<(u32, AccountText)>) -> nat
    decreases accounts.len(),
{
    if accounts.len() == 0 {
        0
    } else {
        let rest = largest_id(accounts.drop_last());
        if accounts.last().0 > rest {
            accounts.last().0 as nat
        } else {
            rest
        }
    }
}

/// The first of the key ids above all that accounts have: zero where there are none.
pub open spec fn free_id(accounts: Seq<(u32, AccountText)>) -> nat {
    if accounts.len() == 0 {
        0
    } else {
        largest_id(accounts) + 1
    }
}

/// No account has a key id above the largest.
pub proof fn lemma_largest_id(accounts: Seq<(u32, AccountText)>)
    ensures
        forall|i: int| 0 <= i < accounts.len() ==> (#[trigger] accounts[i]).0 <= largest_id(accounts),
    decreases accounts.len(),
{
    if accounts.len() > 0 {
        let rest = accounts.drop_last();
        lemma_largest_id(rest);
        assert forall|i: int| 0 <= i < accounts.len() implies (#[trigger] accounts[i]).0 <= largest_id(accounts) by {
            if i < rest.len() {
                assert(rest[i] == accounts[i]);
            }
        }
    }
}

/// Accounts that are generated for a state bring key ids that it does not have yet, each a different one,
/// for as long as there are key ids left.
pub proof fn generated_key_ids_are_new(
    state: StateView,
    addresses: Seq<Address>,
    public: bool,
    token: nat,
    native: nat,
)
    requires
        free_id(state.accounts) + addresses.len() <= 0x1_0000_0000,
    ensures
        key_ids_are_new(
            state,
            generated_accounts(addresses, public, free_id(state.accounts), token, native),
        ),
{
    lemma_largest_id(state.accounts);
}

/// Balances of one currency, for accounts.
#[derive(Debug, PartialEq, Eq)]
pub enum Balances {
    Native(Vec<(Address, XDaiBalance)>),
    Token(Vec<(Address, HoprBalance)>),
}

/// Amounts with more of them, in their order, under the name of a type and in words.
pub open spec fn amounts_added(
    amounts: Seq<(Seq<char>, TokenAmountText)>,
    typename: Seq<char>,
    added: Seq<(Address, Seq<char>)>,
) -> Seq<(Seq<char>, TokenAmountText)>
    decreases added.len(),
{
    if added.len() == 0 {
        amounts
    } else {
        put(
            amounts_added(amounts, typename, added.drop_last()),
            hex(added.last().0@),
            TokenAmountText { typename, value: added.last().1 },
        )
    }
}

/// Amounts of wxHOPR in words.
pub open spec fn hopr_list(amounts: Seq<(Address, HoprBalance)>) -> Seq<(Address, Seq<char>)> {
    amounts.map_values(|entry: (Address, HoprBalance)| (entry.0, hopr_words(entry.1.wei.value())))
}

/// Amounts of xDai in words.
pub open spec fn xdai_list(amounts: Seq<(Address, XDaiBalance)>) -> Seq<(Address, Seq<char>)> {
    amounts.map_values(|entry: (Address, XDaiBalance)| (entry.0, xdai_words(entry.1.wei.value())))
}

/// An address in hexadecimal.
fn hex_address(address: &Address) -> (text: String)
    ensures
        text@ == hex(address@),
{
    encode_hex(&address.bytes)
}

/// An optional address in hexadecimal.
fn hex_optional(address: &Option<Address>) -> (text: Option<String>)
    ensures
        crate::testing::blokli::model::optional_text(text) == optional_hex(*address),
{
    match address {
        Some(found) => Some(hex_address(found)),
        None => None,
    }
}

/// Addresses in hexadecimal.
fn hex_addresses(addresses: &Vec<Address>) -> (list: Vec<String>)
    ensures
        texts(list@) == hex_list(addresses@),
{
    let mut list: Vec<String> = Vec::new();
    let count: usize = addresses.len();
    let mut i: usize = 0;
    assert(texts(list@) =~= hex_list(addresses@.take(0)));
    while i < count
        invariant
            i <= count,
            count == addresses@.len(),
            texts(list@) == hex_list(addresses@.take(i as int)),
        decreases count - i,
    {
        let ghost before = list@;
        let text = hex_address(&addresses[i]);
        list.push(text);
        proof {
            assert(texts(list@) =~= texts(before).push(hex(addresses@[i as int]@)));
            assert(hex_list(addresses@.take(i + 1)) =~= hex_list(addresses@.take(i as int)).push(
                hex(addresses@[i as int]@),
            ));
        }
        i += 1;
    }
    assert(addresses@.take(count as int) =~= addresses@);
    list
}

/// The first twenty bytes of a digest, as an address.
fn head_of(digest: &Digest) -> (address: Address)
    ensures
        address@ == digest@.take(20),
{
    let mut bytes: [u8; 20] = [0u8;20];
    let mut i: usize = 0;
    while i < 20
        invariant
            i <= 20,
            forall|j: int| 0 <= j < i ==> bytes@[j] == digest.bytes@[j],
        decreases 20 - i,
    {
        bytes[i] = digest.bytes[i];
        i += 1;
    }
    let address = Address { bytes };
    assert(address@ =~= digest@.take(20));
    address
}

/// An amount under the name of its type.
fn token_amount(typename: &str, value: String) -> (amount: TokenAmount)
    ensures
        amount@ == (TokenAmountText { typename: typename@, value: value@ }),
{
    TokenAmount { typename: typename.to_string(), value }
}

/// An amount of a currency, which has a text.
trait Amount: Sized {
    /// The amount in words.
    spec fn spec_words(self) -> Seq<char>;

    /// The amount in words.
    fn words(&self) -> (text: String)
        ensures
            text@ == self.spec_words(),
    ;
}

impl Amount for HoprBalance {
    spec fn spec_words(self) -> Seq<char> {
        hopr_words(self.wei.value())
    }

    fn words(&self) -> (text: String) {
        hopr_text(self)
    }
}

impl Amount for XDaiBalance {
    spec fn spec_words(self) -> Seq<char> {
        xdai_words(self.wei.value())
    }

    fn words(&self) -> (text: String) {
        xdai_text(self)
    }
}

/// Amounts in words.
spec fn amount_list<A: Amount>(amounts: Seq<(Address, A)>) -> Seq<(Address, Seq<char>)> {
    amounts.map_values(|entry: (Address, A)| (entry.0, entry.1.spec_words()))
}

/// Puts amounts in their order, each under its address.
fn put_amounts<A: Amount>(
    register: &mut Register<String, TokenAmount>,
    typename: &str,
    amounts: &Vec<(Address, A)>,
)
    ensures
        final(register)@ == amounts_added(old(register)@, typename@, amount_list(amounts@)),
{
    let ghost before = register@;
    let ghost list = amount_list(amounts@);
    let count: usize = amounts.len();
    let mut i: usize = 0;
    assert(list.take(0) =~= Seq::empty());
    while i < count
        invariant
            i <= count,
            count == amounts@.len(),
            list == amount_list(amounts@),
            register@ == amounts_added(before, typename@, list.take(i as int)),
        decreases count - i,
    {
        let entry = &amounts[i];
        proof {
            assert(list.take(i + 1).drop_last() =~= list.take(i as int));
            assert(list.take(i + 1).last() == list[i as int]);
        }
        register.put(hex_address(&entry.0), token_amount(typename, entry.1.words()));
        i += 1;
    }
    assert(list.take(count as int) =~= list);
}

/// Writes the record of an account.
pub fn account_record(account: &AccountEntry) -> (record: Account)
    ensures
        record@ == account_text(account@),
{
    let mut addresses: Vec<String> = Vec::new();
    match &account.entry_type {
        AccountType::NotAnnounced => {
            assert(texts(addresses@) =~= announced_texts(account@));
        },
        AccountType::Announced(announced) => {
            let ghost all = announced@.map_values(|a: Multiaddr| a@);
            let count: usize = announced.len();
            let mut i: usize = 0;
            assert(texts(addresses@) =~= all.take(0));
            while i < count
                invariant
                    i <= count,
                    count == announced@.len(),
                    all == announced@.map_values(|a: Multiaddr| a@),
                    texts(addresses@) == all.take(i as int),
                decreases count - i,
            {
                let ghost before = addresses@;
                addresses.push(announced[i].text.clone());
                proof {
                    assert(texts(addresses@) =~= texts(before).push(all[i as int]));
                    assert(all.take(i + 1) =~= all.take(i as int).push(all[i as int]));
                }
                i += 1;
            }
            assert(all.take(count as int) =~= all);
        },
    }
    Account {
        chain_key: hex_address(&account.chain_addr),
        keyid: low_i32(account.key_id as u64),
        multi_addresses: addresses,
        packet_key: encode_hex(&account.public_key.bytes),
        safe_address: hex_optional(&account.safe_address),
    }
}

/// Allows easily building a [`BlokliTestState`] using the chain's own values.
pub struct BlokliTestStateBuilder {
    state: BlokliTestState,
}

impl View for BlokliTestStateBuilder {
    type V = StateView;

    closed spec fn view(&self) -> StateView {
        self.state@
    }
}

/// The id of the exit-node service: `gvpn:exit`, padded with zeros.
pub fn gvpn_exit() -> (id: [u8; 32])
    ensures
        id@ == gvpn_exit_id(),
{
    let id: [u8; 32] = [
        0x67, 0x76, 0x70, 0x6e, 0x3a, 0x65, 0x78, 0x69, 0x74, 0, 0, 0, 0, 0, 0, 0, 0, 0, 0, 0, 0, 0, 0, 0, 0, 0, 0, 0, 0,
        0, 0, 0,
    ];
    assert(id@ =~= gvpn_exit_id());
    id
}

/// The bytes of `gvpn:exit`, padded with zeros.
pub open spec fn gvpn_exit_id() -> Seq<u8> {
    seq![0x67u8, 0x76, 0x70, 0x6e, 0x3a, 0x65, 0x78, 0x69, 0x74] + Seq::new(23, |i: int| 0u8)
}

/// The account that has deployed the contracts of a local test network.
pub fn default_deployer() -> (address: Address)
    ensures
        address@ == default_deployer_bytes(),
{
    let address = Address {
        bytes: [
            0xf3, 0x9f, 0xd6, 0xe5, 0x1a, 0xad, 0x88, 0xf6, 0xf4, 0xce, 0x6a, 0xb8, 0x82, 0x72, 0x79, 0xcf, 0xff, 0xb9,
            0x22, 0x66,
        ],
    };
    assert(address@ =~= default_deployer_bytes());
    address
}

/// The bytes of the account that has deployed the contracts of a local test network.
pub open spec fn default_deployer_bytes() -> Seq<u8> {
    seq![
        0xf3u8, 0x9f, 0xd6, 0xe5, 0x1a, 0xad, 0x88, 0xf6, 0xf4, 0xce, 0x6a, 0xb8, 0x82, 0x72, 0x79, 0xcf, 0xff, 0xb9,
        0x22, 0x66,
    ]
}

proof fn lemma_gvpn_exit_is_named()
    ensures
        without_padding(gvpn_exit_id()) == seq![0x67u8, 0x76, 0x70, 0x6e, 0x3a, 0x65, 0x78, 0x69, 0x74],
{
    lemma_padding_is_taken_off(seq![0x67u8, 0x76, 0x70, 0x6e, 0x3a, 0x65, 0x78, 0x69, 0x74], 23);
}

proof fn lemma_padding_is_taken_off(name: Seq<u8>, padding: nat)
    requires
        name.len() > 0,
        name.last() != 0,
    ensures
        without_padding(name + Seq::new(padding, |i: int| 0u8)) == name,
    decreases padding,
{
    let padded = name + Seq::new(padding, |i: int| 0u8);
    if padding == 0 {
        assert(padded =~= name);
    } else {
        assert(padded.drop_last() =~= name + Seq::new((padding - 1) as nat, |i: int| 0u8));
        lemma_padding_is_taken_off(name, (padding - 1) as nat);
    }
}

/// Finds the key id of the first account with a chain key.
fn find_keyid(state: &BlokliTestState, address: &Address) -> (keyid: Option<i32>)
    ensures
        keyid == keyid_of(state@.accounts, hex(address@)),
{
    let wanted = hex_address(address);
    let ghost keys = state@.accounts.map_values(|entry: (u32, AccountText)| entry.1.chain_key);
    let count: usize = state.accounts.len();
    let mut i: usize = 0;
    while i < count
        invariant
            i <= count,
            count == state@.accounts.len(),
            wanted@ == hex(address@),
            keys == state@.accounts.map_values(|entry: (u32, AccountText)| entry.1.chain_key),
            forall|j: int| 0 <= j < i ==> keys[j] != wanted@,
        decreases count - i,
    {
        let account = state.accounts.at(i);
        if same_text(account.chain_key.as_str(), wanted.as_str()) {
            proof {
                keys.index_of_first_ensures(wanted@);
                assert(keys[i as int] == wanted@);
                assert(keys.contains(wanted@));
            }
            return Some(account.keyid);
        }
        assert(keys[i as int] != wanted@);
        i += 1;
    }
    proof {
        keys.index_of_first_ensures(wanted@);
    }
    None
}

/// Puts one more account into a state.
fn add_account(state: &mut BlokliTestState, account: &AccountEntry, hopr: &HoprBalance, native: &XDaiBalance)
    ensures
        final(state)@ == account_added(old(state)@, account@, hopr.wei.value(), native.wei.value()),
{
    state.accounts.put(account.key_id, account_record(account));
    if let Some(safe) = &account.safe_address {
        let module = head_of(&hash_create(&account.chain_addr.bytes));
        let mut owners: Vec<String> = Vec::new();
        owners.push(hex_address(&account.chain_addr));
        let record = Safe {
            address: hex_address(safe),
            chain_key: hex_address(&account.chain_addr),
            owners,
            module_address: hex_address(&module),
            registered_nodes: Vec::new(),
            threshold: Some("1".to_string()),
        };
        assert(record@ =~= own_safe_text(*safe, account.chain_addr));
        state.deployed_safes.put(hex_address(safe), record);
    }
    let none = HoprBalance::zero();
    state.token_balances.put(hex_address(&account.chain_addr), token_amount("HoprBalance", hopr_text(&none)));
    state.native_balances.put(hex_address(&account.chain_addr), token_amount("NativeBalance", xdai_text(native)));
    if let Some(safe) = &account.safe_address {
        state.token_balances.put(hex_address(safe), token_amount("HoprBalance", hopr_text(hopr)));
        state.native_balances.put(
            hex_address(safe),
            token_amount("NativeBalance", xdai_text(&XDaiBalance::zero())),
        );
        let allowance = HoprBalance { wei: U256 { hi: 0, lo: DEFAULT_ALLOWANCE_WEI } };
        state.safe_allowances.put(hex_address(safe), token_amount("SafeHoprAllowance", hopr_text(&allowance)));
    }
}

/// Writes the record of a channel between two accounts of a state. A channel that is what a channel can
/// be reads back from it.
fn channel_record(state: &BlokliTestState, channel: &ChannelEntry) -> (record: Channel)
    requires
        channel_can_be_added(state@.accounts, *channel),
    ensures
        record@ == channel_text(state@.accounts, *channel),
        is_a_channel(*channel) ==> reads_back(record@, *channel),
{
    proof {
        lemma_keyid_is_found(state@.accounts, hex(channel.source@));
        lemma_keyid_is_found(state@.accounts, hex(channel.destination@));
    }
    let source: i32 = match find_keyid(state, &channel.source) {
        Some(id) => id,
        None => 0,
    };
    let destination: i32 = match find_keyid(state, &channel.destination) {
        Some(id) => id,
        None => 0,
    };
    let balance = hopr_text(&channel.balance);
    let closure_time = match channel.status {
        ChannelStatus::PendingToClose(time) => {
            let secs: i64 = floor_secs(time);
            let nanos: u32 = subsec_nanos(time);
            time_text(secs, nanos)
        },
        _ => None,
    };
    let record = Channel {
        balance,
        closure_time,
        concrete_channel_id: encode_hex(&channel.id.bytes),
        source,
        epoch: low_i32(channel.channel_epoch as u64),
        destination,
        status: channel.status.kind(),
        ticket_index: decimal_string(channel.ticket_index),
    };
    proof {
        if is_a_channel(*channel) {
            lemma_channel_reads_back(record@, *channel);
        }
    }
    record
}

/// The whole seconds of a point in time, rounded down.
fn floor_secs(time: Timestamp) -> (secs: i64)
    requires
        in_calendar(time),
    ensures
        secs == calendar_parts(time).0,
{
    if time.nanos >= 0 {
        (time.nanos / 1_000_000_000) as i64
    } else {
        proof {
            lemma_floor_of_negative(time.nanos as int);
        }
        let below: i128 = (-(time.nanos + 1)) / 1_000_000_000;
        (-below - 1) as i64
    }
}

proof fn lemma_floor_of_negative(nanos: int)
    requires
        nanos < 0,
    ensures
        nanos / 1_000_000_000 == -((-(nanos + 1)) / 1_000_000_000) - 1,
{
}

/// The nanoseconds of a point in time past its whole seconds.
fn subsec_nanos(time: Timestamp) -> (nanos: u32)
    requires
        in_calendar(time),
    ensures
        nanos == calendar_parts(time).1,
        nanos < 1_000_000_000,
{
    let secs: i64 = floor_secs(time);
    (time.nanos - secs as i128 * 1_000_000_000) as u32
}

/// Whether a channel is what a channel can be: between two accounts, within the limits, under the id of
/// its ends.
pub open spec fn is_a_channel(channel: ChannelEntry) -> bool {
    &&& channel_is_valid(
        channel.source,
        channel.destination,
        channel.balance,
        channel.ticket_index,
        channel.channel_epoch,
    )
    &&& channel.id == digest_of(keccak256(channel.source@ + channel.destination@))
}

/// Whether a record stands for a channel.
pub open spec fn reads_back(record: ChannelText, channel: ChannelEntry) -> bool {
    converted_channel(record, channel.source, channel.destination) == Ok::<ChannelEntry, ErrorView>(channel)
}

proof fn lemma_channel_reads_back(record: ChannelText, channel: ChannelEntry)
    requires
        is_a_channel(channel),
        reads_as(parsed_hopr(record.balance), channel.balance.wei.value()),
        record.ticket_index == decimal(channel.ticket_index as nat),
        record.epoch == low_half(channel.channel_epoch as nat),
        record.status == channel.status.spec_kind(),
        channel.status matches ChannelStatus::PendingToClose(time) ==> in_calendar(time) && record.closure_time is Some
            && reads_as(parsed_time(record.closure_time->0), calendar_parts(time)),
    ensures
        reads_back(record, channel),
{
    decimal_reads_back(channel.ticket_index as nat);
    lemma_u256_of(channel.balance.wei);
    signed_reading_keeps_the_bits(channel.channel_epoch);
}

impl BlokliTestStateBuilder {
    /// Goes on from a state.
    pub fn from_state(state: BlokliTestState) -> (builder: Self)
        ensures
            builder@ == state@,
    {
        BlokliTestStateBuilder { state }
    }

    /// Starts from the chain that `state` has, with the contracts of a local test network: the exit-node
    /// service type is registered on the network's own terms.
    pub fn default(state: BlokliTestState, chain_id: u64, contracts: &ContractAddresses) -> (builder: Self)
        requires
            lacks(state@.service_types, service_type_name(gvpn_exit_id())),
        ensures
            builder@ == default_state(state@, chain_id, *contracts),
    {
        proof {
            lemma_gvpn_exit_is_named();
        }
        let config = ServiceTypeConfig {
            owner: Some(default_deployer()),
            requirement: None,
            registration_burn: HoprBalance { wei: U256 { hi: 0, lo: GVPN_EXIT_REGISTRATION_BURN } },
            update_burn: HoprBalance { wei: U256 { hi: 0, lo: GVPN_EXIT_UPDATE_BURN } },
        };
        proof {
            lemma_address_of(config.owner->0);
        }
        let mut types: Vec<([u8; 32], ServiceTypeConfig)> = Vec::new();
        types.push((gvpn_exit(), config));
        let fee = HoprBalance { wei: U256 { hi: 0, lo: SERVICE_TYPE_REGISTRATION_FEE } };
        let base = BlokliTestStateBuilder::from_state(state).with_hopr_network_chain_info(
            "anvil-localhost",
            chain_id,
            contracts,
        );
        proof {
            reveal_with_fuel(service_types_can_be_added, 2);
            reveal_with_fuel(service_types_added, 2);
            assert(types@.drop_last() =~= Seq::empty());
        }
        base.with_service_types(&types).with_service_registry_config(
            ServiceRegistryConfig { type_registration_fee: fee, node_safe_registry: contracts.node_safe_registry },
        )
    }

    /// Appends channels to the state. Both ends of each have to have an account in the state already.
    #[must_use]
    pub fn with_channels(self, channels: &Vec<ChannelEntry>) -> (builder: Self)
        requires
            forall|i: int|
                0 <= i < channels@.len() ==> channel_can_be_added(self@.accounts, #[trigger] channels@[i]),
        ensures
            builder@ == channels_added(self@, channels@),
            forall|i: int|
                0 <= i < channels@.len() && is_a_channel(#[trigger] channels@[i]) ==> reads_back(
                    channel_text(self@.accounts, channels@[i]),
                    channels@[i],
                ),
    {
        let ghost before = self@;
        let mut state = self.state;
        let count: usize = channels.len();
        let mut i: usize = 0;
        assert(channels@.take(0) =~= Seq::empty());
        while i < count
            invariant
                i <= count,
                count == channels@.len(),
                state@ == channels_added(before, channels@.take(i as int)),
                state@.accounts == before.accounts,
                forall|j: int|
                    0 <= j < channels@.len() ==> channel_can_be_added(before.accounts, #[trigger] channels@[j]),
                forall|j: int|
                    0 <= j < i && is_a_channel(#[trigger] channels@[j]) ==> reads_back(
                        channel_text(before.accounts, channels@[j]),
                        channels@[j],
                    ),
            decreases count - i,
        {
            let channel = &channels[i];
            let record = channel_record(&state, channel);
            state.channels.put(encode_hex(&channel.id.bytes), record);
            proof {
                assert(channels@.take(i + 1).drop_last() =~= channels@.take(i as int));
            }
            i += 1;
        }
        assert(channels@.take(count as int) =~= channels@);
        BlokliTestStateBuilder { state }
    }

    /// Appends accounts to the state, each with the tokens of its safe and its own native balance. Their
    /// key ids have to be new.
    #[must_use]
    pub fn with_accounts(self, accounts: &Vec<(AccountEntry, HoprBalance, XDaiBalance)>) -> (builder: Self)
        requires
            key_ids_are_new(self@, funded_views(accounts@)),
        ensures
            builder@ == accounts_added(self@, funded_views(accounts@)),
    {
        let ghost before = self@;
        let ghost all = funded_views(accounts@);
        let mut state = self.state;
        let count: usize = accounts.len();
        let mut i: usize = 0;
        assert(all.take(0) =~= Seq::empty());
        while i < count
            invariant
                i <= count,
                count == accounts@.len(),
                all == funded_views(accounts@),
                state@ == accounts_added(before, all.take(i as int)),
            decreases count - i,
        {
            let entry = &accounts[i];
            add_account(&mut state, &entry.0, &entry.1, &entry.2);
            proof {
                assert(all.take(i + 1).drop_last() =~= all.take(i as int));
                assert(all.take(i + 1).last() == all[i as int]);
            }
            i += 1;
        }
        assert(all.take(count as int) =~= all);
        BlokliTestStateBuilder { state }
    }

    /// Appends deployed safes to the state.
    #[must_use]
    pub fn with_deployed_safes(self, safes: &Vec<DeployedSafe>) -> (builder: Self)
        ensures
            builder@ == (StateView { deployed_safes: safes_added(self@.deployed_safes, safes@), ..self@ }),
    {
        let ghost before = self@;
        let mut state = self.state;
        let count: usize = safes.len();
        let mut i: usize = 0;
        assert(safes@.take(0) =~= Seq::empty());
        while i < count
            invariant
                i <= count,
                count == safes@.len(),
                state@ == (StateView {
                    deployed_safes: safes_added(before.deployed_safes, safes@.take(i as int)),
                    ..before
                }),
            decreases count - i,
        {
            let safe = &safes[i];
            let record = Safe {
                address: hex_address(&safe.address),
                chain_key: hex_address(&safe.deployer),
                owners: hex_addresses(&safe.owners),
                module_address: hex_address(&safe.module),
                registered_nodes: hex_addresses(&safe.registered_nodes),
                threshold: Some("1".to_string()),
            };
            assert(record@ =~= safe_text(*safe));
            state.deployed_safes.put(hex_address(&safe.address), record);
            proof {
                assert(safes@.take(i + 1).drop_last() =~= safes@.take(i as int));
            }
            i += 1;
        }
        assert(safes@.take(count as int) =~= safes@);
        BlokliTestStateBuilder { state }
    }

    /// Appends entries of the on-chain service registry to the state.
    ///
    /// The service type of each entry is rendered the way Blokli renders it: the ASCII name of the type,
    /// or `0x`-prefixed hex for a type that does not follow that convention.
    #[must_use]
    pub fn with_services(self, services: &Vec<ServiceEntry>) -> (builder: Self)
        requires
            services_can_be_added(self@.services, services@),
        ensures
            builder@ == (StateView { services: services_added(self@.services, services@), ..self@ }),
    {
        let ghost before = self@;
        let mut state = self.state;
        let count: usize = services.len();
        let mut i: usize = 0;
        assert(services@.take(0) =~= Seq::empty());
        while i < count
            invariant
                i <= count,
                count == services@.len(),
                services_can_be_added(before.services, services@),
                state@ == (StateView {
                    services: services_added(before.services, services@.take(i as int)),
                    ..before
                }),
            decreases count - i,
        {
            let service = &services[i];
            proof {
                lemma_services_can_be_added_so_far(before.services, services@, i + 1);
                assert(services@.take(i + 1).drop_last() =~= services@.take(i as int));
                assert(services@.take(i + 1).last() == services@[i as int]);
            }
            let service_type = service_type_text(&service.service_type);
            let mut key = hex_address(&service.node);
            key.append(service_type.as_str());
            let mut metadata: String = "0x".to_string();
            metadata.append(encode_hex(service.metadata.as_slice()).as_str());
            let record = ServiceRecord {
                service_type,
                node: hex_address(&service.node),
                safe: hex_address(&service.safe),
                metadata,
                registered_at: unix_seconds(service.registered_at),
                updated_at: unix_seconds(service.updated_at),
            };
            assert(record@ =~= service_text(*service));
            state.services.put(key, record);
            i += 1;
        }
        assert(services@.take(count as int) =~= services@);
        BlokliTestStateBuilder { state }
    }

    /// Appends types of the on-chain service registry to the state.
    #[must_use]
    pub fn with_service_types(self, service_types: &Vec<([u8; 32], ServiceTypeConfig)>) -> (builder: Self)
        requires
            service_types_can_be_added(self@.service_types, service_types@),
        ensures
            builder@ == (StateView {
                service_types: service_types_added(self@.service_types, service_types@),
                ..self@
            }),
    {
        let ghost before = self@;
        let mut state = self.state;
        let count: usize = service_types.len();
        let mut i: usize = 0;
        assert(service_types@.take(0) =~= Seq::empty());
        while i < count
            invariant
                i <= count,
                count == service_types@.len(),
                service_types_can_be_added(before.service_types, service_types@),
                state@ == (StateView {
                    service_types: service_types_added(before.service_types, service_types@.take(i as int)),
                    ..before
                }),
            decreases count - i,
        {
            let entry = &service_types[i];
            proof {
                lemma_service_types_can_be_added_so_far(before.service_types, service_types@, i + 1);
                assert(service_types@.take(i + 1).drop_last() =~= service_types@.take(i as int));
                assert(service_types@.take(i + 1).last() == service_types@[i as int]);
            }
            let service_type = service_type_text(&entry.0);
            let key = service_type.clone();
            let record = ServiceTypeInfo {
                service_type,
                owner: hex_optional(&entry.1.owner),
                requirement: hex_optional(&entry.1.requirement),
                registration_burn: hopr_text(&entry.1.registration_burn),
                update_burn: hopr_text(&entry.1.update_burn),
            };
            assert(record@ =~= service_type_info(entry.0@, entry.1));
            state.service_types.put(key, record);
            i += 1;
        }
        assert(service_types@.take(count as int) =~= service_types@);
        BlokliTestStateBuilder { state }
    }

    /// Sets the registry-wide service configuration.
    #[must_use]
    pub fn with_service_registry_config(self, config: ServiceRegistryConfig) -> (builder: Self)
        ensures
            builder@ == (StateView { service_registry_config: registry_text(config), ..self@ }),
    {
        let mut state = self.state;
        state.service_registry_config = RegistryInfo {
            type_registration_fee: hopr_text(&config.type_registration_fee),
            node_safe_registry: hex_address(&config.node_safe_registry),
        };
        BlokliTestStateBuilder { state }
    }

    /// Generates accounts for the given addresses, with key ids that follow the largest in use.
    ///
    /// The off-chain keys and safe addresses are chosen deterministically using a pseudorandom function
    /// of each given address. Public accounts are announced, each of one call on a port of its own.
    #[must_use]
    pub fn with_generated_accounts(
        self,
        addresses: &Vec<Address>,
        public: bool,
        native: XDaiBalance,
        token: HoprBalance,
    ) -> (builder: Self)
        requires
            addresses@.len() > 0 ==> free_id(self@.accounts) + addresses@.len() <= 0x1_0000_0000,
            public ==> addresses@.len() <= 55536,
        ensures
            builder@ == accounts_added(
                self@,
                generated_accounts(
                    addresses@,
                    public,
                    free_id(self@.accounts),
                    token.wei.value(),
                    native.wei.value(),
                ),
            ),
            forall|i: int|
                #![trigger addresses@[i]]
                0 <= i < addresses@.len() && (forall|j: int|
                    i <= j < addresses@.len() ==> generated_safe(#[trigger] addresses@[j]) != addresses@[i]) ==> value_of(
                    builder@.native_balances,
                    hex(addresses@[i]@),
                ) == Some(
                    TokenAmountText {
                        typename: "NativeBalance"@,
                        value: units_text(native.wei.value()) + " xDai"@,
                    },
                ),
            forall|i: int|
                #![trigger addresses@[i]]
                0 <= i < addresses@.len() && (forall|j: int|
                    i < j < addresses@.len() ==> #[trigger] addresses@[j] != generated_safe(addresses@[i])) ==> value_of(
                    builder@.token_balances,
                    hex(generated_safe(addresses@[i])@),
                ) == Some(
                    TokenAmountText {
                        typename: "HoprBalance"@,
                        value: units_text(token.wei.value()) + " wxHOPR"@,
                    },
                ),
    {
        let first_id: u64 = free_key_id(&self.state);
        let mut accounts: Vec<(AccountEntry, HoprBalance, XDaiBalance)> = Vec::new();
        let ghost first = free_id(self@.accounts);
        let ghost all = generated_accounts(addresses@, public, first, token.wei.value(), native.wei.value());
        let count: usize = addresses.len();
        let mut i: usize = 0;
        assert(funded_views(accounts@) =~= all.take(0));
        while i < count
            invariant
                i <= count,
                count == addresses@.len(),
                first == first_id,
                count > 0 ==> first + count <= 0x1_0000_0000,
                public ==> count <= 55536,
                all == generated_accounts(addresses@, public, first, token.wei.value(), native.wei.value()),
                funded_views(accounts@) == all.take(i as int),
            decreases count - i,
        {
            let ghost before = accounts@;
            let account = generate_account(&addresses[i], i, public, (first_id + i as u64) as u32);
            accounts.push((account, token, native));
            proof {
                assert(funded_views(accounts@) =~= funded_views(before).push(all[i as int]));
                assert(all.take(i + 1) =~= all.take(i as int).push(all[i as int]));
            }
            i += 1;
        }
        assert(all.take(count as int) =~= all);
        proof {
            if count > 0 {
                generated_key_ids_are_new(self@, addresses@, public, token.wei.value(), native.wei.value());
            }
            let before = self@;
            let (wei, coins) = (token.wei.value(), native.wei.value());
            let after = accounts_added(before, all);
            assert forall|i: int|
                #![trigger addresses@[i]]
                0 <= i < addresses@.len() && (forall|j: int|
                    i <= j < addresses@.len() ==> generated_safe(#[trigger] addresses@[j]) != addresses@[i])
                implies value_of(after.native_balances, hex(addresses@[i]@)) == Some(
                TokenAmountText { typename: "NativeBalance"@, value: units_text(coins) + " xDai"@ },
            ) by {
                generated_accounts_have_the_native_balance(before, addresses@, public, wei, coins, i);
            }
            assert forall|i: int|
                #![trigger addresses@[i]]
                0 <= i < addresses@.len() && (forall|j: int|
                    i < j < addresses@.len() ==> #[trigger] addresses@[j] != generated_safe(addresses@[i]))
                implies value_of(after.token_balances, hex(generated_safe(addresses@[i])@)) == Some(
                TokenAmountText { typename: "HoprBalance"@, value: units_text(wei) + " wxHOPR"@ },
            ) by {
                generated_safes_hold_the_tokens(before, addresses@, public, wei, coins, i);
            }
        }
        self.with_accounts(&accounts)
    }

    /// Sets balances of accounts.
    #[must_use]
    pub fn with_balances(self, balances: &Balances) -> (builder: Self)
        ensures
            builder@ == (match balances {
                Balances::Native(amounts) => StateView {
                    native_balances: amounts_added(
                        self@.native_balances,
                        "NativeBalance"@,
                        xdai_list(amounts@),
                    ),
                    ..self@
                },
                Balances::Token(amounts) => StateView {
                    token_balances: amounts_added(self@.token_balances, "HoprBalance"@, hopr_list(amounts@)),
                    ..self@
                },
            }),
    {
        let mut state = self.state;
        match balances {
            Balances::Native(amounts) => {
                put_amounts(&mut state.native_balances, "NativeBalance", amounts);
                assert(amount_list(amounts@) =~= xdai_list(amounts@));
            },
            Balances::Token(amounts) => {
                put_amounts(&mut state.token_balances, "HoprBalance", amounts);
                assert(amount_list(amounts@) =~= hopr_list(amounts@));
            },
        }
        BlokliTestStateBuilder { state }
    }

    /// Sets the allowances of safes.
    #[must_use]
    pub fn with_safe_allowances(self, balances: &Vec<(Address, HoprBalance)>) -> (builder: Self)
        ensures
            builder@ == (StateView {
                safe_allowances: amounts_added(self@.safe_allowances, "SafeAllowance"@, hopr_list(balances@)),
                ..self@
            }),
    {
        let mut state = self.state;
        put_amounts(&mut state.safe_allowances, "SafeAllowance", balances);
        assert(amount_list(balances@) =~= hopr_list(balances@));
        BlokliTestStateBuilder { state }
    }

    /// Sets the chain and its contracts. If not set, the default values are used. The contracts read
    /// back.
    #[must_use]
    pub fn with_chain_info(self, info: &ChainInfo) -> (builder: Self)
        ensures
            builder@ == (StateView {
                chain_info: chain_described(
                    self@.chain_info,
                    info.chain_id,
                    info.hopr_network_name@,
                    info.contract_addresses,
                ),
                ..self@
            }),
            reads_as(parsed_contracts(builder@.chain_info.contract_addresses), info.contract_addresses@),
    {
        let mut state = self.state;
        state.chain_info.chain_id = low_i32(info.chain_id);
        state.chain_info.network = info.hopr_network_name.clone();
        state.chain_info.contract_addresses = contracts_text(&info.contract_addresses);
        BlokliTestStateBuilder { state }
    }

    /// Sets the chain and its contracts to those of a known network, given what they are. The contracts
    /// read back.
    #[must_use]
    pub fn with_hopr_network_chain_info(
        self,
        name: &str,
        chain_id: u64,
        contracts: &ContractAddresses,
    ) -> (builder: Self)
        ensures
            builder@ == (StateView {
                chain_info: chain_described(self@.chain_info, chain_id, name@, *contracts),
                ..self@
            }),
            reads_as(parsed_contracts(builder@.chain_info.contract_addresses), contracts@),
    {
        let mut state = self.state;
        state.chain_info.network = name.to_string();
        state.chain_info.contract_addresses = contracts_text(contracts);
        state.chain_info.chain_id = low_i32(chain_id);
        BlokliTestStateBuilder { state }
    }

    /// Sets the ticket price. If not set, the default value is used. The price reads back.
    #[must_use]
    pub fn with_ticket_price(self, price: HoprBalance) -> (builder: Self)
        ensures
            builder@ == (StateView {
                chain_info: ChainInfoText { ticket_price: hopr_words(price.wei.value()), ..self@.chain_info },
                ..self@
            }),
            reads_as(parsed_hopr(builder@.chain_info.ticket_price), price.wei.value()),
    {
        let mut state = self.state;
        state.chain_info.ticket_price = hopr_text(&price);
        BlokliTestStateBuilder { state }
    }

    /// Sets the minimum winning probability, given its bits as a floating-point number of double
    /// precision. If not set, the default value is used.
    #[must_use]
    pub fn with_minimum_win_prob(self, bits: u64) -> (builder: Self)
        ensures
            builder@ == (StateView {
                chain_info: ChainInfoText { min_ticket_winning_probability: bits, ..self@.chain_info },
                ..self@
            }),
    {
        let mut state = self.state;
        state.chain_info.min_ticket_winning_probability = bits;
        BlokliTestStateBuilder { state }
    }

    /// Sets the channel closure grace period, in whole seconds. If not set, the default value is used.
    #[must_use]
    pub fn with_closure_grace_period(self, grace_period: Duration) -> (builder: Self)
        ensures
            builder@ == (StateView {
                chain_info: ChainInfoText {
                    channel_closure_grace_period: decimal(grace_period.nanos() / NANOS_PER_SEC as nat),
                    ..self@.chain_info
                },
                ..self@
            }),
    {
        let mut state = self.state;
        state.chain_info.channel_closure_grace_period = decimal_string(grace_period.as_secs());
        BlokliTestStateBuilder { state }
    }

    /// Builds the state.
    #[must_use]
    pub fn build(self) -> (state: BlokliTestState)
        ensures
            state@ == self@,
    {
        self.state
    }
}

/// The first of the key ids above all that the accounts of a state have.
fn free_key_id(state: &BlokliTestState) -> (id: u64)
    ensures
        id == free_id(state@.accounts),
{
    let count: usize = state.accounts.len();
    let mut largest: u32 = 0;
    let mut i: usize = 0;
    while i < count
        invariant
            i <= count,
            count == state@.accounts.len(),
            largest == largest_id(state@.accounts.take(i as int)),
        decreases count - i,
    {
        let id: u32 = *state.accounts.key_at(i);
        proof {
            let upto = state@.accounts.take(i + 1);
            assert(upto.drop_last() =~= state@.accounts.take(i as int));
            assert(upto.last().0 == id);
        }
        if id > largest {
            largest = id;
        }
        i += 1;
    }
    assert(state@.accounts.take(count as int) =~= state@.accounts);
    if count == 0 {
        0
    } else {
        largest as u64 + 1
    }
}

/// Generates the account of an address.
fn generate_account(address: &Address, index: usize, public: bool, key_id: u32) -> (account: AccountEntry)
    requires
        public ==> index < 55536,
    ensures
        account@ == generated_account(*address, index as nat, public, key_id as nat),
{
    let seed = hash_create(&address.bytes);
    let public_key = offchain_public_key(&seed.bytes);
    let safe = head_of(&hash_create(&seed.bytes));
    proof {
        lemma_packet_key_from(public_key);
        lemma_address_of(safe);
    }
    let entry_type = if public {
        let port: u16 = (10000 + index) as u16;
        let peer = peer_id(&public_key);
        let mut text: String = "/ip4/1.2.3.4/udp/".to_string();
        text.append(decimal_string(port as u64).as_str());
        text.append("/p2p/");
        text.append(peer.as_str());
        assert(text@ == udp_multiaddr(port as nat, peer@));
        let mut addresses: Vec<Multiaddr> = Vec::new();
        match parse_multiaddr(text.as_str()) {
            Some(parsed) => {
                addresses.push(parsed);
            },
            None => {},
        }
        assert(addresses@.map_values(|a: Multiaddr| a@) =~= seq![
            udp_multiaddr(10000 + index as nat, peer_id_of(public_key@)),
        ]);
        AccountType::Announced(addresses)
    } else {
        AccountType::NotAnnounced
    };
    AccountEntry {
        public_key,
        chain_addr: *address,
        entry_type,
        safe_address: Some(safe),
        key_id,
    }
}

/// The packet key and the safe of a generated account depend on its address alone.
pub proof fn generated_keys_depend_on_the_address_alone(
    address: Address,
    here: (nat, bool, nat),
    there: (nat, bool, nat),
)
    ensures
        ({
            let a = generated_account(address, here.0, here.1, here.2);
            let b = generated_account(address, there.0, there.1, there.2);
            a.public_key == b.public_key && a.safe_address == b.safe_address && a.chain_addr == b.chain_addr
        }),
{
}

/// The chain's record with another chain, network and contracts.
pub open spec fn chain_described(
    info: ChainInfoText,
    chain_id: u64,
    network: Seq<char>,
    contracts: ContractAddresses,
) -> ChainInfoText {
    ChainInfoText {
        chain_id: low_half(chain_id as nat),
        network,
        contract_addresses: contracts_json(contracts),
        ..info
    }
}

/// What registering an exit node burns, in wei.
pub const GVPN_EXIT_REGISTRATION_BURN: u128 = 1_000_000_000_000_000_000_000;

/// What updating an exit node burns, in wei.
pub const GVPN_EXIT_UPDATE_BURN: u128 = 100_000_000_000_000_000_000;

/// What registering a service type costs, in wei.
pub const SERVICE_TYPE_REGISTRATION_FEE: u128 = 1_000_000_000_000_000_000;

/// The state that a builder starts from by default.
pub open spec fn default_state(state: StateView, chain_id: u64, contracts: ContractAddresses) -> StateView {
    StateView {
        chain_info: chain_described(state.chain_info, chain_id, "anvil-localhost"@, contracts),
        service_types: put(
            state.service_types,
            service_type_name(gvpn_exit_id()),
            ServiceTypeText {
                service_type: service_type_name(gvpn_exit_id()),
                owner: Some(hex(default_deployer_bytes())),
                requirement: None,
                registration_burn: hopr_words(GVPN_EXIT_REGISTRATION_BURN as nat),
                update_burn: hopr_words(GVPN_EXIT_UPDATE_BURN as nat),
            },
        ),
        service_registry_config: RegistryText {
            type_registration_fee: hopr_words(SERVICE_TYPE_REGISTRATION_FEE as nat),
            node_safe_registry: hex(contracts.node_safe_registry@),
        },
        ..state
    }
}

proof fn lemma_services_can_be_added_so_far(
    services: Seq<(Seq<char>, ServiceText)>,
    added: Seq<ServiceEntry>,
    upto: int,
)
    requires
        0 <= upto <= added.len(),
        services_can_be_added(services, added),
    ensures
        services_can_be_added(services, added.take(upto)),
    decreases added.len() - upto,
{
    if upto < added.len() {
        lemma_services_can_be_added_so_far(services, added, upto + 1);
        assert(added.take(upto + 1).drop_last() =~= added.take(upto));
    } else {
        assert(added.take(upto) =~= added);
    }
}

proof fn lemma_service_types_can_be_added_so_far(
    types: Seq<(Seq<char>, ServiceTypeText)>,
    added: Seq<([u8; 32], ServiceTypeConfig)>,
    upto: int,
)
    requires
        0 <= upto <= added.len(),
        service_types_can_be_added(types, added),
    ensures
        service_types_can_be_added(types, added.take(upto)),
    decreases added.len() - upto,
{
    if upto < added.len() {
        lemma_service_types_can_be_added_so_far(types, added, upto + 1);
        assert(added.take(upto + 1).drop_last() =~= added.take(upto));
    } else {
        assert(added.take(upto) =~= added);
    }
}

/// The service type of exit nodes is known by its name, and the deployer of a local network by its address.
pub proof fn the_defaults_are_known_by_their_texts()
    ensures
        service_type_name(gvpn_exit_id()) == "gvpn:exit"@,
        hex(default_deployer_bytes()) == "f39fd6e51aad88f6f4ce6ab8827279cfffb92266"@,
{
    lemma_gvpn_exit_is_named();
    reveal_strlit("gvpn:exit");
    reveal_strlit("f39fd6e51aad88f6f4ce6ab8827279cfffb92266");
    let name = seq![0x67u8, 0x76, 0x70, 0x6e, 0x3a, 0x65, 0x78, 0x69, 0x74];
    assert(forall|i: int| 0 <= i < name.len() ==> 0x21 <= #[trigger] name[i] <= 0x7e);
    assert(name.map_values(|byte: u8| byte as char) =~= "gvpn:exit"@);
    assert(hex(default_deployer_bytes()) =~= "f39fd6e51aad88f6f4ce6ab8827279cfffb92266"@);
}

} // verus!
