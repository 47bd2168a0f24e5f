//! What the state of a chain holds once a builder has written it.

use vstd::prelude::*;

use crate::testing::blokli::builder::{
    account_added, account_text, accounts_added, amounts_added, chain_described, channel_text, channels_added,
    default_deployer_bytes, default_state, free_id, funded_views, generated_account, generated_accounts, gvpn_exit_id, hopr_list,
    keyid_of, largest_id, lemma_largest_id, registry_text, safe_text, safes_added, service_text, service_type_info,
    service_types_added, services_added, unix_secs, xdai_list, ServiceEntry, ServiceTypeConfig,
};
use crate::testing::blokli::chain::{
    address_of, packet_key_from, readings_keep_the_bits, AccountEntry, AccountView, Address, ChannelEntry, ChannelStatus, ContractAddresses,
    DeployedSafe, HoprBalance, Timestamp, XDaiBalance,
};
use crate::testing::blokli::connector::reads::ServiceRegistryConfig;
use crate::testing::blokli::interop::{
    contracts_json, keccak256, packet_key_of, peer_id_of, rfc3339, service_type_name, units_text,
};
use crate::testing::blokli::maps::{a_put_value_is_found, put, value_of};
use crate::testing::blokli::model::{
    AccountText, ChainInfoText, RegistryText, SafeText, ServiceText, ServiceTypeText, TokenAmountText,
};
use crate::testing::blokli::state::StateView;
use crate::text::{decimal, hex, hex_reads_back};

verus! {

/// An amount of wxHOPR on record.
pub open spec fn hopr_record(typename: Seq<char>, wei: nat) -> TokenAmountText {
    TokenAmountText { typename, value: units_text(wei) + " wxHOPR"@ }
}

/// An amount of xDai on record.
pub open spec fn xdai_record(wei: nat) -> TokenAmountText {
    TokenAmountText { typename: "NativeBalance"@, value: units_text(wei) + " xDai"@ }
}

/// Two addresses are one where their texts are.
proof fn lemma_texts_tell_addresses_apart(a: Address, b: Address)
    ensures
        hex(a@) == hex(b@) ==> a == b,
{
    hex_reads_back(a@);
    hex_reads_back(b@);
    if hex(a@) == hex(b@) {
        assert(a@ == b@);
        assert(a.bytes =~= b.bytes);
    }
}

// ── Accounts ─────────────────────────────────────────────────────────────────

/// The record of an account holds its addresses and keys in hexadecimal, its announcements as they are, and
/// the 32 bits of its key id.
pub proof fn a_record_of_an_account_says_what_it_is(account: AccountView)
    ensures
        ({
            let record = account_text(account);
            &&& record.chain_key == hex(account.chain_addr@)
            &&& record.packet_key == hex(account.public_key@)
            &&& (account.key_id - record.keyid) % 0x1_0000_0000 == 0
            &&& account.announced is Some ==> record.multi_addresses == account.announced->0
            &&& account.announced is None ==> record.multi_addresses.len() == 0
            &&& account.safe_address is Some ==> record.safe_address == Some(hex(account.safe_address->0@))
            &&& account.safe_address is None ==> record.safe_address is None
        }),
{
    readings_keep_the_bits(0, account.key_id as nat);
}

/// An account without a safe has its record under its key id, its native balance under its address, and no
/// tokens. Nothing else changes.
pub proof fn an_added_account_without_a_safe(
    state: StateView,
    account: AccountView,
    hopr: nat,
    native: nat,
    id: u32,
    text: Seq<char>,
)
    requires
        account.safe_address is None,
    ensures
        ({
            let after = account_added(state, account, hopr, native);
            let own = hex(account.chain_addr@);
            &&& value_of(after.accounts, account.key_id) == Some(account_text(account))
            &&& id != account.key_id ==> value_of(after.accounts, id) == value_of(state.accounts, id)
            &&& value_of(after.native_balances, own) == Some(xdai_record(native))
            &&& value_of(after.token_balances, own) == Some(hopr_record("HoprBalance"@, 0))
            &&& text != own ==> value_of(after.native_balances, text) == value_of(state.native_balances, text)
            &&& text != own ==> value_of(after.token_balances, text) == value_of(state.token_balances, text)
            &&& after == (StateView {
                accounts: after.accounts,
                native_balances: after.native_balances,
                token_balances: after.token_balances,
                ..state
            })
        }),
{
    let own = hex(account.chain_addr@);
    a_put_value_is_found(state.accounts, account.key_id, account_text(account), id);
    a_put_value_is_found(state.native_balances, own, xdai_record(native), text);
    a_put_value_is_found(state.token_balances, own, hopr_record("HoprBalance"@, 0), text);
}

/// An account with a safe has its record under its key id and its native balance under its address. Its safe
/// is deployed, owned by the account and nobody else, and registered with no node; it holds the tokens, no
/// native coins, and an allowance of ten trillion tokens. Nothing else changes.
pub proof fn an_added_account_with_a_safe(
    state: StateView,
    account: AccountView,
    safe: Address,
    hopr: nat,
    native: nat,
    id: u32,
    text: Seq<char>,
)
    requires
        account.safe_address == Some(safe),
    ensures
        ({
            let after = account_added(state, account, hopr, native);
            let own = hex(account.chain_addr@);
            let its = hex(safe@);
            &&& value_of(after.accounts, account.key_id) == Some(account_text(account))
            &&& id != account.key_id ==> value_of(after.accounts, id) == value_of(state.accounts, id)
            &&& own != its ==> value_of(after.native_balances, own) == Some(xdai_record(native))
            &&& own != its ==> value_of(after.token_balances, own) == Some(hopr_record("HoprBalance"@, 0))
            &&& value_of(after.native_balances, its) == Some(xdai_record(0))
            &&& value_of(after.token_balances, its) == Some(hopr_record("HoprBalance"@, hopr))
            &&& value_of(after.safe_allowances, its) == Some(
                hopr_record("SafeHoprAllowance"@, 10_000_000_000_000_000_000_000_000_000_000),
            )
            &&& value_of(after.deployed_safes, its) == Some(
                SafeText {
                    address: its,
                    chain_key: own,
                    owners: seq![own],
                    module_address: hex(keccak256(account.chain_addr@).take(20)),
                    registered_nodes: Seq::empty(),
                    threshold: Some("1"@),
                },
            )
            &&& text != own && text != its ==> value_of(after.native_balances, text) == value_of(
                state.native_balances,
                text,
            )
            &&& text != own && text != its ==> value_of(after.token_balances, text) == value_of(
                state.token_balances,
                text,
            )
            &&& text != its ==> value_of(after.safe_allowances, text) == value_of(state.safe_allowances, text)
            &&& text != its ==> value_of(after.deployed_safes, text) == value_of(state.deployed_safes, text)
            &&& after == (StateView {
                accounts: after.accounts,
                native_balances: after.native_balances,
                token_balances: after.token_balances,
                safe_allowances: after.safe_allowances,
                deployed_safes: after.deployed_safes,
                ..state
            })
        }),
{
    let after = account_added(state, account, hopr, native);
    let own = hex(account.chain_addr@);
    let its = hex(safe@);
    a_put_value_is_found(state.accounts, account.key_id, account_text(account), id);
    let natives = put(state.native_balances, own, xdai_record(native));
    a_put_value_is_found(state.native_balances, own, xdai_record(native), text);
    a_put_value_is_found(natives, its, xdai_record(0), text);
    a_put_value_is_found(natives, its, xdai_record(0), own);
    let tokens = put(state.token_balances, own, hopr_record("HoprBalance"@, 0));
    a_put_value_is_found(state.token_balances, own, hopr_record("HoprBalance"@, 0), text);
    a_put_value_is_found(tokens, its, hopr_record("HoprBalance"@, hopr), text);
    a_put_value_is_found(tokens, its, hopr_record("HoprBalance"@, hopr), own);
    a_put_value_is_found(
        state.safe_allowances,
        its,
        hopr_record("SafeHoprAllowance"@, 10_000_000_000_000_000_000_000_000_000_000),
        text,
    );
    a_put_value_is_found(state.deployed_safes, its, value_of(after.deployed_safes, its)->0, text);
    a_put_value_is_found(
        state.deployed_safes,
        its,
        SafeText {
            address: its,
            chain_key: own,
            owners: seq![own],
            module_address: hex(keccak256(account.chain_addr@).take(20)),
            registered_nodes: Seq::empty(),
            threshold: Some("1"@),
        },
        text,
    );
}

/// Of accounts that are added, each with a key id of its own, every one is found under that id.
pub proof fn every_added_account_is_found(state: StateView, accounts: Seq<(AccountView, nat, nat)>, i: int)
    requires
        0 <= i < accounts.len(),
        forall|j: int| i < j < accounts.len() ==> (#[trigger] accounts[j]).0.key_id != accounts[i].0.key_id,
    ensures
        value_of(accounts_added(state, accounts).accounts, accounts[i].0.key_id) == Some(account_text(accounts[i].0)),
    decreases accounts.len(),
{
    let init = accounts.drop_last();
    let last = accounts.last();
    let before = accounts_added(state, init);
    assert(last == accounts[accounts.len() - 1]);
    a_put_value_is_found(before.accounts, last.0.key_id, account_text(last.0), accounts[i].0.key_id);
    if i < init.len() {
        assert(init[i] == accounts[i]);
        assert forall|j: int| i < j < init.len() implies (#[trigger] init[j]).0.key_id != init[i].0.key_id by {
            assert(accounts[j].0.key_id != accounts[i].0.key_id);
        }
        every_added_account_is_found(state, init, i);
    }
}

/// Every account that is added has the native balance that comes with it, unless a later account, or a safe
/// of its own or a later account, has its address.
pub proof fn every_added_account_has_its_native_balance(
    state: StateView,
    accounts: Seq<(AccountView, nat, nat)>,
    i: int,
)
    requires
        0 <= i < accounts.len(),
        forall|j: int|
            i < j < accounts.len() ==> (#[trigger] accounts[j]).0.chain_addr == accounts[i].0.chain_addr
                ==> accounts[j].2 == accounts[i].2,
        forall|j: int|
            i <= j < accounts.len() ==> (#[trigger] accounts[j]).0.safe_address != Some(accounts[i].0.chain_addr),
    ensures
        value_of(accounts_added(state, accounts).native_balances, hex(accounts[i].0.chain_addr@)) == Some(
            xdai_record(accounts[i].2),
        ),
    decreases accounts.len(),
{
    let init = accounts.drop_last();
    let last = accounts.last();
    let before = accounts_added(state, init);
    let text = hex(accounts[i].0.chain_addr@);
    assert(last == accounts[accounts.len() - 1]);
    lemma_texts_tell_addresses_apart(last.0.chain_addr, accounts[i].0.chain_addr);
    match last.0.safe_address {
        Some(safe) => {
            lemma_texts_tell_addresses_apart(safe, accounts[i].0.chain_addr);
            an_added_account_with_a_safe(before, last.0, safe, last.1, last.2, 0, text);
        },
        None => {
            an_added_account_without_a_safe(before, last.0, last.1, last.2, 0, text);
        },
    }
    if i < init.len() && last.0.chain_addr != accounts[i].0.chain_addr {
        assert(init[i] == accounts[i]);
        assert forall|j: int|
            i < j < init.len() && (#[trigger] init[j]).0.chain_addr == init[i].0.chain_addr implies init[j].2
            == init[i].2 by {
            assert(accounts[j] == init[j]);
        }
        assert forall|j: int| i <= j < init.len() implies (#[trigger] init[j]).0.safe_address != Some(
            init[i].0.chain_addr,
        ) by {
            assert(accounts[j] == init[j]);
        }
        every_added_account_has_its_native_balance(state, init, i);
    }
}

/// The safe of every account that is added holds the tokens that come with the account, unless a later
/// account has its address, or its safe with other tokens.
pub proof fn every_added_safe_holds_its_tokens(
    state: StateView,
    accounts: Seq<(AccountView, nat, nat)>,
    i: int,
    safe: Address,
)
    requires
        0 <= i < accounts.len(),
        accounts[i].0.safe_address == Some(safe),
        forall|j: int| i < j < accounts.len() ==> (#[trigger] accounts[j]).0.chain_addr != safe,
        forall|j: int|
            i < j < accounts.len() ==> (#[trigger] accounts[j]).0.safe_address == Some(safe) ==> accounts[j].1
                == accounts[i].1,
    ensures
        value_of(accounts_added(state, accounts).token_balances, hex(safe@)) == Some(
            hopr_record("HoprBalance"@, accounts[i].1),
        ),
    decreases accounts.len(),
{
    let init = accounts.drop_last();
    let last = accounts.last();
    let before = accounts_added(state, init);
    assert(last == accounts[accounts.len() - 1]);
    lemma_texts_tell_addresses_apart(last.0.chain_addr, safe);
    match last.0.safe_address {
        Some(other) => {
            lemma_texts_tell_addresses_apart(other, safe);
            an_added_account_with_a_safe(before, last.0, other, last.1, last.2, 0, hex(safe@));
        },
        None => {
            an_added_account_without_a_safe(before, last.0, last.1, last.2, 0, hex(safe@));
        },
    }
    if i < init.len() && last.0.safe_address != Some(safe) {
        assert(init[i] == accounts[i]);
        assert forall|j: int| i < j < init.len() implies (#[trigger] init[j]).0.chain_addr != safe by {
            assert(accounts[j] == init[j]);
        }
        assert forall|j: int|
            i < j < init.len() && (#[trigger] init[j]).0.safe_address == Some(safe) implies init[j].1 == init[i].1 by {
            assert(accounts[j] == init[j]);
        }
        every_added_safe_holds_its_tokens(state, init, i, safe);
    }
}

// ── Generated accounts ───────────────────────────────────────────────────────

/// The safe that is generated for an address: the first twenty bytes of the digest of its digest.
pub open spec fn generated_safe(address: Address) -> Address {
    address_of(keccak256(keccak256(address@)).take(20))
}

/// Generating accounts gives every address the native balance that was asked for, whatever the amount, as
/// long as no generated safe has the address.
pub proof fn generated_accounts_have_the_native_balance(
    state: StateView,
    addresses: Seq<Address>,
    public: bool,
    token: nat,
    native: nat,
    i: int,
)
    requires
        0 <= i < addresses.len(),
        forall|j: int| i <= j < addresses.len() ==> generated_safe(#[trigger] addresses[j]) != addresses[i],
    ensures
        ({
            let after = accounts_added(
                state,
                generated_accounts(addresses, public, free_id(state.accounts), token, native),
            );
            value_of(after.native_balances, hex(addresses[i]@)) == Some(
                TokenAmountText { typename: "NativeBalance"@, value: units_text(native) + " xDai"@ },
            )
        }),
{
    let all = generated_accounts(addresses, public, free_id(state.accounts), token, native);
    assert forall|j: int| i <= j < all.len() implies (#[trigger] all[j]).0.safe_address != Some(
        all[i].0.chain_addr,
    ) by {
        assert(generated_safe(addresses[j]) != addresses[i]);
    }
    every_added_account_has_its_native_balance(state, all, i);
}

/// Generating accounts gives the safe of every address the tokens that were asked for, whatever the amount,
/// as long as none of the addresses after it is that safe.
pub proof fn generated_safes_hold_the_tokens(
    state: StateView,
    addresses: Seq<Address>,
    public: bool,
    token: nat,
    native: nat,
    i: int,
)
    requires
        0 <= i < addresses.len(),
        forall|j: int| i < j < addresses.len() ==> #[trigger] addresses[j] != generated_safe(addresses[i]),
    ensures
        ({
            let after = accounts_added(
                state,
                generated_accounts(addresses, public, free_id(state.accounts), token, native),
            );
            value_of(after.token_balances, hex(generated_safe(addresses[i])@)) == Some(
                TokenAmountText { typename: "HoprBalance"@, value: units_text(token) + " wxHOPR"@ },
            )
        }),
{
    let all = generated_accounts(addresses, public, free_id(state.accounts), token, native);
    assert forall|j: int| i < j < all.len() implies (#[trigger] all[j]).0.chain_addr != generated_safe(
        addresses[i],
    ) by {
        assert(addresses[j] != generated_safe(addresses[i]));
    }
    every_added_safe_holds_its_tokens(state, all, i, generated_safe(addresses[i]));
}

/// Generating accounts writes a record for every address, under the key ids that follow the largest in use,
/// in the order of the addresses. It names the address, the safe and the packet key that belong to the
/// address, and announces it on a port of its own exactly where it is to be public.
pub proof fn generated_accounts_are_on_record(
    state: StateView,
    addresses: Seq<Address>,
    public: bool,
    token: nat,
    native: nat,
    i: int,
    id: u32,
)
    requires
        0 <= i < addresses.len(),
        free_id(state.accounts) + addresses.len() <= 0x1_0000_0000,
        id == free_id(state.accounts) + i,
    ensures
        ({
            let after = accounts_added(
                state,
                generated_accounts(addresses, public, free_id(state.accounts), token, native),
            );
            let record = value_of(after.accounts, id);
            let key = packet_key_of(keccak256(addresses[i]@));
            &&& record is Some
            &&& record->0.chain_key == hex(addresses[i]@)
            &&& record->0.safe_address == Some(hex(generated_safe(addresses[i])@))
            &&& record->0.packet_key == hex(packet_key_from(key)@)
            &&& (id - record->0.keyid) % 0x1_0000_0000 == 0
            &&& public ==> record->0.multi_addresses == seq![
                "/ip4/1.2.3.4/udp/"@ + decimal((10_000 + i) as nat) + "/p2p/"@ + peer_id_of(key),
            ]
            &&& !public ==> record->0.multi_addresses.len() == 0
        }),
{
    let first = free_id(state.accounts);
    let all = generated_accounts(addresses, public, first, token, native);
    assert(all[i].0 == generated_account(addresses[i], i as nat, public, first + i as nat));
    assert(all[i].0.key_id == id);
    assert forall|j: int| i < j < all.len() implies (#[trigger] all[j]).0.key_id != all[i].0.key_id by {
        assert(all[j].0 == generated_account(addresses[j], j as nat, public, first + j as nat));
    }
    every_added_account_is_found(state, all, i);
    a_record_of_an_account_says_what_it_is(all[i].0);
}

/// Key ids go on from the largest in use: every one in use is below the first that is free, and where none is
/// in use that is zero.
pub proof fn key_ids_go_on_from_the_largest(state: StateView, i: int)
    ensures
        state.accounts.len() == 0 ==> free_id(state.accounts) == 0,
        0 <= i < state.accounts.len() ==> state.accounts[i].0 < free_id(state.accounts),
        state.accounts.len() > 0 ==> exists|j: int|
            0 <= j < state.accounts.len() && (#[trigger] state.accounts[j]).0 + 1 == free_id(state.accounts),
{
    lemma_largest_id(state.accounts);
    if state.accounts.len() > 0 {
        lemma_largest_id_is_in_use(state.accounts);
    }
}

proof fn lemma_largest_id_is_in_use(accounts: Seq<(u32, AccountText)>)
    requires
        accounts.len() > 0,
    ensures
        exists|j: int|
            0 <= j < accounts.len() && (#[trigger] accounts[j]).0 == largest_id(accounts),
    decreases accounts.len(),
{
    reveal_with_fuel(largest_id, 2);
    let init = accounts.drop_last();
    if accounts.last().0 == largest_id(accounts) {
        assert(accounts[accounts.len() - 1].0 == largest_id(accounts));
    } else {
        lemma_largest_id_is_in_use(init);
        let j = choose|j: int| 0 <= j < init.len() && (#[trigger] init[j]).0 == largest_id(init);
        assert(accounts[j] == init[j]);
    }
}

// ── Balances and allowances ──────────────────────────────────────────────────

/// An amount that is set is found under its address unless a later one has the same address; under every
/// address that none has, it is as before.
pub proof fn an_amount_is_found_under_its_address(
    amounts: Seq<(Seq<char>, TokenAmountText)>,
    typename: Seq<char>,
    added: Seq<(Address, Seq<char>)>,
    i: int,
    text: Seq<char>,
)
    ensures
        0 <= i < added.len() && (forall|j: int| i < j < added.len() ==> (#[trigger] added[j]).0 != added[i].0)
            ==> value_of(amounts_added(amounts, typename, added), hex(added[i].0@)) == Some(
            TokenAmountText { typename, value: added[i].1 },
        ),
        (forall|j: int| 0 <= j < added.len() ==> hex((#[trigger] added[j]).0@) != text) ==> value_of(
            amounts_added(amounts, typename, added),
            text,
        ) == value_of(amounts, text),
    decreases added.len(),
{
    if added.len() > 0 {
        let init = added.drop_last();
        let last = added.last();
        let record = TokenAmountText { typename, value: last.1 };
        let before = amounts_added(amounts, typename, init);
        assert(last == added[added.len() - 1]);
        an_amount_is_found_under_its_address(amounts, typename, init, i, text);
        a_put_value_is_found(before, hex(last.0@), record, text);
        if 0 <= i < added.len() {
            lemma_texts_tell_addresses_apart(last.0, added[i].0);
            a_put_value_is_found(before, hex(last.0@), record, hex(added[i].0@));
            if i < init.len() {
                assert(init[i] == added[i]);
                if forall|j: int| i < j < added.len() ==> (#[trigger] added[j]).0 != added[i].0 {
                    assert forall|j: int| i < j < init.len() implies (#[trigger] init[j]).0 != init[i].0 by {
                        assert(init[j] == added[j]);
                    }
                }
            }
        }
        if forall|j: int| 0 <= j < added.len() ==> hex((#[trigger] added[j]).0@) != text {
            assert forall|j: int| 0 <= j < init.len() implies hex((#[trigger] init[j]).0@) != text by {
                assert(init[j] == added[j]);
            }
        }
    }
}

/// Amounts are written in units of their own currency, each for its own address.
pub proof fn amounts_are_written_in_their_currency(
    hopr: Seq<(Address, HoprBalance)>,
    xdai: Seq<(Address, XDaiBalance)>,
    i: int,
)
    ensures
        hopr_list(hopr).len() == hopr.len(),
        xdai_list(xdai).len() == xdai.len(),
        0 <= i < hopr.len() ==> hopr_list(hopr)[i] == (
            hopr[i].0,
            units_text(hopr[i].1.wei.value()) + " wxHOPR"@,
        ),
        0 <= i < xdai.len() ==> xdai_list(xdai)[i] == (xdai[i].0, units_text(xdai[i].1.wei.value()) + " xDai"@),
{
}

// ── Channels ─────────────────────────────────────────────────────────────────

/// The record of a channel names its ends by the key ids of the first accounts with their addresses, and holds
/// its balance in words, its ticket index in decimal, the 32 bits of its epoch, its status, and, where it is
/// closing, the second and the nanosecond of its closing.
pub proof fn a_record_of_a_channel_says_what_it_is(
    accounts: Seq<(u32, AccountText)>,
    channel: ChannelEntry,
    source: int,
    destination: int,
    secs: i64,
    nanos: u32,
)
    requires
        0 <= source < accounts.len(),
        accounts[source].1.chain_key == hex(channel.source@),
        forall|j: int| 0 <= j < source ==> (#[trigger] accounts[j]).1.chain_key != hex(channel.source@),
        0 <= destination < accounts.len(),
        accounts[destination].1.chain_key == hex(channel.destination@),
        forall|j: int| 0 <= j < destination ==> (#[trigger] accounts[j]).1.chain_key != hex(channel.destination@),
        channel.status matches ChannelStatus::PendingToClose(time) ==> time.nanos == secs * 1_000_000_000 + nanos && nanos
            < 1_000_000_000,
    ensures
        ({
            let record = channel_text(accounts, channel);
            &&& record.source == accounts[source].1.keyid
            &&& record.destination == accounts[destination].1.keyid
            &&& record.concrete_channel_id == hex(channel.id@)
            &&& record.balance == units_text(channel.balance.wei.value()) + " wxHOPR"@
            &&& record.ticket_index == decimal(channel.ticket_index as nat)
            &&& (channel.channel_epoch - record.epoch) % 0x1_0000_0000 == 0
            &&& channel.status is Open <==> record.status is Open
            &&& channel.status is Closed <==> record.status is Closed
            &&& channel.status is PendingToClose ==> record.closure_time == rfc3339(secs, nanos)
            &&& !(channel.status is PendingToClose) ==> record.closure_time is None
        }),
{
    readings_keep_the_bits(0, channel.channel_epoch as nat);
    lemma_first_key_id(accounts, hex(channel.source@), source);
    lemma_first_key_id(accounts, hex(channel.destination@), destination);
    if let ChannelStatus::PendingToClose(time) = channel.status {
        vstd::arithmetic::div_mod::lemma_fundamental_div_mod_converse(
            time.nanos as int,
            1_000_000_000,
            secs as int,
            nanos as int,
        );
    }
}

proof fn lemma_first_key_id(accounts: Seq<(u32, AccountText)>, chain_key: Seq<char>, first: int)
    requires
        0 <= first < accounts.len(),
        accounts[first].1.chain_key == chain_key,
        forall|j: int| 0 <= j < first ==> (#[trigger] accounts[j]).1.chain_key != chain_key,
    ensures
        keyid_of(accounts, chain_key) == Some(accounts[first].1.keyid),
{
    let keys = accounts.map_values(|entry: (u32, AccountText)| entry.1.chain_key);
    keys.index_of_first_ensures(chain_key);
    assert(keys[first] == chain_key);
    if let Some(i) = keys.index_of_first(chain_key) {
        if i < first {
            assert(accounts[i].1.chain_key != chain_key);
        } else if i > first {
            assert(keys[first] != chain_key);
        }
    }
}

/// Of channels that are added, every one is found under its id unless a later one has the same id, as its
/// record among the accounts of the state; nothing else changes.
pub proof fn every_added_channel_is_found(state: StateView, channels: Seq<ChannelEntry>, i: int, text: Seq<char>)
    ensures
        0 <= i < channels.len() && (forall|j: int|
            i < j < channels.len() ==> hex((#[trigger] channels[j]).id@) != hex(channels[i].id@)) ==> value_of(
            channels_added(state, channels).channels,
            hex(channels[i].id@),
        ) == Some(channel_text(state.accounts, channels[i])),
        (forall|j: int| 0 <= j < channels.len() ==> hex((#[trigger] channels[j]).id@) != text) ==> value_of(
            channels_added(state, channels).channels,
            text,
        ) == value_of(state.channels, text),
        channels_added(state, channels) == (StateView {
            channels: channels_added(state, channels).channels,
            ..state
        }),
    decreases channels.len(),
{
    if channels.len() > 0 {
        let init = channels.drop_last();
        let last = channels.last();
        let record = channel_text(state.accounts, last);
        let before = channels_added(state, init);
        assert(last == channels[channels.len() - 1]);
        every_added_channel_is_found(state, init, i, text);
        a_put_value_is_found(before.channels, hex(last.id@), record, text);
        if 0 <= i < channels.len() {
            a_put_value_is_found(before.channels, hex(last.id@), record, hex(channels[i].id@));
            if i < init.len() {
                assert(init[i] == channels[i]);
                if forall|j: int| i < j < channels.len() ==> hex((#[trigger] channels[j]).id@) != hex(channels[i].id@) {
                    assert forall|j: int| i < j < init.len() implies hex((#[trigger] init[j]).id@) != hex(init[i].id@) by {
                        assert(init[j] == channels[j]);
                    }
                }
            }
        }
        if forall|j: int| 0 <= j < channels.len() ==> hex((#[trigger] channels[j]).id@) != text {
            assert forall|j: int| 0 <= j < init.len() implies hex((#[trigger] init[j]).id@) != text by {
                assert(init[j] == channels[j]);
            }
        }
    }
}

// ── Safes and services ───────────────────────────────────────────────────────

/// Of safes that are deployed, every one is found under its address unless a later one has the same address,
/// with its deployer, its owners, its module and its nodes each in their own place; under every address that
/// none has, it is as before.
pub proof fn every_deployed_safe_is_found(
    safes: Seq<(Seq<char>, SafeText)>,
    added: Seq<DeployedSafe>,
    i: int,
    text: Seq<char>,
)
    ensures
        0 <= i < added.len() && (forall|j: int| i < j < added.len() ==> (#[trigger] added[j]).address != added[i].address)
            ==> {
            let found = value_of(safes_added(safes, added), hex(added[i].address@));
            &&& found is Some
            &&& found->0.address == hex(added[i].address@)
            &&& found->0.chain_key == hex(added[i].deployer@)
            &&& found->0.module_address == hex(added[i].module@)
            &&& found->0.threshold == Some("1"@)
            &&& found->0.owners.len() == added[i].owners@.len()
            &&& forall|k: int|
                0 <= k < added[i].owners@.len() ==> #[trigger] found->0.owners[k] == hex(added[i].owners@[k]@)
            &&& found->0.registered_nodes.len() == added[i].registered_nodes@.len()
            &&& forall|k: int|
                0 <= k < added[i].registered_nodes@.len() ==> #[trigger] found->0.registered_nodes[k] == hex(
                    added[i].registered_nodes@[k]@,
                )
        },
        (forall|j: int| 0 <= j < added.len() ==> hex((#[trigger] added[j]).address@) != text) ==> value_of(
            safes_added(safes, added),
            text,
        ) == value_of(safes, text),
    decreases added.len(),
{
    if added.len() > 0 {
        let init = added.drop_last();
        let last = added.last();
        let before = safes_added(safes, init);
        assert(last == added[added.len() - 1]);
        every_deployed_safe_is_found(safes, init, i, text);
        a_put_value_is_found(before, hex(last.address@), safe_text(last), text);
        if 0 <= i < added.len() {
            lemma_texts_tell_addresses_apart(last.address, added[i].address);
            a_put_value_is_found(before, hex(last.address@), safe_text(last), hex(added[i].address@));
            if i < init.len() {
                assert(init[i] == added[i]);
                if forall|j: int| i < j < added.len() ==> (#[trigger] added[j]).address != added[i].address {
                    assert forall|j: int| i < j < init.len() implies (#[trigger] init[j]).address != init[i].address by {
                        assert(init[j] == added[j]);
                    }
                }
            }
        }
        if forall|j: int| 0 <= j < added.len() ==> hex((#[trigger] added[j]).address@) != text {
            assert forall|j: int| 0 <= j < init.len() implies hex((#[trigger] init[j]).address@) != text by {
                assert(init[j] == added[j]);
            }
        }
    }
}

/// The record of a service holds the name of its type, its node and its safe, its metadata in prefixed
/// hexadecimal, and the whole seconds of its two times, each in its own place.
pub proof fn a_record_of_a_service_says_what_it_is(service: ServiceEntry, registered: nat, updated: nat)
    requires
        registered * 1_000_000_000 <= service.registered_at.nanos < (registered + 1) * 1_000_000_000,
        updated * 1_000_000_000 <= service.updated_at.nanos < (updated + 1) * 1_000_000_000,
    ensures
        ({
            let record = service_text(service);
            &&& record.service_type == service_type_name(service.service_type@)
            &&& record.node == hex(service.node@)
            &&& record.safe == hex(service.safe@)
            &&& record.metadata == "0x"@ + hex(service.metadata@)
            &&& record.registered_at == decimal(registered)
            &&& record.updated_at == decimal(updated)
        }),
{
    lemma_whole_seconds(service.registered_at, registered);
    lemma_whole_seconds(service.updated_at, updated);
}

proof fn lemma_whole_seconds(time: Timestamp, secs: nat)
    requires
        secs * 1_000_000_000 <= time.nanos < (secs + 1) * 1_000_000_000,
    ensures
        unix_secs(time) == secs,
{
    vstd::arithmetic::div_mod::lemma_fundamental_div_mod_converse(
        time.nanos as int,
        1_000_000_000,
        secs as int,
        time.nanos - secs * 1_000_000_000,
    );
}

/// Of services that are added, every one is found under its node and type unless a later one has the same
/// text for them; under every other text it is as before.
pub proof fn every_added_service_is_found(
    services: Seq<(Seq<char>, ServiceText)>,
    added: Seq<ServiceEntry>,
    i: int,
    text: Seq<char>,
)
    ensures
        0 <= i < added.len() && (forall|j: int|
            i < j < added.len() ==> hex((#[trigger] added[j]).node@) + service_type_name(added[j].service_type@) != hex(
                added[i].node@,
            ) + service_type_name(added[i].service_type@)) ==> value_of(
            services_added(services, added),
            hex(added[i].node@) + service_type_name(added[i].service_type@),
        ) == Some(service_text(added[i])),
        (forall|j: int|
            0 <= j < added.len() ==> hex((#[trigger] added[j]).node@) + service_type_name(added[j].service_type@) != text)
            ==> value_of(services_added(services, added), text) == value_of(services, text),
    decreases added.len(),
{
    if added.len() > 0 {
        let init = added.drop_last();
        let last = added.last();
        let before = services_added(services, init);
        let key = hex(last.node@) + service_type_name(last.service_type@);
        assert(last == added[added.len() - 1]);
        every_added_service_is_found(services, init, i, text);
        a_put_value_is_found(before, key, service_text(last), text);
        if 0 <= i < added.len() {
            let own = hex(added[i].node@) + service_type_name(added[i].service_type@);
            a_put_value_is_found(before, key, service_text(last), own);
            if i < init.len() {
                assert(init[i] == added[i]);
                if forall|j: int|
                    i < j < added.len() ==> hex((#[trigger] added[j]).node@) + service_type_name(added[j].service_type@)
                        != own {
                    assert forall|j: int| i < j < init.len() implies hex((#[trigger] init[j]).node@)
                        + service_type_name(init[j].service_type@) != own by {
                        assert(init[j] == added[j]);
                    }
                }
            }
        }
        if forall|j: int|
            0 <= j < added.len() ==> hex((#[trigger] added[j]).node@) + service_type_name(added[j].service_type@)
                != text {
            assert forall|j: int| 0 <= j < init.len() implies hex((#[trigger] init[j]).node@) + service_type_name(
                init[j].service_type@,
            ) != text by {
                assert(init[j] == added[j]);
            }
        }
    }
}

/// The record of a service type holds its name, its owner and its requirement where it has them, and what it
/// burns, each in its own place.
pub proof fn a_record_of_a_service_type_says_what_it_is(id: Seq<u8>, config: ServiceTypeConfig)
    ensures
        ({
            let record = service_type_info(id, config);
            &&& record.service_type == service_type_name(id)
            &&& config.owner is Some ==> record.owner == Some(hex(config.owner->0@))
            &&& config.owner is None ==> record.owner is None
            &&& config.requirement is Some ==> record.requirement == Some(hex(config.requirement->0@))
            &&& config.requirement is None ==> record.requirement is None
            &&& record.registration_burn == units_text(config.registration_burn.wei.value()) + " wxHOPR"@
            &&& record.update_burn == units_text(config.update_burn.wei.value()) + " wxHOPR"@
        }),
{
}

/// Of service types that are added, every one is found under its name unless a later one has the same name;
/// under every other name it is as before.
pub proof fn every_added_service_type_is_found(
    types: Seq<(Seq<char>, ServiceTypeText)>,
    added: Seq<([u8; 32], ServiceTypeConfig)>,
    i: int,
    text: Seq<char>,
)
    ensures
        0 <= i < added.len() && (forall|j: int|
            i < j < added.len() ==> service_type_name((#[trigger] added[j]).0@) != service_type_name(added[i].0@))
            ==> value_of(service_types_added(types, added), service_type_name(added[i].0@)) == Some(
            service_type_info(added[i].0@, added[i].1),
        ),
        (forall|j: int| 0 <= j < added.len() ==> service_type_name((#[trigger] added[j]).0@) != text) ==> value_of(
            service_types_added(types, added),
            text,
        ) == value_of(types, text),
    decreases added.len(),
{
    if added.len() > 0 {
        let init = added.drop_last();
        let last = added.last();
        let before = service_types_added(types, init);
        let record = service_type_info(last.0@, last.1);
        assert(last == added[added.len() - 1]);
        every_added_service_type_is_found(types, init, i, text);
        a_put_value_is_found(before, service_type_name(last.0@), record, text);
        if 0 <= i < added.len() {
            let own = service_type_name(added[i].0@);
            a_put_value_is_found(before, service_type_name(last.0@), record, own);
            if i < init.len() {
                assert(init[i] == added[i]);
                if forall|j: int| i < j < added.len() ==> service_type_name((#[trigger] added[j]).0@) != own {
                    assert forall|j: int| i < j < init.len() implies service_type_name((#[trigger] init[j]).0@) != own by {
                        assert(init[j] == added[j]);
                    }
                }
            }
        }
        if forall|j: int| 0 <= j < added.len() ==> service_type_name((#[trigger] added[j]).0@) != text {
            assert forall|j: int| 0 <= j < init.len() implies service_type_name((#[trigger] init[j]).0@) != text by {
                assert(init[j] == added[j]);
            }
        }
    }
}

// ── The chain ────────────────────────────────────────────────────────────────

/// Describing a chain sets its id, by its low 32 bits, its network and its contracts, and leaves its ticket
/// price, its fee, its grace period, its separators and its winning probability alone.
pub proof fn a_described_chain_keeps_its_other_values(
    info: ChainInfoText,
    chain_id: u64,
    network: Seq<char>,
    contracts: ContractAddresses,
)
    ensures
        ({
            let after = chain_described(info, chain_id, network, contracts);
            &&& (chain_id - after.chain_id) % 0x1_0000_0000 == 0
            &&& after.network == network
            &&& after.contract_addresses == contracts_json(contracts)
            &&& after == (ChainInfoText {
                chain_id: after.chain_id,
                network: after.network,
                contract_addresses: after.contract_addresses,
                ..info
            })
        }),
{
    readings_keep_the_bits(0, chain_id as nat);
}

/// The settings of the service registry are written in units of wxHOPR and in hexadecimal.
pub proof fn registry_settings_are_written_as_they_are(config: ServiceRegistryConfig)
    ensures
        registry_text(config).type_registration_fee == units_text(config.type_registration_fee.wei.value()) + " wxHOPR"@,
        registry_text(config).node_safe_registry == hex(config.node_safe_registry@),
{
}

/// By default the chain is a local test network with one service type, that of exit nodes, which belongs to
/// the deployer of the contracts and burns a thousand tokens to register and a hundred to update; registering
/// a type costs one token. Nothing else of the state changes.
pub proof fn the_default_chain_is_a_local_network(
    state: StateView,
    chain_id: u64,
    contracts: ContractAddresses,
    text: Seq<char>,
)
    ensures
        ({
            let after = default_state(state, chain_id, contracts);
            let name = service_type_name(gvpn_exit_id());
            let found = value_of(after.service_types, name);
            &&& after.chain_info.network == "anvil-localhost"@
            &&& after.chain_info.contract_addresses == contracts_json(contracts)
            &&& (chain_id - after.chain_info.chain_id) % 0x1_0000_0000 == 0
            &&& found is Some
            &&& found->0.service_type == name
            &&& found->0.owner == Some(hex(default_deployer_bytes()))
            &&& found->0.requirement is None
            &&& found->0.registration_burn == units_text(1_000_000_000_000_000_000_000) + " wxHOPR"@
            &&& found->0.update_burn == units_text(100_000_000_000_000_000_000) + " wxHOPR"@
            &&& text != name ==> value_of(after.service_types, text) == value_of(state.service_types, text)
            &&& after.service_registry_config.type_registration_fee == units_text(1_000_000_000_000_000_000) + " wxHOPR"@
            &&& after.service_registry_config.node_safe_registry == hex(contracts.node_safe_registry@)
            &&& after == (StateView {
                chain_info: after.chain_info,
                service_types: after.service_types,
                service_registry_config: after.service_registry_config,
                ..state
            })
        }),
{
    let after = default_state(state, chain_id, contracts);
    let name = service_type_name(gvpn_exit_id());
    a_described_chain_keeps_its_other_values(state.chain_info, chain_id, "anvil-localhost"@, contracts);
    let record = ServiceTypeText {
        service_type: name,
        owner: Some(hex(default_deployer_bytes())),
        requirement: None,
        registration_burn: units_text(1_000_000_000_000_000_000_000) + " wxHOPR"@,
        update_burn: units_text(100_000_000_000_000_000_000) + " wxHOPR"@,
    };
    a_put_value_is_found(state.service_types, name, record, text);
    assert(after.service_types == put(state.service_types, name, record));
}

/// What comes with an account is taken as it is given: first what its safe holds, then what it holds itself.
pub proof fn accounts_come_with_their_own_amounts(
    accounts: Seq<(AccountEntry, HoprBalance, XDaiBalance)>,
    i: int,
)
    ensures
        funded_views(accounts).len() == accounts.len(),
        0 <= i < accounts.len() ==> {
            &&& funded_views(accounts)[i].0 == accounts[i].0@
            &&& funded_views(accounts)[i].1 == accounts[i].1.wei.value()
            &&& funded_views(accounts)[i].2 == accounts[i].2.wei.value()
        },
{
}

/// A bare chain has its own record and settings, and nothing on it.
pub proof fn a_bare_chain_has_nothing_on_it(chain_info: ChainInfoText, registry: RegistryText)
    ensures
        ({
            let state = StateView::bare(chain_info, registry);
            &&& state.chain_info == chain_info && state.service_registry_config == registry
            &&& state.accounts.len() == 0 && state.channels.len() == 0 && state.deployed_safes.len() == 0
            &&& state.token_balances.len() == 0 && state.native_balances.len() == 0
            &&& state.safe_allowances.len() == 0 && state.services.len() == 0 && state.service_types.len() == 0
        }),
{
}

/// Accounts are added one by one, each to the state that those before it have left.
pub proof fn accounts_are_added_one_by_one(
    state: StateView,
    accounts: Seq<(AccountView, nat, nat)>,
    next: (AccountView, nat, nat),
)
    ensures
        accounts_added(state, Seq::empty()) == state,
        accounts_added(state, accounts.push(next)) == account_added(
            accounts_added(state, accounts),
            next.0,
            next.1,
            next.2,
        ),
{
    assert(accounts.push(next).drop_last() =~= accounts);
}

} // verus!
