//! From the API's records to the chain's values.

use vstd::prelude::*;

use crate::testing::blokli::chain::{
    address_of, contracts_of, digest_of, lemma_address_of, lemma_contracts_of, lemma_digest_of, lemma_packet_key_from,
    lemma_halves, lemma_u256_of, packet_key_from, u256_max, u256_of, wrap_u32, wrap_u64, wrapped_u32, wrapped_u64, AccountEntry, AccountType,
    AccountView, Address, ChainInfo, ChannelEntry, ChannelStatus, ContractAddresses, DeployedSafe, Digest,
    DomainSeparators, HoprBalance, Multiaddr, PacketKey, StatusKind, Timestamp, WinningProbability, XDaiBalance,
};
use crate::testing::blokli::connector::{outcome_of, result_view, ErrorView, Field, TestConnectorError};
use crate::testing::blokli::interop::{
    address_error, build_channel, canonical_multiaddr, channel_error, channel_is_valid, hash_error, keccak256,
    packet_key_error, parse_address, parse_contracts, parse_hash, parse_hopr, parse_multiaddr, parse_packet_key,
    parse_time, parse_xdai, parsed_contracts, parsed_hopr, parsed_time, parsed_xdai, reads_as,
    refused_with,
};
use crate::testing::blokli::model::{
    texts, Account, AccountText, ChainInfoRecord, ChainInfoText, Channel, ChannelText, RedeemedStats, Safe, SafeText,
};
use crate::text::{bounded_value, hex_bytes, number_error, parse_u64};
use crate::time::{Duration, NANOS_PER_SEC};

verus! {

// ── Accounts ─────────────────────────────────────────────────────────────────

/// The canonical forms of those texts that spell a multiaddress, in their order.
pub open spec fn canonical_addresses(addresses: Seq<Seq<char>>) -> Seq<Seq<char>>
    decreases addresses.len(),
{
    if addresses.len() == 0 {
        Seq::empty()
    } else {
        let rest = canonical_addresses(addresses.drop_last());
        match canonical_multiaddr(addresses.last()) {
            Some(address) => rest.push(address),
            None => rest,
        }
    }
}

/// What an account record stands for: announced where it has any address, readable or not. Its keys
/// are read in the order packet key, chain key, safe address, and the first that cannot be is the
/// error.
pub open spec fn converted_account(model: AccountText) -> Result<AccountView, ErrorView> {
    match (hex_bytes(model.packet_key, 32), hex_bytes(model.chain_key, 20)) {
        (None, _) => Err(ErrorView::Invalid(Field::PacketKey, packet_key_error(model.packet_key))),
        (_, None) => Err(ErrorView::Invalid(Field::ChainKey, address_error(model.chain_key))),
        (Some(packet_key), Some(chain_key)) => {
            let account = AccountView {
                public_key: packet_key_from(packet_key),
                chain_addr: address_of(chain_key),
                announced: if model.multi_addresses.len() > 0 {
                    Some(canonical_addresses(model.multi_addresses))
                } else {
                    None
                },
                safe_address: None,
                key_id: wrapped_u32(model.keyid),
            };
            match model.safe_address {
                None => Ok(account),
                Some(text) => match hex_bytes(text, 20) {
                    Some(safe) => Ok(AccountView { safe_address: Some(address_of(safe)), ..account }),
                    None => Err(ErrorView::Invalid(Field::SafeAddress, address_error(text))),
                },
            }
        },
    }
}

/// Reads an account record.
pub fn convert_account_model(model: &Account) -> (account: Result<AccountEntry, TestConnectorError>)
    ensures
        result_view(account) == converted_account(model@),
{
    let count: usize = model.multi_addresses.len();
    let mut addresses: Vec<Multiaddr> = Vec::new();
    let mut i: usize = 0;
    assert(texts(model.multi_addresses@).take(0) =~= Seq::empty());
    assert(addresses@.map_values(|a: Multiaddr| a@) =~= Seq::empty());
    while i < count
        invariant
            i <= count,
            count == model.multi_addresses@.len(),
            addresses@.map_values(|a: Multiaddr| a@) == canonical_addresses(
                texts(model.multi_addresses@).take(i as int),
            ),
        decreases count - i,
    {
        let ghost all = texts(model.multi_addresses@);
        let ghost before = addresses@;
        let parsed = parse_multiaddr(model.multi_addresses[i].as_str());
        proof {
            assert(all.take(i + 1).drop_last() =~= all.take(i as int));
            assert(all.take(i + 1).last() == model.multi_addresses@[i as int]@);
        }
        if let Some(address) = parsed {
            addresses.push(address);
            assert(addresses@.map_values(|a: Multiaddr| a@) =~= before.map_values(|a: Multiaddr| a@).push(address@));
        }
        i += 1;
    }
    assert(texts(model.multi_addresses@).take(count as int) =~= texts(model.multi_addresses@));
    let entry_type = if count > 0 {
        AccountType::Announced(addresses)
    } else {
        AccountType::NotAnnounced
    };
    let public_key = match parse_packet_key(model.packet_key.as_str()) {
        Ok(key) => key,
        Err(reason) => {
            return Err(TestConnectorError::Invalid(Field::PacketKey, reason));
        },
    };
    let chain_addr = match parse_address(model.chain_key.as_str()) {
        Ok(address) => address,
        Err(reason) => {
            return Err(TestConnectorError::Invalid(Field::ChainKey, reason));
        },
    };
    proof {
        lemma_packet_key_from(public_key);
        lemma_address_of(chain_addr);
    }
    let safe_address = match &model.safe_address {
        None => None,
        Some(text) => match parse_address(text.as_str()) {
            Ok(address) => {
                proof {
                    lemma_address_of(address);
                }
                Some(address)
            },
            Err(reason) => {
                return Err(TestConnectorError::Invalid(Field::SafeAddress, reason));
            },
        },
    };
    Ok(AccountEntry { public_key, chain_addr, entry_type, safe_address, key_id: wrap_u32(model.keyid) })
}

// ── Channels ─────────────────────────────────────────────────────────────────

/// A point in time, from its second and the nanoseconds past it.
pub open spec fn time_at(secs: i64, nanos: u32) -> Timestamp {
    Timestamp { nanos: (secs * NANOS_PER_SEC + nanos) as i128 }
}

/// The status that a channel record stands for.
pub open spec fn converted_status(model: ChannelText) -> Result<ChannelStatus, ErrorView> {
    match model.status {
        StatusKind::Open => Ok(ChannelStatus::Open),
        StatusKind::Closed => Ok(ChannelStatus::Closed),
        StatusKind::PendingToClose => match model.closure_time {
            None => Err(ErrorView::MissingClosureTime),
            Some(text) => match parsed_time(text) {
                Ok(time) => Ok(ChannelStatus::PendingToClose(time_at(time.0, time.1))),
                Err(reason) => Err(ErrorView::Invalid(Field::ClosureTime, reason)),
            },
        },
    }
}

/// What a channel record between two accounts stands for. It is read in the order status, balance,
/// ticket index, and the first that cannot be is the error; then its numbers and ends are checked.
pub open spec fn converted_channel(
    model: ChannelText,
    source: Address,
    destination: Address,
) -> Result<ChannelEntry, ErrorView> {
    match (converted_status(model), parsed_hopr(model.balance), bounded_value(model.ticket_index, u64::MAX as nat)) {
        (Err(error), _, _) => Err(error),
        (_, Err(reason), _) => Err(ErrorView::Invalid(Field::Balance, reason)),
        (_, _, None) => Err(ErrorView::Invalid(Field::TicketIndex, number_error(model.ticket_index))),
        (Ok(status), Ok(wei), Some(index)) => {
            let balance = HoprBalance { wei: u256_of(wei) };
            let channel_epoch = wrapped_u32(model.epoch);
            if channel_is_valid(source, destination, balance, index as u64, channel_epoch) {
                Ok(
                    ChannelEntry {
                        source,
                        destination,
                        balance,
                        ticket_index: index as u64,
                        status,
                        channel_epoch,
                        id: digest_of(keccak256(source@ + destination@)),
                    },
                )
            } else {
                Err(
                    ErrorView::Invalid(Field::Channel, channel_error(source, destination, balance, index as u64)),
                )
            }
        },
    }
}

/// Reads a channel record between two accounts.
pub fn convert_channel_model(
    model: &Channel,
    src_addr: Address,
    dst_addr: Address,
) -> (channel: Result<ChannelEntry, TestConnectorError>)
    ensures
        outcome_of(channel) == converted_channel(model@, src_addr, dst_addr),
{
    let status = match model.status {
        StatusKind::Open => ChannelStatus::Open,
        StatusKind::Closed => ChannelStatus::Closed,
        StatusKind::PendingToClose => match &model.closure_time {
            None => {
                return Err(TestConnectorError::MissingClosureTime);
            },
            Some(text) => match parse_time(text.as_str()) {
                Ok(time) => {
                    let nanos: i128 = time.0 as i128 * 1_000_000_000 + time.1 as i128;
                    ChannelStatus::PendingToClose(Timestamp { nanos })
                },
                Err(reason) => {
                    return Err(TestConnectorError::Invalid(Field::ClosureTime, reason));
                },
            },
        },
    };
    let balance = match parse_hopr(model.balance.as_str()) {
        Ok(balance) => balance,
        Err(reason) => {
            return Err(TestConnectorError::Invalid(Field::Balance, reason));
        },
    };
    let ticket_index: u64 = match parse_u64(model.ticket_index.as_str()) {
        Ok(index) => index,
        Err(reason) => {
            return Err(TestConnectorError::Invalid(Field::TicketIndex, reason));
        },
    };
    proof {
        lemma_u256_of(balance.wei);
    }
    let channel_epoch: u32 = wrap_u32(model.epoch);
    match build_channel(&src_addr, &dst_addr, &balance, ticket_index, channel_epoch) {
        Ok(id) => {
            proof {
                lemma_digest_of(id);
            }
            Ok(
                ChannelEntry {
                    source: src_addr,
                    destination: dst_addr,
                    balance,
                    ticket_index,
                    status,
                    channel_epoch,
                    id,
                },
            )
        },
        Err(reason) => Err(TestConnectorError::Invalid(Field::Channel, reason)),
    }
}

// ── Chain info ───────────────────────────────────────────────────────────────

/// What the chain's record stands for.
#[derive(Clone, Debug, PartialEq, Eq)]
pub struct ParsedChainInfo {
    pub chain_info: ChainInfo,
    pub domain_separators: DomainSeparators,
    pub ticket_win_prob: WinningProbability,
    pub ticket_price: HoprBalance,
    pub closure_grace_period: Duration,
}

/// What a [`ParsedChainInfo`] says.
pub struct ParsedChainView {
    pub chain_id: u64,
    pub network: Seq<char>,
    pub contracts: ContractAddresses,
    pub domain_separators: DomainSeparators,
    pub ticket_win_prob: WinningProbability,
    pub ticket_price: HoprBalance,
    pub grace_nanos: nat,
}

impl View for ParsedChainInfo {
    type V = ParsedChainView;

    open spec fn view(&self) -> ParsedChainView {
        ParsedChainView {
            chain_id: self.chain_info.chain_id,
            network: self.chain_info.hopr_network_name@,
            contracts: self.chain_info.contract_addresses,
            domain_separators: self.domain_separators,
            ticket_win_prob: self.ticket_win_prob,
            ticket_price: self.ticket_price,
            grace_nanos: self.closure_grace_period.nanos(),
        }
    }
}

/// A reading, by the words that its error is told in.
pub open spec fn reading_of<T>(reading: Result<T, String>) -> Result<T, Seq<char>> {
    match reading {
        Ok(value) => Ok(value),
        Err(reason) => Err(reason@),
    }
}

/// The digest of zeros.
pub open spec fn zero_digest() -> Digest {
    digest_of(Seq::new(32, |i: int| 0u8))
}

/// The digest that an optional text spells: zeros where there is no text, and why where it spells none.
pub open spec fn separator_of(text: Option<Seq<char>>) -> Result<Digest, Seq<char>> {
    match text {
        None => Ok(zero_digest()),
        Some(digits) => match hex_bytes(digits, 32) {
            Some(bytes) => Ok(digest_of(bytes)),
            None => Err(hash_error(digits)),
        },
    }
}

/// What the chain's record stands for, given what its winning probability does. It is read in the
/// order grace period, the separators of ledger, safe registry and channel, winning probability,
/// ticket price, contract addresses, and the first that cannot be is the error.
pub open spec fn parsed_chain_info(
    model: ChainInfoText,
    win_prob: Result<WinningProbability, Seq<char>>,
) -> Result<ParsedChainView, ErrorView> {
    let grace = bounded_value(model.channel_closure_grace_period, u64::MAX as nat);
    let ledger = separator_of(model.ledger_dst);
    let safe_registry = separator_of(model.safe_registry_dst);
    let channel = separator_of(model.channel_dst);
    let price = parsed_hopr(model.ticket_price);
    let contracts = parsed_contracts(model.contract_addresses);
    if grace is None {
        Err(
            ErrorView::Invalid(Field::ClosureGracePeriod, number_error(model.channel_closure_grace_period)),
        )
    } else if ledger is Err {
        Err(ErrorView::Invalid(Field::LedgerSeparator, ledger->Err_0))
    } else if safe_registry is Err {
        Err(ErrorView::Invalid(Field::SafeRegistrySeparator, safe_registry->Err_0))
    } else if channel is Err {
        Err(ErrorView::Invalid(Field::ChannelSeparator, channel->Err_0))
    } else if win_prob is Err {
        Err(ErrorView::Invalid(Field::WinningProbability, win_prob->Err_0))
    } else if price is Err {
        Err(ErrorView::Invalid(Field::TicketPrice, price->Err_0))
    } else if contracts is Err {
        Err(ErrorView::Invalid(Field::ContractAddresses, contracts->Err_0))
    } else {
        Ok(
            ParsedChainView {
                chain_id: wrapped_u64(model.chain_id),
                network: model.network,
                contracts: contracts_of(contracts->Ok_0),
                domain_separators: DomainSeparators {
                    ledger: ledger->Ok_0,
                    safe_registry: safe_registry->Ok_0,
                    channel: channel->Ok_0,
                },
                ticket_win_prob: win_prob->Ok_0,
                ticket_price: HoprBalance { wei: u256_of(price->Ok_0) },
                grace_nanos: grace->0 * NANOS_PER_SEC as nat,
            },
        )
    }
}

/// Reads the digest that an optional text spells.
fn parse_separator(text: &Option<String>) -> (separator: Result<Digest, String>)
    ensures
        reading_of(separator) == separator_of(crate::testing::blokli::model::optional_text(*text)),
{
    match text {
        None => {
            let zero = Digest { bytes: [0u8;32] };
            proof {
                lemma_digest_of(zero);
                assert(zero@ =~= Seq::new(32, |i: int| 0u8));
            }
            Ok(zero)
        },
        Some(digits) => match parse_hash(digits.as_str()) {
            Ok(found) => {
                proof {
                    lemma_digest_of(found);
                }
                Ok(found)
            },
            Err(reason) => Err(reason),
        },
    }
}

/// Reads the chain's record. `win_prob` is what its winning probability stands for, or why it stands for
/// none.
pub fn parse_chain_info_model(
    model: &ChainInfoRecord,
    win_prob: Result<WinningProbability, String>,
) -> (info: Result<ParsedChainInfo, TestConnectorError>)
    ensures
        result_view(info) == parsed_chain_info(model@, reading_of(win_prob)),
{
    let grace: u64 = match parse_u64(model.channel_closure_grace_period.as_str()) {
        Ok(secs) => secs,
        Err(reason) => {
            return Err(TestConnectorError::Invalid(Field::ClosureGracePeriod, reason));
        },
    };
    let ledger = match parse_separator(&model.ledger_dst) {
        Ok(digest) => digest,
        Err(reason) => {
            return Err(TestConnectorError::Invalid(Field::LedgerSeparator, reason));
        },
    };
    let safe_registry = match parse_separator(&model.safe_registry_dst) {
        Ok(digest) => digest,
        Err(reason) => {
            return Err(TestConnectorError::Invalid(Field::SafeRegistrySeparator, reason));
        },
    };
    let channel = match parse_separator(&model.channel_dst) {
        Ok(digest) => digest,
        Err(reason) => {
            return Err(TestConnectorError::Invalid(Field::ChannelSeparator, reason));
        },
    };
    let ticket_win_prob = match win_prob {
        Ok(probability) => probability,
        Err(reason) => {
            return Err(TestConnectorError::Invalid(Field::WinningProbability, reason));
        },
    };
    let ticket_price = match parse_hopr(model.ticket_price.as_str()) {
        Ok(price) => price,
        Err(reason) => {
            return Err(TestConnectorError::Invalid(Field::TicketPrice, reason));
        },
    };
    let contract_addresses = match parse_contracts(model.contract_addresses.as_str()) {
        Ok(contracts) => contracts,
        Err(reason) => {
            return Err(TestConnectorError::Invalid(Field::ContractAddresses, reason));
        },
    };
    proof {
        lemma_u256_of(ticket_price.wei);
        lemma_contracts_of(contract_addresses);
    }
    Ok(
        ParsedChainInfo {
            chain_info: ChainInfo {
                chain_id: wrap_u64(model.chain_id),
                hopr_network_name: model.network.clone(),
                contract_addresses,
            },
            domain_separators: DomainSeparators { ledger, safe_registry, channel },
            ticket_win_prob,
            ticket_price,
            closure_grace_period: Duration::from_secs(grace),
        },
    )
}

// ── Safes ────────────────────────────────────────────────────────────────────

/// What a [`DeployedSafe`] says.
pub struct SafeView {
    pub address: Address,
    pub owners: Seq<Address>,
    pub module: Address,
    pub registered_nodes: Seq<Address>,
    pub deployer: Address,
}

impl View for DeployedSafe {
    type V = SafeView;

    open spec fn view(&self) -> SafeView {
        SafeView {
            address: self.address,
            owners: self.owners@,
            module: self.module,
            registered_nodes: self.registered_nodes@,
            deployer: self.deployer,
        }
    }
}

/// The addresses that texts spell, or why the first that spells none is refused.
pub open spec fn addresses_in(list: Seq<Seq<char>>) -> Result<Seq<Address>, Seq<char>>
    decreases list.len(),
{
    if list.len() == 0 {
        Ok(Seq::empty())
    } else {
        match (addresses_in(list.drop_last()), hex_bytes(list.last(), 20)) {
            (Err(reason), _) => Err(reason),
            (_, None) => Err(address_error(list.last())),
            (Ok(rest), Some(bytes)) => Ok(rest.push(address_of(bytes))),
        }
    }
}

/// What a safe's record stands for. It is read in the order address, owners, module, registered nodes,
/// deployer, and the first that cannot be is the error.
pub open spec fn converted_safe(model: SafeText) -> Result<SafeView, ErrorView> {
    let address = hex_bytes(model.address, 20);
    let owners = addresses_in(model.owners);
    let module = hex_bytes(model.module_address, 20);
    let nodes = addresses_in(model.registered_nodes);
    let deployer = hex_bytes(model.chain_key, 20);
    if address is None {
        Err(ErrorView::Invalid(Field::SafeAddress, address_error(model.address)))
    } else if owners is Err {
        Err(ErrorView::Invalid(Field::SafeOwner, owners->Err_0))
    } else if module is None {
        Err(ErrorView::Invalid(Field::SafeModule, address_error(model.module_address)))
    } else if nodes is Err {
        Err(ErrorView::Invalid(Field::SafeNode, nodes->Err_0))
    } else if deployer is None {
        Err(ErrorView::Invalid(Field::SafeDeployer, address_error(model.chain_key)))
    } else {
        Ok(
            SafeView {
                address: address_of(address->0),
                owners: owners->Ok_0,
                module: address_of(module->0),
                registered_nodes: nodes->Ok_0,
                deployer: address_of(deployer->0),
            },
        )
    }
}

/// Reads a list of addresses.
fn parse_addresses(list: &Vec<String>) -> (addresses: Result<Vec<Address>, String>)
    ensures
        match addresses {
            Ok(found) => reads_as(addresses_in(texts(list@)), found@),
            Err(reason) => refused_with(addresses_in(texts(list@)), reason@),
        },
{
    let count: usize = list.len();
    let mut found: Vec<Address> = Vec::new();
    let mut i: usize = 0;
    assert(texts(list@).take(0) =~= Seq::empty());
    while i < count
        invariant
            i <= count,
            count == list@.len(),
            reads_as(addresses_in(texts(list@).take(i as int)), found@),
        decreases count - i,
    {
        let ghost all = texts(list@);
        proof {
            assert(all.take(i + 1).drop_last() =~= all.take(i as int));
            assert(all.take(i + 1).last() == list@[i as int]@);
        }
        match parse_address(list[i].as_str()) {
            Ok(address) => {
                proof {
                    lemma_address_of(address);
                }
                found.push(address);
            },
            Err(reason) => {
                proof {
                    assert(refused_with(addresses_in(all.take(i + 1)), reason@));
                    lemma_addresses_stay_unreadable(all, i + 1);
                }
                return Err(reason);
            },
        }
        i += 1;
    }
    assert(texts(list@).take(count as int) =~= texts(list@));
    Ok(found)
}

proof fn lemma_addresses_stay_unreadable(list: Seq<Seq<char>>, upto: int)
    requires
        0 <= upto <= list.len(),
        addresses_in(list.take(upto)) is Err,
    ensures
        addresses_in(list) == addresses_in(list.take(upto)),
    decreases list.len() - upto,
{
    if upto < list.len() {
        assert(list.take(upto + 1).drop_last() =~= list.take(upto));
        lemma_addresses_stay_unreadable(list, upto + 1);
    } else {
        assert(list.take(upto) =~= list);
    }
}

/// Reads a safe's record.
pub fn convert_safe_model(model: &Safe) -> (safe: Result<DeployedSafe, TestConnectorError>)
    ensures
        result_view(safe) == converted_safe(model@),
{
    let address = match parse_address(model.address.as_str()) {
        Ok(found) => found,
        Err(reason) => {
            return Err(TestConnectorError::Invalid(Field::SafeAddress, reason));
        },
    };
    let owners = match parse_addresses(&model.owners) {
        Ok(found) => found,
        Err(reason) => {
            return Err(TestConnectorError::Invalid(Field::SafeOwner, reason));
        },
    };
    let module = match parse_address(model.module_address.as_str()) {
        Ok(found) => found,
        Err(reason) => {
            return Err(TestConnectorError::Invalid(Field::SafeModule, reason));
        },
    };
    let registered_nodes = match parse_addresses(&model.registered_nodes) {
        Ok(found) => found,
        Err(reason) => {
            return Err(TestConnectorError::Invalid(Field::SafeNode, reason));
        },
    };
    let deployer = match parse_address(model.chain_key.as_str()) {
        Ok(found) => found,
        Err(reason) => {
            return Err(TestConnectorError::Invalid(Field::SafeDeployer, reason));
        },
    };
    proof {
        lemma_address_of(address);
        lemma_address_of(module);
        lemma_address_of(deployer);
    }
    Ok(DeployedSafe { address, owners, module, registered_nodes, deployer })
}

// ── Single values ────────────────────────────────────────────────────────────

/// Reads a balance of wxHOPR; `field` says which one.
pub fn convert_hopr_balance(text: &str, field: Field) -> (balance: Result<HoprBalance, TestConnectorError>)
    ensures
        outcome_of(balance) == (match parsed_hopr(text@) {
            Ok(wei) => Ok::<HoprBalance, ErrorView>(HoprBalance { wei: u256_of(wei) }),
            Err(reason) => Err(ErrorView::Invalid(field, reason)),
        }),
{
    match parse_hopr(text) {
        Ok(balance) => {
            proof {
                lemma_u256_of(balance.wei);
            }
            Ok(balance)
        },
        Err(reason) => Err(TestConnectorError::Invalid(field, reason)),
    }
}

/// Reads a balance of xDai.
pub fn convert_xdai_balance(text: &str) -> (balance: Result<XDaiBalance, TestConnectorError>)
    ensures
        outcome_of(balance) == (match parsed_xdai(text@) {
            Ok(wei) => Ok::<XDaiBalance, ErrorView>(XDaiBalance { wei: u256_of(wei) }),
            Err(reason) => Err(ErrorView::Invalid(Field::Balance, reason)),
        }),
{
    match parse_xdai(text) {
        Ok(balance) => {
            proof {
                lemma_u256_of(balance.wei);
            }
            Ok(balance)
        },
        Err(reason) => Err(TestConnectorError::Invalid(Field::Balance, reason)),
    }
}

/// What was redeemed: how often, and how much.
#[derive(Clone, Copy, Debug, PartialEq, Eq, Structural)]
pub struct RedemptionStats {
    pub redeemed_count: u64,
    pub redeemed_value: HoprBalance,
}

/// Reads what was redeemed, the count before the amount.
pub fn redemption_stats(stats: &RedeemedStats) -> (parsed: Result<RedemptionStats, TestConnectorError>)
    ensures
        outcome_of(parsed) == (match (
            bounded_value(stats.redemption_count@, u64::MAX as nat),
            parsed_hopr(stats.redeemed_amount@),
        ) {
            (None, _) => Err(
                ErrorView::Invalid(Field::RedemptionCount, number_error(stats.redemption_count@)),
            ),
            (_, Err(reason)) => Err(ErrorView::Invalid(Field::RedeemedAmount, reason)),
            (Some(count), Ok(wei)) => Ok::<RedemptionStats, ErrorView>(
                RedemptionStats { redeemed_count: count as u64, redeemed_value: HoprBalance { wei: u256_of(wei) } },
            ),
        }),
{
    let redeemed_count: u64 = match parse_u64(stats.redemption_count.as_str()) {
        Ok(count) => count,
        Err(reason) => {
            return Err(TestConnectorError::Invalid(Field::RedemptionCount, reason));
        },
    };
    match parse_hopr(stats.redeemed_amount.as_str()) {
        Ok(redeemed_value) => {
            proof {
                lemma_u256_of(redeemed_value.wei);
            }
            Ok(RedemptionStats { redeemed_count, redeemed_value })
        },
        Err(reason) => Err(TestConnectorError::Invalid(Field::RedeemedAmount, reason)),
    }
}

// ── What reading comes to ────────────────────────────────────────────────────

/// Of the texts of an announcement, those that spell a multiaddress are kept, in their order and in their
/// canonical form.
pub proof fn readable_addresses_are_kept_in_order(addresses: Seq<Seq<char>>)
    ensures
        canonical_addresses(addresses) == addresses.filter(
            |text: Seq<char>| canonical_multiaddr(text) is Some,
        ).map_values(|text: Seq<char>| canonical_multiaddr(text)->0),
    decreases addresses.len(),
{
    reveal(Seq::filter);
    let readable = |text: Seq<char>| canonical_multiaddr(text) is Some;
    let canonical = |text: Seq<char>| canonical_multiaddr(text)->0;
    if addresses.len() > 0 {
        let init = addresses.drop_last();
        readable_addresses_are_kept_in_order(init);
        let kept = init.filter(readable);
        if readable(addresses.last()) {
            assert(kept.push(addresses.last()).map_values(canonical) =~= kept.map_values(canonical).push(
                canonical(addresses.last()),
            ));
        }
    } else {
        assert(addresses.filter(readable).map_values(canonical) =~= Seq::empty());
    }
}

/// A record whose keys can be read stands for the account with those keys, that safe where it names one, the
/// key id of its 32 bits, and an announcement exactly where it holds any address.
pub proof fn a_readable_account_is_what_its_record_says(
    model: AccountText,
    public_key: PacketKey,
    chain_addr: Address,
    safe: Option<Address>,
)
    requires
        hex_bytes(model.packet_key, 32) == Some(public_key@),
        hex_bytes(model.chain_key, 20) == Some(chain_addr@),
        model.safe_address is Some <==> safe is Some,
        safe is Some ==> hex_bytes(model.safe_address->0, 20) == Some(safe->0@),
    ensures
        converted_account(model) is Ok,
        ({
            let account = converted_account(model)->Ok_0;
            &&& account.public_key == public_key
            &&& account.chain_addr == chain_addr
            &&& account.safe_address == safe
            &&& (account.key_id - model.keyid) % 0x1_0000_0000 == 0
            &&& account.announced is None <==> model.multi_addresses.len() == 0
            &&& account.announced is Some ==> account.announced->0 == canonical_addresses(model.multi_addresses)
        }),
{
    lemma_packet_key_from(public_key);
    lemma_address_of(chain_addr);
    if let Some(address) = safe {
        lemma_address_of(address);
    }
}

/// A record is refused for the first of its keys that cannot be read, in the words that refuse it.
pub proof fn an_account_is_refused_for_its_first_unreadable_key(model: AccountText)
    ensures
        ({
            let read = converted_account(model);
            let packet = hex_bytes(model.packet_key, 32) is Some;
            let chain = hex_bytes(model.chain_key, 20) is Some;
            let safe = model.safe_address is None || hex_bytes(model.safe_address->0, 20) is Some;
            &&& read is Ok <==> packet && chain && safe
            &&& !packet ==> read->Err_0 == ErrorView::Invalid(Field::PacketKey, packet_key_error(model.packet_key))
            &&& packet && !chain ==> read->Err_0 == ErrorView::Invalid(
                Field::ChainKey,
                address_error(model.chain_key),
            )
            &&& packet && chain && !safe ==> read->Err_0 == ErrorView::Invalid(
                Field::SafeAddress,
                address_error(model.safe_address->0),
            )
        }),
{
}

/// A channel has the status that its record names; one that is closing needs a time that can be read, and
/// has that time.
pub proof fn a_channel_has_the_status_of_its_record(model: ChannelText)
    ensures
        model.status is Open ==> converted_status(model) == Ok::<ChannelStatus, ErrorView>(ChannelStatus::Open),
        model.status is Closed ==> converted_status(model) == Ok::<ChannelStatus, ErrorView>(ChannelStatus::Closed),
        model.status is PendingToClose && model.closure_time is None ==> converted_status(model) == Err::<
            ChannelStatus,
            ErrorView,
        >(ErrorView::MissingClosureTime),
        model.status is PendingToClose && model.closure_time is Some ==> match parsed_time(model.closure_time->0) {
            Ok(time) => converted_status(model) matches Ok(ChannelStatus::PendingToClose(at)) && at.nanos == time.0
                * 1_000_000_000 + time.1,
            Err(reason) => converted_status(model) == Err::<ChannelStatus, ErrorView>(
                ErrorView::Invalid(Field::ClosureTime, reason),
            ),
        },
{
}

/// A record whose fields can be read stands for the channel between the two accounts with those fields, where
/// such a channel can be: its ends differ, its balance is below 2^96 wei, its ticket index below 2^48 and its
/// epoch below 2^24. Otherwise it is refused for the first of these that fails.
pub proof fn a_readable_channel_is_what_its_record_says(
    model: ChannelText,
    source: Address,
    destination: Address,
    wei: nat,
    index: u64,
    epoch: u32,
    id: Digest,
)
    requires
        converted_status(model) is Ok,
        parsed_hopr(model.balance) == Ok::<nat, Seq<char>>(wei),
        wei <= u256_max(),
        bounded_value(model.ticket_index, u64::MAX as nat) == Some(index as nat),
        (epoch - model.epoch) % 0x1_0000_0000 == 0,
        id@ == keccak256(source@ + destination@),
    ensures
        ({
            let read = converted_channel(model, source, destination);
            &&& read is Ok <==> source != destination && wei < 0x1_0000_0000_0000_0000_0000_0000 && index
                < 0x1_0000_0000_0000 && epoch < 0x100_0000
            &&& read is Ok ==> {
                let channel = read->Ok_0;
                &&& channel.source == source && channel.destination == destination && channel.id == id
                &&& channel.status == converted_status(model)->Ok_0
                &&& channel.balance.wei.value() == wei
                &&& channel.ticket_index == index && channel.channel_epoch == epoch
            }
            &&& read is Err ==> read->Err_0 == ErrorView::Invalid(
                Field::Channel,
                if source == destination {
                    "source and destination cannot be the same"@
                } else if wei >= 0x1_0000_0000_0000_0000_0000_0000 {
                    "balance too high"@
                } else if index >= 0x1_0000_0000_0000 {
                    "ticket index too high"@
                } else {
                    "channel epoch too high"@
                },
            )
        }),
{
    lemma_halves(wei);
    lemma_digest_of(id);
}

/// A channel is refused for the first of its fields that cannot be read: its status, then its balance, then
/// its ticket index.
pub proof fn a_channel_is_refused_for_its_first_unreadable_field(
    model: ChannelText,
    source: Address,
    destination: Address,
)
    ensures
        ({
            let read = converted_channel(model, source, destination);
            let status = converted_status(model);
            let balance = parsed_hopr(model.balance);
            let index = bounded_value(model.ticket_index, u64::MAX as nat);
            &&& status is Err ==> read == Err::<ChannelEntry, ErrorView>(status->Err_0)
            &&& status is Ok && balance is Err ==> read == Err::<ChannelEntry, ErrorView>(
                ErrorView::Invalid(Field::Balance, balance->Err_0),
            )
            &&& status is Ok && balance is Ok && index is None ==> read == Err::<ChannelEntry, ErrorView>(
                ErrorView::Invalid(Field::TicketIndex, number_error(model.ticket_index)),
            )
        }),
{
}

/// A separator that is written down is what its digits spell, and zeros where none is written down.
pub proof fn a_separator_is_what_its_digits_spell(text: Option<Seq<char>>, digest: Digest)
    ensures
        text is Some && hex_bytes(text->0, 32) == Some(digest@) ==> separator_of(text) == Ok::<Digest, Seq<char>>(digest),
        text is Some && hex_bytes(text->0, 32) is None ==> separator_of(text) == Err::<Digest, Seq<char>>(
            hash_error(text->0),
        ),
        text is None && digest@ == Seq::new(32, |i: int| 0u8) ==> separator_of(text) == Ok::<Digest, Seq<char>>(digest),
{
    lemma_digest_of(digest);
}

/// A chain's record whose fields can be read stands for a chain with those fields: a grace period in seconds,
/// the separators each in its own place, the probability that was given, the price in wei and the contracts.
pub proof fn a_readable_chain_is_what_its_record_says(
    model: ChainInfoText,
    win_prob: WinningProbability,
    grace: nat,
    price: nat,
    contracts: ContractAddresses,
)
    requires
        bounded_value(model.channel_closure_grace_period, u64::MAX as nat) == Some(grace),
        separator_of(model.ledger_dst) is Ok,
        separator_of(model.safe_registry_dst) is Ok,
        separator_of(model.channel_dst) is Ok,
        parsed_hopr(model.ticket_price) == Ok::<nat, Seq<char>>(price),
        price <= u256_max(),
        parsed_contracts(model.contract_addresses) == Ok::<Seq<Seq<u8>>, Seq<char>>(contracts@),
    ensures
        parsed_chain_info(model, Ok(win_prob)) is Ok,
        ({
            let info = parsed_chain_info(model, Ok(win_prob))->Ok_0;
            &&& (info.chain_id - model.chain_id) % 0x1_0000_0000_0000_0000 == 0
            &&& info.network == model.network
            &&& info.contracts == contracts
            &&& info.domain_separators.ledger == separator_of(model.ledger_dst)->Ok_0
            &&& info.domain_separators.safe_registry == separator_of(model.safe_registry_dst)->Ok_0
            &&& info.domain_separators.channel == separator_of(model.channel_dst)->Ok_0
            &&& info.ticket_win_prob == win_prob
            &&& info.ticket_price.wei.value() == price
            &&& info.grace_nanos == grace * 1_000_000_000
        }),
{
    lemma_halves(price);
    lemma_contracts_of(contracts);
}

/// A chain's record is refused for the first of its fields that cannot be read, in the words that refuse it.
pub proof fn a_chain_is_refused_for_its_first_unreadable_field(
    model: ChainInfoText,
    win_prob: Result<WinningProbability, Seq<char>>,
)
    ensures
        ({
            let read = parsed_chain_info(model, win_prob);
            let grace = bounded_value(model.channel_closure_grace_period, u64::MAX as nat) is Some;
            let ledger = separator_of(model.ledger_dst);
            let registry = separator_of(model.safe_registry_dst);
            let channel = separator_of(model.channel_dst);
            let price = parsed_hopr(model.ticket_price);
            let contracts = parsed_contracts(model.contract_addresses);
            &&& read is Ok <==> grace && ledger is Ok && registry is Ok && channel is Ok && win_prob is Ok && price is Ok
                && contracts is Ok
            &&& !grace ==> read->Err_0 == ErrorView::Invalid(
                Field::ClosureGracePeriod,
                number_error(model.channel_closure_grace_period),
            )
            &&& grace && ledger is Err ==> read->Err_0 == ErrorView::Invalid(Field::LedgerSeparator, ledger->Err_0)
            &&& grace && ledger is Ok && registry is Err ==> read->Err_0 == ErrorView::Invalid(
                Field::SafeRegistrySeparator,
                registry->Err_0,
            )
            &&& grace && ledger is Ok && registry is Ok && channel is Err ==> read->Err_0 == ErrorView::Invalid(
                Field::ChannelSeparator,
                channel->Err_0,
            )
            &&& grace && ledger is Ok && registry is Ok && channel is Ok && win_prob is Err ==> read->Err_0
                == ErrorView::Invalid(Field::WinningProbability, win_prob->Err_0)
            &&& grace && ledger is Ok && registry is Ok && channel is Ok && win_prob is Ok && price is Err
                ==> read->Err_0 == ErrorView::Invalid(Field::TicketPrice, price->Err_0)
            &&& grace && ledger is Ok && registry is Ok && channel is Ok && win_prob is Ok && price is Ok && contracts is Err
                ==> read->Err_0 == ErrorView::Invalid(Field::ContractAddresses, contracts->Err_0)
        }),
{
}

/// A list of texts that all spell addresses is the list of those addresses; otherwise it is refused for the
/// first that spells none.
pub proof fn a_list_is_read_address_by_address(list: Seq<Seq<char>>, read: Seq<Address>)
    requires
        read.len() <= list.len(),
        forall|i: int| 0 <= i < read.len() ==> hex_bytes(#[trigger] list[i], 20) == Some(read[i]@),
    ensures
        read.len() == list.len() ==> addresses_in(list) == Ok::<Seq<Address>, Seq<char>>(read),
        read.len() < list.len() && hex_bytes(list[read.len() as int], 20) is None ==> addresses_in(list) == Err::<
            Seq<Address>,
            Seq<char>,
        >(address_error(list[read.len() as int])),
    decreases list.len(),
{
    if read.len() < list.len() {
        let upto = read.len() as int;
        if hex_bytes(list[upto], 20) is None {
            let good = list.take(upto);
            a_list_is_read_address_by_address(good, read);
            assert(list.take(upto + 1).drop_last() =~= good);
            lemma_addresses_stay_unreadable(list, upto + 1);
        }
    } else if list.len() > 0 {
        let init = list.drop_last();
        a_list_is_read_address_by_address(init, read.drop_last());
        assert(hex_bytes(list[list.len() - 1], 20) == Some(read.last()@));
        lemma_address_of(read.last());
        assert(read.drop_last().push(read.last()) =~= read);
    } else {
        assert(read =~= Seq::empty());
    }
}

/// A safe's record whose addresses can be read stands for the safe with those addresses, each in its own
/// place: it names the deployer as its chain key.
pub proof fn a_readable_safe_is_what_its_record_says(
    model: SafeText,
    address: Address,
    module: Address,
    deployer: Address,
)
    requires
        hex_bytes(model.address, 20) == Some(address@),
        hex_bytes(model.module_address, 20) == Some(module@),
        hex_bytes(model.chain_key, 20) == Some(deployer@),
        addresses_in(model.owners) is Ok,
        addresses_in(model.registered_nodes) is Ok,
    ensures
        converted_safe(model) is Ok,
        ({
            let safe = converted_safe(model)->Ok_0;
            &&& safe.address == address && safe.module == module && safe.deployer == deployer
            &&& safe.owners == addresses_in(model.owners)->Ok_0
            &&& safe.registered_nodes == addresses_in(model.registered_nodes)->Ok_0
        }),
{
    lemma_address_of(address);
    lemma_address_of(module);
    lemma_address_of(deployer);
}

/// A safe's record is refused for the first of its fields that cannot be read, in the words that refuse it.
pub proof fn a_safe_is_refused_for_its_first_unreadable_field(model: SafeText)
    ensures
        ({
            let read = converted_safe(model);
            let address = hex_bytes(model.address, 20) is Some;
            let owners = addresses_in(model.owners);
            let module = hex_bytes(model.module_address, 20) is Some;
            let nodes = addresses_in(model.registered_nodes);
            let deployer = hex_bytes(model.chain_key, 20) is Some;
            &&& read is Ok <==> address && owners is Ok && module && nodes is Ok && deployer
            &&& !address ==> read->Err_0 == ErrorView::Invalid(Field::SafeAddress, address_error(model.address))
            &&& address && owners is Err ==> read->Err_0 == ErrorView::Invalid(Field::SafeOwner, owners->Err_0)
            &&& address && owners is Ok && !module ==> read->Err_0 == ErrorView::Invalid(
                Field::SafeModule,
                address_error(model.module_address),
            )
            &&& address && owners is Ok && module && nodes is Err ==> read->Err_0 == ErrorView::Invalid(
                Field::SafeNode,
                nodes->Err_0,
            )
            &&& address && owners is Ok && module && nodes is Ok && !deployer ==> read->Err_0 == ErrorView::Invalid(
                Field::SafeDeployer,
                address_error(model.chain_key),
            )
        }),
{
}

} // verus!
