//! The chain crates' own readings and writings of values: texts, hashes, keys and payloads.

use std::str::FromStr;

use hopr_api::chain::DateTime;
use hopr_types::chain::payload::{PayloadGenerator, SafePayloadGenerator};
use hopr_types::crypto::prelude::{ChainKeypair, Keypair, OffchainKeypair, OffchainPublicKey};
use hopr_types::internal::prelude::{generate_channel_id, ChannelBuilder, RedeemableTicket};
use hopr_types::primitive::prelude::IntoEndian;
use vstd::arithmetic::power::pow;
use vstd::prelude::*;

use crate::testing::blokli::chain::{
    Address, ChainKey, ContractAddresses, Digest, HoprBalance, Multiaddr, PacketKey, TransactionRequest, XDaiBalance, U256,
};
use crate::text::{decimal, digit, hex, hex_bytes};

verus! {

// ── Addresses, hashes, keys ──────────────────────────────────────────────────

/// Why a text that spells no address is refused.
pub uninterp spec fn address_error(text: Seq<char>) -> Seq<char>;

/// `Address`'s `FromStr`: twenty bytes in hexadecimal of either case, a prefix allowed. An error is told in
/// its own words.
#[verifier::external_body]
pub(crate) fn parse_address(text: &str) -> (address: Result<Address, String>)
    ensures
        match address {
            Ok(found) => hex_bytes(text@, 20) == Some(found@),
            Err(reason) => hex_bytes(text@, 20) is None && reason@ == address_error(text@),
        },
{
    hopr_types::primitive::prelude::Address::from_str(text).map(|found| Address { bytes: found.into() }).map_err(|error| error.to_string())
}

/// Why a text that spells no hash is refused.
pub uninterp spec fn hash_error(text: Seq<char>) -> Seq<char>;

/// `Hash`'s `FromStr`: thirty-two bytes in hexadecimal of either case, a prefix allowed. An error is told
/// in its own words.
#[verifier::external_body]
pub(crate) fn parse_hash(text: &str) -> (hash: Result<Digest, String>)
    ensures
        match hash {
            Ok(found) => hex_bytes(text@, 32) == Some(found@),
            Err(reason) => hex_bytes(text@, 32) is None && reason@ == hash_error(text@),
        },
{
    hopr_types::crypto::types::Hash::from_str(text).map(|found| Digest { bytes: found.into() }).map_err(|error| error.to_string())
}

/// Why a text that spells no packet key is refused.
pub uninterp spec fn packet_key_error(text: Seq<char>) -> Seq<char>;

/// `OffchainPublicKey`'s `FromStr`: thirty-two bytes in hexadecimal of either case, a prefix allowed.
/// It looks at the length alone, not at whether the bytes are a point of the curve. An error is told in
/// its own words.
#[verifier::external_body]
pub(crate) fn parse_packet_key(text: &str) -> (key: Result<PacketKey, String>)
    ensures
        match key {
            Ok(found) => hex_bytes(text@, 32) == Some(found@),
            Err(reason) => hex_bytes(text@, 32) is None && reason@ == packet_key_error(text@),
        },
{
    OffchainPublicKey::from_str(text).map(|found| PacketKey { bytes: found.into() }).map_err(|error| error.to_string())
}

/// The Keccak-256 digest of some bytes.
pub uninterp spec fn keccak256(data: Seq<u8>) -> Seq<u8>;

/// `Hash::create` on one slice: its Keccak-256 digest.
#[verifier::external_body]
pub(crate) fn hash_create(data: &[u8]) -> (hash: Digest)
    ensures
        hash@ == keccak256(data@),
{
    Digest { bytes: hopr_types::crypto::types::Hash::create(&[data]).into() }
}

/// `generate_channel_id`: the Keccak-256 digest of the source followed by the destination.
#[verifier::external_body]
pub(crate) fn channel_id(source: &Address, destination: &Address) -> (id: Digest)
    ensures
        id@ == keccak256(source@ + destination@),
{
    Digest { bytes: generate_channel_id(&source.bytes.into(), &destination.bytes.into()).into() }
}

/// The most wei that a channel can hold.
pub const MAX_CHANNEL_STAKE: u128 = 79_228_162_514_264_337_593_543_950_335;

/// The largest ticket index.
pub const MAX_TICKET_INDEX: u64 = 281_474_976_710_655;

/// The largest channel epoch.
pub const MAX_CHANNEL_EPOCH: u32 = 16_777_215;

/// Whether a channel can be what these values say.
pub open spec fn channel_is_valid(
    source: Address,
    destination: Address,
    balance: HoprBalance,
    ticket_index: u64,
    epoch: u32,
) -> bool {
    &&& source != destination
    &&& balance.wei.value() <= MAX_CHANNEL_STAKE
    &&& ticket_index <= MAX_TICKET_INDEX
    &&& epoch <= MAX_CHANNEL_EPOCH
}

/// Why a channel that cannot be is refused: for the first thing that is wrong with it.
pub open spec fn channel_error(
    source: Address,
    destination: Address,
    balance: HoprBalance,
    ticket_index: u64,
) -> Seq<char> {
    if source == destination {
        "source and destination cannot be the same"@
    } else if balance.wei.value() > MAX_CHANNEL_STAKE {
        "balance too high"@
    } else if ticket_index > MAX_TICKET_INDEX {
        "ticket index too high"@
    } else {
        "channel epoch too high"@
    }
}

/// `ChannelBuilder::build` on a source, a destination, a balance, a ticket index and an epoch: the id
/// of the channel, unless the two ends are one or a number is above its limit. An error is told in its own
/// words.
#[verifier::external_body]
pub(crate) fn build_channel(
    source: &Address,
    destination: &Address,
    balance: &HoprBalance,
    ticket_index: u64,
    epoch: u32,
) -> (id: Result<Digest, String>)
    ensures
        id is Ok == channel_is_valid(*source, *destination, *balance, ticket_index, epoch),
        match id {
            Ok(hash) => hash@ == keccak256(source@ + destination@),
            Err(reason) => reason@ == channel_error(*source, *destination, *balance, ticket_index),
        },
{
    let wei = [balance.wei.hi.to_be_bytes(), balance.wei.lo.to_be_bytes()].concat();
    let between: (hopr_types::primitive::prelude::Address, hopr_types::primitive::prelude::Address) =
        (source.bytes.into(), destination.bytes.into());
    ChannelBuilder::default()
        .between(between.0, between.1)
        .balance(hopr_types::primitive::prelude::HoprBalance::from_be_bytes(wei))
        .ticket_index(ticket_index)
        .epoch(epoch)
        .build()
        .map(|channel| Digest { bytes: channel.get_id().into() })
        .map_err(|error| error.to_string())
}

/// The public key that belongs to an Ed25519 secret.
pub uninterp spec fn packet_key_of(secret: Seq<u8>) -> Seq<u8>;

/// `OffchainKeypair::from_secret`, on a secret of the length it asks for, and the public key of what
/// it makes.
#[verifier::external_body]
pub(crate) fn offchain_public_key(secret: &[u8; 32]) -> (key: PacketKey)
    ensures
        key@ == packet_key_of(secret@),
{
    PacketKey { bytes: (*OffchainKeypair::from_secret(secret).expect("a secret of 32 bytes").public()).into() }
}

/// The peer id of a packet key, in base 58.
pub uninterp spec fn peer_id_of(key: Seq<u8>) -> Seq<char>;

/// The address of a UDP port on a fixed host, under which a peer listens.
pub open spec fn udp_multiaddr(port: nat, peer_id: Seq<char>) -> Seq<char> {
    "/ip4/1.2.3.4/udp/"@ + decimal(port) + "/p2p/"@ + peer_id
}

/// `OffchainPublicKey::to_peerid_str`: the key's peer id. An address that ends in it is read, and
/// written, as it stands.
#[verifier::external_body]
pub(crate) fn peer_id(key: &PacketKey) -> (text: String)
    ensures
        text@ == peer_id_of(key@),
        forall|port: u16|
            #![trigger udp_multiaddr(port as nat, text@)]
            canonical_multiaddr(udp_multiaddr(port as nat, text@)) == Some(udp_multiaddr(port as nat, text@)),
{
    OffchainPublicKey::try_from(key.bytes).expect("a key of 32 bytes").to_peerid_str()
}

/// The canonical text of the multiaddress that a text spells, or `None` where it spells none.
pub uninterp spec fn canonical_multiaddr(text: Seq<char>) -> Option<Seq<char>>;

/// `Multiaddr`'s `FromStr`, and the text that `Display` gives of what it reads.
#[verifier::external_body]
pub(crate) fn parse_multiaddr(text: &str) -> (address: Option<Multiaddr>)
    ensures
        match address {
            Some(found) => canonical_multiaddr(text@) == Some(found@),
            None => canonical_multiaddr(text@) is None,
        },
{
    hopr_api::chain::Multiaddr::from_str(text).ok().map(|found| Multiaddr { text: found.to_string() })
}

/// The names of the protocols that a multiaddress is made of; none where the text spells no
/// multiaddress.
pub uninterp spec fn protocol_names(text: Seq<char>) -> Seq<Seq<char>>;

/// `Multiaddr::protocol_stack` of the multiaddress that a text spells.
#[verifier::external_body]
pub(crate) fn protocol_stack(text: &str) -> (names: Vec<String>)
    ensures
        names@.map_values(|name: String| name@) == protocol_names(text@),
{
    hopr_api::chain::Multiaddr::from_str(text)
        .map(|address| address.protocol_stack().map(|name| name.to_string()).collect())
        .unwrap_or_default()
}

// ── Balances ─────────────────────────────────────────────────────────────────

/// Wei in one unit of either currency.
pub const WEI_PER_UNIT: u128 = 1_000_000_000_000_000_000;

/// `text` without the zeros at its end.
pub open spec fn without_trailing_zeros(text: Seq<char>) -> Seq<char>
    decreases text.len(),
{
    if text.len() > 0 && text.last() == '0' {
        without_trailing_zeros(text.drop_last())
    } else {
        text
    }
}

/// An amount of `wei` in units: the whole ones, then as many decimals as it takes.
pub open spec fn units_text(wei: nat) -> Seq<char> {
    let fraction = wei % WEI_PER_UNIT as nat;
    let decimals = Seq::new(18, |i: int| digit((fraction as int / pow(10, (17 - i) as nat) % 10) as nat));
    if fraction == 0 {
        decimal(wei / WEI_PER_UNIT as nat)
    } else {
        decimal(wei / WEI_PER_UNIT as nat) + "."@ + without_trailing_zeros(decimals)
    }
}

/// Whether a reading comes to `value`.
pub open spec fn reads_as<T>(reading: Result<T, Seq<char>>, value: T) -> bool {
    reading == Ok::<T, Seq<char>>(value)
}

/// Whether a reading comes to an error, told in these words.
pub open spec fn refused_with<T>(reading: Result<T, Seq<char>>, reason: Seq<char>) -> bool {
    reading == Err::<T, Seq<char>>(reason)
}

/// The wei of the wxHOPR amount that a text spells, or why it spells none.
pub uninterp spec fn parsed_hopr(text: Seq<char>) -> Result<nat, Seq<char>>;

/// The wei of the xDai amount that a text spells, or why it spells none.
pub uninterp spec fn parsed_xdai(text: Seq<char>) -> Result<nat, Seq<char>>;

/// `HoprBalance`'s `Display`: the amount in units and the currency's name. It reads back as the amount.
#[verifier::external_body]
pub(crate) fn hopr_text(balance: &HoprBalance) -> (text: String)
    ensures
        text@ == units_text(balance.wei.value()) + " wxHOPR"@,
        reads_as(parsed_hopr(text@), balance.wei.value()),
{
    let wei = [balance.wei.hi.to_be_bytes(), balance.wei.lo.to_be_bytes()].concat();
    hopr_types::primitive::prelude::HoprBalance::from_be_bytes(wei).to_string()
}

/// `XDaiBalance`'s `Display`: the amount in units and the currency's name. It reads back as the amount.
#[verifier::external_body]
pub(crate) fn xdai_text(balance: &XDaiBalance) -> (text: String)
    ensures
        text@ == units_text(balance.wei.value()) + " xDai"@,
        reads_as(parsed_xdai(text@), balance.wei.value()),
{
    let wei = [balance.wei.hi.to_be_bytes(), balance.wei.lo.to_be_bytes()].concat();
    hopr_types::primitive::prelude::XDaiBalance::from_be_bytes(wei).to_string()
}

/// `HoprBalance`'s `FromStr`. An error is told in its own words.
#[verifier::external_body]
pub(crate) fn parse_hopr(text: &str) -> (balance: Result<HoprBalance, String>)
    ensures
        match balance {
            Ok(found) => reads_as(parsed_hopr(text@), found.wei.value()),
            Err(reason) => refused_with(parsed_hopr(text@), reason@),
        },
{
    let balance = hopr_types::primitive::prelude::HoprBalance::from_str(text).map_err(|error| error.to_string())?;
    let wei = balance.to_be_bytes();
    Ok(HoprBalance {
        wei: U256 {
            hi: u128::from_be_bytes(wei[..16].try_into().expect("sixteen bytes")),
            lo: u128::from_be_bytes(wei[16..].try_into().expect("sixteen bytes")),
        },
    })
}

/// `XDaiBalance`'s `FromStr`. An error is told in its own words.
#[verifier::external_body]
pub(crate) fn parse_xdai(text: &str) -> (balance: Result<XDaiBalance, String>)
    ensures
        match balance {
            Ok(found) => reads_as(parsed_xdai(text@), found.wei.value()),
            Err(reason) => refused_with(parsed_xdai(text@), reason@),
        },
{
    let balance = hopr_types::primitive::prelude::XDaiBalance::from_str(text).map_err(|error| error.to_string())?;
    let wei = balance.to_be_bytes();
    Ok(XDaiBalance {
        wei: U256 {
            hi: u128::from_be_bytes(wei[..16].try_into().expect("sixteen bytes")),
            lo: u128::from_be_bytes(wei[16..].try_into().expect("sixteen bytes")),
        },
    })
}

// ── Times ────────────────────────────────────────────────────────────────────

/// The first second of the calendar's range, from the Unix epoch.
pub const MIN_CALENDAR_SECS: i64 = -8_334_601_228_800;

/// The last second of the calendar's range, from the Unix epoch.
pub const MAX_CALENDAR_SECS: i64 = 8_210_266_876_799;

/// The RFC 3339 text of a second, counted from the Unix epoch, and a fraction of it in nanoseconds.
pub uninterp spec fn rfc3339(secs: i64, nanos: u32) -> Option<Seq<char>>;

/// The second, counted from the Unix epoch, and the nanoseconds past it, that a text spells, or why it
/// spells none.
pub uninterp spec fn parsed_time(text: Seq<char>) -> Result<(i64, u32), Seq<char>>;

/// chrono's `DateTime::from_timestamp` and `to_rfc3339`: the text of a time in the calendar's range.
/// It reads back as the time.
#[verifier::external_body]
pub(crate) fn time_text(secs: i64, nanos: u32) -> (text: Option<String>)
    ensures
        match text {
            Some(written) => rfc3339(secs, nanos) == Some(written@),
            None => rfc3339(secs, nanos) is None,
        },
        MIN_CALENDAR_SECS <= secs <= MAX_CALENDAR_SECS && nanos < 1_000_000_000 ==> text is Some
            && reads_as(parsed_time(text->0@), (secs, nanos)),
{
    DateTime::from_timestamp(secs, nanos).map(|time| time.to_rfc3339())
}

/// `DateTime`'s `FromStr`: a relaxed form of RFC 3339. The nanoseconds stay below two seconds, the
/// second one being for leap seconds. An error is told in its own words.
#[verifier::external_body]
pub(crate) fn parse_time(text: &str) -> (time: Result<(i64, u32), String>)
    ensures
        match time {
            Ok(found) => reads_as(parsed_time(text@), found) && found.1 < 2_000_000_000,
            Err(reason) => refused_with(parsed_time(text@), reason@),
        },
{
    DateTime::from_str(text)
        .map(|time| (time.timestamp(), time.timestamp_subsec_nanos()))
        .map_err(|error| error.to_string())
}

// ── Services and contracts ───────────────────────────────────────────────────

/// `bytes` without the zeros at their end.
pub open spec fn without_padding(bytes: Seq<u8>) -> Seq<u8>
    decreases bytes.len(),
{
    if bytes.len() > 0 && bytes.last() == 0 {
        without_padding(bytes.drop_last())
    } else {
        bytes
    }
}

/// The text of a service type: its name where it is padded printable ASCII without spaces, and
/// otherwise its bytes in prefixed hexadecimal.
pub open spec fn service_type_name(id: Seq<u8>) -> Seq<char> {
    let name = without_padding(id);
    if name.len() > 0 && forall|i: int| 0 <= i < name.len() ==> 0x21 <= #[trigger] name[i] <= 0x7e {
        name.map_values(|byte: u8| byte as char)
    } else {
        "0x"@ + hex(id)
    }
}

/// `ServiceType`'s `Display`, on an id that is not zero: no type has that one.
#[verifier::external_body]
pub(crate) fn service_type_text(id: &[u8; 32]) -> (text: String)
    requires
        without_padding(id@).len() > 0,
    ensures
        text@ == service_type_name(id@),
{
    hopr_types::internal::prelude::ServiceType::try_from(*id).expect("an id that is not zero").to_string()
}

/// One field of a JSON object, an address under its name.
pub open spec fn json_field(name: Seq<char>, address: Seq<u8>) -> Seq<char> {
    "\""@ + name + "\":\"0x"@ + hex(address) + "\""@
}

/// The contract addresses of a deployment as a JSON object.
pub open spec fn contracts_json(contracts: ContractAddresses) -> Seq<char> {
    "{"@ + json_field("token"@, contracts.token@) + ","@ + json_field("channels"@, contracts.channels@) + ","@
        + json_field("announcements"@, contracts.announcements@) + ","@
        + json_field("node_safe_registry"@, contracts.node_safe_registry@) + ","@
        + json_field("service_registry"@, contracts.service_registry@) + ","@
        + json_field("ticket_price_oracle"@, contracts.ticket_price_oracle@) + ","@
        + json_field("winning_probability_oracle"@, contracts.winning_probability_oracle@) + ","@
        + json_field("node_safe_migration"@, contracts.node_safe_migration@) + ","@
        + json_field("node_stake_factory"@, contracts.node_stake_factory@) + ","@
        + json_field("module_implementation"@, contracts.module_implementation@) + "}"@
}

/// The contract addresses that a JSON text holds, in their order of declaration, or why it holds none.
pub uninterp spec fn parsed_contracts(text: Seq<char>) -> Result<Seq<Seq<u8>>, Seq<char>>;

/// `serde_json::to_string` of hopr-types' `ContractAddresses`. It reads back as the addresses.
#[verifier::external_body]
pub(crate) fn contracts_text(contracts: &ContractAddresses) -> (text: String)
    ensures
        text@ == contracts_json(*contracts),
        reads_as(parsed_contracts(text@), contracts@),
{
    let c = contracts;
    serde_json::to_string(&hopr_types::chain::ContractAddresses {
        token: c.token.bytes.into(), channels: c.channels.bytes.into(),
        announcements: c.announcements.bytes.into(), node_safe_registry: c.node_safe_registry.bytes.into(),
        service_registry: c.service_registry.bytes.into(), ticket_price_oracle: c.ticket_price_oracle.bytes.into(),
        winning_probability_oracle: c.winning_probability_oracle.bytes.into(),
        node_safe_migration: c.node_safe_migration.bytes.into(),
        node_stake_factory: c.node_stake_factory.bytes.into(),
        module_implementation: c.module_implementation.bytes.into(),
    }).expect("addresses are texts")
}

/// `serde_json::from_str` into hopr-types' `ContractAddresses`. An error is told in its own words.
#[verifier::external_body]
pub(crate) fn parse_contracts(text: &str) -> (contracts: Result<ContractAddresses, String>)
    ensures
        match contracts {
            Ok(found) => reads_as(parsed_contracts(text@), found@),
            Err(reason) => refused_with(parsed_contracts(text@), reason@),
        },
{
    let c: hopr_types::chain::ContractAddresses = serde_json::from_str(text).map_err(|error| error.to_string())?;
    Ok(ContractAddresses {
        token: Address { bytes: c.token.into() }, channels: Address { bytes: c.channels.into() },
        announcements: Address { bytes: c.announcements.into() },
        node_safe_registry: Address { bytes: c.node_safe_registry.into() },
        service_registry: Address { bytes: c.service_registry.into() },
        ticket_price_oracle: Address { bytes: c.ticket_price_oracle.into() },
        winning_probability_oracle: Address { bytes: c.winning_probability_oracle.into() },
        node_safe_migration: Address { bytes: c.node_safe_migration.into() },
        node_stake_factory: Address { bytes: c.node_stake_factory.into() },
        module_implementation: Address { bytes: c.module_implementation.into() },
    })
}

// ── Payloads ─────────────────────────────────────────────────────────────────

/// The address of the account that a secp256k1 secret controls, or `None` where it is no secret.
pub uninterp spec fn chain_key_address(secret: Seq<u8>) -> Option<Seq<u8>>;

/// `ChainKeypair::from_secret` and the address of the public key it makes.
#[verifier::external_body]
pub(crate) fn chain_address(key: &ChainKey) -> (address: Option<Address>)
    ensures
        match address {
            Some(found) => chain_key_address(key.secret@) == Some(found@),
            None => chain_key_address(key.secret@) is None,
        },
{
    let keypair = ChainKeypair::from_secret(&key.secret).ok()?;
    Some(Address { bytes: keypair.public().to_address().into() })
}

/// The most wei that one payment into a channel can carry.
pub const MAX_FUNDING_AMOUNT: u128 = 10_000_000_000_000_000_000_000_000;

/// Whether `secret` is the key of an account other than `other`.
pub open spec fn is_key_of_another(secret: Seq<u8>, other: Seq<u8>) -> bool {
    chain_key_address(secret) matches Some(own) && own != other
}

/// The payload by which the node of `secret` pays `wei` into its channel to `destination`, or why there is
/// none.
pub uninterp spec fn funding_payload(secret: Seq<u8>, channels: Seq<u8>, module: Seq<u8>, destination: Seq<u8>, wei: nat) -> Result<(Option<Seq<u8>>, Seq<u8>, Seq<u8>, Option<u64>), Seq<char>>;

/// `SafePayloadGenerator::fund_channel`, for the node of a key, on a channels contract and through a
/// module. There is no such payload to oneself, nor above [`MAX_FUNDING_AMOUNT`]. An error is told in its
/// own words, here as in the other payloads.
#[verifier::external_body]
pub(crate) fn fund_channel_payload(
    key: &ChainKey,
    channels: &Address,
    module: &Address,
    destination: &Address,
    amount: &HoprBalance,
) -> (payload: Result<TransactionRequest, String>)
    ensures
        match payload {
            Ok(request) => reads_as(funding_payload(key.secret@, channels@, module@, destination@, amount.wei.value()), request@),
            Err(reason) => refused_with(funding_payload(key.secret@, channels@, module@, destination@, amount.wei.value()), reason@),
        },
        payload is Ok == (is_key_of_another(key.secret@, destination@) && amount.wei.value() <= MAX_FUNDING_AMOUNT),
{
    let keypair = ChainKeypair::from_secret(&key.secret).map_err(|error| error.to_string())?;
    let contracts =
        hopr_types::chain::ContractAddresses { channels: channels.bytes.into(), ..Default::default() };
    let wei = [amount.wei.hi.to_be_bytes(), amount.wei.lo.to_be_bytes()].concat();
    SafePayloadGenerator::new(&keypair, contracts, module.bytes.into())
        .fund_channel(destination.bytes.into(), hopr_types::primitive::prelude::HoprBalance::from_be_bytes(wei))
        .map_err(|error| error.to_string())
        .map(|request| TransactionRequest {
            to: request.to.map(|bytes| Address { bytes }),
            input: request.input,
            value: request.value,
            gas_limit: request.gas_limit,
        })
}

/// The payload by which the node of `secret` initiates the closure of its channel to `destination`, or why there is
/// none.
pub uninterp spec fn initiation_payload(secret: Seq<u8>, channels: Seq<u8>, module: Seq<u8>, destination: Seq<u8>) -> Result<(Option<Seq<u8>>, Seq<u8>, Seq<u8>, Option<u64>), Seq<char>>;

/// `SafePayloadGenerator::initiate_outgoing_channel_closure`, for the node of a key, on a channels
/// contract and through a module. There is no such payload to oneself.
#[verifier::external_body]
pub(crate) fn initiate_closure_payload(
    key: &ChainKey,
    channels: &Address,
    module: &Address,
    destination: &Address,
) -> (payload: Result<TransactionRequest, String>)
    ensures
        match payload {
            Ok(request) => reads_as(initiation_payload(key.secret@, channels@, module@, destination@), request@),
            Err(reason) => refused_with(initiation_payload(key.secret@, channels@, module@, destination@), reason@),
        },
        payload is Ok == is_key_of_another(key.secret@, destination@),
{
    let keypair = ChainKeypair::from_secret(&key.secret).map_err(|error| error.to_string())?;
    let contracts =
        hopr_types::chain::ContractAddresses { channels: channels.bytes.into(), ..Default::default() };
    SafePayloadGenerator::new(&keypair, contracts, module.bytes.into())
        .initiate_outgoing_channel_closure(destination.bytes.into())
        .map_err(|error| error.to_string())
        .map(|request| TransactionRequest {
            to: request.to.map(|bytes| Address { bytes }),
            input: request.input,
            value: request.value,
            gas_limit: request.gas_limit,
        })
}

/// The payload by which the node of `secret` finalizes the closure of its channel to `destination`, or why there is
/// none.
pub uninterp spec fn finalization_payload(secret: Seq<u8>, channels: Seq<u8>, module: Seq<u8>, destination: Seq<u8>) -> Result<(Option<Seq<u8>>, Seq<u8>, Seq<u8>, Option<u64>), Seq<char>>;

/// `SafePayloadGenerator::finalize_outgoing_channel_closure`, for the node of a key, on a channels
/// contract and through a module. There is no such payload to oneself.
#[verifier::external_body]
pub(crate) fn finalize_closure_payload(
    key: &ChainKey,
    channels: &Address,
    module: &Address,
    destination: &Address,
) -> (payload: Result<TransactionRequest, String>)
    ensures
        match payload {
            Ok(request) => reads_as(finalization_payload(key.secret@, channels@, module@, destination@), request@),
            Err(reason) => refused_with(finalization_payload(key.secret@, channels@, module@, destination@), reason@),
        },
        payload is Ok == is_key_of_another(key.secret@, destination@),
{
    let keypair = ChainKeypair::from_secret(&key.secret).map_err(|error| error.to_string())?;
    let contracts =
        hopr_types::chain::ContractAddresses { channels: channels.bytes.into(), ..Default::default() };
    SafePayloadGenerator::new(&keypair, contracts, module.bytes.into())
        .finalize_outgoing_channel_closure(destination.bytes.into())
        .map_err(|error| error.to_string())
        .map(|request| TransactionRequest {
            to: request.to.map(|bytes| Address { bytes }),
            input: request.input,
            value: request.value,
            gas_limit: request.gas_limit,
        })
}

/// The payload by which the node of `secret` sends `wei` of wxHOPR to `recipient`, or why there is
/// none.
pub uninterp spec fn hopr_transfer_payload(secret: Seq<u8>, token: Seq<u8>, module: Seq<u8>, recipient: Seq<u8>, wei: nat) -> Result<(Option<Seq<u8>>, Seq<u8>, Seq<u8>, Option<u64>), Seq<char>>;

/// `SafePayloadGenerator::transfer` of wxHOPR, for the node of a key, on a token contract and through a
/// module.
#[verifier::external_body]
pub(crate) fn transfer_hopr_payload(
    key: &ChainKey,
    token: &Address,
    module: &Address,
    recipient: &Address,
    amount: &HoprBalance,
) -> (payload: Result<TransactionRequest, String>)
    ensures
        match payload {
            Ok(request) => reads_as(hopr_transfer_payload(key.secret@, token@, module@, recipient@, amount.wei.value()), request@),
            Err(reason) => refused_with(hopr_transfer_payload(key.secret@, token@, module@, recipient@, amount.wei.value()), reason@),
        },
        payload is Ok == chain_key_address(key.secret@) is Some,
{
    let keypair = ChainKeypair::from_secret(&key.secret).map_err(|error| error.to_string())?;
    let contracts = hopr_types::chain::ContractAddresses { token: token.bytes.into(), ..Default::default() };
    let wei = [amount.wei.hi.to_be_bytes(), amount.wei.lo.to_be_bytes()].concat();
    SafePayloadGenerator::new(&keypair, contracts, module.bytes.into())
        .transfer(recipient.bytes.into(), hopr_types::primitive::prelude::HoprBalance::from_be_bytes(wei))
        .map_err(|error| error.to_string())
        .map(|request| TransactionRequest {
            to: request.to.map(|bytes| Address { bytes }),
            input: request.input,
            value: request.value,
            gas_limit: request.gas_limit,
        })
}

/// The payload by which the node of `secret` sends `wei` of xDai to `recipient`, or why there is
/// none.
pub uninterp spec fn xdai_transfer_payload(secret: Seq<u8>, token: Seq<u8>, module: Seq<u8>, recipient: Seq<u8>, wei: nat) -> Result<(Option<Seq<u8>>, Seq<u8>, Seq<u8>, Option<u64>), Seq<char>>;

/// `SafePayloadGenerator::transfer` of xDai, for the node of a key, on a token contract and through a
/// module.
#[verifier::external_body]
pub(crate) fn transfer_xdai_payload(
    key: &ChainKey,
    token: &Address,
    module: &Address,
    recipient: &Address,
    amount: &XDaiBalance,
) -> (payload: Result<TransactionRequest, String>)
    ensures
        match payload {
            Ok(request) => reads_as(xdai_transfer_payload(key.secret@, token@, module@, recipient@, amount.wei.value()), request@),
            Err(reason) => refused_with(xdai_transfer_payload(key.secret@, token@, module@, recipient@, amount.wei.value()), reason@),
        },
        payload is Ok == chain_key_address(key.secret@) is Some,
{
    let keypair = ChainKeypair::from_secret(&key.secret).map_err(|error| error.to_string())?;
    let contracts = hopr_types::chain::ContractAddresses { token: token.bytes.into(), ..Default::default() };
    let wei = [amount.wei.hi.to_be_bytes(), amount.wei.lo.to_be_bytes()].concat();
    SafePayloadGenerator::new(&keypair, contracts, module.bytes.into())
        .transfer(recipient.bytes.into(), hopr_types::primitive::prelude::XDaiBalance::from_be_bytes(wei))
        .map_err(|error| error.to_string())
        .map(|request| TransactionRequest {
            to: request.to.map(|bytes| Address { bytes }),
            input: request.input,
            value: request.value,
            gas_limit: request.gas_limit,
        })
}

/// The payload by which the node of `secret` registers `safe` as its own, or why there is
/// none.
pub uninterp spec fn safe_registration_payload(secret: Seq<u8>, registry: Seq<u8>, module: Seq<u8>, safe: Seq<u8>) -> Result<(Option<Seq<u8>>, Seq<u8>, Seq<u8>, Option<u64>), Seq<char>>;

/// `SafePayloadGenerator::register_safe_by_node`, for the node of a key, on a registry contract.
#[verifier::external_body]
pub(crate) fn register_safe_payload(
    key: &ChainKey,
    registry: &Address,
    module: &Address,
    safe: &Address,
) -> (payload: Result<TransactionRequest, String>)
    ensures
        match payload {
            Ok(request) => reads_as(safe_registration_payload(key.secret@, registry@, module@, safe@), request@),
            Err(reason) => refused_with(safe_registration_payload(key.secret@, registry@, module@, safe@), reason@),
        },
        payload is Ok == chain_key_address(key.secret@) is Some,
{
    let keypair = ChainKeypair::from_secret(&key.secret).map_err(|error| error.to_string())?;
    let contracts =
        hopr_types::chain::ContractAddresses { node_safe_registry: registry.bytes.into(), ..Default::default() };
    SafePayloadGenerator::new(&keypair, contracts, module.bytes.into())
        .register_safe_by_node(safe.bytes.into())
        .map_err(|error| error.to_string())
        .map(|request| TransactionRequest {
            to: request.to.map(|bytes| Address { bytes }),
            input: request.input,
            value: request.value,
            gas_limit: request.gas_limit,
        })
}

/// Whether a point, where there is one, is not the one at infinity: the SEC 1 encoding of every other has
/// 65 bytes.
pub open spec fn is_regular(point: Option<Seq<u8>>) -> bool {
    point matches Some(encoding) ==> encoding.len() == 65
}

/// Whether a reading is what its name says.
pub open spec fn point_is(point: Option<Vec<u8>>, named: Option<Seq<u8>>) -> bool {
    match point {
        Some(encoding) => named == Some(encoding@),
        None => named is None,
    }
}

/// The point `V` of the ticket that a JSON text holds, where it holds one.
pub uninterp spec fn v_point(ticket: Seq<char>) -> Option<Seq<u8>>;

/// `VrfParameters::get_v_encoded_point` of the `RedeemableTicket` that a JSON text holds, in SEC 1 encoding.
#[verifier::external_body]
pub(crate) fn ticket_v_point(ticket: &str) -> (point: Option<Vec<u8>>)
    ensures
        point_is(point, v_point(ticket@)),
{
    let ticket: RedeemableTicket = serde_json::from_str(ticket).ok()?;
    Some(ticket.vrf_params.get_v_encoded_point().as_bytes().to_vec())
}

/// The witness `h * V` of the ticket that a JSON text holds, where it holds one.
pub uninterp spec fn h_v_point(ticket: Seq<char>) -> Option<Seq<u8>>;

/// `VrfParameters::get_h_v_witness` of the `RedeemableTicket` that a JSON text holds, in SEC 1 encoding.
#[verifier::external_body]
pub(crate) fn ticket_h_v_point(ticket: &str) -> (point: Option<Vec<u8>>)
    ensures
        point_is(point, h_v_point(ticket@)),
{
    let ticket: RedeemableTicket = serde_json::from_str(ticket).ok()?;
    Some(ticket.vrf_params.get_h_v_witness().as_bytes().to_vec())
}

/// The witness `s * G` of the ticket that a JSON text holds, where it holds one.
pub uninterp spec fn s_g_point(ticket: Seq<char>) -> Option<Seq<u8>>;

/// `VrfParameters::get_s_g_witness` of the `RedeemableTicket` that a JSON text holds, in SEC 1 encoding.
#[verifier::external_body]
pub(crate) fn ticket_s_g_point(ticket: &str) -> (point: Option<Vec<u8>>)
    ensures
        point_is(point, s_g_point(ticket@)),
{
    let ticket: RedeemableTicket = serde_json::from_str(ticket).ok()?;
    Some(ticket.vrf_params.get_s_g_witness().as_bytes().to_vec())
}

/// The point `A` of the ticket that a JSON text holds, where it holds one.
pub uninterp spec fn a_point(ticket: Seq<char>) -> Option<Seq<u8>>;

/// `VrfParameters::get_a_encoded_point` of the `RedeemableTicket` that a JSON text holds, in SEC 1 encoding.
#[verifier::external_body]
pub(crate) fn ticket_a_point(ticket: &str) -> (point: Option<Vec<u8>>)
    ensures
        point_is(point, a_point(ticket@)),
{
    let ticket: RedeemableTicket = serde_json::from_str(ticket).ok()?;
    Some(ticket.vrf_params.get_a_encoded_point().as_bytes().to_vec())
}

/// The witness `h * A` of the ticket that a JSON text holds, where it holds one.
pub uninterp spec fn h_a_point(ticket: Seq<char>) -> Option<Seq<u8>>;

/// `VrfParameters::get_h_a_witness` of the `RedeemableTicket` that a JSON text holds, in SEC 1 encoding.
#[verifier::external_body]
pub(crate) fn ticket_h_a_point(ticket: &str) -> (point: Option<Vec<u8>>)
    ensures
        point_is(point, h_a_point(ticket@)),
{
    let ticket: RedeemableTicket = serde_json::from_str(ticket).ok()?;
    Some(ticket.vrf_params.get_h_a_witness().as_bytes().to_vec())
}

/// The witness `s * B` of the ticket that a JSON text holds, for the node of `secret`, where there is one.
pub uninterp spec fn s_b_point(secret: Seq<u8>, ticket: Seq<char>) -> Option<Seq<u8>>;

/// `VrfParameters::get_s_b_witness` of the `RedeemableTicket` that a JSON text holds, for the node of a key,
/// in SEC 1 encoding. There is none where the secret is none or the point cannot be made.
#[verifier::external_body]
pub(crate) fn ticket_s_b_point(key: &ChainKey, ticket: &str) -> (point: Option<Vec<u8>>)
    ensures
        point_is(point, s_b_point(key.secret@, ticket@)),
{
    let me = ChainKeypair::from_secret(&key.secret).ok()?.public().to_address();
    let ticket: RedeemableTicket = serde_json::from_str(ticket).ok()?;
    let hash: [u8; 32] = (*ticket.ticket.verified_hash()).into();
    let witness = ticket.vrf_params.get_s_b_witness(&me, &hash, ticket.channel_dst.as_ref());
    witness.ok().map(|point| point.as_bytes().to_vec())
}

/// Whether none of the points that redeeming a ticket takes is the one at infinity.
pub open spec fn points_are_regular(secret: Seq<u8>, ticket: Seq<char>) -> bool {
    &&& is_regular(v_point(ticket))
    &&& is_regular(a_point(ticket))
    &&& is_regular(h_v_point(ticket))
    &&& is_regular(h_a_point(ticket))
    &&& is_regular(s_g_point(ticket))
    &&& is_regular(s_b_point(secret, ticket))
}

/// The payload by which the node of `secret` redeems the ticket that a JSON text holds, or why there is
/// none.
pub uninterp spec fn redemption_payload(secret: Seq<u8>, channels: Seq<u8>, module: Seq<u8>, ticket: Seq<char>) -> Result<(Option<Seq<u8>>, Seq<u8>, Seq<u8>, Option<u64>), Seq<char>>;

/// `SafePayloadGenerator::redeem_ticket` of the `RedeemableTicket` that a JSON text holds, for the node of
/// a key, on a channels contract and through a module. Where the text holds no ticket or the secret is
/// none, there is no such payload. It panics on a ticket with a point at infinity.
#[verifier::external_body]
pub(crate) fn redeem_ticket_payload(
    key: &ChainKey,
    channels: &Address,
    module: &Address,
    ticket: &str,
) -> (payload: Result<TransactionRequest, String>)
    requires
        points_are_regular(key.secret@, ticket@),
    ensures
        match payload {
            Ok(request) => reads_as(redemption_payload(key.secret@, channels@, module@, ticket@), request@),
            Err(reason) => refused_with(redemption_payload(key.secret@, channels@, module@, ticket@), reason@),
        },
        payload is Ok ==> s_b_point(key.secret@, ticket@) is Some,
{
    let keypair = ChainKeypair::from_secret(&key.secret).map_err(|error| error.to_string())?;
    let ticket: RedeemableTicket = serde_json::from_str(ticket).map_err(|error| error.to_string())?;
    let contracts =
        hopr_types::chain::ContractAddresses { channels: channels.bytes.into(), ..Default::default() };
    SafePayloadGenerator::new(&keypair, contracts, module.bytes.into())
        .redeem_ticket(ticket)
        .map_err(|error| error.to_string())
        .map(|request| TransactionRequest {
            to: request.to.map(|bytes| Address { bytes }),
            input: request.input,
            value: request.value,
            gas_limit: request.gas_limit,
        })
}

/// A ticket can be redeemed where none of the six points that this takes is at infinity, and only there.
pub proof fn a_ticket_is_regular_where_all_its_points_are(secret: Seq<u8>, ticket: Seq<char>)
    ensures
        points_are_regular(secret, ticket) <==> {
            &&& v_point(ticket) is None || v_point(ticket)->0.len() == 65
            &&& a_point(ticket) is None || a_point(ticket)->0.len() == 65
            &&& h_v_point(ticket) is None || h_v_point(ticket)->0.len() == 65
            &&& h_a_point(ticket) is None || h_a_point(ticket)->0.len() == 65
            &&& s_g_point(ticket) is None || s_g_point(ticket)->0.len() == 65
            &&& s_b_point(secret, ticket) is None || s_b_point(secret, ticket)->0.len() == 65
        },
{
}

} // verus!
