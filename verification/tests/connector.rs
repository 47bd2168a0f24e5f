use hopr_types::chain::payload::{PayloadGenerator, SafePayloadGenerator};
use hopr_types::crypto::prelude::{ChainKeypair, HalfKey, Keypair, Response};
use hopr_types::internal::prelude::{RedeemableTicket, TicketBuilder};
use hopr_types::primitive::prelude::{Address as HoprAddress, EthereumChallenge};
use hopr_utilities::testing::blokli::builder::{Balances, BlokliTestStateBuilder};
use hopr_utilities::testing::blokli::chain::{
    AccountEntry, AccountType, Address, ChainEvent, ChainInfo, ChainKey, ChannelEntry, ChannelStatus, ContractAddresses,
    Digest, HoprBalance, Multiaddr, PacketKey, StatusKind, Timestamp, TransactionRequest, WinningProbability,
    XDaiBalance, U256,
};
use hopr_utilities::testing::blokli::connector::convert::{
    convert_account_model, convert_channel_model, convert_hopr_balance, convert_safe_model, convert_xdai_balance,
    parse_chain_info_model, redemption_stats,
};
use hopr_utilities::testing::blokli::connector::ingest::{create_test_blokli_connector, event_between};
use hopr_utilities::testing::blokli::connector::reads::{
    await_safe_deployment, get_service_registry_config, packet_payload_size, read_safe_info, register_test_safe,
    AccountSelector, BalanceQuery, ChannelSelector, Currency, NoopKeyMapper, Query, SafeQuery, SafeSelector, Streamed,
    TimeBound,
};
use hopr_utilities::testing::blokli::connector::writes::{
    point_is_regular, unsupported_by_test_connector, view_limit, view_poll, Expectation, PendingWrite, SafeRegistrationError, ViewWait,
    Withdrawal, WriteStep,
};
use hopr_utilities::testing::blokli::connector::{Field, TestChainConnector, TestConnectorError, Unsupported};
use hopr_utilities::testing::blokli::faults::{ChainOp, EventKind, Fault, Passage};
use hopr_utilities::testing::blokli::model::{
    Account, ChainInfoRecord, Channel, GraphEntry, RedeemedStats, RegistryInfo, Safe,
};
use hopr_utilities::testing::blokli::state::BlokliTestState;
use hopr_utilities::time::Duration;

const UNIT: u128 = 1_000_000_000_000_000_000;

/// What reading a text as a `T` says against it.
fn reason<T: std::str::FromStr>(text: &str) -> String
where
    T::Err: std::fmt::Display,
{
    match text.parse::<T>() {
        Ok(_) => panic!("{text:?} is readable"),
        Err(error) => error.to_string(),
    }
}

fn address(byte: u8) -> Address {
    Address { bytes: [byte; 20] }
}

fn hopr(lo: u128) -> HoprBalance {
    HoprBalance { wei: U256 { hi: 0, lo } }
}

fn secret() -> ChainKey {
    ChainKey { secret: [7; 32] }
}

fn keypair() -> ChainKeypair {
    ChainKeypair::from_secret(&[7; 32]).expect("a secret")
}

fn me() -> Address {
    Address {
        bytes: keypair().public().to_address().into(),
    }
}

fn module() -> Address {
    address(0xee)
}

fn contracts() -> ContractAddresses {
    ContractAddresses {
        token: address(1),
        channels: address(2),
        announcements: address(3),
        node_safe_registry: address(4),
        service_registry: address(5),
        ticket_price_oracle: address(6),
        winning_probability_oracle: address(7),
        node_safe_migration: address(8),
        node_stake_factory: address(9),
        module_implementation: address(10),
    }
}

fn generator() -> SafePayloadGenerator {
    SafePayloadGenerator::new(
        &keypair(),
        hopr_types::chain::ContractAddresses {
            token: [1; 20].into(),
            channels: [2; 20].into(),
            announcements: [3; 20].into(),
            node_safe_registry: [4; 20].into(),
            service_registry: [5; 20].into(),
            ticket_price_oracle: [6; 20].into(),
            winning_probability_oracle: [7; 20].into(),
            node_safe_migration: [8; 20].into(),
            node_stake_factory: [9; 20].into(),
            module_implementation: [10; 20].into(),
        },
        module().bytes.into(),
    )
}

fn request(payload: hopr_types::chain::payload::TransactionRequest) -> TransactionRequest {
    TransactionRequest {
        to: payload.to.map(|bytes| Address { bytes }),
        input: payload.input,
        value: payload.value,
        gas_limit: payload.gas_limit,
    }
}

fn probability() -> WinningProbability {
    WinningProbability { bytes: [0x80; 7] }
}

fn account(owner: Address, key_id: u32) -> AccountEntry {
    AccountEntry {
        public_key: PacketKey {
            bytes: [key_id as u8; 32],
        },
        chain_addr: owner,
        entry_type: AccountType::NotAnnounced,
        safe_address: Some(address(key_id as u8 + 100)),
        key_id,
    }
}

fn channel(source: Address, destination: Address, status: ChannelStatus, wei: u128) -> ChannelEntry {
    let id = hopr_types::internal::prelude::generate_channel_id(&source.bytes.into(), &destination.bytes.into());
    ChannelEntry {
        source,
        destination,
        balance: hopr(wei),
        ticket_index: 1,
        status,
        channel_epoch: 1,
        id: Digest { bytes: id.into() },
    }
}

fn pending(nanos: i128) -> ChannelStatus {
    ChannelStatus::PendingToClose(Timestamp { nanos })
}

fn bare_state() -> BlokliTestState {
    BlokliTestState::new(
        ChainInfoRecord {
            chain_id: 0,
            network: String::new(),
            contract_addresses: String::new(),
            ticket_price: "1 wxHOPR".to_string(),
            key_binding_fee: "0.01 wxHOPR".to_string(),
            channel_closure_grace_period: "300".to_string(),
            ledger_dst: None,
            safe_registry_dst: None,
            channel_dst: None,
            min_ticket_winning_probability: 1.0f64.to_bits(),
        },
        RegistryInfo {
            type_registration_fee: String::new(),
            node_safe_registry: String::new(),
        },
    )
}

fn peer(byte: u8) -> Address {
    address(0xa0 + byte)
}

fn channels() -> Vec<ChannelEntry> {
    vec![
        channel(me(), peer(1), ChannelStatus::Open, 10 * UNIT),
        channel(me(), peer(2), pending(1_700_000_000_000_000_000), UNIT),
        channel(peer(1), peer(2), ChannelStatus::Closed, 0),
    ]
}

fn state() -> BlokliTestState {
    BlokliTestStateBuilder::from_state(bare_state())
        .with_chain_info(&ChainInfo {
            chain_id: 100,
            hopr_network_name: "rotsee".to_string(),
            contract_addresses: contracts(),
        })
        .with_accounts(&vec![
            (account(me(), 1), hopr(UNIT), XDaiBalance::zero()),
            (account(peer(1), 2), hopr(UNIT), XDaiBalance::zero()),
            (account(peer(2), 3), hopr(UNIT), XDaiBalance::zero()),
        ])
        .with_channels(&channels())
        .build()
}

fn accounts_of(state: &BlokliTestState) -> Vec<Account> {
    (0..state.accounts.len()).map(|i| state.accounts.at(i).clone()).collect()
}

fn channels_of(state: &BlokliTestState) -> Vec<Channel> {
    (0..state.channels.len()).map(|i| state.channels.at(i).clone()).collect()
}

fn connector() -> TestChainConnector {
    let state = state();
    create_test_blokli_connector(
        &secret(),
        module(),
        &state.chain_info,
        Ok(probability()),
        &accounts_of(&state),
        &channels_of(&state),
    )
    .unwrap_or_else(|error| panic!("{}", error.message()))
}

fn everything() -> AccountSelector {
    AccountSelector {
        public_only: false,
        chain_key: None,
        offchain_key: None,
    }
}

fn any_channel() -> ChannelSelector {
    ChannelSelector {
        source: None,
        destination: None,
        id: None,
        allowed_states: vec![],
        closure_time_range: (TimeBound::Unbounded, TimeBound::Unbounded),
    }
}

fn items<T>(streamed: Streamed<T>) -> Vec<T> {
    match streamed {
        Streamed::Items(items) => items,
        Streamed::Pending => panic!("a stream with items"),
    }
}

#[test]
fn a_built_state_is_loaded_whole() {
    let mut connector = connector();
    assert_eq!(connector.me(), me());
    assert_eq!(connector.chain_id(), Ok(100));
    assert_eq!(connector.incoming_ticket_values(), Ok((probability(), hopr(UNIT))));
    let accounts = items(connector.stream_accounts(&everything()).unwrap());
    assert_eq!(accounts, vec![account(me(), 1), account(peer(1), 2), account(peer(2), 3)]);
    let loaded = items(connector.stream_channels(&any_channel()).unwrap());
    assert_eq!(loaded, channels());
    for entry in channels() {
        assert_eq!(connector.channel_by_id(&entry.id), Some(entry));
    }
    assert_eq!(connector.channel_by_id(&Digest { bytes: [0; 32] }), None);
}

#[test]
fn a_disconnected_connector_says_so() {
    let mut connector = TestChainConnector::new(me(), secret(), module());
    assert_eq!(connector.chain_id(), Err(TestConnectorError::NotConnected));
    assert_eq!(connector.incoming_ticket_values(), Err(TestConnectorError::NotConnected));
    assert_eq!(
        connector.open_channel(&peer(1), hopr(1)),
        Err(TestConnectorError::NotConnected)
    );
    assert_eq!(
        connector.withdraw(Withdrawal::WxHOPR(hopr(1)), &peer(1)),
        Err(TestConnectorError::NotConnected)
    );
    assert_eq!(connector.redeem_ticket("{}"), Err(TestConnectorError::NotConnected));
    assert_eq!(
        connector.register_safe(&peer(1), &vec![], &vec![safe_record("")]),
        Err(SafeRegistrationError::Processing(TestConnectorError::NotConnected))
    );
    assert_eq!(TestConnectorError::NotConnected.message(), "connector not connected");
}

#[test]
fn connecting_stops_at_the_first_record_it_cannot_read() {
    let state = state();
    let mut accounts = accounts_of(&state);
    accounts[1].chain_key = "nonsense".to_string();
    let mut connector = TestChainConnector::new(me(), secret(), module());
    assert_eq!(
        connector.connect(&state.chain_info, Ok(probability()), &accounts, &channels_of(&state)),
        Err(TestConnectorError::Invalid(
            Field::ChainKey,
            reason::<HoprAddress>("nonsense")
        ))
    );
    assert_eq!(connector.chain_id(), Ok(100));
    assert_eq!(connector.count_accounts(&everything()), 1);
    assert!(items(connector.stream_channels(&any_channel()).unwrap()).is_empty());

    let mut connector = TestChainConnector::new(me(), secret(), module());
    let mut channels = channels_of(&state);
    channels[1].source = -7;
    assert_eq!(
        connector.connect(&state.chain_info, Ok(probability()), &accounts_of(&state), &channels),
        Err(TestConnectorError::SourceUnknown(-7))
    );
    assert_eq!(items(connector.stream_channels(&any_channel()).unwrap()).len(), 1);
    assert_eq!(
        TestConnectorError::SourceUnknown(-7).message(),
        "source key_id -7 not found in accounts"
    );
    channels[1].source = 1;
    channels[1].destination = 77;
    assert_eq!(
        connector.connect(&state.chain_info, Ok(probability()), &accounts_of(&state), &channels),
        Err(TestConnectorError::DestinationUnknown(77))
    );
    assert_eq!(
        TestConnectorError::DestinationUnknown(77).message(),
        "destination key_id 77 not found in accounts"
    );

    let mut connector = TestChainConnector::new(me(), secret(), module());
    assert_eq!(
        connector.connect(&state.chain_info, Err("above one".to_string()), &accounts, &channels),
        Err(TestConnectorError::Invalid(
            Field::WinningProbability,
            "above one".to_string()
        ))
    );
    assert_eq!(connector.chain_id(), Err(TestConnectorError::NotConnected));
}

#[test]
fn the_first_connection_stays() {
    let mut connector = connector();
    let other = BlokliTestStateBuilder::from_state(state())
        .with_chain_info(&ChainInfo {
            chain_id: 5,
            hopr_network_name: "other".to_string(),
            contract_addresses: contracts(),
        })
        .with_ticket_price(hopr(9 * UNIT))
        .build();
    assert_eq!(connector.connect_chain_info(&other.chain_info, Ok(probability())), Ok(()));
    assert_eq!(connector.chain_id(), Ok(100));
    assert_eq!(connector.incoming_ticket_values(), Ok((probability(), hopr(UNIT))));
}

#[test]
fn a_bad_key_makes_no_connector() {
    let state = state();
    let outcome = create_test_blokli_connector(
        &ChainKey { secret: [0; 32] },
        module(),
        &state.chain_info,
        Ok(probability()),
        &accounts_of(&state),
        &channels_of(&state),
    );
    assert!(matches!(outcome, Err(TestConnectorError::InvalidSignerKey)));
    assert_eq!(TestConnectorError::InvalidSignerKey.message(), "invalid signer key");
}

#[test]
fn events_tell_what_has_changed() {
    let open = channel(me(), peer(1), ChannelStatus::Open, 10);
    let closing = channel(me(), peer(1), pending(5_000_000_000), 10);
    let closed = channel(me(), peer(1), ChannelStatus::Closed, 10);
    assert_eq!(event_between(None, open), Some(ChainEvent::ChannelOpened(open)));
    assert_eq!(event_between(None, closing), None);
    assert_eq!(event_between(None, closed), None);
    for entry in [open, closing, closed] {
        assert_eq!(event_between(Some(entry), entry), None);
    }
    assert_eq!(
        event_between(Some(open), closing),
        Some(ChainEvent::ChannelClosureInitiated(closing))
    );
    assert_eq!(event_between(Some(closing), closed), Some(ChainEvent::ChannelClosed(closed)));
    assert_eq!(event_between(Some(closed), open), Some(ChainEvent::ChannelOpened(open)));
    // Less than a second apart is the same status.
    let later = channel(me(), peer(1), pending(5_999_999_999), 10);
    assert_eq!(event_between(Some(closing), later), None);
    let much_later = channel(me(), peer(1), pending(6_000_000_000), 10);
    assert_eq!(
        event_between(Some(closing), much_later),
        Some(ChainEvent::ChannelClosureInitiated(much_later))
    );

    let richer = channel(me(), peer(1), ChannelStatus::Open, 15);
    assert_eq!(
        event_between(Some(open), richer),
        Some(ChainEvent::ChannelBalanceIncreased(richer, hopr(5)))
    );
    assert_eq!(
        event_between(Some(richer), open),
        Some(ChainEvent::ChannelBalanceDecreased(open, hopr(5)))
    );
    let mut redeemed = open;
    redeemed.ticket_index = 2;
    assert_eq!(event_between(Some(open), redeemed), None, "a balance that stays is no news");
    assert_eq!(
        event_between(Some(richer), redeemed),
        Some(ChainEvent::TicketRedeemed(redeemed))
    );
    // A status that changes together with the balance tells of the status.
    let both = channel(me(), peer(1), ChannelStatus::Closed, 99);
    assert_eq!(event_between(Some(open), both), Some(ChainEvent::ChannelClosed(both)));
    // Across the halves of a balance.
    let mut huge = open;
    huge.balance = HoprBalance {
        wei: U256 { hi: 1, lo: 0 },
    };
    assert_eq!(
        event_between(Some(open), huge),
        Some(ChainEvent::ChannelBalanceIncreased(huge, hopr(u128::MAX - 9)))
    );
}

#[test]
fn graph_updates_change_the_view() {
    let mut connector = connector();
    let state = state();
    let mut update = GraphEntry {
        channel: state.channels.at(0).clone(),
        source: state.accounts.at(0).clone(),
        destination: state.accounts.at(1).clone(),
    };
    assert_eq!(connector.apply_graph_update(&update), Ok(None), "the snapshot is no news");
    update.channel.balance = "12 wxHOPR".to_string();
    let funded = channel(me(), peer(1), ChannelStatus::Open, 12 * UNIT);
    assert_eq!(
        connector.apply_graph_update(&update),
        Ok(Some(ChainEvent::ChannelBalanceIncreased(funded, hopr(2 * UNIT))))
    );
    assert_eq!(connector.channel_by_id(&funded.id), Some(funded));
    update.channel.ticket_index = "many".to_string();
    assert_eq!(
        connector.apply_graph_update(&update),
        Err(TestConnectorError::Invalid(Field::TicketIndex, reason::<u64>("many")))
    );
    assert_eq!(connector.channel_by_id(&funded.id), Some(funded));

    // A new account comes with its channel.
    let stranger = Account {
        chain_key: "cc".repeat(20),
        keyid: 44,
        multi_addresses: vec![],
        packet_key: "dd".repeat(32),
        safe_address: None,
    };
    update.channel.ticket_index = "3".to_string();
    update.destination = stranger;
    assert!(matches!(
        connector.apply_graph_update(&update),
        Ok(Some(ChainEvent::ChannelOpened(_)))
    ));
    assert_eq!(connector.count_accounts(&everything()), 4);
    assert_eq!(
        connector.chain_key_to_packet_key(&address(0xcc)),
        Some(PacketKey { bytes: [0xdd; 32] })
    );
}

#[test]
fn unreadable_records_are_refused_in_order() {
    let state = state();
    let mut model = state.accounts.at(0).clone();
    model.safe_address = Some("0x12".to_string());
    assert_eq!(
        convert_account_model(&model),
        Err(TestConnectorError::Invalid(Field::SafeAddress, reason::<HoprAddress>("0x12")))
    );
    model.chain_key.push('z');
    assert_eq!(
        convert_account_model(&model),
        Err(TestConnectorError::Invalid(
            Field::ChainKey,
            reason::<HoprAddress>(&model.chain_key)
        ))
    );
    model.packet_key = String::new();
    let refused = convert_account_model(&model).unwrap_err();
    assert_eq!(
        refused,
        TestConnectorError::Invalid(
            Field::PacketKey,
            reason::<hopr_types::crypto::prelude::OffchainPublicKey>("")
        )
    );
    assert_eq!(
        refused.message(),
        reason::<hopr_types::crypto::prelude::OffchainPublicKey>("")
    );

    let mut record = state.channels.at(0).clone();
    let read = |record: &Channel| convert_channel_model(record, me(), peer(1));
    record.epoch = -1;
    assert_eq!(
        read(&record),
        Err(TestConnectorError::Invalid(
            Field::Channel,
            "channel epoch too high".to_string()
        ))
    );
    record.ticket_index = "-1".to_string();
    let refused = read(&record).unwrap_err();
    assert_eq!(
        refused,
        TestConnectorError::Invalid(Field::TicketIndex, "invalid digit found in string".to_string())
    );
    assert_eq!(refused.message(), "invalid ticket index: invalid digit found in string");
    record.balance = "1 xDai".to_string();
    let told = reason::<hopr_types::primitive::prelude::HoprBalance>("1 xDai");
    assert_eq!(
        read(&record),
        Err(TestConnectorError::Invalid(Field::Balance, told.clone()))
    );
    assert_eq!(read(&record).unwrap_err().message(), told);
    record.status = StatusKind::PendingToClose;
    assert_eq!(read(&record), Err(TestConnectorError::MissingClosureTime));
    assert_eq!(
        TestConnectorError::MissingClosureTime.message(),
        "missing closure time on PendingToClose channel"
    );
    record.closure_time = Some("tomorrow".to_string());
    assert_eq!(
        read(&record),
        Err(TestConnectorError::Invalid(
            Field::ClosureTime,
            reason::<hopr_api::chain::DateTime>("tomorrow")
        ))
    );
    let refused = convert_channel_model(state.channels.at(0), me(), me()).unwrap_err();
    assert_eq!(
        refused,
        TestConnectorError::Invalid(
            Field::Channel,
            "source and destination cannot be the same".to_string()
        )
    );
    assert_eq!(refused.message(), "source and destination cannot be the same");
}

#[test]
fn channel_limits_are_those_of_the_chain() {
    let state = state();
    let mut record = state.channels.at(0).clone();
    record.ticket_index = "281474976710655".to_string();
    record.epoch = 16_777_215;
    record.balance = "79228162514264337593543950335 wei wxHOPR".to_string();
    assert!(convert_channel_model(&record, me(), peer(1)).is_ok());
    let mut over = record.clone();
    over.ticket_index = "281474976710656".to_string();
    assert_eq!(
        convert_channel_model(&over, me(), peer(1)).unwrap_err().message(),
        "ticket index too high"
    );
    let mut over = record.clone();
    over.epoch = 16_777_216;
    assert_eq!(
        convert_channel_model(&over, me(), peer(1)).unwrap_err().message(),
        "channel epoch too high"
    );
    let mut over = record.clone();
    over.balance = "79228162514264337593543950336 wei wxHOPR".to_string();
    assert_eq!(
        convert_channel_model(&over, me(), peer(1)).unwrap_err().message(),
        "balance too high"
    );
}

#[test]
fn unreadable_addresses_are_left_out_of_an_announcement() {
    let mut model = state().accounts.at(0).clone();
    model.multi_addresses = vec!["/ip4/1.2.3.4/tcp/80".to_string(), "not an address".to_string()];
    let entry = convert_account_model(&model).unwrap();
    assert_eq!(
        entry.entry_type,
        AccountType::Announced(vec![Multiaddr {
            text: "/ip4/1.2.3.4/tcp/80".to_string()
        }])
    );
    assert!(entry.has_announced_with_routing_info());
    model.multi_addresses = vec!["not an address".to_string()];
    let entry = convert_account_model(&model).unwrap();
    assert_eq!(entry.entry_type, AccountType::Announced(vec![]));
    assert!(!entry.has_announced_with_routing_info());
    model.multi_addresses = vec!["/ip4/1.2.3.4".to_string()];
    assert!(!convert_account_model(&model).unwrap().has_announced_with_routing_info());
    model.multi_addresses = vec!["/dns4/example.org/udp/9".to_string()];
    assert!(convert_account_model(&model).unwrap().has_announced_with_routing_info());
}

#[test]
fn chain_records_are_refused_in_order() {
    let mut record = state().chain_info;
    record.channel_closure_grace_period = "soon".to_string();
    record.ledger_dst = Some("x".to_string());
    record.safe_registry_dst = Some("x".to_string());
    record.channel_dst = Some("x".to_string());
    record.ticket_price = "x".to_string();
    record.contract_addresses = "{}".to_string();
    let refused = |record: &ChainInfoRecord, probability: Result<WinningProbability, String>| {
        match parse_chain_info_model(record, probability) {
            Err(TestConnectorError::Invalid(field, reason)) => (field, reason),
            other => panic!("unexpected {other:?}"),
        }
    };
    let unlikely = || Err("no probability".to_string());
    let hash = reason::<hopr_types::crypto::types::Hash>("x");
    assert_eq!(
        refused(&record, unlikely()),
        (Field::ClosureGracePeriod, reason::<u64>("soon"))
    );
    assert_eq!(
        parse_chain_info_model(&record, unlikely()).unwrap_err().message(),
        "invalid closure grace period: invalid digit found in string"
    );
    record.channel_closure_grace_period = "1".to_string();
    assert_eq!(refused(&record, unlikely()), (Field::LedgerSeparator, hash.clone()));
    record.ledger_dst = None;
    assert_eq!(refused(&record, unlikely()), (Field::SafeRegistrySeparator, hash.clone()));
    record.safe_registry_dst = None;
    assert_eq!(refused(&record, unlikely()), (Field::ChannelSeparator, hash));
    record.channel_dst = Some("01".repeat(32));
    assert_eq!(
        refused(&record, unlikely()),
        (Field::WinningProbability, "no probability".to_string())
    );
    assert_eq!(
        refused(&record, Ok(probability())),
        (
            Field::TicketPrice,
            reason::<hopr_types::primitive::prelude::HoprBalance>("x")
        )
    );
    record.ticket_price = "1 wxHOPR".to_string();
    let told = serde_json::from_str::<hopr_types::chain::ContractAddresses>("{}")
        .unwrap_err()
        .to_string();
    assert_eq!(
        refused(&record, Ok(probability())),
        (Field::ContractAddresses, told.clone())
    );
    assert_eq!(
        parse_chain_info_model(&record, Ok(probability())).unwrap_err().message(),
        format!("invalid contract addresses: {told}")
    );
    record.contract_addresses = state().chain_info.contract_addresses;
    record.chain_id = -1;
    let parsed = parse_chain_info_model(&record, Ok(probability())).unwrap();
    assert_eq!(parsed.chain_info.chain_id, u64::MAX);
    assert_eq!(parsed.domain_separators.channel, Digest { bytes: [1; 32] });
}

fn submitted(step: Result<WriteStep, TestConnectorError>) -> PendingWrite {
    match step {
        Ok(WriteStep::Submit(write)) => write,
        other => panic!("unexpected {other:?}"),
    }
}

#[test]
fn opening_a_channel_funds_it() {
    let mut connector = connector();
    let write = submitted(connector.open_channel(&peer(3), hopr(5)));
    assert_eq!(write.op, ChainOp::OpenChannel);
    assert_eq!(write.expectation, Expectation::Opened);
    assert_eq!(write.channel_id, channel(me(), peer(3), ChannelStatus::Open, 0).id);
    assert_eq!(write.submission.chain_id, 100);
    assert_eq!(write.submission.signer, me());
    let expected = generator()
        .fund_channel(peer(3).bytes.into(), hopr_types::primitive::prelude::HoprBalance::from(5))
        .unwrap();
    assert_eq!(write.submission.request, request(expected));
    assert_eq!(connector.faults().calls(ChainOp::OpenChannel), 1);

    let told = generator()
        .fund_channel(me().bytes.into(), hopr_types::primitive::prelude::HoprBalance::from(5))
        .unwrap_err()
        .to_string();
    assert_eq!(
        connector.open_channel(&me(), hopr(5)),
        Err(TestConnectorError::PayloadRefused(told.clone())),
        "no channel to oneself"
    );
    assert_eq!(TestConnectorError::PayloadRefused(told.clone()).message(), told);
    assert!(connector.open_channel(&peer(3), hopr(10_000_000 * UNIT)).is_ok());
    assert!(matches!(
        connector.open_channel(&peer(3), hopr(10_000_000 * UNIT + 1)),
        Err(TestConnectorError::PayloadRefused(_))
    ));
}

#[test]
fn funding_a_channel_expects_the_sum() {
    let mut connector = connector();
    let id = channels()[0].id;
    let write = submitted(connector.fund_channel(&id, hopr(UNIT)));
    assert_eq!(write.expectation, Expectation::FundedTo(hopr(11 * UNIT)));
    assert_eq!(write.channel_id, id);
    let expected = generator()
        .fund_channel(
            peer(1).bytes.into(),
            hopr_types::primitive::prelude::HoprBalance::new_base(1),
        )
        .unwrap();
    assert_eq!(write.submission.request, request(expected));
    let missing = Digest { bytes: [9; 32] };
    let error = connector.fund_channel(&missing, hopr(1)).unwrap_err();
    assert_eq!(error, TestConnectorError::ChannelNotFound(missing));
    assert_eq!(error.message(), format!("channel 0x{} not found", "09".repeat(32)));
}

#[test]
fn closing_a_channel_takes_two_steps() {
    let mut connector = connector();
    let [open, closing, closed] = [channels()[0], channels()[1], channels()[2]];
    let write = submitted(connector.close_channel(&open.id));
    assert_eq!(write.expectation, Expectation::Left(ChannelStatus::Open));
    let expected = generator()
        .initiate_outgoing_channel_closure(peer(1).bytes.into())
        .unwrap();
    assert_eq!(write.submission.request, request(expected));

    let write = submitted(connector.close_channel(&closing.id));
    assert_eq!(write.expectation, Expectation::Left(closing.status));
    let expected = generator()
        .finalize_outgoing_channel_closure(peer(2).bytes.into())
        .unwrap();
    assert_eq!(write.submission.request, request(expected));

    let error = connector.close_channel(&closed.id).unwrap_err();
    assert_eq!(error, TestConnectorError::ChannelAlreadyClosed(closed.id));
    assert_eq!(
        error.message(),
        format!("channel 0x{} is already closed", const_hex::encode(closed.id.bytes))
    );
    assert!(matches!(
        connector.close_channel(&Digest { bytes: [9; 32] }),
        Err(TestConnectorError::ChannelNotFound(_))
    ));
}

#[test]
fn faults_come_before_everything_else() {
    let mut connector = TestChainConnector::new(me(), secret(), module());
    let missing = Digest { bytes: [9; 32] };
    connector.faults_mut().set(ChainOp::FundChannel, Fault::Hang);
    assert_eq!(connector.fund_channel(&missing, hopr(1)), Ok(WriteStep::Hang));
    connector.faults_mut().set(ChainOp::FundChannel, Fault::Fail);
    assert_eq!(
        connector.fund_channel(&missing, hopr(1)),
        Err(TestConnectorError::Injected(ChainOp::FundChannel))
    );
    connector.faults_mut().set(ChainOp::StreamAccounts, Fault::Hang);
    assert_eq!(connector.stream_accounts(&everything()), Ok(Streamed::Pending));
    connector.faults_mut().set(ChainOp::StreamChannels, Fault::Fail);
    assert_eq!(
        connector.stream_channels(&any_channel()),
        Err(TestConnectorError::Injected(ChainOp::StreamChannels))
    );
    connector.faults_mut().set(ChainOp::OpenChannel, Fault::Hang);
    assert_eq!(connector.open_channel(&peer(1), hopr(1)), Ok(WriteStep::Hang));
    connector.faults_mut().set(ChainOp::CloseChannel, Fault::Hang);
    assert_eq!(connector.close_channel(&missing), Ok(WriteStep::Hang));
    assert_eq!(connector.faults().calls(ChainOp::FundChannel), 2);
    assert_eq!(connector.count_accounts(&everything()), 0);
}

#[test]
fn a_confirmation_waits_for_the_own_view() {
    let mut connector = connector();
    let id = channels()[0].id;
    let write = submitted(connector.fund_channel(&id, hopr(2 * UNIT)));
    let guard = connector.track_confirmation(write.op);
    assert_eq!(connector.faults().peak_in_flight(ChainOp::FundChannel), 1);
    let wait = |connector: &TestChainConnector, waited: Duration| {
        connector.await_own_view(&write.channel_id, &write.expectation, waited)
    };
    assert_eq!(wait(&connector, Duration::zero()), ViewWait::Poll);
    assert_eq!(wait(&connector, Duration::new(4, 999_999_999)), ViewWait::Poll);
    assert_eq!(wait(&connector, view_limit()), ViewWait::GaveUp);
    let state = state();
    let mut update = GraphEntry {
        channel: state.channels.at(0).clone(),
        source: state.accounts.at(0).clone(),
        destination: state.accounts.at(1).clone(),
    };
    update.channel.balance = "12 wxHOPR".to_string();
    connector.apply_graph_update(&update).unwrap();
    assert_eq!(wait(&connector, Duration::from_secs(60)), ViewWait::Reached);
    assert_eq!(connector.faults().confirm(write.op), Ok(Passage::Proceed));
    guard.release(connector.faults_mut());
    assert_eq!(view_limit(), Duration::from_secs(5));
    assert_eq!(view_poll(), Duration::from_millis(2));
    assert_eq!(
        connector.await_own_view(&Digest { bytes: [9; 32] }, &Expectation::Opened, Duration::zero()),
        ViewWait::Poll
    );
}

#[test]
fn every_signer_has_its_own_nonces() {
    let mut connector = connector();
    assert_eq!(connector.nonce_for(&me()), 0);
    assert_eq!(connector.nonce_for(&me()), 1);
    assert_eq!(connector.nonce_for(&peer(1)), 0);
    assert_eq!(connector.nonce_for(&me()), 2);
    assert_eq!(connector.nonce_for(&peer(1)), 1);
}

#[test]
fn withdrawals_are_paid_by_the_safe_and_numbered_by_their_signer() {
    let connector = connector();
    let submission = connector.withdraw(Withdrawal::WxHOPR(hopr(3)), &peer(1)).unwrap();
    let expected = generator()
        .transfer(peer(1).bytes.into(), hopr_types::primitive::prelude::HoprBalance::from(3))
        .unwrap();
    assert_eq!(submission.request, request(expected));
    assert_eq!((submission.chain_id, submission.signer), (100, me()));

    let other = ChainKey { secret: [9; 32] };
    let amount = XDaiBalance {
        wei: U256 { hi: 0, lo: 4 },
    };
    let submission = connector
        .withdraw_as(&other, Withdrawal::XDai(amount), &peer(1))
        .unwrap();
    let expected = generator()
        .transfer(peer(1).bytes.into(), hopr_types::primitive::prelude::XDaiBalance::from(4))
        .unwrap();
    assert_eq!(submission.request, request(expected));
    let signer = ChainKeypair::from_secret(&[9; 32]).unwrap().public().to_address();
    assert_eq!(submission.signer, Address { bytes: signer.into() });

    let told = generator()
        .transfer(
            peer(1).bytes.into(),
            hopr_types::primitive::prelude::Balance::<hopr_types::primitive::prelude::XHOPR>::from(1),
        )
        .unwrap_err()
        .to_string();
    assert_eq!(
        connector.withdraw(Withdrawal::Other, &peer(1)),
        Err(TestConnectorError::PayloadRefused(told))
    );
    assert_eq!(
        connector.withdraw_as(&ChainKey { secret: [0; 32] }, Withdrawal::XDai(amount), &peer(1)),
        Err(TestConnectorError::InvalidSignerKey)
    );
}

fn safe_record(address: &str) -> Safe {
    Safe {
        address: address.to_string(),
        chain_key: "11".repeat(20),
        owners: vec!["12".repeat(20)],
        module_address: "13".repeat(20),
        registered_nodes: vec![],
        threshold: None,
    }
}

#[test]
fn a_safe_is_registered_once() {
    let connector = connector();
    let safe = address(0x65);
    let submission = connector.register_safe(&safe, &vec![], &vec![safe_record(&"65".repeat(20))]).unwrap();
    let expected = generator().register_safe_by_node(safe.bytes.into()).unwrap();
    assert_eq!(submission.request, request(expected));
    assert_eq!(submission.signer, me());
    let registered = safe_record(&"66".repeat(20));
    assert_eq!(
        connector.register_safe(&safe, &vec![registered.clone()], &vec![registered.clone()]),
        Err(SafeRegistrationError::AlreadyRegistered(address(0x66)))
    );
    assert_eq!(
        connector.register_safe(&safe, &vec![registered.clone(), safe_record("?")], &vec![]),
        Err(SafeRegistrationError::AlreadyRegistered(address(0x66))),
        "the first one counts"
    );
    assert_eq!(
        connector.register_safe(&safe, &vec![safe_record("?"), registered], &vec![]),
        Err(SafeRegistrationError::Processing(TestConnectorError::Invalid(
            Field::SafeAddress,
            reason::<HoprAddress>("?")
        )))
    );
    let missing = TestConnectorError::SafeDoesNotExist(safe);
    assert_eq!(
        connector.register_safe(&safe, &vec![], &vec![]),
        Err(SafeRegistrationError::Processing(missing.clone()))
    );
    assert_eq!(
        missing.message(),
        format!("safe 0x{} does not exist", "65".repeat(20))
    );
}

fn winning_ticket() -> RedeemableTicket {
    let issuer = ChainKeypair::from_secret(&[9; 32]).unwrap();
    let half = |byte: u8| HalfKey::try_from([byte; 32].as_ref()).unwrap();
    TicketBuilder::default()
        .counterparty(&keypair())
        .amount(1000)
        .index(123)
        .channel_epoch(1)
        .eth_challenge(EthereumChallenge::default())
        .build_signed(&issuer, &Default::default())
        .unwrap()
        .into_acknowledged(Response::from_half_keys(&half(3), &half(4)).unwrap())
        .into_redeemable(&keypair(), &Default::default())
        .unwrap()
}

#[test]
fn a_redemption_is_submitted_by_the_node() {
    let connector = connector();
    let ticket = winning_ticket();
    let json = serde_json::to_string(&ticket).unwrap();
    let submission = connector.redeem_ticket(&json).unwrap();
    assert_eq!(
        submission.request,
        request(generator().redeem_ticket(ticket).unwrap())
    );
    assert_eq!((submission.chain_id, submission.signer), (100, me()));
    let told = serde_json::from_str::<RedeemableTicket>("{}").unwrap_err().to_string();
    assert_eq!(
        connector.redeem_ticket("{}"),
        Err(TestConnectorError::PayloadRefused(told))
    );
}

#[test]
fn a_ticket_with_a_point_at_infinity_is_refused() {
    let mut ticket = winning_ticket();
    ticket.vrf_params = Default::default();
    if let Ok(json) = serde_json::to_string(&ticket) {
        assert_eq!(
            connector().redeem_ticket(&json),
            Err(TestConnectorError::PayloadRefused(
                "ticket has a point at infinity".to_string()
            ))
        );
    }
    assert!(point_is_regular(&None));
    assert!(point_is_regular(&Some(vec![4; 65])));
    assert!(!point_is_regular(&Some(vec![0])));
    let vrf = winning_ticket().vrf_params;
    for point in [
        vrf.get_v_encoded_point(),
        vrf.get_a_encoded_point(),
        vrf.get_h_v_witness(),
        vrf.get_h_a_witness(),
        vrf.get_s_g_witness(),
    ] {
        assert!(point_is_regular(&Some(point.as_bytes().to_vec())));
    }
}

#[test]
fn the_safe_to_register_is_that_of_the_account() {
    let mut connector = connector();
    assert_eq!(register_test_safe(&mut connector, peer(1)), Ok(Some(address(102))));
    let error = register_test_safe(&mut connector, address(0x77)).unwrap_err();
    assert_eq!(error, TestConnectorError::AccountNotFound(address(0x77)));
    assert_eq!(
        error.message(),
        format!("account not found for 0x{}", "77".repeat(20))
    );
    let mut loner = account(peer(9), 9);
    loner.safe_address = None;
    let state = BlokliTestStateBuilder::from_state(state())
        .with_accounts(&vec![(loner, hopr(0), XDaiBalance::zero())])
        .build();
    connector.connect_accounts(&accounts_of(&state)).unwrap();
    let error = register_test_safe(&mut connector, peer(9)).unwrap_err();
    assert_eq!(error, TestConnectorError::NoSafeAddress(peer(9)));
    assert_eq!(
        error.message(),
        format!("no safe address for node 0x{}", "a9".repeat(20))
    );
    connector.faults_mut().set(ChainOp::StreamAccounts, Fault::Hang);
    assert_eq!(register_test_safe(&mut connector, peer(1)), Ok(None));
}

#[test]
fn accounts_are_selected_by_key_and_reachability() {
    let mut connector = connector();
    let mut selector = everything();
    selector.chain_key = Some(peer(2));
    assert_eq!(
        items(connector.stream_accounts(&selector).unwrap()),
        vec![account(peer(2), 3)]
    );
    selector.offchain_key = Some(PacketKey { bytes: [1; 32] });
    assert_eq!(connector.count_accounts(&selector), 0);
    selector.chain_key = None;
    assert_eq!(connector.count_accounts(&selector), 1);
    selector.public_only = true;
    assert_eq!(connector.count_accounts(&selector), 0);

    assert_eq!(connector.await_key_binding(&PacketKey { bytes: [2; 32] }), Ok(account(peer(1), 2)));
    let unknown = PacketKey { bytes: [0x55; 32] };
    let error = connector.await_key_binding(&unknown).unwrap_err();
    assert_eq!(error, TestConnectorError::UnknownPacketKey(unknown));
    assert_eq!(
        error.message(),
        format!("account with key 0x{} not found", "55".repeat(32))
    );
    assert_eq!(connector.packet_key_to_chain_key(&PacketKey { bytes: [3; 32] }), Some(peer(2)));
    assert_eq!(connector.packet_key_to_chain_key(&unknown), None);
    assert_eq!(
        connector.chain_key_to_packet_key(&peer(2)),
        Some(PacketKey { bytes: [3; 32] })
    );
    assert_eq!(connector.chain_key_to_packet_key(&address(0)), None);
}

#[test]
fn channels_are_selected_by_ends_state_and_time() {
    let mut connector = connector();
    let mut selector = any_channel();
    selector.source = Some(me());
    assert_eq!(items(connector.stream_channels(&selector).unwrap()).len(), 2);
    selector.destination = Some(peer(2));
    assert_eq!(items(connector.stream_channels(&selector).unwrap()), vec![channels()[1]]);
    // An id overrides the ends.
    selector.id = Some(channels()[2].id);
    assert_eq!(items(connector.stream_channels(&selector).unwrap()), vec![channels()[2]]);

    let mut selector = any_channel();
    selector.allowed_states = vec![StatusKind::Open, StatusKind::PendingToClose];
    assert_eq!(items(connector.stream_channels(&selector).unwrap()).len(), 2);
    let closing = Timestamp {
        nanos: 1_700_000_000_000_000_000,
    };
    for (range, found) in [
        ((TimeBound::Included(closing), TimeBound::Included(closing)), 2),
        ((TimeBound::Excluded(closing), TimeBound::Unbounded), 1),
        ((TimeBound::Unbounded, TimeBound::Excluded(closing)), 1),
    ] {
        selector.closure_time_range = range;
        assert_eq!(items(connector.stream_channels(&selector).unwrap()).len(), found);
    }
    // The range is for those who ask for pending channels.
    selector.allowed_states = vec![];
    assert_eq!(items(connector.stream_channels(&selector).unwrap()).len(), 3);
}

#[test]
fn a_subscriber_starts_with_a_snapshot() {
    let mut connector = connector();
    let [open, closing, _] = [channels()[0], channels()[1], channels()[2]];
    assert_eq!(
        connector.subscribe_with_state_sync(),
        vec![
            ChainEvent::ChannelOpened(open),
            ChainEvent::ChannelClosureInitiated(closing)
        ]
    );
    connector.faults_mut().withhold_event(EventKind::ClosureInitiated);
    let seen: Vec<ChainEvent> = connector
        .subscribe_with_state_sync()
        .into_iter()
        .filter(|event| !connector.faults().is_withheld(event))
        .collect();
    assert_eq!(seen, vec![ChainEvent::ChannelOpened(open)]);
}

#[test]
fn safes_are_asked_for_and_read() {
    let mut connector = connector();
    for (selector, query) in [
        (SafeSelector::Address(peer(1)), SafeQuery::SafeAddress(peer(1))),
        (SafeSelector::Deployer(peer(1)), SafeQuery::ChainKey(peer(1))),
        (SafeSelector::NodeAddress(peer(1)), SafeQuery::RegisteredNode(peer(1))),
        (SafeSelector::Owner(peer(1)), SafeQuery::Owner(peer(1))),
    ] {
        assert_eq!(connector.safe_info(&selector), Ok(Query::Ask(query)));
    }
    connector.faults_mut().set(ChainOp::SafeInfo, Fault::Hang);
    assert_eq!(connector.safe_info(&SafeSelector::Owner(me())), Ok(Query::Hang));
    assert_eq!(connector.faults().calls(ChainOp::SafeInfo), 5);

    assert_eq!(read_safe_info(&vec![]), Ok(None));
    assert_eq!(await_safe_deployment(&vec![]), Err(TestConnectorError::SafeNotFound));
    let found = vec![safe_record(&"10".repeat(20)), safe_record("?")];
    let safe = read_safe_info(&found).unwrap().expect("a safe");
    assert_eq!(safe.address, address(0x10));
    assert_eq!(safe.deployer, address(0x11));
    assert_eq!(safe.owners, vec![address(0x12)]);
    assert_eq!(safe.module, address(0x13));
    assert_eq!(await_safe_deployment(&found), Ok(safe));

    let mut record = safe_record("?");
    record.owners.push("?".to_string());
    record.module_address = "?".to_string();
    record.registered_nodes.push("?".to_string());
    record.chain_key = "?".to_string();
    let mut refused = vec![];
    for _ in 0..5 {
        match convert_safe_model(&record) {
            Err(TestConnectorError::Invalid(field, told)) => {
                assert_eq!(told, reason::<HoprAddress>("?"));
                refused.push(field)
            }
            other => panic!("unexpected {other:?}"),
        }
        match refused.len() {
            1 => record.address = "10".repeat(20),
            2 => record.owners = vec![],
            3 => record.module_address = "13".repeat(20),
            4 => record.registered_nodes = vec![],
            _ => record.chain_key = "11".repeat(20),
        }
    }
    assert_eq!(
        refused,
        vec![
            Field::SafeAddress,
            Field::SafeOwner,
            Field::SafeModule,
            Field::SafeNode,
            Field::SafeDeployer
        ]
    );
    assert!(convert_safe_model(&record).is_ok());
}

#[test]
fn values_are_asked_for_by_currency() {
    let mut connector = connector();
    assert_eq!(connector.balance(Currency::WxHOPR), Ok(Query::Ask(BalanceQuery::Token)));
    assert_eq!(connector.balance(Currency::XDai), Ok(Query::Ask(BalanceQuery::Native)));
    assert_eq!(
        connector.balance(Currency::Other),
        Err(TestConnectorError::UnsupportedCurrency)
    );
    assert_eq!(connector.faults().calls(ChainOp::Balance), 3);
    assert_eq!(connector.safe_allowance(Currency::WxHOPR), Ok(()));
    assert_eq!(
        connector.safe_allowance(Currency::XDai),
        Err(TestConnectorError::AllowanceOnXDai)
    );
    assert_eq!(
        connector.safe_allowance(Currency::Other),
        Err(TestConnectorError::UnsupportedCurrency)
    );
    assert_eq!(connector.minimum_ticket_price(), Ok(Passage::Proceed));
    connector.faults_mut().set(ChainOp::WinProb, Fault::Fail);
    assert_eq!(
        connector.minimum_incoming_ticket_win_prob(),
        Err(TestConnectorError::Injected(ChainOp::WinProb))
    );
    assert_eq!(connector.typical_resolution_time(), Ok(Query::Ask(Duration::from_secs(5))));
    connector.faults_mut().set(ChainOp::ResolutionTime, Fault::Hang);
    assert_eq!(connector.typical_resolution_time(), Ok(Query::Hang));
    assert_eq!(packet_payload_size(), 1036);
    assert_eq!(TestConnectorError::AllowanceOnXDai.message(), "cannot query allowance on xDai");
    assert_eq!(TestConnectorError::UnsupportedCurrency.message(), "unsupported currency");
    assert_eq!(TestConnectorError::SafeNotFound.message(), "safe not found");
}

#[test]
fn balances_tell_why_they_cannot_be_read() {
    assert_eq!(
        convert_xdai_balance("2 xDai"),
        Ok(XDaiBalance {
            wei: U256 { hi: 0, lo: 2 * UNIT }
        })
    );
    let told = reason::<hopr_types::primitive::prelude::XDaiBalance>("2 wxHOPR");
    let refused = convert_xdai_balance("2 wxHOPR").unwrap_err();
    assert_eq!(refused, TestConnectorError::Invalid(Field::Balance, told.clone()));
    assert_eq!(refused.message(), told);

    assert_eq!(convert_hopr_balance("2 wxHOPR", Field::KeyBindingFee), Ok(hopr(2 * UNIT)));
    let told = reason::<hopr_types::primitive::prelude::HoprBalance>("two");
    let refused = convert_hopr_balance("two", Field::KeyBindingFee).unwrap_err();
    assert_eq!(refused.message(), format!("invalid key binding fee: {told}"));
    let refused = convert_hopr_balance("two", Field::Allowance).unwrap_err();
    assert_eq!(refused.message(), told);
}

#[test]
fn redemptions_are_counted_and_summed() {
    let mut stats = RedeemedStats {
        redemption_count: "12".to_string(),
        redeemed_amount: "3.5 wxHOPR".to_string(),
    };
    let parsed = redemption_stats(&stats).unwrap();
    assert_eq!(parsed.redeemed_count, 12);
    assert_eq!(parsed.redeemed_value, hopr(7 * UNIT / 2));
    stats.redeemed_amount = "?".to_string();
    let told = reason::<hopr_types::primitive::prelude::HoprBalance>("?");
    let refused = redemption_stats(&stats).unwrap_err();
    assert_eq!(refused, TestConnectorError::Invalid(Field::RedeemedAmount, told));
    assert_eq!(refused.message(), "invalid redeemed amount");
    stats.redemption_count = "?".to_string();
    let refused = redemption_stats(&stats).unwrap_err();
    assert_eq!(
        refused,
        TestConnectorError::Invalid(Field::RedemptionCount, reason::<u64>("?"))
    );
    assert_eq!(refused.message(), "invalid redemption count");
}

#[test]
fn what_the_chain_does_not_model_is_not_supported() {
    for (what, message) in [
        (Unsupported::Announce, "not supported by TestChainConnector"),
        (Unsupported::PredictModuleAddress, "not supported by TestChainConnector"),
        (Unsupported::DeploySafe, "not supported by TestChainConnector"),
        (
            Unsupported::RegisterService,
            "register_service is not supported by TestChainConnector",
        ),
        (
            Unsupported::UpdateService,
            "update_service is not supported by TestChainConnector",
        ),
        (
            Unsupported::DeregisterService,
            "deregister_service is not supported by TestChainConnector",
        ),
    ] {
        assert_eq!(unsupported_by_test_connector(what).message(), message);
    }
    let config = get_service_registry_config();
    assert_eq!(config.type_registration_fee, hopr(0));
    assert_eq!(config.node_safe_registry, address(0));
    assert_eq!(NoopKeyMapper.map_key_to_id(&PacketKey { bytes: [1; 32] }), None);
    assert_eq!(NoopKeyMapper.map_id_to_public(1), None);
}

#[test]
fn balances_of_accounts_can_be_overwritten() {
    let state = BlokliTestStateBuilder::from_state(state())
        .with_balances(&Balances::Token(vec![(me(), hopr(2 * UNIT))]))
        .build();
    let own = const_hex::encode(me().bytes);
    assert_eq!(state.token_balances.get(&own).unwrap().value, "2 wxHOPR");
}
