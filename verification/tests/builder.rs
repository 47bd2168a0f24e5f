use hopr_types::crypto::prelude::{Keypair, OffchainKeypair};
use hopr_utilities::testing::blokli::builder::{
    gvpn_exit, unix_seconds, Balances, BlokliTestStateBuilder, ServiceEntry, ServiceTypeConfig,
};
use hopr_utilities::testing::blokli::chain::{
    AccountEntry, AccountType, Address, ChainInfo, ChannelEntry, ChannelStatus, ContractAddresses, DeployedSafe, Digest,
    HoprBalance, Multiaddr, PacketKey, StatusKind, Timestamp, WinningProbability, XDaiBalance, U256,
};
use hopr_utilities::testing::blokli::connector::convert::{
    convert_account_model, convert_channel_model, convert_hopr_balance, convert_safe_model, convert_xdai_balance,
    parse_chain_info_model,
};
use hopr_utilities::testing::blokli::connector::reads::ServiceRegistryConfig;
use hopr_utilities::testing::blokli::connector::Field;
use hopr_utilities::testing::blokli::model::{ChainInfoRecord, RegistryInfo};
use hopr_utilities::testing::blokli::state::BlokliTestState;
use hopr_utilities::time::Duration;

fn address(byte: u8) -> Address {
    Address { bytes: [byte; 20] }
}

fn hopr(lo: u128) -> HoprBalance {
    HoprBalance { wei: U256 { hi: 0, lo } }
}

fn xdai(lo: u128) -> XDaiBalance {
    XDaiBalance { wei: U256 { hi: 0, lo } }
}

const UNIT: u128 = 1_000_000_000_000_000_000;

fn contracts() -> ContractAddresses {
    ContractAddresses {
        token: address(1),
        channels: address(2),
        announcements: address(3),
        node_safe_registry: address(4),
        service_registry: address(5),
        ticket_price_oracle: address(6),
        winning_probability_oracle: address(7),
        node_safe_migration: address(8),
        node_stake_factory: address(9),
        module_implementation: address(10),
    }
}

fn bare_state() -> BlokliTestState {
    BlokliTestState::new(
        ChainInfoRecord {
            chain_id: 0,
            network: String::new(),
            contract_addresses: String::new(),
            ticket_price: "1 wxHOPR".to_string(),
            key_binding_fee: "0.01 wxHOPR".to_string(),
            channel_closure_grace_period: "300".to_string(),
            ledger_dst: None,
            safe_registry_dst: Some(format!("0x{}", "ab".repeat(32))),
            channel_dst: None,
            min_ticket_winning_probability: 1.0f64.to_bits(),
        },
        RegistryInfo {
            type_registration_fee: String::new(),
            node_safe_registry: String::new(),
        },
    )
}

fn builder() -> BlokliTestStateBuilder {
    BlokliTestStateBuilder::from_state(bare_state())
}

fn account(byte: u8, key_id: u32) -> AccountEntry {
    AccountEntry {
        public_key: PacketKey { bytes: [byte; 32] },
        chain_addr: address(byte),
        entry_type: AccountType::NotAnnounced,
        safe_address: Some(address(byte + 100)),
        key_id,
    }
}

#[test]
fn default_state_matches_the_deployed_gvpn_exit_type() {
    let state = BlokliTestStateBuilder::default(bare_state(), 31337, &contracts()).build();
    let service_type = state
        .get_service_type(&gvpn_exit())
        .expect("gvpn:exit must be registered by default");

    assert_eq!(service_type.service_type, "gvpn:exit");
    assert_eq!(
        service_type.owner.as_deref(),
        Some("f39fd6e51aad88f6f4ce6ab8827279cfffb92266")
    );
    assert_eq!(service_type.requirement, None);
    assert_eq!(service_type.registration_burn, "1000 wxHOPR");
    assert_eq!(service_type.update_burn, "100 wxHOPR");
    assert_eq!(state.service_registry_config.type_registration_fee, "1 wxHOPR");
    assert!(state.services.is_empty());
    assert_eq!(state.service_registry_config.node_safe_registry, "04".repeat(20));
    assert_eq!(state.chain_info.network, "anvil-localhost");
    assert_eq!(state.chain_info.chain_id, 31337);
    assert_eq!(state.accounts.len(), 0);
}

#[test]
fn accounts_bring_records_balances_and_safes() {
    let state = builder()
        .with_accounts(&vec![(account(0x11, 7), hopr(3 * UNIT / 2), xdai(UNIT / 4))])
        .build();
    let own = "11".repeat(20);
    let safe = "75".repeat(20);
    let record = state.accounts.get(&7).expect("the account");
    assert_eq!(record.chain_key, own);
    assert_eq!(record.packet_key, "11".repeat(32));
    assert_eq!(record.keyid, 7);
    assert_eq!(record.safe_address, Some(safe.clone()));
    assert!(record.multi_addresses.is_empty());

    let deployed = state.deployed_safes.get(&safe).expect("the safe");
    assert_eq!(deployed.address, safe);
    assert_eq!(deployed.chain_key, own);
    assert_eq!(deployed.owners, vec![own.clone()]);
    let module = const_hex::encode(&hopr_types::crypto::types::Hash::create(&[&[0x11u8; 20]]).as_ref()[0..20]);
    assert_eq!(deployed.module_address, module);
    assert!(deployed.registered_nodes.is_empty());
    assert_eq!(deployed.threshold.as_deref(), Some("1"));

    let token = |key: &String| state.token_balances.get(key).map(|a| (a.typename.as_str(), a.value.as_str()));
    let native = |key: &String| state.native_balances.get(key).map(|a| (a.typename.as_str(), a.value.as_str()));
    assert_eq!(token(&own), Some(("HoprBalance", "0 wxHOPR")));
    assert_eq!(token(&safe), Some(("HoprBalance", "1.5 wxHOPR")));
    assert_eq!(native(&own), Some(("NativeBalance", "0.25 xDai")));
    assert_eq!(native(&safe), Some(("NativeBalance", "0 xDai")));
    let allowance = state.safe_allowances.get(&safe).expect("the allowance");
    assert_eq!(allowance.typename, "SafeHoprAllowance");
    assert_eq!(allowance.value, "10000000000000 wxHOPR");
}

#[test]
fn an_account_without_a_safe_brings_none() {
    let mut entry = account(0x22, 1);
    entry.safe_address = None;
    let state = builder().with_accounts(&vec![(entry, hopr(1), xdai(2))]).build();
    assert!(state.deployed_safes.is_empty());
    assert!(state.safe_allowances.is_empty());
    assert_eq!(state.token_balances.len(), 1);
    assert_eq!(state.native_balances.len(), 1);
    assert_eq!(
        state.native_balances.get(&"22".repeat(20)).unwrap().value,
        "0.000000000000000002 xDai"
    );
}

#[test]
fn written_accounts_are_read_back() {
    let mut announced = account(0x33, u32::MAX);
    announced.entry_type = AccountType::Announced(vec![Multiaddr {
        text: "/ip4/1.2.3.4/tcp/9091".to_string(),
    }]);
    let plain = account(0x44, 0);
    let state = builder()
        .with_accounts(&vec![
            (announced.clone(), hopr(0), xdai(0)),
            (plain.clone(), hopr(0), xdai(0)),
        ])
        .build();
    assert_eq!(state.accounts.at(0).keyid, -1);
    assert_eq!(convert_account_model(state.accounts.at(0)), Ok(announced));
    assert_eq!(convert_account_model(state.accounts.at(1)), Ok(plain));
}

fn channel(status: ChannelStatus, wei: u128) -> ChannelEntry {
    let id = hopr_types::internal::prelude::generate_channel_id(&[0x11u8; 20].into(), &[0x22u8; 20].into());
    ChannelEntry {
        source: address(0x11),
        destination: address(0x22),
        balance: hopr(wei),
        ticket_index: 42,
        status,
        channel_epoch: 3,
        id: Digest { bytes: id.into() },
    }
}

#[test]
fn written_channels_are_read_back() {
    let closing = Timestamp {
        nanos: 1_700_000_000_123_456_789,
    };
    for (status, kind) in [
        (ChannelStatus::Open, StatusKind::Open),
        (ChannelStatus::Closed, StatusKind::Closed),
        (ChannelStatus::PendingToClose(closing), StatusKind::PendingToClose),
        (
            ChannelStatus::PendingToClose(Timestamp { nanos: -1 }),
            StatusKind::PendingToClose,
        ),
    ] {
        for wei in [0, 1, 10 * UNIT, 123_456_789_012_345_678_901] {
            let entry = channel(status, wei);
            let state = builder()
                .with_accounts(&vec![
                    (account(0x11, 5), hopr(0), xdai(0)),
                    (account(0x22, 9), hopr(0), xdai(0)),
                ])
                .with_channels(&vec![entry])
                .build();
            let record = state
                .channels
                .get(&const_hex::encode(entry.id.bytes))
                .expect("the channel");
            assert_eq!((record.source, record.destination), (5, 9));
            assert_eq!(record.status, kind);
            assert_eq!(record.epoch, 3);
            assert_eq!(record.ticket_index, "42");
            assert_eq!(record.concrete_channel_id, const_hex::encode(entry.id.bytes));
            assert_eq!(record.closure_time.is_some(), kind == StatusKind::PendingToClose);
            assert_eq!(
                convert_channel_model(record, entry.source, entry.destination),
                Ok(entry)
            );
        }
    }
}

#[test]
fn closure_times_are_written_as_calendar_dates() {
    let state = builder()
        .with_accounts(&vec![
            (account(0x11, 5), hopr(0), xdai(0)),
            (account(0x22, 9), hopr(0), xdai(0)),
        ])
        .with_channels(&vec![channel(
            ChannelStatus::PendingToClose(Timestamp {
                nanos: 1_700_000_000_000_000_000,
            }),
            UNIT,
        )])
        .build();
    let record = state.channels.at(0);
    assert_eq!(record.closure_time.as_deref(), Some("2023-11-14T22:13:20+00:00"));
    assert_eq!(record.balance, "1 wxHOPR");
}

#[test]
fn deployed_safes_are_read_back() {
    let safe = DeployedSafe {
        address: address(1),
        owners: vec![address(2), address(3)],
        module: address(4),
        registered_nodes: vec![address(5)],
        deployer: address(6),
    };
    let state = builder().with_deployed_safes(&vec![safe.clone()]).build();
    let record = state.deployed_safes.get(&"01".repeat(20)).expect("the safe");
    assert_eq!(record.owners, vec!["02".repeat(20), "03".repeat(20)]);
    assert_eq!(record.threshold.as_deref(), Some("1"));
    assert_eq!(convert_safe_model(record), Ok(safe));
}

#[test]
fn services_are_rendered() {
    let mut raw = [0u8; 32];
    raw[0] = 0xff;
    let entry = ServiceEntry {
        service_type: gvpn_exit(),
        node: address(1),
        safe: address(2),
        metadata: vec![0xde, 0xad],
        registered_at: Timestamp {
            nanos: 1_999_999_999,
        },
        updated_at: Timestamp {
            nanos: 5_000_000_000,
        },
    };
    let mut other = entry.clone();
    other.service_type = raw;
    let state = builder().with_services(&vec![entry, other]).build();
    assert_eq!(state.services.len(), 2);
    let record = state.services.at(0);
    assert_eq!(record.service_type, "gvpn:exit");
    assert_eq!(record.node, "01".repeat(20));
    assert_eq!(record.safe, "02".repeat(20));
    assert_eq!(record.metadata, "0xdead");
    assert_eq!(record.registered_at, "1");
    assert_eq!(record.updated_at, "5");
    assert_eq!(
        state.services.at(1).service_type,
        format!("0xff{}", "00".repeat(31))
    );
    assert_eq!(
        unix_seconds(Timestamp {
            nanos: 1_700_000_000_999_999_999
        }),
        "1700000000"
    );
}

#[test]
fn service_types_keep_their_terms() {
    let mut spaced = gvpn_exit();
    spaced[4] = b' ';
    let config = ServiceTypeConfig {
        owner: None,
        requirement: Some(address(9)),
        registration_burn: hopr(5 * UNIT),
        update_burn: hopr(0),
    };
    let state = builder()
        .with_service_types(&vec![(spaced, config)])
        .with_service_registry_config(ServiceRegistryConfig {
            type_registration_fee: hopr(2 * UNIT),
            node_safe_registry: address(8),
        })
        .build();
    let info = state.get_service_type(&spaced).expect("the type");
    assert_eq!(info.service_type, format!("0x{}", const_hex::encode(spaced)));
    assert_eq!(info.owner, None);
    assert_eq!(info.requirement, Some("09".repeat(20)));
    assert_eq!(info.registration_burn, "5 wxHOPR");
    assert_eq!(info.update_burn, "0 wxHOPR");
    assert!(state.get_service_type(&gvpn_exit()).is_none());
    assert_eq!(state.service_registry_config.type_registration_fee, "2 wxHOPR");
    assert_eq!(state.service_registry_config.node_safe_registry, "08".repeat(20));
}

#[test]
fn generated_accounts_are_a_function_of_their_addresses() {
    let addresses = vec![address(1), address(2)];
    let state = builder()
        .with_generated_accounts(&addresses, true, xdai(UNIT), hopr(7 * UNIT))
        .build();
    assert_eq!(state.accounts.len(), 2);
    for (index, given) in addresses.iter().enumerate() {
        let seed = hopr_types::crypto::types::Hash::create(&[&given.bytes]);
        let pair = OffchainKeypair::from_secret(seed.as_ref()).expect("a secret");
        let record = state.accounts.get(&(index as u32)).expect("the account");
        assert_eq!(record.chain_key, const_hex::encode(given.bytes));
        assert_eq!(record.packet_key, const_hex::encode(*pair.public()));
        assert_eq!(
            record.multi_addresses,
            vec![format!(
                "/ip4/1.2.3.4/udp/{}/p2p/{}",
                10000 + index,
                pair.public().to_peerid_str()
            )]
        );
        let safe = const_hex::encode(&seed.hash().as_ref()[0..20]);
        assert_eq!(record.safe_address, Some(safe.clone()));
        assert_eq!(state.token_balances.get(&safe).unwrap().value, "7 wxHOPR");
        let entry = convert_account_model(record).expect("an account");
        assert!(entry.has_announced_with_routing_info());
    }
    let private = builder()
        .with_generated_accounts(&addresses, false, xdai(0), hopr(0))
        .build();
    assert!(private.accounts.at(0).multi_addresses.is_empty());
    assert_eq!(private.accounts.at(1).packet_key, state.accounts.at(1).packet_key);
}

#[test]
fn generated_accounts_are_numbered_behind_those_that_are_there() {
    let state = builder()
        .with_generated_accounts(&vec![address(1)], true, xdai(0), hopr(0))
        .with_generated_accounts(&vec![address(2)], true, xdai(0), hopr(0))
        .build();
    assert_eq!(state.accounts.len(), 2);
    assert_eq!(*state.accounts.key_at(0), 0);
    assert_eq!(*state.accounts.key_at(1), 1);
    assert_eq!(state.accounts.at(0).chain_key, "01".repeat(20));
    assert_eq!(state.accounts.at(1).chain_key, "02".repeat(20));
    assert_ne!(state.accounts.at(0).packet_key, state.accounts.at(1).packet_key);
}

#[test]
fn balances_and_allowances_replace_what_was_there() {
    let state = builder()
        .with_accounts(&vec![(account(0x11, 1), hopr(UNIT), xdai(UNIT))])
        .with_balances(&Balances::Native(vec![(address(0x11), xdai(2 * UNIT)), (address(0x99), xdai(1))]))
        .with_balances(&Balances::Token(vec![(address(0x11), hopr(3 * UNIT))]))
        .with_safe_allowances(&vec![(address(0x75), hopr(4 * UNIT))])
        .build();
    let own = "11".repeat(20);
    assert_eq!(state.native_balances.get(&own).unwrap().value, "2 xDai");
    assert_eq!(state.native_balances.len(), 3);
    assert_eq!(state.token_balances.get(&own).unwrap().value, "3 wxHOPR");
    let allowance = state.safe_allowances.get(&"75".repeat(20)).unwrap();
    assert_eq!((allowance.typename.as_str(), allowance.value.as_str()), ("SafeAllowance", "4 wxHOPR"));
}

#[test]
fn a_described_chain_is_read_back() {
    let probability = WinningProbability { bytes: [0xff; 7] };
    let state = builder()
        .with_chain_info(&ChainInfo {
            chain_id: 100,
            hopr_network_name: "rotsee".to_string(),
            contract_addresses: contracts(),
        })
        .with_ticket_price(hopr(UNIT / 8))
        .with_closure_grace_period(Duration::new(90, 999_999_999))
        .with_minimum_win_prob(0.5f64.to_bits())
        .build();
    assert_eq!(state.chain_info.ticket_price, "0.125 wxHOPR");
    assert_eq!(state.chain_info.channel_closure_grace_period, "90");
    assert_eq!(f64::from_bits(state.chain_info.min_ticket_winning_probability), 0.5);
    assert!(state.chain_info.contract_addresses.starts_with("{\"token\":\"0x0101"));
    let parsed = parse_chain_info_model(&state.chain_info, Ok(probability)).expect("a chain");
    assert_eq!(parsed.chain_info.chain_id, 100);
    assert_eq!(parsed.chain_info.hopr_network_name, "rotsee");
    assert_eq!(parsed.chain_info.contract_addresses, contracts());
    assert_eq!(parsed.ticket_price, hopr(UNIT / 8));
    assert_eq!(parsed.ticket_win_prob, probability);
    assert_eq!(parsed.closure_grace_period, Duration::from_secs(90));
    assert_eq!(parsed.domain_separators.ledger, Digest { bytes: [0; 32] });
    assert_eq!(parsed.domain_separators.safe_registry, Digest { bytes: [0xab; 32] });
    assert_eq!(parsed.domain_separators.channel, Digest { bytes: [0; 32] });
}

#[test]
fn balances_are_read_in_either_unit() {
    assert_eq!(convert_hopr_balance("10 wxHOPR", Field::Balance), Ok(hopr(10 * UNIT)));
    assert_eq!(
        convert_hopr_balance("1000000000000000000000 wei wxHOPR", Field::Balance),
        Ok(hopr(1000 * UNIT))
    );
    assert_eq!(convert_xdai_balance("0.5 xDai"), Ok(xdai(UNIT / 2)));
    assert!(convert_xdai_balance("0.5 wxHOPR").is_err());
    assert!(convert_hopr_balance("half a token", Field::TicketPrice).is_err());
    let huge = HoprBalance {
        wei: U256 {
            hi: u128::MAX,
            lo: u128::MAX,
        },
    };
    let state = builder().with_ticket_price(huge).build();
    assert_eq!(
        convert_hopr_balance(&state.chain_info.ticket_price, Field::TicketPrice),
        Ok(huge)
    );
}

#[test]
fn closure_times_at_the_ends_of_the_calendar_are_read_back() {
    for nanos in [
        8_210_266_876_799_999_999_999,
        -8_334_601_228_800_000_000_000,
        253_402_300_800_000_000_001,
        -62_167_219_200_000_000_001,
        -1_500_000_000,
        0,
    ] {
        let entry = channel(ChannelStatus::PendingToClose(Timestamp { nanos }), UNIT);
        let state = builder()
            .with_accounts(&vec![
                (account(0x11, 5), hopr(0), xdai(0)),
                (account(0x22, 9), hopr(0), xdai(0)),
            ])
            .with_channels(&vec![entry])
            .build();
        assert_eq!(
            convert_channel_model(state.channels.at(0), entry.source, entry.destination),
            Ok(entry)
        );
    }
}

#[test]
fn addresses_are_read_in_either_case_and_with_one_prefix() {
    let digits = "AbCdEf0123456789aBcDeF0123456789ABCDEF01";
    let mut record = builder()
        .with_accounts(&vec![(account(0x11, 5), hopr(0), xdai(0))])
        .build()
        .accounts
        .at(0)
        .clone();
    let mut read = |text: String| {
        record.chain_key = text;
        convert_account_model(&record).map(|entry| entry.chain_addr)
    };
    let expected = read(digits.to_lowercase()).expect("an address");
    assert_eq!(expected.bytes[0..3], [0xab, 0xcd, 0xef]);
    for text in [
        digits.to_string(),
        digits.to_uppercase(),
        format!("0x{digits}"),
        format!("0X{digits}"),
    ] {
        assert_eq!(read(text), Ok(expected));
    }
    for text in [
        String::new(),
        "0x".to_string(),
        digits[1..].to_string(),
        format!("{digits}0"),
        format!("{digits}00"),
        format!("0x{}", &digits[2..]),
        format!("0x0x{}", &digits[2..]),
        format!("0x0x{digits}"),
        format!(" {}", &digits[1..]),
        format!("é{}", &digits[2..]),
        format!("{}g", &digits[1..]),
    ] {
        assert!(read(text.clone()).is_err(), "{text:?}");
    }
}

#[test]
fn service_types_are_named_or_spelled_out() {
    let name = |bytes: &[u8]| {
        let mut id = [0u8; 32];
        id[..bytes.len()].copy_from_slice(bytes);
        let config = ServiceTypeConfig {
            owner: None,
            requirement: None,
            registration_burn: hopr(0),
            update_burn: hopr(0),
        };
        let state = builder().with_service_types(&vec![(id, config)]).build();
        state.get_service_type(&id).expect("the type").service_type.clone()
    };
    assert_eq!(name(b"a"), "a");
    assert_eq!(name(&[b'~'; 32]), "~".repeat(32));
    assert_eq!(name(b"a\0b"), format!("0x610062{}", "00".repeat(29)));
    assert_eq!(name(&[0, b'a']), format!("0x0061{}", "00".repeat(30)));
    assert_eq!(name(&[0x7f]), format!("0x7f{}", "00".repeat(31)));
    assert_eq!(name(&[0xc3, 0xa9]), format!("0xc3a9{}", "00".repeat(30)));
}

#[test]
fn amounts_are_written_in_units_without_trailing_zeros() {
    let text = |hi: u128, lo: u128| {
        let price = HoprBalance { wei: U256 { hi, lo } };
        builder().with_ticket_price(price).build().chain_info.ticket_price
    };
    assert_eq!(text(0, 0), "0 wxHOPR");
    assert_eq!(text(0, 1), "0.000000000000000001 wxHOPR");
    assert_eq!(text(0, 10), "0.00000000000000001 wxHOPR");
    assert_eq!(text(0, UNIT - 1), "0.999999999999999999 wxHOPR");
    assert_eq!(text(0, UNIT), "1 wxHOPR");
    assert_eq!(text(0, 100 * UNIT + UNIT / 10), "100.1 wxHOPR");
    assert_eq!(
        text(1, 0),
        "340282366920938463463.374607431768211456 wxHOPR"
    );
}

#[test]
fn contracts_are_written_as_an_object_of_texts() {
    let state = builder()
        .with_hopr_network_chain_info("dufour", 1 << 40, &contracts())
        .build();
    let field = |name: &str, byte: u8| format!("\"{name}\":\"0x{}\"", const_hex::encode([byte; 20]));
    let expected = format!(
        "{{{}}}",
        [
            field("token", 1),
            field("channels", 2),
            field("announcements", 3),
            field("node_safe_registry", 4),
            field("service_registry", 5),
            field("ticket_price_oracle", 6),
            field("winning_probability_oracle", 7),
            field("node_safe_migration", 8),
            field("node_stake_factory", 9),
            field("module_implementation", 10),
        ]
        .join(",")
    );
    assert_eq!(state.chain_info.contract_addresses, expected);
    assert_eq!(state.chain_info.network, "dufour");
    assert_eq!(state.chain_info.chain_id, 0, "the record keeps the low half of the id");
}
