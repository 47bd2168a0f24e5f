use hopr_utilities::testing::blokli::chain::{
    Address, ChainEvent, ChannelEntry, ChannelStatus, Digest, HoprBalance, U256,
};
use hopr_utilities::testing::blokli::connector::TestConnectorError;
use hopr_utilities::testing::blokli::faults::{ChainFaults, ChainOp, EventKind, Fault, Passage};

fn channel() -> ChannelEntry {
    ChannelEntry {
        source: Address { bytes: [1; 20] },
        destination: Address { bytes: [2; 20] },
        balance: HoprBalance {
            wei: U256 { hi: 0, lo: 10 },
        },
        ticket_index: 0,
        status: ChannelStatus::Open,
        channel_epoch: 1,
        id: Digest { bytes: [3; 32] },
    }
}

#[test]
fn faults_are_quiet_by_default() {
    let mut faults = ChainFaults::default();
    assert_eq!(Fault::default(), Fault::Normal);
    assert_eq!(faults.gate(ChainOp::Balance), Ok(Passage::Proceed));
    assert_eq!(faults.gate_stream(ChainOp::StreamChannels), Ok(Fault::Normal));
    assert_eq!(faults.confirm(ChainOp::FundChannel), Ok(Passage::Proceed));
    assert!(!faults.is_withheld(&ChainEvent::ChannelOpened(channel())));
    assert_eq!(faults.peak_in_flight_total(), 0);
}

#[test]
fn a_fault_holds_until_it_is_cleared_and_calls_are_counted_before_it() {
    let mut faults = ChainFaults::default();
    faults.set(ChainOp::SafeInfo, Fault::Fail);
    assert_eq!(
        faults.gate(ChainOp::SafeInfo),
        Err(TestConnectorError::Injected(ChainOp::SafeInfo))
    );
    assert_eq!(faults.gate(ChainOp::Balance), Ok(Passage::Proceed));
    faults.set(ChainOp::SafeInfo, Fault::Hang);
    assert_eq!(faults.gate(ChainOp::SafeInfo), Ok(Passage::Hang));
    assert_eq!(faults.gate_stream(ChainOp::SafeInfo), Ok(Fault::Hang));
    faults.clear(ChainOp::SafeInfo);
    assert_eq!(faults.gate(ChainOp::SafeInfo), Ok(Passage::Proceed));
    assert_eq!(faults.calls(ChainOp::SafeInfo), 4);
    assert_eq!(faults.calls(ChainOp::Balance), 1);
    assert_eq!(faults.calls(ChainOp::TicketPrice), 0);
}

#[test]
fn a_stream_fails_at_the_call() {
    let mut faults = ChainFaults::default();
    faults.set(ChainOp::StreamAccounts, Fault::Fail);
    let error = faults.gate_stream(ChainOp::StreamAccounts).unwrap_err();
    assert_eq!(error.message(), "injected fault on StreamAccounts");
}

#[test]
fn confirmations_misbehave_on_their_own() {
    let mut faults = ChainFaults::default();
    faults.set_confirmation(ChainOp::FundChannel, Fault::Hang);
    assert_eq!(faults.gate(ChainOp::FundChannel), Ok(Passage::Proceed));
    assert_eq!(faults.confirm(ChainOp::FundChannel), Ok(Passage::Hang));
    assert_eq!(faults.confirm(ChainOp::OpenChannel), Ok(Passage::Proceed));
    faults.set_confirmation(ChainOp::FundChannel, Fault::Fail);
    assert_eq!(
        faults.confirm(ChainOp::FundChannel),
        Err(TestConnectorError::Injected(ChainOp::FundChannel))
    );
    faults.clear(ChainOp::FundChannel);
    assert_eq!(faults.confirm(ChainOp::FundChannel), Ok(Passage::Proceed));
    assert_eq!(faults.calls(ChainOp::FundChannel), 1);
}

#[test]
fn watermarks_remember_the_most_in_flight() {
    let mut faults = ChainFaults::default();
    let a = faults.enter_in_flight(ChainOp::FundChannel);
    let b = faults.enter_in_flight(ChainOp::FundChannel);
    let c = faults.enter_in_flight(ChainOp::OpenChannel);
    assert_eq!(faults.peak_in_flight(ChainOp::FundChannel), 2);
    assert_eq!(faults.peak_in_flight(ChainOp::OpenChannel), 1);
    assert_eq!(faults.peak_in_flight(ChainOp::CloseChannel), 0);
    assert_eq!(faults.peak_in_flight_total(), 3);
    a.release(&mut faults);
    b.release(&mut faults);
    c.release(&mut faults);
    let d = faults.enter_in_flight(ChainOp::FundChannel);
    assert_eq!(faults.peak_in_flight(ChainOp::FundChannel), 2);
    assert_eq!(faults.peak_in_flight_total(), 3);
    d.release(&mut faults);
}

#[test]
fn withheld_kinds_hide_their_events_and_no_others() {
    let mut faults = ChainFaults::default();
    let amount = HoprBalance {
        wei: U256 { hi: 0, lo: 1 },
    };
    let events = [
        (EventKind::BalanceIncreased, ChainEvent::ChannelBalanceIncreased(channel(), amount)),
        (EventKind::BalanceDecreased, ChainEvent::ChannelBalanceDecreased(channel(), amount)),
        (EventKind::ChannelOpened, ChainEvent::ChannelOpened(channel())),
        (EventKind::ClosureInitiated, ChainEvent::ChannelClosureInitiated(channel())),
        (EventKind::Closed, ChainEvent::ChannelClosed(channel())),
        (EventKind::TicketRedeemed, ChainEvent::TicketRedeemed(channel())),
    ];
    for (kind, event) in events {
        assert_eq!(EventKind::of(&event), Some(kind));
        faults.withhold_event(kind);
        for (other, seen) in events {
            assert_eq!(faults.is_withheld(&seen), other == kind);
        }
        faults.deliver_event(kind);
        assert!(!faults.is_withheld(&event));
    }
    assert_eq!(EventKind::of(&ChainEvent::Other), None);
    assert!(!faults.is_withheld(&ChainEvent::Other));
}

#[test]
fn operations_have_their_names() {
    let names: Vec<&str> = [
        ChainOp::SafeInfo,
        ChainOp::Balance,
        ChainOp::TicketPrice,
        ChainOp::WinProb,
        ChainOp::ResolutionTime,
        ChainOp::StreamChannels,
        ChainOp::StreamAccounts,
        ChainOp::OpenChannel,
        ChainOp::FundChannel,
        ChainOp::CloseChannel,
    ]
    .iter()
    .map(|op| {
        assert_eq!(format!("{op:?}"), op.name());
        op.name()
    })
    .collect();
    assert_eq!(names.len(), 10);
}
