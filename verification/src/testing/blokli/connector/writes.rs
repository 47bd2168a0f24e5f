//! What the connector submits to the chain, and when a write counts as confirmed.

use vstd::prelude::*;

use crate::testing::blokli::chain::{
    address_of, digest_of, lemma_address_of, lemma_digest_of, lemma_halves, lemma_u256_of, same_status, u256_max, u256_of, Address,
    ChainKey, ChannelEntry, ChannelId, ChannelStatus, ContractAddresses, HoprBalance, TransactionRequest, XDaiBalance,
};
use crate::testing::blokli::connector::{
    result_view, ConnectorView, ErrorView, Field, TestChainConnector, TestConnectorError, Unsupported,
};
use crate::testing::blokli::faults::{
    count_of, fault_of, passage, ChainOp, Fault, InFlightGuard, Passage,
};
use crate::testing::blokli::interop::{
    address_error, chain_address, chain_key_address, channel_id, finalization_payload, finalize_closure_payload,
    fund_channel_payload, funding_payload, hopr_transfer_payload, initiate_closure_payload, initiation_payload,
    keccak256, parse_address, points_are_regular, redeem_ticket_payload, redemption_payload, register_safe_payload,
    safe_registration_payload, ticket_a_point, ticket_h_a_point, ticket_h_v_point, ticket_s_b_point,
    ticket_s_g_point, ticket_v_point, transfer_hopr_payload, transfer_xdai_payload, xdai_transfer_payload,
};
use crate::testing::blokli::maps::{a_put_value_is_read_back, keys_are_unique, put, value_of};
use crate::testing::blokli::model::Safe;
use crate::text::hex_bytes;
use crate::time::{Duration, NANOS_PER_MILLI, NANOS_PER_SEC};

verus! {

/// A transaction that is ready to be numbered, signed and submitted.
#[derive(Clone, Debug, PartialEq, Eq)]
pub struct Submission {
    pub request: TransactionRequest,
    pub chain_id: u64,
    /// The address whose nonces number the transaction.
    pub signer: Address,
}

/// What a [`Submission`] says.
pub struct SubmissionView {
    pub request: (Option<Seq<u8>>, Seq<u8>, Seq<u8>, Option<u64>),
    pub chain_id: u64,
    pub signer: Address,
}

impl View for Submission {
    type V = SubmissionView;

    open spec fn view(&self) -> SubmissionView {
        SubmissionView { request: self.request@, chain_id: self.chain_id, signer: self.signer }
    }
}

/// What comes of a payload: a submission, where the connector is connected and there is such a payload.
pub open spec fn submission_of(
    view: ConnectorView,
    payload: Result<(Option<Seq<u8>>, Seq<u8>, Seq<u8>, Option<u64>), Seq<char>>,
    signer: Address,
) -> Result<SubmissionView, ErrorView> {
    if view.contracts is None {
        Err(ErrorView::NotConnected)
    } else {
        match (payload, view.chain_id) {
            (Err(reason), _) => Err(ErrorView::PayloadRefused(reason)),
            (_, None) => Err(ErrorView::NotConnected),
            (Ok(request), Some(chain_id)) => Ok(SubmissionView { request, chain_id, signer }),
        }
    }
}

/// What is withdrawn.
#[derive(Clone, Copy, Debug, PartialEq, Eq, Structural)]
pub enum Withdrawal {
    WxHOPR(HoprBalance),
    XDai(XDaiBalance),
    /// An amount of any other currency.
    Other,
}

/// The payload that withdraws an amount, made by the connector's own key. There is none for a currency that
/// is neither wxHOPR nor xDai.
pub open spec fn withdrawal_payload(
    view: ConnectorView,
    amount: Withdrawal,
    recipient: Address,
) -> Result<(Option<Seq<u8>>, Seq<u8>, Seq<u8>, Option<u64>), Seq<char>> {
    let secret = view.chain_key.secret@;
    let token = view.contracts->0.token@;
    match amount {
        Withdrawal::WxHOPR(balance) => hopr_transfer_payload(
            secret,
            token,
            view.module_address@,
            recipient@,
            balance.wei.value(),
        ),
        Withdrawal::XDai(balance) => xdai_transfer_payload(
            secret,
            token,
            view.module_address@,
            recipient@,
            balance.wei.value(),
        ),
        Withdrawal::Other => Err("invalid arguments: invalid currency"@),
    }
}

/// What comes of a withdrawal that `signer` signs.
pub open spec fn withdrawal_of(
    view: ConnectorView,
    signer: ChainKey,
    amount: Withdrawal,
    recipient: Address,
) -> Result<SubmissionView, ErrorView> {
    let own = chain_key_address(signer.secret@);
    match submission_of(view, withdrawal_payload(view, amount, recipient), address_of(own->0)) {
        Err(error) => Err(error),
        Ok(submission) => if own is None {
            Err(ErrorView::InvalidSignerKey)
        } else {
            Ok(submission)
        },
    }
}

/// Why a safe was not registered.
#[derive(Clone, Debug, PartialEq, Eq)]
pub enum SafeRegistrationError {
    /// The node has a safe already.
    AlreadyRegistered(Address),
    /// Anything else.
    Processing(TestConnectorError),
}

/// What a [`SafeRegistrationError`] says.
pub enum RegistrationErrorView {
    AlreadyRegistered(Address),
    Processing(ErrorView),
}

impl View for SafeRegistrationError {
    type V = RegistrationErrorView;

    open spec fn view(&self) -> RegistrationErrorView {
        match self {
            SafeRegistrationError::AlreadyRegistered(safe) => RegistrationErrorView::AlreadyRegistered(*safe),
            SafeRegistrationError::Processing(error) => RegistrationErrorView::Processing(error@),
        }
    }
}

/// What comes of registering a safe for the connector's own node, given the safes that the node is
/// registered with, of which the first counts, and those that were found at the address of the safe.
pub open spec fn safe_registration_of(
    view: ConnectorView,
    safe: Address,
    registered: Seq<Safe>,
    found: Seq<Safe>,
) -> Result<SubmissionView, RegistrationErrorView> {
    if registered.len() > 0 {
        let text = registered[0].address@;
        match hex_bytes(text, 20) {
            Some(bytes) => Err(RegistrationErrorView::AlreadyRegistered(address_of(bytes))),
            None => Err(
                RegistrationErrorView::Processing(ErrorView::Invalid(Field::SafeAddress, address_error(text))),
            ),
        }
    } else if found.len() == 0 {
        Err(RegistrationErrorView::Processing(ErrorView::SafeDoesNotExist(safe)))
    } else {
        match submission_of(
            view,
            safe_registration_payload(
                view.chain_key.secret@,
                view.contracts->0.node_safe_registry@,
                view.module_address@,
                safe@,
            ),
            view.my_addr,
        ) {
            Ok(submission) => Ok(submission),
            Err(error) => Err(RegistrationErrorView::Processing(error)),
        }
    }
}

/// The payload that redeems a ticket: none where one of its points is at infinity.
pub open spec fn regular_redemption(
    view: ConnectorView,
    ticket: Seq<char>,
) -> Result<(Option<Seq<u8>>, Seq<u8>, Seq<u8>, Option<u64>), Seq<char>> {
    if points_are_regular(view.chain_key.secret@, ticket) {
        redemption_payload(
            view.chain_key.secret@,
            view.contracts->0.channels@,
            view.module_address@,
            ticket,
        )
    } else {
        Err("ticket has a point at infinity"@)
    }
}

/// What comes of redeeming a ticket.
pub open spec fn redemption_of(view: ConnectorView, ticket: Seq<char>) -> Result<SubmissionView, ErrorView> {
    submission_of(view, regular_redemption(view, ticket), view.my_addr)
}

/// Whether a point, where there is one, is another than the one at infinity.
pub fn point_is_regular(point: &Option<Vec<u8>>) -> (regular: bool)
    ensures
        regular == (point matches Some(encoding) ==> encoding@.len() == 65),
{
    match point {
        Some(encoding) => encoding.len() == 65,
        None => true,
    }
}

/// What the connector's own view of a channel has to show before a write counts as confirmed.
#[derive(Clone, Copy, Debug, PartialEq, Eq, Structural)]
pub enum Expectation {
    /// The channel is open.
    Opened,
    /// The channel holds at least this much.
    FundedTo(HoprBalance),
    /// The channel has left this status. Closure is two steps (open, then pending, then closed); either
    /// way the status that the write moved the channel out of must be gone.
    Left(ChannelStatus),
}

impl Expectation {
    /// Whether a channel shows it.
    pub open spec fn spec_met_by(self, channel: ChannelEntry) -> bool {
        match self {
            Expectation::Opened => channel.status is Open,
            Expectation::FundedTo(balance) => channel.balance.wei.value() >= balance.wei.value(),
            Expectation::Left(status) => !same_status(channel.status, status),
        }
    }

    /// Whether a channel shows it.
    pub fn met_by(&self, channel: &ChannelEntry) -> (met: bool)
        ensures
            met == self.spec_met_by(*channel),
    {
        match self {
            Expectation::Opened => matches!(channel.status, ChannelStatus::Open),
            Expectation::FundedTo(balance) => !channel.balance.wei.less(&balance.wei),
            Expectation::Left(status) => !channel.status.same(status),
        }
    }
}

/// A write to a channel that is ready to be submitted.
#[derive(Clone, Debug, PartialEq, Eq)]
pub struct PendingWrite {
    pub op: ChainOp,
    pub submission: Submission,
    pub channel_id: ChannelId,
    pub expectation: Expectation,
}

/// What a [`PendingWrite`] says.
pub struct WriteView {
    pub op: ChainOp,
    pub submission: SubmissionView,
    pub channel_id: ChannelId,
    pub expectation: Expectation,
}

impl View for PendingWrite {
    type V = WriteView;

    open spec fn view(&self) -> WriteView {
        WriteView {
            op: self.op,
            submission: self.submission@,
            channel_id: self.channel_id,
            expectation: self.expectation,
        }
    }
}

/// What a write to a channel does next.
#[derive(Clone, Debug, PartialEq, Eq)]
pub enum WriteStep {
    /// It never resolves.
    Hang,
    /// It is submitted.
    Submit(PendingWrite),
}

/// What comes of a write once faults have let it through: `channel` and `expectation` are those of the
/// write.
pub open spec fn write_of(
    op: ChainOp,
    submission: Result<SubmissionView, ErrorView>,
    channel_id: ChannelId,
    expectation: Expectation,
) -> Result<WriteView, ErrorView> {
    match submission {
        Ok(submission) => Ok(WriteView { op, submission, channel_id, expectation }),
        Err(error) => Err(error),
    }
}

/// What comes of opening a channel to `destination` with `amount`, faults aside.
pub open spec fn opening_of(
    view: ConnectorView,
    destination: Address,
    amount: HoprBalance,
) -> Result<WriteView, ErrorView> {
    write_of(
        ChainOp::OpenChannel,
        submission_of(
            view,
            funding_payload(
                view.chain_key.secret@,
                view.contracts->0.channels@,
                view.module_address@,
                destination@,
                amount.wei.value(),
            ),
            view.my_addr,
        ),
        digest_of(keccak256(view.my_addr@ + destination@)),
        Expectation::Opened,
    )
}

/// What a channel holds after `amount` was paid into it.
pub open spec fn funded_to(channel: ChannelEntry, amount: HoprBalance) -> HoprBalance {
    let sum = channel.balance.wei.value() + amount.wei.value();
    HoprBalance {
        wei: u256_of(
            if sum <= u256_max() {
                sum
            } else {
                u256_max()
            },
        ),
    }
}

/// What comes of funding a channel with `amount`, faults aside.
pub open spec fn funding_of(
    view: ConnectorView,
    channel_id: ChannelId,
    amount: HoprBalance,
) -> Result<WriteView, ErrorView> {
    match value_of(view.channels, channel_id@) {
        None => Err(ErrorView::ChannelNotFound(channel_id)),
        Some(channel) => write_of(
            ChainOp::FundChannel,
            submission_of(
                view,
                funding_payload(
                    view.chain_key.secret@,
                    view.contracts->0.channels@,
                    view.module_address@,
                    channel.destination@,
                    amount.wei.value(),
                ),
                view.my_addr,
            ),
            channel_id,
            Expectation::FundedTo(funded_to(channel, amount)),
        ),
    }
}

/// What comes of closing a channel, faults aside: an open one has its closure initiated, one that is
/// pending has it finalized.
pub open spec fn closing_of(view: ConnectorView, channel_id: ChannelId) -> Result<WriteView, ErrorView> {
    match value_of(view.channels, channel_id@) {
        None => Err(ErrorView::ChannelNotFound(channel_id)),
        Some(channel) => {
            let secret = view.chain_key.secret@;
            let contract = view.contracts->0.channels@;
            let destination = channel.destination@;
            match channel.status {
                ChannelStatus::Closed => Err(ErrorView::ChannelAlreadyClosed(channel_id)),
                ChannelStatus::Open => write_of(
                    ChainOp::CloseChannel,
                    submission_of(
                        view,
                        initiation_payload(secret, contract, view.module_address@, destination),
                        view.my_addr,
                    ),
                    channel_id,
                    Expectation::Left(channel.status),
                ),
                ChannelStatus::PendingToClose(_) => write_of(
                    ChainOp::CloseChannel,
                    submission_of(
                        view,
                        finalization_payload(secret, contract, view.module_address@, destination),
                        view.my_addr,
                    ),
                    channel_id,
                    Expectation::Left(channel.status),
                ),
            }
        },
    }
}

/// Whether the step of a write is what its specification says, under the fault of its operation.
pub open spec fn step_is(
    step: Result<WriteStep, TestConnectorError>,
    passage: Result<Passage, TestConnectorError>,
    specified: Result<WriteView, ErrorView>,
) -> bool {
    match passage {
        Err(error) => step == Err::<WriteStep, TestConnectorError>(error),
        Ok(Passage::Hang) => step == Ok::<WriteStep, TestConnectorError>(WriteStep::Hang),
        Ok(Passage::Proceed) => match step {
            Ok(WriteStep::Hang) => false,
            Ok(WriteStep::Submit(write)) => specified == Ok::<WriteView, ErrorView>(write@),
            Err(error) => specified == Err::<WriteView, ErrorView>(error@),
        },
    }
}

/// What a confirmation does while the connector's own view has not caught up.
#[derive(Clone, Copy, Debug, PartialEq, Eq, Structural)]
pub enum ViewWait {
    /// The view shows what was expected.
    Reached,
    /// It has not shown it for too long; the confirmation goes on all the same.
    GaveUp,
    /// Look again after [`view_poll`].
    Poll,
}

/// How long a confirmation waits for the connector's own view. Generous for an in-process broadcast:
/// only a stuck background task reaches it, and the caller's own timeout covers that.
pub fn view_limit() -> (limit: Duration)
    ensures
        limit.nanos() == 5 * NANOS_PER_SEC,
{
    Duration::from_secs(5)
}

/// How long it waits between two looks.
pub fn view_poll() -> (poll: Duration)
    ensures
        poll.nanos() == 2 * NANOS_PER_MILLI,
{
    Duration::from_millis(2)
}

/// The nonce that a signer's next transaction has.
pub open spec fn next_nonce_of(view: ConnectorView, signer: Address) -> u64 {
    match value_of(view.nonces, signer@) {
        Some(nonce) => nonce,
        None => 0,
    }
}

/// The connector after a signer's nonce was taken.
pub open spec fn nonce_taken(view: ConnectorView, signer: Address) -> ConnectorView {
    let nonce = next_nonce_of(view, signer);
    ConnectorView {
        nonces: put(
            view.nonces,
            signer@,
            if nonce < u64::MAX {
                (nonce + 1) as u64
            } else {
                0
            },
        ),
        ..view
    }
}

impl TestChainConnector {
    /// The contracts that payloads are made for.
    pub fn payload_gen(&self) -> (contracts: Result<ContractAddresses, TestConnectorError>)
        ensures
            contracts == (match self@.contracts {
                Some(known) => Ok::<ContractAddresses, TestConnectorError>(known),
                None => Err(TestConnectorError::NotConnected),
            }),
    {
        match self.contracts {
            Some(known) => Ok(known),
            None => Err(TestConnectorError::NotConnected),
        }
    }

    /// The id of the chain.
    pub fn chain_id(&self) -> (id: Result<u64, TestConnectorError>)
        ensures
            id == (match self@.chain_id {
                Some(known) => Ok::<u64, TestConnectorError>(known),
                None => Err(TestConnectorError::NotConnected),
            }),
    {
        match self.chain_id {
            Some(known) => Ok(known),
            None => Err(TestConnectorError::NotConnected),
        }
    }

    /// Puts a payload together with the chain and the signer it is for.
    fn submission(
        &self,
        payload: Result<TransactionRequest, String>,
        signer: Address,
    ) -> (submission: Result<Submission, TestConnectorError>)
        requires
            self@.contracts is Some,
        ensures
            result_view(submission) == submission_of(
                self@,
                match payload {
                    Ok(request) => Ok(request@),
                    Err(reason) => Err(reason@),
                },
                signer,
            ),
    {
        match payload {
            Err(reason) => Err(TestConnectorError::PayloadRefused(reason)),
            Ok(request) => match self.chain_id() {
                Ok(chain_id) => Ok(Submission { request, chain_id, signer }),
                Err(error) => Err(error),
            },
        }
    }

    /// Takes the next nonce of `signer`, from zero on; every signer has a sequence of its own.
    ///
    /// Always pair this with the key that actually signs the transaction.
    pub fn nonce_for(&mut self, signer: &Address) -> (nonce: u64)
        requires
            old(self).well_formed(),
        ensures
            final(self).well_formed(),
            nonce == next_nonce_of(old(self)@, *signer),
            final(self)@ == nonce_taken(old(self)@, *signer),
    {
        let nonce: u64 = match self.nonces.get(&signer.to_vec()) {
            Some(nonce) => *nonce,
            None => 0,
        };
        self.nonces.put(signer.to_vec(), nonce.wrapping_add(1));
        nonce
    }

    /// Builds a transfer, numbered by the nonces of `signer`, who signs it.
    pub fn withdraw_as(
        &self,
        signer: &ChainKey,
        amount: Withdrawal,
        recipient: &Address,
    ) -> (submission: Result<Submission, TestConnectorError>)
        ensures
            result_view(submission) == withdrawal_of(self@, *signer, amount, *recipient),
    {
        let contracts = match self.payload_gen() {
            Ok(contracts) => contracts,
            Err(error) => {
                return Err(error);
            },
        };
        let payload = match &amount {
            Withdrawal::WxHOPR(balance) => transfer_hopr_payload(
                &self.chain_key,
                &contracts.token,
                &self.module_address,
                recipient,
                balance,
            ),
            Withdrawal::XDai(balance) => transfer_xdai_payload(
                &self.chain_key,
                &contracts.token,
                &self.module_address,
                recipient,
                balance,
            ),
            Withdrawal::Other => Err("invalid arguments: invalid currency".to_string()),
        };
        match (payload, self.chain_id()) {
            (Err(reason), _) => Err(TestConnectorError::PayloadRefused(reason)),
            (_, Err(error)) => Err(error),
            (Ok(request), Ok(chain_id)) => match chain_address(signer) {
                None => Err(TestConnectorError::InvalidSignerKey),
                Some(address) => {
                    proof {
                        lemma_address_of(address);
                    }
                    Ok(Submission { request, chain_id, signer: address })
                },
            },
        }
    }

    /// Builds a transfer that the connector's own key signs.
    pub fn withdraw(&self, amount: Withdrawal, recipient: &Address) -> (submission: Result<Submission, TestConnectorError>)
        ensures
            result_view(submission) == withdrawal_of(self@, self@.chain_key, amount, *recipient),
    {
        self.withdraw_as(&self.chain_key, amount, recipient)
    }

    /// Registers a safe for the connector's own node, given the safes that the node is registered with
    /// already and those that were found at the address of the safe to register. The first of the former
    /// is the one that stands in the way; where there is none, there has to be one of the latter.
    pub fn register_safe(
        &self,
        safe_address: &Address,
        registered: &Vec<Safe>,
        found: &Vec<Safe>,
    ) -> (submission: Result<Submission, SafeRegistrationError>)
        ensures
            match submission {
                Ok(submission) => safe_registration_of(self@, *safe_address, registered@, found@) == Ok::<
                    SubmissionView,
                    RegistrationErrorView,
                >(submission@),
                Err(error) => safe_registration_of(self@, *safe_address, registered@, found@) == Err::<
                    SubmissionView,
                    RegistrationErrorView,
                >(error@),
            },
    {
        if registered.len() > 0 {
            return match parse_address(registered[0].address.as_str()) {
                Ok(address) => {
                    proof {
                        lemma_address_of(address);
                    }
                    Err(SafeRegistrationError::AlreadyRegistered(address))
                },
                Err(reason) => Err(
                    SafeRegistrationError::Processing(TestConnectorError::Invalid(Field::SafeAddress, reason)),
                ),
            };
        }
        if found.len() == 0 {
            return Err(SafeRegistrationError::Processing(TestConnectorError::SafeDoesNotExist(*safe_address)));
        }
        let contracts = match self.payload_gen() {
            Ok(contracts) => contracts,
            Err(error) => {
                return Err(SafeRegistrationError::Processing(error));
            },
        };
        let payload = register_safe_payload(
            &self.chain_key,
            &contracts.node_safe_registry,
            &self.module_address,
            safe_address,
        );
        match self.submission(payload, self.my_addr) {
            Ok(submission) => Ok(submission),
            Err(error) => Err(SafeRegistrationError::Processing(error)),
        }
    }

    /// Builds the redemption of a ticket, which is given as JSON. A ticket with a point at infinity is
    /// refused as one that nothing redeems.
    pub fn redeem_ticket(&self, ticket: &str) -> (submission: Result<Submission, TestConnectorError>)
        ensures
            result_view(submission) == redemption_of(self@, ticket@),
    {
        let contracts = match self.payload_gen() {
            Ok(contracts) => contracts,
            Err(error) => {
                return Err(error);
            },
        };
        let regular: bool = point_is_regular(&ticket_v_point(ticket)) && point_is_regular(&ticket_a_point(ticket))
            && point_is_regular(&ticket_h_v_point(ticket)) && point_is_regular(&ticket_h_a_point(ticket))
            && point_is_regular(&ticket_s_g_point(ticket)) && point_is_regular(
            &ticket_s_b_point(&self.chain_key, ticket),
        );
        let payload = if regular {
            redeem_ticket_payload(&self.chain_key, &contracts.channels, &self.module_address, ticket)
        } else {
            Err("ticket has a point at infinity".to_string())
        };
        self.submission(payload, self.my_addr)
    }

    /// Opens a channel to `dst` with `amount`.
    pub fn open_channel(
        &mut self,
        dst: &Address,
        amount: HoprBalance,
    ) -> (step: Result<WriteStep, TestConnectorError>)
        requires
            old(self).well_formed(),
            count_of(old(self)@.faults.calls, ChainOp::OpenChannel) < usize::MAX,
        ensures
            final(self).well_formed(),
            final(self)@ == (ConnectorView { faults: old(self)@.faults.recorded(ChainOp::OpenChannel), ..old(self)@ }),
            step_is(
                step,
                passage(ChainOp::OpenChannel, fault_of(old(self)@.faults.ops, ChainOp::OpenChannel)),
                opening_of(old(self)@, *dst, amount),
            ),
    {
        match self.faults.gate(ChainOp::OpenChannel) {
            Err(error) => {
                return Err(error);
            },
            Ok(Passage::Hang) => {
                return Ok(WriteStep::Hang);
            },
            Ok(Passage::Proceed) => {},
        }
        let id = channel_id(&self.my_addr, dst);
        proof {
            lemma_digest_of(id);
        }
        let contracts = match self.payload_gen() {
            Ok(contracts) => contracts,
            Err(error) => {
                return Err(error);
            },
        };
        let payload = fund_channel_payload(&self.chain_key, &contracts.channels, &self.module_address, dst, &amount);
        match self.submission(payload, self.my_addr) {
            Err(error) => Err(error),
            Ok(submission) => Ok(
                WriteStep::Submit(
                    PendingWrite {
                        op: ChainOp::OpenChannel,
                        submission,
                        channel_id: id,
                        expectation: Expectation::Opened,
                    },
                ),
            ),
        }
    }

    /// Pays `amount` into an existing channel.
    pub fn fund_channel(
        &mut self,
        channel_id: &ChannelId,
        amount: HoprBalance,
    ) -> (step: Result<WriteStep, TestConnectorError>)
        requires
            old(self).well_formed(),
            count_of(old(self)@.faults.calls, ChainOp::FundChannel) < usize::MAX,
        ensures
            final(self).well_formed(),
            final(self)@ == (ConnectorView { faults: old(self)@.faults.recorded(ChainOp::FundChannel), ..old(self)@ }),
            step_is(
                step,
                passage(ChainOp::FundChannel, fault_of(old(self)@.faults.ops, ChainOp::FundChannel)),
                funding_of(old(self)@, *channel_id, amount),
            ),
    {
        match self.faults.gate(ChainOp::FundChannel) {
            Err(error) => {
                return Err(error);
            },
            Ok(Passage::Hang) => {
                return Ok(WriteStep::Hang);
            },
            Ok(Passage::Proceed) => {},
        }
        let channel = match self.channels.get(&channel_id.to_vec()) {
            Some(found) => *found,
            None => {
                return Err(TestConnectorError::ChannelNotFound(*channel_id));
            },
        };
        let contracts = match self.payload_gen() {
            Ok(contracts) => contracts,
            Err(error) => {
                return Err(error);
            },
        };
        let payload = fund_channel_payload(
            &self.chain_key,
            &contracts.channels,
            &self.module_address,
            &channel.destination,
            &amount,
        );
        let funded = HoprBalance { wei: channel.balance.wei.saturating_add(&amount.wei) };
        proof {
            lemma_u256_of(funded.wei);
        }
        match self.submission(payload, self.my_addr) {
            Err(error) => Err(error),
            Ok(submission) => Ok(
                WriteStep::Submit(
                    PendingWrite {
                        op: ChainOp::FundChannel,
                        submission,
                        channel_id: *channel_id,
                        expectation: Expectation::FundedTo(funded),
                    },
                ),
            ),
        }
    }

    /// Closes an existing channel: the first call initiates the closure, the second finalizes it.
    pub fn close_channel(&mut self, channel_id: &ChannelId) -> (step: Result<WriteStep, TestConnectorError>)
        requires
            old(self).well_formed(),
            count_of(old(self)@.faults.calls, ChainOp::CloseChannel) < usize::MAX,
        ensures
            final(self).well_formed(),
            final(self)@ == (ConnectorView { faults: old(self)@.faults.recorded(ChainOp::CloseChannel), ..old(self)@ }),
            step_is(
                step,
                passage(ChainOp::CloseChannel, fault_of(old(self)@.faults.ops, ChainOp::CloseChannel)),
                closing_of(old(self)@, *channel_id),
            ),
    {
        match self.faults.gate(ChainOp::CloseChannel) {
            Err(error) => {
                return Err(error);
            },
            Ok(Passage::Hang) => {
                return Ok(WriteStep::Hang);
            },
            Ok(Passage::Proceed) => {},
        }
        let channel = match self.channels.get(&channel_id.to_vec()) {
            Some(found) => *found,
            None => {
                return Err(TestConnectorError::ChannelNotFound(*channel_id));
            },
        };
        if matches!(channel.status, ChannelStatus::Closed) {
            return Err(TestConnectorError::ChannelAlreadyClosed(*channel_id));
        }
        let contracts = match self.payload_gen() {
            Ok(contracts) => contracts,
            Err(error) => {
                return Err(error);
            },
        };
        let payload = match channel.status {
            ChannelStatus::Open => initiate_closure_payload(
                &self.chain_key,
                &contracts.channels,
                &self.module_address,
                &channel.destination,
            ),
            _ => finalize_closure_payload(
                &self.chain_key,
                &contracts.channels,
                &self.module_address,
                &channel.destination,
            ),
        };
        match self.submission(payload, self.my_addr) {
            Err(error) => Err(error),
            Ok(submission) => Ok(
                WriteStep::Submit(
                    PendingWrite {
                        op: ChainOp::CloseChannel,
                        submission,
                        channel_id: *channel_id,
                        expectation: Expectation::Left(channel.status),
                    },
                ),
            ),
        }
    }

    /// A write was submitted: it is in flight until the guard is released.
    pub fn track_confirmation(&mut self, op: ChainOp) -> (guard: InFlightGuard)
        requires
            old(self).well_formed(),
            count_of(old(self)@.faults.in_flight, op) < usize::MAX,
            old(self)@.faults.in_flight_total < usize::MAX,
        ensures
            final(self).well_formed(),
            guard.op() == op,
            final(self)@ == (ConnectorView { faults: old(self)@.faults.entered(op), ..old(self)@ }),
    {
        self.faults.enter_in_flight(op)
    }

    /// Whether the connector's own view of a channel shows what was expected of a write, and what to do
    /// where it has not for as long as `waited`.
    ///
    /// The tx has already executed and broadcast by the time submission returns, so a confirmation must
    /// not resolve before the caller can read the result. The connector ingests that broadcast in the
    /// background, so without the wait it would report success against a view it has not caught up
    /// with.
    pub fn await_own_view(
        &self,
        channel_id: &ChannelId,
        expectation: &Expectation,
        waited: Duration,
    ) -> (wait: ViewWait)
        requires
            self.well_formed(),
        ensures
            wait == (match value_of(self@.channels, channel_id@) {
                Some(channel) if expectation.spec_met_by(channel) => ViewWait::Reached,
                _ => if waited.nanos() >= 5 * NANOS_PER_SEC {
                    ViewWait::GaveUp
                } else {
                    ViewWait::Poll
                },
            }),
    {
        if let Some(channel) = self.channels.get(&channel_id.to_vec()) {
            if expectation.met_by(channel) {
                return ViewWait::Reached;
            }
        }
        if waited.as_nanos() >= view_limit().as_nanos() {
            ViewWait::GaveUp
        } else {
            ViewWait::Poll
        }
    }
}

/// The error of a write that the connector's chain does not model.
pub fn unsupported_by_test_connector(what: Unsupported) -> (error: TestConnectorError)
    ensures
        error == TestConnectorError::NotSupported(what),
{
    TestConnectorError::NotSupported(what)
}

/// Every signer counts on its own: a nonce that was taken is followed by the next one for that signer,
/// and changes nothing for any other.
pub proof fn every_signer_has_its_own_nonces(view: ConnectorView, signer: Address, other: Address)
    requires
        keys_are_unique(view.nonces),
        next_nonce_of(view, signer) < u64::MAX,
    ensures
        keys_are_unique(nonce_taken(view, signer).nonces),
        next_nonce_of(nonce_taken(view, signer), signer) == next_nonce_of(view, signer) + 1,
        other != signer ==> next_nonce_of(nonce_taken(view, signer), other) == next_nonce_of(view, other),
{
    let next = (next_nonce_of(view, signer) + 1) as u64;
    a_put_value_is_read_back(view.nonces, signer@, next, other@);
    if other != signer {
        assert(other@ != signer@) by {
            lemma_address_of(other);
            lemma_address_of(signer);
        }
    }
}

/// What a write has asked for is met once the chain has done it: an opened channel, a balance grown by
/// the amount, a status that follows the one before.
pub proof fn a_write_that_was_done_meets_its_expectation(
    before: ChannelEntry,
    after: ChannelEntry,
    amount: HoprBalance,
)
    requires
        before.balance.wei.value() + amount.wei.value() <= u256_max(),
    ensures
        after.status is Open ==> Expectation::Opened.spec_met_by(after),
        after.balance.wei.value() == before.balance.wei.value() + amount.wei.value() ==> Expectation::FundedTo(
            funded_to(before, amount),
        ).spec_met_by(after),
        before.status is Open && after.status is PendingToClose ==> Expectation::Left(before.status).spec_met_by(after),
        before.status is PendingToClose && after.status is Closed ==> Expectation::Left(before.status).spec_met_by(
            after,
        ),
        !Expectation::Left(before.status).spec_met_by(before),
{
    lemma_halves((before.balance.wei.value() + amount.wei.value()) as nat);
}

/// A payload is submitted as it is, on the chain that the connector is connected to and by the given signer.
/// Without a connection nothing is; where there is no payload, the reason is told.
pub proof fn a_payload_is_submitted_as_it_is(
    view: ConnectorView,
    payload: Result<(Option<Seq<u8>>, Seq<u8>, Seq<u8>, Option<u64>), Seq<char>>,
    signer: Address,
)
    ensures
        ({
            let outcome = submission_of(view, payload, signer);
            &&& outcome is Ok <==> view.contracts is Some && view.chain_id is Some && payload is Ok
            &&& outcome is Ok ==> outcome->Ok_0.request == payload->Ok_0 && outcome->Ok_0.signer == signer && Some(
                outcome->Ok_0.chain_id,
            ) == view.chain_id
            &&& view.contracts is None ==> outcome->Err_0 == ErrorView::NotConnected
            &&& view.contracts is Some && payload is Err ==> outcome->Err_0 == ErrorView::PayloadRefused(payload->Err_0)
            &&& view.contracts is Some && payload is Ok && view.chain_id is None ==> outcome->Err_0
                == ErrorView::NotConnected
        }),
{
}

/// A withdrawal sends the amount in its own currency to the recipient, out of the connector's own account,
/// and is numbered by the nonces of whoever signs it. Another currency is refused.
pub proof fn a_withdrawal_sends_the_amount_to_the_recipient(
    view: ConnectorView,
    contracts: ContractAddresses,
    chain_id: u64,
    signer: ChainKey,
    own: Address,
    hopr: HoprBalance,
    xdai: XDaiBalance,
    recipient: Address,
)
    requires
        view.contracts == Some(contracts),
        view.chain_id == Some(chain_id),
        chain_key_address(signer.secret@) == Some(own@),
    ensures
        ({
            let payload = hopr_transfer_payload(
                view.chain_key.secret@,
                contracts.token@,
                view.module_address@,
                recipient@,
                hopr.wei.value(),
            );
            withdrawal_of(view, signer, Withdrawal::WxHOPR(hopr), recipient) == (match payload {
                Ok(request) => Ok::<SubmissionView, ErrorView>(SubmissionView { request, chain_id, signer: own }),
                Err(reason) => Err(ErrorView::PayloadRefused(reason)),
            })
        }),
        ({
            let payload = xdai_transfer_payload(
                view.chain_key.secret@,
                contracts.token@,
                view.module_address@,
                recipient@,
                xdai.wei.value(),
            );
            withdrawal_of(view, signer, Withdrawal::XDai(xdai), recipient) == (match payload {
                Ok(request) => Ok::<SubmissionView, ErrorView>(SubmissionView { request, chain_id, signer: own }),
                Err(reason) => Err(ErrorView::PayloadRefused(reason)),
            })
        }),
        withdrawal_of(view, signer, Withdrawal::Other, recipient) == Err::<SubmissionView, ErrorView>(
            ErrorView::PayloadRefused("invalid arguments: invalid currency"@),
        ),
{
    lemma_address_of(own);
}

/// A node is registered with one safe at most: where it has one, that one is told; where it has none, a safe
/// that is not there is refused, and one that is there is registered for the connector's own node.
pub proof fn a_node_is_registered_with_one_safe(
    view: ConnectorView,
    safe: Address,
    registered: Seq<Safe>,
    found: Seq<Safe>,
    first: Address,
)
    ensures
        registered.len() > 0 && hex_bytes(registered[0].address@, 20) == Some(first@) ==> safe_registration_of(
            view,
            safe,
            registered,
            found,
        ) == Err::<SubmissionView, RegistrationErrorView>(RegistrationErrorView::AlreadyRegistered(first)),
        registered.len() == 0 && found.len() == 0 ==> safe_registration_of(view, safe, registered, found) == Err::<
            SubmissionView,
            RegistrationErrorView,
        >(RegistrationErrorView::Processing(ErrorView::SafeDoesNotExist(safe))),
        registered.len() == 0 && found.len() > 0 && view.contracts is Some && view.chain_id is Some
            ==> safe_registration_of(view, safe, registered, found) == (match safe_registration_payload(
            view.chain_key.secret@,
            view.contracts->0.node_safe_registry@,
            view.module_address@,
            safe@,
        ) {
            Ok(request) => Ok::<SubmissionView, RegistrationErrorView>(
                SubmissionView { request, chain_id: view.chain_id->0, signer: view.my_addr },
            ),
            Err(reason) => Err(RegistrationErrorView::Processing(ErrorView::PayloadRefused(reason))),
        }),
        registered.len() == 0 && found.len() > 0 && view.contracts is None ==> safe_registration_of(
            view,
            safe,
            registered,
            found,
        ) == Err::<SubmissionView, RegistrationErrorView>(RegistrationErrorView::Processing(ErrorView::NotConnected)),
        registered.len() > 0 && hex_bytes(registered[0].address@, 20) is None ==> safe_registration_of(
            view,
            safe,
            registered,
            found,
        ) == Err::<SubmissionView, RegistrationErrorView>(
            RegistrationErrorView::Processing(
                ErrorView::Invalid(Field::SafeAddress, address_error(registered[0].address@)),
            ),
        ),
{
    lemma_address_of(first);
}

/// A ticket is redeemed by the connector's own key on the channels contract, unless one of its points is at
/// infinity.
pub proof fn a_ticket_is_redeemed_by_the_own_key(view: ConnectorView, ticket: Seq<char>)
    requires
        view.contracts is Some,
        view.chain_id is Some,
    ensures
        points_are_regular(view.chain_key.secret@, ticket) ==> redemption_of(view, ticket) == (match redemption_payload(
            view.chain_key.secret@,
            view.contracts->0.channels@,
            view.module_address@,
            ticket,
        ) {
            Ok(request) => Ok::<SubmissionView, ErrorView>(
                SubmissionView { request, chain_id: view.chain_id->0, signer: view.my_addr },
            ),
            Err(reason) => Err(ErrorView::PayloadRefused(reason)),
        }),
        !points_are_regular(view.chain_key.secret@, ticket) ==> redemption_of(view, ticket) is Err,
{
}

/// Opening a channel pays the amount into the channel from the own node to the destination, and is done once
/// that channel is open.
pub proof fn opening_pays_into_the_channel_to_the_destination(
    view: ConnectorView,
    destination: Address,
    amount: HoprBalance,
    id: ChannelId,
)
    requires
        view.contracts is Some,
        view.chain_id is Some,
        id@ == keccak256(view.my_addr@ + destination@),
    ensures
        opening_of(view, destination, amount) == (match funding_payload(
            view.chain_key.secret@,
            view.contracts->0.channels@,
            view.module_address@,
            destination@,
            amount.wei.value(),
        ) {
            Ok(request) => Ok::<WriteView, ErrorView>(
                WriteView {
                    op: ChainOp::OpenChannel,
                    submission: SubmissionView { request, chain_id: view.chain_id->0, signer: view.my_addr },
                    channel_id: id,
                    expectation: Expectation::Opened,
                },
            ),
            Err(reason) => Err(ErrorView::PayloadRefused(reason)),
        }),
{
    lemma_digest_of(id);
}

/// Funding a channel that is there pays the amount into it and is done once it holds that much more, or as
/// much as can be held; one that is not there is an error that names it.
pub proof fn funding_pays_into_the_channel(
    view: ConnectorView,
    channel_id: ChannelId,
    channel: ChannelEntry,
    amount: HoprBalance,
)
    requires
        view.contracts is Some,
        view.chain_id is Some,
    ensures
        value_of(view.channels, channel_id@) is None ==> funding_of(view, channel_id, amount) == Err::<
            WriteView,
            ErrorView,
        >(ErrorView::ChannelNotFound(channel_id)),
        value_of(view.channels, channel_id@) == Some(channel) ==> {
            let payload = funding_payload(
                view.chain_key.secret@,
                view.contracts->0.channels@,
                view.module_address@,
                channel.destination@,
                amount.wei.value(),
            );
            let outcome = funding_of(view, channel_id, amount);
            let sum = channel.balance.wei.value() + amount.wei.value();
            &&& payload is Err ==> outcome == Err::<WriteView, ErrorView>(ErrorView::PayloadRefused(payload->Err_0))
            &&& payload is Ok ==> {
                &&& outcome is Ok
                &&& outcome->Ok_0.op == ChainOp::FundChannel
                &&& outcome->Ok_0.channel_id == channel_id
                &&& outcome->Ok_0.submission.request == payload->Ok_0
                &&& outcome->Ok_0.submission.chain_id == view.chain_id->0
                &&& outcome->Ok_0.submission.signer == view.my_addr
                &&& outcome->Ok_0.expectation is FundedTo
                &&& sum <= u256_max() ==> outcome->Ok_0.expectation->FundedTo_0.wei.value() == sum
                &&& sum > u256_max() ==> outcome->Ok_0.expectation->FundedTo_0.wei.value() == u256_max()
            }
        },
{
    let sum = channel.balance.wei.value() + amount.wei.value();
    lemma_halves(
        if sum <= u256_max() {
            sum
        } else {
            u256_max()
        },
    );
}

/// Closing initiates the closure of an open channel and finalizes that of one that is pending, towards the
/// channel's destination; it is done once the channel has left the status it had. A closed channel, and one
/// that is not there, are errors that name it.
pub proof fn closing_takes_a_channel_one_step_further(
    view: ConnectorView,
    channel_id: ChannelId,
    channel: ChannelEntry,
)
    requires
        view.contracts is Some,
        view.chain_id is Some,
    ensures
        value_of(view.channels, channel_id@) is None ==> closing_of(view, channel_id) == Err::<WriteView, ErrorView>(
            ErrorView::ChannelNotFound(channel_id),
        ),
        value_of(view.channels, channel_id@) == Some(channel) && channel.status is Closed ==> closing_of(
            view,
            channel_id,
        ) == Err::<WriteView, ErrorView>(ErrorView::ChannelAlreadyClosed(channel_id)),
        value_of(view.channels, channel_id@) == Some(channel) && !(channel.status is Closed) ==> {
            let payload = if channel.status is Open {
                initiation_payload(
                    view.chain_key.secret@,
                    view.contracts->0.channels@,
                    view.module_address@,
                    channel.destination@,
                )
            } else {
                finalization_payload(
                    view.chain_key.secret@,
                    view.contracts->0.channels@,
                    view.module_address@,
                    channel.destination@,
                )
            };
            closing_of(view, channel_id) == (match payload {
                Ok(request) => Ok::<WriteView, ErrorView>(
                    WriteView {
                        op: ChainOp::CloseChannel,
                        submission: SubmissionView { request, chain_id: view.chain_id->0, signer: view.my_addr },
                        channel_id,
                        expectation: Expectation::Left(channel.status),
                    },
                ),
                Err(reason) => Err(ErrorView::PayloadRefused(reason)),
            })
        },
{
}

/// Without a connection no write to a channel is submitted.
pub proof fn nothing_is_written_without_a_connection(
    view: ConnectorView,
    destination: Address,
    channel_id: ChannelId,
    amount: HoprBalance,
)
    requires
        view.contracts is None,
    ensures
        opening_of(view, destination, amount) == Err::<WriteView, ErrorView>(ErrorView::NotConnected),
        funding_of(view, channel_id, amount) is Err,
        closing_of(view, channel_id) is Err,
        value_of(view.channels, channel_id@) is Some ==> funding_of(view, channel_id, amount) == Err::<
            WriteView,
            ErrorView,
        >(ErrorView::NotConnected),
{
}

/// What is expected of a channel is met by a channel that is open, that holds as much, or whose status is
/// another, closing times counting to the second; and by no other.
pub proof fn an_expectation_is_met_by_what_it_asks_for(channel: ChannelEntry, balance: HoprBalance, status: ChannelStatus)
    ensures
        Expectation::Opened.spec_met_by(channel) <==> channel.status is Open,
        Expectation::FundedTo(balance).spec_met_by(channel) <==> balance.wei.value() <= channel.balance.wei.value(),
        Expectation::Left(status).spec_met_by(channel) <==> !{
            ||| status is Open && channel.status is Open
            ||| status is Closed && channel.status is Closed
            ||| status is PendingToClose && channel.status is PendingToClose && -1_000_000_000
                < status->PendingToClose_0.nanos - channel.status->PendingToClose_0.nanos < 1_000_000_000
        },
{
}

/// A signer's transactions are numbered from zero on, and taking a number touches the nonces alone.
pub proof fn a_signers_first_nonce_is_zero(view: ConnectorView, signer: Address)
    ensures
        value_of(view.nonces, signer@) is None ==> next_nonce_of(view, signer) == 0,
        value_of(view.nonces, signer@) is Some ==> Some(next_nonce_of(view, signer)) == value_of(view.nonces, signer@),
        nonce_taken(view, signer) == (ConnectorView { nonces: nonce_taken(view, signer).nonces, ..view }),
{
}

/// The step of a write is what its operation's fault leaves of it: the injected error, nothing at all, or what
/// the write comes to without faults; and a submission or a write says what is in each of its fields.
pub proof fn a_step_is_what_faults_leave_of_the_write(
    step: Result<WriteStep, TestConnectorError>,
    op: ChainOp,
    fault: Fault,
    specified: Result<WriteView, ErrorView>,
)
    requires
        step_is(step, passage(op, fault), specified),
    ensures
        fault is Fail ==> step == Err::<WriteStep, TestConnectorError>(TestConnectorError::Injected(op)),
        fault is Hang ==> step == Ok::<WriteStep, TestConnectorError>(WriteStep::Hang),
        fault is Normal && specified is Err ==> step is Err && step->Err_0@ == specified->Err_0,
        fault is Normal && specified is Ok ==> {
            &&& step matches Ok(WriteStep::Submit(write))
            &&& write.op == specified->Ok_0.op
            &&& write.channel_id == specified->Ok_0.channel_id
            &&& write.expectation == specified->Ok_0.expectation
            &&& write.submission.request@ == specified->Ok_0.submission.request
            &&& write.submission.chain_id == specified->Ok_0.submission.chain_id
            &&& write.submission.signer == specified->Ok_0.submission.signer
        },
{
}

/// Nobody withdraws without a connection, and nobody signs without a key.
pub proof fn a_withdrawal_needs_a_connection_and_a_key(
    view: ConnectorView,
    signer: ChainKey,
    amount: Withdrawal,
    recipient: Address,
)
    ensures
        view.contracts is None ==> withdrawal_of(view, signer, amount, recipient) == Err::<SubmissionView, ErrorView>(
            ErrorView::NotConnected,
        ),
        chain_key_address(signer.secret@) is None ==> withdrawal_of(view, signer, amount, recipient) is Err,
        view.contracts is Some && view.chain_id is Some && chain_key_address(signer.secret@) is None
            && withdrawal_payload(view, amount, recipient) is Ok ==> withdrawal_of(view, signer, amount, recipient)
            == Err::<SubmissionView, ErrorView>(ErrorView::InvalidSignerKey),
{
}

} // verus!
