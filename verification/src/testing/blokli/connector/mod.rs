//! A minimal chain connector for use in unit and integration tests.

use vstd::prelude::*;

use crate::testing::blokli::chain::{
    AccountEntry, AccountView, Address, ChainKey, ChannelEntry, ChannelId, ContractAddresses, HoprBalance, PacketKey,
    WinningProbability,
};
use crate::testing::blokli::connector::ingest::disconnected;
use crate::testing::blokli::faults::{ChainFaults, ChainOp, FaultsView};
use crate::testing::blokli::maps::{keys_are_unique, Table};
use crate::text::{decimal, decimal_string, encode_hex, hex};

pub mod convert;
pub mod ingest;
pub mod reads;
pub mod writes;

pub use crate::testing::blokli::connector::ingest::create_test_blokli_connector;
pub use crate::testing::blokli::connector::reads::{register_test_safe, NoopKeyMapper};

verus! {

/// The part of an answer that could not be read.
#[derive(Clone, Copy, Debug, PartialEq, Eq, Structural)]
pub enum Field {
    PacketKey,
    ChainKey,
    SafeAddress,
    ClosureTime,
    Balance,
    TicketIndex,
    Channel,
    ClosureGracePeriod,
    LedgerSeparator,
    SafeRegistrySeparator,
    ChannelSeparator,
    WinningProbability,
    TicketPrice,
    ContractAddresses,
    KeyBindingFee,
    RedemptionCount,
    RedeemedAmount,
    SafeOwner,
    SafeModule,
    SafeNode,
    SafeDeployer,
    Allowance,
}

/// How much an error tells of a field that could not be read.
#[derive(Clone, Copy, Debug, PartialEq, Eq, Structural)]
pub enum Telling {
    /// The reason alone.
    Plain,
    /// The field's name and the reason.
    Named,
    /// The field's name alone.
    Bare,
}

impl Field {
    /// How much an error tells of the field.
    pub open spec fn spec_telling(self) -> Telling {
        match self {
            Field::TicketIndex => Telling::Named,
            Field::ClosureGracePeriod => Telling::Named,
            Field::ContractAddresses => Telling::Named,
            Field::KeyBindingFee => Telling::Named,
            Field::RedemptionCount => Telling::Bare,
            Field::RedeemedAmount => Telling::Bare,
            _ => Telling::Plain,
        }
    }

    /// How much an error tells of the field.
    pub fn telling(&self) -> (telling: Telling)
        ensures
            telling == self.spec_telling(),
    {
        match self {
            Field::TicketIndex => Telling::Named,
            Field::ClosureGracePeriod => Telling::Named,
            Field::ContractAddresses => Telling::Named,
            Field::KeyBindingFee => Telling::Named,
            Field::RedemptionCount => Telling::Bare,
            Field::RedeemedAmount => Telling::Bare,
            _ => Telling::Plain,
        }
    }

    /// The field in words.
    pub open spec fn spec_name(self) -> Seq<char> {
        match self {
            Field::PacketKey => "packet key"@,
            Field::ChainKey => "chain key"@,
            Field::SafeAddress => "safe address"@,
            Field::ClosureTime => "closure time"@,
            Field::Balance => "balance"@,
            Field::TicketIndex => "ticket index"@,
            Field::Channel => "channel"@,
            Field::ClosureGracePeriod => "closure grace period"@,
            Field::LedgerSeparator => "ledger domain separator"@,
            Field::SafeRegistrySeparator => "safe registry domain separator"@,
            Field::ChannelSeparator => "channel domain separator"@,
            Field::WinningProbability => "winning probability"@,
            Field::TicketPrice => "ticket price"@,
            Field::ContractAddresses => "contract addresses"@,
            Field::KeyBindingFee => "key binding fee"@,
            Field::RedemptionCount => "redemption count"@,
            Field::RedeemedAmount => "redeemed amount"@,
            Field::SafeOwner => "safe owner"@,
            Field::SafeModule => "safe module"@,
            Field::SafeNode => "registered node"@,
            Field::SafeDeployer => "safe deployer"@,
            Field::Allowance => "allowance"@,
        }
    }

    /// The field in words.
    pub fn name(&self) -> (name: &'static str)
        ensures
            name@ == self.spec_name(),
    {
        match self {
            Field::PacketKey => "packet key",
            Field::ChainKey => "chain key",
            Field::SafeAddress => "safe address",
            Field::ClosureTime => "closure time",
            Field::Balance => "balance",
            Field::TicketIndex => "ticket index",
            Field::Channel => "channel",
            Field::ClosureGracePeriod => "closure grace period",
            Field::LedgerSeparator => "ledger domain separator",
            Field::SafeRegistrySeparator => "safe registry domain separator",
            Field::ChannelSeparator => "channel domain separator",
            Field::WinningProbability => "winning probability",
            Field::TicketPrice => "ticket price",
            Field::ContractAddresses => "contract addresses",
            Field::KeyBindingFee => "key binding fee",
            Field::RedemptionCount => "redemption count",
            Field::RedeemedAmount => "redeemed amount",
            Field::SafeOwner => "safe owner",
            Field::SafeModule => "safe module",
            Field::SafeNode => "registered node",
            Field::SafeDeployer => "safe deployer",
            Field::Allowance => "allowance",
        }
    }
}

/// A write that the connector answers with an error, because its chain does not model it.
#[derive(Clone, Copy, Debug, PartialEq, Eq, Structural)]
pub enum Unsupported {
    Announce,
    PredictModuleAddress,
    DeploySafe,
    RegisterService,
    UpdateService,
    DeregisterService,
}

/// What goes wrong in the connector.
#[derive(Clone, Debug, PartialEq, Eq)]
pub enum TestConnectorError {
    /// A fault that a test has injected.
    Injected(ChainOp),
    /// The connector has not been connected.
    NotConnected,
    /// A channel starts at an account that is not there.
    SourceUnknown(i32),
    /// A channel ends at an account that is not there.
    DestinationUnknown(i32),
    /// A channel is closing, and nobody knows when.
    MissingClosureTime,
    /// An answer could not be read, for a reason.
    Invalid(Field, String),
    /// The key of a signer is none.
    InvalidSignerKey,
    /// No account has this packet key.
    UnknownPacketKey(PacketKey),
    /// There is no such channel.
    ChannelNotFound(ChannelId),
    /// The channel is closed already.
    ChannelAlreadyClosed(ChannelId),
    /// No transaction can say this, for a reason.
    PayloadRefused(String),
    /// An allowance exists of wxHOPR alone.
    AllowanceOnXDai,
    /// The currency is neither wxHOPR nor xDai.
    UnsupportedCurrency,
    /// No safe answers to the selector.
    SafeNotFound,
    /// There is no safe at this address.
    SafeDoesNotExist(Address),
    /// No account has this address.
    AccountNotFound(Address),
    /// The account with this address has no safe.
    NoSafeAddress(Address),
    /// The chain of this connector does not model it.
    NotSupported(Unsupported),
}

/// What a [`TestConnectorError`] says.
pub enum ErrorView {
    Injected(ChainOp),
    NotConnected,
    SourceUnknown(i32),
    DestinationUnknown(i32),
    MissingClosureTime,
    Invalid(Field, Seq<char>),
    InvalidSignerKey,
    UnknownPacketKey(PacketKey),
    ChannelNotFound(ChannelId),
    ChannelAlreadyClosed(ChannelId),
    PayloadRefused(Seq<char>),
    AllowanceOnXDai,
    UnsupportedCurrency,
    SafeNotFound,
    SafeDoesNotExist(Address),
    AccountNotFound(Address),
    NoSafeAddress(Address),
    NotSupported(Unsupported),
}

impl View for TestConnectorError {
    type V = ErrorView;

    open spec fn view(&self) -> ErrorView {
        match self {
            TestConnectorError::Injected(what) => ErrorView::Injected(*what),
            TestConnectorError::NotConnected => ErrorView::NotConnected,
            TestConnectorError::SourceUnknown(what) => ErrorView::SourceUnknown(*what),
            TestConnectorError::DestinationUnknown(what) => ErrorView::DestinationUnknown(*what),
            TestConnectorError::MissingClosureTime => ErrorView::MissingClosureTime,
            TestConnectorError::Invalid(field, reason) => ErrorView::Invalid(*field, reason@),
            TestConnectorError::InvalidSignerKey => ErrorView::InvalidSignerKey,
            TestConnectorError::UnknownPacketKey(what) => ErrorView::UnknownPacketKey(*what),
            TestConnectorError::ChannelNotFound(what) => ErrorView::ChannelNotFound(*what),
            TestConnectorError::ChannelAlreadyClosed(what) => ErrorView::ChannelAlreadyClosed(*what),
            TestConnectorError::PayloadRefused(reason) => ErrorView::PayloadRefused(reason@),
            TestConnectorError::AllowanceOnXDai => ErrorView::AllowanceOnXDai,
            TestConnectorError::UnsupportedCurrency => ErrorView::UnsupportedCurrency,
            TestConnectorError::SafeNotFound => ErrorView::SafeNotFound,
            TestConnectorError::SafeDoesNotExist(what) => ErrorView::SafeDoesNotExist(*what),
            TestConnectorError::AccountNotFound(what) => ErrorView::AccountNotFound(*what),
            TestConnectorError::NoSafeAddress(what) => ErrorView::NoSafeAddress(*what),
            TestConnectorError::NotSupported(what) => ErrorView::NotSupported(*what),
        }
    }
}

/// A result, by what its error says.
pub open spec fn outcome_of<T>(result: Result<T, TestConnectorError>) -> Result<T, ErrorView> {
    match result {
        Ok(value) => Ok(value),
        Err(error) => Err(error@),
    }
}

/// A result, by what its value and its error say.
pub open spec fn result_view<T: View>(result: Result<T, TestConnectorError>) -> Result<T::V, ErrorView> {
    match result {
        Ok(value) => Ok(value@),
        Err(error) => Err(error@),
    }
}

/// A signed number in decimal.
pub open spec fn signed_decimal(value: i32) -> Seq<char> {
    if value < 0 {
        "-"@ + decimal((-value) as nat)
    } else {
        decimal(value as nat)
    }
}

fn signed_text(value: i32) -> (text: String)
    ensures
        text@ == signed_decimal(value),
{
    if value < 0 {
        let magnitude: i64 = -(value as i64);
        let mut text: String = "-".to_string();
        text.append(decimal_string(magnitude as u64).as_str());
        text
    } else {
        decimal_string(value as u64)
    }
}

/// `before`, then bytes in prefixed hexadecimal, then `after`.
fn around_hex(before: &str, bytes: &[u8], after: &str) -> (text: String)
    ensures
        text@ == before@ + "0x"@ + hex(bytes@) + after@,
{
    let mut text: String = before.to_string();
    text.append("0x");
    text.append(encode_hex(bytes).as_str());
    text.append(after);
    text
}

/// `before`, then `middle`, then `after`.
fn around(before: &str, middle: &str, after: &str) -> (text: String)
    ensures
        text@ == before@ + middle@ + after@,
{
    let mut text: String = before.to_string();
    text.append(middle);
    text.append(after);
    text
}

impl ErrorView {
    /// The error in words.
    pub open spec fn spec_message(self) -> Seq<char> {
        match self {
            ErrorView::Injected(op) => "injected fault on "@ + op.spec_name() + ""@,
            ErrorView::NotConnected => "connector not connected"@,
            ErrorView::SourceUnknown(id) => "source key_id "@ + signed_decimal(id)
                + " not found in accounts"@,
            ErrorView::DestinationUnknown(id) => "destination key_id "@ + signed_decimal(id)
                + " not found in accounts"@,
            ErrorView::MissingClosureTime => "missing closure time on PendingToClose channel"@,
            ErrorView::Invalid(field, reason) => match field.spec_telling() {
                Telling::Plain => reason,
                Telling::Named => "invalid "@ + field.spec_name() + ": "@ + reason,
                Telling::Bare => "invalid "@ + field.spec_name() + ""@,
            },
            ErrorView::InvalidSignerKey => "invalid signer key"@,
            ErrorView::UnknownPacketKey(key) => "account with key "@ + "0x"@ + hex(key@) + " not found"@,
            ErrorView::ChannelNotFound(id) => "channel "@ + "0x"@ + hex(id@) + " not found"@,
            ErrorView::ChannelAlreadyClosed(id) => "channel "@ + "0x"@ + hex(id@) + " is already closed"@,
            ErrorView::PayloadRefused(reason) => reason,
            ErrorView::AllowanceOnXDai => "cannot query allowance on xDai"@,
            ErrorView::UnsupportedCurrency => "unsupported currency"@,
            ErrorView::SafeNotFound => "safe not found"@,
            ErrorView::SafeDoesNotExist(safe) => "safe "@ + "0x"@ + hex(safe@) + " does not exist"@,
            ErrorView::AccountNotFound(node) => "account not found for "@ + "0x"@ + hex(node@) + ""@,
            ErrorView::NoSafeAddress(node) => "no safe address for node "@ + "0x"@ + hex(node@) + ""@,
            ErrorView::NotSupported(what) => match what {
                Unsupported::Announce => "not supported by TestChainConnector"@,
                Unsupported::PredictModuleAddress => "not supported by TestChainConnector"@,
                Unsupported::DeploySafe => "not supported by TestChainConnector"@,
                Unsupported::RegisterService => "register_service is not supported by TestChainConnector"@,
                Unsupported::UpdateService => "update_service is not supported by TestChainConnector"@,
                Unsupported::DeregisterService => "deregister_service is not supported by TestChainConnector"@,
            },
        }
    }
}

impl TestConnectorError {
    /// The error in words.
    pub fn message(&self) -> (text: String)
        ensures
            text@ == self@.spec_message(),
    {
        match self {
            TestConnectorError::Injected(op) => around("injected fault on ", op.name(), ""),
            TestConnectorError::NotConnected => "connector not connected".to_string(),
            TestConnectorError::SourceUnknown(id) => around(
                "source key_id ",
                signed_text(*id).as_str(),
                " not found in accounts",
            ),
            TestConnectorError::DestinationUnknown(id) => around(
                "destination key_id ",
                signed_text(*id).as_str(),
                " not found in accounts",
            ),
            TestConnectorError::MissingClosureTime => "missing closure time on PendingToClose channel".to_string(),
            TestConnectorError::Invalid(field, reason) => match field.telling() {
                Telling::Plain => reason.as_str().to_string(),
                Telling::Named => {
                    let mut text: String = around("invalid ", field.name(), ": ");
                    text.append(reason.as_str());
                    text
                },
                Telling::Bare => around("invalid ", field.name(), ""),
            },
            TestConnectorError::InvalidSignerKey => "invalid signer key".to_string(),
            TestConnectorError::UnknownPacketKey(key) => around_hex("account with key ", &key.bytes, " not found"),
            TestConnectorError::ChannelNotFound(id) => around_hex("channel ", &id.bytes, " not found"),
            TestConnectorError::ChannelAlreadyClosed(id) => around_hex("channel ", &id.bytes, " is already closed"),
            TestConnectorError::PayloadRefused(reason) => reason.as_str().to_string(),
            TestConnectorError::AllowanceOnXDai => "cannot query allowance on xDai".to_string(),
            TestConnectorError::UnsupportedCurrency => "unsupported currency".to_string(),
            TestConnectorError::SafeNotFound => "safe not found".to_string(),
            TestConnectorError::SafeDoesNotExist(safe) => around_hex("safe ", &safe.bytes, " does not exist"),
            TestConnectorError::AccountNotFound(node) => around_hex("account not found for ", &node.bytes, ""),
            TestConnectorError::NoSafeAddress(node) => around_hex("no safe address for node ", &node.bytes, ""),
            TestConnectorError::NotSupported(what) => match what {
                Unsupported::Announce => "not supported by TestChainConnector".to_string(),
                Unsupported::PredictModuleAddress => "not supported by TestChainConnector".to_string(),
                Unsupported::DeploySafe => "not supported by TestChainConnector".to_string(),
                Unsupported::RegisterService => "register_service is not supported by TestChainConnector".to_string(),
                Unsupported::UpdateService => "update_service is not supported by TestChainConnector".to_string(),
                Unsupported::DeregisterService =>
                    "deregister_service is not supported by TestChainConnector".to_string(),
            },
        }
    }
}

/// A minimal chain connector for use in unit tests.
///
/// It holds a view of the chain that queries and the chain's own updates feed, decides what is
/// submitted to the chain, and lets tests perturb all of it. The client that queries and submits is
/// not a part of it.
pub struct TestChainConnector {
    my_addr: Address,
    chain_key: ChainKey,
    module_address: Address,
    /// The contracts that payloads are made for, known once connected.
    contracts: Option<ContractAddresses>,
    /// The id of the chain, known once connected.
    chain_id: Option<u64>,
    /// The ticket price, known once connected.
    ticket_price: Option<HoprBalance>,
    /// The minimum winning probability, known once connected.
    ticket_win_prob: Option<WinningProbability>,
    /// Nonce counters for transaction sequencing, one per signing address.
    ///
    /// Keyed by signer because a caller may bring a key of its own: a single shared counter would hand
    /// that key a nonce advanced by the connector's own transactions, and then reuse a nonce for the
    /// connector.
    nonces: Table<u64>,
    /// The accounts, by their chain address.
    accounts: Table<AccountEntry>,
    /// The channels, by their id.
    channels: Table<ChannelEntry>,
    /// Injected chain-operation faults; empty unless a test configures them.
    faults: ChainFaults,
}

/// What a connector holds.
#[verifier::ext_equal]
pub struct ConnectorView {
    pub my_addr: Address,
    pub chain_key: ChainKey,
    pub module_address: Address,
    pub contracts: Option<ContractAddresses>,
    pub chain_id: Option<u64>,
    pub ticket_price: Option<HoprBalance>,
    pub ticket_win_prob: Option<WinningProbability>,
    pub nonces: Seq<(Seq<u8>, u64)>,
    pub accounts: Seq<(Seq<u8>, AccountView)>,
    pub channels: Seq<(Seq<u8>, ChannelEntry)>,
    pub faults: FaultsView,
}

/// The accounts of a table, each by what it says.
pub open spec fn account_views(accounts: Seq<(Seq<u8>, AccountEntry)>) -> Seq<(Seq<u8>, AccountView)> {
    accounts.map_values(|entry: (Seq<u8>, AccountEntry)| (entry.0, entry.1@))
}

impl View for TestChainConnector {
    type V = ConnectorView;

    closed spec fn view(&self) -> ConnectorView {
        ConnectorView {
            my_addr: self.my_addr,
            chain_key: self.chain_key,
            module_address: self.module_address,
            contracts: self.contracts,
            chain_id: self.chain_id,
            ticket_price: self.ticket_price,
            ticket_win_prob: self.ticket_win_prob,
            nonces: self.nonces.entries(),
            accounts: account_views(self.accounts.entries()),
            channels: self.channels.entries(),
            faults: self.faults@,
        }
    }
}

impl TestChainConnector {
    /// The tables can be relied on.
    pub closed spec fn well_formed(self) -> bool {
        &&& self.nonces.well_formed()
        &&& self.accounts.well_formed()
        &&& self.channels.well_formed()
    }

    /// No key occurs twice in any table.
    pub proof fn keys_occur_once(self)
        requires
            self.well_formed(),
        ensures
            keys_are_unique(self@.nonces),
            keys_are_unique(self@.accounts),
            keys_are_unique(self@.channels),
    {
        self.nonces.keys_occur_once();
        self.accounts.keys_occur_once();
        self.channels.keys_occur_once();
        assert forall|i: int, j: int| 0 <= i < j < self@.accounts.len() implies (#[trigger] self@.accounts[i]).0 != (
        #[trigger] self@.accounts[j]).0 by {
            assert(self.accounts.entries()[i].0 != self.accounts.entries()[j].0);
        }
    }

    /// Creates a disconnected connector.
    ///
    /// Before it is connected, chain id, contracts and ticket values are unset.
    pub fn new(my_addr: Address, chain_key: ChainKey, module_address: Address) -> (connector: Self)
        ensures
            connector.well_formed(),
            connector@ == disconnected(my_addr, chain_key, module_address),
    {
        let connector = TestChainConnector {
            my_addr,
            chain_key,
            module_address,
            contracts: None,
            chain_id: None,
            ticket_price: None,
            ticket_win_prob: None,
            nonces: Table::new(),
            accounts: Table::new(),
            channels: Table::new(),
            faults: ChainFaults::default(),
        };
        assert(connector@.accounts =~= Seq::empty());
        connector
    }

    /// This connector's fault configuration.
    pub fn faults(&self) -> (faults: &ChainFaults)
        ensures
            faults@ == self@.faults,
    {
        &self.faults
    }

    /// This connector's fault configuration, to set and clear faults. They can be set and cleared at
    /// any time, including while a strategy is running against the connector.
    pub fn faults_mut(&mut self) -> (faults: &mut ChainFaults)
        requires
            old(self).well_formed(),
        ensures
            faults@ == old(self)@.faults,
            final(self).well_formed(),
            final(self)@ == (ConnectorView { faults: final(faults)@, ..old(self)@ }),
    {
        &mut self.faults
    }
}

/// A result is seen as the value or as what its error says.
pub proof fn a_result_is_seen_as_it_is<T: View>(
    result: Result<T, TestConnectorError>,
    plain: Result<u64, TestConnectorError>,
)
    ensures
        result is Ok ==> result_view(result) == Ok::<T::V, ErrorView>(result->Ok_0@),
        result is Err ==> result_view(result) == Err::<T::V, ErrorView>(result->Err_0@),
        plain is Ok ==> outcome_of(plain) == Ok::<u64, ErrorView>(plain->Ok_0),
        plain is Err ==> outcome_of(plain) == Err::<u64, ErrorView>(plain->Err_0@),
{
}

/// What an error says tells it from every other: errors that say the same are of one kind and of one matter,
/// and give their reasons in the same words.
pub proof fn errors_are_told_apart(a: TestConnectorError, b: TestConnectorError)
    requires
        a@ == b@,
    ensures
        a is Invalid <==> b is Invalid,
        a is Invalid ==> a->Invalid_0 == b->Invalid_0 && a->Invalid_1@ == b->Invalid_1@,
        a is PayloadRefused <==> b is PayloadRefused,
        a is PayloadRefused ==> a->PayloadRefused_0@ == b->PayloadRefused_0@,
        !(a is Invalid) && !(a is PayloadRefused) ==> a == b,
{
}

/// An error names what it is about: the operation, the key id, the channel, the node or the safe, each in its
/// own sentence.
pub proof fn an_error_names_what_it_is_about(
    op: ChainOp,
    id: i32,
    key: PacketKey,
    channel: ChannelId,
    address: Address,
    reason: Seq<char>,
)
    ensures
        ErrorView::Injected(op).spec_message() =~= "injected fault on "@ + op.spec_name(),
        ErrorView::NotConnected.spec_message() == "connector not connected"@,
        id >= 0 ==> ErrorView::SourceUnknown(id).spec_message() == "source key_id "@ + decimal(id as nat)
            + " not found in accounts"@,
        id < 0 ==> ErrorView::SourceUnknown(id).spec_message() == "source key_id "@ + ("-"@ + decimal((-id) as nat))
            + " not found in accounts"@,
        id >= 0 ==> ErrorView::DestinationUnknown(id).spec_message() == "destination key_id "@ + decimal(id as nat)
            + " not found in accounts"@,
        id < 0 ==> ErrorView::DestinationUnknown(id).spec_message() == "destination key_id "@ + ("-"@ + decimal(
            (-id) as nat,
        )) + " not found in accounts"@,
        ErrorView::MissingClosureTime.spec_message() == "missing closure time on PendingToClose channel"@,
        ErrorView::UnknownPacketKey(key).spec_message() == "account with key "@ + "0x"@ + hex(key@) + " not found"@,
        ErrorView::ChannelNotFound(channel).spec_message() == "channel "@ + "0x"@ + hex(channel@) + " not found"@,
        ErrorView::ChannelAlreadyClosed(channel).spec_message() == "channel "@ + "0x"@ + hex(channel@)
            + " is already closed"@,
        ErrorView::PayloadRefused(reason).spec_message() == reason,
        ErrorView::AllowanceOnXDai.spec_message() == "cannot query allowance on xDai"@,
        ErrorView::UnsupportedCurrency.spec_message() == "unsupported currency"@,
        ErrorView::SafeNotFound.spec_message() == "safe not found"@,
        ErrorView::SafeDoesNotExist(address).spec_message() == "safe "@ + "0x"@ + hex(address@) + " does not exist"@,
        ErrorView::AccountNotFound(address).spec_message() =~= "account not found for "@ + "0x"@ + hex(address@),
        ErrorView::NoSafeAddress(address).spec_message() =~= "no safe address for node "@ + "0x"@ + hex(address@),
{
    reveal_strlit("");
}

/// What could not be read is told in the words that refuse it. Four fields are named before them, and two are
/// named alone.
pub proof fn an_unreadable_field_is_told_in_the_words_that_refuse_it(field: Field, reason: Seq<char>)
    ensures
        ErrorView::Invalid(Field::TicketIndex, reason).spec_message() == "invalid "@ + "ticket index"@ + ": "@ + reason,
        ErrorView::Invalid(Field::ClosureGracePeriod, reason).spec_message() == "invalid "@ + "closure grace period"@
            + ": "@ + reason,
        ErrorView::Invalid(Field::ContractAddresses, reason).spec_message() == "invalid "@ + "contract addresses"@
            + ": "@ + reason,
        ErrorView::Invalid(Field::KeyBindingFee, reason).spec_message() == "invalid "@ + "key binding fee"@ + ": "@
            + reason,
        ErrorView::Invalid(Field::RedemptionCount, reason).spec_message() =~= "invalid "@ + "redemption count"@,
        ErrorView::Invalid(Field::RedeemedAmount, reason).spec_message() =~= "invalid "@ + "redeemed amount"@,
        field != Field::TicketIndex && field != Field::ClosureGracePeriod && field != Field::ContractAddresses && field
            != Field::KeyBindingFee && field != Field::RedemptionCount && field != Field::RedeemedAmount
            ==> ErrorView::Invalid(field, reason).spec_message() == reason,
{
    reveal_strlit("");
}

/// The accounts of a connector are seen under their own keys, in their order.
pub proof fn accounts_are_seen_under_their_keys(accounts: Seq<(Seq<u8>, AccountEntry)>, i: int)
    ensures
        account_views(accounts).len() == accounts.len(),
        0 <= i < accounts.len() ==> account_views(accounts)[i] == (accounts[i].0, accounts[i].1@),
{
}

} // verus!
