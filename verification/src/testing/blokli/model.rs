//! The answers of the Blokli API: records of texts and small numbers.

use vstd::prelude::*;

use crate::testing::blokli::chain::StatusKind;

verus! {

/// The contents of an optional text.
pub open spec fn optional_text(text: Option<String>) -> Option<Seq<char>> {
    match text {
        Some(inner) => Some(inner@),
        None => None,
    }
}

/// The contents of a list of texts.
pub open spec fn texts(list: Seq<String>) -> Seq<Seq<char>> {
    list.map_values(|text: String| text@)
}

/// An account.
#[derive(Clone, Debug, PartialEq, Eq)]
pub struct Account {
    pub chain_key: String,
    pub keyid: i32,
    pub multi_addresses: Vec<String>,
    pub packet_key: String,
    pub safe_address: Option<String>,
}

/// What an [`Account`] says.
#[verifier::ext_equal]
pub struct AccountText {
    pub chain_key: Seq<char>,
    pub keyid: i32,
    pub multi_addresses: Seq<Seq<char>>,
    pub packet_key: Seq<char>,
    pub safe_address: Option<Seq<char>>,
}

impl View for Account {
    type V = AccountText;

    open spec fn view(&self) -> AccountText {
        AccountText {
            chain_key: self.chain_key@,
            keyid: self.keyid,
            multi_addresses: texts(self.multi_addresses@),
            packet_key: self.packet_key@,
            safe_address: optional_text(self.safe_address),
        }
    }
}

/// A channel.
#[derive(Clone, Debug, PartialEq, Eq)]
pub struct Channel {
    pub balance: String,
    pub closure_time: Option<String>,
    pub concrete_channel_id: String,
    pub source: i32,
    pub epoch: i32,
    pub destination: i32,
    pub status: StatusKind,
    pub ticket_index: String,
}

/// What a [`Channel`] says.
#[verifier::ext_equal]
pub struct ChannelText {
    pub balance: Seq<char>,
    pub closure_time: Option<Seq<char>>,
    pub concrete_channel_id: Seq<char>,
    pub source: i32,
    pub epoch: i32,
    pub destination: i32,
    pub status: StatusKind,
    pub ticket_index: Seq<char>,
}

impl View for Channel {
    type V = ChannelText;

    open spec fn view(&self) -> ChannelText {
        ChannelText {
            balance: self.balance@,
            closure_time: optional_text(self.closure_time),
            concrete_channel_id: self.concrete_channel_id@,
            source: self.source,
            epoch: self.epoch,
            destination: self.destination,
            status: self.status,
            ticket_index: self.ticket_index@,
        }
    }
}

/// A channel together with the accounts at its ends.
#[derive(Clone, Debug, PartialEq, Eq)]
pub struct GraphEntry {
    pub channel: Channel,
    pub source: Account,
    pub destination: Account,
}

/// A safe.
#[derive(Clone, Debug, PartialEq, Eq)]
pub struct Safe {
    pub address: String,
    pub chain_key: String,
    pub owners: Vec<String>,
    pub module_address: String,
    pub registered_nodes: Vec<String>,
    pub threshold: Option<String>,
}

/// What a [`Safe`] says.
#[verifier::ext_equal]
pub struct SafeText {
    pub address: Seq<char>,
    pub chain_key: Seq<char>,
    pub owners: Seq<Seq<char>>,
    pub module_address: Seq<char>,
    pub registered_nodes: Seq<Seq<char>>,
    pub threshold: Option<Seq<char>>,
}

impl View for Safe {
    type V = SafeText;

    open spec fn view(&self) -> SafeText {
        SafeText {
            address: self.address@,
            chain_key: self.chain_key@,
            owners: texts(self.owners@),
            module_address: self.module_address@,
            registered_nodes: texts(self.registered_nodes@),
            threshold: optional_text(self.threshold),
        }
    }
}

/// An amount of a currency, under the name of its type.
#[derive(Clone, Debug, PartialEq, Eq)]
pub struct TokenAmount {
    pub typename: String,
    pub value: String,
}

/// What a [`TokenAmount`] says.
#[verifier::ext_equal]
pub struct TokenAmountText {
    pub typename: Seq<char>,
    pub value: Seq<char>,
}

impl View for TokenAmount {
    type V = TokenAmountText;

    open spec fn view(&self) -> TokenAmountText {
        TokenAmountText { typename: self.typename@, value: self.value@ }
    }
}

/// An entry of the service registry.
#[derive(Clone, Debug, PartialEq, Eq)]
pub struct ServiceRecord {
    pub service_type: String,
    pub node: String,
    pub safe: String,
    pub metadata: String,
    pub registered_at: String,
    pub updated_at: String,
}

/// What a [`ServiceRecord`] says.
#[verifier::ext_equal]
pub struct ServiceText {
    pub service_type: Seq<char>,
    pub node: Seq<char>,
    pub safe: Seq<char>,
    pub metadata: Seq<char>,
    pub registered_at: Seq<char>,
    pub updated_at: Seq<char>,
}

impl View for ServiceRecord {
    type V = ServiceText;

    open spec fn view(&self) -> ServiceText {
        ServiceText {
            service_type: self.service_type@,
            node: self.node@,
            safe: self.safe@,
            metadata: self.metadata@,
            registered_at: self.registered_at@,
            updated_at: self.updated_at@,
        }
    }
}

/// A type of the service registry.
#[derive(Clone, Debug, PartialEq, Eq)]
pub struct ServiceTypeInfo {
    pub service_type: String,
    pub owner: Option<String>,
    pub requirement: Option<String>,
    pub registration_burn: String,
    pub update_burn: String,
}

/// What a [`ServiceTypeInfo`] says.
#[verifier::ext_equal]
pub struct ServiceTypeText {
    pub service_type: Seq<char>,
    pub owner: Option<Seq<char>>,
    pub requirement: Option<Seq<char>>,
    pub registration_burn: Seq<char>,
    pub update_burn: Seq<char>,
}

impl View for ServiceTypeInfo {
    type V = ServiceTypeText;

    open spec fn view(&self) -> ServiceTypeText {
        ServiceTypeText {
            service_type: self.service_type@,
            owner: optional_text(self.owner),
            requirement: optional_text(self.requirement),
            registration_burn: self.registration_burn@,
            update_burn: self.update_burn@,
        }
    }
}

/// The settings of the whole service registry.
#[derive(Clone, Debug, PartialEq, Eq)]
pub struct RegistryInfo {
    pub type_registration_fee: String,
    pub node_safe_registry: String,
}

/// What a [`RegistryInfo`] says.
#[verifier::ext_equal]
pub struct RegistryText {
    pub type_registration_fee: Seq<char>,
    pub node_safe_registry: Seq<char>,
}

impl View for RegistryInfo {
    type V = RegistryText;

    open spec fn view(&self) -> RegistryText {
        RegistryText {
            type_registration_fee: self.type_registration_fee@,
            node_safe_registry: self.node_safe_registry@,
        }
    }
}

/// The chain, its contracts and its ticket values.
#[derive(Clone, Debug, PartialEq, Eq)]
pub struct ChainInfoRecord {
    pub chain_id: i32,
    pub network: String,
    pub contract_addresses: String,
    pub ticket_price: String,
    pub key_binding_fee: String,
    pub channel_closure_grace_period: String,
    pub ledger_dst: Option<String>,
    pub safe_registry_dst: Option<String>,
    pub channel_dst: Option<String>,
    /// The bits of the probability, as a floating-point number of double precision.
    pub min_ticket_winning_probability: u64,
}

/// What a [`ChainInfoRecord`] says.
#[verifier::ext_equal]
pub struct ChainInfoText {
    pub chain_id: i32,
    pub network: Seq<char>,
    pub contract_addresses: Seq<char>,
    pub ticket_price: Seq<char>,
    pub key_binding_fee: Seq<char>,
    pub channel_closure_grace_period: Seq<char>,
    pub ledger_dst: Option<Seq<char>>,
    pub safe_registry_dst: Option<Seq<char>>,
    pub channel_dst: Option<Seq<char>>,
    pub min_ticket_winning_probability: u64,
}

impl View for ChainInfoRecord {
    type V = ChainInfoText;

    open spec fn view(&self) -> ChainInfoText {
        ChainInfoText {
            chain_id: self.chain_id,
            network: self.network@,
            contract_addresses: self.contract_addresses@,
            ticket_price: self.ticket_price@,
            key_binding_fee: self.key_binding_fee@,
            channel_closure_grace_period: self.channel_closure_grace_period@,
            ledger_dst: optional_text(self.ledger_dst),
            safe_registry_dst: optional_text(self.safe_registry_dst),
            channel_dst: optional_text(self.channel_dst),
            min_ticket_winning_probability: self.min_ticket_winning_probability,
        }
    }
}

/// What a safe has redeemed so far.
#[derive(Clone, Debug, PartialEq, Eq)]
pub struct RedeemedStats {
    pub redemption_count: String,
    pub redeemed_amount: String,
}

/// The texts of a list are those of its entries, in their order, and an optional text is there where it is.
pub proof fn texts_are_those_of_the_entries(list: Seq<String>, text: Option<String>, i: int)
    ensures
        texts(list).len() == list.len(),
        0 <= i < list.len() ==> texts(list)[i] == list[i]@,
        text is Some ==> optional_text(text) == Some(text->0@),
        text is None ==> optional_text(text) is None,
{
}

/// An account and a channel say what is in each of their fields.
pub proof fn accounts_and_channels_say_what_they_hold(account: Account, channel: Channel)
    ensures
        account@.chain_key == account.chain_key@,
        account@.keyid == account.keyid,
        account@.multi_addresses == texts(account.multi_addresses@),
        account@.packet_key == account.packet_key@,
        account@.safe_address == optional_text(account.safe_address),
        channel@.balance == channel.balance@,
        channel@.closure_time == optional_text(channel.closure_time),
        channel@.concrete_channel_id == channel.concrete_channel_id@,
        channel@.source == channel.source,
        channel@.destination == channel.destination,
        channel@.epoch == channel.epoch,
        channel@.status == channel.status,
        channel@.ticket_index == channel.ticket_index@,
{
}

/// A safe and an amount say what is in each of their fields.
pub proof fn safes_and_amounts_say_what_they_hold(safe: Safe, amount: TokenAmount)
    ensures
        safe@.address == safe.address@,
        safe@.chain_key == safe.chain_key@,
        safe@.owners == texts(safe.owners@),
        safe@.module_address == safe.module_address@,
        safe@.registered_nodes == texts(safe.registered_nodes@),
        safe@.threshold == optional_text(safe.threshold),
        amount@.typename == amount.typename@,
        amount@.value == amount.value@,
{
}

/// What the service registry holds says what is in each of its fields.
pub proof fn service_records_say_what_they_hold(service: ServiceRecord, info: ServiceTypeInfo, registry: RegistryInfo)
    ensures
        service@.service_type == service.service_type@,
        service@.node == service.node@,
        service@.safe == service.safe@,
        service@.metadata == service.metadata@,
        service@.registered_at == service.registered_at@,
        service@.updated_at == service.updated_at@,
        info@.service_type == info.service_type@,
        info@.owner == optional_text(info.owner),
        info@.requirement == optional_text(info.requirement),
        info@.registration_burn == info.registration_burn@,
        info@.update_burn == info.update_burn@,
        registry@.type_registration_fee == registry.type_registration_fee@,
        registry@.node_safe_registry == registry.node_safe_registry@,
{
}

/// A chain's record says what is in each of its fields.
pub proof fn a_chain_record_says_what_it_holds(info: ChainInfoRecord)
    ensures
        info@.chain_id == info.chain_id,
        info@.network == info.network@,
        info@.contract_addresses == info.contract_addresses@,
        info@.ticket_price == info.ticket_price@,
        info@.key_binding_fee == info.key_binding_fee@,
        info@.channel_closure_grace_period == info.channel_closure_grace_period@,
        info@.ledger_dst == optional_text(info.ledger_dst),
        info@.safe_registry_dst == optional_text(info.safe_registry_dst),
        info@.channel_dst == optional_text(info.channel_dst),
        info@.min_ticket_winning_probability == info.min_ticket_winning_probability,
{
}

} // verus!
