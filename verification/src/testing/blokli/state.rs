//! The state of an emulated chain: tables of the API's records.

use vstd::prelude::*;

use crate::testing::blokli::interop::{service_type_name, service_type_text, without_padding};
use crate::testing::blokli::maps::{lemma_place, place_of, put, value_of};
use crate::testing::blokli::model::{
    Account, AccountText, ChainInfoRecord, ChainInfoText, Channel, ChannelText, RegistryInfo, RegistryText, Safe,
    SafeText, ServiceRecord, ServiceText, ServiceTypeInfo, ServiceTypeText, TokenAmount, TokenAmountText,
};

verus! {

/// What a table can be keyed by.
pub trait Key: View + Sized {
    /// Whether two keys are the same.
    fn same(&self, other: &Self) -> (same: bool)
        ensures
            same == (self@ == other@),
    ;
}

impl Key for u32 {
    fn same(&self, other: &u32) -> (same: bool) {
        *self == *other
    }
}

impl Key for String {
    fn same(&self, other: &String) -> (same: bool) {
        *self == *other
    }
}

/// A keyed collection that remembers the order in which its keys first came.
pub struct Register<K, V> {
    entries: Vec<(K, V)>,
}

impl<K: Key, V: View> View for Register<K, V> {
    type V = Seq<(K::V, V::V)>;

    closed spec fn view(&self) -> Seq<(K::V, V::V)> {
        self.entries@.map_values(|entry: (K, V)| (entry.0@, entry.1@))
    }
}

impl<K: Key, V: View> Register<K, V> {
    /// A register without entries.
    pub fn new() -> (register: Self)
        ensures
            register@ == Seq::<(K::V, V::V)>::empty(),
    {
        let register = Register { entries: Vec::new() };
        assert(register@ =~= Seq::empty());
        register
    }

    /// The number of keys.
    pub fn len(&self) -> (count: usize)
        ensures
            count == self@.len(),
    {
        self.entries.len()
    }

    /// Whether there is no key.
    pub fn is_empty(&self) -> (empty: bool)
        ensures
            empty == (self@.len() == 0),
    {
        self.entries.len() == 0
    }

    /// The key at a place.
    pub fn key_at(&self, place: usize) -> (key: &K)
        requires
            place < self@.len(),
        ensures
            key@ == self@[place as int].0,
    {
        &self.entries[place].0
    }

    /// The value at a place.
    pub fn at(&self, place: usize) -> (value: &V)
        requires
            place < self@.len(),
        ensures
            value@ == self@[place as int].1,
    {
        &self.entries[place].1
    }

    /// The place of `key`, where it has one.
    pub fn find(&self, key: &K) -> (place: Option<usize>)
        ensures
            match place {
                Some(i) => i < self@.len() && place_of(self@, key@) == Some(i as int),
                None => place_of(self@, key@) is None,
            },
    {
        let count: usize = self.entries.len();
        let mut i: usize = 0;
        while i < count
            invariant
                i <= count,
                count == self.entries@.len(),
                forall|j: int| 0 <= j < i ==> (#[trigger] self@[j]).0 != key@,
            decreases count - i,
        {
            if self.entries[i].0.same(key) {
                proof {
                    lemma_place(self@, key@);
                    assert(self@[i as int].0 == key@);
                }
                return Some(i);
            }
            assert(self@[i as int].0 != key@);
            i += 1;
        }
        proof {
            lemma_place(self@, key@);
        }
        None
    }

    /// The value under `key`, where there is one.
    pub fn get(&self, key: &K) -> (value: Option<&V>)
        ensures
            match value {
                Some(found) => value_of(self@, key@) == Some(found@),
                None => value_of(self@, key@) is None,
            },
    {
        match self.find(key) {
            Some(place) => Some(self.at(place)),
            None => None,
        }
    }

    /// Puts `value` under `key`: in the place that the key has, or behind the last where it is new.
    pub fn put(&mut self, key: K, value: V)
        ensures
            final(self)@ == put(old(self)@, key@, value@),
    {
        let ghost entry = (key@, value@);
        match self.find(&key) {
            Some(place) => {
                self.entries.set(place, (key, value));
            },
            None => {
                self.entries.push((key, value));
            },
        }
        assert(self@ =~= put(old(self)@, entry.0, entry.1));
    }
}

/// The state of an emulated chain.
pub struct BlokliTestState {
    pub accounts: Register<u32, Account>,
    pub channels: Register<String, Channel>,
    pub deployed_safes: Register<String, Safe>,
    pub token_balances: Register<String, TokenAmount>,
    pub native_balances: Register<String, TokenAmount>,
    pub safe_allowances: Register<String, TokenAmount>,
    pub services: Register<String, ServiceRecord>,
    pub service_types: Register<String, ServiceTypeInfo>,
    pub service_registry_config: RegistryInfo,
    pub chain_info: ChainInfoRecord,
}

/// What a [`BlokliTestState`] holds.
#[verifier::ext_equal]
pub struct StateView {
    pub accounts: Seq<(u32, AccountText)>,
    pub channels: Seq<(Seq<char>, ChannelText)>,
    pub deployed_safes: Seq<(Seq<char>, SafeText)>,
    pub token_balances: Seq<(Seq<char>, TokenAmountText)>,
    pub native_balances: Seq<(Seq<char>, TokenAmountText)>,
    pub safe_allowances: Seq<(Seq<char>, TokenAmountText)>,
    pub services: Seq<(Seq<char>, ServiceText)>,
    pub service_types: Seq<(Seq<char>, ServiceTypeText)>,
    pub service_registry_config: RegistryText,
    pub chain_info: ChainInfoText,
}

impl View for BlokliTestState {
    type V = StateView;

    open spec fn view(&self) -> StateView {
        StateView {
            accounts: self.accounts@,
            channels: self.channels@,
            deployed_safes: self.deployed_safes@,
            token_balances: self.token_balances@,
            native_balances: self.native_balances@,
            safe_allowances: self.safe_allowances@,
            services: self.services@,
            service_types: self.service_types@,
            service_registry_config: self.service_registry_config@,
            chain_info: self.chain_info@,
        }
    }
}

impl StateView {
    /// Nothing but the chain and the settings of its service registry.
    pub open spec fn bare(chain_info: ChainInfoText, registry: RegistryText) -> StateView {
        StateView {
            accounts: Seq::empty(),
            channels: Seq::empty(),
            deployed_safes: Seq::empty(),
            token_balances: Seq::empty(),
            native_balances: Seq::empty(),
            safe_allowances: Seq::empty(),
            services: Seq::empty(),
            service_types: Seq::empty(),
            service_registry_config: registry,
            chain_info,
        }
    }
}

impl BlokliTestState {
    /// A chain with nothing on it.
    pub fn new(chain_info: ChainInfoRecord, service_registry_config: RegistryInfo) -> (state: Self)
        ensures
            state@ == StateView::bare(chain_info@, service_registry_config@),
    {
        BlokliTestState {
            accounts: Register::new(),
            channels: Register::new(),
            deployed_safes: Register::new(),
            token_balances: Register::new(),
            native_balances: Register::new(),
            safe_allowances: Register::new(),
            services: Register::new(),
            service_types: Register::new(),
            service_registry_config,
            chain_info,
        }
    }

    /// The record of a service type, where it is registered.
    pub fn get_service_type(&self, id: &[u8; 32]) -> (info: Option<&ServiceTypeInfo>)
        requires
            without_padding(id@).len() > 0,
        ensures
            match info {
                Some(found) => value_of(self@.service_types, service_type_name(id@)) == Some(found@),
                None => value_of(self@.service_types, service_type_name(id@)) is None,
            },
    {
        self.service_types.get(&service_type_text(id))
    }
}

} // verus!
