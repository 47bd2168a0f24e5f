//! What the chain holds, as plain values: addresses, balances, accounts, channels and events.

use vstd::prelude::*;

use crate::time::NANOS_PER_SEC;

verus! {

/// Whether two arrays hold the same bytes.
fn same_bytes<const N: usize>(a: &[u8; N], b: &[u8; N]) -> (same: bool)
    ensures
        same == (a@ == b@),
{
    let mut i: usize = 0;
    while i < N
        invariant
            i <= N,
            a@.len() == N,
            b@.len() == N,
            forall|j: int| 0 <= j < i ==> a@[j] == b@[j],
        decreases N - i,
    {
        if a[i] != b[i] {
            return false;
        }
        i += 1;
    }
    assert(a@ =~= b@);
    true
}

/// The bytes of an array.
fn bytes_of<const N: usize>(array: &[u8; N]) -> (bytes: Vec<u8>)
    ensures
        bytes@ == array@,
{
    let mut bytes: Vec<u8> = Vec::new();
    let mut i: usize = 0;
    while i < N
        invariant
            i <= N,
            array@.len() == N,
            bytes@ == array@.take(i as int),
        decreases N - i,
    {
        bytes.push(array[i]);
        assert(array@.take(i + 1) =~= array@.take(i as int).push(array@[i as int]));
        i += 1;
    }
    assert(array@.take(N as int) =~= array@);
    bytes
}

/// An account address on the chain.
#[derive(Clone, Copy, Debug, PartialEq, Eq, Hash)]
pub struct Address {
    pub bytes: [u8; 20],
}

impl View for Address {
    type V = Seq<u8>;

    open spec fn view(&self) -> Seq<u8> {
        self.bytes@
    }
}

impl Address {
    /// Whether two addresses are the same.
    pub fn same(&self, other: &Address) -> (same: bool)
        ensures
            same == (*self == *other),
    {
        let same: bool = same_bytes(&self.bytes, &other.bytes);
        assert(self.bytes@ == other.bytes@ ==> self.bytes == other.bytes);
        same
    }

    /// The bytes of the address.
    pub fn to_vec(&self) -> (bytes: Vec<u8>)
        ensures
            bytes@ == self@,
    {
        bytes_of(&self.bytes)
    }
}

/// The key that a node's packets are sealed to.
#[derive(Clone, Copy, Debug, PartialEq, Eq, Hash)]
pub struct PacketKey {
    pub bytes: [u8; 32],
}

impl View for PacketKey {
    type V = Seq<u8>;

    open spec fn view(&self) -> Seq<u8> {
        self.bytes@
    }
}

impl PacketKey {
    /// Whether two keys are the same.
    pub fn same(&self, other: &PacketKey) -> (same: bool)
        ensures
            same == (*self == *other),
    {
        let same: bool = same_bytes(&self.bytes, &other.bytes);
        assert(self.bytes@ == other.bytes@ ==> self.bytes == other.bytes);
        same
    }
}

/// A 256-bit hash.
#[derive(Clone, Copy, Debug, PartialEq, Eq, Hash)]
pub struct Digest {
    pub bytes: [u8; 32],
}

impl View for Digest {
    type V = Seq<u8>;

    open spec fn view(&self) -> Seq<u8> {
        self.bytes@
    }
}

impl Digest {
    /// Whether two hashes are the same.
    pub fn same(&self, other: &Digest) -> (same: bool)
        ensures
            same == (*self == *other),
    {
        let same: bool = same_bytes(&self.bytes, &other.bytes);
        assert(self.bytes@ == other.bytes@ ==> self.bytes == other.bytes);
        same
    }

    /// The bytes of the hash.
    pub fn to_vec(&self) -> (bytes: Vec<u8>)
        ensures
            bytes@ == self@,
    {
        bytes_of(&self.bytes)
    }
}

/// The hash that a channel goes by.
pub type ChannelId = Digest;

/// The largest value of one half of a [`U256`].
pub const HALF_MAX: u128 = 340_282_366_920_938_463_463_374_607_431_768_211_455;

/// A 256-bit unsigned number, in two halves.
#[derive(Clone, Copy, Debug, PartialEq, Eq, Structural)]
pub struct U256 {
    pub hi: u128,
    pub lo: u128,
}

/// The largest 256-bit number.
pub open spec fn u256_max() -> nat {
    (HALF_MAX * (HALF_MAX + 1) + HALF_MAX) as nat
}

impl U256 {
    /// The number.
    pub open spec fn value(self) -> nat {
        (self.hi * (HALF_MAX + 1) + self.lo) as nat
    }

    /// Halves and numbers are one and the same thing.
    pub proof fn values_are_unique(self, other: U256)
        ensures
            self.value() == other.value() <==> self == other,
            self.value() <= u256_max(),
    {
        let m = HALF_MAX + 1;
        if self.hi < other.hi {
            assert(self.hi * m + m <= other.hi * m) by (nonlinear_arith)
                requires
                    self.hi + 1 <= other.hi,
                    m > 0,
            ;
        } else if self.hi > other.hi {
            assert(other.hi * m + m <= self.hi * m) by (nonlinear_arith)
                requires
                    other.hi + 1 <= self.hi,
                    m > 0,
            ;
        }
        assert(self.hi * m <= HALF_MAX * m) by (nonlinear_arith)
            requires
                self.hi <= HALF_MAX,
                m > 0,
        ;
    }

    /// Whether this number is below `other`.
    pub fn less(&self, other: &U256) -> (less: bool)
        ensures
            less == (self.value() < other.value()),
    {
        proof {
            let m = HALF_MAX + 1;
            if self.hi < other.hi {
                assert(self.hi * m + m <= other.hi * m) by (nonlinear_arith)
                    requires
                        self.hi + 1 <= other.hi,
                        m > 0,
                ;
            } else if self.hi > other.hi {
                assert(other.hi * m + m <= self.hi * m) by (nonlinear_arith)
                    requires
                        other.hi + 1 <= self.hi,
                        m > 0,
                ;
            }
        }
        self.hi < other.hi || (self.hi == other.hi && self.lo < other.lo)
    }

    /// The sum, held at the largest number.
    pub fn saturating_add(&self, other: &U256) -> (sum: U256)
        ensures
            sum.value() == (if self.value() + other.value() <= u256_max() {
                self.value() + other.value()
            } else {
                u256_max()
            }),
    {
        let carry: u128 = if self.lo > HALF_MAX - other.lo {
            1
        } else {
            0
        };
        let lo: u128 = self.lo.wrapping_add(other.lo);
        let ghost m = HALF_MAX + 1;
        assert(lo + carry * m == self.lo + other.lo);
        assert((self.hi + other.hi + carry) * m == self.hi * m + other.hi * m + carry * m) by (nonlinear_arith);
        if self.hi > HALF_MAX - other.hi || (self.hi + other.hi == HALF_MAX && carry == 1) {
            proof {
                assert(self.hi + other.hi + carry >= m);
                assert((self.hi + other.hi + carry) * m >= m * m) by (nonlinear_arith)
                    requires
                        self.hi + other.hi + carry >= m,
                        m > 0,
                ;
                assert(m * m == HALF_MAX * m + m) by (nonlinear_arith)
                    requires
                        m == HALF_MAX + 1,
                ;
            }
            U256 { hi: HALF_MAX, lo: HALF_MAX }
        } else {
            proof {
                assert((self.hi + other.hi + carry) * m <= HALF_MAX * m) by (nonlinear_arith)
                    requires
                        self.hi + other.hi + carry <= HALF_MAX,
                        m > 0,
                ;
            }
            U256 { hi: self.hi + other.hi + carry, lo }
        }
    }

    /// The difference, or zero where `other` is the larger one.
    pub fn saturating_sub(&self, other: &U256) -> (difference: U256)
        ensures
            difference.value() == (if self.value() >= other.value() {
                (self.value() - other.value()) as nat
            } else {
                0nat
            }),
    {
        if self.less(other) {
            return U256 { hi: 0, lo: 0 };
        }
        let borrow: u128 = if self.lo < other.lo {
            1
        } else {
            0
        };
        let lo: u128 = self.lo.wrapping_sub(other.lo);
        let ghost m = HALF_MAX + 1;
        proof {
            assert(lo == self.lo - other.lo + borrow * m);
            if self.hi < other.hi + borrow {
                assert(self.hi * m + self.lo < other.hi * m + other.lo) by (nonlinear_arith)
                    requires
                        self.hi < other.hi + borrow,
                        borrow == 0 ==> self.lo >= other.lo,
                        borrow == 1 ==> self.lo < other.lo,
                        borrow <= 1,
                        self.lo < m,
                        other.lo < m,
                        m > 0,
                ;
            }
            assert((self.hi - other.hi - borrow) * m == self.hi * m - other.hi * m - borrow * m)
                by (nonlinear_arith);
        }
        U256 { hi: self.hi - other.hi - borrow, lo }
    }
}

/// An amount of the wxHOPR token, in wei.
#[derive(Clone, Copy, Debug, PartialEq, Eq, Structural)]
pub struct HoprBalance {
    pub wei: U256,
}

impl HoprBalance {
    /// No tokens.
    pub fn zero() -> (balance: Self)
        ensures
            balance.wei.value() == 0,
            balance.wei == (U256 { hi: 0, lo: 0 }),
    {
        HoprBalance { wei: U256 { hi: 0, lo: 0 } }
    }
}

/// An amount of the native xDai coin, in wei.
#[derive(Clone, Copy, Debug, PartialEq, Eq, Structural)]
pub struct XDaiBalance {
    pub wei: U256,
}

impl XDaiBalance {
    /// No coins.
    pub fn zero() -> (balance: Self)
        ensures
            balance.wei.value() == 0,
            balance.wei == (U256 { hi: 0, lo: 0 }),
    {
        XDaiBalance { wei: U256 { hi: 0, lo: 0 } }
    }
}

/// A point in time, in nanoseconds from the Unix epoch.
#[derive(Clone, Copy, Debug, PartialEq, Eq, Structural)]
pub struct Timestamp {
    pub nanos: i128,
}

/// The status of a channel.
#[derive(Clone, Copy, Debug, PartialEq, Eq, Structural)]
pub enum ChannelStatus {
    /// The channel is closed.
    Closed,
    /// The channel is open.
    Open,
    /// The channel is pending to be closed, at that time at the earliest.
    PendingToClose(Timestamp),
}

/// The three kinds of channel status.
#[derive(Clone, Copy, Debug, PartialEq, Eq, Structural)]
pub enum StatusKind {
    Closed,
    Open,
    PendingToClose,
}

/// Whether two statuses count as one: closing times matter to the second only.
pub open spec fn same_status(a: ChannelStatus, b: ChannelStatus) -> bool {
    match (a, b) {
        (ChannelStatus::Closed, ChannelStatus::Closed) => true,
        (ChannelStatus::Open, ChannelStatus::Open) => true,
        (ChannelStatus::PendingToClose(x), ChannelStatus::PendingToClose(y)) => -NANOS_PER_SEC < x.nanos - y.nanos
            < NANOS_PER_SEC,
        _ => false,
    }
}

impl ChannelStatus {
    /// The kind of the status.
    pub open spec fn spec_kind(self) -> StatusKind {
        match self {
            ChannelStatus::Closed => StatusKind::Closed,
            ChannelStatus::Open => StatusKind::Open,
            ChannelStatus::PendingToClose(_) => StatusKind::PendingToClose,
        }
    }

    /// The kind of the status.
    pub fn kind(&self) -> (kind: StatusKind)
        ensures
            kind == self.spec_kind(),
    {
        match self {
            ChannelStatus::Closed => StatusKind::Closed,
            ChannelStatus::Open => StatusKind::Open,
            ChannelStatus::PendingToClose(_) => StatusKind::PendingToClose,
        }
    }

    /// Whether two statuses count as one.
    pub fn same(&self, other: &ChannelStatus) -> (same: bool)
        ensures
            same == same_status(*self, *other),
    {
        match (self, other) {
            (ChannelStatus::Closed, ChannelStatus::Closed) => true,
            (ChannelStatus::Open, ChannelStatus::Open) => true,
            (ChannelStatus::PendingToClose(x), ChannelStatus::PendingToClose(y)) => {
                if x.nanos >= y.nanos {
                    y.nanos > i128::MAX - 1_000_000_000 || x.nanos < y.nanos + 1_000_000_000
                } else {
                    x.nanos > i128::MAX - 1_000_000_000 || y.nanos < x.nanos + 1_000_000_000
                }
            },
            _ => false,
        }
    }
}

/// A payment channel.
#[derive(Clone, Copy, Debug, PartialEq, Eq)]
pub struct ChannelEntry {
    pub source: Address,
    pub destination: Address,
    pub balance: HoprBalance,
    pub ticket_index: u64,
    pub status: ChannelStatus,
    pub channel_epoch: u32,
    pub id: ChannelId,
}

/// A network address in its canonical text.
#[derive(Clone, Debug, PartialEq, Eq)]
pub struct Multiaddr {
    pub text: String,
}

impl View for Multiaddr {
    type V = Seq<char>;

    open spec fn view(&self) -> Seq<char> {
        self.text@
    }
}

/// Whether a node is announced, and where it can be reached.
#[derive(Clone, Debug, PartialEq, Eq)]
pub enum AccountType {
    /// The node is not announced.
    NotAnnounced,
    /// The node is announced with these addresses.
    Announced(Vec<Multiaddr>),
}

impl View for AccountType {
    type V = Option<Seq<Seq<char>>>;

    open spec fn view(&self) -> Option<Seq<Seq<char>>> {
        match self {
            AccountType::NotAnnounced => None,
            AccountType::Announced(addresses) => Some(addresses@.map_values(|a: Multiaddr| a@)),
        }
    }
}

/// A node's account.
#[derive(Clone, Debug, PartialEq, Eq)]
pub struct AccountEntry {
    pub public_key: PacketKey,
    pub chain_addr: Address,
    pub entry_type: AccountType,
    pub safe_address: Option<Address>,
    pub key_id: u32,
}

/// What a node's account says.
pub struct AccountView {
    pub public_key: PacketKey,
    pub chain_addr: Address,
    pub announced: Option<Seq<Seq<char>>>,
    pub safe_address: Option<Address>,
    pub key_id: u32,
}

impl View for AccountEntry {
    type V = AccountView;

    open spec fn view(&self) -> AccountView {
        AccountView {
            public_key: self.public_key,
            chain_addr: self.chain_addr,
            announced: self.entry_type@,
            safe_address: self.safe_address,
            key_id: self.key_id,
        }
    }
}

impl AccountEntry {
    /// A copy of the account.
    pub fn copy(&self) -> (copy: AccountEntry)
        ensures
            copy@ == self@,
    {
        let entry_type = match &self.entry_type {
            AccountType::NotAnnounced => AccountType::NotAnnounced,
            AccountType::Announced(addresses) => {
                let mut copies: Vec<Multiaddr> = Vec::new();
                let count: usize = addresses.len();
                let mut i: usize = 0;
                assert(copies@.map_values(|a: Multiaddr| a@) =~= addresses@.take(0).map_values(|a: Multiaddr| a@));
                while i < count
                    invariant
                        i <= count,
                        count == addresses@.len(),
                        copies@.map_values(|a: Multiaddr| a@) == addresses@.take(i as int).map_values(
                            |a: Multiaddr| a@,
                        ),
                    decreases count - i,
                {
                    let ghost before = copies@;
                    copies.push(Multiaddr { text: addresses[i].text.clone() });
                    proof {
                        assert(copies@.map_values(|a: Multiaddr| a@) =~= before.map_values(|a: Multiaddr| a@).push(
                            addresses@[i as int]@,
                        ));
                        assert(addresses@.take(i + 1).map_values(|a: Multiaddr| a@) =~= addresses@.take(
                            i as int,
                        ).map_values(|a: Multiaddr| a@).push(addresses@[i as int]@));
                    }
                    i += 1;
                }
                assert(addresses@.take(count as int) =~= addresses@);
                AccountType::Announced(copies)
            },
        };
        AccountEntry {
            public_key: self.public_key,
            chain_addr: self.chain_addr,
            entry_type,
            safe_address: self.safe_address,
            key_id: self.key_id,
        }
    }
}

/// Something that happened on the chain.
#[derive(Clone, Copy, Debug, PartialEq, Eq)]
pub enum ChainEvent {
    /// A channel was opened.
    ChannelOpened(ChannelEntry),
    /// The closure of a channel was initiated.
    ChannelClosureInitiated(ChannelEntry),
    /// A channel was closed.
    ChannelClosed(ChannelEntry),
    /// The balance of a channel has grown by an amount.
    ChannelBalanceIncreased(ChannelEntry, HoprBalance),
    /// The balance of a channel has shrunk by an amount.
    ChannelBalanceDecreased(ChannelEntry, HoprBalance),
    /// A ticket was redeemed on a channel.
    TicketRedeemed(ChannelEntry),
    /// Anything else: announcements, ticket values, services.
    Other,
}

/// The smallest probability at which a ticket has to win, in its encoded form.
#[derive(Clone, Copy, Debug, PartialEq, Eq)]
pub struct WinningProbability {
    pub bytes: [u8; 7],
}

/// The addresses of the contracts of one deployment.
#[derive(Clone, Copy, Debug, PartialEq, Eq)]
pub struct ContractAddresses {
    pub token: Address,
    pub channels: Address,
    pub announcements: Address,
    pub node_safe_registry: Address,
    pub service_registry: Address,
    pub ticket_price_oracle: Address,
    pub winning_probability_oracle: Address,
    pub node_safe_migration: Address,
    pub node_stake_factory: Address,
    pub module_implementation: Address,
}

impl View for ContractAddresses {
    type V = Seq<Seq<u8>>;

    open spec fn view(&self) -> Seq<Seq<u8>> {
        seq![
            self.token@,
            self.channels@,
            self.announcements@,
            self.node_safe_registry@,
            self.service_registry@,
            self.ticket_price_oracle@,
            self.winning_probability_oracle@,
            self.node_safe_migration@,
            self.node_stake_factory@,
            self.module_implementation@,
        ]
    }
}

/// What a transaction does: whom it calls, with which input, how much it carries, and what it may
/// cost.
#[derive(Clone, Debug, PartialEq, Eq)]
pub struct TransactionRequest {
    pub to: Option<Address>,
    pub input: Vec<u8>,
    pub value: [u8; 32],
    pub gas_limit: Option<u64>,
}

impl View for TransactionRequest {
    type V = (Option<Seq<u8>>, Seq<u8>, Seq<u8>, Option<u64>);

    open spec fn view(&self) -> (Option<Seq<u8>>, Seq<u8>, Seq<u8>, Option<u64>) {
        let to = match self.to {
            Some(address) => Some(address@),
            None => None,
        };
        (to, self.input@, self.value@, self.gas_limit)
    }
}

/// The key that a node signs its transactions with.
#[derive(Clone, Copy, Debug, PartialEq, Eq)]
pub struct ChainKey {
    pub secret: [u8; 32],
}

/// A chain and the contracts deployed on it.
#[derive(Clone, Debug, PartialEq, Eq)]
pub struct ChainInfo {
    pub chain_id: u64,
    pub hopr_network_name: String,
    pub contract_addresses: ContractAddresses,
}

/// The domain separators of the contracts.
#[derive(Clone, Copy, Debug, PartialEq, Eq)]
pub struct DomainSeparators {
    pub ledger: Digest,
    pub safe_registry: Digest,
    pub channel: Digest,
}

/// A safe that was deployed on the chain.
#[derive(Clone, Debug, PartialEq, Eq)]
pub struct DeployedSafe {
    pub address: Address,
    pub owners: Vec<Address>,
    pub module: Address,
    pub registered_nodes: Vec<Address>,
    pub deployer: Address,
}

/// `value` in the two's complement of 32 bits.
pub open spec fn wrapped_u32(value: i32) -> u32 {
    (if value >= 0 {
        value as int
    } else {
        value + 0x1_0000_0000
    }) as u32
}

/// Reads a signed number as an unsigned one of the same 32 bits.
pub fn wrap_u32(value: i32) -> (wrapped: u32)
    ensures
        wrapped == wrapped_u32(value),
{
    if value >= 0 {
        value as u32
    } else {
        let shifted: i64 = value as i64 + 0x1_0000_0000;
        shifted as u32
    }
}

/// `value` in the two's complement of 64 bits.
pub open spec fn wrapped_u64(value: i32) -> u64 {
    (if value >= 0 {
        value as int
    } else {
        value + 0x1_0000_0000_0000_0000
    }) as u64
}

/// Reads a signed number as an unsigned one of 64 bits, its sign extended.
pub fn wrap_u64(value: i32) -> (wrapped: u64)
    ensures
        wrapped == wrapped_u64(value),
{
    if value >= 0 {
        value as u64
    } else {
        let shifted: i128 = value as i128 + 0x1_0000_0000_0000_0000;
        shifted as u64
    }
}

/// The low 32 bits of `value`, as a signed number.
pub open spec fn low_half(value: nat) -> i32 {
    let low = value % 0x1_0000_0000;
    (if low < 0x8000_0000 {
        low as int
    } else {
        low - 0x1_0000_0000
    }) as i32
}

/// Reads the low 32 bits of `value` as a signed number.
pub fn low_i32(value: u64) -> (low: i32)
    ensures
        low == low_half(value as nat),
{
    let rest: i64 = (value % 0x1_0000_0000) as i64;
    if rest < 0x8000_0000 {
        rest as i32
    } else {
        (rest - 0x1_0000_0000) as i32
    }
}

/// A 32-bit number survives the trip through its signed reading.
pub proof fn signed_reading_keeps_the_bits(value: u32)
    ensures
        wrapped_u32(low_half(value as nat)) == value,
{
}

/// The address of twenty bytes.
pub open spec fn address_of(bytes: Seq<u8>) -> Address {
    choose|address: Address| address@ == bytes
}

/// The packet key of thirty-two bytes.
pub open spec fn packet_key_from(bytes: Seq<u8>) -> PacketKey {
    choose|key: PacketKey| key@ == bytes
}

/// The digest of thirty-two bytes.
pub open spec fn digest_of(bytes: Seq<u8>) -> Digest {
    choose|digest: Digest| digest@ == bytes
}

/// The contract addresses of a deployment, from their bytes in the order of declaration.
pub open spec fn contracts_of(bytes: Seq<Seq<u8>>) -> ContractAddresses {
    choose|contracts: ContractAddresses| contracts@ == bytes
}

/// The two halves of a number of at most 256 bits.
pub open spec fn u256_of(value: nat) -> U256 {
    U256 {
        hi: (value / (HALF_MAX as nat + 1)) as u128,
        lo: (value % (HALF_MAX as nat + 1)) as u128,
    }
}

/// An address is known by its bytes.
pub proof fn lemma_address_of(address: Address)
    ensures
        address_of(address@) == address,
{
    let other = address_of(address@);
    assert(other@ == address@);
    assert(other.bytes =~= address.bytes);
}

/// A packet key is known by its bytes.
pub proof fn lemma_packet_key_from(key: PacketKey)
    ensures
        packet_key_from(key@) == key,
{
    let other = packet_key_from(key@);
    assert(other@ == key@);
    assert(other.bytes =~= key.bytes);
}

/// A digest is known by its bytes.
pub proof fn lemma_digest_of(digest: Digest)
    ensures
        digest_of(digest@) == digest,
{
    let other = digest_of(digest@);
    assert(other@ == digest@);
    assert(other.bytes =~= digest.bytes);
}

/// Contract addresses are known by their bytes.
pub proof fn lemma_contracts_of(contracts: ContractAddresses)
    ensures
        contracts_of(contracts@) == contracts,
{
    let other = contracts_of(contracts@);
    assert(other@ == contracts@);
    lemma_same_address(other@, contracts@, 0, other.token, contracts.token);
    lemma_same_address(other@, contracts@, 1, other.channels, contracts.channels);
    lemma_same_address(other@, contracts@, 2, other.announcements, contracts.announcements);
    lemma_same_address(other@, contracts@, 3, other.node_safe_registry, contracts.node_safe_registry);
    lemma_same_address(other@, contracts@, 4, other.service_registry, contracts.service_registry);
    lemma_same_address(other@, contracts@, 5, other.ticket_price_oracle, contracts.ticket_price_oracle);
    lemma_same_address(other@, contracts@, 6, other.winning_probability_oracle, contracts.winning_probability_oracle);
    lemma_same_address(other@, contracts@, 7, other.node_safe_migration, contracts.node_safe_migration);
    lemma_same_address(other@, contracts@, 8, other.node_stake_factory, contracts.node_stake_factory);
    lemma_same_address(other@, contracts@, 9, other.module_implementation, contracts.module_implementation);
}

proof fn lemma_same_address(a: Seq<Seq<u8>>, b: Seq<Seq<u8>>, i: int, x: Address, y: Address)
    requires
        a == b,
        0 <= i < a.len(),
        a[i] == x@,
        b[i] == y@,
    ensures
        x == y,
{
    assert(x.bytes =~= y.bytes);
}

/// A number is known by its value.
pub proof fn lemma_u256_of(number: U256)
    ensures
        u256_of(number.value()) == number,
{
    let m = HALF_MAX as int + 1;
    vstd::arithmetic::div_mod::lemma_fundamental_div_mod_converse(
        number.value() as int,
        m,
        number.hi as int,
        number.lo as int,
    );
}

/// A number of at most 256 bits is what its halves stand for.
pub proof fn lemma_halves(value: nat)
    requires
        value <= u256_max(),
    ensures
        u256_of(value).value() == value,
{
    let m = HALF_MAX as int + 1;
    vstd::arithmetic::div_mod::lemma_fundamental_div_mod(value as int, m);
    assert(value as int / m <= HALF_MAX) by (nonlinear_arith)
        requires
            0 <= value < m * m,
            m == HALF_MAX + 1,
    ;
}

/// Two statuses count as one where they are of one kind and, where both are closing, their closing times lie
/// less than a second apart.
pub proof fn closing_times_count_to_the_second(a: ChannelStatus, b: ChannelStatus)
    ensures
        same_status(a, b) <==> {
            ||| a is Open && b is Open
            ||| a is Closed && b is Closed
            ||| a is PendingToClose && b is PendingToClose && -1_000_000_000 < a->PendingToClose_0.nanos
                - b->PendingToClose_0.nanos < 1_000_000_000
        },
        same_status(a, b) == same_status(b, a),
        same_status(a, a),
        a is Open <==> a.spec_kind() is Open,
        a is Closed <==> a.spec_kind() is Closed,
        a is PendingToClose <==> a.spec_kind() is PendingToClose,
{
}

/// A signed number and its unsigned reading have the same bits, and so have a number and the signed reading
/// of its low half.
pub proof fn readings_keep_the_bits(signed: i32, unsigned: nat)
    ensures
        (wrapped_u32(signed) - signed) % 0x1_0000_0000 == 0,
        (wrapped_u64(signed) - signed) % 0x1_0000_0000_0000_0000 == 0,
        (unsigned - low_half(unsigned)) % 0x1_0000_0000 == 0,
{
}

/// An account says what is in each of its fields, and that it is announced exactly where it is, with its
/// addresses in their order.
pub proof fn an_account_says_what_it_holds(account: AccountEntry, i: int)
    ensures
        account@.public_key == account.public_key,
        account@.chain_addr == account.chain_addr,
        account@.safe_address == account.safe_address,
        account@.key_id == account.key_id,
        account.entry_type is NotAnnounced ==> account@.announced is None,
        account.entry_type matches AccountType::Announced(addresses) ==> {
            &&& account@.announced is Some
            &&& account@.announced->0.len() == addresses@.len()
            &&& 0 <= i < addresses@.len() ==> account@.announced->0[i] == addresses@[i].text@
        },
{
}

/// A transaction says whom it calls, with which input, how much it carries and what it may cost.
pub proof fn a_transaction_says_what_it_does(request: TransactionRequest)
    ensures
        request.to is Some ==> request@.0 == Some(request.to->0@),
        request.to is None ==> request@.0 is None,
        request@.1 == request.input@,
        request@.2 == request.value@,
        request@.3 == request.gas_limit,
{
}

} // verus!
