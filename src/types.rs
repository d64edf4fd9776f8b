use vstd::prelude::*;

verus! {

/// What an address names: an account, by its public key, or a contract, by
/// the hash of its identity.
#[derive(Clone, Copy, Debug, PartialEq, Eq, Structural)]
pub enum AddressKind {
    Account,
    Contract,
}

/// The byte that marks the kind of an address in its encoding.
pub open spec fn kind_tag(kind: AddressKind) -> u8 {
    match kind {
        AddressKind::Account => 0u8,
        AddressKind::Contract => 1u8,
    }
}

/// An identity on the ledger: its kind and its 32-byte key.
#[derive(Clone, Copy, Debug)]
pub struct Address {
    pub kind: AddressKind,
    pub key: [u8; 32],
}

impl View for Address {
    type V = Seq<u8>;

    /// The 33-byte encoding: the kind's tag, then the key.
    open spec fn view(&self) -> Seq<u8> {
        seq![kind_tag(self.kind)] + self.key@
    }
}

impl Address {
    /// The account with this public key.
    pub fn account(key: [u8; 32]) -> (r: Address)
        ensures
            r.kind == AddressKind::Account,
            r.key == key,
    {
        Address { kind: AddressKind::Account, key }
    }

    /// The contract with this identity hash.
    pub fn contract(key: [u8; 32]) -> (r: Address)
        ensures
            r.kind == AddressKind::Contract,
            r.key == key,
    {
        Address { kind: AddressKind::Contract, key }
    }

    /// The byte that marks this address's kind.
    pub fn tag(&self) -> (r: u8)
        ensures
            r == kind_tag(self.kind),
    {
        match self.kind {
            AddressKind::Account => 0u8,
            AddressKind::Contract => 1u8,
        }
    }

    /// Whether two addresses are the same identity.
    pub fn same_as(&self, other: &Address) -> (r: bool)
        ensures
            r == (self@ == other@),
    {
        let same_key = bytes32_eq(&self.key, &other.key);
        proof {
            assert(self@.len() == 33 && other@.len() == 33);
            assert(self@[0] == kind_tag(self.kind));
            assert(other@[0] == kind_tag(other.kind));
            assert(self@.subrange(1, 33) =~= self.key@);
            assert(other@.subrange(1, 33) =~= other.key@);
            if same_key && self.kind == other.kind {
                assert(self@ =~= other@);
            }
        }
        same_key && self.kind == other.kind
    }
}

/// Compares two 32-byte values byte by byte.
pub fn bytes32_eq(a: &[u8; 32], b: &[u8; 32]) -> (r: bool)
    ensures
        r == (a@ == b@),
{
    let mut i: usize = 0;
    while i < 32
        invariant
            0 <= i <= 32,
            a@.len() == 32,
            b@.len() == 32,
            forall|j: int| 0 <= j < i ==> a@[j] == b@[j],
        decreases 32 - i,
    {
        if a[i] != b[i] {
            assert(a@[i as int] != b@[i as int]);
            return false;
        }
        i = i + 1;
    }
    assert(a@ =~= b@);
    true
}

/// Where a swap stands in its lifecycle. `Claimed` and `Refunded` are terminal.
#[derive(Clone, Copy, Debug, PartialEq, Eq, Structural)]
pub enum SwapStatus {
    Pending,
    Claimed,
    Refunded,
}

/// The reasons an operation on the contract fails. A failed operation
/// changes nothing.
#[derive(Clone, Copy, Debug, PartialEq, Eq, Structural)]
pub enum HtlcError {
    InvalidAmount,
    InvalidTimelock,
    DuplicateSwap,
    EscrowFailed,
    SwapNotFound,
    AlreadySettled,
    Expired,
    NotYetExpired,
    Unauthorized,
    InvalidPreimage,
}

/// The storage key under which a swap record is kept.
#[derive(Clone, Copy, Debug)]
pub enum DataKey {
    Swap([u8; 32]),
}

/// One swap record, keyed by its derived identifier `id`.
#[derive(Clone, Copy, Debug)]
pub struct Swap {
    pub id: [u8; 32],
    pub sender: Address,
    pub receiver: Address,
    pub token_address: Address,
    pub amount: i128,
    pub hashlock: [u8; 32],
    pub timelock: u64,
    pub status: SwapStatus,
}

/// A swap record as a mathematical value; its identifier is the key it is
/// stored under.
pub struct SwapView {
    pub sender: Seq<u8>,
    pub receiver: Seq<u8>,
    pub token_address: Seq<u8>,
    pub amount: i128,
    pub hashlock: Seq<u8>,
    pub timelock: u64,
    pub status: SwapStatus,
}

impl View for Swap {
    type V = SwapView;

    open spec fn view(&self) -> SwapView {
        SwapView {
            sender: self.sender@,
            receiver: self.receiver@,
            token_address: self.token_address@,
            amount: self.amount,
            hashlock: self.hashlock@,
            timelock: self.timelock,
            status: self.status,
        }
    }
}

impl Swap {
    /// Whether the swap has been settled, by claim or by refund.
    pub fn claimed(&self) -> (r: bool)
        ensures
            r == (self.status != SwapStatus::Pending),
    {
        !matches!(self.status, SwapStatus::Pending)
    }
}

/// A movement of `amount` of the token `token_address` from `from` to `to`,
/// which the host carries out on the contract's behalf.
#[derive(Clone, Copy, Debug)]
pub struct Transfer {
    pub token_address: Address,
    pub from: Address,
    pub to: Address,
    pub amount: i128,
}

} // verus!
