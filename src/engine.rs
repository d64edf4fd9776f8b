use vstd::prelude::*;
use crate::hash::{sha256, MAX_HASH_INPUT, sha256_of};
use crate::swap_id::{derive_swap_id, swap_id_of};
use crate::types::{bytes32_eq, Address, DataKey, HtlcError, Swap, SwapStatus, SwapView, Transfer};

verus! {

/// The record that `initiate` creates from its parameters.
pub open spec fn new_swap(
    sender: Seq<u8>,
    receiver: Seq<u8>,
    token_address: Seq<u8>,
    amount: i128,
    hashlock: Seq<u8>,
    timelock: u64,
) -> SwapView {
    SwapView { sender, receiver, token_address, amount, hashlock, timelock, status: SwapStatus::Pending }
}

/// The identifier under which a record is stored.
pub open spec fn id_of(s: SwapView) -> Seq<u8> {
    swap_id_of(s.sender, s.receiver, s.hashlock, s.timelock)
}

/// The record with its status replaced.
pub open spec fn with_status(s: SwapView, status: SwapStatus) -> SwapView {
    SwapView { status, ..s }
}

/// Every stored record holds a strictly positive amount.
pub open spec fn amounts_positive(records: Map<Seq<u8>, SwapView>) -> bool {
    forall|k: Seq<u8>| #[trigger] records.contains_key(k) ==> records[k].amount > 0
}

/// Why `initiate` of the record `s` fails, checked in this order, or `None`
/// when it succeeds. `caller` is the authenticated caller and
/// `sender_balance` the sender's balance of the token.
pub open spec fn initiate_error(
    records: Map<Seq<u8>, SwapView>,
    now: u64,
    caller: Seq<u8>,
    s: SwapView,
    sender_balance: i128,
) -> Option<HtlcError> {
    if caller != s.sender {
        Some(HtlcError::Unauthorized)
    } else if s.amount <= 0 {
        Some(HtlcError::InvalidAmount)
    } else if s.timelock <= now {
        Some(HtlcError::InvalidTimelock)
    } else if sender_balance < s.amount {
        Some(HtlcError::EscrowFailed)
    } else if records.contains_key(id_of(s)) {
        Some(HtlcError::DuplicateSwap)
    } else {
        None
    }
}

/// The records after `initiate`: the new record is added on success.
pub open spec fn initiate_next(
    records: Map<Seq<u8>, SwapView>,
    now: u64,
    caller: Seq<u8>,
    s: SwapView,
    sender_balance: i128,
) -> Map<Seq<u8>, SwapView> {
    if initiate_error(records, now, caller, s, sender_balance) is None {
        records.insert(id_of(s), s)
    } else {
        records
    }
}

/// Why `claim` of the record `id` with a preimage hashing to `digest` fails,
/// checked in this order, or `None` when it succeeds.
pub open spec fn claim_error(
    records: Map<Seq<u8>, SwapView>,
    now: u64,
    caller: Seq<u8>,
    id: Seq<u8>,
    digest: Seq<u8>,
) -> Option<HtlcError> {
    if !records.contains_key(id) {
        Some(HtlcError::SwapNotFound)
    } else if records[id].status != SwapStatus::Pending {
        Some(HtlcError::AlreadySettled)
    } else if now >= records[id].timelock {
        Some(HtlcError::Expired)
    } else if caller != records[id].receiver {
        Some(HtlcError::Unauthorized)
    } else if digest != records[id].hashlock {
        Some(HtlcError::InvalidPreimage)
    } else {
        None
    }
}

/// The records after `claim`: the record becomes `Claimed` on success.
pub open spec fn claim_next(
    records: Map<Seq<u8>, SwapView>,
    now: u64,
    caller: Seq<u8>,
    id: Seq<u8>,
    digest: Seq<u8>,
) -> Map<Seq<u8>, SwapView> {
    if claim_error(records, now, caller, id, digest) is None {
        records.insert(id, with_status(records[id], SwapStatus::Claimed))
    } else {
        records
    }
}

/// Why `refund` of the record `id` fails, checked in this order, or `None`
/// when it succeeds.
pub open spec fn refund_error(
    records: Map<Seq<u8>, SwapView>,
    now: u64,
    caller: Seq<u8>,
    id: Seq<u8>,
) -> Option<HtlcError> {
    if !records.contains_key(id) {
        Some(HtlcError::SwapNotFound)
    } else if records[id].status != SwapStatus::Pending {
        Some(HtlcError::AlreadySettled)
    } else if now < records[id].timelock {
        Some(HtlcError::NotYetExpired)
    } else if caller != records[id].sender {
        Some(HtlcError::Unauthorized)
    } else {
        None
    }
}

/// The records after `refund`: the record becomes `Refunded` on success.
pub open spec fn refund_next(
    records: Map<Seq<u8>, SwapView>,
    now: u64,
    caller: Seq<u8>,
    id: Seq<u8>,
) -> Map<Seq<u8>, SwapView> {
    if refund_error(records, now, caller, id) is None {
        records.insert(id, with_status(records[id], SwapStatus::Refunded))
    } else {
        records
    }
}

/// `t` hands the value escrowed for `s` from `custody` to `to`.
pub open spec fn is_release(t: Transfer, custody: Address, s: SwapView, to: Seq<u8>) -> bool {
    &&& t.token_address@ == s.token_address
    &&& t.from@ == custody@
    &&& t.to@ == to
    &&& t.amount == s.amount
}

/// The swap records of one contract, and the address that holds the escrowed
/// value in custody.
pub struct HTLCContract {
    custody: Address,
    swaps: Vec<Swap>,
    records: Ghost<Map<Seq<u8>, SwapView>>,
}

impl HTLCContract {
    /// The stored records, by identifier.
    pub closed spec fn records(&self) -> Map<Seq<u8>, SwapView> {
        self.records@
    }

    /// The stored list and the record map agree, identifiers are unique, and
    /// every amount is positive.
    pub closed spec fn wf(&self) -> bool {
        &&& forall|i: int| 0 <= i < self.swaps@.len() ==> {
            &&& #[trigger] self.records@.contains_key(self.swaps@[i].id@)
            &&& self.records@[self.swaps@[i].id@] == self.swaps@[i]@
        }
        &&& forall|k: Seq<u8>| #[trigger] self.records@.contains_key(k)
            ==> exists|i: int| 0 <= i < self.swaps@.len() && #[trigger] self.swaps@[i].id@ == k
        &&& forall|i: int, j: int| 0 <= i < j < self.swaps@.len()
            ==> #[trigger] self.swaps@[i].id@ != #[trigger] self.swaps@[j].id@
        &&& amounts_positive(self.records@)
    }

    /// The address that holds escrowed value.
    pub closed spec fn spec_custody(&self) -> Address {
        self.custody
    }

    /// Every amount held by a well-formed contract is positive.
    pub proof fn lemma_amounts_positive(&self)
        requires
            self.wf(),
        ensures
            amounts_positive(self.records()),
    {
    }

    /// A contract with no swaps, holding escrow at `custody`.
    pub fn new(custody: Address) -> (r: HTLCContract)
        ensures
            r.wf(),
            r.records() == Map::<Seq<u8>, SwapView>::empty(),
            r.spec_custody() == custody,
    {
        HTLCContract { custody, swaps: Vec::new(), records: Ghost(Map::empty()) }
    }

    fn find(&self, id: &[u8; 32]) -> (r: Option<usize>)
        requires
            self.wf(),
        ensures
            match r {
                Some(i) => i < self.swaps@.len() && self.swaps@[i as int].id@ == id@
                    && self.records().contains_key(id@)
                    && self.records()[id@] == self.swaps@[i as int]@,
                None => !self.records().contains_key(id@),
            },
    {
        let mut i: usize = 0;
        while i < self.swaps.len()
            invariant
                self.wf(),
                0 <= i <= self.swaps@.len(),
                forall|j: int| 0 <= j < i ==> self.swaps@[j].id@ != id@,
            decreases self.swaps@.len() - i,
        {
            if bytes32_eq(&self.swaps[i].id, id) {
                assert(self.records@.contains_key(self.swaps@[i as int].id@));
                return Some(i);
            }
            i = i + 1;
        }
        None
    }

    /// The address that holds escrowed value.
    pub fn custody(&self) -> (r: Address)
        ensures
            r == self.spec_custody(),
    {
        self.custody
    }

    /// Opens a swap: `sender` escrows `amount` of `token_address` for
    /// `receiver`, claimable with a preimage of `hashlock` strictly before
    /// `timelock`. `now` is the ledger time, `caller` the authenticated
    /// caller and `sender_balance` the sender's balance of the token. On
    /// success the record is stored as pending under the returned identifier,
    /// and the host moves `amount` from the sender to the custody address.
    pub fn initiate(
        &mut self,
        now: u64,
        caller: &Address,
        sender: Address,
        receiver: Address,
        token_address: Address,
        amount: i128,
        hashlock: [u8; 32],
        timelock: u64,
        sender_balance: i128,
    ) -> (r: Result<[u8; 32], HtlcError>)
        requires
            old(self).wf(),
        ensures
            final(self).wf(),
            final(self).spec_custody() == old(self).spec_custody(),
            final(self).records() == initiate_next(
                old(self).records(),
                now,
                caller@,
                new_swap(sender@, receiver@, token_address@, amount, hashlock@, timelock),
                sender_balance,
            ),
            match r {
                Ok(id) => initiate_error(
                    old(self).records(),
                    now,
                    caller@,
                    new_swap(sender@, receiver@, token_address@, amount, hashlock@, timelock),
                    sender_balance,
                ) is None && id@ == id_of(
                    new_swap(sender@, receiver@, token_address@, amount, hashlock@, timelock),
                ),
                Err(e) => initiate_error(
                    old(self).records(),
                    now,
                    caller@,
                    new_swap(sender@, receiver@, token_address@, amount, hashlock@, timelock),
                    sender_balance,
                ) == Some(e),
            },
    {
        if !caller.same_as(&sender) {
            return Err(HtlcError::Unauthorized);
        }
        if amount <= 0 {
            return Err(HtlcError::InvalidAmount);
        }
        if timelock <= now {
            return Err(HtlcError::InvalidTimelock);
        }
        let id = derive_swap_id(&sender, &receiver, &hashlock, timelock);
        if sender_balance < amount {
            return Err(HtlcError::EscrowFailed);
        }
        if self.find(&id).is_some() {
            return Err(HtlcError::DuplicateSwap);
        }
        let swap = Swap {
            id,
            sender,
            receiver,
            token_address,
            amount,
            hashlock,
            timelock,
            status: SwapStatus::Pending,
        };
        self.insert_new(swap);
        Ok(id)
    }

    /// Adds a record under an identifier that is not stored yet.
    fn insert_new(&mut self, swap: Swap)
        requires
            old(self).wf(),
            !old(self).records().contains_key(swap.id@),
            swap.amount > 0,
        ensures
            final(self).wf(),
            final(self).spec_custody() == old(self).spec_custody(),
            final(self).records() == old(self).records().insert(swap.id@, swap@),
    {
        let ghost old_swaps = self.swaps@;
        let ghost old_records = self.records@;
        self.swaps.push(swap);
        self.records = Ghost(self.records@.insert(swap.id@, swap@));
        proof {
            assert(self.swaps@[old_swaps.len() as int] == swap);
            assert forall|i: int| 0 <= i < old_swaps.len() implies self.swaps@[i].id@ != swap.id@ by {
                assert(self.swaps@[i] == old_swaps[i]);
                assert(old_records.contains_key(old_swaps[i].id@));
            }
            assert forall|k: Seq<u8>| #[trigger] self.records@.contains_key(k) implies exists|i: int|
                0 <= i < self.swaps@.len() && #[trigger] self.swaps@[i].id@ == k by {
                if k == swap.id@ {
                    assert(self.swaps@[old_swaps.len() as int].id@ == k);
                } else {
                    assert(old_records.contains_key(k));
                    let i = choose|i: int| 0 <= i < old_swaps.len() && #[trigger] old_swaps[i].id@ == k;
                    assert(self.swaps@[i] == old_swaps[i]);
                }
            }
        }
    }

    /// Loads a record kept outside the contract, such as in the host's
    /// persistent storage. A record with an amount that is not positive is
    /// refused with `InvalidAmount`, one whose identifier is already stored
    /// with `DuplicateSwap`; then nothing changes.
    pub fn restore(&mut self, swap: Swap) -> (r: Result<(), HtlcError>)
        requires
            old(self).wf(),
        ensures
            final(self).wf(),
            final(self).spec_custody() == old(self).spec_custody(),
            match r {
                Ok(()) => swap.amount > 0 && !old(self).records().contains_key(swap.id@)
                    && final(self).records() == old(self).records().insert(swap.id@, swap@),
                Err(e) => final(self).records() == old(self).records() && if swap.amount <= 0 {
                    e == HtlcError::InvalidAmount
                } else {
                    old(self).records().contains_key(swap.id@) && e == HtlcError::DuplicateSwap
                },
            },
    {
        if swap.amount <= 0 {
            return Err(HtlcError::InvalidAmount);
        }
        if self.find(&swap.id).is_some() {
            return Err(HtlcError::DuplicateSwap);
        }
        self.insert_new(swap);
        Ok(())
    }

    /// Replaces the status of the record at position `i`.
    fn settle(&mut self, i: usize, status: SwapStatus)
        requires
            old(self).wf(),
            i < old(self).swaps@.len(),
        ensures
            final(self).wf(),
            final(self).spec_custody() == old(self).spec_custody(),
            final(self).swaps@.len() == old(self).swaps@.len(),
            final(self).records() == old(self).records().insert(
                old(self).swaps@[i as int].id@,
                with_status(old(self).swaps@[i as int]@, status),
            ),
    {
        let ghost old_swaps = self.swaps@;
        let ghost old_records = self.records@;
        let mut swap = self.swaps[i];
        swap.status = status;
        let ghost id = swap.id@;
        self.swaps.set(i, swap);
        self.records = Ghost(self.records@.insert(id, swap@));
        proof {
            assert(swap@ == with_status(old_swaps[i as int]@, status));
            assert forall|j: int| 0 <= j < self.swaps@.len() implies {
                &&& #[trigger] self.records@.contains_key(self.swaps@[j].id@)
                &&& self.records@[self.swaps@[j].id@] == self.swaps@[j]@
            } by {
                if j != i {
                    assert(self.swaps@[j] == old_swaps[j]);
                    if j < i {
                        assert(old_swaps[j].id@ != old_swaps[i as int].id@);
                    } else {
                        assert(old_swaps[i as int].id@ != old_swaps[j].id@);
                    }
                    assert(old_records.contains_key(old_swaps[j].id@));
                } else {
                    assert(self.swaps@[j] == swap);
                }
            }
            assert forall|k: Seq<u8>| #[trigger] self.records@.contains_key(k) implies exists|j: int|
                0 <= j < self.swaps@.len() && #[trigger] self.swaps@[j].id@ == k by {
                let j = choose|j: int| 0 <= j < old_swaps.len() && #[trigger] old_swaps[j].id@ == k;
                if j == i {
                    assert(self.swaps@[i as int].id@ == k);
                } else {
                    assert(self.swaps@[j] == old_swaps[j]);
                }
            }
            assert forall|a: int, b: int| 0 <= a < b < self.swaps@.len()
                implies #[trigger] self.swaps@[a].id@ != #[trigger] self.swaps@[b].id@ by {
                assert(old_swaps[a].id@ != old_swaps[b].id@);
            }
            assert forall|k: Seq<u8>| #[trigger] self.records@.contains_key(k)
                implies self.records@[k].amount > 0 by {
                assert(old_records.contains_key(k));
            }
        }
    }

    /// Claims the swap `swap_id` for its receiver, given the SHA-256 digest
    /// of the revealed preimage. On success the record becomes `Claimed` and
    /// the returned transfer hands the escrowed value to the receiver.
    pub fn claim_with_digest(
        &mut self,
        now: u64,
        caller: &Address,
        swap_id: &[u8; 32],
        digest: &[u8; 32],
    ) -> (r: Result<Transfer, HtlcError>)
        requires
            old(self).wf(),
        ensures
            final(self).wf(),
            final(self).spec_custody() == old(self).spec_custody(),
            final(self).records() == claim_next(old(self).records(), now, caller@, swap_id@, digest@),
            match r {
                Ok(t) => claim_error(old(self).records(), now, caller@, swap_id@, digest@) is None
                    && is_release(t, old(self).spec_custody(), old(self).records()[swap_id@],
                    old(self).records()[swap_id@].receiver),
                Err(e) => claim_error(old(self).records(), now, caller@, swap_id@, digest@) == Some(e),
            },
    {
        let i = match self.find(swap_id) {
            Some(i) => i,
            None => return Err(HtlcError::SwapNotFound),
        };
        let swap = self.swaps[i];
        if swap.claimed() {
            return Err(HtlcError::AlreadySettled);
        }
        if now >= swap.timelock {
            return Err(HtlcError::Expired);
        }
        if !caller.same_as(&swap.receiver) {
            return Err(HtlcError::Unauthorized);
        }
        if !bytes32_eq(digest, &swap.hashlock) {
            return Err(HtlcError::InvalidPreimage);
        }
        self.settle(i, SwapStatus::Claimed);
        Ok(Transfer {
            token_address: swap.token_address,
            from: self.custody,
            to: swap.receiver,
            amount: swap.amount,
        })
    }

    /// Claims the swap `swap_id` for its receiver with the revealed
    /// `preimage`, which must hash to the swap's hashlock.
    pub fn claim(&mut self, now: u64, caller: &Address, swap_id: &[u8; 32], preimage: &Vec<u8>) -> (r:
        Result<Transfer, HtlcError>)
        requires
            old(self).wf(),
            preimage@.len() <= MAX_HASH_INPUT,
        ensures
            final(self).wf(),
            final(self).spec_custody() == old(self).spec_custody(),
            final(self).records() == claim_next(
                old(self).records(),
                now,
                caller@,
                swap_id@,
                sha256_of(preimage@),
            ),
            match r {
                Ok(t) => claim_error(old(self).records(), now, caller@, swap_id@, sha256_of(preimage@))
                    is None && is_release(t, old(self).spec_custody(), old(self).records()[swap_id@],
                    old(self).records()[swap_id@].receiver),
                Err(e) => claim_error(old(self).records(), now, caller@, swap_id@, sha256_of(preimage@))
                    == Some(e),
            },
    {
        let digest = sha256(preimage);
        self.claim_with_digest(now, caller, swap_id, &digest)
    }

    /// Refunds the swap `swap_id` to its sender once its timelock has been
    /// reached. On success the record becomes `Refunded` and the returned
    /// transfer hands the escrowed value back to the sender.
    pub fn refund(&mut self, now: u64, caller: &Address, swap_id: &[u8; 32]) -> (r: Result<Transfer, HtlcError>)
        requires
            old(self).wf(),
        ensures
            final(self).wf(),
            final(self).spec_custody() == old(self).spec_custody(),
            final(self).records() == refund_next(old(self).records(), now, caller@, swap_id@),
            match r {
                Ok(t) => refund_error(old(self).records(), now, caller@, swap_id@) is None
                    && is_release(t, old(self).spec_custody(), old(self).records()[swap_id@],
                    old(self).records()[swap_id@].sender),
                Err(e) => refund_error(old(self).records(), now, caller@, swap_id@) == Some(e),
            },
    {
        let i = match self.find(swap_id) {
            Some(i) => i,
            None => return Err(HtlcError::SwapNotFound),
        };
        let swap = self.swaps[i];
        if swap.claimed() {
            return Err(HtlcError::AlreadySettled);
        }
        if now < swap.timelock {
            return Err(HtlcError::NotYetExpired);
        }
        if !caller.same_as(&swap.sender) {
            return Err(HtlcError::Unauthorized);
        }
        self.settle(i, SwapStatus::Refunded);
        Ok(Transfer {
            token_address: swap.token_address,
            from: self.custody,
            to: swap.sender,
            amount: swap.amount,
        })
    }

    /// The record stored under `key`, if any.
    pub fn get_swap(&self, key: &DataKey) -> (r: Option<Swap>)
        requires
            self.wf(),
        ensures
            match *key {
                DataKey::Swap(id) => match r {
                    Some(s) => self.records().contains_key(id@) && s@ == self.records()[id@]
                        && s.id@ == id@,
                    None => !self.records().contains_key(id@),
                },
            },
    {
        match key {
            DataKey::Swap(id) => match self.find(id) {
                Some(i) => Some(self.swaps[i]),
                None => None,
            },
        }
    }
}

} // verus!
