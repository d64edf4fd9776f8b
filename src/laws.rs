use vstd::prelude::*;
use crate::engine::{
    claim_error, claim_next, id_of, initiate_error, initiate_next, new_swap, refund_error,
    refund_next,
};
use crate::hash::sha256_of;
use crate::types::{HtlcError, SwapStatus, SwapView};

verus! {

/// A swap that was just opened is claimed by its receiver with the right
/// preimage before the timelock; after that, every further claim and every
/// refund of it fails with `AlreadySettled`.
pub proof fn lemma_claim_settles_once(
    records: Map<Seq<u8>, SwapView>,
    now: u64,
    sender: Seq<u8>,
    receiver: Seq<u8>,
    token_address: Seq<u8>,
    amount: i128,
    hashlock: Seq<u8>,
    timelock: u64,
    sender_balance: i128,
    claim_now: u64,
    preimage: Seq<u8>,
    later_now: u64,
    later_caller: Seq<u8>,
    later_digest: Seq<u8>,
)
    requires
        initiate_error(
            records,
            now,
            sender,
            new_swap(sender, receiver, token_address, amount, hashlock, timelock),
            sender_balance,
        ) is None,
        claim_now < timelock,
        sha256_of(preimage) == hashlock,
    ensures
        ({
            let s = new_swap(sender, receiver, token_address, amount, hashlock, timelock);
            let id = id_of(s);
            let opened = initiate_next(records, now, sender, s, sender_balance);
            let claimed = claim_next(opened, claim_now, receiver, id, sha256_of(preimage));
            &&& claim_error(opened, claim_now, receiver, id, sha256_of(preimage)) is None
            &&& claimed[id].status == SwapStatus::Claimed
            &&& claim_error(claimed, later_now, later_caller, id, later_digest)
                == Some(HtlcError::AlreadySettled)
            &&& refund_error(claimed, later_now, later_caller, id) == Some(HtlcError::AlreadySettled)
        }),
{
}

/// A swap that was just opened cannot be refunded before its timelock, by
/// anyone; at or after the timelock its sender refunds it.
pub proof fn lemma_refund_after_timelock(
    records: Map<Seq<u8>, SwapView>,
    now: u64,
    sender: Seq<u8>,
    receiver: Seq<u8>,
    token_address: Seq<u8>,
    amount: i128,
    hashlock: Seq<u8>,
    timelock: u64,
    sender_balance: i128,
    early_now: u64,
    early_caller: Seq<u8>,
    late_now: u64,
)
    requires
        initiate_error(
            records,
            now,
            sender,
            new_swap(sender, receiver, token_address, amount, hashlock, timelock),
            sender_balance,
        ) is None,
        early_now < timelock,
        late_now >= timelock,
    ensures
        ({
            let s = new_swap(sender, receiver, token_address, amount, hashlock, timelock);
            let id = id_of(s);
            let opened = initiate_next(records, now, sender, s, sender_balance);
            &&& refund_error(opened, early_now, early_caller, id) == Some(HtlcError::NotYetExpired)
            &&& refund_next(opened, early_now, early_caller, id) == opened
            &&& refund_error(opened, late_now, sender, id) is None
            &&& refund_next(opened, late_now, sender, id)[id].status == SwapStatus::Refunded
        }),
{
}

/// A claim of a pending swap, made by its receiver before the timelock with a
/// preimage that does not hash to the hashlock, fails with `InvalidPreimage`
/// and leaves the records, and so the swap's pending status, unchanged.
pub proof fn lemma_wrong_preimage_rejected(
    records: Map<Seq<u8>, SwapView>,
    now: u64,
    id: Seq<u8>,
    preimage: Seq<u8>,
)
    requires
        records.contains_key(id),
        records[id].status == SwapStatus::Pending,
        now < records[id].timelock,
        sha256_of(preimage) != records[id].hashlock,
    ensures
        claim_error(records, now, records[id].receiver, id, sha256_of(preimage))
            == Some(HtlcError::InvalidPreimage),
        claim_next(records, now, records[id].receiver, id, sha256_of(preimage)) == records,
        claim_next(records, now, records[id].receiver, id, sha256_of(preimage))[id].status
            == SwapStatus::Pending,
{
}

/// A claim of a pending swap at or after its timelock fails with `Expired`,
/// whoever makes it and whatever preimage it reveals.
pub proof fn lemma_claim_after_timelock_expired(
    records: Map<Seq<u8>, SwapView>,
    now: u64,
    caller: Seq<u8>,
    id: Seq<u8>,
    digest: Seq<u8>,
)
    requires
        records.contains_key(id),
        records[id].status == SwapStatus::Pending,
        now >= records[id].timelock,
    ensures
        claim_error(records, now, caller, id, digest) == Some(HtlcError::Expired),
        claim_next(records, now, caller, id, digest) == records,
{
}

/// Opening a swap with an amount that is zero or negative fails with
/// `InvalidAmount` and stores nothing, so nothing is escrowed.
pub proof fn lemma_nonpositive_amount_rejected(
    records: Map<Seq<u8>, SwapView>,
    now: u64,
    sender: Seq<u8>,
    receiver: Seq<u8>,
    token_address: Seq<u8>,
    amount: i128,
    hashlock: Seq<u8>,
    timelock: u64,
    sender_balance: i128,
)
    requires
        amount <= 0,
    ensures
        ({
            let s = new_swap(sender, receiver, token_address, amount, hashlock, timelock);
            &&& initiate_error(records, now, sender, s, sender_balance)
                == Some(HtlcError::InvalidAmount)
            &&& initiate_next(records, now, sender, s, sender_balance) == records
        }),
{
}

/// Once a swap is open, opening another with the same sender, receiver,
/// hashlock and timelock, whose escrow would succeed, fails with
/// `DuplicateSwap` whatever its token and amount, and leaves the first
/// record in place.
pub proof fn lemma_duplicate_rejected(
    records: Map<Seq<u8>, SwapView>,
    now: u64,
    sender: Seq<u8>,
    receiver: Seq<u8>,
    token_address: Seq<u8>,
    amount: i128,
    hashlock: Seq<u8>,
    timelock: u64,
    sender_balance: i128,
    now2: u64,
    token_address2: Seq<u8>,
    amount2: i128,
    sender_balance2: i128,
)
    requires
        initiate_error(
            records,
            now,
            sender,
            new_swap(sender, receiver, token_address, amount, hashlock, timelock),
            sender_balance,
        ) is None,
        amount2 > 0,
        timelock > now2,
        sender_balance2 >= amount2,
    ensures
        ({
            let s = new_swap(sender, receiver, token_address, amount, hashlock, timelock);
            let s2 = new_swap(sender, receiver, token_address2, amount2, hashlock, timelock);
            let opened = initiate_next(records, now, sender, s, sender_balance);
            &&& initiate_error(opened, now2, sender, s2, sender_balance2)
                == Some(HtlcError::DuplicateSwap)
            &&& initiate_next(opened, now2, sender, s2, sender_balance2) == opened
            &&& opened[id_of(s2)] == s
        }),
{
}

/// Settled records are final: no operation changes a claimed or refunded
/// record, and every further claim or refund of it fails with
/// `AlreadySettled`, so value leaves escrow at most once.
pub proof fn lemma_settled_records_final(
    records: Map<Seq<u8>, SwapView>,
    k: Seq<u8>,
    now: u64,
    caller: Seq<u8>,
    s: SwapView,
    sender_balance: i128,
    id: Seq<u8>,
    digest: Seq<u8>,
)
    requires
        records.contains_key(k),
        records[k].status != SwapStatus::Pending,
    ensures
        initiate_next(records, now, caller, s, sender_balance)[k] == records[k],
        claim_next(records, now, caller, id, digest)[k] == records[k],
        refund_next(records, now, caller, id)[k] == records[k],
        claim_error(records, now, caller, k, digest) == Some(HtlcError::AlreadySettled),
        refund_error(records, now, caller, k) == Some(HtlcError::AlreadySettled),
{
}

/// The value held in custody for a record: its amount while pending, nothing
/// once settled.
pub open spec fn escrow_held(s: SwapView) -> int {
    if s.status == SwapStatus::Pending {
        s.amount as int
    } else {
        0
    }
}

/// Escrow is conserved: opening a swap puts its amount in custody, and a
/// successful claim or refund releases exactly what was held, leaving
/// nothing.
pub proof fn lemma_escrow_conserved(
    records: Map<Seq<u8>, SwapView>,
    now: u64,
    caller: Seq<u8>,
    s: SwapView,
    sender_balance: i128,
    id: Seq<u8>,
    digest: Seq<u8>,
)
    requires
        s.status == SwapStatus::Pending,
    ensures
        initiate_error(records, now, caller, s, sender_balance) is None ==> escrow_held(
            initiate_next(records, now, caller, s, sender_balance)[id_of(s)],
        ) == s.amount,
        claim_error(records, now, caller, id, digest) is None ==> {
            &&& escrow_held(records[id]) == records[id].amount
            &&& escrow_held(claim_next(records, now, caller, id, digest)[id]) == 0
        },
        refund_error(records, now, caller, id) is None ==> {
            &&& escrow_held(records[id]) == records[id].amount
            &&& escrow_held(refund_next(records, now, caller, id)[id]) == 0
        },
{
}

} // verus!
