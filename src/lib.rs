//! A hash time-locked contract: value escrowed by a sender is released either
//! to a receiver who reveals the secret behind a hash commitment before a
//! deadline, or back to the sender once that deadline has passed.
//!
//! The swap lifecycle is a verified state machine. The ledger clock, caller
//! authentication and the token transfers are supplied by the host around it:
//! each operation takes their outcome as plain values and reports the
//! transfer that the host must carry out.

mod types;
mod hash;
mod swap_id;
mod engine;
mod laws;

pub use types::{
    bytes32_eq, kind_tag, Address, AddressKind, DataKey, HtlcError, Swap, SwapStatus, SwapView,
    Transfer,
};
pub use hash::{hash_preimage, sha256_of, MAX_HASH_INPUT};
pub use swap_id::{
    be_bytes, derive_swap_id, encode_swap_id_input, lemma_be_bytes_injective,
    lemma_swap_id_input_injective, swap_id_input, swap_id_of,
};
pub use engine::{
    amounts_positive, claim_error, claim_next, id_of, initiate_error, initiate_next, is_release,
    new_swap, refund_error, refund_next, with_status, HTLCContract,
};
pub use laws::{
    escrow_held, lemma_claim_after_timelock_expired, lemma_claim_settles_once,
    lemma_duplicate_rejected, lemma_escrow_conserved, lemma_nonpositive_amount_rejected,
    lemma_refund_after_timelock, lemma_settled_records_final, lemma_wrong_preimage_rejected,
};
