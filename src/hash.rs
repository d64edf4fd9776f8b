use vstd::prelude::*;

verus! {

/// The largest input, in bytes, that is hashed through the host: the host
/// meters each hash against a fixed instruction budget.
pub const MAX_HASH_INPUT: usize = 65536;

/// The SHA-256 digest of a byte string.
pub uninterp spec fn sha256_of(data: Seq<u8>) -> Seq<u8>;

/// Relies on soroban_sdk's `Crypto::sha256`, which returns the SHA-256 digest
/// of the bytes as 32 bytes; a fresh host environment serves the call.
#[verifier::external_body]
pub(crate) fn sha256(data: &Vec<u8>) -> (r: [u8; 32])
    requires
        data@.len() <= MAX_HASH_INPUT,
    ensures
        r@ == sha256_of(data@),
{
    let config = soroban_sdk::testutils::EnvTestConfig { capture_snapshot_at_drop: false };
    let env = soroban_sdk::Env::new_with_config(config);
    let bytes = soroban_sdk::Bytes::from_slice(&env, data.as_slice());
    env.crypto().sha256(&bytes).to_array()
}

/// The hash commitment of a secret: what a sender puts as the hashlock of a
/// swap, and what `claim` checks a revealed preimage against.
pub fn hash_preimage(preimage: &Vec<u8>) -> (r: [u8; 32])
    requires
        preimage@.len() <= MAX_HASH_INPUT,
    ensures
        r@ == sha256_of(preimage@),
{
    sha256(preimage)
}

} // verus!
