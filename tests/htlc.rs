use htlc::{
    derive_swap_id, encode_swap_id_input, hash_preimage, Address, AddressKind, DataKey, HTLCContract,
    HtlcError, SwapStatus,
};

const SENDER: [u8; 32] = [1u8; 32];
const RECEIVER: [u8; 32] = [2u8; 32];
const TOKEN: [u8; 32] = [3u8; 32];
const CUSTODY: [u8; 32] = [9u8; 32];

fn addr(key: [u8; 32]) -> Address {
    Address::account(key)
}

fn contract_addr(key: [u8; 32]) -> Address {
    Address::contract(key)
}

fn hash_of(s: &[u8]) -> [u8; 32] {
    hash_preimage(&s.to_vec())
}

fn status_of(c: &HTLCContract, id: [u8; 32]) -> SwapStatus {
    c.get_swap(&DataKey::Swap(id)).expect("swap stored").status
}

fn open_swap(c: &mut HTLCContract, amount: i128, secret: &[u8], timelock: u64) -> [u8; 32] {
    c.initiate(
        1000,
        &addr(SENDER),
        addr(SENDER),
        addr(RECEIVER),
        contract_addr(TOKEN),
        amount,
        hash_of(secret),
        timelock,
        1_000_000,
    )
    .expect("initiate succeeds")
}

fn hex(bytes: &[u8]) -> String {
    bytes.iter().map(|b| format!("{:02x}", b)).collect()
}

#[test]
fn sha256_known_digest() {
    assert_eq!(
        hex(&hash_of(b"abc")),
        "ba7816bf8f01cfea414140de5dae2223b00361a396177a9cb410ff61f20015ad"
    );
    assert_eq!(
        hex(&hash_of(b"")),
        "e3b0c44298fc1c149afbf4c8996fb92427ae41e4649b934ca495991b7852b855"
    );
}

#[test]
fn swap_id_input_layout() {
    let input =
        encode_swap_id_input(&addr(SENDER), &contract_addr(RECEIVER), &[7u8; 32], 0x0102030405060708);
    assert_eq!(input.len(), 106);
    assert_eq!(input[0], 0);
    assert_eq!(&input[1..33], &SENDER[..]);
    assert_eq!(input[33], 1);
    assert_eq!(&input[34..66], &RECEIVER[..]);
    assert_eq!(&input[66..98], &[7u8; 32][..]);
    assert_eq!(&input[98..106], &[1u8, 2, 3, 4, 5, 6, 7, 8][..]);
}

#[test]
fn swap_id_is_hash_of_input() {
    let input = encode_swap_id_input(&addr(SENDER), &addr(RECEIVER), &[7u8; 32], 55);
    let id = derive_swap_id(&addr(SENDER), &addr(RECEIVER), &[7u8; 32], 55);
    assert_eq!(id, hash_preimage(&input));
    assert_ne!(id[..], input[0..32]);
}

#[test]
fn swap_id_deterministic_and_distinct() {
    let a = derive_swap_id(&addr(SENDER), &addr(RECEIVER), &[7u8; 32], 55);
    let b = derive_swap_id(&addr(SENDER), &addr(RECEIVER), &[7u8; 32], 55);
    let c = derive_swap_id(&addr(SENDER), &addr(RECEIVER), &[7u8; 32], 56);
    let d = derive_swap_id(&addr(RECEIVER), &addr(SENDER), &[7u8; 32], 55);
    assert_eq!(a, b);
    assert_ne!(a, c);
    assert_ne!(a, d);
    let e = derive_swap_id(&contract_addr(SENDER), &addr(RECEIVER), &[7u8; 32], 55);
    assert_ne!(a, e);
}

#[test]
fn address_identity_includes_kind() {
    assert!(addr(SENDER).same_as(&addr(SENDER)));
    assert!(!addr(SENDER).same_as(&contract_addr(SENDER)));
    assert!(!addr(SENDER).same_as(&addr(RECEIVER)));
    assert_eq!(addr(SENDER).tag(), 0);
    assert_eq!(contract_addr(SENDER).tag(), 1);
}

#[test]
fn initiate_returns_derived_id_and_stores_pending() {
    let mut c = HTLCContract::new(contract_addr(CUSTODY));
    let id = open_swap(&mut c, 100, b"secret", 2000);
    assert_eq!(id, derive_swap_id(&addr(SENDER), &addr(RECEIVER), &hash_of(b"secret"), 2000));
    let swap = c.get_swap(&DataKey::Swap(id)).expect("swap stored");
    assert_eq!(swap.status, SwapStatus::Pending);
    assert!(!swap.claimed());
    assert_eq!(swap.amount, 100);
    assert_eq!(swap.timelock, 2000);
    assert_eq!(swap.hashlock, hash_of(b"secret"));
    assert_eq!(swap.sender.key, SENDER);
    assert_eq!(swap.receiver.key, RECEIVER);
    assert_eq!(swap.token_address.key, TOKEN);
    assert_eq!(swap.token_address.kind, AddressKind::Contract);
    assert_eq!(c.custody().key, CUSTODY);
}

#[test]
fn claim_then_settled_once() {
    let mut c = HTLCContract::new(contract_addr(CUSTODY));
    let id = open_swap(&mut c, 100, b"secret", 2000);
    let t = c.claim(1500, &addr(RECEIVER), &id, &b"secret".to_vec()).expect("claim succeeds");
    assert_eq!(t.to.key, RECEIVER);
    assert_eq!(status_of(&c, id), SwapStatus::Claimed);
    assert_eq!(
        c.claim(1500, &addr(RECEIVER), &id, &b"secret".to_vec()).unwrap_err(),
        HtlcError::AlreadySettled
    );
    assert_eq!(c.refund(2500, &addr(SENDER), &id).unwrap_err(), HtlcError::AlreadySettled);
    assert_eq!(status_of(&c, id), SwapStatus::Claimed);
}

#[test]
fn refund_before_timelock_not_yet_expired() {
    let mut c = HTLCContract::new(contract_addr(CUSTODY));
    let id = open_swap(&mut c, 100, b"secret", 2000);
    assert_eq!(c.refund(1999, &addr(SENDER), &id).unwrap_err(), HtlcError::NotYetExpired);
    assert_eq!(status_of(&c, id), SwapStatus::Pending);
    let t = c.refund(2000, &addr(SENDER), &id).expect("refund at the timelock succeeds");
    assert_eq!(t.to.key, SENDER);
    assert_eq!(t.from.key, CUSTODY);
    assert_eq!(t.amount, 100);
    assert_eq!(status_of(&c, id), SwapStatus::Refunded);
    assert!(c.get_swap(&DataKey::Swap(id)).unwrap().claimed());
}

#[test]
fn claim_wrong_preimage_keeps_pending() {
    let mut c = HTLCContract::new(contract_addr(CUSTODY));
    let id = open_swap(&mut c, 100, b"secret", 2000);
    assert_eq!(
        c.claim(1500, &addr(RECEIVER), &id, &b"wrong".to_vec()).unwrap_err(),
        HtlcError::InvalidPreimage
    );
    assert_eq!(status_of(&c, id), SwapStatus::Pending);
}

#[test]
fn claim_at_or_after_timelock_expired() {
    let mut c = HTLCContract::new(contract_addr(CUSTODY));
    let id = open_swap(&mut c, 100, b"secret", 2000);
    assert_eq!(
        c.claim(2000, &addr(RECEIVER), &id, &b"secret".to_vec()).unwrap_err(),
        HtlcError::Expired
    );
    assert_eq!(
        c.claim(3000, &addr(RECEIVER), &id, &b"wrong".to_vec()).unwrap_err(),
        HtlcError::Expired
    );
    assert_eq!(status_of(&c, id), SwapStatus::Pending);
}

#[test]
fn initiate_nonpositive_amount_invalid() {
    let mut c = HTLCContract::new(contract_addr(CUSTODY));
    for amount in [0i128, -1, i128::MIN] {
        let r = c.initiate(
            1000,
            &addr(SENDER),
            addr(SENDER),
            addr(RECEIVER),
            contract_addr(TOKEN),
            amount,
            hash_of(b"secret"),
            2000,
            1_000_000,
        );
        assert_eq!(r.unwrap_err(), HtlcError::InvalidAmount);
    }
    let id = derive_swap_id(&addr(SENDER), &addr(RECEIVER), &hash_of(b"secret"), 2000);
    assert!(c.get_swap(&DataKey::Swap(id)).is_none());
}

#[test]
fn initiate_duplicate_swap() {
    let mut c = HTLCContract::new(contract_addr(CUSTODY));
    let id = open_swap(&mut c, 100, b"secret", 2000);
    let r = c.initiate(
        1100,
        &addr(SENDER),
        addr(SENDER),
        addr(RECEIVER),
        contract_addr([4u8; 32]),
        7,
        hash_of(b"secret"),
        2000,
        1_000_000,
    );
    assert_eq!(r.unwrap_err(), HtlcError::DuplicateSwap);
    let swap = c.get_swap(&DataKey::Swap(id)).unwrap();
    assert_eq!(swap.amount, 100);
    assert_eq!(swap.token_address.key, TOKEN);
}

#[test]
fn initiate_timelock_not_in_future() {
    let mut c = HTLCContract::new(contract_addr(CUSTODY));
    let r = c.initiate(
        2000,
        &addr(SENDER),
        addr(SENDER),
        addr(RECEIVER),
        contract_addr(TOKEN),
        100,
        hash_of(b"secret"),
        2000,
        1_000_000,
    );
    assert_eq!(r.unwrap_err(), HtlcError::InvalidTimelock);
}

#[test]
fn initiate_escrow_failed_on_short_balance() {
    let mut c = HTLCContract::new(contract_addr(CUSTODY));
    let r = c.initiate(
        1000,
        &addr(SENDER),
        addr(SENDER),
        addr(RECEIVER),
        contract_addr(TOKEN),
        100,
        hash_of(b"secret"),
        2000,
        99,
    );
    assert_eq!(r.unwrap_err(), HtlcError::EscrowFailed);
    let id = derive_swap_id(&addr(SENDER), &addr(RECEIVER), &hash_of(b"secret"), 2000);
    assert!(c.get_swap(&DataKey::Swap(id)).is_none());
}

#[test]
fn initiate_by_other_caller_unauthorized() {
    let mut c = HTLCContract::new(contract_addr(CUSTODY));
    let r = c.initiate(
        1000,
        &addr(RECEIVER),
        addr(SENDER),
        addr(RECEIVER),
        contract_addr(TOKEN),
        100,
        hash_of(b"secret"),
        2000,
        1_000_000,
    );
    assert_eq!(r.unwrap_err(), HtlcError::Unauthorized);
}

#[test]
fn claim_and_refund_unknown_swap_not_found() {
    let mut c = HTLCContract::new(contract_addr(CUSTODY));
    let id = [5u8; 32];
    assert_eq!(
        c.claim(1000, &addr(RECEIVER), &id, &b"secret".to_vec()).unwrap_err(),
        HtlcError::SwapNotFound
    );
    assert_eq!(c.refund(1000, &addr(SENDER), &id).unwrap_err(), HtlcError::SwapNotFound);
}

#[test]
fn claim_and_refund_by_wrong_party_unauthorized() {
    let mut c = HTLCContract::new(contract_addr(CUSTODY));
    let id = open_swap(&mut c, 100, b"secret", 2000);
    assert_eq!(
        c.claim(1500, &addr(SENDER), &id, &b"secret".to_vec()).unwrap_err(),
        HtlcError::Unauthorized
    );
    assert_eq!(c.refund(2000, &addr(RECEIVER), &id).unwrap_err(), HtlcError::Unauthorized);
    assert_eq!(status_of(&c, id), SwapStatus::Pending);
}

#[test]
fn claim_with_digest_checks_digest() {
    let mut c = HTLCContract::new(contract_addr(CUSTODY));
    let id = open_swap(&mut c, 100, b"secret", 2000);
    assert_eq!(
        c.claim_with_digest(1500, &addr(RECEIVER), &id, &[0u8; 32]).unwrap_err(),
        HtlcError::InvalidPreimage
    );
    let t = c.claim_with_digest(1500, &addr(RECEIVER), &id, &hash_of(b"secret")).unwrap();
    assert_eq!(t.amount, 100);
    assert_eq!(status_of(&c, id), SwapStatus::Claimed);
}

#[test]
fn scenario_claim_and_refund() {
    let timelock: u64 = 5000;
    let mut c = HTLCContract::new(contract_addr(CUSTODY));
    let id = open_swap(&mut c, 100, b"secret", timelock);
    let t = c.claim(timelock - 1, &addr(RECEIVER), &id, &b"secret".to_vec()).unwrap();
    assert_eq!(t.token_address.key, TOKEN);
    assert_eq!(t.from.key, CUSTODY);
    assert_eq!(t.to.key, RECEIVER);
    assert_eq!(t.amount, 100);
    assert_eq!(status_of(&c, id), SwapStatus::Claimed);

    let mut c = HTLCContract::new(contract_addr(CUSTODY));
    let id = open_swap(&mut c, 100, b"secret", timelock);
    assert_eq!(
        c.claim(timelock - 1, &addr(RECEIVER), &id, &b"wrong".to_vec()).unwrap_err(),
        HtlcError::InvalidPreimage
    );
    assert_eq!(status_of(&c, id), SwapStatus::Pending);
    let t = c.refund(timelock, &addr(SENDER), &id).unwrap();
    assert_eq!(t.token_address.key, TOKEN);
    assert_eq!(t.from.key, CUSTODY);
    assert_eq!(t.to.key, SENDER);
    assert_eq!(t.amount, 100);
    assert_eq!(status_of(&c, id), SwapStatus::Refunded);
}

#[test]
fn restore_loads_record_and_refuses_bad_ones() {
    let mut c = HTLCContract::new(contract_addr(CUSTODY));
    let id = open_swap(&mut c, 100, b"secret", 2000);
    let stored = c.get_swap(&DataKey::Swap(id)).unwrap();

    let mut fresh = HTLCContract::new(contract_addr(CUSTODY));
    assert!(fresh.restore(stored).is_ok());
    assert_eq!(fresh.restore(stored).unwrap_err(), HtlcError::DuplicateSwap);
    let mut bad = stored;
    bad.id = [6u8; 32];
    bad.amount = 0;
    assert_eq!(fresh.restore(bad).unwrap_err(), HtlcError::InvalidAmount);
    assert!(fresh.get_swap(&DataKey::Swap([6u8; 32])).is_none());

    let t = fresh.claim(1500, &addr(RECEIVER), &id, &b"secret".to_vec()).unwrap();
    assert_eq!(t.amount, 100);
    assert_eq!(status_of(&fresh, id), SwapStatus::Claimed);
}

#[test]
fn claim_by_contract_with_receiver_key_unauthorized() {
    let mut c = HTLCContract::new(contract_addr(CUSTODY));
    let id = open_swap(&mut c, 100, b"secret", 2000);
    assert_eq!(
        c.claim(1500, &contract_addr(RECEIVER), &id, &b"secret".to_vec()).unwrap_err(),
        HtlcError::Unauthorized
    );
}
