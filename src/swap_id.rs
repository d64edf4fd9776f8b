use vstd::prelude::*;
use crate::hash::{sha256_of, sha256};
use crate::types::Address;

verus! {

/// The eight bytes of `t`, most significant first.
pub open spec fn be_bytes(t: u64) -> Seq<u8> {
    seq![
        (t >> 56u64) as u8,
        (t >> 48u64) as u8,
        (t >> 40u64) as u8,
        (t >> 32u64) as u8,
        (t >> 24u64) as u8,
        (t >> 16u64) as u8,
        (t >> 8u64) as u8,
        t as u8,
    ]
}

/// The bytes hashed into a swap identifier: sender and receiver (each a kind
/// tag and a 32-byte key), the hashlock, then the timelock as eight
/// big-endian bytes.
pub open spec fn swap_id_input(sender: Seq<u8>, receiver: Seq<u8>, hashlock: Seq<u8>, timelock: u64) -> Seq<u8> {
    sender + receiver + hashlock + be_bytes(timelock)
}

/// The identifier of the swap with these parameters.
pub open spec fn swap_id_of(sender: Seq<u8>, receiver: Seq<u8>, hashlock: Seq<u8>, timelock: u64) -> Seq<u8> {
    sha256_of(swap_id_input(sender, receiver, hashlock, timelock))
}

fn push_all(out: &mut Vec<u8>, b: &[u8; 32])
    ensures
        final(out)@ == old(out)@ + b@,
{
    let mut i: usize = 0;
    while i < 32
        invariant
            0 <= i <= 32,
            b@.len() == 32,
            out@ == old(out)@ + b@.subrange(0, i as int),
        decreases 32 - i,
    {
        out.push(b[i]);
        i = i + 1;
        assert(out@ =~= old(out)@ + b@.subrange(0, i as int));
    }
    assert(b@.subrange(0, 32) =~= b@);
}

fn push_address(out: &mut Vec<u8>, a: &Address)
    ensures
        final(out)@ == old(out)@ + a@,
{
    out.push(a.tag());
    push_all(out, &a.key);
    assert(final(out)@ =~= old(out)@ + a@);
}

/// Writes the derivation input of a swap identifier; every field has a fixed
/// width, so distinct parameters never give the same bytes.
pub fn encode_swap_id_input(sender: &Address, receiver: &Address, hashlock: &[u8; 32], timelock: u64) -> (r: Vec<u8>)
    ensures
        r@ == swap_id_input(sender@, receiver@, hashlock@, timelock),
        r@.len() == 106,
{
    let mut out: Vec<u8> = Vec::new();
    push_address(&mut out, sender);
    push_address(&mut out, receiver);
    push_all(&mut out, hashlock);
    out.push((timelock >> 56u64) as u8);
    out.push((timelock >> 48u64) as u8);
    out.push((timelock >> 40u64) as u8);
    out.push((timelock >> 32u64) as u8);
    out.push((timelock >> 24u64) as u8);
    out.push((timelock >> 16u64) as u8);
    out.push((timelock >> 8u64) as u8);
    out.push(timelock as u8);
    assert(out@ =~= swap_id_input(sender@, receiver@, hashlock@, timelock));
    out
}

/// Derives the identifier of a swap from its sender, receiver, hashlock and
/// timelock. The amount and the token take no part in it.
pub fn derive_swap_id(sender: &Address, receiver: &Address, hashlock: &[u8; 32], timelock: u64) -> (r: [u8; 32])
    ensures
        r@ == swap_id_of(sender@, receiver@, hashlock@, timelock),
{
    let input = encode_swap_id_input(sender, receiver, hashlock, timelock);
    sha256(&input)
}

/// The big-endian encoding of a timelock determines the timelock.
pub proof fn lemma_be_bytes_injective(a: u64, b: u64)
    requires
        be_bytes(a) == be_bytes(b),
    ensures
        a == b,
{
    assert(be_bytes(a)[0] == be_bytes(b)[0]);
    assert(be_bytes(a)[1] == be_bytes(b)[1]);
    assert(be_bytes(a)[2] == be_bytes(b)[2]);
    assert(be_bytes(a)[3] == be_bytes(b)[3]);
    assert(be_bytes(a)[4] == be_bytes(b)[4]);
    assert(be_bytes(a)[5] == be_bytes(b)[5]);
    assert(be_bytes(a)[6] == be_bytes(b)[6]);
    assert(be_bytes(a)[7] == be_bytes(b)[7]);
    assert(a == b) by (bit_vector)
        requires
            (a >> 56u64) as u8 == (b >> 56u64) as u8,
            (a >> 48u64) as u8 == (b >> 48u64) as u8,
            (a >> 40u64) as u8 == (b >> 40u64) as u8,
            (a >> 32u64) as u8 == (b >> 32u64) as u8,
            (a >> 24u64) as u8 == (b >> 24u64) as u8,
            (a >> 16u64) as u8 == (b >> 16u64) as u8,
            (a >> 8u64) as u8 == (b >> 8u64) as u8,
            a as u8 == b as u8,
    ;
}

/// The derivation input is unambiguous: for parties of 33 bytes (the
/// encoding of every address) and 32-byte hashlocks, equal inputs come only
/// from equal parameters.
pub proof fn lemma_swap_id_input_injective(
    s1: Seq<u8>, r1: Seq<u8>, h1: Seq<u8>, t1: u64,
    s2: Seq<u8>, r2: Seq<u8>, h2: Seq<u8>, t2: u64,
)
    requires
        s1.len() == 33, r1.len() == 33, h1.len() == 32,
        s2.len() == 33, r2.len() == 33, h2.len() == 32,
        swap_id_input(s1, r1, h1, t1) == swap_id_input(s2, r2, h2, t2),
    ensures
        s1 == s2,
        r1 == r2,
        h1 == h2,
        t1 == t2,
{
    let x = swap_id_input(s1, r1, h1, t1);
    let y = swap_id_input(s2, r2, h2, t2);
    assert(s1 =~= x.subrange(0, 33));
    assert(s2 =~= y.subrange(0, 33));
    assert(r1 =~= x.subrange(33, 66));
    assert(r2 =~= y.subrange(33, 66));
    assert(h1 =~= x.subrange(66, 98));
    assert(h2 =~= y.subrange(66, 98));
    assert(be_bytes(t1) =~= x.subrange(98, 106));
    assert(be_bytes(t2) =~= y.subrange(98, 106));
    lemma_be_bytes_injective(t1, t2);
}

} // verus!
