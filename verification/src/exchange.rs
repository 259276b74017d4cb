//! Key agreement and key derivation: the arithmetic of the exchange and the
//! keyed digests that turn the shared secret into keys.

use hmac::{Hmac, Mac};
use num_bigint::BigUint;
use rand::RngCore;
use sha1::Sha1;
use vstd::arithmetic::power::pow;
use vstd::prelude::*;
use crate::wire::{append, range};

verus! {

/// Length in bytes of the group's modulus, and so the most that a public key
/// or a shared secret takes.
pub const GROUP_SIZE: usize = 96;

/// Length in bytes of a private exponent.
pub const SECRET_SIZE: usize = 95;

/// Length in bytes of a keyed digest.
pub const DIGEST_SIZE: usize = 20;

/// Length in bytes of each direction's cipher key.
pub const KEY_SIZE: usize = 32;

/// The number whose digits in base 256 are `s`, most significant first.
pub open spec fn be_nat(s: Seq<u8>) -> nat
    decreases s.len(),
{
    if s.len() == 0 {
        0
    } else {
        be_nat(s.drop_last()) * 256 + s.last() as nat
    }
}

/// The digits of `n` in base 256, most significant first, with no leading
/// zero; the single digit zero for zero.
pub open spec fn be_bytes(n: nat) -> Seq<u8>
    decreases n,
{
    if n < 256 {
        seq![n as u8]
    } else {
        be_bytes(n / 256).push((n % 256) as u8)
    }
}

/// 256 to the power `digits`.
pub open spec fn radix(digits: nat) -> nat
    decreases digits,
{
    if digits == 0 {
        1
    } else {
        256 * radix((digits - 1) as nat)
    }
}

/// `base` to the power `exponent`, reduced modulo `modulus`.
pub open spec fn power_mod(base: nat, exponent: nat, modulus: nat) -> nat {
    (pow(base as int, exponent) % (modulus as int)) as nat
}

/// A number of `s.len()` digits is below 256 to that power.
pub proof fn lemma_be_nat_bound(s: Seq<u8>)
    ensures
        be_nat(s) < radix(s.len()),
    decreases s.len(),
{
    if s.len() > 0 {
        lemma_be_nat_bound(s.drop_last());
    }
}

/// The digits of a number are at least one, and no more than its size asks for.
pub proof fn lemma_be_bytes_len(n: nat, digits: nat)
    requires
        digits >= 1,
        n < radix(digits),
    ensures
        1 <= be_bytes(n).len() <= digits,
    decreases n,
{
    if n >= 256 {
        assert(radix(1) == 256) by {
            reveal_with_fuel(radix, 2);
        }
        assert(digits >= 2);
        lemma_be_bytes_len(n / 256, (digits - 1) as nat);
    }
}

/// The digits of a number denote that number.
pub proof fn lemma_be_bytes_value(n: nat)
    ensures
        be_nat(be_bytes(n)) == n,
    decreases n,
{
    if n < 256 {
        reveal_with_fuel(be_nat, 2);
        assert(be_bytes(n).drop_last() =~= Seq::<u8>::empty());
    } else {
        lemma_be_bytes_value(n / 256);
        assert(be_bytes(n).drop_last() =~= be_bytes(n / 256));
    }
}

/// The digest that `Hmac<Sha1>` of the `hmac` and `sha1` crates computes of
/// `message` under `key`: HMAC-SHA1.
pub uninterp spec fn hmac_sha1(key: Seq<u8>, message: Seq<u8>) -> Seq<u8>;

/// Calls `Mac::new_from_slice`, `Mac::update` and `Mac::finalize` of the
/// `hmac` crate, for `Hmac<Sha1>`, and copies the digest out. The digest is
/// named, not computed here; what is claimed beyond the name is its length,
/// the twenty bytes of SHA-1. `new_from_slice` accepts a key of any length.
#[verifier::external_body]
fn keyed_digest(key: &Vec<u8>, message: &Vec<u8>) -> (digest: Vec<u8>)
    ensures
        digest@ == hmac_sha1(key@, message@),
        digest@.len() == DIGEST_SIZE,
{
    let mut mac = Hmac::<Sha1>::new_from_slice(key).expect("HMAC can take key of any size");
    mac.update(message);
    mac.finalize().into_bytes().to_vec()
}

/// Calls `BigUint::modpow` of the `num-bigint` crate on the numbers that
/// `BigUint::from_bytes_be` reads from the arguments, and hands back
/// `BigUint::to_bytes_be` of the result: the base to the power of the
/// exponent, reduced modulo the modulus, in digits without a leading zero.
/// `modpow` panics on a zero modulus.
#[verifier::external_body]
fn mod_exp(base: &Vec<u8>, exponent: &Vec<u8>, modulus: &Vec<u8>) -> (out: Vec<u8>)
    requires
        be_nat(modulus@) != 0,
    ensures
        out@ == be_bytes(power_mod(be_nat(base@), be_nat(exponent@), be_nat(modulus@))),
{
    let base = BigUint::from_bytes_be(base);
    let exponent = BigUint::from_bytes_be(exponent);
    let modulus = BigUint::from_bytes_be(modulus);
    base.modpow(&exponent, &modulus).to_bytes_be()
}

/// Calls `rand::thread_rng` and `RngCore::fill_bytes` of the `rand` crate on
/// a buffer of `count` bytes. Nothing is claimed of the bytes but their
/// number.
#[verifier::external_body]
fn random_bytes(count: usize) -> (out: Vec<u8>)
    ensures
        out@.len() == count,
{
    let mut out = vec![0u8; count];
    rand::thread_rng().fill_bytes(&mut out);
    out
}

/// The modulus of the group: the 768-bit prime of the first Oakley group.
pub open spec fn prime_bytes() -> Seq<u8> {
    seq![
        0xffu8, 0xff, 0xff, 0xff, 0xff, 0xff, 0xff, 0xff, 0xc9, 0x0f, 0xda, 0xa2,
        0x21, 0x68, 0xc2, 0x34, 0xc4, 0xc6, 0x62, 0x8b, 0x80, 0xdc, 0x1c, 0xd1,
        0x29, 0x02, 0x4e, 0x08, 0x8a, 0x67, 0xcc, 0x74, 0x02, 0x0b, 0xbe, 0xa6,
        0x3b, 0x13, 0x9b, 0x22, 0x51, 0x4a, 0x08, 0x79, 0x8e, 0x34, 0x04, 0xdd,
        0xef, 0x95, 0x19, 0xb3, 0xcd, 0x3a, 0x43, 0x1b, 0x30, 0x2b, 0x0a, 0x6d,
        0xf2, 0x5f, 0x14, 0x37, 0x4f, 0xe1, 0x35, 0x6d, 0x6d, 0x51, 0xc2, 0x45,
        0xe4, 0x85, 0xb5, 0x76, 0x62, 0x5e, 0x7e, 0xc6, 0xf4, 0x4c, 0x42, 0xe9,
        0xa6, 0x3a, 0x36, 0x20, 0xff, 0xff, 0xff, 0xff, 0xff, 0xff, 0xff, 0xff,
    ]
}

/// The modulus of the group, as a number.
pub open spec fn prime() -> nat {
    be_nat(prime_bytes())
}

/// The generator of the group.
pub open spec fn generator() -> nat {
    2
}

/// The public key that belongs to a private exponent: the generator to that
/// power, modulo the prime.
pub open spec fn public_of(secret: Seq<u8>) -> Seq<u8> {
    be_bytes(power_mod(generator(), be_nat(secret), prime()))
}

/// The secret that a private exponent and the peer's public key agree on:
/// the peer's key to that power, modulo the prime.
pub open spec fn agreed(secret: Seq<u8>, remote: Seq<u8>) -> Seq<u8> {
    be_bytes(power_mod(be_nat(remote), be_nat(secret), prime()))
}

/// The prime is not zero, and what is reduced by it fits the group's size.
pub proof fn lemma_prime()
    ensures
        prime() != 0,
        prime() < radix(GROUP_SIZE as nat),
{
    lemma_be_nat_bound(prime_bytes());
    assert(prime_bytes().len() == GROUP_SIZE);
    assert(prime_bytes().last() == 0xffu8);
}

/// A power reduced by the prime takes between one byte and the group's size.
pub proof fn lemma_reduced_len(base: nat, exponent: nat)
    ensures
        1 <= be_bytes(power_mod(base, exponent, prime())).len() <= GROUP_SIZE,
        be_nat(be_bytes(power_mod(base, exponent, prime()))) == power_mod(
            base,
            exponent,
            prime(),
        ),
{
    lemma_prime();
    let reduced = power_mod(base, exponent, prime());
    assert(0 <= pow(base as int, exponent) % (prime() as int) < prime()) by {
        vstd::arithmetic::div_mod::lemma_mod_bound(pow(base as int, exponent), prime() as int);
    }
    lemma_be_bytes_len(reduced, GROUP_SIZE as nat);
    lemma_be_bytes_value(reduced);
}

/// A power of a public key is the generator to the product of the two
/// exponents, modulo the prime.
proof fn lemma_agreed_value(secret: Seq<u8>, other: Seq<u8>)
    ensures
        power_mod(be_nat(public_of(other)), be_nat(secret), prime()) == (pow(
            generator() as int,
            be_nat(other) * be_nat(secret),
        ) % (prime() as int)) as nat,
{
    lemma_prime();
    lemma_reduced_len(generator(), be_nat(other));
    let p = prime() as int;
    let g = generator() as int;
    assert(be_nat(public_of(other)) as int == pow(g, be_nat(other)) % p);
    vstd::arithmetic::power::lemma_pow_mod_noop(pow(g, be_nat(other)), be_nat(secret), p);
    vstd::arithmetic::power::lemma_pow_multiplies(g, be_nat(other), be_nat(secret));
}

/// Both sides of an exchange agree: what one side makes of its private
/// exponent and the other's public key is what the other side makes of its
/// own private exponent and the first side's public key.
pub proof fn lemma_agreement(near: Seq<u8>, far: Seq<u8>)
    ensures
        agreed(near, public_of(far)) == agreed(far, public_of(near)),
{
    lemma_agreed_value(near, far);
    lemma_agreed_value(far, near);
    assert(be_nat(far) * be_nat(near) == be_nat(near) * be_nat(far)) by (nonlinear_arith);
}

fn group_prime() -> (modulus: Vec<u8>)
    ensures
        modulus@ == prime_bytes(),
{
    let modulus: Vec<u8> = vec![
        0xffu8, 0xff, 0xff, 0xff, 0xff, 0xff, 0xff, 0xff, 0xc9, 0x0f, 0xda, 0xa2,
        0x21, 0x68, 0xc2, 0x34, 0xc4, 0xc6, 0x62, 0x8b, 0x80, 0xdc, 0x1c, 0xd1,
        0x29, 0x02, 0x4e, 0x08, 0x8a, 0x67, 0xcc, 0x74, 0x02, 0x0b, 0xbe, 0xa6,
        0x3b, 0x13, 0x9b, 0x22, 0x51, 0x4a, 0x08, 0x79, 0x8e, 0x34, 0x04, 0xdd,
        0xef, 0x95, 0x19, 0xb3, 0xcd, 0x3a, 0x43, 0x1b, 0x30, 0x2b, 0x0a, 0x6d,
        0xf2, 0x5f, 0x14, 0x37, 0x4f, 0xe1, 0x35, 0x6d, 0x6d, 0x51, 0xc2, 0x45,
        0xe4, 0x85, 0xb5, 0x76, 0x62, 0x5e, 0x7e, 0xc6, 0xf4, 0x4c, 0x42, 0xe9,
        0xa6, 0x3a, 0x36, 0x20, 0xff, 0xff, 0xff, 0xff, 0xff, 0xff, 0xff, 0xff,
    ];
    assert(modulus@ =~= prime_bytes());
    modulus
}

/// A fresh private exponent, drawn from the thread's random number generator.
pub fn fresh_secret() -> (secret: Vec<u8>)
    ensures
        secret@.len() == SECRET_SIZE,
{
    random_bytes(SECRET_SIZE)
}

/// The public key that belongs to the private exponent `secret`.
pub fn public_key(secret: &Vec<u8>) -> (key: Vec<u8>)
    ensures
        key@ == public_of(secret@),
        be_nat(key@) == power_mod(generator(), be_nat(secret@), prime()),
        1 <= key@.len() <= GROUP_SIZE,
{
    let mut base: Vec<u8> = Vec::new();
    base.push(2u8);
    let modulus = group_prime();
    proof {
        reveal_with_fuel(be_nat, 2);
        assert(base@.drop_last() =~= Seq::<u8>::empty());
        assert(be_nat(base@) == 2);
        lemma_reduced_len(generator(), be_nat(secret@));
    }
    mod_exp(&base, secret, &modulus)
}

/// The secret that `secret` and the peer's public key `remote` agree on.
pub fn shared_secret(secret: &Vec<u8>, remote: &Vec<u8>) -> (shared: Vec<u8>)
    ensures
        shared@ == agreed(secret@, remote@),
        be_nat(shared@) == power_mod(be_nat(remote@), be_nat(secret@), prime()),
        1 <= shared@.len() <= GROUP_SIZE,
{
    let modulus = group_prime();
    proof {
        lemma_reduced_len(be_nat(remote@), be_nat(secret@));
    }
    mod_exp(remote, secret, &modulus)
}

/// What the handshake derives from the shared secret.
pub struct Keys {
    /// The proof, sent to the peer, that this side holds the shared secret.
    pub challenge: Vec<u8>,
    /// The key of the cipher that seals what this side sends.
    pub send_key: Vec<u8>,
    /// The key of the cipher that opens what this side receives.
    pub recv_key: Vec<u8>,
    /// The tag that the peer has to present to prove that it holds the shared
    /// secret too.
    pub server_tag: Vec<u8>,
}

/// Derived keys as contracts see them.
pub ghost struct KeysView {
    /// The challenge sent to the peer.
    pub challenge: Seq<u8>,
    /// The sending cipher's key.
    pub send_key: Seq<u8>,
    /// The receiving cipher's key.
    pub recv_key: Seq<u8>,
    /// The tag expected of the peer.
    pub server_tag: Seq<u8>,
}

impl View for Keys {
    type V = KeysView;

    open spec fn view(&self) -> KeysView {
        KeysView {
            challenge: self.challenge@,
            send_key: self.send_key@,
            recv_key: self.recv_key@,
            server_tag: self.server_tag@,
        }
    }
}

/// Block `index` of the key material: the digest, under the shared secret,
/// of the transcript followed by the block's index.
pub open spec fn material_block(secret: Seq<u8>, transcript: Seq<u8>, index: u8) -> Seq<u8> {
    hmac_sha1(secret, transcript.push(index))
}

/// The first `blocks` blocks of the key material, blocks numbered from one.
pub open spec fn material(secret: Seq<u8>, transcript: Seq<u8>, blocks: nat) -> Seq<u8>
    decreases blocks,
{
    if blocks == 0 {
        Seq::empty()
    } else {
        material(secret, transcript, (blocks - 1) as nat) + material_block(
            secret,
            transcript,
            blocks as u8,
        )
    }
}

/// What is derived from a shared secret and the transcript of the two hello
/// messages. Five blocks make a hundred bytes of key material. The first
/// twenty key the challenge, a digest of the transcript; the next two runs of
/// thirty-two are the sending and the receiving key; the last sixteen key the
/// tag expected of the peer, again a digest of the transcript.
pub open spec fn derived(secret: Seq<u8>, transcript: Seq<u8>) -> KeysView {
    let bytes = material(secret, transcript, 5);
    KeysView {
        challenge: hmac_sha1(bytes.subrange(0, 20), transcript),
        send_key: bytes.subrange(20, 52),
        recv_key: bytes.subrange(52, 84),
        server_tag: hmac_sha1(bytes.subrange(84, 100), transcript),
    }
}

/// Derives the challenge, the two cipher keys and the tag expected of the
/// peer from the shared secret and the transcript.
pub fn derive_keys(secret: &Vec<u8>, transcript: &Vec<u8>) -> (keys: Keys)
    ensures
        keys@ == derived(secret@, transcript@),
        keys@.challenge.len() == DIGEST_SIZE,
        keys@.send_key.len() == KEY_SIZE,
        keys@.recv_key.len() == KEY_SIZE,
        keys@.server_tag.len() == DIGEST_SIZE,
{
    let mut bytes: Vec<u8> = Vec::new();
    let mut index: u8 = 1;
    while index <= 5
        invariant
            1 <= index <= 6,
            bytes@ == material(secret@, transcript@, (index - 1) as nat),
            bytes@.len() == (index - 1) * DIGEST_SIZE,
        decreases 6 - index,
    {
        let mut message: Vec<u8> = Vec::new();
        append(&mut message, transcript);
        message.push(index);
        assert(message@ =~= transcript@.push(index));
        let block = keyed_digest(secret, &message);
        append(&mut bytes, &block);
        index = index + 1;
    }
    let challenge_key = range(&bytes, 0, 20);
    let send_key = range(&bytes, 20, 52);
    let recv_key = range(&bytes, 52, 84);
    let tag_key = range(&bytes, 84, 100);
    let challenge = keyed_digest(&challenge_key, transcript);
    let server_tag = keyed_digest(&tag_key, transcript);
    Keys { challenge, send_key, recv_key, server_tag }
}

} // verus!
