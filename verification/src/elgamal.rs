//! Confidential ballots: ElGamal encryption of a yes/no vote over the
//! Ristretto group. "No" is sent as the neutral element and "yes" as the
//! generator, each blinded by a multiple of the election's public key.
use vstd::prelude::*;
use vstd::arithmetic::div_mod::{
    lemma_add_mod_noop, lemma_small_mod, lemma_sub_mod_noop, lemma_sub_mod_noop_right,
};
use crate::encoding::{le_bytes, push_32, push_u64_le, take_32};
use crate::errors::CustomError;
use crate::identity::Pubkey;
use crate::group::{encodes, is_element, ristretto_index, GroupElement};
use crate::scalar::{group_order, Scalar};

verus! {

/// An election's public key: the encoding of `x * B` for the private
/// scalar `x`.
#[derive(Clone, Copy, Debug)]
pub struct ElGamalPubkey {
    pub point: [u8; 32],
}

/// An encrypted ballot: the encodings of two group elements.
#[derive(Clone, Copy, Debug)]
pub struct ElGamalCiphertext {
    pub c1: [u8; 32],
    pub c2: [u8; 32],
}

impl ElGamalCiphertext {
    /// The wire form: `c1`, then `c2`, 64 bytes in all.
    pub open spec fn wire(self) -> Seq<u8> {
        self.c1@ + self.c2@
    }

    /// The wire form of the ciphertext.
    pub fn to_bytes(&self) -> (r: Vec<u8>)
        ensures
            r@ == self.wire(),
    {
        let mut out: Vec<u8> = Vec::new();
        push_32(&mut out, &self.c1);
        push_32(&mut out, &self.c2);
        out
    }

    /// Reads the wire form: exactly 64 bytes, or a `DecodeError`. The
    /// components are not decoded yet.
    pub fn from_bytes(bytes: &[u8]) -> (r: Result<ElGamalCiphertext, CustomError>)
        ensures
            r.is_ok() <==> bytes@.len() == 64,
            r.is_ok() ==> r.unwrap().wire() == bytes@,
            r.is_err() ==> r.unwrap_err() == CustomError::DecodeError,
    {
        if bytes.len() != 64 {
            return Err(CustomError::DecodeError);
        }
        let ct = ElGamalCiphertext { c1: take_32(bytes, 0), c2: take_32(bytes, 32) };
        proof {
            assert(ct.wire() =~= bytes@);
        }
        Ok(ct)
    }
}

/// Two ciphertexts with the same wire form are the same ciphertext.
pub proof fn lemma_ciphertext_wire_injective(a: ElGamalCiphertext, b: ElGamalCiphertext)
    requires
        a.wire() == b.wire(),
    ensures
        a == b,
{
    assert(a.c1@ =~= a.wire().subrange(0, 32));
    assert(b.c1@ =~= b.wire().subrange(0, 32));
    assert(a.c2@ =~= a.wire().subrange(32, 64));
    assert(b.c2@ =~= b.wire().subrange(32, 64));
    assert(a.c1 =~= b.c1);
    assert(a.c2 =~= b.c2);
}

/// The number that a vote is encrypted as.
pub open spec fn vote_bit(vote: bool) -> nat {
    if vote {
        1
    } else {
        0
    }
}

/// `pk` is the public key that belongs to the private scalar `x`.
pub open spec fn is_public_key_of(pk: ElGamalPubkey, x: nat) -> bool {
    encodes(pk.point@, x)
}

/// `ct` is the encryption of `vote` under `pk` with randomness `r`:
/// `c1 = r * B` and `c2 = r * Y + vote * B`.
pub open spec fn is_encryption(ct: ElGamalCiphertext, vote: bool, pk: ElGamalPubkey, r: nat) -> bool {
    &&& is_element(pk.point@)
    &&& r < group_order()
    &&& encodes(ct.c1@, r)
    &&& encodes(
        ct.c2@,
        (ristretto_index(pk.point@).unwrap() * r + vote_bit(vote)) % group_order(),
    )
}

/// The index of `c2 - x * c1`, the element that a ciphertext hides from the
/// holder of `x`.
pub open spec fn hidden_index(ct: ElGamalCiphertext, x: nat) -> int {
    (ristretto_index(ct.c2@).unwrap() - ristretto_index(ct.c1@).unwrap() * x) % (
    group_order() as int)
}

/// What decrypting `ct` with the private scalar `x` gives.
pub open spec fn decryption(ct: ElGamalCiphertext, x: nat) -> Result<bool, CustomError> {
    if ristretto_index(ct.c1@) is None || ristretto_index(ct.c2@) is None {
        Err(CustomError::DecodeError)
    } else if hidden_index(ct, x) == 0 {
        Ok(false)
    } else if hidden_index(ct, x) == 1 {
        Ok(true)
    } else {
        Err(CustomError::DecryptionAmbiguous)
    }
}

/// What SHA3-512 makes of `data`: the 64 bytes that `sha3::Sha3_512`
/// returns.
pub uninterp spec fn sha3_512_digest(data: Seq<u8>) -> Seq<u8>;

/// Hashes with `sha3::Sha3_512`. The contract gives the digest its name.
#[verifier::external_body]
fn sha3_512(data: &[u8]) -> (r: [u8; 64])
    ensures
        r@ == sha3_512_digest(data@),
{
    <sha3::Sha3_512 as sha3::Digest>::digest(data).into()
}

/// The message that a ballot hash is taken of: the proposal's identifier
/// in eight little-endian bytes, then the voter's key.
pub open spec fn ballot_message(proposal_id: u64, user_pubkey: Pubkey) -> Seq<u8> {
    le_bytes(proposal_id as nat, 8) + user_pubkey.key@
}

/// The hash that ties a voter to a proposal.
pub fn generate_ballot_hash(proposal_id: u64, user_pubkey: Pubkey) -> (r: [u8; 64])
    ensures
        r@ == sha3_512_digest(ballot_message(proposal_id, user_pubkey)),
{
    let mut message: Vec<u8> = Vec::new();
    push_u64_le(&mut message, proposal_id);
    push_32(&mut message, &user_pubkey.key);
    sha3_512(message.as_slice())
}

/// A fresh keypair: a private scalar from the operating system's generator
/// and the public key that belongs to it.
pub fn generate_keypair() -> (r: (ElGamalPubkey, Scalar))
    ensures
        r.1.wf(),
        is_public_key_of(r.0, r.1.value()),
{
    let secret_key = Scalar::random();
    let public_key = public_key_of(&secret_key);
    (public_key, secret_key)
}

/// The public key `x * B` that belongs to a private scalar `x`.
pub fn public_key_of(secret_key: &Scalar) -> (pk: ElGamalPubkey)
    ensures
        is_public_key_of(pk, secret_key.value()),
{
    let point = GroupElement::generator().scalar_mul(secret_key);
    proof {
        use_type_invariant(secret_key);
        secret_key.lemma_value();
        point.lemma_index();
        assert(1 * secret_key.value() == secret_key.value());
        lemma_small_mod(secret_key.value(), group_order());
    }
    ElGamalPubkey { point: point.encode() }
}

/// Encrypts `vote` under `public_key` with the randomness `r`. A public
/// key that is no canonical encoding is refused with `DecodeError`.
pub fn encrypt_with(vote: bool, public_key: &ElGamalPubkey, r: &Scalar) -> (res: Result<
    ElGamalCiphertext,
    CustomError,
>)
    ensures
        res.is_ok() <==> ristretto_index(public_key.point@) is Some,
        res.is_ok() ==> is_encryption(res.unwrap(), vote, *public_key, r.value()),
        res.is_err() ==> res.unwrap_err() == CustomError::DecodeError,
{
    let pk = match GroupElement::decode(&public_key.point) {
        Ok(p) => p,
        Err(_) => {
            return Err(CustomError::DecodeError);
        },
    };
    let g = GroupElement::generator();
    let c1 = g.scalar_mul(r);
    let blinded = pk.scalar_mul(r);
    let c2 = if vote {
        blinded.add(&g)
    } else {
        blinded
    };
    proof {
        use_type_invariant(r);
        r.lemma_value();
        pk.lemma_index();
        c1.lemma_index();
        c2.lemma_index();
        let l = group_order() as int;
        let y = pk.index() as int;
        let k = r.value() as int;
        assert(1 * k == k);
        lemma_small_mod(k as nat, l as nat);
        if vote {
            lemma_add_mod_noop(y * k, 1, l);
            lemma_small_mod(1, l as nat);
        }
        assert(y * k >= 0) by (nonlinear_arith)
            requires
                y >= 0,
                k >= 0,
        ;
    }
    Ok(ElGamalCiphertext { c1: c1.encode(), c2: c2.encode() })
}

/// Encrypts `vote` under `public_key` with fresh randomness, and returns
/// the ciphertext together with that randomness, which the proof of the
/// ballot needs.
pub fn encrypt(vote: bool, public_key: &ElGamalPubkey) -> (res: Result<
    (ElGamalCiphertext, Scalar),
    CustomError,
>)
    ensures
        res.is_ok() <==> ristretto_index(public_key.point@) is Some,
        res.is_ok() ==> res.unwrap().1.wf() && is_encryption(
            res.unwrap().0,
            vote,
            *public_key,
            res.unwrap().1.value(),
        ),
        res.is_err() ==> res.unwrap_err() == CustomError::DecodeError,
{
    let r = Scalar::random();
    match encrypt_with(vote, public_key, &r) {
        Ok(ciphertext) => Ok((ciphertext, r)),
        Err(e) => Err(e),
    }
}

/// Decrypts a ballot with the private scalar: `false` where `c2 - x * c1`
/// is the neutral element, `true` where it is the generator, and
/// `DecryptionAmbiguous` for any other element. A component that is no
/// canonical encoding is a `DecodeError`.
pub fn decrypt(ciphertext: &ElGamalCiphertext, private_key: &Scalar) -> (res: Result<
    bool,
    CustomError,
>)
    ensures
        res == decryption(*ciphertext, private_key.value()),
{
    let c1 = match GroupElement::decode(&ciphertext.c1) {
        Ok(p) => p,
        Err(_) => {
            return Err(CustomError::DecodeError);
        },
    };
    let c2 = match GroupElement::decode(&ciphertext.c2) {
        Ok(p) => p,
        Err(_) => {
            return Err(CustomError::DecodeError);
        },
    };
    let shared_secret = c1.scalar_mul(private_key);
    let message_point = c2.sub(&shared_secret);
    proof {
        c1.lemma_index();
        c2.lemma_index();
        let l = group_order() as int;
        lemma_sub_mod_noop_right(
            c2.index() as int,
            c1.index() as int * private_key.value() as int,
            l,
        );
        assert(message_point.index() == hidden_index(*ciphertext, private_key.value()));
    }
    if message_point.equals(&GroupElement::identity()) {
        Ok(false)
    } else if message_point.equals(&GroupElement::generator()) {
        Ok(true)
    } else {
        Err(CustomError::DecryptionAmbiguous)
    }
}

/// Decrypting a ballot with the private scalar of the key that it was
/// encrypted under gives the vote back.
pub proof fn lemma_decrypt_encrypt(
    ct: ElGamalCiphertext,
    vote: bool,
    pk: ElGamalPubkey,
    r: nat,
    x: nat,
)
    requires
        is_encryption(ct, vote, pk, r),
        is_public_key_of(pk, x),
    ensures
        decryption(ct, x) == Ok::<bool, CustomError>(vote),
{
    let l = group_order() as int;
    let b = vote_bit(vote) as int;
    let xr = x as int * r as int;
    assert(r as int * x as int == xr) by (nonlinear_arith)
        requires
            xr == x as int * r as int,
    ;
    lemma_sub_mod_noop(xr + b, xr, l);
    lemma_small_mod(b as nat, l as nat);
    assert(((xr + b) % l - xr % l) % l == b);
    lemma_sub_mod_noop_right((xr + b) % l, xr, l);
    assert(hidden_index(ct, x) == b);
}

/// Decrypting with another private scalar `other` than the `x` of the key
/// does not give the vote back, unless `(x - other) * r` is a multiple of
/// the group order.
pub proof fn lemma_decrypt_mismatch(
    ct: ElGamalCiphertext,
    vote: bool,
    pk: ElGamalPubkey,
    r: nat,
    x: nat,
    other: nat,
)
    requires
        is_encryption(ct, vote, pk, r),
        is_public_key_of(pk, x),
        ((x - other) * r) % (group_order() as int) != 0,
    ensures
        decryption(ct, other) != Ok::<bool, CustomError>(vote),
{
    let l = group_order() as int;
    let b = vote_bit(vote) as int;
    let xr = x as int * r as int;
    let or = r as int * other as int;
    let d = (x - other) * r;
    assert(xr + b - or == d + b) by (nonlinear_arith)
        requires
            xr == x as int * r as int,
            or == r as int * other as int,
            d == (x - other) * r,
    ;
    lemma_sub_mod_noop((xr + b), or, l);
    lemma_sub_mod_noop_right((xr + b) % l, or, l);
    assert(hidden_index(ct, other) == (d + b) % l);
    if hidden_index(ct, other) == b {
        lemma_small_mod(b as nat, l as nat);
        lemma_sub_mod_noop(d + b, b, l);
        assert(d % l == 0);
    }
}

} // verus!
