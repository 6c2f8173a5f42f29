//! The ballot proof: a non-interactive Sigma proof that a ciphertext is an
//! ElGamal encryption, under the election's key, of the value that the
//! prover used.
//!
//! The proof shows knowledge of the randomness `r` and of the plaintext `v`
//! with `c1 = r * B` and `c2 = r * Y + v * B`. It does not show that `v` is
//! 0 or 1: a prover who feeds another `v` into the protocol is not stopped
//! by this proof alone.
use vstd::prelude::*;
use vstd::arithmetic::div_mod::{
    lemma_add_mod_noop, lemma_mod_add_multiples_vanish, lemma_mod_twice, lemma_mul_mod_noop_left,
    lemma_mul_mod_noop_right, lemma_small_mod, lemma_sub_mod_noop,
};
use crate::elgamal::{is_encryption, vote_bit, ElGamalCiphertext, ElGamalPubkey};
use crate::encoding::{le_value, lemma_le_value_injective, push_32, take_32};
use crate::errors::CustomError;
use crate::group::{encodes, is_element, ristretto_index, GroupElement};
use crate::scalar::{group_order, Scalar};
use crate::transcript::FiatShamirTranscript;

verus! {

/// A ballot proof: two commitments, as encoded group elements, and two
/// responses, as encoded scalars.
#[derive(Clone, Copy, Debug)]
pub struct VoteProof {
    pub a1: [u8; 32],
    pub a2: [u8; 32],
    pub z1: [u8; 32],
    pub z2: [u8; 32],
}

impl VoteProof {
    /// The wire form: `a1`, `a2`, `z1` and `z2` in this order, 128 bytes
    /// in all.
    pub open spec fn wire(self) -> Seq<u8> {
        self.a1@ + self.a2@ + self.z1@ + self.z2@
    }

    /// The wire form of the proof.
    pub fn to_bytes(&self) -> (r: Vec<u8>)
        ensures
            r@ == self.wire(),
    {
        let mut out: Vec<u8> = Vec::new();
        push_32(&mut out, &self.a1);
        push_32(&mut out, &self.a2);
        push_32(&mut out, &self.z1);
        push_32(&mut out, &self.z2);
        out
    }

    /// Reads the wire form: exactly 128 bytes, or a `DecodeError`. The
    /// fields are not decoded yet.
    pub fn from_bytes(bytes: &[u8]) -> (r: Result<VoteProof, CustomError>)
        ensures
            r.is_ok() <==> bytes@.len() == 128,
            r.is_ok() ==> r.unwrap().wire() == bytes@,
            r.is_err() ==> r.unwrap_err() == CustomError::DecodeError,
    {
        if bytes.len() != 128 {
            return Err(CustomError::DecodeError);
        }
        let proof = VoteProof {
            a1: take_32(bytes, 0),
            a2: take_32(bytes, 32),
            z1: take_32(bytes, 64),
            z2: take_32(bytes, 96),
        };
        proof {
            assert(proof.wire() =~= bytes@);
        }
        Ok(proof)
    }
}

/// Two proofs with the same wire form are the same proof.
pub proof fn lemma_proof_wire_injective(a: VoteProof, b: VoteProof)
    requires
        a.wire() == b.wire(),
    ensures
        a == b,
{
    assert(a.a1@ =~= a.wire().subrange(0, 32));
    assert(b.a1@ =~= b.wire().subrange(0, 32));
    assert(a.a2@ =~= a.wire().subrange(32, 64));
    assert(b.a2@ =~= b.wire().subrange(32, 64));
    assert(a.z1@ =~= a.wire().subrange(64, 96));
    assert(b.z1@ =~= b.wire().subrange(64, 96));
    assert(a.z2@ =~= a.wire().subrange(96, 128));
    assert(b.z2@ =~= b.wire().subrange(96, 128));
    assert(a.a1 =~= b.a1);
    assert(a.a2 =~= b.a2);
    assert(a.z1 =~= b.z1);
    assert(a.z2 =~= b.z2);
}

/// The challenge that belongs to the commitments `a1` and `a2`: they are
/// absorbed in this order under the domain label of the ballot proof.
pub open spec fn vote_challenge(a1: Seq<u8>, a2: Seq<u8>) -> nat {
    FiatShamirTranscript::challenge_scalar(
        seq![
            (false, "vote_proof"@, Seq::<u8>::empty()),
            (false, "a1"@, a1),
            (false, "a2"@, a2),
        ],
        "challenge"@,
    )
}

/// `proof` is what an honest prover makes for `vote`, encrypted with
/// randomness `r` under `pk`, from the nonces `w1` and `w2`:
/// `a1 = w1 * B`, `a2 = w1 * Y + w2 * B`, `z1 = w1 + c * r` and
/// `z2 = w2 + c * v`.
pub open spec fn is_proof(
    proof: VoteProof,
    vote: bool,
    r: nat,
    pk: ElGamalPubkey,
    w1: nat,
    w2: nat,
) -> bool {
    let c = vote_challenge(proof.a1@, proof.a2@);
    &&& is_element(pk.point@)
    &&& encodes(proof.a1@, w1)
    &&& encodes(proof.a2@, (ristretto_index(pk.point@).unwrap() * w1 + w2) % group_order())
    &&& le_value(proof.z1@) == (w1 + c * r) % group_order()
    &&& le_value(proof.z2@) == (w2 + c * vote_bit(vote)) % group_order()
}

/// When a proof is accepted: every field decodes, `z1 * B == a1 + c * c1`
/// and `z1 * Y + z2 * B == a2 + c * c2`.
pub open spec fn proof_accepts(proof: VoteProof, ct: ElGamalCiphertext, pk: ElGamalPubkey) -> bool {
    let l = group_order();
    let c = vote_challenge(proof.a1@, proof.a2@);
    let z1 = le_value(proof.z1@);
    let z2 = le_value(proof.z2@);
    &&& is_element(pk.point@)
    &&& is_element(ct.c1@)
    &&& is_element(ct.c2@)
    &&& is_element(proof.a1@)
    &&& is_element(proof.a2@)
    &&& z1 < l
    &&& z2 < l
    &&& z1 == (ristretto_index(proof.a1@).unwrap() + ristretto_index(ct.c1@).unwrap() * c) % l
    &&& (ristretto_index(pk.point@).unwrap() * z1 + z2) % l == (ristretto_index(
        proof.a2@,
    ).unwrap() + ristretto_index(ct.c2@).unwrap() * c) % l
}

/// Derives the challenge from the two encoded commitments.
fn derive_challenge(a1: &[u8; 32], a2: &[u8; 32]) -> (c: Scalar)
    ensures
        c.wf(),
        c.value() == vote_challenge(a1@, a2@),
{
    proof {
        reveal_strlit("vote_proof");
    }
    let mut transcript = FiatShamirTranscript::new("vote_proof");
    transcript.append("a1", a1.as_slice());
    transcript.append("a2", a2.as_slice());
    assert(transcript.log() =~= seq![
        (false, "vote_proof"@, Seq::<u8>::empty()),
        (false, "a1"@, a1@),
        (false, "a2"@, a2@),
    ]);
    transcript.challenge("challenge")
}

/// Makes the proof for `vote`, encrypted with randomness `r` under
/// `public_key`, from the nonces `w1` and `w2`. A public key that is no
/// canonical encoding is refused with `DecodeError`.
pub fn prove_with(
    vote: bool,
    r: &Scalar,
    public_key: &ElGamalPubkey,
    w1: &Scalar,
    w2: &Scalar,
) -> (res: Result<VoteProof, CustomError>)
    ensures
        res.is_ok() <==> ristretto_index(public_key.point@) is Some,
        res.is_ok() ==> is_proof(
            res.unwrap(),
            vote,
            r.value(),
            *public_key,
            w1.value(),
            w2.value(),
        ),
        res.is_err() ==> res.unwrap_err() == CustomError::DecodeError,
{
    let y = match GroupElement::decode(&public_key.point) {
        Ok(p) => p,
        Err(_) => {
            return Err(CustomError::DecodeError);
        },
    };
    let g = GroupElement::generator();
    let v = Scalar::from_bool(vote);

    let a1 = g.scalar_mul(w1);
    let a2 = y.scalar_mul(w1).add(&g.scalar_mul(w2));
    let a1_bytes = a1.encode();
    let a2_bytes = a2.encode();

    let c = derive_challenge(&a1_bytes, &a2_bytes);

    let z1 = w1.add(&c.mul(r));
    let z2 = w2.add(&c.mul(&v));
    proof {
        use_type_invariant(w1);
        use_type_invariant(w2);
        w1.lemma_value();
        w2.lemma_value();
        z1.lemma_value();
        z2.lemma_value();
        y.lemma_index();
        a1.lemma_index();
        a2.lemma_index();
        let l = group_order() as int;
        let yi = y.index() as int;
        let k1 = w1.value() as int;
        let k2 = w2.value() as int;
        let cv = c.value() as int;
        assert(1 * k1 == k1);
        assert(1 * k2 == k2);
        lemma_small_mod(k1 as nat, l as nat);
        lemma_small_mod(k2 as nat, l as nat);
        lemma_add_mod_noop(yi * k1, k2, l);
        lemma_add_mod_noop(k1, cv * r.value() as int, l);
        lemma_add_mod_noop(k2, cv * v.value() as int, l);
        assert(yi * k1 >= 0) by (nonlinear_arith)
            requires
                yi >= 0,
                k1 >= 0,
        ;
    }
    Ok(VoteProof { a1: a1_bytes, a2: a2_bytes, z1: z1.to_bytes(), z2: z2.to_bytes() })
}

/// Makes the proof for `vote`, encrypted with randomness `r` under
/// `public_key`, from two fresh nonces.
pub fn generate_vote_proof(vote: bool, r: Scalar, public_key: &ElGamalPubkey) -> (res: Result<
    VoteProof,
    CustomError,
>)
    ensures
        res.is_ok() <==> ristretto_index(public_key.point@) is Some,
        res.is_ok() ==> exists|w1: nat, w2: nat|
            w1 < group_order() && w2 < group_order() && is_proof(
                res.unwrap(),
                vote,
                r.value(),
                *public_key,
                w1,
                w2,
            ),
        res.is_err() ==> res.unwrap_err() == CustomError::DecodeError,
{
    let w1 = Scalar::random();
    let w2 = Scalar::random();
    let res = prove_with(vote, &r, public_key, &w1, &w2);
    proof {
        use_type_invariant(&w1);
        use_type_invariant(&w2);
        w1.lemma_value();
        w2.lemma_value();
    }
    res
}

/// Checks a ballot proof against a ciphertext and the election's key. A
/// field that does not decode makes the verdict `false`.
pub fn verify_vote_proof(
    proof: &VoteProof,
    ciphertext: &ElGamalCiphertext,
    public_key: &ElGamalPubkey,
) -> (ok: bool)
    ensures
        ok == proof_accepts(*proof, *ciphertext, *public_key),
{
    let y = match GroupElement::decode(&public_key.point) {
        Ok(p) => p,
        Err(_) => {
            return false;
        },
    };
    let c1 = match GroupElement::decode(&ciphertext.c1) {
        Ok(p) => p,
        Err(_) => {
            return false;
        },
    };
    let c2 = match GroupElement::decode(&ciphertext.c2) {
        Ok(p) => p,
        Err(_) => {
            return false;
        },
    };
    let a1 = match GroupElement::decode(&proof.a1) {
        Ok(p) => p,
        Err(_) => {
            return false;
        },
    };
    let a2 = match GroupElement::decode(&proof.a2) {
        Ok(p) => p,
        Err(_) => {
            return false;
        },
    };
    let z1 = match Scalar::from_canonical_bytes(proof.z1) {
        Ok(s) => s,
        Err(_) => {
            return false;
        },
    };
    let z2 = match Scalar::from_canonical_bytes(proof.z2) {
        Ok(s) => s,
        Err(_) => {
            return false;
        },
    };
    let g = GroupElement::generator();
    let c = derive_challenge(&proof.a1, &proof.a2);

    let left1 = g.scalar_mul(&z1);
    let right1 = a1.add(&c1.scalar_mul(&c));
    let left2 = y.scalar_mul(&z1).add(&g.scalar_mul(&z2));
    let right2 = a2.add(&c2.scalar_mul(&c));
    proof {
        z1.lemma_value();
        z2.lemma_value();
        y.lemma_index();
        c1.lemma_index();
        c2.lemma_index();
        a1.lemma_index();
        a2.lemma_index();
        let l = group_order() as int;
        let s1 = z1.value() as int;
        let s2 = z2.value() as int;
        let cv = c.value() as int;
        assert(1 * s1 == s1);
        assert(1 * s2 == s2);
        lemma_small_mod(s1 as nat, l as nat);
        lemma_small_mod(s2 as nat, l as nat);
        lemma_small_mod(a1.index(), l as nat);
        lemma_small_mod(a2.index(), l as nat);
        lemma_add_mod_noop(a1.index() as int, c1.index() as int * cv, l);
        lemma_add_mod_noop(a2.index() as int, c2.index() as int * cv, l);
        lemma_add_mod_noop(y.index() as int * s1, s2, l);
        assert(left1.index() == s1);
        assert(right1.index() == (a1.index() + c1.index() * c.value()) % (l as nat));
        assert(left2.index() == (y.index() * z1.value() + z2.value()) % (l as nat));
        assert(right2.index() == (a2.index() + c2.index() * c.value()) % (l as nat));
    }
    left1.equals(&right1) && left2.equals(&right2)
}

/// Completeness: the proof that an honest prover makes for a ballot is
/// accepted against the encryption of that ballot under the same key and
/// with the same randomness.
pub proof fn lemma_honest_proof_accepted(
    proof: VoteProof,
    ct: ElGamalCiphertext,
    pk: ElGamalPubkey,
    vote: bool,
    r: nat,
    w1: nat,
    w2: nat,
)
    requires
        is_encryption(ct, vote, pk, r),
        is_proof(proof, vote, r, pk, w1, w2),
    ensures
        proof_accepts(proof, ct, pk),
{
    let l = group_order() as int;
    let y = ristretto_index(pk.point@).unwrap() as int;
    let c = vote_challenge(proof.a1@, proof.a2@) as int;
    let b = vote_bit(vote) as int;
    let k1 = w1 as int;
    let k2 = w2 as int;
    let k = r as int;
    let z1 = le_value(proof.z1@) as int;
    let z2 = le_value(proof.z2@) as int;

    assert(k1 + c * k == k1 + k * c) by (nonlinear_arith);

    // The left side of the second equation.
    lemma_mul_mod_noop_right(y, k1 + c * k, l);
    lemma_add_mod_noop(y * z1, z2, l);
    lemma_add_mod_noop(y * (k1 + c * k), k2 + c * b, l);
    lemma_mod_twice(k2 + c * b, l);
    assert((y * z1 + z2) % l == (y * (k1 + c * k) + (k2 + c * b)) % l);

    // Its right side.
    let p = y * k1 + k2;
    let q = y * k + b;
    lemma_mul_mod_noop_left(q, c, l);
    lemma_add_mod_noop(p % l, (q % l) * c, l);
    lemma_add_mod_noop(p, q * c, l);
    lemma_mod_twice(p, l);
    assert((p % l + (q % l) * c) % l == (p + q * c) % l);

    assert(y * (k1 + c * k) + (k2 + c * b) == p + q * c) by (nonlinear_arith)
        requires
            p == y * k1 + k2,
            q == y * k + b,
    ;
}

/// Two reduced numbers that are congruent are equal.
proof fn lemma_congruent_reduced(x: int, y: int, m: int)
    requires
        0 <= x < m,
        0 <= y < m,
        (x - y) % m == 0,
    ensures
        x == y,
{
    if x > y {
        lemma_small_mod((x - y) as nat, m as nat);
    } else if x < y {
        lemma_mod_add_multiples_vanish(x - y, m);
        lemma_small_mod((m + (x - y)) as nat, m as nat);
    }
}

/// A factor that has an inverse can be cancelled from a multiple of the
/// modulus.
proof fn lemma_cancel_invertible(d: int, c: int, inverse: int, m: int)
    requires
        m > 1,
        (d * c) % m == 0,
        (c * inverse) % m == 1,
    ensures
        d % m == 0,
{
    lemma_mul_mod_noop_left(d * c, inverse, m);
    lemma_mul_mod_noop_right(d, c * inverse, m);
    assert((d * c) * inverse == d * (c * inverse)) by (nonlinear_arith);
    assert(0 * inverse == 0);
    assert(d * 1 == d);
    lemma_small_mod(0, m as nat);
}

/// Tamper resistance of the responses: a proof that is accepted is no
/// longer accepted once a response field is changed, the commitments
/// staying as they are.
pub proof fn lemma_tampered_response_rejected(
    proof: VoteProof,
    changed: VoteProof,
    ct: ElGamalCiphertext,
    pk: ElGamalPubkey,
)
    requires
        proof_accepts(proof, ct, pk),
        changed.a1 == proof.a1,
        changed.a2 == proof.a2,
        changed != proof,
    ensures
        !proof_accepts(changed, ct, pk),
{
    if proof_accepts(changed, ct, pk) {
        let l = group_order() as int;
        let y = ristretto_index(pk.point@).unwrap() as int;
        let z1 = le_value(proof.z1@) as int;
        let z2 = le_value(proof.z2@) as int;
        let t2 = le_value(changed.z2@) as int;
        assert(le_value(changed.z1@) == z1);
        lemma_le_value_injective(changed.z1@, proof.z1@);
        assert(changed.z1 =~= proof.z1);
        lemma_sub_mod_noop(y * z1 + z2, y * z1 + t2, l);
        lemma_small_mod(0, l as nat);
        assert((y * z1 + z2) - (y * z1 + t2) == z2 - t2);
        lemma_congruent_reduced(z2, t2, l);
        lemma_le_value_injective(changed.z2@, proof.z2@);
        assert(changed.z2 =~= proof.z2);
        assert(changed == proof);
    }
}

/// Tamper resistance of the ciphertext: a proof that is accepted for a
/// ciphertext is accepted for no other, where the challenge has an inverse
/// modulo the group order. The order being prime, every challenge but zero
/// has one.
pub proof fn lemma_tampered_ciphertext_rejected(
    proof: VoteProof,
    ct: ElGamalCiphertext,
    changed: ElGamalCiphertext,
    pk: ElGamalPubkey,
    inverse: nat,
)
    requires
        proof_accepts(proof, ct, pk),
        (vote_challenge(proof.a1@, proof.a2@) * inverse) % group_order() == 1,
        changed != ct,
    ensures
        !proof_accepts(proof, changed, pk),
{
    if proof_accepts(proof, changed, pk) {
        let l = group_order() as int;
        let c = vote_challenge(proof.a1@, proof.a2@) as int;
        let a1 = ristretto_index(proof.a1@).unwrap() as int;
        let a2 = ristretto_index(proof.a2@).unwrap() as int;
        let i1 = ristretto_index(ct.c1@).unwrap() as int;
        let j1 = ristretto_index(changed.c1@).unwrap() as int;
        let i2 = ristretto_index(ct.c2@).unwrap() as int;
        let j2 = ristretto_index(changed.c2@).unwrap() as int;
        lemma_small_mod(0, l as nat);

        lemma_sub_mod_noop(a1 + i1 * c, a1 + j1 * c, l);
        assert((a1 + i1 * c) - (a1 + j1 * c) == (i1 - j1) * c) by (nonlinear_arith);
        lemma_cancel_invertible(i1 - j1, c, inverse as int, l);
        lemma_congruent_reduced(i1, j1, l);
        assert(changed.c1@ == ct.c1@);
        assert(changed.c1 =~= ct.c1);

        lemma_sub_mod_noop(a2 + i2 * c, a2 + j2 * c, l);
        assert((a2 + i2 * c) - (a2 + j2 * c) == (i2 - j2) * c) by (nonlinear_arith);
        lemma_cancel_invertible(i2 - j2, c, inverse as int, l);
        lemma_congruent_reduced(i2, j2, l);
        assert(changed.c2@ == ct.c2@);
        assert(changed.c2 =~= ct.c2);
        assert(changed == ct);
    }
}

} // verus!
