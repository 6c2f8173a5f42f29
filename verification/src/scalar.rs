//! Scalars of the Ristretto group: integers modulo the group order, held as
//! their canonical 32-byte little-endian encoding.
use vstd::prelude::*;
use crate::encoding::{le_value, lemma_le_value_low_byte};
use crate::errors::CustomError;

verus! {

/// The order of the Ristretto group, `2^252 + 27742317777372353535851937790883648493`.
pub open spec fn group_order() -> nat {
    7237005577332262213973186563042994240857116359379907606001950938285454250989nat
}

/// Asks `curve25519_dalek::scalar::Scalar::from_canonical_bytes` whether
/// `bytes` are a canonical encoding. The contract claims that it accepts
/// exactly the little-endian readings below the group order.
#[verifier::external_body]
fn canonical_scalar_bytes(bytes: &[u8; 32]) -> (ok: bool)
    ensures
        ok == (le_value(bytes@) < group_order()),
{
    bool::from(curve25519_dalek::scalar::Scalar::from_canonical_bytes(*bytes).is_some())
}

/// Adds two scalars with `curve25519_dalek`'s `Scalar + Scalar`. The
/// contract claims that the sum is taken modulo the group order.
#[verifier::external_body]
fn scalar_sum(a: &[u8; 32], b: &[u8; 32]) -> (r: [u8; 32])
    requires
        le_value(a@) < group_order(),
        le_value(b@) < group_order(),
    ensures
        le_value(r@) == (le_value(a@) + le_value(b@)) % group_order(),
{
    let x = curve25519_dalek::scalar::Scalar::from_canonical_bytes(*a).unwrap();
    let y = curve25519_dalek::scalar::Scalar::from_canonical_bytes(*b).unwrap();
    (x + y).to_bytes()
}

/// Multiplies two scalars with `curve25519_dalek`'s `Scalar * Scalar`. The
/// contract claims that the product is taken modulo the group order.
#[verifier::external_body]
fn scalar_product(a: &[u8; 32], b: &[u8; 32]) -> (r: [u8; 32])
    requires
        le_value(a@) < group_order(),
        le_value(b@) < group_order(),
    ensures
        le_value(r@) == (le_value(a@) * le_value(b@)) % group_order(),
{
    let x = curve25519_dalek::scalar::Scalar::from_canonical_bytes(*a).unwrap();
    let y = curve25519_dalek::scalar::Scalar::from_canonical_bytes(*b).unwrap();
    (x * y).to_bytes()
}

/// Reduces 64 bytes with
/// `curve25519_dalek::scalar::Scalar::from_bytes_mod_order_wide`. The
/// contract claims that the result is the 512-bit little-endian reading of
/// the input, modulo the group order.
#[verifier::external_body]
fn scalar_from_wide(wide: &[u8; 64]) -> (r: [u8; 32])
    ensures
        le_value(r@) == le_value(wide@) % group_order(),
{
    curve25519_dalek::scalar::Scalar::from_bytes_mod_order_wide(wide).to_bytes()
}

/// Draws a scalar with `curve25519_dalek::scalar::Scalar::random` from the
/// operating system's generator. The contract claims only that the outcome
/// is reduced.
#[verifier::external_body]
fn scalar_random() -> (r: [u8; 32])
    ensures
        le_value(r@) < group_order(),
{
    curve25519_dalek::scalar::Scalar::random(&mut rand::rngs::OsRng).to_bytes()
}

/// An integer modulo the group order.
#[derive(Clone, Copy, Debug)]
pub struct Scalar {
    bytes: [u8; 32],
}

impl Scalar {
    /// Every scalar is reduced.
    #[verifier::type_invariant]
    pub closed spec fn wf(self) -> bool {
        le_value(self.bytes@) < group_order()
    }

    /// The integer that the scalar stands for.
    pub closed spec fn value(self) -> nat {
        le_value(self.bytes@)
    }

    /// The canonical encoding.
    pub closed spec fn encoding(self) -> Seq<u8> {
        self.bytes@
    }

    /// A well-formed scalar is below the group order, and its value is the
    /// little-endian reading of its encoding.
    pub proof fn lemma_value(self)
        requires
            self.wf(),
        ensures
            self.value() < group_order(),
            self.value() == le_value(self.encoding()),
            self.encoding().len() == 32,
    {
    }

    /// Decodes a canonical encoding; any other input is a `DecodeError`.
    pub fn from_canonical_bytes(bytes: [u8; 32]) -> (r: Result<Scalar, CustomError>)
        ensures
            r.is_ok() <==> le_value(bytes@) < group_order(),
            r.is_ok() ==> r.unwrap().wf() && r.unwrap().encoding() == bytes@,
            r.is_err() ==> r.unwrap_err() == CustomError::DecodeError,
    {
        if canonical_scalar_bytes(&bytes) {
            Ok(Scalar { bytes })
        } else {
            Err(CustomError::DecodeError)
        }
    }

    /// The scalar 1 for `true` and 0 for `false`.
    pub fn from_bool(bit: bool) -> (r: Scalar)
        ensures
            r.wf(),
            r.value() == (if bit { 1nat } else { 0nat }),
    {
        let mut bytes = [0u8; 32];
        if bit {
            bytes[0] = 1;
        }
        proof {
            lemma_le_value_low_byte(bytes@);
        }
        Scalar { bytes }
    }

    /// The canonical encoding, as bytes.
    pub fn to_bytes(&self) -> (r: [u8; 32])
        ensures
            r@ == self.encoding(),
    {
        self.bytes
    }

    /// The sum modulo the group order.
    pub fn add(&self, other: &Scalar) -> (r: Scalar)
        ensures
            r.wf(),
            r.value() == (self.value() + other.value()) % group_order(),
    {
        proof {
            use_type_invariant(self);
            use_type_invariant(other);
        }
        let bytes = scalar_sum(&self.bytes, &other.bytes);
        proof {
            lemma_mod_below(self.value() + other.value());
        }
        Scalar { bytes }
    }

    /// The product modulo the group order.
    pub fn mul(&self, other: &Scalar) -> (r: Scalar)
        ensures
            r.wf(),
            r.value() == (self.value() * other.value()) % group_order(),
    {
        proof {
            use_type_invariant(self);
            use_type_invariant(other);
        }
        let bytes = scalar_product(&self.bytes, &other.bytes);
        proof {
            lemma_mod_below(self.value() * other.value());
        }
        Scalar { bytes }
    }

    /// The 512-bit little-endian reading of `wide`, reduced.
    pub fn from_bytes_mod_order_wide(wide: &[u8; 64]) -> (r: Scalar)
        ensures
            r.wf(),
            r.value() == le_value(wide@) % group_order(),
    {
        let bytes = scalar_from_wide(wide);
        proof {
            lemma_mod_below(le_value(wide@));
        }
        Scalar { bytes }
    }

    /// A scalar drawn from the operating system's generator.
    pub fn random() -> (r: Scalar)
        ensures
            r.wf(),
    {
        Scalar { bytes: scalar_random() }
    }
}

/// A remainder modulo the group order is below it.
pub proof fn lemma_mod_below(x: nat)
    ensures
        x % group_order() < group_order(),
{
}

} // verus!
