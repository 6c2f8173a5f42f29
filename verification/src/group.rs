//! The Ristretto group: a group of prime order, written additively, whose
//! elements travel as canonical 32-byte encodings.
//!
//! The group is cyclic and the basepoint generates it, so every element is
//! a multiple `k * B` of the basepoint `B` for exactly one `k` below the
//! group order. The contracts here speak of an element through that `k`,
//! its index.
use vstd::prelude::*;
use crate::encoding::le_value;
use crate::errors::CustomError;
use crate::scalar::{group_order, Scalar};

verus! {

/// What `curve25519_dalek::ristretto::CompressedRistretto::decompress`
/// returns for `bytes`: `None` where they are no canonical encoding, else
/// the element, given as its index.
pub uninterp spec fn ristretto_index(bytes: Seq<u8>) -> Option<nat>;

/// What `curve25519_dalek::ristretto::RistrettoPoint::compress` returns
/// for the element of index `k`.
pub uninterp spec fn ristretto_encoding(k: nat) -> Seq<u8>;

/// `bytes` are the canonical encoding of the element of index `k`.
pub open spec fn encodes(bytes: Seq<u8>, k: nat) -> bool {
    &&& k < group_order()
    &&& bytes.len() == 32
    &&& ristretto_index(bytes) == Some(k)
    &&& ristretto_encoding(k) == bytes
}

/// `bytes` are the canonical encoding of a group element.
pub open spec fn is_element(bytes: Seq<u8>) -> bool {
    ristretto_index(bytes) is Some && encodes(bytes, ristretto_index(bytes).unwrap())
}

/// Decompresses `bytes` with `CompressedRistretto::decompress` and reports
/// whether a point came back. The contract claims that a point that comes
/// back has an index below the group order, and that compressing it gives
/// `bytes` again.
#[verifier::external_body]
fn point_decodes(bytes: &[u8; 32]) -> (ok: bool)
    ensures
        ok == ristretto_index(bytes@).is_some(),
        ok ==> ristretto_index(bytes@).unwrap() < group_order(),
        ok ==> ristretto_encoding(ristretto_index(bytes@).unwrap()) == bytes@,
{
    curve25519_dalek::ristretto::CompressedRistretto(*bytes).decompress().is_some()
}

/// The canonical encoding of the basepoint.
pub open spec fn basepoint_encoding() -> Seq<u8> {
    seq![
        0xe2u8, 0xf2, 0xae, 0x0a, 0x6a, 0xbc, 0x4e, 0x71, 0xa8, 0x84, 0xa9, 0x61, 0xc5, 0x00, 0x51, 0x5f,
        0x58, 0xe3, 0x0b, 0x6a, 0xa5, 0x82, 0xdd, 0x8d, 0xb6, 0xa6, 0x59, 0x45, 0xe0, 0x8d, 0x2d, 0x76,
    ]
}

/// The bytes of `curve25519_dalek::constants::RISTRETTO_BASEPOINT_COMPRESSED`.
/// The contract claims that they are the ones written out above, and that
/// they encode the basepoint, which has index 1.
#[verifier::external_body]
fn basepoint_bytes() -> (r: [u8; 32])
    ensures
        encodes(r@, 1),
        r@ == basepoint_encoding(),
{
    curve25519_dalek::constants::RISTRETTO_BASEPOINT_COMPRESSED.to_bytes()
}

/// The bytes of `CompressedRistretto::identity()`. The contract claims
/// that they are 32 zero bytes, and that they encode the neutral element,
/// which has index 0.
#[verifier::external_body]
fn identity_bytes() -> (r: [u8; 32])
    ensures
        encodes(r@, 0),
        forall|i: int| 0 <= i < 32 ==> r@[i] == 0,
{
    let c: curve25519_dalek::ristretto::CompressedRistretto =
        curve25519_dalek::traits::Identity::identity();
    c.to_bytes()
}

/// Adds two points with `RistrettoPoint + RistrettoPoint`. The contract
/// claims that indices add modulo the group order.
#[verifier::external_body]
fn point_sum(a: &[u8; 32], b: &[u8; 32]) -> (r: [u8; 32])
    requires
        is_element(a@),
        is_element(b@),
    ensures
        encodes(r@, (ristretto_index(a@).unwrap() + ristretto_index(b@).unwrap()) % group_order()),
{
    let p = curve25519_dalek::ristretto::CompressedRistretto(*a).decompress().unwrap();
    let q = curve25519_dalek::ristretto::CompressedRistretto(*b).decompress().unwrap();
    (p + q).compress().to_bytes()
}

/// Subtracts two points with `RistrettoPoint - RistrettoPoint`. The
/// contract claims that indices subtract modulo the group order.
#[verifier::external_body]
fn point_difference(a: &[u8; 32], b: &[u8; 32]) -> (r: [u8; 32])
    requires
        is_element(a@),
        is_element(b@),
    ensures
        encodes(
            r@,
            ((ristretto_index(a@).unwrap() - ristretto_index(b@).unwrap())
                % (group_order() as int)) as nat,
        ),
{
    let p = curve25519_dalek::ristretto::CompressedRistretto(*a).decompress().unwrap();
    let q = curve25519_dalek::ristretto::CompressedRistretto(*b).decompress().unwrap();
    (p - q).compress().to_bytes()
}

/// Multiplies a point by a scalar with `RistrettoPoint * Scalar`. The
/// contract claims that the index is multiplied modulo the group order.
#[verifier::external_body]
fn point_multiple(p: &[u8; 32], k: &[u8; 32]) -> (r: [u8; 32])
    requires
        is_element(p@),
        le_value(k@) < group_order(),
    ensures
        encodes(r@, (ristretto_index(p@).unwrap() * le_value(k@)) % group_order()),
{
    let point = curve25519_dalek::ristretto::CompressedRistretto(*p).decompress().unwrap();
    let scalar = curve25519_dalek::scalar::Scalar::from_canonical_bytes(*k).unwrap();
    (point * scalar).compress().to_bytes()
}

/// Compares two points with `RistrettoPoint == RistrettoPoint`. The
/// contract claims that two points are equal exactly when their indices
/// are.
#[verifier::external_body]
fn point_equal(a: &[u8; 32], b: &[u8; 32]) -> (r: bool)
    requires
        is_element(a@),
        is_element(b@),
    ensures
        r == (ristretto_index(a@).unwrap() == ristretto_index(b@).unwrap()),
{
    let p = curve25519_dalek::ristretto::CompressedRistretto(*a).decompress().unwrap();
    let q = curve25519_dalek::ristretto::CompressedRistretto(*b).decompress().unwrap();
    p == q
}

/// An element of the group.
#[derive(Clone, Copy, Debug)]
pub struct GroupElement {
    encoding: [u8; 32],
}

impl GroupElement {
    /// The encoding held is canonical.
    #[verifier::type_invariant]
    pub closed spec fn wf(self) -> bool {
        is_element(self.encoding@)
    }

    /// The `k` below the group order for which the element is `k * B`.
    pub closed spec fn index(self) -> nat {
        ristretto_index(self.encoding@).unwrap()
    }

    /// The canonical encoding.
    pub closed spec fn bytes(self) -> Seq<u8> {
        self.encoding@
    }

    /// The canonical encoding, as the array that `encode` returns.
    pub closed spec fn encoded(self) -> [u8; 32] {
        self.encoding
    }

    /// What `decode` returns for `bytes`.
    pub closed spec fn decoded(bytes: [u8; 32]) -> Result<GroupElement, CustomError> {
        if ristretto_index(bytes@) is Some {
            Ok(GroupElement { encoding: bytes })
        } else {
            Err(CustomError::DecodeError)
        }
    }

    /// What well-formedness says of the encoding and the index.
    pub proof fn lemma_index(self)
        requires
            self.wf(),
        ensures
            encodes(self.bytes(), self.index()),
            encodes(self.encoded()@, self.index()),
    {
    }

    /// The neutral element, which 32 zero bytes encode.
    pub fn identity() -> (r: GroupElement)
        ensures
            r.wf(),
            r.index() == 0,
            forall|i: int| 0 <= i < 32 ==> r.bytes()[i] == 0,
    {
        GroupElement { encoding: identity_bytes() }
    }

    /// The basepoint, which generates the group.
    pub fn generator() -> (r: GroupElement)
        ensures
            r.wf(),
            r.index() == 1,
            r.bytes() == basepoint_encoding(),
    {
        GroupElement { encoding: basepoint_bytes() }
    }

    /// The sum of two elements.
    pub fn add(&self, other: &GroupElement) -> (r: GroupElement)
        ensures
            r.wf(),
            r.index() == (self.index() + other.index()) % group_order(),
    {
        proof {
            use_type_invariant(self);
            use_type_invariant(other);
        }
        GroupElement { encoding: point_sum(&self.encoding, &other.encoding) }
    }

    /// The difference of two elements.
    pub fn sub(&self, other: &GroupElement) -> (r: GroupElement)
        ensures
            r.wf(),
            r.index() == (self.index() - other.index()) % (group_order() as int),
    {
        proof {
            use_type_invariant(self);
            use_type_invariant(other);
        }
        GroupElement { encoding: point_difference(&self.encoding, &other.encoding) }
    }

    /// The element taken `k` times.
    pub fn scalar_mul(&self, k: &Scalar) -> (r: GroupElement)
        ensures
            r.wf(),
            r.index() == (self.index() * k.value()) % group_order(),
    {
        proof {
            use_type_invariant(self);
            use_type_invariant(k);
            k.lemma_value();
        }
        let kb = k.to_bytes();
        GroupElement { encoding: point_multiple(&self.encoding, &kb) }
    }

    /// Whether two elements are the same element of the group.
    pub fn equals(&self, other: &GroupElement) -> (r: bool)
        ensures
            r == (self.index() == other.index()),
    {
        proof {
            use_type_invariant(self);
            use_type_invariant(other);
        }
        point_equal(&self.encoding, &other.encoding)
    }

    /// The canonical 32-byte encoding.
    pub fn encode(&self) -> (r: [u8; 32])
        ensures
            r == self.encoded(),
            r@ == self.bytes(),
    {
        self.encoding
    }

    /// Reads a canonical encoding; any other buffer is a `DecodeError`.
    pub fn decode(bytes: &[u8; 32]) -> (r: Result<GroupElement, CustomError>)
        ensures
            r == Self::decoded(*bytes),
            r.is_ok() <==> ristretto_index(bytes@).is_some(),
            r.is_ok() ==> r.unwrap().wf() && r.unwrap().bytes() == bytes@,
            r.is_err() ==> r.unwrap_err() == CustomError::DecodeError,
    {
        if point_decodes(bytes) {
            Ok(GroupElement { encoding: *bytes })
        } else {
            Err(CustomError::DecodeError)
        }
    }
}

/// Encoding an element and decoding the bytes gives the element back.
pub proof fn lemma_decode_encode(p: GroupElement)
    requires
        p.wf(),
    ensures
        GroupElement::decoded(p.encoded()) == Ok::<GroupElement, CustomError>(p),
{
}

/// A buffer that is no canonical encoding is refused with `DecodeError`.
pub proof fn lemma_decode_rejects(bytes: [u8; 32])
    requires
        ristretto_index(bytes@) is None,
    ensures
        GroupElement::decoded(bytes) == Err::<GroupElement, CustomError>(CustomError::DecodeError),
{
}

} // verus!
