//! Elements of the scalar field of BLS12-381, the field of the Groth16
//! public inputs, and the two ways in which they are made: from a
//! hex-encoded 32-byte string, and by hashing a message into the field.
use vstd::prelude::*;
use vstd::arithmetic::div_mod::lemma_small_mod;
use crate::encoding::{
    be_value, le_value, lemma_be_value_bound, lemma_be_value_leading_byte,
    lemma_le_value_reverse, lemma_le_value_zero_padding, lemma_pow256_monotonic, pow256,
};
use crate::errors::CustomError;

verus! {

/// The order of the scalar field of BLS12-381,
/// `0x73eda753299d7d483339d80809a1d80553bda402fffe5bfeffffffff00000001`.
pub open spec fn field_order() -> nat {
    52435875175126190479447740508185965837690552500527637822603658699938581184513nat
}

/// The value of a hexadecimal digit, of either case.
pub open spec fn hex_digit(c: char) -> Option<nat> {
    if '0' <= c && c <= '9' {
        Some((c as nat - '0' as nat) as nat)
    } else if 'a' <= c && c <= 'f' {
        Some((c as nat - 'a' as nat + 10) as nat)
    } else if 'A' <= c && c <= 'F' {
        Some((c as nat - 'A' as nat + 10) as nat)
    } else {
        None
    }
}

/// `text` is an even number of hexadecimal digits.
pub open spec fn is_hex(text: Seq<char>) -> bool {
    text.len() % 2 == 0 && forall|i: int| 0 <= i < text.len() ==> hex_digit(#[trigger] text[i]) is Some
}

/// The bytes that the digits of `text` spell, two digits to a byte, the
/// high digit first.
pub open spec fn hex_bytes(text: Seq<char>) -> Seq<u8> {
    Seq::new(
        text.len() / 2,
        |i: int| (16 * hex_digit(text[2 * i]).unwrap() + hex_digit(text[2 * i + 1]).unwrap()) as u8,
    )
}

/// The lower-case digit that spells `d`.
pub open spec fn hex_char(d: nat) -> char {
    if d == 0 {
        '0'
    } else if d == 1 {
        '1'
    } else if d == 2 {
        '2'
    } else if d == 3 {
        '3'
    } else if d == 4 {
        '4'
    } else if d == 5 {
        '5'
    } else if d == 6 {
        '6'
    } else if d == 7 {
        '7'
    } else if d == 8 {
        '8'
    } else if d == 9 {
        '9'
    } else if d == 10 {
        'a'
    } else if d == 11 {
        'b'
    } else if d == 12 {
        'c'
    } else if d == 13 {
        'd'
    } else if d == 14 {
        'e'
    } else {
        'f'
    }
}

/// The text that spells `bytes` in lower-case hexadecimal, two digits to a
/// byte, the high digit first.
pub open spec fn hex_text(bytes: Seq<u8>) -> Seq<char> {
    Seq::new(
        2 * bytes.len(),
        |i: int|
            if i % 2 == 0 {
                hex_char((bytes[i / 2] / 16) as nat)
            } else {
                hex_char((bytes[i / 2] % 16) as nat)
            },
    )
}

/// The field element that a public input spells: the text must be the hex
/// encoding of exactly 32 bytes, which are read in little-endian order and
/// reduced into the field.
pub open spec fn public_input_value(text: Seq<char>) -> Option<nat> {
    if is_hex(text) && text.len() == 64 {
        Some(le_value(hex_bytes(text)) % field_order())
    } else {
        None
    }
}

/// Reading the text that spells `bytes` gives `bytes` back.
pub proof fn lemma_hex_round_trip(bytes: Seq<u8>)
    ensures
        is_hex(hex_text(bytes)),
        hex_text(bytes).len() == 2 * bytes.len(),
        hex_bytes(hex_text(bytes)) == bytes,
{
    let text = hex_text(bytes);
    assert forall|i: int| 0 <= i < text.len() implies hex_digit(#[trigger] text[i]) is Some by {
        let b = bytes[i / 2];
        assert(b / 16 < 16 && b % 16 < 16);
    }
    assert forall|i: int| 0 <= i < bytes.len() implies #[trigger] hex_bytes(text)[i] == bytes[i] by {
        let b = bytes[i];
        assert((2 * i) % 2 == 0 && (2 * i) / 2 == i);
        assert((2 * i + 1) % 2 == 1 && (2 * i + 1) / 2 == i);
        assert(text[2 * i] == hex_char((b / 16) as nat));
        assert(text[2 * i + 1] == hex_char((b % 16) as nat));
        assert(hex_digit(hex_char((b / 16) as nat)) == Some((b / 16) as nat));
        assert(hex_digit(hex_char((b % 16) as nat)) == Some((b % 16) as nat));
        assert(16 * (b / 16) + b % 16 == b);
    }
    assert(hex_bytes(text) =~= bytes);
}

/// Encodes with `hex::encode`. The contract claims that it spells every
/// byte with two lower-case digits, the high digit first.
#[verifier::external_body]
fn hex_encode(bytes: &[u8]) -> (r: String)
    ensures
        r@ == hex_text(bytes@),
{
    hex::encode(bytes)
}

/// Decodes with `hex::decode`. The contract claims that it accepts exactly
/// the strings of an even number of hexadecimal digits, of either case, and
/// returns the bytes that they spell.
#[verifier::external_body]
fn hex_decode(text: &str) -> (r: Option<Vec<u8>>)
    ensures
        r is Some <==> is_hex(text@),
        r is Some ==> r.unwrap()@ == hex_bytes(text@),
{
    hex::decode(text).ok()
}

/// Reduces 64 bytes with `bls12_381::Scalar::from_bytes_wide`. The contract
/// claims that the result is the canonical little-endian encoding of the
/// 512-bit little-endian reading of the input, modulo the field order.
#[verifier::external_body]
fn field_from_wide(wide: &[u8; 64]) -> (r: [u8; 32])
    ensures
        le_value(r@) == le_value(wide@) % field_order(),
{
    bls12_381::Scalar::from_bytes_wide(wide).to_bytes()
}

/// Adds two field elements with `bls12_381::Scalar`'s `+`. The contract
/// claims that the sum is taken modulo the field order.
#[verifier::external_body]
fn field_sum(a: &[u8; 32], b: &[u8; 32]) -> (r: [u8; 32])
    requires
        le_value(a@) < field_order(),
        le_value(b@) < field_order(),
    ensures
        le_value(r@) == (le_value(a@) + le_value(b@)) % field_order(),
{
    let x = bls12_381::Scalar::from_bytes(a).unwrap();
    let y = bls12_381::Scalar::from_bytes(b).unwrap();
    (x + y).to_bytes()
}

/// An element of the field, held as its canonical 32-byte little-endian
/// encoding.
#[derive(Clone, Copy, Debug)]
pub struct FieldElement {
    bytes: [u8; 32],
}

impl FieldElement {
    /// Every element is reduced.
    #[verifier::type_invariant]
    pub closed spec fn wf(self) -> bool {
        le_value(self.bytes@) < field_order()
    }

    /// The integer that the element stands for.
    pub closed spec fn value(self) -> nat {
        le_value(self.bytes@)
    }

    /// The canonical encoding.
    pub closed spec fn encoding(self) -> Seq<u8> {
        self.bytes@
    }

    /// A well-formed element is below the field order, and its value is the
    /// little-endian reading of its encoding.
    pub proof fn lemma_value(self)
        requires
            self.wf(),
        ensures
            self.value() < field_order(),
            self.value() == le_value(self.encoding()),
            self.encoding().len() == 32,
    {
    }

    /// The canonical encoding, as bytes.
    pub fn to_bytes(&self) -> (r: [u8; 32])
        ensures
            r@ == self.encoding(),
    {
        self.bytes
    }

    /// The sum modulo the field order.
    pub fn add(&self, other: &FieldElement) -> (r: FieldElement)
        ensures
            r.wf(),
            r.value() == (self.value() + other.value()) % field_order(),
    {
        proof {
            use_type_invariant(self);
            use_type_invariant(other);
        }
        FieldElement { bytes: field_sum(&self.bytes, &other.bytes) }
    }

    /// The 512-bit little-endian reading of `wide`, reduced.
    pub fn from_bytes_wide(wide: &[u8; 64]) -> (r: FieldElement)
        ensures
            r.wf(),
            r.value() == le_value(wide@) % field_order(),
    {
        FieldElement { bytes: field_from_wide(wide) }
    }
}

/// Reads a public input: `text` must be the hex encoding of exactly 32
/// bytes, which are read in little-endian order and reduced into the field.
/// Anything else is an `InvalidPublicInput`.
pub fn public_input_from_hex(text: &str) -> (r: Result<FieldElement, CustomError>)
    ensures
        r.is_ok() <==> is_hex(text@) && text@.len() == 64,
        r.is_ok() <==> public_input_value(text@) is Some,
        r.is_ok() ==> r.unwrap().wf() && r.unwrap().value() == le_value(hex_bytes(text@))
            % field_order(),
        r.is_ok() ==> public_input_value(text@) == Some(r.unwrap().value()),
        r.is_err() ==> r.unwrap_err() == CustomError::InvalidPublicInput,
{
    let bytes = match hex_decode(text) {
        Some(b) => b,
        None => {
            return Err(CustomError::InvalidPublicInput);
        },
    };
    if bytes.len() != 32 {
        return Err(CustomError::InvalidPublicInput);
    }
    let mut wide = [0u8; 64];
    let mut i: usize = 0;
    while i < 32
        invariant
            i <= 32,
            bytes@.len() == 32,
            forall|j: int| 0 <= j < i ==> wide@[j] == bytes@[j],
            forall|j: int| i <= j < 64 ==> wide@[j] == 0,
        decreases 32 - i,
    {
        wide[i] = bytes[i];
        i += 1;
    }
    proof {
        let zeros = wide@.subrange(32, 64);
        assert(wide@ =~= bytes@ + zeros);
        lemma_le_value_zero_padding(bytes@, zeros);
    }
    Ok(FieldElement::from_bytes_wide(&wide))
}

/// Writes a field element as a public input: its 32 little-endian bytes
/// in lower-case hexadecimal. Reading the text gives the element back.
pub fn public_input_to_hex(element: &FieldElement) -> (r: String)
    ensures
        r@ == hex_text(element.encoding()),
        public_input_value(r@) == Some(element.value()),
{
    let bytes = element.to_bytes();
    let text = hex_encode(bytes.as_slice());
    proof {
        use_type_invariant(element);
        element.lemma_value();
        lemma_hex_round_trip(bytes@);
        lemma_small_mod(element.value(), field_order());
    }
    text
}

/// What SHA-256 makes of `data`: the 32 bytes that `sha2::Sha256` returns.
pub uninterp spec fn sha256_digest(data: Seq<u8>) -> Seq<u8>;

/// Hashes with `sha2::Sha256`. The contract gives the digest its name.
#[verifier::external_body]
fn sha256(data: &[u8]) -> (r: [u8; 32])
    ensures
        r@ == sha256_digest(data@),
{
    <sha2::Sha256 as sha2::Digest>::digest(data).into()
}

/// Takes the remainder of two big-endian numbers with `num_bigint::BigInt`'s
/// `%`. The contract claims that the result is the remainder in big-endian
/// order without a leading zero byte, zero being the single byte 0.
#[verifier::external_body]
fn be_remainder(bytes: &[u8], modulus: &[u8]) -> (r: Vec<u8>)
    requires
        be_value(modulus@) > 0,
    ensures
        be_value(r@) == be_value(bytes@) % be_value(modulus@),
        r@.len() >= 1,
        r@.len() > 1 ==> r@[0] != 0,
{
    let n = num_bigint::BigInt::from_bytes_be(num_bigint::Sign::Plus, bytes);
    let m = num_bigint::BigInt::from_bytes_be(num_bigint::Sign::Plus, modulus);
    (n % m).to_bytes_be().1
}

/// The field order in big-endian bytes.
fn field_order_bytes() -> (r: [u8; 32])
    ensures
        be_value(r@) == field_order(),
{
    let r: [u8; 32] = [
        0x73, 0xed, 0xa7, 0x53, 0x29, 0x9d, 0x7d, 0x48, 0x33, 0x39, 0xd8, 0x08, 0x09, 0xa1, 0xd8,
        0x05, 0x53, 0xbd, 0xa4, 0x02, 0xff, 0xfe, 0x5b, 0xfe, 0xff, 0xff, 0xff, 0xff, 0x00, 0x00,
        0x00, 0x01,
    ];
    proof {
        lemma_be_value_of_32(r@);
        reveal_with_fuel(be_prefix, 5);
        assert(be_prefix(r@, 4) == 1944954707nat);
        assert(be_prefix(r@, 8) == 8353516859464449352nat);
        assert(be_prefix(r@, 12) == 35878081717984438042347821064nat);
        assert(be_prefix(r@, 16) == 154095187621958656428822154526901524485nat);
        assert(be_prefix(r@, 20) == 661833791307296440825891305493300399877023179778nat);
        assert(be_prefix(r@, 24) == 2842554489052527299524402387144470364575536978984733400062nat);
        assert(be_prefix(r@, 28) == 12208678567578594777604504606729831043093128246378069236549469339647nat);
        assert(be_prefix(r@, 32) == 52435875175126190479447740508185965837690552500527637822603658699938581184513nat);
    }
    r
}

/// The field element that a message hashes to: its SHA-256 digest, read in
/// big-endian order and reduced modulo the field order.
pub open spec fn hash_to_field(data: Seq<u8>) -> nat {
    be_value(sha256_digest(data)) % field_order()
}

/// Hashes a message into the field. The mapping is one-way and many to
/// one: equal messages give equal elements.
pub fn sha256_to_scalar(data: &[u8]) -> (r: FieldElement)
    ensures
        r.wf(),
        r.value() == hash_to_field(data@),
{
    let hash = sha256(data);
    let modulus = field_order_bytes();
    let rem = be_remainder(hash.as_slice(), modulus.as_slice());
    let n = rem.len();
    proof {
        lemma_be_value_bound(modulus@);
        if n > 32 {
            lemma_be_value_leading_byte(rem@);
            lemma_pow256_monotonic(32, (n - 1) as nat);
            assert(rem@[0] * pow256((n - 1) as nat) >= pow256((n - 1) as nat)) by (nonlinear_arith)
                requires
                    rem@[0] >= 1,
                    pow256((n - 1) as nat) > 0,
            ;
        }
    }
    let mut bytes = [0u8; 32];
    let mut i: usize = 0;
    while i < n
        invariant
            i <= n,
            n <= 32,
            n == rem@.len(),
            forall|j: int| 0 <= j < i ==> bytes@[j] == rem@[n - 1 - j],
            forall|j: int| i <= j < 32 ==> bytes@[j] == 0,
        decreases n - i,
    {
        bytes[i] = rem[n - 1 - i];
        i += 1;
    }
    proof {
        let zeros = bytes@.subrange(n as int, 32);
        assert(bytes@ =~= rem@.reverse() + zeros);
        lemma_le_value_zero_padding(rem@.reverse(), zeros);
        lemma_le_value_reverse(rem@);
    }
    FieldElement { bytes }
}

/// The big-endian value of 32 bytes, written out.
proof fn lemma_be_value_of_32(s: Seq<u8>)
    requires
        s.len() == 32,
    ensures
        be_value(s) == be_prefix(s, 32),
{
    lemma_be_prefix(s, 32);
    assert(s.subrange(0, 32) =~= s);
}

/// The big-endian value of the first `n` bytes of `s`.
spec fn be_prefix(s: Seq<u8>, n: nat) -> nat
    decreases n,
{
    if n == 0 {
        0
    } else {
        256 * be_prefix(s, (n - 1) as nat) + s[n - 1] as nat
    }
}

/// `be_prefix` is the big-endian value of the prefix.
proof fn lemma_be_prefix(s: Seq<u8>, n: nat)
    requires
        n <= s.len(),
    ensures
        be_value(s.subrange(0, n as int)) == be_prefix(s, n),
    decreases n,
{
    if n > 0 {
        lemma_be_prefix(s, (n - 1) as nat);
        assert(s.subrange(0, n as int).drop_last() =~= s.subrange(0, n - 1));
    }
}

} // verus!
