use bellman::groth16::{create_random_proof, generate_random_parameters};
use bellman::{Circuit, ConstraintSystem, SynthesisError};
use bls12_381::{Bls12, Scalar};
use dao_voting::election::Election;
use dao_voting::errors::CustomError;
use dao_voting::executor::ChangableTokenAccount;
use dao_voting::field::{
    public_input_from_hex, public_input_to_hex, sha256_to_scalar, FieldElement,
};
use dao_voting::identity::Pubkey;
use dao_voting::snark::{parse_public_inputs, snark_verdict, verify_zk_proof};
use dao_voting::voting::{
    check_ballot_proof, vote, BallotProof, TokenAccount, User, VerifyingKey, Vote,
};
use rand::rngs::OsRng;

const SHA_A: [u8; 32] = [
    23, 201, 128, 143, 161, 199, 202, 51, 206, 35, 169, 19, 8, 17, 229, 48, 79, 185, 59, 177, 243,
    75, 39, 75, 49, 90, 119, 87, 60, 19, 100, 83,
];

const SHA_B: [u8; 32] = [
    255, 168, 206, 46, 137, 208, 167, 176, 6, 245, 162, 90, 36, 236, 235, 174, 66, 11, 24, 157, 94,
    65, 117, 243, 20, 138, 253, 178, 164, 113, 169, 38,
];

const FIELD_ORDER: [u8; 32] = [
    1, 0, 0, 0, 255, 255, 255, 255, 254, 91, 254, 255, 2, 164, 189, 83, 5, 216, 161, 9, 8, 216, 57,
    51, 72, 125, 157, 41, 83, 167, 237, 115,
];

struct SumCircuit {
    a: Scalar,
    b: Scalar,
    expected_sum: Scalar,
}

impl Circuit<Scalar> for SumCircuit {
    fn synthesize<CS: ConstraintSystem<Scalar>>(self, cs: &mut CS) -> Result<(), SynthesisError> {
        let a = cs.alloc_input(|| "a", || Ok(self.a))?;
        let b = cs.alloc_input(|| "b", || Ok(self.b))?;
        let expected = cs.alloc_input(|| "expected sum", || Ok(self.expected_sum))?;
        let sum = cs.alloc(|| "sum", || Ok(self.a + self.b))?;
        cs.enforce(|| "sum", |lc| lc + a + b, |lc| lc + CS::one(), |lc| lc + sum);
        cs.enforce(|| "expected", |lc| lc + sum, |lc| lc + CS::one(), |lc| lc + expected);
        Ok(())
    }
}

fn scalar(e: &FieldElement) -> Scalar {
    Scalar::from_bytes(&e.to_bytes()).unwrap()
}

fn text(s: &Scalar) -> String {
    hex::encode(s.to_bytes())
}

struct Fixture {
    proof: Vec<u8>,
    key: Vec<u8>,
    a: Scalar,
    b: Scalar,
    sum: Scalar,
}

fn fixture() -> Fixture {
    let a = scalar(&sha256_to_scalar(b"sha-A"));
    let b = scalar(&sha256_to_scalar(b"sha-B"));
    let sum = a + b;
    let mut rng = OsRng;
    let shape = SumCircuit { a, b, expected_sum: sum };
    let params = generate_random_parameters::<Bls12, _, _>(shape, &mut rng).unwrap();
    let witness = SumCircuit { a, b, expected_sum: sum };
    let proof = create_random_proof(witness, &params, &mut rng).unwrap();
    let mut proof_bytes = Vec::new();
    proof.write(&mut proof_bytes).unwrap();
    let mut key_bytes = Vec::new();
    params.vk.write(&mut key_bytes).unwrap();
    Fixture { proof: proof_bytes, key: key_bytes, a, b, sum }
}

#[test]
fn hashing_into_the_field() {
    assert_eq!(sha256_to_scalar(b"sha-A").to_bytes(), SHA_A);
    assert_eq!(sha256_to_scalar(b"sha-B").to_bytes(), SHA_B);
    let empty: [u8; 32] = [
        84, 184, 82, 120, 28, 153, 149, 164, 77, 55, 157, 100, 225, 157, 240, 211, 30, 225, 205,
        143, 192, 28, 194, 103, 204, 158, 94, 111, 239, 28, 195, 111,
    ];
    assert_eq!(sha256_to_scalar(b"").to_bytes(), empty);
    assert_eq!(sha256_to_scalar(b"sha-A").to_bytes(), sha256_to_scalar(b"sha-A").to_bytes());
}

#[test]
fn public_input_is_read_in_little_endian_and_reduced() {
    let e = public_input_from_hex(&hex::encode(SHA_A)).unwrap();
    assert_eq!(e.to_bytes(), SHA_A);
    let upper = hex::encode(SHA_A).to_uppercase();
    assert_eq!(public_input_from_hex(&upper).unwrap().to_bytes(), SHA_A);
    // 2^256 - 1 is reduced.
    let all = "ff".repeat(32);
    let reduced: [u8; 32] = [
        253, 255, 255, 255, 1, 0, 0, 0, 2, 72, 3, 0, 250, 183, 132, 88, 245, 79, 188, 236, 239, 79,
        140, 153, 111, 5, 197, 172, 89, 177, 36, 24,
    ];
    assert_eq!(public_input_from_hex(&all).unwrap().to_bytes(), reduced);
    // The field order itself is zero.
    assert_eq!(public_input_from_hex(&hex::encode(FIELD_ORDER)).unwrap().to_bytes(), [0u8; 32]);
    let mut one = "01".to_string();
    one.push_str(&"00".repeat(31));
    let mut expected = [0u8; 32];
    expected[0] = 1;
    assert_eq!(public_input_from_hex(&one).unwrap().to_bytes(), expected);
}

#[test]
fn public_input_of_another_shape_is_refused() {
    let refused = |t: &str| public_input_from_hex(t).err() == Some(CustomError::InvalidPublicInput);
    assert!(refused(""));
    assert!(refused(&"00".repeat(31)));
    assert!(refused(&"00".repeat(33)));
    assert!(refused(&"0".repeat(63)));
    assert!(refused(&"0".repeat(65)));
    let mut g = "0g".to_string();
    g.push_str(&"00".repeat(31));
    assert!(refused(&g));
    let mut prefixed = "0x".to_string();
    prefixed.push_str(&"00".repeat(31));
    assert!(refused(&prefixed));
    let mut wide = "é".to_string();
    wide.push_str(&"0".repeat(62));
    assert!(refused(&wide));
    let mut spaced = " ".to_string();
    spaced.push_str(&"0".repeat(63));
    assert!(refused(&spaced));
}

#[test]
fn wide_bytes_are_reduced_into_the_field() {
    let expected: [u8; 32] = [
        108, 156, 242, 243, 144, 233, 153, 201, 35, 92, 146, 135, 203, 237, 108, 43, 143, 57, 84,
        114, 150, 20, 211, 5, 17, 255, 89, 159, 217, 217, 72, 7,
    ];
    assert_eq!(FieldElement::from_bytes_wide(&[0xff; 64]).to_bytes(), expected);
    let mut order = [0u8; 64];
    order[..32].copy_from_slice(&FIELD_ORDER);
    assert_eq!(FieldElement::from_bytes_wide(&order).to_bytes(), [0u8; 32]);
}

#[test]
fn public_inputs_are_read_in_order() {
    let texts = vec![hex::encode(SHA_A), hex::encode(SHA_B)];
    let parsed = parse_public_inputs(&texts).unwrap();
    assert_eq!(parsed.len(), 2);
    assert_eq!(parsed[0].to_bytes(), SHA_A);
    assert_eq!(parsed[1].to_bytes(), SHA_B);
    assert_eq!(parse_public_inputs(&Vec::new()).unwrap().len(), 0);
    let texts = vec![hex::encode(SHA_A), "zz".to_string()];
    assert_eq!(parse_public_inputs(&texts).err(), Some(CustomError::InvalidPublicInput));
}

#[test]
fn first_failure_decides() {
    assert_eq!(snark_verdict(true, true, true, true), Ok(()));
    assert_eq!(snark_verdict(true, true, true, false), Err(CustomError::ProofVerificationFailed));
    assert_eq!(snark_verdict(true, true, false, true), Err(CustomError::VerifyingKeyMalformed));
    assert_eq!(snark_verdict(true, true, false, false), Err(CustomError::VerifyingKeyMalformed));
    assert_eq!(snark_verdict(true, false, true, true), Err(CustomError::InvalidPublicInput));
    assert_eq!(snark_verdict(true, false, false, false), Err(CustomError::InvalidPublicInput));
    assert_eq!(snark_verdict(false, true, true, true), Err(CustomError::ProofDeserializationFailed));
    assert_eq!(snark_verdict(false, false, false, false), Err(CustomError::ProofDeserializationFailed));
}

#[test]
fn proof_of_the_sum_is_accepted() {
    let f = fixture();
    assert_eq!(f.a.to_bytes(), SHA_A);
    assert_eq!(f.b.to_bytes(), SHA_B);
    assert_eq!(
        hex::encode(f.sum.to_bytes()),
        "15724fbe2b9872e4d5bc4d6e2959138c8cecb1444ab5620bfe66d7e08ddd1f06"
    );
    let inputs = vec![text(&f.a), text(&f.b), text(&f.sum)];
    assert_eq!(verify_zk_proof(&f.proof, &inputs, &f.key), Ok(()));
}

#[test]
fn altered_sum_is_refused() {
    let f = fixture();
    let plus_one = f.sum + Scalar::one();
    let inputs = vec![text(&f.a), text(&f.b), text(&plus_one)];
    assert_eq!(verify_zk_proof(&f.proof, &inputs, &f.key), Err(CustomError::ProofVerificationFailed));
    let minus_one = f.sum - Scalar::one();
    let inputs = vec![text(&f.a), text(&f.b), text(&minus_one)];
    assert_eq!(verify_zk_proof(&f.proof, &inputs, &f.key), Err(CustomError::ProofVerificationFailed));
    let inputs = vec![text(&f.b), text(&f.a), text(&f.sum)];
    assert_eq!(verify_zk_proof(&f.proof, &inputs, &f.key), Err(CustomError::ProofVerificationFailed));
}

#[test]
fn wrong_number_of_inputs_is_refused() {
    let f = fixture();
    let inputs = vec![text(&f.a), text(&f.b)];
    assert_eq!(verify_zk_proof(&f.proof, &inputs, &f.key), Err(CustomError::ProofVerificationFailed));
    let inputs: Vec<String> = Vec::new();
    assert_eq!(verify_zk_proof(&f.proof, &inputs, &f.key), Err(CustomError::ProofVerificationFailed));
}

#[test]
fn proof_under_another_key_is_refused() {
    let f = fixture();
    let g = fixture();
    let inputs = vec![text(&f.a), text(&f.b), text(&f.sum)];
    assert_eq!(verify_zk_proof(&f.proof, &inputs, &g.key), Err(CustomError::ProofVerificationFailed));
    assert_eq!(verify_zk_proof(&g.proof, &inputs, &g.key), Ok(()));
}

#[test]
fn malformed_material_is_refused_in_order() {
    let f = fixture();
    let inputs = vec![text(&f.a), text(&f.b), text(&f.sum)];
    let bad_inputs = vec![text(&f.a), "not hex".to_string(), text(&f.sum)];
    let short_proof = f.proof[..f.proof.len() - 1].to_vec();
    let junk_proof = vec![0xffu8; f.proof.len()];
    let short_key = f.key[..f.key.len() - 1].to_vec();
    let junk_key = vec![0xffu8; f.key.len()];

    assert_eq!(
        verify_zk_proof(&short_proof, &inputs, &f.key),
        Err(CustomError::ProofDeserializationFailed)
    );
    assert_eq!(
        verify_zk_proof(&junk_proof, &bad_inputs, &junk_key),
        Err(CustomError::ProofDeserializationFailed)
    );
    assert_eq!(
        verify_zk_proof(&Vec::new(), &inputs, &f.key),
        Err(CustomError::ProofDeserializationFailed)
    );
    assert_eq!(verify_zk_proof(&f.proof, &bad_inputs, &junk_key), Err(CustomError::InvalidPublicInput));
    assert_eq!(verify_zk_proof(&f.proof, &bad_inputs, &f.key), Err(CustomError::InvalidPublicInput));
    assert_eq!(verify_zk_proof(&f.proof, &inputs, &short_key), Err(CustomError::VerifyingKeyMalformed));
    assert_eq!(verify_zk_proof(&f.proof, &inputs, &junk_key), Err(CustomError::VerifyingKeyMalformed));
    assert_eq!(verify_zk_proof(&f.proof, &inputs, &[]), Err(CustomError::VerifyingKeyMalformed));
}

#[test]
fn trailing_bytes_behind_a_proof_are_not_read() {
    let f = fixture();
    let inputs = vec![text(&f.a), text(&f.b), text(&f.sum)];
    let mut longer = f.proof.clone();
    longer.push(0);
    assert_eq!(verify_zk_proof(&longer, &inputs, &f.key), Ok(()));
}

#[test]
fn vote_with_a_snark_proof() {
    let f = fixture();
    let opener = Pubkey { key: [7u8; 32] };
    let mut election = Election::new(1);
    assert_eq!(
        election.open(5, opener, Some(1), opener, "newSymbol".to_string(), "S".to_string(), String::new()),
        Ok(())
    );
    let mut ctx = Vote {
        election,
        authority: Pubkey { key: [1u8; 32] },
        token_account: Some(TokenAccount { owner: Pubkey { key: [1u8; 32] }, amount: 9 }),
        changable_token_account: ChangableTokenAccount {
            name: String::new(),
            symbol: String::new(),
            balance: 0,
        },
        user: User { pubkey: Pubkey::zero(), reward_points: 0 },
        verifying_key: VerifyingKey { key: f.key.clone() },
    };
    let altered = BallotProof::Snark {
        zk_proof: f.proof.clone(),
        public_inputs: vec![text(&f.a), text(&f.b), text(&(f.sum + Scalar::one()))],
    };
    assert_eq!(check_ballot_proof(&altered, &ctx.verifying_key), Err(CustomError::ProofVerificationFailed));
    assert_eq!(vote(&mut ctx, false, &altered), Err(CustomError::ProofVerificationFailed));
    assert_eq!(ctx.election.current, 0);
    assert!(ctx.election.voters.is_empty());
    let good = BallotProof::Snark {
        zk_proof: f.proof.clone(),
        public_inputs: vec![text(&f.a), text(&f.b), text(&f.sum)],
    };
    assert_eq!(check_ballot_proof(&good, &ctx.verifying_key), Ok(()));
    assert_eq!(vote(&mut ctx, false, &good), Ok(()));
    assert_eq!(ctx.election.current, -9);
    assert_eq!(ctx.election.number_of_votes, 1);
    assert_eq!(vote(&mut ctx, false, &good), Err(CustomError::AlreadyVoted));
}

#[test]
fn field_elements_add_modulo_the_order() {
    let a = sha256_to_scalar(b"sha-A");
    let b = sha256_to_scalar(b"sha-B");
    let sum = a.add(&b);
    assert_eq!(
        hex::encode(sum.to_bytes()),
        "15724fbe2b9872e4d5bc4d6e2959138c8cecb1444ab5620bfe66d7e08ddd1f06"
    );
    assert_eq!(sum.to_bytes(), (scalar(&a) + scalar(&b)).to_bytes());
    assert_eq!(b.add(&a).to_bytes(), sum.to_bytes());
    // The order less one, and one more, is zero.
    let mut below = FIELD_ORDER;
    below[0] -= 1;
    let top = public_input_from_hex(&hex::encode(below)).unwrap();
    assert_eq!(top.to_bytes(), below);
    let mut one_text = "01".to_string();
    one_text.push_str(&"00".repeat(31));
    let one = public_input_from_hex(&one_text).unwrap();
    assert_eq!(top.add(&one).to_bytes(), [0u8; 32]);
    let mut two = [0u8; 32];
    two[0] = 2;
    assert_eq!(one.add(&one).to_bytes(), two);
    // Twice the order less one is the order less two.
    let below_two: [u8; 32] = [
        255, 255, 255, 255, 254, 255, 255, 255, 254, 91, 254, 255, 2, 164, 189, 83, 5, 216, 161, 9,
        8, 216, 57, 51, 72, 125, 157, 41, 83, 167, 237, 115,
    ];
    assert_eq!(top.add(&top).to_bytes(), below_two);
}

#[test]
fn public_input_is_written_as_it_is_read() {
    let a = sha256_to_scalar(b"sha-A");
    let text = public_input_to_hex(&a);
    assert_eq!(text, "17c9808fa1c7ca33ce23a9130811e5304fb93bb1f34b274b315a77573c136453");
    assert_eq!(text, hex::encode(SHA_A));
    assert_eq!(text.len(), 64);
    assert_eq!(public_input_from_hex(&text).unwrap().to_bytes(), a.to_bytes());
    let zero = FieldElement::from_bytes_wide(&[0u8; 64]);
    assert_eq!(public_input_to_hex(&zero), "0".repeat(64));
    let wide = FieldElement::from_bytes_wide(&[0xff; 64]);
    let back = public_input_from_hex(&public_input_to_hex(&wide)).unwrap();
    assert_eq!(back.to_bytes(), wide.to_bytes());
}

#[test]
fn proof_for_inputs_written_by_the_library() {
    let f = fixture();
    let a = sha256_to_scalar(b"sha-A");
    let b = sha256_to_scalar(b"sha-B");
    let inputs = vec![public_input_to_hex(&a), public_input_to_hex(&b), public_input_to_hex(&a.add(&b))];
    assert_eq!(verify_zk_proof(&f.proof, &inputs, &f.key), Ok(()));
    let inputs = vec![public_input_to_hex(&a), public_input_to_hex(&b), public_input_to_hex(&a.add(&a))];
    assert_eq!(verify_zk_proof(&f.proof, &inputs, &f.key), Err(CustomError::ProofVerificationFailed));
}
