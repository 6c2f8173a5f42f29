//! The Groth16 proof gate: a serialized proof is checked against a
//! serialized verifying key and a vector of public inputs.
use vstd::prelude::*;
use crate::errors::CustomError;
use crate::field::{public_input_from_hex, public_input_value, FieldElement};

verus! {

/// Whether `bellman::groth16::Proof::<Bls12>::read` accepts `bytes`.
pub uninterp spec fn groth16_proof_parses(bytes: Seq<u8>) -> bool;

/// Whether `bellman::groth16::VerifyingKey::<Bls12>::read` accepts `bytes`.
pub uninterp spec fn groth16_key_parses(bytes: Seq<u8>) -> bool;

/// Whether `bellman::groth16::verify_proof` accepts the proof read from
/// `proof` under the key read from `key`, prepared, for the public inputs
/// `inputs`.
pub uninterp spec fn groth16_verifies(key: Seq<u8>, proof: Seq<u8>, inputs: Seq<nat>) -> bool;

/// Reads a proof with `bellman::groth16::Proof::read` and reports whether
/// one came back.
#[verifier::external_body]
fn proof_parses(bytes: &[u8]) -> (ok: bool)
    ensures
        ok == groth16_proof_parses(bytes@),
{
    bellman::groth16::Proof::<bls12_381::Bls12>::read(bytes).is_ok()
}

/// Reads a verifying key with `bellman::groth16::VerifyingKey::read` and
/// reports whether one came back.
#[verifier::external_body]
fn key_parses(bytes: &[u8]) -> (ok: bool)
    ensures
        ok == groth16_key_parses(bytes@),
{
    bellman::groth16::VerifyingKey::<bls12_381::Bls12>::read(bytes).is_ok()
}

/// Prepares the key with `bellman::groth16::prepare_verifying_key` and
/// runs `bellman::groth16::verify_proof`. The contract gives the verdict
/// its name.
#[verifier::external_body]
fn pairing_check(key: &[u8], proof: &[u8], inputs: &Vec<FieldElement>) -> (ok: bool)
    requires
        groth16_key_parses(key@),
        groth16_proof_parses(proof@),
        forall|i: int| 0 <= i < inputs@.len() ==> (#[trigger] inputs@[i]).wf(),
    ensures
        ok == groth16_verifies(key@, proof@, input_values(inputs@)),
{
    let vk = bellman::groth16::VerifyingKey::<bls12_381::Bls12>::read(key).unwrap();
    let proof = bellman::groth16::Proof::<bls12_381::Bls12>::read(proof).unwrap();
    let scalars: Vec<bls12_381::Scalar> =
        inputs.iter().map(|x| bls12_381::Scalar::from_bytes(&x.to_bytes()).unwrap()).collect();
    let pvk = bellman::groth16::prepare_verifying_key(&vk);
    bellman::groth16::verify_proof(&pvk, &proof, &scalars).is_ok()
}

/// The integers that field elements stand for.
pub open spec fn input_values(inputs: Seq<FieldElement>) -> Seq<nat> {
    inputs.map_values(|e: FieldElement| e.value())
}

/// Every one of `texts` spells a public input.
pub open spec fn public_inputs_valid(texts: Seq<String>) -> bool {
    forall|i: int| 0 <= i < texts.len() ==> public_input_value((#[trigger] texts[i])@) is Some
}

/// The field elements that `texts` spell.
pub open spec fn public_input_values(texts: Seq<String>) -> Seq<nat> {
    texts.map_values(|t: String| public_input_value(t@).unwrap())
}

/// What the four steps of the check amount to: the first failure, in the
/// order proof, public inputs, verifying key, pairing check, decides.
pub open spec fn verdict(proof_ok: bool, inputs_ok: bool, key_ok: bool, accepted: bool) -> Result<
    (),
    CustomError,
> {
    if !proof_ok {
        Err(CustomError::ProofDeserializationFailed)
    } else if !inputs_ok {
        Err(CustomError::InvalidPublicInput)
    } else if !key_ok {
        Err(CustomError::VerifyingKeyMalformed)
    } else if !accepted {
        Err(CustomError::ProofVerificationFailed)
    } else {
        Ok(())
    }
}

/// What checking a serialized proof against public inputs and a
/// serialized verifying key returns.
pub open spec fn snark_outcome(proof: Seq<u8>, inputs: Seq<String>, key: Seq<u8>) -> Result<
    (),
    CustomError,
> {
    verdict(
        groth16_proof_parses(proof),
        public_inputs_valid(inputs),
        groth16_key_parses(key),
        groth16_verifies(key, proof, public_input_values(inputs)),
    )
}

/// Reads every public input; the first that is not the hex encoding of 32
/// bytes makes the whole vector an `InvalidPublicInput`.
pub fn parse_public_inputs(texts: &Vec<String>) -> (r: Result<Vec<FieldElement>, CustomError>)
    ensures
        r.is_ok() <==> public_inputs_valid(texts@),
        r.is_ok() ==> input_values(r.unwrap()@) == public_input_values(texts@),
        r.is_ok() ==> forall|i: int|
            0 <= i < r.unwrap()@.len() ==> (#[trigger] r.unwrap()@[i]).wf(),
        r.is_err() ==> r.unwrap_err() == CustomError::InvalidPublicInput,
{
    let mut out: Vec<FieldElement> = Vec::new();
    let mut i: usize = 0;
    while i < texts.len()
        invariant
            i <= texts@.len(),
            out@.len() == i,
            forall|j: int| 0 <= j < i ==> public_input_value((#[trigger] texts@[j])@) is Some,
            forall|j: int|
                0 <= j < i ==> (#[trigger] out@[j]).wf() && out@[j].value() == public_input_value(
                    texts@[j]@,
                ).unwrap(),
        decreases texts@.len() - i,
    {
        match public_input_from_hex(texts[i].as_str()) {
            Ok(e) => {
                out.push(e);
            },
            Err(_) => {
                return Err(CustomError::InvalidPublicInput);
            },
        }
        i += 1;
    }
    proof {
        assert(input_values(out@) =~= public_input_values(texts@));
    }
    Ok(out)
}

/// Decides from what the four steps found.
pub fn snark_verdict(proof_ok: bool, inputs_ok: bool, key_ok: bool, accepted: bool) -> (r: Result<
    (),
    CustomError,
>)
    ensures
        r == verdict(proof_ok, inputs_ok, key_ok, accepted),
{
    if !proof_ok {
        Err(CustomError::ProofDeserializationFailed)
    } else if !inputs_ok {
        Err(CustomError::InvalidPublicInput)
    } else if !key_ok {
        Err(CustomError::VerifyingKeyMalformed)
    } else if !accepted {
        Err(CustomError::ProofVerificationFailed)
    } else {
        Ok(())
    }
}

/// Checks a serialized Groth16 proof against a serialized verifying key
/// and hex-encoded public inputs.
pub fn verify_zk_proof(zk_proof: &Vec<u8>, public_inputs: &Vec<String>, verifying_key: &[u8]) -> (r:
    Result<(), CustomError>)
    ensures
        r == snark_outcome(zk_proof@, public_inputs@, verifying_key@),
{
    let proof_ok = proof_parses(zk_proof.as_slice());
    let inputs = parse_public_inputs(public_inputs);
    let key_ok = key_parses(verifying_key);
    match inputs {
        Ok(scalars) => {
            let accepted = proof_ok && key_ok && pairing_check(
                verifying_key,
                zk_proof.as_slice(),
                &scalars,
            );
            snark_verdict(proof_ok, true, key_ok, accepted)
        },
        Err(_) => snark_verdict(proof_ok, false, key_ok, false),
    }
}

} // verus!
