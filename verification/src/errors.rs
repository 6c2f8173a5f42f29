//! The error kinds that the operations report.
use vstd::prelude::*;

verus! {

/// Why an operation was rejected.
#[derive(Clone, Copy, Debug, PartialEq, Eq, Structural)]
pub enum CustomError {
    /// An election is already open.
    VoteActive,
    /// No election is open.
    VoteInactive,
    /// The caller holds no voting weight.
    InsufficientBalance,
    /// Neither the voting window has elapsed nor the quorum been reached.
    VotingTime,
    /// The caller has already voted in this election.
    AlreadyVoted,
    /// The caller has no balance record.
    LookupFailed,
    /// The Groth16 proof could not be read.
    ProofDeserializationFailed,
    /// The verifying key could not be read.
    VerifyingKeyMalformed,
    /// A public input is not 32 hex-encoded bytes.
    InvalidPublicInput,
    /// The Groth16 proof does not verify.
    ProofVerificationFailed,
    /// The Sigma proof does not verify.
    InvalidProof,
    /// Bytes are not the canonical encoding of a point or scalar.
    DecodeError,
    /// A ciphertext decrypts to neither of the two ballot values.
    DecryptionAmbiguous,
    /// The tally or a counter would leave the range of its integer type.
    Overflow,
}

impl CustomError {
    /// The sentence that goes with an error.
    pub open spec fn message_of(self) -> Seq<char> {
        match self {
            CustomError::VoteActive => "Vote is already active."@,
            CustomError::VoteInactive => "Vote is not active."@,
            CustomError::InsufficientBalance => "Insufficient balance."@,
            CustomError::VotingTime => "Voting time has not ended or minimum votes not reached."@,
            CustomError::AlreadyVoted => "User has already voted."@,
            CustomError::LookupFailed => "No balance record."@,
            CustomError::ProofDeserializationFailed => "Proof deserialization failed."@,
            CustomError::VerifyingKeyMalformed => "Verifying key is malformed."@,
            CustomError::InvalidPublicInput => "Invalid public input."@,
            CustomError::ProofVerificationFailed => "Proof verification failed."@,
            CustomError::InvalidProof => "Invalid vote proof."@,
            CustomError::DecodeError => "Malformed point or scalar."@,
            CustomError::DecryptionAmbiguous => "Ciphertext decrypts to no ballot value."@,
            CustomError::Overflow => "Tally out of range."@,
        }
    }

    /// The sentence that goes with the error.
    pub fn message(&self) -> (r: &'static str)
        ensures
            r@ == self.message_of(),
    {
        match self {
            CustomError::VoteActive => "Vote is already active.",
            CustomError::VoteInactive => "Vote is not active.",
            CustomError::InsufficientBalance => "Insufficient balance.",
            CustomError::VotingTime => "Voting time has not ended or minimum votes not reached.",
            CustomError::AlreadyVoted => "User has already voted.",
            CustomError::LookupFailed => "No balance record.",
            CustomError::ProofDeserializationFailed => "Proof deserialization failed.",
            CustomError::VerifyingKeyMalformed => "Verifying key is malformed.",
            CustomError::InvalidPublicInput => "Invalid public input.",
            CustomError::ProofVerificationFailed => "Proof verification failed.",
            CustomError::InvalidProof => "Invalid vote proof.",
            CustomError::DecodeError => "Malformed point or scalar.",
            CustomError::DecryptionAmbiguous => "Ciphertext decrypts to no ballot value.",
            CustomError::Overflow => "Tally out of range.",
        }
    }
}

} // verus!
