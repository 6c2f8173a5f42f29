//! The five operations of the voting program: opening a poll, voting,
//! summing up, reading the results and closing. Each takes the records that
//! it works on in one context value, together with the current time where
//! it needs it, and either completes or changes nothing.
use vstd::prelude::*;
use crate::election::{cleared, opened, vote_recorded, Election, ElectionState};
use crate::elgamal::{encrypt, is_encryption, ElGamalCiphertext, ElGamalPubkey};
use crate::errors::CustomError;
use crate::executor::{apply, kind_of, proposal_kind, ChangableTokenAccount, ProposalKind};
use crate::group::ristretto_index;
use crate::identity::Pubkey;
use crate::scalar::group_order;
use crate::sigma::{
    generate_vote_proof, is_proof, lemma_honest_proof_accepted, proof_accepts, verify_vote_proof,
    VoteProof,
};
use crate::snark::{snark_outcome, verify_zk_proof};

verus! {

/// A holder's balance record in the token ledger.
#[derive(Clone, Copy, Debug)]
pub struct TokenAccount {
    pub owner: Pubkey,
    pub amount: u64,
}

/// A serialized Groth16 verifying key, stored once and not changed.
#[derive(Clone, Debug)]
pub struct VerifyingKey {
    pub key: Vec<u8>,
}

/// A voter's participation record.
#[derive(Clone, Copy, Debug)]
pub struct User {
    pub pubkey: Pubkey,
    pub reward_points: u64,
}

/// The proof material that comes with a ballot.
#[derive(Clone, Debug)]
pub enum BallotProof {
    /// The ballot comes without a proof.
    Unproved,
    /// The ballot comes encrypted, with a Sigma proof of the encryption.
    Sigma { proof: VoteProof, ciphertext: ElGamalCiphertext, public_key: ElGamalPubkey },
    /// The ballot comes with a Groth16 proof and its public inputs.
    Snark { zk_proof: Vec<u8>, public_inputs: Vec<String> },
}

/// The records that opening a poll works on.
#[derive(Clone, Debug)]
pub struct NewPolling {
    pub election: Election,
    pub authority: Pubkey,
    pub token_account: Option<TokenAccount>,
    pub changable_token_account: ChangableTokenAccount,
    pub verifying_key: VerifyingKey,
    pub now: i64,
}

/// The records that casting a ballot works on.
#[derive(Clone, Debug)]
pub struct Vote {
    pub election: Election,
    pub authority: Pubkey,
    pub token_account: Option<TokenAccount>,
    pub changable_token_account: ChangableTokenAccount,
    pub user: User,
    pub verifying_key: VerifyingKey,
}

/// The records that summing up works on.
#[derive(Clone, Debug)]
pub struct ToSumUp {
    pub election: Election,
    pub authority: Pubkey,
    pub token_account: Option<TokenAccount>,
    pub changable_token_account: ChangableTokenAccount,
    pub now: i64,
}

/// The record that reading the results works on.
#[derive(Clone, Debug)]
pub struct GetResults {
    pub election: Election,
}

/// The records that closing works on.
#[derive(Clone, Debug)]
pub struct CloseElection {
    pub election: Election,
    pub authority: Pubkey,
    pub changable_token_account: ChangableTokenAccount,
}

/// The voting weight that a balance record gives: its amount, or nothing
/// where there is no record.
pub open spec fn weight_of(account: Option<TokenAccount>) -> Option<u64> {
    match account {
        Some(a) => Some(a.amount),
        None => None,
    }
}

/// The verdict on a ballot's proof material under a stored verifying key.
pub open spec fn gate_outcome(ballot: BallotProof, key: Seq<u8>) -> Result<(), CustomError> {
    match ballot {
        BallotProof::Unproved => Ok(()),
        BallotProof::Sigma { proof, ciphertext, public_key } => if proof_accepts(
            proof,
            ciphertext,
            public_key,
        ) {
            Ok(())
        } else {
            Err(CustomError::InvalidProof)
        },
        BallotProof::Snark { zk_proof, public_inputs } => snark_outcome(
            zk_proof@,
            public_inputs@,
            key,
        ),
    }
}

/// What casting a ballot returns: the first refusal among the election's
/// own admission, the room in the voter's participation record, and the
/// verdict on the proof.
pub open spec fn vote_outcome(ctx: Vote, vote: bool, ballot: BallotProof) -> Result<
    (),
    CustomError,
> {
    match ctx.election.vote_admission(ctx.authority, weight_of(ctx.token_account), vote) {
        Err(e) => Err(e),
        Ok(_) => if ctx.user.reward_points == u64::MAX {
            Err(CustomError::Overflow)
        } else {
            gate_outcome(ballot, ctx.verifying_key.key@)
        },
    }
}

/// What summing up returns: whether the proposal passed, where summing up
/// is admitted.
pub open spec fn sum_up_outcome(ctx: ToSumUp) -> Result<bool, CustomError> {
    match ctx.election.sum_up_admission(ctx.now) {
        Err(e) => Err(e),
        Ok(_) => Ok(ctx.election.passed()),
    }
}

/// Looks up the balance in a token record. A holder without a record has
/// no weight to look up.
pub fn get_token_balance(account: &Option<TokenAccount>) -> (r: Result<u64, CustomError>)
    ensures
        r == (match weight_of(*account) {
            Some(w) => Ok::<u64, CustomError>(w),
            None => Err::<u64, CustomError>(CustomError::LookupFailed),
        }),
{
    match account {
        Some(a) => Ok(a.amount),
        None => Err(CustomError::LookupFailed),
    }
}

/// Checks the proof material of a ballot.
pub fn check_ballot_proof(ballot: &BallotProof, verifying_key: &VerifyingKey) -> (r: Result<
    (),
    CustomError,
>)
    ensures
        r == gate_outcome(*ballot, verifying_key.key@),
{
    match ballot {
        BallotProof::Unproved => Ok(()),
        BallotProof::Sigma { proof, ciphertext, public_key } => {
            if verify_vote_proof(proof, ciphertext, public_key) {
                Ok(())
            } else {
                Err(CustomError::InvalidProof)
            }
        },
        BallotProof::Snark { zk_proof, public_inputs } => verify_zk_proof(
            zk_proof,
            public_inputs,
            verifying_key.key.as_slice(),
        ),
    }
}

/// Encrypts a vote under the election's key and proves the encryption,
/// with fresh randomness. The ballot that comes back passes the check of
/// its proof.
pub fn seal_ballot(vote: bool, public_key: &ElGamalPubkey) -> (r: Result<BallotProof, CustomError>)
    ensures
        r.is_ok() <==> ristretto_index(public_key.point@) is Some,
        r.is_err() ==> r.unwrap_err() == CustomError::DecodeError,
        r.is_ok() ==> r.unwrap() is Sigma && r.unwrap()->public_key == *public_key,
        r.is_ok() ==> exists|k: nat| is_encryption(r.unwrap()->ciphertext, vote, *public_key, k),
        r.is_ok() ==> forall|key: Seq<u8>| #[trigger]
            gate_outcome(r.unwrap(), key) == Ok::<(), CustomError>(()),
{
    let (ciphertext, randomness) = match encrypt(vote, public_key) {
        Ok(pair) => pair,
        Err(e) => {
            return Err(e);
        },
    };
    let proof = match generate_vote_proof(vote, randomness, public_key) {
        Ok(p) => p,
        Err(e) => {
            return Err(e);
        },
    };
    proof {
        let (w1, w2) = choose|w1: nat, w2: nat|
            w1 < group_order() && w2 < group_order() && is_proof(
                proof,
                vote,
                randomness.value(),
                *public_key,
                w1,
                w2,
            );
        lemma_honest_proof_accepted(
            proof,
            ciphertext,
            *public_key,
            vote,
            randomness.value(),
            w1,
            w2,
        );
    }
    Ok(BallotProof::Sigma { proof, ciphertext, public_key: *public_key })
}

/// Opens a poll on a proposal: the election must be inactive and the
/// caller must hold weight.
pub fn new_polling(
    ctx: &mut NewPolling,
    token: Pubkey,
    proposal_voting: String,
    value: String,
    additional_value: String,
) -> (r: Result<(), CustomError>)
    ensures
        r == old(ctx).election.open_admission(weight_of(old(ctx).token_account)),
        r.is_ok() ==> opened(
            old(ctx).election,
            final(ctx).election,
            old(ctx).now,
            old(ctx).authority,
            token,
            proposal_voting@,
            value@,
            additional_value@,
        ),
        r.is_err() ==> final(ctx).election == old(ctx).election,
        old(ctx).election.wf() ==> final(ctx).election.wf(),
        *final(ctx) == (NewPolling { election: final(ctx).election, ..*old(ctx) }),
{
    let weight = match get_token_balance(&ctx.token_account) {
        Ok(w) => Some(w),
        Err(_) => None,
    };
    let now = ctx.now;
    let creator = ctx.authority;
    ctx.election.open(now, creator, weight, token, proposal_voting, value, additional_value)
}

/// Casts a ballot: the election must be open, the caller must hold weight
/// and must not have voted, and the ballot's proof must pass. The tally
/// moves by the caller's weight, and the caller's participation record
/// gains a point.
pub fn vote(ctx: &mut Vote, choice: bool, ballot: &BallotProof) -> (r: Result<(), CustomError>)
    ensures
        r == vote_outcome(*old(ctx), choice, *ballot),
        r.is_ok() ==> vote_recorded(
            old(ctx).election,
            final(ctx).election,
            old(ctx).authority,
            weight_of(old(ctx).token_account).unwrap(),
            choice,
        ),
        r.is_ok() ==> final(ctx).user == (User {
            pubkey: old(ctx).authority,
            reward_points: (old(ctx).user.reward_points + 1) as u64,
        }),
        r.is_err() ==> *final(ctx) == *old(ctx),
        old(ctx).election.wf() ==> final(ctx).election.wf(),
        *final(ctx) == (Vote { election: final(ctx).election, user: final(ctx).user, ..*old(ctx) }),
{
    let weight = match get_token_balance(&ctx.token_account) {
        Ok(w) => Some(w),
        Err(_) => None,
    };
    let voter = ctx.authority;
    match ctx.election.check_vote(&voter, weight, choice) {
        Ok(_) => {},
        Err(e) => {
            return Err(e);
        },
    }
    if ctx.user.reward_points == u64::MAX {
        return Err(CustomError::Overflow);
    }
    let gate = check_ballot_proof(ballot, &ctx.verifying_key);
    let cast = ctx.election.cast_vote(voter, weight, choice, gate);
    if cast.is_ok() {
        ctx.user.pubkey = voter;
        ctx.user.reward_points = ctx.user.reward_points + 1;
    }
    cast
}

/// Sums up: the election must be open, and the voting window must have
/// passed or the quorum be reached. A proposal whose tally is above zero
/// is applied to the token record. The election is then cleared and
/// inactive.
pub fn to_sum_up(ctx: &mut ToSumUp) -> (r: Result<bool, CustomError>)
    ensures
        r == sum_up_outcome(*old(ctx)),
        r.is_err() ==> *final(ctx) == *old(ctx),
        r.is_ok() ==> cleared(old(ctx).election, final(ctx).election),
        r.is_ok() ==> final(ctx).election.wf() && final(ctx).election.state()
            == ElectionState::Inactive,
        final(ctx).changable_token_account.balance == old(ctx).changable_token_account.balance,
        final(ctx).changable_token_account.symbol@ == (if r == Ok::<bool, CustomError>(true)
            && kind_of(old(ctx).election.proposal_voting@) == ProposalKind::RenameSymbol {
            old(ctx).election.value@
        } else {
            old(ctx).changable_token_account.symbol@
        }),
        final(ctx).changable_token_account.name@ == (if r == Ok::<bool, CustomError>(true)
            && kind_of(old(ctx).election.proposal_voting@) == ProposalKind::RenameName {
            old(ctx).election.value@
        } else {
            old(ctx).changable_token_account.name@
        }),
        *final(ctx) == (ToSumUp {
            election: final(ctx).election,
            changable_token_account: final(ctx).changable_token_account,
            ..*old(ctx)
        }),
{
    match ctx.election.check_sum_up(ctx.now) {
        Ok(()) => {},
        Err(e) => {
            return Err(e);
        },
    }
    let passed = ctx.election.has_passed();
    if passed {
        let kind = proposal_kind(&ctx.election.proposal_voting);
        let new_value = ctx.election.value.clone();
        let _ = apply(&mut ctx.changable_token_account, kind, new_value);
    }
    ctx.election.reset();
    Ok(passed)
}

/// Reads the tally and the number of votes.
pub fn get_results(ctx: &GetResults) -> (r: (i64, u64))
    ensures
        r == (ctx.election.current, ctx.election.number_of_votes),
{
    (ctx.election.current, ctx.election.number_of_votes)
}

/// Admits closing where the election is inactive; the caller then
/// releases the records.
pub fn close_election(ctx: &CloseElection) -> (r: Result<(), CustomError>)
    ensures
        r == (if ctx.election.vote_active {
            Err::<(), CustomError>(CustomError::VoteActive)
        } else {
            Ok::<(), CustomError>(())
        }),
{
    if ctx.election.vote_active {
        Err(CustomError::VoteActive)
    } else {
        Ok(())
    }
}

} // verus!
