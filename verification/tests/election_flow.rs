use dao_voting::election::{Election, VOTING_WINDOW};
use dao_voting::errors::CustomError;
use dao_voting::executor::{apply, proposal_kind, ChangableToken, ChangableTokenAccount, ProposalKind};
use dao_voting::identity::Pubkey;
use dao_voting::voting::{
    check_ballot_proof, close_election, get_results, get_token_balance, new_polling, to_sum_up,
    vote, BallotProof, CloseElection, GetResults, NewPolling, ToSumUp, TokenAccount, User,
    VerifyingKey, Vote,
};

fn key(tag: u8) -> Pubkey {
    let mut bytes = [0u8; 32];
    bytes[0] = tag;
    Pubkey { key: bytes }
}

fn token_record() -> ChangableTokenAccount {
    ChangableTokenAccount { name: "Old Name".to_string(), symbol: "OLD".to_string(), balance: 1000 }
}

fn holder(tag: u8, amount: u64) -> Option<TokenAccount> {
    Some(TokenAccount { owner: key(tag), amount })
}

fn open_election(quorum: u64, proposal: &str, value: &str, now: i64) -> Election {
    let mut ctx = NewPolling {
        election: Election::new(quorum),
        authority: key(100),
        token_account: holder(100, 1),
        changable_token_account: token_record(),
        verifying_key: VerifyingKey { key: Vec::new() },
        now,
    };
    let r = new_polling(&mut ctx, key(200), proposal.to_string(), value.to_string(), "aux".to_string());
    assert_eq!(r, Ok(()));
    ctx.election
}

fn cast(election: Election, tag: u8, amount: u64, choice: bool) -> (Election, Result<(), CustomError>, User) {
    let mut ctx = Vote {
        election,
        authority: key(tag),
        token_account: holder(tag, amount),
        changable_token_account: token_record(),
        user: User { pubkey: Pubkey::zero(), reward_points: 0 },
        verifying_key: VerifyingKey { key: Vec::new() },
    };
    let r = vote(&mut ctx, choice, &BallotProof::Unproved);
    (ctx.election, r, ctx.user)
}

#[test]
fn vote_before_open_is_refused() {
    let mut election = Election::new(3);
    let r = election.cast_vote(key(1), Some(10), true, Ok(()));
    assert_eq!(r, Err(CustomError::VoteInactive));
    assert!(election.voters.is_empty());
    assert_eq!(election.current, 0);
    assert_eq!(election.number_of_votes, 0);

    let (election, r, user) = cast(Election::new(3), 1, 10, true);
    assert_eq!(r, Err(CustomError::VoteInactive));
    assert!(election.voters.is_empty());
    assert_eq!(user.reward_points, 0);
}

#[test]
fn new_election_is_inactive_and_empty() {
    let e = Election::new(7);
    assert!(!e.vote_active);
    assert_eq!(e.min_votes, 7);
    assert_eq!(e.current, 0);
    assert_eq!(e.number_of_votes, 0);
    assert_eq!(e.count(), 0);
    assert_eq!(e.id, 0);
    assert_eq!(e.time, 0);
    assert_eq!(e.token.key, [0u8; 32]);
    assert_eq!(e.creator.key, [0u8; 32]);
    assert!(e.proposal_voting.is_empty() && e.value.is_empty() && e.additional_value.is_empty());
    assert!(e.voters.is_empty());
}

#[test]
fn opening_sets_the_proposal() {
    let e = open_election(3, "newSymbol", "NEW", 1_700_000_000);
    assert!(e.vote_active);
    assert_eq!(e.id, 1_700_000_000u64);
    assert_eq!(e.time, 1_700_000_000);
    assert_eq!(e.token.key, key(200).key);
    assert_eq!(e.creator.key, key(100).key);
    assert_eq!(e.proposal_voting, "newSymbol");
    assert_eq!(e.value, "NEW");
    assert_eq!(e.additional_value, "aux");
    assert_eq!(e.min_votes, 3);
    assert_eq!(e.current, 0);
    assert_eq!(e.number_of_votes, 0);
}

#[test]
fn opening_at_a_negative_time_wraps_the_identifier() {
    let e = open_election(0, "other", "x", -1);
    assert_eq!(e.id, u64::MAX);
    assert_eq!(e.time, -1);
    let e = open_election(0, "other", "x", i64::MIN);
    assert_eq!(e.id, 0x8000_0000_0000_0000u64);
}

#[test]
fn opening_twice_is_refused() {
    let e = open_election(3, "newSymbol", "NEW", 10);
    let mut ctx = NewPolling {
        election: e,
        authority: key(101),
        token_account: holder(101, 5),
        changable_token_account: token_record(),
        verifying_key: VerifyingKey { key: Vec::new() },
        now: 20,
    };
    let r = new_polling(&mut ctx, key(201), "newName".to_string(), "N".to_string(), String::new());
    assert_eq!(r, Err(CustomError::VoteActive));
    assert_eq!(ctx.election.time, 10);
    assert_eq!(ctx.election.proposal_voting, "newSymbol");
    assert_eq!(ctx.election.creator.key, key(100).key);
}

#[test]
fn opening_without_weight_is_refused() {
    let mut ctx = NewPolling {
        election: Election::new(1),
        authority: key(1),
        token_account: holder(1, 0),
        changable_token_account: token_record(),
        verifying_key: VerifyingKey { key: Vec::new() },
        now: 5,
    };
    let r = new_polling(&mut ctx, key(2), "newName".to_string(), "N".to_string(), String::new());
    assert_eq!(r, Err(CustomError::InsufficientBalance));
    assert!(!ctx.election.vote_active);

    ctx.token_account = None;
    let r = new_polling(&mut ctx, key(2), "newName".to_string(), "N".to_string(), String::new());
    assert_eq!(r, Err(CustomError::LookupFailed));
    assert!(!ctx.election.vote_active);
    assert!(ctx.election.proposal_voting.is_empty());
}

#[test]
fn balance_lookup() {
    assert_eq!(get_token_balance(&holder(1, 42)), Ok(42));
    assert_eq!(get_token_balance(&None), Err(CustomError::LookupFailed));
}

#[test]
fn weighted_votes_are_tallied() {
    let e = open_election(3, "newSymbol", "NEW", 1000);
    let (e, r, user) = cast(e, 1, 10, true);
    assert_eq!(r, Ok(()));
    assert_eq!(user.reward_points, 1);
    assert_eq!(user.pubkey.key, key(1).key);
    assert_eq!(e.current, 10);
    let (e, r, _) = cast(e, 2, 20, false);
    assert_eq!(r, Ok(()));
    assert_eq!(e.current, -10);
    let (e, r, _) = cast(e, 3, 5, true);
    assert_eq!(r, Ok(()));
    assert_eq!(e.current, -5);
    assert_eq!(e.number_of_votes, 3);
    assert_eq!(e.count(), 3);
    assert_eq!(e.voters.len(), 3);
    assert_eq!(e.voters[0].key, key(1).key);
    assert_eq!(e.voters[1].key, key(2).key);
    assert_eq!(e.voters[2].key, key(3).key);
    assert!(e.has_voted(&key(2)));
    assert!(!e.has_voted(&key(4)));

    assert_eq!(get_results(&GetResults { election: e.clone() }), (-5, 3));

    // The quorum is reached and the window has not passed.
    let mut ctx = ToSumUp {
        election: e,
        authority: key(100),
        token_account: holder(100, 1),
        changable_token_account: token_record(),
        now: 1000,
    };
    assert_eq!(to_sum_up(&mut ctx), Ok(false));
    assert_eq!(ctx.changable_token_account.symbol, "OLD");
    assert_eq!(ctx.changable_token_account.name, "Old Name");
    assert_eq!(ctx.changable_token_account.balance, 1000);
    assert!(!ctx.election.vote_active);
    assert_eq!(ctx.election.current, 0);
    assert_eq!(ctx.election.number_of_votes, 0);
    assert!(ctx.election.voters.is_empty());
    assert!(ctx.election.proposal_voting.is_empty());
    assert!(ctx.election.value.is_empty());
    assert!(ctx.election.additional_value.is_empty());
    assert_eq!(ctx.election.min_votes, 3);
    assert_eq!(ctx.election.time, 1000);
    assert_eq!(ctx.election.id, 1000);
    assert_eq!(get_results(&GetResults { election: ctx.election.clone() }), (0, 0));
}

#[test]
fn second_vote_of_a_voter_is_refused() {
    let e = open_election(5, "newName", "N", 0);
    let (e, r, _) = cast(e, 9, 30, true);
    assert_eq!(r, Ok(()));
    let (e, r, user) = cast(e, 9, 30, false);
    assert_eq!(r, Err(CustomError::AlreadyVoted));
    assert_eq!(user.reward_points, 0);
    assert_eq!(e.current, 30);
    assert_eq!(e.number_of_votes, 1);
    assert_eq!(e.voters.len(), 1);
    // Without weight the second ballot is refused for that reason first.
    let (e, r, _) = cast(e, 9, 0, true);
    assert_eq!(r, Err(CustomError::InsufficientBalance));
    assert_eq!(e.current, 30);
}

#[test]
fn vote_without_weight_is_refused() {
    let e = open_election(5, "newName", "N", 0);
    let (e, r, _) = cast(e, 1, 0, true);
    assert_eq!(r, Err(CustomError::InsufficientBalance));
    assert_eq!(e.number_of_votes, 0);
    let mut ctx = Vote {
        election: e,
        authority: key(1),
        token_account: None,
        changable_token_account: token_record(),
        user: User { pubkey: Pubkey::zero(), reward_points: 3 },
        verifying_key: VerifyingKey { key: Vec::new() },
    };
    assert_eq!(vote(&mut ctx, true, &BallotProof::Unproved), Err(CustomError::LookupFailed));
    assert_eq!(ctx.user.reward_points, 3);
    assert!(ctx.election.voters.is_empty());
}

#[test]
fn refused_proof_leaves_the_election_unchanged() {
    let mut e = open_election(5, "newName", "N", 0);
    let r = e.cast_vote(key(1), Some(10), true, Err(CustomError::InvalidProof));
    assert_eq!(r, Err(CustomError::InvalidProof));
    assert_eq!(e.current, 0);
    assert_eq!(e.number_of_votes, 0);
    assert!(e.voters.is_empty());
    let r = e.cast_vote(key(1), Some(10), true, Err(CustomError::ProofVerificationFailed));
    assert_eq!(r, Err(CustomError::ProofVerificationFailed));
    // The same voter may still vote with a proof that passes.
    assert_eq!(e.cast_vote(key(1), Some(10), true, Ok(())), Ok(()));
    assert_eq!(e.current, 10);
}

#[test]
fn admission_comes_before_the_proof() {
    let mut e = Election::new(0);
    let r = e.cast_vote(key(1), Some(10), true, Err(CustomError::InvalidProof));
    assert_eq!(r, Err(CustomError::VoteInactive));
    assert_eq!(e.check_vote(&key(1), Some(10), true), Err(CustomError::VoteInactive));
    let e = open_election(0, "x", "y", 0);
    assert_eq!(e.check_vote(&key(1), Some(10), true), Ok(10));
    assert_eq!(e.check_vote(&key(1), None, true), Err(CustomError::LookupFailed));
    assert_eq!(e.check_vote(&key(1), Some(0), false), Err(CustomError::InsufficientBalance));
}

#[test]
fn tally_overflow_is_refused() {
    let mut e = open_election(0, "x", "y", 0);
    e.current = i64::MAX - 5;
    assert_eq!(e.check_vote(&key(1), Some(6), true), Err(CustomError::Overflow));
    assert_eq!(e.check_vote(&key(1), Some(5), true), Ok(5));
    assert_eq!(e.check_vote(&key(1), Some(u64::MAX), false), Err(CustomError::Overflow));
    assert_eq!(e.check_vote(&key(1), Some(u64::MAX - 5), false), Ok(u64::MAX - 5));
    assert_eq!(e.check_vote(&key(1), Some(u64::MAX - 4), false), Err(CustomError::Overflow));
    assert_eq!(e.cast_vote(key(1), Some(5), true, Ok(())), Ok(()));
    assert_eq!(e.current, i64::MAX);
    e.current = i64::MIN + 1;
    assert_eq!(e.check_vote(&key(2), Some(2), false), Err(CustomError::Overflow));
    assert_eq!(e.cast_vote(key(2), Some(1), false, Ok(())), Ok(()));
    assert_eq!(e.current, i64::MIN);
    e.current = 0;
    e.number_of_votes = u64::MAX;
    assert_eq!(e.check_vote(&key(3), Some(1), true), Err(CustomError::Overflow));
    assert_eq!(e.cast_vote(key(3), Some(1), true, Ok(())), Err(CustomError::Overflow));
    assert_eq!(e.current, 0);
}

#[test]
fn full_participation_record_is_refused() {
    let e = open_election(0, "x", "y", 0);
    let mut ctx = Vote {
        election: e,
        authority: key(1),
        token_account: holder(1, 4),
        changable_token_account: token_record(),
        user: User { pubkey: key(1), reward_points: u64::MAX },
        verifying_key: VerifyingKey { key: Vec::new() },
    };
    assert_eq!(vote(&mut ctx, true, &BallotProof::Unproved), Err(CustomError::Overflow));
    assert_eq!(ctx.election.number_of_votes, 0);
    assert_eq!(ctx.user.reward_points, u64::MAX);
    ctx.user.reward_points = 41;
    assert_eq!(vote(&mut ctx, true, &BallotProof::Unproved), Ok(()));
    assert_eq!(ctx.user.reward_points, 42);
    assert_eq!(ctx.election.current, 4);
}

#[test]
fn large_weight_is_tallied_exactly() {
    let mut e = open_election(0, "x", "y", 0);
    assert_eq!(e.cast_vote(key(1), Some(i64::MAX as u64), false, Ok(())), Ok(()));
    assert_eq!(e.current, -i64::MAX);
    assert_eq!(e.cast_vote(key(2), Some(u64::MAX), true, Ok(())), Err(CustomError::Overflow));
    assert_eq!(e.current, -i64::MAX);
    assert_eq!(e.cast_vote(key(2), Some(u64::MAX - 1), true, Ok(())), Ok(()));
    assert_eq!(e.current, i64::MAX);
    assert_eq!(e.number_of_votes, 2);
}

#[test]
fn summing_up_needs_the_window_or_the_quorum() {
    let e = open_election(2, "newSymbol", "NEW", 1000);
    let (e, r, _) = cast(e, 1, 10, true);
    assert_eq!(r, Ok(()));
    assert_eq!(VOTING_WINDOW, 1);
    assert_eq!(e.check_sum_up(1000), Err(CustomError::VotingTime));
    assert_eq!(e.check_sum_up(999), Err(CustomError::VotingTime));
    assert_eq!(e.check_sum_up(i64::MIN), Err(CustomError::VotingTime));
    assert_eq!(e.check_sum_up(1001), Ok(()));
    assert_eq!(e.check_sum_up(i64::MAX), Ok(()));
    let mut ctx = ToSumUp {
        election: e,
        authority: key(100),
        token_account: holder(100, 1),
        changable_token_account: token_record(),
        now: 1000,
    };
    assert_eq!(to_sum_up(&mut ctx), Err(CustomError::VotingTime));
    assert!(ctx.election.vote_active);
    assert_eq!(ctx.election.current, 10);
    assert_eq!(ctx.election.voters.len(), 1);
    assert_eq!(ctx.changable_token_account.symbol, "OLD");
    ctx.now = 1001;
    assert_eq!(to_sum_up(&mut ctx), Ok(true));
    assert_eq!(ctx.changable_token_account.symbol, "NEW");
    assert_eq!(ctx.changable_token_account.name, "Old Name");
    assert_eq!(ctx.changable_token_account.balance, 1000);
    assert!(!ctx.election.vote_active);
    assert_eq!(to_sum_up(&mut ctx), Err(CustomError::VoteInactive));
    assert_eq!(ctx.changable_token_account.symbol, "NEW");
}

#[test]
fn summing_up_with_an_opening_time_far_in_the_past() {
    let e = open_election(10, "x", "y", i64::MIN);
    assert_eq!(e.check_sum_up(i64::MAX), Ok(()));
    assert_eq!(e.check_sum_up(i64::MIN), Err(CustomError::VotingTime));
    assert_eq!(e.check_sum_up(i64::MIN + 1), Ok(()));
}

#[test]
fn passed_proposal_renames_the_name() {
    let e = open_election(1, "newName", "Fresh", 50);
    let (e, _, _) = cast(e, 1, 3, true);
    assert!(e.has_passed());
    let mut ctx = ToSumUp {
        election: e,
        authority: key(100),
        token_account: None,
        changable_token_account: token_record(),
        now: 50,
    };
    assert_eq!(to_sum_up(&mut ctx), Ok(true));
    assert_eq!(ctx.changable_token_account.name, "Fresh");
    assert_eq!(ctx.changable_token_account.symbol, "OLD");
}

#[test]
fn passed_proposal_of_another_kind_changes_nothing() {
    let e = open_election(1, "burn", "Fresh", 50);
    let (e, _, _) = cast(e, 1, 3, true);
    let mut ctx = ToSumUp {
        election: e,
        authority: key(100),
        token_account: None,
        changable_token_account: token_record(),
        now: 50,
    };
    assert_eq!(to_sum_up(&mut ctx), Ok(true));
    assert_eq!(ctx.changable_token_account.name, "Old Name");
    assert_eq!(ctx.changable_token_account.symbol, "OLD");
    assert!(!ctx.election.vote_active);
}

#[test]
fn zero_tally_rejects_the_proposal() {
    let e = open_election(2, "newSymbol", "NEW", 50);
    let (e, _, _) = cast(e, 1, 8, true);
    let (e, _, _) = cast(e, 2, 8, false);
    assert_eq!(e.current, 0);
    assert!(!e.has_passed());
    let mut ctx = ToSumUp {
        election: e,
        authority: key(100),
        token_account: None,
        changable_token_account: token_record(),
        now: 50,
    };
    assert_eq!(to_sum_up(&mut ctx), Ok(false));
    assert_eq!(ctx.changable_token_account.symbol, "OLD");
}

#[test]
fn closing_needs_an_inactive_election() {
    let e = open_election(0, "x", "y", 0);
    let ctx = CloseElection { election: e, authority: key(1), changable_token_account: token_record() };
    assert_eq!(close_election(&ctx), Err(CustomError::VoteActive));
    let ctx = CloseElection {
        election: Election::new(0),
        authority: key(1),
        changable_token_account: token_record(),
    };
    assert_eq!(close_election(&ctx), Ok(()));
}

#[test]
fn reset_clears_the_record() {
    let e = open_election(4, "newSymbol", "NEW", 77);
    let (mut e, _, _) = cast(e, 1, 8, true);
    e.reset();
    assert!(!e.vote_active);
    assert_eq!(e.current, 0);
    assert_eq!(e.number_of_votes, 0);
    assert!(e.voters.is_empty());
    assert!(e.proposal_voting.is_empty() && e.value.is_empty() && e.additional_value.is_empty());
    assert_eq!(e.id, 77);
    assert_eq!(e.time, 77);
    assert_eq!(e.min_votes, 4);
    assert_eq!(e.creator.key, key(100).key);
    assert_eq!(e.token.key, key(200).key);
}

#[test]
fn reopening_after_summing_up() {
    let e = open_election(0, "newSymbol", "NEW", 10);
    let (e, _, _) = cast(e, 1, 8, true);
    let mut ctx = ToSumUp {
        election: e,
        authority: key(100),
        token_account: None,
        changable_token_account: token_record(),
        now: 10,
    };
    assert_eq!(to_sum_up(&mut ctx), Ok(true));
    let mut e = ctx.election;
    let r = e.open(20, key(5), Some(1), key(6), "newName".to_string(), "N".to_string(), String::new());
    assert_eq!(r, Ok(()));
    // The voter of the earlier election may vote again.
    assert_eq!(e.cast_vote(key(1), Some(8), false, Ok(())), Ok(()));
    assert_eq!(e.current, -8);
    assert_eq!(e.creator.key, key(5).key);
}

#[test]
fn proposal_kinds() {
    assert_eq!(proposal_kind(&"newSymbol".to_string()), ProposalKind::RenameSymbol);
    assert_eq!(proposal_kind(&"newName".to_string()), ProposalKind::RenameName);
    assert_eq!(proposal_kind(&"newsymbol".to_string()), ProposalKind::NoOp);
    assert_eq!(proposal_kind(&String::new()), ProposalKind::NoOp);
    assert_eq!(proposal_kind(&"newName ".to_string()), ProposalKind::NoOp);
}

#[test]
fn applying_an_effect_changes_one_field() {
    let mut t = token_record();
    assert_eq!(apply(&mut t, ProposalKind::RenameSymbol, "S".to_string()), Ok(()));
    assert_eq!((t.name.as_str(), t.symbol.as_str(), t.balance), ("Old Name", "S", 1000));
    assert_eq!(apply(&mut t, ProposalKind::RenameName, "N".to_string()), Ok(()));
    assert_eq!((t.name.as_str(), t.symbol.as_str(), t.balance), ("N", "S", 1000));
    assert_eq!(apply(&mut t, ProposalKind::NoOp, "Z".to_string()), Ok(()));
    assert_eq!((t.name.as_str(), t.symbol.as_str(), t.balance), ("N", "S", 1000));
}

#[test]
fn token_record_operations() {
    let mut t = token_record();
    assert_eq!(t.change_symbol("AAA".to_string()), Ok(()));
    assert_eq!(t.symbol, "AAA");
    assert_eq!(t.change_name("Bbb".to_string()), Ok(()));
    assert_eq!(t.name, "Bbb");
    assert_eq!(t.balance_of(key(1)), Ok(1000));
}

#[test]
fn identities_compare_by_their_bytes() {
    assert!(key(1).same_as(&key(1)));
    assert!(!key(1).same_as(&key(2)));
    let mut other = key(1);
    other.key[31] = 1;
    assert!(!key(1).same_as(&other));
    assert_eq!(Pubkey::zero().key, [0u8; 32]);
    assert_eq!(key(7).to_bytes()[0], 7);
}

#[test]
fn ballot_without_proof_passes_the_check() {
    let vk = VerifyingKey { key: vec![1, 2, 3] };
    assert_eq!(check_ballot_proof(&BallotProof::Unproved, &vk), Ok(()));
}

#[test]
fn adding_to_the_tally() {
    let mut e = Election::new(0);
    e.add(key(1), 7, true);
    assert_eq!((e.current, e.number_of_votes, e.voters.len()), (7, 1, 1));
    e.add(key(2), 9, false);
    assert_eq!((e.current, e.number_of_votes, e.voters.len()), (-2, 2, 2));
    assert_eq!(e.voters[1].key, key(2).key);
    assert!(!e.vote_active);
}

#[test]
fn every_error_has_its_sentence() {
    assert_eq!(CustomError::VoteActive.message(), "Vote is already active.");
    assert_eq!(CustomError::VoteInactive.message(), "Vote is not active.");
    assert_eq!(CustomError::InsufficientBalance.message(), "Insufficient balance.");
    assert_eq!(
        CustomError::VotingTime.message(),
        "Voting time has not ended or minimum votes not reached."
    );
    assert_eq!(CustomError::AlreadyVoted.message(), "User has already voted.");
    assert_eq!(CustomError::LookupFailed.message(), "No balance record.");
    assert_eq!(CustomError::ProofDeserializationFailed.message(), "Proof deserialization failed.");
    assert_eq!(CustomError::VerifyingKeyMalformed.message(), "Verifying key is malformed.");
    assert_eq!(CustomError::InvalidPublicInput.message(), "Invalid public input.");
    assert_eq!(CustomError::ProofVerificationFailed.message(), "Proof verification failed.");
    assert_eq!(CustomError::InvalidProof.message(), "Invalid vote proof.");
    assert_eq!(CustomError::DecodeError.message(), "Malformed point or scalar.");
    assert_eq!(CustomError::DecryptionAmbiguous.message(), "Ciphertext decrypts to no ballot value.");
    assert_eq!(CustomError::Overflow.message(), "Tally out of range.");
}
