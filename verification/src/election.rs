//! The election: its record, the weighted tally, and the transitions of
//! its lifecycle.
//!
//! An election is inactive until it is opened, accepts ballots while it is
//! open, and is inactive again once it has been summed up. The tally is
//! taken from the plain vote that a ballot carries; a proof that comes with
//! a ballot is checked for the ballot's integrity and does not itself
//! decide what is tallied. A tally of zero rejects the proposal.
use vstd::prelude::*;
use crate::errors::CustomError;
use crate::identity::Pubkey;

verus! {

/// The voting window in seconds: an election may be summed up once this
/// much time has passed since it was opened, whatever the number of votes.
pub const VOTING_WINDOW: i64 = 1;

/// The record of an election.
#[derive(Clone, Debug)]
pub struct Election {
    pub id: u64,
    pub token: Pubkey,
    pub proposal_voting: String,
    pub value: String,
    pub additional_value: String,
    pub current: i64,
    pub number_of_votes: u64,
    pub vote_active: bool,
    pub time: i64,
    pub min_votes: u64,
    pub count: u64,
    pub creator: Pubkey,
    pub voters: Vec<Pubkey>,
}

/// Where an election stands in its lifecycle.
#[derive(Clone, Copy, Debug, PartialEq, Eq, Structural)]
pub enum ElectionState {
    /// No proposal is being voted on.
    Inactive,
    /// Ballots are accepted.
    Open,
}

/// The tally after a ballot of `weight`: the weight is added for a "yes"
/// and subtracted for a "no".
pub open spec fn tally_after(current: i64, weight: u64, vote: bool) -> int {
    if vote {
        current + weight
    } else {
        current - weight
    }
}

/// The identifier that an election opened at `now` gets: the timestamp as
/// an unsigned 64-bit number.
pub open spec fn id_at(now: i64) -> int {
    if now >= 0 {
        now as int
    } else {
        now + 0x1_0000_0000_0000_0000
    }
}

/// `after` is `before` with one more ballot: the tally moved by the
/// voter's weight, one more vote counted, the voter recorded last, and
/// nothing else changed.
pub open spec fn vote_recorded(
    before: Election,
    after: Election,
    voter: Pubkey,
    weight: u64,
    vote: bool,
) -> bool {
    &&& after.current == tally_after(before.current, weight, vote)
    &&& after.number_of_votes == before.number_of_votes + 1
    &&& after.voters@ == before.voters@.push(voter)
    &&& after == Election {
        current: after.current,
        number_of_votes: after.number_of_votes,
        voters: after.voters,
        ..before
    }
}

/// `after` is `before` opened at `now` by `creator` for the given
/// proposal. The tally, the vote count, the quorum and the voters are what
/// they were.
pub open spec fn opened(
    before: Election,
    after: Election,
    now: i64,
    creator: Pubkey,
    token: Pubkey,
    proposal_voting: Seq<char>,
    value: Seq<char>,
    additional_value: Seq<char>,
) -> bool {
    &&& after.id == id_at(now)
    &&& after.token == token
    &&& after.proposal_voting@ == proposal_voting
    &&& after.value@ == value
    &&& after.additional_value@ == additional_value
    &&& after.vote_active
    &&& after.time == now
    &&& after.creator == creator
    &&& after.current == before.current
    &&& after.number_of_votes == before.number_of_votes
    &&& after.min_votes == before.min_votes
    &&& after.count == before.count
    &&& after.voters == before.voters
}

/// `after` is `before` cleared: inactive, with an empty tally, no votes,
/// no voters and no proposal. The identifier, the token, the opening time,
/// the quorum and the creator stay.
pub open spec fn cleared(before: Election, after: Election) -> bool {
    &&& !after.vote_active
    &&& after.current == 0
    &&& after.number_of_votes == 0
    &&& after.proposal_voting@ == Seq::<char>::empty()
    &&& after.value@ == Seq::<char>::empty()
    &&& after.additional_value@ == Seq::<char>::empty()
    &&& after.voters@ == Seq::<Pubkey>::empty()
    &&& after.id == before.id
    &&& after.token == before.token
    &&& after.time == before.time
    &&& after.min_votes == before.min_votes
    &&& after.count == before.count
    &&& after.creator == before.creator
}

impl Election {
    /// No identity has voted twice, and every voter is counted once.
    pub open spec fn wf(self) -> bool {
        self.voters@.no_duplicates() && self.number_of_votes == self.voters@.len()
    }

    /// The state that the record is in.
    pub open spec fn state(self) -> ElectionState {
        if self.vote_active {
            ElectionState::Open
        } else {
            ElectionState::Inactive
        }
    }

    /// Whether opening is admitted to a caller of the given weight, which
    /// is `None` where the caller has no balance record.
    pub open spec fn open_admission(self, weight: Option<u64>) -> Result<(), CustomError> {
        if self.vote_active {
            Err(CustomError::VoteActive)
        } else if weight is None {
            Err(CustomError::LookupFailed)
        } else if weight.unwrap() == 0 {
            Err(CustomError::InsufficientBalance)
        } else {
            Ok(())
        }
    }

    /// Whether a ballot is admitted before its proof is looked at: the
    /// election must be open, the voter must hold weight and must not have
    /// voted, and the tally and the count must have room for the ballot.
    pub open spec fn vote_admission(self, voter: Pubkey, weight: Option<u64>, vote: bool) -> Result<
        u64,
        CustomError,
    > {
        if !self.vote_active {
            Err(CustomError::VoteInactive)
        } else if weight is None {
            Err(CustomError::LookupFailed)
        } else if weight.unwrap() == 0 {
            Err(CustomError::InsufficientBalance)
        } else if self.voters@.contains(voter) {
            Err(CustomError::AlreadyVoted)
        } else if tally_after(self.current, weight.unwrap(), vote) > i64::MAX || tally_after(
            self.current,
            weight.unwrap(),
            vote,
        ) < i64::MIN || self.number_of_votes == u64::MAX {
            Err(CustomError::Overflow)
        } else {
            Ok(weight.unwrap())
        }
    }

    /// What casting a ballot returns, `gate` being the verdict on the
    /// ballot's proof.
    pub open spec fn vote_result(
        self,
        voter: Pubkey,
        weight: Option<u64>,
        vote: bool,
        gate: Result<(), CustomError>,
    ) -> Result<(), CustomError> {
        match self.vote_admission(voter, weight, vote) {
            Err(e) => Err(e),
            Ok(_) => gate,
        }
    }

    /// Whether the election may be summed up at `now`: it must be open,
    /// and the voting window must have passed or the quorum be reached.
    pub open spec fn sum_up_admission(self, now: i64) -> Result<(), CustomError> {
        if !self.vote_active {
            Err(CustomError::VoteInactive)
        } else if now - self.time >= VOTING_WINDOW || self.number_of_votes >= self.min_votes {
            Ok(())
        } else {
            Err(CustomError::VotingTime)
        }
    }

    /// Whether the proposal has passed: the tally is above zero.
    pub open spec fn passed(self) -> bool {
        self.current > 0
    }

    /// An inactive election with the given quorum and nothing else.
    pub fn new(min_votes: u64) -> (e: Election)
        ensures
            e.wf(),
            e.state() == ElectionState::Inactive,
            e.min_votes == min_votes,
            e.current == 0,
            e.number_of_votes == 0,
            e.voters@ == Seq::<Pubkey>::empty(),
            e.id == 0,
            e.time == 0,
            e.count == 0,
            e.token.is_zero(),
            e.creator.is_zero(),
            e.proposal_voting@ == Seq::<char>::empty(),
            e.value@ == Seq::<char>::empty(),
            e.additional_value@ == Seq::<char>::empty(),
    {
        Election {
            id: 0,
            token: Pubkey::zero(),
            proposal_voting: String::new(),
            value: String::new(),
            additional_value: String::new(),
            current: 0,
            number_of_votes: 0,
            vote_active: false,
            time: 0,
            min_votes,
            count: 0,
            creator: Pubkey::zero(),
            voters: Vec::new(),
        }
    }

    /// Whether `identity` has voted in this election.
    pub fn has_voted(&self, identity: &Pubkey) -> (r: bool)
        ensures
            r == self.voters@.contains(*identity),
    {
        let mut i: usize = 0;
        while i < self.voters.len()
            invariant
                i <= self.voters@.len(),
                forall|j: int| 0 <= j < i ==> self.voters@[j] != *identity,
            decreases self.voters@.len() - i,
        {
            if self.voters[i].same_as(identity) {
                return true;
            }
            i += 1;
        }
        false
    }

    /// The number of ballots cast.
    pub fn count(&self) -> (r: u64)
        ensures
            r == self.number_of_votes,
    {
        self.number_of_votes
    }

    /// Opens the election for a proposal. Nothing is changed where it is
    /// refused.
    pub fn open(
        &mut self,
        now: i64,
        creator: Pubkey,
        weight: Option<u64>,
        token: Pubkey,
        proposal_voting: String,
        value: String,
        additional_value: String,
    ) -> (r: Result<(), CustomError>)
        ensures
            r == old(self).open_admission(weight),
            r.is_ok() ==> opened(
                *old(self),
                *final(self),
                now,
                creator,
                token,
                proposal_voting@,
                value@,
                additional_value@,
            ),
            r.is_ok() ==> final(self).state() == ElectionState::Open,
            r.is_err() ==> *final(self) == *old(self),
            old(self).wf() ==> final(self).wf(),
    {
        if self.vote_active {
            return Err(CustomError::VoteActive);
        }
        match weight {
            None => {
                return Err(CustomError::LookupFailed);
            },
            Some(w) => {
                if w == 0 {
                    return Err(CustomError::InsufficientBalance);
                }
            },
        }
        self.id = id_from_time(now);
        self.token = token;
        self.proposal_voting = proposal_voting;
        self.value = value;
        self.additional_value = additional_value;
        self.vote_active = true;
        self.time = now;
        self.creator = creator;
        Ok(())
    }

    /// Decides whether a ballot is admitted, before its proof is looked
    /// at, and returns the voter's weight where it is.
    pub fn check_vote(&self, voter: &Pubkey, weight: Option<u64>, vote: bool) -> (r: Result<
        u64,
        CustomError,
    >)
        ensures
            r == self.vote_admission(*voter, weight, vote),
    {
        if !self.vote_active {
            return Err(CustomError::VoteInactive);
        }
        let w = match weight {
            None => {
                return Err(CustomError::LookupFailed);
            },
            Some(w) => w,
        };
        if w == 0 {
            return Err(CustomError::InsufficientBalance);
        }
        if self.has_voted(voter) {
            return Err(CustomError::AlreadyVoted);
        }
        let next: i128 = if vote {
            self.current as i128 + w as i128
        } else {
            self.current as i128 - w as i128
        };
        if next > i64::MAX as i128 || next < i64::MIN as i128 || self.number_of_votes == u64::MAX {
            return Err(CustomError::Overflow);
        }
        Ok(w)
    }

    /// Adds a ballot to the tally: the weight is added for a "yes" and
    /// subtracted for a "no", the vote is counted and the voter recorded.
    pub fn add(&mut self, voter: Pubkey, weight: u64, vote: bool)
        requires
            i64::MIN <= tally_after(old(self).current, weight, vote) <= i64::MAX,
            old(self).number_of_votes < u64::MAX,
        ensures
            vote_recorded(*old(self), *final(self), voter, weight, vote),
            final(self).voters@.contains(voter),
            old(self).wf() && !old(self).voters@.contains(voter) ==> final(self).wf(),
    {
        let next: i128 = if vote {
            self.current as i128 + weight as i128
        } else {
            self.current as i128 - weight as i128
        };
        self.current = next as i64;
        self.number_of_votes = self.number_of_votes + 1;
        self.voters.push(voter);
        proof {
            let before = old(self).voters@;
            assert(self.voters@[before.len() as int] == voter);
            if old(self).wf() && !before.contains(voter) {
                assert forall|i: int, j: int|
                    0 <= i < self.voters@.len() && 0 <= j < self.voters@.len() && i != j implies self.voters@[i]
                    != self.voters@[j] by {
                    if i < before.len() {
                        assert(before.contains(before[i]));
                    }
                    if j < before.len() {
                        assert(before.contains(before[j]));
                    }
                }
            }
        }
    }

    /// Casts a ballot, `gate` being the verdict on the ballot's proof. The
    /// ballot is tallied where it is admitted and the verdict is `Ok`;
    /// nothing is changed otherwise.
    pub fn cast_vote(
        &mut self,
        voter: Pubkey,
        weight: Option<u64>,
        vote: bool,
        gate: Result<(), CustomError>,
    ) -> (r: Result<(), CustomError>)
        ensures
            r == old(self).vote_result(voter, weight, vote, gate),
            r.is_ok() ==> vote_recorded(*old(self), *final(self), voter, weight.unwrap(), vote),
            r.is_ok() ==> final(self).voters@.contains(voter),
            r.is_err() ==> *final(self) == *old(self),
            old(self).wf() ==> final(self).wf(),
    {
        let w = match self.check_vote(&voter, weight, vote) {
            Ok(w) => w,
            Err(e) => {
                return Err(e);
            },
        };
        if gate.is_ok() {
            self.add(voter, w, vote);
        }
        gate
    }

    /// Decides whether the election may be summed up at `now`.
    pub fn check_sum_up(&self, now: i64) -> (r: Result<(), CustomError>)
        ensures
            r == self.sum_up_admission(now),
    {
        if !self.vote_active {
            return Err(CustomError::VoteInactive);
        }
        let elapsed: i128 = now as i128 - self.time as i128;
        if elapsed >= VOTING_WINDOW as i128 || self.number_of_votes >= self.min_votes {
            Ok(())
        } else {
            Err(CustomError::VotingTime)
        }
    }

    /// Whether the proposal has passed.
    pub fn has_passed(&self) -> (r: bool)
        ensures
            r == self.passed(),
    {
        self.current > 0
    }

    /// Clears the record.
    pub fn reset(&mut self)
        ensures
            cleared(*old(self), *final(self)),
            final(self).wf(),
            final(self).state() == ElectionState::Inactive,
    {
        self.vote_active = false;
        self.current = 0;
        self.number_of_votes = 0;
        self.proposal_voting = String::new();
        self.value = String::new();
        self.additional_value = String::new();
        self.voters = Vec::new();
    }
}

/// No replay: once a ballot of `voter` has been tallied, a second ballot
/// of the same voter, who still holds weight, is refused with
/// `AlreadyVoted`, whatever it says and whatever proof comes with it.
pub proof fn lemma_second_vote_refused(
    before: Election,
    after: Election,
    voter: Pubkey,
    weight: Option<u64>,
    vote: bool,
    gate: Result<(), CustomError>,
    second_weight: u64,
    second_vote: bool,
    second_gate: Result<(), CustomError>,
)
    requires
        before.vote_result(voter, weight, vote, gate) is Ok,
        vote_recorded(before, after, voter, weight.unwrap(), vote),
        second_weight > 0,
    ensures
        after.vote_result(voter, Some(second_weight), second_vote, second_gate) == Err::<
            (),
            CustomError,
        >(CustomError::AlreadyVoted),
{
    let n = before.voters@.len() as int;
    assert(after.voters@[n] == voter);
}

/// The timestamp as an unsigned 64-bit number.
fn id_from_time(now: i64) -> (id: u64)
    ensures
        id == id_at(now),
{
    if now >= 0 {
        now as u64
    } else {
        let above_min: i64 = now - i64::MIN;
        above_min as u64 + 0x8000_0000_0000_0000u64
    }
}

} // verus!
