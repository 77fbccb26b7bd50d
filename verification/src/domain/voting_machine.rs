//! The voting machine: the attendance sheet and the scoreboard, changed
//! only by votes.

use vstd::prelude::*;
use crate::names::Name;
use super::ballot_paper::{BallotPaper, BallotView};
use super::generic_domains::{AttendenceSheet, Candidate};
use super::scoreboard::{
    all_zero, lemma_sum_insert, lemma_sum_split, lemma_sum_zero, Scoreboard, ScoreboardView,
};
use super::vote_outcome::{OutcomeView, VoteOutcome};

verus! {

/// A voting machine as contracts see it.
pub struct MachineView {
    /// The names of those who have voted.
    pub voters: Set<Name>,
    /// The tally.
    pub scoreboard: ScoreboardView,
}

impl MachineView {
    /// Every voter on the sheet was counted once and nothing else was
    /// counted: the scores, the blank and the invalid votes add up to the
    /// number of voters.
    pub open spec fn balanced(self) -> bool {
        &&& self.voters.finite()
        &&& self.scoreboard.scores.dom().finite()
        &&& self.scoreboard.total() == self.voters.len()
    }

    /// Whether `candidate` is one of the candidates.
    pub open spec fn has_candidate(self, candidate: Name) -> bool {
        self.scoreboard.scores.dom().contains(candidate)
    }

    /// What the machine answers to `ballot`.
    pub open spec fn outcome(self, ballot: BallotView) -> OutcomeView {
        if self.voters.contains(ballot.voter) {
            OutcomeView::HasAlreadyVoted(ballot.voter)
        } else {
            match ballot.candidate {
                None => OutcomeView::BlankVote(ballot.voter),
                Some(candidate) => if self.has_candidate(candidate) {
                    OutcomeView::AcceptedVote(ballot.voter, candidate)
                } else {
                    OutcomeView::InvalidVote(ballot.voter)
                },
            }
        }
    }

    /// The machine after `ballot` was submitted.
    pub open spec fn after(self, ballot: BallotView) -> MachineView {
        if self.voters.contains(ballot.voter) {
            self
        } else {
            MachineView {
                voters: self.voters.insert(ballot.voter),
                scoreboard: match ballot.candidate {
                    None => ScoreboardView {
                        blank_score: self.scoreboard.blank_score + 1,
                        ..self.scoreboard
                    },
                    Some(candidate) => if self.has_candidate(candidate) {
                        ScoreboardView {
                            scores: self.scoreboard.scores.insert(
                                candidate,
                                self.scoreboard.scores[candidate] + 1,
                            ),
                            ..self.scoreboard
                        }
                    } else {
                        ScoreboardView {
                            invalid_score: self.scoreboard.invalid_score + 1,
                            ..self.scoreboard
                        }
                    },
                },
            }
        }
    }

    /// The machine after `ballots` were submitted one after the other.
    pub open spec fn after_all(self, ballots: Seq<BallotView>) -> MachineView
        decreases ballots.len(),
    {
        if ballots.len() == 0 {
            self
        } else {
            self.after_all(ballots.drop_last()).after(ballots.last())
        }
    }
}

/// The machine on which nobody has voted yet, with `candidates` to choose
/// from.
pub open spec fn opening(candidates: Seq<Name>) -> MachineView {
    MachineView {
        voters: Set::empty(),
        scoreboard: ScoreboardView {
            scores: all_zero(candidates),
            blank_score: 0,
            invalid_score: 0,
        },
    }
}

/// A vote keeps the machine balanced.
pub proof fn lemma_vote_keeps_balance(machine: MachineView, ballot: BallotView)
    requires
        machine.balanced(),
    ensures
        machine.after(ballot).balanced(),
{
    if !machine.voters.contains(ballot.voter) {
        if let Some(candidate) = ballot.candidate {
            if machine.has_candidate(candidate) {
                lemma_sum_insert(
                    machine.scoreboard.scores,
                    candidate,
                    machine.scoreboard.scores[candidate] + 1,
                );
            }
        }
    }
}

/// The machine is balanced before the first vote.
pub proof fn lemma_opening_balanced(candidates: Seq<Name>)
    ensures
        opening(candidates).balanced(),
{
    vstd::seq_lib::seq_to_set_is_finite(candidates);
    lemma_sum_zero(all_zero(candidates));
}

/// Whatever ballots are submitted, in whatever order, a balanced machine
/// stays balanced.
pub proof fn lemma_votes_keep_balance(machine: MachineView, ballots: Seq<BallotView>)
    requires
        machine.balanced(),
    ensures
        machine.after_all(ballots).balanced(),
    decreases ballots.len(),
{
    if ballots.len() > 0 {
        lemma_votes_keep_balance(machine, ballots.drop_last());
        lemma_vote_keeps_balance(machine.after_all(ballots.drop_last()), ballots.last());
    }
}

/// Every state that votes can lead to from the opening is balanced: the
/// scores, the blank and the invalid votes add up to the number of voters
/// on the attendance sheet.
pub proof fn lemma_reachable_balanced(candidates: Seq<Name>, ballots: Seq<BallotView>)
    ensures
        opening(candidates).after_all(ballots).balanced(),
{
    lemma_opening_balanced(candidates);
    lemma_votes_keep_balance(opening(candidates), ballots);
}

/// A voter's first ballot is counted: for the candidate if there is such a
/// candidate, as blank if it names none, as invalid otherwise. The voter is
/// on the attendance sheet afterwards.
pub proof fn lemma_first_vote_counted(machine: MachineView, ballot: BallotView)
    requires
        !machine.voters.contains(ballot.voter),
    ensures
        machine.after(ballot).voters.contains(ballot.voter),
        ballot.candidate is None ==> machine.outcome(ballot) == OutcomeView::BlankVote(
            ballot.voter,
        ),
        ballot.candidate matches Some(candidate) ==> (machine.has_candidate(candidate)
            ==> machine.outcome(ballot) == OutcomeView::AcceptedVote(ballot.voter, candidate)),
        ballot.candidate matches Some(candidate) ==> (!machine.has_candidate(candidate)
            ==> machine.outcome(ballot) == OutcomeView::InvalidVote(ballot.voter)),
{
}

/// Nobody leaves the attendance sheet.
pub proof fn lemma_sheet_grows(machine: MachineView, ballots: Seq<BallotView>)
    ensures
        machine.voters.subset_of(machine.after_all(ballots).voters),
    decreases ballots.len(),
{
    if ballots.len() > 0 {
        lemma_sheet_grows(machine, ballots.drop_last());
    }
}

/// The candidates are those of the opening: no vote adds or removes one.
pub proof fn lemma_candidates_stay(machine: MachineView, ballots: Seq<BallotView>)
    ensures
        machine.after_all(ballots).scoreboard.scores.dom() == machine.scoreboard.scores.dom(),
    decreases ballots.len(),
{
    if ballots.len() > 0 {
        lemma_candidates_stay(machine, ballots.drop_last());
        let before = machine.after_all(ballots.drop_last());
        assert(before.after(ballots.last()).scoreboard.scores.dom()
            =~= before.scoreboard.scores.dom());
    }
}

/// No count ever falls: each vote leaves every score, the blank and the
/// invalid votes as they were or one higher.
pub proof fn lemma_counts_rise(machine: MachineView, ballots: Seq<BallotView>, candidate: Name)
    requires
        machine.has_candidate(candidate),
    ensures
        machine.after_all(ballots).has_candidate(candidate),
        machine.after_all(ballots).scoreboard.scores[candidate]
            >= machine.scoreboard.scores[candidate],
        machine.after_all(ballots).scoreboard.blank_score >= machine.scoreboard.blank_score,
        machine.after_all(ballots).scoreboard.invalid_score >= machine.scoreboard.invalid_score,
    decreases ballots.len(),
{
    if ballots.len() > 0 {
        lemma_counts_rise(machine, ballots.drop_last(), candidate);
    }
}

/// Once a voter has submitted a ballot, every later ballot of theirs is
/// answered with `HasAlreadyVoted` and changes nothing, whatever was
/// submitted in between.
pub proof fn lemma_later_votes_rejected(
    machine: MachineView,
    first: BallotView,
    between: Seq<BallotView>,
    again: BallotView,
)
    requires
        again.voter == first.voter,
    ensures
        ({
            let later = machine.after(first).after_all(between);
            &&& later.outcome(again) == OutcomeView::HasAlreadyVoted(again.voter)
            &&& later.after(again) == later
        }),
{
    lemma_sheet_grows(machine.after(first), between);
}

/// The ballots of `voters`, in their order, all for `candidate`.
pub open spec fn ballots_for(voters: Seq<Name>, candidate: Name) -> Seq<BallotView> {
    Seq::new(
        voters.len(),
        |i: int| BallotView { voter: voters[i], candidate: Some(candidate) },
    )
}

/// When voters who have not voted yet, no two of them the same, each
/// submit a ballot for one candidate, then in whatever order the ballots
/// arrive each is counted: the candidate's score rises by their number, and
/// so does the attendance sheet.
pub proof fn lemma_distinct_voters_counted(machine: MachineView, voters: Seq<Name>, candidate: Name)
    requires
        machine.voters.finite(),
        machine.has_candidate(candidate),
        voters.no_duplicates(),
        forall|i: int| 0 <= i < voters.len() ==> !machine.voters.contains(voters[i]),
    ensures
        ({
            let end = machine.after_all(ballots_for(voters, candidate));
            &&& end.voters == machine.voters.union(voters.to_set())
            &&& end.voters.finite()
            &&& end.voters.len() == machine.voters.len() + voters.len()
            &&& end.scoreboard.scores.dom() == machine.scoreboard.scores.dom()
            &&& end.scoreboard.scores[candidate] == machine.scoreboard.scores[candidate]
                + voters.len()
            &&& end.scoreboard.blank_score == machine.scoreboard.blank_score
            &&& end.scoreboard.invalid_score == machine.scoreboard.invalid_score
        }),
    decreases voters.len(),
{
    let ballots = ballots_for(voters, candidate);
    if voters.len() == 0 {
        assert(machine.voters.union(voters.to_set()) =~= machine.voters);
    } else {
        // The last voter is new to the machine that the others have left.
        let earlier = voters.drop_last();
        let last = voters.last();
        assert(ballots.drop_last() =~= ballots_for(earlier, candidate));
        lemma_distinct_voters_counted(machine, earlier, candidate);
        assert(!earlier.contains(last));
        assert(voters =~= earlier.push(last));
        earlier.lemma_push_to_set_commute(last);
        let end = machine.after_all(ballots);
        assert(end.voters =~= machine.voters.union(voters.to_set()));
    }
}

/// The aggregate of an election: who has voted and what was counted. It is
/// changed by `vote` alone, and is balanced at all times.
#[derive(Debug, PartialEq, Eq)]
pub struct VotingMachine {
    voters: AttendenceSheet,
    scoreboard: Scoreboard,
}

impl View for VotingMachine {
    type V = MachineView;

    closed spec fn view(&self) -> MachineView {
        MachineView { voters: self.voters@, scoreboard: self.scoreboard@ }
    }
}

impl VotingMachine {
    #[verifier::type_invariant]
    spec fn every_vote_counted(self) -> bool {
        self.scoreboard@.total() == self.voters@.len()
    }

    /// Whether `scoreboard` accounts for exactly the voters on `voters`.
    pub fn agree(voters: &AttendenceSheet, scoreboard: &Scoreboard) -> (balanced: bool)
        ensures
            balanced == (scoreboard@.total() == voters@.len()),
    {
        let present = voters.len();
        match scoreboard.total() {
            Some(votes) => votes == present,
            None => false,
        }
    }

    /// The machine with the attendance sheet `voters` and the tally
    /// `scoreboard`, which have to agree.
    #[must_use]
    pub fn new(voters: AttendenceSheet, scoreboard: Scoreboard) -> (machine: Self)
        requires
            scoreboard@.total() == voters@.len(),
        ensures
            machine@.voters == voters@,
            machine@.scoreboard == scoreboard@,
            machine@.balanced(),
    {
        proof {
            voters.lemma_finite();
            scoreboard.lemma_finite();
        }
        Self { voters, scoreboard }
    }

    /// The machine with the attendance sheet `voters` and the tally
    /// `scoreboard`, or `None` where the two do not agree.
    #[must_use]
    pub fn checked_new(voters: AttendenceSheet, scoreboard: Scoreboard) -> (machine: Option<Self>)
        ensures
            machine is Some == (scoreboard@.total() == voters@.len()),
            machine matches Some(made) ==> made@.voters == voters@ && made@.scoreboard
                == scoreboard@ && made@.balanced(),
    {
        if Self::agree(&voters, &scoreboard) {
            Some(Self::new(voters, scoreboard))
        } else {
            None
        }
    }

    /// The machine on which nobody has voted yet, with `candidates` to
    /// choose from.
    #[must_use]
    pub fn open(candidates: Vec<Candidate>) -> (machine: Self)
        ensures
            machine@ == opening(candidates@.map_values(|c: Candidate| c@)),
    {
        let voters = AttendenceSheet::default();
        let scoreboard = Scoreboard::new(candidates);
        proof {
            lemma_opening_balanced(candidates@.map_values(|c: Candidate| c@));
        }
        Self { voters, scoreboard }
    }

    /// Submits a ballot. A voter who has voted before is turned away and
    /// nothing changes. Otherwise the voter is put on the attendance sheet
    /// and the ballot is counted: as blank if it names no candidate, for
    /// its candidate if that is one of the candidates, as invalid if not.
    pub fn vote(&mut self, ballot_paper: BallotPaper) -> (outcome: VoteOutcome)
        ensures
            outcome@ == old(self)@.outcome(ballot_paper@),
            final(self)@ == old(self)@.after(ballot_paper@),
            final(self)@.balanced(),
    {
        proof {
            use_type_invariant(&*self);
            self.voters.lemma_finite();
            self.scoreboard.lemma_finite();
            lemma_vote_keeps_balance(self@, ballot_paper@);
        }
        let BallotPaper { voter, candidate } = ballot_paper;
        if self.voters.contains(&voter) {
            return VoteOutcome::HasAlreadyVoted(voter);
        }
        // The sheet and the scoreboard agree only before and after the vote,
        // so both are taken out of the machine and put back changed.
        let mut taken = VotingMachine::open(Vec::new());
        std::mem::swap(self, &mut taken);
        let VotingMachine { mut voters, mut scoreboard } = taken;
        let ghost counted = voters@.len();
        voters.insert(voter.clone());
        // The sheet holds one voter more than were counted, and no more
        // than a `usize` can tell: no count is at its limit.
        let present = voters.len();
        assert(present == counted + 1);
        let outcome = match candidate {
            None => {
                scoreboard.count_blank();
                VoteOutcome::BlankVote(voter)
            },
            Some(candidate) => {
                proof {
                    if scoreboard@.scores.dom().contains(candidate@) {
                        lemma_sum_split(scoreboard@.scores, candidate@);
                    }
                }
                if scoreboard.count_for(&candidate) {
                    VoteOutcome::AcceptedVote(voter, candidate)
                } else {
                    scoreboard.count_invalid();
                    VoteOutcome::InvalidVote(voter)
                }
            },
        };
        *self = VotingMachine { voters, scoreboard };
        outcome
    }

    /// The tally.
    #[must_use]
    pub fn get_scoreboard(&self) -> (scoreboard: &Scoreboard)
        ensures
            scoreboard@ == self@.scoreboard,
            self@.balanced(),
    {
        proof {
            use_type_invariant(self);
            self.voters.lemma_finite();
            self.scoreboard.lemma_finite();
        }
        &self.scoreboard
    }

    /// The attendance sheet.
    #[must_use]
    pub fn get_voter(&self) -> (voters: &AttendenceSheet)
        ensures
            voters@ == self@.voters,
            self@.balanced(),
    {
        proof {
            use_type_invariant(self);
            self.voters.lemma_finite();
            self.scoreboard.lemma_finite();
        }
        &self.voters
    }
}

impl Clone for VotingMachine {
    fn clone(&self) -> (copy: Self)
        ensures
            copy@ == self@,
            copy@.balanced(),
    {
        proof {
            use_type_invariant(self);
            self.voters.lemma_finite();
            self.scoreboard.lemma_finite();
        }
        VotingMachine { voters: self.voters.clone(), scoreboard: self.scoreboard.clone() }
    }
}

} // verus!
