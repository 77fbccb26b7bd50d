//! What became of a ballot.

use vstd::prelude::*;
use crate::names::Name;
use super::generic_domains::{Candidate, Voter};

verus! {

/// The result of submitting a ballot.
#[derive(Debug, PartialEq, Eq)]
pub enum VoteOutcome {
    /// The vote was counted for the candidate.
    AcceptedVote(Voter, Candidate),
    /// The ballot named no candidate and was counted as blank.
    BlankVote(Voter),
    /// The ballot named someone who is not a candidate and was counted as invalid.
    InvalidVote(Voter),
    /// The voter had voted before; nothing was counted.
    HasAlreadyVoted(Voter),
}

/// An outcome as contracts see it.
pub enum OutcomeView {
    AcceptedVote(Name, Name),
    BlankVote(Name),
    InvalidVote(Name),
    HasAlreadyVoted(Name),
}

impl View for VoteOutcome {
    type V = OutcomeView;

    open spec fn view(&self) -> OutcomeView {
        match self {
            VoteOutcome::AcceptedVote(voter, candidate) => OutcomeView::AcceptedVote(
                voter@,
                candidate@,
            ),
            VoteOutcome::BlankVote(voter) => OutcomeView::BlankVote(voter@),
            VoteOutcome::InvalidVote(voter) => OutcomeView::InvalidVote(voter@),
            VoteOutcome::HasAlreadyVoted(voter) => OutcomeView::HasAlreadyVoted(voter@),
        }
    }
}

} // verus!
