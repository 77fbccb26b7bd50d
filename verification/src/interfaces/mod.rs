//! Turning commands into votes and the machine into text.

use vstd::prelude::*;
use crate::domain::vote_outcome::{OutcomeView, VoteOutcome};
use lexicon::Lexicon;

pub mod cli_interfaces;
pub mod lexicon;
pub mod lexicons;
pub mod web_interfaces;

verus! {

/// What is said of `outcome` in the words of `lexicon`.
pub open spec fn outcome_text(outcome: OutcomeView, lexicon: Lexicon) -> Seq<char> {
    match outcome {
        OutcomeView::AcceptedVote(voter, candidate) => voter + seq![' '] + lexicon.accepted_vote@
            + seq![' '] + candidate + seq!['.'],
        OutcomeView::BlankVote(voter) => voter + seq![' '] + lexicon.blank_vote@,
        OutcomeView::InvalidVote(voter) => voter + seq![' '] + lexicon.invalid_vote@,
        OutcomeView::HasAlreadyVoted(voter) => voter + seq![' '] + lexicon.has_already_voted@,
    }
}

/// Tells the outcome of a vote in the words of `lexicon`.
pub fn show_vote_outcome(outcome: VoteOutcome, lexicon: &Lexicon) -> (text: String)
    ensures
        text@ == outcome_text(outcome@, *lexicon),
{
    proof {
        reveal_strlit(" ");
        reveal_strlit(".");
    }
    match outcome {
        VoteOutcome::AcceptedVote(voter, candidate) => {
            let mut text = voter.0;
            text.append(" ");
            text.append(lexicon.accepted_vote);
            text.append(" ");
            text.append(candidate.0.as_str());
            text.append(".");
            text
        },
        VoteOutcome::BlankVote(voter) => {
            let mut text = voter.0;
            text.append(" ");
            text.append(lexicon.blank_vote);
            text
        },
        VoteOutcome::InvalidVote(voter) => {
            let mut text = voter.0;
            text.append(" ");
            text.append(lexicon.invalid_vote);
            text
        },
        VoteOutcome::HasAlreadyVoted(voter) => {
            let mut text = voter.0;
            text.append(" ");
            text.append(lexicon.has_already_voted);
            text
        },
    }
}

} // verus!
