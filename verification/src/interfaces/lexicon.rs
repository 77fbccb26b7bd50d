//! The words that the interfaces use.

use vstd::prelude::*;

verus! {

/// The words of one language: the commands that are understood, and the
/// phrases that answers are made of.
#[derive(Clone, Copy, Debug, PartialEq, Eq)]
pub struct Lexicon {
    /// Said of a voter whose ballot was blank.
    pub blank_vote: &'static str,
    /// Said of a voter who had voted before.
    pub has_already_voted: &'static str,
    /// Stands between a voter and the candidate they voted for.
    pub accepted_vote: &'static str,
    /// Said of a voter whose ballot named no candidate of the election.
    pub invalid_vote: &'static str,
    /// The command that submits a ballot.
    pub vote: &'static str,
    /// The label of the blank votes on the scoreboard.
    pub blank: &'static str,
    /// The label of the invalid votes on the scoreboard.
    pub invalid: &'static str,
    /// The command that shows the attendance sheet.
    pub voters: &'static str,
    /// The line above the attendance sheet.
    pub voters_title: &'static str,
    /// The command that shows the scoreboard.
    pub scores: &'static str,
    /// The line above the scoreboard.
    pub scores_title: &'static str,
    /// The answer to a command that is not understood.
    pub invalid_command: &'static str,
    /// The answer to an empty line.
    pub help: &'static str,
    /// The answer to a vote command that names no voter.
    pub candidate_missing: &'static str,
    /// The title of the page.
    pub vote_machine: &'static str,
    /// The heading of the voting form.
    pub urn: &'static str,
    /// The label of the form's voter field.
    pub voter: &'static str,
    /// The label of the form's candidate field.
    pub candidate: &'static str,
    /// The heading of the scoreboard on the page.
    pub scores_heading: &'static str,
    /// The heading of the attendance sheet on the page.
    pub voters_heading: &'static str,
}

} // verus!
