//! English.

use vstd::prelude::*;
use crate::interfaces::lexicon::Lexicon;

verus! {

impl Lexicon {
    /// The English words.
    pub open spec fn english_words() -> Lexicon {
        Lexicon {
            blank_vote: "has voted blank.",
            has_already_voted: "has already voted.",
            accepted_vote: "has voted for",
            invalid_vote: "has voted null.",
            voters: "voters",
            vote: "vote",
            scores: "scores",
            invalid_command: "Invalid command\n",
            scores_title: "Scores:\n",
            voters_title: "Voters:\n",
            blank: "Blank",
            invalid: "Invalid",
            help: "Help :\n - vote <name> [candidate]\n - scores\n - voters",
            candidate_missing: "Voter missing.",
            vote_machine: "Voting Machine",
            urn: "Urn",
            voter: "Voter",
            candidate: "Candidate",
            scores_heading: "Scores",
            voters_heading: "Voters",
        }
    }

    /// The English lexicon.
    #[verifier::when_used_as_spec(english_words)]
    pub fn english() -> (words: Self)
        ensures
            words == Lexicon::english_words(),
    {
        Self {
            blank_vote: "has voted blank.",
            has_already_voted: "has already voted.",
            accepted_vote: "has voted for",
            invalid_vote: "has voted null.",
            voters: "voters",
            vote: "vote",
            scores: "scores",
            invalid_command: "Invalid command\n",
            scores_title: "Scores:\n",
            voters_title: "Voters:\n",
            blank: "Blank",
            invalid: "Invalid",
            help: "Help :\n - vote <name> [candidate]\n - scores\n - voters",
            candidate_missing: "Voter missing.",
            vote_machine: "Voting Machine",
            urn: "Urn",
            voter: "Voter",
            candidate: "Candidate",
            scores_heading: "Scores",
            voters_heading: "Voters",
        }
    }
}

} // verus!
