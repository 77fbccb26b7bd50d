//! One voter's submission.

use vstd::prelude::*;
use crate::names::Name;
use super::generic_domains::{Candidate, Voter};

verus! {

/// A ballot: who votes, and for whom. Without a candidate it is a blank vote.
#[derive(Debug)]
pub struct BallotPaper {
    pub voter: Voter,
    pub candidate: Option<Candidate>,
}

/// A ballot as contracts see it.
pub struct BallotView {
    pub voter: Name,
    pub candidate: Option<Name>,
}

impl View for BallotPaper {
    type V = BallotView;

    open spec fn view(&self) -> BallotView {
        BallotView {
            voter: self.voter@,
            candidate: match self.candidate {
                Some(candidate) => Some(candidate@),
                None => None,
            },
        }
    }
}

impl Clone for BallotPaper {
    fn clone(&self) -> (copy: Self)
        ensures
            copy@ == self@,
    {
        let candidate = match &self.candidate {
            Some(candidate) => Some(candidate.clone()),
            None => None,
        };
        BallotPaper { voter: self.voter.clone(), candidate }
    }
}

impl BallotPaper {
    /// The ballot of `voter` for `candidate`.
    #[must_use]
    pub fn new(voter: Voter, candidate: Option<Candidate>) -> (ballot: Self)
        ensures
            ballot.voter == voter,
            ballot.candidate == candidate,
    {
        Self { voter, candidate }
    }
}

} // verus!
