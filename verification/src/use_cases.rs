//! Submitting a ballot: read the machine, let it vote, write it back.

use vstd::prelude::*;
use crate::domain::ballot_paper::{BallotPaper, BallotView};
use crate::domain::generic_domains::{Candidate, Voter};
use crate::domain::vote_outcome::VoteOutcome;
use crate::domain::voting_machine::{MachineView, VotingMachine};
use crate::storage::{Storage, StorageError};

verus! {

/// A ballot as it is filled in: two texts. An empty candidate stands for a
/// blank vote.
#[derive(Debug)]
pub struct VoteForm {
    pub voter: String,
    pub candidate: String,
}

impl VoteForm {
    /// The ballot that the form stands for.
    pub open spec fn ballot(&self) -> BallotView {
        BallotView {
            voter: self.voter@,
            candidate: if self.candidate@.len() == 0 {
                None
            } else {
                Some(self.candidate@)
            },
        }
    }
}

impl From<BallotPaper> for VoteForm {
    fn from(value: BallotPaper) -> (form: Self)
        ensures
            form.voter@ == value@.voter,
            form.candidate@ == (match value@.candidate {
                Some(candidate) => candidate,
                None => Seq::<char>::empty(),
            }),
    {
        Self {
            voter: value.voter.0,
            candidate: match value.candidate {
                Some(candidate) => candidate.0,
                None => String::new(),
            },
        }
    }
}

/// A blank ballot becomes a form with an empty candidate, and ghost code
/// has no way to make an empty `String`. So `from_spec` only says what the
/// form reads as, and the contract of `from` is the one to go by.
impl vstd::std_specs::convert::FromSpecImpl<BallotPaper> for VoteForm {
    open spec fn obeys_from_spec() -> bool {
        false
    }

    open spec fn from_spec(value: BallotPaper) -> Self {
        choose|form: VoteForm|
            form.voter@ == value@.voter && form.candidate@ == (match value@.candidate {
                Some(candidate) => candidate,
                None => Seq::<char>::empty(),
            })
    }
}

impl From<VoteForm> for BallotPaper {
    fn from(value: VoteForm) -> (ballot: Self)
        ensures
            ballot@ == value.ballot(),
    {
        if value.candidate.as_str().is_empty() {
            Self { voter: Voter(value.voter), candidate: None }
        } else {
            Self { voter: Voter(value.voter), candidate: Some(Candidate(value.candidate)) }
        }
    }
}

impl vstd::std_specs::convert::FromSpecImpl<VoteForm> for BallotPaper {
    open spec fn obeys_from_spec() -> bool {
        true
    }

    open spec fn from_spec(value: VoteForm) -> Self {
        if value.candidate@.len() == 0 {
            BallotPaper { voter: Voter(value.voter), candidate: None }
        } else {
            BallotPaper { voter: Voter(value.voter), candidate: Some(Candidate(value.candidate)) }
        }
    }
}

/// Submits ballots to the machine kept in a store. Holding the controller
/// mutably is what makes a submission one step: no other submission can
/// read or write the store between its reading and its writing.
#[derive(Debug)]
pub struct VotingController<Store> {
    store: Store,
}

impl<Store: Storage> VotingController<Store> {
    /// The machine in the controller's store.
    pub closed spec fn stored(&self) -> MachineView {
        self.store.stored()
    }

    /// Whether the controller's store never fails.
    pub closed spec fn reliable(&self) -> bool {
        self.store.reliable()
    }

    /// The controller of the machine kept in `store`.
    pub fn new(store: Store) -> (controller: Self)
        ensures
            controller.stored() == store.stored(),
            controller.reliable() == store.reliable(),
    {
        Self { store }
    }

    /// Submits the ballot that `vote_forme` stands for. On success the
    /// machine in the store is the one after the vote. On failure the store
    /// keeps the machine it had, and nothing was counted.
    pub fn vote(&mut self, vote_forme: VoteForm) -> (submitted: Result<VoteOutcome, StorageError>)
        ensures
            submitted matches Ok(outcome) ==> outcome@ == old(self).stored().outcome(
                vote_forme.ballot(),
            ) && final(self).stored() == old(self).stored().after(vote_forme.ballot())
                && final(self).stored().balanced(),
            submitted matches Err(error) ==> error != StorageError::Initialization
                && final(self).stored() == old(self).stored(),
            old(self).reliable() ==> submitted is Ok,
            final(self).reliable() == old(self).reliable(),
    {
        let mut voting_machine = match self.store.get_voting_machine() {
            Ok(machine) => machine,
            Err(error) => {
                return Err(error);
            },
        };
        let outcome = voting_machine.vote(BallotPaper::from(vote_forme));
        match self.store.put_voting_machine(voting_machine) {
            Ok(()) => Ok(outcome),
            Err(error) => Err(error),
        }
    }

    /// The machine as it stands in the store.
    pub fn get_voting_machine(&self) -> (read: Result<VotingMachine, StorageError>)
        ensures
            read matches Ok(machine) ==> machine@ == self.stored() && machine@.balanced(),
            read matches Err(error) ==> error != StorageError::Initialization,
            self.reliable() ==> read is Ok,
    {
        self.store.get_voting_machine()
    }
}

} // verus!
