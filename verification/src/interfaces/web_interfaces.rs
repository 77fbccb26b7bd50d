//! The voting form: what is answered to a form that was sent in.

use vstd::prelude::*;
use crate::domain::voting_machine::MachineView;
use crate::storage::{Storage, StorageError};
use crate::use_cases::{VoteForm, VotingController};
use super::lexicon::Lexicon;
use super::{outcome_text, show_vote_outcome};

verus! {

/// The answer to `form` of a machine that stands as `machine`, in the words
/// of `lexicon`: that the voter is missing, or what became of the vote.
pub open spec fn form_answer_text(machine: MachineView, form: VoteForm, lexicon: Lexicon) -> Seq<
    char,
> {
    if form.voter@.len() == 0 {
        lexicon.candidate_missing@
    } else {
        outcome_text(machine.outcome(form.ballot()), lexicon)
    }
}

/// The machine after `form` was sent in: a form without a voter changes
/// nothing.
pub open spec fn machine_after_form(machine: MachineView, form: VoteForm) -> MachineView {
    if form.voter@.len() == 0 {
        machine
    } else {
        machine.after(form.ballot())
    }
}

/// Submits the ballot of a form and tells the outcome. A form that names no
/// voter is answered at once and never reaches the store.
pub fn vote<Store: Storage>(
    vote_form: VoteForm,
    controller: &mut VotingController<Store>,
    lexicon: &Lexicon,
) -> (answer: Result<String, StorageError>)
    ensures
        answer matches Ok(text) ==> text@ == form_answer_text(
            old(controller).stored(),
            vote_form,
            *lexicon,
        ) && final(controller).stored() == machine_after_form(old(controller).stored(), vote_form),
        answer matches Err(error) ==> error != StorageError::Initialization
            && final(controller).stored() == old(controller).stored(),
        vote_form.voter@.len() == 0 || old(controller).reliable() ==> answer is Ok,
        final(controller).reliable() == old(controller).reliable(),
{
    if vote_form.voter.as_str().is_empty() {
        return Ok(String::from_str(lexicon.candidate_missing));
    }
    match controller.vote(vote_form) {
        Ok(outcome) => Ok(show_vote_outcome(outcome, lexicon)),
        Err(error) => Err(error),
    }
}

} // verus!
