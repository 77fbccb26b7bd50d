//! What a run starts from: the machine before the first vote and the words
//! of the chosen language.

use vstd::prelude::*;
use crate::configuration::{Configuration, LanguageType};
use crate::domain::generic_domains::Candidate;
use crate::domain::voting_machine::{opening, VotingMachine};
use crate::interfaces::lexicon::Lexicon;
use crate::names::Name;

verus! {

/// The names of the candidates that `configuration` lists.
pub open spec fn candidate_names(configuration: &Configuration) -> Seq<Name> {
    Seq::new(configuration.candidates@.len(), |i: int| configuration.candidates@[i]@)
}

/// The machine that a run starts with: the configured candidates at zero,
/// nobody on the attendance sheet.
pub fn opening_machine(configuration: &Configuration) -> (machine: VotingMachine)
    ensures
        machine@ == opening(candidate_names(configuration)),
{
    let mut candidates: Vec<Candidate> = Vec::new();
    let mut i: usize = 0;
    while i < configuration.candidates.len()
        invariant
            i <= configuration.candidates.len(),
            candidates@.len() == i,
            forall|k: int| 0 <= k < i ==> (#[trigger] candidates@[k])@ == configuration.candidates@[k]@,
        decreases configuration.candidates.len() - i,
    {
        candidates.push(Candidate(configuration.candidates[i].clone()));
        i = i + 1;
    }
    assert(candidates@.map_values(|c: Candidate| c@) =~= candidate_names(configuration));
    VotingMachine::open(candidates)
}

/// The words of the configured language.
pub fn lexicon_of(configuration: &Configuration) -> (words: Lexicon)
    ensures
        words == (match configuration.language {
            LanguageType::Fr => Lexicon::french_words(),
            LanguageType::En => Lexicon::english_words(),
        }),
{
    match configuration.language {
        LanguageType::Fr => Lexicon::french(),
        LanguageType::En => Lexicon::english(),
    }
}

} // verus!
