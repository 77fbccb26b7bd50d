//! Voters, candidates, scores and the attendance sheet.

use vstd::prelude::*;
use crate::numerals::{decimal, decimal_text};
use crate::names::{ascending, in_order, lemma_ascending_distinct, lemma_in_order, Name};
use crate::sorted::{lemma_insert_in_order, locate, names_of, Named};

verus! {

/// Someone who votes, known by name.
#[derive(Debug, PartialEq, Eq, PartialOrd, Ord)]
pub struct Voter(pub String);

impl View for Voter {
    type V = Name;

    open spec fn view(&self) -> Name {
        self.0@
    }
}

impl Clone for Voter {
    fn clone(&self) -> (copy: Self)
        ensures
            copy@ == self@,
    {
        Voter(self.0.clone())
    }
}

impl Voter {
    /// The voter's name as text.
    pub fn to_string(&self) -> (text: String)
        ensures
            text@ == self@,
    {
        self.0.clone()
    }
}

impl Named for Voter {
    open spec fn name(&self) -> Name {
        self@
    }

    fn label(&self) -> (text: &str) {
        self.0.as_str()
    }
}

/// Someone who can be voted for, known by name.
#[derive(Debug, PartialEq, Eq, PartialOrd, Ord)]
pub struct Candidate(pub String);

impl View for Candidate {
    type V = Name;

    open spec fn view(&self) -> Name {
        self.0@
    }
}

impl Clone for Candidate {
    fn clone(&self) -> (copy: Self)
        ensures
            copy@ == self@,
    {
        Candidate(self.0.clone())
    }
}

impl Candidate {
    /// The candidate's name as text.
    pub fn to_string(&self) -> (text: String)
        ensures
            text@ == self@,
    {
        self.0.clone()
    }
}

/// A number of votes.
#[derive(Clone, Copy, Debug, PartialEq, Eq, PartialOrd, Ord, Structural)]
pub struct Score(pub usize);

impl View for Score {
    type V = nat;

    open spec fn view(&self) -> nat {
        self.0 as nat
    }
}

impl Score {
    /// The score in decimal.
    pub fn to_string(&self) -> (text: String)
        ensures
            text@ == decimal(self@),
    {
        decimal_text(self.0)
    }
}

impl Default for Score {
    fn default() -> (zero: Self)
        ensures
            zero.0 == 0,
    {
        Score(0)
    }
}

/// The voters who have voted, each once, kept in the order of their names.
#[derive(Debug, PartialEq, Eq)]
pub struct AttendenceSheet {
    voters: Vec<Voter>,
}

impl View for AttendenceSheet {
    type V = Set<Name>;

    closed spec fn view(&self) -> Set<Name> {
        names_of(self.voters@).to_set()
    }
}

impl AttendenceSheet {
    #[verifier::type_invariant]
    spec fn in_name_order(self) -> bool {
        ascending(names_of(self.voters@))
    }

    /// An attendance sheet holds finitely many names.
    pub proof fn lemma_finite(&self)
        ensures
            self@.finite(),
    {
        vstd::seq_lib::seq_to_set_is_finite(names_of(self.voters@));
    }

    /// Whether `voter` is on the sheet.
    pub fn contains(&self, voter: &Voter) -> (present: bool)
        ensures
            present == self@.contains(voter@),
    {
        proof {
            use_type_invariant(self);
        }
        let (_, found) = locate(&self.voters, voter.label());
        found
    }

    /// Puts `voter` on the sheet. Returns `false`, and changes nothing, if
    /// the voter was on it already.
    pub fn insert(&mut self, voter: Voter) -> (fresh: bool)
        ensures
            fresh == !old(self)@.contains(voter@),
            final(self)@ == old(self)@.insert(voter@),
    {
        proof {
            use_type_invariant(&*self);
        }
        let (place, found) = locate(&self.voters, voter.label());
        if found {
            false
        } else {
            // The list is taken out, changed and put back: while it is
            // out, the sheet is an empty one.
            let mut voters: Vec<Voter> = Vec::new();
            std::mem::swap(&mut self.voters, &mut voters);
            proof {
                lemma_insert_in_order(voters@, voter, place as int);
            }
            voters.insert(place, voter);
            self.voters = voters;
            true
        }
    }

    /// How many voters are on the sheet.
    pub fn len(&self) -> (count: usize)
        ensures
            count == self@.len(),
            self@.finite(),
    {
        proof {
            use_type_invariant(self);
            lemma_ascending_distinct(names_of(self.voters@));
            names_of(self.voters@).unique_seq_to_set();
            self.lemma_finite();
        }
        self.voters.len()
    }

    /// Whether nobody is on the sheet.
    pub fn is_empty(&self) -> (empty: bool)
        ensures
            empty == (self@ == Set::<Name>::empty()),
    {
        proof {
            if self.voters@.len() == 0 {
                assert(self@ =~= Set::<Name>::empty());
            } else {
                assert(names_of(self.voters@)[0] == self.voters@[0]@);
                assert(self@.contains(self.voters@[0]@));
            }
        }
        self.voters.len() == 0
    }

    /// The voters on the sheet, in the order of their names.
    pub fn voters(&self) -> (list: &Vec<Voter>)
        ensures
            names_of(list@) == in_order(self@),
    {
        proof {
            use_type_invariant(self);
            lemma_in_order(names_of(self.voters@));
        }
        &self.voters
    }
}

impl Default for AttendenceSheet {
    /// The sheet before anyone has voted.
    fn default() -> (sheet: Self)
        ensures
            sheet@ == Set::<Name>::empty(),
    {
        AttendenceSheet { voters: Vec::new() }
    }
}

impl Clone for AttendenceSheet {
    fn clone(&self) -> (copy: Self)
        ensures
            copy@ == self@,
    {
        proof {
            use_type_invariant(self);
        }
        let mut voters: Vec<Voter> = Vec::new();
        let mut i: usize = 0;
        while i < self.voters.len()
            invariant
                i <= self.voters.len(),
                voters@.len() == i,
                forall|k: int| 0 <= k < i ==> voters@[k]@ == self.voters@[k]@,
            decreases self.voters.len() - i,
        {
            voters.push(self.voters[i].clone());
            i = i + 1;
        }
        assert(names_of(voters@) =~= names_of(self.voters@));
        AttendenceSheet { voters }
    }
}

} // verus!
