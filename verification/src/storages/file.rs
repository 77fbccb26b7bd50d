//! The voting machine as a document: what a store that writes the machine
//! down puts into its file, and what it makes of what it reads back.
//!
//! The document names the voters, gives each candidate's score, and the
//! counts of blank and invalid votes. Reading a document takes it as it
//! comes: a voter named twice is one voter, of two scores for one
//! candidate the later stands. A document whose scores do not account for
//! its voters is not a voting machine and is refused.

use vstd::prelude::*;
use crate::domain::generic_domains::{AttendenceSheet, Candidate, Score, Voter};
use crate::domain::scoreboard::{assigned, plain_pairs, Scoreboard, ScoreboardView};
use crate::domain::voting_machine::{MachineView, VotingMachine};
use crate::names::{in_order, lemma_listing_exists, Name};
use crate::sorted::names_of;
use crate::storage::StorageError;

verus! {

/// A scoreboard as it is written down.
#[derive(Clone, Debug, PartialEq, Eq)]
pub struct ScoreboardDAO {
    pub scores: Vec<(String, usize)>,
    pub blank_scores: usize,
    pub invalid_scores: usize,
}

/// A voting machine as it is written down.
#[derive(Clone, Debug, PartialEq, Eq)]
pub struct VotingMachineDAO {
    pub voters: Vec<String>,
    pub scoreboard: ScoreboardDAO,
}

/// A written scoreboard as contracts see it.
pub struct ScoreboardRecord {
    pub scores: Seq<(Name, nat)>,
    pub blank_scores: nat,
    pub invalid_scores: nat,
}

/// A written voting machine as contracts see it.
pub struct MachineRecord {
    pub voters: Seq<Name>,
    pub scoreboard: ScoreboardRecord,
}

impl View for ScoreboardDAO {
    type V = ScoreboardRecord;

    open spec fn view(&self) -> ScoreboardRecord {
        ScoreboardRecord {
            scores: Seq::new(
                self.scores@.len(),
                |i: int| (self.scores@[i].0@, self.scores@[i].1 as nat),
            ),
            blank_scores: self.blank_scores as nat,
            invalid_scores: self.invalid_scores as nat,
        }
    }
}

impl View for VotingMachineDAO {
    type V = MachineRecord;

    open spec fn view(&self) -> MachineRecord {
        MachineRecord {
            voters: Seq::new(self.voters@.len(), |i: int| self.voters@[i]@),
            scoreboard: self.scoreboard@,
        }
    }
}

impl ScoreboardRecord {
    /// The scoreboard that the record describes.
    pub open spec fn board(self) -> ScoreboardView {
        ScoreboardView {
            scores: assigned(self.scores),
            blank_score: self.blank_scores,
            invalid_score: self.invalid_scores,
        }
    }
}

impl MachineRecord {
    /// The attendance sheet and the scoreboard that the record describes.
    pub open spec fn machine(self) -> MachineView {
        MachineView { voters: self.voters.to_set(), scoreboard: self.scoreboard.board() }
    }

    /// The record describes a voting machine: its scores account for its
    /// voters.
    pub open spec fn sound(self) -> bool {
        self.machine().scoreboard.total() == self.machine().voters.len()
    }
}

/// The candidates of `scores` in the order of their names, each with their
/// score.
pub open spec fn listed_scores(names: Seq<Name>, scores: Map<Name, nat>) -> Seq<(Name, nat)> {
    Seq::new(names.len(), |i: int| (names[i], scores[names[i]]))
}

/// The record of a scoreboard.
pub open spec fn board_record(board: ScoreboardView) -> ScoreboardRecord {
    ScoreboardRecord {
        scores: listed_scores(in_order(board.scores.dom()), board.scores),
        blank_scores: board.blank_score,
        invalid_scores: board.invalid_score,
    }
}

/// The record of a voting machine.
pub open spec fn machine_record(machine: MachineView) -> MachineRecord {
    MachineRecord {
        voters: in_order(machine.voters),
        scoreboard: board_record(machine.scoreboard),
    }
}

/// Scores listed for candidates of a scoreboard, read back, are the
/// scoreboard's scores for those candidates.
pub proof fn lemma_listed_scores(names: Seq<Name>, scores: Map<Name, nat>)
    requires
        forall|i: int| 0 <= i < names.len() ==> scores.dom().contains(names[i]),
    ensures
        assigned(listed_scores(names, scores)) == scores.restrict(names.to_set()),
    decreases names.len(),
{
    let pairs = listed_scores(names, scores);
    if names.len() == 0 {
        assert(assigned(pairs) =~= scores.restrict(names.to_set()));
    } else {
        let earlier = names.drop_last();
        assert(pairs.drop_last() =~= listed_scores(earlier, scores));
        lemma_listed_scores(earlier, scores);
        assert(names =~= earlier.push(names.last()));
        earlier.lemma_push_to_set_commute(names.last());
        assert(assigned(pairs) =~= scores.restrict(names.to_set()));
    }
}

/// What a record assigns is a finite scoreboard.
pub proof fn lemma_assigned_finite(pairs: Seq<(Name, nat)>)
    ensures
        assigned(pairs).dom().finite(),
    decreases pairs.len(),
{
    if pairs.len() > 0 {
        lemma_assigned_finite(pairs.drop_last());
    }
}

/// Writing a machine down and reading the record gives the machine back.
pub proof fn lemma_record_round_trip(machine: MachineView)
    requires
        machine.balanced(),
    ensures
        machine_record(machine).sound(),
        machine_record(machine).machine() == machine,
{
    lemma_listing_exists(machine.voters);
    lemma_listing_exists(machine.scoreboard.scores.dom());
    let names = in_order(machine.scoreboard.scores.dom());
    assert forall|i: int| 0 <= i < names.len() implies machine.scoreboard.scores.dom().contains(
        names[i],
    ) by {
        assert(names.contains(names[i]));
    }
    lemma_listed_scores(names, machine.scoreboard.scores);
    assert(machine.scoreboard.scores.restrict(names.to_set()) =~= machine.scoreboard.scores);
}

/// A record that is read and written down again may differ from the
/// record that was read, but it describes the same machine.
pub proof fn lemma_rewritten_record(record: MachineRecord)
    requires
        record.sound(),
    ensures
        machine_record(record.machine()).sound(),
        machine_record(record.machine()).machine() == record.machine(),
{
    vstd::seq_lib::seq_to_set_is_finite(record.voters);
    lemma_assigned_finite(record.scoreboard.scores);
    lemma_record_round_trip(record.machine());
}

impl ScoreboardDAO {
    /// Writes a scoreboard down.
    pub fn from_scoreboard(value: &Scoreboard) -> (written: Self)
        ensures
            written@ == board_record(value@),
    {
        let list = value.tallies();
        let mut scores: Vec<(String, usize)> = Vec::new();
        let mut i: usize = 0;
        while i < list.len()
            invariant
                i <= list.len(),
                scores@.len() == i,
                forall|k: int| 0 <= k < i ==> (#[trigger] scores@[k]).0@ == list@[k].candidate@
                    && scores@[k].1 == list@[k].score.0,
            decreases list.len() - i,
        {
            scores.push((list[i].candidate.0.clone(), list[i].score.0));
            i = i + 1;
        }
        let written = ScoreboardDAO {
            scores,
            blank_scores: value.blank_score().0,
            invalid_scores: value.invalid_score().0,
        };
        assert(written@.scores =~= listed_scores(in_order(value@.scores.dom()), value@.scores));
        written
    }

    /// The scoreboard that is written here.
    pub fn into_scoreboard(self) -> (board: Scoreboard)
        ensures
            board@ == self@.board(),
    {
        let mut pairs: Vec<(Candidate, Score)> = Vec::new();
        let mut i: usize = 0;
        while i < self.scores.len()
            invariant
                i <= self.scores.len(),
                pairs@.len() == i,
                forall|k: int| 0 <= k < i ==> (#[trigger] pairs@[k]).0@ == self.scores@[k].0@
                    && pairs@[k].1.0 == self.scores@[k].1,
            decreases self.scores.len() - i,
        {
            pairs.push((Candidate(self.scores[i].0.clone()), Score(self.scores[i].1)));
            i = i + 1;
        }
        assert(plain_pairs(pairs@) =~= self@.scores);
        Scoreboard::with_scores(pairs, Score(self.blank_scores), Score(self.invalid_scores))
    }
}

impl VotingMachineDAO {
    /// Writes a voting machine down.
    pub fn from_machine(value: &VotingMachine) -> (written: Self)
        ensures
            written@ == machine_record(value@),
            written@.sound(),
            written@.machine() == value@,
    {
        let list = value.get_voter().voters();
        let mut voters: Vec<String> = Vec::new();
        let mut i: usize = 0;
        while i < list.len()
            invariant
                i <= list.len(),
                voters@.len() == i,
                forall|k: int| 0 <= k < i ==> (#[trigger] voters@[k])@ == list@[k]@,
            decreases list.len() - i,
        {
            voters.push(list[i].0.clone());
            i = i + 1;
        }
        let scoreboard = ScoreboardDAO::from_scoreboard(value.get_scoreboard());
        let written = VotingMachineDAO { voters, scoreboard };
        proof {
            assert(written@.voters =~= names_of(list@));
            lemma_record_round_trip(value@);
        }
        written
    }

    /// The voting machine that is written here, or `Decode` where the
    /// scores do not account for the voters.
    pub fn into_machine(self) -> (read: Result<VotingMachine, StorageError>)
        ensures
            read is Ok == self@.sound(),
            read matches Ok(machine) ==> machine@ == self@.machine(),
            read matches Err(error) ==> error == StorageError::Decode,
    {
        let mut voters = AttendenceSheet::default();
        let mut i: usize = 0;
        while i < self.voters.len()
            invariant
                i <= self.voters.len(),
                voters@ == self@.voters.take(i as int).to_set(),
            decreases self.voters.len() - i,
        {
            voters.insert(Voter(self.voters[i].clone()));
            proof {
                let before = self@.voters.take(i as int);
                assert(self@.voters.take(i + 1) =~= before.push(self@.voters[i as int]));
                before.lemma_push_to_set_commute(self@.voters[i as int]);
            }
            i = i + 1;
        }
        assert(self@.voters.take(i as int) =~= self@.voters);
        let scoreboard = self.scoreboard.into_scoreboard();
        match VotingMachine::checked_new(voters, scoreboard) {
            Some(machine) => Ok(machine),
            None => Err(StorageError::Decode),
        }
    }
}

} // verus!
