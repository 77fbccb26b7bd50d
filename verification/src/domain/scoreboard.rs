//! The tally: a score for each candidate, and the counts of blank and
//! invalid votes.

use vstd::prelude::*;
use crate::names::{
    ascending, in_order, lemma_ascending_distinct, lemma_in_order, name_before, Name,
};
use crate::sorted::{
    fits_at, found_at, lemma_fits_is_absent, lemma_insert_in_order, lemma_replace_keeps_names,
    locate, names_of, Named,
};
use super::generic_domains::{Candidate, Score};

verus! {

/// The sum of all the scores in `scores`.
pub open spec fn sum_of(scores: Map<Name, nat>) -> nat
    decreases scores.dom().len(),
    when scores.dom().finite()
{
    if scores.dom().len() == 0 {
        0
    } else {
        let name = scores.dom().choose();
        scores[name] + sum_of(scores.remove(name))
    }
}

/// A scoreboard as contracts see it.
pub struct ScoreboardView {
    /// The score of each candidate.
    pub scores: Map<Name, nat>,
    /// The number of blank votes.
    pub blank_score: nat,
    /// The number of invalid votes.
    pub invalid_score: nat,
}

impl ScoreboardView {
    /// All the votes counted: for a candidate, blank or invalid.
    pub open spec fn total(self) -> nat {
        sum_of(self.scores) + self.blank_score + self.invalid_score
    }
}

/// The sum can be taken starting from any candidate.
pub proof fn lemma_sum_split(scores: Map<Name, nat>, name: Name)
    requires
        scores.dom().finite(),
        scores.dom().contains(name),
    ensures
        sum_of(scores) == scores[name] + sum_of(scores.remove(name)),
    decreases scores.dom().len(),
{
    let first = scores.dom().choose();
    if first != name {
        let rest = scores.remove(first);
        lemma_sum_split(rest, name);
        let other = scores.remove(name);
        lemma_sum_split(other, first);
        assert(rest.remove(name) =~= other.remove(first));
    }
}

/// Setting one score changes the sum by the difference.
pub proof fn lemma_sum_insert(scores: Map<Name, nat>, name: Name, score: nat)
    requires
        scores.dom().finite(),
    ensures
        scores.dom().contains(name) ==> sum_of(scores.insert(name, score)) + scores[name]
            == sum_of(scores) + score,
        !scores.dom().contains(name) ==> sum_of(scores.insert(name, score)) == sum_of(scores)
            + score,
{
    let after = scores.insert(name, score);
    lemma_sum_split(after, name);
    assert(after.remove(name) =~= scores.remove(name));
    if scores.dom().contains(name) {
        lemma_sum_split(scores, name);
    } else {
        assert(scores.remove(name) =~= scores);
    }
}

/// Where every score is zero, so is the sum.
pub proof fn lemma_sum_zero(scores: Map<Name, nat>)
    requires
        scores.dom().finite(),
        forall|name: Name| scores.dom().contains(name) ==> scores[name] == 0,
    ensures
        sum_of(scores) == 0,
    decreases scores.dom().len(),
{
    if scores.dom().len() != 0 {
        lemma_sum_zero(scores.remove(scores.dom().choose()));
    }
}

/// A candidate with the votes counted for them.
#[derive(Debug, PartialEq, Eq)]
pub struct Tally {
    pub candidate: Candidate,
    pub score: Score,
}

impl Named for Tally {
    open spec fn name(&self) -> Name {
        self.candidate@
    }

    fn label(&self) -> (text: &str) {
        self.candidate.0.as_str()
    }
}

impl Clone for Tally {
    fn clone(&self) -> (copy: Self)
        ensures
            copy.candidate@ == self.candidate@,
            copy.score == self.score,
    {
        Tally { candidate: self.candidate.clone(), score: self.score }
    }
}

/// The score of each candidate named in `tallies`.
pub open spec fn scores_of(tallies: Seq<Tally>) -> Map<Name, nat> {
    Map::new(
        |name: Name| names_of(tallies).contains(name),
        |name: Name| tallies[names_of(tallies).index_of(name)].score@,
    )
}

/// Pairs of a name and a score, read as assignments made one after the
/// other: a later pair replaces an earlier one for the same name.
pub open spec fn assigned(pairs: Seq<(Name, nat)>) -> Map<Name, nat>
    decreases pairs.len(),
{
    if pairs.len() == 0 {
        Map::empty()
    } else {
        assigned(pairs.drop_last()).insert(pairs.last().0, pairs.last().1)
    }
}

/// Candidates and scores as pairs of plain values.
pub open spec fn plain_pairs(pairs: Seq<(Candidate, Score)>) -> Seq<(Name, nat)> {
    Seq::new(pairs.len(), |i: int| (pairs[i].0@, pairs[i].1@))
}

/// The scoreboard on which each of `candidates` stands at zero.
pub open spec fn all_zero(candidates: Seq<Name>) -> Map<Name, nat> {
    Map::new(|name: Name| candidates.contains(name), |name: Name| 0nat)
}

/// What `scores_of` holds for tallies in name order: the names are those of
/// the tallies, and each tally gives its candidate's score.
pub proof fn lemma_scores_of(tallies: Seq<Tally>)
    requires
        ascending(names_of(tallies)),
    ensures
        scores_of(tallies).dom() == names_of(tallies).to_set(),
        scores_of(tallies).dom().finite(),
        forall|i: int|
            0 <= i < tallies.len() ==> #[trigger] scores_of(tallies)[tallies[i].name()]
                == tallies[i].score@,
{
    let names = names_of(tallies);
    lemma_ascending_distinct(names);
    vstd::seq_lib::seq_to_set_is_finite(names);
    assert forall|i: int| 0 <= i < tallies.len() implies #[trigger] scores_of(
        tallies,
    )[tallies[i].name()] == tallies[i].score@ by {
        // The name stands at `i` and nowhere else.
        assert(names[i] == tallies[i].name());
        assert(names.index_of(names[i]) == i);
    }
}

/// A tally put where its name fits adds its candidate and score.
pub proof fn lemma_scores_insert(tallies: Seq<Tally>, tally: Tally, place: int)
    requires
        ascending(names_of(tallies)),
        fits_at(tallies, tally.name(), place),
    ensures
        ascending(names_of(tallies.insert(place, tally))),
        scores_of(tallies.insert(place, tally)) == scores_of(tallies).insert(
            tally.name(),
            tally.score@,
        ),
{
    let after = tallies.insert(place, tally);
    lemma_insert_in_order(tallies, tally, place);
    lemma_fits_is_absent(tallies, tally.name(), place);
    lemma_scores_of(tallies);
    lemma_scores_of(after);
    tallies.insert_ensures(place, tally);
    let expected = scores_of(tallies).insert(tally.name(), tally.score@);
    assert forall|name: Name| scores_of(after).dom().contains(name) implies scores_of(after)[name]
        == expected[name] by {
        let i = choose|i: int| 0 <= i < names_of(after).len() && names_of(after)[i] == name;
        assert(scores_of(after)[after[i].name()] == after[i].score@);
        if i != place {
            // A tally that was there before, at `i` or one place earlier.
            let a = if i < place { i } else { i - 1 };
            assert(after[i] == tallies[a]);
            assert(scores_of(tallies)[tallies[a].name()] == tallies[a].score@);
        }
    }
    assert(scores_of(after) =~= expected);
}

/// A tally put in the place of one with the same name replaces its score.
pub proof fn lemma_scores_update(tallies: Seq<Tally>, tally: Tally, place: int)
    requires
        ascending(names_of(tallies)),
        found_at(tallies, tally.name(), place),
    ensures
        ascending(names_of(tallies.update(place, tally))),
        scores_of(tallies.update(place, tally)) == scores_of(tallies).insert(
            tally.name(),
            tally.score@,
        ),
{
    let after = tallies.update(place, tally);
    lemma_replace_keeps_names(tallies, tally, place);
    lemma_scores_of(tallies);
    lemma_scores_of(after);
    let expected = scores_of(tallies).insert(tally.name(), tally.score@);
    lemma_ascending_distinct(names_of(tallies));
    assert(names_of(tallies)[place] == tally.name());
    assert forall|name: Name| scores_of(after).dom().contains(name) implies scores_of(after)[name]
        == expected[name] by {
        let i = choose|i: int| 0 <= i < names_of(after).len() && names_of(after)[i] == name;
        assert(scores_of(after)[after[i].name()] == after[i].score@);
        if i != place {
            assert(after[i] == tallies[i]);
            assert(scores_of(tallies)[tallies[i].name()] == tallies[i].score@);
        }
    }
    assert(scores_of(after) =~= expected);
}

/// The first `count` tallies of a list in name order are in name order, and
/// taking one more adds that tally's candidate and score.
pub proof fn lemma_scores_prefix(tallies: Seq<Tally>, count: int)
    requires
        ascending(names_of(tallies)),
        0 <= count < tallies.len(),
    ensures
        ascending(names_of(tallies.take(count))),
        ascending(names_of(tallies.take(count + 1))),
        !scores_of(tallies.take(count)).dom().contains(tallies[count].name()),
        scores_of(tallies.take(count + 1)) == scores_of(tallies.take(count)).insert(
            tallies[count].name(),
            tallies[count].score@,
        ),
{
    let shorter = tallies.take(count);
    assert forall|i: int, j: int| 0 <= i < j < shorter.len() implies name_before(
        names_of(shorter)[i],
        names_of(shorter)[j],
    ) by {
        assert(name_before(names_of(tallies)[i], names_of(tallies)[j]));
    }
    assert(fits_at(shorter, tallies[count].name(), count)) by {
        assert forall|i: int| 0 <= i < count implies name_before(
            #[trigger] shorter[i].name(),
            tallies[count].name(),
        ) by {
            assert(name_before(names_of(tallies)[i], names_of(tallies)[count]));
        }
    }
    lemma_scores_insert(shorter, tallies[count], count);
    assert(shorter.insert(count, tallies[count]) =~= tallies.take(count + 1));
    lemma_fits_is_absent(shorter, tallies[count].name(), count);
    lemma_scores_of(shorter);
}

/// The scores of the first tallies of a list sum to no more than those of
/// the whole list.
pub proof fn lemma_prefix_sum(tallies: Seq<Tally>, count: int)
    requires
        ascending(names_of(tallies)),
        0 <= count <= tallies.len(),
    ensures
        sum_of(scores_of(tallies.take(count))) <= sum_of(scores_of(tallies)),
    decreases tallies.len() - count,
{
    if count == tallies.len() {
        assert(tallies.take(count) =~= tallies);
    } else {
        lemma_scores_prefix(tallies, count);
        lemma_scores_of(tallies.take(count));
        lemma_sum_insert(
            scores_of(tallies.take(count)),
            tallies[count].name(),
            tallies[count].score@,
        );
        lemma_prefix_sum(tallies, count + 1);
    }
}

/// The tally of an election: the score of each candidate, kept in the order
/// of the candidates' names, and the counts of blank and invalid votes.
#[derive(Debug, PartialEq, Eq)]
pub struct Scoreboard {
    tallies: Vec<Tally>,
    blank_score: Score,
    invalid_score: Score,
}

impl View for Scoreboard {
    type V = ScoreboardView;

    closed spec fn view(&self) -> ScoreboardView {
        ScoreboardView {
            scores: scores_of(self.tallies@),
            blank_score: self.blank_score@,
            invalid_score: self.invalid_score@,
        }
    }
}

impl Scoreboard {
    #[verifier::type_invariant]
    spec fn in_name_order(self) -> bool {
        ascending(names_of(self.tallies@))
    }

    /// A scoreboard holds finitely many candidates.
    pub proof fn lemma_finite(&self)
        ensures
            self@.scores.dom().finite(),
    {
        vstd::seq_lib::seq_to_set_is_finite(names_of(self.tallies@));
    }

    /// The scoreboard before any vote: each of `candidates` at zero, no
    /// blank and no invalid vote. A candidate named twice is listed once.
    #[must_use]
    pub fn new(candidates: Vec<Candidate>) -> (board: Self)
        ensures
            board@.scores == all_zero(candidates@.map_values(|c: Candidate| c@)),
            board@.blank_score == 0,
            board@.invalid_score == 0,
    {
        let mut board = Scoreboard {
            tallies: Vec::new(),
            blank_score: Score(0),
            invalid_score: Score(0),
        };
        let ghost names = candidates@.map_values(|c: Candidate| c@);
        let mut i: usize = 0;
        while i < candidates.len()
            invariant
                i <= candidates.len(),
                names == candidates@.map_values(|c: Candidate| c@),
                board@.scores == all_zero(names.take(i as int)),
                board@.blank_score == 0,
                board@.invalid_score == 0,
            decreases candidates.len() - i,
        {
            board.insert(candidates[i].clone(), Score(0));
            proof {
                let before = names.take(i as int);
                assert(names.take(i + 1) =~= before.push(names[i as int]));
                before.lemma_push_to_set_commute(names[i as int]);
                assert(board@.scores =~= all_zero(names.take(i + 1)));
            }
            i = i + 1;
        }
        assert(names.take(i as int) =~= names);
        board
    }

    /// The scoreboard with the given scores and counts. Where `scores` names
    /// a candidate more than once, the last score given stands.
    #[must_use]
    pub fn with_scores(
        scores: Vec<(Candidate, Score)>,
        blank_score: Score,
        invalid_score: Score,
    ) -> (board: Self)
        ensures
            board@.scores == assigned(plain_pairs(scores@)),
            board@.blank_score == blank_score@,
            board@.invalid_score == invalid_score@,
    {
        let mut board = Scoreboard { tallies: Vec::new(), blank_score, invalid_score };
        let ghost pairs = plain_pairs(scores@);
        let mut i: usize = 0;
        while i < scores.len()
            invariant
                i <= scores.len(),
                pairs == plain_pairs(scores@),
                board@.scores == assigned(pairs.take(i as int)),
                board@.blank_score == blank_score@,
                board@.invalid_score == invalid_score@,
            decreases scores.len() - i,
        {
            board.insert(scores[i].0.clone(), scores[i].1);
            proof {
                assert(pairs.take(i + 1).drop_last() =~= pairs.take(i as int));
            }
            i = i + 1;
        }
        assert(pairs.take(i as int) =~= pairs);
        board
    }

    /// Sets the score of `candidate`, who joins the scoreboard if not yet on
    /// it. Returns the score that was replaced.
    pub fn insert(&mut self, candidate: Candidate, score: Score) -> (replaced: Option<Score>)
        ensures
            final(self)@.scores == old(self)@.scores.insert(candidate@, score@),
            final(self)@.blank_score == old(self)@.blank_score,
            final(self)@.invalid_score == old(self)@.invalid_score,
            replaced is Some == old(self)@.scores.dom().contains(candidate@),
            replaced matches Some(was) ==> was@ == old(self)@.scores[candidate@],
    {
        proof {
            use_type_invariant(&*self);
            lemma_scores_of(self.tallies@);
        }
        let (place, found) = locate(&self.tallies, candidate.0.as_str());
        // The list is taken out, changed and put back: while it is out,
        // the scoreboard is one without candidates.
        let mut tallies: Vec<Tally> = Vec::new();
        std::mem::swap(&mut self.tallies, &mut tallies);
        let tally = Tally { candidate, score };
        if found {
            let was = tallies[place].score;
            proof {
                lemma_scores_update(tallies@, tally, place as int);
            }
            tallies.set(place, tally);
            self.tallies = tallies;
            Some(was)
        } else {
            proof {
                lemma_scores_insert(tallies@, tally, place as int);
            }
            tallies.insert(place, tally);
            self.tallies = tallies;
            None
        }
    }

    /// The score of `candidate`, if on the scoreboard.
    pub fn score_of(&self, candidate: &Candidate) -> (score: Option<Score>)
        ensures
            score is Some == self@.scores.dom().contains(candidate@),
            score matches Some(found) ==> found@ == self@.scores[candidate@],
    {
        proof {
            use_type_invariant(self);
            lemma_scores_of(self.tallies@);
        }
        let (place, found) = locate(&self.tallies, candidate.0.as_str());
        if found {
            Some(self.tallies[place].score)
        } else {
            None
        }
    }

    /// The number of blank votes.
    pub fn blank_score(&self) -> (score: Score)
        ensures
            score@ == self@.blank_score,
    {
        self.blank_score
    }

    /// The number of invalid votes.
    pub fn invalid_score(&self) -> (score: Score)
        ensures
            score@ == self@.invalid_score,
    {
        self.invalid_score
    }

    /// The candidates with their scores, in the order of their names.
    pub fn tallies(&self) -> (list: &Vec<Tally>)
        ensures
            names_of(list@) == in_order(self@.scores.dom()),
            forall|i: int|
                0 <= i < list@.len() ==> self@.scores.dom().contains(
                    (#[trigger] list@[i]).candidate@,
                ) && list@[i].score@ == self@.scores[list@[i].candidate@],
    {
        proof {
            use_type_invariant(self);
            lemma_scores_of(self.tallies@);
            lemma_in_order(names_of(self.tallies@));
            assert forall|i: int| 0 <= i < self.tallies@.len() implies self@.scores.dom().contains(
                (#[trigger] self.tallies@[i]).candidate@,
            ) && self.tallies@[i].score@ == self@.scores[self.tallies@[i].candidate@] by {
                assert(names_of(self.tallies@)[i] == self.tallies@[i].name());
                assert(scores_of(self.tallies@)[self.tallies@[i].name()] == self.tallies@[i].score@);
            }
        }
        &self.tallies
    }

    /// All the votes counted, if their number fits a `usize`.
    pub fn total(&self) -> (total: Option<usize>)
        ensures
            total matches Some(votes) ==> votes == self@.total(),
            total is None ==> self@.total() > usize::MAX,
    {
        proof {
            use_type_invariant(self);
        }
        let mut votes: usize = 0;
        let mut i: usize = 0;
        assert(scores_of(self.tallies@.take(0)).dom() =~= Set::<Name>::empty());
        while i < self.tallies.len()
            invariant
                i <= self.tallies.len(),
                ascending(names_of(self.tallies@)),
                votes == sum_of(scores_of(self.tallies@.take(i as int))),
            decreases self.tallies.len() - i,
        {
            let score = self.tallies[i].score.0;
            proof {
                lemma_scores_prefix(self.tallies@, i as int);
                lemma_scores_of(self.tallies@.take(i as int));
                lemma_sum_insert(
                    scores_of(self.tallies@.take(i as int)),
                    self.tallies@[i as int].name(),
                    self.tallies@[i as int].score@,
                );
                lemma_prefix_sum(self.tallies@, i + 1);
            }
            if score > usize::MAX - votes {
                return None;
            }
            votes = votes + score;
            i = i + 1;
        }
        assert(self.tallies@.take(i as int) =~= self.tallies@);
        if self.blank_score.0 > usize::MAX - votes {
            return None;
        }
        votes = votes + self.blank_score.0;
        if self.invalid_score.0 > usize::MAX - votes {
            return None;
        }
        Some(votes + self.invalid_score.0)
    }

    /// Counts one more blank vote.
    pub(crate) fn count_blank(&mut self)
        requires
            old(self)@.blank_score < usize::MAX,
        ensures
            final(self)@ == (ScoreboardView {
                blank_score: old(self)@.blank_score + 1,
                ..old(self)@
            }),
    {
        proof {
            use_type_invariant(&*self);
        }
        self.blank_score = Score(self.blank_score.0 + 1);
    }

    /// Counts one more invalid vote.
    pub(crate) fn count_invalid(&mut self)
        requires
            old(self)@.invalid_score < usize::MAX,
        ensures
            final(self)@ == (ScoreboardView {
                invalid_score: old(self)@.invalid_score + 1,
                ..old(self)@
            }),
    {
        proof {
            use_type_invariant(&*self);
        }
        self.invalid_score = Score(self.invalid_score.0 + 1);
    }

    /// Counts one more vote for `candidate`, if on the scoreboard. Returns
    /// `false`, and changes nothing, if not.
    pub(crate) fn count_for(&mut self, candidate: &Candidate) -> (counted: bool)
        requires
            old(self)@.scores.dom().contains(candidate@) ==> old(self)@.scores[candidate@]
                < usize::MAX,
        ensures
            counted == old(self)@.scores.dom().contains(candidate@),
            counted ==> final(self)@ == (ScoreboardView {
                scores: old(self)@.scores.insert(candidate@, old(self)@.scores[candidate@] + 1),
                ..old(self)@
            }),
            !counted ==> final(self)@ == old(self)@,
    {
        match self.score_of(candidate) {
            Some(score) => {
                self.insert(candidate.clone(), Score(score.0 + 1));
                true
            },
            None => false,
        }
    }
}

impl Clone for Scoreboard {
    fn clone(&self) -> (copy: Self)
        ensures
            copy@ == self@,
    {
        proof {
            use_type_invariant(self);
        }
        let mut tallies: Vec<Tally> = Vec::new();
        let mut i: usize = 0;
        while i < self.tallies.len()
            invariant
                i <= self.tallies.len(),
                tallies@.len() == i,
                forall|k: int| 0 <= k < i ==> tallies@[k].candidate@ == self.tallies@[k].candidate@
                    && tallies@[k].score == self.tallies@[k].score,
            decreases self.tallies.len() - i,
        {
            tallies.push(self.tallies[i].clone());
            i = i + 1;
        }
        proof {
            assert(names_of(tallies@) =~= names_of(self.tallies@));
            lemma_scores_of(tallies@);
            lemma_scores_of(self.tallies@);
            assert forall|name: Name| scores_of(tallies@).dom().contains(name) implies scores_of(
                tallies@,
            )[name] == scores_of(self.tallies@)[name] by {
                let k = choose|k: int|
                    0 <= k < names_of(tallies@).len() && names_of(tallies@)[k] == name;
                assert(scores_of(tallies@)[tallies@[k].name()] == tallies@[k].score@);
                assert(scores_of(self.tallies@)[self.tallies@[k].name()] == self.tallies@[k].score@);
            }
            assert(scores_of(tallies@) =~= scores_of(self.tallies@));
        }
        Scoreboard { tallies, blank_score: self.blank_score, invalid_score: self.invalid_score }
    }
}

} // verus!
