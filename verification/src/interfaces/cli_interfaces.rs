//! The line protocol: one command per line, one block of text in answer.

use vstd::prelude::*;
use crate::domain::ballot_paper::{BallotPaper, BallotView};
use crate::domain::generic_domains::{AttendenceSheet, Candidate, Voter};
use crate::domain::scoreboard::{Scoreboard, ScoreboardView};
use crate::domain::voting_machine::MachineView;
use crate::names::{in_order, same_text, Name};
use crate::numerals::{decimal, decimal_text};
use crate::sorted::names_of;
use crate::storage::{Storage, StorageError};
use crate::use_cases::{VoteForm, VotingController};
use super::lexicon::Lexicon;
use super::{outcome_text, show_vote_outcome};

verus! {

/// The lines of an attendance sheet: a dash, a space and the name for each
/// of `names`.
pub open spec fn roll_text(names: Seq<Name>) -> Seq<char>
    decreases names.len(),
{
    if names.len() == 0 {
        Seq::empty()
    } else {
        roll_text(names.drop_last()) + seq!['-', ' '] + names.last() + seq!['\n']
    }
}

/// The attendance sheet as text: the title, then the voters in the order
/// of their names, one to a line.
pub open spec fn attendance_text(voters: Set<Name>, lexicon: Lexicon) -> Seq<char> {
    lexicon.voters_title@ + roll_text(in_order(voters))
}

/// The lines of a scoreboard: the name, a colon, a space and the score for
/// each of `names`.
pub open spec fn tally_text(names: Seq<Name>, scores: Map<Name, nat>) -> Seq<char>
    decreases names.len(),
{
    if names.len() == 0 {
        Seq::empty()
    } else {
        tally_text(names.drop_last(), scores) + names.last() + seq![':', ' '] + decimal(
            scores[names.last()],
        ) + seq!['\n']
    }
}

/// The scoreboard as text: the title, then the candidates with their
/// scores in the order of their names, one to a line, then the blank votes
/// and, without a line break after them, the invalid votes.
pub open spec fn scoreboard_text(board: ScoreboardView, lexicon: Lexicon) -> Seq<char> {
    lexicon.scores_title@ + tally_text(in_order(board.scores.dom()), board.scores)
        + lexicon.blank@ + seq![':', ' '] + decimal(board.blank_score) + seq!['\n']
        + lexicon.invalid@ + seq![':', ' '] + decimal(board.invalid_score)
}

/// Writes out the attendance sheet.
pub fn show_attendence_sheet(voters: &AttendenceSheet, lexicon: &Lexicon) -> (text: String)
    ensures
        text@ == attendance_text(voters@, *lexicon),
{
    proof {
        reveal_strlit("- ");
        reveal_strlit("\n");
    }
    let list = voters.voters();
    let ghost names = names_of(list@);
    let mut text = String::from_str(lexicon.voters_title);
    let mut i: usize = 0;
    while i < list.len()
        invariant
            i <= list.len(),
            names == names_of(list@),
            "- "@ == seq!['-', ' '],
            "\n"@ == seq!['\n'],
            text@ == lexicon.voters_title@ + roll_text(names.take(i as int)),
        decreases list.len() - i,
    {
        text.append("- ");
        text.append(list[i].0.as_str());
        text.append("\n");
        proof {
            assert(names.take(i + 1).drop_last() =~= names.take(i as int));
        }
        i = i + 1;
    }
    assert(names.take(i as int) =~= names);
    text
}

/// Writes out the scoreboard.
pub fn show_scoreboard(scores: &Scoreboard, lexicon: &Lexicon) -> (text: String)
    ensures
        text@ == scoreboard_text(scores@, *lexicon),
{
    proof {
        reveal_strlit(": ");
        reveal_strlit("\n");
    }
    let list = scores.tallies();
    let ghost names = names_of(list@);
    let ghost board = scores@;
    let mut text = String::from_str(lexicon.scores_title);
    let mut i: usize = 0;
    while i < list.len()
        invariant
            i <= list.len(),
            names == names_of(list@),
            forall|k: int|
                0 <= k < list@.len() ==> board.scores.dom().contains(
                    (#[trigger] list@[k]).candidate@,
                ) && list@[k].score@ == board.scores[list@[k].candidate@],
            ": "@ == seq![':', ' '],
            "\n"@ == seq!['\n'],
            text@ == lexicon.scores_title@ + tally_text(names.take(i as int), board.scores),
        decreases list.len() - i,
    {
        text.append(list[i].candidate.0.as_str());
        text.append(": ");
        text.append(decimal_text(list[i].score.0).as_str());
        text.append("\n");
        proof {
            assert(names.take(i + 1).drop_last() =~= names.take(i as int));
        }
        i = i + 1;
    }
    assert(names.take(i as int) =~= names);
    text.append(lexicon.blank);
    text.append(": ");
    text.append(decimal_text(scores.blank_score().0).as_str());
    text.append("\n");
    text.append(lexicon.invalid);
    text.append(": ");
    text.append(decimal_text(scores.invalid_score().0).as_str());
    text
}

/// Where the first space of `line` stands; the length of `line` if it has
/// none.
pub open spec fn first_gap(line: Seq<char>) -> int
    decreases line.len(),
{
    if line.len() == 0 || line[0] == ' ' {
        0
    } else {
        1 + first_gap(line.drop_first())
    }
}

/// The piece number `n`, counted from zero, of the pieces into which the
/// spaces cut `line`. Two spaces in a row have an empty piece between them.
/// Where `line` has fewer pieces, the result is empty.
pub open spec fn piece(line: Seq<char>, n: nat) -> Seq<char>
    decreases n,
{
    let gap = first_gap(line);
    if n == 0 {
        line.take(gap)
    } else if gap == line.len() {
        Seq::empty()
    } else {
        piece(line.skip(gap + 1), (n - 1) as nat)
    }
}

/// A command, as read from a line.
#[derive(Debug)]
pub enum Command {
    /// Submit this ballot.
    Vote(BallotPaper),
    /// A vote command that names no voter.
    MissingVoter,
    /// Show the attendance sheet.
    Voters,
    /// Show the scoreboard.
    Scores,
    /// An empty line: show the help text.
    Help,
    /// Anything else.
    Invalid,
}

/// A command as contracts see it.
pub enum CommandView {
    Vote(BallotView),
    MissingVoter,
    Voters,
    Scores,
    Help,
    Invalid,
}

impl View for Command {
    type V = CommandView;

    open spec fn view(&self) -> CommandView {
        match self {
            Command::Vote(ballot) => CommandView::Vote(ballot@),
            Command::MissingVoter => CommandView::MissingVoter,
            Command::Voters => CommandView::Voters,
            Command::Scores => CommandView::Scores,
            Command::Help => CommandView::Help,
            Command::Invalid => CommandView::Invalid,
        }
    }
}

/// The command that `line` holds in the words of `lexicon`. The first piece
/// of the line is the command word. After the word for a vote come the
/// voter and, if there is a third piece, the candidate; what follows the
/// third piece is ignored.
pub open spec fn command_of(line: Seq<char>, lexicon: Lexicon) -> CommandView {
    let word = piece(line, 0);
    let voter = piece(line, 1);
    let candidate = piece(line, 2);
    if word == lexicon.vote@ {
        if voter.len() == 0 {
            CommandView::MissingVoter
        } else if candidate.len() == 0 {
            CommandView::Vote(BallotView { voter, candidate: None })
        } else {
            CommandView::Vote(BallotView { voter, candidate: Some(candidate) })
        }
    } else if word == lexicon.voters@ {
        CommandView::Voters
    } else if word == lexicon.scores@ {
        CommandView::Scores
    } else if line.len() == 0 {
        CommandView::Help
    } else {
        CommandView::Invalid
    }
}

/// The characters of `text`.
fn characters(text: &str) -> (list: Vec<char>)
    ensures
        list@ == text@,
{
    let mut list: Vec<char> = Vec::new();
    for c in it: text.chars()
        invariant
            list@ == it.seq().take(it.index() as int),
    {
        list.push(c);
    }
    list
}

/// The place of the first space from `start` on.
fn gap_from(line: &Vec<char>, start: usize) -> (end: usize)
    requires
        start <= line.len(),
    ensures
        start <= end <= line.len(),
        end - start == first_gap(line@.skip(start as int)),
{
    let mut end = start;
    while end < line.len() && line[end] != ' '
        invariant
            start <= end <= line.len(),
            first_gap(line@.skip(start as int)) == end - start + first_gap(line@.skip(end as int)),
        decreases line.len() - end,
    {
        assert(line@.skip(end as int).drop_first() =~= line@.skip(end + 1));
        end = end + 1;
    }
    end
}

/// Reads the command that `line` holds.
pub fn parse_command(line: &str, lexicon: &Lexicon) -> (command: Command)
    ensures
        command@ == command_of(line@, *lexicon),
{
    let list = characters(line);
    let first_end = gap_from(&list, 0);
    assert(list@.skip(0) =~= list@);
    let word = line.substring_char(0, first_end);
    let mut voter: &str = "";
    let mut candidate: &str = "";
    proof {
        reveal_strlit("");
    }
    if first_end < list.len() {
        let second_start = first_end + 1;
        let second_end = gap_from(&list, second_start);
        voter = line.substring_char(second_start, second_end);
        let ghost rest = line@.skip(second_start as int);
        if second_end < list.len() {
            let third_start = second_end + 1;
            let third_end = gap_from(&list, third_start);
            candidate = line.substring_char(third_start, third_end);
            assert(rest.skip(first_gap(rest) + 1) =~= line@.skip(third_start as int));
            assert(candidate@ =~= line@.skip(third_start as int).take(
                first_gap(line@.skip(third_start as int)),
            ));
        }
    }
    assert(voter@ =~= piece(line@, 1) && candidate@ =~= piece(line@, 2)) by {
        reveal_with_fuel(piece, 3);
    }
    if same_text(word, lexicon.vote) {
        if voter.is_empty() {
            Command::MissingVoter
        } else if candidate.is_empty() {
            Command::Vote(BallotPaper { voter: Voter(String::from_str(voter)), candidate: None })
        } else {
            Command::Vote(
                BallotPaper {
                    voter: Voter(String::from_str(voter)),
                    candidate: Some(Candidate(String::from_str(candidate))),
                },
            )
        }
    } else if same_text(word, lexicon.voters) {
        Command::Voters
    } else if same_text(word, lexicon.scores) {
        Command::Scores
    } else if list.len() == 0 {
        Command::Help
    } else {
        Command::Invalid
    }
}

/// The answer to `command` of a machine that stands as `machine`, in the
/// words of `lexicon`.
pub open spec fn answer_text(machine: MachineView, command: CommandView, lexicon: Lexicon) -> Seq<
    char,
> {
    match command {
        CommandView::Vote(ballot) => outcome_text(machine.outcome(ballot), lexicon),
        CommandView::MissingVoter => lexicon.candidate_missing@,
        CommandView::Voters => attendance_text(machine.voters, lexicon),
        CommandView::Scores => scoreboard_text(machine.scoreboard, lexicon),
        CommandView::Help => lexicon.help@,
        CommandView::Invalid => lexicon.invalid_command@,
    }
}

/// The machine after `command`: only a vote changes it.
pub open spec fn machine_after(machine: MachineView, command: CommandView) -> MachineView {
    match command {
        CommandView::Vote(ballot) => machine.after(ballot),
        _ => machine,
    }
}

/// Whether `command` is answered from the store: a vote and the two
/// commands that show the machine are, the others are answered at once.
pub open spec fn needs_store(command: CommandView) -> bool {
    command is Vote || command is Voters || command is Scores
}

/// Carries out the command that `line` holds and gives the answer. A
/// command that is not understood, a vote without a voter and an empty
/// line are answered at once and never reach the store. Where the store
/// fails, it keeps the machine it had.
pub fn handle_line<Store: Storage>(
    line: &str,
    controller: &mut VotingController<Store>,
    lexicon: &Lexicon,
) -> (answer: Result<String, StorageError>)
    ensures
        answer matches Ok(text) ==> text@ == answer_text(
            old(controller).stored(),
            command_of(line@, *lexicon),
            *lexicon,
        ) && final(controller).stored() == machine_after(
            old(controller).stored(),
            command_of(line@, *lexicon),
        ),
        answer matches Err(error) ==> error != StorageError::Initialization
            && final(controller).stored() == old(controller).stored(),
        !needs_store(command_of(line@, *lexicon)) || old(controller).reliable() ==> answer is Ok,
        final(controller).reliable() == old(controller).reliable(),
{
    match parse_command(line, lexicon) {
        Command::Vote(ballot_paper) => {
            match controller.vote(VoteForm::from(ballot_paper)) {
                Ok(outcome) => Ok(show_vote_outcome(outcome, lexicon)),
                Err(error) => Err(error),
            }
        },
        Command::MissingVoter => Ok(String::from_str(lexicon.candidate_missing)),
        Command::Voters => {
            match controller.get_voting_machine() {
                Ok(voting_machine) => Ok(show_attendence_sheet(voting_machine.get_voter(), lexicon)),
                Err(error) => Err(error),
            }
        },
        Command::Scores => {
            match controller.get_voting_machine() {
                Ok(voting_machine) => Ok(show_scoreboard(voting_machine.get_scoreboard(), lexicon)),
                Err(error) => Err(error),
            }
        },
        Command::Help => Ok(String::from_str(lexicon.help)),
        Command::Invalid => Ok(String::from_str(lexicon.invalid_command)),
    }
}

} // verus!
