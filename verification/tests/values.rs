use rust_moment::app_builder::{lexicon_of, opening_machine};
use rust_moment::configuration::{Configuration, LanguageType, ServiceType, StoredType};
use rust_moment::domain::ballot_paper::BallotPaper;
use rust_moment::domain::generic_domains::{AttendenceSheet, Candidate, Score, Voter};
use rust_moment::domain::scoreboard::{Scoreboard, Tally};
use rust_moment::domain::vote_outcome::VoteOutcome;
use rust_moment::domain::voting_machine::VotingMachine;
use rust_moment::interfaces::cli_interfaces::{
    parse_command, show_attendence_sheet, show_scoreboard, Command,
};
use rust_moment::interfaces::lexicon::Lexicon;
use rust_moment::interfaces::show_vote_outcome;
use rust_moment::names::{rank, same_text, Rank};
use rust_moment::numerals::decimal_text;
use rust_moment::storage::StorageError;
use rust_moment::storages::file::{ScoreboardDAO, VotingMachineDAO};
use rust_moment::use_cases::VoteForm;

fn voter(name: &str) -> Voter {
    Voter(name.to_string())
}

fn candidate(name: &str) -> Candidate {
    Candidate(name.to_string())
}

#[test]
fn names_rank_as_strings_compare() {
    let names = ["", "a", "ab", "abc", "b", "B", "z", "\u{e9}", "zo\u{e9}", "\u{10348}", "\u{20ac}"];
    for a in names {
        for b in names {
            let expected = if a < b {
                Rank::Before
            } else if a == b {
                Rank::Same
            } else {
                Rank::After
            };
            assert_eq!(rank(a, b), expected);
            assert_eq!(same_text(a, b), a == b);
        }
    }
    assert_eq!(rank("alice", "bob"), Rank::Before);
    assert_eq!(rank("ab", "abc"), Rank::Before);
    assert_eq!(rank("z", "\u{e9}"), Rank::Before);
    assert_eq!(rank("bob", "alice"), Rank::After);
    assert_eq!(rank("bob", "bob"), Rank::Same);
}

#[test]
fn numbers_are_written_in_decimal() {
    assert_eq!(decimal_text(0), "0");
    assert_eq!(decimal_text(7), "7");
    assert_eq!(decimal_text(10), "10");
    assert_eq!(decimal_text(109), "109");
    assert_eq!(decimal_text(1234567890), "1234567890");
    assert_eq!(decimal_text(usize::MAX), usize::MAX.to_string());
    assert_eq!(Score(42).to_string(), "42");
    assert_eq!(voter("Malo").to_string(), "Malo");
    assert_eq!(candidate("Macron").to_string(), "Macron");
    assert_eq!(Score::default(), Score(0));
}

#[test]
fn attendance_sheet_lists_each_voter_once_in_order() {
    let mut sheet = AttendenceSheet::default();
    assert!(sheet.is_empty());
    assert_eq!(sheet.len(), 0);
    for name in ["carol", "alice", "bob", "dave"] {
        assert!(!sheet.contains(&voter(name)));
        assert!(sheet.insert(voter(name)));
        assert!(sheet.contains(&voter(name)));
    }
    assert!(!sheet.insert(voter("alice")));
    assert_eq!(sheet.len(), 4);
    assert!(!sheet.is_empty());
    assert_eq!(sheet.voters(), &vec![voter("alice"), voter("bob"), voter("carol"), voter("dave")]);
    let mut other = AttendenceSheet::default();
    for name in ["dave", "bob", "alice", "carol", "bob"] {
        other.insert(voter(name));
    }
    assert_eq!(sheet, other);
    assert_eq!(sheet.clone(), sheet);
}

#[test]
fn scoreboard_keeps_one_score_for_each_candidate() {
    let board = Scoreboard::new(vec![candidate("b"), candidate("a"), candidate("b")]);
    assert_eq!(
        board.tallies(),
        &vec![
            Tally { candidate: candidate("a"), score: Score(0) },
            Tally { candidate: candidate("b"), score: Score(0) },
        ]
    );
    assert_eq!(board.blank_score(), Score(0));
    assert_eq!(board.invalid_score(), Score(0));
    assert_eq!(board.total(), Some(0));

    let mut board = Scoreboard::with_scores(
        vec![(candidate("b"), Score(2)), (candidate("a"), Score(5)), (candidate("b"), Score(3))],
        Score(4),
        Score(1),
    );
    assert_eq!(board.score_of(&candidate("a")), Some(Score(5)));
    assert_eq!(board.score_of(&candidate("b")), Some(Score(3)));
    assert_eq!(board.score_of(&candidate("c")), None);
    assert_eq!(board.blank_score(), Score(4));
    assert_eq!(board.invalid_score(), Score(1));
    assert_eq!(board.total(), Some(13));
    assert_eq!(board.insert(candidate("c"), Score(7)), None);
    assert_eq!(board.insert(candidate("a"), Score(1)), Some(Score(5)));
    assert_eq!(board.total(), Some(16));
    assert_eq!(board.clone(), board);
}

#[test]
fn total_that_does_not_fit_is_none() {
    let board = Scoreboard::with_scores(
        vec![(candidate("a"), Score(usize::MAX)), (candidate("b"), Score(1))],
        Score(0),
        Score(0),
    );
    assert_eq!(board.total(), None);
    let board = Scoreboard::with_scores(vec![(candidate("a"), Score(usize::MAX))], Score(1), Score(0));
    assert_eq!(board.total(), None);
    let board = Scoreboard::with_scores(vec![(candidate("a"), Score(usize::MAX - 1))], Score(0), Score(2));
    assert_eq!(board.total(), None);
    let board = Scoreboard::with_scores(vec![(candidate("a"), Score(usize::MAX - 1))], Score(0), Score(1));
    assert_eq!(board.total(), Some(usize::MAX));
    assert!(!VotingMachine::agree(&AttendenceSheet::default(), &board));
}

#[test]
fn machine_is_made_only_of_what_agrees() {
    let mut sheet = AttendenceSheet::default();
    sheet.insert(voter("Malo"));
    let one = Scoreboard::with_scores(vec![(candidate("Macron"), Score(1))], Score(0), Score(0));
    let none = Scoreboard::new(vec![candidate("Macron")]);
    assert!(VotingMachine::agree(&sheet, &one));
    assert!(!VotingMachine::agree(&sheet, &none));
    assert!(VotingMachine::checked_new(sheet.clone(), none.clone()).is_none());
    assert!(VotingMachine::checked_new(AttendenceSheet::default(), one.clone()).is_none());
    let machine = VotingMachine::checked_new(sheet.clone(), one.clone()).unwrap();
    assert_eq!(machine, VotingMachine::new(sheet.clone(), one.clone()));
    assert_eq!(machine.get_voter(), &sheet);
    assert_eq!(machine.get_scoreboard(), &one);
    assert_eq!(
        VotingMachine::open(vec![candidate("Macron")]),
        VotingMachine::new(AttendenceSheet::default(), none)
    );
}

#[test]
fn forms_and_ballots_convert() {
    let form = VoteForm::from(BallotPaper::new(voter("Malo"), Some(candidate("Macron"))));
    assert_eq!((form.voter.as_str(), form.candidate.as_str()), ("Malo", "Macron"));
    let form = VoteForm::from(BallotPaper::new(voter("Malo"), None));
    assert_eq!((form.voter.as_str(), form.candidate.as_str()), ("Malo", ""));
    let ballot = BallotPaper::from(VoteForm { voter: "Malo".to_string(), candidate: String::new() });
    assert_eq!((ballot.voter, ballot.candidate), (voter("Malo"), None));
    let ballot: BallotPaper = VoteForm { voter: "Malo".to_string(), candidate: "Macron".to_string() }.into();
    assert_eq!((ballot.voter, ballot.candidate), (voter("Malo"), Some(candidate("Macron"))));
    let ballot = BallotPaper::new(voter("a"), Some(candidate("b")));
    let copy = ballot.clone();
    assert_eq!((copy.voter, copy.candidate), (ballot.voter, ballot.candidate));
}

#[test]
fn outcomes_are_told_in_the_lexicons_words() {
    let english = Lexicon::english();
    let french = Lexicon::french();
    assert_eq!(
        show_vote_outcome(VoteOutcome::AcceptedVote(voter("moi"), candidate("MacOS")), &french),
        "moi a voter pour MacOS."
    );
    assert_eq!(show_vote_outcome(VoteOutcome::BlankVote(voter("moi")), &french), "moi a voter blanc.");
    assert_eq!(show_vote_outcome(VoteOutcome::InvalidVote(voter("moi")), &french), "moi a voter null.");
    assert_eq!(
        show_vote_outcome(VoteOutcome::HasAlreadyVoted(voter("moi")), &french),
        "moi a deja voter."
    );
    assert_eq!(
        show_vote_outcome(VoteOutcome::AcceptedVote(voter("me"), candidate("MacOS")), &english),
        "me has voted for MacOS."
    );
    assert_eq!(show_vote_outcome(VoteOutcome::BlankVote(voter("me")), &english), "me has voted blank.");
    assert_eq!(show_vote_outcome(VoteOutcome::InvalidVote(voter("me")), &english), "me has voted null.");
    assert_eq!(
        show_vote_outcome(VoteOutcome::HasAlreadyVoted(voter("me")), &english),
        "me has already voted."
    );
}

#[test]
fn sheet_and_scoreboard_are_written_out() {
    let french = Lexicon::french();
    let mut sheet = AttendenceSheet::default();
    assert_eq!(show_attendence_sheet(&sheet, &french), "Voici les votants:\n");
    sheet.insert(voter("zoe"));
    sheet.insert(voter("Malo"));
    assert_eq!(show_attendence_sheet(&sheet, &french), "Voici les votants:\n- Malo\n- zoe\n");
    let board = Scoreboard::with_scores(
        vec![(candidate("Yay"), Score(12)), (candidate("Nay"), Score(0))],
        Score(3),
        Score(100),
    );
    assert_eq!(
        show_scoreboard(&board, &french),
        "Voici les scores:\nNay: 0\nYay: 12\nBlanc: 3\nNull: 100"
    );
    assert_eq!(
        show_scoreboard(&Scoreboard::new(vec![]), &Lexicon::english()),
        "Scores:\nBlank: 0\nInvalid: 0"
    );
}

#[test]
fn commands_are_read_from_lines() {
    let english = Lexicon::english();
    let vote = |line: &str| match parse_command(line, &english) {
        Command::Vote(ballot) => (ballot.voter.0, ballot.candidate.map(|c| c.0)),
        other => panic!("{other:?}"),
    };
    assert_eq!(vote("vote alice NixOS"), ("alice".to_string(), Some("NixOS".to_string())));
    assert_eq!(vote("vote alice"), ("alice".to_string(), None));
    assert_eq!(vote("vote alice "), ("alice".to_string(), None));
    assert_eq!(vote("vote alice  NixOS"), ("alice".to_string(), None));
    assert_eq!(vote("vote a b c d"), ("a".to_string(), Some("b".to_string())));
    assert!(matches!(parse_command("vote", &english), Command::MissingVoter));
    assert!(matches!(parse_command("vote  NixOS", &english), Command::MissingVoter));
    assert!(matches!(parse_command("voters", &english), Command::Voters));
    assert!(matches!(parse_command("voters x", &english), Command::Voters));
    assert!(matches!(parse_command("scores", &english), Command::Scores));
    assert!(matches!(parse_command("", &english), Command::Help));
    assert!(matches!(parse_command(" ", &english), Command::Invalid));
    assert!(matches!(parse_command("votes", &english), Command::Invalid));
    assert!(matches!(parse_command("voter alice", &english), Command::Invalid));
    assert!(matches!(parse_command("voter alice", &Lexicon::french()), Command::Vote(_)));
    assert!(matches!(parse_command("votants", &Lexicon::french()), Command::Voters));
}

#[test]
fn lexicons_hold_their_words() {
    let english = Lexicon::english();
    assert_eq!(english.vote, "vote");
    assert_eq!(english.voters, "voters");
    assert_eq!(english.scores, "scores");
    assert_eq!(english.blank, "Blank");
    assert_eq!(english.invalid, "Invalid");
    assert_eq!(english.candidate_missing, "Voter missing.");
    assert_eq!(english.scores_title, "Scores:\n");
    assert_eq!(english.voters_title, "Voters:\n");
    assert_eq!(english.vote_machine, "Voting Machine");
    let french = Lexicon::french();
    assert_eq!(french.vote, "voter");
    assert_eq!(french.voters, "votants");
    assert_eq!(french.urn, "Urne");
    assert_eq!(french.voter, "Votant");
    assert_eq!(french.candidate, "Candidat");
    assert_eq!(french.voters_heading, "Votants");
    assert_eq!(french.scores_heading, "Scores");
    assert_ne!(english, french);
}

#[test]
fn run_starts_from_the_configuration() {
    let configuration = Configuration {
        candidates: vec!["NixOS".to_string(), "Windows".to_string(), "NixOS".to_string()],
        storage: StoredType::Memory,
        language: LanguageType::Fr,
        service: ServiceType::Stdio,
        port: 8080,
    };
    let machine = opening_machine(&configuration);
    assert!(machine.get_voter().is_empty());
    assert_eq!(
        machine.get_scoreboard(),
        &Scoreboard::new(vec![candidate("NixOS"), candidate("Windows")])
    );
    assert_eq!(lexicon_of(&configuration), Lexicon::french());
    let configuration = Configuration { language: LanguageType::En, ..configuration };
    assert_eq!(lexicon_of(&configuration), Lexicon::english());
}

fn sample_machine() -> VotingMachine {
    let mut machine = VotingMachine::open(vec![candidate("moi"), candidate("toi")]);
    machine.vote(BallotPaper::new(voter("zoe"), Some(candidate("moi"))));
    machine.vote(BallotPaper::new(voter("bob"), Some(candidate("moi"))));
    machine.vote(BallotPaper::new(voter("amy"), None));
    machine.vote(BallotPaper::new(voter("max"), Some(candidate("lui"))));
    machine
}

#[test]
fn machine_written_down_reads_back_the_same() {
    let machine = sample_machine();
    let written = VotingMachineDAO::from_machine(&machine);
    assert_eq!(
        written,
        VotingMachineDAO {
            voters: vec!["amy".to_string(), "bob".to_string(), "max".to_string(), "zoe".to_string()],
            scoreboard: ScoreboardDAO {
                scores: vec![("moi".to_string(), 2), ("toi".to_string(), 0)],
                blank_scores: 1,
                invalid_scores: 1,
            },
        }
    );
    assert_eq!(written.clone().into_machine(), Ok(machine.clone()));
    let again = VotingMachineDAO::from_machine(&written.clone().into_machine().unwrap());
    assert_eq!(again, written);

    let opening = VotingMachine::open(vec![candidate("moi")]);
    assert_eq!(VotingMachineDAO::from_machine(&opening).into_machine(), Ok(opening));
}

#[test]
fn document_is_read_as_it_comes() {
    let document = VotingMachineDAO {
        voters: vec!["zoe".to_string(), "amy".to_string(), "zoe".to_string(), "bob".to_string(), "max".to_string()],
        scoreboard: ScoreboardDAO {
            scores: vec![("toi".to_string(), 9), ("moi".to_string(), 2), ("toi".to_string(), 0)],
            blank_scores: 1,
            invalid_scores: 1,
        },
    };
    assert_eq!(document.into_machine(), Ok(sample_machine()));
    let board = ScoreboardDAO { scores: vec![("x".to_string(), 3)], blank_scores: 2, invalid_scores: 1 };
    assert_eq!(
        board.clone().into_scoreboard(),
        Scoreboard::with_scores(vec![(candidate("x"), Score(3))], Score(2), Score(1))
    );
    assert_eq!(ScoreboardDAO::from_scoreboard(&board.clone().into_scoreboard()), board);
}

#[test]
fn document_that_does_not_add_up_is_refused() {
    let document = VotingMachineDAO {
        voters: vec!["amy".to_string()],
        scoreboard: ScoreboardDAO { scores: vec![("moi".to_string(), 2)], blank_scores: 0, invalid_scores: 0 },
    };
    assert_eq!(document.into_machine(), Err(StorageError::Decode));
    let document = VotingMachineDAO {
        voters: vec!["amy".to_string(), "bob".to_string()],
        scoreboard: ScoreboardDAO { scores: vec![], blank_scores: 1, invalid_scores: 0 },
    };
    assert_eq!(document.into_machine(), Err(StorageError::Decode));
    let document = VotingMachineDAO {
        voters: vec![],
        scoreboard: ScoreboardDAO {
            scores: vec![("moi".to_string(), usize::MAX)],
            blank_scores: usize::MAX,
            invalid_scores: 0,
        },
    };
    assert_eq!(document.into_machine(), Err(StorageError::Decode));
}
