use rust_moment::domain::ballot_paper::BallotPaper;
use rust_moment::domain::generic_domains::{Candidate, Score, Voter};
use rust_moment::domain::vote_outcome::VoteOutcome;
use rust_moment::domain::voting_machine::{MachineView, VotingMachine};
use rust_moment::interfaces::cli_interfaces::handle_line;
use rust_moment::interfaces::lexicon::Lexicon;
use rust_moment::storage::{Storage, StorageError};
use rust_moment::storages::memory::MemoryStore;
use rust_moment::use_cases::{VoteForm, VotingController};

fn candidates() -> Vec<Candidate> {
    vec![Candidate("NixOS".to_string()), Candidate("Windows".to_string())]
}

fn controller() -> VotingController<MemoryStore> {
    VotingController::new(MemoryStore::new(VotingMachine::open(candidates())).unwrap())
}

fn form(voter: &str, candidate: &str) -> VoteForm {
    VoteForm { voter: voter.to_string(), candidate: candidate.to_string() }
}

fn score(machine: &VotingMachine, candidate: &str) -> Option<Score> {
    machine.get_scoreboard().score_of(&Candidate(candidate.to_string()))
}

fn total(machine: &VotingMachine) -> usize {
    machine.get_scoreboard().total().unwrap()
}

#[test]
fn accepted_vote_is_counted_for_its_candidate() {
    let mut controller = controller();
    let outcome = controller.vote(form("alice", "NixOS")).unwrap();
    assert_eq!(
        outcome,
        VoteOutcome::AcceptedVote(Voter("alice".to_string()), Candidate("NixOS".to_string()))
    );
    let machine = controller.get_voting_machine().unwrap();
    assert_eq!(score(&machine, "NixOS"), Some(Score(1)));
    assert_eq!(score(&machine, "Windows"), Some(Score(0)));
    assert_eq!(machine.get_scoreboard().blank_score(), Score(0));
    assert_eq!(machine.get_scoreboard().invalid_score(), Score(0));
}

#[test]
fn ballot_without_candidate_is_blank() {
    let mut controller = controller();
    let outcome = controller.vote(form("bob", "")).unwrap();
    assert_eq!(outcome, VoteOutcome::BlankVote(Voter("bob".to_string())));
    let machine = controller.get_voting_machine().unwrap();
    assert_eq!(machine.get_scoreboard().blank_score(), Score(1));
    assert_eq!(score(&machine, "NixOS"), Some(Score(0)));
    assert_eq!(machine.get_scoreboard().invalid_score(), Score(0));
}

#[test]
fn ballot_for_a_stranger_is_invalid() {
    let mut controller = controller();
    let outcome = controller.vote(form("carol", "Linux")).unwrap();
    assert_eq!(outcome, VoteOutcome::InvalidVote(Voter("carol".to_string())));
    let machine = controller.get_voting_machine().unwrap();
    assert_eq!(machine.get_scoreboard().invalid_score(), Score(1));
    assert_eq!(score(&machine, "Linux"), None);
    assert_eq!(machine.get_scoreboard().blank_score(), Score(0));
}

#[test]
fn second_ballot_of_a_voter_is_turned_away() {
    let mut controller = controller();
    controller.vote(form("alice", "NixOS")).unwrap();
    let before = controller.get_voting_machine().unwrap();
    let outcome = controller.vote(form("alice", "Windows")).unwrap();
    assert_eq!(outcome, VoteOutcome::HasAlreadyVoted(Voter("alice".to_string())));
    let machine = controller.get_voting_machine().unwrap();
    assert_eq!(score(&machine, "NixOS"), Some(Score(1)));
    assert_eq!(score(&machine, "Windows"), Some(Score(0)));
    assert_eq!(machine, before);
}

#[test]
fn same_ballot_twice_counts_once() {
    let mut controller = controller();
    let first = controller.vote(form("dave", "NixOS")).unwrap();
    let second = controller.vote(form("dave", "NixOS")).unwrap();
    assert_eq!(
        first,
        VoteOutcome::AcceptedVote(Voter("dave".to_string()), Candidate("NixOS".to_string()))
    );
    assert_eq!(second, VoteOutcome::HasAlreadyVoted(Voter("dave".to_string())));
    let machine = controller.get_voting_machine().unwrap();
    assert_eq!(score(&machine, "NixOS"), Some(Score(1)));
    assert_eq!(machine.get_voter().len(), 1);
}

#[test]
fn every_later_ballot_of_a_voter_changes_nothing() {
    let mut machine = VotingMachine::open(candidates());
    let ballot = |candidate: Option<&str>| {
        BallotPaper::new(
            Voter("erin".to_string()),
            candidate.map(|name| Candidate(name.to_string())),
        )
    };
    assert_eq!(machine.vote(ballot(None)), VoteOutcome::BlankVote(Voter("erin".to_string())));
    let after_first = machine.clone();
    machine.vote(BallotPaper::new(Voter("frank".to_string()), Some(Candidate("Windows".to_string()))));
    let after_frank = machine.clone();
    for candidate in [None, Some("NixOS"), Some("Linux"), Some("Windows")] {
        assert_eq!(
            machine.vote(ballot(candidate)),
            VoteOutcome::HasAlreadyVoted(Voter("erin".to_string()))
        );
        assert_eq!(machine, after_frank);
    }
    assert_ne!(after_first, after_frank);
}

#[test]
fn votes_counted_equal_voters_present() {
    let mut machine = VotingMachine::open(candidates());
    assert_eq!(total(&machine), 0);
    let ballots = [
        ("alice", Some("NixOS")),
        ("bob", None),
        ("carol", Some("Linux")),
        ("alice", Some("Windows")),
        ("dave", Some("Windows")),
        ("bob", Some("NixOS")),
        ("erin", Some("NixOS")),
    ];
    for (voter, candidate) in ballots {
        machine.vote(BallotPaper::new(
            Voter(voter.to_string()),
            candidate.map(|name| Candidate(name.to_string())),
        ));
        assert_eq!(total(&machine), machine.get_voter().len());
        assert!(VotingMachine::agree(machine.get_voter(), machine.get_scoreboard()));
    }
    assert_eq!(machine.get_voter().len(), 5);
    assert_eq!(score(&machine, "NixOS"), Some(Score(2)));
    assert_eq!(score(&machine, "Windows"), Some(Score(1)));
    assert_eq!(machine.get_scoreboard().blank_score(), Score(1));
    assert_eq!(machine.get_scoreboard().invalid_score(), Score(1));
}

#[test]
fn distinct_voters_are_all_counted_in_any_order() {
    let names: Vec<String> = (0..60).map(|i| format!("voter{}", (i * 37) % 60)).collect();
    let mut controller = controller();
    for name in &names {
        let outcome = controller.vote(form(name, "NixOS")).unwrap();
        assert_eq!(
            outcome,
            VoteOutcome::AcceptedVote(Voter(name.clone()), Candidate("NixOS".to_string()))
        );
    }
    let machine = controller.get_voting_machine().unwrap();
    assert_eq!(score(&machine, "NixOS"), Some(Score(60)));
    assert_eq!(score(&machine, "Windows"), Some(Score(0)));
    assert_eq!(machine.get_voter().len(), 60);

    let mut reversed = self::controller();
    for name in names.iter().rev() {
        reversed.vote(form(name, "NixOS")).unwrap();
    }
    assert_eq!(reversed.get_voting_machine().unwrap(), machine);
}

#[test]
fn shared_controller_loses_no_vote() {
    let shared = std::sync::Arc::new(std::sync::Mutex::new(controller()));
    let handles: Vec<_> = (0..8).map(|_| std::sync::Arc::clone(&shared)).collect();
    for (i, handle) in handles.iter().enumerate() {
        let mut guard = handle.lock().unwrap();
        guard.vote(form(&format!("voter{i}"), "NixOS")).unwrap();
    }
    let machine = shared.lock().unwrap().get_voting_machine().unwrap();
    assert_eq!(score(&machine, "NixOS"), Some(Score(8)));
    assert_eq!(machine.get_voter().len(), 8);
}

#[test]
fn lines_are_answered_in_english() {
    let lexicon = Lexicon::english();
    let mut controller = controller();
    assert_eq!(
        handle_line("vote alice NixOS", &mut controller, &lexicon).unwrap(),
        "alice has voted for NixOS."
    );
    assert_eq!(handle_line("vote bob", &mut controller, &lexicon).unwrap(), "bob has voted blank.");
    assert_eq!(
        handle_line("vote carol Linux", &mut controller, &lexicon).unwrap(),
        "carol has voted null."
    );
    assert_eq!(
        handle_line("vote alice Windows", &mut controller, &lexicon).unwrap(),
        "alice has already voted."
    );
    assert_eq!(
        handle_line("scores", &mut controller, &lexicon).unwrap(),
        "Scores:\nNixOS: 1\nWindows: 0\nBlank: 1\nInvalid: 1"
    );
    assert_eq!(
        handle_line("voters", &mut controller, &lexicon).unwrap(),
        "Voters:\n- alice\n- bob\n- carol\n"
    );
    assert_eq!(
        handle_line("", &mut controller, &lexicon).unwrap(),
        "Help :\n - vote <name> [candidate]\n - scores\n - voters"
    );
    assert_eq!(handle_line("vote", &mut controller, &lexicon).unwrap(), "Voter missing.");
    assert_eq!(handle_line("zxdfsdf", &mut controller, &lexicon).unwrap(), "Invalid command\n");
}

#[test]
fn unknown_command_gets_the_lexicons_answer() {
    let lexicon = Lexicon::french();
    let mut controller = controller();
    assert_eq!(
        handle_line("zxdfsdf", &mut controller, &lexicon).unwrap(),
        lexicon.invalid_command
    );
    assert_eq!(lexicon.invalid_command, "Commande non valide\n");
    assert_eq!(handle_line("vote moi", &mut controller, &lexicon).unwrap(), "Commande non valide\n");
    assert_eq!(controller.get_voting_machine().unwrap(), VotingMachine::open(candidates()));
}

#[test]
fn spaces_cut_the_line_into_pieces() {
    let lexicon = Lexicon::english();
    let mut controller = controller();
    assert_eq!(handle_line("vote  alice", &mut controller, &lexicon).unwrap(), "Voter missing.");
    assert_eq!(handle_line("vote ", &mut controller, &lexicon).unwrap(), "Voter missing.");
    assert_eq!(handle_line(" vote alice", &mut controller, &lexicon).unwrap(), "Invalid command\n");
    assert_eq!(handle_line("vote\talice", &mut controller, &lexicon).unwrap(), "Invalid command\n");
    assert_eq!(handle_line(" ", &mut controller, &lexicon).unwrap(), "Invalid command\n");
    assert_eq!(
        handle_line("vote alice ", &mut controller, &lexicon).unwrap(),
        "alice has voted blank."
    );
    assert_eq!(
        handle_line("vote zo\u{e9} NixOS and more", &mut controller, &lexicon).unwrap(),
        "zo\u{e9} has voted for NixOS."
    );
    assert_eq!(
        handle_line("scores now", &mut controller, &lexicon).unwrap(),
        "Scores:\nNixOS: 1\nWindows: 0\nBlank: 1\nInvalid: 0"
    );
    assert_eq!(
        handle_line("voters please", &mut controller, &lexicon).unwrap(),
        "Voters:\n- alice\n- zo\u{e9}\n"
    );
}

#[test]
fn form_without_a_voter_is_answered_at_once() {
    let lexicon = Lexicon::english();
    let mut controller = controller();
    assert_eq!(
        rust_moment::interfaces::web_interfaces::vote(form("", "NixOS"), &mut controller, &lexicon),
        Ok("Voter missing.".to_string())
    );
    assert_eq!(controller.get_voting_machine().unwrap(), VotingMachine::open(candidates()));
    assert_eq!(
        rust_moment::interfaces::web_interfaces::vote(form("alice", "NixOS"), &mut controller, &lexicon),
        Ok("alice has voted for NixOS.".to_string())
    );
    assert_eq!(
        rust_moment::interfaces::web_interfaces::vote(form("bob", ""), &mut controller, &lexicon),
        Ok("bob has voted blank.".to_string())
    );
    assert_eq!(
        rust_moment::interfaces::web_interfaces::vote(form("bob", "Windows"), &mut controller, &lexicon),
        Ok("bob has already voted.".to_string())
    );
    assert_eq!(
        rust_moment::interfaces::web_interfaces::vote(form("carol", "Linux"), &mut controller, &lexicon),
        Ok("carol has voted null.".to_string())
    );

    let store = Flaky { kept: VotingMachine::open(candidates()), reads: false, writes: false };
    let mut failing = VotingController::new(store);
    assert_eq!(
        rust_moment::interfaces::web_interfaces::vote(form("", ""), &mut failing, &lexicon),
        Ok("Voter missing.".to_string())
    );
    assert_eq!(
        rust_moment::interfaces::web_interfaces::vote(form("alice", ""), &mut failing, &lexicon),
        Err(StorageError::Decode)
    );
}

struct Flaky {
    kept: VotingMachine,
    reads: bool,
    writes: bool,
}

impl Storage for Flaky {
    fn stored(&self) -> MachineView {
        unreachable!()
    }

    fn reliable(&self) -> bool {
        false
    }

    fn new(machine: VotingMachine) -> Result<Self, StorageError> {
        Ok(Flaky { kept: machine, reads: true, writes: true })
    }

    fn get_voting_machine(&self) -> Result<VotingMachine, StorageError> {
        if self.reads {
            Ok(self.kept.clone())
        } else {
            Err(StorageError::Decode)
        }
    }

    fn put_voting_machine(&mut self, machine: VotingMachine) -> Result<(), StorageError> {
        if self.writes {
            self.kept = machine;
            Ok(())
        } else {
            Err(StorageError::Io)
        }
    }
}

#[test]
fn failed_write_counts_nothing() {
    let store = Flaky { kept: VotingMachine::open(candidates()), reads: true, writes: false };
    let mut controller = VotingController::new(store);
    assert_eq!(controller.vote(form("alice", "NixOS")), Err(StorageError::Io));
    assert_eq!(controller.get_voting_machine().unwrap(), VotingMachine::open(candidates()));
    let lexicon = Lexicon::english();
    assert_eq!(
        handle_line("vote alice NixOS", &mut controller, &lexicon),
        Err(StorageError::Io)
    );
    assert_eq!(
        handle_line("scores", &mut controller, &lexicon).unwrap(),
        "Scores:\nNixOS: 0\nWindows: 0\nBlank: 0\nInvalid: 0"
    );
}

#[test]
fn failed_read_fails_what_needs_the_store() {
    let store = Flaky { kept: VotingMachine::open(candidates()), reads: false, writes: true };
    let mut controller = VotingController::new(store);
    let lexicon = Lexicon::english();
    assert_eq!(controller.vote(form("alice", "NixOS")), Err(StorageError::Decode));
    assert_eq!(controller.get_voting_machine(), Err(StorageError::Decode));
    for line in ["scores", "voters", "vote alice", "vote alice NixOS"] {
        assert_eq!(handle_line(line, &mut controller, &lexicon), Err(StorageError::Decode));
    }
    assert_eq!(handle_line("", &mut controller, &lexicon).unwrap(), lexicon.help);
    assert_eq!(handle_line("vote", &mut controller, &lexicon).unwrap(), "Voter missing.");
    assert_eq!(handle_line("zxdfsdf", &mut controller, &lexicon).unwrap(), "Invalid command\n");
}
