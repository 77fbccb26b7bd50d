use rust_moment::domain::generic_domains::{AttendenceSheet, Candidate, Score};
use rust_moment::domain::scoreboard::Scoreboard;
use rust_moment::domain::voting_machine::VotingMachine;
use rust_moment::storage::Storage;
use rust_moment::storages::file::VotingMachineDAO;
use rust_moment::storages::memory::MemoryStore;

#[test]
fn mod_my_test() {
    let scoreboard = Scoreboard::with_scores(
        vec![(Candidate("moi".to_string()), Score::default())],
        Score::default(),
        Score::default(),
    );

    let voters = AttendenceSheet::default();

    let voting_machine = VotingMachine::new(voters, scoreboard);

    let store = MemoryStore::new(voting_machine.clone());

    let stored_machine = store.unwrap().get_voting_machine().unwrap();

    assert_eq!(voting_machine, stored_machine);
}

#[test]
fn file_my_test() {
    let scoreboard = Scoreboard::with_scores(
        vec![(Candidate("moi".to_string()), Score::default())],
        Score::default(),
        Score::default(),
    );

    let voters = AttendenceSheet::default();

    let voting_machine = VotingMachine::new(voters, scoreboard);

    let document = VotingMachineDAO::from_machine(&voting_machine);

    let stored_machine = document.into_machine().unwrap();

    assert_eq!(voting_machine, stored_machine);
}

#[test]
fn my_test2() {
    let scoreboard = Scoreboard::with_scores(
        vec![(Candidate("moi".to_string()), Score::default())],
        Score::default(),
        Score::default(),
    );

    let voters = AttendenceSheet::default();

    let voting_machine = VotingMachine::new(voters, scoreboard);

    let document = VotingMachineDAO::from_machine(&voting_machine);
    let document2 = document.clone();

    let stored_machine = document.into_machine().unwrap();
    let stored_machine2 = document2.into_machine().unwrap();

    assert_eq!(stored_machine, stored_machine2);
}
