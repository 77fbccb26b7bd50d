//! The voting machine and the values it works on.

pub mod ballot_paper;
pub mod generic_domains;
pub mod scoreboard;
pub mod vote_outcome;
pub mod voting_machine;
