//! What the voting controller asks of the place where the machine is kept.

use vstd::prelude::*;
use crate::domain::voting_machine::{MachineView, VotingMachine};

verus! {

/// Why a store could not do what was asked.
#[derive(Clone, Copy, Debug, PartialEq, Eq, Structural)]
pub enum StorageError {
    /// The store could not be set up: what it found in its place is
    /// unreadable or damaged.
    Initialization,
    /// Reading or writing failed.
    Io,
    /// What was read is not a voting machine.
    Decode,
}

/// A place that keeps one voting machine. The machine is read and replaced
/// as a whole.
///
/// `stored` and `reliable` are what the contracts are written in. They are
/// never run: a store that keeps the machine outside the program, where no
/// proof reaches, may give them any body.
pub trait Storage: Sized {
    /// The machine that the store keeps.
    spec fn stored(&self) -> MachineView;

    /// Whether reading from and writing to this store always succeed.
    spec fn reliable(&self) -> bool;

    /// Sets up a store. Where nothing is kept yet, it keeps `machine`.
    fn new(machine: VotingMachine) -> (made: Result<Self, StorageError>)
        ensures
            made matches Err(error) ==> error == StorageError::Initialization,
    ;

    /// The machine that the store keeps.
    fn get_voting_machine(&self) -> (read: Result<VotingMachine, StorageError>)
        ensures
            read matches Ok(machine) ==> machine@ == self.stored() && machine@.balanced(),
            read matches Err(error) ==> error != StorageError::Initialization,
            self.reliable() ==> read is Ok,
    ;

    /// Replaces the machine that the store keeps by `machine`. Where that
    /// fails, the store keeps what it kept before.
    fn put_voting_machine(&mut self, machine: VotingMachine) -> (written: Result<(), StorageError>)
        ensures
            written is Ok ==> final(self).stored() == machine@,
            written matches Err(error) ==> error == StorageError::Io
                && final(self).stored() == old(self).stored(),
            old(self).reliable() ==> written is Ok,
            final(self).reliable() == old(self).reliable(),
    ;
}

} // verus!
