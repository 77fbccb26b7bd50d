//! A store that keeps the machine in memory.

use vstd::prelude::*;
use crate::domain::voting_machine::{MachineView, VotingMachine};
use crate::storage::{Storage, StorageError};

verus! {

/// Keeps the voting machine in memory. It never fails.
pub struct MemoryStore {
    voting_machine: VotingMachine,
}

impl Storage for MemoryStore {
    closed spec fn stored(&self) -> MachineView {
        self.voting_machine@
    }

    open spec fn reliable(&self) -> bool {
        true
    }

    fn new(machine: VotingMachine) -> (made: Result<Self, StorageError>)
        ensures
            made matches Ok(store) && store.stored() == machine@,
    {
        Ok(Self { voting_machine: machine })
    }

    fn get_voting_machine(&self) -> (read: Result<VotingMachine, StorageError>) {
        Ok(self.voting_machine.clone())
    }

    fn put_voting_machine(&mut self, machine: VotingMachine) -> (written: Result<(), StorageError>) {
        self.voting_machine = machine;
        Ok(())
    }
}

impl Clone for MemoryStore {
    fn clone(&self) -> (copy: Self)
        ensures
            copy.stored() == self.stored(),
    {
        Self { voting_machine: self.voting_machine.clone() }
    }
}

} // verus!
