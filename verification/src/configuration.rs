//! What the program is started with.

use vstd::prelude::*;

verus! {

/// The settings of one run.
#[derive(Debug)]
pub struct Configuration {
    /// The names of the candidates.
    pub candidates: Vec<String>,
    /// Where the voting machine is kept.
    pub storage: StoredType,
    /// The language of the interfaces.
    pub language: LanguageType,
    /// How commands come in.
    pub service: ServiceType,
    /// The port that a network service listens on.
    pub port: u16,
}

/// The ways in which commands come in.
#[derive(Clone, Copy, Debug, PartialEq, Eq, Structural)]
pub enum ServiceType {
    Stdio,
    Udp,
    Tcp,
    Web,
}

/// The places where the voting machine can be kept.
#[derive(Clone, Copy, Debug, PartialEq, Eq, Structural)]
pub enum StoredType {
    File,
    Memory,
}

/// The languages that the interfaces speak.
#[derive(Clone, Copy, Debug, PartialEq, Eq, Structural)]
pub enum LanguageType {
    Fr,
    En,
}

} // verus!
