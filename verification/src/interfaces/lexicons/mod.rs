//! The languages that the interfaces speak.

pub mod english;
pub mod french;
