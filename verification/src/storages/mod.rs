//! The stores that come with the library.

pub mod file;
pub mod memory;
