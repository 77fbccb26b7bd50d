//! A voting machine: one vote per voter, tallied over a fixed list of
//! candidates.
//!
//! - [`domain`] holds the machine itself: the attendance sheet, the
//!   scoreboard, and `vote`, the one operation that changes them. The
//!   machine is balanced at all times: what was counted adds up to the
//!   number of voters on the sheet.
//! - [`storage`] says what is asked of the place where the machine is
//!   kept, and [`storages`] has a store in memory and the form in which a
//!   machine is written down.
//! - [`use_cases`] has the controller, which submits a ballot by reading
//!   the machine, letting it vote and writing it back, in one step.
//! - [`interfaces`] turns lines and forms into votes, and the machine
//!   into text, in English or in French.
//! - [`names`], [`sorted`] and [`numerals`] are what the rest is built on:
//!   the order of names, vectors kept in it, and decimal numbers.
//! - [`configuration`] and [`app_builder`] are what a run starts from.

pub mod app_builder;
pub mod configuration;
pub mod domain;
pub mod interfaces;
pub mod names;
pub mod numerals;
pub mod sorted;
pub mod storage;
pub mod storages;
pub mod use_cases;
