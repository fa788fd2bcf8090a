//! Verified core of a personal expense tracker.
//!
//! Records of income and expense are kept in one ledger per month, a text
//! file with one comma-separated line per record. A month is worked on in
//! the folder `in_progress` and moved to the folder `done` when it is
//! closed; statistics are drawn from closed months. Categories are kept in a
//! list of their own, one per line.
//!
//! This crate holds everything that is decided or computed: what a line of a
//! ledger looks like, what the statistics of a month are, what the dialogue
//! asks next and what an answer amounts to. It reads no file and no
//! keyboard: its functions take what was read and say what is to be written
//! or asked, and the program around it does the reading and the writing.
//!
//! Amounts are exact: an [`amount::Amount`] is a whole number of hundredths,
//! written in plain decimal notation and read from decimal notation with or
//! without an exponent, rounded to the nearest hundredth.

pub mod amount;
pub mod archive;
pub mod category;
pub mod dialogue;
pub mod ledger;
pub mod menu;
pub mod month;
pub mod rounding;
pub mod stats;
pub mod text;
