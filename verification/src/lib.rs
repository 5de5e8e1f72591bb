//! A minimal on-ledger polling library.
//!
//! Any party creates a poll with two to four fixed-width text options and an
//! activity window in ledger time; any party casts at most one vote per poll.
//! Records live at addresses derived deterministically from their identifying
//! fields, and the store's refusal to create a record where one already
//! stands is the whole uniqueness mechanism: no index, no lookup table.

pub mod addr;
pub mod codec;
pub mod errors;
pub mod ledger;
pub mod ops;
pub mod pack;
pub mod records;
