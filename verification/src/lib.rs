//! A selection driver: the state machine that multiplexes a set of channel
//! operations and commits to exactly one of them.
//!
//! [`machine::Machine`] is the driver: the caller goes through its cases
//! with one call for each, and the driver performs, through the channels and
//! the handle that the caller brings, the operations that its
//! [`sequencer::Sequencer`] decides on. [`model`] holds the driver as a
//! mathematical state machine, [`selection`] what a whole selection comes to,
//! and [`rotation`] and [`tally`] what holds of every selection.

pub mod case_id;
pub mod protocol;
pub mod channel;
pub mod handle;
pub mod model;
pub mod sequencer;
pub mod machine;
pub mod selection;
pub mod rotation;
pub mod tally;
