//! What a selection asks of the thread that runs it.
//!
//! Nothing is known of how a handle behaves: no operation here has a
//! contract, and what is proved of a selection holds whatever it does.

use vstd::prelude::*;
use crate::case_id::CaseId;

verus! {

/// The handle of the thread that selects: the cell that takes the first case
/// selected, the means to park until it is filled, the clock that deadlines
/// are measured by, and a source of random numbers.
pub trait Handle {
    /// Empties the cell.
    fn reset(&self);

    /// Puts `case_id` into the cell if it is empty, and tells whether it did.
    fn try_select(&self, case_id: CaseId) -> bool;

    /// The case in the cell.
    fn selected(&self) -> CaseId;

    /// Parks the thread until the cell is filled or the clock shows `deadline`.
    fn wait_until(&self, deadline: Option<u64>);

    /// The time on the clock.
    fn now(&self) -> u64;

    /// A random number, uniform over `usize`.
    fn random(&self) -> usize;
}

} // verus!
