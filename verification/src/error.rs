//! The failures that the driver reports.

use vstd::prelude::*;

verus! {

/// What can go wrong in the driver.
///
/// A failed bus write or line change is not among them: the panel offers no
/// way to recover from one, so the hardware side drops such failures and the
/// protocol goes on.
#[derive(Clone, Copy, Debug, PartialEq, Eq, Structural)]
pub enum EpdError {
    /// The busy line could not be sampled, so nobody knows whether the
    /// refresh has ended.
    BusyReadFailure,
    /// A bit pattern that stands for no color: both plane bits zero, the raw
    /// value `0b11`, or a value wider than its field.
    InvalidColorEncoding,
    /// A coordinate outside the panel.
    OutOfRange,
}

} // verus!
