//! The display loop: what is shown for each outcome of its subscription.

use crate::bus::WaitOutcome;
use vstd::prelude::*;

verus! {

/// What the display task does with an outcome of its subscription.
#[derive(Debug, Clone, Copy, PartialEq, Eq)]
pub enum Shown {
    /// These four digits are shown.
    Digits([u8; 4]),
    /// Nothing is shown; so many readings were lost, which is noted in the log.
    Lost(u64),
}

/// Decides what is shown for `outcome`: the digits of a reading that was delivered; for a
/// report of lost readings the display stays as it is.
pub fn show(outcome: WaitOutcome) -> (shown: Shown)
    ensures
        match outcome {
            WaitOutcome::Delivered(reading) => shown matches Shown::Digits(d) && d@
                == reading.display_digits(),
            WaitOutcome::Lagged(n) => shown == Shown::Lost(n),
        },
{
    match outcome {
        WaitOutcome::Delivered(reading) => Shown::Digits(reading.digits()),
        WaitOutcome::Lagged(n) => Shown::Lost(n),
    }
}

} // verus!
