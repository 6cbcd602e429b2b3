//! Elapsed time of a finished HTTP call, kept in whole microseconds.

use vstd::prelude::*;
use crate::helpers::format_duration;
use crate::helpers::spec_format_duration;

verus! {

/// A wall-clock duration, in microseconds.
#[derive(Debug, Clone)]
pub struct FalconDuration {
    pub micros: u64,
}

impl FalconDuration {
    /// Wraps a number of elapsed microseconds.
    pub fn from_micros(micros: u64) -> (d: Self)
        ensures
            d.micros == micros,
    {
        FalconDuration { micros }
    }

    /// The duration formatted for display.
    pub fn text(&self) -> (s: String)
        ensures
            s@ == spec_format_duration(self.micros as nat),
    {
        format_duration(self.micros)
    }
}

} // verus!
