//! ASHRAE 55 comfort zones.

use vstd::prelude::*;

verus! {

/// ASHRAE 55 comfort zone check result.
#[derive(Debug, Clone, Copy, PartialEq, Eq, Structural)]
pub enum ComfortZone {
    /// Within winter comfort zone (heating season).
    Winter,
    /// Within summer comfort zone (cooling season).
    Summer,
    /// Within both zones.
    Both,
    /// Outside acceptable range.
    OutOfRange,
}

/// The comfort zone of a condition, given whether its humidity is
/// acceptable and whether its operative temperature lies in the winter and
/// in the summer range: out of range when the humidity is not acceptable
/// or neither range holds.
pub fn zone_for(humidity_ok: bool, in_winter_range: bool, in_summer_range: bool) -> (r: ComfortZone)
    ensures
        r == if !humidity_ok {
            ComfortZone::OutOfRange
        } else if in_winter_range && in_summer_range {
            ComfortZone::Both
        } else if in_winter_range {
            ComfortZone::Winter
        } else if in_summer_range {
            ComfortZone::Summer
        } else {
            ComfortZone::OutOfRange
        },
{
    if !humidity_ok {
        return ComfortZone::OutOfRange;
    }
    match (in_winter_range, in_summer_range) {
        (true, true) => ComfortZone::Both,
        (true, false) => ComfortZone::Winter,
        (false, true) => ComfortZone::Summer,
        (false, false) => ComfortZone::OutOfRange,
    }
}


/// CEN 15251 comfort category.
#[derive(Debug, Clone, Copy, PartialEq, Eq, Structural)]
pub enum CenCategory {
    /// Category I: high expectation (new buildings, sensitive occupants).
    I,
    /// Category II: normal expectation (new and renovated buildings).
    II,
    /// Category III: moderate expectation (existing buildings).
    III,
}

} // verus!
