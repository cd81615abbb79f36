//! Base fluids of glycol solutions.

use vstd::prelude::*;

verus! {

/// Type of glycol base fluid.
#[derive(Debug, Clone, Copy, PartialEq, Eq, Structural)]
pub enum GlycolType {
    Water,
    EthyleneGlycol,
    PropyleneGlycol,
}

} // verus!
