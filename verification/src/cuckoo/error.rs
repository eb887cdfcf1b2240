//! Errors of the cuckoo module.

use vstd::prelude::*;

verus! {

/// `with_capacity` failure: the capacity can't be allocated (the bucket count overflows, or
/// memory is exhausted).
#[derive(Debug, PartialEq, Eq, Structural)]
pub enum CuckooBuildError {
    CapacityOverflow,
}

impl CuckooBuildError {
    /// What the error says.
    pub fn message(&self) -> (text: &'static str)
        ensures
            text@ == "capacity overflow: requested capacity exceeds maximum"@,
    {
        match self {
            CuckooBuildError::CapacityOverflow => {
                "capacity overflow: requested capacity exceeds maximum"
            },
        }
    }
}

/// `insert` failure: the filter is full, since no fingerprint found a free slot within the
/// allowed number of relocations. The filter is unchanged.
#[derive(Debug, PartialEq, Eq, Structural)]
pub struct TableFullError;

impl TableFullError {
    /// What the error says.
    pub fn message(&self) -> (text: &'static str)
        ensures
            text@ == "cuckoo table full after 500 kicks"@,
    {
        "cuckoo table full after 500 kicks"
    }
}

} // verus!
