//! The three-valued result of ticking a node.

use vstd::prelude::*;

verus! {

/// Result of ticking a node once.
#[derive(PartialEq, Eq, Structural, Clone, Copy, Debug)]
pub enum Status {
    /// The node reached its goal.
    Success,
    /// The node did not reach its goal.
    Failure,
    /// The node needs more time; tick it again later.
    Running,
}

/// Swaps `Success` and `Failure`; `Running` stays.
pub open spec fn inverted(s: Status) -> Status {
    match s {
        Status::Success => Status::Failure,
        Status::Failure => Status::Success,
        Status::Running => Status::Running,
    }
}

impl Status {
    /// Swaps `Success` and `Failure`; `Running` stays.
    pub fn invert(self) -> (r: Status)
        ensures
            r == inverted(self),
    {
        match self {
            Status::Success => Status::Failure,
            Status::Failure => Status::Success,
            Status::Running => Status::Running,
        }
    }
}

} // verus!
