use vstd::prelude::*;

verus! {

/// Lifecycle state of a container, ordered
/// `UNKNOWN < CREATED < RUNNING < STOPPED`.
#[derive(Clone, Copy, Debug, PartialEq, Eq, Structural)]
pub enum Status {
    UNKNOWN,
    CREATED,
    RUNNING,
    STOPPED,
}

impl Status {
    /// Position of the state in the lifecycle order.
    pub open spec fn rank(self) -> nat {
        match self {
            Status::UNKNOWN => 0,
            Status::CREATED => 1,
            Status::RUNNING => 2,
            Status::STOPPED => 3,
        }
    }

    /// A container in this state has a runtime-reported pid and can exit.
    pub open spec fn is_live(self) -> bool {
        self == Status::CREATED || self == Status::RUNNING
    }

    /// Whether the container has been created by the runtime (any state after `UNKNOWN`).
    pub fn is_created(&self) -> (r: bool)
        ensures
            r == (self.rank() >= 1),
    {
        !matches!(self, Status::UNKNOWN)
    }

    /// Whether the container is `CREATED` or `RUNNING`.
    pub fn is_running_or_created(&self) -> (r: bool)
        ensures
            r == self.is_live(),
    {
        matches!(self, Status::CREATED | Status::RUNNING)
    }
}

} // verus!
