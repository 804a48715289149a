//! Value types of the persistent plugin work queue.

use vstd::prelude::*;

verus! {

/// The lifecycle state of one queued execution.
#[derive(Clone, Copy, Debug, PartialEq, Eq, Structural)]
pub enum Status {
    Enqueued,
    Failed,
    Processed,
}

/// The key of one queued execution row.
#[derive(Clone, Copy, Debug, PartialEq, Eq, Structural)]
pub struct ExecutionId(pub i64);

impl ExecutionId {
    /// The row key as a plain integer.
    pub fn as_i64(&self) -> (r: i64)
        ensures
            r == self.0,
    {
        self.0
    }
}

impl From<i64> for ExecutionId {
    fn from(id: i64) -> (r: ExecutionId) {
        ExecutionId(id)
    }
}

impl vstd::std_specs::convert::FromSpecImpl<i64> for ExecutionId {
    open spec fn obeys_from_spec() -> bool {
        true
    }

    open spec fn from_spec(id: i64) -> ExecutionId {
        ExecutionId(id)
    }
}

impl From<ExecutionId> for i64 {
    fn from(id: ExecutionId) -> (r: i64) {
        id.0
    }
}

impl vstd::std_specs::convert::FromSpecImpl<ExecutionId> for i64 {
    open spec fn obeys_from_spec() -> bool {
        true
    }

    open spec fn from_spec(id: ExecutionId) -> i64 {
        id.0
    }
}

} // verus!
