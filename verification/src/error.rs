//! The failures that decoding and the acquisition pipeline report.

use vstd::prelude::*;
use crate::dictionary::Role;

verus! {

/// What went wrong, by the level at which it is handled.
#[derive(Clone, Copy, Debug, PartialEq, Eq, Structural)]
pub enum DsmrError {
    /// A timestamp payload is not `YYMMDDhhmmss` followed by `W` or `S`, or
    /// names no instant. The field is dropped.
    MalformedTimestamp,
    /// A measurement payload has no `*`, or its left part is no number. The
    /// field is dropped.
    MalformedMeasurement,
    /// A telegram left a field of the snapshot empty; the role is the one
    /// whose line should have filled it. The telegram is dropped.
    IncompleteTelegram(Role),
    /// The line source ended. Nothing more can arrive.
    SourceExhausted,
    /// The sink refused the points of one snapshot. The points are dropped.
    SinkWriteFailed,
}

impl DsmrError {
    /// Whether the pipeline goes on after this failure. Only the end of the
    /// line source stops it.
    pub open spec fn recoverable(self) -> bool {
        self != DsmrError::SourceExhausted
    }

    /// Decides whether the pipeline goes on after this failure.
    pub fn is_recoverable(&self) -> (r: bool)
        ensures
            r == self.recoverable(),
    {
        match self {
            DsmrError::SourceExhausted => false,
            _ => true,
        }
    }
}

} // verus!
