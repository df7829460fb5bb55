//! The failures that the library reports to its caller.

use crate::event_kind::EventKind;
use vstd::prelude::*;

verus! {

/// Why an operation could not produce its result.
#[derive(Debug, Clone, Copy, PartialEq, Eq, Structural)]
pub enum Error {
    /// A counter that the cache metrics are derived from is not in the
    /// vector: the run was made without cache simulation.
    MissingMetric(EventKind),
    /// A name that is not the profiler's name of any event kind.
    UnknownEventKind,
    /// A comparison of runs was asked for without a single segment.
    EmptySegmentSet,
}

} // verus!
