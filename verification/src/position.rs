//! Where in the timeline an event goes.
use vstd::prelude::*;

use crate::item::RemoteEventOrigin;

verus! {

use vstd::std_specs::convert::FromSpec;

/// Where a **new** item goes.
///
/// This is a simplification of [`TimelineItemPosition`] which doesn't contain the
/// [`TimelineItemPosition::UpdateDecrypted`] variant.
#[derive(Clone, Copy, Debug, PartialEq, Eq, Structural)]
pub enum TimelineNewItemPosition {
    /// One or more items are prepended to the timeline (i.e. they're the oldest).
    Start { origin: RemoteEventOrigin },
    /// One or more items are appended to the timeline (i.e. they're the most recent).
    End { origin: RemoteEventOrigin },
}

/// Where an item goes.
#[derive(Clone, Copy, Debug, PartialEq, Eq, Structural)]
pub enum TimelineItemPosition {
    /// One or more items are prepended to the timeline (i.e. they're the oldest).
    Start { origin: RemoteEventOrigin },
    /// One or more items are appended to the timeline (i.e. they're the most recent).
    End { origin: RemoteEventOrigin },
    /// An item that could not be decrypted before is updated where it stands.
    UpdateDecrypted { timeline_item_index: usize },
}

impl From<TimelineNewItemPosition> for TimelineItemPosition {
    fn from(value: TimelineNewItemPosition) -> (position: Self) {
        match value {
            TimelineNewItemPosition::Start { origin } => TimelineItemPosition::Start { origin },
            TimelineNewItemPosition::End { origin } => TimelineItemPosition::End { origin },
        }
    }
}

impl vstd::std_specs::convert::FromSpecImpl<TimelineNewItemPosition> for TimelineItemPosition {
    open spec fn obeys_from_spec() -> bool {
        true
    }

    open spec fn from_spec(value: TimelineNewItemPosition) -> Self {
        match value {
            TimelineNewItemPosition::Start { origin } => TimelineItemPosition::Start { origin },
            TimelineNewItemPosition::End { origin } => TimelineItemPosition::End { origin },
        }
    }
}

/// How two events stand to each other in the timeline.
#[derive(Clone, Copy, Debug, PartialEq, Eq, Structural)]
pub enum RelativePosition {
    /// Event B is after (more recent than) event A.
    After,
    /// They are the same event.
    Same,
    /// Event B is before (older than) event A.
    Before,
}

/// A new item goes to the end that it was meant for, and keeps its origin.
pub proof fn law_new_positions_are_kept(origin: RemoteEventOrigin)
    ensures
        TimelineItemPosition::from_spec(TimelineNewItemPosition::Start { origin }) == (
        TimelineItemPosition::Start { origin }),
        TimelineItemPosition::from_spec(TimelineNewItemPosition::End { origin }) == (
        TimelineItemPosition::End { origin }),
{
}

} // verus!
