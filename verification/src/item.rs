//! The items a timeline is made of: events, and the virtual items shown between them.
use std::sync::Arc;

use vstd::prelude::*;

verus! {

/// Where a remote event was received from.
#[derive(Clone, Copy, Debug, PartialEq, Eq, Structural)]
pub enum RemoteEventOrigin {
    /// The event was already in the local cache.
    Cache,
    /// The event came down a sync.
    Sync,
    /// The event came from a back- or forward-pagination.
    Pagination,
    /// Nothing is known about where the event came from.
    Unknown,
}

/// The identifier of an item, meant to be unique among the items of a timeline.
#[derive(Debug, PartialEq, Eq, Hash)]
pub struct TimelineUniqueId(pub String);

impl Clone for TimelineUniqueId {
    fn clone(&self) -> (id: Self)
        ensures
            id == *self,
    {
        TimelineUniqueId(self.0.clone())
    }
}

/// What sets a local echo and an event received from the server apart.
#[derive(Debug)]
pub enum EventTimelineItemKind {
    /// An event of our own that the server has not sent back yet. It has an event id once the
    /// server has accepted it.
    Local { transaction_id: String, sent_as: Option<String> },
    /// An event that was received from the server.
    Remote { event_id: String, origin: RemoteEventOrigin },
}

impl Clone for EventTimelineItemKind {
    fn clone(&self) -> (kind: Self)
        ensures
            kind == *self,
    {
        match self {
            EventTimelineItemKind::Local { transaction_id, sent_as } => {
                let sent_as: Option<String> = match sent_as {
                    Some(id) => Some(id.clone()),
                    None => None,
                };
                EventTimelineItemKind::Local { transaction_id: transaction_id.clone(), sent_as }
            },
            EventTimelineItemKind::Remote { event_id, origin } => {
                EventTimelineItemKind::Remote { event_id: event_id.clone(), origin: *origin }
            },
        }
    }
}

/// An event as it is shown in the timeline.
#[derive(Debug)]
pub struct EventTimelineItem {
    /// The user who sent the event.
    pub sender: String,
    /// When the event was sent, in milliseconds since the Unix epoch.
    pub timestamp: u64,
    /// Whether the room of the timeline is encrypted, if that is known.
    pub is_room_encrypted: Option<bool>,
    /// The content of the event, as JSON text.
    pub content: String,
    /// Whether the event is a local echo or a remote event.
    pub kind: EventTimelineItemKind,
}

impl Clone for EventTimelineItem {
    fn clone(&self) -> (event: Self)
        ensures
            event == *self,
    {
        EventTimelineItem {
            sender: self.sender.clone(),
            timestamp: self.timestamp,
            is_room_encrypted: self.is_room_encrypted,
            content: self.content.clone(),
            kind: self.kind.clone(),
        }
    }
}

impl EventTimelineItem {
    /// The event id in force, as text: every remote event has one, a local echo may have one.
    pub open spec fn spec_event_id(self) -> Option<Seq<char>> {
        match self.kind {
            EventTimelineItemKind::Local { sent_as: Some(id), .. } => Some(id@),
            EventTimelineItemKind::Local { sent_as: None, .. } => None,
            EventTimelineItemKind::Remote { event_id, .. } => Some(event_id@),
        }
    }

    /// Whether the server knows this event under the given id.
    pub fn has_event_id(&self, id: &String) -> (res: bool)
        ensures
            res == (self.spec_event_id() == Some(id@)),
    {
        match &self.kind {
            EventTimelineItemKind::Local { sent_as, .. } => match sent_as {
                Some(own) => *own == *id,
                None => false,
            },
            EventTimelineItemKind::Remote { event_id, .. } => *event_id == *id,
        }
    }

    /// Where a remote event came from; nothing for a local echo.
    pub open spec fn spec_origin(&self) -> Option<RemoteEventOrigin> {
        match self.kind {
            EventTimelineItemKind::Local { .. } => None,
            EventTimelineItemKind::Remote { origin, .. } => Some(origin),
        }
    }

    /// Where a remote event came from; nothing for a local echo.
    #[verifier::when_used_as_spec(spec_origin)]
    pub fn origin(&self) -> (res: Option<RemoteEventOrigin>)
        ensures
            res == self.spec_origin(),
    {
        match &self.kind {
            EventTimelineItemKind::Local { .. } => None,
            EventTimelineItemKind::Remote { origin, .. } => Some(*origin),
        }
    }
}

/// An item that stands for no event.
#[derive(Clone, Copy, Debug, PartialEq, Eq, Structural)]
pub enum VirtualTimelineItem {
    /// Sets apart the events of two days. It holds the time of the first event below it.
    DayDivider(u64),
    /// Sets apart what has been read from what has not.
    ReadMarker,
}

/// What an item is.
#[derive(Debug)]
pub enum TimelineItemKind {
    Event(EventTimelineItem),
    Virtual(VirtualTimelineItem),
}

impl From<EventTimelineItem> for TimelineItemKind {
    fn from(event: EventTimelineItem) -> (kind: Self) {
        TimelineItemKind::Event(event)
    }
}

impl vstd::std_specs::convert::FromSpecImpl<EventTimelineItem> for TimelineItemKind {
    open spec fn obeys_from_spec() -> bool {
        true
    }

    open spec fn from_spec(event: EventTimelineItem) -> Self {
        TimelineItemKind::Event(event)
    }
}

impl From<VirtualTimelineItem> for TimelineItemKind {
    fn from(item: VirtualTimelineItem) -> (kind: Self) {
        TimelineItemKind::Virtual(item)
    }
}

impl vstd::std_specs::convert::FromSpecImpl<VirtualTimelineItem> for TimelineItemKind {
    open spec fn obeys_from_spec() -> bool {
        true
    }

    open spec fn from_spec(item: VirtualTimelineItem) -> Self {
        TimelineItemKind::Virtual(item)
    }
}

/// One item of a timeline.
#[derive(Debug)]
pub struct TimelineItem {
    pub kind: TimelineItemKind,
    pub internal_id: TimelineUniqueId,
}

/// The text of the identifier that every read marker item has.
pub open spec fn read_marker_id() -> Seq<char> {
    "__read_marker"@
}

impl TimelineItem {
    /// Creates an item of the given kind with the given identifier.
    pub fn new(kind: TimelineItemKind, internal_id: TimelineUniqueId) -> (item: Arc<Self>)
        ensures
            item.kind == kind,
            item.internal_id == internal_id,
    {
        Arc::new(TimelineItem { kind, internal_id })
    }

    /// Creates the same item with another kind.
    pub fn with_kind(&self, kind: TimelineItemKind) -> (item: Arc<Self>)
        ensures
            item.kind == kind,
            item.internal_id == self.internal_id,
    {
        Arc::new(TimelineItem { kind, internal_id: self.internal_id.clone() })
    }

    /// Whether this is the item that `read_marker` makes.
    pub open spec fn is_fresh_read_marker(&self) -> bool {
        &&& self.is_read_marker()
        &&& self.internal_id.0@ == read_marker_id()
    }

    /// Creates a read marker.
    pub fn read_marker() -> (item: Arc<Self>)
        ensures
            item.is_fresh_read_marker(),
    {
        Arc::new(
            TimelineItem {
                kind: TimelineItemKind::Virtual(VirtualTimelineItem::ReadMarker),
                internal_id: TimelineUniqueId("__read_marker".to_owned()),
            },
        )
    }

    pub open spec fn spec_unique_id(&self) -> &TimelineUniqueId {
        &self.internal_id
    }

    /// The identifier of the item.
    #[verifier::when_used_as_spec(spec_unique_id)]
    pub fn unique_id(&self) -> (id: &TimelineUniqueId)
        ensures
            id == self.spec_unique_id(),
    {
        &self.internal_id
    }

    pub open spec fn spec_as_event(&self) -> Option<&EventTimelineItem> {
        match &self.kind {
            TimelineItemKind::Event(event) => Some(event),
            TimelineItemKind::Virtual(_) => None,
        }
    }

    /// The event, unless the item is virtual.
    #[verifier::when_used_as_spec(spec_as_event)]
    pub fn as_event(&self) -> (event: Option<&EventTimelineItem>)
        ensures
            event == self.spec_as_event(),
    {
        match &self.kind {
            TimelineItemKind::Event(event) => Some(event),
            TimelineItemKind::Virtual(_) => None,
        }
    }

    pub open spec fn spec_is_local_echo(&self) -> bool {
        self.kind matches TimelineItemKind::Event(event) && event.kind is Local
    }

    /// Whether the item is an event of our own that the server has not sent back.
    #[verifier::when_used_as_spec(spec_is_local_echo)]
    pub fn is_local_echo(&self) -> (res: bool)
        ensures
            res == self.spec_is_local_echo(),
    {
        match &self.kind {
            TimelineItemKind::Event(event) => match &event.kind {
                EventTimelineItemKind::Local { .. } => true,
                EventTimelineItemKind::Remote { .. } => false,
            },
            TimelineItemKind::Virtual(_) => false,
        }
    }

    pub open spec fn spec_is_remote_event(&self) -> bool {
        self.kind matches TimelineItemKind::Event(event) && event.kind is Remote
    }

    /// Whether the item is an event that was received from the server.
    #[verifier::when_used_as_spec(spec_is_remote_event)]
    pub fn is_remote_event(&self) -> (res: bool)
        ensures
            res == self.spec_is_remote_event(),
    {
        match &self.kind {
            TimelineItemKind::Event(event) => match &event.kind {
                EventTimelineItemKind::Local { .. } => false,
                EventTimelineItemKind::Remote { .. } => true,
            },
            TimelineItemKind::Virtual(_) => false,
        }
    }

    pub open spec fn spec_is_day_divider(&self) -> bool {
        self.kind matches TimelineItemKind::Virtual(VirtualTimelineItem::DayDivider(_))
    }

    /// Whether the item is a day divider.
    #[verifier::when_used_as_spec(spec_is_day_divider)]
    pub fn is_day_divider(&self) -> (res: bool)
        ensures
            res == self.spec_is_day_divider(),
    {
        match &self.kind {
            TimelineItemKind::Virtual(VirtualTimelineItem::DayDivider(_)) => true,
            _ => false,
        }
    }

    pub open spec fn spec_is_read_marker(&self) -> bool {
        self.kind == TimelineItemKind::Virtual(VirtualTimelineItem::ReadMarker)
    }

    /// Whether the item is a read marker.
    #[verifier::when_used_as_spec(spec_is_read_marker)]
    pub fn is_read_marker(&self) -> (res: bool)
        ensures
            res == self.spec_is_read_marker(),
    {
        match &self.kind {
            TimelineItemKind::Virtual(VirtualTimelineItem::ReadMarker) => true,
            _ => false,
        }
    }
}

/// What an item is, is told by its kind alone: an event is a local echo or was received from the
/// server, and a virtual item is a day divider or a read marker.
pub proof fn law_kinds_of_items(item: TimelineItem)
    ensures
        match item.kind {
            TimelineItemKind::Event(event) => {
                &&& item.as_event() == Some(&event)
                &&& item.is_local_echo() == (event.kind is Local)
                &&& item.is_remote_event() == (event.kind is Remote)
                &&& !item.is_day_divider()
                &&& !item.is_read_marker()
            },
            TimelineItemKind::Virtual(item_kind) => {
                &&& item.as_event() is None
                &&& !item.is_local_echo()
                &&& !item.is_remote_event()
                &&& item.is_day_divider() == (item_kind is DayDivider)
                &&& item.is_read_marker() == (item_kind is ReadMarker)
            },
        },
        *item.unique_id() == item.internal_id,
{
}

/// The server knows a remote event under its id, and a local echo under the id that it was accepted
/// with, if it was. Only of a remote event it is known where it came from.
pub proof fn law_ids_and_origins_of_events(event: EventTimelineItem)
    ensures
        match event.kind {
            EventTimelineItemKind::Local { sent_as: Some(id), .. } => {
                event.spec_event_id() == Some(id@) && event.origin() is None
            },
            EventTimelineItemKind::Local { sent_as: None, .. } => {
                event.spec_event_id() is None && event.origin() is None
            },
            EventTimelineItemKind::Remote { event_id, origin } => {
                event.spec_event_id() == Some(event_id@) && event.origin() == Some(origin)
            },
        },
{
}

} // verus!
