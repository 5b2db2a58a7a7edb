//! What is handed on with an event that goes into the timeline, and what comes back.
use vstd::prelude::*;

use crate::item::RemoteEventOrigin;
use crate::position::TimelineItemPosition;
use crate::raw_event::RawEvent;
use crate::receipts::ReadReceipt;

verus! {

/// What a timeline is about.
#[derive(Clone, Copy, Debug, PartialEq, Eq, Structural)]
pub enum TimelineFocusKind {
    /// The most recent events, as they come in.
    Live,
    /// The events around one event.
    Event,
    /// The pinned events of the room.
    PinnedEvents,
}

/// How a timeline treats events.
#[derive(Clone, Copy, Debug, PartialEq, Eq, Structural)]
pub struct TimelineSettings {
    /// Whether read receipts are followed.
    pub track_read_receipts: bool,
    /// Whether events whose content cannot be understood are shown.
    pub add_failed_to_parse: bool,
}

/// What became of an event.
#[derive(Clone, Copy, Debug, PartialEq, Eq, Structural)]
pub struct HandleEventResult {
    /// Whether the event was added as an item.
    pub item_added: bool,
    /// Whether the item of the event was taken away.
    pub item_removed: bool,
    /// How many items were updated.
    pub items_updated: u16,
}

impl Default for HandleEventResult {
    fn default() -> (result: Self)
        ensures
            result == (HandleEventResult { item_added: false, item_removed: false, items_updated: 0 }),
    {
        HandleEventResult { item_added: false, item_removed: false, items_updated: 0 }
    }
}

/// What became of several events.
#[derive(Clone, Copy, Debug, PartialEq, Eq, Structural)]
pub struct HandleManyEventsResult {
    /// How many items were added.
    pub items_added: u64,
    /// How many items were updated.
    pub items_updated: u64,
}

impl Default for HandleManyEventsResult {
    fn default() -> (result: Self)
        ensures
            result == (HandleManyEventsResult { items_added: 0, items_updated: 0 }),
    {
        HandleManyEventsResult { items_added: 0, items_updated: 0 }
    }
}

/// How many items a list of results says were added.
pub open spec fn added_in(results: Seq<HandleEventResult>) -> int
    decreases results.len(),
{
    if results.len() == 0 {
        0
    } else {
        added_in(results.drop_last()) + if results.last().item_added {
            1int
        } else {
            0int
        }
    }
}

/// How many items a list of results says were updated.
pub open spec fn updated_in(results: Seq<HandleEventResult>) -> int
    decreases results.len(),
{
    if results.len() == 0 {
        0
    } else {
        updated_in(results.drop_last()) + results.last().items_updated
    }
}

/// The result of one more event has been taken into account.
pub open spec fn recorded(
    before: HandleManyEventsResult,
    result: HandleEventResult,
    after: HandleManyEventsResult,
) -> bool {
    &&& after.items_added == before.items_added + (if result.item_added {
        1int
    } else {
        0int
    })
    &&& after.items_updated == before.items_updated + result.items_updated
}

impl HandleManyEventsResult {
    /// Takes the result of one more event into account. The counts must not go over the top.
    pub fn record(&mut self, result: HandleEventResult)
        requires
            result.item_added ==> old(self).items_added < u64::MAX,
            old(self).items_updated + result.items_updated <= u64::MAX,
        ensures
            recorded(*old(self), result, *final(self)),
    {
        if result.item_added {
            self.items_added = self.items_added + 1;
        }
        self.items_updated = self.items_updated + result.items_updated as u64;
    }
}

/// What became of several events is the sum of what became of each.
pub proof fn law_totals_are_sums(
    results: Seq<HandleEventResult>,
    before: HandleManyEventsResult,
    result: HandleEventResult,
    after: HandleManyEventsResult,
)
    requires
        before.items_added == added_in(results),
        before.items_updated == updated_in(results),
        recorded(before, result, after),
    ensures
        after.items_added == added_in(results.push(result)),
        after.items_updated == updated_in(results.push(result)),
{
    assert(results.push(result).drop_last() == results);
}

/// What the push rules say about an event.
#[derive(Debug)]
pub enum PushAction {
    /// Notify the user.
    Notify,
    /// Highlight the event, or do not.
    Highlight(bool),
    /// Play a sound.
    Sound(String),
    /// Anything else, as JSON text.
    Other(String),
}

impl PushAction {
    /// Whether the event is to be highlighted.
    pub open spec fn spec_is_highlight(&self) -> bool {
        self matches PushAction::Highlight(true)
    }

    /// Whether the event is to be highlighted.
    #[verifier::when_used_as_spec(spec_is_highlight)]
    pub fn is_highlight(&self) -> (res: bool)
        ensures
            res == self.spec_is_highlight(),
    {
        match self {
            PushAction::Highlight(highlight) => *highlight,
            _ => false,
        }
    }
}

/// Whether some action highlights the event.
pub open spec fn highlights(actions: Seq<PushAction>) -> bool {
    exists|i: int| 0 <= i < actions.len() && (#[trigger] actions[i]).is_highlight()
}

/// Whether some action highlights the event.
pub fn any_highlight(actions: &Vec<PushAction>) -> (res: bool)
    ensures
        res == highlights(actions@),
{
    let mut index: usize = 0;
    while index < actions.len()
        invariant
            index <= actions@.len(),
            forall|i: int| 0 <= i < index ==> !(#[trigger] actions@[i]).is_highlight(),
        decreases actions@.len() - index,
    {
        if actions[index].is_highlight() {
            assert(actions@[index as int].is_highlight());
            return true;
        }
        index = index + 1;
    }
    false
}

/// A remote event and how it was received. `E` tells how it was encrypted, and `U` why it could
/// not be decrypted.
#[derive(Debug)]
pub enum RemoteEventKind<E, U> {
    /// The event was decrypted.
    Decrypted { event: RawEvent, encryption_info: E },
    /// The event is encrypted and could not be decrypted.
    UnableToDecrypt { event: RawEvent, utd_info: U },
    /// The event was not encrypted.
    PlainText { event: RawEvent },
}

/// A remote event with what the push rules say about it.
#[derive(Debug)]
pub struct SyncTimelineEvent<E, U> {
    pub kind: RemoteEventKind<E, U>,
    pub push_actions: Vec<PushAction>,
}

/// The parts of a remote event.
#[derive(Debug)]
pub struct RemoteEventParts<E, U> {
    /// The event itself.
    pub raw: RawEvent,
    /// How the event was encrypted, if it was decrypted.
    pub encryption_info: Option<E>,
    /// Why the event could not be decrypted, if it could not.
    pub utd_info: Option<U>,
    /// Whether the event is to be highlighted.
    pub is_highlighted: bool,
}

impl<E, U> SyncTimelineEvent<E, U> {
    /// Takes a remote event apart.
    pub fn into_parts(self) -> (parts: RemoteEventParts<E, U>)
        ensures
            parts == (RemoteEventParts {
                raw: match self.kind {
                    RemoteEventKind::Decrypted { event, .. } => event,
                    RemoteEventKind::UnableToDecrypt { event, .. } => event,
                    RemoteEventKind::PlainText { event } => event,
                },
                encryption_info: match self.kind {
                    RemoteEventKind::Decrypted { encryption_info, .. } => Some(encryption_info),
                    _ => None,
                },
                utd_info: match self.kind {
                    RemoteEventKind::UnableToDecrypt { utd_info, .. } => Some(utd_info),
                    _ => None,
                },
                is_highlighted: highlights(self.push_actions@),
            }),
    {
        let is_highlighted: bool = any_highlight(&self.push_actions);
        match self.kind {
            RemoteEventKind::Decrypted { event, encryption_info } => RemoteEventParts {
                raw: event,
                encryption_info: Some(encryption_info),
                utd_info: None,
                is_highlighted,
            },
            RemoteEventKind::UnableToDecrypt { event, utd_info } => RemoteEventParts {
                raw: event,
                encryption_info: None,
                utd_info: Some(utd_info),
                is_highlighted,
            },
            RemoteEventKind::PlainText { event } => RemoteEventParts {
                raw: event,
                encryption_info: None,
                utd_info: None,
                is_highlighted,
            },
        }
    }
}

/// Where an event comes from. `S` is a handle on an event that is being sent, and `E` tells how a
/// remote event was encrypted.
#[allow(inconsistent_fields)]
#[derive(Debug)]
pub enum Flow<S, E> {
    /// The event was locally created.
    Local { txn_id: String, send_handle: Option<S> },
    /// The event was received from the server.
    Remote {
        event_id: String,
        raw_event: RawEvent,
        encryption_info: Option<E>,
        txn_id: Option<String>,
        position: TimelineItemPosition,
    },
}

/// What is known about an event that is about to go into the timeline. `P` is the type of the
/// sender's profile.
#[derive(Debug)]
pub struct TimelineEventContext<P, S, E> {
    pub sender: String,
    pub sender_profile: Option<P>,
    /// When the event was sent, in milliseconds since the Unix epoch.
    pub timestamp: u64,
    pub is_own_event: bool,
    pub read_receipts: Vec<ReadReceipt>,
    pub is_highlighted: bool,
    pub flow: Flow<S, E>,
    /// Whether new items may be added for the event.
    pub should_add_new_items: bool,
}

impl<P, S, E> TimelineEventContext<P, S, E> {
    /// The context of a local echo, sent at the given time.
    pub fn local_echo(
        own_user_id: String,
        own_profile: Option<P>,
        timestamp: u64,
        should_add_new_items: bool,
        txn_id: String,
        send_handle: Option<S>,
    ) -> (context: Self)
        ensures
            context.sender == own_user_id,
            context.sender_profile == own_profile,
            context.timestamp == timestamp,
            context.is_own_event,
            context.read_receipts@ == Seq::<ReadReceipt>::empty(),
            // An event sent by ourselves is never matched against push rules.
            !context.is_highlighted,
            context.flow == (Flow::<S, E>::Local { txn_id, send_handle }),
            context.should_add_new_items == should_add_new_items,
    {
        TimelineEventContext {
            sender: own_user_id,
            sender_profile: own_profile,
            timestamp,
            is_own_event: true,
            read_receipts: Vec::new(),
            is_highlighted: false,
            flow: Flow::Local { txn_id, send_handle },
            should_add_new_items,
        }
    }
}

/// Whether an event goes into the timeline as an item, given whether the event filter lets it
/// through, where it came from, what the timeline is about and whether the event is pinned.
///
/// What comes down a sync goes into a live timeline, goes into one of pinned events only if it is
/// pinned, and never goes into one that is about a single event. What was asked for goes in.
pub open spec fn goes_into_timeline(
    passes_filter: bool,
    origin: RemoteEventOrigin,
    focus: TimelineFocusKind,
    is_pinned: bool,
) -> bool {
    &&& passes_filter
    &&& match origin {
        RemoteEventOrigin::Sync | RemoteEventOrigin::Unknown => match focus {
            TimelineFocusKind::PinnedEvents => is_pinned,
            TimelineFocusKind::Live => true,
            TimelineFocusKind::Event => false,
        },
        RemoteEventOrigin::Pagination | RemoteEventOrigin::Cache => true,
    }
}

/// Decides whether an event goes into the timeline, as far as that does not depend on whether it
/// is pinned.
pub fn should_add_event(
    passes_filter: bool,
    origin: RemoteEventOrigin,
    focus: TimelineFocusKind,
) -> (decision: Option<bool>)
    ensures
        match decision {
            Some(should_add) => forall|is_pinned: bool|
                should_add == #[trigger] goes_into_timeline(passes_filter, origin, focus, is_pinned),
            None => forall|is_pinned: bool|
                is_pinned == #[trigger] goes_into_timeline(passes_filter, origin, focus, is_pinned),
        },
{
    if !passes_filter {
        return Some(false);
    }
    match origin {
        RemoteEventOrigin::Sync | RemoteEventOrigin::Unknown => match focus {
            TimelineFocusKind::PinnedEvents => None,
            TimelineFocusKind::Live => Some(true),
            TimelineFocusKind::Event => Some(false),
        },
        RemoteEventOrigin::Pagination | RemoteEventOrigin::Cache => Some(true),
    }
}

/// No timeline takes an event that the filter holds back. Of what comes down a sync, a live timeline
/// takes everything else, a timeline of pinned events what is pinned, and a timeline about a single
/// event nothing. What was asked for goes into any timeline.
pub proof fn law_timelines_take_what_they_are_about(
    passes_filter: bool,
    origin: RemoteEventOrigin,
    focus: TimelineFocusKind,
    is_pinned: bool,
)
    ensures
        ({
            let from_sync = origin is Sync || origin is Unknown;
            let goes_in = goes_into_timeline(passes_filter, origin, focus, is_pinned);
            &&& !passes_filter ==> !goes_in
            &&& from_sync && focus is Live ==> goes_in == passes_filter
            &&& from_sync && focus is PinnedEvents ==> goes_in == (passes_filter && is_pinned)
            &&& from_sync && focus is Event ==> !goes_in
            &&& !from_sync ==> goes_in == passes_filter
        }),
{
}

/// A single event counts as one item added if it was added, and as many items updated as it says.
pub proof fn law_total_of_one_event(result: HandleEventResult)
    ensures
        added_in(seq![result]) == if result.item_added {
            1int
        } else {
            0int
        },
        updated_in(seq![result]) == result.items_updated,
{
    reveal_with_fuel(added_in, 2);
    reveal_with_fuel(updated_in, 2);
    assert(seq![result].drop_last() == Seq::<HandleEventResult>::empty());
}

/// Actions highlight an event if and only if one of them is to highlight it.
pub proof fn law_highlights(actions: Seq<PushAction>)
    ensures
        highlights(actions) <==> exists|i: int|
            0 <= i < actions.len() && #[trigger] actions[i] == PushAction::Highlight(true),
{
    if highlights(actions) {
        let i = choose|i: int| 0 <= i < actions.len() && (#[trigger] actions[i]).is_highlight();
        assert(actions[i] == PushAction::Highlight(true));
    }
    if exists|i: int| 0 <= i < actions.len() && #[trigger] actions[i] == PushAction::Highlight(true) {
        let i = choose|i: int|
            0 <= i < actions.len() && #[trigger] actions[i] == PushAction::Highlight(true);
        assert(actions[i].is_highlight());
    }
}

} // verus!
