//! How a remote event makes its way into the timeline.
//!
//! An event is handled step by step. Each step decides what it can; where it needs something that
//! only the room can tell, it says so, and the next step takes the answer.
use std::sync::Arc;

use vstd::prelude::*;

use crate::event_context::{
    should_add_event, Flow, RemoteEventParts, TimelineEventContext, TimelineFocusKind,
    TimelineSettings,
};
use crate::item::{EventTimelineItemKind, RemoteEventOrigin, TimelineItem, TimelineItemKind};
use crate::metadata::TimelineMetadataView;
use crate::observable;
use crate::position::TimelineItemPosition;
use crate::raw_event::{
    deserialize_timeline_event, get_string_field, get_timestamp_field, get_user_id_field,
    parse_event_id, EventEnvelope, EventEnvelopeView, RawEvent,
};
use crate::receipts::ReadReceipt;
use crate::remote_events::{EventMetaView, FullEventMeta};
use crate::transaction::{ReadReceiptWork, TimelineStateTransaction};

verus! {

use crate::event_context::goes_into_timeline;
use crate::raw_event::{
    is_event_id, string_field_in, timeline_event_in, timestamp_field_in, user_id_field_in,
};
use crate::receipts::text_of;
use crate::metadata::same_constants;
use crate::remote_events::{
    added_or_updated, first_position, is_listed, law_added_event_stands_at_its_end,
    law_other_events_keep_their_order, law_update_changes_one_event, lemma_first_position,
    others_than,
};
use crate::transaction::read_receipt_work;

/// What a remote event needs next.
#[derive(Debug)]
pub enum RemoteEventStep {
    /// The event was understood: run the event filter over it, then go on with
    /// [`TimelineStateTransaction::remote_event_filtered`].
    Filter(EventEnvelope),
    /// The event belongs into the timeline if it is pinned: look that up, then go on with
    /// [`TimelineStateTransaction::remote_event_decided`].
    CheckPinned(EventEnvelope),
    /// The event was not understood: try without its content, then go on with
    /// [`TimelineStateTransaction::remote_event_without_content`].
    ParseWithoutContent,
    /// The event is among the remote events now.
    Recorded(RecordedEvent),
    /// The event is of no use.
    Ignored,
}

/// An event that is among the remote events now.
#[derive(Debug)]
pub struct RecordedEvent {
    /// What is known of the event.
    pub event_meta: FullEventMeta,
    /// What is to be done about read receipts.
    pub receipts: ReadReceiptWork,
    /// The event, if it goes on to the event handler. If it does not, nothing has come of it.
    pub envelope: Option<EventEnvelope>,
}

/// Where an event came from: that is told with its position, or by the item that it updates.
pub open spec fn origin_at(
    items: Seq<Arc<TimelineItem>>,
    position: TimelineItemPosition,
) -> RemoteEventOrigin {
    match position {
        TimelineItemPosition::Start { origin } => origin,
        TimelineItemPosition::End { origin } => origin,
        TimelineItemPosition::UpdateDecrypted { timeline_item_index } => {
            if timeline_item_index < items.len() {
                match items[timeline_item_index as int].as_event() {
                    Some(event) => match event.origin() {
                        Some(origin) => origin,
                        None => RemoteEventOrigin::Unknown,
                    },
                    None => RemoteEventOrigin::Unknown,
                }
            } else {
                RemoteEventOrigin::Unknown
            }
        },
    }
}

/// A transaction has put an event among the remote events, and done nothing else.
pub open spec fn event_recorded<'a, H>(
    before: &TimelineStateTransaction<'a, H>,
    meta: EventMetaView,
    position: TimelineItemPosition,
    after: &TimelineStateTransaction<'a, H>,
) -> bool {
    &&& after.meta@ == (TimelineMetadataView {
        all_remote_events: added_or_updated(before.meta@.all_remote_events, meta, position),
        ..before.meta@
    })
    &&& after.items == before.items
    &&& before.meta.wf() ==> after.meta.wf()
    &&& after.same_timeline(before)
}

/// A transaction has not changed.
pub open spec fn untouched<'a, H>(
    before: &TimelineStateTransaction<'a, H>,
    after: &TimelineStateTransaction<'a, H>,
) -> bool {
    &&& after.meta == before.meta
    &&& after.items == before.items
    &&& after.same_timeline(before)
}

impl RecordedEvent {
    /// The record of an event, given the remote events before it was added or updated.
    pub open spec fn is_record_of(
        self,
        events: Seq<EventMetaView>,
        event_id: Seq<char>,
        sender: Option<Seq<char>>,
        timestamp: Option<u64>,
        visible: bool,
        own_user_id: Seq<char>,
        position: TimelineItemPosition,
        settings: TimelineSettings,
    ) -> bool {
        &&& self.event_meta.event_id@ == event_id
        &&& text_of(self.event_meta.sender) == sender
        &&& self.event_meta.timestamp == timestamp
        &&& self.event_meta.visible == visible
        &&& self.event_meta.is_own_event == (sender == Some(own_user_id))
        &&& self.receipts == read_receipt_work(
            settings.track_read_receipts,
            position,
            first_position(events, event_id) matches Some(index) && events[index].visible
                != visible,
        )
    }
}

/// The step that puts an event which was understood among the remote events. It goes on to the
/// event handler, unless it is an event that was known already and is added once more.
pub open spec fn envelope_recorded(
    step: RemoteEventStep,
    events: Seq<EventMetaView>,
    envelope: EventEnvelopeView,
    should_add: bool,
    own_user_id: Seq<char>,
    position: TimelineItemPosition,
    settings: TimelineSettings,
) -> bool {
    &&& step matches RemoteEventStep::Recorded(recorded)
    &&& recorded.is_record_of(
        events,
        envelope.event_id,
        Some(envelope.sender),
        Some(envelope.timestamp),
        should_add,
        own_user_id,
        position,
        settings,
    )
    &&& match recorded.envelope {
        Some(handled) => {
            &&& handled@ == envelope
            &&& position is UpdateDecrypted || first_position(events, envelope.event_id) is None
        },
        None => {
            &&& !(position is UpdateDecrypted)
            &&& first_position(events, envelope.event_id) is Some
        },
    }
}

/// The step that puts an event which is not shown among the remote events.
pub open spec fn hidden_recorded(
    step: RemoteEventStep,
    events: Seq<EventMetaView>,
    event_id: Seq<char>,
    sender: Option<Seq<char>>,
    timestamp: Option<u64>,
    own_user_id: Seq<char>,
    position: TimelineItemPosition,
    settings: TimelineSettings,
) -> bool {
    &&& step matches RemoteEventStep::Recorded(recorded)
    &&& recorded.is_record_of(
        events,
        event_id,
        sender,
        timestamp,
        false,
        own_user_id,
        position,
        settings,
    )
    &&& recorded.envelope is None
}

/// The id that an event has though it was not understood.
pub open spec fn salvaged_event_id(json: Seq<char>) -> Option<Seq<char>> {
    match string_field_in(json, "event_id"@) {
        Some(text) => if is_event_id(text) {
            Some(text)
        } else {
            None
        },
        None => None,
    }
}

/// An event that was understood has been filtered: it is recorded, unless it matters whether it is
/// pinned.
pub open spec fn event_filtered<'a, H>(
    before: &TimelineStateTransaction<'a, H>,
    envelope: EventEnvelope,
    passes_filter: bool,
    own_user_id: Seq<char>,
    position: TimelineItemPosition,
    settings: TimelineSettings,
    step: RemoteEventStep,
    after: &TimelineStateTransaction<'a, H>,
) -> bool {
    let origin = origin_at(before.pending_items(), position);
    let focus = before.timeline_focus;
    let if_pinned = goes_into_timeline(passes_filter, origin, focus, true);
    let if_not_pinned = goes_into_timeline(passes_filter, origin, focus, false);
    if if_pinned == if_not_pinned {
        &&& envelope_recorded(
            step,
            before.meta@.all_remote_events,
            envelope@,
            if_pinned,
            own_user_id,
            position,
            settings,
        )
        &&& event_recorded(
            before,
            EventMetaView { event_id: envelope.event_id@, visible: if_pinned },
            position,
            after,
        )
    } else {
        &&& step == RemoteEventStep::CheckPinned(envelope)
        &&& untouched(before, after)
    }
}

/// An event that was not understood has been recorded, as far as it has an id. It is shown if it
/// could be read without its content and the settings say so.
pub open spec fn event_without_content_recorded<'a, H>(
    before: &TimelineStateTransaction<'a, H>,
    json: Seq<char>,
    envelope: Option<EventEnvelope>,
    own_user_id: Seq<char>,
    position: TimelineItemPosition,
    settings: TimelineSettings,
    step: RemoteEventStep,
    after: &TimelineStateTransaction<'a, H>,
) -> bool {
    match envelope {
        Some(envelope) => {
            &&& if settings.add_failed_to_parse {
                envelope_recorded(
                    step,
                    before.meta@.all_remote_events,
                    envelope@,
                    true,
                    own_user_id,
                    position,
                    settings,
                )
            } else {
                hidden_recorded(
                    step,
                    before.meta@.all_remote_events,
                    envelope.event_id@,
                    Some(envelope.sender@),
                    Some(envelope.timestamp),
                    own_user_id,
                    position,
                    settings,
                )
            }
            &&& event_recorded(
                before,
                EventMetaView {
                    event_id: envelope.event_id@,
                    visible: settings.add_failed_to_parse,
                },
                position,
                after,
            )
        },
        None => match salvaged_event_id(json) {
            Some(event_id) => {
                &&& hidden_recorded(
                    step,
                    before.meta@.all_remote_events,
                    event_id,
                    user_id_field_in(json, "sender"@),
                    timestamp_field_in(json, "origin_server_ts"@),
                    own_user_id,
                    position,
                    settings,
                )
                &&& event_recorded(
                    before,
                    EventMetaView { event_id, visible: false },
                    position,
                    after,
                )
            },
            None => step is Ignored && untouched(before, after),
        },
    }
}

impl<'a, H> TimelineStateTransaction<'a, H> {
    /// Handle a remote event: try to understand it.
    pub fn handle_remote_event(&self, raw: &RawEvent) -> (step: RemoteEventStep)
        ensures
            match timeline_event_in(raw.json@) {
                Some(event) => step matches RemoteEventStep::Filter(envelope) && envelope@ == event,
                None => step is ParseWithoutContent,
            },
    {
        match deserialize_timeline_event(raw) {
            Some(envelope) => RemoteEventStep::Filter(envelope),
            None => RemoteEventStep::ParseWithoutContent,
        }
    }

    /// Where an event that goes to the given position came from.
    pub fn event_origin(&self, position: TimelineItemPosition) -> (origin: RemoteEventOrigin)
        ensures
            origin == origin_at(self.pending_items(), position),
    {
        match position {
            TimelineItemPosition::Start { origin } => origin,
            TimelineItemPosition::End { origin } => origin,
            TimelineItemPosition::UpdateDecrypted { timeline_item_index } => {
                if timeline_item_index < observable::len(&self.items) {
                    match observable::item_at(&self.items, timeline_item_index).as_event() {
                        Some(event) => match event.origin() {
                            Some(origin) => origin,
                            None => RemoteEventOrigin::Unknown,
                        },
                        None => RemoteEventOrigin::Unknown,
                    }
                } else {
                    RemoteEventOrigin::Unknown
                }
            },
        }
    }

    /// Goes on with an event that was understood, once the event filter has been run over it.
    pub fn remote_event_filtered(
        &mut self,
        envelope: EventEnvelope,
        passes_filter: bool,
        own_user_id: &String,
        position: TimelineItemPosition,
        settings: &TimelineSettings,
    ) -> (step: RemoteEventStep)
        ensures
            event_filtered(
                old(self),
                envelope,
                passes_filter,
                own_user_id@,
                position,
                *settings,
                step,
                final(self),
            ),
    {
        let origin = self.event_origin(position);
        match should_add_event(passes_filter, origin, self.timeline_focus) {
            Some(should_add) => self.remote_event_decided(
                envelope,
                should_add,
                own_user_id,
                position,
                settings,
            ),
            None => RemoteEventStep::CheckPinned(envelope),
        }
    }

    /// Goes on with an event that was understood, once it is clear whether it goes into the
    /// timeline as an item.
    pub fn remote_event_decided(
        &mut self,
        envelope: EventEnvelope,
        should_add: bool,
        own_user_id: &String,
        position: TimelineItemPosition,
        settings: &TimelineSettings,
    ) -> (step: RemoteEventStep)
        ensures
            envelope_recorded(
                step,
                old(self).meta@.all_remote_events,
                envelope@,
                should_add,
                own_user_id@,
                position,
                *settings,
            ),
            event_recorded(
                old(self),
                EventMetaView { event_id: envelope.event_id@, visible: should_add },
                position,
                final(self),
            ),
    {
        let event_meta = FullEventMeta {
            event_id: envelope.event_id.clone(),
            visible: should_add,
            sender: Some(envelope.sender.clone()),
            is_own_event: envelope.sender == *own_user_id,
            timestamp: Some(envelope.timestamp),
        };
        let (added_or_updated, receipts) = self.add_or_update_remote_event(
            &event_meta,
            position,
            settings,
        );
        // If the event has not been added or updated, it's because it's a duplicated event.
        let envelope: Option<EventEnvelope> = if added_or_updated {
            Some(envelope)
        } else {
            None
        };
        RemoteEventStep::Recorded(RecordedEvent { event_meta, receipts, envelope })
    }

    /// Goes on with an event that was not understood, given what it looks like without its
    /// content.
    pub fn remote_event_without_content(
        &mut self,
        raw: &RawEvent,
        envelope: Option<EventEnvelope>,
        own_user_id: &String,
        position: TimelineItemPosition,
        settings: &TimelineSettings,
    ) -> (step: RemoteEventStep)
        ensures
            event_without_content_recorded(
                old(self),
                raw.json@,
                envelope,
                own_user_id@,
                position,
                *settings,
                step,
                final(self),
            ),
    {
        match envelope {
            Some(envelope) => {
                if settings.add_failed_to_parse {
                    self.remote_event_decided(envelope, true, own_user_id, position, settings)
                } else {
                    self.remote_event_hidden(
                        Some(envelope.event_id),
                        Some(envelope.sender),
                        Some(envelope.timestamp),
                        own_user_id,
                        position,
                        settings,
                    )
                }
            },
            None => {
                let event_id: Option<String> = match get_string_field(raw, "event_id") {
                    Some(text) => parse_event_id(text),
                    None => None,
                };
                let sender: Option<String> = get_user_id_field(raw, "sender");
                let timestamp: Option<u64> = get_timestamp_field(raw, "origin_server_ts");
                self.remote_event_hidden(
                    event_id,
                    sender,
                    timestamp,
                    own_user_id,
                    position,
                    settings,
                )
            },
        }
    }

    /// Takes note of an event that is not shown, if it has an id.
    pub fn remote_event_hidden(
        &mut self,
        event_id: Option<String>,
        sender: Option<String>,
        timestamp: Option<u64>,
        own_user_id: &String,
        position: TimelineItemPosition,
        settings: &TimelineSettings,
    ) -> (step: RemoteEventStep)
        ensures
            match event_id {
                Some(event_id) => {
                    &&& hidden_recorded(
                        step,
                        old(self).meta@.all_remote_events,
                        event_id@,
                        text_of(sender),
                        timestamp,
                        own_user_id@,
                        position,
                        *settings,
                    )
                    &&& event_recorded(
                        old(self),
                        EventMetaView { event_id: event_id@, visible: false },
                        position,
                        final(self),
                    )
                },
                None => step is Ignored && untouched(old(self), final(self)),
            },
    {
        match event_id {
            Some(event_id) => {
                let is_own_event: bool = match &sender {
                    Some(sender) => *sender == *own_user_id,
                    None => false,
                };
                let event_meta = FullEventMeta {
                    event_id,
                    visible: false,
                    sender,
                    is_own_event,
                    timestamp,
                };
                let (_, receipts) = self.add_or_update_remote_event(
                    &event_meta,
                    position,
                    settings,
                );
                RemoteEventStep::Recorded(
                    RecordedEvent { event_meta, receipts, envelope: None },
                )
            },
            None => RemoteEventStep::Ignored,
        }
    }
}

/// Whether the read receipts of an event are to be computed before it goes to the event handler,
/// and if so, whether the event is the newest one.
pub fn wanted_event_receipts(
    should_add: bool,
    position: TimelineItemPosition,
    settings: &TimelineSettings,
) -> (res: Option<bool>)
    ensures
        res == (if settings.track_read_receipts && should_add {
            Some(position is End)
        } else {
            None
        }),
{
    if settings.track_read_receipts && should_add {
        Some(
            match position {
                TimelineItemPosition::End { .. } => true,
                _ => false,
            },
        )
    } else {
        None
    }
}

impl<P, S, E> TimelineEventContext<P, S, E> {
    /// The context of a remote event, for the event handler. The read receipts count only if they
    /// were wanted.
    pub fn remote<U>(
        envelope: EventEnvelope,
        event_meta: FullEventMeta,
        parts: RemoteEventParts<E, U>,
        sender_profile: Option<P>,
        read_receipts: Vec<ReadReceipt>,
        position: TimelineItemPosition,
        settings: &TimelineSettings,
    ) -> (context: Self)
        ensures
            context.sender == envelope.sender,
            context.sender_profile == sender_profile,
            context.timestamp == envelope.timestamp,
            context.is_own_event == event_meta.is_own_event,
            context.read_receipts@ == (if settings.track_read_receipts && event_meta.visible {
                read_receipts@
            } else {
                Seq::empty()
            }),
            context.is_highlighted == parts.is_highlighted,
            context.flow == (Flow::<S, E>::Remote {
                event_id: envelope.event_id,
                raw_event: parts.raw,
                encryption_info: parts.encryption_info,
                txn_id: envelope.transaction_id,
                position,
            }),
            context.should_add_new_items == event_meta.visible,
    {
        let wanted = wanted_event_receipts(event_meta.visible, position, settings);
        TimelineEventContext {
            sender: envelope.sender,
            sender_profile,
            timestamp: envelope.timestamp,
            is_own_event: event_meta.is_own_event,
            read_receipts: if wanted.is_some() {
                read_receipts
            } else {
                Vec::new()
            },
            is_highlighted: parts.is_highlighted,
            flow: Flow::Remote {
                event_id: envelope.event_id,
                raw_event: parts.raw,
                encryption_info: parts.encryption_info,
                txn_id: envelope.transaction_id,
                position,
            },
            should_add_new_items: event_meta.visible,
        }
    }
}

/// An event comes from where its position says, whichever end it is added to. One that updates an
/// item comes from where the item came from, if that is a remote event.
pub proof fn law_origin_is_told_with_the_position(
    items: Seq<Arc<TimelineItem>>,
    origin: RemoteEventOrigin,
    timeline_item_index: usize,
)
    ensures
        origin_at(items, TimelineItemPosition::Start { origin }) == origin,
        origin_at(items, TimelineItemPosition::End { origin }) == origin,
        ({
            let updated = origin_at(
                items,
                TimelineItemPosition::UpdateDecrypted { timeline_item_index },
            );
            if timeline_item_index < items.len() {
                match items[timeline_item_index as int].kind {
                    TimelineItemKind::Event(event) => match event.kind {
                        EventTimelineItemKind::Remote { origin, .. } => updated == origin,
                        EventTimelineItemKind::Local { .. } => updated is Unknown,
                    },
                    TimelineItemKind::Virtual(_) => updated is Unknown,
                }
            } else {
                updated is Unknown
            }
        }),
{
}

/// What was asked for is shown if the filter lets it through, in every timeline and at both ends. Of
/// what comes down a sync, a timeline about a single event shows nothing, at both ends.
pub proof fn law_visibility_follows_the_origin(
    items: Seq<Arc<TimelineItem>>,
    origin: RemoteEventOrigin,
    passes_filter: bool,
    focus: TimelineFocusKind,
    is_pinned: bool,
    position: TimelineItemPosition,
)
    requires
        position == (TimelineItemPosition::Start { origin }) || position == (
        TimelineItemPosition::End { origin }),
    ensures
        ({
            let shown = goes_into_timeline(
                passes_filter,
                origin_at(items, position),
                focus,
                is_pinned,
            );
            &&& origin is Pagination || origin is Cache ==> shown == passes_filter
            &&& origin is Sync || origin is Unknown ==> shown == (passes_filter && (focus is Live || (
            focus is PinnedEvents && is_pinned)))
        }),
{
}

/// An event that was understood is recorded as it is: with its own id, sender, time and visibility,
/// and as our own exactly if we sent it. It goes on exactly if it is updated or was not listed.
pub proof fn law_understood_event_is_recorded(
    step: RemoteEventStep,
    events: Seq<EventMetaView>,
    envelope: EventEnvelopeView,
    should_add: bool,
    own_user_id: Seq<char>,
    position: TimelineItemPosition,
    settings: TimelineSettings,
)
    requires
        envelope_recorded(step, events, envelope, should_add, own_user_id, position, settings),
    ensures
        step matches RemoteEventStep::Recorded(recorded) && {
            &&& recorded.event_meta.event_id@ == envelope.event_id
            &&& recorded.event_meta.sender matches Some(sender) && sender@ == envelope.sender
            &&& recorded.event_meta.timestamp == Some(envelope.timestamp)
            &&& recorded.event_meta.visible == should_add
            &&& recorded.event_meta.is_own_event == (envelope.sender == own_user_id)
            &&& recorded.envelope is Some <==> position is UpdateDecrypted || !is_listed(
                events,
                envelope.event_id,
            )
            &&& recorded.envelope matches Some(handled) ==> handled@ == envelope
            &&& recorded.has_receipts_for(events, envelope.event_id, should_add, position, settings)
        },
{
    lemma_receipts_for(step->Recorded_0, events, envelope.event_id, should_add, position, settings);
}

/// An event that is not shown is recorded with what is known of it, is our own exactly if it is known
/// to be, and goes no further.
pub proof fn law_hidden_event_is_recorded(
    step: RemoteEventStep,
    events: Seq<EventMetaView>,
    event_id: Seq<char>,
    sender: Option<Seq<char>>,
    timestamp: Option<u64>,
    own_user_id: Seq<char>,
    position: TimelineItemPosition,
    settings: TimelineSettings,
)
    requires
        hidden_recorded(
            step,
            events,
            event_id,
            sender,
            timestamp,
            own_user_id,
            position,
            settings,
        ),
    ensures
        step matches RemoteEventStep::Recorded(recorded) && {
            &&& recorded.event_meta.event_id@ == event_id
            &&& match recorded.event_meta.sender {
                Some(known) => sender == Some(known@),
                None => sender is None,
            }
            &&& recorded.event_meta.timestamp == timestamp
            &&& !recorded.event_meta.visible
            &&& recorded.event_meta.is_own_event <==> (sender matches Some(known) && known
                == own_user_id)
            &&& recorded.envelope is None
            &&& recorded.has_receipts_for(events, event_id, false, position, settings)
        },
{
    lemma_receipts_for(step->Recorded_0, events, event_id, false, position, settings);
}

impl RecordedEvent {
    /// The read receipts of an event are to be loaded if it was added, and those of the event before
    /// it are to be updated if it changed its visibility where it stood, if receipts are followed.
    pub open spec fn has_receipts_for(
        self,
        events: Seq<EventMetaView>,
        event_id: Seq<char>,
        visible: bool,
        position: TimelineItemPosition,
        settings: TimelineSettings,
    ) -> bool {
        &&& self.receipts is LoadAndAddImplicit <==> settings.track_read_receipts && !(position
            is UpdateDecrypted)
        &&& self.receipts is UpdatePrevious <==> {
            &&& settings.track_read_receipts
            &&& position is UpdateDecrypted
            &&& exists|i: int|
                0 <= i < events.len() && (#[trigger] events[i]).event_id == event_id
                    && events[i].visible != visible && forall|j: int|
                    0 <= j < i ==> (#[trigger] events[j]).event_id != event_id
        }
    }
}

/// What is to be done about read receipts follows from where the event was listed first.
proof fn lemma_receipts_for(
    recorded: RecordedEvent,
    events: Seq<EventMetaView>,
    event_id: Seq<char>,
    visible: bool,
    position: TimelineItemPosition,
    settings: TimelineSettings,
)
    requires
        recorded.receipts == read_receipt_work(
            settings.track_read_receipts,
            position,
            first_position(events, event_id) matches Some(index) && events[index].visible
                != visible,
        ),
    ensures
        recorded.has_receipts_for(events, event_id, visible, position, settings),
        first_position(events, event_id) is Some <==> is_listed(events, event_id),
{
    lemma_first_position(events, event_id);
    if let Some(index) = first_position(events, event_id) {
        assert(events[index].event_id == event_id);
    }
    if exists|i: int|
        0 <= i < events.len() && (#[trigger] events[i]).event_id == event_id && events[i].visible
            != visible && forall|j: int| 0 <= j < i ==> (#[trigger] events[j]).event_id != event_id {
        let i = choose|i: int|
            0 <= i < events.len() && (#[trigger] events[i]).event_id == event_id
                && events[i].visible != visible && forall|j: int|
                0 <= j < i ==> (#[trigger] events[j]).event_id != event_id;
        assert(first_position(events, event_id) == Some(i));
    }
}

/// Recording an event changes the list of remote events alone: no item, and nothing else that is
/// known.
pub proof fn law_recording_changes_remote_events_alone<'a, H>(
    before: &TimelineStateTransaction<'a, H>,
    meta: EventMetaView,
    position: TimelineItemPosition,
    after: &TimelineStateTransaction<'a, H>,
)
    requires
        event_recorded(before, meta, position, after),
    ensures
        after.items == before.items,
        after.timeline_focus == before.timeline_focus,
        after.previous_meta == before.previous_meta,
        others_than(after.meta@.all_remote_events, meta.event_id) == others_than(
            before.meta@.all_remote_events,
            meta.event_id,
        ),
        position is UpdateDecrypted || is_listed(after.meta@.all_remote_events, meta.event_id),
        position is Start ==> after.meta@.all_remote_events[0] == meta,
        position is End ==> after.meta@.all_remote_events.last() == meta,
        !(position is UpdateDecrypted) ==> after.meta@.all_remote_events.len()
            == before.meta@.all_remote_events.len() + if is_listed(
            before.meta@.all_remote_events,
            meta.event_id,
        ) {
            0int
        } else {
            1int
        },
        position is UpdateDecrypted ==> {
            let events = before.meta@.all_remote_events;
            &&& after.meta@.all_remote_events.len() == events.len()
            &&& forall|i: int|
                0 <= i < events.len() ==> #[trigger] after.meta@.all_remote_events[i] == (
                if events[i].event_id == meta.event_id && (forall|j: int|
                    0 <= j < i ==> (#[trigger] events[j]).event_id != meta.event_id) {
                    meta
                } else {
                    events[i]
                })
        },
        same_constants(before.meta@, after.meta@),
        after.meta@.next_internal_id == before.meta@.next_internal_id,
        after.meta@.reactions == before.meta@.reactions,
        after.meta@.pending_poll_events == before.meta@.pending_poll_events,
        after.meta@.pending_edits == before.meta@.pending_edits,
        after.meta@.fully_read_event == before.meta@.fully_read_event,
        after.meta@.has_up_to_date_read_marker_item == before.meta@.has_up_to_date_read_marker_item,
        after.meta@.read_receipts == before.meta@.read_receipts,
{
    law_other_events_keep_their_order(before.meta@.all_remote_events, meta, position);
    if let TimelineItemPosition::UpdateDecrypted { timeline_item_index } = position {
        law_update_changes_one_event(before.meta@.all_remote_events, meta, timeline_item_index);
    }
    if !(position is UpdateDecrypted) {
        law_added_event_stands_at_its_end(before.meta@.all_remote_events, meta, position);
        let events = after.meta@.all_remote_events;
        if position is Start {
            assert(events[0].event_id == meta.event_id);
        } else {
            assert(events[events.len() - 1].event_id == meta.event_id);
        }
    }
}

/// An event that was not understood has an id if and only if its text has one in the right field.
pub proof fn law_salvaged_id_is_the_events_own(json: Seq<char>, id: Seq<char>)
    ensures
        salvaged_event_id(json) == Some(id) <==> string_field_in(json, "event_id"@) == Some(id)
            && is_event_id(id),
{
}

/// An event of which nothing comes leaves everything as it was.
pub proof fn law_ignored_event_changes_nothing<'a, H>(
    before: &TimelineStateTransaction<'a, H>,
    after: &TimelineStateTransaction<'a, H>,
)
    requires
        untouched(before, after),
    ensures
        after.items == before.items,
        after.meta == before.meta,
        after.previous_meta == before.previous_meta,
        after.timeline_focus == before.timeline_focus,
{
}

/// An event that is added to an end of the timeline is shown as the filter says if it was asked for,
/// whatever the timeline is about. If it came down a sync, it is shown in a live timeline, hidden in
/// one about a single event, and in one of pinned events the room is asked first, with nothing done
/// yet. What is shown is told with the event and listed at that end.
pub proof fn law_added_event_is_shown_as_it_should_be<'a, H>(
    before: &TimelineStateTransaction<'a, H>,
    envelope: EventEnvelope,
    passes_filter: bool,
    own_user_id: Seq<char>,
    origin: RemoteEventOrigin,
    position: TimelineItemPosition,
    settings: TimelineSettings,
    step: RemoteEventStep,
    after: &TimelineStateTransaction<'a, H>,
)
    requires
        event_filtered(
            before,
            envelope,
            passes_filter,
            own_user_id,
            position,
            settings,
            step,
            after,
        ),
        position == (TimelineItemPosition::Start { origin }) || position == (
        TimelineItemPosition::End { origin }),
    ensures
        ({
            let asked_for = origin is Pagination || origin is Cache;
            let focus = before.timeline_focus;
            if passes_filter && !asked_for && focus is PinnedEvents {
                &&& step == RemoteEventStep::CheckPinned(envelope)
                &&& after.meta == before.meta
                &&& after.items == before.items
            } else {
                let shown = passes_filter && (asked_for || focus is Live);
                let events = after.meta@.all_remote_events;
                let listed = events[if position is Start {
                    0
                } else {
                    events.len() - 1
                }];
                &&& step matches RemoteEventStep::Recorded(recorded)
                &&& recorded.event_meta.visible == shown
                &&& recorded.event_meta.event_id@ == envelope.event_id@
                &&& recorded.event_meta.is_own_event == (envelope.sender@ == own_user_id)
                &&& recorded.envelope is Some <==> !is_listed(
                    before.meta@.all_remote_events,
                    envelope.event_id@,
                )
                &&& listed.event_id == envelope.event_id@
                &&& listed.visible == shown
                &&& after.items == before.items
            }
        }),
{
    let shown = goes_into_timeline(passes_filter, origin, before.timeline_focus, true);
    if goes_into_timeline(passes_filter, origin, before.timeline_focus, false) == shown {
        law_understood_event_is_recorded(
            step,
            before.meta@.all_remote_events,
            envelope@,
            shown,
            own_user_id,
            position,
            settings,
        );
        law_recording_changes_remote_events_alone(
            before,
            EventMetaView { event_id: envelope.event_id@, visible: shown },
            position,
            after,
        );
    }
}

/// An event that was not understood is shown only if it could be read without its content and the
/// settings say so, and only then it may go on. Without an id nothing comes of it.
pub proof fn law_event_without_content_is_shown_as_the_settings_say<'a, H>(
    before: &TimelineStateTransaction<'a, H>,
    json: Seq<char>,
    envelope: Option<EventEnvelope>,
    own_user_id: Seq<char>,
    position: TimelineItemPosition,
    settings: TimelineSettings,
    step: RemoteEventStep,
    after: &TimelineStateTransaction<'a, H>,
)
    requires
        event_without_content_recorded(
            before,
            json,
            envelope,
            own_user_id,
            position,
            settings,
            step,
            after,
        ),
    ensures
        step is Ignored <==> envelope is None && !(string_field_in(
            json,
            "event_id"@,
        ) matches Some(id) && is_event_id(id)),
        step is Ignored ==> after.meta == before.meta,
        !(step is Ignored) ==> {
            let shown = envelope is Some && settings.add_failed_to_parse;
            &&& step matches RemoteEventStep::Recorded(recorded)
            &&& recorded.event_meta.visible == shown
            &&& recorded.envelope is Some ==> shown
            &&& match envelope {
                Some(envelope) => {
                    &&& recorded.event_meta.event_id@ == envelope.event_id@
                    &&& recorded.event_meta.timestamp == Some(envelope.timestamp)
                    &&& recorded.event_meta.sender matches Some(sender) && sender@
                        == envelope.sender@
                },
                None => {
                    &&& string_field_in(json, "event_id"@) == Some(recorded.event_meta.event_id@)
                    &&& recorded.event_meta.timestamp == timestamp_field_in(
                        json,
                        "origin_server_ts"@,
                    )
                    &&& recorded.event_meta.sender is Some <==> user_id_field_in(
                        json,
                        "sender"@,
                    ) is Some
                },
            }
            &&& position is End ==> after.meta@.all_remote_events.last() == (EventMetaView {
                event_id: recorded.event_meta.event_id@,
                visible: shown,
            })
            &&& position is Start ==> after.meta@.all_remote_events[0] == (EventMetaView {
                event_id: recorded.event_meta.event_id@,
                visible: shown,
            })
        },
        after.items == before.items,
{
    if let RemoteEventStep::Recorded(recorded) = step {
        let meta = EventMetaView {
            event_id: recorded.event_meta.event_id@,
            visible: recorded.event_meta.visible,
        };
        law_recording_changes_remote_events_alone(before, meta, position, after);
    }
}

} // verus!
