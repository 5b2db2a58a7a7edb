//! What a clear leaves of a timeline.
use std::sync::Arc;

use timeline_state::event_context::{HandleManyEventsResult, TimelineFocusKind, TimelineSettings};
use timeline_state::item::{
    EventTimelineItem, EventTimelineItemKind, RemoteEventOrigin, TimelineItem, TimelineItemKind,
    VirtualTimelineItem,
};
use timeline_state::pending::{PendingEdit, PendingEditKind, PollState, Replacement};
use timeline_state::position::{TimelineItemPosition, TimelineNewItemPosition};
use timeline_state::reactions::Reaction;
use timeline_state::receipts::ReadReceipt;
use timeline_state::remote_events::FullEventMeta;
use timeline_state::state::TimelineState;

fn timeline() -> TimelineState<()> {
    TimelineState::new(
        TimelineFocusKind::Live,
        "@me:example.org".to_owned(),
        "10".to_owned(),
        Some("t-".to_owned()),
        None,
        None,
    )
}

fn add(state: &mut TimelineState<()>, what: &str) {
    let item = if what == "day" {
        state.meta.new_timeline_item(VirtualTimelineItem::DayDivider(0))
    } else if what == "marker" {
        TimelineItem::read_marker()
    } else {
        let kind = if what.starts_with('$') {
            EventTimelineItemKind::Remote {
                event_id: what.to_owned(),
                origin: RemoteEventOrigin::Sync,
            }
        } else {
            EventTimelineItemKind::Local { transaction_id: what.to_owned(), sent_as: None }
        };
        state.meta.new_timeline_item(EventTimelineItem {
            sender: "@me:example.org".to_owned(),
            timestamp: 1,
            is_room_encrypted: None,
            content: "{}".to_owned(),
            kind,
        })
    };
    state.items.push_back(item);
}

fn name(item: &TimelineItem) -> String {
    match &item.kind {
        TimelineItemKind::Event(event) => match &event.kind {
            EventTimelineItemKind::Local { transaction_id, .. } => transaction_id.clone(),
            EventTimelineItemKind::Remote { event_id, .. } => event_id.clone(),
        },
        TimelineItemKind::Virtual(VirtualTimelineItem::DayDivider(_)) => "day".to_owned(),
        TimelineItemKind::Virtual(VirtualTimelineItem::ReadMarker) => "marker".to_owned(),
    }
}

fn names(state: &TimelineState<()>) -> Vec<String> {
    state.items.iter().map(|item: &Arc<TimelineItem>| name(item)).collect()
}

fn with_items(items: &[&str]) -> TimelineState<()> {
    let mut state = timeline();
    for what in items {
        add(&mut state, what);
    }
    state
}

#[test]
fn clear_without_local_echoes_leaves_nothing() {
    let mut state = with_items(&["day", "$a", "marker", "$b"]);
    state.clear();
    assert!(state.items.is_empty());
}

#[test]
fn clear_keeps_local_echoes_and_their_day() {
    let mut state = with_items(&["day", "$a", "marker", "$b", "day", "$c", "t1", "t2"]);
    state.clear();
    assert_eq!(names(&state), vec!["day", "t1", "t2"]);
}

#[test]
fn clear_removes_all_stray_day_dividers() {
    let mut state = with_items(&["day", "$a", "day", "t1", "day", "$b", "day", "$c"]);
    state.clear();
    assert_eq!(names(&state), vec!["day", "t1"]);
}

#[test]
fn second_clear_leaves_the_rest() {
    let mut state = with_items(&["day", "t1", "$a", "day", "t2", "$b"]);
    state.clear();
    let once = names(&state);
    assert_eq!(once, vec!["day", "t1", "day", "t2"]);
    state.clear();
    assert_eq!(names(&state), once);
}

#[test]
fn clear_forgets_events_and_keeps_constants() {
    let mut state = with_items(&["$a", "$b"]);
    let mut txn = state.transaction();
    let meta = FullEventMeta {
        event_id: "$a".to_owned(),
        visible: true,
        sender: None,
        is_own_event: false,
        timestamp: None,
    };
    let settings = TimelineSettings { track_read_receipts: false, add_failed_to_parse: false };
    let end = TimelineItemPosition::End { origin: RemoteEventOrigin::Sync };
    txn.add_or_update_remote_event(&meta, end, &settings);
    txn.set_fully_read_event("$gone".to_owned());
    txn.meta.reactions.known.push(Reaction {
        reaction_id: "$r".to_owned(),
        event_id: "$a".to_owned(),
        sender: "@alice:example.org".to_owned(),
        key: "+".to_owned(),
    });
    txn.meta.pending_poll_events.mark_as_ended(&"$poll".to_owned(), 5);
    txn.meta.pending_edits.push(PendingEdit {
        kind: PendingEditKind::Poll(Replacement {
            event_id: "$poll".to_owned(),
            new_content: "{}".to_owned(),
        }),
        event_json: "{}".to_owned(),
    });
    txn.meta.read_receipts.receipts.push(ReadReceipt {
        event_id: "$a".to_owned(),
        receipt_type: "m.read".to_owned(),
        user_id: "@alice:example.org".to_owned(),
        timestamp: Some(1),
        thread: None,
    });
    txn.commit();
    assert_eq!(state.meta.all_remote_events.len(), 1);
    assert!(!state.meta.has_up_to_date_read_marker_item);
    assert_eq!(state.meta.pending_edits.len(), 1);

    state.clear();
    assert!(state.meta.all_remote_events.is_empty());
    assert!(state.meta.reactions.known.is_empty());
    assert!(state.meta.reactions.pending.is_empty());
    assert_eq!(state.meta.pending_edits.len(), 0);
    assert_eq!(state.meta.pending_edits.capacity(), 32);
    assert!(state.meta.fully_read_event.is_none());
    assert!(state.meta.has_up_to_date_read_marker_item);
    assert!(state.meta.read_receipts.receipts.is_empty());
    let mut poll = PollState { response_data: vec![], end_event_timestamp: None };
    state.meta.pending_poll_events.apply_pending(&"$poll".to_owned(), &mut poll);
    assert_eq!(poll.end_event_timestamp, None);
    assert_eq!(state.meta.own_user_id, "@me:example.org");
    assert_eq!(state.meta.room_version, "10");
    assert_eq!(state.meta.internal_id_prefix.as_deref(), Some("t-"));
    // Identifiers go on where they were.
    assert_eq!(state.meta.next_internal_id().0, "t-2");
}

#[test]
fn replacement_starts_from_a_cleared_timeline() {
    let mut state = with_items(&["$a", "t1", "$b"]);
    let position = TimelineNewItemPosition::End { origin: RemoteEventOrigin::Cache };
    let mut batch = state.replace_with_remote_events(position);
    assert_eq!(batch.txn.items.len(), 1);
    assert_eq!(batch.position, TimelineItemPosition::End { origin: RemoteEventOrigin::Cache });
    assert_eq!(batch.total, HandleManyEventsResult { items_added: 0, items_updated: 0 });
    let item = batch.txn.meta.new_timeline_item(VirtualTimelineItem::DayDivider(7));
    batch.txn.items.push_back(item);
    batch.commit();
    assert_eq!(names(&state), vec!["t1", "day"]);
}
