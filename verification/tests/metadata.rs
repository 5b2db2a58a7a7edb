//! Identifiers, shared values and the stash of edits.
use std::sync::Arc;

use timeline_state::item::{TimelineItem, TimelineItemKind, VirtualTimelineItem};
use timeline_state::metadata::{TimelineMetadata, MAX_NUM_STASHED_PENDING_EDITS};
use timeline_state::pending::{PendingEdit, PendingEditKind, Replacement};
use timeline_state::ring_buffer::RingBuffer;

fn metadata(prefix: Option<&str>) -> TimelineMetadata<String> {
    TimelineMetadata::new(
        "@me:example.org".to_owned(),
        "10".to_owned(),
        prefix.map(str::to_owned),
        Some(Arc::new("hook".to_owned())),
        Some(true),
    )
}

fn edit(id: &str) -> PendingEdit {
    let replacement =
        Replacement { event_id: id.to_owned(), new_content: "secret".to_owned() };
    PendingEdit {
        kind: PendingEditKind::RoomMessage(replacement),
        event_json: "{\"secret\":1}".to_owned(),
    }
}

#[test]
fn identifiers_are_numbers_with_a_prefix() {
    let mut meta = metadata(Some("live-"));
    assert_eq!(meta.next_internal_id().0, "live-0");
    assert_eq!(meta.next_internal_id().0, "live-1");
    meta.next_internal_id = 1234567890;
    assert_eq!(meta.next_internal_id().0, "live-1234567890");
}

#[test]
fn identifiers_without_a_prefix() {
    let mut meta = metadata(None);
    for expected in ["0", "1", "2", "3", "4", "5", "6", "7", "8", "9", "10", "11"] {
        assert_eq!(meta.next_internal_id().0, expected);
    }
}

#[test]
fn identifiers_start_over_after_the_last_number() {
    let mut meta = metadata(None);
    meta.next_internal_id = u64::MAX;
    assert_eq!(meta.next_internal_id().0, "18446744073709551615");
    assert_eq!(meta.next_internal_id().0, "0");
}

#[test]
fn new_items_have_fresh_identifiers() {
    let mut meta = metadata(Some("p"));
    let first = meta.new_timeline_item(VirtualTimelineItem::DayDivider(3));
    let second =
        meta.new_timeline_item(TimelineItemKind::Virtual(VirtualTimelineItem::ReadMarker));
    assert_eq!(first.unique_id().0, "p0");
    assert!(first.is_day_divider());
    assert_eq!(second.unique_id().0, "p1");
    assert!(second.is_read_marker());
    assert_ne!(first.unique_id(), TimelineItem::read_marker().unique_id());
}

#[test]
fn clear_does_not_reset_identifiers() {
    let mut meta = metadata(None);
    meta.next_internal_id();
    meta.clear();
    assert_eq!(meta.next_internal_id().0, "1");
}

#[test]
fn clones_share_the_hook_and_the_encryption_flag() {
    let meta = metadata(Some("p"));
    let copy = meta.clone();
    assert!(Arc::ptr_eq(&meta.is_room_encrypted, &copy.is_room_encrypted));
    assert!(Arc::ptr_eq(
        meta.unable_to_decrypt_hook.as_ref().unwrap(),
        copy.unable_to_decrypt_hook.as_ref().unwrap()
    ));
    assert_eq!(copy.internal_id_prefix.as_deref(), Some("p"));
    assert_eq!(*copy.is_room_encrypted.read().unwrap(), Some(true));
    *meta.is_room_encrypted.write().unwrap() = None;
    assert_eq!(*copy.is_room_encrypted.read().unwrap(), None);
}

#[test]
fn lock_is_made_with_the_encryption_flag() {
    for flag in [None, Some(false), Some(true)] {
        let meta: TimelineMetadata<()> =
            TimelineMetadata::new("@me:x.org".to_owned(), "10".to_owned(), None, None, flag);
        assert_eq!(*meta.is_room_encrypted.read().unwrap(), flag);
    }
}

#[test]
fn new_metadata_are_empty() {
    let meta = metadata(None);
    assert!(meta.all_remote_events.is_empty());
    assert!(meta.fully_read_event.is_none());
    assert!(meta.has_up_to_date_read_marker_item);
    assert_eq!(meta.pending_edits.len(), 0);
    assert_eq!(meta.pending_edits.capacity(), MAX_NUM_STASHED_PENDING_EDITS);
    assert_eq!(meta.next_internal_id, 0);
    assert_eq!(meta.own_user_id, "@me:example.org");
    assert_eq!(meta.room_version, "10");
}

#[test]
fn only_the_newest_edits_are_stashed() {
    let mut meta = metadata(None);
    for number in 0..40 {
        meta.pending_edits.push(edit(&format!("${number}")));
    }
    assert_eq!(meta.pending_edits.len(), 32);
    assert_eq!(meta.pending_edits.get(0).unwrap().edited_event(), "$8");
    assert_eq!(meta.pending_edits.get(31).unwrap().edited_event(), "$39");
    assert!(meta.pending_edits.get(32).is_none());
}

#[test]
fn ring_buffer_drops_the_oldest() {
    let mut buffer = RingBuffer::new(2);
    buffer.push(1);
    buffer.push(2);
    buffer.push(3);
    assert_eq!(buffer.len(), 2);
    assert_eq!(buffer.get(0), Some(&2));
    assert_eq!(buffer.get(1), Some(&3));
    buffer.clear();
    assert_eq!(buffer.len(), 0);
    assert_eq!(buffer.capacity(), 2);
}

#[test]
fn edits_tell_what_they_edit_and_nothing_else() {
    let message = edit("$m");
    assert_eq!(message.edited_event(), "$m");
    assert_eq!(message.debug_string(), "RoomMessage { .. }");
    let poll = PendingEdit {
        kind: PendingEditKind::Poll(Replacement {
            event_id: "$p".to_owned(),
            new_content: "secret".to_owned(),
        }),
        event_json: "{}".to_owned(),
    };
    assert_eq!(poll.edited_event(), "$p");
    assert_eq!(poll.debug_string(), "Poll { .. }");
}
