//! Where the read marker goes.
use std::sync::Arc;

use timeline_state::event_context::TimelineFocusKind;
use timeline_state::item::{
    EventTimelineItem, EventTimelineItemKind, RemoteEventOrigin, TimelineItem, TimelineItemKind,
    VirtualTimelineItem,
};
use timeline_state::read_marker::rfind_event_by_id;
use timeline_state::state::TimelineState;

const ME: &str = "@me:example.org";
const ALICE: &str = "@alice:example.org";

fn timeline() -> TimelineState<()> {
    TimelineState::new(
        TimelineFocusKind::Live,
        ME.to_owned(),
        "10".to_owned(),
        None,
        None,
        None,
    )
}

fn event(id: &str, sender: &str) -> EventTimelineItem {
    EventTimelineItem {
        sender: sender.to_owned(),
        timestamp: 1,
        is_room_encrypted: None,
        content: "{}".to_owned(),
        kind: EventTimelineItemKind::Remote {
            event_id: id.to_owned(),
            origin: RemoteEventOrigin::Sync,
        },
    }
}

fn add_event(state: &mut TimelineState<()>, id: &str, sender: &str) {
    let item = state.meta.new_timeline_item(event(id, sender));
    state.items.push_back(item);
}

fn add_divider(state: &mut TimelineState<()>) {
    let item = state.meta.new_timeline_item(VirtualTimelineItem::DayDivider(0));
    state.items.push_back(item);
}

fn name(item: &TimelineItem) -> String {
    match &item.kind {
        TimelineItemKind::Event(event) => match &event.kind {
            EventTimelineItemKind::Local { transaction_id, .. } => transaction_id.clone(),
            EventTimelineItemKind::Remote { event_id, .. } => event_id.clone(),
        },
        TimelineItemKind::Virtual(VirtualTimelineItem::DayDivider(_)) => "day".to_owned(),
        TimelineItemKind::Virtual(VirtualTimelineItem::ReadMarker) => "marker".to_owned(),
    }
}

fn names(state: &TimelineState<()>) -> Vec<String> {
    state.items.iter().map(|item: &Arc<TimelineItem>| name(item)).collect()
}

fn update(state: &mut TimelineState<()>) {
    let mut txn = state.transaction();
    txn.meta.update_read_marker(&mut txn.items);
    txn.commit();
}

#[test]
fn marker_goes_below_the_fully_read_event() {
    let mut state = timeline();
    add_event(&mut state, "$a", ALICE);
    add_event(&mut state, "$b", ALICE);
    state.handle_fully_read_marker("$a".to_owned());
    assert_eq!(names(&state), vec!["$a", "marker", "$b"]);
    assert!(state.meta.has_up_to_date_read_marker_item);
    assert_eq!(state.meta.fully_read_event.as_deref(), Some("$a"));
    assert_eq!(state.items[1].unique_id().0, "__read_marker");
}

#[test]
fn marker_skips_our_own_events() {
    let mut state = timeline();
    add_event(&mut state, "$a", ALICE);
    add_event(&mut state, "$mine", ME);
    add_divider(&mut state);
    add_event(&mut state, "$b", ALICE);
    state.handle_fully_read_marker("$a".to_owned());
    assert_eq!(names(&state), vec!["$a", "$mine", "day", "marker", "$b"]);
    assert!(state.meta.has_up_to_date_read_marker_item);
}

#[test]
fn no_marker_at_the_end_of_the_timeline() {
    let mut state = timeline();
    add_event(&mut state, "$a", ALICE);
    add_event(&mut state, "$mine", ME);
    state.handle_fully_read_marker("$a".to_owned());
    assert_eq!(names(&state), vec!["$a", "$mine"]);
    assert!(!state.meta.has_up_to_date_read_marker_item);
}

#[test]
fn no_marker_for_an_event_that_is_not_there() {
    let mut state = timeline();
    add_event(&mut state, "$a", ALICE);
    state.handle_fully_read_marker("$gone".to_owned());
    assert_eq!(names(&state), vec!["$a"]);
    assert!(!state.meta.has_up_to_date_read_marker_item);
}

#[test]
fn marker_stays_if_its_event_is_not_there() {
    let mut state = timeline();
    add_event(&mut state, "$a", ALICE);
    add_event(&mut state, "$b", ALICE);
    state.handle_fully_read_marker("$a".to_owned());
    state.handle_fully_read_marker("$gone".to_owned());
    assert_eq!(names(&state), vec!["$a", "marker", "$b"]);
    assert!(!state.meta.has_up_to_date_read_marker_item);
}

#[test]
fn marker_moves_down() {
    let mut state = timeline();
    for id in ["$a", "$b", "$c", "$d"] {
        add_event(&mut state, id, ALICE);
    }
    state.handle_fully_read_marker("$a".to_owned());
    let marker = Arc::clone(&state.items[1]);
    state.handle_fully_read_marker("$c".to_owned());
    assert_eq!(names(&state), vec!["$a", "$b", "$c", "marker", "$d"]);
    assert!(Arc::ptr_eq(&marker, &state.items[3]));
    assert!(state.meta.has_up_to_date_read_marker_item);
}

#[test]
fn marker_does_not_move_up() {
    let mut state = timeline();
    for id in ["$a", "$b", "$c"] {
        add_event(&mut state, id, ALICE);
    }
    state.handle_fully_read_marker("$b".to_owned());
    state.handle_fully_read_marker("$a".to_owned());
    assert_eq!(names(&state), vec!["$a", "$b", "marker", "$c"]);
    assert!(state.meta.has_up_to_date_read_marker_item);
}

#[test]
fn marker_disappears_when_everything_is_read() {
    let mut state = timeline();
    add_event(&mut state, "$a", ALICE);
    add_event(&mut state, "$b", ALICE);
    state.handle_fully_read_marker("$a".to_owned());
    state.handle_fully_read_marker("$b".to_owned());
    assert_eq!(names(&state), vec!["$a", "$b"]);
    assert!(!state.meta.has_up_to_date_read_marker_item);
}

#[test]
fn marker_with_nothing_below_it_is_removed() {
    let mut state = timeline();
    add_event(&mut state, "$a", ALICE);
    add_event(&mut state, "$b", ALICE);
    state.handle_fully_read_marker("$a".to_owned());
    state.items.remove(2);
    update(&mut state);
    assert_eq!(names(&state), vec!["$a"]);
    assert!(!state.meta.has_up_to_date_read_marker_item);
}

#[test]
fn second_update_changes_nothing() {
    let mut state = timeline();
    add_event(&mut state, "$a", ALICE);
    add_event(&mut state, "$b", ALICE);
    state.handle_fully_read_marker("$a".to_owned());
    update(&mut state);
    assert_eq!(names(&state), vec!["$a", "marker", "$b"]);
    assert!(state.meta.has_up_to_date_read_marker_item);
}

#[test]
fn same_fully_read_event_changes_nothing() {
    let mut state = timeline();
    add_event(&mut state, "$a", ALICE);
    state.handle_fully_read_marker("$a".to_owned());
    add_event(&mut state, "$b", ALICE);
    state.handle_fully_read_marker("$a".to_owned());
    assert_eq!(names(&state), vec!["$a", "$b"]);
    assert!(!state.meta.has_up_to_date_read_marker_item);
    update(&mut state);
    assert_eq!(names(&state), vec!["$a", "marker", "$b"]);
}

#[test]
fn nothing_is_updated_without_a_fully_read_event() {
    let mut state = timeline();
    add_event(&mut state, "$a", ALICE);
    update(&mut state);
    assert_eq!(names(&state), vec!["$a"]);
    assert!(state.meta.has_up_to_date_read_marker_item);
}

#[test]
fn marker_also_finds_a_sent_local_echo() {
    let mut state = timeline();
    let mut echo = event("", ME);
    echo.kind = EventTimelineItemKind::Local {
        transaction_id: "t".to_owned(),
        sent_as: Some("$sent".to_owned()),
    };
    let item = state.meta.new_timeline_item(echo);
    state.items.push_back(item);
    add_event(&mut state, "$b", ALICE);
    state.handle_fully_read_marker("$sent".to_owned());
    assert_eq!(names(&state), vec!["t", "marker", "$b"]);
}

#[test]
fn events_are_found_from_the_end() {
    let mut state = timeline();
    add_event(&mut state, "$a", ALICE);
    add_event(&mut state, "$b", ALICE);
    add_event(&mut state, "$a", ALICE);
    let txn = state.transaction();
    assert_eq!(rfind_event_by_id(&txn.items, &"$a".to_owned()), Some(2));
    assert_eq!(rfind_event_by_id(&txn.items, &"$b".to_owned()), Some(1));
    assert_eq!(rfind_event_by_id(&txn.items, &"$c".to_owned()), None);
}
