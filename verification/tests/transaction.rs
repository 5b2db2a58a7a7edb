//! Transactions: what takes effect, what subscribers see, and what is found to be wrong.
use std::sync::Arc;

use eyeball_im::VectorDiff;
use futures_util::{FutureExt, StreamExt};
use timeline_state::event_context::{
    HandleEventResult, HandleManyEventsResult, PushAction, RemoteEventKind, TimelineFocusKind,
};
use timeline_state::item::{
    EventTimelineItem, EventTimelineItemKind, RemoteEventOrigin, TimelineItem, VirtualTimelineItem,
};
use timeline_state::position::{TimelineItemPosition, TimelineNewItemPosition};
use timeline_state::raw_event::RawEvent;
use timeline_state::retry::{retried_event, DecryptionRetry};
use timeline_state::state::{TimelineState, UPDATE_BUFFER_CAPACITY};

fn timeline() -> TimelineState<()> {
    TimelineState::new(
        TimelineFocusKind::Live,
        "@me:example.org".to_owned(),
        "10".to_owned(),
        None,
        None,
        Some(false),
    )
}

fn event(id: &str) -> EventTimelineItem {
    EventTimelineItem {
        sender: "@alice:example.org".to_owned(),
        timestamp: 1,
        is_room_encrypted: None,
        content: "{}".to_owned(),
        kind: EventTimelineItemKind::Remote {
            event_id: id.to_owned(),
            origin: RemoteEventOrigin::Sync,
        },
    }
}

fn with_events(ids: &[&str]) -> TimelineState<()> {
    let mut state = timeline();
    for id in ids {
        let item = state.meta.new_timeline_item(event(id));
        state.items.push_back(item);
    }
    state
}

fn flags(state: &TimelineState<()>) -> Vec<Option<bool>> {
    state
        .items
        .iter()
        .filter_map(|item| item.as_event())
        .map(|event| event.is_room_encrypted)
        .collect()
}

#[test]
fn dropped_transaction_changes_nothing() {
    let mut state = with_events(&["$a", "$b"]);
    {
        let mut txn = state.transaction();
        txn.set_fully_read_event("$a".to_owned());
        txn.meta.next_internal_id();
        assert_eq!(txn.items.len(), 3);
    }
    assert_eq!(state.items.len(), 2);
    assert_eq!(state.meta.next_internal_id, 2);
    assert!(state.meta.fully_read_event.is_none());
}

#[test]
fn discarded_transaction_changes_nothing() {
    let mut state = with_events(&["$a", "$b"]);
    let mut updates = state.items.subscribe().into_batched_stream();
    let mut txn = state.transaction();
    txn.set_fully_read_event("$a".to_owned());
    txn.meta.next_internal_id();
    assert_eq!(txn.items.len(), 3);
    txn.discard();
    assert_eq!(state.items.len(), 2);
    assert_eq!(state.meta.next_internal_id, 2);
    assert!(state.meta.fully_read_event.is_none());
    assert!(updates.next().now_or_never().is_none());
}

#[test]
fn committed_transaction_takes_effect() {
    let mut state = with_events(&["$a", "$b"]);
    let mut txn = state.transaction();
    txn.set_fully_read_event("$a".to_owned());
    txn.meta.next_internal_id();
    txn.commit();
    assert_eq!(state.items.len(), 3);
    assert!(state.items[1].is_read_marker());
    assert_eq!(state.meta.next_internal_id, 3);
    assert_eq!(state.meta.fully_read_event.as_deref(), Some("$a"));
}

#[test]
fn subscribers_see_a_clear_as_one_update() {
    let mut state = with_events(&["$a", "$b"]);
    let mut updates = state.items.subscribe().into_batched_stream();
    state.clear();
    let batch = updates.next().now_or_never().flatten().unwrap();
    assert_eq!(batch.len(), 1);
    assert!(matches!(batch[0], VectorDiff::Clear));
}

#[test]
fn subscribers_see_each_removal_where_local_echoes_stay() {
    let mut state = with_events(&["$a", "$b"]);
    let mut echo = event("");
    echo.kind =
        EventTimelineItemKind::Local { transaction_id: "t".to_owned(), sent_as: None };
    let item = state.meta.new_timeline_item(echo);
    state.items.insert(1, item);
    let mut updates = state.items.subscribe().into_batched_stream();
    state.clear();
    let batch = updates.next().now_or_never().flatten().unwrap();
    assert_eq!(batch.len(), 2);
    assert!(matches!(batch[0], VectorDiff::Remove { index: 0 }));
    assert!(matches!(batch[1], VectorDiff::Remove { index: 1 }));
    assert_eq!(state.items.len(), 1);
}

#[test]
fn subscribers_see_all_events_again_with_the_encryption_flag() {
    let mut state = with_events(&["$a", "$b"]);
    let divider = state.meta.new_timeline_item(VirtualTimelineItem::DayDivider(0));
    state.items.insert(1, divider);
    let mut updates = state.items.subscribe().into_batched_stream();
    state.update_all_events_is_room_encrypted(Some(true));
    let batch = updates.next().now_or_never().flatten().unwrap();
    assert_eq!(batch.len(), 2);
    assert!(matches!(batch[0], VectorDiff::Set { index: 0, .. }));
    assert!(matches!(batch[1], VectorDiff::Set { index: 2, .. }));
}

#[test]
fn subscribers_see_events_again_though_the_flag_was_right() {
    let mut state = with_events(&["$a", "$b"]);
    state.update_all_events_is_room_encrypted(Some(true));
    let mut updates = state.items.subscribe().into_batched_stream();
    state.update_all_events_is_room_encrypted(Some(true));
    let batch = updates.next().now_or_never().flatten().unwrap();
    assert_eq!(batch.len(), 2);
    assert!(matches!(batch[0], VectorDiff::Set { index: 0, .. }));
    assert!(matches!(batch[1], VectorDiff::Set { index: 1, .. }));
    assert!(updates.next().now_or_never().is_none());
}

#[test]
fn subscribers_see_the_read_marker_move() {
    let mut state = with_events(&["$a", "$b", "$c"]);
    let mut updates = state.items.subscribe().into_batched_stream();
    state.handle_fully_read_marker("$a".to_owned());
    let batch = updates.next().now_or_never().flatten().unwrap();
    assert_eq!(batch.len(), 1);
    assert!(matches!(batch[0], VectorDiff::Insert { index: 1, .. }));
    state.handle_fully_read_marker("$b".to_owned());
    let batch = updates.next().now_or_never().flatten().unwrap();
    assert_eq!(batch.len(), 2);
    assert!(matches!(batch[0], VectorDiff::Remove { index: 1 }));
    assert!(matches!(batch[1], VectorDiff::Insert { index: 2, .. }));
    state.handle_fully_read_marker("$gone".to_owned());
    assert!(updates.next().now_or_never().is_none());
}

#[test]
fn subscribers_hear_nothing_without_a_fully_read_event() {
    let mut state = with_events(&["$a", "$b"]);
    state.items.push_back(TimelineItem::read_marker());
    let mut updates = state.items.subscribe().into_batched_stream();
    let mut txn = state.transaction();
    txn.meta.update_read_marker(&mut txn.items);
    txn.commit();
    assert_eq!(state.items.len(), 3);
    assert!(state.meta.has_up_to_date_read_marker_item);
    assert!(updates.next().now_or_never().is_none());
}

#[test]
fn slow_subscribers_keep_up_with_a_sync() {
    assert_eq!(UPDATE_BUFFER_CAPACITY, 32);
    let mut state = timeline();
    let mut updates = state.items.subscribe().into_stream();
    for _ in 0..20 {
        let item = state.meta.new_timeline_item(VirtualTimelineItem::DayDivider(0));
        state.items.push_back(item);
    }
    for _ in 0..20 {
        let update = updates.next().now_or_never().flatten().unwrap();
        assert!(matches!(update, VectorDiff::PushBack { .. }));
    }
}

#[test]
fn encryption_flag_is_given_to_all_events() {
    let mut state = with_events(&["$a", "$b"]);
    for flag in [Some(false), Some(true), None] {
        state.update_all_events_is_room_encrypted(flag);
        assert_eq!(flags(&state), vec![flag, flag]);
    }
}

#[test]
fn last_encryption_flag_counts() {
    let mut state = with_events(&["$a", "$b"]);
    let divider = state.meta.new_timeline_item(VirtualTimelineItem::DayDivider(9));
    state.items.push_back(divider);
    let ids: Vec<String> = state.items.iter().map(|item| item.unique_id().0.clone()).collect();
    state.update_all_events_is_room_encrypted(Some(true));
    state.update_all_events_is_room_encrypted(None);
    assert_eq!(flags(&state), vec![None, None]);
    let now: Vec<String> = state.items.iter().map(|item| item.unique_id().0.clone()).collect();
    assert_eq!(now, ids);
    assert!(state.items[2].is_day_divider());
    assert_eq!(state.items[0].as_event().unwrap().sender, "@alice:example.org");
}

#[test]
fn unique_ids_have_no_duplicates() {
    let mut state = with_events(&["$a", "$b", "$c"]);
    let txn = state.transaction();
    assert!(txn.check_no_unused_unique_ids().is_empty());
}

#[test]
fn duplicate_unique_ids_are_found_once_each() {
    let mut state = with_events(&["$a", "$b"]);
    for index in [1, 0, 1] {
        let item: Arc<TimelineItem> = Arc::clone(&state.items[index]);
        state.items.push_back(item);
    }
    let txn = state.transaction();
    let ids: Vec<String> =
        txn.check_no_unused_unique_ids().into_iter().map(|id| id.0).collect();
    assert_eq!(ids, vec!["1", "0"]);
}

#[test]
fn no_batch_without_events() {
    let mut state = timeline();
    let start = TimelineNewItemPosition::Start { origin: RemoteEventOrigin::Pagination };
    assert!(state.add_remote_events_at(0, start).is_none());
}

#[test]
fn batch_adds_up_and_takes_effect() {
    let mut state = timeline();
    let start = TimelineNewItemPosition::Start { origin: RemoteEventOrigin::Pagination };
    let mut batch = state.add_remote_events_at(2, start).unwrap();
    assert_eq!(
        batch.position,
        TimelineItemPosition::Start { origin: RemoteEventOrigin::Pagination }
    );
    let item = batch.txn.meta.new_timeline_item(event("$a"));
    batch.txn.items.push_front(item);
    batch.event_handled(HandleEventResult {
        item_added: true,
        item_removed: false,
        items_updated: 0,
    });
    batch.event_handled(HandleEventResult {
        item_added: false,
        item_removed: false,
        items_updated: 3,
    });
    batch.event_handled(HandleEventResult {
        item_added: true,
        item_removed: true,
        items_updated: 4,
    });
    let total = batch.commit();
    assert_eq!(total, HandleManyEventsResult { items_added: 2, items_updated: 7 });
    assert_eq!(state.items.len(), 1);
    assert_eq!(state.meta.next_internal_id, 1);
}

#[test]
fn checked_commit_takes_effect_if_ids_differ() {
    let mut state = with_events(&["$a"]);
    let end = TimelineNewItemPosition::End { origin: RemoteEventOrigin::Sync };
    let mut batch = state.add_remote_events_at(1, end).unwrap();
    let item = batch.txn.meta.new_timeline_item(event("$b"));
    batch.txn.items.push_back(item);
    let total = batch.checked_commit().ok();
    assert_eq!(total, Some(HandleManyEventsResult { items_added: 0, items_updated: 0 }));
    assert_eq!(state.items.len(), 2);
}

#[test]
fn checked_commit_gives_the_batch_back_if_ids_are_shared() {
    let mut state = with_events(&["$a"]);
    let end = TimelineNewItemPosition::End { origin: RemoteEventOrigin::Sync };
    let mut batch = state.add_remote_events_at(1, end).unwrap();
    let item: Arc<TimelineItem> = Arc::clone(&batch.txn.items[0]);
    batch.txn.items.push_back(item);
    match batch.checked_commit() {
        Ok(_) => panic!("identifiers are shared"),
        Err((batch, ids)) => {
            assert_eq!(ids.len(), 1);
            assert_eq!(ids[0].0, "0");
            batch.txn.discard();
        },
    }
    assert_eq!(state.items.len(), 1);
}

#[test]
fn retried_event_has_the_actions_of_the_rules() {
    let kind = || RemoteEventKind::<u8, u16>::PlainText {
        event: RawEvent { json: "1".to_owned() },
    };
    let event = retried_event(kind(), Some(vec![PushAction::Notify, PushAction::Highlight(true)]));
    assert!(matches!(event.kind, RemoteEventKind::PlainText { .. }));
    assert_eq!(event.push_actions.len(), 2);
    assert!(event.push_actions[1].is_highlight());
    assert!(retried_event(kind(), None).push_actions.is_empty());
}

#[test]
fn results_start_at_zero() {
    assert_eq!(
        HandleManyEventsResult::default(),
        HandleManyEventsResult { items_added: 0, items_updated: 0 }
    );
    assert_eq!(
        HandleEventResult::default(),
        HandleEventResult { item_added: false, item_removed: false, items_updated: 0 }
    );
}

#[test]
fn retried_items_are_found_as_others_go() {
    let mut state = with_events(&["$a", "$b", "$c", "$d", "$e"]);
    let mut txn = state.transaction();
    let mut retry = DecryptionRetry::new(vec![0, 2, 3, 4]);
    let removed =
        HandleEventResult { item_added: false, item_removed: true, items_updated: 0 };
    let updated =
        HandleEventResult { item_added: false, item_removed: false, items_updated: 1 };

    let (index, item) = retry.next_item(&txn).unwrap();
    assert_eq!(index, 0);
    assert!(item.as_event().unwrap().has_event_id(&"$a".to_owned()));
    txn.items.remove(index);
    retry.handled(removed);

    let (index, item) = retry.next_item(&txn).unwrap();
    assert_eq!(index, 1);
    assert!(item.as_event().unwrap().has_event_id(&"$c".to_owned()));
    retry.handled(updated);

    let (index, item) = retry.next_item(&txn).unwrap();
    assert_eq!(index, 2);
    assert!(item.as_event().unwrap().has_event_id(&"$d".to_owned()));
    txn.items.remove(index);
    retry.handled(removed);

    let (index, item) = retry.next_item(&txn).unwrap();
    assert_eq!(index, 2);
    assert!(item.as_event().unwrap().has_event_id(&"$e".to_owned()));

    assert!(retry.next_item(&txn).is_none());
}

#[test]
fn nothing_to_retry() {
    let mut retry = DecryptionRetry::new(vec![]);
    assert_eq!(retry.next_index(), None);
}
