//! How remote events are understood, recorded and compared.
use timeline_state::event_context::{
    any_highlight, should_add_event, Flow, HandleEventResult, HandleManyEventsResult, PushAction,
    RemoteEventKind, SyncTimelineEvent, TimelineEventContext, TimelineFocusKind, TimelineSettings,
};
use timeline_state::item::{EventTimelineItem, EventTimelineItemKind, RemoteEventOrigin};
use timeline_state::position::{
    RelativePosition, TimelineItemPosition, TimelineNewItemPosition,
};
use timeline_state::raw_event::{EventEnvelope, RawEvent};
use timeline_state::receipts::ReadReceipt;
use timeline_state::remote_event::{wanted_event_receipts, RecordedEvent, RemoteEventStep};
use timeline_state::remote_events::{event_already_exists, FullEventMeta};
use timeline_state::state::TimelineState;
use timeline_state::transaction::ReadReceiptWork;

const END: TimelineItemPosition =
    TimelineItemPosition::End { origin: RemoteEventOrigin::Sync };
const START: TimelineItemPosition =
    TimelineItemPosition::Start { origin: RemoteEventOrigin::Pagination };
const SETTINGS: TimelineSettings =
    TimelineSettings { track_read_receipts: true, add_failed_to_parse: false };

fn me() -> String {
    "@me:example.org".to_owned()
}

fn timeline(focus: TimelineFocusKind) -> TimelineState<()> {
    TimelineState::new(focus, me(), "10".to_owned(), None, None, None)
}

fn meta(id: &str, visible: bool) -> FullEventMeta {
    FullEventMeta {
        event_id: id.to_owned(),
        visible,
        sender: None,
        is_own_event: false,
        timestamp: None,
    }
}

fn envelope(id: &str, sender: &str) -> EventEnvelope {
    EventEnvelope {
        event_id: id.to_owned(),
        sender: sender.to_owned(),
        timestamp: 7,
        transaction_id: Some("t".to_owned()),
    }
}

fn known(state: &TimelineState<()>) -> Vec<(String, bool)> {
    state
        .meta
        .all_remote_events
        .iter()
        .map(|event| (event.event_id.clone(), event.visible))
        .collect()
}

fn ids(state: &TimelineState<()>) -> Vec<String> {
    known(state).into_iter().map(|(id, _)| id).collect()
}

fn raw(json: &str) -> RawEvent {
    RawEvent { json: json.to_owned() }
}

fn recorded(step: RemoteEventStep) -> RecordedEvent {
    match step {
        RemoteEventStep::Recorded(recorded) => recorded,
        other => panic!("not recorded: {other:?}"),
    }
}

const MESSAGE: &str = r#"{
    "type": "m.room.message",
    "event_id": "$message:example.org",
    "sender": "@alice:example.org",
    "origin_server_ts": 1234,
    "content": { "msgtype": "m.text", "body": "hello" },
    "unsigned": { "transaction_id": "txn1" }
}"#;

#[test]
fn message_is_understood() {
    let mut state = timeline(TimelineFocusKind::Live);
    let txn = state.transaction();
    match txn.handle_remote_event(&raw(MESSAGE)) {
        RemoteEventStep::Filter(envelope) => {
            assert_eq!(envelope.event_id, "$message:example.org");
            assert_eq!(envelope.sender, "@alice:example.org");
            assert_eq!(envelope.timestamp, 1234);
            assert_eq!(envelope.transaction_id.as_deref(), Some("txn1"));
        },
        other => panic!("not understood: {other:?}"),
    }
}

#[test]
fn broken_events_are_parsed_without_content() {
    let mut state = timeline(TimelineFocusKind::Live);
    let txn = state.transaction();
    let broken = r#"{
        "type": "m.room.message",
        "event_id": "$broken:example.org",
        "sender": "@alice:example.org",
        "origin_server_ts": 1234,
        "content": { "msgtype": 42 }
    }"#;
    for json in [broken, "{}", "no json"] {
        assert!(matches!(
            txn.handle_remote_event(&raw(json)),
            RemoteEventStep::ParseWithoutContent
        ));
    }
}

#[test]
fn understood_event_is_recorded_in_a_live_timeline() {
    let mut state = timeline(TimelineFocusKind::Live);
    let mut txn = state.transaction();
    let step = txn.remote_event_filtered(
        envelope("$a", "@alice:example.org"),
        true,
        &me(),
        END,
        &SETTINGS,
    );
    let event = recorded(step);
    assert_eq!(event.event_meta.event_id, "$a");
    assert_eq!(event.event_meta.sender.as_deref(), Some("@alice:example.org"));
    assert_eq!(event.event_meta.timestamp, Some(7));
    assert!(event.event_meta.visible);
    assert!(!event.event_meta.is_own_event);
    assert_eq!(event.receipts, ReadReceiptWork::LoadAndAddImplicit);
    assert_eq!(event.envelope.unwrap().event_id, "$a");
    txn.commit();
    assert_eq!(known(&state), vec![("$a".to_owned(), true)]);
}

#[test]
fn own_events_are_recognised() {
    let mut state = timeline(TimelineFocusKind::Live);
    let mut txn = state.transaction();
    let step = txn.remote_event_filtered(envelope("$a", &me()), true, &me(), END, &SETTINGS);
    assert!(recorded(step).event_meta.is_own_event);
}

#[test]
fn filtered_event_is_recorded_as_hidden() {
    let mut state = timeline(TimelineFocusKind::PinnedEvents);
    let mut txn = state.transaction();
    let step = txn.remote_event_filtered(envelope("$a", &me()), false, &me(), END, &SETTINGS);
    let event = recorded(step);
    assert!(!event.event_meta.visible);
    assert!(event.envelope.is_some());
    txn.commit();
    assert_eq!(known(&state), vec![("$a".to_owned(), false)]);
}

#[test]
fn duplicate_goes_no_further() {
    let mut state = timeline(TimelineFocusKind::Live);
    let mut txn = state.transaction();
    txn.remote_event_filtered(envelope("$a", &me()), true, &me(), END, &SETTINGS);
    txn.remote_event_filtered(envelope("$b", &me()), true, &me(), END, &SETTINGS);
    let step = txn.remote_event_filtered(envelope("$a", &me()), true, &me(), END, &SETTINGS);
    let event = recorded(step);
    assert!(event.envelope.is_none());
    assert_eq!(event.receipts, ReadReceiptWork::LoadAndAddImplicit);
    txn.commit();
    assert_eq!(ids(&state), vec!["$b", "$a"]);
}

#[test]
fn pinned_timeline_asks_whether_a_synced_event_is_pinned() {
    let mut state = timeline(TimelineFocusKind::PinnedEvents);
    let mut txn = state.transaction();
    let step = txn.remote_event_filtered(envelope("$a", &me()), true, &me(), END, &SETTINGS);
    let pinned = match step {
        RemoteEventStep::CheckPinned(envelope) => envelope,
        other => panic!("not asked: {other:?}"),
    };
    assert_eq!(pinned.event_id, "$a");
    assert!(txn.meta.all_remote_events.is_empty());
    let step = txn.remote_event_decided(pinned, false, &me(), END, &SETTINGS);
    assert!(!recorded(step).event_meta.visible);
    let step =
        txn.remote_event_filtered(envelope("$b", &me()), true, &me(), START, &SETTINGS);
    assert!(recorded(step).event_meta.visible);
    txn.commit();
    assert_eq!(known(&state), vec![("$b".to_owned(), true), ("$a".to_owned(), false)]);
}

#[test]
fn event_timeline_takes_nothing_from_a_sync() {
    let mut state = timeline(TimelineFocusKind::Event);
    let mut txn = state.transaction();
    let step = txn.remote_event_filtered(envelope("$a", &me()), true, &me(), END, &SETTINGS);
    assert!(!recorded(step).event_meta.visible);
    let step =
        txn.remote_event_filtered(envelope("$b", &me()), true, &me(), START, &SETTINGS);
    assert!(recorded(step).event_meta.visible);
}

#[test]
fn decisions_for_every_origin_and_focus() {
    let live = TimelineFocusKind::Live;
    let pinned = TimelineFocusKind::PinnedEvents;
    let single = TimelineFocusKind::Event;
    let asked_for = [RemoteEventOrigin::Cache, RemoteEventOrigin::Pagination];
    let received = [RemoteEventOrigin::Sync, RemoteEventOrigin::Unknown];
    for origin in asked_for {
        for focus in [live, pinned, single] {
            assert_eq!(should_add_event(false, origin, focus), Some(false));
            assert_eq!(should_add_event(true, origin, focus), Some(true));
        }
    }
    for origin in received {
        for focus in [live, pinned, single] {
            assert_eq!(should_add_event(false, origin, focus), Some(false));
        }
        assert_eq!(should_add_event(true, origin, live), Some(true));
        assert_eq!(should_add_event(true, origin, single), Some(false));
        assert_eq!(should_add_event(true, origin, pinned), None);
    }
}

#[test]
fn origin_of_an_update_is_that_of_its_item() {
    let mut state = timeline(TimelineFocusKind::Live);
    let mut event = EventTimelineItem {
        sender: me(),
        timestamp: 1,
        is_room_encrypted: None,
        content: "{}".to_owned(),
        kind: EventTimelineItemKind::Remote {
            event_id: "$a".to_owned(),
            origin: RemoteEventOrigin::Cache,
        },
    };
    let item = state.meta.new_timeline_item(event.clone());
    state.items.push_back(item);
    event.kind =
        EventTimelineItemKind::Local { transaction_id: "t".to_owned(), sent_as: None };
    let item = state.meta.new_timeline_item(event);
    state.items.push_back(item);
    let txn = state.transaction();
    let update =
        |index: usize| TimelineItemPosition::UpdateDecrypted { timeline_item_index: index };
    assert_eq!(txn.event_origin(update(0)), RemoteEventOrigin::Cache);
    assert_eq!(txn.event_origin(update(1)), RemoteEventOrigin::Unknown);
    assert_eq!(txn.event_origin(update(2)), RemoteEventOrigin::Unknown);
    assert_eq!(txn.event_origin(END), RemoteEventOrigin::Sync);
    assert_eq!(txn.event_origin(START), RemoteEventOrigin::Pagination);
}

#[test]
fn failed_event_is_shown_if_the_settings_say_so() {
    let mut state = timeline(TimelineFocusKind::Event);
    let show = TimelineSettings { track_read_receipts: false, add_failed_to_parse: true };
    let mut txn = state.transaction();
    let step = txn.remote_event_without_content(
        &raw("{}"),
        Some(envelope("$a", &me())),
        &me(),
        END,
        &show,
    );
    let event = recorded(step);
    assert!(event.event_meta.visible);
    assert!(event.envelope.is_some());
    assert_eq!(event.receipts, ReadReceiptWork::Nothing);
}

#[test]
fn failed_event_is_hidden_otherwise() {
    let mut state = timeline(TimelineFocusKind::Live);
    let mut txn = state.transaction();
    let step = txn.remote_event_without_content(
        &raw("{}"),
        Some(envelope("$a", &me())),
        &me(),
        END,
        &SETTINGS,
    );
    let event = recorded(step);
    assert!(!event.event_meta.visible);
    assert!(event.event_meta.is_own_event);
    assert!(event.envelope.is_none());
    txn.commit();
    assert_eq!(known(&state), vec![("$a".to_owned(), false)]);
}

#[test]
fn fields_are_salvaged_from_an_unreadable_event() {
    let mut state = timeline(TimelineFocusKind::Live);
    let mut txn = state.transaction();
    let json = r#"{
        "event_id": "$odd:example.org",
        "sender": "@me:example.org",
        "origin_server_ts": 99
    }"#;
    let step =
        txn.remote_event_without_content(&raw(json), None, &me(), END, &SETTINGS);
    let event = recorded(step);
    assert_eq!(event.event_meta.event_id, "$odd:example.org");
    assert_eq!(event.event_meta.sender.as_deref(), Some("@me:example.org"));
    assert!(event.event_meta.is_own_event);
    assert_eq!(event.event_meta.timestamp, Some(99));
    assert!(event.envelope.is_none());
    txn.commit();
    assert_eq!(known(&state), vec![("$odd:example.org".to_owned(), false)]);
}

#[test]
fn bad_fields_are_left_out() {
    let mut state = timeline(TimelineFocusKind::Live);
    let mut txn = state.transaction();
    let json = r#"{ "event_id": "$odd", "sender": "nobody", "origin_server_ts": "late" }"#;
    let step =
        txn.remote_event_without_content(&raw(json), None, &me(), END, &SETTINGS);
    let event = recorded(step);
    assert_eq!(event.event_meta.event_id, "$odd");
    assert_eq!(event.event_meta.sender, None);
    assert!(!event.event_meta.is_own_event);
    assert_eq!(event.event_meta.timestamp, None);
}

#[test]
fn event_without_an_id_is_ignored() {
    let mut state = timeline(TimelineFocusKind::Live);
    let mut txn = state.transaction();
    for json in
        [r#"{ "event_id": "odd" }"#, r#"{ "event_id": 3 }"#, "{}", "[]", "no json"]
    {
        let step =
            txn.remote_event_without_content(&raw(json), None, &me(), END, &SETTINGS);
        assert!(matches!(step, RemoteEventStep::Ignored));
    }
    assert!(txn.meta.all_remote_events.is_empty());
}

#[test]
fn prepended_events_end_up_in_order() {
    let mut state = timeline(TimelineFocusKind::Live);
    let mut txn = state.transaction();
    txn.add_or_update_remote_event(&meta("$old", true), END, &SETTINGS);
    for id in ["$c", "$b", "$a"] {
        let (added, _) =
            txn.add_or_update_remote_event(&meta(id, true), START, &SETTINGS);
        assert!(added);
    }
    txn.commit();
    assert_eq!(ids(&state), vec!["$a", "$b", "$c", "$old"]);
}

#[test]
fn appended_events_end_up_in_order() {
    let mut state = timeline(TimelineFocusKind::Live);
    let mut txn = state.transaction();
    for id in ["$a", "$b", "$c"] {
        txn.add_or_update_remote_event(&meta(id, true), END, &SETTINGS);
    }
    txn.commit();
    assert_eq!(ids(&state), vec!["$a", "$b", "$c"]);
}

#[test]
fn two_batches_are_one() {
    let end = TimelineNewItemPosition::End { origin: RemoteEventOrigin::Sync };
    let add = |state: &mut TimelineState<()>, names: &[&str]| -> HandleManyEventsResult {
        let mut batch = state.add_remote_events_at(names.len(), end).unwrap();
        for name in names {
            let (added, _) =
                batch.txn.add_or_update_remote_event(&meta(name, true), END, &SETTINGS);
            batch.event_handled(HandleEventResult {
                item_added: added,
                item_removed: false,
                items_updated: 1,
            });
        }
        batch.commit()
    };
    let mut apart = timeline(TimelineFocusKind::Live);
    let first = add(&mut apart, &["$a", "$b"]);
    let second = add(&mut apart, &["$a", "$c"]);
    let mut together = timeline(TimelineFocusKind::Live);
    let total = add(&mut together, &["$a", "$b", "$a", "$c"]);
    assert_eq!(ids(&apart), vec!["$b", "$a", "$c"]);
    assert_eq!(ids(&together), ids(&apart));
    assert_eq!(total.items_added, first.items_added + second.items_added);
    assert_eq!(total.items_updated, first.items_updated + second.items_updated);
    assert_eq!(total, HandleManyEventsResult { items_added: 3, items_updated: 4 });
}

#[test]
fn replacement_forgets_the_remote_events() {
    let end = TimelineNewItemPosition::End { origin: RemoteEventOrigin::Sync };
    let mut state = timeline(TimelineFocusKind::Live);
    let mut txn = state.transaction();
    for id in ["$a", "$b"] {
        txn.add_or_update_remote_event(&meta(id, true), END, &SETTINGS);
    }
    txn.commit();
    let mut batch = state.replace_with_remote_events(end);
    for id in ["$b", "$c"] {
        let (added, _) =
            batch.txn.add_or_update_remote_event(&meta(id, false), END, &SETTINGS);
        assert!(added);
    }
    batch.commit();
    assert_eq!(known(&state), vec![("$b".to_owned(), false), ("$c".to_owned(), false)]);
    let total = state.replace_with_remote_events(end).commit();
    assert_eq!(total, HandleManyEventsResult::default());
    assert!(known(&state).is_empty());
}

#[test]
fn known_event_moves_to_its_new_place() {
    let mut state = timeline(TimelineFocusKind::Live);
    let mut txn = state.transaction();
    for id in ["$a", "$b", "$c"] {
        txn.add_or_update_remote_event(&meta(id, true), END, &SETTINGS);
    }
    let result = txn.add_or_update_remote_event(&meta("$b", false), START, &SETTINGS);
    assert_eq!(result, (false, ReadReceiptWork::LoadAndAddImplicit));
    let result = txn.add_or_update_remote_event(&meta("$a", true), END, &SETTINGS);
    assert_eq!(result, (false, ReadReceiptWork::LoadAndAddImplicit));
    txn.commit();
    assert_eq!(
        known(&state),
        vec![
            ("$b".to_owned(), false),
            ("$c".to_owned(), true),
            ("$a".to_owned(), true)
        ]
    );
}

#[test]
fn update_changes_visibility_in_place() {
    let mut state = timeline(TimelineFocusKind::Live);
    let update = TimelineItemPosition::UpdateDecrypted { timeline_item_index: 0 };
    let mut txn = state.transaction();
    for id in ["$a", "$b"] {
        txn.add_or_update_remote_event(&meta(id, true), END, &SETTINGS);
    }
    let result = txn.add_or_update_remote_event(&meta("$a", true), update, &SETTINGS);
    assert_eq!(result, (true, ReadReceiptWork::Nothing));
    let result = txn.add_or_update_remote_event(&meta("$a", false), update, &SETTINGS);
    assert_eq!(result, (true, ReadReceiptWork::UpdatePrevious));
    let quiet = TimelineSettings { track_read_receipts: false, add_failed_to_parse: false };
    let result = txn.add_or_update_remote_event(&meta("$b", false), update, &quiet);
    assert_eq!(result, (true, ReadReceiptWork::Nothing));
    let result = txn.add_or_update_remote_event(&meta("$gone", true), update, &SETTINGS);
    assert_eq!(result, (true, ReadReceiptWork::Nothing));
    txn.commit();
    assert_eq!(known(&state), vec![("$a".to_owned(), false), ("$b".to_owned(), false)]);
}

#[test]
fn existing_events_are_found() {
    let mut state = timeline(TimelineFocusKind::Live);
    let mut txn = state.transaction();
    for id in ["$a", "$b"] {
        txn.add_or_update_remote_event(&meta(id, true), END, &SETTINGS);
    }
    let events = &txn.meta.all_remote_events;
    assert_eq!(event_already_exists(&"$b".to_owned(), events), Some(1));
    assert_eq!(event_already_exists(&"$c".to_owned(), events), None);
}

#[test]
fn positions_of_events_are_compared() {
    let mut state = timeline(TimelineFocusKind::Live);
    let mut txn = state.transaction();
    for id in ["$a", "$b"] {
        txn.add_or_update_remote_event(&meta(id, true), END, &SETTINGS);
    }
    txn.commit();
    let compare = |a: &str, b: &str| {
        state.meta.compare_events_positions(&a.to_owned(), &b.to_owned())
    };
    assert_eq!(compare("$a", "$b"), Some(RelativePosition::After));
    assert_eq!(compare("$b", "$a"), Some(RelativePosition::Before));
    assert_eq!(compare("$a", "$a"), Some(RelativePosition::Same));
    assert_eq!(compare("$x", "$x"), None);
    assert_eq!(compare("$a", "$x"), Some(RelativePosition::Before));
    assert_eq!(compare("$x", "$a"), Some(RelativePosition::After));
    assert_eq!(compare("$x", "$y"), None);
}

#[test]
fn nothing_is_compared_in_an_empty_timeline() {
    let state = timeline(TimelineFocusKind::Live);
    let compare = |a: &str, b: &str| {
        state.meta.compare_events_positions(&a.to_owned(), &b.to_owned())
    };
    assert_eq!(compare("$a:x", "$a:x"), None);
    assert_eq!(compare("$a:x", "$b:x"), None);
}

#[test]
fn new_item_positions_are_item_positions() {
    let origin = RemoteEventOrigin::Cache;
    assert_eq!(
        TimelineItemPosition::from(TimelineNewItemPosition::Start { origin }),
        TimelineItemPosition::Start { origin }
    );
    assert_eq!(
        TimelineItemPosition::from(TimelineNewItemPosition::End { origin }),
        TimelineItemPosition::End { origin }
    );
}

#[test]
fn remote_events_come_apart() {
    let decrypted: SyncTimelineEvent<u8, u16> = SyncTimelineEvent {
        kind: RemoteEventKind::Decrypted { event: raw("1"), encryption_info: 5 },
        push_actions: vec![PushAction::Notify, PushAction::Highlight(true)],
    };
    let parts = decrypted.into_parts();
    assert_eq!(parts.raw.json, "1");
    assert_eq!(parts.encryption_info, Some(5));
    assert_eq!(parts.utd_info, None);
    assert!(parts.is_highlighted);

    let failed: SyncTimelineEvent<u8, u16> = SyncTimelineEvent {
        kind: RemoteEventKind::UnableToDecrypt { event: raw("2"), utd_info: 6 },
        push_actions: vec![PushAction::Highlight(false)],
    };
    let parts = failed.into_parts();
    assert_eq!(parts.raw.json, "2");
    assert_eq!(parts.encryption_info, None);
    assert_eq!(parts.utd_info, Some(6));
    assert!(!parts.is_highlighted);

    let plain: SyncTimelineEvent<u8, u16> = SyncTimelineEvent {
        kind: RemoteEventKind::PlainText { event: raw("3") },
        push_actions: vec![],
    };
    let parts = plain.into_parts();
    assert_eq!(parts.raw.json, "3");
    assert_eq!(parts.encryption_info, None);
    assert_eq!(parts.utd_info, None);
    assert!(!parts.is_highlighted);
}

#[test]
fn any_action_may_highlight() {
    assert!(!any_highlight(&vec![]));
    assert!(!any_highlight(&vec![
        PushAction::Notify,
        PushAction::Sound("default".to_owned()),
        PushAction::Other("{}".to_owned()),
        PushAction::Highlight(false)
    ]));
    assert!(any_highlight(&vec![PushAction::Notify, PushAction::Highlight(true)]));
}

fn receipt() -> ReadReceipt {
    ReadReceipt {
        event_id: "$a".to_owned(),
        receipt_type: "m.read".to_owned(),
        user_id: "@alice:example.org".to_owned(),
        timestamp: None,
        thread: None,
    }
}

#[test]
fn receipts_are_wanted_for_visible_events() {
    let quiet = TimelineSettings { track_read_receipts: false, add_failed_to_parse: false };
    assert_eq!(wanted_event_receipts(true, END, &SETTINGS), Some(true));
    assert_eq!(wanted_event_receipts(true, START, &SETTINGS), Some(false));
    assert_eq!(wanted_event_receipts(false, END, &SETTINGS), None);
    assert_eq!(wanted_event_receipts(true, END, &quiet), None);
}

#[test]
fn context_of_a_remote_event() {
    let parts = SyncTimelineEvent::<u8, u16> {
        kind: RemoteEventKind::Decrypted { event: raw("1"), encryption_info: 5 },
        push_actions: vec![PushAction::Highlight(true)],
    }
    .into_parts();
    let context: TimelineEventContext<u32, u64, u8> = TimelineEventContext::remote(
        envelope("$a", "@alice:example.org"),
        meta("$a", true),
        parts,
        Some(8),
        vec![receipt()],
        END,
        &SETTINGS,
    );
    assert_eq!(context.sender, "@alice:example.org");
    assert_eq!(context.sender_profile, Some(8));
    assert_eq!(context.timestamp, 7);
    assert!(!context.is_own_event);
    assert_eq!(context.read_receipts.len(), 1);
    assert!(context.is_highlighted);
    assert!(context.should_add_new_items);
    match context.flow {
        Flow::Remote { event_id, raw_event, encryption_info, txn_id, position } => {
            assert_eq!(event_id, "$a");
            assert_eq!(raw_event.json, "1");
            assert_eq!(encryption_info, Some(5));
            assert_eq!(txn_id.as_deref(), Some("t"));
            assert_eq!(position, END);
        },
        Flow::Local { .. } => panic!("not local"),
    }
}

#[test]
fn context_of_a_hidden_event_has_no_receipts() {
    let parts = SyncTimelineEvent::<u8, u16> {
        kind: RemoteEventKind::PlainText { event: raw("1") },
        push_actions: vec![],
    }
    .into_parts();
    let context: TimelineEventContext<u32, u64, u8> = TimelineEventContext::remote(
        envelope("$a", "@alice:example.org"),
        meta("$a", false),
        parts,
        None,
        vec![receipt()],
        END,
        &SETTINGS,
    );
    assert!(context.read_receipts.is_empty());
    assert!(!context.should_add_new_items);
    assert!(!context.is_highlighted);
}

#[test]
fn context_of_a_local_echo() {
    let context: TimelineEventContext<u32, u64, u8> =
        TimelineEventContext::local_echo(me(), Some(8), 1000, true, "t".to_owned(), Some(9));
    assert_eq!(context.sender, "@me:example.org");
    assert_eq!(context.sender_profile, Some(8));
    assert_eq!(context.timestamp, 1000);
    assert!(context.is_own_event);
    assert!(context.read_receipts.is_empty());
    assert!(!context.is_highlighted);
    assert!(context.should_add_new_items);
    match context.flow {
        Flow::Local { txn_id, send_handle } => {
            assert_eq!(txn_id, "t");
            assert_eq!(send_handle, Some(9));
        },
        Flow::Remote { .. } => panic!("not remote"),
    }
}
