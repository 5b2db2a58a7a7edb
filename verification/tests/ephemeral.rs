//! Read receipts among ephemeral events.
use timeline_state::ephemeral::{read_receipts_in, receipt_contents};
use timeline_state::event_context::TimelineFocusKind;
use timeline_state::raw_event::{EphemeralEvent, RawEvent};
use timeline_state::state::TimelineState;

const RECEIPT: &str = r#"{
    "type": "m.receipt",
    "content": { "$a:x.org": { "m.read": { "@alice:x.org": { "ts": 3 } } } }
}"#;
const TYPING: &str = r#"{ "type": "m.typing", "content": { "user_ids": [] } }"#;
const BROKEN: &str = r#"{ "type": "m.receipt", "content": 4 }"#;
const CONTENT: &str = r#"{"$a:x.org":{"m.read":{"@alice:x.org":{"ts":3}}}}"#;

fn raw(json: &str) -> RawEvent {
    RawEvent { json: json.to_owned() }
}

#[test]
fn receipts_are_picked_in_order() {
    let contents = receipt_contents(vec![
        Some(EphemeralEvent::Receipt("1".to_owned())),
        None,
        Some(EphemeralEvent::Other),
        Some(EphemeralEvent::Receipt("2".to_owned())),
    ]);
    assert_eq!(contents, vec!["1", "2"]);
    assert!(receipt_contents(vec![]).is_empty());
}

#[test]
fn receipts_are_read() {
    let contents =
        read_receipts_in(&vec![raw(TYPING), raw(RECEIPT), raw(BROKEN), raw("no json")]);
    assert_eq!(contents, vec![CONTENT]);
}

#[test]
fn receipts_of_two_batches() {
    let first = vec![raw(RECEIPT), raw(TYPING)];
    let second = vec![raw(RECEIPT)];
    let mut apart = read_receipts_in(&first);
    apart.extend(read_receipts_in(&second));
    let together = read_receipts_in(&vec![raw(RECEIPT), raw(TYPING), raw(RECEIPT)]);
    assert_eq!(apart, together);
}

#[test]
fn only_receipts_count() {
    let all = read_receipts_in(&vec![raw(TYPING), raw(RECEIPT), raw(BROKEN), raw(RECEIPT)]);
    let receipts = read_receipts_in(&vec![raw(RECEIPT), raw(RECEIPT)]);
    assert_eq!(all, receipts);
}

#[test]
fn ephemeral_events_open_a_transaction() {
    let mut state: TimelineState<()> = TimelineState::new(
        TimelineFocusKind::Live,
        "@me:x.org".to_owned(),
        "10".to_owned(),
        None,
        None,
        None,
    );
    assert!(state.handle_ephemeral_events(&vec![]).is_none());
    let (txn, contents) = state.handle_ephemeral_events(&vec![raw(RECEIPT)]).unwrap();
    assert_eq!(contents, vec![CONTENT]);
    txn.commit();
    let (_, contents) = state.handle_ephemeral_events(&vec![raw(TYPING)]).unwrap();
    assert!(contents.is_empty());
}
