//! Poll events that arrive before their poll.
use timeline_state::pending::{PendingPollEvents, PollState, ResponseData};

fn poll() -> PollState {
    PollState { response_data: vec![], end_event_timestamp: None }
}

fn strings(values: &[&str]) -> Vec<String> {
    values.iter().map(|value| value.to_string()).collect()
}

fn senders(poll: &PollState) -> Vec<&str> {
    poll.response_data.iter().map(|response| response.sender.as_str()).collect()
}

fn filled() -> PendingPollEvents {
    let mut pending = PendingPollEvents::default();
    let first = "$first".to_owned();
    let second = "$second".to_owned();
    pending.add_response(&first, &"@a:x.org".to_owned(), 1, &strings(&["yes"]));
    pending.add_response(&second, &"@b:x.org".to_owned(), 2, &strings(&["no"]));
    pending.add_response(&first, &"@c:x.org".to_owned(), 3, &strings(&["yes", "no"]));
    pending.mark_as_ended(&first, 10);
    pending
}

#[test]
fn responses_come_back_in_order() {
    let mut pending = filled();
    let mut state = poll();
    pending.apply_pending(&"$first".to_owned(), &mut state);
    assert_eq!(senders(&state), vec!["@a:x.org", "@c:x.org"]);
    assert_eq!(state.response_data[1].timestamp, 3);
    assert_eq!(state.response_data[1].answers, strings(&["yes", "no"]));
    assert_eq!(state.end_event_timestamp, Some(10));
}

#[test]
fn responses_are_appended_to_those_that_are_known() {
    let mut pending = filled();
    let mut state = poll();
    state.response_data.push(ResponseData {
        sender: "@z:x.org".to_owned(),
        timestamp: 0,
        answers: vec![],
    });
    state.end_event_timestamp = Some(4);
    pending.apply_pending(&"$second".to_owned(), &mut state);
    assert_eq!(senders(&state), vec!["@z:x.org", "@b:x.org"]);
    assert_eq!(state.end_event_timestamp, Some(4));
}

#[test]
fn responses_are_handed_over_once() {
    let mut pending = filled();
    pending.apply_pending(&"$first".to_owned(), &mut poll());
    let mut again = poll();
    pending.apply_pending(&"$first".to_owned(), &mut again);
    assert!(again.response_data.is_empty());
    assert_eq!(again.end_event_timestamp, None);
    let mut other = poll();
    pending.apply_pending(&"$second".to_owned(), &mut other);
    assert_eq!(senders(&other), vec!["@b:x.org"]);
}

#[test]
fn the_latest_end_counts() {
    let mut pending = filled();
    pending.mark_as_ended(&"$first".to_owned(), 20);
    let mut state = poll();
    pending.apply_pending(&"$first".to_owned(), &mut state);
    assert_eq!(state.end_event_timestamp, Some(20));
}

#[test]
fn cleared_polls_are_gone() {
    let mut pending = filled();
    pending.clear();
    let mut state = poll();
    pending.apply_pending(&"$first".to_owned(), &mut state);
    assert!(state.response_data.is_empty());
    assert_eq!(state.end_event_timestamp, None);
}

#[test]
fn clones_of_pending_polls_are_independent() {
    let mut pending = filled();
    let mut copy = pending.clone();
    pending.clear();
    let mut state = poll();
    copy.apply_pending(&"$first".to_owned(), &mut state);
    assert_eq!(senders(&state), vec!["@a:x.org", "@c:x.org"]);
    assert_eq!(state.end_event_timestamp, Some(10));
}
