//! Events that arrived before the event they are about.
use vstd::prelude::*;

use crate::id_map::IdMap;

verus! {

/// One user's response to a poll.
#[derive(Debug)]
pub struct ResponseData {
    /// The user who responded.
    pub sender: String,
    /// When they responded, in milliseconds since the Unix epoch.
    pub timestamp: u64,
    /// The ids of the answers they chose.
    pub answers: Vec<String>,
}

/// A response as values to reason about.
pub struct ResponseDataView {
    pub sender: Seq<char>,
    pub timestamp: u64,
    pub answers: Seq<Seq<char>>,
}

/// The texts of a list of strings.
pub open spec fn texts(strings: Seq<String>) -> Seq<Seq<char>> {
    strings.map_values(|s: String| s@)
}

impl View for ResponseData {
    type V = ResponseDataView;

    open spec fn view(&self) -> ResponseDataView {
        ResponseDataView {
            sender: self.sender@,
            timestamp: self.timestamp,
            answers: texts(self.answers@),
        }
    }
}

/// Copies a list of strings.
pub(crate) fn copy_strings(strings: &Vec<String>) -> (copy: Vec<String>)
    ensures
        texts(copy@) == texts(strings@),
{
    let copy = strings.clone();
    assert(texts(copy@) == texts(strings@));
    copy
}

impl Clone for ResponseData {
    fn clone(&self) -> (response: Self)
        ensures
            response@ == self@,
    {
        ResponseData {
            sender: self.sender.clone(),
            timestamp: self.timestamp,
            answers: copy_strings(&self.answers),
        }
    }
}

/// A list of responses as values to reason about.
pub open spec fn responses_view(responses: Seq<ResponseData>) -> Seq<ResponseDataView> {
    responses.map_values(|response: ResponseData| response@)
}

/// What is known of a poll beside its question.
#[derive(Debug)]
pub struct PollState {
    /// The responses, in the order in which they arrived.
    pub response_data: Vec<ResponseData>,
    /// When the poll ended, if it has.
    pub end_event_timestamp: Option<u64>,
}

/// A poll as values to reason about.
pub struct PollStateView {
    pub response_data: Seq<ResponseDataView>,
    pub end_event_timestamp: Option<u64>,
}

impl View for PollState {
    type V = PollStateView;

    open spec fn view(&self) -> PollStateView {
        PollStateView {
            response_data: responses_view(self.response_data@),
            end_event_timestamp: self.end_event_timestamp,
        }
    }
}

/// Cache holding poll response and end events handled before their poll start event has been
/// handled.
#[derive(Debug)]
pub struct PendingPollEvents {
    /// Responses to a poll (identified by the poll's start event id).
    responses: IdMap<Vec<ResponseData>>,
    /// Mapping of a poll (identified by its start event's id) to its end date.
    end_dates: IdMap<u64>,
}

/// The pending poll events as values to reason about.
pub struct PendingPollEventsView {
    /// The responses to each poll, in the order in which they arrived.
    pub responses: Map<Seq<char>, Seq<ResponseDataView>>,
    /// When each poll ended.
    pub end_dates: Map<Seq<char>, u64>,
}

impl PendingPollEventsView {
    /// The responses that wait for the given poll.
    pub open spec fn responses_to(self, start_event_id: Seq<char>) -> Seq<ResponseDataView> {
        if self.responses.contains_key(start_event_id) {
            self.responses[start_event_id]
        } else {
            Seq::empty()
        }
    }

    /// When the given poll ended, if an end waits for it.
    pub open spec fn end_of(self, start_event_id: Seq<char>) -> Option<u64> {
        if self.end_dates.contains_key(start_event_id) {
            Some(self.end_dates[start_event_id])
        } else {
            None
        }
    }

    /// Nothing waits for any poll.
    pub open spec fn empty() -> Self {
        PendingPollEventsView { responses: Map::empty(), end_dates: Map::empty() }
    }

    /// One more response waits for the given poll.
    pub open spec fn with_response(
        self,
        start_event_id: Seq<char>,
        response: ResponseDataView,
    ) -> Self {
        PendingPollEventsView {
            responses: self.responses.insert(
                start_event_id,
                self.responses_to(start_event_id).push(response),
            ),
            ..self
        }
    }

    /// The end of the given poll waits for it, in place of another one.
    pub open spec fn with_end(self, start_event_id: Seq<char>, timestamp: u64) -> Self {
        PendingPollEventsView { end_dates: self.end_dates.insert(start_event_id, timestamp), ..self }
    }

    /// A poll with all that waits for it.
    pub open spec fn applied_to(self, start_event_id: Seq<char>, poll: PollStateView) -> PollStateView {
        PollStateView {
            response_data: poll.response_data + self.responses_to(start_event_id),
            end_event_timestamp: match self.end_of(start_event_id) {
                Some(end) => Some(end),
                None => poll.end_event_timestamp,
            },
        }
    }

    /// Nothing waits for the given poll.
    pub open spec fn without_poll(self, start_event_id: Seq<char>) -> Self {
        PendingPollEventsView {
            responses: self.responses.remove(start_event_id),
            end_dates: self.end_dates.remove(start_event_id),
        }
    }
}

impl View for PendingPollEvents {
    type V = PendingPollEventsView;

    closed spec fn view(&self) -> PendingPollEventsView {
        PendingPollEventsView {
            responses: self.responses@.map_values(
                |responses: Vec<ResponseData>| responses_view(responses@),
            ),
            end_dates: self.end_dates@,
        }
    }
}

impl Clone for PendingPollEvents {
    fn clone(&self) -> (copy: Self)
        ensures
            copy@ == self@,
    {
        let copy = PendingPollEvents {
            responses: self.responses.clone(),
            end_dates: self.end_dates.clone(),
        };
        proof {
            assert forall|id: Seq<char>| #[trigger]
                copy.responses@.contains_key(id) implies responses_view(copy.responses@[id]@)
                == responses_view(self.responses@[id]@) by {
                let original = self.responses@[id];
                let cloned_list = copy.responses@[id];
                assert(cloned(original, cloned_list));
                assert forall|i: int| 0 <= i < original@.len() implies (
                #[trigger] cloned_list@[i])@ == original@[i]@ by {
                    assert(cloned(original@[i], cloned_list@[i]));
                }
                assert(responses_view(cloned_list@) == responses_view(original@));
            }
            assert(copy@.responses == self@.responses);
            assert forall|id: Seq<char>| #[trigger]
                copy.end_dates@.contains_key(id) implies copy.end_dates@[id]
                == self.end_dates@[id] by {
                assert(cloned(self.end_dates@[id], copy.end_dates@[id]));
            }
            assert(copy@.end_dates == self@.end_dates);
        }
        copy
    }
}

impl Default for PendingPollEvents {
    fn default() -> (pending: Self)
        ensures
            pending@ == PendingPollEventsView::empty(),
    {
        let pending = PendingPollEvents { responses: IdMap::new(), end_dates: IdMap::new() };
        assert(pending@.responses == PendingPollEventsView::empty().responses);
        pending
    }
}

impl PendingPollEvents {
    /// Keeps a response until the poll's start event is handled.
    pub fn add_response(
        &mut self,
        start_event_id: &String,
        sender: &String,
        timestamp: u64,
        answers: &Vec<String>,
    )
        ensures
            final(self)@ == old(self)@.with_response(
                start_event_id@,
                ResponseDataView { sender: sender@, timestamp, answers: texts(answers@) },
            ),
    {
        let mut responses: Vec<ResponseData> = match self.responses.remove(start_event_id) {
            Some(responses) => responses,
            None => Vec::new(),
        };
        assert(responses_view(responses@) == old(self)@.responses_to(start_event_id@));
        let response = ResponseData {
            sender: sender.clone(),
            timestamp,
            answers: copy_strings(answers),
        };
        let ghost earlier = responses@;
        responses.push(response);
        assert(responses_view(responses@) == responses_view(earlier).push(response@));
        self.responses.insert(start_event_id.clone(), responses);
        assert(self@.responses == old(self)@.responses.insert(
            start_event_id@,
            responses_view(responses@),
        ));
    }

    /// Drops everything that is kept.
    pub fn clear(&mut self)
        ensures
            final(self)@ == PendingPollEventsView::empty(),
    {
        self.end_dates.clear();
        self.responses.clear();
        assert(self@.responses == PendingPollEventsView::empty().responses);
    }

    /// Mark a poll as finished by inserting its poll date.
    pub fn mark_as_ended(&mut self, start_event_id: &String, timestamp: u64)
        ensures
            final(self)@ == old(self)@.with_end(start_event_id@, timestamp),
    {
        self.end_dates.insert(start_event_id.clone(), timestamp);
    }

    /// Dumps all response and end events present in the cache that belong to the given
    /// start_event_id into the given poll_state.
    pub fn apply_pending(&mut self, start_event_id: &String, poll_state: &mut PollState)
        ensures
            final(self)@ == old(self)@.without_poll(start_event_id@),
            final(poll_state)@ == old(self)@.applied_to(start_event_id@, old(poll_state)@),
    {
        let ghost known = poll_state.response_data@;
        match self.responses.remove(start_event_id) {
            Some(responses) => {
                let mut pending: Vec<ResponseData> = responses;
                let ghost added = pending@;
                poll_state.response_data.append(&mut pending);
                assert(responses_view(poll_state.response_data@) == responses_view(known)
                    + responses_view(added));
            },
            None => {
                assert(responses_view(known) == responses_view(known)
                    + Seq::<ResponseDataView>::empty());
            },
        }
        if let Some(pending_end) = self.end_dates.remove(start_event_id) {
            poll_state.end_event_timestamp = Some(pending_end);
        }
        assert(self@.responses == old(self)@.responses.remove(start_event_id@));
    }
}

/// What was kept for a poll is all there when it is asked for, in the order in which it arrived
/// and with the latest end, and what was kept for other polls is not touched.
pub proof fn law_pending_poll_events_are_kept(
    pending: PendingPollEventsView,
    poll: Seq<char>,
    other: Seq<char>,
    response: ResponseDataView,
    end: u64,
)
    ensures
        pending.with_response(poll, response).responses_to(poll) == pending.responses_to(poll).push(
            response,
        ),
        pending.with_response(poll, response).end_of(poll) == pending.end_of(poll),
        pending.with_end(poll, end).end_of(poll) == Some(end),
        pending.with_end(poll, end).responses_to(poll) == pending.responses_to(poll),
        other != poll ==> {
            &&& pending.with_response(poll, response).responses_to(other) == pending.responses_to(
                other,
            )
            &&& pending.with_response(poll, response).end_of(other) == pending.end_of(other)
            &&& pending.with_end(poll, end).responses_to(other) == pending.responses_to(other)
            &&& pending.with_end(poll, end).end_of(other) == pending.end_of(other)
        },
{
}

/// What was kept for a poll is handed over once: after that nothing waits for it, and what was
/// kept for other polls still does.
pub proof fn law_pending_poll_events_are_handed_over_once(
    pending: PendingPollEventsView,
    poll: Seq<char>,
    other: Seq<char>,
)
    ensures
        pending.without_poll(poll).responses_to(poll) == Seq::<ResponseDataView>::empty(),
        pending.without_poll(poll).end_of(poll) is None,
        pending.without_poll(poll).without_poll(poll) == pending.without_poll(poll),
        other != poll ==> {
            &&& pending.without_poll(poll).responses_to(other) == pending.responses_to(other)
            &&& pending.without_poll(poll).end_of(other) == pending.end_of(other)
        },
{
    let once = pending.without_poll(poll);
    let twice = once.without_poll(poll);
    assert(twice.responses == once.responses);
    assert(twice.end_dates == once.end_dates);
}

/// The new content of an event that was edited.
pub struct Replacement {
    /// The id of the event being replaced.
    pub event_id: String,
    /// The new content, as JSON text.
    pub new_content: String,
}

impl Clone for Replacement {
    fn clone(&self) -> (copy: Self)
        ensures
            copy == *self,
    {
        Replacement { event_id: self.event_id.clone(), new_content: self.new_content.clone() }
    }
}

/// What kind of event is edited.
pub enum PendingEditKind {
    RoomMessage(Replacement),
    Poll(Replacement),
}

impl Clone for PendingEditKind {
    fn clone(&self) -> (copy: Self)
        ensures
            copy == *self,
    {
        match self {
            PendingEditKind::RoomMessage(replacement) => PendingEditKind::RoomMessage(
                replacement.clone(),
            ),
            PendingEditKind::Poll(replacement) => PendingEditKind::Poll(replacement.clone()),
        }
    }
}

/// An edit that arrived before the event it edits.
pub struct PendingEdit {
    pub kind: PendingEditKind,
    /// The event that holds the edit, as JSON text.
    pub event_json: String,
}

impl Clone for PendingEdit {
    fn clone(&self) -> (copy: Self)
        ensures
            copy == *self,
    {
        PendingEdit { kind: self.kind.clone(), event_json: self.event_json.clone() }
    }
}

impl PendingEdit {
    /// The id of the event that is edited.
    pub fn edited_event(&self) -> (event_id: &String)
        ensures
            *event_id == (match self.kind {
                PendingEditKind::RoomMessage(replacement) => replacement.event_id,
                PendingEditKind::Poll(replacement) => replacement.event_id,
            }),
    {
        match &self.kind {
            PendingEditKind::RoomMessage(replacement) => &replacement.event_id,
            PendingEditKind::Poll(replacement) => &replacement.event_id,
        }
    }

    /// A text for logs that tells the kind of the edit and keeps its content to itself.
    pub fn debug_string(&self) -> (text: String)
        ensures
            text@ == (match self.kind {
                PendingEditKind::RoomMessage(_) => "RoomMessage { .. }"@,
                PendingEditKind::Poll(_) => "Poll { .. }"@,
            }),
    {
        match &self.kind {
            PendingEditKind::RoomMessage(_) => "RoomMessage { .. }".to_owned(),
            PendingEditKind::Poll(_) => "Poll { .. }".to_owned(),
        }
    }
}

/// Responses as values to reason about leave nothing out.
pub proof fn law_responses_are_seen_whole(responses: Seq<ResponseData>)
    ensures
        responses_view(responses).len() == responses.len(),
        forall|i: int|
            0 <= i < responses.len() ==> {
                let seen = #[trigger] responses_view(responses)[i];
                &&& seen.sender == responses[i].sender@
                &&& seen.timestamp == responses[i].timestamp
                &&& seen.answers.len() == responses[i].answers@.len()
                &&& forall|j: int|
                    0 <= j < seen.answers.len() ==> #[trigger] seen.answers[j]
                        == responses[i].answers@[j]@
            },
{
}

/// A poll keeps the responses it has, in their order, and gets all that wait for it behind them. It
/// ends when the end that waits for it says, and as it did before if none waits. What waits for
/// other polls makes no difference, and to hand over what waits a second time changes nothing.
pub proof fn law_polls_get_what_waits_for_them(
    pending: PendingPollEventsView,
    poll: Seq<char>,
    other: Seq<char>,
    response: ResponseDataView,
    end: u64,
    state: PollState,
)
    ensures
        ({
            let before = state@;
            let after = pending.applied_to(poll, before);
            let waiting = pending.responses_to(poll);
            &&& before.response_data == responses_view(state.response_data@)
            &&& before.end_event_timestamp == state.end_event_timestamp
            &&& after.response_data.len() == before.response_data.len() + waiting.len()
            &&& forall|i: int|
                0 <= i < before.response_data.len() ==> #[trigger] after.response_data[i]
                    == before.response_data[i]
            &&& forall|i: int|
                0 <= i < waiting.len() ==> after.response_data[before.response_data.len() + i]
                    == #[trigger] waiting[i]
            &&& pending.end_of(poll) is None ==> after.end_event_timestamp
                == before.end_event_timestamp
            &&& pending.end_of(poll) is Some ==> after.end_event_timestamp == pending.end_of(poll)
            &&& pending.with_end(poll, end).applied_to(poll, before).end_event_timestamp == Some(end)
            &&& pending.with_response(poll, response).applied_to(poll, before).response_data
                == after.response_data.push(response)
            &&& other != poll ==> pending.with_response(other, response).with_end(
                other,
                end,
            ).applied_to(poll, before) == after
            &&& pending.without_poll(poll).applied_to(poll, after) == after
        }),
{
    let before = state@;
    let after = pending.applied_to(poll, before);
    assert(pending.with_response(poll, response).applied_to(poll, before).response_data
        == after.response_data.push(response));
    assert(after.response_data + Seq::empty() == after.response_data);
}

} // verus!
