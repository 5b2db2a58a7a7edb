//! Events as JSON text, and what `ruma` reads in them.
//!
//! How `ruma` parses an event takes pages to tell, so what it finds in a text is given a name. The
//! functions below are those that ask `ruma`; the decisions made on its answers are elsewhere.
use ruma::events::{AnySyncEphemeralRoomEvent, AnySyncTimelineEvent};
use ruma::serde::Raw;
use ruma::{EventId, MilliSecondsSinceUnixEpoch, OwnedUserId};
use vstd::prelude::*;

verus! {

use crate::receipts::text_of;

/// An event as JSON text.
#[derive(Debug)]
pub struct RawEvent {
    pub json: String,
}

impl Clone for RawEvent {
    fn clone(&self) -> (copy: Self)
        ensures
            copy == *self,
    {
        RawEvent { json: self.json.clone() }
    }
}

/// The fields that an event has whatever its content.
#[derive(Debug)]
pub struct EventEnvelope {
    /// The id of the event.
    pub event_id: String,
    /// The user who sent the event.
    pub sender: String,
    /// When the event was sent, in milliseconds since the Unix epoch.
    pub timestamp: u64,
    /// The transaction id under which this device sent the event, if it did.
    pub transaction_id: Option<String>,
}

/// The fields of an event as values to reason about.
pub struct EventEnvelopeView {
    pub event_id: Seq<char>,
    pub sender: Seq<char>,
    pub timestamp: u64,
    pub transaction_id: Option<Seq<char>>,
}

impl View for EventEnvelope {
    type V = EventEnvelopeView;

    open spec fn view(&self) -> EventEnvelopeView {
        EventEnvelopeView {
            event_id: self.event_id@,
            sender: self.sender@,
            timestamp: self.timestamp,
            transaction_id: text_of(self.transaction_id),
        }
    }
}

/// The fields of an event that may be missing, as values to reason about.
pub open spec fn envelope_view(envelope: Option<EventEnvelope>) -> Option<EventEnvelopeView> {
    match envelope {
        Some(envelope) => Some(envelope@),
        None => None,
    }
}

/// An event that tells of a room's present state and is no part of its history.
#[derive(Debug)]
pub enum EphemeralEvent {
    /// Who has read what, as the JSON text of the event's content.
    Receipt(String),
    /// Anything else.
    Other,
}

/// An ephemeral event as values to reason about.
pub enum EphemeralEventView {
    Receipt(Seq<char>),
    Other,
}

impl View for EphemeralEvent {
    type V = EphemeralEventView;

    open spec fn view(&self) -> EphemeralEventView {
        match self {
            EphemeralEvent::Receipt(content) => EphemeralEventView::Receipt(content@),
            EphemeralEvent::Other => EphemeralEventView::Other,
        }
    }
}

/// An ephemeral event that may be missing, as values to reason about.
pub open spec fn ephemeral_view(event: Option<EphemeralEvent>) -> Option<EphemeralEventView> {
    match event {
        Some(event) => Some(event@),
        None => None,
    }
}

/// What `Raw::deserialize` finds as a timeline event in a JSON text.
pub uninterp spec fn timeline_event_in(json: Seq<char>) -> Option<EventEnvelopeView>;

/// What `Raw::deserialize` finds as an ephemeral event in a JSON text.
pub uninterp spec fn ephemeral_event_in(json: Seq<char>) -> Option<EphemeralEventView>;

/// What `Raw::get_field` finds as a string under the given name in a JSON text.
pub uninterp spec fn string_field_in(json: Seq<char>, name: Seq<char>) -> Option<Seq<char>>;

/// What `Raw::get_field` finds as a user id under the given name in a JSON text.
pub uninterp spec fn user_id_field_in(json: Seq<char>, name: Seq<char>) -> Option<Seq<char>>;

/// What `Raw::get_field` finds as a timestamp under the given name in a JSON text.
pub uninterp spec fn timestamp_field_in(json: Seq<char>, name: Seq<char>) -> Option<u64>;

/// Whether `EventId::parse` takes a text for an event id.
pub uninterp spec fn is_event_id(text: Seq<char>) -> bool;

/// Calls `Raw::deserialize` for a timeline event and reads the fields that every such event has.
/// There are none if the text is no JSON or no timeline event.
#[verifier::external_body]
pub(crate) fn deserialize_timeline_event(raw: &RawEvent) -> (envelope: Option<EventEnvelope>)
    ensures
        envelope_view(envelope) == timeline_event_in(raw.json@),
{
    let raw = Raw::<AnySyncTimelineEvent>::from_json_string(raw.json.clone()).ok()?;
    let event = raw.deserialize().ok()?;
    Some(
        EventEnvelope {
            event_id: event.event_id().to_string(),
            sender: event.sender().to_string(),
            timestamp: event.origin_server_ts().get().into(),
            transaction_id: event.transaction_id().map(|id| id.to_string()),
        },
    )
}

/// Calls `Raw::deserialize` for an ephemeral event, and writes the content of a read receipt event
/// as JSON. Nothing comes back if the text is no JSON or no ephemeral event.
#[verifier::external_body]
pub(crate) fn deserialize_ephemeral_event(raw: &RawEvent) -> (event: Option<EphemeralEvent>)
    ensures
        ephemeral_view(event) == ephemeral_event_in(raw.json@),
{
    let raw = Raw::<AnySyncEphemeralRoomEvent>::from_json_string(raw.json.clone()).ok()?;
    match raw.deserialize().ok()? {
        AnySyncEphemeralRoomEvent::Receipt(event) => Some(
            EphemeralEvent::Receipt(serde_json::to_string(&event.content).ok()?),
        ),
        _ => Some(EphemeralEvent::Other),
    }
}

/// Calls `Raw::get_field` for a string. Nothing comes back if the text is no JSON object, if the
/// field is missing or null, or if it is no string.
#[verifier::external_body]
pub(crate) fn get_string_field(raw: &RawEvent, name: &str) -> (field: Option<String>)
    ensures
        text_of(field) == string_field_in(raw.json@, name@),
{
    let raw = Raw::<AnySyncTimelineEvent>::from_json_string(raw.json.clone()).ok()?;
    raw.get_field::<String>(name).ok().flatten()
}

/// Calls `Raw::get_field` for a user id. Nothing comes back if the text is no JSON object, if the
/// field is missing or null, or if it is no user id.
#[verifier::external_body]
pub(crate) fn get_user_id_field(raw: &RawEvent, name: &str) -> (field: Option<String>)
    ensures
        text_of(field) == user_id_field_in(raw.json@, name@),
{
    let raw = Raw::<AnySyncTimelineEvent>::from_json_string(raw.json.clone()).ok()?;
    raw.get_field::<OwnedUserId>(name).ok().flatten().map(|id| id.to_string())
}

/// Calls `Raw::get_field` for a timestamp. Nothing comes back if the text is no JSON object, if
/// the field is missing or null, or if it is no timestamp.
#[verifier::external_body]
pub(crate) fn get_timestamp_field(raw: &RawEvent, name: &str) -> (field: Option<u64>)
    ensures
        field == timestamp_field_in(raw.json@, name@),
{
    let raw = Raw::<AnySyncTimelineEvent>::from_json_string(raw.json.clone()).ok()?;
    raw.get_field::<MilliSecondsSinceUnixEpoch>(name).ok().flatten().map(|ts| ts.get().into())
}

/// Calls `EventId::parse`, which keeps the text of an event id as it is and refuses any other
/// text.
#[verifier::external_body]
pub(crate) fn parse_event_id(text: String) -> (event_id: Option<String>)
    ensures
        event_id is Some <==> is_event_id(text@),
        event_id matches Some(id) ==> id@ == text@,
{
    EventId::parse(text).ok().map(|id| id.to_string())
}

/// Events as values to reason about leave nothing out.
pub proof fn law_events_are_seen_whole(envelope: EventEnvelope, event: EphemeralEvent)
    ensures
        envelope@.event_id == envelope.event_id@,
        envelope@.sender == envelope.sender@,
        envelope@.timestamp == envelope.timestamp,
        envelope@.transaction_id == (match envelope.transaction_id {
            Some(id) => Some(id@),
            None => None,
        }),
        envelope_view(Some(envelope)) == Some(envelope@),
        envelope_view(None) is None,
        event@ == (match event {
            EphemeralEvent::Receipt(content) => EphemeralEventView::Receipt(content@),
            EphemeralEvent::Other => EphemeralEventView::Other,
        }),
        ephemeral_view(Some(event)) == Some(event@),
        ephemeral_view(None) is None,
{
}

} // verus!
