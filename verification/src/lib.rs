//! The state of a room's timeline: its items, and what is known of the events they came from.
//!
//! A [`state::TimelineState`] is changed through a [`transaction::TimelineStateTransaction`]. What
//! only the room can tell is asked for step by step: see [`remote_event`] for a single event,
//! [`batch`] for several, and [`retry`] for items that could not be decrypted.
pub mod batch;
pub mod clearing;
pub mod duplicates;
pub mod ephemeral;
pub mod event_context;
pub mod id_map;
pub mod item;
pub mod metadata;
pub mod observable;
pub mod pending;
pub mod position;
pub mod raw_event;
pub mod reactions;
pub mod read_marker;
pub mod read_marker_laws;
pub mod receipts;
pub mod remote_event;
pub mod remote_events;
pub mod retry;
pub mod ring_buffer;
pub mod shared;
pub mod state;
pub mod transaction;
pub mod unique_id;
