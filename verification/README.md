# timeline_state

The state of a room's timeline, verified with Verus.

- `src/` holds the library: the items and their transactions, the read marker, clearing, the list
  of remote events, poll events and edits that wait for their event, and the steps by which a
  remote event makes its way into the timeline. Every function states what it does, and the public
  proof functions whose names start with `law_` state what holds of several calls together.
- `app/` drives the library: it awaits what the room has to tell and hands events to the parts that
  turn them into items.
- `tests/` runs the library with the real `eyeball-im`, `itertools` and `ruma`.

What the library takes on trust from these crates and from std is written above each function that
calls them, in `observable.rs`, `duplicates.rs`, `raw_event.rs`, `shared.rs` and `unique_id.rs`.
