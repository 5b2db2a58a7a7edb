//! The remote events that a timeline has received, shown or not, from the oldest to the newest.
use std::collections::VecDeque;

use vstd::prelude::*;

use crate::position::{RelativePosition, TimelineItemPosition};

verus! {

/// Full metadata about an event.
#[derive(Debug)]
pub struct FullEventMeta {
    /// The ID of the event.
    pub event_id: String,
    /// Whether the event is among the timeline items.
    pub visible: bool,
    /// The sender of the event.
    pub sender: Option<String>,
    /// Whether this event was sent by our own user.
    pub is_own_event: bool,
    /// The timestamp of the event, in milliseconds since the Unix epoch.
    pub timestamp: Option<u64>,
}

/// Metadata about an event that needs to be kept in memory.
#[derive(Debug)]
pub struct EventMeta {
    /// The ID of the event.
    pub event_id: String,
    /// Whether the event is among the timeline items.
    pub visible: bool,
}

/// The metadata of an event as values to reason about.
pub struct EventMetaView {
    pub event_id: Seq<char>,
    pub visible: bool,
}

impl View for EventMeta {
    type V = EventMetaView;

    open spec fn view(&self) -> EventMetaView {
        EventMetaView { event_id: self.event_id@, visible: self.visible }
    }
}

impl Clone for EventMeta {
    fn clone(&self) -> (copy: Self)
        ensures
            copy == *self,
    {
        EventMeta { event_id: self.event_id.clone(), visible: self.visible }
    }
}

impl FullEventMeta {
    /// What is kept in memory of the event.
    pub open spec fn spec_base_meta(self) -> EventMetaView {
        EventMetaView { event_id: self.event_id@, visible: self.visible }
    }

    /// What is kept in memory of the event.
    pub fn base_meta(&self) -> (meta: EventMeta)
        ensures
            meta@ == self.spec_base_meta(),
    {
        EventMeta { event_id: self.event_id.clone(), visible: self.visible }
    }
}

/// The events of a queue as values to reason about.
pub open spec fn metas_view(events: Seq<EventMeta>) -> Seq<EventMetaView> {
    events.map_values(|meta: EventMeta| meta@)
}

/// The position of the first event with the given id.
pub open spec fn first_position(events: Seq<EventMetaView>, id: Seq<char>) -> Option<int>
    decreases events.len(),
{
    if events.len() == 0 {
        None
    } else if events[0].event_id == id {
        Some(0)
    } else {
        match first_position(events.drop_first(), id) {
            Some(index) => Some(index + 1),
            None => None,
        }
    }
}

/// The position of the last event with the given id.
pub open spec fn last_position(events: Seq<EventMetaView>, id: Seq<char>) -> Option<int>
    decreases events.len(),
{
    if events.len() == 0 {
        None
    } else if events.last().event_id == id {
        Some(events.len() - 1)
    } else {
        last_position(events.drop_last(), id)
    }
}

/// Tells where the first match is from what stands there and before it.
pub proof fn lemma_first_position(events: Seq<EventMetaView>, id: Seq<char>)
    ensures
        match first_position(events, id) {
            Some(index) => {
                &&& 0 <= index < events.len()
                &&& events[index].event_id == id
                &&& forall|i: int| 0 <= i < index ==> (#[trigger] events[i]).event_id != id
            },
            None => forall|i: int|
                0 <= i < events.len() ==> (#[trigger] events[i]).event_id != id,
        },
    decreases events.len(),
{
    if events.len() > 0 && events[0].event_id != id {
        let rest = events.drop_first();
        lemma_first_position(rest, id);
        assert forall|i: int| 0 < i < events.len() implies #[trigger] events[i] == rest[i - 1] by {}
    }
}

/// Tells where the last match is from what stands there and after it.
pub proof fn lemma_last_position(events: Seq<EventMetaView>, id: Seq<char>)
    ensures
        match last_position(events, id) {
            Some(index) => {
                &&& 0 <= index < events.len()
                &&& events[index].event_id == id
                &&& forall|i: int|
                    index < i < events.len() ==> (#[trigger] events[i]).event_id != id
            },
            None => forall|i: int|
                0 <= i < events.len() ==> (#[trigger] events[i]).event_id != id,
        },
    decreases events.len(),
{
    if events.len() > 0 && events.last().event_id != id {
        let rest = events.drop_last();
        lemma_last_position(rest, id);
        assert forall|i: int| 0 <= i < rest.len() implies #[trigger] events[i] == rest[i] by {}
    }
}

/// How event `b` stands to event `a`: of two that are listed, the one further down is the more
/// recent one, and one that is not listed is older than one that is. Nothing can be said if neither
/// is listed.
pub open spec fn relative_position(
    events: Seq<EventMetaView>,
    a: Seq<char>,
    b: Seq<char>,
) -> Option<RelativePosition> {
    if a == b {
        if last_position(events, a) is Some {
            Some(RelativePosition::Same)
        } else {
            None
        }
    } else {
        match (last_position(events, a), last_position(events, b)) {
            (None, None) => None,
            (Some(_), None) => Some(RelativePosition::Before),
            (None, Some(_)) => Some(RelativePosition::After),
            (Some(at_a), Some(at_b)) => if at_a > at_b {
                Some(RelativePosition::Before)
            } else {
                Some(RelativePosition::After)
            },
        }
    }
}

/// The events without the first one with the given id.
pub open spec fn without_first(events: Seq<EventMetaView>, id: Seq<char>) -> Seq<EventMetaView> {
    match first_position(events, id) {
        Some(index) => events.remove(index),
        None => events,
    }
}

/// The events after one of them has been added at an end or updated where it stands. An event
/// that is known already is taken out of its old place when it is added.
pub open spec fn added_or_updated(
    events: Seq<EventMetaView>,
    meta: EventMetaView,
    position: TimelineItemPosition,
) -> Seq<EventMetaView> {
    match position {
        TimelineItemPosition::Start { .. } => seq![meta] + without_first(events, meta.event_id),
        TimelineItemPosition::End { .. } => without_first(events, meta.event_id).push(meta),
        TimelineItemPosition::UpdateDecrypted { .. } => match first_position(
            events,
            meta.event_id,
        ) {
            Some(index) => events.update(index, meta),
            None => events,
        },
    }
}

/// Finds the first event with the given id.
pub fn event_already_exists(new_event_id: &String, all_remote_events: &VecDeque<EventMeta>) -> (res:
    Option<usize>)
    ensures
        first_position(metas_view(all_remote_events@), new_event_id@) == (match res {
            Some(index) => Some(index as int),
            None => None,
        }),
        res matches Some(index) ==> index < all_remote_events@.len(),
{
    let ghost events = metas_view(all_remote_events@);
    let mut index: usize = 0;
    while index < all_remote_events.len()
        invariant
            events == metas_view(all_remote_events@),
            index <= all_remote_events@.len(),
            forall|i: int| 0 <= i < index ==> (#[trigger] events[i]).event_id != new_event_id@,
        decreases all_remote_events@.len() - index,
    {
        assert(events[index as int] == all_remote_events@[index as int]@);
        if all_remote_events[index].event_id == *new_event_id {
            proof {
                lemma_first_position(events, new_event_id@);
            }
            return Some(index);
        }
        index = index + 1;
    }
    proof {
        lemma_first_position(events, new_event_id@);
    }
    None
}

/// Adds an event at an end of the queue, or updates one where it stands. Tells whether the event
/// was there before, and whether it was an update that changed the event's visibility.
pub(crate) fn add_or_update(
    all_remote_events: &mut VecDeque<EventMeta>,
    event_meta: &FullEventMeta,
    position: TimelineItemPosition,
) -> (res: (bool, bool))
    ensures
        metas_view(final(all_remote_events)@) == added_or_updated(
            metas_view(old(all_remote_events)@),
            event_meta.spec_base_meta(),
            position,
        ),
        res.0 == (first_position(metas_view(old(all_remote_events)@), event_meta.event_id@)
            is Some),
        res.1 == (position is UpdateDecrypted && (first_position(
            metas_view(old(all_remote_events)@),
            event_meta.event_id@,
        ) matches Some(index) && metas_view(old(all_remote_events)@)[index].visible
            != event_meta.visible)),
{
    let ghost before = metas_view(all_remote_events@);
    let found: Option<usize> = event_already_exists(&event_meta.event_id, all_remote_events);
    proof {
        lemma_first_position(before, event_meta.event_id@);
    }
    match position {
        TimelineItemPosition::Start { .. } => {
            if let Some(index) = found {
                let _ = all_remote_events.remove(index);
            }
            assert(metas_view(all_remote_events@) == without_first(before, event_meta.event_id@));
            let ghost rest = all_remote_events@;
            let meta = event_meta.base_meta();
            all_remote_events.push_front(meta);
            assert(metas_view(all_remote_events@) == seq![meta@] + metas_view(rest));
            (found.is_some(), false)
        },
        TimelineItemPosition::End { .. } => {
            if let Some(index) = found {
                let _ = all_remote_events.remove(index);
            }
            assert(metas_view(all_remote_events@) == without_first(before, event_meta.event_id@));
            let ghost rest = all_remote_events@;
            let meta = event_meta.base_meta();
            all_remote_events.push_back(meta);
            assert(metas_view(all_remote_events@) == metas_view(rest).push(meta@));
            (found.is_some(), false)
        },
        TimelineItemPosition::UpdateDecrypted { .. } => match found {
            Some(index) => {
                let changed: bool = all_remote_events[index].visible != event_meta.visible;
                if changed {
                    let _ = all_remote_events.remove(index);
                    all_remote_events.insert(index, event_meta.base_meta());
                }
                assert(metas_view(all_remote_events@) == before.update(
                    index as int,
                    event_meta.spec_base_meta(),
                ));
                (true, changed)
            },
            None => (false, false),
        },
    }
}

/// Compares two events by where they stand in the queue.
pub(crate) fn compare_positions(
    all_remote_events: &VecDeque<EventMeta>,
    event_a: &String,
    event_b: &String,
) -> (res: Option<RelativePosition>)
    ensures
        res == relative_position(metas_view(all_remote_events@), event_a@, event_b@),
{
    let ghost events = metas_view(all_remote_events@);
    proof {
        lemma_last_position(events, event_a@);
        lemma_last_position(events, event_b@);
    }
    if *event_a == *event_b {
        proof {
            lemma_first_position(events, event_a@);
        }
        return if event_already_exists(event_a, all_remote_events).is_some() {
            Some(RelativePosition::Same)
        } else {
            None
        };
    }
    // All events since the end of the timeline are known, so the first of the two that is met on
    // the way up from the end is the more recent one.
    let mut end: usize = all_remote_events.len();
    while end > 0
        invariant
            events == metas_view(all_remote_events@),
            end <= all_remote_events@.len(),
            event_a@ != event_b@,
            forall|i: int|
                end <= i < events.len() ==> (#[trigger] events[i]).event_id != event_a@
                    && events[i].event_id != event_b@,
        decreases end,
    {
        end = end - 1;
        let meta = &all_remote_events[end];
        assert(events[end as int] == meta@);
        if meta.event_id == *event_a {
            proof {
                lemma_last_position(events, event_a@);
                lemma_last_position(events, event_b@);
            }
            return Some(RelativePosition::Before);
        }
        if meta.event_id == *event_b {
            proof {
                lemma_last_position(events, event_a@);
                lemma_last_position(events, event_b@);
            }
            return Some(RelativePosition::After);
        }
    }
    None
}

/// No two events have the same id.
pub open spec fn distinct_ids(events: Seq<EventMetaView>) -> bool {
    forall|i: int, j: int|
        0 <= i < j < events.len() ==> (#[trigger] events[i]).event_id != (
        #[trigger] events[j]).event_id
}

/// Several events are added or updated one after the other.
pub open spec fn all_added_or_updated(
    events: Seq<EventMetaView>,
    metas: Seq<EventMetaView>,
    position: TimelineItemPosition,
) -> Seq<EventMetaView>
    decreases metas.len(),
{
    if metas.len() == 0 {
        events
    } else {
        added_or_updated(
            all_added_or_updated(events, metas.drop_last(), position),
            metas.last(),
            position,
        )
    }
}

/// No event is listed twice, wherever events are added and however often.
pub proof fn law_no_event_is_listed_twice(
    events: Seq<EventMetaView>,
    meta: EventMetaView,
    position: TimelineItemPosition,
)
    requires
        distinct_ids(events),
    ensures
        distinct_ids(added_or_updated(events, meta, position)),
{
    lemma_first_position(events, meta.event_id);
    let rest = without_first(events, meta.event_id);
    assert forall|i: int| 0 <= i < rest.len() implies (#[trigger] rest[i]).event_id
        != meta.event_id by {
        if let Some(index) = first_position(events, meta.event_id) {
            let source = if i < index {
                i
            } else {
                i + 1
            };
            assert(rest[i] == events[source]);
            if index < source {
                assert(events[index].event_id != events[source].event_id);
            }
        }
    }
    assert(distinct_ids(rest));
}

/// An event that was added is known from then on, so that it counts as added only once.
pub proof fn law_added_event_is_known(
    events: Seq<EventMetaView>,
    meta: EventMetaView,
    position: TimelineItemPosition,
)
    requires
        !(position is UpdateDecrypted),
    ensures
        first_position(added_or_updated(events, meta, position), meta.event_id) is Some,
{
    let after = added_or_updated(events, meta, position);
    lemma_first_position(after, meta.event_id);
    if position is Start {
        assert(after[0].event_id == meta.event_id);
    } else {
        assert(after[after.len() - 1].event_id == meta.event_id);
    }
}

/// An event that is added is listed once with its new visibility, at the end where it was added,
/// and the other events keep their order.
pub proof fn law_added_event_is_listed(
    events: Seq<EventMetaView>,
    meta: EventMetaView,
    position: TimelineItemPosition,
)
    requires
        distinct_ids(events),
        !(position is UpdateDecrypted),
    ensures
        added_or_updated(events, meta, position).len() > 0,
        position is Start ==> added_or_updated(events, meta, position).first() == meta,
        position is End ==> added_or_updated(events, meta, position).last() == meta,
        without_first(added_or_updated(events, meta, position), meta.event_id) == without_first(
            events,
            meta.event_id,
        ),
{
    law_no_event_is_listed_twice(events, meta, position);
    let after = added_or_updated(events, meta, position);
    let rest = without_first(events, meta.event_id);
    lemma_first_position(after, meta.event_id);
    if position is Start {
        assert(after[0] == meta);
        assert(after.remove(0) == rest);
    } else {
        assert(after[after.len() - 1] == meta);
        let index = first_position(after, meta.event_id)->0;
        if index < after.len() - 1 {
            assert(after[index].event_id != after[after.len() - 1].event_id);
        }
        assert(after.remove(after.len() - 1) == rest);
    }
}

/// New events that are added at the start one by one, from the most recent to the oldest, end up
/// above the others from the oldest to the most recent; added at the end they end up below the
/// others in the order in which they came.
pub proof fn law_new_events_are_in_order(
    events: Seq<EventMetaView>,
    metas: Seq<EventMetaView>,
    position: TimelineItemPosition,
)
    requires
        !(position is UpdateDecrypted),
        distinct_ids(metas),
        forall|i: int, j: int|
            0 <= i < metas.len() && 0 <= j < events.len() ==> (#[trigger] metas[i]).event_id != (
            #[trigger] events[j]).event_id,
    ensures
        all_added_or_updated(events, metas, position) == (if position is Start {
            metas.reverse() + events
        } else {
            events + metas
        }),
    decreases metas.len(),
{
    if metas.len() == 0 {
        assert(metas.reverse() + events == events);
        assert(events + metas == events);
    } else {
        let earlier = metas.drop_last();
        let meta = metas.last();
        assert forall|i: int, j: int|
            0 <= i < earlier.len() && 0 <= j < events.len() implies (
        #[trigger] earlier[i]).event_id != (#[trigger] events[j]).event_id by {
            assert(earlier[i] == metas[i]);
        }
        assert(distinct_ids(earlier));
        law_new_events_are_in_order(events, earlier, position);
        let now = all_added_or_updated(events, earlier, position);
        lemma_first_position(now, meta.event_id);
        assert forall|i: int| 0 <= i < now.len() implies (#[trigger] now[i]).event_id
            != meta.event_id by {
            if position is Start {
                if i < earlier.len() {
                    assert(now[i] == metas[earlier.len() - 1 - i]);
                } else {
                    assert(now[i] == events[i - earlier.len()]);
                }
            } else {
                if i < events.len() {
                    assert(now[i] == events[i]);
                } else {
                    assert(now[i] == metas[i - events.len()]);
                }
            }
        }
        if position is Start {
            assert(seq![meta] + now == metas.reverse() + events);
        } else {
            assert(now.push(meta) == events + metas);
        }
    }
}

/// The same position, seen from the other event.
pub open spec fn opposite(position: Option<RelativePosition>) -> Option<RelativePosition> {
    match position {
        Some(RelativePosition::Before) => Some(RelativePosition::After),
        Some(RelativePosition::After) => Some(RelativePosition::Before),
        Some(RelativePosition::Same) => Some(RelativePosition::Same),
        None => None,
    }
}

/// An event is listed.
pub open spec fn is_listed(events: Seq<EventMetaView>, id: Seq<char>) -> bool {
    exists|i: int| 0 <= i < events.len() && (#[trigger] events[i]).event_id == id
}

/// Two events compare the opposite way the other way round. They are the same exactly if they are
/// one event that is listed, and nothing is said of them exactly if neither is listed.
pub proof fn law_comparison_is_antisymmetric(
    events: Seq<EventMetaView>,
    a: Seq<char>,
    b: Seq<char>,
)
    ensures
        relative_position(events, b, a) == opposite(relative_position(events, a, b)),
        relative_position(events, a, b) == Some(RelativePosition::Same) <==> a == b && is_listed(
            events,
            a,
        ),
        relative_position(events, a, b) is None <==> !is_listed(events, a) && !is_listed(events, b),
{
    lemma_last_position(events, a);
    lemma_last_position(events, b);
    if let Some(at) = last_position(events, a) {
        assert(events[at].event_id == a);
    }
    if let Some(at) = last_position(events, b) {
        assert(events[at].event_id == b);
    }
}

/// Where no event is listed twice, of two events that are listed the one further down is the more
/// recent one.
pub proof fn law_comparison_follows_the_list(events: Seq<EventMetaView>, i: int, j: int)
    requires
        distinct_ids(events),
        0 <= i < j < events.len(),
    ensures
        relative_position(events, events[i].event_id, events[j].event_id) == Some(
            RelativePosition::After,
        ),
{
    lemma_last_position(events, events[i].event_id);
    lemma_last_position(events, events[j].event_id);
}

/// The events with another id than the given one, in their order.
pub open spec fn others_than(events: Seq<EventMetaView>, id: Seq<char>) -> Seq<EventMetaView> {
    events.filter(|event: EventMetaView| event.event_id != id)
}

/// An event with the given id makes no difference for the others, wherever it stands.
proof fn lemma_others_than(
    above: Seq<EventMetaView>,
    event: EventMetaView,
    below: Seq<EventMetaView>,
)
    ensures
        others_than(above + seq![event] + below, event.event_id) == others_than(
            above + below,
            event.event_id,
        ),
{
    let pred = |other: EventMetaView| other.event_id != event.event_id;
    Seq::filter_distributes_over_add(above + seq![event], below, pred);
    Seq::filter_distributes_over_add(above, seq![event], pred);
    Seq::filter_distributes_over_add(above, below, pred);
    assert(seq![event].filter(pred) == Seq::<EventMetaView>::empty()) by {
        reveal_with_fuel(Seq::filter, 2);
        assert(seq![event].drop_last().len() == 0);
    }
    assert(above.filter(pred) + Seq::<EventMetaView>::empty() == above.filter(pred));
}

/// Whatever becomes of one event, all others stay listed as they were, in their order.
pub proof fn law_other_events_keep_their_order(
    events: Seq<EventMetaView>,
    meta: EventMetaView,
    position: TimelineItemPosition,
)
    ensures
        others_than(added_or_updated(events, meta, position), meta.event_id) == others_than(
            events,
            meta.event_id,
        ),
{
    let id = meta.event_id;
    let after = added_or_updated(events, meta, position);
    let nothing = Seq::<EventMetaView>::empty();
    lemma_first_position(events, id);
    if let Some(index) = first_position(events, id) {
        let above = events.take(index);
        let below = events.skip(index + 1);
        assert(events == above + seq![events[index]] + below);
        assert(events.remove(index) == above + below);
        lemma_others_than(above, events[index], below);
        if position is UpdateDecrypted {
            assert(after == above + seq![meta] + below);
            lemma_others_than(above, meta, below);
        }
    }
    let rest = without_first(events, id);
    if position is Start {
        lemma_others_than(nothing, meta, rest);
        assert(after == nothing + seq![meta] + rest);
        assert(nothing + rest == rest);
    } else if position is End {
        lemma_others_than(rest, meta, nothing);
        assert(after == rest + seq![meta] + nothing);
        assert(rest + nothing == rest);
    }
}

/// An event that is added stands at the end it was added to. The list grows by one if the event was
/// not listed, and by none if it was.
pub proof fn law_added_event_stands_at_its_end(
    events: Seq<EventMetaView>,
    meta: EventMetaView,
    position: TimelineItemPosition,
)
    requires
        !(position is UpdateDecrypted),
    ensures
        ({
            let after = added_or_updated(events, meta, position);
            &&& after.len() == events.len() + if is_listed(events, meta.event_id) {
                0int
            } else {
                1int
            }
            &&& after[if position is Start {
                0
            } else {
                after.len() - 1
            }] == meta
        }),
{
    lemma_first_position(events, meta.event_id);
    if let Some(index) = first_position(events, meta.event_id) {
        assert(events[index].event_id == meta.event_id);
    }
}

/// An update changes the visibility of the first event with the given id, and nothing else. Nothing
/// changes if the event is not listed.
pub proof fn law_update_changes_one_event(
    events: Seq<EventMetaView>,
    meta: EventMetaView,
    timeline_item_index: usize,
)
    ensures
        ({
            let after = added_or_updated(
                events,
                meta,
                TimelineItemPosition::UpdateDecrypted { timeline_item_index },
            );
            &&& after.len() == events.len()
            &&& forall|i: int|
                0 <= i < events.len() ==> #[trigger] after[i] == (if events[i].event_id
                    == meta.event_id && (forall|j: int|
                    0 <= j < i ==> (#[trigger] events[j]).event_id != meta.event_id) {
                    meta
                } else {
                    events[i]
                })
        }),
{
    lemma_first_position(events, meta.event_id);
}

/// Of two different events, the one that is listed further down than the other is listed at all is
/// the more recent one. An event that is not listed is older than one that is.
pub proof fn law_event_further_down_is_more_recent(
    events: Seq<EventMetaView>,
    a: Seq<char>,
    b: Seq<char>,
    at: int,
)
    requires
        a != b,
        0 <= at < events.len(),
        events[at].event_id == a,
        forall|i: int| at < i < events.len() ==> (#[trigger] events[i]).event_id != b,
    ensures
        relative_position(events, a, b) == Some(RelativePosition::Before),
        relative_position(events, b, a) == Some(RelativePosition::After),
{
    lemma_last_position(events, a);
    lemma_last_position(events, b);
}

/// What is kept in memory of an event is its id and whether it is shown.
pub proof fn law_base_meta(meta: FullEventMeta)
    ensures
        meta.spec_base_meta().event_id == meta.event_id@,
        meta.spec_base_meta().visible == meta.visible,
{
}

} // verus!
