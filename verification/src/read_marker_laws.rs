//! What holds of every update of the read marker.
use std::sync::Arc;

use vstd::prelude::*;

use crate::item::{TimelineItem, TimelineItemKind, VirtualTimelineItem};
use crate::observable::VectorUpdate;

verus! {

use crate::read_marker::{
    event_with_id, events_of_others, first_index_where, last_index_where, last_read_index,
    lemma_first_index_where, lemma_last_index_where, read_marker_updated, read_marker_updates,
    read_markers,
};
use crate::observable::replayed;

/// No two items are read markers.
pub open spec fn at_most_one_read_marker(items: Seq<Arc<TimelineItem>>) -> bool {
    forall|i: int, j: int|
        0 <= i < items.len() && 0 <= j < items.len() && (#[trigger] items[i]).is_read_marker()
            && (#[trigger] items[j]).is_read_marker() ==> i == j
}

/// The items that are no read markers, in order.
pub open spec fn without_read_markers(items: Seq<Arc<TimelineItem>>) -> Seq<Arc<TimelineItem>> {
    items.filter(|item: Arc<TimelineItem>| !item.is_read_marker())
}

/// Facts about where things stand before an update.
proof fn lemma_before(
    before: Seq<Arc<TimelineItem>>,
    own_user_id: Seq<char>,
    fully_read_event: Seq<char>,
)
    ensures
        match last_index_where(before, read_markers()) {
            Some(from) => 0 <= from < before.len() && before[from].is_read_marker(),
            None => forall|i: int|
                0 <= i < before.len() ==> !(#[trigger] before[i]).is_read_marker(),
        },
        match last_read_index(before, own_user_id, fully_read_event) {
            Some(to) => {
                &&& 0 <= to < before.len()
                &&& last_index_where(before, event_with_id(fully_read_event)) matches Some(event)
                &&& event <= to
            },
            None => last_index_where(before, event_with_id(fully_read_event)) is None,
        },
{
    lemma_last_index_where(before, read_markers());
    lemma_last_index_where(before, event_with_id(fully_read_event));
    assert forall|i: int|
        0 <= i < before.len() && last_index_where(before, read_markers())
            is None implies !(#[trigger] before[i]).is_read_marker() by {
        assert(!read_markers()(before[i]));
    }
    if let Some(event) = last_index_where(before, event_with_id(fully_read_event)) {
        lemma_first_index_where(before, event + 1, events_of_others(own_user_id));
    }
}

/// An update keeps the timeline from having two read markers.
pub proof fn law_one_read_marker_at_most(
    before: Seq<Arc<TimelineItem>>,
    own_user_id: Seq<char>,
    fully_read_event: Seq<char>,
    after: Seq<Arc<TimelineItem>>,
    up_to_date: bool,
)
    requires
        at_most_one_read_marker(before),
        read_marker_updated(before, own_user_id, fully_read_event, after, up_to_date),
    ensures
        at_most_one_read_marker(after),
{
    lemma_before(before, own_user_id, fully_read_event);
}

/// The read marker never moves up: where there is one before and after an update, it stands no
/// higher afterwards.
pub proof fn law_read_marker_never_moves_up(
    before: Seq<Arc<TimelineItem>>,
    own_user_id: Seq<char>,
    fully_read_event: Seq<char>,
    after: Seq<Arc<TimelineItem>>,
    up_to_date: bool,
    from: int,
    to: int,
)
    requires
        at_most_one_read_marker(before),
        read_marker_updated(before, own_user_id, fully_read_event, after, up_to_date),
        0 <= from < before.len(),
        before[from].is_read_marker(),
        0 <= to < after.len(),
        after[to].is_read_marker(),
    ensures
        from <= to,
{
    lemma_before(before, own_user_id, fully_read_event);
    law_one_read_marker_at_most(before, own_user_id, fully_read_event, after, up_to_date);
}

/// The marker counts as up to date exactly if the fully-read event is in the timeline and a read
/// marker is too. It then stands below the fully-read event, and is not the last item.
pub proof fn law_up_to_date_marker(
    before: Seq<Arc<TimelineItem>>,
    own_user_id: Seq<char>,
    fully_read_event: Seq<char>,
    after: Seq<Arc<TimelineItem>>,
    up_to_date: bool,
)
    requires
        at_most_one_read_marker(before),
        read_marker_updated(before, own_user_id, fully_read_event, after, up_to_date),
    ensures
        up_to_date <==> {
            &&& last_index_where(before, event_with_id(fully_read_event)) is Some
            &&& last_index_where(after, read_markers()) is Some
        },
        up_to_date ==> {
            let marker = last_index_where(after, read_markers())->0;
            &&& marker + 1 < after.len()
            &&& exists|i: int|
                #![trigger after[i]]
                0 <= i < marker && event_with_id(fully_read_event)(after[i])
        },
{
    lemma_before(before, own_user_id, fully_read_event);
    lemma_last_index_where(before, event_with_id(fully_read_event));
    lemma_last_index_where(after, read_markers());
    law_one_read_marker_at_most(before, own_user_id, fully_read_event, after, up_to_date);
    if let (marker, Some(to)) = (
        last_index_where(before, read_markers()),
        last_read_index(before, own_user_id, fully_read_event),
    ) {
        let event = last_index_where(before, event_with_id(fully_read_event))->0;
        match marker {
            None => {
                if to + 1 < before.len() {
                    assert(read_markers()(after[to + 1]));
                    assert(after[event] == before[event]);
                }
            },
            Some(from) => {
                assert(from != event);
                if up_to_date {
                    if from < to {
                        assert(after[to] == before[from]);
                        assert(read_markers()(after[to]));
                        if from < event {
                            assert(after[event - 1] == before[event]);
                        } else {
                            assert(after[event] == before[event]);
                        }
                    } else {
                        assert(read_markers()(after[from]));
                        assert(after[event] == before[event]);
                    }
                } else {
                    assert forall|i: int| 0 <= i < after.len() implies !read_markers()(
                        #[trigger] after[i],
                    ) by {
                        assert(after[i] == before[if i < from {
                            i
                        } else {
                            i + 1
                        }]);
                    }
                }
            },
        }
    }
}

/// Inserting an item that a filter drops changes nothing that it keeps.
proof fn lemma_filter_insert(
    items: Seq<Arc<TimelineItem>>,
    index: int,
    item: Arc<TimelineItem>,
    pred: spec_fn(Arc<TimelineItem>) -> bool,
)
    requires
        0 <= index <= items.len(),
        !pred(item),
    ensures
        items.insert(index, item).filter(pred) == items.filter(pred),
{
    let above = items.take(index);
    let below = items.skip(index);
    assert(items == above + below);
    assert(items.insert(index, item) == (above + seq![item]) + below);
    Seq::filter_distributes_over_add(above, below, pred);
    Seq::filter_distributes_over_add(above + seq![item], below, pred);
    Seq::filter_distributes_over_add(above, seq![item], pred);
    assert(seq![item].filter(pred) == Seq::<Arc<TimelineItem>>::empty()) by {
        reveal_with_fuel(Seq::filter, 2);
        assert(seq![item].drop_last().len() == 0);
    }
}

/// An update touches read markers alone: all other items stay, in their order.
pub proof fn law_other_items_stay(
    before: Seq<Arc<TimelineItem>>,
    own_user_id: Seq<char>,
    fully_read_event: Seq<char>,
    after: Seq<Arc<TimelineItem>>,
    up_to_date: bool,
)
    requires
        read_marker_updated(before, own_user_id, fully_read_event, after, up_to_date),
    ensures
        without_read_markers(after) == without_read_markers(before),
{
    lemma_before(before, own_user_id, fully_read_event);
    let pred = |item: Arc<TimelineItem>| !item.is_read_marker();
    if let (marker, Some(to)) = (
        last_index_where(before, read_markers()),
        last_read_index(before, own_user_id, fully_read_event),
    ) {
        match marker {
            None => {
                if to + 1 < before.len() {
                    lemma_filter_insert(before, to + 1, after[to + 1], pred);
                }
            },
            Some(from) => {
                let bare = before.remove(from);
                assert(before == bare.insert(from, before[from]));
                lemma_filter_insert(bare, from, before[from], pred);
                if from < to {
                    lemma_filter_insert(bare, to, before[from], pred);
                }
            },
        }
    }
}

/// A read marker among the items moves the last item that has been read by one, if it stands
/// above or right below it, and else not at all.
proof fn lemma_last_read_index_insert(
    bare: Seq<Arc<TimelineItem>>,
    own_user_id: Seq<char>,
    fully_read_event: Seq<char>,
    index: int,
    marker: Arc<TimelineItem>,
)
    requires
        0 <= index <= bare.len(),
        marker.is_read_marker(),
    ensures
        last_read_index(bare.insert(index, marker), own_user_id, fully_read_event) == (
        match last_read_index(bare, own_user_id, fully_read_event) {
            Some(to) => Some(
                if index <= to + 1 {
                    to + 1
                } else {
                    to
                },
            ),
            None => None,
        }),
{
    let items = bare.insert(index, marker);
    let with_id = event_with_id(fully_read_event);
    let foreign = events_of_others(own_user_id);
    let shifted = |i: int|
        if i < index {
            i
        } else {
            i + 1
        };
    assert forall|i: int| 0 <= i < bare.len() implies #[trigger] items[shifted(i)] == bare[i] by {}
    lemma_last_index_where(bare, with_id);
    lemma_last_index_where(items, with_id);
    assert(!with_id(items[index]) && !foreign(items[index]));
    match last_index_where(bare, with_id) {
        None => {
            assert forall|i: int| 0 <= i < items.len() implies !with_id(#[trigger] items[i]) by {
                if i != index {
                    assert(items[i] == bare[if i < index {
                        i
                    } else {
                        i - 1
                    }]);
                }
            }
        },
        Some(event) => {
            let moved = shifted(event);
            assert(items[moved] == bare[event]);
            assert forall|i: int| moved < i < items.len() implies !with_id(
                #[trigger] items[i],
            ) by {
                if i != index {
                    assert(items[i] == bare[if i < index {
                        i
                    } else {
                        i - 1
                    }]);
                }
            }
            assert(last_index_where(items, with_id) == Some(moved));
            lemma_first_index_where(bare, event + 1, foreign);
            lemma_first_index_where(items, moved + 1, foreign);
            let last = match first_index_where(bare, event + 1, foreign) {
                Some(unread) => {
                    assert(items[shifted(unread)] == bare[unread]);
                    shifted(unread)
                },
                None => items.len() as int,
            };
            assert forall|i: int| moved < i < last implies !foreign(#[trigger] items[i]) by {
                if i != index {
                    assert(items[i] == bare[if i < index {
                        i
                    } else {
                        i - 1
                    }]);
                }
            }
        },
    }
}

/// What an update leaves, a second update for the same event leaves too.
///
/// Left out is a marker that ended up as the last item though an event that somebody else sent
/// stands above it: the first update takes it away, and the second puts one above that event.
pub proof fn law_second_update_changes_nothing(
    before: Seq<Arc<TimelineItem>>,
    own_user_id: Seq<char>,
    fully_read_event: Seq<char>,
    once: Seq<Arc<TimelineItem>>,
    up_to_date_once: bool,
    twice: Seq<Arc<TimelineItem>>,
    up_to_date_twice: bool,
)
    requires
        at_most_one_read_marker(before),
        read_marker_updated(before, own_user_id, fully_read_event, once, up_to_date_once),
        read_marker_updated(once, own_user_id, fully_read_event, twice, up_to_date_twice),
        !(last_index_where(before, read_markers()) == Some(before.len() - 1) && (last_read_index(
            before,
            own_user_id,
            fully_read_event,
        ) matches Some(to) && to < before.len() - 1)),
    ensures
        twice == once,
        up_to_date_twice == up_to_date_once,
{
    lemma_before(before, own_user_id, fully_read_event);
    lemma_before(once, own_user_id, fully_read_event);
    law_one_read_marker_at_most(before, own_user_id, fully_read_event, once, up_to_date_once);
    if let (marker, Some(to)) = (
        last_index_where(before, read_markers()),
        last_read_index(before, own_user_id, fully_read_event),
    ) {
        match marker {
            None => {
                if to + 1 < before.len() {
                    lemma_last_read_index_insert(
                        before,
                        own_user_id,
                        fully_read_event,
                        to + 1,
                        once[to + 1],
                    );
                    assert(once[to + 1].is_read_marker());
                }
            },
            Some(from) => {
                let bare = before.remove(from);
                assert(before == bare.insert(from, before[from]));
                lemma_last_read_index_insert(
                    bare,
                    own_user_id,
                    fully_read_event,
                    from,
                    before[from],
                );
                assert forall|i: int| 0 <= i < bare.len() implies !(
                #[trigger] bare[i]).is_read_marker() by {
                    assert(bare[i] == before[if i < from {
                        i
                    } else {
                        i + 1
                    }]);
                }
                if from < to && to + 1 < before.len() {
                    lemma_last_read_index_insert(
                        bare,
                        own_user_id,
                        fully_read_event,
                        to,
                        before[from],
                    );
                    assert(once[to].is_read_marker());
                }
            },
        }
    }
}

/// The item is an event that the server knows under the given id.
pub open spec fn has_id(item: Arc<TimelineItem>, id: Seq<char>) -> bool {
    item.kind matches TimelineItemKind::Event(event) && event.spec_event_id() == Some(id)
}

/// The item is an event that somebody else sent.
pub open spec fn is_from_other(item: Arc<TimelineItem>, own_user_id: Seq<char>) -> bool {
    item.kind matches TimelineItemKind::Event(event) && event.sender@ != own_user_id
}

/// The item is a read marker.
pub open spec fn marks_read(item: Arc<TimelineItem>) -> bool {
    item.kind == TimelineItemKind::Virtual(VirtualTimelineItem::ReadMarker)
}

/// The event with the given id stands at the given position, and not again further down.
pub open spec fn stands_last_at(items: Seq<Arc<TimelineItem>>, id: Seq<char>, at: int) -> bool {
    &&& 0 <= at < items.len()
    &&& has_id(items[at], id)
    &&& forall|i: int| at < i < items.len() ==> !has_id(#[trigger] items[i], id)
}

/// The first event of somebody else below the given position.
pub open spec fn is_first_unread(
    items: Seq<Arc<TimelineItem>>,
    own_user_id: Seq<char>,
    below: int,
    at: int,
) -> bool {
    &&& below < at < items.len()
    &&& is_from_other(items[at], own_user_id)
    &&& forall|i: int| below < i < at ==> !is_from_other(#[trigger] items[i], own_user_id)
}

/// The last read marker stands at the given position.
pub open spec fn marker_stands_at(items: Seq<Arc<TimelineItem>>, at: int) -> bool {
    &&& 0 <= at < items.len()
    &&& marks_read(items[at])
    &&& forall|i: int| at < i < items.len() ==> !marks_read(#[trigger] items[i])
}

/// There is no read marker.
pub open spec fn no_marker(items: Seq<Arc<TimelineItem>>) -> bool {
    forall|i: int| 0 <= i < items.len() ==> !marks_read(#[trigger] items[i])
}

/// The items without the one at the given position, each of the others in its place.
pub open spec fn taken_out(
    before: Seq<Arc<TimelineItem>>,
    at: int,
    after: Seq<Arc<TimelineItem>>,
) -> bool {
    &&& after.len() == before.len() - 1
    &&& forall|i: int| 0 <= i < at ==> #[trigger] after[i] == before[i]
    &&& forall|i: int| at <= i < after.len() ==> #[trigger] after[i] == before[i + 1]
}

/// What is searched for is found where it stands.
proof fn lemma_found(
    items: Seq<Arc<TimelineItem>>,
    own_user_id: Seq<char>,
    fully_read_event: Seq<char>,
)
    ensures
        forall|at: int|
            stands_last_at(items, fully_read_event, at) ==> last_index_where(
                items,
                event_with_id(fully_read_event),
            ) == Some(at),
        forall|at: int|
            marker_stands_at(items, at) ==> last_index_where(items, read_markers()) == Some(at),
        no_marker(items) ==> last_index_where(items, read_markers()) is None,
        forall|below: int, at: int|
            0 <= below && is_first_unread(items, own_user_id, below, at) ==> first_index_where(
                items,
                below + 1,
                events_of_others(own_user_id),
            ) == Some(at),
{
    let with_id = event_with_id(fully_read_event);
    let foreign = events_of_others(own_user_id);
    lemma_last_index_where(items, with_id);
    lemma_last_index_where(items, read_markers());
    assert forall|i: int| 0 <= i < items.len() implies {
        &&& with_id(#[trigger] items[i]) == has_id(items[i], fully_read_event)
        &&& foreign(items[i]) == is_from_other(items[i], own_user_id)
        &&& read_markers()(items[i]) == marks_read(items[i])
    } by {}
    assert forall|at: int| stands_last_at(items, fully_read_event, at) implies last_index_where(
        items,
        with_id,
    ) == Some(at) by {
        assert(with_id(items[at]));
    }
    assert forall|at: int| marker_stands_at(items, at) implies last_index_where(
        items,
        read_markers(),
    ) == Some(at) by {
        assert(read_markers()(items[at]));
    }
    assert forall|below: int, at: int|
        0 <= below && is_first_unread(items, own_user_id, below, at) implies first_index_where(
        items,
        below + 1,
        foreign,
    ) == Some(at) by {
        lemma_first_index_where(items, below + 1, foreign);
        assert(foreign(items[at]));
    }
}

/// Where an event of somebody else follows the fully-read event, the read marker stands right above
/// the first such event after an update, unless it stood further down before: then it stays, or is
/// taken out if nothing stands below it.
pub proof fn law_marker_stands_above_the_first_unread_event(
    before: Seq<Arc<TimelineItem>>,
    own_user_id: Seq<char>,
    fully_read_event: Seq<char>,
    after: Seq<Arc<TimelineItem>>,
    up_to_date: bool,
    read: int,
    unread: int,
)
    requires
        read_marker_updated(before, own_user_id, fully_read_event, after, up_to_date),
        stands_last_at(before, fully_read_event, read),
        is_first_unread(before, own_user_id, read, unread),
    ensures
        no_marker(before) ==> {
            &&& marks_read(after[unread])
            &&& after[unread].internal_id.0@ == "__read_marker"@
            &&& taken_out(after, unread, before)
            &&& up_to_date
        },
        forall|from: int| #[trigger]
            marker_stands_at(before, from) ==> if from < unread {
                &&& after.len() == before.len()
                &&& after[unread - 1] == before[from]
                &&& after[unread] == before[unread]
                &&& forall|i: int| 0 <= i < from ==> #[trigger] after[i] == before[i]
                &&& forall|i: int| from <= i < unread - 1 ==> #[trigger] after[i] == before[i + 1]
                &&& forall|i: int| unread <= i < after.len() ==> #[trigger] after[i] == before[i]
                &&& up_to_date
            } else if from + 1 < before.len() {
                after == before && up_to_date
            } else {
                taken_out(before, from, after) && !up_to_date
            },
{
    lemma_found(before, own_user_id, fully_read_event);
    assert(last_read_index(before, own_user_id, fully_read_event) == Some(unread - 1));
    assert forall|from: int| #[trigger] marker_stands_at(before, from) implies from != unread by {}
}

/// Where no event of somebody else follows the fully-read event, no read marker is left below it
/// after an update, and the other items are as they were.
pub proof fn law_no_marker_once_everything_is_read(
    before: Seq<Arc<TimelineItem>>,
    own_user_id: Seq<char>,
    fully_read_event: Seq<char>,
    after: Seq<Arc<TimelineItem>>,
    up_to_date: bool,
    read: int,
)
    requires
        read_marker_updated(before, own_user_id, fully_read_event, after, up_to_date),
        stands_last_at(before, fully_read_event, read),
        forall|i: int|
            read < i < before.len() ==> !is_from_other(#[trigger] before[i], own_user_id),
    ensures
        !up_to_date,
        no_marker(before) ==> after == before,
        forall|from: int| #[trigger]
            marker_stands_at(before, from) ==> taken_out(before, from, after),
{
    lemma_before(before, own_user_id, fully_read_event);
    lemma_found(before, own_user_id, fully_read_event);
    let foreign = events_of_others(own_user_id);
    lemma_first_index_where(before, read + 1, foreign);
    assert forall|i: int| read < i < before.len() implies !foreign(#[trigger] before[i]) by {
        assert(!is_from_other(before[i], own_user_id));
    }
    assert(last_read_index(before, own_user_id, fully_read_event) == Some(before.len() - 1));
}

/// Where the fully-read event is not in the timeline, an update changes no item, and there is no
/// marker that is up to date.
pub proof fn law_nothing_moves_without_the_fully_read_event(
    before: Seq<Arc<TimelineItem>>,
    own_user_id: Seq<char>,
    fully_read_event: Seq<char>,
    after: Seq<Arc<TimelineItem>>,
    up_to_date: bool,
)
    requires
        read_marker_updated(before, own_user_id, fully_read_event, after, up_to_date),
        forall|i: int| 0 <= i < before.len() ==> !has_id(#[trigger] before[i], fully_read_event),
    ensures
        after == before,
        !up_to_date,
{
    lemma_last_index_where(before, event_with_id(fully_read_event));
    if let Some(at) = last_index_where(before, event_with_id(fully_read_event)) {
        assert(!has_id(before[at], fully_read_event));
    }
}

/// What subscribers are told of an update leads from the items before it to those after it, is
/// about the marker alone, and is nothing where nothing has changed.
pub proof fn law_read_marker_updates_are_told(
    before: Seq<Arc<TimelineItem>>,
    own_user_id: Seq<char>,
    fully_read_event: Seq<char>,
    after: Seq<Arc<TimelineItem>>,
    up_to_date: bool,
)
    requires
        read_marker_updated(before, own_user_id, fully_read_event, after, up_to_date),
    ensures
        ({
            let updates = read_marker_updates(before, own_user_id, fully_read_event, after);
            &&& replayed(before, updates) == after
            &&& after == before <==> updates.len() == 0
            &&& after.len() != before.len() ==> updates.len() == 1
            &&& updates.len() <= 2
            &&& forall|i: int|
                0 <= i < updates.len() ==> match #[trigger] updates[i] {
                    VectorUpdate::Insert { inserted, .. } => marks_read(inserted),
                    VectorUpdate::Remove { from } => 0 <= from < before.len() && marks_read(
                        before[from],
                    ),
                    _ => false,
                }
        }),
{
    lemma_before(before, own_user_id, fully_read_event);
    lemma_last_index_where(before, read_markers());
    reveal_with_fuel(replayed, 3);
    let updates = read_marker_updates(before, own_user_id, fully_read_event, after);
    if updates.len() == 2 {
        let from = last_index_where(before, read_markers())->0;
        assert(updates.drop_last() == seq![updates[0]]);
        assert(updates.drop_last().drop_last() == Seq::<VectorUpdate>::empty());
        assert(after[from] == before[from + 1]);
        assert(!read_markers()(before[from + 1]));
    } else if updates.len() == 1 {
        assert(updates.drop_last() == Seq::<VectorUpdate>::empty());
    }
}

} // verus!
