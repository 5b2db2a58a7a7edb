//! Where the read marker stands among the items of a timeline.
use std::sync::Arc;

use eyeball_im::ObservableVectorTransaction;
use vstd::prelude::*;

use crate::item::TimelineItem;
use crate::observable;
use crate::observable::VectorUpdate;

verus! {

/// The position of the last item for which the predicate holds.
pub open spec fn last_index_where(
    items: Seq<Arc<TimelineItem>>,
    pred: spec_fn(Arc<TimelineItem>) -> bool,
) -> Option<int>
    decreases items.len(),
{
    if items.len() == 0 {
        None
    } else if pred(items.last()) {
        Some(items.len() - 1)
    } else {
        last_index_where(items.drop_last(), pred)
    }
}

/// The position of the first item for which the predicate holds, from the given position on.
pub open spec fn first_index_where(
    items: Seq<Arc<TimelineItem>>,
    from: int,
    pred: spec_fn(Arc<TimelineItem>) -> bool,
) -> Option<int>
    decreases items.len() - from,
{
    if from < 0 || items.len() <= from {
        None
    } else if pred(items[from]) {
        Some(from)
    } else {
        first_index_where(items, from + 1, pred)
    }
}

/// Tells read markers from other items.
pub open spec fn read_markers() -> spec_fn(Arc<TimelineItem>) -> bool {
    |item: Arc<TimelineItem>| item.is_read_marker()
}

/// Tells the event with the given id from other items.
pub open spec fn event_with_id(id: Seq<char>) -> spec_fn(Arc<TimelineItem>) -> bool {
    |item: Arc<TimelineItem>|
        item.as_event() matches Some(event) && event.spec_event_id() == Some(id)
}

/// Tells the events that somebody else sent from other items.
pub open spec fn events_of_others(own_user_id: Seq<char>) -> spec_fn(Arc<TimelineItem>) -> bool {
    |item: Arc<TimelineItem>| item.as_event() matches Some(event) && event.sender@ != own_user_id
}

/// The position of the last item that has been read: that of the fully-read event, and of all
/// that follows it up to the first event that somebody else sent.
pub open spec fn last_read_index(
    items: Seq<Arc<TimelineItem>>,
    own_user_id: Seq<char>,
    fully_read_event: Seq<char>,
) -> Option<int> {
    match last_index_where(items, event_with_id(fully_read_event)) {
        None => None,
        Some(event) => match first_index_where(items, event + 1, events_of_others(own_user_id)) {
            Some(unread) => Some(unread - 1),
            None => Some(items.len() - 1),
        },
    }
}

/// What an update of the read marker makes of the items, and whether a marker that is up to date
/// is among them afterwards.
///
/// The marker goes right below the last item that has been read, unless it would be the last item
/// there, and it never goes back up.
pub open spec fn read_marker_updated(
    before: Seq<Arc<TimelineItem>>,
    own_user_id: Seq<char>,
    fully_read_event: Seq<char>,
    after: Seq<Arc<TimelineItem>>,
    up_to_date: bool,
) -> bool {
    match (
        last_index_where(before, read_markers()),
        last_read_index(before, own_user_id, fully_read_event),
    ) {
        (_, None) => after == before && !up_to_date,
        (None, Some(to)) => if to + 1 < before.len() {
            &&& after == before.insert(to + 1, after[to + 1])
            &&& after[to + 1].is_fresh_read_marker()
            &&& up_to_date
        } else {
            after == before && !up_to_date
        },
        (Some(from), Some(to)) => if from < to && to + 1 < before.len() {
            after == before.remove(from).insert(to, before[from]) && up_to_date
        } else if from < to || from + 1 == before.len() {
            after == before.remove(from) && !up_to_date
        } else {
            after == before && up_to_date
        },
    }
}

/// The updates by which the read marker gets where it belongs: it is put in, moved or taken out, and
/// nothing else is touched.
pub open spec fn read_marker_updates(
    before: Seq<Arc<TimelineItem>>,
    own_user_id: Seq<char>,
    fully_read_event: Seq<char>,
    after: Seq<Arc<TimelineItem>>,
) -> Seq<VectorUpdate> {
    match (
        last_index_where(before, read_markers()),
        last_read_index(before, own_user_id, fully_read_event),
    ) {
        (_, None) => Seq::empty(),
        (None, Some(to)) => if to + 1 < before.len() {
            seq![VectorUpdate::Insert { index: to + 1, inserted: after[to + 1] }]
        } else {
            Seq::empty()
        },
        (Some(from), Some(to)) => if from < to && to + 1 < before.len() {
            seq![
                VectorUpdate::Remove { from },
                VectorUpdate::Insert { index: to, inserted: before[from] },
            ]
        } else if from < to || from + 1 == before.len() {
            seq![VectorUpdate::Remove { from }]
        } else {
            Seq::empty()
        },
    }
}

/// Tells where the last match is from what stands there and after it.
pub proof fn lemma_last_index_where(
    items: Seq<Arc<TimelineItem>>,
    pred: spec_fn(Arc<TimelineItem>) -> bool,
)
    ensures
        match last_index_where(items, pred) {
            Some(index) => {
                &&& 0 <= index < items.len()
                &&& pred(items[index])
                &&& forall|i: int| index < i < items.len() ==> !pred(#[trigger] items[i])
            },
            None => forall|i: int| 0 <= i < items.len() ==> !pred(#[trigger] items[i]),
        },
    decreases items.len(),
{
    if items.len() > 0 && !pred(items.last()) {
        let rest = items.drop_last();
        lemma_last_index_where(rest, pred);
        assert forall|i: int|
            (match last_index_where(rest, pred) {
                Some(index) => index,
                None => -1,
            }) < i < items.len() implies !pred(#[trigger] items[i]) by {
            if i < rest.len() {
                assert(rest[i] == items[i]);
            }
        }
        if let Some(index) = last_index_where(rest, pred) {
            assert(rest[index] == items[index]);
        }
    }
}

/// Tells where the first match is from what stands there and before it.
pub proof fn lemma_first_index_where(
    items: Seq<Arc<TimelineItem>>,
    from: int,
    pred: spec_fn(Arc<TimelineItem>) -> bool,
)
    requires
        0 <= from,
    ensures
        match first_index_where(items, from, pred) {
            Some(index) => {
                &&& from <= index < items.len()
                &&& pred(items[index])
                &&& forall|i: int| from <= i < index ==> !pred(#[trigger] items[i])
            },
            None => forall|i: int| from <= i < items.len() ==> !pred(#[trigger] items[i]),
        },
    decreases items.len() - from,
{
    if from < items.len() && !pred(items[from]) {
        lemma_first_index_where(items, from + 1, pred);
    }
}

/// Finds the last read marker.
fn rposition_read_marker(items: &ObservableVectorTransaction<'_, Arc<TimelineItem>>) -> (res:
    Option<usize>)
    ensures
        last_index_where(observable::pending_items(*items), read_markers()) == (match res {
            Some(index) => Some(index as int),
            None => None,
        }),
{
    let ghost all = observable::pending_items(*items);
    let ghost pred = read_markers();
    let mut end: usize = observable::len(items);
    while end > 0
        invariant
            all == observable::pending_items(*items),
            pred == read_markers(),
            end <= all.len(),
            forall|i: int| end <= i < all.len() ==> !pred(#[trigger] all[i]),
        decreases end,
    {
        end = end - 1;
        if observable::item_at(items, end).is_read_marker() {
            proof {
                lemma_last_index_where(all, pred);
                assert(pred(all[end as int]));
            }
            return Some(end);
        }
    }
    proof {
        lemma_last_index_where(all, pred);
    }
    None
}

/// Finds the last item that is the event with the given id.
pub fn rfind_event_by_id(
    items: &ObservableVectorTransaction<'_, Arc<TimelineItem>>,
    event_id: &String,
) -> (res: Option<usize>)
    ensures
        last_index_where(observable::pending_items(*items), event_with_id(event_id@)) == (
        match res {
            Some(index) => Some(index as int),
            None => None,
        }),
{
    let ghost all = observable::pending_items(*items);
    let ghost pred = event_with_id(event_id@);
    let mut end: usize = observable::len(items);
    while end > 0
        invariant
            all == observable::pending_items(*items),
            pred == event_with_id(event_id@),
            end <= all.len(),
            forall|i: int| end <= i < all.len() ==> !pred(#[trigger] all[i]),
        decreases end,
    {
        end = end - 1;
        let found = match observable::item_at(items, end).as_event() {
            Some(event) => event.has_event_id(event_id),
            None => false,
        };
        if found {
            proof {
                lemma_last_index_where(all, pred);
                assert(pred(all[end as int]));
            }
            return Some(end);
        }
    }
    proof {
        lemma_last_index_where(all, pred);
    }
    None
}

/// Finds the first event that somebody else sent, from the given position on.
fn position_event_of_other(
    items: &ObservableVectorTransaction<'_, Arc<TimelineItem>>,
    from: usize,
    own_user_id: &String,
) -> (res: Option<usize>)
    ensures
        first_index_where(
            observable::pending_items(*items),
            from as int,
            events_of_others(own_user_id@),
        ) == (match res {
            Some(index) => Some(index as int),
            None => None,
        }),
{
    let ghost all = observable::pending_items(*items);
    let ghost pred = events_of_others(own_user_id@);
    let count: usize = observable::len(items);
    let mut index: usize = from;
    while index < count
        invariant
            all == observable::pending_items(*items),
            pred == events_of_others(own_user_id@),
            count == all.len(),
            from <= index,
            forall|i: int| from <= i < index && i < all.len() ==> !pred(#[trigger] all[i]),
        decreases count - index,
    {
        let found = match observable::item_at(items, index).as_event() {
            Some(event) => event.sender != *own_user_id,
            None => false,
        };
        if found {
            proof {
                lemma_first_index_where(all, from as int, pred);
                assert(pred(all[index as int]));
            }
            return Some(index);
        }
        index = index + 1;
    }
    proof {
        lemma_first_index_where(all, from as int, pred);
    }
    None
}

/// A single removal is all that was done.
proof fn lemma_removal_made<'a>(
    before: ObservableVectorTransaction<'a, Arc<TimelineItem>>,
    from: int,
    after: ObservableVectorTransaction<'a, Arc<TimelineItem>>,
)
    requires
        observable::update_made(before, VectorUpdate::Remove { from }, after),
    ensures
        observable::updates_made(before, seq![VectorUpdate::Remove { from }], after),
{
    observable::lemma_no_updates(before);
    observable::lemma_one_more_update(
        before,
        Seq::empty(),
        before,
        VectorUpdate::Remove { from },
        after,
    );
    assert(Seq::empty().push(VectorUpdate::Remove { from }) == seq![VectorUpdate::Remove { from }]);
}

/// Puts the read marker where it belongs, given the fully-read event. Tells whether the marker is
/// among the items afterwards, and up to date.
pub(crate) fn update_read_marker(
    items: &mut ObservableVectorTransaction<'_, Arc<TimelineItem>>,
    own_user_id: &String,
    fully_read_event: &String,
) -> (up_to_date: bool)
    ensures
        read_marker_updated(
            observable::pending_items(*old(items)),
            own_user_id@,
            fully_read_event@,
            observable::pending_items(*final(items)),
            up_to_date,
        ),
        observable::same_vector(*old(items), *final(items)),
        observable::updates_made(
            *old(items),
            read_marker_updates(
                observable::pending_items(*old(items)),
                own_user_id@,
                fully_read_event@,
                observable::pending_items(*final(items)),
            ),
            *final(items),
        ),
{
    let ghost before = observable::pending_items(*items);
    let ghost start = *items;
    proof {
        observable::lemma_no_updates(start);
        lemma_last_index_where(before, read_markers());
        lemma_last_index_where(before, event_with_id(fully_read_event@));
    }
    let count: usize = observable::len(items);
    let read_marker_idx: Option<usize> = rposition_read_marker(items);

    let to: usize = match rfind_event_by_id(items, fully_read_event) {
        // The fully-read event is not in the timeline: try again with the next event.
        None => return false,
        Some(event) => {
            proof {
                lemma_first_index_where(before, event + 1, events_of_others(own_user_id@));
            }
            match position_event_of_other(items, event + 1, own_user_id) {
                // The first event that is not ours: everything above it has been read.
                Some(unread) => unread - 1,
                // There is none, so the whole timeline has been read.
                None => count - 1,
            }
        },
    };
    assert(last_read_index(before, own_user_id@, fully_read_event@) == Some(to as int));

    match read_marker_idx {
        None => {
            // A marker at the end would mark nothing.
            if to + 1 < count {
                let marker = TimelineItem::read_marker();
                let ghost insertion = VectorUpdate::Insert { index: to + 1, inserted: marker };
                observable::insert(items, to + 1, marker);
                proof {
                    observable::lemma_one_more_update(
                        start,
                        Seq::empty(),
                        start,
                        insertion,
                        *items,
                    );
                    assert(Seq::empty().push(insertion) == seq![insertion]);
                }
                true
            } else {
                false
            }
        },
        Some(from) => {
            if from >= to {
                // The marker does not go back up.
                if from + 1 == count {
                    // What stood below it is gone.
                    let _ = observable::remove(items, from);
                    proof {
                        lemma_removal_made(start, from as int, *items);
                    }
                    false
                } else {
                    true
                }
            } else {
                let marker = observable::remove(items, from);
                let ghost between = *items;
                proof {
                    lemma_removal_made(start, from as int, between);
                }
                if to + 1 < count {
                    // All that stood below the marker has moved up by one.
                    let ghost insertion = VectorUpdate::Insert {
                        index: to as int,
                        inserted: marker,
                    };
                    observable::insert(items, to, marker);
                    proof {
                        let removal = VectorUpdate::Remove { from: from as int };
                        observable::lemma_one_more_update(
                            start,
                            seq![removal],
                            between,
                            insertion,
                            *items,
                        );
                        assert(seq![removal].push(insertion) == seq![removal, insertion]);
                    }
                    true
                } else {
                    false
                }
            }
        },
    }
}

} // verus!
