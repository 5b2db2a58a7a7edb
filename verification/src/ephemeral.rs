//! Ephemeral events, of which a timeline follows the read receipts.
use vstd::prelude::*;

use crate::raw_event::{deserialize_ephemeral_event, EphemeralEvent, EphemeralEventView, RawEvent};

verus! {

use crate::pending::texts;
use crate::raw_event::{ephemeral_event_in, ephemeral_view};

/// What was found in each of a list of events, as values to reason about.
pub open spec fn ephemeral_views(events: Seq<Option<EphemeralEvent>>) -> Seq<
    Option<EphemeralEventView>,
> {
    events.map_values(|event: Option<EphemeralEvent>| ephemeral_view(event))
}

/// What `ruma` finds in each of a list of events.
pub open spec fn ephemeral_events_in(events: Seq<RawEvent>) -> Seq<Option<EphemeralEventView>> {
    events.map_values(|event: RawEvent| ephemeral_event_in(event.json@))
}

/// The contents of the read receipt events among others, in order. What was not understood is
/// passed over, as is any other event.
pub open spec fn receipt_contents_in(events: Seq<Option<EphemeralEventView>>) -> Seq<Seq<char>>
    decreases events.len(),
{
    if events.len() == 0 {
        Seq::empty()
    } else {
        let earlier = receipt_contents_in(events.drop_last());
        match events.last() {
            Some(EphemeralEventView::Receipt(content)) => earlier.push(content),
            Some(EphemeralEventView::Other) => earlier,
            None => earlier,
        }
    }
}

/// Picks the contents of the read receipt events.
pub fn receipt_contents(events: Vec<Option<EphemeralEvent>>) -> (contents: Vec<String>)
    ensures
        texts(contents@) == receipt_contents_in(ephemeral_views(events@)),
{
    let mut contents: Vec<String> = Vec::new();
    let ghost views = ephemeral_views(events@);
    assert(texts(contents@) == receipt_contents_in(views.take(0)));
    let mut index: usize = 0;
    while index < events.len()
        invariant
            index <= events@.len(),
            views == ephemeral_views(events@),
            texts(contents@) == receipt_contents_in(views.take(index as int)),
        decreases events@.len() - index,
    {
        assert(views.take(index + 1).drop_last() == views.take(index as int));
        assert(views.take(index + 1).last() == ephemeral_view(events@[index as int]));
        match &events[index] {
            Some(EphemeralEvent::Receipt(content)) => {
                let ghost earlier = contents@;
                contents.push(content.clone());
                assert(texts(contents@) == texts(earlier).push(content@));
            },
            Some(EphemeralEvent::Other) => {},
            None => {},
        }
        index = index + 1;
    }
    assert(views.take(index as int) == views);
    contents
}

/// Looks for read receipts in a list of ephemeral events.
pub fn read_receipts_in(events: &Vec<RawEvent>) -> (contents: Vec<String>)
    ensures
        texts(contents@) == receipt_contents_in(ephemeral_events_in(events@)),
{
    let mut found: Vec<Option<EphemeralEvent>> = Vec::new();
    let mut index: usize = 0;
    while index < events.len()
        invariant
            index <= events@.len(),
            ephemeral_views(found@) == ephemeral_events_in(events@).take(index as int),
        decreases events@.len() - index,
    {
        let ghost earlier = found@;
        let event: Option<EphemeralEvent> = deserialize_ephemeral_event(&events[index]);
        let ghost view = ephemeral_view(event);
        found.push(event);
        assert(ephemeral_views(found@) == ephemeral_views(earlier).push(view));
        assert(ephemeral_events_in(events@).take(index + 1) == ephemeral_events_in(events@).take(
            index as int,
        ).push(view));
        index = index + 1;
    }
    assert(ephemeral_events_in(events@).take(index as int) == ephemeral_events_in(events@));
    receipt_contents(found)
}

/// Read receipts that are received in two batches are the same as if they had come in one.
pub proof fn law_receipts_of_batches(
    first: Seq<Option<EphemeralEventView>>,
    second: Seq<Option<EphemeralEventView>>,
)
    ensures
        receipt_contents_in(first + second) == receipt_contents_in(first) + receipt_contents_in(
            second,
        ),
    decreases second.len(),
{
    if second.len() == 0 {
        assert(first + second == first);
        assert(receipt_contents_in(first) + receipt_contents_in(second) == receipt_contents_in(
            first,
        ));
    } else {
        assert((first + second).drop_last() == first + second.drop_last());
        assert((first + second).last() == second.last());
        law_receipts_of_batches(first, second.drop_last());
        assert(receipt_contents_in(first + second) == receipt_contents_in(first)
            + receipt_contents_in(second));
    }
}

/// Tells read receipt events from all else.
pub open spec fn receipts() -> spec_fn(Option<EphemeralEventView>) -> bool {
    |event: Option<EphemeralEventView>| event matches Some(EphemeralEventView::Receipt(_))
}

/// Events that are no read receipts, and those that were not understood, make no difference.
pub proof fn law_only_receipts_count(events: Seq<Option<EphemeralEventView>>)
    ensures
        receipt_contents_in(events.filter(receipts())) == receipt_contents_in(events),
    decreases events.len(),
{
    reveal(Seq::filter);
    if events.len() > 0 {
        let earlier = events.drop_last();
        law_only_receipts_count(earlier);
        if receipts()(events.last()) {
            assert(events.filter(receipts()).drop_last() == earlier.filter(receipts()));
        }
    }
}

/// Of read receipt events the contents come back one by one, in order, and each event is read as
/// such.
pub proof fn law_receipts_come_in_order(
    events: Seq<Option<EphemeralEventView>>,
    contents: Seq<Seq<char>>,
    raw_events: Seq<RawEvent>,
)
    requires
        events.len() == contents.len(),
        forall|i: int|
            0 <= i < events.len() ==> #[trigger] events[i] == Some(
                EphemeralEventView::Receipt(contents[i]),
            ),
    ensures
        receipt_contents_in(events) == contents,
        ephemeral_events_in(raw_events).len() == raw_events.len(),
        forall|i: int|
            0 <= i < raw_events.len() ==> #[trigger] ephemeral_events_in(raw_events)[i]
                == ephemeral_event_in(raw_events[i].json@),
    decreases events.len(),
{
    if events.len() > 0 {
        law_receipts_come_in_order(events.drop_last(), contents.drop_last(), raw_events);
        assert(events.last() == Some(EphemeralEventView::Receipt(contents.last())));
        assert(contents.drop_last().push(contents.last()) == contents);
    }
}

} // verus!
