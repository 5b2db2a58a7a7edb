//! Remote events that are added to a timeline together.
use vstd::prelude::*;

use crate::event_context::{HandleEventResult, HandleManyEventsResult};
use crate::item::TimelineUniqueId;
use crate::position::TimelineItemPosition;
use crate::remote_events::EventMetaView;
use crate::transaction::TimelineStateTransaction;

verus! {

use crate::duplicates::{duplicates, id_texts, law_duplicates_are_found, unique_ids};
use crate::event_context::{added_in, recorded, updated_in};
use crate::remote_events::all_added_or_updated;

/// Remote events that are being added to one end of a timeline, one after the other.
///
/// When they are prepended, events should be ordered in *reverse* topological order, that is, the
/// first one is the most recent.
pub struct RemoteEventsBatch<'a, H> {
    /// The transaction in which the events are added.
    pub txn: TimelineStateTransaction<'a, H>,
    /// Where each event goes.
    pub position: TimelineItemPosition,
    /// What became of the events so far.
    pub total: HandleManyEventsResult,
}

impl<'a, H> RemoteEventsBatch<'a, H> {
    /// Takes note of what became of one more event. The counts must not go over the top.
    pub fn event_handled(&mut self, result: HandleEventResult)
        requires
            result.item_added ==> old(self).total.items_added < u64::MAX,
            old(self).total.items_updated + result.items_updated <= u64::MAX,
        ensures
            recorded(old(self).total, result, final(self).total),
            final(self).txn == old(self).txn,
            final(self).position == old(self).position,
    {
        self.total.record(result);
    }

    /// Makes the changes take effect if no two items share an identifier. If some do, nothing is
    /// done: the batch comes back with the identifiers that are shared.
    pub fn checked_commit(self) -> (res: Result<
        HandleManyEventsResult,
        (Self, Vec<TimelineUniqueId>),
    >)
        ensures
            match res {
                Ok(total) => {
                    &&& unique_ids(self.txn.pending_items()).no_duplicates()
                    &&& total == self.total
                    &&& *final(self.txn.previous_meta) == self.txn.meta
                    &&& self.txn.items_settled()
                },
                Err((batch, ids)) => {
                    &&& !unique_ids(self.txn.pending_items()).no_duplicates()
                    &&& batch == self
                    &&& id_texts(ids@) == duplicates(unique_ids(self.txn.pending_items()))
                },
            },
    {
        let ids: Vec<TimelineUniqueId> = self.txn.check_no_unused_unique_ids();
        proof {
            law_duplicates_are_found(unique_ids(self.txn.pending_items()));
            assert(id_texts(ids@).len() == ids@.len());
        }
        if ids.len() == 0 {
            Ok(self.commit())
        } else {
            Err((self, ids))
        }
    }

    /// Makes the changes take effect and tells what became of the events.
    pub fn commit(self) -> (total: HandleManyEventsResult)
        ensures
            total == self.total,
            *final(self.txn.previous_meta) == self.txn.meta,
            self.txn.items_settled(),
    {
        let RemoteEventsBatch { txn, position: _, total } = self;
        txn.commit();
        total
    }
}

/// Two batches at the same end leave the same remote events as one batch with the events of both,
/// and the totals of the two make up its total. No more items are added than there are events, and
/// nothing comes of a batch without events.
pub proof fn law_two_batches_are_one(
    events: Seq<EventMetaView>,
    first: Seq<EventMetaView>,
    second: Seq<EventMetaView>,
    position: TimelineItemPosition,
    first_results: Seq<HandleEventResult>,
    second_results: Seq<HandleEventResult>,
)
    ensures
        all_added_or_updated(events, first + second, position) == all_added_or_updated(
            all_added_or_updated(events, first, position),
            second,
            position,
        ),
        added_in(first_results + second_results) == added_in(first_results) + added_in(
            second_results,
        ),
        updated_in(first_results + second_results) == updated_in(first_results) + updated_in(
            second_results,
        ),
        0 <= added_in(first_results) <= first_results.len(),
        all_added_or_updated(events, Seq::empty(), position) == events,
        added_in(Seq::empty()) == 0,
        updated_in(Seq::empty()) == 0,
{
    lemma_events_of_two_batches(events, first, second, position);
    lemma_results_of_two_batches(first_results, second_results);
    lemma_added_at_most(first_results);
}

/// Events that are added in two parts are added as a whole.
proof fn lemma_events_of_two_batches(
    events: Seq<EventMetaView>,
    first: Seq<EventMetaView>,
    second: Seq<EventMetaView>,
    position: TimelineItemPosition,
)
    ensures
        all_added_or_updated(events, first + second, position) == all_added_or_updated(
            all_added_or_updated(events, first, position),
            second,
            position,
        ),
    decreases second.len(),
{
    if second.len() == 0 {
        assert(first + second == first);
    } else {
        assert((first + second).drop_last() == first + second.drop_last());
        assert((first + second).last() == second.last());
        lemma_events_of_two_batches(events, first, second.drop_last(), position);
    }
}

/// What became of two parts makes up what became of the whole.
proof fn lemma_results_of_two_batches(
    first: Seq<HandleEventResult>,
    second: Seq<HandleEventResult>,
)
    ensures
        added_in(first + second) == added_in(first) + added_in(second),
        updated_in(first + second) == updated_in(first) + updated_in(second),
    decreases second.len(),
{
    if second.len() == 0 {
        assert(first + second == first);
    } else {
        assert((first + second).drop_last() == first + second.drop_last());
        assert((first + second).last() == second.last());
        lemma_results_of_two_batches(first, second.drop_last());
    }
}

/// Each event adds one item at most.
proof fn lemma_added_at_most(results: Seq<HandleEventResult>)
    ensures
        0 <= added_in(results) <= results.len(),
    decreases results.len(),
{
    if results.len() > 0 {
        lemma_added_at_most(results.drop_last());
    }
}

} // verus!
