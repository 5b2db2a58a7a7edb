//! The state of a timeline.
use std::sync::Arc;

use eyeball_im::ObservableVector;
use vstd::prelude::*;

use crate::batch::RemoteEventsBatch;
use crate::ephemeral::read_receipts_in;
use crate::event_context::{HandleManyEventsResult, TimelineFocusKind};
use crate::item::TimelineItem;
use crate::metadata::TimelineMetadata;
use crate::observable;
use crate::observable::{CommittedBatch, VectorUpdate};
use crate::position::{TimelineItemPosition, TimelineNewItemPosition};
use crate::raw_event::RawEvent;
use crate::transaction::TimelineStateTransaction;

verus! {

use crate::clearing::{clear_updates, cleared_items, law_clear_leaves_local_echoes_only};
use crate::ephemeral::{ephemeral_events_in, receipt_contents_in};
use crate::metadata::{TimelineMetadataView, MAX_NUM_STASHED_PENDING_EDITS};
use crate::pending::{texts, PendingPollEventsView};
use crate::reactions::ReactionsView;
use crate::receipts::text_of;
use crate::remote_events::{all_added_or_updated, EventMetaView};
use crate::ring_buffer::RingBufferView;
use crate::shared::first_value;
use crate::transaction::{
    encryption_updated, event_sets, fully_read_event_set, fully_read_event_updates,
};
use vstd::std_specs::convert::FromSpec;

/// How many updates may wait for a slow subscriber. Sixteen, the default, is too few for a sync
/// with twenty events.
pub const UPDATE_BUFFER_CAPACITY: usize = 32;

/// The state of a timeline.
pub struct TimelineState<H> {
    pub items: ObservableVector<Arc<TimelineItem>>,
    pub meta: TimelineMetadata<H>,
    /// The kind of focus of this timeline.
    pub timeline_focus: TimelineFocusKind,
}

impl<'a, H> TimelineStateTransaction<'a, H> {
    /// This transaction is on the given timeline, whose metadata are as they were, and decides
    /// which items the timeline has afterwards and what its subscribers are sent.
    pub open spec fn is_on(&self, before: &TimelineState<H>, after: &TimelineState<H>) -> bool {
        &&& self.timeline_focus == before.timeline_focus
        &&& *self.previous_meta == before.meta
        &&& observable::started_items(self.items) == before.timeline_items()
        &&& observable::started_batches(self.items) == before.committed_batches()
        &&& after.timeline_items() == observable::settled_items(self.items)
        &&& after.committed_batches() == observable::settled_batches(self.items)
        &&& after.same_frame(before)
    }
}

/// A transaction has been started on a timeline: it sees what the timeline holds.
pub open spec fn transaction_started<'a, H>(
    before: &TimelineState<H>,
    txn: &TimelineStateTransaction<'a, H>,
    after: &TimelineState<H>,
) -> bool {
    &&& txn.pending_items() == before.timeline_items()
    &&& txn.meta@ == before.meta@
    &&& before.wf() ==> txn.meta.wf()
    &&& txn.pending_batch() == (CommittedBatch { updates: Seq::empty(), went_unheard: false })
    &&& txn.is_on(before, after)
}

impl<H> TimelineState<H> {
    /// The items of the timeline, in order.
    pub open spec fn timeline_items(&self) -> Seq<Arc<TimelineItem>> {
        observable::observed_items(self.items)
    }

    /// What subscribers have been sent by transactions on the timeline, in order.
    pub open spec fn committed_batches(&self) -> Seq<CommittedBatch> {
        observable::committed_batches(self.items)
    }

    /// Since the given state, subscribers have been sent one batch with exactly the given updates,
    /// but for those that were made while nobody was subscribed.
    pub open spec fn has_sent(&self, updates: Seq<VectorUpdate>, since: &Self) -> bool {
        let batch = self.committed_batches().last();
        &&& self.committed_batches() == since.committed_batches().push(batch)
        &&& batch.tells(updates)
    }

    /// The metadata is well-formed.
    pub open spec fn wf(&self) -> bool {
        self.meta.wf()
    }

    /// Both have the same focus and the same buffer for updates.
    pub open spec fn same_frame(&self, other: &Self) -> bool {
        &&& self.timeline_focus == other.timeline_focus
        &&& observable::update_capacity(self.items) == observable::update_capacity(other.items)
    }

    /// Creates an empty timeline.
    pub fn new(
        timeline_focus: TimelineFocusKind,
        own_user_id: String,
        room_version: String,
        internal_id_prefix: Option<String>,
        unable_to_decrypt_hook: Option<Arc<H>>,
        is_room_encrypted: Option<bool>,
    ) -> (state: Self)
        ensures
            state.wf(),
            state.timeline_items() == Seq::<Arc<TimelineItem>>::empty(),
            observable::update_capacity(state.items) == UPDATE_BUFFER_CAPACITY,
            state.timeline_focus == timeline_focus,
            state.meta@ == (TimelineMetadataView {
                internal_id_prefix: text_of(internal_id_prefix),
                unable_to_decrypt_hook,
                is_room_encrypted: state.meta.is_room_encrypted,
                room_version: room_version@,
                own_user_id: own_user_id@,
                next_internal_id: 0,
                all_remote_events: Seq::empty(),
                reactions: ReactionsView::empty(),
                pending_poll_events: PendingPollEventsView::empty(),
                pending_edits: RingBufferView {
                    values: Seq::empty(),
                    capacity: MAX_NUM_STASHED_PENDING_EDITS,
                },
                fully_read_event: None,
                has_up_to_date_read_marker_item: true,
                read_receipts: Seq::empty(),
            }),
            first_value(*state.meta.is_room_encrypted) == is_room_encrypted,
    {
        TimelineState {
            items: observable::with_capacity(UPDATE_BUFFER_CAPACITY),
            meta: TimelineMetadata::new(
                own_user_id,
                room_version,
                internal_id_prefix,
                unable_to_decrypt_hook,
                is_room_encrypted,
            ),
            timeline_focus,
        }
    }

    /// Marks the given event as fully read, using the read marker received from sync.
    pub fn handle_fully_read_marker(&mut self, fully_read_event_id: String)
        ensures
            fully_read_event_set(
                old(self).timeline_items(),
                old(self).meta@,
                fully_read_event_id@,
                final(self).timeline_items(),
                final(self).meta@,
            ),
            final(self).has_sent(
                fully_read_event_updates(
                    old(self).timeline_items(),
                    old(self).meta@,
                    fully_read_event_id@,
                    final(self).timeline_items(),
                ),
                old(self),
            ),
            old(self).wf() ==> final(self).wf(),
            final(self).same_frame(old(self)),
    {
        let mut txn = self.transaction();
        txn.set_fully_read_event(fully_read_event_id);
        txn.commit();
    }

    /// Removes all items but local echoes, and forgets all that is known of events.
    pub fn clear(&mut self)
        ensures
            final(self).timeline_items() == cleared_items(old(self).timeline_items()),
            final(self).meta@ == old(self).meta@.cleared(),
            final(self).has_sent(clear_updates(old(self).timeline_items()), old(self)),
            old(self).wf() ==> final(self).wf(),
            final(self).same_frame(old(self)),
    {
        let mut txn = self.transaction();
        txn.clear();
        txn.commit();
    }

    /// Starts adding the given number of remote events at the given end of the timeline, unless
    /// there are none.
    pub fn add_remote_events_at(
        &mut self,
        event_count: usize,
        position: TimelineNewItemPosition,
    ) -> (batch: Option<RemoteEventsBatch<'_, H>>)
        ensures
            match batch {
                Some(batch) => {
                    &&& event_count > 0
                    &&& transaction_started(old(self), &batch.txn, final(self))
                    &&& final(self).meta == *final(batch.txn.previous_meta)
                    &&& batch.position == TimelineItemPosition::from_spec(position)
                    &&& batch.total == (HandleManyEventsResult { items_added: 0, items_updated: 0 })
                },
                None => event_count == 0 && *final(self) == *old(self),
            },
    {
        if event_count == 0 {
            return None;
        }
        Some(
            RemoteEventsBatch {
                txn: self.transaction(),
                position: TimelineItemPosition::from(position),
                total: HandleManyEventsResult::default(),
            },
        )
    }

    /// Starts putting remote events in the place of those that the timeline has, at the given end
    /// of what is left of it.
    pub fn replace_with_remote_events(&mut self, position: TimelineNewItemPosition) -> (batch:
        RemoteEventsBatch<'_, H>)
        ensures
            batch.txn.pending_items() == cleared_items(old(self).timeline_items()),
            batch.txn.meta@ == old(self).meta@.cleared(),
            old(self).wf() ==> batch.txn.meta.wf(),
            batch.txn.is_on(old(self), final(self)),
            batch.txn.pending_batch().tells(clear_updates(old(self).timeline_items())),
            final(self).meta == *final(batch.txn.previous_meta),
            batch.position == TimelineItemPosition::from_spec(position),
            batch.total == (HandleManyEventsResult { items_added: 0, items_updated: 0 }),
    {
        let mut txn = self.transaction();
        txn.clear();
        RemoteEventsBatch {
            txn,
            position: TimelineItemPosition::from(position),
            total: HandleManyEventsResult::default(),
        }
    }

    /// Starts handling ephemeral events, unless there are none. With the transaction come the
    /// contents of the read receipt events, which are to be handled in it.
    pub fn handle_ephemeral_events(&mut self, events: &Vec<RawEvent>) -> (work: Option<
        (TimelineStateTransaction<'_, H>, Vec<String>),
    >)
        ensures
            match work {
                Some((txn, contents)) => {
                    &&& events@.len() > 0
                    &&& transaction_started(old(self), &txn, final(self))
                    &&& final(self).meta == *final(txn.previous_meta)
                    &&& texts(contents@) == receipt_contents_in(ephemeral_events_in(events@))
                },
                None => events@.len() == 0 && *final(self) == *old(self),
            },
    {
        if events.len() == 0 {
            return None;
        }
        let contents = read_receipts_in(events);
        Some((self.transaction(), contents))
    }

    /// Gives all events the encryption flag that was read from the metadata. When this is done, all
    /// events of the timeline are emitted again with the updated encryption value.
    pub fn update_all_events_is_room_encrypted(&mut self, is_room_encrypted: Option<bool>)
        ensures
            encryption_updated(
                old(self).timeline_items(),
                is_room_encrypted,
                final(self).timeline_items(),
            ),
            final(self).has_sent(
                event_sets(final(self).timeline_items(), final(self).timeline_items().len() as int),
                old(self),
            ),
            final(self).meta@ == old(self).meta@,
            old(self).wf() ==> final(self).wf(),
            final(self).same_frame(old(self)),
    {
        let mut txn = self.transaction();
        txn.update_all_events_is_room_encrypted(is_room_encrypted);
        txn.commit();
    }

    /// Starts a transaction. What is done through it takes effect when it is committed, and not at
    /// all if it is discarded.
    pub fn transaction(&mut self) -> (txn: TimelineStateTransaction<'_, H>)
        ensures
            transaction_started(old(self), &txn, final(self)),
            final(self).meta == *final(txn.previous_meta),
    {
        let items = observable::transaction(&mut self.items);
        let meta = self.meta.clone();
        TimelineStateTransaction {
            items,
            previous_meta: &mut self.meta,
            meta,
            timeline_focus: self.timeline_focus,
        }
    }
}

/// A transaction that is discarded leaves the timeline as it was, whatever was done in it, and
/// subscribers are sent nothing.
///
/// `begun` is the transaction when it was started, and `ended` when it is discarded.
pub proof fn law_discarded_transaction_changes_nothing<'a, H>(
    before: &TimelineState<H>,
    begun: &TimelineStateTransaction<'a, H>,
    ended: &TimelineStateTransaction<'a, H>,
    after: &TimelineState<H>,
)
    requires
        begun.is_on(before, after),
        after.meta == *final(begun.previous_meta),
        ended.same_timeline(begun),
        *final(ended.previous_meta) == *ended.previous_meta,
        ended.items_left(),
    ensures
        after.timeline_items() == before.timeline_items(),
        after.committed_batches() == before.committed_batches(),
        after.meta == before.meta,
        after.same_frame(before),
{
}

/// A transaction that is committed leaves the timeline with the items and the metadata that the
/// transaction had, and subscribers are sent its updates as one batch.
pub proof fn law_committed_transaction_takes_effect<'a, H>(
    before: &TimelineState<H>,
    begun: &TimelineStateTransaction<'a, H>,
    ended: &TimelineStateTransaction<'a, H>,
    after: &TimelineState<H>,
)
    requires
        begun.is_on(before, after),
        after.meta == *final(begun.previous_meta),
        ended.same_timeline(begun),
        *final(ended.previous_meta) == ended.meta,
        ended.items_settled(),
    ensures
        after.timeline_items() == ended.pending_items(),
        after.committed_batches() == before.committed_batches().push(ended.pending_batch()),
        after.meta == ended.meta,
        after.same_frame(before),
{
}

/// Once a timeline has been replaced, nothing is left of the remote events it had: those that are
/// added then are all that is known, as in a new timeline. Among the items that are left there is no
/// remote event and no read marker.
pub proof fn law_replacement_forgets_remote_events<H>(
    items: Seq<Arc<TimelineItem>>,
    metadata: TimelineMetadataView<H>,
    metas: Seq<EventMetaView>,
    position: TimelineItemPosition,
)
    ensures
        all_added_or_updated(metadata.cleared().all_remote_events, metas, position)
            == all_added_or_updated(Seq::empty(), metas, position),
        metas.len() == 0 ==> all_added_or_updated(
            metadata.cleared().all_remote_events,
            metas,
            position,
        ).len() == 0,
        forall|i: int|
            0 <= i < cleared_items(items).len() ==> !(#[trigger] cleared_items(
                items,
            )[i]).is_remote_event() && !cleared_items(items)[i].is_read_marker(),
{
    law_clear_leaves_local_echoes_only(items);
}

} // verus!
