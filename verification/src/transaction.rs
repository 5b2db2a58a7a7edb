//! Changes to a timeline that take effect together.
use std::sync::Arc;

use eyeball_im::ObservableVectorTransaction;
use vstd::prelude::*;

use crate::clearing::clear_items;
use crate::duplicates::duplicate_ids;
use crate::event_context::{TimelineFocusKind, TimelineSettings};
use crate::item::{EventTimelineItem, TimelineItem, TimelineItemKind, TimelineUniqueId};
use crate::metadata::{TimelineMetadata, TimelineMetadataView};
use crate::observable;
use crate::observable::{CommittedBatch, VectorUpdate};
use crate::position::TimelineItemPosition;
use crate::remote_events::{add_or_update, FullEventMeta};

verus! {

use crate::clearing::{cleared_items, items_clear_made};
use crate::duplicates::{duplicates, id_texts, unique_ids};
use crate::metadata::same_constants;
use crate::observable::replayed;
use crate::read_marker::{read_marker_updated, read_marker_updates};
use crate::remote_events::{added_or_updated, first_position};

/// Changes to a timeline that take effect together, once they are committed.
pub struct TimelineStateTransaction<'a, H> {
    /// A vector transaction over the items themselves. Holds temporary state until committed.
    pub items: ObservableVectorTransaction<'a, Arc<TimelineItem>>,
    /// A clone of the previous meta, that we're operating on during the transaction, and that
    /// will be committed to the previous meta location in [`Self::commit`].
    pub meta: TimelineMetadata<H>,
    /// Pointer to the previous meta, only used during [`Self::commit`].
    pub previous_meta: &'a mut TimelineMetadata<H>,
    /// The kind of focus of this timeline.
    pub timeline_focus: TimelineFocusKind,
}

/// What is to be done about read receipts once an event has been added or updated.
#[derive(Clone, Copy, Debug, PartialEq, Eq, Structural)]
pub enum ReadReceiptWork {
    /// Nothing.
    Nothing,
    /// The event's visibility changed: the read receipts of the previous visible event are to be
    /// updated.
    UpdatePrevious,
    /// The event is at a new place: its read receipts are to be loaded, and then the implicit
    /// receipt of its sender is to be added.
    LoadAndAddImplicit,
}

/// An item with another encryption flag, if it is an event.
pub open spec fn with_encryption(item: TimelineItem, is_encrypted: Option<bool>) -> TimelineItem {
    match item.kind {
        TimelineItemKind::Event(event) => TimelineItem {
            kind: TimelineItemKind::Event(
                EventTimelineItem { is_room_encrypted: is_encrypted, ..event },
            ),
            ..item
        },
        TimelineItemKind::Virtual(_) => item,
    }
}

/// All events have been given the encryption flag, and nothing else has changed.
pub open spec fn encryption_updated(
    before: Seq<Arc<TimelineItem>>,
    is_encrypted: Option<bool>,
    after: Seq<Arc<TimelineItem>>,
) -> bool {
    &&& after.len() == before.len()
    &&& forall|i: int|
        0 <= i < before.len() ==> *(#[trigger] after[i]) == with_encryption(
            *before[i],
            is_encrypted,
        )
}

/// The updates that set each event among the first items anew, from the top.
pub open spec fn event_sets(items: Seq<Arc<TimelineItem>>, count: int) -> Seq<VectorUpdate>
    decreases count,
{
    if count <= 0 {
        Seq::empty()
    } else if items[count - 1].as_event() is Some {
        event_sets(items, count - 1).push(
            VectorUpdate::Replace { at: count - 1, item: items[count - 1] },
        )
    } else {
        event_sets(items, count - 1)
    }
}

/// What is set anew among the first items depends on these items alone.
proof fn lemma_event_sets(
    items: Seq<Arc<TimelineItem>>,
    others: Seq<Arc<TimelineItem>>,
    count: int,
)
    requires
        count <= items.len(),
        count <= others.len(),
        forall|i: int| 0 <= i < count ==> #[trigger] items[i] == others[i],
    ensures
        event_sets(items, count) == event_sets(others, count),
    decreases count,
{
    if count > 0 {
        lemma_event_sets(items, others, count - 1);
        assert(items[count - 1] == others[count - 1]);
    }
}

/// The items and the fully-read event have been brought in line with a new fully-read event.
pub open spec fn fully_read_event_set<H>(
    items_before: Seq<Arc<TimelineItem>>,
    before: TimelineMetadataView<H>,
    fully_read_event: Seq<char>,
    items_after: Seq<Arc<TimelineItem>>,
    after: TimelineMetadataView<H>,
) -> bool {
    if before.fully_read_event == Some(fully_read_event) {
        items_after == items_before && after == before
    } else {
        &&& after == (TimelineMetadataView {
            fully_read_event: Some(fully_read_event),
            has_up_to_date_read_marker_item: after.has_up_to_date_read_marker_item,
            ..before
        })
        &&& read_marker_updated(
            items_before,
            before.own_user_id,
            fully_read_event,
            items_after,
            after.has_up_to_date_read_marker_item,
        )
    }
}

/// The updates that bring the read marker in line with a new fully-read event: none if the event is
/// the one that is known.
pub open spec fn fully_read_event_updates<H>(
    items_before: Seq<Arc<TimelineItem>>,
    before: TimelineMetadataView<H>,
    fully_read_event: Seq<char>,
    items_after: Seq<Arc<TimelineItem>>,
) -> Seq<VectorUpdate> {
    if before.fully_read_event == Some(fully_read_event) {
        Seq::empty()
    } else {
        read_marker_updates(items_before, before.own_user_id, fully_read_event, items_after)
    }
}

/// What is to be done about read receipts, given whether they are followed, where the event went
/// and whether its visibility changed where it stood.
pub open spec fn read_receipt_work(
    track_read_receipts: bool,
    position: TimelineItemPosition,
    visibility_changed: bool,
) -> ReadReceiptWork {
    if !track_read_receipts {
        ReadReceiptWork::Nothing
    } else {
        match position {
            TimelineItemPosition::Start { .. } | TimelineItemPosition::End { .. } => {
                ReadReceiptWork::LoadAndAddImplicit
            },
            TimelineItemPosition::UpdateDecrypted { .. } => if visibility_changed {
                ReadReceiptWork::UpdatePrevious
            } else {
                ReadReceiptWork::Nothing
            },
        }
    }
}

impl<'a, H> TimelineStateTransaction<'a, H> {
    /// The items as this transaction sees them.
    pub open spec fn pending_items(&self) -> Seq<Arc<TimelineItem>> {
        observable::pending_items(self.items)
    }

    /// The updates that this transaction has for subscribers.
    pub open spec fn pending_batch(&self) -> CommittedBatch {
        observable::pending_batch(self.items)
    }

    /// The timeline has the items of this transaction in the end, and its subscribers are sent what
    /// this transaction has for them.
    pub open spec fn items_settled(&self) -> bool {
        &&& observable::settled_items(self.items) == self.pending_items()
        &&& observable::settled_batches(self.items) == observable::started_batches(self.items).push(
            self.pending_batch(),
        )
    }

    /// The timeline has the items in the end that it had when this transaction was started, and its
    /// subscribers are sent nothing.
    pub open spec fn items_left(&self) -> bool {
        &&& observable::settled_items(self.items) == observable::started_items(self.items)
        &&& observable::settled_batches(self.items) == observable::started_batches(self.items)
    }

    /// Both are about the same timeline: what it held and had sent before and in the end, its
    /// metadata and its focus.
    pub open spec fn same_timeline(&self, other: &Self) -> bool {
        &&& observable::same_vector(other.items, self.items)
        &&& self.previous_meta == other.previous_meta
        &&& self.timeline_focus == other.timeline_focus
    }

    /// Tells which identifiers are shared by several items.
    pub fn check_no_unused_unique_ids(&self) -> (ids: Vec<TimelineUniqueId>)
        ensures
            id_texts(ids@) == duplicates(unique_ids(self.pending_items())),
    {
        duplicate_ids(&self.items)
    }

    /// Removes all items but local echoes, and forgets all that is known of events.
    pub fn clear(&mut self)
        ensures
            final(self).pending_items() == cleared_items(old(self).pending_items()),
            final(self).meta@ == old(self).meta@.cleared(),
            old(self).meta.wf() ==> final(self).meta.wf(),
            final(self).same_timeline(old(self)),
            items_clear_made(old(self).items, final(self).items),
    {
        clear_items(&mut self.items);
        self.meta.clear();
    }

    /// Takes note of the fully-read event and brings the read marker in line with it.
    pub fn set_fully_read_event(&mut self, fully_read_event_id: String)
        ensures
            fully_read_event_set(
                old(self).pending_items(),
                old(self).meta@,
                fully_read_event_id@,
                final(self).pending_items(),
                final(self).meta@,
            ),
            old(self).meta.wf() ==> final(self).meta.wf(),
            final(self).same_timeline(old(self)),
            observable::updates_made(
                old(self).items,
                fully_read_event_updates(
                    old(self).pending_items(),
                    old(self).meta@,
                    fully_read_event_id@,
                    final(self).pending_items(),
                ),
                final(self).items,
            ),
    {
        proof {
            observable::lemma_no_updates(self.items);
        }
        // A similar event has been handled already. We can ignore it.
        let known: bool = match &self.meta.fully_read_event {
            Some(id) => *id == fully_read_event_id,
            None => false,
        };
        if known {
            return;
        }
        self.meta.fully_read_event = Some(fully_read_event_id);
        self.meta.update_read_marker(&mut self.items);
    }

    /// Makes the changes take effect.
    pub fn commit(self)
        ensures
            *final(self.previous_meta) == self.meta,
            self.items_settled(),
    {
        let TimelineStateTransaction { items, meta, previous_meta, timeline_focus: _ } = self;
        // Replace the pointer to the previous meta with the new one.
        *previous_meta = meta;
        let _ = observable::commit(items);
    }

    /// Drops the changes: the timeline is left as it was when the transaction was started, and its
    /// subscribers hear of nothing.
    pub fn discard(self)
        ensures
            *final(self.previous_meta) == *old(self.previous_meta),
            self.items_left(),
    {
        let TimelineStateTransaction { items, meta: _, previous_meta: _, timeline_focus: _ } = self;
        let _ = observable::discard(items);
    }

    /// Add or update a remote event in the [`TimelineMetadata::all_remote_events`] collection.
    ///
    /// It returns `true` if the event has been added or updated, `false` otherwise. The latter
    /// happens if the event already exists, i.e. if an existing event is requested to be added: it
    /// is then moved to its new place. Beside that, it tells what is to be done about read
    /// receipts.
    pub fn add_or_update_remote_event(
        &mut self,
        event_meta: &FullEventMeta,
        position: TimelineItemPosition,
        settings: &TimelineSettings,
    ) -> (res: (bool, ReadReceiptWork))
        ensures
            final(self).meta@ == (TimelineMetadataView {
                all_remote_events: added_or_updated(
                    old(self).meta@.all_remote_events,
                    event_meta.spec_base_meta(),
                    position,
                ),
                ..old(self).meta@
            }),
            res.0 == (position is UpdateDecrypted || first_position(
                old(self).meta@.all_remote_events,
                event_meta.event_id@,
            ) is None),
            res.1 == read_receipt_work(
                settings.track_read_receipts,
                position,
                first_position(
                    old(self).meta@.all_remote_events,
                    event_meta.event_id@,
                ) matches Some(index) && old(self).meta@.all_remote_events[index].visible
                    != event_meta.visible,
            ),
            final(self).items == old(self).items,
            old(self).meta.wf() ==> final(self).meta.wf(),
            final(self).same_timeline(old(self)),
    {
        let (known, visibility_changed) = add_or_update(
            &mut self.meta.all_remote_events,
            event_meta,
            position,
        );
        match position {
            TimelineItemPosition::Start { .. } | TimelineItemPosition::End { .. } => {
                let work = if settings.track_read_receipts {
                    ReadReceiptWork::LoadAndAddImplicit
                } else {
                    ReadReceiptWork::Nothing
                };
                (!known, work)
            },
            TimelineItemPosition::UpdateDecrypted { .. } => {
                let work = if visibility_changed && settings.track_read_receipts {
                    ReadReceiptWork::UpdatePrevious
                } else {
                    ReadReceiptWork::Nothing
                };
                (true, work)
            },
        }
    }

    /// This method replaces the `is_room_encrypted` value for all timeline items to its updated
    /// version. Every event is set anew, so that subscribers hear of it.
    pub fn update_all_events_is_room_encrypted(&mut self, is_encrypted: Option<bool>)
        ensures
            encryption_updated(
                old(self).pending_items(),
                is_encrypted,
                final(self).pending_items(),
            ),
            final(self).meta == old(self).meta,
            final(self).same_timeline(old(self)),
            observable::updates_made(
                old(self).items,
                event_sets(final(self).pending_items(), final(self).pending_items().len() as int),
                final(self).items,
            ),
    {
        let ghost before = self.pending_items();
        let count: usize = observable::len(&self.items);
        let mut idx: usize = 0;
        proof {
            observable::lemma_no_updates(self.items);
        }
        while idx < count
            invariant
                count == before.len(),
                idx <= count,
                self.pending_items().len() == count,
                forall|i: int|
                    0 <= i < idx ==> *(#[trigger] self.pending_items()[i]) == with_encryption(
                        *before[i],
                        is_encrypted,
                    ),
                forall|i: int|
                    idx <= i < count ==> #[trigger] self.pending_items()[i] == before[i],
                self.meta == old(self).meta,
                self.same_timeline(old(self)),
                observable::updates_made(
                    old(self).items,
                    event_sets(self.pending_items(), idx as int),
                    self.items,
                ),
            decreases count - idx,
        {
            let ghost now = self.pending_items();
            let item = observable::item_at(&self.items, idx);
            assert(*item == before[idx as int]);
            if let Some(event) = item.as_event() {
                let mut updated: EventTimelineItem = event.clone();
                updated.is_room_encrypted = is_encrypted;
                // Replace the existing item with a new version with the right encryption flag.
                let item = item.with_kind(TimelineItemKind::Event(updated));
                assert(*item == with_encryption(*before[idx as int], is_encrypted));
                let ghost last = self.items;
                let ghost made = event_sets(now, idx as int);
                let ghost update = VectorUpdate::Replace { at: idx as int, item };
                let _ = observable::set(&mut self.items, idx, item);
                proof {
                    observable::lemma_one_more_update(
                        old(self).items,
                        made,
                        last,
                        update,
                        self.items,
                    );
                    lemma_event_sets(now, self.pending_items(), idx as int);
                }
            }
            idx = idx + 1;
        }
    }
}

/// A fully-read event that is received again changes nothing.
pub proof fn law_same_fully_read_event_changes_nothing<H>(
    items: Seq<Arc<TimelineItem>>,
    metadata: TimelineMetadataView<H>,
    fully_read_event: Seq<char>,
    items_once: Seq<Arc<TimelineItem>>,
    once: TimelineMetadataView<H>,
    items_twice: Seq<Arc<TimelineItem>>,
    twice: TimelineMetadataView<H>,
)
    requires
        fully_read_event_set(items, metadata, fully_read_event, items_once, once),
        fully_read_event_set(items_once, once, fully_read_event, items_twice, twice),
    ensures
        items_twice == items_once,
        twice == once,
        once.fully_read_event == Some(fully_read_event),
        fully_read_event_updates(items_once, once, fully_read_event, items_twice).len() == 0,
        same_constants(metadata, once),
        once.next_internal_id == metadata.next_internal_id,
{
}

/// Giving all events an encryption flag keeps their identifiers, and leaves no trace of the flags
/// they had.
pub proof fn law_last_encryption_flag_counts(
    before: Seq<Arc<TimelineItem>>,
    first: Option<bool>,
    once: Seq<Arc<TimelineItem>>,
    second: Option<bool>,
    twice: Seq<Arc<TimelineItem>>,
)
    requires
        encryption_updated(before, first, once),
        encryption_updated(once, second, twice),
    ensures
        encryption_updated(before, second, twice),
        unique_ids(once) == unique_ids(before),
{
    assert forall|i: int| 0 <= i < before.len() implies *(#[trigger] twice[i]) == with_encryption(
        *before[i],
        second,
    ) by {
        assert(*once[i] == with_encryption(*before[i], first));
    }
    assert forall|i: int| 0 <= i < before.len() implies unique_ids(once)[i] == unique_ids(
        before,
    )[i] by {
        assert(*once[i] == with_encryption(*before[i], first));
    }
    assert(unique_ids(once) == unique_ids(before));
}

/// After an update of the encryption flag every event has the flag that was given, whether it is a
/// local echo or not, and is the same otherwise. All other items are as they were.
pub proof fn law_every_event_has_the_encryption_flag(
    before: Seq<Arc<TimelineItem>>,
    is_encrypted: Option<bool>,
    after: Seq<Arc<TimelineItem>>,
)
    requires
        encryption_updated(before, is_encrypted, after),
    ensures
        after.len() == before.len(),
        forall|i: int|
            #![trigger after[i]]
            0 <= i < before.len() ==> match (before[i].kind, after[i].kind) {
                (TimelineItemKind::Event(old_event), TimelineItemKind::Event(event)) => {
                    &&& event.is_room_encrypted == is_encrypted
                    &&& event.sender == old_event.sender
                    &&& event.timestamp == old_event.timestamp
                    &&& event.content == old_event.content
                    &&& event.kind == old_event.kind
                    &&& after[i].internal_id == before[i].internal_id
                },
                (TimelineItemKind::Virtual(_), _) => after[i] == before[i],
                _ => false,
            },
{
    assert forall|i: int| #![trigger after[i]] 0 <= i < before.len() implies *after[i]
        == with_encryption(*before[i], is_encrypted) by {}
}

/// What subscribers are told when events are set anew: each event once, as it stands, from the top.
pub proof fn law_every_event_is_set_once(items: Seq<Arc<TimelineItem>>, count: int)
    requires
        0 <= count <= items.len(),
    ensures
        forall|k: int|
            0 <= k < event_sets(items, count).len() ==> ((#[trigger] event_sets(
                items,
                count,
            )[k]) matches VectorUpdate::Replace { at, item } && 0 <= at < count && items[at].kind
                is Event && item == items[at]),
        forall|k: int, l: int|
            0 <= k < l < event_sets(items, count).len() ==> (#[trigger] event_sets(
                items,
                count,
            )[k])->at < (#[trigger] event_sets(items, count)[l])->at,
        forall|i: int|
            0 <= i < count && (#[trigger] items[i]).kind is Event ==> exists|k: int|
                0 <= k < event_sets(items, count).len() && (#[trigger] event_sets(
                    items,
                    count,
                )[k])->at == i,
        replayed(items, event_sets(items, count)) == items,
    decreases count,
{
    if count > 0 {
        law_every_event_is_set_once(items, count - 1);
        let earlier = event_sets(items, count - 1);
        let sets = event_sets(items, count);
        if items[count - 1].as_event() is Some {
            assert(sets.drop_last() == earlier);
            assert(sets[earlier.len() as int]->at == count - 1);
            assert(items.update(count - 1, items[count - 1]) == items);
            assert forall|i: int| 0 <= i < count && (#[trigger] items[i]).kind is Event implies exists|
                k: int,
            |
                0 <= k < sets.len() && (#[trigger] sets[k])->at == i by {
                if i < count - 1 {
                    let k = choose|k: int|
                        0 <= k < earlier.len() && (#[trigger] earlier[k])->at == i;
                    assert(sets[k] == earlier[k]);
                }
            }
            assert forall|k: int| 0 <= k < sets.len() implies ((
            #[trigger] sets[k]) matches VectorUpdate::Replace { at, item } && 0 <= at < count
                && items[at].kind is Event && item == items[at]) by {
                if k < earlier.len() {
                    assert(sets[k] == earlier[k]);
                }
            }
            assert forall|k: int, l: int| 0 <= k < l < sets.len() implies (#[trigger] sets[k])->at
                < (#[trigger] sets[l])->at by {
                assert(sets[k] == earlier[k]);
                if l < earlier.len() {
                    assert(sets[l] == earlier[l]);
                }
            }
        }
    }
}

/// A fully-read event that is new is taken note of, and the read marker is brought in line with it.
/// Nothing else changes.
pub proof fn law_new_fully_read_event_is_followed<H>(
    items: Seq<Arc<TimelineItem>>,
    metadata: TimelineMetadataView<H>,
    fully_read_event: Seq<char>,
    items_after: Seq<Arc<TimelineItem>>,
    after: TimelineMetadataView<H>,
)
    requires
        fully_read_event_set(items, metadata, fully_read_event, items_after, after),
        metadata.fully_read_event != Some(fully_read_event),
    ensures
        after.fully_read_event == Some(fully_read_event),
        read_marker_updated(
            items,
            metadata.own_user_id,
            fully_read_event,
            items_after,
            after.has_up_to_date_read_marker_item,
        ),
        fully_read_event_updates(items, metadata, fully_read_event, items_after)
            == read_marker_updates(items, metadata.own_user_id, fully_read_event, items_after),
        same_constants(metadata, after),
        after.next_internal_id == metadata.next_internal_id,
        after.all_remote_events == metadata.all_remote_events,
        after.reactions == metadata.reactions,
        after.pending_poll_events == metadata.pending_poll_events,
        after.pending_edits == metadata.pending_edits,
        after.read_receipts == metadata.read_receipts,
{
}

/// Read receipts are dealt with only if they are followed: for an event at a new place always, and
/// for an event that stays in its place if its visibility changed.
pub proof fn law_read_receipt_work(
    track_read_receipts: bool,
    position: TimelineItemPosition,
    visibility_changed: bool,
)
    ensures
        ({
            let work = read_receipt_work(track_read_receipts, position, visibility_changed);
            let stays = position is UpdateDecrypted;
            &&& work is LoadAndAddImplicit <==> track_read_receipts && !stays
            &&& work is UpdatePrevious <==> track_read_receipts && stays && visibility_changed
            &&& work is Nothing <==> !track_read_receipts || (stays && !visibility_changed)
        }),
{
}

} // verus!
