//! What a timeline keeps beside its items.
use std::collections::VecDeque;
use std::sync::{Arc, RwLock};

use eyeball_im::ObservableVectorTransaction;
use vstd::prelude::*;

use crate::item::{TimelineItem, TimelineItemKind, TimelineUniqueId};
use crate::observable;
use crate::pending::{PendingEdit, PendingPollEvents, PendingPollEventsView};
use crate::position::RelativePosition;
use crate::reactions::{Reactions, ReactionsView};
use crate::read_marker;
use crate::receipts::{copy_string, ReadReceiptView, ReadReceipts};
use crate::remote_events::{compare_positions, EventMeta, EventMetaView};
use crate::ring_buffer::{RingBuffer, RingBufferView};
use crate::shared::{new_lock, share};
use crate::unique_id::format_id;

verus! {

use crate::read_marker::{read_marker_updated, read_marker_updates};
use crate::receipts::text_of;
use crate::remote_events::{metas_view, relative_position};
use crate::shared::first_value;
use crate::unique_id::{law_unique_ids_differ, unique_id_text};

/// Maximum number of stash pending edits.
pub const MAX_NUM_STASHED_PENDING_EDITS: usize = 32;

/// What a timeline keeps beside its items.
///
/// `H` is the type of the hook to call for events that cannot be decrypted; it is kept here for
/// those who handle events.
pub struct TimelineMetadata<H> {
    // **** CONSTANT FIELDS ****
    /// An optional prefix for internal IDs, defined during construction of the timeline.
    ///
    /// This value is constant over the lifetime of the metadata.
    pub internal_id_prefix: Option<String>,
    /// The hook to call whenever we run into a unable-to-decrypt event.
    ///
    /// This value is constant over the lifetime of the metadata.
    pub unable_to_decrypt_hook: Option<Arc<H>>,
    /// A boolean indicating whether the room the timeline is attached to is actually encrypted or
    /// not.
    pub is_room_encrypted: Arc<RwLock<Option<bool>>>,
    /// Matrix room version of the timeline's room, or a sensible default.
    ///
    /// This value is constant over the lifetime of the metadata.
    pub room_version: String,
    /// The id of the user who opened the timeline.
    pub own_user_id: String,
    // **** DYNAMIC FIELDS ****
    /// The next internal identifier for timeline items, used for both local and remote echoes.
    ///
    /// This is never cleared, but always incremented, to avoid issues with reusing a stale
    /// internal id across timeline clears. At `u64::MAX` it starts over.
    pub next_internal_id: u64,
    /// List of all the remote events as received in the timeline, even the ones that are
    /// discarded in the timeline items.
    pub all_remote_events: VecDeque<EventMeta>,
    /// State helping matching reactions to their associated events, and stashing pending
    /// reactions.
    pub reactions: Reactions,
    /// Associated poll events received before their original poll start event.
    pub pending_poll_events: PendingPollEvents,
    /// Edit events received before the related event they're editing.
    pub pending_edits: RingBuffer<PendingEdit>,
    /// Identifier of the fully-read event, helping knowing where to introduce the read marker.
    pub fully_read_event: Option<String>,
    /// Whether we have a fully read-marker item in the timeline, that's up to date with the
    /// room's read marker.
    ///
    /// This is false when:
    /// - The fully-read marker points to an event that is not in the timeline,
    /// - The fully-read marker item would be the last item in the timeline.
    pub has_up_to_date_read_marker_item: bool,
    /// Read receipts related state.
    pub read_receipts: ReadReceipts,
}

/// The metadata as values to reason about.
pub struct TimelineMetadataView<H> {
    pub internal_id_prefix: Option<Seq<char>>,
    pub unable_to_decrypt_hook: Option<Arc<H>>,
    pub is_room_encrypted: Arc<RwLock<Option<bool>>>,
    pub room_version: Seq<char>,
    pub own_user_id: Seq<char>,
    pub next_internal_id: u64,
    pub all_remote_events: Seq<EventMetaView>,
    pub reactions: ReactionsView,
    pub pending_poll_events: PendingPollEventsView,
    pub pending_edits: RingBufferView<PendingEdit>,
    pub fully_read_event: Option<Seq<char>>,
    pub has_up_to_date_read_marker_item: bool,
    pub read_receipts: Seq<ReadReceiptView>,
}

impl<H> TimelineMetadataView<H> {
    /// The metadata once all that is known of events has been forgotten. Identifiers of items go
    /// on where they were, so that none is used again.
    pub open spec fn cleared(self) -> Self {
        TimelineMetadataView {
            all_remote_events: Seq::empty(),
            reactions: ReactionsView::empty(),
            pending_poll_events: PendingPollEventsView::empty(),
            pending_edits: self.pending_edits.cleared(),
            fully_read_event: None,
            has_up_to_date_read_marker_item: true,
            read_receipts: Seq::empty(),
            ..self
        }
    }

    /// The metadata once an identifier has been given out.
    pub open spec fn with_id_taken(self) -> Self {
        TimelineMetadataView {
            next_internal_id: if self.next_internal_id == u64::MAX {
                0
            } else {
                (self.next_internal_id + 1) as u64
            },
            ..self
        }
    }

    /// The text of the identifier that is given out next.
    pub open spec fn next_unique_id(self) -> Seq<char> {
        unique_id_text(self.internal_id_prefix, self.next_internal_id)
    }
}

impl<H> View for TimelineMetadata<H> {
    type V = TimelineMetadataView<H>;

    open spec fn view(&self) -> TimelineMetadataView<H> {
        TimelineMetadataView {
            internal_id_prefix: text_of(self.internal_id_prefix),
            unable_to_decrypt_hook: self.unable_to_decrypt_hook,
            is_room_encrypted: self.is_room_encrypted,
            room_version: self.room_version@,
            own_user_id: self.own_user_id@,
            next_internal_id: self.next_internal_id,
            all_remote_events: metas_view(self.all_remote_events@),
            reactions: self.reactions@,
            pending_poll_events: self.pending_poll_events@,
            pending_edits: self.pending_edits@,
            fully_read_event: text_of(self.fully_read_event),
            has_up_to_date_read_marker_item: self.has_up_to_date_read_marker_item,
            read_receipts: self.read_receipts@,
        }
    }
}

impl<H> Clone for TimelineMetadata<H> {
    fn clone(&self) -> (copy: Self)
        ensures
            copy@ == self@,
            self.wf() ==> copy.wf(),
    {
        let unable_to_decrypt_hook: Option<Arc<H>> = match &self.unable_to_decrypt_hook {
            Some(hook) => Some(share(hook)),
            None => None,
        };
        let all_remote_events = self.all_remote_events.clone();
        assert(all_remote_events@ == self.all_remote_events@);
        let pending_edits = self.pending_edits.clone();
        assert(pending_edits@.values == self.pending_edits@.values) by {
            let edits = self.pending_edits@.values;
            let copies = pending_edits@.values;
            assert forall|i: int| 0 <= i < edits.len() implies copies[i] == #[trigger] edits[i] by {
                assert(cloned(edits[i], copies[i]));
            }
        }
        TimelineMetadata {
            internal_id_prefix: copy_string(&self.internal_id_prefix),
            unable_to_decrypt_hook,
            is_room_encrypted: share(&self.is_room_encrypted),
            room_version: self.room_version.clone(),
            own_user_id: self.own_user_id.clone(),
            next_internal_id: self.next_internal_id,
            all_remote_events,
            reactions: self.reactions.clone(),
            pending_poll_events: self.pending_poll_events.clone(),
            pending_edits,
            fully_read_event: copy_string(&self.fully_read_event),
            has_up_to_date_read_marker_item: self.has_up_to_date_read_marker_item,
            read_receipts: self.read_receipts.clone(),
        }
    }
}

impl<H> TimelineMetadata<H> {
    /// No more edits are stashed than may be.
    pub open spec fn wf(&self) -> bool {
        &&& self.pending_edits.wf()
        &&& self.pending_edits@.capacity == MAX_NUM_STASHED_PENDING_EDITS
    }

    /// The metadata of a timeline that has received nothing yet.
    pub fn new(
        own_user_id: String,
        room_version: String,
        internal_id_prefix: Option<String>,
        unable_to_decrypt_hook: Option<Arc<H>>,
        is_room_encrypted: Option<bool>,
    ) -> (metadata: Self)
        ensures
            metadata.wf(),
            metadata@ == (TimelineMetadataView {
                internal_id_prefix: text_of(internal_id_prefix),
                unable_to_decrypt_hook,
                is_room_encrypted: metadata.is_room_encrypted,
                room_version: room_version@,
                own_user_id: own_user_id@,
                next_internal_id: 0,
                all_remote_events: Seq::empty(),
                reactions: ReactionsView::empty(),
                pending_poll_events: PendingPollEventsView::empty(),
                pending_edits: RingBufferView {
                    values: Seq::empty(),
                    capacity: MAX_NUM_STASHED_PENDING_EDITS,
                },
                fully_read_event: None,
                has_up_to_date_read_marker_item: true,
                read_receipts: Seq::empty(),
            }),
            first_value(*metadata.is_room_encrypted) == is_room_encrypted,
    {
        let all_remote_events: VecDeque<EventMeta> = VecDeque::new();
        assert(metas_view(all_remote_events@) == Seq::<EventMetaView>::empty());
        TimelineMetadata {
            own_user_id,
            all_remote_events,
            next_internal_id: 0,
            reactions: Reactions::default(),
            pending_poll_events: PendingPollEvents::default(),
            pending_edits: RingBuffer::new(MAX_NUM_STASHED_PENDING_EDITS),
            fully_read_event: None,
            // Until there is a fully-read event, there is no marker to bring up to date.
            has_up_to_date_read_marker_item: true,
            read_receipts: ReadReceipts::default(),
            room_version,
            unable_to_decrypt_hook,
            internal_id_prefix,
            is_room_encrypted: Arc::new(new_lock(is_room_encrypted)),
        }
    }

    /// Forgets all that is known of events.
    pub fn clear(&mut self)
        ensures
            final(self)@ == old(self)@.cleared(),
            old(self).wf() ==> final(self).wf(),
    {
        // The next internal id is kept, to avoid stale unique ids across timeline clears.
        self.all_remote_events.clear();
        assert(metas_view(self.all_remote_events@) == Seq::<EventMetaView>::empty());
        self.reactions.clear();
        self.pending_poll_events.clear();
        self.pending_edits.clear();
        self.fully_read_event = None;
        // The fully-read event was just forgotten, so there is no marker to bring up to date.
        self.has_up_to_date_read_marker_item = true;
        self.read_receipts.clear();
    }

    /// Get the relative positions of two events in the timeline.
    ///
    /// This method assumes that all events since the end of the timeline are known.
    ///
    /// Returns `None` if none of the two events could be found in the timeline.
    pub fn compare_events_positions(&self, event_a: &String, event_b: &String) -> (res: Option<
        RelativePosition,
    >)
        ensures
            res == relative_position(self@.all_remote_events, event_a@, event_b@),
    {
        compare_positions(&self.all_remote_events, event_a, event_b)
    }

    /// Returns the next internal id for a timeline item (and increment our internal counter).
    pub fn next_internal_id(&mut self) -> (id: TimelineUniqueId)
        ensures
            id.0@ == old(self)@.next_unique_id(),
            final(self)@ == old(self)@.with_id_taken(),
            old(self).wf() ==> final(self).wf(),
    {
        let val: u64 = self.next_internal_id;
        self.next_internal_id = self.next_internal_id.wrapping_add(1);
        match &self.internal_id_prefix {
            Some(prefix) => TimelineUniqueId(format_id(prefix.as_str(), val)),
            None => {
                proof {
                    reveal_strlit("");
                    assert(""@ + crate::unique_id::decimal(val as nat)
                        == crate::unique_id::decimal(val as nat));
                }
                TimelineUniqueId(format_id("", val))
            },
        }
    }

    /// Returns a new timeline item with a fresh internal id.
    pub fn new_timeline_item<K: Into<TimelineItemKind>>(&mut self, kind: K) -> (item: Arc<
        TimelineItem,
    >)
        ensures
            call_ensures(K::into, (kind,), item.kind),
            item.internal_id.0@ == old(self)@.next_unique_id(),
            final(self)@ == old(self)@.with_id_taken(),
            old(self).wf() ==> final(self).wf(),
    {
        let internal_id = self.next_internal_id();
        TimelineItem::new(kind.into(), internal_id)
    }

    /// Try to update the read marker item in the timeline.
    pub fn update_read_marker(
        &mut self,
        items: &mut ObservableVectorTransaction<'_, Arc<TimelineItem>>,
    )
        ensures
            match old(self)@.fully_read_event {
                Some(fully_read_event) => read_marker_updated(
                    observable::pending_items(*old(items)),
                    old(self)@.own_user_id,
                    fully_read_event,
                    observable::pending_items(*final(items)),
                    final(self).has_up_to_date_read_marker_item,
                ),
                None => {
                    &&& observable::pending_items(*final(items)) == observable::pending_items(
                        *old(items),
                    )
                    &&& final(self).has_up_to_date_read_marker_item == old(
                        self,
                    ).has_up_to_date_read_marker_item
                },
            },
            observable::same_vector(*old(items), *final(items)),
            observable::updates_made(
                *old(items),
                match old(self)@.fully_read_event {
                    Some(fully_read_event) => read_marker_updates(
                        observable::pending_items(*old(items)),
                        old(self)@.own_user_id,
                        fully_read_event,
                        observable::pending_items(*final(items)),
                    ),
                    None => Seq::empty(),
                },
                *final(items),
            ),
            final(self)@ == (TimelineMetadataView {
                has_up_to_date_read_marker_item: final(self).has_up_to_date_read_marker_item,
                ..old(self)@
            }),
            old(self).wf() ==> final(self).wf(),
    {
        proof {
            observable::lemma_no_updates(*items);
        }
        if let Some(fully_read_event) = &self.fully_read_event {
            self.has_up_to_date_read_marker_item = read_marker::update_read_marker(
                items,
                &self.own_user_id,
                fully_read_event,
            );
        }
    }
}

/// The metadata once a number of identifiers has been given out.
pub open spec fn with_ids_taken<H>(
    metadata: TimelineMetadataView<H>,
    count: nat,
) -> TimelineMetadataView<H>
    decreases count,
{
    if count == 0 {
        metadata
    } else {
        with_ids_taken(metadata, (count - 1) as nat).with_id_taken()
    }
}

/// The counter goes around after all its values.
proof fn lemma_ids_taken<H>(metadata: TimelineMetadataView<H>, count: nat)
    ensures
        with_ids_taken(metadata, count).next_internal_id == (metadata.next_internal_id + count) % (
        u64::MAX + 1),
        with_ids_taken(metadata, count).internal_id_prefix == metadata.internal_id_prefix,
    decreases count,
{
    if count > 0 {
        lemma_ids_taken(metadata, (count - 1) as nat);
    }
}

/// No identifier is given out twice, until all numbers have been used.
pub proof fn law_ids_are_not_given_out_twice<H>(
    metadata: TimelineMetadataView<H>,
    earlier: nat,
    later: nat,
)
    requires
        earlier < later,
        later - earlier <= u64::MAX,
    ensures
        with_ids_taken(metadata, earlier).next_unique_id() != with_ids_taken(
            metadata,
            later,
        ).next_unique_id(),
{
    lemma_ids_taken(metadata, earlier);
    lemma_ids_taken(metadata, later);
    law_unique_ids_differ(
        metadata.internal_id_prefix,
        with_ids_taken(metadata, earlier).next_internal_id,
        with_ids_taken(metadata, later).next_internal_id,
    );
}

/// A clear does not make identifiers start over.
pub proof fn law_ids_go_on_after_a_clear<H>(metadata: TimelineMetadataView<H>)
    ensures
        metadata.cleared().next_unique_id() == metadata.next_unique_id(),
        metadata.with_id_taken().cleared() == metadata.cleared().with_id_taken(),
{
}

/// What is constant over the lifetime of the metadata is the same in both.
pub open spec fn same_constants<H>(
    before: TimelineMetadataView<H>,
    after: TimelineMetadataView<H>,
) -> bool {
    &&& after.internal_id_prefix == before.internal_id_prefix
    &&& after.unable_to_decrypt_hook == before.unable_to_decrypt_hook
    &&& after.is_room_encrypted == before.is_room_encrypted
    &&& after.room_version == before.room_version
    &&& after.own_user_id == before.own_user_id
}

/// Neither a clear nor giving out an identifier changes what is constant.
pub proof fn law_constants_stay<H>(metadata: TimelineMetadataView<H>)
    ensures
        same_constants(metadata, metadata.cleared()),
        same_constants(metadata, metadata.with_id_taken()),
{
}

/// After a clear nothing is known of any event: no remote event, reaction, poll event, edit,
/// fully-read event or read receipt.
pub proof fn law_clear_forgets_events<H>(metadata: TimelineMetadataView<H>, poll: Seq<char>)
    ensures
        ({
            let cleared = metadata.cleared();
            &&& cleared.all_remote_events.len() == 0
            &&& cleared.reactions.known.len() == 0
            &&& cleared.reactions.pending.len() == 0
            &&& cleared.pending_poll_events.responses_to(poll).len() == 0
            &&& cleared.pending_poll_events.end_of(poll) is None
            &&& cleared.pending_edits.values.len() == 0
            &&& cleared.pending_edits.capacity == metadata.pending_edits.capacity
            &&& cleared.fully_read_event is None
            &&& cleared.has_up_to_date_read_marker_item
            &&& cleared.read_receipts.len() == 0
            &&& cleared.next_internal_id == metadata.next_internal_id
        }),
{
}

/// Giving out an identifier moves on to the next number, from the last one to zero, and changes
/// nothing else.
pub proof fn law_identifiers_count_up<H>(metadata: TimelineMetadataView<H>)
    ensures
        ({
            let after = metadata.with_id_taken();
            &&& after.next_internal_id == (metadata.next_internal_id + 1) % (u64::MAX + 1)
            &&& same_constants(metadata, after)
            &&& after.all_remote_events == metadata.all_remote_events
            &&& after.reactions == metadata.reactions
            &&& after.pending_poll_events == metadata.pending_poll_events
            &&& after.pending_edits == metadata.pending_edits
            &&& after.fully_read_event == metadata.fully_read_event
            &&& after.has_up_to_date_read_marker_item == metadata.has_up_to_date_read_marker_item
            &&& after.read_receipts == metadata.read_receipts
        }),
{
}

/// The metadata as values to reason about leave nothing out.
pub proof fn law_metadata_are_seen_whole<H>(metadata: TimelineMetadata<H>)
    ensures
        metadata@.internal_id_prefix == (match metadata.internal_id_prefix {
            Some(prefix) => Some(prefix@),
            None => None,
        }),
        metadata@.unable_to_decrypt_hook == metadata.unable_to_decrypt_hook,
        metadata@.is_room_encrypted == metadata.is_room_encrypted,
        metadata@.room_version == metadata.room_version@,
        metadata@.own_user_id == metadata.own_user_id@,
        metadata@.next_internal_id == metadata.next_internal_id,
        metadata@.all_remote_events.len() == metadata.all_remote_events@.len(),
        forall|i: int|
            0 <= i < metadata.all_remote_events@.len() ==> {
                let event = metadata.all_remote_events@[i];
                &&& (#[trigger] metadata@.all_remote_events[i]).event_id == event.event_id@
                &&& metadata@.all_remote_events[i].visible == event.visible
            },
        metadata@.reactions.known == metadata.reactions.known@,
        metadata@.reactions.pending == metadata.reactions.pending@,
        metadata@.pending_poll_events == metadata.pending_poll_events@,
        metadata@.pending_edits == metadata.pending_edits@,
        metadata@.fully_read_event == (match metadata.fully_read_event {
            Some(id) => Some(id@),
            None => None,
        }),
        metadata@.has_up_to_date_read_marker_item == metadata.has_up_to_date_read_marker_item,
        metadata@.read_receipts.len() == metadata.read_receipts.receipts@.len(),
        forall|i: int|
            0 <= i < metadata.read_receipts.receipts@.len() ==> {
                let receipt = metadata.read_receipts.receipts@[i];
                let seen = #[trigger] metadata@.read_receipts[i];
                &&& seen.event_id == receipt.event_id@
                &&& seen.receipt_type == receipt.receipt_type@
                &&& seen.user_id == receipt.user_id@
                &&& seen.timestamp == receipt.timestamp
                &&& seen.thread == (match receipt.thread {
                    Some(thread) => Some(thread@),
                    None => None,
                })
            },
{
}

} // verus!
