//! The observable vector that holds the items of a timeline, and the transactions on it.
//!
//! `eyeball_im` keeps the items and tells subscribers of every change. A transaction records an
//! update only while somebody is subscribed; an update that is made while nobody is goes unheard.
use std::sync::Arc;

use eyeball_im::{ObservableVector, ObservableVectorTransaction};
use vstd::prelude::*;

use crate::item::TimelineItem;

verus! {

#[verifier::external_type_specification]
#[verifier::external_body]
#[verifier::reject_recursive_types(T)]
pub struct ExObservableVector<T>(ObservableVector<T>);

#[verifier::external_type_specification]
#[verifier::external_body]
#[verifier::reject_recursive_types(T)]
pub struct ExObservableVectorTransaction<'o, T: Clone>(ObservableVectorTransaction<'o, T>);

/// The items of the observable vector, in order.
pub uninterp spec fn observed_items(vector: ObservableVector<Arc<TimelineItem>>) -> Seq<
    Arc<TimelineItem>,
>;

/// The items as a transaction sees them, with the updates made through it so far.
pub uninterp spec fn pending_items(
    txn: ObservableVectorTransaction<'_, Arc<TimelineItem>>,
) -> Seq<Arc<TimelineItem>>;

/// The items that the vector under a transaction holds once the transaction is over.
pub uninterp spec fn settled_items(
    txn: ObservableVectorTransaction<'_, Arc<TimelineItem>>,
) -> Seq<Arc<TimelineItem>>;

/// The items that the vector under a transaction had when the transaction was started.
pub uninterp spec fn started_items(
    txn: ObservableVectorTransaction<'_, Arc<TimelineItem>>,
) -> Seq<Arc<TimelineItem>>;

/// The updates that a transaction has recorded, for those who are subscribed when it is committed.
pub uninterp spec fn recorded_updates(
    txn: ObservableVectorTransaction<'_, Arc<TimelineItem>>,
) -> Seq<VectorUpdate>;

/// Whether an update went unrecorded since a transaction was last cleared, or was started if it was
/// not: nobody was subscribed when it was made.
pub uninterp spec fn went_unheard(
    txn: ObservableVectorTransaction<'_, Arc<TimelineItem>>,
) -> bool;

/// The batches of the transactions that were committed on the vector, in order. Each is sent to
/// the subscribers as a whole, unless it holds no update.
pub uninterp spec fn committed_batches(vector: ObservableVector<Arc<TimelineItem>>) -> Seq<
    CommittedBatch,
>;

/// The batches that had been committed on the vector under a transaction when the transaction was
/// started.
pub uninterp spec fn started_batches(
    txn: ObservableVectorTransaction<'_, Arc<TimelineItem>>,
) -> Seq<CommittedBatch>;

/// The batches that have been committed on the vector under a transaction once the transaction is
/// over.
pub uninterp spec fn settled_batches(
    txn: ObservableVectorTransaction<'_, Arc<TimelineItem>>,
) -> Seq<CommittedBatch>;

/// For how many updates the vector's buffer was made.
pub uninterp spec fn update_capacity(vector: ObservableVector<Arc<TimelineItem>>) -> usize;

/// An update to the items, as subscribers are told of it.
pub enum VectorUpdate {
    /// All items were removed.
    Clear,
    /// An item was inserted.
    Insert { index: int, inserted: Arc<TimelineItem> },
    /// An item was replaced.
    Replace { at: int, item: Arc<TimelineItem> },
    /// An item was removed.
    Remove { from: int },
}

/// The items once an update has been applied to them.
pub open spec fn applied(items: Seq<Arc<TimelineItem>>, update: VectorUpdate) -> Seq<
    Arc<TimelineItem>,
> {
    match update {
        VectorUpdate::Clear => Seq::empty(),
        VectorUpdate::Insert { index, inserted } => items.insert(index, inserted),
        VectorUpdate::Replace { at, item } => items.update(at, item),
        VectorUpdate::Remove { from } => items.remove(from),
    }
}

/// The items that somebody has who applies the given updates one after the other.
pub open spec fn replayed(items: Seq<Arc<TimelineItem>>, updates: Seq<VectorUpdate>) -> Seq<
    Arc<TimelineItem>,
>
    decreases updates.len(),
{
    if updates.len() == 0 {
        items
    } else {
        applied(replayed(items, updates.drop_last()), updates.last())
    }
}

/// Updates may be applied in two parts.
pub proof fn lemma_replayed(
    items: Seq<Arc<TimelineItem>>,
    first: Seq<VectorUpdate>,
    second: Seq<VectorUpdate>,
)
    ensures
        replayed(items, first + second) == replayed(replayed(items, first), second),
    decreases second.len(),
{
    if second.len() == 0 {
        assert(first + second == first);
    } else {
        assert((first + second).drop_last() == first + second.drop_last());
        lemma_replayed(items, first, second.drop_last());
    }
}

/// What a transaction leaves for subscribers when it is committed.
pub struct CommittedBatch {
    /// The updates that were recorded.
    pub updates: Seq<VectorUpdate>,
    /// Whether updates are missing because nobody was subscribed when they were made.
    pub went_unheard: bool,
}

impl CommittedBatch {
    /// The batch holds exactly the given updates, but for those that went unheard.
    pub open spec fn tells(self, updates: Seq<VectorUpdate>) -> bool {
        &&& self.went_unheard || self.updates == updates
        &&& updates.len() == 0 ==> self.updates.len() == 0 && !self.went_unheard
    }
}

/// The batch that a transaction would be committed with.
pub open spec fn pending_batch(
    txn: ObservableVectorTransaction<'_, Arc<TimelineItem>>,
) -> CommittedBatch {
    CommittedBatch { updates: recorded_updates(txn), went_unheard: went_unheard(txn) }
}

/// Both are stages of one transaction: it was started from the same items and batches, and the
/// vector has the same items and batches in the end.
pub open spec fn same_vector<'a>(
    before: ObservableVectorTransaction<'a, Arc<TimelineItem>>,
    after: ObservableVectorTransaction<'a, Arc<TimelineItem>>,
) -> bool {
    &&& started_items(after) == started_items(before)
    &&& settled_items(after) == settled_items(before)
    &&& started_batches(after) == started_batches(before)
    &&& settled_batches(after) == settled_batches(before)
}

/// One update has been made: it has been recorded, or it went unheard.
pub open spec fn update_made<'a>(
    before: ObservableVectorTransaction<'a, Arc<TimelineItem>>,
    update: VectorUpdate,
    after: ObservableVectorTransaction<'a, Arc<TimelineItem>>,
) -> bool {
    ||| {
        &&& recorded_updates(after) == recorded_updates(before).push(update)
        &&& went_unheard(after) == went_unheard(before)
    }
    ||| {
        &&& recorded_updates(after) == recorded_updates(before)
        &&& went_unheard(after)
    }
}

/// The given updates have been made, in order and no others: all of them have been recorded, unless
/// one went unheard.
pub open spec fn updates_made<'a>(
    before: ObservableVectorTransaction<'a, Arc<TimelineItem>>,
    updates: Seq<VectorUpdate>,
    after: ObservableVectorTransaction<'a, Arc<TimelineItem>>,
) -> bool {
    &&& went_unheard(before) ==> went_unheard(after)
    &&& !went_unheard(after) ==> recorded_updates(after) == recorded_updates(before) + updates
    &&& updates.len() == 0 ==> pending_batch(after) == pending_batch(before)
}

/// No update has been made yet.
pub proof fn lemma_no_updates<'a>(txn: ObservableVectorTransaction<'a, Arc<TimelineItem>>)
    ensures
        updates_made(txn, Seq::empty(), txn),
{
    assert(recorded_updates(txn) + Seq::empty() == recorded_updates(txn));
}

/// A further update comes behind those that were made before.
pub proof fn lemma_one_more_update<'a>(
    before: ObservableVectorTransaction<'a, Arc<TimelineItem>>,
    updates: Seq<VectorUpdate>,
    between: ObservableVectorTransaction<'a, Arc<TimelineItem>>,
    update: VectorUpdate,
    after: ObservableVectorTransaction<'a, Arc<TimelineItem>>,
)
    requires
        updates_made(before, updates, between),
        update_made(between, update, after),
    ensures
        updates_made(before, updates.push(update), after),
{
    assert((recorded_updates(before) + updates).push(update) == recorded_updates(before)
        + updates.push(update));
}

/// Updates that are made in two parts are made as a whole.
pub proof fn lemma_more_updates<'a>(
    before: ObservableVectorTransaction<'a, Arc<TimelineItem>>,
    first: Seq<VectorUpdate>,
    between: ObservableVectorTransaction<'a, Arc<TimelineItem>>,
    second: Seq<VectorUpdate>,
    after: ObservableVectorTransaction<'a, Arc<TimelineItem>>,
)
    requires
        updates_made(before, first, between),
        updates_made(between, second, after),
    ensures
        updates_made(before, first + second, after),
{
    assert((recorded_updates(before) + first) + second == recorded_updates(before) + (first
        + second));
}

/// The items have been cleared: what was recorded before makes way for a single update, unless that
/// one went unheard.
pub open spec fn clear_made<'a>(
    after: ObservableVectorTransaction<'a, Arc<TimelineItem>>,
) -> bool {
    recorded_updates(after) == (if went_unheard(after) {
        Seq::empty()
    } else {
        seq![VectorUpdate::Clear]
    })
}

/// Calls `ObservableVector::with_capacity`: the new vector has no items. The capacity is that of
/// the buffer for updates; the call panics where it is zero or over half of `usize::MAX`.
#[verifier::external_body]
pub(crate) fn with_capacity(capacity: usize) -> (vector: ObservableVector<Arc<TimelineItem>>)
    requires
        0 < capacity <= usize::MAX / 2,
    ensures
        observed_items(vector) == Seq::<Arc<TimelineItem>>::empty(),
        update_capacity(vector) == capacity,
{
    ObservableVector::with_capacity(capacity)
}

/// Calls `ObservableVector::transaction`: the transaction starts from the vector's items with
/// nothing recorded, and decides what the vector holds and has sent afterwards. The vector's buffer
/// stays.
#[verifier::external_body]
pub(crate) fn transaction<'o>(vector: &'o mut ObservableVector<Arc<TimelineItem>>) -> (txn:
    ObservableVectorTransaction<'o, Arc<TimelineItem>>)
    ensures
        pending_items(txn) == observed_items(*old(vector)),
        started_items(txn) == observed_items(*old(vector)),
        settled_items(txn) == observed_items(*final(vector)),
        started_batches(txn) == committed_batches(*old(vector)),
        settled_batches(txn) == committed_batches(*final(vector)),
        recorded_updates(txn) == Seq::<VectorUpdate>::empty(),
        !went_unheard(txn),
        update_capacity(*final(vector)) == update_capacity(*old(vector)),
{
    vector.transaction()
}

/// Calls `ObservableVectorTransaction::commit`: the vector is left with the items that the
/// transaction had, and sends what the transaction recorded as one batch. The result stands for the
/// items and the batches, and holds nothing at run time.
#[verifier::external_body]
pub(crate) fn commit(txn: ObservableVectorTransaction<'_, Arc<TimelineItem>>) -> (committed: Ghost<
    (Seq<Arc<TimelineItem>>, Seq<CommittedBatch>),
>)
    ensures
        committed@.0 == pending_items(txn),
        committed@.0 == settled_items(txn),
        committed@.1 == started_batches(txn).push(pending_batch(txn)),
        committed@.1 == settled_batches(txn),
{
    let ghost after = (pending_items(txn), started_batches(txn).push(pending_batch(txn)));
    txn.commit();
    Ghost(after)
}

/// Drops an `ObservableVectorTransaction`, which discards its updates: only `commit` writes to the
/// vector and sends a batch, so it is left with the items that it had when the transaction was
/// started, and nothing is sent. The result stands for the items and the batches, and holds nothing
/// at run time.
#[verifier::external_body]
pub(crate) fn discard(txn: ObservableVectorTransaction<'_, Arc<TimelineItem>>) -> (left: Ghost<
    (Seq<Arc<TimelineItem>>, Seq<CommittedBatch>),
>)
    ensures
        left@.0 == started_items(txn),
        left@.0 == settled_items(txn),
        left@.1 == started_batches(txn),
        left@.1 == settled_batches(txn),
{
    let ghost after = (started_items(txn), started_batches(txn));
    drop(txn);
    Ghost(after)
}

/// Reads the length of the vector that a transaction dereferences to.
#[verifier::external_body]
pub(crate) fn len(txn: &ObservableVectorTransaction<'_, Arc<TimelineItem>>) -> (count: usize)
    ensures
        count == pending_items(*txn).len(),
{
    txn.len()
}

/// Indexes the vector that a transaction dereferences to, which panics past its end.
#[verifier::external_body]
pub(crate) fn item_at<'a>(
    txn: &'a ObservableVectorTransaction<'_, Arc<TimelineItem>>,
    index: usize,
) -> (item: &'a Arc<TimelineItem>)
    requires
        index < pending_items(*txn).len(),
    ensures
        *item == pending_items(*txn)[index as int],
{
    &txn[index]
}

/// Calls `ObservableVectorTransaction::insert`, which panics past the end of the items.
#[verifier::external_body]
pub(crate) fn insert(
    txn: &mut ObservableVectorTransaction<'_, Arc<TimelineItem>>,
    index: usize,
    item: Arc<TimelineItem>,
)
    requires
        index <= pending_items(*old(txn)).len(),
    ensures
        pending_items(*final(txn)) == pending_items(*old(txn)).insert(index as int, item),
        same_vector(*old(txn), *final(txn)),
        update_made(
            *old(txn),
            VectorUpdate::Insert { index: index as int, inserted: item },
            *final(txn),
        ),
{
    txn.insert(index, item);
}

/// Calls `ObservableVectorTransaction::set`, which panics past the end of the items and gives
/// back the item that was replaced.
#[verifier::external_body]
pub(crate) fn set(
    txn: &mut ObservableVectorTransaction<'_, Arc<TimelineItem>>,
    index: usize,
    item: Arc<TimelineItem>,
) -> (replaced: Arc<TimelineItem>)
    requires
        index < pending_items(*old(txn)).len(),
    ensures
        replaced == pending_items(*old(txn))[index as int],
        pending_items(*final(txn)) == pending_items(*old(txn)).update(index as int, item),
        same_vector(*old(txn), *final(txn)),
        update_made(*old(txn), VectorUpdate::Replace { at: index as int, item }, *final(txn)),
{
    txn.set(index, item)
}

/// Calls `ObservableVectorTransaction::remove`, which panics past the end of the items and gives
/// back the item that was removed.
#[verifier::external_body]
pub(crate) fn remove(
    txn: &mut ObservableVectorTransaction<'_, Arc<TimelineItem>>,
    index: usize,
) -> (removed: Arc<TimelineItem>)
    requires
        index < pending_items(*old(txn)).len(),
    ensures
        removed == pending_items(*old(txn))[index as int],
        pending_items(*final(txn)) == pending_items(*old(txn)).remove(index as int),
        same_vector(*old(txn), *final(txn)),
        update_made(*old(txn), VectorUpdate::Remove { from: index as int }, *final(txn)),
{
    txn.remove(index)
}

/// Calls `ObservableVectorTransaction::clear`: no item is left, and what was recorded before is
/// dropped.
#[verifier::external_body]
pub(crate) fn clear(txn: &mut ObservableVectorTransaction<'_, Arc<TimelineItem>>)
    ensures
        pending_items(*final(txn)) == Seq::<Arc<TimelineItem>>::empty(),
        same_vector(*old(txn), *final(txn)),
        clear_made(*final(txn)),
{
    txn.clear();
}

/// Where nothing went unheard, the updates that were made are recorded behind those that were
/// recorded before: all of them, in order, and no others. A batch tells them all.
pub proof fn law_heard_updates_are_recorded<'a>(
    before: ObservableVectorTransaction<'a, Arc<TimelineItem>>,
    updates: Seq<VectorUpdate>,
    after: ObservableVectorTransaction<'a, Arc<TimelineItem>>,
    batch: CommittedBatch,
)
    requires
        updates_made(before, updates, after),
        !went_unheard(after),
        batch.tells(updates),
        !batch.went_unheard,
    ensures
        !went_unheard(before),
        recorded_updates(after) == recorded_updates(before) + updates,
        pending_batch(after).updates == recorded_updates(after),
        batch.updates == updates,
{
}

} // verus!
