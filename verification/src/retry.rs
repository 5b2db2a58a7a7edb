//! Which items to look at when decryption is tried again.
use std::sync::Arc;

use vstd::prelude::*;

use crate::event_context::{HandleEventResult, PushAction, RemoteEventKind, SyncTimelineEvent};
use crate::item::TimelineItem;
use crate::observable;
use crate::shared::share;
use crate::transaction::TimelineStateTransaction;

verus! {

/// Goes through the items that are to be decrypted again, in order, so that no edit is decrypted
/// before the event being edited. Keeps track of how items move up as others are taken away.
#[derive(Debug)]
pub struct DecryptionRetry {
    /// The positions of the items, as they were at the start.
    pub retry_indices: Vec<usize>,
    /// How many of the positions have been looked at.
    pub next: usize,
    /// How many items have been taken away.
    pub offset: usize,
}

impl DecryptionRetry {
    /// The positions that are still to be looked at, as they were at the start.
    pub open spec fn remaining(&self) -> Seq<usize> {
        self.retry_indices@.skip(self.next as int)
    }

    /// How many items have been taken away.
    pub open spec fn removed(&self) -> nat {
        self.offset as nat
    }

    /// How many positions have been looked at.
    pub open spec fn visited(&self) -> nat {
        self.next as nat
    }

    /// No more items have been taken away than were looked at.
    pub open spec fn wf(&self) -> bool {
        self.offset <= self.next <= self.retry_indices@.len()
    }

    /// Starts with the given positions.
    pub fn new(retry_indices: Vec<usize>) -> (retry: Self)
        ensures
            retry.wf(),
            retry.remaining() == retry_indices@,
            retry.removed() == 0,
            retry.visited() == 0,
    {
        assert(retry_indices@.skip(0) == retry_indices@);
        DecryptionRetry { retry_indices, next: 0, offset: 0 }
    }

    /// Where the next item is now. It must not be one that has been taken away.
    pub fn next_index(&mut self) -> (index: Option<usize>)
        requires
            old(self).wf(),
            old(self).remaining().len() > 0 ==> old(self).removed() <= old(self).remaining()[0],
        ensures
            final(self).wf(),
            match index {
                Some(index) => {
                    &&& old(self).remaining().len() > 0
                    &&& index == old(self).remaining()[0] - old(self).removed()
                    &&& final(self).remaining() == old(self).remaining().drop_first()
                    &&& final(self).visited() == old(self).visited() + 1
                },
                None => {
                    &&& old(self).remaining().len() == 0
                    &&& final(self).remaining() == old(self).remaining()
                    &&& final(self).visited() == old(self).visited()
                },
            },
            final(self).removed() == old(self).removed(),
    {
        if self.next < self.retry_indices.len() {
            assert(self.remaining()[0] == self.retry_indices@[self.next as int]);
            assert(self.remaining().drop_first() == self.retry_indices@.skip(self.next + 1));
            let index: usize = self.retry_indices[self.next] - self.offset;
            self.next = self.next + 1;
            Some(index)
        } else {
            None
        }
    }

    /// The next item to look at in a transaction, and where it is. It must not be one that has
    /// been taken away, nor past the end.
    pub fn next_item<'a, H>(&mut self, txn: &TimelineStateTransaction<'a, H>) -> (next: Option<
        (usize, Arc<TimelineItem>),
    >)
        requires
            old(self).wf(),
            old(self).remaining().len() > 0 ==> {
                &&& old(self).removed() <= old(self).remaining()[0]
                &&& old(self).remaining()[0] - old(self).removed() < txn.pending_items().len()
            },
        ensures
            final(self).wf(),
            match next {
                Some((index, item)) => {
                    &&& old(self).remaining().len() > 0
                    &&& index == old(self).remaining()[0] - old(self).removed()
                    &&& item == txn.pending_items()[index as int]
                    &&& final(self).remaining() == old(self).remaining().drop_first()
                    &&& final(self).visited() == old(self).visited() + 1
                },
                None => {
                    &&& old(self).remaining().len() == 0
                    &&& final(self).remaining() == old(self).remaining()
                    &&& final(self).visited() == old(self).visited()
                },
            },
            final(self).removed() == old(self).removed(),
    {
        match self.next_index() {
            Some(index) => Some((index, share(observable::item_at(&txn.items, index)))),
            None => None,
        }
    }

    /// Takes note of what became of the item that was looked at last: if it was removed rather
    /// than updated, all that follow have moved up.
    pub fn handled(&mut self, result: HandleEventResult)
        requires
            old(self).wf(),
            old(self).removed() < old(self).visited(),
        ensures
            final(self).wf(),
            final(self).removed() == old(self).removed() + (if result.item_removed {
                1nat
            } else {
                0nat
            }),
            final(self).remaining() == old(self).remaining(),
            final(self).visited() == old(self).visited(),
    {
        if result.item_removed {
            self.offset = self.offset + 1;
        }
    }
}

/// The event of an item that was decrypted at last, with what the push rules say about it: nothing
/// if there are no rules.
pub fn retried_event<E, U>(
    kind: RemoteEventKind<E, U>,
    push_actions: Option<Vec<PushAction>>,
) -> (event: SyncTimelineEvent<E, U>)
    ensures
        event.kind == kind,
        event.push_actions@ == (match push_actions {
            Some(actions) => actions@,
            None => Seq::empty(),
        }),
{
    SyncTimelineEvent {
        kind,
        push_actions: match push_actions {
            Some(actions) => actions,
            None => Vec::new(),
        },
    }
}

/// What became of an item that was looked at.
pub enum RetryOutcome<T> {
    /// It is as it was.
    Kept,
    /// It was updated.
    Updated(T),
    /// It was taken away.
    Removed,
}

/// How many items were taken away.
pub open spec fn removals<T>(outcomes: Seq<RetryOutcome<T>>) -> nat
    decreases outcomes.len(),
{
    if outcomes.len() == 0 {
        0
    } else {
        removals(outcomes.drop_last()) + if outcomes.last() is Removed {
            1nat
        } else {
            0nat
        }
    }
}

/// The items once some of the positions have been looked at, each as many places further up as
/// items had been taken away.
pub open spec fn after_retries<T>(
    items: Seq<T>,
    retry_indices: Seq<usize>,
    outcomes: Seq<RetryOutcome<T>>,
) -> Seq<T>
    decreases outcomes.len(),
{
    if outcomes.len() == 0 {
        items
    } else {
        let earlier = outcomes.drop_last();
        let now = after_retries(items, retry_indices, earlier);
        let index = retry_indices[outcomes.len() - 1] - removals(earlier);
        match outcomes.last() {
            RetryOutcome::Kept => now,
            RetryOutcome::Updated(item) => now.update(index, item),
            RetryOutcome::Removed => now.remove(index),
        }
    }
}

/// The positions go down the timeline and are all within it.
pub open spec fn ascending_within(retry_indices: Seq<usize>, count: nat) -> bool {
    &&& forall|i: int, j: int|
        0 <= i < j < retry_indices.len() ==> retry_indices[i] < retry_indices[j]
    &&& forall|i: int| 0 <= i < retry_indices.len() ==> #[trigger] retry_indices[i] < count
}

/// What has not been looked at has only moved up by as many places as items were taken away.
proof fn lemma_after_retries<T>(
    items: Seq<T>,
    retry_indices: Seq<usize>,
    outcomes: Seq<RetryOutcome<T>>,
)
    requires
        ascending_within(retry_indices, items.len()),
        outcomes.len() <= retry_indices.len(),
    ensures
        removals(outcomes) <= outcomes.len(),
        removals(outcomes) <= items.len(),
        after_retries(items, retry_indices, outcomes).len() == items.len() - removals(outcomes),
        outcomes.len() > 0 ==> removals(outcomes) <= retry_indices[outcomes.len() - 1] + 1,
        forall|i: int|
            #![trigger items[i]]
            (outcomes.len() == 0 || retry_indices[outcomes.len() - 1] < i) && 0 <= i < items.len()
                ==> after_retries(items, retry_indices, outcomes)[i - removals(outcomes)]
                == items[i],
    decreases outcomes.len(),
{
    if outcomes.len() > 0 {
        let earlier = outcomes.drop_last();
        lemma_after_retries(items, retry_indices, earlier);
        let now = after_retries(items, retry_indices, earlier);
        let last = retry_indices[outcomes.len() - 1];
        if earlier.len() > 0 {
            assert(retry_indices[earlier.len() - 1] < last);
        }
        let index = last - removals(earlier);
        assert(now[index] == items[last as int]);
        let after = after_retries(items, retry_indices, outcomes);
        assert forall|i: int|
            #![trigger items[i]]
            last < i < items.len() implies after[i - removals(outcomes)] == items[i] by {
            assert(now[i - removals(earlier)] == items[i]);
        }
    }
}

/// If the positions go down the timeline, each item that is yet to be looked at is found where it
/// is expected, however many of the items above it were taken away.
pub proof fn law_retried_items_are_found<T>(
    items: Seq<T>,
    retry_indices: Seq<usize>,
    outcomes: Seq<RetryOutcome<T>>,
    next: int,
)
    requires
        ascending_within(retry_indices, items.len()),
        outcomes.len() <= next < retry_indices.len(),
    ensures
        removals(outcomes) <= retry_indices[next],
        retry_indices[next] - removals(outcomes) < after_retries(
            items,
            retry_indices,
            outcomes,
        ).len(),
        after_retries(items, retry_indices, outcomes)[retry_indices[next] - removals(outcomes)]
            == items[retry_indices[next] as int],
{
    lemma_after_retries(items, retry_indices, outcomes);
    if outcomes.len() > 0 {
        assert(retry_indices[outcomes.len() - 1] < retry_indices[next]);
    }
    assert(items[retry_indices[next] as int] == items[retry_indices[next] as int]);
}

/// While items are looked at in turn, the next one is found where it is expected: if as many
/// positions have been looked at as there are outcomes, and as many items counted as taken away as
/// were, the item is the one that stood at the next position at the start.
pub proof fn law_next_item_is_found<T>(
    retry: DecryptionRetry,
    items: Seq<T>,
    outcomes: Seq<RetryOutcome<T>>,
)
    requires
        retry.wf(),
        ascending_within(retry.retry_indices@, items.len()),
        retry.visited() == outcomes.len(),
        retry.removed() == removals(outcomes),
        outcomes.len() < retry.retry_indices@.len(),
    ensures
        retry.remaining().len() == retry.retry_indices@.len() - outcomes.len(),
        retry.removed() <= retry.remaining()[0],
        ({
            let index = retry.remaining()[0] - retry.removed();
            let now = after_retries(items, retry.retry_indices@, outcomes);
            &&& index < now.len()
            &&& now[index] == items[retry.retry_indices@[outcomes.len() as int] as int]
        }),
{
    law_retried_items_are_found(
        items,
        retry.retry_indices@,
        outcomes,
        outcomes.len() as int,
    );
    assert(retry.remaining()[0] == retry.retry_indices@[outcomes.len() as int]);
}

} // verus!
