//! What is left of the items when a timeline is cleared.
use std::sync::Arc;

use eyeball_im::ObservableVectorTransaction;
use vstd::prelude::*;

use crate::item::{TimelineItem, TimelineItemKind, VirtualTimelineItem};
use crate::observable;
use crate::observable::VectorUpdate;

verus! {

use crate::observable::{applied, lemma_replayed, replayed};

/// Some item is a local echo.
pub open spec fn has_local_echoes(items: Seq<Arc<TimelineItem>>) -> bool {
    exists|i: int| 0 <= i < items.len() && (#[trigger] items[i]).is_local_echo()
}

/// Tells what does not come from the server from remote events and read markers.
pub open spec fn is_kept() -> spec_fn(Arc<TimelineItem>) -> bool {
    |item: Arc<TimelineItem>| !item.is_remote_event() && !item.is_read_marker()
}

/// The items without the day dividers that have no item of their day below them.
pub open spec fn without_stray_dividers(items: Seq<Arc<TimelineItem>>) -> Seq<Arc<TimelineItem>>
    decreases items.len(),
{
    if items.len() == 0 {
        items
    } else {
        let rest = without_stray_dividers(items.drop_first());
        if items[0].is_day_divider() && (items.len() == 1 || items[1].is_day_divider()) {
            rest
        } else {
            seq![items[0]] + rest
        }
    }
}

/// The items that a clear leaves: the local echoes, and the day dividers above them.
pub open spec fn cleared_items(items: Seq<Arc<TimelineItem>>) -> Seq<Arc<TimelineItem>> {
    if has_local_echoes(items) {
        without_stray_dividers(items.filter(is_kept()))
    } else {
        Seq::empty()
    }
}

/// The updates that remove remote events and read markers one by one, from the given position on.
pub open spec fn remote_removals(items: Seq<Arc<TimelineItem>>, at: int) -> Seq<VectorUpdate>
    decreases items.len(),
{
    if items.len() == 0 {
        Seq::empty()
    } else if is_kept()(items[0]) {
        remote_removals(items.drop_first(), at + 1)
    } else {
        seq![VectorUpdate::Remove { from: at }] + remote_removals(items.drop_first(), at)
    }
}

/// The updates that remove stray day dividers one by one, from the given position on.
pub open spec fn divider_removals(items: Seq<Arc<TimelineItem>>, at: int) -> Seq<VectorUpdate>
    decreases items.len(),
{
    if items.len() == 0 {
        Seq::empty()
    } else if items[0].is_day_divider() && (items.len() == 1 || items[1].is_day_divider()) {
        seq![VectorUpdate::Remove { from: at }] + divider_removals(items.drop_first(), at)
    } else {
        divider_removals(items.drop_first(), at + 1)
    }
}

/// The updates that clear the items: a single one, unless local echoes stay.
pub open spec fn clear_updates(items: Seq<Arc<TimelineItem>>) -> Seq<VectorUpdate> {
    if has_local_echoes(items) {
        remote_removals(items, 0) + divider_removals(items.filter(is_kept()), 0)
    } else {
        seq![VectorUpdate::Clear]
    }
}

/// The items of a transaction have been cleared: where local echoes stay, further updates have been
/// made, and else a single one is all that is left.
pub open spec fn items_clear_made<'a>(
    before: ObservableVectorTransaction<'a, Arc<TimelineItem>>,
    after: ObservableVectorTransaction<'a, Arc<TimelineItem>>,
) -> bool {
    let items = observable::pending_items(before);
    if has_local_echoes(items) {
        observable::updates_made(before, clear_updates(items), after)
    } else {
        observable::clear_made(after)
    }
}

/// Filtering goes item by item, from the front.
proof fn lemma_filter_front(
    items: Seq<Arc<TimelineItem>>,
    pred: spec_fn(Arc<TimelineItem>) -> bool,
)
    requires
        items.len() > 0,
    ensures
        items.filter(pred) == (if pred(items[0]) {
            seq![items[0]] + items.drop_first().filter(pred)
        } else {
            items.drop_first().filter(pred)
        }),
{
    let first = seq![items[0]];
    assert(items == first + items.drop_first());
    Seq::filter_distributes_over_add(first, items.drop_first(), pred);
    assert(first.filter(pred) == if pred(items[0]) {
        first
    } else {
        Seq::empty()
    }) by {
        reveal_with_fuel(Seq::filter, 2);
        assert(first.drop_last() == Seq::<Arc<TimelineItem>>::empty());
    }
}

/// Tells whether some item is a local echo.
fn any_local_echo(items: &ObservableVectorTransaction<'_, Arc<TimelineItem>>) -> (res: bool)
    ensures
        res == has_local_echoes(observable::pending_items(*items)),
{
    let ghost all = observable::pending_items(*items);
    let count: usize = observable::len(items);
    let mut index: usize = 0;
    while index < count
        invariant
            all == observable::pending_items(*items),
            count == all.len(),
            index <= count,
            forall|i: int| 0 <= i < index ==> !(#[trigger] all[i]).is_local_echo(),
        decreases count - index,
    {
        if observable::item_at(items, index).is_local_echo() {
            assert(all[index as int].is_local_echo());
            return true;
        }
        index = index + 1;
    }
    false
}

/// Removes the remote events and the read markers.
fn remove_remote_items(items: &mut ObservableVectorTransaction<'_, Arc<TimelineItem>>)
    ensures
        observable::pending_items(*final(items)) == observable::pending_items(*old(items)).filter(
            is_kept(),
        ),
        observable::same_vector(*old(items), *final(items)),
        observable::updates_made(
            *old(items),
            remote_removals(observable::pending_items(*old(items)), 0),
            *final(items),
        ),
{
    let ghost before = observable::pending_items(*items);
    let ghost first = *items;
    let ghost mut made: Seq<VectorUpdate> = Seq::empty();
    let mut index: usize = 0;
    proof {
        observable::lemma_no_updates(first);
        assert(made + remote_removals(before, 0) == remote_removals(before, 0));
    }
    assert(before.skip(0) == before);
    assert(before.take(0) + before.filter(is_kept()) == before.filter(is_kept()));
    while index < observable::len(items)
        invariant
            index <= observable::pending_items(*items).len(),
            before.filter(is_kept()) == observable::pending_items(*items).take(index as int)
                + observable::pending_items(*items).skip(index as int).filter(is_kept()),
            observable::same_vector(first, *items),
            observable::updates_made(first, made, *items),
            remote_removals(before, 0) == made + remote_removals(
                observable::pending_items(*items).skip(index as int),
                index as int,
            ),
        decreases observable::pending_items(*items).len() - index,
    {
        let ghost now = observable::pending_items(*items);
        let ghost rest = now.skip(index as int);
        proof {
            lemma_filter_front(rest, is_kept());
            assert(rest[0] == now[index as int]);
            assert(rest.drop_first() == now.skip(index + 1));
        }
        let item = observable::item_at(items, index);
        let gone: bool = item.is_remote_event() || item.is_read_marker();
        if gone {
            let ghost last = *items;
            let ghost removal = VectorUpdate::Remove { from: index as int };
            let _ = observable::remove(items, index);
            proof {
                observable::lemma_one_more_update(first, made, last, removal, *items);
                let later = remote_removals(rest.drop_first(), index as int);
                assert(made + (seq![removal] + later) == made.push(removal) + later);
                made = made.push(removal);
            }
            assert(observable::pending_items(*items).take(index as int) == now.take(index as int));
            assert(observable::pending_items(*items).skip(index as int) == now.skip(index + 1));
        } else {
            assert(now.take(index + 1) == now.take(index as int) + seq![rest[0]]);
            assert(now.take(index + 1) + now.skip(index + 1).filter(is_kept()) == now.take(
                index as int,
            ) + (seq![rest[0]] + now.skip(index + 1).filter(is_kept())));
            index = index + 1;
        }
    }
    proof {
        let now = observable::pending_items(*items);
        assert(made + Seq::empty() == made);
        assert(now.take(index as int) == now);
        assert(now.skip(index as int) == Seq::<Arc<TimelineItem>>::empty());
        assert(Seq::<Arc<TimelineItem>>::empty().filter(is_kept()) == Seq::<
            Arc<TimelineItem>,
        >::empty()) by {
            reveal(Seq::filter);
        }
        assert(now + Seq::<Arc<TimelineItem>>::empty() == now);
    }
}

/// Removes the day dividers that have no item of their day below them.
fn remove_stray_dividers(items: &mut ObservableVectorTransaction<'_, Arc<TimelineItem>>)
    ensures
        observable::pending_items(*final(items)) == without_stray_dividers(
            observable::pending_items(*old(items)),
        ),
        observable::same_vector(*old(items), *final(items)),
        observable::updates_made(
            *old(items),
            divider_removals(observable::pending_items(*old(items)), 0),
            *final(items),
        ),
{
    let ghost before = observable::pending_items(*items);
    let ghost first = *items;
    let ghost mut made: Seq<VectorUpdate> = Seq::empty();
    let mut index: usize = 0;
    proof {
        observable::lemma_no_updates(first);
        assert(made + divider_removals(before, 0) == divider_removals(before, 0));
    }
    assert(before.skip(0) == before);
    assert(before.take(0) + without_stray_dividers(before) == without_stray_dividers(before));
    while index < observable::len(items)
        invariant
            index <= observable::pending_items(*items).len(),
            without_stray_dividers(before) == observable::pending_items(*items).take(index as int)
                + without_stray_dividers(observable::pending_items(*items).skip(index as int)),
            observable::same_vector(first, *items),
            observable::updates_made(first, made, *items),
            divider_removals(before, 0) == made + divider_removals(
                observable::pending_items(*items).skip(index as int),
                index as int,
            ),
        decreases observable::pending_items(*items).len() - index,
    {
        let ghost now = observable::pending_items(*items);
        let ghost rest = now.skip(index as int);
        assert(rest[0] == now[index as int]);
        assert(rest.drop_first() == now.skip(index + 1));
        let count: usize = observable::len(items);
        let stray: bool = observable::item_at(items, index).is_day_divider() && (index + 1 == count
            || observable::item_at(items, index + 1).is_day_divider());
        if index + 1 < count {
            assert(rest[1] == now[index + 1]);
        }
        if stray {
            let ghost last = *items;
            let ghost removal = VectorUpdate::Remove { from: index as int };
            let _ = observable::remove(items, index);
            proof {
                observable::lemma_one_more_update(first, made, last, removal, *items);
                let later = divider_removals(rest.drop_first(), index as int);
                assert(made + (seq![removal] + later) == made.push(removal) + later);
                made = made.push(removal);
            }
            assert(observable::pending_items(*items).take(index as int) == now.take(index as int));
            assert(observable::pending_items(*items).skip(index as int) == now.skip(index + 1));
        } else {
            assert(now.take(index + 1) + without_stray_dividers(now.skip(index + 1)) == now.take(
                index as int,
            ) + (seq![rest[0]] + without_stray_dividers(now.skip(index + 1))));
            index = index + 1;
        }
    }
    proof {
        let now = observable::pending_items(*items);
        assert(made + Seq::empty() == made);
        assert(now.take(index as int) == now);
        assert(now.skip(index as int).len() == 0);
        assert(now + now.skip(index as int) == now);
    }
}

/// Removes all items, but for local echoes and the day dividers above them.
pub(crate) fn clear_items(items: &mut ObservableVectorTransaction<'_, Arc<TimelineItem>>)
    ensures
        observable::pending_items(*final(items)) == cleared_items(
            observable::pending_items(*old(items)),
        ),
        observable::same_vector(*old(items), *final(items)),
        items_clear_made(*old(items), *final(items)),
{
    // Most of the time there are no local echoes, and then subscribers have a single update to
    // deal with.
    if any_local_echo(items) {
        let ghost before = *items;
        remove_remote_items(items);
        let ghost between = *items;
        remove_stray_dividers(items);
        proof {
            observable::lemma_more_updates(
                before,
                remote_removals(observable::pending_items(before), 0),
                between,
                divider_removals(observable::pending_items(between), 0),
                *items,
            );
        }
    } else {
        observable::clear(items);
    }
}

/// Tells local echoes from other items.
pub open spec fn local_echoes() -> spec_fn(Arc<TimelineItem>) -> bool {
    |item: Arc<TimelineItem>| item.is_local_echo()
}

/// Every day divider has an item below it that is no day divider.
pub open spec fn no_stray_dividers(items: Seq<Arc<TimelineItem>>) -> bool {
    forall|i: int|
        #![trigger items[i]]
        0 <= i < items.len() && items[i].is_day_divider() ==> i + 1 < items.len() && !items[i
            + 1].is_day_divider()
}

/// What dropping stray day dividers does: only day dividers go, and no stray one is left.
proof fn lemma_without_stray_dividers(
    items: Seq<Arc<TimelineItem>>,
    all: spec_fn(Arc<TimelineItem>) -> bool,
)
    requires
        forall|i: int| 0 <= i < items.len() ==> all(#[trigger] items[i]),
    ensures
        without_stray_dividers(items).filter(local_echoes()) == items.filter(local_echoes()),
        forall|i: int|
            0 <= i < without_stray_dividers(items).len() ==> all(
                #[trigger] without_stray_dividers(items)[i],
            ),
        no_stray_dividers(without_stray_dividers(items)),
        items.len() > 0 && !items[0].is_day_divider() ==> without_stray_dividers(items).len() > 0
            && without_stray_dividers(items)[0] == items[0],
        no_stray_dividers(items) ==> without_stray_dividers(items) == items,
    decreases items.len(),
{
    if items.len() > 0 {
        let rest = items.drop_first();
        assert forall|i: int| 0 <= i < rest.len() implies all(#[trigger] rest[i]) by {
            assert(rest[i] == items[i + 1]);
        }
        lemma_without_stray_dividers(rest, all);
        let kept = without_stray_dividers(rest);
        let result = without_stray_dividers(items);
        lemma_filter_front(items, local_echoes());
        if items.len() > 1 {
            assert(rest[0] == items[1]);
        }
        if items[0].is_day_divider() && (items.len() == 1 || items[1].is_day_divider()) {
            assert(!no_stray_dividers(items));
        } else {
            assert(result == seq![items[0]] + kept);
            assert(result.drop_first() == kept);
            lemma_filter_front(result, local_echoes());
            assert forall|i: int| 0 <= i < result.len() implies #[trigger] result[i] == (if i == 0 {
                items[0]
            } else {
                kept[i - 1]
            }) by {}
            assert forall|i: int|
                #![trigger result[i]]
                0 <= i < result.len() && result[i].is_day_divider() implies i + 1 < result.len()
                && !result[i + 1].is_day_divider() by {
                if i == 0 {
                    assert(kept[0] == rest[0]);
                    assert(result[1] == kept[0]);
                } else {
                    assert(kept[i - 1] == result[i]);
                    assert(result[i + 1] == kept[i]);
                }
            }
            if no_stray_dividers(items) {
                assert forall|i: int|
                    #![trigger rest[i]]
                    0 <= i < rest.len() && rest[i].is_day_divider() implies i + 1 < rest.len()
                    && !rest[i + 1].is_day_divider() by {
                    assert(items[i + 1] == rest[i]);
                    assert(items[i + 2] == rest[i + 1]);
                }
                assert(result == items);
            }
        }
    }
}

/// A filter keeps only what it lets through, and drops nothing that a narrower one lets through.
proof fn lemma_filter_narrower(
    items: Seq<Arc<TimelineItem>>,
    wide: spec_fn(Arc<TimelineItem>) -> bool,
    narrow: spec_fn(Arc<TimelineItem>) -> bool,
)
    requires
        forall|item: Arc<TimelineItem>| #[trigger] narrow(item) ==> wide(item),
    ensures
        items.filter(wide).filter(narrow) == items.filter(narrow),
        forall|i: int|
            0 <= i < items.filter(wide).len() ==> wide(#[trigger] items.filter(wide)[i]),
        (forall|i: int| 0 <= i < items.len() ==> wide(#[trigger] items[i])) ==> items.filter(wide)
            == items,
    decreases items.len(),
{
    if items.len() > 0 {
        let rest = items.drop_first();
        lemma_filter_narrower(rest, wide, narrow);
        lemma_filter_front(items, wide);
        lemma_filter_front(items, narrow);
        let kept = items.filter(wide);
        if wide(items[0]) {
            assert(kept.drop_first() == rest.filter(wide));
            lemma_filter_front(kept, narrow);
            if forall|i: int| 0 <= i < items.len() ==> wide(#[trigger] items[i]) {
                assert forall|i: int| 0 <= i < rest.len() implies wide(#[trigger] rest[i]) by {
                    assert(rest[i] == items[i + 1]);
                }
                assert(kept == items);
            }
        }
        assert forall|i: int| 0 <= i < kept.len() implies wide(#[trigger] kept[i]) by {
            if wide(items[0]) {
                if i > 0 {
                    assert(kept[i] == rest.filter(wide)[i - 1]);
                }
            }
        }
    } else {
        reveal(Seq::filter);
        assert(items.filter(wide) == items);
    }
}

/// A clear keeps all local echoes, in their order.
pub proof fn law_clear_keeps_local_echoes(items: Seq<Arc<TimelineItem>>)
    ensures
        cleared_items(items).filter(local_echoes()) == items.filter(local_echoes()),
{
    let kept = items.filter(is_kept());
    lemma_filter_narrower(items, is_kept(), local_echoes());
    if has_local_echoes(items) {
        lemma_without_stray_dividers(kept, is_kept());
    } else {
        lemma_filter_none(items);
        lemma_filter_none(Seq::empty());
    }
}

/// Where there are no local echoes, none are found.
proof fn lemma_filter_none(items: Seq<Arc<TimelineItem>>)
    requires
        !has_local_echoes(items),
    ensures
        items.filter(local_echoes()) == Seq::<Arc<TimelineItem>>::empty(),
    decreases items.len(),
{
    if items.len() > 0 {
        let rest = items.drop_first();
        assert forall|i: int| 0 <= i < rest.len() implies !(#[trigger] rest[i]).is_local_echo() by {
            assert(rest[i] == items[i + 1]);
        }
        lemma_filter_none(rest);
        lemma_filter_front(items, local_echoes());
        assert(!items[0].is_local_echo());
    } else {
        reveal(Seq::filter);
    }
}

/// A clear leaves nothing but local echoes, each maybe with a day divider right above it.
pub proof fn law_clear_leaves_local_echoes_only(items: Seq<Arc<TimelineItem>>)
    ensures
        forall|i: int|
            0 <= i < cleared_items(items).len() ==> (#[trigger] cleared_items(
                items,
            )[i]).is_local_echo() || cleared_items(items)[i].is_day_divider(),
        forall|i: int|
            #![trigger cleared_items(items)[i]]
            0 <= i < cleared_items(items).len() && cleared_items(items)[i].is_day_divider() ==> i
                + 1 < cleared_items(items).len() && cleared_items(items)[i + 1].is_local_echo(),
{
    let kept = items.filter(is_kept());
    lemma_filter_narrower(items, is_kept(), local_echoes());
    if has_local_echoes(items) {
        lemma_without_stray_dividers(kept, is_kept());
        let left = cleared_items(items);
        assert forall|i: int| 0 <= i < left.len() implies (#[trigger] left[i]).is_local_echo()
            || left[i].is_day_divider() by {
            assert(is_kept()(left[i]));
        }
        assert forall|i: int|
            #![trigger left[i]]
            0 <= i < left.len() && left[i].is_day_divider() implies i + 1 < left.len() && left[i
            + 1].is_local_echo() by {
            assert(!left[i + 1].is_day_divider());
        }
    }
}

/// Clearing a timeline again changes nothing.
pub proof fn law_second_clear_changes_nothing(items: Seq<Arc<TimelineItem>>)
    ensures
        cleared_items(cleared_items(items)) == cleared_items(items),
{
    let left = cleared_items(items);
    law_clear_leaves_local_echoes_only(items);
    assert forall|i: int| 0 <= i < left.len() implies is_kept()(#[trigger] left[i]) by {}
    lemma_filter_narrower(left, is_kept(), local_echoes());
    assert(no_stray_dividers(left));
    lemma_without_stray_dividers(left, is_kept());
    if left.len() > 0 && !has_local_echoes(left) {
        assert(left[0].is_day_divider());
        assert(left[1].is_local_echo());
    }
}

/// The item is an event of our own that the server has not sent back.
pub open spec fn is_own_echo(item: Arc<TimelineItem>) -> bool {
    item.kind matches TimelineItemKind::Event(event) && event.kind is Local
}

/// The item separates two days.
pub open spec fn separates_days(item: Arc<TimelineItem>) -> bool {
    item.kind matches TimelineItemKind::Virtual(VirtualTimelineItem::DayDivider(_))
}

/// Whether an item outlives a clear: a local echo does, and so does a day divider if the first item
/// below it that is no remote event and no read marker is a local echo.
pub open spec fn outlives_clear(items: Seq<Arc<TimelineItem>>, at: int) -> bool {
    ||| is_own_echo(items[at])
    ||| separates_days(items[at]) && exists|echo: int|
        at < echo < items.len() && is_own_echo(#[trigger] items[echo]) && forall|i: int|
            at < i < echo ==> !is_own_echo(#[trigger] items[i]) && !separates_days(items[i])
}

/// The items that outlive a clear, from the given position on.
pub open spec fn survivors(items: Seq<Arc<TimelineItem>>, from: int) -> Seq<Arc<TimelineItem>>
    decreases items.len() - from,
{
    if from < 0 || items.len() <= from {
        Seq::empty()
    } else if outlives_clear(items, from) {
        seq![items[from]] + survivors(items, from + 1)
    } else {
        survivors(items, from + 1)
    }
}

/// The first item that a filter keeps is the first one that it lets through.
proof fn lemma_first_kept(items: Seq<Arc<TimelineItem>>, from: int)
    requires
        0 <= from <= items.len(),
    ensures
        ({
            let kept = items.skip(from).filter(is_kept());
            if kept.len() == 0 {
                forall|i: int| from <= i < items.len() ==> !is_kept()(#[trigger] items[i])
            } else {
                exists|first: int|
                    from <= first < items.len() && #[trigger] items[first] == kept[0] && is_kept()(
                        items[first],
                    ) && forall|i: int| from <= i < first ==> !is_kept()(#[trigger] items[i])
            }
        }),
    decreases items.len() - from,
{
    let rest = items.skip(from);
    if from < items.len() {
        lemma_filter_front(rest, is_kept());
        assert(rest.drop_first() == items.skip(from + 1));
        lemma_first_kept(items, from + 1);
        if is_kept()(items[from]) {
            assert(rest.filter(is_kept())[0] == items[from]);
        } else {
            let kept = items.skip(from + 1).filter(is_kept());
            if kept.len() > 0 {
                let first = choose|first: int|
                    from + 1 <= first < items.len() && #[trigger] items[first] == kept[0]
                        && is_kept()(items[first]) && forall|i: int|
                        from + 1 <= i < first ==> !is_kept()(#[trigger] items[i]);
                assert(items[first] == kept[0]);
            }
        }
    } else {
        reveal(Seq::filter);
    }
}

/// Dropping stray day dividers from what is kept leaves the survivors.
proof fn lemma_survivors(items: Seq<Arc<TimelineItem>>, from: int)
    requires
        0 <= from <= items.len(),
    ensures
        without_stray_dividers(items.skip(from).filter(is_kept())) == survivors(items, from),
    decreases items.len() - from,
{
    let rest = items.skip(from);
    if from < items.len() {
        lemma_filter_front(rest, is_kept());
        assert(rest.drop_first() == items.skip(from + 1));
        lemma_survivors(items, from + 1);
        let later = items.skip(from + 1).filter(is_kept());
        let kept = rest.filter(is_kept());
        assert forall|i: int| 0 <= i < items.len() implies is_kept()(#[trigger] items[i]) == (
        is_own_echo(items[i]) || separates_days(items[i])) by {}
        if is_kept()(items[from]) {
            assert(kept.drop_first() == later);
            lemma_first_kept(items, from + 1);
            if separates_days(items[from]) {
                if later.len() > 0 {
                    assert(kept[1] == later[0]);
                    let first = choose|first: int|
                        from + 1 <= first < items.len() && #[trigger] items[first] == later[0]
                            && is_kept()(items[first]) && forall|i: int|
                            from + 1 <= i < first ==> !is_kept()(#[trigger] items[i]);
                    assert forall|i: int| from < i < first implies !is_own_echo(
                        #[trigger] items[i],
                    ) && !separates_days(items[i]) by {
                        assert(!is_kept()(items[i]));
                    }
                    if outlives_clear(items, from) {
                        let echo = choose|echo: int|
                            from < echo < items.len() && is_own_echo(#[trigger] items[echo])
                                && forall|i: int|
                                from < i < echo ==> !is_own_echo(#[trigger] items[i])
                                    && !separates_days(items[i]);
                        assert(is_kept()(items[echo]));
                        assert(echo == first) by {
                            if first < echo {
                                assert(is_kept()(items[first]));
                            }
                        }
                    } else {
                        assert(!is_own_echo(items[first]));
                    }
                } else {
                    if outlives_clear(items, from) {
                        let echo = choose|echo: int|
                            from < echo < items.len() && is_own_echo(#[trigger] items[echo])
                                && forall|i: int|
                                from < i < echo ==> !is_own_echo(#[trigger] items[i])
                                    && !separates_days(items[i]);
                        assert(!is_kept()(items[echo]));
                    }
                }
            }
        } else {
            assert(!is_own_echo(items[from]) && !separates_days(items[from]));
        }
    } else {
        reveal(Seq::filter);
    }
}

/// Where there is no local echo, nothing survives.
proof fn lemma_no_survivors(items: Seq<Arc<TimelineItem>>, from: int)
    requires
        0 <= from <= items.len(),
        !has_local_echoes(items),
    ensures
        survivors(items, from).len() == 0,
    decreases items.len() - from,
{
    assert forall|i: int| 0 <= i < items.len() implies !is_own_echo(#[trigger] items[i]) by {
        assert(!items[i].is_local_echo());
    }
    if from < items.len() {
        lemma_no_survivors(items, from + 1);
    }
}

/// A clear leaves exactly the local echoes, and of the day dividers those right below which, but for
/// remote events and read markers, a local echo stands. All stay in their order, so that each local
/// echo stays under its own day.
pub proof fn law_clear_leaves_the_survivors(items: Seq<Arc<TimelineItem>>)
    ensures
        cleared_items(items) == survivors(items, 0),
{
    assert(items.skip(0) == items);
    lemma_survivors(items, 0);
    if !has_local_echoes(items) {
        lemma_no_survivors(items, 0);
    }
}

/// Removing remote items one by one is filtering.
proof fn lemma_remote_removals(above: Seq<Arc<TimelineItem>>, items: Seq<Arc<TimelineItem>>)
    ensures
        replayed(above + items, remote_removals(items, above.len() as int)) == above + items.filter(
            is_kept(),
        ),
        forall|i: int|
            0 <= i < remote_removals(items, above.len() as int).len() ==> (
            #[trigger] remote_removals(items, above.len() as int)[i]) is Remove,
    decreases items.len(),
{
    if items.len() == 0 {
        reveal(Seq::filter);
        assert(items.filter(is_kept()) == items);
    } else {
        let rest = items.drop_first();
        lemma_filter_front(items, is_kept());
        if is_kept()(items[0]) {
            let further = above.push(items[0]);
            assert(further + rest == above + items);
            lemma_remote_removals(further, rest);
            assert(further + rest.filter(is_kept()) == above + items.filter(is_kept()));
        } else {
            let removal = VectorUpdate::Remove { from: above.len() as int };
            lemma_remote_removals(above, rest);
            lemma_replayed(
                above + items,
                seq![removal],
                remote_removals(rest, above.len() as int),
            );
            lemma_one_replayed(above + items, removal);
            assert((above + items).remove(above.len() as int) == above + rest);
        }
    }
}

/// Removing stray day dividers one by one leaves the others.
proof fn lemma_divider_removals(above: Seq<Arc<TimelineItem>>, items: Seq<Arc<TimelineItem>>)
    ensures
        replayed(above + items, divider_removals(items, above.len() as int)) == above
            + without_stray_dividers(items),
        forall|i: int|
            0 <= i < divider_removals(items, above.len() as int).len() ==> (
            #[trigger] divider_removals(items, above.len() as int)[i]) is Remove,
    decreases items.len(),
{
    if items.len() > 0 {
        let rest = items.drop_first();
        if items[0].is_day_divider() && (items.len() == 1 || items[1].is_day_divider()) {
            let removal = VectorUpdate::Remove { from: above.len() as int };
            lemma_divider_removals(above, rest);
            lemma_replayed(
                above + items,
                seq![removal],
                divider_removals(rest, above.len() as int),
            );
            lemma_one_replayed(above + items, removal);
            assert((above + items).remove(above.len() as int) == above + rest);
        } else {
            let further = above.push(items[0]);
            assert(further + rest == above + items);
            lemma_divider_removals(further, rest);
            assert(further + without_stray_dividers(rest) == above + without_stray_dividers(
                items,
            ));
        }
    }
}

/// A single update is applied as such.
proof fn lemma_one_replayed(items: Seq<Arc<TimelineItem>>, update: VectorUpdate)
    ensures
        replayed(items, seq![update]) == applied(items, update),
{
    reveal_with_fuel(replayed, 2);
    assert(seq![update].drop_last() == Seq::<VectorUpdate>::empty());
}

/// What subscribers are told of a clear leads from the items before it to those after it. It is a
/// single update that there is nothing left, or else removals alone.
pub proof fn law_clear_updates_are_told(items: Seq<Arc<TimelineItem>>)
    ensures
        replayed(items, clear_updates(items)) == cleared_items(items),
        (forall|i: int| 0 <= i < items.len() ==> !is_own_echo(#[trigger] items[i]))
            ==> clear_updates(items) == seq![VectorUpdate::Clear],
        (exists|i: int| 0 <= i < items.len() && is_own_echo(#[trigger] items[i])) ==> forall|i: int|
            0 <= i < clear_updates(items).len() ==> (#[trigger] clear_updates(items)[i]) is Remove,
{
    let nothing = Seq::<Arc<TimelineItem>>::empty();
    let kept = items.filter(is_kept());
    lemma_remote_removals(nothing, items);
    lemma_divider_removals(nothing, kept);
    lemma_replayed(items, remote_removals(items, 0), divider_removals(kept, 0));
    lemma_one_replayed(items, VectorUpdate::Clear);
    assert(nothing + items == items);
    assert(nothing + kept == kept);
    assert(nothing + without_stray_dividers(kept) == without_stray_dividers(kept));
    assert forall|i: int| 0 <= i < items.len() implies is_own_echo(#[trigger] items[i])
        == items[i].is_local_echo() by {}
    if exists|i: int| 0 <= i < items.len() && is_own_echo(#[trigger] items[i]) {
        let echo = choose|i: int| 0 <= i < items.len() && is_own_echo(#[trigger] items[i]);
        assert(items[echo].is_local_echo());
    }
}

} // verus!
