//! Properties of the aggregator over whole sequences of block events.

use vstd::prelude::*;

use crate::aggregator::{
    delay_updates, lemma_step_wf, MetricUpdate, MetricsView, SHRINK_CAPACITY, SHRINK_PERIOD,
};
use crate::event::BlockEvent;

verus! {

/// The state after feeding `events`, in order, to an aggregator in state `v`.
pub open spec fn run(v: MetricsView, events: Seq<BlockEvent>) -> MetricsView
    decreases events.len(),
{
    if events.len() == 0 {
        v
    } else {
        run(v, events.drop_last()).step(events.last())
    }
}

/// The number of transactions over all of `events`.
pub open spec fn transaction_count(events: Seq<BlockEvent>) -> nat
    decreases events.len(),
{
    if events.len() == 0 {
        0
    } else {
        (transaction_count(events.drop_last()) + events.last().transactions.len()) as nat
    }
}

/// Feeding any events to a state that satisfies the invariant keeps it.
pub proof fn lemma_run_wf(v: MetricsView, events: Seq<BlockEvent>)
    requires
        v.wf(),
    ensures
        run(v, events).wf(),
    decreases events.len(),
{
    if events.len() > 0 {
        lemma_run_wf(v, events.drop_last());
        lemma_step_wf(run(v, events.drop_last()), events.last());
    }
}

/// A finite set of heights between `low` and `high` has at most `high - low + 1` members.
pub proof fn lemma_heights_bounded(s: Set<u64>, low: u64, high: u64)
    requires
        s.finite(),
        low <= high,
        forall|k: u64| #[trigger] s.contains(k) ==> low <= k <= high,
    ensures
        s.len() <= high - low + 1,
    decreases high - low,
{
    if low == high {
        vstd::set_lib::lemma_len_subset(s, set![low]);
    } else {
        let rest = s.remove(high);
        lemma_heights_bounded(rest, low, (high - 1) as u64);
    }
}

/// After any sequence of block events the window holds no more blocks than its watermarks
/// span, and whenever the high watermark has triggered a shrink cycle it holds at most
/// `SHRINK_CAPACITY + 1` blocks.
pub proof fn lemma_window_bounded(events: Seq<BlockEvent>)
    ensures
        run(MetricsView::initial(), events).started ==> run(
            MetricsView::initial(),
            events,
        ).window.len() <= run(MetricsView::initial(), events).max_number - run(
            MetricsView::initial(),
            events,
        ).min_number + 1,
        run(MetricsView::initial(), events).max_number % SHRINK_PERIOD == 0 ==> run(
            MetricsView::initial(),
            events,
        ).window.len() <= SHRINK_CAPACITY + 1,
{
    let v = run(MetricsView::initial(), events);
    lemma_run_wf(MetricsView::initial(), events);
    if v.started {
        lemma_heights_bounded(v.window.dom(), v.min_number, v.max_number);
    } else {
        assert(v.window.dom() =~= Set::<u64>::empty());
    }
}

/// The running total is the starting total plus the transactions of every event fed, in
/// whatever order the heights come.
pub proof fn lemma_total_is_sum(v: MetricsView, events: Seq<BlockEvent>)
    ensures
        run(v, events).total_transactions == v.total_transactions + transaction_count(events),
    decreases events.len(),
{
    if events.len() > 0 {
        lemma_total_is_sum(v, events.drop_last());
    }
}

/// Taking one event out of a sequence takes its transactions out of the count.
proof fn lemma_count_remove(events: Seq<BlockEvent>, i: int)
    requires
        0 <= i < events.len(),
    ensures
        transaction_count(events) == transaction_count(events.remove(i))
            + events[i].transactions.len(),
    decreases events.len(),
{
    if i == events.len() - 1 {
        assert(events.remove(i) =~= events.drop_last());
    } else {
        let front = events.drop_last();
        lemma_count_remove(front, i);
        assert(events.remove(i).drop_last() =~= front.remove(i));
        assert(events.remove(i).last() == events.last());
    }
}

/// Two sequences holding the same events, in whatever order, hold as many transactions.
proof fn lemma_count_permutation(a: Seq<BlockEvent>, b: Seq<BlockEvent>)
    requires
        a.to_multiset() == b.to_multiset(),
    ensures
        transaction_count(a) == transaction_count(b),
    decreases a.len(),
{
    broadcast use vstd::seq_lib::group_to_multiset_ensures;

    if a.len() == 0 {
        assert(a.to_multiset().len() == 0);
        assert(b.to_multiset().len() == b.len());
        assert(b.len() == 0);
        assert(b =~= Seq::<BlockEvent>::empty());
    } else {
        let x = a.last();
        let front = a.drop_last();
        assert(a =~= front.push(x));
        assert(a.to_multiset() == front.to_multiset().insert(x));
        assert(a.to_multiset().count(x) > 0);
        assert(b.contains(x));
        let j = choose|j: int| 0 <= j < b.len() && b[j] == x;
        let rest = b.remove(j);
        assert(rest.to_multiset() == b.to_multiset().remove(x));
        assert(front.to_multiset() =~= rest.to_multiset());
        lemma_count_permutation(front, rest);
        lemma_count_remove(b, j);
    }
}

/// The running total does not depend on the order in which the events arrive: feeding the
/// same events in any other order, out-of-order heights included, gives the same total.
pub proof fn lemma_total_order_free(v: MetricsView, a: Seq<BlockEvent>, b: Seq<BlockEvent>)
    requires
        a.to_multiset() == b.to_multiset(),
    ensures
        run(v, a).total_transactions == run(v, b).total_transactions,
{
    lemma_total_is_sum(v, a);
    lemma_total_is_sum(v, b);
    lemma_count_permutation(a, b);
}

/// Every delay update that a block emits is positive, and is the distance from the height
/// at which one of its committed proposals was recorded up to the block's own height.
pub proof fn lemma_delays_positive(pending: Map<u128, u64>, ids: Seq<u128>, number: u64)
    ensures
        forall|i: int|
            0 <= i < delay_updates(pending, ids, number).len() ==> exists|id: u128|
                {
                    &&& ids.contains(id)
                    &&& pending.contains_key(id)
                    &&& pending[id] < number
                    &&& #[trigger] delay_updates(pending, ids, number)[i]
                        == MetricUpdate::DelayBlocks((number - pending[id]) as u64)
                },
    decreases ids.len(),
{
    if ids.len() > 0 {
        let earlier = ids.drop_last();
        lemma_delays_positive(pending, earlier, number);
        let before = delay_updates(pending, earlier, number);
        let all = delay_updates(pending, ids, number);
        let last = ids.last();
        assert(ids[ids.len() - 1] == last);
        assert(ids.contains(last));
        assert forall|i: int| 0 <= i < all.len() implies exists|id: u128|
            {
                &&& ids.contains(id)
                &&& pending.contains_key(id)
                &&& pending[id] < number
                &&& #[trigger] delay_updates(pending, ids, number)[i] == MetricUpdate::DelayBlocks(
                    (number - pending[id]) as u64,
                )
            } by {
            if i < before.len() {
                assert(all[i] == before[i]);
                let id = choose|id: u128|
                    {
                        &&& earlier.contains(id)
                        &&& pending.contains_key(id)
                        &&& pending[id] < number
                        &&& #[trigger] delay_updates(pending, earlier, number)[i]
                            == MetricUpdate::DelayBlocks((number - pending[id]) as u64)
                    };
                let j = choose|j: int| 0 <= j < earlier.len() && earlier[j] == id;
                assert(ids[j] == id);
                assert(ids.contains(id));
            } else {
                assert(all[i] == MetricUpdate::DelayBlocks((number - pending[last]) as u64));
            }
        }
    }
}

/// Every unresolved proposal was registered by one of the events fed, at that event's
/// height.
pub proof fn lemma_pending_registered(events: Seq<BlockEvent>)
    ensures
        forall|id: u128| #[trigger]
            run(MetricsView::initial(), events).pending.contains_key(id) ==> exists|j: int|
                0 <= j < events.len() && events[j].number == run(
                    MetricsView::initial(),
                    events,
                ).pending[id] && #[trigger] events[j].proposed_ids().contains(id),
    decreases events.len(),
{
    if events.len() > 0 {
        let earlier = events.drop_last();
        lemma_pending_registered(earlier);
        let v = run(MetricsView::initial(), earlier);
        let e = events.last();
        assert forall|id: u128| #[trigger]
            run(MetricsView::initial(), events).pending.contains_key(id) implies exists|j: int|
                0 <= j < events.len() && events[j].number == run(
                    MetricsView::initial(),
                    events,
                ).pending[id] && #[trigger] events[j].proposed_ids().contains(id) by {
            if v.pending.contains_key(id) && !e.committed_ids().to_set().contains(id) {
                let j = choose|j: int|
                    0 <= j < earlier.len() && earlier[j].number == v.pending[id]
                        && #[trigger] earlier[j].proposed_ids().contains(id);
                assert(events[j] == earlier[j]);
            } else {
                assert(events[events.len() - 1] == e);
            }
        }
    }
}

/// After any sequence of block events, and so after every shrink cycle, no unresolved
/// proposal is recorded below the low watermark.
pub proof fn lemma_pending_above_low(events: Seq<BlockEvent>)
    ensures
        forall|id: u128| #[trigger]
            run(MetricsView::initial(), events).pending.contains_key(id) ==> run(
                MetricsView::initial(),
                events,
            ).min_number <= run(MetricsView::initial(), events).pending[id],
{
    lemma_run_wf(MetricsView::initial(), events);
}

/// The same event fed twice is counted twice: the total grows by twice its transactions.
pub proof fn lemma_repeat_counts_twice(v: MetricsView, e: BlockEvent)
    ensures
        run(v, seq![e, e]).total_transactions == v.total_transactions + 2
            * e.transactions.len(),
{
    let once = seq![e];
    let twice = seq![e, e];
    assert(once.drop_last() =~= Seq::<BlockEvent>::empty());
    assert(run(v, Seq::<BlockEvent>::empty()) == v);
    assert(once.last() == e);
    assert(run(v, once) == v.step(e));
    assert(twice.last() == e);
    assert(twice.drop_last() =~= once);
    assert(run(v, twice) == v.step(e).step(e));
}

} // verus!
