//! The metrics aggregator: running counters over a bounded window of recent blocks.

use std::collections::HashMap;
use vstd::prelude::*;

use crate::event::{BlockEvent, ProposalShortId, Transaction};
use crate::laws::{lemma_delays_positive, lemma_heights_bounded};

verus! {

/// Width of the retained window: after a shrink cycle the window spans at most this many
/// heights past the low watermark.
pub const SHRINK_CAPACITY: u64 = 1000;

/// A shrink cycle runs whenever the high watermark is a multiple of this.
pub const SHRINK_PERIOD: u64 = 100;

/// One update for the metrics sink.
#[derive(Clone, Copy, Debug, PartialEq, Eq, Structural)]
pub enum MetricUpdate {
    /// Gauge `ckb.exporter.block_transactions_total` set to the running total.
    BlockTransactionsTotal(u64),
    /// Gauge `ckb.exporter.tip_number` set to the height just seen.
    TipNumber(u64),
    /// Counter `ckb.exporter.2pc_delay_blocks` raised by one, labelled with this delay.
    DelayBlocks(u64),
}

/// The abstract state of the aggregator.
pub struct MetricsView {
    /// Whether any block has been seen yet; the first block sets both watermarks.
    pub started: bool,
    pub min_number: u64,
    pub max_number: u64,
    pub total_transactions: nat,
    /// Retained blocks by height.
    pub window: Map<u64, BlockEvent>,
    /// Unresolved proposals: identifier to the height at which it was first proposed.
    pub pending: Map<u128, u64>,
}

/// Delay counter updates for the commits `ids` of a block at height `number`, met in order
/// against the proposals `pending`: a commit resolves its proposal on first sight only, and
/// counts only when the proposal is from a strictly lower height.
pub open spec fn delay_updates(pending: Map<u128, u64>, ids: Seq<u128>, number: u64) -> Seq<
    MetricUpdate,
>
    decreases ids.len(),
{
    if ids.len() == 0 {
        Seq::empty()
    } else {
        let earlier = ids.drop_last();
        let id = ids.last();
        let before = delay_updates(pending, earlier, number);
        if pending.contains_key(id) && !earlier.contains(id) && pending[id] < number {
            before.push(MetricUpdate::DelayBlocks((number - pending[id]) as u64))
        } else {
            before
        }
    }
}

/// Whether `u` is a delay increment for one of the commits `ids` of a block at height
/// `number`: its delay is positive and runs from the height at which `pending` recorded
/// that id.
pub open spec fn is_delay_of(u: MetricUpdate, pending: Map<u128, u64>, ids: Seq<u128>, number: u64) -> bool {
    exists|id: u128|
        {
            &&& ids.contains(id)
            &&& pending.contains_key(id)
            &&& pending[id] < number
            &&& u == MetricUpdate::DelayBlocks((number - pending[id]) as u64)
        }
}

/// Every id of `ids` mapped to `number`.
pub open spec fn proposed_at(ids: Seq<u128>, number: u64) -> Map<u128, u64> {
    Map::new(|id: u128| ids.contains(id), |id: u128| number)
}

/// The low watermark after a shrink cycle on watermarks `low` and `high`.
pub open spec fn shrink_target(low: u64, high: u64) -> u64 {
    if high - low > SHRINK_CAPACITY {
        (high - SHRINK_CAPACITY) as u64
    } else {
        low
    }
}

impl MetricsView {
    /// The state before any block.
    pub open spec fn initial() -> MetricsView {
        MetricsView {
            started: false,
            min_number: 0,
            max_number: 0,
            total_transactions: 0,
            window: Map::empty(),
            pending: Map::empty(),
        }
    }

    /// The invariant: retained heights and unresolved proposals lie at or above the low
    /// watermark, and a high watermark that triggers shrinking is within the capacity of it.
    pub open spec fn wf(self) -> bool {
        &&& self.window.dom().finite()
        &&& if self.started {
            &&& self.min_number <= self.max_number
            &&& forall|k: u64| #[trigger]
                self.window.contains_key(k) ==> self.min_number <= k <= self.max_number
            &&& forall|id: u128| #[trigger]
                self.pending.contains_key(id) ==> self.min_number <= self.pending[id]
            &&& self.max_number % SHRINK_PERIOD == 0 ==> self.max_number - self.min_number
                <= SHRINK_CAPACITY
        } else {
            &&& self.window == Map::<u64, BlockEvent>::empty()
            &&& self.pending == Map::<u128, u64>::empty()
        }
    }

    /// Low watermark once height `n` is seen.
    pub open spec fn low_after(self, n: u64) -> u64 {
        if self.started && self.min_number <= n {
            self.min_number
        } else {
            n
        }
    }

    /// High watermark once height `n` is seen.
    pub open spec fn high_after(self, n: u64) -> u64 {
        if self.started && n <= self.max_number {
            self.max_number
        } else {
            n
        }
    }

    /// Low watermark after block `e`, its shrink cycle included.
    pub open spec fn next_low(self, e: BlockEvent) -> u64 {
        let high = self.high_after(e.number);
        if high % SHRINK_PERIOD == 0 {
            shrink_target(self.low_after(e.number), high)
        } else {
            self.low_after(e.number)
        }
    }

    /// Unresolved proposals after the commits of `e` are met and its proposals registered,
    /// before any shrink cycle: the first height at which an id was proposed is kept.
    pub open spec fn registered(self, e: BlockEvent) -> Map<u128, u64> {
        proposed_at(e.proposed_ids(), e.number).union_prefer_right(
            self.pending.remove_keys(e.committed_ids().to_set()),
        )
    }

    /// The state after block `e`.
    pub open spec fn step(self, e: BlockEvent) -> MetricsView {
        let low = self.next_low(e);
        let registered = self.registered(e);
        MetricsView {
            started: true,
            min_number: low,
            max_number: self.high_after(e.number),
            total_transactions: (self.total_transactions + e.transactions.len()) as nat,
            window: self.window.insert(e.number, e).filter_keys(|k: u64| low <= k),
            pending: registered.filter_keys(|id: u128| low <= registered[id]),
        }
    }

    /// The updates that block `e` sends to the sink: the running total, the tip, then one
    /// delay increment per resolved proposal.
    pub open spec fn updates(self, e: BlockEvent) -> Seq<MetricUpdate> {
        seq![
            MetricUpdate::BlockTransactionsTotal(
                (self.total_transactions + e.transactions.len()) as u64,
            ),
            MetricUpdate::TipNumber(e.number),
        ] + delay_updates(self.pending, e.committed_ids(), e.number)
    }
}

/// A state that satisfies the invariant still does after any block.
pub proof fn lemma_step_wf(v: MetricsView, e: BlockEvent)
    requires
        v.wf(),
    ensures
        v.step(e).wf(),
{
    let w = v.step(e);
    let low = v.next_low(e);
    let low0 = v.low_after(e.number);
    let high = v.high_after(e.number);
    assert(low0 <= low <= high);
    let inserted = v.window.insert(e.number, e);
    assert(w.window.dom() =~= inserted.dom().filter(|k: u64| low <= k));
    assert forall|k: u64| #[trigger] w.window.contains_key(k) implies low <= k <= high by {
        if k != e.number {
            assert(v.window.contains_key(k));
        }
    }
    let registered = v.registered(e);
    assert forall|id: u128| #[trigger] w.pending.contains_key(id) implies low <= w.pending[id] by {}
}

/// The aggregator's state: owned by the single consumer of block events.
pub struct Metrics {
    window: HashMap<u64, BlockEvent>,
    started: bool,
    min_number: u64,
    max_number: u64,
    total_transactions: u64,
    pending: HashMap<u128, u64>,
}

/// The aggregator as the exporting thread drives it.
pub type Exporter = Metrics;

impl View for Metrics {
    type V = MetricsView;

    closed spec fn view(&self) -> MetricsView {
        MetricsView {
            started: self.started,
            min_number: self.min_number,
            max_number: self.max_number,
            total_transactions: self.total_transactions as nat,
            window: self.window@,
            pending: self.pending@,
        }
    }
}

impl Default for Metrics {
    fn default() -> (r: Metrics)
        ensures
            r@ == MetricsView::initial(),
    {
        Metrics::new()
    }
}

/// Whether a proposal recorded at height `number` survives a shrink to low watermark `low`.
fn still_pending(number: u64, low: u64) -> (r: bool)
    ensures
        r == (low <= number),
{
    low <= number
}

/// Relies on HashMap::retain: exactly the entries on which the predicate holds are kept.
#[verifier::external_body]
fn retain_pending_from(pending: &mut HashMap<u128, u64>, low: u64)
    ensures
        final(pending)@ == old(pending)@.filter_keys(|id: u128| low <= old(pending)@[id]),
{
    pending.retain(|_, number| still_pending(*number, low))
}

/// Resolves the proposals that `transactions` commit, in order, and appends a delay update
/// for each one proposed below `number`.
fn resolve_commits(
    pending: &mut HashMap<u128, u64>,
    transactions: &Vec<Transaction>,
    number: u64,
    updates: &mut Vec<MetricUpdate>,
)
    ensures
        final(pending)@ == old(pending)@.remove_keys(
            transactions@.map_values(|t: Transaction| t.proposal_short_id.0).to_set(),
        ),
        final(updates)@ == old(updates)@ + delay_updates(
            old(pending)@,
            transactions@.map_values(|t: Transaction| t.proposal_short_id.0),
            number,
        ),
{
    let ghost ids = transactions@.map_values(|t: Transaction| t.proposal_short_id.0);
    let ghost start = old(pending)@;
    let mut i: usize = 0;
    while i < transactions.len()
        invariant
            i <= transactions.len(),
            ids == transactions@.map_values(|t: Transaction| t.proposal_short_id.0),
            start == old(pending)@,
            pending@ == start.remove_keys(ids.take(i as int).to_set()),
            updates@ == old(updates)@ + delay_updates(start, ids.take(i as int), number),
        decreases transactions.len() - i,
    {
        let id = transactions[i].proposal_short_id.0;
        let ghost earlier = ids.take(i as int);
        proof {
            assert(ids.take(i + 1).drop_last() =~= earlier);
            assert(ids.take(i + 1).last() == id);
        }
        match pending.remove(&id) {
            Some(proposed) => {
                if proposed < number {
                    updates.push(MetricUpdate::DelayBlocks(number - proposed));
                }
            },
            None => {},
        }
        i = i + 1;
        proof {
            assert(ids.take(i as int).to_set() =~= earlier.to_set().insert(id));
            assert(pending@ =~= start.remove_keys(ids.take(i as int).to_set()));
            assert(updates@ =~= old(updates)@ + delay_updates(start, ids.take(i as int), number));
        }
    }
    proof {
        assert(ids.take(i as int) =~= ids);
    }
}

/// Records at height `number` every proposal of `proposals` not already pending.
fn register_proposals(
    pending: &mut HashMap<u128, u64>,
    proposals: &Vec<ProposalShortId>,
    number: u64,
)
    ensures
        final(pending)@ == proposed_at(
            proposals@.map_values(|p: ProposalShortId| p.0),
            number,
        ).union_prefer_right(old(pending)@),
{
    let ghost ids = proposals@.map_values(|p: ProposalShortId| p.0);
    let mut i: usize = 0;
    while i < proposals.len()
        invariant
            i <= proposals.len(),
            ids == proposals@.map_values(|p: ProposalShortId| p.0),
            pending@ == proposed_at(ids.take(i as int), number).union_prefer_right(old(pending)@),
        decreases proposals.len() - i,
    {
        let id = proposals[i].0;
        let ghost earlier = ids.take(i as int);
        let ghost before = pending@;
        if !pending.contains_key(&id) {
            pending.insert(id, number);
        }
        i = i + 1;
        proof {
            assert(ids.take(i as int) =~= earlier.push(id));
            assert forall|k: u128| #[trigger] ids.take(i as int).contains(k) <==> (earlier.contains(
                k,
            ) || k == id) by {
                if earlier.contains(k) {
                    let j = choose|j: int| 0 <= j < earlier.len() && earlier[j] == k;
                    assert(ids.take(i as int)[j] == k);
                }
                if k == id {
                    assert(ids.take(i as int)[i - 1] == k);
                }
            }
            assert(pending@ =~= proposed_at(ids.take(i as int), number).union_prefer_right(
                old(pending)@,
            ));
        }
    }
    proof {
        assert(ids.take(i as int) =~= ids);
    }
}

impl Metrics {
    /// An aggregator that has seen no block: counters zero, maps empty.
    pub fn new() -> (r: Metrics)
        ensures
            r@ == MetricsView::initial(),
            r.wf(),
    {
        Metrics {
            window: HashMap::new(),
            started: false,
            min_number: 0,
            max_number: 0,
            total_transactions: 0,
            pending: HashMap::new(),
        }
    }

    /// The aggregator's invariant.
    pub open spec fn wf(&self) -> bool {
        self@.wf()
    }

    /// Processes one block event and returns, in order, the metric updates it causes.
    ///
    /// The running total must stay representable.
    pub fn new_block(&mut self, event: BlockEvent) -> (r: Vec<MetricUpdate>)
        requires
            old(self).wf(),
            old(self)@.total_transactions + event.transactions.len() <= u64::MAX,
        ensures
            final(self).wf(),
            final(self)@ == old(self)@.step(event),
            r@ == old(self)@.updates(event),
            final(self)@.max_number % SHRINK_PERIOD == 0 ==> final(self)@.window.len()
                <= SHRINK_CAPACITY + 1,
            forall|id: u128| #[trigger]
                final(self)@.pending.contains_key(id) ==> final(self)@.min_number
                    <= final(self)@.pending[id],
            forall|i: int|
                2 <= i < r@.len() ==> is_delay_of(
                    #[trigger] r@[i],
                    old(self)@.pending,
                    event.committed_ids(),
                    event.number,
                ),
    {
        let ghost v = self@;
        let n = event.number;
        if !self.started || n > self.max_number {
            self.max_number = n;
        }
        if !self.started || n < self.min_number {
            self.min_number = n;
        }
        self.started = true;
        self.total_transactions = self.total_transactions + event.transactions.len() as u64;
        let mut updates: Vec<MetricUpdate> = Vec::new();
        updates.push(MetricUpdate::BlockTransactionsTotal(self.total_transactions));
        updates.push(MetricUpdate::TipNumber(n));
        resolve_commits(&mut self.pending, &event.transactions, n, &mut updates);
        register_proposals(&mut self.pending, &event.proposals, n);
        let ghost e = event;
        self.window.insert(n, event);
        proof {
            assert(self.min_number == v.low_after(n));
            assert(self.max_number == v.high_after(n));
            assert(self.pending@ =~= v.registered(e));
            assert forall|k: u64| #[trigger] self.window@.contains_key(k) implies self.min_number
                <= k <= self.max_number by {
                if k != n {
                    assert(v.window.contains_key(k));
                }
            }
            assert forall|id: u128| #[trigger] self.pending@.contains_key(id) implies self.min_number
                <= self.pending@[id] by {
                if !v.pending.contains_key(id) || e.committed_ids().to_set().contains(id) {
                    assert(self.pending@[id] == n);
                }
            }
        }
        if self.max_number % SHRINK_PERIOD == 0 {
            self.shrink();
        }
        proof {
            let w = v.step(e);
            let low = self.min_number;
            assert(low == v.next_low(e));
            assert(self.window@ =~= w.window);
            assert(self.pending@ =~= w.pending);
            lemma_step_wf(v, e);
            let w = self@;
            if w.max_number % SHRINK_PERIOD == 0 {
                lemma_heights_bounded(w.window.dom(), w.min_number, w.max_number);
            }
            lemma_delays_positive(v.pending, e.committed_ids(), n);
            assert(v == old(self)@);
            assert(e.number == n);
            assert forall|i: int| 2 <= i < updates@.len() implies is_delay_of(
                #[trigger] updates@[i],
                v.pending,
                e.committed_ids(),
                n,
            ) by {
                let ds = delay_updates(v.pending, e.committed_ids(), n);
                assert(updates@[i] == ds[i - 2]);
                let id = choose|id: u128|
                    {
                        &&& e.committed_ids().contains(id)
                        &&& v.pending.contains_key(id)
                        &&& v.pending[id] < n
                        &&& #[trigger] delay_updates(v.pending, e.committed_ids(), n)[i - 2]
                            == MetricUpdate::DelayBlocks((n - v.pending[id]) as u64)
                    };
                assert(updates@[i] == MetricUpdate::DelayBlocks((n - v.pending[id]) as u64));
            }
        }
        updates
    }

    /// Evicts the lowest heights until the window spans at most the capacity, then forgets
    /// the proposals recorded below the new low watermark.
    fn shrink(&mut self)
        requires
            old(self).started,
            old(self).min_number <= old(self).max_number,
            forall|k: u64| #[trigger]
                old(self).window@.contains_key(k) ==> old(self).min_number <= k,
        ensures
            final(self).started == old(self).started,
            final(self).max_number == old(self).max_number,
            final(self).total_transactions == old(self).total_transactions,
            final(self).min_number == shrink_target(old(self).min_number, old(self).max_number),
            final(self).window@ == old(self).window@.filter_keys(
                |k: u64| final(self).min_number <= k,
            ),
            final(self).pending@ == old(self).pending@.filter_keys(
                |id: u128| final(self).min_number <= old(self).pending@[id],
            ),
    {
        while self.max_number - self.min_number > SHRINK_CAPACITY
            invariant
                self.started == old(self).started,
                self.max_number == old(self).max_number,
                self.total_transactions == old(self).total_transactions,
                self.pending == old(self).pending,
                old(self).min_number <= self.min_number <= self.max_number,
                self.max_number - old(self).min_number > SHRINK_CAPACITY ==> self.min_number
                    <= self.max_number - SHRINK_CAPACITY,
                self.max_number - old(self).min_number <= SHRINK_CAPACITY ==> self.min_number
                    == old(self).min_number,
                self.window@ == old(self).window@.filter_keys(|k: u64| self.min_number <= k),
            decreases self.max_number - self.min_number,
        {
            let low = self.min_number;
            self.window.remove(&low);
            self.min_number = low + 1;
            proof {
                assert(self.window@ =~= old(self).window@.filter_keys(
                    |k: u64| self.min_number <= k,
                ));
            }
        }
        retain_pending_from(&mut self.pending, self.min_number);
    }

    /// Number of retained blocks.
    pub fn window_len(&self) -> (r: usize)
        ensures
            r == self@.window.len(),
    {
        self.window.len()
    }

    /// Whether the block at height `number` is retained.
    pub fn window_contains(&self, number: u64) -> (r: bool)
        ensures
            r == self@.window.contains_key(number),
    {
        self.window.contains_key(&number)
    }

    /// The low watermark.
    pub fn min_number(&self) -> (r: u64)
        ensures
            r == self@.min_number,
    {
        self.min_number
    }

    /// The high watermark.
    pub fn max_number(&self) -> (r: u64)
        ensures
            r == self@.max_number,
    {
        self.max_number
    }

    /// The number of transactions seen over all blocks.
    pub fn total_transactions(&self) -> (r: u64)
        ensures
            r == self@.total_transactions,
    {
        self.total_transactions
    }

    /// Number of unresolved proposals.
    pub fn pending_len(&self) -> (r: usize)
        ensures
            r == self@.pending.len(),
    {
        self.pending.len()
    }

    /// The height at which `id` was recorded as proposed, if it is unresolved.
    pub fn pending_number(&self, id: ProposalShortId) -> (r: Option<u64>)
        ensures
            r == (if self@.pending.contains_key(id.0) {
                Some(self@.pending[id.0])
            } else {
                None::<u64>
            }),
    {
        match self.pending.get(&id.0) {
            Some(number) => Some(*number),
            None => None,
        }
    }
}

} // verus!
