use ckb_another_exporter::aggregator::{MetricUpdate, Metrics, SHRINK_CAPACITY};
use ckb_another_exporter::event::{BlockEvent, ProposalShortId, Transaction};

fn tx(id: u128) -> Transaction {
    Transaction { proposal_short_id: ProposalShortId(id) }
}

fn block(number: u64, commits: &[u128], proposals: &[u128]) -> BlockEvent {
    BlockEvent {
        number,
        transactions: commits.iter().map(|id| tx(*id)).collect(),
        proposals: proposals.iter().map(|id| ProposalShortId(*id)).collect(),
    }
}

fn delays(updates: &[MetricUpdate]) -> Vec<u64> {
    updates
        .iter()
        .filter_map(|u| match u {
            MetricUpdate::DelayBlocks(d) => Some(*d),
            _ => None,
        })
        .collect()
}

#[test]
fn new_aggregator_is_empty() {
    let m = Metrics::new();
    assert_eq!(m.window_len(), 0);
    assert_eq!(m.pending_len(), 0);
    assert_eq!(m.total_transactions(), 0);
}

#[test]
fn first_block_sets_both_watermarks() {
    let mut m = Metrics::new();
    let updates = m.new_block(block(500, &[1, 2], &[]));
    assert_eq!(m.min_number(), 500);
    assert_eq!(m.max_number(), 500);
    assert_eq!(
        updates,
        vec![MetricUpdate::BlockTransactionsTotal(2), MetricUpdate::TipNumber(500)]
    );
}

#[test]
fn watermarks_follow_lower_and_higher_blocks() {
    let mut m = Metrics::new();
    m.new_block(block(500, &[], &[]));
    let updates = m.new_block(block(450, &[], &[]));
    assert_eq!(updates[1], MetricUpdate::TipNumber(450));
    m.new_block(block(520, &[], &[]));
    assert_eq!(m.min_number(), 450);
    assert_eq!(m.max_number(), 520);
    assert_eq!(m.window_len(), 3);
}

#[test]
fn proposal_then_commit_scenario() {
    let x: u128 = 0xabc;
    let mut m = Metrics::new();
    let mut all = Vec::new();
    let mut last_tip = 0;
    for h in 1..=100u64 {
        let commit = if h == 50 { x } else { 10_000 + h as u128 };
        let proposals: Vec<u128> = if h == 1 { vec![x] } else { vec![] };
        let updates = m.new_block(block(h, &[commit], &proposals));
        for u in &updates {
            if let MetricUpdate::TipNumber(t) = u {
                last_tip = *t;
            }
        }
        all.extend(updates);
    }
    assert_eq!(delays(&all), vec![49]);
    assert_eq!(last_tip, 100);
    assert_eq!(m.total_transactions(), 100);
}

#[test]
fn unresolved_stream_keeps_window_bounded() {
    let mut m = Metrics::new();
    for h in 1..=2500u64 {
        let updates = m.new_block(block(h, &[1_000_000 + h as u128], &[h as u128]));
        assert!(delays(&updates).is_empty());
    }
    assert!(m.window_len() <= (SHRINK_CAPACITY + 1) as usize);
    assert_eq!(m.window_len(), 1001);
    assert_eq!(m.min_number(), 1500);
    assert!(m.window_contains(m.min_number()));
    assert!(!m.window_contains(m.min_number() - 1));
    assert_eq!(m.pending_number(ProposalShortId(1499)), None);
    assert_eq!(m.pending_number(ProposalShortId(1500)), Some(1500));
    assert_eq!(m.pending_len(), 1001);
}

#[test]
fn window_bounded_right_after_shrink() {
    let mut m = Metrics::new();
    for h in 1..=1099u64 {
        m.new_block(block(h, &[], &[]));
    }
    assert_eq!(m.window_len(), 1099);
    m.new_block(block(1100, &[], &[]));
    assert_eq!(m.window_len(), 1001);
    assert_eq!(m.min_number(), 100);
}

#[test]
fn window_grows_while_no_shrink_triggers() {
    let mut m = Metrics::new();
    for k in 0..1201u64 {
        m.new_block(block(2 * k + 1, &[], &[]));
    }
    assert_eq!(m.window_len(), 1201);
    assert_eq!(m.min_number(), 1);
}

#[test]
fn shrink_drops_old_proposals() {
    let mut m = Metrics::new();
    m.new_block(block(1, &[], &[7]));
    m.new_block(block(1200, &[], &[8]));
    assert_eq!(m.min_number(), 200);
    assert_eq!(m.pending_number(ProposalShortId(7)), None);
    assert_eq!(m.pending_number(ProposalShortId(8)), Some(1200));
    assert!(!m.window_contains(1));
    let updates = m.new_block(block(1201, &[7], &[]));
    assert!(delays(&updates).is_empty());
}

#[test]
fn out_of_order_total_is_sum() {
    let mut m = Metrics::new();
    m.new_block(block(30, &[1, 2, 3], &[]));
    m.new_block(block(10, &[4], &[]));
    m.new_block(block(20, &[], &[]));
    m.new_block(block(5, &[5, 6], &[]));
    assert_eq!(m.total_transactions(), 6);
}

#[test]
fn same_block_commit_emits_no_delay() {
    let mut m = Metrics::new();
    m.new_block(block(10, &[], &[9]));
    let updates = m.new_block(block(10, &[9], &[]));
    assert!(delays(&updates).is_empty());
    assert_eq!(m.pending_number(ProposalShortId(9)), None);
}

#[test]
fn commit_below_proposal_emits_no_delay() {
    let mut m = Metrics::new();
    m.new_block(block(20, &[], &[9]));
    let updates = m.new_block(block(15, &[9], &[]));
    assert!(delays(&updates).is_empty());
    assert_eq!(m.pending_number(ProposalShortId(9)), None);
}

#[test]
fn proposal_in_same_block_as_commit_is_registered_after() {
    let mut m = Metrics::new();
    let updates = m.new_block(block(10, &[9], &[9]));
    assert!(delays(&updates).is_empty());
    assert_eq!(m.pending_number(ProposalShortId(9)), Some(10));
    let updates = m.new_block(block(13, &[9], &[]));
    assert_eq!(delays(&updates), vec![3]);
}

#[test]
fn first_proposal_height_wins() {
    let mut m = Metrics::new();
    m.new_block(block(10, &[], &[5]));
    m.new_block(block(20, &[], &[5]));
    assert_eq!(m.pending_number(ProposalShortId(5)), Some(10));
    let updates = m.new_block(block(30, &[5], &[]));
    assert_eq!(delays(&updates), vec![20]);
}

#[test]
fn repeated_commit_in_one_block_counts_once() {
    let mut m = Metrics::new();
    m.new_block(block(1, &[], &[4]));
    let updates = m.new_block(block(8, &[4, 4], &[]));
    assert_eq!(
        updates,
        vec![
            MetricUpdate::BlockTransactionsTotal(2),
            MetricUpdate::TipNumber(8),
            MetricUpdate::DelayBlocks(7),
        ]
    );
}

#[test]
fn resubmitted_event_doubles_total() {
    let mut m = Metrics::new();
    let e = block(42, &[1, 2, 3], &[]);
    m.new_block(e.clone());
    assert_eq!(m.total_transactions(), 3);
    m.new_block(e);
    assert_eq!(m.total_transactions(), 6);
    assert_eq!(m.window_len(), 1);
}

#[test]
fn proposal_id_from_bytes_is_big_endian() {
    assert_eq!(ProposalShortId::from_bytes([0, 0, 0, 0, 0, 0, 0, 0, 1, 2]).0, 258);
    assert_eq!(
        ProposalShortId::from_bytes([1, 0, 0, 0, 0, 0, 0, 0, 0, 0]).0,
        1u128 << 72
    );
    assert_eq!(
        ProposalShortId::from_bytes([255; 10]).0,
        (1u128 << 80) - 1
    );
}

#[test]
fn default_aggregator_matches_new() {
    let mut m = Metrics::default();
    assert_eq!(m.window_len(), 0);
    let updates = m.new_block(block(3, &[1], &[2]));
    assert_eq!(
        updates,
        vec![MetricUpdate::BlockTransactionsTotal(1), MetricUpdate::TipNumber(3)]
    );
    assert_eq!(m.pending_number(ProposalShortId(2)), Some(3));
}

#[test]
fn total_is_the_same_in_any_order() {
    let events = vec![
        block(30, &[1, 2, 3], &[]),
        block(10, &[4], &[]),
        block(20, &[], &[]),
        block(5, &[5, 6], &[]),
    ];
    let mut forward = Metrics::new();
    for e in events.iter() {
        forward.new_block(e.clone());
    }
    let mut backward = Metrics::new();
    for e in events.iter().rev() {
        backward.new_block(e.clone());
    }
    assert_eq!(forward.total_transactions(), 6);
    assert_eq!(backward.total_transactions(), 6);
}
