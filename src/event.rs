//! Decoded block events, as the aggregator reads them.

use vstd::prelude::*;

verus! {

/// Identifier that ties a transaction's proposal to its later commit.
///
/// It holds the identifier's ten raw bytes read as one big-endian integer, so two
/// identifiers are equal exactly when their bytes are.
#[derive(Clone, Copy, Debug, PartialEq, Eq, Structural, Hash)]
pub struct ProposalShortId(pub u128);

/// A committed transaction, reduced to the proposal identifier it carries.
#[derive(Clone, Copy, Debug, PartialEq, Eq, Structural)]
pub struct Transaction {
    pub proposal_short_id: ProposalShortId,
}

/// One block as decoded from a notification: its height, its transactions in order, and
/// the proposal identifiers the block references (its own and those carried over from
/// uncles).
#[derive(Clone, Debug)]
pub struct BlockEvent {
    pub number: u64,
    pub transactions: Vec<Transaction>,
    pub proposals: Vec<ProposalShortId>,
}

/// Number of bytes of a proposal short id.
pub const PROPOSAL_SHORT_ID_LEN: usize = 10;

/// The value of `bytes` read as a big-endian integer.
pub open spec fn big_endian(bytes: Seq<u8>) -> nat
    decreases bytes.len(),
{
    if bytes.len() == 0 {
        0
    } else {
        big_endian(bytes.drop_last()) * 256 + bytes.last() as nat
    }
}

/// `256` to the power `n`.
pub open spec fn pow256(n: nat) -> nat
    decreases n,
{
    if n == 0 {
        1
    } else {
        256 * pow256((n - 1) as nat)
    }
}

/// A big-endian value is below `256` to the power of its length.
proof fn lemma_big_endian_bound(bytes: Seq<u8>)
    ensures
        big_endian(bytes) < pow256(bytes.len()),
    decreases bytes.len(),
{
    if bytes.len() > 0 {
        let front = bytes.drop_last();
        lemma_big_endian_bound(front);
        let a = big_endian(front);
        let p = pow256(front.len());
        let b = bytes.last() as nat;
        assert(a * 256 + b < 256 * p) by (nonlinear_arith)
            requires
                a < p,
                b < 256,
        ;
    }
}

/// The value of `bytes`, at most ten of them, read as a big-endian integer.
fn read_big_endian(bytes: &[u8]) -> (r: u128)
    requires
        bytes@.len() <= PROPOSAL_SHORT_ID_LEN,
    ensures
        r == big_endian(bytes@),
{
    let mut acc: u128 = 0;
    let mut i: usize = 0;
    proof {
        reveal_with_fuel(pow256, 11);
        assert(pow256(10) == 1208925819614629174706176nat);
    }
    while i < bytes.len()
        invariant
            i <= bytes@.len() <= PROPOSAL_SHORT_ID_LEN,
            acc == big_endian(bytes@.take(i as int)),
            pow256(10) == 1208925819614629174706176nat,
        decreases bytes.len() - i,
    {
        proof {
            lemma_big_endian_bound(bytes@.take(i as int));
            lemma_pow256_monotone(i as nat, 9);
            assert(bytes@.take(i + 1).drop_last() =~= bytes@.take(i as int));
        }
        acc = acc * 256 + bytes[i] as u128;
        i = i + 1;
    }
    proof {
        assert(bytes@.take(i as int) =~= bytes@);
    }
    acc
}

impl ProposalShortId {
    /// The identifier with the given raw bytes.
    pub fn from_bytes(bytes: [u8; PROPOSAL_SHORT_ID_LEN]) -> (r: ProposalShortId)
        ensures
            r.0 == big_endian(bytes@),
    {
        ProposalShortId(read_big_endian(bytes.as_slice()))
    }

    /// The identifier with the given raw bytes, if there are exactly ten of them.
    pub fn from_slice(bytes: &[u8]) -> (r: Option<ProposalShortId>)
        ensures
            r.is_some() == (bytes@.len() == PROPOSAL_SHORT_ID_LEN),
            r.is_some() ==> r.unwrap().0 == big_endian(bytes@),
    {
        if bytes.len() == PROPOSAL_SHORT_ID_LEN {
            Some(ProposalShortId(read_big_endian(bytes)))
        } else {
            None
        }
    }
}

/// Powers of `256` grow with the exponent.
proof fn lemma_pow256_monotone(m: nat, n: nat)
    requires
        m <= n,
    ensures
        pow256(m) <= pow256(n),
    decreases n - m,
{
    if m < n {
        lemma_pow256_monotone(m, (n - 1) as nat);
    }
}

impl BlockEvent {
    /// Proposal identifiers of the block's transactions, in order.
    pub open spec fn committed_ids(self) -> Seq<u128> {
        self.transactions@.map_values(|t: Transaction| t.proposal_short_id.0)
    }

    /// Proposal identifiers the block references, in order.
    pub open spec fn proposed_ids(self) -> Seq<u128> {
        self.proposals@.map_values(|p: ProposalShortId| p.0)
    }
}

} // verus!
