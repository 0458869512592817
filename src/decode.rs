//! Decoding of a subscription notification into a block event.
//!
//! A notification's payload is a JSON block view. It is parsed and turned into the node's
//! block view by the node's own types, which hand out the height and the raw proposal ids;
//! those become a block event here.

use vstd::prelude::*;

use crate::event::{big_endian, BlockEvent, ProposalShortId, Transaction, PROPOSAL_SHORT_ID_LEN};

verus! {

#[verifier::external_type_specification]
#[verifier::external_body]
pub struct ExJsonError(serde_json::Error);

/// Why a notification yields no block event.
#[derive(Clone, Copy, Debug, PartialEq, Eq, Structural)]
pub enum DecodeError {
    /// The payload is not a JSON block view.
    Json,
    /// A proposal identifier of the block is not ten bytes long.
    ShortId,
}

/// What a text holds when it parses as a JSON block view: the block's height, the raw
/// proposal id of each of its transactions in order, and the raw proposal ids of the block
/// and of its uncles; nothing when it does not parse.
pub uninterp spec fn block_parts_of(text: Seq<char>) -> Option<(u64, Seq<Seq<u8>>, Seq<Seq<u8>>)>;

/// The contents of each byte vector of `v`.
pub open spec fn byte_views(v: Seq<Vec<u8>>) -> Seq<Seq<u8>> {
    v.map_values(|b: Vec<u8>| b@)
}

/// Whether every byte string of `ids` is a proposal identifier's length.
pub open spec fn all_short_ids(ids: Seq<Seq<u8>>) -> bool {
    forall|i: int| 0 <= i < ids.len() ==> (#[trigger] ids[i]).len() == PROPOSAL_SHORT_ID_LEN
}

/// The identifiers that `ids` hold, each read big-endian.
pub open spec fn id_values(ids: Seq<Seq<u8>>) -> Seq<int> {
    ids.map_values(|b: Seq<u8>| big_endian(b) as int)
}

/// The integer value of each identifier of `ids`.
pub open spec fn short_id_values(ids: Seq<ProposalShortId>) -> Seq<int> {
    ids.map_values(|p: ProposalShortId| p.0 as int)
}

/// Whether `e` is the block event of a block at height `number` whose transactions commit
/// the ids `commits` and which references the ids `proposals`, given as raw bytes.
pub open spec fn is_event_of(
    e: BlockEvent,
    number: u64,
    commits: Seq<Seq<u8>>,
    proposals: Seq<Seq<u8>>,
) -> bool {
    &&& e.number == number
    &&& e.committed_ids().map_values(|id: u128| id as int) == id_values(commits)
    &&& e.proposed_ids().map_values(|id: u128| id as int) == id_values(proposals)
}

/// Relies on jsonrpc_core::serde_from_str (serde_json underneath) to parse the text as a
/// ckb_jsonrpc_types::BlockView, turned by `From` into a ckb_types::core::BlockView, and on
/// that view's `number`, `transactions` with TransactionView::proposal_short_id, and
/// `union_proposal_ids_iter`. The outcome depends on the text alone. A packed
/// ProposalShortId is a fixed struct of ten bytes, so every id handed out has ten bytes.
#[verifier::external_body]
fn parse_block_parts(text: &str) -> (r: Result<(u64, Vec<Vec<u8>>, Vec<Vec<u8>>), serde_json::Error>)
    ensures
        r.is_ok() == block_parts_of(text@).is_some(),
        r.is_ok() ==> block_parts_of(text@) == Some(
            (r.unwrap().0, byte_views(r.unwrap().1@), byte_views(r.unwrap().2@)),
        ),
        r.is_ok() ==> all_short_ids(byte_views(r.unwrap().1@)),
        r.is_ok() ==> all_short_ids(byte_views(r.unwrap().2@)),
{
    let parsed: ckb_jsonrpc_types::BlockView = jsonrpc_core::serde_from_str(text)?;
    let block: ckb_types::core::BlockView = parsed.into();
    let commits = block.transactions().into_iter().map(|t| t.proposal_short_id().raw_data().to_vec());
    let proposals = block.union_proposal_ids_iter().map(|id| id.raw_data().to_vec());
    Ok((block.number(), commits.collect(), proposals.collect()))
}

/// Reads each byte string of `ids` as a proposal identifier, in order.
pub fn short_ids(ids: &Vec<Vec<u8>>) -> (r: Option<Vec<ProposalShortId>>)
    ensures
        r.is_some() == all_short_ids(byte_views(ids@)),
        r.is_some() ==> short_id_values(r.unwrap()@) == id_values(byte_views(ids@)),
{
    let mut out: Vec<ProposalShortId> = Vec::new();
    let mut i: usize = 0;
    while i < ids.len()
        invariant
            i <= ids@.len(),
            out@.len() == i,
            all_short_ids(byte_views(ids@.take(i as int))),
            short_id_values(out@) == id_values(byte_views(ids@.take(i as int))),
        decreases ids.len() - i,
    {
        let ghost before = out@;
        match ProposalShortId::from_slice(ids[i].as_slice()) {
            Some(id) => {
                out.push(id);
                proof {
                    assert(id.0 == big_endian(ids@[i as int]@));
                    assert(out@ == before.push(id));
                }
            },
            None => {
                proof {
                    assert(!all_short_ids(byte_views(ids@))) by {
                        assert(byte_views(ids@)[i as int].len() != PROPOSAL_SHORT_ID_LEN);
                    }
                }
                return None;
            },
        }
        proof {
            assert(ids@.take(i + 1) =~= ids@.take(i as int).push(ids@[i as int]));
            assert(byte_views(ids@.take(i + 1)) =~= byte_views(ids@.take(i as int)).push(
                ids@[i as int]@,
            ));
            assert forall|j: int| 0 <= j < i + 1 implies (#[trigger] short_id_values(out@)[j])
                == id_values(byte_views(ids@.take(i + 1)))[j] by {
                if j < i {
                    assert(out@[j] == before[j]);
                    assert(short_id_values(before)[j] == id_values(
                        byte_views(ids@.take(i as int)),
                    )[j]);
                }
            }
            assert(short_id_values(out@) =~= id_values(byte_views(ids@.take(i + 1))));
        }
        i = i + 1;
    }
    proof {
        assert(ids@.take(i as int) =~= ids@);
    }
    Some(out)
}

/// The block event of a block at height `number` whose transactions commit `commits` and
/// which references `proposals`, each id given as raw bytes.
pub fn block_event(number: u64, commits: &Vec<Vec<u8>>, proposals: &Vec<Vec<u8>>) -> (r: Result<
    BlockEvent,
    DecodeError,
>)
    ensures
        r.is_ok() == (all_short_ids(byte_views(commits@)) && all_short_ids(
            byte_views(proposals@),
        )),
        r is Err ==> r == Err::<BlockEvent, DecodeError>(DecodeError::ShortId),
        r.is_ok() ==> is_event_of(
            r.unwrap(),
            number,
            byte_views(commits@),
            byte_views(proposals@),
        ),
{
    let committed = match short_ids(commits) {
        Some(ids) => ids,
        None => {
            return Err(DecodeError::ShortId);
        },
    };
    let proposed = match short_ids(proposals) {
        Some(ids) => ids,
        None => {
            return Err(DecodeError::ShortId);
        },
    };
    let mut transactions: Vec<Transaction> = Vec::new();
    let mut i: usize = 0;
    while i < committed.len()
        invariant
            i <= committed@.len(),
            transactions@.len() == i,
            forall|j: int|
                0 <= j < i ==> (#[trigger] transactions@[j]).proposal_short_id == committed@[j],
        decreases committed.len() - i,
    {
        transactions.push(Transaction { proposal_short_id: committed[i] });
        i = i + 1;
    }
    let event = BlockEvent { number, transactions, proposals: proposed };
    proof {
        assert(event.committed_ids().map_values(|id: u128| id as int) =~= short_id_values(
            committed@,
        ));
        assert(event.proposed_ids().map_values(|id: u128| id as int) =~= short_id_values(
            proposed@,
        ));
    }
    Ok(event)
}

/// Decodes a notification payload. A text that parses as a JSON block view always yields
/// the block event of its height, of its transactions' proposal ids and of the proposal ids
/// of the block and its uncles; any other text is a `Json` error.
pub fn decode_block(text: &str) -> (r: Result<BlockEvent, DecodeError>)
    ensures
        r.is_ok() == block_parts_of(text@).is_some(),
        r is Err ==> r == Err::<BlockEvent, DecodeError>(DecodeError::Json),
        r.is_ok() ==> is_event_of(
            r.unwrap(),
            block_parts_of(text@).unwrap().0,
            block_parts_of(text@).unwrap().1,
            block_parts_of(text@).unwrap().2,
        ),
{
    match parse_block_parts(text) {
        Ok(parts) => {
            let (number, commits, proposals) = parts;
            block_event(number, &commits, &proposals)
        },
        Err(_) => Err(DecodeError::Json),
    }
}

} // verus!
