//! Normalizing a get-block response into a stable result shape.
//!
//! A missing block leaves both hash sequences absent; a legacy-variant
//! block yields two explicitly empty sequences; a current-variant block
//! yields all transaction hashes in block order, and the mint-lane subset
//! as the transfer hashes. The version tag is carried forward unchanged.
use vstd::prelude::*;

use crate::block::Block;
use crate::block::BlockTransaction;
use crate::block::GetBlockResult;
use crate::block::ProtocolVersion;
use crate::block::TransactionHash;
use crate::block::TransactionHashV;
use crate::block::TransactionLane;

verus! {

/// Result of listing the transactions of a block.
#[derive(Clone, PartialEq, Eq, Debug)]
pub struct ListTransactionsResult {
    /// The server's version tag, carried forward unchanged.
    pub api_version: ProtocolVersion,
    /// The transaction hashes of the block, if one was found.
    pub transaction_hashes: Option<Vec<TransactionHash>>,
    /// The transfer transaction hashes of the block, if one was found.
    pub transfer_hashes: Option<Vec<TransactionHash>>,
}

pub ghost struct ListTransactionsResultV {
    pub api_version: ProtocolVersion,
    pub transaction_hashes: Option<Seq<TransactionHashV>>,
    pub transfer_hashes: Option<Seq<TransactionHashV>>,
}

pub open spec fn hashes_view(v: Seq<TransactionHash>) -> Seq<TransactionHashV> {
    v.map_values(|h: TransactionHash| h@)
}

pub open spec fn opt_hashes_view(v: Option<Vec<TransactionHash>>) -> Option<
    Seq<TransactionHashV>,
> {
    match v {
        None => None,
        Some(hs) => Some(hashes_view(hs@)),
    }
}

impl View for ListTransactionsResult {
    type V = ListTransactionsResultV;

    open spec fn view(&self) -> ListTransactionsResultV {
        ListTransactionsResultV {
            api_version: self.api_version,
            transaction_hashes: opt_hashes_view(self.transaction_hashes),
            transfer_hashes: opt_hashes_view(self.transfer_hashes),
        }
    }
}

/// All transaction hashes of a current-variant block, in block order.
pub open spec fn all_hashes(ts: Seq<BlockTransaction>) -> Seq<TransactionHashV> {
    ts.map_values(|t: BlockTransaction| t.hash@)
}

/// The mint-lane (transfer) hashes, in block order.
pub open spec fn mint_hashes(ts: Seq<BlockTransaction>) -> Seq<TransactionHashV>
    decreases ts.len(),
{
    if ts.len() == 0 {
        Seq::empty()
    } else {
        mint_hashes(ts.drop_last()) + (if ts.last().lane == TransactionLane::Mint {
            seq![ts.last().hash@]
        } else {
            Seq::empty()
        })
    }
}

/// What normalizing a raw get-block response yields.
pub open spec fn spec_normalize(r: GetBlockResult) -> ListTransactionsResultV {
    match r.block_with_signatures {
        None => ListTransactionsResultV {
            api_version: r.api_version,
            transaction_hashes: None,
            transfer_hashes: None,
        },
        Some(bws) => match bws.block {
            Block::V1(_) => ListTransactionsResultV {
                api_version: r.api_version,
                transaction_hashes: Some(Seq::empty()),
                transfer_hashes: Some(Seq::empty()),
            },
            Block::V2(b2) => ListTransactionsResultV {
                api_version: r.api_version,
                transaction_hashes: Some(all_hashes(b2.transactions@)),
                transfer_hashes: Some(mint_hashes(b2.transactions@)),
            },
        },
    }
}

/// For a response carrying a legacy-variant block, both output sequences
/// are empty, whatever the block holds; the version tag is carried forward.
pub proof fn lemma_normalize_legacy(r: GetBlockResult)
    requires
        r.block_with_signatures matches Some(bws) && bws.block is V1,
    ensures
        spec_normalize(r).transaction_hashes == Some(Seq::<TransactionHashV>::empty()),
        spec_normalize(r).transfer_hashes == Some(Seq::<TransactionHashV>::empty()),
        spec_normalize(r).api_version == r.api_version,
{
}

/// For a current-variant block, the transaction sequence is exactly as long
/// as the block's transaction list, the transfer sequence never longer, and
/// every transfer hash appears among the transaction hashes.
pub proof fn lemma_normalize_current(ts: Seq<BlockTransaction>)
    ensures
        all_hashes(ts).len() == ts.len(),
        mint_hashes(ts).len() <= ts.len(),
        forall|i: int|
            0 <= i < mint_hashes(ts).len() ==> all_hashes(ts).contains(
                #[trigger] mint_hashes(ts)[i],
            ),
    decreases ts.len(),
{
    if ts.len() > 0 {
        let dl = ts.drop_last();
        lemma_normalize_current(dl);
        assert forall|i: int| 0 <= i < mint_hashes(ts).len() implies all_hashes(ts).contains(
            #[trigger] mint_hashes(ts)[i],
        ) by {
            if i < mint_hashes(dl).len() {
                assert(mint_hashes(ts)[i] == mint_hashes(dl)[i]);
                assert(all_hashes(dl).contains(mint_hashes(dl)[i]));
                let j = choose|j: int|
                    0 <= j < all_hashes(dl).len() && all_hashes(dl)[j] == mint_hashes(dl)[i];
                assert(all_hashes(ts)[j] == all_hashes(dl)[j]);
            } else {
                assert(ts.last().lane == TransactionLane::Mint);
                assert(mint_hashes(ts)[i] == ts.last().hash@);
                assert(all_hashes(ts)[ts.len() - 1] == ts.last().hash@);
            }
        }
    }
}

/// A hash sequence is absent exactly when no block was found; a schema
/// variant that does not expose the data yields an explicit empty sequence
/// instead, never an error.
pub proof fn lemma_absent_iff_not_found(r: GetBlockResult)
    ensures
        spec_normalize(r).transaction_hashes is None <==> r.block_with_signatures is None,
        spec_normalize(r).transfer_hashes is None <==> r.block_with_signatures is None,
{
}

/// For a response carrying a current-variant block, the transaction
/// sequence is exactly as long as the block's transaction list, the
/// transfer sequence never longer, every transfer hash appears among the
/// transaction hashes, and the version tag is carried forward.
pub proof fn lemma_normalize_current_bounds(r: GetBlockResult)
    requires
        r.block_with_signatures matches Some(bws) && bws.block is V2,
    ensures
        spec_normalize(r).transaction_hashes is Some,
        spec_normalize(r).transfer_hashes is Some,
        spec_normalize(r).transaction_hashes->Some_0.len()
            == r.block_with_signatures->Some_0.block->V2_0.transactions@.len(),
        spec_normalize(r).transfer_hashes->Some_0.len()
            <= r.block_with_signatures->Some_0.block->V2_0.transactions@.len(),
        forall|i: int|
            0 <= i < spec_normalize(r).transfer_hashes->Some_0.len()
                ==> spec_normalize(r).transaction_hashes->Some_0.contains(
                #[trigger] spec_normalize(r).transfer_hashes->Some_0[i],
            ),
        spec_normalize(r).api_version == r.api_version,
{
    lemma_normalize_current(r.block_with_signatures->Some_0.block->V2_0.transactions@);
}

fn copy_hash(h: &TransactionHash) -> (r: TransactionHash)
    ensures
        r@ == h@,
{
    match h {
        TransactionHash::Deploy(d) => TransactionHash::Deploy(
            vstd::slice::slice_to_vec(d.as_slice()),
        ),
        TransactionHash::Version1(d) => TransactionHash::Version1(
            vstd::slice::slice_to_vec(d.as_slice()),
        ),
    }
}

impl ListTransactionsResult {
    /// Normalizes a raw get-block response, exactly as `spec_normalize`
    /// says: total, with no failure path.
    pub fn from(get_block_result: GetBlockResult) -> (r: ListTransactionsResult)
        ensures
            r@ == spec_normalize(get_block_result),
    {
        match get_block_result.block_with_signatures {
            None => ListTransactionsResult {
                api_version: get_block_result.api_version,
                transaction_hashes: None,
                transfer_hashes: None,
            },
            Some(bws) => match bws.block {
                Block::V1(_) => {
                    let r = ListTransactionsResult {
                        api_version: get_block_result.api_version,
                        transaction_hashes: Some(Vec::new()),
                        transfer_hashes: Some(Vec::new()),
                    };
                    proof {
                        assert(hashes_view(Seq::<TransactionHash>::empty())
                            =~= Seq::<TransactionHashV>::empty());
                    }
                    r
                },
                Block::V2(b2) => {
                    let ts = &b2.transactions;
                    let n = ts.len();
                    let mut all: Vec<TransactionHash> = Vec::new();
                    let mut mint: Vec<TransactionHash> = Vec::new();
                    let mut i: usize = 0;
                    while i < n
                        invariant
                            i <= n == ts@.len(),
                            all@.len() == i,
                            forall|k: int| 0 <= k < i ==> #[trigger] all@[k]@ == ts@[k].hash@,
                            hashes_view(mint@) == mint_hashes(ts@.subrange(0, i as int)),
                        decreases n - i,
                    {
                        let t = &ts[i];
                        let ghost pre = ts@.subrange(0, i as int);
                        let ghost post = ts@.subrange(0, i + 1 as int);
                        proof {
                            assert(post.drop_last() =~= pre);
                            assert(post.last() == ts@[i as int]);
                        }
                        all.push(copy_hash(&t.hash));
                        if t.lane == TransactionLane::Mint {
                            let ghost before = mint@;
                            mint.push(copy_hash(&t.hash));
                            proof {
                                assert(hashes_view(mint@) =~= hashes_view(before) + seq![
                                    ts@[i as int].hash@,
                                ]);
                            }
                        } else {
                            proof {
                                assert(hashes_view(mint@) =~= hashes_view(mint@)
                                    + Seq::<TransactionHashV>::empty());
                            }
                        }
                        i = i + 1;
                    }
                    proof {
                        assert(ts@.subrange(0, n as int) =~= ts@);
                        assert(hashes_view(all@) =~= all_hashes(ts@));
                    }
                    ListTransactionsResult {
                        api_version: get_block_result.api_version,
                        transaction_hashes: Some(all),
                        transfer_hashes: Some(mint),
                    }
                },
            },
        }
    }
}

} // verus!
