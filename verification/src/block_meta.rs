//! The summary of a block.

use vstd::prelude::*;
use crate::extract::block_timestamp;
use crate::extract::timestamp_of;
use crate::ledger::Block;
use crate::ledger::BlockView;
use crate::output::BlockMeta;
use crate::output::BlockMetaView;

verus! {

/// The summary of a block: its slot, its hash and that of its parent, its
/// timestamp, and the number of its transactions.
pub open spec fn block_meta_of(block: BlockView) -> BlockMetaView {
    BlockMetaView {
        slot: block.slot,
        hash: block.blockhash,
        parent_hash: block.previous_blockhash,
        timestamp: timestamp_of(block.block_time),
        transactions_count: block.transactions.len() as u64,
    }
}

/// Summarizes a block.
pub fn map_block_meta(blk: Block) -> (meta: BlockMeta)
    ensures
        meta@ == block_meta_of(blk@),
{
    let timestamp = block_timestamp(blk.block_time);
    BlockMeta {
        slot: blk.slot,
        hash: blk.blockhash,
        parent_hash: blk.previous_blockhash,
        timestamp,
        transactions_count: blk.transactions.len() as u64,
    }
}

} // verus!
