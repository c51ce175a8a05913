//! The durable records of the node: rollup records, garbage-collection records
//! and the block-state watermark.

use vstd::prelude::*;

verus! {

/// The position `(block, order)` of the last mutation that was applied.
#[derive(Debug, Clone, Copy, PartialEq, Eq, Structural)]
pub struct BlockState {
    pub block: u64,
    pub order: u32,
}

/// Whether position `(b1, o1)` comes strictly before `(b2, o2)`.
pub open spec fn position_before(b1: u64, o1: u32, b2: u64, o2: u32) -> bool {
    b1 < b2 || (b1 == b2 && o1 < o2)
}

/// One successful rollup of the block range `[start_block, end_block)`.
#[derive(Debug, Clone, PartialEq, Eq)]
pub struct RollupRecord {
    pub end_block: u64,
    pub raw_data_size: u64,
    pub compress_data_size: u64,
    pub processed_time: u64,
    pub arweave_tx: String,
    pub time: u64,
    pub mutation_count: u64,
    pub cost: u64,
    pub start_block: u64,
    pub evm_tx: String,
    pub evm_cost: u64,
}

/// The mathematical value of a [`RollupRecord`].
pub ghost struct RollupRecordView {
    pub end_block: u64,
    pub raw_data_size: u64,
    pub compress_data_size: u64,
    pub processed_time: u64,
    pub arweave_tx: Seq<char>,
    pub time: u64,
    pub mutation_count: u64,
    pub cost: u64,
    pub start_block: u64,
    pub evm_tx: Seq<char>,
    pub evm_cost: u64,
}

impl View for RollupRecord {
    type V = RollupRecordView;

    open spec fn view(&self) -> RollupRecordView {
        RollupRecordView {
            end_block: self.end_block,
            raw_data_size: self.raw_data_size,
            compress_data_size: self.compress_data_size,
            processed_time: self.processed_time,
            arweave_tx: self.arweave_tx@,
            time: self.time,
            mutation_count: self.mutation_count,
            cost: self.cost,
            start_block: self.start_block,
            evm_tx: self.evm_tx@,
            evm_cost: self.evm_cost,
        }
    }
}

impl RollupRecord {
    /// A copy with the same value.
    pub fn duplicate(&self) -> (copy: RollupRecord)
        ensures
            copy@ == self@,
    {
        RollupRecord {
            end_block: self.end_block,
            raw_data_size: self.raw_data_size,
            compress_data_size: self.compress_data_size,
            processed_time: self.processed_time,
            arweave_tx: self.arweave_tx.clone(),
            time: self.time,
            mutation_count: self.mutation_count,
            cost: self.cost,
            start_block: self.start_block,
            evm_tx: self.evm_tx.clone(),
            evm_cost: self.evm_cost,
        }
    }
}

/// The retirement of the mutations of the block range `[start_block, end_block)`.
#[derive(Debug, Clone, Copy, PartialEq, Eq, Structural)]
pub struct GcRecord {
    pub start_block: u64,
    pub end_block: u64,
    pub data_size: u64,
    pub time: u64,
    pub processed_time: u64,
}

} // verus!
