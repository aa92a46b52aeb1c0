//! What the transform emits: textual instructions and transactions, and the
//! summary of a block.

use vstd::prelude::*;

verus! {

/// The views of a list of strings.
pub open spec fn texts(list: Seq<String>) -> Seq<Seq<char>> {
    list.map_values(|text: String| text@)
}

/// An instruction with its program, accounts and payload in base58.
#[derive(Clone, Debug, PartialEq, Eq)]
pub struct Instruction {
    pub program_id: String,
    pub accounts: Vec<String>,
    pub data: String,
}

/// The value of a `Instruction` as the contracts speak of it.
pub struct InstructionView {
    pub program_id: Seq<char>,
    pub accounts: Seq<Seq<char>>,
    pub data: Seq<char>,
}

impl View for Instruction {
    type V = InstructionView;

    open spec fn view(&self) -> InstructionView {
        InstructionView {
            program_id: self.program_id@,
            accounts: texts(self.accounts@),
            data: self.data@,
        }
    }
}

/// A transaction with its signatures in base58 and the instructions that
/// were selected from it. The first signature identifies the transaction.
#[derive(Clone, Debug, PartialEq, Eq)]
pub struct Transaction {
    pub signatures: Vec<String>,
    pub instructions: Vec<Instruction>,
    pub timestamp: u64,
}

/// The value of a `Transaction` as the contracts speak of it.
pub struct TransactionView {
    pub signatures: Seq<Seq<char>>,
    pub instructions: Seq<InstructionView>,
    pub timestamp: u64,
}

impl View for Transaction {
    type V = TransactionView;

    open spec fn view(&self) -> TransactionView {
        TransactionView {
            signatures: texts(self.signatures@),
            instructions: self.instructions@.map_values(|i: Instruction| i@),
            timestamp: self.timestamp,
        }
    }
}

/// The transactions selected from one block, in block order.
#[derive(Clone, Debug, PartialEq, Eq)]
pub struct Transactions {
    pub transactions: Vec<Transaction>,
}

impl View for Transactions {
    type V = Seq<TransactionView>;

    open spec fn view(&self) -> Seq<TransactionView> {
        self.transactions@.map_values(|t: Transaction| t@)
    }
}

/// The summary of one block.
#[derive(Clone, Debug, PartialEq, Eq)]
pub struct BlockMeta {
    pub slot: u64,
    pub hash: String,
    pub parent_hash: String,
    pub timestamp: u64,
    pub transactions_count: u64,
}

/// The value of a `BlockMeta` as the contracts speak of it.
pub struct BlockMetaView {
    pub slot: u64,
    pub hash: Seq<char>,
    pub parent_hash: Seq<char>,
    pub timestamp: u64,
    pub transactions_count: u64,
}

impl View for BlockMeta {
    type V = BlockMetaView;

    open spec fn view(&self) -> BlockMetaView {
        BlockMetaView {
            slot: self.slot,
            hash: self.hash@,
            parent_hash: self.parent_hash@,
            timestamp: self.timestamp,
            transactions_count: self.transactions_count,
        }
    }
}

} // verus!
