//! The decoded block as the transform reads it.

use vstd::prelude::*;
use crate::error::TransformError;
use crate::error::IntegrityFault;

verus! {

/// The views of a list of byte strings.
pub open spec fn byte_strings(list: Seq<Vec<u8>>) -> Seq<Seq<u8>> {
    list.map_values(|bytes: Vec<u8>| bytes@)
}

/// One program invocation of a transaction message. The program and the
/// accounts are indices into the transaction's resolved accounts.
#[derive(Clone, Debug, PartialEq, Eq)]
pub struct CompiledInstruction {
    pub program_id_index: u32,
    pub accounts: Vec<u8>,
    pub data: Vec<u8>,
}

/// The value of a `CompiledInstruction` as the contracts speak of it.
pub struct CompiledInstructionView {
    pub program_id_index: nat,
    pub accounts: Seq<u8>,
    pub data: Seq<u8>,
}

impl View for CompiledInstruction {
    type V = CompiledInstructionView;

    open spec fn view(&self) -> CompiledInstructionView {
        CompiledInstructionView {
            program_id_index: self.program_id_index as nat,
            accounts: self.accounts@,
            data: self.data@,
        }
    }
}

/// The message of a transaction: its static account keys and its
/// instructions.
#[derive(Clone, Debug, PartialEq, Eq)]
pub struct Message {
    pub account_keys: Vec<Vec<u8>>,
    pub instructions: Vec<CompiledInstruction>,
}

/// The value of a `Message` as the contracts speak of it.
pub struct MessageView {
    pub account_keys: Seq<Seq<u8>>,
    pub instructions: Seq<CompiledInstructionView>,
}

impl View for Message {
    type V = MessageView;

    open spec fn view(&self) -> MessageView {
        MessageView {
            account_keys: byte_strings(self.account_keys@),
            instructions: self.instructions@.map_values(|i: CompiledInstruction| i@),
        }
    }
}

/// A signed transaction as the ledger recorded it.
#[derive(Clone, Debug, PartialEq, Eq)]
pub struct RawTransaction {
    pub signatures: Vec<Vec<u8>>,
    pub message: Option<Message>,
}

/// The value of a `RawTransaction` as the contracts speak of it.
pub struct RawTransactionView {
    pub signatures: Seq<Seq<u8>>,
    pub message: Option<MessageView>,
}

impl View for RawTransaction {
    type V = RawTransactionView;

    open spec fn view(&self) -> RawTransactionView {
        RawTransactionView {
            signatures: byte_strings(self.signatures@),
            message: match self.message {
                Some(message) => Some(message@),
                None => None,
            },
        }
    }
}

/// The part of a transaction's status metadata that account resolution
/// reads: the addresses loaded from lookup tables.
#[derive(Clone, Debug, PartialEq, Eq)]
pub struct TransactionStatusMeta {
    pub loaded_writable_addresses: Vec<Vec<u8>>,
    pub loaded_readonly_addresses: Vec<Vec<u8>>,
}

/// The value of a `TransactionStatusMeta` as the contracts speak of it.
pub struct TransactionStatusMetaView {
    pub loaded_writable_addresses: Seq<Seq<u8>>,
    pub loaded_readonly_addresses: Seq<Seq<u8>>,
}

impl View for TransactionStatusMeta {
    type V = TransactionStatusMetaView;

    open spec fn view(&self) -> TransactionStatusMetaView {
        TransactionStatusMetaView {
            loaded_writable_addresses: byte_strings(self.loaded_writable_addresses@),
            loaded_readonly_addresses: byte_strings(self.loaded_readonly_addresses@),
        }
    }
}

/// A transaction of a block together with its status metadata.
#[derive(Clone, Debug, PartialEq, Eq)]
pub struct ConfirmedTransaction {
    pub transaction: Option<RawTransaction>,
    pub meta: Option<TransactionStatusMeta>,
}

/// The value of a `ConfirmedTransaction` as the contracts speak of it.
pub struct ConfirmedTransactionView {
    pub transaction: Option<RawTransactionView>,
    pub meta: Option<TransactionStatusMetaView>,
}

impl View for ConfirmedTransaction {
    type V = ConfirmedTransactionView;

    open spec fn view(&self) -> ConfirmedTransactionView {
        ConfirmedTransactionView {
            transaction: match self.transaction {
                Some(transaction) => Some(transaction@),
                None => None,
            },
            meta: match self.meta {
                Some(meta) => Some(meta@),
                None => None,
            },
        }
    }
}

impl ConfirmedTransactionView {
    /// What keeps the accounts of this transaction from being resolved, if
    /// anything does: a missing transaction, message or status metadata, in
    /// that order.
    pub open spec fn resolution_fault(self) -> Option<IntegrityFault> {
        if self.transaction is None {
            Some(IntegrityFault::MissingTransaction)
        } else if self.transaction.unwrap().message is None {
            Some(IntegrityFault::MissingMessage)
        } else if self.meta is None {
            Some(IntegrityFault::MissingMeta)
        } else {
            None
        }
    }

    /// The accounts that the instructions of this transaction index into:
    /// the static keys of the message, then the loaded writable addresses,
    /// then the loaded read-only addresses.
    pub open spec fn resolved_accounts(self) -> Seq<Seq<u8>>
        recommends
            self.resolution_fault() is None,
    {
        self.transaction.unwrap().message.unwrap().account_keys
            + self.meta.unwrap().loaded_writable_addresses
            + self.meta.unwrap().loaded_readonly_addresses
    }
}

/// Appends copies of `keys` to `accounts`.
fn extend_accounts(accounts: &mut Vec<Vec<u8>>, keys: &Vec<Vec<u8>>)
    ensures
        byte_strings(final(accounts)@) == byte_strings(old(accounts)@) + byte_strings(keys@),
{
    let mut k: usize = 0;
    while k < keys.len()
        invariant
            k <= keys.len(),
            byte_strings(accounts@) == byte_strings(old(accounts)@) + byte_strings(keys@.take(k as int)),
        decreases keys.len() - k,
    {
        let key = keys[k].clone();
        let ghost before = accounts@;
        accounts.push(key);
        assert(byte_strings(accounts@) =~= byte_strings(before).push(key@));
        k += 1;
    }
}

impl ConfirmedTransaction {
    /// Resolves the account list of this transaction.
    pub fn resolved_accounts(&self) -> (resolved: Result<Vec<Vec<u8>>, TransformError>)
        ensures
            match self@.resolution_fault() {
                Some(fault) => resolved == Err::<Vec<Vec<u8>>, TransformError>(TransformError::InputIntegrity(fault)),
                None => resolved is Ok && byte_strings(resolved.unwrap()@)
                    == self@.resolved_accounts(),
            },
    {
        let message = match &self.transaction {
            None => { return Err(TransformError::InputIntegrity(IntegrityFault::MissingTransaction)); },
            Some(transaction) => match &transaction.message {
                None => { return Err(TransformError::InputIntegrity(IntegrityFault::MissingMessage)); },
                Some(message) => message,
            },
        };
        let meta = match &self.meta {
            None => { return Err(TransformError::InputIntegrity(IntegrityFault::MissingMeta)); },
            Some(meta) => meta,
        };
        let mut accounts: Vec<Vec<u8>> = Vec::new();
        extend_accounts(&mut accounts, &message.account_keys);
        extend_accounts(&mut accounts, &meta.loaded_writable_addresses);
        extend_accounts(&mut accounts, &meta.loaded_readonly_addresses);
        Ok(accounts)
    }
}

/// One ledger block.
#[derive(Clone, Debug, PartialEq, Eq)]
pub struct Block {
    pub slot: u64,
    pub blockhash: String,
    pub previous_blockhash: String,
    /// Seconds since the Unix epoch, where the block has a time.
    pub block_time: Option<i64>,
    pub transactions: Vec<ConfirmedTransaction>,
}

/// The value of a `Block` as the contracts speak of it.
pub struct BlockView {
    pub slot: u64,
    pub blockhash: Seq<char>,
    pub previous_blockhash: Seq<char>,
    pub block_time: Option<i64>,
    pub transactions: Seq<ConfirmedTransactionView>,
}

impl View for Block {
    type V = BlockView;

    open spec fn view(&self) -> BlockView {
        BlockView {
            slot: self.slot,
            blockhash: self.blockhash@,
            previous_blockhash: self.previous_blockhash@,
            block_time: self.block_time,
            transactions: self.transactions@.map_values(|t: ConfirmedTransaction| t@),
        }
    }
}

} // verus!
