//! The filter descriptor and its test on one instruction.

use vstd::prelude::*;
use crate::base58::base58_text;
use crate::base58::encode;
use crate::error::TransformError;
use crate::ledger::byte_strings;
use crate::ledger::CompiledInstruction;
use crate::ledger::CompiledInstructionView;
use crate::ledger::ConfirmedTransaction;
use crate::ledger::ConfirmedTransactionView;
use crate::error::IntegrityFault;

verus! {

/// The constraints an instruction must meet to be selected. A constraint
/// that is absent admits every instruction.
#[derive(Clone, Debug, PartialEq, Eq)]
pub struct InstructionFilterParams {
    /// The base58 text of the program the instruction must invoke.
    pub program_id: Option<String>,
}

/// The value of an `InstructionFilterParams` as the contracts speak of it.
pub struct InstructionFilterView {
    pub program_id: Option<Seq<char>>,
}

impl View for InstructionFilterParams {
    type V = InstructionFilterView;

    open spec fn view(&self) -> InstructionFilterView {
        InstructionFilterView {
            program_id: match self.program_id {
                Some(text) => Some(text@),
                None => None,
            },
        }
    }
}

/// Whether `instruction` meets `filters`, its program being looked up in
/// `account_keys`. Under a program constraint an instruction whose program
/// index lies beyond the keys does not match; otherwise the base58 text of
/// its program key must be the constraint, character for character.
pub open spec fn instruction_matches(
    instruction: CompiledInstructionView,
    filters: InstructionFilterView,
    account_keys: Seq<Seq<u8>>,
) -> bool {
    match filters.program_id {
        None => true,
        Some(wanted) => instruction.program_id_index < account_keys.len() && base58_text(
            account_keys[instruction.program_id_index as int],
        ) == wanted,
    }
}

/// Turns the outcome of decoding the parameter string into the descriptor:
/// `decoded` is `None` where the string did not have the expected shape.
pub fn parse_instruction_filters_from_params(decoded: Option<InstructionFilterParams>) -> (parsed:
    Result<InstructionFilterParams, TransformError>)
    ensures
        match decoded {
            Some(filters) => parsed == Ok::<InstructionFilterParams, TransformError>(filters),
            None => parsed == Err::<InstructionFilterParams, TransformError>(TransformError::Parameter),
        },
{
    match decoded {
        Some(filters) => Ok(filters),
        None => Err(TransformError::Parameter),
    }
}

/// Tests one instruction against the descriptor.
pub fn apply_filter(
    instruction: &CompiledInstruction,
    filters: &InstructionFilterParams,
    account_keys: &Vec<Vec<u8>>,
) -> (matched: bool)
    ensures
        matched == instruction_matches(instruction@, filters@, byte_strings(account_keys@)),
{
    match &filters.program_id {
        None => true,
        Some(wanted) => {
            let index = instruction.program_id_index as usize;
            if index < account_keys.len() {
                let text = encode(&account_keys[index]);
                text == *wanted
            } else {
                false
            }
        },
    }
}

/// A constraint on whole transactions: the base58 text of a signature that
/// the transaction must carry. Absent, it admits every transaction.
#[derive(Clone, Debug, PartialEq, Eq)]
pub struct TransactionFilterParams {
    pub signature: Option<String>,
}

/// The value of a `TransactionFilterParams` as the contracts speak of it.
pub struct TransactionFilterView {
    pub signature: Option<Seq<char>>,
}

impl View for TransactionFilterParams {
    type V = TransactionFilterView;

    open spec fn view(&self) -> TransactionFilterView {
        TransactionFilterView {
            signature: match self.signature {
                Some(text) => Some(text@),
                None => None,
            },
        }
    }
}

/// Whether a transaction carries the signature that `filters` asks for.
pub open spec fn transaction_matches(
    transaction: ConfirmedTransactionView,
    filters: TransactionFilterView,
) -> bool
    recommends
        filters.signature is Some ==> transaction.transaction is Some,
{
    match filters.signature {
        None => true,
        Some(wanted) => exists|k: int|
            0 <= k < transaction.transaction.unwrap().signatures.len() && base58_text(
                #[trigger] transaction.transaction.unwrap().signatures[k],
            ) == wanted,
    }
}

/// Turns the outcome of decoding the parameter string into the constraint
/// on transactions: `decoded` is `None` where the string did not have the
/// expected shape.
pub fn parse_filters_from_params(decoded: Option<TransactionFilterParams>) -> (parsed: Result<
    TransactionFilterParams,
    TransformError,
>)
    ensures
        match decoded {
            Some(filters) => parsed == Ok::<TransactionFilterParams, TransformError>(filters),
            None => parsed == Err::<TransactionFilterParams, TransformError>(
                TransformError::Parameter,
            ),
        },
{
    match decoded {
        Some(filters) => Ok(filters),
        None => Err(TransformError::Parameter),
    }
}

/// Tests one transaction against a constraint on its signatures. Without
/// constraint every transaction passes; under one, a confirmed transaction
/// that carries no transaction is a fault of the block.
pub fn apply_transaction_filter(
    transaction: &ConfirmedTransaction,
    filters: &TransactionFilterParams,
) -> (matched: Result<bool, TransformError>)
    ensures
        match matched {
            Ok(found) => (filters@.signature is None || transaction@.transaction is Some) && found
                == transaction_matches(transaction@, filters@),
            Err(error) => filters@.signature is Some && transaction@.transaction is None && error
                == TransformError::InputIntegrity(IntegrityFault::MissingTransaction),
        },
{
    let wanted = match &filters.signature {
        None => { return Ok(true); },
        Some(wanted) => wanted,
    };
    let signed = match &transaction.transaction {
        None => {
            return Err(TransformError::InputIntegrity(IntegrityFault::MissingTransaction));
        },
        Some(signed) => signed,
    };
    let ghost signatures = byte_strings(signed.signatures@);
    let mut k: usize = 0;
    while k < signed.signatures.len()
        invariant
            k <= signed.signatures.len(),
            signatures == byte_strings(signed.signatures@),
            transaction@.transaction is Some,
            signatures == transaction@.transaction.unwrap().signatures,
            filters@.signature == Some(wanted@),
            forall|j: int| 0 <= j < k ==> base58_text(#[trigger] signatures[j]) != wanted@,
        decreases signed.signatures.len() - k,
    {
        let text = encode(&signed.signatures[k]);
        if text == *wanted {
            assert(base58_text(signatures[k as int]) == wanted@);
            return Ok(true);
        }
        k += 1;
    }
    Ok(false)
}

} // verus!
