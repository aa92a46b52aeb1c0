//! Selection of the transactions of a block whose instructions meet the
//! filter, and their re-encoding into text.

use vstd::prelude::*;
use crate::base58::base58_text;
use crate::base58::encode;
use crate::base58::round_trips;
use crate::error::TransformError;
use crate::error::IntegrityFault;
use crate::filter::apply_filter;
use crate::filter::instruction_matches;
use crate::filter::parse_instruction_filters_from_params;
use crate::filter::InstructionFilterParams;
use crate::filter::InstructionFilterView;
use crate::ledger::byte_strings;
use crate::ledger::Block;
use crate::ledger::BlockView;
use crate::ledger::CompiledInstruction;
use crate::ledger::CompiledInstructionView;
use crate::ledger::ConfirmedTransaction;
use crate::ledger::ConfirmedTransactionView;
use crate::output::texts;
use crate::output::Instruction;
use crate::output::InstructionView;
use crate::output::Transaction;
use crate::output::TransactionView;
use crate::output::Transactions;
use crate::scan::first_some;
use crate::scan::ascending;
use crate::scan::lemma_filter_nonempty;
use crate::scan::lemma_filter_picks;
use crate::scan::lemma_filter_take;
use crate::scan::lemma_first_some_add;
use crate::scan::lemma_first_some_none;
use crate::scan::lemma_first_some_prefix;
use crate::scan::lemma_first_some_take;
use crate::scan::lemma_first_some_witness;

verus! {

/// The timestamp of a block: its time reinterpreted as an unsigned 64-bit
/// number, and 0 where the block has none.
pub open spec fn timestamp_of(block_time: Option<i64>) -> u64 {
    match block_time {
        None => 0,
        Some(seconds) => if seconds >= 0 {
            seconds as u64
        } else {
            (seconds + 0x1_0000_0000_0000_0000) as u64
        },
    }
}

/// The test of `instruction_matches` with the descriptor and the keys fixed.
pub open spec fn matching(filters: InstructionFilterView, account_keys: Seq<Seq<u8>>) -> spec_fn(
    CompiledInstructionView,
) -> bool {
    |instruction: CompiledInstructionView| instruction_matches(instruction, filters, account_keys)
}

/// What keeps an instruction from being encoded, if anything does: a program
/// index beyond the keys, or else an account index beyond them.
pub open spec fn instruction_fault(
    instruction: CompiledInstructionView,
    account_keys: Seq<Seq<u8>>,
) -> Option<IntegrityFault> {
    if instruction.program_id_index >= account_keys.len() {
        Some(IntegrityFault::ProgramIndexOutOfRange)
    } else if exists|k: int|
        0 <= k < instruction.accounts.len() && #[trigger] instruction.accounts[k]
            >= account_keys.len() {
        Some(IntegrityFault::AccountIndexOutOfRange)
    } else {
        None
    }
}

/// `instruction_fault` with the keys fixed.
pub open spec fn faulting(account_keys: Seq<Seq<u8>>) -> spec_fn(
    CompiledInstructionView,
) -> Option<IntegrityFault> {
    |instruction: CompiledInstructionView| instruction_fault(instruction, account_keys)
}

/// The textual form of an instruction whose indices lie within the keys.
pub open spec fn encoded_instruction(
    instruction: CompiledInstructionView,
    account_keys: Seq<Seq<u8>>,
) -> InstructionView
    recommends
        instruction_fault(instruction, account_keys) is None,
{
    InstructionView {
        program_id: base58_text(account_keys[instruction.program_id_index as int]),
        accounts: Seq::new(
            instruction.accounts.len(),
            |k: int| base58_text(account_keys[instruction.accounts[k] as int]),
        ),
        data: base58_text(instruction.data),
    }
}

/// `encoded_instruction` with the keys fixed.
pub open spec fn encoding(account_keys: Seq<Seq<u8>>) -> spec_fn(
    CompiledInstructionView,
) -> InstructionView {
    |instruction: CompiledInstructionView| encoded_instruction(instruction, account_keys)
}

/// The instructions of a transaction that meet the descriptor, in the order
/// of the message.
pub open spec fn selected_instructions(
    transaction: ConfirmedTransactionView,
    filters: InstructionFilterView,
) -> Seq<CompiledInstructionView>
    recommends
        transaction.resolution_fault() is None,
{
    transaction.transaction.unwrap().message.unwrap().instructions.filter(
        matching(filters, transaction.resolved_accounts()),
    )
}

/// Whether a transaction is emitted: its accounts resolve and at least one
/// of its instructions meets the descriptor.
pub open spec fn qualifies(
    transaction: ConfirmedTransactionView,
    filters: InstructionFilterView,
) -> bool {
    transaction.resolution_fault() is None && selected_instructions(transaction, filters).len() > 0
}

/// `qualifies` with the descriptor fixed.
pub open spec fn qualifying(filters: InstructionFilterView) -> spec_fn(
    ConfirmedTransactionView,
) -> bool {
    |transaction: ConfirmedTransactionView| qualifies(transaction, filters)
}

/// What makes a transaction fail the block, if anything does. An
/// unresolvable account list fails it whatever the descriptor. A transaction
/// without a matching instruction is otherwise passed over. One that is to
/// be emitted fails on the first selected instruction that cannot be
/// encoded, or else on an empty signature list.
pub open spec fn transaction_fault(
    transaction: ConfirmedTransactionView,
    filters: InstructionFilterView,
) -> Option<IntegrityFault> {
    match transaction.resolution_fault() {
        Some(fault) => Some(fault),
        None => {
            let selected = selected_instructions(transaction, filters);
            if selected.len() == 0 {
                None
            } else {
                match first_some(selected, faulting(transaction.resolved_accounts())) {
                    Some(fault) => Some(fault),
                    None => if transaction.transaction.unwrap().signatures.len() == 0 {
                        Some(IntegrityFault::NoSignature)
                    } else {
                        None
                    },
                }
            }
        },
    }
}

/// `transaction_fault` with the descriptor fixed.
pub open spec fn failing(filters: InstructionFilterView) -> spec_fn(
    ConfirmedTransactionView,
) -> Option<IntegrityFault> {
    |transaction: ConfirmedTransactionView| transaction_fault(transaction, filters)
}

/// What is emitted for a transaction that qualifies and has no fault.
pub open spec fn extracted_transaction(
    transaction: ConfirmedTransactionView,
    filters: InstructionFilterView,
    timestamp: u64,
) -> TransactionView
    recommends
        qualifies(transaction, filters),
        transaction_fault(transaction, filters) is None,
{
    TransactionView {
        signatures: transaction.transaction.unwrap().signatures.map_values(
            |signature: Seq<u8>| base58_text(signature),
        ),
        instructions: selected_instructions(transaction, filters).map_values(
            encoding(transaction.resolved_accounts()),
        ),
        timestamp,
    }
}

/// `extracted_transaction` with the descriptor and the timestamp fixed.
pub open spec fn extracting(filters: InstructionFilterView, timestamp: u64) -> spec_fn(
    ConfirmedTransactionView,
) -> TransactionView {
    |transaction: ConfirmedTransactionView| extracted_transaction(transaction, filters, timestamp)
}

/// The fault that fails a block: that of its first faulty transaction.
pub open spec fn block_fault(block: BlockView, filters: InstructionFilterView) -> Option<
    IntegrityFault,
> {
    first_some(block.transactions, failing(filters))
}

/// What a block without fault yields: for each transaction that qualifies,
/// in block order, its textual form stamped with the block's timestamp.
pub open spec fn extracted(block: BlockView, filters: InstructionFilterView) -> Seq<
    TransactionView,
> {
    block.transactions.filter(qualifying(filters)).map_values(
        extracting(filters, timestamp_of(block.block_time)),
    )
}

/// Whether the program of every instruction of an emitted transaction is a
/// base58 text that decodes, and that encoding what it decodes to gives
/// back.
pub open spec fn program_ids_round_trip(transaction: TransactionView) -> bool {
    forall|j: int|
        0 <= j < transaction.instructions.len() ==> round_trips(
            (#[trigger] transaction.instructions[j]).program_id,
        )
}

/// The timestamp that the transactions of a block are stamped with.
pub fn block_timestamp(block_time: Option<i64>) -> (timestamp: u64)
    ensures
        timestamp == timestamp_of(block_time),
{
    match block_time {
        None => 0,
        Some(seconds) => if seconds >= 0 {
            seconds as u64
        } else {
            u64::MAX - ((-(seconds + 1)) as u64)
        },
    }
}

/// Encodes one instruction against the resolved accounts of its transaction.
pub fn encode_instruction(instruction: &CompiledInstruction, account_keys: &Vec<Vec<u8>>) -> (out:
    Result<Instruction, TransformError>)
    ensures
        match instruction_fault(instruction@, byte_strings(account_keys@)) {
            Some(fault) => out == Err::<Instruction, TransformError>(TransformError::InputIntegrity(fault)),
            None => out is Ok && out.unwrap()@ == encoded_instruction(
                instruction@,
                byte_strings(account_keys@),
            ),
        },
        out matches Ok(encoded) ==> round_trips(encoded@.program_id),
{
    let ghost keys = byte_strings(account_keys@);
    let program = instruction.program_id_index as usize;
    if program >= account_keys.len() {
        return Err(TransformError::InputIntegrity(IntegrityFault::ProgramIndexOutOfRange));
    }
    let program_id = encode(&account_keys[program]);
    let mut accounts: Vec<String> = Vec::new();
    let mut k: usize = 0;
    while k < instruction.accounts.len()
        invariant
            k <= instruction.accounts.len(),
            keys == byte_strings(account_keys@),
            keys.len() == account_keys.len(),
            instruction.program_id_index < keys.len(),
            forall|j: int| 0 <= j < k ==> #[trigger] instruction.accounts@[j] < keys.len(),
            texts(accounts@) == Seq::new(
                k as nat,
                |j: int| base58_text(keys[instruction.accounts@[j] as int]),
            ),
        decreases instruction.accounts.len() - k,
    {
        let account = instruction.accounts[k] as usize;
        if account >= account_keys.len() {
            assert(instruction@.accounts[k as int] >= keys.len());
            return Err(TransformError::InputIntegrity(IntegrityFault::AccountIndexOutOfRange));
        }
        let text = encode(&account_keys[account]);
        let ghost before = accounts@;
        accounts.push(text);
        assert(texts(accounts@) =~= texts(before).push(text@));
        k += 1;
    }
    let data = encode(&instruction.data);
    let out = Instruction { program_id, accounts, data };
    Ok(out)
}

/// Whether any of `instructions` meets the descriptor.
fn any_matches(
    instructions: &Vec<CompiledInstruction>,
    filters: &InstructionFilterParams,
    account_keys: &Vec<Vec<u8>>,
) -> (found: bool)
    ensures
        found == (instructions@.map_values(|i: CompiledInstruction| i@).filter(
            matching(filters@, byte_strings(account_keys@)),
        ).len() > 0),
{
    let ghost views = instructions@.map_values(|i: CompiledInstruction| i@);
    let ghost keep = matching(filters@, byte_strings(account_keys@));
    let mut k: usize = 0;
    while k < instructions.len()
        invariant
            k <= instructions.len(),
            views == instructions@.map_values(|i: CompiledInstruction| i@),
            keep == matching(filters@, byte_strings(account_keys@)),
            forall|j: int| 0 <= j < k ==> !keep(#[trigger] views[j]),
        decreases instructions.len() - k,
    {
        if apply_filter(&instructions[k], filters, account_keys) {
            proof {
                assert(keep(views[k as int]));
                lemma_filter_nonempty(views, keep);
            }
            return true;
        }
        k += 1;
    }
    proof {
        lemma_filter_nonempty(views, keep);
    }
    false
}

/// The textual forms of those of `instructions` that meet the descriptor.
fn encode_matching(
    instructions: &Vec<CompiledInstruction>,
    filters: &InstructionFilterParams,
    account_keys: &Vec<Vec<u8>>,
) -> (out: Result<Vec<Instruction>, TransformError>)
    ensures
        ({
            let selected = instructions@.map_values(|i: CompiledInstruction| i@).filter(
                matching(filters@, byte_strings(account_keys@)),
            );
            match first_some(selected, faulting(byte_strings(account_keys@))) {
                Some(fault) => out == Err::<Vec<Instruction>, TransformError>(TransformError::InputIntegrity(fault)),
                None => out is Ok && out.unwrap()@.map_values(|i: Instruction| i@)
                    == selected.map_values(encoding(byte_strings(account_keys@))),
            }
        }),
        out matches Ok(encoded) ==> forall|j: int|
            0 <= j < encoded.len() ==> round_trips((#[trigger] encoded@[j])@.program_id),
{
    let ghost views = instructions@.map_values(|i: CompiledInstruction| i@);
    let ghost keys = byte_strings(account_keys@);
    let ghost keep = matching(filters@, keys);
    let mut encoded: Vec<Instruction> = Vec::new();
    let mut k: usize = 0;
    proof {
        reveal(Seq::filter);
    }
    while k < instructions.len()
        invariant
            k <= instructions.len(),
            views == instructions@.map_values(|i: CompiledInstruction| i@),
            keys == byte_strings(account_keys@),
            keep == matching(filters@, keys),
            first_some(views.take(k as int).filter(keep), faulting(keys)) is None,
            encoded@.map_values(|i: Instruction| i@) == views.take(k as int).filter(
                keep,
            ).map_values(encoding(keys)),
            forall|j: int|
                0 <= j < encoded.len() ==> round_trips((#[trigger] encoded@[j])@.program_id),
        decreases instructions.len() - k,
    {
        let ghost before = views.take(k as int).filter(keep);
        proof {
            lemma_filter_take(views, keep, k as int);
        }
        if apply_filter(&instructions[k], filters, account_keys) {
            let ghost after = before.push(views[k as int]);
            assert(after.drop_last() =~= before);
            match encode_instruction(&instructions[k], account_keys) {
                Err(error) => {
                    proof {
                        let rest = views.skip(k as int + 1).filter(keep);
                        assert(views =~= views.take(k as int + 1) + views.skip(k as int + 1));
                        Seq::filter_distributes_over_add(
                            views.take(k as int + 1),
                            views.skip(k as int + 1),
                            keep,
                        );
                        lemma_first_some_add(after, rest, faulting(keys));
                    }
                    return Err(error);
                },
                Ok(instruction) => {
                    encoded.push(instruction);
                    assert(after.map_values(encoding(keys)) =~= before.map_values(
                        encoding(keys),
                    ).push(encoded_instruction(views[k as int], keys)));
                },
            }
        }
        k += 1;
    }
    assert(views.take(k as int) =~= views);
    Ok(encoded)
}

/// The base58 texts of `signatures`, in order.
fn encode_signatures(signatures: &Vec<Vec<u8>>) -> (out: Vec<String>)
    ensures
        texts(out@) == byte_strings(signatures@).map_values(
            |signature: Seq<u8>| base58_text(signature),
        ),
{
    let mut out: Vec<String> = Vec::new();
    let mut k: usize = 0;
    while k < signatures.len()
        invariant
            k <= signatures.len(),
            texts(out@) == byte_strings(signatures@).take(k as int).map_values(
                |signature: Seq<u8>| base58_text(signature),
            ),
        decreases signatures.len() - k,
    {
        let text = encode(&signatures[k]);
        let ghost before = out@;
        out.push(text);
        assert(texts(out@) =~= texts(before).push(text@));
        k += 1;
    }
    out
}

/// Handles one transaction of a block: `Ok(None)` where no instruction of
/// it meets the descriptor, `Ok(Some(..))` with its textual form where one
/// does.
pub fn extract_transaction(
    transaction: &ConfirmedTransaction,
    filters: &InstructionFilterParams,
    timestamp: u64,
) -> (out: Result<Option<Transaction>, TransformError>)
    ensures
        match transaction_fault(transaction@, filters@) {
            Some(fault) => out == Err::<Option<Transaction>, TransformError>(TransformError::InputIntegrity(fault)),
            None => out is Ok && match out.unwrap() {
                None => !qualifies(transaction@, filters@),
                Some(emitted) => qualifies(transaction@, filters@) && emitted@
                    == extracted_transaction(transaction@, filters@, timestamp),
            },
        },
        out matches Ok(Some(emitted)) ==> program_ids_round_trip(emitted@),
{
    let account_keys = match transaction.resolved_accounts() {
        Err(error) => { return Err(error); },
        Ok(account_keys) => account_keys,
    };
    let signed = transaction.transaction.as_ref().unwrap();
    let message = signed.message.as_ref().unwrap();
    if !any_matches(&message.instructions, filters, &account_keys) {
        return Ok(None);
    }
    let instructions = match encode_matching(&message.instructions, filters, &account_keys) {
        Err(error) => { return Err(error); },
        Ok(instructions) => instructions,
    };
    if signed.signatures.len() == 0 {
        return Err(TransformError::InputIntegrity(IntegrityFault::NoSignature));
    }
    let signatures = encode_signatures(&signed.signatures);
    Ok(Some(Transaction { signatures, instructions, timestamp }))
}

/// Selects from a block the transactions with an instruction that meets the
/// descriptor, and emits each with the instructions that meet it.
///
/// `decoded` is the outcome of decoding the filter parameters: `None` where
/// they were malformed, which fails the call before the block is looked at.
pub fn map_filter_transactions(decoded: Option<InstructionFilterParams>, blk: &Block) -> (out:
    Result<Transactions, TransformError>)
    ensures
        match decoded {
            None => out == Err::<Transactions, TransformError>(TransformError::Parameter),
            Some(filters) => match block_fault(blk@, filters@) {
                Some(fault) => out == Err::<Transactions, TransformError>(TransformError::InputIntegrity(fault)),
                None => out is Ok && out.unwrap()@ == extracted(blk@, filters@),
            },
        },
        out matches Ok(emitted) ==> forall|j: int|
            0 <= j < emitted@.len() ==> program_ids_round_trip(#[trigger] emitted@[j]),
{
    let filters = match parse_instruction_filters_from_params(decoded) {
        Err(error) => { return Err(error); },
        Ok(filters) => filters,
    };
    let timestamp = block_timestamp(blk.block_time);
    let ghost all = blk@.transactions;
    let ghost keep = qualifying(filters@);
    let ghost emit = extracting(filters@, timestamp);
    let mut transactions: Vec<Transaction> = Vec::new();
    let mut k: usize = 0;
    proof {
        reveal(Seq::filter);
    }
    while k < blk.transactions.len()
        invariant
            k <= blk.transactions.len(),
            decoded == Some(filters),
            all == blk@.transactions,
            all.len() == blk.transactions.len(),
            keep == qualifying(filters@),
            emit == extracting(filters@, timestamp),
            first_some(all.take(k as int), failing(filters@)) is None,
            transactions@.map_values(|t: Transaction| t@) == all.take(k as int).filter(
                keep,
            ).map_values(emit),
            forall|j: int|
                0 <= j < transactions.len() ==> program_ids_round_trip(
                    (#[trigger] transactions@[j])@,
                ),
        decreases blk.transactions.len() - k,
    {
        let ghost before = all.take(k as int).filter(keep);
        proof {
            lemma_filter_take(all, keep, k as int);
            lemma_first_some_take(all, failing(filters@), k as int);
        }
        match extract_transaction(&blk.transactions[k], &filters, timestamp) {
            Err(error) => {
                proof {
                    lemma_first_some_prefix(all, failing(filters@), k as int + 1);
                }
                return Err(error);
            },
            Ok(None) => {},
            Ok(Some(emitted)) => {
                transactions.push(emitted);
                assert(before.push(all[k as int]).map_values(emit) =~= before.map_values(
                    emit,
                ).push(emit(all[k as int])));
            },
        }
        k += 1;
    }
    assert(all.take(k as int) =~= all);
    Ok(Transactions { transactions })
}

/// Whether `emitted` is what `source` yields under `filters`, its
/// instructions being those of `source` at the positions `picks`: the
/// positions are at least one, ascend, and each holds an instruction that
/// meets the descriptor and whose textual form stands at the same place in
/// `emitted`.
pub open spec fn emitted_from(
    emitted: TransactionView,
    source: ConfirmedTransactionView,
    filters: InstructionFilterView,
    picks: Seq<int>,
) -> bool {
    let instructions = source.transaction.unwrap().message.unwrap().instructions;
    let account_keys = source.resolved_accounts();
    &&& source.resolution_fault() is None
    &&& picks.len() > 0
    &&& ascending(picks)
    &&& emitted.instructions.len() == picks.len()
    &&& forall|m: int|
        0 <= m < picks.len() ==> 0 <= #[trigger] picks[m] < instructions.len()
            && instruction_matches(instructions[picks[m]], filters, account_keys)
            && emitted.instructions[m] == encoded_instruction(instructions[picks[m]], account_keys)
}

/// A transaction that qualifies is emitted with a non-empty selection of its
/// instructions: all those that meet the descriptor and no others, in the
/// order of the message.
pub proof fn lemma_emitted_instructions_match(
    transaction: ConfirmedTransactionView,
    filters: InstructionFilterView,
    timestamp: u64,
) -> (picks: Seq<int>)
    requires
        qualifies(transaction, filters),
    ensures
        emitted_from(
            extracted_transaction(transaction, filters, timestamp),
            transaction,
            filters,
            picks,
        ),
        forall|k: int|
            0 <= k < transaction.transaction.unwrap().message.unwrap().instructions.len()
                && instruction_matches(
                transaction.transaction.unwrap().message.unwrap().instructions[k],
                filters,
                transaction.resolved_accounts(),
            ) ==> #[trigger] picks.contains(k),
{
    let instructions = transaction.transaction.unwrap().message.unwrap().instructions;
    let account_keys = transaction.resolved_accounts();
    let picks = lemma_filter_picks(instructions, matching(filters, account_keys));
    picks
}

/// What a block yields holds only transactions with an instruction that
/// meets the descriptor, all of them, in block order: the positions
/// `sources` ascend, each emitted transaction is what the transaction at its
/// position yields, and no transaction that qualifies is left out.
pub proof fn lemma_extracted_sources(block: BlockView, filters: InstructionFilterView) -> (sources:
    Seq<int>)
    ensures
        sources.len() == extracted(block, filters).len(),
        ascending(sources),
        forall|j: int|
            0 <= j < sources.len() ==> 0 <= #[trigger] sources[j] < block.transactions.len()
                && qualifies(block.transactions[sources[j]], filters) && extracted(
                block,
                filters,
            )[j] == extracted_transaction(
                block.transactions[sources[j]],
                filters,
                timestamp_of(block.block_time),
            ),
        forall|k: int|
            0 <= k < block.transactions.len() && qualifies(block.transactions[k], filters)
                ==> #[trigger] sources.contains(k),
{
    lemma_filter_picks(block.transactions, qualifying(filters))
}

/// Every transaction that a block yields stems from a transaction of the
/// block with at least one instruction that meets the descriptor, and holds
/// a non-empty selection of that transaction's matching instructions in
/// the order of the message.
pub proof fn lemma_only_matching(block: BlockView, filters: InstructionFilterView, j: int) -> (found:
    (int, Seq<int>))
    requires
        0 <= j < extracted(block, filters).len(),
    ensures
        0 <= found.0 < block.transactions.len(),
        emitted_from(extracted(block, filters)[j], block.transactions[found.0], filters, found.1),
{
    let sources = lemma_extracted_sources(block, filters);
    let source = sources[j];
    let picks = lemma_emitted_instructions_match(
        block.transactions[source],
        filters,
        timestamp_of(block.block_time),
    );
    (source, picks)
}

/// Under a descriptor without constraint every instruction is selected, so
/// a transaction whose accounts resolve qualifies exactly when it has an
/// instruction.
pub proof fn lemma_unconstrained_selects_all(
    transaction: ConfirmedTransactionView,
    filters: InstructionFilterView,
)
    requires
        filters.program_id is None,
        transaction.resolution_fault() is None,
    ensures
        selected_instructions(transaction, filters)
            == transaction.transaction.unwrap().message.unwrap().instructions,
        qualifies(transaction, filters)
            <==> transaction.transaction.unwrap().message.unwrap().instructions.len() > 0,
{
    let instructions = transaction.transaction.unwrap().message.unwrap().instructions;
    let keep = matching(filters, transaction.resolved_accounts());
    lemma_all_kept(instructions, keep);
}

/// A filter that every item passes keeps the sequence as it is.
proof fn lemma_all_kept<A>(items: Seq<A>, keep: spec_fn(A) -> bool)
    requires
        forall|k: int| 0 <= k < items.len() ==> keep(#[trigger] items[k]),
    ensures
        items.filter(keep) == items,
    decreases items.len(),
{
    reveal(Seq::filter);
    if items.len() > 0 {
        assert(forall|k: int|
            0 <= k < items.drop_last().len() ==> keep(#[trigger] items.drop_last()[k]));
        lemma_all_kept(items.drop_last(), keep);
    }
}

/// Under a descriptor without constraint a block without fault yields
/// every transaction that has an instruction, and none that has not: the
/// positions `sources` of the transactions it yields are exactly those of
/// the transactions with an instruction, and each is emitted with all its
/// instructions.
pub proof fn lemma_unconstrained_extracts_all(block: BlockView, filters: InstructionFilterView) -> (sources:
    Seq<int>)
    requires
        filters.program_id is None,
        block_fault(block, filters) is None,
    ensures
        sources.len() == extracted(block, filters).len(),
        ascending(sources),
        forall|k: int|
            0 <= k < block.transactions.len() ==> (#[trigger] sources.contains(k) <==> (
            block.transactions[k]).transaction.unwrap().message.unwrap().instructions.len() > 0),
        forall|j: int|
            0 <= j < sources.len() ==> 0 <= #[trigger] sources[j] < block.transactions.len()
                && extracted(block, filters)[j].instructions == block.transactions[sources[j]].transaction.unwrap().message.unwrap().instructions.map_values(
                encoding(block.transactions[sources[j]].resolved_accounts()),
            ),
{
    let sources = lemma_extracted_sources(block, filters);
    lemma_first_some_none(block.transactions, failing(filters));
    assert forall|k: int| 0 <= k < block.transactions.len() implies (#[trigger] sources.contains(k)
        <==> (block.transactions[k]).transaction.unwrap().message.unwrap().instructions.len()
        > 0) by {
        lemma_unconstrained_selects_all(block.transactions[k], filters);
    }
    assert forall|j: int| 0 <= j < sources.len() implies 0 <= #[trigger] sources[j]
        < block.transactions.len() && extracted(block, filters)[j].instructions
        == block.transactions[sources[j]].transaction.unwrap().message.unwrap().instructions.map_values(
        encoding(block.transactions[sources[j]].resolved_accounts()),
    ) by {
        lemma_unconstrained_selects_all(block.transactions[sources[j]], filters);
    }
    sources
}

/// Under a program constraint an instruction whose program index lies
/// beyond the resolved accounts never matches.
pub proof fn lemma_out_of_range_never_matches(
    instruction: CompiledInstructionView,
    filters: InstructionFilterView,
    account_keys: Seq<Seq<u8>>,
)
    requires
        filters.program_id is Some,
        instruction.program_id_index >= account_keys.len(),
    ensures
        !instruction_matches(instruction, filters, account_keys),
{
}

/// A transaction whose only instruction has its program index beyond the
/// resolved accounts is passed over under a program constraint, and fails
/// the block where it reaches extraction, which is under a descriptor
/// without constraint.
pub proof fn lemma_out_of_range_sole_instruction(
    transaction: ConfirmedTransactionView,
    filters: InstructionFilterView,
)
    requires
        transaction.resolution_fault() is None,
        transaction.transaction.unwrap().message.unwrap().instructions.len() == 1,
        transaction.transaction.unwrap().message.unwrap().instructions[0].program_id_index
            >= transaction.resolved_accounts().len(),
    ensures
        filters.program_id is Some ==> !qualifies(transaction, filters) && transaction_fault(
            transaction,
            filters,
        ) is None,
        qualifies(transaction, filters) ==> transaction_fault(transaction, filters) == Some(
            IntegrityFault::ProgramIndexOutOfRange,
        ),
        filters.program_id is None ==> qualifies(transaction, filters),
{
    let instructions = transaction.transaction.unwrap().message.unwrap().instructions;
    let account_keys = transaction.resolved_accounts();
    let keep = matching(filters, account_keys);
    reveal(Seq::filter);
    assert(instructions.drop_last().filter(keep) =~= Seq::empty());
    if filters.program_id is None {
        let selected = instructions.filter(keep);
        assert(first_some(selected.drop_last(), faulting(account_keys)) is None);
    }
}

/// A block fails with the fault of its first faulty transaction: the
/// transactions before it have none.
pub proof fn lemma_block_fault_is_first(block: BlockView, filters: InstructionFilterView) -> (at: int)
    requires
        block_fault(block, filters) is Some,
    ensures
        0 <= at < block.transactions.len(),
        transaction_fault(block.transactions[at], filters) == block_fault(block, filters),
        forall|k: int|
            0 <= k < at ==> transaction_fault(#[trigger] block.transactions[k], filters) is None,
{
    lemma_first_some_witness(block.transactions, failing(filters))
}

/// A block has no fault exactly when none of its transactions has one.
pub proof fn lemma_block_without_fault(block: BlockView, filters: InstructionFilterView)
    ensures
        block_fault(block, filters) is None <==> forall|k: int|
            0 <= k < block.transactions.len() ==> transaction_fault(
                #[trigger] block.transactions[k],
                filters,
            ) is None,
{
    lemma_first_some_none(block.transactions, failing(filters));
    if block_fault(block, filters) is None {
        assert(forall|k: int|
            0 <= k < block.transactions.len() ==> transaction_fault(
                #[trigger] block.transactions[k],
                filters,
            ) is None);
    } else {
        lemma_block_fault_is_first(block, filters);
    }
}

} // verus!
