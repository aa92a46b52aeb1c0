//! Projection of a block summary, and of the selected transactions, into
//! rows of the entity-change builder.

use vstd::prelude::*;
use vstd::string::StringExecFns;
use substreams_entity_change::tables::Tables;
use crate::decimal::decimal_string;
use crate::decimal::decimal_text;
use crate::error::IntegrityFault;
use crate::error::TransformError;
use crate::extract::extracted;
use crate::filter::InstructionFilterView;
use crate::ledger::BlockView;
use crate::json::json_string;
use crate::json::json_string_list;
use crate::json::string_list_to_json;
use crate::json::string_to_json;
use crate::json::text_or_empty;
use crate::output::BlockMeta;
use crate::output::BlockMetaView;
use crate::output::Instruction;
use crate::output::InstructionView;
use crate::output::Transaction;
use crate::output::TransactionView;
use crate::output::Transactions;
use crate::tables::create_row;
use crate::tables::created_row;
use crate::tables::new_tables;
use crate::tables::row_state;
use crate::tables::set_number;
use crate::tables::set_text;
use crate::tables::table_rows;
use crate::tables::Columns;
use crate::tables::FieldValue;
use crate::tables::RowOperation;
use crate::tables::RowState;
use crate::tables::Rows;

verus! {

/// The columns of the row of a block summary.
pub open spec fn block_meta_columns(meta: BlockMetaView) -> Columns {
    Columns::empty().insert("slot"@, FieldValue::Text(decimal_text(meta.slot as nat))).insert(
        "hash"@,
        FieldValue::Text(meta.hash),
    ).insert("parentHash"@, FieldValue::Text(meta.parent_hash)).insert(
        "timestamp"@,
        FieldValue::BigInt(meta.timestamp as int),
    ).insert("transactions_count"@, FieldValue::BigInt(meta.transactions_count as int))
}

/// The rows of a block summary: one row to create in table `BlockMeta`,
/// under the hash of the block.
pub open spec fn block_meta_rows(meta: BlockMetaView) -> Rows {
    Rows::empty().insert(
        ("BlockMeta"@, meta.hash),
        RowState { operation: RowOperation::Create, columns: block_meta_columns(meta) },
    )
}

/// A row mutation: the table, the primary key, and the columns to set.
pub struct EntityRow {
    pub table: Seq<char>,
    pub id: Seq<char>,
    pub fields: Columns,
}

/// The rows after `row` has been written over `rows`: the row under its
/// table and key is created if need be, and the columns it names are set.
/// A row that was there keeps its other columns.
pub open spec fn written(rows: Rows, row: EntityRow) -> Rows {
    let held = created_row(rows, (row.table, row.id));
    rows.insert(
        (row.table, row.id),
        RowState {
            operation: held.operation,
            columns: held.columns.union_prefer_right(row.fields),
        },
    )
}

/// The rows after all of `writes` have been written over `rows`, in order.
pub open spec fn with_rows(rows: Rows, writes: Seq<EntityRow>) -> Rows
    decreases writes.len(),
{
    if writes.len() == 0 {
        rows
    } else {
        written(with_rows(rows, writes.drop_last()), writes.last())
    }
}

/// The row of a transaction: in table `Transaction`, under the first
/// signature, with the JSON text of that signature in column `signatures`.
pub open spec fn transaction_row(transaction: TransactionView) -> EntityRow
    recommends
        transaction.signatures.len() > 0,
{
    EntityRow {
        table: "Transaction"@,
        id: transaction.signatures[0],
        fields: Columns::empty().insert(
            "signatures"@,
            FieldValue::Text(text_or_empty(json_string(transaction.signatures[0]))),
        ),
    }
}

/// The primary key of the row of an instruction: the key of its
/// transaction, an underscore, and the program of the instruction.
pub open spec fn instruction_key(transaction_key: Seq<char>, program_id: Seq<char>) -> Seq<char> {
    transaction_key + "_"@ + program_id
}

/// The row of an instruction: in table `Instruction`, under the
/// instruction's key, with the key of the transaction, the program, the
/// JSON text of the accounts, and the payload.
pub open spec fn instruction_row(transaction_key: Seq<char>, instruction: InstructionView) -> EntityRow {
    EntityRow {
        table: "Instruction"@,
        id: instruction_key(transaction_key, instruction.program_id),
        fields: Columns::empty().insert("transaction_id"@, FieldValue::Text(transaction_key)).insert(
            "program_id"@,
            FieldValue::Text(instruction.program_id),
        ).insert(
            "accounts"@,
            FieldValue::Text(text_or_empty(json_string_list(instruction.accounts))),
        ).insert("data"@, FieldValue::Text(instruction.data)),
    }
}

/// The rows of the instructions of a transaction, in order.
pub open spec fn instruction_rows(
    transaction_key: Seq<char>,
    instructions: Seq<InstructionView>,
) -> Seq<EntityRow> {
    Seq::new(instructions.len(), |k: int| instruction_row(transaction_key, instructions[k]))
}

/// The rows of a transaction: its own row, then those of its instructions.
pub open spec fn transaction_rows(transaction: TransactionView) -> Seq<EntityRow>
    recommends
        transaction.signatures.len() > 0,
{
    seq![transaction_row(transaction)] + instruction_rows(
        transaction.signatures[0],
        transaction.instructions,
    )
}

/// The rows of a list of transactions, in order.
pub open spec fn entity_rows(transactions: Seq<TransactionView>) -> Seq<EntityRow>
    decreases transactions.len(),
{
    if transactions.len() == 0 {
        Seq::empty()
    } else {
        entity_rows(transactions.drop_last()) + transaction_rows(transactions.last())
    }
}

/// Whether every transaction has a signature to be known by.
pub open spec fn all_signed(transactions: Seq<TransactionView>) -> bool {
    forall|k: int| 0 <= k < transactions.len() ==> (#[trigger] transactions[k]).signatures.len() > 0
}

/// Whether every row stands for a creation.
pub open spec fn all_created(rows: Rows) -> bool {
    forall|at: (Seq<char>, Seq<char>)| rows.contains_key(at) ==> (#[trigger] rows[at]).operation is Create
}

/// Writing one list of rows after another is writing their concatenation.
pub proof fn lemma_with_rows_add(rows: Rows, front: Seq<EntityRow>, back: Seq<EntityRow>)
    ensures
        with_rows(rows, front + back) == with_rows(with_rows(rows, front), back),
    decreases back.len(),
{
    if back.len() > 0 {
        assert((front + back).drop_last() =~= front + back.drop_last());
        lemma_with_rows_add(rows, front, back.drop_last());
    }
}

/// Projects a block summary into one row of table `BlockMeta`.
pub fn graph_out(block_meta: BlockMeta) -> (tables: Tables)
    ensures
        table_rows(tables) == block_meta_rows(block_meta@),
{
    let mut tables = new_tables();
    let row = create_row(&mut tables, "BlockMeta", block_meta.hash.as_str());
    set_text(row, "slot", decimal_string(block_meta.slot));
    set_text(row, "hash", block_meta.hash.clone());
    set_text(row, "parentHash", block_meta.parent_hash);
    set_number(row, "timestamp", block_meta.timestamp);
    set_number(row, "transactions_count", block_meta.transactions_count);
    tables
}

/// Writes the row of one instruction.
fn write_instruction(tables: &mut Tables, transaction_key: &String, instruction: &Instruction)
    requires
        all_created(table_rows(*old(tables))),
    ensures
        table_rows(*final(tables)) == written(
            table_rows(*old(tables)),
            instruction_row(transaction_key@, instruction@),
        ),
        all_created(table_rows(*final(tables))),
{
    let key = transaction_key.clone().concat("_").concat(instruction.program_id.as_str());
    let ghost held = created_row(table_rows(*tables), ("Instruction"@, key@));
    let row = create_row(tables, "Instruction", key.as_str());
    set_text(row, "transaction_id", transaction_key.clone());
    set_text(row, "program_id", instruction.program_id.clone());
    set_text(row, "accounts", string_list_to_json(&instruction.accounts));
    set_text(row, "data", instruction.data.clone());
    assert(row_state(*row).columns =~= held.columns.union_prefer_right(
        instruction_row(transaction_key@, instruction@).fields,
    ));
}

/// Writes the row of a transaction and the rows of its instructions.
fn write_transaction(tables: &mut Tables, transaction: &Transaction)
    requires
        all_created(table_rows(*old(tables))),
        transaction.signatures.len() > 0,
    ensures
        table_rows(*final(tables)) == with_rows(
            table_rows(*old(tables)),
            transaction_rows(transaction@),
        ),
        all_created(table_rows(*final(tables))),
{
    let transaction_key = &transaction.signatures[0];
    let ghost start = table_rows(*tables);
    let ghost held = created_row(start, ("Transaction"@, transaction_key@));
    let row = create_row(tables, "Transaction", transaction_key.as_str());
    set_text(row, "signatures", string_to_json(transaction_key));
    assert(row_state(*row).columns =~= held.columns.union_prefer_right(
        transaction_row(transaction@).fields,
    ));
    let ghost instructions = transaction@.instructions;
    let ghost head = seq![transaction_row(transaction@)];
    assert(with_rows(start, head.drop_last()) == start);
    let mut k: usize = 0;
    while k < transaction.instructions.len()
        invariant
            k <= transaction.instructions.len(),
            instructions == transaction@.instructions,
            instructions.len() == transaction.instructions.len(),
            head == seq![transaction_row(transaction@)],
            table_rows(*tables) == with_rows(
                start,
                head + instruction_rows(transaction_key@, instructions.take(k as int)),
            ),
            all_created(table_rows(*tables)),
        decreases transaction.instructions.len() - k,
    {
        write_instruction(tables, transaction_key, &transaction.instructions[k]);
        proof {
            let before = head + instruction_rows(transaction_key@, instructions.take(k as int));
            let after = head + instruction_rows(
                transaction_key@,
                instructions.take(k as int + 1),
            );
            assert(after.drop_last() =~= before);
        }
        k += 1;
    }
    assert(instructions.take(k as int) =~= instructions);
}

/// Projects the selected transactions into rows: for each transaction one
/// row in table `Transaction`, and for each of its instructions one row in
/// table `Instruction`. Later rows replace earlier ones of the same key.
/// A transaction without a signature has no key, and fails the call.
pub fn graph_transactions_out(transactions: Transactions) -> (out: Result<Tables, TransformError>)
    ensures
        match out {
            Ok(tables) => all_signed(transactions@) && table_rows(tables) == with_rows(
                Rows::empty(),
                entity_rows(transactions@),
            ) && all_created(table_rows(tables)),
            Err(error) => !all_signed(transactions@) && error == TransformError::InputIntegrity(
                IntegrityFault::NoSignature,
            ),
        },
{
    let ghost all = transactions@;
    let mut tables = new_tables();
    let mut k: usize = 0;
    while k < transactions.transactions.len()
        invariant
            k <= transactions.transactions.len(),
            all == transactions@,
            all.len() == transactions.transactions.len(),
            all_signed(all.take(k as int)),
            table_rows(tables) == with_rows(Rows::empty(), entity_rows(all.take(k as int))),
            all_created(table_rows(tables)),
        decreases transactions.transactions.len() - k,
    {
        if transactions.transactions[k].signatures.len() == 0 {
            return Err(TransformError::InputIntegrity(IntegrityFault::NoSignature));
        }
        write_transaction(&mut tables, &transactions.transactions[k]);
        assert(all.take(k as int + 1).drop_last() =~= all.take(k as int));
        proof {
            lemma_with_rows_add(
                Rows::empty(),
                entity_rows(all.take(k as int)),
                transaction_rows(all[k as int]),
            );
        }
        assert(all_signed(all.take(k as int + 1)));
        k += 1;
    }
    assert(all.take(k as int) =~= all);
    Ok(tables)
}

/// Whether writes to one row always set the same columns.
pub open spec fn uniform(writes: Seq<EntityRow>) -> bool {
    forall|a: int, b: int|
        0 <= a < writes.len() && 0 <= b < writes.len() && (#[trigger] writes[a]).table == (
        #[trigger] writes[b]).table && writes[a].id == writes[b].id ==> writes[a].fields.dom()
            == writes[b].fields.dom()
}

/// The last of `writes` that goes to the row at `at`, if any does.
pub open spec fn last_write(writes: Seq<EntityRow>, at: (Seq<char>, Seq<char>)) -> Option<EntityRow>
    decreases writes.len(),
{
    if writes.len() == 0 {
        None
    } else if (writes.last().table, writes.last().id) == at {
        Some(writes.last())
    } else {
        last_write(writes.drop_last(), at)
    }
}

/// The last write to a row is one of the writes, and goes to that row.
proof fn lemma_last_write_member(writes: Seq<EntityRow>, at: (Seq<char>, Seq<char>)) -> (index: int)
    requires
        last_write(writes, at) is Some,
    ensures
        0 <= index < writes.len(),
        writes[index] == last_write(writes, at).unwrap(),
        (writes[index].table, writes[index].id) == at,
    decreases writes.len(),
{
    if (writes.last().table, writes.last().id) == at {
        writes.len() - 1
    } else {
        lemma_last_write_member(writes.drop_last(), at)
    }
}

/// What a row holds after writes that are uniform: a row that no write
/// goes to is as it was; a row that one goes to is there, with the operation
/// it had or that of a creation, and with the columns of the last write to
/// it laid over those it had.
pub proof fn lemma_rows_after_writes(rows: Rows, writes: Seq<EntityRow>, at: (Seq<char>, Seq<char>))
    requires
        uniform(writes),
    ensures
        match last_write(writes, at) {
            None => with_rows(rows, writes).contains_key(at) == rows.contains_key(at) && (
            rows.contains_key(at) ==> with_rows(rows, writes)[at] == rows[at]),
            Some(write) => with_rows(rows, writes).contains_key(at) && with_rows(rows, writes)[at]
                == (RowState {
                operation: created_row(rows, at).operation,
                columns: created_row(rows, at).columns.union_prefer_right(write.fields),
            }),
        },
    decreases writes.len(),
{
    if writes.len() > 0 {
        let front = writes.drop_last();
        let write = writes.last();
        assert(uniform(front));
        lemma_rows_after_writes(rows, front, at);
        if (write.table, write.id) == at {
            let held = created_row(with_rows(rows, front), at);
            match last_write(front, at) {
                None => {},
                Some(_) => {
                    lemma_last_write_member(front, at);
                    assert(held.columns.union_prefer_right(write.fields) =~= created_row(
                        rows,
                        at,
                    ).columns.union_prefer_right(write.fields));
                },
            }
        }
    }
}

/// Writing the same rows a second time changes nothing, where the writes
/// are uniform.
pub proof fn lemma_rewriting_changes_nothing(rows: Rows, writes: Seq<EntityRow>)
    requires
        uniform(writes),
    ensures
        with_rows(with_rows(rows, writes), writes) == with_rows(rows, writes),
{
    let once = with_rows(rows, writes);
    let twice = with_rows(once, writes);
    assert forall|at: (Seq<char>, Seq<char>)|
        #![trigger twice.dom().contains(at)]
        #![trigger once.dom().contains(at)]
        twice.dom().contains(at) == once.dom().contains(at) && (once.dom().contains(at)
            ==> twice[at] == once[at]) by {
        lemma_rows_after_writes(rows, writes, at);
        lemma_rows_after_writes(once, writes, at);
        match last_write(writes, at) {
            None => {},
            Some(write) => {
                assert(once[at].columns.union_prefer_right(write.fields) =~= once[at].columns);
            },
        }
    }
}

/// The names of the columns of a transaction's row.
pub open spec fn transaction_columns() -> Set<Seq<char>> {
    set!["signatures"@]
}

/// The names of the columns of an instruction's row.
pub open spec fn instruction_columns() -> Set<Seq<char>> {
    set!["transaction_id"@, "program_id"@, "accounts"@, "data"@]
}

/// Whether a row is of one of the two kinds that the transactions are
/// projected into, with the columns of its kind.
pub open spec fn well_shaped(row: EntityRow) -> bool {
    ||| row.table == "Transaction"@ && row.fields.dom() == transaction_columns()
    ||| row.table == "Instruction"@ && row.fields.dom() == instruction_columns()
}

/// Every row of a list of transactions is well shaped.
pub proof fn lemma_entity_rows_shaped(transactions: Seq<TransactionView>)
    ensures
        forall|k: int|
            0 <= k < entity_rows(transactions).len() ==> well_shaped(
                #[trigger] entity_rows(transactions)[k],
            ),
    decreases transactions.len(),
{
    if transactions.len() > 0 {
        lemma_entity_rows_shaped(transactions.drop_last());
        let front = entity_rows(transactions.drop_last());
        let last = transactions.last();
        let back = transaction_rows(last);
        assert(forall|k: int|
            0 <= k < (front + back).len() ==> well_shaped(#[trigger] (front + back)[k]));
    }
}

/// The rows of a list of transactions are uniform: rows of one table set
/// the same columns, and the two tables differ.
pub proof fn lemma_entity_rows_uniform(transactions: Seq<TransactionView>)
    ensures
        uniform(entity_rows(transactions)),
{
    lemma_entity_rows_shaped(transactions);
    reveal_strlit("Transaction");
    reveal_strlit("Instruction");
    assert("Transaction"@[0] != "Instruction"@[0]);
}

/// Projecting the same transactions a second time, over the rows that the
/// first time left, changes nothing: no row is added and no column changes.
pub proof fn lemma_projection_idempotent(rows: Rows, transactions: Seq<TransactionView>)
    ensures
        with_rows(with_rows(rows, entity_rows(transactions)), entity_rows(transactions))
            == with_rows(rows, entity_rows(transactions)),
{
    lemma_entity_rows_uniform(transactions);
    lemma_rewriting_changes_nothing(rows, entity_rows(transactions));
}

/// Two runs over the same block under the same descriptor emit the same
/// transactions and leave the same rows: same keys, same columns.
pub proof fn lemma_rerun_same_rows(
    block: BlockView,
    filters: InstructionFilterView,
    first: Seq<TransactionView>,
    second: Seq<TransactionView>,
    first_rows: Rows,
    second_rows: Rows,
)
    requires
        first == extracted(block, filters),
        second == extracted(block, filters),
        first_rows == with_rows(Rows::empty(), entity_rows(first)),
        second_rows == with_rows(Rows::empty(), entity_rows(second)),
    ensures
        first == second,
        first_rows == second_rows,
        with_rows(first_rows, entity_rows(second)) == first_rows,
{
    lemma_projection_idempotent(Rows::empty(), first);
}

} // verus!
