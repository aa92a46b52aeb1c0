//! The row builder of `substreams_entity_change`, as far as the projector
//! uses it: rows are created and their columns set, nothing else.

use vstd::prelude::*;
use substreams_entity_change::tables::Row;
use substreams_entity_change::tables::Tables;

verus! {

/// `substreams_entity_change::tables::Tables`, opaque to the verifier.
#[verifier::external_type_specification]
#[verifier::external_body]
pub struct ExTables(Tables);

/// `substreams_entity_change::tables::Row`, opaque to the verifier.
#[verifier::external_type_specification]
#[verifier::external_body]
pub struct ExRow(Row);

/// What a column of a row holds, of the kinds the projector writes.
pub enum FieldValue {
    /// A string.
    Text(Seq<char>),
    /// A big integer, given by the number whose decimal text the column
    /// holds.
    BigInt(int),
}

/// The mutation that a row stands for.
pub enum RowOperation {
    Unspecified,
    Create,
    Update,
    Delete,
    Final,
}

/// Columns by name.
pub type Columns = Map<Seq<char>, FieldValue>;

/// One row of a builder: its pending operation and its columns.
pub struct RowState {
    pub operation: RowOperation,
    pub columns: Columns,
}

/// Rows by table name and primary key.
pub type Rows = Map<(Seq<char>, Seq<char>), RowState>;

/// The rows that a builder holds, by table name and primary key.
pub uninterp spec fn table_rows(tables: Tables) -> Map<(Seq<char>, Seq<char>), RowState>;

/// The operation and the columns of one row.
pub uninterp spec fn row_state(row: Row) -> RowState;

/// Whether a row may be created at `at`: the row there, if there is one, is
/// marked neither for update nor for deletion.
pub open spec fn admits_creation(rows: Rows, at: (Seq<char>, Seq<char>)) -> bool {
    rows.contains_key(at) ==> !(rows[at].operation is Update) && !(rows[at].operation is Delete)
}

/// The row that `create_row` hands out at `at`: a new row marked for
/// creation where there was none, the old row otherwise, marked for
/// creation if it carried no operation yet.
pub open spec fn created_row(rows: Rows, at: (Seq<char>, Seq<char>)) -> RowState {
    if rows.contains_key(at) {
        if rows[at].operation is Unspecified {
            RowState { operation: RowOperation::Create, columns: rows[at].columns }
        } else {
            rows[at]
        }
    } else {
        RowState { operation: RowOperation::Create, columns: Columns::empty() }
    }
}

/// Calls `Tables::new`, which makes a builder without tables.
#[verifier::external_body]
pub(crate) fn new_tables() -> (tables: Tables)
    ensures
        table_rows(tables) == Rows::empty(),
{
    Tables::new()
}

/// Calls `Tables::create_row`.
///
/// The method looks the row up by table and key, inserting an empty row
/// without operation where it finds none, marks a row without operation for
/// creation, and returns the row in place: what the caller then does to the
/// row is what the builder holds at that key. It panics on a row marked for
/// update or deletion, which `requires` leaves out.
#[verifier::external_body]
pub(crate) fn create_row<'a>(tables: &'a mut Tables, table: &str, key: &str) -> (row: &'a mut Row)
    requires
        admits_creation(table_rows(*old(tables)), (table@, key@)),
    ensures
        row_state(*row) == created_row(table_rows(*old(tables)), (table@, key@)),
        table_rows(*final(tables)) == table_rows(*old(tables)).insert(
            (table@, key@),
            row_state(*final(row)),
        ),
{
    tables.create_row(table, key)
}

/// Calls `Row::set` with a `String`.
///
/// The method stores the string under `name`, replacing what the column
/// held, and leaves the operation and the other columns alone. It panics on
/// a row marked for deletion, which `requires` leaves out.
#[verifier::external_body]
pub(crate) fn set_text(row: &mut Row, name: &str, value: String)
    requires
        !(row_state(*old(row)).operation is Delete),
    ensures
        row_state(*final(row)) == (RowState {
            operation: row_state(*old(row)).operation,
            columns: row_state(*old(row)).columns.insert(name@, FieldValue::Text(value@)),
        }),
{
    row.set(name, value);
}

/// Calls `Row::set` with a `u64`.
///
/// The method stores the number under `name` as a big integer in decimal
/// text, replacing what the column held, and leaves the operation and the
/// other columns alone. It panics on a row marked for deletion, which
/// `requires` leaves out.
#[verifier::external_body]
pub(crate) fn set_number(row: &mut Row, name: &str, value: u64)
    requires
        !(row_state(*old(row)).operation is Delete),
    ensures
        row_state(*final(row)) == (RowState {
            operation: row_state(*old(row)).operation,
            columns: row_state(*old(row)).columns.insert(name@, FieldValue::BigInt(value as int)),
        }),
{
    row.set(name, value);
}

} // verus!
