//! Engine-level laws: what the specification functions of table creation,
//! insertion and selection guarantee, proved once and for all inputs.

use vstd::prelude::*;

use crate::create::ColumnV;
use crate::engine::{spec_create_table, table_index_from};
use crate::error::QueryExecutionErrorV;
use crate::insert::values_wf;
use crate::table::{
    col_index, col_index_from, first_missing_field, first_missing_field_from, first_type_mismatch,
    first_type_mismatch_from, project_row, selected_column, spec_table_insert, spec_table_select,
    table_wf, type_matches, unique_column_names, TableIterV, TableV,
};
use crate::value::ValueV;

verus! {

/// When every pair matches from `k` on, no mismatch is found.
proof fn lemma_no_mismatch_from(cols: Seq<ColumnV>, vs: Seq<ValueV>, k: int)
    requires
        vs.len() == cols.len(),
        0 <= k,
        forall|j: int| k <= j < cols.len() ==> type_matches(cols[j].type_info, vs[j]),
    ensures
        first_type_mismatch_from(cols, vs, k) is None,
    decreases cols.len() - k,
{
    if k < cols.len() {
        lemma_no_mismatch_from(cols, vs, k + 1);
    }
}

/// A column is found under its own name when names are unique.
proof fn lemma_col_index_self_from(cols: Seq<ColumnV>, j: int, k: int)
    requires
        0 <= k <= j < cols.len(),
        forall|i: int| k <= i < j ==> cols[i].name != cols[j].name,
    ensures
        col_index_from(cols, cols[j].name, k) == Some(j),
    decreases j - k,
{
    if k < j {
        lemma_col_index_self_from(cols, j, k + 1);
    }
}

/// A column is found under its own name when names are unique.
pub proof fn lemma_col_index_self(cols: Seq<ColumnV>, j: int)
    requires
        unique_column_names(cols),
        0 <= j < cols.len(),
    ensures
        col_index(cols, cols[j].name) == Some(j),
{
    lemma_col_index_self_from(cols, j, 0);
}

/// When every field from `k` on is declared, no field is missing.
proof fn lemma_no_missing_from(cols: Seq<ColumnV>, fields: Seq<Seq<char>>, k: int)
    requires
        0 <= k,
        forall|j: int| k <= j < fields.len() ==> col_index(cols, fields[j]) is Some,
    ensures
        first_missing_field_from(cols, fields, k) is None,
    decreases fields.len() - k,
{
    if k < fields.len() {
        lemma_no_missing_from(cols, fields, k + 1);
    }
}

/// Selecting from a table that holds no rows yields no rows: the projected
/// sequence is empty (and finite, being a sequence) whenever the requested
/// fields are all declared.
pub proof fn lemma_select_empty_table(t: TableV, fields: Seq<Seq<char>>)
    requires
        t.rows.len() == 0,
        forall|j: int| 0 <= j < fields.len() ==> col_index(t.columns, fields[j]) is Some,
    ensures
        spec_table_select(t, fields) matches Ok(out) && out.rows.len() == 0,
{
    lemma_no_missing_from(t.columns, fields, 0);
}

/// A row whose arity equals the column count and whose value tags all match
/// the declared column types is accepted, and a subsequent selection of all
/// columns answers exactly that row, last and in column order.
pub proof fn lemma_insert_then_select_all(t: TableV, vs: Seq<ValueV>)
    requires
        table_wf(t),
        values_wf(vs),
        vs.len() == t.columns.len(),
        forall|j: int| 0 <= j < vs.len() ==> type_matches(t.columns[j].type_info, vs[j]),
    ensures
        spec_table_insert(t, vs) matches Ok(t2) && {
            let names = Seq::new(t.columns.len(), |j: int| t.columns[j].name);
            &&& spec_table_select(t2, names) matches Ok(out)
            &&& out.rows.len() == t.rows.len() + 1
            &&& out.rows.last().data == Seq::new(
                vs.len(),
                |j: int| (t.columns[j].name, vs[j]),
            )
        },
{
    lemma_no_mismatch_from(t.columns, vs, 0);
    let t2 = TableV { columns: t.columns, rows: t.rows.push(vs) };
    assert(spec_table_insert(t, vs) == Ok::<TableV, QueryExecutionErrorV>(t2));
    let names = Seq::new(t.columns.len(), |j: int| t.columns[j].name);
    assert forall|j: int| 0 <= j < names.len() implies col_index(t.columns, names[j]) is Some by {
        lemma_col_index_self(t.columns, j);
    }
    lemma_no_missing_from(t.columns, names, 0);
    let out = TableIterV {
        columns: Seq::new(names.len(), |j: int| selected_column(t2.columns, names[j])),
        rows: Seq::new(t2.rows.len(), |i: int| project_row(t2.columns, t2.rows[i], names, i)),
    };
    assert(spec_table_select(t2, names) == Ok::<TableIterV, QueryExecutionErrorV>(out));
    let last = out.rows.last();
    assert forall|j: int| 0 <= j < vs.len() implies last.data[j] == (t.columns[j].name, vs[j]) by {
        lemma_col_index_self(t.columns, j);
    }
    assert(last.data =~= Seq::new(vs.len(), |j: int| (t.columns[j].name, vs[j])));
}

/// When no mismatch is reported, every pair matches.
proof fn lemma_mismatch_none_all(cols: Seq<ColumnV>, vs: Seq<ValueV>, k: int)
    requires
        vs.len() == cols.len(),
        0 <= k,
        first_type_mismatch_from(cols, vs, k) is None,
    ensures
        forall|j: int| k <= j < cols.len() ==> type_matches(cols[j].type_info, vs[j]),
    decreases cols.len() - k,
{
    if k < cols.len() {
        lemma_mismatch_none_all(cols, vs, k + 1);
    }
}

/// A row that carries text where a column is declared `Int` is rejected
/// with a type-mismatch error. Since an error changes no table, the row
/// count stays what it was (see `Execution::run`).
pub proof fn lemma_insert_type_mismatch(t: TableV, vs: Seq<ValueV>, k: int)
    requires
        vs.len() == t.columns.len(),
        0 <= k < vs.len(),
        t.columns[k].type_info == crate::create::SqlTypeInfo::Int,
        vs[k] matches ValueV::String(_),
    ensures
        spec_table_insert(t, vs) matches Err(e) && e matches
            QueryExecutionErrorV::InsertTypeMismatch(_, _),
{
    assert(!type_matches(t.columns[k].type_info, vs[k]));
    if first_type_mismatch(t.columns, vs) is None {
        lemma_mismatch_none_all(t.columns, vs, 0);
    }
}

/// When no field is reported missing, every field is declared.
proof fn lemma_missing_none_all(cols: Seq<ColumnV>, fields: Seq<Seq<char>>, k: int)
    requires
        0 <= k,
        first_missing_field_from(cols, fields, k) is None,
    ensures
        forall|j: int| k <= j < fields.len() ==> col_index(cols, fields[j]) is Some,
    decreases fields.len() - k,
{
    if k < fields.len() {
        lemma_missing_none_all(cols, fields, k + 1);
    }
}

/// A selection that requests an undeclared field name answers the
/// column-does-not-exist error and no rows at all, partial or otherwise.
pub proof fn lemma_select_missing_column(t: TableV, fields: Seq<Seq<char>>, k: int)
    requires
        0 <= k < fields.len(),
        col_index(t.columns, fields[k]) is None,
    ensures
        spec_table_select(t, fields) matches Err(e) && e matches
            QueryExecutionErrorV::ColumnDoesNotExist(_),
{
    if first_missing_field(t.columns, fields) is None {
        lemma_missing_none_all(t.columns, fields, 0);
    }
}

/// A registry entry is found when one carries the name.
proof fn lemma_table_index_some_from(reg: Seq<(Seq<char>, TableV)>, name: Seq<char>, i: int, k: int)
    requires
        0 <= k <= i < reg.len(),
        reg[i].0 == name,
    ensures
        table_index_from(reg, name, k) is Some,
    decreases i - k,
{
    if k < i && reg[k].0 != name {
        lemma_table_index_some_from(reg, name, i, k + 1);
    }
}

/// Creating a table under a name that is already registered fails with
/// `TableAlreadyExists`; the registry, and so the pre-existing table's
/// schema and rows, are exactly as they were.
pub proof fn lemma_create_existing(
    reg: Seq<(Seq<char>, TableV)>,
    name: Seq<char>,
    cols: Seq<ColumnV>,
    i: int,
)
    requires
        0 <= i < reg.len(),
        reg[i].0 == name,
    ensures
        spec_create_table(reg, name, cols) == Err::<Seq<(Seq<char>, TableV)>,
            QueryExecutionErrorV,
        >(QueryExecutionErrorV::TableAlreadyExists(name)),
{
    lemma_table_index_some_from(reg, name, i, 0);
}

} // verus!
