//! Table storage: an ordered column schema plus an append-only row log,
//! with typed insertion and full-scan row projection.

use vstd::prelude::*;

use crate::create::{columns_view, Column, ColumnV, SqlTypeInfo};
use crate::error::{QueryExecutionError, QueryExecutionErrorV};
use crate::insert::{values_view, values_wf};
use crate::row::{pairs_view, Row, RowV};
use crate::select::fields_view;
use crate::value::{Value, ValueV};

verus! {

/// A value's tag matches a declared column type: numbers go to `Int`
/// columns, text to `String` columns.
pub open spec fn type_matches(t: SqlTypeInfo, v: ValueV) -> bool {
    match v {
        ValueV::Number(_) => t == SqlTypeInfo::Int,
        ValueV::String(_) => t == SqlTypeInfo::String,
    }
}

/// No two columns share a name.
pub open spec fn unique_column_names(cols: Seq<ColumnV>) -> bool {
    forall|i: int, j: int| 0 <= i < j < cols.len() ==> cols[i].name != cols[j].name
}

/// A row fits a schema: same arity, a matching tag at every position, and
/// well-formed values.
pub open spec fn row_matches(cols: Seq<ColumnV>, vs: Seq<ValueV>) -> bool {
    &&& vs.len() == cols.len()
    &&& forall|j: int| 0 <= j < cols.len() ==> type_matches(cols[j].type_info, vs[j])
    &&& values_wf(vs)
}

/// The mathematical shape of a table: its schema and its row log.
pub struct TableV {
    pub columns: Seq<ColumnV>,
    pub rows: Seq<Seq<ValueV>>,
}

/// A well-formed table: distinct column names, every stored row fits the
/// schema.
pub open spec fn table_wf(t: TableV) -> bool {
    &&& unique_column_names(t.columns)
    &&& forall|i: int| 0 <= i < t.rows.len() ==> row_matches(t.columns, t.rows[i])
}

/// The position of the first type mismatch between schema and values, at or
/// after `k`.
pub open spec fn first_type_mismatch_from(cols: Seq<ColumnV>, vs: Seq<ValueV>, k: int) -> Option<
    int,
>
    decreases cols.len() - k,
{
    if 0 <= k < cols.len() && k < vs.len() {
        if !type_matches(cols[k].type_info, vs[k]) {
            Some(k)
        } else {
            first_type_mismatch_from(cols, vs, k + 1)
        }
    } else {
        None
    }
}

/// The position of the first type mismatch between schema and values.
pub open spec fn first_type_mismatch(cols: Seq<ColumnV>, vs: Seq<ValueV>) -> Option<int> {
    first_type_mismatch_from(cols, vs, 0)
}

/// What inserting `vs` into `t` yields: an arity error, the first type
/// mismatch, or the table with the row appended. Nothing changes on an
/// error.
pub open spec fn spec_table_insert(t: TableV, vs: Seq<ValueV>) -> Result<
    TableV,
    QueryExecutionErrorV,
> {
    if vs.len() != t.columns.len() {
        Err(QueryExecutionErrorV::InsertArityMismatch(t.columns.len(), vs.len()))
    } else {
        match first_type_mismatch(t.columns, vs) {
            Some(k) => Err(QueryExecutionErrorV::InsertTypeMismatch(t.columns[k].type_info, vs[k])),
            None => Ok(TableV { columns: t.columns, rows: t.rows.push(vs) }),
        }
    }
}

/// The position of the first column named `name`, at or after `k`.
pub open spec fn col_index_from(cols: Seq<ColumnV>, name: Seq<char>, k: int) -> Option<int>
    decreases cols.len() - k,
{
    if 0 <= k < cols.len() {
        if cols[k].name == name {
            Some(k)
        } else {
            col_index_from(cols, name, k + 1)
        }
    } else {
        None
    }
}

/// The position of the first column named `name`.
pub open spec fn col_index(cols: Seq<ColumnV>, name: Seq<char>) -> Option<int> {
    col_index_from(cols, name, 0)
}

/// The position, at or after `k`, of the first requested field that no
/// column declares.
pub open spec fn first_missing_field_from(
    cols: Seq<ColumnV>,
    fields: Seq<Seq<char>>,
    k: int,
) -> Option<int>
    decreases fields.len() - k,
{
    if 0 <= k < fields.len() {
        if col_index(cols, fields[k]) is None {
            Some(k)
        } else {
            first_missing_field_from(cols, fields, k + 1)
        }
    } else {
        None
    }
}

/// The position of the first requested field that no column declares.
pub open spec fn first_missing_field(cols: Seq<ColumnV>, fields: Seq<Seq<char>>) -> Option<int> {
    first_missing_field_from(cols, fields, 0)
}

/// The column that answers for a requested field. Only evaluated for fields
/// the schema declares; the fallback is never reached then.
pub open spec fn selected_column(cols: Seq<ColumnV>, name: Seq<char>) -> ColumnV {
    match col_index(cols, name) {
        Some(i) => cols[i],
        None => ColumnV { name, type_info: SqlTypeInfo::String },
    }
}

/// The stored value a requested field resolves to in one row. Only
/// evaluated for fields the schema declares; the fallback is never reached
/// then.
pub open spec fn selected_value(cols: Seq<ColumnV>, row: Seq<ValueV>, name: Seq<char>) -> ValueV {
    match col_index(cols, name) {
        Some(i) => row[i],
        None => ValueV::String(Seq::empty()),
    }
}

/// The projection of one stored row onto the requested fields, keeping the
/// requested order.
pub open spec fn project_row(
    cols: Seq<ColumnV>,
    row: Seq<ValueV>,
    fields: Seq<Seq<char>>,
    id: int,
) -> RowV {
    RowV {
        id: id as nat,
        data: Seq::new(fields.len(), |j: int| (fields[j], selected_value(cols, row, fields[j]))),
    }
}

/// The mathematical shape of a projected result set.
pub struct TableIterV {
    pub columns: Seq<ColumnV>,
    pub rows: Seq<RowV>,
}

/// What selecting `fields` from `t` yields: the first undeclared field as
/// an error, or one projection per stored row, in row-insertion order, plus
/// the selected columns for headers.
pub open spec fn spec_table_select(t: TableV, fields: Seq<Seq<char>>) -> Result<
    TableIterV,
    QueryExecutionErrorV,
> {
    match first_missing_field(t.columns, fields) {
        Some(k) => Err(QueryExecutionErrorV::ColumnDoesNotExist(fields[k])),
        None => Ok(
            TableIterV {
                columns: Seq::new(fields.len(), |j: int| selected_column(t.columns, fields[j])),
                rows: Seq::new(t.rows.len(), |i: int| project_row(t.columns, t.rows[i], fields, i)),
            },
        ),
    }
}

/// The views of a sequence of stored rows.
pub open spec fn rows_view(rows: Seq<Vec<Value>>) -> Seq<Seq<ValueV>> {
    rows.map_values(|r: Vec<Value>| values_view(r@))
}

/// One table: a fixed, ordered column schema and an append-only row log.
#[derive(Debug)]
pub struct Table {
    columns: Vec<Column>,
    rows: Vec<Vec<Value>>,
}

impl View for Table {
    type V = TableV;

    closed spec fn view(&self) -> TableV {
        TableV { columns: columns_view(self.columns@), rows: rows_view(self.rows@) }
    }
}

/// A materialised result set: the selected columns, for headers, and one
/// projected row per stored row.
#[derive(Debug)]
pub struct TableIter {
    pub columns: Vec<Column>,
    pub rows: Vec<Row>,
}

impl View for TableIter {
    type V = TableIterV;

    open spec fn view(&self) -> TableIterV {
        TableIterV {
            columns: columns_view(self.columns@),
            rows: self.rows@.map_values(|r: Row| r@),
        }
    }
}

/// The position of the first column of `cols` named `name`.
fn find_col(cols: &Vec<Column>, name: &String) -> (r: Option<usize>)
    ensures
        match r {
            Some(ci) => {
                &&& col_index(columns_view(cols@), name@) == Some(ci as int)
                &&& ci < cols@.len()
            },
            None => col_index(columns_view(cols@), name@) is None,
        },
{
    let ghost cv = columns_view(cols@);
    let mut ci: usize = 0;
    while ci < cols.len()
        invariant
            0 <= ci <= cols@.len(),
            cv == columns_view(cols@),
            cv.len() == cols@.len(),
            col_index(cv, name@) == col_index_from(cv, name@, ci as int),
        decreases cols@.len() - ci,
    {
        if cols[ci].name == *name {
            return Some(ci);
        }
        ci = ci + 1;
    }
    None
}

impl Table {
    /// An empty table with the given schema, verbatim.
    pub fn new(columns: Vec<Column>) -> (r: Table)
        requires
            unique_column_names(columns_view(columns@)),
        ensures
            r@ == (TableV { columns: columns_view(columns@), rows: Seq::empty() }),
            table_wf(r@),
    {
        let t = Table { columns, rows: Vec::new() };
        proof {
            assert(rows_view(t.rows@) =~= Seq::<Seq<ValueV>>::empty());
        }
        t
    }

    /// The schema, in declaration order.
    pub fn columns(&self) -> (r: &Vec<Column>)
        ensures
            columns_view(r@) == self@.columns,
    {
        &self.columns
    }

    /// Append one row. The value count must equal the column count and
    /// every value's tag must match its column's declared type; otherwise
    /// the arity error or the first type mismatch is returned and the table
    /// is left unchanged.
    pub fn insert(&mut self, values: Vec<Value>) -> (r: Result<(), QueryExecutionError>)
        requires
            table_wf(old(self)@),
            values_wf(values_view(values@)),
        ensures
            table_wf(final(self)@),
            match r {
                Ok(_) => spec_table_insert(old(self)@, values_view(values@)) == Ok::<
                    TableV,
                    QueryExecutionErrorV,
                >(final(self)@),
                Err(e) => {
                    &&& spec_table_insert(old(self)@, values_view(values@)) matches Err(ev)
                        && e@ == ev
                    &&& final(self)@ == old(self)@
                },
            },
    {
        let ghost cols = columns_view(self.columns@);
        let ghost vs = values_view(values@);
        if values.len() != self.columns.len() {
            return Err(
                QueryExecutionError::InsertArityMismatch(self.columns.len(), values.len()),
            );
        }
        let mut k: usize = 0;
        while k < self.columns.len()
            invariant
                0 <= k <= self.columns@.len(),
                *self == *old(self),
                table_wf(self@),
                values_wf(values_view(values@)),
                cols == columns_view(self.columns@),
                vs == values_view(values@),
                vs.len() == cols.len(),
                cols.len() == self.columns@.len(),
                first_type_mismatch(cols, vs) == first_type_mismatch_from(cols, vs, k as int),
                forall|j: int| 0 <= j < k ==> type_matches(cols[j].type_info, vs[j]),
            decreases self.columns@.len() - k,
        {
            let matches_here = match (&self.columns[k].type_info, &values[k]) {
                (SqlTypeInfo::Int, Value::Number(_)) => true,
                (SqlTypeInfo::String, Value::String(_)) => true,
                _ => false,
            };
            if !matches_here {
                let expected = self.columns[k].type_info;
                let offending = values[k].duplicate();
                return Err(QueryExecutionError::InsertTypeMismatch(expected, offending));
            }
            k = k + 1;
        }
        let ghost old_rows = rows_view(self.rows@);
        self.rows.push(values);
        proof {
            assert(rows_view(self.rows@) =~= old_rows.push(vs));
            assert(row_matches(cols, vs));
            assert forall|i: int| 0 <= i < rows_view(self.rows@).len() implies row_matches(
                cols,
                rows_view(self.rows@)[i],
            ) by {
                if i < old_rows.len() {
                    assert(row_matches(cols, old(self)@.rows[i]));
                }
            }
        }
        Ok(())
    }

    /// Project every stored row onto the requested fields, in row-insertion
    /// order. Fails with `ColumnDoesNotExist` on the first requested field
    /// the schema does not declare, returning no rows at all.
    pub fn select(&self, columns: Vec<String>) -> (r: Result<TableIter, QueryExecutionError>)
        requires
            table_wf(self@),
        ensures
            match r {
                Ok(ti) => spec_table_select(self@, fields_view(columns@)) == Ok::<
                    TableIterV,
                    QueryExecutionErrorV,
                >(ti@),
                Err(e) => spec_table_select(self@, fields_view(columns@)) matches Err(ev) && e@
                    == ev,
            },
    {
        let ghost cols = columns_view(self.columns@);
        let ghost fields = fields_view(columns@);
        // Resolve every requested field to its column position first, so a
        // miss returns before any row is projected.
        let mut idxs: Vec<usize> = Vec::new();
        let mut sel_cols: Vec<Column> = Vec::new();
        let mut j: usize = 0;
        while j < columns.len()
            invariant
                0 <= j <= columns@.len(),
                cols == columns_view(self.columns@),
                fields == fields_view(columns@),
                fields.len() == columns@.len(),
                cols.len() == self.columns@.len(),
                idxs@.len() == j,
                sel_cols@.len() == j,
                first_missing_field(cols, fields) == first_missing_field_from(
                    cols,
                    fields,
                    j as int,
                ),
                forall|m: int| 0 <= m < j ==> col_index(cols, fields[m]) == Some(idxs@[m] as int),
                forall|m: int| 0 <= m < j ==> 0 <= #[trigger] idxs@[m] < cols.len(),
                forall|m: int|
                    0 <= m < j ==> columns_view(sel_cols@)[m] == selected_column(cols, fields[m]),
            decreases columns@.len() - j,
        {
            let field = &columns[j];
            match find_col(&self.columns, field) {
                Some(ci) => {
                    idxs.push(ci);
                    let ghost prev = sel_cols@;
                    sel_cols.push(self.columns[ci].duplicate());
                    proof {
                        assert forall|m: int|
                            0 <= m < j + 1 implies columns_view(sel_cols@)[m] == selected_column(
                            cols,
                            fields[m],
                        ) by {
                            assert(columns_view(sel_cols@)[m] == sel_cols@[m]@);
                            if m < j {
                                assert(sel_cols@[m] == prev[m]);
                                assert(columns_view(prev)[m] == prev[m]@);
                            } else {
                                assert(fields[m] == columns@[m]@);
                                assert(col_index(cols, fields[m]) == Some(ci as int));
                                assert(cols[ci as int] == self.columns@[ci as int]@);
                            }
                        }
                    }
                },
                None => {
                    return Err(QueryExecutionError::ColumnDoesNotExist(field.clone()));
                },
            }
            j = j + 1;
        }
        // Project each stored row onto the resolved positions.
        let mut rows: Vec<Row> = Vec::new();
        let ghost row_views = rows_view(self.rows@);
        let mut i: usize = 0;
        while i < self.rows.len()
            invariant
                0 <= i <= self.rows@.len(),
                cols == columns_view(self.columns@),
                fields == fields_view(columns@),
                fields.len() == columns@.len(),
                cols.len() == self.columns@.len(),
                row_views == rows_view(self.rows@),
                row_views.len() == self.rows@.len(),
                table_wf(self@),
                idxs@.len() == fields.len(),
                forall|m: int|
                    0 <= m < fields.len() ==> col_index(cols, fields[m]) == Some(idxs@[m] as int),
                forall|m: int| 0 <= m < fields.len() ==> 0 <= #[trigger] idxs@[m] < cols.len(),
                rows@.len() == i,
                forall|m: int|
                    0 <= m < i ==> rows@[m]@ == project_row(cols, row_views[m], fields, m),
            decreases self.rows@.len() - i,
        {
            let stored = &self.rows[i];
            proof {
                assert(self@ == (TableV { columns: cols, rows: row_views }));
                assert(self@.rows[i as int] == row_views[i as int]);
                assert(row_matches(self@.columns, self@.rows[i as int]));
                assert(row_matches(cols, row_views[i as int]));
            }
            let mut data: Vec<(String, Value)> = Vec::new();
            let mut m: usize = 0;
            while m < idxs.len()
                invariant
                    0 <= m <= idxs@.len(),
                    idxs@.len() == fields.len(),
                    fields == fields_view(columns@),
                    fields.len() == columns@.len(),
                    cols.len() == self.columns@.len(),
                    forall|x: int|
                        0 <= x < fields.len() ==> col_index(cols, fields[x]) == Some(
                            idxs@[x] as int,
                        ),
                    forall|x: int| 0 <= x < fields.len() ==> 0 <= #[trigger] idxs@[x] < cols.len(),
                    values_view(stored@) == row_views[i as int],
                    stored@.len() == cols.len(),
                    i < row_views.len(),
                    data@.len() == m,
                    forall|x: int|
                        0 <= x < m ==> pairs_view(data@)[x] == (
                            fields[x],
                            selected_value(cols, row_views[i as int], fields[x]),
                        ),
                decreases idxs@.len() - m,
            {
                let value = stored[idxs[m]].duplicate();
                let ghost prev = data@;
                data.push((columns[m].clone(), value));
                proof {
                    assert forall|x: int| 0 <= x < m + 1 implies pairs_view(data@)[x] == (
                        fields[x],
                        selected_value(cols, row_views[i as int], fields[x]),
                    ) by {
                        assert(pairs_view(data@)[x] == (data@[x].0@, data@[x].1@));
                        if x < m {
                            assert(data@[x] == prev[x]);
                            assert(pairs_view(prev)[x] == (prev[x].0@, prev[x].1@));
                        } else {
                            assert(fields[x] == columns@[x]@);
                            assert(col_index(cols, fields[x]) == Some(idxs@[x] as int));
                            assert(values_view(stored@)[idxs@[x] as int] == stored@[idxs@[x] as int]@);
                            assert(data@[x].1@ == values_view(stored@)[idxs@[x] as int]);
                        }
                    }
                }
                m = m + 1;
            }
            let row = Row::new(i, data);
            proof {
                assert(row@.data =~= project_row(cols, row_views[i as int], fields, i as int).data);
                assert(row@ == project_row(cols, row_views[i as int], fields, i as int));
            }
            rows.push(row);
            i = i + 1;
        }
        let ti = TableIter { columns: sel_cols, rows };
        proof {
            let spec_ti = TableIterV {
                columns: Seq::new(fields.len(), |j: int| selected_column(cols, fields[j])),
                rows: Seq::new(row_views.len(), |i: int| project_row(cols, row_views[i], fields, i)),
            };
            assert(ti@.columns =~= spec_ti.columns);
            assert(ti@.rows =~= spec_ti.rows);
        }
        Ok(ti)
    }
}

} // verus!
