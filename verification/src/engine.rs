//! The execution engine: a registry of named tables and the `run` entry
//! point that validates and executes one parsed statement.

use vstd::prelude::*;

use crate::ast::{query_wf, QueryV, SqlQuery};
use crate::create::{columns_view, Column, ColumnV, CreateStatement};
use crate::error::{QueryExecutionError, QueryExecutionErrorV};
use crate::insert::InsertStatement;
use crate::select::SelectStatement;
use crate::table::{
    spec_table_insert, spec_table_select, table_wf, unique_column_names, Table, TableIter, TableV,
};

verus! {

/// What one executed statement answers: a projected result set for
/// `SELECT`, or a bare acknowledgement.
#[derive(Debug)]
pub enum ExecResponse {
    Select(TableIter),
    Insert,
    Create,
}

/// The position of the first registry entry named `name`, at or after `k`.
pub open spec fn table_index_from(
    reg: Seq<(Seq<char>, TableV)>,
    name: Seq<char>,
    k: int,
) -> Option<int>
    decreases reg.len() - k,
{
    if 0 <= k < reg.len() {
        if reg[k].0 == name {
            Some(k)
        } else {
            table_index_from(reg, name, k + 1)
        }
    } else {
        None
    }
}

/// The position of the registry entry named `name`, if any.
pub open spec fn table_index(reg: Seq<(Seq<char>, TableV)>, name: Seq<char>) -> Option<int> {
    table_index_from(reg, name, 0)
}

/// A well-formed registry: table names are unique and every table is well
/// formed.
pub open spec fn registry_wf(reg: Seq<(Seq<char>, TableV)>) -> bool {
    &&& forall|i: int, j: int| 0 <= i < j < reg.len() ==> reg[i].0 != reg[j].0
    &&& forall|i: int| 0 <= i < reg.len() ==> table_wf(reg[i].1)
}

/// `name` occurs among the first `upto` columns.
pub open spec fn name_among(cols: Seq<ColumnV>, name: Seq<char>, upto: int) -> bool {
    exists|i: int| 0 <= i < upto && cols[i].name == name
}

/// The first column name that repeats an earlier one, at or after `k`.
pub open spec fn first_dup_from(cols: Seq<ColumnV>, k: int) -> Option<Seq<char>>
    decreases cols.len() - k,
{
    if 0 <= k < cols.len() {
        if name_among(cols, cols[k].name, k) {
            Some(cols[k].name)
        } else {
            first_dup_from(cols, k + 1)
        }
    } else {
        None
    }
}

/// The first column name that repeats an earlier one, if any.
pub open spec fn first_dup_column(cols: Seq<ColumnV>) -> Option<Seq<char>> {
    first_dup_from(cols, 0)
}

/// What creating a table yields: an error if the name is taken or a column
/// name repeats, else the registry with the new empty table appended. The
/// registry is unchanged on an error.
pub open spec fn spec_create_table(
    reg: Seq<(Seq<char>, TableV)>,
    name: Seq<char>,
    cols: Seq<ColumnV>,
) -> Result<Seq<(Seq<char>, TableV)>, QueryExecutionErrorV> {
    if table_index(reg, name) is Some {
        Err(QueryExecutionErrorV::TableAlreadyExists(name))
    } else {
        match first_dup_column(cols) {
            Some(n) => Err(QueryExecutionErrorV::DuplicateColumnName(n)),
            None => Ok(reg.push((name, TableV { columns: cols, rows: Seq::empty() }))),
        }
    }
}

/// The first column name of `cols` that repeats an earlier one.
fn find_dup_column(cols: &Vec<Column>) -> (r: Option<String>)
    ensures
        match r {
            Some(n) => first_dup_column(columns_view(cols@)) == Some(n@),
            None => {
                &&& first_dup_column(columns_view(cols@)) is None
                &&& unique_column_names(columns_view(cols@))
            },
        },
{
    let ghost cv = columns_view(cols@);
    let mut k: usize = 0;
    while k < cols.len()
        invariant
            0 <= k <= cols@.len(),
            cv == columns_view(cols@),
            cv.len() == cols@.len(),
            first_dup_column(cv) == first_dup_from(cv, k as int),
            forall|i: int, j: int| 0 <= i < j < k ==> cv[i].name != cv[j].name,
        decreases cols@.len() - k,
    {
        let mut m: usize = 0;
        while m < k
            invariant
                0 <= m <= k < cols@.len(),
                cv == columns_view(cols@),
                cv.len() == cols@.len(),
                first_dup_column(cv) == first_dup_from(cv, k as int),
                forall|i: int| 0 <= i < m ==> cv[i].name != cv[k as int].name,
            decreases k - m,
        {
            if cols[m].name == cols[k].name {
                proof {
                    assert(cv[m as int].name == cols@[m as int]@.name);
                    assert(name_among(cv, cv[k as int].name, k as int));
                    assert(first_dup_from(cv, k as int) == Some(cv[k as int].name));
                }
                return Some(cols[k].name.clone());
            }
            m = m + 1;
        }
        proof {
            assert(!name_among(cv, cv[k as int].name, k as int));
        }
        k = k + 1;
    }
    None
}

/// The execution engine's sole state: the registered tables, each under its
/// unique name.
#[derive(Debug)]
pub struct Execution {
    names: Vec<String>,
    tables: Vec<Table>,
}

impl View for Execution {
    type V = Seq<(Seq<char>, TableV)>;

    closed spec fn view(&self) -> Seq<(Seq<char>, TableV)> {
        Seq::new(self.names@.len(), |i: int| (self.names@[i]@, self.tables@[i]@))
    }
}

impl Execution {
    /// The engine's invariant: names and tables pair up, names are unique,
    /// every table is well formed.
    pub closed spec fn wf(&self) -> bool {
        &&& self.names@.len() == self.tables@.len()
        &&& registry_wf(self@)
    }

    /// A well-formed engine has a well-formed registry view.
    pub proof fn lemma_wf_registry(&self)
        requires
            self.wf(),
        ensures
            registry_wf(self@),
    {
    }

    /// An engine with no tables.
    pub fn new() -> (r: Execution)
        ensures
            r@ == Seq::<(Seq<char>, TableV)>::empty(),
            r.wf(),
    {
        let e = Execution { names: Vec::new(), tables: Vec::new() };
        proof {
            assert(e@ =~= Seq::<(Seq<char>, TableV)>::empty());
        }
        e
    }

    /// The position of the table registered under `name`, if any.
    fn position(&self, name: &String) -> (r: Option<usize>)
        requires
            self.wf(),
        ensures
            match r {
                Some(i) => {
                    &&& i < self.names@.len() && i < self.tables@.len()
                    &&& table_index(self@, name@) == Some(i as int)
                    &&& self@[i as int].0 == name@
                    &&& self@[i as int].1 == self.tables@[i as int]@
                },
                None => {
                    &&& table_index(self@, name@) is None
                    &&& forall|m: int| 0 <= m < self@.len() ==> self@[m].0 != name@
                },
            },
    {
        let ghost reg = self@;
        let mut k: usize = 0;
        while k < self.names.len()
            invariant
                0 <= k <= self.names@.len(),
                reg == self@,
                reg.len() == self.names@.len(),
                self.names@.len() == self.tables@.len(),
                table_index(reg, name@) == table_index_from(reg, name@, k as int),
                forall|m: int| 0 <= m < k ==> reg[m].0 != name@,
            decreases self.names@.len() - k,
        {
            if self.names[k] == *name {
                proof {
                    assert(reg[k as int].0 == self.names@[k as int]@);
                }
                return Some(k);
            }
            proof {
                assert(reg[k as int].0 == self.names@[k as int]@);
            }
            k = k + 1;
        }
        None
    }

    /// Execute one parsed statement against the registry. Exactly the
    /// transition the statement's specification function describes happens:
    /// a successful `CREATE` registers a new empty table, a successful
    /// `INSERT` appends one row to the named table, a successful `SELECT`
    /// answers the projected rows; on any error the registry is exactly as
    /// it was before the call.
    pub fn run(&mut self, query: SqlQuery) -> (r: Result<ExecResponse, QueryExecutionError>)
        requires
            old(self).wf(),
            query_wf(query@),
        ensures
            final(self).wf(),
            match query@ {
                QueryV::Create(c) => match spec_create_table(old(self)@, c.table, c.columns) {
                    Ok(reg2) => r matches Ok(ExecResponse::Create) && final(self)@ == reg2,
                    Err(ev) => r matches Err(e) && e@ == ev && final(self)@ == old(self)@,
                },
                QueryV::Insert(ins) => match table_index(old(self)@, ins.table) {
                    None => r matches Err(e) && e@ == QueryExecutionErrorV::TableNotFound(ins.table)
                        && final(self)@ == old(self)@,
                    Some(ti) => match spec_table_insert(old(self)@[ti].1, ins.values) {
                        Ok(t2) => r matches Ok(ExecResponse::Insert) && final(self)@ == old(
                            self,
                        )@.update(ti, (ins.table, t2)),
                        Err(ev) => r matches Err(e) && e@ == ev && final(self)@ == old(self)@,
                    },
                },
                QueryV::Select(sel) => final(self)@ == old(self)@ && (match table_index(
                    old(self)@,
                    sel.table,
                ) {
                    None => r matches Err(e) && e@ == QueryExecutionErrorV::TableNotFound(
                        sel.table,
                    ),
                    Some(ti) => match spec_table_select(old(self)@[ti].1, sel.fields) {
                        Ok(tv) => r matches Ok(resp) && (resp matches ExecResponse::Select(out)
                            && out@ == tv),
                        Err(ev) => r matches Err(e) && e@ == ev,
                    },
                }),
            },
    {
        match query {
            SqlQuery::Select(select) => {
                let SelectStatement { table, fields } = select;
                match self.position(&table) {
                    None => Err(QueryExecutionError::TableNotFound(table)),
                    Some(i) => {
                        let t = &self.tables[i];
                        match t.select(fields) {
                            Ok(out) => Ok(ExecResponse::Select(out)),
                            Err(e) => Err(e),
                        }
                    },
                }
            },
            SqlQuery::Insert(insert) => {
                let InsertStatement { table, values } = insert;
                match self.position(&table) {
                    None => Err(QueryExecutionError::TableNotFound(table)),
                    Some(i) => {
                        let ghost reg = self@;
                        let ghost names0 = self.names@;
                        let mut t = self.tables.remove(i);
                        let res = t.insert(values);
                        self.tables.insert(i, t);
                        proof {
                            assert(self.names@ == names0);
                            assert forall|m: int|
                                0 <= m < reg.len() && m != i implies self.tables@[m]@
                                == reg[m].1 by {}
                            match res {
                                Ok(_) => {
                                    assert(self@ =~= reg.update(i as int, (reg[i as int].0, t@)));
                                },
                                Err(_) => {
                                    assert(self@ =~= reg);
                                },
                            }
                        }
                        match res {
                            Ok(_) => Ok(ExecResponse::Insert),
                            Err(e) => Err(e),
                        }
                    },
                }
            },
            SqlQuery::Create(create) => {
                let CreateStatement { table, columns } = create;
                if self.position(&table).is_some() {
                    return Err(QueryExecutionError::TableAlreadyExists(table));
                }
                match find_dup_column(&columns) {
                    Some(dup) => Err(QueryExecutionError::DuplicateColumnName(dup)),
                    None => {
                        let t = Table::new(columns);
                        let ghost reg = self@;
                        self.names.push(table);
                        self.tables.push(t);
                        proof {
                            assert(self@ =~= reg.push(
                                (self.names@[reg.len() as int]@, self.tables@[reg.len() as int]@),
                            ));
                        }
                        Ok(ExecResponse::Create)
                    },
                }
            },
        }
    }
}

impl Default for Execution {
    /// An engine with no tables.
    fn default() -> (r: Execution)
        ensures
            r@ == Seq::<(Seq<char>, TableV)>::empty(),
            r.wf(),
    {
        Execution::new()
    }
}

} // verus!
