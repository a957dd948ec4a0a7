//! Typed execution errors. After any of these the table store is exactly as
//! it was before the failing statement.

use vstd::prelude::*;

use crate::create::SqlTypeInfo;
use crate::value::{Value, ValueV};

verus! {

/// Why a statement could not be executed.
#[derive(Debug, Clone, PartialEq, Eq)]
pub enum QueryExecutionError {
    /// The statement names a table that is not registered.
    TableNotFound(String),
    /// `CREATE TABLE` names a table that is already registered.
    TableAlreadyExists(String),
    /// `SELECT` requests a field the table does not declare.
    ColumnDoesNotExist(String),
    /// An inserted value's tag does not match the declared column type:
    /// the column's type and the offending value.
    InsertTypeMismatch(SqlTypeInfo, Value),
    /// `INSERT` supplies a different number of values than the table has
    /// columns: the declared column count and the supplied value count.
    InsertArityMismatch(usize, usize),
    /// `CREATE TABLE` declares the same column name twice.
    DuplicateColumnName(String),
}

/// The mathematical shape of an execution error.
pub enum QueryExecutionErrorV {
    TableNotFound(Seq<char>),
    TableAlreadyExists(Seq<char>),
    ColumnDoesNotExist(Seq<char>),
    InsertTypeMismatch(SqlTypeInfo, ValueV),
    InsertArityMismatch(nat, nat),
    DuplicateColumnName(Seq<char>),
}

impl View for QueryExecutionError {
    type V = QueryExecutionErrorV;

    open spec fn view(&self) -> QueryExecutionErrorV {
        match self {
            QueryExecutionError::TableNotFound(n) => QueryExecutionErrorV::TableNotFound(n@),
            QueryExecutionError::TableAlreadyExists(n) => QueryExecutionErrorV::TableAlreadyExists(
                n@,
            ),
            QueryExecutionError::ColumnDoesNotExist(n) => QueryExecutionErrorV::ColumnDoesNotExist(
                n@,
            ),
            QueryExecutionError::InsertTypeMismatch(t, v) => {
                QueryExecutionErrorV::InsertTypeMismatch(*t, v@)
            },
            QueryExecutionError::InsertArityMismatch(c, v) => {
                QueryExecutionErrorV::InsertArityMismatch(*c as nat, *v as nat)
            },
            QueryExecutionError::DuplicateColumnName(n) => {
                QueryExecutionErrorV::DuplicateColumnName(n@)
            },
        }
    }
}

} // verus!
