//! A row projection: the field-limited, read-only view of one stored row
//! that `SELECT` produces.

use vstd::prelude::*;

use crate::error::{QueryExecutionError, QueryExecutionErrorV};
use crate::value::{Value, ValueV};

verus! {

/// The mathematical shape of a row projection: the row's identifier and the
/// projected fields, as name/value pairs in the requested order.
pub struct RowV {
    pub id: nat,
    pub data: Seq<(Seq<char>, ValueV)>,
}

/// The views of a sequence of name/value pairs.
pub open spec fn pairs_view(v: Seq<(String, Value)>) -> Seq<(Seq<char>, ValueV)> {
    v.map_values(|p: (String, Value)| (p.0@, p.1@))
}

/// The value of the first pair carrying `name`, if any.
pub open spec fn row_lookup(data: Seq<(Seq<char>, ValueV)>, name: Seq<char>) -> Option<ValueV>
    decreases data.len(),
{
    if data.len() == 0 {
        None
    } else if data[0].0 == name {
        Some(data[0].1)
    } else {
        row_lookup(data.drop_first(), name)
    }
}

/// One projected row: an identifier and the requested fields with their
/// values, in the requested order.
#[derive(Debug, Clone, PartialEq, Eq)]
pub struct Row {
    id: usize,
    data: Vec<(String, Value)>,
}

impl View for Row {
    type V = RowV;

    closed spec fn view(&self) -> RowV {
        RowV { id: self.id as nat, data: pairs_view(self.data@) }
    }
}

impl Row {
    /// Build a projection with identifier `id` over the given name/value
    /// pairs.
    pub fn new(id: usize, data: Vec<(String, Value)>) -> (r: Row)
        ensures
            r@ == (RowV { id: id as nat, data: pairs_view(data@) }),
    {
        Row { id, data }
    }

    /// The row's identifier: its position in the table's row log.
    pub fn id(&self) -> (r: usize)
        ensures
            r as nat == self@.id,
    {
        self.id
    }

    /// Look a projected field up by name: a copy of the value of the first
    /// field so named, or `ColumnDoesNotExist` if the projection does not
    /// carry the name.
    pub fn get(&self, column: &String) -> (r: Result<Value, QueryExecutionError>)
        ensures
            match r {
                Ok(v) => row_lookup(self@.data, column@) == Some(v@),
                Err(e) => {
                    &&& row_lookup(self@.data, column@) is None
                    &&& e@ == QueryExecutionErrorV::ColumnDoesNotExist(column@)
                },
            },
    {
        let ghost view = pairs_view(self.data@);
        proof {
            assert(view.skip(0) =~= view);
        }
        let mut i: usize = 0;
        while i < self.data.len()
            invariant
                0 <= i <= self.data@.len(),
                view == pairs_view(self.data@),
                row_lookup(view, column@) == row_lookup(view.skip(i as int), column@),
            decreases self.data@.len() - i,
        {
            if self.data[i].0 == *column {
                proof {
                    assert(view.skip(i as int)[0] == view[i as int]);
                }
                return Ok(self.data[i].1.duplicate());
            }
            proof {
                assert(view.skip(i as int)[0] == view[i as int]);
                assert(view.skip(i as int).drop_first() =~= view.skip(i + 1));
            }
            i = i + 1;
        }
        proof {
            assert(view.skip(i as int) =~= Seq::<(Seq<char>, ValueV)>::empty());
        }
        Err(QueryExecutionError::ColumnDoesNotExist(column.clone()))
    }
}

} // verus!
