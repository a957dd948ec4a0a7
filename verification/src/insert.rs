//! The `INSERT INTO ... VALUES ...` statement and its parser.

use vstd::prelude::*;
use vstd::string::StrSliceExecFns;

use crate::parse::{
    comma_sep, identifier, keyword, kw_end, skip_ws, spec_identifier, spec_sep, ws_end, ParseError,
};
use crate::value::{spec_value, value_wf, Value, ValueV};

verus! {

/// The views of a sequence of values.
pub open spec fn values_view(v: Seq<Value>) -> Seq<ValueV> {
    v.map_values(|x: Value| x@)
}

/// Every value of the sequence is well formed.
pub open spec fn values_wf(vs: Seq<ValueV>) -> bool {
    forall|j: int| 0 <= j < vs.len() ==> value_wf(vs[j])
}

/// What parsing a comma-separated list of values at `i` yields. After a
/// separator that is not followed by another value, the list ends just past
/// the last value, with the separator left unread.
pub open spec fn spec_value_list(s: Seq<char>, i: int) -> Option<(Seq<ValueV>, int)>
    decreases s.len() - i,
{
    match spec_value(s, i) {
        None => None,
        Some(p) => match spec_sep(s, p.1) {
            None => Some((seq![p.0], p.1)),
            Some(k) => {
                if i < k <= s.len() {
                    match spec_value_list(s, k) {
                        None => Some((seq![p.0], p.1)),
                        Some(q) => Some((seq![p.0] + q.0, q.1)),
                    }
                } else {
                    Some((seq![p.0], p.1))
                }
            },
        },
    }
}

/// Parse a comma-separated list of values.
fn value_list(input: &str, pos: usize) -> (r: Result<(Vec<Value>, usize), ParseError>)
    requires
        pos <= input@.len(),
        input@.len() < usize::MAX,
    ensures
        match r {
            Ok(p) => {
                &&& spec_value_list(input@, pos as int) matches Some(q)
                    && values_view(p.0@) == q.0 && p.1 == q.1
                &&& pos < p.1 <= input@.len()
                &&& values_wf(values_view(p.0@))
            },
            Err(_) => spec_value_list(input@, pos as int) is None,
        },
    decreases input@.len() - pos,
{
    let (first, j) = match Value::parse(input, pos) {
        Ok(p) => p,
        Err(err) => {
            return Err(err);
        },
    };
    let ghost v0 = first@;
    match comma_sep(input, j) {
        None => {
            let mut values: Vec<Value> = Vec::new();
            values.push(first);
            proof {
                assert(values_view(values@) =~= seq![v0]);
            }
            Ok((values, j))
        },
        Some(k) => {
            match value_list(input, k) {
                Ok((mut values, e)) => {
                    let ghost rest = values@;
                    values.insert(0, first);
                    proof {
                        assert(values_view(values@) =~= seq![v0] + values_view(rest));
                    }
                    Ok((values, e))
                },
                Err(_) => {
                    let mut values: Vec<Value> = Vec::new();
                    values.push(first);
                    proof {
                        assert(values_view(values@) =~= seq![v0]);
                    }
                    Ok((values, j))
                },
            }
        },
    }
}

/// The mathematical shape of an `INSERT` statement.
pub struct InsertV {
    pub table: Seq<char>,
    pub values: Seq<ValueV>,
}

/// An `INSERT` statement: the table to append to and the values of the new
/// row, in column order.
#[derive(Debug, Clone, Default, PartialEq, Eq, Hash)]
pub struct InsertStatement {
    pub table: String,
    pub values: Vec<Value>,
}

impl View for InsertStatement {
    type V = InsertV;

    open spec fn view(&self) -> InsertV {
        InsertV { table: self.table@, values: values_view(self.values@) }
    }
}

/// What parsing an `INSERT` statement at `i` yields: `INSERT`, `INTO`, the
/// table name, `VALUES` and a value list, separated by whitespace.
pub open spec fn spec_insert(s: Seq<char>, i: int) -> Option<(InsertV, int)> {
    match kw_end(s, i, "insert"@) {
        None => None,
        Some(j) => {
            let k = ws_end(s, j);
            if k == j {
                None
            } else {
                match kw_end(s, k, "into"@) {
                    None => None,
                    Some(l) => {
                        let m = ws_end(s, l);
                        if m == l {
                            None
                        } else {
                            match spec_identifier(s, m) {
                                None => None,
                                Some(p) => {
                                    let q = ws_end(s, p.1);
                                    if q == p.1 {
                                        None
                                    } else {
                                        match kw_end(s, q, "values"@) {
                                            None => None,
                                            Some(w) => {
                                                let x = ws_end(s, w);
                                                if x == w {
                                                    None
                                                } else {
                                                    match spec_value_list(s, x) {
                                                        None => None,
                                                        Some(d) => Some((
                                                            InsertV { table: p.0, values: d.0 },
                                                            d.1,
                                                        )),
                                                    }
                                                }
                                            },
                                        }
                                    }
                                },
                            }
                        }
                    },
                }
            }
        },
    }
}

impl InsertStatement {
    /// Parse an `INSERT` statement.
    pub fn parse(input: &str, pos: usize) -> (r: Result<(InsertStatement, usize), ParseError>)
        requires
            pos <= input@.len(),
            input@.len() < usize::MAX,
        ensures
            match r {
                Ok(p) => {
                    &&& spec_insert(input@, pos as int) == Some((p.0@, p.1 as int))
                    &&& pos < p.1 <= input@.len()
                    &&& values_wf(p.0@.values)
                },
                Err(_) => spec_insert(input@, pos as int) is None,
            },
    {
        let j = match keyword(input, pos, "insert") {
            Some(j) => j,
            None => {
                return Err(ParseError::at(input, pos, "Insert Statement"));
            },
        };
        let k = skip_ws(input, j);
        if k == j {
            return Err(ParseError::at(input, j, "Insert Statement"));
        }
        let l = match keyword(input, k, "into") {
            Some(l) => l,
            None => {
                return Err(ParseError::at(input, k, "Insert Statement"));
            },
        };
        let m = skip_ws(input, l);
        if m == l {
            return Err(ParseError::at(input, l, "Insert Statement"));
        }
        let (table, p) = match identifier(input, m) {
            Some(p) => p,
            None => {
                return Err(ParseError::at(input, m, "Table Name").wrap("Insert Statement"));
            },
        };
        let q = skip_ws(input, p);
        if q == p {
            return Err(ParseError::at(input, p, "Insert Statement"));
        }
        let w = match keyword(input, q, "values") {
            Some(w) => w,
            None => {
                return Err(ParseError::at(input, q, "Insert Statement"));
            },
        };
        let x = skip_ws(input, w);
        if x == w {
            return Err(ParseError::at(input, w, "Insert Statement"));
        }
        match value_list(input, x) {
            Ok((values, e)) => Ok((InsertStatement { table, values }, e)),
            Err(err) => Err(err.wrap("Values").wrap("Insert Statement")),
        }
    }

    /// Parse an `INSERT` statement at the start of `input`, returning the
    /// remaining text and the statement.
    pub fn parse_from_raw(input: &str) -> (r: Result<(String, InsertStatement), ParseError>)
        requires
            input@.len() < usize::MAX,
        ensures
            match r {
                Ok(p) => spec_insert(input@, 0) matches Some(q)
                    && p.1@ == q.0 && p.0@ == input@.subrange(q.1, input@.len() as int),
                Err(_) => spec_insert(input@, 0) is None,
            },
    {
        match InsertStatement::parse(input, 0) {
            Ok((stmt, e)) => {
                let rest = input.substring_char(e, input.unicode_len()).to_owned();
                Ok((rest, stmt))
            },
            Err(err) => Err(err),
        }
    }
}

} // verus!
