//! The `SELECT ... FROM ...` statement and its parser.

use vstd::prelude::*;
use vstd::string::StrSliceExecFns;

use crate::parse::{
    comma_sep, identifier, keyword, kw_end, skip_ws, spec_identifier, spec_sep, ws_end, ParseError,
};

verus! {

/// The views of a sequence of field names.
pub open spec fn fields_view(v: Seq<String>) -> Seq<Seq<char>> {
    v.map_values(|s: String| s@)
}

/// What parsing a comma-separated list of identifiers at `i` yields. After
/// a separator that is not followed by another identifier, the list ends
/// just past the last identifier, with the separator left unread.
pub open spec fn spec_ident_list(s: Seq<char>, i: int) -> Option<(Seq<Seq<char>>, int)>
    decreases s.len() - i,
{
    match spec_identifier(s, i) {
        None => None,
        Some(p) => match spec_sep(s, p.1) {
            None => Some((seq![p.0], p.1)),
            Some(k) => {
                if i < k <= s.len() {
                    match spec_ident_list(s, k) {
                        None => Some((seq![p.0], p.1)),
                        Some(q) => Some((seq![p.0] + q.0, q.1)),
                    }
                } else {
                    Some((seq![p.0], p.1))
                }
            },
        },
    }
}

/// Parse a comma-separated list of identifiers.
fn ident_list(input: &str, pos: usize) -> (r: Result<(Vec<String>, usize), ParseError>)
    requires
        pos <= input@.len(),
        input@.len() < usize::MAX,
    ensures
        match r {
            Ok(p) => {
                &&& spec_ident_list(input@, pos as int) matches Some(q)
                    && fields_view(p.0@) == q.0 && p.1 == q.1
                &&& pos < p.1 <= input@.len()
            },
            Err(_) => spec_ident_list(input@, pos as int) is None,
        },
    decreases input@.len() - pos,
{
    let (first, j) = match identifier(input, pos) {
        Some(p) => p,
        None => {
            return Err(ParseError::at(input, pos, "Select Columns"));
        },
    };
    let ghost f0 = first@;
    match comma_sep(input, j) {
        None => {
            let mut fields: Vec<String> = Vec::new();
            fields.push(first);
            proof {
                assert(fields_view(fields@) =~= seq![f0]);
            }
            Ok((fields, j))
        },
        Some(k) => {
            match ident_list(input, k) {
                Ok((mut fields, e)) => {
                    let ghost rest = fields@;
                    fields.insert(0, first);
                    proof {
                        assert(fields_view(fields@) =~= seq![f0] + fields_view(rest));
                    }
                    Ok((fields, e))
                },
                Err(_) => {
                    let mut fields: Vec<String> = Vec::new();
                    fields.push(first);
                    proof {
                        assert(fields_view(fields@) =~= seq![f0]);
                    }
                    Ok((fields, j))
                },
            }
        },
    }
}

/// The mathematical shape of a `SELECT` statement.
pub struct SelectV {
    pub table: Seq<char>,
    pub fields: Seq<Seq<char>>,
}

/// A `SELECT` statement: the requested field names, in order, and the table
/// to read.
#[derive(Debug, Clone, Default, PartialEq, Eq, Hash)]
pub struct SelectStatement {
    pub table: String,
    pub fields: Vec<String>,
}

impl View for SelectStatement {
    type V = SelectV;

    open spec fn view(&self) -> SelectV {
        SelectV { table: self.table@, fields: fields_view(self.fields@) }
    }
}

/// What parsing a `SELECT` statement at `i` yields: `SELECT`, the field
/// list, `FROM` and the table name, separated by whitespace.
pub open spec fn spec_select(s: Seq<char>, i: int) -> Option<(SelectV, int)> {
    match kw_end(s, i, "select"@) {
        None => None,
        Some(j) => {
            let k = ws_end(s, j);
            if k == j {
                None
            } else {
                match spec_ident_list(s, k) {
                    None => None,
                    Some(p) => {
                        let m = ws_end(s, p.1);
                        if m == p.1 {
                            None
                        } else {
                            match kw_end(s, m, "from"@) {
                                None => None,
                                Some(l) => {
                                    let q = ws_end(s, l);
                                    if q == l {
                                        None
                                    } else {
                                        match spec_identifier(s, q) {
                                            None => None,
                                            Some(t) => Some((
                                                SelectV { table: t.0, fields: p.0 },
                                                t.1,
                                            )),
                                        }
                                    }
                                },
                            }
                        }
                    },
                }
            }
        },
    }
}

impl SelectStatement {
    /// Parse a `SELECT` statement.
    pub fn parse(input: &str, pos: usize) -> (r: Result<(SelectStatement, usize), ParseError>)
        requires
            pos <= input@.len(),
            input@.len() < usize::MAX,
        ensures
            match r {
                Ok(p) => {
                    &&& spec_select(input@, pos as int) == Some((p.0@, p.1 as int))
                    &&& pos < p.1 <= input@.len()
                },
                Err(_) => spec_select(input@, pos as int) is None,
            },
    {
        let j = match keyword(input, pos, "select") {
            Some(j) => j,
            None => {
                return Err(ParseError::at(input, pos, "Select Statement"));
            },
        };
        let k = skip_ws(input, j);
        if k == j {
            return Err(ParseError::at(input, j, "Select Statement"));
        }
        let (fields, p) = match ident_list(input, k) {
            Ok(p) => p,
            Err(err) => {
                return Err(err.wrap("Select Statement"));
            },
        };
        let m = skip_ws(input, p);
        if m == p {
            return Err(ParseError::at(input, p, "Select Statement"));
        }
        let l = match keyword(input, m, "from") {
            Some(l) => l,
            None => {
                return Err(ParseError::at(input, m, "Select Statement"));
            },
        };
        let q = skip_ws(input, l);
        if q == l {
            return Err(ParseError::at(input, l, "Select Statement"));
        }
        match identifier(input, q) {
            Some((table, e)) => Ok((SelectStatement { table, fields }, e)),
            None => Err(ParseError::at(input, q, "From Table").wrap("Select Statement")),
        }
    }

    /// Parse a `SELECT` statement at the start of `input`, returning the
    /// remaining text and the statement.
    pub fn parse_from_raw(input: &str) -> (r: Result<(String, SelectStatement), ParseError>)
        requires
            input@.len() < usize::MAX,
        ensures
            match r {
                Ok(p) => spec_select(input@, 0) matches Some(q)
                    && p.1@ == q.0 && p.0@ == input@.subrange(q.1, input@.len() as int),
                Err(_) => spec_select(input@, 0) is None,
            },
    {
        match SelectStatement::parse(input, 0) {
            Ok((stmt, e)) => {
                let rest = input.substring_char(e, input.unicode_len()).to_owned();
                Ok((rest, stmt))
            },
            Err(err) => Err(err),
        }
    }
}

} // verus!
