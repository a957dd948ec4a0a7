//! The statement tree and the top-level query parser.

use vstd::prelude::*;
use vstd::string::StrSliceExecFns;

use crate::create::{spec_create, CreateStatement, CreateV};
use crate::insert::{spec_insert, values_wf, InsertStatement, InsertV};
use crate::parse::{keyword, kw_end, skip_ws, ws_end, ParseError};
use crate::select::{spec_select, SelectStatement, SelectV};

verus! {

/// One parsed SQL statement.
#[derive(Debug, Clone, PartialEq, Eq, Hash)]
pub enum SqlQuery {
    Select(SelectStatement),
    Create(CreateStatement),
    Insert(InsertStatement),
}

/// The mathematical shape of a statement.
pub enum QueryV {
    Select(SelectV),
    Create(CreateV),
    Insert(InsertV),
}

impl View for SqlQuery {
    type V = QueryV;

    open spec fn view(&self) -> QueryV {
        match self {
            SqlQuery::Select(s) => QueryV::Select(s@),
            SqlQuery::Create(c) => QueryV::Create(c@),
            SqlQuery::Insert(i) => QueryV::Insert(i@),
        }
    }
}

/// Every value carried by the statement is well formed.
pub open spec fn query_wf(q: QueryV) -> bool {
    match q {
        QueryV::Insert(i) => values_wf(i.values),
        QueryV::Select(_) => true,
        QueryV::Create(_) => true,
    }
}

/// What parsing a whole query at `i` yields. The leading keyword picks the
/// one statement grammar that is then committed to; the statement must be
/// followed by a `;`, and surrounding whitespace is insignificant.
pub open spec fn spec_query(s: Seq<char>, i: int) -> Option<(QueryV, int)> {
    let j = ws_end(s, i);
    let stmt: Option<(QueryV, int)> = if kw_end(s, j, "select"@) is Some {
        match spec_select(s, j) {
            Some(p) => Some((QueryV::Select(p.0), p.1)),
            None => None,
        }
    } else if kw_end(s, j, "create"@) is Some {
        match spec_create(s, j) {
            Some(p) => Some((QueryV::Create(p.0), p.1)),
            None => None,
        }
    } else if kw_end(s, j, "insert"@) is Some {
        match spec_insert(s, j) {
            Some(p) => Some((QueryV::Insert(p.0), p.1)),
            None => None,
        }
    } else {
        None
    };
    match stmt {
        None => None,
        Some(p) => {
            let f = ws_end(s, p.1);
            if f < s.len() && s[f] == ';' {
                Some((p.0, ws_end(s, f + 1)))
            } else {
                None
            }
        },
    }
}

impl SqlQuery {
    /// Parse one SQL statement, terminated by a mandatory `;`. The leading
    /// keyword commits to one statement grammar: once it has matched, a
    /// failure further in is a failure of the whole parse, never a fallback
    /// to another statement kind.
    pub fn parse(input: &str, pos: usize) -> (r: Result<(SqlQuery, usize), ParseError>)
        requires
            pos <= input@.len(),
            input@.len() < usize::MAX,
        ensures
            match r {
                Ok(p) => {
                    &&& spec_query(input@, pos as int) == Some((p.0@, p.1 as int))
                    &&& pos <= p.1 <= input@.len()
                    &&& query_wf(p.0@)
                },
                Err(_) => spec_query(input@, pos as int) is None,
            },
    {
        let j = skip_ws(input, pos);
        let stmt = if keyword(input, j, "select").is_some() {
            match SelectStatement::parse(input, j) {
                Ok((s, e)) => Ok((SqlQuery::Select(s), e)),
                Err(err) => Err(err),
            }
        } else if keyword(input, j, "create").is_some() {
            match CreateStatement::parse(input, j) {
                Ok((c, e)) => Ok((SqlQuery::Create(c), e)),
                Err(err) => Err(err),
            }
        } else if keyword(input, j, "insert").is_some() {
            match InsertStatement::parse(input, j) {
                Ok((i, e)) => Ok((SqlQuery::Insert(i), e)),
                Err(err) => Err(err),
            }
        } else {
            Err(ParseError::at(input, j, "Statement"))
        };
        match stmt {
            Ok((query, e)) => {
                let f = skip_ws(input, e);
                let len: usize = input.unicode_len();
                if f < len && input.get_char(f) == ';' {
                    let g = skip_ws(input, f + 1);
                    proof {
                        crate::parse::lemma_ws_end(input@, f + 1);
                    }
                    Ok((query, g))
                } else {
                    Err(ParseError::at(input, f, "Query"))
                }
            },
            Err(err) => Err(err.wrap("Query")),
        }
    }

    /// Parse one SQL statement at the start of `input`, returning the
    /// remaining text and the statement.
    pub fn parse_from_raw(input: &str) -> (r: Result<(String, SqlQuery), ParseError>)
        requires
            input@.len() < usize::MAX,
        ensures
            match r {
                Ok(p) => {
                    &&& spec_query(input@, 0) matches Some(q)
                        && p.1@ == q.0 && p.0@ == input@.subrange(q.1, input@.len() as int)
                    &&& query_wf(p.1@)
                },
                Err(_) => spec_query(input@, 0) is None,
            },
    {
        match SqlQuery::parse(input, 0) {
            Ok((query, e)) => {
                let rest = input.substring_char(e, input.unicode_len()).to_owned();
                Ok((rest, query))
            },
            Err(err) => Err(err),
        }
    }
}

} // verus!
