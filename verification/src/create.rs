//! The `CREATE TABLE` statement: column types, column definitions, and the
//! statement parser.

use vstd::prelude::*;
use vstd::string::StrSliceExecFns;

use crate::parse::{
    comma_sep, identifier, keyword, kw_end, skip_ws, spec_identifier, spec_sep, ws_end, ParseError,
};

verus! {

/// A column's declared type.
#[derive(Debug, Clone, Copy, PartialEq, Eq, Hash, Structural)]
pub enum SqlTypeInfo {
    String,
    Int,
}

/// What parsing a column type at `i` yields: `string` or `int`,
/// case-insensitively.
pub open spec fn spec_type_info(s: Seq<char>, i: int) -> Option<(SqlTypeInfo, int)> {
    match kw_end(s, i, "string"@) {
        Some(e) => Some((SqlTypeInfo::String, e)),
        None => match kw_end(s, i, "int"@) {
            Some(e) => Some((SqlTypeInfo::Int, e)),
            None => None,
        },
    }
}

impl SqlTypeInfo {
    /// Parse a column type.
    pub fn parse(input: &str, pos: usize) -> (r: Result<(SqlTypeInfo, usize), ParseError>)
        requires
            pos <= input@.len(),
            input@.len() < usize::MAX,
        ensures
            match r {
                Ok(p) => {
                    &&& spec_type_info(input@, pos as int) == Some((p.0, p.1 as int))
                    &&& pos < p.1 <= input@.len()
                },
                Err(_) => spec_type_info(input@, pos as int) is None,
            },
    {
        proof {
            reveal_strlit("string");
            reveal_strlit("int");
        }
        if let Some(e) = keyword(input, pos, "string") {
            Ok((SqlTypeInfo::String, e))
        } else if let Some(e) = keyword(input, pos, "int") {
            Ok((SqlTypeInfo::Int, e))
        } else {
            Err(ParseError::at(input, pos, "Column Type"))
        }
    }
}

/// The mathematical shape of a column definition.
pub struct ColumnV {
    pub name: Seq<char>,
    pub type_info: SqlTypeInfo,
}

/// A column definition: a name and a declared type.
#[derive(Debug, Clone, PartialEq, Eq, Hash)]
pub struct Column {
    pub name: String,
    pub type_info: SqlTypeInfo,
}

impl View for Column {
    type V = ColumnV;

    open spec fn view(&self) -> ColumnV {
        ColumnV { name: self.name@, type_info: self.type_info }
    }
}

impl Column {
    /// An equal copy.
    pub fn duplicate(&self) -> (r: Column)
        ensures
            r == *self,
    {
        Column { name: self.name.clone(), type_info: self.type_info }
    }
}

/// The views of a sequence of column definitions.
pub open spec fn columns_view(v: Seq<Column>) -> Seq<ColumnV> {
    v.map_values(|c: Column| c@)
}

/// What parsing one column definition at `i` yields: an identifier, at
/// least one whitespace character, and a type.
pub open spec fn spec_column(s: Seq<char>, i: int) -> Option<(ColumnV, int)> {
    match spec_identifier(s, i) {
        Some(p) => {
            let k = ws_end(s, p.1);
            if k == p.1 {
                None
            } else {
                match spec_type_info(s, k) {
                    Some(q) => Some((ColumnV { name: p.0, type_info: q.0 }, q.1)),
                    None => None,
                }
            }
        },
        None => None,
    }
}

impl Column {
    /// Parse one column definition: `<name> <type>`.
    pub fn parse(input: &str, pos: usize) -> (r: Result<(Column, usize), ParseError>)
        requires
            pos <= input@.len(),
            input@.len() < usize::MAX,
        ensures
            match r {
                Ok(p) => {
                    &&& spec_column(input@, pos as int) == Some((p.0@, p.1 as int))
                    &&& pos < p.1 <= input@.len()
                },
                Err(_) => spec_column(input@, pos as int) is None,
            },
    {
        let (name, j) = match identifier(input, pos) {
            Some(p) => p,
            None => {
                return Err(ParseError::at(input, pos, "Column Name").wrap("Create Column"));
            },
        };
        let k = skip_ws(input, j);
        if k == j {
            return Err(ParseError::at(input, j, "Create Column"));
        }
        match SqlTypeInfo::parse(input, k) {
            Ok((type_info, e)) => Ok((Column { name, type_info }, e)),
            Err(err) => Err(err.wrap("Create Column")),
        }
    }
}

/// What parsing a comma-separated list of column definitions at `i` yields.
/// After a separator that is not followed by another definition, the list
/// ends just past the last definition, with the separator left unread.
pub open spec fn spec_column_list(s: Seq<char>, i: int) -> Option<(Seq<ColumnV>, int)>
    decreases s.len() - i,
{
    match spec_column(s, i) {
        None => None,
        Some(p) => match spec_sep(s, p.1) {
            None => Some((seq![p.0], p.1)),
            Some(k) => {
                if i < k <= s.len() {
                    match spec_column_list(s, k) {
                        None => Some((seq![p.0], p.1)),
                        Some(q) => Some((seq![p.0] + q.0, q.1)),
                    }
                } else {
                    Some((seq![p.0], p.1))
                }
            },
        },
    }
}

/// Parse a comma-separated list of column definitions.
fn column_list(input: &str, pos: usize) -> (r: Result<(Vec<Column>, usize), ParseError>)
    requires
        pos <= input@.len(),
        input@.len() < usize::MAX,
    ensures
        match r {
            Ok(p) => {
                &&& spec_column_list(input@, pos as int) matches Some(q)
                    && columns_view(p.0@) == q.0 && p.1 == q.1
                &&& pos < p.1 <= input@.len()
            },
            Err(_) => spec_column_list(input@, pos as int) is None,
        },
    decreases input@.len() - pos,
{
    let (first, j) = match Column::parse(input, pos) {
        Ok(p) => p,
        Err(err) => {
            return Err(err);
        },
    };
    let ghost c = first@;
    match comma_sep(input, j) {
        None => {
            let mut cols: Vec<Column> = Vec::new();
            cols.push(first);
            proof {
                assert(columns_view(cols@) =~= seq![c]);
            }
            Ok((cols, j))
        },
        Some(k) => {
            match column_list(input, k) {
                Ok((mut cols, e)) => {
                    let ghost rest = cols@;
                    cols.insert(0, first);
                    proof {
                        assert(columns_view(cols@) =~= seq![c] + columns_view(rest));
                    }
                    Ok((cols, e))
                },
                Err(_) => {
                    let mut cols: Vec<Column> = Vec::new();
                    cols.push(first);
                    proof {
                        assert(columns_view(cols@) =~= seq![c]);
                    }
                    Ok((cols, j))
                },
            }
        },
    }
}

/// What parsing a parenthesised column definition list at `i` yields.
pub open spec fn spec_column_defs(s: Seq<char>, i: int) -> Option<(Seq<ColumnV>, int)> {
    if i < s.len() && s[i] == '(' {
        match spec_column_list(s, i + 1) {
            Some(p) => {
                if p.1 < s.len() && s[p.1] == ')' {
                    Some((p.0, p.1 + 1))
                } else {
                    None
                }
            },
            None => None,
        }
    } else {
        None
    }
}

/// Parse a parenthesised, comma-separated list of column definitions.
fn column_definitions(input: &str, pos: usize) -> (r: Result<(Vec<Column>, usize), ParseError>)
    requires
        pos <= input@.len(),
        input@.len() < usize::MAX,
    ensures
        match r {
            Ok(p) => {
                &&& spec_column_defs(input@, pos as int) matches Some(q)
                    && columns_view(p.0@) == q.0 && p.1 == q.1
                &&& pos < p.1 <= input@.len()
            },
            Err(_) => spec_column_defs(input@, pos as int) is None,
        },
{
    let len: usize = input.unicode_len();
    if pos >= len || input.get_char(pos) != '(' {
        return Err(ParseError::at(input, pos, "Column Definitions"));
    }
    match column_list(input, pos + 1) {
        Ok((cols, j)) => {
            if j < len && input.get_char(j) == ')' {
                Ok((cols, j + 1))
            } else {
                Err(ParseError::at(input, j, "Column Definitions"))
            }
        },
        Err(err) => Err(err.wrap("Column Definitions")),
    }
}

/// The mathematical shape of a `CREATE TABLE` statement.
pub struct CreateV {
    pub table: Seq<char>,
    pub columns: Seq<ColumnV>,
}

/// A `CREATE TABLE` statement: the table to create and its columns.
#[derive(Debug, Clone, Default, PartialEq, Eq, Hash)]
pub struct CreateStatement {
    pub table: String,
    pub columns: Vec<Column>,
}

impl View for CreateStatement {
    type V = CreateV;

    open spec fn view(&self) -> CreateV {
        CreateV { table: self.table@, columns: columns_view(self.columns@) }
    }
}

/// What parsing a `CREATE TABLE` statement at `i` yields:
/// `CREATE`, `TABLE`, the table name and a parenthesised column list,
/// separated by whitespace.
pub open spec fn spec_create(s: Seq<char>, i: int) -> Option<(CreateV, int)> {
    match kw_end(s, i, "create"@) {
        None => None,
        Some(j) => {
            let k = ws_end(s, j);
            if k == j {
                None
            } else {
                match kw_end(s, k, "table"@) {
                    None => None,
                    Some(l) => {
                        let m = ws_end(s, l);
                        if m == l {
                            None
                        } else {
                            match spec_identifier(s, m) {
                                None => None,
                                Some(p) => {
                                    let q = ws_end(s, p.1);
                                    if q == p.1 {
                                        None
                                    } else {
                                        match spec_column_defs(s, q) {
                                            None => None,
                                            Some(d) => Some((
                                                CreateV { table: p.0, columns: d.0 },
                                                d.1,
                                            )),
                                        }
                                    }
                                },
                            }
                        }
                    },
                }
            }
        },
    }
}

impl CreateStatement {
    /// Parse a `CREATE TABLE` statement.
    pub fn parse(input: &str, pos: usize) -> (r: Result<(CreateStatement, usize), ParseError>)
        requires
            pos <= input@.len(),
            input@.len() < usize::MAX,
        ensures
            match r {
                Ok(p) => {
                    &&& spec_create(input@, pos as int) == Some((p.0@, p.1 as int))
                    &&& pos < p.1 <= input@.len()
                },
                Err(_) => spec_create(input@, pos as int) is None,
            },
    {
        let j = match keyword(input, pos, "create") {
            Some(j) => j,
            None => {
                return Err(ParseError::at(input, pos, "Create Table"));
            },
        };
        let k = skip_ws(input, j);
        if k == j {
            return Err(ParseError::at(input, j, "Create Table"));
        }
        let l = match keyword(input, k, "table") {
            Some(l) => l,
            None => {
                return Err(ParseError::at(input, k, "Create Table"));
            },
        };
        let m = skip_ws(input, l);
        if m == l {
            return Err(ParseError::at(input, l, "Create Table"));
        }
        let (table, p) = match identifier(input, m) {
            Some(p) => p,
            None => {
                return Err(ParseError::at(input, m, "Table Name").wrap("Create Table"));
            },
        };
        let q = skip_ws(input, p);
        if q == p {
            return Err(ParseError::at(input, p, "Create Table"));
        }
        match column_definitions(input, q) {
            Ok((columns, e)) => {
                proof {
                    reveal_strlit("create");
                }
                Ok((CreateStatement { table, columns }, e))
            },
            Err(err) => Err(err.wrap("Create Table")),
        }
    }

    /// Parse a `CREATE TABLE` statement at the start of `input`, returning
    /// the remaining text and the statement.
    pub fn parse_from_raw(input: &str) -> (r: Result<(String, CreateStatement), ParseError>)
        requires
            input@.len() < usize::MAX,
        ensures
            match r {
                Ok(p) => spec_create(input@, 0) matches Some(q)
                    && p.1@ == q.0 && p.0@ == input@.subrange(q.1, input@.len() as int),
                Err(_) => spec_create(input@, 0) is None,
            },
    {
        match CreateStatement::parse(input, 0) {
            Ok((stmt, e)) => {
                let rest = input.substring_char(e, input.unicode_len()).to_owned();
                Ok((rest, stmt))
            },
            Err(err) => Err(err),
        }
    }
}

} // verus!
