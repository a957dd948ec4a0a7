//! Rendering statements back to SQL text, in the canonical spelling the
//! grammar accepts: lower-case keywords and single spaces.

use vstd::prelude::*;
use vstd::string::{StrSliceExecFns, StringExecFns};

use crate::ast::{QueryV, SqlQuery};
use crate::create::{columns_view, Column, ColumnV, CreateStatement, SqlTypeInfo};
use crate::insert::{values_view, InsertStatement};
use crate::select::{fields_view, SelectStatement};
use crate::value::{Value, ValueV};

verus! {

/// The text of one value: the digit run of a number, a string between
/// single quotes.
pub open spec fn print_value(v: ValueV) -> Seq<char> {
    match v {
        ValueV::Number(d) => d,
        ValueV::String(s) => "'"@ + s + "'"@,
    }
}

/// The text of a column type.
pub open spec fn print_type(t: SqlTypeInfo) -> Seq<char> {
    match t {
        SqlTypeInfo::String => "string"@,
        SqlTypeInfo::Int => "int"@,
    }
}

/// The text of one column definition: name, one space, type.
pub open spec fn print_column(c: ColumnV) -> Seq<char> {
    c.name + " "@ + print_type(c.type_info)
}

/// The text of a column definition list, comma-separated.
pub open spec fn print_columns(cs: Seq<ColumnV>) -> Seq<char>
    decreases cs.len(),
{
    if cs.len() == 0 {
        Seq::empty()
    } else if cs.len() == 1 {
        print_column(cs[0])
    } else {
        print_column(cs[0]) + ", "@ + print_columns(cs.drop_first())
    }
}

/// The text of a value list, comma-separated.
pub open spec fn print_values(vs: Seq<ValueV>) -> Seq<char>
    decreases vs.len(),
{
    if vs.len() == 0 {
        Seq::empty()
    } else if vs.len() == 1 {
        print_value(vs[0])
    } else {
        print_value(vs[0]) + ", "@ + print_values(vs.drop_first())
    }
}

/// The text of a field name list, comma-separated.
pub open spec fn print_fields(fs: Seq<Seq<char>>) -> Seq<char>
    decreases fs.len(),
{
    if fs.len() == 0 {
        Seq::empty()
    } else if fs.len() == 1 {
        fs[0]
    } else {
        fs[0] + ", "@ + print_fields(fs.drop_first())
    }
}

/// The canonical text of one statement, terminator included.
pub open spec fn print_query(q: QueryV) -> Seq<char> {
    match q {
        QueryV::Select(s) => "select "@ + print_fields(s.fields) + " from "@ + s.table + ";"@,
        QueryV::Create(c) => "create table "@ + c.table + " ("@ + print_columns(c.columns)
            + ");"@,
        QueryV::Insert(i) => "insert into "@ + i.table + " values "@ + print_values(i.values)
            + ";"@,
    }
}

impl Value {
    /// Render the value as SQL text.
    pub fn to_sql(&self) -> (r: String)
        ensures
            r@ == print_value(self@),
    {
        match self {
            Value::Number(n) => n.as_text().to_owned(),
            Value::String(s) => {
                let mut out = "'".to_owned();
                out.append(s.as_str());
                out.append("'");
                out
            },
        }
    }
}

impl SqlTypeInfo {
    /// Render the type's keyword.
    pub fn to_sql(&self) -> (r: String)
        ensures
            r@ == print_type(*self),
    {
        match self {
            SqlTypeInfo::String => "string".to_owned(),
            SqlTypeInfo::Int => "int".to_owned(),
        }
    }
}

impl Column {
    /// Render the column definition.
    pub fn to_sql(&self) -> (r: String)
        ensures
            r@ == print_column(self@),
    {
        let mut out = self.name.clone();
        out.append(" ");
        let t = self.type_info.to_sql();
        out.append(t.as_str());
        out
    }
}

/// Render the column definitions from `start` on, comma-separated.
fn columns_sql(cols: &Vec<Column>, start: usize) -> (r: String)
    requires
        start < cols@.len(),
    ensures
        r@ == print_columns(columns_view(cols@).skip(start as int)),
    decreases cols@.len() - start,
{
    let ghost cv = columns_view(cols@);
    let mut out = cols[start].to_sql();
    if start < cols.len() - 1 {
        out.append(", ");
        let rest = columns_sql(cols, start + 1);
        out.append(rest.as_str());
        proof {
            assert(cv.skip(start as int)[0] == cv[start as int]);
            assert(cv.skip(start as int).drop_first() =~= cv.skip(start as int + 1));
        }
    } else {
        proof {
            assert(cv.skip(start as int)[0] == cv[start as int]);
        }
    }
    out
}

/// Render the values from `start` on, comma-separated.
fn values_sql(values: &Vec<Value>, start: usize) -> (r: String)
    requires
        start < values@.len(),
    ensures
        r@ == print_values(values_view(values@).skip(start as int)),
    decreases values@.len() - start,
{
    let ghost vv = values_view(values@);
    let mut out = values[start].to_sql();
    if start < values.len() - 1 {
        out.append(", ");
        let rest = values_sql(values, start + 1);
        out.append(rest.as_str());
        proof {
            assert(vv.skip(start as int)[0] == vv[start as int]);
            assert(vv.skip(start as int).drop_first() =~= vv.skip(start as int + 1));
        }
    } else {
        proof {
            assert(vv.skip(start as int)[0] == vv[start as int]);
        }
    }
    out
}

/// Render the field names from `start` on, comma-separated.
fn fields_sql(fields: &Vec<String>, start: usize) -> (r: String)
    requires
        start < fields@.len(),
    ensures
        r@ == print_fields(fields_view(fields@).skip(start as int)),
    decreases fields@.len() - start,
{
    let ghost fv = fields_view(fields@);
    let mut out = fields[start].clone();
    if start < fields.len() - 1 {
        out.append(", ");
        let rest = fields_sql(fields, start + 1);
        out.append(rest.as_str());
        proof {
            assert(fv.skip(start as int)[0] == fv[start as int]);
            assert(fv.skip(start as int).drop_first() =~= fv.skip(start as int + 1));
        }
    } else {
        proof {
            assert(fv.skip(start as int)[0] == fv[start as int]);
        }
    }
    out
}

impl SelectStatement {
    /// Render the statement, terminator included.
    pub fn to_sql(&self) -> (r: String)
        requires
            self@.fields.len() >= 1,
        ensures
            r@ == print_query(QueryV::Select(self@)),
    {
        let mut out = "select ".to_owned();
        let fields = fields_sql(&self.fields, 0);
        out.append(fields.as_str());
        out.append(" from ");
        out.append(self.table.as_str());
        out.append(";");
        proof {
            assert(fields_view(self.fields@).skip(0) =~= fields_view(self.fields@));
        }
        out
    }
}

impl CreateStatement {
    /// Render the statement, terminator included.
    pub fn to_sql(&self) -> (r: String)
        requires
            self@.columns.len() >= 1,
        ensures
            r@ == print_query(QueryV::Create(self@)),
    {
        let mut out = "create table ".to_owned();
        out.append(self.table.as_str());
        out.append(" (");
        let cols = columns_sql(&self.columns, 0);
        out.append(cols.as_str());
        out.append(");");
        proof {
            assert(columns_view(self.columns@).skip(0) =~= columns_view(self.columns@));
        }
        out
    }
}

impl InsertStatement {
    /// Render the statement, terminator included.
    pub fn to_sql(&self) -> (r: String)
        requires
            self@.values.len() >= 1,
        ensures
            r@ == print_query(QueryV::Insert(self@)),
    {
        let mut out = "insert into ".to_owned();
        out.append(self.table.as_str());
        out.append(" values ");
        let values = values_sql(&self.values, 0);
        out.append(values.as_str());
        out.append(";");
        proof {
            assert(values_view(self.values@).skip(0) =~= values_view(self.values@));
        }
        out
    }
}

impl SqlQuery {
    /// Render the statement as canonical SQL text: lower-case keywords,
    /// single spaces, a trailing `;`.
    pub fn to_sql(&self) -> (r: String)
        requires
            match self@ {
                QueryV::Select(s) => s.fields.len() >= 1,
                QueryV::Create(c) => c.columns.len() >= 1,
                QueryV::Insert(i) => i.values.len() >= 1,
            },
        ensures
            r@ == print_query(self@),
    {
        match self {
            SqlQuery::Select(s) => s.to_sql(),
            SqlQuery::Create(c) => c.to_sql(),
            SqlQuery::Insert(i) => i.to_sql(),
        }
    }
}

} // verus!
