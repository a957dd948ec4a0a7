//! The grammar round trip: rendering a statement with `to_sql` and parsing
//! the text again yields the same statement, with the whole text consumed.

use vstd::prelude::*;

use crate::ast::{spec_query, QueryV};
use crate::create::{
    spec_column, spec_column_defs, spec_column_list, spec_create, spec_type_info, ColumnV,
    SqlTypeInfo,
};
use crate::insert::{spec_insert, spec_value_list, InsertV};
use crate::parse::{
    ci_eq, ident_end, is_digit, is_ident_char, is_space, kw_end, spec_identifier, spec_sep, ws_end,
};
use crate::print::{
    print_column, print_columns, print_fields, print_query, print_type, print_value, print_values,
};
use crate::select::{spec_ident_list, spec_select, SelectV};
use crate::value::{
    canon_digits, digits_end, numeric_digits_wf, quote_end, spec_number_literal,
    spec_string_literal, spec_value, ValueV,
};

verus! {

/// A name the grammar can read back: a nonempty run of identifier
/// characters.
pub open spec fn ident_ok(s: Seq<char>) -> bool {
    s.len() >= 1 && forall|j: int| 0 <= j < s.len() ==> is_ident_char(s[j])
}

/// A value whose rendering the grammar can read back: a number in canonical
/// form, or a string without a single quote (the grammar has no escapes).
pub open spec fn printable_value(v: ValueV) -> bool {
    match v {
        ValueV::Number(d) => numeric_digits_wf(d),
        ValueV::String(s) => forall|j: int| 0 <= j < s.len() ==> s[j] != '\'',
    }
}

/// A statement whose rendering the grammar can read back: names are
/// identifiers, every list is nonempty, every value printable.
pub open spec fn printable_query(q: QueryV) -> bool {
    match q {
        QueryV::Select(s) => {
            &&& ident_ok(s.table)
            &&& s.fields.len() >= 1
            &&& forall|j: int| 0 <= j < s.fields.len() ==> ident_ok(s.fields[j])
        },
        QueryV::Create(c) => {
            &&& ident_ok(c.table)
            &&& c.columns.len() >= 1
            &&& forall|j: int| 0 <= j < c.columns.len() ==> ident_ok(c.columns[j].name)
        },
        QueryV::Insert(i) => {
            &&& ident_ok(i.table)
            &&& i.values.len() >= 1
            &&& forall|j: int| 0 <= j < i.values.len() ==> printable_value(i.values[j])
        },
    }
}

/// Whitespace skipping stops immediately on a non-space character.
proof fn lemma_ws_none(s: Seq<char>, i: int)
    requires
        0 <= i <= s.len(),
        i == s.len() || !is_space(s[i]),
    ensures
        ws_end(s, i) == i,
{
}

/// Whitespace skipping crosses exactly one space.
proof fn lemma_ws_one(s: Seq<char>, i: int)
    requires
        0 <= i < s.len(),
        s[i] == ' ',
        i + 1 == s.len() || !is_space(s[i + 1]),
    ensures
        ws_end(s, i) == i + 1,
{
    lemma_ws_none(s, i + 1);
}

/// A keyword matches its own spelling.
proof fn lemma_kw_at(s: Seq<char>, i: int, kw: Seq<char>)
    requires
        0 <= i,
        i + kw.len() <= s.len(),
        forall|j: int| 0 <= j < kw.len() ==> s[i + j] == kw[j],
    ensures
        kw_end(s, i, kw) == Some(i + kw.len() as int),
{
    assert forall|j: int| 0 <= j < kw.len() implies ci_eq(s[i + j], kw[j]) by {}
}

/// A keyword fails on a first character that does not match.
proof fn lemma_kw_not(s: Seq<char>, i: int, kw: Seq<char>)
    requires
        0 <= i,
        kw.len() >= 1,
        i >= s.len() || !ci_eq(s[i], kw[0]),
    ensures
        kw_end(s, i, kw) is None,
{
    if i + kw.len() <= s.len() {
        assert(!ci_eq(s[i + 0], kw[0]));
    }
}

/// An identifier run ends exactly where its characters end.
proof fn lemma_ident_end_at(s: Seq<char>, i: int, e: int)
    requires
        0 <= i <= e <= s.len(),
        forall|j: int| i <= j < e ==> is_ident_char(s[j]),
        e == s.len() || !is_ident_char(s[e]),
    ensures
        ident_end(s, i) == e,
    decreases e - i,
{
    if i < e {
        lemma_ident_end_at(s, i + 1, e);
    }
}

/// An identifier parses back from its own spelling.
proof fn lemma_ident_at(s: Seq<char>, i: int, name: Seq<char>)
    requires
        ident_ok(name),
        0 <= i,
        i + name.len() <= s.len(),
        s.subrange(i, i + name.len() as int) == name,
        i + name.len() == s.len() || !is_ident_char(s[i + name.len()]),
    ensures
        spec_identifier(s, i) == Some((name, i + name.len() as int)),
{
    let e = i + name.len() as int;
    assert forall|j: int| i <= j < e implies is_ident_char(s[j]) by {
        assert(s[j] == name[j - i]);
    }
    lemma_ident_end_at(s, i, e);
    assert(s.subrange(i, e) == name);
}

/// A digit run ends exactly where its digits end.
proof fn lemma_digits_end_at(s: Seq<char>, i: int, e: int)
    requires
        0 <= i <= e <= s.len(),
        forall|j: int| i <= j < e ==> is_digit(s[j]),
        e == s.len() || !is_digit(s[e]),
    ensures
        digits_end(s, i) == e,
    decreases e - i,
{
    if i < e {
        lemma_digits_end_at(s, i + 1, e);
    }
}

/// The first quote at or after `i` is the one at `e`.
proof fn lemma_quote_end_at(s: Seq<char>, i: int, e: int)
    requires
        0 <= i <= e < s.len(),
        forall|j: int| i <= j < e ==> s[j] != '\'',
        s[e] == '\'',
    ensures
        quote_end(s, i) == e,
    decreases e - i,
{
    if i < e {
        lemma_quote_end_at(s, i + 1, e);
    }
}

/// A canonical digit run is its own canonical form.
proof fn lemma_canon_wf(d: Seq<char>)
    requires
        numeric_digits_wf(d),
    ensures
        canon_digits(d) == d,
{
}

/// A printable value's text is nonempty and starts with a digit or a quote.
proof fn lemma_value_first_char(v: ValueV)
    requires
        printable_value(v),
    ensures
        print_value(v).len() >= 1,
        is_digit(print_value(v)[0]) || print_value(v)[0] == '\'',
        !is_space(print_value(v)[0]),
        print_value(v)[0] != ',',
        print_value(v)[0] != ';',
        print_value(v)[0] != ')',
{
    reveal_strlit("'");
    match v {
        ValueV::Number(d) => {
            assert(is_digit(d[0]));
        },
        ValueV::String(s) => {
            assert(print_value(v)[0] == '\'');
        },
    }
}

/// A value parses back from its own rendering, with trailing whitespace
/// consumed from the surrounding text.
proof fn lemma_value_at(s: Seq<char>, i: int, v: ValueV)
    requires
        printable_value(v),
        0 <= i,
        i + print_value(v).len() <= s.len(),
        s.subrange(i, i + print_value(v).len() as int) == print_value(v),
        i + print_value(v).len() == s.len() || !is_digit(s[i + print_value(v).len()]),
    ensures
        spec_value(s, i) == Some((v, ws_end(s, i + print_value(v).len() as int))),
{
    reveal_strlit("'");
    let p = print_value(v);
    let e = i + p.len() as int;
    assert forall|k: int| 0 <= k < p.len() implies s[i + k] == p[k] by {
        assert(s.subrange(i, e)[k] == s[i + k]);
    }
    lemma_value_first_char(v);
    lemma_ws_none(s, i);
    match v {
        ValueV::Number(d) => {
            assert forall|j: int| i <= j < e implies is_digit(s[j]) by {
                assert(s[j] == d[j - i]);
            }
            lemma_digits_end_at(s, i, e);
            assert(s.subrange(i, e) =~= d);
            lemma_canon_wf(d);
            assert(spec_number_literal(s, i) == Some((d, e)));
            assert(s[i] != '\'');
        },
        ValueV::String(c) => {
            assert(s[i] == '\'');
            assert(s[e - 1] == p[p.len() - 1]);
            assert(p[p.len() - 1] == '\'');
            assert forall|j: int| i + 1 <= j < e - 1 implies s[j] != '\'' by {
                assert(s[j] == p[j - i]);
                assert(p[j - i] == c[j - i - 1]);
            }
            lemma_quote_end_at(s, i + 1, e - 1);
            assert forall|k: int| 0 <= k < c.len() implies s.subrange(i + 1, e - 1)[k] == c[k] by {
                assert(s.subrange(i + 1, e - 1)[k] == s[i + 1 + k]);
                assert(s.subrange(i, e)[k + 1] == s[i + k + 1]);
                assert(p[k + 1] == c[k]);
            }
            assert(s.subrange(i + 1, e - 1) =~= c);
            assert(spec_string_literal(s, i) == Some((c, e)));
        },
    }
}

/// A text that renders two fragments in a row contains each at its place.
proof fn lemma_split_at(s: Seq<char>, i: int, a: Seq<char>, b: Seq<char>)
    requires
        0 <= i,
        i + a.len() + b.len() <= s.len(),
        s.subrange(i, i + a.len() + b.len()) == a + b,
    ensures
        s.subrange(i, i + a.len() as int) == a,
        s.subrange(i + a.len() as int, i + a.len() + b.len()) == b,
{
    let m = i + a.len() as int;
    let e = i + a.len() + b.len();
    assert forall|k: int| 0 <= k < a.len() implies s.subrange(i, m)[k] == a[k] by {
        assert(s.subrange(i, e)[k] == s[i + k]);
        assert((a + b)[k] == a[k]);
    }
    assert(s.subrange(i, m) =~= a);
    assert forall|k: int| 0 <= k < b.len() implies s.subrange(m, e)[k] == b[k] by {
        assert(s.subrange(i, e)[a.len() + k] == s[i + a.len() + k]);
        assert((a + b)[a.len() + k] == b[k]);
    }
    assert(s.subrange(m, e) =~= b);
}

/// A column definition parses back from its own rendering.
proof fn lemma_column_at(s: Seq<char>, i: int, c: ColumnV)
    requires
        ident_ok(c.name),
        0 <= i,
        i + print_column(c).len() <= s.len(),
        s.subrange(i, i + print_column(c).len() as int) == print_column(c),
    ensures
        spec_column(s, i) == Some((c, i + print_column(c).len() as int)),
{
    reveal_strlit(" ");
    reveal_strlit("string");
    reveal_strlit("int");
    let n = c.name.len() as int;
    let tail = " "@ + print_type(c.type_info);
    assert(print_column(c) =~= c.name + tail);
    lemma_split_at(s, i, c.name, tail);
    lemma_split_at(s, i + n, " "@, print_type(c.type_info));
    let k = i + n + 1;
    let e = i + print_column(c).len() as int;
    assert(s[i + n] == s.subrange(i + n, i + n + 1)[0]);
    assert(s[i + n] == ' ');
    lemma_ident_at(s, i, c.name);
    assert forall|j: int| 0 <= j < print_type(c.type_info).len() implies s[k + j] == print_type(
        c.type_info,
    )[j] by {
        assert(s.subrange(k, e)[j] == s[k + j]);
    }
    assert(s[k + 0] == print_type(c.type_info)[0]);
    assert(!is_space(s[k]));
    lemma_ws_one(s, i + n);
    match c.type_info {
        SqlTypeInfo::String => {
            lemma_kw_at(s, k, "string"@);
            assert(spec_type_info(s, k) == Some((SqlTypeInfo::String, e)));
        },
        SqlTypeInfo::Int => {
            assert(s[k + 0] == print_type(c.type_info)[0]);
            assert(s[k] == 'i');
            assert(!ci_eq('i', 's'));
            lemma_kw_not(s, k, "string"@);
            lemma_kw_at(s, k, "int"@);
            assert(spec_type_info(s, k) == Some((SqlTypeInfo::Int, e)));
        },
    }
}

/// A rendered column list is nonempty and starts with the first column's
/// first name character.
proof fn lemma_columns_first_char(cs: Seq<ColumnV>)
    requires
        cs.len() >= 1,
        ident_ok(cs[0].name),
    ensures
        print_columns(cs).len() >= 1,
        print_columns(cs)[0] == cs[0].name[0],
        is_ident_char(print_columns(cs)[0]),
{
    assert(print_column(cs[0])[0] == cs[0].name[0]);
}

/// A column definition list parses back from its own rendering, up to a
/// terminator that is neither whitespace nor a comma.
proof fn lemma_columns_at(s: Seq<char>, i: int, cs: Seq<ColumnV>)
    requires
        cs.len() >= 1,
        forall|j: int| 0 <= j < cs.len() ==> ident_ok(cs[j].name),
        0 <= i,
        i + print_columns(cs).len() < s.len(),
        s.subrange(i, i + print_columns(cs).len() as int) == print_columns(cs),
        !is_space(s[i + print_columns(cs).len()]),
        s[i + print_columns(cs).len()] != ',',
    ensures
        spec_column_list(s, i) == Some((cs, i + print_columns(cs).len() as int)),
    decreases cs.len(),
{
    reveal_strlit(", ");
    let e = i + print_columns(cs).len() as int;
    if cs.len() == 1 {
        lemma_column_at(s, i, cs[0]);
        lemma_ws_none(s, e);
        assert(spec_sep(s, e) is None);
        assert(seq![cs[0]] =~= cs);
    } else {
        let pc0 = print_column(cs[0]);
        let rest = print_columns(cs.drop_first());
        let tail = ", "@ + rest;
        assert(print_columns(cs) =~= pc0 + tail);
        lemma_split_at(s, i, pc0, tail);
        let e0 = i + pc0.len() as int;
        lemma_split_at(s, e0, ", "@, rest);
        assert(s[e0] == s.subrange(e0, e0 + 2)[0]);
        assert(s[e0 + 1] == s.subrange(e0, e0 + 2)[1]);
        assert(s[e0] == ',' && s[e0 + 1] == ' ');
        lemma_column_at(s, i, cs[0]);
        lemma_ws_none(s, e0);
        assert(cs.drop_first()[0] == cs[1]);
        lemma_columns_first_char(cs.drop_first());
        assert(s[e0 + 2] == s.subrange(e0 + 2, e)[0]);
        assert(is_ident_char(s[e0 + 2]));
        lemma_ws_one(s, e0 + 1);
        assert(spec_sep(s, e0) == Some(e0 + 2));
        lemma_columns_at(s, e0 + 2, cs.drop_first());
        assert(seq![cs[0]] + cs.drop_first() =~= cs);
    }
}

/// A rendered value list is nonempty and starts with its first value's
/// first character.
proof fn lemma_values_first_char(vs: Seq<ValueV>)
    requires
        vs.len() >= 1,
        printable_value(vs[0]),
    ensures
        print_values(vs).len() >= 1,
        print_values(vs)[0] == print_value(vs[0])[0],
        !is_space(print_values(vs)[0]),
        print_values(vs)[0] != ',',
{
    lemma_value_first_char(vs[0]);
}

/// A value list parses back from its own rendering, up to a terminator that
/// is neither whitespace, a comma, nor a digit.
proof fn lemma_values_at(s: Seq<char>, i: int, vs: Seq<ValueV>)
    requires
        vs.len() >= 1,
        forall|j: int| 0 <= j < vs.len() ==> printable_value(vs[j]),
        0 <= i,
        i + print_values(vs).len() < s.len(),
        s.subrange(i, i + print_values(vs).len() as int) == print_values(vs),
        !is_space(s[i + print_values(vs).len()]),
        s[i + print_values(vs).len()] != ',',
        !is_digit(s[i + print_values(vs).len()]),
    ensures
        spec_value_list(s, i) == Some((vs, i + print_values(vs).len() as int)),
    decreases vs.len(),
{
    reveal_strlit(", ");
    let e = i + print_values(vs).len() as int;
    if vs.len() == 1 {
        lemma_value_at(s, i, vs[0]);
        lemma_ws_none(s, e);
        assert(spec_value(s, i) == Some((vs[0], e)));
        assert(spec_sep(s, e) is None);
        assert(seq![vs[0]] =~= vs);
    } else {
        let pv0 = print_value(vs[0]);
        let rest = print_values(vs.drop_first());
        let tail = ", "@ + rest;
        assert(print_values(vs) =~= pv0 + tail);
        lemma_split_at(s, i, pv0, tail);
        let e0 = i + pv0.len() as int;
        lemma_split_at(s, e0, ", "@, rest);
        assert(s[e0] == s.subrange(e0, e0 + 2)[0]);
        assert(s[e0 + 1] == s.subrange(e0, e0 + 2)[1]);
        assert(s[e0] == ',' && s[e0 + 1] == ' ');
        lemma_value_at(s, i, vs[0]);
        lemma_ws_none(s, e0);
        assert(spec_value(s, i) == Some((vs[0], e0)));
        assert(vs.drop_first()[0] == vs[1]);
        lemma_values_first_char(vs.drop_first());
        assert(s[e0 + 2] == s.subrange(e0 + 2, e)[0]);
        assert(!is_space(s[e0 + 2]));
        lemma_ws_one(s, e0 + 1);
        assert(spec_sep(s, e0) == Some(e0 + 2));
        lemma_values_at(s, e0 + 2, vs.drop_first());
        assert(seq![vs[0]] + vs.drop_first() =~= vs);
    }
}

/// A rendered field list is nonempty and starts with the first field's
/// first character.
proof fn lemma_fields_first_char(fs: Seq<Seq<char>>)
    requires
        fs.len() >= 1,
        ident_ok(fs[0]),
    ensures
        print_fields(fs).len() >= 1,
        print_fields(fs)[0] == fs[0][0],
        is_ident_char(print_fields(fs)[0]),
{
}

/// A field name list parses back from its own rendering, up to a single
/// space followed by something that is neither whitespace nor a comma.
proof fn lemma_fields_at(s: Seq<char>, i: int, fs: Seq<Seq<char>>)
    requires
        fs.len() >= 1,
        forall|j: int| 0 <= j < fs.len() ==> ident_ok(fs[j]),
        0 <= i,
        i + print_fields(fs).len() + 1 < s.len(),
        s.subrange(i, i + print_fields(fs).len() as int) == print_fields(fs),
        s[i + print_fields(fs).len()] == ' ',
        !is_space(s[i + print_fields(fs).len() + 1]),
        s[i + print_fields(fs).len() + 1] != ',',
    ensures
        spec_ident_list(s, i) == Some((fs, i + print_fields(fs).len() as int)),
    decreases fs.len(),
{
    reveal_strlit(", ");
    let e = i + print_fields(fs).len() as int;
    if fs.len() == 1 {
        lemma_ident_at(s, i, fs[0]);
        lemma_ws_one(s, e);
        assert(spec_sep(s, e) is None);
        assert(seq![fs[0]] =~= fs);
    } else {
        let f0 = fs[0];
        let rest = print_fields(fs.drop_first());
        let tail = ", "@ + rest;
        assert(print_fields(fs) =~= f0 + tail);
        lemma_split_at(s, i, f0, tail);
        let e0 = i + f0.len() as int;
        lemma_split_at(s, e0, ", "@, rest);
        assert(s[e0] == s.subrange(e0, e0 + 2)[0]);
        assert(s[e0 + 1] == s.subrange(e0, e0 + 2)[1]);
        assert(s[e0] == ',' && s[e0 + 1] == ' ');
        lemma_ident_at(s, i, f0);
        lemma_ws_none(s, e0);
        assert(fs.drop_first()[0] == fs[1]);
        lemma_fields_first_char(fs.drop_first());
        assert(s[e0 + 2] == s.subrange(e0 + 2, e)[0]);
        assert(is_ident_char(s[e0 + 2]));
        lemma_ws_one(s, e0 + 1);
        assert(spec_sep(s, e0) == Some(e0 + 2));
        lemma_fields_at(s, e0 + 2, fs.drop_first());
        assert(seq![fs[0]] + fs.drop_first() =~= fs);
    }
}

/// Every character of a rendered fragment stands at its offset in the text.
proof fn lemma_chars_from_lit(s: Seq<char>, i: int, lit: Seq<char>)
    requires
        0 <= i,
        i + lit.len() <= s.len(),
        s.subrange(i, i + lit.len() as int) == lit,
    ensures
        forall|j: int| 0 <= j < lit.len() ==> s[i + j] == lit[j],
{
    assert forall|j: int| 0 <= j < lit.len() implies s[i + j] == lit[j] by {
        assert(s.subrange(i, i + lit.len() as int)[j] == s[i + j]);
    }
}

/// A rendered `SELECT` statement parses back to itself, ending just before
/// the terminator.
#[verifier::rlimit(60)]
proof fn lemma_select_roundtrip(sel: SelectV)
    requires
        ident_ok(sel.table),
        sel.fields.len() >= 1,
        forall|j: int| 0 <= j < sel.fields.len() ==> ident_ok(sel.fields[j]),
    ensures
        ({
            let s = print_query(QueryV::Select(sel));
            &&& spec_select(s, 0) == Some((sel, s.len() - 1))
            &&& s[0] == 's'
            &&& s[s.len() - 1] == ';'
        }),
{
    reveal_strlit("select ");
    reveal_strlit(" from ");
    reveal_strlit(";");
    reveal_strlit("select");
    reveal_strlit("from");
    reveal_strlit(" ");
    let s = print_query(QueryV::Select(sel));
    let ff = print_fields(sel.fields);
    let fl = ff.len() as int;
    let tl = sel.table.len() as int;
    lemma_fields_first_char(sel.fields);
    assert(s =~= "select"@ + (" "@ + (ff + (" "@ + ("from"@ + (" "@ + (sel.table + ";"@)))))));
    assert(s.subrange(0, s.len() as int) =~= s);
    lemma_split_at(s, 0, "select"@, " "@ + (ff + (" "@ + ("from"@ + (" "@ + (sel.table
        + ";"@))))));
    lemma_split_at(s, 6, " "@, ff + (" "@ + ("from"@ + (" "@ + (sel.table + ";"@)))));
    lemma_split_at(s, 7, ff, " "@ + ("from"@ + (" "@ + (sel.table + ";"@))));
    lemma_split_at(s, 7 + fl, " "@, "from"@ + (" "@ + (sel.table + ";"@)));
    lemma_split_at(s, 8 + fl, "from"@, " "@ + (sel.table + ";"@));
    lemma_split_at(s, 12 + fl, " "@, sel.table + ";"@);
    lemma_split_at(s, 13 + fl, sel.table, ";"@);
    lemma_chars_from_lit(s, 0, "select"@);
    lemma_chars_from_lit(s, 6, " "@);
    lemma_chars_from_lit(s, 7, ff);
    lemma_chars_from_lit(s, 7 + fl, " "@);
    lemma_chars_from_lit(s, 8 + fl, "from"@);
    lemma_chars_from_lit(s, 12 + fl, " "@);
    lemma_chars_from_lit(s, 13 + fl, sel.table);
    lemma_chars_from_lit(s, 13 + fl + tl, ";"@);
    lemma_kw_at(s, 0, "select"@);
    assert(s[6 + 0int] == ' ');
    assert(s[7 + 0int] == ff[0]);
    lemma_ws_one(s, 6);
    assert(s[7 + fl + 0] == ' ');
    assert(s[8 + fl + 0] == 'f');
    lemma_fields_at(s, 7, sel.fields);
    lemma_ws_one(s, 7 + fl);
    lemma_kw_at(s, 8 + fl, "from"@);
    assert(s[12 + fl + 0] == ' ');
    assert(s[13 + fl + 0] == sel.table[0]);
    lemma_ws_one(s, 12 + fl);
    assert(s[13 + fl + tl + 0] == ';');
    lemma_ident_at(s, 13 + fl, sel.table);
    assert(spec_select(s, 0) == Some((sel, 13 + fl + tl)));
    assert(s[0 + 0int] == 's');
}

/// A rendered `CREATE TABLE` statement parses back to itself, ending just
/// before the terminator.
#[verifier::rlimit(60)]
proof fn lemma_create_roundtrip(c: crate::create::CreateV)
    requires
        ident_ok(c.table),
        c.columns.len() >= 1,
        forall|j: int| 0 <= j < c.columns.len() ==> ident_ok(c.columns[j].name),
    ensures
        ({
            let s = print_query(QueryV::Create(c));
            &&& spec_create(s, 0) == Some((c, s.len() - 1))
            &&& s[0] == 'c'
            &&& s[s.len() - 1] == ';'
        }),
{
    reveal_strlit("create table ");
    reveal_strlit(" (");
    reveal_strlit(");");
    reveal_strlit("create");
    reveal_strlit("table");
    reveal_strlit(" ");
    reveal_strlit("(");
    reveal_strlit(")");
    reveal_strlit(";");
    let s = print_query(QueryV::Create(c));
    let cc = print_columns(c.columns);
    let cl = cc.len() as int;
    let tl = c.table.len() as int;
    lemma_columns_first_char(c.columns);
    assert(s =~= "create"@ + (" "@ + ("table"@ + (" "@ + (c.table + (" "@ + ("("@ + (cc + (")"@
        + ";"@)))))))));
    assert(s.subrange(0, s.len() as int) =~= s);
    lemma_split_at(s, 0, "create"@, " "@ + ("table"@ + (" "@ + (c.table + (" "@ + ("("@ + (cc + (
    ")"@ + ";"@))))))));
    lemma_split_at(s, 6, " "@, "table"@ + (" "@ + (c.table + (" "@ + ("("@ + (cc + (")"@
        + ";"@)))))));
    lemma_split_at(s, 7, "table"@, " "@ + (c.table + (" "@ + ("("@ + (cc + (")"@ + ";"@))))));
    lemma_split_at(s, 12, " "@, c.table + (" "@ + ("("@ + (cc + (")"@ + ";"@)))));
    lemma_split_at(s, 13, c.table, " "@ + ("("@ + (cc + (")"@ + ";"@))));
    lemma_split_at(s, 13 + tl, " "@, "("@ + (cc + (")"@ + ";"@)));
    lemma_split_at(s, 14 + tl, "("@, cc + (")"@ + ";"@));
    lemma_split_at(s, 15 + tl, cc, ")"@ + ";"@);
    lemma_split_at(s, 15 + tl + cl, ")"@, ";"@);
    lemma_chars_from_lit(s, 0, "create"@);
    lemma_chars_from_lit(s, 6, " "@);
    lemma_chars_from_lit(s, 7, "table"@);
    lemma_chars_from_lit(s, 12, " "@);
    lemma_chars_from_lit(s, 13, c.table);
    lemma_chars_from_lit(s, 13 + tl, " "@);
    lemma_chars_from_lit(s, 14 + tl, "("@);
    lemma_chars_from_lit(s, 15 + tl, cc);
    lemma_chars_from_lit(s, 15 + tl + cl, ")"@);
    lemma_chars_from_lit(s, 16 + tl + cl, ";"@);
    lemma_kw_at(s, 0, "create"@);
    assert(s[6 + 0int] == ' ');
    assert(s[7 + 0int] == 't');
    lemma_ws_one(s, 6);
    lemma_kw_at(s, 7, "table"@);
    assert(s[12 + 0int] == ' ');
    assert(s[13 + 0int] == c.table[0]);
    lemma_ws_one(s, 12);
    assert(s[13 + tl + 0] == ' ');
    lemma_ident_at(s, 13, c.table);
    assert(s[14 + tl + 0] == '(');
    lemma_ws_one(s, 13 + tl);
    assert(s[15 + tl + 0] == cc[0]);
    assert(s[15 + tl + cl + 0] == ')');
    lemma_columns_at(s, 15 + tl, c.columns);
    assert(spec_column_defs(s, 14 + tl) == Some((c.columns, 16 + tl + cl)));
    assert(spec_create(s, 0) == Some((c, 16 + tl + cl)));
    assert(s[16 + tl + cl + 0] == ';');
    assert(s[0 + 0int] == 'c');
}

/// A rendered `INSERT` statement parses back to itself, ending just before
/// the terminator.
#[verifier::rlimit(100)]
proof fn lemma_insert_roundtrip(ins: InsertV)
    requires
        ident_ok(ins.table),
        ins.values.len() >= 1,
        forall|j: int| 0 <= j < ins.values.len() ==> printable_value(ins.values[j]),
    ensures
        ({
            let s = print_query(QueryV::Insert(ins));
            &&& spec_insert(s, 0) == Some((ins, s.len() - 1))
            &&& s[0] == 'i'
            &&& s[s.len() - 1] == ';'
        }),
{
    reveal_strlit("insert into ");
    reveal_strlit(" values ");
    reveal_strlit(";");
    reveal_strlit("insert");
    reveal_strlit("into");
    reveal_strlit("values");
    reveal_strlit(" ");
    let s = print_query(QueryV::Insert(ins));
    let vv = print_values(ins.values);
    let vl = vv.len() as int;
    let tl = ins.table.len() as int;
    lemma_values_first_char(ins.values);
    assert(s =~= "insert"@ + (" "@ + ("into"@ + (" "@ + (ins.table + (" "@ + ("values"@ + (" "@ + (
    vv + ";"@)))))))));
    assert(s.subrange(0, s.len() as int) =~= s);
    lemma_split_at(s, 0, "insert"@, " "@ + ("into"@ + (" "@ + (ins.table + (" "@ + ("values"@ + (
    " "@ + (vv + ";"@))))))));
    lemma_split_at(s, 6, " "@, "into"@ + (" "@ + (ins.table + (" "@ + ("values"@ + (" "@ + (vv
        + ";"@)))))));
    lemma_split_at(s, 7, "into"@, " "@ + (ins.table + (" "@ + ("values"@ + (" "@ + (vv + ";"@))))));
    lemma_split_at(s, 11, " "@, ins.table + (" "@ + ("values"@ + (" "@ + (vv + ";"@)))));
    lemma_split_at(s, 12, ins.table, " "@ + ("values"@ + (" "@ + (vv + ";"@))));
    lemma_split_at(s, 12 + tl, " "@, "values"@ + (" "@ + (vv + ";"@)));
    lemma_split_at(s, 13 + tl, "values"@, " "@ + (vv + ";"@));
    lemma_split_at(s, 19 + tl, " "@, vv + ";"@);
    lemma_split_at(s, 20 + tl, vv, ";"@);
    lemma_chars_from_lit(s, 0, "insert"@);
    lemma_chars_from_lit(s, 6, " "@);
    lemma_chars_from_lit(s, 7, "into"@);
    lemma_chars_from_lit(s, 11, " "@);
    lemma_chars_from_lit(s, 12, ins.table);
    lemma_chars_from_lit(s, 12 + tl, " "@);
    lemma_chars_from_lit(s, 13 + tl, "values"@);
    lemma_chars_from_lit(s, 19 + tl, " "@);
    lemma_chars_from_lit(s, 20 + tl, vv);
    lemma_chars_from_lit(s, 20 + tl + vl, ";"@);
    lemma_kw_at(s, 0, "insert"@);
    assert(s[6 + 0int] == ' ');
    assert(s[7 + 0int] == 'i');
    lemma_ws_one(s, 6);
    lemma_kw_at(s, 7, "into"@);
    assert(s[11 + 0int] == ' ');
    assert(s[12 + 0int] == ins.table[0]);
    lemma_ws_one(s, 11);
    assert(s[12 + tl + 0] == ' ');
    lemma_ident_at(s, 12, ins.table);
    assert(s[13 + tl + 0] == 'v');
    lemma_ws_one(s, 12 + tl);
    lemma_kw_at(s, 13 + tl, "values"@);
    assert(s[19 + tl + 0] == ' ');
    assert(s[20 + tl + 0] == vv[0]);
    lemma_ws_one(s, 19 + tl);
    assert(s[20 + tl + vl + 0] == ';');
    lemma_values_at(s, 20 + tl, ins.values);
    assert(spec_insert(s, 0) == Some((ins, 20 + tl + vl)));
    assert(s[0 + 0int] == 'i');
}

/// The grammar round trip: a printable statement, rendered with `to_sql`
/// and parsed again, comes back unchanged, with the whole text consumed.
pub proof fn lemma_print_parse_roundtrip(q: QueryV)
    requires
        printable_query(q),
    ensures
        spec_query(print_query(q), 0) == Some((q, print_query(q).len() as int)),
{
    reveal_strlit("select");
    reveal_strlit("create");
    reveal_strlit("insert");
    let s = print_query(q);
    let d = s.len() - 1;
    match q {
        QueryV::Select(sel) => {
            lemma_select_roundtrip(sel);
            lemma_ws_none(s, 0);
            lemma_ws_none(s, d);
            lemma_ws_none(s, s.len() as int);
        },
        QueryV::Create(c) => {
            lemma_create_roundtrip(c);
            lemma_ws_none(s, 0);
            assert(!ci_eq('c', 's'));
            lemma_kw_not(s, 0, "select"@);
            lemma_ws_none(s, d);
            lemma_ws_none(s, s.len() as int);
        },
        QueryV::Insert(ins) => {
            lemma_insert_roundtrip(ins);
            lemma_ws_none(s, 0);
            assert(!ci_eq('i', 's'));
            assert(!ci_eq('i', 'c'));
            lemma_kw_not(s, 0, "select"@);
            lemma_kw_not(s, 0, "create"@);
            lemma_ws_none(s, d);
            lemma_ws_none(s, s.len() as int);
        },
    }
}

} // verus!
