//! Literal values: single-quoted strings and unsigned arbitrary-precision
//! decimal numbers, together with their parsers.

use vstd::prelude::*;
use vstd::string::StrSliceExecFns;

use crate::parse::{digit_char, is_digit, skip_ws, ws_end, ParseError};

verus! {

/// Every character of `s` is a decimal digit.
pub open spec fn all_digits(s: Seq<char>) -> bool {
    forall|j: int| 0 <= j < s.len() ==> is_digit(s[j])
}

/// A well-formed digit sequence: nonempty, decimal digits only, and without
/// a redundant leading zero.
pub open spec fn numeric_digits_wf(s: Seq<char>) -> bool {
    &&& s.len() >= 1
    &&& all_digits(s)
    &&& (s.len() == 1 || s[0] != '0')
}

/// Strip redundant leading zeros, keeping a single `0` for zero itself.
pub open spec fn canon_digits(s: Seq<char>) -> Seq<char>
    decreases s.len(),
{
    if s.len() > 1 && s[0] == '0' {
        canon_digits(s.subrange(1, s.len() as int))
    } else {
        s
    }
}

/// `canon_digits` keeps the suffix that starts at the first significant digit.
proof fn lemma_canon_digits_at(s: Seq<char>, k: int)
    requires
        0 <= k < s.len(),
        forall|j: int| 0 <= j < k ==> s[j] == '0',
        k == s.len() - 1 || s[k] != '0',
    ensures
        canon_digits(s) == s.subrange(k, s.len() as int),
    decreases k,
{
    if k == 0 {
        if s.len() > 1 && s[0] == '0' {
            assert(false);
        }
        assert(s.subrange(0, s.len() as int) =~= s);
    } else {
        let t = s.subrange(1, s.len() as int);
        lemma_canon_digits_at(t, k - 1);
        assert(t.subrange(k - 1, t.len() as int) =~= s.subrange(k, s.len() as int));
    }
}

/// An unsigned arbitrary-precision decimal number, stored as its canonical
/// run of decimal digits (no sign, no decimal point, no exponent).
#[derive(Debug, Clone, PartialEq, Eq, Hash)]
pub struct Numeric {
    digits: String,
}

impl View for Numeric {
    type V = Seq<char>;

    closed spec fn view(&self) -> Seq<char> {
        self.digits@
    }
}

/// Copy the digit run `[start, end)` of `input` with redundant leading
/// zeros removed.
fn canon_text(input: &str, start: usize, end: usize) -> (r: String)
    requires
        start < end <= input@.len(),
        forall|j: int| start <= j < end ==> is_digit(input@[j]),
    ensures
        r@ == canon_digits(input@.subrange(start as int, end as int)),
        numeric_digits_wf(r@),
{
    let mut k: usize = start;
    while k + 1 < end && input.get_char(k) == '0'
        invariant
            start <= k < end <= input@.len(),
            forall|j: int| start <= j < k ==> input@[j] == '0',
        decreases end - k,
    {
        k = k + 1;
    }
    let text = input.substring_char(k, end).to_owned();
    proof {
        let d = input@.subrange(start as int, end as int);
        lemma_canon_digits_at(d, k - start);
        assert(d.subrange(k - start, d.len() as int) =~= input@.subrange(k as int, end as int));
        assert(numeric_digits_wf(text@));
    }
    text
}

impl Numeric {
    /// Read a number from a text that consists solely of decimal digits;
    /// leading zeros are dropped. Any other text is rejected.
    pub fn from_decimal_str(s: &str) -> (r: Option<Numeric>)
        ensures
            match r {
                Some(n) => {
                    &&& s@.len() >= 1 && all_digits(s@)
                    &&& n@ == canon_digits(s@)
                    &&& numeric_digits_wf(n@)
                },
                None => !(s@.len() >= 1 && all_digits(s@)),
            },
    {
        let len: usize = s.unicode_len();
        if len == 0 {
            return None;
        }
        let mut j: usize = 0;
        while j < len
            invariant
                0 <= j <= len,
                len == s@.len(),
                forall|m: int| 0 <= m < j ==> is_digit(s@[m]),
            decreases len - j,
        {
            if !digit_char(s.get_char(j)) {
                return None;
            }
            j = j + 1;
        }
        let digits = canon_text(s, 0, len);
        proof {
            assert(s@.subrange(0, len as int) =~= s@);
        }
        Some(Numeric { digits })
    }

    /// An equal copy.
    pub fn duplicate(&self) -> (r: Numeric)
        ensures
            r == *self,
    {
        Numeric { digits: self.digits.clone() }
    }

    /// The digit run, for rendering.
    pub fn as_text(&self) -> (r: &str)
        ensures
            r@ == self@,
    {
        self.digits.as_str()
    }
}

/// A literal value: either a number or a piece of text.
#[derive(Debug, Clone, PartialEq, Eq, Hash)]
pub enum Value {
    Number(Numeric),
    String(String),
}

/// The mathematical shape of a value: a tagged digit run or character text.
pub enum ValueV {
    Number(Seq<char>),
    String(Seq<char>),
}

impl View for Value {
    type V = ValueV;

    open spec fn view(&self) -> ValueV {
        match self {
            Value::Number(n) => ValueV::Number(n@),
            Value::String(s) => ValueV::String(s@),
        }
    }
}

/// A well-formed value: a number carries a canonical digit run.
pub open spec fn value_wf(v: ValueV) -> bool {
    match v {
        ValueV::Number(d) => numeric_digits_wf(d),
        ValueV::String(_) => true,
    }
}

impl Value {
    /// An equal copy.
    pub fn duplicate(&self) -> (r: Value)
        ensures
            r == *self,
    {
        match self {
            Value::Number(n) => Value::Number(n.duplicate()),
            Value::String(s) => Value::String(s.clone()),
        }
    }

    /// The value's text: the digit run of a number, or the content of a
    /// string, without quotes.
    pub fn to_text(&self) -> (r: String)
        ensures
            match self@ {
                ValueV::Number(d) => r@ == d,
                ValueV::String(s) => r@ == s,
            },
    {
        match self {
            Value::Number(n) => n.digits.clone(),
            Value::String(s) => s.clone(),
        }
    }
}

/// The position of the next single quote at or after `i`, or the text's
/// length if there is none.
pub open spec fn quote_end(s: Seq<char>, i: int) -> int
    decreases s.len() - i,
{
    if i < s.len() {
        if s[i] == '\'' {
            i
        } else {
            quote_end(s, i + 1)
        }
    } else {
        i
    }
}

/// What parsing a string literal at `i` yields: the characters between an
/// opening quote at `i` and the next quote, taken verbatim (no escapes),
/// and the position just past the closing quote.
pub open spec fn spec_string_literal(s: Seq<char>, i: int) -> Option<(Seq<char>, int)> {
    if i < s.len() && s[i] == '\'' {
        let e = quote_end(s, i + 1);
        if e < s.len() {
            Some((s.subrange(i + 1, e), e + 1))
        } else {
            None
        }
    } else {
        None
    }
}

/// The end of the maximal run of decimal digits starting at `i`.
pub open spec fn digits_end(s: Seq<char>, i: int) -> int
    decreases s.len() - i,
{
    if i < s.len() && is_digit(s[i]) {
        digits_end(s, i + 1)
    } else {
        i
    }
}

/// What parsing a numeric literal at `i` yields: the canonical form of the
/// maximal nonempty digit run, and the position just past the run.
pub open spec fn spec_number_literal(s: Seq<char>, i: int) -> Option<(Seq<char>, int)> {
    let e = digits_end(s, i);
    if e > i {
        Some((canon_digits(s.subrange(i, e)), e))
    } else {
        None
    }
}

/// What parsing a value at `i` yields. Surrounding whitespace is consumed;
/// a leading quote commits to the string branch, anything else must be a
/// nonempty digit run.
pub open spec fn spec_value(s: Seq<char>, i: int) -> Option<(ValueV, int)> {
    let j = ws_end(s, i);
    let lit = if j < s.len() && s[j] == '\'' {
        match spec_string_literal(s, j) {
            Some(p) => Some((ValueV::String(p.0), p.1)),
            None => None,
        }
    } else {
        match spec_number_literal(s, j) {
            Some(p) => Some((ValueV::Number(p.0), p.1)),
            None => None,
        }
    };
    match lit {
        Some(p) => Some((p.0, ws_end(s, p.1))),
        None => None,
    }
}

/// Parse a single-quoted string literal.
fn parse_string_value(input: &str, pos: usize) -> (r: Result<(Value, usize), ParseError>)
    requires
        pos <= input@.len(),
        input@.len() < usize::MAX,
    ensures
        match r {
            Ok(p) => {
                &&& spec_string_literal(input@, pos as int) matches Some(q)
                    && p.0@ == ValueV::String(q.0) && p.1 == q.1
                &&& pos < p.1 <= input@.len()
            },
            Err(_) => spec_string_literal(input@, pos as int) is None,
        },
{
    let len: usize = input.unicode_len();
    if pos >= len || input.get_char(pos) != '\'' {
        return Err(ParseError::at(input, pos, "String Literal"));
    }
    let mut q: usize = pos + 1;
    while q < len && input.get_char(q) != '\''
        invariant
            pos + 1 <= q <= len,
            len == input@.len(),
            quote_end(input@, pos + 1) == quote_end(input@, q as int),
        decreases len - q,
    {
        q = q + 1;
    }
    if q == len {
        return Err(ParseError::at(input, pos, "String Literal"));
    }
    let content = input.substring_char(pos + 1, q).to_owned();
    Ok((Value::String(content), q + 1))
}

/// Parse an unsigned numeric literal: a maximal nonempty run of decimal
/// digits, read as an arbitrary-precision decimal.
fn parse_number_value(input: &str, pos: usize) -> (r: Result<(Value, usize), ParseError>)
    requires
        pos <= input@.len(),
        input@.len() < usize::MAX,
    ensures
        match r {
            Ok(p) => {
                &&& spec_number_literal(input@, pos as int) matches Some(q)
                    && p.0@ == ValueV::Number(q.0) && p.1 == q.1
                &&& pos < p.1 <= input@.len()
                &&& value_wf(p.0@)
            },
            Err(_) => spec_number_literal(input@, pos as int) is None,
        },
{
    let len: usize = input.unicode_len();
    let mut end: usize = pos;
    while end < len && digit_char(input.get_char(end))
        invariant
            pos <= end <= len,
            len == input@.len(),
            digits_end(input@, pos as int) == digits_end(input@, end as int),
            forall|j: int| pos <= j < end ==> is_digit(input@[j]),
        decreases len - end,
    {
        end = end + 1;
    }
    if end == pos {
        return Err(ParseError::at(input, pos, "Number Literal"));
    }
    let digits = canon_text(input, pos, end);
    proof {
        assert(input@.subrange(pos as int, end as int) =~= input@.subrange(
            pos as int,
            digits_end(input@, pos as int),
        ));
    }
    Ok((Value::Number(Numeric { digits }), end))
}

impl Value {
    /// Parse a value at `pos`: leading whitespace is skipped, a leading
    /// quote commits to a string literal, anything else must start a
    /// numeric literal, and trailing whitespace is consumed.
    pub fn parse(input: &str, pos: usize) -> (r: Result<(Value, usize), ParseError>)
        requires
            pos <= input@.len(),
            input@.len() < usize::MAX,
        ensures
            match r {
                Ok(p) => {
                    &&& spec_value(input@, pos as int) == Some((p.0@, p.1 as int))
                    &&& pos < p.1 <= input@.len()
                    &&& value_wf(p.0@)
                },
                Err(_) => spec_value(input@, pos as int) is None,
            },
    {
        let j = skip_ws(input, pos);
        let len: usize = input.unicode_len();
        let lit = if j < len && input.get_char(j) == '\'' {
            parse_string_value(input, j)
        } else {
            parse_number_value(input, j)
        };
        match lit {
            Ok((v, e)) => {
                let f = skip_ws(input, e);
                proof {
                    crate::parse::lemma_ws_end(input@, e as int);
                }
                Ok((v, f))
            },
            Err(err) => Err(err.wrap("Value")),
        }
    }

    /// Parse a value at the start of `input`, returning the remaining text
    /// and the value.
    pub fn parse_from_raw(input: &str) -> (r: Result<(String, Value), ParseError>)
        requires
            input@.len() < usize::MAX,
        ensures
            match r {
                Ok(p) => {
                    &&& spec_value(input@, 0) matches Some(q)
                        && p.1@ == q.0 && p.0@ == input@.subrange(q.1, input@.len() as int)
                    &&& value_wf(p.1@)
                },
                Err(_) => spec_value(input@, 0) is None,
            },
    {
        match Value::parse(input, 0) {
            Ok((v, e)) => {
                let rest = input.substring_char(e, input.unicode_len()).to_owned();
                Ok((rest, v))
            },
            Err(err) => Err(err),
        }
    }
}

} // verus!
