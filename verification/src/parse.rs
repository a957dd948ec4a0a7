//! Cursor primitives shared by all statement parsers.
//!
//! A parser works on a borrowed `&str` together with a character position.
//! Each primitive has a specification-level twin that defines the grammar
//! mathematically over `Seq<char>`; the executable function is proved to
//! return exactly what its twin says.

use vstd::prelude::*;
use vstd::string::StrSliceExecFns;

verus! {

/// A character the grammar treats as whitespace: space, tab,
/// carriage return or line feed.
pub open spec fn is_space(c: char) -> bool {
    c == ' ' || c == '\t' || c == '\r' || c == '\n'
}

/// Executable whitespace test, usable directly in specifications.
#[verifier::when_used_as_spec(is_space)]
pub fn space_char(c: char) -> (r: bool)
    ensures
        r == is_space(c),
{
    c == ' ' || c == '\t' || c == '\r' || c == '\n'
}

/// A decimal digit `0` through `9`.
pub open spec fn is_digit(c: char) -> bool {
    48 <= c as u32 <= 57
}

/// Executable digit test.
#[verifier::when_used_as_spec(is_digit)]
pub fn digit_char(c: char) -> (r: bool)
    ensures
        r == is_digit(c),
{
    let n: u32 = c as u32;
    48 <= n && n <= 57
}

/// A character an identifier may consist of: an ASCII letter or digit.
pub open spec fn is_ident_char(c: char) -> bool {
    is_digit(c) || (97 <= c as u32 <= 122) || (65 <= c as u32 <= 90)
}

/// Executable identifier-character test.
#[verifier::when_used_as_spec(is_ident_char)]
pub fn ident_char(c: char) -> (r: bool)
    ensures
        r == is_ident_char(c),
{
    let n: u32 = c as u32;
    (48 <= n && n <= 57) || (97 <= n && n <= 122) || (65 <= n && n <= 90)
}

/// Case-insensitive match of an input character `c` against a keyword
/// character `k`, where keywords are written in lower case.
pub open spec fn ci_eq(c: char, k: char) -> bool {
    c == k || (97 <= k as u32 <= 122 && c as u32 + 32 == k as u32)
}

/// Executable case-insensitive character match.
#[verifier::when_used_as_spec(ci_eq)]
pub fn ci_eq_char(c: char, k: char) -> (r: bool)
    ensures
        r == ci_eq(c, k),
{
    let cn: u32 = c as u32;
    let kn: u32 = k as u32;
    c == k || (97 <= kn && kn <= 122 && cn + 32 == kn)
}

/// The position of the first non-whitespace character at or after `i`.
pub open spec fn ws_end(s: Seq<char>, i: int) -> int
    decreases s.len() - i,
{
    if i < s.len() && is_space(s[i]) {
        ws_end(s, i + 1)
    } else {
        i
    }
}

pub proof fn lemma_ws_end(s: Seq<char>, i: int)
    requires
        0 <= i <= s.len(),
    ensures
        i <= ws_end(s, i) <= s.len(),
        forall|j: int| i <= j < ws_end(s, i) ==> is_space(s[j]),
        ws_end(s, i) < s.len() ==> !is_space(s[ws_end(s, i)]),
    decreases s.len() - i,
{
    if i < s.len() && is_space(s[i]) {
        lemma_ws_end(s, i + 1);
    }
}

/// Advance the cursor past whitespace.
pub fn skip_ws(input: &str, pos: usize) -> (r: usize)
    requires
        pos <= input@.len(),
    ensures
        r == ws_end(input@, pos as int),
        pos <= r <= input@.len(),
{
    let len: usize = input.unicode_len();
    let mut cur: usize = pos;
    while cur < len && space_char(input.get_char(cur))
        invariant
            pos <= cur <= len,
            len == input@.len(),
            ws_end(input@, pos as int) == ws_end(input@, cur as int),
        decreases len - cur,
    {
        cur = cur + 1;
    }
    cur
}

/// The end of the maximal run of identifier characters starting at `i`.
pub open spec fn ident_end(s: Seq<char>, i: int) -> int
    decreases s.len() - i,
{
    if i < s.len() && is_ident_char(s[i]) {
        ident_end(s, i + 1)
    } else {
        i
    }
}

pub proof fn lemma_ident_end(s: Seq<char>, i: int)
    requires
        0 <= i <= s.len(),
    ensures
        i <= ident_end(s, i) <= s.len(),
        forall|j: int| i <= j < ident_end(s, i) ==> is_ident_char(s[j]),
        ident_end(s, i) < s.len() ==> !is_ident_char(s[ident_end(s, i)]),
    decreases s.len() - i,
{
    if i < s.len() && is_ident_char(s[i]) {
        lemma_ident_end(s, i + 1);
    }
}

/// What parsing an identifier at `i` yields: the maximal nonempty run of
/// identifier characters and the position just past it.
pub open spec fn spec_identifier(s: Seq<char>, i: int) -> Option<(Seq<char>, int)> {
    let e = ident_end(s, i);
    if e > i {
        Some((s.subrange(i, e), e))
    } else {
        None
    }
}

/// Parse an unquoted identifier: a maximal nonempty run of ASCII
/// alphanumeric characters.
pub fn identifier(input: &str, pos: usize) -> (r: Option<(String, usize)>)
    requires
        pos <= input@.len(),
    ensures
        match r {
            Some(p) => {
                &&& spec_identifier(input@, pos as int) == Some((p.0@, p.1 as int))
                &&& pos < p.1 <= input@.len()
            },
            None => spec_identifier(input@, pos as int) is None,
        },
{
    let len: usize = input.unicode_len();
    let mut end: usize = pos;
    while end < len && ident_char(input.get_char(end))
        invariant
            pos <= end <= len,
            len == input@.len(),
            ident_end(input@, pos as int) == ident_end(input@, end as int),
        decreases len - end,
    {
        end = end + 1;
    }
    if end == pos {
        None
    } else {
        let name = input.substring_char(pos, end).to_owned();
        Some((name, end))
    }
}

/// What matching the keyword `kw` (written in lower case) at `i` yields:
/// the position just past it, if every character matches case-insensitively.
pub open spec fn kw_end(s: Seq<char>, i: int, kw: Seq<char>) -> Option<int> {
    if i + kw.len() <= s.len() && (forall|j: int| 0 <= j < kw.len() ==> ci_eq(s[i + j], kw[j])) {
        Some(i + kw.len())
    } else {
        None
    }
}

/// Match a keyword case-insensitively at `pos`.
pub fn keyword(input: &str, pos: usize, kw: &str) -> (r: Option<usize>)
    requires
        pos <= input@.len(),
    ensures
        match r {
            Some(e) => {
                &&& kw_end(input@, pos as int, kw@) == Some(e as int)
                &&& pos <= e <= input@.len()
            },
            None => kw_end(input@, pos as int, kw@) is None,
        },
{
    let len: usize = input.unicode_len();
    let klen: usize = kw.unicode_len();
    if klen > len - pos {
        return None;
    }
    let mut j: usize = 0;
    while j < klen
        invariant
            0 <= j <= klen,
            len == input@.len(),
            klen == kw@.len(),
            pos + klen <= len,
            forall|m: int| 0 <= m < j ==> ci_eq(input@[pos + m], kw@[m]),
        decreases klen - j,
    {
        if !ci_eq_char(input.get_char(pos + j), kw.get_char(j)) {
            proof {
                assert(!ci_eq(input@[pos + j], kw@[j as int]));
            }
            return None;
        }
        j = j + 1;
    }
    Some(pos + klen)
}

/// What matching a list separator at `i` yields: a comma with optional
/// whitespace on both sides, and the position just past it.
pub open spec fn spec_sep(s: Seq<char>, i: int) -> Option<int> {
    let j = ws_end(s, i);
    if j < s.len() && s[j] == ',' {
        Some(ws_end(s, j + 1))
    } else {
        None
    }
}

/// Match a comma list separator, with optional whitespace around the comma.
pub fn comma_sep(input: &str, pos: usize) -> (r: Option<usize>)
    requires
        pos <= input@.len(),
    ensures
        match r {
            Some(k) => {
                &&& spec_sep(input@, pos as int) == Some(k as int)
                &&& pos < k <= input@.len()
            },
            None => spec_sep(input@, pos as int) is None,
        },
{
    let j = skip_ws(input, pos);
    let len: usize = input.unicode_len();
    if j < len && input.get_char(j) == ',' {
        let k = skip_ws(input, j + 1);
        proof {
            lemma_ws_end(input@, j + 1);
        }
        Some(k)
    } else {
        None
    }
}

/// The line number (starting at 1) of the character at offset `off`.
pub open spec fn line_of(s: Seq<char>, off: int) -> int
    decreases off,
{
    if off <= 0 {
        1
    } else {
        line_of(s, off - 1) + if s[off - 1] == '\n' { 1int } else { 0int }
    }
}

/// The column number (starting at 1) of the character at offset `off`.
pub open spec fn col_of(s: Seq<char>, off: int) -> int
    decreases off,
{
    if off <= 0 {
        1
    } else if s[off - 1] == '\n' {
        1
    } else {
        col_of(s, off - 1) + 1
    }
}

/// A structured parse failure: the trail of grammar productions that were
/// being matched (outermost last) and the position where matching stopped.
#[derive(Debug, Clone, PartialEq, Eq)]
pub struct ParseError {
    pub contexts: Vec<String>,
    pub offset: usize,
    pub line: usize,
    pub column: usize,
}

impl ParseError {
    /// Build a failure at character offset `offset` of `input`, labelled
    /// with the grammar production `context`.
    pub fn at(input: &str, offset: usize, context: &str) -> (r: ParseError)
        requires
            offset <= input@.len(),
            offset < usize::MAX,
        ensures
            r.offset == offset,
            r.line == line_of(input@, offset as int),
            r.column == col_of(input@, offset as int),
            r.contexts@.len() == 1 && r.contexts@[0]@ == context@,
    {
        let mut i: usize = 0;
        let mut line: usize = 1;
        let mut column: usize = 1;
        while i < offset
            invariant
                0 <= i <= offset <= input@.len(),
                offset < usize::MAX,
                line == line_of(input@, i as int),
                column == col_of(input@, i as int),
                line <= i + 1,
                column <= i + 1,
            decreases offset - i,
        {
            if input.get_char(i) == '\n' {
                line = line + 1;
                column = 1;
            } else {
                column = column + 1;
            }
            i = i + 1;
        }
        let mut contexts: Vec<String> = Vec::new();
        contexts.push(context.to_owned());
        ParseError { contexts, offset, line, column }
    }

    /// Record that the failure happened while matching the enclosing
    /// production `context`.
    pub fn wrap(self, context: &str) -> (r: ParseError)
        ensures
            r.offset == self.offset,
            r.line == self.line,
            r.column == self.column,
            r.contexts@.len() == self.contexts@.len() + 1,
            r.contexts@[self.contexts@.len() as int]@ == context@,
            forall|i: int| 0 <= i < self.contexts@.len() ==> r.contexts@[i] == self.contexts@[i],
    {
        let mut e = self;
        e.contexts.push(context.to_owned());
        e
    }
}

} // verus!
