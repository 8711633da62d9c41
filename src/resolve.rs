//! Turning an editor position into the span of the identifier under the caret.

use vstd::prelude::*;

verus! {

/// A zero-based position in a document.
#[derive(Debug, Clone, Copy, PartialEq, Eq, Structural)]
pub struct Position {
    pub line: usize,
    pub character: usize,
}

/// A half-open range of positions.
#[derive(Debug, Clone, Copy, PartialEq, Eq, Structural)]
pub struct Range {
    pub start: Position,
    pub end: Position,
}

/// A range in the document named by `uri`.
#[derive(Debug, PartialEq, Eq)]
pub struct Location {
    pub uri: String,
    pub range: Range,
}

/// A backend-facing source range. Columns are one-based; `column_end` is one
/// past the last column, counted from zero, as the analysis store expects.
#[derive(Debug, PartialEq, Eq)]
pub struct Span {
    pub file_name: String,
    pub line_start: usize,
    pub column_start: usize,
    pub line_end: usize,
    pub column_end: usize,
}

/// What `char::is_alphanumeric` answers for `c`.
pub uninterp spec fn alphanumeric(c: char) -> bool;

pub open spec fn is_ascii_letter_or_digit(c: char) -> bool {
    ('a' <= c <= 'z') || ('A' <= c <= 'Z') || ('0' <= c <= '9')
}

/// Relies on `char::is_alphanumeric`: true for letters and digits, which among
/// ASCII characters are exactly `a`-`z`, `A`-`Z` and `0`-`9`.
#[verifier::external_body]
fn is_alphanumeric(c: char) -> (r: bool)
    ensures
        r == alphanumeric(c),
        (c as u32) < 128 ==> (r == is_ascii_letter_or_digit(c)),
{
    c.is_alphanumeric()
}

/// A character that can be part of an identifier.
pub open spec fn is_ident_char(c: char) -> bool {
    alphanumeric(c) || c == '_'
}

pub fn ident_char(c: char) -> (r: bool)
    ensures
        r == is_ident_char(c),
{
    c == '_' || is_alphanumeric(c)
}

/// The first index of the run of identifier characters that holds `i`.
pub open spec fn run_start(line: Seq<char>, i: int) -> int
    decreases i,
{
    if 0 < i <= line.len() && is_ident_char(line[i - 1]) {
        run_start(line, i - 1)
    } else {
        i
    }
}

/// The first index at or after `i` that holds no identifier character.
pub open spec fn run_end(line: Seq<char>, i: int) -> int
    decreases line.len() - i,
{
    if 0 <= i < line.len() && is_ident_char(line[i]) {
        run_end(line, i + 1)
    } else {
        i
    }
}

/// Whether the caret stands on an identifier character.
pub open spec fn on_ident(line: Seq<char>, caret: int) -> bool {
    0 <= caret < line.len() && is_ident_char(line[caret])
}

/// The one-based columns, first and one past the last, of the identifier under
/// the caret; where the caret is on no identifier, both are the caret's column
/// number.
pub open spec fn columns_at(line: Seq<char>, caret: int) -> (int, int) {
    if on_ident(line, caret) {
        (run_start(line, caret) + 1, run_end(line, caret) + 1)
    } else {
        (caret, caret)
    }
}

/// The span of the identifier under `caret` on line `line_no` of `file_name`.
pub open spec fn span_at(file_name: Seq<char>, line_no: nat, line: Seq<char>, caret: nat) -> (
    Seq<char>,
    nat,
    int,
    nat,
    int,
) {
    let (start, end) = columns_at(line, caret as int);
    (file_name, line_no, start, line_no, end)
}

pub open spec fn span_view(s: Span) -> (Seq<char>, nat, int, nat, int) {
    (
        s.file_name@,
        s.line_start as nat,
        s.column_start as int,
        s.line_end as nat,
        s.column_end as int,
    )
}

proof fn lemma_run_bounds(line: Seq<char>, i: int)
    requires
        0 <= i <= line.len(),
    ensures
        0 <= run_start(line, i) <= i,
        i <= run_end(line, i) <= line.len(),
    decreases line.len() - i,
{
    lemma_run_start_bounds(line, i);
    if i < line.len() && is_ident_char(line[i]) {
        lemma_run_bounds(line, i + 1);
    }
}

proof fn lemma_run_start_bounds(line: Seq<char>, i: int)
    requires
        0 <= i <= line.len(),
    ensures
        0 <= run_start(line, i) <= i,
    decreases i,
{
    if 0 < i && is_ident_char(line[i - 1]) {
        lemma_run_start_bounds(line, i - 1);
    }
}

/// Finds the span of the identifier under column `character` of `text`, the
/// text of line `line_no` of `file_name`.
pub fn span_in_line(file_name: String, line_no: usize, text: &str, character: usize) -> (r: Span)
    requires
        text@.len() < usize::MAX,
    ensures
        span_view(r) == span_at(file_name@, line_no as nat, text@, character as nat),
{
    let len = text.unicode_len();
    let ghost line = text@;
    if character >= len || !ident_char(text.get_char(character)) {
        return Span {
            file_name,
            line_start: line_no,
            column_start: character,
            line_end: line_no,
            column_end: character,
        };
    }
    // Back from the caret to the first character of the identifier.
    let mut start: usize = character;
    while start > 0 && ident_char(text.get_char(start - 1))
        invariant
            len == line.len(),
            line == text@,
            start <= character < len,
            run_start(line, character as int) == run_start(line, start as int),
        decreases start,
    {
        start = start - 1;
    }
    // Forward from the caret past the last character of the identifier.
    let mut end: usize = character;
    while end < len && ident_char(text.get_char(end))
        invariant
            len == line.len(),
            line == text@,
            character <= end <= len,
            run_end(line, character as int) == run_end(line, end as int),
        decreases len - end,
    {
        end = end + 1;
    }
    Span {
        file_name,
        line_start: line_no,
        column_start: start + 1,
        line_end: line_no,
        column_end: end + 1,
    }
}

proof fn lemma_same_run(line: Seq<char>, a: int, b: int)
    requires
        0 <= a <= b < line.len(),
        forall|i: int| a <= i <= b ==> is_ident_char(#[trigger] line[i]),
    ensures
        run_start(line, a) == run_start(line, b),
        run_end(line, a) == run_end(line, b),
    decreases b - a,
{
    if a < b {
        lemma_same_run(line, a, b - 1);
        lemma_same_run(line, a + 1, b);
    }
}

/// Every caret position inside one identifier resolves to the same columns:
/// those of the whole identifier.
pub proof fn lemma_identifier_span(line: Seq<char>, a: int, b: int)
    requires
        0 <= a <= b < line.len(),
        forall|i: int| a <= i <= b ==> is_ident_char(#[trigger] line[i]),
    ensures
        columns_at(line, a) == columns_at(line, b),
        columns_at(line, a).0 == run_start(line, a) + 1,
        columns_at(line, a).1 == run_end(line, b) + 1,
        run_start(line, a) == 0 || !is_ident_char(line[run_start(line, a) - 1]),
        run_end(line, b) == line.len() || !is_ident_char(line[run_end(line, b)]),
{
    lemma_same_run(line, a, b);
    lemma_run_start_end(line, a);
    lemma_run_end_end(line, b);
}

proof fn lemma_run_start_end(line: Seq<char>, i: int)
    requires
        0 <= i <= line.len(),
    ensures
        run_start(line, i) == 0 || !is_ident_char(line[run_start(line, i) - 1]),
    decreases i,
{
    if 0 < i && is_ident_char(line[i - 1]) {
        lemma_run_start_end(line, i - 1);
    }
}

proof fn lemma_run_end_end(line: Seq<char>, i: int)
    requires
        0 <= i <= line.len(),
    ensures
        run_end(line, i) == line.len() || !is_ident_char(line[run_end(line, i)]),
    decreases line.len() - i,
{
    if i < line.len() && is_ident_char(line[i]) {
        lemma_run_end_end(line, i + 1);
    }
}

/// Resolving again at the first column of a resolved identifier gives the
/// same span: resolution is idempotent.
pub proof fn lemma_resolve_idempotent(file_name: Seq<char>, line_no: nat, line: Seq<char>, caret: nat)
    requires
        on_ident(line, caret as int),
    ensures
        ({
            let first = span_at(file_name, line_no, line, caret).2 - 1;
            first >= 0 && span_at(file_name, line_no, line, first as nat) == span_at(
                file_name,
                line_no,
                line,
                caret,
            )
        }),
{
    let c = caret as int;
    lemma_run_bounds(line, c);
    let s = run_start(line, c);
    lemma_run_start_all_ident(line, c);
    lemma_same_run(line, s, c);
}

proof fn lemma_run_start_all_ident(line: Seq<char>, i: int)
    requires
        on_ident(line, i),
    ensures
        forall|k: int| run_start(line, i) <= k <= i ==> is_ident_char(#[trigger] line[k]),
    decreases i,
{
    if 0 < i && is_ident_char(line[i - 1]) {
        lemma_run_start_all_ident(line, i - 1);
    }
}

pub open spec fn file_scheme() -> Seq<char> {
    seq!['f', 'i', 'l', 'e', ':', '/', '/']
}

/// The path that a `file://` URI names: the URI without that prefix.
pub open spec fn uri_path(uri: Seq<char>) -> Seq<char> {
    if uri.len() >= 7 && uri.subrange(0, 7) == file_scheme() {
        uri.subrange(7, uri.len() as int)
    } else {
        uri
    }
}

/// Strips the `file://` prefix from `uri`.
pub fn path_of_uri(uri: &str) -> (r: String)
    ensures
        r@ == uri_path(uri@),
{
    let scheme: [char; 7] = ['f', 'i', 'l', 'e', ':', '/', '/'];
    assert(scheme@ =~= file_scheme());
    let len = uri.unicode_len();
    if len < 7 {
        return String::from_str(uri);
    }
    let mut k: usize = 0;
    while k < 7
        invariant
            k <= 7 <= len,
            len == uri@.len(),
            scheme@ == file_scheme(),
            forall|j: int| 0 <= j < k ==> uri@[j] == file_scheme()[j],
        decreases 7 - k,
    {
        if uri.get_char(k) != scheme[k] {
            assert(uri@.subrange(0, 7)[k as int] != file_scheme()[k as int]);
            return String::from_str(uri);
        }
        k = k + 1;
    }
    assert(uri@.subrange(0, 7) =~= file_scheme());
    String::from_str(uri.substring_char(7, len))
}

/// The span for `position` in the document `uri`, given the text of that
/// line as the file overlay holds it; `None` where the overlay has no such line.
pub open spec fn resolve_spec(uri: Seq<char>, position: Position, line: Option<Seq<char>>) -> Option<
    (Seq<char>, nat, int, nat, int),
> {
    match line {
        Some(text) => Some(
            span_at(uri_path(uri), position.line as nat, text, position.character as nat),
        ),
        None => None,
    }
}

pub open spec fn text_view(line: Option<String>) -> Option<Seq<char>> {
    match line {
        Some(t) => Some(t@),
        None => None,
    }
}

/// Converts an editor position in document `uri` into the span of the
/// identifier under it, from `line`, the text of that line if there is one.
pub fn resolve_position(uri: &str, position: Position, line: Option<String>) -> (r: Option<Span>)
    requires
        line matches Some(text) ==> text@.len() < usize::MAX,
    ensures
        match r {
            Some(span) => resolve_spec(uri@, position, text_view(line)) == Some(
                span_view(span),
            ),
            None => resolve_spec(uri@, position, text_view(line)).is_none(),
        },
{
    match line {
        Some(text) => Some(span_in_line(path_of_uri(uri), position.line, text.as_str(), position.character)),
        None => None,
    }
}

} // verus!
