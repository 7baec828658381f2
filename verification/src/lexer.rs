use vstd::prelude::*;

use crate::error::{CompilerError, SourceLocation};
use crate::text::{push_char, str_to_string};

verus! {

/// Kinds of tokens of the C subset.
#[derive(Debug, Clone, Copy, PartialEq, Eq, Structural)]
pub enum TokenKind {
    Identifier,
    IntConstant,
    StringLiteral,
    KwInt,
    KwChar,
    KwVoid,
    KwStruct,
    KwEnum,
    KwStatic,
    KwTypedef,
    KwIf,
    KwElse,
    KwWhile,
    KwFor,
    KwReturn,
    KwBreak,
    KwContinue,
    KwAsm,
    LBrace,
    RBrace,
    LParen,
    RParen,
    LBracket,
    RBracket,
    Semicolon,
    Comma,
    Assign,
    EqualEqual,
    NotEqual,
    Less,
    LessEqual,
    Greater,
    GreaterEqual,
    ShiftLeft,
    ShiftRight,
    Plus,
    Minus,
    Star,
    Slash,
    Percent,
    Bang,
    Amp,
    AmpAmp,
    Pipe,
    PipePipe,
    Caret,
    Dot,
    Arrow,
    Tilde,
    Question,
    Colon,
    PlusPlus,
    MinusMinus,
    Eof,
}

/// A token with its text, its character span `[start, end)` and its 1-based position.
#[derive(Debug)]
pub struct Token {
    pub kind: TokenKind,
    pub text: String,
    pub start: usize,
    pub end: usize,
    pub line: usize,
    pub column: usize,
}

// ---------------------------------------------------------------------------
// Specification of tokens
// ---------------------------------------------------------------------------

/// Number of line breaks in a character sequence.
pub open spec fn spec_newlines(s: Seq<char>) -> nat
    decreases s.len(),
{
    if s.len() == 0 {
        0
    } else {
        spec_newlines(s.drop_last()) + if s.last() == '\n' { 1nat } else { 0nat }
    }
}

/// 1-based column of the position right after `s`.
pub open spec fn spec_column(s: Seq<char>) -> nat
    decreases s.len(),
{
    if s.len() == 0 {
        1
    } else if s.last() == '\n' {
        1
    } else {
        spec_column(s.drop_last()) + 1
    }
}

pub open spec fn spec_is_ident_start(c: char) -> bool {
    c == '_' || ('a' <= c <= 'z') || ('A' <= c <= 'Z')
}

pub open spec fn spec_is_ident_continue(c: char) -> bool {
    spec_is_ident_start(c) || ('0' <= c <= '9')
}

pub open spec fn spec_is_digit(c: char) -> bool {
    '0' <= c <= '9'
}

pub open spec fn spec_is_space(c: char) -> bool {
    c == ' ' || c == '\t' || c == '\n' || c == '\r'
}

/// Keywords of the subset.
pub open spec fn spec_keyword_kind(t: Seq<char>) -> Option<TokenKind> {
    if t == "int"@ { Some(TokenKind::KwInt) }
    else if t == "char"@ { Some(TokenKind::KwChar) }
    else if t == "void"@ { Some(TokenKind::KwVoid) }
    else if t == "struct"@ { Some(TokenKind::KwStruct) }
    else if t == "enum"@ { Some(TokenKind::KwEnum) }
    else if t == "static"@ { Some(TokenKind::KwStatic) }
    else if t == "typedef"@ { Some(TokenKind::KwTypedef) }
    else if t == "if"@ { Some(TokenKind::KwIf) }
    else if t == "else"@ { Some(TokenKind::KwElse) }
    else if t == "while"@ { Some(TokenKind::KwWhile) }
    else if t == "for"@ { Some(TokenKind::KwFor) }
    else if t == "return"@ { Some(TokenKind::KwReturn) }
    else if t == "break"@ { Some(TokenKind::KwBreak) }
    else if t == "continue"@ { Some(TokenKind::KwContinue) }
    else if t == "__asm"@ { Some(TokenKind::KwAsm) }
    else { None }
}

/// Two-character punctuators.
pub open spec fn spec_punct2_kind(t: Seq<char>) -> Option<TokenKind> {
    if t == "=="@ { Some(TokenKind::EqualEqual) }
    else if t == "!="@ { Some(TokenKind::NotEqual) }
    else if t == "<="@ { Some(TokenKind::LessEqual) }
    else if t == ">="@ { Some(TokenKind::GreaterEqual) }
    else if t == "<<"@ { Some(TokenKind::ShiftLeft) }
    else if t == ">>"@ { Some(TokenKind::ShiftRight) }
    else if t == "&&"@ { Some(TokenKind::AmpAmp) }
    else if t == "||"@ { Some(TokenKind::PipePipe) }
    else if t == "->"@ { Some(TokenKind::Arrow) }
    else if t == "++"@ { Some(TokenKind::PlusPlus) }
    else if t == "--"@ { Some(TokenKind::MinusMinus) }
    else { None }
}

/// One-character punctuators.
pub open spec fn spec_punct1_kind(c: char) -> Option<TokenKind> {
    if c == '{' { Some(TokenKind::LBrace) }
    else if c == '}' { Some(TokenKind::RBrace) }
    else if c == '(' { Some(TokenKind::LParen) }
    else if c == ')' { Some(TokenKind::RParen) }
    else if c == '[' { Some(TokenKind::LBracket) }
    else if c == ']' { Some(TokenKind::RBracket) }
    else if c == ';' { Some(TokenKind::Semicolon) }
    else if c == ',' { Some(TokenKind::Comma) }
    else if c == '=' { Some(TokenKind::Assign) }
    else if c == '<' { Some(TokenKind::Less) }
    else if c == '>' { Some(TokenKind::Greater) }
    else if c == '+' { Some(TokenKind::Plus) }
    else if c == '-' { Some(TokenKind::Minus) }
    else if c == '*' { Some(TokenKind::Star) }
    else if c == '/' { Some(TokenKind::Slash) }
    else if c == '%' { Some(TokenKind::Percent) }
    else if c == '!' { Some(TokenKind::Bang) }
    else if c == '&' { Some(TokenKind::Amp) }
    else if c == '|' { Some(TokenKind::Pipe) }
    else if c == '^' { Some(TokenKind::Caret) }
    else if c == '.' { Some(TokenKind::Dot) }
    else if c == '~' { Some(TokenKind::Tilde) }
    else if c == '?' { Some(TokenKind::Question) }
    else if c == ':' { Some(TokenKind::Colon) }
    else { None }
}

/// The kind of a token agrees with its text.
pub open spec fn spec_kind_matches(kind: TokenKind, t: Seq<char>) -> bool {
    match kind {
        TokenKind::Identifier => t.len() > 0 && spec_is_ident_start(t[0]) && (forall|i: int|
            0 <= i < t.len() ==> spec_is_ident_continue(#[trigger] t[i])) && spec_keyword_kind(t) is None,
        TokenKind::IntConstant => t.len() > 0 && forall|i: int| 0 <= i < t.len() ==> spec_is_digit(#[trigger] t[i]),
        TokenKind::StringLiteral => t.len() >= 2 && t[0] == '"' && t.last() == '"',
        TokenKind::Eof => false,
        k => spec_keyword_kind(t) == Some(k) || spec_punct2_kind(t) == Some(k) || (t.len() == 1
            && spec_punct1_kind(t[0]) == Some(k)),
    }
}

/// A token read from `src`: its text is the source between its bounds, its kind fits the text,
/// and its line and column are those of its first character.
pub open spec fn spec_token_ok(src: Seq<char>, t: Token) -> bool {
    &&& t.start < t.end <= src.len()
    &&& t.text@ == src.subrange(t.start as int, t.end as int)
    &&& spec_kind_matches(t.kind, t.text@)
    &&& t.line == 1 + spec_newlines(src.take(t.start as int))
    &&& t.column == spec_column(src.take(t.start as int))
}

// ---------------------------------------------------------------------------
// Specification of scanning
// ---------------------------------------------------------------------------

/// End of the line comment text from `j`: the next line break, or the end of input.
pub open spec fn spec_line_end(src: Seq<char>, j: int) -> int
    decreases src.len() - j,
{
    if j < 0 || j >= src.len() || src[j] == '\n' {
        j
    } else {
        spec_line_end(src, j + 1)
    }
}

/// Position of the `*/` that closes a block comment, searching from `j`; a position with
/// no room for `*/` when there is none.
pub open spec fn spec_comment_close(src: Seq<char>, j: int) -> int
    decreases src.len() - j,
{
    if j < 0 || j + 1 >= src.len() || (src[j] == '*' && src[j + 1] == '/') {
        j
    } else {
        spec_comment_close(src, j + 1)
    }
}

/// End of the run of identifier characters from `j`.
pub open spec fn spec_ident_run(src: Seq<char>, j: int) -> int
    decreases src.len() - j,
{
    if 0 <= j < src.len() && spec_is_ident_continue(src[j]) {
        spec_ident_run(src, j + 1)
    } else {
        j
    }
}

/// End of the run of digits from `j`.
pub open spec fn spec_digit_run(src: Seq<char>, j: int) -> int
    decreases src.len() - j,
{
    if 0 <= j < src.len() && spec_is_digit(src[j]) {
        spec_digit_run(src, j + 1)
    } else {
        j
    }
}

/// Position of the `"` that closes a string literal, searching from `j` (a backslash skips
/// the character after it); the end of input when there is none.
pub open spec fn spec_string_close(src: Seq<char>, j: int) -> int
    decreases src.len() - j,
{
    if j < 0 || j >= src.len() || src[j] == '"' {
        j
    } else if src[j] == '\\' && j + 1 < src.len() {
        spec_string_close(src, j + 2)
    } else {
        spec_string_close(src, j + 1)
    }
}

/// What the scanner does at a position: skip to a position, read a token ending at a
/// position, or fail.
pub enum ScanStep {
    Skip(int),
    Tok(TokenKind, int),
    Fail,
}

/// The scanner's step at position `i` (with `i` inside the source).
pub open spec fn spec_next(src: Seq<char>, i: int) -> ScanStep {
    let n = src.len();
    let c = src[i];
    if spec_is_space(c) {
        ScanStep::Skip(i + 1)
    } else if c == '/' && i + 1 < n && src[i + 1] == '/' {
        ScanStep::Skip(spec_line_end(src, i + 2))
    } else if c == '/' && i + 1 < n && src[i + 1] == '*' {
        let j = spec_comment_close(src, i + 2);
        if j + 1 >= n {
            ScanStep::Fail
        } else {
            ScanStep::Skip(j + 2)
        }
    } else if spec_is_ident_start(c) {
        let e = spec_ident_run(src, i + 1);
        match spec_keyword_kind(src.subrange(i, e)) {
            Some(k) => ScanStep::Tok(k, e),
            None => ScanStep::Tok(TokenKind::Identifier, e),
        }
    } else if spec_is_digit(c) {
        ScanStep::Tok(TokenKind::IntConstant, spec_digit_run(src, i + 1))
    } else if c == '"' {
        let e = spec_string_close(src, i + 1);
        if e >= n {
            ScanStep::Fail
        } else {
            ScanStep::Tok(TokenKind::StringLiteral, e + 1)
        }
    } else {
        match if i + 1 < n { spec_punct2_kind(src.subrange(i, i + 2)) } else { None } {
            Some(k) => ScanStep::Tok(k, i + 2),
            None => match spec_punct1_kind(c) {
                Some(k) => ScanStep::Tok(k, i + 1),
                None => ScanStep::Fail,
            },
        }
    }
}

pub proof fn lemma_runs(src: Seq<char>, j: int)
    requires
        0 <= j <= src.len(),
    ensures
        j <= spec_line_end(src, j) <= src.len(),
        j <= spec_comment_close(src, j),
        spec_comment_close(src, j) + 1 < src.len() ==> src[spec_comment_close(src, j)] == '*',
        j <= spec_ident_run(src, j) <= src.len(),
        j <= spec_digit_run(src, j) <= src.len(),
        j <= spec_string_close(src, j) <= src.len(),
    decreases src.len() - j,
{
    if j < src.len() {
        lemma_runs(src, j + 1);
        if j + 1 < src.len() {
            lemma_runs(src, j + 2);
        }
    }
}

/// Every step that does not fail moves forward, and stays inside the source.
pub proof fn lemma_next_advances(src: Seq<char>, i: int)
    requires
        0 <= i < src.len(),
    ensures
        match spec_next(src, i) {
            ScanStep::Skip(j) => i < j <= src.len(),
            ScanStep::Tok(_, j) => i < j <= src.len(),
            ScanStep::Fail => true,
        },
{
    lemma_runs(src, i + 1);
    if i + 2 <= src.len() {
        lemma_runs(src, i + 2);
    }
}

/// The tokens of `src` from position `i` on, as kinds and spans; `None` when scanning fails.
pub open spec fn spec_scan(src: Seq<char>, i: int) -> Option<Seq<(TokenKind, int, int)>>
    decreases src.len() - i,
{
    if i < 0 || i >= src.len() {
        Some(Seq::empty())
    } else {
        proof {
            lemma_next_advances(src, i);
        }
        match spec_next(src, i) {
            ScanStep::Skip(j) => spec_scan(src, j),
            ScanStep::Tok(k, j) => match spec_scan(src, j) {
                Some(rest) => Some(seq![(k, i, j)] + rest),
                None => None,
            },
            ScanStep::Fail => None,
        }
    }
}

/// The message of a scanning failure at `i`.
pub open spec fn fail_message(src: Seq<char>, i: int) -> Seq<char> {
    if src[i] == '/' && i + 1 < src.len() && src[i + 1] == '*' {
        "unterminated comment"@
    } else if src[i] == '"' {
        "unterminated string literal"@
    } else {
        "unexpected character"@
    }
}

/// The 1-based position of the character at `i`.
pub open spec fn position_at(src: Seq<char>, i: int) -> SourceLocation {
    SourceLocation {
        line: (1 + spec_newlines(src.take(i))) as usize,
        column: spec_column(src.take(i)) as usize,
    }
}

/// Message and position of the first scanning failure from `i` on (meaningful when
/// `spec_scan` fails).
pub open spec fn scan_failure(src: Seq<char>, i: int) -> (Seq<char>, SourceLocation)
    decreases src.len() - i,
{
    if i < 0 || i >= src.len() {
        (Seq::empty(), position_at(src, i))
    } else {
        proof {
            lemma_next_advances(src, i);
        }
        match spec_next(src, i) {
            ScanStep::Skip(j) => scan_failure(src, j),
            ScanStep::Tok(_, j) => scan_failure(src, j),
            ScanStep::Fail => (fail_message(src, i), position_at(src, i)),
        }
    }
}

/// Kinds and spans of a sequence of tokens.
pub open spec fn spans(ts: Seq<Token>) -> Seq<(TokenKind, int, int)> {
    ts.map_values(|t: Token| (t.kind, t.start as int, t.end as int))
}

/// A token stream for `src`: exactly the tokens that scanning `src` gives, in order, each with
/// its text and position, then one end-of-input token.
pub open spec fn spec_tokens_ok(src: Seq<char>, ts: Seq<Token>) -> bool {
    &&& ts.len() > 0
    &&& spec_scan(src, 0) == Some(spans(ts.drop_last()))
    &&& ts.last().kind == TokenKind::Eof
    &&& ts.last().start == src.len()
    &&& ts.last().end == src.len()
    &&& ts.last().text@ == Seq::<char>::empty()
    &&& ts.last().line == 1 + spec_newlines(src)
    &&& ts.last().column == spec_column(src)
    &&& forall|i: int| 0 <= i < ts.len() - 1 ==> spec_token_ok(src, #[trigger] ts[i])
    &&& forall|i: int, j: int| 0 <= i < j < ts.len() ==> ts[i].end <= ts[j].start
}

/// Lexing is deterministic: any two token streams for one source agree, token by token, on
/// kind, span, text, line and column.
pub proof fn law_token_stream_is_unique(src: Seq<char>, ts1: Seq<Token>, ts2: Seq<Token>)
    requires
        spec_tokens_ok(src, ts1),
        spec_tokens_ok(src, ts2),
    ensures
        ts1.len() == ts2.len(),
        forall|k: int| #![trigger ts1[k], ts2[k]] 0 <= k < ts1.len() ==> {
            &&& ts1[k].kind == ts2[k].kind
            &&& ts1[k].start == ts2[k].start
            &&& ts1[k].end == ts2[k].end
            &&& ts1[k].text@ == ts2[k].text@
            &&& ts1[k].line == ts2[k].line
            &&& ts1[k].column == ts2[k].column
        },
{
    let a = spans(ts1.drop_last());
    let b = spans(ts2.drop_last());
    assert(a == b);
    assert forall|k: int| #![trigger ts1[k], ts2[k]] 0 <= k < ts1.len() implies {
        &&& ts1[k].kind == ts2[k].kind
        &&& ts1[k].start == ts2[k].start
        &&& ts1[k].end == ts2[k].end
        &&& ts1[k].text@ == ts2[k].text@
        &&& ts1[k].line == ts2[k].line
        &&& ts1[k].column == ts2[k].column
    } by {
        if k < ts1.len() - 1 {
            assert(a[k] == (ts1[k].kind, ts1[k].start as int, ts1[k].end as int));
            assert(b[k] == (ts2[k].kind, ts2[k].start as int, ts2[k].end as int));
            assert(spec_token_ok(src, ts1[k]));
            assert(spec_token_ok(src, ts2[k]));
        }
    }
}

// ---------------------------------------------------------------------------
// Executable lexer
// ---------------------------------------------------------------------------

/// `r` with `p` put in front of its token spans.
pub open spec fn prepend_spans(p: Seq<(TokenKind, int, int)>, r: Option<Seq<(TokenKind, int, int)>>) -> Option<Seq<(TokenKind, int, int)>> {
    match r {
        Some(x) => Some(p + x),
        None => None,
    }
}

proof fn lemma_prepend_spans_push(ts: Seq<Token>, t: Token, r: Option<Seq<(TokenKind, int, int)>>)
    ensures
        prepend_spans(spans(ts), prepend_spans(seq![(t.kind, t.start as int, t.end as int)], r))
            == prepend_spans(spans(ts.push(t)), r),
{
    assert(spans(ts.push(t)) =~= spans(ts).push((t.kind, t.start as int, t.end as int)));
    match r {
        Some(x) => {
            assert(spans(ts) + (seq![(t.kind, t.start as int, t.end as int)] + x)
                =~= spans(ts.push(t)) + x);
        },
        None => {},
    }
}

pub proof fn lemma_position_bounds(s: Seq<char>)
    ensures
        spec_newlines(s) <= s.len(),
        1 <= spec_column(s) <= s.len() + 1,
    decreases s.len(),
{
    if s.len() > 0 {
        lemma_position_bounds(s.drop_last());
    }
}

/// Moves the position tracker from `i` to `j`.
fn advance(src: &Vec<char>, i: usize, j: usize, line: usize, column: usize) -> (r: (usize, usize))
    requires
        i <= j <= src.len(),
        src.len() < usize::MAX,
        line == 1 + spec_newlines(src@.take(i as int)),
        column == spec_column(src@.take(i as int)),
    ensures
        r.0 == 1 + spec_newlines(src@.take(j as int)),
        r.1 == spec_column(src@.take(j as int)),
{
    let mut k = i;
    let mut l = line;
    let mut c = column;
    while k < j
        invariant
            i <= k <= j <= src.len(),
            src.len() < usize::MAX,
            l == 1 + spec_newlines(src@.take(k as int)),
            c == spec_column(src@.take(k as int)),
        decreases j - k,
    {
        proof {
            lemma_position_bounds(src@.take(k as int));
            assert(src@.take(k + 1).drop_last() =~= src@.take(k as int));
            assert(src@.take(k + 1).last() == src@[k as int]);
        }
        if src[k] == '\n' {
            l = l + 1;
            c = 1;
        } else {
            c = c + 1;
        }
        k = k + 1;
    }
    (l, c)
}

/// Whether `src[start..start+len(lit))` spells `lit`.
fn range_is(src: &Vec<char>, start: usize, lit: &str) -> (r: bool)
    requires
        start <= src.len(),
    ensures
        r == (start + lit@.len() <= src.len() && src@.subrange(start as int, start + lit@.len()) == lit@),
{
    let n = lit.unicode_len();
    if n > src.len() - start {
        return false;
    }
    let mut k: usize = 0;
    while k < n
        invariant
            0 <= k <= n,
            n == lit@.len(),
            start + n <= src.len(),
            forall|m: int| 0 <= m < k ==> src@[start + m] == lit@[m],
        decreases n - k,
    {
        if src[start + k] != lit.get_char(k) {
            assert(src@.subrange(start as int, start + n)[k as int] != lit@[k as int]);
            return false;
        }
        k += 1;
    }
    assert(src@.subrange(start as int, start + n) =~= lit@);
    true
}

/// Whether `src[start..end)` spells `lit`.
fn span_is(src: &Vec<char>, start: usize, end: usize, lit: &str) -> (r: bool)
    requires
        start <= end <= src.len(),
    ensures
        r == (src@.subrange(start as int, end as int) == lit@),
{
    if end - start != lit.unicode_len() {
        assert(src@.subrange(start as int, end as int).len() != lit@.len());
        return false;
    }
    range_is(src, start, lit)
}

/// The keyword spelled by `src[start..end)`, if any.
fn keyword_kind(src: &Vec<char>, start: usize, end: usize) -> (r: Option<TokenKind>)
    requires
        start <= end <= src.len(),
    ensures
        r == spec_keyword_kind(src@.subrange(start as int, end as int)),
{
    if span_is(src, start, end, "int") { return Some(TokenKind::KwInt); }
    if span_is(src, start, end, "char") { return Some(TokenKind::KwChar); }
    if span_is(src, start, end, "void") { return Some(TokenKind::KwVoid); }
    if span_is(src, start, end, "struct") { return Some(TokenKind::KwStruct); }
    if span_is(src, start, end, "enum") { return Some(TokenKind::KwEnum); }
    if span_is(src, start, end, "static") { return Some(TokenKind::KwStatic); }
    if span_is(src, start, end, "typedef") { return Some(TokenKind::KwTypedef); }
    if span_is(src, start, end, "if") { return Some(TokenKind::KwIf); }
    if span_is(src, start, end, "else") { return Some(TokenKind::KwElse); }
    if span_is(src, start, end, "while") { return Some(TokenKind::KwWhile); }
    if span_is(src, start, end, "for") { return Some(TokenKind::KwFor); }
    if span_is(src, start, end, "return") { return Some(TokenKind::KwReturn); }
    if span_is(src, start, end, "break") { return Some(TokenKind::KwBreak); }
    if span_is(src, start, end, "continue") { return Some(TokenKind::KwContinue); }
    if span_is(src, start, end, "__asm") { return Some(TokenKind::KwAsm); }
    None
}

/// The two-character punctuator spelled by `src[start..end)`, if any.
fn punct2_kind(src: &Vec<char>, start: usize, end: usize) -> (r: Option<TokenKind>)
    requires
        start <= end <= src.len(),
    ensures
        r == spec_punct2_kind(src@.subrange(start as int, end as int)),
{
    if span_is(src, start, end, "==") { return Some(TokenKind::EqualEqual); }
    if span_is(src, start, end, "!=") { return Some(TokenKind::NotEqual); }
    if span_is(src, start, end, "<=") { return Some(TokenKind::LessEqual); }
    if span_is(src, start, end, ">=") { return Some(TokenKind::GreaterEqual); }
    if span_is(src, start, end, "<<") { return Some(TokenKind::ShiftLeft); }
    if span_is(src, start, end, ">>") { return Some(TokenKind::ShiftRight); }
    if span_is(src, start, end, "&&") { return Some(TokenKind::AmpAmp); }
    if span_is(src, start, end, "||") { return Some(TokenKind::PipePipe); }
    if span_is(src, start, end, "->") { return Some(TokenKind::Arrow); }
    if span_is(src, start, end, "++") { return Some(TokenKind::PlusPlus); }
    if span_is(src, start, end, "--") { return Some(TokenKind::MinusMinus); }
    None
}

/// The one-character punctuator `c`, if any.
fn punct1_kind(c: char) -> (r: Option<TokenKind>)
    ensures
        r == spec_punct1_kind(c),
{
    if c == '{' { return Some(TokenKind::LBrace); }
    if c == '}' { return Some(TokenKind::RBrace); }
    if c == '(' { return Some(TokenKind::LParen); }
    if c == ')' { return Some(TokenKind::RParen); }
    if c == '[' { return Some(TokenKind::LBracket); }
    if c == ']' { return Some(TokenKind::RBracket); }
    if c == ';' { return Some(TokenKind::Semicolon); }
    if c == ',' { return Some(TokenKind::Comma); }
    if c == '=' { return Some(TokenKind::Assign); }
    if c == '<' { return Some(TokenKind::Less); }
    if c == '>' { return Some(TokenKind::Greater); }
    if c == '+' { return Some(TokenKind::Plus); }
    if c == '-' { return Some(TokenKind::Minus); }
    if c == '*' { return Some(TokenKind::Star); }
    if c == '/' { return Some(TokenKind::Slash); }
    if c == '%' { return Some(TokenKind::Percent); }
    if c == '!' { return Some(TokenKind::Bang); }
    if c == '&' { return Some(TokenKind::Amp); }
    if c == '|' { return Some(TokenKind::Pipe); }
    if c == '^' { return Some(TokenKind::Caret); }
    if c == '.' { return Some(TokenKind::Dot); }
    if c == '~' { return Some(TokenKind::Tilde); }
    if c == '?' { return Some(TokenKind::Question); }
    if c == ':' { return Some(TokenKind::Colon); }
    None
}

fn is_ident_start(c: char) -> (r: bool)
    ensures
        r == spec_is_ident_start(c),
{
    c == '_' || ('a' <= c && c <= 'z') || ('A' <= c && c <= 'Z')
}

fn is_ident_continue(c: char) -> (r: bool)
    ensures
        r == spec_is_ident_continue(c),
{
    is_ident_start(c) || ('0' <= c && c <= '9')
}

fn is_digit(c: char) -> (r: bool)
    ensures
        r == spec_is_digit(c),
{
    '0' <= c && c <= '9'
}

/// A string holding `src[start..end)`.
fn string_of_span(src: &Vec<char>, start: usize, end: usize) -> (r: String)
    requires
        start <= end <= src.len(),
    ensures
        r@ == src@.subrange(start as int, end as int),
{
    let mut r = String::new();
    let mut k = start;
    while k < end
        invariant
            start <= k <= end <= src.len(),
            r@ == src@.subrange(start as int, k as int),
        decreases end - k,
    {
        push_char(&mut r, src[k]);
        assert(src@.subrange(start as int, k + 1) =~= src@.subrange(start as int, k as int).push(src@[k as int]));
        k += 1;
    }
    r
}

fn lex_error(message: &str, line: usize, column: usize) -> (r: CompilerError)
    ensures
        r matches CompilerError::Parse(d) && d.message@ == message@
            && d.location == Some(SourceLocation { line, column }),
{
    CompilerError::parse_at(str_to_string(message), SourceLocation { line, column })
}

/// Splits source characters into tokens.
#[verifier::loop_isolation(false)]
#[verifier::rlimit(50)]
pub fn lex(src: &Vec<char>) -> (r: Result<Vec<Token>, CompilerError>)
    requires
        src.len() < usize::MAX,
    ensures
        match r {
            Ok(ts) => spec_tokens_ok(src@, ts@),
            Err(e) => spec_scan(src@, 0) is None && (e matches CompilerError::Parse(d)
                && d.message@ == scan_failure(src@, 0).0 && d.location == Some(scan_failure(src@, 0).1)),
        },
{
    let n = src.len();
    let mut tokens: Vec<Token> = Vec::new();
    let mut i: usize = 0;
    let mut line: usize = 1;
    let mut column: usize = 1;
    assert(src@.take(0) =~= Seq::<char>::empty());
    assert(spans(tokens@) =~= Seq::<(TokenKind, int, int)>::empty());
    assert(spec_scan(src@, 0) == prepend_spans(spans(tokens@), spec_scan(src@, 0)));
    proof {
        lemma_position_bounds(src@);
    }
    while i < n
        invariant
            0 <= i <= n,
            n == src.len(),
            n < usize::MAX,
            line == 1 + spec_newlines(src@.take(i as int)),
            column == spec_column(src@.take(i as int)),
            forall|a: int| 0 <= a < tokens.len() ==> spec_token_ok(src@, #[trigger] tokens@[a]) && tokens@[a].end <= i,
            forall|a: int, b: int| 0 <= a < b < tokens.len() ==> tokens@[a].end <= tokens@[b].start,
            spec_scan(src@, 0) == prepend_spans(spans(tokens@), spec_scan(src@, i as int)),
            scan_failure(src@, 0) == scan_failure(src@, i as int),
        decreases n - i,
    {
        let c = src[i];
        proof {
            lemma_next_advances(src@, i as int);
        }
        if c == ' ' || c == '\t' || c == '\n' || c == '\r' {
            let (l, co) = advance(src, i, i + 1, line, column);
            line = l;
            column = co;
            i = i + 1;
            continue;
        }
        if c == '/' && i + 1 < n && src[i + 1] == '/' {
            let mut j = i + 2;
            while j < n && src[j] != '\n'
                invariant
                    i + 2 <= j <= n,
                    spec_line_end(src@, i + 2) == spec_line_end(src@, j as int),
                decreases n - j,
            {
                j += 1;
            }
            let (l, co) = advance(src, i, j, line, column);
            line = l;
            column = co;
            i = j;
            continue;
        }
        if c == '/' && i + 1 < n && src[i + 1] == '*' {
            let mut j = i + 2;
            while j + 1 < n && !(src[j] == '*' && src[j + 1] == '/')
                invariant
                    i + 2 <= j <= n,
                    spec_comment_close(src@, i + 2) == spec_comment_close(src@, j as int),
                decreases n - j,
            {
                j += 1;
            }
            if j + 1 >= n {
                return Err(lex_error("unterminated comment", line, column));
            }
            let (l, co) = advance(src, i, j + 2, line, column);
            line = l;
            column = co;
            i = j + 2;
            continue;
        }
        let start = i;
        let mut end = i + 1;
        let kind: TokenKind;
        if is_ident_start(c) {
            while end < n && is_ident_continue(src[end])
                invariant
                    start < end <= n,
                    forall|m: int| start <= m < end ==> spec_is_ident_continue(#[trigger] src@[m]),
                    spec_ident_run(src@, start + 1) == spec_ident_run(src@, end as int),
                decreases n - end,
            {
                end += 1;
            }
            kind = match keyword_kind(src, start, end) {
                Some(k) => k,
                None => TokenKind::Identifier,
            };
            assert(forall|m: int| 0 <= m < end - start ==> #[trigger] src@.subrange(start as int, end as int)[m] == src@[start + m]);
        } else if is_digit(c) {
            while end < n && is_digit(src[end])
                invariant
                    start < end <= n,
                    forall|m: int| start <= m < end ==> spec_is_digit(#[trigger] src@[m]),
                    spec_digit_run(src@, start + 1) == spec_digit_run(src@, end as int),
                decreases n - end,
            {
                end += 1;
            }
            kind = TokenKind::IntConstant;
            assert(forall|m: int| 0 <= m < end - start ==> #[trigger] src@.subrange(start as int, end as int)[m] == src@[start + m]);
        } else if c == '"' {
            while end < n && src[end] != '"'
                invariant
                    start < end <= n,
                    spec_string_close(src@, start + 1) == spec_string_close(src@, end as int),
                decreases n - end,
            {
                if src[end] == '\\' && end + 1 < n {
                    end += 2;
                } else {
                    end += 1;
                }
            }
            if end >= n {
                return Err(lex_error("unterminated string literal", line, column));
            }
            end += 1;
            kind = TokenKind::StringLiteral;
        } else {
            let two = if i + 1 < n { punct2_kind(src, i, i + 2) } else { None };
            match two {
                Some(k) => {
                    end = i + 2;
                    kind = k;
                },
                None => match punct1_kind(c) {
                    Some(k) => {
                        kind = k;
                    },
                    None => {
                        return Err(lex_error("unexpected character", line, column));
                    },
                },
            }
        }
        let text = string_of_span(src, start, end);
        let token = Token { kind, text, start, end, line, column };
        assert(spec_token_ok(src@, token));
        let ghost before = tokens@;
        tokens.push(token);
        proof {
            assert(spec_next(src@, i as int) == ScanStep::Tok(kind, end as int));
            lemma_prepend_spans_push(before, token, spec_scan(src@, end as int));
        }
        let (l, co) = advance(src, i, end, line, column);
        line = l;
        column = co;
        i = end;
    }
    assert(src@.take(n as int) =~= src@);
    let ghost body = tokens@;
    let eof = Token { kind: TokenKind::Eof, text: String::new(), start: n, end: n, line, column };
    assert(eof.text@ =~= Seq::<char>::empty());
    tokens.push(eof);
    assert(tokens@.drop_last() =~= body);
    assert(spans(body) + Seq::<(TokenKind, int, int)>::empty() =~= spans(body));
    Ok(tokens)
}

} // verus!
