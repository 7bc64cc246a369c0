//! Lexer of the script language.
//!
//! Blocks are delimited by explicit markers; indentation has no meaning.
//! `--` starts a comment that runs to the end of its line.

use crate::text::{concat2, concat3, from_chars, str_eq, to_chars};
use crate::token::{LineCol, LocSpan, Token, TokenKind};
use crate::token;
use vstd::prelude::*;

verus! {

/// A lexical error with its location.
#[derive(Debug, Clone)]
pub struct LexError<S = String> {
    pub message: S,
    pub span: LocSpan,
}

impl View for LexError<String> {
    type V = LexError<Seq<char>>;

    open spec fn view(&self) -> LexError<Seq<char>> {
        LexError { message: self.message@, span: self.span }
    }
}

/// The views of a sequence of lexical errors.
pub open spec fn lex_error_views(s: Seq<LexError>) -> Seq<LexError<Seq<char>>> {
    Seq::new(s.len(), |i: int| s[i]@)
}

// ---------------------------------------------------------------------------
// Locations
// ---------------------------------------------------------------------------

/// The next count; a count stays at the largest `usize`.
pub open spec fn bump(n: usize) -> usize {
    if n < usize::MAX { (n + 1) as usize } else { n }
}

/// The line and column of position `i`: one more than the number of newlines
/// before it, and one more than the number of characters since the last of them.
pub open spec fn linecol_at(cs: Seq<char>, i: int) -> LineCol
    decreases i,
{
    if i <= 0 {
        LineCol { line: 1, col: 1 }
    } else {
        let before = linecol_at(cs, i - 1);
        if cs[i - 1] == '\n' {
            LineCol { line: bump(before.line), col: 1 }
        } else {
            LineCol { line: before.line, col: bump(before.col) }
        }
    }
}

/// The span of the characters from `i` up to `j`.
pub open spec fn span_between(cs: Seq<char>, i: int, j: int) -> LocSpan {
    LocSpan {
        start: i as usize,
        end: j as usize,
        start_linecol: linecol_at(cs, i),
        end_linecol: linecol_at(cs, j),
    }
}

/// The location of position `j`, from that of an earlier position `i`.
fn linecol_from(cs: &Vec<char>, i: usize, j: usize, at_i: LineCol) -> (lc: LineCol)
    requires
        i <= j <= cs@.len(),
        at_i == linecol_at(cs@, i as int),
    ensures
        lc == linecol_at(cs@, j as int),
{
    let mut k: usize = i;
    let mut line: usize = at_i.line;
    let mut col: usize = at_i.col;
    while k < j
        invariant
            i <= k <= j <= cs@.len(),
            (LineCol { line, col }) == linecol_at(cs@, k as int),
        decreases j - k,
    {
        if cs[k] == '\n' {
            line = line.saturating_add(1);
            col = 1;
        } else {
            col = col.saturating_add(1);
        }
        k = k + 1;
    }
    LineCol { line, col }
}

// ---------------------------------------------------------------------------
// Character classes
// ---------------------------------------------------------------------------

pub open spec fn is_digit(c: char) -> bool {
    '0' <= c && c <= '9'
}

/// A letter that may start an identifier: an ASCII letter, the underscore or a
/// Chinese ideograph.
pub open spec fn is_ident_start(c: char) -> bool {
    ||| 'a' <= c && c <= 'z'
    ||| 'A' <= c && c <= 'Z'
    ||| c == '_'
    ||| '\u{3400}' <= c && c <= '\u{4dbf}'
    ||| '\u{4e00}' <= c && c <= '\u{9fff}'
}

pub open spec fn is_ident_char(c: char) -> bool {
    is_ident_start(c) || is_digit(c)
}

fn digit(c: char) -> (r: bool)
    ensures
        r == is_digit(c),
{
    '0' <= c && c <= '9'
}

fn ident_start(c: char) -> (r: bool)
    ensures
        r == is_ident_start(c),
{
    ('a' <= c && c <= 'z') || ('A' <= c && c <= 'Z') || c == '_' || ('\u{3400}' <= c && c
        <= '\u{4dbf}') || ('\u{4e00}' <= c && c <= '\u{9fff}')
}

// ---------------------------------------------------------------------------
// Lexemes
// ---------------------------------------------------------------------------

/// What one lexeme contributes.
pub enum Lexeme {
    /// Blanks and comments.
    Nothing,
    /// The end of a line.
    LineEnd,
    Kind(TokenKind<Seq<char>>),
    /// An error message.
    Bad(Seq<char>),
}

/// One lexeme: what it is, where its span ends and where the next one starts.
pub struct Scan {
    pub lexeme: Lexeme,
    pub span_end: int,
    pub next: int,
}

/// A token that takes the characters from `i` up to `j`.
pub open spec fn kind_scan(k: TokenKind<Seq<char>>, j: int) -> Scan {
    Scan { lexeme: Lexeme::Kind(k), span_end: j, next: j }
}

/// An error that takes the characters up to `j`.
pub open spec fn bad_scan(message: Seq<char>, j: int) -> Scan {
    Scan { lexeme: Lexeme::Bad(message), span_end: j, next: j }
}

/// Whether the character at `i` is `c`.
pub open spec fn char_is(cs: Seq<char>, i: int, c: char) -> bool {
    0 <= i < cs.len() && cs[i] == c
}

/// The end of the line that `i` is on.
pub open spec fn line_end(cs: Seq<char>, i: int) -> int
    decreases cs.len() - i,
{
    if 0 <= i < cs.len() && cs[i] != '\n' {
        line_end(cs, i + 1)
    } else {
        i
    }
}

/// The end of the identifier characters from `i` on.
pub open spec fn ident_end(cs: Seq<char>, i: int) -> int
    decreases cs.len() - i,
{
    if 0 <= i < cs.len() && is_ident_char(cs[i]) {
        ident_end(cs, i + 1)
    } else {
        i
    }
}

/// The end of the digits from `i` on.
pub open spec fn digits_end(cs: Seq<char>, i: int) -> int
    decreases cs.len() - i,
{
    if 0 <= i < cs.len() && is_digit(cs[i]) {
        digits_end(cs, i + 1)
    } else {
        i
    }
}

/// The value of a sequence of decimal digits.
pub open spec fn digits_value(s: Seq<char>) -> nat
    decreases s.len(),
{
    if s.len() == 0 {
        0
    } else {
        digits_value(s.drop_last()) * 10 + (s.last() as nat - '0' as nat) as nat
    }
}

/// The number that starts at `i`: digits, and where a point with a digit
/// behind it follows, a fraction.
pub open spec fn number_scan(cs: Seq<char>, i: int) -> Scan {
    let whole = digits_end(cs, i);
    if char_is(cs, whole, '.') && whole + 1 < cs.len() && is_digit(cs[whole + 1]) {
        let end = digits_end(cs, whole + 1);
        kind_scan(TokenKind::Float(cs.subrange(i, end)), end)
    } else {
        let digits = cs.subrange(i, whole);
        if digits_value(digits) <= i64::MAX {
            kind_scan(TokenKind::Integer(digits_value(digits) as i64), whole)
        } else {
            bad_scan("invalid integer: "@ + digits, whole)
        }
    }
}

/// The token of a word.
pub open spec fn word_kind(s: Seq<char>) -> TokenKind<Seq<char>> {
    if s == "if"@ {
        TokenKind::If
    } else if s == "else"@ {
        TokenKind::Else
    } else if s == "end"@ {
        TokenKind::End
    } else if s == "wait"@ {
        TokenKind::Wait
    } else if s == "and"@ {
        TokenKind::And
    } else if s == "or"@ {
        TokenKind::Or
    } else if s == "not"@ {
        TokenKind::Not
    } else if s == "true"@ {
        TokenKind::Integer(1)
    } else if s == "false"@ {
        TokenKind::Integer(0)
    } else {
        TokenKind::Ident(s)
    }
}

/// What an escaped character stands for.
pub open spec fn escape(c: char) -> Seq<char> {
    if c == 'n' {
        seq!['\n']
    } else if c == 't' {
        seq!['\t']
    } else if c == 'r' {
        seq!['\r']
    } else if c == '\\' || c == '"' || c == '\'' {
        seq![c]
    } else {
        seq!['\\', c]
    }
}

/// The rest of a string from `i` on, after `value` was read.
pub open spec fn string_scan(cs: Seq<char>, i: int, quote: char, value: Seq<char>) -> Scan
    decreases cs.len() - i,
{
    if i < 0 || i >= cs.len() {
        bad_scan("unterminated string literal"@, i)
    } else if cs[i] == quote {
        kind_scan(TokenKind::String(value), i + 1)
    } else if cs[i] == '\\' {
        if i + 1 >= cs.len() {
            bad_scan("unterminated escape sequence"@, i + 1)
        } else {
            string_scan(cs, i + 2, quote, value + escape(cs[i + 1]))
        }
    } else if cs[i] == '\n' {
        bad_scan("unterminated string (newline in string)"@, i)
    } else {
        string_scan(cs, i + 1, quote, value.push(cs[i]))
    }
}

/// The token of a character that is a token by itself.
pub open spec fn single_kind(c: char) -> Option<TokenKind<Seq<char>>> {
    if c == '#' {
        Some(TokenKind::SectionMark)
    } else if c == '?' {
        Some(TokenKind::Question)
    } else if c == '|' {
        Some(TokenKind::Pipe)
    } else if c == '@' {
        Some(TokenKind::At)
    } else if c == '$' {
        Some(TokenKind::Dollar)
    } else if c == ':' {
        Some(TokenKind::Colon)
    } else if c == '(' {
        Some(TokenKind::LParen)
    } else if c == ')' {
        Some(TokenKind::RParen)
    } else if c == ',' {
        Some(TokenKind::Comma)
    } else if c == '*' {
        Some(TokenKind::Star)
    } else if c == '/' {
        Some(TokenKind::Slash)
    } else {
        None
    }
}

/// The token of two characters that belong together.
pub open spec fn double_kind(c: char, d: char) -> Option<TokenKind<Seq<char>>> {
    if c == '~' && d == '~' {
        Some(TokenKind::StoryEnd)
    } else if c == '+' && d == '=' {
        Some(TokenKind::PlusEq)
    } else if c == '=' && d == '=' {
        Some(TokenKind::EqEq)
    } else if c == '=' && d == '>' {
        Some(TokenKind::VisitArrow)
    } else if c == '!' && d == '=' {
        Some(TokenKind::NotEq)
    } else if c == '<' && d == '=' {
        Some(TokenKind::LtEq)
    } else if c == '>' && d == '=' {
        Some(TokenKind::GtEq)
    } else if c == '-' && d == '>' {
        Some(TokenKind::FlowArrow)
    } else if c == '-' && d == '=' {
        Some(TokenKind::MinusEq)
    } else {
        None
    }
}

/// The token of a character that begins a longer token, where it stands alone.
pub open spec fn lone_kind(c: char) -> Option<TokenKind<Seq<char>>> {
    if c == '+' {
        Some(TokenKind::Plus)
    } else if c == '=' {
        Some(TokenKind::Assign)
    } else if c == '!' {
        Some(TokenKind::Not)
    } else if c == '<' {
        Some(TokenKind::Lt)
    } else if c == '>' {
        Some(TokenKind::Gt)
    } else if c == '-' {
        Some(TokenKind::Minus2)
    } else {
        None
    }
}

/// How the character at `i`, or the absence of one, reads in a message.
pub open spec fn debug_at(cs: Seq<char>, i: int) -> Seq<char> {
    if 0 <= i < cs.len() {
        "Some("@ + char_debug(cs[i]) + ")"@
    } else {
        "None"@
    }
}

/// The lexeme that starts at position `i` of the source.
pub open spec fn scan_at(cs: Seq<char>, i: int) -> Scan {
    let c = cs[i];
    if c == ' ' || c == '\t' || c == '\r' {
        Scan { lexeme: Lexeme::Nothing, span_end: i + 1, next: i + 1 }
    } else if c == '\n' {
        Scan { lexeme: Lexeme::LineEnd, span_end: i + 1, next: i + 1 }
    } else if c == '-' && char_is(cs, i + 1, '-') {
        let end = line_end(cs, i);
        Scan { lexeme: Lexeme::Nothing, span_end: end, next: end }
    } else if single_kind(c) is Some {
        kind_scan(single_kind(c)->0, i + 1)
    } else if i + 1 < cs.len() && double_kind(c, cs[i + 1]) is Some {
        kind_scan(double_kind(c, cs[i + 1])->0, i + 2)
    } else if lone_kind(c) is Some {
        kind_scan(lone_kind(c)->0, i + 1)
    } else if c == '~' {
        bad_scan(
            "unexpected '~' followed by "@ + debug_at(cs, i + 1) + " (only '~~' is valid)"@,
            i + 1,
        )
    } else if c == '"' || c == '\'' {
        string_scan(cs, i + 1, c, Seq::empty())
    } else if is_digit(c) {
        number_scan(cs, i)
    } else if is_ident_start(c) {
        let end = ident_end(cs, i);
        kind_scan(word_kind(cs.subrange(i, end)), end)
    } else {
        Scan {
            lexeme: Lexeme::Bad("unexpected character: "@ + char_debug(c)),
            span_end: i,
            next: i + 1,
        }
    }
}

// ---------------------------------------------------------------------------
// The whole source
// ---------------------------------------------------------------------------

/// Whether the last token ends a line; where there is none, nothing needs one.
pub open spec fn line_ended(toks: Seq<Token<Seq<char>>>) -> bool {
    toks.len() == 0 || toks.last().kind is Newline
}

/// The tokens and errors of a source.
pub struct Lexed {
    pub tokens: Seq<Token<Seq<char>>>,
    pub errors: Seq<LexError<Seq<char>>>,
}

/// The tokens and errors with what the lexeme at `i` adds. Empty lines and
/// lines before the first token give no newline token.
pub open spec fn add_lexeme(cs: Seq<char>, i: int, l: Lexed) -> Lexed {
    let s = scan_at(cs, i);
    let span = span_between(cs, i, s.span_end);
    match s.lexeme {
        Lexeme::Nothing => l,
        Lexeme::LineEnd => if line_ended(l.tokens) {
            l
        } else {
            Lexed { tokens: l.tokens.push(Token { kind: TokenKind::Newline, span }), ..l }
        },
        Lexeme::Kind(kind) => Lexed { tokens: l.tokens.push(Token { kind, span }), ..l },
        Lexeme::Bad(message) => Lexed { errors: l.errors.push(LexError { message, span }), ..l },
    }
}

/// The tokens and errors of the source from `i` on, added to `l`.
pub open spec fn lex_from(cs: Seq<char>, i: int, l: Lexed) -> Lexed
    decreases cs.len() - i,
{
    if i < 0 || i >= cs.len() {
        l
    } else {
        let next = scan_at(cs, i).next;
        if i < next <= cs.len() {
            lex_from(cs, next, add_lexeme(cs, i, l))
        } else {
            l
        }
    }
}

/// The tokens and errors of a source: those of its lexemes, a newline where
/// the last line has none, and the end mark.
pub open spec fn lexed(cs: Seq<char>) -> Lexed {
    let l = lex_from(cs, 0, Lexed { tokens: Seq::empty(), errors: Seq::empty() });
    let end = span_between(cs, cs.len() as int, cs.len() as int);
    let closed = if line_ended(l.tokens) {
        l.tokens
    } else {
        l.tokens.push(Token { kind: TokenKind::Newline, span: end })
    };
    Lexed { tokens: closed.push(Token { kind: TokenKind::Eof, span: end }), errors: l.errors }
}

// ---------------------------------------------------------------------------
// Code
// ---------------------------------------------------------------------------

/// What the `Debug` form of a character is: the character between single
/// quotes, escaped where it does not print as itself.
pub uninterp spec fn char_debug(c: char) -> Seq<char>;

/// The `Debug` form of a `char`, by `format!`. The result is named by
/// `char_debug`; of a printable ASCII character other than the single quote
/// and the backslash it is that character between single quotes.
#[verifier::external_body]
fn debug_char(c: char) -> (out: String)
    ensures
        out@ == char_debug(c),
        ' ' <= c && c <= '~' && c != '\'' && c != '\\' ==> out@ == seq!['\'', c, '\''],
{
    format!("{:?}", c)
}

/// One lexeme, in code.
enum Piece {
    Nothing,
    LineEnd,
    Kind(TokenKind),
    Bad(String),
}

impl Piece {
    spec fn view(&self) -> Lexeme {
        match *self {
            Piece::Nothing => Lexeme::Nothing,
            Piece::LineEnd => Lexeme::LineEnd,
            Piece::Kind(k) => Lexeme::Kind(k@),
            Piece::Bad(m) => Lexeme::Bad(m@),
        }
    }
}

/// A lexeme of the code with the end of its span and the next position.
struct Found {
    piece: Piece,
    span_end: usize,
    next: usize,
}

impl Found {
    spec fn view(&self) -> Scan {
        Scan { lexeme: self.piece@, span_end: self.span_end as int, next: self.next as int }
    }
}

fn found(piece: Piece, j: usize) -> (f: Found)
    ensures
        f@ == (Scan { lexeme: piece@, span_end: j as int, next: j as int }),
{
    Found { piece, span_end: j, next: j }
}

fn find_line_end(cs: &Vec<char>, i: usize) -> (j: usize)
    requires
        i <= cs@.len(),
    ensures
        i <= j <= cs@.len(),
        j == line_end(cs@, i as int),
        i < cs@.len() && cs@[i as int] != '\n' ==> i < j,
{
    let mut j: usize = i;
    while j < cs.len() && cs[j] != '\n'
        invariant
            i <= j <= cs@.len(),
            line_end(cs@, i as int) == line_end(cs@, j as int),
        decreases cs@.len() - j,
    {
        j = j + 1;
    }
    j
}

fn find_ident_end(cs: &Vec<char>, i: usize) -> (j: usize)
    requires
        i <= cs@.len(),
    ensures
        i <= j <= cs@.len(),
        j == ident_end(cs@, i as int),
        i < cs@.len() && is_ident_char(cs@[i as int]) ==> i < j,
{
    let mut j: usize = i;
    while j < cs.len() && (ident_start(cs[j]) || digit(cs[j]))
        invariant
            i <= j <= cs@.len(),
            ident_end(cs@, i as int) == ident_end(cs@, j as int),
        decreases cs@.len() - j,
    {
        j = j + 1;
    }
    j
}

fn find_digits_end(cs: &Vec<char>, i: usize) -> (j: usize)
    requires
        i <= cs@.len(),
    ensures
        i <= j <= cs@.len(),
        j == digits_end(cs@, i as int),
        i < cs@.len() && is_digit(cs@[i as int]) ==> i < j,
        forall|k: int| i <= k < j ==> is_digit(#[trigger] cs@[k]),
{
    let mut j: usize = i;
    while j < cs.len() && digit(cs[j])
        invariant
            i <= j <= cs@.len(),
            digits_end(cs@, i as int) == digits_end(cs@, j as int),
            forall|k: int| i <= k < j ==> is_digit(#[trigger] cs@[k]),
        decreases cs@.len() - j,
    {
        j = j + 1;
    }
    j
}

/// The characters from `i` up to `j`, as a string.
fn slice_text(cs: &Vec<char>, i: usize, j: usize) -> (s: String)
    requires
        i <= j <= cs@.len(),
    ensures
        s@ == cs@.subrange(i as int, j as int),
{
    from_chars(vstd::slice::slice_subrange(cs.as_slice(), i, j))
}

/// More digits make no smaller number.
proof fn lemma_digits_value_grows(cs: Seq<char>, i: int, k: int, j: int)
    requires
        0 <= i <= k <= j <= cs.len(),
    ensures
        digits_value(cs.subrange(i, k)) <= digits_value(cs.subrange(i, j)),
    decreases j - k,
{
    if k < j {
        lemma_digits_value_grows(cs, i, k, j - 1);
        assert(cs.subrange(i, j).drop_last() =~= cs.subrange(i, j - 1));
    }
}

/// The value of the digits from `i` up to `j`, where it fits.
fn read_integer(cs: &Vec<char>, i: usize, j: usize) -> (r: Option<i64>)
    requires
        i <= j <= cs@.len(),
        forall|k: int| i <= k < j ==> is_digit(#[trigger] cs@[k]),
    ensures
        r == (if digits_value(cs@.subrange(i as int, j as int)) <= i64::MAX {
            Some(digits_value(cs@.subrange(i as int, j as int)) as i64)
        } else {
            None
        }),
{
    let mut v: i64 = 0;
    let mut k: usize = i;
    while k < j
        invariant
            i <= k <= j <= cs@.len(),
            forall|m: int| i <= m < j ==> is_digit(#[trigger] cs@[m]),
            v == digits_value(cs@.subrange(i as int, k as int)),
        decreases j - k,
    {
        let d: i64 = (cs[k] as u32 - '0' as u32) as i64;
        proof {
            assert(is_digit(cs@[k as int]));
            assert(cs@.subrange(i as int, k + 1).drop_last() =~= cs@.subrange(
                i as int,
                k as int,
            ));
            lemma_digits_value_grows(cs@, i as int, k + 1, j as int);
        }
        if v > (i64::MAX - d) / 10 {
            return None;
        }
        v = v * 10 + d;
        k = k + 1;
    }
    Some(v)
}

fn scan_number(cs: &Vec<char>, i: usize) -> (f: Found)
    requires
        i < cs@.len(),
        is_digit(cs@[i as int]),
    ensures
        f@ == number_scan(cs@, i as int),
        i <= f.span_end <= f.next <= cs@.len(),
        i < f.next,
{
    let whole: usize = find_digits_end(cs, i);
    if whole < cs.len() && cs[whole] == '.' && whole + 1 < cs.len() && digit(cs[whole + 1]) {
        let end: usize = find_digits_end(cs, whole + 1);
        found(Piece::Kind(TokenKind::Float(slice_text(cs, i, end))), end)
    } else {
        match read_integer(cs, i, whole) {
            Some(n) => found(Piece::Kind(TokenKind::Integer(n)), whole),
            None => {
                let digits: String = slice_text(cs, i, whole);
                found(Piece::Bad(concat2("invalid integer: ", digits.as_str())), whole)
            },
        }
    }
}

/// The token of a word.
fn classify_word(s: String) -> (k: TokenKind)
    ensures
        k@ == word_kind(s@),
{
    if str_eq(s.as_str(), "if") {
        TokenKind::If
    } else if str_eq(s.as_str(), "else") {
        TokenKind::Else
    } else if str_eq(s.as_str(), "end") {
        TokenKind::End
    } else if str_eq(s.as_str(), "wait") {
        TokenKind::Wait
    } else if str_eq(s.as_str(), "and") {
        TokenKind::And
    } else if str_eq(s.as_str(), "or") {
        TokenKind::Or
    } else if str_eq(s.as_str(), "not") {
        TokenKind::Not
    } else if str_eq(s.as_str(), "true") {
        TokenKind::Integer(1)
    } else if str_eq(s.as_str(), "false") {
        TokenKind::Integer(0)
    } else {
        TokenKind::Ident(s)
    }
}

/// The string that starts behind the quote at `i - 1`.
fn scan_string(cs: &Vec<char>, i: usize, quote: char) -> (f: Found)
    requires
        i <= cs@.len(),
    ensures
        f@ == string_scan(cs@, i as int, quote, Seq::empty()),
        i <= f.span_end <= f.next <= cs@.len(),
{
    let mut value: String = String::new();
    let mut k: usize = i;
    while k < cs.len()
        invariant
            i <= k <= cs@.len(),
            string_scan(cs@, i as int, quote, Seq::empty()) == string_scan(
                cs@,
                k as int,
                quote,
                value@,
            ),
        decreases cs@.len() - k,
    {
        let c: char = cs[k];
        if c == quote {
            return found(Piece::Kind(TokenKind::String(value)), k + 1);
        }
        if c == '\\' {
            if k + 1 >= cs.len() {
                return found(Piece::Bad("unterminated escape sequence".to_owned()), k + 1);
            }
            let e: char = cs[k + 1];
            let ghost before = value@;
            if e == 'n' {
                value.push('\n');
            } else if e == 't' {
                value.push('\t');
            } else if e == 'r' {
                value.push('\r');
            } else if e == '\\' || e == '"' || e == '\'' {
                value.push(e);
            } else {
                value.push('\\');
                value.push(e);
            }
            assert(value@ =~= before + escape(e));
            k = k + 2;
        } else if c == '\n' {
            return found(Piece::Bad("unterminated string (newline in string)".to_owned()), k);
        } else {
            value.push(c);
            k = k + 1;
        }
    }
    found(Piece::Bad("unterminated string literal".to_owned()), k)
}

fn find_single(c: char) -> (k: Option<TokenKind>)
    ensures
        k is Some <==> single_kind(c) is Some,
        k is Some ==> k->0@ == single_kind(c)->0,
{
    match c {
        '#' => Some(TokenKind::SectionMark),
        '?' => Some(TokenKind::Question),
        '|' => Some(TokenKind::Pipe),
        '@' => Some(TokenKind::At),
        '$' => Some(TokenKind::Dollar),
        ':' => Some(TokenKind::Colon),
        '(' => Some(TokenKind::LParen),
        ')' => Some(TokenKind::RParen),
        ',' => Some(TokenKind::Comma),
        '*' => Some(TokenKind::Star),
        '/' => Some(TokenKind::Slash),
        _ => None,
    }
}

fn find_double(c: char, d: char) -> (k: Option<TokenKind>)
    ensures
        k is Some <==> double_kind(c, d) is Some,
        k is Some ==> k->0@ == double_kind(c, d)->0,
{
    match (c, d) {
        ('~', '~') => Some(TokenKind::StoryEnd),
        ('+', '=') => Some(TokenKind::PlusEq),
        ('=', '=') => Some(TokenKind::EqEq),
        ('=', '>') => Some(TokenKind::VisitArrow),
        ('!', '=') => Some(TokenKind::NotEq),
        ('<', '=') => Some(TokenKind::LtEq),
        ('>', '=') => Some(TokenKind::GtEq),
        ('-', '>') => Some(TokenKind::FlowArrow),
        ('-', '=') => Some(TokenKind::MinusEq),
        _ => None,
    }
}

fn find_lone(c: char) -> (k: Option<TokenKind>)
    ensures
        k is Some <==> lone_kind(c) is Some,
        k is Some ==> k->0@ == lone_kind(c)->0,
{
    match c {
        '+' => Some(TokenKind::Plus),
        '=' => Some(TokenKind::Assign),
        '!' => Some(TokenKind::Not),
        '<' => Some(TokenKind::Lt),
        '>' => Some(TokenKind::Gt),
        '-' => Some(TokenKind::Minus2),
        _ => None,
    }
}

/// The lexeme at position `i`.
fn scan(cs: &Vec<char>, i: usize) -> (f: Found)
    requires
        i < cs@.len(),
    ensures
        f@ == scan_at(cs@, i as int),
        i <= f.span_end <= f.next <= cs@.len(),
        i < f.next,
{
    let n: usize = cs.len();
    let c: char = cs[i];
    if c == ' ' || c == '\t' || c == '\r' {
        return found(Piece::Nothing, i + 1);
    }
    if c == '\n' {
        return found(Piece::LineEnd, i + 1);
    }
    if c == '-' && i + 1 < n && cs[i + 1] == '-' {
        let end: usize = find_line_end(cs, i);
        return found(Piece::Nothing, end);
    }
    if let Some(k) = find_single(c) {
        return found(Piece::Kind(k), i + 1);
    }
    if i + 1 < n {
        if let Some(k) = find_double(c, cs[i + 1]) {
            return found(Piece::Kind(k), i + 2);
        }
    }
    if let Some(k) = find_lone(c) {
        return found(Piece::Kind(k), i + 1);
    }
    if c == '~' {
        let shown: String = if i + 1 < n {
            let d: String = debug_char(cs[i + 1]);
            concat3("Some(", d.as_str(), ")")
        } else {
            "None".to_owned()
        };
        return found(
            Piece::Bad(
                concat3("unexpected '~' followed by ", shown.as_str(), " (only '~~' is valid)"),
            ),
            i + 1,
        );
    }
    if c == '"' || c == '\'' {
        return scan_string(cs, i + 1, c);
    }
    if digit(c) {
        return scan_number(cs, i);
    }
    if ident_start(c) {
        let end: usize = find_ident_end(cs, i);
        return found(Piece::Kind(classify_word(slice_text(cs, i, end))), end);
    }
    let d: String = debug_char(c);
    Found { piece: Piece::Bad(concat2("unexpected character: ", d.as_str())), span_end: i, next: i + 1 }
}

/// The lexer of a source.
pub struct Lexer {
    chars: Vec<char>,
}

impl View for Lexer {
    type V = Seq<char>;

    /// The source.
    closed spec fn view(&self) -> Seq<char> {
        self.chars@
    }
}

impl Lexer {
    pub fn new(source: &str) -> (l: Self)
        ensures
            l@ == source@,
    {
        Lexer { chars: to_chars(source) }
    }

    /// The tokens of the whole source, or all its errors.
    pub fn tokenize(self) -> (r: Result<Vec<Token>, Vec<LexError>>)
        ensures
            r is Ok <==> lexed(self@).errors.len() == 0,
            r matches Ok(tokens) ==> token::token_views(tokens@) == lexed(self@).tokens,
            r matches Err(errors) ==> lex_error_views(errors@) == lexed(self@).errors,
    {
        let cs: Vec<char> = self.chars;
        let mut tokens: Vec<Token> = Vec::new();
        let mut errors: Vec<LexError> = Vec::new();
        let mut i: usize = 0;
        let mut at: LineCol = LineCol { line: 1, col: 1 };
        let ghost start = Lexed { tokens: Seq::empty(), errors: Seq::empty() };
        assert(token::token_views(tokens@) =~= start.tokens);
        assert(lex_error_views(errors@) =~= start.errors);
        while i < cs.len()
            invariant
                i <= cs@.len(),
                at == linecol_at(cs@, i as int),
                lex_from(cs@, 0, start) == lex_from(
                    cs@,
                    i as int,
                    Lexed {
                        tokens: token::token_views(tokens@),
                        errors: lex_error_views(errors@),
                    },
                ),
            decreases cs@.len() - i,
        {
            let ghost toks0 = token::token_views(tokens@);
            let ghost errs0 = lex_error_views(errors@);
            let f: Found = scan(&cs, i);
            let span_lc: LineCol = linecol_from(&cs, i, f.span_end, at);
            let span: LocSpan = LocSpan::new(i, f.span_end, at, span_lc);
            at = linecol_from(&cs, i, f.next, at);
            match f.piece {
                Piece::Nothing => {},
                Piece::LineEnd => {
                    if tokens.len() > 0 {
                        let open: bool = !matches!(tokens[tokens.len() - 1].kind, TokenKind::Newline);
                        if open {
                            tokens.push(Token::new(TokenKind::Newline, span));
                        }
                    }
                },
                Piece::Kind(k) => {
                    tokens.push(Token::new(k, span));
                },
                Piece::Bad(message) => {
                    errors.push(LexError { message, span });
                },
            }
            proof {
                let l = add_lexeme(cs@, i as int, Lexed { tokens: toks0, errors: errs0 });
                assert(token::token_views(tokens@) =~= l.tokens);
                assert(lex_error_views(errors@) =~= l.errors);
            }
            i = f.next;
        }
        let end: LocSpan = LocSpan::new(i, i, at, at);
        let ghost toks1 = token::token_views(tokens@);
        if tokens.len() > 0 {
            let open: bool = !matches!(tokens[tokens.len() - 1].kind, TokenKind::Newline);
            if open {
                tokens.push(Token::new(TokenKind::Newline, end));
                assert(token::token_views(tokens@) =~= toks1.push(Token { kind: TokenKind::Newline, span: end }));
            }
        }
        let ghost toks2 = token::token_views(tokens@);
        tokens.push(Token::new(TokenKind::Eof, end));
        assert(token::token_views(tokens@) =~= toks2.push(Token { kind: TokenKind::Eof, span: end }));
        if errors.len() == 0 {
            Ok(tokens)
        } else {
            Err(errors)
        }
    }
}

// ---------------------------------------------------------------------------
// Laws
// ---------------------------------------------------------------------------

/// Where a scan that started at `i` may end, and what it may be.
spec fn scan_ok(cs: Seq<char>, i: int, s: Scan) -> bool {
    &&& i <= s.span_end <= s.next <= cs.len()
    &&& i < s.next
    &&& s.lexeme matches Lexeme::Kind(k) ==> !(k is Eof) && !(k is Newline)
}

proof fn lemma_ends(cs: Seq<char>, i: int)
    requires
        0 <= i <= cs.len(),
    ensures
        i <= line_end(cs, i) <= cs.len(),
        i <= ident_end(cs, i) <= cs.len(),
        i <= digits_end(cs, i) <= cs.len(),
    decreases cs.len() - i,
{
    if i < cs.len() {
        lemma_ends(cs, i + 1);
    }
}

proof fn lemma_string_scan(cs: Seq<char>, i: int, quote: char, value: Seq<char>)
    requires
        1 <= i <= cs.len(),
    ensures
        scan_ok(cs, i - 1, string_scan(cs, i, quote, value)),
    decreases cs.len() - i,
{
    if i < cs.len() && cs[i] != quote {
        if cs[i] == '\\' {
            if i + 1 < cs.len() {
                lemma_string_scan(cs, i + 2, quote, value + escape(cs[i + 1]));
            }
        } else if cs[i] != '\n' {
            lemma_string_scan(cs, i + 1, quote, value.push(cs[i]));
        }
    }
}

proof fn lemma_scan_at(cs: Seq<char>, i: int)
    requires
        0 <= i < cs.len(),
    ensures
        scan_ok(cs, i, scan_at(cs, i)),
{
    lemma_ends(cs, i);
    lemma_ends(cs, i + 1);
    lemma_string_scan(cs, i + 1, cs[i], Seq::empty());
    if is_digit(cs[i]) {
        let whole = digits_end(cs, i);
        assert(whole == digits_end(cs, i + 1));
        if whole + 1 < cs.len() {
            lemma_ends(cs, whole + 1);
        }
    }
}

/// What holds of the tokens of the source before `i`.
spec fn tokens_ok(cs: Seq<char>, i: int, toks: Seq<Token<Seq<char>>>) -> bool {
    &&& forall|k: int| 0 <= k < toks.len() ==> !((#[trigger] toks[k]).kind is Eof)
    &&& toks.len() > 0 ==> !(toks[0].kind is Newline)
    &&& forall|k: int|
        0 < k < toks.len() && (#[trigger] toks[k]).kind is Newline ==> !(toks[k - 1].kind is Newline)
    &&& forall|k: int|
        0 <= k < toks.len() ==> (#[trigger] toks[k]).span.start <= toks[k].span.end <= i
    &&& forall|j: int, k: int|
        0 <= j < k < toks.len() ==> (#[trigger] toks[j]).span.end <= (#[trigger] toks[k]).span.start
}

proof fn lemma_lex_from(cs: Seq<char>, i: int, l: Lexed)
    requires
        0 <= i <= cs.len() <= usize::MAX,
        tokens_ok(cs, i, l.tokens),
    ensures
        tokens_ok(cs, cs.len() as int, lex_from(cs, i, l).tokens),
    decreases cs.len() - i,
{
    if i < cs.len() {
        lemma_scan_at(cs, i);
        let next = scan_at(cs, i).next;
        let added = add_lexeme(cs, i, l);
        assert(tokens_ok(cs, next, added.tokens));
        lemma_lex_from(cs, next, added);
    }
}

/// The last token of a source is its end mark.
pub proof fn lemma_end_mark(cs: Seq<char>)
    ensures
        lexed(cs).tokens.len() > 0,
        lexed(cs).tokens.last().kind is Eof,
{
}

/// Every source has an end mark, as its last token and nowhere else.
pub proof fn law_one_end_mark(cs: Seq<char>)
    requires
        cs.len() <= usize::MAX,
    ensures
        lexed(cs).tokens.len() > 0,
        lexed(cs).tokens.last().kind is Eof,
        forall|k: int|
            0 <= k < lexed(cs).tokens.len() - 1 ==> !((#[trigger] lexed(cs).tokens[k]).kind is Eof),
{
    lemma_lex_from(cs, 0, Lexed { tokens: Seq::empty(), errors: Seq::empty() });
}

/// The spans of the tokens lie within the source and follow each other.
pub proof fn law_spans_in_order(cs: Seq<char>, j: int, k: int)
    requires
        cs.len() <= usize::MAX,
        0 <= j < k < lexed(cs).tokens.len(),
    ensures
        lexed(cs).tokens[j].span.start <= lexed(cs).tokens[j].span.end,
        lexed(cs).tokens[j].span.end <= lexed(cs).tokens[k].span.start,
        lexed(cs).tokens[k].span.start <= lexed(cs).tokens[k].span.end <= cs.len(),
{
    lemma_lex_from(cs, 0, Lexed { tokens: Seq::empty(), errors: Seq::empty() });
}

/// Line ends are never doubled and never come first: every newline token
/// follows a token that is none, and the end mark follows a newline or nothing.
pub proof fn law_newlines_collapse(cs: Seq<char>, k: int)
    requires
        cs.len() <= usize::MAX,
        0 <= k < lexed(cs).tokens.len(),
    ensures
        lexed(cs).tokens[k].kind is Newline ==> k > 0 && !(lexed(cs).tokens[k - 1].kind is Newline),
        lexed(cs).tokens[k].kind is Eof && k > 0 ==> lexed(cs).tokens[k - 1].kind is Newline,
{
    lemma_lex_from(cs, 0, Lexed { tokens: Seq::empty(), errors: Seq::empty() });
}

} // verus!
