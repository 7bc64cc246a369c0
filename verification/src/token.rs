//! Tokens of the script language and their source locations.
//!
//! The syntax uses symbolic markers instead of keywords: `#` opens a section,
//! `->` navigates, `=>` visits and `<=` returns, `~~` ends the story, `?` and
//! `|` delimit choices, `@` is a stage command, `+` and `-` bring characters
//! on and off the stage, `$` names a variable.

use crate::text::{concat3, format_i64};
use crate::text;
use vstd::prelude::*;

verus! {

/// Source location: line and column, both counted from one.
#[derive(Debug, Clone, Copy, PartialEq, Eq, Structural)]
pub struct LineCol {
    pub line: usize,
    pub col: usize,
}

/// A range of characters of the source, with the locations of its two ends.
#[derive(Debug, Clone, Copy, PartialEq, Eq, Structural)]
pub struct LocSpan {
    pub start: usize,
    pub end: usize,
    pub start_linecol: LineCol,
    pub end_linecol: LineCol,
}

impl LocSpan {
    pub fn new(start: usize, end: usize, start_lc: LineCol, end_lc: LineCol) -> (s: Self)
        ensures
            s == (LocSpan { start, end, start_linecol: start_lc, end_linecol: end_lc }),
    {
        LocSpan { start, end, start_linecol: start_lc, end_linecol: end_lc }
    }

    /// The empty span at the start of a source.
    pub open spec fn origin() -> LocSpan {
        LocSpan {
            start: 0,
            end: 0,
            start_linecol: LineCol { line: 1, col: 1 },
            end_linecol: LineCol { line: 1, col: 1 },
        }
    }

    pub fn dummy() -> (s: Self)
        ensures
            s == LocSpan::origin(),
    {
        LocSpan {
            start: 0,
            end: 0,
            start_linecol: LineCol { line: 1, col: 1 },
            end_linecol: LineCol { line: 1, col: 1 },
        }
    }
}

/// Token kinds. The parameter is the type of the texts that a token carries:
/// `String` in code, `Seq<char>` in specifications.
#[derive(Debug, Clone, PartialEq, Eq)]
pub enum TokenKind<S = String> {
    /// `#` section header delimiter
    SectionMark,
    /// `->` flow navigation
    FlowArrow,
    /// `=>` visit (with return)
    VisitArrow,
    /// `<=` return from visit
    ReturnMark,
    /// `~~` story end
    StoryEnd,
    /// `?` opens and closes a choice block
    Question,
    /// `|` choice option
    Pipe,
    /// `@` stage command
    At,
    /// `+` character entrance
    Plus,
    /// `$` variable reference
    Dollar,
    String(S),
    Integer(i64),
    /// A decimal literal, as it is written.
    Float(S),
    Ident(S),
    Colon,
    LParen,
    RParen,
    Assign,
    PlusEq,
    MinusEq,
    EqEq,
    NotEq,
    Lt,
    Gt,
    LtEq,
    GtEq,
    /// arithmetic `+`
    Plus2,
    /// arithmetic `-`, or a character's exit
    Minus2,
    Star,
    Slash,
    And,
    Or,
    Not,
    If,
    Else,
    End,
    Wait,
    Newline,
    Comma,
    Eof,
}

impl View for TokenKind<String> {
    type V = TokenKind<Seq<char>>;

    open spec fn view(&self) -> TokenKind<Seq<char>> {
        match *self {
            TokenKind::SectionMark => TokenKind::SectionMark,
            TokenKind::FlowArrow => TokenKind::FlowArrow,
            TokenKind::VisitArrow => TokenKind::VisitArrow,
            TokenKind::ReturnMark => TokenKind::ReturnMark,
            TokenKind::StoryEnd => TokenKind::StoryEnd,
            TokenKind::Question => TokenKind::Question,
            TokenKind::Pipe => TokenKind::Pipe,
            TokenKind::At => TokenKind::At,
            TokenKind::Plus => TokenKind::Plus,
            TokenKind::Dollar => TokenKind::Dollar,
            TokenKind::String(s) => TokenKind::String(s@),
            TokenKind::Integer(n) => TokenKind::Integer(n),
            TokenKind::Float(s) => TokenKind::Float(s@),
            TokenKind::Ident(s) => TokenKind::Ident(s@),
            TokenKind::Colon => TokenKind::Colon,
            TokenKind::LParen => TokenKind::LParen,
            TokenKind::RParen => TokenKind::RParen,
            TokenKind::Assign => TokenKind::Assign,
            TokenKind::PlusEq => TokenKind::PlusEq,
            TokenKind::MinusEq => TokenKind::MinusEq,
            TokenKind::EqEq => TokenKind::EqEq,
            TokenKind::NotEq => TokenKind::NotEq,
            TokenKind::Lt => TokenKind::Lt,
            TokenKind::Gt => TokenKind::Gt,
            TokenKind::LtEq => TokenKind::LtEq,
            TokenKind::GtEq => TokenKind::GtEq,
            TokenKind::Plus2 => TokenKind::Plus2,
            TokenKind::Minus2 => TokenKind::Minus2,
            TokenKind::Star => TokenKind::Star,
            TokenKind::Slash => TokenKind::Slash,
            TokenKind::And => TokenKind::And,
            TokenKind::Or => TokenKind::Or,
            TokenKind::Not => TokenKind::Not,
            TokenKind::If => TokenKind::If,
            TokenKind::Else => TokenKind::Else,
            TokenKind::End => TokenKind::End,
            TokenKind::Wait => TokenKind::Wait,
            TokenKind::Newline => TokenKind::Newline,
            TokenKind::Comma => TokenKind::Comma,
            TokenKind::Eof => TokenKind::Eof,
        }
    }
}

/// A token with its kind and location.
#[derive(Debug, Clone)]
pub struct Token<S = String> {
    pub kind: TokenKind<S>,
    pub span: LocSpan,
}

impl View for Token<String> {
    type V = Token<Seq<char>>;

    open spec fn view(&self) -> Token<Seq<char>> {
        Token { kind: self.kind@, span: self.span }
    }
}

/// The views of a sequence of tokens.
pub open spec fn token_views(s: Seq<Token>) -> Seq<Token<Seq<char>>> {
    Seq::new(s.len(), |i: int| s[i]@)
}

impl Token<String> {
    pub fn new(kind: TokenKind, span: LocSpan) -> (t: Self)
        ensures
            t == (Token { kind, span }),
    {
        Token { kind, span }
    }
}

// ---------------------------------------------------------------------------
// Token text
// ---------------------------------------------------------------------------

/// A decimal literal without the zeros that do not change its value: no
/// leading zeros but one before the point, no trailing zeros behind it, and no
/// point where nothing is left behind it. Every other digit stays as it was
/// written: nothing is rounded to the nearest double.
pub open spec fn plain_decimal(s: Seq<char>) -> Seq<char>
    decreases s.len(),
{
    if s.len() >= 2 && s[0] == '0' && s[1] != '.' {
        plain_decimal(s.subrange(1, s.len() as int))
    } else {
        drop_fraction_zeros(s)
    }
}

/// A decimal literal without the trailing zeros behind its point.
pub open spec fn drop_fraction_zeros(s: Seq<char>) -> Seq<char>
    decreases s.len(),
{
    if s.len() >= 2 && s.last() == '0' && s.contains('.') {
        drop_fraction_zeros(s.drop_last())
    } else if s.len() >= 2 && s.last() == '.' {
        s.drop_last()
    } else {
        s
    }
}

/// How a token reads in a message.
pub open spec fn kind_text(k: TokenKind<Seq<char>>) -> Seq<char> {
    match k {
        TokenKind::SectionMark => "#"@,
        TokenKind::FlowArrow => "->"@,
        TokenKind::VisitArrow => "=>"@,
        TokenKind::ReturnMark => "<="@,
        TokenKind::StoryEnd => "~~"@,
        TokenKind::Question => "?"@,
        TokenKind::Pipe => "|"@,
        TokenKind::At => "@"@,
        TokenKind::Plus => "+"@,
        TokenKind::Dollar => "$"@,
        TokenKind::String(s) => "\""@ + s + "\""@,
        TokenKind::Integer(n) => text::int_text(n as int),
        TokenKind::Float(s) => plain_decimal(s),
        TokenKind::Ident(s) => s,
        TokenKind::Colon => ":"@,
        TokenKind::LParen => "("@,
        TokenKind::RParen => ")"@,
        TokenKind::Assign => "="@,
        TokenKind::PlusEq => "+="@,
        TokenKind::MinusEq => "-="@,
        TokenKind::EqEq => "=="@,
        TokenKind::NotEq => "!="@,
        TokenKind::Lt => "<"@,
        TokenKind::Gt => ">"@,
        TokenKind::LtEq => "<="@,
        TokenKind::GtEq => ">="@,
        TokenKind::Plus2 => "+"@,
        TokenKind::Minus2 => "-"@,
        TokenKind::Star => "*"@,
        TokenKind::Slash => "/"@,
        TokenKind::And => "and"@,
        TokenKind::Or => "or"@,
        TokenKind::Not => "not"@,
        TokenKind::If => "if"@,
        TokenKind::Else => "else"@,
        TokenKind::End => "end"@,
        TokenKind::Wait => "wait"@,
        TokenKind::Newline => "newline"@,
        TokenKind::Comma => ","@,
        TokenKind::Eof => "eof"@,
    }
}

/// The plain form of a decimal literal.
pub fn plain_decimal_text(s: &str) -> (out: String)
    ensures
        out@ == plain_decimal(s@),
{
    let cs: Vec<char> = crate::text::to_chars(s);
    let mut lo: usize = 0;
    assert(cs@.subrange(0, cs@.len() as int) =~= s@);
    while cs.len() - lo >= 2 && cs[lo] == '0' && cs[lo + 1] != '.'
        invariant
            lo <= cs@.len(),
            plain_decimal(s@) == plain_decimal(cs@.subrange(lo as int, cs@.len() as int)),
        decreases cs@.len() - lo,
    {
        assert(cs@.subrange(lo as int, cs@.len() as int).subrange(1, cs@.len() - lo)
            =~= cs@.subrange(lo + 1, cs@.len() as int));
        lo = lo + 1;
    }
    let mut has_point: bool = false;
    let mut i: usize = lo;
    while i < cs.len()
        invariant
            lo <= i <= cs@.len(),
            has_point == cs@.subrange(lo as int, i as int).contains('.'),
        decreases cs@.len() - i,
    {
        let ghost before = cs@.subrange(lo as int, i as int);
        let ghost after = cs@.subrange(lo as int, i + 1);
        proof {
            assert(after =~= before.push(cs@[i as int]));
            if before.contains('.') {
                let k = choose|k: int| 0 <= k < before.len() && before[k] == '.';
                assert(after[k] == '.');
            }
            if after.contains('.') && cs@[i as int] != '.' {
                let k = choose|k: int| 0 <= k < after.len() && after[k] == '.';
                assert(before[k] == '.');
            }
            if cs@[i as int] == '.' {
                assert(after[i - lo] == '.');
            }
        }
        if cs[i] == '.' {
            has_point = true;
        }
        i = i + 1;
    }
    let mut hi: usize = cs.len();
    while hi - lo >= 2 && cs[hi - 1] == '0' && has_point
        invariant
            lo <= hi <= cs@.len(),
            has_point ==> hi - lo >= 1 && cs@.subrange(lo as int, hi as int).contains('.'),
            !has_point ==> !cs@.subrange(lo as int, hi as int).contains('.'),
            plain_decimal(s@) == drop_fraction_zeros(cs@.subrange(lo as int, hi as int)),
        decreases hi,
    {
        let ghost whole = cs@.subrange(lo as int, hi as int);
        let ghost cut = cs@.subrange(lo as int, hi - 1);
        proof {
            assert(whole.drop_last() =~= cut);
            let k = choose|k: int| 0 <= k < whole.len() && whole[k] == '.';
            assert(cut[k] == '.');
        }
        hi = hi - 1;
    }
    if hi - lo >= 2 && cs[hi - 1] == '.' {
        assert(cs@.subrange(lo as int, hi as int).drop_last() =~= cs@.subrange(lo as int, hi - 1));
        hi = hi - 1;
    }
    crate::text::from_chars(vstd::slice::slice_subrange(cs.as_slice(), lo, hi))
}

impl TokenKind<String> {
    /// The token as it reads in a message.
    pub fn text(&self) -> (out: String)
        ensures
            out@ == kind_text(self@),
    {
        match self {
            TokenKind::SectionMark => "#".to_owned(),
            TokenKind::FlowArrow => "->".to_owned(),
            TokenKind::VisitArrow => "=>".to_owned(),
            TokenKind::ReturnMark => "<=".to_owned(),
            TokenKind::StoryEnd => "~~".to_owned(),
            TokenKind::Question => "?".to_owned(),
            TokenKind::Pipe => "|".to_owned(),
            TokenKind::At => "@".to_owned(),
            TokenKind::Plus => "+".to_owned(),
            TokenKind::Dollar => "$".to_owned(),
            TokenKind::String(s) => concat3("\"", s.as_str(), "\""),
            TokenKind::Integer(n) => format_i64(*n),
            TokenKind::Float(s) => plain_decimal_text(s.as_str()),
            TokenKind::Ident(s) => s.clone(),
            TokenKind::Colon => ":".to_owned(),
            TokenKind::LParen => "(".to_owned(),
            TokenKind::RParen => ")".to_owned(),
            TokenKind::Assign => "=".to_owned(),
            TokenKind::PlusEq => "+=".to_owned(),
            TokenKind::MinusEq => "-=".to_owned(),
            TokenKind::EqEq => "==".to_owned(),
            TokenKind::NotEq => "!=".to_owned(),
            TokenKind::Lt => "<".to_owned(),
            TokenKind::Gt => ">".to_owned(),
            TokenKind::LtEq => "<=".to_owned(),
            TokenKind::GtEq => ">=".to_owned(),
            TokenKind::Plus2 => "+".to_owned(),
            TokenKind::Minus2 => "-".to_owned(),
            TokenKind::Star => "*".to_owned(),
            TokenKind::Slash => "/".to_owned(),
            TokenKind::And => "and".to_owned(),
            TokenKind::Or => "or".to_owned(),
            TokenKind::Not => "not".to_owned(),
            TokenKind::If => "if".to_owned(),
            TokenKind::Else => "else".to_owned(),
            TokenKind::End => "end".to_owned(),
            TokenKind::Wait => "wait".to_owned(),
            TokenKind::Newline => "newline".to_owned(),
            TokenKind::Comma => ",".to_owned(),
            TokenKind::Eof => "eof".to_owned(),
        }
    }
}

} // verus!
