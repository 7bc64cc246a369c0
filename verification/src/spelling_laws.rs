//! Tokens that are written down are read back as they are.

use crate::lexer;
use crate::lexer::Lexed;
use crate::lexer_laws;
use crate::text;
use crate::token::TokenKind;
use vstd::prelude::*;

verus! {

// ---------------------------------------------------------------------------
// How tokens are written
// ---------------------------------------------------------------------------

/// How a mark is written.
pub open spec fn mark_text(k: TokenKind<Seq<char>>) -> Option<Seq<char>> {
    match k {
        TokenKind::SectionMark => Some(seq!['#']),
        TokenKind::Question => Some(seq!['?']),
        TokenKind::Pipe => Some(seq!['|']),
        TokenKind::At => Some(seq!['@']),
        TokenKind::Dollar => Some(seq!['$']),
        TokenKind::Colon => Some(seq![':']),
        TokenKind::LParen => Some(seq!['(']),
        TokenKind::RParen => Some(seq![')']),
        TokenKind::Comma => Some(seq![',']),
        TokenKind::Star => Some(seq!['*']),
        TokenKind::Slash => Some(seq!['/']),
        TokenKind::Plus => Some(seq!['+']),
        TokenKind::Minus2 => Some(seq!['-']),
        TokenKind::Assign => Some(seq!['=']),
        TokenKind::Lt => Some(seq!['<']),
        TokenKind::Gt => Some(seq!['>']),
        TokenKind::StoryEnd => Some(seq!['~', '~']),
        TokenKind::PlusEq => Some(seq!['+', '=']),
        TokenKind::MinusEq => Some(seq!['-', '=']),
        TokenKind::EqEq => Some(seq!['=', '=']),
        TokenKind::NotEq => Some(seq!['!', '=']),
        TokenKind::LtEq => Some(seq!['<', '=']),
        TokenKind::GtEq => Some(seq!['>', '=']),
        TokenKind::FlowArrow => Some(seq!['-', '>']),
        TokenKind::VisitArrow => Some(seq!['=', '>']),
        _ => None,
    }
}

/// How a word of the language is written.
pub open spec fn word_text(k: TokenKind<Seq<char>>) -> Option<Seq<char>> {
    match k {
        TokenKind::If => Some(seq!['i', 'f']),
        TokenKind::Else => Some(seq!['e', 'l', 's', 'e']),
        TokenKind::End => Some(seq!['e', 'n', 'd']),
        TokenKind::Wait => Some(seq!['w', 'a', 'i', 't']),
        TokenKind::And => Some(seq!['a', 'n', 'd']),
        TokenKind::Or => Some(seq!['o', 'r']),
        TokenKind::Not => Some(seq!['n', 'o', 't']),
        _ => None,
    }
}

/// An ASCII letter, the underscore or a Chinese ideograph.
pub open spec fn is_letter(c: char) -> bool {
    ||| 'A' <= c && c <= 'Z'
    ||| 'a' <= c && c <= 'z'
    ||| c == '_'
    ||| '\u{3400}' <= c && c <= '\u{4dbf}'
    ||| '\u{4e00}' <= c && c <= '\u{9fff}'
}

pub open spec fn is_figure(c: char) -> bool {
    '0' <= c && c <= '9'
}

/// Whether a text is a name: a letter, then letters and digits, and no word of the
/// language.
pub open spec fn is_name(s: Seq<char>) -> bool {
    &&& s.len() > 0
    &&& is_letter(s[0])
    &&& forall|i: int| 0 <= i < s.len() ==> is_letter(#[trigger] s[i]) || is_figure(s[i])
    &&& forall|k: TokenKind<Seq<char>>| #[trigger] word_text(k) != Some(s)
    &&& s != seq!['t', 'r', 'u', 'e']
    &&& s != seq!['f', 'a', 'l', 's', 'e']
}

/// Whether a text is a decimal number with its point at `k`.
pub open spec fn is_decimal(s: Seq<char>, k: int) -> bool {
    &&& 0 < k < s.len() - 1
    &&& s[k] == '.'
    &&& forall|i: int| 0 <= i < s.len() && i != k ==> is_figure(#[trigger] s[i])
}

/// How a character is written in a string: a line end, a tab, a return, a backslash
/// and a quote by a backslash and a letter or themselves.
pub open spec fn escaped_char(c: char) -> Seq<char> {
    if c == '\n' {
        seq!['\\', 'n']
    } else if c == '\t' {
        seq!['\\', 't']
    } else if c == '\r' {
        seq!['\\', 'r']
    } else if c == '\\' || c == '"' || c == '\'' {
        seq!['\\', c]
    } else {
        seq![c]
    }
}

pub open spec fn escaped(s: Seq<char>) -> Seq<char>
    decreases s.len(),
{
    if s.len() == 0 {
        Seq::empty()
    } else {
        escaped(s.drop_last()) + escaped_char(s.last())
    }
}

/// How a token is written.
pub open spec fn written(k: TokenKind<Seq<char>>) -> Seq<char> {
    match k {
        TokenKind::String(s) => seq!['"'] + escaped(s) + seq!['"'],
        TokenKind::Integer(n) => text::nat_text(n as nat),
        TokenKind::Float(s) => s,
        TokenKind::Ident(s) => s,
        _ => if mark_text(k) is Some {
            mark_text(k)->0
        } else {
            word_text(k)->0
        },
    }
}

/// Whether a token can be written: a mark, a word of the language, a string, an
/// integer that is not negative, a decimal number or a name.
pub open spec fn can_be_written(k: TokenKind<Seq<char>>) -> bool {
    match k {
        TokenKind::String(_) => true,
        TokenKind::Integer(n) => n >= 0,
        TokenKind::Float(s) => exists|p: int| #[trigger] is_decimal(s, p),
        TokenKind::Ident(s) => is_name(s),
        _ => mark_text(k) is Some || word_text(k) is Some,
    }
}

/// Whether a text stands at a place, with a blank behind it.
pub open spec fn stands_alone(cs: Seq<char>, i: int, t: Seq<char>) -> bool {
    &&& 0 <= i
    &&& i + t.len() < cs.len()
    &&& forall|j: int| 0 <= j < t.len() ==> cs[i + j] == #[trigger] t[j]
    &&& cs[i + t.len()] == ' '
}

// ---------------------------------------------------------------------------
// One token
// ---------------------------------------------------------------------------

proof fn lemma_mark(cs: Seq<char>, i: int, k: TokenKind<Seq<char>>)
    requires
        mark_text(k) is Some,
        stands_alone(cs, i, mark_text(k)->0),
    ensures
        lexer::scan_at(cs, i) == lexer::kind_scan(k, i + mark_text(k)->0.len()),
{
    let t = mark_text(k)->0;
    assert(cs[i + 0] == t[0]);
    if t.len() == 2 {
        assert(cs[i + 1] == t[1]);
    }
}

proof fn lemma_ident_end(cs: Seq<char>, i: int, e: int)
    requires
        0 <= i <= e <= cs.len(),
        forall|j: int| i <= j < e ==> lexer::is_ident_char(#[trigger] cs[j]),
        e == cs.len() || !lexer::is_ident_char(cs[e]),
    ensures
        lexer::ident_end(cs, i) == e,
    decreases e - i,
{
    if i < e {
        lemma_ident_end(cs, i + 1, e);
    }
}

proof fn lemma_digits_end(cs: Seq<char>, i: int, e: int)
    requires
        0 <= i <= e <= cs.len(),
        forall|j: int| i <= j < e ==> lexer::is_digit(#[trigger] cs[j]),
        e == cs.len() || !lexer::is_digit(cs[e]),
    ensures
        lexer::digits_end(cs, i) == e,
    decreases e - i,
{
    if i < e {
        lemma_digits_end(cs, i + 1, e);
    }
}

proof fn lemma_word(cs: Seq<char>, i: int, t: Seq<char>)
    requires
        t.len() > 0,
        is_letter(t[0]),
        forall|j: int| 0 <= j < t.len() ==> is_letter(#[trigger] t[j]) || is_figure(t[j]),
        stands_alone(cs, i, t),
    ensures
        lexer::scan_at(cs, i) == lexer::kind_scan(lexer::word_kind(t), i + t.len()),
{
    assert(cs[i + 0] == t[0]);
    let e = i + t.len();
    assert forall|j: int| i <= j < e implies lexer::is_ident_char(#[trigger] cs[j]) by {
        let d = j - i;
        assert(cs[i + d] == t[d]);
    }
    lemma_ident_end(cs, i, e);
    assert(cs.subrange(i, e) =~= t) by {
        assert forall|j: int| 0 <= j < t.len() implies cs.subrange(i, e)[j] == t[j] by {
            assert(cs[i + j] == t[j]);
        }
    }
}

proof fn lemma_word_kinds()
    ensures
        "if"@ == seq!['i', 'f'],
        "else"@ == seq!['e', 'l', 's', 'e'],
        "end"@ == seq!['e', 'n', 'd'],
        "wait"@ == seq!['w', 'a', 'i', 't'],
        "and"@ == seq!['a', 'n', 'd'],
        "or"@ == seq!['o', 'r'],
        "not"@ == seq!['n', 'o', 't'],
        "true"@ == seq!['t', 'r', 'u', 'e'],
        "false"@ == seq!['f', 'a', 'l', 's', 'e'],
{
    reveal_strlit("if");
    reveal_strlit("else");
    reveal_strlit("end");
    reveal_strlit("wait");
    reveal_strlit("and");
    reveal_strlit("or");
    reveal_strlit("not");
    reveal_strlit("true");
    reveal_strlit("false");
}

proof fn lemma_keyword(k: TokenKind<Seq<char>>)
    requires
        word_text(k) is Some,
    ensures
        lexer::word_kind(word_text(k)->0) == k,
{
    lemma_word_kinds();
    let t = word_text(k)->0;
    let i = "if"@;
    let e = "else"@;
    let n = "end"@;
    let w = "wait"@;
    let a = "and"@;
    let o = "or"@;
    let x = "not"@;
    assert(i.len() == 2 && i[0] == 'i');
    assert(e.len() == 4 && e[0] == 'e');
    assert(n.len() == 3 && n[0] == 'e');
    assert(w.len() == 4 && w[0] == 'w');
    assert(a.len() == 3 && a[0] == 'a');
    assert(o.len() == 2 && o[0] == 'o');
    assert(x.len() == 3 && x[0] == 'n');
}

proof fn lemma_name(s: Seq<char>)
    requires
        is_name(s),
    ensures
        lexer::word_kind(s) == TokenKind::Ident(s),
{
    lemma_word_kinds();
    assert(word_text(TokenKind::If) != Some(s));
    assert(word_text(TokenKind::Else) != Some(s));
    assert(word_text(TokenKind::End) != Some(s));
    assert(word_text(TokenKind::Wait) != Some(s));
    assert(word_text(TokenKind::And) != Some(s));
    assert(word_text(TokenKind::Or) != Some(s));
    assert(word_text(TokenKind::Not) != Some(s));
}

/// The digits of a number have its value, and there are only digits.
pub proof fn law_digits_have_value(n: nat)
    ensures
        lexer::digits_value(text::nat_text(n)) == n,
        text::nat_text(n).len() > 0,
        forall|i: int| 0 <= i < text::nat_text(n).len() ==> is_figure(#[trigger] text::nat_text(n)[i]),
        n > 0 ==> text::nat_text(n)[0] != '0',
    decreases n,
{
    let s = text::nat_text(n);
    if n < 10 {
        assert(s.drop_last() =~= Seq::empty());
        assert(lexer::digits_value(Seq::empty()) == 0);
    } else {
        law_digits_have_value(n / 10);
        assert(s.drop_last() =~= text::nat_text(n / 10));
        assert(s[0] == text::nat_text(n / 10)[0]);
    }
}

/// Zeros in front change no value.
pub proof fn law_leading_zero(s: Seq<char>)
    ensures
        lexer::digits_value(seq!['0'] + s) == lexer::digits_value(s),
    decreases s.len(),
{
    let t = seq!['0'] + s;
    if s.len() == 0 {
        assert(t.drop_last() =~= Seq::empty());
        assert(lexer::digits_value(Seq::empty()) == 0);
    } else {
        law_leading_zero(s.drop_last());
        assert(t.drop_last() =~= seq!['0'] + s.drop_last());
    }
}

proof fn lemma_integer(cs: Seq<char>, i: int, n: i64)
    requires
        n >= 0,
        stands_alone(cs, i, text::nat_text(n as nat)),
    ensures
        lexer::scan_at(cs, i) == lexer::kind_scan(
            TokenKind::Integer(n),
            i + text::nat_text(n as nat).len(),
        ),
{
    let t = text::nat_text(n as nat);
    law_digits_have_value(n as nat);
    assert(cs[i + 0] == t[0]);
    let e = i + t.len();
    assert forall|j: int| i <= j < e implies lexer::is_digit(#[trigger] cs[j]) by {
        let d = j - i;
        assert(cs[i + d] == t[d]);
    }
    lemma_digits_end(cs, i, e);
    assert(cs.subrange(i, e) =~= t) by {
        assert forall|j: int| 0 <= j < t.len() implies cs.subrange(i, e)[j] == t[j] by {
            assert(cs[i + j] == t[j]);
        }
    }
}

proof fn lemma_decimal(cs: Seq<char>, i: int, s: Seq<char>, k: int)
    requires
        is_decimal(s, k),
        stands_alone(cs, i, s),
    ensures
        lexer::scan_at(cs, i) == lexer::kind_scan(TokenKind::Float(s), i + s.len()),
{
    assert(cs[i + 0] == s[0]);
    assert(cs[i + k] == s[k]);
    assert(cs[i + (k + 1)] == s[k + 1]);
    let e = i + s.len();
    assert forall|j: int| i <= j < e && j != i + k implies lexer::is_digit(#[trigger] cs[j]) by {
        let d = j - i;
        assert(cs[i + d] == s[d]);
    }
    lemma_digits_end(cs, i, i + k);
    lemma_digits_end(cs, i + k + 1, e);
    assert(cs.subrange(i, e) =~= s) by {
        assert forall|j: int| 0 <= j < s.len() implies cs.subrange(i, e)[j] == s[j] by {
            assert(cs[i + j] == s[j]);
        }
    }
}

/// The part of a string that is still to be read.
proof fn lemma_string(cs: Seq<char>, i: int, quote: char, s: Seq<char>, n: int)
    requires
        quote == '"' || quote == '\'',
        0 <= i,
        0 <= n <= s.len(),
        i + escaped(s).len() < cs.len(),
        forall|j: int| 0 <= j < escaped(s).len() ==> cs[i + j] == #[trigger] escaped(s)[j],
        cs[i + escaped(s).len()] == quote,
    ensures
        0 <= escaped(s.take(n)).len() <= escaped(s).len(),
        lexer::string_scan(cs, i + escaped(s.take(n)).len(), quote, s.take(n)) == lexer::kind_scan(
            TokenKind::String(s),
            i + escaped(s).len() + 1,
        ),
    decreases s.len() - n,
{
    let p = escaped(s.take(n)).len() as int;
    if n < s.len() {
        lemma_string(cs, i, quote, s, n + 1);
        let c = s[n];
        let e = escaped_char(c);
        assert(s.take(n + 1).drop_last() =~= s.take(n));
        assert(escaped(s.take(n + 1)) == escaped(s.take(n)) + e);
        assert forall|j: int| 0 <= j < e.len() implies cs[i + p + j] == e[j] by {
            lemma_escaped_prefix(s, n + 1);
            assert(escaped(s)[p + j] == escaped(s.take(n + 1))[p + j]);
            assert(cs[i + (p + j)] == escaped(s)[p + j]);
        }
        assert(cs[i + p + 0] == e[0]);
        if e.len() == 2 {
            assert(cs[i + p + 1] == e[1]);
            assert(s.take(n) + lexer::escape(e[1]) =~= s.take(n + 1));
        } else {
            assert(s.take(n).push(c) =~= s.take(n + 1));
        }
    } else {
        assert(s.take(n) =~= s);
    }
}

proof fn lemma_escaped_prefix(s: Seq<char>, n: int)
    requires
        0 <= n <= s.len(),
    ensures
        escaped(s.take(n)).len() <= escaped(s).len(),
        forall|j: int|
            0 <= j < escaped(s.take(n)).len() ==> #[trigger] escaped(s)[j] == escaped(
                s.take(n),
            )[j],
    decreases s.len(),
{
    if n < s.len() {
        let f = s.drop_last();
        lemma_escaped_prefix(f, n);
        assert(f.take(n) =~= s.take(n));
        assert forall|j: int| 0 <= j < escaped(s.take(n)).len() implies #[trigger] escaped(s)[j]
            == escaped(s.take(n))[j] by {
            assert(escaped(s)[j] == escaped(f)[j]);
        }
    } else {
        assert(s.take(n) =~= s);
    }
}

/// A text in quotes of either sort is read back as it is, whatever characters it
/// holds.
pub proof fn law_string_reads_back(cs: Seq<char>, i: int, quote: char, s: Seq<char>)
    requires
        quote == '"' || quote == '\'',
        stands_alone(cs, i, seq![quote] + escaped(s) + seq![quote]),
    ensures
        lexer::scan_at(cs, i) == lexer::kind_scan(
            TokenKind::String(s),
            i + escaped(s).len() + 2,
        ),
{
    let t = seq![quote] + escaped(s) + seq![quote];
    assert(cs[i + 0] == t[0]);
    let m = escaped(s).len() as int;
    assert(cs[i + (m + 1)] == t[m + 1]);
    assert forall|j: int| 0 <= j < m implies cs[i + 1 + j] == #[trigger] escaped(s)[j] by {
        assert(cs[i + (j + 1)] == t[j + 1]);
    }
    lemma_string(cs, i + 1, quote, s, 0);
    assert(s.take(0) =~= Seq::empty());
    assert(escaped(Seq::empty()) =~= Seq::empty());
}

/// A backslash before any other character stands for itself.
pub proof fn law_other_escapes_stay(c: char)
    requires
        c != 'n',
        c != 't',
        c != 'r',
        c != '\\',
        c != '"',
        c != '\'',
    ensures
        lexer::escape(c) == seq!['\\', c],
{
}

/// A string that no quote closes on its line is an error.
pub proof fn law_open_string_is_refused(cs: Seq<char>, i: int, quote: char, e: int)
    requires
        0 <= i < e <= cs.len(),
        quote == '"' || quote == '\'',
        cs[i] == quote,
        forall|j: int| i < j < e ==> #[trigger] cs[j] != quote && cs[j] != '\\' && cs[j] != '\n',
        e == cs.len() || cs[e] == '\n',
    ensures
        lexer::scan_at(cs, i).lexeme is Bad,
        lexer::scan_at(cs, i).next == e,
{
    lemma_open_string(cs, i + 1, quote, Seq::empty(), e);
}

proof fn lemma_open_string(cs: Seq<char>, i: int, quote: char, value: Seq<char>, e: int)
    requires
        0 <= i <= e <= cs.len(),
        quote == '"' || quote == '\'',
        forall|j: int| i <= j < e ==> #[trigger] cs[j] != quote && cs[j] != '\\' && cs[j] != '\n',
        e == cs.len() || cs[e] == '\n',
    ensures
        lexer::string_scan(cs, i, quote, value).lexeme is Bad,
        lexer::string_scan(cs, i, quote, value).next == e,
    decreases e - i,
{
    if i < e {
        lemma_open_string(cs, i + 1, quote, value.push(cs[i]), e);
    }
}

/// A token that is written down is read back as it is.
pub proof fn law_token_reads_back(cs: Seq<char>, i: int, k: TokenKind<Seq<char>>)
    requires
        can_be_written(k),
        stands_alone(cs, i, written(k)),
    ensures
        lexer::scan_at(cs, i) == lexer::kind_scan(k, i + written(k).len()),
{
    match k {
        TokenKind::String(s) => {
            law_string_reads_back(cs, i, '"', s);
        },
        TokenKind::Integer(n) => {
            lemma_integer(cs, i, n);
        },
        TokenKind::Float(s) => {
            let p = choose|p: int| #[trigger] is_decimal(s, p);
            lemma_decimal(cs, i, s, p);
        },
        TokenKind::Ident(s) => {
            lemma_word(cs, i, s);
            lemma_name(s);
        },
        _ => {
            if mark_text(k) is Some {
                lemma_mark(cs, i, k);
            } else {
                lemma_word(cs, i, word_text(k)->0);
                lemma_keyword(k);
            }
        },
    }
}

/// The words for truth are read as the numbers one and zero, and `!` alone as `not`.
pub proof fn law_truth_words(cs: Seq<char>, i: int)
    ensures
        stands_alone(cs, i, seq!['t', 'r', 'u', 'e']) ==> lexer::scan_at(cs, i)
            == lexer::kind_scan(TokenKind::Integer(1), i + 4),
        stands_alone(cs, i, seq!['f', 'a', 'l', 's', 'e']) ==> lexer::scan_at(cs, i)
            == lexer::kind_scan(TokenKind::Integer(0), i + 5),
        stands_alone(cs, i, seq!['!']) ==> lexer::scan_at(cs, i) == lexer::kind_scan(
            TokenKind::Not,
            i + 1,
        ),
{
    lemma_word_kinds();
    let t = seq!['t', 'r', 'u', 'e'];
    let f = seq!['f', 'a', 'l', 's', 'e'];
    let x = seq!['!'];
    if stands_alone(cs, i, t) {
        lemma_word(cs, i, t);
        assert(t[0] == 't');
        assert("else"@[0] == 'e');
        assert("wait"@[0] == 'w');
    }
    if stands_alone(cs, i, f) {
        lemma_word(cs, i, f);
    }
    if stands_alone(cs, i, x) {
        assert(cs[i + 0] == x[0]);
    }
}

/// Two hyphens and what follows them on the line are passed over.
pub proof fn law_comments_are_passed_over(cs: Seq<char>, i: int, e: int)
    requires
        0 <= i,
        i + 2 <= e <= cs.len(),
        cs[i] == '-',
        cs[i + 1] == '-',
        forall|j: int| i <= j < e ==> #[trigger] cs[j] != '\n',
        e == cs.len() || cs[e] == '\n',
    ensures
        lexer::scan_at(cs, i).lexeme is Nothing,
        lexer::scan_at(cs, i).next == e,
{
    lemma_line_end(cs, i, e);
}

proof fn lemma_line_end(cs: Seq<char>, i: int, e: int)
    requires
        0 <= i <= e <= cs.len(),
        forall|j: int| i <= j < e ==> #[trigger] cs[j] != '\n',
        e == cs.len() || cs[e] == '\n',
    ensures
        lexer::line_end(cs, i) == e,
    decreases e - i,
{
    if i < e {
        lemma_line_end(cs, i + 1, e);
    }
}

// ---------------------------------------------------------------------------
// Whole sources
// ---------------------------------------------------------------------------

/// Tokens written down, with a blank behind each and a newline for the end of a line.
pub open spec fn source_of(ks: Seq<TokenKind<Seq<char>>>) -> Seq<char>
    decreases ks.len(),
{
    if ks.len() == 0 {
        Seq::empty()
    } else {
        source_of(ks.drop_last()) + (if ks.last() is Newline {
            seq!['\n']
        } else {
            written(ks.last()) + seq![' ']
        })
    }
}

/// Whether tokens are lines that can be written: no line is empty, and each ends.
pub open spec fn are_lines(ks: Seq<TokenKind<Seq<char>>>) -> bool {
    &&& forall|i: int|
        0 <= i < ks.len() ==> (#[trigger] ks[i] is Newline || can_be_written(ks[i]))
    &&& forall|i: int|
        0 <= i < ks.len() && #[trigger] ks[i] is Newline ==> i > 0 && !(ks[i - 1] is Newline)
    &&& ks.len() == 0 || ks.last() is Newline
}

proof fn lemma_source_prefix(ks: Seq<TokenKind<Seq<char>>>, n: int)
    requires
        0 <= n <= ks.len(),
    ensures
        source_of(ks.take(n)).len() <= source_of(ks).len(),
        forall|j: int|
            0 <= j < source_of(ks.take(n)).len() ==> #[trigger] source_of(ks)[j] == source_of(
                ks.take(n),
            )[j],
    decreases ks.len(),
{
    if n < ks.len() {
        let f = ks.drop_last();
        lemma_source_prefix(f, n);
        assert(f.take(n) =~= ks.take(n));
        assert forall|j: int| 0 <= j < source_of(ks.take(n)).len() implies #[trigger] source_of(
            ks,
        )[j] == source_of(ks.take(n))[j] by {
            assert(source_of(ks)[j] == source_of(f)[j]);
        }
    } else {
        assert(ks.take(n) =~= ks);
    }
}

proof fn lemma_lexed(ks: Seq<TokenKind<Seq<char>>>, n: int, l: Lexed)
    requires
        are_lines(ks),
        0 <= n <= ks.len(),
        lexer_laws::kinds(l.tokens) == ks.take(n),
        l.errors.len() == 0,
    ensures
        ({
            let r = lexer::lex_from(source_of(ks), source_of(ks.take(n)).len() as int, l);
            lexer_laws::kinds(r.tokens) == ks && r.errors.len() == 0
        }),
    decreases ks.len() - n,
{
    let cs = source_of(ks);
    let p = source_of(ks.take(n)).len() as int;
    if n == ks.len() {
        assert(ks.take(n) =~= ks);
    } else {
        let k = ks[n];
        let next = ks.take(n + 1);
        assert(next.drop_last() =~= ks.take(n));
        lemma_source_prefix(ks, n + 1);
        let q = source_of(next).len() as int;
        assert forall|j: int| p <= j < q implies cs[j] == source_of(next)[j] by {}
        assert(l.tokens.len() == n) by {
            assert(lexer_laws::kinds(l.tokens).len() == n);
        }
        let after = lexer::add_lexeme(cs, p, l);
        if k is Newline {
            assert(source_of(next)[p] == '\n');
            assert(!lexer::line_ended(l.tokens)) by {
                assert(lexer_laws::kinds(l.tokens)[n - 1] == ks[n - 1]);
            }
            assert(lexer_laws::kinds(after.tokens) =~= next);
            lemma_lexed(ks, n + 1, after);
        } else {
            let t = written(k);
            assert(stands_alone(cs, p, t)) by {
                assert forall|j: int| 0 <= j < t.len() implies cs[p + j] == #[trigger] t[j] by {
                    assert(source_of(next)[p + j] == (t + seq![' '])[j]);
                }
                assert(source_of(next)[p + t.len()] == (t + seq![' '])[t.len() as int]);
            }
            law_token_reads_back(cs, p, k);
            assert(written(k).len() > 0) by {
                match k {
                    TokenKind::Integer(x) => {
                        law_digits_have_value(x as nat);
                    },
                    _ => {},
                }
            }
            assert(lexer_laws::kinds(after.tokens) =~= next);
            assert(lexer::add_lexeme(cs, q - 1, after) == after);
            lemma_lexed(ks, n + 1, after);
            assert(lexer::lex_from(cs, q - 1, after) == lexer::lex_from(cs, q, after));
        }
    }
}

/// A source that is written down token by token gives those tokens and the end mark,
/// and no error.
pub proof fn law_source_reads_back(ks: Seq<TokenKind<Seq<char>>>)
    requires
        are_lines(ks),
    ensures
        lexer_laws::kinds(lexer::lexed(source_of(ks)).tokens) == ks.push(TokenKind::Eof),
        lexer::lexed(source_of(ks)).errors.len() == 0,
{
    let l = Lexed { tokens: Seq::empty(), errors: Seq::empty() };
    assert(lexer_laws::kinds(l.tokens) =~= ks.take(0));
    assert(source_of(ks.take(0)).len() == 0);
    lemma_lexed(ks, 0, l);
    let r = lexer::lex_from(source_of(ks), 0, l);
    assert(r.tokens.len() == ks.len()) by {
        assert(lexer_laws::kinds(r.tokens).len() == ks.len());
    }
    assert(lexer::line_ended(r.tokens)) by {
        if ks.len() > 0 {
            assert(lexer_laws::kinds(r.tokens)[ks.len() - 1] == ks.last());
        }
    }
    assert forall|i: int| 0 <= i < ks.len() implies r.tokens[i].kind == ks[i] by {
        assert(lexer_laws::kinds(r.tokens)[i] == ks[i]);
    }
    assert(lexer_laws::kinds(lexer::lexed(source_of(ks)).tokens) =~= ks.push(TokenKind::Eof));
}

// ---------------------------------------------------------------------------
// Places
// ---------------------------------------------------------------------------

/// The characters of a line are counted from one; a newline starts the next line.
pub proof fn law_lines_and_columns(cs: Seq<char>, i: int, n: int)
    requires
        0 <= i,
        0 <= n,
        i + n <= cs.len(),
        n < usize::MAX,
        i == 0 || cs[i - 1] == '\n',
        forall|j: int| i <= j < i + n ==> #[trigger] cs[j] != '\n',
    ensures
        lexer::linecol_at(cs, i + n).col == n + 1,
        lexer::linecol_at(cs, i + n).line == lexer::linecol_at(cs, i).line,
        lexer::linecol_at(cs, 0).line == 1,
        i > 0 && lexer::linecol_at(cs, i - 1).line < usize::MAX ==> lexer::linecol_at(cs, i).line
            == lexer::linecol_at(cs, i - 1).line + 1,
    decreases n,
{
    if n > 0 {
        law_lines_and_columns(cs, i, n - 1);
    }
}

} // verus!
