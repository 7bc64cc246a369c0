//! Indentation has no meaning.

use crate::lexer;
use crate::lexer::{Lexed, Lexeme, LexError};
use crate::token::{Token, TokenKind};
use vstd::prelude::*;

verus! {

/// The source from `i` on without the blanks that lines begin with. `fresh`
/// tells whether only blanks stand before `i` on its line.
pub open spec fn unindented_from(cs: Seq<char>, i: int, fresh: bool) -> Seq<char>
    decreases cs.len() - i,
{
    if i < 0 || i >= cs.len() {
        Seq::empty()
    } else if fresh && (cs[i] == ' ' || cs[i] == '\t') {
        unindented_from(cs, i + 1, true)
    } else {
        seq![cs[i]] + unindented_from(cs, i + 1, cs[i] == '\n')
    }
}

/// The source without the blanks that lines begin with.
pub open spec fn unindented(cs: Seq<char>) -> Seq<char> {
    unindented_from(cs, 0, true)
}

/// What tokens there are, whatever their places.
pub open spec fn kinds(tokens: Seq<Token<Seq<char>>>) -> Seq<TokenKind<Seq<char>>> {
    Seq::new(tokens.len(), |i: int| tokens[i].kind)
}

/// What errors there are, whatever their places.
pub open spec fn messages(errors: Seq<LexError<Seq<char>>>) -> Seq<Seq<char>> {
    Seq::new(errors.len(), |i: int| errors[i].message)
}

spec fn alike(a: Lexed, b: Lexed) -> bool {
    kinds(a.tokens) == kinds(b.tokens) && messages(a.errors) == messages(b.errors)
}

/// Whether the rest of a line, `n` characters from `i` on, is that of another,
/// from `j` on, and has no backslash.
spec fn same_rest(cs: Seq<char>, i: int, ds: Seq<char>, j: int, n: int) -> bool {
    &&& 0 <= i && 0 <= j && 0 <= n
    &&& i + n <= cs.len()
    &&& j + n <= ds.len()
    &&& forall|k: int| 0 <= k < n ==> #[trigger] cs[i + k] == ds[j + k]
    &&& forall|k: int| 0 <= k < n ==> #[trigger] cs[i + k] != '\n' && cs[i + k] != '\\'
    &&& (i + n == cs.len()) == (j + n == ds.len())
    &&& i + n < cs.len() ==> cs[i + n] == '\n' && ds[j + n] == '\n'
}

proof fn lemma_rest_on(cs: Seq<char>, i: int, ds: Seq<char>, j: int, n: int)
    requires
        same_rest(cs, i, ds, j, n),
        n > 0,
    ensures
        same_rest(cs, i + 1, ds, j + 1, n - 1),
        cs[i] == ds[j],
        cs[i] != '\n',
        cs[i] != '\\',
{
    assert(cs[i + 0] == ds[j + 0]);
    assert forall|k: int| 0 <= k < n - 1 implies #[trigger] cs[i + 1 + k] == ds[j + 1 + k] by {
        assert(cs[i + (k + 1)] == ds[j + (k + 1)]);
    }
    assert forall|k: int| 0 <= k < n - 1 implies #[trigger] cs[i + 1 + k] != '\n' && cs[i + 1 + k]
        != '\\' by {
        assert(cs[i + (k + 1)] != '\n');
    }
}

proof fn lemma_line_end(cs: Seq<char>, i: int, ds: Seq<char>, j: int, n: int)
    requires
        same_rest(cs, i, ds, j, n),
    ensures
        lexer::line_end(cs, i) == i + n,
        lexer::line_end(ds, j) == j + n,
    decreases n,
{
    if n > 0 {
        lemma_rest_on(cs, i, ds, j, n);
        lemma_line_end(cs, i + 1, ds, j + 1, n - 1);
    }
}

proof fn lemma_ident_end(cs: Seq<char>, i: int, ds: Seq<char>, j: int, n: int)
    requires
        same_rest(cs, i, ds, j, n),
    ensures
        lexer::ident_end(cs, i) - i == lexer::ident_end(ds, j) - j,
        i <= lexer::ident_end(cs, i) <= i + n,
    decreases n,
{
    if n > 0 {
        lemma_rest_on(cs, i, ds, j, n);
        lemma_ident_end(cs, i + 1, ds, j + 1, n - 1);
    }
}

proof fn lemma_digits_end(cs: Seq<char>, i: int, ds: Seq<char>, j: int, n: int)
    requires
        same_rest(cs, i, ds, j, n),
    ensures
        lexer::digits_end(cs, i) - i == lexer::digits_end(ds, j) - j,
        i <= lexer::digits_end(cs, i) <= i + n,
    decreases n,
{
    if n > 0 {
        lemma_rest_on(cs, i, ds, j, n);
        lemma_digits_end(cs, i + 1, ds, j + 1, n - 1);
    }
}

proof fn lemma_string(
    cs: Seq<char>,
    i: int,
    ds: Seq<char>,
    j: int,
    n: int,
    quote: char,
    value: Seq<char>,
)
    requires
        same_rest(cs, i, ds, j, n),
        quote != '\n',
    ensures
        ({
            let a = lexer::string_scan(cs, i, quote, value);
            let b = lexer::string_scan(ds, j, quote, value);
            a.lexeme == b.lexeme && a.next - i == b.next - j && i <= a.next <= i + n
        }),
    decreases n,
{
    if n > 0 {
        lemma_rest_on(cs, i, ds, j, n);
        lemma_string(cs, i + 1, ds, j + 1, n - 1, quote, value.push(cs[i]));
    }
}

proof fn lemma_part(cs: Seq<char>, i: int, ds: Seq<char>, j: int, n: int, d: int)
    requires
        same_rest(cs, i, ds, j, n),
        0 <= d <= n,
    ensures
        cs.subrange(i, i + d) == ds.subrange(j, j + d),
        same_rest(cs, i + d, ds, j + d, n - d),
{
    assert forall|k: int| 0 <= k < d implies #[trigger] cs.subrange(i, i + d)[k] == ds.subrange(
        j,
        j + d,
    )[k] by {
        assert(cs[i + k] == ds[j + k]);
    }
    assert(cs.subrange(i, i + d) =~= ds.subrange(j, j + d));
    assert forall|k: int| 0 <= k < n - d implies #[trigger] cs[i + d + k] == ds[j + d + k] by {
        assert(cs[i + (d + k)] == ds[j + (d + k)]);
    }
    assert forall|k: int| 0 <= k < n - d implies #[trigger] cs[i + d + k] != '\n' && cs[i + d + k]
        != '\\' by {
        assert(cs[i + (d + k)] != '\n');
    }
}

proof fn lemma_number(cs: Seq<char>, i: int, ds: Seq<char>, j: int, n: int)
    requires
        same_rest(cs, i, ds, j, n),
        n > 0,
        lexer::is_digit(cs[i]),
    ensures
        ({
            let a = lexer::number_scan(cs, i);
            let b = lexer::number_scan(ds, j);
            a.lexeme == b.lexeme && a.next - i == b.next - j && i < a.next <= i + n
        }),
{
    lemma_rest_on(cs, i, ds, j, n);
    lemma_digits_end(cs, i, ds, j, n);
    lemma_digits_end(cs, i + 1, ds, j + 1, n - 1);
    let d = lexer::digits_end(cs, i) - i;
    lemma_part(cs, i, ds, j, n, d);
    if d < n {
        lemma_rest_on(cs, i + d, ds, j + d, n - d);
        if d + 1 < n {
            lemma_rest_on(cs, i + d + 1, ds, j + d + 1, n - d - 1);
        }
        lemma_digits_end(cs, i + d + 1, ds, j + d + 1, n - d - 1);
        let e = lexer::digits_end(cs, i + d + 1) - i;
        lemma_part(cs, i, ds, j, n, e);
    }
}

/// A lexeme is read from its line alone.
proof fn lemma_scan(cs: Seq<char>, i: int, ds: Seq<char>, j: int, n: int)
    requires
        same_rest(cs, i, ds, j, n),
        n > 0,
    ensures
        ({
            let a = lexer::scan_at(cs, i);
            let b = lexer::scan_at(ds, j);
            a.lexeme == b.lexeme && a.next - i == b.next - j && i < a.next <= i + n
        }),
{
    lemma_rest_on(cs, i, ds, j, n);
    if n > 1 {
        lemma_rest_on(cs, i + 1, ds, j + 1, n - 1);
    }
    let c = cs[i];
    lemma_line_end(cs, i, ds, j, n);
    lemma_string(cs, i + 1, ds, j + 1, n - 1, c, Seq::empty());
    if lexer::is_digit(c) {
        lemma_number(cs, i, ds, j, n);
    }
    lemma_ident_end(cs, i, ds, j, n);
    lemma_ident_end(cs, i + 1, ds, j + 1, n - 1);
    lemma_part(cs, i, ds, j, n, lexer::ident_end(cs, i) - i);
}

proof fn lemma_add(cs: Seq<char>, i: int, a: Lexed, ds: Seq<char>, j: int, b: Lexed)
    requires
        alike(a, b),
        lexer::scan_at(cs, i).lexeme == lexer::scan_at(ds, j).lexeme,
    ensures
        alike(lexer::add_lexeme(cs, i, a), lexer::add_lexeme(ds, j, b)),
{
    let x = lexer::add_lexeme(cs, i, a);
    let y = lexer::add_lexeme(ds, j, b);
    lemma_line_ended(a, b);
    match lexer::scan_at(cs, i).lexeme {
        Lexeme::Nothing => {},
        Lexeme::LineEnd => {
            if !lexer::line_ended(a.tokens) {
                assert(kinds(x.tokens) =~= kinds(a.tokens).push(TokenKind::Newline));
                assert(kinds(y.tokens) =~= kinds(b.tokens).push(TokenKind::Newline));
            }
        },
        Lexeme::Kind(k) => {
            assert(kinds(x.tokens) =~= kinds(a.tokens).push(k));
            assert(kinds(y.tokens) =~= kinds(b.tokens).push(k));
        },
        Lexeme::Bad(m) => {
            assert(messages(x.errors) =~= messages(a.errors).push(m));
            assert(messages(y.errors) =~= messages(b.errors).push(m));
        },
    }
}

proof fn lemma_line_ended(a: Lexed, b: Lexed)
    requires
        alike(a, b),
    ensures
        lexer::line_ended(a.tokens) == lexer::line_ended(b.tokens),
{
    assert(kinds(a.tokens).len() == kinds(b.tokens).len());
    if a.tokens.len() > 0 {
        let last = a.tokens.len() - 1;
        assert(kinds(a.tokens)[last] == kinds(b.tokens)[last]);
    }
}

/// The rest of a line stands in the unindented source as it is.
proof fn lemma_line_kept(cs: Seq<char>, i: int, u: Seq<char>, p: int) -> (n: int)
    requires
        !cs.contains('\\'),
        0 <= i <= cs.len(),
        0 <= p <= u.len(),
        u.subrange(p, u.len() as int) == unindented_from(cs, i, false),
    ensures
        same_rest(cs, i, u, p, n),
        forall|k: int|
            0 <= k <= n ==> u.subrange(p + k, u.len() as int) == #[trigger] unindented_from(
                cs,
                i + k,
                false,
            ),
    decreases cs.len() - i,
{
    let tail = u.subrange(p, u.len() as int);
    if i == cs.len() {
        assert(tail.len() == 0);
        0
    } else {
        let more = unindented_from(cs, i + 1, cs[i] == '\n');
        assert(tail == seq![cs[i]] + more);
        assert(tail.len() > 0);
        assert(tail[0] == u[p]);
        if cs[i] == '\n' {
            0
        } else {
            assert(cs.contains(cs[i]));
            assert(u.subrange(p + 1, u.len() as int) =~= tail.subrange(1, tail.len() as int));
            assert(tail.subrange(1, tail.len() as int) =~= more);
            let n = lemma_line_kept(cs, i + 1, u, p + 1);
            assert forall|k: int| 0 <= k <= n + 1 implies u.subrange(p + k, u.len() as int)
                == #[trigger] unindented_from(cs, i + k, false) by {
                if k > 0 {
                    assert(i + 1 + (k - 1) == i + k);
                    assert(u.subrange(p + 1 + (k - 1), u.len() as int) == unindented_from(
                        cs,
                        i + 1 + (k - 1),
                        false,
                    ));
                }
            }
            assert forall|k: int| 0 <= k < n + 1 implies #[trigger] cs[i + k] == u[p + k] by {
                if k > 0 {
                    assert(cs[i + 1 + (k - 1)] == u[p + 1 + (k - 1)]);
                }
            }
            assert forall|k: int| 0 <= k < n + 1 implies #[trigger] cs[i + k] != '\n' && cs[i + k]
                != '\\' by {
                if k > 0 {
                    assert(cs[i + 1 + (k - 1)] != '\n');
                }
            }
            n + 1
        }
    }
}

proof fn lemma_lex_alike(
    cs: Seq<char>,
    i: int,
    fresh: bool,
    a: Lexed,
    u: Seq<char>,
    p: int,
    b: Lexed,
)
    requires
        !cs.contains('\\'),
        0 <= i <= cs.len(),
        0 <= p <= u.len(),
        u.subrange(p, u.len() as int) == unindented_from(cs, i, fresh),
        alike(a, b),
    ensures
        alike(lexer::lex_from(cs, i, a), lexer::lex_from(u, p, b)),
    decreases cs.len() - i,
{
    let tail = u.subrange(p, u.len() as int);
    if i == cs.len() {
        assert(tail.len() == 0);
    } else if fresh && (cs[i] == ' ' || cs[i] == '\t') {
        lemma_lex_alike(cs, i + 1, true, a, u, p, b);
    } else {
        let more = unindented_from(cs, i + 1, cs[i] == '\n');
        assert(tail == seq![cs[i]] + more);
        assert(tail.len() > 0);
        assert(tail[0] == u[p]);
        if cs[i] == '\n' {
            assert(u.subrange(p + 1, u.len() as int) =~= tail.subrange(1, tail.len() as int));
            assert(tail.subrange(1, tail.len() as int) =~= more);
            lemma_add(cs, i, a, u, p, b);
            lemma_lex_alike(
                cs,
                i + 1,
                true,
                lexer::add_lexeme(cs, i, a),
                u,
                p + 1,
                lexer::add_lexeme(u, p, b),
            );
        } else {
            assert(unindented_from(cs, i, false) == unindented_from(cs, i, fresh));
            let n = lemma_line_kept(cs, i, u, p);
            assert(n > 0);
            lemma_scan(cs, i, u, p, n);
            lemma_add(cs, i, a, u, p, b);
            let d = lexer::scan_at(cs, i).next - i;
            assert(u.subrange(p + d, u.len() as int) == unindented_from(cs, i + d, false));
            lemma_lex_alike(
                cs,
                i + d,
                false,
                lexer::add_lexeme(cs, i, a),
                u,
                p + d,
                lexer::add_lexeme(u, p, b),
            );
        }
    }
}

/// A source without its indentation has the same tokens and errors.
proof fn lemma_unindented(cs: Seq<char>)
    requires
        !cs.contains('\\'),
    ensures
        alike(lexer::lexed(cs), lexer::lexed(unindented(cs))),
{
    let u = unindented(cs);
    let start = Lexed { tokens: Seq::empty(), errors: Seq::empty() };
    assert(u.subrange(0, u.len() as int) =~= u);
    lemma_lex_alike(cs, 0, true, start, u, 0, start);
    let a = lexer::lex_from(cs, 0, start);
    let b = lexer::lex_from(u, 0, start);
    lemma_line_ended(a, b);
    let (x, y) = (lexer::lexed(cs), lexer::lexed(u));
    if lexer::line_ended(a.tokens) {
        assert(kinds(x.tokens) =~= kinds(a.tokens).push(TokenKind::Eof));
        assert(kinds(y.tokens) =~= kinds(b.tokens).push(TokenKind::Eof));
    } else {
        assert(kinds(x.tokens) =~= kinds(a.tokens).push(TokenKind::Newline).push(TokenKind::Eof));
        assert(kinds(y.tokens) =~= kinds(b.tokens).push(TokenKind::Newline).push(TokenKind::Eof));
    }
}

/// Indentation is visual only: two sources without backslashes that differ in
/// nothing but the blanks at the beginnings of lines have the same tokens and
/// the same errors, whatever their places.
pub proof fn law_indentation_is_visual(a: Seq<char>, b: Seq<char>)
    requires
        !a.contains('\\'),
        !b.contains('\\'),
        unindented(a) == unindented(b),
    ensures
        kinds(lexer::lexed(a).tokens) == kinds(lexer::lexed(b).tokens),
        messages(lexer::lexed(a).errors) == messages(lexer::lexed(b).errors),
        (lexer::lexed(a).errors.len() == 0) == (lexer::lexed(b).errors.len() == 0),
{
    lemma_unindented(a);
    lemma_unindented(b);
    assert(messages(lexer::lexed(a).errors).len() == messages(lexer::lexed(b).errors).len());
}

} // verus!
