//! Laws of the colours of scripts.

use crate::highlight;
use crate::highlight::{Piece, Stretch};
use crate::palette::{
    COLOR_CHOICE, COLOR_COMMAND, COLOR_COMMENT, COLOR_DEFAULT, COLOR_DIRECTION, COLOR_FLOW,
    COLOR_SECTION, COLOR_STRING, COLOR_VARIABLE,
};
use crate::slices;
use crate::text;
use crate::text_laws;
use vstd::prelude::*;

verus! {

proof fn lemma_pair(t: Seq<char>, p: Seq<char>)
    requires
        p.len() == 2,
    ensures
        text::starts_with(t, p) <==> t.len() >= 2 && t[0] == p[0] && t[1] == p[1],
{
    if t.len() >= 2 && t[0] == p[0] && t[1] == p[1] {
        assert(t.subrange(0, 2) =~= p);
    }
    if text::starts_with(t, p) {
        assert(t.subrange(0, 2)[0] == t[0]);
        assert(t.subrange(0, 2)[1] == t[1]);
    }
}

pub proof fn lemma_pairs(t: Seq<char>)
    ensures
        text::starts_with(t, "//"@) <==> t.len() >= 2 && t[0] == '/' && t[1] == '/',
        text::starts_with(t, "->"@) <==> t.len() >= 2 && t[0] == '-' && t[1] == '>',
        text::starts_with(t, "=>"@) <==> t.len() >= 2 && t[0] == '=' && t[1] == '>',
        text::starts_with(t, "<="@) <==> t.len() >= 2 && t[0] == '<' && t[1] == '=',
        text::starts_with(t, "~~"@) <==> t.len() >= 2 && t[0] == '~' && t[1] == '~',
{
    reveal_strlit("//");
    reveal_strlit("->");
    reveal_strlit("=>");
    reveal_strlit("<=");
    reveal_strlit("~~");
    lemma_pair(t, "//"@);
    lemma_pair(t, "->"@);
    lemma_pair(t, "=>"@);
    lemma_pair(t, "<="@);
    lemma_pair(t, "~~"@);
}

/// A line has the colour of the mark that it begins with.
pub proof fn law_line_colours(x: Seq<char>)
    ensures
        highlight::base_color(seq!['#'] + x) == COLOR_SECTION,
        highlight::base_color(seq!['/', '/'] + x) == COLOR_COMMENT,
        highlight::base_color(seq!['-', '>'] + x) == COLOR_FLOW,
        highlight::base_color(seq!['=', '>'] + x) == COLOR_FLOW,
        highlight::base_color(seq!['<', '='] + x) == COLOR_FLOW,
        highlight::base_color(seq!['~', '~'] + x) == COLOR_FLOW,
        highlight::base_color(seq!['@'] + x) == COLOR_COMMAND,
        highlight::base_color(seq!['+'] + x) == COLOR_DIRECTION,
        highlight::base_color(seq!['-', ' '] + x) == COLOR_DIRECTION,
        highlight::base_color(seq!['$'] + x) == COLOR_VARIABLE,
        highlight::base_color(seq!['?'] + x) == COLOR_CHOICE,
        highlight::base_color(seq!['|'] + x) == COLOR_CHOICE,
        highlight::base_color(seq!['"'] + x) == COLOR_DEFAULT,
{
    lemma_pairs(seq!['#'] + x);
    lemma_pairs(seq!['/', '/'] + x);
    lemma_pairs(seq!['-', '>'] + x);
    lemma_pairs(seq!['=', '>'] + x);
    lemma_pairs(seq!['<', '='] + x);
    lemma_pairs(seq!['~', '~'] + x);
    lemma_pairs(seq!['@'] + x);
    lemma_pairs(seq!['+'] + x);
    lemma_pairs(seq!['-', ' '] + x);
    lemma_pairs(seq!['$'] + x);
    lemma_pairs(seq!['?'] + x);
    lemma_pairs(seq!['|'] + x);
    lemma_pairs(seq!['"'] + x);
    reveal_strlit("ending ");
    reveal_strlit("unlock ");
    let q = seq!['"'] + x;
    assert("ending "@[0] == 'e' && "unlock "@[0] == 'u');
    if text::starts_with(q, "ending "@) {
        assert(q.subrange(0, 7)[0] == q[0]);
    }
    if text::starts_with(q, "unlock "@) {
        assert(q.subrange(0, 7)[0] == q[0]);
    }
}

/// The words for endings and for what is unlocked have the colour of the flow.
pub proof fn law_word_colours(x: Seq<char>)
    ensures
        highlight::base_color("ending "@ + x) == COLOR_FLOW,
        highlight::base_color("unlock "@ + x) == COLOR_FLOW,
{
    reveal_strlit("ending ");
    reveal_strlit("unlock ");
    let e = "ending "@ + x;
    let u = "unlock "@ + x;
    assert(e[0] == 'e' && u[0] == 'u');
    lemma_pairs(e);
    lemma_pairs(u);
    assert(e.subrange(0, 7) =~= "ending "@);
    assert(u.subrange(0, 7) =~= "unlock "@);
}

/// The colours differ from each other.
pub proof fn law_colours_differ()
    ensures
        seq![
            COLOR_SECTION,
            COLOR_FLOW,
            COLOR_COMMAND,
            COLOR_DIRECTION,
            COLOR_VARIABLE,
            COLOR_CHOICE,
            COLOR_COMMENT,
            COLOR_STRING,
            COLOR_DEFAULT,
        ].no_duplicates(),
{
}

/// A comment takes the rest of its line, and what stands before it has the colour of the
/// line.
pub proof fn law_comment_takes_the_rest(line: Seq<char>, p: int)
    requires
        text::occurs_at(line, "//"@, p),
        forall|i: int| 0 <= i < p ==> !text::occurs_at(line, "//"@, i),
    ensures
        ({
            let s = highlight::stretches(line);
            let tail = Stretch { start: p, end: line.len() as int, color: COLOR_COMMENT };
            let head = Stretch {
                start: 0,
                end: p,
                color: highlight::base_color(slices::trim_start(line)),
            };
            s == (if p > 0 {
                seq![head, tail]
            } else {
                seq![tail]
            })
        }),
{
    text_laws::law_first_occurrence(line, "//"@, p);
    assert(highlight::stretches(line) =~= (if p > 0 {
        seq![
            Stretch {
                start: 0,
                end: p,
                color: highlight::base_color(slices::trim_start(line)),
            },
            Stretch { start: p, end: line.len() as int, color: COLOR_COMMENT },
        ]
    } else {
        seq![Stretch { start: p, end: line.len() as int, color: COLOR_COMMENT }]
    }));
}

proof fn lemma_no_quote(
    line: Seq<char>,
    base: u32,
    i: int,
    k: int,
    last: int,
    open: Option<int>,
)
    requires
        0 <= i <= k <= line.len(),
        forall|j: int| i <= j < k ==> #[trigger] line[j] != '"',
    ensures
        highlight::quote_stretches(line, base, i, last, open) == highlight::quote_stretches(
            line,
            base,
            k,
            last,
            open,
        ),
    decreases k - i,
{
    if i < k {
        lemma_no_quote(line, base, i + 1, k, last, open);
    }
}

/// A quoted text has a colour of its own, quotes and all, and what stands around it has
/// the colour of the line.
pub proof fn law_quoted_text_is_coloured(line: Seq<char>, a: int, b: int)
    requires
        0 < a < b < line.len() - 1,
        line[a] == '"',
        line[b] == '"',
        forall|j: int| 0 <= j < line.len() && j != a && j != b ==> #[trigger] line[j] != '"',
        !text::contains(line, "//"@),
    ensures
        ({
            let base = highlight::base_color(slices::trim_start(line));
            highlight::stretches(line) == seq![
                Stretch { start: 0, end: a, color: base },
                Stretch { start: a, end: b + 1, color: COLOR_STRING },
                Stretch { start: b + 1, end: line.len() as int, color: base },
            ]
        }),
{
    let base = highlight::base_color(slices::trim_start(line));
    let n = line.len() as int;
    lemma_no_quote(line, base, 0, a, 0, None);
    lemma_no_quote(line, base, a + 1, b, 0, Some(a));
    lemma_no_quote(line, base, b + 1, n, b + 1, None);
    let end = seq![Stretch { start: b + 1, end: n, color: base }];
    assert(highlight::quote_stretches(line, base, n, b + 1, None) == end);
    assert(highlight::quote_stretches(line, base, b, 0, Some(a)) == seq![
        Stretch { start: a, end: b + 1, color: COLOR_STRING },
    ] + end);
    assert(highlight::stretches(line) =~= seq![
        Stretch { start: 0, end: a, color: base },
        Stretch { start: a, end: b + 1, color: COLOR_STRING },
        Stretch { start: b + 1, end: n, color: base },
    ]);
}

/// A quoted text that is not closed colours the whole line.
pub proof fn law_open_quote_colours_the_line(line: Seq<char>, a: int)
    requires
        0 <= a < line.len(),
        line[a] == '"',
        forall|j: int| 0 <= j < line.len() && j != a ==> #[trigger] line[j] != '"',
        !text::contains(line, "//"@),
    ensures
        highlight::stretches(line).last() == (Stretch {
            start: 0,
            end: line.len() as int,
            color: COLOR_STRING,
        }),
{
    let base = highlight::base_color(slices::trim_start(line));
    let n = line.len() as int;
    lemma_no_quote(line, base, 0, a, 0, None);
    lemma_no_quote(line, base, a + 1, n, 0, Some(a));
    let end = seq![Stretch { start: 0, end: n, color: COLOR_STRING }];
    assert(highlight::quote_stretches(line, base, n, 0, Some(a)) == end);
}

proof fn lemma_plain_pieces(s: Seq<char>, base: u32, i: int, k: int, from: int)
    requires
        0 <= i <= k <= s.len(),
        forall|j: int| i <= j < k ==> #[trigger] s[j] != '"' && s[j] != '/',
    ensures
        highlight::pieces_from(s, base, i, from) == highlight::pieces_from(s, base, k, from),
    decreases k - i,
{
    if i < k {
        lemma_plain_pieces(s, base, i + 1, k, from);
    }
}

/// The pieces of a text: what comes before a quoted text in the colour of the line, the
/// quoted text in its own, and then the pieces of the rest.
pub proof fn law_pieces(a: Seq<char>, t: Seq<char>, b: Seq<char>, base: u32)
    requires
        a.len() > 0,
        forall|j: int| 0 <= j < a.len() ==> #[trigger] a[j] != '"' && a[j] != '/',
        !t.contains('"'),
    ensures
        ({
            let s = a + seq!['"'] + t + seq!['"'] + b;
            let e = a.len() + t.len() + 2;
            highlight::pieces_from(s, base, 0, 0) == seq![
                Piece { text: a, color: base, marked: false },
                Piece { text: seq!['"'] + t + seq!['"'], color: COLOR_STRING, marked: false },
            ] + highlight::pieces_from(s, base, e as int, e as int)
        }),
{
    let s = a + seq!['"'] + t + seq!['"'] + b;
    let n = a.len() as int;
    let k = n + 1 + t.len();
    assert forall|j: int| 0 <= j < n implies #[trigger] s[j] != '"' && s[j] != '/' by {
        assert(s[j] == a[j]);
    }
    lemma_plain_pieces(s, base, 0, n, 0);
    assert(s[n] == '"' && s[k] == '"');
    assert forall|j: int| n + 1 <= j < k implies s[j] != '"' by {
        assert(s[j] == t[j - n - 1]);
        assert(t.contains(t[j - n - 1]));
    }
    text_laws::law_first_place(s, '"', n + 1, k);
    assert(s.subrange(0, n) =~= a);
    assert(s.subrange(n, k + 1) =~= seq!['"'] + t + seq!['"']);
    assert(highlight::pieces_from(s, base, 0, 0) =~= seq![
        Piece { text: a, color: base, marked: false },
        Piece { text: seq!['"'] + t + seq!['"'], color: COLOR_STRING, marked: false },
    ] + highlight::pieces_from(s, base, k + 1, k + 1));
}

/// A mark of a visit or a return is marked exactly where one of the ranges covers it.
pub proof fn law_pairs_are_marked(t: Seq<char>, offset: int, ranges: Seq<(usize, usize)>)
    requires
        t.len() >= 2,
        (t[0] == '=' && t[1] == '>') || (t[0] == '<' && t[1] == '='),
    ensures
        ({
            let p = highlight::line_pieces(t, offset, ranges);
            let covered = exists|k: int|
                0 <= k < ranges.len() && (#[trigger] ranges[k]).0 <= offset && offset + 2
                    <= ranges[k].1;
            &&& covered ==> p.len() > 0 && p[0] == Piece {
                text: t.take(2),
                color: COLOR_FLOW,
                marked: true,
            }
            &&& !covered ==> p == highlight::pieces_from(t, COLOR_FLOW, 0, 0)
        }),
{
    lemma_pairs(t);
    assert(slices::trim_start(t) == t);
    assert(t.subrange(0, 2) =~= t.take(2));
    let none = Seq::<Piece<Seq<char>>>::empty();
    let p = highlight::pieces_from(t, COLOR_FLOW, 0, 0);
    assert(none + p =~= p);
    assert(highlight::base_color(t) == COLOR_FLOW);
}

} // verus!
