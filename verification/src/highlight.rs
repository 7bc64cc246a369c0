//! The colouring of scripts.

use crate::palette::{
    Color, COLOR_CHOICE, COLOR_COMMAND, COLOR_COMMENT, COLOR_DEFAULT, COLOR_DIRECTION, COLOR_FLOW,
    COLOR_SECTION, COLOR_STRING, COLOR_VARIABLE,
};
use crate::slices;
use crate::slices::{begins_with, count_bytes, find_char, starts_with_str, trim_start_of};
use crate::text;
use crate::text::{find_chars, from_chars, to_chars};
use vstd::prelude::*;
use vstd::slice::slice_subrange;

verus! {

/// The colour of a line, by how it begins. `->` is told apart from `-` first.
pub open spec fn base_color(t: Seq<char>) -> Color {
    if slices::begins(t, '#') {
        COLOR_SECTION
    } else if text::starts_with(t, "//"@) {
        COLOR_COMMENT
    } else if text::starts_with(t, "->"@) || text::starts_with(t, "=>"@) || text::starts_with(
        t,
        "<="@,
    ) || text::starts_with(t, "~~"@) {
        COLOR_FLOW
    } else if slices::begins(t, '@') {
        COLOR_COMMAND
    } else if slices::begins(t, '+') || slices::begins(t, '-') {
        COLOR_DIRECTION
    } else if slices::begins(t, '$') {
        COLOR_VARIABLE
    } else if slices::begins(t, '?') || slices::begins(t, '|') {
        COLOR_CHOICE
    } else if text::starts_with(t, "ending "@) || text::starts_with(t, "unlock "@) {
        COLOR_FLOW
    } else {
        COLOR_DEFAULT
    }
}

fn base_color_of(t: &[char]) -> (r: Color)
    ensures
        r == base_color(t@),
{
    if begins_with(t, '#') {
        COLOR_SECTION
    } else if starts_with_str(t, "//") {
        COLOR_COMMENT
    } else if starts_with_str(t, "->") || starts_with_str(t, "=>") || starts_with_str(t, "<=")
        || starts_with_str(t, "~~") {
        COLOR_FLOW
    } else if begins_with(t, '@') {
        COLOR_COMMAND
    } else if begins_with(t, '+') || begins_with(t, '-') {
        COLOR_DIRECTION
    } else if begins_with(t, '$') {
        COLOR_VARIABLE
    } else if begins_with(t, '?') || begins_with(t, '|') {
        COLOR_CHOICE
    } else if starts_with_str(t, "ending ") || starts_with_str(t, "unlock ") {
        COLOR_FLOW
    } else {
        COLOR_DEFAULT
    }
}

/// The colour of a line without its leading white space.
pub fn line_base_color(trimmed: &str) -> (r: Color)
    ensures
        r == base_color(trimmed@),
{
    let t: Vec<char> = to_chars(trimmed);
    base_color_of(t.as_slice())
}

// ---------------------------------------------------------------------------
// Spans of a line
// ---------------------------------------------------------------------------

/// A stretch of a line and its colour. The places are counted in characters.
pub struct Stretch {
    pub start: int,
    pub end: int,
    pub color: Color,
}

/// The stretches of a line from `i` on, where no comment comes. `last` is the end
/// of the last quoted text, and `open` where one began that is not closed before
/// `i`. The last stretch takes everything behind `last`.
pub open spec fn quote_stretches(
    line: Seq<char>,
    base: Color,
    i: int,
    last: int,
    open: Option<int>,
) -> Seq<Stretch>
    decreases line.len() - i,
{
    if i < 0 || i >= line.len() {
        if last < line.len() {
            let color = if open is Some {
                COLOR_STRING
            } else {
                base
            };
            seq![Stretch { start: last, end: line.len() as int, color }]
        } else {
            Seq::empty()
        }
    } else if line[i] != '"' {
        quote_stretches(line, base, i + 1, last, open)
    } else {
        match open {
            Some(start) => seq![Stretch { start, end: i + 1, color: COLOR_STRING }]
                + quote_stretches(line, base, i + 1, i + 1, None),
            None => {
                let rest = quote_stretches(line, base, i + 1, last, Some(i));
                if i > last {
                    seq![Stretch { start: last, end: i, color: base }] + rest
                } else {
                    rest
                }
            },
        }
    }
}

/// The stretches of a line. A comment takes the rest of the line from its `//`
/// on, and what stands before it has the colour of the line. In a line without a
/// comment, quoted texts have a colour of their own; one that is not closed gives
/// it to everything behind the quoted text before it.
pub open spec fn stretches(line: Seq<char>) -> Seq<Stretch> {
    let base = base_color(slices::trim_start(line));
    match text::find(line, "//"@) {
        Some(p) => {
            let tail = seq![Stretch { start: p, end: line.len() as int, color: COLOR_COMMENT }];
            if p > 0 {
                seq![Stretch { start: 0, end: p, color: base }] + tail
            } else {
                tail
            }
        },
        None => quote_stretches(line, base, 0, 0, None),
    }
}

/// A stretch of a line and its colour. The places are counted in bytes.
#[derive(Debug, Clone, Copy, PartialEq, Eq, Structural)]
pub struct HighlightSpan {
    pub start: usize,
    pub end: usize,
    pub color: Color,
}

/// Whether a span is a stretch of a line.
pub open spec fn is_span(line: Seq<char>, span: HighlightSpan, s: Stretch) -> bool {
    span.start == slices::byte_count(line.take(s.start)) && span.end == slices::byte_count(
        line.take(s.end),
    ) && span.color == s.color
}

/// Whether spans are the stretches of a line.
pub open spec fn are_spans(line: Seq<char>, spans: Seq<HighlightSpan>, s: Seq<Stretch>) -> bool {
    spans.len() == s.len() && forall|k: int|
        0 <= k < s.len() ==> #[trigger] is_span(line, spans[k], s[k])
}

/// The settings of the highlighter; there are none.
#[derive(Debug, Clone, Copy, PartialEq, Eq, Structural)]
pub struct AkrsHighlightSettings;

/// Colours one line after the other.
pub struct AkrsHighlighter {
    current_line: usize,
}

proof fn lemma_bytes_grow(s: Seq<char>, i: int, j: int)
    requires
        0 <= i <= j <= s.len(),
    ensures
        slices::byte_count(s.take(i)) <= slices::byte_count(s.take(j)),
    decreases j,
{
    if i < j {
        lemma_bytes_grow(s, i, j - 1);
        assert(s.take(j).drop_last() =~= s.take(j - 1));
    }
}

/// The number of bytes before a place in a line.
fn bytes_before(line: &[char], k: usize) -> (r: usize)
    requires
        k <= line@.len(),
        slices::byte_count(line@) <= usize::MAX,
    ensures
        r == slices::byte_count(line@.take(k as int)),
{
    proof {
        lemma_bytes_grow(line@, k as int, line@.len() as int);
        assert(line@.take(line@.len() as int) =~= line@);
        assert(line@.subrange(0, k as int) =~= line@.take(k as int));
    }
    count_bytes(slice_subrange(line, 0, k)) as usize
}

fn make_span(line: &[char], start: usize, end: usize, color: Color) -> (r: HighlightSpan)
    requires
        start <= line@.len(),
        end <= line@.len(),
        slices::byte_count(line@) <= usize::MAX,
    ensures
        is_span(line@, r, Stretch { start: start as int, end: end as int, color }),
{
    HighlightSpan { start: bytes_before(line, start), end: bytes_before(line, end), color }
}

spec fn place(p: Option<usize>) -> Option<int> {
    match p {
        Some(i) => Some(i as int),
        None => None,
    }
}

impl AkrsHighlighter {
    /// The line that comes next.
    pub closed spec fn line(&self) -> usize {
        self.current_line
    }

    pub fn new(_settings: &AkrsHighlightSettings) -> (r: Self)
        ensures
            r.line() == 0,
    {
        AkrsHighlighter { current_line: 0 }
    }

    /// Takes other settings: there is nothing to change.
    pub fn update(&mut self, _new_settings: &AkrsHighlightSettings)
        ensures
            *final(self) == *old(self),
    {
    }

    pub fn change_line(&mut self, line: usize)
        ensures
            final(self).line() == line,
    {
        self.current_line = line;
    }

    pub fn current_line(&self) -> (r: usize)
        ensures
            r == self.line(),
    {
        self.current_line
    }

    /// The spans of a line, in order.
    pub fn highlight_line(&self, line: &str) -> (spans: Vec<HighlightSpan>)
        requires
            slices::byte_count(line@) <= usize::MAX,
        ensures
            are_spans(line@, spans@, stretches(line@)),
    {
        let s: Vec<char> = to_chars(line);
        let cs: &[char] = s.as_slice();
        let n: usize = cs.len();
        let base: Color = base_color_of(trim_start_of(cs));
        let mut spans: Vec<HighlightSpan> = Vec::new();
        let pattern: Vec<char> = to_chars("//");
        match find_chars(cs, pattern.as_slice(), 0) {
            Some(p) => {
                if p > 0 {
                    spans.push(make_span(cs, 0, p, base));
                }
                spans.push(make_span(cs, p, n, COLOR_COMMENT));
                return spans;
            },
            None => {},
        }
        let ghost all = quote_stretches(cs@, base, 0, 0, None);
        let ghost mut done: Seq<Stretch> = Seq::empty();
        let mut i: usize = 0;
        let mut last: usize = 0;
        let mut open: Option<usize> = None;
        assert(done + all =~= all);
        while i < n
            invariant
                i <= n,
                last <= i,
                open matches Some(start) ==> start < i,
                n == cs@.len(),
                slices::byte_count(cs@) <= usize::MAX,
                are_spans(cs@, spans@, done),
                all == done + quote_stretches(cs@, base, i as int, last as int, place(open)),
            decreases n - i,
        {
            if cs[i] == '"' {
                match open {
                    Some(start) => {
                        spans.push(make_span(cs, start, i + 1, COLOR_STRING));
                        proof {
                            let s = Stretch {
                                start: start as int,
                                end: i + 1,
                                color: COLOR_STRING,
                            };
                            let rest = quote_stretches(cs@, base, i + 1, i + 1, None);
                            assert(done + (seq![s] + rest) =~= done.push(s) + rest);
                            done = done.push(s);
                        }
                        last = i + 1;
                        open = None;
                    },
                    None => {
                        if i > last {
                            spans.push(make_span(cs, last, i, base));
                            proof {
                                let s = Stretch { start: last as int, end: i as int, color: base };
                                let rest = quote_stretches(
                                    cs@,
                                    base,
                                    i + 1,
                                    last as int,
                                    Some(i as int),
                                );
                                assert(done + (seq![s] + rest) =~= done.push(s) + rest);
                                done = done.push(s);
                            }
                        }
                        open = Some(i);
                    },
                }
            }
            i = i + 1;
        }
        if last < n {
            let color: Color = if open.is_some() {
                COLOR_STRING
            } else {
                base
            };
            spans.push(make_span(cs, last, n, color));
            proof {
                let s = Stretch { start: last as int, end: n as int, color };
                assert(done + seq![s] =~= done.push(s));
                done = done.push(s);
            }
        } else {
            assert(done + Seq::empty() =~= done);
        }
        spans
    }
}

/// Whether stretches follow each other without a gap from `a` to `e`.
pub open spec fn tiles(s: Seq<Stretch>, a: int, e: int) -> bool
    decreases s.len(),
{
    if s.len() == 0 {
        a == e
    } else {
        s[0].start == a && a < s[0].end && tiles(s.drop_first(), s[0].end, e)
    }
}

/// Whether every quoted text from `i` on is closed; `open` tells whether one is
/// open there.
pub open spec fn quotes_close(line: Seq<char>, i: int, open: bool) -> bool
    decreases line.len() - i,
{
    if i < 0 || i >= line.len() {
        !open
    } else {
        quotes_close(line, i + 1, open != (line[i] == '"'))
    }
}

proof fn lemma_stretches_tile(line: Seq<char>, base: Color, i: int, last: int, open: Option<int>)
    requires
        0 <= last <= i <= line.len(),
        open matches Some(start) ==> last <= start < i,
        quotes_close(line, i, open is Some),
    ensures
        tiles(
            quote_stretches(line, base, i, last, open),
            match open {
                Some(start) => start,
                None => last,
            },
            line.len() as int,
        ),
    decreases line.len() - i,
{
    let all = quote_stretches(line, base, i, last, open);
    if i < line.len() {
        if line[i] != '"' {
            lemma_stretches_tile(line, base, i + 1, last, open);
        } else if open is Some {
            lemma_stretches_tile(line, base, i + 1, i + 1, None);
            assert(all.drop_first() =~= quote_stretches(line, base, i + 1, i + 1, None));
        } else {
            lemma_stretches_tile(line, base, i + 1, last, Some(i));
            if i > last {
                assert(all.drop_first() =~= quote_stretches(line, base, i + 1, last, Some(i)));
            }
        }
    } else if last < line.len() {
        assert(all.drop_first() =~= Seq::empty());
        assert(tiles(all.drop_first(), line.len() as int, line.len() as int));
    }
}

/// The stretches cover a line without gap or overlap, where it has a comment or
/// every quoted text in it is closed.
pub proof fn law_stretches_tile(line: Seq<char>)
    requires
        text::find(line, "//"@) is Some || quotes_close(line, 0, false),
    ensures
        tiles(stretches(line), 0, line.len() as int),
{
    let base = base_color(slices::trim_start(line));
    match text::find(line, "//"@) {
        Some(p) => {
            reveal_strlit("//");
            text::lemma_find_from(line, "//"@, 0);
            let all = stretches(line);
            let tail = seq![Stretch { start: p, end: line.len() as int, color: COLOR_COMMENT }];
            assert(tail.drop_first() =~= Seq::empty());
            assert(tiles(tail.drop_first(), line.len() as int, line.len() as int));
            assert(tiles(tail, p, line.len() as int));
            if p > 0 {
                assert(all.drop_first() =~= tail);
            }
        },
        None => {
            lemma_stretches_tile(line, base, 0, 0, None);
        },
    }
}

// ---------------------------------------------------------------------------
// Pieces of a text
// ---------------------------------------------------------------------------

/// A piece of a text and how it is shown: in a colour, and marked as one of a
/// pair.
#[derive(Debug, PartialEq, Eq)]
pub struct Piece<S = String> {
    pub text: S,
    pub color: Color,
    pub marked: bool,
}

impl View for Piece<String> {
    type V = Piece<Seq<char>>;

    open spec fn view(&self) -> Piece<Seq<char>> {
        Piece { text: self.text@, color: self.color, marked: self.marked }
    }
}

/// The contents of a sequence of pieces.
pub open spec fn piece_views(v: Seq<Piece>) -> Seq<Piece<Seq<char>>> {
    Seq::new(v.len(), |i: int| v[i]@)
}

/// A piece in a colour.
pub open spec fn plain(text: Seq<char>, color: Color) -> Piece<Seq<char>> {
    Piece { text, color, marked: false }
}

/// Where the quoted text that begins at `i` ends.
pub open spec fn literal_end(s: Seq<char>, i: int) -> int {
    let k = slices::index_of(s, '"', i + 1);
    if k < s.len() {
        k + 1
    } else {
        s.len() as int
    }
}

/// The pieces of a text from `i` on; what stands between `from` and `i` has no
/// piece yet. Quoted texts and a comment have their own colours.
pub open spec fn pieces_from(s: Seq<char>, base: Color, i: int, from: int) -> Seq<
    Piece<Seq<char>>,
>
    decreases s.len() - i,
{
    let before = if from < i {
        seq![plain(s.subrange(from, i), base)]
    } else {
        Seq::empty()
    };
    if i < 0 || i >= s.len() {
        before
    } else if s[i] == '"' {
        let e = literal_end(s, i);
        if i < e {
            before + seq![plain(s.subrange(i, e), COLOR_STRING)] + pieces_from(s, base, e, e)
        } else {
            before
        }
    } else if s[i] == '/' && i + 1 < s.len() && s[i + 1] == '/' {
        before + seq![plain(s.subrange(i, s.len() as int), COLOR_COMMENT)]
    } else {
        pieces_from(s, base, i + 1, from)
    }
}

/// Whether one of the ranges covers a place and the one behind it.
pub open spec fn in_ranges(ranges: Seq<(usize, usize)>, start: int, end: int) -> bool {
    exists|k: int|
        0 <= k < ranges.len() && (#[trigger] ranges[k]).0 <= start && end <= ranges[k].1
}

/// The pieces of a line that begins at `offset`. A mark at its beginning that
/// one of the ranges covers is marked.
pub open spec fn line_pieces(
    line: Seq<char>,
    offset: int,
    ranges: Seq<(usize, usize)>,
) -> Seq<Piece<Seq<char>>> {
    let t = slices::trim_start(line);
    let w = line.len() - t.len();
    let lead = if w > 0 {
        seq![plain(line.subrange(0, w), COLOR_DEFAULT)]
    } else {
        Seq::empty()
    };
    if (text::starts_with(t, "=>"@) || text::starts_with(t, "<="@)) && in_ranges(
        ranges,
        offset + w,
        offset + w + 2,
    ) {
        lead + seq![Piece { text: t.subrange(0, 2), color: COLOR_FLOW, marked: true }]
            + pieces_from(t.subrange(2, t.len() as int), COLOR_FLOW, 0, 0)
    } else {
        lead + pieces_from(t, base_color(t), 0, 0)
    }
}

/// The pieces of the lines from position `i` on.
pub open spec fn code_pieces(s: Seq<char>, i: int, ranges: Seq<(usize, usize)>) -> Seq<
    Piece<Seq<char>>,
>
    decreases s.len() + 1 - i,
{
    let e = slices::index_of(s, '\n', i);
    if i < 0 || e < i || e > s.len() {
        Seq::empty()
    } else {
        let here = line_pieces(s.subrange(i, e), i, ranges);
        if e < s.len() {
            here + seq![plain("\n"@, COLOR_DEFAULT)] + code_pieces(s, e + 1, ranges)
        } else {
            here
        }
    }
}

/// The texts of pieces, one after the other.
pub open spec fn texts(pieces: Seq<Piece<Seq<char>>>) -> Seq<char>
    decreases pieces.len(),
{
    if pieces.len() == 0 {
        Seq::empty()
    } else {
        texts(pieces.drop_last()) + pieces.last().text
    }
}

proof fn lemma_texts_join(a: Seq<Piece<Seq<char>>>, b: Seq<Piece<Seq<char>>>)
    ensures
        texts(a + b) == texts(a) + texts(b),
    decreases b.len(),
{
    if b.len() == 0 {
        assert(a + b =~= a);
        assert(texts(a) + texts(b) =~= texts(a));
    } else {
        lemma_texts_join(a, b.drop_last());
        assert((a + b).drop_last() =~= a + b.drop_last());
        assert(texts(a) + (texts(b.drop_last()) + b.last().text) =~= (texts(a) + texts(
            b.drop_last(),
        )) + b.last().text);
    }
}

proof fn lemma_texts_one(p: Piece<Seq<char>>)
    ensures
        texts(seq![p]) == p.text,
{
    assert(seq![p].drop_last() =~= Seq::empty());
    assert(texts(seq![p].drop_last()) =~= Seq::empty());
    assert(texts(seq![p]) =~= p.text);
}

proof fn lemma_pieces_text(s: Seq<char>, base: Color, i: int, from: int)
    requires
        0 <= from <= i <= s.len(),
    ensures
        texts(pieces_from(s, base, i, from)) == s.subrange(from, s.len() as int),
    decreases s.len() - i,
{
    let whole = s.subrange(from, s.len() as int);
    let before = if from < i {
        seq![plain(s.subrange(from, i), base)]
    } else {
        Seq::empty()
    };
    assert(texts(before) =~= s.subrange(from, i)) by {
        if from < i {
            lemma_texts_one(plain(s.subrange(from, i), base));
        }
    }
    if i >= s.len() {
    } else if s[i] == '"' {
        slices::lemma_index_of(s, '"', i + 1);
        let e = literal_end(s, i);
        let p = plain(s.subrange(i, e), COLOR_STRING);
        let rest = pieces_from(s, base, e, e);
        lemma_pieces_text(s, base, e, e);
        lemma_texts_one(p);
        lemma_texts_join(before, seq![p]);
        lemma_texts_join(before + seq![p], rest);
        assert(s.subrange(from, i) + s.subrange(i, e) + s.subrange(e, s.len() as int) =~= whole);
    } else if s[i] == '/' && i + 1 < s.len() && s[i + 1] == '/' {
        let p = plain(s.subrange(i, s.len() as int), COLOR_COMMENT);
        lemma_texts_one(p);
        lemma_texts_join(before, seq![p]);
        assert(s.subrange(from, i) + s.subrange(i, s.len() as int) =~= whole);
    } else {
        lemma_pieces_text(s, base, i + 1, from);
    }
}

proof fn lemma_line_text(line: Seq<char>, offset: int, ranges: Seq<(usize, usize)>)
    ensures
        texts(line_pieces(line, offset, ranges)) == line,
{
    reveal_strlit("=>");
    reveal_strlit("<=");
    let t = slices::trim_start(line);
    let w = line.len() - t.len();
    slices::lemma_trim_start_tail(line);
    let lead = if w > 0 {
        seq![plain(line.subrange(0, w), COLOR_DEFAULT)]
    } else {
        Seq::empty()
    };
    assert(texts(lead) =~= line.subrange(0, w)) by {
        if w > 0 {
            lemma_texts_one(plain(line.subrange(0, w), COLOR_DEFAULT));
        }
    }
    if (text::starts_with(t, "=>"@) || text::starts_with(t, "<="@)) && in_ranges(
        ranges,
        offset + w,
        offset + w + 2,
    ) {
        let p = Piece { text: t.subrange(0, 2), color: COLOR_FLOW, marked: true };
        let tail = t.subrange(2, t.len() as int);
        lemma_texts_one(p);
        lemma_pieces_text(tail, COLOR_FLOW, 0, 0);
        lemma_texts_join(lead, seq![p]);
        lemma_texts_join(lead + seq![p], pieces_from(tail, COLOR_FLOW, 0, 0));
        assert(line.subrange(0, w) + t.subrange(0, 2) + tail.subrange(0, tail.len() as int)
            =~= line);
    } else {
        lemma_pieces_text(t, base_color(t), 0, 0);
        lemma_texts_join(lead, pieces_from(t, base_color(t), 0, 0));
        assert(line.subrange(0, w) + t.subrange(0, t.len() as int) =~= line);
    }
}

proof fn lemma_code_text(s: Seq<char>, i: int, ranges: Seq<(usize, usize)>)
    requires
        0 <= i <= s.len(),
    ensures
        texts(code_pieces(s, i, ranges)) == s.subrange(i, s.len() as int),
    decreases s.len() + 1 - i,
{
    let e = slices::index_of(s, '\n', i);
    slices::lemma_index_of(s, '\n', i);
    let here = line_pieces(s.subrange(i, e), i, ranges);
    lemma_line_text(s.subrange(i, e), i, ranges);
    if e < s.len() {
        reveal_strlit("\n");
        let p = plain("\n"@, COLOR_DEFAULT);
        let rest = code_pieces(s, e + 1, ranges);
        lemma_code_text(s, e + 1, ranges);
        lemma_texts_one(p);
        lemma_texts_join(here, seq![p]);
        lemma_texts_join(here + seq![p], rest);
        assert(s.subrange(i, e) + "\n"@ + s.subrange(e + 1, s.len() as int) =~= s.subrange(
            i,
            s.len() as int,
        ));
    }
}

/// Colouring keeps the text: the pieces, one after the other, are the text.
pub proof fn law_pieces_keep_text(s: Seq<char>, ranges: Seq<(usize, usize)>)
    ensures
        texts(code_pieces(s, 0, ranges)) == s,
{
    lemma_code_text(s, 0, ranges);
    assert(s.subrange(0, s.len() as int) =~= s);
}

fn push_piece(out: &mut Vec<Piece>, s: &[char], color: Color, marked: bool)
    ensures
        piece_views(final(out)@) == piece_views(old(out)@).push(
            Piece { text: s@, color, marked },
        ),
{
    let ghost before = piece_views(out@);
    out.push(Piece { text: from_chars(s), color, marked });
    assert(piece_views(out@) =~= before.push(Piece { text: s@, color, marked }));
}

/// Appends the pieces of a text. Quoted texts and a comment have their own
/// colours.
fn highlight_remainder(out: &mut Vec<Piece>, s: &[char], base: Color)
    ensures
        piece_views(final(out)@) == piece_views(old(out)@) + pieces_from(s@, base, 0, 0),
{
    let ghost first = piece_views(out@);
    let ghost all = pieces_from(s@, base, 0, 0);
    let n: usize = s.len();
    let mut from: usize = 0;
    let mut i: usize = 0;
    while i < n
        invariant
            from <= i <= n,
            n == s@.len(),
            first == piece_views(old(out)@),
            all == pieces_from(s@, base, 0, 0),
            piece_views(out@) + pieces_from(s@, base, i as int, from as int) == first + all,
        decreases n - i,
    {
        let ghost start = piece_views(out@);
        if s[i] == '"' {
            if from < i {
                push_piece(out, slice_subrange(s, from, i), base, false);
            }
            let k: usize = find_char(s, '"', i + 1);
            let e: usize = if k < n {
                k + 1
            } else {
                n
            };
            push_piece(out, slice_subrange(s, i, e), COLOR_STRING, false);
            proof {
                let rest = pieces_from(s@, base, e as int, e as int);
                assert(start + pieces_from(s@, base, i as int, from as int) =~= piece_views(out@)
                    + rest);
            }
            i = e;
            from = e;
        } else if s[i] == '/' && i + 1 < n && s[i + 1] == '/' {
            if from < i {
                push_piece(out, slice_subrange(s, from, i), base, false);
            }
            push_piece(out, slice_subrange(s, i, n), COLOR_COMMENT, false);
            assert(start + pieces_from(s@, base, i as int, from as int) =~= piece_views(out@));
            return;
        } else {
            i = i + 1;
        }
    }
    let ghost start = piece_views(out@);
    if from < n {
        push_piece(out, slice_subrange(s, from, n), base, false);
    }
    assert(start + pieces_from(s@, base, n as int, from as int) =~= piece_views(out@));
}

fn covered(ranges: &[(usize, usize)], start: usize) -> (r: bool)
    requires
        start + 2 <= usize::MAX,
    ensures
        r == in_ranges(ranges@, start as int, start + 2),
{
    let mut k: usize = 0;
    while k < ranges.len()
        invariant
            k <= ranges@.len(),
            start + 2 <= usize::MAX,
            forall|j: int|
                0 <= j < k ==> !((#[trigger] ranges@[j]).0 <= start && start + 2 <= ranges@[j].1),
        decreases ranges@.len() - k,
    {
        if ranges[k].0 <= start && start + 2 <= ranges[k].1 {
            assert(ranges@[k as int].0 <= start);
            return true;
        }
        k = k + 1;
    }
    false
}

/// Appends the pieces of a line that begins at `offset`.
fn highlight_one(
    out: &mut Vec<Piece>,
    line: &[char],
    offset: usize,
    ranges: &[(usize, usize)],
)
    requires
        offset + line@.len() <= usize::MAX,
    ensures
        piece_views(final(out)@) == piece_views(old(out)@) + line_pieces(
            line@,
            offset as int,
            ranges@,
        ),
{
    let ghost first = piece_views(out@);
    let t: &[char] = trim_start_of(line);
    let n: usize = t.len();
    let w: usize = line.len() - n;
    proof {
        reveal_strlit("=>");
        reveal_strlit("<=");
    }
    if w > 0 {
        push_piece(out, slice_subrange(line, 0, w), COLOR_DEFAULT, false);
    }
    let ghost led = piece_views(out@);
    if (starts_with_str(t, "=>") || starts_with_str(t, "<=")) && covered(ranges, offset + w) {
        push_piece(out, slice_subrange(t, 0, 2), COLOR_FLOW, true);
        highlight_remainder(out, slice_subrange(t, 2, n), COLOR_FLOW);
    } else {
        highlight_remainder(out, t, base_color_of(t));
    }
    assert(piece_views(out@) =~= first + line_pieces(line@, offset as int, ranges@));
}

/// The pieces of a script, in order. A mark that one of the ranges covers, by
/// positions of characters, is marked.
pub fn highlight_code(text: &str, highlight_ranges: &[(usize, usize)]) -> (r: Vec<Piece>)
    ensures
        piece_views(r@) == code_pieces(text@, 0, highlight_ranges@),
        texts(piece_views(r@)) == text@,
{
    let s: Vec<char> = to_chars(text);
    let cs: &[char] = s.as_slice();
    let n: usize = cs.len();
    let mut out: Vec<Piece> = Vec::new();
    let mut i: usize = 0;
    let ghost all = code_pieces(cs@, 0, highlight_ranges@);
    assert(piece_views(out@) + all =~= all);
    loop
        invariant_except_break
            i <= n,
            n == cs@.len(),
            piece_views(out@) + code_pieces(cs@, i as int, highlight_ranges@) == all,
        ensures
            piece_views(out@) == all,
        decreases n - i,
    {
        let e: usize = find_char(cs, '\n', i);
        let ghost start = piece_views(out@);
        highlight_one(&mut out, slice_subrange(cs, i, e), i, highlight_ranges);
        if e == n {
            break;
        }
        let newline: Vec<char> = to_chars("\n");
        push_piece(&mut out, newline.as_slice(), COLOR_DEFAULT, false);
        proof {
            let rest = code_pieces(cs@, e + 1, highlight_ranges@);
            assert(start + code_pieces(cs@, i as int, highlight_ranges@) =~= piece_views(out@)
                + rest);
        }
        i = e + 1;
    }
    proof {
        law_pieces_keep_text(text@, highlight_ranges@);
    }
    out
}

} // verus!
