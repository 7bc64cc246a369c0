//! Pairing of the `=>` and `<=` marks of a script.
//!
//! The marks are found by text alone, at the beginning of a line, and are
//! paired as brackets are: a return belongs to the nearest visit before it that
//! no other return has taken.

use crate::slices;
use crate::slices::{find_char, starts_with_str, trim_of, trim_start_of};
use crate::text;
use crate::text::{format_usize, from_chars, to_chars};
use vstd::prelude::*;
use vstd::slice::slice_subrange;

verus! {

/// The kinds of marks.
#[derive(Debug, Clone, Copy, PartialEq, Eq, Structural)]
pub enum FlowKind {
    /// `=> target`: a visit to another section.
    Visit,
    /// `<=`: the return from a visit.
    Return,
}

/// A mark in a text.
#[derive(Debug, Clone, PartialEq, Eq)]
pub struct FlowMark {
    pub kind: FlowKind,
    /// The position of the mark's first character.
    pub char_start: usize,
    /// The position behind the mark's last character.
    pub char_end: usize,
    /// The line, counted from 0.
    pub line: usize,
    /// The section that a visit names, if it names one.
    pub target: Option<String>,
}

/// What a mark holds.
pub struct MarkView {
    pub kind: FlowKind,
    pub start: int,
    pub end: int,
    pub line: int,
    pub target: Option<Seq<char>>,
}

impl View for FlowMark {
    type V = MarkView;

    open spec fn view(&self) -> MarkView {
        MarkView {
            kind: self.kind,
            start: self.char_start as int,
            end: self.char_end as int,
            line: self.line as int,
            target: text::opt_view(self.target),
        }
    }
}

/// The contents of a sequence of marks.
pub open spec fn mark_views(v: Seq<FlowMark>) -> Seq<MarkView> {
    Seq::new(v.len(), |i: int| v[i]@)
}

// ---------------------------------------------------------------------------
// Finding the marks
// ---------------------------------------------------------------------------

/// The mark at the beginning of the line that holds `raw` and starts at `at`.
pub open spec fn mark_of(raw: Seq<char>, at: int, line: int) -> Option<MarkView> {
    let rest = slices::trim_start(raw);
    let start = at + raw.len() - rest.len();
    if text::starts_with(rest, "=>"@) {
        let target = slices::trim(rest.subrange(2, rest.len() as int));
        Some(
            MarkView {
                kind: FlowKind::Visit,
                start,
                end: start + 2,
                line,
                target: if target.len() == 0 {
                    None
                } else {
                    Some(target)
                },
            },
        )
    } else if text::starts_with(rest, "<="@) {
        Some(MarkView { kind: FlowKind::Return, start, end: start + 2, line, target: None })
    } else {
        None
    }
}

/// The marks of the lines from position `i` on; the first of them is line
/// `line`.
pub open spec fn marks_from(s: Seq<char>, i: int, line: int) -> Seq<MarkView>
    decreases s.len() + 1 - i,
{
    let e = slices::index_of(s, '\n', i);
    if i < 0 || e < i || e > s.len() {
        Seq::empty()
    } else {
        let rest = if e < s.len() {
            marks_from(s, e + 1, line + 1)
        } else {
            Seq::empty()
        };
        match mark_of(s.subrange(i, e), i, line) {
            Some(m) => seq![m] + rest,
            None => rest,
        }
    }
}

/// The marks of a text.
pub open spec fn marks_in(s: Seq<char>) -> Seq<MarkView> {
    marks_from(s, 0, 0)
}

/// The characters of a mark.
pub open spec fn mark_text(kind: FlowKind) -> Seq<char> {
    match kind {
        FlowKind::Visit => "=>"@,
        FlowKind::Return => "<="@,
    }
}

pub proof fn lemma_mark_of(s: Seq<char>, i: int, e: int, line: int)
    requires
        0 <= i <= e <= s.len(),
    ensures
        match mark_of(s.subrange(i, e), i, line) {
            Some(m) => {
                &&& i <= m.start
                &&& m.end == m.start + 2
                &&& m.end <= e
                &&& m.line == line
                &&& s.subrange(m.start, m.end) == mark_text(m.kind)
            },
            None => true,
        },
{
    reveal_strlit("=>");
    reveal_strlit("<=");
    let raw = s.subrange(i, e);
    let rest = slices::trim_start(raw);
    slices::lemma_trim_start_tail(raw);
    if mark_of(raw, i, line) is Some {
        let m = mark_of(raw, i, line)->0;
        assert(s.subrange(m.start, m.end) =~= rest.subrange(0, 2));
    }
}

proof fn lemma_marks_from(s: Seq<char>, i: int, line: int)
    requires
        0 <= i <= s.len(),
    ensures
        forall|k: int|
            #![trigger marks_from(s, i, line)[k]]
            0 <= k < marks_from(s, i, line).len() ==> {
                let m = marks_from(s, i, line)[k];
                &&& i <= m.start
                &&& m.end == m.start + 2
                &&& m.end <= s.len()
                &&& line <= m.line
                &&& m.line - line <= m.start - i
                &&& s.subrange(m.start, m.end) == mark_text(m.kind)
            },
        forall|k: int, l: int|
            0 <= k < l < marks_from(s, i, line).len() ==> marks_from(s, i, line)[k].end
                < marks_from(s, i, line)[l].start && marks_from(s, i, line)[k].line < marks_from(
                s,
                i,
                line,
            )[l].line,
    decreases s.len() + 1 - i,
{
    let e = slices::index_of(s, '\n', i);
    slices::lemma_index_of(s, '\n', i);
    lemma_mark_of(s, i, e, line);
    if e < s.len() {
        lemma_marks_from(s, e + 1, line + 1);
    }
}

/// A mark lies in the text, where its characters stand.
pub proof fn law_mark_in_place(s: Seq<char>, k: int)
    requires
        0 <= k < marks_in(s).len(),
    ensures
        0 <= marks_in(s)[k].start,
        marks_in(s)[k].end <= s.len(),
        s.subrange(marks_in(s)[k].start, marks_in(s)[k].end) == mark_text(marks_in(s)[k].kind),
{
    lemma_marks_from(s, 0, 0);
}

/// Marks follow each other on different lines and never touch.
pub proof fn law_marks_in_order(s: Seq<char>, k: int, l: int)
    requires
        0 <= k < l < marks_in(s).len(),
    ensures
        marks_in(s)[k].end < marks_in(s)[l].start,
        marks_in(s)[k].line < marks_in(s)[l].line,
{
    lemma_marks_from(s, 0, 0);
}

/// A cursor touches at most one mark of a text.
pub proof fn law_one_mark_at_cursor(s: Seq<char>, k: int, l: int, at: int)
    requires
        0 <= k < marks_in(s).len(),
        0 <= l < marks_in(s).len(),
        touches(marks_in(s)[k], at),
        touches(marks_in(s)[l], at),
    ensures
        k == l,
{
    lemma_marks_from(s, 0, 0);
}

/// The mark at the beginning of a line that starts at `at`.
pub fn mark_at_line(raw: &[char], at: usize, line: usize) -> (r: Option<FlowMark>)
    requires
        at + raw@.len() <= usize::MAX,
    ensures
        match mark_of(raw@, at as int, line as int) {
            Some(m) => r is Some && (r->0)@ == m,
            None => r is None,
        },
{
    let rest: &[char] = trim_start_of(raw);
    let n: usize = rest.len();
    let start: usize = at + (raw.len() - n);
    proof {
        reveal_strlit("=>");
        reveal_strlit("<=");
    }
    if starts_with_str(rest, "=>") {
        let target: &[char] = trim_of(slice_subrange(rest, 2, n));
        Some(
            FlowMark {
                kind: FlowKind::Visit,
                char_start: start,
                char_end: start + 2,
                line,
                target: if target.len() == 0 {
                    None
                } else {
                    Some(from_chars(target))
                },
            },
        )
    } else if starts_with_str(rest, "<=") {
        Some(
            FlowMark {
                kind: FlowKind::Return,
                char_start: start,
                char_end: start + 2,
                line,
                target: None,
            },
        )
    } else {
        None
    }
}

/// The marks of a text, in order.
pub fn scan_flow_marks(text: &str) -> (marks: Vec<FlowMark>)
    ensures
        mark_views(marks@) == marks_in(text@),
        forall|k: int| 0 <= k < marks@.len() ==> (#[trigger] marks@[k]).line < usize::MAX,
{
    let s: Vec<char> = to_chars(text);
    let cs: &[char] = s.as_slice();
    let n: usize = cs.len();
    let mut marks: Vec<FlowMark> = Vec::new();
    let mut i: usize = 0;
    let mut line: usize = 0;
    assert(mark_views(marks@) + marks_from(cs@, 0, 0) =~= marks_in(text@));
    loop
        invariant
            cs@ == text@,
            n == cs@.len(),
            line <= i <= n,
            forall|k: int| 0 <= k < marks@.len() ==> (#[trigger] marks@[k]).line < n,
            mark_views(marks@) + marks_from(cs@, i as int, line as int) == marks_in(text@),
        decreases n - i,
    {
        let e: usize = find_char(cs, '\n', i);
        let ghost before = mark_views(marks@);
        let found: Option<FlowMark> = mark_at_line(slice_subrange(cs, i, e), i, line);
        let ghost rest = if e < n {
            marks_from(cs@, e + 1, line + 1)
        } else {
            Seq::empty()
        };
        match found {
            Some(m) => {
                proof {
                    lemma_mark_of(cs@, i as int, e as int, line as int);
                }
                marks.push(m);
                assert(mark_views(marks@) =~= before.push(m@));
                assert(before + (seq![m@] + rest) =~= before.push(m@) + rest);
            },
            None => {},
        }
        if e == n {
            assert(mark_views(marks@) + rest =~= mark_views(marks@));
            return marks;
        }
        i = e + 1;
        line = line + 1;
    }
}

// ---------------------------------------------------------------------------
// Pairing them
// ---------------------------------------------------------------------------

/// The kinds of a sequence of marks.
pub open spec fn kinds(v: Seq<FlowMark>) -> Seq<FlowKind> {
    Seq::new(v.len(), |i: int| v[i].kind)
}

/// Marks that have been paired: the partner of each, and the visits that no
/// return has taken yet.
pub struct Pairing {
    pub pairs: Seq<Option<int>>,
    pub open: Seq<int>,
}

/// The pairing of a sequence of marks. A visit is open until a return takes it;
/// a return takes the last open visit, if there is one.
pub open spec fn pairing(marks: Seq<FlowKind>) -> Pairing
    decreases marks.len(),
{
    if marks.len() == 0 {
        Pairing { pairs: Seq::empty(), open: Seq::empty() }
    } else {
        let front = pairing(marks.drop_last());
        let i = marks.len() - 1;
        match marks.last() {
            FlowKind::Visit => Pairing { pairs: front.pairs.push(None), open: front.open.push(i) },
            FlowKind::Return => if front.open.len() == 0 {
                Pairing { pairs: front.pairs.push(None), open: front.open }
            } else {
                let j = front.open.last();
                Pairing {
                    pairs: front.pairs.update(j, Some(i)).push(Some(j)),
                    open: front.open.drop_last(),
                }
            },
        }
    }
}

/// Indices as numbers.
pub open spec fn numbers(v: Seq<usize>) -> Seq<int> {
    Seq::new(v.len(), |i: int| v[i] as int)
}

/// Optional indices as numbers.
pub open spec fn partner_numbers(v: Seq<Option<usize>>) -> Seq<Option<int>> {
    Seq::new(
        v.len(),
        |i: int|
            match v[i] {
                Some(k) => Some(k as int),
                None => None,
            },
    )
}

/// Whether `j` is the partner of `i`.
pub open spec fn partners(pairs: Seq<Option<int>>, i: int, j: int) -> bool {
    0 <= i < pairs.len() && pairs[i] == Some(j)
}

/// What holds of a pairing at every step.
pub open spec fn paired_well(marks: Seq<FlowKind>, p: Pairing) -> bool {
    &&& p.pairs.len() == marks.len()
    &&& forall|k: int|
        0 <= k < p.open.len() ==> 0 <= (#[trigger] p.open[k]) < marks.len() && marks[p.open[k]]
            is Visit && p.pairs[p.open[k]] is None
    &&& forall|k: int, l: int| 0 <= k < l < p.open.len() ==> p.open[k] < p.open[l]
    &&& forall|i: int, j: int| #[trigger]
        partners(p.pairs, i, j) ==> partners(p.pairs, j, i) && i != j && (if i < j {
            marks[i] is Visit && marks[j] is Return
        } else {
            marks[i] is Return && marks[j] is Visit
        })
    &&& forall|i: int, j: int, k: int|
        #![trigger partners(p.pairs, i, j), p.pairs[k]]
        partners(p.pairs, i, j) && i < k < j ==> p.pairs[k] is Some && i < p.pairs[k]->0 < j
    &&& forall|i: int, j: int, k: int|
        #![trigger partners(p.pairs, i, j), p.open[k]]
        partners(p.pairs, i, j) && 0 <= k < p.open.len() ==> (i < p.open[k] <==> j < p.open[k])
    &&& forall|i: int|
        0 <= i < marks.len() && (#[trigger] p.pairs[i]) is None && marks[i] is Visit ==> p.open.contains(
            i,
        )
    &&& forall|i: int, k: int|
        #![trigger p.pairs[i], p.open[k]]
        0 <= i < marks.len() && p.pairs[i] is None && marks[i] is Return && 0 <= k < p.open.len()
            ==> i < p.open[k]
}

/// A mark without a partner changes no pair.
proof fn lemma_kept(pairs: Seq<Option<int>>)
    requires
        forall|a: int, b: int| #[trigger] partners(pairs, a, b) ==> partners(pairs, b, a),
    ensures
        forall|a: int, b: int| #[trigger]
            partners(pairs.push(None), a, b) ==> partners(pairs, a, b) && partners(
                pairs.push(None),
                b,
                a,
            ),
{
    let q = pairs.push(None);
    assert forall|a: int, b: int| #[trigger] partners(q, a, b) implies partners(pairs, a, b)
        && partners(q, b, a) by {
        assert(partners(pairs, a, b));
        assert(partners(pairs, b, a));
    }
}

pub proof fn lemma_paired_well(marks: Seq<FlowKind>)
    ensures
        paired_well(marks, pairing(marks)),
    decreases marks.len(),
{
    if marks.len() > 0 {
        let front = marks.drop_last();
        let p = pairing(front);
        let q = pairing(marks);
        let i = marks.len() - 1;
        lemma_paired_well(front);
        assert(forall|k: int| 0 <= k < i ==> marks[k] == front[k]);
        match marks.last() {
            FlowKind::Visit => {
                lemma_kept(p.pairs);
                assert(q.open[q.open.len() - 1] == i);
                assert forall|k: int| 0 <= k < i && p.open.contains(k) implies q.open.contains(
                    k,
                ) by {
                    let l = choose|l: int| 0 <= l < p.open.len() && p.open[l] == k;
                    assert(q.open[l] == k);
                }
            },
            FlowKind::Return => {
                if p.open.len() > 0 {
                    let j = p.open.last();
                    assert(j == p.open[p.open.len() - 1]);
                    assert(partners(q.pairs, i, j));
                    assert(partners(q.pairs, j, i));
                    assert forall|a: int, b: int| #[trigger] partners(q.pairs, a, b) implies (a == i && b
                        == j) || (a == j && b == i) || (partners(p.pairs, a, b) && partners(
                        q.pairs,
                        b,
                        a,
                    ) && a != j && b != j && a != i && b != i) by {
                        if a != i && a != j {
                            assert(partners(p.pairs, a, b));
                            assert(partners(p.pairs, b, a));
                        }
                    }
                    assert forall|k: int| j < k < i implies q.pairs[k] is Some && j < q.pairs[k]->0
                        < i by {
                        assert(p.pairs[k] is Some) by {
                            if p.pairs[k] is None {
                                if marks[k] is Visit {
                                    assert(p.open.contains(k));
                                }
                            }
                        }
                        assert(partners(p.pairs, k, p.pairs[k]->0));
                    }
                    assert forall|k: int| 0 <= k < i && k != j && p.open.contains(k) implies
                        q.open.contains(k) by {
                        let l = choose|l: int| 0 <= l < p.open.len() && p.open[l] == k;
                        assert(q.open[l] == k);
                    }
                    assert forall|a: int, b: int, k: int|
                        partners(q.pairs, a, b) && a < k < b implies q.pairs[k] is Some && a
                        < q.pairs[k]->0 < b by {
                        if a != j {
                            assert(partners(p.pairs, a, b));
                            assert(p.pairs[k] is Some);
                            assert(k != j);
                        }
                    }
                } else {
                    lemma_kept(p.pairs);
                    assert(q.open =~= Seq::empty());
                }
            },
        }
    }
}

/// Pairs are mutual, and join a visit to a return that comes after it.
pub proof fn law_pairs_mutual(marks: Seq<FlowKind>, i: int, j: int)
    requires
        partners(pairing(marks).pairs, i, j),
    ensures
        partners(pairing(marks).pairs, j, i),
        i != j,
        i < j ==> marks[i] is Visit && marks[j] is Return,
        j < i ==> marks[j] is Visit && marks[i] is Return,
{
    lemma_paired_well(marks);
}

/// Every mark between a visit and its return has its partner between them too.
pub proof fn law_pairs_nest(marks: Seq<FlowKind>, i: int, j: int, k: int)
    requires
        partners(pairing(marks).pairs, i, j),
        i < k < j,
    ensures
        pairing(marks).pairs[k] is Some,
        i < pairing(marks).pairs[k]->0 < j,
{
    lemma_paired_well(marks);
    assert(partners(pairing(marks).pairs, j, i));
    assert(pairing(marks).pairs[k] is Some);
}

/// No return is left without a partner while a visit before it has none.
pub proof fn law_returns_are_taken(marks: Seq<FlowKind>, i: int, j: int)
    requires
        0 <= i < j < marks.len(),
        marks[i] is Visit,
        marks[j] is Return,
    ensures
        pairing(marks).pairs.len() == marks.len(),
        pairing(marks).pairs[i] is Some || pairing(marks).pairs[j] is Some,
{
    let p = pairing(marks);
    lemma_paired_well(marks);
    if p.pairs[i] is None {
        assert(p.open.contains(i));
        let k = choose|k: int| 0 <= k < p.open.len() && p.open[k] == i;
        assert(p.pairs[j] is None ==> j < p.open[k]);
    }
}

/// The partner of each mark.
pub fn compute_flow_pairs(marks: &[FlowMark]) -> (pairs: Vec<Option<usize>>)
    ensures
        partner_numbers(pairs@) == pairing(kinds(marks@)).pairs,
{
    let n: usize = marks.len();
    let mut pairs: Vec<Option<usize>> = Vec::new();
    let mut open: Vec<usize> = Vec::new();
    let mut i: usize = 0;
    let ghost all = kinds(marks@);
    assert(all.take(0) =~= Seq::empty());
    assert(partner_numbers(pairs@) =~= pairing(all.take(0)).pairs);
    assert(numbers(open@) =~= pairing(all.take(0)).open);
    while i < n
        invariant
            i <= n,
            n == marks@.len(),
            all == kinds(marks@),
            partner_numbers(pairs@) == pairing(all.take(i as int)).pairs,
            numbers(open@) == pairing(all.take(i as int)).open,
        decreases n - i,
    {
        let ghost front = pairing(all.take(i as int));
        proof {
            assert(all.take(i + 1).drop_last() =~= all.take(i as int));
            assert(all.take(i + 1).last() == marks@[i as int].kind);
            lemma_paired_well(all.take(i as int));
            assert(partner_numbers(pairs@).len() == i);
        }
        match marks[i].kind {
            FlowKind::Visit => {
                open.push(i);
                pairs.push(None);
                assert(partner_numbers(pairs@) =~= front.pairs.push(None));
                assert(numbers(open@) =~= front.open.push(i as int));
            },
            FlowKind::Return => {
                assert(numbers(open@).len() == open@.len());
                match open.pop() {
                    Some(j) => {
                        assert(numbers(open@) =~= front.open.drop_last());
                        assert(front.open.last() == j);
                        assert(front.open[front.open.len() - 1] == j);
                        pairs.set(j, Some(i));
                        pairs.push(Some(j));
                        assert(partner_numbers(pairs@) =~= front.pairs.update(
                            j as int,
                            Some(i as int),
                        ).push(Some(j as int)));
                    },
                    None => {
                        pairs.push(None);
                        assert(partner_numbers(pairs@) =~= front.pairs.push(None));
                    },
                }
            },
        }
        i = i + 1;
    }
    assert(all.take(n as int) =~= all);
    pairs
}

/// Whether a cursor touches a mark.
pub open spec fn touches(m: MarkView, at: int) -> bool {
    m.start <= at <= m.end
}

/// The first mark from `i` on that the cursor touches.
pub open spec fn first_touched(marks: Seq<MarkView>, at: int, i: int) -> Option<usize>
    decreases marks.len() - i,
{
    if i < 0 || i >= marks.len() {
        None
    } else if touches(marks[i], at) {
        Some(i as usize)
    } else {
        first_touched(marks, at, i + 1)
    }
}

/// The first mark that the cursor touches; it does so before, inside and behind
/// the mark.
pub fn mark_at_cursor(marks: &[FlowMark], char_idx: usize) -> (r: Option<usize>)
    ensures
        r == first_touched(mark_views(marks@), char_idx as int, 0),
        match r {
            Some(i) => {
                &&& i < marks@.len()
                &&& touches(marks@[i as int]@, char_idx as int)
                &&& forall|k: int| 0 <= k < i ==> !touches(#[trigger] marks@[k]@, char_idx as int)
            },
            None => forall|k: int|
                0 <= k < marks@.len() ==> !touches(#[trigger] marks@[k]@, char_idx as int),
        },
{
    let mut i: usize = 0;
    while i < marks.len()
        invariant
            i <= marks@.len(),
            first_touched(mark_views(marks@), char_idx as int, 0) == first_touched(
                mark_views(marks@),
                char_idx as int,
                i as int,
            ),
            forall|k: int| 0 <= k < i ==> !touches(#[trigger] marks@[k]@, char_idx as int),
        decreases marks@.len() - i,
    {
        assert(mark_views(marks@)[i as int] == marks@[i as int]@);
        if char_idx >= marks[i].char_start && char_idx <= marks[i].char_end {
            return Some(i);
        }
        i = i + 1;
    }
    None
}

// ---------------------------------------------------------------------------
// Marks under the cursor
// ---------------------------------------------------------------------------

/// The kinds of marks.
pub open spec fn kinds_of(marks: Seq<MarkView>) -> Seq<FlowKind> {
    Seq::new(marks.len(), |i: int| marks[i].kind)
}

/// The partner of mark `i` of a text.
pub open spec fn partner_in(s: Seq<char>, i: int) -> Option<int> {
    pairing(kinds_of(marks_in(s))).pairs[i]
}

/// The ranges of the mark under the cursor and of its partner.
pub open spec fn pair_ranges(s: Seq<char>, at: int) -> Seq<(int, int)> {
    let marks = marks_in(s);
    match first_touched(marks, at, 0) {
        None => Seq::empty(),
        Some(i) => {
            let here = seq![(marks[i as int].start, marks[i as int].end)];
            match partner_in(s, i as int) {
                Some(j) => here.push((marks[j].start, marks[j].end)),
                None => here,
            }
        },
    }
}

/// What is told about the mark under the cursor: where a visit leads to and
/// where it returns, or that a return goes back.
pub open spec fn hint_at(s: Seq<char>, at: int) -> Option<Seq<char>> {
    let marks = marks_in(s);
    match first_touched(marks, at, 0) {
        None => None,
        Some(i) => {
            let m = marks[i as int];
            match m.kind {
                FlowKind::Return => Some("返回到上一个拜访点"@),
                FlowKind::Visit => {
                    let head = "跳转到目标："@ + match m.target {
                        Some(t) => t,
                        None => "(未指定)"@,
                    };
                    Some(
                        match partner_in(s, i as int) {
                            Some(j) => head + "\n返回点在第 "@ + text::nat_text(
                                (marks[j].line + 1) as nat,
                            ) + " 行"@,
                            None => head + "\n返回点未找到"@,
                        },
                    )
                },
            }
        },
    }
}

/// Ranges as numbers.
pub open spec fn range_numbers(v: Seq<(usize, usize)>) -> Seq<(int, int)> {
    Seq::new(v.len(), |i: int| (v[i].0 as int, v[i].1 as int))
}

proof fn lemma_scanned(s: Seq<char>, marks: Seq<FlowMark>, pairs: Seq<Option<usize>>)
    requires
        mark_views(marks) == marks_in(s),
        partner_numbers(pairs) == pairing(kinds(marks)).pairs,
    ensures
        marks.len() == marks_in(s).len(),
        pairs.len() == marks.len(),
        kinds(marks) == kinds_of(marks_in(s)),
        forall|i: int|
            0 <= i < marks.len() ==> #[trigger] marks[i]@ == marks_in(s)[i] && marks[i].line
                < s.len(),
        forall|i: int|
            0 <= i < pairs.len() ==> match #[trigger] pairs[i] {
                Some(j) => j < marks.len() && partner_in(s, i) == Some(j as int),
                None => partner_in(s, i) is None,
            },
{
    let ks = kinds_of(marks_in(s));
    assert(mark_views(marks).len() == marks.len());
    assert(kinds(marks) =~= ks) by {
        assert forall|i: int| 0 <= i < marks.len() implies kinds(marks)[i] == ks[i] by {
            assert(mark_views(marks)[i] == marks[i]@);
        }
    }
    lemma_paired_well(ks);
    lemma_marks_from(s, 0, 0);
    assert(partner_numbers(pairs).len() == pairs.len());
    assert forall|i: int| 0 <= i < marks.len() implies #[trigger] marks[i]@ == marks_in(s)[i]
        && marks[i].line < s.len() by {
        assert(mark_views(marks)[i] == marks[i]@);
        assert(marks_from(s, 0, 0)[i].start >= 0);
    }
    assert forall|i: int| 0 <= i < pairs.len() implies match #[trigger] pairs[i] {
        Some(j) => j < marks.len() && partner_in(s, i) == Some(j as int),
        None => partner_in(s, i) is None,
    } by {
        assert(partner_numbers(pairs)[i] == pairing(ks).pairs[i]);
        match pairs[i] {
            Some(j) => {
                assert(partners(pairing(ks).pairs, i, j as int));
            },
            None => {},
        }
    }
}

/// The ranges to be marked for a cursor: those of the mark that it touches and
/// of its partner.
pub fn marked_ranges(text: &str, at: usize) -> (r: Vec<(usize, usize)>)
    ensures
        range_numbers(r@) == pair_ranges(text@, at as int),
{
    let marks: Vec<FlowMark> = scan_flow_marks(text);
    let pairs: Vec<Option<usize>> = compute_flow_pairs(marks.as_slice());
    proof {
        lemma_scanned(text@, marks@, pairs@);
    }
    let mut r: Vec<(usize, usize)> = Vec::new();
    match mark_at_cursor(marks.as_slice(), at) {
        None => {},
        Some(i) => {
            assert(marks@[i as int]@ == marks_in(text@)[i as int]);
            r.push((marks[i].char_start, marks[i].char_end));
            match pairs[i] {
                Some(j) => {
                    assert(marks@[j as int]@ == marks_in(text@)[j as int]);
                    r.push((marks[j].char_start, marks[j].char_end));
                },
                None => {},
            }
        },
    }
    assert(range_numbers(r@) =~= pair_ranges(text@, at as int));
    r
}

/// What is told about the mark under the cursor, if there is one.
pub fn flow_hint(text: &str, at: usize) -> (r: Option<String>)
    ensures
        text::opt_view(r) == hint_at(text@, at as int),
{
    let marks: Vec<FlowMark> = scan_flow_marks(text);
    let pairs: Vec<Option<usize>> = compute_flow_pairs(marks.as_slice());
    proof {
        lemma_scanned(text@, marks@, pairs@);
    }
    match mark_at_cursor(marks.as_slice(), at) {
        None => None,
        Some(i) => {
            assert(marks@[i as int]@ == marks_in(text@)[i as int]);
            match marks[i].kind {
                FlowKind::Return => Some("返回到上一个拜访点".to_owned()),
                FlowKind::Visit => {
                    let mut tip: String = "跳转到目标：".to_owned();
                    match &marks[i].target {
                        Some(t) => tip.append(t.as_str()),
                        None => tip.append("(未指定)"),
                    }
                    match pairs[i] {
                        Some(j) => {
                            assert(marks@[j as int]@ == marks_in(text@)[j as int]);
                            let number: String = format_usize(marks[j].line + 1);
                            tip.append("\n返回点在第 ");
                            tip.append(number.as_str());
                            tip.append(" 行");
                        },
                        None => tip.append("\n返回点未找到"),
                    }
                    Some(tip)
                },
            }
        },
    }
}

} // verus!
