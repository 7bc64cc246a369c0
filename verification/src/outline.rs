//! The outline of a script: its sections, choices and visits, indented by the
//! visits that are open.

use crate::flow;
use crate::flow::{mark_at_line, FlowKind, FlowMark};
use crate::palette::{Color, COLOR_CHOICE, COLOR_FLOW, COLOR_SECTION};
use crate::slices;
use crate::slices::{begins_with, find_char, trim_of, trim_start_of, wrapped};
use crate::text;
use crate::text::{from_chars, to_chars};
use vstd::prelude::*;
use vstd::slice::slice_subrange;

verus! {

/// A row of the outline.
#[derive(Debug, PartialEq, Eq)]
pub struct OutlineRow<S = String> {
    pub indent: usize,
    pub text: S,
    pub color: Color,
    /// What kind of row it is.
    pub description: S,
}

impl View for OutlineRow<String> {
    type V = OutlineRow<Seq<char>>;

    open spec fn view(&self) -> OutlineRow<Seq<char>> {
        OutlineRow {
            indent: self.indent,
            text: self.text@,
            color: self.color,
            description: self.description@,
        }
    }
}

/// The contents of a sequence of rows.
pub open spec fn row_views(v: Seq<OutlineRow>) -> Seq<OutlineRow<Seq<char>>> {
    Seq::new(v.len(), |i: int| v[i]@)
}

/// The number of visits that are open before mark `m`.
pub open spec fn depth(marks: Seq<FlowKind>, m: int) -> nat {
    flow::pairing(marks.take(m)).open.len()
}

/// A row of the outline.
pub open spec fn row(
    indent: nat,
    text: Seq<char>,
    color: Color,
    description: Seq<char>,
) -> Option<OutlineRow<Seq<char>>> {
    Some(OutlineRow { indent: indent as usize, text, color, description })
}

/// The row of a line, if it has one. `before` is the number of visits open
/// before it, and `after` the number behind it.
pub open spec fn row_of(
    raw: Seq<char>,
    mark: Option<flow::MarkView>,
    before: nat,
    after: nat,
) -> Option<OutlineRow<Seq<char>>> {
    let t = slices::trim_start(raw);
    let rest = slices::trim(t.subrange(1, t.len() as int));
    match mark {
        Some(m) => match m.kind {
            FlowKind::Visit => row(
                before,
                "=> "@ + match m.target {
                    Some(name) => name,
                    None => Seq::empty(),
                },
                COLOR_FLOW,
                "访问子章节"@,
            ),
            FlowKind::Return => row(after, "<="@, COLOR_FLOW, "返回"@),
        },
        None => if slices::begins(t, '#') {
            row(before, "# "@ + rest, COLOR_SECTION, "章节"@)
        } else if slices::begins(t, '?') {
            if rest.len() == 0 {
                None
            } else {
                row(before, "? "@ + rest, COLOR_CHOICE, "选项提示"@)
            }
        } else if slices::begins(t, '|') {
            row(before, "| "@ + rest, COLOR_CHOICE, "选项"@)
        } else {
            None
        },
    }
}

/// The rows of the lines from position `i` on. `marks` are the kinds of the
/// marks before it.
pub open spec fn rows_from(s: Seq<char>, i: int, line: int, marks: Seq<FlowKind>) -> Seq<
    OutlineRow<Seq<char>>,
>
    decreases s.len() + 1 - i,
{
    let e = slices::index_of(s, '\n', i);
    if i < 0 || e < i || e > s.len() {
        Seq::empty()
    } else {
        let raw = s.subrange(i, e);
        let mark = flow::mark_of(raw, i, line);
        let now = match mark {
            Some(m) => marks.push(m.kind),
            None => marks,
        };
        let rest = if e < s.len() {
            rows_from(s, e + 1, line + 1, now)
        } else {
            Seq::empty()
        };
        match row_of(
            raw,
            mark,
            flow::pairing(marks).open.len(),
            flow::pairing(now).open.len(),
        ) {
            Some(r) => seq![r] + rest,
            None => rest,
        }
    }
}

/// The outline of a script.
pub open spec fn outlined(s: Seq<char>) -> Seq<OutlineRow<Seq<char>>> {
    rows_from(s, 0, 0, Seq::empty())
}

fn make_row(indent: usize, head: &str, s: &[char], color: Color, description: &str) -> (r:
    OutlineRow)
    ensures
        Some(r@) == row(indent as nat, head@ + s@, color, description@),
{
    let cs: Vec<char> = wrapped(head, s, "");
    proof {
        reveal_strlit("");
        assert(head@ + s@ + ""@ =~= head@ + s@);
    }
    OutlineRow {
        indent,
        text: from_chars(cs.as_slice()),
        color,
        description: description.to_owned(),
    }
}

fn make_row_of(raw: &[char], mark: &Option<FlowMark>, before: usize, after: usize) -> (r: Option<
    OutlineRow,
>)
    requires
        mark is None ==> before == after,
    ensures
        match row_of(
            raw@,
            match *mark {
                Some(m) => Some(m@),
                None => None,
            },
            before as nat,
            after as nat,
        ) {
            Some(x) => r is Some && (r->0)@ == x,
            None => r is None,
        },
{
    let t: &[char] = trim_start_of(raw);
    match mark {
        Some(m) => match m.kind {
            FlowKind::Visit => {
                let name: Vec<char> = match &m.target {
                    Some(name) => to_chars(name.as_str()),
                    None => Vec::new(),
                };
                assert(name@ =~= match m@.target {
                    Some(name) => name,
                    None => Seq::empty(),
                });
                Some(make_row(before, "=> ", name.as_slice(), COLOR_FLOW, "访问子章节"))
            },
            FlowKind::Return => Some(
                OutlineRow {
                    indent: after,
                    text: "<=".to_owned(),
                    color: COLOR_FLOW,
                    description: "返回".to_owned(),
                },
            ),
        },
        None => {
            if t.len() == 0 {
                return None;
            }
            let rest: &[char] = trim_of(slice_subrange(t, 1, t.len()));
            if begins_with(t, '#') {
                Some(make_row(before, "# ", rest, COLOR_SECTION, "章节"))
            } else if begins_with(t, '?') {
                if rest.len() == 0 {
                    None
                } else {
                    Some(make_row(before, "? ", rest, COLOR_CHOICE, "选项提示"))
                }
            } else if begins_with(t, '|') {
                Some(make_row(before, "| ", rest, COLOR_CHOICE, "选项"))
            } else {
                None
            }
        },
    }
}

proof fn lemma_step(marks: Seq<FlowKind>, kind: FlowKind)
    ensures
        flow::pairing(marks.push(kind)).open.len() == (match kind {
            FlowKind::Visit => (flow::pairing(marks).open.len() + 1) as int,
            FlowKind::Return => if flow::pairing(marks).open.len() > 0 {
                flow::pairing(marks).open.len() - 1
            } else {
                0
            },
        }),
{
    assert(marks.push(kind).drop_last() =~= marks);
}

/// The outline of a script, in the order of its lines.
pub fn outline(text: &str) -> (rows: Vec<OutlineRow>)
    ensures
        row_views(rows@) == outlined(text@),
{
    let s: Vec<char> = to_chars(text);
    let cs: &[char] = s.as_slice();
    let n: usize = cs.len();
    let mut rows: Vec<OutlineRow> = Vec::new();
    let mut i: usize = 0;
    let mut line: usize = 0;
    let mut open: usize = 0;
    let ghost mut marks: Seq<FlowKind> = Seq::empty();
    assert(row_views(rows@) + rows_from(cs@, 0, 0, marks) =~= outlined(text@));
    loop
        invariant
            cs@ == text@,
            n == cs@.len(),
            line <= i <= n,
            open <= line,
            open == flow::pairing(marks).open.len(),
            row_views(rows@) + rows_from(cs@, i as int, line as int, marks) == outlined(text@),
        decreases n - i,
    {
        let e: usize = find_char(cs, '\n', i);
        let raw: &[char] = slice_subrange(cs, i, e);
        let mark: Option<FlowMark> = mark_at_line(raw, i, line);
        let before: usize = open;
        let ghost now = if mark is Some {
            marks.push((mark->0).kind)
        } else {
            marks
        };
        match &mark {
            Some(m) => {
                proof {
                    lemma_step(marks, m.kind);
                    flow::lemma_mark_of(cs@, i as int, e as int, line as int);
                }
                match m.kind {
                    FlowKind::Visit => {
                        open = open + 1;
                    },
                    FlowKind::Return => {
                        if open > 0 {
                            open = open - 1;
                        }
                    },
                }
            },
            None => {},
        }
        let ghost prior = row_views(rows@);
        let ghost rest = if e < n {
            rows_from(cs@, e + 1, line + 1, now)
        } else {
            Seq::empty()
        };
        match make_row_of(raw, &mark, before, open) {
            Some(r) => {
                rows.push(r);
                assert(row_views(rows@) =~= prior.push(r@));
                assert(prior + (seq![r@] + rest) =~= prior.push(r@) + rest);
            },
            None => {},
        }
        if e == n {
            assert(row_views(rows@) + rest =~= row_views(rows@));
            return rows;
        }
        proof {
            marks = now;
        }
        i = e + 1;
        line = line + 1;
    }
}

/// What is shown in place of an outline without rows.
pub open spec fn note(s: Seq<char>) -> Option<Seq<char>> {
    if slices::trim(s).len() == 0 {
        Some("（暂无内容）"@)
    } else if outlined(s).len() == 0 {
        Some("（未发现章节 / 分支 / => 等结构）"@)
    } else {
        None
    }
}

/// What is shown in place of an outline without rows.
pub fn outline_note(text: &str) -> (r: Option<String>)
    ensures
        text::opt_view(r) == note(text@),
{
    let cs: Vec<char> = to_chars(text);
    let rows: Vec<OutlineRow> = outline(text);
    assert(row_views(rows@).len() == rows@.len());
    if trim_of(cs.as_slice()).len() == 0 {
        Some("（暂无内容）".to_owned())
    } else if rows.len() == 0 {
        Some("（未发现章节 / 分支 / => 等结构）".to_owned())
    } else {
        None
    }
}

// ---------------------------------------------------------------------------
// Laws
// ---------------------------------------------------------------------------

/// A return has a partner if and only if a visit is open before it.
pub proof fn law_return_closes_open(marks: Seq<FlowKind>, m: int)
    requires
        0 <= m < marks.len(),
        marks[m] is Return,
    ensures
        flow::pairing(marks).pairs.len() == marks.len(),
        flow::pairing(marks).pairs[m] is Some <==> depth(marks, m) > 0,
    decreases marks.len(),
{
    let front = marks.drop_last();
    flow::lemma_paired_well(marks);
    flow::lemma_paired_well(front);
    if m == marks.len() - 1 {
        assert(marks.take(m) =~= front);
    } else {
        law_return_closes_open(front, m);
        assert(front.take(m) =~= marks.take(m));
        let p = flow::pairing(front);
        if marks.last() is Return && p.open.len() > 0 {
            let j = p.open.last();
            assert(j == p.open[p.open.len() - 1]);
            assert(front[j] is Visit);
        }
    }
}

/// While a visit has no partner, the visits below it on the stack stay.
proof fn lemma_stack_below(marks: Seq<FlowKind>, i: int, k: int)
    requires
        0 <= i < k <= marks.len(),
        marks[i] is Visit,
        flow::pairing(marks.take(k)).pairs[i] is None,
    ensures
        flow::pairing(marks.take(k)).open.len() > depth(marks, i),
        flow::pairing(marks.take(k)).open.take((depth(marks, i) + 1) as int) == flow::pairing(
            marks.take(i),
        ).open.push(i),
    decreases k,
{
    let now = marks.take(k);
    let front = marks.take(k - 1);
    let base = flow::pairing(marks.take(i)).open;
    assert(now.drop_last() =~= front);
    assert(now.last() == marks[k - 1]);
    flow::lemma_paired_well(front);
    flow::lemma_paired_well(now);
    let p = flow::pairing(front);
    let q = flow::pairing(now);
    if i == k - 1 {
        assert(front =~= marks.take(i));
        assert(q.open.take((base.len() + 1) as int) =~= base.push(i));
    } else {
        assert(p.pairs[i] is None) by {
            if p.pairs[i] is Some {
                if marks[k - 1] is Return && p.open.len() > 0 {
                    let j = p.open.last();
                    assert(j == p.open[p.open.len() - 1]);
                    assert(p.pairs[j] is None);
                }
            }
        }
        lemma_stack_below(marks, i, k - 1);
        let n = (base.len() + 1) as int;
        assert(p.open.take(n) == base.push(i));
        assert(p.open[n - 1] == i) by {
            assert(p.open.take(n)[n - 1] == base.push(i)[n - 1]);
        }
        match marks[k - 1] {
            FlowKind::Visit => {
                assert(q.open.take(n) =~= p.open.take(n));
            },
            FlowKind::Return => {
                let j = p.open.last();
                assert(j == p.open[p.open.len() - 1]);
                if p.open.len() == n {
                    assert(j == i);
                    assert(q.pairs[i] is Some);
                }
                assert(q.open.take(n) =~= p.open.take(n));
            },
        }
    }
}

/// A visit and its return stand at the same indentation.
pub proof fn law_pair_same_indent(marks: Seq<FlowKind>, i: int, j: int)
    requires
        flow::partners(flow::pairing(marks).pairs, i, j),
        i < j,
    ensures
        depth(marks, i) == depth(marks, j + 1),
    decreases marks.len(),
{
    flow::lemma_paired_well(marks);
    let front = marks.drop_last();
    flow::lemma_paired_well(front);
    let p = flow::pairing(front);
    assert(flow::partners(flow::pairing(marks).pairs, j, i));
    if j < marks.len() - 1 {
        assert(p.pairs[i] == Some(j)) by {
            if marks.last() is Return && p.open.len() > 0 {
                let x = p.open.last();
                assert(x == p.open[p.open.len() - 1]);
            }
        }
        law_pair_same_indent(front, i, j);
        assert(front.take(i) =~= marks.take(i));
        assert(front.take(j + 1) =~= marks.take(j + 1));
    } else {
        let x = p.open.last();
        assert(x == p.open[p.open.len() - 1]);
        assert(x == i);
        assert(marks.take(j) =~= front);
        assert(marks.take(j + 1) =~= marks);
        assert(p.pairs[i] is None);
        lemma_stack_below(marks, i, j);
        let base = flow::pairing(marks.take(i)).open;
        let n = (base.len() + 1) as int;
        assert(p.open.take(n)[n - 1] == i);
        assert(p.open[n - 1] == i);
        assert(p.open.len() == n) by {
            if p.open.len() > n {
                assert(p.open[n - 1] < p.open[p.open.len() - 1]);
            }
        }
    }
}

} // verus!
