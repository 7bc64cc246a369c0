//! Semantic checks: section references, variable types, resource references
//! and the number of characters on stage.

use crate::ast;
use crate::ast::{
    BinOp, ChoiceOption, ChoiceOptionView, DirectionKind, Expr, Node, NodeView, Program,
    ProgramView, Section, SectionView, UnOp, VarOpKind,
};
use crate::table::Table;
use crate::text;
use crate::text::{
    clone_strings, concat2, concat3, concat5, contains_str, has_string, str_eq, to_chars,
};
use crate::token::LocSpan;
use crate::value::Type;
use vstd::prelude::*;

verus! {

#[derive(Debug, Clone, Copy, PartialEq, Eq, Structural)]
pub enum Severity {
    Error,
    Warning,
    Note,
}

/// A finding of the checker.
#[derive(Debug, Clone)]
pub struct CheckError<S = String> {
    pub message: S,
    pub span: LocSpan,
    pub hint: Option<S>,
    pub severity: Severity,
}

impl View for CheckError<String> {
    type V = CheckError<Seq<char>>;

    open spec fn view(&self) -> CheckError<Seq<char>> {
        CheckError {
            message: self.message@,
            span: self.span,
            hint: text::opt_view(self.hint),
            severity: self.severity,
        }
    }
}

/// The views of a sequence of findings.
pub open spec fn check_error_views(s: Seq<CheckError>) -> Seq<CheckError<Seq<char>>> {
    Seq::new(s.len(), |i: int| s[i]@)
}

/// A finding of the model.
pub type Finding = CheckError<Seq<char>>;

// ---------------------------------------------------------------------------
// Edit distance
// ---------------------------------------------------------------------------

pub open spec fn min(a: nat, b: nat) -> nat {
    if a <= b {
        a
    } else {
        b
    }
}

/// The least number of insertions, deletions and replacements of a character
/// that turn one text into the other.
pub open spec fn edit_distance(a: Seq<char>, b: Seq<char>) -> nat
    decreases a.len() + b.len(),
{
    if a.len() == 0 {
        b.len()
    } else if b.len() == 0 {
        a.len()
    } else {
        let cost: nat = if a.last() == b.last() {
            0
        } else {
            1
        };
        min(
            min(
                edit_distance(a.drop_last(), b) + 1,
                edit_distance(a, b.drop_last()) + 1,
            ),
            edit_distance(a.drop_last(), b.drop_last()) + cost,
        )
    }
}

/// The distance is at most the length of the longer text.
proof fn lemma_distance_bound(a: Seq<char>, b: Seq<char>)
    ensures
        edit_distance(a, b) <= a.len() || edit_distance(a, b) <= b.len(),
    decreases a.len() + b.len(),
{
    if a.len() > 0 && b.len() > 0 {
        lemma_distance_bound(a.drop_last(), b.drop_last());
    }
}

/// The edit distance does not depend on the order of the two texts.
pub proof fn law_distance_symmetric(a: Seq<char>, b: Seq<char>)
    ensures
        edit_distance(a, b) == edit_distance(b, a),
    decreases a.len() + b.len(),
{
    if a.len() > 0 && b.len() > 0 {
        law_distance_symmetric(a.drop_last(), b);
        law_distance_symmetric(a, b.drop_last());
        law_distance_symmetric(a.drop_last(), b.drop_last());
    }
}

/// The edit distance is zero for equal texts and for no others.
pub proof fn law_distance_zero(a: Seq<char>, b: Seq<char>)
    ensures
        edit_distance(a, b) == 0 <==> a == b,
    decreases a.len() + b.len(),
{
    if a.len() == 0 || b.len() == 0 {
        if a.len() == b.len() {
            assert(a =~= b);
        }
    } else {
        law_distance_zero(a.drop_last(), b.drop_last());
        assert(a == a.drop_last().push(a.last()));
        assert(b == b.drop_last().push(b.last()));
    }
}

/// Dropping a character from the end of either text, or from both, changes the
/// distance by no more than the edit that it takes.
proof fn lemma_distance_steps(a: Seq<char>, b: Seq<char>)
    ensures
        a.len() > 0 ==> edit_distance(a, b) <= edit_distance(a.drop_last(), b) + 1,
        b.len() > 0 ==> edit_distance(a, b) <= edit_distance(a, b.drop_last()) + 1,
        a.len() > 0 && b.len() > 0 ==> edit_distance(a, b) <= edit_distance(
            a.drop_last(),
            b.drop_last(),
        ) + 1,
        a.len() > 0 && b.len() > 0 && a.last() == b.last() ==> edit_distance(a, b)
            <= edit_distance(a.drop_last(), b.drop_last()),
{
}

/// Texts differ in length by no more than their distance.
proof fn lemma_distance_length(a: Seq<char>, b: Seq<char>)
    ensures
        a.len() <= b.len() + edit_distance(a, b),
        b.len() <= a.len() + edit_distance(a, b),
    decreases a.len() + b.len(),
{
    if a.len() > 0 && b.len() > 0 {
        lemma_distance_length(a.drop_last(), b);
        lemma_distance_length(a, b.drop_last());
        lemma_distance_length(a.drop_last(), b.drop_last());
    }
}

/// A way over a third text is no shorter than the direct one.
pub proof fn law_distance_triangle(a: Seq<char>, b: Seq<char>, c: Seq<char>)
    ensures
        edit_distance(a, c) <= edit_distance(a, b) + edit_distance(b, c),
    decreases a.len() + b.len() + c.len(),
{
    lemma_distance_length(a, b);
    lemma_distance_length(b, c);
    lemma_distance_bound(a, c);
    lemma_distance_steps(a, c);
    if a.len() > 0 && b.len() > 0 && c.len() > 0 {
        let (a1, b1, c1) = (a.drop_last(), b.drop_last(), c.drop_last());
        law_distance_triangle(a1, b, c);
        law_distance_triangle(a, b, c1);
        law_distance_triangle(a, b1, c);
        law_distance_triangle(a, b1, c1);
        law_distance_triangle(a1, b1, c);
        law_distance_triangle(a1, b1, c1);
    }
}

/// Whether inserting the character `c` at `i`, or removing or replacing the one
/// there, makes one text of the other.
pub open spec fn edit_makes(a: Seq<char>, b: Seq<char>, i: int, c: char) -> bool {
    ||| 0 <= i <= a.len() && b == a.insert(i, c)
    ||| 0 <= i < a.len() && b == a.remove(i)
    ||| 0 <= i < a.len() && b == a.update(i, c)
}

/// Whether one edit makes one text of the other.
pub open spec fn one_edit(a: Seq<char>, b: Seq<char>) -> bool {
    exists|i: int, c: char| edit_makes(a, b, i, c)
}

/// Whether texts lead from `a` to `b`, each by one edit of the one before.
pub open spec fn edits_lead(way: Seq<Seq<char>>, a: Seq<char>, b: Seq<char>) -> bool {
    &&& way.len() > 0
    &&& way[0] == a
    &&& way.last() == b
    &&& forall|k: int| 0 < k < way.len() ==> one_edit(way[k - 1], #[trigger] way[k])
}

/// The distance of texts that end in the same characters is no more than that
/// of what stands before them.
proof fn lemma_common_end(a: Seq<char>, b: Seq<char>, end: Seq<char>)
    ensures
        edit_distance(a + end, b + end) <= edit_distance(a, b),
    decreases end.len(),
{
    if end.len() == 0 {
        assert(a + end =~= a);
        assert(b + end =~= b);
    } else {
        lemma_common_end(a, b, end.drop_last());
        assert((a + end).drop_last() =~= a + end.drop_last());
        assert((b + end).drop_last() =~= b + end.drop_last());
        lemma_distance_steps(a + end, b + end);
    }
}

proof fn lemma_edit_distance_one(a: Seq<char>, b: Seq<char>)
    requires
        one_edit(a, b),
    ensures
        edit_distance(a, b) <= 1,
{
    let (i, c) = choose|i: int, c: char| edit_makes(a, b, i, c);
    let front = a.take(i);
    law_distance_zero(front, front);
    if 0 <= i <= a.len() && b == a.insert(i, c) {
        let end = a.skip(i);
        assert(a =~= front + end);
        assert(b =~= front.push(c) + end);
        assert(front.push(c).drop_last() =~= front);
        lemma_distance_steps(front, front.push(c));
        lemma_common_end(front, front.push(c), end);
    } else {
        let end = a.skip(i + 1);
        assert(a =~= front.push(a[i]) + end);
        assert(front.push(a[i]).drop_last() =~= front);
        if b == a.remove(i) {
            assert(b =~= front + end);
            lemma_distance_steps(front.push(a[i]), front);
            lemma_common_end(front.push(a[i]), front, end);
        } else {
            assert(b =~= front.push(c) + end);
            assert(front.push(c).drop_last() =~= front);
            lemma_distance_steps(front.push(a[i]), front.push(c));
            lemma_common_end(front.push(a[i]), front.push(c), end);
        }
    }
}

/// No way from one text to another takes fewer edits than their distance.
pub proof fn law_distance_least(way: Seq<Seq<char>>, a: Seq<char>, b: Seq<char>)
    requires
        edits_lead(way, a, b),
    ensures
        edit_distance(a, b) <= way.len() - 1,
    decreases way.len(),
{
    if way.len() == 1 {
        law_distance_zero(a, b);
    } else {
        let front = way.drop_last();
        let last = front.last();
        assert(one_edit(way[way.len() - 2], way[way.len() - 1]));
        law_distance_least(front, a, last);
        lemma_edit_distance_one(last, b);
        law_distance_triangle(a, last, b);
    }
}

proof fn lemma_way_push(way: Seq<Seq<char>>, a: Seq<char>, b: Seq<char>, c: Seq<char>)
    requires
        edits_lead(way, a, b),
        one_edit(b, c),
    ensures
        edits_lead(way.push(c), a, c),
{
    let longer = way.push(c);
    assert forall|k: int| 0 < k < longer.len() implies one_edit(
        longer[k - 1],
        #[trigger] longer[k],
    ) by {
        if k < way.len() {
            assert(one_edit(way[k - 1], way[k]));
        }
    }
}

proof fn lemma_way_first(way: Seq<Seq<char>>, a: Seq<char>, b: Seq<char>, c: Seq<char>)
    requires
        one_edit(a, b),
        edits_lead(way, b, c),
    ensures
        edits_lead(seq![a] + way, a, c),
{
    let longer = seq![a] + way;
    assert forall|k: int| 0 < k < longer.len() implies one_edit(
        longer[k - 1],
        #[trigger] longer[k],
    ) by {
        if k > 1 {
            assert(one_edit(way[k - 2], way[k - 1]));
        }
    }
}

/// The texts, each with a character behind it.
spec fn with_last(way: Seq<Seq<char>>, x: char) -> Seq<Seq<char>> {
    Seq::new(way.len(), |i: int| way[i].push(x))
}

proof fn lemma_way_with_last(way: Seq<Seq<char>>, a: Seq<char>, b: Seq<char>, x: char)
    requires
        edits_lead(way, a, b),
    ensures
        edits_lead(with_last(way, x), a.push(x), b.push(x)),
{
    let longer = with_last(way, x);
    assert forall|k: int| 0 < k < longer.len() implies one_edit(
        longer[k - 1],
        #[trigger] longer[k],
    ) by {
        let (s, t) = (way[k - 1], way[k]);
        assert(one_edit(s, t));
        let (i, c) = choose|i: int, c: char| edit_makes(s, t, i, c);
        if 0 <= i <= s.len() && t == s.insert(i, c) {
            assert(t.push(x) =~= s.push(x).insert(i, c));
        } else if t == s.remove(i) {
            assert(t.push(x) =~= s.push(x).remove(i));
        } else {
            assert(t.push(x) =~= s.push(x).update(i, c));
        }
        assert(edit_makes(s.push(x), t.push(x), i, c));
    }
}

/// There is a way from one text to another of as many edits as their distance.
pub proof fn law_distance_reached(a: Seq<char>, b: Seq<char>) -> (way: Seq<Seq<char>>)
    ensures
        edits_lead(way, a, b),
        way.len() == edit_distance(a, b) + 1,
    decreases a.len() + b.len(),
{
    let (a1, b1) = (a.drop_last(), b.drop_last());
    if a.len() > 0 {
        assert(a1 =~= a.remove(a.len() - 1));
        assert(edit_makes(a, a1, a.len() - 1, a.last()));
    }
    if b.len() > 0 {
        assert(b =~= b1.insert(b1.len() as int, b.last()));
        assert(edit_makes(b1, b, b1.len() as int, b.last()));
    }
    if a.len() == 0 && b.len() == 0 {
        assert(a =~= b);
        seq![a]
    } else if b.len() > 0 && edit_distance(a, b) == edit_distance(a, b1) + 1 {
        let way = law_distance_reached(a, b1);
        lemma_way_push(way, a, b1, b);
        way.push(b)
    } else if a.len() > 0 && edit_distance(a, b) == edit_distance(a1, b) + 1 {
        let way = law_distance_reached(a1, b);
        lemma_way_first(way, a, a1, b);
        seq![a] + way
    } else {
        let way = law_distance_reached(a1, b1);
        let x = a.last();
        lemma_way_with_last(way, a1, b1, x);
        assert(a1.push(x) =~= a);
        if x == b.last() {
            assert(b1.push(x) =~= b);
            with_last(way, x)
        } else {
            assert(b =~= b1.push(x).update(b1.len() as int, b.last()));
            assert(edit_makes(b1.push(x), b, b1.len() as int, b.last()));
            lemma_way_push(with_last(way, x), a, b1.push(x), b);
            with_last(way, x).push(b)
        }
    }
}

/// The edit distance of two texts.
fn levenshtein(a: &str, b: &str) -> (d: usize)
    ensures
        d == edit_distance(a@, b@),
{
    let a: Vec<char> = to_chars(a);
    let b: Vec<char> = to_chars(b);
    let n: usize = a.len();
    let m: usize = b.len();
    // row[j] is the distance of the first i characters of a to the first j of b.
    let mut row: Vec<usize> = Vec::new();
    let mut j: usize = 0;
    while j < m
        invariant
            j <= m,
            m == b@.len(),
            row@.len() == j,
            forall|k: int| 0 <= k < j ==> row@[k] == edit_distance(a@.take(0), b@.take(k)),
        decreases m - j,
    {
        row.push(j);
        j = j + 1;
    }
    row.push(m);
    let mut i: usize = 0;
    while i < n
        invariant
            i <= n,
            n == a@.len(),
            m == b@.len(),
            row@.len() == m + 1,
            forall|k: int| 0 <= k <= m ==> row@[k] == edit_distance(a@.take(i as int), b@.take(k)),
        decreases n - i,
    {
        let mut next: Vec<usize> = Vec::new();
        next.push(i + 1);
        proof {
            assert(a@.take(i + 1).len() == i + 1);
        }
        let mut j: usize = 0;
        while j < m
            invariant
                i < n,
                n == a@.len(),
                m == b@.len(),
                j <= m,
                row@.len() == m + 1,
                next@.len() == j + 1,
                forall|k: int|
                    0 <= k <= m ==> row@[k] == edit_distance(a@.take(i as int), b@.take(k)),
                forall|k: int|
                    0 <= k <= j ==> next@[k] == edit_distance(a@.take(i + 1), b@.take(k)),
            decreases m - j,
        {
            let cost: usize = if a[i] == b[j] {
                0
            } else {
                1
            };
            proof {
                let x = a@.take(i + 1);
                let y = b@.take(j + 1);
                assert(x.drop_last() =~= a@.take(i as int));
                assert(y.drop_last() =~= b@.take(j as int));
                lemma_distance_bound(x.drop_last(), y.drop_last());
                lemma_distance_bound(x, y);
            }
            let up: usize = row[j + 1].saturating_add(1);
            let left: usize = next[j].saturating_add(1);
            let diagonal: usize = row[j].saturating_add(cost);
            let mut best: usize = up;
            if left < best {
                best = left;
            }
            if diagonal < best {
                best = diagonal;
            }
            next.push(best);
            j = j + 1;
        }
        row = next;
        i = i + 1;
    }
    proof {
        assert(a@.take(n as int) =~= a@);
        assert(b@.take(m as int) =~= b@);
    }
    row[m]
}

// ---------------------------------------------------------------------------
// Sections
// ---------------------------------------------------------------------------

/// A section name with the place of its first definition.
pub type Definition = (Seq<char>, LocSpan);

/// The first definition of a name.
pub open spec fn defined_at(defs: Seq<Definition>, name: Seq<char>) -> Option<LocSpan>
    decreases defs.len(),
{
    if defs.len() == 0 {
        None
    } else {
        match defined_at(defs.drop_last(), name) {
            Some(span) => Some(span),
            None => if defs.last().0 == name {
                Some(defs.last().1)
            } else {
                None
            },
        }
    }
}

/// The distinct section names in order, and the findings about repeated ones.
pub open spec fn definitions(sections: Seq<SectionView>) -> (Seq<Definition>, Seq<Finding>)
    decreases sections.len(),
{
    if sections.len() == 0 {
        (Seq::empty(), Seq::empty())
    } else {
        let (defs, errs) = definitions(sections.drop_last());
        let s = sections.last();
        match defined_at(defs, s.name) {
            Some(first) => (
                defs,
                errs.push(
                    CheckError {
                        message: "duplicate section name: '"@ + s.name + "'"@,
                        span: s.span,
                        hint: Some("each section must have a unique name"@),
                        severity: Severity::Error,
                    },
                ).push(
                    CheckError {
                        message: "'"@ + s.name + "' was first defined here"@,
                        span: first,
                        hint: None,
                        severity: Severity::Note,
                    },
                ),
            ),
            None => (defs.push((s.name, s.span)), errs),
        }
    }
}

/// The defined name closest to `target`, with its distance, where one is at
/// most three edits away; of equally close names the one defined first.
pub open spec fn closest(defs: Seq<Definition>, target: Seq<char>) -> Option<(nat, Seq<char>)>
    decreases defs.len(),
{
    if defs.len() == 0 {
        None
    } else {
        let best = closest(defs.drop_last(), target);
        let d = edit_distance(target, defs.last().0);
        if d <= 3 && (best is None || d < (best->0).0) {
            Some((d, defs.last().0))
        } else {
            best
        }
    }
}

/// The hint for an undefined section.
pub open spec fn suggestion(defs: Seq<Definition>, target: Seq<char>) -> Seq<char> {
    match closest(defs, target) {
        Some((_, name)) => "did you mean '"@ + name + "'?"@,
        None => "define this section with # Name"@,
    }
}

/// A suggested name is defined and no defined name is closer; where none is
/// suggested, none is within three edits.
pub proof fn law_suggestion_is_closest(defs: Seq<Definition>, target: Seq<char>)
    ensures
        match closest(defs, target) {
            Some((d, name)) => {
                &&& d <= 3
                &&& d == edit_distance(target, name)
                &&& exists|i: int| 0 <= i < defs.len() && (#[trigger] defs[i]).0 == name
                &&& forall|i: int|
                    0 <= i < defs.len() ==> d <= edit_distance(target, (#[trigger] defs[i]).0)
            },
            None => forall|i: int|
                0 <= i < defs.len() ==> edit_distance(target, (#[trigger] defs[i]).0) > 3,
        },
    decreases defs.len(),
{
    if defs.len() > 0 {
        law_suggestion_is_closest(defs.drop_last(), target);
        let front = defs.drop_last();
        assert forall|i: int| 0 <= i < front.len() implies #[trigger] defs[i] == front[i] by {}
        assert(defs[defs.len() - 1] == defs.last());
    }
}

// ---------------------------------------------------------------------------
// Expressions
// ---------------------------------------------------------------------------

/// What the checker knows: the types of the variables assigned so far, and the
/// findings.
pub struct Knowledge {
    pub vars: Map<Seq<char>, Type>,
    pub errs: Seq<Finding>,
}

/// One more error.
pub open spec fn note(k: Knowledge, message: Seq<char>, span: LocSpan, hint: Option<Seq<char>>) -> Knowledge {
    Knowledge {
        errs: k.errs.push(CheckError { message, span, hint, severity: Severity::Error }),
        ..k
    }
}

/// The error of a variable that was never assigned.
pub open spec fn undefined_variable(k: Knowledge, name: Seq<char>, span: LocSpan) -> Knowledge {
    note(
        k,
        "undefined variable: '"@ + name + "'"@,
        span,
        Some("declare with $"@ + name + " = ... first"@),
    )
}

pub open spec fn binop_text(op: BinOp) -> Seq<char> {
    match op {
        BinOp::Add => "Add"@,
        BinOp::Sub => "Sub"@,
        BinOp::Mul => "Mul"@,
        BinOp::Div => "Div"@,
        BinOp::Eq => "Eq"@,
        BinOp::Neq => "Neq"@,
        BinOp::Lt => "Lt"@,
        BinOp::Gt => "Gt"@,
        BinOp::LtEq => "LtEq"@,
        BinOp::GtEq => "GtEq"@,
        BinOp::And => "And"@,
        BinOp::Or => "Or"@,
    }
}

pub open spec fn expr_span(e: Expr<Seq<char>>) -> LocSpan {
    match e {
        Expr::Binary { span, .. } => span,
        Expr::Unary { span, .. } => span,
        _ => LocSpan::origin(),
    }
}

/// The type of an arithmetic result, where there is one.
pub open spec fn arithmetic_type(op: BinOp, l: Type, r: Type) -> Option<Type> {
    if l is Str && r is Str && op is Add {
        Some(Type::Str)
    } else if l.is_numeric() && r.is_numeric() {
        Some(
            if l is Float || r is Float {
                Type::Float
            } else {
                Type::Int
            },
        )
    } else if l is Unknown || r is Unknown {
        Some(Type::Unknown)
    } else {
        None
    }
}

pub open spec fn is_arithmetic(op: BinOp) -> bool {
    op is Add || op is Sub || op is Mul || op is Div
}

/// The type of an expression, and what was found in it.
pub open spec fn infer(e: Expr<Seq<char>>, k: Knowledge) -> (Type, Knowledge)
    decreases e,
{
    match e {
        Expr::Int(_) => (Type::Int, k),
        Expr::Float(_) => (Type::Float, k),
        Expr::Str(_) => (Type::Str, k),
        Expr::Bool(_) => (Type::Bool, k),
        Expr::Var(name) => if k.vars.contains_key(name) {
            (k.vars[name], k)
        } else {
            (Type::Unknown, undefined_variable(k, name, expr_span(e)))
        },
        Expr::Binary { op, left, right, span } => {
            let (lt, k1) = infer(*left, k);
            let (rt, k2) = infer(*right, k1);
            if is_arithmetic(op) {
                match arithmetic_type(op, lt, rt) {
                    Some(t) => (t, k2),
                    None => (
                        Type::Unknown,
                        note(
                            k2,
                            "cannot apply "@ + binop_text(op) + " to "@ + lt.type_text() + " and "@
                                + rt.type_text(),
                            span,
                            None,
                        ),
                    ),
                }
            } else if (op is And || op is Or) && !(lt is Bool) && !(lt is Unknown) {
                (
                    Type::Bool,
                    note(
                        k2,
                        "expected bool, found "@ + lt.type_text(),
                        expr_span(*left),
                        None,
                    ),
                )
            } else {
                (Type::Bool, k2)
            }
        },
        Expr::Unary { op, operand, span } => {
            let (ot, k1) = infer(*operand, k);
            match op {
                UnOp::Not => (Type::Bool, k1),
                UnOp::Neg => if ot.is_numeric() || ot is Unknown {
                    (ot, k1)
                } else {
                    (ot, note(k1, "cannot negate "@ + ot.type_text(), span, None))
                },
            }
        },
    }
}

/// The check of a condition: its type is a truth value, or not known.
pub open spec fn condition(
    e: Expr<Seq<char>>,
    k: Knowledge,
    what: Seq<char>,
    span: LocSpan,
) -> Knowledge {
    let (t, k1) = infer(e, k);
    if t is Bool || t is Unknown {
        k1
    } else {
        note(k1, what + " condition must be bool, found "@ + t.type_text(), span, None)
    }
}

// ---------------------------------------------------------------------------
// Nodes
// ---------------------------------------------------------------------------

/// What does not change while a program is checked.
pub struct Setting {
    pub defs: Seq<Definition>,
    pub resources: Seq<Seq<char>>,
}

/// Whether a resource is declared: it is part of a declared path.
pub open spec fn resource_known(resources: Seq<Seq<char>>, res: Seq<char>) -> bool {
    exists|i: int| 0 <= i < resources.len() && text::contains(#[trigger] resources[i], res)
}

/// The texts other than `name`, in order.
pub open spec fn without(names: Seq<Seq<char>>, name: Seq<char>) -> Seq<Seq<char>>
    decreases names.len(),
{
    if names.len() == 0 {
        names
    } else if names.last() == name {
        without(names.drop_last(), name)
    } else {
        without(names.drop_last(), name).push(names.last())
    }
}

pub open spec fn varop_text(op: VarOpKind) -> Seq<char> {
    match op {
        VarOpKind::Assign => "="@,
        VarOpKind::PlusEq => "+="@,
        VarOpKind::MinusEq => "-="@,
    }
}

/// The check of a variable operation whose value has type `t`.
pub open spec fn check_varop(
    name: Seq<char>,
    op: VarOpKind,
    t: Type,
    k: Knowledge,
    span: LocSpan,
) -> Knowledge {
    if op is Assign {
        Knowledge { vars: k.vars.insert(name, t), ..k }
    } else if !k.vars.contains_key(name) {
        undefined_variable(k, name, span)
    } else if k.vars[name].fits(t) {
        k
    } else {
        note(
            k,
            "type mismatch: cannot apply "@ + varop_text(op) + " to "@ + name + " ("@
                + k.vars[name].type_text() + ") and "@ + t.type_text(),
            span,
            None,
        )
    }
}

/// The check of a section reference.
pub open spec fn check_target(s: Setting, target: Seq<char>, k: Knowledge, span: LocSpan) -> Knowledge {
    if defined_at(s.defs, target) is Some {
        k
    } else {
        note(
            k,
            "undefined section: '"@ + target + "'"@,
            span,
            Some(suggestion(s.defs, target)),
        )
    }
}

/// The check of a command.
pub open spec fn check_command(
    s: Setting,
    cmd: Seq<char>,
    args: Seq<Seq<char>>,
    k: Knowledge,
    span: LocSpan,
) -> Knowledge {
    if s.resources.len() > 0 && (cmd == "bg"@ || cmd == "music"@ || cmd == "sound"@) && args.len()
        > 0 && !resource_known(s.resources, args[0]) {
        Knowledge {
            errs: k.errs.push(
                CheckError {
                    message: "resource '"@ + args[0] + "' not found"@,
                    span,
                    hint: Some("add '"@ + args[0] + "' to your assets directory"@),
                    severity: Severity::Warning,
                },
            ),
            ..k
        }
    } else {
        k
    }
}

/// Who is on stage after a character entered, and the finding where that is
/// one too many. A character that is on stage already does not count twice.
pub open spec fn check_entrance(
    character: Seq<char>,
    stage: Seq<Seq<char>>,
    k: Knowledge,
    span: LocSpan,
) -> (Knowledge, Seq<Seq<char>>) {
    if stage.contains(character) {
        (k, stage)
    } else if stage.len() >= 2 {
        (
            note(
                k,
                "too many characters on stage: '"@ + character
                    + "' would be the 3rd (limit is 2)"@,
                span,
                Some("exit a character with `- Name` before entering a new one"@),
            ),
            stage.push(character),
        )
    } else {
        (k, stage.push(character))
    }
}

/// The check of a node with `stage` on stage: what is known afterwards, and
/// who is on stage. Branches are checked each from the same stage, which they
/// leave unchanged.
pub open spec fn check_node(
    n: NodeView,
    s: Setting,
    k: Knowledge,
    stage: Seq<Seq<char>>,
) -> (Knowledge, Seq<Seq<char>>)
    decreases n,
{
    match n {
        NodeView::Command { cmd, args, span, .. } => (check_command(s, cmd, args, k, span), stage),
        NodeView::Direction { action, span } => match action.kind {
            DirectionKind::Enter => check_entrance(action.character, stage, k, span),
            DirectionKind::Exit => (k, without(stage, action.character)),
        },
        NodeView::VarOp { name, op, expr, span } => {
            let (t, k1) = infer(expr, k);
            (check_varop(name, op, t, k1, span), stage)
        },
        NodeView::Choice { options, .. } => (check_options(options, s, k, stage), stage),
        NodeView::Conditional { branches, else_branch, .. } => {
            let k1 = check_branches(branches, s, k, stage);
            match else_branch {
                Some(body) => (check_nodes(body, s, k1, stage).0, stage),
                None => (k1, stage),
            }
        },
        NodeView::Flow { target, span } => (check_target(s, target, k, span), stage),
        NodeView::Visit { target, span } => (check_target(s, target, k, span), stage),
        _ => (k, stage),
    }
}

pub open spec fn check_nodes(
    nodes: Seq<NodeView>,
    s: Setting,
    k: Knowledge,
    stage: Seq<Seq<char>>,
) -> (Knowledge, Seq<Seq<char>>)
    decreases nodes,
{
    if nodes.len() == 0 {
        (k, stage)
    } else {
        let (k1, stage1) = check_nodes(nodes.drop_last(), s, k, stage);
        check_node(nodes.last(), s, k1, stage1)
    }
}

pub open spec fn check_options(
    options: Seq<ChoiceOptionView>,
    s: Setting,
    k: Knowledge,
    stage: Seq<Seq<char>>,
) -> Knowledge
    decreases options,
{
    if options.len() == 0 {
        k
    } else {
        let k1 = check_options(options.drop_last(), s, k, stage);
        check_option(options.last(), s, k1, stage)
    }
}

pub open spec fn check_option(
    o: ChoiceOptionView,
    s: Setting,
    k: Knowledge,
    stage: Seq<Seq<char>>,
) -> Knowledge
    decreases o,
{
    let k1 = match o.condition {
        Some(c) => condition(c, k, "choice"@, o.span),
        None => k,
    };
    check_nodes(o.body, s, k1, stage).0
}

pub open spec fn check_branches(
    branches: Seq<(Expr<Seq<char>>, Seq<NodeView>)>,
    s: Setting,
    k: Knowledge,
    stage: Seq<Seq<char>>,
) -> Knowledge
    decreases branches,
{
    if branches.len() == 0 {
        k
    } else {
        let k1 = check_branches(branches.drop_last(), s, k, stage);
        let (cond, body) = branches.last();
        let k2 = condition(cond, k1, "if"@, expr_span(cond));
        check_nodes(body, s, k2, stage).0
    }
}

/// The checks of the sections; each starts with an empty stage.
pub open spec fn check_sections(sections: Seq<SectionView>, s: Setting, k: Knowledge) -> Knowledge
    decreases sections.len(),
{
    if sections.len() == 0 {
        k
    } else {
        let k1 = check_sections(sections.drop_last(), s, k);
        check_nodes(sections.last().nodes, s, k1, Seq::empty()).0
    }
}

/// The findings about the entry.
pub open spec fn check_entry(p: ProgramView, defs: Seq<Definition>) -> Seq<Finding> {
    match p.entry {
        Some(entry) => if defined_at(defs, entry) is Some {
            Seq::empty()
        } else {
            seq![
                CheckError {
                    message: "entry section '"@ + entry + "' not found"@,
                    span: LocSpan::origin(),
                    hint: None,
                    severity: Severity::Error,
                },
            ]
        },
        None => if defs.len() == 0 {
            seq![
                CheckError {
                    message: "no sections defined"@,
                    span: LocSpan::origin(),
                    hint: Some("add at least one section: # Start"@),
                    severity: Severity::Warning,
                },
            ]
        } else {
            Seq::empty()
        },
    }
}

/// All findings about a program, with the given resources declared.
pub open spec fn findings(p: ProgramView, resources: Seq<Seq<char>>) -> Seq<Finding> {
    let (defs, errs) = definitions(p.sections);
    let s = Setting { defs, resources };
    let k = Knowledge { vars: Map::empty(), errs: errs + check_entry(p, defs) };
    check_sections(p.sections, s, k).errs
}

// ---------------------------------------------------------------------------
// Code
// ---------------------------------------------------------------------------

/// The views of a sequence of definitions.
spec fn def_views(s: Seq<(String, LocSpan)>) -> Seq<Definition> {
    Seq::new(s.len(), |i: int| (s[i].0@, s[i].1))
}

/// A check that is under way.
struct Walk<'a> {
    errors: Vec<CheckError>,
    defs: Vec<(String, LocSpan)>,
    variables: Table<Type>,
    resources: &'a Vec<String>,
}

impl<'a> Walk<'a> {
    spec fn knowledge(&self) -> Knowledge {
        Knowledge { vars: self.variables@, errs: check_error_views(self.errors@) }
    }

    spec fn setting(&self) -> Setting {
        Setting { defs: def_views(self.defs@), resources: text::views(self.resources@) }
    }

    /// The walk came from `pre` and knows `k` now.
    spec fn knows(&self, pre: &Walk<'a>, k: Knowledge) -> bool {
        &&& self.defs == pre.defs
        &&& self.resources == pre.resources
        &&& self.knowledge() == k
    }

    fn report(&mut self, message: String, span: LocSpan, hint: Option<String>, severity: Severity)
        ensures
            final(self).knows(
                old(self),
                (Knowledge {
                    vars: old(self).knowledge().vars,
                    errs: old(self).knowledge().errs.push(
                        CheckError {
                            message: message@,
                            span,
                            hint: text::opt_view(hint),
                            severity,
                        },
                    ),
                }),
            ),
    {
        let e: CheckError = CheckError { message, span, hint, severity };
        self.errors.push(e);
        assert(check_error_views(self.errors@) =~= check_error_views(old(self).errors@).push(e@));
    }

    fn report_undefined_variable(&mut self, name: &str, span: LocSpan)
        ensures
            final(self).knows(
                old(self),
                undefined_variable(old(self).knowledge(), name@, span),
            ),
    {
        self.report(
            concat3("undefined variable: '", name, "'"),
            span,
            Some(concat3("declare with $", name, " = ... first")),
            Severity::Error,
        );
    }

    /// The first definition of a name.
    fn definition(&self, name: &str) -> (r: Option<LocSpan>)
        ensures
            r == defined_at(self.setting().defs, name@),
    {
        let ghost defs = def_views(self.defs@);
        let mut i: usize = 0;
        assert(defs.take(0) =~= Seq::empty());
        while i < self.defs.len()
            invariant
                i <= self.defs@.len(),
                defs == def_views(self.defs@),
                defined_at(defs.take(i as int), name@) is None,
            decreases self.defs@.len() - i,
        {
            assert(defs.take(i + 1).drop_last() =~= defs.take(i as int));
            if str_eq(self.defs[i].0.as_str(), name) {
                let span: LocSpan = self.defs[i].1;
                proof {
                    lemma_defined_prefix(defs, name@, i + 1);
                }
                return Some(span);
            }
            i = i + 1;
        }
        assert(defs.take(i as int) =~= defs);
        None
    }

    fn suggest_section(&self, target: &str) -> (r: String)
        ensures
            r@ == suggestion(self.setting().defs, target@),
    {
        let ghost defs = def_views(self.defs@);
        let mut best: Option<(usize, usize)> = None;
        let mut i: usize = 0;
        assert(defs.take(0) =~= Seq::empty());
        while i < self.defs.len()
            invariant
                i <= self.defs@.len(),
                defs == def_views(self.defs@),
                match best {
                    Some((d, at)) => at < i && closest(defs.take(i as int), target@) == Some(
                        (d as nat, defs[at as int].0),
                    ),
                    None => closest(defs.take(i as int), target@) is None,
                },
            decreases self.defs@.len() - i,
        {
            let d: usize = levenshtein(target, self.defs[i].0.as_str());
            proof {
                assert(defs.take(i + 1).drop_last() =~= defs.take(i as int));
                assert(defs.take(i + 1).last() == defs[i as int]);
            }
            let closer: bool = match best {
                Some((b, _)) => d < b,
                None => true,
            };
            if d <= 3 && closer {
                best = Some((d, i));
            }
            i = i + 1;
        }
        assert(defs.take(i as int) =~= defs);
        match best {
            Some((_, at)) => concat3("did you mean '", self.defs[at].0.as_str(), "'?"),
            None => "define this section with # Name".to_owned(),
        }
    }

    /// The type of an expression.
    fn infer_expr(&mut self, e: &Expr) -> (t: Type)
        ensures
            ({
                let (ty, k) = infer(e@, old(self).knowledge());
                t == ty && final(self).knows(old(self), k)
            }),
        decreases *e,
    {
        match e {
            Expr::Int(_) => Type::Int,
            Expr::Float(_) => Type::Float,
            Expr::Str(_) => Type::Str,
            Expr::Bool(_) => Type::Bool,
            Expr::Var(name) => {
                let known: Option<Type> = match self.variables.get(name.as_str()) {
                    Some(t) => Some(*t),
                    None => None,
                };
                match known {
                    Some(t) => t,
                    None => {
                        self.report_undefined_variable(name.as_str(), e.span());
                        Type::Unknown
                    },
                }
            },
            Expr::Binary { op, left, right, span } => {
                let lt: Type = self.infer_expr(left);
                let rt: Type = self.infer_expr(right);
                match op {
                    BinOp::Add | BinOp::Sub | BinOp::Mul | BinOp::Div => {
                        if lt == Type::Str && rt == Type::Str && *op == BinOp::Add {
                            return Type::Str;
                        }
                        if (lt == Type::Int || lt == Type::Float) && (rt == Type::Int || rt
                            == Type::Float) {
                            if lt == Type::Float || rt == Type::Float {
                                return Type::Float;
                            }
                            return Type::Int;
                        }
                        if lt == Type::Unknown || rt == Type::Unknown {
                            return Type::Unknown;
                        }
                        let mut message: String = concat3(
                            "cannot apply ",
                            binop_name(*op),
                            " to ",
                        );
                        message.append(lt.name());
                        message.append(" and ");
                        message.append(rt.name());
                        self.report(message, *span, None, Severity::Error);
                        Type::Unknown
                    },
                    BinOp::And | BinOp::Or => {
                        if lt != Type::Bool && lt != Type::Unknown {
                            self.report(
                                concat2("expected bool, found ", lt.name()),
                                left.span(),
                                None,
                                Severity::Error,
                            );
                        }
                        Type::Bool
                    },
                    _ => Type::Bool,
                }
            },
            Expr::Unary { op, operand, span } => {
                let ot: Type = self.infer_expr(operand);
                match op {
                    UnOp::Neg => {
                        if ot != Type::Int && ot != Type::Float && ot != Type::Unknown {
                            self.report(
                                concat2("cannot negate ", ot.name()),
                                *span,
                                None,
                                Severity::Error,
                            );
                        }
                        ot
                    },
                    UnOp::Not => Type::Bool,
                }
            },
        }
    }

    fn check_condition(&mut self, e: &Expr, what: &str, span: LocSpan)
        ensures
            final(self).knows(old(self), condition(e@, old(self).knowledge(), what@, span)),
    {
        let t: Type = self.infer_expr(e);
        if t != Type::Bool && t != Type::Unknown {
            self.report(
                concat3(what, " condition must be bool, found ", t.name()),
                span,
                None,
                Severity::Error,
            );
        }
    }

    fn check_command_node(&mut self, cmd: &str, args: &Vec<String>, span: LocSpan)
        ensures
            final(self).knows(
                old(self),
                check_command(
                    old(self).setting(),
                    cmd@,
                    text::views(args@),
                    old(self).knowledge(),
                    span,
                ),
            ),
    {
        if self.resources.len() > 0 && (str_eq(cmd, "bg") || str_eq(cmd, "music") || str_eq(
            cmd,
            "sound",
        )) && args.len() > 0 {
            let res: &str = args[0].as_str();
            if !self.knows_resource(res) {
                self.report(
                    concat3("resource '", res, "' not found"),
                    span,
                    Some(concat3("add '", res, "' to your assets directory")),
                    Severity::Warning,
                );
            }
        }
    }

    fn knows_resource(&self, res: &str) -> (r: bool)
        ensures
            r == resource_known(self.setting().resources, res@),
    {
        let ghost known = text::views(self.resources@);
        let mut i: usize = 0;
        while i < self.resources.len()
            invariant
                i <= self.resources@.len(),
                known == text::views(self.resources@),
                forall|k: int| 0 <= k < i ==> !text::contains(#[trigger] known[k], res@),
            decreases self.resources@.len() - i,
        {
            if contains_str(self.resources[i].as_str(), res) {
                assert(text::contains(known[i as int], res@));
                return true;
            }
            i = i + 1;
        }
        false
    }

    fn check_varop_node(&mut self, name: &String, op: VarOpKind, t: Type, span: LocSpan)
        ensures
            final(self).knows(
                old(self),
                check_varop(name@, op, t, old(self).knowledge(), span),
            ),
    {
        if op == VarOpKind::Assign {
            self.variables.insert(name.clone(), t);
            return;
        }
        let known: Option<Type> = match self.variables.get(name.as_str()) {
            Some(x) => Some(*x),
            None => None,
        };
        match known {
            None => {
                self.report_undefined_variable(name.as_str(), span);
            },
            Some(existing) => {
                if !existing.compatible(&t) {
                    let mut message: String = concat5(
                        "type mismatch: cannot apply ",
                        varop_name(op),
                        " to ",
                        name.as_str(),
                        " (",
                    );
                    message.append(existing.name());
                    message.append(") and ");
                    message.append(t.name());
                    self.report(message, span, None, Severity::Error);
                }
            },
        }
    }

    fn check_reference(&mut self, target: &str, span: LocSpan)
        ensures
            final(self).knows(
                old(self),
                check_target(old(self).setting(), target@, old(self).knowledge(), span),
            ),
    {
        if self.definition(target).is_none() {
            let hint: String = self.suggest_section(target);
            self.report(
                concat3("undefined section: '", target, "'"),
                span,
                Some(hint),
                Severity::Error,
            );
        }
    }

    fn enter_stage(&mut self, character: &String, stage: &mut Vec<String>, span: LocSpan)
        ensures
            ({
                let (k, st) = check_entrance(
                    character@,
                    text::views(old(stage)@),
                    old(self).knowledge(),
                    span,
                );
                final(self).knows(old(self), k) && text::views(final(stage)@) == st
            }),
    {
        if has_string(stage, character.as_str()) {
            return;
        }
        let crowded: bool = stage.len() >= 2;
        stage.push(character.clone());
        assert(text::views(stage@) =~= text::views(old(stage)@).push(character@));
        if crowded {
            self.report(
                concat3(
                    "too many characters on stage: '",
                    character.as_str(),
                    "' would be the 3rd (limit is 2)",
                ),
                span,
                Some("exit a character with `- Name` before entering a new one".to_owned()),
                Severity::Error,
            );
        }
    }

    fn visit_node(&mut self, node: &Node, stage: &mut Vec<String>)
        ensures
            ({
                let (k, st) = check_node(
                    ast::node_view(*node),
                    old(self).setting(),
                    old(self).knowledge(),
                    text::views(old(stage)@),
                );
                final(self).knows(old(self), k) && text::views(final(stage)@) == st
            }),
        decreases *node,
    {
        match node {
            Node::Command { cmd, args, span, .. } => {
                self.check_command_node(cmd.as_str(), args, *span);
            },
            Node::Direction { action, span } => match action.kind {
                DirectionKind::Enter => {
                    self.enter_stage(&action.character, stage, *span);
                },
                DirectionKind::Exit => {
                    leave_stage(stage, action.character.as_str());
                },
            },
            Node::VarOp { name, op, expr, span } => {
                let t: Type = self.infer_expr(expr);
                self.check_varop_node(name, *op, t, *span);
            },
            Node::Choice { options, .. } => {
                self.visit_options(options, stage);
            },
            Node::Conditional { branches, else_branch, .. } => {
                self.visit_branches(branches, stage);
                if let Some(body) = else_branch {
                    let mut inner: Vec<String> = clone_strings(stage);
                    self.visit_nodes(body, &mut inner);
                }
            },
            Node::Flow { target, span } => {
                self.check_reference(target.as_str(), *span);
            },
            Node::Visit { target, span } => {
                self.check_reference(target.as_str(), *span);
            },
            _ => {},
        }
    }

    fn visit_nodes(&mut self, nodes: &Vec<Node>, stage: &mut Vec<String>)
        ensures
            ({
                let (k, st) = check_nodes(
                    ast::node_views(nodes@),
                    old(self).setting(),
                    old(self).knowledge(),
                    text::views(old(stage)@),
                );
                final(self).knows(old(self), k) && text::views(final(stage)@) == st
            }),
        decreases *nodes,
    {
        let ghost all = ast::node_views(nodes@);
        let mut i: usize = 0;
        proof {
            ast::lemma_node_views(nodes@);
            assert(all.take(0) =~= Seq::empty());
        }
        while i < nodes.len()
            invariant
                i <= nodes@.len(),
                all == ast::node_views(nodes@),
                all.len() == nodes@.len(),
                forall|j: int| 0 <= j < all.len() ==> #[trigger] all[j] == ast::node_view(nodes@[j]),
                ({
                    let (k, st) = check_nodes(
                        all.take(i as int),
                        old(self).setting(),
                        old(self).knowledge(),
                        text::views(old(stage)@),
                    );
                    self.knows(old(self), k) && text::views(stage@) == st
                }),
            decreases nodes@.len() - i,
        {
            proof {
                assert(all.take(i + 1).drop_last() =~= all.take(i as int));
                assert(all.take(i + 1).last() == all[i as int]);
            }
            self.visit_node(&nodes[i], stage);
            i = i + 1;
        }
        assert(all.take(i as int) =~= all);
    }

    fn visit_options(&mut self, options: &Vec<ChoiceOption>, stage: &Vec<String>)
        ensures
            final(self).knows(
                old(self),
                check_options(
                    ast::option_views(options@),
                    old(self).setting(),
                    old(self).knowledge(),
                    text::views(stage@),
                ),
            ),
        decreases *options,
    {
        let ghost all = ast::option_views(options@);
        let mut i: usize = 0;
        proof {
            ast::lemma_option_views(options@);
            assert(all.take(0) =~= Seq::empty());
        }
        while i < options.len()
            invariant
                i <= options@.len(),
                all == ast::option_views(options@),
                all.len() == options@.len(),
                forall|j: int|
                    0 <= j < all.len() ==> #[trigger] all[j] == ast::option_view(options@[j]),
                self.knows(
                    old(self),
                    check_options(
                        all.take(i as int),
                        old(self).setting(),
                        old(self).knowledge(),
                        text::views(stage@),
                    ),
                ),
            decreases options@.len() - i,
        {
            proof {
                assert(all.take(i + 1).drop_last() =~= all.take(i as int));
                assert(all.take(i + 1).last() == all[i as int]);
            }
            self.visit_option(&options[i], stage);
            i = i + 1;
        }
        assert(all.take(i as int) =~= all);
    }

    fn visit_option(&mut self, o: &ChoiceOption, stage: &Vec<String>)
        ensures
            final(self).knows(
                old(self),
                check_option(
                    ast::option_view(*o),
                    old(self).setting(),
                    old(self).knowledge(),
                    text::views(stage@),
                ),
            ),
        decreases *o,
    {
        if let Some(c) = &o.condition {
            self.check_condition(c, "choice", o.span);
        }
        let mut inner: Vec<String> = clone_strings(stage);
        self.visit_nodes(&o.body, &mut inner);
    }

    fn visit_branches(&mut self, branches: &Vec<(Expr, Vec<Node>)>, stage: &Vec<String>)
        ensures
            final(self).knows(
                old(self),
                check_branches(
                    ast::branch_views(branches@),
                    old(self).setting(),
                    old(self).knowledge(),
                    text::views(stage@),
                ),
            ),
        decreases *branches,
    {
        let ghost all = ast::branch_views(branches@);
        let mut i: usize = 0;
        proof {
            ast::lemma_branch_views(branches@);
            assert(all.take(0) =~= Seq::empty());
        }
        while i < branches.len()
            invariant
                i <= branches@.len(),
                all == ast::branch_views(branches@),
                all.len() == branches@.len(),
                forall|j: int|
                    0 <= j < all.len() ==> #[trigger] all[j] == (
                        branches@[j].0@,
                        ast::node_views(branches@[j].1@),
                    ),
                self.knows(
                    old(self),
                    check_branches(
                        all.take(i as int),
                        old(self).setting(),
                        old(self).knowledge(),
                        text::views(stage@),
                    ),
                ),
            decreases branches@.len() - i,
        {
            proof {
                assert(all.take(i + 1).drop_last() =~= all.take(i as int));
                assert(all.take(i + 1).last() == all[i as int]);
            }
            let cond: &Expr = &branches[i].0;
            self.check_condition(cond, "if", cond.span());
            let mut inner: Vec<String> = clone_strings(stage);
            self.visit_nodes(&branches[i].1, &mut inner);
            i = i + 1;
        }
        assert(all.take(i as int) =~= all);
    }
}

/// A definition in the first `n` is the first one of them all.
proof fn lemma_defined_prefix(defs: Seq<Definition>, name: Seq<char>, n: int)
    requires
        0 <= n <= defs.len(),
        defined_at(defs.take(n), name) is Some,
    ensures
        defined_at(defs, name) == defined_at(defs.take(n), name),
    decreases defs.len() - n,
{
    if n < defs.len() {
        assert(defs.take(n + 1).drop_last() =~= defs.take(n));
        lemma_defined_prefix(defs, name, n + 1);
    } else {
        assert(defs.take(n) =~= defs);
    }
}

fn binop_name(op: BinOp) -> (r: &'static str)
    ensures
        r@ == binop_text(op),
{
    match op {
        BinOp::Add => "Add",
        BinOp::Sub => "Sub",
        BinOp::Mul => "Mul",
        BinOp::Div => "Div",
        BinOp::Eq => "Eq",
        BinOp::Neq => "Neq",
        BinOp::Lt => "Lt",
        BinOp::Gt => "Gt",
        BinOp::LtEq => "LtEq",
        BinOp::GtEq => "GtEq",
        BinOp::And => "And",
        BinOp::Or => "Or",
    }
}

fn varop_name(op: VarOpKind) -> (r: &'static str)
    ensures
        r@ == varop_text(op),
{
    match op {
        VarOpKind::Assign => "=",
        VarOpKind::PlusEq => "+=",
        VarOpKind::MinusEq => "-=",
    }
}

/// Takes a character off the stage.
fn leave_stage(stage: &mut Vec<String>, name: &str)
    ensures
        text::views(final(stage)@) == without(text::views(old(stage)@), name@),
{
    let ghost all = text::views(stage@);
    let mut kept: Vec<String> = Vec::new();
    let mut i: usize = 0;
    assert(all.take(0) =~= Seq::empty());
    assert(text::views(kept@) =~= Seq::empty());
    while i < stage.len()
        invariant
            i <= stage@.len(),
            all == text::views(stage@),
            stage@ == old(stage)@,
            text::views(kept@) == without(all.take(i as int), name@),
        decreases stage@.len() - i,
    {
        let ghost before = kept@;
        proof {
            assert(all.take(i + 1).drop_last() =~= all.take(i as int));
            assert(all.take(i + 1).last() == all[i as int]);
        }
        if !str_eq(stage[i].as_str(), name) {
            kept.push(stage[i].clone());
            assert(text::views(kept@) =~= text::views(before).push(all[i as int]));
        }
        i = i + 1;
    }
    assert(all.take(i as int) =~= all);
    *stage = kept;
}

/// The checker. It holds the declared resources; with none declared, resource
/// references are not checked.
pub struct Checker {
    resources: Vec<String>,
}

impl View for Checker {
    type V = Seq<Seq<char>>;

    /// The declared resources.
    closed spec fn view(&self) -> Seq<Seq<char>> {
        text::views(self.resources@)
    }
}

impl Default for Checker {
    fn default() -> (c: Self)
        ensures
            c@ == Seq::<Seq<char>>::empty(),
    {
        Checker::new()
    }
}

impl Checker {
    pub fn new() -> (c: Self)
        ensures
            c@ == Seq::<Seq<char>>::empty(),
    {
        let c: Checker = Checker { resources: Vec::new() };
        assert(c@ =~= Seq::<Seq<char>>::empty());
        c
    }

    /// The checker with these resources declared.
    pub fn with_resources(self, resources: Vec<String>) -> (c: Self)
        ensures
            c@ == text::views(resources@),
    {
        Checker { resources }
    }

    /// All findings about a program.
    pub fn check(self, program: &Program) -> (errors: Vec<CheckError>)
        ensures
            check_error_views(errors@) == findings(program@, self@),
    {
        let mut walk: Walk = Walk {
            errors: Vec::new(),
            defs: Vec::new(),
            variables: Table::new(),
            resources: &self.resources,
        };
        let ghost sections = program@.sections;
        assert(check_error_views(walk.errors@) =~= Seq::empty());
        assert(def_views(walk.defs@) =~= Seq::empty());
        assert(sections.take(0) =~= Seq::empty());
        let mut i: usize = 0;
        while i < program.sections.len()
            invariant
                i <= program.sections@.len(),
                sections == program@.sections,
                walk.variables@ == Map::<Seq<char>, Type>::empty(),
                walk.resources == &self.resources,
                definitions(sections.take(i as int)) == (
                    def_views(walk.defs@),
                    check_error_views(walk.errors@),
                ),
            decreases program.sections@.len() - i,
        {
            proof {
                assert(sections.take(i + 1).drop_last() =~= sections.take(i as int));
                assert(sections.take(i + 1).last() == sections[i as int]);
            }
            walk.define(&program.sections[i]);
            i = i + 1;
        }
        proof {
            assert(sections.take(i as int) =~= sections);
        }
        let ghost defs = def_views(walk.defs@);
        let ghost errs = check_error_views(walk.errors@);
        walk.check_entry_name(&program.entry);
        let ghost k0 = walk.knowledge();
        let ghost s0 = walk.setting();
        assert(k0 == Knowledge { vars: Map::empty(), errs: errs + check_entry(program@, defs) });
        assert(sections.take(0) =~= Seq::empty());
        let mut j: usize = 0;
        while j < program.sections.len()
            invariant
                j <= program.sections@.len(),
                sections == program@.sections,
                walk.setting() == s0,
                walk.knowledge() == check_sections(sections.take(j as int), s0, k0),
            decreases program.sections@.len() - j,
        {
            proof {
                assert(sections.take(j + 1).drop_last() =~= sections.take(j as int));
                assert(sections.take(j + 1).last() == sections[j as int]);
            }
            let mut stage: Vec<String> = Vec::new();
            assert(text::views(stage@) =~= Seq::empty());
            walk.visit_nodes(&program.sections[j].nodes, &mut stage);
            j = j + 1;
        }
        proof {
            assert(sections.take(j as int) =~= sections);
        }
        walk.errors
    }
}

impl<'a> Walk<'a> {
    /// Takes note of a section's name.
    fn define(&mut self, section: &Section)
        ensures
            final(self).variables == old(self).variables,
            final(self).resources == old(self).resources,
            ({
                let s = ast::section_view(*section);
                let defs = def_views(old(self).defs@);
                let errs = check_error_views(old(self).errors@);
                match defined_at(defs, s.name) {
                    Some(first) => {
                        &&& final(self).defs == old(self).defs
                        &&& check_error_views(final(self).errors@) == errs.push(
                            CheckError {
                                message: "duplicate section name: '"@ + s.name + "'"@,
                                span: s.span,
                                hint: Some("each section must have a unique name"@),
                                severity: Severity::Error,
                            },
                        ).push(
                            CheckError {
                                message: "'"@ + s.name + "' was first defined here"@,
                                span: first,
                                hint: None,
                                severity: Severity::Note,
                            },
                        )
                    },
                    None => {
                        &&& def_views(final(self).defs@) == defs.push((s.name, s.span))
                        &&& final(self).errors == old(self).errors
                    },
                }
            }),
    {
        let name: &str = section.name.as_str();
        match self.definition(name) {
            Some(first) => {
                let again: CheckError = CheckError {
                    message: concat3("duplicate section name: '", name, "'"),
                    span: section.span,
                    hint: Some("each section must have a unique name".to_owned()),
                    severity: Severity::Error,
                };
                let before: CheckError = CheckError {
                    message: concat3("'", name, "' was first defined here"),
                    span: first,
                    hint: None,
                    severity: Severity::Note,
                };
                self.errors.push(again);
                self.errors.push(before);
                assert(check_error_views(self.errors@) =~= check_error_views(
                    old(self).errors@,
                ).push(again@).push(before@));
            },
            None => {
                self.defs.push((section.name.clone(), section.span));
                assert(def_views(self.defs@) =~= def_views(old(self).defs@).push(
                    (section.name@, section.span),
                ));
            },
        }
    }

    /// Checks that there is something to start with.
    fn check_entry_name(&mut self, entry: &Option<String>)
        ensures
            final(self).knows(
                old(self),
                Knowledge {
                    vars: old(self).knowledge().vars,
                    errs: old(self).knowledge().errs + check_entry(
                        ProgramView { sections: Seq::empty(), entry: text::opt_view(*entry) },
                        old(self).setting().defs,
                    ),
                },
            ),
    {
        let ghost errs = check_error_views(self.errors@);
        assert(errs + Seq::empty() =~= errs);
        match entry {
            Some(name) => {
                if self.definition(name.as_str()).is_none() {
                    self.report(
                        concat3("entry section '", name.as_str(), "' not found"),
                        LocSpan::dummy(),
                        None,
                        Severity::Error,
                    );
                    assert(check_error_views(self.errors@) =~= errs + check_entry(
                        ProgramView { sections: Seq::empty(), entry: Some(name@) },
                        old(self).setting().defs,
                    ));
                }
            },
            None => {
                if self.defs.len() == 0 {
                    self.report(
                        "no sections defined".to_owned(),
                        LocSpan::dummy(),
                        Some("add at least one section: # Start".to_owned()),
                        Severity::Warning,
                    );
                    assert(check_error_views(self.errors@) =~= errs + check_entry(
                        ProgramView { sections: Seq::empty(), entry: None },
                        old(self).setting().defs,
                    ));
                }
            },
        }
    }
}

} // verus!
