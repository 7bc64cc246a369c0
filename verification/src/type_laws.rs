//! What the checker promises of a script.

use crate::ast;
use crate::ast::{BinOp, DirectionKind, Expr, NodeView, UnOp, VarOpKind};
use crate::checker;
use crate::checker::{Finding, Knowledge, Setting, Severity};
use crate::eval;
use crate::eval::{AnswerMap, Outcome};
use crate::token::LocSpan;
use crate::value::{Type, Value};
use crate::vm;
use crate::vm::Machine;
use vstd::prelude::*;

verus! {

// ---------------------------------------------------------------------------
// Expressions
// ---------------------------------------------------------------------------

/// Whether a value is of a type; numbers of both kinds are of both types.
pub open spec fn suits(v: Value<Seq<char>>, t: Type) -> bool {
    match t {
        Type::Int => v is Int || v is Float,
        Type::Float => v is Int || v is Float,
        Type::Str => v is Str,
        Type::Bool => v is Bool,
        Type::Unknown => true,
    }
}

/// Whether every variable that the checker knows has a type that is known, and
/// holds a value of it.
pub open spec fn all_suit(
    vars: Map<Seq<char>, Value<Seq<char>>>,
    types: Map<Seq<char>, Type>,
) -> bool {
    forall|name: Seq<char>| #[trigger]
        types.contains_key(name) ==> !(types[name] is Unknown) && vars.contains_key(name) && suits(
            vars[name],
            types[name],
        )
}

/// Whether a message is about something else than the kinds of operands: nothing
/// can be divided by zero, and only some values can be ordered.
pub open spec fn is_other_fault(message: Seq<char>) -> bool {
    message == "division by zero"@ || exists|a: Seq<char>, b: Seq<char>|
        message == #[trigger] ("cannot compare "@ + a + " and "@ + b)
}

/// An expression in which the checker finds nothing has a type that is known, and
/// its value is of that type; it never fails for the kinds of its operands, nor for
/// a variable that was not set.
pub proof fn law_checked_expression_is_sound(
    e: Expr<Seq<char>>,
    k: Knowledge,
    vars: Map<Seq<char>, Value<Seq<char>>>,
    answers: AnswerMap,
)
    requires
        all_suit(vars, k.vars),
        checker::infer(e, k).1.errs.len() == k.errs.len(),
    ensures
        !(checker::infer(e, k).0 is Unknown),
        match eval::evaluated(e, vars, answers) {
            Outcome::Value(v) => suits(v, checker::infer(e, k).0),
            Outcome::Fault(message) => is_other_fault(message),
            _ => true,
        },
    decreases e,
{
    match e {
        Expr::Binary { op, left, right, .. } => {
            lemma_infer_grows(*left, k);
            let k1 = checker::infer(*left, k).1;
            lemma_infer_grows(*right, k1);
            law_checked_expression_is_sound(*left, k, vars, answers);
            law_checked_expression_is_sound(*right, k1, vars, answers);
            if let Outcome::Value(a) = eval::evaluated(*left, vars, answers) {
                if let Outcome::Value(b) = eval::evaluated(*right, vars, answers) {
                    if eval::evaluated(e, vars, answers) is Fault && !checker::is_arithmetic(op) {
                        let (x, y) = (a.kind_name(), b.kind_name());
                        assert(eval::evaluated(e, vars, answers)->Fault_0 == "cannot compare "@ + x
                            + " and "@ + y);
                    }
                }
            }
        },
        Expr::Unary { operand, .. } => {
            lemma_infer_grows(*operand, k);
            law_checked_expression_is_sound(*operand, k, vars, answers);
        },
        _ => {},
    }
}

/// Checking an expression leaves the variables and keeps what was found before.
proof fn lemma_infer_grows(e: Expr<Seq<char>>, k: Knowledge)
    ensures
        checker::infer(e, k).1.vars == k.vars,
        checker::infer(e, k).1.errs.len() >= k.errs.len(),
        checker::infer(e, k).1.errs.take(k.errs.len() as int) == k.errs,
    decreases e,
{
    match e {
        Expr::Binary { left, right, .. } => {
            lemma_infer_grows(*left, k);
            let k1 = checker::infer(*left, k).1;
            lemma_infer_grows(*right, k1);
            let k2 = checker::infer(*right, k1).1;
            assert(k2.errs.take(k.errs.len() as int) =~= k1.errs.take(k.errs.len() as int));
            assert(checker::infer(e, k).1.errs.take(k.errs.len() as int) =~= k2.errs.take(
                k.errs.len() as int,
            ));
        },
        Expr::Unary { operand, .. } => {
            lemma_infer_grows(*operand, k);
            let k1 = checker::infer(*operand, k).1;
            assert(checker::infer(e, k).1.errs.take(k.errs.len() as int) =~= k1.errs.take(
                k.errs.len() as int,
            ));
        },
        _ => {
            assert(checker::infer(e, k).1.errs.take(k.errs.len() as int) =~= k.errs);
        },
    }
}

/// Whether an error was found, behind what was known before.
pub open spec fn found_error(before: Knowledge, after: Knowledge, span: LocSpan) -> bool {
    after.errs.len() == before.errs.len() + 1 && after.errs.drop_last() == before.errs
        && after.errs.last().severity == Severity::Error && after.errs.last().span == span
}

/// What the checker finds in an operator between two expressions without findings:
/// exactly where the operator cannot work on the types, an error at the operator,
/// or at the left side of `and` and `or`.
pub proof fn law_operators_are_checked(
    op: BinOp,
    l: Expr<Seq<char>>,
    r: Expr<Seq<char>>,
    span: LocSpan,
    k: Knowledge,
)
    requires
        checker::infer(l, k).1 == k,
        checker::infer(r, k).1 == k,
        !(checker::infer(l, k).0 is Unknown),
        !(checker::infer(r, k).0 is Unknown),
    ensures
        ({
            let a = checker::infer(l, k).0;
            let b = checker::infer(r, k).0;
            let numbers = (a is Int || a is Float) && (b is Int || b is Float);
            let texts = a is Str && b is Str;
            let (t, after) = checker::infer(
                Expr::Binary { op, left: Box::new(l), right: Box::new(r), span },
                k,
            );
            match op {
                BinOp::Add => if numbers || texts {
                    after == k && (texts ==> t is Str) && (numbers ==> if a is Int && b is Int {
                        t is Int
                    } else {
                        t is Float
                    })
                } else {
                    found_error(k, after, span)
                },
                BinOp::Sub | BinOp::Mul | BinOp::Div => if numbers {
                    after == k && if a is Int && b is Int {
                        t is Int
                    } else {
                        t is Float
                    }
                } else {
                    found_error(k, after, span)
                },
                BinOp::And | BinOp::Or => t is Bool && if a is Bool {
                    after == k
                } else {
                    found_error(k, after, checker::expr_span(l))
                },
                _ => t is Bool && after == k,
            }
        }),
{
    let after = checker::infer(
        Expr::Binary { op, left: Box::new(l), right: Box::new(r), span },
        k,
    ).1;
    assert(after.errs.len() > k.errs.len() ==> after.errs.drop_last() =~= k.errs);
}

/// What the checker finds in a prefix operator, a literal or a variable.
pub proof fn law_operands_are_checked(
    e: Expr<Seq<char>>,
    span: LocSpan,
    k: Knowledge,
    name: Seq<char>,
    n: i64,
    s: Seq<char>,
    b: bool,
)
    requires
        checker::infer(e, k).1 == k,
        !(checker::infer(e, k).0 is Unknown),
    ensures
        ({
            let t = checker::infer(e, k).0;
            let (u, after) = checker::infer(
                Expr::Unary { op: UnOp::Neg, operand: Box::new(e), span },
                k,
            );
            if t is Int || t is Float {
                after == k && u == t
            } else {
                found_error(k, after, span)
            }
        }),
        checker::infer(Expr::Unary { op: UnOp::Not, operand: Box::new(e), span }, k) == (
            Type::Bool,
            k,
        ),
        checker::infer(Expr::Int(n), k) == (Type::Int, k),
        checker::infer(Expr::Float(s), k) == (Type::Float, k),
        checker::infer(Expr::Str(s), k) == (Type::Str, k),
        checker::infer(Expr::Bool(b), k) == (Type::Bool, k),
        k.vars.contains_key(name) ==> checker::infer(Expr::Var(name), k) == (k.vars[name], k),
        !k.vars.contains_key(name) ==> ({
            let after = checker::infer(Expr::Var(name), k).1;
            after.errs.len() == k.errs.len() + 1 && after.errs.last().severity == Severity::Error
        }),
{
    let after = checker::infer(Expr::Unary { op: UnOp::Neg, operand: Box::new(e), span }, k).1;
    assert(after.errs.len() > k.errs.len() ==> after.errs.drop_last() =~= k.errs);
}

// ---------------------------------------------------------------------------
// Variables
// ---------------------------------------------------------------------------

/// What the checker finds in an operation on a variable with a value of type `t`,
/// and what it knows of the variable then: an assignment gives it the type of the
/// value; `+=` and `-=` need a variable that was assigned before, of a type that
/// fits.
pub proof fn law_operations_are_checked(
    name: Seq<char>,
    op: VarOpKind,
    expr: Expr<Seq<char>>,
    span: LocSpan,
    s: Setting,
    k: Knowledge,
    stage: Seq<Seq<char>>,
)
    requires
        checker::infer(expr, k).1 == k,
        !(checker::infer(expr, k).0 is Unknown),
    ensures
        ({
            let t = checker::infer(expr, k).0;
            let after = checker::check_node(
                NodeView::VarOp { name, op, expr, span },
                s,
                k,
                stage,
            );
            let number = |x: Type| x is Int || x is Float;
            &&& after.1 == stage
            &&& match op {
                VarOpKind::Assign => after.0 == (Knowledge { vars: k.vars.insert(name, t), ..k }),
                _ => if !k.vars.contains_key(name) {
                    found_error(k, after.0, span)
                } else if k.vars[name] == t || k.vars[name] is Unknown || (number(k.vars[name])
                    && number(t)) {
                    after.0 == k
                } else {
                    found_error(k, after.0, span)
                },
            }
        }),
{
    let after = checker::check_node(NodeView::VarOp { name, op, expr, span }, s, k, stage).0;
    assert(after.errs.len() > k.errs.len() ==> after.errs.drop_last() =~= k.errs);
}

/// The types stay right while a script runs: after a variable operation in which
/// the checker finds nothing, every variable still holds a value of the type that
/// the checker knows.
pub proof fn law_types_stay_right(
    m: Machine,
    name: Seq<char>,
    op: VarOpKind,
    expr: Expr<Seq<char>>,
    span: LocSpan,
    s: Setting,
    k: Knowledge,
    stage: Seq<Seq<char>>,
)
    requires
        0 <= m.section < m.code.len(),
        0 <= m.ip < m.code[m.section].len(),
        m.code[m.section][m.ip] == (crate::code::InstrView::VarOp { name, op, expr }),
        all_suit(m.vars, k.vars),
        checker::check_node(
            NodeView::VarOp { name, op, expr, span },
            s,
            k,
            stage,
        ).0.errs.len() == k.errs.len(),
    ensures
        ({
            let after = checker::check_node(
                NodeView::VarOp { name, op, expr, span },
                s,
                k,
                stage,
            ).0;
            vm::tick(m) matches vm::Tick::Go(next) ==> all_suit(next.vars, after.vars)
        }),
{
    lemma_infer_grows(expr, k);
    law_checked_expression_is_sound(expr, k, m.vars, m.answers);
    if let vm::Tick::Go(next) = vm::tick(m) {
        let after = checker::check_node(
            NodeView::VarOp { name, op, expr, span },
            s,
            k,
            stage,
        ).0;
        let v = next.vars[name];
        assert(suits(v, after.vars[name]));
        assert forall|x: Seq<char>| #[trigger] after.vars.contains_key(x) implies !(after.vars[x]
            is Unknown) && next.vars.contains_key(x) && suits(next.vars[x], after.vars[x]) by {
            if x != name {
                assert(k.vars.contains_key(x));
            }
        }
    }
}

// ---------------------------------------------------------------------------
// Conditions, targets and the stage
// ---------------------------------------------------------------------------

/// A condition has to be a truth value: anything else that is known is an error,
/// where the condition stands.
pub proof fn law_conditions_are_truth_values(
    e: Expr<Seq<char>>,
    k: Knowledge,
    what: Seq<char>,
    span: LocSpan,
)
    requires
        checker::infer(e, k).1 == k,
    ensures
        ({
            let t = checker::infer(e, k).0;
            let after = checker::condition(e, k, what, span);
            if t is Int || t is Float || t is Str {
                found_error(k, after, span)
            } else {
                after == k
            }
        }),
{
    let after = checker::condition(e, k, what, span);
    assert(after.errs.len() > k.errs.len() ==> after.errs.drop_last() =~= k.errs);
}

proof fn lemma_defined_at(defs: Seq<checker::Definition>, name: Seq<char>)
    ensures
        checker::defined_at(defs, name) is Some <==> exists|i: int|
            0 <= i < defs.len() && (#[trigger] defs[i]).0 == name,
    decreases defs.len(),
{
    if defs.len() > 0 {
        let front = defs.drop_last();
        lemma_defined_at(front, name);
        if checker::defined_at(front, name) is Some {
            let i = choose|i: int| 0 <= i < front.len() && (#[trigger] front[i]).0 == name;
            assert(defs[i].0 == name);
        }
        assert(defs[defs.len() - 1] == defs.last());
        if exists|i: int| 0 <= i < defs.len() && (#[trigger] defs[i]).0 == name {
            let i = choose|i: int| 0 <= i < defs.len() && (#[trigger] defs[i]).0 == name;
            if i < front.len() {
                assert(front[i].0 == name);
            }
        }
    }
}

/// A jump or a visit to a section that is not defined is an error, and nothing else
/// of it is.
pub proof fn law_targets_are_checked(
    n: NodeView,
    target: Seq<char>,
    span: LocSpan,
    s: Setting,
    k: Knowledge,
    stage: Seq<Seq<char>>,
)
    requires
        n == (NodeView::Flow { target, span }) || n == (NodeView::Visit { target, span }),
    ensures
        ({
            let after = checker::check_node(n, s, k, stage);
            &&& after.1 == stage
            &&& if exists|i: int| 0 <= i < s.defs.len() && (#[trigger] s.defs[i]).0 == target {
                after.0 == k
            } else {
                found_error(k, after.0, span)
            }
        }),
{
    lemma_defined_at(s.defs, target);
    let after = checker::check_node(n, s, k, stage).0;
    assert(after.errs.len() > k.errs.len() ==> after.errs.drop_last() =~= k.errs);
}

/// Whether two lists hold the same texts but for one.
pub open spec fn differ_by(a: Seq<Seq<char>>, b: Seq<Seq<char>>, x: Seq<char>) -> bool {
    forall|y: Seq<char>| y != x ==> (#[trigger] a.contains(y) <==> b.contains(y))
}

proof fn lemma_without(names: Seq<Seq<char>>, x: Seq<char>)
    ensures
        !checker::without(names, x).contains(x),
        differ_by(checker::without(names, x), names, x),
    decreases names.len(),
{
    if names.len() > 0 {
        let front = names.drop_last();
        lemma_without(front, x);
        let r = checker::without(names, x);
        let f = checker::without(front, x);
        assert forall|y: Seq<char>| y != x implies (#[trigger] r.contains(y)
            <==> names.contains(y)) by {
            assert(f.contains(y) <==> front.contains(y));
            if names.contains(y) {
                let i = choose|i: int| 0 <= i < names.len() && names[i] == y;
                if i < front.len() {
                    assert(front[i] == y);
                    assert(front.contains(y));
                    let j = choose|j: int| 0 <= j < f.len() && f[j] == y;
                    assert(r[j] == y);
                } else {
                    assert(r.last() == y);
                }
            }
            if r.contains(y) {
                let i = choose|i: int| 0 <= i < r.len() && r[i] == y;
                if i < f.len() {
                    assert(f[i] == y);
                    assert(front.contains(y));
                    let j = choose|j: int| 0 <= j < front.len() && front[j] == y;
                    assert(names[j] == y);
                } else {
                    assert(names[names.len() - 1] == y);
                }
            }
        }
    }
}

/// A character that enters is on stage, and one that leaves is not; the others stay
/// as they are. A third one on stage is an error, and nothing else is.
pub proof fn law_stage_is_checked(
    action: ast::DirectionAction<Seq<char>>,
    span: LocSpan,
    s: Setting,
    k: Knowledge,
    stage: Seq<Seq<char>>,
)
    ensures
        ({
            let who = action.character;
            let (after, now) = checker::check_node(
                NodeView::Direction { action, span },
                s,
                k,
                stage,
            );
            &&& differ_by(now, stage, who)
            &&& action.kind == DirectionKind::Enter ==> now.contains(who) && if stage.contains(who)
                || stage.len() < 2 {
                after == k
            } else {
                found_error(k, after, span)
            }
            &&& action.kind == DirectionKind::Exit ==> !now.contains(who) && after == k
        }),
{
    let who = action.character;
    let (after, now) = checker::check_node(NodeView::Direction { action, span }, s, k, stage);
    assert(after.errs.len() > k.errs.len() ==> after.errs.drop_last() =~= k.errs);
    lemma_without(stage, who);
    if action.kind == DirectionKind::Enter && !stage.contains(who) {
        assert(now.last() == who);
        assert forall|y: Seq<char>| y != who implies (#[trigger] now.contains(y)
            <==> stage.contains(y)) by {
            if stage.contains(y) {
                let i = choose|i: int| 0 <= i < stage.len() && stage[i] == y;
                assert(now[i] == y);
            }
        }
    }
}

/// A background, a tune or a sound whose name is part of no declared resource is
/// warned about; other commands are not, and nothing is where no resource is
/// declared.
pub proof fn law_resources_are_checked(
    cmd: Seq<char>,
    args: Seq<Seq<char>>,
    transition: Option<ast::Transition>,
    span: LocSpan,
    s: Setting,
    k: Knowledge,
    stage: Seq<Seq<char>>,
)
    ensures
        ({
            let (after, now) = checker::check_node(
                NodeView::Command { cmd, args, transition, span },
                s,
                k,
                stage,
            );
            let loads = cmd == "bg"@ || cmd == "music"@ || cmd == "sound"@;
            let missing = s.resources.len() > 0 && args.len() > 0 && !exists|i: int, j: int|
                0 <= i < s.resources.len() && #[trigger] crate::text::occurs_at(
                    s.resources[i],
                    args[0],
                    j,
                );
            &&& now == stage
            &&& after.vars == k.vars
            &&& if loads && missing {
                after.errs.len() == k.errs.len() + 1 && after.errs.last().severity
                    == Severity::Warning && after.errs.last().span == span
            } else {
                after == k
            }
        }),
{
    if args.len() > 0 {
        assert forall|i: int| 0 <= i < s.resources.len() implies (crate::text::contains(
            #[trigger] s.resources[i],
            args[0],
        ) <==> exists|j: int| crate::text::occurs_at(s.resources[i], args[0], j)) by {
            crate::text::law_contains(s.resources[i], args[0]);
        }
    }
}

/// Lines, orders to wait, returns and ends are never wrong.
pub proof fn law_plain_nodes_are_right(
    n: NodeView,
    s: Setting,
    k: Knowledge,
    stage: Seq<Seq<char>>,
)
    requires
        n is Dialogue || n is Narration || n is Wait || n is Return || n is StoryEnd,
    ensures
        checker::check_node(n, s, k, stage) == (k, stage),
{
}

/// Every finding is of a section that is repeated, of the entry, or of a node: a
/// program whose names are all different and whose sections hold plain nodes alone
/// has none.
pub proof fn law_plain_programs_are_right(p: ast::ProgramView, resources: Seq<Seq<char>>)
    requires
        p.sections.len() > 0,
        p.entry == Some(p.sections[0].name),
        forall|i: int, j: int|
            0 <= i < j < p.sections.len() ==> (#[trigger] p.sections[i]).name != (
            #[trigger] p.sections[j]).name,
        forall|i: int, j: int|
            0 <= i < p.sections.len() && 0 <= j < p.sections[i].nodes.len() ==> ({
                let n = #[trigger] p.sections[i].nodes[j];
                n is Dialogue || n is Narration || n is Wait || n is Return || n is StoryEnd
            }),
    ensures
        checker::findings(p, resources) == Seq::<Finding>::empty(),
{
    lemma_definitions(p.sections);
    let (defs, errs) = checker::definitions(p.sections);
    lemma_defined_at(defs, p.sections[0].name);
    assert(defs[0].0 == p.sections[0].name);
    let s = Setting { defs, resources };
    let none = Seq::<Finding>::empty();
    assert(none + none =~= none);
    let k = Knowledge { vars: Map::empty(), errs: none };
    lemma_plain_sections(p.sections, s, k);
}

proof fn lemma_definitions(sections: Seq<ast::SectionView>)
    requires
        forall|i: int, j: int|
            0 <= i < j < sections.len() ==> (#[trigger] sections[i]).name != (
            #[trigger] sections[j]).name,
    ensures
        checker::definitions(sections).1 == Seq::<Finding>::empty(),
        checker::definitions(sections).0.len() == sections.len(),
        forall|i: int|
            0 <= i < sections.len() ==> (#[trigger] checker::definitions(sections).0[i]).0
                == sections[i].name,
    decreases sections.len(),
{
    if sections.len() > 0 {
        let front = sections.drop_last();
        assert forall|i: int, j: int| 0 <= i < j < front.len() implies (#[trigger] front[i]).name
            != (#[trigger] front[j]).name by {
            assert(front[i] == sections[i] && front[j] == sections[j]);
        }
        lemma_definitions(front);
        let defs = checker::definitions(front).0;
        lemma_defined_at(defs, sections.last().name);
        if checker::defined_at(defs, sections.last().name) is Some {
            let i = choose|i: int|
                0 <= i < defs.len() && (#[trigger] defs[i]).0 == sections.last().name;
            assert(sections[i].name == front[i].name);
            assert(sections[i].name != sections[sections.len() - 1].name);
        }
    }
}

proof fn lemma_plain_sections(sections: Seq<ast::SectionView>, s: Setting, k: Knowledge)
    requires
        forall|i: int, j: int|
            0 <= i < sections.len() && 0 <= j < sections[i].nodes.len() ==> ({
                let n = #[trigger] sections[i].nodes[j];
                n is Dialogue || n is Narration || n is Wait || n is Return || n is StoryEnd
            }),
    ensures
        checker::check_sections(sections, s, k) == k,
    decreases sections.len(),
{
    if sections.len() > 0 {
        let front = sections.drop_last();
        assert forall|i: int, j: int|
            0 <= i < front.len() && 0 <= j < front[i].nodes.len() implies ({
            let n = #[trigger] front[i].nodes[j];
            n is Dialogue || n is Narration || n is Wait || n is Return || n is StoryEnd
        }) by {
            assert(front[i].nodes[j] == sections[i].nodes[j]);
        }
        lemma_plain_sections(front, s, k);
        let nodes = sections.last().nodes;
        assert forall|j: int| 0 <= j < nodes.len() implies ({
            let n = #[trigger] nodes[j];
            n is Dialogue || n is Narration || n is Wait || n is Return || n is StoryEnd
        }) by {
            assert(nodes[j] == sections[sections.len() - 1].nodes[j]);
        }
        lemma_plain_nodes(nodes, s, k, Seq::empty());
    }
}

proof fn lemma_plain_nodes(
    nodes: Seq<NodeView>,
    s: Setting,
    k: Knowledge,
    stage: Seq<Seq<char>>,
)
    requires
        forall|j: int|
            0 <= j < nodes.len() ==> ({
                let n = #[trigger] nodes[j];
                n is Dialogue || n is Narration || n is Wait || n is Return || n is StoryEnd
            }),
    ensures
        checker::check_nodes(nodes, s, k, stage) == (k, stage),
    decreases nodes.len(),
{
    if nodes.len() > 0 {
        let front = nodes.drop_last();
        assert forall|j: int| 0 <= j < front.len() implies ({
            let n = #[trigger] front[j];
            n is Dialogue || n is Narration || n is Wait || n is Return || n is StoryEnd
        }) by {
            assert(front[j] == nodes[j]);
        }
        lemma_plain_nodes(front, s, k, stage);
        let n = nodes[nodes.len() - 1];
        law_plain_nodes_are_right(n, s, k, stage);
        assert(nodes.last() == n);
    }
}

} // verus!
