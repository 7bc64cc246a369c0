//! What the operators and instructions of a story do.

use crate::ast;
use crate::ast::{BinOp, Expr, NodeView, UnOp, VarOpKind};
use crate::code;
use crate::code::InstrView;
use crate::eval;
use crate::eval::{AnswerMap, Outcome};
use crate::number;
use crate::order;
use crate::token::LocSpan;
use crate::value::Value;
use crate::vm;
use crate::vm::{Machine, Tick, VmEventView};
use vstd::prelude::*;

verus! {

// ---------------------------------------------------------------------------
// Operators
// ---------------------------------------------------------------------------

/// The variables of a story.
pub type Vars = Map<Seq<char>, Value<Seq<char>>>;

/// The result of an operator between two expressions.
pub open spec fn applied(
    l: Expr<Seq<char>>,
    op: BinOp,
    r: Expr<Seq<char>>,
    span: LocSpan,
    vars: Vars,
    answers: AnswerMap,
) -> Outcome {
    eval::evaluated(
        Expr::Binary { op, left: Box::new(l), right: Box::new(r), span },
        vars,
        answers,
    )
}

pub open spec fn gives_int(o: Outcome, n: int) -> bool {
    o matches Outcome::Value(v) && v matches Value::Int(x) && x == n
}

pub open spec fn gives_bool(o: Outcome, b: bool) -> bool {
    o matches Outcome::Value(v) && v matches Value::Bool(x) && x == b
}

/// Integers are added, subtracted, multiplied and compared as such, as long as
/// the results are held exactly.
pub proof fn law_integer_operators(
    l: Expr<Seq<char>>,
    r: Expr<Seq<char>>,
    span: LocSpan,
    vars: Vars,
    answers: AnswerMap,
    a: i64,
    b: i64,
)
    requires
        eval::evaluated(l, vars, answers) == Outcome::Value(Value::Int(a)),
        eval::evaluated(r, vars, answers) == Outcome::Value(Value::Int(b)),
        -number::TWO53 < a < number::TWO53,
        -number::TWO53 < b < number::TWO53,
    ensures
        gives_int(applied(l, BinOp::Add, r, span, vars, answers), a + b),
        -number::TWO53 < a - b < number::TWO53 ==> gives_int(
            applied(l, BinOp::Sub, r, span, vars, answers),
            a - b,
        ),
        -number::TWO53 < a * b < number::TWO53 ==> gives_int(
            applied(l, BinOp::Mul, r, span, vars, answers),
            a * b,
        ),
        gives_bool(applied(l, BinOp::Eq, r, span, vars, answers), a == b),
        gives_bool(applied(l, BinOp::Neq, r, span, vars, answers), a != b),
        gives_bool(applied(l, BinOp::Lt, r, span, vars, answers), a < b),
        gives_bool(applied(l, BinOp::Gt, r, span, vars, answers), a > b),
        gives_bool(applied(l, BinOp::LtEq, r, span, vars, answers), a <= b),
        gives_bool(applied(l, BinOp::GtEq, r, span, vars, answers), a >= b),
{
    number::law_small_integers_exact(a, b);
}

/// A sum of integers that does not fit is not cut off.
pub proof fn law_sums_fit(
    l: Expr<Seq<char>>,
    r: Expr<Seq<char>>,
    span: LocSpan,
    vars: Vars,
    answers: AnswerMap,
    a: i64,
    b: i64,
)
    requires
        eval::evaluated(l, vars, answers) == Outcome::Value(Value::Int(a)),
        eval::evaluated(r, vars, answers) == Outcome::Value(Value::Int(b)),
    ensures
        i64::MIN <= a + b <= i64::MAX ==> gives_int(
            applied(l, BinOp::Add, r, span, vars, answers),
            a + b,
        ),
        !(i64::MIN <= a + b <= i64::MAX) ==> applied(l, BinOp::Add, r, span, vars, answers)
            is Overflow,
{
}

/// A quotient of integers is cut off toward zero: the remainder is smaller than
/// the divisor and has the sign of the dividend. Nothing is divided by zero.
pub proof fn law_quotients_cut_off(
    l: Expr<Seq<char>>,
    r: Expr<Seq<char>>,
    span: LocSpan,
    vars: Vars,
    answers: AnswerMap,
    a: i64,
    b: i64,
)
    requires
        eval::evaluated(l, vars, answers) == Outcome::Value(Value::Int(a)),
        eval::evaluated(r, vars, answers) == Outcome::Value(Value::Int(b)),
        !(a == i64::MIN && b == -1),
    ensures
        b == 0 ==> applied(l, BinOp::Div, r, span, vars, answers) == Outcome::Fault(
            "division by zero"@,
        ),
        b != 0 ==> {
            &&& applied(l, BinOp::Div, r, span, vars, answers) matches Outcome::Value(v)
            &&& v matches Value::Int(q)
            &&& ({
                let rest = a - q * b;
                &&& -(if b < 0 {
                    -b
                } else {
                    b as int
                }) < rest < (if b < 0 {
                    -b
                } else {
                    b as int
                })
                &&& a >= 0 ==> rest >= 0
                &&& a <= 0 ==> rest <= 0
            })
        },
{
    if b != 0 {
        let (x, y) = (a as int, b as int);
        let p = if x < 0 {
            -x
        } else {
            x
        };
        let d = if y < 0 {
            -y
        } else {
            y
        };
        let k = p / d;
        vstd::arithmetic::div_mod::lemma_fundamental_div_mod(p, d);
        vstd::arithmetic::div_mod::lemma_mod_bound(p, d);
        assert(0 <= k <= p) by (nonlinear_arith)
            requires
                p == d * k + p % d,
                0 <= p % d < d,
                d >= 1,
                p >= 0,
        ;
        let q = number::trunc_div(x, y);
        assert(k * d == d * k) by (nonlinear_arith);
        assert((-k) * d == -(k * d)) by (nonlinear_arith);
        assert(k * (-d) == -(k * d)) by (nonlinear_arith);
        assert((-k) * (-d) == k * d) by (nonlinear_arith);
        if p == i64::MAX + 1 && d == 1 {
        } else if d >= 2 {
            assert(2 * k <= p) by (nonlinear_arith)
                requires
                    p == d * k + p % d,
                    0 <= p % d,
                    d >= 2,
                    k >= 0,
            ;
        }
        assert(i64::MIN <= q <= i64::MAX);
        assert(q as i64 == q);
    }
}

/// Texts are joined by a sum and compared character by character.
pub proof fn law_text_operators(
    l: Expr<Seq<char>>,
    r: Expr<Seq<char>>,
    span: LocSpan,
    vars: Vars,
    answers: AnswerMap,
    a: Seq<char>,
    b: Seq<char>,
)
    requires
        eval::evaluated(l, vars, answers) == Outcome::Value(Value::Str(a)),
        eval::evaluated(r, vars, answers) == Outcome::Value(Value::Str(b)),
    ensures
        applied(l, BinOp::Add, r, span, vars, answers) == Outcome::Value(Value::Str(a + b)),
        gives_bool(applied(l, BinOp::Eq, r, span, vars, answers), a == b),
        gives_bool(applied(l, BinOp::Neq, r, span, vars, answers), a != b),
        gives_bool(applied(l, BinOp::Lt, r, span, vars, answers), order::text_order(a, b) < 0),
        gives_bool(applied(l, BinOp::Gt, r, span, vars, answers), order::text_order(a, b) > 0),
        gives_bool(applied(l, BinOp::LtEq, r, span, vars, answers), order::text_order(a, b) <= 0),
        gives_bool(applied(l, BinOp::GtEq, r, span, vars, answers), order::text_order(a, b) >= 0),
        applied(l, BinOp::Sub, r, span, vars, answers) is Fault,
        applied(l, BinOp::Mul, r, span, vars, answers) is Fault,
        applied(l, BinOp::Div, r, span, vars, answers) is Fault,
{
}

/// What counts as true: a number other than zero, a text that is not empty, and
/// the truth value itself.
pub proof fn law_what_is_true(n: i64, s: Seq<char>, b: bool, bits: u64)
    ensures
        Value::<Seq<char>>::Int(n).truthy() == (n != 0),
        Value::Str(s).truthy() == (s.len() != 0),
        Value::<Seq<char>>::Bool(b).truthy() == b,
        Value::<Seq<char>>::Float(bits).truthy() == (bits != 0 && bits
            != 0x8000_0000_0000_0000u64),
        !Value::<Seq<char>>::Null.truthy(),
{
}

/// `and`, `or` and `not` on values of every kind, by what counts as true.
pub proof fn law_truth_operators(
    l: Expr<Seq<char>>,
    r: Expr<Seq<char>>,
    span: LocSpan,
    vars: Vars,
    answers: AnswerMap,
    a: Value<Seq<char>>,
    b: Value<Seq<char>>,
)
    requires
        eval::evaluated(l, vars, answers) == Outcome::Value(a),
        eval::evaluated(r, vars, answers) == Outcome::Value(b),
    ensures
        gives_bool(
            applied(l, BinOp::And, r, span, vars, answers),
            a.truthy() && b.truthy(),
        ),
        gives_bool(
            applied(l, BinOp::Or, r, span, vars, answers),
            a.truthy() || b.truthy(),
        ),
        gives_bool(
            eval::evaluated(
                Expr::Unary { op: UnOp::Not, operand: Box::new(l), span },
                vars,
                answers,
            ),
            !a.truthy(),
        ),
{
}

/// Truth values are equal where they are the same; values of different kinds,
/// other than two numbers, are never equal and cannot be ordered.
pub proof fn law_kinds_differ(
    l: Expr<Seq<char>>,
    r: Expr<Seq<char>>,
    span: LocSpan,
    vars: Vars,
    answers: AnswerMap,
    a: Value<Seq<char>>,
    b: Value<Seq<char>>,
)
    requires
        eval::evaluated(l, vars, answers) == Outcome::Value(a),
        eval::evaluated(r, vars, answers) == Outcome::Value(b),
        a is Bool || a is Str,
        b is Bool || b is Int || b is Float || (a is Bool && b is Str),
    ensures
        gives_bool(applied(l, BinOp::Eq, r, span, vars, answers), a == b),
        gives_bool(applied(l, BinOp::Neq, r, span, vars, answers), a != b),
        applied(l, BinOp::Lt, r, span, vars, answers) is Fault,
        applied(l, BinOp::Gt, r, span, vars, answers) is Fault,
        applied(l, BinOp::LtEq, r, span, vars, answers) is Fault,
        applied(l, BinOp::GtEq, r, span, vars, answers) is Fault,
{
}

/// A minus sign gives the opposite number, twice the number itself, and nothing
/// for what is no number.
pub proof fn law_minus(
    e: Expr<Seq<char>>,
    span: LocSpan,
    vars: Vars,
    answers: AnswerMap,
    a: Value<Seq<char>>,
)
    requires
        eval::evaluated(e, vars, answers) == Outcome::Value(a),
    ensures
        ({
            let minus = eval::evaluated(
                Expr::Unary { op: UnOp::Neg, operand: Box::new(e), span },
                vars,
                answers,
            );
            match a {
                Value::Int(n) => if n == i64::MIN {
                    minus is Overflow
                } else {
                    gives_int(minus, -n)
                },
                Value::Float(bits) => minus matches Outcome::Value(v) && v matches Value::Float(x)
                    && number::magnitude(x) == number::magnitude(bits) && x != bits,
                _ => minus is Fault,
            }
        }),
{
}

/// A variable has the value that it was given; one that was given none is an
/// error.
pub proof fn law_variables(name: Seq<char>, vars: Vars, answers: AnswerMap)
    ensures
        vars.contains_key(name) ==> eval::evaluated(Expr::Var(name), vars, answers)
            == Outcome::Value(vars[name]),
        !vars.contains_key(name) ==> eval::evaluated(Expr::Var(name), vars, answers) is Fault,
{
}

/// Where one of two numbers is a decimal one, the host is asked for the operation
/// as it is written, with the numbers in their order; the difference decides
/// whether they are equal.
pub proof fn law_host_is_asked(
    l: Expr<Seq<char>>,
    op: BinOp,
    r: Expr<Seq<char>>,
    span: LocSpan,
    vars: Vars,
    answers: AnswerMap,
    a: Value<Seq<char>>,
    b: Value<Seq<char>>,
)
    requires
        eval::evaluated(l, vars, answers) == Outcome::Value(a),
        eval::evaluated(r, vars, answers) == Outcome::Value(b),
        eval::operand(a) is Some,
        eval::operand(b) is Some,
        a is Float || b is Float,
        op is Add || op is Sub || op is Mul || op is Div || op is Eq || op is Neq,
    ensures
        ({
            let asked = eval::FloatRequest::Calc {
                op: if op is Eq || op is Neq {
                    BinOp::Sub
                } else {
                    op
                },
                left: eval::operand(a)->0,
                right: eval::operand(b)->0,
            };
            let o = applied(l, op, r, span, vars, answers);
            if !answers.contains_key(asked) {
                o == Outcome::Need(asked)
            } else if op is Eq {
                gives_bool(o, number::magnitude(answers[asked]) < number::EPSILON)
            } else if op is Neq {
                gives_bool(o, number::magnitude(answers[asked]) >= number::EPSILON)
            } else {
                o == Outcome::Value(Value::Float(answers[asked]))
            }
        }),
{
}

// ---------------------------------------------------------------------------
// Instructions
// ---------------------------------------------------------------------------

/// Whether the machine stands at an instruction.
pub open spec fn stands_at(m: Machine, x: InstrView) -> bool {
    0 <= m.section < m.code.len() && 0 <= m.ip < m.code[m.section].len()
        && m.code[m.section][m.ip] == x
}

/// Whether the machine goes on to another place of its section, with the same
/// visits and variables.
pub open spec fn goes_to(t: Tick, m: Machine, ip: int, vars: Vars) -> bool {
    t matches Tick::Go(next) && next.code == m.code && next.section == m.section && next.ip == ip
        && next.stack == m.stack && next.pending == m.pending && next.vars == vars
        && next.answers == Map::<eval::FloatRequest<Seq<char>>, u64>::empty()
}

/// An assignment gives the variable its value, whatever it was, and leaves every
/// other variable alone.
pub proof fn law_assignment(
    m: Machine,
    name: Seq<char>,
    expr: Expr<Seq<char>>,
    v: Value<Seq<char>>,
)
    requires
        stands_at(m, InstrView::VarOp { name, op: VarOpKind::Assign, expr }),
        eval::evaluated(expr, m.vars, m.answers) == Outcome::Value(v),
    ensures
        goes_to(vm::tick(m), m, m.ip + 1, m.vars.insert(name, v)),
{
}

/// `+=` adds to a variable and `-=` takes from it: from `a` and `b` they make
/// `a + b` and `a - b`. A variable that was never set counts as zero.
pub proof fn law_variable_changes(
    m: Machine,
    name: Seq<char>,
    op: VarOpKind,
    expr: Expr<Seq<char>>,
    a: i64,
    b: i64,
)
    requires
        stands_at(m, InstrView::VarOp { name, op, expr }),
        if m.vars.contains_key(name) {
            m.vars[name] == Value::<Seq<char>>::Int(a)
        } else {
            a == 0
        },
        eval::evaluated(expr, m.vars, m.answers) == Outcome::Value(Value::Int(b)),
        -number::TWO53 < a < number::TWO53,
        -number::TWO53 < b < number::TWO53,
        op is MinusEq ==> -number::TWO53 < a - b < number::TWO53,
    ensures
        op is PlusEq ==> goes_to(
            vm::tick(m),
            m,
            m.ip + 1,
            m.vars.insert(name, Value::Int((a + b) as i64)),
        ),
        op is MinusEq ==> goes_to(
            vm::tick(m),
            m,
            m.ip + 1,
            m.vars.insert(name, Value::Int((a - b) as i64)),
        ),
{
    number::law_small_integers_exact(a, b);
}

/// What `+=` added, `-=` of the same amount takes away again, and the other way
/// round.
pub proof fn law_changes_undo(
    m: Machine,
    name: Seq<char>,
    first: VarOpKind,
    second: VarOpKind,
    a: i64,
    b: i64,
)
    requires
        stands_at(m, InstrView::VarOp { name, op: first, expr: Expr::Int(b) }),
        stands_at(
            Machine { ip: m.ip + 1, ..m },
            InstrView::VarOp { name, op: second, expr: Expr::Int(b) },
        ),
        (first is PlusEq && second is MinusEq) || (first is MinusEq && second is PlusEq),
        m.vars.contains_key(name),
        m.vars[name] == Value::<Seq<char>>::Int(a),
        -0x10_0000_0000_0000 < a < 0x10_0000_0000_0000,
        -0x10_0000_0000_0000 < b < 0x10_0000_0000_0000,
    ensures
        vm::tick(m) matches Tick::Go(next) && goes_to(vm::tick(next), m, m.ip + 2, m.vars),
{
    law_variable_changes(m, name, first, Expr::Int(b), a, b);
    let next = vm::tick(m)->Go_0;
    let c: i64 = if first is PlusEq {
        (a + b) as i64
    } else {
        (a - b) as i64
    };
    law_variable_changes(next, name, second, Expr::Int(b), c, b);
    assert(next.vars.insert(name, Value::Int(a)) =~= m.vars);
}

/// Texts are joined by `+=`.
pub proof fn law_text_grows(
    m: Machine,
    name: Seq<char>,
    expr: Expr<Seq<char>>,
    a: Seq<char>,
    b: Seq<char>,
)
    requires
        stands_at(m, InstrView::VarOp { name, op: VarOpKind::PlusEq, expr }),
        m.vars.contains_key(name),
        m.vars[name] == Value::Str(a),
        eval::evaluated(expr, m.vars, m.answers) == Outcome::Value(Value::Str(b)),
    ensures
        goes_to(vm::tick(m), m, m.ip + 1, m.vars.insert(name, Value::Str(a + b))),
{
}

/// A test goes on behind it where the condition holds, and to its target where it
/// does not.
pub proof fn law_tests(m: Machine, cond: Expr<Seq<char>>, target: int, v: Value<Seq<char>>)
    requires
        stands_at(m, InstrView::JumpIfFalse { cond, target }),
        eval::evaluated(cond, m.vars, m.answers) == Outcome::Value(v),
    ensures
        v.truthy() ==> goes_to(vm::tick(m), m, m.ip + 1, m.vars),
        !v.truthy() ==> goes_to(vm::tick(m), m, target, m.vars),
{
}

/// A fault in a condition or a value is reported, and changes nothing.
pub proof fn law_faults_stop(m: Machine, e: Expr<Seq<char>>, x: InstrView, message: Seq<char>)
    requires
        stands_at(m, x),
        (x matches InstrView::JumpIfFalse { cond, .. } && cond == e) || (
        x matches InstrView::VarOp { expr, .. } && expr == e),
        eval::evaluated(e, m.vars, m.answers) == Outcome::Fault(message),
    ensures
        vm::tick(m) == Tick::Event(Err(message), m),
{
}

// ---------------------------------------------------------------------------
// Nodes
// ---------------------------------------------------------------------------

/// Whether a node stands in the section of the machine, and the machine at its
/// beginning.
pub open spec fn begins(m: Machine, n: NodeView, names: Seq<Seq<char>>) -> bool {
    let part = code::node_code(n, m.ip, names);
    &&& 0 <= m.section < m.code.len()
    &&& 0 <= m.ip
    &&& m.ip + part.len() <= m.code[m.section].len()
    &&& m.code[m.section].subrange(m.ip, m.ip + part.len()) == part
}

proof fn lemma_begins(m: Machine, n: NodeView, names: Seq<Seq<char>>, k: int)
    requires
        begins(m, n, names),
        0 <= k < code::node_code(n, m.ip, names).len(),
    ensures
        m.code[m.section][m.ip + k] == code::node_code(n, m.ip, names)[k],
{
    let part = code::node_code(n, m.ip, names);
    assert(m.code[m.section].subrange(m.ip, m.ip + part.len())[k] == part[k]);
}

/// A line of the script is shown as it is written, and stays until the reader goes
/// on.
pub proof fn law_lines_are_shown(m: Machine, n: NodeView, names: Seq<Seq<char>>)
    requires
        begins(m, n, names),
    ensures
        match n {
            NodeView::Dialogue { speaker, pose, text, .. } => vm::tick(m) == Tick::Event(
                Ok(VmEventView::Dialogue { speaker, pose, text }),
                m,
            ),
            NodeView::Narration { text, .. } => vm::tick(m) == Tick::Event(
                Ok(VmEventView::Narration { text }),
                m,
            ),
            NodeView::StoryEnd { .. } => vm::tick(m) == Tick::Event(Ok(VmEventView::StoryEnd), m),
            _ => true,
        },
{
    if n is Dialogue || n is Narration || n is StoryEnd {
        lemma_begins(m, n, names, 0);
    }
}

/// What a script orders is handed out as it is written, once: the machine stands
/// behind it then.
pub proof fn law_orders_are_handed_out(m: Machine, n: NodeView, names: Seq<Seq<char>>)
    requires
        begins(m, n, names),
        n is Command || n is Direction || n is Wait,
    ensures
        ({
            let e = match n {
                NodeView::Command { cmd, args, transition, .. } => VmEventView::Command {
                    cmd,
                    args,
                    transition,
                },
                NodeView::Direction { action, .. } => VmEventView::Direction { action },
                NodeView::Wait { seconds, .. } => VmEventView::Wait { seconds },
                _ => arbitrary(),
            };
            vm::tick(m) matches Tick::Event(r, next) && r == Ok::<VmEventView, Seq<char>>(e)
                && next.ip == m.ip + 1 && next.section == m.section && next.vars == m.vars
                && next.stack == m.stack && next.code == m.code
        }),
{
    lemma_begins(m, n, names, 0);
}

/// A variable operation of the script is the one that the machine carries out.
pub proof fn law_operations_are_kept(
    m: Machine,
    name: Seq<char>,
    op: VarOpKind,
    expr: Expr<Seq<char>>,
    span: LocSpan,
    names: Seq<Seq<char>>,
)
    requires
        begins(m, NodeView::VarOp { name, op, expr, span }, names),
    ensures
        stands_at(m, InstrView::VarOp { name, op, expr }),
{
    lemma_begins(m, NodeView::VarOp { name, op, expr, span }, names, 0);
}

proof fn lemma_section_index(names: Seq<Seq<char>>, name: Seq<char>)
    ensures
        match code::section_index(names, name) {
            Some(i) => 0 <= i < names.len() && names[i] == name && forall|j: int|
                i < j < names.len() ==> #[trigger] names[j] != name,
            None => !names.contains(name),
        },
    decreases names.len(),
{
    if names.len() > 0 && names.last() != name {
        let front = names.drop_last();
        lemma_section_index(front, name);
        match code::section_index(names, name) {
            Some(i) => {
                assert forall|j: int| i < j < names.len() implies #[trigger] names[j]
                    != name by {
                    if j < front.len() {
                        assert(front[j] == names[j]);
                    }
                }
            },
            None => {
                if names.contains(name) {
                    let j = choose|j: int| 0 <= j < names.len() && names[j] == name;
                    assert(front[j] == name);
                }
            },
        }
    }
}

/// `->` and `=>` go to the beginning of the section that they name. `->` forgets
/// the visits that are under way; `=>` starts one more, which comes back to the
/// place behind it.
pub proof fn law_sections_are_reached(
    m: Machine,
    target: Seq<char>,
    span: LocSpan,
    names: Seq<Seq<char>>,
)
    requires
        names.contains(target),
    ensures
        begins(m, NodeView::Flow { target, span }, names) ==> {
            &&& vm::tick(m) matches Tick::Go(next)
            &&& 0 <= next.section < names.len()
            &&& names[next.section] == target
            &&& next.ip == 0
            &&& next.stack == Seq::<(int, int)>::empty()
            &&& next.vars == m.vars
        },
        begins(m, NodeView::Visit { target, span }, names) ==> {
            &&& vm::tick(m) matches Tick::Go(next)
            &&& 0 <= next.section < names.len()
            &&& names[next.section] == target
            &&& next.ip == 0
            &&& next.stack == m.stack.push((m.section, m.ip + 1))
            &&& next.vars == m.vars
        },
{
    lemma_section_index(names, target);
    if begins(m, NodeView::Flow { target, span }, names) {
        lemma_begins(m, NodeView::Flow { target, span }, names, 0);
    }
    if begins(m, NodeView::Visit { target, span }, names) {
        lemma_begins(m, NodeView::Visit { target, span }, names, 0);
    }
}

/// `<=` goes back to where the last visit came from, and so does the end of a
/// section that was visited; without a visit `<=` is an error.
pub proof fn law_returns(m: Machine, span: LocSpan, names: Seq<Seq<char>>)
    requires
        begins(m, NodeView::Return { span }, names) || (0 <= m.section < m.code.len() && m.ip
            >= m.code[m.section].len()),
    ensures
        m.stack.len() > 0 ==> {
            &&& vm::tick(m) matches Tick::Go(next)
            &&& (next.section, next.ip) == m.stack.last()
            &&& next.stack == m.stack.drop_last()
            &&& next.vars == m.vars
        },
        m.stack.len() == 0 && begins(m, NodeView::Return { span }, names) ==> vm::tick(m)
            == Tick::Event(Err("return without visit"@), m),
        m.stack.len() == 0 && !begins(m, NodeView::Return { span }, names) ==> vm::tick(m)
            == Tick::Event(Ok(VmEventView::StoryEnd), m),
{
    if begins(m, NodeView::Return { span }, names) {
        lemma_begins(m, NodeView::Return { span }, names, 0);
    }
}

// ---------------------------------------------------------------------------
// Nodes with a body
// ---------------------------------------------------------------------------

/// Whether instructions stand at a place of a section.
pub open spec fn holds(section: Seq<InstrView>, at: int, part: Seq<InstrView>) -> bool {
    0 <= at && at + part.len() <= section.len() && section.subrange(at, at + part.len()) == part
}

proof fn lemma_part(section: Seq<InstrView>, at: int, whole: Seq<InstrView>, k: int, n: int)
    requires
        holds(section, at, whole),
        0 <= k <= k + n <= whole.len(),
    ensures
        holds(section, at + k, whole.subrange(k, k + n)),
        forall|i: int| 0 <= i < whole.len() ==> section[at + i] == #[trigger] whole[i],
{
    assert forall|i: int| 0 <= i < whole.len() implies section[at + i] == #[trigger] whole[i] by {
        assert(section.subrange(at, at + whole.len())[i] == whole[i]);
    }
    assert(section.subrange(at + k, at + k + n) =~= whole.subrange(k, k + n));
}

/// The nodes of a list stand one behind the other.
pub proof fn law_nodes_in_order(
    a: Seq<NodeView>,
    b: Seq<NodeView>,
    at: int,
    names: Seq<Seq<char>>,
)
    ensures
        ({
            let first = code::nodes_code(a, at, names);
            code::nodes_code(a + b, at, names) == first + code::nodes_code(
                b,
                at + first.len(),
                names,
            )
        }),
    decreases b.len(),
{
    code::lemma_nodes_code_len(a, at, names);
    let first = code::nodes_code(a, at, names);
    if b.len() == 0 {
        assert(a + b =~= a);
        assert(first + Seq::empty() =~= first);
    } else {
        let front = b.drop_last();
        law_nodes_in_order(a, front, at, names);
        assert((a + b).drop_last() =~= a + front);
        assert((a + b).last() == b.last());
        code::lemma_nodes_code_len(a + front, at, names);
        code::lemma_nodes_code_len(front, at + first.len(), names);
        let middle = code::nodes_code(front, at + first.len(), names);
        let end = code::node_code(b.last(), at + first.len() + middle.len(), names);
        assert(first + middle + end =~= first + (middle + end));
    }
}

/// Where the test of a branch stands.
pub open spec fn test_place(
    branches: Seq<(Expr<Seq<char>>, Seq<NodeView>)>,
    at: int,
    i: int,
    names: Seq<Seq<char>>,
) -> int
    decreases i,
{
    if i <= 0 || i > branches.len() {
        at
    } else {
        let before = test_place(branches, at, i - 1, names);
        before + code::nodes_code(branches[i - 1].1, before + 1, names).len() + 2
    }
}

proof fn lemma_test_place(
    branches: Seq<(Expr<Seq<char>>, Seq<NodeView>)>,
    at: int,
    i: int,
    names: Seq<Seq<char>>,
)
    requires
        0 <= i <= branches.len(),
    ensures
        test_place(branches, at, i, names) == at + code::branches_size(branches.take(i)),
    decreases i,
{
    if i > 0 {
        lemma_test_place(branches, at, i - 1, names);
        assert(branches.take(i).drop_last() =~= branches.take(i - 1));
        let before = test_place(branches, at, i - 1, names);
        code::lemma_nodes_code_len(branches[i - 1].1, before + 1, names);
    } else {
        assert(branches.take(0) =~= Seq::empty());
    }
}

/// A branch stands among the branches: its test, its body, and a jump.
proof fn lemma_branch(
    branches: Seq<(Expr<Seq<char>>, Seq<NodeView>)>,
    at: int,
    after: int,
    i: int,
    names: Seq<Seq<char>>,
)
    requires
        0 <= i < branches.len(),
    ensures
        ({
            let whole = code::branches_code(branches, at, after, names);
            let k = test_place(branches, at, i, names) - at;
            let body = code::nodes_code(branches[i].1, at + k + 1, names);
            let next = k + body.len() + 2;
            &&& 0 <= k < next <= whole.len()
            &&& whole[k] == (InstrView::JumpIfFalse { cond: branches[i].0, target: at + next })
            &&& whole.subrange(k + 1, next - 1) == body
            &&& whole[next - 1] == (InstrView::Jump { target: after })
        }),
    decreases branches.len(),
{
    let front = branches.drop_last();
    let whole = code::branches_code(branches, at, after, names);
    code::lemma_branches_code_len(front, at, after, names);
    code::lemma_branches_code_len(branches, at, after, names);
    lemma_test_place(branches, at, i, names);
    let k = test_place(branches, at, i, names) - at;
    let body = code::nodes_code(branches[i].1, at + k + 1, names);
    code::lemma_nodes_code_len(branches[i].1, at + k + 1, names);
    if i < front.len() {
        lemma_branch(front, at, after, i, names);
        lemma_test_place(front, at, i, names);
        assert(front.take(i) =~= branches.take(i));
        let first = code::branches_code(front, at, after, names);
        assert(whole.subrange(0, first.len() as int) =~= first);
        assert(whole.subrange(k + 1, k + 1 + body.len()) =~= first.subrange(
            k + 1,
            k + 1 + body.len(),
        ));
        assert(whole[k] == first[k]);
        assert(whole[k + body.len() + 1] == first[k + body.len() + 1]);
    } else {
        assert(branches.take(i) =~= front);
        assert(whole.subrange(k + 1, k + 1 + body.len()) =~= body);
    }
}

/// A conditional tests its conditions in order. Where one holds, its body comes
/// next and then what stands behind the conditional; where none does, the body of
/// `else` comes, or what stands behind. `at` is where the conditional begins.
pub proof fn law_conditional(
    m: Machine,
    branches: Seq<(Expr<Seq<char>>, Seq<NodeView>)>,
    else_branch: Option<Seq<NodeView>>,
    span: LocSpan,
    names: Seq<Seq<char>>,
    at: int,
    i: int,
    v: Value<Seq<char>>,
)
    requires
        begins(
            Machine { ip: at, ..m },
            NodeView::Conditional { branches, else_branch, span },
            names,
        ),
        0 <= i < branches.len(),
        m.ip == test_place(branches, at, i, names),
        eval::evaluated(branches[i].0, m.vars, m.answers) == Outcome::Value(v),
    ensures
        ({
            let section = m.code[m.section];
            let size = code::node_code(
                NodeView::Conditional { branches, else_branch, span },
                at,
                names,
            ).len();
            let body = code::nodes_code(branches[i].1, m.ip + 1, names);
            let rest = test_place(branches, at, branches.len() as int, names);
            &&& v.truthy() ==> goes_to(vm::tick(m), m, m.ip + 1, m.vars)
            &&& !v.truthy() ==> goes_to(
                vm::tick(m),
                m,
                test_place(branches, at, i + 1, names),
                m.vars,
            )
            &&& holds(section, m.ip + 1, body)
            &&& section[m.ip + 1 + body.len()] == (InstrView::Jump { target: at + size })
            &&& match else_branch {
                Some(other) => holds(section, rest, code::nodes_code(other, rest, names)) && rest
                    + code::nodes_code(other, rest, names).len() == at + size,
                None => rest == at + size,
            }
        }),
{
    let n = NodeView::Conditional { branches, else_branch, span };
    let section = m.code[m.section];
    let whole = code::node_code(n, at, names);
    code::lemma_node_code_len(n, at, names);
    let middle = at + code::branches_size(branches);
    let after = at + whole.len();
    let first = code::branches_code(branches, at, after, names);
    code::lemma_branches_code_len(branches, at, after, names);
    lemma_branch(branches, at, after, i, names);
    lemma_test_place(branches, at, branches.len() as int, names);
    assert(branches.take(branches.len() as int) =~= branches);
    assert(holds(section, at, whole));
    let k = m.ip - at;
    let body = code::nodes_code(branches[i].1, m.ip + 1, names);
    match else_branch {
        Some(other) => {
            code::lemma_nodes_code_len(other, middle, names);
            let last = code::nodes_code(other, middle, names);
            assert(whole =~= first + last);
            assert(whole.subrange(first.len() as int, whole.len() as int) =~= last);
            lemma_part(section, at, whole, first.len() as int, last.len() as int);
        },
        None => {
            assert(whole =~= first);
        },
    }
    assert(whole.subrange(k + 1, k + 1 + body.len()) =~= first.subrange(k + 1, k + 1 + body.len()));
    lemma_part(section, at, whole, k + 1, body.len() as int);
    assert(whole[k] == first[k]);
    assert(section[at + k] == whole[k]);
    assert(whole[k + 1 + body.len()] == first[k + 1 + body.len()]);
    assert(section[at + (k + 1 + body.len())] == whole[k + 1 + body.len()]);
}

/// The options of a choice stand behind it, each with its body and a jump.
proof fn lemma_option(
    options: Seq<ast::ChoiceOptionView>,
    at: int,
    after: int,
    i: int,
    names: Seq<Seq<char>>,
)
    requires
        0 <= i < options.len(),
    ensures
        code::compiled_options(options, at).len() == options.len(),
        ({
            let whole = code::options_code(options, at, after, names);
            let o = code::compiled_options(options, at)[i];
            let k = o.target - at;
            let body = code::nodes_code(options[i].body, o.target, names);
            &&& o.text == options[i].text
            &&& o.condition == options[i].condition
            &&& 0 <= k
            &&& k + body.len() < whole.len()
            &&& whole.subrange(k, k + body.len()) == body
            &&& whole[k + body.len()] == (InstrView::Jump { target: after })
        }),
    decreases options.len(),
{
    let front = options.drop_last();
    let whole = code::options_code(options, at, after, names);
    code::lemma_options_code_len(front, at, after, names);
    code::lemma_options_code_len(options, at, after, names);
    if front.len() > 0 {
        lemma_option(front, at, after, if i < front.len() { i } else { 0 }, names);
    } else {
        assert(front =~= Seq::empty());
    }
    let o = code::compiled_options(options, at)[i];
    let k = o.target - at;
    let body = code::nodes_code(options[i].body, o.target, names);
    if i < front.len() {
        let first = code::options_code(front, at, after, names);
        assert(o == code::compiled_options(front, at)[i]);
        assert(whole.subrange(k, k + body.len()) =~= first.subrange(k, k + body.len()));
        assert(whole[k + body.len()] == first[k + body.len()]);
    } else {
        code::lemma_nodes_code_len(options[i].body, o.target, names);
        assert(whole.subrange(k, k + body.len()) =~= body);
    }
}

/// A choice offers its options in order, with their texts and conditions, and
/// taking one leads to its body, and then to what stands behind the choice.
pub proof fn law_choice(
    m: Machine,
    prompt: Option<Seq<char>>,
    options: Seq<ast::ChoiceOptionView>,
    span: LocSpan,
    names: Seq<Seq<char>>,
    i: int,
)
    requires
        begins(m, NodeView::Choice { prompt, options, span }, names),
        0 <= i < options.len(),
    ensures
        ({
            let section = m.code[m.section];
            let size = code::node_code(
                NodeView::Choice { prompt, options, span },
                m.ip,
                names,
            ).len();
            &&& section[m.ip] matches InstrView::Choice { prompt: p, options: offered }
            &&& p == prompt
            &&& offered.len() == options.len()
            &&& offered[i].text == options[i].text
            &&& offered[i].condition == options[i].condition
            &&& ({
                let body = code::nodes_code(options[i].body, offered[i].target, names);
                &&& holds(section, offered[i].target, body)
                &&& section[offered[i].target + body.len()] == (InstrView::Jump {
                    target: m.ip + size,
                })
            })
            &&& vm::tick(m) matches Tick::Event(Ok(VmEventView::Choice { prompt: p, .. }), next)
                ==> p == prompt && next.pending == Some(offered)
            &&& options[i].condition is None && m.pending == Some(offered) ==> {
                &&& vm::chosen(m, i) matches vm::Chosen::Done(next)
                &&& next.ip == offered[i].target
                &&& next.section == m.section
                &&& next.vars == m.vars
                &&& next.stack == m.stack
            }
        }),
{
    let n = NodeView::Choice { prompt, options, span };
    let section = m.code[m.section];
    let whole = code::node_code(n, m.ip, names);
    code::lemma_node_code_len(n, m.ip, names);
    let after = m.ip + whole.len();
    let rest = code::options_code(options, m.ip + 2, after, names);
    code::lemma_options_code_len(options, m.ip + 2, after, names);
    lemma_option(options, m.ip + 2, after, i, names);
    assert(holds(section, m.ip, whole));
    lemma_part(section, m.ip, whole, 0, 0);
    assert(section[m.ip + 0] == whole[0]);
    let o = code::compiled_options(options, m.ip + 2)[i];
    let body = code::nodes_code(options[i].body, o.target, names);
    let k = o.target - m.ip;
    assert(whole.subrange(k, k + body.len()) =~= rest.subrange(k - 2, k - 2 + body.len()));
    lemma_part(section, m.ip, whole, k, body.len() as int);
    assert(whole[k + body.len()] == rest[k - 2 + body.len()]);
    assert(section[m.ip + (k + body.len())] == whole[k + body.len()]);
}

/// A story begins at the beginning of the section that the program names, with no
/// variable set and no visit under way, and holds the code of every section.
pub proof fn law_story_begins(p: ast::ProgramView, entry: Seq<char>, i: int)
    requires
        p.entry == Some(entry),
        vm::section_names(p.sections).contains(entry),
        0 <= i < p.sections.len(),
    ensures
        ({
            let m = vm::initial(p);
            &&& 0 <= m.section < p.sections.len()
            &&& p.sections[m.section].name == entry
            &&& m.ip == 0
            &&& m.vars == Map::<Seq<char>, Value<Seq<char>>>::empty()
            &&& m.stack.len() == 0
            &&& m.pending is None
            &&& m.code.len() == p.sections.len()
            &&& holds(
                m.code[i],
                0,
                code::nodes_code(p.sections[i].nodes, 0, vm::section_names(p.sections)),
            )
            &&& m.code[i].last() is StoryEnd
        }),
{
    let names = vm::section_names(p.sections);
    lemma_section_index(names, entry);
    let part = code::nodes_code(p.sections[i].nodes, 0, names);
    assert(vm::initial(p).code[i] == part.push(InstrView::StoryEnd));
    assert(part.push(InstrView::StoryEnd).subrange(0, part.len() as int) =~= part);
}

} // verus!
