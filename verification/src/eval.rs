//! Evaluation of expressions.
//!
//! Floating-point arithmetic is the host's: where an expression needs it, the
//! evaluation names the operation it needs, and is repeated with the answer.

use crate::ast::{BinOp, Expr, UnOp};
use crate::number;
use crate::number::{
    compare_floats, div_ints, float_negate, float_negligible, mul_ints, sub_ints,
};
use crate::order;
use crate::order::order_texts;
use crate::table::Table;
use crate::text::{concat2, concat3, concat4, str_eq};
use crate::value::{Operand, Value};
use vstd::prelude::*;

verus! {

/// A floating-point operation that the host is asked for.
#[derive(Debug, PartialEq, Eq)]
pub enum FloatRequest<S = String> {
    /// The value of a decimal literal.
    Literal(S),
    /// The sum, difference, product or quotient of two numbers; an integer is
    /// converted first.
    Calc { op: BinOp, left: Operand, right: Operand },
}

impl View for FloatRequest<String> {
    type V = FloatRequest<Seq<char>>;

    open spec fn view(&self) -> FloatRequest<Seq<char>> {
        match *self {
            FloatRequest::Literal(s) => FloatRequest::Literal(s@),
            FloatRequest::Calc { op, left, right } => FloatRequest::Calc { op, left, right },
        }
    }
}

/// What an evaluation comes to.
pub enum Outcome {
    Value(Value<Seq<char>>),
    /// An error message.
    Fault(Seq<char>),
    /// An integer result that does not fit.
    Overflow,
    /// An operation that is needed first.
    Need(FloatRequest<Seq<char>>),
}

/// What the host answered.
pub type AnswerMap = Map<FloatRequest<Seq<char>>, u64>;

/// The variables, over character sequences.
pub open spec fn var_views(m: Map<Seq<char>, Value>) -> Map<Seq<char>, Value<Seq<char>>> {
    Map::new(|k: Seq<char>| m.contains_key(k), |k: Seq<char>| m[k]@)
}

/// The answer to a request, where it was given.
pub open spec fn answered(r: FloatRequest<Seq<char>>, answers: AnswerMap) -> Outcome {
    if answers.contains_key(r) {
        Outcome::Value(Value::Float(answers[r]))
    } else {
        Outcome::Need(r)
    }
}

/// The number that a value stands for.
pub open spec fn operand(v: Value<Seq<char>>) -> Option<Operand> {
    match v {
        Value::Int(n) => Some(Operand::Int(n)),
        Value::Float(bits) => Some(Operand::Float(bits)),
        _ => None,
    }
}

/// Arithmetic on numbers. Differences and products of integers are integers.
pub open spec fn numeric(
    op: BinOp,
    a: Value<Seq<char>>,
    b: Value<Seq<char>>,
    answers: AnswerMap,
) -> Outcome {
    if operand(a) is None {
        Outcome::Fault("cannot convert "@ + a.kind_name() + " to float"@)
    } else if operand(b) is None {
        Outcome::Fault("cannot convert "@ + b.kind_name() + " to float"@)
    } else if a is Int && b is Int {
        let (x, y) = (a->Int_0, b->Int_0);
        Outcome::Value(
            Value::Int(
                if op is Mul {
                    number::int_mul(x, y)
                } else {
                    number::int_sub(x, y)
                },
            ),
        )
    } else {
        answered(
            FloatRequest::Calc { op, left: operand(a)->0, right: operand(b)->0 },
            answers,
        )
    }
}

/// The order of two integers: negative, zero or positive.
pub open spec fn int_order(a: i64, b: i64) -> int {
    if a < b {
        -1
    } else if a == b {
        0
    } else {
        1
    }
}

/// The order of two values of one kind.
pub open spec fn value_order(a: Value<Seq<char>>, b: Value<Seq<char>>) -> Option<int> {
    match (a, b) {
        (Value::Int(x), Value::Int(y)) => Some(int_order(x, y)),
        (Value::Float(x), Value::Float(y)) => Some(number::float_order(x, y)),
        (Value::Str(x), Value::Str(y)) => Some(order::text_order(x, y)),
        _ => None,
    }
}

/// Whether an order satisfies a comparison.
pub open spec fn order_holds(op: BinOp, order: int) -> bool {
    match op {
        BinOp::Lt => order < 0,
        BinOp::Gt => order > 0,
        BinOp::LtEq => order <= 0,
        _ => order >= 0,
    }
}

/// Whether two values are equal. Numbers of which one is a double are equal
/// where their difference is negligible; values of different kinds are not.
pub open spec fn equality(
    a: Value<Seq<char>>,
    b: Value<Seq<char>>,
    answers: AnswerMap,
) -> Outcome {
    if operand(a) is Some && operand(b) is Some && !(a is Int && b is Int) {
        let d = answered(
            FloatRequest::Calc { op: BinOp::Sub, left: operand(a)->0, right: operand(b)->0 },
            answers,
        );
        match d {
            Outcome::Value(v) => Outcome::Value(
                Value::Bool(number::magnitude(v->Float_0) < number::EPSILON),
            ),
            _ => d,
        }
    } else {
        Outcome::Value(
            Value::Bool(
                match (a, b) {
                    (Value::Int(x), Value::Int(y)) => x == y,
                    (Value::Str(x), Value::Str(y)) => x == y,
                    (Value::Bool(x), Value::Bool(y)) => x == y,
                    _ => false,
                },
            ),
        )
    }
}

/// The opposite of a truth value.
pub open spec fn opposite(o: Outcome) -> Outcome {
    match o {
        Outcome::Value(v) => Outcome::Value(Value::Bool(!v.truthy())),
        _ => o,
    }
}

/// The result of a binary operator.
pub open spec fn binary(
    op: BinOp,
    a: Value<Seq<char>>,
    b: Value<Seq<char>>,
    answers: AnswerMap,
) -> Outcome {
    match op {
        BinOp::Add => match (a, b) {
            (Value::Int(x), Value::Int(y)) => if i64::MIN <= x + y <= i64::MAX {
                Outcome::Value(Value::Int((x + y) as i64))
            } else {
                Outcome::Overflow
            },
            (Value::Str(x), Value::Str(y)) => Outcome::Value(Value::Str(x + y)),
            _ => numeric(op, a, b, answers),
        },
        BinOp::Sub => numeric(op, a, b, answers),
        BinOp::Mul => numeric(op, a, b, answers),
        BinOp::Div => match (a, b) {
            (Value::Int(x), Value::Int(y)) => if y == 0 {
                Outcome::Fault("division by zero"@)
            } else if x == i64::MIN && y == -1 {
                Outcome::Overflow
            } else {
                Outcome::Value(Value::Int(number::trunc_div(x as int, y as int) as i64))
            },
            _ => numeric(op, a, b, answers),
        },
        BinOp::Eq => equality(a, b, answers),
        BinOp::Neq => opposite(equality(a, b, answers)),
        BinOp::And => Outcome::Value(Value::Bool(a.truthy() && b.truthy())),
        BinOp::Or => Outcome::Value(Value::Bool(a.truthy() || b.truthy())),
        _ => match value_order(a, b) {
            Some(order) => Outcome::Value(Value::Bool(order_holds(op, order))),
            None => Outcome::Fault("cannot compare "@ + a.kind_name() + " and "@ + b.kind_name()),
        },
    }
}

/// The result of a prefix operator.
pub open spec fn unary(op: UnOp, v: Value<Seq<char>>) -> Outcome {
    match op {
        UnOp::Not => Outcome::Value(Value::Bool(!v.truthy())),
        UnOp::Neg => match v {
            Value::Int(n) => if n == i64::MIN {
                Outcome::Overflow
            } else {
                Outcome::Value(Value::Int((-n) as i64))
            },
            Value::Float(bits) => Outcome::Value(Value::Float(number::negated(bits))),
            _ => Outcome::Fault("cannot negate "@ + v.kind_name()),
        },
    }
}

/// The value of an expression, with what the host answered so far.
pub open spec fn evaluated(
    e: Expr<Seq<char>>,
    vars: Map<Seq<char>, Value<Seq<char>>>,
    answers: AnswerMap,
) -> Outcome
    decreases e,
{
    match e {
        Expr::Int(n) => Outcome::Value(Value::Int(n)),
        Expr::Float(s) => answered(FloatRequest::Literal(s), answers),
        Expr::Str(s) => Outcome::Value(Value::Str(s)),
        Expr::Bool(b) => Outcome::Value(Value::Bool(b)),
        Expr::Var(name) => if vars.contains_key(name) {
            Outcome::Value(vars[name])
        } else {
            Outcome::Fault("undefined variable: '"@ + name + "'"@)
        },
        Expr::Binary { op, left, right, .. } => {
            match evaluated(*left, vars, answers) {
                Outcome::Value(a) => match evaluated(*right, vars, answers) {
                    Outcome::Value(b) => binary(op, a, b, answers),
                    other => other,
                },
                other => other,
            }
        },
        Expr::Unary { op, operand, .. } => match evaluated(*operand, vars, answers) {
            Outcome::Value(v) => unary(op, v),
            other => other,
        },
    }
}

// ---------------------------------------------------------------------------
// Code
// ---------------------------------------------------------------------------

/// What an evaluation comes to, in code.
#[derive(Debug)]
pub enum Found {
    Value(Value),
    Fault(String),
    Overflow,
    Need(FloatRequest),
}

impl View for Found {
    type V = Outcome;

    open spec fn view(&self) -> Outcome {
        match *self {
            Found::Value(v) => Outcome::Value(v@),
            Found::Fault(m) => Outcome::Fault(m@),
            Found::Overflow => Outcome::Overflow,
            Found::Need(r) => Outcome::Need(r@),
        }
    }
}

/// What was answered, entry after entry.
pub open spec fn answer_map(s: Seq<(FloatRequest, u64)>) -> AnswerMap
    decreases s.len(),
{
    if s.len() == 0 {
        Map::empty()
    } else {
        answer_map(s.drop_last()).insert(s.last().0@, s.last().1)
    }
}

/// The answers of the host, each with the operation that it is the result of.
#[derive(Debug)]
pub struct Answers {
    given: Vec<(FloatRequest, u64)>,
}

impl View for Answers {
    type V = AnswerMap;

    closed spec fn view(&self) -> AnswerMap {
        answer_map(self.given@)
    }
}

fn same_request(a: &FloatRequest, b: &FloatRequest) -> (r: bool)
    ensures
        r == (a@ == b@),
{
    match (a, b) {
        (FloatRequest::Literal(x), FloatRequest::Literal(y)) => str_eq(x.as_str(), y.as_str()),
        (
            FloatRequest::Calc { op, left, right },
            FloatRequest::Calc { op: op2, left: left2, right: right2 },
        ) => *op == *op2 && *left == *left2 && *right == *right2,
        _ => false,
    }
}

/// The same request.
pub fn clone_request(r: &FloatRequest) -> (c: FloatRequest)
    ensures
        c@ == r@,
{
    match r {
        FloatRequest::Literal(s) => FloatRequest::Literal(s.clone()),
        FloatRequest::Calc { op, left, right } => FloatRequest::Calc {
            op: *op,
            left: *left,
            right: *right,
        },
    }
}

impl Answers {
    /// No answers.
    pub fn new() -> (r: Self)
        ensures
            r@ == Map::<FloatRequest<Seq<char>>, u64>::empty(),
    {
        Answers { given: Vec::new() }
    }

    /// Takes an answer.
    pub fn give(&mut self, request: FloatRequest, bits: u64)
        ensures
            final(self)@ == old(self)@.insert(request@, bits),
    {
        self.given.push((request, bits));
        assert(self.given@.drop_last() =~= old(self).given@);
    }

    /// The answer to a request.
    pub fn get(&self, request: &FloatRequest) -> (r: Option<u64>)
        ensures
            match r {
                Some(bits) => self@.contains_key(request@) && self@[request@] == bits,
                None => !self@.contains_key(request@),
            },
    {
        let mut i: usize = self.given.len();
        assert(self.given@.take(i as int) =~= self.given@);
        while i > 0
            invariant
                i <= self.given@.len(),
                answer_map(self.given@.take(i as int)).contains_key(request@)
                    == self@.contains_key(request@),
                self@.contains_key(request@) ==> answer_map(
                    self.given@.take(i as int),
                )[request@] == self@[request@],
            decreases i,
        {
            let ghost part = self.given@.take(i as int);
            i = i - 1;
            assert(part.drop_last() =~= self.given@.take(i as int));
            assert(part.last() == self.given@[i as int]);
            if same_request(&self.given[i].0, request) {
                return Some(self.given[i].1);
            }
        }
        None
    }

    /// The same answers.
    pub fn copied(&self) -> (r: Self)
        ensures
            r@ == self@,
    {
        let mut r: Answers = Answers::new();
        let mut i: usize = 0;
        assert(self.given@.take(0) =~= Seq::empty());
        while i < self.given.len()
            invariant
                i <= self.given@.len(),
                r@ == answer_map(self.given@.take(i as int)),
            decreases self.given@.len() - i,
        {
            r.give(clone_request(&self.given[i].0), self.given[i].1);
            assert(self.given@.take(i + 1).drop_last() =~= self.given@.take(i as int));
            i = i + 1;
        }
        assert(self.given@.take(i as int) =~= self.given@);
        r
    }
}

/// The answer to a request, where it was given.
fn answer(r: FloatRequest, answers: &Answers) -> (f: Found)
    ensures
        f@ == answered(r@, answers@),
{
    match answers.get(&r) {
        Some(bits) => Found::Value(Value::Float(bits)),
        None => Found::Need(r),
    }
}

fn eval_numeric(op: BinOp, a: &Value, b: &Value, answers: &Answers) -> (f: Found)
    ensures
        f@ == numeric(op, a@, b@, answers@),
{
    let left: Operand = match a.as_float() {
        Ok(x) => x,
        Err(m) => {
            return Found::Fault(m);
        },
    };
    let right: Operand = match b.as_float() {
        Ok(x) => x,
        Err(m) => {
            return Found::Fault(m);
        },
    };
    if let (Value::Int(x), Value::Int(y)) = (a, b) {
        let n: i64 = if op == BinOp::Mul {
            mul_ints(*x, *y)
        } else {
            sub_ints(*x, *y)
        };
        return Found::Value(Value::Int(n));
    }
    answer(FloatRequest::Calc { op, left, right }, answers)
}

/// The order of two values of one kind.
fn order_values(a: &Value, b: &Value) -> (r: Option<i32>)
    ensures
        match value_order(a@, b@) {
            Some(o) => r is Some && r->0 == o,
            None => r is None,
        },
{
    match (a, b) {
        (Value::Int(x), Value::Int(y)) => Some(
            if *x < *y {
                -1
            } else if *x == *y {
                0
            } else {
                1
            },
        ),
        (Value::Float(x), Value::Float(y)) => Some(compare_floats(*x, *y)),
        (Value::Str(x), Value::Str(y)) => Some(order_texts(x.as_str(), y.as_str())),
        _ => None,
    }
}

fn eval_equality(a: &Value, b: &Value, answers: &Answers) -> (f: Found)
    ensures
        f@ == equality(a@, b@, answers@),
        f matches Found::Value(v) ==> v is Bool,
{
    let same: bool = match (a, b) {
        (Value::Int(x), Value::Int(y)) => *x == *y,
        (Value::Str(x), Value::Str(y)) => str_eq(x.as_str(), y.as_str()),
        (Value::Bool(x), Value::Bool(y)) => *x == *y,
        _ => {
            if let (Ok(left), Ok(right)) = (a.as_float(), b.as_float()) {
                return match answer(FloatRequest::Calc { op: BinOp::Sub, left, right }, answers) {
                    Found::Value(Value::Float(bits)) => Found::Value(
                        Value::Bool(float_negligible(bits)),
                    ),
                    other => other,
                };
            }
            false
        },
    };
    Found::Value(Value::Bool(same))
}

/// The result of a binary operator.
pub fn eval_binary(op: BinOp, a: &Value, b: &Value, answers: &Answers) -> (f: Found)
    ensures
        f@ == binary(op, a@, b@, answers@),
{
    match op {
        BinOp::Add => match (a, b) {
            (Value::Int(x), Value::Int(y)) => match x.checked_add(*y) {
                Some(n) => Found::Value(Value::Int(n)),
                None => Found::Overflow,
            },
            (Value::Str(x), Value::Str(y)) => Found::Value(
                Value::Str(concat2(x.as_str(), y.as_str())),
            ),
            _ => eval_numeric(op, a, b, answers),
        },
        BinOp::Sub => eval_numeric(op, a, b, answers),
        BinOp::Mul => eval_numeric(op, a, b, answers),
        BinOp::Div => match (a, b) {
            (Value::Int(x), Value::Int(y)) => if *y == 0 {
                Found::Fault("division by zero".to_owned())
            } else if *x == i64::MIN && *y == -1 {
                Found::Overflow
            } else {
                Found::Value(Value::Int(div_ints(*x, *y)))
            },
            _ => eval_numeric(op, a, b, answers),
        },
        BinOp::Eq => eval_equality(a, b, answers),
        BinOp::Neq => match eval_equality(a, b, answers) {
            Found::Value(v) => Found::Value(Value::Bool(!v.is_truthy())),
            other => other,
        },
        BinOp::And => Found::Value(Value::Bool(a.is_truthy() && b.is_truthy())),
        BinOp::Or => Found::Value(Value::Bool(a.is_truthy() || b.is_truthy())),
        _ => match order_values(a, b) {
            Some(o) => {
                let holds: bool = match op {
                    BinOp::Lt => o < 0,
                    BinOp::Gt => o > 0,
                    BinOp::LtEq => o <= 0,
                    _ => o >= 0,
                };
                Found::Value(Value::Bool(holds))
            },
            None => Found::Fault(
                concat4("cannot compare ", a.type_label(), " and ", b.type_label()),
            ),
        },
    }
}

/// The value of an expression, with what the host answered so far.
pub fn eval(e: &Expr, vars: &Table<Value>, answers: &Answers) -> (f: Found)
    ensures
        f@ == evaluated(e@, var_views(vars@), answers@),
    decreases *e,
{
    match e {
        Expr::Int(n) => Found::Value(Value::Int(*n)),
        Expr::Float(s) => answer(FloatRequest::Literal(s.clone()), answers),
        Expr::Str(s) => Found::Value(Value::Str(s.clone())),
        Expr::Bool(b) => Found::Value(Value::Bool(*b)),
        Expr::Var(name) => match vars.get(name.as_str()) {
            Some(v) => Found::Value(v.clone()),
            None => Found::Fault(concat3("undefined variable: '", name.as_str(), "'")),
        },
        Expr::Binary { op, left, right, .. } => {
            let a: Value = match eval(left, vars, answers) {
                Found::Value(v) => v,
                other => {
                    return other;
                },
            };
            let b: Value = match eval(right, vars, answers) {
                Found::Value(v) => v,
                other => {
                    return other;
                },
            };
            eval_binary(*op, &a, &b, answers)
        },
        Expr::Unary { op, operand, .. } => {
            let v: Value = match eval(operand, vars, answers) {
                Found::Value(v) => v,
                other => {
                    return other;
                },
            };
            match op {
                UnOp::Not => Found::Value(Value::Bool(!v.is_truthy())),
                UnOp::Neg => match v {
                    Value::Int(n) => if n == i64::MIN {
                        Found::Overflow
                    } else {
                        Found::Value(Value::Int(-n))
                    },
                    Value::Float(bits) => Found::Value(Value::Float(float_negate(bits))),
                    _ => Found::Fault(concat2("cannot negate ", v.type_label())),
                },
            }
        },
    }
}

// ---------------------------------------------------------------------------
// Laws
// ---------------------------------------------------------------------------

/// Whether an expression has no decimal literal.
pub open spec fn literal_free(e: Expr<Seq<char>>) -> bool
    decreases e,
{
    match e {
        Expr::Float(_) => false,
        Expr::Binary { left, right, .. } => literal_free(*left) && literal_free(*right),
        Expr::Unary { operand, .. } => literal_free(*operand),
        _ => true,
    }
}

/// An expression without decimal literals, over variables that are no doubles,
/// asks the host for nothing, and its value is no double.
pub proof fn law_no_doubles_no_requests(
    e: Expr<Seq<char>>,
    vars: Map<Seq<char>, Value<Seq<char>>>,
    answers: AnswerMap,
)
    requires
        literal_free(e),
        forall|k: Seq<char>| vars.contains_key(k) ==> !(#[trigger] vars[k] is Float),
    ensures
        evaluated(e, vars, answers) == evaluated(e, vars, Map::empty()),
        !(evaluated(e, vars, answers) is Need),
        evaluated(e, vars, answers) matches Outcome::Value(v) ==> !(v is Float),
    decreases e,
{
    match e {
        Expr::Binary { left, right, .. } => {
            law_no_doubles_no_requests(*left, vars, answers);
            law_no_doubles_no_requests(*right, vars, answers);
        },
        Expr::Unary { operand, .. } => {
            law_no_doubles_no_requests(*operand, vars, answers);
        },
        _ => {},
    }
}

/// An expression that asks for nothing more keeps its value, whatever else the
/// host is asked for later.
pub proof fn law_more_answers_keep(
    e: Expr<Seq<char>>,
    vars: Map<Seq<char>, Value<Seq<char>>>,
    answers: AnswerMap,
    more: AnswerMap,
)
    requires
        answers.submap_of(more),
        !(evaluated(e, vars, answers) is Need),
    ensures
        evaluated(e, vars, more) == evaluated(e, vars, answers),
    decreases e,
{
    match e {
        Expr::Binary { left, right, .. } => {
            law_more_answers_keep(*left, vars, answers, more);
            if evaluated(*left, vars, answers) is Value {
                law_more_answers_keep(*right, vars, answers, more);
            }
        },
        Expr::Unary { operand, .. } => {
            law_more_answers_keep(*operand, vars, answers, more);
        },
        _ => {},
    }
}

} // verus!
