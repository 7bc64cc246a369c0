//! Expressions are read as they are written.

use crate::ast::{BinOp, Expr, UnOp};
use crate::grammar;
use crate::grammar::{Step, Tok};
use crate::token;
use crate::token::{LocSpan, TokenKind};
use vstd::prelude::*;

verus! {

// ---------------------------------------------------------------------------
// Signs
// ---------------------------------------------------------------------------

/// How an operator is written.
pub open spec fn sign(op: BinOp) -> Seq<char> {
    match op {
        BinOp::Eq => "=="@,
        BinOp::Neq => "!="@,
        BinOp::Lt => "<"@,
        BinOp::Gt => ">"@,
        BinOp::LtEq => "<="@,
        BinOp::GtEq => ">="@,
        BinOp::And => "and"@,
        BinOp::Or => "or"@,
        BinOp::Add => "+"@,
        BinOp::Sub => "-"@,
        BinOp::Mul => "*"@,
        BinOp::Div => "/"@,
    }
}

/// How a prefix operator is written.
pub open spec fn prefix_sign(op: UnOp) -> Seq<char> {
    match op {
        UnOp::Not => "not"@,
        UnOp::Neg => "-"@,
    }
}

/// Whether a token with this text stands at a place of the source.
pub open spec fn stands(toks: Seq<Tok>, span: LocSpan, text: Seq<char>) -> bool {
    exists|i: int|
        0 <= i < toks.len() && (#[trigger] toks[i]).span == span && token::kind_text(toks[i].kind)
            == text
}

/// Whether every operator of an expression is written at its place.
pub open spec fn is_written(toks: Seq<Tok>, e: Expr<Seq<char>>) -> bool
    decreases e,
{
    match e {
        Expr::Binary { op, left, right, span } => stands(toks, span, sign(op)) && is_written(
            toks,
            *left,
        ) && is_written(toks, *right),
        Expr::Unary { op, operand, span } => stands(toks, span, prefix_sign(op)) && is_written(
            toks,
            *operand,
        ),
        _ => true,
    }
}

/// Whether the last token is the end mark, and the place is before it or there.
pub open spec fn is_ended(toks: Seq<Tok>, pos: int) -> bool {
    0 <= pos < toks.len() && toks.last().kind is Eof
}

spec fn reads(toks: Seq<Tok>, pos: int, s: Step<Expr<Seq<char>>>) -> bool {
    &&& pos <= s.pos < toks.len()
    &&& s.res matches Ok(e) ==> pos < s.pos && is_written(toks, e)
}

proof fn lemma_expr(toks: Seq<Tok>, pos: int, level: int)
    requires
        is_ended(toks, pos),
        0 <= level <= 6,
    ensures
        reads(toks, pos, grammar::expr_at(toks, pos, level)),
    decreases toks.len() - pos, 7 - level, 1int,
{
    if level == 2 || level == 6 {
        if grammar::unop_at(level, toks[pos].kind) is Some {
            lemma_expr(toks, pos + 1, level);
            assert(token::kind_text(toks[pos].kind) == prefix_sign(
                grammar::unop_at(level, toks[pos].kind)->0,
            ));
        } else if level == 2 {
            lemma_expr(toks, pos, 3);
        } else {
            lemma_primary(toks, pos);
        }
    } else {
        lemma_expr(toks, pos, level + 1);
        let first = grammar::expr_at(toks, pos, level + 1);
        if let Ok(left) = first.res {
            lemma_operators(toks, first.pos, level, left);
        }
    }
}

proof fn lemma_operators(toks: Seq<Tok>, pos: int, level: int, left: Expr<Seq<char>>)
    requires
        is_ended(toks, pos),
        0 <= level <= 5,
        is_written(toks, left),
    ensures
        ({
            let s = grammar::operators_at(toks, pos, level, left);
            pos <= s.pos < toks.len() && (s.res matches Ok(e) ==> is_written(toks, e))
        }),
    decreases toks.len() - pos, 7 - level, 0int,
{
    if let Some(op) = grammar::binop_at(level, toks[pos].kind) {
        assert(token::kind_text(toks[pos].kind) == sign(op));
        lemma_expr(toks, pos + 1, level + 1);
        let second = grammar::expr_at(toks, pos + 1, level + 1);
        if let Ok(right) = second.res {
            let e = Expr::Binary {
                op,
                left: Box::new(left),
                right: Box::new(right),
                span: toks[pos].span,
            };
            assert(stands(toks, toks[pos].span, sign(op)));
            lemma_operators(toks, second.pos, level, e);
        }
    }
}

proof fn lemma_primary(toks: Seq<Tok>, pos: int)
    requires
        is_ended(toks, pos),
    ensures
        reads(toks, pos, grammar::primary_at(toks, pos)),
    decreases toks.len() - pos, 0int, 0int,
{
    if toks[pos].kind is LParen {
        lemma_expr(toks, pos + 1, 0);
    }
}

/// Every operator of an expression that was read is the one that is written at its
/// place in the source.
pub proof fn law_operators_are_as_written(toks: Seq<Tok>, pos: int, e: Expr<Seq<char>>)
    requires
        is_ended(toks, pos),
        grammar::expr_at(toks, pos, 0).res == Ok::<Expr<Seq<char>>, grammar::Fault>(e),
    ensures
        is_written(toks, e),
{
    lemma_expr(toks, pos, 0);
}

/// Operators that are written differently are different.
pub proof fn law_signs_differ(a: BinOp, b: BinOp)
    requires
        a != b,
    ensures
        sign(a) != sign(b),
{
    reveal_strlit("==");
    reveal_strlit("!=");
    reveal_strlit("<");
    reveal_strlit(">");
    reveal_strlit("<=");
    reveal_strlit(">=");
    reveal_strlit("and");
    reveal_strlit("or");
    reveal_strlit("+");
    reveal_strlit("-");
    reveal_strlit("*");
    reveal_strlit("/");
    assert("=="@[0] == '=' && "!="@[0] == '!' && "<"@[0] == '<' && ">"@[0] == '>');
    assert("<="@[0] == '<' && ">="@[0] == '>' && "and"@[0] == 'a' && "or"@[0] == 'o');
    assert("+"@[0] == '+' && "-"@[0] == '-' && "*"@[0] == '*' && "/"@[0] == '/');
    assert("<"@.len() == 1 && ">"@.len() == 1 && "<="@.len() == 2 && ">="@.len() == 2);
}

// ---------------------------------------------------------------------------
// Reading back
// ---------------------------------------------------------------------------

/// The token of an operator.
pub open spec fn sign_token(op: BinOp) -> TokenKind<Seq<char>> {
    match op {
        BinOp::Eq => TokenKind::EqEq,
        BinOp::Neq => TokenKind::NotEq,
        BinOp::Lt => TokenKind::Lt,
        BinOp::Gt => TokenKind::Gt,
        BinOp::LtEq => TokenKind::LtEq,
        BinOp::GtEq => TokenKind::GtEq,
        BinOp::And => TokenKind::And,
        BinOp::Or => TokenKind::Or,
        BinOp::Add => TokenKind::Plus,
        BinOp::Sub => TokenKind::Minus2,
        BinOp::Mul => TokenKind::Star,
        BinOp::Div => TokenKind::Slash,
    }
}

pub open spec fn prefix_token(op: UnOp) -> TokenKind<Seq<char>> {
    match op {
        UnOp::Not => TokenKind::Not,
        UnOp::Neg => TokenKind::Minus2,
    }
}

/// The number of tokens of an expression, every operator in brackets.
pub open spec fn expr_len(e: Expr<Seq<char>>) -> nat
    decreases e,
{
    match e {
        Expr::Var(_) => 2,
        Expr::Binary { left, right, .. } => 3 + expr_len(*left) + expr_len(*right),
        Expr::Unary { operand, .. } => 3 + expr_len(*operand),
        _ => 1,
    }
}

/// Whether the tokens from `pos` on are those of an expression, every operator in
/// brackets. There are no tokens for truth values.
pub open spec fn spells(toks: Seq<Tok>, pos: int, e: Expr<Seq<char>>) -> bool
    decreases e,
{
    0 <= pos && pos + expr_len(e) < toks.len() && match e {
        Expr::Int(n) => toks[pos].kind == TokenKind::<Seq<char>>::Integer(n),
        Expr::Float(s) => toks[pos].kind == TokenKind::Float(s),
        Expr::Str(s) => toks[pos].kind == TokenKind::String(s),
        Expr::Bool(_) => false,
        Expr::Var(s) => toks[pos].kind is Dollar && toks[pos + 1].kind == TokenKind::Ident(s),
        Expr::Binary { op, left, right, span } => {
            let p = pos + 1 + expr_len(*left);
            &&& toks[pos].kind is LParen
            &&& spells(toks, pos + 1, *left)
            &&& toks[p].kind == sign_token(op)
            &&& toks[p].span == span
            &&& spells(toks, p + 1, *right)
            &&& toks[p + 1 + expr_len(*right)].kind is RParen
        },
        Expr::Unary { op, operand, span } => {
            &&& toks[pos].kind is LParen
            &&& toks[pos + 1].kind == prefix_token(op)
            &&& toks[pos + 1].span == span
            &&& spells(toks, pos + 2, *operand)
            &&& toks[pos + 2 + expr_len(*operand)].kind is RParen
        },
    }
}

proof fn lemma_len(e: Expr<Seq<char>>)
    ensures
        expr_len(e) >= 1,
    decreases e,
{
    match e {
        Expr::Binary { left, right, .. } => {
            lemma_len(*left);
            lemma_len(*right);
        },
        Expr::Unary { operand, .. } => {
            lemma_len(*operand);
        },
        _ => {},
    }
}

/// Whether a token is no operator.
pub open spec fn is_no_sign(k: TokenKind<Seq<char>>) -> bool {
    !(k is EqEq) && !(k is NotEq) && !(k is Lt) && !(k is Gt) && !(k is LtEq) && !(k is GtEq) && !(
    k is And) && !(k is Or) && !(k is Plus) && !(k is Plus2) && !(k is Minus2) && !(k is Star) && !(
    k is Slash)
}

spec fn is_read(toks: Seq<Tok>, pos: int, level: int, e: Expr<Seq<char>>, q: int) -> bool {
    grammar::expr_at(toks, pos, level) == Step {
        res: Ok::<Expr<Seq<char>>, grammar::Fault>(e),
        pos: q,
    }
}

/// What is read at a level is read at a looser one, where no operator of the
/// levels between follows.
proof fn lemma_climb(
    toks: Seq<Tok>,
    pos: int,
    from: int,
    to: int,
    e: Expr<Seq<char>>,
    q: int,
)
    requires
        0 <= to <= from <= 6,
        0 <= pos < q < toks.len(),
        is_read(toks, pos, from, e, q),
        forall|l: int| to <= l < from ==> grammar::binop_at(l, toks[q].kind) is None,
        to <= 2 < from ==> !(toks[pos].kind is Not),
    ensures
        is_read(toks, pos, to, e, q),
    decreases from - to,
{
    if to < from {
        lemma_climb(toks, pos, from, to + 1, e, q);
        if to != 2 {
            assert(grammar::binop_at(to, toks[q].kind) is None);
            assert(grammar::operators_at(toks, q, to, e) == Step {
                res: Ok::<Expr<Seq<char>>, grammar::Fault>(e),
                pos: q,
            });
        } else {
            assert(grammar::unop_at(2, toks[pos].kind) is None);
        }
        assert(grammar::expr_at(toks, pos, to + 1).res == Ok::<Expr<Seq<char>>, grammar::Fault>(
            e,
        ));
        assert(grammar::expr_at(toks, pos, to) == Step {
            res: Ok::<Expr<Seq<char>>, grammar::Fault>(e),
            pos: q,
        });
    }
}

/// An expression in brackets, or one without operators, is read at every level.
proof fn lemma_spelled(toks: Seq<Tok>, pos: int, e: Expr<Seq<char>>)
    requires
        spells(toks, pos, e),
    ensures
        grammar::primary_at(toks, pos) == (Step {
            res: Ok::<Expr<Seq<char>>, grammar::Fault>(e),
            pos: pos + expr_len(e),
        }),
        is_read(toks, pos, 6, e, pos + expr_len(e)),
        !(toks[pos].kind is Not),
        !(toks[pos].kind is Minus2),
    decreases e,
{
    lemma_len(e);
    match e {
        Expr::Binary { op, left, right, span } => {
            lemma_len(*left);
            lemma_len(*right);
            lemma_spelled(toks, pos + 1, *left);
            let p = pos + 1 + expr_len(*left);
            lemma_spelled(toks, p + 1, *right);
            let q = p + 1 + expr_len(*right);
            lemma_binary(toks, pos + 1, op, *left, p, *right, q);
            lemma_climb(toks, pos + 1, level_of(op), 0, e, q);
        },
        Expr::Unary { op, operand, span } => {
            lemma_len(*operand);
            lemma_spelled(toks, pos + 2, *operand);
            let q = pos + 2 + expr_len(*operand);
            let level: int = if op is Not {
                2
            } else {
                6
            };
            lemma_climb(toks, pos + 2, 6, level, *operand, q);
            assert(is_read(toks, pos + 1, level, e, q));
            lemma_climb(toks, pos + 1, level, 0, e, q);
        },
        _ => {},
    }
}

/// The level at which an operator is read.
spec fn level_of(op: BinOp) -> int {
    match op {
        BinOp::Or => 0,
        BinOp::And => 1,
        BinOp::Add | BinOp::Sub => 4,
        BinOp::Mul | BinOp::Div => 5,
        _ => 3,
    }
}

proof fn lemma_levels(op: BinOp, l: int)
    ensures
        grammar::binop_at(level_of(op), sign_token(op)) == Some(op),
        l != level_of(op) ==> grammar::binop_at(l, sign_token(op)) is None,
{
}

/// An operator between two expressions that are read at the next level.
proof fn lemma_binary(
    toks: Seq<Tok>,
    pos: int,
    op: BinOp,
    left: Expr<Seq<char>>,
    p: int,
    right: Expr<Seq<char>>,
    q: int,
)
    requires
        0 <= pos < p,
        p + 1 < q < toks.len(),
        is_read(toks, pos, 6, left, p),
        is_read(toks, p + 1, 6, right, q),
        !(toks[pos].kind is Not),
        !(toks[p + 1].kind is Not),
        toks[p].kind == sign_token(op),
        forall|l: int| level_of(op) <= l < 6 ==> grammar::binop_at(l, toks[q].kind) is None,
    ensures
        is_read(
            toks,
            pos,
            level_of(op),
            Expr::Binary {
                op,
                left: Box::new(left),
                right: Box::new(right),
                span: toks[p].span,
            },
            q,
        ),
{
    let level = level_of(op);
    assert forall|l: int| level + 1 <= l < 6 implies grammar::binop_at(l, toks[p].kind) is None by {
        lemma_levels(op, l);
    }
    lemma_levels(op, level);
    lemma_climb(toks, pos, 6, level + 1, left, p);
    lemma_climb(toks, p + 1, 6, level + 1, right, q);
    lemma_then(toks, pos, op, left, p, right, q);
}

/// An operator between two expressions that are read at the next level, where no
/// operator of its level follows.
proof fn lemma_then(
    toks: Seq<Tok>,
    pos: int,
    op: BinOp,
    left: Expr<Seq<char>>,
    p: int,
    right: Expr<Seq<char>>,
    q: int,
)
    requires
        0 <= pos < p,
        p + 1 < q < toks.len(),
        is_read(toks, pos, level_of(op) + 1, left, p),
        is_read(toks, p + 1, level_of(op) + 1, right, q),
        toks[p].kind == sign_token(op),
        grammar::binop_at(level_of(op), toks[q].kind) is None,
    ensures
        is_read(
            toks,
            pos,
            level_of(op),
            Expr::Binary {
                op,
                left: Box::new(left),
                right: Box::new(right),
                span: toks[p].span,
            },
            q,
        ),
{
    let level = level_of(op);
    lemma_levels(op, level);
    let e = Expr::Binary {
        op,
        left: Box::new(left),
        right: Box::new(right),
        span: toks[p].span,
    };
    assert(grammar::operators_at(toks, q, level, e) == Step {
        res: Ok::<Expr<Seq<char>>, grammar::Fault>(e),
        pos: q,
    });
    assert(grammar::operators_at(toks, p, level, left) == grammar::operators_at(
        toks,
        q,
        level,
        e,
    ));
}

/// An expression that is written down, every operator in brackets, is read back as
/// it is.
pub proof fn law_expression_reads_back(toks: Seq<Tok>, pos: int, e: Expr<Seq<char>>)
    requires
        spells(toks, pos, e),
        is_no_sign(toks[pos + expr_len(e)].kind),
    ensures
        grammar::expr_at(toks, pos, 0) == (Step {
            res: Ok::<Expr<Seq<char>>, grammar::Fault>(e),
            pos: pos + expr_len(e),
        }),
{
    lemma_len(e);
    lemma_spelled(toks, pos, e);
    lemma_climb(toks, pos, 6, 0, e, pos + expr_len(e));
}

// ---------------------------------------------------------------------------
// Precedence
// ---------------------------------------------------------------------------

/// How tightly an operator binds: `or` least, then `and`, comparisons, sums, and
/// products most.
pub open spec fn rank(op: BinOp) -> int {
    match op {
        BinOp::Or => 1,
        BinOp::And => 2,
        BinOp::Eq | BinOp::Neq | BinOp::Lt | BinOp::Gt | BinOp::LtEq | BinOp::GtEq => 3,
        BinOp::Add | BinOp::Sub => 4,
        BinOp::Mul | BinOp::Div => 5,
    }
}

/// Of two operators without brackets the one that binds tighter is applied first,
/// and the first one where they bind alike.
pub proof fn law_precedence(
    toks: Seq<Tok>,
    pos: int,
    a: Expr<Seq<char>>,
    op1: BinOp,
    b: Expr<Seq<char>>,
    op2: BinOp,
    c: Expr<Seq<char>>,
)
    requires
        spells(toks, pos, a),
        ({
            let p = pos + expr_len(a);
            let q = p + 1 + expr_len(b);
            let end = q + 1 + expr_len(c);
            &&& toks[p].kind == sign_token(op1)
            &&& spells(toks, p + 1, b)
            &&& toks[q].kind == sign_token(op2)
            &&& spells(toks, q + 1, c)
            &&& is_no_sign(toks[end].kind)
        }),
    ensures
        ({
            let p = pos + expr_len(a);
            let q = p + 1 + expr_len(b);
            let end = q + 1 + expr_len(c);
            let (s1, s2) = (toks[p].span, toks[q].span);
            let e = if rank(op1) >= rank(op2) {
                Expr::Binary {
                    op: op2,
                    left: Box::new(
                        Expr::Binary { op: op1, left: Box::new(a), right: Box::new(b), span: s1 },
                    ),
                    right: Box::new(c),
                    span: s2,
                }
            } else {
                Expr::Binary {
                    op: op1,
                    left: Box::new(a),
                    right: Box::new(
                        Expr::Binary { op: op2, left: Box::new(b), right: Box::new(c), span: s2 },
                    ),
                    span: s1,
                }
            };
            grammar::expr_at(toks, pos, 0) == (Step {
                res: Ok::<Expr<Seq<char>>, grammar::Fault>(e),
                pos: end,
            })
        }),
{
    let p = pos + expr_len(a);
    let q = p + 1 + expr_len(b);
    let end = q + 1 + expr_len(c);
    let (s1, s2) = (toks[p].span, toks[q].span);
    lemma_len(a);
    lemma_len(b);
    lemma_len(c);
    lemma_spelled(toks, pos, a);
    lemma_spelled(toks, p + 1, b);
    lemma_spelled(toks, q + 1, c);
    let (l1, l2) = (level_of(op1), level_of(op2));
    assert forall|l: int| l != l1 implies grammar::binop_at(l, toks[p].kind) is None by {
        lemma_levels(op1, l);
    }
    assert forall|l: int| l != l2 implies grammar::binop_at(l, toks[q].kind) is None by {
        lemma_levels(op2, l);
    }
    lemma_levels(op1, l1);
    lemma_levels(op2, l2);
    let ab = Expr::Binary { op: op1, left: Box::new(a), right: Box::new(b), span: s1 };
    let bc = Expr::Binary { op: op2, left: Box::new(b), right: Box::new(c), span: s2 };
    if l1 > l2 {
        lemma_binary(toks, pos, op1, a, p, b, q);
        lemma_climb(toks, pos, l1, l2 + 1, ab, q);
        lemma_climb(toks, q + 1, 6, l2 + 1, c, end);
        lemma_then(toks, pos, op2, ab, q, c, end);
        let e = Expr::Binary { op: op2, left: Box::new(ab), right: Box::new(c), span: s2 };
        lemma_climb(toks, pos, l2, 0, e, end);
    } else if l1 < l2 {
        lemma_binary(toks, p + 1, op2, b, q, c, end);
        lemma_climb(toks, p + 1, l2, l1 + 1, bc, end);
        lemma_climb(toks, pos, 6, l1 + 1, a, p);
        lemma_then(toks, pos, op1, a, p, bc, end);
        let e = Expr::Binary { op: op1, left: Box::new(a), right: Box::new(bc), span: s1 };
        lemma_climb(toks, pos, l1, 0, e, end);
    } else {
        lemma_climb(toks, pos, 6, l1 + 1, a, p);
        lemma_climb(toks, p + 1, 6, l1 + 1, b, q);
        lemma_climb(toks, q + 1, 6, l1 + 1, c, end);
        let e = Expr::Binary { op: op2, left: Box::new(ab), right: Box::new(c), span: s2 };
        assert(grammar::operators_at(toks, end, l1, e) == Step {
            res: Ok::<Expr<Seq<char>>, grammar::Fault>(e),
            pos: end,
        });
        assert(grammar::operators_at(toks, q, l1, ab) == grammar::operators_at(toks, end, l1, e));
        assert(grammar::operators_at(toks, p, l1, a) == grammar::operators_at(toks, q, l1, ab));
        lemma_climb(toks, pos, l1, 0, e, end);
    }
}

/// A minus sign binds tighter than every operator behind it; `not` binds tighter
/// than `and` and `or`, and looser than the others.
pub proof fn law_prefix_precedence(
    toks: Seq<Tok>,
    pos: int,
    prefix: UnOp,
    a: Expr<Seq<char>>,
    op: BinOp,
    b: Expr<Seq<char>>,
)
    requires
        0 <= pos,
        toks[pos].kind == prefix_token(prefix),
        spells(toks, pos + 1, a),
        ({
            let p = pos + 1 + expr_len(a);
            &&& toks[p].kind == sign_token(op)
            &&& spells(toks, p + 1, b)
            &&& is_no_sign(toks[p + 1 + expr_len(b)].kind)
        }),
    ensures
        ({
            let p = pos + 1 + expr_len(a);
            let end = p + 1 + expr_len(b);
            let (s1, s2) = (toks[pos].span, toks[p].span);
            let e = if prefix is Neg || rank(op) <= 2 {
                Expr::Binary {
                    op,
                    left: Box::new(Expr::Unary { op: prefix, operand: Box::new(a), span: s1 }),
                    right: Box::new(b),
                    span: s2,
                }
            } else {
                Expr::Unary {
                    op: prefix,
                    operand: Box::new(
                        Expr::Binary { op, left: Box::new(a), right: Box::new(b), span: s2 },
                    ),
                    span: s1,
                }
            };
            grammar::expr_at(toks, pos, 0) == (Step {
                res: Ok::<Expr<Seq<char>>, grammar::Fault>(e),
                pos: end,
            })
        }),
{
    let p = pos + 1 + expr_len(a);
    let end = p + 1 + expr_len(b);
    let (s1, s2) = (toks[pos].span, toks[p].span);
    lemma_len(a);
    lemma_len(b);
    lemma_spelled(toks, pos + 1, a);
    lemma_spelled(toks, p + 1, b);
    let l = level_of(op);
    assert forall|x: int| x != l implies grammar::binop_at(x, toks[p].kind) is None by {
        lemma_levels(op, x);
    }
    lemma_levels(op, l);
    let u = Expr::Unary { op: prefix, operand: Box::new(a), span: s1 };
    if prefix is Neg {
        assert(is_read(toks, pos, 6, u, p));
        lemma_binary(toks, pos, op, u, p, b, end);
        let e = Expr::Binary { op, left: Box::new(u), right: Box::new(b), span: s2 };
        lemma_climb(toks, pos, l, 0, e, end);
    } else if rank(op) <= 2 {
        lemma_climb(toks, pos + 1, 6, 2, a, p);
        assert(is_read(toks, pos, 2, u, p));
        lemma_climb(toks, pos, 2, l + 1, u, p);
        lemma_climb(toks, p + 1, 6, l + 1, b, end);
        lemma_then(toks, pos, op, u, p, b, end);
        let e = Expr::Binary { op, left: Box::new(u), right: Box::new(b), span: s2 };
        lemma_climb(toks, pos, l, 0, e, end);
    } else {
        let ab = Expr::Binary { op, left: Box::new(a), right: Box::new(b), span: s2 };
        lemma_binary(toks, pos + 1, op, a, p, b, end);
        lemma_climb(toks, pos + 1, l, 2, ab, end);
        let e = Expr::Unary { op: prefix, operand: Box::new(ab), span: s1 };
        assert(is_read(toks, pos, 2, e, end));
        lemma_climb(toks, pos, 2, 0, e, end);
    }
}

} // verus!
