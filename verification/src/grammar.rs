//! The grammar of the script language, over sequences of tokens.
//!
//! Each rule says what it makes of the tokens from a position on: a result or
//! an error, the position where it stops, and, for the rules that go on behind
//! an error, the errors recorded on the way.

use crate::ast;
use crate::ast::{
    BinOp, ChoiceOptionView, DirectionAction, DirectionKind, Expr, NodeView, Number, Position,
    ProgramView, SectionView, Transition, UnOp, VarOpKind,
};
use crate::parser::ParseError;
use crate::text;
use crate::token;
use crate::token::{Token, TokenKind};
use vstd::prelude::*;

verus! {

/// A token of the model.
pub type Tok = Token<Seq<char>>;

/// An error of the model.
pub type Fault = ParseError<Seq<char>>;

// ---------------------------------------------------------------------------
// Grammar: single tokens
// ---------------------------------------------------------------------------

/// What a parser makes of the tokens from some position on, and where it stops.
pub struct Step<T> {
    pub res: Result<T, Fault>,
    pub pos: int,
}

pub open spec fn in_range(toks: Seq<Tok>, pos: int) -> bool {
    0 <= pos < toks.len()
}

/// A position that a parser reached. Parsers move forward within the tokens,
/// so the bounds change nothing; they show that the grammar is well-founded.
pub open spec fn reached(pos: int, lo: int, hi: int) -> int {
    if lo <= pos <= hi {
        pos
    } else {
        hi
    }
}

/// Failure at `pos`.
pub open spec fn fail<T>(toks: Seq<Tok>, pos: int, message: Seq<char>, hint: Option<Seq<char>>) -> Step<T> {
    Step { res: Err(ParseError { message, span: toks[pos].span, hint }), pos }
}

/// The message that something else was expected at `pos`.
pub open spec fn expected(toks: Seq<Tok>, pos: int, what: Seq<char>) -> Seq<char> {
    "expected "@ + what + ", found "@ + token::kind_text(toks[pos].kind)
}

/// A word at `pos`.
pub open spec fn ident_at(toks: Seq<Tok>, pos: int, what: Seq<char>) -> Step<Seq<char>> {
    match toks[pos].kind {
        TokenKind::Ident(s) => Step { res: Ok(s), pos: pos + 1 },
        _ => fail(toks, pos, expected(toks, pos, what), None),
    }
}

/// A quoted text at `pos`.
pub open spec fn string_at(toks: Seq<Tok>, pos: int, what: Seq<char>) -> Step<Seq<char>> {
    match toks[pos].kind {
        TokenKind::String(s) => Step { res: Ok(s), pos: pos + 1 },
        _ => fail(
            toks,
            pos,
            expected(toks, pos, what + " (quoted string)"@),
            Some("strings must be in double quotes"@),
        ),
    }
}

/// A mark at `pos`, which is there if `here`.
pub open spec fn mark_at(toks: Seq<Tok>, pos: int, here: bool, what: Seq<char>) -> Step<()> {
    if here {
        Step { res: Ok(()), pos: pos + 1 }
    } else {
        fail(toks, pos, expected(toks, pos, what), None)
    }
}

/// Behind one line end, if there is one.
pub open spec fn past_newline(toks: Seq<Tok>, pos: int) -> int {
    if in_range(toks, pos) && toks[pos].kind is Newline {
        pos + 1
    } else {
        pos
    }
}

/// Behind all line ends.
pub open spec fn past_newlines(toks: Seq<Tok>, pos: int) -> int
    decreases toks.len() - pos,
{
    if in_range(toks, pos) && toks[pos].kind is Newline {
        past_newlines(toks, pos + 1)
    } else {
        pos
    }
}

/// The next section header, or the end.
pub open spec fn next_section(toks: Seq<Tok>, pos: int) -> int
    decreases toks.len() - pos,
{
    if in_range(toks, pos) && !(toks[pos].kind is Eof) && !(toks[pos].kind is SectionMark) {
        next_section(toks, pos + 1)
    } else {
        pos
    }
}

/// The next place where parsing may resume within a section.
pub open spec fn next_resume(toks: Seq<Tok>, pos: int) -> int
    decreases toks.len() - pos,
{
    if in_range(toks, pos) && !(toks[pos].kind is Eof) && !(toks[pos].kind is SectionMark)
        && !(toks[pos].kind is Question) && !(toks[pos].kind is End) {
        next_resume(toks, pos + 1)
    } else {
        pos
    }
}

/// Where a section goes on after a node that started at `start` failed at
/// `pos`: at the next place to resume, and never again at the failed node.
pub open spec fn resume_after(toks: Seq<Tok>, start: int, pos: int) -> int {
    let next = next_resume(toks, pos);
    if next <= start {
        start + 1
    } else {
        next
    }
}

// ---------------------------------------------------------------------------
// Grammar: expressions
// ---------------------------------------------------------------------------

/// The binary operators by level, loosest first: `or`, `and`, comparisons,
/// sums, products. Levels 2 and 6 are the prefix operators `not` and `-`.
pub open spec fn binop_at(level: int, k: TokenKind<Seq<char>>) -> Option<BinOp> {
    if level == 0 {
        match k {
            TokenKind::Or => Some(BinOp::Or),
            _ => None,
        }
    } else if level == 1 {
        match k {
            TokenKind::And => Some(BinOp::And),
            _ => None,
        }
    } else if level == 3 {
        match k {
            TokenKind::EqEq => Some(BinOp::Eq),
            TokenKind::NotEq => Some(BinOp::Neq),
            TokenKind::Lt => Some(BinOp::Lt),
            TokenKind::Gt => Some(BinOp::Gt),
            TokenKind::LtEq => Some(BinOp::LtEq),
            TokenKind::GtEq => Some(BinOp::GtEq),
            _ => None,
        }
    } else if level == 4 {
        match k {
            TokenKind::Plus | TokenKind::Plus2 => Some(BinOp::Add),
            TokenKind::Minus2 => Some(BinOp::Sub),
            _ => None,
        }
    } else if level == 5 {
        match k {
            TokenKind::Star => Some(BinOp::Mul),
            TokenKind::Slash => Some(BinOp::Div),
            _ => None,
        }
    } else {
        None
    }
}

/// The prefix operator of a level.
pub open spec fn unop_at(level: int, k: TokenKind<Seq<char>>) -> Option<UnOp> {
    if level == 2 && k is Not {
        Some(UnOp::Not)
    } else if level == 6 && k is Minus2 {
        Some(UnOp::Neg)
    } else {
        None
    }
}

/// The expression of the given level that starts at `pos`.
pub open spec fn expr_at(toks: Seq<Tok>, pos: int, level: int) -> Step<Expr<Seq<char>>>
    decreases toks.len() - pos, 7 - level, 1int,
{
    if !in_range(toks, pos) || level < 0 || level > 6 {
        arbitrary()
    } else if level == 2 || level == 6 {
        match unop_at(level, toks[pos].kind) {
            Some(op) => {
                let inner = expr_at(toks, pos + 1, level);
                match inner.res {
                    Ok(e) => Step {
                        res: Ok(
                            Expr::Unary { op, operand: Box::new(e), span: toks[pos].span },
                        ),
                        pos: inner.pos,
                    },
                    Err(_) => inner,
                }
            },
            None => if level == 2 {
                expr_at(toks, pos, 3)
            } else {
                primary_at(toks, pos)
            },
        }
    } else {
        let first = expr_at(toks, pos, level + 1);
        match first.res {
            Ok(left) => operators_at(toks, reached(first.pos, pos, toks.len() as int), level, left),
            Err(_) => first,
        }
    }
}

/// The operators of the given level from `pos` on, applied from the left.
pub open spec fn operators_at(
    toks: Seq<Tok>,
    pos: int,
    level: int,
    left: Expr<Seq<char>>,
) -> Step<Expr<Seq<char>>>
    decreases toks.len() - pos, 7 - level, 0int,
{
    if !in_range(toks, pos) || level < 0 || level > 6 {
        arbitrary()
    } else {
        match binop_at(level, toks[pos].kind) {
            Some(op) => {
                let second = expr_at(toks, pos + 1, level + 1);
                match second.res {
                    Ok(right) => operators_at(
                        toks,
                        reached(second.pos, pos + 1, toks.len() as int),
                        level,
                        Expr::Binary {
                            op,
                            left: Box::new(left),
                            right: Box::new(right),
                            span: toks[pos].span,
                        },
                    ),
                    Err(_) => second,
                }
            },
            None => Step { res: Ok(left), pos },
        }
    }
}

/// A literal, a variable or an expression in brackets.
pub open spec fn primary_at(toks: Seq<Tok>, pos: int) -> Step<Expr<Seq<char>>>
    decreases toks.len() - pos, 0int, 0int,
{
    if !in_range(toks, pos) {
        arbitrary()
    } else {
        match toks[pos].kind {
            TokenKind::Integer(n) => Step { res: Ok(Expr::Int(n)), pos: pos + 1 },
            TokenKind::Float(s) => Step { res: Ok(Expr::Float(s)), pos: pos + 1 },
            TokenKind::String(s) => Step { res: Ok(Expr::Str(s)), pos: pos + 1 },
            TokenKind::Dollar => {
                let name = ident_at(toks, pos + 1, "variable name"@);
                match name.res {
                    Ok(s) => Step { res: Ok(Expr::Var(s)), pos: name.pos },
                    Err(f) => Step { res: Err(f), pos: name.pos },
                }
            },
            TokenKind::LParen => {
                let inner = expr_at(toks, pos + 1, 0);
                match inner.res {
                    Ok(e) => {
                        let close = mark_at(
                            toks,
                            inner.pos,
                            toks[inner.pos].kind is RParen,
                            ")"@,
                        );
                        match close.res {
                            Ok(_) => Step { res: Ok(e), pos: close.pos },
                            Err(f) => Step { res: Err(f), pos: close.pos },
                        }
                    },
                    Err(_) => inner,
                }
            },
            _ => fail(
                toks,
                pos,
                "expected expression, found "@ + token::kind_text(toks[pos].kind),
                Some("expressions: numbers, strings, $variables, or (expr)"@),
            ),
        }
    }
}

// ---------------------------------------------------------------------------
// Grammar: nodes without a body
// ---------------------------------------------------------------------------

/// What a rule makes of the tokens, with the errors recorded on the way.
pub struct Parsed<T> {
    pub res: Result<T, Fault>,
    pub pos: int,
    pub errs: Seq<Fault>,
}

/// A rule that records no errors.
pub open spec fn quiet<T>(s: Step<T>) -> Parsed<T> {
    Parsed { res: s.res, pos: s.pos, errs: Seq::empty() }
}

/// Failure that was reported by a part.
pub open spec fn failed<T>(f: Fault, pos: int) -> Step<T> {
    Step { res: Err(f), pos }
}

pub open spec fn narration_at(toks: Seq<Tok>, pos: int) -> Step<NodeView> {
    let text = string_at(toks, pos, "narration text"@);
    match text.res {
        Ok(t) => Step {
            res: Ok(NodeView::Narration { text: t, span: toks[pos].span }),
            pos: past_newline(toks, text.pos),
        },
        Err(f) => failed(f, text.pos),
    }
}

/// An optional name in brackets at `pos`.
pub open spec fn pose_at(toks: Seq<Tok>, pos: int, what: Seq<char>) -> Step<Option<Seq<char>>> {
    if toks[pos].kind is LParen {
        let name = ident_at(toks, pos + 1, what);
        match name.res {
            Ok(p) => {
                let close = mark_at(toks, name.pos, toks[name.pos].kind is RParen, ")"@);
                match close.res {
                    Ok(_) => Step { res: Ok(Some(p)), pos: close.pos },
                    Err(f) => failed(f, close.pos),
                }
            },
            Err(f) => failed(f, name.pos),
        }
    } else {
        Step { res: Ok(None), pos }
    }
}

pub open spec fn dialogue_at(toks: Seq<Tok>, pos: int) -> Step<NodeView> {
    let speaker = ident_at(toks, pos, "speaker name"@);
    match speaker.res {
        Err(f) => failed(f, speaker.pos),
        Ok(who) => {
            let pose = pose_at(toks, speaker.pos, "pose name"@);
            match pose.res {
                Err(f) => failed(f, pose.pos),
                Ok(how) => {
                    let colon = mark_at(toks, pose.pos, toks[pose.pos].kind is Colon, ":"@);
                    match colon.res {
                        Err(f) => failed(f, colon.pos),
                        Ok(_) => {
                            let text = string_at(toks, colon.pos, "dialogue text"@);
                            match text.res {
                                Err(f) => failed(f, text.pos),
                                Ok(t) => Step {
                                    res: Ok(
                                        NodeView::Dialogue {
                                            speaker: who,
                                            pose: how,
                                            text: t,
                                            span: toks[pos].span,
                                        },
                                    ),
                                    pos: past_newline(toks, text.pos),
                                },
                            }
                        },
                    }
                },
            }
        },
    }
}

/// Whether the token is the word `w`.
pub open spec fn is_word(k: TokenKind<Seq<char>>, w: Seq<char>) -> bool {
    k matches TokenKind::Ident(s) && s == w
}

/// The words and texts from `pos` on, up to anything else or the word `with`.
pub open spec fn args_at(toks: Seq<Tok>, pos: int, args: Seq<Seq<char>>) -> (Seq<Seq<char>>, int)
    decreases toks.len() - pos,
{
    if !in_range(toks, pos) || is_word(toks[pos].kind, "with"@) {
        (args, pos)
    } else {
        match toks[pos].kind {
            TokenKind::Ident(s) => args_at(toks, pos + 1, args.push(s)),
            TokenKind::String(s) => args_at(toks, pos + 1, args.push(s)),
            _ => (args, pos),
        }
    }
}

/// The name of a transition at `pos`.
pub open spec fn transition_at(toks: Seq<Tok>, pos: int, hint: Seq<char>) -> Step<Transition> {
    let name = ident_at(toks, pos, "transition name"@);
    match name.res {
        Err(f) => failed(f, name.pos),
        Ok(t) => match ast::transition_named(t) {
            Some(x) => Step { res: Ok(x), pos: name.pos },
            None => fail(
                toks,
                name.pos,
                "unknown transition: '"@ + t + "'"@,
                Some(hint),
            ),
        },
    }
}

pub open spec fn command_at(toks: Seq<Tok>, pos: int) -> Step<NodeView> {
    let name = ident_at(toks, pos + 1, "command name"@);
    match name.res {
        Err(f) => failed(f, name.pos),
        Ok(cmd) => {
            let (args, p) = args_at(toks, name.pos, Seq::empty());
            if is_word(toks[p].kind, "with"@) {
                let t = transition_at(
                    toks,
                    p + 1,
                    "valid: fade, fade_black, fade_white, slide_left, slide_right, slide_up, slide_down, dissolve, wipe_left, wipe_right, blur, instant"@,
                );
                match t.res {
                    Err(f) => failed(f, t.pos),
                    Ok(x) => Step {
                        res: Ok(
                            NodeView::Command {
                                cmd,
                                args,
                                transition: Some(x),
                                span: toks[pos].span,
                            },
                        ),
                        pos: past_newline(toks, t.pos),
                    },
                }
            } else {
                Step {
                    res: Ok(
                        NodeView::Command { cmd, args, transition: None, span: toks[pos].span },
                    ),
                    pos: past_newline(toks, p),
                }
            }
        },
    }
}

/// The position that a word gives as a number: of the words, `inf`, `infinity`
/// and `nan` read as numbers, in any case.
pub open spec fn position_number(s: Seq<char>) -> Option<Position<Seq<char>>> {
    if text::lowered(s) == "inf"@ || text::lowered(s) == "infinity"@ || text::lowered(s)
        == "nan"@ {
        Some(Position::Custom(Number::Decimal(s)))
    } else {
        None
    }
}

/// The position of a word, by name or as a number.
pub open spec fn position_of(s: Seq<char>) -> Option<Position<Seq<char>>> {
    match ast::position_named(s) {
        Some(p) => Some(p),
        None => position_number(s),
    }
}

/// The number that a token is.
pub open spec fn number_of(k: TokenKind<Seq<char>>) -> Option<Number<Seq<char>>> {
    match k {
        TokenKind::Integer(n) => Some(Number::Int(n)),
        TokenKind::Float(s) => Some(Number::Decimal(s)),
        _ => None,
    }
}

/// `x` or `x,y` from `pos` on: what the direction is then, and the position
/// behind it.
pub open spec fn spot_at(
    toks: Seq<Tok>,
    pos: int,
    x: Number<Seq<char>>,
    d: DirectionAction<Seq<char>>,
) -> (DirectionAction<Seq<char>>, int) {
    let e = DirectionAction { position: Some(Position::Custom(x)), ..d };
    if in_range(toks, pos + 2) && toks[pos + 1].kind is Comma && number_of(
        toks[pos + 2].kind,
    ) is Some {
        (DirectionAction { y: number_of(toks[pos + 2].kind), ..e }, pos + 3)
    } else {
        (e, pos + 1)
    }
}

pub open spec fn is_exit_word(s: Seq<char>) -> bool {
    s == "exits"@ || s == "exit"@ || s == "leaves"@ || s == "leave"@
}

pub open spec fn is_place_word(s: Seq<char>) -> bool {
    s == "from"@ || s == "to"@ || s == "at"@
}

/// The words of a direction from `pos` on, after `d` was read.
pub open spec fn direction_words(toks: Seq<Tok>, pos: int, d: DirectionAction<Seq<char>>) -> Step<
    DirectionAction<Seq<char>>,
>
    decreases toks.len() - pos,
{
    if !in_range(toks, pos) {
        arbitrary()
    } else {
        match toks[pos].kind {
            TokenKind::Ident(s) => if s == "enters"@ || s == "enter"@ {
                direction_words(toks, pos + 1, d)
            } else if is_exit_word(s) {
                direction_words(
                    toks,
                    pos + 1,
                    DirectionAction { kind: DirectionKind::Exit, ..d },
                )
            } else if is_place_word(s) {
                if in_range(toks, pos + 1) && toks[pos + 1].kind is Ident {
                    let name = toks[pos + 1].kind->Ident_0;
                    if position_of(name) is Some {
                        direction_words(
                            toks,
                            pos + 2,
                            DirectionAction { position: position_of(name), ..d },
                        )
                    } else {
                        fail(
                            toks,
                            pos + 2,
                            "unknown position: '"@ + name + "'"@,
                            Some("use 'left'/'居左', 'center'/'居中', 'right'/'居右', or a number"@),
                        )
                    }
                } else {
                    direction_words(toks, pos + 1, d)
                }
            } else if s == "size"@ {
                if in_range(toks, pos + 1) && number_of(toks[pos + 1].kind) is Some {
                    direction_words(
                        toks,
                        pos + 2,
                        DirectionAction { size: number_of(toks[pos + 1].kind), ..d },
                    )
                } else {
                    direction_words(toks, pos + 1, d)
                }
            } else if s == "with"@ {
                let t = transition_at(toks, pos + 1, "valid: fade, dissolve, slide_left, etc."@);
                match t.res {
                    Err(f) => failed(f, t.pos),
                    Ok(x) => direction_words(
                        toks,
                        reached(t.pos, pos + 1, toks.len() as int),
                        DirectionAction { transition: Some(x), ..d },
                    ),
                }
            } else if position_of(s) is Some {
                direction_words(
                    toks,
                    pos + 1,
                    DirectionAction { position: position_of(s), ..d },
                )
            } else {
                direction_words(toks, pos + 1, d)
            },
            k => match number_of(k) {
                Some(x) => {
                    let (e, next) = spot_at(toks, pos, x, d);
                    direction_words(toks, next, e)
                },
                None => Step { res: Ok(d), pos },
            },
        }
    }
}

/// `+ Character [(pose)] [enters|exits] [position] [size n] [with transition]`
pub open spec fn direction_at(toks: Seq<Tok>, pos: int) -> Step<NodeView> {
    let name = ident_at(toks, past_newlines(toks, pos + 1), "character name"@);
    match name.res {
        Err(f) => failed(f, name.pos),
        Ok(character) => {
            let pose = pose_at(toks, name.pos, "pose/sprite name"@);
            match pose.res {
                Err(f) => failed(f, pose.pos),
                Ok(p) => {
                    let words = direction_words(
                        toks,
                        pose.pos,
                        DirectionAction {
                            kind: DirectionKind::Enter,
                            character,
                            pose: p,
                            position: None,
                            y: None,
                            size: None,
                            transition: None,
                        },
                    );
                    match words.res {
                        Err(f) => failed(f, words.pos),
                        Ok(action) => Step {
                            res: Ok(NodeView::Direction { action, span: toks[pos].span }),
                            pos: past_newline(toks, words.pos),
                        },
                    }
                },
            }
        },
    }
}

/// The words of an exit from `pos` on, after the transition `t` was read.
pub open spec fn exit_words(toks: Seq<Tok>, pos: int, t: Option<Transition>) -> Step<
    Option<Transition>,
>
    decreases toks.len() - pos,
{
    if !in_range(toks, pos) {
        arbitrary()
    } else if is_word(toks[pos].kind, "with"@) {
        let u = transition_at(toks, pos + 1, "valid: fade, dissolve, slide_left, etc."@);
        match u.res {
            Err(f) => failed(f, u.pos),
            Ok(x) => exit_words(toks, reached(u.pos, pos + 1, toks.len() as int), Some(x)),
        }
    } else if toks[pos].kind is Ident {
        exit_words(toks, pos + 1, t)
    } else {
        Step { res: Ok(t), pos }
    }
}

/// `- Character [exits] [with transition]`
pub open spec fn exit_at(toks: Seq<Tok>, pos: int) -> Step<NodeView> {
    let name = ident_at(toks, past_newlines(toks, pos + 1), "character name"@);
    match name.res {
        Err(f) => failed(f, name.pos),
        Ok(character) => {
            let words = exit_words(toks, name.pos, None);
            match words.res {
                Err(f) => failed(f, words.pos),
                Ok(transition) => Step {
                    res: Ok(
                        NodeView::Direction {
                            action: DirectionAction {
                                kind: DirectionKind::Exit,
                                character,
                                pose: None,
                                position: None,
                                y: None,
                                size: None,
                                transition,
                            },
                            span: toks[pos].span,
                        },
                    ),
                    pos: past_newline(toks, words.pos),
                },
            }
        },
    }
}

/// The operator of a variable operation.
pub open spec fn varop_kind(k: TokenKind<Seq<char>>) -> Option<VarOpKind> {
    match k {
        TokenKind::Assign => Some(VarOpKind::Assign),
        TokenKind::PlusEq => Some(VarOpKind::PlusEq),
        TokenKind::MinusEq => Some(VarOpKind::MinusEq),
        _ => None,
    }
}

pub open spec fn varop_at(toks: Seq<Tok>, pos: int) -> Step<NodeView> {
    let var = ident_at(toks, pos + 1, "variable name"@);
    match var.res {
        Err(f) => failed(f, var.pos),
        Ok(name) => match varop_kind(toks[var.pos].kind) {
            None => fail(
                toks,
                var.pos,
                expected(toks, var.pos, "=, +=, or -="@),
                Some("use $var = value, $var += value, or $var -= value"@),
            ),
            Some(op) => {
                let value = expr_at(toks, var.pos + 1, 0);
                match value.res {
                    Err(f) => failed(f, value.pos),
                    Ok(expr) => Step {
                        res: Ok(NodeView::VarOp { name, op, expr, span: toks[pos].span }),
                        pos: past_newline(toks, value.pos),
                    },
                }
            },
        },
    }
}

/// The target of a jump at `pos`, and the position behind its line.
pub open spec fn target_at(toks: Seq<Tok>, pos: int) -> Step<Seq<char>> {
    let target = ident_at(toks, pos + 1, "section name"@);
    match target.res {
        Err(f) => failed(f, target.pos),
        Ok(name) => Step { res: Ok(name), pos: past_newline(toks, target.pos) },
    }
}

pub open spec fn flow_at(toks: Seq<Tok>, pos: int) -> Step<NodeView> {
    let t = target_at(toks, pos);
    match t.res {
        Err(f) => failed(f, t.pos),
        Ok(target) => Step {
            res: Ok(NodeView::Flow { target, span: toks[pos].span }),
            pos: t.pos,
        },
    }
}

pub open spec fn visit_at(toks: Seq<Tok>, pos: int) -> Step<NodeView> {
    let t = target_at(toks, pos);
    match t.res {
        Err(f) => failed(f, t.pos),
        Ok(target) => Step {
            res: Ok(NodeView::Visit { target, span: toks[pos].span }),
            pos: t.pos,
        },
    }
}

pub open spec fn wait_at(toks: Seq<Tok>, pos: int) -> Step<NodeView> {
    match number_of(toks[pos + 1].kind) {
        Some(seconds) => Step {
            res: Ok(NodeView::Wait { seconds, span: toks[pos].span }),
            pos: past_newline(toks, pos + 2),
        },
        None => fail(
            toks,
            pos + 1,
            "expected a number after 'wait'"@,
            Some("use 'wait 2.0' for 2 seconds"@),
        ),
    }
}

// ---------------------------------------------------------------------------
// Grammar: nodes with a body
// ---------------------------------------------------------------------------

/// What ends a body.
pub enum Stop {
    /// The next option, or the end of the choice.
    Option,
    /// `else` or `end`.
    Branch,
    /// `end`.
    Else,
}

pub open spec fn stops(stop: Stop, k: TokenKind<Seq<char>>) -> bool {
    match stop {
        Stop::Option => k is Pipe || k is Question,
        Stop::Branch => k is Else || k is End,
        Stop::Else => k is End,
    }
}

/// The node that starts at `pos`.
pub open spec fn node_at(toks: Seq<Tok>, pos: int) -> Parsed<NodeView>
    decreases toks.len() - pos, 2int,
{
    if !in_range(toks, pos) {
        arbitrary()
    } else {
        match toks[pos].kind {
            TokenKind::SectionMark => quiet(
                fail(
                    toks,
                    pos,
                    "unexpected section header"@,
                    Some("close the current section before starting a new one"@),
                ),
            ),
            TokenKind::String(_) => quiet(narration_at(toks, pos)),
            TokenKind::Ident(_) => quiet(dialogue_at(toks, pos)),
            TokenKind::At => quiet(command_at(toks, pos)),
            TokenKind::Plus => quiet(direction_at(toks, pos)),
            TokenKind::Minus2 => quiet(exit_at(toks, pos)),
            TokenKind::Dollar => quiet(varop_at(toks, pos)),
            TokenKind::Question => choice_at(toks, pos),
            TokenKind::If => conditional_at(toks, pos),
            TokenKind::FlowArrow => quiet(flow_at(toks, pos)),
            TokenKind::VisitArrow => quiet(visit_at(toks, pos)),
            TokenKind::LtEq => quiet(
                Step {
                    res: Ok(NodeView::Return { span: toks[pos].span }),
                    pos: past_newline(toks, pos + 1),
                },
            ),
            TokenKind::StoryEnd => quiet(
                Step {
                    res: Ok(NodeView::StoryEnd { span: toks[pos].span }),
                    pos: past_newline(toks, pos + 1),
                },
            ),
            TokenKind::Wait => quiet(wait_at(toks, pos)),
            _ => quiet(
                fail(
                    toks,
                    pos,
                    "unexpected token: "@ + token::kind_text(toks[pos].kind),
                    Some(
                        "expected dialogue, narration, @command, +enter, -exit, $var, ?, if, ->, =>, <=, ~~, or wait"@,
                    ),
                ),
            ),
        }
    }
}

/// The nodes from `pos` on, up to what ends the body or the first error.
pub open spec fn body_at(
    toks: Seq<Tok>,
    pos: int,
    stop: Stop,
    nodes: Seq<NodeView>,
    errs: Seq<Fault>,
) -> (Seq<NodeView>, int, Seq<Fault>)
    decreases toks.len() - pos, 3int,
{
    if !in_range(toks, pos) || toks[pos].kind is Eof || stops(stop, toks[pos].kind) {
        (nodes, pos, errs)
    } else {
        let n = node_at(toks, pos);
        match n.res {
            Ok(node) => body_at(
                toks,
                reached(past_newlines(toks, n.pos), pos + 1, toks.len() as int),
                stop,
                nodes.push(node),
                errs + n.errs,
            ),
            Err(f) => (nodes, n.pos, (errs + n.errs).push(f)),
        }
    }
}

/// The condition of an option, where there is one.
pub open spec fn option_condition(toks: Seq<Tok>, pos: int) -> Step<Option<Expr<Seq<char>>>> {
    if toks[pos].kind is If {
        let c = expr_at(toks, pos + 1, 0);
        match c.res {
            Ok(e) => Step { res: Ok(Some(e)), pos: c.pos },
            Err(f) => failed(f, c.pos),
        }
    } else {
        Step { res: Ok(None), pos }
    }
}

/// The options from `pos` on: `| "text" [if expr]` and a body each.
pub open spec fn options_at(
    toks: Seq<Tok>,
    pos: int,
    options: Seq<ChoiceOptionView>,
    errs: Seq<Fault>,
) -> Parsed<Seq<ChoiceOptionView>>
    decreases toks.len() - pos, 0int,
{
    if !in_range(toks, pos) || !(toks[pos].kind is Pipe) {
        Parsed { res: Ok(options), pos, errs }
    } else {
        let text = string_at(toks, pos + 1, "choice text"@);
        match text.res {
            Err(f) => Parsed { res: Err(f), pos: text.pos, errs },
            Ok(t) => {
                let cond = option_condition(toks, text.pos);
                match cond.res {
                    Err(f) => Parsed { res: Err(f), pos: cond.pos, errs },
                    Ok(condition) => {
                        let start = past_newlines(toks, past_newline(toks, cond.pos));
                        let (body, p, e) = body_at(
                            toks,
                            reached(start, pos + 1, toks.len() as int),
                            Stop::Option,
                            Seq::empty(),
                            Seq::empty(),
                        );
                        options_at(
                            toks,
                            reached(p, pos + 1, toks.len() as int),
                            options.push(
                                ChoiceOptionView { text: t, condition, body, span: toks[pos].span },
                            ),
                            errs + e,
                        )
                    },
                }
            },
        }
    }
}

/// The prompt of a choice, where there is one.
pub open spec fn prompt_at(toks: Seq<Tok>, pos: int) -> (Option<Seq<char>>, int) {
    match toks[pos].kind {
        TokenKind::String(s) => (Some(s), pos + 1),
        _ => (None, pos),
    }
}

pub open spec fn choice_at(toks: Seq<Tok>, pos: int) -> Parsed<NodeView>
    decreases toks.len() - pos, 1int,
{
    if !in_range(toks, pos) {
        arbitrary()
    } else {
        let (prompt, p) = prompt_at(toks, pos + 1);
        let first = past_newlines(toks, past_newline(toks, p));
        let options = options_at(
            toks,
            reached(first, pos + 1, toks.len() as int),
            Seq::empty(),
            Seq::empty(),
        );
        match options.res {
            Err(f) => Parsed { res: Err(f), pos: options.pos, errs: options.errs },
            Ok(opts) => {
                let close = mark_at(
                    toks,
                    options.pos,
                    toks[options.pos].kind is Question,
                    "? (to close choice block)"@,
                );
                match close.res {
                    Err(f) => Parsed { res: Err(f), pos: close.pos, errs: options.errs },
                    Ok(_) => Parsed {
                        res: Ok(
                            NodeView::Choice { prompt, options: opts, span: toks[pos].span },
                        ),
                        pos: past_newline(toks, close.pos),
                        errs: options.errs,
                    },
                }
            },
        }
    }
}

/// The `else` branch at `pos`, where there is one.
pub open spec fn else_at(toks: Seq<Tok>, pos: int) -> (Option<Seq<NodeView>>, int, Seq<Fault>)
    decreases toks.len() - pos, 4int,
{
    if in_range(toks, pos) && toks[pos].kind is Else {
        let start = past_newlines(toks, past_newline(toks, pos + 1));
        let (body, p, e) = body_at(
            toks,
            reached(start, pos + 1, toks.len() as int),
            Stop::Else,
            Seq::empty(),
            Seq::empty(),
        );
        (Some(body), p, e)
    } else {
        (None, pos, Seq::empty())
    }
}

pub open spec fn conditional_at(toks: Seq<Tok>, pos: int) -> Parsed<NodeView>
    decreases toks.len() - pos, 1int,
{
    if !in_range(toks, pos) {
        arbitrary()
    } else {
        let cond = expr_at(toks, pos + 1, 0);
        match cond.res {
            Err(f) => Parsed { res: Err(f), pos: cond.pos, errs: Seq::empty() },
            Ok(c) => {
                let start = past_newlines(toks, past_newline(toks, cond.pos));
                let (body, p, e) = body_at(
                    toks,
                    reached(start, pos + 1, toks.len() as int),
                    Stop::Branch,
                    Seq::empty(),
                    Seq::empty(),
                );
                let (other, q, e2) = else_at(toks, reached(p, pos + 1, toks.len() as int));
                let close = mark_at(toks, q, toks[q].kind is End, "end"@);
                match close.res {
                    Err(f) => Parsed { res: Err(f), pos: close.pos, errs: e + e2 },
                    Ok(_) => Parsed {
                        res: Ok(
                            NodeView::Conditional {
                                branches: seq![(c, body)],
                                else_branch: other,
                                span: toks[pos].span,
                            },
                        ),
                        pos: past_newline(toks, close.pos),
                        errs: e + e2,
                    },
                }
            },
        }
    }
}

// ---------------------------------------------------------------------------
// Grammar: sections and programs
// ---------------------------------------------------------------------------

/// The nodes of a section from `pos` on; a node that fails is recorded and
/// skipped.
pub open spec fn section_body(
    toks: Seq<Tok>,
    pos: int,
    nodes: Seq<NodeView>,
    errs: Seq<Fault>,
) -> (Seq<NodeView>, int, Seq<Fault>)
    decreases toks.len() - pos,
{
    if !in_range(toks, pos) || toks[pos].kind is Eof || toks[pos].kind is SectionMark {
        (nodes, pos, errs)
    } else {
        let n = node_at(toks, pos);
        match n.res {
            Ok(node) => section_body(
                toks,
                reached(past_newlines(toks, n.pos), pos + 1, toks.len() as int),
                nodes.push(node),
                errs + n.errs,
            ),
            Err(f) => section_body(
                toks,
                reached(
                    past_newlines(toks, resume_after(toks, pos, n.pos)),
                    pos + 1,
                    toks.len() as int,
                ),
                nodes,
                (errs + n.errs).push(f),
            ),
        }
    }
}

/// The section whose header starts at `pos`; its name may be closed by a
/// second mark.
pub open spec fn section_at(toks: Seq<Tok>, pos: int) -> Parsed<SectionView> {
    let header = ident_at(toks, past_newlines(toks, pos + 1), "section name"@);
    match header.res {
        Err(f) => Parsed { res: Err(f), pos: header.pos, errs: Seq::empty() },
        Ok(name) => {
            let p = past_newlines(toks, header.pos);
            let q = if toks[p].kind is SectionMark {
                p + 1
            } else {
                p
            };
            let (nodes, end, errs) = section_body(
                toks,
                past_newlines(toks, q),
                Seq::empty(),
                Seq::empty(),
            );
            Parsed {
                res: Ok(SectionView { name, nodes, span: toks[pos].span }),
                pos: end,
                errs,
            }
        },
    }
}

/// What stands at `pos`, outside of any section: the section that starts
/// there, or an error; and the position where the next one is looked for.
pub open spec fn section_step(toks: Seq<Tok>, pos: int) -> Parsed<SectionView> {
    if toks[pos].kind is SectionMark {
        let s = section_at(toks, pos);
        match s.res {
            Ok(_) => Parsed { pos: past_newlines(toks, s.pos), ..s },
            Err(_) => Parsed { pos: past_newlines(toks, next_section(toks, s.pos)), ..s },
        }
    } else {
        Parsed {
            res: Err(
                ParseError {
                    message: "nodes must be inside a section (# Name)"@,
                    span: toks[pos].span,
                    hint: Some("add a section header like '# Start' before this"@),
                },
            ),
            pos: past_newlines(toks, next_section(toks, pos)),
            errs: Seq::empty(),
        }
    }
}

/// The sections from `pos` on.
pub open spec fn sections_at(
    toks: Seq<Tok>,
    pos: int,
    sections: Seq<SectionView>,
    errs: Seq<Fault>,
) -> (Seq<SectionView>, Seq<Fault>)
    decreases toks.len() - pos,
{
    if !in_range(toks, pos) || toks[pos].kind is Eof {
        (sections, errs)
    } else {
        let s = section_step(toks, pos);
        let next = reached(s.pos, pos + 1, toks.len() as int);
        match s.res {
            Ok(section) => sections_at(toks, next, sections.push(section), errs + s.errs),
            Err(f) => sections_at(toks, next, sections, (errs + s.errs).push(f)),
        }
    }
}

/// The program of a sequence of tokens and the errors in it.
pub open spec fn parsed(toks: Seq<Tok>) -> (ProgramView, Seq<Fault>) {
    let (sections, errs) = sections_at(
        toks,
        past_newlines(toks, 0),
        Seq::empty(),
        Seq::empty(),
    );
    (
        ProgramView {
            sections,
            entry: if sections.len() > 0 {
                Some(sections[0].name)
            } else {
                None
            },
        },
        errs,
    )
}

// ---------------------------------------------------------------------------
// Laws
// ---------------------------------------------------------------------------

/// Where the words of an exit end that begins at `pos`.
pub open spec fn exit_end(pos: int, word: Option<Seq<char>>, with: Option<Seq<char>>) -> int {
    pos + 2 + (if word is Some {
        1int
    } else {
        0
    }) + (if with is Some {
        2int
    } else {
        0
    })
}

/// The exit of `name`.
pub open spec fn exit_action(name: Seq<char>, with: Option<Seq<char>>) -> DirectionAction<
    Seq<char>,
> {
    DirectionAction {
        kind: DirectionKind::Exit,
        character: name,
        pose: None,
        position: None,
        y: None,
        size: None,
        transition: match with {
            Some(t) => ast::transition_named(t),
            None => None,
        },
    }
}

/// Whether the tokens from `pos` on are an exit of `name`, with the word `word`
/// for it and the transition `with` where they are given, and nothing behind.
pub open spec fn is_exit_line(
    toks: Seq<Tok>,
    pos: int,
    name: Seq<char>,
    word: Option<Seq<char>>,
    with: Option<Seq<char>>,
) -> bool {
    let p = exit_end(pos, word, None);
    let end = exit_end(pos, word, with);
    &&& 0 <= pos
    &&& end < toks.len()
    &&& toks[pos].kind is Minus2
    &&& toks[pos + 1].kind == TokenKind::Ident(name)
    &&& word matches Some(w) ==> is_word(toks[pos + 2].kind, w)
    &&& with matches Some(t) ==> is_word(toks[p].kind, "with"@) && is_word(toks[p + 1].kind, t)
    &&& !(toks[end].kind is Ident)
}

proof fn lemma_exit_line(
    toks: Seq<Tok>,
    pos: int,
    name: Seq<char>,
    word: Option<Seq<char>>,
    with: Option<Seq<char>>,
)
    requires
        is_exit_line(toks, pos, name, word, with),
        word matches Some(w) ==> is_exit_word(w),
        with matches Some(t) ==> ast::transition_named(t) is Some,
    ensures
        node_at(toks, pos) == (Parsed {
            res: Ok::<NodeView, Fault>(
                NodeView::Direction { action: exit_action(name, with), span: toks[pos].span },
            ),
            pos: past_newline(toks, exit_end(pos, word, with)),
            errs: Seq::empty(),
        }),
{
    reveal_strlit("with");
    reveal_strlit("exits");
    reveal_strlit("exit");
    reveal_strlit("leaves");
    reveal_strlit("leave");
    reveal_with_fuel(exit_words, 4);
    assert("with"@[0] == 'w');
    assert("exits"@[0] == 'e' && "exit"@[0] == 'e');
    assert("leaves"@[0] == 'l' && "leave"@[0] == 'l');
    assert(past_newlines(toks, pos + 1) == pos + 1);
}

/// The word for leaving is optional: an exit reads the same with one and without.
pub proof fn law_exit_word_optional(
    toks: Seq<Tok>,
    pos: int,
    name: Seq<char>,
    word: Option<Seq<char>>,
    with: Option<Seq<char>>,
)
    requires
        is_exit_line(toks, pos, name, word, with),
        word matches Some(w) ==> is_exit_word(w),
        with matches Some(t) ==> ast::transition_named(t) is Some,
    ensures
        node_at(toks, pos).res == Ok::<NodeView, Fault>(
            NodeView::Direction { action: exit_action(name, with), span: toks[pos].span },
        ),
{
    lemma_exit_line(toks, pos, name, word, with);
}

/// Whether the tokens are a script of one section that holds an exit, with the
/// word `word` for it and the transition `with` where they are given.
pub open spec fn is_exit_script(
    toks: Seq<Tok>,
    section: Seq<char>,
    name: Seq<char>,
    word: Option<Seq<char>>,
    with: Option<Seq<char>>,
) -> bool {
    &&& toks.len() == exit_end(3, word, with) + 2
    &&& toks[0].kind is SectionMark
    &&& toks[1].kind == TokenKind::Ident(section)
    &&& toks[2].kind is Newline
    &&& is_exit_line(toks, 3, name, word, with)
    &&& toks[toks.len() - 2].kind is Newline
    &&& toks[toks.len() - 1].kind is Eof
}

/// A script whose only line is an exit is parsed without an error, to the same
/// action with a word for leaving and without.
pub proof fn law_exit_script_is_parsed(
    toks: Seq<Tok>,
    section: Seq<char>,
    name: Seq<char>,
    word: Option<Seq<char>>,
    with: Option<Seq<char>>,
)
    requires
        is_exit_script(toks, section, name, word, with),
        word matches Some(w) ==> is_exit_word(w),
        with matches Some(t) ==> ast::transition_named(t) is Some,
    ensures
        parsed(toks).1.len() == 0,
        parsed(toks).0.entry == Some(section),
        parsed(toks).0.sections == seq![
            SectionView {
                name: section,
                nodes: seq![
                    NodeView::Direction {
                        action: exit_action(name, with),
                        span: toks[3].span,
                    },
                ],
                span: toks[0].span,
            },
        ],
{
    lemma_exit_line(toks, 3, name, word, with);
    let end = exit_end(3, word, with);
    let node = NodeView::Direction { action: exit_action(name, with), span: toks[3].span };
    assert(past_newlines(toks, 0) == 0);
    assert(past_newlines(toks, 1) == 1);
    assert(past_newlines(toks, 3) == 3);
    assert(past_newlines(toks, 2) == 3);
    assert(past_newlines(toks, end + 1) == end + 1);
    let none = Seq::<Fault>::empty();
    assert(none + none =~= none);
    assert(section_body(toks, end + 1, seq![node], none) == (seq![node], end + 1, none));
    assert(Seq::<NodeView>::empty().push(node) =~= seq![node]);
    assert(section_body(toks, 3, Seq::empty(), none) == (seq![node], end + 1, none));
    let s = SectionView { name: section, nodes: seq![node], span: toks[0].span };
    assert(section_step(toks, 0) == Parsed { res: Ok(s), pos: end + 1, errs: none });
    assert(Seq::<SectionView>::empty().push(s) =~= seq![s]);
    assert(sections_at(toks, end + 1, seq![s], none) == (seq![s], none));
    assert(sections_at(toks, 0, Seq::empty(), none) == (seq![s], none));
}

/// Whether the tokens from `pos` on are `+ name at x,y size n` with the given
/// numbers, and nothing behind.
pub open spec fn is_sprite_line(
    toks: Seq<Tok>,
    pos: int,
    name: Seq<char>,
    x: Number<Seq<char>>,
    y: Number<Seq<char>>,
    size: Number<Seq<char>>,
) -> bool {
    &&& 0 <= pos
    &&& pos + 8 < toks.len()
    &&& toks[pos].kind is Plus
    &&& toks[pos + 1].kind == TokenKind::Ident(name)
    &&& is_word(toks[pos + 2].kind, "at"@)
    &&& number_of(toks[pos + 3].kind) == Some(x)
    &&& toks[pos + 4].kind is Comma
    &&& number_of(toks[pos + 5].kind) == Some(y)
    &&& is_word(toks[pos + 6].kind, "size"@)
    &&& number_of(toks[pos + 7].kind) == Some(size)
    &&& toks[pos + 8].kind is Newline || toks[pos + 8].kind is Eof
}

/// The line that places a sprite is a direction of the language: the numbers
/// are read as they are written.
pub proof fn law_sprite_line_is_read(
    toks: Seq<Tok>,
    pos: int,
    name: Seq<char>,
    x: Number<Seq<char>>,
    y: Number<Seq<char>>,
    size: Number<Seq<char>>,
)
    requires
        is_sprite_line(toks, pos, name, x, y, size),
    ensures
        node_at(toks, pos).res == Ok::<NodeView, Fault>(
            NodeView::Direction {
                action: DirectionAction {
                    kind: DirectionKind::Enter,
                    character: name,
                    pose: None,
                    position: Some(Position::Custom(x)),
                    y: Some(y),
                    size: Some(size),
                    transition: None,
                },
                span: toks[pos].span,
            },
        ),
{
    reveal_strlit("at");
    reveal_strlit("size");
    reveal_strlit("enters");
    reveal_strlit("enter");
    reveal_strlit("exits");
    reveal_strlit("exit");
    reveal_strlit("leaves");
    reveal_strlit("leave");
    reveal_strlit("from");
    reveal_strlit("to");
    reveal_with_fuel(direction_words, 6);
    assert("at"@[0] == 'a' && "size"@[0] == 's');
    assert("enters"@[0] == 'e' && "enter"@[0] == 'e' && "exits"@[0] == 'e' && "exit"@[0] == 'e');
    assert("leaves"@[0] == 'l' && "leave"@[0] == 'l');
    assert("from"@[0] == 'f' && "to"@[0] == 't');
    assert(past_newlines(toks, pos + 1) == pos + 1);
}

} // verus!
