//! A program that is written down is read back as it is.

use crate::ast;
use crate::ast::{
    ChoiceOptionView, DirectionAction, DirectionKind, Expr, NodeView, Number, Position,
    SectionView, Transition, VarOpKind,
};
use crate::grammar;
use crate::grammar::{Fault, Parsed, Step, Stop, Tok};
use crate::grammar_laws;
use crate::token::TokenKind;
use vstd::prelude::*;

verus! {

// ---------------------------------------------------------------------------
// Words
// ---------------------------------------------------------------------------

/// How a transition is written.
pub open spec fn transition_word(t: Transition) -> Seq<char> {
    match t {
        Transition::Fade => "fade"@,
        Transition::FadeBlack => "fade_black"@,
        Transition::FadeWhite => "fade_white"@,
        Transition::SlideLeft => "slide_left"@,
        Transition::SlideRight => "slide_right"@,
        Transition::SlideUp => "slide_up"@,
        Transition::SlideDown => "slide_down"@,
        Transition::Dissolve => "dissolve"@,
        Transition::WipeLeft => "wipe_left"@,
        Transition::WipeRight => "wipe_right"@,
        Transition::Blur => "blur"@,
        Transition::Instant => "instant"@,
    }
}

/// Every transition is named by its word.
pub proof fn law_transition_words(t: Transition)
    ensures
        ast::transition_named(transition_word(t)) == Some(t),
{
    reveal_strlit("fade");
    reveal_strlit("fade_black");
    reveal_strlit("fade_white");
    reveal_strlit("slide_left");
    reveal_strlit("slide_right");
    reveal_strlit("slide_up");
    reveal_strlit("slide_down");
    reveal_strlit("dissolve");
    reveal_strlit("wipe_left");
    reveal_strlit("wipe_right");
    reveal_strlit("blur");
    reveal_strlit("instant");
    reveal_strlit("cut");
    assert("fade"@.len() == 4 && "blur"@.len() == 4 && "fade"@[0] == 'f' && "blur"@[0] == 'b');
    assert("fade_black"@.len() == 10 && "fade_black"@[5] == 'b' && "fade_black"@[0] == 'f');
    assert("fade_white"@.len() == 10 && "fade_white"@[5] == 'w' && "fade_white"@[0] == 'f');
    assert("slide_left"@.len() == 10 && "slide_left"@[0] == 's');
    assert("slide_right"@.len() == 11);
    assert("slide_up"@.len() == 8 && "slide_up"@[0] == 's');
    assert("slide_down"@.len() == 10 && "slide_down"@[6] == 'd' && "slide_left"@[6] == 'l');
    assert("slide_down"@[0] == 's');
    assert("dissolve"@.len() == 8 && "dissolve"@[0] == 'd');
    assert("wipe_left"@.len() == 9);
    assert("wipe_right"@.len() == 10 && "wipe_right"@[0] == 'w');
    assert("instant"@.len() == 7);
    assert("cut"@.len() == 3);
}

/// Every word for a position names it.
pub proof fn law_position_words()
    ensures
        ast::position_named("left"@) == Some(Position::<Seq<char>>::Left),
        ast::position_named("居左"@) == Some(Position::<Seq<char>>::Left),
        ast::position_named("左"@) == Some(Position::<Seq<char>>::Left),
        ast::position_named("center"@) == Some(Position::<Seq<char>>::Center),
        ast::position_named("centre"@) == Some(Position::<Seq<char>>::Center),
        ast::position_named("居中"@) == Some(Position::<Seq<char>>::Center),
        ast::position_named("中"@) == Some(Position::<Seq<char>>::Center),
        ast::position_named("right"@) == Some(Position::<Seq<char>>::Right),
        ast::position_named("居右"@) == Some(Position::<Seq<char>>::Right),
        ast::position_named("右"@) == Some(Position::<Seq<char>>::Right),
{
    reveal_strlit("left");
    reveal_strlit("居左");
    reveal_strlit("左");
    reveal_strlit("center");
    reveal_strlit("centre");
    reveal_strlit("居中");
    reveal_strlit("中");
    reveal_strlit("right");
    reveal_strlit("居右");
    reveal_strlit("右");
    assert("left"@.len() == 4 && "center"@.len() == 6 && "centre"@.len() == 6);
    assert("right"@.len() == 5);
    assert("居左"@.len() == 2 && "居中"@.len() == 2 && "居右"@.len() == 2);
    assert("居左"@[1] == '左' && "居中"@[1] == '中' && "居右"@[1] == '右');
    assert("左"@.len() == 1 && "中"@.len() == 1 && "右"@.len() == 1);
    assert("左"@[0] == '左' && "中"@[0] == '中' && "右"@[0] == '右');
}

pub open spec fn number_token(n: Number<Seq<char>>) -> TokenKind<Seq<char>> {
    match n {
        Number::Int(i) => TokenKind::Integer(i),
        Number::Decimal(s) => TokenKind::Float(s),
    }
}

pub open spec fn operation_token(op: VarOpKind) -> TokenKind<Seq<char>> {
    match op {
        VarOpKind::Assign => TokenKind::Assign,
        VarOpKind::PlusEq => TokenKind::PlusEq,
        VarOpKind::MinusEq => TokenKind::MinusEq,
    }
}

pub open spec fn word(s: Seq<char>) -> TokenKind<Seq<char>> {
    TokenKind::Ident(s)
}

// ---------------------------------------------------------------------------
// Nodes as tokens
// ---------------------------------------------------------------------------

pub open spec fn with_len(t: Option<Transition>) -> nat {
    if t is Some {
        2
    } else {
        0
    }
}

pub open spec fn pose_len(p: Option<Seq<char>>) -> nat {
    if p is Some {
        3
    } else {
        0
    }
}

pub open spec fn place_len(a: DirectionAction<Seq<char>>) -> nat {
    match a.position {
        None => 0,
        Some(Position::Custom(_)) => if a.y is Some {
            4
        } else {
            2
        },
        _ => 2,
    }
}

pub open spec fn size_len(a: DirectionAction<Seq<char>>) -> nat {
    if a.size is Some {
        2
    } else {
        0
    }
}

pub open spec fn condition_len(c: Option<Expr<Seq<char>>>) -> nat {
    match c {
        Some(e) => 1 + grammar_laws::expr_len(e),
        None => 0,
    }
}

pub open spec fn prompt_len(p: Option<Seq<char>>) -> nat {
    if p is Some {
        1
    } else {
        0
    }
}

/// The number of tokens of a node, with the end of its last line.
pub open spec fn node_len(n: NodeView) -> nat
    decreases n,
{
    match n {
        NodeView::Dialogue { pose, .. } => 4 + pose_len(pose),
        NodeView::Narration { .. } => 2,
        NodeView::Command { args, transition, .. } => 3 + args.len() + with_len(transition),
        NodeView::Direction { action, .. } => 3 + pose_len(action.pose) + place_len(action)
            + size_len(action) + with_len(action.transition),
        NodeView::VarOp { expr, .. } => 4 + grammar_laws::expr_len(expr),
        NodeView::Choice { prompt, options, .. } => 4 + prompt_len(prompt) + options_len(options),
        NodeView::Conditional { branches, else_branch, .. } => if branches.len() == 1 {
            4 + grammar_laws::expr_len(branches[0].0) + nodes_len(branches[0].1) + (
            match else_branch {
                Some(body) => 2 + nodes_len(body),
                None => 0,
            })
        } else {
            1
        },
        NodeView::Flow { .. } => 3,
        NodeView::Visit { .. } => 3,
        NodeView::Return { .. } => 2,
        NodeView::Wait { .. } => 3,
        NodeView::StoryEnd { .. } => 2,
    }
}

pub open spec fn nodes_len(nodes: Seq<NodeView>) -> nat
    decreases nodes,
{
    if nodes.len() == 0 {
        0
    } else {
        nodes_len(nodes.drop_last()) + node_len(nodes.last())
    }
}

pub open spec fn option_len(o: ChoiceOptionView) -> nat
    decreases o,
{
    3 + condition_len(o.condition) + nodes_len(o.body)
}

pub open spec fn options_len(options: Seq<ChoiceOptionView>) -> nat
    decreases options,
{
    if options.len() == 0 {
        0
    } else {
        options_len(options.drop_last()) + option_len(options.last())
    }
}

pub open spec fn spells_with(toks: Seq<Tok>, pos: int, t: Option<Transition>) -> bool {
    match t {
        Some(x) => toks[pos].kind == word("with"@) && toks[pos + 1].kind == word(
            transition_word(x),
        ),
        None => true,
    }
}

pub open spec fn spells_pose(toks: Seq<Tok>, pos: int, p: Option<Seq<char>>) -> bool {
    match p {
        Some(s) => toks[pos].kind is LParen && toks[pos + 1].kind == word(s) && toks[pos
            + 2].kind is RParen,
        None => true,
    }
}

pub open spec fn spells_place(toks: Seq<Tok>, pos: int, a: DirectionAction<Seq<char>>) -> bool {
    match a.position {
        None => a.y is None,
        Some(p) => toks[pos].kind == word("at"@) && match p {
            Position::Left => a.y is None && toks[pos + 1].kind == word("left"@),
            Position::Center => a.y is None && toks[pos + 1].kind == word("center"@),
            Position::Right => a.y is None && toks[pos + 1].kind == word("right"@),
            Position::Custom(x) => toks[pos + 1].kind == number_token(x) && match a.y {
                Some(y) => toks[pos + 2].kind is Comma && toks[pos + 3].kind == number_token(y),
                None => true,
            },
        },
    }
}

pub open spec fn spells_size(toks: Seq<Tok>, pos: int, size: Option<Number<Seq<char>>>) -> bool {
    match size {
        Some(n) => toks[pos].kind == word("size"@) && toks[pos + 1].kind == number_token(n),
        None => true,
    }
}

pub open spec fn spells_condition(
    toks: Seq<Tok>,
    pos: int,
    c: Option<Expr<Seq<char>>>,
) -> bool {
    match c {
        Some(e) => toks[pos].kind is If && grammar_laws::spells(toks, pos + 1, e),
        None => true,
    }
}

/// Whether the tokens from `pos` on are those of a node: the marks and words of the
/// language, and the end of the line.
pub open spec fn spells_node(toks: Seq<Tok>, pos: int, n: NodeView) -> bool
    decreases n,
{
    0 <= pos && pos + node_len(n) < toks.len() && match n {
        NodeView::Dialogue { speaker, pose, text, span } => {
            let p = pos + 1 + pose_len(pose);
            &&& toks[pos].span == span
            &&& toks[pos].kind == word(speaker)
            &&& spells_pose(toks, pos + 1, pose)
            &&& toks[p].kind is Colon
            &&& toks[p + 1].kind == TokenKind::String(text)
            &&& toks[p + 2].kind is Newline
        },
        NodeView::Narration { text, span } => {
            &&& toks[pos].span == span
            &&& toks[pos].kind == TokenKind::String(text)
            &&& toks[pos + 1].kind is Newline
        },
        NodeView::Command { cmd, args, transition, span } => {
            let p = pos + 2 + args.len();
            &&& toks[pos].span == span
            &&& toks[pos].kind is At
            &&& toks[pos + 1].kind == word(cmd)
            &&& forall|i: int|
                0 <= i < args.len() ==> toks[pos + 2 + i].kind == TokenKind::String(
                    #[trigger] args[i],
                )
            &&& spells_with(toks, p, transition)
            &&& toks[p + with_len(transition)].kind is Newline
        },
        NodeView::Direction { action, span } => match action.kind {
            DirectionKind::Enter => {
                let p = pos + 2 + pose_len(action.pose);
                let q = p + place_len(action);
                let r = q + size_len(action);
                &&& toks[pos].span == span
                &&& toks[pos].kind is Plus
                &&& toks[pos + 1].kind == word(action.character)
                &&& spells_pose(toks, pos + 2, action.pose)
                &&& spells_place(toks, p, action)
                &&& spells_size(toks, q, action.size)
                &&& spells_with(toks, r, action.transition)
                &&& toks[r + with_len(action.transition)].kind is Newline
            },
            DirectionKind::Exit => {
                &&& toks[pos].span == span
                &&& toks[pos].kind is Minus2
                &&& toks[pos + 1].kind == word(action.character)
                &&& action.pose is None
                &&& action.position is None
                &&& action.y is None
                &&& action.size is None
                &&& spells_with(toks, pos + 2, action.transition)
                &&& toks[pos + 2 + with_len(action.transition)].kind is Newline
            },
        },
        NodeView::VarOp { name, op, expr, span } => {
            &&& toks[pos].span == span
            &&& toks[pos].kind is Dollar
            &&& toks[pos + 1].kind == word(name)
            &&& toks[pos + 2].kind == operation_token(op)
            &&& grammar_laws::spells(toks, pos + 3, expr)
            &&& toks[pos + 3 + grammar_laws::expr_len(expr)].kind is Newline
        },
        NodeView::Choice { prompt, options, span } => {
            let p = pos + 1 + prompt_len(prompt);
            let q = p + 1 + options_len(options);
            &&& toks[pos].span == span
            &&& toks[pos].kind is Question
            &&& prompt matches Some(s) ==> toks[pos + 1].kind == TokenKind::String(s)
            &&& toks[p].kind is Newline
            &&& spells_options(toks, p + 1, options)
            &&& toks[q].kind is Question
            &&& toks[q + 1].kind is Newline
        },
        NodeView::Conditional { branches, else_branch, span } => branches.len() == 1 && {
            let (cond, body) = branches[0];
            let p = pos + 1 + grammar_laws::expr_len(cond);
            let q = p + 1 + nodes_len(body);
            &&& toks[pos].span == span
            &&& toks[pos].kind is If
            &&& grammar_laws::spells(toks, pos + 1, cond)
            &&& toks[p].kind is Newline
            &&& spells_nodes(toks, p + 1, body, false)
            &&& match else_branch {
                Some(other) => {
                    &&& toks[q].kind is Else
                    &&& toks[q + 1].kind is Newline
                    &&& spells_nodes(toks, q + 2, other, false)
                    &&& toks[q + 2 + nodes_len(other)].kind is End
                    &&& toks[q + 3 + nodes_len(other)].kind is Newline
                },
                None => toks[q].kind is End && toks[q + 1].kind is Newline,
            }
        },
        NodeView::Flow { target, span } => {
            &&& toks[pos].span == span
            &&& toks[pos].kind is FlowArrow
            &&& toks[pos + 1].kind == word(target)
            &&& toks[pos + 2].kind is Newline
        },
        NodeView::Visit { target, span } => {
            &&& toks[pos].span == span
            &&& toks[pos].kind is VisitArrow
            &&& toks[pos + 1].kind == word(target)
            &&& toks[pos + 2].kind is Newline
        },
        NodeView::Return { span } => {
            &&& toks[pos].span == span
            &&& toks[pos].kind is LtEq
            &&& toks[pos + 1].kind is Newline
        },
        NodeView::Wait { seconds, span } => {
            &&& toks[pos].span == span
            &&& toks[pos].kind is Wait
            &&& toks[pos + 1].kind == number_token(seconds)
            &&& toks[pos + 2].kind is Newline
        },
        NodeView::StoryEnd { span } => {
            &&& toks[pos].span == span
            &&& toks[pos].kind is StoryEnd
            &&& toks[pos + 1].kind is Newline
        },
    }
}

/// Whether the tokens from `pos` on are those of nodes, one behind the other. Within
/// an option there is no further choice.
pub open spec fn spells_nodes(
    toks: Seq<Tok>,
    pos: int,
    nodes: Seq<NodeView>,
    in_option: bool,
) -> bool
    decreases nodes,
{
    nodes.len() == 0 || (spells_nodes(toks, pos, nodes.drop_last(), in_option) && spells_node(
        toks,
        pos + nodes_len(nodes.drop_last()),
        nodes.last(),
    ) && !(in_option && nodes.last() is Choice))
}

/// Whether the tokens from `pos` on are those of options.
pub open spec fn spells_options(
    toks: Seq<Tok>,
    pos: int,
    options: Seq<ChoiceOptionView>,
) -> bool
    decreases options,
{
    options.len() == 0 || (spells_options(toks, pos, options.drop_last()) && spells_option(
        toks,
        pos + options_len(options.drop_last()),
        options.last(),
    ))
}

pub open spec fn spells_option(toks: Seq<Tok>, pos: int, o: ChoiceOptionView) -> bool
    decreases o,
{
    let p = pos + 2 + condition_len(o.condition);
    &&& 0 <= pos
    &&& pos + option_len(o) < toks.len()
    &&& toks[pos].span == o.span
    &&& toks[pos].kind is Pipe
    &&& toks[pos + 1].kind == TokenKind::String(o.text)
    &&& spells_condition(toks, pos + 2, o.condition)
    &&& toks[p].kind is Newline
    &&& spells_nodes(toks, p + 1, o.body, true)
}

// ---------------------------------------------------------------------------
// Lines
// ---------------------------------------------------------------------------

proof fn lemma_words()
    ensures
        !grammar::is_exit_word("with"@),
        !grammar::is_place_word("with"@),
        "with"@ != "enters"@ && "with"@ != "enter"@ && "with"@ != "size"@,
        !grammar::is_exit_word("size"@),
        !grammar::is_place_word("size"@),
        "size"@ != "enters"@ && "size"@ != "enter"@,
        !grammar::is_exit_word("at"@),
        "at"@ != "enters"@ && "at"@ != "enter"@,
{
    reveal_strlit("with");
    reveal_strlit("size");
    reveal_strlit("at");
    reveal_strlit("enters");
    reveal_strlit("enter");
    reveal_strlit("exits");
    reveal_strlit("exit");
    reveal_strlit("leaves");
    reveal_strlit("leave");
    reveal_strlit("from");
    reveal_strlit("to");
    assert("with"@[0] == 'w' && "size"@[0] == 's' && "at"@[0] == 'a');
    assert("enters"@[0] == 'e' && "enter"@[0] == 'e' && "exits"@[0] == 'e' && "exit"@[0] == 'e');
    assert("leaves"@[0] == 'l' && "leave"@[0] == 'l' && "from"@[0] == 'f' && "to"@[0] == 't');
}

proof fn lemma_words_end(toks: Seq<Tok>, pos: int, d: DirectionAction<Seq<char>>)
    requires
        0 <= pos < toks.len(),
        toks[pos].kind is Newline,
    ensures
        grammar::direction_words(toks, pos, d) == (Step {
            res: Ok::<DirectionAction<Seq<char>>, Fault>(d),
            pos,
        }),
{
}

proof fn lemma_words_with(
    toks: Seq<Tok>,
    pos: int,
    d: DirectionAction<Seq<char>>,
    t: Option<Transition>,
)
    requires
        0 <= pos,
        pos + with_len(t) < toks.len(),
        d.transition is None,
        spells_with(toks, pos, t),
    ensures
        grammar::direction_words(toks, pos, d) == grammar::direction_words(
            toks,
            pos + with_len(t),
            DirectionAction { transition: t, ..d },
        ),
{
    lemma_words();
    if let Some(x) = t {
        law_transition_words(x);
        let u = grammar::transition_at(
            toks,
            pos + 1,
            "valid: fade, dissolve, slide_left, etc."@,
        );
        assert(u.res == Ok::<Transition, Fault>(x) && u.pos == pos + 2);
    }
}

proof fn lemma_words_size(
    toks: Seq<Tok>,
    pos: int,
    d: DirectionAction<Seq<char>>,
    size: Option<Number<Seq<char>>>,
)
    requires
        0 <= pos,
        pos + 2 < toks.len() || size is None,
        d.size is None,
        spells_size(toks, pos, size),
    ensures
        size is Some ==> grammar::direction_words(toks, pos, d) == grammar::direction_words(
            toks,
            pos + 2,
            DirectionAction { size, ..d },
        ),
        size is None ==> d == (DirectionAction { size, ..d }),
{
    lemma_words();
    if let Some(n) = size {
        assert(grammar::number_of(toks[pos + 1].kind) == Some(n));
    }
}

proof fn lemma_words_place(
    toks: Seq<Tok>,
    pos: int,
    d: DirectionAction<Seq<char>>,
    a: DirectionAction<Seq<char>>,
)
    requires
        0 <= pos,
        pos + place_len(a) < toks.len(),
        d.position is None,
        d.y is None,
        spells_place(toks, pos, a),
        a.y is None ==> !(toks[pos + place_len(a)].kind is Comma),
    ensures
        grammar::direction_words(toks, pos, d) == grammar::direction_words(
            toks,
            pos + place_len(a),
            DirectionAction { position: a.position, y: a.y, ..d },
        ),
{
    lemma_words();
    law_position_words();
    match a.position {
        None => {},
        Some(Position::Custom(x)) => {
            assert(grammar::number_of(toks[pos + 1].kind) == Some(x));
            assert(grammar::direction_words(toks, pos, d) == grammar::direction_words(
                toks,
                pos + 1,
                d,
            ));
            let (e, next) = grammar::spot_at(toks, pos + 1, x, d);
            if let Some(y) = a.y {
                assert(grammar::number_of(toks[pos + 3].kind) == Some(y));
            }
            assert(next == pos + place_len(a));
            assert(e == DirectionAction { position: a.position, y: a.y, ..d });
            assert(grammar::direction_words(toks, pos + 1, d) == grammar::direction_words(
                toks,
                next,
                e,
            ));
        },
        Some(p) => {
            let name = toks[pos + 1].kind->Ident_0;
            assert(grammar::position_of(name) == Some(p));
        },
    }
}

proof fn lemma_direction(
    toks: Seq<Tok>,
    pos: int,
    action: DirectionAction<Seq<char>>,
    n: NodeView,
)
    requires
        n matches NodeView::Direction { action: x, .. } && x == action,
        spells_node(toks, pos, n),
        action.kind == DirectionKind::Enter,
    ensures
        grammar::node_at(toks, pos) == (Parsed {
            res: Ok::<NodeView, Fault>(n),
            pos: pos + node_len(n),
            errs: Seq::empty(),
        }),
{
    let p = pos + 2 + pose_len(action.pose);
    let q = p + place_len(action);
    let r = q + size_len(action);
    assert(grammar::past_newlines(toks, pos + 1) == pos + 1);
    let d = DirectionAction {
        kind: DirectionKind::Enter,
        character: action.character,
        pose: action.pose,
        position: None,
        y: None,
        size: None,
        transition: None,
    };
    assert(grammar::pose_at(toks, pos + 2, "pose/sprite name"@) == Step {
        res: Ok::<Option<Seq<char>>, Fault>(action.pose),
        pos: p,
    });
    lemma_words_place(toks, p, d, action);
    let d1 = DirectionAction { position: action.position, y: action.y, ..d };
    lemma_words_size(toks, q, d1, action.size);
    let d2 = DirectionAction { size: action.size, ..d1 };
    lemma_words_with(toks, r, d2, action.transition);
    let d3 = DirectionAction { transition: action.transition, ..d2 };
    lemma_words_end(toks, r + with_len(action.transition), d3);
    assert(d3 == action);
}

proof fn lemma_args(toks: Seq<Tok>, pos: int, args: Seq<Seq<char>>, i: int)
    requires
        0 <= pos,
        0 <= i <= args.len(),
        pos + args.len() < toks.len(),
        forall|k: int|
            0 <= k < args.len() ==> toks[pos + k].kind == TokenKind::String(#[trigger] args[k]),
        toks[pos + args.len()].kind is Newline || toks[pos + args.len()].kind == word("with"@),
    ensures
        grammar::args_at(toks, pos + i, args.take(i)) == (args, pos + args.len()),
    decreases args.len() - i,
{
    if i < args.len() {
        lemma_args(toks, pos, args, i + 1);
        assert(toks[pos + i].kind == TokenKind::String(args[i]));
        assert(args.take(i).push(args[i]) =~= args.take(i + 1));
    } else {
        assert(args.take(i) =~= args);
    }
}

proof fn lemma_command(toks: Seq<Tok>, pos: int, n: NodeView)
    requires
        n is Command,
        spells_node(toks, pos, n),
    ensures
        grammar::node_at(toks, pos) == (Parsed {
            res: Ok::<NodeView, Fault>(n),
            pos: pos + node_len(n),
            errs: Seq::empty(),
        }),
{
    if let NodeView::Command { cmd, args, transition, span } = n {
        let p = pos + 2 + args.len();
        lemma_args(toks, pos + 2, args, 0);
        assert(args.take(0) =~= Seq::empty());
        if let Some(t) = transition {
            law_transition_words(t);
        }
    }
}

/// A node of one line.
proof fn lemma_line(toks: Seq<Tok>, pos: int, n: NodeView)
    requires
        spells_node(toks, pos, n),
        !(n is Choice),
        !(n is Conditional),
    ensures
        grammar::node_at(toks, pos) == (Parsed {
            res: Ok::<NodeView, Fault>(n),
            pos: pos + node_len(n),
            errs: Seq::empty(),
        }),
{
    match n {
        NodeView::Direction { action, .. } => {
            if action.kind == DirectionKind::Enter {
                lemma_direction(toks, pos, action, n);
            } else {
                lemma_words();
                assert(grammar::past_newlines(toks, pos + 1) == pos + 1);
                let end = pos + 2 + with_len(action.transition);
                assert(grammar::exit_words(toks, end, action.transition) == Step {
                    res: Ok::<Option<Transition>, Fault>(action.transition),
                    pos: end,
                });
                if let Some(t) = action.transition {
                    law_transition_words(t);
                    let u = grammar::transition_at(
                        toks,
                        pos + 3,
                        "valid: fade, dissolve, slide_left, etc."@,
                    );
                    assert(u.res == Ok::<Transition, Fault>(t) && u.pos == pos + 4);
                    assert(grammar::exit_words(toks, pos + 2, None) == grammar::exit_words(
                        toks,
                        end,
                        action.transition,
                    ));
                }
                assert(grammar::ident_at(toks, pos + 1, "character name"@) == Step {
                    res: Ok::<Seq<char>, Fault>(action.character),
                    pos: pos + 2,
                });
                assert(grammar::exit_at(toks, pos) == Step {
                    res: Ok::<NodeView, Fault>(n),
                    pos: end + 1,
                });
                assert(node_len(n) == end + 1 - pos);
            }
        },
        NodeView::Command { .. } => {
            lemma_command(toks, pos, n);
        },
        NodeView::VarOp { expr, .. } => {
            grammar_laws::law_expression_reads_back(toks, pos + 3, expr);
        },
        NodeView::Dialogue { pose, .. } => {
            assert(grammar::pose_at(toks, pos + 1, "pose name"@) == Step {
                res: Ok::<Option<Seq<char>>, Fault>(pose),
                pos: pos + 1 + pose_len(pose),
            });
        },
        _ => {},
    }
}

// ---------------------------------------------------------------------------
// Bodies
// ---------------------------------------------------------------------------

/// How the tokens of a node begin.
proof fn lemma_first(toks: Seq<Tok>, pos: int, n: NodeView)
    requires
        spells_node(toks, pos, n),
    ensures
        0 <= pos < pos + node_len(n) < toks.len(),
        !(toks[pos].kind is Newline),
        !(toks[pos].kind is Eof),
        !(toks[pos].kind is End),
        !(toks[pos].kind is Else),
        !(toks[pos].kind is Pipe),
        !(toks[pos].kind is SectionMark),
        toks[pos].kind is Question ==> n is Choice,
{
    match n {
        NodeView::Direction { action, .. } => {
            match action.kind {
                DirectionKind::Enter => {},
                DirectionKind::Exit => {},
            }
        },
        _ => {},
    }
}

proof fn lemma_places(toks: Seq<Tok>, pos: int, nodes: Seq<NodeView>, in_option: bool, i: int)
    requires
        spells_nodes(toks, pos, nodes, in_option),
        0 <= i < nodes.len(),
    ensures
        spells_node(toks, pos + nodes_len(nodes.take(i)), nodes[i]),
        in_option ==> !(nodes[i] is Choice),
        nodes_len(nodes.take(i + 1)) == nodes_len(nodes.take(i)) + node_len(nodes[i]),
        nodes_len(nodes.take(i + 1)) <= nodes_len(nodes),
    decreases nodes.len(),
{
    let front = nodes.drop_last();
    if i == front.len() {
        assert(nodes.take(i) =~= front);
        assert(nodes.take(i + 1) =~= nodes);
    } else {
        lemma_places(toks, pos, front, in_option, i);
        assert(front.take(i) =~= nodes.take(i));
        assert(front.take(i + 1) =~= nodes.take(i + 1));
    }
}

proof fn lemma_body(
    toks: Seq<Tok>,
    pos: int,
    nodes: Seq<NodeView>,
    stop: Stop,
    i: int,
)
    requires
        0 <= pos,
        0 <= i <= nodes.len(),
        pos + nodes_len(nodes) < toks.len(),
        spells_nodes(toks, pos, nodes, stop is Option),
        grammar::stops(stop, toks[pos + nodes_len(nodes)].kind),
    ensures
        grammar::body_at(
            toks,
            pos + nodes_len(nodes.take(i)),
            stop,
            nodes.take(i),
            Seq::empty(),
        ) == (nodes, pos + nodes_len(nodes), Seq::<Fault>::empty()),
    decreases nodes, nodes.len() - i,
{
    let p = pos + nodes_len(nodes.take(i));
    if i < nodes.len() {
        lemma_places(toks, pos, nodes, stop is Option, i);
        lemma_node(toks, p, nodes[i]);
        lemma_first(toks, p, nodes[i]);
        lemma_body(toks, pos, nodes, stop, i + 1);
        let next = p + node_len(nodes[i]);
        if i + 1 < nodes.len() {
            lemma_places(toks, pos, nodes, stop is Option, i + 1);
            lemma_first(toks, next, nodes[i + 1]);
        } else {
            assert(nodes.take(i + 1) =~= nodes);
        }
        assert(grammar::past_newlines(toks, next) == next);
        assert(nodes.take(i).push(nodes[i]) =~= nodes.take(i + 1));
        assert(Seq::<Fault>::empty() + Seq::<Fault>::empty() =~= Seq::empty());
    } else {
        assert(nodes.take(i) =~= nodes);
    }
}

/// How a body begins: its first token ends no line.
proof fn lemma_body_start(toks: Seq<Tok>, pos: int, nodes: Seq<NodeView>, in_option: bool)
    requires
        0 <= pos,
        pos + nodes_len(nodes) < toks.len(),
        spells_nodes(toks, pos, nodes, in_option),
        !(toks[pos + nodes_len(nodes)].kind is Newline),
    ensures
        grammar::past_newlines(toks, pos) == pos,
{
    if nodes.len() > 0 {
        lemma_places(toks, pos, nodes, in_option, 0);
        assert(nodes.take(0) =~= Seq::empty());
        lemma_first(toks, pos, nodes[0]);
    }
}

proof fn lemma_option_places(toks: Seq<Tok>, pos: int, options: Seq<ChoiceOptionView>, i: int)
    requires
        spells_options(toks, pos, options),
        0 <= i < options.len(),
    ensures
        spells_option(toks, pos + options_len(options.take(i)), options[i]),
        options_len(options.take(i + 1)) == options_len(options.take(i)) + option_len(options[i]),
        options_len(options.take(i + 1)) <= options_len(options),
    decreases options.len(),
{
    let front = options.drop_last();
    if i == front.len() {
        assert(options.take(i) =~= front);
        assert(options.take(i + 1) =~= options);
    } else {
        lemma_option_places(toks, pos, front, i);
        assert(front.take(i) =~= options.take(i));
        assert(front.take(i + 1) =~= options.take(i + 1));
    }
}

proof fn lemma_options(toks: Seq<Tok>, pos: int, options: Seq<ChoiceOptionView>, i: int)
    requires
        0 <= pos,
        0 <= i <= options.len(),
        pos + options_len(options) < toks.len(),
        spells_options(toks, pos, options),
        toks[pos + options_len(options)].kind is Question,
    ensures
        grammar::options_at(
            toks,
            pos + options_len(options.take(i)),
            options.take(i),
            Seq::empty(),
        ) == (Parsed {
            res: Ok::<Seq<ChoiceOptionView>, Fault>(options),
            pos: pos + options_len(options),
            errs: Seq::empty(),
        }),
    decreases options, options.len() - i,
{
    let p = pos + options_len(options.take(i));
    if i < options.len() {
        let o = options[i];
        lemma_option_places(toks, pos, options, i);
        lemma_options(toks, pos, options, i + 1);
        let start = p + 3 + condition_len(o.condition);
        let next = p + option_len(o);
        if i + 1 < options.len() {
            lemma_option_places(toks, pos, options, i + 1);
        } else {
            assert(options.take(i + 1) =~= options);
        }
        assert(toks[next].kind is Pipe || toks[next].kind is Question);
        if let Some(e) = o.condition {
            grammar_laws::law_expression_reads_back(toks, p + 3, e);
        }
        lemma_body(toks, start, o.body, Stop::Option, 0);
        lemma_body_start(toks, start, o.body, true);
        assert(o.body.take(0) =~= Seq::empty());
        assert(grammar::option_condition(toks, p + 2) == Step {
            res: Ok::<Option<Expr<Seq<char>>>, Fault>(o.condition),
            pos: start - 1,
        });
        assert(options.take(i).push(o) =~= options.take(i + 1));
        assert(Seq::<Fault>::empty() + Seq::<Fault>::empty() =~= Seq::empty());
    } else {
        assert(options.take(i) =~= options);
    }
}

proof fn lemma_choice(toks: Seq<Tok>, pos: int, n: NodeView)
    requires
        n is Choice,
        spells_node(toks, pos, n),
    ensures
        grammar::node_at(toks, pos) == (Parsed {
            res: Ok::<NodeView, Fault>(n),
            pos: pos + node_len(n),
            errs: Seq::empty(),
        }),
    decreases n, 0int,
{
    if let NodeView::Choice { prompt, options, span } = n {
        let p = pos + 1 + prompt_len(prompt);
        let q = p + 1 + options_len(options);
        lemma_options(toks, p + 1, options, 0);
        assert(options.take(0) =~= Seq::empty());
        if options.len() > 0 {
            lemma_option_places(toks, p + 1, options, 0);
        }
        assert(!(toks[p + 1].kind is Newline));
        assert(grammar::past_newlines(toks, p + 1) == p + 1);
        assert(grammar::prompt_at(toks, pos + 1) == (prompt, p));
        assert(grammar::choice_at(toks, pos) == Parsed {
            res: Ok::<NodeView, Fault>(n),
            pos: q + 2,
            errs: Seq::empty(),
        });
    }
}

proof fn lemma_conditional(toks: Seq<Tok>, pos: int, n: NodeView)
    requires
        n is Conditional,
        spells_node(toks, pos, n),
    ensures
        grammar::node_at(toks, pos) == (Parsed {
            res: Ok::<NodeView, Fault>(n),
            pos: pos + node_len(n),
            errs: Seq::empty(),
        }),
    decreases n, 0int,
{
    if let NodeView::Conditional { branches, else_branch, span } = n {
        let cond = branches[0].0;
        let body = branches[0].1;
        let p = pos + 1 + grammar_laws::expr_len(cond);
        let q = p + 1 + nodes_len(body);
        grammar_laws::law_expression_reads_back(toks, pos + 1, cond);
        lemma_body(toks, p + 1, body, Stop::Branch, 0);
        lemma_body_start(toks, p + 1, body, false);
        assert(body.take(0) =~= Seq::empty());
        let end = match else_branch {
            Some(other) => q + 2 + nodes_len(other),
            None => q,
        };
        if let Some(other) = else_branch {
            lemma_body(toks, q + 2, other, Stop::Else, 0);
            lemma_body_start(toks, q + 2, other, false);
            assert(other.take(0) =~= Seq::empty());
        }
        assert(grammar::else_at(toks, q) == (else_branch, end, Seq::<Fault>::empty()));
        assert(branches =~= seq![(cond, body)]);
        assert(Seq::<Fault>::empty() + Seq::<Fault>::empty() =~= Seq::empty());
        assert(grammar::conditional_at(toks, pos) == Parsed {
            res: Ok::<NodeView, Fault>(n),
            pos: end + 2,
            errs: Seq::empty(),
        });
    }
}

proof fn lemma_node(toks: Seq<Tok>, pos: int, n: NodeView)
    requires
        spells_node(toks, pos, n),
    ensures
        grammar::node_at(toks, pos) == (Parsed {
            res: Ok::<NodeView, Fault>(n),
            pos: pos + node_len(n),
            errs: Seq::empty(),
        }),
    decreases n, 1int,
{
    match n {
        NodeView::Choice { .. } => {
            lemma_choice(toks, pos, n);
        },
        NodeView::Conditional { .. } => {
            lemma_conditional(toks, pos, n);
        },
        _ => {
            lemma_line(toks, pos, n);
        },
    }
}

/// A node that is written down is read back as it is, up to its last line end, and
/// nothing is found wrong with it.
pub proof fn law_node_reads_back(toks: Seq<Tok>, pos: int, n: NodeView)
    requires
        spells_node(toks, pos, n),
    ensures
        grammar::node_at(toks, pos) == (Parsed {
            res: Ok::<NodeView, Fault>(n),
            pos: pos + node_len(n),
            errs: Seq::empty(),
        }),
{
    lemma_node(toks, pos, n);
}

// ---------------------------------------------------------------------------
// Programs
// ---------------------------------------------------------------------------

/// The number of tokens of a section: its mark, its name, the line end and its nodes.
pub open spec fn section_len(s: SectionView) -> nat {
    3 + nodes_len(s.nodes)
}

pub open spec fn sections_len(sections: Seq<SectionView>) -> nat
    decreases sections.len(),
{
    if sections.len() == 0 {
        0
    } else {
        sections_len(sections.drop_last()) + section_len(sections.last())
    }
}

/// Whether the tokens from `pos` on are those of a section with a node in it.
pub open spec fn spells_section(toks: Seq<Tok>, pos: int, s: SectionView) -> bool {
    &&& 0 <= pos
    &&& pos + section_len(s) < toks.len()
    &&& s.nodes.len() > 0
    &&& toks[pos].span == s.span
    &&& toks[pos].kind is SectionMark
    &&& toks[pos + 1].kind == word(s.name)
    &&& toks[pos + 2].kind is Newline
    &&& spells_nodes(toks, pos + 3, s.nodes, false)
}

/// Whether tokens are those of sections, one behind the other.
pub open spec fn spells_sections(toks: Seq<Tok>, sections: Seq<SectionView>) -> bool
    decreases sections.len(),
{
    sections.len() == 0 || (spells_sections(toks, sections.drop_last()) && spells_section(
        toks,
        sections_len(sections.drop_last()) as int,
        sections.last(),
    ))
}

proof fn lemma_section_places(toks: Seq<Tok>, sections: Seq<SectionView>, i: int)
    requires
        spells_sections(toks, sections),
        0 <= i < sections.len(),
    ensures
        spells_section(toks, sections_len(sections.take(i)) as int, sections[i]),
        sections_len(sections.take(i + 1)) == sections_len(sections.take(i)) + section_len(
            sections[i],
        ),
        sections_len(sections.take(i + 1)) <= sections_len(sections),
    decreases sections.len(),
{
    let front = sections.drop_last();
    if i == front.len() {
        assert(sections.take(i) =~= front);
        assert(sections.take(i + 1) =~= sections);
    } else {
        lemma_section_places(toks, front, i);
        assert(front.take(i) =~= sections.take(i));
        assert(front.take(i + 1) =~= sections.take(i + 1));
    }
}

proof fn lemma_section_body(toks: Seq<Tok>, pos: int, nodes: Seq<NodeView>, i: int)
    requires
        0 <= pos,
        0 <= i <= nodes.len(),
        pos + nodes_len(nodes) < toks.len(),
        spells_nodes(toks, pos, nodes, false),
        toks[pos + nodes_len(nodes)].kind is Eof || toks[pos + nodes_len(
            nodes,
        )].kind is SectionMark,
    ensures
        grammar::section_body(
            toks,
            pos + nodes_len(nodes.take(i)),
            nodes.take(i),
            Seq::empty(),
        ) == (nodes, pos + nodes_len(nodes), Seq::<Fault>::empty()),
    decreases nodes.len() - i,
{
    let p = pos + nodes_len(nodes.take(i));
    if i < nodes.len() {
        lemma_places(toks, pos, nodes, false, i);
        lemma_node(toks, p, nodes[i]);
        lemma_first(toks, p, nodes[i]);
        lemma_section_body(toks, pos, nodes, i + 1);
        let next = p + node_len(nodes[i]);
        if i + 1 < nodes.len() {
            lemma_places(toks, pos, nodes, false, i + 1);
            lemma_first(toks, next, nodes[i + 1]);
        } else {
            assert(nodes.take(i + 1) =~= nodes);
        }
        assert(grammar::past_newlines(toks, next) == next);
        assert(nodes.take(i).push(nodes[i]) =~= nodes.take(i + 1));
        assert(Seq::<Fault>::empty() + Seq::<Fault>::empty() =~= Seq::empty());
    } else {
        assert(nodes.take(i) =~= nodes);
    }
}

proof fn lemma_section(toks: Seq<Tok>, pos: int, s: SectionView)
    requires
        spells_section(toks, pos, s),
        toks[pos + section_len(s)].kind is Eof || toks[pos + section_len(s)].kind is SectionMark,
    ensures
        grammar::section_step(toks, pos) == (Parsed {
            res: Ok::<SectionView, Fault>(s),
            pos: pos + section_len(s),
            errs: Seq::empty(),
        }),
{
    lemma_section_body(toks, pos + 3, s.nodes, 0);
    assert(s.nodes.take(0) =~= Seq::empty());
    lemma_places(toks, pos + 3, s.nodes, false, 0);
    lemma_first(toks, pos + 3, s.nodes[0]);
    assert(grammar::past_newlines(toks, pos + 1) == pos + 1);
    assert(grammar::past_newlines(toks, pos + 3) == pos + 3);
    assert(grammar::past_newlines(toks, pos + 2) == pos + 3);
    let end = pos + section_len(s);
    assert(grammar::past_newlines(toks, end) == end);
}

proof fn lemma_sections(toks: Seq<Tok>, sections: Seq<SectionView>, i: int)
    requires
        0 <= i <= sections.len(),
        sections_len(sections) < toks.len(),
        spells_sections(toks, sections),
        toks[sections_len(sections) as int].kind is Eof,
    ensures
        grammar::sections_at(
            toks,
            sections_len(sections.take(i)) as int,
            sections.take(i),
            Seq::empty(),
        ) == (sections, Seq::<Fault>::empty()),
    decreases sections.len() - i,
{
    let p = sections_len(sections.take(i)) as int;
    if i < sections.len() {
        lemma_section_places(toks, sections, i);
        if i + 1 < sections.len() {
            lemma_section_places(toks, sections, i + 1);
        } else {
            assert(sections.take(i + 1) =~= sections);
        }
        lemma_section(toks, p, sections[i]);
        lemma_sections(toks, sections, i + 1);
        assert(sections.take(i).push(sections[i]) =~= sections.take(i + 1));
        assert(Seq::<Fault>::empty() + Seq::<Fault>::empty() =~= Seq::empty());
    } else {
        assert(sections.take(i) =~= sections);
    }
}

/// A program that is written down is read back as it is, nothing is found wrong with
/// it, and it starts at its first section.
pub proof fn law_program_reads_back(toks: Seq<Tok>, sections: Seq<SectionView>)
    requires
        sections_len(sections) < toks.len(),
        spells_sections(toks, sections),
        toks[sections_len(sections) as int].kind is Eof,
    ensures
        grammar::parsed(toks).0.sections == sections,
        grammar::parsed(toks).0.entry == (if sections.len() > 0 {
            Some(sections[0].name)
        } else {
            None
        }),
        grammar::parsed(toks).1 == Seq::<Fault>::empty(),
{
    lemma_sections(toks, sections, 0);
    assert(sections.take(0) =~= Seq::empty());
    if sections.len() > 0 {
        lemma_section_places(toks, sections, 0);
    }
    assert(grammar::past_newlines(toks, 0) == 0);
}

} // verus!
