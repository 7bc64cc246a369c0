//! Laws of choices, of compilation and of icons.

use crate::ast::Expr;
use crate::checker::{CheckError, Severity};
use crate::code::CompiledOptionView;
use crate::compile;
use crate::compile::ErrSeverity;
use crate::eval;
use crate::eval::{AnswerMap, Outcome};
use crate::icon;
use crate::lexer;
use crate::lexer::LexError;
use crate::text;
use crate::value::Value;
use crate::vm;
use crate::vm::{ChoiceInfo, Chosen, Machine, Offers};
use vstd::prelude::*;

verus! {

// ---------------------------------------------------------------------------
// Choices
// ---------------------------------------------------------------------------

/// An option is offered behind those before it, under its own text; it can be taken where
/// it has no condition or its condition comes to a value that counts as true.
pub proof fn law_offers(
    options: Seq<CompiledOptionView>,
    o: CompiledOptionView,
    vars: Map<Seq<char>, Value<Seq<char>>>,
    answers: AnswerMap,
    infos: Seq<ChoiceInfo<Seq<char>>>,
    v: Value<Seq<char>>,
    fault: Seq<char>,
)
    requires
        vm::offers(options, vars, answers) == Offers::Ready(infos),
    ensures
        o.condition is None ==> vm::offers(options.push(o), vars, answers) == Offers::Ready(
            infos.push(ChoiceInfo { text: o.text, available: true }),
        ),
        o.condition matches Some(c) && eval::evaluated(c, vars, answers) == Outcome::Value(v)
            ==> vm::offers(options.push(o), vars, answers) == Offers::Ready(
            infos.push(ChoiceInfo { text: o.text, available: v.truthy() }),
        ),
        o.condition matches Some(c) && eval::evaluated(c, vars, answers) == Outcome::Fault(fault)
            ==> vm::offers(options.push(o), vars, answers) == Offers::Ready(
            infos.push(ChoiceInfo { text: o.text, available: false }),
        ),
{
    assert(options.push(o).drop_last() =~= options);
}

/// An option whose condition counts as true is taken: the story goes on at its body. One
/// whose condition does not is refused, and so is one that there is not.
pub proof fn law_taking_options(
    m: Machine,
    options: Seq<CompiledOptionView>,
    i: int,
    c: Expr<Seq<char>>,
    v: Value<Seq<char>>,
)
    requires
        m.pending == Some(options),
        i >= 0,
    ensures
        i < options.len() && options[i].condition == Some(c) && eval::evaluated(
            c,
            m.vars,
            m.answers,
        ) == Outcome::Value(v) && v.truthy() ==> vm::chosen(m, i) == Chosen::Done(
            Machine { ip: options[i].target, pending: None, answers: Map::empty(), ..m },
        ),
        i < options.len() && options[i].condition == Some(c) && eval::evaluated(
            c,
            m.vars,
            m.answers,
        ) == Outcome::Value(v) && !v.truthy() ==> vm::chosen(m, i) == Chosen::Fault(
            "choice "@ + text::nat_text(i as nat) + " not available"@,
            Machine { pending: None, ..m },
        ),
        i >= options.len() ==> vm::chosen(m, i) == Chosen::Fault(
            "invalid choice index: "@ + text::nat_text(i as nat),
            Machine { pending: None, ..m },
        ),
        vm::chosen(Machine { pending: None, ..m }, i) is Fault,
{
}

/// A saved game keeps the place, the variables and the way back; no choice is open in it.
pub proof fn law_restored(m: Machine, saved: Machine)
    ensures
        ({
            let r = vm::restored(m, saved);
            r.section == saved.section && r.ip == saved.ip && r.vars == saved.vars && r.stack
                == saved.stack && r.pending is None && r.code == m.code
        }),
{
}

// ---------------------------------------------------------------------------
// Compilation
// ---------------------------------------------------------------------------

/// What a stage finds keeps its message and its place; what the lexer finds is an error,
/// and what the checker finds has the severity that the checker gave it.
pub proof fn law_findings_are_kept(l: LexError<Seq<char>>, c: CheckError<Seq<char>>)
    ensures
        compile::of_lexer(l).message == l.message,
        compile::of_lexer(l).span == l.span,
        compile::of_lexer(l).severity == ErrSeverity::Error,
        compile::of_checker(c).message == c.message,
        compile::of_checker(c).span == c.span,
        compile::of_checker(c).hint == c.hint,
        compile::of_checker(c).severity == ErrSeverity::Error <==> c.severity == Severity::Error,
        compile::of_checker(c).severity == ErrSeverity::Warning <==> c.severity
            == Severity::Warning,
        compile::of_checker(c).severity == ErrSeverity::Note <==> c.severity == Severity::Note,
{
}

/// A source that the lexer refuses has no program, and exactly the findings of the lexer.
pub proof fn law_refused_source(source: Seq<char>, resources: Seq<Seq<char>>, i: int)
    requires
        0 <= i < lexer::lexed(source).errors.len(),
    ensures
        compile::compiled(source, resources).0 is None,
        compile::compiled(source, resources).1.len() == lexer::lexed(source).errors.len(),
        compile::compiled(source, resources).1[i].message == lexer::lexed(
            source,
        ).errors[i].message,
{
}

// ---------------------------------------------------------------------------
// Icons
// ---------------------------------------------------------------------------

/// The number that four bytes stand for, the lowest first.
pub open spec fn number_of(b: Seq<u8>, at: int) -> int {
    b[at] + 256 * b[at + 1] + 65536 * b[at + 2] + 16777216 * b[at + 3]
}

proof fn lemma_four(x: int)
    requires
        0 <= x < 0x1_0000_0000,
    ensures
        icon::four_bytes(x).len() == 4,
        number_of(icon::four_bytes(x), 0) == x,
{
    let a = x / 256;
    let b = x / 65536;
    let c = x / 16777216;
    assert(b == a / 256 && c == b / 256);
    assert(0 <= c < 256);
}

/// The file of an icon begins as such files do: one icon of its width and height, thirty-two
/// bits deep, whose picture follows the first twenty-two bytes, and the header of the
/// picture, with the height of the picture and its mask.
pub proof fn law_icon_headers(rgba: Seq<u8>, w: int, h: int)
    requires
        0 < w < 256,
        0 < h < 256,
    ensures
        ({
            let b = icon::icon_bytes(rgba, w, h);
            &&& b[0] == 0 && b[1] == 0 && b[2] == 1 && b[3] == 0 && b[4] == 1 && b[5] == 0
            &&& b[6] == w && b[7] == h && b[10] == 1 && b[12] == 32
            &&& number_of(b, 14) == icon::bitmap_size(w, h)
            &&& number_of(b, 18) == 22
            &&& number_of(b, 22) == 40
            &&& number_of(b, 26) == w
            &&& number_of(b, 30) == 2 * h
            &&& b[34] == 1 && b[36] == 32
        }),
{
    assert(0 <= w * h <= 65536) by (nonlinear_arith)
        requires
            0 < w < 256,
            0 < h < 256,
    ;
    let size = icon::bitmap_size(w, h);
    assert(0 <= size < 0x1_0000_0000);
    lemma_four(size);
    lemma_four(22);
    lemma_four(40);
    lemma_four(w);
    lemma_four(h * 2);
    let d = icon::directory();
    let e = icon::entry(w, h);
    let p = icon::picture_header(w, h);
    assert(d.len() == 6 && e.len() == 16 && p.len() == 40);
    let all = icon::headers(w, h);
    let b = icon::icon_bytes(rgba, w, h);
    assert forall|i: int| 0 <= i < 62 implies b[i] == all[i] by {}
    assert forall|i: int| 0 <= i < 6 implies all[i] == d[i] by {}
    assert forall|i: int| 0 <= i < 16 implies all[6 + i] == #[trigger] e[i] by {}
    assert forall|i: int| 0 <= i < 40 implies all[22 + i] == #[trigger] p[i] by {}
    assert(e[8] == icon::four_bytes(size)[0] && e[9] == icon::four_bytes(size)[1] && e[10]
        == icon::four_bytes(size)[2] && e[11] == icon::four_bytes(size)[3]);
    assert(e[12] == icon::four_bytes(22)[0] && e[13] == icon::four_bytes(22)[1] && e[14]
        == icon::four_bytes(22)[2] && e[15] == icon::four_bytes(22)[3]);
    assert(p[0] == icon::four_bytes(40)[0] && p[1] == icon::four_bytes(40)[1] && p[2]
        == icon::four_bytes(40)[2] && p[3] == icon::four_bytes(40)[3]);
    assert(p[4] == icon::four_bytes(w)[0] && p[5] == icon::four_bytes(w)[1] && p[6]
        == icon::four_bytes(w)[2] && p[7] == icon::four_bytes(w)[3]);
    assert(p[8] == icon::four_bytes(h * 2)[0] && p[9] == icon::four_bytes(h * 2)[1] && p[10]
        == icon::four_bytes(h * 2)[2] && p[11] == icon::four_bytes(h * 2)[3]);
    assert(e[0] == w && e[1] == h && e[4] == 1 && e[6] == 32 && p[12] == 1 && p[14] == 32);
}

} // verus!
