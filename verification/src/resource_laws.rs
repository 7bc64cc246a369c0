//! What declared resources change about the findings on a script.

use crate::ast::{ChoiceOptionView, Expr, NodeView, ProgramView, SectionView};
use crate::checker;
use crate::checker::{CheckError, Finding, Knowledge, Setting, Severity};
use crate::compile;
use crate::compile::{CompileError, ErrSeverity};
use crate::grammar;
use crate::lexer;
use crate::token::LocSpan;
use vstd::prelude::*;

verus! {

// ---------------------------------------------------------------------------
// Missing resources
// ---------------------------------------------------------------------------

pub open spec fn missing_text(name: Seq<char>) -> Seq<char> {
    "resource '"@ + name + "' not found"@
}

/// Whether a finding is that a resource is missing.
pub open spec fn is_missing(e: CompileError<Seq<char>>) -> bool {
    e.severity is Warning && exists|name: Seq<char>| e.message == #[trigger] missing_text(name)
}

/// The findings other than missing resources, in order.
pub open spec fn others(errs: Seq<CompileError<Seq<char>>>) -> Seq<CompileError<Seq<char>>>
    decreases errs.len(),
{
    if errs.len() == 0 {
        errs
    } else if is_missing(errs.last()) {
        others(errs.drop_last())
    } else {
        others(errs.drop_last()).push(errs.last())
    }
}

/// The missing resources among the findings, in order.
pub open spec fn missing(errs: Seq<CompileError<Seq<char>>>) -> Seq<CompileError<Seq<char>>>
    decreases errs.len(),
{
    if errs.len() == 0 {
        errs
    } else if is_missing(errs.last()) {
        missing(errs.drop_last()).push(errs.last())
    } else {
        missing(errs.drop_last())
    }
}

/// The finding about a command: a background, a tune or a sound whose name is
/// part of no declared resource.
pub open spec fn missing_of_command(
    cmd: Seq<char>,
    args: Seq<Seq<char>>,
    span: LocSpan,
    resources: Seq<Seq<char>>,
) -> Seq<CompileError<Seq<char>>> {
    if resources.len() > 0 && (cmd == "bg"@ || cmd == "music"@ || cmd == "sound"@) && args.len()
        > 0 && !checker::resource_known(resources, args[0]) {
        seq![
            CompileError {
                message: missing_text(args[0]),
                span,
                hint: Some("add '"@ + args[0] + "' to your assets directory"@),
                severity: ErrSeverity::Warning,
            },
        ]
    } else {
        Seq::empty()
    }
}

/// The missing resources of a node and of the bodies in it.
pub open spec fn missing_of(n: NodeView, resources: Seq<Seq<char>>) -> Seq<
    CompileError<Seq<char>>,
>
    decreases n,
{
    match n {
        NodeView::Command { cmd, args, span, .. } => missing_of_command(
            cmd,
            args,
            span,
            resources,
        ),
        NodeView::Choice { options, .. } => missing_of_options(options, resources),
        NodeView::Conditional { branches, else_branch, .. } => missing_of_branches(
            branches,
            resources,
        ) + match else_branch {
            Some(body) => missing_of_nodes(body, resources),
            None => Seq::empty(),
        },
        _ => Seq::empty(),
    }
}

pub open spec fn missing_of_nodes(nodes: Seq<NodeView>, resources: Seq<Seq<char>>) -> Seq<
    CompileError<Seq<char>>,
>
    decreases nodes,
{
    if nodes.len() == 0 {
        Seq::empty()
    } else {
        missing_of_nodes(nodes.drop_last(), resources) + missing_of(nodes.last(), resources)
    }
}

pub open spec fn missing_of_option(o: ChoiceOptionView, resources: Seq<Seq<char>>) -> Seq<
    CompileError<Seq<char>>,
>
    decreases o,
{
    missing_of_nodes(o.body, resources)
}

pub open spec fn missing_of_options(
    options: Seq<ChoiceOptionView>,
    resources: Seq<Seq<char>>,
) -> Seq<CompileError<Seq<char>>>
    decreases options,
{
    if options.len() == 0 {
        Seq::empty()
    } else {
        missing_of_options(options.drop_last(), resources) + missing_of_option(
            options.last(),
            resources,
        )
    }
}

pub open spec fn missing_of_branches(
    branches: Seq<(Expr<Seq<char>>, Seq<NodeView>)>,
    resources: Seq<Seq<char>>,
) -> Seq<CompileError<Seq<char>>>
    decreases branches,
{
    if branches.len() == 0 {
        Seq::empty()
    } else {
        missing_of_branches(branches.drop_last(), resources) + missing_of_nodes(
            branches.last().1,
            resources,
        )
    }
}

/// The missing resources of a program.
pub open spec fn missing_of_sections(
    sections: Seq<SectionView>,
    resources: Seq<Seq<char>>,
) -> Seq<CompileError<Seq<char>>>
    decreases sections.len(),
{
    if sections.len() == 0 {
        Seq::empty()
    } else {
        missing_of_sections(sections.drop_last(), resources) + missing_of_nodes(
            sections.last().nodes,
            resources,
        )
    }
}

// ---------------------------------------------------------------------------
// The check with resources and without
// ---------------------------------------------------------------------------

/// The findings of the checker as they are handed out.
spec fn handed(errs: Seq<Finding>) -> Seq<CompileError<Seq<char>>> {
    Seq::new(errs.len(), |i: int| compile::of_checker(errs[i]))
}

/// Whether `a` knows what `b` knows, and `w` is missing besides.
spec fn beside(a: Knowledge, b: Knowledge, w: Seq<CompileError<Seq<char>>>) -> bool {
    &&& a.vars == b.vars
    &&& others(handed(a.errs)) == handed(b.errs)
    &&& missing(handed(a.errs)) == w
}

proof fn lemma_handed_push(errs: Seq<Finding>, f: Finding)
    ensures
        handed(errs.push(f)) == handed(errs).push(compile::of_checker(f)),
{
    assert(handed(errs.push(f)) =~= handed(errs).push(compile::of_checker(f)));
}

proof fn lemma_push(errs: Seq<CompileError<Seq<char>>>, e: CompileError<Seq<char>>)
    ensures
        is_missing(e) ==> others(errs.push(e)) == others(errs) && missing(errs.push(e))
            == missing(errs).push(e),
        !is_missing(e) ==> others(errs.push(e)) == others(errs).push(e) && missing(errs.push(e))
            == missing(errs),
{
    assert(errs.push(e).drop_last() =~= errs);
}

proof fn lemma_note(
    a: Knowledge,
    b: Knowledge,
    w: Seq<CompileError<Seq<char>>>,
    message: Seq<char>,
    span: LocSpan,
    hint: Option<Seq<char>>,
)
    requires
        beside(a, b, w),
    ensures
        beside(checker::note(a, message, span, hint), checker::note(b, message, span, hint), w),
{
    let f = CheckError { message, span, hint, severity: Severity::Error };
    lemma_handed_push(a.errs, f);
    lemma_handed_push(b.errs, f);
    lemma_push(handed(a.errs), compile::of_checker(f));
}

proof fn lemma_infer(
    e: Expr<Seq<char>>,
    a: Knowledge,
    b: Knowledge,
    w: Seq<CompileError<Seq<char>>>,
)
    requires
        beside(a, b, w),
    ensures
        checker::infer(e, a).0 == checker::infer(e, b).0,
        beside(checker::infer(e, a).1, checker::infer(e, b).1, w),
    decreases e,
{
    match e {
        Expr::Var(name) => {
            lemma_note(
                a,
                b,
                w,
                "undefined variable: '"@ + name + "'"@,
                checker::expr_span(e),
                Some("declare with $"@ + name + " = ... first"@),
            );
        },
        Expr::Binary { op, left, right, span } => {
            lemma_infer(*left, a, b, w);
            let (lt, a1) = checker::infer(*left, a);
            let b1 = checker::infer(*left, b).1;
            lemma_infer(*right, a1, b1, w);
            let (rt, a2) = checker::infer(*right, a1);
            let b2 = checker::infer(*right, b1).1;
            lemma_note(
                a2,
                b2,
                w,
                "cannot apply "@ + checker::binop_text(op) + " to "@ + lt.type_text() + " and "@
                    + rt.type_text(),
                span,
                None,
            );
            lemma_note(
                a2,
                b2,
                w,
                "expected bool, found "@ + lt.type_text(),
                checker::expr_span(*left),
                None,
            );
        },
        Expr::Unary { operand, span, .. } => {
            lemma_infer(*operand, a, b, w);
            let (ot, a1) = checker::infer(*operand, a);
            let b1 = checker::infer(*operand, b).1;
            lemma_note(a1, b1, w, "cannot negate "@ + ot.type_text(), span, None);
        },
        _ => {},
    }
}

proof fn lemma_condition(
    e: Expr<Seq<char>>,
    a: Knowledge,
    b: Knowledge,
    w: Seq<CompileError<Seq<char>>>,
    what: Seq<char>,
    span: LocSpan,
)
    requires
        beside(a, b, w),
    ensures
        beside(
            checker::condition(e, a, what, span),
            checker::condition(e, b, what, span),
            w,
        ),
{
    lemma_infer(e, a, b, w);
    let (t, a1) = checker::infer(e, a);
    lemma_note(
        a1,
        checker::infer(e, b).1,
        w,
        what + " condition must be bool, found "@ + t.type_text(),
        span,
        None,
    );
}

proof fn lemma_command(
    s: Setting,
    cmd: Seq<char>,
    args: Seq<Seq<char>>,
    span: LocSpan,
    a: Knowledge,
    b: Knowledge,
    w: Seq<CompileError<Seq<char>>>,
)
    requires
        beside(a, b, w),
    ensures
        beside(
            checker::check_command(s, cmd, args, a, span),
            checker::check_command(
                Setting { resources: Seq::empty(), ..s },
                cmd,
                args,
                b,
                span,
            ),
            w + missing_of_command(cmd, args, span, s.resources),
        ),
{
    let more = missing_of_command(cmd, args, span, s.resources);
    if more.len() > 0 {
        let f = CheckError {
            message: "resource '"@ + args[0] + "' not found"@,
            span,
            hint: Some("add '"@ + args[0] + "' to your assets directory"@),
            severity: Severity::Warning,
        };
        lemma_handed_push(a.errs, f);
        lemma_push(handed(a.errs), compile::of_checker(f));
        assert(compile::of_checker(f).message == missing_text(args[0]));
        assert(w + more =~= w.push(compile::of_checker(f)));
    } else {
        assert(w + more =~= w);
    }
}

proof fn lemma_node(
    n: NodeView,
    s: Setting,
    a: Knowledge,
    b: Knowledge,
    w: Seq<CompileError<Seq<char>>>,
    stage: Seq<Seq<char>>,
)
    requires
        beside(a, b, w),
    ensures
        ({
            let bare = Setting { resources: Seq::empty(), ..s };
            let (a1, stage1) = checker::check_node(n, s, a, stage);
            let (b1, stage2) = checker::check_node(n, bare, b, stage);
            stage1 == stage2 && beside(a1, b1, w + missing_of(n, s.resources))
        }),
    decreases n,
{
    let bare = Setting { resources: Seq::empty(), ..s };
    assert(w + Seq::<CompileError<Seq<char>>>::empty() =~= w);
    match n {
        NodeView::Command { cmd, args, span, .. } => {
            lemma_command(s, cmd, args, span, a, b, w);
        },
        NodeView::Direction { action, span } => {
            lemma_note(
                a,
                b,
                w,
                "too many characters on stage: '"@ + action.character
                    + "' would be the 3rd (limit is 2)"@,
                span,
                Some("exit a character with `- Name` before entering a new one"@),
            );
        },
        NodeView::VarOp { name, op, expr, span } => {
            lemma_infer(expr, a, b, w);
            let (t, a1) = checker::infer(expr, a);
            let b1 = checker::infer(expr, b).1;
            lemma_note(
                a1,
                b1,
                w,
                "undefined variable: '"@ + name + "'"@,
                span,
                Some("declare with $"@ + name + " = ... first"@),
            );
            lemma_note(
                a1,
                b1,
                w,
                "type mismatch: cannot apply "@ + checker::varop_text(op) + " to "@ + name + " ("@
                    + a1.vars[name].type_text() + ") and "@ + t.type_text(),
                span,
                None,
            );
        },
        NodeView::Choice { options, .. } => {
            lemma_options(options, s, a, b, w, stage);
        },
        NodeView::Conditional { branches, else_branch, .. } => {
            lemma_branches(branches, s, a, b, w, stage);
            let a1 = checker::check_branches(branches, s, a, stage);
            let b1 = checker::check_branches(branches, bare, b, stage);
            let w1 = w + missing_of_branches(branches, s.resources);
            match else_branch {
                Some(body) => {
                    lemma_nodes(body, s, a1, b1, w1, stage);
                    assert(w + missing_of(n, s.resources) =~= w1 + missing_of_nodes(
                        body,
                        s.resources,
                    ));
                },
                None => {
                    assert(w + missing_of(n, s.resources) =~= w1);
                },
            }
        },
        NodeView::Flow { target, span } => {
            lemma_note(
                a,
                b,
                w,
                "undefined section: '"@ + target + "'"@,
                span,
                Some(checker::suggestion(s.defs, target)),
            );
        },
        NodeView::Visit { target, span } => {
            lemma_note(
                a,
                b,
                w,
                "undefined section: '"@ + target + "'"@,
                span,
                Some(checker::suggestion(s.defs, target)),
            );
        },
        _ => {},
    }
}

proof fn lemma_nodes(
    nodes: Seq<NodeView>,
    s: Setting,
    a: Knowledge,
    b: Knowledge,
    w: Seq<CompileError<Seq<char>>>,
    stage: Seq<Seq<char>>,
)
    requires
        beside(a, b, w),
    ensures
        ({
            let bare = Setting { resources: Seq::empty(), ..s };
            let (a1, stage1) = checker::check_nodes(nodes, s, a, stage);
            let (b1, stage2) = checker::check_nodes(nodes, bare, b, stage);
            stage1 == stage2 && beside(a1, b1, w + missing_of_nodes(nodes, s.resources))
        }),
    decreases nodes,
{
    let bare = Setting { resources: Seq::empty(), ..s };
    if nodes.len() == 0 {
        assert(w + missing_of_nodes(nodes, s.resources) =~= w);
    } else {
        let front = nodes.drop_last();
        lemma_nodes(front, s, a, b, w, stage);
        let (a1, stage1) = checker::check_nodes(front, s, a, stage);
        let b1 = checker::check_nodes(front, bare, b, stage).0;
        let w1 = w + missing_of_nodes(front, s.resources);
        lemma_node(nodes.last(), s, a1, b1, w1, stage1);
        assert(w + missing_of_nodes(nodes, s.resources) =~= w1 + missing_of(
            nodes.last(),
            s.resources,
        ));
    }
}

proof fn lemma_option(
    o: ChoiceOptionView,
    s: Setting,
    a: Knowledge,
    b: Knowledge,
    w: Seq<CompileError<Seq<char>>>,
    stage: Seq<Seq<char>>,
)
    requires
        beside(a, b, w),
    ensures
        beside(
            checker::check_option(o, s, a, stage),
            checker::check_option(o, Setting { resources: Seq::empty(), ..s }, b, stage),
            w + missing_of_option(o, s.resources),
        ),
    decreases o,
{
    match o.condition {
        Some(c) => {
            lemma_condition(c, a, b, w, "choice"@, o.span);
            lemma_nodes(
                o.body,
                s,
                checker::condition(c, a, "choice"@, o.span),
                checker::condition(c, b, "choice"@, o.span),
                w,
                stage,
            );
        },
        None => {
            lemma_nodes(o.body, s, a, b, w, stage);
        },
    }
}

proof fn lemma_options(
    options: Seq<ChoiceOptionView>,
    s: Setting,
    a: Knowledge,
    b: Knowledge,
    w: Seq<CompileError<Seq<char>>>,
    stage: Seq<Seq<char>>,
)
    requires
        beside(a, b, w),
    ensures
        beside(
            checker::check_options(options, s, a, stage),
            checker::check_options(options, Setting { resources: Seq::empty(), ..s }, b, stage),
            w + missing_of_options(options, s.resources),
        ),
    decreases options,
{
    let bare = Setting { resources: Seq::empty(), ..s };
    if options.len() == 0 {
        assert(w + missing_of_options(options, s.resources) =~= w);
    } else {
        let front = options.drop_last();
        lemma_options(front, s, a, b, w, stage);
        let w1 = w + missing_of_options(front, s.resources);
        lemma_option(
            options.last(),
            s,
            checker::check_options(front, s, a, stage),
            checker::check_options(front, bare, b, stage),
            w1,
            stage,
        );
        assert(w + missing_of_options(options, s.resources) =~= w1 + missing_of_option(
            options.last(),
            s.resources,
        ));
    }
}

proof fn lemma_branches(
    branches: Seq<(Expr<Seq<char>>, Seq<NodeView>)>,
    s: Setting,
    a: Knowledge,
    b: Knowledge,
    w: Seq<CompileError<Seq<char>>>,
    stage: Seq<Seq<char>>,
)
    requires
        beside(a, b, w),
    ensures
        beside(
            checker::check_branches(branches, s, a, stage),
            checker::check_branches(branches, Setting { resources: Seq::empty(), ..s }, b, stage),
            w + missing_of_branches(branches, s.resources),
        ),
    decreases branches,
{
    let bare = Setting { resources: Seq::empty(), ..s };
    if branches.len() == 0 {
        assert(w + missing_of_branches(branches, s.resources) =~= w);
    } else {
        let front = branches.drop_last();
        lemma_branches(front, s, a, b, w, stage);
        let a1 = checker::check_branches(front, s, a, stage);
        let b1 = checker::check_branches(front, bare, b, stage);
        let w1 = w + missing_of_branches(front, s.resources);
        let (cond, body) = branches.last();
        let span = checker::expr_span(cond);
        lemma_condition(cond, a1, b1, w1, "if"@, span);
        lemma_nodes(
            body,
            s,
            checker::condition(cond, a1, "if"@, span),
            checker::condition(cond, b1, "if"@, span),
            w1,
            stage,
        );
        assert(w + missing_of_branches(branches, s.resources) =~= w1 + missing_of_nodes(
            body,
            s.resources,
        ));
    }
}

proof fn lemma_sections(
    sections: Seq<SectionView>,
    s: Setting,
    a: Knowledge,
    b: Knowledge,
    w: Seq<CompileError<Seq<char>>>,
)
    requires
        beside(a, b, w),
    ensures
        beside(
            checker::check_sections(sections, s, a),
            checker::check_sections(sections, Setting { resources: Seq::empty(), ..s }, b),
            w + missing_of_sections(sections, s.resources),
        ),
    decreases sections.len(),
{
    let bare = Setting { resources: Seq::empty(), ..s };
    if sections.len() == 0 {
        assert(w + missing_of_sections(sections, s.resources) =~= w);
    } else {
        let front = sections.drop_last();
        lemma_sections(front, s, a, b, w);
        let w1 = w + missing_of_sections(front, s.resources);
        lemma_nodes(
            sections.last().nodes,
            s,
            checker::check_sections(front, s, a),
            checker::check_sections(front, bare, b),
            w1,
            Seq::empty(),
        );
        assert(w + missing_of_sections(sections, s.resources) =~= w1 + missing_of_nodes(
            sections.last().nodes,
            s.resources,
        ));
    }
}

/// Findings of which none is about a missing resource.
proof fn lemma_none_missing(errs: Seq<CompileError<Seq<char>>>)
    requires
        forall|i: int| 0 <= i < errs.len() ==> !is_missing(#[trigger] errs[i]),
    ensures
        others(errs) == errs,
        missing(errs) == Seq::<CompileError<Seq<char>>>::empty(),
    decreases errs.len(),
{
    if errs.len() > 0 {
        let front = errs.drop_last();
        assert forall|i: int| 0 <= i < front.len() implies !is_missing(#[trigger] front[i]) by {
            assert(front[i] == errs[i]);
        }
        lemma_none_missing(front);
        assert(errs[errs.len() - 1] == errs.last());
        assert(front.push(errs.last()) =~= errs);
    } else {
        assert(errs =~= Seq::empty());
    }
}

proof fn lemma_definitions(sections: Seq<SectionView>)
    ensures
        forall|i: int|
            0 <= i < checker::definitions(sections).1.len() ==> !((#[trigger] checker::definitions(
                sections,
            ).1[i]).severity is Warning),
    decreases sections.len(),
{
    if sections.len() > 0 {
        lemma_definitions(sections.drop_last());
    }
}

proof fn lemma_findings(p: ProgramView, resources: Seq<Seq<char>>)
    ensures
        others(handed(checker::findings(p, resources))) == handed(
            checker::findings(p, Seq::empty()),
        ),
        missing(handed(checker::findings(p, resources))) == missing_of_sections(
            p.sections,
            resources,
        ),
{
    let (defs, errs) = checker::definitions(p.sections);
    let k = Knowledge { vars: Map::empty(), errs: errs + checker::check_entry(p, defs) };
    let none = Seq::<CompileError<Seq<char>>>::empty();
    lemma_definitions(p.sections);
    assert forall|i: int| 0 <= i < handed(k.errs).len() implies !is_missing(
        #[trigger] handed(k.errs)[i],
    ) by {
        if i < errs.len() {
            assert(k.errs[i] == errs[i]);
        } else {
            reveal_strlit("resource '");
            reveal_strlit("no sections defined");
            let e = handed(k.errs)[i];
            if is_missing(e) {
                let name = choose|name: Seq<char>| e.message == #[trigger] missing_text(name);
                assert(missing_text(name)[0] == 'r');
                assert("no sections defined"@[0] == 'n');
            }
        }
    }
    lemma_none_missing(handed(k.errs));
    let s = Setting { defs, resources };
    lemma_sections(p.sections, s, k, k, none);
    assert(none + missing_of_sections(p.sections, resources) =~= missing_of_sections(
        p.sections,
        resources,
    ));
}

proof fn lemma_has_error(errs: Seq<CompileError<Seq<char>>>)
    ensures
        (exists|i: int| 0 <= i < errs.len() && (#[trigger] errs[i]).severity is Error) <==> (
        exists|i: int| 0 <= i < others(errs).len() && (#[trigger] others(errs)[i]).severity is Error),
    decreases errs.len(),
{
    if errs.len() > 0 {
        let front = errs.drop_last();
        let last = errs.last();
        lemma_has_error(front);
        if exists|i: int| 0 <= i < errs.len() && (#[trigger] errs[i]).severity is Error {
            let i = choose|i: int| 0 <= i < errs.len() && (#[trigger] errs[i]).severity is Error;
            if i < front.len() {
                assert(front[i].severity is Error);
                let j = choose|j: int|
                    0 <= j < others(front).len() && (#[trigger] others(front)[j]).severity is Error;
                assert(others(errs)[j].severity is Error);
            } else {
                assert(others(errs)[others(errs).len() - 1] == last);
            }
        }
        if exists|i: int|
            0 <= i < others(errs).len() && (#[trigger] others(errs)[i]).severity is Error {
            let i = choose|i: int|
                0 <= i < others(errs).len() && (#[trigger] others(errs)[i]).severity is Error;
            if i < others(front).len() {
                assert(others(front)[i].severity is Error);
                let j = choose|j: int|
                    0 <= j < front.len() && (#[trigger] front[j]).severity is Error;
                assert(errs[j].severity is Error);
            } else {
                assert(errs[errs.len() - 1].severity is Error);
            }
        }
    }
}

// ---------------------------------------------------------------------------
// The law
// ---------------------------------------------------------------------------

/// Declared resources only add warnings: a source has the same program with them
/// and without, and its findings are the same but for the resources that are
/// missing. Of those there is one for each background, tune or sound whose name
/// is part of no declared resource, in the order of the program; with nothing
/// declared there are none.
pub proof fn law_resources_only_warn(source: Seq<char>, resources: Seq<Seq<char>>)
    ensures
        compile::compiled(source, resources).0 == compile::compiled(source, Seq::empty()).0,
        others(compile::compiled(source, resources).1) == compile::compiled(
            source,
            Seq::empty(),
        ).1,
        ({
            let l = lexer::lexed(source);
            let (program, faults) = grammar::parsed(l.tokens);
            missing(compile::compiled(source, resources).1) == if l.errors.len() > 0
                || faults.len() > 0 {
                Seq::empty()
            } else {
                missing_of_sections(program.sections, resources)
            }
        }),
        missing(compile::compiled(source, Seq::empty()).1).len() == 0,
{
    let l = lexer::lexed(source);
    let (program, faults) = grammar::parsed(l.tokens);
    let all = compile::compiled(source, resources).1;
    if l.errors.len() > 0 || faults.len() > 0 {
        lemma_none_missing(all);
    } else {
        let found = checker::findings(program, resources);
        let plain = checker::findings(program, Seq::empty());
        lemma_findings(program, resources);
        lemma_findings(program, Seq::empty());
        assert(all =~= handed(found));
        assert(compile::compiled(source, Seq::empty()).1 =~= handed(plain));
        lemma_has_error(handed(found));
        lemma_same_errors(found);
        lemma_same_errors(plain);
        lemma_none_declared(program.sections);
    }
}

proof fn lemma_same_errors(errs: Seq<Finding>)
    ensures
        (exists|i: int| 0 <= i < errs.len() && (#[trigger] errs[i]).severity is Error) <==> (
        exists|i: int| 0 <= i < handed(errs).len() && (#[trigger] handed(errs)[i]).severity is Error),
{
    if exists|i: int| 0 <= i < errs.len() && (#[trigger] errs[i]).severity is Error {
        let i = choose|i: int| 0 <= i < errs.len() && (#[trigger] errs[i]).severity is Error;
        assert(handed(errs)[i].severity is Error);
    }
    if exists|i: int| 0 <= i < handed(errs).len() && (#[trigger] handed(errs)[i]).severity is Error {
        let i = choose|i: int|
            0 <= i < handed(errs).len() && (#[trigger] handed(errs)[i]).severity is Error;
        assert(errs[i].severity is Error);
    }
}

proof fn lemma_none_declared(sections: Seq<SectionView>)
    ensures
        missing_of_sections(sections, Seq::empty()).len() == 0,
    decreases sections.len(),
{
    if sections.len() > 0 {
        lemma_none_declared(sections.drop_last());
        lemma_none_declared_nodes(sections.last().nodes);
    }
}

proof fn lemma_none_declared_node(n: NodeView)
    ensures
        missing_of(n, Seq::empty()).len() == 0,
    decreases n,
{
    match n {
        NodeView::Choice { options, .. } => {
            lemma_none_declared_options(options);
        },
        NodeView::Conditional { branches, else_branch, .. } => {
            lemma_none_declared_branches(branches);
            if let Some(body) = else_branch {
                lemma_none_declared_nodes(body);
            }
        },
        _ => {},
    }
}

proof fn lemma_none_declared_nodes(nodes: Seq<NodeView>)
    ensures
        missing_of_nodes(nodes, Seq::empty()).len() == 0,
    decreases nodes,
{
    if nodes.len() > 0 {
        lemma_none_declared_nodes(nodes.drop_last());
        lemma_none_declared_node(nodes.last());
    }
}

proof fn lemma_none_declared_option(o: ChoiceOptionView)
    ensures
        missing_of_option(o, Seq::empty()).len() == 0,
    decreases o,
{
    lemma_none_declared_nodes(o.body);
}

proof fn lemma_none_declared_options(options: Seq<ChoiceOptionView>)
    ensures
        missing_of_options(options, Seq::empty()).len() == 0,
    decreases options,
{
    if options.len() > 0 {
        lemma_none_declared_options(options.drop_last());
        lemma_none_declared_option(options.last());
    }
}

proof fn lemma_none_declared_branches(branches: Seq<(Expr<Seq<char>>, Seq<NodeView>)>)
    ensures
        missing_of_branches(branches, Seq::empty()).len() == 0,
    decreases branches,
{
    if branches.len() > 0 {
        lemma_none_declared_branches(branches.drop_last());
        lemma_none_declared_nodes(branches.last().1);
    }
}

} // verus!
