//! What holds of a program in which the checker finds no error.

use crate::ast::{ChoiceOptionView, Expr, NodeView, ProgramView, SectionView};
use crate::checker;
use crate::checker::{CheckError, Finding, Knowledge, Setting, Severity};
use crate::code;
use crate::token::LocSpan;
use crate::vm;
use vstd::prelude::*;

verus! {

/// Whether none of the findings is an error.
pub open spec fn clean(errs: Seq<Finding>) -> bool {
    forall|i: int| 0 <= i < errs.len() ==> (#[trigger] errs[i]).severity != Severity::Error
}

// ---------------------------------------------------------------------------
// Where a node leads
// ---------------------------------------------------------------------------

/// Whether every section that a node names, itself or in one of its bodies, is
/// among the names.
pub open spec fn leads_on(n: NodeView, names: Seq<Seq<char>>) -> bool
    decreases n,
{
    match n {
        NodeView::Choice { options, .. } => options_lead_on(options, names),
        NodeView::Conditional { branches, else_branch, .. } => branches_lead_on(branches, names)
            && match else_branch {
            Some(body) => nodes_lead_on(body, names),
            None => true,
        },
        NodeView::Flow { target, .. } => code::section_index(names, target) is Some,
        NodeView::Visit { target, .. } => code::section_index(names, target) is Some,
        _ => true,
    }
}

pub open spec fn nodes_lead_on(nodes: Seq<NodeView>, names: Seq<Seq<char>>) -> bool
    decreases nodes,
{
    nodes.len() == 0 || (nodes_lead_on(nodes.drop_last(), names) && leads_on(nodes.last(), names))
}

pub open spec fn option_leads_on(o: ChoiceOptionView, names: Seq<Seq<char>>) -> bool
    decreases o,
{
    nodes_lead_on(o.body, names)
}

pub open spec fn options_lead_on(options: Seq<ChoiceOptionView>, names: Seq<Seq<char>>) -> bool
    decreases options,
{
    options.len() == 0 || (options_lead_on(options.drop_last(), names) && option_leads_on(
        options.last(),
        names,
    ))
}

pub open spec fn branches_lead_on(
    branches: Seq<(Expr<Seq<char>>, Seq<NodeView>)>,
    names: Seq<Seq<char>>,
) -> bool
    decreases branches,
{
    branches.len() == 0 || (branches_lead_on(branches.drop_last(), names) && nodes_lead_on(
        branches.last().1,
        names,
    ))
}

// ---------------------------------------------------------------------------
// Findings stay
// ---------------------------------------------------------------------------

/// Whether what was known is still known: no error went away.
pub open spec fn grew(before: Knowledge, after: Knowledge) -> bool {
    clean(after.errs) ==> clean(before.errs)
}

proof fn lemma_clean_push(errs: Seq<Finding>, f: Finding)
    ensures
        clean(errs.push(f)) ==> clean(errs) && f.severity != Severity::Error,
{
    if clean(errs.push(f)) {
        assert(errs.push(f)[errs.len() as int] == f);
        assert forall|i: int| 0 <= i < errs.len() implies (#[trigger] errs[i]).severity
            != Severity::Error by {
            assert(errs.push(f)[i] == errs[i]);
        }
    }
}

/// An error that was noted is there.
proof fn lemma_noted(
    k: Knowledge,
    message: Seq<char>,
    span: LocSpan,
    hint: Option<Seq<char>>,
)
    ensures
        !clean(checker::note(k, message, span, hint).errs),
{
    let errs = checker::note(k, message, span, hint).errs;
    assert(errs[k.errs.len() as int].severity == Severity::Error);
}

proof fn lemma_infer_grows(e: Expr<Seq<char>>, k: Knowledge)
    ensures
        grew(k, checker::infer(e, k).1),
    decreases e,
{
    match e {
        Expr::Var(name) => {
            if !k.vars.contains_key(name) {
                lemma_noted(
                    k,
                    "undefined variable: '"@ + name + "'"@,
                    checker::expr_span(e),
                    Some("declare with $"@ + name + " = ... first"@),
                );
            }
        },
        Expr::Binary { op, left, right, span } => {
            let (lt, k1) = checker::infer(*left, k);
            let (rt, k2) = checker::infer(*right, k1);
            lemma_infer_grows(*left, k);
            lemma_infer_grows(*right, k1);
            lemma_noted(
                k2,
                "cannot apply "@ + checker::binop_text(op) + " to "@ + lt.type_text() + " and "@
                    + rt.type_text(),
                span,
                None,
            );
            lemma_noted(
                k2,
                "expected bool, found "@ + lt.type_text(),
                checker::expr_span(*left),
                None,
            );
        },
        Expr::Unary { op, operand, span } => {
            let (ot, k1) = checker::infer(*operand, k);
            lemma_infer_grows(*operand, k);
            lemma_noted(k1, "cannot negate "@ + ot.type_text(), span, None);
        },
        _ => {},
    }
}

proof fn lemma_condition_grows(
    e: Expr<Seq<char>>,
    k: Knowledge,
    what: Seq<char>,
    span: LocSpan,
)
    ensures
        grew(k, checker::condition(e, k, what, span)),
{
    lemma_infer_grows(e, k);
    let (t, k1) = checker::infer(e, k);
    lemma_noted(k1, what + " condition must be bool, found "@ + t.type_text(), span, None);
}

/// Whether a name that is defined is that of a section.
pub open spec fn names_all(s: Setting, names: Seq<Seq<char>>) -> bool {
    forall|name: Seq<char>| #[trigger]
        checker::defined_at(s.defs, name) is Some ==> code::section_index(names, name) is Some
}

proof fn lemma_target(
    s: Setting,
    target: Seq<char>,
    k: Knowledge,
    span: LocSpan,
    names: Seq<Seq<char>>,
)
    requires
        names_all(s, names),
    ensures
        grew(k, checker::check_target(s, target, k, span)),
        clean(checker::check_target(s, target, k, span).errs) ==> code::section_index(
            names,
            target,
        ) is Some,
{
    if !(checker::defined_at(s.defs, target) is Some) {
        lemma_noted(
            k,
            "undefined section: '"@ + target + "'"@,
            span,
            Some(checker::suggestion(s.defs, target)),
        );
    }
}

proof fn lemma_without(names: Seq<Seq<char>>, name: Seq<char>)
    ensures
        checker::without(names, name).len() <= names.len(),
    decreases names.len(),
{
    if names.len() > 0 {
        lemma_without(names.drop_last(), name);
    }
}

/// What a clean check of a node tells: what came before was clean, the node
/// leads to sections only, and at most two characters are on stage.
proof fn lemma_node(
    n: NodeView,
    s: Setting,
    k: Knowledge,
    stage: Seq<Seq<char>>,
    names: Seq<Seq<char>>,
)
    requires
        names_all(s, names),
    ensures
        clean(checker::check_node(n, s, k, stage).0.errs) ==> clean(k.errs) && leads_on(n, names)
            && (stage.len() <= 2 ==> checker::check_node(n, s, k, stage).1.len() <= 2),
    decreases n,
{
    match n {
        NodeView::Command { cmd, args, span, .. } => {
            if args.len() > 0 {
                lemma_clean_push(
                    k.errs,
                    CheckError {
                        message: "resource '"@ + args[0] + "' not found"@,
                        span,
                        hint: Some("add '"@ + args[0] + "' to your assets directory"@),
                        severity: Severity::Warning,
                    },
                );
            }
        },
        NodeView::Direction { action, span } => {
            lemma_without(stage, action.character);
            lemma_noted(
                k,
                "too many characters on stage: '"@ + action.character
                    + "' would be the 3rd (limit is 2)"@,
                span,
                Some("exit a character with `- Name` before entering a new one"@),
            );
        },
        NodeView::VarOp { name, op, expr, span } => {
            lemma_infer_grows(expr, k);
            let (t, k1) = checker::infer(expr, k);
            lemma_noted(
                k1,
                "undefined variable: '"@ + name + "'"@,
                span,
                Some("declare with $"@ + name + " = ... first"@),
            );
            if k1.vars.contains_key(name) {
                lemma_noted(
                    k1,
                    "type mismatch: cannot apply "@ + checker::varop_text(op) + " to "@ + name
                        + " ("@ + k1.vars[name].type_text() + ") and "@ + t.type_text(),
                    span,
                    None,
                );
            }
        },
        NodeView::Choice { options, .. } => {
            lemma_options(options, s, k, stage, names);
        },
        NodeView::Conditional { branches, else_branch, .. } => {
            lemma_branches(branches, s, k, stage, names);
            match else_branch {
                Some(body) => {
                    lemma_nodes(
                        body,
                        s,
                        checker::check_branches(branches, s, k, stage),
                        stage,
                        names,
                    );
                },
                None => {},
            }
        },
        NodeView::Flow { target, span } => {
            lemma_target(s, target, k, span, names);
        },
        NodeView::Visit { target, span } => {
            lemma_target(s, target, k, span, names);
        },
        _ => {},
    }
}

proof fn lemma_nodes(
    nodes: Seq<NodeView>,
    s: Setting,
    k: Knowledge,
    stage: Seq<Seq<char>>,
    names: Seq<Seq<char>>,
)
    requires
        names_all(s, names),
    ensures
        clean(checker::check_nodes(nodes, s, k, stage).0.errs) ==> clean(k.errs) && nodes_lead_on(
            nodes,
            names,
        ) && (stage.len() <= 2 ==> checker::check_nodes(nodes, s, k, stage).1.len() <= 2),
    decreases nodes,
{
    if nodes.len() > 0 {
        let front = nodes.drop_last();
        let (k1, stage1) = checker::check_nodes(front, s, k, stage);
        lemma_nodes(front, s, k, stage, names);
        lemma_node(nodes.last(), s, k1, stage1, names);
    }
}

proof fn lemma_options(
    options: Seq<ChoiceOptionView>,
    s: Setting,
    k: Knowledge,
    stage: Seq<Seq<char>>,
    names: Seq<Seq<char>>,
)
    requires
        names_all(s, names),
    ensures
        clean(checker::check_options(options, s, k, stage).errs) ==> clean(k.errs)
            && options_lead_on(options, names),
    decreases options,
{
    if options.len() > 0 {
        let front = options.drop_last();
        lemma_options(front, s, k, stage, names);
        lemma_option(
            options.last(),
            s,
            checker::check_options(front, s, k, stage),
            stage,
            names,
        );
    }
}

proof fn lemma_option(
    o: ChoiceOptionView,
    s: Setting,
    k: Knowledge,
    stage: Seq<Seq<char>>,
    names: Seq<Seq<char>>,
)
    requires
        names_all(s, names),
    ensures
        clean(checker::check_option(o, s, k, stage).errs) ==> clean(k.errs) && option_leads_on(
            o,
            names,
        ),
    decreases o,
{
    let k1 = match o.condition {
        Some(c) => checker::condition(c, k, "choice"@, o.span),
        None => k,
    };
    if o.condition is Some {
        lemma_condition_grows(o.condition->0, k, "choice"@, o.span);
    }
    lemma_nodes(o.body, s, k1, stage, names);
}

proof fn lemma_branches(
    branches: Seq<(Expr<Seq<char>>, Seq<NodeView>)>,
    s: Setting,
    k: Knowledge,
    stage: Seq<Seq<char>>,
    names: Seq<Seq<char>>,
)
    requires
        names_all(s, names),
    ensures
        clean(checker::check_branches(branches, s, k, stage).errs) ==> clean(k.errs)
            && branches_lead_on(branches, names),
    decreases branches,
{
    if branches.len() > 0 {
        let front = branches.drop_last();
        lemma_branches(front, s, k, stage, names);
        let k1 = checker::check_branches(front, s, k, stage);
        let (cond, body) = branches.last();
        lemma_condition_grows(cond, k1, "if"@, checker::expr_span(cond));
        let k2 = checker::condition(cond, k1, "if"@, checker::expr_span(cond));
        lemma_nodes(body, s, k2, stage, names);
    }
}

// ---------------------------------------------------------------------------
// Programs
// ---------------------------------------------------------------------------

proof fn lemma_names(sections: Seq<SectionView>, name: Seq<char>)
    ensures
        checker::defined_at(checker::definitions(sections).0, name) is Some ==> code::section_index(
            vm::section_names(sections),
            name,
        ) is Some,
    decreases sections.len(),
{
    if sections.len() > 0 {
        let front = sections.drop_last();
        lemma_names(front, name);
        let names = vm::section_names(sections);
        assert(names.drop_last() =~= vm::section_names(front));
        assert(names.last() == sections.last().name);
        let (defs, _) = checker::definitions(front);
        let more = checker::definitions(sections).0;
        if checker::defined_at(defs, sections.last().name) is None {
            assert(more.drop_last() =~= defs);
        }
    }
}

proof fn lemma_sections(
    sections: Seq<SectionView>,
    s: Setting,
    k: Knowledge,
    names: Seq<Seq<char>>,
    i: int,
)
    requires
        names_all(s, names),
        0 <= i < sections.len(),
    ensures
        clean(checker::check_sections(sections, s, k).errs) ==> nodes_lead_on(
            sections[i].nodes,
            names,
        ),
    decreases sections.len(),
{
    let front = sections.drop_last();
    let k1 = checker::check_sections(front, s, k);
    lemma_nodes(sections.last().nodes, s, k1, Seq::empty(), names);
    if i < front.len() {
        lemma_sections(front, s, k, names, i);
        assert(front[i] == sections[i]);
    }
}

/// In a program without errors every jump and every visit, in a choice or a
/// condition too, names a section of the program. So none of them ends the story
/// in place of going on.
pub proof fn law_checked_targets_exist(p: ProgramView, resources: Seq<Seq<char>>, i: int)
    requires
        clean(checker::findings(p, resources)),
        0 <= i < p.sections.len(),
    ensures
        nodes_lead_on(p.sections[i].nodes, vm::section_names(p.sections)),
{
    let (defs, errs) = checker::definitions(p.sections);
    let s = Setting { defs, resources };
    let names = vm::section_names(p.sections);
    assert forall|name: Seq<char>| #[trigger]
        checker::defined_at(s.defs, name) is Some implies code::section_index(
        names,
        name,
    ) is Some by {
        lemma_names(p.sections, name);
    }
    let k = Knowledge { vars: Map::empty(), errs: errs + checker::check_entry(p, defs) };
    lemma_sections(p.sections, s, k, names, i);
}

proof fn lemma_stage(
    sections: Seq<SectionView>,
    s: Setting,
    k: Knowledge,
    names: Seq<Seq<char>>,
    i: int,
    m: int,
)
    requires
        names_all(s, names),
        0 <= i < sections.len(),
        0 <= m <= sections[i].nodes.len(),
        clean(checker::check_sections(sections, s, k).errs),
    ensures
        checker::check_nodes(
            sections[i].nodes.take(m),
            s,
            checker::check_sections(sections.take(i), s, k),
            Seq::empty(),
        ).1.len() <= 2,
    decreases sections.len(),
{
    let front = sections.drop_last();
    let k1 = checker::check_sections(front, s, k);
    let none = Seq::<Seq<char>>::empty();
    if i == front.len() {
        assert(sections.take(i) =~= front);
        let nodes = sections[i].nodes;
        assert(sections.last() == sections[i]);
        lemma_prefix_clean(nodes, s, k1, none, names, m);
        lemma_nodes(nodes.take(m), s, k1, none, names);
    } else {
        lemma_nodes(sections.last().nodes, s, k1, none, names);
        assert(front[i] == sections[i]);
        assert(front.take(i) =~= sections.take(i));
        lemma_stage(front, s, k, names, i, m);
    }
}

proof fn lemma_prefix_clean(
    nodes: Seq<NodeView>,
    s: Setting,
    k: Knowledge,
    stage: Seq<Seq<char>>,
    names: Seq<Seq<char>>,
    m: int,
)
    requires
        names_all(s, names),
        0 <= m <= nodes.len(),
        clean(checker::check_nodes(nodes, s, k, stage).0.errs),
    ensures
        clean(checker::check_nodes(nodes.take(m), s, k, stage).0.errs),
    decreases nodes.len(),
{
    if m == nodes.len() {
        assert(nodes.take(m) =~= nodes);
    } else {
        let front = nodes.drop_last();
        let (k1, stage1) = checker::check_nodes(front, s, k, stage);
        lemma_node(nodes.last(), s, k1, stage1, names);
        assert(front.take(m) =~= nodes.take(m));
        lemma_prefix_clean(front, s, k, stage, names, m);
    }
}

/// In a program without errors at most two characters are on stage at any place
/// of a section.
pub proof fn law_stage_holds_two(p: ProgramView, resources: Seq<Seq<char>>, i: int, m: int)
    requires
        clean(checker::findings(p, resources)),
        0 <= i < p.sections.len(),
        0 <= m <= p.sections[i].nodes.len(),
    ensures
        ({
            let (defs, errs) = checker::definitions(p.sections);
            let s = Setting { defs, resources };
            let k = Knowledge {
                vars: Map::empty(),
                errs: errs + checker::check_entry(p, defs),
            };
            checker::check_nodes(
                p.sections[i].nodes.take(m),
                s,
                checker::check_sections(p.sections.take(i), s, k),
                Seq::empty(),
            ).1.len() <= 2
        }),
{
    let (defs, errs) = checker::definitions(p.sections);
    let s = Setting { defs, resources };
    let names = vm::section_names(p.sections);
    assert forall|name: Seq<char>| #[trigger]
        checker::defined_at(s.defs, name) is Some implies code::section_index(
        names,
        name,
    ) is Some by {
        lemma_names(p.sections, name);
    }
    let k = Knowledge { vars: Map::empty(), errs: errs + checker::check_entry(p, defs) };
    lemma_stage(p.sections, s, k, names, i, m);
}

} // verus!
