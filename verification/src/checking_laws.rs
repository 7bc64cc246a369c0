//! What the checker finds in whole programs.

use crate::ast::{ChoiceOptionView, DirectionKind, Expr, NodeView, ProgramView, SectionView};
use crate::checker;
use crate::checker::{Finding, Knowledge, Setting, Severity};
use crate::token::LocSpan;
use vstd::prelude::*;

verus! {

// ---------------------------------------------------------------------------
// Findings stay
// ---------------------------------------------------------------------------

/// Whether everything that was found before is still there, in its place.
pub open spec fn kept(before: Knowledge, after: Knowledge) -> bool {
    before.errs.len() <= after.errs.len() && forall|i: int|
        0 <= i < before.errs.len() ==> #[trigger] after.errs[i] == before.errs[i]
}

proof fn lemma_infer(e: Expr<Seq<char>>, k: Knowledge)
    ensures
        kept(k, checker::infer(e, k).1),
    decreases e,
{
    match e {
        Expr::Binary { left, right, .. } => {
            lemma_infer(*left, k);
            lemma_infer(*right, checker::infer(*left, k).1);
        },
        Expr::Unary { operand, .. } => {
            lemma_infer(*operand, k);
        },
        _ => {},
    }
}

proof fn lemma_condition(e: Expr<Seq<char>>, k: Knowledge, what: Seq<char>, span: LocSpan)
    ensures
        kept(k, checker::condition(e, k, what, span)),
{
    lemma_infer(e, k);
}

/// What was found stays found, whatever follows.
pub proof fn law_findings_stay(n: NodeView, s: Setting, k: Knowledge, stage: Seq<Seq<char>>)
    ensures
        kept(k, checker::check_node(n, s, k, stage).0),
    decreases n,
{
    match n {
        NodeView::VarOp { expr, .. } => {
            lemma_infer(expr, k);
        },
        NodeView::Choice { options, .. } => {
            lemma_options(options, s, k, stage);
        },
        NodeView::Conditional { branches, else_branch, .. } => {
            lemma_branches(branches, s, k, stage);
            if let Some(body) = else_branch {
                lemma_nodes(body, s, checker::check_branches(branches, s, k, stage), stage);
            }
        },
        NodeView::Direction { action, .. } => {
            match action.kind {
                DirectionKind::Enter => {},
                DirectionKind::Exit => {},
            }
        },
        _ => {},
    }
}

proof fn lemma_nodes(nodes: Seq<NodeView>, s: Setting, k: Knowledge, stage: Seq<Seq<char>>)
    ensures
        kept(k, checker::check_nodes(nodes, s, k, stage).0),
    decreases nodes,
{
    if nodes.len() > 0 {
        lemma_nodes(nodes.drop_last(), s, k, stage);
        let (k1, stage1) = checker::check_nodes(nodes.drop_last(), s, k, stage);
        law_findings_stay(nodes.last(), s, k1, stage1);
    }
}

proof fn lemma_option(o: ChoiceOptionView, s: Setting, k: Knowledge, stage: Seq<Seq<char>>)
    ensures
        kept(k, checker::check_option(o, s, k, stage)),
    decreases o,
{
    let k1 = match o.condition {
        Some(c) => checker::condition(c, k, "choice"@, o.span),
        None => k,
    };
    if let Some(c) = o.condition {
        lemma_condition(c, k, "choice"@, o.span);
    }
    lemma_nodes(o.body, s, k1, stage);
}

proof fn lemma_options(
    options: Seq<ChoiceOptionView>,
    s: Setting,
    k: Knowledge,
    stage: Seq<Seq<char>>,
)
    ensures
        kept(k, checker::check_options(options, s, k, stage)),
    decreases options,
{
    if options.len() > 0 {
        lemma_options(options.drop_last(), s, k, stage);
        let k1 = checker::check_options(options.drop_last(), s, k, stage);
        lemma_option(options.last(), s, k1, stage);
    }
}

proof fn lemma_branches(
    branches: Seq<(Expr<Seq<char>>, Seq<NodeView>)>,
    s: Setting,
    k: Knowledge,
    stage: Seq<Seq<char>>,
)
    ensures
        kept(k, checker::check_branches(branches, s, k, stage)),
    decreases branches,
{
    if branches.len() > 0 {
        lemma_branches(branches.drop_last(), s, k, stage);
        let k1 = checker::check_branches(branches.drop_last(), s, k, stage);
        let (cond, body) = branches.last();
        lemma_condition(cond, k1, "if"@, checker::expr_span(cond));
        lemma_nodes(
            body,
            s,
            checker::condition(cond, k1, "if"@, checker::expr_span(cond)),
            stage,
        );
    }
}

// ---------------------------------------------------------------------------
// Conditions
// ---------------------------------------------------------------------------

/// Whether there is an error at a place among the findings.
pub open spec fn has_error_at(errs: Seq<Finding>, span: LocSpan) -> bool {
    exists|i: int|
        0 <= i < errs.len() && (#[trigger] errs[i]).span == span && errs[i].severity
            == Severity::Error
}

/// A condition is wrong where it is known to be a number or a text.
pub open spec fn is_wrong_condition(e: Expr<Seq<char>>, k: Knowledge) -> bool {
    let t = checker::infer(e, k).0;
    t is Int || t is Float || t is Str
}

proof fn lemma_wrong(e: Expr<Seq<char>>, k: Knowledge, what: Seq<char>, span: LocSpan)
    requires
        is_wrong_condition(e, k),
    ensures
        has_error_at(checker::condition(e, k, what, span).errs, span),
{
    let after = checker::condition(e, k, what, span);
    assert(after.errs[after.errs.len() - 1].span == span);
}

proof fn lemma_error_stays(a: Knowledge, b: Knowledge, span: LocSpan)
    requires
        has_error_at(a.errs, span),
        kept(a, b),
    ensures
        has_error_at(b.errs, span),
{
    let i = choose|i: int|
        0 <= i < a.errs.len() && (#[trigger] a.errs[i]).span == span && a.errs[i].severity
            == Severity::Error;
    assert(b.errs[i] == a.errs[i]);
}

/// The condition of every branch is checked, with what is known where it stands: a
/// number or a text there is an error at the condition.
pub proof fn law_branches_are_checked(
    branches: Seq<(Expr<Seq<char>>, Seq<NodeView>)>,
    else_branch: Option<Seq<NodeView>>,
    span: LocSpan,
    s: Setting,
    k: Knowledge,
    stage: Seq<Seq<char>>,
    i: int,
)
    requires
        0 <= i < branches.len(),
        is_wrong_condition(
            branches[i].0,
            checker::check_branches(branches.take(i), s, k, stage),
        ),
    ensures
        has_error_at(
            checker::check_node(
                NodeView::Conditional { branches, else_branch, span },
                s,
                k,
                stage,
            ).0.errs,
            checker::expr_span(branches[i].0),
        ),
{
    lemma_branch_checked(branches, s, k, stage, i);
    let k1 = checker::check_branches(branches, s, k, stage);
    let at = checker::expr_span(branches[i].0);
    if let Some(body) = else_branch {
        lemma_nodes(body, s, k1, stage);
        lemma_error_stays(k1, checker::check_nodes(body, s, k1, stage).0, at);
    }
}

proof fn lemma_branch_checked(
    branches: Seq<(Expr<Seq<char>>, Seq<NodeView>)>,
    s: Setting,
    k: Knowledge,
    stage: Seq<Seq<char>>,
    i: int,
)
    requires
        0 <= i < branches.len(),
        is_wrong_condition(
            branches[i].0,
            checker::check_branches(branches.take(i), s, k, stage),
        ),
    ensures
        has_error_at(
            checker::check_branches(branches, s, k, stage).errs,
            checker::expr_span(branches[i].0),
        ),
    decreases branches.len(),
{
    let front = branches.drop_last();
    let k1 = checker::check_branches(front, s, k, stage);
    let (cond, body) = branches.last();
    let k2 = checker::condition(cond, k1, "if"@, checker::expr_span(cond));
    let k3 = checker::check_nodes(body, s, k2, stage).0;
    let at = checker::expr_span(branches[i].0);
    lemma_nodes(body, s, k2, stage);
    if i == front.len() {
        assert(branches.take(i) =~= front);
        lemma_wrong(cond, k1, "if"@, at);
        lemma_error_stays(k2, k3, at);
    } else {
        assert(front.take(i) =~= branches.take(i));
        lemma_branch_checked(front, s, k, stage, i);
        lemma_condition(cond, k1, "if"@, checker::expr_span(cond));
        lemma_error_stays(k1, k2, at);
        lemma_error_stays(k2, k3, at);
    }
}

/// The condition of every option is checked, with what is known where it stands: a
/// number or a text there is an error at the option.
pub proof fn law_options_are_checked(
    prompt: Option<Seq<char>>,
    options: Seq<ChoiceOptionView>,
    span: LocSpan,
    s: Setting,
    k: Knowledge,
    stage: Seq<Seq<char>>,
    i: int,
)
    requires
        0 <= i < options.len(),
        options[i].condition matches Some(c) && is_wrong_condition(
            c,
            checker::check_options(options.take(i), s, k, stage),
        ),
    ensures
        has_error_at(
            checker::check_node(NodeView::Choice { prompt, options, span }, s, k, stage).0.errs,
            options[i].span,
        ),
{
    lemma_option_checked(options, s, k, stage, i);
}

proof fn lemma_option_checked(
    options: Seq<ChoiceOptionView>,
    s: Setting,
    k: Knowledge,
    stage: Seq<Seq<char>>,
    i: int,
)
    requires
        0 <= i < options.len(),
        options[i].condition matches Some(c) && is_wrong_condition(
            c,
            checker::check_options(options.take(i), s, k, stage),
        ),
    ensures
        has_error_at(checker::check_options(options, s, k, stage).errs, options[i].span),
    decreases options.len(),
{
    let front = options.drop_last();
    let k1 = checker::check_options(front, s, k, stage);
    let o = options.last();
    let k3 = checker::check_option(o, s, k1, stage);
    if i == front.len() {
        assert(options.take(i) =~= front);
        let c = o.condition->0;
        let k2 = checker::condition(c, k1, "choice"@, o.span);
        lemma_wrong(c, k1, "choice"@, o.span);
        lemma_nodes(o.body, s, k2, stage);
        lemma_error_stays(k2, k3, o.span);
    } else {
        assert(front.take(i) =~= options.take(i));
        lemma_option_checked(front, s, k, stage, i);
        lemma_option(o, s, k1, stage);
        lemma_error_stays(k1, k3, options[i].span);
    }
}

// ---------------------------------------------------------------------------
// Sections
// ---------------------------------------------------------------------------

proof fn lemma_sections(sections: Seq<SectionView>, s: Setting, k: Knowledge)
    ensures
        kept(k, checker::check_sections(sections, s, k)),
    decreases sections.len(),
{
    if sections.len() > 0 {
        lemma_sections(sections.drop_last(), s, k);
        let k1 = checker::check_sections(sections.drop_last(), s, k);
        lemma_nodes(sections.last().nodes, s, k1, Seq::empty());
    }
}

/// A section is defined where its name stands first.
proof fn lemma_defined(sections: Seq<SectionView>, name: Seq<char>, i: int)
    requires
        0 <= i <= sections.len(),
        forall|h: int| 0 <= h < i ==> (#[trigger] sections[h]).name != name,
        i < sections.len() ==> sections[i].name == name,
    ensures
        checker::defined_at(checker::definitions(sections).0, name) == (if i < sections.len() {
            Some(sections[i].span)
        } else {
            None
        }),
    decreases sections.len(),
{
    if sections.len() > 0 {
        let front = sections.drop_last();
        let last = sections.last();
        let defs = checker::definitions(front).0;
        let j = if i <= front.len() {
            i
        } else {
            i - 1
        };
        lemma_defined(front, name, j);
        assert(defs.push((last.name, last.span)).drop_last() =~= defs);
        assert(sections[front.len() as int] == last);
    }
}

proof fn lemma_definitions(sections: Seq<SectionView>, i: int, j: int)
    requires
        0 <= i < j < sections.len(),
        sections[i].name == sections[j].name,
        forall|h: int| 0 <= h < i ==> (#[trigger] sections[h]).name != sections[i].name,
    ensures
        has_error_at(checker::definitions(sections).1, sections[j].span),
        exists|n: int|
            0 <= n < checker::definitions(sections).1.len() && (
            #[trigger] checker::definitions(sections).1[n]).span == sections[i].span
                && checker::definitions(sections).1[n].severity == Severity::Note,
    decreases sections.len(),
{
    let front = sections.drop_last();
    let errs = checker::definitions(sections).1;
    let before = checker::definitions(front).1;
    assert(before.len() <= errs.len());
    assert forall|n: int| 0 <= n < before.len() implies errs[n] == before[n] by {}
    if j == front.len() {
        lemma_defined(front, sections[j].name, i);
        assert(errs[before.len() as int].span == sections[j].span);
        assert(errs[(before.len() + 1) as int].span == sections[i].span);
    } else {
        lemma_definitions(front, i, j);
        let n = choose|n: int|
            0 <= n < before.len() && (#[trigger] before[n]).span == sections[j].span
                && before[n].severity == Severity::Error;
        assert(errs[n].span == sections[j].span);
        let m = choose|n: int|
            0 <= n < before.len() && (#[trigger] before[n]).span == sections[i].span
                && before[n].severity == Severity::Note;
        assert(errs[m].span == sections[i].span);
    }
}

/// A second section of a name is an error where it stands, and a note points to the
/// first.
pub proof fn law_duplicate_sections(p: ProgramView, resources: Seq<Seq<char>>, i: int, j: int)
    requires
        0 <= i < j < p.sections.len(),
        p.sections[i].name == p.sections[j].name,
        forall|h: int| 0 <= h < i ==> (#[trigger] p.sections[h]).name != p.sections[i].name,
    ensures
        has_error_at(checker::findings(p, resources), p.sections[j].span),
        exists|n: int|
            0 <= n < checker::findings(p, resources).len() && (#[trigger] checker::findings(
                p,
                resources,
            )[n]).span == p.sections[i].span && checker::findings(p, resources)[n].severity
                == Severity::Note,
{
    let (defs, errs) = checker::definitions(p.sections);
    let s = Setting { defs, resources };
    let k = Knowledge { vars: Map::empty(), errs: errs + checker::check_entry(p, defs) };
    let all = checker::check_sections(p.sections, s, k).errs;
    lemma_sections(p.sections, s, k);
    lemma_definitions(p.sections, i, j);
    let n = choose|n: int|
        0 <= n < errs.len() && (#[trigger] errs[n]).span == p.sections[j].span
            && errs[n].severity == Severity::Error;
    assert(k.errs[n] == errs[n]);
    assert(all[n] == k.errs[n]);
    let m = choose|n: int|
        0 <= n < errs.len() && (#[trigger] errs[n]).span == p.sections[i].span
            && errs[n].severity == Severity::Note;
    assert(k.errs[m] == errs[m]);
    assert(all[m] == k.errs[m]);
}

/// A program has to begin at one of its sections; one without sections is warned about.
pub proof fn law_entry_is_checked(p: ProgramView, resources: Seq<Seq<char>>)
    ensures
        p.entry matches Some(name) && (forall|h: int|
            0 <= h < p.sections.len() ==> (#[trigger] p.sections[h]).name != name)
            ==> has_error_at(checker::findings(p, resources), LocSpan::origin()),
        p.entry is None && p.sections.len() == 0 ==> checker::findings(p, resources).len() == 1
            && checker::findings(p, resources)[0].severity == Severity::Warning,
{
    let (defs, errs) = checker::definitions(p.sections);
    let s = Setting { defs, resources };
    let k = Knowledge { vars: Map::empty(), errs: errs + checker::check_entry(p, defs) };
    let all = checker::check_sections(p.sections, s, k).errs;
    lemma_sections(p.sections, s, k);
    if let Some(name) = p.entry {
        if forall|h: int| 0 <= h < p.sections.len() ==> (#[trigger] p.sections[h]).name != name {
            lemma_defined(p.sections, name, p.sections.len() as int);
            let n = errs.len() as int;
            assert(k.errs[n].span == LocSpan::origin());
            assert(all[n] == k.errs[n]);
        }
    }
}

} // verus!
