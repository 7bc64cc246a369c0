//! Compilation of syntax trees to flat instructions.

use crate::ast;
use crate::ast::{
    clone_action, clone_number, ChoiceOption, ChoiceOptionView, DirectionAction, Expr, Node, NodeView, Number, Transition,
    VarOpKind,
};
use crate::text;
use crate::text::{clone_strings, opt_clone, str_eq};
use vstd::prelude::*;

verus! {

/// An instruction. Jumps within a section name the index of an instruction,
/// jumps between sections the index of a section.
#[derive(Debug)]
pub enum Instr {
    Dialogue { speaker: String, pose: Option<String>, text: String },
    Narration { text: String },
    Command { cmd: String, args: Vec<String>, transition: Option<Transition> },
    Direction { action: DirectionAction },
    Choice { prompt: Option<String>, options: Vec<CompiledOption> },
    VarOp { name: String, op: VarOpKind, expr: Expr },
    JumpIfFalse { cond: Expr, target: usize },
    Jump { target: usize },
    /// One-way section jump (`->`)
    SectionJump { target: usize },
    /// Visit with return (`=>`)
    VisitCall { target: usize },
    Return,
    Wait { seconds: Number },
    StoryEnd,
}

/// An option of a choice, with the place of its body.
#[derive(Debug)]
pub struct CompiledOption {
    pub text: String,
    pub condition: Option<Expr>,
    pub target: usize,
}

// ---------------------------------------------------------------------------
// Instructions over sequences
// ---------------------------------------------------------------------------

pub struct CompiledOptionView {
    pub text: Seq<char>,
    pub condition: Option<Expr<Seq<char>>>,
    pub target: int,
}

pub enum InstrView {
    Dialogue { speaker: Seq<char>, pose: Option<Seq<char>>, text: Seq<char> },
    Narration { text: Seq<char> },
    Command { cmd: Seq<char>, args: Seq<Seq<char>>, transition: Option<Transition> },
    Direction { action: DirectionAction<Seq<char>> },
    Choice { prompt: Option<Seq<char>>, options: Seq<CompiledOptionView> },
    VarOp { name: Seq<char>, op: VarOpKind, expr: Expr<Seq<char>> },
    JumpIfFalse { cond: Expr<Seq<char>>, target: int },
    Jump { target: int },
    SectionJump { target: int },
    VisitCall { target: int },
    Return,
    Wait { seconds: Number<Seq<char>> },
    StoryEnd,
}

impl View for CompiledOption {
    type V = CompiledOptionView;

    open spec fn view(&self) -> CompiledOptionView {
        CompiledOptionView {
            text: self.text@,
            condition: ast::opt_expr_view(self.condition),
            target: self.target as int,
        }
    }
}

pub open spec fn compiled_views(s: Seq<CompiledOption>) -> Seq<CompiledOptionView> {
    Seq::new(s.len(), |i: int| s[i]@)
}

impl View for Instr {
    type V = InstrView;

    open spec fn view(&self) -> InstrView {
        match *self {
            Instr::Dialogue { speaker, pose, text } => InstrView::Dialogue {
                speaker: speaker@,
                pose: text::opt_view(pose),
                text: text@,
            },
            Instr::Narration { text } => InstrView::Narration { text: text@ },
            Instr::Command { cmd, args, transition } => InstrView::Command {
                cmd: cmd@,
                args: text::views(args@),
                transition,
            },
            Instr::Direction { action } => InstrView::Direction { action: action@ },
            Instr::Choice { prompt, options } => InstrView::Choice {
                prompt: text::opt_view(prompt),
                options: compiled_views(options@),
            },
            Instr::VarOp { name, op, expr } => InstrView::VarOp { name: name@, op, expr: expr@ },
            Instr::JumpIfFalse { cond, target } => InstrView::JumpIfFalse {
                cond: cond@,
                target: target as int,
            },
            Instr::Jump { target } => InstrView::Jump { target: target as int },
            Instr::SectionJump { target } => InstrView::SectionJump { target: target as int },
            Instr::VisitCall { target } => InstrView::VisitCall { target: target as int },
            Instr::Return => InstrView::Return,
            Instr::Wait { seconds } => InstrView::Wait { seconds: seconds@ },
            Instr::StoryEnd => InstrView::StoryEnd,
        }
    }
}

pub open spec fn instr_views(s: Seq<Instr>) -> Seq<InstrView> {
    Seq::new(s.len(), |i: int| s[i]@)
}

// ---------------------------------------------------------------------------
// Sizes
// ---------------------------------------------------------------------------

/// The number of instructions of a node.
pub open spec fn node_size(n: NodeView) -> nat
    decreases n,
{
    match n {
        NodeView::Choice { options, .. } => 2 + options_size(options),
        NodeView::Conditional { branches, else_branch, .. } => branches_size(branches) + (
        match else_branch {
            Some(body) => nodes_size(body),
            None => 0,
        }),
        _ => 1,
    }
}

pub open spec fn nodes_size(nodes: Seq<NodeView>) -> nat
    decreases nodes,
{
    if nodes.len() == 0 {
        0
    } else {
        nodes_size(nodes.drop_last()) + node_size(nodes.last())
    }
}

/// Each option has its body and a jump behind the choice.
pub open spec fn options_size(options: Seq<ChoiceOptionView>) -> nat
    decreases options,
{
    if options.len() == 0 {
        0
    } else {
        options_size(options.drop_last()) + nodes_size(options.last().body) + 1
    }
}

/// Each branch has its condition, its body and a jump behind the conditional.
pub open spec fn branches_size(branches: Seq<(Expr<Seq<char>>, Seq<NodeView>)>) -> nat
    decreases branches,
{
    if branches.len() == 0 {
        0
    } else {
        branches_size(branches.drop_last()) + nodes_size(branches.last().1) + 2
    }
}

// ---------------------------------------------------------------------------
// Code
// ---------------------------------------------------------------------------

/// The index of the last section with a name.
pub open spec fn section_index(names: Seq<Seq<char>>, name: Seq<char>) -> Option<int>
    decreases names.len(),
{
    if names.len() == 0 {
        None
    } else if names.last() == name {
        Some(names.len() - 1)
    } else {
        section_index(names.drop_last(), name)
    }
}

/// The options of a choice whose bodies start at `at`.
pub open spec fn compiled_options(options: Seq<ChoiceOptionView>, at: int) -> Seq<CompiledOptionView>
    decreases options.len(),
{
    if options.len() == 0 {
        Seq::empty()
    } else {
        let front = options.drop_last();
        compiled_options(front, at).push(
            CompiledOptionView {
                text: options.last().text,
                condition: options.last().condition,
                target: at + options_size(front),
            },
        )
    }
}

/// The instructions of a node placed at `at`, in a program with these sections.
pub open spec fn node_code(n: NodeView, at: int, names: Seq<Seq<char>>) -> Seq<InstrView>
    decreases n,
{
    match n {
        NodeView::Dialogue { speaker, pose, text, .. } => seq![
            InstrView::Dialogue { speaker, pose, text },
        ],
        NodeView::Narration { text, .. } => seq![InstrView::Narration { text }],
        NodeView::Command { cmd, args, transition, .. } => seq![
            InstrView::Command { cmd, args, transition },
        ],
        NodeView::Direction { action, .. } => seq![InstrView::Direction { action }],
        NodeView::VarOp { name, op, expr, .. } => seq![InstrView::VarOp { name, op, expr }],
        NodeView::Choice { prompt, options, .. } => {
            let after = at + 2 + options_size(options);
            seq![
                InstrView::Choice { prompt, options: compiled_options(options, at + 2) },
                InstrView::Jump { target: after },
            ] + options_code(options, at + 2, after, names)
        },
        NodeView::Conditional { branches, else_branch, .. } => {
            let middle = at + branches_size(branches);
            match else_branch {
                Some(body) => branches_code(branches, at, middle + nodes_size(body), names)
                    + nodes_code(body, middle, names),
                None => branches_code(branches, at, middle, names),
            }
        },
        NodeView::Flow { target, .. } => match section_index(names, target) {
            Some(i) => seq![InstrView::SectionJump { target: i }],
            None => seq![InstrView::StoryEnd],
        },
        NodeView::Visit { target, .. } => match section_index(names, target) {
            Some(i) => seq![InstrView::VisitCall { target: i }],
            None => seq![InstrView::StoryEnd],
        },
        NodeView::Return { .. } => seq![InstrView::Return],
        NodeView::Wait { seconds, .. } => seq![InstrView::Wait { seconds }],
        NodeView::StoryEnd { .. } => seq![InstrView::StoryEnd],
    }
}

pub open spec fn nodes_code(nodes: Seq<NodeView>, at: int, names: Seq<Seq<char>>) -> Seq<InstrView>
    decreases nodes,
{
    if nodes.len() == 0 {
        Seq::empty()
    } else {
        let front = nodes.drop_last();
        nodes_code(front, at, names) + node_code(nodes.last(), at + nodes_size(front), names)
    }
}

/// The bodies of options, each followed by a jump to `after`.
pub open spec fn options_code(
    options: Seq<ChoiceOptionView>,
    at: int,
    after: int,
    names: Seq<Seq<char>>,
) -> Seq<InstrView>
    decreases options,
{
    if options.len() == 0 {
        Seq::empty()
    } else {
        let front = options.drop_last();
        options_code(front, at, after, names) + nodes_code(
            options.last().body,
            at + options_size(front),
            names,
        ).push(InstrView::Jump { target: after })
    }
}

/// The branches of a conditional, each tested first and followed by a jump to
/// `after`.
pub open spec fn branches_code(
    branches: Seq<(Expr<Seq<char>>, Seq<NodeView>)>,
    at: int,
    after: int,
    names: Seq<Seq<char>>,
) -> Seq<InstrView>
    decreases branches,
{
    if branches.len() == 0 {
        Seq::empty()
    } else {
        let front = branches.drop_last();
        let start = at + branches_size(front);
        let (cond, body) = branches.last();
        branches_code(front, at, after, names) + (seq![
            InstrView::JumpIfFalse { cond, target: start + nodes_size(body) + 2 },
        ] + nodes_code(body, start + 1, names)).push(InstrView::Jump { target: after })
    }
}

/// The instructions of a section: those of its nodes, and the end.
pub open spec fn section_code(nodes: Seq<NodeView>, names: Seq<Seq<char>>) -> Seq<InstrView> {
    nodes_code(nodes, 0, names).push(InstrView::StoryEnd)
}

// ---------------------------------------------------------------------------
// Facts about code
// ---------------------------------------------------------------------------

pub proof fn lemma_node_code_len(n: NodeView, at: int, names: Seq<Seq<char>>)
    ensures
        node_code(n, at, names).len() == node_size(n),
    decreases n,
{
    match n {
        NodeView::Choice { options, .. } => {
            lemma_options_code_len(options, at + 2, at + 2 + options_size(options), names);
        },
        NodeView::Conditional { branches, else_branch, .. } => {
            let middle = at + branches_size(branches);
            match else_branch {
                Some(body) => {
                    lemma_branches_code_len(branches, at, middle + nodes_size(body), names);
                    lemma_nodes_code_len(body, middle, names);
                },
                None => {
                    lemma_branches_code_len(branches, at, middle, names);
                },
            }
        },
        _ => {},
    }
}

pub proof fn lemma_nodes_code_len(nodes: Seq<NodeView>, at: int, names: Seq<Seq<char>>)
    ensures
        nodes_code(nodes, at, names).len() == nodes_size(nodes),
    decreases nodes,
{
    if nodes.len() > 0 {
        let front = nodes.drop_last();
        lemma_nodes_code_len(front, at, names);
        lemma_node_code_len(nodes.last(), at + nodes_size(front), names);
    }
}

pub proof fn lemma_options_code_len(
    options: Seq<ChoiceOptionView>,
    at: int,
    after: int,
    names: Seq<Seq<char>>,
)
    ensures
        options_code(options, at, after, names).len() == options_size(options),
    decreases options,
{
    if options.len() > 0 {
        let front = options.drop_last();
        lemma_options_code_len(front, at, after, names);
        lemma_nodes_code_len(options.last().body, at + options_size(front), names);
    }
}

pub proof fn lemma_branches_code_len(
    branches: Seq<(Expr<Seq<char>>, Seq<NodeView>)>,
    at: int,
    after: int,
    names: Seq<Seq<char>>,
)
    ensures
        branches_code(branches, at, after, names).len() == branches_size(branches),
    decreases branches,
{
    if branches.len() > 0 {
        let front = branches.drop_last();
        lemma_branches_code_len(front, at, after, names);
        lemma_nodes_code_len(branches.last().1, at + branches_size(front) + 1, names);
    }
}

/// Whether the instruction at offset `k` of options is the jump behind one.
pub open spec fn option_ends(options: Seq<ChoiceOptionView>, k: int) -> bool
    decreases options.len(),
{
    options.len() > 0 && (k == options_size(options) - 1 || option_ends(options.drop_last(), k))
}

/// Whether the instruction at offset `k` of branches is the jump behind one.
pub open spec fn branch_ends(branches: Seq<(Expr<Seq<char>>, Seq<NodeView>)>, k: int) -> bool
    decreases branches.len(),
{
    branches.len() > 0 && (k == branches_size(branches) - 1 || branch_ends(
        branches.drop_last(),
        k,
    ))
}

proof fn lemma_option_ends_bound(options: Seq<ChoiceOptionView>, k: int)
    requires
        option_ends(options, k),
    ensures
        0 <= k < options_size(options),
    decreases options.len(),
{
    if k != options_size(options) - 1 {
        lemma_option_ends_bound(options.drop_last(), k);
    }
    assert(options_size(options) >= 1);
}

proof fn lemma_branch_ends_bound(branches: Seq<(Expr<Seq<char>>, Seq<NodeView>)>, k: int)
    requires
        branch_ends(branches, k),
    ensures
        0 <= k < branches_size(branches),
    decreases branches.len(),
{
    if k != branches_size(branches) - 1 {
        lemma_branch_ends_bound(branches.drop_last(), k);
    }
}

/// The place behind a choice is named only by the jumps behind its options.
proof fn lemma_options_retarget(
    options: Seq<ChoiceOptionView>,
    at: int,
    a: int,
    b: int,
    names: Seq<Seq<char>>,
    k: int,
)
    requires
        0 <= k < options_size(options),
    ensures
        options_code(options, at, b, names)[k] == (if option_ends(options, k) {
            InstrView::Jump { target: b }
        } else {
            options_code(options, at, a, names)[k]
        }),
    decreases options.len(),
{
    let front = options.drop_last();
    let o = options.last();
    let start = at + options_size(front);
    lemma_options_code_len(front, at, a, names);
    lemma_options_code_len(front, at, b, names);
    lemma_nodes_code_len(o.body, start, names);
    if k < options_size(front) {
        lemma_options_retarget(front, at, a, b, names, k);
    } else {
        if option_ends(front, k) {
            lemma_option_ends_bound(front, k);
        }
    }
}

/// The place behind a conditional is named only by the jumps behind its branches.
proof fn lemma_branches_retarget(
    branches: Seq<(Expr<Seq<char>>, Seq<NodeView>)>,
    at: int,
    a: int,
    b: int,
    names: Seq<Seq<char>>,
    k: int,
)
    requires
        0 <= k < branches_size(branches),
    ensures
        branches_code(branches, at, b, names)[k] == (if branch_ends(branches, k) {
            InstrView::Jump { target: b }
        } else {
            branches_code(branches, at, a, names)[k]
        }),
    decreases branches.len(),
{
    let front = branches.drop_last();
    let start = at + branches_size(front);
    lemma_branches_code_len(front, at, a, names);
    lemma_branches_code_len(front, at, b, names);
    lemma_nodes_code_len(branches.last().1, start + 1, names);
    if k < branches_size(front) {
        lemma_branches_retarget(front, at, a, b, names, k);
    } else {
        if branch_ends(front, k) {
            lemma_branch_ends_bound(front, k);
        }
    }
}

// ---------------------------------------------------------------------------
// Generation
// ---------------------------------------------------------------------------

/// The index of the last section with a name.
pub fn find_section(names: &Vec<String>, name: &str) -> (r: Option<usize>)
    ensures
        match section_index(text::views(names@), name@) {
            Some(i) => r is Some && r->0 == i,
            None => r is None,
        },
{
    let ghost all = text::views(names@);
    let mut i: usize = names.len();
    assert(all.take(i as int) =~= all);
    while i > 0
        invariant
            i <= names@.len(),
            all == text::views(names@),
            section_index(all, name@) == section_index(all.take(i as int), name@),
        decreases i,
    {
        assert(all.take(i as int).drop_last() =~= all.take(i - 1));
        assert(all.take(i as int).last() == all[i - 1]);
        if str_eq(names[i - 1].as_str(), name) {
            return Some(i - 1);
        }
        i = i - 1;
    }
    None
}

/// Appends one instruction.
fn emit(instrs: &mut Vec<Instr>, x: Instr)
    ensures
        instr_views(final(instrs)@) == instr_views(old(instrs)@) + seq![x@],
        final(instrs)@.len() == old(instrs)@.len() + 1,
{
    instrs.push(x);
    assert(instr_views(instrs@) =~= instr_views(old(instrs)@) + seq![x@]);
}

/// Whether the index `i` is listed.
spec fn lists(ends: Seq<usize>, i: int) -> bool {
    exists|e: int| 0 <= e < ends.len() && #[trigger] ends[e] == i
}

/// Directs the jumps at `ends` to `after`.
fn patch_jumps(instrs: &mut Vec<Instr>, ends: &Vec<usize>, after: usize)
    requires
        forall|e: int| 0 <= e < ends@.len() ==> (#[trigger] ends@[e]) < old(instrs)@.len(),
    ensures
        final(instrs)@.len() == old(instrs)@.len(),
        forall|i: int|
            0 <= i < old(instrs)@.len() ==> (#[trigger] final(instrs)@[i])@ == (if lists(ends@, i) {
                InstrView::Jump { target: after as int }
            } else {
                old(instrs)@[i]@
            }),
{
    let mut e: usize = 0;
    while e < ends.len()
        invariant
            e <= ends@.len(),
            instrs@.len() == old(instrs)@.len(),
            forall|k: int| 0 <= k < ends@.len() ==> (#[trigger] ends@[k]) < old(instrs)@.len(),
            forall|i: int|
                0 <= i < old(instrs)@.len() ==> (#[trigger] instrs@[i])@ == (if lists(
                    ends@.take(e as int),
                    i,
                ) {
                    InstrView::Jump { target: after as int }
                } else {
                    old(instrs)@[i]@
                }),
        decreases ends@.len() - e,
    {
        let at: usize = ends[e];
        let ghost before = ends@.take(e as int);
        let ghost now = ends@.take(e + 1);
        instrs.set(at, Instr::Jump { target: after });
        proof {
            assert(now =~= before.push(at));
            assert forall|i: int| #[trigger] lists(now, i) == (lists(before, i) || i == at) by {
                if lists(before, i) {
                    let k = choose|k: int| 0 <= k < before.len() && #[trigger] before[k] == i;
                    assert(now[k] == i);
                }
                if i == at {
                    assert(now[e as int] == i);
                }
                if lists(now, i) && i != at {
                    let k = choose|k: int| 0 <= k < now.len() && #[trigger] now[k] == i;
                    assert(before[k] == i);
                }
            }
        }
        e = e + 1;
    }
    assert(ends@.take(e as int) =~= ends@);
}

/// The ends of options are those that `ends` lists, counted from `at`.
spec fn lists_option_ends(ends: Seq<usize>, options: Seq<ChoiceOptionView>, at: int) -> bool {
    &&& forall|e: int|
        0 <= e < ends.len() ==> at <= (#[trigger] ends[e]) && option_ends(options, ends[e] - at)
    &&& forall|k: int| #[trigger] option_ends(options, k) ==> lists(ends, at + k)
}

/// The ends of branches are those that `ends` lists, counted from `at`.
spec fn lists_branch_ends(
    ends: Seq<usize>,
    branches: Seq<(Expr<Seq<char>>, Seq<NodeView>)>,
    at: int,
) -> bool {
    &&& forall|e: int|
        0 <= e < ends.len() ==> at <= (#[trigger] ends[e]) && branch_ends(branches, ends[e] - at)
    &&& forall|k: int| #[trigger] branch_ends(branches, k) ==> lists(ends, at + k)
}

/// Appends the code of nodes.
fn gen_nodes(nodes: &Vec<Node>, instrs: &mut Vec<Instr>, names: &Vec<String>)
    ensures
        final(instrs)@.len() == old(instrs)@.len() + nodes_size(ast::node_views(nodes@)),
        instr_views(final(instrs)@) == instr_views(old(instrs)@) + nodes_code(
            ast::node_views(nodes@),
            old(instrs)@.len() as int,
            text::views(names@),
        ),
    decreases *nodes, 0int,
{
    let ghost all = ast::node_views(nodes@);
    let ghost base = instr_views(instrs@);
    let mut i: usize = 0;
    proof {
        ast::lemma_node_views(nodes@);
        assert(all.take(0) =~= Seq::empty());
        assert(base + Seq::empty() =~= base);
    }
    while i < nodes.len()
        invariant
            i <= nodes@.len(),
            base == instr_views(old(instrs)@),
            all == ast::node_views(nodes@),
            all.len() == nodes@.len(),
            forall|j: int| 0 <= j < all.len() ==> #[trigger] all[j] == ast::node_view(nodes@[j]),
            instr_views(instrs@) == base + nodes_code(
                all.take(i as int),
                base.len() as int,
                text::views(names@),
            ),
            base.len() == old(instrs)@.len(),
            instrs@.len() == base.len() + nodes_size(all.take(i as int)),
        decreases nodes@.len() - i,
    {
        proof {
            assert(all.take(i + 1).drop_last() =~= all.take(i as int));
            assert(all.take(i + 1).last() == all[i as int]);
            lemma_nodes_code_len(all.take(i as int), base.len() as int, text::views(names@));
        }
        let ghost front = nodes_code(
            all.take(i as int),
            base.len() as int,
            text::views(names@),
        );
        gen_node(&nodes[i], instrs, names);
        proof {
            let last = node_code(all[i as int], (base.len() + front.len()) as int, text::views(names@));
            assert(base + front + last =~= base + (front + last));
        }
        i = i + 1;
    }
    assert(all.take(i as int) =~= all);
}

/// Appends the bodies of options, each with a jump that is still to be directed.
fn gen_options(
    options: &Vec<ChoiceOption>,
    instrs: &mut Vec<Instr>,
    names: &Vec<String>,
) -> (r: (Vec<CompiledOption>, Vec<usize>))
    ensures
        final(instrs)@.len() == old(instrs)@.len() + options_size(ast::option_views(options@)),
        instr_views(final(instrs)@) == instr_views(old(instrs)@) + options_code(
            ast::option_views(options@),
            old(instrs)@.len() as int,
            0,
            text::views(names@),
        ),
        compiled_views(r.0@) == compiled_options(
            ast::option_views(options@),
            old(instrs)@.len() as int,
        ),
        lists_option_ends(r.1@, ast::option_views(options@), old(instrs)@.len() as int),
    decreases *options, 0int,
{
    let ghost all = ast::option_views(options@);
    let ghost base = instr_views(instrs@);
    let ghost n = text::views(names@);
    let mut compiled: Vec<CompiledOption> = Vec::new();
    let mut ends: Vec<usize> = Vec::new();
    let mut i: usize = 0;
    proof {
        ast::lemma_option_views(options@);
        assert(all.take(0) =~= Seq::empty());
        assert(base + Seq::empty() =~= base);
        assert(compiled_views(compiled@) =~= Seq::empty());
    }
    while i < options.len()
        invariant
            i <= options@.len(),
            base == instr_views(old(instrs)@),
            n == text::views(names@),
            all == ast::option_views(options@),
            all.len() == options@.len(),
            forall|j: int| 0 <= j < all.len() ==> #[trigger] all[j] == ast::option_view(options@[j]),
            instr_views(instrs@) == base + options_code(
                all.take(i as int),
                base.len() as int,
                0,
                n,
            ),
            compiled_views(compiled@) == compiled_options(all.take(i as int), base.len() as int),
            lists_option_ends(ends@, all.take(i as int), base.len() as int),
            base.len() == old(instrs)@.len(),
            instrs@.len() == base.len() + options_size(all.take(i as int)),
        decreases options@.len() - i,
    {
        let ghost front = all.take(i as int);
        let ghost front_code = options_code(front, base.len() as int, 0, n);
        let ghost compiled0 = compiled@;
        let ghost ends0 = ends@;
        let o: &ChoiceOption = &options[i];
        proof {
            assert(all.take(i + 1).drop_last() =~= front);
            assert(all.take(i + 1).last() == all[i as int]);
            lemma_options_code_len(front, base.len() as int, 0, n);
        }
        let start: usize = instrs.len();
        let condition: Option<Expr> = match &o.condition {
            Some(c) => Some(c.clone()),
            None => None,
        };
        let entry: CompiledOption = CompiledOption {
            text: o.text.clone(),
            condition,
            target: start,
        };
        compiled.push(entry);
        assert(compiled_views(compiled@) =~= compiled_views(compiled0).push(entry@));
        let ghost body = nodes_code(ast::node_views(o.body@), start as int, n);
        gen_nodes(&o.body, instrs, names);
        let end: usize = instrs.len();
        emit(instrs, Instr::Jump { target: 0 });
        ends.push(end);
        proof {
            let jump = seq![InstrView::Jump { target: 0 }];
            lemma_nodes_code_len(ast::node_views(o.body@), start as int, n);
            assert(base + front_code + body + jump =~= base + (front_code + body.push(
                InstrView::Jump { target: 0 },
            )));
            lemma_option_ends_push(ends0, all.take(i + 1), base.len() as int, end);
        }
        i = i + 1;
    }
    assert(all.take(i as int) =~= all);
    (compiled, ends)
}

/// One more option has one more end.
proof fn lemma_option_ends_push(
    ends: Seq<usize>,
    options: Seq<ChoiceOptionView>,
    at: int,
    end: usize,
)
    requires
        options.len() > 0,
        lists_option_ends(ends, options.drop_last(), at),
        end == at + options_size(options) - 1,
        options_size(options) >= 1,
    ensures
        lists_option_ends(ends.push(end), options, at),
{
    let more = ends.push(end);
    assert forall|k: int| #[trigger] option_ends(options, k) implies lists(more, at + k) by {
        if k == options_size(options) - 1 {
            assert(more[ends.len() as int] == at + k);
        } else {
            assert(option_ends(options.drop_last(), k));
            let e = choose|e: int| 0 <= e < ends.len() && #[trigger] ends[e] == at + k;
            assert(more[e] == at + k);
        }
    }
}

/// One more branch has one more end.
proof fn lemma_branch_ends_push(
    ends: Seq<usize>,
    branches: Seq<(Expr<Seq<char>>, Seq<NodeView>)>,
    at: int,
    end: usize,
)
    requires
        branches.len() > 0,
        lists_branch_ends(ends, branches.drop_last(), at),
        end == at + branches_size(branches) - 1,
        branches_size(branches) >= 1,
    ensures
        lists_branch_ends(ends.push(end), branches, at),
{
    let more = ends.push(end);
    assert forall|k: int| #[trigger] branch_ends(branches, k) implies lists(more, at + k) by {
        if k == branches_size(branches) - 1 {
            assert(more[ends.len() as int] == at + k);
        } else {
            assert(branch_ends(branches.drop_last(), k));
            let e = choose|e: int| 0 <= e < ends.len() && #[trigger] ends[e] == at + k;
            assert(more[e] == at + k);
        }
    }
}

/// Appends the branches of a conditional, each with a jump that is still to be
/// directed.
fn gen_branches(
    branches: &Vec<(Expr, Vec<Node>)>,
    instrs: &mut Vec<Instr>,
    names: &Vec<String>,
) -> (ends: Vec<usize>)
    ensures
        final(instrs)@.len() == old(instrs)@.len() + branches_size(ast::branch_views(branches@)),
        instr_views(final(instrs)@) == instr_views(old(instrs)@) + branches_code(
            ast::branch_views(branches@),
            old(instrs)@.len() as int,
            0,
            text::views(names@),
        ),
        lists_branch_ends(ends@, ast::branch_views(branches@), old(instrs)@.len() as int),
    decreases *branches, 0int,
{
    let ghost all = ast::branch_views(branches@);
    let ghost base = instr_views(instrs@);
    let ghost n = text::views(names@);
    let mut ends: Vec<usize> = Vec::new();
    let mut i: usize = 0;
    proof {
        ast::lemma_branch_views(branches@);
        assert(all.take(0) =~= Seq::empty());
        assert(base + Seq::empty() =~= base);
    }
    while i < branches.len()
        invariant
            i <= branches@.len(),
            base == instr_views(old(instrs)@),
            n == text::views(names@),
            all == ast::branch_views(branches@),
            all.len() == branches@.len(),
            forall|j: int|
                0 <= j < all.len() ==> #[trigger] all[j] == (
                    branches@[j].0@,
                    ast::node_views(branches@[j].1@),
                ),
            instr_views(instrs@) == base + branches_code(
                all.take(i as int),
                base.len() as int,
                0,
                n,
            ),
            lists_branch_ends(ends@, all.take(i as int), base.len() as int),
            base.len() == old(instrs)@.len(),
            instrs@.len() == base.len() + branches_size(all.take(i as int)),
        decreases branches@.len() - i,
    {
        let ghost front = all.take(i as int);
        let ghost front_code = branches_code(front, base.len() as int, 0, n);
        let ghost ends0 = ends@;
        proof {
            assert(all.take(i + 1).drop_last() =~= front);
            assert(all.take(i + 1).last() == all[i as int]);
            lemma_branches_code_len(front, base.len() as int, 0, n);
        }
        let start: usize = instrs.len();
        emit(instrs, Instr::Jump { target: 0 });
        let ghost body = nodes_code(ast::node_views(branches@[i as int].1@), start + 1, n);
        gen_nodes(&branches[i].1, instrs, names);
        let end: usize = instrs.len();
        emit(instrs, Instr::Jump { target: 0 });
        ends.push(end);
        let next: usize = instrs.len();
        let test: Instr = Instr::JumpIfFalse { cond: branches[i].0.clone(), target: next };
        let ghost unset = instr_views(instrs@);
        instrs.set(start, test);
        proof {
            lemma_nodes_code_len(ast::node_views(branches@[i as int].1@), start + 1, n);
            let jump = seq![InstrView::Jump { target: 0 }];
            assert(unset =~= base + front_code + jump + body + jump);
            assert(instr_views(instrs@) =~= unset.update(start as int, test@));
            let whole = base + (front_code + (seq![test@] + body).push(
                InstrView::Jump { target: 0 },
            ));
            assert(instr_views(instrs@) =~= whole);
            lemma_branch_ends_push(ends0, all.take(i + 1), base.len() as int, end);
        }
        i = i + 1;
    }
    assert(all.take(i as int) =~= all);
    ends
}

/// Appends the code of a node.
fn gen_node(node: &Node, instrs: &mut Vec<Instr>, names: &Vec<String>)
    ensures
        final(instrs)@.len() == old(instrs)@.len() + node_size(ast::node_view(*node)),
        instr_views(final(instrs)@) == instr_views(old(instrs)@) + node_code(
            ast::node_view(*node),
            old(instrs)@.len() as int,
            text::views(names@),
        ),
    decreases *node, 1int,
{
    proof {
        lemma_node_code_len(
            ast::node_view(*node),
            instrs@.len() as int,
            text::views(names@),
        );
    }
    match node {
        Node::Dialogue { speaker, pose, text, .. } => {
            emit(
                instrs,
                Instr::Dialogue {
                    speaker: speaker.clone(),
                    pose: opt_clone(pose),
                    text: text.clone(),
                },
            );
        },
        Node::Narration { text, .. } => {
            emit(instrs, Instr::Narration { text: text.clone() });
        },
        Node::Command { cmd, args, transition, .. } => {
            emit(
                instrs,
                Instr::Command {
                    cmd: cmd.clone(),
                    args: clone_strings(args),
                    transition: *transition,
                },
            );
        },
        Node::Direction { action, .. } => {
            emit(instrs, Instr::Direction { action: clone_action(action) });
        },
        Node::VarOp { name, op, expr, .. } => {
            emit(instrs, Instr::VarOp { name: name.clone(), op: *op, expr: expr.clone() });
        },
        Node::Choice { prompt, options, .. } => {
            gen_choice(prompt, options, instrs, names);
        },
        Node::Conditional { branches, else_branch, .. } => {
            let ends: Vec<usize> = gen_branches(branches, instrs, names);
            let ghost tested = instr_views(instrs@);
            if let Some(body) = else_branch {
                gen_nodes(body, instrs, names);
            }
            proof {
                if else_branch is None {
                    assert(tested =~= tested + Seq::empty());
                }
            }
            close_conditional(branches, else_branch, instrs, names, &ends, Ghost(old(instrs)@));
        },
        Node::Flow { target, .. } => {
            match find_section(names, target.as_str()) {
                Some(i) => emit(instrs, Instr::SectionJump { target: i }),
                None => emit(instrs, Instr::StoryEnd),
            }
        },
        Node::Visit { target, .. } => {
            match find_section(names, target.as_str()) {
                Some(i) => emit(instrs, Instr::VisitCall { target: i }),
                None => emit(instrs, Instr::StoryEnd),
            }
        },
        Node::Return { .. } => {
            emit(instrs, Instr::Return);
        },
        Node::Wait { seconds, .. } => {
            emit(instrs, Instr::Wait { seconds: clone_number(seconds) });
        },
        Node::StoryEnd { .. } => {
            emit(instrs, Instr::StoryEnd);
        },
    }
    assert(instr_views(instrs@).len() == instrs@.len());
}

fn gen_choice(
    prompt: &Option<String>,
    options: &Vec<ChoiceOption>,
    instrs: &mut Vec<Instr>,
    names: &Vec<String>,
)
    ensures
        ({
            let opts = ast::option_views(options@);
            let at = old(instrs)@.len() as int;
            let after = at + 2 + options_size(opts);
            instr_views(final(instrs)@) == instr_views(old(instrs)@) + (seq![
                InstrView::Choice {
                    prompt: text::opt_view(*prompt),
                    options: compiled_options(opts, at + 2),
                },
                InstrView::Jump { target: after },
            ] + options_code(opts, at + 2, after, text::views(names@)))
        }),
    decreases *options, 1int,
{
    let ghost opts = ast::option_views(options@);
    let ghost n = text::views(names@);
    let ghost base = instr_views(instrs@);
    let menu: usize = instrs.len();
    emit(instrs, Instr::Jump { target: 0 });
    let skip: usize = instrs.len();
    emit(instrs, Instr::Jump { target: 0 });
    let ghost at = instrs@.len() as int;
    let (compiled, ends) = gen_options(options, instrs, names);
    let after: usize = instrs.len();
    let ghost opened = instr_views(instrs@);
    proof {
        lemma_options_code_len(opts, at, 0, n);
        lemma_options_code_len(opts, at, after as int, n);
        assert forall|e: int| 0 <= e < ends@.len() implies (#[trigger] ends@[e]) < instrs@.len() by {
            lemma_option_ends_bound(opts, ends@[e] - at);
        }
    }
    let head: Instr = Instr::Choice { prompt: opt_clone(prompt), options: compiled };
    instrs.set(menu, head);
    instrs.set(skip, Instr::Jump { target: after });
    patch_jumps(instrs, &ends, after);
    proof {
        let whole = base + (seq![head@, InstrView::Jump { target: after as int }] + options_code(
            opts,
            at,
            after as int,
            n,
        ));
        assert(instr_views(instrs@).len() == whole.len());
        assert forall|k: int| 0 <= k < whole.len() implies #[trigger] instr_views(instrs@)[k]
            == whole[k] by {
            if k < at {
                if lists(ends@, k) {
                    let e = choose|e: int| 0 <= e < ends@.len() && #[trigger] ends@[e] == k;
                    assert(at <= ends@[e]);
                }
                assert(opened[k] == (base + seq![InstrView::Jump { target: 0 }] + seq![
                    InstrView::Jump { target: 0 },
                ])[k]);
            } else {
                lemma_options_retarget(opts, at, 0, after as int, n, k - at);
                assert(opened[k] == options_code(opts, at, 0, n)[k - at]);
                if lists(ends@, k) {
                    let e = choose|e: int| 0 <= e < ends@.len() && #[trigger] ends@[e] == k;
                    assert(option_ends(opts, ends@[e] - at));
                } else {
                    assert(!option_ends(opts, k - at));
                }
            }
        }
        assert(instr_views(instrs@) =~= whole);
    }
}

/// The code of an `else` branch, where there is one.
spec fn else_code(else_branch: Option<Vec<Node>>, at: int, names: Seq<Seq<char>>) -> Seq<InstrView> {
    match else_branch {
        Some(b) => nodes_code(ast::node_views(b@), at, names),
        None => Seq::empty(),
    }
}

/// Directs the jumps of a conditional behind it.
fn close_conditional(
    branches: &Vec<(Expr, Vec<Node>)>,
    else_branch: &Option<Vec<Node>>,
    instrs: &mut Vec<Instr>,
    names: &Vec<String>,
    ends: &Vec<usize>,
    Ghost(before): Ghost<Seq<Instr>>,
)
    requires
        ({
            let brs = ast::branch_views(branches@);
            let at = before.len() as int;
            let n = text::views(names@);
            &&& lists_branch_ends(ends@, brs, at)
            &&& instr_views(old(instrs)@) == instr_views(before) + branches_code(brs, at, 0, n)
                + else_code(*else_branch, at + branches_size(brs), n)
        }),
    ensures
        ({
            let brs = ast::branch_views(branches@);
            let at = before.len() as int;
            let n = text::views(names@);
            let middle = at + branches_size(brs);
            instr_views(final(instrs)@) == instr_views(before) + (match *else_branch {
                Some(b) => branches_code(brs, at, middle + nodes_size(ast::node_views(b@)), n)
                    + nodes_code(ast::node_views(b@), middle, n),
                None => branches_code(brs, at, middle, n),
            })
        }),
{
    let ghost brs = ast::branch_views(branches@);
    let ghost n = text::views(names@);
    let ghost base = instr_views(before);
    let ghost at = before.len() as int;
    let ghost middle = at + branches_size(brs);
    let ghost tail = else_code(*else_branch, middle, n);
    let after: usize = instrs.len();
    let ghost opened = instr_views(instrs@);
    proof {
        if let Some(b) = else_branch {
            lemma_nodes_code_len(ast::node_views(b@), middle, n);
        }
        lemma_branches_code_len(brs, at, 0, n);
        lemma_branches_code_len(brs, at, after as int, n);
        assert(base.len() == at);
        assert(opened.len() == instrs@.len());
        assert(opened == base + branches_code(brs, at, 0, n) + tail);
        assert(instrs@.len() == middle + tail.len());
        assert forall|e: int| 0 <= e < ends@.len() implies (#[trigger] ends@[e]) < instrs@.len() by {
            lemma_branch_ends_bound(brs, ends@[e] - at);
        }
    }
    patch_jumps(instrs, ends, after);
    proof {
        let whole = base + (branches_code(brs, at, after as int, n) + tail);
        assert(instr_views(instrs@).len() == whole.len());
        assert forall|k: int| 0 <= k < whole.len() implies #[trigger] instr_views(instrs@)[k]
            == whole[k] by {
            if lists(ends@, k) {
                let e = choose|e: int| 0 <= e < ends@.len() && #[trigger] ends@[e] == k;
                assert(at <= ends@[e] && branch_ends(brs, ends@[e] - at));
                lemma_branch_ends_bound(brs, k - at);
            }
            if at <= k < middle {
                lemma_branches_retarget(brs, at, 0, after as int, n, k - at);
                assert(opened[k] == branches_code(brs, at, 0, n)[k - at]);
                if !lists(ends@, k) {
                    assert(!branch_ends(brs, k - at));
                }
            } else {
                assert(opened[k] == whole[k]);
            }
        }
        assert(instr_views(instrs@) =~= whole);
        assert(branches_code(brs, at, after as int, n) + Seq::<InstrView>::empty()
            =~= branches_code(brs, at, after as int, n));
    }
}

/// The instructions of a section.
pub fn compile_section(nodes: &Vec<Node>, names: &Vec<String>) -> (instrs: Vec<Instr>)
    ensures
        instr_views(instrs@) == section_code(ast::node_views(nodes@), text::views(names@)),
{
    let mut instrs: Vec<Instr> = Vec::new();
    assert(instr_views(instrs@) =~= Seq::empty());
    gen_nodes(nodes, &mut instrs, names);
    let ghost body = nodes_code(ast::node_views(nodes@), 0, text::views(names@));
    assert(Seq::empty() + body =~= body);
    emit(&mut instrs, Instr::StoryEnd);
    assert(instr_views(instrs@) =~= body.push(InstrView::StoryEnd));
    instrs
}

// ---------------------------------------------------------------------------
// Laws
// ---------------------------------------------------------------------------

/// Where an instruction may lead: within its section, to an index of at most
/// `hi`, or to one of `sections` sections.
pub open spec fn leads_within(x: InstrView, hi: int, sections: int) -> bool {
    match x {
        InstrView::Jump { target } => 0 <= target <= hi,
        InstrView::JumpIfFalse { target, .. } => 0 <= target <= hi,
        InstrView::Choice { options, .. } => forall|k: int|
            0 <= k < options.len() ==> 0 <= (#[trigger] options[k]).target <= hi,
        InstrView::SectionJump { target } => 0 <= target < sections,
        InstrView::VisitCall { target } => 0 <= target < sections,
        _ => true,
    }
}

spec fn all_lead_within(code: Seq<InstrView>, hi: int, sections: int) -> bool {
    forall|k: int| 0 <= k < code.len() ==> leads_within(#[trigger] code[k], hi, sections)
}

proof fn lemma_section_index_range(names: Seq<Seq<char>>, name: Seq<char>)
    ensures
        section_index(names, name) matches Some(i) ==> 0 <= i < names.len() && names[i] == name,
    decreases names.len(),
{
    if names.len() > 0 && names.last() != name {
        lemma_section_index_range(names.drop_last(), name);
    }
}

proof fn lemma_compiled_options_range(options: Seq<ChoiceOptionView>, at: int, hi: int)
    requires
        0 <= at,
        at + options_size(options) <= hi,
    ensures
        forall|k: int|
            0 <= k < compiled_options(options, at).len() ==> at <= (#[trigger] compiled_options(
                options,
                at,
            )[k]).target <= hi,
    decreases options.len(),
{
    if options.len() > 0 {
        lemma_compiled_options_range(options.drop_last(), at, hi);
    }
}

proof fn lemma_node_leads(n: NodeView, at: int, hi: int, names: Seq<Seq<char>>)
    requires
        0 <= at,
        at + node_size(n) <= hi,
    ensures
        all_lead_within(node_code(n, at, names), hi, names.len() as int),
    decreases n,
{
    match n {
        NodeView::Choice { options, .. } => {
            let after = at + 2 + options_size(options);
            lemma_options_lead(options, at + 2, after, hi, names);
            lemma_compiled_options_range(options, at + 2, hi);
        },
        NodeView::Conditional { branches, else_branch, .. } => {
            let middle = at + branches_size(branches);
            match else_branch {
                Some(body) => {
                    lemma_branches_lead(branches, at, middle + nodes_size(body), hi, names);
                    lemma_nodes_lead(body, middle, hi, names);
                },
                None => {
                    lemma_branches_lead(branches, at, middle, hi, names);
                },
            }
        },
        NodeView::Flow { target, .. } => {
            lemma_section_index_range(names, target);
        },
        NodeView::Visit { target, .. } => {
            lemma_section_index_range(names, target);
        },
        _ => {},
    }
}

proof fn lemma_nodes_lead(nodes: Seq<NodeView>, at: int, hi: int, names: Seq<Seq<char>>)
    requires
        0 <= at,
        at + nodes_size(nodes) <= hi,
    ensures
        all_lead_within(nodes_code(nodes, at, names), hi, names.len() as int),
    decreases nodes,
{
    if nodes.len() > 0 {
        let front = nodes.drop_last();
        lemma_nodes_lead(front, at, hi, names);
        lemma_node_leads(nodes.last(), at + nodes_size(front), hi, names);
    }
}

proof fn lemma_options_lead(
    options: Seq<ChoiceOptionView>,
    at: int,
    after: int,
    hi: int,
    names: Seq<Seq<char>>,
)
    requires
        0 <= at,
        at + options_size(options) <= hi,
        0 <= after <= hi,
    ensures
        all_lead_within(options_code(options, at, after, names), hi, names.len() as int),
    decreases options,
{
    if options.len() > 0 {
        let front = options.drop_last();
        lemma_options_lead(front, at, after, hi, names);
        lemma_nodes_lead(options.last().body, at + options_size(front), hi, names);
    }
}

proof fn lemma_branches_lead(
    branches: Seq<(Expr<Seq<char>>, Seq<NodeView>)>,
    at: int,
    after: int,
    hi: int,
    names: Seq<Seq<char>>,
)
    requires
        0 <= at,
        at + branches_size(branches) <= hi,
        0 <= after <= hi,
    ensures
        all_lead_within(branches_code(branches, at, after, names), hi, names.len() as int),
    decreases branches,
{
    if branches.len() > 0 {
        let front = branches.drop_last();
        lemma_branches_lead(front, at, after, hi, names);
        lemma_nodes_lead(branches.last().1, at + branches_size(front) + 1, hi, names);
    }
}

/// Every instruction of a section leads to an instruction of that section or
/// to a section of the program, and the last one ends the story.
pub proof fn law_code_stays_inside(nodes: Seq<NodeView>, names: Seq<Seq<char>>, k: int)
    requires
        0 <= k < section_code(nodes, names).len(),
    ensures
        leads_within(
            section_code(nodes, names)[k],
            section_code(nodes, names).len() - 1,
            names.len() as int,
        ),
        section_code(nodes, names).last() is StoryEnd,
{
    lemma_nodes_code_len(nodes, 0, names);
    lemma_nodes_lead(nodes, 0, nodes_size(nodes) as int, names);
    if k < nodes_size(nodes) {
        assert(section_code(nodes, names)[k] == nodes_code(nodes, 0, names)[k]);
    }
}

} // verus!
