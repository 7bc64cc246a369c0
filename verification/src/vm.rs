//! The virtual machine that runs scripts.
//!
//! A program is compiled to flat instructions, which the machine carries out
//! until something is to be shown; that is handed out as an event.

use crate::ast;
use crate::ast::{
    clone_action, clone_number, BinOp, DirectionAction, Number, Program, ProgramView, SectionView,
    Transition, VarOpKind,
};
use crate::code;
use crate::code::{
    compile_section, find_section, CompiledOption, CompiledOptionView, Instr, InstrView,
};
use crate::eval;
use crate::eval::{clone_request, AnswerMap, Answers, Found, FloatRequest, Outcome};
use crate::table::Table;
use crate::text;
use crate::text::{clone_strings, concat2, concat3, format_usize, opt_clone};
use crate::value::Value;
use vstd::prelude::*;

verus! {

/// An option as it is offered.
#[derive(Debug, Clone)]
pub struct ChoiceInfo<S = String> {
    pub text: S,
    pub available: bool,
}

impl View for ChoiceInfo<String> {
    type V = ChoiceInfo<Seq<char>>;

    open spec fn view(&self) -> ChoiceInfo<Seq<char>> {
        ChoiceInfo { text: self.text@, available: self.available }
    }
}

pub open spec fn info_views(s: Seq<ChoiceInfo>) -> Seq<ChoiceInfo<Seq<char>>> {
    Seq::new(s.len(), |i: int| s[i]@)
}

/// What the machine hands to the engine.
#[derive(Debug)]
pub enum VmEvent {
    Dialogue { speaker: String, pose: Option<String>, text: String },
    Narration { text: String },
    Command { cmd: String, args: Vec<String>, transition: Option<Transition> },
    Direction { action: DirectionAction },
    Choice { prompt: Option<String>, options: Vec<ChoiceInfo> },
    Flow { target: String },
    Visit { target: String },
    Return,
    Wait { seconds: Number },
    StoryEnd,
    /// A floating-point operation whose result the machine waits for.
    Compute { request: FloatRequest },
}

pub enum VmEventView {
    Dialogue { speaker: Seq<char>, pose: Option<Seq<char>>, text: Seq<char> },
    Narration { text: Seq<char> },
    Command { cmd: Seq<char>, args: Seq<Seq<char>>, transition: Option<Transition> },
    Direction { action: DirectionAction<Seq<char>> },
    Choice { prompt: Option<Seq<char>>, options: Seq<ChoiceInfo<Seq<char>>> },
    Flow { target: Seq<char> },
    Visit { target: Seq<char> },
    Return,
    Wait { seconds: Number<Seq<char>> },
    StoryEnd,
    Compute { request: FloatRequest<Seq<char>> },
}

impl View for VmEvent {
    type V = VmEventView;

    open spec fn view(&self) -> VmEventView {
        match *self {
            VmEvent::Dialogue { speaker, pose, text } => VmEventView::Dialogue {
                speaker: speaker@,
                pose: text::opt_view(pose),
                text: text@,
            },
            VmEvent::Narration { text } => VmEventView::Narration { text: text@ },
            VmEvent::Command { cmd, args, transition } => VmEventView::Command {
                cmd: cmd@,
                args: text::views(args@),
                transition,
            },
            VmEvent::Direction { action } => VmEventView::Direction { action: action@ },
            VmEvent::Choice { prompt, options } => VmEventView::Choice {
                prompt: text::opt_view(prompt),
                options: info_views(options@),
            },
            VmEvent::Flow { target } => VmEventView::Flow { target: target@ },
            VmEvent::Visit { target } => VmEventView::Visit { target: target@ },
            VmEvent::Return => VmEventView::Return,
            VmEvent::Wait { seconds } => VmEventView::Wait { seconds: seconds@ },
            VmEvent::StoryEnd => VmEventView::StoryEnd,
            VmEvent::Compute { request } => VmEventView::Compute { request: request@ },
        }
    }
}

/// A runtime error.
#[derive(Debug, Clone)]
pub struct VmError {
    pub message: String,
}

/// What is kept of a machine when a game is saved.
#[derive(Debug)]
pub struct VmState {
    pub ip: usize,
    pub section: usize,
    pub variables: Table<Value>,
    pub call_stack: Vec<(usize, usize)>,
    /// What the host answered for the instruction.
    pub answers: Answers,
}

// ---------------------------------------------------------------------------
// The abstract machine
// ---------------------------------------------------------------------------

/// A machine: the code of the sections, where it stands, the variables, where
/// visits return to, the choice that is open, and what the host answered for the
/// current instruction.
pub struct Machine {
    pub code: Seq<Seq<InstrView>>,
    pub section: int,
    pub ip: int,
    pub vars: Map<Seq<char>, Value<Seq<char>>>,
    pub stack: Seq<(int, int)>,
    pub pending: Option<Seq<CompiledOptionView>>,
    pub answers: AnswerMap,
}

/// What becomes of a machine in one instruction.
pub enum Tick {
    /// An event or an error message.
    Event(Result<VmEventView, Seq<char>>, Machine),
    Go(Machine),
    /// An integer result does not fit.
    Overflow,
}

/// The machine at another instruction of its section, for which nothing was
/// answered yet.
pub open spec fn at_ip(m: Machine, ip: int) -> Machine {
    Machine { ip, answers: Map::empty(), ..m }
}

pub open spec fn show(m: Machine, e: VmEventView) -> Tick {
    Tick::Event(Ok(e), m)
}

pub open spec fn stuck(m: Machine, message: Seq<char>) -> Tick {
    Tick::Event(Err(message), m)
}

/// The offers of a choice.
pub enum Offers {
    Ready(Seq<ChoiceInfo<Seq<char>>>),
    Overflow,
    Need(FloatRequest<Seq<char>>),
}

/// The offers of a choice. An option is available where it has no condition or
/// its condition holds; a condition that fails does not hold.
pub open spec fn offers(
    options: Seq<CompiledOptionView>,
    vars: Map<Seq<char>, Value<Seq<char>>>,
    answers: AnswerMap,
) -> Offers
    decreases options.len(),
{
    if options.len() == 0 {
        Offers::Ready(Seq::empty())
    } else {
        let front = offers(options.drop_last(), vars, answers);
        let o = options.last();
        match front {
            Offers::Ready(infos) => match o.condition {
                None => Offers::Ready(infos.push(ChoiceInfo { text: o.text, available: true })),
                Some(c) => match eval::evaluated(c, vars, answers) {
                    Outcome::Value(x) => Offers::Ready(
                        infos.push(ChoiceInfo { text: o.text, available: x.truthy() }),
                    ),
                    Outcome::Fault(_) => Offers::Ready(
                        infos.push(ChoiceInfo { text: o.text, available: false }),
                    ),
                    Outcome::Overflow => Offers::Overflow,
                    Outcome::Need(r) => Offers::Need(r),
                },
            },
            _ => front,
        }
    }
}

/// The value that a variable operation stores: the value itself, or the sum or
/// difference with the variable, which counts as zero where it is not set.
pub open spec fn stored(
    m: Machine,
    name: Seq<char>,
    op: VarOpKind,
    v: Value<Seq<char>>,
) -> Outcome {
    let current = if m.vars.contains_key(name) {
        m.vars[name]
    } else {
        Value::Int(0)
    };
    match op {
        VarOpKind::Assign => Outcome::Value(v),
        VarOpKind::PlusEq => eval::binary(BinOp::Add, current, v, m.answers),
        VarOpKind::MinusEq => eval::binary(BinOp::Sub, current, v, m.answers),
    }
}

/// One instruction.
pub open spec fn tick(m: Machine) -> Tick {
    if m.section < 0 || m.section >= m.code.len() {
        show(m, VmEventView::StoryEnd)
    } else if m.ip < 0 || m.ip >= m.code[m.section].len() {
        if m.stack.len() > 0 {
            Tick::Go(
                Machine {
                    section: m.stack.last().0,
                    ip: m.stack.last().1,
                    stack: m.stack.drop_last(),
                    ..m
                },
            )
        } else {
            show(m, VmEventView::StoryEnd)
        }
    } else {
        match m.code[m.section][m.ip] {
            InstrView::Dialogue { speaker, pose, text } => show(
                m,
                VmEventView::Dialogue { speaker, pose, text },
            ),
            InstrView::Narration { text } => show(m, VmEventView::Narration { text }),
            InstrView::Command { cmd, args, transition } => show(
                at_ip(m, m.ip + 1),
                VmEventView::Command { cmd, args, transition },
            ),
            InstrView::Direction { action } => show(
                at_ip(m, m.ip + 1),
                VmEventView::Direction { action },
            ),
            InstrView::Choice { prompt, options } => match offers(options, m.vars, m.answers) {
                Offers::Ready(infos) => show(
                    Machine { pending: Some(options), ..m },
                    VmEventView::Choice { prompt, options: infos },
                ),
                Offers::Overflow => Tick::Overflow,
                Offers::Need(request) => show(m, VmEventView::Compute { request }),
            },
            InstrView::VarOp { name, op, expr } => {
                let v = eval::evaluated(expr, m.vars, m.answers);
                let s = match v {
                    Outcome::Value(x) => stored(m, name, op, x),
                    _ => v,
                };
                match s {
                    Outcome::Value(x) => Tick::Go(
                        Machine { vars: m.vars.insert(name, x), ..at_ip(m, m.ip + 1) },
                    ),
                    Outcome::Fault(message) => stuck(m, message),
                    Outcome::Overflow => Tick::Overflow,
                    Outcome::Need(request) => show(m, VmEventView::Compute { request }),
                }
            },
            InstrView::JumpIfFalse { cond, target } => {
                match eval::evaluated(cond, m.vars, m.answers) {
                    Outcome::Value(v) => Tick::Go(
                        at_ip(
                            m,
                            if v.truthy() {
                                m.ip + 1
                            } else {
                                target
                            },
                        ),
                    ),
                    Outcome::Fault(message) => stuck(m, message),
                    Outcome::Overflow => Tick::Overflow,
                    Outcome::Need(request) => show(m, VmEventView::Compute { request }),
                }
            },
            InstrView::Jump { target } => Tick::Go(at_ip(m, target)),
            InstrView::SectionJump { target } => Tick::Go(
                Machine { section: target, stack: Seq::empty(), ..at_ip(m, 0) },
            ),
            InstrView::VisitCall { target } => Tick::Go(
                Machine {
                    section: target,
                    stack: m.stack.push((m.section, m.ip + 1)),
                    ..at_ip(m, 0)
                },
            ),
            InstrView::Return => if m.stack.len() > 0 {
                Tick::Go(
                    Machine {
                        section: m.stack.last().0,
                        stack: m.stack.drop_last(),
                        ..at_ip(m, m.stack.last().1)
                    },
                )
            } else {
                stuck(m, "return without visit"@)
            },
            InstrView::Wait { seconds } => show(at_ip(m, m.ip + 1), VmEventView::Wait { seconds }),
            InstrView::StoryEnd => show(m, VmEventView::StoryEnd),
        }
    }
}

/// Where a run has got to.
pub enum Stop {
    Event(Result<VmEventView, Seq<char>>, Machine),
    Overflow(Machine),
    Running(Machine),
}

/// A run of at most `fuel` instructions.
pub open spec fn run(m: Machine, fuel: nat) -> Stop
    decreases fuel,
{
    if fuel == 0 {
        Stop::Running(m)
    } else {
        match tick(m) {
            Tick::Event(r, next) => Stop::Event(r, next),
            Tick::Overflow => Stop::Overflow(m),
            Tick::Go(next) => run(next, (fuel - 1) as nat),
        }
    }
}

/// Whether the machine comes to an event.
pub open spec fn comes_to_event(m: Machine) -> bool {
    exists|fuel: nat| run(m, fuel) is Event
}

/// Whether the machine comes to this event, as this machine.
pub open spec fn comes_to(m: Machine, r: Result<VmEventView, Seq<char>>, next: Machine) -> bool {
    exists|fuel: nat| run(m, fuel) == Stop::Event(r, next)
}

/// The names of the sections.
pub open spec fn section_names(sections: Seq<SectionView>) -> Seq<Seq<char>> {
    Seq::new(sections.len(), |i: int| sections[i].name)
}

/// The machine of a program, at its entry.
pub open spec fn initial(p: ProgramView) -> Machine {
    let names = section_names(p.sections);
    let entry = match p.entry {
        Some(name) => Some(name),
        None => if names.len() > 0 {
            Some(names[0])
        } else {
            None
        },
    };
    Machine {
        code: Seq::new(
            p.sections.len(),
            |i: int| code::section_code(p.sections[i].nodes, names),
        ),
        section: match entry {
            Some(name) => match code::section_index(names, name) {
                Some(i) => i,
                None => 0,
            },
            None => 0,
        },
        ip: 0,
        vars: Map::empty(),
        stack: Seq::empty(),
        pending: None,
        answers: Map::empty(),
    }
}

/// What a choice of option `index` comes to.
pub enum Chosen {
    Done(Machine),
    Fault(Seq<char>, Machine),
    Overflow,
    Need(FloatRequest<Seq<char>>),
}

/// The choice of option `index`. An accepted or refused choice is closed; one
/// that waits for the host stays open.
pub open spec fn chosen(m: Machine, index: int) -> Chosen {
    match m.pending {
        None => Chosen::Fault("no pending choice"@, m),
        Some(options) => {
            let closed = Machine { pending: None, ..m };
            if index < 0 || index >= options.len() {
                Chosen::Fault("invalid choice index: "@ + text::nat_text(index as nat), closed)
            } else {
                let done = Chosen::Done(at_ip(closed, options[index].target));
                match options[index].condition {
                    None => done,
                    Some(c) => match eval::evaluated(c, m.vars, m.answers) {
                        Outcome::Value(v) => if v.truthy() {
                            done
                        } else {
                            Chosen::Fault(
                                "choice "@ + text::nat_text(index as nat) + " not available"@,
                                closed,
                            )
                        },
                        Outcome::Fault(message) => Chosen::Fault(message, closed),
                        Outcome::Overflow => Chosen::Overflow,
                        Outcome::Need(r) => Chosen::Need(r),
                    },
                }
            }
        },
    }
}

/// What a game save keeps of a machine, as a machine.
pub open spec fn restored(m: Machine, saved: Machine) -> Machine {
    Machine {
        ip: saved.ip,
        section: saved.section,
        vars: saved.vars,
        stack: saved.stack,
        pending: None,
        answers: saved.answers,
        ..m
    }
}

// ---------------------------------------------------------------------------
// Code
// ---------------------------------------------------------------------------

/// The virtual machine.
pub struct Vm {
    code: Vec<Vec<Instr>>,
    current_section: usize,
    ip: usize,
    variables: Table<Value>,
    call_stack: Vec<(usize, usize)>,
    pending_choice: Option<Vec<CompiledOption>>,
    answers: Answers,
}

/// What a limited run came to.
#[derive(Debug)]
pub enum StepOutcome {
    Event(Result<VmEvent, VmError>),
    /// An integer result does not fit; the machine stands at the instruction.
    Overflow,
    /// No event within the limit; the machine stands where it got to.
    Running,
}

/// What one instruction came to.
enum Ticked {
    Event(Result<VmEvent, VmError>),
    Overflow,
    Go,
}

pub open spec fn event_result(r: Result<VmEvent, VmError>) -> Result<VmEventView, Seq<char>> {
    match r {
        Ok(e) => Ok(e@),
        Err(e) => Err(e.message@),
    }
}

pub open spec fn code_views(s: Seq<Vec<Instr>>) -> Seq<Seq<InstrView>> {
    Seq::new(s.len(), |i: int| code::instr_views(s[i]@))
}

pub open spec fn stack_views(s: Seq<(usize, usize)>) -> Seq<(int, int)> {
    Seq::new(s.len(), |i: int| (s[i].0 as int, s[i].1 as int))
}

pub open spec fn pending_view(p: Option<Vec<CompiledOption>>) -> Option<Seq<CompiledOptionView>> {
    match p {
        Some(options) => Some(code::compiled_views(options@)),
        None => None,
    }
}

impl View for Vm {
    type V = Machine;

    closed spec fn view(&self) -> Machine {
        Machine {
            code: code_views(self.code@),
            section: self.current_section as int,
            ip: self.ip as int,
            vars: eval::var_views(self.variables@),
            stack: stack_views(self.call_stack@),
            pending: pending_view(self.pending_choice),
            answers: self.answers@,
        }
    }
}

fn clone_options(options: &Vec<CompiledOption>) -> (r: Vec<CompiledOption>)
    ensures
        code::compiled_views(r@) == code::compiled_views(options@),
{
    let mut r: Vec<CompiledOption> = Vec::new();
    let mut i: usize = 0;
    while i < options.len()
        invariant
            i <= options@.len(),
            r@.len() == i,
            forall|k: int| 0 <= k < i ==> (#[trigger] r@[k])@ == options@[k]@,
        decreases options@.len() - i,
    {
        let o: &CompiledOption = &options[i];
        let condition: Option<ast::Expr> = match &o.condition {
            Some(c) => Some(c.clone()),
            None => None,
        };
        r.push(CompiledOption { text: o.text.clone(), condition, target: o.target });
        i = i + 1;
    }
    assert(code::compiled_views(r@) =~= code::compiled_views(options@));
    r
}

fn clone_stack(s: &Vec<(usize, usize)>) -> (r: Vec<(usize, usize)>)
    ensures
        r@ == s@,
{
    let mut r: Vec<(usize, usize)> = Vec::new();
    let mut i: usize = 0;
    while i < s.len()
        invariant
            i <= s@.len(),
            r@ == s@.take(i as int),
        decreases s@.len() - i,
    {
        r.push(s[i]);
        i = i + 1;
        assert(r@ =~= s@.take(i as int));
    }
    assert(r@ =~= s@);
    r
}

/// What the offers of a choice came to.
enum OffersFound {
    Ready(Vec<ChoiceInfo>),
    Overflow,
    Need(FloatRequest),
}

impl OffersFound {
    spec fn view(&self) -> Offers {
        match *self {
            OffersFound::Ready(v) => Offers::Ready(info_views(v@)),
            OffersFound::Overflow => Offers::Overflow,
            OffersFound::Need(r) => Offers::Need(r@),
        }
    }
}

/// Offers that are not ready stay so.
proof fn lemma_offers_stop(
    options: Seq<CompiledOptionView>,
    vars: Map<Seq<char>, Value<Seq<char>>>,
    answers: AnswerMap,
    n: int,
)
    requires
        0 <= n <= options.len(),
        !(offers(options.take(n), vars, answers) is Ready),
    ensures
        offers(options, vars, answers) == offers(options.take(n), vars, answers),
    decreases options.len() - n,
{
    if n < options.len() {
        assert(options.take(n + 1).drop_last() =~= options.take(n));
        lemma_offers_stop(options, vars, answers, n + 1);
    } else {
        assert(options.take(n) =~= options);
    }
}

fn make_offers(options: &Vec<CompiledOption>, vars: &Table<Value>, answers: &Answers) -> (r:
    OffersFound)
    ensures
        r@ == offers(code::compiled_views(options@), eval::var_views(vars@), answers@),
{
    let ghost all = code::compiled_views(options@);
    let ghost vs = eval::var_views(vars@);
    let mut infos: Vec<ChoiceInfo> = Vec::new();
    let mut i: usize = 0;
    assert(all.take(0) =~= Seq::empty());
    assert(info_views(infos@) =~= Seq::empty());
    while i < options.len()
        invariant
            i <= options@.len(),
            all == code::compiled_views(options@),
            vs == eval::var_views(vars@),
            offers(all.take(i as int), vs, answers@) == Offers::Ready(info_views(infos@)),
        decreases options@.len() - i,
    {
        let ghost before = infos@;
        proof {
            assert(all.take(i + 1).drop_last() =~= all.take(i as int));
            assert(all.take(i + 1).last() == all[i as int]);
        }
        let o: &CompiledOption = &options[i];
        let mut available: bool = true;
        if let Some(c) = &o.condition {
            match eval::eval(c, vars, answers) {
                Found::Value(v) => {
                    available = v.is_truthy();
                },
                Found::Fault(_) => {
                    available = false;
                },
                Found::Overflow => {
                    proof {
                        lemma_offers_stop(all, vs, answers@, i + 1);
                    }
                    return OffersFound::Overflow;
                },
                Found::Need(r) => {
                    proof {
                        lemma_offers_stop(all, vs, answers@, i + 1);
                    }
                    return OffersFound::Need(r);
                },
            }
        }
        let info: ChoiceInfo = ChoiceInfo { text: o.text.clone(), available };
        infos.push(info);
        assert(info_views(infos@) =~= info_views(before).push(info@));
        i = i + 1;
    }
    assert(all.take(i as int) =~= all);
    OffersFound::Ready(infos)
}

impl Vm {
    /// The machine of a program, at its entry.
    pub fn new(program: &Program) -> (vm: Self)
        ensures
            vm@ == initial(program@),
    {
        let ghost sections = program@.sections;
        let ghost names0 = section_names(sections);
        let mut names: Vec<String> = Vec::new();
        let mut i: usize = 0;
        while i < program.sections.len()
            invariant
                i <= program.sections@.len(),
                sections == program@.sections,
                names@.len() == i,
                forall|k: int| 0 <= k < i ==> (#[trigger] names@[k])@ == sections[k].name,
            decreases program.sections@.len() - i,
        {
            names.push(program.sections[i].name.clone());
            i = i + 1;
        }
        assert(text::views(names@) =~= names0);
        let mut code: Vec<Vec<Instr>> = Vec::new();
        let mut j: usize = 0;
        while j < program.sections.len()
            invariant
                j <= program.sections@.len(),
                sections == program@.sections,
                text::views(names@) == names0,
                code@.len() == j,
                forall|k: int|
                    0 <= k < j ==> code::instr_views((#[trigger] code@[k])@) == code::section_code(
                        sections[k].nodes,
                        names0,
                    ),
            decreases program.sections@.len() - j,
        {
            code.push(compile_section(&program.sections[j].nodes, &names));
            j = j + 1;
        }
        let entry: Option<String> = match &program.entry {
            Some(name) => Some(name.clone()),
            None => if names.len() > 0 {
                Some(names[0].clone())
            } else {
                None
            },
        };
        let current_section: usize = match &entry {
            Some(name) => match find_section(&names, name.as_str()) {
                Some(k) => k,
                None => 0,
            },
            None => 0,
        };
        let vm: Vm = Vm {
            code,
            current_section,
            ip: 0,
            variables: Table::new(),
            call_stack: Vec::new(),
            pending_choice: None,
            answers: Answers::new(),
        };
        assert(vm@.code =~= initial(program@).code);
        assert(vm@.vars =~= initial(program@).vars);
        assert(vm@.stack =~= initial(program@).stack);
        vm
    }

    /// Puts the machine at the start of its section.
    pub fn start(&mut self) -> (r: Result<(), VmError>)
        ensures
            match r {
                Ok(_) => old(self)@.code.len() > 0 && final(self)@ == (Machine {
                    ip: 0,
                    ..old(self)@
                }),
                Err(e) => old(self)@.code.len() == 0 && final(self)@ == old(self)@ && e.message@
                    == "no sections to run"@,
            },
    {
        if self.code.len() == 0 {
            return Err(VmError { message: "no sections to run".to_owned() });
        }
        self.ip = 0;
        Ok(())
    }

    /// Moves past the current text.
    pub fn advance(&mut self)
        requires
            old(self)@.ip < usize::MAX,
        ensures
            final(self)@ == (Machine { ip: old(self)@.ip + 1, ..old(self)@ }),
    {
        self.ip = self.ip + 1;
    }

    /// Gives the host's answer to a request, as the bit pattern of a double.
    pub fn answer(&mut self, request: &FloatRequest, bits: u64)
        ensures
            final(self)@ == (Machine {
                answers: old(self)@.answers.insert(request@, bits),
                ..old(self)@
            }),
    {
        self.answers.give(clone_request(request), bits);
    }

    /// Moves to another instruction of the section.
    fn go(&mut self, ip: usize)
        ensures
            final(self)@ == at_ip(old(self)@, ip as int),
    {
        self.ip = ip;
        self.answers = Answers::new();
    }

    /// Takes the place that the last visit returns to.
    fn pop_visit(&mut self) -> (r: Option<(usize, usize)>)
        ensures
            match r {
                Some((s, i)) => {
                    &&& old(self)@.stack.len() > 0
                    &&& old(self)@.stack.last() == (s as int, i as int)
                    &&& final(self)@ == (Machine {
                        stack: old(self)@.stack.drop_last(),
                        ..old(self)@
                    })
                },
                None => old(self)@.stack.len() == 0 && final(self)@ == old(self)@,
            },
    {
        let r: Option<(usize, usize)> = self.call_stack.pop();
        proof {
            if r is Some {
                assert(stack_views(self.call_stack@) =~= stack_views(
                    old(self).call_stack@,
                ).drop_last());
            }
        }
        r
    }

    /// Carries out a variable operation.
    fn tick_varop(&mut self, name: &String, op: VarOpKind, expr: &ast::Expr) -> (t: Ticked)
        requires
            old(self).ip < usize::MAX,
        ensures
            ({
                let m = old(self)@;
                let v = eval::evaluated(expr@, m.vars, m.answers);
                let s = match v {
                    Outcome::Value(x) => stored(m, name@, op, x),
                    _ => v,
                };
                match s {
                    Outcome::Value(x) => t is Go && final(self)@ == (Machine {
                        vars: m.vars.insert(name@, x),
                        ..at_ip(m, m.ip + 1)
                    }),
                    Outcome::Fault(message) => ticked(
                        t,
                        final(self)@,
                        stuck(m, message),
                        m,
                    ),
                    Outcome::Overflow => t is Overflow && final(self)@ == m,
                    Outcome::Need(request) => ticked(
                        t,
                        final(self)@,
                        show(m, VmEventView::Compute { request }),
                        m,
                    ),
                }
            }),
    {
        let value: Found = match eval::eval(expr, &self.variables, &self.answers) {
            Found::Value(v) => match op {
                VarOpKind::Assign => Found::Value(v),
                VarOpKind::PlusEq => self.combine(name, BinOp::Add, &v),
                VarOpKind::MinusEq => self.combine(name, BinOp::Sub, &v),
            },
            other => other,
        };
        match value {
            Found::Value(v) => {
                let ghost before = self.variables@;
                self.variables.insert(name.clone(), v);
                assert(eval::var_views(self.variables@) =~= eval::var_views(before).insert(
                    name@,
                    v@,
                ));
                let next: usize = self.ip + 1;
                self.go(next);
                Ticked::Go
            },
            Found::Fault(message) => Ticked::Event(Err(VmError { message })),
            Found::Overflow => Ticked::Overflow,
            Found::Need(request) => Ticked::Event(Ok(VmEvent::Compute { request })),
        }
    }

    /// A variable combined with a value.
    fn combine(&self, name: &String, op: BinOp, v: &Value) -> (f: Found)
        ensures
            ({
                let current = if self@.vars.contains_key(name@) {
                    self@.vars[name@]
                } else {
                    Value::Int(0)
                };
                f@ == eval::binary(op, current, v@, self@.answers)
            }),
    {
        match self.variables.get(name.as_str()) {
            Some(current) => eval::eval_binary(op, current, v, &self.answers),
            None => eval::eval_binary(op, &Value::Int(0), v, &self.answers),
        }
    }

    /// Carries out one instruction.
    fn tick(&mut self) -> (t: Ticked)
        ensures
            ticked(t, final(self)@, tick(old(self)@), old(self)@),
    {
        if self.current_section >= self.code.len() {
            return Ticked::Event(Ok(VmEvent::StoryEnd));
        }
        let count: usize = self.code[self.current_section].len();
        if self.ip >= count {
            return match self.pop_visit() {
                Some((section, ip)) => {
                    self.current_section = section;
                    self.ip = ip;
                    Ticked::Go
                },
                None => Ticked::Event(Ok(VmEvent::StoryEnd)),
            };
        }
        self.tick_instr()
    }

    /// Carries out the current instruction.
    fn tick_instr(&mut self) -> (t: Ticked)
        requires
            old(self).current_section < old(self).code@.len(),
            old(self).ip < old(self).code@[old(self).current_section as int]@.len(),
            old(self).ip < usize::MAX,
        ensures
            ticked(t, final(self)@, tick(old(self)@), old(self)@),
    {
        let next: usize = self.ip + 1;
        match &self.code[self.current_section][self.ip] {
            Instr::Dialogue { speaker, pose, text } => Ticked::Event(
                Ok(
                    VmEvent::Dialogue {
                        speaker: speaker.clone(),
                        pose: opt_clone(pose),
                        text: text.clone(),
                    },
                ),
            ),
            Instr::Narration { text } => Ticked::Event(
                Ok(VmEvent::Narration { text: text.clone() }),
            ),
            Instr::Command { cmd, args, transition } => {
                let e: VmEvent = VmEvent::Command {
                    cmd: cmd.clone(),
                    args: clone_strings(args),
                    transition: *transition,
                };
                self.go(next);
                Ticked::Event(Ok(e))
            },
            Instr::Direction { action } => {
                let e: VmEvent = VmEvent::Direction { action: clone_action(action) };
                self.go(next);
                Ticked::Event(Ok(e))
            },
            Instr::Choice { prompt, options } => {
                match make_offers(options, &self.variables, &self.answers) {
                    OffersFound::Ready(infos) => {
                        let e: VmEvent = VmEvent::Choice {
                            prompt: opt_clone(prompt),
                            options: infos,
                        };
                        let open: Vec<CompiledOption> = clone_options(options);
                        self.pending_choice = Some(open);
                        Ticked::Event(Ok(e))
                    },
                    OffersFound::Overflow => Ticked::Overflow,
                    OffersFound::Need(request) => Ticked::Event(Ok(VmEvent::Compute { request })),
                }
            },
            Instr::VarOp { name, op, expr } => {
                let name: String = name.clone();
                let op: VarOpKind = *op;
                let expr: ast::Expr = expr.clone();
                self.tick_varop(&name, op, &expr)
            },
            Instr::JumpIfFalse { cond, target } => {
                match eval::eval(cond, &self.variables, &self.answers) {
                    Found::Value(v) => {
                        let to: usize = if v.is_truthy() {
                            next
                        } else {
                            *target
                        };
                        self.go(to);
                        Ticked::Go
                    },
                    Found::Fault(message) => Ticked::Event(Err(VmError { message })),
                    Found::Overflow => Ticked::Overflow,
                    Found::Need(request) => Ticked::Event(Ok(VmEvent::Compute { request })),
                }
            },
            Instr::Jump { target } => {
                let to: usize = *target;
                self.go(to);
                Ticked::Go
            },
            Instr::SectionJump { target } => {
                let to: usize = *target;
                self.go(0);
                self.current_section = to;
                self.call_stack = Vec::new();
                assert(stack_views(self.call_stack@) =~= Seq::empty());
                Ticked::Go
            },
            Instr::VisitCall { target } => {
                let to: usize = *target;
                self.call_stack.push((self.current_section, next));
                assert(stack_views(self.call_stack@) =~= stack_views(old(self).call_stack@).push(
                    (self.current_section as int, next as int),
                ));
                self.go(0);
                self.current_section = to;
                Ticked::Go
            },
            Instr::Return => match self.pop_visit() {
                Some((section, ip)) => {
                    self.go(ip);
                    self.current_section = section;
                    Ticked::Go
                },
                None => Ticked::Event(
                    Err(VmError { message: "return without visit".to_owned() }),
                ),
            },
            Instr::Wait { seconds } => {
                let e: VmEvent = VmEvent::Wait { seconds: clone_number(seconds) };
                self.go(next);
                Ticked::Event(Ok(e))
            },
            Instr::StoryEnd => Ticked::Event(Ok(VmEvent::StoryEnd)),
        }
    }
}

/// What one instruction came to is what the abstract machine comes to.
spec fn ticked(t: Ticked, now: Machine, expected: Tick, before: Machine) -> bool {
    match expected {
        Tick::Event(r, m) => t matches Ticked::Event(e) && event_result(e) == r && now == m,
        Tick::Overflow => t is Overflow && now == before,
        Tick::Go(m) => t is Go && now == m,
    }
}

impl VmState {
    /// Whether the state holds what a save of the machine keeps.
    pub open spec fn keeps(&self, m: Machine) -> bool {
        &&& self.ip == m.ip
        &&& self.section == m.section
        &&& eval::var_views(self.variables@) == m.vars
        &&& stack_views(self.call_stack@) == m.stack
        &&& self.answers@ == m.answers
    }
}

impl Vm {
    /// Runs to the next event. The machine must come to one: a script that
    /// goes in circles without showing anything never does, and neither does
    /// one whose integers overflow.
    pub fn step(&mut self) -> (r: Result<VmEvent, VmError>)
        requires
            comes_to_event(old(self)@),
        ensures
            comes_to(old(self)@, event_result(r), final(self)@),
    {
        let ghost total = choose|fuel: nat| run(old(self)@, fuel) is Event;
        let ghost mut left: nat = total;
        loop
            invariant
                run(old(self)@, total) is Event,
                run(old(self)@, total) == run(self@, left),
            decreases left,
        {
            match self.tick() {
                Ticked::Event(r) => {
                    return r;
                },
                Ticked::Overflow => {
                    assert(false);
                },
                Ticked::Go => {},
            }
            proof {
                left = (left - 1) as nat;
            }
        }
    }

    /// Runs to the next event, over at most `limit` instructions.
    pub fn step_within(&mut self, limit: u64) -> (r: StepOutcome)
        ensures
            match run(old(self)@, limit as nat) {
                Stop::Event(e, m) => r matches StepOutcome::Event(x) && event_result(x) == e
                    && final(self)@ == m,
                Stop::Overflow(m) => r is Overflow && final(self)@ == m,
                Stop::Running(m) => r is Running && final(self)@ == m,
            },
    {
        let mut left: u64 = limit;
        while left > 0
            invariant
                run(old(self)@, limit as nat) == run(self@, left as nat),
            decreases left,
        {
            match self.tick() {
                Ticked::Event(r) => {
                    return StepOutcome::Event(r);
                },
                Ticked::Overflow => {
                    return StepOutcome::Overflow;
                },
                Ticked::Go => {},
            }
            left = left - 1;
        }
        StepOutcome::Running
    }

    /// Takes an option of the open choice. `Ok(Some(..))` is an operation that
    /// the host is asked for first; the choice then stays open.
    pub fn choose_option(&mut self, index: usize) -> (r: Result<Option<FloatRequest>, VmError>)
        requires
            !(chosen(old(self)@, index as int) is Overflow),
        ensures
            match chosen(old(self)@, index as int) {
                Chosen::Done(m) => r matches Ok(o) && o is None && final(self)@ == m,
                Chosen::Fault(message, m) => r matches Err(e) && e.message@ == message
                    && final(self)@ == m,
                Chosen::Need(request) => r matches Ok(o) && o is Some && (o->0)@ == request
                    && final(self)@ == old(self)@,
                Chosen::Overflow => false,
            },
    {
        match self.try_choose_option(index) {
            Some(r) => r,
            None => {
                assert(false);
                Ok(None)
            },
        }
    }

    /// Takes an option of the open choice; `None` where an integer of its
    /// condition overflows.
    pub fn try_choose_option(&mut self, index: usize) -> (r: Option<
        Result<Option<FloatRequest>, VmError>,
    >)
        ensures
            match chosen(old(self)@, index as int) {
                Chosen::Done(m) => r matches Some(Ok(o)) && o is None && final(self)@ == m,
                Chosen::Fault(message, m) => r matches Some(Err(e)) && e.message@ == message
                    && final(self)@ == m,
                Chosen::Need(request) => r matches Some(Ok(o)) && o is Some && (o->0)@ == request
                    && final(self)@ == old(self)@,
                Chosen::Overflow => r is None && final(self)@ == old(self)@,
            },
    {
        let target: usize = match &self.pending_choice {
            None => {
                return Some(Err(VmError { message: "no pending choice".to_owned() }));
            },
            Some(options) => {
                if index >= options.len() {
                    let number: String = format_usize(index);
                    self.pending_choice = None;
                    return Some(
                        Err(
                            VmError { message: concat2("invalid choice index: ", number.as_str()) },
                        ),
                    );
                }
                if let Some(cond) = &options[index].condition {
                    match eval::eval(cond, &self.variables, &self.answers) {
                        Found::Value(v) => {
                            if !v.is_truthy() {
                                let number: String = format_usize(index);
                                self.pending_choice = None;
                                return Some(
                                    Err(
                                        VmError {
                                            message: concat3(
                                                "choice ",
                                                number.as_str(),
                                                " not available",
                                            ),
                                        },
                                    ),
                                );
                            }
                        },
                        Found::Fault(message) => {
                            self.pending_choice = None;
                            return Some(Err(VmError { message }));
                        },
                        Found::Overflow => {
                            return None;
                        },
                        Found::Need(request) => {
                            return Some(Ok(Some(request)));
                        },
                    }
                }
                options[index].target
            },
        };
        self.pending_choice = None;
        self.go(target);
        Some(Ok(None))
    }

    /// What a game save keeps.
    pub fn save_state(&self) -> (s: VmState)
        ensures
            s.keeps(self@),
    {
        VmState {
            ip: self.ip,
            section: self.current_section,
            variables: self.variables.copied(),
            call_stack: clone_stack(&self.call_stack),
            answers: self.answers.copied(),
        }
    }

    /// Puts the machine back to what was saved.
    pub fn load_state(&mut self, state: VmState)
        ensures
            forall|m: Machine| state.keeps(m) ==> final(self)@ == #[trigger] restored(
                old(self)@,
                m,
            ),
    {
        self.ip = state.ip;
        self.current_section = state.section;
        self.variables = state.variables;
        self.call_stack = state.call_stack;
        self.pending_choice = None;
        self.answers = state.answers;
    }

    /// The value of a variable.
    pub fn get_variable(&self, name: &str) -> (r: Option<&Value>)
        ensures
            match r {
                Some(v) => self@.vars.contains_key(name@) && self@.vars[name@] == v@,
                None => !self@.vars.contains_key(name@),
            },
    {
        self.variables.get(name)
    }
}

// ---------------------------------------------------------------------------
// Laws
// ---------------------------------------------------------------------------

/// A run that came to an event stays there, however long it may run.
pub proof fn law_event_is_final(m: Machine, fuel: nat, more: nat)
    requires
        run(m, fuel) is Event,
        more >= fuel,
    ensures
        run(m, more) == run(m, fuel),
    decreases fuel,
{
    if fuel > 0 {
        if let Tick::Go(next) = tick(m) {
            law_event_is_final(next, (fuel - 1) as nat, (more - 1) as nat);
        }
    }
}

/// A machine comes to at most one event.
pub proof fn law_one_next_event(
    m: Machine,
    r1: Result<VmEventView, Seq<char>>,
    m1: Machine,
    r2: Result<VmEventView, Seq<char>>,
    m2: Machine,
)
    requires
        comes_to(m, r1, m1),
        comes_to(m, r2, m2),
    ensures
        r1 == r2,
        m1 == m2,
{
    let f1 = choose|fuel: nat| run(m, fuel) == Stop::Event(r1, m1);
    let f2 = choose|fuel: nat| run(m, fuel) == Stop::Event(r2, m2);
    if f1 <= f2 {
        law_event_is_final(m, f1, f2);
    } else {
        law_event_is_final(m, f2, f1);
    }
}

/// Loading a save undoes whatever the machine did since: it does not depend on
/// the state that is left behind.
pub proof fn law_load_forgets(m: Machine, later: Machine)
    requires
        later.code == m.code,
    ensures
        restored(later, m) == restored(m, m),
{
}

/// The next event does not depend on whether a choice is open.
pub proof fn law_open_choice_is_inert(m: Machine, fuel: nat)
    ensures
        match (run(m, fuel), run(Machine { pending: None, ..m }, fuel)) {
            (Stop::Event(r1, m1), Stop::Event(r2, m2)) => r1 == r2 && (Machine {
                pending: None,
                ..m1
            }) == (Machine { pending: None, ..m2 }),
            (Stop::Overflow(m1), Stop::Overflow(m2)) => (Machine { pending: None, ..m1 })
                == (Machine { pending: None, ..m2 }),
            (Stop::Running(m1), Stop::Running(m2)) => (Machine { pending: None, ..m1 })
                == (Machine { pending: None, ..m2 }),
            _ => false,
        },
    decreases fuel,
{
    if fuel > 0 {
        let n = Machine { pending: None, ..m };
        match (tick(m), tick(n)) {
            (Tick::Go(a), Tick::Go(b)) => {
                assert(b == Machine { pending: None, ..a });
                law_open_choice_is_inert(a, (fuel - 1) as nat);
            },
            _ => {},
        }
    }
}

/// A loaded machine holds what was saved, and nothing else: no choice is open
/// in it.
pub proof fn law_load_holds_save(m: Machine, later: Machine, index: int)
    ensures
        ({
            let loaded = restored(later, m);
            &&& loaded.ip == m.ip
            &&& loaded.section == m.section
            &&& loaded.vars == m.vars
            &&& loaded.stack == m.stack
            &&& loaded.answers == m.answers
            &&& chosen(loaded, index) == Chosen::Fault("no pending choice"@, loaded)
        }),
{
}

/// Loading a save, whatever the machine did since, gives the event that would
/// have come right after the save.
pub proof fn law_load_steps_alike(
    m: Machine,
    later: Machine,
    r: Result<VmEventView, Seq<char>>,
    next: Machine,
)
    requires
        later.code == m.code,
        comes_to(m, r, next),
    ensures
        exists|after: Machine| #[trigger]
            comes_to(restored(later, m), r, after) && (Machine { pending: None, ..after }) == (
            Machine { pending: None, ..next }),
{
    let fuel = choose|fuel: nat| run(m, fuel) == Stop::Event(r, next);
    law_load_forgets(m, later);
    assert(restored(later, m) == Machine { pending: None, ..m });
    law_open_choice_is_inert(m, fuel);
    let after = run(restored(later, m), fuel)->Event_1;
    assert(comes_to(restored(later, m), r, after));
}

/// What was shown is shown again, and so is a choice that was offered and the
/// end of the story, for as long as the machine is not moved on; its state stays
/// as it is.
pub proof fn law_event_repeats(m: Machine, e: VmEventView, next: Machine)
    requires
        comes_to(m, Ok(e), next),
        e is Dialogue || e is Narration || e is Choice || e is StoryEnd,
    ensures
        comes_to(next, Ok(e), next),
{
    let fuel = choose|fuel: nat| run(m, fuel) == Stop::Event(Ok(e), next);
    lemma_stop_repeats(m, fuel);
    assert(run(next, 1) == Stop::Event(Ok(e), next));
}

proof fn lemma_stop_repeats(m: Machine, fuel: nat)
    requires
        run(m, fuel) matches Stop::Event(Ok(e), _) && (e is Dialogue || e is Narration
            || e is Choice || e is StoryEnd),
    ensures
        tick(run(m, fuel)->Event_1) == Tick::Event(run(m, fuel)->Event_0, run(m, fuel)->Event_1),
    decreases fuel,
{
    if fuel > 0 {
        if let Tick::Go(next) = tick(m) {
            lemma_stop_repeats(next, (fuel - 1) as nat);
        }
    }
}

/// A choice that a run comes to is offered by the machine that it leaves.
proof fn lemma_offered(m: Machine, fuel: nat)
    requires
        run(m, fuel) matches Stop::Event(Ok(VmEventView::Choice { .. }), _),
    ensures
        ({
            let next = run(m, fuel)->Event_1;
            let infos = run(m, fuel)->Event_0->Ok_0->Choice_options;
            next.pending is Some && offers(next.pending->0, next.vars, next.answers)
                == Offers::Ready(infos)
        }),
    decreases fuel,
{
    if fuel > 0 {
        if let Tick::Go(next) = tick(m) {
            lemma_offered(next, (fuel - 1) as nat);
        }
    }
}

/// Offers that are ready say of every option whether its condition holds.
proof fn lemma_offers_say(
    options: Seq<CompiledOptionView>,
    vars: Map<Seq<char>, Value<Seq<char>>>,
    answers: AnswerMap,
)
    requires
        offers(options, vars, answers) is Ready,
    ensures
        offers(options, vars, answers)->Ready_0.len() == options.len(),
        forall|i: int|
            0 <= i < options.len() ==> (#[trigger] options[i].condition matches Some(c) ==> {
                let v = eval::evaluated(c, vars, answers);
                !(v is Need) && !(v is Overflow)
            }),
        forall|i: int|
            0 <= i < options.len() ==> (#[trigger] offers(
                options,
                vars,
                answers,
            )->Ready_0[i]).available == match options[i].condition {
                None => true,
                Some(c) => eval::evaluated(c, vars, answers) matches Outcome::Value(x)
                    && x.truthy(),
            },
    decreases options.len(),
{
    if options.len() > 0 {
        let front = options.drop_last();
        lemma_offers_say(front, vars, answers);
        assert forall|i: int| 0 <= i < options.len() implies (
        #[trigger] options[i].condition matches Some(c) ==> {
            let v = eval::evaluated(c, vars, answers);
            !(v is Need) && !(v is Overflow)
        }) by {
            if i < front.len() {
                assert(front[i].condition == options[i].condition);
            }
        }
    }
}

/// Of the options that were offered exactly the available ones can be taken. A
/// refusal changes nothing of what a save keeps, and the choice is closed either
/// way.
pub proof fn law_available_is_taken(
    m: Machine,
    prompt: Option<Seq<char>>,
    infos: Seq<ChoiceInfo<Seq<char>>>,
    next: Machine,
    index: nat,
)
    requires
        comes_to(m, Ok(VmEventView::Choice { prompt, options: infos }), next),
    ensures
        match chosen(next, index as int) {
            Chosen::Done(after) => index < infos.len() && infos[index as int].available
                && after.pending is None && forall|again: int|
                chosen(after, again) == Chosen::Fault("no pending choice"@, after),
            Chosen::Fault(_, after) => !(index < infos.len() && infos[index as int].available)
                && restored(after, after) == restored(next, next) && after.pending is None
                && forall|again: int|
                chosen(after, again) == Chosen::Fault("no pending choice"@, after),
            _ => false,
        },
{
    let fuel = choose|fuel: nat|
        run(m, fuel) == Stop::Event(Ok(VmEventView::Choice { prompt, options: infos }), next);
    lemma_offered(m, fuel);
    let options = next.pending->0;
    lemma_offers_say(options, next.vars, next.answers);
    if index < options.len() {
        assert(offers(options, next.vars, next.answers)->Ready_0[index as int] == infos[
            index as int
        ]);
        assert(options[index as int].condition is Some || options[index as int].condition is None);
    }
}

/// A visit that returns at once comes back behind itself, with the visits that
/// were under way before it.
pub proof fn law_visit_returns(m: Machine, target: int)
    requires
        0 <= m.section < m.code.len(),
        0 <= m.ip < m.code[m.section].len(),
        m.code[m.section][m.ip] == (InstrView::VisitCall { target }),
        0 <= target < m.code.len(),
        m.code[target].len() > 0,
        m.code[target][0] is Return,
    ensures
        tick(m) matches Tick::Go(inside) && inside.section == target && inside.ip == 0 && tick(inside)
            == Tick::Go(at_ip(m, m.ip + 1)),
{
    let inside = tick(m)->Go_0;
    assert(inside.stack.drop_last() =~= m.stack);
}

/// A one-way jump drops every visit: a return behind it is an error.
pub proof fn law_flow_is_one_way(m: Machine, target: int)
    requires
        0 <= m.section < m.code.len(),
        0 <= m.ip < m.code[m.section].len(),
        m.code[m.section][m.ip] == (InstrView::SectionJump { target }),
    ensures
        tick(m) matches Tick::Go(next) && next.section == target && next.ip == 0
            && next.stack.len() == 0 && next.vars == m.vars,
{
}

} // verus!
