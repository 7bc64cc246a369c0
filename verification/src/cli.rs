//! The command line: what its arguments ask for, and what it prints. The host
//! reads the files and writes the texts out.

use crate::ast;
use crate::ast::{Program, Section};
use crate::compile;
use crate::compile::{CompileError, ErrSeverity};
use crate::diagnostic;
use crate::diagnostic::format_location;
use crate::migrate;
use crate::migrate::MigrationResult;
use crate::parse::EnginePhase;
use crate::slices;
use crate::slices::{lines_of, read_number, trim_of};
use crate::text;
use crate::text::{
    concat2, concat3, concat4, concat5, format_usize, push_string, str_eq, to_chars,
};
use crate::translation;
use crate::translation::{count_kind, TranslatableKind, TranslatableLine};
use crate::vm;
use crate::vm::ChoiceInfo;
use vstd::prelude::*;

verus! {

// ---------------------------------------------------------------------------
// Arguments
// ---------------------------------------------------------------------------

/// What the arguments ask for.
#[derive(Debug, PartialEq, Eq)]
pub enum Invocation<S = String> {
    /// Show the help; `wanted` tells whether it was asked for.
    Help { wanted: bool },
    Check { file: S, assets: Option<S> },
    Run { file: S },
    /// Pack a game. What is packed the host reads from the arguments behind the
    /// first two.
    Pack,
    Migrate { input: S, output: Option<S> },
    TranslateInit { file: S, lang: S },
    /// Too few arguments: show how the command is used.
    Misused { usage: S },
    UnknownTranslate { name: S },
    UnknownCommand { name: S },
}

impl View for Invocation<String> {
    type V = Invocation<Seq<char>>;

    open spec fn view(&self) -> Invocation<Seq<char>> {
        match *self {
            Invocation::Help { wanted } => Invocation::Help { wanted },
            Invocation::Check { file, assets } => Invocation::Check {
                file: file@,
                assets: text::opt_view(assets),
            },
            Invocation::Run { file } => Invocation::Run { file: file@ },
            Invocation::Pack => Invocation::Pack,
            Invocation::Migrate { input, output } => Invocation::Migrate {
                input: input@,
                output: text::opt_view(output),
            },
            Invocation::TranslateInit { file, lang } => Invocation::TranslateInit {
                file: file@,
                lang: lang@,
            },
            Invocation::Misused { usage } => Invocation::Misused { usage: usage@ },
            Invocation::UnknownTranslate { name } => Invocation::UnknownTranslate { name: name@ },
            Invocation::UnknownCommand { name } => Invocation::UnknownCommand { name: name@ },
        }
    }
}

pub const CHECK_USAGE: &'static str = "Usage: akrs check <file.akrs> [assets_dir]";

pub const RUN_USAGE: &'static str = "Usage: akrs run <file.akrs>";

pub const MIGRATE_USAGE: &'static str = "Usage: akrs migrate <input.rpy> [output.akrs]";

pub const TRANSLATE_USAGE: &'static str =
    "Usage: akrs translate <subcommand> [args]\nSubcommands:\n  init <file.akrs> <lang>  Generate translation skeleton JSON";

pub const INIT_USAGE: &'static str =
    "Usage: akrs translate init <file.akrs> <lang_code>\n  Generate a translation skeleton JSON file.\n  Example: akrs translate init demo.akrs en-US";

pub const HELP: &'static str =
    "Akizuki*Rustgal CLI v1.0\n\nUsage: akrs <command> [args]\n\nCommands:\n  check <file.akrs> [assets_dir]  Validate a script file\n  run <file.akrs>                 Run a script in text mode\n  pack [options]                  Pack a game for distribution\n                                  (use 'akrs pack --help' for details)\n  migrate <input.rpy> [output.akrs]\n                                   Convert Ren'Py script to .akrs\n  translate init <file.akrs> <lang>\n                                   Generate translation skeleton JSON\n  help                            Show this help\n\nExamples:\n  akrs check scripts/demo.akrs\n  akrs check scripts/demo.akrs assets/\n  akrs run scripts/demo.akrs";

/// The argument at a place, if there is one.
pub open spec fn argument(args: Seq<Seq<char>>, i: int) -> Option<Seq<char>> {
    if 0 <= i < args.len() {
        Some(args[i])
    } else {
        None
    }
}

/// What the arguments ask for; the first is the name of the program.
pub open spec fn invocation(args: Seq<Seq<char>>) -> Invocation<Seq<char>> {
    if args.len() < 2 {
        Invocation::Help { wanted: false }
    } else if args[1] == "check"@ {
        if args.len() < 3 {
            Invocation::Misused { usage: CHECK_USAGE@ }
        } else {
            Invocation::Check { file: args[2], assets: argument(args, 3) }
        }
    } else if args[1] == "run"@ {
        if args.len() < 3 {
            Invocation::Misused { usage: RUN_USAGE@ }
        } else {
            Invocation::Run { file: args[2] }
        }
    } else if args[1] == "pack"@ {
        Invocation::Pack
    } else if args[1] == "migrate"@ {
        if args.len() < 3 {
            Invocation::Misused { usage: MIGRATE_USAGE@ }
        } else {
            Invocation::Migrate { input: args[2], output: argument(args, 3) }
        }
    } else if args[1] == "translate"@ {
        if args.len() < 3 {
            Invocation::Misused { usage: TRANSLATE_USAGE@ }
        } else if args[2] != "init"@ {
            Invocation::UnknownTranslate { name: args[2] }
        } else if args.len() < 5 {
            Invocation::Misused { usage: INIT_USAGE@ }
        } else {
            Invocation::TranslateInit { file: args[3], lang: args[4] }
        }
    } else if args[1] == "help"@ || args[1] == "--help"@ || args[1] == "-h"@ {
        Invocation::Help { wanted: true }
    } else {
        Invocation::UnknownCommand { name: args[1] }
    }
}

fn argument_at(args: &Vec<String>, i: usize) -> (r: Option<String>)
    ensures
        text::opt_view(r) == argument(text::views(args@), i as int),
{
    if i < args.len() {
        Some(args[i].clone())
    } else {
        None
    }
}

fn misused(usage: &str) -> (r: Invocation)
    ensures
        r@ == (Invocation::<Seq<char>>::Misused { usage: usage@ }),
{
    Invocation::Misused { usage: usage.to_owned() }
}

fn translate_arguments(args: &Vec<String>) -> (r: Invocation)
    requires
        args@.len() >= 2,
        args@[1]@ == "translate"@,
    ensures
        r@ == invocation(text::views(args@)),
{
    proof {
        reveal_strlit("translate");
        reveal_strlit("check");
        reveal_strlit("run");
        reveal_strlit("pack");
        reveal_strlit("migrate");
        assert("translate"@.len() == 9);
    }
    let n: usize = args.len();
    if n < 3 {
        misused(TRANSLATE_USAGE)
    } else if !str_eq(args[2].as_str(), "init") {
        Invocation::UnknownTranslate { name: args[2].clone() }
    } else if n < 5 {
        misused(INIT_USAGE)
    } else {
        Invocation::TranslateInit { file: args[3].clone(), lang: args[4].clone() }
    }
}

/// What the arguments ask for; the first is the name of the program.
pub fn parse_arguments(args: &Vec<String>) -> (r: Invocation)
    ensures
        r@ == invocation(text::views(args@)),
{
    let n: usize = args.len();
    if n < 2 {
        return Invocation::Help { wanted: false };
    }
    let command: &str = args[1].as_str();
    if str_eq(command, "check") {
        if n < 3 {
            misused(CHECK_USAGE)
        } else {
            Invocation::Check { file: args[2].clone(), assets: argument_at(args, 3) }
        }
    } else if str_eq(command, "run") {
        if n < 3 {
            misused(RUN_USAGE)
        } else {
            Invocation::Run { file: args[2].clone() }
        }
    } else if str_eq(command, "pack") {
        Invocation::Pack
    } else if str_eq(command, "migrate") {
        if n < 3 {
            misused(MIGRATE_USAGE)
        } else {
            Invocation::Migrate { input: args[2].clone(), output: argument_at(args, 3) }
        }
    } else if str_eq(command, "translate") {
        translate_arguments(args)
    } else if str_eq(command, "help") || str_eq(command, "--help") || str_eq(command, "-h") {
        Invocation::Help { wanted: true }
    } else {
        Invocation::UnknownCommand { name: args[1].clone() }
    }
}

// ---------------------------------------------------------------------------
// What is printed
// ---------------------------------------------------------------------------

/// Lines for the standard output, lines for the error output behind them, and
/// whether all is well.
#[derive(Debug, PartialEq, Eq)]
pub struct Report {
    pub out: Vec<String>,
    pub err: Vec<String>,
    pub ok: bool,
}

/// What a report holds.
pub struct Printed {
    pub out: Seq<Seq<char>>,
    pub err: Seq<Seq<char>>,
    pub ok: bool,
}

impl View for Report {
    type V = Printed;

    open spec fn view(&self) -> Printed {
        Printed { out: text::views(self.out@), err: text::views(self.err@), ok: self.ok }
    }
}

/// A report of one line.
pub open spec fn one_line(line: Seq<char>) -> Printed {
    Printed { out: seq![line], err: Seq::empty(), ok: true }
}

/// A report of one line for the error output.
pub open spec fn one_note(line: Seq<char>) -> Printed {
    Printed { out: Seq::empty(), err: seq![line], ok: true }
}

fn say(line: String) -> (r: Report)
    ensures
        r@ == one_line(line@),
{
    let mut out: Vec<String> = Vec::new();
    let err: Vec<String> = Vec::new();
    assert(text::views(err@) =~= Seq::empty());
    assert(text::views(out@) =~= Seq::empty());
    push_string(&mut out, line);
    assert(text::views(out@) =~= one_line(text::views(out@)[0]).out);
    Report { out, err, ok: true }
}

fn note(line: String) -> (r: Report)
    ensures
        r@ == one_note(line@),
{
    let out: Vec<String> = Vec::new();
    let mut err: Vec<String> = Vec::new();
    assert(text::views(err@) =~= Seq::empty());
    assert(text::views(out@) =~= Seq::empty());
    push_string(&mut err, line);
    assert(text::views(err@) =~= one_note(text::views(err@)[0]).err);
    Report { out, err, ok: true }
}

/// The English word for a severity.
pub open spec fn severity_word(s: ErrSeverity) -> Seq<char> {
    match s {
        ErrSeverity::Error => "error"@,
        ErrSeverity::Warning => "warning"@,
        ErrSeverity::Note => "note"@,
    }
}

/// A finding as it is printed, under a heading.
pub open spec fn finding_line(
    heading: Seq<char>,
    file: Seq<char>,
    e: CompileError<Seq<char>>,
) -> Seq<char> {
    let line = heading + ": "@ + file + ":"@ + diagnostic::location_text(e.span) + ": "@
        + e.message;
    match e.hint {
        Some(hint) => line + " (hint: "@ + hint + ")"@,
        None => line,
    }
}

/// How many findings have a severity.
pub open spec fn count_severity(errors: Seq<CompileError<Seq<char>>>, s: ErrSeverity) -> nat
    decreases errors.len(),
{
    if errors.len() == 0 {
        0
    } else {
        count_severity(errors.drop_last(), s) + if errors.last().severity == s {
            1nat
        } else {
            0nat
        }
    }
}

/// The lines for the sections of a script.
pub open spec fn section_lines(sections: Seq<ast::SectionView>) -> Seq<Seq<char>> {
    seq!["  Sections: "@ + text::nat_text(sections.len())] + Seq::new(
        sections.len(),
        |i: int|
            "    - "@ + sections[i].name + " ("@ + text::nat_text(sections[i].nodes.len())
                + " nodes)"@,
    )
}

/// The report on a script that was checked.
pub open spec fn checked(
    file: Seq<char>,
    program: Option<ast::ProgramView>,
    errors: Seq<CompileError<Seq<char>>>,
) -> Printed {
    let findings = Seq::new(
        errors.len(),
        |i: int| finding_line(severity_word(errors[i].severity), file, errors[i]),
    );
    let wrong = count_severity(errors, ErrSeverity::Error);
    let warned = text::nat_text(count_severity(errors, ErrSeverity::Warning));
    if wrong > 0 {
        Printed {
            out: findings,
            err: seq!["\n"@ + text::nat_text(wrong) + " error(s), "@ + warned + " warning(s)"@],
            ok: false,
        }
    } else {
        Printed {
            out: findings.push("\n✓ Script is valid ("@ + warned + " warning(s))"@) + match program {
                Some(p) => section_lines(p.sections),
                None => Seq::empty(),
            },
            err: Seq::empty(),
            ok: true,
        }
    }
}

/// The report on a script that could not be started.
pub open spec fn start_failures(
    file: Seq<char>,
    errors: Seq<CompileError<Seq<char>>>,
) -> Seq<Seq<char>> {
    Seq::new(errors.len(), |i: int| finding_line("error"@, file, errors[i]))
}

fn format_finding(heading: &str, file: &str, e: &CompileError) -> (r: String)
    ensures
        r@ == finding_line(heading@, file@, e@),
{
    let place: String = format_location(&e.span);
    let mut r: String = concat5(heading, ": ", file, ":", place.as_str());
    r.append(": ");
    r.append(e.message.as_str());
    match &e.hint {
        Some(hint) => {
            r.append(" (hint: ");
            r.append(hint.as_str());
            r.append(")");
        },
        None => {},
    }
    r
}

fn count_findings(errors: &Vec<CompileError>, s: ErrSeverity) -> (r: usize)
    ensures
        r == count_severity(compile::compile_error_views(errors@), s),
{
    let ghost all = compile::compile_error_views(errors@);
    let n: usize = errors.len();
    let mut r: usize = 0;
    let mut i: usize = 0;
    assert(all.take(0) =~= Seq::empty());
    while i < n
        invariant
            i <= n,
            n == errors@.len(),
            r <= i,
            all == compile::compile_error_views(errors@),
            r == count_severity(all.take(i as int), s),
        decreases n - i,
    {
        proof {
            assert(all.take(i + 1).drop_last() =~= all.take(i as int));
            assert(all.take(i + 1).last() == errors@[i as int]@);
        }
        if errors[i].severity == s {
            r = r + 1;
        }
        i = i + 1;
    }
    assert(all.take(n as int) =~= all);
    r
}

fn severity_name(s: ErrSeverity) -> (r: &'static str)
    ensures
        r@ == severity_word(s),
{
    match s {
        ErrSeverity::Error => "error",
        ErrSeverity::Warning => "warning",
        ErrSeverity::Note => "note",
    }
}

fn push_sections(out: &mut Vec<String>, program: &Program)
    ensures
        text::views(final(out)@) == text::views(old(out)@) + section_lines(program@.sections),
{
    let ghost before = text::views(out@);
    let ghost lines = section_lines(program@.sections);
    let n: usize = program.sections.len();
    let count: String = format_usize(n);
    push_string(out, concat2("  Sections: ", count.as_str()));
    assert(program@.sections.len() == n);
    assert(text::views(out@) =~= before + lines.take(1));
    let mut i: usize = 0;
    while i < n
        invariant
            i <= n,
            n == program.sections@.len(),
            n == program@.sections.len(),
            lines == section_lines(program@.sections),
            text::views(out@) == before + lines.take(i + 1),
        decreases n - i,
    {
        let section: &Section = &program.sections[i];
        let nodes: String = format_usize(section.nodes.len());
        let line: String = concat5(
            "    - ",
            section.name.as_str(),
            " (",
            nodes.as_str(),
            " nodes)",
        );
        proof {
            ast::lemma_node_views(section.nodes@);
        }
        assert(program@.sections[i as int].name == section.name@);
        assert(program@.sections[i as int].nodes.len() == section.nodes@.len());
        assert(line@ == lines[i + 1]);
        push_string(out, line);
        assert(text::views(out@) =~= before + lines.take(i + 2));
        i = i + 1;
    }
    assert(lines.take(n + 1) =~= lines);
}

/// The report on a script that was checked: its findings, and whether it is
/// valid.
pub fn check_report(
    file: &str,
    program: &Option<Program>,
    errors: &Vec<CompileError>,
) -> (r: Report)
    ensures
        r@ == checked(
            file@,
            match *program {
                Some(p) => Some(p@),
                None => None,
            },
            compile::compile_error_views(errors@),
        ),
{
    let ghost all = compile::compile_error_views(errors@);
    let mut out: Vec<String> = Vec::new();
    let mut err: Vec<String> = Vec::new();
    let ghost findings = Seq::new(
        all.len(),
        |i: int| finding_line(severity_word(all[i].severity), file@, all[i]),
    );
    let n: usize = errors.len();
    let mut i: usize = 0;
    assert(text::views(out@) =~= findings.take(0));
    while i < n
        invariant
            i <= n,
            n == errors@.len(),
            all == compile::compile_error_views(errors@),
            findings == Seq::new(
                all.len(),
                |i: int| finding_line(severity_word(all[i].severity), file@, all[i]),
            ),
            text::views(out@) == findings.take(i as int),
        decreases n - i,
    {
        let line: String = format_finding(severity_name(errors[i].severity), file, &errors[i]);
        push_string(&mut out, line);
        assert(text::views(out@) =~= findings.take(i + 1));
        i = i + 1;
    }
    assert(findings.take(n as int) =~= findings);
    assert(text::views(err@) =~= Seq::empty());
    let wrong: usize = count_findings(errors, ErrSeverity::Error);
    let warned: String = format_usize(count_findings(errors, ErrSeverity::Warning));
    if wrong > 0 {
        let count: String = format_usize(wrong);
        push_string(
            &mut err,
            concat5("\n", count.as_str(), " error(s), ", warned.as_str(), " warning(s)"),
        );
        assert(text::views(err@) =~= seq![text::views(err@)[0]]);
        return Report { out, err, ok: false };
    }
    push_string(&mut out, concat3("\n✓ Script is valid (", warned.as_str(), " warning(s))"));
    match program {
        Some(p) => push_sections(&mut out, p),
        None => {
            assert(text::views(out@) =~= text::views(out@) + Seq::<Seq<char>>::empty());
        },
    }
    Report { out, err, ok: true }
}

/// The report on a script that could not be started.
pub fn start_report(file: &str, errors: &Vec<CompileError>) -> (r: Vec<String>)
    ensures
        text::views(r@) == start_failures(file@, compile::compile_error_views(errors@)),
{
    let mut r: Vec<String> = Vec::new();
    let n: usize = errors.len();
    let mut i: usize = 0;
    while i < n
        invariant
            i <= n,
            n == errors@.len(),
            r@.len() == i,
            forall|k: int|
                0 <= k < i ==> (#[trigger] r@[k])@ == finding_line("error"@, file@, errors@[k]@),
        decreases n - i,
    {
        r.push(format_finding("error", file, &errors[i]));
        i = i + 1;
    }
    assert(text::views(r@) =~= start_failures(file@, compile::compile_error_views(errors@)));
    r
}

/// A script passes the check exactly when none of its findings is an error.
pub proof fn law_valid_iff_no_error(
    file: Seq<char>,
    program: Option<ast::ProgramView>,
    errors: Seq<CompileError<Seq<char>>>,
)
    ensures
        checked(file, program, errors).ok <==> (forall|i: int|
            0 <= i < errors.len() ==> (#[trigger] errors[i]).severity != ErrSeverity::Error),
    decreases errors.len(),
{
    if errors.len() > 0 {
        let front = errors.drop_last();
        law_valid_iff_no_error(file, program, front);
        assert(errors[errors.len() - 1] == errors.last());
        if checked(file, program, errors).ok {
            assert forall|i: int| 0 <= i < errors.len() implies (#[trigger] errors[i]).severity
                != ErrSeverity::Error by {
                if i < front.len() {
                    assert(front[i].severity != ErrSeverity::Error);
                }
            }
        } else if forall|i: int|
            0 <= i < errors.len() ==> (#[trigger] errors[i]).severity != ErrSeverity::Error {
            assert forall|i: int| 0 <= i < front.len() implies (#[trigger] front[i]).severity
                != ErrSeverity::Error by {
                assert(errors[i].severity != ErrSeverity::Error);
            }
        }
    }
}

// ---------------------------------------------------------------------------
// Text mode
// ---------------------------------------------------------------------------

/// What the engine reports of a running story.
#[derive(Debug)]
pub enum EngineEvent<S = String> {
    DialogueShown { speaker: S, text: S },
    NarrationShown { text: S },
    BackgroundChanged { name: S },
    CharacterEntered { name: S },
    CharacterExited { name: S },
    /// Music, or silence where the name is empty.
    MusicChanged { name: S },
    SoundPlayed { name: S },
    /// A voice, or silence where the name is empty.
    VoicePlayed { name: S },
    TransitionStarted { kind: S },
    StoryEnded,
    Warning { message: S },
    Error { message: S },
    ChoicesShown { prompt: Option<S>, options: Vec<ChoiceInfo> },
    /// What is not printed.
    Other,
}

/// The lines that a story prints for an event.
pub open spec fn event_lines(event: EngineEvent) -> Printed {
    match event {
        EngineEvent::DialogueShown { speaker, text } => one_line(
            if speaker@.len() == 0 {
                text@
            } else {
                speaker@ + ": "@ + text@
            },
        ),
        EngineEvent::NarrationShown { text } => one_line(text@),
        EngineEvent::BackgroundChanged { name } => one_line("[Background: "@ + name@ + "]"@),
        EngineEvent::CharacterEntered { name } => one_line("["@ + name@ + " entered]"@),
        EngineEvent::CharacterExited { name } => one_line("["@ + name@ + " exited]"@),
        EngineEvent::MusicChanged { name } => one_line(
            if name@.len() == 0 {
                "[Music stopped]"@
            } else {
                "[Music: "@ + name@ + "]"@
            },
        ),
        EngineEvent::SoundPlayed { name } => one_line("[Sound: "@ + name@ + "]"@),
        EngineEvent::VoicePlayed { name } => one_line(
            if name@.len() == 0 {
                "[Voice stopped]"@
            } else {
                "[Voice: "@ + name@ + "]"@
            },
        ),
        EngineEvent::TransitionStarted { kind } => one_line("[Transition: "@ + kind@ + "]"@),
        EngineEvent::StoryEnded => one_line("\n=== Story End ==="@),
        EngineEvent::Warning { message } => one_note("[Warning: "@ + message@ + "]"@),
        EngineEvent::Error { message } => one_note("[Error: "@ + message@ + "]"@),
        EngineEvent::ChoicesShown { prompt, options } => Printed {
            out: choice_lines(text::opt_view(prompt), vm::info_views(options@)),
            err: Seq::empty(),
            ok: true,
        },
        EngineEvent::Other => Printed { out: Seq::empty(), err: Seq::empty(), ok: true },
    }
}

/// The line of an option.
pub open spec fn option_line(i: int, option: ChoiceInfo<Seq<char>>) -> Seq<char> {
    "  ["@ + text::nat_text(i as nat) + "] "@ + option.text + if option.available {
        ""@
    } else {
        " (locked)"@
    }
}

/// The lines of a choice.
pub open spec fn choice_lines(
    prompt: Option<Seq<char>>,
    options: Seq<ChoiceInfo<Seq<char>>>,
) -> Seq<Seq<char>> {
    (match prompt {
        Some(p) => seq![p],
        None => Seq::empty(),
    }) + Seq::new(options.len(), |i: int| option_line(i, options[i]))
}

fn choice_texts(prompt: &Option<String>, options: &Vec<ChoiceInfo>) -> (r: Vec<String>)
    ensures
        text::views(r@) == choice_lines(text::opt_view(*prompt), vm::info_views(options@)),
{
    let ghost infos = vm::info_views(options@);
    let ghost lines = Seq::new(infos.len(), |i: int| option_line(i, infos[i]));
    let mut r: Vec<String> = Vec::new();
    assert(text::views(r@) =~= Seq::empty());
    match prompt {
        Some(p) => push_string(&mut r, p.clone()),
        None => {},
    }
    let ghost head = text::views(r@);
    assert(head =~= match text::opt_view(*prompt) {
        Some(p) => seq![p],
        None => Seq::empty(),
    });
    let n: usize = options.len();
    let mut i: usize = 0;
    assert(text::views(r@) =~= head + lines.take(0));
    while i < n
        invariant
            i <= n,
            n == options@.len(),
            infos == vm::info_views(options@),
            lines == Seq::new(infos.len(), |i: int| option_line(i, infos[i])),
            text::views(r@) == head + lines.take(i as int),
        decreases n - i,
    {
        let number: String = format_usize(i);
        let tail: &str = if options[i].available {
            ""
        } else {
            " (locked)"
        };
        let line: String = concat5(
            "  [",
            number.as_str(),
            "] ",
            options[i].text.as_str(),
            tail,
        );
        assert(line@ == lines[i as int]);
        push_string(&mut r, line);
        assert(text::views(r@) =~= head + lines.take(i + 1));
        i = i + 1;
    }
    assert(lines.take(n as int) =~= lines);
    r
}

fn is_empty(s: &str) -> (r: bool)
    ensures
        r == (s@.len() == 0),
{
    let cs: Vec<char> = to_chars(s);
    cs.len() == 0
}

/// The lines that a story prints for an event.
pub fn print_event(event: &EngineEvent) -> (r: Report)
    ensures
        r@ == event_lines(*event),
{
    match event {
        EngineEvent::DialogueShown { speaker, text } => if is_empty(speaker.as_str()) {
            say(text.clone())
        } else {
            say(concat3(speaker.as_str(), ": ", text.as_str()))
        },
        EngineEvent::NarrationShown { text } => say(text.clone()),
        EngineEvent::BackgroundChanged { name } => say(
            concat3("[Background: ", name.as_str(), "]"),
        ),
        EngineEvent::CharacterEntered { name } => say(concat3("[", name.as_str(), " entered]")),
        EngineEvent::CharacterExited { name } => say(concat3("[", name.as_str(), " exited]")),
        EngineEvent::MusicChanged { name } => if is_empty(name.as_str()) {
            say("[Music stopped]".to_owned())
        } else {
            say(concat3("[Music: ", name.as_str(), "]"))
        },
        EngineEvent::SoundPlayed { name } => say(concat3("[Sound: ", name.as_str(), "]")),
        EngineEvent::VoicePlayed { name } => if is_empty(name.as_str()) {
            say("[Voice stopped]".to_owned())
        } else {
            say(concat3("[Voice: ", name.as_str(), "]"))
        },
        EngineEvent::TransitionStarted { kind } => say(
            concat3("[Transition: ", kind.as_str(), "]"),
        ),
        EngineEvent::StoryEnded => say("\n=== Story End ===".to_owned()),
        EngineEvent::Warning { message } => note(concat3("[Warning: ", message.as_str(), "]")),
        EngineEvent::Error { message } => note(concat3("[Error: ", message.as_str(), "]")),
        EngineEvent::ChoicesShown { prompt, options } => {
            let err: Vec<String> = Vec::new();
            assert(text::views(err@) =~= Seq::empty());
            Report { out: choice_texts(prompt, options), err, ok: true }
        },
        EngineEvent::Other => {
            let out: Vec<String> = Vec::new();
            let err: Vec<String> = Vec::new();
            assert(text::views(out@) =~= Seq::empty());
            assert(text::views(err@) =~= Seq::empty());
            Report { out, err, ok: true }
        },
    }
}

/// What happens on a line of input.
#[derive(Debug, Clone, Copy, PartialEq, Eq, Structural)]
pub enum Turn {
    Stop,
    Pick(usize),
    AskForNumber,
    Advance,
}

/// What happens on a line of input while the engine is in a phase.
pub open spec fn turn_of(phase: EnginePhase, input: Seq<char>) -> Turn {
    if phase is StoryEnded {
        Turn::Stop
    } else if phase is ChoicePending {
        match slices::number_in(slices::trim(input)) {
            Some(i) => Turn::Pick(i as usize),
            None => Turn::AskForNumber,
        }
    } else {
        Turn::Advance
    }
}

/// What happens on a line of input while the engine is in a phase.
pub fn take_turn(phase: EnginePhase, input: &str) -> (r: Turn)
    ensures
        r == turn_of(phase, input@),
{
    match phase {
        EnginePhase::StoryEnded => Turn::Stop,
        EnginePhase::ChoicePending => {
            let cs: Vec<char> = to_chars(input);
            match read_number(trim_of(cs.as_slice())) {
                Some(i) => Turn::Pick(i),
                None => Turn::AskForNumber,
            }
        },
        _ => Turn::Advance,
    }
}

// ---------------------------------------------------------------------------
// Conversion and translation
// ---------------------------------------------------------------------------

/// The lines for a map of names, under a heading; none where it is empty.
pub open spec fn map_lines(heading: Seq<char>, pairs: Seq<(Seq<char>, Seq<char>)>) -> Seq<
    Seq<char>,
> {
    if pairs.len() == 0 {
        Seq::empty()
    } else {
        seq![heading] + Seq::new(
            pairs.len(),
            |i: int| "  "@ + pairs[i].0 + " → "@ + pairs[i].1,
        )
    }
}

/// The lines for the warnings of a conversion.
pub open spec fn warning_lines(warnings: Seq<Seq<char>>) -> Seq<Seq<char>> {
    if warnings.len() == 0 {
        seq!["\nNo warnings."@]
    } else {
        seq!["\nWarnings ("@ + text::nat_text(warnings.len()) + "):"@] + Seq::new(
            warnings.len(),
            |i: int| "  ⚠ "@ + warnings[i],
        )
    }
}

/// The report on a script that was converted and written.
pub open spec fn converted(
    input: Seq<char>,
    output: Seq<char>,
    script: Seq<char>,
    chars: Seq<(Seq<char>, Seq<char>)>,
    images: Seq<(Seq<char>, Seq<char>)>,
    warnings: Seq<Seq<char>>,
) -> Printed {
    Printed {
        out: seq![
            "Migration complete: "@ + input + " → "@ + output,
            "  Output: "@ + text::nat_text(slices::lines(script).len()) + " lines"@,
        ],
        err: map_lines("\nCharacter name mappings:"@, chars) + map_lines(
            "\nImage resource mappings:"@,
            images,
        ) + warning_lines(warnings),
        ok: true,
    }
}

fn push_map(v: &mut Vec<String>, heading: &str, pairs: &Vec<(String, String)>)
    ensures
        text::views(final(v)@) == text::views(old(v)@) + map_lines(
            heading@,
            migrate::string_pairs(pairs@),
        ),
{
    let ghost before = text::views(v@);
    let ghost all = migrate::string_pairs(pairs@);
    let ghost lines = map_lines(heading@, all);
    let n: usize = pairs.len();
    if n == 0 {
        assert(text::views(v@) =~= before + lines);
        return;
    }
    push_string(v, heading.to_owned());
    assert(text::views(v@) =~= before + lines.take(1));
    let mut i: usize = 0;
    while i < n
        invariant
            i <= n,
            0 < n == pairs@.len(),
            all == migrate::string_pairs(pairs@),
            lines == map_lines(heading@, all),
            text::views(v@) == before + lines.take(i + 1),
        decreases n - i,
    {
        let line: String = concat4("  ", pairs[i].0.as_str(), " → ", pairs[i].1.as_str());
        assert(line@ == lines[i + 1]);
        push_string(v, line);
        assert(text::views(v@) =~= before + lines.take(i + 2));
        i = i + 1;
    }
    assert(lines.take(n + 1) =~= lines);
}

fn push_warnings(v: &mut Vec<String>, warnings: &Vec<String>)
    ensures
        text::views(final(v)@) == text::views(old(v)@) + warning_lines(text::views(warnings@)),
{
    let ghost before = text::views(v@);
    let ghost all = text::views(warnings@);
    let ghost lines = warning_lines(all);
    let n: usize = warnings.len();
    if n == 0 {
        push_string(v, "\nNo warnings.".to_owned());
        assert(text::views(v@) =~= before + lines);
        return;
    }
    let count: String = format_usize(n);
    push_string(v, concat3("\nWarnings (", count.as_str(), "):"));
    assert(text::views(v@) =~= before + lines.take(1));
    let mut i: usize = 0;
    while i < n
        invariant
            i <= n,
            0 < n == warnings@.len(),
            all == text::views(warnings@),
            lines == warning_lines(all),
            text::views(v@) == before + lines.take(i + 1),
        decreases n - i,
    {
        let line: String = concat2("  ⚠ ", warnings[i].as_str());
        assert(line@ == lines[i + 1]);
        push_string(v, line);
        assert(text::views(v@) =~= before + lines.take(i + 2));
        i = i + 1;
    }
    assert(lines.take(n + 1) =~= lines);
}

/// The report on a script that was converted from `input` and written to
/// `output`.
pub fn migration_report(input: &str, output: &str, result: &MigrationResult) -> (r: Report)
    ensures
        r@ == converted(
            input@,
            output@,
            result.akrs_script@,
            migrate::string_pairs(result.character_map@),
            migrate::string_pairs(result.image_map@),
            text::views(result.warnings@),
        ),
{
    let cs: Vec<char> = to_chars(result.akrs_script.as_str());
    let lines: Vec<&[char]> = lines_of(cs.as_slice());
    let count: String = format_usize(lines.len());
    assert(slices::slice_views(lines@).len() == lines@.len());
    let mut out: Vec<String> = Vec::new();
    assert(text::views(out@) =~= Seq::empty());
    let first: String = concat4("Migration complete: ", input, " → ", output);
    let second: String = concat3("  Output: ", count.as_str(), " lines");
    let ghost both = seq![first@, second@];
    push_string(&mut out, first);
    push_string(&mut out, second);
    assert(text::views(out@) =~= both);
    let mut err: Vec<String> = Vec::new();
    assert(text::views(err@) =~= Seq::empty());
    push_map(&mut err, "\nCharacter name mappings:", &result.character_map);
    push_map(&mut err, "\nImage resource mappings:", &result.image_map);
    push_warnings(&mut err, &result.warnings);
    let r: Report = Report { out, err, ok: true };
    assert(r@.err =~= converted(
        input@,
        output@,
        result.akrs_script@,
        migrate::string_pairs(result.character_map@),
        migrate::string_pairs(result.image_map@),
        text::views(result.warnings@),
    ).err);
    r
}

/// The line for the number of texts of a kind.
pub open spec fn count_line(
    label: Seq<char>,
    entries: Seq<TranslatableLine<Seq<char>>>,
    kind: TranslatableKind,
) -> Seq<char> {
    label + text::nat_text(translation::count_of(entries, kind))
}

/// The notes on a skeleton for translations.
pub open spec fn skeleton_notes(
    file: Seq<char>,
    lang: Seq<char>,
    entries: Seq<TranslatableLine<Seq<char>>>,
) -> Seq<Seq<char>> {
    seq![
        ""@,
        "✓ Generated translation skeleton for '"@ + lang + "'"@,
        count_line("  Sections: "@, entries, TranslatableKind::Section),
        count_line("  Dialogue: "@, entries, TranslatableKind::Dialogue),
        count_line("  Narration: "@, entries, TranslatableKind::Narration),
        count_line("  Choices: "@, entries, TranslatableKind::Choice),
        count_line("  Choice prompts: "@, entries, TranslatableKind::ChoicePrompt),
        count_line("  Characters: "@, entries, TranslatableKind::Character),
        ""@,
        "  Save to file: akrs translate init "@ + file + " "@ + lang + " > "@ + lang + ".json"@,
    ]
}

fn push_count(
    v: &mut Vec<String>,
    label: &str,
    entries: &Vec<TranslatableLine>,
    kind: TranslatableKind,
)
    ensures
        text::views(final(v)@) == text::views(old(v)@).push(
            count_line(label@, translation::entry_views(entries@), kind),
        ),
{
    let count: String = format_usize(count_kind(entries, kind));
    push_string(v, concat2(label, count.as_str()));
}

/// The notes on a skeleton for translations of a script into a language.
pub fn skeleton_report(file: &str, lang: &str, entries: &Vec<TranslatableLine>) -> (r: Vec<
    String,
>)
    ensures
        text::views(r@) == skeleton_notes(file@, lang@, translation::entry_views(entries@)),
{
    let mut r: Vec<String> = Vec::new();
    assert(text::views(r@) =~= Seq::empty());
    push_string(&mut r, "".to_owned());
    push_string(&mut r, concat3("✓ Generated translation skeleton for '", lang, "'"));
    push_count(&mut r, "  Sections: ", entries, TranslatableKind::Section);
    push_count(&mut r, "  Dialogue: ", entries, TranslatableKind::Dialogue);
    push_count(&mut r, "  Narration: ", entries, TranslatableKind::Narration);
    push_count(&mut r, "  Choices: ", entries, TranslatableKind::Choice);
    push_count(&mut r, "  Choice prompts: ", entries, TranslatableKind::ChoicePrompt);
    push_count(&mut r, "  Characters: ", entries, TranslatableKind::Character);
    push_string(&mut r, "".to_owned());
    let mut last: String = concat4("  Save to file: akrs translate init ", file, " ", lang);
    last.append(" > ");
    last.append(lang);
    last.append(".json");
    push_string(&mut r, last);
    assert(text::views(r@) =~= skeleton_notes(
        file@,
        lang@,
        translation::entry_views(entries@),
    ));
    r
}

} // verus!
