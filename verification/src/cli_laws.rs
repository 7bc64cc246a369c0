//! Laws of the command line.

use crate::ast;
use crate::cli;
use crate::cli::{EngineEvent, Invocation, Printed, Turn};
use crate::compile::{CompileError, ErrSeverity};
use crate::parse::EnginePhase;
use crate::slices;
use crate::spelling_laws;
use crate::text;
use crate::text_laws;
use crate::translation;
use crate::translation::{TranslatableKind, TranslatableLine};
use crate::vm::ChoiceInfo;
use vstd::prelude::*;

verus! {

// ---------------------------------------------------------------------------
// Arguments
// ---------------------------------------------------------------------------

proof fn lemma_commands()
    ensures
        "check"@.len() == 5 && "check"@[0] == 'c',
        "run"@.len() == 3 && "run"@[0] == 'r',
        "pack"@.len() == 4 && "pack"@[0] == 'p',
        "migrate"@.len() == 7 && "migrate"@[0] == 'm',
        "translate"@.len() == 9 && "translate"@[0] == 't',
        "help"@.len() == 4 && "help"@[0] == 'h',
        "--help"@.len() == 6 && "--help"@[0] == '-',
        "-h"@.len() == 2 && "-h"@[0] == '-',
{
    reveal_strlit("check");
    reveal_strlit("run");
    reveal_strlit("pack");
    reveal_strlit("migrate");
    reveal_strlit("translate");
    reveal_strlit("help");
    reveal_strlit("--help");
    reveal_strlit("-h");
}

/// Each command is taken by its name, and its arguments in their order; what follows
/// them is passed over.
pub proof fn law_commands(program: Seq<char>, a: Seq<char>, b: Seq<char>, more: Seq<Seq<char>>)
    ensures
        cli::invocation(seq![program, "check"@, a]) == (Invocation::Check {
            file: a,
            assets: None,
        }),
        cli::invocation(seq![program, "check"@, a, b] + more) == (Invocation::Check {
            file: a,
            assets: Some(b),
        }),
        cli::invocation(seq![program, "run"@, a] + more) == (Invocation::Run { file: a }),
        cli::invocation(seq![program, "pack"@] + more) == Invocation::<Seq<char>>::Pack,
        cli::invocation(seq![program, "migrate"@, a]) == (Invocation::Migrate {
            input: a,
            output: None,
        }),
        cli::invocation(seq![program, "migrate"@, a, b] + more) == (Invocation::Migrate {
            input: a,
            output: Some(b),
        }),
        cli::invocation(seq![program, "translate"@, "init"@, a, b] + more) == (
        Invocation::TranslateInit { file: a, lang: b }),
        cli::invocation(seq![program, "help"@] + more) == (Invocation::<Seq<char>>::Help {
            wanted: true,
        }),
        cli::invocation(seq![program, "--help"@] + more) == (Invocation::<Seq<char>>::Help {
            wanted: true,
        }),
        cli::invocation(seq![program, "-h"@] + more) == (Invocation::<Seq<char>>::Help {
            wanted: true,
        }),
        cli::invocation(seq![program]) == (Invocation::<Seq<char>>::Help { wanted: false }),
{
    lemma_commands();
}

/// Too few arguments are answered by how the command is used.
pub proof fn law_misuse(program: Seq<char>, a: Seq<char>)
    ensures
        cli::invocation(seq![program, "check"@]) == (Invocation::Misused {
            usage: "Usage: akrs check <file.akrs> [assets_dir]"@,
        }),
        cli::invocation(seq![program, "run"@]) == (Invocation::Misused {
            usage: "Usage: akrs run <file.akrs>"@,
        }),
        cli::invocation(seq![program, "migrate"@]) == (Invocation::Misused {
            usage: "Usage: akrs migrate <input.rpy> [output.akrs]"@,
        }),
        cli::invocation(seq![program, "translate"@]) is Misused,
        cli::invocation(seq![program, "translate"@, "init"@]) is Misused,
        cli::invocation(seq![program, "translate"@, "init"@, a]) is Misused,
        a != "init"@ ==> cli::invocation(seq![program, "translate"@, a]) == (
        Invocation::UnknownTranslate { name: a }),
{
    lemma_commands();
}

/// Any other command is not known.
pub proof fn law_unknown_command(program: Seq<char>, name: Seq<char>, more: Seq<Seq<char>>)
    requires
        name != "check"@,
        name != "run"@,
        name != "pack"@,
        name != "migrate"@,
        name != "translate"@,
        name != "help"@,
        name != "--help"@,
        name != "-h"@,
    ensures
        cli::invocation(seq![program, name] + more) == (Invocation::UnknownCommand { name }),
{
}

// ---------------------------------------------------------------------------
// Findings
// ---------------------------------------------------------------------------

/// How many findings have a severity.
pub open spec fn how_many(
    errors: Seq<CompileError<Seq<char>>>,
    s: ErrSeverity,
) -> nat {
    errors.filter(|e: CompileError<Seq<char>>| e.severity == s).len()
}

proof fn lemma_how_many(errors: Seq<CompileError<Seq<char>>>, s: ErrSeverity)
    ensures
        cli::count_severity(errors, s) == how_many(errors, s),
    decreases errors.len(),
{
    let p = |e: CompileError<Seq<char>>| e.severity == s;
    reveal(Seq::filter);
    if errors.len() > 0 {
        lemma_how_many(errors.drop_last(), s);
        assert(errors.filter(p).len() == errors.drop_last().filter(p).len() + (if p(
            errors.last(),
        ) {
            1int
        } else {
            0
        }));
    }
}

/// The report on a script prints every finding in its place, with its severity, its
/// place and its message; the script passes where none of them is an error, and the
/// numbers of errors and warnings are told.
pub proof fn law_findings_are_printed(
    file: Seq<char>,
    program: Option<ast::ProgramView>,
    errors: Seq<CompileError<Seq<char>>>,
    i: int,
)
    requires
        0 <= i < errors.len(),
        errors[i].hint is None,
    ensures
        ({
            let r = cli::checked(file, program, errors);
            let word = match errors[i].severity {
                ErrSeverity::Error => "error"@,
                ErrSeverity::Warning => "warning"@,
                ErrSeverity::Note => "note"@,
            };
            let at = errors[i].span.start_linecol;
            let wrong = how_many(errors, ErrSeverity::Error);
            let warned = how_many(errors, ErrSeverity::Warning);
            &&& r.out.len() >= errors.len()
            &&& r.out[i] == word + ": "@ + file + ":"@ + text::nat_text(at.line as nat) + ":"@
                + text::nat_text(at.col as nat) + ": "@ + errors[i].message
            &&& r.ok == (wrong == 0)
            &&& !r.ok ==> r.out.len() == errors.len() && r.err == seq![
                "\n"@ + text::nat_text(wrong) + " error(s), "@ + text::nat_text(warned)
                    + " warning(s)"@,
            ]
            &&& r.ok ==> r.err.len() == 0 && r.out[errors.len() as int]
                == "\n✓ Script is valid ("@ + text::nat_text(warned) + " warning(s))"@
        }),
{
    lemma_how_many(errors, ErrSeverity::Error);
    lemma_how_many(errors, ErrSeverity::Warning);
    let at = errors[i].span.start_linecol;
    let word = cli::severity_word(errors[i].severity);
    assert(cli::finding_line(word, file, errors[i]) =~= word + ": "@ + file + ":"@
        + text::nat_text(at.line as nat) + ":"@ + text::nat_text(at.col as nat) + ": "@
        + errors[i].message);
}

/// A hint stands behind the finding, in brackets.
pub proof fn law_hints_are_printed(
    heading: Seq<char>,
    file: Seq<char>,
    e: CompileError<Seq<char>>,
    hint: Seq<char>,
)
    requires
        e.hint == Some(hint),
    ensures
        cli::finding_line(heading, file, e) == cli::finding_line(
            heading,
            file,
            CompileError { hint: None, ..e },
        ) + " (hint: "@ + hint + ")"@,
{
}

/// The sections of a script that passes are listed with their names and how many nodes
/// they hold.
pub proof fn law_sections_are_listed(
    file: Seq<char>,
    program: ast::ProgramView,
    errors: Seq<CompileError<Seq<char>>>,
    i: int,
)
    requires
        how_many(errors, ErrSeverity::Error) == 0,
        0 <= i < program.sections.len(),
    ensures
        ({
            let r = cli::checked(file, Some(program), errors);
            let n = errors.len() as int;
            &&& r.out.len() == n + 2 + program.sections.len()
            &&& r.out[n + 1] == "  Sections: "@ + text::nat_text(program.sections.len())
            &&& r.out[n + 2 + i] == "    - "@ + program.sections[i].name + " ("@ + text::nat_text(
                program.sections[i].nodes.len(),
            ) + " nodes)"@
        }),
{
    lemma_how_many(errors, ErrSeverity::Error);
}

// ---------------------------------------------------------------------------
// Text mode
// ---------------------------------------------------------------------------

/// What is said and told is printed word for word; a speaker stands in front.
pub proof fn law_words_are_printed(speaker: String, text: String)
    ensures
        cli::event_lines(EngineEvent::NarrationShown { text }).out == seq![text@],
        speaker@.len() > 0 ==> cli::event_lines(
            EngineEvent::DialogueShown { speaker, text },
        ).out == seq![speaker@ + ": "@ + text@],
        speaker@.len() == 0 ==> cli::event_lines(
            EngineEvent::DialogueShown { speaker, text },
        ).out == seq![text@],
{
}

/// What happens on the stage is printed in brackets, each thing under its own word.
pub proof fn law_stage_is_printed(name: String)
    requires
        name@.len() > 0,
    ensures
        cli::event_lines(EngineEvent::BackgroundChanged { name }).out == seq![
            "[Background: "@ + name@ + "]"@,
        ],
        cli::event_lines(EngineEvent::CharacterEntered { name }).out == seq![
            "["@ + name@ + " entered]"@,
        ],
        cli::event_lines(EngineEvent::CharacterExited { name }).out == seq![
            "["@ + name@ + " exited]"@,
        ],
        cli::event_lines(EngineEvent::MusicChanged { name }).out == seq![
            "[Music: "@ + name@ + "]"@,
        ],
        cli::event_lines(EngineEvent::SoundPlayed { name }).out == seq![
            "[Sound: "@ + name@ + "]"@,
        ],
        cli::event_lines(EngineEvent::VoicePlayed { name }).out == seq![
            "[Voice: "@ + name@ + "]"@,
        ],
        cli::event_lines(EngineEvent::TransitionStarted { kind: name }).out == seq![
            "[Transition: "@ + name@ + "]"@,
        ],
        cli::event_lines(EngineEvent::Warning { message: name }) == (Printed {
            out: Seq::empty(),
            err: seq!["[Warning: "@ + name@ + "]"@],
            ok: true,
        }),
        cli::event_lines(EngineEvent::Error { message: name }) == (Printed {
            out: Seq::empty(),
            err: seq!["[Error: "@ + name@ + "]"@],
            ok: true,
        }),
{
}

/// Silence is printed as silence.
pub proof fn law_silence_is_printed(name: String)
    requires
        name@.len() == 0,
    ensures
        cli::event_lines(EngineEvent::MusicChanged { name }).out == seq!["[Music stopped]"@],
        cli::event_lines(EngineEvent::VoicePlayed { name }).out == seq!["[Voice stopped]"@],
        cli::event_lines(EngineEvent::StoryEnded).out == seq!["\n=== Story End ==="@],
        cli::event_lines(EngineEvent::Other).out.len() == 0,
{
}

/// The options of a choice are printed behind the prompt, each with its number counted
/// from zero; one that cannot be taken is marked.
pub proof fn law_options_are_printed(
    prompt: Option<Seq<char>>,
    options: Seq<ChoiceInfo<Seq<char>>>,
    i: int,
)
    requires
        0 <= i < options.len(),
    ensures
        ({
            let lines = cli::choice_lines(prompt, options);
            let first = if prompt is Some {
                1int
            } else {
                0
            };
            let plain = "  ["@ + text::nat_text(i as nat) + "] "@ + options[i].text;
            &&& lines.len() == first + options.len()
            &&& prompt matches Some(p) ==> lines[0] == p
            &&& options[i].available ==> lines[first + i] == plain
            &&& !options[i].available ==> lines[first + i] == plain + " (locked)"@
        }),
{
    reveal_strlit("");
    let plain = "  ["@ + text::nat_text(i as nat) + "] "@ + options[i].text;
    assert(plain + ""@ =~= plain);
}

proof fn lemma_number(n: nat)
    ensures
        slices::digits_value(text::nat_text(n)) == n,
    decreases n,
{
    let s = text::nat_text(n);
    if n < 10 {
        assert(s.drop_last() =~= Seq::empty());
        assert(slices::digits_value(Seq::empty()) == 0);
    } else {
        lemma_number(n / 10);
        assert(s.drop_last() =~= text::nat_text(n / 10));
    }
}

/// While a choice is open, a number picks the option of that number, with blanks around
/// it or without, and anything else asks again; otherwise a line goes on, and after the
/// end of the story it stops.
pub proof fn law_input(n: usize, a: Seq<char>, b: Seq<char>, other: Seq<char>)
    requires
        text_laws::all_blank(a),
        text_laws::all_blank(b),
        other.len() > 0,
        forall|i: int| 0 <= i < other.len() ==> !spelling_laws::is_figure(#[trigger] other[i]),
    ensures
        cli::turn_of(EnginePhase::ChoicePending, a + text::nat_text(n as nat) + b)
            == Turn::Pick(n),
        cli::turn_of(EnginePhase::ChoicePending, other) == Turn::AskForNumber,
        cli::turn_of(EnginePhase::Title, other) == Turn::Advance,
        cli::turn_of(EnginePhase::Running, other) == Turn::Advance,
        cli::turn_of(EnginePhase::Transitioning, other) == Turn::Advance,
        cli::turn_of(EnginePhase::Waiting, other) == Turn::Advance,
        cli::turn_of(EnginePhase::StoryEnded, other) == Turn::Stop,
{
    let s = text::nat_text(n as nat);
    spelling_laws::law_digits_have_value(n as nat);
    lemma_number(n as nat);
    assert(spelling_laws::is_figure(s[0]));
    assert(spelling_laws::is_figure(s[s.len() - 1]));
    text_laws::law_trim_keeps(a, s, b);
    assert(slices::unsigned(s) == s);
    assert(slices::all_digits(s));
    let (x, y) = text_laws::law_trim_takes_white_space(other);
    let t = slices::trim(other);
    let u = slices::unsigned(t);
    if u.len() > 0 && slices::all_digits(u) {
        let k = t.len() - u.len();
        assert(u[0] == t[k]);
        assert(t[k] == other[x + k]);
        assert(false);
    }
}

// ---------------------------------------------------------------------------
// Conversion and translation
// ---------------------------------------------------------------------------

/// A conversion tells what was written where, how many lines it has, every name with
/// what it stands for, and every warning.
pub proof fn law_conversion_is_told(
    input: Seq<char>,
    output: Seq<char>,
    script: Seq<char>,
    chars: Seq<(Seq<char>, Seq<char>)>,
    images: Seq<(Seq<char>, Seq<char>)>,
    warnings: Seq<Seq<char>>,
    i: int,
    j: int,
    k: int,
)
    requires
        0 <= i < chars.len(),
        0 <= j < images.len(),
        0 <= k < warnings.len(),
    ensures
        ({
            let r = cli::converted(input, output, script, chars, images, warnings);
            let c = chars.len() as int;
            let m = images.len() as int;
            &&& r.ok
            &&& r.out == seq![
                "Migration complete: "@ + input + " → "@ + output,
                "  Output: "@ + text::nat_text(slices::lines(script).len()) + " lines"@,
            ]
            &&& r.err.len() == 3 + c + m + warnings.len()
            &&& r.err[0] == "\nCharacter name mappings:"@
            &&& r.err[1 + i] == "  "@ + chars[i].0 + " → "@ + chars[i].1
            &&& r.err[1 + c] == "\nImage resource mappings:"@
            &&& r.err[2 + c + j] == "  "@ + images[j].0 + " → "@ + images[j].1
            &&& r.err[2 + c + m] == "\nWarnings ("@ + text::nat_text(warnings.len()) + "):"@
            &&& r.err[3 + c + m + k] == "  ⚠ "@ + warnings[k]
        }),
{
}

/// A conversion without names and warnings says that there are no warnings.
pub proof fn law_quiet_conversion(input: Seq<char>, output: Seq<char>, script: Seq<char>)
    ensures
        cli::converted(input, output, script, Seq::empty(), Seq::empty(), Seq::empty()).err
            == seq!["\nNo warnings."@],
{
    assert(cli::converted(input, output, script, Seq::empty(), Seq::empty(), Seq::empty()).err
        =~= seq!["\nNo warnings."@]);
}

/// Every text that is to be translated is counted once, under its kind.
pub proof fn law_every_text_is_counted(
    entries: Seq<TranslatableLine<Seq<char>>>,
    e: TranslatableLine<Seq<char>>,
    kind: TranslatableKind,
)
    ensures
        translation::count_of(entries, TranslatableKind::Section) + translation::count_of(
            entries,
            TranslatableKind::Dialogue,
        ) + translation::count_of(entries, TranslatableKind::Narration) + translation::count_of(
            entries,
            TranslatableKind::Choice,
        ) + translation::count_of(entries, TranslatableKind::ChoicePrompt)
            + translation::count_of(entries, TranslatableKind::Character) == entries.len(),
        translation::count_of(entries.push(e), e.kind) == translation::count_of(entries, e.kind)
            + 1,
        kind != e.kind ==> translation::count_of(entries.push(e), kind) == translation::count_of(
            entries,
            kind,
        ),
    decreases entries.len(),
{
    assert(entries.push(e).drop_last() =~= entries);
    if entries.len() > 0 {
        law_every_text_is_counted(entries.drop_last(), e, kind);
    }
}

/// The notes on a skeleton name the language, the number of texts of each kind, and the
/// command that was used.
pub proof fn law_skeleton_is_told(
    file: Seq<char>,
    lang: Seq<char>,
    entries: Seq<TranslatableLine<Seq<char>>>,
)
    ensures
        ({
            let r = cli::skeleton_notes(file, lang, entries);
            &&& r.len() == 10
            &&& r[1] == "✓ Generated translation skeleton for '"@ + lang + "'"@
            &&& r[2] == "  Sections: "@ + text::nat_text(
                translation::count_of(entries, TranslatableKind::Section),
            )
            &&& r[3] == "  Dialogue: "@ + text::nat_text(
                translation::count_of(entries, TranslatableKind::Dialogue),
            )
            &&& r[4] == "  Narration: "@ + text::nat_text(
                translation::count_of(entries, TranslatableKind::Narration),
            )
            &&& r[5] == "  Choices: "@ + text::nat_text(
                translation::count_of(entries, TranslatableKind::Choice),
            )
            &&& r[6] == "  Choice prompts: "@ + text::nat_text(
                translation::count_of(entries, TranslatableKind::ChoicePrompt),
            )
            &&& r[7] == "  Characters: "@ + text::nat_text(
                translation::count_of(entries, TranslatableKind::Character),
            )
            &&& r[9] == "  Save to file: akrs translate init "@ + file + " "@ + lang + " > "@
                + lang + ".json"@
        }),
{
}

} // verus!
