//! The commands of the editor: shortcuts, insertions, running and the actions of
//! the previews.

use crate::ast;
use crate::ast::{Program, SectionView};
use crate::compile;
use crate::compile::compile;
use crate::editor;
use crate::editor::EditorApp;
use crate::parse;
use crate::parse::format_errors;
use crate::templates::MAX_CHAPTER_TITLE_CHARS;
use crate::slices::starts_with_str;
use crate::text;
use crate::text::{concat3, format_usize, to_chars};
use vstd::prelude::*;

verus! {

// ---------------------------------------------------------------------------
// Shortcuts
// ---------------------------------------------------------------------------

/// The keys that shortcuts use.
#[derive(Debug, Clone, Copy, PartialEq, Eq, Structural)]
pub enum Key {
    N,
    O,
    S,
    R,
    H,
    B,
    T,
    Y,
    Z,
    Num1,
    Num2,
    Num3,
    Num4,
    Other,
}

/// A key that was pressed, with the keys that were held.
#[derive(Debug, Clone, Copy, PartialEq, Eq, Structural)]
pub struct KeyPress {
    pub key: Key,
    pub ctrl: bool,
    pub shift: bool,
}

/// The commands that have a shortcut.
#[derive(Debug, Clone, Copy, PartialEq, Eq, Structural)]
pub enum Command {
    Undo,
    Redo,
    NewFile,
    Open,
    Save,
    Run,
    /// Insert an entrance, an exit, a section or a background.
    InsertEntrance,
    InsertExit,
    InsertSection,
    InsertBackground,
    Help,
    ToggleBlueprint,
    ToggleTranslation,
}

/// The command of a key: with the control key alone, and for redoing also with
/// the shift key.
pub open spec fn command_for(k: KeyPress) -> Option<Command> {
    if !k.ctrl {
        None
    } else if k.shift {
        if k.key == Key::Z {
            Some(Command::Redo)
        } else {
            None
        }
    } else {
        match k.key {
            Key::Z => Some(Command::Undo),
            Key::Y => Some(Command::Redo),
            Key::N => Some(Command::NewFile),
            Key::O => Some(Command::Open),
            Key::S => Some(Command::Save),
            Key::R => Some(Command::Run),
            Key::H => Some(Command::Help),
            Key::B => Some(Command::ToggleBlueprint),
            Key::T => Some(Command::ToggleTranslation),
            Key::Num1 => Some(Command::InsertEntrance),
            Key::Num2 => Some(Command::InsertExit),
            Key::Num3 => Some(Command::InsertSection),
            Key::Num4 => Some(Command::InsertBackground),
            Key::Other => None,
        }
    }
}

/// The command of a key.
pub fn shortcut(k: KeyPress) -> (r: Option<Command>)
    ensures
        r == command_for(k),
{
    if !k.ctrl {
        return None;
    }
    if k.shift {
        return if k.key == Key::Z {
            Some(Command::Redo)
        } else {
            None
        };
    }
    match k.key {
        Key::Z => Some(Command::Undo),
        Key::Y => Some(Command::Redo),
        Key::N => Some(Command::NewFile),
        Key::O => Some(Command::Open),
        Key::S => Some(Command::Save),
        Key::R => Some(Command::Run),
        Key::H => Some(Command::Help),
        Key::B => Some(Command::ToggleBlueprint),
        Key::T => Some(Command::ToggleTranslation),
        Key::Num1 => Some(Command::InsertEntrance),
        Key::Num2 => Some(Command::InsertExit),
        Key::Num3 => Some(Command::InsertSection),
        Key::Num4 => Some(Command::InsertBackground),
        Key::Other => None,
    }
}

/// The order in which the commands of a frame are carried out.
pub open spec fn command_order() -> Seq<Command> {
    seq![
        Command::Undo,
        Command::Redo,
        Command::NewFile,
        Command::Open,
        Command::Save,
        Command::Run,
        Command::InsertEntrance,
        Command::InsertExit,
        Command::InsertSection,
        Command::InsertBackground,
        Command::Help,
        Command::ToggleBlueprint,
        Command::ToggleTranslation,
    ]
}

/// Whether a command was called for.
pub open spec fn called_for(keys: Seq<KeyPress>, c: Command) -> bool {
    exists|k: int| 0 <= k < keys.len() && #[trigger] command_for(keys[k]) == Some(c)
}

/// The commands among the first `n` of the order that were called for.
pub open spec fn commands_in(keys: Seq<KeyPress>, n: int) -> Seq<Command>
    decreases n,
{
    if n <= 0 {
        Seq::empty()
    } else {
        let c = command_order()[n - 1];
        if called_for(keys, c) {
            commands_in(keys, n - 1).push(c)
        } else {
            commands_in(keys, n - 1)
        }
    }
}

fn is_called(keys: &Vec<KeyPress>, c: Command) -> (r: bool)
    ensures
        r == called_for(keys@, c),
{
    let mut i: usize = 0;
    while i < keys.len()
        invariant
            i <= keys@.len(),
            forall|k: int| 0 <= k < i ==> #[trigger] command_for(keys@[k]) != Some(c),
        decreases keys@.len() - i,
    {
        let found: bool = match shortcut(keys[i]) {
            Some(x) => x == c,
            None => false,
        };
        if found {
            assert(command_for(keys@[i as int]) == Some(c));
            return true;
        }
        i = i + 1;
    }
    false
}

/// The commands that the keys of a frame call for, each once and in the order in
/// which they are carried out.
pub fn shortcuts(keys: &Vec<KeyPress>) -> (r: Vec<Command>)
    ensures
        r@ == commands_in(keys@, 13),
{
    let order: [Command; 13] = [
        Command::Undo,
        Command::Redo,
        Command::NewFile,
        Command::Open,
        Command::Save,
        Command::Run,
        Command::InsertEntrance,
        Command::InsertExit,
        Command::InsertSection,
        Command::InsertBackground,
        Command::Help,
        Command::ToggleBlueprint,
        Command::ToggleTranslation,
    ];
    assert(order@ =~= command_order());
    let mut r: Vec<Command> = Vec::new();
    let mut i: usize = 0;
    assert(r@ =~= commands_in(keys@, 0));
    while i < 13
        invariant
            i <= 13,
            order@ == command_order(),
            r@ == commands_in(keys@, i as int),
        decreases 13 - i,
    {
        let c: Command = order[i];
        if is_called(keys, c) {
            r.push(c);
        }
        i = i + 1;
    }
    r
}

// ---------------------------------------------------------------------------
// Running
// ---------------------------------------------------------------------------

/// The warning about the title of a section that is too long.
pub open spec fn title_warning(section: SectionView) -> Seq<char> {
    "[警告] 第 "@ + text::nat_text(section.span.start_linecol.line as nat)
        + " 行：章节标题过长（"@ + text::nat_text(section.name.len()) + " 字 > "@ + text::nat_text(
        MAX_CHAPTER_TITLE_CHARS as nat,
    ) + "），顶部通知会自动缩字显示，建议精简"@
}

/// The warnings about the titles of sections.
pub open spec fn title_warnings(sections: Seq<SectionView>) -> Seq<Seq<char>>
    decreases sections.len(),
{
    if sections.len() == 0 {
        Seq::empty()
    } else {
        let front = title_warnings(sections.drop_last());
        if sections.last().name.len() > MAX_CHAPTER_TITLE_CHARS {
            front.push(title_warning(sections.last()))
        } else {
            front
        }
    }
}

/// What is told about a script: the findings, and the titles that are too long.
pub open spec fn diagnosed(content: Seq<char>) -> Seq<Seq<char>> {
    let (program, errors) = compile::compiled(content, Seq::empty());
    parse::findings_text(errors) + match program {
        Some(p) => title_warnings(p.sections),
        None => Seq::empty(),
    }
}

/// The number of errors among lines.
pub open spec fn error_count(lines: Seq<Seq<char>>) -> nat
    decreases lines.len(),
{
    if lines.len() == 0 {
        0
    } else {
        error_count(lines.drop_last()) + if text::starts_with(lines.last(), "[错误]"@) {
            1nat
        } else {
            0nat
        }
    }
}

/// The status after a script was started, or could not be.
pub open spec fn run_status(content: Seq<char>) -> Seq<char> {
    let lines = diagnosed(content);
    if compile::compiled(content, Seq::empty()).0 is Some {
        if lines.len() == 0 {
            "运行中"@
        } else {
            "运行中（"@ + text::nat_text(lines.len()) + " 条诊断）"@
        }
    } else {
        "编译失败（"@ + text::nat_text(error_count(lines)) + " 个错误）"@
    }
}

/// The editor after the script was run.
pub open spec fn after_run(e: editor::Session) -> editor::Session {
    editor::Session {
        diagnostics: diagnosed(e.content),
        running: compile::compiled(e.content, Seq::empty()).0 is Some,
        status: run_status(e.content),
        ..e
    }
}

fn push_title_warnings(program: &Program, out: &mut Vec<String>)
    ensures
        text::views(final(out)@) == text::views(old(out)@) + title_warnings(program@.sections),
{
    let ghost all = program@.sections;
    let ghost base = text::views(out@);
    let n: usize = program.sections.len();
    let mut i: usize = 0;
    assert(base + title_warnings(all.take(0)) =~= base);
    while i < n
        invariant
            i <= n,
            n == program.sections@.len(),
            n == all.len(),
            all == program@.sections,
            base == text::views(old(out)@),
            text::views(out@) == base + title_warnings(all.take(i as int)),
        decreases n - i,
    {
        proof {
            assert(all.take(i + 1).drop_last() =~= all.take(i as int));
            assert(all.take(i + 1).last() == ast::section_view(program.sections@[i as int]));
        }
        let name: Vec<char> = to_chars(program.sections[i].name.as_str());
        if name.len() > MAX_CHAPTER_TITLE_CHARS {
            let line: String = format_usize(program.sections[i].span.start_linecol.line);
            let count: String = format_usize(name.len());
            let limit: String = format_usize(MAX_CHAPTER_TITLE_CHARS);
            let mut w: String = concat3("[警告] 第 ", line.as_str(), " 行：章节标题过长（");
            w.append(count.as_str());
            w.append(" 字 > ");
            w.append(limit.as_str());
            w.append("），顶部通知会自动缩字显示，建议精简");
            let ghost before = text::views(out@);
            let ghost added = w@;
            out.push(w);
            assert(text::views(out@) =~= before.push(added));
            assert(text::views(out@) =~= base + title_warnings(all.take(i + 1)));
        }
        i = i + 1;
    }
    assert(all.take(n as int) =~= all);
}

fn count_errors(lines: &Vec<String>) -> (r: usize)
    ensures
        r == error_count(text::views(lines@)),
{
    let ghost all = text::views(lines@);
    let n: usize = lines.len();
    let mut r: usize = 0;
    let mut i: usize = 0;
    assert(all.take(0) =~= Seq::empty());
    while i < n
        invariant
            i <= n,
            n == lines@.len(),
            r <= i,
            all == text::views(lines@),
            r == error_count(all.take(i as int)),
        decreases n - i,
    {
        proof {
            assert(all.take(i + 1).drop_last() =~= all.take(i as int));
            assert(all.take(i + 1).last() == lines@[i as int]@);
        }
        let cs: Vec<char> = to_chars(lines[i].as_str());
        if starts_with_str(cs.as_slice(), "[错误]") {
            r = r + 1;
        }
        i = i + 1;
    }
    assert(all.take(n as int) =~= all);
    r
}

/// What is told about a script, and its program where it has one.
pub fn diagnose(content: &str) -> (r: (Option<Program>, Vec<String>))
    ensures
        compile::program_view(r.0) == compile::compiled(content@, Seq::empty()).0,
        text::views(r.1@) == diagnosed(content@),
{
    let (program, errors) = compile(content);
    let mut lines: Vec<String> = format_errors(errors.as_slice());
    match &program {
        Some(p) => push_title_warnings(p, &mut lines),
        None => {
            assert(text::views(lines@) + Seq::empty() =~= text::views(lines@));
        },
    }
    (program, lines)
}

impl EditorApp {
    /// Compiles the script. The result is its program, where it has one, for the
    /// host to start.
    pub fn run_script(&mut self) -> (r: Option<Program>)
        ensures
            compile::program_view(r) == compile::compiled(old(self)@.content, Seq::empty()).0,
            final(self)@ == after_run(old(self)@),
    {
        let (program, lines) = diagnose(self.editor_content.as_str());
        assert(text::views(lines@).len() == lines@.len());
        let status: String = if program.is_some() {
            if lines.len() == 0 {
                "运行中".to_owned()
            } else {
                concat3("运行中（", format_usize(lines.len()).as_str(), " 条诊断）")
            }
        } else {
            concat3("编译失败（", format_usize(count_errors(&lines)).as_str(), " 个错误）")
        };
        self.running = program.is_some();
        self.diagnostics = lines;
        self.status = status;
        program
    }

    /// Stops the preview.
    pub fn stop_preview(&mut self)
        ensures
            final(self)@ == (editor::Session {
                running: false,
                status: "预览已停止"@,
                ..old(self)@
            }),
    {
        self.running = false;
        self.status = "预览已停止".to_owned();
    }
}

/// A finding is told as an error if and only if it is one.
proof fn lemma_error_line(e: compile::CompileError<Seq<char>>)
    ensures
        text::starts_with(parse::finding_text(e), "[错误]"@) <==> e.severity is Error,
{
    reveal_strlit("[错误]");
    reveal_strlit("[");
    reveal_strlit("] ");
    reveal_strlit("错误");
    reveal_strlit("警告");
    reveal_strlit("提示");
    let line = parse::finding_text(e);
    assert(line.len() >= 5);
    assert(line[0] == '[');
    assert(line[1] == parse::severity_text(e.severity)[0]);
    assert(line[2] == parse::severity_text(e.severity)[1]);
    assert(line[3] == ']');
    if e.severity is Error {
        assert(line.subrange(0, 4) =~= "[错误]"@);
    } else {
        assert(line.subrange(0, 4)[1] != "[错误]"@[1]);
    }
}

proof fn lemma_title_line(section: SectionView)
    ensures
        !text::starts_with(title_warning(section), "[错误]"@),
{
    reveal_strlit("[错误]");
    reveal_strlit("[警告] 第 ");
    let line = title_warning(section);
    assert(line[1] == '警');
    assert(line.subrange(0, 4)[1] != "[错误]"@[1]);
}

proof fn lemma_error_count_join(a: Seq<Seq<char>>, b: Seq<Seq<char>>)
    ensures
        error_count(a + b) == error_count(a) + error_count(b),
    decreases b.len(),
{
    if b.len() == 0 {
        assert(a + b =~= a);
    } else {
        lemma_error_count_join(a, b.drop_last());
        assert((a + b).drop_last() =~= a + b.drop_last());
    }
}

proof fn lemma_no_title_errors(sections: Seq<SectionView>)
    ensures
        error_count(title_warnings(sections)) == 0,
    decreases sections.len(),
{
    if sections.len() > 0 {
        lemma_no_title_errors(sections.drop_last());
        lemma_title_line(sections.last());
        let front = title_warnings(sections.drop_last());
        assert(front.push(title_warning(sections.last())).drop_last() =~= front);
    }
}

proof fn lemma_count_errors(errors: Seq<compile::CompileError<Seq<char>>>)
    ensures
        error_count(parse::findings_text(errors)) == 0 <==> forall|i: int|
            0 <= i < errors.len() ==> !((#[trigger] errors[i]).severity is Error),
    decreases errors.len(),
{
    let lines = parse::findings_text(errors);
    if errors.len() > 0 {
        let front = errors.drop_last();
        lemma_count_errors(front);
        lemma_error_line(errors.last());
        assert(lines.drop_last() =~= parse::findings_text(front));
        assert(lines.last() == parse::finding_text(errors.last()));
        assert(forall|i: int| 0 <= i < front.len() ==> front[i] == errors[i]);
        assert(errors[errors.len() - 1] == errors.last());
        if error_count(lines) == 0 {
            assert forall|i: int| 0 <= i < errors.len() implies !((
            #[trigger] errors[i]).severity is Error) by {
                if i < front.len() {
                    assert(!(front[i].severity is Error));
                }
            }
        }
    }
}

/// A script is started if and only if no line of its diagnostics tells of an
/// error.
pub proof fn law_starts_iff_no_error_line(content: Seq<char>)
    ensures
        compile::compiled(content, Seq::empty()).0 is Some <==> error_count(diagnosed(content))
            == 0,
{
    let (program, errors) = compile::compiled(content, Seq::empty());
    let tail = match program {
        Some(p) => title_warnings(p.sections),
        None => Seq::empty(),
    };
    compile::law_program_iff_no_error(content, Seq::empty());
    lemma_count_errors(errors);
    lemma_error_count_join(parse::findings_text(errors), tail);
    match program {
        Some(p) => lemma_no_title_errors(p.sections),
        None => {},
    }
}

} // verus!
