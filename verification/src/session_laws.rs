//! Laws of the editor: its shortcuts, its modes and what it tells.

use crate::actions;
use crate::actions::Request;
use crate::ast::SectionView;
use crate::checker::{CheckError, Severity};
use crate::commands;
use crate::commands::{Command, Key, KeyPress};
use crate::editor;
use crate::editor::Session;
use crate::fs_util;
use crate::lexer::LexError;
use crate::modes;
use crate::project;
use crate::project::RecentProject;
use crate::reporter;
use crate::text;
use crate::text_laws;
use crate::translation;
use crate::translation::TranslatableKind;
use vstd::prelude::*;

verus! {

// ---------------------------------------------------------------------------
// Shortcuts
// ---------------------------------------------------------------------------

/// The key of each command.
pub open spec fn key_of(c: Command) -> Key {
    match c {
        Command::Undo => Key::Z,
        Command::Redo => Key::Y,
        Command::NewFile => Key::N,
        Command::Open => Key::O,
        Command::Save => Key::S,
        Command::Run => Key::R,
        Command::Help => Key::H,
        Command::ToggleBlueprint => Key::B,
        Command::ToggleTranslation => Key::T,
        Command::InsertEntrance => Key::Num1,
        Command::InsertExit => Key::Num2,
        Command::InsertSection => Key::Num3,
        Command::InsertBackground => Key::Num4,
    }
}

/// Every command has its key, held with the control key and without the shift key; with
/// the shift key there is only redoing, and without the control key there is none.
pub proof fn law_shortcuts(c: Command, key: Key, shift: bool)
    ensures
        commands::command_for(KeyPress { key: key_of(c), ctrl: true, shift: false }) == Some(c),
        commands::command_for(KeyPress { key, ctrl: false, shift }) is None,
        key != Key::Z ==> commands::command_for(KeyPress { key, ctrl: true, shift: true }) is None,
        commands::command_for(KeyPress { key: Key::Z, ctrl: true, shift: true }) == Some(
            Command::Redo,
        ),
        commands::command_for(KeyPress { key: Key::Other, ctrl: true, shift }) is None,
{
}

/// The commands of a frame are those that were called for, each once.
pub proof fn law_commands_of_a_frame(keys: Seq<KeyPress>, c: Command)
    ensures
        commands::commands_in(keys, 13).contains(c) <==> exists|k: int|
            0 <= k < keys.len() && #[trigger] commands::command_for(keys[k]) == Some(c),
        commands::commands_in(keys, 13).no_duplicates(),
{
    let order = commands::command_order();
    let at = match c {
        Command::Undo => 0int,
        Command::Redo => 1,
        Command::NewFile => 2,
        Command::Open => 3,
        Command::Save => 4,
        Command::Run => 5,
        Command::InsertEntrance => 6,
        Command::InsertExit => 7,
        Command::InsertSection => 8,
        Command::InsertBackground => 9,
        Command::Help => 10,
        Command::ToggleBlueprint => 11,
        Command::ToggleTranslation => 12,
    };
    assert(order[at] == c);
    lemma_commands_in(keys, 13, c, at);
    assert(commands::called_for(keys, c) <==> exists|k: int|
        0 <= k < keys.len() && #[trigger] commands::command_for(keys[k]) == Some(c));
    lemma_each_once(keys, 13);
}

proof fn lemma_commands_in(keys: Seq<KeyPress>, n: int, c: Command, at: int)
    requires
        0 <= n <= 13,
        0 <= at < 13,
        commands::command_order()[at] == c,
        forall|i: int| 0 <= i < 13 && i != at ==> #[trigger] commands::command_order()[i] != c,
    ensures
        commands::commands_in(keys, n).contains(c) <==> at < n && commands::called_for(keys, c),
    decreases n,
{
    if n > 0 {
        lemma_commands_in(keys, n - 1, c, at);
        let front = commands::commands_in(keys, n - 1);
        let x = commands::command_order()[n - 1];
        let all = front.push(x);
        assert(all[front.len() as int] == x);
        if front.contains(c) {
            let i = choose|i: int| 0 <= i < front.len() && front[i] == c;
            assert(all[i] == c);
        }
        if all.contains(c) && x != c {
            let i = choose|i: int| 0 <= i < all.len() && all[i] == c;
            assert(front[i] == c);
        }
    }
}

proof fn lemma_each_once(keys: Seq<KeyPress>, n: int)
    requires
        0 <= n <= 13,
    ensures
        commands::commands_in(keys, n).no_duplicates(),
    decreases n,
{
    if n > 0 {
        lemma_each_once(keys, n - 1);
        let x = commands::command_order()[n - 1];
        lemma_commands_in(keys, n - 1, x, n - 1);
    }
}

/// Undoing comes first, then redoing, and the rest in a fixed order: of two commands of a
/// frame the one that stands earlier is carried out earlier.
pub proof fn law_order_of_commands(keys: Seq<KeyPress>)
    requires
        commands::called_for(keys, Command::Undo),
    ensures
        commands::commands_in(keys, 13)[0] == Command::Undo,
{
    lemma_first_stays(keys, 13);
}

proof fn lemma_first_stays(keys: Seq<KeyPress>, n: int)
    requires
        1 <= n <= 13,
        commands::called_for(keys, Command::Undo),
    ensures
        commands::commands_in(keys, n).len() > 0,
        commands::commands_in(keys, n)[0] == Command::Undo,
    decreases n,
{
    if n > 1 {
        lemma_first_stays(keys, n - 1);
    } else {
        assert(commands::commands_in(keys, 0).len() == 0);
    }
}

/// What the shortcuts insert stands behind the script, on a line of its own.
pub proof fn law_inserted_lines(e: Session, key: Seq<char>)
    requires
        !editor::is_blank(e.content),
    ensures
        actions::after_command(e, Command::InsertEntrance, key).content == e.content
            + "+ 角色"@ + "\n"@,
        actions::after_command(e, Command::InsertExit, key).content == e.content + "- 角色"@
            + "\n"@,
        actions::after_command(e, Command::InsertSection, key).content == e.content
            + "# 章节"@ + "\n"@,
        actions::after_command(e, Command::InsertBackground, key).content == e.content
            + "@bg 背景"@ + "\n"@,
{
}

/// Where there is no script, nothing is inserted, saved or run.
pub proof fn law_no_script(e: Session, key: Seq<char>)
    requires
        editor::is_blank(e.content),
        !e.blueprint_mode,
    ensures
        actions::after_command(e, Command::InsertEntrance, key) == e,
        actions::after_command(e, Command::InsertExit, key) == e,
        actions::after_command(e, Command::InsertSection, key) == e,
        actions::after_command(e, Command::InsertBackground, key) == e,
        actions::request_of(e, Command::Save) is Nothing,
        actions::request_of(e, Command::Run) is Nothing,
{
}

/// A script is saved and run on demand, and a file is opened by its name.
pub proof fn law_requests(e: Session)
    requires
        !editor::is_blank(e.content),
    ensures
        actions::request_of(e, Command::Save) is Save,
        actions::request_of(e, Command::Run) is Run,
        !e.welcome ==> actions::request_of(e, Command::Open) == Request::Open(
            fs_util::file_name(e.name),
        ),
        e.welcome ==> actions::request_of(e, Command::Open) is Nothing,
        actions::request_of(e, Command::Undo) is Nothing,
        actions::request_of(e, Command::NewFile) is Nothing,
{
}

/// Saving and running do not change the script; help shows the shortcuts; a new file
/// begins unchanged and without a file.
pub proof fn law_commands_keep(e: Session, key: Seq<char>)
    ensures
        actions::after_command(e, Command::Save, key) == e,
        actions::after_command(e, Command::Run, key) == e,
        actions::after_command(e, Command::Help, key).shortcuts,
        actions::after_command(e, Command::Help, key).content == e.content,
        actions::after_command(e, Command::NewFile, key).file is None,
        actions::after_command(e, Command::NewFile, key).name == "untitled.akrs"@,
        !editor::has_changes(actions::after_command(e, Command::NewFile, key)),
        !actions::after_command(e, Command::NewFile, key).running,
        !actions::after_command(e, Command::NewFile, key).welcome,
{
}

// ---------------------------------------------------------------------------
// Modes
// ---------------------------------------------------------------------------

/// Switching a mode switches it, and back; the translation shows the texts of the script.
pub proof fn law_switches(e: Session, key: Seq<char>)
    ensures
        modes::after_translation_toggle(e).translation_mode == !e.translation_mode,
        modes::after_translation_toggle(e).content == e.content,
        !e.translation_mode ==> modes::after_translation_toggle(e).entries
            == translation::texts_of(e.content),
        e.blueprint_mode ==> !modes::after_blueprint_toggle(e, key).blueprint_mode,
        !e.blueprint_mode && !editor::is_blank(e.content) ==> modes::after_blueprint_toggle(
            e,
            key,
        ).blueprint_mode,
        !e.blueprint_mode ==> modes::after_blueprint_toggle(e, key).content == e.content,
        !e.blueprint_mode && editor::is_blank(e.content) ==> !modes::after_blueprint_toggle(
            e,
            key,
        ).blueprint_mode,
{
}

// ---------------------------------------------------------------------------
// Saving
// ---------------------------------------------------------------------------

/// What is saved is the script as it stands, under its name; there are no changes then.
pub proof fn law_saving(
    e: Session,
    path: Seq<char>,
    name: Seq<char>,
    main_script: Option<Seq<char>>,
)
    ensures
        ({
            let r = editor::after_save(e, path, name, main_script);
            &&& r.saved == e.content
            &&& r.content == e.content
            &&& r.file == Some(path)
            &&& r.name == name
            &&& !editor::has_changes(r)
        }),
        main_script is None || main_script == Some(name) ==> editor::saved_status(
            name,
            main_script,
        ) == "已保存 "@ + name,
        editor::has_changes(e) <==> e.content != e.saved,
{
}

// ---------------------------------------------------------------------------
// Replacing
// ---------------------------------------------------------------------------

proof fn lemma_found_behind(s: Seq<char>, t: Seq<char>, k: int, i: int)
    requires
        0 <= k <= s.len(),
        0 <= i <= s.len() - k,
    ensures
        text::find_from(s, t, k + i) == (match text::find_from(s.skip(k), t, i) {
            Some(p) => Some(k + p),
            None => None,
        }),
    decreases s.len() - k - i,
{
    let r = s.skip(k);
    if text::occurs_at(s, t, k + i) {
        assert(r.subrange(i, i + t.len()) =~= s.subrange(k + i, k + i + t.len()));
    }
    if text::occurs_at(r, t, i) {
        assert(r.subrange(i, i + t.len()) =~= s.subrange(k + i, k + i + t.len()));
    }
    if k + i < s.len() {
        lemma_found_behind(s, t, k, i + 1);
    } else {
        assert(text::find_from(s, t, k + i + 1) is None);
        assert(text::find_from(r, t, i + 1) is None);
    }
}

proof fn lemma_replaced_behind(s: Seq<char>, t: Seq<char>, r: Seq<char>, k: int, i: int)
    requires
        0 <= k <= s.len(),
        0 <= i <= s.len() - k,
        t.len() > 0,
    ensures
        editor::replaced_from(s, t, r, k + i) == editor::replaced_from(s.skip(k), t, r, i),
    decreases s.len() - k - i,
{
    let u = s.skip(k);
    lemma_found_behind(s, t, k, i);
    text::lemma_find_from(u, t, i);
    match text::find_from(u, t, i) {
        Some(p) => {
            assert(s.subrange(k + i, k + p) =~= u.subrange(i, p));
            lemma_replaced_behind(s, t, r, k, p + t.len());
        },
        None => {
            assert(s.subrange(k + i, s.len() as int) =~= u.subrange(i, u.len() as int));
        },
    }
}

/// Replacing puts the new text in the place of the first old one and goes on behind it;
/// where the old text does not occur, nothing changes.
pub proof fn law_replacing(s: Seq<char>, t: Seq<char>, r: Seq<char>, k: int)
    requires
        t.len() > 0,
    ensures
        text::occurs_at(s, t, k) && (forall|i: int| 0 <= i < k ==> !text::occurs_at(s, t, i))
            ==> editor::replaced(s, t, r) == s.take(k) + r + editor::replaced(
            s.skip(k + t.len()),
            t,
            r,
        ),
        !text::contains(s, t) ==> editor::replaced(s, t, r) == s,
{
    if text::occurs_at(s, t, k) && (forall|i: int| 0 <= i < k ==> !text::occurs_at(s, t, i)) {
        text_laws::law_first_occurrence(s, t, k);
        lemma_replaced_behind(s, t, r, k + t.len(), 0);
        assert(s.subrange(0, k) =~= s.take(k));
    }
    if !text::contains(s, t) {
        assert(s.subrange(0, s.len() as int) =~= s);
    }
}

// ---------------------------------------------------------------------------
// What is told
// ---------------------------------------------------------------------------

/// A title is warned about exactly where it is longer than twenty-four characters.
pub proof fn law_long_titles(sections: Seq<SectionView>, s: SectionView)
    ensures
        s.name.len() <= 24 ==> commands::title_warnings(sections.push(s))
            == commands::title_warnings(sections),
        s.name.len() > 24 ==> commands::title_warnings(sections.push(s))
            == commands::title_warnings(sections).push(
            "[警告] 第 "@ + text::nat_text(s.span.start_linecol.line as nat)
                + " 行：章节标题过长（"@ + text::nat_text(s.name.len()) + " 字 > "@
                + text::nat_text(24) + "），顶部通知会自动缩字显示，建议精简"@,
        ),
        commands::title_warnings(Seq::empty()).len() == 0,
{
    assert(sections.push(s).drop_last() =~= sections);
}

/// The lines that tell of an error are counted, and no others.
pub proof fn law_errors_are_counted(lines: Seq<Seq<char>>, rest: Seq<char>, other: Seq<char>)
    requires
        !text::starts_with(other, "[错误]"@),
    ensures
        commands::error_count(lines.push("[错误]"@ + rest)) == commands::error_count(lines) + 1,
        commands::error_count(lines.push(other)) == commands::error_count(lines),
        commands::error_count(Seq::empty()) == 0,
{
    let t = "[错误]"@ + rest;
    assert(t.subrange(0, "[错误]"@.len() as int) =~= "[错误]"@);
    assert(lines.push(t).drop_last() =~= lines);
    assert(lines.push(other).drop_last() =~= lines);
}

/// What is reported keeps the message, the stretch and the severity; a hint becomes a
/// note.
pub proof fn law_reports(
    file_id: usize,
    l: LexError<Seq<char>>,
    c: CheckError<Seq<char>>,
    hint: Seq<char>,
)
    ensures
        ({
            let r = reporter::lex_finding(file_id, l);
            r.severity == Severity::Error && r.message == l.message && r.start == l.span.start
                && r.end == l.span.end && r.note is None && r.file_id == file_id
        }),
        ({
            let r = reporter::check_finding(file_id, c);
            r.severity == c.severity && r.message == c.message && r.start == c.span.start && r.end
                == c.span.end && r.file_id == file_id
        }),
        c.hint == Some(hint) ==> reporter::check_finding(file_id, c).note == Some(
            "hint: "@ + hint,
        ),
        c.hint is None ==> reporter::check_finding(file_id, c).note is None,
{
}

/// How each text that is to be translated is shown, and what its kind is called.
pub proof fn law_texts_are_shown(s: Seq<char>)
    ensures
        translation::shown(TranslatableKind::Section, s) == "# "@ + s,
        translation::shown(TranslatableKind::Dialogue, s) == "\""@ + s + "\""@,
        translation::shown(TranslatableKind::Narration, s) == "\""@ + s + "\""@,
        translation::shown(TranslatableKind::Choice, s) == "| \""@ + s + "\""@,
        translation::shown(TranslatableKind::ChoicePrompt, s) == "? \""@ + s + "\""@,
        translation::shown(TranslatableKind::Character, s) == s,
        translation::label(TranslatableKind::Section) == "章节"@,
        translation::label(TranslatableKind::Dialogue) == "对话"@,
        translation::label(TranslatableKind::Narration) == "旁白"@,
        translation::label(TranslatableKind::Choice) == "选项"@,
        translation::label(TranslatableKind::ChoicePrompt) == "选项提示"@,
        translation::label(TranslatableKind::Character) == "角色"@,
{
}

/// The languages that are known are named in themselves; any other by its code.
pub proof fn law_languages(code: Seq<char>)
    ensures
        translation::language_name("zh-CN"@) == "简体中文"@,
        translation::language_name("zh-TW"@) == "繁體中文"@,
        translation::language_name("en-US"@) == "English"@,
        translation::language_name("ja-JP"@) == "日本語"@,
        code != "zh-CN"@ && code != "zh-TW"@ && code != "en-US"@ && code != "ja-JP"@
            ==> translation::language_name(code) == code,
{
    reveal_strlit("zh-CN");
    reveal_strlit("zh-TW");
    reveal_strlit("en-US");
    reveal_strlit("ja-JP");
    assert("zh-CN"@[3] == 'C' && "zh-TW"@[3] == 'T' && "en-US"@[3] == 'U' && "ja-JP"@[3] == 'J');
}

// ---------------------------------------------------------------------------
// Projects
// ---------------------------------------------------------------------------

/// The projects at other paths.
pub open spec fn others(s: Seq<RecentProject<Seq<char>>>, path: Seq<char>) -> Seq<
    RecentProject<Seq<char>>,
> {
    s.filter(|p: RecentProject<Seq<char>>| p.path != path)
}

proof fn lemma_elsewhere(s: Seq<RecentProject<Seq<char>>>, path: Seq<char>)
    ensures
        project::elsewhere(s, path) == others(s, path),
    decreases s.len(),
{
    reveal(Seq::filter);
    if s.len() > 0 {
        lemma_elsewhere(s.drop_last(), path);
    }
}

/// The projects that were opened before stay in their order behind the one that is opened
/// now, without an older entry of it; the oldest beyond ten are dropped.
pub proof fn law_recent_projects(
    s: Seq<RecentProject<Seq<char>>>,
    p: RecentProject<Seq<char>>,
)
    ensures
        ({
            let rest = others(s, p.path);
            project::reopened(s, p) == (if rest.len() >= 10 {
                (seq![p] + rest).take(10)
            } else {
                seq![p] + rest
            })
        }),
{
    lemma_elsewhere(s, p.path);
}

} // verus!
