//! The state of the editor and what its commands do.
//!
//! Files are read and written by the host: a command that needs it names what is
//! to be done, and the host reports what came of it.

use crate::blueprint;
use crate::blueprint::BlueprintState;
use crate::blueprint_script;
use crate::fs_util;
use crate::fs_util::sanitize_filename;
use crate::history;
use crate::history::History;
use crate::slices;
use crate::slices::trim_of;
use crate::templates::{NEW_TEMPLATE, SAMPLE_SCRIPT};
use crate::text;
use crate::text::{concat2, concat3, find_chars, from_chars, str_eq, to_chars};
use crate::translation;
use crate::translation::TranslatableLine;
use vstd::prelude::*;

verus! {

/// The tabs on the right.
#[derive(Debug, Clone, Copy, PartialEq, Eq, Structural)]
pub enum PreviewTab {
    Script,
    Sprite,
    Background,
    Music,
    Outline,
    Blocks,
}

/// The editor.
pub struct EditorApp {
    pub editor_content: String,
    /// The text as it was last saved or loaded.
    pub saved_content: String,
    pub current_file: Option<String>,
    pub file_name_input: String,
    /// Whether the story is running in the preview.
    pub running: bool,
    pub status: String,
    pub diagnostics: Vec<String>,
    pub show_welcome: bool,
    pub history: History,
    pub blueprint_mode: bool,
    pub blueprint: BlueprintState,
    /// The files whose blueprint has been laid out once.
    pub layout_done: Vec<String>,
    pub translation_mode: bool,
    pub translation_target_lang: String,
    pub translatable_lines: Vec<TranslatableLine>,
    /// Comments that the script could not take over.
    pub show_comment_warning: bool,
    pub comment_warning_list: Vec<String>,
    pub show_find_replace_dialog: bool,
    pub find_replace_target: String,
    pub find_replace_syntax: String,
    pub show_shortcuts: bool,
    pub show_save_reminder: bool,
    pub show_cargo_guide: bool,
    /// Whether the question about unsaved changes is open.
    pub pending_exit: bool,
    pub force_close: bool,
    pub preview_tab: PreviewTab,
    /// The template that is being dragged to the canvas.
    pub drag_template: Option<usize>,
}

/// What the editor holds.
pub struct Session {
    pub content: Seq<char>,
    pub saved: Seq<char>,
    pub file: Option<Seq<char>>,
    pub name: Seq<char>,
    pub running: bool,
    pub status: Seq<char>,
    pub diagnostics: Seq<Seq<char>>,
    pub welcome: bool,
    pub steps: history::Steps,
    pub blueprint_mode: bool,
    pub blueprint: blueprint::Blueprint,
    pub layout_done: Seq<Seq<char>>,
    pub translation_mode: bool,
    pub language: Seq<char>,
    pub entries: Seq<TranslatableLine<Seq<char>>>,
    pub comment_warning: bool,
    pub lost_comments: Seq<Seq<char>>,
    pub find_dialog: bool,
    pub find_target: Seq<char>,
    pub find_syntax: Seq<char>,
    pub shortcuts: bool,
    pub save_reminder: bool,
    pub cargo_guide: bool,
    pub pending_exit: bool,
    pub force_close: bool,
    pub tab: PreviewTab,
    pub drag_template: Option<usize>,
}

impl View for EditorApp {
    type V = Session;

    open spec fn view(&self) -> Session {
        Session {
            content: self.editor_content@,
            saved: self.saved_content@,
            file: text::opt_view(self.current_file),
            name: self.file_name_input@,
            running: self.running,
            status: self.status@,
            diagnostics: text::views(self.diagnostics@),
            welcome: self.show_welcome,
            steps: self.history@,
            blueprint_mode: self.blueprint_mode,
            blueprint: self.blueprint@,
            layout_done: text::views(self.layout_done@),
            translation_mode: self.translation_mode,
            language: self.translation_target_lang@,
            entries: translation::entry_views(self.translatable_lines@),
            comment_warning: self.show_comment_warning,
            lost_comments: text::views(self.comment_warning_list@),
            find_dialog: self.show_find_replace_dialog,
            find_target: self.find_replace_target@,
            find_syntax: self.find_replace_syntax@,
            shortcuts: self.show_shortcuts,
            save_reminder: self.show_save_reminder,
            cargo_guide: self.show_cargo_guide,
            pending_exit: self.pending_exit,
            force_close: self.force_close,
            tab: self.preview_tab,
            drag_template: self.drag_template,
        }
    }
}

/// The editor when it starts: without a script, on the welcome page.
pub open spec fn started(layout_done: Seq<Seq<char>>) -> Session {
    Session {
        content: Seq::empty(),
        saved: Seq::empty(),
        file: None,
        name: "untitled.akrs"@,
        running: false,
        status: "就绪"@,
        diagnostics: Seq::empty(),
        welcome: true,
        steps: history::empty_history(),
        blueprint_mode: false,
        blueprint: blueprint::empty_canvas(),
        layout_done,
        translation_mode: false,
        language: "en-US"@,
        entries: Seq::empty(),
        comment_warning: false,
        lost_comments: Seq::empty(),
        find_dialog: false,
        find_target: Seq::empty(),
        find_syntax: Seq::empty(),
        shortcuts: false,
        save_reminder: false,
        cargo_guide: false,
        pending_exit: false,
        force_close: false,
        tab: PreviewTab::Script,
        drag_template: None,
    }
}

/// Whether a text is blank.
pub open spec fn is_blank(s: Seq<char>) -> bool {
    slices::trim(s).len() == 0
}

/// Whether a text is blank.
pub fn blank(s: &str) -> (r: bool)
    ensures
        r == is_blank(s@),
{
    let cs: Vec<char> = to_chars(s);
    trim_of(cs.as_slice()).len() == 0
}

impl EditorApp {
    /// The editor as it starts. `layout_done` lists the files whose blueprint
    /// has been laid out before.
    pub fn new(layout_done: Vec<String>) -> (r: Self)
        ensures
            r@ == started(text::views(layout_done@)),
    {
        let r: EditorApp = EditorApp {
            editor_content: String::new(),
            saved_content: String::new(),
            current_file: None,
            file_name_input: "untitled.akrs".to_owned(),
            running: false,
            status: "就绪".to_owned(),
            diagnostics: Vec::new(),
            show_welcome: true,
            history: History::new(),
            blueprint_mode: false,
            blueprint: BlueprintState::default(),
            layout_done,
            translation_mode: false,
            translation_target_lang: "en-US".to_owned(),
            translatable_lines: Vec::new(),
            show_comment_warning: false,
            comment_warning_list: Vec::new(),
            show_find_replace_dialog: false,
            find_replace_target: String::new(),
            find_replace_syntax: String::new(),
            show_shortcuts: false,
            show_save_reminder: false,
            show_cargo_guide: false,
            pending_exit: false,
            force_close: false,
            preview_tab: PreviewTab::Script,
            drag_template: None,
        };
        proof {
            assert(r@.content =~= Seq::empty());
            assert(r@.saved =~= Seq::empty());
            assert(r@.diagnostics =~= Seq::empty());
            assert(r@.entries =~= Seq::empty());
            assert(r@.lost_comments =~= Seq::empty());
            assert(r@.find_target =~= Seq::empty());
            assert(r@.find_syntax =~= Seq::empty());
        }
        r
    }
}

impl Default for EditorApp {
    fn default() -> (r: Self)
        ensures
            r@ == started(Seq::empty()),
    {
        let none: Vec<String> = Vec::new();
        assert(text::views(none@) =~= Seq::empty());
        EditorApp::new(none)
    }
}

// ---------------------------------------------------------------------------
// Scripts
// ---------------------------------------------------------------------------

/// The editor with another script, which is as it was saved.
pub open spec fn with_script(
    e: Session,
    content: Seq<char>,
    file: Option<Seq<char>>,
    name: Seq<char>,
    status: Seq<char>,
) -> Session {
    Session {
        content,
        saved: content,
        file,
        name,
        running: false,
        diagnostics: Seq::empty(),
        welcome: false,
        steps: history::fresh(content, e.steps),
        status,
        ..e
    }
}

/// The editor with a new script.
pub open spec fn new_script(e: Session) -> Session {
    with_script(e, NEW_TEMPLATE@, None, "untitled.akrs"@, "新文件（未保存）"@)
}

impl EditorApp {
    fn set_script(&mut self, content: &str, file: Option<String>, name: String, status: String)
        ensures
            final(self)@ == with_script(
                old(self)@,
                content@,
                text::opt_view(file),
                name@,
                status@,
            ),
    {
        self.editor_content = content.to_owned();
        self.saved_content = content.to_owned();
        self.current_file = file;
        self.file_name_input = name;
        self.running = false;
        self.diagnostics = Vec::new();
        self.show_welcome = false;
        self.history.reset_history(content);
        self.status = status;
        assert(self@.diagnostics =~= Seq::empty());
    }

    /// Begins a new script.
    pub fn new_file(&mut self)
        ensures
            final(self)@ == new_script(old(self)@),
    {
        self.set_script(
            NEW_TEMPLATE,
            None,
            "untitled.akrs".to_owned(),
            "新文件（未保存）".to_owned(),
        );
    }

    /// Loads the sample script.
    pub fn load_sample(&mut self)
        ensures
            final(self)@ == with_script(
                old(self)@,
                SAMPLE_SCRIPT@,
                None,
                "sample.akrs"@,
                "已加载示例剧本"@,
            ),
    {
        self.set_script(
            SAMPLE_SCRIPT,
            None,
            "sample.akrs".to_owned(),
            "已加载示例剧本".to_owned(),
        );
    }

    /// Takes over a script that the host has read from a file.
    pub fn file_opened(&mut self, path: String, name: &str, content: &str)
        ensures
            final(self)@ == with_script(
                old(self)@,
                content@,
                Some(path@),
                name@,
                "已打开 "@ + name@,
            ),
    {
        self.set_script(content, Some(path), name.to_owned(), concat2("已打开 ", name));
    }

    /// Reports that a file could not be read.
    pub fn open_failed(&mut self, error: &str)
        ensures
            final(self)@ == (Session { status: "打开失败："@ + error@, ..old(self)@ }),
    {
        self.status = concat2("打开失败：", error);
    }

    /// Whether there are changes that have not been saved.
    pub fn is_dirty(&self) -> (r: bool)
        ensures
            r == has_changes(self@),
    {
        !str_eq(self.editor_content.as_str(), self.saved_content.as_str())
    }
}

// ---------------------------------------------------------------------------
// Saving and leaving
// ---------------------------------------------------------------------------

/// The editor with a warning about comments that the script could not take over.
pub open spec fn with_lost(e: Session, lost: Seq<Seq<char>>) -> Session {
    if lost.len() > 0 {
        Session { lost_comments: lost, comment_warning: true, ..e }
    } else {
        e
    }
}

/// The editor with the script of its blueprint.
pub open spec fn with_blueprint_script(e: Session) -> Session {
    with_lost(
        Session { content: blueprint_script::script_text(e.blueprint), ..e },
        blueprint_script::orphans(e.blueprint, e.blueprint.nodes),
    )
}

/// The status after a file was saved. Where a project is open and its main
/// script is another file, that is told.
pub open spec fn saved_status(name: Seq<char>, main_script: Option<Seq<char>>) -> Seq<char> {
    let done = "已保存 "@ + name;
    match main_script {
        Some(main) => if main != name {
            done + " ｜ 提示：当前文件不是 project.json 的 main_script（"@ + main
                + "），直接启动游戏将运行 "@ + main + "；编辑器预览不受影响"@
        } else {
            done
        },
        None => done,
    }
}

/// The editor that is about to save: in blueprint mode the script is that of the
/// blueprint.
pub open spec fn before_save(e: Session) -> Session {
    if e.blueprint_mode {
        with_blueprint_script(e)
    } else {
        e
    }
}

/// The editor after its script was saved.
pub open spec fn after_save(
    e: Session,
    path: Seq<char>,
    name: Seq<char>,
    main_script: Option<Seq<char>>,
) -> Session {
    Session {
        saved: e.content,
        file: Some(path),
        name,
        status: saved_status(name, main_script),
        ..e
    }
}

/// Whether there are changes that have not been saved.
pub open spec fn has_changes(e: Session) -> bool {
    e.content != e.saved
}

impl EditorApp {
    /// Warns about comments that the script could not take over.
    pub fn warn_lost(&mut self, lost: Vec<String>)
        ensures
            final(self)@ == with_lost(old(self)@, text::views(lost@)),
    {
        assert(text::views(lost@).len() == lost@.len());
        if lost.len() > 0 {
            self.comment_warning_list = lost;
            self.show_comment_warning = true;
        }
    }

    /// Takes the script over from the blueprint.
    pub fn export_blueprint(&mut self)
        ensures
            final(self)@ == with_blueprint_script(old(self)@),
    {
        let lost: Vec<String> = self.blueprint.orphan_comments();
        self.editor_content = self.blueprint.to_script();
        self.warn_lost(lost);
    }

    /// Prepares saving. The result is the name of the file that the script is to
    /// be written to; in blueprint mode the script is taken over first.
    pub fn begin_save(&mut self) -> (name: String)
        ensures
            name@ == fs_util::file_name(old(self)@.name),
            final(self)@ == before_save(old(self)@),
    {
        if self.blueprint_mode {
            self.export_blueprint();
        }
        sanitize_filename(self.file_name_input.as_str())
    }

    /// Reports that the script was saved. `main_script` is that of the project,
    /// if one is open.
    pub fn finish_save(&mut self, path: String, name: &str, main_script: &Option<String>)
        ensures
            final(self)@ == after_save(
                old(self)@,
                path@,
                name@,
                text::opt_view(*main_script),
            ),
    {
        self.current_file = Some(path);
        self.file_name_input = name.to_owned();
        self.saved_content = self.editor_content.clone();
        let mut status: String = concat2("已保存 ", name);
        match main_script {
            Some(main) => {
                if !str_eq(main.as_str(), name) {
                    status.append(" ｜ 提示：当前文件不是 project.json 的 main_script（");
                    status.append(main.as_str());
                    status.append("），直接启动游戏将运行 ");
                    status.append(main.as_str());
                    status.append("；编辑器预览不受影响");
                }
            },
            None => {},
        }
        self.status = status;
    }

    /// Reports that the script could not be saved.
    pub fn save_failed(&mut self, name: &str, error: &str)
        ensures
            final(self)@ == (Session {
                status: "保存失败："@ + name@ + " - "@ + error@,
                ..old(self)@
            }),
    {
        let mut status: String = concat3("保存失败：", name, " - ");
        status.append(error);
        self.status = status;
    }
}

/// The answers to the question about unsaved changes.
#[derive(Debug, Clone, Copy, PartialEq, Eq, Structural)]
pub enum ExitChoice {
    Save,
    Discard,
    Cancel,
}

/// What the host does about an answer.
#[derive(Debug, Clone, Copy, PartialEq, Eq, Structural)]
pub enum ExitAction {
    /// Save the script, and then ask `exit_after_save`.
    Save,
    Close,
    Stay,
}

impl EditorApp {
    /// The window is to be closed. The result tells whether it may: with unsaved
    /// changes the question about them is opened instead, unless it has been
    /// answered.
    pub fn on_close_event(&mut self) -> (r: bool)
        ensures
            r == (old(self)@.force_close || old(self)@.content == old(self)@.saved),
            final(self)@ == (Session {
                pending_exit: old(self)@.pending_exit || !r,
                ..old(self)@
            }),
    {
        if self.force_close {
            return true;
        }
        if self.is_dirty() {
            self.pending_exit = true;
            false
        } else {
            true
        }
    }

    /// Answers the question about unsaved changes.
    pub fn answer_exit(&mut self, choice: ExitChoice) -> (r: ExitAction)
        ensures
            match choice {
                ExitChoice::Save => r == ExitAction::Save && final(self)@ == old(self)@,
                ExitChoice::Discard => r == ExitAction::Close && final(self)@ == (Session {
                    pending_exit: false,
                    force_close: true,
                    ..old(self)@
                }),
                ExitChoice::Cancel => r == ExitAction::Stay && final(self)@ == (Session {
                    pending_exit: false,
                    force_close: false,
                    ..old(self)@
                }),
            },
    {
        match choice {
            ExitChoice::Save => ExitAction::Save,
            ExitChoice::Discard => {
                self.pending_exit = false;
                self.force_close = true;
                ExitAction::Close
            },
            ExitChoice::Cancel => {
                self.pending_exit = false;
                self.force_close = false;
                ExitAction::Stay
            },
        }
    }

    /// Goes on after saving on exit. Where the script is saved now, the window
    /// may be closed.
    pub fn exit_after_save(&mut self) -> (r: bool)
        ensures
            r == (old(self)@.content == old(self)@.saved),
            final(self)@ == (if r {
                Session { pending_exit: false, force_close: true, ..old(self)@ }
            } else {
                old(self)@
            }),
    {
        if self.is_dirty() {
            return false;
        }
        self.pending_exit = false;
        self.force_close = true;
        true
    }
}

// ---------------------------------------------------------------------------
// Undoing and replacing
// ---------------------------------------------------------------------------

/// The editor after undoing.
pub open spec fn after_undo(e: Session) -> Session {
    let (steps, shown) = history::undone(e.steps, e.content);
    match shown {
        Some(content) => Session { steps, content, status: "已撤销"@, ..e },
        None => Session { steps, status: "没有可撤销的操作"@, ..e },
    }
}

/// The editor after redoing.
pub open spec fn after_redo(e: Session) -> Session {
    let (steps, shown) = history::redone(e.steps);
    match shown {
        Some(content) => Session { steps, content, status: "已重做"@, ..e },
        None => Session { steps, status: "没有可重做的操作"@, ..e },
    }
}

/// A text from `i` on with every `t` replaced by `r`, from left to right.
pub open spec fn replaced_from(s: Seq<char>, t: Seq<char>, r: Seq<char>, i: int) -> Seq<char>
    decreases s.len() - i,
{
    match text::find_from(s, t, i) {
        Some(k) => if t.len() > 0 && 0 <= i <= k && k + t.len() <= s.len() {
            s.subrange(i, k) + r + replaced_from(s, t, r, k + t.len())
        } else {
            s.subrange(i, s.len() as int)
        },
        None => s.subrange(i, s.len() as int),
    }
}

/// A text with every `t` replaced by `r`.
pub open spec fn replaced(s: Seq<char>, t: Seq<char>, r: Seq<char>) -> Seq<char> {
    replaced_from(s, t, r, 0)
}

fn replace_all(s: &str, t: &str, r: &str) -> (out: String)
    requires
        t@.len() > 0,
    ensures
        out@ == replaced(s@, t@, r@),
{
    let cs: Vec<char> = to_chars(s);
    let ts: Vec<char> = to_chars(t);
    let rs: Vec<char> = to_chars(r);
    let n: usize = cs.len();
    let mut out: Vec<char> = Vec::new();
    let mut i: usize = 0;
    assert(out@ + replaced_from(s@, t@, r@, 0) =~= replaced(s@, t@, r@));
    loop
        invariant
            i <= n,
            n == cs@.len(),
            cs@ == s@,
            ts@ == t@,
            rs@ == r@,
            t@.len() > 0,
            out@ + replaced_from(s@, t@, r@, i as int) == replaced(s@, t@, r@),
        decreases n - i,
    {
        let ghost before = out@;
        match find_chars(cs.as_slice(), ts.as_slice(), i) {
            Some(k) => {
                slices::push_chars(&mut out, vstd::slice::slice_subrange(cs.as_slice(), i, k));
                slices::push_chars(&mut out, rs.as_slice());
                proof {
                    let rest = replaced_from(s@, t@, r@, k + t@.len());
                    assert(before + (s@.subrange(i as int, k as int) + r@ + rest) =~= out@ + rest);
                }
                i = k + ts.len();
            },
            None => {
                slices::push_chars(&mut out, vstd::slice::slice_subrange(cs.as_slice(), i, n));
                return from_chars(out.as_slice());
            },
        }
    }
}

impl EditorApp {
    /// Takes the last step back.
    pub fn undo(&mut self)
        ensures
            final(self)@ == after_undo(old(self)@),
    {
        match self.history.undo(self.editor_content.as_str()) {
            Some(content) => {
                self.editor_content = content;
                self.status = "已撤销".to_owned();
            },
            None => {
                self.status = "没有可撤销的操作".to_owned();
            },
        }
    }

    /// Does the last step again that was taken back.
    pub fn redo(&mut self)
        ensures
            final(self)@ == after_redo(old(self)@),
    {
        match self.history.redo() {
            Some(content) => {
                self.editor_content = content;
                self.status = "已重做".to_owned();
            },
            None => {
                self.status = "没有可重做的操作".to_owned();
            },
        }
    }

    /// Looks at the text once a frame, so that edits become steps. `now` is the
    /// time in milliseconds.
    pub fn track_edits(&mut self, now: u64)
        ensures
            final(self)@ == (Session {
                steps: history::looked_at(old(self)@.steps, old(self)@.content, now),
                ..old(self)@
            }),
    {
        self.history.track(self.editor_content.as_str(), now);
    }

    /// Replaces a text everywhere in the script. The result tells whether it was
    /// there; an empty text never is.
    pub fn find_and_replace(&mut self, target: &str, replacement: &str) -> (r: bool)
        ensures
            r == (target@.len() > 0 && text::contains(old(self)@.content, target@)),
            final(self)@ == (if r {
                Session {
                    content: replaced(old(self)@.content, target@, replacement@),
                    ..old(self)@
                }
            } else {
                old(self)@
            }),
    {
        let ts: Vec<char> = to_chars(target);
        if ts.len() == 0 || !text::contains_str(self.editor_content.as_str(), target) {
            return false;
        }
        self.editor_content = replace_all(self.editor_content.as_str(), target, replacement);
        true
    }
}

} // verus!
