//! What the buttons and shortcuts of the editor do to the script and the
//! blueprint.

use crate::blueprint;
use crate::blueprint::{BlueprintState, NodeKind, Spot};
use crate::commands::Command;
use crate::editor;
use crate::editor::{blank, EditorApp};
use crate::fs_util;
use crate::fs_util::sanitize_filename;
use crate::graph;
use crate::layout;
use crate::modes;
use crate::text::concat2;
use vstd::prelude::*;

verus! {

// ---------------------------------------------------------------------------
// Adding lines and nodes
// ---------------------------------------------------------------------------

/// The editor with a line behind the script.
pub open spec fn with_text_line(
    e: editor::Session,
    line: Seq<char>,
    status: Seq<char>,
) -> editor::Session {
    editor::Session { content: e.content + line + "\n"@, status, ..e }
}

/// The editor with a node on the canvas.
pub open spec fn with_line_node(
    e: editor::Session,
    line: Seq<char>,
    pos: Spot,
    status: Seq<char>,
) -> editor::Session {
    editor::Session {
        blueprint: graph::with_node(e.blueprint, blueprint::kind_of(line), pos, line),
        status,
        ..e
    }
}

/// The editor with a line added: as a node in blueprint mode, and else behind
/// the script.
pub open spec fn with_added(
    e: editor::Session,
    line: Seq<char>,
    node_status: Seq<char>,
    text_status: Seq<char>,
) -> editor::Session {
    if e.blueprint_mode {
        with_line_node(e, line, layout::next_place(e.blueprint.nodes), node_status)
    } else {
        with_text_line(e, line, text_status)
    }
}

/// Whether a node can be added.
pub open spec fn has_room(e: editor::Session) -> bool {
    e.blueprint.next_id < usize::MAX
}

impl EditorApp {
    fn push_line(&mut self, line: &str, status: String)
        ensures
            final(self)@ == with_text_line(old(self)@, line@, status@),
    {
        self.editor_content.append(line);
        self.editor_content.append("\n");
        self.status = status;
    }

    pub(crate) fn push_node(&mut self, line: &str, pos: Spot, status: String)
        requires
            has_room(old(self)@),
        ensures
            final(self)@ == with_line_node(old(self)@, line@, pos, status@),
    {
        let kind: NodeKind = BlueprintState::detect_kind(line);
        let _id: usize = self.blueprint.add_node(kind, pos, line.to_owned());
        self.status = status;
    }

    /// Adds a line: as a node in blueprint mode, and else behind the script.
    pub fn add_line(&mut self, line: &str, node_status: String, text_status: String)
        requires
            old(self)@.blueprint_mode ==> has_room(old(self)@),
        ensures
            final(self)@ == with_added(old(self)@, line@, node_status@, text_status@),
    {
        if self.blueprint_mode {
            let pos: Spot = self.blueprint.next_placement_pos();
            self.push_node(line, pos, node_status);
        } else {
            self.push_line(line, text_status);
        }
    }

    /// Inserts a line from the menu.
    pub fn insert_syntax(&mut self, syntax: &str)
        requires
            old(self)@.blueprint_mode ==> has_room(old(self)@),
        ensures
            final(self)@ == with_added(
                old(self)@,
                syntax@,
                "已添加节点："@ + syntax@,
                "已插入："@ + syntax@,
            ),
    {
        let node_status: String = concat2("已添加节点：", syntax);
        let text_status: String = concat2("已插入：", syntax);
        self.add_line(syntax, node_status, text_status);
    }
}

// ---------------------------------------------------------------------------
// Commands
// ---------------------------------------------------------------------------

/// What a command asks the host for.
#[derive(Debug)]
pub enum Request<S = String> {
    Nothing,
    /// Read the file of this name.
    Open(S),
    /// Save the script.
    Save,
    /// Run the script.
    Run,
}

impl View for Request<String> {
    type V = Request<Seq<char>>;

    open spec fn view(&self) -> Request<Seq<char>> {
        match *self {
            Request::Nothing => Request::Nothing,
            Request::Open(name) => Request::Open(name@),
            Request::Save => Request::Save,
            Request::Run => Request::Run,
        }
    }
}

/// The editor after a line was inserted by a shortcut. Without a script nothing
/// is inserted.
pub open spec fn after_insert(
    e: editor::Session,
    line: Seq<char>,
    status: Seq<char>,
) -> editor::Session {
    if !editor::is_blank(e.content) || e.blueprint_mode {
        with_text_line(e, line, status)
    } else {
        e
    }
}

/// The editor after the shortcut for blueprint mode: translation mode is left
/// first.
pub open spec fn after_blueprint_key(e: editor::Session, key: Seq<char>) -> editor::Session {
    modes::after_blueprint_toggle(
        if e.translation_mode {
            modes::after_translation_toggle(e)
        } else {
            e
        },
        key,
    )
}

/// The editor after the shortcut for translation mode: blueprint mode is left
/// first. Without a script it can only be left.
pub open spec fn after_translation_key(e: editor::Session, key: Seq<char>) -> editor::Session {
    if e.translation_mode {
        modes::after_translation_toggle(e)
    } else if editor::is_blank(e.content) {
        e
    } else {
        modes::after_translation_toggle(
            if e.blueprint_mode {
                modes::after_blueprint_toggle(e, key)
            } else {
                e
            },
        )
    }
}

/// The editor after opening was asked for on the welcome page.
pub open spec fn after_open_key(e: editor::Session) -> editor::Session {
    if e.welcome {
        editor::Session { welcome: false, status: "请从左侧文件列表选择文件"@, ..e }
    } else {
        e
    }
}

/// The editor after a command.
pub open spec fn after_command(e: editor::Session, c: Command, key: Seq<char>) -> editor::Session {
    match c {
        Command::Undo => editor::after_undo(e),
        Command::Redo => editor::after_redo(e),
        Command::NewFile => editor::new_script(e),
        Command::Open => after_open_key(e),
        Command::Save | Command::Run => e,
        Command::InsertEntrance => after_insert(
            e,
            "+ 角色"@,
            "已插入：+ 角色（立绘上场）"@,
        ),
        Command::InsertExit => after_insert(e, "- 角色"@, "已插入：- 角色（立绘下场）"@),
        Command::InsertSection => after_insert(
            e,
            "# 章节"@,
            "已插入：# 章节（章节标题）"@,
        ),
        Command::InsertBackground => after_insert(
            e,
            "@bg 背景"@,
            "已插入：@bg 背景（背景指令）"@,
        ),
        Command::Help => editor::Session { shortcuts: true, ..e },
        Command::ToggleBlueprint => after_blueprint_key(e, key),
        Command::ToggleTranslation => after_translation_key(e, key),
    }
}

/// What a command asks the host for. A blank script is neither saved nor run.
pub open spec fn request_of(e: editor::Session, c: Command) -> Request<Seq<char>> {
    match c {
        Command::Open => if e.welcome {
            Request::Nothing
        } else {
            Request::Open(fs_util::file_name(e.name))
        },
        Command::Save => if editor::is_blank(e.content) {
            Request::Nothing
        } else {
            Request::Save
        },
        Command::Run => if editor::is_blank(e.content) {
            Request::Nothing
        } else {
            Request::Run
        },
        _ => Request::Nothing,
    }
}

impl EditorApp {
    fn insert_line(&mut self, line: &str, status: &str)
        ensures
            final(self)@ == after_insert(old(self)@, line@, status@),
    {
        if !blank(self.editor_content.as_str()) || self.blueprint_mode {
            self.push_line(line, status.to_owned());
        }
    }

    fn blueprint_key(&mut self, key: &str)
        ensures
            final(self)@ == after_blueprint_key(old(self)@, key@),
    {
        if self.translation_mode {
            self.toggle_translation_mode();
        }
        let _changed: bool = self.toggle_blueprint_mode(key);
    }

    fn translation_key(&mut self, key: &str)
        ensures
            final(self)@ == after_translation_key(old(self)@, key@),
    {
        if self.translation_mode {
            self.toggle_translation_mode();
        } else if !blank(self.editor_content.as_str()) {
            if self.blueprint_mode {
                let _changed: bool = self.toggle_blueprint_mode(key);
            }
            self.toggle_translation_mode();
        }
    }

    fn open_key(&mut self) -> (r: Request)
        ensures
            final(self)@ == after_open_key(old(self)@),
            r@ == request_of(old(self)@, Command::Open),
    {
        if self.show_welcome {
            self.show_welcome = false;
            self.status = "请从左侧文件列表选择文件".to_owned();
            Request::Nothing
        } else {
            Request::Open(sanitize_filename(self.file_name_input.as_str()))
        }
    }

    /// Carries out a command. `key` names the current file. The result is what
    /// the host is asked for.
    pub fn perform(&mut self, c: Command, key: &str) -> (r: Request)
        ensures
            final(self)@ == after_command(old(self)@, c, key@),
            r@ == request_of(old(self)@, c),
    {
        match c {
            Command::Undo => self.undo(),
            Command::Redo => self.redo(),
            Command::NewFile => self.new_file(),
            Command::Open => {
                return self.open_key();
            },
            Command::Save => {
                return if blank(self.editor_content.as_str()) {
                    Request::Nothing
                } else {
                    Request::Save
                };
            },
            Command::Run => {
                return if blank(self.editor_content.as_str()) {
                    Request::Nothing
                } else {
                    Request::Run
                };
            },
            Command::InsertEntrance => self.insert_line(
                "+ 角色",
                "已插入：+ 角色（立绘上场）",
            ),
            Command::InsertExit => self.insert_line(
                "- 角色",
                "已插入：- 角色（立绘下场）",
            ),
            Command::InsertSection => self.insert_line(
                "# 章节",
                "已插入：# 章节（章节标题）",
            ),
            Command::InsertBackground => self.insert_line(
                "@bg 背景",
                "已插入：@bg 背景（背景指令）",
            ),
            Command::Help => {
                self.show_shortcuts = true;
            },
            Command::ToggleBlueprint => self.blueprint_key(key),
            Command::ToggleTranslation => self.translation_key(key),
        }
        Request::Nothing
    }
}

/// Blueprint mode and translation mode are never switched on together by the
/// shortcuts.
pub proof fn law_one_mode(e: editor::Session, c: Command, key: Seq<char>)
    requires
        !(e.blueprint_mode && e.translation_mode),
    ensures
        !(after_command(e, c, key).blueprint_mode && after_command(e, c, key).translation_mode),
{
}

} // verus!
