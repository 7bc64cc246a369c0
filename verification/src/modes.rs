//! The modes of the editor: text, blueprint and translation.

use crate::blueprint;
use crate::blueprint_script;
use crate::editor;
use crate::editor::{blank, EditorApp};
use crate::layout;
use crate::text::{concat2, has_string, to_chars};
use crate::translation;
use crate::translation::extract_translatable_lines;
use vstd::prelude::*;

verus! {

/// The editor after leaving blueprint mode: the nodes have become the script,
/// where there are any.
pub open spec fn left_blueprint(e: editor::Session) -> editor::Session {
    let script = blueprint_script::script_text(e.blueprint);
    editor::with_lost(
        editor::Session {
            content: if script.len() > 0 {
                script
            } else {
                e.content
            },
            blueprint_mode: false,
            status: "已切换到文本模式"@,
            ..e
        },
        blueprint_script::orphans(e.blueprint, e.blueprint.nodes),
    )
}

/// A canvas with its nodes laid out.
pub open spec fn arranged(b: blueprint::Blueprint) -> blueprint::Blueprint {
    blueprint::Blueprint { nodes: layout::laid_out(b.nodes, b.collapse_comments), ..b }
}

/// The editor after entering blueprint mode. `key` names the current file.
pub open spec fn entered_blueprint(e: editor::Session, key: Seq<char>) -> editor::Session {
    let made = blueprint_script::blueprint_of(e.blueprint, e.content);
    let on = editor::Session { blueprint_mode: true, status: "已切换到蓝图模式"@, ..e };
    if e.file is None {
        editor::Session { blueprint: arranged(made), ..on }
    } else if e.layout_done.contains(key) {
        editor::Session { blueprint: made, ..on }
    } else {
        editor::Session {
            blueprint: arranged(made),
            layout_done: e.layout_done.push(key),
            status: "已切换到蓝图模式（首次自动整理布局）"@,
            ..on
        }
    }
}

/// The editor after blueprint mode was switched on or off. Without a script it
/// cannot be switched on.
pub open spec fn after_blueprint_toggle(e: editor::Session, key: Seq<char>) -> editor::Session {
    if e.blueprint_mode {
        left_blueprint(e)
    } else if editor::is_blank(e.content) {
        editor::Session { status: "请先打开或新建剧本再进入蓝图模式"@, ..e }
    } else {
        entered_blueprint(e, key)
    }
}

/// The editor after translation mode was switched on or off.
pub open spec fn after_translation_toggle(e: editor::Session) -> editor::Session {
    if e.translation_mode {
        editor::Session { translation_mode: false, status: "已退出对照翻译模式"@, ..e }
    } else {
        editor::Session {
            translation_mode: true,
            entries: translation::texts_of(e.content),
            status: "对照翻译模式："@ + e.language,
            ..e
        }
    }
}

impl EditorApp {
    fn leave_blueprint(&mut self)
        ensures
            final(self)@ == left_blueprint(old(self)@),
    {
        let lost: Vec<String> = self.blueprint.orphan_comments();
        let script: String = self.blueprint.to_script();
        let cs: Vec<char> = to_chars(script.as_str());
        if cs.len() > 0 {
            self.editor_content = script;
        }
        self.blueprint_mode = false;
        self.status = "已切换到文本模式".to_owned();
        self.warn_lost(lost);
    }

    fn load_blueprint(&mut self)
        ensures
            final(self)@ == (editor::Session {
                blueprint: blueprint_script::blueprint_of(
                    old(self)@.blueprint,
                    old(self)@.content,
                ),
                ..old(self)@
            }),
    {
        self.blueprint.from_script(self.editor_content.as_str());
    }

    fn arrange_blueprint(&mut self)
        ensures
            final(self)@ == (editor::Session {
                blueprint: arranged(old(self)@.blueprint),
                ..old(self)@
            }),
    {
        self.blueprint.auto_layout();
    }

    fn mark_done(&mut self, key: &str)
        ensures
            final(self)@ == (editor::Session {
                layout_done: old(self)@.layout_done.push(key@),
                ..old(self)@
            }),
    {
        let ghost done = self@.layout_done;
        self.layout_done.push(key.to_owned());
        assert(self@.layout_done =~= done.push(key@));
    }

    fn set_mode_status(&mut self, status: &str)
        ensures
            final(self)@ == (editor::Session {
                blueprint_mode: true,
                status: status@,
                ..old(self)@
            }),
    {
        self.blueprint_mode = true;
        self.status = status.to_owned();
    }

    fn enter_blueprint(&mut self, key: &str) -> (changed: bool)
        ensures
            final(self)@ == entered_blueprint(old(self)@, key@),
            changed == (old(self)@.file is Some && !old(self)@.layout_done.contains(key@)),
    {
        let known: bool = has_string(&self.layout_done, key);
        self.load_blueprint();
        if self.current_file.is_none() {
            self.arrange_blueprint();
            self.set_mode_status("已切换到蓝图模式");
            false
        } else if known {
            self.set_mode_status("已切换到蓝图模式");
            false
        } else {
            self.arrange_blueprint();
            self.mark_done(key);
            self.set_mode_status("已切换到蓝图模式（首次自动整理布局）");
            true
        }
    }

    /// Switches blueprint mode on or off. On the way in the script becomes nodes
    /// and links, and is laid out where its file has not been before; on the way
    /// out the nodes become the script again. `key` names the current file. The
    /// result tells whether the list of files that are laid out has changed.
    pub fn toggle_blueprint_mode(&mut self, key: &str) -> (changed: bool)
        ensures
            final(self)@ == after_blueprint_toggle(old(self)@, key@),
            changed == (!old(self)@.blueprint_mode && !editor::is_blank(old(self)@.content) && old(
                self,
            )@.file is Some && !old(self)@.layout_done.contains(key@)),
    {
        if self.blueprint_mode {
            self.leave_blueprint();
            false
        } else if blank(self.editor_content.as_str()) {
            self.status = "请先打开或新建剧本再进入蓝图模式".to_owned();
            false
        } else {
            self.enter_blueprint(key)
        }
    }

    /// Switches translation mode on or off. On the way in the texts of the
    /// script are listed.
    pub fn toggle_translation_mode(&mut self)
        ensures
            final(self)@ == after_translation_toggle(old(self)@),
    {
        if self.translation_mode {
            self.translation_mode = false;
            self.status = "已退出对照翻译模式".to_owned();
        } else {
            self.translation_mode = true;
            self.translatable_lines = extract_translatable_lines(self.editor_content.as_str());
            self.status = concat2("对照翻译模式：", self.translation_target_lang.as_str());
        }
    }
}

} // verus!
