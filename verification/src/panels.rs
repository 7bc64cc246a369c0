//! What the panels around the script do: the previews, the canvas' toolbar and
//! menu, the blocks, and the dialog that replaces a text.

use crate::actions;
use crate::blueprint;
use crate::blueprint::{BlueprintState, NodeKind, Spot};
use crate::blueprint_script;
use crate::editor;
use crate::editor::{blank, EditorApp, PreviewTab};
use crate::graph;
use crate::modes;
use crate::parse;
use crate::parse::{parse_command_line, parse_sprite_line, EnginePhase, ParsedSpriteLine};
use crate::slices;
use crate::slices::find_char;
use crate::templates;
use crate::templates::node_template;
use crate::text;
use crate::text::{concat2, concat3, concat5, from_chars, str_eq, to_chars};
use vstd::prelude::*;
use vstd::slice::slice_subrange;

verus! {

// ---------------------------------------------------------------------------
// Replacing
// ---------------------------------------------------------------------------

/// The editor after a line was to take the place of another: in blueprint mode
/// that of the selected node, and else the dialog asks for the text.
pub open spec fn after_replace_request(e: editor::Session, line: Seq<char>) -> editor::Session {
    if e.blueprint_mode {
        match graph::with_selected_text(e.blueprint, line) {
            Some(b) => editor::Session { blueprint: b, status: "已替换选中节点文本"@, ..e },
            None => editor::Session { status: "请先选中一个节点再替换"@, ..e },
        }
    } else {
        editor::Session { find_syntax: line, find_dialog: true, ..e }
    }
}

/// The editor with the dialog closed.
pub open spec fn dialog_closed(e: editor::Session) -> editor::Session {
    editor::Session {
        find_dialog: false,
        find_target: Seq::empty(),
        find_syntax: Seq::empty(),
        ..e
    }
}

/// The editor after the dialog was confirmed: the line stands wherever the text
/// stood, or behind the script where it did not occur.
pub open spec fn after_replace(e: editor::Session) -> editor::Session {
    dialog_closed(
        if e.find_target.len() > 0 && text::contains(e.content, e.find_target) {
            editor::Session {
                content: editor::replaced(e.content, e.find_target, e.find_syntax),
                status: "已将「"@ + e.find_target + "」替换为生成的语法"@,
                ..e
            }
        } else {
            actions::with_text_line(
                e,
                e.find_syntax,
                "未找到「"@ + e.find_target + "」，已追加到脚本末尾"@,
            )
        },
    )
}

impl EditorApp {
    /// Puts a line in the place of the selected node, or asks for the text that
    /// it is to replace.
    pub fn request_replace(&mut self, line: &str)
        ensures
            final(self)@ == after_replace_request(old(self)@, line@),
    {
        if self.blueprint_mode {
            if self.blueprint.replace_selected_text(line.to_owned()) {
                self.status = "已替换选中节点文本".to_owned();
            } else {
                self.status = "请先选中一个节点再替换".to_owned();
            }
        } else {
            self.find_replace_syntax = line.to_owned();
            self.show_find_replace_dialog = true;
        }
    }

    /// Closes the dialog.
    pub fn cancel_replace(&mut self)
        ensures
            final(self)@ == dialog_closed(old(self)@),
    {
        self.show_find_replace_dialog = false;
        self.find_replace_target = String::new();
        self.find_replace_syntax = String::new();
        assert(self.find_replace_target@ =~= Seq::<char>::empty());
        assert(self.find_replace_syntax@ =~= Seq::<char>::empty());
    }

    /// Carries out what the dialog asks for.
    pub fn confirm_replace(&mut self)
        ensures
            final(self)@ == after_replace(old(self)@),
    {
        let target: String = self.find_replace_target.clone();
        let line: String = self.find_replace_syntax.clone();
        if self.find_and_replace(target.as_str(), line.as_str()) {
            self.status = concat3("已将「", target.as_str(), "」替换为生成的语法");
        } else {
            self.editor_content.append(line.as_str());
            self.editor_content.append("\n");
            self.status = concat3("未找到「", target.as_str(), "」，已追加到脚本末尾");
        }
        self.cancel_replace();
    }

    /// Adds the line of a background. Without a background nothing becomes a
    /// node.
    pub fn add_background(&mut self, selected: &str, line: &str)
        requires
            old(self)@.blueprint_mode ==> actions::has_room(old(self)@),
        ensures
            final(self)@ == (if old(self)@.blueprint_mode && selected@.len() == 0 {
                editor::Session { status: "请先选择背景"@, ..old(self)@ }
            } else {
                actions::with_added(
                    old(self)@,
                    line@,
                    "已添加为蓝图节点"@,
                    "语法已追加到脚本末尾"@,
                )
            }),
    {
        let cs: Vec<char> = to_chars(selected);
        if self.blueprint_mode && cs.len() == 0 {
            self.status = "请先选择背景".to_owned();
        } else {
            self.add_line(
                line,
                "已添加为蓝图节点".to_owned(),
                "语法已追加到脚本末尾".to_owned(),
            );
        }
    }
}

// ---------------------------------------------------------------------------
// The canvas
// ---------------------------------------------------------------------------

/// What the toolbar and the menu of the canvas offer.
#[derive(Debug, Clone, Copy, PartialEq, Eq, Structural)]
pub enum CanvasAction {
    Import,
    Export,
    Arrange,
    Clear,
    /// Folds the comments away, or shows them again.
    ToggleComments,
    DeleteSelected,
}

/// The editor after an action on the canvas.
pub open spec fn after_canvas_action(e: editor::Session, a: CanvasAction) -> editor::Session {
    match a {
        CanvasAction::Import => editor::Session {
            blueprint: blueprint_script::blueprint_of(e.blueprint, e.content),
            status: "已从脚本导入蓝图"@,
            ..e
        },
        CanvasAction::Export => editor::with_lost(
            editor::Session {
                content: blueprint_script::script_text(e.blueprint),
                status: "已从蓝图生成脚本"@,
                ..e
            },
            blueprint_script::orphans(e.blueprint, e.blueprint.nodes),
        ),
        CanvasAction::Arrange => editor::Session {
            blueprint: modes::arranged(e.blueprint),
            status: "已整理布局"@,
            ..e
        },
        CanvasAction::Clear => editor::Session {
            blueprint: blueprint::Blueprint {
                nodes: Seq::empty(),
                links: Seq::empty(),
                selected: None,
                next_id: 0,
                ..e.blueprint
            },
            status: "已清空蓝图"@,
            ..e
        },
        CanvasAction::ToggleComments => editor::Session {
            blueprint: modes::arranged(
                blueprint::Blueprint {
                    collapse_comments: !e.blueprint.collapse_comments,
                    ..e.blueprint
                },
            ),
            ..e
        },
        CanvasAction::DeleteSelected => match e.blueprint.selected {
            Some(id) => editor::Session {
                blueprint: graph::without_node(e.blueprint, id),
                ..e
            },
            None => e,
        },
    }
}

/// The editor with the canvas' menu closed.
pub open spec fn menu_closed(e: editor::Session) -> editor::Session {
    editor::Session {
        blueprint: blueprint::Blueprint { context_menu_pos: None, ..e.blueprint },
        ..e
    }
}

/// The editor with the node of a template on the canvas.
pub open spec fn with_template(e: editor::Session, i: usize, at: Spot) -> editor::Session {
    match templates::template_at(i as int) {
        Some((label, _, text)) => actions::with_line_node(
            e,
            text,
            at,
            "已添加节点："@ + label,
        ),
        None => e,
    }
}

/// The editor after the dragged block was let go: over the canvas it becomes a
/// node there.
pub open spec fn after_drop(e: editor::Session, at: Spot, over_canvas: bool) -> editor::Session {
    let dropped = if over_canvas && e.drag_template is Some {
        with_template(e, e.drag_template->0, at)
    } else {
        e
    };
    editor::Session { drag_template: None, ..dropped }
}

impl EditorApp {
    fn import_nodes(&mut self)
        ensures
            final(self)@ == after_canvas_action(old(self)@, CanvasAction::Import),
    {
        self.blueprint.from_script(self.editor_content.as_str());
        self.status = "已从脚本导入蓝图".to_owned();
    }

    fn arrange_nodes(&mut self)
        ensures
            final(self)@ == after_canvas_action(old(self)@, CanvasAction::Arrange),
    {
        self.blueprint.auto_layout();
        self.status = "已整理布局".to_owned();
    }

    fn fold_comments(&mut self)
        ensures
            final(self)@ == after_canvas_action(old(self)@, CanvasAction::ToggleComments),
    {
        self.blueprint.toggle_comments();
    }

    fn export_nodes(&mut self)
        ensures
            final(self)@ == after_canvas_action(old(self)@, CanvasAction::Export),
    {
        let lost: Vec<String> = self.blueprint.orphan_comments();
        self.editor_content = self.blueprint.to_script();
        self.status = "已从蓝图生成脚本".to_owned();
        self.warn_lost(lost);
    }

    fn clear_canvas(&mut self)
        ensures
            final(self)@ == after_canvas_action(old(self)@, CanvasAction::Clear),
    {
        self.blueprint.clear();
        self.status = "已清空蓝图".to_owned();
    }

    fn delete_selected(&mut self)
        ensures
            final(self)@ == after_canvas_action(old(self)@, CanvasAction::DeleteSelected),
    {
        match self.blueprint.selected {
            Some(id) => self.blueprint.remove_node(id),
            None => {},
        }
    }

    /// Carries out an action of the toolbar.
    pub fn canvas_action(&mut self, a: CanvasAction)
        ensures
            final(self)@ == after_canvas_action(old(self)@, a),
    {
        match a {
            CanvasAction::Import => self.import_nodes(),
            CanvasAction::Export => self.export_nodes(),
            CanvasAction::Arrange => self.arrange_nodes(),
            CanvasAction::Clear => self.clear_canvas(),
            CanvasAction::ToggleComments => self.fold_comments(),
            CanvasAction::DeleteSelected => self.delete_selected(),
        }
    }

    /// Carries out an action of the menu and closes it.
    pub fn menu_action(&mut self, a: CanvasAction)
        ensures
            final(self)@ == menu_closed(after_canvas_action(old(self)@, a)),
    {
        self.canvas_action(a);
        self.blueprint.context_menu_pos = None;
    }

    /// Adds the node of a template where the menu is open, and closes it.
    pub fn menu_template(&mut self, i: usize, at: Spot)
        requires
            actions::has_room(old(self)@),
        ensures
            final(self)@ == menu_closed(
                match templates::template_at(i as int) {
                    Some((_, _, text)) => actions::with_line_node(
                        old(self)@,
                        text,
                        at,
                        old(self)@.status,
                    ),
                    None => old(self)@,
                },
            ),
    {
        match node_template(i) {
            Some(t) => {
                let kind: NodeKind = BlueprintState::detect_kind(t.text);
                let _id: usize = self.blueprint.add_node(kind, at, t.text.to_owned());
            },
            None => {},
        }
        self.blueprint.context_menu_pos = None;
    }

    fn place_template(&mut self, i: usize, at: Spot)
        requires
            actions::has_room(old(self)@),
        ensures
            final(self)@ == with_template(old(self)@, i, at),
    {
        match node_template(i) {
            Some(t) => self.push_node(t.text, at, concat2("已添加节点：", t.label)),
            None => {},
        }
    }

    /// Lets the dragged block go.
    pub fn drop_template(&mut self, at: Spot, over_canvas: bool)
        requires
            actions::has_room(old(self)@),
        ensures
            final(self)@ == after_drop(old(self)@, at, over_canvas),
    {
        if over_canvas {
            match self.drag_template {
                Some(i) => self.place_template(i, at),
                None => {},
            }
        }
        self.drag_template = None;
    }
}

// ---------------------------------------------------------------------------
// Jumping to a preview
// ---------------------------------------------------------------------------

/// The position behind the last line break before `i`, or the beginning.
pub open spec fn line_start(s: Seq<char>, i: int) -> int
    decreases i,
{
    if i <= 0 || i > s.len() {
        0
    } else if s[i - 1] == '\n' {
        i
    } else {
        line_start(s, i - 1)
    }
}

/// The line around a position; a position behind the end counts as the end.
pub open spec fn line_around(s: Seq<char>, at: int) -> Seq<char> {
    let i = if at < s.len() {
        at
    } else {
        s.len() as int
    };
    s.subrange(line_start(s, i), slices::index_of(s, '\n', i))
}

/// The preview that a line belongs to, with what it is to show.
#[derive(Debug)]
pub enum Jump<S = String> {
    Nowhere,
    Sprite(ParsedSpriteLine<S>),
    Background(S),
    Music(S),
}

impl View for Jump<String> {
    type V = Jump<Seq<char>>;

    open spec fn view(&self) -> Jump<Seq<char>> {
        match *self {
            Jump::Nowhere => Jump::Nowhere,
            Jump::Sprite(line) => Jump::Sprite(line@),
            Jump::Background(name) => Jump::Background(name@),
            Jump::Music(name) => Jump::Music(name@),
        }
    }
}

/// Where a line leads.
pub open spec fn jump_of(line: Seq<char>, numbers: Seq<Option<u32>>) -> Jump<Seq<char>> {
    match parse::sprite_line(line, numbers) {
        Some(sprite) => Jump::Sprite(sprite),
        None => match parse::command_line(line) {
            Some(c) => if c.command == "bg"@ {
                Jump::Background(c.resource)
            } else if c.command == "music"@ {
                Jump::Music(c.resource)
            } else {
                Jump::Nowhere
            },
            None => Jump::Nowhere,
        },
    }
}

/// The editor after a jump.
pub open spec fn after_jump(e: editor::Session, jump: Jump<Seq<char>>) -> editor::Session {
    match jump {
        Jump::Nowhere => e,
        Jump::Sprite(line) => editor::Session {
            status: "已跳转到立绘预览："@ + line.character_name + " ("@ + line.selected + ")"@,
            tab: PreviewTab::Sprite,
            ..e
        },
        Jump::Background(name) => editor::Session {
            status: "已跳转到背景预览："@ + name,
            tab: PreviewTab::Background,
            ..e
        },
        Jump::Music(name) => editor::Session {
            status: "已跳转到音乐预览："@ + name,
            tab: PreviewTab::Music,
            ..e
        },
    }
}

proof fn lemma_line_start(s: Seq<char>, i: int)
    requires
        0 <= i <= s.len(),
    ensures
        0 <= line_start(s, i) <= i,
    decreases i,
{
    if i > 0 && s[i - 1] != '\n' {
        lemma_line_start(s, i - 1);
    }
}

/// The line around a position of a text.
pub fn line_at(s: &str, at: usize) -> (r: String)
    ensures
        r@ == line_around(s@, at as int),
{
    let cs: Vec<char> = to_chars(s);
    let n: usize = cs.len();
    let i: usize = if at < n {
        at
    } else {
        n
    };
    let mut start: usize = i;
    proof {
        lemma_line_start(s@, i as int);
    }
    while start > 0 && cs[start - 1] != '\n'
        invariant
            start <= i <= n,
            n == cs@.len(),
            cs@ == s@,
            line_start(s@, i as int) == line_start(s@, start as int),
        decreases start,
    {
        start = start - 1;
    }
    let end: usize = find_char(cs.as_slice(), '\n', i);
    from_chars(slice_subrange(cs.as_slice(), start, end))
}

fn find_jump(line: &str, numbers: &Vec<Option<u32>>) -> (r: Jump)
    ensures
        r@ == jump_of(line@, numbers@),
{
    match parse_sprite_line(line, numbers) {
        Some(sprite) => Jump::Sprite(sprite),
        None => match parse_command_line(line) {
            Some(c) => if str_eq(c.command.as_str(), "bg") {
                Jump::Background(c.resource)
            } else if str_eq(c.command.as_str(), "music") {
                Jump::Music(c.resource)
            } else {
                Jump::Nowhere
            },
            None => Jump::Nowhere,
        },
    }
}

impl EditorApp {
    /// Turns to the preview that a line belongs to. `numbers` are the values of
    /// the texts that `sprite_numbers` finds in it.
    pub fn jump(&mut self, line: &str, numbers: &Vec<Option<u32>>) -> (r: Jump)
        ensures
            r@ == jump_of(line@, numbers@),
            final(self)@ == after_jump(old(self)@, r@),
    {
        let r: Jump = find_jump(line, numbers);
        match &r {
            Jump::Nowhere => {},
            Jump::Sprite(sprite) => {
                self.status = concat5(
                    "已跳转到立绘预览：",
                    sprite.character_name.as_str(),
                    " (",
                    sprite.selected.as_str(),
                    ")",
                );
                self.preview_tab = PreviewTab::Sprite;
            },
            Jump::Background(name) => {
                self.status = concat2("已跳转到背景预览：", name.as_str());
                self.preview_tab = PreviewTab::Background;
            },
            Jump::Music(name) => {
                self.status = concat2("已跳转到音乐预览：", name.as_str());
                self.preview_tab = PreviewTab::Music;
            },
        }
        r
    }
}

// ---------------------------------------------------------------------------
// The window
// ---------------------------------------------------------------------------

/// The number of lines that the insert menu offers.
pub const INSERT_COUNT: usize = 9;

/// The label and the line of an entry of the insert menu.
pub open spec fn insert_at(i: int) -> Option<(Seq<char>, Seq<char>)> {
    if i == 0 {
        Some(("立绘上场"@, "+ 角色"@))
    } else if i == 1 {
        Some(("立绘下场"@, "- 角色"@))
    } else if i == 2 {
        Some(("差分更换立绘"@, "+ 角色 (新pose) swap"@))
    } else if i == 3 {
        Some(("章节标题"@, "# 章节"@))
    } else if i == 4 {
        Some(("背景指令"@, "@bg 背景"@))
    } else if i == 5 {
        Some(("选择分支"@, "? 选项"@))
    } else if i == 6 {
        Some(("变量操作"@, "$变量"@))
    } else if i == 7 {
        Some(
            (
                "结局声明"@,
                "ending \"true_end\" epilogue \"scripts/epilogue.akrs\" button \"尾声之后\""@,
            ),
        )
    } else if i == 8 {
        Some(("解锁结局"@, "unlock \"true_end\""@))
    } else {
        None
    }
}

/// The label and the line of an entry of the insert menu.
pub fn insert_entry(i: usize) -> (r: Option<(&'static str, &'static str)>)
    ensures
        match insert_at(i as int) {
            Some((label, line)) => r is Some && (r->0).0@ == label && (r->0).1@ == line,
            None => r is None,
        },
        r is Some <==> i < INSERT_COUNT,
{
    match i {
        0 => Some(("立绘上场", "+ 角色")),
        1 => Some(("立绘下场", "- 角色")),
        2 => Some(("差分更换立绘", "+ 角色 (新pose) swap")),
        3 => Some(("章节标题", "# 章节")),
        4 => Some(("背景指令", "@bg 背景")),
        5 => Some(("选择分支", "? 选项")),
        6 => Some(("变量操作", "$变量")),
        7 => Some(
            (
                "结局声明",
                "ending \"true_end\" epilogue \"scripts/epilogue.akrs\" button \"尾声之后\"",
            ),
        ),
        8 => Some(("解锁结局", "unlock \"true_end\"")),
        _ => None,
    }
}

/// What the middle of the window shows.
#[derive(Debug, Clone, Copy, PartialEq, Eq, Structural)]
pub enum CentralView {
    Welcome,
    Translation,
    Blueprint,
    Script,
}

/// What the middle of the window shows.
pub open spec fn view_of(e: editor::Session) -> CentralView {
    if e.welcome {
        CentralView::Welcome
    } else if e.translation_mode {
        CentralView::Translation
    } else if e.blueprint_mode {
        CentralView::Blueprint
    } else {
        CentralView::Script
    }
}

/// Whether a running story changes by itself: while it passes from one scene to
/// another or waits, and while a text is still being typed.
pub open spec fn animates(phase: EnginePhase, typing: bool) -> bool {
    phase is Transitioning || phase is Waiting || typing
}

/// Whether a running story changes by itself.
pub fn is_animating(phase: EnginePhase, typing: bool) -> (r: bool)
    ensures
        r == animates(phase, typing),
{
    matches!(phase, EnginePhase::Transitioning) || matches!(phase, EnginePhase::Waiting) || typing
}

impl EditorApp {
    /// What the middle of the window shows.
    pub fn central_view(&self) -> (r: CentralView)
        ensures
            r == view_of(self@),
    {
        if self.show_welcome {
            CentralView::Welcome
        } else if self.translation_mode {
            CentralView::Translation
        } else if self.blueprint_mode {
            CentralView::Blueprint
        } else {
            CentralView::Script
        }
    }

    /// Whether a line can be inserted: there is a script, or the canvas.
    pub fn can_edit(&self) -> (r: bool)
        ensures
            r == (!editor::is_blank(self@.content) || self@.blueprint_mode),
    {
        !blank(self.editor_content.as_str()) || self.blueprint_mode
    }

    /// Shows the welcome page.
    pub fn go_home(&mut self)
        ensures
            final(self)@ == (editor::Session {
                welcome: true,
                running: false,
                status: "就绪"@,
                ..old(self)@
            }),
    {
        self.show_welcome = true;
        self.running = false;
        self.status = "就绪".to_owned();
    }

    /// Turns away from the blocks where the canvas is not shown. The tabs are
    /// hidden during translation, and stay as they are.
    pub fn settle_tab(&mut self)
        ensures
            final(self)@ == (editor::Session {
                tab: if !old(self)@.translation_mode && !old(self)@.blueprint_mode && old(self)@.tab == PreviewTab::Blocks {
                    PreviewTab::Outline
                } else {
                    old(self)@.tab
                },
                ..old(self)@
            }),
    {
        if !self.translation_mode && !self.blueprint_mode && self.preview_tab
            == PreviewTab::Blocks {
            self.preview_tab = PreviewTab::Outline;
        }
    }

    /// Closes the warning about comments that were lost.
    pub fn dismiss_comment_warning(&mut self)
        ensures
            final(self)@ == (editor::Session {
                comment_warning: false,
                lost_comments: Seq::empty(),
                ..old(self)@
            }),
    {
        self.show_comment_warning = false;
        self.comment_warning_list = Vec::new();
        assert(self@.lost_comments =~= Seq::empty());
    }
}

} // verus!
