//! The blueprint of a script: its lines as nodes on a canvas, joined by links.
//!
//! Coordinates are counted in thousandths of a point.

use crate::slices;
use crate::slices::{begins_with, find_char, is_text, starts_with_str, trim_start_of, word_len_of};
use crate::text;
use crate::text::{from_chars, to_chars};
use vstd::prelude::*;
use vstd::slice::slice_subrange;

verus! {

// ---------------------------------------------------------------------------
// Nodes and links
// ---------------------------------------------------------------------------

/// The kinds of nodes, told apart by how their line begins.
#[derive(Debug, Clone, Copy, PartialEq, Eq, Structural)]
pub enum NodeKind {
    /// `#`: the title of a section.
    Section,
    /// `name: "..."`
    Dialogue,
    /// `"..."`
    Narration,
    /// `@`
    Command,
    /// `+` or `-`: a character enters or leaves.
    Direction,
    /// `?`
    Choice,
    /// `|`
    ChoiceOption,
    /// `->`
    Flow,
    /// `=>`
    Visit,
    /// `<=`
    Return,
    /// `~~`
    Wait,
    /// `end`
    StoryEnd,
    /// `ending`
    Ending,
    /// `unlock`
    Unlock,
    /// `$`
    VarOp,
    /// `//`
    Comment,
    /// Any other line.
    Other,
}

/// A place on the canvas.
#[derive(Debug, Clone, Copy, PartialEq, Eq, Structural)]
pub struct Spot {
    pub x: i64,
    pub y: i64,
}

/// A line of a script on the canvas.
#[derive(Debug)]
pub struct BlueprintNode<S = String> {
    pub id: usize,
    pub kind: NodeKind,
    pub pos: Spot,
    pub text: S,
}

impl View for BlueprintNode<String> {
    type V = BlueprintNode<Seq<char>>;

    open spec fn view(&self) -> BlueprintNode<Seq<char>> {
        BlueprintNode { id: self.id, kind: self.kind, pos: self.pos, text: self.text@ }
    }
}

/// What a node holds.
pub type Node = BlueprintNode<Seq<char>>;

/// The contents of a sequence of nodes.
pub open spec fn node_views(v: Seq<BlueprintNode>) -> Seq<Node> {
    Seq::new(v.len(), |i: int| v[i]@)
}

/// A link from the lower edge of a node to the upper edge of another.
#[derive(Debug, Clone, Copy, PartialEq, Eq, Structural)]
pub struct BlueprintLink {
    pub from: usize,
    pub to: usize,
}

/// The state of the canvas.
#[derive(Debug)]
pub struct BlueprintState {
    /// The nodes, in the order they were made.
    pub nodes: Vec<BlueprintNode>,
    pub links: Vec<BlueprintLink>,
    /// The number that the next node gets.
    pub next_id: usize,
    /// How far the canvas has been moved.
    pub pan: Spot,
    pub selected: Option<usize>,
    /// The node that is being moved, and where it was taken hold of.
    pub drag_node: Option<usize>,
    pub drag_offset: Spot,
    /// Where the right button went down, and whether the pointer moved since.
    pub right_press_pos: Option<Spot>,
    pub right_moved: bool,
    /// The node that a link is being drawn from, and where it ends.
    pub connecting_from: Option<usize>,
    pub connecting_pos: Spot,
    /// Where the menu is open.
    pub context_menu_pos: Option<Spot>,
    /// The node whose text is being edited.
    pub editing_node: Option<usize>,
    /// Whether comments are folded into the next node.
    pub collapse_comments: bool,
    pub touch_mode: bool,
    pub touch_panning: bool,
}

/// What the state holds.
pub struct Blueprint {
    pub nodes: Seq<Node>,
    pub links: Seq<BlueprintLink>,
    pub next_id: usize,
    pub pan: Spot,
    pub selected: Option<usize>,
    pub drag_node: Option<usize>,
    pub drag_offset: Spot,
    pub right_press_pos: Option<Spot>,
    pub right_moved: bool,
    pub connecting_from: Option<usize>,
    pub connecting_pos: Spot,
    pub context_menu_pos: Option<Spot>,
    pub editing_node: Option<usize>,
    pub collapse_comments: bool,
    pub touch_mode: bool,
    pub touch_panning: bool,
}

impl View for BlueprintState {
    type V = Blueprint;

    open spec fn view(&self) -> Blueprint {
        Blueprint {
            nodes: node_views(self.nodes@),
            links: self.links@,
            next_id: self.next_id,
            pan: self.pan,
            selected: self.selected,
            drag_node: self.drag_node,
            drag_offset: self.drag_offset,
            right_press_pos: self.right_press_pos,
            right_moved: self.right_moved,
            connecting_from: self.connecting_from,
            connecting_pos: self.connecting_pos,
            context_menu_pos: self.context_menu_pos,
            editing_node: self.editing_node,
            collapse_comments: self.collapse_comments,
            touch_mode: self.touch_mode,
            touch_panning: self.touch_panning,
        }
    }
}

pub open spec fn origin() -> Spot {
    Spot { x: 0, y: 0 }
}

/// An empty canvas.
pub open spec fn empty_canvas() -> Blueprint {
    Blueprint {
        nodes: Seq::empty(),
        links: Seq::empty(),
        next_id: 0,
        pan: origin(),
        selected: None,
        drag_node: None,
        drag_offset: origin(),
        right_press_pos: None,
        right_moved: false,
        connecting_from: None,
        connecting_pos: origin(),
        context_menu_pos: None,
        editing_node: None,
        collapse_comments: true,
        touch_mode: false,
        touch_panning: false,
    }
}

impl Default for BlueprintState {
    fn default() -> (r: Self)
        ensures
            r@ == empty_canvas(),
    {
        let zero: Spot = Spot { x: 0, y: 0 };
        let r: BlueprintState = BlueprintState {
            nodes: Vec::new(),
            links: Vec::new(),
            next_id: 0,
            pan: zero,
            selected: None,
            drag_node: None,
            drag_offset: zero,
            right_press_pos: None,
            right_moved: false,
            connecting_from: None,
            connecting_pos: zero,
            context_menu_pos: None,
            editing_node: None,
            collapse_comments: true,
            touch_mode: false,
            touch_panning: false,
        };
        assert(r@.nodes =~= Seq::empty());
        r
    }
}

// ---------------------------------------------------------------------------
// Kinds
// ---------------------------------------------------------------------------

/// The kind of a line.
pub open spec fn kind_of(line: Seq<char>) -> NodeKind {
    let t = slices::trim_start(line);
    if text::starts_with(t, "//"@) {
        NodeKind::Comment
    } else if slices::begins(t, '#') {
        NodeKind::Section
    } else if slices::begins(t, '+') {
        NodeKind::Direction
    } else if text::starts_with(t, "->"@) {
        NodeKind::Flow
    } else if slices::begins(t, '-') {
        NodeKind::Direction
    } else if slices::begins(t, '@') {
        NodeKind::Command
    } else if slices::begins(t, '?') {
        NodeKind::Choice
    } else if slices::begins(t, '|') {
        NodeKind::ChoiceOption
    } else if text::starts_with(t, "=>"@) {
        NodeKind::Visit
    } else if text::starts_with(t, "<="@) {
        NodeKind::Return
    } else if text::starts_with(t, "~~"@) {
        NodeKind::Wait
    } else if text::starts_with(t, "ending"@) {
        NodeKind::Ending
    } else if text::starts_with(t, "end"@) {
        NodeKind::StoryEnd
    } else if text::starts_with(t, "unlock"@) {
        NodeKind::Unlock
    } else if slices::begins(t, '$') {
        NodeKind::VarOp
    } else if slices::begins(t, '"') {
        NodeKind::Narration
    } else if slices::index_of(t, ':', 0) < t.len() && slices::index_of(t, '"', 0) < t.len() {
        NodeKind::Dialogue
    } else {
        NodeKind::Other
    }
}

/// The name of a command: the word behind `@`.
pub open spec fn command_of(line: Seq<char>) -> Seq<char> {
    let t = slices::trim_start(line);
    let rest = slices::trim_start(
        if slices::begins(t, '@') {
            t.subrange(1, t.len() as int)
        } else {
            t
        },
    );
    rest.subrange(0, slices::word_len(rest))
}

/// The label of a node.
pub open spec fn label_of(line: Seq<char>, kind: NodeKind) -> Seq<char> {
    match kind {
        NodeKind::Section => "章节"@,
        NodeKind::Dialogue => "对话"@,
        NodeKind::Narration => "旁白"@,
        NodeKind::Command => {
            let command = command_of(line);
            if command == "bg"@ {
                "背景"@
            } else if command == "music"@ {
                "音乐"@
            } else if command == "stop_music"@ {
                "停止音乐"@
            } else {
                command
            }
        },
        NodeKind::Direction => if slices::begins(slices::trim_start(line), '+') {
            "立绘上场"@
        } else {
            "立绘下场"@
        },
        NodeKind::Choice => "选择"@,
        NodeKind::ChoiceOption => "选项"@,
        NodeKind::Flow => "跳转"@,
        NodeKind::Visit => "访问"@,
        NodeKind::Return => "返回"@,
        NodeKind::Wait => "等待"@,
        NodeKind::StoryEnd => "结局"@,
        NodeKind::Ending => "结局声明"@,
        NodeKind::Unlock => "解锁"@,
        NodeKind::VarOp => "变量"@,
        NodeKind::Comment => "注释"@,
        NodeKind::Other => "其他"@,
    }
}

/// The colour of a node, as red, green and blue.
pub open spec fn color_of(kind: NodeKind) -> (u8, u8, u8) {
    match kind {
        NodeKind::Section => (70, 110, 200),
        NodeKind::Dialogue => (60, 140, 80),
        NodeKind::Narration => (90, 160, 100),
        NodeKind::Command => (200, 140, 50),
        NodeKind::Direction => (150, 80, 200),
        NodeKind::Choice => (200, 180, 50),
        NodeKind::ChoiceOption => (220, 200, 80),
        NodeKind::Flow => (50, 180, 200),
        NodeKind::Visit => (80, 150, 200),
        NodeKind::Return => (120, 120, 130),
        NodeKind::Wait => (200, 100, 150),
        NodeKind::StoryEnd => (200, 60, 60),
        NodeKind::Ending => (180, 80, 160),
        NodeKind::Unlock => (160, 100, 180),
        NodeKind::VarOp => (100, 130, 160),
        NodeKind::Comment => (110, 110, 120),
        NodeKind::Other => (100, 100, 110),
    }
}

impl BlueprintState {
    /// The kind of a line.
    pub fn detect_kind(text: &str) -> (r: NodeKind)
        ensures
            r == kind_of(text@),
    {
        let cs: Vec<char> = to_chars(text);
        let t: &[char] = trim_start_of(cs.as_slice());
        if starts_with_str(t, "//") {
            NodeKind::Comment
        } else if begins_with(t, '#') {
            NodeKind::Section
        } else if begins_with(t, '+') {
            NodeKind::Direction
        } else if starts_with_str(t, "->") {
            NodeKind::Flow
        } else if begins_with(t, '-') {
            NodeKind::Direction
        } else if begins_with(t, '@') {
            NodeKind::Command
        } else if begins_with(t, '?') {
            NodeKind::Choice
        } else if begins_with(t, '|') {
            NodeKind::ChoiceOption
        } else if starts_with_str(t, "=>") {
            NodeKind::Visit
        } else if starts_with_str(t, "<=") {
            NodeKind::Return
        } else if starts_with_str(t, "~~") {
            NodeKind::Wait
        } else if starts_with_str(t, "ending") {
            NodeKind::Ending
        } else if starts_with_str(t, "end") {
            NodeKind::StoryEnd
        } else if starts_with_str(t, "unlock") {
            NodeKind::Unlock
        } else if begins_with(t, '$') {
            NodeKind::VarOp
        } else if begins_with(t, '"') {
            NodeKind::Narration
        } else if find_char(t, ':', 0) < t.len() && find_char(t, '"', 0) < t.len() {
            NodeKind::Dialogue
        } else {
            NodeKind::Other
        }
    }

    /// The colour of a node, as red, green and blue.
    pub fn kind_color(kind: NodeKind) -> (r: (u8, u8, u8))
        ensures
            r == color_of(kind),
    {
        match kind {
            NodeKind::Section => (70, 110, 200),
            NodeKind::Dialogue => (60, 140, 80),
            NodeKind::Narration => (90, 160, 100),
            NodeKind::Command => (200, 140, 50),
            NodeKind::Direction => (150, 80, 200),
            NodeKind::Choice => (200, 180, 50),
            NodeKind::ChoiceOption => (220, 200, 80),
            NodeKind::Flow => (50, 180, 200),
            NodeKind::Visit => (80, 150, 200),
            NodeKind::Return => (120, 120, 130),
            NodeKind::Wait => (200, 100, 150),
            NodeKind::StoryEnd => (200, 60, 60),
            NodeKind::Ending => (180, 80, 160),
            NodeKind::Unlock => (160, 100, 180),
            NodeKind::VarOp => (100, 130, 160),
            NodeKind::Comment => (110, 110, 120),
            NodeKind::Other => (100, 100, 110),
        }
    }

    /// The label of a node; that of a command names the command.
    pub fn node_label(text: &str, kind: NodeKind) -> (r: String)
        ensures
            r@ == label_of(text@, kind),
    {
        match kind {
            NodeKind::Section => "章节".to_owned(),
            NodeKind::Dialogue => "对话".to_owned(),
            NodeKind::Narration => "旁白".to_owned(),
            NodeKind::Command => {
                let cs: Vec<char> = to_chars(text);
                let t: &[char] = trim_start_of(cs.as_slice());
                let rest: &[char] = if begins_with(t, '@') {
                    trim_start_of(slice_subrange(t, 1, t.len()))
                } else {
                    trim_start_of(t)
                };
                let command: &[char] = slice_subrange(rest, 0, word_len_of(rest));
                if is_text(command, "bg") {
                    "背景".to_owned()
                } else if is_text(command, "music") {
                    "音乐".to_owned()
                } else if is_text(command, "stop_music") {
                    "停止音乐".to_owned()
                } else {
                    from_chars(command)
                }
            },
            NodeKind::Direction => {
                let cs: Vec<char> = to_chars(text);
                if begins_with(trim_start_of(cs.as_slice()), '+') {
                    "立绘上场".to_owned()
                } else {
                    "立绘下场".to_owned()
                }
            },
            NodeKind::Choice => "选择".to_owned(),
            NodeKind::ChoiceOption => "选项".to_owned(),
            NodeKind::Flow => "跳转".to_owned(),
            NodeKind::Visit => "访问".to_owned(),
            NodeKind::Return => "返回".to_owned(),
            NodeKind::Wait => "等待".to_owned(),
            NodeKind::StoryEnd => "结局".to_owned(),
            NodeKind::Ending => "结局声明".to_owned(),
            NodeKind::Unlock => "解锁".to_owned(),
            NodeKind::VarOp => "变量".to_owned(),
            NodeKind::Comment => "注释".to_owned(),
            NodeKind::Other => "其他".to_owned(),
        }
    }
}

} // verus!
