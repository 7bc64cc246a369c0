//! One frame of input on the canvas of a blueprint, by pointer, touch or key.

use crate::blueprint;
use crate::blueprint::{BlueprintNode, BlueprintState, NodeKind, Spot};
use crate::blueprint_script;
use crate::canvas;
use crate::canvas::{move_by, way_to};
use crate::graph;
use crate::layout;
use vstd::prelude::*;

verus! {

/// The input of one frame.
#[derive(Debug, Clone, Copy, PartialEq, Eq, Structural)]
pub struct PointerFrame {
    /// The place of the pointer on the canvas, and on the screen.
    pub at: Spot,
    pub screen: Spot,
    /// How far it moved since the last frame.
    pub delta: Spot,
    /// Whether it is over the canvas.
    pub in_canvas: bool,
    pub primary_pressed: bool,
    pub primary_down: bool,
    pub primary_released: bool,
    pub secondary_pressed: bool,
    pub secondary_down: bool,
    pub secondary_released: bool,
    pub double_clicked: bool,
    pub delete_key: bool,
    pub escape_key: bool,
    /// Whether the screen was touched.
    pub touched: bool,
    /// Whether two fingers are zooming.
    pub pinching: bool,
}

/// How near to a pin the pointer has to be.
pub open spec fn reach(touch: bool) -> int {
    if touch {
        16_000
    } else {
        8_000
    }
}

/// The node under the pointer; its edges belong to it.
pub open spec fn under(b: blueprint::Blueprint, at: Spot) -> Option<usize> {
    layout::topmost(b.nodes, b.collapse_comments, at, true, b.nodes.len() as int)
}

/// The primary button goes down: a link, a move or a selection begins.
pub open spec fn pressed(b: blueprint::Blueprint, f: PointerFrame) -> blueprint::Blueprint {
    if !(f.primary_pressed && f.in_canvas && b.context_menu_pos is None && !f.pinching) {
        b
    } else {
        match layout::first_output(b.nodes, b.collapse_comments, f.at, reach(b.touch_mode), 0) {
            Some(from) => blueprint::Blueprint {
                connecting_from: Some(from),
                connecting_pos: f.at,
                ..b
            },
            None => match under(b, f.at) {
                Some(id) => blueprint::Blueprint {
                    drag_node: Some(id),
                    drag_offset: canvas::way(canvas::place_of(b, id), f.at),
                    selected: Some(id),
                    ..b
                },
                None => blueprint::Blueprint {
                    selected: None,
                    touch_panning: b.touch_panning || b.touch_mode,
                    ..b
                },
            },
        }
    }
}

/// The canvas with a node moved to a place.
pub open spec fn placed(b: blueprint::Blueprint, id: usize, pos: Spot) -> blueprint::Blueprint {
    let k = graph::id_index(b.nodes, id, 0);
    if k < b.nodes.len() {
        blueprint::Blueprint { nodes: b.nodes.update(k, BlueprintNode { pos, ..b.nodes[k] }), ..b }
    } else {
        b
    }
}

/// The primary button is held: what was begun follows the pointer.
pub open spec fn held(b: blueprint::Blueprint, f: PointerFrame) -> blueprint::Blueprint {
    if !(f.primary_down && !f.pinching) {
        b
    } else {
        let dragged = match b.drag_node {
            Some(id) => placed(b, id, canvas::way(b.drag_offset, f.at)),
            None => b,
        };
        blueprint::Blueprint {
            connecting_pos: if b.connecting_from is Some {
                f.at
            } else {
                b.connecting_pos
            },
            pan: if b.touch_panning {
                canvas::moved_by(b.pan, f.delta)
            } else {
                b.pan
            },
            ..dragged
        }
    }
}

/// The primary button comes up: a link that ends on a pin is made.
pub open spec fn released(b: blueprint::Blueprint, f: PointerFrame) -> blueprint::Blueprint {
    if !f.primary_released {
        b
    } else {
        let target = layout::first_input(
            b.nodes,
            b.collapse_comments,
            f.at,
            reach(b.touch_mode),
            0,
        );
        blueprint::Blueprint {
            links: match (b.connecting_from, target) {
                (Some(from), Some(to)) => graph::with_link(b.links, from, to),
                _ => b.links,
            },
            connecting_from: None,
            drag_node: None,
            touch_panning: false,
            ..b
        }
    }
}

/// The secondary button moves the canvas, or opens the menu where it does not
/// move.
pub open spec fn secondary(b: blueprint::Blueprint, f: PointerFrame) -> blueprint::Blueprint {
    let b1 = if f.secondary_pressed && f.in_canvas {
        blueprint::Blueprint { right_press_pos: Some(f.screen), right_moved: false, ..b }
    } else {
        b
    };
    let b2 = match b1.right_press_pos {
        Some(start) => if f.secondary_down && !f.pinching {
            let moved = b1.right_moved || !layout::near(
                start.x as int,
                start.y as int,
                f.screen,
                4_000,
            );
            blueprint::Blueprint {
                right_moved: moved,
                pan: if moved {
                    canvas::moved_by(b1.pan, f.delta)
                } else {
                    b1.pan
                },
                ..b1
            }
        } else {
            b1
        },
        None => b1,
    };
    if f.secondary_released {
        blueprint::Blueprint {
            context_menu_pos: if !b2.right_moved && f.in_canvas {
                Some(f.screen)
            } else {
                b2.context_menu_pos
            },
            right_press_pos: None,
            right_moved: false,
            ..b2
        }
    } else {
        b2
    }
}

/// The keys and the double click: delete the selected node, leave the menu and
/// the editing of a text, begin to edit a text.
pub open spec fn keyed(b: blueprint::Blueprint, f: PointerFrame) -> blueprint::Blueprint {
    let b1 = match b.selected {
        Some(id) => if f.delete_key {
            graph::without_node(b, id)
        } else {
            b
        },
        None => b,
    };
    let b2 = if f.escape_key {
        blueprint::Blueprint { context_menu_pos: None, editing_node: None, ..b1 }
    } else {
        b1
    };
    let hit = under(b2, f.at);
    let b3 = if f.double_clicked && f.in_canvas && b2.context_menu_pos is None && hit is Some {
        blueprint::Blueprint { editing_node: hit, ..b2 }
    } else {
        b2
    };
    if f.primary_pressed && f.in_canvas && hit is None {
        blueprint::Blueprint { editing_node: None, ..b3 }
    } else {
        b3
    }
}

/// The canvas after a frame.
pub open spec fn after_frame(b: blueprint::Blueprint, f: PointerFrame) -> blueprint::Blueprint {
    let b1 = blueprint::Blueprint { touch_mode: b.touch_mode || f.touched, ..b };
    keyed(secondary(released(held(pressed(b1, f), f), f), f), f)
}

impl BlueprintState {
    fn reach_of(&self) -> (r: u32)
        ensures
            r == reach(self.touch_mode),
    {
        if self.touch_mode {
            16_000
        } else {
            8_000
        }
    }

    fn on_pressed(&mut self, f: &PointerFrame)
        ensures
            final(self)@ == pressed(old(self)@, *f),
    {
        if !(f.primary_pressed && f.in_canvas && self.context_menu_pos.is_none() && !f.pinching) {
            return;
        }
        match self.output_pin_at(f.at, self.reach_of()) {
            Some(from) => {
                self.connecting_from = Some(from);
                self.connecting_pos = f.at;
            },
            None => match self.node_under(f.at, true) {
                Some(id) => {
                    let place: Spot = self.node_place(id);
                    self.drag_node = Some(id);
                    self.drag_offset = way_to(place, f.at);
                    self.selected = Some(id);
                },
                None => {
                    self.selected = None;
                    if self.touch_mode {
                        self.touch_panning = true;
                    }
                },
            },
        }
    }

    /// Moves a node to a place.
    pub fn place_node(&mut self, id: usize, pos: Spot)
        ensures
            final(self)@ == placed(old(self)@, id, pos),
    {
        let k: usize = self.position_of(id);
        if k < self.nodes.len() {
            let ghost before = self@.nodes;
            self.nodes[k].pos = pos;
            assert(self@.nodes =~= before.update(
                k as int,
                BlueprintNode { pos, ..before[k as int] },
            ));
        }
    }

    fn on_held(&mut self, f: &PointerFrame)
        ensures
            final(self)@ == held(old(self)@, *f),
    {
        if !(f.primary_down && !f.pinching) {
            return;
        }
        match self.drag_node {
            Some(id) => {
                let pos: Spot = way_to(self.drag_offset, f.at);
                self.place_node(id, pos);
            },
            None => {},
        }
        if self.connecting_from.is_some() {
            self.connecting_pos = f.at;
        }
        if self.touch_panning {
            self.pan = move_by(self.pan, f.delta);
        }
    }

    fn on_released(&mut self, f: &PointerFrame)
        ensures
            final(self)@ == released(old(self)@, *f),
    {
        if !f.primary_released {
            return;
        }
        match self.connecting_from {
            Some(from) => {
                match self.input_pin_at(f.at, self.reach_of()) {
                    Some(to) => {
                        self.add_link(from, to);
                    },
                    None => {},
                }
                self.connecting_from = None;
            },
            None => {},
        }
        self.drag_node = None;
        self.touch_panning = false;
    }

    fn on_secondary(&mut self, f: &PointerFrame)
        ensures
            final(self)@ == secondary(old(self)@, *f),
    {
        if f.secondary_pressed && f.in_canvas {
            self.right_press_pos = Some(f.screen);
            self.right_moved = false;
        }
        if f.secondary_down && !f.pinching {
            match self.right_press_pos {
                Some(start) => {
                    if !layout::is_near(start.x as i128, start.y as i128, f.screen, 4_000) {
                        self.right_moved = true;
                    }
                    if self.right_moved {
                        self.pan = move_by(self.pan, f.delta);
                    }
                },
                None => {},
            }
        }
        if f.secondary_released {
            if !self.right_moved && f.in_canvas {
                self.context_menu_pos = Some(f.screen);
            }
            self.right_press_pos = None;
            self.right_moved = false;
        }
    }

    fn on_keys(&mut self, f: &PointerFrame)
        ensures
            final(self)@ == keyed(old(self)@, *f),
    {
        if f.delete_key {
            match self.selected {
                Some(id) => {
                    self.remove_node(id);
                },
                None => {},
            }
        }
        if f.escape_key {
            self.context_menu_pos = None;
            self.editing_node = None;
        }
        let hit: Option<usize> = self.node_under(f.at, true);
        if f.double_clicked && f.in_canvas && self.context_menu_pos.is_none() && hit.is_some() {
            self.editing_node = hit;
        }
        if f.primary_pressed && f.in_canvas && hit.is_none() {
            self.editing_node = None;
        }
    }

    /// Handles the input of one frame.
    pub fn handle_frame(&mut self, f: &PointerFrame)
        ensures
            final(self)@ == after_frame(old(self)@, *f),
    {
        if f.touched {
            self.touch_mode = true;
        }
        self.on_pressed(f);
        self.on_held(f);
        self.on_released(f);
        self.on_secondary(f);
        self.on_keys(f);
    }

    /// Folds the comments away or shows them again, and lays the nodes out.
    pub fn toggle_comments(&mut self)
        ensures
            final(self)@ == (blueprint::Blueprint {
                collapse_comments: !old(self)@.collapse_comments,
                nodes: layout::laid_out(old(self)@.nodes, !old(self)@.collapse_comments),
                ..old(self)@
            }),
    {
        self.collapse_comments = !self.collapse_comments;
        self.auto_layout();
    }

    /// Gives a node that is being edited another text, and its kind with it.
    pub fn edit_text(&mut self, id: usize, text: String)
        ensures
            final(self)@ == ({
                let k = graph::id_index(old(self)@.nodes, id, 0);
                if k < old(self)@.nodes.len() {
                    blueprint::Blueprint {
                        nodes: old(self)@.nodes.update(
                            k,
                            BlueprintNode {
                                kind: blueprint::kind_of(text@),
                                text: text@,
                                ..old(self)@.nodes[k]
                            },
                        ),
                        ..old(self)@
                    }
                } else {
                    blueprint::Blueprint { editing_node: None, ..old(self)@ }
                }
            }),
    {
        let k: usize = self.position_of(id);
        if k < self.nodes.len() {
            let kind: NodeKind = BlueprintState::detect_kind(text.as_str());
            let ghost before = self@.nodes;
            let ghost now = text@;
            self.nodes[k].kind = kind;
            self.nodes[k].text = text;
            assert(self@.nodes =~= before.update(
                k as int,
                BlueprintNode { kind, text: now, ..before[k as int] },
            ));
        } else {
            self.editing_node = None;
        }
    }
}

// ---------------------------------------------------------------------------
// Links as they are drawn
// ---------------------------------------------------------------------------

/// The ends of a link as it is drawn: while comments are folded away, the
/// nearest nodes that are none.
pub open spec fn drawn_ends(b: blueprint::Blueprint, k: int) -> Option<(usize, usize)> {
    let link = b.links[k];
    if b.collapse_comments {
        let n = b.nodes.len() + 2;
        match (
            blueprint_script::resolved(b, link.from, true, n),
            blueprint_script::resolved(b, link.to, false, n),
        ) {
            (Some(f), Some(t)) => Some((f, t)),
            _ => None,
        }
    } else {
        Some((link.from, link.to))
    }
}

/// The lines between nodes that the first `k` links come to, each once.
pub open spec fn drawn(b: blueprint::Blueprint, k: int) -> Seq<(usize, usize)>
    decreases k,
{
    if k <= 0 {
        Seq::empty()
    } else {
        let front = drawn(b, k - 1);
        match drawn_ends(b, k - 1) {
            Some(ends) => if ends.0 != ends.1 && !front.contains(ends) && graph::node_with(
                b.nodes,
                ends.0,
            ) is Some && graph::node_with(b.nodes, ends.1) is Some {
                front.push(ends)
            } else {
                front
            },
            None => front,
        }
    }
}

fn has_pair(v: &Vec<(usize, usize)>, x: usize, y: usize) -> (r: bool)
    ensures
        r == v@.contains((x, y)),
{
    let mut i: usize = 0;
    while i < v.len()
        invariant
            i <= v@.len(),
            forall|k: int| 0 <= k < i ==> v@[k] != (x, y),
        decreases v@.len() - i,
    {
        if v[i].0 == x && v[i].1 == y {
            assert(v@[i as int] == (x, y));
            return true;
        }
        i = i + 1;
    }
    false
}

impl BlueprintState {
    /// The pairs of nodes that a line is drawn between, in order and each once.
    pub fn drawn_links(&self) -> (r: Vec<(usize, usize)>)
        ensures
            r@ == drawn(self@, self@.links.len() as int),
    {
        let n: usize = self.links.len();
        let mut out: Vec<(usize, usize)> = Vec::new();
        let mut i: usize = 0;
        assert(out@ =~= drawn(self@, 0));
        while i < n
            invariant
                i <= n,
                n == self.links@.len(),
                out@ == drawn(self@, i as int),
            decreases n - i,
        {
            let from: usize = self.links[i].from;
            let to: usize = self.links[i].to;
            let ends: Option<(usize, usize)> = if self.collapse_comments {
                match (self.resolve_from(from), self.resolve_to(to)) {
                    (Some(f), Some(t)) => Some((f, t)),
                    _ => None,
                }
            } else {
                Some((from, to))
            };
            match ends {
                Some((f, t)) => {
                    if f != t && !has_pair(&out, f, t) && self.position_of(f) < self.nodes.len()
                        && self.position_of(t) < self.nodes.len() {
                        out.push((f, t));
                    }
                },
                None => {},
            }
            i = i + 1;
        }
        out
    }
}

/// While no button goes down or comes up, no node is held and none is deleted,
/// a frame leaves the nodes and links as they are.
pub proof fn law_frame_keeps_nodes(b: blueprint::Blueprint, f: PointerFrame)
    requires
        !f.delete_key,
        b.drag_node is None || !f.primary_down,
        !f.primary_pressed,
        !f.primary_released,
    ensures
        after_frame(b, f).nodes == b.nodes,
        after_frame(b, f).links == b.links,
{
}

proof fn lemma_first_input(
    nodes: Seq<blueprint::Node>,
    collapse: bool,
    at: Spot,
    r: int,
    i: int,
)
    requires
        0 <= i,
    ensures
        match layout::first_input(nodes, collapse, at, r, i) {
            Some(id) => graph::has_node(nodes, id),
            None => true,
        },
    decreases nodes.len() - i,
{
    if i < nodes.len() && !(!layout::is_hidden(nodes[i], collapse) && layout::on_input(
        nodes[i],
        at,
        r,
    )) {
        lemma_first_input(nodes, collapse, at, r, i + 1);
    }
}

proof fn lemma_first_output(
    nodes: Seq<blueprint::Node>,
    collapse: bool,
    at: Spot,
    r: int,
    i: int,
)
    requires
        0 <= i,
    ensures
        match layout::first_output(nodes, collapse, at, r, i) {
            Some(id) => graph::has_node(nodes, id),
            None => true,
        },
    decreases nodes.len() - i,
{
    if i < nodes.len() && !(!layout::is_hidden(nodes[i], collapse) && layout::on_output(
        nodes[i],
        at,
        r,
    )) {
        lemma_first_output(nodes, collapse, at, r, i + 1);
    }
}

/// Moving a node keeps the canvas tidy.
proof fn lemma_placed_tidy(b: blueprint::Blueprint, id: usize, pos: Spot)
    requires
        graph::tidy(b),
    ensures
        graph::tidy(placed(b, id, pos)),
        forall|x: usize|
            graph::has_node(b.nodes, x) ==> #[trigger] graph::has_node(placed(b, id, pos).nodes, x),
{
    let c = placed(b, id, pos);
    graph::lemma_id_index(b.nodes, id, 0);
    assert(forall|i: int| 0 <= i < b.nodes.len() ==> (#[trigger] c.nodes[i]).id == b.nodes[i].id);
    assert forall|x: usize| graph::has_node(b.nodes, x) implies #[trigger] graph::has_node(
        c.nodes,
        x,
    ) by {
        let i = choose|i: int| 0 <= i < b.nodes.len() && (#[trigger] b.nodes[i]).id == x;
        assert(c.nodes[i].id == x);
    }
}

/// Whether a link that is being drawn begins at a node of the canvas.
pub open spec fn draws_from_node(b: blueprint::Blueprint) -> bool {
    match b.connecting_from {
        Some(from) => graph::has_node(b.nodes, from),
        None => true,
    }
}

/// Only the nodes, the links and the next number matter.
proof fn lemma_tidy_same(b: blueprint::Blueprint, c: blueprint::Blueprint)
    requires
        graph::tidy(b),
        b.nodes == c.nodes,
        b.links == c.links,
        b.next_id == c.next_id,
    ensures
        graph::tidy(c),
{
}

proof fn lemma_pressed_tidy(b: blueprint::Blueprint, f: PointerFrame)
    requires
        graph::tidy(b),
        draws_from_node(b),
    ensures
        graph::tidy(pressed(b, f)),
        draws_from_node(pressed(b, f)),
{
    lemma_first_output(b.nodes, b.collapse_comments, f.at, reach(b.touch_mode), 0);
    lemma_tidy_same(b, pressed(b, f));
}

proof fn lemma_held_tidy(b: blueprint::Blueprint, f: PointerFrame)
    requires
        graph::tidy(b),
        draws_from_node(b),
    ensures
        graph::tidy(held(b, f)),
        draws_from_node(held(b, f)),
{
    match b.drag_node {
        Some(id) => {
            let pos = canvas::way(b.drag_offset, f.at);
            lemma_placed_tidy(b, id, pos);
            if f.primary_down && !f.pinching {
                lemma_tidy_same(placed(b, id, pos), held(b, f));
            }
        },
        None => {
            lemma_tidy_same(b, held(b, f));
        },
    }
}

proof fn lemma_released_tidy(b: blueprint::Blueprint, f: PointerFrame)
    requires
        graph::tidy(b),
        draws_from_node(b),
    ensures
        graph::tidy(released(b, f)),
{
    let target = layout::first_input(b.nodes, b.collapse_comments, f.at, reach(b.touch_mode), 0);
    lemma_first_input(b.nodes, b.collapse_comments, f.at, reach(b.touch_mode), 0);
    if f.primary_released && b.connecting_from is Some && target is Some {
        let from = b.connecting_from->0;
        let to = target->0;
        graph::law_add_link_tidy(b, from, to);
        lemma_tidy_same(
            blueprint::Blueprint { links: graph::with_link(b.links, from, to), ..b },
            released(b, f),
        );
    } else {
        lemma_tidy_same(b, released(b, f));
    }
}

proof fn lemma_keyed_tidy(b: blueprint::Blueprint, f: PointerFrame)
    requires
        graph::tidy(b),
    ensures
        graph::tidy(keyed(b, f)),
{
    if b.selected is Some && f.delete_key {
        let id = b.selected->0;
        graph::law_remove_node_tidy(b, id);
        lemma_tidy_same(graph::without_node(b, id), keyed(b, f));
    } else {
        lemma_tidy_same(b, keyed(b, f));
    }
}

/// A frame of input keeps the canvas tidy, as long as a link is drawn from a
/// node that is there.
pub proof fn law_frame_keeps_tidy(b: blueprint::Blueprint, f: PointerFrame)
    requires
        graph::tidy(b),
        draws_from_node(b),
    ensures
        graph::tidy(after_frame(b, f)),
{
    let b1 = blueprint::Blueprint { touch_mode: b.touch_mode || f.touched, ..b };
    let b2 = pressed(b1, f);
    let b3 = held(b2, f);
    let b4 = released(b3, f);
    lemma_tidy_same(b, b1);
    lemma_pressed_tidy(b1, f);
    lemma_held_tidy(b2, f);
    lemma_released_tidy(b3, f);
    lemma_tidy_same(b4, secondary(b4, f));
    lemma_keyed_tidy(secondary(b4, f), f);
}

} // verus!
