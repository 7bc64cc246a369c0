//! What the pointer does on the canvas of a blueprint.

use crate::blueprint;
use crate::blueprint::{BlueprintState, Spot};
use crate::graph;
use crate::layout;
use crate::layout::{minus, plus};
use vstd::prelude::*;

verus! {

// ---------------------------------------------------------------------------
// Events and messages
// ---------------------------------------------------------------------------

/// What the pointer is doing.
#[derive(Debug, Clone, Copy, PartialEq, Eq, Structural)]
pub enum InteractionKind {
    Idle,
    /// A node is being moved.
    DraggingNode,
    /// The canvas is being moved.
    Panning,
    /// A link is being drawn.
    Connecting,
}

impl Default for InteractionKind {
    fn default() -> (r: Self)
        ensures
            r == InteractionKind::Idle,
    {
        InteractionKind::Idle
    }
}

/// What is kept between two events.
#[derive(Debug, Clone, Copy, PartialEq, Eq, Structural)]
pub struct CanvasState {
    pub kind: InteractionKind,
    /// The last place of the pointer.
    pub last_canvas: Spot,
    /// Where a button went down.
    pub press_origin: Option<Spot>,
    /// Whether the pointer has moved since.
    pub moved: bool,
}

pub open spec fn idle_canvas() -> CanvasState {
    CanvasState {
        kind: InteractionKind::Idle,
        last_canvas: blueprint::origin(),
        press_origin: None,
        moved: false,
    }
}

impl Default for CanvasState {
    fn default() -> (r: Self)
        ensures
            r == idle_canvas(),
    {
        CanvasState {
            kind: InteractionKind::Idle,
            last_canvas: Spot { x: 0, y: 0 },
            press_origin: None,
            moved: false,
        }
    }
}

/// The events of the pointer.
#[derive(Debug, Clone, Copy, PartialEq, Eq, Structural)]
pub enum CanvasEvent {
    LeftPressed,
    LeftReleased,
    RightPressed,
    RightReleased,
    Moved,
    Other,
}

/// What the canvas asks the editor for.
#[derive(Debug, Clone, Copy, PartialEq, Eq, Structural)]
pub enum BlueprintMsg {
    /// A node was taken hold of, so far from its corner.
    DragStarted { id: usize, offset: Spot },
    DragMoved { pos: Spot },
    DragEnded,
    /// A link is drawn from a node.
    ConnectStarted { from: usize, pos: Spot },
    ConnectMoved { pos: Spot },
    /// The link was dropped, on a node's pin or on nothing.
    ConnectEnded { target: Option<usize> },
    PanStarted { origin: Spot },
    PanMoved { delta: Spot },
    PanEnded,
    Deselected,
    RightClicked { pos: Spot },
    DoubleClicked { id: usize },
    NodeSelected { id: usize },
}

/// The shapes of the pointer.
#[derive(Debug, Clone, Copy, PartialEq, Eq, Structural)]
pub enum PointerShape {
    Default,
    /// Over a node.
    Pointer,
    /// Over a pin.
    Crosshair,
}

/// How near to a pin the pointer has to be.
pub open spec fn pin_reach(touch: bool) -> int {
    if touch {
        14_000
    } else {
        8_000
    }
}

/// The way from one place to another.
pub open spec fn way(from: Spot, to: Spot) -> Spot {
    Spot { x: layout::clip(to.x - from.x), y: layout::clip(to.y - from.y) }
}

/// A place moved by a way.
pub open spec fn moved_by(at: Spot, delta: Spot) -> Spot {
    Spot { x: layout::clip(at.x + delta.x), y: layout::clip(at.y + delta.y) }
}

/// The way from one place to another.
pub fn way_to(from: Spot, to: Spot) -> (r: Spot)
    ensures
        r == way(from, to),
{
    Spot { x: minus(to.x, from.x), y: minus(to.y, from.y) }
}

/// A place moved by a way.
pub fn move_by(at: Spot, delta: Spot) -> (r: Spot)
    ensures
        r == moved_by(at, delta),
{
    Spot { x: plus(at.x, delta.x), y: plus(at.y, delta.y) }
}

/// The place of a node; the origin where there is none.
pub open spec fn place_of(b: blueprint::Blueprint, id: usize) -> Spot {
    match graph::node_with(b.nodes, id) {
        Some(node) => node.pos,
        None => blueprint::origin(),
    }
}

/// What an event comes to: the next state, whether the canvas took the event,
/// and the message.
pub struct Reaction {
    pub next: CanvasState,
    pub taken: bool,
    pub message: Option<BlueprintMsg>,
}

/// The left button goes down: on a pin it begins a link, on a node a move of the
/// node, and elsewhere a move of the canvas.
pub open spec fn on_press(b: blueprint::Blueprint, st: CanvasState, at: Spot) -> Reaction {
    let r = pin_reach(b.touch_mode);
    let pressed = CanvasState { press_origin: Some(at), moved: false, last_canvas: at, ..st };
    match layout::first_output(b.nodes, b.collapse_comments, at, r, 0) {
        Some(from) => Reaction {
            next: CanvasState { kind: InteractionKind::Connecting, ..pressed },
            taken: true,
            message: Some(BlueprintMsg::ConnectStarted { from, pos: at }),
        },
        None => match layout::topmost(
            b.nodes,
            b.collapse_comments,
            at,
            false,
            b.nodes.len() as int,
        ) {
            Some(id) => Reaction {
                next: CanvasState { kind: InteractionKind::DraggingNode, ..pressed },
                taken: true,
                message: Some(BlueprintMsg::DragStarted { id, offset: way(place_of(b, id), at) }),
            },
            None => Reaction {
                next: CanvasState { kind: InteractionKind::Panning, ..pressed },
                taken: true,
                message: Some(BlueprintMsg::PanStarted { origin: at }),
            },
        },
    }
}

/// The pointer moves: what was begun goes on.
pub open spec fn on_move(st: CanvasState, at: Spot) -> Reaction {
    let there = CanvasState { last_canvas: at, ..st };
    match st.kind {
        InteractionKind::DraggingNode => Reaction {
            next: CanvasState { moved: true, ..there },
            taken: true,
            message: Some(BlueprintMsg::DragMoved { pos: at }),
        },
        InteractionKind::Panning => Reaction {
            next: CanvasState { moved: true, ..there },
            taken: true,
            message: Some(BlueprintMsg::PanMoved { delta: way(st.last_canvas, at) }),
        },
        InteractionKind::Connecting => Reaction {
            next: there,
            taken: true,
            message: Some(BlueprintMsg::ConnectMoved { pos: at }),
        },
        InteractionKind::Idle => Reaction { next: st, taken: false, message: None },
    }
}

/// The left button comes up: what was begun ends. A node that was not moved is
/// selected, and a press on nothing that was not moved selects nothing.
pub open spec fn on_release(b: blueprint::Blueprint, st: CanvasState, at: Spot) -> Reaction {
    let next = CanvasState { kind: InteractionKind::Idle, press_origin: None, ..st };
    match st.kind {
        InteractionKind::DraggingNode => Reaction {
            next,
            taken: true,
            message: Some(
                if st.moved {
                    BlueprintMsg::DragEnded
                } else {
                    match b.drag_node {
                        Some(id) => BlueprintMsg::NodeSelected { id },
                        None => BlueprintMsg::DragEnded,
                    }
                },
            ),
        },
        InteractionKind::Connecting => Reaction {
            next,
            taken: true,
            message: Some(
                BlueprintMsg::ConnectEnded {
                    target: layout::first_input(
                        b.nodes,
                        b.collapse_comments,
                        at,
                        pin_reach(b.touch_mode),
                        0,
                    ),
                },
            ),
        },
        InteractionKind::Panning => Reaction {
            next,
            taken: true,
            message: Some(
                if st.moved {
                    BlueprintMsg::PanEnded
                } else {
                    BlueprintMsg::Deselected
                },
            ),
        },
        InteractionKind::Idle => Reaction { next, taken: false, message: None },
    }
}

/// What an event of the pointer at a place comes to. Without a place nothing
/// happens.
pub open spec fn reaction(
    b: blueprint::Blueprint,
    st: CanvasState,
    event: CanvasEvent,
    at: Option<Spot>,
) -> Reaction {
    match at {
        None => Reaction { next: st, taken: false, message: None },
        Some(pos) => match event {
            CanvasEvent::LeftPressed => on_press(b, st, pos),
            CanvasEvent::Moved => on_move(st, pos),
            CanvasEvent::LeftReleased => on_release(b, st, pos),
            CanvasEvent::RightPressed => Reaction {
                next: CanvasState { press_origin: Some(pos), moved: false, ..st },
                taken: true,
                message: None,
            },
            CanvasEvent::RightReleased => if st.moved {
                Reaction {
                    next: CanvasState { kind: InteractionKind::Idle, press_origin: None, ..st },
                    taken: true,
                    message: None,
                }
            } else {
                Reaction {
                    next: st,
                    taken: true,
                    message: Some(BlueprintMsg::RightClicked { pos }),
                }
            },
            CanvasEvent::Other => Reaction { next: st, taken: false, message: None },
        },
    }
}

/// The shape of the pointer at a place.
pub open spec fn shape_at(b: blueprint::Blueprint, at: Option<Spot>) -> PointerShape {
    match at {
        None => PointerShape::Default,
        Some(pos) => {
            let r = pin_reach(b.touch_mode);
            if layout::first_output(b.nodes, b.collapse_comments, pos, r, 0) is Some
                || layout::first_input(b.nodes, b.collapse_comments, pos, r, 0) is Some {
                PointerShape::Crosshair
            } else if layout::topmost(
                b.nodes,
                b.collapse_comments,
                pos,
                false,
                b.nodes.len() as int,
            ) is Some {
                PointerShape::Pointer
            } else {
                PointerShape::Default
            }
        },
    }
}

impl BlueprintState {
    /// The place of a node; the origin where there is none.
    pub fn node_place(&self, id: usize) -> (r: Spot)
        ensures
            r == place_of(self@, id),
    {
        let k: usize = self.position_of(id);
        if k < self.nodes.len() {
            self.nodes[k].pos
        } else {
            Spot { x: 0, y: 0 }
        }
    }
}

/// The canvas, as it is shown.
pub struct BlueprintProgram {
    pub state: BlueprintState,
}

impl BlueprintProgram {
    pub fn new(state: BlueprintState) -> (r: Self)
        ensures
            r.state == state,
    {
        BlueprintProgram { state }
    }

    fn press(&self, st: CanvasState, at: Spot) -> (r: (CanvasState, Option<BlueprintMsg>))
        ensures
            r.0 == on_press(self.state@, st, at).next,
            r.1 == on_press(self.state@, st, at).message,
            on_press(self.state@, st, at).taken,
    {
        let reach: u32 = if self.state.touch_mode {
            14_000
        } else {
            8_000
        };
        let mut next: CanvasState = CanvasState {
            kind: st.kind,
            last_canvas: at,
            press_origin: Some(at),
            moved: false,
        };
        match self.state.output_pin_at(at, reach) {
            Some(from) => {
                next.kind = InteractionKind::Connecting;
                (next, Some(BlueprintMsg::ConnectStarted { from, pos: at }))
            },
            None => match self.state.node_at(at) {
                Some(id) => {
                    next.kind = InteractionKind::DraggingNode;
                    let offset: Spot = way_to(self.state.node_place(id), at);
                    (next, Some(BlueprintMsg::DragStarted { id, offset }))
                },
                None => {
                    next.kind = InteractionKind::Panning;
                    (next, Some(BlueprintMsg::PanStarted { origin: at }))
                },
            },
        }
    }

    fn release(&self, st: CanvasState, at: Spot) -> (r: (CanvasState, bool, Option<BlueprintMsg>))
        ensures
            r.0 == on_release(self.state@, st, at).next,
            r.1 == on_release(self.state@, st, at).taken,
            r.2 == on_release(self.state@, st, at).message,
    {
        let reach: u32 = if self.state.touch_mode {
            14_000
        } else {
            8_000
        };
        let next: CanvasState = CanvasState {
            kind: InteractionKind::Idle,
            last_canvas: st.last_canvas,
            press_origin: None,
            moved: st.moved,
        };
        match st.kind {
            InteractionKind::DraggingNode => {
                if st.moved {
                    return (next, true, Some(BlueprintMsg::DragEnded));
                }
                match self.state.drag_node {
                    Some(id) => (next, true, Some(BlueprintMsg::NodeSelected { id })),
                    None => (next, true, Some(BlueprintMsg::DragEnded)),
                }
            },
            InteractionKind::Connecting => {
                let target: Option<usize> = self.state.input_pin_at(at, reach);
                (next, true, Some(BlueprintMsg::ConnectEnded { target }))
            },
            InteractionKind::Panning => {
                if st.moved {
                    (next, true, Some(BlueprintMsg::PanEnded))
                } else {
                    (next, true, Some(BlueprintMsg::Deselected))
                }
            },
            InteractionKind::Idle => (next, false, None),
        }
    }

    /// Handles an event of the pointer. `at` is its place on the canvas, if it
    /// has one. The result tells whether the canvas took the event, and what it
    /// asks the editor for.
    pub fn update(&self, state: &mut CanvasState, event: CanvasEvent, at: Option<Spot>) -> (r: (
        bool,
        Option<BlueprintMsg>,
    ))
        ensures
            *final(state) == reaction(self.state@, *old(state), event, at).next,
            r.0 == reaction(self.state@, *old(state), event, at).taken,
            r.1 == reaction(self.state@, *old(state), event, at).message,
    {
        let pos: Spot = match at {
            Some(pos) => pos,
            None => {
                return (false, None);
            },
        };
        match event {
            CanvasEvent::LeftPressed => {
                let (next, message) = self.press(*state, pos);
                *state = next;
                (true, message)
            },
            CanvasEvent::Moved => {
                let last: Spot = state.last_canvas;
                match state.kind {
                    InteractionKind::DraggingNode => {
                        state.moved = true;
                        state.last_canvas = pos;
                        (true, Some(BlueprintMsg::DragMoved { pos }))
                    },
                    InteractionKind::Panning => {
                        state.moved = true;
                        state.last_canvas = pos;
                        (true, Some(BlueprintMsg::PanMoved { delta: way_to(last, pos) }))
                    },
                    InteractionKind::Connecting => {
                        state.last_canvas = pos;
                        (true, Some(BlueprintMsg::ConnectMoved { pos }))
                    },
                    InteractionKind::Idle => (false, None),
                }
            },
            CanvasEvent::LeftReleased => {
                let (next, taken, message) = self.release(*state, pos);
                *state = next;
                (taken, message)
            },
            CanvasEvent::RightPressed => {
                state.press_origin = Some(pos);
                state.moved = false;
                (true, None)
            },
            CanvasEvent::RightReleased => {
                if state.moved {
                    state.kind = InteractionKind::Idle;
                    state.press_origin = None;
                    (true, None)
                } else {
                    (true, Some(BlueprintMsg::RightClicked { pos }))
                }
            },
            CanvasEvent::Other => (false, None),
        }
    }

    /// The shape of the pointer at a place on the canvas.
    pub fn mouse_interaction(&self, at: Option<Spot>) -> (r: PointerShape)
        ensures
            r == shape_at(self.state@, at),
    {
        let reach: u32 = if self.state.touch_mode {
            14_000
        } else {
            8_000
        };
        match at {
            None => PointerShape::Default,
            Some(pos) => {
                if self.state.output_pin_at(pos, reach).is_some() || self.state.input_pin_at(
                    pos,
                    reach,
                ).is_some() {
                    PointerShape::Crosshair
                } else if self.state.node_at(pos).is_some() {
                    PointerShape::Pointer
                } else {
                    PointerShape::Default
                }
            },
        }
    }
}

/// A press begins something, and the release of the button ends it.
pub proof fn law_release_ends(b: blueprint::Blueprint, st: CanvasState, at: Spot)
    ensures
        reaction(b, st, CanvasEvent::LeftPressed, Some(at)).next.kind != InteractionKind::Idle,
        reaction(b, st, CanvasEvent::LeftReleased, Some(at)).next.kind == InteractionKind::Idle,
        reaction(b, st, CanvasEvent::LeftReleased, Some(at)).message is None <==> st.kind
            == InteractionKind::Idle,
{
}

} // verus!
