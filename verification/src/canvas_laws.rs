//! Laws of the pointer on the canvas, of the places of nodes and of lists of files.

use crate::blueprint;
use crate::blueprint::{NodeKind, Spot};
use crate::canvas;
use crate::canvas::{BlueprintMsg, CanvasEvent, CanvasState, InteractionKind, PointerShape};
use crate::graph;
use crate::layout;
use crate::picker;
use crate::picker::PickerEntry;
use crate::pointer;
use crate::pointer::PointerFrame;
use crate::slices;
use crate::text;
use vstd::prelude::*;

verus! {

// ---------------------------------------------------------------------------
// Places and sizes
// ---------------------------------------------------------------------------

/// Whether a coordinate is far from the largest and the smallest.
pub open spec fn is_near(x: i64) -> bool {
    -0x1000_0000_0000_0000 < x < 0x1000_0000_0000_0000
}

pub open spec fn is_near_spot(s: Spot) -> bool {
    is_near(s.x) && is_near(s.y)
}

/// The way from one place to another leads there.
pub proof fn law_ways(from: Spot, to: Spot)
    requires
        is_near_spot(from),
        is_near_spot(to),
    ensures
        canvas::moved_by(from, canvas::way(from, to)) == to,
        canvas::way(from, to).x == to.x - from.x,
        canvas::way(from, to).y == to.y - from.y,
        canvas::way(from, from) == (Spot { x: 0, y: 0 }),
{
}

proof fn lemma_widest(lines: Seq<Seq<char>>, i: int)
    requires
        0 <= i < lines.len(),
    ensures
        layout::line_width(lines[i]) <= layout::widest(lines),
    decreases lines.len(),
{
    if i < lines.len() - 1 {
        lemma_widest(lines.drop_last(), i);
    }
}

/// A node is at least two hundred and at most four hundred and twenty points wide, and
/// in between so wide that every line fits with a margin of twenty-four points; it is
/// twenty-two points higher than its lines of fifteen points and a margin of twelve.
pub proof fn law_sizes(t: Seq<char>, i: int)
    ensures
        200_000 <= layout::node_width(t) <= 420_000,
        0 <= i < slices::lines(t).len() && layout::node_width(t) < 420_000 ==> 1000 * (
        layout::line_width(slices::lines(t)[i]) + 24) <= layout::node_width(t),
        slices::lines(t).len() >= 2 ==> layout::node_height(t) == 1000 * (34 + 15 * slices::lines(
            t,
        ).len()),
        slices::lines(t).len() <= 1 ==> layout::node_height(t) == 58_000,
{
    if 0 <= i < slices::lines(t).len() {
        lemma_widest(slices::lines(t), i);
    }
}

/// A character of the ASCII set is seven points wide, any other twelve.
pub proof fn law_line_width(line: Seq<char>, c: char)
    ensures
        layout::line_width(line.push(c)) == layout::line_width(line) + (if (c as u32) < 128 {
            7int
        } else {
            12
        }),
        layout::line_width(Seq::empty()) == 0,
{
    assert(line.push(c).drop_last() =~= line);
}

/// A node that is added without a place stands below the last one.
pub proof fn law_next_place(nodes: Seq<blueprint::Node>)
    ensures
        nodes.len() == 0 ==> layout::next_place(nodes) == (Spot { x: 80_000, y: 80_000 }),
        nodes.len() > 0 && is_near(nodes.last().pos.y) && layout::node_height(nodes.last().text)
            < 0x1000_0000_0000_0000 ==> layout::next_place(nodes).x == nodes.last().pos.x
            && layout::next_place(nodes).y == nodes.last().pos.y + layout::node_height(
            nodes.last().text,
        ) + 24_000,
{
}

/// A column begins with each section, and behind six nodes.
pub proof fn law_columns(nodes: Seq<blueprint::Node>, n: blueprint::Node, collapse: bool)
    ensures
        ({
            let before = layout::column_after(nodes, collapse);
            let after = layout::column_after(nodes.push(n), collapse);
            if n.kind == NodeKind::Comment && collapse {
                after == before
            } else if before.rows >= 6 || (n.kind == NodeKind::Section && before.placed) {
                after.col == before.col + 1 && after.rows == 1
            } else {
                after.col == before.col && after.rows == before.rows + 1
            }
        }),
{
    assert(nodes.push(n).drop_last() =~= nodes);
}

/// Of the nodes under a point the last lies on top; a node that is folded away lies under
/// none.
pub proof fn law_topmost(
    nodes: Seq<blueprint::Node>,
    n: blueprint::Node,
    collapse: bool,
    at: Spot,
    edges: bool,
)
    ensures
        ({
            let all = nodes.push(n);
            let on = layout::covers(n, at, edges) && !(collapse && n.kind == NodeKind::Comment);
            layout::topmost(all, collapse, at, edges, all.len() as int) == (if on {
                Some(n.id)
            } else {
                layout::topmost(nodes, collapse, at, edges, nodes.len() as int)
            })
        }),
{
    lemma_topmost(nodes, n, collapse, at, edges, nodes.len() as int);
}

proof fn lemma_topmost(
    nodes: Seq<blueprint::Node>,
    n: blueprint::Node,
    collapse: bool,
    at: Spot,
    edges: bool,
    k: int,
)
    requires
        0 <= k <= nodes.len(),
    ensures
        layout::topmost(nodes.push(n), collapse, at, edges, k) == layout::topmost(
            nodes,
            collapse,
            at,
            edges,
            k,
        ),
    decreases k,
{
    if k > 0 {
        lemma_topmost(nodes, n, collapse, at, edges, k - 1);
    }
}

/// A node covers its corner and everything within its size; its far edges only where they
/// count.
pub proof fn law_covers(node: blueprint::Node, dx: int, dy: int, at: Spot)
    requires
        is_near_spot(node.pos),
        layout::node_height(node.text) < 0x1000_0000_0000_0000,
        at.x == node.pos.x + dx,
        at.y == node.pos.y + dy,
    ensures
        layout::covers(node, at, false) <==> 0 <= dx < layout::node_width(node.text) && 0 <= dy
            < layout::node_height(node.text),
        layout::covers(node, at, true) <==> 0 <= dx <= layout::node_width(node.text) && 0 <= dy
            <= layout::node_height(node.text),
{
    law_sizes(node.text, 0);
}

/// The pins of a node: the one for what comes in at the middle of its upper edge, the one
/// for what goes out at the middle of its lower edge.
pub proof fn law_pins(node: blueprint::Node, r: int, up: Spot, down: Spot)
    requires
        r >= 0,
        is_near_spot(node.pos),
        layout::node_height(node.text) < 0x1000_0000_0000_0000,
        up.x == node.pos.x + layout::node_width(node.text) / 2,
        up.y == node.pos.y,
        down.x == node.pos.x + layout::node_width(node.text) / 2,
        down.y == node.pos.y + layout::node_height(node.text),
    ensures
        layout::on_input(node, up, r),
        layout::on_output(node, down, r),
        r < layout::node_height(node.text) ==> !layout::on_input(node, down, r)
            && !layout::on_output(node, up, r),
{
    law_sizes(node.text, 0);
    let h = layout::node_height(node.text);
    let size = layout::size_of(node.text);
    assert(size.height == h && size.width == layout::node_width(node.text));
    assert(r * r >= 0) by (nonlinear_arith);
    assert(0 * 0 + 0 * 0 == 0int) by (nonlinear_arith);
    if r < h {
        assert(h * h > r * r && 0 * 0 + h * h == h * h) by (nonlinear_arith)
            requires
                0 <= r < h,
        ;
        assert((0 - h) * (0 - h) == h * h) by (nonlinear_arith);
    }
    let mid = node.pos.x + size.width / 2;
    assert(down.x - mid == 0 && down.y - (node.pos.y + size.height) == 0);
    assert(down.y - node.pos.y == h && up.y - (node.pos.y + size.height) == 0 - h);
}

// ---------------------------------------------------------------------------
// The pointer
// ---------------------------------------------------------------------------

/// A click on a node selects it; a node that was moved in between is not selected, and a
/// click on nothing selects nothing.
pub proof fn law_clicks(b: blueprint::Blueprint, st: CanvasState, at: Spot, to: Spot, id: usize)
    requires
        layout::first_output(
            b.nodes,
            b.collapse_comments,
            at,
            canvas::pin_reach(b.touch_mode),
            0,
        ) is None,
    ensures
        ({
            let hit = layout::topmost(
                b.nodes,
                b.collapse_comments,
                at,
                false,
                b.nodes.len() as int,
            );
            let down = canvas::on_press(b, st, at);
            let held = blueprint::Blueprint { drag_node: hit, ..b };
            let up = canvas::on_release(held, down.next, at);
            let gone = canvas::on_release(held, canvas::on_move(down.next, to).next, to);
            &&& hit == Some(id) ==> up.message == Some(BlueprintMsg::NodeSelected { id })
                && gone.message == Some(BlueprintMsg::DragEnded)
            &&& hit is None ==> up.message == Some(BlueprintMsg::Deselected) && gone.message
                == Some(BlueprintMsg::PanEnded)
            &&& up.next.kind == InteractionKind::Idle
            &&& gone.next.kind == InteractionKind::Idle
        }),
{
}

/// A press on the pin of a node draws a link from it, and where the button comes up on a
/// pin the link ends there.
pub proof fn law_links_are_drawn(
    b: blueprint::Blueprint,
    st: CanvasState,
    at: Spot,
    to: Spot,
    from: usize,
)
    requires
        layout::first_output(
            b.nodes,
            b.collapse_comments,
            at,
            canvas::pin_reach(b.touch_mode),
            0,
        ) == Some(from),
    ensures
        ({
            let down = canvas::on_press(b, st, at);
            let moved = canvas::on_move(down.next, to);
            let up = canvas::on_release(b, moved.next, to);
            &&& down.message == Some(BlueprintMsg::ConnectStarted { from, pos: at })
            &&& moved.message == Some(BlueprintMsg::ConnectMoved { pos: to })
            &&& up.message == Some(
                BlueprintMsg::ConnectEnded {
                    target: layout::first_input(
                        b.nodes,
                        b.collapse_comments,
                        to,
                        canvas::pin_reach(b.touch_mode),
                        0,
                    ),
                },
            )
        }),
{
}

/// A finger reaches further than a mouse.
pub proof fn law_reach()
    ensures
        canvas::pin_reach(false) == 8_000,
        canvas::pin_reach(true) == 14_000,
        pointer::reach(false) == 8_000,
        pointer::reach(true) == 16_000,
{
}

/// The canvas follows the pointer that moves it, and nothing happens without a place or
/// while nothing was begun.
pub proof fn law_moves(b: blueprint::Blueprint, st: CanvasState, e: CanvasEvent, to: Spot)
    requires
        is_near_spot(st.last_canvas),
        is_near_spot(to),
    ensures
        st.kind == InteractionKind::Panning ==> canvas::on_move(st, to).message == Some(
            BlueprintMsg::PanMoved {
                delta: Spot {
                    x: (to.x - st.last_canvas.x) as i64,
                    y: (to.y - st.last_canvas.y) as i64,
                },
            },
        ),
        st.kind == InteractionKind::Panning ==> canvas::on_move(st, to).next.last_canvas == to,
        st.kind == InteractionKind::DraggingNode ==> canvas::on_move(st, to).message == Some(
            BlueprintMsg::DragMoved { pos: to },
        ),
        st.kind == InteractionKind::Idle ==> canvas::on_move(st, to).message is None
            && canvas::on_move(st, to).next == st,
        canvas::reaction(b, st, e, None).message is None,
        canvas::reaction(b, st, e, None).next == st,
        !st.moved ==> canvas::reaction(b, st, CanvasEvent::RightReleased, Some(to)).message
            == Some(BlueprintMsg::RightClicked { pos: to }),
        st.moved ==> canvas::reaction(
            b,
            st,
            CanvasEvent::RightReleased,
            Some(to),
        ).message is None,
{
}

/// The pointer shows what lies under it: a pin, a node or nothing.
pub proof fn law_shapes(b: blueprint::Blueprint, at: Spot)
    ensures
        ({
            let r = canvas::pin_reach(b.touch_mode);
            let pin = layout::first_output(b.nodes, b.collapse_comments, at, r, 0) is Some
                || layout::first_input(b.nodes, b.collapse_comments, at, r, 0) is Some;
            let node = layout::topmost(
                b.nodes,
                b.collapse_comments,
                at,
                false,
                b.nodes.len() as int,
            ) is Some;
            &&& canvas::shape_at(b, Some(at)) == PointerShape::Crosshair <==> pin
            &&& canvas::shape_at(b, Some(at)) == PointerShape::Pointer <==> node && !pin
            &&& canvas::shape_at(b, None) == PointerShape::Default
        }),
{
}

/// A node that is dragged keeps the place under the pointer at which it was taken: it
/// moves as far as the pointer does.
pub proof fn law_drag_follows(
    b: blueprint::Blueprint,
    f: PointerFrame,
    g: PointerFrame,
    id: usize,
    k: int,
)
    requires
        f.primary_pressed && f.in_canvas && b.context_menu_pos is None && !f.pinching,
        layout::first_output(
            b.nodes,
            b.collapse_comments,
            f.at,
            pointer::reach(b.touch_mode),
            0,
        ) is None,
        pointer::under(b, f.at) == Some(id),
        graph::id_index(b.nodes, id, 0) == k,
        0 <= k < b.nodes.len(),
        b.connecting_from is None,
        g.primary_down && !g.pinching,
        is_near_spot(f.at),
        is_near_spot(g.at),
        is_near_spot(b.nodes[k].pos),
    ensures
        ({
            let r = pointer::held(pointer::pressed(b, f), g);
            let before = b.nodes[k].pos;
            &&& r.selected == Some(id)
            &&& r.nodes.len() == b.nodes.len()
            &&& r.nodes[k].pos.x == before.x + (g.at.x - f.at.x)
            &&& r.nodes[k].pos.y == before.y + (g.at.y - f.at.y)
            &&& r.nodes[k].text == b.nodes[k].text
            &&& forall|i: int|
                0 <= i < b.nodes.len() && i != k ==> #[trigger] r.nodes[i] == b.nodes[i]
            &&& r.links == b.links
        }),
{
}

/// A link that is dropped on a pin is made, and one that is dropped elsewhere is not;
/// either way nothing is held any more.
pub proof fn law_drop_makes_link(b: blueprint::Blueprint, f: PointerFrame, from: usize, to: usize)
    requires
        f.primary_released,
    ensures
        ({
            let r = pointer::released(b, f);
            let target = layout::first_input(
                b.nodes,
                b.collapse_comments,
                f.at,
                pointer::reach(b.touch_mode),
                0,
            );
            &&& b.connecting_from == Some(from) && target == Some(to) ==> r.links
                == graph::with_link(b.links, from, to)
            &&& b.connecting_from is None || target is None ==> r.links == b.links
            &&& r.connecting_from is None && r.drag_node is None && !r.touch_panning
            &&& r.nodes == b.nodes
        }),
{
}

/// The delete key removes the selected node; the escape key leaves the menu and the text.
pub proof fn law_keys(b: blueprint::Blueprint, f: PointerFrame, id: usize)
    requires
        !f.double_clicked,
        !f.primary_pressed,
    ensures
        f.delete_key && !f.escape_key && b.selected == Some(id) ==> pointer::keyed(b, f)
            == graph::without_node(b, id),
        f.delete_key && !f.escape_key && b.selected is None ==> pointer::keyed(b, f) == b,
        f.escape_key ==> pointer::keyed(b, f).context_menu_pos is None && pointer::keyed(
            b,
            f,
        ).editing_node is None,
        !f.delete_key && !f.escape_key ==> pointer::keyed(b, f) == b,
{
}

/// The secondary button opens the menu where it did not move, and moves the canvas where
/// it did.
pub proof fn law_secondary(b: blueprint::Blueprint, f: PointerFrame)
    requires
        !f.secondary_pressed,
        !f.pinching,
    ensures
        f.secondary_released && !f.secondary_down && !b.right_moved && f.in_canvas
            ==> pointer::secondary(b, f).context_menu_pos == Some(f.screen),
        f.secondary_released && !f.secondary_down && b.right_moved ==> pointer::secondary(
            b,
            f,
        ).context_menu_pos == b.context_menu_pos,
        f.secondary_released ==> pointer::secondary(b, f).right_press_pos is None,
        f.secondary_down && b.right_moved && b.right_press_pos is Some ==> pointer::secondary(
            b,
            f,
        ).pan == canvas::moved_by(b.pan, f.delta),
        !f.secondary_down ==> pointer::secondary(b, f).pan == b.pan,
{
}

// ---------------------------------------------------------------------------
// Lists of files
// ---------------------------------------------------------------------------

/// An entry is shown exactly where it has a name and the name holds the filter, upper and
/// lower case apart; an empty filter shows every name.
pub proof fn law_filter(
    entries: Seq<PickerEntry<Seq<char>>>,
    e: PickerEntry<Seq<char>>,
    filter: Seq<char>,
)
    ensures
        e.name.len() > 0 && text::contains(text::lower_case(e.name), text::lower_case(filter))
            ==> picker::passing(entries.push(e), filter) == picker::passing(entries, filter).push(
            e,
        ),
        e.name.len() > 0 && text::lower_case(filter).len() == 0 ==> picker::passing(
            entries.push(e),
            filter,
        ) == picker::passing(entries, filter).push(e),
        e.name.len() == 0 ==> picker::passing(entries.push(e), filter) == picker::passing(
            entries,
            filter,
        ),
        text::lower_case(filter).len() > 0 && !text::contains(
            text::lower_case(e.name),
            text::lower_case(filter),
        ) ==> picker::passing(entries.push(e), filter) == picker::passing(entries, filter),
{
    assert(entries.push(e).drop_last() =~= entries);
}

/// The scripts are the files that end in `.akrs`, behind a name of their own.
pub proof fn law_scripts(names: Seq<Seq<char>>, name: Seq<char>)
    ensures
        picker::is_script(name) ==> picker::scripts(names.push(name)) == picker::scripts(
            names,
        ).push(name),
        !picker::is_script(name) ==> picker::scripts(names.push(name)) == picker::scripts(names),
        !picker::is_script(".akrs"@),
{
    assert(names.push(name).drop_last() =~= names);
    reveal_strlit(".akrs");
    let d = ".akrs"@;
    assert(d.len() == 5 && d[0] == '.' && d[1] == 'a' && d[2] == 'k' && d[3] == 'r' && d[4]
        == 's');
    reveal_with_fuel(crate::previews::last_dot, 6);
    let d4 = d.drop_last();
    let d3 = d4.drop_last();
    let d2 = d3.drop_last();
    let d1 = d2.drop_last();
    assert(d4.last() == 'r' && d3.last() == 'k' && d2.last() == 'a' && d1.last() == '.');
}

/// A name with the ending of scripts is a script.
pub proof fn law_script_name(name: Seq<char>)
    requires
        name.len() > 0,
    ensures
        picker::is_script(name + ".akrs"@),
{
    reveal_strlit(".akrs");
    reveal_strlit("akrs");
    let f = name + ".akrs"@;
    let n = name.len() as int;
    let f4 = f.drop_last();
    let f3 = f4.drop_last();
    let f2 = f3.drop_last();
    let f1 = f2.drop_last();
    assert(f.last() == 's' && f4.last() == 'r' && f3.last() == 'k' && f2.last() == 'a' && f1.last()
        == '.');
    reveal_with_fuel(crate::previews::last_dot, 6);
    assert(crate::previews::last_dot(f) == n);
    assert(f.subrange(n + 1, f.len() as int) =~= "akrs"@);
}

} // verus!
