//! The canvas: nodes, links, layout, pointer and scripts.
use akrs::blueprint::{BlueprintLink, BlueprintState, NodeKind, Spot};
use akrs::canvas::{
    BlueprintMsg, BlueprintProgram, CanvasEvent, CanvasState, InteractionKind, PointerShape,
};
use akrs::pointer::PointerFrame;
use akrs::templates::{node_template, NODE_TEMPLATE_COUNT};

fn spot(x: i64, y: i64) -> Spot {
    Spot { x, y }
}

fn made(script: &str) -> BlueprintState {
    let mut b = BlueprintState::default();
    b.from_script(script);
    b
}

fn frame() -> PointerFrame {
    PointerFrame {
        at: spot(0, 0),
        screen: spot(0, 0),
        delta: spot(0, 0),
        in_canvas: true,
        primary_pressed: false,
        primary_down: false,
        primary_released: false,
        secondary_pressed: false,
        secondary_down: false,
        secondary_released: false,
        double_clicked: false,
        delete_key: false,
        escape_key: false,
        touched: false,
        pinching: false,
    }
}

#[test]
fn kinds_of_lines() {
    let kinds = [
        ("# A", NodeKind::Section),
        ("-> A", NodeKind::Flow),
        ("- Aki", NodeKind::Direction),
        ("+ Aki", NodeKind::Direction),
        ("@bg x", NodeKind::Command),
        ("// c", NodeKind::Comment),
        ("$x = 1", NodeKind::VarOp),
        ("ending \"a\"", NodeKind::Ending),
        ("end", NodeKind::StoryEnd),
        ("Aki: \"Hi\"", NodeKind::Dialogue),
        ("else", NodeKind::Other),
    ];
    for (line, kind) in kinds {
        assert_eq!(BlueprintState::detect_kind(line), kind, "{}", line);
    }
    assert_eq!(BlueprintState::node_label("# Start", NodeKind::Section), "章节");
    assert_eq!(BlueprintState::node_label("@ stop_music", NodeKind::Command), "停止音乐");
    assert_eq!(BlueprintState::node_label("@shake 2", NodeKind::Command), "shake");
    assert_eq!(BlueprintState::node_label("- Aki", NodeKind::Direction), "立绘下场");
    assert_eq!(BlueprintState::kind_color(NodeKind::Section), (70, 110, 200));
}

#[test]
fn scripts_come_back() {
    let b = made("# A\n\n// note\nAki: \"Hi\"\n   \n-> B\n");
    assert_eq!(b.nodes.len(), 4);
    assert_eq!(b.links.len(), 3);
    assert_eq!(b.to_script(), "# A\n// note\nAki: \"Hi\"\n-> B");
    assert!(b.orphan_comments().is_empty());
    assert_eq!(made("").to_script(), "");
    let alone = made("// only");
    assert_eq!(alone.to_script(), "");
    assert_eq!(alone.orphan_comments(), vec!["// only"]);
}

#[test]
fn each_node_is_read_once() {
    let mut b = made("# A\n\"1\"\n\"2\"\n");
    b.add_link(2, 0);
    b.add_link(0, 2);
    let loose = b.add_node(NodeKind::Narration, spot(0, 0), "\"3\"".to_string());
    let mut order = b.topo_order(&vec![]);
    assert_eq!(order.len(), 4);
    order.sort();
    assert_eq!(order, vec![0, 1, 2, loose]);
}

#[test]
fn links_into_a_node_are_replaced() {
    let mut b = made("# A\n\"1\"\n\"2\"\n");
    assert_eq!(b.incoming(2), Some(1));
    b.add_link(0, 2);
    assert_eq!(b.incoming(2), Some(0));
    assert_eq!(b.links.len(), 2);
    b.add_link(1, 1);
    b.add_link(0, 2);
    assert_eq!(b.links.len(), 2);
    b.remove_node(0);
    assert!(b.links.is_empty());
    assert_eq!(b.outgoing(0), None);
    assert_eq!(b.nodes.len(), 2);
}

#[test]
fn comments_belong_to_the_next_node() {
    let b = made("# A\n// one\n// two\n\"x\"\n");
    assert_eq!(b.comments_for_node(3), vec!["// one", "// two"]);
    assert_eq!(b.resolve_from(3), Some(3));
    assert_eq!(b.resolve_to(1), Some(3));
    assert_eq!(b.drawn_links(), vec![(0, 3)]);
    let mut shown = b;
    shown.toggle_comments();
    assert_eq!(shown.drawn_links(), vec![(0, 1), (1, 2), (2, 3)]);
}

#[test]
fn nodes_do_not_overlap() {
    let text: String = (0..15).map(|i| format!("\"line {}\"\n", i)).collect();
    let mut b = made(&text);
    b.auto_layout();
    for i in 0..b.nodes.len() {
        for j in 0..i {
            let (p, q) = (&b.nodes[i], &b.nodes[j]);
            let (s, t) = (BlueprintState::node_size(&p.text), BlueprintState::node_size(&q.text));
            let apart = p.pos.x + s.width <= q.pos.x
                || q.pos.x + t.width <= p.pos.x
                || p.pos.y + s.height <= q.pos.y
                || q.pos.y + t.height <= p.pos.y;
            assert!(apart, "{} {}", i, j);
        }
    }
}

#[test]
fn sizes_and_places() {
    let small = BlueprintState::node_size("x");
    assert_eq!(small.width, 200_000);
    let wide = BlueprintState::node_size(&"字".repeat(100));
    assert_eq!(wide.width, 420_000);
    let middle = BlueprintState::node_size(&"字".repeat(20));
    assert_eq!(middle.width, (12 * 20 + 24) * 1000);
    let empty = BlueprintState::default();
    assert_eq!(empty.next_placement_pos(), spot(80_000, 80_000));
    let mut b = BlueprintState::default();
    b.add_node(NodeKind::Narration, spot(10_000, 20_000), "x".to_string());
    assert_eq!(b.next_placement_pos(), spot(10_000, 20_000 + small.height + 24_000));
    assert_eq!(b.node_at(spot(10_000, 20_000)), Some(0));
    assert_eq!(b.node_at(spot(10_000 + 200_000, 20_000)), None);
    assert_eq!(b.output_pin_at(spot(110_000, 20_000 + small.height), 8_000), Some(0));
    assert_eq!(b.input_pin_at(spot(110_000, 20_000 + 8_001), 8_000), None);
}

#[test]
fn selected_texts_are_replaced() {
    let mut b = made("# A\n\"x\"\n");
    assert!(!b.replace_selected_text("y".to_string()));
    b.selected = Some(1);
    assert!(b.replace_selected_text("@bg y".to_string()));
    assert_eq!(b.nodes[1].text, "@bg y");
    assert_eq!(b.nodes[1].kind, NodeKind::Command);
    b.edit_text(0, "# B".to_string());
    assert_eq!(b.nodes[0].text, "# B");
    b.clear();
    assert!(b.nodes.is_empty() && b.selected.is_none());
}

#[test]
fn a_node_is_dragged() {
    let mut b = BlueprintState::default();
    b.add_node(NodeKind::Narration, spot(0, 0), "x".to_string());
    b.handle_frame(&PointerFrame { at: spot(5_000, 20_000), primary_pressed: true, primary_down: true, ..frame() });
    assert_eq!(b.drag_node, Some(0));
    assert_eq!(b.selected, Some(0));
    b.handle_frame(&PointerFrame { at: spot(15_000, 50_000), primary_down: true, ..frame() });
    assert_eq!(b.nodes[0].pos, spot(10_000, 30_000));
    b.handle_frame(&PointerFrame { at: spot(15_000, 50_000), primary_released: true, ..frame() });
    assert_eq!(b.drag_node, None);
    b.handle_frame(&PointerFrame { delete_key: true, ..frame() });
    assert!(b.nodes.is_empty());
}

#[test]
fn a_link_is_drawn() {
    let mut b = BlueprintState::default();
    b.add_node(NodeKind::Narration, spot(0, 0), "x".to_string());
    b.add_node(NodeKind::Narration, spot(0, 500_000), "y".to_string());
    let h = BlueprintState::node_size("x").height;
    b.handle_frame(&PointerFrame { at: spot(100_000, h), primary_pressed: true, primary_down: true, ..frame() });
    assert_eq!(b.connecting_from, Some(0));
    b.handle_frame(&PointerFrame { at: spot(100_000, 500_000), primary_released: true, ..frame() });
    assert_eq!(b.links, vec![BlueprintLink { from: 0, to: 1 }]);
    assert_eq!(b.connecting_from, None);
}

#[test]
fn the_menu_opens_where_nothing_moved() {
    let mut b = BlueprintState::default();
    let at = spot(40_000, 40_000);
    b.handle_frame(&PointerFrame { screen: at, secondary_pressed: true, secondary_down: true, ..frame() });
    b.handle_frame(&PointerFrame { screen: at, secondary_released: true, ..frame() });
    assert_eq!(b.context_menu_pos, Some(at));
    b.handle_frame(&PointerFrame { escape_key: true, ..frame() });
    assert_eq!(b.context_menu_pos, None);
    b.handle_frame(&PointerFrame { screen: at, secondary_pressed: true, secondary_down: true, ..frame() });
    b.handle_frame(&PointerFrame { screen: spot(50_000, 40_000), delta: spot(10_000, 0), secondary_down: true, ..frame() });
    b.handle_frame(&PointerFrame { screen: spot(50_000, 40_000), secondary_released: true, ..frame() });
    assert_eq!(b.context_menu_pos, None);
    assert_eq!(b.pan, spot(10_000, 0));
}

#[test]
fn canvas_messages() {
    let mut b = BlueprintState::default();
    b.add_node(NodeKind::Narration, spot(0, 0), "x".to_string());
    let program = BlueprintProgram::new(b);
    let mut state = CanvasState::default();
    let on_node = Some(spot(10_000, 30_000));
    let (taken, message) = program.update(&mut state, CanvasEvent::LeftPressed, on_node);
    assert!(taken);
    assert_eq!(message, Some(BlueprintMsg::DragStarted { id: 0, offset: spot(10_000, 30_000) }));
    assert_eq!(state.kind, InteractionKind::DraggingNode);
    let (_, message) = program.update(&mut state, CanvasEvent::Moved, Some(spot(11_000, 30_000)));
    assert_eq!(message, Some(BlueprintMsg::DragMoved { pos: spot(11_000, 30_000) }));
    let (_, message) = program.update(&mut state, CanvasEvent::LeftReleased, on_node);
    assert_eq!(message, Some(BlueprintMsg::DragEnded));
    assert_eq!(state.kind, InteractionKind::Idle);
    let far = Some(spot(9_000_000, 9_000_000));
    program.update(&mut state, CanvasEvent::LeftPressed, far);
    let (_, message) = program.update(&mut state, CanvasEvent::LeftReleased, far);
    assert_eq!(message, Some(BlueprintMsg::Deselected));
    assert_eq!(program.update(&mut state, CanvasEvent::LeftPressed, None), (false, None));
    assert_eq!(program.mouse_interaction(on_node), PointerShape::Pointer);
    assert_eq!(program.mouse_interaction(far), PointerShape::Default);
    assert_eq!(program.mouse_interaction(Some(spot(100_000, 0))), PointerShape::Crosshair);
}

#[test]
fn templates_are_complete() {
    assert_eq!(NODE_TEMPLATE_COUNT, 13);
    for i in 0..NODE_TEMPLATE_COUNT {
        assert!(node_template(i).is_some());
    }
    assert!(node_template(NODE_TEMPLATE_COUNT).is_none());
}
