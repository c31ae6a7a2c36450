use node_graph::geometry::{bezier_point, curvature, screen_to_world, world_to_screen, Point, PortKind};
use node_graph::interact::FrameInput;
use node_graph::model::{DragState, GraphEditor};

fn pt(x: i64, y: i64) -> Point {
    Point { x, y }
}

#[test]
fn default_graph_has_three_linked_nodes() {
    let e = GraphEditor::default();
    assert_eq!(e.nodes().len(), 3);
    assert_eq!(e.nodes()[0].id, 0);
    assert_eq!(e.nodes()[0].title, "Input");
    assert_eq!(e.nodes()[0].position, pt(100, 100));
    assert_eq!(e.nodes()[1].id, 1);
    assert_eq!(e.nodes()[1].title, "Deal");
    assert_eq!(e.nodes()[1].position, pt(340, 140));
    assert_eq!(e.nodes()[2].id, 2);
    assert_eq!(e.nodes()[2].title, "Output");
    assert_eq!(e.nodes()[2].position, pt(580, 100));
    assert_eq!(e.connections().len(), 2);
    assert_eq!(e.connections()[0].from_node_id, 0);
    assert_eq!(e.connections()[0].to_node_id, 1);
    assert_eq!(e.connections()[1].from_node_id, 1);
    assert_eq!(e.connections()[1].to_node_id, 2);
    assert_eq!(e.next_node_id(), 3);
    assert_eq!(e.pan_offset(), pt(0, 0));
    assert!(matches!(e.drag(), DragState::Idle));
}

#[test]
fn added_node_ids_are_distinct_and_never_reused() {
    let mut e = GraphEditor::new();
    for _ in 0..5 {
        e.add_node();
    }
    for i in 0..5 {
        for j in 0..5 {
            if i != j {
                assert_ne!(e.nodes()[i].id, e.nodes()[j].id);
            }
        }
    }
    assert_eq!(e.next_node_id(), 5);
    assert_eq!(e.nodes()[0].title, "Node 0");
    assert_eq!(e.nodes()[4].title, "Node 4");
    assert_eq!(e.nodes()[0].content, ".....");
    assert_eq!(e.nodes()[0].position, pt(220, 220));
    assert_eq!(e.nodes()[1].position, pt(244, 220));
    assert_eq!(e.nodes()[4].position, pt(316, 220));
}

#[test]
fn self_loop_is_never_added() {
    let mut e = GraphEditor::default();
    e.add_connection(0, 0);
    assert_eq!(e.connections().len(), 2);
    e.clear_connections();
    e.add_connection(1, 1);
    assert_eq!(e.connections().len(), 0);
}

#[test]
fn duplicate_edge_is_added_once() {
    let mut e = GraphEditor::default();
    e.clear_connections();
    e.add_connection(0, 1);
    e.add_connection(0, 1);
    assert_eq!(e.connections().len(), 1);
    assert_eq!(e.connections()[0].from_node_id, 0);
    assert_eq!(e.connections()[0].to_node_id, 1);
    // the reverse direction is a different edge and is accepted
    e.add_connection(1, 0);
    assert_eq!(e.connections().len(), 2);
}

#[test]
fn connection_to_missing_node_is_ignored() {
    let mut e = GraphEditor::default();
    e.clear_connections();
    e.add_connection(0, 99);
    e.add_connection(99, 0);
    assert_eq!(e.connections().len(), 0);
}

#[test]
fn bezier_hits_endpoints_exactly() {
    let p0 = pt(288, 165);
    let p1 = pt(315, 165);
    let p2 = pt(305, 205);
    let p3 = pt(332, 205);
    assert_eq!(bezier_point(p0, p1, p2, p3, 0, 24), p0);
    assert_eq!(bezier_point(p0, p1, p2, p3, 24, 24), p3);
    let q0 = pt(-400, 12);
    let q3 = pt(77, -300);
    assert_eq!(bezier_point(q0, pt(5, 5), pt(-9, 40), q3, 0, 24), q0);
    assert_eq!(bezier_point(q0, pt(5, 5), pt(-9, 40), q3, 24, 24), q3);
}

#[test]
fn bezier_midpoint_exact_value() {
    // (p0 + 3 c1 + 3 c2 + p3) / 8 at t = 1/2
    let mid = bezier_point(pt(288, 165), pt(315, 165), pt(305, 205), pt(332, 205), 12, 24);
    assert_eq!(mid, pt(310, 185));
}

#[test]
fn curvature_floors_small_spans() {
    // span 44 is floored at 60; 60 * 45 / 100 = 27
    assert_eq!(curvature(288, 332), 27);
    // span 200: 200 * 45 / 100 = 90
    assert_eq!(curvature(0, 200), 90);
    assert_eq!(curvature(200, 0), 90);
}

#[test]
fn world_screen_round_trip() {
    let pan = pt(-35, 80);
    let w = pt(123, -456);
    let s = world_to_screen(w, pan);
    assert_eq!(s, pt(88, -376));
    assert_eq!(screen_to_world(s, pan), w);
}

#[test]
fn port_hit_symmetry_at_default_positions() {
    // node 0 at (100,100), size 180x130, pan (0,0):
    // input port (92,165), output port (288,165)
    let e = GraphEditor::default();
    assert_eq!(e.port_at(pt(92, 165)), Some((0, PortKind::Input)));
    assert_eq!(e.port_at(pt(288, 165)), Some((0, PortKind::Output)));
    // just inside the hit radius still acquires the port
    assert_eq!(e.port_at(pt(95, 160)), Some((0, PortKind::Input)));
    // far from every port: nothing
    assert_eq!(e.port_at(pt(200, 400)), None);
}

#[test]
fn link_drag_creates_one_connection() {
    let mut e = GraphEditor::default();
    e.clear_connections();
    // drag from node 0's output port (288,165) to node 1's input port (332,205)
    e.primary_press(pt(288, 165));
    assert!(matches!(e.drag(), DragState::LinkDrag { from_node: 0, .. }));
    e.link_drag_motion(pt(310, 185));
    e.release_primary(Some(pt(332, 205)));
    assert!(matches!(e.drag(), DragState::Idle));
    assert_eq!(e.connections().len(), 1);
    assert_eq!(e.connections()[0].from_node_id, 0);
    assert_eq!(e.connections()[0].to_node_id, 1);
    // the same drag again adds nothing: the edge already exists
    e.primary_press(pt(288, 165));
    e.release_primary(Some(pt(332, 205)));
    assert_eq!(e.connections().len(), 1);
}

#[test]
fn link_drag_to_own_input_is_discarded() {
    let mut e = GraphEditor::default();
    e.clear_connections();
    e.primary_press(pt(288, 165));
    e.release_primary(Some(pt(92, 165)));
    assert_eq!(e.connections().len(), 0);
}

#[test]
fn link_drag_released_on_empty_space_is_discarded() {
    let mut e = GraphEditor::default();
    e.clear_connections();
    e.primary_press(pt(288, 165));
    e.release_primary(Some(pt(500, 400)));
    assert_eq!(e.connections().len(), 0);
    assert!(matches!(e.drag(), DragState::Idle));
}

#[test]
fn input_port_does_not_start_a_link_drag() {
    let mut e = GraphEditor::default();
    e.primary_press(pt(92, 165));
    assert!(matches!(e.drag(), DragState::Idle));
}

#[test]
fn secondary_click_near_curve_removes_connection() {
    let mut e = GraphEditor::default();
    e.clear_connections();
    e.add_connection(0, 1);
    // (310,185) is the exact midpoint of the (0,1) curve
    e.secondary_click(pt(310, 185));
    assert_eq!(e.connections().len(), 0);
    e.add_connection(0, 1);
    // far from every curve: nothing is removed
    e.secondary_click(pt(700, 700));
    assert_eq!(e.connections().len(), 1);
}

#[test]
fn pan_round_trip_restores_offset() {
    let mut e = GraphEditor::default();
    // (50,400) is over no node and near no port: the press starts a pan
    e.primary_press(pt(50, 400));
    assert!(matches!(e.drag(), DragState::CanvasPan));
    e.pan_motion(pt(30, -20));
    assert_eq!(e.pan_offset(), pt(30, -20));
    e.pan_motion(pt(-30, 20));
    assert_eq!(e.pan_offset(), pt(0, 0));
    e.release_primary(None);
    assert!(matches!(e.drag(), DragState::Idle));
}

#[test]
fn reset_view_clears_pan() {
    let mut e = GraphEditor::default();
    e.primary_press(pt(50, 400));
    e.pan_motion(pt(7, 9));
    e.release_primary(None);
    e.reset_view();
    assert_eq!(e.pan_offset(), pt(0, 0));
    // zero drag motion afterwards leaves it at (0,0)
    e.primary_press(pt(50, 400));
    e.pan_motion(pt(0, 0));
    assert_eq!(e.pan_offset(), pt(0, 0));
}

#[test]
fn press_on_node_body_neither_pans_nor_drags() {
    let mut e = GraphEditor::default();
    // (150, 180) is inside node 0's body, below the header
    e.primary_press(pt(150, 180));
    assert!(matches!(e.drag(), DragState::Idle));
}

#[test]
fn header_press_drags_node() {
    let mut e = GraphEditor::default();
    // (150, 110) is inside node 0's header strip
    e.primary_press(pt(150, 110));
    assert!(matches!(e.drag(), DragState::NodeDrag { node_id: 0 }));
    e.node_drag_motion(pt(10, 5));
    assert_eq!(e.nodes()[0].position, pt(110, 105));
    e.node_drag_motion(pt(-10, -5));
    assert_eq!(e.nodes()[0].position, pt(100, 100));
    e.release_primary(Some(pt(150, 110)));
    assert!(matches!(e.drag(), DragState::Idle));
}

#[test]
fn node_position_clamps_at_canvas_extent() {
    let mut e = GraphEditor::default();
    e.move_node_by(0, pt(100_000, 0));
    e.move_node_by(0, pt(100_000, 0));
    assert_eq!(e.nodes()[0].position, pt(100_000, 100));
}

#[test]
fn content_is_clamped_to_line_limit() {
    let mut e = GraphEditor::new();
    e.add_node();
    // default node height 130 allows 4 content lines
    e.set_content(0, String::from("a\nbb\nccc\ndddd\neeeee\nffffff"));
    assert_eq!(e.nodes()[0].content, "a\nbb\nccc\ndddd");
    e.set_content(0, String::from("one\ntwo"));
    assert_eq!(e.nodes()[0].content, "one\ntwo");
    e.set_content(0, String::from(""));
    assert_eq!(e.nodes()[0].content, "");
}

#[test]
fn set_title_edits_only_that_node() {
    let mut e = GraphEditor::default();
    e.set_title(1, String::from("Middle"));
    assert_eq!(e.nodes()[0].title, "Input");
    assert_eq!(e.nodes()[1].title, "Middle");
    assert_eq!(e.nodes()[2].title, "Output");
    // a stale id is silently absorbed
    e.set_title(99, String::from("nowhere"));
    assert_eq!(e.nodes().len(), 3);
}

#[test]
fn frame_pan_gesture() {
    let mut e = GraphEditor::default();
    let press = FrameInput {
        pointer: Some(pt(50, 400)),
        primary_pressed: true,
        primary_down: true,
        secondary_clicked: false,
        drag_delta: pt(0, 0),
    };
    e.frame(&press);
    assert!(matches!(e.drag(), DragState::CanvasPan));
    let drag = FrameInput {
        pointer: Some(pt(60, 395)),
        primary_pressed: false,
        primary_down: true,
        secondary_clicked: false,
        drag_delta: pt(10, -5),
    };
    e.frame(&drag);
    assert_eq!(e.pan_offset(), pt(10, -5));
    let release = FrameInput {
        pointer: Some(pt(60, 395)),
        primary_pressed: false,
        primary_down: false,
        secondary_clicked: false,
        drag_delta: pt(0, 0),
    };
    e.frame(&release);
    assert!(matches!(e.drag(), DragState::Idle));
    assert_eq!(e.pan_offset(), pt(10, -5));
}

#[test]
fn frame_link_gesture_end_to_end() {
    let mut e = GraphEditor::default();
    e.clear_connections();
    let press = FrameInput {
        pointer: Some(pt(288, 165)),
        primary_pressed: true,
        primary_down: true,
        secondary_clicked: false,
        drag_delta: pt(0, 0),
    };
    e.frame(&press);
    assert!(matches!(e.drag(), DragState::LinkDrag { from_node: 0, .. }));
    let release = FrameInput {
        pointer: Some(pt(332, 205)),
        primary_pressed: false,
        primary_down: false,
        secondary_clicked: false,
        drag_delta: pt(0, 0),
    };
    e.frame(&release);
    assert_eq!(e.connections().len(), 1);
    assert_eq!(e.connections()[0].from_node_id, 0);
    assert_eq!(e.connections()[0].to_node_id, 1);
}

#[test]
fn frame_secondary_click_deletes_connection() {
    let mut e = GraphEditor::default();
    e.clear_connections();
    e.add_connection(0, 1);
    let click = FrameInput {
        pointer: Some(pt(310, 185)),
        primary_pressed: false,
        primary_down: false,
        secondary_clicked: true,
        drag_delta: pt(0, 0),
    };
    e.frame(&click);
    assert_eq!(e.connections().len(), 0);
}

#[test]
fn hit_tests_follow_the_pan_offset() {
    let mut e = GraphEditor::default();
    e.clear_connections();
    // pan the view by (50, 30)
    e.primary_press(pt(50, 400));
    e.pan_motion(pt(50, 30));
    e.release_primary(None);
    assert_eq!(e.pan_offset(), pt(50, 30));
    // the ports moved with the view: node 0's input is now at (142, 195)
    assert_eq!(e.port_at(pt(142, 195)), Some((0, PortKind::Input)));
    assert_eq!(e.port_at(pt(92, 165)), None);
    // a link drag works the same in the panned view
    e.primary_press(pt(338, 195));
    e.release_primary(Some(pt(382, 235)));
    assert_eq!(e.connections().len(), 1);
    assert_eq!(e.connections()[0].from_node_id, 0);
    assert_eq!(e.connections()[0].to_node_id, 1);
}

#[test]
fn frame_node_drag_gesture() {
    let mut e = GraphEditor::default();
    let press = FrameInput {
        pointer: Some(pt(150, 110)),
        primary_pressed: true,
        primary_down: true,
        secondary_clicked: false,
        drag_delta: pt(0, 0),
    };
    e.frame(&press);
    assert!(matches!(e.drag(), DragState::NodeDrag { node_id: 0 }));
    let drag = FrameInput {
        pointer: Some(pt(170, 120)),
        primary_pressed: false,
        primary_down: true,
        secondary_clicked: false,
        drag_delta: pt(20, 10),
    };
    e.frame(&drag);
    assert_eq!(e.nodes()[0].position, pt(120, 110));
    let release = FrameInput {
        pointer: None,
        primary_pressed: false,
        primary_down: false,
        secondary_clicked: false,
        drag_delta: pt(0, 0),
    };
    e.frame(&release);
    assert!(matches!(e.drag(), DragState::Idle));
    assert_eq!(e.nodes()[0].position, pt(120, 110));
}

#[test]
fn remove_connection_by_index() {
    let mut e = GraphEditor::default();
    assert_eq!(e.connections().len(), 2);
    e.remove_connection(0);
    assert_eq!(e.connections().len(), 1);
    assert_eq!(e.connections()[0].from_node_id, 1);
    assert_eq!(e.connections()[0].to_node_id, 2);
}

#[test]
fn find_node_by_id() {
    let e = GraphEditor::default();
    assert_eq!(e.find_node(1), Some(1));
    assert_eq!(e.find_node(42), None);
}

#[test]
fn connection_hit_test_resolves_first_match() {
    let e = GraphEditor::default();
    // midpoint of the (0,1) curve
    assert_eq!(e.hit_test_connection(pt(310, 185), 10), Some(0));
    // far away from both curves
    assert_eq!(e.hit_test_connection(pt(100, 500), 10), None);
}
