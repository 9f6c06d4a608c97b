use logic_gates::components::connection::Connection;
use logic_gates::components::gate::GateType;
use logic_gates::components::node::NodeType;
use logic_gates::helpers::helpers::Rect;
use logic_gates::serialize_point::SerializablePoint;
use logic_gates::ui::logic_gate_app::{AppCommand, LogicGateApp, Message};

#[test]
fn a_fresh_editor_drags_nothing() {
    let app = LogicGateApp::new();
    assert!(app.dragging_node.is_none());
    assert!(app.drag_start.is_none());
    assert!(app.current_dragging_line.is_none());
    assert!(!app.is_dragging);
    assert!(app.dragging_gate_index.is_none());
    assert_eq!(app.state.nodes.len(), 1);
}

#[test]
fn save_and_load_are_handed_to_the_caller() {
    let mut app = LogicGateApp::new();
    assert_eq!(app.update(Message::Save), AppCommand::SaveRequested);
    assert_eq!(app.update(Message::Load), AppCommand::LoadRequested);
    assert_eq!(app.state.nodes.len(), 1);
}

#[test]
fn border_clicks_add_boundary_nodes() {
    let mut app = LogicGateApp::new();
    let cmd = app.update(Message::AddInputNode(SerializablePoint::new(10, 300)));
    assert_eq!(cmd, AppCommand::Nothing);
    assert_eq!(app.state.nodes[0].input_nodes.len(), 2);
    // The new point is pinned a node radius plus a margin off the border.
    assert_eq!(
        app.state.nodes[0].input_nodes[1].position,
        SerializablePoint::new(25, 300)
    );

    let bounds = Rect::new(0, 0, 1024, 568);
    app.update(Message::AddOutputNode(SerializablePoint::new(1010, 310), bounds));
    assert_eq!(app.state.nodes[0].output_nodes.len(), 2);
    assert_eq!(
        app.state.nodes[0].output_nodes[1].position,
        SerializablePoint::new(999, 310)
    );
}

#[test]
fn add_gate_places_a_sized_box() {
    let mut app = LogicGateApp::new();
    app.update(Message::AddGate(GateType::Not, 1, 1));
    assert_eq!(app.state.gates.len(), 1);
    let gate = &app.state.gates[0];
    assert_eq!(gate.position, SerializablePoint::new(150, 400));
    assert_eq!(gate.width, 50);
    assert_eq!(gate.height, 30);
    assert_eq!(gate.nodes.input_nodes.len(), 1);
    assert_eq!(gate.nodes.input_nodes[0].position, SerializablePoint::new(150, 415));
}

#[test]
fn dragging_bookkeeping_is_set_and_cleared() {
    let mut app = LogicGateApp::new();
    let start = SerializablePoint::new(25, 400);
    app.update(Message::UpdateDraggingNode(
        Some((0, NodeType::Input)),
        Some(start),
        SerializablePoint::new(26, 401),
    ));
    assert_eq!(app.dragging_node, Some((0, NodeType::Input)));
    assert_eq!(app.drag_start, Some(start));
    assert!(app.is_dragging);
    let line = app.current_dragging_line.as_ref().expect("a line was started");
    assert_eq!(line.points, vec![SerializablePoint::new(26, 401)]);

    app.update(Message::DisabledDragging);
    assert!(app.dragging_node.is_none());
    assert!(app.drag_start.is_none());
    assert!(!app.is_dragging);
    assert!(app.dragging_gate_index.is_none());
}

#[test]
fn dragged_lines_grow_orthogonally_and_stay_inside() {
    let mut app = LogicGateApp::new();
    app.update(Message::UpdateDraggingNode(
        Some((0, NodeType::Input)),
        Some(SerializablePoint::new(100, 100)),
        SerializablePoint::new(100, 100),
    ));
    // A mostly horizontal move keeps the previous y.
    app.update(Message::UpdateDraggingLine(
        SerializablePoint::new(130, 104),
        SerializablePoint::new(100, 100),
    ));
    {
        let line = app.current_dragging_line.as_ref().unwrap();
        assert_eq!(line.points.last(), Some(&SerializablePoint::new(130, 100)));
    }
    // A tiny move adds nothing.
    app.update(Message::UpdateDraggingLine(
        SerializablePoint::new(133, 102),
        SerializablePoint::new(130, 100),
    ));
    {
        let line = app.current_dragging_line.as_ref().unwrap();
        assert_eq!(line.points.len(), 2);
    }
    // A mostly vertical move past the border is clamped to it.
    app.update(Message::UpdateDraggingLine(
        SerializablePoint::new(131, 700),
        SerializablePoint::new(130, 100),
    ));
    let line = app.current_dragging_line.as_ref().unwrap();
    assert_eq!(line.points.last(), Some(&SerializablePoint::new(130, 568)));
}

#[test]
fn finishing_a_drag_records_the_connection() {
    let mut app = LogicGateApp::new();
    app.update(Message::UpdateDraggingNode(
        Some((0, NodeType::Input)),
        Some(SerializablePoint::new(25, 400)),
        SerializablePoint::new(25, 400),
    ));
    let cmd = app.update(Message::AddConnection(0, NodeType::Input));
    assert_eq!(cmd, AppCommand::Dispatch(Message::DisabledDragging));
    assert_eq!(app.state.connections.len(), 1);
    let c = &app.state.connections[0];
    assert_eq!(c.from, 0);
    assert_eq!(c.to, 0);
    assert!(!c.is_active);
    assert_eq!(c.path, vec![SerializablePoint::new(25, 400)]);
    let anchor = &app.state.nodes[0].input_nodes[0];
    let recorded = anchor.connected_to.as_ref().expect("the anchor keeps its connection");
    assert_eq!(recorded.from, 0);
    assert_eq!(recorded.to, 0);
}

#[test]
fn finishing_a_drag_without_one_does_nothing() {
    let mut app = LogicGateApp::new();
    let cmd = app.update(Message::AddConnection(0, NodeType::Input));
    assert_eq!(cmd, AppCommand::Nothing);
    assert!(app.state.connections.is_empty());
}

#[test]
fn toggling_a_connected_point_propagates() {
    let mut app = LogicGateApp::new();
    // Wire the boundary group to itself, anchored on its input point.
    app.state.connections.push(Connection::new(0, 0, Vec::new()));
    app.state.nodes[0].input_nodes[0].connected_to =
        Some(Connection::new(0, 0, Vec::new()));
    let cmd = app.update(Message::UpdateNodeState(0, NodeType::Input));
    assert_eq!(cmd, AppCommand::Dispatch(Message::DisabledDragging));
    assert!(app.state.nodes[0].input_nodes[0].state);
    assert!(app.state.nodes[0].output_nodes[0].state);
    assert!(app.state.connections[0].is_active);

    // A second toggle switches everything back off.
    app.update(Message::UpdateNodeState(0, NodeType::Input));
    assert!(!app.state.nodes[0].input_nodes[0].state);
    assert!(!app.state.nodes[0].output_nodes[0].state);
    assert!(!app.state.connections[0].is_active);
}

#[test]
fn toggling_an_unconnected_point_only_runs_the_pass() {
    let mut app = LogicGateApp::new();
    let cmd = app.update(Message::UpdateNodeState(0, NodeType::Input));
    assert_eq!(cmd, AppCommand::Dispatch(Message::DisabledDragging));
    assert!(!app.state.nodes[0].input_nodes[0].state);
}

#[test]
fn removing_a_node_shrinks_its_list() {
    let mut app = LogicGateApp::new();
    app.update(Message::AddInputNode(SerializablePoint::new(10, 300)));
    assert_eq!(app.state.nodes[0].input_nodes.len(), 2);
    app.update(Message::RemoveNode(0, NodeType::Input));
    assert_eq!(app.state.nodes[0].input_nodes.len(), 1);
    assert_eq!(
        app.state.nodes[0].input_nodes[0].position,
        SerializablePoint::new(25, 300)
    );
}

#[test]
fn dragging_a_gate_moves_its_box_and_points() {
    let mut app = LogicGateApp::new();
    app.update(Message::AddGate(GateType::Not, 1, 1));
    app.update(Message::UpdateDraggingGate(0, SerializablePoint::new(5, 5)));
    assert_eq!(app.dragging_gate_index, Some(0));
    // Drag down and to the right: the box lands at the cursor less the grab
    // offset.
    app.update(Message::UpdateDraggingGatePosition(
        SerializablePoint::new(305, 205),
        0,
        SerializablePoint::new(5, 5),
    ));
    let gate = &app.state.gates[0];
    assert_eq!(gate.position, SerializablePoint::new(300, 200));
    assert_eq!(gate.nodes.input_nodes[0].position, SerializablePoint::new(300, 215));
    assert_eq!(gate.nodes.output_nodes[0].position, SerializablePoint::new(350, 215));
}

#[test]
fn dragging_a_gate_clamps_it_to_the_working_area() {
    let mut app = LogicGateApp::new();
    app.update(Message::AddGate(GateType::Not, 1, 1));
    app.update(Message::UpdateDraggingGate(0, SerializablePoint::new(0, 0)));
    app.update(Message::UpdateDraggingGatePosition(
        SerializablePoint::new(-500, -500),
        0,
        SerializablePoint::new(0, 0),
    ));
    let gate = &app.state.gates[0];
    assert_eq!(gate.position, SerializablePoint::new(25, 25));

    app.update(Message::UpdateDraggingGate(0, SerializablePoint::new(0, 0)));
    app.update(Message::UpdateDraggingGatePosition(
        SerializablePoint::new(5000, 5000),
        0,
        SerializablePoint::new(0, 0),
    ));
    let gate = &app.state.gates[0];
    // The working area ends at x = 999 and y = 568; the box is 50 by 30.
    assert_eq!(gate.position, SerializablePoint::new(949, 538));
}

#[test]
fn gate_drag_without_a_start_is_ignored() {
    let mut app = LogicGateApp::new();
    app.update(Message::AddGate(GateType::Not, 1, 1));
    let before = app.state.gates[0].position;
    app.update(Message::UpdateDraggingGatePosition(
        SerializablePoint::new(305, 205),
        0,
        SerializablePoint::new(5, 5),
    ));
    assert_eq!(app.state.gates[0].position, before);
}
