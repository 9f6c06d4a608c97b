use logic_gates::components::connection::Connection;
use logic_gates::components::gate::{GateType, LogicGate};
use logic_gates::components::node::{Node, NodeType, Nodes};
use logic_gates::config::logic_gate_config::LogicGateConfig;
use logic_gates::serialize_point::SerializablePoint;
use logic_gates::state::logic_gate_app_state::LogicGateAppState;

fn group(x: i64, y: i64) -> Nodes {
    Nodes {
        input_nodes: vec![Node::new(SerializablePoint::new(x, y), NodeType::Input, 15)],
        output_nodes: vec![Node::new(SerializablePoint::new(x + 5, y), NodeType::Output, 15)],
    }
}

#[test]
fn active_source_switches_target_and_wire_on() {
    let mut state = LogicGateAppState {
        nodes: vec![group(25, 400), group(500, 400)],
        gates: Vec::new(),
        connections: vec![Connection::new(0, 1, Vec::new())],
    };
    state.nodes[0].input_nodes[0].state = true;
    state.update_connections();
    assert!(state.connections[0].is_active);
    assert!(state.nodes[1].input_nodes[0].state);
    assert!(state.nodes[1].output_nodes[0].state);
    // The source keeps its own state.
    assert!(state.nodes[0].input_nodes[0].state);
}

#[test]
fn inactive_source_switches_target_and_wire_off() {
    let mut state = LogicGateAppState {
        nodes: vec![group(25, 400), group(500, 400)],
        gates: Vec::new(),
        connections: vec![Connection::new(0, 1, Vec::new())],
    };
    state.connections[0].is_active = true;
    state.nodes[1].input_nodes[0].state = true;
    state.nodes[1].output_nodes[0].state = true;
    state.update_connections();
    assert!(!state.connections[0].is_active);
    assert!(!state.nodes[1].input_nodes[0].state);
    assert!(!state.nodes[1].output_nodes[0].state);
}

#[test]
fn later_source_overrides_earlier_one() {
    let mut state = LogicGateAppState {
        nodes: vec![group(25, 100), group(25, 200), group(500, 400)],
        gates: Vec::new(),
        connections: vec![Connection::new(0, 2, Vec::new()), Connection::new(1, 2, Vec::new())],
    };
    state.nodes[0].input_nodes[0].state = true;
    state.nodes[1].input_nodes[0].state = false;
    state.update_connections();
    // Both connections push to group 2; group 1 is walked after group 0.
    assert!(state.connections[0].is_active);
    assert!(!state.connections[1].is_active);
    assert!(!state.nodes[2].input_nodes[0].state);
}

#[test]
fn not_gate_on_updated_point_shows_negated_state() {
    let config = LogicGateConfig::new_default();
    let target = group(500, 400);
    let target_input_position = target.input_nodes[0].position;
    let mut gate = LogicGate::new(
        GateType::Not,
        SerializablePoint::new(300, 300),
        1,
        1,
        &config,
    );
    gate.nodes.input_nodes[0].position = target_input_position;
    let mut state = LogicGateAppState {
        nodes: vec![group(25, 400), target],
        gates: vec![gate],
        connections: vec![Connection::new(0, 1, Vec::new())],
    };
    state.nodes[0].input_nodes[0].state = true;
    state.update_connections();
    assert!(state.nodes[1].input_nodes[0].state);
    assert!(!state.gates[0].nodes.output_nodes[0].state);

    state.nodes[0].input_nodes[0].state = false;
    state.update_connections();
    assert!(state.gates[0].nodes.output_nodes[0].state);
}

#[test]
fn gate_elsewhere_is_left_alone() {
    let config = LogicGateConfig::new_default();
    let gate = LogicGate::new(
        GateType::Not,
        SerializablePoint::new(300, 300),
        1,
        1,
        &config,
    );
    let mut state = LogicGateAppState {
        nodes: vec![group(25, 400), group(500, 400)],
        gates: vec![gate],
        connections: vec![Connection::new(0, 1, Vec::new())],
    };
    state.nodes[0].input_nodes[0].state = true;
    state.update_connections();
    assert!(!state.gates[0].nodes.output_nodes[0].state);
}

#[test]
fn wire_from_missing_group_keeps_its_flag() {
    let mut state = LogicGateAppState {
        nodes: vec![group(25, 400)],
        gates: Vec::new(),
        connections: vec![Connection::new(7, 0, Vec::new())],
    };
    state.connections[0].is_active = true;
    state.update_connections();
    assert!(state.connections[0].is_active);
    assert!(!state.nodes[0].input_nodes[0].state);
}

#[test]
fn pass_without_connections_changes_nothing() {
    let mut state = LogicGateAppState::new();
    state.nodes[0].input_nodes[0].state = true;
    state.update_connections();
    assert!(state.nodes[0].input_nodes[0].state);
    assert!(!state.nodes[0].output_nodes[0].state);
    assert_eq!(state.nodes.len(), 1);
    assert!(state.gates.is_empty());
    assert!(state.connections.is_empty());
}

#[test]
fn fresh_circuit_has_one_boundary_pair() {
    let state = LogicGateAppState::new();
    assert_eq!(state.nodes.len(), 1);
    assert_eq!(state.nodes[0].input_nodes.len(), 1);
    assert_eq!(state.nodes[0].output_nodes.len(), 1);
    assert_eq!(state.nodes[0].input_nodes[0].position, SerializablePoint::new(25, 400));
    assert_eq!(state.nodes[0].output_nodes[0].position, SerializablePoint::new(1415, 400));
    assert!(!state.nodes[0].input_nodes[0].state);
}

#[test]
fn find_node_prefers_earlier_groups_and_inputs() {
    let state = LogicGateAppState {
        nodes: vec![group(100, 100), group(100, 100)],
        gates: Vec::new(),
        connections: Vec::new(),
    };
    // Both groups sit at the same spot: the first group's input wins.
    let hit = state.find_node_at_position(SerializablePoint::new(102, 101));
    assert_eq!(hit, Some((0, NodeType::Input)));
    let miss = state.find_node_at_position(SerializablePoint::new(900, 900));
    assert_eq!(miss, None);
}

#[test]
fn find_gate_reports_index_and_copy() {
    let config = LogicGateConfig::new_default();
    let state = LogicGateAppState {
        nodes: Vec::new(),
        gates: vec![
            LogicGate::new(GateType::And, SerializablePoint::new(100, 100), 2, 1, &config),
            LogicGate::new(GateType::Not, SerializablePoint::new(300, 100), 1, 1, &config),
        ],
        connections: Vec::new(),
    };
    let hit = state.find_gate_at_position(SerializablePoint::new(310, 120));
    let (index, gate) = hit.expect("the second gate holds this point");
    assert_eq!(index, 1);
    assert_eq!(gate.position, SerializablePoint::new(300, 100));
    assert!(state.find_gate_at_position(SerializablePoint::new(700, 700)).is_none());
}

#[test]
fn proximity_skips_the_drag_anchor() {
    let state = LogicGateAppState {
        nodes: vec![group(100, 100)],
        gates: Vec::new(),
        connections: Vec::new(),
    };
    let anchor = SerializablePoint::new(100, 100);
    // The cursor is near both points of the group; the anchor itself is
    // skipped, so the snap lands on the output at (105, 100).
    let snapped = state.check_proximity_to_nodes(SerializablePoint::new(101, 100), &anchor);
    assert_eq!(snapped, Some(SerializablePoint::new(105, 100)));
    let far = state.check_proximity_to_nodes(SerializablePoint::new(901, 900), &anchor);
    assert_eq!(far, None);
}
