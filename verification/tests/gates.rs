use logic_gates::components::gate::{GateType, LogicGate};
use logic_gates::config::logic_gate_config::LogicGateConfig;
use logic_gates::serialize_point::SerializablePoint;

fn gate(gate_type: GateType, inputs: usize, outputs: usize) -> LogicGate {
    LogicGate::new(
        gate_type,
        SerializablePoint::new(100, 200),
        inputs,
        outputs,
        &LogicGateConfig::new_default(),
    )
}

#[test]
fn and_gate_truth_table() {
    let cases = [
        (false, false, false),
        (false, true, false),
        (true, false, false),
        (true, true, true),
    ];
    for (a, b, expected) in cases {
        let mut g = gate(GateType::And, 2, 1);
        g.set_input(0, a);
        g.set_input(1, b);
        assert_eq!(g.get_output(), expected);
    }
}

#[test]
fn or_gate_truth_table() {
    let cases = [
        (false, false, false),
        (false, true, true),
        (true, false, true),
        (true, true, true),
    ];
    for (a, b, expected) in cases {
        let mut g = gate(GateType::Or, 2, 1);
        g.set_input(0, a);
        g.set_input(1, b);
        assert_eq!(g.get_output(), expected);
    }
}

#[test]
fn not_gate_inverts() {
    let mut g = gate(GateType::Not, 1, 1);
    g.set_input(0, false);
    assert!(g.get_output());
    g.set_input(0, true);
    assert!(!g.get_output());
}

#[test]
fn set_input_beyond_inputs_changes_nothing() {
    let mut g = gate(GateType::And, 2, 1);
    g.set_input(0, true);
    g.set_input(1, true);
    assert!(g.get_output());
    g.set_input(7, false);
    assert!(g.get_output());
    assert!(g.nodes.input_nodes[0].state);
    assert!(g.nodes.input_nodes[1].state);
}

#[test]
fn update_output_recomputes_from_inputs() {
    let mut g = gate(GateType::And, 2, 1);
    g.nodes.input_nodes[0].state = true;
    g.nodes.input_nodes[1].state = true;
    assert!(!g.get_output());
    g.update_output();
    assert!(g.get_output());
    g.update_output();
    assert!(g.get_output());
}

#[test]
fn gate_box_is_sized_from_node_counts() {
    let config = LogicGateConfig::new_default();
    assert_eq!(config.calculate_gate_size(2, 1), (50, 45));
    assert_eq!(config.calculate_gate_size(1, 1), (50, 30));
    assert_eq!(config.calculate_gate_size(0, 3), (50, 60));
}

#[test]
fn gate_nodes_are_spread_along_the_box_edges() {
    let g = gate(GateType::And, 2, 1);
    // Height is (2 + 1) * 15 = 45; inputs sit at a third and two thirds of it.
    assert_eq!(g.width, 50);
    assert_eq!(g.height, 45);
    assert_eq!(g.nodes.input_nodes.len(), 2);
    assert_eq!(g.nodes.input_nodes[0].position, SerializablePoint::new(100, 215));
    assert_eq!(g.nodes.input_nodes[1].position, SerializablePoint::new(100, 230));
    assert_eq!(g.nodes.output_nodes.len(), 1);
    // One output: offset 45 / 2 rounds down to 22, on the right edge.
    assert_eq!(g.nodes.output_nodes[0].position, SerializablePoint::new(150, 222));
    assert!(!g.nodes.input_nodes[0].state);
    assert!(g.nodes.input_nodes[0].connected_to.is_none());
}
