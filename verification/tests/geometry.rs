use logic_gates::components::gate::{GateType, LogicGate};
use logic_gates::components::node::{Node, NodeType};
use logic_gates::config::logic_gate_config::LogicGateConfig;
use logic_gates::helpers::helpers::{
    calculate_gate_size, clamp_point, get_dragging_edge, is_point_near, is_point_near_gate,
    is_point_near_node, Rect,
};
use logic_gates::serialize_point::SerializablePoint;
use logic_gates::ui::logic_gate_app::Edge;
use logic_gates::ui::update_draw::{create_node, EventStatus};
use logic_gates::ui::logic_gate_app::Message;

#[test]
fn point_near_matches_euclidean_distance() {
    let a = SerializablePoint::new(0, 0);
    let b = SerializablePoint::new(3, 4);
    // Distance is exactly 5.
    assert!(is_point_near(a, b, 5));
    assert!(!is_point_near(a, b, 4));
    assert!(is_point_near(a, a, 0));
}

#[test]
fn point_near_gate_is_box_containment() {
    let config = LogicGateConfig::new_default();
    let gate = LogicGate::new(GateType::And, SerializablePoint::new(100, 200), 2, 1, &config);
    // The box spans 100..=150 by 200..=245.
    assert!(is_point_near_gate(SerializablePoint::new(100, 200), &gate));
    assert!(is_point_near_gate(SerializablePoint::new(150, 245), &gate));
    assert!(!is_point_near_gate(SerializablePoint::new(151, 220), &gate));
    assert!(!is_point_near_gate(SerializablePoint::new(120, 199), &gate));
}

#[test]
fn point_near_node_uses_the_node_radius() {
    let node = Node::new(SerializablePoint::new(50, 50), NodeType::Input, 10);
    assert!(is_point_near_node(SerializablePoint::new(56, 58), &node));
    assert!(!is_point_near_node(SerializablePoint::new(57, 58), &node));
}

#[test]
fn dragging_edge_covers_all_eight_directions() {
    let o = SerializablePoint::new(100, 100);
    assert_eq!(get_dragging_edge(SerializablePoint::new(90, 90), o), Edge::TopLeft);
    assert_eq!(get_dragging_edge(SerializablePoint::new(90, 110), o), Edge::BottomLeft);
    assert_eq!(get_dragging_edge(SerializablePoint::new(90, 100), o), Edge::Left);
    assert_eq!(get_dragging_edge(SerializablePoint::new(110, 90), o), Edge::TopRight);
    assert_eq!(get_dragging_edge(SerializablePoint::new(110, 110), o), Edge::BottomRight);
    assert_eq!(get_dragging_edge(SerializablePoint::new(110, 100), o), Edge::Right);
    assert_eq!(get_dragging_edge(SerializablePoint::new(100, 90), o), Edge::Top);
    assert_eq!(get_dragging_edge(SerializablePoint::new(100, 110), o), Edge::Bottom);
    assert_eq!(get_dragging_edge(o, o), Edge::Bottom);
}

#[test]
fn clamp_point_forces_a_point_into_the_box() {
    let bounds = Rect::new(25, 25, 974, 543);
    assert_eq!(
        clamp_point(SerializablePoint::new(0, 1000), &bounds),
        SerializablePoint::new(25, 568)
    );
    assert_eq!(
        clamp_point(SerializablePoint::new(500, 300), &bounds),
        SerializablePoint::new(500, 300)
    );
    assert_eq!(
        clamp_point(SerializablePoint::new(2000, -5), &bounds),
        SerializablePoint::new(999, 25)
    );
}

#[test]
fn freestanding_gate_size_has_a_floor() {
    assert_eq!(calculate_gate_size(0, 0), (50, 30));
    assert_eq!(calculate_gate_size(2, 1), (50, 30));
    assert_eq!(calculate_gate_size(5, 2), (50, 50));
}

#[test]
fn clicks_near_borders_create_nodes() {
    let bounds = Rect::new(0, 0, 1024, 568);
    let left = SerializablePoint::new(10, 300);
    let (status, message) = create_node(left, bounds);
    assert_eq!(status, EventStatus::Captured);
    assert_eq!(message, Some(Message::AddInputNode(left)));

    let right = SerializablePoint::new(1010, 300);
    let (status, message) = create_node(right, bounds);
    assert_eq!(status, EventStatus::Captured);
    assert_eq!(message, Some(Message::AddOutputNode(right, bounds)));

    let middle = SerializablePoint::new(500, 300);
    let (status, message) = create_node(middle, bounds);
    assert_eq!(status, EventStatus::Ignored);
    assert_eq!(message, None);
}
