use logic_gates::components::connection::Connection;
use logic_gates::components::line_path::LinePath;
use logic_gates::components::node::{Node, NodeType, Nodes};
use logic_gates::serialize_point::SerializablePoint;

#[test]
fn a_new_connection_starts_idle() {
    let path = vec![SerializablePoint::new(1, 2), SerializablePoint::new(3, 4)];
    let c = Connection::new(4, 7, path.clone());
    assert_eq!(c.from, 4);
    assert_eq!(c.to, 7);
    assert!(!c.is_active);
    assert_eq!(c.path, path);
}

#[test]
fn a_new_node_is_off_and_unconnected() {
    let n = Node::new(SerializablePoint::new(9, 9), NodeType::Output, 15);
    assert_eq!(n.position, SerializablePoint::new(9, 9));
    assert!(!n.state);
    assert!(n.connected_to.is_none());
    assert_eq!(n.node_type, NodeType::Output);
    assert_eq!(n.radius, 15);
}

#[test]
fn a_line_path_grows_point_by_point() {
    let mut line = LinePath::new(SerializablePoint::new(5, 6));
    assert_eq!(line.last_point(), Some(&SerializablePoint::new(5, 6)));
    line.add_point(SerializablePoint::new(10, 6));
    line.add_point(SerializablePoint::new(10, 20));
    assert_eq!(line.points.len(), 3);
    assert_eq!(line.last_point(), Some(&SerializablePoint::new(10, 20)));
}

#[test]
fn node_groups_spread_points_along_both_edges() {
    let group = Nodes::new(3, 1, SerializablePoint::new(100, 100), 60, 50);
    assert_eq!(group.input_nodes.len(), 3);
    // Three inputs on a box of height 60 sit at quarters: 15, 30, 45.
    assert_eq!(group.input_nodes[0].position, SerializablePoint::new(100, 115));
    assert_eq!(group.input_nodes[1].position, SerializablePoint::new(100, 130));
    assert_eq!(group.input_nodes[2].position, SerializablePoint::new(100, 145));
    assert_eq!(group.output_nodes.len(), 1);
    // One output at half the height, on the right edge.
    assert_eq!(group.output_nodes[0].position, SerializablePoint::new(150, 130));
    assert_eq!(group.output_nodes[0].node_type, NodeType::Output);
}

#[test]
fn uneven_heights_round_the_spacing_down() {
    let group = Nodes::new(2, 0, SerializablePoint::new(0, 0), 25, 50);
    // 25 / 3 rounds down to 8, twice that is 16.
    assert_eq!(group.input_nodes[0].position, SerializablePoint::new(0, 8));
    assert_eq!(group.input_nodes[1].position, SerializablePoint::new(0, 16));
}

#[test]
fn nodes_can_be_appended_on_either_side() {
    let mut group = Nodes::new(1, 1, SerializablePoint::new(0, 0), 30, 50);
    group.add_input_node(Node::new(SerializablePoint::new(2, 3), NodeType::Input, 15));
    group.add_output_node(Node::new(SerializablePoint::new(4, 5), NodeType::Output, 15));
    assert_eq!(group.input_nodes.len(), 2);
    assert_eq!(group.output_nodes.len(), 2);
    assert_eq!(group.input_nodes[1].position, SerializablePoint::new(2, 3));
    assert_eq!(group.output_nodes[1].position, SerializablePoint::new(4, 5));
}
