use crate::components::connection::{Connection, ConnectionV};
use crate::helpers::helpers::{MAX_NODE_COUNT, NODE_RADIUS};
use crate::serialize_point::{SerializablePoint, MAX_COORD};
use vstd::prelude::*;

verus! {

/// Whether a connection point feeds signal in or carries it out.
#[derive(Clone, Copy, PartialEq, Eq, Structural, Debug)]
pub enum NodeType {
    Input,
    Output,
}

/// A typed connection point, holding a boolean signal state.
#[derive(Debug)]
pub struct Node {
    pub position: SerializablePoint,
    pub state: bool,
    pub connected_to: Option<Connection>,
    pub node_type: NodeType,
    pub radius: i64,
}

/// The mathematical image of a [`Node`].
#[verifier::ext_equal]
pub struct NodeV {
    pub position: SerializablePoint,
    pub state: bool,
    pub connected_to: Option<ConnectionV>,
    pub node_type: NodeType,
    pub radius: i64,
}

impl View for Node {
    type V = NodeV;

    open spec fn view(&self) -> NodeV {
        NodeV {
            position: self.position,
            state: self.state,
            connected_to: match self.connected_to {
                Option::Some(c) => Option::Some(c@),
                Option::None => Option::None,
            },
            node_type: self.node_type,
            radius: self.radius,
        }
    }
}

impl NodeV {
    /// The centre lies within the coordinate budget and the radius is
    /// non-negative and bounded.
    pub open spec fn wf(self) -> bool {
        &&& self.position.wf()
        &&& 0 <= self.radius <= MAX_COORD
    }
}

impl Node {
    /// A fresh node is off and connected to nothing.
    pub fn new(position: SerializablePoint, node_type: NodeType, radius: i64) -> (r: Self)
        ensures
            r@ == (NodeV {
                position,
                state: false,
                connected_to: Option::None,
                node_type,
                radius,
            }),
    {
        Self { position, state: false, connected_to: Option::None, node_type, radius }
    }
}

impl Clone for Node {
    fn clone(&self) -> (r: Self)
        ensures
            r@ == self@,
    {
        Node {
            position: self.position,
            state: self.state,
            connected_to: match &self.connected_to {
                Option::Some(c) => Option::Some(c.clone()),
                Option::None => Option::None,
            },
            node_type: self.node_type,
            radius: self.radius,
        }
    }
}

/// The connection points that belong to one gate or to the canvas boundary,
/// split by direction.
#[derive(Debug)]
pub struct Nodes {
    pub input_nodes: Vec<Node>,
    pub output_nodes: Vec<Node>,
}

/// The mathematical image of a [`Nodes`] group.
#[verifier::ext_equal]
pub struct NodesV {
    pub input_nodes: Seq<NodeV>,
    pub output_nodes: Seq<NodeV>,
}

impl View for Nodes {
    type V = NodesV;

    open spec fn view(&self) -> NodesV {
        NodesV {
            input_nodes: self.input_nodes@.map_values(|n: Node| n@),
            output_nodes: self.output_nodes@.map_values(|n: Node| n@),
        }
    }
}

impl NodesV {
    pub open spec fn wf(self) -> bool {
        &&& forall|i: int| 0 <= i < self.input_nodes.len() ==> (#[trigger] self.input_nodes[i]).wf()
        &&& forall|i: int|
            0 <= i < self.output_nodes.len() ==> (#[trigger] self.output_nodes[i]).wf()
    }
}

/// Vertical offset of the `i`-th of `count` evenly spread connection points
/// on a box of the given height (integer canvas units).
pub open spec fn spec_node_spacing(height: int, count: int, i: int) -> int {
    ((i + 1) * height) / (count + 1)
}

/// The `i`-th of `count` input nodes placed on the left edge of a gate box.
pub open spec fn spec_input_node(
    gate_position: SerializablePoint,
    height: int,
    count: int,
    i: int,
) -> NodeV {
    NodeV {
        position: SerializablePoint {
            x: gate_position.x,
            y: (gate_position.y + spec_node_spacing(height, count, i)) as i64,
        },
        state: false,
        connected_to: Option::None,
        node_type: NodeType::Input,
        radius: NODE_RADIUS,
    }
}

/// The `i`-th of `count` output nodes placed on the right edge of a gate box.
pub open spec fn spec_output_node(
    gate_position: SerializablePoint,
    height: int,
    width: int,
    count: int,
    i: int,
) -> NodeV {
    NodeV {
        position: SerializablePoint {
            x: (gate_position.x + width) as i64,
            y: (gate_position.y + spec_node_spacing(height, count, i)) as i64,
        },
        state: false,
        connected_to: Option::None,
        node_type: NodeType::Output,
        radius: NODE_RADIUS,
    }
}

impl Nodes {
    pub fn new(
        input: usize,
        output: usize,
        gate_position: SerializablePoint,
        height: i64,
        width: i64,
    ) -> (r: Self)
        requires
            gate_position.wf(),
            0 <= height <= MAX_COORD,
            0 <= width <= MAX_COORD,
            input <= MAX_NODE_COUNT,
            output <= MAX_NODE_COUNT,
        ensures
            r@.input_nodes.len() == input,
            forall|i: int|
                0 <= i < input ==> r@.input_nodes[i] == spec_input_node(
                    gate_position,
                    height as int,
                    input as int,
                    i,
                ),
            r@.output_nodes.len() == output,
            forall|i: int|
                0 <= i < output ==> r@.output_nodes[i] == spec_output_node(
                    gate_position,
                    height as int,
                    width as int,
                    output as int,
                    i,
                ),
    {
        Self {
            input_nodes: Self::create_input_nodes(input, &gate_position, height),
            output_nodes: Self::create_output_nodes(output, &gate_position, height, width),
        }
    }

    pub fn create_input_nodes(count: usize, gate_position: &SerializablePoint, height: i64) -> (r:
        Vec<Node>)
        requires
            gate_position.wf(),
            0 <= height <= MAX_COORD,
            count <= MAX_NODE_COUNT,
        ensures
            r@.len() == count,
            forall|i: int|
                0 <= i < count ==> r@[i]@ == spec_input_node(
                    *gate_position,
                    height as int,
                    count as int,
                    i,
                ),
    {
        let mut r: Vec<Node> = Vec::new();
        let mut i: usize = 0;
        while i < count
            invariant
                i <= count,
                count <= MAX_NODE_COUNT,
                gate_position.wf(),
                0 <= height <= MAX_COORD,
                r@.len() == i,
                forall|k: int|
                    0 <= k < i ==> r@[k]@ == spec_input_node(
                        *gate_position,
                        height as int,
                        count as int,
                        k,
                    ),
            decreases count - i,
        {
            let spacing = node_spacing(height, count, i);
            let node = Node::new(
                SerializablePoint { x: gate_position.x, y: gate_position.y + spacing },
                NodeType::Input,
                NODE_RADIUS,
            );
            r.push(node);
            i = i + 1;
        }
        r
    }

    pub fn create_output_nodes(
        count: usize,
        gate_position: &SerializablePoint,
        height: i64,
        width: i64,
    ) -> (r: Vec<Node>)
        requires
            gate_position.wf(),
            0 <= height <= MAX_COORD,
            0 <= width <= MAX_COORD,
            count <= MAX_NODE_COUNT,
        ensures
            r@.len() == count,
            forall|i: int|
                0 <= i < count ==> r@[i]@ == spec_output_node(
                    *gate_position,
                    height as int,
                    width as int,
                    count as int,
                    i,
                ),
    {
        let mut r: Vec<Node> = Vec::new();
        let mut i: usize = 0;
        while i < count
            invariant
                i <= count,
                count <= MAX_NODE_COUNT,
                gate_position.wf(),
                0 <= height <= MAX_COORD,
                0 <= width <= MAX_COORD,
                r@.len() == i,
                forall|k: int|
                    0 <= k < i ==> r@[k]@ == spec_output_node(
                        *gate_position,
                        height as int,
                        width as int,
                        count as int,
                        k,
                    ),
            decreases count - i,
        {
            let spacing = node_spacing(height, count, i);
            let node = Node::new(
                SerializablePoint { x: gate_position.x + width, y: gate_position.y + spacing },
                NodeType::Output,
                NODE_RADIUS,
            );
            r.push(node);
            i = i + 1;
        }
        r
    }

    pub fn add_input_node(&mut self, node: Node)
        ensures
            final(self)@.input_nodes == old(self)@.input_nodes.push(node@),
            final(self)@.output_nodes == old(self)@.output_nodes,
    {
        self.input_nodes.push(node);
        proof {
            assert(self@.input_nodes =~= old(self)@.input_nodes.push(node@));
        }
    }

    pub fn add_output_node(&mut self, node: Node)
        ensures
            final(self)@.output_nodes == old(self)@.output_nodes.push(node@),
            final(self)@.input_nodes == old(self)@.input_nodes,
    {
        self.output_nodes.push(node);
        proof {
            assert(self@.output_nodes =~= old(self)@.output_nodes.push(node@));
        }
    }
}

impl Clone for Nodes {
    fn clone(&self) -> (r: Self)
        ensures
            r@ == self@,
    {
        let input_nodes = self.input_nodes.clone();
        let output_nodes = self.output_nodes.clone();
        proof {
            assert(input_nodes@.map_values(|n: Node| n@) =~= self.input_nodes@.map_values(
                |n: Node| n@,
            ));
            assert(output_nodes@.map_values(|n: Node| n@) =~= self.output_nodes@.map_values(
                |n: Node| n@,
            ));
        }
        Nodes { input_nodes, output_nodes }
    }
}

/// Replace the signal state of the node at `i`, leaving everything else as
/// it stands.
pub fn set_node_state(v: &mut Vec<Node>, i: usize, state: bool)
    requires
        i < old(v)@.len(),
    ensures
        final(v)@.map_values(|n: Node| n@) == old(v)@.map_values(|n: Node| n@).update(
            i as int,
            NodeV { state, ..old(v)@.map_values(|n: Node| n@)[i as int] },
        ),
{
    let node = &mut v[i];
    node.state = state;
    proof {
        assert(v@.map_values(|n: Node| n@) =~= old(v)@.map_values(|n: Node| n@).update(
            i as int,
            NodeV { state, ..old(v)@.map_values(|n: Node| n@)[i as int] },
        ));
    }
}

/// Move the node at `i`, leaving everything else as it stands.
pub fn set_node_position(v: &mut Vec<Node>, i: usize, position: SerializablePoint)
    requires
        i < old(v)@.len(),
    ensures
        final(v)@.map_values(|n: Node| n@) == old(v)@.map_values(|n: Node| n@).update(
            i as int,
            NodeV { position, ..old(v)@.map_values(|n: Node| n@)[i as int] },
        ),
{
    let node = &mut v[i];
    node.position = position;
    proof {
        assert(v@.map_values(|n: Node| n@) =~= old(v)@.map_values(|n: Node| n@).update(
            i as int,
            NodeV { position, ..old(v)@.map_values(|n: Node| n@)[i as int] },
        ));
    }
}

/// Record on the node at `i` which connection it anchors, leaving everything
/// else as it stands.
pub fn set_node_connection(v: &mut Vec<Node>, i: usize, connection: Connection)
    requires
        i < old(v)@.len(),
    ensures
        final(v)@.map_values(|n: Node| n@) == old(v)@.map_values(|n: Node| n@).update(
            i as int,
            NodeV {
                connected_to: Option::Some(connection@),
                ..old(v)@.map_values(|n: Node| n@)[i as int]
            },
        ),
{
    let node = &mut v[i];
    node.connected_to = Option::Some(connection);
    proof {
        assert(v@.map_values(|n: Node| n@) =~= old(v)@.map_values(|n: Node| n@).update(
            i as int,
            NodeV {
                connected_to: Option::Some(connection@),
                ..old(v)@.map_values(|n: Node| n@)[i as int]
            },
        ));
    }
}

/// Placement offset of the `i`-th of `count` evenly spread connection points,
/// computed without overflow.
pub fn node_spacing(height: i64, count: usize, i: usize) -> (r: i64)
    requires
        0 <= height <= MAX_COORD,
        count <= MAX_NODE_COUNT,
        i < count,
    ensures
        r as int == spec_node_spacing(height as int, count as int, i as int),
        0 <= r <= height,
{
    let step: u64 = i as u64 + 1;
    let height_u: u64 = height as u64;
    proof {
        assert(step * height_u <= 1000001000000000) by (nonlinear_arith)
            requires
                step <= 1000001,
                height_u <= 1000000000,
        ;
    }
    let numerator: u64 = step * height_u;
    let denominator: u64 = count as u64 + 1;
    let spacing: u64 = numerator / denominator;
    proof {
        assert(spacing * denominator <= numerator && spacing <= height as u64) by (nonlinear_arith)
            requires
                spacing == numerator / denominator,
                numerator == (i as u64 + 1) * (height as u64),
                denominator == count as u64 + 1,
                i as u64 + 1 <= denominator,
                denominator >= 1,
                height >= 0,
        ;
    }
    spacing as i64
}

} // verus!
