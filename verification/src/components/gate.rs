use crate::components::node::{set_node_state, NodeV, Nodes, NodesV};
use crate::config::logic_gate_config::{spec_config_gate_height, LogicGateConfig};
use crate::helpers::helpers::MAX_NODE_COUNT;
use crate::serialize_point::{SerializablePoint, MAX_COORD};
use vstd::prelude::*;

verus! {

/// The kind of a logic element, fixing its boolean transfer function.
#[derive(Clone, Copy, PartialEq, Eq, Structural, Debug)]
pub enum GateType {
    And,
    Or,
    Not,
}

/// Fewest input states the transfer function of a gate of this kind reads.
pub open spec fn spec_min_inputs(g: GateType) -> int {
    match g {
        GateType::And => 2,
        GateType::Or => 2,
        GateType::Not => 1,
    }
}

/// The boolean transfer function of a gate kind over its input states.
pub open spec fn spec_transfer(g: GateType, inputs: Seq<bool>) -> bool
    recommends
        inputs.len() >= spec_min_inputs(g),
{
    match g {
        GateType::And => inputs[0] && inputs[1],
        GateType::Or => inputs[0] || inputs[1],
        GateType::Not => !inputs[0],
    }
}

/// The input states of a node group, in order.
pub open spec fn spec_input_states(nodes: NodesV) -> Seq<bool> {
    nodes.input_nodes.map_values(|n: NodeV| n.state)
}

/// What a constructor call builds: a gate sized from the layout parameters,
/// its connection points spread evenly along its box edges.
pub open spec fn spec_new_gate(
    gate_type: GateType,
    position: SerializablePoint,
    num_input_nodes: int,
    num_output_nodes: int,
    config: LogicGateConfig,
) -> GateV {
    let height = spec_config_gate_height(
        num_input_nodes,
        num_output_nodes,
        config.node_height_spacing as int,
    );
    GateV {
        gate_type,
        position,
        width: config.base_width,
        height: height as i64,
        nodes: NodesV {
            input_nodes: Seq::new(
                num_input_nodes as nat,
                |i: int| crate::components::node::spec_input_node(position, height, num_input_nodes, i),
            ),
            output_nodes: Seq::new(
                num_output_nodes as nat,
                |i: int|
                    crate::components::node::spec_output_node(
                        position,
                        height,
                        config.base_width as int,
                        num_output_nodes,
                        i,
                    ),
            ),
        },
    }
}

/// A logic element: a box on the canvas with typed connection points and a
/// boolean transfer function.
#[derive(Debug)]
pub struct LogicGate {
    pub gate_type: GateType,
    pub position: SerializablePoint,
    pub width: i64,
    pub height: i64,
    pub nodes: Nodes,
}

/// The mathematical image of a [`LogicGate`].
#[verifier::ext_equal]
pub struct GateV {
    pub gate_type: GateType,
    pub position: SerializablePoint,
    pub width: i64,
    pub height: i64,
    pub nodes: NodesV,
}

impl View for LogicGate {
    type V = GateV;

    open spec fn view(&self) -> GateV {
        GateV {
            gate_type: self.gate_type,
            position: self.position,
            width: self.width,
            height: self.height,
            nodes: self.nodes@,
        }
    }
}

impl GateV {
    /// The box lies within the coordinate budget and its connection points
    /// are well-formed.
    pub open spec fn wf(self) -> bool {
        &&& self.position.wf()
        &&& 0 <= self.width <= MAX_COORD
        &&& 0 <= self.height <= MAX_COORD
        &&& self.nodes.wf()
    }

    /// There are enough connection points for a transfer function
    /// to be read and its result to be written.
    pub open spec fn arity_ok(self) -> bool {
        &&& self.nodes.input_nodes.len() >= spec_min_inputs(self.gate_type)
        &&& self.nodes.output_nodes.len() > 0
    }
}

impl LogicGate {
    pub fn new(
        gate_type: GateType,
        position: SerializablePoint,
        num_input_nodes: usize,
        num_output_nodes: usize,
        config: &LogicGateConfig,
    ) -> (r: Self)
        requires
            position.wf(),
            config.wf(),
            num_input_nodes <= MAX_NODE_COUNT,
            num_output_nodes <= MAX_NODE_COUNT,
            spec_config_gate_height(
                num_input_nodes as int,
                num_output_nodes as int,
                config.node_height_spacing as int,
            ) <= MAX_COORD,
        ensures
            r@.gate_type == gate_type,
            r@.position == position,
            r@.width == config.base_width,
            r@.height as int == spec_config_gate_height(
                num_input_nodes as int,
                num_output_nodes as int,
                config.node_height_spacing as int,
            ),
            r@.nodes.input_nodes.len() == num_input_nodes,
            forall|i: int|
                0 <= i < num_input_nodes ==> r@.nodes.input_nodes[i]
                    == crate::components::node::spec_input_node(
                    position,
                    r@.height as int,
                    num_input_nodes as int,
                    i,
                ),
            r@.nodes.output_nodes.len() == num_output_nodes,
            forall|i: int|
                0 <= i < num_output_nodes ==> r@.nodes.output_nodes[i]
                    == crate::components::node::spec_output_node(
                    position,
                    r@.height as int,
                    r@.width as int,
                    num_output_nodes as int,
                    i,
                ),
            r@ == spec_new_gate(
                gate_type,
                position,
                num_input_nodes as int,
                num_output_nodes as int,
                *config,
            ),
    {
        let (width, height) = config.calculate_gate_size(num_input_nodes, num_output_nodes);
        let nodes = Nodes::new(num_input_nodes, num_output_nodes, position, height, width);
        let r = Self { gate_type, position, width, height, nodes };
        proof {
            assert(r@ =~~= spec_new_gate(
                gate_type,
                position,
                num_input_nodes as int,
                num_output_nodes as int,
                *config,
            ));
        }
        r
    }

    /// Compute the output state from this gate's kind and its input states.
    pub fn update_output(&mut self)
        requires
            old(self)@.arity_ok(),
        ensures
            final(self)@.gate_type == old(self)@.gate_type,
            final(self)@.position == old(self)@.position,
            final(self)@.width == old(self)@.width,
            final(self)@.height == old(self)@.height,
            final(self)@.nodes.input_nodes == old(self)@.nodes.input_nodes,
            final(self)@.nodes.output_nodes == old(self)@.nodes.output_nodes.update(
                0,
                NodeV {
                    state: spec_transfer(old(self)@.gate_type, spec_input_states(old(self)@.nodes)),
                    ..old(self)@.nodes.output_nodes[0]
                },
            ),
    {
        let output = match self.gate_type {
            GateType::And => self.nodes.input_nodes[0].state && self.nodes.input_nodes[1].state,
            GateType::Or => self.nodes.input_nodes[0].state || self.nodes.input_nodes[1].state,
            GateType::Not => !self.nodes.input_nodes[0].state,
        };
        set_node_state(&mut self.nodes.output_nodes, 0, output);
        proof {
            assert(self@.nodes.output_nodes =~= old(self)@.nodes.output_nodes.update(
                0,
                NodeV {
                    state: spec_transfer(old(self)@.gate_type, spec_input_states(old(self)@.nodes)),
                    ..old(self)@.nodes.output_nodes[0]
                },
            ));
        }
    }

    /// Set the state of a specific input, then recompute the output. An index
    /// beyond the inputs changes nothing.
    pub fn set_input(&mut self, index: usize, state: bool)
        requires
            index < old(self)@.nodes.input_nodes.len() ==> old(self)@.arity_ok(),
        ensures
            final(self)@.gate_type == old(self)@.gate_type,
            final(self)@.position == old(self)@.position,
            final(self)@.width == old(self)@.width,
            final(self)@.height == old(self)@.height,
            index < old(self)@.nodes.input_nodes.len() ==> {
                let inputs = old(self)@.nodes.input_nodes.update(
                    index as int,
                    NodeV { state, ..old(self)@.nodes.input_nodes[index as int] },
                );
                &&& final(self)@.nodes.input_nodes == inputs
                &&& final(self)@.nodes.output_nodes == old(self)@.nodes.output_nodes.update(
                    0,
                    NodeV {
                        state: spec_transfer(
                            old(self)@.gate_type,
                            inputs.map_values(|n: NodeV| n.state),
                        ),
                        ..old(self)@.nodes.output_nodes[0]
                    },
                )
            },
            index >= old(self)@.nodes.input_nodes.len() ==> final(self)@ == old(self)@,
    {
        if index < self.nodes.input_nodes.len() {
            set_node_state(&mut self.nodes.input_nodes, index, state);
            proof {
                assert(self@.nodes.input_nodes =~= old(self)@.nodes.input_nodes.update(
                    index as int,
                    NodeV { state, ..old(self)@.nodes.input_nodes[index as int] },
                ));
                assert(spec_input_states(self@.nodes) =~= self@.nodes.input_nodes.map_values(
                    |n: NodeV| n.state,
                ));
            }
            self.update_output();
        }
    }

    /// The state of the (single) output.
    pub fn get_output(&self) -> (r: bool)
        requires
            self@.nodes.output_nodes.len() > 0,
        ensures
            r == self@.nodes.output_nodes[0].state,
    {
        self.nodes.output_nodes[0].state
    }
}

impl Clone for LogicGate {
    fn clone(&self) -> (r: Self)
        ensures
            r@ == self@,
    {
        LogicGate {
            gate_type: self.gate_type,
            position: self.position,
            width: self.width,
            height: self.height,
            nodes: self.nodes.clone(),
        }
    }
}

} // verus!
