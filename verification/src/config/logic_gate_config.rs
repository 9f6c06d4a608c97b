use crate::helpers::helpers::MAX_NODE_COUNT;
use crate::serialize_point::MAX_COORD;
use vstd::prelude::*;

verus! {

/// Layout parameters for gate boxes and their connection points, in integer
/// canvas units.
#[derive(Clone, Copy, PartialEq, Eq, Structural, Debug)]
pub struct LogicGateConfig {
    pub base_width: i64,
    pub node_height_spacing: i64,
    pub margin: i64,
    pub line_width: i64,
    pub node_radius: i64,
    pub small_node_radius: i64,
}

/// Height of a gate box sized for the given numbers of connection points:
/// one spacing step per point on the fuller side, plus one.
pub open spec fn spec_config_gate_height(
    num_input_nodes: int,
    num_output_nodes: int,
    node_height_spacing: int,
) -> int {
    let larger = if num_input_nodes >= num_output_nodes {
        num_input_nodes
    } else {
        num_output_nodes
    };
    (larger + 1) * node_height_spacing
}

/// The layout parameters the editor starts with.
pub open spec fn spec_default_config() -> LogicGateConfig {
    LogicGateConfig {
        base_width: 50,
        node_height_spacing: 15,
        margin: 10,
        line_width: 2,
        node_radius: 10,
        small_node_radius: 5,
    }
}

impl LogicGateConfig {
    pub open spec fn wf(self) -> bool {
        &&& 0 <= self.base_width <= MAX_COORD
        &&& 0 <= self.node_height_spacing <= MAX_COORD
    }

    pub fn new_default() -> (r: Self)
        ensures
            r == spec_default_config(),
    {
        LogicGateConfig {
            base_width: 50,
            node_height_spacing: 15,
            margin: 10,
            line_width: 2,
            node_radius: 10,
            small_node_radius: 5,
        }
    }

    /// Dynamically calculate a gate box's size from the number of connection
    /// points on each side.
    pub fn calculate_gate_size(&self, num_input_nodes: usize, num_output_nodes: usize) -> (r: (
        i64,
        i64,
    ))
        requires
            self.wf(),
            num_input_nodes <= MAX_NODE_COUNT,
            num_output_nodes <= MAX_NODE_COUNT,
        ensures
            r.0 == self.base_width,
            r.1 as int == spec_config_gate_height(
                num_input_nodes as int,
                num_output_nodes as int,
                self.node_height_spacing as int,
            ),
            0 <= r.1,
    {
        let larger: i64 = if num_input_nodes >= num_output_nodes {
            num_input_nodes as i64
        } else {
            num_output_nodes as i64
        };
        proof {
            assert(0 <= (larger + 1) * self.node_height_spacing <= 1000001000000000)
                by (nonlinear_arith)
                requires
                    0 <= larger + 1 <= 1000001,
                    0 <= self.node_height_spacing <= 1000000000,
            ;
        }
        let height: i64 = (larger + 1) * self.node_height_spacing;
        (self.base_width, height)
    }
}

} // verus!
