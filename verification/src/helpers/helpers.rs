use crate::components::gate::LogicGate;
use crate::components::node::Node;
use crate::serialize_point::{SerializablePoint, MAX_COORD};
use crate::ui::logic_gate_app::Edge;
use vstd::prelude::*;

verus! {

pub const DEFAULT_MARGIN: i64 = 25;

pub const CANVAS_HEIGHT: i64 = 568;

pub const CANVAS_WIDTH: i64 = 1024;

pub const NODE_RADIUS: i64 = 15;

pub const SMALL_NODE_RADIUS: i64 = 5;

pub const LINE_WIDTH: i64 = 3;

pub const MIN_DISTANCE: i64 = 5;

pub const DIRECTION_CHANGE_THRESHOLD: i64 = 600;

pub const MIN_GATE_WIDTH: i64 = 50;

pub const MIN_GATE_HEIGHT: i64 = 30;

/// Most connection points a single gate or the canvas boundary may carry.
/// Placement arithmetic stays inside `i64` under this cap.
pub const MAX_NODE_COUNT: usize = 1000000;

/// An axis-aligned region of the canvas, in integer canvas units.
#[derive(Clone, Copy, PartialEq, Eq, Structural, Debug)]
pub struct Rect {
    pub x: i64,
    pub y: i64,
    pub width: i64,
    pub height: i64,
}

impl Rect {
    /// The corner lies within the coordinate budget and the extent is
    /// non-negative and bounded.
    pub open spec fn wf(self) -> bool {
        &&& -MAX_COORD <= self.x <= MAX_COORD
        &&& -MAX_COORD <= self.y <= MAX_COORD
        &&& 0 <= self.width <= MAX_COORD
        &&& 0 <= self.height <= MAX_COORD
    }

    pub fn new(x: i64, y: i64, width: i64, height: i64) -> (r: Self)
        ensures
            r == (Rect { x, y, width, height }),
    {
        Rect { x, y, width, height }
    }
}

/// Square of the Euclidean distance between two points.
pub open spec fn spec_dist_sq(p1: SerializablePoint, p2: SerializablePoint) -> int {
    (p1.x - p2.x) * (p1.x - p2.x) + (p1.y - p2.y) * (p1.y - p2.y)
}

/// Whether `p1` lies within `threshold` of `p2` (Euclidean distance).
pub open spec fn spec_point_near(
    p1: SerializablePoint,
    p2: SerializablePoint,
    threshold: int,
) -> bool {
    spec_dist_sq(p1, p2) <= threshold * threshold
}

/// Whether `p1` lies within `threshold` of `p2`. Comparing squared distances
/// is exactly the comparison of Euclidean distances for a non-negative
/// threshold.
pub fn is_point_near(p1: SerializablePoint, p2: SerializablePoint, threshold: i64) -> (r: bool)
    requires
        p1.wf(),
        p2.wf(),
        0 <= threshold <= MAX_COORD,
    ensures
        r == spec_point_near(p1, p2, threshold as int),
{
    let dx: i64 = p1.x - p2.x;
    let dy: i64 = p1.y - p2.y;
    proof {
        assert(0 <= dx * dx <= 4000000000000000000) by (nonlinear_arith)
            requires
                -2000000000 <= dx <= 2000000000,
        ;
        assert(0 <= dy * dy <= 4000000000000000000) by (nonlinear_arith)
            requires
                -2000000000 <= dy <= 2000000000,
        ;
        assert(0 <= threshold * threshold <= 1000000000000000000) by (nonlinear_arith)
            requires
                0 <= threshold <= 1000000000,
        ;
    }
    dx * dx + dy * dy <= threshold * threshold
}

/// Whether `p` lies inside the bounding box of `gate`.
pub open spec fn spec_point_in_gate(p: SerializablePoint, g: crate::components::gate::GateV) -> bool {
    &&& g.position.x <= p.x <= g.position.x + g.width
    &&& g.position.y <= p.y <= g.position.y + g.height
}

pub fn is_point_near_gate(p: SerializablePoint, gate: &LogicGate) -> (r: bool)
    requires
        gate@.position.wf(),
        0 <= gate@.width <= MAX_COORD,
        0 <= gate@.height <= MAX_COORD,
    ensures
        r == spec_point_in_gate(p, gate@),
{
    p.x >= gate.position.x && p.x <= gate.position.x + gate.width && p.y >= gate.position.y
        && p.y <= gate.position.y + gate.height
}

/// Whether `p` lies within a node's own radius of that node's centre.
pub open spec fn spec_point_near_node(p: SerializablePoint, n: crate::components::node::NodeV) -> bool {
    spec_dist_sq(p, n.position) <= n.radius * n.radius
}

pub fn is_point_near_node(p: SerializablePoint, node: &Node) -> (r: bool)
    requires
        p.wf(),
        node@.position.wf(),
        0 <= node@.radius <= MAX_COORD,
    ensures
        r == spec_point_near_node(p, node@),
{
    is_point_near(p, node.position, node.radius)
}

/// The side or corner towards which a drag from `initial_position` to
/// `position` is heading.
pub open spec fn spec_dragging_edge(
    position: SerializablePoint,
    initial_position: SerializablePoint,
) -> Edge {
    if position.x < initial_position.x {
        if position.y < initial_position.y {
            Edge::TopLeft
        } else if position.y > initial_position.y {
            Edge::BottomLeft
        } else {
            Edge::Left
        }
    } else if position.x > initial_position.x {
        if position.y < initial_position.y {
            Edge::TopRight
        } else if position.y > initial_position.y {
            Edge::BottomRight
        } else {
            Edge::Right
        }
    } else if position.y < initial_position.y {
        Edge::Top
    } else {
        Edge::Bottom
    }
}

pub fn get_dragging_edge(position: SerializablePoint, initial_position: SerializablePoint) -> (r:
    Edge)
    ensures
        r == spec_dragging_edge(position, initial_position),
{
    if position.x < initial_position.x {
        if position.y < initial_position.y {
            Edge::TopLeft
        } else if position.y > initial_position.y {
            Edge::BottomLeft
        } else {
            Edge::Left
        }
    } else if position.x > initial_position.x {
        if position.y < initial_position.y {
            Edge::TopRight
        } else if position.y > initial_position.y {
            Edge::BottomRight
        } else {
            Edge::Right
        }
    } else if position.y < initial_position.y {
        Edge::Top
    } else {
        Edge::Bottom
    }
}

/// Height of a gate box holding the given numbers of connection points, and
/// its fixed width.
pub open spec fn spec_gate_size(num_inputs: int, num_outputs: int) -> (int, int) {
    let node_size: int = 10;
    let larger = if num_inputs >= num_outputs {
        num_inputs
    } else {
        num_outputs
    };
    let height = if MIN_GATE_HEIGHT >= larger * node_size {
        MIN_GATE_HEIGHT as int
    } else {
        larger * node_size
    };
    (MIN_GATE_WIDTH as int, height)
}

pub fn calculate_gate_size(num_inputs: usize, num_outputs: usize) -> (r: (i64, i64))
    requires
        num_inputs <= MAX_NODE_COUNT,
        num_outputs <= MAX_NODE_COUNT,
    ensures
        (r.0 as int, r.1 as int) == spec_gate_size(num_inputs as int, num_outputs as int),
{
    let node_size: i64 = 10;
    let larger: i64 = if num_inputs >= num_outputs {
        num_inputs as i64
    } else {
        num_outputs as i64
    };
    let scaled: i64 = larger * node_size;
    let height: i64 = if MIN_GATE_HEIGHT >= scaled {
        MIN_GATE_HEIGHT
    } else {
        scaled
    };
    (MIN_GATE_WIDTH, height)
}

/// `v` forced into the closed interval from `lo` to `hi`.
pub open spec fn spec_clamp(v: int, lo: int, hi: int) -> int {
    if v < lo {
        lo
    } else if v > hi {
        hi
    } else {
        v
    }
}

pub fn clamp_i64(v: i64, lo: i64, hi: i64) -> (r: i64)
    requires
        lo <= hi,
    ensures
        r as int == spec_clamp(v as int, lo as int, hi as int),
{
    if v < lo {
        lo
    } else if v > hi {
        hi
    } else {
        v
    }
}

/// `point` forced into `bounds`.
pub open spec fn spec_clamp_point(point: SerializablePoint, bounds: Rect) -> SerializablePoint {
    SerializablePoint {
        x: spec_clamp(point.x as int, bounds.x as int, bounds.x + bounds.width) as i64,
        y: spec_clamp(point.y as int, bounds.y as int, bounds.y + bounds.height) as i64,
    }
}

pub fn clamp_point(point: SerializablePoint, bounds: &Rect) -> (r: SerializablePoint)
    requires
        bounds.wf(),
    ensures
        r == spec_clamp_point(point, *bounds),
{
    let x = clamp_i64(point.x, bounds.x, bounds.x + bounds.width);
    let y = clamp_i64(point.y, bounds.y, bounds.y + bounds.height);
    SerializablePoint { x, y }
}

} // verus!
