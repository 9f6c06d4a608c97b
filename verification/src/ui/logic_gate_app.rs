use crate::components::connection::{Connection, ConnectionV};
use crate::components::gate::{spec_new_gate, GateType, GateV};
use crate::components::line_path::LinePath;
use crate::components::node::{
    node_spacing, set_node_connection, set_node_position, set_node_state, spec_node_spacing, Node,
    NodeType, NodeV, NodesV,
};
use crate::config::logic_gate_config::{spec_default_config, LogicGateConfig};
use crate::helpers::helpers::{
    clamp_i64, clamp_point, get_dragging_edge, spec_clamp, spec_clamp_point, spec_dragging_edge,
    Rect, CANVAS_HEIGHT, CANVAS_WIDTH, DEFAULT_MARGIN, MAX_NODE_COUNT, MIN_DISTANCE, NODE_RADIUS,
};
use crate::serialize_point::SerializablePoint;
use crate::state::logic_gate_app_state::{
    conn_targets_ok, spec_initial_state, spec_update_connections, LogicGateAppState, StateV,
};
use vstd::prelude::*;

verus! {

/// The side or corner of a gate towards which a drag is heading, judged from
/// the cursor position relative to where the drag began.
#[derive(Clone, Copy, PartialEq, Eq, Structural, Debug)]
pub enum Edge {
    Top,
    Bottom,
    Left,
    Right,
    BottomLeft,
    BottomRight,
    TopLeft,
    TopRight,
}

/// Everything the editor can be asked to do, carrying plain canvas values.
#[derive(Clone, Copy, Debug, PartialEq)]
pub enum Message {
    Save,
    Load,
    AddInputNode(SerializablePoint),
    AddOutputNode(SerializablePoint, Rect),
    AddGate(GateType, usize, usize),
    AddConnection(usize, NodeType),
    UpdateDraggingGate(usize, SerializablePoint),
    UpdateDraggingNode(Option<(usize, NodeType)>, Option<SerializablePoint>, SerializablePoint),
    UpdateDraggingGatePosition(SerializablePoint, usize, SerializablePoint),
    UpdateNodeState(usize, NodeType),
    UpdateDraggingLine(SerializablePoint, SerializablePoint),
    UpdateIsDragging,
    RemoveNode(usize, NodeType),
    DisabledDragging,
}

/// What the caller is asked to do after a message was handled: nothing,
/// write the circuit out, read it back in, or feed a follow-up message.
#[derive(Clone, Copy, Debug, PartialEq)]
pub enum AppCommand {
    Nothing,
    SaveRequested,
    LoadRequested,
    Dispatch(Message),
}

/// The whole editor: the circuit and the transient drag bookkeeping.
#[derive(Debug)]
pub struct LogicGateApp {
    pub state: LogicGateAppState,
    pub dragging_node: Option<(usize, NodeType)>,
    pub drag_start: Option<SerializablePoint>,
    pub current_drag_position: Option<SerializablePoint>,
    pub current_dragging_line: Option<LinePath>,
    pub is_dragging: bool,
    pub dragging_gate_index: Option<usize>,
}

/// The mathematical image of a [`LogicGateApp`].
#[verifier::ext_equal]
pub struct AppV {
    pub state: StateV,
    pub dragging_node: Option<(usize, NodeType)>,
    pub drag_start: Option<SerializablePoint>,
    pub current_drag_position: Option<SerializablePoint>,
    pub current_dragging_line: Option<Seq<SerializablePoint>>,
    pub is_dragging: bool,
    pub dragging_gate_index: Option<usize>,
}

impl View for LogicGateApp {
    type V = AppV;

    open spec fn view(&self) -> AppV {
        AppV {
            state: self.state@,
            dragging_node: self.dragging_node,
            drag_start: self.drag_start,
            current_drag_position: self.current_drag_position,
            current_dragging_line: match self.current_dragging_line {
                Option::Some(l) => Option::Some(l@),
                Option::None => Option::None,
            },
            is_dragging: self.is_dragging,
            dragging_gate_index: self.dragging_gate_index,
        }
    }
}

/// The canvas working area that dragged gates and lines are kept inside.
pub open spec fn spec_drag_bounds() -> Rect {
    Rect {
        x: DEFAULT_MARGIN,
        y: DEFAULT_MARGIN,
        width: (CANVAS_WIDTH - 2 * DEFAULT_MARGIN) as i64,
        height: (CANVAS_HEIGHT - DEFAULT_MARGIN) as i64,
    }
}

/// Where a dragged gate's corner lands: the cursor position less the grab
/// offset, clamped into the working area; on a downward drag the clamp
/// anchors the bottom edge of the box instead of the top.
pub open spec fn spec_dragged_gate_position(
    edge: Edge,
    position: SerializablePoint,
    offset: SerializablePoint,
    gw: int,
    gh: int,
) -> SerializablePoint {
    let b = spec_drag_bounds();
    let nx = position.x - offset.x;
    let ny = position.y - offset.y;
    let cx = spec_clamp(nx, b.x as int, b.x + b.width - gw);
    let cy = match edge {
        Edge::Bottom | Edge::BottomLeft | Edge::BottomRight => spec_clamp(
            ny + gh,
            b.y as int,
            b.y + b.height,
        ) - gh,
        _ => spec_clamp(ny, b.y as int, b.y + b.height - gh),
    };
    SerializablePoint { x: cx as i64, y: cy as i64 }
}

/// A gate's connection point after its gate moved: spread evenly along the
/// box edge, then forced into the working area.
pub open spec fn spec_dragged_node(
    old_node: NodeV,
    x: int,
    gate_y: int,
    gh: int,
    count: int,
    i: int,
) -> NodeV {
    NodeV {
        position: spec_clamp_point(
            SerializablePoint {
                x: x as i64,
                y: (gate_y + spec_node_spacing(gh, count, i)) as i64,
            },
            spec_drag_bounds(),
        ),
        ..old_node
    }
}

/// The circuit after gate `index` was dragged: its corner lands as
/// [`spec_dragged_gate_position`] says, and its connection points follow.
pub open spec fn spec_update_position(
    s: StateV,
    position: SerializablePoint,
    index: int,
    offset: SerializablePoint,
    edge: Edge,
) -> StateV {
    let g = s.gates[index];
    let newpos = spec_dragged_gate_position(edge, position, offset, g.width as int, g.height as int);
    let n_in = g.nodes.input_nodes.len() as int;
    let n_out = g.nodes.output_nodes.len() as int;
    let g1 = GateV {
        position: newpos,
        nodes: NodesV {
            input_nodes: Seq::new(
                n_in as nat,
                |i: int|
                    spec_dragged_node(
                        g.nodes.input_nodes[i],
                        newpos.x as int,
                        newpos.y as int,
                        g.height as int,
                        n_in,
                        i,
                    ),
            ),
            output_nodes: Seq::new(
                n_out as nat,
                |i: int|
                    spec_dragged_node(
                        g.nodes.output_nodes[i],
                        newpos.x + g.width,
                        newpos.y as int,
                        g.height as int,
                        n_out,
                        i,
                    ),
            ),
        },
        ..g
    };
    StateV { gates: s.gates.update(index, g1), ..s }
}

/// The circuit after a free connection point was toggled: the state flips
/// only when the point anchors a connection.
pub open spec fn spec_toggle_node(s: StateV, node: int, node_type: NodeType) -> StateV {
    match node_type {
        NodeType::Input => {
            if s.nodes[0].input_nodes[node].connected_to is Some {
                StateV {
                    nodes: s.nodes.update(
                        0,
                        NodesV {
                            input_nodes: s.nodes[0].input_nodes.update(
                                node,
                                NodeV {
                                    state: !s.nodes[0].input_nodes[node].state,
                                    ..s.nodes[0].input_nodes[node]
                                },
                            ),
                            ..s.nodes[0]
                        },
                    ),
                    ..s
                }
            } else {
                s
            }
        },
        NodeType::Output => {
            if s.nodes[0].output_nodes[node].connected_to is Some {
                StateV {
                    nodes: s.nodes.update(
                        0,
                        NodesV {
                            output_nodes: s.nodes[0].output_nodes.update(
                                node,
                                NodeV {
                                    state: !s.nodes[0].output_nodes[node].state,
                                    ..s.nodes[0].output_nodes[node]
                                },
                            ),
                            ..s.nodes[0]
                        },
                    ),
                    ..s
                }
            } else {
                s
            }
        },
    }
}

/// The point a dragged line grows by: only when the cursor moved far enough,
/// and then orthogonally, along the larger displacement first, clamped into
/// the working area.
pub open spec fn spec_drag_line_point(
    position: SerializablePoint,
    last_position: SerializablePoint,
) -> Option<SerializablePoint> {
    let dx = if last_position.x >= position.x {
        last_position.x - position.x
    } else {
        position.x - last_position.x
    };
    let dy = if last_position.y >= position.y {
        last_position.y - position.y
    } else {
        position.y - last_position.y
    };
    if dx > MIN_DISTANCE || dy > MIN_DISTANCE {
        let np = if dx > dy {
            SerializablePoint { x: position.x, y: last_position.y }
        } else {
            SerializablePoint { x: last_position.x, y: position.y }
        };
        Option::Some(spec_clamp_point(np, spec_drag_bounds()))
    } else {
        Option::None
    }
}

/// What a message may ask of the editor, so that every index it carries
/// names something that exists and every coordinate stays in budget.
pub open spec fn spec_msg_valid(a: AppV, m: Message) -> bool {
    match m {
        Message::Save => true,
        Message::Load => true,
        Message::AddInputNode(_position) => true,
        Message::AddOutputNode(_position, bounds) => bounds.wf(),
        Message::AddGate(_gate_type, input, output) => input <= MAX_NODE_COUNT && output
            <= MAX_NODE_COUNT,
        Message::AddConnection(_target, node_type) => match (
            a.current_dragging_line,
            a.dragging_node,
        ) {
            (Option::Some(_), Option::Some((start_index, _))) => a.state.nodes.len() > 0
                && (match node_type {
                NodeType::Input => start_index < a.state.nodes[0].input_nodes.len(),
                NodeType::Output => start_index < a.state.nodes[0].output_nodes.len(),
            }),
            _ => true,
        },
        Message::UpdateDraggingGate(_gate_index, _offset) => true,
        Message::UpdateDraggingNode(_node, _start, _position) => true,
        Message::UpdateDraggingGatePosition(position, index, offset) => match a.drag_start {
            Option::Some(_) => {
                &&& index < a.state.gates.len()
                &&& position.wf()
                &&& offset.wf()
                &&& 0 <= a.state.gates[index as int].width <= CANVAS_WIDTH - 2 * DEFAULT_MARGIN
                &&& 0 <= a.state.gates[index as int].height <= CANVAS_HEIGHT - DEFAULT_MARGIN
                &&& a.state.gates[index as int].nodes.input_nodes.len() <= MAX_NODE_COUNT
                &&& a.state.gates[index as int].nodes.output_nodes.len() <= MAX_NODE_COUNT
            },
            Option::None => true,
        },
        Message::UpdateNodeState(node, node_type) => {
            &&& a.state.nodes.len() > 0
            &&& (match node_type {
                NodeType::Input => node < a.state.nodes[0].input_nodes.len(),
                NodeType::Output => node < a.state.nodes[0].output_nodes.len(),
            })
            &&& conn_targets_ok(a.state)
        },
        Message::UpdateDraggingLine(position, last_position) => position.wf()
            && last_position.wf(),
        Message::UpdateIsDragging => true,
        Message::RemoveNode(node_index, node_type) => a.state.nodes.len() > 0 && (match node_type {
            NodeType::Input => node_index < a.state.nodes[0].input_nodes.len(),
            NodeType::Output => node_index < a.state.nodes[0].output_nodes.len(),
        }),
        Message::DisabledDragging => true,
    }
}

/// The editor after one message was handled.
pub open spec fn spec_apply_message(a: AppV, m: Message) -> AppV {
    match m {
        Message::Save => a,
        Message::Load => a,
        Message::AddInputNode(position) => {
            if a.state.nodes.len() > 0 {
                let n = NodeV {
                    position: SerializablePoint { x: (NODE_RADIUS + 10) as i64, y: position.y },
                    state: false,
                    connected_to: Option::None,
                    node_type: NodeType::Input,
                    radius: NODE_RADIUS,
                };
                AppV {
                    state: StateV {
                        nodes: a.state.nodes.update(
                            0,
                            NodesV {
                                input_nodes: a.state.nodes[0].input_nodes.push(n),
                                ..a.state.nodes[0]
                            },
                        ),
                        ..a.state
                    },
                    ..a
                }
            } else {
                a
            }
        },
        Message::AddOutputNode(position, bounds) => {
            if a.state.nodes.len() > 0 {
                let n = NodeV {
                    position: SerializablePoint {
                        x: (bounds.width - NODE_RADIUS - 10) as i64,
                        y: position.y,
                    },
                    state: false,
                    connected_to: Option::None,
                    node_type: NodeType::Output,
                    radius: NODE_RADIUS,
                };
                AppV {
                    state: StateV {
                        nodes: a.state.nodes.update(
                            0,
                            NodesV {
                                output_nodes: a.state.nodes[0].output_nodes.push(n),
                                ..a.state.nodes[0]
                            },
                        ),
                        ..a.state
                    },
                    ..a
                }
            } else {
                a
            }
        },
        Message::AddGate(gate_type, input, output) => AppV {
            state: StateV {
                gates: a.state.gates.push(
                    spec_new_gate(
                        gate_type,
                        SerializablePoint { x: 150, y: 400 },
                        input as int,
                        output as int,
                        spec_default_config(),
                    ),
                ),
                ..a.state
            },
            ..a
        },
        Message::AddConnection(target, node_type) => match (
            a.current_dragging_line,
            a.dragging_node,
        ) {
            (Option::Some(path), Option::Some((start_index, _))) => {
                let c = ConnectionV { from: start_index, to: target, is_active: false, path };
                let s1 = StateV { connections: a.state.connections.push(c), ..a.state };
                let s2 = match node_type {
                    NodeType::Input => StateV {
                        nodes: s1.nodes.update(
                            0,
                            NodesV {
                                input_nodes: s1.nodes[0].input_nodes.update(
                                    start_index as int,
                                    NodeV {
                                        connected_to: Option::Some(c),
                                        ..s1.nodes[0].input_nodes[start_index as int]
                                    },
                                ),
                                ..s1.nodes[0]
                            },
                        ),
                        ..s1
                    },
                    NodeType::Output => StateV {
                        nodes: s1.nodes.update(
                            0,
                            NodesV {
                                output_nodes: s1.nodes[0].output_nodes.update(
                                    start_index as int,
                                    NodeV {
                                        connected_to: Option::Some(c),
                                        ..s1.nodes[0].output_nodes[start_index as int]
                                    },
                                ),
                                ..s1.nodes[0]
                            },
                        ),
                        ..s1
                    },
                };
                AppV { state: s2, ..a }
            },
            _ => a,
        },
        Message::UpdateDraggingGate(gate_index, offset) => AppV {
            dragging_gate_index: Option::Some(gate_index),
            drag_start: Option::Some(offset),
            ..a
        },
        Message::UpdateDraggingNode(node, start, position) => AppV {
            dragging_node: node,
            current_dragging_line: Option::Some(seq![position]),
            is_dragging: true,
            drag_start: start,
            ..a
        },
        Message::UpdateDraggingGatePosition(position, index, offset) => match a.drag_start {
            Option::Some(initial) => AppV {
                state: spec_update_position(
                    a.state,
                    position,
                    index as int,
                    offset,
                    spec_dragging_edge(position, initial),
                ),
                ..a
            },
            Option::None => a,
        },
        Message::UpdateNodeState(node, node_type) => AppV {
            state: spec_update_connections(spec_toggle_node(a.state, node as int, node_type)),
            ..a
        },
        Message::UpdateDraggingLine(position, last_position) => match spec_drag_line_point(
            position,
            last_position,
        ) {
            Option::Some(p) => match a.current_dragging_line {
                Option::Some(l) => AppV { current_dragging_line: Option::Some(l.push(p)), ..a },
                Option::None => a,
            },
            Option::None => a,
        },
        Message::UpdateIsDragging => AppV { is_dragging: true, ..a },
        Message::RemoveNode(node_index, node_type) => match node_type {
            NodeType::Input => AppV {
                state: StateV {
                    nodes: a.state.nodes.update(
                        0,
                        NodesV {
                            input_nodes: a.state.nodes[0].input_nodes.remove(node_index as int),
                            ..a.state.nodes[0]
                        },
                    ),
                    ..a.state
                },
                ..a
            },
            NodeType::Output => AppV {
                state: StateV {
                    nodes: a.state.nodes.update(
                        0,
                        NodesV {
                            output_nodes: a.state.nodes[0].output_nodes.remove(node_index as int),
                            ..a.state.nodes[0]
                        },
                    ),
                    ..a.state
                },
                ..a
            },
        },
        Message::DisabledDragging => AppV {
            dragging_node: Option::None,
            dragging_gate_index: Option::None,
            is_dragging: false,
            drag_start: Option::None,
            ..a
        },
    }
}

/// What the caller is asked to do after each message.
pub open spec fn spec_command(a: AppV, m: Message) -> AppCommand {
    match m {
        Message::Save => AppCommand::SaveRequested,
        Message::Load => AppCommand::LoadRequested,
        Message::AddConnection(_target, _node_type) => match (
            a.current_dragging_line,
            a.dragging_node,
        ) {
            (Option::Some(_), Option::Some(_)) => AppCommand::Dispatch(Message::DisabledDragging),
            _ => AppCommand::Nothing,
        },
        Message::UpdateNodeState(_node, _node_type) => AppCommand::Dispatch(
            Message::DisabledDragging,
        ),
        _ => AppCommand::Nothing,
    }
}

impl LogicGateApp {
    /// A fresh editor over a fresh circuit, with no drag in progress.
    pub fn new() -> (r: Self)
        ensures
            r@ == (AppV {
                state: spec_initial_state(),
                dragging_node: Option::None,
                drag_start: Option::None,
                current_drag_position: Option::None,
                current_dragging_line: Option::None,
                is_dragging: false,
                dragging_gate_index: Option::None,
            }),
    {
        Self {
            state: LogicGateAppState::new(),
            dragging_node: Option::None,
            drag_start: Option::None,
            current_drag_position: Option::None,
            current_dragging_line: Option::None,
            is_dragging: false,
            dragging_gate_index: Option::None,
        }
    }

    /// The layout parameters the editor works with.
    pub fn get_config(&self) -> (r: LogicGateConfig)
        ensures
            r == spec_default_config(),
    {
        LogicGateConfig::new_default()
    }

    /// Drag gate `index` so that the grabbed point follows the cursor: the
    /// box is clamped into the working area and its connection points are
    /// spread along its edges again.
    pub fn update_position(
        &mut self,
        position: SerializablePoint,
        index: usize,
        offset: SerializablePoint,
        dragging_edge: Edge,
    )
        requires
            index < old(self)@.state.gates.len(),
            position.wf(),
            offset.wf(),
            0 <= old(self)@.state.gates[index as int].width <= CANVAS_WIDTH - 2 * DEFAULT_MARGIN,
            0 <= old(self)@.state.gates[index as int].height <= CANVAS_HEIGHT - DEFAULT_MARGIN,
            old(self)@.state.gates[index as int].nodes.input_nodes.len() <= MAX_NODE_COUNT,
            old(self)@.state.gates[index as int].nodes.output_nodes.len() <= MAX_NODE_COUNT,
        ensures
            final(self)@ == (AppV {
                state: spec_update_position(
                    old(self)@.state,
                    position,
                    index as int,
                    offset,
                    dragging_edge,
                ),
                ..old(self)@
            }),
    {
        let ghost g0 = old(self)@.state.gates[index as int];
        let bounds = Rect::new(
            DEFAULT_MARGIN,
            DEFAULT_MARGIN,
            CANVAS_WIDTH - 2 * DEFAULT_MARGIN,
            CANVAS_HEIGHT - DEFAULT_MARGIN,
        );
        let gate_width = self.state.gates[index].width;
        let gate_height = self.state.gates[index].height;
        let new_x = position.x - offset.x;
        let new_y = position.y - offset.y;
        let clamped_x = clamp_i64(new_x, bounds.x, bounds.x + bounds.width - gate_width);
        let clamped_y = match dragging_edge {
            Edge::Bottom | Edge::BottomLeft | Edge::BottomRight => clamp_i64(
                new_y + gate_height,
                bounds.y,
                bounds.y + bounds.height,
            ) - gate_height,
            _ => clamp_i64(new_y, bounds.y, bounds.y + bounds.height - gate_height),
        };
        let new_position = SerializablePoint { x: clamped_x, y: clamped_y };
        proof {
            assert(new_position == spec_dragged_gate_position(
                dragging_edge,
                position,
                offset,
                g0.width as int,
                g0.height as int,
            ));
        }
        {
            let gate = &mut self.state.gates[index];
            gate.position = new_position;
        }
        let num_input_nodes = self.state.gates[index].nodes.input_nodes.len();
        let num_output_nodes = self.state.gates[index].nodes.output_nodes.len();
        let mut i: usize = 0;
        while i < num_input_nodes
            invariant
                i <= num_input_nodes,
                index < self.state.gates@.len(),
                self@.state.gates.len() == old(self)@.state.gates.len(),
                num_input_nodes == g0.nodes.input_nodes.len(),
                num_input_nodes <= MAX_NODE_COUNT,
                gate_width == g0.width,
                gate_height == g0.height,
                0 <= gate_height <= CANVAS_HEIGHT - DEFAULT_MARGIN,
                new_position == spec_dragged_gate_position(
                    dragging_edge,
                    position,
                    offset,
                    g0.width as int,
                    g0.height as int,
                ),
                clamped_x == new_position.x,
                clamped_y == new_position.y,
                DEFAULT_MARGIN - (CANVAS_HEIGHT - DEFAULT_MARGIN) <= clamped_y <= CANVAS_HEIGHT,
                DEFAULT_MARGIN <= clamped_x <= CANVAS_WIDTH,
                bounds == spec_drag_bounds(),
                self@.state.nodes == old(self)@.state.nodes,
                self@.state.connections == old(self)@.state.connections,
                self@.dragging_node == old(self)@.dragging_node,
                self@.drag_start == old(self)@.drag_start,
                self@.current_drag_position == old(self)@.current_drag_position,
                self@.current_dragging_line == old(self)@.current_dragging_line,
                self@.is_dragging == old(self)@.is_dragging,
                self@.dragging_gate_index == old(self)@.dragging_gate_index,
                forall|m: int|
                    0 <= m < old(self)@.state.gates.len() && m != index as int
                        ==> #[trigger] self@.state.gates[m] == old(self)@.state.gates[m],
                self@.state.gates[index as int].gate_type == g0.gate_type,
                self@.state.gates[index as int].width == g0.width,
                self@.state.gates[index as int].height == g0.height,
                self@.state.gates[index as int].position == new_position,
                self@.state.gates[index as int].nodes.output_nodes == g0.nodes.output_nodes,
                self@.state.gates[index as int].nodes.input_nodes.len()
                    == g0.nodes.input_nodes.len(),
                forall|k: int|
                    0 <= k < i ==> #[trigger] self@.state.gates[index as int].nodes.input_nodes[k]
                        == spec_dragged_node(
                        g0.nodes.input_nodes[k],
                        new_position.x as int,
                        new_position.y as int,
                        g0.height as int,
                        g0.nodes.input_nodes.len() as int,
                        k,
                    ),
                forall|k: int|
                    i <= k < num_input_nodes
                        ==> #[trigger] self@.state.gates[index as int].nodes.input_nodes[k]
                        == g0.nodes.input_nodes[k],
            decreases num_input_nodes - i,
        {
            let spacing = node_spacing(gate_height, num_input_nodes, i);
            let y = clamped_y + spacing;
            let p = clamp_point(SerializablePoint { x: clamped_x, y }, &bounds);
            let ghost gates_iter = self@.state.gates;
            let gate = &mut self.state.gates[index];
            set_node_position(&mut gate.nodes.input_nodes, i, p);
            proof {
                assert(self@.state.gates[index as int].nodes.input_nodes =~= gates_iter[index as int].nodes.input_nodes.update(
                    i as int,
                    NodeV { position: p, ..gates_iter[index as int].nodes.input_nodes[i as int] },
                ));
                assert forall|m: int|
                    0 <= m < old(self)@.state.gates.len() && m != index as int implies #[trigger] self@.state.gates[m]
                    == gates_iter[m] by {}
            }
            i = i + 1;
        }
        let mut o: usize = 0;
        while o < num_output_nodes
            invariant
                o <= num_output_nodes,
                index < self.state.gates@.len(),
                self@.state.gates.len() == old(self)@.state.gates.len(),
                num_output_nodes == g0.nodes.output_nodes.len(),
                num_output_nodes <= MAX_NODE_COUNT,
                gate_width == g0.width,
                gate_height == g0.height,
                0 <= gate_height <= CANVAS_HEIGHT - DEFAULT_MARGIN,
                0 <= gate_width <= CANVAS_WIDTH - 2 * DEFAULT_MARGIN,
                new_position == spec_dragged_gate_position(
                    dragging_edge,
                    position,
                    offset,
                    g0.width as int,
                    g0.height as int,
                ),
                clamped_x == new_position.x,
                clamped_y == new_position.y,
                DEFAULT_MARGIN - (CANVAS_HEIGHT - DEFAULT_MARGIN) <= clamped_y <= CANVAS_HEIGHT,
                DEFAULT_MARGIN <= clamped_x <= CANVAS_WIDTH,
                bounds == spec_drag_bounds(),
                self@.state.nodes == old(self)@.state.nodes,
                self@.state.connections == old(self)@.state.connections,
                self@.dragging_node == old(self)@.dragging_node,
                self@.drag_start == old(self)@.drag_start,
                self@.current_drag_position == old(self)@.current_drag_position,
                self@.current_dragging_line == old(self)@.current_dragging_line,
                self@.is_dragging == old(self)@.is_dragging,
                self@.dragging_gate_index == old(self)@.dragging_gate_index,
                forall|m: int|
                    0 <= m < old(self)@.state.gates.len() && m != index as int
                        ==> #[trigger] self@.state.gates[m] == old(self)@.state.gates[m],
                self@.state.gates[index as int].gate_type == g0.gate_type,
                self@.state.gates[index as int].width == g0.width,
                self@.state.gates[index as int].height == g0.height,
                self@.state.gates[index as int].position == new_position,
                self@.state.gates[index as int].nodes.input_nodes.len()
                    == g0.nodes.input_nodes.len(),
                forall|k: int|
                    0 <= k < g0.nodes.input_nodes.len()
                        ==> #[trigger] self@.state.gates[index as int].nodes.input_nodes[k]
                        == spec_dragged_node(
                        g0.nodes.input_nodes[k],
                        new_position.x as int,
                        new_position.y as int,
                        g0.height as int,
                        g0.nodes.input_nodes.len() as int,
                        k,
                    ),
                self@.state.gates[index as int].nodes.output_nodes.len()
                    == g0.nodes.output_nodes.len(),
                forall|k: int|
                    0 <= k < o ==> #[trigger] self@.state.gates[index as int].nodes.output_nodes[k]
                        == spec_dragged_node(
                        g0.nodes.output_nodes[k],
                        new_position.x + g0.width,
                        new_position.y as int,
                        g0.height as int,
                        g0.nodes.output_nodes.len() as int,
                        k,
                    ),
                forall|k: int|
                    o <= k < num_output_nodes
                        ==> #[trigger] self@.state.gates[index as int].nodes.output_nodes[k]
                        == g0.nodes.output_nodes[k],
            decreases num_output_nodes - o,
        {
            let spacing = node_spacing(gate_height, num_output_nodes, o);
            let y = clamped_y + spacing;
            let p = clamp_point(SerializablePoint { x: clamped_x + gate_width, y }, &bounds);
            let ghost gates_iter = self@.state.gates;
            let gate = &mut self.state.gates[index];
            set_node_position(&mut gate.nodes.output_nodes, o, p);
            proof {
                assert(self@.state.gates[index as int].nodes.output_nodes =~= gates_iter[index as int].nodes.output_nodes.update(
                    o as int,
                    NodeV { position: p, ..gates_iter[index as int].nodes.output_nodes[o as int] },
                ));
                assert forall|m: int|
                    0 <= m < old(self)@.state.gates.len() && m != index as int implies #[trigger] self@.state.gates[m]
                    == gates_iter[m] by {}
            }
            o = o + 1;
        }
        proof {
            assert(self@.state.gates[index as int] =~~= spec_update_position(
                old(self)@.state,
                position,
                index as int,
                offset,
                dragging_edge,
            ).gates[index as int]);
            assert(self@ =~~= (AppV {
                state: spec_update_position(
                    old(self)@.state,
                    position,
                    index as int,
                    offset,
                    dragging_edge,
                ),
                ..old(self)@
            }));
        }
    }

    /// Handle one message: edit the circuit or the drag bookkeeping as
    /// [`spec_apply_message`] says, and hand back what the caller must do
    /// next.
    #[verifier::rlimit(50)]
    pub fn update(&mut self, message: Message) -> (cmd: AppCommand)
        requires
            spec_msg_valid(old(self)@, message),
        ensures
            final(self)@ == spec_apply_message(old(self)@, message),
            cmd == spec_command(old(self)@, message),
    {
        match message {
            Message::Save => {
                proof {
                    assert(self@ =~~= spec_apply_message(old(self)@, message));
                }
                AppCommand::SaveRequested
            },
            Message::Load => {
                proof {
                    assert(self@ =~~= spec_apply_message(old(self)@, message));
                }
                AppCommand::LoadRequested
            },
            Message::AddInputNode(position) => {
                let cursor_point = SerializablePoint { x: NODE_RADIUS + 10, y: position.y };
                let new_node = Node::new(cursor_point, NodeType::Input, NODE_RADIUS);
                if self.state.nodes.len() > 0 {
                    let group = &mut self.state.nodes[0];
                    group.add_input_node(new_node);
                }
                proof {
                    assert(self@ =~~= spec_apply_message(old(self)@, message));
                }
                AppCommand::Nothing
            },
            Message::AddOutputNode(position, bounds) => {
                let cursor_point = SerializablePoint {
                    x: bounds.width - NODE_RADIUS - 10,
                    y: position.y,
                };
                let new_node = Node::new(cursor_point, NodeType::Output, NODE_RADIUS);
                if self.state.nodes.len() > 0 {
                    let group = &mut self.state.nodes[0];
                    group.add_output_node(new_node);
                }
                proof {
                    assert(self@ =~~= spec_apply_message(old(self)@, message));
                }
                AppCommand::Nothing
            },
            Message::AddGate(gate_type, input, output) => {
                let config = self.get_config();
                self.state.add_gate(
                    gate_type,
                    SerializablePoint { x: 150, y: 400 },
                    input,
                    output,
                    &config,
                );
                proof {
                    assert(self@ =~~= spec_apply_message(old(self)@, message));
                }
                AppCommand::Nothing
            },
            Message::AddConnection(target_node_index, node_type) => {
                let info: Option<(usize, Vec<SerializablePoint>)> = match &self
                    .current_dragging_line {
                    Option::Some(path) => match self.dragging_node {
                        Option::Some((start_index, _)) => {
                            let pts = path.points.clone();
                            proof {
                                assert(pts@ =~= path.points@);
                            }
                            Option::Some((start_index, pts))
                        },
                        Option::None => Option::None,
                    },
                    Option::None => Option::None,
                };
                match info {
                    Option::Some((start_index, pts)) => {
                        let connection = Connection::new(start_index, target_node_index, pts);
                        let connection_for_node = connection.clone();
                        self.state.connections.push(connection);
                        match node_type {
                            NodeType::Input => {
                                let group = &mut self.state.nodes[0];
                                set_node_connection(
                                    &mut group.input_nodes,
                                    start_index,
                                    connection_for_node,
                                );
                            },
                            NodeType::Output => {
                                let group = &mut self.state.nodes[0];
                                set_node_connection(
                                    &mut group.output_nodes,
                                    start_index,
                                    connection_for_node,
                                );
                            },
                        }
                        proof {
                            assert(self@ =~~= spec_apply_message(old(self)@, message));
                        }
                        AppCommand::Dispatch(Message::DisabledDragging)
                    },
                    Option::None => {
                        proof {
                            assert(self@ =~~= spec_apply_message(old(self)@, message));
                        }
                        AppCommand::Nothing
                    },
                }
            },
            Message::UpdateDraggingGate(gate_index, offset) => {
                self.dragging_gate_index = Option::Some(gate_index);
                self.drag_start = Option::Some(offset);
                proof {
                    assert(self@ =~~= spec_apply_message(old(self)@, message));
                }
                AppCommand::Nothing
            },
            Message::UpdateDraggingNode(node, start, position) => {
                self.dragging_node = node;
                self.current_dragging_line = Option::Some(LinePath::new(position));
                self.is_dragging = true;
                self.drag_start = start;
                proof {
                    assert(self@ =~~= spec_apply_message(old(self)@, message));
                }
                AppCommand::Nothing
            },
            Message::UpdateDraggingGatePosition(position, index, offset) => {
                match self.drag_start {
                    Option::Some(initial_position) => {
                        let dragging_edge = get_dragging_edge(position, initial_position);
                        self.update_position(position, index, offset, dragging_edge);
                        proof {
                            assert(self@ =~~= spec_apply_message(old(self)@, message));
                        }
                    },
                    Option::None => {
                        proof {
                            assert(self@ =~~= spec_apply_message(old(self)@, message));
                        }
                    },
                }
                AppCommand::Nothing
            },
            Message::UpdateNodeState(node, node_type) => {
                match node_type {
                    NodeType::Input => {
                        let group = &mut self.state.nodes[0];
                        if group.input_nodes[node].connected_to.is_some() {
                            let s = group.input_nodes[node].state;
                            set_node_state(&mut group.input_nodes, node, !s);
                        }
                    },
                    NodeType::Output => {
                        let group = &mut self.state.nodes[0];
                        if group.output_nodes[node].connected_to.is_some() {
                            let s = group.output_nodes[node].state;
                            set_node_state(&mut group.output_nodes, node, !s);
                        }
                    },
                }
                proof {
                    assert(self@.state =~~= spec_toggle_node(
                        old(self)@.state,
                        node as int,
                        node_type,
                    ));
                    let toggled = spec_toggle_node(old(self)@.state, node as int, node_type);
                    assert forall|i: int| 0 <= i < toggled.connections.len() implies {
                        &&& (#[trigger] toggled.connections[i]).to < toggled.nodes.len()
                        &&& toggled.nodes[toggled.connections[i].to as int].input_nodes.len() > 0
                    } by {
                        assert(old(self)@.state.connections[i].to < old(self)@.state.nodes.len());
                    }
                }
                self.state.update_connections();
                proof {
                    assert(self@ =~~= spec_apply_message(old(self)@, message));
                }
                AppCommand::Dispatch(Message::DisabledDragging)
            },
            Message::UpdateDraggingLine(position, last_position) => {
                let dx = if last_position.x >= position.x {
                    last_position.x - position.x
                } else {
                    position.x - last_position.x
                };
                let dy = if last_position.y >= position.y {
                    last_position.y - position.y
                } else {
                    position.y - last_position.y
                };
                let bounds = Rect::new(
                    DEFAULT_MARGIN,
                    DEFAULT_MARGIN,
                    CANVAS_WIDTH - 2 * DEFAULT_MARGIN,
                    CANVAS_HEIGHT - DEFAULT_MARGIN,
                );
                if dx > MIN_DISTANCE || dy > MIN_DISTANCE {
                    let new_point = if dx > dy {
                        SerializablePoint { x: position.x, y: last_position.y }
                    } else {
                        SerializablePoint { x: last_position.x, y: position.y }
                    };
                    let clamped_new_point = clamp_point(new_point, &bounds);
                    match &mut self.current_dragging_line {
                        Option::Some(dragging_line) => {
                            dragging_line.add_point(clamped_new_point);
                        },
                        Option::None => {},
                    }
                }
                proof {
                    assert(self@ =~~= spec_apply_message(old(self)@, message));
                }
                AppCommand::Nothing
            },
            Message::UpdateIsDragging => {
                self.is_dragging = true;
                proof {
                    assert(self@ =~~= spec_apply_message(old(self)@, message));
                }
                AppCommand::Nothing
            },
            Message::RemoveNode(node_index, node_type) => {
                match node_type {
                    NodeType::Input => {
                        let group = &mut self.state.nodes[0];
                        group.input_nodes.remove(node_index);
                        proof {
                            assert(group.input_nodes@.map_values(|n: Node| n@)
                                =~= old(self)@.state.nodes[0].input_nodes.remove(node_index as int));
                        }
                    },
                    NodeType::Output => {
                        let group = &mut self.state.nodes[0];
                        group.output_nodes.remove(node_index);
                        proof {
                            assert(group.output_nodes@.map_values(|n: Node| n@)
                                =~= old(self)@.state.nodes[0].output_nodes.remove(
                                node_index as int,
                            ));
                        }
                    },
                }
                proof {
                    assert(self@ =~~= spec_apply_message(old(self)@, message));
                }
                AppCommand::Nothing
            },
            Message::DisabledDragging => {
                self.dragging_node = Option::None;
                self.dragging_gate_index = Option::None;
                self.is_dragging = false;
                self.drag_start = Option::None;
                proof {
                    assert(self@ =~~= spec_apply_message(old(self)@, message));
                }
                AppCommand::Nothing
            },
        }
    }
}

} // verus!
