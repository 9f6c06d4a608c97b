use crate::components::connection::{Connection, ConnectionV};
use crate::components::gate::{spec_new_gate, GateType, GateV, LogicGate};
use crate::components::node::{set_node_state, Node, NodeType, NodeV, Nodes, NodesV};
use crate::config::logic_gate_config::{spec_config_gate_height, LogicGateConfig};
use crate::helpers::helpers::{
    is_point_near_gate, is_point_near_node, spec_point_in_gate, spec_point_near_node,
    MAX_NODE_COUNT, NODE_RADIUS,
};
use crate::serialize_point::{SerializablePoint, MAX_COORD};
use vstd::prelude::*;

verus! {

/// The whole circuit: free connection points on the canvas boundary, gates,
/// and the connections wired between them.
#[derive(Debug)]
pub struct LogicGateAppState {
    pub nodes: Vec<Nodes>,
    pub gates: Vec<LogicGate>,
    pub connections: Vec<Connection>,
}

/// The mathematical image of a [`LogicGateAppState`].
#[verifier::ext_equal]
pub struct StateV {
    pub nodes: Seq<NodesV>,
    pub gates: Seq<GateV>,
    pub connections: Seq<ConnectionV>,
}

pub open spec fn view_groups(v: Seq<Nodes>) -> Seq<NodesV> {
    v.map_values(|g: Nodes| g@)
}

pub open spec fn view_gates(v: Seq<LogicGate>) -> Seq<GateV> {
    v.map_values(|g: LogicGate| g@)
}

pub open spec fn view_conns(v: Seq<Connection>) -> Seq<ConnectionV> {
    v.map_values(|c: Connection| c@)
}

impl View for LogicGateAppState {
    type V = StateV;

    open spec fn view(&self) -> StateV {
        StateV {
            nodes: view_groups(self.nodes@),
            gates: view_gates(self.gates@),
            connections: view_conns(self.connections@),
        }
    }
}

impl StateV {
    /// Every group's connection points lie in the coordinate budget.
    pub open spec fn groups_wf(self) -> bool {
        forall|g: int| 0 <= g < self.nodes.len() ==> (#[trigger] self.nodes[g]).wf()
    }

    /// Every gate box and its connection points lie in the coordinate budget.
    pub open spec fn gates_wf(self) -> bool {
        forall|k: int| 0 <= k < self.gates.len() ==> (#[trigger] self.gates[k]).wf()
    }
}

/// The circuit a fresh editor starts with: one free input point on the left
/// border, one free output point on the right, no gates, no connections.
pub open spec fn spec_initial_state() -> StateV {
    StateV {
        nodes: seq![
            NodesV {
                input_nodes: seq![
                    NodeV {
                        position: SerializablePoint { x: 25, y: 400 },
                        state: false,
                        connected_to: Option::None,
                        node_type: NodeType::Input,
                        radius: NODE_RADIUS,
                    },
                ],
                output_nodes: seq![
                    NodeV {
                        position: SerializablePoint { x: 1415, y: 400 },
                        state: false,
                        connected_to: Option::None,
                        node_type: NodeType::Output,
                        radius: NODE_RADIUS,
                    },
                ],
            },
        ],
        gates: Seq::empty(),
        connections: Seq::empty(),
    }
}

/// First node at or after `i` that the cursor is near, as a within-list
/// index.
pub open spec fn find_in_nodes(nodes: Seq<NodeV>, p: SerializablePoint, i: int) -> Option<usize>
    decreases nodes.len() - i,
{
    if i < 0 || i >= nodes.len() {
        Option::None
    } else if spec_point_near_node(p, nodes[i]) {
        Option::Some(i as usize)
    } else {
        find_in_nodes(nodes, p, i + 1)
    }
}

/// First hit in groups `g` onwards: each group's input points are searched
/// before its output points, and the index returned counts within that list.
pub open spec fn find_node_in_groups(groups: Seq<NodesV>, p: SerializablePoint, g: int) -> Option<
    (usize, NodeType),
>
    decreases groups.len() - g,
{
    if g < 0 || g >= groups.len() {
        Option::None
    } else {
        match find_in_nodes(groups[g].input_nodes, p, 0) {
            Option::Some(i) => Option::Some((i, NodeType::Input)),
            Option::None => match find_in_nodes(groups[g].output_nodes, p, 0) {
                Option::Some(i) => Option::Some((i, NodeType::Output)),
                Option::None => find_node_in_groups(groups, p, g + 1),
            },
        }
    }
}

pub open spec fn spec_find_node_at_position(s: StateV, p: SerializablePoint) -> Option<
    (usize, NodeType),
> {
    find_node_in_groups(s.nodes, p, 0)
}

/// First gate at or after `k` whose box holds the cursor.
pub open spec fn find_gate_from(gates: Seq<GateV>, p: SerializablePoint, k: int) -> Option<usize>
    decreases gates.len() - k,
{
    if k < 0 || k >= gates.len() {
        Option::None
    } else if spec_point_in_gate(p, gates[k]) {
        Option::Some(k as usize)
    } else {
        find_gate_from(gates, p, k + 1)
    }
}

/// First node at or after `i` that is not the drag's own anchor and that the
/// cursor is near; its position is what a drag would snap to.
pub open spec fn prox_in_nodes(
    nodes: Seq<NodeV>,
    cursor: SerializablePoint,
    start: SerializablePoint,
    i: int,
) -> Option<SerializablePoint>
    decreases nodes.len() - i,
{
    if i < 0 || i >= nodes.len() {
        Option::None
    } else if nodes[i].position != start && spec_point_near_node(cursor, nodes[i]) {
        Option::Some(nodes[i].position)
    } else {
        prox_in_nodes(nodes, cursor, start, i + 1)
    }
}

pub open spec fn prox_in_groups(
    groups: Seq<NodesV>,
    cursor: SerializablePoint,
    start: SerializablePoint,
    g: int,
) -> Option<SerializablePoint>
    decreases groups.len() - g,
{
    if g < 0 || g >= groups.len() {
        Option::None
    } else {
        match prox_in_nodes(groups[g].input_nodes, cursor, start, 0) {
            Option::Some(p) => Option::Some(p),
            Option::None => match prox_in_nodes(groups[g].output_nodes, cursor, start, 0) {
                Option::Some(p) => Option::Some(p),
                Option::None => prox_in_groups(groups, cursor, start, g + 1),
            },
        }
    }
}

/// First of a gate's own nodes, at or after `i`, that is not the drag's own
/// anchor while the cursor is over that gate's box.
pub open spec fn prox_gate_nodes(
    nodes: Seq<NodeV>,
    gate: GateV,
    cursor: SerializablePoint,
    start: SerializablePoint,
    i: int,
) -> Option<SerializablePoint>
    decreases nodes.len() - i,
{
    if i < 0 || i >= nodes.len() {
        Option::None
    } else if nodes[i].position != start && spec_point_in_gate(cursor, gate) {
        Option::Some(nodes[i].position)
    } else {
        prox_gate_nodes(nodes, gate, cursor, start, i + 1)
    }
}

pub open spec fn prox_in_gates(
    gates: Seq<GateV>,
    cursor: SerializablePoint,
    start: SerializablePoint,
    k: int,
) -> Option<SerializablePoint>
    decreases gates.len() - k,
{
    if k < 0 || k >= gates.len() {
        Option::None
    } else {
        match prox_gate_nodes(gates[k].nodes.input_nodes, gates[k], cursor, start, 0) {
            Option::Some(p) => Option::Some(p),
            Option::None => match prox_gate_nodes(
                gates[k].nodes.output_nodes,
                gates[k],
                cursor,
                start,
                0,
            ) {
                Option::Some(p) => Option::Some(p),
                Option::None => prox_in_gates(gates, cursor, start, k + 1),
            },
        }
    }
}

/// What a finished drag snaps to: the free groups are searched first, then
/// the gates.
pub open spec fn spec_check_proximity(
    s: StateV,
    cursor: SerializablePoint,
    start: SerializablePoint,
) -> Option<SerializablePoint> {
    match prox_in_groups(s.nodes, cursor, start, 0) {
        Option::Some(p) => Option::Some(p),
        Option::None => prox_in_gates(s.gates, cursor, start, 0),
    }
}

/// The signal carried by the first connection point of group `g`: the value
/// a propagation pass pushes along every connection leaving that group.
pub open spec fn group_signal(groups: Seq<NodesV>, g: int) -> bool
    recommends
        0 <= g < groups.len(),
        groups[g].input_nodes.len() > 0,
{
    groups[g].input_nodes[0].state
}

/// Every connection ends at an existing group that has at least one input
/// node. A propagation pass asks this of the whole circuit.
pub open spec fn conn_targets_ok(s: StateV) -> bool {
    forall|i: int|
        0 <= i < s.connections.len() ==> {
            &&& (#[trigger] s.connections[i]).to < s.nodes.len()
            &&& s.nodes[s.connections[i].to as int].input_nodes.len() > 0
        }
}

/// Every gathered (target, state) pair names an existing group with at
/// least one input node.
pub open spec fn update_targets_ok(s0: StateV, ups: Seq<(usize, bool)>) -> bool {
    forall|i: int|
        0 <= i < ups.len() ==> {
            &&& ((#[trigger] ups[i]).0 as int) < s0.nodes.len()
            &&& s0.nodes[ups[i].0 as int].input_nodes.len() > 0
        }
}

/// The (target, state) pairs that the first `n` connections contribute for
/// source group `g`, in connection order.
pub open spec fn updates_for_group_upto(
    groups: Seq<NodesV>,
    conns: Seq<ConnectionV>,
    g: int,
    n: int,
) -> Seq<(usize, bool)>
    decreases n,
{
    if n <= 0 {
        Seq::empty()
    } else {
        updates_for_group_upto(groups, conns, g, n - 1) + if conns[n - 1].from as int == g {
            seq![(conns[n - 1].to, group_signal(groups, g))]
        } else {
            Seq::empty()
        }
    }
}

/// All pairs that group `g` contributes: none when the group has no input
/// node to read a signal from.
pub open spec fn group_updates(groups: Seq<NodesV>, conns: Seq<ConnectionV>, g: int) -> Seq<
    (usize, bool),
> {
    if 0 <= g < groups.len() && groups[g].input_nodes.len() > 0 {
        updates_for_group_upto(groups, conns, g, conns.len() as int)
    } else {
        Seq::empty()
    }
}

/// The pairs contributed by groups `0 .. g`, in group order.
pub open spec fn all_updates_upto(groups: Seq<NodesV>, conns: Seq<ConnectionV>, g: int) -> Seq<
    (usize, bool),
>
    decreases g,
{
    if g <= 0 {
        Seq::empty()
    } else {
        all_updates_upto(groups, conns, g - 1) + group_updates(groups, conns, g - 1)
    }
}

/// The full update list a propagation pass gathers before applying anything.
pub open spec fn spec_all_updates(groups: Seq<NodesV>, conns: Seq<ConnectionV>) -> Seq<
    (usize, bool),
> {
    all_updates_upto(groups, conns, groups.len() as int)
}

/// A connection after the gathering phase: active exactly when its source
/// group exists, has an input node, and that node is on.
pub open spec fn spec_refresh_connection(groups: Seq<NodesV>, c: ConnectionV) -> ConnectionV {
    if (c.from as int) < groups.len() && groups[c.from as int].input_nodes.len() > 0 {
        ConnectionV { is_active: group_signal(groups, c.from as int), ..c }
    } else {
        c
    }
}

pub open spec fn spec_refresh_connections(groups: Seq<NodesV>, conns: Seq<ConnectionV>) -> Seq<
    ConnectionV,
> {
    conns.map_values(|c: ConnectionV| spec_refresh_connection(groups, c))
}

/// One applied update on the groups: the target group's first input and
/// first output node take the pushed state.
pub open spec fn apply_update_nodes(groups: Seq<NodesV>, j: int, b: bool) -> Seq<NodesV> {
    if 0 <= j < groups.len() {
        let g = groups[j];
        let g1 = NodesV {
            input_nodes: if g.input_nodes.len() > 0 {
                g.input_nodes.update(0, NodeV { state: b, ..g.input_nodes[0] })
            } else {
                g.input_nodes
            },
            output_nodes: if g.output_nodes.len() > 0 {
                g.output_nodes.update(0, NodeV { state: b, ..g.output_nodes[0] })
            } else {
                g.output_nodes
            },
        };
        groups.update(j, g1)
    } else {
        groups
    }
}

/// Whether one applied update reaches gate `g`: its first input sits
/// at the target group's first input point, and it is a NOT gate with
/// an output to show the negated state on.
pub open spec fn gate_hit(g: GateV, groups: Seq<NodesV>, j: int) -> bool {
    &&& 0 <= j < groups.len()
    &&& g.nodes.input_nodes.len() > 0
    &&& groups[j].input_nodes.len() > 0
    &&& g.nodes.input_nodes[0].position == groups[j].input_nodes[0].position
    &&& g.gate_type == GateType::Not
    &&& g.nodes.output_nodes.len() > 0
}

/// One applied update on the gates: every gate that the update reaches shows
/// the negated state on its first output.
pub open spec fn apply_update_gates(
    gates: Seq<GateV>,
    groups: Seq<NodesV>,
    j: int,
    b: bool,
) -> Seq<GateV> {
    gates.map_values(
        |g: GateV|
            if gate_hit(g, groups, j) {
                GateV {
                    nodes: NodesV {
                        output_nodes: g.nodes.output_nodes.update(
                            0,
                            NodeV { state: !b, ..g.nodes.output_nodes[0] },
                        ),
                        ..g.nodes
                    },
                    ..g
                }
            } else {
                g
            },
    )
}

/// The applying phase: updates take effect in order, later updates to the
/// same target overriding earlier ones.
pub open spec fn apply_updates(
    groups: Seq<NodesV>,
    gates: Seq<GateV>,
    ups: Seq<(usize, bool)>,
) -> (Seq<NodesV>, Seq<GateV>)
    decreases ups.len(),
{
    if ups.len() == 0 {
        (groups, gates)
    } else {
        let j = ups[0].0 as int;
        let b = ups[0].1;
        let groups1 = apply_update_nodes(groups, j, b);
        let gates1 = apply_update_gates(gates, groups1, j, b);
        apply_updates(groups1, gates1, ups.drop_first())
    }
}

/// One whole propagation pass over a circuit: gather every (target, state)
/// pair and refresh each connection's active flag, then apply the pairs in
/// order.
pub open spec fn spec_update_connections(s: StateV) -> StateV {
    let ups = spec_all_updates(s.nodes, s.connections);
    StateV {
        nodes: apply_updates(s.nodes, s.gates, ups).0,
        gates: apply_updates(s.nodes, s.gates, ups).1,
        connections: spec_refresh_connections(s.nodes, s.connections),
    }
}

/// A propagation pass never adds or removes a group, a gate or a
/// connection, and never moves a connection point.
pub proof fn lemma_pass_preserves_shape(s: StateV)
    ensures
        spec_update_connections(s).nodes.len() == s.nodes.len(),
        spec_update_connections(s).gates.len() == s.gates.len(),
        spec_update_connections(s).connections.len() == s.connections.len(),
        forall|j: int|
            0 <= j < s.nodes.len() ==> {
                let g1 = #[trigger] spec_update_connections(s).nodes[j];
                &&& g1.input_nodes.len() == s.nodes[j].input_nodes.len()
                &&& g1.output_nodes.len() == s.nodes[j].output_nodes.len()
                &&& forall|i: int|
                    0 <= i < s.nodes[j].input_nodes.len() ==> (#[trigger] g1.input_nodes[i]).position
                        == s.nodes[j].input_nodes[i].position
            },
{
    lemma_apply_updates_shape(s.nodes, s.gates, spec_all_updates(s.nodes, s.connections));
}

/// A propagation pass keeps every connection's endpoints and polyline, and
/// sets its active flag to the source group's first input state exactly when
/// that group exists and has an input node.
pub proof fn lemma_pass_refreshes_wires(s: StateV, k: int)
    requires
        0 <= k < s.connections.len(),
    ensures
        spec_update_connections(s).connections[k].from == s.connections[k].from,
        spec_update_connections(s).connections[k].to == s.connections[k].to,
        spec_update_connections(s).connections[k].path == s.connections[k].path,
        (s.connections[k].from as int) < s.nodes.len() && s.nodes[s.connections[k].from as int].input_nodes.len()
            > 0 ==> spec_update_connections(s).connections[k].is_active == group_signal(
            s.nodes,
            s.connections[k].from as int,
        ),
        !((s.connections[k].from as int) < s.nodes.len()
            && s.nodes[s.connections[k].from as int].input_nodes.len() > 0)
            ==> spec_update_connections(s).connections[k].is_active == s.connections[k].is_active,
{
}

/// Expected active flag of connection `k` while the gathering phase has
/// finished groups `0 .. g` and, within group `g`, connections `0 .. ci`.
spec fn conn_active_phase1(s0: StateV, k: int, g: int, ci: int) -> bool {
    let c = s0.connections[k];
    if {
        &&& (c.from as int) < s0.nodes.len()
        &&& s0.nodes[c.from as int].input_nodes.len() > 0
        &&& ((c.from as int) < g || ((c.from as int) == g && k < ci))
    } {
        group_signal(s0.nodes, c.from as int)
    } else {
        c.is_active
    }
}

/// Applying updates never moves a node, never adds or removes one, and
/// never changes how many gates there are.
pub proof fn lemma_apply_updates_shape(
    groups: Seq<NodesV>,
    gates: Seq<GateV>,
    ups: Seq<(usize, bool)>,
)
    ensures
        apply_updates(groups, gates, ups).0.len() == groups.len(),
        forall|j: int|
            0 <= j < groups.len() ==> {
                let g1 = #[trigger] apply_updates(groups, gates, ups).0[j];
                &&& g1.input_nodes.len() == groups[j].input_nodes.len()
                &&& g1.output_nodes.len() == groups[j].output_nodes.len()
                &&& forall|i: int|
                    0 <= i < groups[j].input_nodes.len() ==> (#[trigger] g1.input_nodes[i]).position
                        == groups[j].input_nodes[i].position
            },
        apply_updates(groups, gates, ups).1.len() == gates.len(),
    decreases ups.len(),
{
    if ups.len() == 0 {
    } else {
        let j = ups[0].0 as int;
        let b = ups[0].1;
        let groups1 = apply_update_nodes(groups, j, b);
        let gates1 = apply_update_gates(gates, groups1, j, b);
        lemma_apply_updates_shape(groups1, gates1, ups.drop_first());
        assert forall|j2: int| 0 <= j2 < groups.len() implies {
            let g1 = #[trigger] apply_updates(groups, gates, ups).0[j2];
            &&& g1.input_nodes.len() == groups[j2].input_nodes.len()
            &&& g1.output_nodes.len() == groups[j2].output_nodes.len()
            &&& forall|i: int|
                0 <= i < groups[j2].input_nodes.len() ==> (#[trigger] g1.input_nodes[i]).position
                    == groups[j2].input_nodes[i].position
        } by {
            assert(apply_updates(groups, gates, ups).0[j2] == apply_updates(
                groups1,
                gates1,
                ups.drop_first(),
            ).0[j2]);
            assert(groups1[j2].input_nodes.len() == groups[j2].input_nodes.len());
            assert(groups1[j2].output_nodes.len() == groups[j2].output_nodes.len());
            assert(forall|i: int|
                0 <= i < groups[j2].input_nodes.len() ==> (#[trigger] groups1[j2].input_nodes[i]).position
                    == groups[j2].input_nodes[i].position);
        }
    }
}

/// Every pair gathered from one group targets an existing group with at
/// least one input node, provided every connection does.
pub proof fn lemma_updates_targets_ok(s0: StateV, g: int, n: int)
    requires
        conn_targets_ok(s0),
        n <= s0.connections.len(),
    ensures
        update_targets_ok(s0, updates_for_group_upto(s0.nodes, s0.connections, g, n)),
    decreases n,
{
    if n <= 0 {
    } else {
        lemma_updates_targets_ok(s0, g, n - 1);
        let prev = updates_for_group_upto(s0.nodes, s0.connections, g, n - 1);
        let cur = updates_for_group_upto(s0.nodes, s0.connections, g, n);
        assert forall|i: int| 0 <= i < cur.len() implies {
            &&& ((#[trigger] cur[i]).0 as int) < s0.nodes.len()
            &&& s0.nodes[cur[i].0 as int].input_nodes.len() > 0
        } by {
            if i < prev.len() {
                assert(cur[i] == prev[i]);
            } else {
                assert(s0.connections[n - 1].to < s0.nodes.len());
                assert(cur[i] == (s0.connections[n - 1].to, group_signal(s0.nodes, g)));
            }
        }
    }
}

/// As [`lemma_updates_targets_ok`], for the whole gathered list.
pub proof fn lemma_all_updates_targets_ok(s0: StateV, g: int)
    requires
        conn_targets_ok(s0),
    ensures
        update_targets_ok(s0, all_updates_upto(s0.nodes, s0.connections, g)),
    decreases g,
{
    if g <= 0 {
    } else {
        lemma_all_updates_targets_ok(s0, g - 1);
        lemma_updates_targets_ok(s0, g - 1, s0.connections.len() as int);
        let prev = all_updates_upto(s0.nodes, s0.connections, g - 1);
        let gu = group_updates(s0.nodes, s0.connections, g - 1);
        let cur = all_updates_upto(s0.nodes, s0.connections, g);
        assert forall|i: int| 0 <= i < cur.len() implies {
            &&& ((#[trigger] cur[i]).0 as int) < s0.nodes.len()
            &&& s0.nodes[cur[i].0 as int].input_nodes.len() > 0
        } by {
            if i < prev.len() {
                assert(cur[i] == prev[i]);
            } else {
                assert(cur[i] == gu[i - prev.len()]);
            }
        }
    }
}

/// Applying a list with one more update at its end is applying the list,
/// then that update.
pub proof fn lemma_apply_updates_snoc(
    groups: Seq<NodesV>,
    gates: Seq<GateV>,
    ups: Seq<(usize, bool)>,
    u: (usize, bool),
)
    ensures
        apply_updates(groups, gates, ups.push(u)).0 == apply_update_nodes(
            apply_updates(groups, gates, ups).0,
            u.0 as int,
            u.1,
        ),
        apply_updates(groups, gates, ups.push(u)).1 == apply_update_gates(
            apply_updates(groups, gates, ups).1,
            apply_update_nodes(apply_updates(groups, gates, ups).0, u.0 as int, u.1),
            u.0 as int,
            u.1,
        ),
    decreases ups.len(),
{
    if ups.len() == 0 {
        assert(ups.push(u)[0] == u);
        assert(ups.push(u).drop_first() =~= Seq::<(usize, bool)>::empty());
        let groups1 = apply_update_nodes(groups, u.0 as int, u.1);
        let gates1 = apply_update_gates(gates, groups1, u.0 as int, u.1);
        assert(apply_updates(groups1, gates1, Seq::<(usize, bool)>::empty()) == (
            groups1,
            gates1,
        ));
        assert(apply_updates(groups, gates, ups) == (groups, gates));
    } else {
        let j = ups[0].0 as int;
        let b = ups[0].1;
        let groups1 = apply_update_nodes(groups, j, b);
        let gates1 = apply_update_gates(gates, groups1, j, b);
        assert(ups.push(u)[0] == ups[0]);
        assert(ups.push(u).drop_first() =~= ups.drop_first().push(u));
        lemma_apply_updates_snoc(groups1, gates1, ups.drop_first(), u);
    }
}

/// Replace the active flag of the connection at `i`, leaving everything else
/// as it stands.
fn set_conn_active(v: &mut Vec<Connection>, i: usize, b: bool)
    requires
        i < old(v)@.len(),
    ensures
        view_conns(final(v)@) == view_conns(old(v)@).update(
            i as int,
            ConnectionV { is_active: b, ..view_conns(old(v)@)[i as int] },
        ),
{
    let c = &mut v[i];
    c.is_active = b;
    proof {
        assert(view_conns(v@) =~= view_conns(old(v)@).update(
            i as int,
            ConnectionV { is_active: b, ..view_conns(old(v)@)[i as int] },
        ));
    }
}

impl LogicGateAppState {
    /// A fresh circuit: one free input point on the left border, one free
    /// output point on the right, no gates, no connections.
    pub fn new() -> (r: Self)
        ensures
            r@ == spec_initial_state(),
    {
        let input_node = Node::new(
            SerializablePoint { x: 25, y: 400 },
            NodeType::Input,
            NODE_RADIUS,
        );
        let output_node = Node::new(
            SerializablePoint { x: 1415, y: 400 },
            NodeType::Output,
            NODE_RADIUS,
        );
        let mut input_nodes: Vec<Node> = Vec::new();
        input_nodes.push(input_node);
        let mut output_nodes: Vec<Node> = Vec::new();
        output_nodes.push(output_node);
        let initial_nodes = Nodes { input_nodes, output_nodes };
        let mut nodes: Vec<Nodes> = Vec::new();
        nodes.push(initial_nodes);
        let r = Self { nodes, gates: Vec::new(), connections: Vec::new() };
        proof {
            assert(r@ =~~= spec_initial_state());
        }
        r
    }

    /// Add a gate of the given kind at the given spot, its box sized by the
    /// layout parameters and its connection points spread along its edges.
    pub fn add_gate(
        &mut self,
        gate_type: GateType,
        position: SerializablePoint,
        num_input_nodes: usize,
        num_output_nodes: usize,
        config: &LogicGateConfig,
    )
        requires
            position.wf(),
            config.wf(),
            num_input_nodes <= MAX_NODE_COUNT,
            num_output_nodes <= MAX_NODE_COUNT,
            spec_config_gate_height(
                num_input_nodes as int,
                num_output_nodes as int,
                config.node_height_spacing as int,
            ) <= MAX_COORD,
        ensures
            final(self)@.gates == old(self)@.gates.push(
                spec_new_gate(
                    gate_type,
                    position,
                    num_input_nodes as int,
                    num_output_nodes as int,
                    *config,
                ),
            ),
            final(self)@.nodes == old(self)@.nodes,
            final(self)@.connections == old(self)@.connections,
    {
        let gate = LogicGate::new(gate_type, position, num_input_nodes, num_output_nodes, config);
        self.gates.push(gate);
        proof {
            assert(self@.gates =~= old(self)@.gates.push(
                spec_new_gate(
                    gate_type,
                    position,
                    num_input_nodes as int,
                    num_output_nodes as int,
                    *config,
                ),
            ));
        }
    }

    /// The first free connection point the cursor is on, searched group by
    /// group, a group's inputs before its outputs; the index counts within
    /// that list.
    pub fn find_node_at_position(&self, position: SerializablePoint) -> (r: Option<
        (usize, NodeType),
    >)
        requires
            position.wf(),
            self@.groups_wf(),
        ensures
            r == spec_find_node_at_position(self@, position),
    {
        let mut g: usize = 0;
        while g < self.nodes.len()
            invariant
                g <= self@.nodes.len(),
                position.wf(),
                self@.groups_wf(),
                spec_find_node_at_position(self@, position) == find_node_in_groups(
                    self@.nodes,
                    position,
                    g as int,
                ),
            decreases self@.nodes.len() - g,
        {
            proof {
                assert(self@.nodes[g as int].wf());
            }
            let mut ni: usize = 0;
            while ni < self.nodes[g].input_nodes.len()
                invariant
                    g < self@.nodes.len(),
                    ni <= self@.nodes[g as int].input_nodes.len(),
                    position.wf(),
                    self@.nodes[g as int].wf(),
                    spec_find_node_at_position(self@, position) == find_node_in_groups(
                        self@.nodes,
                        position,
                        g as int,
                    ),
                    find_in_nodes(self@.nodes[g as int].input_nodes, position, 0) == find_in_nodes(
                        self@.nodes[g as int].input_nodes,
                        position,
                        ni as int,
                    ),
                decreases self@.nodes[g as int].input_nodes.len() - ni,
            {
                proof {
                    assert(self@.nodes[g as int].input_nodes[ni as int].wf());
                    assert(self@.nodes[g as int].input_nodes[ni as int] == self.nodes@[g as int]@.input_nodes[ni as int]);
                }
                if is_point_near_node(position, &self.nodes[g].input_nodes[ni]) {
                    return Option::Some((ni, NodeType::Input));
                }
                ni = ni + 1;
            }
            let mut no: usize = 0;
            while no < self.nodes[g].output_nodes.len()
                invariant
                    g < self@.nodes.len(),
                    no <= self@.nodes[g as int].output_nodes.len(),
                    position.wf(),
                    self@.nodes[g as int].wf(),
                    spec_find_node_at_position(self@, position) == find_node_in_groups(
                        self@.nodes,
                        position,
                        g as int,
                    ),
                    find_in_nodes(self@.nodes[g as int].input_nodes, position, 0) is None,
                    find_in_nodes(self@.nodes[g as int].output_nodes, position, 0)
                        == find_in_nodes(self@.nodes[g as int].output_nodes, position, no as int),
                decreases self@.nodes[g as int].output_nodes.len() - no,
            {
                proof {
                    assert(self@.nodes[g as int].output_nodes[no as int].wf());
                    assert(self@.nodes[g as int].output_nodes[no as int] == self.nodes@[g as int]@.output_nodes[no as int]);
                }
                if is_point_near_node(position, &self.nodes[g].output_nodes[no]) {
                    return Option::Some((no, NodeType::Output));
                }
                no = no + 1;
            }
            g = g + 1;
        }
        Option::None
    }

    /// The first gate whose box holds the cursor, together with a copy of
    /// it.
    pub fn find_gate_at_position(&self, position: SerializablePoint) -> (r: Option<
        (usize, LogicGate),
    >)
        requires
            self@.gates_wf(),
        ensures
            match r {
                Option::Some((k, gate)) => {
                    &&& find_gate_from(self@.gates, position, 0) == Option::Some(k)
                    &&& k < self@.gates.len()
                    &&& gate@ == self@.gates[k as int]
                },
                Option::None => find_gate_from(self@.gates, position, 0) is None,
            },
    {
        let mut k: usize = 0;
        while k < self.gates.len()
            invariant
                k <= self@.gates.len(),
                self@.gates_wf(),
                find_gate_from(self@.gates, position, 0) == find_gate_from(
                    self@.gates,
                    position,
                    k as int,
                ),
            decreases self@.gates.len() - k,
        {
            proof {
                assert(self@.gates[k as int].wf());
                assert(self@.gates[k as int] == self.gates@[k as int]@);
            }
            if is_point_near_gate(position, &self.gates[k]) {
                let gate = self.gates[k].clone();
                return Option::Some((k, gate));
            }
            k = k + 1;
        }
        Option::None
    }

    /// The connection point a finishing drag would snap to: the first point
    /// other than the drag's own anchor that the cursor is near, free groups
    /// searched before gates.
    pub fn check_proximity_to_nodes(
        &self,
        cursor_position: SerializablePoint,
        start_position: &SerializablePoint,
    ) -> (r: Option<SerializablePoint>)
        requires
            cursor_position.wf(),
            self@.groups_wf(),
            self@.gates_wf(),
        ensures
            r == spec_check_proximity(self@, cursor_position, *start_position),
    {
        let mut g: usize = 0;
        while g < self.nodes.len()
            invariant
                g <= self@.nodes.len(),
                cursor_position.wf(),
                self@.groups_wf(),
                prox_in_groups(self@.nodes, cursor_position, *start_position, 0) == prox_in_groups(
                    self@.nodes,
                    cursor_position,
                    *start_position,
                    g as int,
                ),
            decreases self@.nodes.len() - g,
        {
            proof {
                assert(self@.nodes[g as int].wf());
            }
            let mut ni: usize = 0;
            while ni < self.nodes[g].input_nodes.len()
                invariant
                    g < self@.nodes.len(),
                    ni <= self@.nodes[g as int].input_nodes.len(),
                    cursor_position.wf(),
                    self@.nodes[g as int].wf(),
                    prox_in_groups(self@.nodes, cursor_position, *start_position, 0)
                        == prox_in_groups(self@.nodes, cursor_position, *start_position, g as int),
                    prox_in_nodes(
                        self@.nodes[g as int].input_nodes,
                        cursor_position,
                        *start_position,
                        0,
                    ) == prox_in_nodes(
                        self@.nodes[g as int].input_nodes,
                        cursor_position,
                        *start_position,
                        ni as int,
                    ),
                decreases self@.nodes[g as int].input_nodes.len() - ni,
            {
                proof {
                    assert(self@.nodes[g as int].input_nodes[ni as int].wf());
                    assert(self@.nodes[g as int].input_nodes[ni as int] == self.nodes@[g as int]@.input_nodes[ni as int]);
                }
                let node = &self.nodes[g].input_nodes[ni];
                let differs = node.position.x != start_position.x || node.position.y
                    != start_position.y;
                if differs && is_point_near_node(cursor_position, node) {
                    return Option::Some(node.position);
                }
                ni = ni + 1;
            }
            let mut no: usize = 0;
            while no < self.nodes[g].output_nodes.len()
                invariant
                    g < self@.nodes.len(),
                    no <= self@.nodes[g as int].output_nodes.len(),
                    cursor_position.wf(),
                    self@.nodes[g as int].wf(),
                    prox_in_groups(self@.nodes, cursor_position, *start_position, 0)
                        == prox_in_groups(self@.nodes, cursor_position, *start_position, g as int),
                    prox_in_nodes(
                        self@.nodes[g as int].input_nodes,
                        cursor_position,
                        *start_position,
                        0,
                    ) is None,
                    prox_in_nodes(
                        self@.nodes[g as int].output_nodes,
                        cursor_position,
                        *start_position,
                        0,
                    ) == prox_in_nodes(
                        self@.nodes[g as int].output_nodes,
                        cursor_position,
                        *start_position,
                        no as int,
                    ),
                decreases self@.nodes[g as int].output_nodes.len() - no,
            {
                proof {
                    assert(self@.nodes[g as int].output_nodes[no as int].wf());
                    assert(self@.nodes[g as int].output_nodes[no as int] == self.nodes@[g as int]@.output_nodes[no as int]);
                }
                let node = &self.nodes[g].output_nodes[no];
                let differs = node.position.x != start_position.x || node.position.y
                    != start_position.y;
                if differs && is_point_near_node(cursor_position, node) {
                    return Option::Some(node.position);
                }
                no = no + 1;
            }
            g = g + 1;
        }
        let mut k: usize = 0;
        while k < self.gates.len()
            invariant
                k <= self@.gates.len(),
                cursor_position.wf(),
                self@.gates_wf(),
                prox_in_groups(self@.nodes, cursor_position, *start_position, 0) is None,
                prox_in_gates(self@.gates, cursor_position, *start_position, 0) == prox_in_gates(
                    self@.gates,
                    cursor_position,
                    *start_position,
                    k as int,
                ),
            decreases self@.gates.len() - k,
        {
            proof {
                assert(self@.gates[k as int].wf());
                assert(self@.gates[k as int] == self.gates@[k as int]@);
            }
            let mut ni: usize = 0;
            while ni < self.gates[k].nodes.input_nodes.len()
                invariant
                    k < self@.gates.len(),
                    ni <= self@.gates[k as int].nodes.input_nodes.len(),
                    cursor_position.wf(),
                    self@.gates[k as int].wf(),
                    prox_in_groups(self@.nodes, cursor_position, *start_position, 0) is None,
                    prox_in_gates(self@.gates, cursor_position, *start_position, 0)
                        == prox_in_gates(self@.gates, cursor_position, *start_position, k as int),
                    prox_gate_nodes(
                        self@.gates[k as int].nodes.input_nodes,
                        self@.gates[k as int],
                        cursor_position,
                        *start_position,
                        0,
                    ) == prox_gate_nodes(
                        self@.gates[k as int].nodes.input_nodes,
                        self@.gates[k as int],
                        cursor_position,
                        *start_position,
                        ni as int,
                    ),
                decreases self@.gates[k as int].nodes.input_nodes.len() - ni,
            {
                proof {
                    assert(self@.gates[k as int].nodes.input_nodes[ni as int] == self.gates@[k as int]@.nodes.input_nodes[ni as int]);
                }
                let node_position = self.gates[k].nodes.input_nodes[ni].position;
                let differs = node_position.x != start_position.x || node_position.y
                    != start_position.y;
                if differs && is_point_near_gate(cursor_position, &self.gates[k]) {
                    return Option::Some(node_position);
                }
                ni = ni + 1;
            }
            let mut no: usize = 0;
            while no < self.gates[k].nodes.output_nodes.len()
                invariant
                    k < self@.gates.len(),
                    no <= self@.gates[k as int].nodes.output_nodes.len(),
                    cursor_position.wf(),
                    self@.gates[k as int].wf(),
                    prox_in_groups(self@.nodes, cursor_position, *start_position, 0) is None,
                    prox_in_gates(self@.gates, cursor_position, *start_position, 0)
                        == prox_in_gates(self@.gates, cursor_position, *start_position, k as int),
                    prox_gate_nodes(
                        self@.gates[k as int].nodes.input_nodes,
                        self@.gates[k as int],
                        cursor_position,
                        *start_position,
                        0,
                    ) is None,
                    prox_gate_nodes(
                        self@.gates[k as int].nodes.output_nodes,
                        self@.gates[k as int],
                        cursor_position,
                        *start_position,
                        0,
                    ) == prox_gate_nodes(
                        self@.gates[k as int].nodes.output_nodes,
                        self@.gates[k as int],
                        cursor_position,
                        *start_position,
                        no as int,
                    ),
                decreases self@.gates[k as int].nodes.output_nodes.len() - no,
            {
                proof {
                    assert(self@.gates[k as int].nodes.output_nodes[no as int] == self.gates@[k as int]@.nodes.output_nodes[no as int]);
                }
                let node_position = self.gates[k].nodes.output_nodes[no].position;
                let differs = node_position.x != start_position.x || node_position.y
                    != start_position.y;
                if differs && is_point_near_gate(cursor_position, &self.gates[k]) {
                    return Option::Some(node_position);
                }
                no = no + 1;
            }
            k = k + 1;
        }
        Option::None
    }

    /// One round of signal propagation: every connection copies its source
    /// group's first input state onto its own active flag and hands it to
    /// its target group, whose first input and output nodes take it; a NOT
    /// gate whose input sits on a freshly updated point shows the negated
    /// state on its output.
    pub fn update_connections(&mut self)
        requires
            conn_targets_ok(old(self)@),
        ensures
            final(self)@ == spec_update_connections(old(self)@),
    {
        let ghost s0 = self@;
        let mut updates: Vec<(usize, bool)> = Vec::new();
        let mut node_index: usize = 0;
        while node_index < self.nodes.len()
            invariant
                node_index <= s0.nodes.len(),
                self@.nodes == s0.nodes,
                self@.gates == s0.gates,
                self@.connections.len() == s0.connections.len(),
                forall|k: int|
                    0 <= k < s0.connections.len() ==> {
                        let c1 = #[trigger] self@.connections[k];
                        &&& c1.from == s0.connections[k].from
                        &&& c1.to == s0.connections[k].to
                        &&& c1.path == s0.connections[k].path
                        &&& c1.is_active == conn_active_phase1(s0, k, node_index as int, 0)
                    },
                updates@ == all_updates_upto(s0.nodes, s0.connections, node_index as int),
            decreases s0.nodes.len() - node_index,
        {
            if self.nodes[node_index].input_nodes.len() > 0 {
                proof {
                    assert(self@.nodes[node_index as int] == self.nodes@[node_index as int]@);
                }
                let s = self.nodes[node_index].input_nodes[0].state;
                let mut ci: usize = 0;
                while ci < self.connections.len()
                    invariant
                        node_index < s0.nodes.len(),
                        s0.nodes[node_index as int].input_nodes.len() > 0,
                        s == group_signal(s0.nodes, node_index as int),
                        ci <= s0.connections.len(),
                        self@.nodes == s0.nodes,
                        self@.gates == s0.gates,
                        self@.connections.len() == s0.connections.len(),
                        forall|k: int|
                            0 <= k < s0.connections.len() ==> {
                                let c1 = #[trigger] self@.connections[k];
                                &&& c1.from == s0.connections[k].from
                                &&& c1.to == s0.connections[k].to
                                &&& c1.path == s0.connections[k].path
                                &&& c1.is_active == conn_active_phase1(
                                    s0,
                                    k,
                                    node_index as int,
                                    ci as int,
                                )
                            },
                        updates@ == all_updates_upto(s0.nodes, s0.connections, node_index as int)
                            + updates_for_group_upto(
                            s0.nodes,
                            s0.connections,
                            node_index as int,
                            ci as int,
                        ),
                    decreases s0.connections.len() - ci,
                {
                    proof {
                        let c1 = self@.connections[ci as int];
                        assert(c1.from == s0.connections[ci as int].from);
                        assert(c1 == self.connections@[ci as int]@);
                    }
                    if self.connections[ci].from == node_index {
                        let to = self.connections[ci].to;
                        updates.push((to, s));
                        let ghost conns_before = self@.connections;
                        set_conn_active(&mut self.connections, ci, s);
                        proof {
                            assert(s0.connections[ci as int].from as int == node_index as int);
                            assert(updates@ =~= all_updates_upto(
                                s0.nodes,
                                s0.connections,
                                node_index as int,
                            ) + updates_for_group_upto(
                                s0.nodes,
                                s0.connections,
                                node_index as int,
                                ci as int + 1,
                            ));
                            assert forall|k: int| 0 <= k < s0.connections.len() implies {
                                let c1 = #[trigger] self@.connections[k];
                                &&& c1.from == s0.connections[k].from
                                &&& c1.to == s0.connections[k].to
                                &&& c1.path == s0.connections[k].path
                                &&& c1.is_active == conn_active_phase1(
                                    s0,
                                    k,
                                    node_index as int,
                                    ci as int + 1,
                                )
                            } by {
                                if k != ci as int {
                                    assert(self@.connections[k] == conns_before[k]);
                                    assert(conns_before[k].from == s0.connections[k].from);
                                }
                            }
                        }
                    } else {
                        proof {
                            assert(updates@ =~= all_updates_upto(
                                s0.nodes,
                                s0.connections,
                                node_index as int,
                            ) + updates_for_group_upto(
                                s0.nodes,
                                s0.connections,
                                node_index as int,
                                ci as int + 1,
                            ));
                        }
                    }
                    ci = ci + 1;
                }
                proof {
                    assert(updates@ =~= all_updates_upto(
                        s0.nodes,
                        s0.connections,
                        node_index as int + 1,
                    ));
                }
            } else {
                proof {
                    assert(self@.nodes[node_index as int] == self.nodes@[node_index as int]@);
                    assert(s0.nodes[node_index as int].input_nodes.len() == 0);
                    assert(updates@ =~= all_updates_upto(
                        s0.nodes,
                        s0.connections,
                        node_index as int + 1,
                    ));
                }
            }
            node_index = node_index + 1;
        }
        proof {
            assert(self@.connections =~= spec_refresh_connections(s0.nodes, s0.connections));
            assert(updates@ =~= spec_all_updates(s0.nodes, s0.connections));
            lemma_all_updates_targets_ok(s0, s0.nodes.len() as int);
        }
        let ghost ups = spec_all_updates(s0.nodes, s0.connections);
        let ghost conns1 = spec_refresh_connections(s0.nodes, s0.connections);
        let mut ui: usize = 0;
        while ui < updates.len()
            invariant
                updates@ == ups,
                ui <= ups.len(),
                update_targets_ok(s0, ups),
                self@.connections == conns1,
                self@.nodes == apply_updates(s0.nodes, s0.gates, ups.take(ui as int)).0,
                self@.gates == apply_updates(s0.nodes, s0.gates, ups.take(ui as int)).1,
            decreases ups.len() - ui,
        {
            let j = updates[ui].0;
            let b = updates[ui].1;
            proof {
                lemma_apply_updates_shape(s0.nodes, s0.gates, ups.take(ui as int));
                assert(ups[ui as int] == (j, b));
                assert((ups[ui as int].0 as int) < s0.nodes.len() && s0.nodes[ups[ui as int].0 as int].input_nodes.len()
                    > 0);
                assert(self@.nodes[j as int].input_nodes.len() == s0.nodes[j as int].input_nodes.len());
            }
            let ghost groups_pre = self@.nodes;
            let ghost gates_pre = self@.gates;
            let target = &mut self.nodes[j];
            if target.input_nodes.len() > 0 {
                set_node_state(&mut target.input_nodes, 0, b);
            }
            if target.output_nodes.len() > 0 {
                set_node_state(&mut target.output_nodes, 0, b);
            }
            proof {
                assert(self@.nodes =~= apply_update_nodes(groups_pre, j as int, b));
                assert(self@.nodes[j as int].input_nodes.len() == groups_pre[j as int].input_nodes.len());
                assert(self@.nodes[j as int] == self.nodes@[j as int]@);
            }
            let ghost groups_mid = self@.nodes;
            let pos = self.nodes[j].input_nodes[0].position;
            let mut k: usize = 0;
            while k < self.gates.len()
                invariant
                    j < self.nodes@.len(),
                    self@.nodes == groups_mid,
                    0 <= (j as int) < groups_mid.len(),
                    groups_mid[j as int].input_nodes.len() > 0,
                    pos == groups_mid[j as int].input_nodes[0].position,
                    k <= gates_pre.len(),
                    self@.connections == conns1,
                    self@.gates.len() == gates_pre.len(),
                    forall|m: int|
                        0 <= m < k ==> #[trigger] self@.gates[m] == apply_update_gates(
                            gates_pre,
                            groups_mid,
                            j as int,
                            b,
                        )[m],
                    forall|m: int|
                        k <= m < gates_pre.len() ==> #[trigger] self@.gates[m] == gates_pre[m],
                decreases gates_pre.len() - k,
            {
                proof {
                    assert(self@.gates[k as int] == gates_pre[k as int]);
                    assert(self@.gates[k as int] == self.gates@[k as int]@);
                }
                let ghost gates_iter = self@.gates;
                if self.gates[k].nodes.input_nodes.len() > 0 {
                    let same = {
                        let gpos = self.gates[k].nodes.input_nodes[0].position;
                        gpos.x == pos.x && gpos.y == pos.y
                    };
                    if same {
                        let is_not = match self.gates[k].gate_type {
                            GateType::Not => true,
                            _ => false,
                        };
                        if is_not {
                            let gate = &mut self.gates[k];
                            if gate.nodes.output_nodes.len() > 0 {
                                set_node_state(&mut gate.nodes.output_nodes, 0, !b);
                            }
                        }
                    }
                }
                proof {
                    assert(gate_hit(gates_pre[k as int], groups_mid, j as int) ==> self@.gates[k as int]
                        =~= apply_update_gates(gates_pre, groups_mid, j as int, b)[k as int]);
                    assert(!gate_hit(gates_pre[k as int], groups_mid, j as int) ==> self@.gates[k as int]
                        == gates_pre[k as int]);
                    assert(self@.gates[k as int] == apply_update_gates(
                        gates_pre,
                        groups_mid,
                        j as int,
                        b,
                    )[k as int]);
                    assert forall|m: int| 0 <= m < gates_pre.len() && m != k as int implies self@.gates[m]
                        == gates_iter[m] by {}
                    assert forall|m: int| 0 <= m < k as int + 1 implies #[trigger] self@.gates[m]
                        == apply_update_gates(gates_pre, groups_mid, j as int, b)[m] by {
                        if m < k as int {
                            assert(self@.gates[m] == gates_iter[m]);
                            assert(gates_iter[m] == apply_update_gates(
                                gates_pre,
                                groups_mid,
                                j as int,
                                b,
                            )[m]);
                        }
                    }
                    assert forall|m: int|
                        k as int + 1 <= m < gates_pre.len() implies #[trigger] self@.gates[m]
                        == gates_pre[m] by {
                        assert(self@.gates[m] == gates_iter[m]);
                        assert(gates_iter[m] == gates_pre[m]);
                    }
                }
                k = k + 1;
            }
            proof {
                assert(self@.gates =~= apply_update_gates(gates_pre, groups_mid, j as int, b));
                assert(ups.take(ui as int + 1) =~= ups.take(ui as int).push(ups[ui as int]));
                lemma_apply_updates_snoc(s0.nodes, s0.gates, ups.take(ui as int), ups[ui as int]);
            }
            ui = ui + 1;
        }
        proof {
            assert(ups.take(ups.len() as int) =~= ups);
            assert(self@ =~= spec_update_connections(s0));
        }
    }
}

} // verus!
