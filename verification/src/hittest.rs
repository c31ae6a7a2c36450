//! Hit-testing: which port, node body, node header or connection curve
//! lies under a screen point. Collections are scanned in order and the
//! first hit wins, mirroring how the model is drawn.

use crate::geometry::{
    bezier_point, control_points, in_geom_range, in_port_range, seg_within, spec_bezier_coord,
    spec_curvature, spec_header_contains, spec_port_pos, spec_rect_contains, spec_seg_within,
    spec_within_dist, Point, PortKind, BEZIER_SAMPLES, PORT_HIT_RADIUS, PORT_OUTSET,
    THRESHOLD_LIMIT,
};
use crate::model::{
    spec_find_node, Connection, GraphEditor, Node,
};
use vstd::prelude::*;

verus! {

/// Screen position of one of a node's ports.
pub fn port_position(node: &Node, pan: Point, kind: PortKind) -> (r: Point)
    requires
        crate::model::node_wf(*node),
        crate::geometry::in_world_range(pan),
    ensures
        (r.x as int, r.y as int) == spec_port_pos(node.position, node.size, pan, kind),
        in_port_range(r),
{
    let cy: i64 = node.position.y + pan.y + ((node.size.y as u64 / 2) as i64);
    match kind {
        PortKind::Input => Point { x: node.position.x + pan.x - PORT_OUTSET, y: cy },
        PortKind::Output => Point { x: node.position.x + pan.x + node.size.x + PORT_OUTSET, y: cy },
    }
}

/// Which of the node's ports, if any, the point acquires: the input port
/// is tested first, then the output port, each within `PORT_HIT_RADIUS`
/// of its center.
pub open spec fn spec_port_hit(n: Node, pan: Point, p: Point) -> Option<PortKind> {
    let ip = spec_port_pos(n.position, n.size, pan, PortKind::Input);
    let op = spec_port_pos(n.position, n.size, pan, PortKind::Output);
    if spec_within_dist(p.x as int, p.y as int, ip.0, ip.1, PORT_HIT_RADIUS as int) {
        Some(PortKind::Input)
    } else if spec_within_dist(p.x as int, p.y as int, op.0, op.1, PORT_HIT_RADIUS as int) {
        Some(PortKind::Output)
    } else {
        None
    }
}

/// The first node at or after index `i` one of whose ports the point
/// acquires, with the acquired port.
pub open spec fn spec_port_at_from(nodes: Seq<Node>, pan: Point, p: Point, i: int) -> Option<
    (u64, PortKind),
>
    decreases nodes.len() - i,
{
    if i < 0 || i >= nodes.len() {
        None
    } else {
        match spec_port_hit(nodes[i], pan, p) {
            Some(kind) => Some((nodes[i].id, kind)),
            None => spec_port_at_from(nodes, pan, p, i + 1),
        }
    }
}

/// The first node (in collection order) one of whose ports the point
/// acquires, with the acquired port.
pub open spec fn spec_port_at(nodes: Seq<Node>, pan: Point, p: Point) -> Option<(u64, PortKind)> {
    spec_port_at_from(nodes, pan, p, 0)
}

/// The point lies on some node's screen rectangle.
pub open spec fn spec_over_node(nodes: Seq<Node>, pan: Point, p: Point) -> bool {
    exists|i: int|
        0 <= i < nodes.len() && spec_rect_contains(
            (#[trigger] nodes[i]).position,
            nodes[i].size,
            pan,
            p,
        )
}

/// The first node at or after index `i` whose header strip contains the
/// point.
pub open spec fn spec_header_at_from(nodes: Seq<Node>, pan: Point, p: Point, i: int) -> Option<u64>
    decreases nodes.len() - i,
{
    if i < 0 || i >= nodes.len() {
        None
    } else if spec_header_contains(nodes[i].position, nodes[i].size, pan, p) {
        Some(nodes[i].id)
    } else {
        spec_header_at_from(nodes, pan, p, i + 1)
    }
}

/// The first node (in collection order) whose header strip contains the
/// point.
pub open spec fn spec_header_at(nodes: Seq<Node>, pan: Point, p: Point) -> Option<u64> {
    spec_header_at_from(nodes, pan, p, 0)
}

/// Is the point within `PORT_HIT_RADIUS` of the center `(cx, cy)`?
fn within_port_radius(cx: i64, cy: i64, p: Point) -> (r: bool)
    requires
        -PORT_LIMIT_BOUND <= cx <= PORT_LIMIT_BOUND,
        -PORT_LIMIT_BOUND <= cy <= PORT_LIMIT_BOUND,
        in_geom_range(p),
    ensures
        r == spec_within_dist(p.x as int, p.y as int, cx as int, cy as int, PORT_HIT_RADIUS as int),
{
    let dx: i64 = p.x - cx;
    let dy: i64 = p.y - cy;
    proof {
        assert(dx * dx <= 1000000000000 && dx * dx >= 0 && dy * dy <= 1000000000000 && dy * dy
            >= 0) by (nonlinear_arith)
            requires
                -1000000 <= dx <= 1000000,
                -1000000 <= dy <= 1000000,
        ;
    }
    dx * dx + dy * dy <= PORT_HIT_RADIUS * PORT_HIT_RADIUS
}

/// Bound for the port-radius test arguments, wide enough for any port
/// center of an in-range node.
pub const PORT_LIMIT_BOUND: i64 = 220_000;

impl GraphEditor {
    /// The first node one of whose ports the pointer acquires, with the
    /// acquired port, or `None` over empty space.
    pub fn port_at(&self, p: Point) -> (r: Option<(u64, PortKind)>)
        requires
            self.wf(),
            in_geom_range(p),
        ensures
            r == spec_port_at(self.nodes_seq(), self.pan(), p),
    {
        let pan = self.pan_offset();
        let nodes = self.nodes();
        let n = nodes.len();
        for i in 0..n
            invariant
                n == nodes@.len(),
                nodes@ == self.nodes_seq(),
                pan == self.pan(),
                self.wf(),
                in_geom_range(p),
                spec_port_at(self.nodes_seq(), self.pan(), p) == spec_port_at_from(
                    self.nodes_seq(),
                    self.pan(),
                    p,
                    i as int,
                ),
        {
            let node = &nodes[i];
            let ip = port_position(node, pan, PortKind::Input);
            if within_port_radius(ip.x, ip.y, p) {
                return Some((node.id, PortKind::Input));
            }
            let op = port_position(node, pan, PortKind::Output);
            if within_port_radius(op.x, op.y, p) {
                return Some((node.id, PortKind::Output));
            }
        }
        None
    }

    /// Does the pointer lie on any node's screen rectangle? Used only to
    /// tell a canvas pan from a press on a node.
    pub fn is_pointer_over_node(&self, p: Point) -> (r: bool)
        requires
            self.wf(),
            in_geom_range(p),
        ensures
            r == spec_over_node(self.nodes_seq(), self.pan(), p),
    {
        let pan = self.pan_offset();
        let nodes = self.nodes();
        let n = nodes.len();
        for i in 0..n
            invariant
                n == nodes@.len(),
                nodes@ == self.nodes_seq(),
                pan == self.pan(),
                self.wf(),
                in_geom_range(p),
                forall|j: int|
                    0 <= j < i ==> !spec_rect_contains(
                        (#[trigger] self.nodes_seq()[j]).position,
                        self.nodes_seq()[j].size,
                        self.pan(),
                        p,
                    ),
        {
            let node = &nodes[i];
            let left: i64 = node.position.x + pan.x;
            let top: i64 = node.position.y + pan.y;
            if left <= p.x && p.x <= left + node.size.x && top <= p.y && p.y <= top + node.size.y {
                return true;
            }
        }
        false
    }

    /// The first node whose header strip (its drag handle) contains the
    /// pointer.
    pub fn header_at(&self, p: Point) -> (r: Option<u64>)
        requires
            self.wf(),
            in_geom_range(p),
        ensures
            r == spec_header_at(self.nodes_seq(), self.pan(), p),
    {
        let pan = self.pan_offset();
        let nodes = self.nodes();
        let n = nodes.len();
        for i in 0..n
            invariant
                n == nodes@.len(),
                nodes@ == self.nodes_seq(),
                pan == self.pan(),
                self.wf(),
                in_geom_range(p),
                spec_header_at(self.nodes_seq(), self.pan(), p) == spec_header_at_from(
                    self.nodes_seq(),
                    self.pan(),
                    p,
                    i as int,
                ),
        {
            let node = &nodes[i];
            let left: i64 = node.position.x + pan.x;
            let top: i64 = node.position.y + pan.y;
            if left <= p.x && p.x <= left + node.size.x && top <= p.y && p.y <= top
                + crate::geometry::HEADER_HEIGHT {
                return Some(node.id);
            }
        }
        None
    }
}

/// A point at a node's own port center acquires exactly that port: the
/// input port at its center, and the output port at its center (the two
/// centers sit farther apart than the hit radius, so the output center
/// never falls to the input test that runs first).
pub proof fn lemma_port_self_hit(n: Node, pan: Point, ip: Point, op: Point)
    requires
        crate::model::node_wf(n),
        crate::geometry::in_world_range(pan),
        (ip.x as int, ip.y as int) == spec_port_pos(n.position, n.size, pan, PortKind::Input),
        (op.x as int, op.y as int) == spec_port_pos(n.position, n.size, pan, PortKind::Output),
    ensures
        spec_port_hit(n, pan, ip) == Some(PortKind::Input),
        spec_port_hit(n, pan, op) == Some(PortKind::Output),
{
    let dx = op.x - ip.x;
    assert(dx == n.size.x + 2 * PORT_OUTSET);
    assert(dx * dx > PORT_HIT_RADIUS * PORT_HIT_RADIUS) by (nonlinear_arith)
        requires
            dx >= 17,
    ;
}

/// A node id handed out by the port hit-test resolves.
pub proof fn lemma_port_at_resolves(nodes: Seq<Node>, pan: Point, p: Point, i: int)
    requires
        0 <= i <= nodes.len(),
    ensures
        (match spec_port_at_from(nodes, pan, p, i) {
            Some(hit) => spec_find_node(nodes, hit.0) is Some,
            None => true,
        }),
    decreases nodes.len() - i,
{
    if i < nodes.len() {
        if spec_port_hit(nodes[i], pan, p) is Some {
            crate::model::lemma_find_node_from_ok(nodes, nodes[i].id, 0);
        } else {
            lemma_port_at_resolves(nodes, pan, p, i + 1);
        }
    }
}

/// A node id handed out by the header hit-test resolves.
pub proof fn lemma_header_at_resolves(nodes: Seq<Node>, pan: Point, p: Point, i: int)
    requires
        0 <= i <= nodes.len(),
    ensures
        (match spec_header_at_from(nodes, pan, p, i) {
            Some(id) => spec_find_node(nodes, id) is Some,
            None => true,
        }),
    decreases nodes.len() - i,
{
    if i < nodes.len() {
        if spec_header_contains(nodes[i].position, nodes[i].size, pan, p) {
            crate::model::lemma_find_node_from_ok(nodes, nodes[i].id, 0);
        } else {
            lemma_header_at_resolves(nodes, pan, p, i + 1);
        }
    }
}

/// Sample `i` (of `BEZIER_SAMPLES`) of the link curve between the two
/// endpoint port positions.
pub open spec fn spec_curve_sample(from: (int, int), to: (int, int), i: int) -> (int, int) {
    let c = spec_curvature(from.0, to.0);
    (
        spec_bezier_coord(from.0, from.0 + c, to.0 - c, to.0, i, BEZIER_SAMPLES as int),
        spec_bezier_coord(from.1, from.1, to.1, to.1, i, BEZIER_SAMPLES as int),
    )
}

/// The point is within `thr` of the link curve between the two endpoint
/// port positions, the curve sampled as a polyline of `BEZIER_SAMPLES`
/// segments.
pub open spec fn spec_curve_within(from: (int, int), to: (int, int), p: Point, thr: int) -> bool {
    exists|i: int|
        #![trigger spec_curve_sample(from, to, i)]
        1 <= i <= BEZIER_SAMPLES && spec_seg_within(
            p.x as int,
            p.y as int,
            spec_curve_sample(from, to, i - 1).0,
            spec_curve_sample(from, to, i - 1).1,
            spec_curve_sample(from, to, i).0,
            spec_curve_sample(from, to, i).1,
            thr,
        )
}

/// The point is within `thr` of the given connection's curve. A
/// connection with a stale endpoint id has no curve and is never hit.
pub open spec fn spec_conn_within(
    nodes: Seq<Node>,
    c: Connection,
    pan: Point,
    p: Point,
    thr: int,
) -> bool {
    match (spec_find_node(nodes, c.from_node_id), spec_find_node(nodes, c.to_node_id)) {
        (Some(fi), Some(ti)) => spec_curve_within(
            spec_port_pos(nodes[fi].position, nodes[fi].size, pan, PortKind::Output),
            spec_port_pos(nodes[ti].position, nodes[ti].size, pan, PortKind::Input),
            p,
            thr,
        ),
        _ => false,
    }
}

/// The first connection at or after index `i` whose curve the point is
/// within `thr` of.
pub open spec fn spec_conn_hit_from(
    nodes: Seq<Node>,
    conns: Seq<Connection>,
    pan: Point,
    p: Point,
    thr: int,
    i: int,
) -> Option<int>
    decreases conns.len() - i,
{
    if i < 0 || i >= conns.len() {
        None
    } else if spec_conn_within(nodes, conns[i], pan, p, thr) {
        Some(i)
    } else {
        spec_conn_hit_from(nodes, conns, pan, p, thr, i + 1)
    }
}

/// The first connection (in collection order) whose curve the point is
/// within `thr` of.
pub open spec fn spec_conn_hit(
    nodes: Seq<Node>,
    conns: Seq<Connection>,
    pan: Point,
    p: Point,
    thr: int,
) -> Option<int> {
    spec_conn_hit_from(nodes, conns, pan, p, thr, 0)
}

impl GraphEditor {
    /// Index of the first connection whose sampled curve passes within
    /// `threshold` of the pointer, for deletion by secondary click.
    pub fn hit_test_connection(&self, p: Point, threshold: i64) -> (r: Option<usize>)
        requires
            self.wf(),
            in_geom_range(p),
            0 <= threshold <= THRESHOLD_LIMIT,
        ensures
            (match r {
                Some(k) => k < self.conns_seq().len() && spec_conn_hit(
                    self.nodes_seq(),
                    self.conns_seq(),
                    self.pan(),
                    p,
                    threshold as int,
                ) == Some(k as int),
                None => spec_conn_hit(
                    self.nodes_seq(),
                    self.conns_seq(),
                    self.pan(),
                    p,
                    threshold as int,
                ) is None,
            }),
    {
        let pan = self.pan_offset();
        let n = self.connections().len();
        for idx in 0..n
            invariant
                n == self.conns_seq().len(),
                pan == self.pan(),
                self.wf(),
                in_geom_range(p),
                0 <= threshold <= THRESHOLD_LIMIT,
                spec_conn_hit(self.nodes_seq(), self.conns_seq(), self.pan(), p, threshold as int)
                    == spec_conn_hit_from(
                    self.nodes_seq(),
                    self.conns_seq(),
                    self.pan(),
                    p,
                    threshold as int,
                    idx as int,
                ),
        {
            let c = self.connections()[idx];
            if self.connection_within(c, p, threshold) {
                return Some(idx);
            }
        }
        None
    }

    /// Is the pointer within `threshold` of this connection's curve?
    fn connection_within(&self, c: Connection, p: Point, threshold: i64) -> (r: bool)
        requires
            self.wf(),
            in_geom_range(p),
            0 <= threshold <= THRESHOLD_LIMIT,
        ensures
            r == spec_conn_within(self.nodes_seq(), c, self.pan(), p, threshold as int),
    {
        let pan = self.pan_offset();
        let fi = match self.find_node(c.from_node_id) {
            Some(fi) => fi,
            None => {
                return false;
            },
        };
        let ti = match self.find_node(c.to_node_id) {
            Some(ti) => ti,
            None => {
                return false;
            },
        };
        proof {
            crate::model::lemma_find_node_from_ok(self.nodes_seq(), c.from_node_id, 0);
            crate::model::lemma_find_node_from_ok(self.nodes_seq(), c.to_node_id, 0);
        }
        let from = port_position(&self.nodes()[fi], pan, PortKind::Output);
        let to = port_position(&self.nodes()[ti], pan, PortKind::Input);
        let (c1, c2) = control_points(from, to);
        let ghost sfrom = (from.x as int, from.y as int);
        let ghost sto = (to.x as int, to.y as int);
        let mut prev: Point = bezier_point(from, c1, c2, to, 0, BEZIER_SAMPLES);
        proof {
            assert((prev.x as int, prev.y as int) == spec_curve_sample(sfrom, sto, 0));
        }
        let mut i: i64 = 1;
        while i <= BEZIER_SAMPLES
            invariant
                1 <= i <= BEZIER_SAMPLES + 1,
                self.wf(),
                in_geom_range(p),
                0 <= threshold <= THRESHOLD_LIMIT,
                pan == self.pan(),
                spec_find_node(self.nodes_seq(), c.from_node_id) == Some(fi as int),
                spec_find_node(self.nodes_seq(), c.to_node_id) == Some(ti as int),
                fi < self.nodes_seq().len(),
                ti < self.nodes_seq().len(),
                sfrom == spec_port_pos(
                    self.nodes_seq()[fi as int].position,
                    self.nodes_seq()[fi as int].size,
                    self.pan(),
                    PortKind::Output,
                ),
                sto == spec_port_pos(
                    self.nodes_seq()[ti as int].position,
                    self.nodes_seq()[ti as int].size,
                    self.pan(),
                    PortKind::Input,
                ),
                in_port_range(from),
                in_port_range(to),
                in_geom_range(c1),
                in_geom_range(c2),
                in_geom_range(prev),
                sfrom == (from.x as int, from.y as int),
                sto == (to.x as int, to.y as int),
                c1.x as int == sfrom.0 + spec_curvature(sfrom.0, sto.0),
                c1.y == from.y,
                c2.x as int == sto.0 - spec_curvature(sfrom.0, sto.0),
                c2.y == to.y,
                (prev.x as int, prev.y as int) == spec_curve_sample(sfrom, sto, i - 1),
                forall|j: int|
                    1 <= j < i ==> !spec_seg_within(
                        p.x as int,
                        p.y as int,
                        (#[trigger] spec_curve_sample(sfrom, sto, j - 1)).0,
                        spec_curve_sample(sfrom, sto, j - 1).1,
                        spec_curve_sample(sfrom, sto, j).0,
                        spec_curve_sample(sfrom, sto, j).1,
                        threshold as int,
                    ),
            decreases BEZIER_SAMPLES + 1 - i,
        {
            let cur: Point = bezier_point(from, c1, c2, to, i, BEZIER_SAMPLES);
            proof {
                assert((cur.x as int, cur.y as int) == spec_curve_sample(sfrom, sto, i as int));
            }
            if seg_within(p, prev, cur, threshold) {
                proof {
                    assert(spec_curve_within(sfrom, sto, p, threshold as int));
                }
                return true;
            }
            prev = cur;
            i = i + 1;
        }
        proof {
            assert(!spec_curve_within(sfrom, sto, p, threshold as int));
        }
        false
    }
}

} // verus!
