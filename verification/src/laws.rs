//! The library's general laws, stated and proved once over the model's
//! spec functions: id uniqueness, the absence of self-loops and duplicate
//! edges, and the pan offset's round-trip behaviour. The bezier endpoint
//! law lives beside the curve evaluation in `geometry`.

use crate::geometry::{in_world_range, spec_clamped_add, Point, COORD_LIMIT};
use crate::model::{
    spec_add_connection, spec_can_connect, spec_conn_exists, Connection, GraphEditor, Node,
};
use vstd::prelude::*;

verus! {

/// Node ids are pairwise distinct at all times, and every id lies below
/// the allocation counter. `add_node` gives the new node the counter's
/// value and increments the counter, so an id is never handed out twice,
/// whatever sequence of operations ran before.
pub proof fn lemma_node_ids_unique(e: GraphEditor)
    requires
        e.wf(),
    ensures
        forall|i: int, j: int|
            0 <= i < j < e.nodes_seq().len() ==> (#[trigger] e.nodes_seq()[i]).id != (
            #[trigger] e.nodes_seq()[j]).id,
        forall|i: int|
            0 <= i < e.nodes_seq().len() ==> (#[trigger] e.nodes_seq()[i]).id < e.next_id(),
{
}

/// No connection of a well-formed editor is a self-loop, and no two of
/// its connections are the same edge.
pub proof fn lemma_connections_sound(e: GraphEditor)
    requires
        e.wf(),
    ensures
        forall|i: int|
            0 <= i < e.conns_seq().len() ==> (#[trigger] e.conns_seq()[i]).from_node_id != e
                .conns_seq()[i].to_node_id,
        forall|i: int, j: int|
            0 <= i < j < e.conns_seq().len() ==> (#[trigger] e.conns_seq()[i]) != (
            #[trigger] e.conns_seq()[j]),
{
    assert forall|i: int|
        0 <= i < e.conns_seq().len() implies (#[trigger] e.conns_seq()[i]).from_node_id != e
        .conns_seq()[i].to_node_id by {
        assert(crate::model::conn_valid(e.nodes_seq(), e.conns_seq()[i]));
    }
}

/// Connecting a node to itself never adds a connection, whatever the
/// state of the graph.
pub proof fn lemma_no_self_loops(nodes: Seq<Node>, conns: Seq<Connection>, n: u64)
    ensures
        spec_add_connection(nodes, conns, n, n) == conns,
{
}

/// Adding the edge `a -> b` twice in a row leaves exactly what adding it
/// once leaves: the second attempt finds the edge present and is a
/// silent no-op.
pub proof fn lemma_no_duplicate_edges(nodes: Seq<Node>, conns: Seq<Connection>, a: u64, b: u64)
    ensures
        spec_add_connection(nodes, spec_add_connection(nodes, conns, a, b), a, b)
            == spec_add_connection(nodes, conns, a, b),
{
    if spec_can_connect(nodes, conns, a, b) {
        let pushed = conns.push(Connection { from_node_id: a, to_node_id: b });
        assert(pushed[conns.len() as int].from_node_id == a);
        assert(pushed[conns.len() as int].to_node_id == b);
        assert(spec_conn_exists(pushed, a, b));
    }
}

/// A pan step with zero motion leaves the pan offset unchanged; in
/// particular the offset stays `(0, 0)` right after a view reset.
pub proof fn lemma_pan_zero_motion(pan: Point)
    requires
        in_world_range(pan),
    ensures
        spec_clamped_add(pan, Point { x: 0, y: 0 }) == pan,
{
}

/// Panning by `v` and then by its inverse `w` returns the pan offset to
/// its prior value, as long as the first step stays inside the canvas's
/// clamped extent (a pan clamped at the extent forgets how far beyond it
/// the pointer went, so the round trip holds short of the clamp).
pub proof fn lemma_pan_round_trip(pan: Point, v: Point, w: Point)
    requires
        in_world_range(pan),
        -COORD_LIMIT <= pan.x + v.x <= COORD_LIMIT,
        -COORD_LIMIT <= pan.y + v.y <= COORD_LIMIT,
        w.x + v.x == 0,
        w.y + v.y == 0,
    ensures
        spec_clamped_add(spec_clamped_add(pan, v), w) == pan,
{
}

} // verus!
