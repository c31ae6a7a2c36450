//! The graph model: nodes, directed connections, the pan offset and the
//! drag state, with the model-level operations (adding nodes, creating
//! and removing connections, editing text, resetting the view).

use crate::geometry::{
    in_geom_range, in_world_range, spec_clamp_coord, valid_size, Point, PortKind, COORD_LIMIT,
    NODE_HEIGHT, NODE_WIDTH,
};
use crate::text::{
    clamp_text_lines, max_content_lines, node_title, spec_clamp_lines, spec_max_content_lines,
    spec_node_title,
};
use vstd::prelude::*;

verus! {

/// A node of the graph. Its identity is the stable `id`, never its index
/// in the node collection; `position` is the top-left corner in world
/// space.
#[derive(Clone, Debug)]
pub struct Node {
    pub id: u64,
    pub title: String,
    pub content: String,
    pub position: Point,
    pub size: Point,
}

/// A directed link between two nodes, referencing them by id. The
/// relation is weak: a connection owns nothing, and lookups of its
/// endpoints must tolerate an id that no longer resolves.
#[derive(Clone, Copy, Debug, PartialEq, Eq, Structural)]
pub struct Connection {
    pub from_node_id: u64,
    pub to_node_id: u64,
}

/// The one active drag gesture, if any. Keeping all three modes in a
/// single variant makes their mutual exclusion structural.
#[derive(Clone, Copy, Debug, PartialEq, Eq, Structural)]
pub enum DragState {
    Idle,
    /// The pointer holds the header of the node with this id.
    NodeDrag { node_id: u64 },
    /// A link is being dragged out of `from_node`'s output port;
    /// `current_pos` is the pointer's screen position this frame.
    LinkDrag { from_node: u64, from_port: PortKind, current_pos: Point },
    /// The pointer drags the empty canvas, panning the view.
    CanvasPan,
}

/// Index of the first node with the given id at or after position `i`.
pub open spec fn spec_find_node_from(nodes: Seq<Node>, id: u64, i: int) -> Option<int>
    decreases nodes.len() - i,
{
    if i < 0 || i >= nodes.len() {
        None
    } else if nodes[i].id == id {
        Some(i)
    } else {
        spec_find_node_from(nodes, id, i + 1)
    }
}

/// Index of the first node with the given id, if any.
pub open spec fn spec_find_node(nodes: Seq<Node>, id: u64) -> Option<int> {
    spec_find_node_from(nodes, id, 0)
}

pub proof fn lemma_find_node_from_ok(nodes: Seq<Node>, id: u64, i: int)
    requires
        0 <= i <= nodes.len(),
    ensures
        match spec_find_node_from(nodes, id, i) {
            Some(k) => i <= k < nodes.len() && nodes[k].id == id && forall|j: int|
                i <= j < k ==> nodes[j].id != id,
            None => forall|j: int| i <= j < nodes.len() ==> nodes[j].id != id,
        },
    decreases nodes.len() - i,
{
    if i < nodes.len() && nodes[i].id != id {
        lemma_find_node_from_ok(nodes, id, i + 1);
    }
}

/// Appending a node does not change where existing ids are found; an id
/// not found before is found at the end exactly when the new node has it.
pub proof fn lemma_find_node_from_push(nodes: Seq<Node>, n: Node, id: u64, i: int)
    requires
        0 <= i <= nodes.len(),
    ensures
        spec_find_node_from(nodes.push(n), id, i) == (match spec_find_node_from(nodes, id, i) {
            Some(k) => Some(k),
            None => if n.id == id {
                Some(nodes.len() as int)
            } else {
                None
            },
        }),
    decreases nodes.len() - i,
{
    assert(nodes.push(n).len() == nodes.len() + 1);
    assert(nodes.push(n)[nodes.len() as int] == n);
    if i < nodes.len() {
        assert(nodes.push(n)[i] == nodes[i]);
        if nodes[i].id != id {
            lemma_find_node_from_push(nodes, n, id, i + 1);
        }
    }
}

/// All node ids are pairwise distinct.
pub open spec fn ids_unique(nodes: Seq<Node>) -> bool {
    forall|i: int, j: int|
        0 <= i < j < nodes.len() ==> #[trigger] nodes[i].id != #[trigger] nodes[j].id
}

/// A structurally sound node: position and extent within range.
pub open spec fn node_wf(n: Node) -> bool {
    in_world_range(n.position) && valid_size(n.size)
}

/// A sound connection for the given nodes: no self-loop, both endpoints
/// resolve.
pub open spec fn conn_valid(nodes: Seq<Node>, c: Connection) -> bool {
    c.from_node_id != c.to_node_id && spec_find_node(nodes, c.from_node_id) is Some
        && spec_find_node(nodes, c.to_node_id) is Some
}

/// All connections sound and pairwise distinct (no duplicate edges).
pub open spec fn conns_wf(nodes: Seq<Node>, conns: Seq<Connection>) -> bool {
    (forall|i: int| 0 <= i < conns.len() ==> conn_valid(nodes, #[trigger] conns[i])) && (forall|
        i: int,
        j: int,
    |
        0 <= i < j < conns.len() ==> #[trigger] conns[i] != #[trigger] conns[j])
}

/// There is a connection `from -> to`.
pub open spec fn spec_conn_exists(conns: Seq<Connection>, from: u64, to: u64) -> bool {
    exists|i: int|
        0 <= i < conns.len() && (#[trigger] conns[i]).from_node_id == from && conns[i].to_node_id
            == to
}

/// `add_connection(from, to)` appends a connection: both ids resolve,
/// the link is no self-loop, and it does not exist yet.
pub open spec fn spec_can_connect(
    nodes: Seq<Node>,
    conns: Seq<Connection>,
    from: u64,
    to: u64,
) -> bool {
    from != to && spec_find_node(nodes, from) is Some && spec_find_node(nodes, to) is Some
        && !spec_conn_exists(conns, from, to)
}

/// The connection list after `add_connection(from, to)`: unchanged when
/// the pair cannot be connected, extended by the pair otherwise.
pub open spec fn spec_add_connection(
    nodes: Seq<Node>,
    conns: Seq<Connection>,
    from: u64,
    to: u64,
) -> Seq<Connection> {
    if spec_can_connect(nodes, conns, from, to) {
        conns.push(Connection { from_node_id: from, to_node_id: to })
    } else {
        conns
    }
}

/// A drag state that is sound for the given nodes: the dragged node or
/// link source resolves, a dragged link starts at an output port, and
/// the tracked pointer position is in range.
pub open spec fn spec_drag_ok(nodes: Seq<Node>, drag: DragState) -> bool {
    match drag {
        DragState::Idle => true,
        DragState::NodeDrag { node_id } => spec_find_node(nodes, node_id) is Some,
        DragState::LinkDrag { from_node, from_port, current_pos } => spec_find_node(
            nodes,
            from_node,
        ) is Some && from_port == PortKind::Output && in_geom_range(current_pos),
        DragState::CanvasPan => true,
    }
}

/// The interaction and geometry core: the graph, the view transform and
/// the drag state, advanced one input frame at a time.
pub struct GraphEditor {
    nodes: Vec<Node>,
    connections: Vec<Connection>,
    pan_offset: Point,
    drag: DragState,
    next_node_id: u64,
}

impl GraphEditor {
    pub closed spec fn nodes_seq(self) -> Seq<Node> {
        self.nodes@
    }

    pub closed spec fn conns_seq(self) -> Seq<Connection> {
        self.connections@
    }

    pub closed spec fn pan(self) -> Point {
        self.pan_offset
    }

    pub closed spec fn drag_state(self) -> DragState {
        self.drag
    }

    pub closed spec fn next_id(self) -> u64 {
        self.next_node_id
    }

    /// The editor's invariant: unique node ids below the id counter,
    /// in-range geometry, sound and duplicate-free connections, and a
    /// drag state whose node reference resolves.
    pub open spec fn wf(self) -> bool {
        ids_unique(self.nodes_seq()) && (forall|i: int|
            0 <= i < self.nodes_seq().len() ==> node_wf(#[trigger] self.nodes_seq()[i])
                && self.nodes_seq()[i].id < self.next_id()) && conns_wf(
            self.nodes_seq(),
            self.conns_seq(),
        ) && in_world_range(self.pan()) && spec_drag_ok(self.nodes_seq(), self.drag_state())
    }

    /// An empty editor: no nodes, no connections, centered view, no drag.
    pub fn new() -> (r: Self)
        ensures
            r.wf(),
            r.nodes_seq().len() == 0,
            r.conns_seq().len() == 0,
            r.pan() == (Point { x: 0, y: 0 }),
            r.drag_state() == DragState::Idle,
            r.next_id() == 0,
    {
        GraphEditor {
            nodes: Vec::new(),
            connections: Vec::new(),
            pan_offset: Point { x: 0, y: 0 },
            drag: DragState::Idle,
            next_node_id: 0,
        }
    }

    /// The nodes, for drawing. Order is incidental; identity is the id.
    pub fn nodes(&self) -> (r: &Vec<Node>)
        ensures
            r@ == self.nodes_seq(),
    {
        &self.nodes
    }

    /// The connections, for drawing.
    pub fn connections(&self) -> (r: &Vec<Connection>)
        ensures
            r@ == self.conns_seq(),
    {
        &self.connections
    }

    /// The current pan offset (world-to-screen translation).
    pub fn pan_offset(&self) -> (r: Point)
        ensures
            r == self.pan(),
    {
        self.pan_offset
    }

    /// The active drag gesture, for drawing the temporary link curve.
    pub fn drag(&self) -> (r: DragState)
        ensures
            r == self.drag_state(),
    {
        self.drag
    }

    /// The id the next added node will get.
    pub fn next_node_id(&self) -> (r: u64)
        ensures
            r == self.next_id(),
    {
        self.next_node_id
    }

    /// Index of the first node with the given id, or `None` for a stale
    /// id; callers treat `None` as "skip", never as a fault.
    pub fn find_node(&self, id: u64) -> (r: Option<usize>)
        ensures
            (match r {
                Some(k) => spec_find_node(self.nodes_seq(), id) == Some(k as int),
                None => spec_find_node(self.nodes_seq(), id) is None,
            }),
    {
        let n = self.nodes.len();
        for k in 0..n
            invariant
                n == self.nodes_seq().len(),
                spec_find_node(self.nodes_seq(), id) == spec_find_node_from(
                    self.nodes_seq(),
                    id,
                    k as int,
                ),
        {
            if self.nodes[k].id == id {
                return Some(k);
            }
        }
        None
    }

    /// Append a fresh node: the id comes from the monotonic counter (ids
    /// are never reused), the title names the id, the position staggers
    /// deterministically with the id, and the extent is the default.
    pub fn add_node(&mut self)
        requires
            old(self).wf(),
            old(self).next_id() < u64::MAX,
        ensures
            final(self).wf(),
            final(self).nodes_seq().len() == old(self).nodes_seq().len() + 1,
            final(self).nodes_seq().take(old(self).nodes_seq().len() as int) == old(self).nodes_seq(),
            final(self).nodes_seq().last().id == old(self).next_id(),
            final(self).nodes_seq().last().title@ == spec_node_title(old(self).next_id()),
            final(self).nodes_seq().last().content@ == "....."@,
            final(self).nodes_seq().last().position == spec_stagger_position(old(self).next_id()),
            final(self).nodes_seq().last().size == (Point { x: NODE_WIDTH, y: NODE_HEIGHT }),
            final(self).next_id() == old(self).next_id() + 1,
            final(self).conns_seq() == old(self).conns_seq(),
            final(self).pan() == old(self).pan(),
            final(self).drag_state() == old(self).drag_state(),
    {
        let id = self.next_node_id;
        self.next_node_id = self.next_node_id + 1;
        let node = Node {
            id,
            title: node_title(id),
            content: String::from_str("....."),
            position: stagger_position(id),
            size: Point { x: NODE_WIDTH, y: NODE_HEIGHT },
        };
        let ghost old_nodes = self.nodes@;
        self.nodes.push(node);
        proof {
            assert(self.nodes@.take(old_nodes.len() as int) =~= old_nodes);
            assert forall|idv: u64| spec_find_node(old_nodes, idv) is Some implies spec_find_node(
                self.nodes@,
                idv,
            ) is Some by {
                lemma_find_node_from_push(old_nodes, self.nodes@.last(), idv, 0);
            }
            assert forall|i: int| 0 <= i < self.conns_seq().len() implies conn_valid(
                self.nodes@,
                #[trigger] self.conns_seq()[i],
            ) by {
                assert(conn_valid(old_nodes, self.conns_seq()[i]));
            }
            match self.drag {
                DragState::NodeDrag { node_id } => {
                    assert(spec_find_node(old_nodes, node_id) is Some);
                },
                DragState::LinkDrag { from_node, .. } => {
                    assert(spec_find_node(old_nodes, from_node) is Some);
                },
                _ => {},
            }
        }
    }

    /// Append the connection `from -> to` unless it is a self-loop, a
    /// duplicate, or one of the ids does not resolve; those attempts are
    /// silently absorbed, leaving the editor unchanged.
    pub fn add_connection(&mut self, from: u64, to: u64)
        requires
            old(self).wf(),
        ensures
            final(self).wf(),
            final(self).conns_seq() == spec_add_connection(
                old(self).nodes_seq(),
                old(self).conns_seq(),
                from,
                to,
            ),
            final(self).nodes_seq() == old(self).nodes_seq(),
            final(self).pan() == old(self).pan(),
            final(self).drag_state() == old(self).drag_state(),
            final(self).next_id() == old(self).next_id(),
    {
        if from == to {
            return ;
        }
        if self.find_node(from).is_none() {
            return ;
        }
        if self.find_node(to).is_none() {
            return ;
        }
        let n = self.connections.len();
        for k in 0..n
            invariant
                n == self.conns_seq().len(),
                self.nodes_seq() == old(self).nodes_seq(),
                self.conns_seq() == old(self).conns_seq(),
                self.pan() == old(self).pan(),
                self.drag_state() == old(self).drag_state(),
                self.next_id() == old(self).next_id(),
                self.wf(),
                spec_find_node(self.nodes_seq(), from) is Some,
                spec_find_node(self.nodes_seq(), to) is Some,
                forall|j: int|
                    0 <= j < k ==> !((#[trigger] self.conns_seq()[j]).from_node_id == from
                        && self.conns_seq()[j].to_node_id == to),
        {
            let c = self.connections[k];
            if c.from_node_id == from && c.to_node_id == to {
                assert(spec_conn_exists(self.conns_seq(), from, to));
                return ;
            }
        }
        assert(!spec_conn_exists(self.conns_seq(), from, to));
        let ghost old_conns = self.connections@;
        self.connections.push(Connection { from_node_id: from, to_node_id: to });
        proof {
            assert forall|i: int, j: int| 0 <= i < j < self.conns_seq().len() implies (
            #[trigger] self.conns_seq()[i]) != (#[trigger] self.conns_seq()[j]) by {
                if j == old_conns.len() as int {
                    if self.conns_seq()[i].from_node_id == from && self.conns_seq()[i].to_node_id
                        == to {
                        assert(old_conns[i] == self.conns_seq()[i]);
                        assert(spec_conn_exists(old_conns, from, to));
                    }
                }
            }
        }
    }

    /// Remove the connection at the given index.
    pub fn remove_connection(&mut self, index: usize)
        requires
            old(self).wf(),
            index < old(self).conns_seq().len(),
        ensures
            final(self).wf(),
            final(self).conns_seq() == old(self).conns_seq().remove(index as int),
            final(self).nodes_seq() == old(self).nodes_seq(),
            final(self).pan() == old(self).pan(),
            final(self).drag_state() == old(self).drag_state(),
            final(self).next_id() == old(self).next_id(),
    {
        let ghost old_conns = self.connections@;
        self.connections.remove(index);
        proof {
            assert forall|i: int, j: int| 0 <= i < j < self.conns_seq().len() implies (
            #[trigger] self.conns_seq()[i]) != (#[trigger] self.conns_seq()[j]) by {
                let oi = if i < index as int {
                    i
                } else {
                    i + 1
                };
                let oj = if j < index as int {
                    j
                } else {
                    j + 1
                };
                assert(self.conns_seq()[i] == old_conns[oi]);
                assert(self.conns_seq()[j] == old_conns[oj]);
            }
        }
    }

    /// Remove all connections.
    pub fn clear_connections(&mut self)
        requires
            old(self).wf(),
        ensures
            final(self).wf(),
            final(self).conns_seq().len() == 0,
            final(self).nodes_seq() == old(self).nodes_seq(),
            final(self).pan() == old(self).pan(),
            final(self).drag_state() == old(self).drag_state(),
            final(self).next_id() == old(self).next_id(),
    {
        self.connections.clear();
    }

    /// Center the view again.
    pub fn reset_view(&mut self)
        requires
            old(self).wf(),
        ensures
            final(self).wf(),
            final(self).pan() == (Point { x: 0, y: 0 }),
            final(self).nodes_seq() == old(self).nodes_seq(),
            final(self).conns_seq() == old(self).conns_seq(),
            final(self).drag_state() == old(self).drag_state(),
            final(self).next_id() == old(self).next_id(),
    {
        self.pan_offset = Point { x: 0, y: 0 };
    }

    /// Replace the title of the node with the given id; a stale id is
    /// silently absorbed.
    pub fn set_title(&mut self, id: u64, title: String)
        requires
            old(self).wf(),
        ensures
            final(self).wf(),
            (match spec_find_node(old(self).nodes_seq(), id) {
                Some(k) => final(self).nodes_seq() == old(self).nodes_seq().update(
                    k,
                    Node { title, ..old(self).nodes_seq()[k] },
                ),
                None => final(self).nodes_seq() == old(self).nodes_seq(),
            }),
            final(self).conns_seq() == old(self).conns_seq(),
            final(self).pan() == old(self).pan(),
            final(self).drag_state() == old(self).drag_state(),
            final(self).next_id() == old(self).next_id(),
    {
        let found = self.find_node(id);
        match found {
            Some(k) => {
                proof {
                    lemma_find_node_from_ok(self.nodes@, id, 0);
                }
                let ghost old_nodes = self.nodes@;
                let node = &mut self.nodes[k];
                node.title = title;
                proof {
                    assert(self.nodes@ =~= old_nodes.update(
                        k as int,
                        Node { title, ..old_nodes[k as int] },
                    ));
                    lemma_same_ids_wf(old(self), self, old_nodes);
                }
            },
            None => {},
        }
    }

    /// Replace the content of the node with the given id, clamped to the
    /// line count its height allows; a stale id is silently absorbed.
    /// The clamp is a data constraint, not a display one: the stored text
    /// itself is truncated from the tail.
    pub fn set_content(&mut self, id: u64, content: String)
        requires
            old(self).wf(),
            content@.len() < usize::MAX,
        ensures
            final(self).wf(),
            (match spec_find_node(old(self).nodes_seq(), id) {
                Some(k) => {
                    let clamped = spec_clamp_lines(
                        content@,
                        spec_max_content_lines(old(self).nodes_seq()[k].size.y as int) as nat,
                    );
                    final(self).nodes_seq().len() == old(self).nodes_seq().len() && final(self).nodes_seq()[k].content@ == clamped && forall|j: int|
                        0 <= j < old(self).nodes_seq().len() && j != k ==> final(self).nodes_seq()[j] == old(self).nodes_seq()[j]
                },
                None => final(self).nodes_seq() == old(self).nodes_seq(),
            }),
            (match spec_find_node(old(self).nodes_seq(), id) {
                Some(k) => final(self).nodes_seq()[k].id == old(self).nodes_seq()[k].id && final(self).nodes_seq()[k].title == old(self).nodes_seq()[k].title && final(self).nodes_seq()[k].position == old(self).nodes_seq()[k].position && final(self).nodes_seq()[k].size == old(self).nodes_seq()[k].size,
                None => true,
            }),
            final(self).conns_seq() == old(self).conns_seq(),
            final(self).pan() == old(self).pan(),
            final(self).drag_state() == old(self).drag_state(),
            final(self).next_id() == old(self).next_id(),
    {
        let found = self.find_node(id);
        match found {
            Some(k) => {
                proof {
                    lemma_find_node_from_ok(self.nodes@, id, 0);
                }
                let ghost old_nodes = self.nodes@;
                let max = max_content_lines(self.nodes[k].size.y);
                let clamped = clamp_text_lines(&content, max as u64);
                let node = &mut self.nodes[k];
                node.content = clamped;
                proof {
                    assert(self.nodes@ =~= old_nodes.update(k as int, self.nodes@[k as int]));
                    lemma_same_ids_wf(old(self), self, old_nodes);
                }
            },
            None => {},
        }
    }
}

impl GraphEditor {
    /// Switch to the given drag gesture.
    pub fn set_drag(&mut self, d: DragState)
        requires
            old(self).wf(),
            spec_drag_ok(old(self).nodes_seq(), d),
        ensures
            final(self).wf(),
            final(self).drag_state() == d,
            final(self).nodes_seq() == old(self).nodes_seq(),
            final(self).conns_seq() == old(self).conns_seq(),
            final(self).pan() == old(self).pan(),
            final(self).next_id() == old(self).next_id(),
    {
        self.drag = d;
    }

    /// Translate the view by the frame's drag motion, clamped into the
    /// stored range.
    pub fn pan_by(&mut self, delta: Point)
        requires
            old(self).wf(),
            -COORD_LIMIT <= delta.x <= COORD_LIMIT,
            -COORD_LIMIT <= delta.y <= COORD_LIMIT,
        ensures
            final(self).wf(),
            final(self).pan() == crate::geometry::spec_clamped_add(old(self).pan(), delta),
            final(self).nodes_seq() == old(self).nodes_seq(),
            final(self).conns_seq() == old(self).conns_seq(),
            final(self).drag_state() == old(self).drag_state(),
            final(self).next_id() == old(self).next_id(),
    {
        self.pan_offset = crate::geometry::clamped_add(self.pan_offset, delta);
    }

    /// Move the node with the given id by the frame's drag motion,
    /// clamped into the stored range; a stale id is silently absorbed.
    pub fn move_node_by(&mut self, id: u64, delta: Point)
        requires
            old(self).wf(),
            -COORD_LIMIT <= delta.x <= COORD_LIMIT,
            -COORD_LIMIT <= delta.y <= COORD_LIMIT,
        ensures
            final(self).wf(),
            (match spec_find_node(old(self).nodes_seq(), id) {
                Some(k) => final(self).nodes_seq() == old(self).nodes_seq().update(
                    k,
                    Node {
                        position: crate::geometry::spec_clamped_add(
                            old(self).nodes_seq()[k].position,
                            delta,
                        ),
                        ..old(self).nodes_seq()[k]
                    },
                ),
                None => final(self).nodes_seq() == old(self).nodes_seq(),
            }),
            final(self).conns_seq() == old(self).conns_seq(),
            final(self).pan() == old(self).pan(),
            final(self).drag_state() == old(self).drag_state(),
            final(self).next_id() == old(self).next_id(),
    {
        let found = self.find_node(id);
        match found {
            Some(k) => {
                proof {
                    lemma_find_node_from_ok(self.nodes@, id, 0);
                }
                let ghost old_nodes = self.nodes@;
                let moved = crate::geometry::clamped_add(self.nodes[k].position, delta);
                let node = &mut self.nodes[k];
                node.position = moved;
                proof {
                    assert(self.nodes@ =~= old_nodes.update(
                        k as int,
                        Node { position: moved, ..old_nodes[k as int] },
                    ));
                    lemma_same_ids_wf(old(self), self, old_nodes);
                }
            },
            None => {},
        }
    }
}

impl Default for GraphEditor {
    /// The starter graph: three demo nodes in a row, the first linked to
    /// the second and the second to the third.
    fn default() -> (r: Self)
        ensures
            r.wf(),
            r.nodes_seq().len() == 3,
            r.nodes_seq()[0].id == 0 && r.nodes_seq()[0].position == (Point { x: 100, y: 100 }),
            r.nodes_seq()[1].id == 1 && r.nodes_seq()[1].position == (Point { x: 340, y: 140 }),
            r.nodes_seq()[2].id == 2 && r.nodes_seq()[2].position == (Point { x: 580, y: 100 }),
            r.nodes_seq()[0].title@ == "Input"@,
            r.nodes_seq()[1].title@ == "Deal"@,
            r.nodes_seq()[2].title@ == "Output"@,
            forall|i: int|
                0 <= i < 3 ==> (#[trigger] r.nodes_seq()[i]).size == (Point {
                    x: NODE_WIDTH,
                    y: NODE_HEIGHT,
                }) && r.nodes_seq()[i].content@ == "notes"@,
            r.conns_seq() == seq![
                Connection { from_node_id: 0, to_node_id: 1 },
                Connection { from_node_id: 1, to_node_id: 2 },
            ],
            r.pan() == (Point { x: 0, y: 0 }),
            r.drag_state() == DragState::Idle,
            r.next_id() == 3,
    {
        let size = Point { x: NODE_WIDTH, y: NODE_HEIGHT };
        let mut nodes: Vec<Node> = Vec::new();
        nodes.push(
            Node {
                id: 0,
                title: String::from_str("Input"),
                content: String::from_str("notes"),
                position: Point { x: 100, y: 100 },
                size,
            },
        );
        nodes.push(
            Node {
                id: 1,
                title: String::from_str("Deal"),
                content: String::from_str("notes"),
                position: Point { x: 340, y: 140 },
                size,
            },
        );
        nodes.push(
            Node {
                id: 2,
                title: String::from_str("Output"),
                content: String::from_str("notes"),
                position: Point { x: 580, y: 100 },
                size,
            },
        );
        let mut connections: Vec<Connection> = Vec::new();
        connections.push(Connection { from_node_id: 0, to_node_id: 1 });
        connections.push(Connection { from_node_id: 1, to_node_id: 2 });
        let r = GraphEditor {
            nodes,
            connections,
            pan_offset: Point { x: 0, y: 0 },
            drag: DragState::Idle,
            next_node_id: 3,
        };
        proof {
            assert(r.nodes_seq().len() == 3);
            assert(r.nodes_seq()[0].id == 0);
            assert(r.nodes_seq()[1].id == 1);
            assert(r.nodes_seq()[2].id == 2);
            assert(spec_find_node_from(r.nodes_seq(), 0, 0) == Some(0int));
            assert(spec_find_node_from(r.nodes_seq(), 1, 1) == Some(1int));
            assert(spec_find_node_from(r.nodes_seq(), 1, 0) == Some(1int));
            assert(spec_find_node_from(r.nodes_seq(), 2, 2) == Some(2int));
            assert(spec_find_node_from(r.nodes_seq(), 2, 1) == Some(2int));
            assert(spec_find_node_from(r.nodes_seq(), 2, 0) == Some(2int));
            assert(r.conns_seq() =~= seq![
                Connection { from_node_id: 0, to_node_id: 1 },
                Connection { from_node_id: 1, to_node_id: 2 },
            ]);
        }
        r
    }
}

/// After an update that keeps every node's id and keeps every node
/// structurally sound, the editor is still well formed.
proof fn lemma_same_ids_wf(before: &GraphEditor, after: &GraphEditor, old_nodes: Seq<Node>)
    requires
        before.wf(),
        old_nodes == before.nodes_seq(),
        after.nodes_seq().len() == old_nodes.len(),
        forall|i: int|
            0 <= i < old_nodes.len() ==> (#[trigger] after.nodes_seq()[i]).id == old_nodes[i].id
                && node_wf(after.nodes_seq()[i]),
        after.conns_seq() == before.conns_seq(),
        after.pan() == before.pan(),
        after.drag_state() == before.drag_state(),
        after.next_id() == before.next_id(),
    ensures
        after.wf(),
{
    assert forall|idv: u64|
        spec_find_node(old_nodes, idv) is Some implies spec_find_node(
        after.nodes_seq(),
        idv,
    ) is Some by {
        lemma_find_same_ids(old_nodes, after.nodes_seq(), idv, 0);
    }
    assert forall|i: int| 0 <= i < after.conns_seq().len() implies conn_valid(
        after.nodes_seq(),
        #[trigger] after.conns_seq()[i],
    ) by {
        assert(conn_valid(old_nodes, before.conns_seq()[i]));
    }
}

/// Two node sequences with the same ids position by position find every
/// id at the same index.
proof fn lemma_find_same_ids(a: Seq<Node>, b: Seq<Node>, id: u64, i: int)
    requires
        a.len() == b.len(),
        forall|j: int| 0 <= j < a.len() ==> (#[trigger] a[j]).id == b[j].id,
        0 <= i <= a.len(),
    ensures
        spec_find_node_from(a, id, i) == spec_find_node_from(b, id, i),
    decreases a.len() - i,
{
    if i < a.len() && a[i].id != id {
        lemma_find_same_ids(a, b, id, i + 1);
    }
}

/// World position of a freshly added node: staggered to the right with
/// the id so new nodes do not pile up, clamped into the world range.
pub open spec fn spec_stagger_position(id: u64) -> Point {
    Point { x: spec_clamp_coord(220 + (id as int) * 24), y: 220 }
}

fn stagger_position(id: u64) -> (r: Point)
    ensures
        r == spec_stagger_position(id),
        in_world_range(r),
{
    let x: i64 = if id >= 4158 {
        COORD_LIMIT
    } else {
        220 + (id as i64) * 24
    };
    proof {
        if id >= 4158 {
            assert(220 + (id as int) * 24 > COORD_LIMIT) by (nonlinear_arith)
                requires
                    id >= 4158,
            ;
        } else {
            assert(220 + (id as int) * 24 <= COORD_LIMIT) by (nonlinear_arith)
                requires
                    id <= 4157,
            ;
        }
    }
    Point { x, y: 220 }
}

} // verus!
