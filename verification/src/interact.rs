//! The drag state machine: how one frame's pointer snapshot advances the
//! editor. A primary press selects at most one gesture (link drag from an
//! output port, node drag from a header, canvas pan from empty space);
//! motion feeds the active gesture; release resolves it. Within a frame
//! the steps run in a fixed order: link-drag tracking, then deletion by
//! secondary click, then link-drag completion, then canvas pan, so a
//! finished gesture never leaks into another mode in the same frame.

use crate::geometry::{in_geom_range, spec_clamped_add, Point, PortKind, COORD_LIMIT};
use crate::hittest::{
    lemma_header_at_resolves, lemma_port_at_resolves, spec_conn_hit, spec_header_at, spec_over_node,
    spec_port_at,
};
use crate::model::{
    spec_add_connection, spec_find_node, Connection, DragState, GraphEditor, Node,
};
use vstd::prelude::*;

verus! {

/// Distance within which a secondary click acquires a connection curve.
pub const CONNECTION_HIT_THRESHOLD: i64 = 10;

/// One frame's input snapshot, as the host shell polled it.
pub struct FrameInput {
    /// Pointer position in screen space, if the pointer is on the canvas.
    pub pointer: Option<Point>,
    /// The primary button went down this frame.
    pub primary_pressed: bool,
    /// The primary button is held at this frame.
    pub primary_down: bool,
    /// The secondary button was clicked this frame.
    pub secondary_clicked: bool,
    /// Pointer motion since the previous frame.
    pub drag_delta: Point,
}

/// A sound frame snapshot: positions and motion within range.
pub open spec fn frame_input_ok(input: FrameInput) -> bool {
    (match input.pointer {
        Some(p) => in_geom_range(p),
        None => true,
    }) && -COORD_LIMIT <= input.drag_delta.x <= COORD_LIMIT && -COORD_LIMIT <= input.drag_delta.y
        <= COORD_LIMIT
}

/// The drag state after a primary press at `p`: a press on an output
/// port starts a link drag, one on a header starts a node drag, one on
/// empty canvas (not on any node rectangle nor near any port) starts a
/// pan; anything else, or a press while a gesture is already active,
/// changes nothing.
pub open spec fn spec_press_drag(
    nodes: Seq<Node>,
    pan: Point,
    drag: DragState,
    p: Point,
) -> DragState {
    if !(drag is Idle) {
        drag
    } else {
        match spec_port_at(nodes, pan, p) {
            Some(hit) => if hit.1 is Output {
                DragState::LinkDrag {
                    from_node: hit.0,
                    from_port: PortKind::Output,
                    current_pos: p,
                }
            } else {
                DragState::Idle
            },
            None => match spec_header_at(nodes, pan, p) {
                Some(id) => DragState::NodeDrag { node_id: id },
                None => if spec_over_node(nodes, pan, p) {
                    DragState::Idle
                } else {
                    DragState::CanvasPan
                },
            },
        }
    }
}

/// The nodes after one frame of node-drag motion: while a node drag is
/// held, that node moves by the frame's drag motion.
pub open spec fn spec_node_motion(
    nodes: Seq<Node>,
    drag: DragState,
    delta: Point,
    down: bool,
) -> Seq<Node> {
    match drag {
        DragState::NodeDrag { node_id } => if down {
            match spec_find_node(nodes, node_id) {
                Some(k) => nodes.update(
                    k,
                    Node { position: spec_clamped_add(nodes[k].position, delta), ..nodes[k] },
                ),
                None => nodes,
            }
        } else {
            nodes
        },
        _ => nodes,
    }
}

/// The drag state after link-drag tracking: an active link drag follows
/// the pointer.
pub open spec fn spec_link_motion(drag: DragState, pointer: Option<Point>) -> DragState {
    match drag {
        DragState::LinkDrag { from_node, from_port, current_pos } => match pointer {
            Some(p) => DragState::LinkDrag { from_node, from_port, current_pos: p },
            None => drag,
        },
        _ => drag,
    }
}

/// The connections after a secondary click at `p`: the first connection
/// whose curve is within the click threshold is removed; a click far
/// from every curve removes nothing.
pub open spec fn spec_secondary_conns(
    nodes: Seq<Node>,
    conns: Seq<Connection>,
    pan: Point,
    p: Point,
) -> Seq<Connection> {
    match spec_conn_hit(nodes, conns, pan, p, CONNECTION_HIT_THRESHOLD as int) {
        Some(k) => conns.remove(k),
        None => conns,
    }
}

/// The connections after a link drag is released: if the pointer rests
/// on an input port, the link is committed (unless it is a self-link or
/// a duplicate, which are silently absorbed); anywhere else the drag is
/// simply discarded.
pub open spec fn spec_release_conns(
    nodes: Seq<Node>,
    conns: Seq<Connection>,
    drag: DragState,
    pan: Point,
    pointer: Option<Point>,
) -> Seq<Connection> {
    match drag {
        DragState::LinkDrag { from_node, .. } => match pointer {
            Some(p) => match spec_port_at(nodes, pan, p) {
                Some(hit) => if hit.1 is Input {
                    spec_add_connection(nodes, conns, from_node, hit.0)
                } else {
                    conns
                },
                None => conns,
            },
            None => conns,
        },
        _ => conns,
    }
}

/// The pan offset after one frame of canvas-pan motion: while the pan is
/// held, the view moves by the frame's drag motion, one to one.
pub open spec fn spec_pan_motion(drag: DragState, pan: Point, delta: Point, down: bool) -> Point {
    if drag is CanvasPan && down {
        spec_clamped_add(pan, delta)
    } else {
        pan
    }
}

impl GraphEditor {
    /// A primary press at `p` selects the gesture, as `spec_press_drag`
    /// states.
    pub fn primary_press(&mut self, p: Point)
        requires
            old(self).wf(),
            in_geom_range(p),
        ensures
            final(self).wf(),
            final(self).drag_state() == spec_press_drag(
                old(self).nodes_seq(),
                old(self).pan(),
                old(self).drag_state(),
                p,
            ),
            final(self).nodes_seq() == old(self).nodes_seq(),
            final(self).conns_seq() == old(self).conns_seq(),
            final(self).pan() == old(self).pan(),
            final(self).next_id() == old(self).next_id(),
    {
        match self.drag() {
            DragState::Idle => {},
            _ => {
                return ;
            },
        }
        proof {
            lemma_port_at_resolves(self.nodes_seq(), self.pan(), p, 0);
            lemma_header_at_resolves(self.nodes_seq(), self.pan(), p, 0);
        }
        match self.port_at(p) {
            Some((id, PortKind::Output)) => {
                self.set_drag(
                    DragState::LinkDrag {
                        from_node: id,
                        from_port: PortKind::Output,
                        current_pos: p,
                    },
                );
            },
            Some((_, PortKind::Input)) => {},
            None => {
                match self.header_at(p) {
                    Some(id) => {
                        self.set_drag(DragState::NodeDrag { node_id: id });
                    },
                    None => {
                        if !self.is_pointer_over_node(p) {
                            self.set_drag(DragState::CanvasPan);
                        }
                    },
                }
            },
        }
    }

    /// One frame of node-drag motion: while the primary button holds a
    /// node's header, the node follows the pointer's frame delta.
    pub fn node_drag_motion(&mut self, delta: Point)
        requires
            old(self).wf(),
            -COORD_LIMIT <= delta.x <= COORD_LIMIT,
            -COORD_LIMIT <= delta.y <= COORD_LIMIT,
        ensures
            final(self).wf(),
            final(self).nodes_seq() == spec_node_motion(
                old(self).nodes_seq(),
                old(self).drag_state(),
                delta,
                true,
            ),
            final(self).conns_seq() == old(self).conns_seq(),
            final(self).pan() == old(self).pan(),
            final(self).drag_state() == old(self).drag_state(),
            final(self).next_id() == old(self).next_id(),
    {
        match self.drag() {
            DragState::NodeDrag { node_id } => {
                self.move_node_by(node_id, delta);
            },
            _ => {},
        }
    }

    /// One frame of link-drag tracking: the temporary curve's endpoint
    /// follows the pointer.
    pub fn link_drag_motion(&mut self, p: Point)
        requires
            old(self).wf(),
            in_geom_range(p),
        ensures
            final(self).wf(),
            final(self).drag_state() == spec_link_motion(old(self).drag_state(), Some(p)),
            final(self).nodes_seq() == old(self).nodes_seq(),
            final(self).conns_seq() == old(self).conns_seq(),
            final(self).pan() == old(self).pan(),
            final(self).next_id() == old(self).next_id(),
    {
        match self.drag() {
            DragState::LinkDrag { from_node, from_port, .. } => {
                self.set_drag(DragState::LinkDrag { from_node, from_port, current_pos: p });
            },
            _ => {},
        }
    }

    /// A secondary click at `p` removes the first connection whose curve
    /// lies within the click threshold, if any.
    pub fn secondary_click(&mut self, p: Point)
        requires
            old(self).wf(),
            in_geom_range(p),
        ensures
            final(self).wf(),
            final(self).conns_seq() == spec_secondary_conns(
                old(self).nodes_seq(),
                old(self).conns_seq(),
                old(self).pan(),
                p,
            ),
            final(self).nodes_seq() == old(self).nodes_seq(),
            final(self).pan() == old(self).pan(),
            final(self).drag_state() == old(self).drag_state(),
            final(self).next_id() == old(self).next_id(),
    {
        match self.hit_test_connection(p, CONNECTION_HIT_THRESHOLD) {
            Some(index) => {
                self.remove_connection(index);
            },
            None => {},
        }
    }

    /// Release of the primary button: an active link drag over an input
    /// port of another node commits the connection (self-links and
    /// duplicates are silently absorbed); every gesture ends.
    pub fn release_primary(&mut self, pointer: Option<Point>)
        requires
            old(self).wf(),
            (match pointer {
                Some(p) => in_geom_range(p),
                None => true,
            }),
        ensures
            final(self).wf(),
            final(self).drag_state() == DragState::Idle,
            final(self).conns_seq() == spec_release_conns(
                old(self).nodes_seq(),
                old(self).conns_seq(),
                old(self).drag_state(),
                old(self).pan(),
                pointer,
            ),
            final(self).nodes_seq() == old(self).nodes_seq(),
            final(self).pan() == old(self).pan(),
            final(self).next_id() == old(self).next_id(),
    {
        match self.drag() {
            DragState::LinkDrag { from_node, .. } => {
                match pointer {
                    Some(p) => {
                        match self.port_at(p) {
                            Some((target, PortKind::Input)) => {
                                self.add_connection(from_node, target);
                            },
                            _ => {},
                        }
                    },
                    None => {},
                }
            },
            _ => {},
        }
        self.set_drag(DragState::Idle);
    }

    /// One frame of canvas-pan motion: while the pan is held, the view
    /// follows the pointer's frame delta.
    pub fn pan_motion(&mut self, delta: Point)
        requires
            old(self).wf(),
            -COORD_LIMIT <= delta.x <= COORD_LIMIT,
            -COORD_LIMIT <= delta.y <= COORD_LIMIT,
        ensures
            final(self).wf(),
            final(self).pan() == spec_pan_motion(
                old(self).drag_state(),
                old(self).pan(),
                delta,
                true,
            ),
            final(self).nodes_seq() == old(self).nodes_seq(),
            final(self).conns_seq() == old(self).conns_seq(),
            final(self).drag_state() == old(self).drag_state(),
            final(self).next_id() == old(self).next_id(),
    {
        match self.drag() {
            DragState::CanvasPan => {
                self.pan_by(delta);
            },
            _ => {},
        }
    }

    /// Advance the editor by one input frame, in the fixed order: press
    /// resolution, node-drag motion, link-drag tracking, deletion by
    /// secondary click, link-drag completion on release, canvas pan.
    pub fn frame(&mut self, input: &FrameInput)
        requires
            old(self).wf(),
            frame_input_ok(*input),
        ensures
            final(self).wf(),
            ({
                let drag1 = if input.primary_pressed {
                    match input.pointer {
                        Some(p) => spec_press_drag(
                            old(self).nodes_seq(),
                            old(self).pan(),
                            old(self).drag_state(),
                            p,
                        ),
                        None => old(self).drag_state(),
                    }
                } else {
                    old(self).drag_state()
                };
                let nodes1 = if input.primary_down {
                    spec_node_motion(old(self).nodes_seq(), drag1, input.drag_delta, true)
                } else {
                    old(self).nodes_seq()
                };
                let drag2 = spec_link_motion(drag1, input.pointer);
                let conns1 = if input.secondary_clicked {
                    match input.pointer {
                        Some(p) => spec_secondary_conns(
                            nodes1,
                            old(self).conns_seq(),
                            old(self).pan(),
                            p,
                        ),
                        None => old(self).conns_seq(),
                    }
                } else {
                    old(self).conns_seq()
                };
                let conns2 = if !input.primary_down {
                    spec_release_conns(nodes1, conns1, drag2, old(self).pan(), input.pointer)
                } else {
                    conns1
                };
                let drag3 = if !input.primary_down {
                    DragState::Idle
                } else {
                    drag2
                };
                let pan1 = spec_pan_motion(drag3, old(self).pan(), input.drag_delta, input.primary_down);
                final(self).nodes_seq() == nodes1 && final(self).conns_seq() == conns2 && final(self).drag_state() == drag3 && final(self).pan() == pan1 && final(self).next_id() == old(self).next_id()
            }),
    {
        if input.primary_pressed {
            match input.pointer {
                Some(p) => {
                    self.primary_press(p);
                },
                None => {},
            }
        }
        if input.primary_down {
            self.node_drag_motion(input.drag_delta);
        }
        match input.pointer {
            Some(p) => {
                self.link_drag_motion(p);
            },
            None => {},
        }
        if input.secondary_clicked {
            match input.pointer {
                Some(p) => {
                    self.secondary_click(p);
                },
                None => {},
            }
        }
        if !input.primary_down {
            self.release_primary(input.pointer);
        }
        if input.primary_down {
            self.pan_motion(input.drag_delta);
        }
    }
}

} // verus!
