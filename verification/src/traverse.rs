//! Walking the mesh: from a halfedge to its neighbours, round a face, round a vertex.
//!
//! Every lookup may fail, because a link may name an element that is gone; a failed
//! lookup ends the walk or leaves the element out, it never stops the program.

use vstd::prelude::*;
use crate::elements::{Face, Halfedge, Vertex};
use crate::ids::{FaceId, HalfedgeId, VertexId};
use crate::mesh::{MeshGraph, MeshModel};

verus! {

/// The step that a circular walk repeats.
#[derive(Clone, Copy, Debug, PartialEq, Eq, Structural)]
pub enum WalkStep {
    /// To the next halfedge of the same face.
    Next,
    /// To the next halfedge clockwise round the same start vertex.
    CwRotated,
}

/// The images under `f` of the first `n` items of `items`, in order, leaving out those
/// for which `f` gives nothing.
pub open spec fn filter_map_prefix<A, B>(items: Seq<A>, f: spec_fn(A) -> Option<B>, n: nat) -> Seq<B>
    decreases n,
{
    if n == 0 || n > items.len() {
        Seq::empty()
    } else {
        let before = filter_map_prefix(items, f, (n - 1) as nat);
        match f(items[n - 1]) {
            Some(image) => before.push(image),
            None => before,
        }
    }
}

/// The images under `f` of `items`, in order, leaving out those for which `f` gives
/// nothing.
pub open spec fn filter_map_seq<A, B>(items: Seq<A>, f: spec_fn(A) -> Option<B>) -> Seq<B> {
    filter_map_prefix(items, f, items.len())
}

impl MeshModel {
    /// The successor of `he` in its face.
    pub open spec fn next_of(self, he: HalfedgeId) -> Option<HalfedgeId> {
        match self.halfedges.get(he) {
            Some(h) => h.next,
            None => None,
        }
    }

    /// The twin of `he`.
    pub open spec fn twin_of(self, he: HalfedgeId) -> Option<HalfedgeId> {
        match self.halfedges.get(he) {
            Some(h) => h.twin,
            None => None,
        }
    }

    /// The face of `he`.
    pub open spec fn face_of(self, he: HalfedgeId) -> Option<FaceId> {
        match self.halfedges.get(he) {
            Some(h) => h.face,
            None => None,
        }
    }

    /// The vertex that `he` points to.
    pub open spec fn end_of(self, he: HalfedgeId) -> Option<VertexId> {
        match self.halfedges.get(he) {
            Some(h) => Some(h.end_vertex),
            None => None,
        }
    }

    /// The vertex that `h` starts at: the end of its twin.
    pub open spec fn start_vertex_of(self, h: Halfedge) -> Option<VertexId> {
        match h.twin {
            Some(twin) => self.end_of(twin),
            None => None,
        }
    }

    /// The vertex that the halfedge named `he` starts at.
    pub open spec fn start_of(self, he: HalfedgeId) -> Option<VertexId> {
        match self.halfedges.get(he) {
            Some(h) => self.start_vertex_of(h),
            None => None,
        }
    }

    /// The predecessor of `h` in its triangle: the successor of its successor.
    pub open spec fn prev_of(self, h: Halfedge) -> Option<HalfedgeId> {
        match h.next {
            Some(next) => self.next_of(next),
            None => None,
        }
    }

    /// The next halfedge counter-clockwise round the start vertex of `h`: the twin of
    /// its predecessor.
    pub open spec fn ccw_rotated_of(self, h: Halfedge) -> Option<HalfedgeId> {
        match self.prev_of(h) {
            Some(prev) => self.twin_of(prev),
            None => None,
        }
    }

    /// The next halfedge clockwise round the start vertex of `h`: the successor of its
    /// twin.
    pub open spec fn cw_rotated_of(self, h: Halfedge) -> Option<HalfedgeId> {
        match h.twin {
            Some(twin) => self.next_of(twin),
            None => None,
        }
    }

    /// One step of a circular walk.
    pub open spec fn step(self, kind: WalkStep, he: HalfedgeId) -> Option<HalfedgeId> {
        match kind {
            WalkStep::Next => self.next_of(he),
            WalkStep::CwRotated => match self.halfedges.get(he) {
                Some(h) => self.cw_rotated_of(h),
                None => None,
            },
        }
    }

    /// The walk that has reached `current`: `current`, then what the step gives, until
    /// the step gives nothing or gives `start`; cut off after `fuel` items.
    pub open spec fn walk_from(self, kind: WalkStep, start: HalfedgeId, current: HalfedgeId, fuel: nat) -> Seq<HalfedgeId>
        decreases fuel,
    {
        if fuel == 0 {
            Seq::empty()
        } else {
            match self.step(kind, current) {
                Some(following) => if following == start {
                    seq![current]
                } else {
                    seq![current] + self.walk_from(kind, start, following, (fuel - 1) as nat)
                },
                None => seq![current],
            }
        }
    }

    /// The circular walk from `start`: `start`, then what the step gives, until the step
    /// gives nothing or comes back to `start`. A walk over live halfedges that has not
    /// closed after one item more than there are halfedges never will, and is cut off
    /// there.
    pub open spec fn walk(self, kind: WalkStep, start: Option<HalfedgeId>) -> Seq<HalfedgeId> {
        match start {
            Some(first) => self.walk_from(kind, first, first, self.halfedges.dom().len() + 1),
            None => Seq::empty(),
        }
    }

    /// The halfedges round the face `f`, from its representative.
    pub open spec fn face_halfedges(self, f: Face) -> Seq<HalfedgeId> {
        self.walk(WalkStep::Next, Some(f.halfedge))
    }

    /// The corners of the face `f`: the end of each of its halfedges.
    pub open spec fn face_vertices(self, f: Face) -> Seq<VertexId> {
        filter_map_seq(self.face_halfedges(f), |he: HalfedgeId| self.end_of(he))
    }

    /// The positions of the corners of the face `f`.
    pub open spec fn face_positions(self, f: Face) -> Seq<glam::Vec3> {
        filter_map_seq(self.face_vertices(f), |v: VertexId| self.positions.get(v))
    }

    /// The fan of halfedges that start at `v`, clockwise from its canonical one.
    pub open spec fn fan(self, v: Vertex) -> Seq<HalfedgeId> {
        self.walk(WalkStep::CwRotated, v.outgoing_halfedge)
    }

    /// The halfedges that end at `v`: the twin of each halfedge of its fan.
    pub open spec fn incoming_fan(self, v: Vertex) -> Seq<HalfedgeId> {
        filter_map_seq(self.fan(v), |he: HalfedgeId| self.twin_of(he))
    }

    /// The faces round `v`: the face of each halfedge of its fan.
    pub open spec fn vertex_faces(self, v: Vertex) -> Seq<FaceId> {
        filter_map_seq(self.fan(v), |he: HalfedgeId| self.face_of(he))
    }

    /// The vertices joined to `v` by an edge: the end of each halfedge of its fan.
    pub open spec fn neighbours(self, v: Vertex) -> Seq<VertexId> {
        filter_map_seq(self.fan(v), |he: HalfedgeId| self.end_of(he))
    }

    /// The halfedges opposite `v`, one for each halfedge that ends at `v`, taken in
    /// reverse: the clockwise neighbour of each.
    pub open spec fn one_ring(self, v: Vertex) -> Seq<HalfedgeId> {
        filter_map_seq(self.incoming_fan(v).reverse(), |he: HalfedgeId| self.step(WalkStep::CwRotated, he))
    }

    /// Whether the canonical halfedge of `v` is live and has no face.
    pub open spec fn vertex_on_boundary(self, v: Vertex) -> bool {
        match v.outgoing_halfedge {
            Some(he) => match self.halfedges.get(he) {
                Some(h) => h.face is None,
                None => false,
            },
            None => false,
        }
    }
}

impl MeshGraph {
    /// One step of a circular walk from `he`.
    pub fn step(&self, kind: WalkStep, he: HalfedgeId) -> (following: Option<HalfedgeId>)
        requires
            self.wf(),
        ensures
            following == self@.step(kind, he),
    {
        match self.halfedge(he) {
            Some(h) => match kind {
                WalkStep::Next => h.next,
                WalkStep::CwRotated => h.cw_rotated_neighbour(self),
            },
            None => None,
        }
    }

    /// The circular walk from `start`: the starting halfedge, then what the step gives,
    /// until the step gives nothing or comes back to the start.
    pub fn circular_walk(&self, kind: WalkStep, start: Option<HalfedgeId>) -> (visited: Vec<HalfedgeId>)
        requires
            self.wf(),
        ensures
            visited@ == self@.walk(kind, start),
    {
        let mut visited: Vec<HalfedgeId> = Vec::new();
        match start {
            None => visited,
            Some(first) => {
                let mut fuel: usize = self.halfedge_count() + 1;
                let mut current = first;
                let mut finished = false;
                while fuel > 0 && !finished
                    invariant
                        self.wf(),
                        finished ==> visited@ == self@.walk(kind, start),
                        !finished ==> self@.walk(kind, start) == visited@ + self@.walk_from(kind, first, current, fuel as nat),
                        start == Some(first),
                    decreases fuel as int + (if finished { 0int } else { 1int }),
                {
                    visited.push(current);
                    match self.step(kind, current) {
                        Some(following) => {
                            if following == first {
                                finished = true;
                            } else {
                                current = following;
                                fuel = fuel - 1;
                            }
                        },
                        None => {
                            finished = true;
                        },
                    }
                    proof {
                        assert(self@.walk(kind, start) =~= visited@ + (if finished {
                            Seq::<HalfedgeId>::empty()
                        } else {
                            self@.walk_from(kind, first, current, fuel as nat)
                        }));
                    }
                }
                proof {
                    if !finished {
                        assert(self@.walk(kind, start) =~= visited@);
                    }
                }
                visited
            },
        }
    }
}

impl Halfedge {
    /// The vertex this halfedge starts at: the end of its twin.
    pub fn start_vertex(&self, mesh_graph: &MeshGraph) -> (start: Option<VertexId>)
        requires
            mesh_graph.wf(),
        ensures
            start == mesh_graph@.start_vertex_of(*self),
    {
        match self.twin {
            Some(twin) => match mesh_graph.halfedge(twin) {
                Some(t) => Some(t.end_vertex),
                None => None,
            },
            None => None,
        }
    }

    /// The previous halfedge of the same triangle.
    pub fn prev(&self, mesh_graph: &MeshGraph) -> (prev: Option<HalfedgeId>)
        requires
            mesh_graph.wf(),
        ensures
            prev == mesh_graph@.prev_of(*self),
    {
        match self.next {
            Some(next) => match mesh_graph.halfedge(next) {
                Some(n) => n.next,
                None => None,
            },
            None => None,
        }
    }

    /// The next halfedge counter-clockwise with the same start vertex.
    pub fn ccw_rotated_neighbour(&self, mesh_graph: &MeshGraph) -> (neighbour: Option<HalfedgeId>)
        requires
            mesh_graph.wf(),
        ensures
            neighbour == mesh_graph@.ccw_rotated_of(*self),
    {
        match self.prev(mesh_graph) {
            Some(prev) => match mesh_graph.halfedge(prev) {
                Some(p) => p.twin,
                None => None,
            },
            None => None,
        }
    }

    /// The next halfedge clockwise with the same start vertex.
    pub fn cw_rotated_neighbour(&self, mesh_graph: &MeshGraph) -> (neighbour: Option<HalfedgeId>)
        requires
            mesh_graph.wf(),
        ensures
            neighbour == mesh_graph@.cw_rotated_of(*self),
    {
        match self.twin {
            Some(twin) => match mesh_graph.halfedge(twin) {
                Some(t) => t.next,
                None => None,
            },
            None => None,
        }
    }

    /// Whether the start or the end vertex is a boundary vertex. `false` where the
    /// start vertex cannot be found.
    pub fn is_adjacent_to_boundary(&self, mesh_graph: &MeshGraph) -> (adjacent: bool)
        requires
            mesh_graph.wf(),
        ensures
            adjacent == (match mesh_graph@.start_vertex_of(*self) {
                Some(start) => {
                    ||| (mesh_graph@.vertices.dom().contains(start)
                        && mesh_graph@.vertex_on_boundary(mesh_graph@.vertices[start]))
                    ||| (mesh_graph@.vertices.dom().contains(self.end_vertex)
                        && mesh_graph@.vertex_on_boundary(mesh_graph@.vertices[self.end_vertex]))
                },
                None => false,
            }),
    {
        match self.start_vertex(mesh_graph) {
            Some(start) => {
                let at_start = match mesh_graph.vertex(start) {
                    Some(v) => v.is_boundary(mesh_graph),
                    None => false,
                };
                if at_start {
                    true
                } else {
                    match mesh_graph.vertex(self.end_vertex) {
                        Some(v) => v.is_boundary(mesh_graph),
                        None => false,
                    }
                }
            },
            None => false,
        }
    }
}

impl Vertex {
    /// One of the halfedges that end at this vertex: the twin of the canonical
    /// outgoing halfedge.
    pub fn incoming_halfedge(&self, mesh_graph: &MeshGraph) -> (incoming: Option<HalfedgeId>)
        requires
            mesh_graph.wf(),
        ensures
            incoming == (match self.outgoing_halfedge {
                Some(outgoing) => mesh_graph@.twin_of(outgoing),
                None => None,
            }),
    {
        match self.outgoing_halfedge {
            Some(outgoing) => match mesh_graph.halfedge(outgoing) {
                Some(h) => h.twin,
                None => None,
            },
            None => None,
        }
    }

    /// The halfedges that start at this vertex, clockwise from the canonical one.
    pub fn outgoing_halfedges(&self, mesh_graph: &MeshGraph) -> (fan: Vec<HalfedgeId>)
        requires
            mesh_graph.wf(),
        ensures
            fan@ == mesh_graph@.fan(*self),
    {
        mesh_graph.circular_walk(WalkStep::CwRotated, self.outgoing_halfedge)
    }

    /// The halfedges that end at this vertex.
    pub fn incoming_halfedges(&self, mesh_graph: &MeshGraph) -> (incoming: Vec<HalfedgeId>)
        requires
            mesh_graph.wf(),
        ensures
            incoming@ == mesh_graph@.incoming_fan(*self),
    {
        let fan = self.outgoing_halfedges(mesh_graph);
        let mut incoming: Vec<HalfedgeId> = Vec::new();
        let ghost f = |he: HalfedgeId| mesh_graph@.twin_of(he);
        let mut i: usize = 0;
        while i < fan.len()
            invariant
                mesh_graph.wf(),
                i <= fan.len(),
                f == |he: HalfedgeId| mesh_graph@.twin_of(he),
                incoming@ == filter_map_prefix(fan@, f, i as nat),
            decreases fan.len() - i,
        {
            match mesh_graph.halfedge(fan[i]) {
                Some(h) => match h.twin {
                    Some(twin) => {
                        incoming.push(twin);
                    },
                    None => {},
                },
                None => {},
            }
            i = i + 1;
        }
        incoming
    }

    /// The faces round this vertex, one for each halfedge of the fan that has one.
    pub fn faces(&self, mesh_graph: &MeshGraph) -> (faces: Vec<FaceId>)
        requires
            mesh_graph.wf(),
        ensures
            faces@ == mesh_graph@.vertex_faces(*self),
    {
        let fan = self.outgoing_halfedges(mesh_graph);
        let mut faces: Vec<FaceId> = Vec::new();
        let ghost f = |he: HalfedgeId| mesh_graph@.face_of(he);
        let mut i: usize = 0;
        while i < fan.len()
            invariant
                mesh_graph.wf(),
                i <= fan.len(),
                f == |he: HalfedgeId| mesh_graph@.face_of(he),
                faces@ == filter_map_prefix(fan@, f, i as nat),
            decreases fan.len() - i,
        {
            match mesh_graph.halfedge(fan[i]) {
                Some(h) => match h.face {
                    Some(face) => {
                        faces.push(face);
                    },
                    None => {},
                },
                None => {},
            }
            i = i + 1;
        }
        faces
    }

    /// The vertices joined to this one by an edge.
    pub fn neighbours(&self, mesh_graph: &MeshGraph) -> (neighbours: Vec<VertexId>)
        requires
            mesh_graph.wf(),
        ensures
            neighbours@ == mesh_graph@.neighbours(*self),
    {
        let fan = self.outgoing_halfedges(mesh_graph);
        let mut neighbours: Vec<VertexId> = Vec::new();
        let ghost f = |he: HalfedgeId| mesh_graph@.end_of(he);
        let mut i: usize = 0;
        while i < fan.len()
            invariant
                mesh_graph.wf(),
                i <= fan.len(),
                f == |he: HalfedgeId| mesh_graph@.end_of(he),
                neighbours@ == filter_map_prefix(fan@, f, i as nat),
            decreases fan.len() - i,
        {
            match mesh_graph.halfedge(fan[i]) {
                Some(h) => {
                    neighbours.push(h.end_vertex);
                },
                None => {},
            }
            i = i + 1;
        }
        neighbours
    }

    /// The number of edges at this vertex.
    pub fn degree(&self, mesh_graph: &MeshGraph) -> (degree: usize)
        requires
            mesh_graph.wf(),
        ensures
            degree == mesh_graph@.neighbours(*self).len(),
    {
        self.neighbours(mesh_graph).len()
    }

    /// Whether the canonical outgoing halfedge is a boundary halfedge.
    pub fn is_boundary(&self, mesh_graph: &MeshGraph) -> (boundary: bool)
        requires
            mesh_graph.wf(),
        ensures
            boundary == mesh_graph@.vertex_on_boundary(*self),
    {
        match self.outgoing_halfedge {
            Some(outgoing) => match mesh_graph.halfedge(outgoing) {
                Some(h) => h.is_boundary(),
                None => false,
            },
            None => false,
        }
    }

    /// The halfedges opposite this vertex, one for each face round it, counter-clockwise.
    pub fn one_ring(&self, mesh_graph: &MeshGraph) -> (ring: Vec<HalfedgeId>)
        requires
            mesh_graph.wf(),
        ensures
            ring@ == mesh_graph@.one_ring(*self),
    {
        let incoming = self.incoming_halfedges(mesh_graph);
        let mut ring: Vec<HalfedgeId> = Vec::new();
        let ghost f = |he: HalfedgeId| mesh_graph@.step(WalkStep::CwRotated, he);
        let n = incoming.len();
        let mut i: usize = 0;
        while i < n
            invariant
                mesh_graph.wf(),
                i <= n,
                n == incoming.len(),
                f == |he: HalfedgeId| mesh_graph@.step(WalkStep::CwRotated, he),
                ring@ == filter_map_prefix(incoming@.reverse(), f, i as nat),
            decreases n - i,
        {
            match mesh_graph.step(WalkStep::CwRotated, incoming[n - 1 - i]) {
                Some(opposite) => {
                    ring.push(opposite);
                },
                None => {},
            }
            i = i + 1;
        }
        ring
    }
}

impl Face {
    /// The halfedges of this face, from its representative.
    pub fn halfedges(&self, mesh_graph: &MeshGraph) -> (halfedges: Vec<HalfedgeId>)
        requires
            mesh_graph.wf(),
        ensures
            halfedges@ == mesh_graph@.face_halfedges(*self),
    {
        mesh_graph.circular_walk(WalkStep::Next, Some(self.halfedge))
    }

    /// The corners of this face.
    pub fn vertices(&self, mesh_graph: &MeshGraph) -> (vertices: Vec<VertexId>)
        requires
            mesh_graph.wf(),
        ensures
            vertices@ == mesh_graph@.face_vertices(*self),
    {
        let halfedges = self.halfedges(mesh_graph);
        let mut vertices: Vec<VertexId> = Vec::new();
        let ghost f = |he: HalfedgeId| mesh_graph@.end_of(he);
        let mut i: usize = 0;
        while i < halfedges.len()
            invariant
                mesh_graph.wf(),
                i <= halfedges.len(),
                f == |he: HalfedgeId| mesh_graph@.end_of(he),
                vertices@ == filter_map_prefix(halfedges@, f, i as nat),
            decreases halfedges.len() - i,
        {
            match mesh_graph.halfedge(halfedges[i]) {
                Some(h) => {
                    vertices.push(h.end_vertex);
                },
                None => {},
            }
            i = i + 1;
        }
        vertices
    }

    /// The positions of the corners of this face.
    pub fn vertex_positions(&self, mesh_graph: &MeshGraph) -> (positions: Vec<glam::Vec3>)
        requires
            mesh_graph.wf(),
        ensures
            positions@ == mesh_graph@.face_positions(*self),
    {
        let vertices = self.vertices(mesh_graph);
        let mut positions: Vec<glam::Vec3> = Vec::new();
        let ghost f = |v: VertexId| mesh_graph@.positions.get(v);
        let mut i: usize = 0;
        while i < vertices.len()
            invariant
                mesh_graph.wf(),
                i <= vertices.len(),
                f == |v: VertexId| mesh_graph@.positions.get(v),
                positions@ == filter_map_prefix(vertices@, f, i as nat),
            decreases vertices.len() - i,
        {
            match mesh_graph.position(vertices[i]) {
                Some(p) => {
                    positions.push(p);
                },
                None => {},
            }
            i = i + 1;
        }
        positions
    }
}

/// Three distinct live halfedges that follow one another in a ring are what the walk
/// round their face yields, from whichever of them it starts.
pub proof fn lemma_triangle_walk(m: MeshModel, a: HalfedgeId, b: HalfedgeId, c: HalfedgeId)
    requires
        m.halfedges.dom().finite(),
        m.halfedges.dom().contains(a),
        m.halfedges.dom().contains(b),
        m.halfedges.dom().contains(c),
        a != b,
        b != c,
        c != a,
        m.halfedges[a].next == Some(b),
        m.halfedges[b].next == Some(c),
        m.halfedges[c].next == Some(a),
    ensures
        m.walk(WalkStep::Next, Some(a)) == seq![a, b, c],
{
    let pair = set![a, b];
    vstd::set_lib::lemma_len_subset(pair, m.halfedges.dom());
    assert(pair.len() == 2) by {
        assert(pair =~= Set::<HalfedgeId>::empty().insert(a).insert(b));
    }
    let fuel = m.halfedges.dom().len() + 1;
    assert(fuel >= 3);
    assert(m.step(WalkStep::Next, a) == Some(b));
    assert(m.step(WalkStep::Next, b) == Some(c));
    assert(m.step(WalkStep::Next, c) == Some(a));
    assert(m.walk_from(WalkStep::Next, a, c, (fuel - 2) as nat) == seq![c]);
    assert(m.walk_from(WalkStep::Next, a, b, (fuel - 1) as nat) == seq![b] + seq![c]);
    assert(m.walk_from(WalkStep::Next, a, a, fuel) == seq![a] + (seq![b] + seq![c]));
    assert(seq![a] + (seq![b] + seq![c]) =~= seq![a, b, c]);
}

/// The corners of a face whose walk yields three live halfedges are the ends of the
/// three, in order.
pub proof fn lemma_triangle_corners(m: MeshModel, f: Face, a: HalfedgeId, b: HalfedgeId, c: HalfedgeId)
    requires
        m.face_halfedges(f) == seq![a, b, c],
        m.halfedges.dom().contains(a),
        m.halfedges.dom().contains(b),
        m.halfedges.dom().contains(c),
    ensures
        m.face_vertices(f) == seq![m.halfedges[a].end_vertex, m.halfedges[b].end_vertex, m.halfedges[c].end_vertex],
{
    let g = |he: HalfedgeId| m.end_of(he);
    let list = seq![a, b, c];
    assert(filter_map_prefix(list, g, 0) =~= Seq::<VertexId>::empty());
    assert(filter_map_prefix(list, g, 1) =~= seq![m.halfedges[a].end_vertex]);
    assert(filter_map_prefix(list, g, 2) =~= seq![m.halfedges[a].end_vertex, m.halfedges[b].end_vertex]);
    assert(filter_map_prefix(list, g, 3) =~= seq![m.halfedges[a].end_vertex, m.halfedges[b].end_vertex, m.halfedges[c].end_vertex]);
}

} // verus!
