//! Laws that relate several operations, proved over the model of the mesh.

use vstd::prelude::*;
use crate::ids::{HalfedgeId, VertexId};
use crate::mesh::MeshModel;
use crate::ops::insert::InsertOrGetEdge;

verus! {

/// A search that meets the same matches in two meshes finds the same halfedge.
pub proof fn lemma_first_edge_stable(m: MeshModel, n: MeshModel, list: Seq<HalfedgeId>, end: VertexId, from: nat)
    requires
        forall|i: int| from <= i < list.len() ==> ((#[trigger] m.end_of(list[i])) == Some(end)) == (n.end_of(list[i]) == Some(end)),
    ensures
        m.first_edge_to(list, end, from) == n.first_edge_to(list, end, from),
    decreases list.len() - from,
{
    if from < list.len() {
        assert((m.end_of(list[from as int]) == Some(end)) == (n.end_of(list[from as int]) == Some(end)));
        lemma_first_edge_stable(m, n, list, end, from + 1);
    }
}

/// A search in which every match is `he`, and which meets `he`, finds `he`.
pub proof fn lemma_first_edge_unique(m: MeshModel, list: Seq<HalfedgeId>, end: VertexId, from: nat, he: HalfedgeId, at: int)
    requires
        from <= at < list.len(),
        list[at] == he,
        m.end_of(he) == Some(end),
        forall|i: int| from <= i < list.len() && (#[trigger] m.end_of(list[i])) == Some(end) ==> list[i] == he,
    ensures
        m.first_edge_to(list, end, from) == Some(he),
    decreases list.len() - from,
{
    if m.end_of(list[from as int]) != Some(end) {
        lemma_first_edge_unique(m, list, end, from + 1, he, at);
    }
}

/// A search that finds nothing has met no match.
pub proof fn lemma_no_match_where_none(m: MeshModel, list: Seq<HalfedgeId>, end: VertexId, from: nat)
    requires
        m.first_edge_to(list, end, from) is None,
    ensures
        forall|i: int| from <= i < list.len() ==> (#[trigger] m.end_of(list[i])) != Some(end),
    decreases list.len() - from,
{
    if from < list.len() {
        lemma_no_match_where_none(m, list, end, from + 1);
    }
}

/// After the edge between two distinct live vertices has been found or made, the
/// lookup in either direction finds the halfedge that the call returned.
#[verifier::rlimit(50)]
pub proof fn lemma_lookup_after_edge(m: MeshModel, a: VertexId, b: VertexId, edge: InsertOrGetEdge)
    requires
        m.outgoing.dom() == m.vertices.dom(),
        m.vertices.dom().contains(a),
        m.vertices.dom().contains(b),
        a != b,
        m.edge_found_or_made(a, b, edge),
    ensures
        m.with_edge(a, b, edge).halfedge_from_to(a, b) == Some(edge.start_to_end_he_id),
        m.with_edge(a, b, edge).halfedge_from_to(b, a) == Some(edge.twin_he_id),
        m.with_edge(a, b, edge).outgoing.dom() == m.outgoing.dom(),
        m.with_edge(a, b, edge).vertices.dom() == m.vertices.dom(),
        m.with_edge(a, b, edge).halfedges.dom() == m.halfedges.dom().insert(edge.start_to_end_he_id).insert(edge.twin_he_id),
{
    reveal(MeshModel::with_edge);
    let n = m.with_edge(a, b, edge);
    let he1 = edge.start_to_end_he_id;
    let he2 = edge.twin_he_id;
    crate::ops::insert::lemma_first_edge_is_live(m, a, b);
    crate::ops::insert::lemma_first_edge_is_live(m, b, a);
    assert(n.outgoing.dom() =~= m.outgoing.dom());
    assert(n.vertices.dom() =~= m.vertices.dom());
    assert(n.halfedges.dom() =~= m.halfedges.dom().insert(he1).insert(he2));
    assert(n.end_of(he1) == Some(b));
    assert(n.end_of(he2) == Some(a));
    assert forall|x: HalfedgeId| x != he1 && x != he2 implies n.end_of(x) == m.end_of(x) by {}
    if edge.new_start_to_end {
        let list = m.outgoing[a];
        lemma_no_match_where_none(m, list, b, 0);
        assert(n.outgoing[a] =~= list.push(he1));
        assert forall|i: int| 0 <= i < n.outgoing[a].len() && (#[trigger] n.end_of(n.outgoing[a][i])) == Some(b) implies n.outgoing[a][i] == he1 by {
            let x = n.outgoing[a][i];
            if x != he1 && x != he2 {
                assert(i < list.len());
                assert(m.end_of(list[i]) != Some(b));
            }
        }
        lemma_first_edge_unique(n, n.outgoing[a], b, 0, he1, list.len() as int);
    } else {
        let list = m.outgoing[a];
        assert(n.outgoing[a] =~= list);
        assert forall|i: int| 0 <= i < list.len() implies ((#[trigger] m.end_of(list[i])) == Some(b)) == (n.end_of(list[i]) == Some(b)) by {
            let x = list[i];
            if x == he2 && x != he1 {
                if edge.new_twin {
                    assert(m.end_of(x) is None);
                } else {
                    assert(m.end_of(x) == Some(a));
                }
            }
        }
        lemma_first_edge_stable(m, n, list, b, 0);
    }
    if edge.new_twin {
        let list = m.outgoing[b];
        lemma_no_match_where_none(m, list, a, 0);
        assert(n.outgoing[b] =~= list.push(he2));
        assert forall|i: int| 0 <= i < n.outgoing[b].len() && (#[trigger] n.end_of(n.outgoing[b][i])) == Some(a) implies n.outgoing[b][i] == he2 by {
            let x = n.outgoing[b][i];
            if x != he1 && x != he2 {
                assert(i < list.len());
                assert(m.end_of(list[i]) != Some(a));
            }
        }
        lemma_first_edge_unique(n, n.outgoing[b], a, 0, he2, list.len() as int);
    } else {
        let list = m.outgoing[b];
        assert(n.outgoing[b] =~= list);
        assert forall|i: int| 0 <= i < list.len() implies ((#[trigger] m.end_of(list[i])) == Some(a)) == (n.end_of(list[i]) == Some(a)) by {
            let x = list[i];
            if x == he1 && x != he2 {
                if edge.new_start_to_end {
                    assert(m.end_of(x) is None);
                } else {
                    assert(m.end_of(x) == Some(b));
                }
            }
        }
        lemma_first_edge_stable(m, n, list, a, 0);
    }
}

/// Looking an edge up again gives the same edge.
///
/// Between two distinct live vertices `a` and `b`: after `insert_or_get_edge(a, b)` has
/// returned `first`, a second call with the same vertices returns the same two
/// halfedges and makes none; a third call with the vertices swapped returns the same
/// two with their roles swapped, and makes none either. The set of live halfedges is
/// the same after the first, the second and the third call.
#[verifier::rlimit(50)]
pub proof fn lemma_edge_lookup_idempotent(
    m: MeshModel,
    a: VertexId,
    b: VertexId,
    first: InsertOrGetEdge,
    second: InsertOrGetEdge,
    third: InsertOrGetEdge,
)
    requires
        m.wf(),
        m.vertices.dom().contains(a),
        m.vertices.dom().contains(b),
        a != b,
        m.edge_found_or_made(a, b, first),
        m.with_edge(a, b, first).edge_found_or_made(a, b, second),
        m.with_edge(a, b, first).with_edge(a, b, second).edge_found_or_made(b, a, third),
    ensures
        !second.new_start_to_end,
        !second.new_twin,
        second.start_to_end_he_id == first.start_to_end_he_id,
        second.twin_he_id == first.twin_he_id,
        !third.new_start_to_end,
        !third.new_twin,
        third.start_to_end_he_id == first.twin_he_id,
        third.twin_he_id == first.start_to_end_he_id,
        m.with_edge(a, b, first).with_edge(a, b, second).halfedges.dom() == m.with_edge(a, b, first).halfedges.dom(),
        m.with_edge(a, b, first).with_edge(a, b, second).with_edge(b, a, third).halfedges.dom() == m.with_edge(a, b, first).halfedges.dom(),
{
    let m1 = m.with_edge(a, b, first);
    lemma_lookup_after_edge(m, a, b, first);
    let m2 = m1.with_edge(a, b, second);
    lemma_lookup_after_edge(m1, a, b, second);
    assert(m2.halfedges.dom() =~= m1.halfedges.dom());
    let m3 = m2.with_edge(b, a, third);
    lemma_lookup_after_edge(m2, b, a, third);
    assert(m3.halfedges.dom() =~= m1.halfedges.dom());
}

/// A face is attached to the same side of an edge, whichever of the two halfedges of
/// the edge is given.
///
/// Where `he` and `twin` are twins of each other and at least one of them has a face,
/// the free side of the edge is the same from either.
pub proof fn lemma_attach_side_symmetric(m: MeshModel, he: HalfedgeId, twin: HalfedgeId)
    requires
        m.twin_of(he) == Some(twin),
        m.twin_of(twin) == Some(he),
        m.face_of(he) is Some || m.face_of(twin) is Some,
    ensures
        m.boundary_of(he) == m.boundary_of(twin),
        m.attach_base(he) == m.attach_base(twin),
{
}

/// Two boundary edges are bridged by the same triangle, whichever of the two halfedges
/// of each edge is given.
///
/// Where each halfedge and its twin are twins of each other and at least one of each
/// pair has a face, the plan for the bridge is the same from the halfedges and from
/// their twins.
pub proof fn lemma_bridge_symmetric(m: MeshModel, he1: HalfedgeId, twin1: HalfedgeId, he2: HalfedgeId, twin2: HalfedgeId)
    requires
        m.twin_of(he1) == Some(twin1),
        m.twin_of(twin1) == Some(he1),
        m.face_of(he1) is Some || m.face_of(twin1) is Some,
        m.twin_of(he2) == Some(twin2),
        m.twin_of(twin2) == Some(he2),
        m.face_of(he2) is Some || m.face_of(twin2) is Some,
    ensures
        m.bridge_plan(he1, he2) == m.bridge_plan(twin1, twin2),
{
}

} // verus!
