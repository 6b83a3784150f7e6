//! The spatial index.
//!
//! A bounding-volume hierarchy of the `parry3d` crate over the faces' bounding boxes,
//! one leaf per face slot, with the scratch space that its updates reuse. Verus does not
//! look inside the hierarchy. What is stated of it is what its leaves hold: for every
//! slot that has a leaf, the box that was filed under it. How the hierarchy arranges its
//! leaves has no name here.

use vstd::prelude::*;

verus! {

/// `parry3d::partitioning::Bvh`: the bounding-volume hierarchy.
#[verifier::external_type_specification]
#[verifier::external_body]
pub struct ExBvh(parry3d::partitioning::Bvh);

/// `parry3d::partitioning::BvhWorkspace`: scratch space for updates of the hierarchy.
#[verifier::external_type_specification]
#[verifier::external_body]
pub struct ExBvhWorkspace(parry3d::partitioning::BvhWorkspace);

/// `parry3d::bounding_volume::Aabb`: a box with sides along the axes.
#[verifier::external_type_specification]
#[verifier::external_body]
pub struct ExAabb(parry3d::bounding_volume::Aabb);

/// What the leaves of a hierarchy hold: for every key that has a leaf, the box of the
/// leaf.
pub uninterp spec fn hierarchy_leaves(bvh: parry3d::partitioning::Bvh) -> Map<u32, parry3d::bounding_volume::Aabb>;

/// What `Aabb::from_points` returns for the three points `a`, `b`, `c`.
pub uninterp spec fn triangle_box(a: glam::Vec3, b: glam::Vec3, c: glam::Vec3) -> parry3d::bounding_volume::Aabb;

/// The hierarchy with its scratch space.
pub struct SpatialIndex {
    pub(crate) bvh: parry3d::partitioning::Bvh,
    pub(crate) workspace: parry3d::partitioning::BvhWorkspace,
}

/// The corners of one triangle and the slot it is filed under.
pub struct SlotTriangle {
    pub slot: u32,
    pub a: glam::Vec3,
    pub b: glam::Vec3,
    pub c: glam::Vec3,
}

/// The leaves that filing the first `n` of the triangles, one after the other, makes:
/// each under its slot, a later one in place of an earlier one of the same slot.
pub open spec fn filed_from(triangles: Seq<SlotTriangle>, n: nat) -> Map<u32, parry3d::bounding_volume::Aabb>
    decreases n,
{
    if n == 0 || n > triangles.len() {
        Map::empty()
    } else {
        filed_from(triangles, (n - 1) as nat).insert(triangles[n - 1].slot, triangle_box(triangles[n - 1].a, triangles[n - 1].b, triangles[n - 1].c))
    }
}

/// `Bvh::new`: a hierarchy without leaves.
#[verifier::external_body]
pub(crate) fn empty_hierarchy() -> (bvh: parry3d::partitioning::Bvh)
    ensures
        hierarchy_leaves(bvh) == (Map::<u32, parry3d::bounding_volume::Aabb>::empty()),
{
    parry3d::partitioning::Bvh::new()
}

/// `BvhWorkspace::default`: fresh scratch space. Nothing is stated.
#[verifier::external_body]
pub(crate) fn empty_workspace() -> parry3d::partitioning::BvhWorkspace {
    Default::default()
}

/// `Aabb::from_points` on three points: the box round them. The result is named, not
/// described.
#[verifier::external_body]
pub(crate) fn box_round(a: &glam::Vec3, b: &glam::Vec3, c: &glam::Vec3) -> (bounds: parry3d::bounding_volume::Aabb)
    ensures
        bounds == triangle_box(*a, *b, *c),
{
    parry3d::bounding_volume::Aabb::from_points([*a, *b, *c])
}

/// `Bvh::insert_or_update_partially` without margin: the leaf of `slot` holds `bounds`
/// afterwards, whether there was one or not; the other leaves are as they were.
#[verifier::external_body]
pub(crate) fn insert_or_update_leaf(bvh: &mut parry3d::partitioning::Bvh, slot: u32, bounds: parry3d::bounding_volume::Aabb)
    ensures
        hierarchy_leaves(*final(bvh)) == hierarchy_leaves(*old(bvh)).insert(slot, bounds),
{
    let _ = bvh.insert_or_update_partially(bounds, slot, Default::default());
}

/// `Bvh::remove`: the leaf of `slot` is gone, if there was one; the other leaves are
/// as they were.
#[verifier::external_body]
pub(crate) fn remove_leaf(bvh: &mut parry3d::partitioning::Bvh, slot: u32)
    ensures
        hierarchy_leaves(*final(bvh)) == hierarchy_leaves(*old(bvh)).remove(slot),
{
    bvh.remove(slot);
}

/// `Bvh::refit`: recomputes the inner boxes and packs the nodes. The leaves are as
/// they were.
#[verifier::external_body]
pub(crate) fn refit_hierarchy(bvh: &mut parry3d::partitioning::Bvh, workspace: &mut parry3d::partitioning::BvhWorkspace)
    ensures
        hierarchy_leaves(*final(bvh)) == hierarchy_leaves(*old(bvh)),
{
    bvh.refit(workspace);
}

/// `Bvh::optimize_incremental`: one round of local rebalancing. The leaves are as they
/// were.
#[verifier::external_body]
pub(crate) fn optimize_hierarchy(bvh: &mut parry3d::partitioning::Bvh, workspace: &mut parry3d::partitioning::BvhWorkspace)
    ensures
        hierarchy_leaves(*final(bvh)) == hierarchy_leaves(*old(bvh)),
{
    bvh.optimize_incremental(workspace);
}

impl SpatialIndex {
    /// What is filed in the index: for every slot that has a leaf, its box.
    pub open(crate) spec fn leaves(&self) -> Map<u32, parry3d::bounding_volume::Aabb> {
        hierarchy_leaves(self.bvh)
    }

    /// An empty index.
    pub(crate) fn new() -> (created: Self)
        ensures
            created.leaves() == (Map::<u32, parry3d::bounding_volume::Aabb>::empty()),
    {
        SpatialIndex { bvh: empty_hierarchy(), workspace: empty_workspace() }
    }

    /// Files the bounding box of a triangle under `slot`, in place of the box that was
    /// filed there.
    pub(crate) fn insert_or_update(&mut self, slot: u32, a: &glam::Vec3, b: &glam::Vec3, c: &glam::Vec3)
        ensures
            final(self).leaves() == old(self).leaves().insert(slot, triangle_box(*a, *b, *c)),
    {
        let bounds = box_round(a, b, c);
        insert_or_update_leaf(&mut self.bvh, slot, bounds);
    }

    /// Takes what is filed under `slot` out of the index.
    pub(crate) fn remove(&mut self, slot: u32)
        ensures
            final(self).leaves() == old(self).leaves().remove(slot),
    {
        remove_leaf(&mut self.bvh, slot);
    }

    /// Recomputes the inner boxes of the index. What is filed stays.
    pub(crate) fn refit(&mut self)
        ensures
            final(self).leaves() == old(self).leaves(),
    {
        refit_hierarchy(&mut self.bvh, &mut self.workspace);
    }

    /// One round of rebalancing. What is filed stays.
    pub(crate) fn optimize(&mut self)
        ensures
            final(self).leaves() == old(self).leaves(),
    {
        optimize_hierarchy(&mut self.bvh, &mut self.workspace);
    }

    /// Replaces the index by one over the given triangles: an empty hierarchy, in which
    /// the triangles are filed one after the other, and which is refitted then.
    pub(crate) fn rebuild(&mut self, triangles: Vec<SlotTriangle>)
        ensures
            final(self).leaves() == filed_from(triangles@, triangles@.len()),
    {
        self.bvh = empty_hierarchy();
        let mut i: usize = 0;
        while i < triangles.len()
            invariant
                i <= triangles.len(),
                self.leaves() == filed_from(triangles@, i as nat),
            decreases triangles.len() - i,
        {
            let bounds = box_round(&triangles[i].a, &triangles[i].b, &triangles[i].c);
            insert_or_update_leaf(&mut self.bvh, triangles[i].slot, bounds);
            i = i + 1;
        }
        refit_hierarchy(&mut self.bvh, &mut self.workspace);
    }
}

} // verus!
