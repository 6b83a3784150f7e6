//! Identifiers of vertices, halfedges and faces.
//!
//! An identifier is a generational arena key in its 64-bit form: the low 32 bits name a
//! slot, the high 32 bits hold the generation of that slot. Keys handed out by an arena
//! always carry an odd generation. Two identifiers are the same exactly when their raw
//! values are equal.

use vstd::prelude::*;

verus! {

/// The lowest bit of the generation half, set in every key that an arena hands out.
pub const GENERATION_ODD_BIT: u64 = 0x1_0000_0000;

/// Mask of the slot half of a raw key.
pub const SLOT_MASK: u64 = 0xFFFF_FFFF;

/// Raw value of the reserved placeholder key: the last slot in its first generation.
pub const NULL_RAW: u64 = 0x1_FFFF_FFFF;

/// Whether `raw` has the form of a key that an arena can hold or hand out.
pub open spec fn raw_is_canonical(raw: u64) -> bool {
    raw & GENERATION_ODD_BIT != 0
}

/// The slot that `raw` names.
pub open spec fn raw_slot(raw: u64) -> u64 {
    raw & SLOT_MASK
}

/// Names one vertex of a mesh.
#[derive(Clone, Copy, Debug, PartialEq, Eq, Structural, Hash)]
pub struct VertexId {
    pub raw: u64,
}

/// Names one halfedge of a mesh.
#[derive(Clone, Copy, Debug, PartialEq, Eq, Structural, Hash)]
pub struct HalfedgeId {
    pub raw: u64,
}

/// Names one face of a mesh.
#[derive(Clone, Copy, Debug, PartialEq, Eq, Structural, Hash)]
pub struct FaceId {
    pub raw: u64,
}

/// Names one polyline of a plane slice.
#[derive(Clone, Copy, Debug, PartialEq, Eq, Structural, Hash)]
pub struct PolygonId {
    pub raw: u64,
}

impl PolygonId {
    pub open spec fn canonical(self) -> bool {
        raw_is_canonical(self.raw)
    }

    pub open spec fn slot(self) -> u64 {
        raw_slot(self.raw)
    }

    pub fn is_canonical(&self) -> (r: bool)
        ensures
            r == self.canonical(),
    {
        self.raw & GENERATION_ODD_BIT != 0
    }
}

impl VertexId {
    /// The placeholder that never names a vertex.
    pub open spec fn null() -> Self {
        VertexId { raw: NULL_RAW }
    }

    pub open spec fn canonical(self) -> bool {
        raw_is_canonical(self.raw)
    }

    pub open spec fn slot(self) -> u64 {
        raw_slot(self.raw)
    }

    pub fn is_canonical(&self) -> (r: bool)
        ensures
            r == self.canonical(),
    {
        self.raw & GENERATION_ODD_BIT != 0
    }

    /// Whether this is the placeholder.
    pub fn is_null(&self) -> (r: bool)
        ensures
            r == (*self == Self::null()),
    {
        self.raw == NULL_RAW
    }
}

impl Default for VertexId {
    fn default() -> (r: Self)
        ensures
            r == VertexId::null(),
    {
        VertexId { raw: NULL_RAW }
    }
}

impl HalfedgeId {
    /// The placeholder that never names a halfedge.
    pub open spec fn null() -> Self {
        HalfedgeId { raw: NULL_RAW }
    }

    pub open spec fn canonical(self) -> bool {
        raw_is_canonical(self.raw)
    }

    pub open spec fn slot(self) -> u64 {
        raw_slot(self.raw)
    }

    pub fn is_canonical(&self) -> (r: bool)
        ensures
            r == self.canonical(),
    {
        self.raw & GENERATION_ODD_BIT != 0
    }

    /// Whether this is the placeholder.
    pub fn is_null(&self) -> (r: bool)
        ensures
            r == (*self == Self::null()),
    {
        self.raw == NULL_RAW
    }
}

impl Default for HalfedgeId {
    fn default() -> (r: Self)
        ensures
            r == HalfedgeId::null(),
    {
        HalfedgeId { raw: NULL_RAW }
    }
}

impl FaceId {
    /// The placeholder that never names a face.
    pub open spec fn null() -> Self {
        FaceId { raw: NULL_RAW }
    }

    pub open spec fn canonical(self) -> bool {
        raw_is_canonical(self.raw)
    }

    pub open spec fn slot(self) -> u64 {
        raw_slot(self.raw)
    }

    pub fn is_canonical(&self) -> (r: bool)
        ensures
            r == self.canonical(),
    {
        self.raw & GENERATION_ODD_BIT != 0
    }

    /// Whether this is the placeholder.
    pub fn is_null(&self) -> (r: bool)
        ensures
            r == (*self == Self::null()),
    {
        self.raw == NULL_RAW
    }
}

impl Default for FaceId {
    fn default() -> (r: Self)
        ensures
            r == FaceId::null(),
    {
        FaceId { raw: NULL_RAW }
    }
}

} // verus!
