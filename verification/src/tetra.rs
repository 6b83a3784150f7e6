//! The surface of a tetrahedralization.
//!
//! A tetrahedron has four faces. A face that two tetrahedra share lies inside the solid;
//! a face that belongs to one tetrahedron only lies on its surface. The faces are
//! counted in a hash map of the `hashbrown` crate, by their three corners in ascending
//! order. Verus does not look inside the map: what it holds is named by a specification
//! function, and every operation on it is a small function whose contract is taken
//! from the hash map's documentation and is not proved here.

use vstd::prelude::*;

verus! {

/// A `hashbrown::HashMap` from faces to counts.
#[verifier::external_body]
pub struct FaceTally {
    map: hashbrown::HashMap<(usize, usize, usize), (usize, usize)>,
}

/// The entries that a tally holds.
pub uninterp spec fn tally_entries(tally: FaceTally) -> Map<(usize, usize, usize), (usize, usize)>;

impl FaceTally {
    /// `HashMap::new`: the new tally holds nothing.
    #[verifier::external_body]
    pub(crate) fn new() -> (created: Self)
        ensures
            tally_entries(created) == (Map::<(usize, usize, usize), (usize, usize)>::empty()),
    {
        FaceTally { map: hashbrown::HashMap::new() }
    }

    /// `HashMap::get`, copied: the entry stored for `face`, if there is one.
    #[verifier::external_body]
    pub(crate) fn get(&self, face: (usize, usize, usize)) -> (found: Option<(usize, usize)>)
        ensures
            found == (if tally_entries(*self).dom().contains(face) {
                Some(tally_entries(*self)[face])
            } else {
                None
            }),
    {
        self.map.get(&face).copied()
    }

    /// `HashMap::insert`: stores `entry` for `face`, over an earlier entry if there is
    /// one.
    #[verifier::external_body]
    pub(crate) fn insert(&mut self, face: (usize, usize, usize), entry: (usize, usize))
        ensures
            tally_entries(*final(self)) == tally_entries(*old(self)).insert(face, entry),
    {
        self.map.insert(face, entry);
    }

    /// `HashMap::iter`, collected: every entry of the tally, each face once, and nothing
    /// else, in the order the hash map walks them, which is not stated.
    #[verifier::external_body]
    pub(crate) fn entries(&self) -> (entries: Vec<((usize, usize, usize), (usize, usize))>)
        ensures
            forall|i: int| 0 <= i < entries@.len() ==> tally_entries(*self).dom().contains((#[trigger] entries@[i]).0) && tally_entries(*self)[entries@[i].0]
                == entries@[i].1,
            forall|face: (usize, usize, usize)| #[trigger] tally_entries(*self).dom().contains(face) ==> exists|i: int| 0 <= i < entries@.len() && (#[trigger] entries@[i]).0 == face,
            forall|i: int, j: int| 0 <= i < j < entries@.len() ==> (#[trigger] entries@[i]).0 != (#[trigger] entries@[j]).0,
    {
        self.map.iter().map(|(face, entry)| (*face, *entry)).collect()
    }
}

/// A face on the surface of a tetrahedralization.
#[derive(Clone, Copy, Debug)]
pub struct BoundaryFace {
    /// The three corners, in ascending order.
    pub corners: (usize, usize, usize),
    /// The tetrahedron that the face belongs to, by its place in the list.
    pub cell: usize,
}

/// The smaller of two numbers.
pub open spec fn lower(a: usize, b: usize) -> usize {
    if a <= b {
        a
    } else {
        b
    }
}

/// The larger of two numbers.
pub open spec fn upper(a: usize, b: usize) -> usize {
    if a <= b {
        b
    } else {
        a
    }
}

/// The four corners of a tetrahedron in ascending order, by five exchanges.
pub open spec fn ascending(cell: Seq<usize>) -> Seq<usize> {
    let a0 = lower(cell[0], cell[1]);
    let b0 = upper(cell[0], cell[1]);
    let c0 = lower(cell[2], cell[3]);
    let d0 = upper(cell[2], cell[3]);
    let a1 = lower(a0, c0);
    let c1 = upper(a0, c0);
    let b1 = lower(b0, d0);
    let d1 = upper(b0, d0);
    seq![a1, lower(b1, c1), upper(b1, c1), d1]
}

/// The four faces of a tetrahedron, each by its corners in ascending order.
pub open spec fn faces_of(cell: Seq<usize>) -> Seq<(usize, usize, usize)> {
    let s = ascending(cell);
    seq![(s[0], s[1], s[2]), (s[0], s[1], s[3]), (s[0], s[2], s[3]), (s[1], s[2], s[3])]
}

/// How many of the first `k` of `faces` are `face`.
pub open spec fn matches(faces: Seq<(usize, usize, usize)>, face: (usize, usize, usize), k: nat) -> nat
    decreases k,
{
    if k == 0 {
        0
    } else {
        matches(faces, face, (k - 1) as nat) + (if faces[k - 1] == face {
            1nat
        } else {
            0nat
        })
    }
}

/// How often `face` occurs as a face of the first `n` tetrahedra.
pub open spec fn occurrences(cells: Seq<[usize; 4]>, face: (usize, usize, usize), n: nat) -> nat
    decreases n,
{
    if n == 0 {
        0
    } else {
        occurrences(cells, face, (n - 1) as nat) + matches(faces_of(cells[n - 1]@), face, 4)
    }
}

/// The four corners of a tetrahedron in ascending order.
pub fn sort_corners(cell: &[usize; 4]) -> (sorted: [usize; 4])
    ensures
        sorted@ == ascending(cell@),
        sorted@[0] <= sorted@[1] <= sorted@[2] <= sorted@[3],
{
    let (a0, b0) = if cell[0] <= cell[1] {
        (cell[0], cell[1])
    } else {
        (cell[1], cell[0])
    };
    let (c0, d0) = if cell[2] <= cell[3] {
        (cell[2], cell[3])
    } else {
        (cell[3], cell[2])
    };
    let (a1, c1) = if a0 <= c0 {
        (a0, c0)
    } else {
        (c0, a0)
    };
    let (b1, d1) = if b0 <= d0 {
        (b0, d0)
    } else {
        (d0, b0)
    };
    let (b2, c2) = if b1 <= c1 {
        (b1, c1)
    } else {
        (c1, b1)
    };
    let sorted = [a1, b2, c2, d1];
    proof {
        assert(sorted@ =~= ascending(cell@));
    }
    sorted
}

/// Whether `tally` holds the count of every face of the first `n` tetrahedra, with
/// `extra` more occurrences of the first `k` of `faces`, and for every face a
/// tetrahedron before `bound` that it is a face of.
pub open spec fn counted(
    tally: Map<(usize, usize, usize), (usize, usize)>,
    cells: Seq<[usize; 4]>,
    n: nat,
    faces: Seq<(usize, usize, usize)>,
    k: nat,
    bound: nat,
) -> bool {
    forall|face: (usize, usize, usize)|
        {
            let total = occurrences(cells, face, n) + matches(faces, face, k);
            &&& #[trigger] tally.dom().contains(face) == (total > 0)
            &&& tally.dom().contains(face) ==> tally[face].0 == total && tally[face].1 < bound && exists|q: int| 0 <= q < 4 && #[trigger] faces_of(
                cells[tally[face].1 as int]@,
            )[q] == face
        }
}

/// The faces on the surface of a tetrahedralization: the faces that belong to exactly
/// one of the tetrahedra, each once, with the tetrahedron it belongs to, in no stated
/// order. A tetrahedron is given by its four corners.
#[verifier::rlimit(50)]
pub fn boundary_faces_of_tetrahedra(cells: &Vec<[usize; 4]>) -> (surface: Vec<BoundaryFace>)
    requires
        4 * cells@.len() <= usize::MAX,
    ensures
        forall|i: int| 0 <= i < surface@.len() ==> {
            let face = #[trigger] surface@[i];
            &&& occurrences(cells@, face.corners, cells@.len()) == 1
            &&& face.cell < cells@.len()
            &&& exists|q: int| 0 <= q < 4 && #[trigger] faces_of(cells@[face.cell as int]@)[q] == face.corners
        },
        forall|i: int, j: int| 0 <= i < j < surface@.len() ==> (#[trigger] surface@[i]).corners != (#[trigger] surface@[j]).corners,
        forall|face: (usize, usize, usize)| #[trigger] occurrences(cells@, face, cells@.len()) == 1 ==> exists|i: int| 0 <= i < surface@.len() && (#[trigger] surface@[i]).corners
                == face,
{
    let mut tally = FaceTally::new();
    let mut i: usize = 0;
    while i < cells.len()
        invariant
            i <= cells.len(),
            4 * cells@.len() <= usize::MAX,
            counted(tally_entries(tally), cells@, i as nat, Seq::empty(), 0, i as nat),
            forall|face: (usize, usize, usize)| #[trigger] occurrences(cells@, face, i as nat) <= 4 * i,
        decreases cells.len() - i,
    {
        let s = sort_corners(&cells[i]);
        let faces: [(usize, usize, usize); 4] = [(s[0], s[1], s[2]), (s[0], s[1], s[3]), (s[0], s[2], s[3]), (s[1], s[2], s[3])];
        proof {
            assert(faces@ =~= faces_of(cells@[i as int]@));
        }
        let mut k: usize = 0;
        while k < 4
            invariant
                k <= 4,
                i < cells.len(),
                4 * cells@.len() <= usize::MAX,
                faces@ == faces_of(cells@[i as int]@),
                counted(tally_entries(tally), cells@, i as nat, faces@, k as nat, (i + 1) as nat),
                forall|face: (usize, usize, usize)| #[trigger] occurrences(cells@, face, i as nat) <= 4 * i,
                forall|face: (usize, usize, usize)| #[trigger] matches(faces@, face, k as nat) <= k,
            decreases 4 - k,
        {
            let face = faces[k];
            let ghost before = tally_entries(tally);
            let seen = match tally.get(face) {
                Some(entry) => entry.0,
                None => 0,
            };
            proof {
                assert(seen == occurrences(cells@, face, i as nat) + matches(faces@, face, k as nat));
                assert(occurrences(cells@, face, i as nat) <= 4 * i);
                assert(matches(faces@, face, k as nat) <= k);
            }
            tally.insert(face, (seen + 1, i));
            k = k + 1;
            proof {
                assert forall|other: (usize, usize, usize)| #[trigger] matches(faces@, other, k as nat) <= k by {
                    assert(matches(faces@, other, (k - 1) as nat) <= k - 1);
                }
                assert forall|other: (usize, usize, usize)|
                    {
                        let total = occurrences(cells@, other, i as nat) + matches(faces@, other, k as nat);
                        &&& #[trigger] tally_entries(tally).dom().contains(other) == (total > 0)
                        &&& tally_entries(tally).dom().contains(other) ==> tally_entries(tally)[other].0 == total && tally_entries(tally)[other].1 < i + 1
                            && exists|q: int| 0 <= q < 4 && #[trigger] faces_of(cells@[tally_entries(tally)[other].1 as int]@)[q] == other
                    } by {
                    let earlier = occurrences(cells@, other, i as nat) + matches(faces@, other, (k - 1) as nat);
                    assert(matches(faces@, other, k as nat) == matches(faces@, other, (k - 1) as nat) + (if faces@[k - 1] == other {
                        1nat
                    } else {
                        0nat
                    }));
                    assert(before.dom().contains(other) == (earlier > 0));
                    if other == face {
                        assert(faces_of(cells@[i as int]@)[k - 1] == face);
                        assert(tally_entries(tally)[other].1 == i);
                    } else {
                        assert(before.dom().contains(other) == tally_entries(tally).dom().contains(other));
                        if before.dom().contains(other) {
                            assert(tally_entries(tally)[other] == before[other]);
                            let q = choose|q: int| 0 <= q < 4 && #[trigger] faces_of(cells@[before[other].1 as int]@)[q] == other;
                            assert(faces_of(cells@[tally_entries(tally)[other].1 as int]@)[q] == other);
                        }
                    }
                }
            }
        }
        proof {
            assert forall|face: (usize, usize, usize)| #[trigger] occurrences(cells@, face, (i + 1) as nat) <= 4 * (i + 1) by {
                assert(matches(faces@, face, 4) <= 4);
                assert(occurrences(cells@, face, i as nat) <= 4 * i);
            }
            assert(counted(tally_entries(tally), cells@, (i + 1) as nat, Seq::empty(), 0, (i + 1) as nat)) by {
                assert forall|face: (usize, usize, usize)|
                    {
                        let total = occurrences(cells@, face, (i + 1) as nat) + matches(Seq::<(usize, usize, usize)>::empty(), face, 0);
                        &&& #[trigger] tally_entries(tally).dom().contains(face) == (total > 0)
                        &&& tally_entries(tally).dom().contains(face) ==> tally_entries(tally)[face].0 == total && tally_entries(tally)[face].1 < i + 1
                            && exists|q: int| 0 <= q < 4 && #[trigger] faces_of(cells@[tally_entries(tally)[face].1 as int]@)[q] == face
                    } by {
                    assert(occurrences(cells@, face, (i + 1) as nat) == occurrences(cells@, face, i as nat) + matches(faces@, face, 4));
                }
            }
        }
        i = i + 1;
    }
    let entries = tally.entries();
    let mut surface: Vec<BoundaryFace> = Vec::new();
    let ghost mut picked: Seq<int> = Seq::empty();
    let mut e: usize = 0;
    while e < entries.len()
        invariant
            e <= entries.len(),
            i == cells.len(),
            counted(tally_entries(tally), cells@, cells@.len(), Seq::empty(), 0, cells@.len()),
            forall|x: int| 0 <= x < entries@.len() ==> tally_entries(tally).dom().contains((#[trigger] entries@[x]).0) && tally_entries(tally)[entries@[x].0]
                == entries@[x].1,
            forall|x: int, y: int| 0 <= x < y < entries@.len() ==> (#[trigger] entries@[x]).0 != (#[trigger] entries@[y]).0,
            picked.len() == surface@.len(),
            forall|x: int| 0 <= x < surface@.len() ==> 0 <= #[trigger] picked[x] < e && surface@[x].corners == entries@[picked[x]].0 && surface@[x].cell
                == entries@[picked[x]].1.1 && entries@[picked[x]].1.0 == 1,
            forall|x: int, y: int| 0 <= x < y < surface@.len() ==> picked[x] < picked[y],
            forall|x: int| 0 <= x < e && (#[trigger] entries@[x]).1.0 == 1 ==> exists|y: int| 0 <= y < surface@.len() && picked[y] == x,
        decreases entries.len() - e,
    {
        let (face, entry) = entries[e];
        if entry.0 == 1 {
            surface.push(BoundaryFace { corners: face, cell: entry.1 });
            proof {
                let ghost earlier = picked;
                picked = picked.push(e as int);
                assert forall|x: int| 0 <= x < e + 1 && (#[trigger] entries@[x]).1.0 == 1 implies exists|y: int| 0 <= y < surface@.len() && picked[y] == x by {
                    if x < e {
                        let y = choose|y: int| 0 <= y < earlier.len() && earlier[y] == x;
                        assert(picked[y] == x);
                    } else {
                        assert(picked[surface@.len() - 1] == x);
                    }
                }
            }
        }
        e = e + 1;
    }
    proof {
        assert forall|x: int| 0 <= x < surface@.len() implies {
            let face = #[trigger] surface@[x];
            &&& occurrences(cells@, face.corners, cells@.len()) == 1
            &&& face.cell < cells@.len()
            &&& exists|q: int| 0 <= q < 4 && #[trigger] faces_of(cells@[face.cell as int]@)[q] == face.corners
        } by {
            let at = picked[x];
            assert(tally_entries(tally).dom().contains(entries@[at].0));
        }
        assert forall|x: int, y: int| 0 <= x < y < surface@.len() implies (#[trigger] surface@[x]).corners != (#[trigger] surface@[y]).corners by {
            assert(picked[x] < picked[y]);
            assert(entries@[picked[x]].0 != entries@[picked[y]].0);
        }
        assert forall|face: (usize, usize, usize)| #[trigger] occurrences(cells@, face, cells@.len()) == 1 implies exists|x: int| 0 <= x < surface@.len() && (#[trigger] surface@[x]).corners
            == face by {
            assert(tally_entries(tally).dom().contains(face));
            let at = choose|at: int| 0 <= at < entries@.len() && (#[trigger] entries@[at]).0 == face;
            assert(entries@[at].1.0 == 1);
            let y = choose|y: int| 0 <= y < surface@.len() && picked[y] == at;
            assert(surface@[y].corners == face);
        }
    }
    surface
}

} // verus!
