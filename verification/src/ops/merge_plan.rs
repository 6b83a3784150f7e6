//! Planning the triangles that stitch two rings of vertices together.
//!
//! The two rings are walked side by side. Where they hold different numbers of vertices,
//! a line-drawing scheme with an error term spreads the vertices of the longer side over
//! those of the shorter one: each vertex of the shorter side becomes the apex of a fan
//! over a run of the longer side, and the runs follow one another without a gap.

use vstd::prelude::*;
use crate::ids::VertexId;

verus! {

/// A run of positions in a ring, both ends included. A position past the length of the
/// ring stands for the position it wraps round to.
#[derive(Clone, Copy, Debug, PartialEq, Eq, Structural)]
pub struct IndexRange {
    pub start: usize,
    pub end: usize,
}

impl IndexRange {
    /// The number of positions in the run.
    pub open spec fn count(self) -> nat {
        if self.start <= self.end {
            (self.end - self.start + 1) as nat
        } else {
            0
        }
    }

    /// The run without its first and its last position.
    pub open spec fn inner(self) -> IndexRange {
        if self.end >= 1 && self.start < usize::MAX {
            IndexRange { start: (self.start + 1) as usize, end: (self.end - 1) as usize }
        } else {
            IndexRange { start: 1, end: 0 }
        }
    }

    /// The run without its first and its last position.
    pub fn without_ends(&self) -> (inner: IndexRange)
        ensures
            inner == self.inner(),
    {
        if self.end >= 1 && self.start < usize::MAX {
            IndexRange { start: self.start + 1, end: self.end - 1 }
        } else {
            IndexRange { start: 1, end: 0 }
        }
    }
}

/// Two runs, one in each ring, that are to be joined by faces.
#[derive(Clone, Copy, Debug)]
pub struct ConnectPair {
    /// Whether the first and the last position of the two runs name the same vertex, so
    /// that the runs close a polygon.
    pub closed: bool,
    /// The run in the first ring and the run in the second.
    pub ranges: [IndexRange; 2],
}

/// One vertex of one ring, paired with a run of the other ring.
#[derive(Clone, Copy, Debug, PartialEq, Eq, Structural)]
pub struct Pairing {
    /// The ring of the single vertex: 0 or 1.
    pub single_range_idx: usize,
    /// The position of the single vertex in its ring.
    pub single_idx_in_range: usize,
    /// The run of the other ring that is paired with the single vertex.
    pub other_range: IndexRange,
}

/// A triangle that is to be built, by its corners.
#[derive(Clone, Copy, Debug)]
pub struct PlannedFace(pub [VertexId; 3]);

/// The corners of each of the planned triangles.
pub open spec fn corners_of(faces: Seq<PlannedFace>) -> Seq<Seq<VertexId>> {
    Seq::new(faces.len(), |k: int| faces[k].0@)
}

/// The run from `start` to `end` in a ring of `len` positions: where the run wraps
/// round, its end is moved one turn on.
pub open spec fn unwrapped(start: usize, end: usize, len: usize) -> IndexRange {
    if end < start {
        IndexRange { start, end: (end + len) as usize }
    } else {
        IndexRange { start, end }
    }
}

/// Whether the step that has brought the long side to its position `step`, counted
/// from one, is the step at which the vertex `emitted` of the short side, counted from
/// nought, is paired: twice the steps taken, weighted by the length of the short side,
/// have passed the odd multiple of the length of the long side that stands for it.
pub open spec fn crossed(single_count: int, other_count: int, step: int, emitted: int) -> bool {
    2 * single_count * step > other_count * (2 * emitted + 1)
}

impl ConnectPair {
    /// The pair of the run `range1` of a ring of `len1` positions and the run `range2`
    /// of a ring of `len2`; a run that wraps round the end of its ring is unwrapped.
    pub fn new(range1: IndexRange, len1: usize, range2: IndexRange, len2: usize, closed: bool) -> (pair: ConnectPair)
        requires
            range1.end < range1.start ==> range1.end + len1 <= usize::MAX,
            range2.end < range2.start ==> range2.end + len2 <= usize::MAX,
        ensures
            pair.closed == closed,
            pair.ranges@ == seq![unwrapped(range1.start, range1.end, len1), unwrapped(range2.start, range2.end, len2)],
    {
        let first = if range1.end < range1.start {
            IndexRange { start: range1.start, end: range1.end + len1 }
        } else {
            range1
        };
        let second = if range2.end < range2.start {
            IndexRange { start: range2.start, end: range2.end + len2 }
        } else {
            range2
        };
        let pair = ConnectPair { closed, ranges: [first, second] };
        proof {
            assert(pair.ranges@ =~= seq![unwrapped(range1.start, range1.end, len1), unwrapped(range2.start, range2.end, len2)]);
        }
        pair
    }

    /// The two runs that are paired up: those of the pair, without their ends where the
    /// pair is closed.
    pub open spec fn working_ranges(self) -> (IndexRange, IndexRange) {
        if self.closed {
            (self.ranges[0].inner(), self.ranges[1].inner())
        } else {
            (self.ranges[0], self.ranges[1])
        }
    }

    /// The ring whose run is the shorter one: the second where the first run is longer,
    /// else the first.
    pub open spec fn single_side(self) -> usize {
        if self.working_ranges().0.count() > self.working_ranges().1.count() {
            1
        } else {
            0
        }
    }

    /// The shorter run.
    pub open spec fn single_range(self) -> IndexRange {
        if self.single_side() == 1 {
            self.working_ranges().1
        } else {
            self.working_ranges().0
        }
    }

    /// The longer run.
    pub open spec fn other_range(self) -> IndexRange {
        if self.single_side() == 1 {
            self.working_ranges().0
        } else {
            self.working_ranges().1
        }
    }

    /// Whether `pairings` spreads the longer run over the vertices of the shorter one.
    ///
    /// The single vertices follow one another from the start of the shorter run. The
    /// paired runs follow one another from the start of the longer run without gap or
    /// overlap. Each paired run ends at the first position at which its vertex is
    /// crossed, and behind the last paired run no further vertex is crossed.
    pub open spec fn spread_by(self, pairings: Seq<Pairing>) -> bool {
        let single = self.single_range();
        let other = self.other_range();
        let s = single.count() as int;
        let o = other.count() as int;
        &&& forall|k: int| 0 <= k < pairings.len() ==> {
            let p = #[trigger] pairings[k];
            &&& p.single_range_idx == self.single_side()
            &&& p.single_idx_in_range == single.start + k
            &&& p.other_range.start == (if k == 0 { other.start as int } else { pairings[k - 1].other_range.end + 1 })
            &&& p.other_range.start <= p.other_range.end <= other.end
            &&& crossed(s, o, p.other_range.end - other.start + 1, k)
            &&& forall|j: int| p.other_range.start <= j < p.other_range.end ==> !#[trigger] crossed(s, o, j - other.start + 1, k)
        }
        &&& forall|j: int| (if pairings.len() == 0 { other.start as int } else { pairings[pairings.len() - 1].other_range.end + 1 }) <= j <= other.end
                ==> !#[trigger] crossed(s, o, j - other.start + 1, pairings.len() as int)
    }

    /// The pairings that spread the longer run over the vertices of the shorter one.
    /// There is one such list and no other.
    pub open spec fn pairings(self) -> Seq<Pairing> {
        choose|pairings: Seq<Pairing>| self.spread_by(pairings)
    }

    /// Spreads the longer of the two runs over the vertices of the shorter one.
    #[verifier::rlimit(50)]
    pub fn compute_pairings(&self) -> (pairings: Vec<Pairing>)
        requires
            self.other_range().end < usize::MAX,
            self.single_range().end < usize::MAX,
        ensures
            self.spread_by(pairings@),
            pairings@ == self.pairings(),
            pairings@.len() <= self.single_range().count(),
    {
        let pairings = self.spread();
        proof {
            lemma_spread_is_unique(*self, pairings@, self.pairings());
        }
        pairings
    }

    /// Spreads the longer run over the shorter one, step by step along the longer run,
    /// with an error term that says when the next vertex of the shorter run is due.
    #[verifier::rlimit(50)]
    fn spread(&self) -> (pairings: Vec<Pairing>)
        requires
            self.other_range().end < usize::MAX,
            self.single_range().end < usize::MAX,
        ensures
            self.spread_by(pairings@),
            pairings@.len() <= self.single_range().count(),
    {
        let range1 = if self.closed {
            self.ranges[0].without_ends()
        } else {
            self.ranges[0]
        };
        let range2 = if self.closed {
            self.ranges[1].without_ends()
        } else {
            self.ranges[1]
        };
        let count1: i128 = if range1.start <= range1.end {
            (range1.end - range1.start) as i128 + 1
        } else {
            0
        };
        let count2: i128 = if range2.start <= range2.end {
            (range2.end - range2.start) as i128 + 1
        } else {
            0
        };
        let mut pairings: Vec<Pairing> = Vec::new();
        let (single_range_idx, single_count, other_count, single_range, other_range) = if count1 > count2 {
            (1usize, count2, count1, range2, range1)
        } else {
            (0usize, count1, count2, range1, range2)
        };
        proof {
            assert(single_range_idx == self.single_side());
            assert(single_range == self.single_range());
            assert(other_range == self.other_range());
            assert(single_count == single_range.count());
            assert(other_count == other_range.count());
        }
        if other_count == 0 {
            return pairings;
        }
        let mut error: i128 = 2 * single_count - other_count;
        let mut single_idx_in_range: usize = single_range.start;
        let mut other_start: usize = other_range.start;
        let mut other_end: usize = other_start;
        let ghost s = single_count as int;
        let ghost o = other_count as int;
        proof {
            assert(2 * s * (other_end - other_range.start + 1) - o * (2 * 0 + 1) == 2 * s - o) by (nonlinear_arith)
                requires
                    other_end == other_range.start,
            ;
        }
        while other_end <= other_range.end
            invariant
                single_range_idx == self.single_side(),
                single_range == self.single_range(),
                other_range == self.other_range(),
                s == single_range.count(),
                o == other_range.count(),
                0 <= s <= o,
                o > 0,
                o == other_range.end - other_range.start + 1,
                single_count == s,
                other_count == o,
                other_range.end < usize::MAX,
                single_range.end < usize::MAX,
                other_range.start <= other_start <= other_end <= other_range.end + 1,
                single_idx_in_range == single_range.start + pairings@.len(),
                pairings@.len() <= s,
                pairings@.len() <= other_end - other_range.start,
                other_start == (if pairings@.len() == 0 { other_range.start as int } else { pairings@[pairings@.len() - 1].other_range.end + 1 }),
                error == 2 * s * (other_end - other_range.start + 1) - o * (2 * pairings@.len() + 1),
                -2 * o <= error <= 2 * s,
                forall|j: int| other_start <= j < other_end ==> !#[trigger] crossed(s, o, j - other_range.start + 1, pairings@.len() as int),
                forall|k: int| 0 <= k < pairings@.len() ==> {
                    let p = #[trigger] pairings@[k];
                    &&& p.single_range_idx == self.single_side()
                    &&& p.single_idx_in_range == single_range.start + k
                    &&& p.other_range.start == (if k == 0 { other_range.start as int } else { pairings@[k - 1].other_range.end + 1 })
                    &&& p.other_range.start <= p.other_range.end <= other_range.end
                    &&& crossed(s, o, p.other_range.end - other_range.start + 1, k)
                    &&& forall|j: int| p.other_range.start <= j < p.other_range.end ==> !#[trigger] crossed(s, o, j - other_range.start + 1, k)
                },
            decreases other_range.end + 1 - other_end,
        {
            let ghost n = pairings@.len() as int;
            let ghost step = other_end - other_range.start + 1;
            if error > 0 {
                proof {
                    assert(crossed(s, o, step, n));
                    lemma_emitted_is_below_count(s, o, step, n);
                }
                pairings.push(Pairing { single_range_idx, single_idx_in_range, other_range: IndexRange { start: other_start, end: other_end } });
                other_start = other_end + 1;
                single_idx_in_range = single_idx_in_range + 1;
                error = error + 2 * (single_count - other_count);
                proof {
                    assert(2 * s * (step + 1) - o * (2 * (n + 1) + 1) == 2 * s * step - o * (2 * n + 1) + 2 * (s - o)) by (nonlinear_arith);
                }
            } else {
                proof {
                    assert(!crossed(s, o, step, n));
                    assert(2 * s * (step + 1) - o * (2 * n + 1) == 2 * s * step - o * (2 * n + 1) + 2 * s) by (nonlinear_arith);
                }
                error = error + 2 * single_count;
            }
            other_end = other_end + 1;
        }
        pairings
    }
}

/// Two lists of pairings that spread the same pair of runs are the same list.
pub proof fn lemma_spread_is_unique(pair: ConnectPair, p: Seq<Pairing>, q: Seq<Pairing>)
    requires
        pair.spread_by(p),
        pair.spread_by(q),
    ensures
        p == q,
{
    let other = pair.other_range();
    let s = pair.single_range().count() as int;
    let o = other.count() as int;
    assert forall|k: int| 0 <= k < p.len() && k < q.len() implies p[k] == q[k] by {
        lemma_spread_agrees(pair, p, q, k);
    }
    if p.len() < q.len() {
        let n = p.len() as int;
        let extra = q[n];
        if n > 0 {
            lemma_spread_agrees(pair, p, q, n - 1);
        }
        assert(crossed(s, o, extra.other_range.end - other.start + 1, n));
        assert(false);
    }
    if q.len() < p.len() {
        let n = q.len() as int;
        let extra = p[n];
        if n > 0 {
            lemma_spread_agrees(pair, p, q, n - 1);
        }
        assert(crossed(s, o, extra.other_range.end - other.start + 1, n));
        assert(false);
    }
    assert(p =~= q);
}

/// Two lists of pairings that spread the same pair of runs hold the same pairing at
/// every position that both have.
pub proof fn lemma_spread_agrees(pair: ConnectPair, p: Seq<Pairing>, q: Seq<Pairing>, k: int)
    requires
        pair.spread_by(p),
        pair.spread_by(q),
        0 <= k < p.len(),
        k < q.len(),
    ensures
        p[k] == q[k],
    decreases k,
{
    let other = pair.other_range();
    let s = pair.single_range().count() as int;
    let o = other.count() as int;
    if k > 0 {
        lemma_spread_agrees(pair, p, q, k - 1);
    }
    let a = p[k];
    let b = q[k];
    assert(a.other_range.start == b.other_range.start);
    if a.other_range.end < b.other_range.end {
        assert(!crossed(s, o, a.other_range.end - other.start + 1, k));
    }
    if b.other_range.end < a.other_range.end {
        assert(!crossed(s, o, b.other_range.end - other.start + 1, k));
    }
    assert(a.other_range == b.other_range);
}

/// A vertex of the short side can only be crossed while there is one left: the number
/// of vertices paired so far is below the length of the short side.
pub proof fn lemma_emitted_is_below_count(s: int, o: int, step: int, emitted: int)
    requires
        0 <= s <= o,
        0 <= emitted,
        1 <= step <= o,
        crossed(s, o, step, emitted),
    ensures
        emitted < s,
{
    assert(emitted < s) by (nonlinear_arith)
        requires
            0 <= s <= o,
            0 <= emitted,
            1 <= step <= o,
            2 * s * step > o * (2 * emitted + 1),
    ;
}

impl Pairing {
    /// The vertices at the given positions of a ring, each taken round the ring.
    pub open spec fn at(ring: Seq<VertexId>, position: int) -> VertexId {
        ring[position % (ring.len() as int)]
    }

    /// The ring of the single vertex.
    pub open spec fn single_ring(self, first: Seq<VertexId>, second: Seq<VertexId>) -> Seq<VertexId> {
        if self.single_range_idx == 0 {
            first
        } else {
            second
        }
    }

    /// The ring of the paired run.
    pub open spec fn other_ring(self, first: Seq<VertexId>, second: Seq<VertexId>) -> Seq<VertexId> {
        if self.single_range_idx == 0 {
            second
        } else {
            first
        }
    }

    /// The single vertex.
    pub open spec fn single_vertex(self, first: Seq<VertexId>, second: Seq<VertexId>) -> VertexId {
        Self::at(self.single_ring(first, second), self.single_idx_in_range as int)
    }

    /// The fan over the paired run: one triangle for each position of the run but the
    /// first, on the single vertex, the vertex at that position and the vertex before
    /// it.
    pub open spec fn fan(self, first: Seq<VertexId>, second: Seq<VertexId>) -> Seq<Seq<VertexId>> {
        Seq::new(
            (self.other_range.end - self.other_range.start) as nat,
            |k: int|
                seq![
                    self.single_vertex(first, second),
                    Self::at(self.other_ring(first, second), self.other_range.start + k + 1),
                    Self::at(self.other_ring(first, second), self.other_range.start + k),
                ],
        )
    }

    /// The single vertex and the first vertex of the paired run.
    pub fn first_pair(&self, first: &Vec<VertexId>, second: &Vec<VertexId>) -> (pair: (VertexId, VertexId))
        requires
            self.single_range_idx < 2,
            first@.len() > 0,
            second@.len() > 0,
        ensures
            pair == self.first_joint(first@, second@),
    {
        let (single_ids, other_ids) = if self.single_range_idx == 0 {
            (first, second)
        } else {
            (second, first)
        };
        (single_ids[self.single_idx_in_range % single_ids.len()], other_ids[self.other_range.start % other_ids.len()])
    }

    /// The single vertex and the last vertex of the paired run.
    pub fn last_pair(&self, first: &Vec<VertexId>, second: &Vec<VertexId>) -> (pair: (VertexId, VertexId))
        requires
            self.single_range_idx < 2,
            first@.len() > 0,
            second@.len() > 0,
        ensures
            pair == self.last_joint(first@, second@),
    {
        let (single_ids, other_ids) = if self.single_range_idx == 0 {
            (first, second)
        } else {
            (second, first)
        };
        (single_ids[self.single_idx_in_range % single_ids.len()], other_ids[self.other_range.end % other_ids.len()])
    }

    /// The fan of triangles from the single vertex over the paired run.
    pub fn fill_faces(&self, first: &Vec<VertexId>, second: &Vec<VertexId>) -> (faces: Vec<PlannedFace>)
        requires
            self.single_range_idx < 2,
            first@.len() > 0,
            second@.len() > 0,
            self.other_range.start <= self.other_range.end,
        ensures
            corners_of(faces@) == self.fan(first@, second@),
    {
        let (single_ids, other_ids) = if self.single_range_idx == 0 {
            (first, second)
        } else {
            (second, first)
        };
        let single_v_id = single_ids[self.single_idx_in_range % single_ids.len()];
        let mut faces: Vec<PlannedFace> = Vec::new();
        let mut prev_other_v_id = other_ids[self.other_range.start % other_ids.len()];
        let mut other_idx: usize = self.other_range.start;
        while other_idx < self.other_range.end
            invariant
                self.other_range.start <= other_idx <= self.other_range.end,
                other_ids@.len() > 0,
                other_ids@ == self.other_ring(first@, second@),
                single_v_id == self.single_vertex(first@, second@),
                prev_other_v_id == Self::at(other_ids@, other_idx as int),
                faces@.len() == other_idx - self.other_range.start,
                forall|k: int| 0 <= k < faces@.len() ==> (#[trigger] faces@[k]).0@ == self.fan(first@, second@)[k],
            decreases self.other_range.end - other_idx,
        {
            other_idx = other_idx + 1;
            let other_v_id = other_ids[other_idx % other_ids.len()];
            faces.push(PlannedFace::new(single_v_id, other_v_id, prev_other_v_id));
            prev_other_v_id = other_v_id;
        }
        proof {
            assert(corners_of(faces@) =~= self.fan(first@, second@));
        }
        faces
    }
}

/// A stretch of two rings that is to be stitched: a run in the first ring and a run in
/// the second, and whether they close a polygon.
pub struct Stretch {
    pub closed: bool,
    pub first: IndexRange,
    pub second: IndexRange,
}

/// The stretches that the pairs of runs stand for.
pub open spec fn stretches_of(pairs: Seq<ConnectPair>) -> Seq<Stretch> {
    Seq::new(pairs.len(), |k: int| Stretch { closed: pairs[k].closed, first: pairs[k].ranges@[0], second: pairs[k].ranges@[1] })
}

/// The closed stretch from `start` to `end` on each of two rings of `len1` and `len2`
/// positions, or the open one.
pub open spec fn stretch_between(start1: int, end1: int, len1: usize, start2: int, end2: int, len2: usize, closed: bool) -> Stretch {
    Stretch { closed, first: unwrapped(start1 as usize, end1 as usize, len1), second: unwrapped(start2 as usize, end2 as usize, len2) }
}

/// The position that a search round `ring` comes to: the first position from `from` on
/// that holds `v`, or the position `left` steps on where none of them does.
pub open spec fn sought(ring: Seq<VertexId>, from: int, v: VertexId, left: nat) -> int
    decreases left,
{
    if left == 0 || Pairing::at(ring, from) == v {
        from % (ring.len() as int)
    } else {
        sought(ring, from + 1, v, (left - 1) as nat)
    }
}

/// The number of vertices of `common` that follow one another in `ring` from position
/// `at` on, taken round the ring; no more than `left` are counted.
pub open spec fn shared_run(ring: Seq<VertexId>, common: Set<VertexId>, at: int, left: nat) -> nat
    decreases left,
{
    if left == 0 || !common.contains(Pairing::at(ring, at)) {
        0
    } else {
        1 + shared_run(ring, common, at + 1, (left - 1) as nat)
    }
}

/// The position before `index` in a ring of `len` positions.
pub open spec fn preceding(index: int, len: int) -> int {
    if index == 0 {
        len - 1
    } else {
        index - 1
    }
}

/// Where a walk of two rings side by side stands: the stretch that is being walked
/// starts at `start1` and `start2` and has come to `end1` and `end2`; `done` holds the
/// stretches that were closed off; `stopped` says that the walk has come round.
pub struct RingWalk {
    pub start1: int,
    pub start2: int,
    pub end1: int,
    pub end2: int,
    pub done: Seq<Stretch>,
    pub stopped: bool,
}

impl RingWalk {
    /// The walk one round on.
    ///
    /// Where the vertex reached on the first ring is shared, the second ring is
    /// searched for it; else, where the vertex reached on the second ring is shared,
    /// the first ring is searched for that. Either way the stretch walked so far is
    /// closed off there, the run of shared vertices that follows is passed over on both
    /// rings, and the next stretch starts at its last vertex; the walk has come round
    /// where that is the position `origin` of the first ring. Where neither vertex is
    /// shared, the walk goes one position on.
    pub open spec fn next(self, first: Seq<VertexId>, second: Seq<VertexId>, common: Set<VertexId>, origin: int) -> RingWalk {
        let len1 = first.len() as int;
        let len2 = second.len() as int;
        let v1 = first[self.end1];
        let v2 = second[self.end2];
        if common.contains(v1) || common.contains(v2) {
            let met1 = if common.contains(v1) {
                self.end1
            } else {
                sought(first, self.end1, v2, first.len())
            };
            let met2 = if common.contains(v1) {
                sought(second, self.end2, v1, second.len())
            } else {
                self.end2
            };
            let run = shared_run(first, common, met1, first.len());
            let on1 = (met1 + run) % len1;
            let on2 = (met2 + run) % len2;
            RingWalk {
                start1: preceding(on1, len1),
                start2: preceding(on2, len2),
                end1: on1,
                end2: on2,
                done: self.done.push(stretch_between(self.start1, met1, first.len() as usize, self.start2, met2, second.len() as usize, true)),
                stopped: preceding(on1, len1) == origin,
            }
        } else {
            RingWalk { end1: (self.end1 + 1) % len1, end2: (self.end2 + 1) % len2, ..self }
        }
    }

    /// The walk after at most `rounds` rounds: it ends when it has come round, or when
    /// the first ring has been walked to `origin` again.
    pub open spec fn run(self, first: Seq<VertexId>, second: Seq<VertexId>, common: Set<VertexId>, origin: int, rounds: nat) -> RingWalk
        decreases rounds,
    {
        if rounds == 0 || self.stopped || self.end1 == origin {
            self
        } else {
            self.next(first, second, common, origin).run(first, second, common, origin, (rounds - 1) as nat)
        }
    }

    /// The walk at its start from the positions `origin1` and `origin2`.
    pub open spec fn begun(first: Seq<VertexId>, second: Seq<VertexId>, origin1: int, origin2: int) -> RingWalk {
        RingWalk {
            start1: origin1,
            start2: origin2,
            end1: (origin1 + 1) % (first.len() as int),
            end2: (origin2 + 1) % (second.len() as int),
            done: Seq::empty(),
            stopped: false,
        }
    }

    /// How far apart the start and the end of the stretch being walked are on a ring of
    /// `len` positions, the shorter way round.
    pub open spec fn span(start: int, end: int, len: int) -> int {
        let apart = if start > end {
            start - end
        } else {
            end - start
        };
        if apart < len - apart {
            apart
        } else {
            len - apart
        }
    }

    /// The stretches of a walk that has ended. Where none was closed off, the whole of
    /// the two rings from the origins is the one stretch. Else the stretch that was
    /// being walked is added where it spans more than one step on either ring. The
    /// stretch that is added is closed where the rings share a vertex.
    pub open spec fn stretches(self, first: Seq<VertexId>, second: Seq<VertexId>, origin1: int, origin2: int, shared: bool) -> Seq<Stretch> {
        let len1 = first.len() as int;
        let len2 = second.len() as int;
        if self.done.len() == 0 {
            seq![
                stretch_between(origin1, preceding(origin1, len1), first.len() as usize, origin2, preceding(origin2, len2), second.len() as usize, shared),
            ]
        } else if Self::span(self.start1, self.end1, len1) > 1 || Self::span(self.start2, self.end2, len2) > 1 {
            self.done.push(stretch_between(self.start1, self.end1, first.len() as usize, self.start2, self.end2, second.len() as usize, shared))
        } else {
            self.done
        }
    }
}

/// The stretches into which two rings are divided by the vertices of `common`, walked
/// side by side from the positions `origin1` and `origin2`.
pub open spec fn walked_stretches(first: Seq<VertexId>, second: Seq<VertexId>, common: Set<VertexId>, origin1: int, origin2: int) -> Seq<Stretch> {
    RingWalk::begun(first, second, origin1, origin2).run(first, second, common, origin1, first.len() + second.len() + 1).stretches(
        first,
        second,
        origin1,
        origin2,
        common.len() > 0,
    )
}

/// One step round a ring: the position after the one that `a` comes to is the one that
/// `a + 1` comes to.
pub proof fn lemma_ring_step(a: int, len: int)
    requires
        len > 0,
    ensures
        ((a % len) + 1) % len == (a + 1) % len,
{
    vstd::arithmetic::div_mod::lemma_add_mod_noop_right(1, a, len);
}

/// The triangles that join the pairings from position `from` on to one another.
///
/// Each pairing gives the fan over its paired run. Where `prev` holds the single
/// vertex and the last paired vertex of the pairing before, two triangles come first
/// that bridge the gap to them.
pub open spec fn strip(pairings: Seq<Pairing>, first: Seq<VertexId>, second: Seq<VertexId>, prev: Option<(VertexId, VertexId)>, from: nat) -> Seq<
    Seq<VertexId>,
>
    decreases pairings.len() - from,
{
    if from >= pairings.len() {
        Seq::empty()
    } else {
        let pairing = pairings[from as int];
        pairing.bridge(first, second, prev) + pairing.fan(first, second) + strip(
            pairings,
            first,
            second,
            Some(pairing.last_joint(first, second)),
            from + 1,
        )
    }
}

/// The triangles that stitch the first `upto` stretches, one stretch after the other.
pub open spec fn stitching(pairs: Seq<ConnectPair>, first: Seq<VertexId>, second: Seq<VertexId>, upto: nat) -> Seq<Seq<VertexId>>
    decreases upto,
{
    if upto == 0 || upto > pairs.len() {
        Seq::empty()
    } else {
        stitching(pairs, first, second, (upto - 1) as nat) + pairs[upto - 1].faces(first, second)
    }
}

impl Pairing {
    /// The single vertex and the first vertex of the paired run.
    pub open spec fn first_joint(self, first: Seq<VertexId>, second: Seq<VertexId>) -> (VertexId, VertexId) {
        (self.single_vertex(first, second), Self::at(self.other_ring(first, second), self.other_range.start as int))
    }

    /// The single vertex and the last vertex of the paired run.
    pub open spec fn last_joint(self, first: Seq<VertexId>, second: Seq<VertexId>) -> (VertexId, VertexId) {
        (self.single_vertex(first, second), Self::at(self.other_ring(first, second), self.other_range.end as int))
    }

    /// The two triangles that bridge the gap between this pairing and the joint `prev`
    /// of the pairing before it; none where there is no such joint.
    pub open spec fn bridge(self, first: Seq<VertexId>, second: Seq<VertexId>, prev: Option<(VertexId, VertexId)>) -> Seq<Seq<VertexId>> {
        match prev {
            Some(joint) => seq![
                seq![joint.0, self.first_joint(first, second).0, joint.1],
                seq![joint.1, self.first_joint(first, second).0, self.first_joint(first, second).1],
            ],
            None => Seq::empty(),
        }
    }
}

impl ConnectPair {
    /// The two triangles at the shared ends of a closed stretch: at its start, on the
    /// first two vertices of the run in the first ring and the second vertex of the run
    /// in the second; at its end, on the last two vertices of the run in the first ring
    /// and the vertex before the last in the second. None for an open stretch.
    pub open spec fn corners(self, first: Seq<VertexId>, second: Seq<VertexId>) -> Seq<Seq<VertexId>> {
        if self.closed {
            let start1 = (self.ranges[0].start as int) % (first.len() as int);
            let start2 = (self.ranges[1].start as int) % (second.len() as int);
            let end1 = (self.ranges[0].end as int) % (first.len() as int);
            let end2 = (self.ranges[1].end as int) % (second.len() as int);
            seq![
                seq![first[start1], first[(start1 + 1) % (first.len() as int)], second[(start2 + 1) % (second.len() as int)]],
                seq![
                    first[if end1 == 0 { first.len() - 1 } else { end1 - 1 }],
                    first[end1],
                    second[if end2 == 0 { second.len() - 1 } else { end2 - 1 }],
                ],
            ]
        } else {
            Seq::empty()
        }
    }

    /// The joint that the first pairing of an open stretch is bridged to: that of the
    /// last pairing, so that the triangles go round. None for a closed stretch or one
    /// without pairings.
    pub open spec fn lead(self, first: Seq<VertexId>, second: Seq<VertexId>) -> Option<(VertexId, VertexId)> {
        if !self.closed && self.pairings().len() > 0 {
            Some(self.pairings()[self.pairings().len() - 1].last_joint(first, second))
        } else {
            None
        }
    }

    /// The triangles that stitch this stretch: those at its corners, then those that
    /// join its pairings.
    pub open spec fn faces(self, first: Seq<VertexId>, second: Seq<VertexId>) -> Seq<Seq<VertexId>> {
        self.corners(first, second) + strip(self.pairings(), first, second, self.lead(first, second), 0)
    }
}

impl Pairing {
    /// The two triangles that bridge the gap between this pairing and the joint of the
    /// pairing before it; none where there is no such joint.
    pub fn bridge_faces(&self, first: &Vec<VertexId>, second: &Vec<VertexId>, prev: Option<(VertexId, VertexId)>) -> (faces: Vec<PlannedFace>)
        requires
            self.single_range_idx < 2,
            first@.len() > 0,
            second@.len() > 0,
        ensures
            corners_of(faces@) == self.bridge(first@, second@, prev),
    {
        let mut faces: Vec<PlannedFace> = Vec::new();
        match prev {
            Some((prev_single, prev_other)) => {
                let (single_v_id, other_v_id) = self.first_pair(first, second);
                faces.push(PlannedFace::new(prev_single, single_v_id, prev_other));
                faces.push(PlannedFace::new(prev_other, single_v_id, other_v_id));
            },
            None => {},
        }
        proof {
            assert(corners_of(faces@) =~= self.bridge(first@, second@, prev));
        }
        faces
    }
}

/// The triangles that join the pairings from a position on are the bridge and the fan
/// of the pairing at that position, and then those that join the pairings behind it.
pub proof fn lemma_strip_unfolds(
    pairings: Seq<Pairing>,
    first: Seq<VertexId>,
    second: Seq<VertexId>,
    prev: Option<(VertexId, VertexId)>,
    from: nat,
    done: Seq<Seq<VertexId>>,
)
    requires
        from < pairings.len(),
    ensures
        done + strip(pairings, first, second, prev, from) == done + pairings[from as int].bridge(first, second, prev) + pairings[from as int].fan(
            first,
            second,
        ) + strip(pairings, first, second, Some(pairings[from as int].last_joint(first, second)), from + 1),
{
    let pairing = pairings[from as int];
    let rest = strip(pairings, first, second, Some(pairing.last_joint(first, second)), from + 1);
    assert(strip(pairings, first, second, prev, from) == pairing.bridge(first, second, prev) + pairing.fan(first, second) + rest);
    assert(done + (pairing.bridge(first, second, prev) + pairing.fan(first, second) + rest) =~= done + pairing.bridge(first, second, prev)
        + pairing.fan(first, second) + rest);
}

/// The corners of two lists of planned triangles, one behind the other.
pub proof fn lemma_corners_of_concat(a: Seq<PlannedFace>, b: Seq<PlannedFace>)
    ensures
        corners_of(a + b) == corners_of(a) + corners_of(b),
{
    assert(corners_of(a + b) =~= corners_of(a) + corners_of(b));
}

impl PlannedFace {
    /// The triangle on the three corners.
    pub fn new(v_id1: VertexId, v_id2: VertexId, v_id3: VertexId) -> (face: PlannedFace)
        ensures
            face.0@ == seq![v_id1, v_id2, v_id3],
    {
        let face = PlannedFace([v_id1, v_id2, v_id3]);
        proof {
            assert(face.0@ =~= seq![v_id1, v_id2, v_id3]);
        }
        face
    }
}

} // verus!
