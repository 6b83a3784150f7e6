//! Stitching segments into polylines.
//!
//! The segments in which a plane cuts the triangles of a mesh come in no order. A grid
//! over the plane files the two ends of every polyline under the cell they lie in, so
//! that a new segment finds the polylines it continues by looking into the cells of its
//! own two ends.

use vstd::prelude::*;
use crate::arena::ARENA_LIMIT;
use crate::geometry::{copy_point_2d, distance_squared_2d, grid_cell, vec2_distance_squared, vec2_grid_cell};
use crate::gridstore::{cell_lists, polygon_cell_slots, polygon_slots, CellMap, PolygonArena, PolygonCells};
use crate::ids::{PolygonId, SLOT_MASK};
use crate::polygon::{closed, extended, joined, terminal_of, Polygon2, PolygonTerminal, CLOSING_DISTANCE_SQUARED};

verus! {

/// A grid of cells over the plane with the polylines that are being stitched.
pub struct HashGrid {
    pub(crate) map: CellMap,
    pub(crate) min_bounds: glam::Vec2,
    pub(crate) cell_fac: glam::Vec2,
    pub(crate) polygons: PolygonArena,
    pub(crate) polygon_cells: PolygonCells,
}

/// What a grid holds.
pub struct GridModel {
    /// The points of every polyline.
    pub polygons: Map<PolygonId, Seq<glam::Vec2>>,
    /// For every cell, the ends of polylines that are filed under it.
    pub cells: Map<(i32, i32), Seq<(PolygonTerminal, PolygonId)>>,
    /// For every polyline, the cells under which one of its ends is filed.
    pub polygon_cells: Map<PolygonId, Seq<(i32, i32)>>,
    /// The corner of the grid from which cells are counted.
    pub origin: glam::Vec2,
    /// The number of cells to the unit along each axis.
    pub cells_per_unit: glam::Vec2,
}

impl View for HashGrid {
    type V = GridModel;

    open(crate) spec fn view(&self) -> GridModel {
        GridModel {
            polygons: polygon_slots(self.polygons),
            cells: cell_lists(self.map),
            polygon_cells: polygon_cell_slots(self.polygon_cells),
            origin: self.min_bounds,
            cells_per_unit: self.cell_fac,
        }
    }
}

/// `list` without the item at position `at`.
pub open spec fn without_item<A>(list: Seq<A>, at: int) -> Seq<A> {
    list.take(at) + list.skip(at + 1)
}

/// The choice of every cell but `cell`.
pub open spec fn other_cell(cell: (i32, i32)) -> spec_fn((i32, i32)) -> bool {
    |c: (i32, i32)| c != cell
}

/// The choice of every end that is not one of the polyline `id`.
pub open spec fn other_polygon(id: PolygonId) -> spec_fn((PolygonTerminal, PolygonId)) -> bool {
    |entry: (PolygonTerminal, PolygonId)| entry.1 != id
}

/// Whether `list` holds an end of the polyline `id`.
pub open spec fn mentions(list: Seq<(PolygonTerminal, PolygonId)>, id: PolygonId) -> bool {
    exists|i: int| 0 <= i < list.len() && (#[trigger] list[i]).1 == id
}

impl GridModel {
    /// The bookkeeping that every operation keeps: identifiers are well formed, every
    /// polyline has a point, and only live polylines have a list of cells.
    pub open spec fn wf(self) -> bool {
        &&& self.polygons.dom().finite()
        &&& self.polygons.dom().len() <= ARENA_LIMIT
        &&& forall|id: PolygonId| #[trigger] self.polygons.dom().contains(id) ==> id.canonical() && id.slot() != SLOT_MASK && self.polygons[id].len() > 0
        &&& forall|a: PolygonId, b: PolygonId| #[trigger] self.polygons.dom().contains(a) && #[trigger] self.polygons.dom().contains(b) && a.slot() == b.slot()
            ==> a == b
        &&& self.polygon_cells.dom().subset_of(self.polygons.dom())
    }

    /// The cell of `point`.
    pub open spec fn cell_of(self, point: glam::Vec2) -> (i32, i32) {
        vec2_grid_cell(point, self.origin, self.cells_per_unit)
    }

    /// Whether the end `entry` of a polyline lies within the closing distance of
    /// `point`.
    pub open spec fn connects(self, entry: (PolygonTerminal, PolygonId), point: glam::Vec2) -> bool {
        self.polygons.dom().contains(entry.1) && vec2_distance_squared(terminal_of(self.polygons[entry.1], entry.0), point)
            < CLOSING_DISTANCE_SQUARED
    }

    /// The position of the first entry of `list`, from position `from` on, that
    /// connects to `point`.
    pub open spec fn first_connecting(self, list: Seq<(PolygonTerminal, PolygonId)>, point: glam::Vec2, from: int) -> Option<int>
        decreases list.len() - from,
    {
        if from < 0 || from >= list.len() {
            None
        } else if self.connects(list[from], point) {
            Some(from)
        } else {
            self.first_connecting(list, point, from + 1)
        }
    }

    /// The place in the cell of `point` at which an end of a polyline connects to
    /// `point`: the first one in the list of the cell.
    pub open spec fn connecting_at(self, point: glam::Vec2) -> Option<int> {
        if self.cells.dom().contains(self.cell_of(point)) {
            self.first_connecting(self.cells[self.cell_of(point)], point, 0)
        } else {
            None
        }
    }

    /// The end of a polyline that connects to `point`.
    pub open spec fn connecting(self, point: glam::Vec2) -> Option<(PolygonTerminal, PolygonId)> {
        match self.connecting_at(point) {
            Some(at) => Some(self.cells[self.cell_of(point)][at]),
            None => None,
        }
    }

    /// The grid after the end that connects to `point` has been taken out of its cell;
    /// where that leaves no end of the polyline in the cell, the cell is struck off
    /// the list of the polyline.
    pub open spec fn taken(self, point: glam::Vec2) -> GridModel {
        match self.connecting_at(point) {
            Some(at) => {
                let cell = self.cell_of(point);
                let id = self.cells[cell][at].1;
                let rest = without_item(self.cells[cell], at);
                GridModel {
                    cells: self.cells.insert(cell, rest),
                    polygon_cells: if !mentions(rest, id) && self.polygon_cells.dom().contains(id) {
                        self.polygon_cells.insert(id, self.polygon_cells[id].filter(other_cell(cell)))
                    } else {
                        self.polygon_cells
                    },
                    ..self
                }
            },
            None => self,
        }
    }

    /// The ends filed under `cell`; none where the grid has no list for it.
    pub open spec fn entries(self, cell: (i32, i32)) -> Seq<(PolygonTerminal, PolygonId)> {
        if self.cells.dom().contains(cell) {
            self.cells[cell]
        } else {
            Seq::empty()
        }
    }

    /// The grid with every end of the polyline `id` taken out of `cell`.
    pub open spec fn without_polygon(self, id: PolygonId, cell: (i32, i32)) -> GridModel {
        GridModel {
            cells: if self.cells.dom().contains(cell) {
                self.cells.insert(cell, self.cells[cell].filter(other_polygon(id)))
            } else {
                self.cells
            },
            ..self
        }
    }

    /// The grid with `cell` struck off the list of cells of the polyline `id`.
    pub open spec fn struck(self, id: PolygonId, cell: (i32, i32)) -> GridModel {
        GridModel {
            polygon_cells: if self.polygon_cells.dom().contains(id) {
                self.polygon_cells.insert(id, self.polygon_cells[id].filter(other_cell(cell)))
            } else {
                self.polygon_cells
            },
            ..self
        }
    }

    /// The grid with the end `terminal` of the polyline `id` filed under the cell of
    /// `point`: the end is put behind the others of that cell, and, where the polyline
    /// is live, the cell is noted in its list unless it is there already.
    pub open spec fn filed(self, terminal: PolygonTerminal, id: PolygonId, point: glam::Vec2) -> GridModel {
        let cell = self.cell_of(point);
        let known = if self.polygon_cells.dom().contains(id) {
            self.polygon_cells[id]
        } else {
            Seq::empty()
        };
        GridModel {
            cells: self.cells.insert(cell, self.entries(cell).push((terminal, id))),
            polygon_cells: if self.polygons.dom().contains(id) {
                self.polygon_cells.insert(
                    id,
                    if known.contains(cell) {
                        known
                    } else {
                        known.push(cell)
                    },
                )
            } else {
                self.polygon_cells
            },
            ..self
        }
    }

    /// The grid with the live polyline `id` lengthened by `point` at its end `terminal`,
    /// and the new end filed.
    pub open spec fn lengthened(self, id: PolygonId, terminal: PolygonTerminal, point: glam::Vec2) -> GridModel {
        if self.polygons.dom().contains(id) {
            (GridModel { polygons: self.polygons.insert(id, extended(self.polygons[id], terminal, point)), ..self }).filed(terminal, id, point)
        } else {
            self
        }
    }

    /// The grid with the polyline `id` taken out of the first `n` cells of `cells`.
    pub open spec fn cleared_from(self, id: PolygonId, cells: Seq<(i32, i32)>, n: nat) -> GridModel
        decreases n,
    {
        if n == 0 || n > cells.len() {
            self
        } else {
            self.cleared_from(id, cells, (n - 1) as nat).without_polygon(id, cells[n - 1])
        }
    }

    /// The grid with the polyline `id` taken out of every cell that its list names.
    pub open spec fn unfiled(self, id: PolygonId) -> GridModel {
        if self.polygon_cells.dom().contains(id) {
            self.cleared_from(id, self.polygon_cells[id], self.polygon_cells[id].len())
        } else {
            self
        }
    }

    /// The grid with the live polylines `id1` and `id2` joined at the given ends.
    ///
    /// Where the two are one polyline, it is closed. Else the second is taken out of
    /// its cells and is gone, the first is taken out of its cells and becomes the two
    /// joined, and its two ends are filed anew, the start before the end.
    pub open spec fn merged(self, id1: PolygonId, terminal1: PolygonTerminal, id2: PolygonId, terminal2: PolygonTerminal) -> GridModel {
        if id1 == id2 {
            GridModel {
                polygons: if closed(self.polygons[id1]) {
                    self.polygons
                } else {
                    self.polygons.insert(id1, self.polygons[id1].push(self.polygons[id1][0]))
                },
                ..self
            }
        } else {
            let cleared = self.unfiled(id2);
            let without = GridModel { polygons: cleared.polygons.remove(id2), polygon_cells: cleared.polygon_cells.remove(id2), ..cleared };
            let again = without.unfiled(id1);
            let line = joined(self.polygons[id1], terminal1, self.polygons[id2], terminal2);
            (GridModel { polygons: again.polygons.insert(id1, line), ..again }).filed(
                PolygonTerminal::Start,
                id1,
                terminal_of(line, PolygonTerminal::Start),
            ).filed(PolygonTerminal::End, id1, terminal_of(line, PolygonTerminal::End))
        }
    }

    /// The grid after the segment from `point1` to `point2` has been put in.
    ///
    /// The end of a polyline that connects to `point1` is taken, and then the one that
    /// connects to `point2`. Where neither is found, the segment becomes the new
    /// polyline `fresh`, and its ends are filed. Where one is found, that polyline is
    /// lengthened by the other end of the segment. Where both are found, the two
    /// polylines are joined.
    pub open spec fn with_line(self, point1: glam::Vec2, point2: glam::Vec2, fresh: PolygonId) -> GridModel {
        match self.connecting(point1) {
            Some(first) => match self.taken(point1).connecting(point2) {
                Some(second) => self.taken(point1).taken(point2).merged(first.1, first.0, second.1, second.0),
                None => self.taken(point1).lengthened(first.1, first.0, point2),
            },
            None => match self.connecting(point2) {
                Some(second) => self.taken(point2).lengthened(second.1, second.0, point1),
                None => (GridModel { polygons: self.polygons.insert(fresh, seq![point1, point2]), ..self }).filed(
                    PolygonTerminal::Start,
                    fresh,
                    point1,
                ).filed(PolygonTerminal::End, fresh, point2),
            },
        }
    }

    /// Whether putting the segment from `point1` to `point2` in turns this grid into
    /// `after`: with a polyline that is new to the grid, where the segment makes one.
    pub open spec fn line_inserted(self, point1: glam::Vec2, point2: glam::Vec2, after: GridModel) -> bool {
        exists|fresh: PolygonId| !self.polygons.dom().contains(fresh) && after == #[trigger] self.with_line(point1, point2, fresh)
    }

    /// Whether putting the first `n` of the segments in, one after the other, turns
    /// this grid into `after`.
    pub open spec fn lines_inserted(self, segments: Seq<Segment2>, n: nat, after: GridModel) -> bool
        decreases n,
    {
        if n == 0 || n > segments.len() {
            after == self
        } else {
            exists|mid: GridModel|
                self.lines_inserted(segments, (n - 1) as nat, mid) && #[trigger] mid.line_inserted(segments[n - 1].start, segments[n - 1].end, after)
        }
    }

    /// The grid that holds nothing, counts its cells from `origin` and has
    /// `cells_per_unit` cells to the unit along each axis.
    pub open spec fn empty(origin: glam::Vec2, cells_per_unit: glam::Vec2) -> GridModel {
        GridModel { polygons: Map::empty(), cells: Map::empty(), polygon_cells: Map::empty(), origin, cells_per_unit }
    }

    /// Whether `polygons` are the polylines of the grid, one for each of the
    /// identifiers of `ids`, which are all the identifiers, each once.
    pub open spec fn listed_by(self, ids: Seq<PolygonId>, polygons: Seq<Polygon2>) -> bool {
        &&& ids.no_duplicates()
        &&& ids.to_set() == self.polygons.dom()
        &&& polygons.len() == ids.len()
        &&& forall|i: int| 0 <= i < polygons.len() ==> (#[trigger] polygons[i])@ == self.polygons[ids[i]]
    }

    /// The polylines after the segment from `point1` to `point2` has been put in.
    ///
    /// Where neither end of the segment connects to an end of a polyline, the segment
    /// becomes a new polyline, `fresh`. Where one end connects, that polyline is
    /// lengthened by the other end of the segment. Where both ends connect to the one
    /// polyline, it is closed; where they connect to two polylines, the second is
    /// joined to the first and is gone.
    pub open spec fn polygons_with_line(self, point1: glam::Vec2, point2: glam::Vec2, fresh: PolygonId) -> Map<PolygonId, Seq<glam::Vec2>> {
        match self.connecting(point1) {
            Some(first) => match self.taken(point1).connecting(point2) {
                Some(second) => if first.1 == second.1 {
                    if closed(self.polygons[first.1]) {
                        self.polygons
                    } else {
                        self.polygons.insert(first.1, self.polygons[first.1].push(self.polygons[first.1][0]))
                    }
                } else {
                    self.polygons.remove(second.1).insert(first.1, joined(self.polygons[first.1], first.0, self.polygons[second.1], second.0))
                },
                None => self.polygons.insert(first.1, extended(self.polygons[first.1], first.0, point2)),
            },
            None => match self.connecting(point2) {
                Some(second) => self.polygons.insert(second.1, extended(self.polygons[second.1], second.0, point1)),
                None => self.polygons.insert(fresh, seq![point1, point2]),
            },
        }
    }
}

impl HashGrid {
    /// See [`GridModel::wf`].
    pub open spec fn wf(&self) -> bool {
        self@.wf()
    }

    /// An empty grid that counts its cells from `min_bounds` and has `cell_fac` cells
    /// to the unit along each axis.
    pub fn new(min_bounds: glam::Vec2, cell_fac: glam::Vec2) -> (grid: HashGrid)
        ensures
            grid.wf(),
            grid@ == GridModel::empty(min_bounds, cell_fac),
    {
        HashGrid { map: CellMap::new(), min_bounds, cell_fac, polygons: PolygonArena::new(), polygon_cells: PolygonCells::new() }
    }

    /// The cell of a point.
    pub fn vec2_to_grid(&self, point: &glam::Vec2) -> (cell: (i32, i32))
        ensures
            cell == self@.cell_of(*point),
    {
        grid_cell(point, &self.min_bounds, &self.cell_fac)
    }

    /// The number of polylines in the grid.
    pub fn polygon_count(&self) -> (n: usize)
        ensures
            n == self@.polygons.dom().len(),
    {
        self.polygons.len()
    }

    /// The polyline named by `id`, if the grid has it.
    pub fn polygon(&self, id: PolygonId) -> (found: Option<Polygon2>)
        requires
            self.wf(),
        ensures
            found is Some == self@.polygons.dom().contains(id),
            found is Some ==> found->0@ == self@.polygons[id],
    {
        if id.is_canonical() {
            self.polygons.get(id)
        } else {
            None
        }
    }

    /// Whether the end `entry` of a polyline lies within the closing distance of
    /// `point`.
    pub(crate) fn connects(&self, entry: (PolygonTerminal, PolygonId), point: &glam::Vec2) -> (near: bool)
        requires
            self.wf(),
        ensures
            near == self@.connects(entry, *point),
    {
        match self.polygon(entry.1) {
            Some(polygon) => {
                let existing = polygon.terminal(entry.0);
                distance_squared_2d(&existing, point) < CLOSING_DISTANCE_SQUARED
            },
            None => false,
        }
    }

    /// Looks in the cell of `point` for an end of a polyline that lies within the
    /// closing distance of `point`, and takes the first one out of the cell. Where that
    /// leaves no end of the polyline in the cell, the cell is struck off the list of
    /// the polyline.
    #[verifier::rlimit(50)]
    pub fn try_take_connecting_polygon(&mut self, point: glam::Vec2) -> (taken: Option<(PolygonTerminal, PolygonId)>)
        requires
            old(self).wf(),
        ensures
            final(self).wf(),
            taken == old(self)@.connecting(point),
            final(self)@ == old(self)@.taken(point),
    {
        let key = self.vec2_to_grid(&point);
        let list = match self.map.get(key) {
            Some(list) => list,
            None => {
                return None;
            },
        };
        let mut i: usize = 0;
        while i < list.len()
            invariant
                i <= list.len(),
                self.wf(),
                self@ == old(self)@,
                self@.cells.dom().contains(key),
                list@ == self@.cells[key],
                key == self@.cell_of(point),
                self@.first_connecting(list@, point, 0) == self@.first_connecting(list@, point, i as int),
            decreases list.len() - i,
        {
            if self.connects(list[i], &point) {
                let entry = list[i];
                let mut rest = list;
                rest.remove(i);
                proof {
                    assert(rest@ =~= without_item(old(self)@.cells[key], i as int));
                }
                let mut still_there = false;
                let mut k: usize = 0;
                while k < rest.len()
                    invariant
                        k <= rest.len(),
                        still_there == exists|q: int| 0 <= q < k && (#[trigger] rest@[q]).1 == entry.1,
                    decreases rest.len() - k,
                {
                    if rest[k].1 == entry.1 {
                        still_there = true;
                    }
                    k = k + 1;
                }
                proof {
                    assert(still_there == mentions(rest@, entry.1));
                }
                self.map.insert(key, rest);
                if !still_there {
                    self.strike_cell(entry.1, key);
                }
                return Some(entry);
            }
            i = i + 1;
        }
        None
    }

    /// Strikes a cell off the list of cells of a polyline.
    pub(crate) fn strike_cell(&mut self, id: PolygonId, cell: (i32, i32))
        requires
            old(self).wf(),
        ensures
            final(self).wf(),
            final(self)@ == old(self)@.struck(id, cell),
    {
        if !id.is_canonical() {
            return ;
        }
        match self.polygon_cells.get(id) {
            Some(cells) => {
                let mut kept: Vec<(i32, i32)> = Vec::new();
                let ghost keep = other_cell(cell);
                let mut i: usize = 0;
                while i < cells.len()
                    invariant
                        i <= cells.len(),
                        keep == other_cell(cell),
                        kept@ == cells@.take(i as int).filter(keep),
                    decreases cells.len() - i,
                {
                    proof {
                        assert(cells@.take(i as int + 1) =~= cells@.take(i as int).push(cells@[i as int]));
                        lemma_filter_push(cells@.take(i as int), cells@[i as int], keep);
                    }
                    if cells[i].0 != cell.0 || cells[i].1 != cell.1 {
                        kept.push(cells[i]);
                    }
                    i = i + 1;
                }
                proof {
                    assert(cells@.take(cells@.len() as int) =~= cells@);
                    assert(self@.polygon_cells.dom().contains(id));
                    assert(self@.polygons.dom().contains(id));
                }
                self.polygon_cells.insert(id, kept);
                proof {
                    assert(self@.polygon_cells.dom() =~= old(self)@.polygon_cells.dom());
                }
            },
            None => {},
        }
    }

    /// Takes every end of a polyline out of a cell.
    pub fn remove_polygon_from_cell(&mut self, polygon_id: PolygonId, cell: (i32, i32))
        requires
            old(self).wf(),
        ensures
            final(self).wf(),
            final(self)@ == old(self)@.without_polygon(polygon_id, cell),
    {
        match self.map.get(cell) {
            Some(list) => {
                let mut kept: Vec<(PolygonTerminal, PolygonId)> = Vec::new();
                let ghost keep = other_polygon(polygon_id);
                let mut i: usize = 0;
                while i < list.len()
                    invariant
                        i <= list.len(),
                        keep == other_polygon(polygon_id),
                        kept@ == list@.take(i as int).filter(keep),
                    decreases list.len() - i,
                {
                    proof {
                        assert(list@.take(i as int + 1) =~= list@.take(i as int).push(list@[i as int]));
                        lemma_filter_push(list@.take(i as int), list@[i as int], keep);
                    }
                    if list[i].1 != polygon_id {
                        kept.push(list[i]);
                    }
                    i = i + 1;
                }
                proof {
                    assert(list@.take(list@.len() as int) =~= list@);
                }
                self.map.insert(cell, kept);
            },
            None => {},
        }
    }

    /// Files one end of a live polyline under the cell of the point it lies at, and
    /// notes the cell in the list of the polyline.
    pub fn insert_polygon_by_terminal(&mut self, terminal: PolygonTerminal, polygon_id: PolygonId, terminal_point: glam::Vec2)
        requires
            old(self).wf(),
        ensures
            final(self).wf(),
            final(self)@ == old(self)@.filed(terminal, polygon_id, terminal_point),
    {
        let key = self.vec2_to_grid(&terminal_point);
        let mut list = match self.map.get(key) {
            Some(list) => list,
            None => Vec::new(),
        };
        list.push((terminal, polygon_id));
        self.map.insert(key, list);
        if self.polygon(polygon_id).is_none() {
            return ;
        }
        let mut cells = match self.polygon_cells.get(polygon_id) {
            Some(cells) => cells,
            None => Vec::new(),
        };
        let mut known = false;
        let mut i: usize = 0;
        while i < cells.len()
            invariant
                i <= cells.len(),
                known == exists|k: int| 0 <= k < i && cells@[k] == key,
            decreases cells.len() - i,
        {
            if cells[i].0 == key.0 && cells[i].1 == key.1 {
                known = true;
            }
            i = i + 1;
        }
        proof {
            assert(known == cells@.contains(key));
        }
        if !known {
            cells.push(key);
        }
        self.polygon_cells.insert(polygon_id, cells);
        proof {
            assert(self@.polygon_cells.dom() =~= old(self)@.polygon_cells.dom().insert(polygon_id));
            assert(self@.polygon_cells =~= old(self)@.filed(terminal, polygon_id, terminal_point).polygon_cells);
        }
    }

    /// Lengthens a polyline by a point at one end and files the new end.
    pub(crate) fn extend_polygon(&mut self, polygon_id: PolygonId, terminal: PolygonTerminal, new_point: glam::Vec2)
        requires
            old(self).wf(),
        ensures
            final(self).wf(),
            final(self)@ == old(self)@.lengthened(polygon_id, terminal, new_point),
    {
        match self.polygon(polygon_id) {
            Some(polygon) => {
                let mut polygon = polygon;
                polygon.extend_by_line(terminal, copy_point_2d(&new_point));
                self.polygons.set(polygon_id, polygon);
                proof {
                    assert(self@.polygons.dom() =~= old(self)@.polygons.dom());
                }
                self.insert_polygon_by_terminal(terminal, polygon_id, new_point);
            },
            None => {},
        }
    }

    /// Takes a polyline out of every cell that its list names.
    pub(crate) fn unfile(&mut self, polygon_id: PolygonId)
        requires
            old(self).wf(),
        ensures
            final(self).wf(),
            final(self)@.polygons == old(self)@.polygons,
            final(self)@.polygon_cells == old(self)@.polygon_cells,
            final(self)@ == old(self)@.unfiled(polygon_id),
    {
        if !polygon_id.is_canonical() {
            return ;
        }
        match self.polygon_cells.get(polygon_id) {
            Some(cells) => {
                let mut i: usize = 0;
                while i < cells.len()
                    invariant
                        i <= cells.len(),
                        self.wf(),
                        self@.polygons == old(self)@.polygons,
                        self@.polygon_cells == old(self)@.polygon_cells,
                        cells@ == old(self)@.polygon_cells[polygon_id],
                        self@ == old(self)@.cleared_from(polygon_id, cells@, i as nat),
                    decreases cells.len() - i,
                {
                    self.remove_polygon_from_cell(polygon_id, cells[i]);
                    i = i + 1;
                }
            },
            None => {},
        }
    }

    /// Joins two polylines at the given ends, or closes the polyline where the two are
    /// one. The second polyline is gone afterwards; the ends of the first are filed
    /// anew.
    #[verifier::rlimit(50)]
    pub(crate) fn merge_polygons(&mut self, polygon_id1: PolygonId, terminal1: PolygonTerminal, polygon_id2: PolygonId, terminal2: PolygonTerminal)
        requires
            old(self).wf(),
            old(self)@.polygons.dom().contains(polygon_id1),
            old(self)@.polygons.dom().contains(polygon_id2),
        ensures
            final(self).wf(),
            final(self)@.polygons == (if polygon_id1 == polygon_id2 {
                if closed(old(self)@.polygons[polygon_id1]) {
                    old(self)@.polygons
                } else {
                    old(self)@.polygons.insert(polygon_id1, old(self)@.polygons[polygon_id1].push(old(self)@.polygons[polygon_id1][0]))
                }
            } else {
                old(self)@.polygons.remove(polygon_id2).insert(
                    polygon_id1,
                    joined(old(self)@.polygons[polygon_id1], terminal1, old(self)@.polygons[polygon_id2], terminal2),
                )
            }),
            final(self)@ == old(self)@.merged(polygon_id1, terminal1, polygon_id2, terminal2),
    {
        if polygon_id1 == polygon_id2 {
            match self.polygon(polygon_id1) {
                Some(polygon) => {
                    let mut polygon = polygon;
                    polygon.close();
                    self.polygons.set(polygon_id1, polygon);
                    proof {
                        assert(self@.polygons.dom() =~= old(self)@.polygons.dom());
                        if closed(old(self)@.polygons[polygon_id1]) {
                            assert(self@.polygons =~= old(self)@.polygons);
                        }
                    }
                },
                None => {},
            }
            return ;
        }
        self.unfile(polygon_id2);
        self.polygon_cells.remove(polygon_id2);
        let polygon2 = match self.polygons.remove(polygon_id2) {
            Some(polygon) => polygon,
            None => {
                return ;
            },
        };
        let ghost without_second = self@;
        proof {
            assert(without_second.polygons.dom() =~= old(self)@.polygons.dom().remove(polygon_id2));
            vstd::set_lib::lemma_len_subset(without_second.polygons.dom(), old(self)@.polygons.dom());
        }
        self.unfile(polygon_id1);
        let mut polygon1 = match self.polygon(polygon_id1) {
            Some(polygon) => polygon,
            None => {
                return ;
            },
        };
        polygon1.merge_polygon(terminal1, polygon2, terminal2);
        let start_point = polygon1.terminal(PolygonTerminal::Start);
        let end_point = polygon1.terminal(PolygonTerminal::End);
        self.polygons.set(polygon_id1, polygon1);
        proof {
            assert(self@.polygons.dom() =~= without_second.polygons.dom());
        }
        self.insert_polygon_by_terminal(PolygonTerminal::Start, polygon_id1, start_point);
        self.insert_polygon_by_terminal(PolygonTerminal::End, polygon_id1, end_point);
    }

    /// Puts a segment into the grid: it starts a polyline of its own, lengthens the
    /// polyline that one of its ends continues, joins the two polylines that its ends
    /// continue, or closes the one polyline that both of its ends continue.
    #[verifier::rlimit(50)]
    pub fn insert_line(&mut self, point1: glam::Vec2, point2: glam::Vec2)
        requires
            old(self).wf(),
            old(self)@.polygons.dom().len() < ARENA_LIMIT,
        ensures
            final(self).wf(),
            exists|fresh: PolygonId| !old(self)@.polygons.dom().contains(fresh) && #[trigger] old(self)@.polygons_with_line(point1, point2, fresh)
                == final(self)@.polygons,
            old(self)@.line_inserted(point1, point2, final(self)@),
            final(self)@.polygons.dom().len() <= old(self)@.polygons.dom().len() + 1,
    {
        let ghost start = self@;
        match self.try_take_connecting_polygon(copy_point_2d(&point1)) {
            Some((terminal1, polygon_id1)) => {
                proof {
                    lemma_connecting_is_live(start, point1);
                }
                let ghost mid = self@;
                match self.try_take_connecting_polygon(copy_point_2d(&point2)) {
                    Some((terminal2, polygon_id2)) => {
                        proof {
                            lemma_connecting_is_live(mid, point2);
                        }
                        self.merge_polygons(polygon_id1, terminal1, polygon_id2, terminal2);
                        proof {
                            if polygon_id1 != polygon_id2 {
                                assert(self@.polygons.dom() =~= start.polygons.dom().remove(polygon_id2));
                                vstd::set_lib::lemma_len_subset(self@.polygons.dom(), start.polygons.dom());
                            } else if !closed(start.polygons[polygon_id1]) {
                                assert(self@.polygons.dom() =~= start.polygons.dom());
                            }
                            lemma_some_fresh_id(start);
                            let fresh = choose|fresh: PolygonId| !start.polygons.dom().contains(fresh);
                            assert(start.polygons_with_line(point1, point2, fresh) == self@.polygons);
                            assert(self@ == start.with_line(point1, point2, fresh));
                            assert(self@ == final(self)@);
                        }
                    },
                    None => {
                        self.extend_polygon(polygon_id1, terminal1, point2);
                        proof {
                            assert(self@.polygons.dom() =~= start.polygons.dom());
                            lemma_some_fresh_id(start);
                            let fresh = choose|fresh: PolygonId| !start.polygons.dom().contains(fresh);
                            assert(start.polygons_with_line(point1, point2, fresh) == self@.polygons);
                            assert(self@ == start.with_line(point1, point2, fresh));
                            assert(self@ == final(self)@);
                        }
                    },
                }
            },
            None => {
                match self.try_take_connecting_polygon(copy_point_2d(&point2)) {
                    Some((terminal2, polygon_id2)) => {
                        proof {
                            lemma_connecting_is_live(start, point2);
                        }
                        self.extend_polygon(polygon_id2, terminal2, point1);
                        proof {
                            assert(self@.polygons.dom() =~= start.polygons.dom());
                            lemma_some_fresh_id(start);
                            let fresh = choose|fresh: PolygonId| !start.polygons.dom().contains(fresh);
                            assert(start.polygons_with_line(point1, point2, fresh) == self@.polygons);
                            assert(self@ == start.with_line(point1, point2, fresh));
                            assert(self@ == final(self)@);
                        }
                    },
                    None => {
                        let new_polygon = Polygon2::segment(copy_point_2d(&point1), copy_point_2d(&point2));
                        let new_polygon_id = self.polygons.insert(new_polygon);
                        proof {
                            assert(self@.polygons.dom() =~= start.polygons.dom().insert(new_polygon_id));
                        }
                        self.insert_polygon_by_terminal(PolygonTerminal::Start, new_polygon_id, point1);
                        self.insert_polygon_by_terminal(PolygonTerminal::End, new_polygon_id, point2);
                        proof {
                            assert(start.polygons_with_line(point1, point2, new_polygon_id) == self@.polygons);
                            assert(self@ == start.with_line(point1, point2, new_polygon_id));
                            assert(self@ == final(self)@);
                        }
                    },
                }
            },
        }
    }

    /// The polylines of the grid, each once, in no stated order.
    pub fn into_polygons(self) -> (polygons: Vec<Polygon2>)
        requires
            self.wf(),
        ensures
            exists|ids: Seq<PolygonId>| #[trigger] self@.listed_by(ids, polygons@),
            polygons@.len() == self@.polygons.dom().len(),
    {
        let ids = self.polygons.keys();
        let mut polygons: Vec<Polygon2> = Vec::new();
        let mut i: usize = 0;
        while i < ids.len()
            invariant
                i <= ids.len(),
                self.wf(),
                ids@.to_set() == self@.polygons.dom(),
                polygons@.len() == i,
                forall|k: int| 0 <= k < i ==> (#[trigger] polygons@[k])@ == self@.polygons[ids@[k]],
            decreases ids.len() - i,
        {
            proof {
                assert(ids@.to_set().contains(ids@[i as int]));
            }
            match self.polygon(ids[i]) {
                Some(polygon) => {
                    polygons.push(polygon);
                },
                None => {
                    proof {
                        assert(false);
                    }
                },
            }
            i = i + 1;
        }
        proof {
            ids@.unique_seq_to_set();
            assert(self@.listed_by(ids@, polygons@));
        }
        polygons
    }
}

/// One segment in the plane.
pub struct Segment2 {
    pub start: glam::Vec2,
    pub end: glam::Vec2,
}

/// Whether `polygons` are the polylines of the grid that the segments, put into an
/// empty grid one after the other, have made; in any order.
pub open spec fn stitched_from(origin: glam::Vec2, cells_per_unit: glam::Vec2, segments: Seq<Segment2>, polygons: Seq<Polygon2>) -> bool {
    exists|grid: GridModel, ids: Seq<PolygonId>|
        GridModel::empty(origin, cells_per_unit).lines_inserted(segments, segments.len(), grid) && #[trigger] grid.listed_by(ids, polygons)
}

/// Stitches segments into polylines: the segments are put, in their order, into an
/// empty grid that counts its cells from `min_bounds` and has `cell_fac` cells to the
/// unit along each axis, and the polylines of the grid are handed out, in no stated
/// order. Each segment makes at most one new polyline.
#[verifier::rlimit(50)]
pub fn stitch_segments(min_bounds: glam::Vec2, cell_fac: glam::Vec2, segments: &Vec<Segment2>) -> (polygons: Vec<Polygon2>)
    requires
        segments@.len() <= ARENA_LIMIT,
    ensures
        stitched_from(min_bounds, cell_fac, segments@, polygons@),
        polygons@.len() <= segments@.len(),
        segments@.len() == 0 ==> polygons@.len() == 0,
        segments@.len() == 1 ==> polygons@.len() == 1 && polygons@[0]@ == seq![segments@[0].start, segments@[0].end],
{
    let mut grid = HashGrid::new(min_bounds, cell_fac);
    let ghost mut first_id = PolygonId { raw: 0 };
    let mut i: usize = 0;
    proof {
        assert(grid@ == GridModel::empty(min_bounds, cell_fac));
    }
    while i < segments.len()
        invariant
            i <= segments.len(),
            segments@.len() <= ARENA_LIMIT,
            grid.wf(),
            grid@.polygons.dom().len() <= i,
            GridModel::empty(min_bounds, cell_fac).lines_inserted(segments@, i as nat, grid@),
            i == 0 ==> grid@.polygons == Map::<PolygonId, Seq<glam::Vec2>>::empty() && grid@.cells == Map::<
                (i32, i32),
                Seq<(PolygonTerminal, PolygonId)>,
            >::empty(),
            i == 1 ==> grid@.polygons == Map::<PolygonId, Seq<glam::Vec2>>::empty().insert(
                first_id,
                seq![segments@[0].start, segments@[0].end],
            ),
        decreases segments.len() - i,
    {
        let ghost before = grid@;
        grid.insert_line(copy_point_2d(&segments[i].start), copy_point_2d(&segments[i].end));
        proof {
            let n = (i + 1) as nat;
            assert(GridModel::empty(min_bounds, cell_fac).lines_inserted(segments@, (n - 1) as nat, before));
            assert(before.line_inserted(segments@[n - 1].start, segments@[n - 1].end, grid@));
            assert(GridModel::empty(min_bounds, cell_fac).lines_inserted(segments@, n, grid@));
            if i == 0 {
                let fresh = choose|fresh: PolygonId| !before.polygons.dom().contains(fresh) && #[trigger] before.polygons_with_line(
                    segments@[0].start,
                    segments@[0].end,
                    fresh,
                ) == grid@.polygons;
                assert(before.connecting(segments@[0].start) is None);
                assert(before.connecting(segments@[0].end) is None);
                assert(grid@.polygons == Map::<PolygonId, Seq<glam::Vec2>>::empty().insert(fresh, seq![segments@[0].start, segments@[0].end]));
                first_id = fresh;
            }
        }
        i = i + 1;
    }
    let ghost filled = grid@;
    let polygons = grid.into_polygons();
    proof {
        let listed = choose|ids: Seq<PolygonId>| #[trigger] filled.listed_by(ids, polygons@);
        assert(GridModel::empty(min_bounds, cell_fac).lines_inserted(segments@, segments@.len(), filled) && filled.listed_by(listed, polygons@));
        if segments@.len() == 1 {
            let id = first_id;
            let ids = choose|ids: Seq<PolygonId>| #[trigger] filled.listed_by(ids, polygons@);
            assert(filled.polygons.dom() =~= set![id]);
            assert(ids.to_set().contains(ids[0]));
            assert(ids[0] == id);
        }
    }
    polygons
}

/// A filter goes through a sequence item by item.
pub proof fn lemma_filter_push<A>(list: Seq<A>, item: A, keep: spec_fn(A) -> bool)
    ensures
        list.push(item).filter(keep) == (if keep(item) {
            list.filter(keep).push(item)
        } else {
            list.filter(keep)
        }),
{
    reveal(Seq::filter);
    assert(list.push(item).drop_last() =~= list);
}

/// The end of a polyline that connects to a point belongs to a live polyline.
pub proof fn lemma_connecting_is_live(grid: GridModel, point: glam::Vec2)
    ensures
        grid.connecting(point) is Some ==> grid.polygons.dom().contains((grid.connecting(point)->0).1),
        grid.taken(point).polygons == grid.polygons,
{
    if grid.cells.dom().contains(grid.cell_of(point)) {
        lemma_first_connecting(grid, grid.cells[grid.cell_of(point)], point, 0);
    }
}

/// The first connecting entry of a list is a position of the list and connects.
pub proof fn lemma_first_connecting(grid: GridModel, list: Seq<(PolygonTerminal, PolygonId)>, point: glam::Vec2, from: int)
    requires
        0 <= from,
    ensures
        grid.first_connecting(list, point, from) is Some ==> from <= grid.first_connecting(list, point, from)->0 < list.len() && grid.connects(
            list[grid.first_connecting(list, point, from)->0],
            point,
        ),
    decreases list.len() - from,
{
    if from < list.len() && !grid.connects(list[from], point) {
        lemma_first_connecting(grid, list, point, from + 1);
    }
}

/// A grid that is not full leaves an identifier unused.
pub proof fn lemma_some_fresh_id(grid: GridModel)
    requires
        grid.polygons.dom().finite(),
        grid.polygons.dom().len() <= ARENA_LIMIT,
    ensures
        exists|fresh: PolygonId| !grid.polygons.dom().contains(fresh),
{
    if forall|fresh: PolygonId| grid.polygons.dom().contains(fresh) {
        let many: int = 0x1_0000_0000;
        let range = vstd::set_lib::set_int_range(0, many);
        vstd::set_lib::lemma_int_range(0, many);
        let name = |raw: int| PolygonId { raw: raw as u64 };
        let ids = range.map(name);
        assert(vstd::relations::injective_on(name, range)) by {
            assert forall|x: int, y: int| range.contains(x) && range.contains(y) && #[trigger] name(x) == #[trigger] name(y) implies x == y by {
                assert(name(x).raw == x as u64);
                assert(name(y).raw == y as u64);
            }
        }
        vstd::set_lib::lemma_map_size(range, ids, name);
        assert(ids.subset_of(grid.polygons.dom()));
        vstd::set_lib::lemma_len_subset(ids, grid.polygons.dom());
        assert(false);
    }
}

} // verus!
