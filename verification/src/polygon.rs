//! Polylines in the plane and in space.

use vstd::prelude::*;
use std::collections::VecDeque;
use crate::geometry::{copy_point_2d, distance_squared_2d, lifted, vec2_distance_squared, vec2_lifted};

verus! {

/// Two ends of a polyline that are closer than this, as the bit pattern of a squared
/// distance, are taken for one point: a millionth.
pub const CLOSING_DISTANCE_SQUARED: u32 = 897988541;

/// One of the two ends of a polyline.
#[derive(Debug, Clone, Copy, PartialEq, Eq, Structural)]
pub enum PolygonTerminal {
    Start,
    End,
}

/// A polyline in the plane.
#[derive(Debug, Clone)]
pub struct Polygon2 {
    pub vertices: VecDeque<glam::Vec2>,
}

/// A polyline in space.
#[derive(Debug, Clone)]
pub struct Polygon3 {
    pub vertices: VecDeque<glam::Vec3>,
}

impl View for Polygon2 {
    type V = Seq<glam::Vec2>;

    open spec fn view(&self) -> Seq<glam::Vec2> {
        self.vertices@
    }
}

impl View for Polygon3 {
    type V = Seq<glam::Vec3>;

    open spec fn view(&self) -> Seq<glam::Vec3> {
        self.vertices@
    }
}

/// The end of `points` that `terminal` names.
pub open spec fn terminal_of(points: Seq<glam::Vec2>, terminal: PolygonTerminal) -> glam::Vec2 {
    match terminal {
        PolygonTerminal::Start => points[0],
        PolygonTerminal::End => points[points.len() - 1],
    }
}

/// `points` with `point` added at the end that `terminal` names.
pub open spec fn extended(points: Seq<glam::Vec2>, terminal: PolygonTerminal, point: glam::Vec2) -> Seq<glam::Vec2> {
    match terminal {
        PolygonTerminal::Start => seq![point] + points,
        PolygonTerminal::End => points.push(point),
    }
}

/// `mine` and `other` joined, end `my_terminal` of the one to end `other_terminal` of
/// the other; `other` is turned round where the two ends are of the same kind.
pub open spec fn joined(mine: Seq<glam::Vec2>, my_terminal: PolygonTerminal, other: Seq<glam::Vec2>, other_terminal: PolygonTerminal) -> Seq<
    glam::Vec2,
> {
    match my_terminal {
        PolygonTerminal::Start => match other_terminal {
            PolygonTerminal::Start => other.reverse() + mine,
            PolygonTerminal::End => other + mine,
        },
        PolygonTerminal::End => match other_terminal {
            PolygonTerminal::Start => mine + other,
            PolygonTerminal::End => mine + other.reverse(),
        },
    }
}

/// Whether the two ends of `points` lie within the closing distance of each other.
pub open spec fn closed(points: Seq<glam::Vec2>) -> bool {
    points.len() > 0 && vec2_distance_squared(points[0], points[points.len() - 1]) < CLOSING_DISTANCE_SQUARED
}

impl Polygon2 {
    /// The polyline of one segment from `start` to `end`.
    pub fn segment(start: glam::Vec2, end: glam::Vec2) -> (polygon: Polygon2)
        ensures
            polygon@ == seq![start, end],
    {
        let mut vertices: VecDeque<glam::Vec2> = VecDeque::new();
        vertices.push_back(start);
        vertices.push_back(end);
        proof {
            assert(vertices@ =~= seq![start, end]);
        }
        Polygon2 { vertices }
    }

    /// The point at one end of the polyline.
    pub fn terminal(&self, terminal: PolygonTerminal) -> (point: glam::Vec2)
        requires
            self@.len() > 0,
        ensures
            point == terminal_of(self@, terminal),
    {
        match terminal {
            PolygonTerminal::Start => copy_point_2d(&self.vertices[0]),
            PolygonTerminal::End => copy_point_2d(&self.vertices[self.vertices.len() - 1]),
        }
    }

    /// Lengthens the polyline by one point at one end.
    pub fn extend_by_line(&mut self, terminal: PolygonTerminal, other_line_end: glam::Vec2)
        ensures
            final(self)@ == extended(old(self)@, terminal, other_line_end),
    {
        match terminal {
            PolygonTerminal::Start => {
                self.vertices.push_front(other_line_end);
            },
            PolygonTerminal::End => {
                self.vertices.push_back(other_line_end);
            },
        }
    }

    /// Joins another polyline to one end of this one. The two are taken to meet at the
    /// given ends and to share no point.
    pub fn merge_polygon(&mut self, my_terminal: PolygonTerminal, other: Polygon2, other_terminal: PolygonTerminal)
        ensures
            final(self)@ == joined(old(self)@, my_terminal, other@, other_terminal),
    {
        let mut other = other;
        let turn = match my_terminal {
            PolygonTerminal::Start => match other_terminal {
                PolygonTerminal::Start => true,
                PolygonTerminal::End => false,
            },
            PolygonTerminal::End => match other_terminal {
                PolygonTerminal::Start => false,
                PolygonTerminal::End => true,
            },
        };
        let mut added: VecDeque<glam::Vec2> = VecDeque::new();
        if turn {
            let n = other.vertices.len();
            let mut i: usize = 0;
            while i < n
                invariant
                    i <= n,
                    n == other.vertices@.len(),
                    added@.len() == i,
                    forall|k: int| 0 <= k < i ==> added@[k] == other.vertices@.reverse()[k],
                decreases n - i,
            {
                added.push_back(copy_point_2d(&other.vertices[n - 1 - i]));
                i = i + 1;
            }
            proof {
                assert(added@ =~= other.vertices@.reverse());
            }
        } else {
            added.append(&mut other.vertices);
        }
        match my_terminal {
            PolygonTerminal::Start => {
                added.append(&mut self.vertices);
                self.vertices = added;
            },
            PolygonTerminal::End => {
                self.vertices.append(&mut added);
            },
        }
    }

    /// Whether the two ends of the polyline meet.
    pub fn is_closed(&self) -> (meets: bool)
        ensures
            meets == closed(self@),
    {
        if self.vertices.len() == 0 {
            false
        } else {
            distance_squared_2d(&self.vertices[0], &self.vertices[self.vertices.len() - 1]) < CLOSING_DISTANCE_SQUARED
        }
    }

    /// Closes the polyline by repeating its first point at its end, unless its two ends
    /// meet already.
    pub fn close(&mut self)
        requires
            old(self)@.len() > 0,
        ensures
            final(self)@ == (if closed(old(self)@) {
                old(self)@
            } else {
                old(self)@.push(old(self)@[0])
            }),
    {
        if !self.is_closed() {
            let first = copy_point_2d(&self.vertices[0]);
            self.vertices.push_back(first);
        }
    }
}

impl Polygon3 {
    /// The polyline in space that a transform makes of a polyline in the plane: each
    /// point is given a third coordinate of nought and transformed.
    pub fn from_polygon2_with_transform(polygon: Polygon2, transform: glam::Mat4) -> (lifted_polygon: Polygon3)
        ensures
            lifted_polygon@.len() == polygon@.len(),
            forall|i: int| 0 <= i < polygon@.len() ==> #[trigger] lifted_polygon@[i] == vec2_lifted(transform, polygon@[i]),
    {
        let mut vertices: VecDeque<glam::Vec3> = VecDeque::new();
        let mut i: usize = 0;
        while i < polygon.vertices.len()
            invariant
                i <= polygon.vertices.len(),
                vertices@.len() == i,
                forall|k: int| 0 <= k < i ==> #[trigger] vertices@[k] == vec2_lifted(transform, polygon@[k]),
            decreases polygon.vertices.len() - i,
        {
            vertices.push_back(lifted(&transform, &polygon.vertices[i]));
            i = i + 1;
        }
        Polygon3 { vertices }
    }
}

} // verus!
