use vstd::prelude::*;

verus! {

/// Two points closer than this many lattice units are the same point.
pub const COORD_PRECISION: i64 = 1;

/// A position on the integer lattice.
#[derive(Clone, Copy, Debug, PartialEq, Eq, Structural)]
pub struct Coordinate {
    pub x: i32,
    pub y: i32,
}

/// A point, wrapping its coordinate.
#[derive(Clone, Copy, Debug, PartialEq, Eq, Structural)]
pub struct Point(pub Coordinate);

impl Point {
    pub fn new(x: i32, y: i32) -> (r: Point)
        ensures
            r.0.x == x,
            r.0.y == y,
    {
        Point(Coordinate { x, y })
    }

    pub fn x(&self) -> (r: i32)
        ensures
            r == self.0.x,
    {
        self.0.x
    }

    pub fn y(&self) -> (r: i32)
        ensures
            r == self.0.y,
    {
        self.0.y
    }
}

/// A segment from `start` to `end`.
#[derive(Clone, Copy, Debug, PartialEq, Eq, Structural)]
pub struct Line {
    pub start: Point,
    pub end: Point,
}

impl Line {
    pub fn new(start: Point, end: Point) -> (r: Line)
        ensures
            r.start == start,
            r.end == end,
    {
        Line { start, end }
    }
}

/// An ordered sequence of points; a ring when its first and last points
/// coincide, which nothing here checks.
#[derive(Clone, Debug)]
pub struct LineString(pub Vec<Point>);

impl LineString {
    pub fn points(&self) -> (r: &Vec<Point>)
        ensures
            r@ == self.0@,
    {
        &self.0
    }
}

/// An exterior ring with its holes.
#[derive(Clone, Debug)]
pub struct Polygon {
    pub exterior: LineString,
    pub interiors: Vec<LineString>,
}

impl Polygon {
    pub fn new(exterior: LineString, interiors: Vec<LineString>) -> (r: Polygon)
        ensures
            r.exterior.0@ == exterior.0@,
            r.interiors@ == interiors@,
    {
        Polygon { exterior, interiors }
    }
}

/// A collection of independent polygons.
#[derive(Clone, Debug)]
pub struct MultiPolygon(pub Vec<Polygon>);

/// A collection of independent paths.
#[derive(Clone, Debug)]
pub struct MultiLineString(pub Vec<LineString>);

/// A collection of independent points.
#[derive(Clone, Debug)]
pub struct MultiPoint(pub Vec<Point>);

/// An axis-aligned box; nothing requires `xmin <= xmax` or `ymin <= ymax`.
#[derive(Clone, Copy, Debug, PartialEq, Eq, Structural)]
pub struct Bbox {
    pub xmin: i32,
    pub xmax: i32,
    pub ymin: i32,
    pub ymax: i32,
}

/// A geometry of any kind.
#[derive(Clone, Debug)]
pub enum Geometry {
    Point(Point),
    Line(Line),
    LineString(LineString),
    Polygon(Polygon),
    MultiPoint(MultiPoint),
    MultiLineString(MultiLineString),
    MultiPolygon(MultiPolygon),
    Bbox(Bbox),
}

/// Twice the cross product of `b - a` and `p - a`: zero when the three
/// points are collinear, positive when `p` lies to the left of `a -> b`.
pub open spec fn cross(a: Point, b: Point, p: Point) -> int {
    (b.0.x - a.0.x) * (p.0.y - a.0.y) - (b.0.y - a.0.y) * (p.0.x - a.0.x)
}

/// The smaller of `a` and `b`.
pub open spec fn min_of(a: int, b: int) -> int {
    if a <= b { a } else { b }
}

/// The larger of `a` and `b`.
pub open spec fn max_of(a: int, b: int) -> int {
    if a >= b { a } else { b }
}

/// The segment from the `i`-th to the `i + 1`-th point of `pts`.
pub open spec fn seg_at(pts: Seq<Point>, i: int) -> Line {
    Line { start: pts[i], end: pts[i + 1] }
}

/// Products of bounded factors are bounded.
pub proof fn lemma_mul_bound(u: int, v: int, bu: int, bv: int)
    requires
        -bu <= u <= bu,
        -bv <= v <= bv,
    ensures
        -(bu * bv) <= u * v <= bu * bv,
{
    assert(-(bu * bv) <= u * v <= bu * bv) by (nonlinear_arith)
        requires
            -bu <= u <= bu,
            -bv <= v <= bv,
    ;
}

/// Executable `cross`, exact in 128 bits for any lattice points.
pub fn cross_exec(a: &Point, b: &Point, p: &Point) -> (r: i128)
    ensures
        r == cross(*a, *b, *p),
{
    let ux = b.0.x as i128 - a.0.x as i128;
    let uy = b.0.y as i128 - a.0.y as i128;
    let vx = p.0.x as i128 - a.0.x as i128;
    let vy = p.0.y as i128 - a.0.y as i128;
    proof {
        let k: int = 0x1_0000_0000;
        lemma_mul_bound(ux as int, vy as int, k, k);
        lemma_mul_bound(uy as int, vx as int, k, k);
    }
    ux * vy - uy * vx
}

} // verus!
