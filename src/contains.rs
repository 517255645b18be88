use vstd::prelude::*;
use crate::intersects::{path_hits_segment, paths_hit, path_hits_segment_exec, paths_hit_exec};
use crate::types::{
    COORD_PRECISION, Point, Line, LineString, Polygon, MultiPolygon, Bbox, cross, cross_exec,
    min_of, max_of, seg_at,
};

verus! {

/// Checks whether the geometry `rhs` lies completely inside `self`.
pub trait Contains<Rhs> {
    spec fn spec_contains(&self, rhs: &Rhs) -> bool;

    fn contains(&self, rhs: &Rhs) -> (r: bool)
        ensures
            r == self.spec_contains(rhs),
    ;
}

/// Squared Euclidean distance between two points.
pub open spec fn dist_sq(a: Point, b: Point) -> int {
    (a.0.x - b.0.x) * (a.0.x - b.0.x) + (a.0.y - b.0.y) * (a.0.y - b.0.y)
}

/// Two points are the same when their distance is below `COORD_PRECISION`.
pub open spec fn same_point(a: Point, b: Point) -> bool {
    dist_sq(a, b) < COORD_PRECISION * COORD_PRECISION
}

/// `p` lies on the segment: collinear with it and inside its bounding box.
pub open spec fn on_segment(s: Line, p: Point) -> bool {
    &&& cross(s.start, s.end, p) == 0
    &&& min_of(s.start.0.x as int, s.end.0.x as int) <= p.0.x
    &&& p.0.x <= max_of(s.start.0.x as int, s.end.0.x as int)
    &&& min_of(s.start.0.y as int, s.end.0.y as int) <= p.0.y
    &&& p.0.y <= max_of(s.start.0.y as int, s.end.0.y as int)
}

/// `p` lies strictly inside the axis-aligned segment `a -> b`.
pub open spec fn axis_hit(a: Point, b: Point, p: Point) -> bool {
    ||| (a.0.y == b.0.y && a.0.y == p.0.y && min_of(a.0.x as int, b.0.x as int) < p.0.x
        && p.0.x < max_of(a.0.x as int, b.0.x as int))
    ||| (a.0.x == b.0.x && a.0.x == p.0.x && min_of(a.0.y as int, b.0.y as int) < p.0.y
        && p.0.y < max_of(a.0.y as int, b.0.y as int))
}

/// `p` is a vertex of the path, or lies strictly inside one of its
/// horizontal or vertical segments.
pub open spec fn path_contains_point(pts: Seq<Point>, p: Point) -> bool {
    ||| exists|i: int| 0 <= i < pts.len() && pts[i] == p
    ||| exists|i: int| 0 <= i < pts.len() - 1 && #[trigger] axis_hit(pts[i], pts[i + 1], p)
}

/// Every point of `pts` lies on the segment `s`.
pub open spec fn segment_contains_path(s: Line, pts: Seq<Point>) -> bool {
    forall|i: int| 0 <= i < pts.len() ==> on_segment(s, #[trigger] pts[i])
}

/// Executable `on_segment`.
pub fn on_segment_exec(s: &Line, p: &Point) -> (r: bool)
    ensures
        r == on_segment(*s, *p),
{
    let c = cross_exec(&s.start, &s.end, p);
    let (x0, x1) = (s.start.0.x, s.end.0.x);
    let (y0, y1) = (s.start.0.y, s.end.0.y);
    let (xlo, xhi) = if x0 <= x1 { (x0, x1) } else { (x1, x0) };
    let (ylo, yhi) = if y0 <= y1 { (y0, y1) } else { (y1, y0) };
    c == 0 && xlo <= p.0.x && p.0.x <= xhi && ylo <= p.0.y && p.0.y <= yhi
}

fn axis_hit_exec(a: &Point, b: &Point, p: &Point) -> (r: bool)
    ensures
        r == axis_hit(*a, *b, *p),
{
    let (xlo, xhi) = if a.0.x <= b.0.x { (a.0.x, b.0.x) } else { (b.0.x, a.0.x) };
    let (ylo, yhi) = if a.0.y <= b.0.y { (a.0.y, b.0.y) } else { (b.0.y, a.0.y) };
    (a.0.y == b.0.y && a.0.y == p.0.y && xlo < p.0.x && p.0.x < xhi) || (a.0.x == b.0.x && a.0.x
        == p.0.x && ylo < p.0.y && p.0.y < yhi)
}

/// `a` and `b` are the same point, within `COORD_PRECISION`.
pub fn point_contains_point(a: &Point, b: &Point) -> (r: bool)
    ensures
        r == same_point(*a, *b),
{
    let dx = a.0.x as i128 - b.0.x as i128;
    let dy = a.0.y as i128 - b.0.y as i128;
    proof {
        let k: int = 0x1_0000_0000;
        crate::types::lemma_mul_bound(dx as int, dx as int, k, k);
        crate::types::lemma_mul_bound(dy as int, dy as int, k, k);
    }
    let tol = COORD_PRECISION as i128;
    dx * dx + dy * dy < tol * tol
}

impl Contains<Point> for Point {
    open spec fn spec_contains(&self, p: &Point) -> bool {
        same_point(*self, *p)
    }

    fn contains(&self, p: &Point) -> (r: bool) {
        point_contains_point(self, p)
    }
}

/// `p` is a vertex of the path `pts`, or lies strictly inside one of its
/// horizontal or vertical segments.
pub fn line_string_contains_point(pts: &Vec<Point>, p: &Point) -> (r: bool)
    ensures
        r == path_contains_point(pts@, *p),
{
        let n = pts.len();
        let mut i: usize = 0;
        while i < n
            invariant
                n == pts@.len(),
                0 <= i <= n,
                forall|j: int| 0 <= j < i ==> pts@[j] != *p,
            decreases n - i,
        {
            if pts[i] == *p {
                assert(pts@[i as int] == *p);
                return true;
            }
            i = i + 1;
        }
        let mut i: usize = 0;
        while i + 1 < n
            invariant
                n == pts@.len(),
                i < n || i == 0,
                forall|j: int| 0 <= j < n ==> pts@[j] != *p,
                forall|j: int| 0 <= j < i ==> !#[trigger] axis_hit(pts@[j], pts@[j + 1], *p),
            decreases n - i,
        {
            if axis_hit_exec(&pts[i], &pts[i + 1], p) {
                assert(axis_hit(pts@[i as int], pts@[i + 1], *p));
                return true;
            }
            i = i + 1;
        }
        false
}

impl Contains<Point> for LineString {
    open spec fn spec_contains(&self, p: &Point) -> bool {
        path_contains_point(self.0@, *p)
    }

    fn contains(&self, p: &Point) -> (r: bool) {
        line_string_contains_point(&self.0, p)
    }
}

impl Contains<Point> for Line {
    open spec fn spec_contains(&self, p: &Point) -> bool {
        on_segment(*self, *p)
    }

    fn contains(&self, p: &Point) -> (r: bool) {
        on_segment_exec(self, p)
    }
}

impl Contains<Line> for Line {
    open spec fn spec_contains(&self, l: &Line) -> bool {
        on_segment(*self, l.start) && on_segment(*self, l.end)
    }

    fn contains(&self, l: &Line) -> (r: bool) {
        on_segment_exec(self, &l.start) && on_segment_exec(self, &l.end)
    }
}

impl Contains<LineString> for Line {
    open spec fn spec_contains(&self, ls: &LineString) -> bool {
        segment_contains_path(*self, ls.0@)
    }

    fn contains(&self, ls: &LineString) -> (r: bool) {
        let pts = &ls.0;
        let mut i: usize = 0;
        while i < pts.len()
            invariant
                0 <= i <= pts@.len(),
                pts@ == ls.0@,
                forall|j: int| 0 <= j < i ==> on_segment(*self, #[trigger] pts@[j]),
            decreases pts@.len() - i,
        {
            if !on_segment_exec(self, &pts[i]) {
                assert(!on_segment(*self, pts@[i as int]));
                return false;
            }
            i = i + 1;
        }
        true
    }
}

/// Where a point stands against a ring.
#[derive(Clone, Copy, Debug, PartialEq, Eq, Structural)]
pub enum PositionPoint {
    OnBoundary,
    Inside,
    Outside,
}

/// `p` lies left of, or on, the point where the line through `a` and `b`
/// meets the horizontal line at height `p.y`; `a` and `b` must differ in `y`.
/// Stated without division: both sides are multiplied by `b.y - a.y`.
pub open spec fn left_of_crossing(p: Point, a: Point, b: Point) -> bool {
    if b.0.y > a.0.y {
        (p.0.x - a.0.x) * (b.0.y - a.0.y) <= (p.0.y - a.0.y) * (b.0.x - a.0.x)
    } else {
        (p.0.x - a.0.x) * (b.0.y - a.0.y) >= (p.0.y - a.0.y) * (b.0.x - a.0.x)
    }
}

/// The rightward horizontal ray from `p` crosses the edge `a -> b`, with the
/// edge's vertical extent taken half-open, `(min, max]`.
pub open spec fn ray_crosses(p: Point, a: Point, b: Point) -> bool {
    &&& p.0.y > min_of(a.0.y as int, b.0.y as int)
    &&& p.0.y <= max_of(a.0.y as int, b.0.y as int)
    &&& p.0.x <= max_of(a.0.x as int, b.0.x as int)
    &&& (a.0.x == b.0.x || left_of_crossing(p, a, b))
}

/// How many of the first `k` edges of `pts` the ray from `p` crosses.
pub open spec fn crossings(p: Point, pts: Seq<Point>, k: int) -> nat
    decreases k,
{
    if k <= 0 {
        0
    } else {
        crossings(p, pts, k - 1) + if ray_crosses(p, pts[k - 1], pts[k]) {
            1nat
        } else {
            0nat
        }
    }
}

/// Even-odd classification of `p` against the ring `pts`.
pub open spec fn position(p: Point, pts: Seq<Point>) -> PositionPoint {
    if pts.len() == 0 {
        PositionPoint::Outside
    } else if path_contains_point(pts, p) {
        PositionPoint::OnBoundary
    } else if crossings(p, pts, pts.len() - 1) % 2 == 1 {
        PositionPoint::Inside
    } else {
        PositionPoint::Outside
    }
}

fn ray_crosses_exec(p: &Point, a: &Point, b: &Point) -> (r: bool)
    ensures
        r == ray_crosses(*p, *a, *b),
{
    let ylo = if a.0.y <= b.0.y { a.0.y } else { b.0.y };
    let yhi = if a.0.y <= b.0.y { b.0.y } else { a.0.y };
    let xhi = if a.0.x >= b.0.x { a.0.x } else { b.0.x };
    if p.0.y > ylo && p.0.y <= yhi && p.0.x <= xhi {
        if a.0.x == b.0.x {
            return true;
        }
        let ux = p.0.x as i128 - a.0.x as i128;
        let dy = b.0.y as i128 - a.0.y as i128;
        let uy = p.0.y as i128 - a.0.y as i128;
        let dx = b.0.x as i128 - a.0.x as i128;
        proof {
            let k: int = 0x1_0000_0000;
            crate::types::lemma_mul_bound(ux as int, dy as int, k, k);
            crate::types::lemma_mul_bound(uy as int, dx as int, k, k);
        }
        let lhs = ux * dy;
        let rhs = uy * dx;
        if b.0.y > a.0.y {
            lhs <= rhs
        } else {
            lhs >= rhs
        }
    } else {
        false
    }
}

/// Classifies `p` against the ring `ring`: on its boundary, inside it by the
/// even-odd rule, or outside it.
pub fn get_position(p: &Point, ring: &LineString) -> (r: PositionPoint)
    ensures
        r == position(*p, ring.0@),
{
    let pts = &ring.0;
    let n = pts.len();
    if n == 0 {
        return PositionPoint::Outside;
    }
    if line_string_contains_point(&ring.0, p) {
        return PositionPoint::OnBoundary;
    }
    let mut count: usize = 0;
    let mut i: usize = 0;
    while i + 1 < n
        invariant
            n == pts@.len(),
            pts@ == ring.0@,
            i < n,
            count == crossings(*p, pts@, i as int),
            count <= i,
        decreases n - i,
    {
        if ray_crosses_exec(p, &pts[i], &pts[i + 1]) {
            count = count + 1;
        }
        i = i + 1;
    }
    if count % 2 == 1 {
        PositionPoint::Inside
    } else {
        PositionPoint::Outside
    }
}

/// The look-for point after the segment `seg` is entered with `look`:
/// unchanged when one is active, else the far endpoint of `q` when `seg`
/// holds the near one.
pub open spec fn start_looking(seg: Line, q: Line, look: Option<Point>) -> Option<Point> {
    if look is Some {
        look
    } else if on_segment(seg, q.start) {
        Some(q.end)
    } else if on_segment(seg, q.end) {
        Some(q.start)
    } else {
        None
    }
}

/// The walk over the segments of `pts` from the `i`-th on, carrying the
/// optional look-for point: true once a segment holds the point looked
/// for; the point is dropped when a segment ends off `q`.
pub open spec fn walk(pts: Seq<Point>, q: Line, i: int, look: Option<Point>) -> bool
    decreases pts.len() - i,
{
    if i < 0 || i + 1 >= pts.len() {
        false
    } else {
        let seg = seg_at(pts, i);
        let look1 = start_looking(seg, q, look);
        match look1 {
            Some(t) => if on_segment(seg, t) {
                true
            } else if !on_segment(q, seg.end) {
                walk(pts, q, i + 1, None)
            } else {
                walk(pts, q, i + 1, look1)
            },
            None => walk(pts, q, i + 1, None),
        }
    }
}

impl Contains<Line> for LineString {
    open spec fn spec_contains(&self, q: &Line) -> bool {
        walk(self.0@, *q, 0, None)
    }

    fn contains(&self, q: &Line) -> (r: bool) {
        let pts = &self.0;
        let n = pts.len();
        let mut look: Option<Point> = None;
        let mut i: usize = 0;
        while i + 1 < n
            invariant
                n == pts@.len(),
                pts@ == self.0@,
                i < n || i == 0,
                walk(pts@, *q, 0, None) == walk(pts@, *q, i as int, look),
            decreases n - i,
        {
            let segment = Line::new(pts[i], pts[i + 1]);
            assert(segment == seg_at(pts@, i as int));
            if look.is_none() {
                if on_segment_exec(&segment, &q.start) {
                    look = Some(q.end);
                } else if on_segment_exec(&segment, &q.end) {
                    look = Some(q.start);
                }
            }
            if let Some(t) = look {
                if on_segment_exec(&segment, &t) {
                    return true;
                } else if !on_segment_exec(q, &segment.end) {
                    look = None;
                }
            }
            i = i + 1;
        }
        false
    }
}

/// `p` is inside the exterior ring, and outside every hole (a point on a
/// hole's boundary is not contained).
pub open spec fn polygon_contains_point(poly: Polygon, p: Point) -> bool {
    &&& position(p, poly.exterior.0@) == PositionPoint::Inside
    &&& forall|j: int|
        0 <= j < poly.interiors@.len() ==> position(p, #[trigger] poly.interiors@[j].0@)
            == PositionPoint::Outside
}

impl Contains<Point> for Polygon {
    open spec fn spec_contains(&self, p: &Point) -> bool {
        polygon_contains_point(*self, *p)
    }

    fn contains(&self, p: &Point) -> (r: bool) {
        match get_position(p, &self.exterior) {
            PositionPoint::OnBoundary => false,
            PositionPoint::Outside => false,
            PositionPoint::Inside => {
                let holes = &self.interiors;
                let mut j: usize = 0;
                while j < holes.len()
                    invariant
                        holes@ == self.interiors@,
                        0 <= j <= holes@.len(),
                        forall|k: int|
                            0 <= k < j ==> position(*p, #[trigger] holes@[k].0@)
                                == PositionPoint::Outside,
                    decreases holes@.len() - j,
                {
                    if get_position(p, &holes[j]) != PositionPoint::Outside {
                        assert(position(*p, holes@[j as int].0@) != PositionPoint::Outside);
                        return false;
                    }
                    j = j + 1;
                }
                true
            },
        }
    }
}

/// Some member of the collection contains `p`.
pub open spec fn multi_polygon_contains_point(polys: Seq<Polygon>, p: Point) -> bool {
    exists|k: int| 0 <= k < polys.len() && polygon_contains_point(#[trigger] polys[k], p)
}

impl Contains<Point> for MultiPolygon {
    open spec fn spec_contains(&self, p: &Point) -> bool {
        multi_polygon_contains_point(self.0@, *p)
    }

    fn contains(&self, p: &Point) -> (r: bool) {
        let polys = &self.0;
        let mut k: usize = 0;
        while k < polys.len()
            invariant
                polys@ == self.0@,
                0 <= k <= polys@.len(),
                forall|m: int| 0 <= m < k ==> !polygon_contains_point(#[trigger] polys@[m], *p),
            decreases polys@.len() - k,
        {
            if polys[k].contains(p) {
                return true;
            }
            k = k + 1;
        }
        false
    }
}

/// `p` lies in the box, its boundary included.
pub open spec fn bbox_contains_point(b: Bbox, p: Point) -> bool {
    b.xmin <= p.0.x <= b.xmax && b.ymin <= p.0.y <= b.ymax
}

/// The bounds of `outer` enclose those of `inner`, equal bounds included.
pub open spec fn bbox_contains_bbox(outer: Bbox, inner: Bbox) -> bool {
    outer.xmin <= inner.xmin && outer.xmax >= inner.xmax && outer.ymin <= inner.ymin
        && outer.ymax >= inner.ymax
}

impl Contains<Point> for Bbox {
    open spec fn spec_contains(&self, p: &Point) -> bool {
        bbox_contains_point(*self, *p)
    }

    fn contains(&self, p: &Point) -> (r: bool) {
        p.0.x >= self.xmin && p.0.x <= self.xmax && p.0.y >= self.ymin && p.0.y <= self.ymax
    }
}

impl Contains<Bbox> for Bbox {
    open spec fn spec_contains(&self, b: &Bbox) -> bool {
        bbox_contains_bbox(*self, *b)
    }

    fn contains(&self, b: &Bbox) -> (r: bool) {
        self.xmin <= b.xmin && self.xmax >= b.xmax && self.ymin <= b.ymin && self.ymax >= b.ymax
    }
}

/// Both endpoints of `l` are contained in the polygon and `l` meets neither
/// the exterior ring nor any hole.
pub open spec fn polygon_contains_segment(poly: Polygon, l: Line) -> bool {
    &&& polygon_contains_point(poly, l.start)
    &&& polygon_contains_point(poly, l.end)
    &&& !path_hits_segment(poly.exterior.0@, l)
    &&& forall|j: int|
        0 <= j < poly.interiors@.len() ==> !path_hits_segment(
            #[trigger] poly.interiors@[j].0@,
            l,
        )
}

/// Every vertex of the path is contained in the polygon and the path meets
/// neither the exterior ring nor any hole.
pub open spec fn polygon_contains_path(poly: Polygon, pts: Seq<Point>) -> bool {
    &&& forall|i: int| 0 <= i < pts.len() ==> polygon_contains_point(poly, #[trigger] pts[i])
    &&& !paths_hit(poly.exterior.0@, pts)
    &&& forall|j: int|
        0 <= j < poly.interiors@.len() ==> !paths_hit(#[trigger] poly.interiors@[j].0@, pts)
}

impl Contains<Line> for Polygon {
    open spec fn spec_contains(&self, l: &Line) -> bool {
        polygon_contains_segment(*self, *l)
    }

    fn contains(&self, l: &Line) -> (r: bool) {
        if !self.contains(&l.start) || !self.contains(&l.end) {
            return false;
        }
        if path_hits_segment_exec(&self.exterior.0, l) {
            return false;
        }
        let holes = &self.interiors;
        let mut j: usize = 0;
        while j < holes.len()
            invariant
                holes@ == self.interiors@,
                0 <= j <= holes@.len(),
                forall|k: int| 0 <= k < j ==> !path_hits_segment(#[trigger] holes@[k].0@, *l),
            decreases holes@.len() - j,
        {
            if path_hits_segment_exec(&holes[j].0, l) {
                assert(path_hits_segment(holes@[j as int].0@, *l));
                return false;
            }
            j = j + 1;
        }
        true
    }
}

impl Contains<LineString> for Polygon {
    open spec fn spec_contains(&self, ls: &LineString) -> bool {
        polygon_contains_path(*self, ls.0@)
    }

    fn contains(&self, ls: &LineString) -> (r: bool) {
        let pts = &ls.0;
        let mut i: usize = 0;
        while i < pts.len()
            invariant
                pts@ == ls.0@,
                0 <= i <= pts@.len(),
                forall|k: int| 0 <= k < i ==> polygon_contains_point(*self, #[trigger] pts@[k]),
            decreases pts@.len() - i,
        {
            if !self.contains(&pts[i]) {
                assert(!polygon_contains_point(*self, pts@[i as int]));
                return false;
            }
            i = i + 1;
        }
        if paths_hit_exec(&self.exterior.0, pts) {
            return false;
        }
        let holes = &self.interiors;
        let mut j: usize = 0;
        while j < holes.len()
            invariant
                holes@ == self.interiors@,
                pts@ == ls.0@,
                0 <= j <= holes@.len(),
                forall|k: int| 0 <= k < j ==> !paths_hit(#[trigger] holes@[k].0@, pts@),
            decreases holes@.len() - j,
        {
            if paths_hit_exec(&holes[j].0, pts) {
                assert(paths_hit(holes@[j as int].0@, pts@));
                return false;
            }
            j = j + 1;
        }
        true
    }
}

/// A point inside a hole, or on a hole's boundary, is never contained by
/// the polygon, whatever its position against the exterior ring.
pub proof fn lemma_hole_excludes(poly: Polygon, p: Point, j: int)
    requires
        0 <= j < poly.interiors@.len(),
        position(p, poly.interiors@[j].0@) != PositionPoint::Outside,
    ensures
        !polygon_contains_point(poly, p),
{
}

proof fn lemma_walk_reaches(pts: Seq<Point>, q: Line, k: int, i: int, look: Option<Point>)
    requires
        0 <= k <= i,
        look is None || look == Some(q.start) || look == Some(q.end),
        walk(pts, q, i, None),
        walk(pts, q, i, Some(q.start)),
        walk(pts, q, i, Some(q.end)),
    ensures
        walk(pts, q, k, look),
    decreases i - k,
{
    if k < i {
        let seg = seg_at(pts, k);
        let look1 = start_looking(seg, q, look);
        if look1 is Some {
            lemma_walk_reaches(pts, q, k + 1, i, look1);
        }
        lemma_walk_reaches(pts, q, k + 1, i, None);
    }
}

proof fn lemma_walk_finishes(pts: Seq<Point>, q: Line, k: int, j: int, t: Point)
    requires
        0 <= k <= j,
        j + 1 < pts.len(),
        on_segment(seg_at(pts, j), t),
        forall|m: int| k <= m < j ==> on_segment(q, #[trigger] pts[m + 1]),
    ensures
        walk(pts, q, k, Some(t)),
    decreases j - k,
{
    if k < j {
        lemma_walk_finishes(pts, q, k + 1, j, t);
        assert(on_segment(q, pts[k + 1]));
    }
}

/// A run of consecutive path segments, from the `i`-th to the `j`-th,
/// spans the query segment `q` when the first holds one endpoint of `q`,
/// the last holds the other, and every segment of the run but the last ends
/// on `q`. The path then contains `q`.
pub proof fn lemma_covering_run(pts: Seq<Point>, q: Line, i: int, j: int)
    requires
        0 <= i <= j,
        j + 1 < pts.len(),
        (on_segment(seg_at(pts, i), q.start) && on_segment(seg_at(pts, j), q.end)) || (
        on_segment(seg_at(pts, i), q.end) && on_segment(seg_at(pts, j), q.start)),
        forall|m: int| i <= m < j ==> on_segment(q, #[trigger] pts[m + 1]),
    ensures
        walk(pts, q, 0, None),
{
    let seg = seg_at(pts, i);
    let (e1, e2) = if on_segment(seg, q.start) && on_segment(seg_at(pts, j), q.end) {
        (q.start, q.end)
    } else {
        (q.end, q.start)
    };
    if i < j {
        lemma_walk_finishes(pts, q, i + 1, j, e2);
        assert(on_segment(q, pts[i + 1]));
    }
    assert(walk(pts, q, i, None));
    assert(walk(pts, q, i, Some(q.start)));
    assert(walk(pts, q, i, Some(q.end)));
    lemma_walk_reaches(pts, q, 0, i, None);
}

proof fn lemma_walk_misses(pts: Seq<Point>, q: Line, e: Point, k: int, look: Option<Point>)
    requires
        e == q.start || e == q.end,
        look is None || look == Some(e),
        forall|m: int| 0 <= m < pts.len() - 1 ==> !on_segment(#[trigger] seg_at(pts, m), e),
    ensures
        !walk(pts, q, k, look),
    decreases pts.len() - k,
{
    if 0 <= k && k + 1 < pts.len() {
        let seg = seg_at(pts, k);
        assert(!on_segment(seg, e));
        lemma_walk_misses(pts, q, e, k + 1, None);
        lemma_walk_misses(pts, q, e, k + 1, start_looking(seg, q, look));
    }
}

/// A path whose segments miss one endpoint of `q` does not contain `q`:
/// neither a segment with only one endpoint on the path, nor a collinear
/// one that reaches past the path's extent.
pub proof fn lemma_uncovered_endpoint(pts: Seq<Point>, q: Line, e: Point)
    requires
        e == q.start || e == q.end,
        forall|m: int| 0 <= m < pts.len() - 1 ==> !on_segment(#[trigger] seg_at(pts, m), e),
    ensures
        !walk(pts, q, 0, None),
{
    lemma_walk_misses(pts, q, e, 0, None);
}

/// Every box contains itself, and so any box with exactly its bounds.
pub proof fn lemma_bbox_reflexive(b: Bbox, c: Bbox)
    requires
        c.xmin == b.xmin && c.xmax == b.xmax && c.ymin == b.ymin && c.ymax == b.ymax,
    ensures
        bbox_contains_bbox(b, b),
        bbox_contains_bbox(b, c),
        bbox_contains_bbox(c, b),
{
}

/// A box contains the points of its boundary: its corners, when its
/// bounds are ordered.
pub proof fn lemma_bbox_boundary(b: Bbox, p: Point)
    requires
        b.xmin <= b.xmax,
        b.ymin <= b.ymax,
        p.0.x == b.xmin || p.0.x == b.xmax,
        p.0.y == b.ymin || p.0.y == b.ymax,
    ensures
        bbox_contains_point(b, p),
{
}

/// Box containment goes both ways only between equal boxes.
pub proof fn lemma_bbox_antisymmetric(a: Bbox, b: Bbox)
    requires
        bbox_contains_bbox(a, b),
        bbox_contains_bbox(b, a),
    ensures
        a == b,
{
}

} // verus!
