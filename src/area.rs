use vstd::prelude::*;
use crate::types::{Point, LineString, Polygon, MultiPolygon, Bbox, lemma_mul_bound};

verus! {

/// An exact signed area, held as a count of half square units: the area of
/// a lattice polygon is always a multiple of one half.
#[derive(Clone, Copy, Debug, PartialEq, Eq, Structural)]
pub struct AreaValue {
    pub halves: i128,
}

/// Calculation of the signed area.
pub trait Area {
    /// Twice the signed area.
    spec fn spec_twice_area(&self) -> int;

    /// The area, and each partial sum that computes it, fit in 128 bits.
    spec fn area_fits(&self) -> bool;

    fn area(&self) -> (r: AreaValue)
        requires
            self.area_fits(),
        ensures
            r.halves == self.spec_twice_area(),
    ;
}

/// `v` is a value of `i128`.
pub open spec fn fits_i128(v: int) -> bool {
    i128::MIN <= v <= i128::MAX
}

/// The shoelace term of the edge `a -> b`.
pub open spec fn shoelace_term(a: Point, b: Point) -> int {
    a.0.x * b.0.y - b.0.x * a.0.y
}

/// The shoelace sum over the first `k` edges of `pts`.
pub open spec fn shoelace(pts: Seq<Point>, k: int) -> int
    decreases k,
{
    if k <= 0 {
        0
    } else {
        shoelace(pts, k - 1) + shoelace_term(pts[k - 1], pts[k])
    }
}

/// Twice the signed area of a ring: zero for fewer than two points.
pub open spec fn ring_twice_area(pts: Seq<Point>) -> int {
    if pts.len() <= 1 {
        0
    } else {
        shoelace(pts, pts.len() - 1)
    }
}

/// Twice the summed areas of the first `k` rings of `rings`.
pub open spec fn rings_twice_area(rings: Seq<LineString>, k: int) -> int
    decreases k,
{
    if k <= 0 {
        0
    } else {
        rings_twice_area(rings, k - 1) + ring_twice_area(rings[k - 1].0@)
    }
}

/// Twice the polygon's area: its exterior ring's minus those of its holes.
pub open spec fn polygon_twice_area(p: Polygon) -> int {
    ring_twice_area(p.exterior.0@) - rings_twice_area(p.interiors@, p.interiors@.len() as int)
}

/// Each partial difference on the way to the polygon's area fits in 128 bits.
pub open spec fn polygon_area_fits(p: Polygon) -> bool {
    forall|k: int|
        0 <= k <= p.interiors@.len() ==> fits_i128(
            ring_twice_area(p.exterior.0@) - #[trigger] rings_twice_area(p.interiors@, k),
        )
}

/// Twice the summed areas of the first `k` polygons of `polys`.
pub open spec fn polygons_twice_area(polys: Seq<Polygon>, k: int) -> int
    decreases k,
{
    if k <= 0 {
        0
    } else {
        polygons_twice_area(polys, k - 1) + polygon_twice_area(polys[k - 1])
    }
}

/// Each member's area, and each partial sum of them, fits in 128 bits.
pub open spec fn multi_polygon_area_fits(polys: Seq<Polygon>) -> bool {
    &&& forall|k: int| 0 <= k < polys.len() ==> polygon_area_fits(#[trigger] polys[k])
    &&& forall|k: int| 0 <= k <= polys.len() ==> fits_i128(#[trigger] polygons_twice_area(polys, k))
}

/// Twice the box's area, `(xmax - xmin) * (ymax - ymin)`.
pub open spec fn bbox_twice_area(b: Bbox) -> int {
    2 * ((b.xmax - b.xmin) * (b.ymax - b.ymin))
}

/// A bound on one shoelace term of lattice points.
const TERM_BOUND: i128 = 0x8000_0000_0000_0000;

/// Twice the signed area of the ring, by the shoelace formula; zero for an
/// empty or one-point ring.
pub fn get_linestring_area(ring: &LineString) -> (r: i128)
    ensures
        r == ring_twice_area(ring.0@),
        ring.0@.len() <= 1 ==> r == 0,
{
    ring_area(&ring.0)
}

/// `get_linestring_area` on a bare sequence of points.
pub fn ring_area(pts: &Vec<Point>) -> (r: i128)
    ensures
        r == ring_twice_area(pts@),
{
    let n = pts.len();
    if n <= 1 {
        return 0;
    }
    let mut tmp: i128 = 0;
    let mut i: usize = 0;
    while i + 1 < n
        invariant
            n == pts@.len(),
            n >= 2,
            i < n,
            tmp == shoelace(pts@, i as int),
            -(i * TERM_BOUND) <= tmp <= i * TERM_BOUND,
        decreases n - i,
    {
        let a = pts[i];
        let b = pts[i + 1];
        proof {
            let k: int = 0x8000_0000;
            lemma_mul_bound(a.0.x as int, b.0.y as int, k, k);
            lemma_mul_bound(b.0.x as int, a.0.y as int, k, k);
        }
        let term = a.0.x as i128 * b.0.y as i128 - b.0.x as i128 * a.0.y as i128;
        tmp = tmp + term;
        i = i + 1;
    }
    tmp
}

impl Area for Polygon {
    open spec fn spec_twice_area(&self) -> int {
        polygon_twice_area(*self)
    }

    open spec fn area_fits(&self) -> bool {
        polygon_area_fits(*self)
    }

    fn area(&self) -> (r: AreaValue) {
        let holes = &self.interiors;
        let outer = get_linestring_area(&self.exterior);
        let mut total: i128 = outer;
        let mut j: usize = 0;
        proof {
            assert(rings_twice_area(holes@, 0) == 0);
        }
        while j < holes.len()
            invariant
                holes@ == self.interiors@,
                polygon_area_fits(*self),
                0 <= j <= holes@.len(),
                outer == ring_twice_area(self.exterior.0@),
                total == outer - rings_twice_area(holes@, j as int),
            decreases holes@.len() - j,
        {
            let h = get_linestring_area(&holes[j]);
            proof {
                assert(fits_i128(outer - rings_twice_area(holes@, j + 1)));
            }
            total = total - h;
            j = j + 1;
        }
        AreaValue { halves: total }
    }
}

impl Area for MultiPolygon {
    open spec fn spec_twice_area(&self) -> int {
        polygons_twice_area(self.0@, self.0@.len() as int)
    }

    open spec fn area_fits(&self) -> bool {
        multi_polygon_area_fits(self.0@)
    }

    fn area(&self) -> (r: AreaValue) {
        let polys = &self.0;
        let mut total: i128 = 0;
        let mut k: usize = 0;
        while k < polys.len()
            invariant
                polys@ == self.0@,
                multi_polygon_area_fits(polys@),
                0 <= k <= polys@.len(),
                total == polygons_twice_area(polys@, k as int),
            decreases polys@.len() - k,
        {
            assert(polygon_area_fits(polys@[k as int]));
            let a = polys[k].area();
            proof {
                assert(fits_i128(polygons_twice_area(polys@, k + 1)));
            }
            total = total + a.halves;
            k = k + 1;
        }
        AreaValue { halves: total }
    }
}

impl Area for Bbox {
    open spec fn spec_twice_area(&self) -> int {
        bbox_twice_area(*self)
    }

    open spec fn area_fits(&self) -> bool {
        true
    }

    fn area(&self) -> (r: AreaValue) {
        let w = self.xmax as i128 - self.xmin as i128;
        let h = self.ymax as i128 - self.ymin as i128;
        proof {
            let k: int = 0x1_0000_0000;
            lemma_mul_bound(w as int, h as int, k, k);
        }
        AreaValue { halves: 2 * (w * h) }
    }
}

/// An empty or one-point ring has area exactly zero.
pub proof fn lemma_degenerate_ring_area(pts: Seq<Point>)
    requires
        pts.len() <= 1,
    ensures
        ring_twice_area(pts) == 0,
{
}

proof fn lemma_prefix_area(a: Seq<Polygon>, b: Seq<Polygon>, k: int)
    requires
        0 <= k <= a.len(),
    ensures
        polygons_twice_area(a + b, k) == polygons_twice_area(a, k),
    decreases k,
{
    if k > 0 {
        lemma_prefix_area(a, b, k - 1);
        assert((a + b)[k - 1] == a[k - 1]);
    }
}

proof fn lemma_suffix_area(a: Seq<Polygon>, b: Seq<Polygon>, m: int)
    requires
        0 <= m <= b.len(),
    ensures
        polygons_twice_area(a + b, a.len() + m) == polygons_twice_area(a, a.len() as int)
            + polygons_twice_area(b, m),
    decreases m,
{
    if m == 0 {
        lemma_prefix_area(a, b, a.len() as int);
    } else {
        lemma_suffix_area(a, b, m - 1);
        assert((a + b)[a.len() + m - 1] == b[m - 1]);
    }
}

/// The area of a collection is additive: the collection `a` followed by
/// `b` has the area of `a` plus the area of `b`. In particular a
/// collection's area is the sum of its members' areas.
pub proof fn lemma_collection_area_additive(a: Seq<Polygon>, b: Seq<Polygon>)
    ensures
        polygons_twice_area(a + b, (a + b).len() as int) == polygons_twice_area(a, a.len() as int)
            + polygons_twice_area(b, b.len() as int),
{
    lemma_suffix_area(a, b, b.len() as int);
}

/// A one-polygon collection has that polygon's area.
pub proof fn lemma_single_member_area(p: Polygon)
    ensures
        polygons_twice_area(seq![p], 1) == polygon_twice_area(p),
{
    assert(polygons_twice_area(seq![p], 0) == 0);
}

} // verus!
