use vstd::prelude::*;
use crate::types::{
    Coordinate, Point, Line, LineString, Polygon, MultiPoint, MultiLineString, MultiPolygon, Bbox,
    Geometry,
};
use crate::contains::{
    same_point, path_contains_point, point_contains_point, line_string_contains_point,
};
use crate::area::{
    ring_twice_area, ring_area, fits_i128, rings_twice_area, polygon_twice_area,
};

verus! {

/// The point with coordinates `x` and `y`.
pub open spec fn point_at(x: i32, y: i32) -> Point {
    Point(Coordinate { x, y })
}

/// A value that can stand as a point.
pub trait PointTrait: Sized {
    spec fn spec_x(&self) -> i32;

    spec fn spec_y(&self) -> i32;

    fn x(&self) -> (r: i32)
        ensures
            r == self.spec_x(),
    ;

    fn y(&self) -> (r: i32)
        ensures
            r == self.spec_y(),
    ;

    fn eq_coordinates(&self, other: &Point) -> (r: bool)
        ensures
            r == (self.spec_x() == other.0.x && self.spec_y() == other.0.y),
    {
        self.x() == other.0.x && self.y() == other.0.y
    }

    fn contains_point(&self, other: &Point) -> (r: bool)
        ensures
            r == same_point(point_at(self.spec_x(), self.spec_y()), *other),
    {
        point_contains_point(&Point::new(self.x(), self.y()), other)
    }
}

/// A value that can stand as a path.
pub trait LineStringTrait {
    spec fn spec_points(&self) -> Seq<Point>;

    fn points(&self) -> (r: Vec<Point>)
        ensures
            r@ == self.spec_points(),
    ;

    fn contains_point(&self, p: &Point) -> (r: bool)
        ensures
            r == path_contains_point(self.spec_points(), *p),
    {
        line_string_contains_point(&self.points(), p)
    }
}

/// Twice the area of a polygon given as rings, the exterior first: the
/// exterior's area minus those of the first `k - 1` holes.
pub open spec fn rings_polygon_twice_area(rings: Seq<Seq<Point>>, k: int) -> int
    decreases k,
{
    if k <= 0 {
        0
    } else if k == 1 {
        ring_twice_area(rings[0])
    } else {
        rings_polygon_twice_area(rings, k - 1) - ring_twice_area(rings[k - 1])
    }
}

/// Each partial difference on the way to the area of `rings` fits in 128 bits.
pub open spec fn rings_area_fits(rings: Seq<Seq<Point>>) -> bool {
    forall|k: int| 1 <= k <= rings.len() ==> fits_i128(#[trigger] rings_polygon_twice_area(rings, k))
}

/// A value that can stand as a polygon: its rings, the exterior first.
pub trait PolygonTrait {
    spec fn spec_rings(&self) -> Seq<Seq<Point>>;

    fn rings(&self) -> (r: Vec<Vec<Point>>)
        ensures
            r@.len() == self.spec_rings().len(),
            forall|i: int| 0 <= i < r@.len() ==> (#[trigger] r@[i])@ == self.spec_rings()[i],
    ;

    fn area(&self) -> (r: crate::area::AreaValue)
        requires
            rings_area_fits(self.spec_rings()),
        ensures
            r.halves == rings_polygon_twice_area(self.spec_rings(), self.spec_rings().len() as int),
    {
        let rings = self.rings();
        assert(views_of(rings@) =~= self.spec_rings());
        crate::area::AreaValue { halves: rings_area(&rings) }
    }
}

/// The point sequences held by `v`.
pub open spec fn views_of(v: Seq<Vec<Point>>) -> Seq<Seq<Point>> {
    v.map_values(|r: Vec<Point>| r@)
}

/// Twice the area of a polygon given as rings, the exterior first.
pub fn rings_area(rings: &Vec<Vec<Point>>) -> (r: i128)
    requires
        rings_area_fits(views_of(rings@)),
    ensures
        r == rings_polygon_twice_area(views_of(rings@), rings@.len() as int),
{
    let mut total: i128 = 0;
    let mut k: usize = 0;
    while k < rings.len()
        invariant
            rings_area_fits(views_of(rings@)),
            0 <= k <= rings@.len(),
            total == rings_polygon_twice_area(views_of(rings@), k as int),
        decreases rings@.len() - k,
    {
        let a = ring_area(&rings[k]);
        proof {
            assert(views_of(rings@)[k as int] == rings@[k as int]@);
            assert(fits_i128(rings_polygon_twice_area(views_of(rings@), k + 1)));
        }
        if k == 0 {
            total = a;
        } else {
            total = total - a;
        }
        k = k + 1;
    }
    total
}

/// Twice the summed areas of the first `k` polygons of `polys`, each given
/// as rings.
pub open spec fn polygons_rings_twice_area(polys: Seq<Seq<Seq<Point>>>, k: int) -> int
    decreases k,
{
    if k <= 0 {
        0
    } else {
        polygons_rings_twice_area(polys, k - 1) + rings_polygon_twice_area(
            polys[k - 1],
            polys[k - 1].len() as int,
        )
    }
}

/// Each polygon's area, and each partial sum of them, fits in 128 bits.
pub open spec fn polygons_rings_area_fits(polys: Seq<Seq<Seq<Point>>>) -> bool {
    &&& forall|k: int| 0 <= k < polys.len() ==> rings_area_fits(#[trigger] polys[k])
    &&& forall|k: int|
        0 <= k <= polys.len() ==> fits_i128(#[trigger] polygons_rings_twice_area(polys, k))
}

/// A value that can stand as a collection of points.
pub trait MultiPointTrait {
    spec fn spec_points(&self) -> Seq<Point>;

    fn points(&self) -> (r: Vec<Point>)
        ensures
            r@ == self.spec_points(),
    ;
}

/// A value that can stand as a collection of paths.
pub trait MultiLineStringTrait {
    spec fn spec_lines(&self) -> Seq<Seq<Point>>;

    fn lines(&self) -> (r: Vec<Vec<Point>>)
        ensures
            r@.len() == self.spec_lines().len(),
            forall|i: int| 0 <= i < r@.len() ==> (#[trigger] r@[i])@ == self.spec_lines()[i],
    ;
}

/// A value that can stand as a collection of polygons, each given as rings.
pub trait MultiPolygonTrait {
    spec fn spec_polygons(&self) -> Seq<Seq<Seq<Point>>>;

    fn polygons(&self) -> (r: Vec<Vec<Vec<Point>>>)
        ensures
            r@.len() == self.spec_polygons().len(),
            forall|i: int|
                0 <= i < r@.len() ==> (#[trigger] r@[i])@.len() == self.spec_polygons()[i].len(),
            forall|i: int, j: int|
                0 <= i < r@.len() && 0 <= j < r@[i]@.len() ==> (#[trigger] r@[i]@[j])@
                    == self.spec_polygons()[i][j],
    ;

    fn area(&self) -> (r: crate::area::AreaValue)
        requires
            polygons_rings_area_fits(self.spec_polygons()),
        ensures
            r.halves == polygons_rings_twice_area(
                self.spec_polygons(),
                self.spec_polygons().len() as int,
            ),
    {
        let polys = self.polygons();
        let mut total: i128 = 0;
        let mut k: usize = 0;
        while k < polys.len()
            invariant
                polys@.len() == self.spec_polygons().len(),
                forall|i: int|
                    0 <= i < polys@.len() ==> (#[trigger] polys@[i])@.len()
                        == self.spec_polygons()[i].len(),
                forall|i: int, j: int|
                    0 <= i < polys@.len() && 0 <= j < polys@[i]@.len() ==> (#[trigger] polys@[i]@[j])@
                        == self.spec_polygons()[i][j],
                polygons_rings_area_fits(self.spec_polygons()),
                0 <= k <= polys@.len(),
                total == polygons_rings_twice_area(self.spec_polygons(), k as int),
            decreases polys@.len() - k,
        {
            proof {
                assert(views_of(polys@[k as int]@) =~= self.spec_polygons()[k as int]);
                assert(rings_area_fits(self.spec_polygons()[k as int]));
            }
            let a = rings_area(&polys[k]);
            proof {
                assert(fits_i128(polygons_rings_twice_area(self.spec_polygons(), k + 1)));
            }
            total = total + a;
            k = k + 1;
        }
        crate::area::AreaValue { halves: total }
    }
}

/// A copy of the points of `v`.
pub fn copy_points(v: &Vec<Point>) -> (r: Vec<Point>)
    ensures
        r@ == v@,
{
    let mut r: Vec<Point> = Vec::new();
    let mut i: usize = 0;
    while i < v.len()
        invariant
            0 <= i <= v@.len(),
            r@ == v@.subrange(0, i as int),
        decreases v@.len() - i,
    {
        r.push(v[i]);
        i = i + 1;
    }
    assert(r@ =~= v@);
    r
}

/// Copies of the point sequences of `ls`.
fn copy_paths(ls: &Vec<LineString>) -> (r: Vec<Vec<Point>>)
    ensures
        r@.len() == ls@.len(),
        forall|i: int| 0 <= i < r@.len() ==> (#[trigger] r@[i])@ == ls@[i].0@,
{
    let mut r: Vec<Vec<Point>> = Vec::new();
    let mut i: usize = 0;
    while i < ls.len()
        invariant
            0 <= i <= ls@.len(),
            r@.len() == i,
            forall|j: int| 0 <= j < i ==> (#[trigger] r@[j])@ == ls@[j].0@,
        decreases ls@.len() - i,
    {
        r.push(copy_points(&ls[i].0));
        i = i + 1;
    }
    r
}

/// The rings of `p`, the exterior first.
pub open spec fn polygon_rings(p: Polygon) -> Seq<Seq<Point>> {
    seq![p.exterior.0@] + p.interiors@.map_values(|l: LineString| l.0@)
}

fn polygon_rings_exec(p: &Polygon) -> (r: Vec<Vec<Point>>)
    ensures
        r@.len() == polygon_rings(*p).len(),
        forall|i: int| 0 <= i < r@.len() ==> (#[trigger] r@[i])@ == polygon_rings(*p)[i],
{
    let mut r: Vec<Vec<Point>> = Vec::new();
    r.push(copy_points(&p.exterior.0));
    let holes = &p.interiors;
    let mut j: usize = 0;
    while j < holes.len()
        invariant
            holes@ == p.interiors@,
            0 <= j <= holes@.len(),
            r@.len() == j + 1,
            r@[0]@ == p.exterior.0@,
            forall|i: int| 1 <= i <= j ==> (#[trigger] r@[i])@ == holes@[i - 1].0@,
        decreases holes@.len() - j,
    {
        r.push(copy_points(&holes[j].0));
        j = j + 1;
    }
    r
}

impl PointTrait for Point {
    open spec fn spec_x(&self) -> i32 {
        self.0.x
    }

    open spec fn spec_y(&self) -> i32 {
        self.0.y
    }

    fn x(&self) -> (r: i32) {
        self.0.x
    }

    fn y(&self) -> (r: i32) {
        self.0.y
    }
}

impl LineStringTrait for LineString {
    open spec fn spec_points(&self) -> Seq<Point> {
        self.0@
    }

    fn points(&self) -> (r: Vec<Point>) {
        copy_points(&self.0)
    }
}

impl MultiPointTrait for MultiPoint {
    open spec fn spec_points(&self) -> Seq<Point> {
        self.0@
    }

    fn points(&self) -> (r: Vec<Point>) {
        copy_points(&self.0)
    }
}

impl MultiLineStringTrait for MultiLineString {
    open spec fn spec_lines(&self) -> Seq<Seq<Point>> {
        self.0@.map_values(|l: LineString| l.0@)
    }

    fn lines(&self) -> (r: Vec<Vec<Point>>) {
        copy_paths(&self.0)
    }
}

impl PolygonTrait for Polygon {
    open spec fn spec_rings(&self) -> Seq<Seq<Point>> {
        polygon_rings(*self)
    }

    fn rings(&self) -> (r: Vec<Vec<Point>>) {
        polygon_rings_exec(self)
    }
}

impl MultiPolygonTrait for MultiPolygon {
    open spec fn spec_polygons(&self) -> Seq<Seq<Seq<Point>>> {
        self.0@.map_values(|p: Polygon| polygon_rings(p))
    }

    fn polygons(&self) -> (r: Vec<Vec<Vec<Point>>>) {
        let polys = &self.0;
        let mut r: Vec<Vec<Vec<Point>>> = Vec::new();
        let mut k: usize = 0;
        while k < polys.len()
            invariant
                polys@ == self.0@,
                0 <= k <= polys@.len(),
                r@.len() == k,
                forall|i: int| 0 <= i < k ==> (#[trigger] r@[i])@.len() == polygon_rings(polys@[i]).len(),
                forall|i: int, j: int|
                    0 <= i < k && 0 <= j < r@[i]@.len() ==> (#[trigger] r@[i]@[j])@
                        == polygon_rings(polys@[i])[j],
            decreases polys@.len() - k,
        {
            r.push(polygon_rings_exec(&polys[k]));
            k = k + 1;
        }
        r
    }
}

proof fn lemma_rings_prefix_area(p: Polygon, k: int)
    requires
        1 <= k <= polygon_rings(p).len(),
    ensures
        rings_polygon_twice_area(polygon_rings(p), k) == ring_twice_area(p.exterior.0@)
            - rings_twice_area(p.interiors@, k - 1),
    decreases k,
{
    if k > 1 {
        lemma_rings_prefix_area(p, k - 1);
        assert(polygon_rings(p)[k - 1] == p.interiors@[k - 2].0@);
    }
}

/// The area computed from a polygon's rings, exterior first, is the
/// polygon's area.
pub proof fn lemma_rings_area_agrees(p: Polygon)
    ensures
        rings_polygon_twice_area(polygon_rings(p), polygon_rings(p).len() as int)
            == polygon_twice_area(p),
{
    lemma_rings_prefix_area(p, polygon_rings(p).len() as int);
}

/// A value that can stand as a `Geometry`.
pub trait ToGeo {
    /// `g` holds the same geometry as `self`.
    spec fn spec_same_geo(&self, g: Geometry) -> bool;

    fn to_geo(&self) -> (r: Geometry)
        ensures
            self.spec_same_geo(r),
    ;
}

fn copy_polygon(p: &Polygon) -> (r: Polygon)
    ensures
        r.exterior.0@ == p.exterior.0@,
        r.interiors@.len() == p.interiors@.len(),
        forall|i: int| 0 <= i < r.interiors@.len() ==> (#[trigger] r.interiors@[i]).0@
            == p.interiors@[i].0@,
{
    let holes = &p.interiors;
    let mut copies: Vec<LineString> = Vec::new();
    let mut j: usize = 0;
    while j < holes.len()
        invariant
            0 <= j <= holes@.len(),
            copies@.len() == j,
            forall|i: int| 0 <= i < j ==> (#[trigger] copies@[i]).0@ == holes@[i].0@,
        decreases holes@.len() - j,
    {
        copies.push(LineString(copy_points(&holes[j].0)));
        j = j + 1;
    }
    Polygon { exterior: LineString(copy_points(&p.exterior.0)), interiors: copies }
}

impl ToGeo for Point {
    open spec fn spec_same_geo(&self, g: Geometry) -> bool {
        g == Geometry::Point(*self)
    }

    fn to_geo(&self) -> (r: Geometry) {
        Geometry::Point(*self)
    }
}

impl ToGeo for Line {
    open spec fn spec_same_geo(&self, g: Geometry) -> bool {
        g == Geometry::Line(*self)
    }

    fn to_geo(&self) -> (r: Geometry) {
        Geometry::Line(*self)
    }
}

impl ToGeo for Bbox {
    open spec fn spec_same_geo(&self, g: Geometry) -> bool {
        g == Geometry::Bbox(*self)
    }

    fn to_geo(&self) -> (r: Geometry) {
        Geometry::Bbox(*self)
    }
}

impl ToGeo for LineString {
    open spec fn spec_same_geo(&self, g: Geometry) -> bool {
        match g {
            Geometry::LineString(l) => l.0@ == self.0@,
            _ => false,
        }
    }

    fn to_geo(&self) -> (r: Geometry) {
        Geometry::LineString(LineString(copy_points(&self.0)))
    }
}

impl ToGeo for MultiPoint {
    open spec fn spec_same_geo(&self, g: Geometry) -> bool {
        match g {
            Geometry::MultiPoint(m) => m.0@ == self.0@,
            _ => false,
        }
    }

    fn to_geo(&self) -> (r: Geometry) {
        Geometry::MultiPoint(MultiPoint(copy_points(&self.0)))
    }
}

impl ToGeo for Polygon {
    open spec fn spec_same_geo(&self, g: Geometry) -> bool {
        match g {
            Geometry::Polygon(p) => polygon_rings(p) == polygon_rings(*self),
            _ => false,
        }
    }

    fn to_geo(&self) -> (r: Geometry) {
        let c = copy_polygon(self);
        assert(polygon_rings(c) =~= polygon_rings(*self));
        Geometry::Polygon(c)
    }
}

impl ToGeo for MultiLineString {
    open spec fn spec_same_geo(&self, g: Geometry) -> bool {
        match g {
            Geometry::MultiLineString(m) => m.spec_lines() == self.spec_lines(),
            _ => false,
        }
    }

    fn to_geo(&self) -> (r: Geometry) {
        let lines = &self.0;
        let mut copies: Vec<LineString> = Vec::new();
        let mut j: usize = 0;
        while j < lines.len()
            invariant
                lines@ == self.0@,
                0 <= j <= lines@.len(),
                copies@.len() == j,
                forall|i: int| 0 <= i < j ==> (#[trigger] copies@[i]).0@ == lines@[i].0@,
            decreases lines@.len() - j,
        {
            copies.push(LineString(copy_points(&lines[j].0)));
            j = j + 1;
        }
        let m = MultiLineString(copies);
        assert(m.spec_lines() =~= self.spec_lines());
        Geometry::MultiLineString(m)
    }
}

impl ToGeo for MultiPolygon {
    open spec fn spec_same_geo(&self, g: Geometry) -> bool {
        match g {
            Geometry::MultiPolygon(m) => m.spec_polygons() == self.spec_polygons(),
            _ => false,
        }
    }

    fn to_geo(&self) -> (r: Geometry) {
        let polys = &self.0;
        let mut copies: Vec<Polygon> = Vec::new();
        let mut k: usize = 0;
        while k < polys.len()
            invariant
                polys@ == self.0@,
                0 <= k <= polys@.len(),
                copies@.len() == k,
                forall|i: int| 0 <= i < k ==> polygon_rings(#[trigger] copies@[i]) == polygon_rings(polys@[i]),
            decreases polys@.len() - k,
        {
            let c = copy_polygon(&polys[k]);
            assert(polygon_rings(c) =~= polygon_rings(polys@[k as int]));
            copies.push(c);
            k = k + 1;
        }
        let m = MultiPolygon(copies);
        assert(m.spec_polygons() =~= self.spec_polygons());
        Geometry::MultiPolygon(m)
    }
}

} // verus!
