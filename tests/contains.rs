use geo::contains::{get_position, Contains, PositionPoint};
use geo::types::{Bbox, Coordinate, Line, LineString, MultiPolygon, Point, Polygon};

/// Lattice coordinates are hundredths of the values written here.
fn p(x: f64, y: f64) -> Point {
    Point(Coordinate { x: (x * 100.0).round() as i32, y: (y * 100.0).round() as i32 })
}

#[test]
fn contains_empty_linestring_test() {
    let linestring = LineString(Vec::new());
    assert!(!linestring.contains(&p(2., 1.)));
}

#[test]
fn linestring_point_is_vertex_test() {
    let linestring = LineString(vec![p(0., 0.), p(2., 0.), p(2., 2.)]);
    assert!(linestring.contains(&p(2., 2.)));
}

#[test]
fn contains_linestring_test() {
    let linestring = LineString(vec![p(0., 0.), p(2., 0.), p(2., 2.)]);
    assert!(linestring.contains(&p(1., 0.)));
}

#[test]
fn empty_polygon_test() {
    let linestring = LineString(Vec::new());
    let poly = Polygon::new(linestring, Vec::new());
    assert!(!poly.contains(&p(2., 1.)));
}

#[test]
fn polygon_with_one_point_test() {
    let linestring = LineString(vec![p(2., 1.)]);
    let poly = Polygon::new(linestring, Vec::new());
    assert!(!poly.contains(&p(3., 1.)));
}

#[test]
fn polygon_with_one_point_is_vertex_test() {
    let linestring = LineString(vec![p(2., 1.)]);
    let poly = Polygon::new(linestring, Vec::new());
    assert!(!poly.contains(&p(2., 1.)));
}

#[test]
fn polygon_with_point_on_boundary_test() {
    let linestring = LineString(vec![p(0., 0.), p(2., 0.), p(2., 2.), p(0., 2.), p(0., 0.)]);
    let poly = Polygon::new(linestring, Vec::new());
    assert!(!poly.contains(&p(1., 0.)));
    assert!(!poly.contains(&p(2., 1.)));
    assert!(!poly.contains(&p(1., 2.)));
    assert!(!poly.contains(&p(0., 1.)));
}

#[test]
fn point_in_polygon_test() {
    let linestring = LineString(vec![p(0., 0.), p(2., 0.), p(2., 2.), p(0., 2.), p(0., 0.)]);
    let poly = Polygon::new(linestring, Vec::new());
    assert!(poly.contains(&p(1., 1.)));
}

#[test]
fn point_out_polygon_test() {
    let linestring = LineString(vec![p(0., 0.), p(2., 0.), p(2., 2.), p(0., 2.), p(0., 0.)]);
    let poly = Polygon::new(linestring, Vec::new());
    assert!(!poly.contains(&p(2.1, 1.)));
    assert!(!poly.contains(&p(1., 2.1)));
    assert!(!poly.contains(&p(2.1, 2.1)));
}

#[test]
fn point_polygon_with_inner_test() {
    let linestring = LineString(vec![p(0., 0.), p(2., 0.), p(2., 2.), p(0., 2.), p(0., 0.)]);
    let inner_linestring = LineString(vec![
        p(0.5, 0.5),
        p(1.5, 0.5),
        p(1.5, 1.5),
        p(0.0, 1.5),
        p(0.0, 0.0),
    ]);
    let poly = Polygon::new(linestring, vec![inner_linestring]);
    assert!(poly.contains(&p(0.25, 0.25)));
    assert!(!poly.contains(&p(1., 1.)));
    assert!(!poly.contains(&p(1.5, 1.5)));
    assert!(!poly.contains(&p(1.5, 1.)));
}

#[test]
fn empty_multipolygon_test() {
    let multipoly = MultiPolygon(Vec::new());
    assert!(!multipoly.contains(&p(2., 1.)));
}

#[test]
fn empty_multipolygon_two_polygons_test() {
    let poly1 = Polygon::new(
        LineString(vec![p(0., 0.), p(1., 0.), p(1., 1.), p(0., 1.), p(0., 0.)]),
        Vec::new(),
    );
    let poly2 = Polygon::new(
        LineString(vec![p(2., 0.), p(3., 0.), p(3., 1.), p(2., 1.), p(2., 0.)]),
        Vec::new(),
    );
    let multipoly = MultiPolygon(vec![poly1, poly2]);
    assert!(multipoly.contains(&p(0.5, 0.5)));
    assert!(multipoly.contains(&p(2.5, 0.5)));
    assert!(!multipoly.contains(&p(1.5, 0.5)));
}

#[test]
fn empty_multipolygon_two_polygons_and_inner_test() {
    let poly1 = Polygon::new(
        LineString(vec![p(0., 0.), p(5., 0.), p(5., 6.), p(0., 6.), p(0., 0.)]),
        vec![LineString(vec![p(1., 1.), p(4., 1.), p(4., 4.), p(1., 1.)])],
    );
    let poly2 = Polygon::new(
        LineString(vec![p(9., 0.), p(14., 0.), p(14., 4.), p(9., 4.), p(9., 0.)]),
        Vec::new(),
    );
    let multipoly = MultiPolygon(vec![poly1, poly2]);
    assert!(multipoly.contains(&p(3., 5.)));
    assert!(multipoly.contains(&p(12., 2.)));
    assert!(!multipoly.contains(&p(3., 2.)));
    assert!(!multipoly.contains(&p(7., 2.)));
}

#[test]
fn linestring_in_polygon_with_linestring_is_boundary_test() {
    let linestring = LineString(vec![p(0., 0.), p(2., 0.), p(2., 2.), p(0., 2.), p(0., 0.)]);
    let poly = Polygon::new(linestring.clone(), Vec::new());
    assert!(!poly.contains(&linestring.clone()));
    assert!(!poly.contains(&LineString(vec![p(0., 0.), p(2., 0.)])));
    assert!(!poly.contains(&LineString(vec![p(2., 0.), p(2., 2.)])));
    assert!(!poly.contains(&LineString(vec![p(0., 2.), p(0., 0.)])));
}

#[test]
fn linestring_outside_polygon_test() {
    let linestring = LineString(vec![p(0., 0.), p(2., 0.), p(2., 2.), p(0., 2.), p(0., 0.)]);
    let poly = Polygon::new(linestring, Vec::new());
    assert!(!poly.contains(&LineString(vec![p(1., 1.), p(3., 0.)])));
    assert!(!poly.contains(&LineString(vec![p(3., 0.), p(5., 2.)])));
}

#[test]
fn linestring_in_inner_polygon_test() {
    let poly = Polygon::new(
        LineString(vec![p(0., 0.), p(5., 0.), p(5., 6.), p(0., 6.), p(0., 0.)]),
        vec![LineString(vec![p(1., 1.), p(4., 1.), p(4., 4.), p(1., 4.), p(1., 1.)])],
    );
    assert!(!poly.contains(&LineString(vec![p(2., 2.), p(3., 3.)])));
    assert!(!poly.contains(&LineString(vec![p(2., 2.), p(2., 5.)])));
    assert!(!poly.contains(&LineString(vec![p(3., 0.5), p(3., 5.)])));
}

#[test]
fn bbox_in_inner_bbox_test() {
    let bbox_xl = Bbox { xmin: -100, xmax: 100, ymin: -200, ymax: 200 };
    let bbox_sm = Bbox { xmin: -10, xmax: 10, ymin: -20, ymax: 20 };
    assert_eq!(true, bbox_xl.contains(&bbox_sm));
    assert_eq!(false, bbox_sm.contains(&bbox_xl));
}

#[test]
fn point_in_line_test() {
    let p0 = p(2., 4.);
    // vertical line
    let line1 = Line::new(p(2., 0.), p(2., 5.));
    // point on line, but outside line segment
    let line2 = Line::new(p(0., 6.), p(1.5, 4.5));
    // point on line
    let line3 = Line::new(p(0., 6.), p(3., 3.));
    assert!(line1.contains(&p0));
    assert!(!line2.contains(&p0));
    assert!(line3.contains(&p0));
}

#[test]
fn line_in_line_test() {
    let line0 = Line::new(p(0., 1.), p(3., 4.));
    // first point on line0, second not
    let line1 = Line::new(p(1., 2.), p(2., 2.));
    // co-linear, but extends past the end of line0
    let line2 = Line::new(p(1., 2.), p(4., 5.));
    // contained in line0
    let line3 = Line::new(p(1., 2.), p(3., 4.));
    assert!(!line0.contains(&line1));
    assert!(!line0.contains(&line2));
    assert!(line0.contains(&line3));
}

#[test]
fn linestring_in_line_test() {
    let line = Line::new(p(0., 1.), p(3., 4.));
    // linestring0 in line
    let linestring0 = LineString(vec![p(0.1, 1.1), p(1., 2.), p(1.5, 2.5)]);
    // linestring1 starts and ends in line, but wanders in the middle
    let linestring1 = LineString(vec![p(0.1, 1.1), p(2., 2.), p(1.5, 2.5)]);
    // linestring2 is co-linear, but extends beyond line
    let linestring2 = LineString(vec![p(0.1, 1.1), p(1., 2.), p(4., 5.)]);
    // no part of linestring3 is contained in line
    let linestring3 = LineString(vec![p(1.1, 1.1), p(2., 2.), p(2.5, 2.5)]);
    assert!(line.contains(&linestring0));
    assert!(!line.contains(&linestring1));
    assert!(!line.contains(&linestring2));
    assert!(!line.contains(&linestring3));
}

#[test]
fn line_in_polygon_test() {
    let line = Line::new(p(0., 1.), p(3., 4.));
    let linestring0 = LineString(vec![p(-1., 0.), p(5., 0.), p(5., 5.), p(0., 5.), p(-1., 0.)]);
    let poly0 = Polygon::new(linestring0, Vec::new());
    let linestring1 = LineString(vec![p(0., 0.), p(0., 2.), p(2., 2.), p(2., 0.), p(0., 0.)]);
    let poly1 = Polygon::new(linestring1, Vec::new());
    assert!(poly0.contains(&line));
    assert!(!poly1.contains(&line));
}

#[test]
fn line_in_linestring_test() {
    let line0 = Line::new(p(1., 1.), p(2., 2.));
    // line0 is completely contained in the second segment
    let linestring0 = LineString(vec![p(0., 0.5), p(0.5, 0.5), p(3., 3.)]);
    // line0 is contained in the last three segments
    let linestring1 = LineString(vec![
        p(0., 0.5),
        p(0.5, 0.5),
        p(1.2, 1.2),
        p(1.5, 1.5),
        p(3., 3.),
    ]);
    // line0 endpoints are contained in the linestring, but the fourth point is off the line
    let linestring2 = LineString(vec![
        p(0., 0.5),
        p(0.5, 0.5),
        p(1.2, 1.2),
        p(1.5, 0.),
        p(2., 2.),
        p(3., 3.),
    ]);
    assert!(linestring0.contains(&line0));
    assert!(linestring1.contains(&line0));
    assert!(!linestring2.contains(&line0));
}

fn unit_square() -> Polygon {
    Polygon::new(
        LineString(vec![p(0., 0.), p(2., 0.), p(2., 2.), p(0., 2.), p(0., 0.)]),
        Vec::new(),
    )
}

#[test]
fn point_equality_within_tolerance() {
    assert!(Point::new(2, 0).contains(&Point::new(2, 0)));
    assert!(!Point::new(2, 0).contains(&Point::new(3, 0)));
    assert!(!Point::new(0, 0).contains(&Point::new(1, 1)));
}

#[test]
fn diagonal_edge_point_is_not_on_path_but_on_ring_boundary_pass() {
    let ring = LineString(vec![p(0., 0.), p(2., 2.), p(0., 2.), p(0., 0.)]);
    assert!(!ring.contains(&p(1., 1.)));
    assert_eq!(get_position(&p(0.5, 1.5), &ring), PositionPoint::Inside);
    assert_eq!(get_position(&p(0., 1.), &ring), PositionPoint::OnBoundary);
    assert_eq!(get_position(&p(3., 1.), &ring), PositionPoint::Outside);
}

#[test]
fn position_against_empty_ring_is_outside() {
    assert_eq!(get_position(&p(0., 0.), &LineString(Vec::new())), PositionPoint::Outside);
}

#[test]
fn square_contains_centre_not_edges() {
    let poly = unit_square();
    assert!(poly.contains(&p(1., 1.)));
    for q in [p(1., 0.), p(2., 1.), p(1., 2.), p(0., 1.)] {
        assert!(!poly.contains(&q));
    }
}

#[test]
fn hole_interior_and_boundary_are_excluded() {
    let poly = Polygon::new(
        LineString(vec![p(0., 0.), p(10., 0.), p(10., 10.), p(0., 10.), p(0., 0.)]),
        vec![LineString(vec![p(4., 4.), p(6., 4.), p(6., 6.), p(4., 6.), p(4., 4.)])],
    );
    assert!(poly.contains(&p(2., 2.)));
    assert!(!poly.contains(&p(5., 5.)));
    assert!(!poly.contains(&p(5., 4.)));
    assert!(!poly.contains(&p(4., 4.)));
    assert!(!poly.contains(&p(6., 5.)));
}

#[test]
fn segment_spanned_by_collinear_run() {
    let path = LineString(vec![p(0., 0.), p(1., 0.), p(2., 0.), p(3., 0.), p(3., 3.)]);
    assert!(path.contains(&Line::new(p(0.5, 0.), p(2.5, 0.))));
    assert!(path.contains(&Line::new(p(2.5, 0.), p(0.5, 0.))));
    // collinear, but reaching past the path's extent
    assert!(!path.contains(&Line::new(p(0.5, 0.), p(4., 0.))));
    // one endpoint on the path only
    assert!(!path.contains(&Line::new(p(0.5, 0.), p(1., 1.))));
}

#[test]
fn path_leaving_the_line_breaks_coverage() {
    let path = LineString(vec![p(0., 0.), p(1., 0.), p(1., 1.), p(2., 0.), p(3., 0.)]);
    assert!(!path.contains(&Line::new(p(0.5, 0.), p(2.5, 0.))));
}

#[test]
fn polygon_contains_interior_path_and_segment() {
    let poly = unit_square();
    assert!(poly.contains(&LineString(vec![p(0.5, 0.5), p(1.5, 0.5), p(1.5, 1.5)])));
    assert!(poly.contains(&Line::new(p(0.5, 0.5), p(1.5, 1.5))));
    assert!(!poly.contains(&Line::new(p(0.5, 0.5), p(2., 1.))));
}

#[test]
fn box_contains_itself_and_its_boundary() {
    let b = Bbox { xmin: 0, xmax: 10, ymin: -5, ymax: 5 };
    let same = Bbox { xmin: 0, xmax: 10, ymin: -5, ymax: 5 };
    assert!(b.contains(&b));
    assert!(b.contains(&same));
    assert!(b.contains(&Point::new(0, -5)));
    assert!(b.contains(&Point::new(10, 5)));
    assert!(b.contains(&Point::new(10, 0)));
    assert!(!b.contains(&Point::new(11, 0)));
}

#[test]
fn box_containment_is_not_symmetric() {
    let a = Bbox { xmin: 0, xmax: 10, ymin: 0, ymax: 10 };
    let b = Bbox { xmin: 0, xmax: 10, ymin: 2, ymax: 10 };
    assert!(a.contains(&b));
    assert!(!b.contains(&a));
}
