use vstd::prelude::*;
use crate::types::{Point, Line, cross, cross_exec, seg_at};
use crate::contains::{on_segment, on_segment_exec};

verus! {

/// The endpoints of `b` lie strictly on opposite sides of the line through `a`.
pub open spec fn straddles(a: Line, b: Line) -> bool {
    ||| (cross(a.start, a.end, b.start) > 0 && cross(a.start, a.end, b.end) < 0)
    ||| (cross(a.start, a.end, b.start) < 0 && cross(a.start, a.end, b.end) > 0)
}

/// The two segments share at least one point: they cross properly, or an
/// endpoint of one lies on the other.
pub open spec fn segments_intersect(a: Line, b: Line) -> bool {
    ||| (straddles(a, b) && straddles(b, a))
    ||| on_segment(a, b.start)
    ||| on_segment(a, b.end)
    ||| on_segment(b, a.start)
    ||| on_segment(b, a.end)
}

/// Some segment of the path `pts` meets `l`.
pub open spec fn path_hits_segment(pts: Seq<Point>, l: Line) -> bool {
    exists|i: int| 0 <= i < pts.len() - 1 && #[trigger] segments_intersect(seg_at(pts, i), l)
}

/// Some segment of the path `a` meets some segment of the path `b`.
pub open spec fn paths_hit(a: Seq<Point>, b: Seq<Point>) -> bool {
    exists|j: int| 0 <= j < b.len() - 1 && #[trigger] path_hits_segment(a, seg_at(b, j))
}

fn straddles_exec(a: &Line, b: &Line) -> (r: bool)
    ensures
        r == straddles(*a, *b),
{
    let c0 = cross_exec(&a.start, &a.end, &b.start);
    let c1 = cross_exec(&a.start, &a.end, &b.end);
    (c0 > 0 && c1 < 0) || (c0 < 0 && c1 > 0)
}

/// Whether the two segments share a point.
pub fn segments_intersect_exec(a: &Line, b: &Line) -> (r: bool)
    ensures
        r == segments_intersect(*a, *b),
{
    (straddles_exec(a, b) && straddles_exec(b, a)) || on_segment_exec(a, &b.start)
        || on_segment_exec(a, &b.end) || on_segment_exec(b, &a.start) || on_segment_exec(
        b,
        &a.end,
    )
}

/// Whether some segment of the path `pts` meets `l`.
pub fn path_hits_segment_exec(pts: &Vec<Point>, l: &Line) -> (r: bool)
    ensures
        r == path_hits_segment(pts@, *l),
{
    let n = pts.len();
    let mut i: usize = 0;
    while i + 1 < n
        invariant
            n == pts@.len(),
            i < n || i == 0,
            forall|k: int| 0 <= k < i ==> !#[trigger] segments_intersect(seg_at(pts@, k), *l),
        decreases n - i,
    {
        let seg = Line::new(pts[i], pts[i + 1]);
        assert(seg == seg_at(pts@, i as int));
        if segments_intersect_exec(&seg, l) {
            return true;
        }
        i = i + 1;
    }
    false
}

/// Whether some segment of the path `a` meets some segment of the path `b`.
pub fn paths_hit_exec(a: &Vec<Point>, b: &Vec<Point>) -> (r: bool)
    ensures
        r == paths_hit(a@, b@),
{
    let n = b.len();
    let mut j: usize = 0;
    while j + 1 < n
        invariant
            n == b@.len(),
            j < n || j == 0,
            forall|k: int| 0 <= k < j ==> !#[trigger] path_hits_segment(a@, seg_at(b@, k)),
        decreases n - j,
    {
        let seg = Line::new(b[j], b[j + 1]);
        assert(seg == seg_at(b@, j as int));
        if path_hits_segment_exec(a, &seg) {
            return true;
        }
        j = j + 1;
    }
    false
}

} // verus!
