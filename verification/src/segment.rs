use vstd::prelude::*;

use crate::geometry::{
    coord_in_offset_range, coord_in_range, point_in_offset_range, point_in_range, Point3, UNIT,
};

verus! {

/// One curve segment of the drawing.
///
/// An arc lies on the circle of `center` and `radius`; `normal` orients its
/// plane, and the angles (degrees counter-clockwise from the local x axis, in
/// fixed-point steps of 10^-9 degree) describe where on the circle it starts
/// and ends.  Because placing a point from an angle takes trigonometry, the
/// adapter that builds a segment also records the two placed endpoints
/// `start` and `end`; the library reads those and carries the angles through
/// for whoever serializes the result.
///
/// `Unsupported` stands for drawing records with no usable geometry (text,
/// annotations, and every kind this library does not model); they travel
/// through the pipeline untouched.
#[derive(Clone, Copy, PartialEq, Eq, Structural, Debug)]
pub enum Segment {
    Line { p1: Point3, p2: Point3 },
    Arc {
        center: Point3,
        radius: i64,
        normal: Point3,
        start_angle: i64,
        end_angle: i64,
        start: Point3,
        end: Point3,
    },
    Circle { center: Point3, radius: i64, normal: Point3 },
    Unsupported,
}

/// The canonical +Z plane orientation: the only one whose arcs have usable
/// endpoints.
pub open spec fn is_plus_z(n: Point3) -> bool {
    n.x == 0 && n.y == 0 && n.z == UNIT
}

/// The directionless endpoint pair of a segment, or `None` for shapes with no
/// free ends: circles are inherently closed, arcs outside the +Z plane are
/// not handled, and unsupported records carry no geometry.
pub open spec fn endpoints_spec(s: Segment) -> Option<(Point3, Point3)> {
    match s {
        Segment::Line { p1, p2 } => Some((p1, p2)),
        Segment::Circle { .. } => None,
        Segment::Arc { normal, start, end, .. } => if is_plus_z(normal) {
            Some((start, end))
        } else {
            None
        },
        Segment::Unsupported => None,
    }
}

/// Every coordinate and radius of the segment lies within `COORD_LIMIT`.
pub open spec fn segment_in_range(s: Segment) -> bool {
    match s {
        Segment::Line { p1, p2 } => point_in_range(p1) && point_in_range(p2),
        Segment::Arc { center, radius, start, end, .. } => point_in_range(center)
            && coord_in_range(radius as int) && point_in_range(start) && point_in_range(end),
        Segment::Circle { center, radius, .. } => point_in_range(center) && coord_in_range(
            radius as int,
        ),
        Segment::Unsupported => true,
    }
}

/// Every coordinate and radius of the segment lies within `OFFSET_LIMIT`, the
/// room needed so its displaced copies stay in range.
pub open spec fn segment_in_offset_range(s: Segment) -> bool {
    match s {
        Segment::Line { p1, p2 } => point_in_offset_range(p1) && point_in_offset_range(p2),
        Segment::Arc { center, radius, start, end, .. } => point_in_offset_range(center)
            && coord_in_offset_range(radius as int) && point_in_offset_range(start)
            && point_in_offset_range(end),
        Segment::Circle { center, radius, .. } => point_in_offset_range(center)
            && coord_in_offset_range(radius as int),
        Segment::Unsupported => true,
    }
}

pub proof fn lemma_endpoints_in_range(s: Segment)
    requires
        segment_in_range(s),
    ensures
        match endpoints_spec(s) {
            Some((a, b)) => point_in_range(a) && point_in_range(b),
            None => true,
        },
{
}

} // verus!
