use vstd::prelude::*;

use crate::geometry::{
    coord_in_offset_range, coord_in_range, div_trunc, point_in_offset_range, divide_toward_zero, isqrt,
    lemma_div_trunc_bound, lemma_sqrt_floor_maximal,
    sqrt_floor, Point3, OFFSET_LIMIT,
};
use crate::contour::{combine_model, ends_in_range, Contour, ContourModel};
use crate::errors::{KerfAdjustmentError, KerfAdjustmentErrorReason};
use crate::segment::{
    endpoints_spec, lemma_endpoints_in_range, segment_in_offset_range, segment_in_range, Segment,
};

verus! {

/// A stored arc endpoint must lie no further than the radius from the center
/// along each axis (true of any point on the arc's circle); radial scaling
/// stays in machine range only then.
pub open spec fn arc_point_near_center(center: Point3, radius: int, p: Point3) -> bool {
    &&& -radius <= p.x - center.x <= radius
    &&& -radius <= p.y - center.y <= radius
    &&& -radius <= p.z - center.z <= radius
}

/// The endpoint of an arc whose radius changed from `den` to `num`, found by
/// scaling the radial vector: the same point the arc's angle places on the
/// new circle, up to the rounding of one coordinate step.
pub open spec fn scale_about(center: Point3, p: Point3, num: int, den: int) -> Point3 {
    Point3 {
        x: (center.x + div_trunc((p.x - center.x) * num, den)) as i64,
        y: (center.y + div_trunc((p.y - center.y) * num, den)) as i64,
        z: (center.z + div_trunc((p.z - center.z) * num, den)) as i64,
    }
}

/// `p` displaced by the rounded perpendicular step `(ox, oy)`.
pub open spec fn translate_xy(p: Point3, ox: int, oy: int) -> Point3 {
    Point3 { x: (p.x + ox) as i64, y: (p.y + oy) as i64, z: p.z }
}

/// The two displaced copies of one segment, one for each side of the path:
/// the first moved by `+amount`, the second by `-amount`.
///
/// A line is shifted along the unit perpendicular of its direction in the
/// drawing plane (the cross product of the direction with the +Z normal),
/// each coordinate rounded toward zero.  An arc or circle keeps its center
/// and grows or shrinks by `amount`; arc endpoints are scaled radially so
/// they stay on the arc's rays.  `None` when the segment cannot be offset:
/// unsupported records, zero-length lines, and arcs whose radius or stored
/// endpoints are degenerate.
pub open spec fn offset_candidates(s: Segment, amount: int) -> Option<(Segment, Segment)> {
    match s {
        Segment::Line { p1, p2 } => {
            let dx = p2.x - p1.x;
            let dy = p2.y - p1.y;
            let len = sqrt_floor(dx * dx + dy * dy);
            if len == 0 {
                None
            } else {
                let ox = div_trunc(amount * dy, len);
                let oy = div_trunc(amount * -dx, len);
                Some(
                    (
                        Segment::Line {
                            p1: translate_xy(p1, ox, oy),
                            p2: translate_xy(p2, ox, oy),
                        },
                        Segment::Line {
                            p1: translate_xy(p1, -ox, -oy),
                            p2: translate_xy(p2, -ox, -oy),
                        },
                    ),
                )
            }
        },
        Segment::Arc { center, radius, normal, start_angle, end_angle, start, end } => {
            if radius < 1 || !arc_point_near_center(center, radius as int, start)
                || !arc_point_near_center(center, radius as int, end) {
                None
            } else {
                Some(
                    (
                        Segment::Arc {
                            center,
                            radius: (radius + amount) as i64,
                            normal,
                            start_angle,
                            end_angle,
                            start: scale_about(center, start, radius + amount, radius as int),
                            end: scale_about(center, end, radius + amount, radius as int),
                        },
                        Segment::Arc {
                            center,
                            radius: (radius - amount) as i64,
                            normal,
                            start_angle,
                            end_angle,
                            start: scale_about(center, start, radius - amount, radius as int),
                            end: scale_about(center, end, radius - amount, radius as int),
                        },
                    ),
                )
            }
        },
        Segment::Circle { center, radius, normal } => Some(
            (
                Segment::Circle { center, radius: (radius + amount) as i64, normal },
                Segment::Circle { center, radius: (radius - amount) as i64, normal },
            ),
        ),
        Segment::Unsupported => None,
    }
}

/// Scales one coordinate's radial distance to the new radius.
fn scale_coord(c: i64, p: i64, num: i64, den: i64) -> (r: i64)
    requires
        1 <= den,
        coord_in_offset_range(c as int),
        -den <= p - c <= den,
        -2 * OFFSET_LIMIT <= num <= 2 * OFFSET_LIMIT,
        den <= OFFSET_LIMIT,
    ensures
        r == c + div_trunc((p - c) * num, den as int),
        coord_in_range(r as int),
{
    let delta: i128 = p as i128 - c as i128;
    proof {
        assert(-(den * (2 * OFFSET_LIMIT)) <= delta * num <= den * (2 * OFFSET_LIMIT))
            by (nonlinear_arith)
            requires
                -den <= delta <= den,
                -2 * OFFSET_LIMIT <= num <= 2 * OFFSET_LIMIT,
                den >= 1,
        ;
        assert(den * (2 * OFFSET_LIMIT) <= OFFSET_LIMIT * (2 * OFFSET_LIMIT)) by (nonlinear_arith)
            requires
                1 <= den <= OFFSET_LIMIT,
        ;
        lemma_div_trunc_bound(delta as int * num as int, den as int, 2 * OFFSET_LIMIT as int);
    }
    let n: i128 = delta * num as i128;
    let q: i128 = divide_toward_zero(n, den as i128);
    (c as i128 + q) as i64
}

/// Computes the two displaced copies of one segment, as `offset_candidates`
/// lays them down.
fn naive_entity_offset(s: &Segment, amount: i64) -> (r: Option<(Segment, Segment)>)
    requires
        segment_in_offset_range(*s),
        coord_in_offset_range(amount as int),
    ensures
        r == offset_candidates(*s, amount as int),
        match r {
            Some((p, q)) => segment_in_range(p) && segment_in_range(q),
            None => true,
        },
{
    match s {
        Segment::Line { p1, p2 } => {
            let dx: i128 = p2.x as i128 - p1.x as i128;
            let dy: i128 = p2.y as i128 - p1.y as i128;
            proof {
                assert(0 <= dx * dx && 0 <= dy * dy && dx * dx
                    < 0x2000_0000_0000_0000_0000_0000_0000_0000 && dy * dy
                    < 0x2000_0000_0000_0000_0000_0000_0000_0000) by (nonlinear_arith)
                    requires
                        -2 * OFFSET_LIMIT <= dx <= 2 * OFFSET_LIMIT,
                        -2 * OFFSET_LIMIT <= dy <= 2 * OFFSET_LIMIT,
                ;
            }
            let len_sq: i128 = dx * dx + dy * dy;
            let len: u128 = isqrt(len_sq as u128);
            if len == 0 {
                return None;
            }
            proof {
                assert((if dy >= 0 { dy as int } else { -dy as int }) * (if dy >= 0 { dy as int } else { -dy as int }) <= len_sq
                    && (if dx >= 0 { dx as int } else { -dx as int }) * (if dx >= 0 { dx as int } else { -dx as int }) <= len_sq)
                    by (nonlinear_arith)
                    requires
                        len_sq == dx * dx + dy * dy,
                ;
                lemma_sqrt_floor_maximal(len_sq as int, if dy >= 0 { dy as int } else { -dy as int });
                lemma_sqrt_floor_maximal(len_sq as int, if dx >= 0 { dx as int } else { -dx as int });
                assert(len <= 0x8000_0000_0000_0000) by (nonlinear_arith)
                    requires
                        len * len <= len_sq,
                        len_sq < 0x4000_0000_0000_0000_0000_0000_0000_0000,
                ;
            }
            let ox = perpendicular_step(amount, dy, len);
            let oy = perpendicular_step(amount, -dx, len);
            Some(
                (
                    Segment::Line {
                        p1: Point3 { x: p1.x + ox, y: p1.y + oy, z: p1.z },
                        p2: Point3 { x: p2.x + ox, y: p2.y + oy, z: p2.z },
                    },
                    Segment::Line {
                        p1: Point3 { x: p1.x - ox, y: p1.y - oy, z: p1.z },
                        p2: Point3 { x: p2.x - ox, y: p2.y - oy, z: p2.z },
                    },
                ),
            )
        },
        Segment::Arc { center, radius, normal, start_angle, end_angle, start, end } => {
            if *radius < 1 {
                return None;
            }
            if !near_center(center, *radius, start) || !near_center(center, *radius, end) {
                return None;
            }
            let grown: i64 = *radius + amount;
            let shrunk: i64 = *radius - amount;
            Some(
                (
                    Segment::Arc {
                        center: *center,
                        radius: grown,
                        normal: *normal,
                        start_angle: *start_angle,
                        end_angle: *end_angle,
                        start: Point3 {
                            x: scale_coord(center.x, start.x, grown, *radius),
                            y: scale_coord(center.y, start.y, grown, *radius),
                            z: scale_coord(center.z, start.z, grown, *radius),
                        },
                        end: Point3 {
                            x: scale_coord(center.x, end.x, grown, *radius),
                            y: scale_coord(center.y, end.y, grown, *radius),
                            z: scale_coord(center.z, end.z, grown, *radius),
                        },
                    },
                    Segment::Arc {
                        center: *center,
                        radius: shrunk,
                        normal: *normal,
                        start_angle: *start_angle,
                        end_angle: *end_angle,
                        start: Point3 {
                            x: scale_coord(center.x, start.x, shrunk, *radius),
                            y: scale_coord(center.y, start.y, shrunk, *radius),
                            z: scale_coord(center.z, start.z, shrunk, *radius),
                        },
                        end: Point3 {
                            x: scale_coord(center.x, end.x, shrunk, *radius),
                            y: scale_coord(center.y, end.y, shrunk, *radius),
                            z: scale_coord(center.z, end.z, shrunk, *radius),
                        },
                    },
                ),
            )
        },
        Segment::Circle { center, radius, normal } => Some(
            (
                Segment::Circle { center: *center, radius: *radius + amount, normal: *normal },
                Segment::Circle { center: *center, radius: *radius - amount, normal: *normal },
            ),
        ),
        Segment::Unsupported => None,
    }
}

/// Whether `p` stays within `radius` of `center` along each axis.
fn near_center(center: &Point3, radius: i64, p: &Point3) -> (r: bool)
    requires
        point_in_offset_range(*center),
        point_in_offset_range(*p),
        0 <= radius,
    ensures
        r == arc_point_near_center(*center, radius as int, *p),
{
    let dx: i64 = p.x - center.x;
    let dy: i64 = p.y - center.y;
    let dz: i64 = p.z - center.z;
    -radius <= dx && dx <= radius && -radius <= dy && dy <= radius && -radius <= dz && dz
        <= radius
}

/// One coordinate of the perpendicular displacement: `amount * d / len`,
/// rounded toward zero.  Its magnitude never exceeds `amount`'s.
fn perpendicular_step(amount: i64, d: i128, len: u128) -> (r: i64)
    requires
        1 <= len <= 0x8000_0000_0000_0000,
        coord_in_offset_range(amount as int),
        -2 * OFFSET_LIMIT <= d <= 2 * OFFSET_LIMIT,
        (if d >= 0 { d as int } else { -d }) <= len,
    ensures
        r == div_trunc(amount * d, len as int),
        -OFFSET_LIMIT <= r <= OFFSET_LIMIT,
{
    proof {
        assert(-(OFFSET_LIMIT * (2 * OFFSET_LIMIT)) <= amount * d <= OFFSET_LIMIT * (2
            * OFFSET_LIMIT)) by (nonlinear_arith)
            requires
                -OFFSET_LIMIT <= amount <= OFFSET_LIMIT,
                -2 * OFFSET_LIMIT <= d <= 2 * OFFSET_LIMIT,
        ;
        let m = if amount >= 0 { amount as int } else { -amount as int };
        assert(-(m * len) <= amount * d <= m * len) by (nonlinear_arith)
            requires
                m == (if amount >= 0 { amount as int } else { -amount as int }),
                (if d >= 0 { d as int } else { -d }) <= len,
                len >= 1,
        ;
        lemma_div_trunc_bound(amount as int * d as int, len as int, m);
    }
    let n: i128 = amount as i128 * d;
    divide_toward_zero(n, len as i128) as i64
}

/// The contour a single segment makes on its own.
pub open spec fn single_segment_model(s: Segment) -> ContourModel {
    ContourModel { segments: seq![s], end_points: endpoints_spec(s) }
}

/// Step-by-step reconciliation of an offset contour: `acc` is the displaced
/// path built so far; each remaining segment contributes its two displaced
/// copies, and whichever connects to `acc` first (the `+amount` copy is tried
/// first) extends it.  A segment that cannot be offset, or whose copies both
/// fail to connect, fails the whole adjustment.
pub open spec fn reconcile_model(
    acc: ContourModel,
    rest: Seq<Segment>,
    amount: int,
) -> Result<ContourModel, KerfAdjustmentErrorReason>
    decreases rest.len(),
{
    if rest.len() == 0 {
        Ok(acc)
    } else {
        match offset_candidates(rest[0], amount) {
            None => Err(KerfAdjustmentErrorReason::CannotOffsetEntity(rest[0])),
            Some((ca, cb)) => match combine_model(acc, single_segment_model(ca)) {
                Some(next) => reconcile_model(next, rest.drop_first(), amount),
                None => match combine_model(acc, single_segment_model(cb)) {
                    Some(next) => reconcile_model(next, rest.drop_first(), amount),
                    None => Err(KerfAdjustmentErrorReason::CannotConnectContourAfterAdjustment),
                },
            },
        }
    }
}

/// What offsetting a contour yields: only a closed, non-empty contour can be
/// offset; the displaced path starts from the first segment's `+amount` copy
/// — that one arbitrary commitment decides which side of the path grows —
/// and every later segment must connect on the corresponding side.
pub open spec fn offset_model(c: ContourModel, amount: int) -> Result<
    ContourModel,
    KerfAdjustmentErrorReason,
> {
    if c.end_points is Some {
        Err(KerfAdjustmentErrorReason::CannotOffsetOpenContour)
    } else if c.segments.len() == 0 {
        Err(KerfAdjustmentErrorReason::CannotOffsetEmptyContour)
    } else {
        match offset_candidates(c.segments[0], amount) {
            None => Err(KerfAdjustmentErrorReason::CannotOffsetEntity(c.segments[0])),
            Some((ca, _)) => reconcile_model(
                single_segment_model(ca),
                c.segments.drop_first(),
                amount,
            ),
        }
    }
}

/// Every segment of the contour leaves the room offsetting needs.
pub open spec fn contour_in_offset_range(m: ContourModel) -> bool {
    forall|i: int|
        0 <= i < m.segments.len() ==> segment_in_offset_range(#[trigger] m.segments[i])
}

/// Offsetting any open contour fails with exactly
/// `CannotOffsetOpenContour`, and yields no contour.
pub proof fn lemma_offset_open_fails(m: ContourModel, amount: int)
    requires
        m.end_points is Some,
    ensures
        offset_model(m, amount) == Err::<ContourModel, KerfAdjustmentErrorReason>(
            KerfAdjustmentErrorReason::CannotOffsetOpenContour,
        ),
{
}

/// The sign convention of offsetting, shown on a lone circle: a closed
/// contour holding one circle comes back as one closed circle of the same
/// center whose radius grew by exactly the offset amount — positive grows
/// the enclosed area, negative shrinks it.
pub proof fn lemma_offset_circle(
    m: ContourModel,
    center: Point3,
    radius: i64,
    normal: Point3,
    amount: int,
)
    requires
        m.end_points is None,
        m.segments == seq![Segment::Circle { center, radius, normal }],
        i64::MIN <= radius + amount <= i64::MAX,
        i64::MIN <= radius - amount <= i64::MAX,
    ensures
        offset_model(m, amount) matches Ok(res) && res == (ContourModel {
            segments: seq![
                Segment::Circle { center, radius: (radius + amount) as i64, normal },
            ],
            end_points: None::<(Point3, Point3)>,
        }),
{
    let grown = Segment::Circle { center, radius: (radius + amount) as i64, normal };
    assert(m.segments.drop_first() =~= Seq::<Segment>::empty());
    assert(reconcile_model(single_segment_model(grown), m.segments.drop_first(), amount) == Ok::<
        ContourModel,
        KerfAdjustmentErrorReason,
    >(single_segment_model(grown)));
}

impl Contour {
    /// Displaces a closed contour by `amount`: positive grows the enclosed
    /// area, negative shrinks it, exactly as `offset_model` lays down.  An
    /// open or empty contour, a segment that cannot be offset, and a
    /// displaced copy that cannot be connected each fail with their own
    /// reason, and no contour is produced.
    pub fn offset_contour(&self, amount: i64) -> (r: Result<Contour, KerfAdjustmentError>)
        requires
            contour_in_offset_range(self@),
            coord_in_offset_range(amount as int),
        ensures
            match r {
                Ok(c) => offset_model(self@, amount as int) == Ok::<
                    ContourModel,
                    KerfAdjustmentErrorReason,
                >(c@),
                Err(e) => offset_model(self@, amount as int) == Err::<
                    ContourModel,
                    KerfAdjustmentErrorReason,
                >(e.reason),
            },
    {
        if self.is_open() {
            return Err(
                KerfAdjustmentError { reason: KerfAdjustmentErrorReason::CannotOffsetOpenContour },
            );
        }
        if self.entities.len() == 0 {
            return Err(
                KerfAdjustmentError {
                    reason: KerfAdjustmentErrorReason::CannotOffsetEmptyContour,
                },
            );
        }
        let first: Segment = self.entities[0];
        assert(segment_in_offset_range(first));
        let (ca0, _cb0) = match naive_entity_offset(&first, amount) {
            None => {
                return Err(
                    KerfAdjustmentError {
                        reason: KerfAdjustmentErrorReason::CannotOffsetEntity(first),
                    },
                );
            },
            Some(p) => p,
        };
        let mut result: Contour = Contour::create_from_entity(ca0);
        let ghost target = offset_model(self@, amount as int);
        proof {
            lemma_endpoints_in_range(ca0);
            assert(result@ =~= single_segment_model(ca0));
            assert(self@.segments.drop_first() =~= self@.segments.skip(1));
        }
        let mut i: usize = 1;
        while i < self.entities.len()
            invariant
                1 <= i <= self.entities@.len(),
                contour_in_offset_range(self@),
                coord_in_offset_range(amount as int),
                ends_in_range(result@),
                target == offset_model(self@, amount as int),
                reconcile_model(result@, self.entities@.skip(i as int), amount as int) == target,
            decreases self.entities@.len() - i,
        {
            let seg: Segment = self.entities[i];
            proof {
                assert(self.entities@.skip(i as int)[0] == seg);
                assert(self.entities@.skip(i as int).drop_first() =~= self.entities@.skip(
                    i as int + 1,
                ));
            }
            let (ca, cb) = match naive_entity_offset(&seg, amount) {
                None => {
                    return Err(
                        KerfAdjustmentError {
                            reason: KerfAdjustmentErrorReason::CannotOffsetEntity(seg),
                        },
                    );
                },
                Some(p) => p,
            };
            let cand_a = Contour::create_from_entity(ca);
            proof {
                lemma_endpoints_in_range(ca);
                assert(cand_a@ =~= single_segment_model(ca));
            }
            result = match result.combine_attempt(cand_a) {
                Ok(c) => c,
                Err((r0, _)) => {
                    let cand_b = Contour::create_from_entity(cb);
                    proof {
                        lemma_endpoints_in_range(cb);
                        assert(cand_b@ =~= single_segment_model(cb));
                    }
                    match r0.combine_attempt(cand_b) {
                        Ok(c) => c,
                        Err(_) => {
                            return Err(
                                KerfAdjustmentError {
                                    reason:
                                        KerfAdjustmentErrorReason::CannotConnectContourAfterAdjustment,
                                },
                            );
                        },
                    }
                },
            };
            i = i + 1;
        }
        proof {
            assert(self.entities@.skip(i as int) =~= Seq::<Segment>::empty());
        }
        Ok(result)
    }
}

} // verus!
