use vstd::prelude::*;

use crate::geometry::{coincide, point_in_range, points_coincide, Point3};
use crate::segment::{endpoints_spec, Segment};

verus! {

/// Finds the directionless endpoint pair of one segment, or `None` for
/// shapes with no free ends.  A pure lookup: repeated calls return the same
/// pair.
pub fn find_endpoints_of_entity(e: &Segment) -> (r: Option<(Point3, Point3)>)
    ensures
        r == endpoints_spec(*e),
{
    match e {
        Segment::Line { p1, p2 } => Some((*p1, *p2)),
        Segment::Circle { .. } => None,
        Segment::Arc { normal, start, end, .. } => {
            if normal.x == 0 && normal.y == 0 && normal.z == crate::geometry::UNIT {
                Some((*start, *end))
            } else {
                None
            }
        },
        Segment::Unsupported => None,
    }
}

/// Endpoint lookup is a pure function of the segment: any two results for
/// the same segment are the same pair.
pub proof fn lemma_endpoints_deterministic(
    s: Segment,
    r1: Option<(Point3, Point3)>,
    r2: Option<(Point3, Point3)>,
)
    requires
        r1 == endpoints_spec(s),
        r2 == endpoints_spec(s),
    ensures
        r1 == r2,
{
}

/// The mathematical value of a contour: its segments in path order, and its
/// two free endpoints (`None` when the path is closed).
#[verifier::ext_equal]
pub ghost struct ContourModel {
    pub segments: Seq<Segment>,
    pub end_points: Option<(Point3, Point3)>,
}

/// An ordered run of segments forming one continuous path.  `end_points`
/// holds the free start of the first segment and the free end of the last,
/// under the current ordering, or `None` once the path is closed.
#[derive(Clone, Debug)]
pub struct Contour {
    pub entities: Vec<Segment>,
    pub end_points: Option<(Point3, Point3)>,
}

impl View for Contour {
    type V = ContourModel;

    open spec fn view(&self) -> ContourModel {
        ContourModel { segments: self.entities@, end_points: self.end_points }
    }
}

/// Both free endpoints (when present) lie within `COORD_LIMIT`, so their
/// distances can be taken without overflow.
pub open spec fn ends_in_range(m: ContourModel) -> bool {
    match m.end_points {
        Some((a, b)) => point_in_range(a) && point_in_range(b),
        None => true,
    }
}

/// The endpoints of the joined contour: the pair itself, unless the two
/// remaining free ends also meet, which closes the path.
pub open spec fn close_or_pair(p: Point3, q: Point3) -> Option<(Point3, Point3)> {
    if coincide(p, q) {
        None
    } else {
        Some((p, q))
    }
}

/// What joining `x` with `y` yields.  Both must be open; the four endpoint
/// pairings are tried in the fixed order first-first, first-last, last-first,
/// last-last, and the first pairing within tolerance decides how the segment
/// runs are spliced.  `None` means no pairing matched and nothing changes.
pub open spec fn combine_model(x: ContourModel, y: ContourModel) -> Option<ContourModel> {
    match (x.end_points, y.end_points) {
        (Some((a, b)), Some((c, d))) => if coincide(a, c) {
            Some(
                ContourModel {
                    segments: x.segments.reverse() + y.segments,
                    end_points: close_or_pair(b, d),
                },
            )
        } else if coincide(a, d) {
            Some(
                ContourModel {
                    segments: y.segments + x.segments,
                    end_points: if coincide(b, c) {
                        None
                    } else {
                        Some((c, b))
                    },
                },
            )
        } else if coincide(b, c) {
            Some(
                ContourModel {
                    segments: x.segments + y.segments,
                    end_points: close_or_pair(a, d),
                },
            )
        } else if coincide(b, d) {
            Some(
                ContourModel {
                    segments: x.segments + y.segments.reverse(),
                    end_points: close_or_pair(a, c),
                },
            )
        } else {
            None
        },
        _ => None,
    }
}

/// Joining succeeds regardless of which contour plays which role: whenever
/// any of the four endpoint pairings of two open contours is within
/// tolerance, both call orders produce a joined contour.
pub proof fn lemma_combine_both_orders_succeed(
    x: ContourModel,
    y: ContourModel,
    a: Point3,
    b: Point3,
    c: Point3,
    d: Point3,
)
    requires
        x.end_points == Some((a, b)),
        y.end_points == Some((c, d)),
        coincide(a, c) || coincide(a, d) || coincide(b, c) || coincide(b, d),
    ensures
        combine_model(x, y) is Some,
        combine_model(y, x) is Some,
{
    crate::geometry::lemma_dist_sq_symmetric(a, c);
    crate::geometry::lemma_dist_sq_symmetric(a, d);
    crate::geometry::lemma_dist_sq_symmetric(b, c);
    crate::geometry::lemma_dist_sq_symmetric(b, d);
}

/// When exactly one endpoint pairing of two open contours is within
/// tolerance, the two call orders agree: the joined segment runs are equal or
/// exact reverses of each other, the free endpoint pairs hold the same two
/// points (possibly swapped), and either both results are closed or neither
/// is.
pub proof fn lemma_combine_symmetric(
    x: ContourModel,
    y: ContourModel,
    a: Point3,
    b: Point3,
    c: Point3,
    d: Point3,
)
    requires
        x.end_points == Some((a, b)),
        y.end_points == Some((c, d)),
        (if coincide(a, c) { 1int } else { 0int }) + (if coincide(a, d) { 1int } else { 0int })
            + (if coincide(b, c) { 1int } else { 0int })
            + (if coincide(b, d) { 1int } else { 0int }) == 1,
    ensures
        combine_model(x, y) is Some,
        combine_model(y, x) is Some,
        ({
            let m1 = combine_model(x, y)->Some_0;
            let m2 = combine_model(y, x)->Some_0;
            &&& (m1.segments == m2.segments || m1.segments == m2.segments.reverse())
            &&& match (m1.end_points, m2.end_points) {
                (None, None) => true,
                (Some((p, q)), Some((r, s))) => (p == r && q == s) || (p == s && q == r),
                _ => false,
            }
        }),
{
    crate::geometry::lemma_dist_sq_symmetric(a, c);
    crate::geometry::lemma_dist_sq_symmetric(a, d);
    crate::geometry::lemma_dist_sq_symmetric(b, c);
    crate::geometry::lemma_dist_sq_symmetric(b, d);
    let m1 = combine_model(x, y)->Some_0;
    let m2 = combine_model(y, x)->Some_0;
    if coincide(a, c) {
        assert(m2.segments =~= m1.segments.reverse()) by {
            assert(m2.segments =~= (x.segments.reverse() + y.segments).reverse());
        }
    } else if coincide(a, d) {
        assert(m1.segments == m2.segments);
    } else if coincide(b, c) {
        assert(m1.segments == m2.segments);
    } else {
        assert(m2.segments =~= m1.segments.reverse()) by {
            assert(m2.segments =~= (x.segments + y.segments.reverse()).reverse());
        }
    }
}

/// Joining two open contours whose free ends meet at both pairings of the
/// matching closes the loop: the result has no free endpoints left.
pub proof fn lemma_combine_closes(
    x: ContourModel,
    y: ContourModel,
    a: Point3,
    b: Point3,
    c: Point3,
    d: Point3,
)
    requires
        x.end_points == Some((a, b)),
        y.end_points == Some((c, d)),
        (coincide(a, c) && coincide(b, d)) || (!coincide(a, c) && coincide(a, d) && coincide(
            b,
            c,
        )),
    ensures
        combine_model(x, y) is Some,
        combine_model(x, y)->Some_0.end_points is None,
{
}

/// When no endpoint pairing matches — or either contour is closed — joining
/// changes nothing: the attempt yields no combined contour, and the caller
/// keeps both inputs as they were.
pub proof fn lemma_combine_no_match(x: ContourModel, y: ContourModel)
    requires
        match (x.end_points, y.end_points) {
            (Some((a, b)), Some((c, d))) => !coincide(a, c) && !coincide(a, d) && !coincide(b, c)
                && !coincide(b, d),
            _ => true,
        },
    ensures
        combine_model(x, y) is None,
{
}

/// A joined contour's free ends are drawn from the joined contours' own free
/// ends, so they stay in range.
pub proof fn lemma_combine_ends_in_range(x: ContourModel, y: ContourModel)
    requires
        ends_in_range(x),
        ends_in_range(y),
        combine_model(x, y) is Some,
    ensures
        ends_in_range(combine_model(x, y)->Some_0),
{
}

/// Builds a vector holding the segments of `v` in reverse order.
fn reversed_segments(v: Vec<Segment>) -> (r: Vec<Segment>)
    ensures
        r@ == v@.reverse(),
{
    let mut r: Vec<Segment> = Vec::new();
    let mut i: usize = v.len();
    while i > 0
        invariant
            i <= v@.len(),
            r@.len() == v@.len() - i,
            forall|j: int| 0 <= j < r@.len() ==> r@[j] == v@[v@.len() - 1 - j],
        decreases i,
    {
        i = i - 1;
        r.push(v[i]);
    }
    assert(r@ =~= v@.reverse());
    r
}

/// Moves the segments of `b` onto the end of `a`.
fn appended_segments(a: Vec<Segment>, b: Vec<Segment>) -> (r: Vec<Segment>)
    ensures
        r@ == a@ + b@,
{
    let ghost a0 = a@;
    let mut r = a;
    let mut i: usize = 0;
    while i < b.len()
        invariant
            i <= b@.len(),
            r@ == a0 + b@.subrange(0, i as int),
        decreases b@.len() - i,
    {
        r.push(b[i]);
        i = i + 1;
        assert(r@ =~= a0 + b@.subrange(0, i as int));
    }
    assert(a0 + b@.subrange(0, b@.len() as int) =~= a0 + b@);
    r
}

impl Contour {
    /// Wraps one segment as a contour of its own; its free endpoints are the
    /// segment's, or `None` when the segment has no free ends.
    pub fn create_from_entity(e: Segment) -> (c: Self)
        ensures
            c@.segments == seq![e],
            c@.end_points == endpoints_spec(e),
    {
        let end_points = find_endpoints_of_entity(&e);
        let mut entities: Vec<Segment> = Vec::new();
        entities.push(e);
        proof {
            assert(entities@ =~= seq![e]);
        }
        Contour { entities, end_points }
    }

    /// An open contour still has two free endpoints; a closed one has none.
    pub fn is_open(&self) -> (r: bool)
        ensures
            r == (self@.end_points is Some),
    {
        self.end_points.is_some()
    }

    /// Tries to join two contours at a shared endpoint, per `combine_model`.
    /// When no pairing matches — or either contour is already closed — both
    /// inputs come back unchanged, a normal signal rather than a fault.
    pub fn combine_attempt(self, other: Self) -> (r: Result<Self, (Self, Self)>)
        requires
            ends_in_range(self@),
            ends_in_range(other@),
        ensures
            match r {
                Ok(c) => combine_model(self@, other@) == Some(c@),
                Err((s, o)) => s == self && o == other && combine_model(self@, other@) is None,
            },
    {
        match (self.end_points, other.end_points) {
            (Some((a, b)), Some((c, d))) => {
                if points_coincide(&a, &c) {
                    let end_points = if points_coincide(&b, &d) {
                        None
                    } else {
                        Some((b, d))
                    };
                    let entities = appended_segments(reversed_segments(self.entities), other.entities);
                    let r = Contour { entities, end_points };
                    proof {
                        assert(combine_model(self@, other@) == Some(r@));
                    }
                    Ok(r)
                } else if points_coincide(&a, &d) {
                    let end_points = if points_coincide(&b, &c) {
                        None
                    } else {
                        Some((c, b))
                    };
                    let entities = appended_segments(other.entities, self.entities);
                    Ok(Contour { entities, end_points })
                } else if points_coincide(&b, &c) {
                    let end_points = if points_coincide(&a, &d) {
                        None
                    } else {
                        Some((a, d))
                    };
                    let entities = appended_segments(self.entities, other.entities);
                    Ok(Contour { entities, end_points })
                } else if points_coincide(&b, &d) {
                    let end_points = if points_coincide(&a, &c) {
                        None
                    } else {
                        Some((a, c))
                    };
                    let entities = appended_segments(self.entities, reversed_segments(other.entities));
                    Ok(Contour { entities, end_points })
                } else {
                    Err((self, other))
                }
            },
            _ => Err((self, other)),
        }
    }
}

} // verus!
