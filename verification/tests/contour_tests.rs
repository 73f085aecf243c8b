use kerf_adjuster_logic::contour::find_endpoints_of_entity;
use kerf_adjuster_logic::contour::Contour;
use kerf_adjuster_logic::geometry::Point3;
use kerf_adjuster_logic::geometry::UNIT;
use kerf_adjuster_logic::segment::Segment;

const EPSILON_SQ: i128 = 1_000_000;

/// A point given in whole drawing units.
fn pt(x: i64, y: i64, z: i64) -> Point3 {
    Point3 { x: x * UNIT, y: y * UNIT, z: z * UNIT }
}

fn line_between(p1: Point3, p2: Point3) -> Segment {
    Segment::Line { p1, p2 }
}

fn dist_sq(a: Point3, b: Point3) -> i128 {
    let dx = a.x as i128 - b.x as i128;
    let dy = a.y as i128 - b.y as i128;
    let dz = a.z as i128 - b.z as i128;
    dx * dx + dy * dy + dz * dz
}

fn check_contour_is_sequential(c: &Contour) -> Option<()> {
    let mut endpoints = Vec::new();
    for entity in c.entities.iter() {
        endpoints.push(find_endpoints_of_entity(entity)?);
    }
    if endpoints.is_empty() {
        return None;
    }

    // A contour's orientation is implicit in its sequence order: joining may
    // traverse a segment from either of its stored endpoints, so the walk
    // picks whichever end continues the path.
    let mut at = match c.end_points {
        Some((start, _)) => start,
        None => endpoints[0].0,
    };
    for (start, end) in endpoints {
        if dist_sq(at, start) < EPSILON_SQ {
            at = end;
        } else if dist_sq(at, end) < EPSILON_SQ {
            at = start;
        } else {
            return None;
        }
    }

    Some(())
}

#[test]
fn test_contour_sequential_check_works() {
    // given: two entities that connect the way we want them to
    let line1 = line_between(pt(0, 0, 0), pt(1, 2, 3));

    let line2 = line_between(pt(1, 2, 3), pt(4, 5, 6));

    // when: we connect them in a contour
    let contour_12 = Contour::create_from_entity(line1)
        .combine_attempt(Contour::create_from_entity(line2))
        .unwrap();
    let contour_21 = Contour::create_from_entity(line2)
        .combine_attempt(Contour::create_from_entity(line1))
        .unwrap();

    // then: it passes the test
    check_contour_is_sequential(&contour_12).unwrap();
    check_contour_is_sequential(&contour_21).unwrap();
}

#[test]
fn test_ac_combine() {
    // given: two entities that connect at their beginning
    let line1 = line_between(pt(0, 0, 0), pt(1, 3, 0));
    let line2 = line_between(pt(0, 0, 0), pt(-3, 1, 0));

    // when: we combine them into a contour
    let combined_entity = Contour::create_from_entity(line1)
        .combine_attempt(Contour::create_from_entity(line2))
        .unwrap();

    // then: sequential entities
    check_contour_is_sequential(&combined_entity).unwrap();
}

#[test]
fn test_ad_combine() {
    // given: entity 2 ends where entity 1 starts
    let line1 = line_between(pt(0, 0, 0), pt(1, 3, 0));
    let line2 = line_between(pt(-3, 1, 0), pt(0, 0, 0));

    // when: we combine them into a contour
    let combined_entity = Contour::create_from_entity(line1)
        .combine_attempt(Contour::create_from_entity(line2))
        .unwrap();

    // then: sequential entities
    check_contour_is_sequential(&combined_entity).unwrap();
}

#[test]
fn test_bc_combine() {
    // given: entity 1 ends where entity 2 starts
    let line1 = line_between(pt(1, 3, 0), pt(0, 0, 0));
    let line2 = line_between(pt(0, 0, 0), pt(-3, 1, 0));

    // when: we combine them into a contour
    let combined_entity = Contour::create_from_entity(line1)
        .combine_attempt(Contour::create_from_entity(line2))
        .unwrap();

    // then: sequential entities
    check_contour_is_sequential(&combined_entity).unwrap();
}

#[test]
fn test_bd_combine() {
    // given: two entities that connect at their beginning
    let line1 = line_between(pt(0, 0, 0), pt(1, 3, 0));
    let line2 = line_between(pt(0, 0, 0), pt(-3, 1, 0));

    // when: we combine them into a contour
    let combined_entity = Contour::create_from_entity(line1)
        .combine_attempt(Contour::create_from_entity(line2))
        .unwrap();

    // then: sequential entities
    check_contour_is_sequential(&combined_entity).unwrap();
}

#[test]
fn endpoints_are_deterministic() {
    let line = line_between(pt(2, 3, 0), pt(5, 7, 0));
    assert_eq!(find_endpoints_of_entity(&line), find_endpoints_of_entity(&line));
    assert_eq!(
        find_endpoints_of_entity(&line),
        Some((pt(2, 3, 0), pt(5, 7, 0)))
    );

    let arc = Segment::Arc {
        center: pt(0, 0, 0),
        radius: UNIT,
        normal: pt(0, 0, 1),
        start_angle: 0,
        end_angle: 90 * UNIT,
        start: pt(1, 0, 0),
        end: pt(0, 1, 0),
    };
    assert_eq!(find_endpoints_of_entity(&arc), find_endpoints_of_entity(&arc));
    assert_eq!(find_endpoints_of_entity(&arc), Some((pt(1, 0, 0), pt(0, 1, 0))));
}

#[test]
fn endpoints_none_for_closed_shapes() {
    let circle = Segment::Circle { center: pt(0, 0, 0), radius: UNIT, normal: pt(0, 0, 1) };
    assert_eq!(find_endpoints_of_entity(&circle), None);

    // an arc lying outside the +Z plane has no usable endpoints
    let tilted = Segment::Arc {
        center: pt(0, 0, 0),
        radius: UNIT,
        normal: pt(0, 1, 0),
        start_angle: 0,
        end_angle: 90 * UNIT,
        start: pt(1, 0, 0),
        end: pt(0, 0, 1),
    };
    assert_eq!(find_endpoints_of_entity(&tilted), None);

    assert_eq!(find_endpoints_of_entity(&Segment::Unsupported), None);
}

#[test]
fn combine_succeeds_in_both_orders() {
    // the two contours share one endpoint; either may play the pivot
    let x = Contour::create_from_entity(line_between(pt(0, 0, 0), pt(1, 0, 0)));
    let y = Contour::create_from_entity(line_between(pt(1, 0, 0), pt(1, 1, 0)));

    let xy = x.clone().combine_attempt(y.clone()).unwrap();
    let yx = y.combine_attempt(x).unwrap();

    // both are open two-segment contours over the same endpoint set
    let (p, q) = xy.end_points.unwrap();
    let (r, s) = yx.end_points.unwrap();
    assert_eq!(xy.entities.len(), 2);
    assert_eq!(yx.entities.len(), 2);
    assert!((p == r && q == s) || (p == s && q == r));
}

#[test]
fn combine_of_two_closing_halves_closes() {
    // two 2-segment open contours around a square, meeting at both free ends
    let top = Contour::create_from_entity(line_between(pt(0, 0, 0), pt(1, 0, 0)))
        .combine_attempt(Contour::create_from_entity(line_between(pt(1, 0, 0), pt(1, 1, 0))))
        .unwrap();
    let bottom = Contour::create_from_entity(line_between(pt(1, 1, 0), pt(0, 1, 0)))
        .combine_attempt(Contour::create_from_entity(line_between(pt(0, 1, 0), pt(0, 0, 0))))
        .unwrap();
    assert!(top.end_points.is_some());
    assert!(bottom.end_points.is_some());

    let whole = top.combine_attempt(bottom).unwrap();
    assert!(whole.end_points.is_none());
    assert_eq!(whole.entities.len(), 4);
}

#[test]
fn combine_at_both_starts_reverses_the_pivot() {
    // both contours start at the origin, so the pivot's segment run is
    // reversed before the other's is appended
    let l1 = line_between(pt(0, 0, 0), pt(1, 0, 0));
    let l2 = line_between(pt(1, 0, 0), pt(2, 0, 0));
    let l3 = line_between(pt(0, 0, 0), pt(0, 1, 0));
    let l4 = line_between(pt(0, 1, 0), pt(0, 2, 0));

    let x = Contour::create_from_entity(l1)
        .combine_attempt(Contour::create_from_entity(l2))
        .unwrap();
    let y = Contour::create_from_entity(l3)
        .combine_attempt(Contour::create_from_entity(l4))
        .unwrap();
    assert_eq!(x.end_points, Some((pt(0, 0, 0), pt(2, 0, 0))));
    assert_eq!(y.end_points, Some((pt(0, 0, 0), pt(0, 2, 0))));

    let joined = x.combine_attempt(y).unwrap();
    assert_eq!(joined.entities, vec![l2, l1, l3, l4]);
    assert_eq!(joined.end_points, Some((pt(2, 0, 0), pt(0, 2, 0))));
    check_contour_is_sequential(&joined).unwrap();
}

#[test]
fn combine_without_coincident_endpoints_changes_nothing() {
    let x = Contour::create_from_entity(line_between(pt(0, 0, 0), pt(1, 0, 0)));
    let y = Contour::create_from_entity(line_between(pt(5, 5, 0), pt(6, 5, 0)));

    let x_entities = x.entities.clone();
    let x_ends = x.end_points;
    let y_entities = y.entities.clone();
    let y_ends = y.end_points;

    let (x_back, y_back) = x.combine_attempt(y).unwrap_err();
    assert_eq!(x_back.entities, x_entities);
    assert_eq!(x_back.end_points, x_ends);
    assert_eq!(y_back.entities, y_entities);
    assert_eq!(y_back.end_points, y_ends);
}

#[test]
fn combine_with_closed_contour_changes_nothing() {
    let open = Contour::create_from_entity(line_between(pt(0, 0, 0), pt(1, 0, 0)));
    let closed = Contour::create_from_entity(Segment::Circle {
        center: pt(0, 0, 0),
        radius: UNIT,
        normal: pt(0, 0, 1),
    });
    assert!(!closed.is_open());

    let (open_back, closed_back) = open.combine_attempt(closed).unwrap_err();
    assert!(open_back.is_open());
    assert!(!closed_back.is_open());
}

#[test]
fn is_open_follows_end_points() {
    let line = Contour::create_from_entity(line_between(pt(0, 0, 0), pt(1, 0, 0)));
    assert!(line.is_open());
    let circle = Contour::create_from_entity(Segment::Circle {
        center: pt(2, 2, 0),
        radius: UNIT,
        normal: pt(0, 0, 1),
    });
    assert!(!circle.is_open());
}
