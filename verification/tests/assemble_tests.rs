use kerf_adjuster_logic::assemble::assemble;
use kerf_adjuster_logic::assemble::contour_to_segments;
use kerf_adjuster_logic::errors::KerfAdjustmentErrorReason;
use kerf_adjuster_logic::geometry::Point3;
use kerf_adjuster_logic::geometry::UNIT;
use kerf_adjuster_logic::segment::Segment;

/// A point given in whole drawing units.
fn pt(x: i64, y: i64, z: i64) -> Point3 {
    Point3 { x: x * UNIT, y: y * UNIT, z: z * UNIT }
}

fn line(p1: Point3, p2: Point3) -> Segment {
    Segment::Line { p1, p2 }
}

fn square_sides() -> Vec<Segment> {
    vec![
        line(pt(0, 0, 0), pt(1, 0, 0)),
        line(pt(1, 0, 0), pt(1, 1, 0)),
        line(pt(1, 1, 0), pt(0, 1, 0)),
        line(pt(0, 1, 0), pt(0, 0, 0)),
    ]
}

#[test]
fn assemble_square_yields_one_closed_contour() {
    let contours = assemble(square_sides());
    assert_eq!(contours.len(), 1);
    assert!(contours[0].end_points.is_none());
    assert_eq!(contours[0].entities.len(), 4);
}

#[test]
fn assemble_square_from_jumbled_sides() {
    // the working set finds partners regardless of input order
    let sides = square_sides();
    let jumbled = vec![sides[2], sides[0], sides[3], sides[1]];
    let contours = assemble(jumbled);
    assert_eq!(contours.len(), 1);
    assert!(contours[0].end_points.is_none());
    assert_eq!(contours[0].entities.len(), 4);
}

#[test]
fn offset_square_cannot_reconnect_sharp_corners() {
    // displaced sides of a sharp corner no longer meet within tolerance, so
    // the offset of a plain square fails rather than guessing a join
    let contours = assemble(square_sides());
    let err = contours[0].offset_contour(100_000_000).unwrap_err();
    assert_eq!(err.reason, KerfAdjustmentErrorReason::CannotConnectContourAfterAdjustment);
}

#[test]
fn assemble_keeps_closed_and_leftover_fragments() {
    // a circle is born closed; a lone line can never close and is still kept
    let circle = Segment::Circle { center: pt(5, 5, 0), radius: UNIT, normal: pt(0, 0, 1) };
    let lone = line(pt(10, 10, 0), pt(11, 10, 0));
    let contours = assemble(vec![lone, circle]);
    assert_eq!(contours.len(), 2);
    // born-closed contours come first, then the leftovers of the working set
    assert!(contours[0].end_points.is_none());
    assert_eq!(contours[0].entities, vec![circle]);
    assert!(contours[1].end_points.is_some());
    assert_eq!(contours[1].entities, vec![lone]);
}

#[test]
fn assemble_empty_input_yields_nothing() {
    let contours = assemble(Vec::new());
    assert_eq!(contours.len(), 0);
}

#[test]
fn contour_to_segments_flattens_in_order() {
    let contours = assemble(square_sides());
    let flat = contour_to_segments(contours);
    assert_eq!(flat.len(), 4);
    // every side of the square is still there
    for side in square_sides() {
        assert!(flat.contains(&side));
    }
}

#[test]
fn assembled_square_offsets_whole_pipeline_on_two_gon() {
    // end to end: assemble a degenerate closed path, offset it, flatten it
    let l1 = line(pt(0, 0, 0), pt(2, 0, 0));
    let l2 = line(pt(2, 0, 0), pt(0, 0, 0));
    let contours = assemble(vec![l1, l2]);
    assert_eq!(contours.len(), 1);
    assert!(contours[0].end_points.is_none());

    let offset = contours[0].offset_contour(250_000_000).unwrap();
    let flat = contour_to_segments(vec![offset]);
    assert_eq!(flat.len(), 2);
    for seg in flat {
        match seg {
            Segment::Line { p1, p2 } => {
                assert_eq!(p1.y, 250_000_000);
                assert_eq!(p2.y, 250_000_000);
            },
            other => panic!("expected a line, got {:?}", other),
        }
    }
}
