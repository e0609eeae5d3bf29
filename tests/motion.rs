use cubism::fixed::UNIT;
use cubism::moc::{CanvasInfo, MocTables};
use cubism::model::Model;
use cubism::motion::{
    parse_segments, segment_interpolate, segment_intersects, Motion, SEGMENT_BEZIER,
    SEGMENT_INVERSE_STEPPED, SEGMENT_LINEAR, SEGMENT_STEPPED,
};
use cubism::records::{Curve, Meta, Motion3, Segment, SegmentPoint};

fn pt(time: i64, value: i64) -> SegmentPoint {
    SegmentPoint { time, value }
}

fn meta(duration: i64, looped: bool) -> Meta {
    Meta {
        duration,
        fps: 30 * UNIT,
        looped,
        restricted_beziers: false,
        curve_count: 0,
        total_segment_count: 0,
        total_point_count: 0,
        user_data_count: 0,
        total_user_data_size: 0,
    }
}

fn curve(target: &str, id: &str, segments: Vec<Segment>) -> Curve {
    Curve { target: target.to_string(), id: id.to_string(), segments, fade_in_time: UNIT, fade_out_time: UNIT }
}

fn motion(duration: i64, looped: bool, curves: Vec<Curve>) -> Motion {
    Motion::new(Motion3 { version: 3, meta: meta(duration, looped), curves, user_data: vec![] })
}

fn model() -> Model {
    let t = MocTables {
        parameter_ids: vec![Some("ParamA".to_string()), Some("ParamB".to_string())],
        part_ids: vec![Some("PartA".to_string())],
        drawable_ids: vec![],
        parameter_min: vec![0, 0],
        parameter_max: vec![0, 0],
        parameter_default: vec![0, 0],
        part_parent_indices: vec![-1],
        drawable_texture_indices: vec![],
        drawable_constant_flags: vec![],
        drawable_vertex_counts: vec![],
        drawable_indices: vec![],
        drawable_masks: vec![],
        canvas: CanvasInfo { size: [UNIT, UNIT], origin: [UNIT / 2, UNIT / 2], pixels_per_unit: UNIT },
    };
    Model::from_revived(3, 3, Some(t)).unwrap()
}

#[test]
fn looped_motion_wraps() {
    let mut m = motion(2 * UNIT, true, vec![]);
    m.play();
    m.tick(3 * UNIT);
    assert_eq!(m.current_time(), UNIT);
    assert!(m.is_playing());
}

#[test]
fn unlooped_motion_clamps_and_pauses() {
    let mut m = motion(2 * UNIT, false, vec![]);
    m.play();
    m.tick(3 * UNIT);
    assert_eq!(m.current_time(), 2 * UNIT);
    assert!(!m.is_playing());
}

#[test]
fn paused_motion_does_not_advance() {
    let mut m = motion(2 * UNIT, false, vec![]);
    m.tick(UNIT);
    assert_eq!(m.current_time(), 0);
    m.play();
    m.tick(UNIT / 2);
    m.pause();
    m.tick(UNIT);
    assert_eq!(m.current_time(), UNIT / 2);
    m.stop();
    assert_eq!(m.current_time(), 0);
    assert!(!m.is_playing());
}

#[test]
fn set_looped_overrides_header() {
    let mut m = motion(2 * UNIT, false, vec![]);
    m.set_looped(true);
    m.play();
    m.tick(5 * UNIT);
    assert_eq!(m.current_time(), UNIT);
}

#[test]
fn linear_segment_ends() {
    let s = Segment::Linear(pt(UNIT, 10 * UNIT), pt(3 * UNIT, 20 * UNIT));
    assert_eq!(segment_interpolate(&s, UNIT), 10 * UNIT);
    assert_eq!(segment_interpolate(&s, 3 * UNIT), 20 * UNIT);
    assert_eq!(segment_interpolate(&s, 2 * UNIT), 15 * UNIT);
    assert!(segment_intersects(&s, UNIT));
    assert!(!segment_intersects(&s, 3 * UNIT + 1));
}

#[test]
fn bezier_segment() {
    let s = Segment::Bezier([pt(0, 0), pt(UNIT / 3, 0), pt(2 * UNIT / 3, UNIT), pt(UNIT, UNIT)]);
    assert_eq!(segment_interpolate(&s, 0), 0);
    assert_eq!(segment_interpolate(&s, UNIT), UNIT);
    assert_eq!(segment_interpolate(&s, UNIT / 2), UNIT / 2);
}

#[test]
fn stepped_segments() {
    let s = Segment::Stepped(pt(0, 4 * UNIT), UNIT);
    assert_eq!(segment_interpolate(&s, UNIT / 2), 4 * UNIT);
    let s = Segment::InverseStepped(0, pt(UNIT, 6 * UNIT));
    assert_eq!(segment_interpolate(&s, UNIT / 2), 6 * UNIT);
}

#[test]
fn update_routes_curves() {
    let mut model = model();
    let mut m = motion(
        2 * UNIT,
        false,
        vec![
            curve(
                "Parameter",
                "ParamB",
                vec![
                    Segment::Linear(pt(0, 0), pt(UNIT, 10 * UNIT)),
                    Segment::Linear(pt(UNIT, 10 * UNIT), pt(2 * UNIT, 0)),
                ],
            ),
            curve("PartOpacity", "PartA", vec![Segment::Stepped(pt(0, UNIT / 4), 2 * UNIT)]),
            curve("Parameter", "Unknown", vec![Segment::Stepped(pt(0, 9), 2 * UNIT)]),
            curve("Model", "EyeBlink", vec![Segment::Stepped(pt(0, 9), 2 * UNIT)]),
        ],
    );
    m.play();
    m.tick(UNIT + UNIT / 2);
    m.update(&mut model);
    assert_eq!(model.parameter_values(), &[0, 5 * UNIT]);
    assert_eq!(model.part_opacities(), &[UNIT / 4]);
}

#[test]
fn parse_segments_decodes_each_kind() {
    let data = vec![
        0, 1, // start point
        SEGMENT_LINEAR, 10, 2,
        SEGMENT_BEZIER, 11, 3, 12, 4, 13, 5,
        SEGMENT_STEPPED, 20, 6,
        SEGMENT_INVERSE_STEPPED, 30, 7,
    ];
    let segs = parse_segments(&data).unwrap();
    assert_eq!(segs.len(), 4);
    assert!(matches!(segs[0], Segment::Linear(a, b) if a == pt(0, 1) && b == pt(10, 2)));
    assert!(matches!(segs[1], Segment::Bezier(ps) if ps == [pt(10, 2), pt(11, 3), pt(12, 4), pt(13, 5)]));
    assert!(matches!(segs[2], Segment::Stepped(a, t) if a == pt(13, 5) && t == 20));
    assert!(matches!(segs[3], Segment::InverseStepped(t, b) if t == 20 && b == pt(30, 7)));
}

#[test]
fn parse_segments_rejects_bad_input() {
    assert!(parse_segments(&[5]).is_none());
    assert!(parse_segments(&[0, 0, 7, 1, 1]).is_none());
    assert!(parse_segments(&[0, 0, SEGMENT_LINEAR, 1]).is_none());
    assert!(parse_segments(&[0, 0, SEGMENT_BEZIER, 1, 1, 2, 2, 3]).is_none());
    assert_eq!(parse_segments(&[0, 0]).unwrap().len(), 0);
}
