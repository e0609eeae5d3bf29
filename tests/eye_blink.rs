use cubism::eye_blink::{EyeBlink, EyeState};
use cubism::fixed::UNIT;
use cubism::moc::{CanvasInfo, MocTables};
use cubism::model::Model;

fn model() -> Model {
    let t = MocTables {
        parameter_ids: vec![Some("ParamEyeLOpen".to_string()), Some("ParamEyeROpen".to_string()), Some("Other".to_string())],
        part_ids: vec![],
        drawable_ids: vec![],
        parameter_min: vec![0, 0, 0],
        parameter_max: vec![UNIT, UNIT, UNIT],
        parameter_default: vec![UNIT, UNIT, 7],
        part_parent_indices: vec![],
        drawable_texture_indices: vec![],
        drawable_constant_flags: vec![],
        drawable_vertex_counts: vec![],
        drawable_indices: vec![],
        drawable_masks: vec![],
        canvas: CanvasInfo { size: [UNIT, UNIT], origin: [UNIT / 2, UNIT / 2], pixels_per_unit: UNIT },
    };
    Model::from_revived(3, 3, Some(t)).unwrap()
}

#[test]
fn eye_blink_full_cycle() {
    let mut m = model();
    let mut eb = EyeBlink::new(vec![0, 1], UNIT, UNIT / 10, UNIT / 5, 3 * UNIT / 10);
    let step = UNIT / 20;
    let mut log: Vec<(EyeState, i64)> = Vec::new();
    for _ in 0..40 {
        let before = eb.eye_state();
        eb.update_parameters(&mut m, step);
        assert_eq!(m.parameter_values()[0], m.parameter_values()[1]);
        assert_eq!(m.parameter_values()[2], 7);
        log.push((before, m.parameter_values()[0]));
    }
    let open: Vec<i64> = log.iter().filter(|(s, _)| *s == EyeState::Open).map(|(_, v)| *v).collect();
    let closing: Vec<i64> = log.iter().filter(|(s, _)| *s == EyeState::Closing).map(|(_, v)| *v).collect();
    let closed: Vec<i64> = log.iter().filter(|(s, _)| *s == EyeState::Closed).map(|(_, v)| *v).collect();
    let opening: Vec<i64> = log.iter().filter(|(s, _)| *s == EyeState::Opening).map(|(_, v)| *v).collect();
    // open for one second, then closing 0.3 s, closed 0.1 s, opening 0.2 s
    assert_eq!(log[..20].iter().filter(|(s, _)| *s == EyeState::Open).count(), 20);
    assert_eq!(closing.len(), 6);
    assert_eq!(closed.len(), 2);
    assert_eq!(opening.len(), 4);
    assert!(open.iter().all(|v| *v == UNIT));
    assert_eq!(closing, vec![833_333, 666_666, 500_000, 333_333, 166_666, 0]);
    assert!(closing.windows(2).all(|w| w[0] > w[1]));
    assert!(closed.iter().all(|v| *v == 0));
    assert_eq!(opening, vec![250_000, 500_000, 750_000, UNIT]);
    assert!(opening.windows(2).all(|w| w[0] < w[1]));
    assert_eq!(log[32].0, EyeState::Open);
}

#[test]
fn set_timings_raises_short_interval() {
    let mut eb = EyeBlink::default();
    eb.set_timings(UNIT / 10, UNIT / 10, UNIT / 5, 3 * UNIT / 10);
    assert_eq!(eb.timings().blink_interval, 6 * UNIT / 10);
    eb.set_timings(2 * UNIT, UNIT / 10, UNIT / 5, 3 * UNIT / 10);
    assert_eq!(eb.timings().blink_interval, 2 * UNIT);
}

#[test]
fn default_eye_blink() {
    let eb = EyeBlink::default();
    assert_eq!(eb.eye_state(), EyeState::Open);
    assert_eq!(eb.priority(), 100);
    assert_eq!(eb.timings().blink_interval, 5 * UNIT);
}
