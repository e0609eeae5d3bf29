use cubism::expression::{blend, Expression};
use cubism::fixed::UNIT;
use cubism::moc::{CanvasInfo, MocTables};
use cubism::model::Model;
use cubism::records::{Expression3, ExpressionBlendType, ExpressionParameter};

fn model() -> Model {
    let t = MocTables {
        parameter_ids: vec![Some("A".to_string()), Some("B".to_string()), Some("C".to_string())],
        part_ids: vec![],
        drawable_ids: vec![],
        parameter_min: vec![0, 0, 0],
        parameter_max: vec![0, 0, 0],
        parameter_default: vec![2 * UNIT, 3 * UNIT, 4 * UNIT],
        part_parent_indices: vec![],
        drawable_texture_indices: vec![],
        drawable_constant_flags: vec![],
        drawable_vertex_counts: vec![],
        drawable_indices: vec![],
        drawable_masks: vec![],
        canvas: CanvasInfo { size: [UNIT, UNIT], origin: [UNIT / 2, UNIT / 2], pixels_per_unit: UNIT },
    };
    Model::from_revived(3, 3, Some(t)).unwrap()
}

fn param(id: &str, blend_type: ExpressionBlendType, value: i64) -> ExpressionParameter {
    ExpressionParameter { id: id.to_string(), blend_type, value }
}

fn exp3(parameters: Vec<ExpressionParameter>) -> Expression3 {
    Expression3 { ty: "Live2D Expression".to_string(), fade_in_time: UNIT, fade_out_time: UNIT, parameters }
}

#[test]
fn blend_at_zero_weight() {
    let v = 2 * UNIT;
    let b = 3 * UNIT;
    assert_eq!(blend(ExpressionBlendType::Add, v, b, 0), v);
    assert_eq!(blend(ExpressionBlendType::Multiply, v, b, 0), v);
    assert_eq!(blend(ExpressionBlendType::Overwrite, v, b, 0), 0);
}

#[test]
fn blend_at_full_weight() {
    let v = 2 * UNIT;
    let b = 3 * UNIT;
    assert_eq!(blend(ExpressionBlendType::Add, v, b, UNIT), 5 * UNIT);
    assert_eq!(blend(ExpressionBlendType::Multiply, v, b, UNIT), 6 * UNIT);
    assert_eq!(blend(ExpressionBlendType::Overwrite, v, b, UNIT), 3 * UNIT);
}

#[test]
fn blend_at_half_weight() {
    let v = 2 * UNIT;
    let b = 3 * UNIT;
    let w = UNIT / 2;
    // v + b * w
    assert_eq!(blend(ExpressionBlendType::Add, v, b, w), 3_500_000);
    // v * (1 + (b - 1) * w)
    assert_eq!(blend(ExpressionBlendType::Multiply, v, b, w), 4 * UNIT);
    // b * w
    assert_eq!(blend(ExpressionBlendType::Overwrite, v, b, w), 1_500_000);
}

#[test]
fn blend_rounds_down() {
    assert_eq!(blend(ExpressionBlendType::Overwrite, 0, 1, UNIT / 2), 0);
    assert_eq!(blend(ExpressionBlendType::Overwrite, 0, -1, UNIT / 2), -1);
}

#[test]
fn from_exp3_drops_unknown_ids() {
    let m = model();
    let e = Expression::from_exp3(
        &m,
        exp3(vec![
            param("B", ExpressionBlendType::Add, UNIT),
            param("Missing", ExpressionBlendType::Add, UNIT),
            param("A", ExpressionBlendType::Overwrite, 5 * UNIT),
        ]),
    );
    assert_eq!(e.parameters().len(), 2);
    assert_eq!(e.parameters()[0].0, 1);
    assert_eq!(e.parameters()[1].0, 0);
}

#[test]
fn apply_blends_each_entry() {
    let mut m = model();
    let e = Expression::from_exp3(
        &m,
        exp3(vec![
            param("A", ExpressionBlendType::Add, UNIT),
            param("B", ExpressionBlendType::Multiply, 2 * UNIT),
            param("C", ExpressionBlendType::Overwrite, 7 * UNIT),
        ]),
    );
    e.apply(&mut m, UNIT);
    assert_eq!(m.parameter_values(), &[3 * UNIT, 6 * UNIT, 7 * UNIT]);
}

#[test]
fn apply_clamps_weight() {
    let mut m = model();
    let e = Expression::from_exp3(&m, exp3(vec![param("A", ExpressionBlendType::Add, UNIT)]));
    e.apply(&mut m, 5 * UNIT);
    assert_eq!(m.parameter_values()[0], 3 * UNIT);
    e.apply(&mut m, -UNIT);
    assert_eq!(m.parameter_values()[0], 3 * UNIT);
}
