use cubism::controller::{Controller, ControllerKind, ControllerMap};
use cubism::expression::Expression;
use cubism::expression_controller::ExpressionController;
use cubism::eye_blink::EyeBlink;
use cubism::fixed::UNIT;
use cubism::moc::{CanvasInfo, MocTables};
use cubism::model::Model;
use cubism::records::{Expression3, ExpressionBlendType, ExpressionParameter};

fn model() -> Model {
    let t = MocTables {
        parameter_ids: vec![Some("Eye".to_string()), Some("Mouth".to_string())],
        part_ids: vec![],
        drawable_ids: vec![],
        parameter_min: vec![0, 0],
        parameter_max: vec![UNIT, UNIT],
        parameter_default: vec![UNIT / 2, UNIT / 2],
        part_parent_indices: vec![],
        drawable_texture_indices: vec![],
        drawable_constant_flags: vec![],
        drawable_vertex_counts: vec![],
        drawable_indices: vec![],
        drawable_masks: vec![],
        canvas: CanvasInfo { size: [UNIT, UNIT], origin: [UNIT / 2, UNIT / 2], pixels_per_unit: UNIT },
    };
    Model::from_revived(3, 3, Some(t)).unwrap()
}

fn expression_controller(m: &Model, id: &str, value: i64, priority: usize) -> ExpressionController {
    let e = Expression::from_exp3(
        m,
        Expression3 {
            ty: "Live2D Expression".to_string(),
            fade_in_time: UNIT,
            fade_out_time: UNIT,
            parameters: vec![ExpressionParameter {
                id: id.to_string(),
                blend_type: ExpressionBlendType::Overwrite,
                value,
            }],
        },
    );
    let mut ec = ExpressionController::new();
    assert!(ec.register("face".to_string(), e).is_none());
    ec.set_expression("face");
    ec.set_priority(priority);
    ec
}

fn eye_blink(priority: usize) -> EyeBlink {
    let mut eb = EyeBlink::new(vec![0], 5 * UNIT, UNIT / 10, UNIT / 10, UNIT / 10);
    eb.set_priority(priority);
    eb
}

#[test]
fn later_priority_overrides_shared_parameter() {
    let mut m = model();
    let mut map = ControllerMap::new();
    map.register(Controller::EyeBlink(eye_blink(2)));
    map.register(Controller::Expression(expression_controller(&m, "Eye", 3 * UNIT / 10, 1)));
    map.update_enabled_controllers(&mut m, UNIT / 100);
    assert_eq!(m.parameter_values()[0], UNIT);

    let mut m = model();
    let mut map = ControllerMap::new();
    map.register(Controller::EyeBlink(eye_blink(2)));
    map.register(Controller::Expression(expression_controller(&m, "Eye", 3 * UNIT / 10, 3)));
    map.update_enabled_controllers(&mut m, UNIT / 100);
    assert_eq!(m.parameter_values()[0], 3 * UNIT / 10);
}

#[test]
fn distinct_parameters_both_kept() {
    let mut m = model();
    let mut map = ControllerMap::new();
    map.register(Controller::Expression(expression_controller(&m, "Mouth", 3 * UNIT / 10, 1)));
    map.register(Controller::EyeBlink(eye_blink(2)));
    map.update_enabled_controllers(&mut m, UNIT / 100);
    assert_eq!(m.parameter_values(), &[UNIT, 3 * UNIT / 10]);
}

#[test]
fn schedule_orders_by_priority_then_registration() {
    let m = model();
    let mut map = ControllerMap::new();
    map.register(Controller::EyeBlink(eye_blink(5)));
    map.register(Controller::Expression(expression_controller(&m, "Eye", 0, 5)));
    assert_eq!(map.schedule(), vec![0, 1]);
    let mut map = ControllerMap::new();
    map.register(Controller::EyeBlink(eye_blink(7)));
    map.register(Controller::Expression(expression_controller(&m, "Eye", 0, 5)));
    assert_eq!(map.schedule(), vec![1, 0]);
    map.set_enabled(ControllerKind::Expression, false);
    assert_eq!(map.schedule(), vec![0]);
}

#[test]
fn disabled_controller_does_not_run() {
    let mut m = model();
    let mut map = ControllerMap::new();
    map.register(Controller::EyeBlink(eye_blink(1)));
    map.set_enabled(ControllerKind::EyeBlink, false);
    assert!(!map.is_enabled(ControllerKind::EyeBlink));
    assert!(map.is_registered(ControllerKind::EyeBlink));
    map.update_enabled_controllers(&mut m, UNIT);
    assert_eq!(m.parameter_values(), &[UNIT / 2, UNIT / 2]);
}

#[test]
fn register_replaces_and_remove() {
    let mut map = ControllerMap::new();
    assert!(map.register(Controller::EyeBlink(eye_blink(1))).is_none());
    let old = map.register(Controller::EyeBlink(eye_blink(9)));
    assert!(matches!(old, Some(Controller::EyeBlink(ref b)) if b.priority() == 1));
    assert_eq!(map.controllers(), vec![ControllerKind::EyeBlink]);
    assert_eq!(map.get(ControllerKind::EyeBlink).unwrap().priority(), 9);
    assert!(map.get(ControllerKind::Expression).is_none());
    assert!(map.remove(ControllerKind::EyeBlink).is_some());
    assert!(map.remove(ControllerKind::EyeBlink).is_none());
    assert!(!map.is_enabled(ControllerKind::EyeBlink));
}

#[test]
fn expression_controller_registry() {
    let m = model();
    let mut ec = expression_controller(&m, "Eye", UNIT, 1);
    let e2 = Expression::from_exp3(
        &m,
        Expression3 { ty: String::new(), fade_in_time: 0, fade_out_time: 0, parameters: vec![] },
    );
    let replaced = ec.register("face".to_string(), e2);
    assert_eq!(replaced.unwrap().parameters().len(), 1);
    assert_eq!(ec.names(), vec!["face".to_string()]);
    ec.set_expression_weight(3 * UNIT);
    assert_eq!(ec.weight(), UNIT);
    ec.set_expression_weight(-1);
    assert_eq!(ec.weight(), 0);
    assert_eq!(ec.expressions().iter().filter(|e| e.is_some()).count(), 1);
}

#[test]
fn unknown_expression_applies_nothing() {
    let mut m = model();
    let mut ec = expression_controller(&m, "Eye", 0, 1);
    ec.set_expression("nothing");
    ec.update_parameters(&mut m, UNIT);
    assert_eq!(m.parameter_values(), &[UNIT / 2, UNIT / 2]);
    ec.set_expression("face");
    ec.update_parameters(&mut m, UNIT);
    assert_eq!(m.parameter_values(), &[0, UNIT / 2]);
}
