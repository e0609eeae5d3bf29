use cubism::controller::ControllerKind;
use cubism::fixed::UNIT;
use cubism::moc::{CanvasInfo, MocTables};
use cubism::model::Model;
use cubism::records::{Expression3, ExpressionBlendType, ExpressionParameter, Group, GroupTarget};
use cubism::user_model::UserModel;

fn model() -> Model {
    let t = MocTables {
        parameter_ids: vec![Some("ParamEyeLOpen".to_string()), Some("ParamMouth".to_string())],
        part_ids: vec![Some("Body".to_string())],
        drawable_ids: vec![],
        parameter_min: vec![0, 0],
        parameter_max: vec![UNIT, UNIT],
        parameter_default: vec![UNIT / 2, UNIT / 4],
        part_parent_indices: vec![-1],
        drawable_texture_indices: vec![],
        drawable_constant_flags: vec![],
        drawable_vertex_counts: vec![],
        drawable_indices: vec![],
        drawable_masks: vec![],
        canvas: CanvasInfo { size: [UNIT, UNIT], origin: [UNIT / 2, UNIT / 2], pixels_per_unit: UNIT },
    };
    Model::from_revived(3, 3, Some(t)).unwrap()
}

#[test]
fn save_mutate_load_restores() {
    let mut u = UserModel::new(model());
    u.set_parameter_value(0, 123_456);
    u.save_parameters();
    u.set_parameter_value(0, -7);
    u.set_parameter_value(1, 9);
    u.set_part_opacity(0, 0);
    u.load_parameters();
    assert_eq!(u.model().parameter_values(), &[123_456, UNIT / 4]);
    assert_eq!(u.model().part_opacities(), &[UNIT]);
}

#[test]
fn swap_exchanges_snapshot() {
    let mut u = UserModel::new(model());
    u.set_parameter_value(1, 42);
    u.swap_parameters();
    assert_eq!(u.model().parameter_values(), &[UNIT / 2, UNIT / 4]);
    u.load_parameters();
    assert_eq!(u.model().parameter_values(), &[UNIT / 2, 42]);
}

#[test]
fn from_records_builds_controllers() {
    let groups = vec![
        Group { target: GroupTarget::Part, name: "EyeBlink".to_string(), ids: vec!["Body".to_string()] },
        Group {
            target: GroupTarget::Parameter,
            name: "EyeBlink".to_string(),
            ids: vec!["ParamEyeLOpen".to_string(), "Missing".to_string()],
        },
    ];
    let exps = vec![(
        "smile".to_string(),
        Expression3 {
            ty: String::new(),
            fade_in_time: 0,
            fade_out_time: 0,
            parameters: vec![ExpressionParameter {
                id: "ParamMouth".to_string(),
                blend_type: ExpressionBlendType::Add,
                value: UNIT / 2,
            }],
        },
    )];
    let mut u = UserModel::from_records(model(), exps, &groups);
    assert!(u.controllers_map().is_registered(ControllerKind::Expression));
    assert!(u.controllers_map().is_registered(ControllerKind::EyeBlink));
    u.update(UNIT / 100);
    assert_eq!(u.model().parameter_values(), &[UNIT, UNIT / 4]);
}

#[test]
fn update_starts_from_snapshot() {
    let groups = vec![Group {
        target: GroupTarget::Parameter,
        name: "EyeBlink".to_string(),
        ids: vec!["ParamEyeLOpen".to_string()],
    }];
    let mut u = UserModel::from_records(model(), vec![], &groups);
    u.set_parameter_value(1, 99);
    u.update(UNIT / 100);
    assert_eq!(u.model().parameter_values(), &[UNIT, UNIT / 4]);
}

#[test]
fn no_eye_blink_group() {
    let m = model();
    assert!(UserModel::try_create_eye_blink(&m, &[]).is_none());
    let u = UserModel::from_records(m, vec![], &[]);
    assert!(!u.controllers_map().is_registered(ControllerKind::EyeBlink));
}

fn mouth_expression(value: i64) -> Expression3 {
    Expression3 {
        ty: String::new(),
        fade_in_time: 0,
        fade_out_time: 0,
        parameters: vec![ExpressionParameter {
            id: "ParamMouth".to_string(),
            blend_type: ExpressionBlendType::Overwrite,
            value,
        }],
    }
}

#[test]
fn select_expression_through_user_model() {
    let exps = vec![("open".to_string(), mouth_expression(UNIT)), ("shut".to_string(), mouth_expression(0))];
    let mut u = UserModel::from_records(model(), exps, &[]);
    u.update(UNIT / 100);
    assert_eq!(u.model().parameter_values(), &[UNIT / 2, UNIT / 4]);
    assert!(u.set_expression("open"));
    u.update(UNIT / 100);
    assert_eq!(u.model().parameter_values(), &[UNIT / 2, UNIT]);
    assert!(u.set_expression_weight(UNIT / 2));
    u.update(UNIT / 100);
    assert_eq!(u.model().parameter_values(), &[UNIT / 2, UNIT / 2]);
    assert!(u.set_expression("shut"));
    u.update(UNIT / 100);
    assert_eq!(u.model().parameter_values(), &[UNIT / 2, 0]);
}

#[test]
fn later_record_with_same_name_wins() {
    let exps = vec![("face".to_string(), mouth_expression(UNIT)), ("face".to_string(), mouth_expression(3 * UNIT / 10))];
    let mut u = UserModel::from_records(model(), exps, &[]);
    u.set_expression("face");
    u.update(UNIT / 100);
    assert_eq!(u.model().parameter_values(), &[UNIT / 2, 3 * UNIT / 10]);
}

#[test]
fn toggle_controller_through_user_model() {
    let groups = vec![Group {
        target: GroupTarget::Parameter,
        name: "EyeBlink".to_string(),
        ids: vec!["ParamEyeLOpen".to_string()],
    }];
    let mut u = UserModel::from_records(model(), vec![], &groups);
    u.set_controller_enabled(ControllerKind::EyeBlink, false);
    assert!(!u.controllers_map().is_enabled(ControllerKind::EyeBlink));
    u.update(UNIT / 100);
    assert_eq!(u.model().parameter_values(), &[UNIT / 2, UNIT / 4]);
}
