use std::sync::Arc;

use cubism::fixed::UNIT;
use cubism::flags::{BLEND_ADDITIVE, IS_VISIBLE, OPACITY_CHANGED, VISIBILITY_CHANGED};
use cubism::moc::{CanvasInfo, Moc, MocError, MocTables};
use cubism::model::{DrawableFrame, Model};

const LATEST_MOC_VERSION: u32 = 3;

fn tables() -> MocTables {
    MocTables {
        parameter_ids: vec![
            Some("ParamAngleX".to_string()),
            Some("ParamEyeLOpen".to_string()),
            None,
        ],
        part_ids: vec![Some("PartA".to_string()), Some("PartB".to_string())],
        drawable_ids: vec![Some("D0".to_string()), Some("D1".to_string())],
        parameter_min: vec![-30 * UNIT, 0, 0],
        parameter_max: vec![30 * UNIT, UNIT, UNIT],
        parameter_default: vec![0, UNIT, UNIT / 2],
        part_parent_indices: vec![-1, 0],
        drawable_texture_indices: vec![0, 1],
        drawable_constant_flags: vec![BLEND_ADDITIVE, 0],
        drawable_vertex_counts: vec![3, 3],
        drawable_indices: vec![vec![0, 1, 2], vec![0, 2, 1]],
        drawable_masks: vec![vec![], vec![0]],
        canvas: CanvasInfo { size: [UNIT, UNIT], origin: [UNIT / 2, UNIT / 2], pixels_per_unit: UNIT },
    }
}

fn frame(flags: Vec<u8>) -> DrawableFrame {
    DrawableFrame {
        render_orders: vec![1, 0],
        draw_orders: vec![500, 500],
        opacities: vec![UNIT, UNIT / 2],
        dynamic_flags: flags,
        vertex_positions: vec![vec![[0, 0], [UNIT, 0], [0, UNIT]], vec![[1, 1], [2, 2], [3, 3]]],
        vertex_uvs: vec![vec![[0, 0], [UNIT, 0], [0, UNIT]], vec![[0, 0], [0, 0], [0, 0]]],
    }
}

fn model() -> Model {
    Model::from_revived(3, 3, Some(tables())).unwrap()
}

#[test]
fn load_rejects_newer_version() {
    let r = Moc::load(LATEST_MOC_VERSION + 1, LATEST_MOC_VERSION, Some(tables()));
    assert!(matches!(r, Err(MocError::MocVersionMismatch(v)) if v == LATEST_MOC_VERSION + 1));
}

#[test]
fn load_rejects_failed_revival() {
    assert!(matches!(Moc::load(3, 3, None), Err(MocError::InvalidMocData)));
}

#[test]
fn load_rejects_mismatched_arrays() {
    let mut t = tables();
    t.parameter_min.pop();
    assert!(matches!(Moc::load(1, LATEST_MOC_VERSION, Some(t)), Err(MocError::InvalidMocData)));
    assert!(matches!(Model::from_revived(7, LATEST_MOC_VERSION, None), Err(MocError::MocVersionMismatch(7))));
}

#[test]
fn load_replaces_invalid_ids() {
    let moc = Moc::load(3, 3, Some(tables())).unwrap();
    assert_eq!(moc.parameter_ids()[2], "NON_UTF8_ID");
    assert_eq!(moc.parameter_ids()[0], "ParamAngleX");
}

#[test]
fn counts_consistent_after_load_and_update() {
    let mut m = model();
    m.update(frame(vec![IS_VISIBLE, 0]));
    let moc = m.moc();
    assert_eq!(moc.parameter_count(), moc.parameter_ids().len());
    assert_eq!(moc.part_count(), moc.part_ids().len());
    assert_eq!(moc.drawable_count(), moc.drawable_ids().len());
    assert_eq!(moc.parameter_count(), 3);
    assert_eq!(moc.part_count(), 2);
    assert_eq!(moc.drawable_count(), 2);
    assert_eq!(m.parameter_values().len(), moc.parameter_count());
    assert_eq!(moc.parameter_min().len(), moc.parameter_count());
    assert_eq!(moc.parameter_max().len(), moc.parameter_count());
    assert_eq!(moc.parameter_default().len(), moc.parameter_count());
    assert_eq!(m.part_opacities().len(), moc.part_count());
    assert_eq!(m.drawable_render_orders().len(), moc.drawable_count());
}

#[test]
fn new_model_starts_at_defaults() {
    let m = model();
    assert_eq!(m.parameter_values(), &[0, UNIT, UNIT / 2]);
    assert_eq!(m.part_opacities(), &[UNIT, UNIT]);
    assert_eq!(m.drawable_opacities(), &[0, 0]);
}

#[test]
fn clone_is_independent() {
    let original = model();
    let mut copy = original.clone_model();
    copy.set_parameter_value(0, 12 * UNIT);
    copy.set_part_opacity(1, 0);
    assert_eq!(original.parameter_values(), &[0, UNIT, UNIT / 2]);
    assert_eq!(original.part_opacities(), &[UNIT, UNIT]);
    assert_eq!(copy.parameter_values(), &[12 * UNIT, UNIT, UNIT / 2]);
    assert!(Arc::ptr_eq(&original.moc_arc(), &copy.moc_arc()));
}

#[test]
fn clone_does_not_copy_drawable_state() {
    let mut m = model();
    m.update(frame(vec![IS_VISIBLE, IS_VISIBLE]));
    let c = m.clone_model();
    assert_eq!(c.drawable_render_orders(), &[0, 0]);
    assert_eq!(m.drawable_render_orders(), &[1, 0]);
}

#[test]
fn lookups_by_name() {
    let m = model();
    assert_eq!(m.parameter_index("ParamEyeLOpen"), Some(1));
    assert_eq!(m.parameter_index("Missing"), None);
    let p = m.parameter("ParamAngleX").unwrap();
    assert_eq!(p.min_value, -30 * UNIT);
    assert_eq!(p.max_value, 30 * UNIT);
    assert_eq!(p.default_value, 0);
    assert!(m.part("Nope").is_none());
    assert_eq!(m.part("PartB").unwrap().opacity, UNIT);
    assert_eq!(m.drawable("D1").unwrap().index, 1);
}

#[test]
fn part_parents() {
    let m = model();
    assert!(m.part_parent(0).is_none());
    assert_eq!(m.part_parent(1).unwrap().id, "PartA");
}

#[test]
fn update_resets_then_stores_flags() {
    let mut m = model();
    m.update(frame(vec![IS_VISIBLE | VISIBILITY_CHANGED, OPACITY_CHANGED]));
    assert_eq!(m.drawable_dynamic_flags(), &[IS_VISIBLE | VISIBILITY_CHANGED, OPACITY_CHANGED]);
    m.reset_dynamic_flags();
    assert_eq!(m.drawable_dynamic_flags(), &[IS_VISIBLE, 0]);
    assert_eq!(m.drawable_vertex_positions(0).len(), 3);
    assert_eq!(m.drawable_opacities(), &[UNIT, UNIT / 2]);
}

#[test]
fn drawable_view_and_masks() {
    let m = model();
    assert!(m.is_masked());
    let d0 = m.drawable_at(0);
    let d1 = m.drawable_at(1);
    assert!(!d0.is_masked());
    assert!(d1.is_masked());
    assert_eq!(d0.constant_flags, BLEND_ADDITIVE);
    assert_eq!(d1.texture_index, 1);
    assert_eq!(m.moc().drawable_indices(1), &[0, 2, 1]);
    assert_eq!(m.moc().drawable_masks(1), &[0]);
}

#[test]
fn unmasked_moc() {
    let mut t = tables();
    t.drawable_masks = vec![vec![], vec![]];
    let moc = Moc::load(0, LATEST_MOC_VERSION, Some(t)).unwrap();
    assert!(!moc.is_masked());
}

#[test]
fn newer_core_accepts_newer_moc() {
    assert!(Moc::load(4, 5, Some(tables())).is_ok());
    assert!(matches!(Moc::load(4, 3, Some(tables())), Err(MocError::MocVersionMismatch(4))));
}
