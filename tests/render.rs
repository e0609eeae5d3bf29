use cubism::fixed::UNIT;
use cubism::flags::{BLEND_ADDITIVE, BLEND_MULTIPLICATIVE, IS_DOUBLE_SIDED, IS_VISIBLE};
use cubism::moc::{CanvasInfo, MocTables};
use cubism::model::{DrawableFrame, Model};
use cubism::render::{blend_mode, culls_back_faces, draw_plan, is_drawn, BlendMode};

fn model() -> Model {
    let t = MocTables {
        parameter_ids: vec![],
        part_ids: vec![],
        drawable_ids: vec![
            Some("D0".to_string()),
            Some("D1".to_string()),
            Some("D2".to_string()),
            Some("D3".to_string()),
        ],
        parameter_min: vec![],
        parameter_max: vec![],
        parameter_default: vec![],
        part_parent_indices: vec![],
        drawable_texture_indices: vec![0, 1, 2, 3],
        drawable_constant_flags: vec![
            BLEND_ADDITIVE,
            BLEND_MULTIPLICATIVE | BLEND_ADDITIVE,
            IS_DOUBLE_SIDED,
            0,
        ],
        drawable_vertex_counts: vec![0, 0, 0, 0],
        drawable_indices: vec![vec![], vec![], vec![], vec![]],
        drawable_masks: vec![vec![], vec![0], vec![], vec![]],
        canvas: CanvasInfo { size: [2 * UNIT, 3 * UNIT], origin: [UNIT, UNIT], pixels_per_unit: 100 * UNIT },
    };
    Model::from_revived(3, 3, Some(t)).unwrap()
}

#[test]
fn blend_mode_from_flags() {
    assert_eq!(blend_mode(0), BlendMode::Normal);
    assert_eq!(blend_mode(BLEND_ADDITIVE), BlendMode::Additive);
    assert_eq!(blend_mode(BLEND_MULTIPLICATIVE), BlendMode::Multiplicative);
    assert_eq!(blend_mode(BLEND_MULTIPLICATIVE | BLEND_ADDITIVE), BlendMode::Multiplicative);
    assert!(culls_back_faces(BLEND_ADDITIVE));
    assert!(!culls_back_faces(IS_DOUBLE_SIDED));
}

#[test]
fn drawn_needs_visibility_and_opacity() {
    assert!(is_drawn(1, IS_VISIBLE));
    assert!(!is_drawn(0, IS_VISIBLE));
    assert!(!is_drawn(UNIT, 0));
}

#[test]
fn plan_orders_back_to_front_and_skips_hidden() {
    let mut m = model();
    m.update(DrawableFrame {
        render_orders: vec![3, 1, 1, 0],
        draw_orders: vec![0, 0, 0, 0],
        opacities: vec![UNIT, UNIT, UNIT, 0],
        dynamic_flags: vec![IS_VISIBLE, IS_VISIBLE, IS_VISIBLE, IS_VISIBLE],
        vertex_positions: vec![vec![], vec![], vec![], vec![]],
        vertex_uvs: vec![vec![], vec![], vec![], vec![]],
    });
    let plan = draw_plan(&m);
    let order: Vec<usize> = plan.iter().map(|c| c.index).collect();
    assert_eq!(order, vec![1, 2, 0]);
    assert_eq!(plan[0].blend, BlendMode::Multiplicative);
    assert!(plan[0].masked);
    assert!(!plan[1].cull_back_faces);
    assert_eq!(plan[2].blend, BlendMode::Additive);
    assert_eq!(plan[2].texture_index, 0);
}

#[test]
fn canvas_info_passes_through() {
    let m = model();
    let c = m.canvas_info();
    assert_eq!(c.size, [2 * UNIT, 3 * UNIT]);
    assert_eq!(c.origin, [UNIT, UNIT]);
    assert_eq!(c.pixels_per_unit, 100 * UNIT);
}
