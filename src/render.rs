//! What a renderer decides for each drawable of an updated model: the
//! order to draw in, which drawables to skip, the blend mode and culling.

use vstd::prelude::*;
use crate::flags::{BLEND_ADDITIVE, BLEND_MULTIPLICATIVE, IS_DOUBLE_SIDED, IS_VISIBLE};
use crate::model::Model;

verus! {

/// How a drawable's colour is combined with what is already drawn.
#[derive(Copy, Clone, Debug, PartialEq, Eq, Structural)]
pub enum BlendMode {
    Normal,
    Additive,
    Multiplicative,
}

/// The blend mode that constant flags select: multiplicative before
/// additive, normal alpha blending otherwise.
pub open spec fn blend_mode_spec(flags: u8) -> BlendMode {
    if flags & BLEND_MULTIPLICATIVE != 0 {
        BlendMode::Multiplicative
    } else if flags & BLEND_ADDITIVE != 0 {
        BlendMode::Additive
    } else {
        BlendMode::Normal
    }
}

/// The blend mode that the constant flags `flags` select.
pub fn blend_mode(flags: u8) -> (r: BlendMode)
    ensures
        r == blend_mode_spec(flags),
{
    if flags & BLEND_MULTIPLICATIVE != 0 {
        BlendMode::Multiplicative
    } else if flags & BLEND_ADDITIVE != 0 {
        BlendMode::Additive
    } else {
        BlendMode::Normal
    }
}

/// Whether back faces are culled: always, but for a double-sided drawable.
pub fn culls_back_faces(flags: u8) -> (r: bool)
    ensures
        r == (flags & IS_DOUBLE_SIDED == 0),
{
    flags & IS_DOUBLE_SIDED == 0
}

/// Whether a drawable is drawn at all: it is visible and not transparent.
pub open spec fn drawn_spec(opacity: i64, dynamic_flags: u8) -> bool {
    opacity > 0 && dynamic_flags & IS_VISIBLE != 0
}

/// Whether a drawable with this opacity and these dynamic flags is drawn.
pub fn is_drawn(opacity: i64, dynamic_flags: u8) -> (r: bool)
    ensures
        r == drawn_spec(opacity, dynamic_flags),
{
    opacity > 0 && dynamic_flags & IS_VISIBLE != 0
}

/// One draw of a drawable.
#[derive(Copy, Clone, Debug, PartialEq, Eq, Structural)]
pub struct DrawCommand {
    pub index: usize,
    pub texture_index: i32,
    pub blend: BlendMode,
    pub cull_back_faces: bool,
    pub masked: bool,
}

/// Whether drawable `a` is drawn before drawable `b`: by render order, and
/// by index between equal render orders.
pub open spec fn drawn_before(orders: Seq<i32>, a: int, b: int) -> bool {
    orders[a] < orders[b] || (orders[a] == orders[b] && a < b)
}

/// Whether `plan` draws exactly the drawn drawables of `m`, each once, back
/// to front, with the blend mode, culling, texture and masking of its flags.
pub open spec fn is_draw_plan(m: Model, plan: Seq<DrawCommand>) -> bool {
    let orders = m.render_orders_view();
    let moc = m.moc_spec();
    &&& forall|k: int|
        #![trigger plan[k]]
        0 <= k < plan.len() ==> {
            let i = plan[k].index as int;
            &&& 0 <= i < m.drawable_count_spec()
            &&& drawn_spec(m.drawable_opacities_view()[i], m.dynamic_flags_view()[i])
            &&& plan[k].texture_index == moc.texture_indices_view()[i]
            &&& plan[k].blend == blend_mode_spec(moc.constant_flags_view()[i])
            &&& plan[k].cull_back_faces == (moc.constant_flags_view()[i] & IS_DOUBLE_SIDED == 0)
            &&& plan[k].masked == (moc.masks_view()[i].len() > 0)
        }
    &&& forall|i: int|
        0 <= i < m.drawable_count_spec() && drawn_spec(
            m.drawable_opacities_view()[i],
            #[trigger] m.dynamic_flags_view()[i],
        ) ==> exists|k: int| 0 <= k < plan.len() && plan[k].index as int == i
    &&& forall|k1: int, k2: int|
        0 <= k1 < k2 < plan.len() ==> drawn_before(orders, plan[k1].index as int, plan[k2].index as int)
}

/// The draws of an updated model, back to front: every visible drawable
/// with a positive opacity, ordered by render order (by index between
/// equal render orders).
pub fn draw_plan(m: &Model) -> (r: Vec<DrawCommand>)
    requires
        m.wf(),
    ensures
        is_draw_plan(*m, r@),
{
    let n = m.moc().drawable_count();
    let orders = m.drawable_render_orders();
    let opacities = m.drawable_opacities();
    let dflags = m.drawable_dynamic_flags();
    let cflags = m.moc().drawable_constant_flags();
    let textures = m.moc().drawable_texture_indices();
    let ghost ov = m.render_orders_view();
    let mut plan: Vec<DrawCommand> = Vec::new();
    let mut i: usize = 0;
    while i < n
        invariant
            i <= n,
            n == m.drawable_count_spec(),
            m.wf(),
            orders@ == ov,
            ov == m.render_orders_view(),
            opacities@ == m.drawable_opacities_view(),
            dflags@ == m.dynamic_flags_view(),
            cflags@ == m.moc_spec().constant_flags_view(),
            textures@ == m.moc_spec().texture_indices_view(),
            forall|k: int|
                #![trigger plan@[k]]
                0 <= k < plan@.len() ==> {
                    let j = plan@[k].index as int;
                    &&& 0 <= j < i
                    &&& drawn_spec(m.drawable_opacities_view()[j], m.dynamic_flags_view()[j])
                    &&& plan@[k].texture_index == m.moc_spec().texture_indices_view()[j]
                    &&& plan@[k].blend == blend_mode_spec(m.moc_spec().constant_flags_view()[j])
                    &&& plan@[k].cull_back_faces == (m.moc_spec().constant_flags_view()[j] & IS_DOUBLE_SIDED == 0)
                    &&& plan@[k].masked == (m.moc_spec().masks_view()[j].len() > 0)
                },
            forall|j: int|
                0 <= j < i && drawn_spec(
                    m.drawable_opacities_view()[j],
                    #[trigger] m.dynamic_flags_view()[j],
                ) ==> exists|k: int| 0 <= k < plan@.len() && plan@[k].index as int == j,
            forall|k1: int, k2: int|
                0 <= k1 < k2 < plan@.len() ==> drawn_before(ov, plan@[k1].index as int, plan@[k2].index as int),
        decreases n - i,
    {
        if is_drawn(opacities[i], dflags[i]) {
            let cmd = DrawCommand {
                index: i,
                texture_index: textures[i],
                blend: blend_mode(cflags[i]),
                cull_back_faces: culls_back_faces(cflags[i]),
                masked: m.moc().drawable_masks(i).len() > 0,
            };
            let order = orders[i];
            let mut j: usize = 0;
            while j < plan.len() && orders[plan[j].index] <= order
                invariant
                    j <= plan@.len(),
                    i < n,
                    orders@ == ov,
                    ov.len() == n,
                    order == ov[i as int],
                    forall|k: int| #![trigger plan@[k]] 0 <= k < plan@.len() ==> 0 <= plan@[k].index < i,
                    forall|k: int| 0 <= k < j ==> ov[plan@[k].index as int] <= order,
                decreases plan@.len() - j,
            {
                j = j + 1;
            }
            let ghost old_plan = plan@;
            plan.insert(j, cmd);
            proof {
                assert forall|k1: int, k2: int| 0 <= k1 < k2 < plan@.len() implies drawn_before(ov, plan@[k1].index as int, plan@[k2].index as int) by {
                    if k1 < j as int && k2 == j as int {
                        assert(plan@[k1] == old_plan[k1]);
                    } else if k1 == j as int && k2 > j as int {
                        assert(plan@[k2] == old_plan[k2 - 1]);
                        if k2 - 1 > j as int {
                            assert(drawn_before(ov, old_plan[j as int].index as int, old_plan[k2 - 1].index as int));
                        }
                    } else if k1 < j as int && k2 > j as int {
                        assert(drawn_before(ov, old_plan[k1].index as int, old_plan[k2 - 1].index as int));
                    } else if k1 > j as int {
                        assert(drawn_before(ov, old_plan[k1 - 1].index as int, old_plan[k2 - 1].index as int));
                    } else {
                        assert(drawn_before(ov, old_plan[k1].index as int, old_plan[k2].index as int));
                    }
                }
                assert forall|q: int|
                    0 <= q < i + 1 && drawn_spec(
                        m.drawable_opacities_view()[q],
                        #[trigger] m.dynamic_flags_view()[q],
                    ) implies exists|k: int| 0 <= k < plan@.len() && plan@[k].index as int == q by {
                    if q == i as int {
                        assert(plan@[j as int].index as int == q);
                    } else {
                        let k = choose|k: int| 0 <= k < old_plan.len() && old_plan[k].index as int == q;
                        if k < j as int {
                            assert(plan@[k].index as int == q);
                        } else {
                            assert(plan@[k + 1].index as int == q);
                        }
                    }
                }
            }
        }
        i = i + 1;
    }
    plan
}

} // verus!
