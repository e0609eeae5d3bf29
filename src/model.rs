//! A model instance: the mutable animation state of one character over a
//! shared moc.

use std::sync::Arc;
use vstd::prelude::*;
use crate::fixed::UNIT;
use crate::flags::IS_VISIBLE;
use crate::moc::{CanvasInfo, find_id, first_index_of, has_id, Moc, MocError, MocTables};

verus! {

/// The per-drawable state that evaluating a model yields: one entry per
/// drawable in each list.
pub struct DrawableFrame {
    pub render_orders: Vec<i32>,
    pub draw_orders: Vec<i32>,
    pub opacities: Vec<i64>,
    pub dynamic_flags: Vec<u8>,
    pub vertex_positions: Vec<Vec<[i64; 2]>>,
    pub vertex_uvs: Vec<Vec<[i64; 2]>>,
}

impl DrawableFrame {
    /// Every list holds one entry per drawable of a moc with `n` drawables.
    pub open spec fn fits(&self, n: nat) -> bool {
        &&& self.render_orders@.len() == n
        &&& self.draw_orders@.len() == n
        &&& self.opacities@.len() == n
        &&& self.dynamic_flags@.len() == n
        &&& self.vertex_positions@.len() == n
        &&& self.vertex_uvs@.len() == n
    }
}

/// A parameter of a model, read at one moment.
pub struct Parameter {
    pub id: String,
    pub value: i64,
    pub min_value: i64,
    pub max_value: i64,
    pub default_value: i64,
}

/// A part of a model, read at one moment.
pub struct Part {
    pub id: String,
    pub opacity: i64,
}

/// A drawable of a model, read at one moment. Its triangle indices, masks
/// and vertices are read through the model by `index`.
pub struct Drawable {
    pub index: usize,
    pub render_order: i32,
    pub draw_order: i32,
    pub texture_index: i32,
    pub opacity: i64,
    pub constant_flags: u8,
    pub dynamic_flags: u8,
    pub mask_count: usize,
}

impl Drawable {
    /// Whether other drawables mask this one.
    pub fn is_masked(&self) -> (r: bool)
        ensures
            r == (self.mask_count > 0),
    {
        self.mask_count > 0
    }
}

/// One animatable instance of a moc. Several models may share one moc;
/// each owns its parameter values, part opacities and drawable state.
pub struct Model {
    moc: Arc<Moc>,
    parameter_values: Vec<i64>,
    part_opacities: Vec<i64>,
    render_orders: Vec<i32>,
    draw_orders: Vec<i32>,
    drawable_opacities: Vec<i64>,
    dynamic_flags: Vec<u8>,
    vertex_positions: Vec<Vec<[i64; 2]>>,
    vertex_uvs: Vec<Vec<[i64; 2]>>,
}

/// `n` copies of `v`.
pub open spec fn filled<T>(n: nat, v: T) -> Seq<T> {
    Seq::new(n, |_i: int| v)
}

fn filled_vec<T: Copy>(n: usize, v: T) -> (r: Vec<T>)
    ensures
        r@ == filled(n as nat, v),
{
    let mut r: Vec<T> = Vec::new();
    let mut i: usize = 0;
    while i < n
        invariant
            i <= n,
            r@ == filled(i as nat, v),
        decreases n - i,
    {
        r.push(v);
        i = i + 1;
        assert(r@ =~= filled(i as nat, v));
    }
    r
}

fn copy_values(v: &Vec<i64>) -> (r: Vec<i64>)
    ensures
        r@ == v@,
{
    let r = v.clone();
    assert(r@ =~= v@);
    r
}

fn empty_lists(n: usize) -> (r: Vec<Vec<[i64; 2]>>)
    ensures
        r@.len() == n,
        forall|i: int| 0 <= i < n ==> r@[i]@ == Seq::<[i64; 2]>::empty(),
{
    let mut r: Vec<Vec<[i64; 2]>> = Vec::new();
    let mut i: usize = 0;
    while i < n
        invariant
            i <= n,
            r@.len() == i,
            forall|j: int| 0 <= j < i ==> r@[j]@ == Seq::<[i64; 2]>::empty(),
        decreases n - i,
    {
        r.push(Vec::new());
        i = i + 1;
    }
    r
}

impl Model {
    /// The moc this model animates.
    pub closed spec fn moc_spec(&self) -> Moc {
        *self.moc
    }

    /// The parameter values.
    pub closed spec fn params(&self) -> Seq<i64> {
        self.parameter_values@
    }

    /// The part opacities.
    pub closed spec fn opacities(&self) -> Seq<i64> {
        self.part_opacities@
    }

    pub closed spec fn render_orders_view(&self) -> Seq<i32> {
        self.render_orders@
    }

    pub closed spec fn draw_orders_view(&self) -> Seq<i32> {
        self.draw_orders@
    }

    pub closed spec fn drawable_opacities_view(&self) -> Seq<i64> {
        self.drawable_opacities@
    }

    pub closed spec fn dynamic_flags_view(&self) -> Seq<u8> {
        self.dynamic_flags@
    }

    pub closed spec fn vertex_positions_view(&self) -> Seq<Seq<[i64; 2]>> {
        self.vertex_positions@.map_values(|v: Vec<[i64; 2]>| v@)
    }

    pub closed spec fn vertex_uvs_view(&self) -> Seq<Seq<[i64; 2]>> {
        self.vertex_uvs@.map_values(|v: Vec<[i64; 2]>| v@)
    }

    pub open spec fn parameter_count_spec(&self) -> nat {
        self.moc_spec().parameter_count_spec()
    }

    pub open spec fn part_count_spec(&self) -> nat {
        self.moc_spec().part_count_spec()
    }

    pub open spec fn drawable_count_spec(&self) -> nat {
        self.moc_spec().drawable_count_spec()
    }

    /// The model's invariant: its moc is well formed and every array of the
    /// model has the length that the moc's counts give.
    pub open spec fn wf(&self) -> bool {
        &&& self.moc_spec().wf()
        &&& self.params().len() == self.parameter_count_spec()
        &&& self.opacities().len() == self.part_count_spec()
        &&& self.render_orders_view().len() == self.drawable_count_spec()
        &&& self.draw_orders_view().len() == self.drawable_count_spec()
        &&& self.drawable_opacities_view().len() == self.drawable_count_spec()
        &&& self.dynamic_flags_view().len() == self.drawable_count_spec()
        &&& self.vertex_positions_view().len() == self.drawable_count_spec()
        &&& self.vertex_uvs_view().len() == self.drawable_count_spec()
    }

    /// The drawable state of a model that has not been updated yet.
    pub open spec fn fresh_drawables(&self) -> bool {
        let n = self.drawable_count_spec();
        &&& self.render_orders_view() == filled(n, 0i32)
        &&& self.draw_orders_view() == filled(n, 0i32)
        &&& self.drawable_opacities_view() == filled(n, 0i64)
        &&& self.dynamic_flags_view() == filled(n, 0u8)
        &&& self.vertex_positions_view() == filled(n, Seq::<[i64; 2]>::empty())
        &&& self.vertex_uvs_view() == filled(n, Seq::<[i64; 2]>::empty())
    }

    fn with_state(moc: Arc<Moc>, parameter_values: Vec<i64>, part_opacities: Vec<i64>) -> (r:
        Model)
        requires
            moc.wf(),
            parameter_values@.len() == moc.parameter_count_spec(),
            part_opacities@.len() == moc.part_count_spec(),
        ensures
            r.wf(),
            r.moc_spec() == *moc,
            r.params() == parameter_values@,
            r.opacities() == part_opacities@,
            r.fresh_drawables(),
    {
        let n = moc.drawable_count();
        let vertex_positions = empty_lists(n);
        let vertex_uvs = empty_lists(n);
        let r = Model {
            moc,
            parameter_values,
            part_opacities,
            render_orders: filled_vec(n, 0i32),
            draw_orders: filled_vec(n, 0i32),
            drawable_opacities: filled_vec(n, 0i64),
            dynamic_flags: filled_vec(n, 0u8),
            vertex_positions,
            vertex_uvs,
        };
        assert(r.vertex_positions_view() =~= filled(n as nat, Seq::<[i64; 2]>::empty()));
        assert(r.vertex_uvs_view() =~= filled(n as nat, Seq::<[i64; 2]>::empty()));
        r
    }

    /// A new model of `moc`: every parameter at its default value, every
    /// part fully opaque, and no drawable state until the first update.
    pub fn new(moc: Arc<Moc>) -> (r: Model)
        requires
            moc.wf(),
        ensures
            r.wf(),
            r.moc_spec() == *moc,
            r.params() == moc.parameter_default_view(),
            r.opacities() == filled(moc.part_count_spec(), UNIT),
            r.fresh_drawables(),
    {
        let defaults = moc.parameter_default();
        let mut values: Vec<i64> = Vec::new();
        let mut i: usize = 0;
        while i < defaults.len()
            invariant
                i <= defaults@.len(),
                values@ == defaults@.subrange(0, i as int),
            decreases defaults@.len() - i,
        {
            values.push(defaults[i]);
            i = i + 1;
            assert(values@ =~= defaults@.subrange(0, i as int));
        }
        assert(values@ =~= defaults@);
        let opacities = filled_vec(moc.part_count(), UNIT);
        Self::with_state(moc, values, opacities)
    }

    /// A second instance of the same moc with this model's parameter values
    /// and part opacities; the drawable state is not copied and stays empty
    /// until that model's first update.
    pub fn clone_model(&self) -> (r: Model)
        requires
            self.wf(),
        ensures
            r.wf(),
            r.moc_spec() == self.moc_spec(),
            r.params() == self.params(),
            r.opacities() == self.opacities(),
            r.fresh_drawables(),
    {
        let values = copy_values(&self.parameter_values);
        let opacities = copy_values(&self.part_opacities);
        Self::with_state(Arc::clone(&self.moc), values, opacities)
    }

    /// The moc this model animates.
    pub fn moc(&self) -> (r: &Moc)
        ensures
            *r == self.moc_spec(),
    {
        &self.moc
    }

    /// A shared handle on the moc this model animates.
    pub fn moc_arc(&self) -> (r: Arc<Moc>)
        ensures
            *r == self.moc_spec(),
    {
        Arc::clone(&self.moc)
    }

    /// The parameter values.
    pub fn parameter_values(&self) -> (r: &[i64])
        ensures
            r@ == self.params(),
    {
        self.parameter_values.as_slice()
    }

    /// The part opacities.
    pub fn part_opacities(&self) -> (r: &[i64])
        ensures
            r@ == self.opacities(),
    {
        self.part_opacities.as_slice()
    }

    /// Sets the value of parameter `idx`.
    pub fn set_parameter_value(&mut self, idx: usize, val: i64)
        requires
            old(self).wf(),
            idx < old(self).parameter_count_spec(),
        ensures
            final(self).wf(),
            final(self).params() == old(self).params().update(idx as int, val),
            final(self).same_but_params(*old(self)),
    {
        self.parameter_values.set(idx, val);
    }

    /// Sets the opacity of part `idx`.
    pub fn set_part_opacity(&mut self, idx: usize, val: i64)
        requires
            old(self).wf(),
            idx < old(self).part_count_spec(),
        ensures
            final(self).wf(),
            final(self).opacities() == old(self).opacities().update(idx as int, val),
            final(self).moc_spec() == old(self).moc_spec(),
            final(self).params() == old(self).params(),
            final(self).drawables_same(*old(self)),
    {
        self.part_opacities.set(idx, val);
    }

    /// Everything but the parameter values is as in `other`.
    pub open spec fn same_but_params(&self, other: Model) -> bool {
        &&& self.moc_spec() == other.moc_spec()
        &&& self.opacities() == other.opacities()
        &&& self.drawables_same(other)
    }

    /// The drawable state is as in `other`.
    pub open spec fn drawables_same(&self, other: Model) -> bool {
        &&& self.render_orders_view() == other.render_orders_view()
        &&& self.draw_orders_view() == other.draw_orders_view()
        &&& self.drawable_opacities_view() == other.drawable_opacities_view()
        &&& self.dynamic_flags_view() == other.dynamic_flags_view()
        &&& self.vertex_positions_view() == other.vertex_positions_view()
        &&& self.vertex_uvs_view() == other.vertex_uvs_view()
    }

    /// The index of the first parameter named `name`.
    pub fn parameter_index(&self, name: &str) -> (r: Option<usize>)
        ensures
            r is Some ==> first_index_of(
                self.moc_spec().parameter_ids_view(),
                name@,
                r.unwrap() as int,
            ),
            r is None ==> !has_id(self.moc_spec().parameter_ids_view(), name@),
    {
        find_id(self.moc.parameter_ids(), name)
    }

    /// The index of the first part named `name`.
    pub fn part_index(&self, name: &str) -> (r: Option<usize>)
        ensures
            r is Some ==> first_index_of(self.moc_spec().part_ids_view(), name@, r.unwrap() as int),
            r is None ==> !has_id(self.moc_spec().part_ids_view(), name@),
    {
        find_id(self.moc.part_ids(), name)
    }

    /// The index of the first drawable named `name`.
    pub fn drawable_index(&self, name: &str) -> (r: Option<usize>)
        ensures
            r is Some ==> first_index_of(
                self.moc_spec().drawable_ids_view(),
                name@,
                r.unwrap() as int,
            ),
            r is None ==> !has_id(self.moc_spec().drawable_ids_view(), name@),
    {
        find_id(self.moc.drawable_ids(), name)
    }

    /// The parameter at `idx`.
    pub fn parameter_at(&self, idx: usize) -> (r: Parameter)
        requires
            self.wf(),
            idx < self.parameter_count_spec(),
        ensures
            r.id@ == self.moc_spec().parameter_ids_view()[idx as int],
            r.value == self.params()[idx as int],
            r.min_value == self.moc_spec().parameter_min_view()[idx as int],
            r.max_value == self.moc_spec().parameter_max_view()[idx as int],
            r.default_value == self.moc_spec().parameter_default_view()[idx as int],
    {
        Parameter {
            id: self.moc.parameter_ids()[idx].clone(),
            value: self.parameter_values[idx],
            min_value: self.moc.parameter_min()[idx],
            max_value: self.moc.parameter_max()[idx],
            default_value: self.moc.parameter_default()[idx],
        }
    }

    /// The first parameter named `name`, if there is one.
    pub fn parameter(&self, name: &str) -> (r: Option<Parameter>)
        requires
            self.wf(),
        ensures
            r is None <==> !has_id(self.moc_spec().parameter_ids_view(), name@),
            r is Some ==> r.unwrap().id@ == name@ && exists|i: int|
                first_index_of(self.moc_spec().parameter_ids_view(), name@, i)
                    && r.unwrap().value == self.params()[i]
                    && r.unwrap().min_value == self.moc_spec().parameter_min_view()[i]
                    && r.unwrap().max_value == self.moc_spec().parameter_max_view()[i]
                    && r.unwrap().default_value == self.moc_spec().parameter_default_view()[i],
    {
        match self.parameter_index(name) {
            Some(i) => Some(self.parameter_at(i)),
            None => None,
        }
    }

    /// The part at `idx`.
    pub fn part_at(&self, idx: usize) -> (r: Part)
        requires
            self.wf(),
            idx < self.part_count_spec(),
        ensures
            r.id@ == self.moc_spec().part_ids_view()[idx as int],
            r.opacity == self.opacities()[idx as int],
    {
        Part { id: self.moc.part_ids()[idx].clone(), opacity: self.part_opacities[idx] }
    }

    /// The first part named `name`, if there is one.
    pub fn part(&self, name: &str) -> (r: Option<Part>)
        requires
            self.wf(),
        ensures
            r is None <==> !has_id(self.moc_spec().part_ids_view(), name@),
            r is Some ==> r.unwrap().id@ == name@ && exists|i: int|
                first_index_of(self.moc_spec().part_ids_view(), name@, i)
                    && r.unwrap().opacity == self.opacities()[i],
    {
        match self.part_index(name) {
            Some(i) => Some(self.part_at(i)),
            None => None,
        }
    }

    /// The parent of part `idx`, or `None` for a root part.
    pub fn part_parent(&self, idx: usize) -> (r: Option<Part>)
        requires
            self.wf(),
            idx < self.part_count_spec(),
        ensures
            ({
                let p = self.moc_spec().part_parents_view()[idx as int];
                if 0 <= p < self.part_count_spec() {
                    r is Some && r.unwrap().id@ == self.moc_spec().part_ids_view()[p as int]
                        && r.unwrap().opacity == self.opacities()[p as int]
                } else {
                    r is None
                }
            }),
    {
        let p = self.moc.part_parents()[idx];
        if 0 <= p && (p as usize) < self.moc.part_count() {
            Some(self.part_at(p as usize))
        } else {
            None
        }
    }

    /// The drawable at `idx`.
    pub fn drawable_at(&self, idx: usize) -> (r: Drawable)
        requires
            self.wf(),
            idx < self.drawable_count_spec(),
        ensures
            r.index == idx,
            r.render_order == self.render_orders_view()[idx as int],
            r.draw_order == self.draw_orders_view()[idx as int],
            r.texture_index == self.moc_spec().texture_indices_view()[idx as int],
            r.opacity == self.drawable_opacities_view()[idx as int],
            r.constant_flags == self.moc_spec().constant_flags_view()[idx as int],
            r.dynamic_flags == self.dynamic_flags_view()[idx as int],
            r.mask_count == self.moc_spec().masks_view()[idx as int].len(),
    {
        Drawable {
            index: idx,
            render_order: self.render_orders[idx],
            draw_order: self.draw_orders[idx],
            texture_index: self.moc.drawable_texture_indices()[idx],
            opacity: self.drawable_opacities[idx],
            constant_flags: self.moc.drawable_constant_flags()[idx],
            dynamic_flags: self.dynamic_flags[idx],
            mask_count: self.moc.drawable_masks(idx).len(),
        }
    }

    /// The first drawable named `name`, if there is one.
    pub fn drawable(&self, name: &str) -> (r: Option<Drawable>)
        requires
            self.wf(),
        ensures
            r is None <==> !has_id(self.moc_spec().drawable_ids_view(), name@),
            r is Some ==> ({
                let d = r.unwrap();
                let i = d.index as int;
                &&& first_index_of(self.moc_spec().drawable_ids_view(), name@, i)
                &&& d.render_order == self.render_orders_view()[i]
                &&& d.draw_order == self.draw_orders_view()[i]
                &&& d.texture_index == self.moc_spec().texture_indices_view()[i]
                &&& d.opacity == self.drawable_opacities_view()[i]
                &&& d.constant_flags == self.moc_spec().constant_flags_view()[i]
                &&& d.dynamic_flags == self.dynamic_flags_view()[i]
                &&& d.mask_count == self.moc_spec().masks_view()[i].len()
            }),
    {
        match self.drawable_index(name) {
            Some(i) => Some(self.drawable_at(i)),
            None => None,
        }
    }

    /// Every parameter, in index order.
    pub fn parameters(&self) -> (r: Vec<Parameter>)
        requires
            self.wf(),
        ensures
            r@.len() == self.parameter_count_spec(),
            forall|i: int|
                0 <= i < r@.len() ==> (#[trigger] r@[i]).id@ == self.moc_spec().parameter_ids_view()[i]
                    && r@[i].value == self.params()[i],
    {
        let n = self.moc.parameter_count();
        let mut r: Vec<Parameter> = Vec::new();
        let mut i: usize = 0;
        while i < n
            invariant
                i <= n,
                n == self.parameter_count_spec(),
                self.wf(),
                r@.len() == i,
                forall|j: int|
                    0 <= j < i ==> (#[trigger] r@[j]).id@ == self.moc_spec().parameter_ids_view()[j]
                        && r@[j].value == self.params()[j],
            decreases n - i,
        {
            r.push(self.parameter_at(i));
            i = i + 1;
        }
        r
    }

    /// Every part, in index order.
    pub fn parts(&self) -> (r: Vec<Part>)
        requires
            self.wf(),
        ensures
            r@.len() == self.part_count_spec(),
            forall|i: int|
                0 <= i < r@.len() ==> (#[trigger] r@[i]).id@ == self.moc_spec().part_ids_view()[i]
                    && r@[i].opacity == self.opacities()[i],
    {
        let n = self.moc.part_count();
        let mut r: Vec<Part> = Vec::new();
        let mut i: usize = 0;
        while i < n
            invariant
                i <= n,
                n == self.part_count_spec(),
                self.wf(),
                r@.len() == i,
                forall|j: int|
                    0 <= j < i ==> (#[trigger] r@[j]).id@ == self.moc_spec().part_ids_view()[j]
                        && r@[j].opacity == self.opacities()[j],
            decreases n - i,
        {
            r.push(self.part_at(i));
            i = i + 1;
        }
        r
    }

    /// Every drawable, in index order.
    pub fn drawables(&self) -> (r: Vec<Drawable>)
        requires
            self.wf(),
        ensures
            r@.len() == self.drawable_count_spec(),
            forall|i: int|
                0 <= i < r@.len() ==> (#[trigger] r@[i]).index == i && r@[i].render_order
                    == self.render_orders_view()[i] && r@[i].opacity == self.drawable_opacities_view()[i]
                    && r@[i].dynamic_flags == self.dynamic_flags_view()[i] && r@[i].constant_flags
                    == self.moc_spec().constant_flags_view()[i],
    {
        let n = self.moc.drawable_count();
        let mut r: Vec<Drawable> = Vec::new();
        let mut i: usize = 0;
        while i < n
            invariant
                i <= n,
                n == self.drawable_count_spec(),
                self.wf(),
                r@.len() == i,
                forall|j: int|
                    0 <= j < i ==> (#[trigger] r@[j]).index == j && r@[j].render_order
                        == self.render_orders_view()[j] && r@[j].opacity == self.drawable_opacities_view()[j]
                        && r@[j].dynamic_flags == self.dynamic_flags_view()[j] && r@[j].constant_flags
                        == self.moc_spec().constant_flags_view()[j],
            decreases n - i,
        {
            r.push(self.drawable_at(i));
            i = i + 1;
        }
        r
    }

    /// The drawables' render orders.
    pub fn drawable_render_orders(&self) -> (r: &[i32])
        ensures
            r@ == self.render_orders_view(),
    {
        self.render_orders.as_slice()
    }

    /// The drawables' draw orders.
    pub fn drawable_draw_orders(&self) -> (r: &[i32])
        ensures
            r@ == self.draw_orders_view(),
    {
        self.draw_orders.as_slice()
    }

    /// The drawables' opacities.
    pub fn drawable_opacities(&self) -> (r: &[i64])
        ensures
            r@ == self.drawable_opacities_view(),
    {
        self.drawable_opacities.as_slice()
    }

    /// The drawables' dynamic flags (see `DynamicFlags`).
    pub fn drawable_dynamic_flags(&self) -> (r: &[u8])
        ensures
            r@ == self.dynamic_flags_view(),
    {
        self.dynamic_flags.as_slice()
    }

    /// The vertex positions of drawable `idx`.
    pub fn drawable_vertex_positions(&self, idx: usize) -> (r: &[[i64; 2]])
        requires
            self.wf(),
            idx < self.drawable_count_spec(),
        ensures
            r@ == self.vertex_positions_view()[idx as int],
    {
        self.vertex_positions[idx].as_slice()
    }

    /// The texture coordinates of drawable `idx`.
    pub fn drawable_vertex_uvs(&self, idx: usize) -> (r: &[[i64; 2]])
        requires
            self.wf(),
            idx < self.drawable_count_spec(),
        ensures
            r@ == self.vertex_uvs_view()[idx as int],
    {
        self.vertex_uvs[idx].as_slice()
    }

    /// Clears every drawable's change bits, keeping only its visibility bit.
    pub fn reset_dynamic_flags(&mut self)
        requires
            old(self).wf(),
        ensures
            final(self).wf(),
            final(self).moc_spec() == old(self).moc_spec(),
            final(self).params() == old(self).params(),
            final(self).opacities() == old(self).opacities(),
            final(self).dynamic_flags_view().len() == old(self).dynamic_flags_view().len(),
            forall|i: int|
                0 <= i < old(self).dynamic_flags_view().len()
                    ==> final(self).dynamic_flags_view()[i]
                    == old(self).dynamic_flags_view()[i] & IS_VISIBLE,
    {
        let n = self.dynamic_flags.len();
        let mut i: usize = 0;
        while i < n
            invariant
                i <= n,
                n == self.dynamic_flags@.len(),
                self.moc == old(self).moc,
                self.parameter_values == old(self).parameter_values,
                self.part_opacities == old(self).part_opacities,
                self.render_orders == old(self).render_orders,
                self.draw_orders == old(self).draw_orders,
                self.drawable_opacities == old(self).drawable_opacities,
                self.vertex_positions == old(self).vertex_positions,
                self.vertex_uvs == old(self).vertex_uvs,
                forall|j: int| 0 <= j < i ==> self.dynamic_flags@[j] == old(self).dynamic_flags@[j] & IS_VISIBLE,
                forall|j: int| i <= j < n ==> self.dynamic_flags@[j] == old(self).dynamic_flags@[j],
            decreases n - i,
        {
            let f = self.dynamic_flags[i];
            self.dynamic_flags.set(i, f & IS_VISIBLE);
            i = i + 1;
        }
    }

    /// Finishes a frame: stores the drawable state that evaluating the
    /// model's current parameter values and part opacities yielded. The
    /// evaluation first clears every drawable's change bits (as
    /// `reset_dynamic_flags` does) and then sets the bits of what changed, so
    /// the stored flags are the frame's flags.
    pub fn update(&mut self, frame: DrawableFrame)
        requires
            old(self).wf(),
            frame.fits(old(self).drawable_count_spec()),
        ensures
            final(self).wf(),
            final(self).moc_spec() == old(self).moc_spec(),
            final(self).params() == old(self).params(),
            final(self).opacities() == old(self).opacities(),
            final(self).render_orders_view() == frame.render_orders@,
            final(self).draw_orders_view() == frame.draw_orders@,
            final(self).drawable_opacities_view() == frame.opacities@,
            final(self).dynamic_flags_view() == frame.dynamic_flags@,
            final(self).vertex_positions_view() == frame.vertex_positions@.map_values(
                |v: Vec<[i64; 2]>| v@,
            ),
            final(self).vertex_uvs_view() == frame.vertex_uvs@.map_values(|v: Vec<[i64; 2]>| v@),
    {
        let DrawableFrame {
            render_orders,
            draw_orders,
            opacities,
            dynamic_flags,
            vertex_positions,
            vertex_uvs,
        } = frame;
        self.render_orders = render_orders;
        self.draw_orders = draw_orders;
        self.drawable_opacities = opacities;
        self.dynamic_flags = dynamic_flags;
        self.vertex_positions = vertex_positions;
        self.vertex_uvs = vertex_uvs;
    }

    /// The reference canvas of the model's moc.
    pub fn canvas_info(&self) -> (r: CanvasInfo)
        ensures
            r == self.moc_spec().canvas_spec(),
    {
        self.moc.canvas_info()
    }

    /// Whether some drawable of the model is masked.
    pub fn is_masked(&self) -> (r: bool)
        requires
            self.wf(),
        ensures
            r == self.moc_spec().is_masked_spec(),
    {
        self.moc.is_masked()
    }

    /// Loads a model from what the revival of a moc blob yielded, with the
    /// errors of `Moc::load`.
    pub fn from_revived(version: u32, latest: u32, revived: Option<MocTables>) -> (r: Result<Model, MocError>)
        ensures
            match Moc::load_result(version, latest, revived) {
                Ok(_) => r is Ok && r.unwrap().wf() && r.unwrap().moc_spec().from_tables(
                    revived.unwrap(),
                ) && r.unwrap().params() == r.unwrap().moc_spec().parameter_default_view()
                    && r.unwrap().fresh_drawables(),
                Err(e) => r == Err::<Model, MocError>(e),
            },
    {
        match Moc::load(version, latest, revived) {
            Ok(moc) => Ok(Self::new(Arc::new(moc))),
            Err(e) => Err(e),
        }
    }
}

/// A loaded model, and a model after any update, has counts equal to the
/// lengths of its id tables, and every per-parameter, per-part and
/// per-drawable array has one entry per parameter, part or drawable.
pub proof fn lemma_counts_consistent(m: Model)
    requires
        m.wf(),
    ensures
        m.parameter_count_spec() == m.moc_spec().parameter_ids_view().len(),
        m.part_count_spec() == m.moc_spec().part_ids_view().len(),
        m.drawable_count_spec() == m.moc_spec().drawable_ids_view().len(),
        m.params().len() == m.parameter_count_spec(),
        m.moc_spec().parameter_min_view().len() == m.parameter_count_spec(),
        m.moc_spec().parameter_max_view().len() == m.parameter_count_spec(),
        m.moc_spec().parameter_default_view().len() == m.parameter_count_spec(),
        m.opacities().len() == m.part_count_spec(),
        m.moc_spec().part_parents_view().len() == m.part_count_spec(),
        m.render_orders_view().len() == m.drawable_count_spec(),
        m.draw_orders_view().len() == m.drawable_count_spec(),
        m.drawable_opacities_view().len() == m.drawable_count_spec(),
        m.dynamic_flags_view().len() == m.drawable_count_spec(),
        m.vertex_positions_view().len() == m.drawable_count_spec(),
        m.vertex_uvs_view().len() == m.drawable_count_spec(),
        m.moc_spec().texture_indices_view().len() == m.drawable_count_spec(),
        m.moc_spec().constant_flags_view().len() == m.drawable_count_spec(),
        m.moc_spec().vertex_counts_view().len() == m.drawable_count_spec(),
        m.moc_spec().indices_view().len() == m.drawable_count_spec(),
        m.moc_spec().masks_view().len() == m.drawable_count_spec(),
{
}

/// Changing a parameter of a clone leaves its source as it was. `copy` is
/// what `clone_model` returns for `source`, and `changed` is `copy` after
/// `set_parameter_value(idx, val)`: the source still holds the values and
/// opacities the clone started from, and the changed clone differs from the
/// source in parameter `idx` alone.
pub proof fn lemma_clone_independent(source: Model, copy: Model, changed: Model, idx: int, val: i64)
    requires
        source.wf(),
        copy.wf(),
        copy.moc_spec() == source.moc_spec(),
        copy.params() == source.params(),
        copy.opacities() == source.opacities(),
        0 <= idx < copy.parameter_count_spec(),
        changed.params() == copy.params().update(idx, val),
        changed.same_but_params(copy),
    ensures
        changed.params()[idx] == val,
        changed.params().len() == source.params().len(),
        forall|j: int| 0 <= j < source.params().len() && j != idx ==> changed.params()[j] == source.params()[j],
        changed.opacities() == source.opacities(),
        changed.moc_spec() == source.moc_spec(),
{
}

} // verus!
