//! A model together with its controllers and a saved snapshot of its
//! animation state.

use vstd::prelude::*;
use crate::controller::{is_schedule, run_params, scheduled, Controller, ControllerKind, ControllerMap};
use crate::eye_blink::{EyeBlink, EyeState, EYE_BLINK_PRIORITY};
use crate::expression::{index_of, lemma_first_index, resolve};
use crate::expression::Expression;
use crate::expression_controller::ExpressionController;
use crate::model::{DrawableFrame, Model};
use crate::moc::{find_id, has_id, strings_view};
use crate::records::{Expression3, Group, GroupTarget};

verus! {

/// The name of the parameter group that eye blinking drives.
pub open spec fn eye_blink_group() -> Seq<char> {
    seq!['E', 'y', 'e', 'B', 'l', 'i', 'n', 'k']
}

/// The parameter indices that the names `names` resolve to against the
/// parameter ids `ids`, in name order, names the model does not have left
/// out.
pub open spec fn resolve_ids(ids: Seq<Seq<char>>, names: Seq<String>) -> Seq<usize>
    decreases names.len(),
{
    if names.len() == 0 {
        Seq::empty()
    } else {
        let rest = resolve_ids(ids, names.drop_last());
        let n = names.last()@;
        if has_id(ids, n) {
            rest.push(index_of(ids, n) as usize)
        } else {
            rest
        }
    }
}

/// Whether group `g` is the first parameter group named `EyeBlink`.
pub open spec fn first_eye_blink_group(groups: Seq<Group>, g: int) -> bool {
    &&& 0 <= g < groups.len()
    &&& groups[g].target == GroupTarget::Parameter
    &&& groups[g].name@ == eye_blink_group()
    &&& forall|h: int|
        0 <= h < g ==> !(groups[h].target == GroupTarget::Parameter && groups[h].name@
            == eye_blink_group())
}

/// Whether no record after `j` and before `k` has the name of record `j`.
pub open spec fn last_with_name(all: Seq<(String, Expression3)>, j: int, k: int) -> bool {
    forall|q: int| j < q < k ==> all[q].0@ != all[j].0@
}

/// Whether `e` is the expression `Expression::from_exp3` builds from `x`
/// against the parameter ids `pids`.
pub open spec fn built_from(e: Expression, pids: Seq<Seq<char>>, x: Expression3) -> bool {
    &&& e.entries() == resolve(pids, x.parameters@)
    &&& e.fade_times() == (x.fade_in_time, x.fade_out_time)
}

/// Whether `c` is the eye blink controller that `try_create_eye_blink`
/// builds from `groups` against the parameter ids `pids`.
pub open spec fn eye_blink_from(c: Controller, pids: Seq<Seq<char>>, groups: Seq<Group>) -> bool {
    &&& c is EyeBlink
    &&& exists|g: int| first_eye_blink_group(groups, g) && c->EyeBlink_0.ids() == resolve_ids(pids, groups[g].ids@)
    &&& c->EyeBlink_0.state() == EyeState::Open
    &&& c->EyeBlink_0.countdown() == 5_000_000
    &&& c->EyeBlink_0.timings_spec() == EyeBlink::default_timings()
    &&& c->EyeBlink_0.priority_spec() == EYE_BLINK_PRIORITY
}

/// A model, the controllers that animate it, and a snapshot of its
/// parameter values and part opacities.
pub struct UserModel {
    model: Model,
    controller_map: ControllerMap,
    parameter_snapshot: Vec<i64>,
    opacity_snapshot: Vec<i64>,
}

impl UserModel {
    pub closed spec fn model_spec(&self) -> Model {
        self.model
    }

    pub closed spec fn map_spec(&self) -> ControllerMap {
        self.controller_map
    }

    /// The saved parameter values.
    pub closed spec fn saved_params(&self) -> Seq<i64> {
        self.parameter_snapshot@
    }

    /// The saved part opacities.
    pub closed spec fn saved_opacities(&self) -> Seq<i64> {
        self.opacity_snapshot@
    }

    /// The invariant: the model and the map are well formed, the controllers
    /// fit the model, and the snapshot has the model's shape.
    pub open spec fn wf(&self) -> bool {
        &&& self.model_spec().wf()
        &&& self.map_spec().wf()
        &&& self.map_spec().fits(self.model_spec().parameter_count_spec())
        &&& self.saved_params().len() == self.model_spec().params().len()
        &&& self.saved_opacities().len() == self.model_spec().opacities().len()
    }

    /// Wraps `model` with no controllers and a snapshot of its current state.
    pub fn new(model: Model) -> (r: UserModel)
        requires
            model.wf(),
        ensures
            r.wf(),
            r.model_spec() == model,
            r.map_spec().entries_view().len() == 0,
            r.saved_params() == model.params(),
            r.saved_opacities() == model.opacities(),
    {
        let parameter_snapshot = copy_slice(model.parameter_values());
        let opacity_snapshot = copy_slice(model.part_opacities());
        UserModel { model, controller_map: ControllerMap::new(), parameter_snapshot, opacity_snapshot }
    }

    /// Wraps `model` with an expression controller holding `expressions`,
    /// each resolved against the model, and, where `groups` has a parameter
    /// group named `EyeBlink`, an eye blink controller over its parameters.
    pub fn from_records(model: Model, expressions: Vec<(String, Expression3)>, groups: &[Group]) -> (r:
        UserModel)
        requires
            model.wf(),
            expressions@.len() < usize::MAX,
        ensures
            r.wf(),
            r.model_spec() == model,
            r.map_spec().position(ControllerKind::Expression) == Some(0int),
            r.map_spec().entries_view()[0].1,
            r.map_spec().entries_view()[0].0 matches Controller::Expression(ec) && forall|j: int|
                0 <= j < expressions@.len() ==> ec.lookup(#[trigger] expressions@[j].0@) is Some && (
                last_with_name(expressions@, j, expressions@.len() as int) ==> built_from(
                    ec.lookup(expressions@[j].0@).unwrap(),
                    model.moc_spec().parameter_ids_view(),
                    expressions@[j].1,
                )),
            r.map_spec().position(ControllerKind::EyeBlink) is Some ==> r.map_spec().position(
                ControllerKind::EyeBlink,
            ) == Some(1int) && eye_blink_from(
                r.map_spec().entries_view()[1].0,
                model.moc_spec().parameter_ids_view(),
                groups@,
            ),
            r.map_spec().position(ControllerKind::EyeBlink) is Some <==> exists|g: int|
                0 <= g < groups@.len() && groups@[g].target == GroupTarget::Parameter && groups@[g].name@
                    == eye_blink_group(),
            r.saved_params() == model.params(),
            r.saved_opacities() == model.opacities(),
    {
        let mut this = Self::new(model);
        let mut expr_con = ExpressionController::new();
        let mut k: usize = 0;
        let n = expressions.len();
        let ghost all = expressions@;
        let mut rest = expressions;
        let ghost count = this.model.parameter_count_spec();
        while k < n
            invariant
                k <= n,
                n < usize::MAX,
                rest@.len() == n - k,
                all.len() == n,
                rest@ == all.subrange(k as int, n as int),
                forall|j: int| 0 <= j < k ==> expr_con.lookup(#[trigger] all[j].0@) is Some,
                forall|j: int|
                    0 <= j < k && #[trigger] last_with_name(all, j, k as int) ==> built_from(
                        expr_con.lookup(all[j].0@).unwrap(),
                        model.moc_spec().parameter_ids_view(),
                        all[j].1,
                    ),
                expr_con.wf(),
                expr_con.slots().len() <= k,
                expr_con.fits(count),
                this.wf(),
                count == this.model_spec().parameter_count_spec(),
                this.model_spec() == model,
                this.map_spec().entries_view().len() == 0,
            decreases n - k,
        {
            let ghost before = rest@;
            let (name, exp3) = rest.remove(0);
            assert(all[k as int] == before[0]);
            let e = Expression::from_exp3(&this.model, exp3);
            expr_con.register(name, e);
            proof {
                assert forall|j: int| 0 <= j < k + 1 implies expr_con.lookup(#[trigger] all[j].0@) is Some by {
                    if all[j].0@ != name@ {
                    }
                }
                assert forall|j: int|
                    0 <= j < k + 1 && #[trigger] last_with_name(all, j, k + 1) implies built_from(
                        expr_con.lookup(all[j].0@).unwrap(),
                        model.moc_spec().parameter_ids_view(),
                        all[j].1,
                    ) by {
                    if j < k {
                        assert(all[k as int].0@ != all[j].0@);
                        assert(last_with_name(all, j, k as int));
                    }
                }
                assert(rest@ =~= all.subrange(k + 1, n as int));
            }
            k = k + 1;
        }
        this.controller_map.register(Controller::Expression(expr_con));
        proof {
            let m = this.controller_map;
            assert(m.entries_view()[0].0.kind_spec() == ControllerKind::Expression);
            m.lemma_position(ControllerKind::Expression, 0);
            if let Some(i) = m.position(ControllerKind::EyeBlink) {
                assert(m.entries_view()[i].0.kind_spec() == ControllerKind::EyeBlink);
            }
        }
        match Self::try_create_eye_blink(&this.model, groups) {
            Some(eb) => {
                let ghost before = this.controller_map;
                this.controller_map.register(Controller::EyeBlink(eb));
                proof {
                    let m = this.controller_map;
                    assert(m.entries_view()[0].0.kind_spec() == ControllerKind::Expression);
                    assert(m.entries_view()[1].0.kind_spec() == ControllerKind::EyeBlink);
                    m.lemma_position(ControllerKind::Expression, 0);
                    m.lemma_position(ControllerKind::EyeBlink, 1);
                    assert forall|i: int| 0 <= i < m.entries_view().len() implies (#[trigger] m.entries_view()[i]).0.fits(count) by {
                        if i < before.entries_view().len() && m.entries_view()[i] == before.entries_view()[i] {
                        }
                    }
                }
            },
            None => {},
        }
        this
    }

    /// An eye blink controller over the parameters of the first parameter
    /// group named `EyeBlink`, ids the model does not have left out; `None`
    /// where there is no such group.
    pub fn try_create_eye_blink(model: &Model, groups: &[Group]) -> (r: Option<EyeBlink>)
        requires
            model.wf(),
        ensures
            r is Some <==> exists|g: int|
                0 <= g < groups@.len() && groups@[g].target == GroupTarget::Parameter && groups@[g].name@
                    == eye_blink_group(),
            r is Some ==> r.unwrap().fits(model.parameter_count_spec()),
            r is Some ==> exists|g: int|
                first_eye_blink_group(groups@, g) && r.unwrap().ids() == resolve_ids(
                    model.moc_spec().parameter_ids_view(),
                    groups@[g].ids@,
                ),
            r is Some ==> r.unwrap().state() == EyeState::Open && r.unwrap().countdown()
                == 5_000_000 && r.unwrap().timings_spec() == EyeBlink::default_timings()
                && r.unwrap().priority_spec() == EYE_BLINK_PRIORITY,
    {
        proof {
            reveal_strlit("EyeBlink");
        }
        let tag = "EyeBlink".to_owned();
        assert(tag@ =~= eye_blink_group());
        let mut g: usize = 0;
        while g < groups.len()
            invariant
                g <= groups@.len(),
                tag@ == eye_blink_group(),
                forall|h: int|
                    0 <= h < g ==> !(groups@[h].target == GroupTarget::Parameter && groups@[h].name@
                        == eye_blink_group()),
            decreases groups@.len() - g,
        {
            if groups[g].target == GroupTarget::Parameter && groups[g].name == tag {
                let ids = model.moc().parameter_ids();
                let wanted = &groups[g].ids;
                let ghost idv = model.moc_spec().parameter_ids_view();
                let mut found: Vec<usize> = Vec::new();
                let mut k: usize = 0;
                while k < wanted.len()
                    invariant
                        k <= wanted@.len(),
                        strings_view(ids@) == idv,
                        idv == model.moc_spec().parameter_ids_view(),
                        idv.len() == model.parameter_count_spec(),
                        found@ == resolve_ids(idv, wanted@.subrange(0, k as int)),
                        forall|j: int| 0 <= j < found@.len() ==> (#[trigger] found@[j]) < model.parameter_count_spec(),
                    decreases wanted@.len() - k,
                {
                    proof {
                        assert(wanted@.subrange(0, k + 1).drop_last() =~= wanted@.subrange(0, k as int));
                        assert(wanted@.subrange(0, k + 1).last() == wanted@[k as int]);
                    }
                    match find_id(ids, wanted[k].as_str()) {
                        Some(i) => {
                            proof {
                                lemma_first_index(idv, wanted@[k as int]@, i as int);
                            }
                            found.push(i);
                        },
                        None => {},
                    }
                    k = k + 1;
                }
                assert(wanted@.subrange(0, wanted@.len() as int) =~= wanted@);
                assert(first_eye_blink_group(groups@, g as int));
                let mut eb = EyeBlink::default();
                eb.set_ids(found);
                return Some(eb);
            }
            g = g + 1;
        }
        None
    }

    /// Saves the current parameter values and part opacities in the
    /// snapshot.
    pub fn save_parameters(&mut self)
        requires
            old(self).wf(),
        ensures
            final(self).wf(),
            final(self).saved_from(*old(self)),
    {
        self.parameter_snapshot = copy_slice(self.model.parameter_values());
        self.opacity_snapshot = copy_slice(self.model.part_opacities());
    }

    /// Loads the snapshot into the current parameter values and part
    /// opacities.
    pub fn load_parameters(&mut self)
        requires
            old(self).wf(),
        ensures
            final(self).wf(),
            final(self).loaded_from(*old(self)),
    {
        let n = self.parameter_snapshot.len();
        let mut i: usize = 0;
        while i < n
            invariant
                i <= n,
                n == self.saved_params().len(),
                self.wf(),
                self.saved_params() == old(self).saved_params(),
                self.saved_opacities() == old(self).saved_opacities(),
                self.map_spec() == old(self).map_spec(),
                self.model_spec().same_but_params(old(self).model_spec()),
                forall|j: int| 0 <= j < i ==> self.model_spec().params()[j] == self.saved_params()[j],
                forall|j: int| i <= j < n ==> self.model_spec().params()[j] == old(self).model_spec().params()[j],
            decreases n - i,
        {
            let v = self.parameter_snapshot[i];
            self.model.set_parameter_value(i, v);
            i = i + 1;
        }
        let m = self.opacity_snapshot.len();
        let mut i: usize = 0;
        while i < m
            invariant
                i <= m,
                m == self.saved_opacities().len(),
                self.wf(),
                self.saved_params() == old(self).saved_params(),
                self.saved_opacities() == old(self).saved_opacities(),
                self.map_spec() == old(self).map_spec(),
                self.model_spec().moc_spec() == old(self).model_spec().moc_spec(),
                self.model_spec().drawables_same(old(self).model_spec()),
                self.model_spec().params() =~= self.saved_params(),
                forall|j: int| 0 <= j < i ==> self.model_spec().opacities()[j] == self.saved_opacities()[j],
                forall|j: int| i <= j < m ==> self.model_spec().opacities()[j] == old(self).model_spec().opacities()[j],
            decreases m - i,
        {
            let v = self.opacity_snapshot[i];
            self.model.set_part_opacity(i, v);
            i = i + 1;
        }
        assert(self.model_spec().opacities() =~= self.saved_opacities());
    }

    /// Exchanges the snapshot with the current parameter values and part
    /// opacities.
    pub fn swap_parameters(&mut self)
        requires
            old(self).wf(),
        ensures
            final(self).wf(),
            final(self).saved_params() == old(self).model_spec().params(),
            final(self).saved_opacities() == old(self).model_spec().opacities(),
            final(self).model_spec().params() == old(self).saved_params(),
            final(self).model_spec().opacities() == old(self).saved_opacities(),
            final(self).model_spec().moc_spec() == old(self).model_spec().moc_spec(),
            final(self).model_spec().drawables_same(old(self).model_spec()),
            final(self).map_spec() == old(self).map_spec(),
    {
        let current_params = copy_slice(self.model.parameter_values());
        let current_opacities = copy_slice(self.model.part_opacities());
        self.load_parameters();
        self.parameter_snapshot = current_params;
        self.opacity_snapshot = current_opacities;
    }

    /// The snapshot holds what `before` held as current state, and nothing
    /// else changed.
    pub open spec fn saved_from(&self, before: UserModel) -> bool {
        &&& self.saved_params() == before.model_spec().params()
        &&& self.saved_opacities() == before.model_spec().opacities()
        &&& self.model_spec() == before.model_spec()
        &&& self.map_spec() == before.map_spec()
    }

    /// The current state is the snapshot of `before`, and nothing else
    /// changed.
    pub open spec fn loaded_from(&self, before: UserModel) -> bool {
        &&& self.model_spec().params() == before.saved_params()
        &&& self.model_spec().opacities() == before.saved_opacities()
        &&& self.model_spec().moc_spec() == before.model_spec().moc_spec()
        &&& self.model_spec().drawables_same(before.model_spec())
        &&& self.saved_params() == before.saved_params()
        &&& self.saved_opacities() == before.saved_opacities()
        &&& self.map_spec() == before.map_spec()
    }

    /// The parameter stage of a frame: restores the snapshot, saves it
    /// again, then runs the enabled controllers in priority order. The
    /// drawables are brought up to date afterwards by `update_drawables`
    /// with the evaluation of the resulting state.
    pub fn update(&mut self, delta: i64)
        requires
            old(self).wf(),
        ensures
            final(self).wf(),
            final(self).saved_params() == old(self).saved_params(),
            final(self).saved_opacities() == old(self).saved_opacities(),
            final(self).model_spec().opacities() == old(self).saved_opacities(),
            exists|s: Seq<usize>|
                is_schedule(old(self).map_spec().entries_view(), s)
                    && final(self).model_spec().params() == run_params(
                    old(self).saved_params(),
                    old(self).map_spec().entries_view(),
                    s,
                    delta as int,
                    s.len(),
                ) && final(self).map_spec().entries_view() == Seq::new(
                    old(self).map_spec().entries_view().len(),
                    |p: int|
                        if scheduled(s, s.len() as int, p) {
                            (
                                old(self).map_spec().entries_view()[p].0.after(delta as int),
                                old(self).map_spec().entries_view()[p].1,
                            )
                        } else {
                            old(self).map_spec().entries_view()[p]
                        },
                ),
            final(self).model_spec().moc_spec() == old(self).model_spec().moc_spec(),
            final(self).model_spec().drawables_same(old(self).model_spec()),
    {
        self.load_parameters();
        self.save_parameters();
        self.controller_map.update_enabled_controllers(&mut self.model, delta);
    }

    /// Stores the drawable state that evaluating the current state yielded.
    pub fn update_drawables(&mut self, frame: DrawableFrame)
        requires
            old(self).wf(),
            frame.fits(old(self).model_spec().drawable_count_spec()),
        ensures
            final(self).wf(),
            final(self).model_spec().moc_spec() == old(self).model_spec().moc_spec(),
            final(self).model_spec().params() == old(self).model_spec().params(),
            final(self).model_spec().opacities() == old(self).model_spec().opacities(),
            final(self).model_spec().render_orders_view() == frame.render_orders@,
            final(self).model_spec().draw_orders_view() == frame.draw_orders@,
            final(self).model_spec().drawable_opacities_view() == frame.opacities@,
            final(self).model_spec().dynamic_flags_view() == frame.dynamic_flags@,
            final(self).model_spec().vertex_positions_view() == frame.vertex_positions@.map_values(
                |v: Vec<[i64; 2]>| v@,
            ),
            final(self).model_spec().vertex_uvs_view() == frame.vertex_uvs@.map_values(
                |v: Vec<[i64; 2]>| v@,
            ),
            final(self).saved_params() == old(self).saved_params(),
            final(self).saved_opacities() == old(self).saved_opacities(),
            final(self).map_spec() == old(self).map_spec(),
    {
        self.model.update(frame);
    }

    /// Registers a controller, replacing and returning the one of the same
    /// kind.
    pub fn register_controller(&mut self, controller: Controller) -> (r: Option<Controller>)
        requires
            old(self).wf(),
            controller.valid(),
            controller.fits(old(self).model_spec().parameter_count_spec()),
        ensures
            final(self).wf(),
            final(self).model_spec() == old(self).model_spec(),
            final(self).saved_params() == old(self).saved_params(),
            final(self).saved_opacities() == old(self).saved_opacities(),
            final(self).map_spec().position(controller.kind_spec()) is Some,
            match old(self).map_spec().position(controller.kind_spec()) {
                Some(i) => r == Some(old(self).map_spec().entries_view()[i].0)
                    && final(self).map_spec().entries_view()
                    == old(self).map_spec().entries_view().update(i, (controller, true)),
                None => r is None && final(self).map_spec().entries_view()
                    == old(self).map_spec().entries_view().push((controller, true)),
            },
    {
        let ghost before = self.controller_map;
        let ghost count = self.model.parameter_count_spec();
        let r = self.controller_map.register(controller);
        proof {
            let m = self.controller_map;
            match before.position(controller.kind_spec()) {
                Some(i) => {
                    assert(m.entries_view()[i].0.kind_spec() == controller.kind_spec());
                },
                None => {
                    assert(m.entries_view()[before.entries_view().len() as int].0.kind_spec() == controller.kind_spec());
                },
            }
            assert forall|i: int| 0 <= i < m.entries_view().len() implies (#[trigger] m.entries_view()[i]).0.fits(count) by {
                if i < before.entries_view().len() && m.entries_view()[i] == before.entries_view()[i] {
                }
            }
        }
        r
    }

    /// Enables or disables the controller of kind `k`.
    pub fn set_controller_enabled(&mut self, k: ControllerKind, enabled: bool)
        requires
            old(self).wf(),
        ensures
            final(self).wf(),
            final(self).model_spec() == old(self).model_spec(),
            final(self).saved_params() == old(self).saved_params(),
            final(self).saved_opacities() == old(self).saved_opacities(),
            final(self).map_spec().entries_view() == match old(self).map_spec().position(k) {
                Some(i) => old(self).map_spec().entries_view().update(
                    i,
                    (old(self).map_spec().entries_view()[i].0, enabled),
                ),
                None => old(self).map_spec().entries_view(),
            },
    {
        let ghost before = self.controller_map;
        let ghost count = self.model.parameter_count_spec();
        self.controller_map.set_enabled(k, enabled);
        proof {
            let m = self.controller_map;
            assert forall|i: int| 0 <= i < m.entries_view().len() implies (#[trigger] m.entries_view()[i]).0.fits(count) by {
                assert(m.entries_view()[i].0 == before.entries_view()[i].0);
            }
        }
    }

    /// Makes `name` the current expression of the expression controller;
    /// returns whether one is registered.
    pub fn set_expression(&mut self, name: &str) -> (r: bool)
        requires
            old(self).wf(),
        ensures
            final(self).wf(),
            final(self).model_spec() == old(self).model_spec(),
            final(self).saved_params() == old(self).saved_params(),
            final(self).saved_opacities() == old(self).saved_opacities(),
            match old(self).map_spec().position(ControllerKind::Expression) {
                Some(i) => r && ControllerMap::expression_changed(
                    old(self).map_spec().entries_view(),
                    final(self).map_spec().entries_view(),
                    i,
                    |a: ExpressionController, b: ExpressionController| b.selected_from(a, name@),
                ),
                None => !r && final(self).map_spec().entries_view() == old(self).map_spec().entries_view(),
            },
    {
        let ghost before = self.controller_map;
        let ghost count = self.model.parameter_count_spec();
        let r = self.controller_map.set_expression(name);
        proof {
            let m = self.controller_map;
            assert forall|i: int| 0 <= i < m.entries_view().len() implies (#[trigger] m.entries_view()[i]).0.fits(count) by {
                assert(before.entries_view()[i].0.fits(count));
            }
        }
        r
    }

    /// Sets the weight of the expression controller, clamped to
    /// `[0, UNIT]`; returns whether one is registered.
    pub fn set_expression_weight(&mut self, weight: i64) -> (r: bool)
        requires
            old(self).wf(),
        ensures
            final(self).wf(),
            final(self).model_spec() == old(self).model_spec(),
            final(self).saved_params() == old(self).saved_params(),
            final(self).saved_opacities() == old(self).saved_opacities(),
            match old(self).map_spec().position(ControllerKind::Expression) {
                Some(i) => r && ControllerMap::expression_changed(
                    old(self).map_spec().entries_view(),
                    final(self).map_spec().entries_view(),
                    i,
                    |a: ExpressionController, b: ExpressionController| b.weighted_from(a, weight),
                ),
                None => !r && final(self).map_spec().entries_view() == old(self).map_spec().entries_view(),
            },
    {
        let ghost before = self.controller_map;
        let ghost count = self.model.parameter_count_spec();
        let r = self.controller_map.set_expression_weight(weight);
        proof {
            let m = self.controller_map;
            assert forall|i: int| 0 <= i < m.entries_view().len() implies (#[trigger] m.entries_view()[i]).0.fits(count) by {
                assert(before.entries_view()[i].0.fits(count));
            }
        }
        r
    }

    /// The controller map.
    pub fn controllers_map(&self) -> (r: &ControllerMap)
        ensures
            *r == self.map_spec(),
    {
        &self.controller_map
    }

    /// The controller of kind `k`, if one is registered.
    pub fn controller(&self, k: ControllerKind) -> (r: Option<&Controller>)
        requires
            self.wf(),
        ensures
            match self.map_spec().position(k) {
                Some(i) => r == Some(&self.map_spec().entries_view()[i].0),
                None => r is None,
            },
    {
        self.controller_map.get(k)
    }

    /// The model.
    pub fn model(&self) -> (r: &Model)
        ensures
            *r == self.model_spec(),
    {
        &self.model
    }

    /// Sets the value of parameter `idx` of the model.
    pub fn set_parameter_value(&mut self, idx: usize, val: i64)
        requires
            old(self).wf(),
            idx < old(self).model_spec().parameter_count_spec(),
        ensures
            final(self).wf(),
            final(self).model_spec().params() == old(self).model_spec().params().update(idx as int, val),
            final(self).model_spec().same_but_params(old(self).model_spec()),
            final(self).saved_params() == old(self).saved_params(),
            final(self).saved_opacities() == old(self).saved_opacities(),
            final(self).map_spec() == old(self).map_spec(),
    {
        self.model.set_parameter_value(idx, val);
    }

    /// Sets the opacity of part `idx` of the model.
    pub fn set_part_opacity(&mut self, idx: usize, val: i64)
        requires
            old(self).wf(),
            idx < old(self).model_spec().part_count_spec(),
        ensures
            final(self).wf(),
            final(self).model_spec().opacities() == old(self).model_spec().opacities().update(idx as int, val),
            final(self).model_spec().params() == old(self).model_spec().params(),
            final(self).saved_params() == old(self).saved_params(),
            final(self).saved_opacities() == old(self).saved_opacities(),
            final(self).map_spec() == old(self).map_spec(),
    {
        self.model.set_part_opacity(idx, val);
    }
}

/// Saving, then changing the model in any way that keeps the snapshot, then
/// loading restores exactly the parameter values and part opacities that
/// were current when saving.
pub proof fn lemma_save_load_round_trip(
    before: UserModel,
    saved: UserModel,
    changed: UserModel,
    loaded: UserModel,
)
    requires
        saved.saved_from(before),
        changed.saved_params() == saved.saved_params(),
        changed.saved_opacities() == saved.saved_opacities(),
        loaded.loaded_from(changed),
    ensures
        loaded.model_spec().params() == before.model_spec().params(),
        loaded.model_spec().opacities() == before.model_spec().opacities(),
{
}

fn copy_slice(v: &[i64]) -> (r: Vec<i64>)
    ensures
        r@ == v@,
{
    let mut r: Vec<i64> = Vec::new();
    let mut i: usize = 0;
    while i < v.len()
        invariant
            i <= v@.len(),
            r@ == v@.subrange(0, i as int),
        decreases v@.len() - i,
    {
        r.push(v[i]);
        i = i + 1;
        assert(r@ =~= v@.subrange(0, i as int));
    }
    assert(r@ =~= v@);
    r
}

} // verus!
