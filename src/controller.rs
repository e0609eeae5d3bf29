//! Controllers and the controller map that runs the enabled ones in
//! priority order.

use vstd::prelude::*;
use crate::expression::apply_entries;
use crate::expression_controller::ExpressionController;
use crate::eye_blink::{write_all, EyeBlink};
use crate::model::Model;

verus! {

/// The kinds of controller; a controller map holds at most one of each.
#[derive(Copy, Clone, Debug, PartialEq, Eq, Structural)]
pub enum ControllerKind {
    Expression,
    EyeBlink,
}

/// A unit that changes a model's parameters once per tick.
pub enum Controller {
    Expression(ExpressionController),
    EyeBlink(EyeBlink),
}

impl Controller {
    pub open spec fn kind_spec(&self) -> ControllerKind {
        match self {
            Controller::Expression(_) => ControllerKind::Expression,
            Controller::EyeBlink(_) => ControllerKind::EyeBlink,
        }
    }

    /// The execution priority; lower runs first.
    pub open spec fn priority_spec(&self) -> usize {
        match self {
            Controller::Expression(e) => e.priority_spec(),
            Controller::EyeBlink(b) => b.priority_spec(),
        }
    }

    /// The controller's own invariant.
    pub open spec fn valid(&self) -> bool {
        match self {
            Controller::Expression(e) => e.wf(),
            Controller::EyeBlink(_) => true,
        }
    }

    /// Every parameter index the controller holds is below `count`.
    pub open spec fn fits(&self, count: nat) -> bool {
        match self {
            Controller::Expression(e) => e.fits(count),
            Controller::EyeBlink(b) => b.fits(count),
        }
    }

    /// The parameter values after one tick of `delta` on `params`.
    pub open spec fn effect(&self, params: Seq<i64>, delta: int) -> Seq<i64> {
        match self {
            Controller::Expression(e) => match e.current() {
                Some(i) => if i < e.slots().len() && e.slots()[i as int] is Some {
                    let x = e.slots()[i as int].unwrap();
                    apply_entries(params, x.entries(), e.weight_spec() as int, x.entries().len())
                } else {
                    params
                },
                None => params,
            },
            Controller::EyeBlink(b) => write_all(params, b.ids(), b.tick_value(delta)),
        }
    }

    /// The controller after one tick of `delta`.
    pub open spec fn after(&self, delta: int) -> Controller {
        match self {
            Controller::Expression(e) => Controller::Expression(*e),
            Controller::EyeBlink(b) => Controller::EyeBlink(b.ticked(delta)),
        }
    }

    /// The kind of the controller.
    pub fn kind(&self) -> (r: ControllerKind)
        ensures
            r == self.kind_spec(),
    {
        match self {
            Controller::Expression(_) => ControllerKind::Expression,
            Controller::EyeBlink(_) => ControllerKind::EyeBlink,
        }
    }

    /// The execution priority; lower runs first.
    pub fn priority(&self) -> (r: usize)
        ensures
            r == self.priority_spec(),
    {
        match self {
            Controller::Expression(e) => e.priority(),
            Controller::EyeBlink(b) => b.priority(),
        }
    }

    /// Runs the controller on `model` for a tick of `delta` microseconds.
    pub fn update_parameters(&mut self, model: &mut Model, delta: i64)
        requires
            old(self).valid(),
            old(model).wf(),
            old(self).fits(old(model).parameter_count_spec()),
        ensures
            *final(self) == old(self).after(delta as int),
            final(self).valid(),
            final(self).kind_spec() == old(self).kind_spec(),
            final(self).priority_spec() == old(self).priority_spec(),
            final(self).fits(old(model).parameter_count_spec()),
            final(model).wf(),
            final(model).same_but_params(*old(model)),
            final(model).params() == old(self).effect(old(model).params(), delta as int),
    {
        match self {
            Controller::Expression(e) => e.update_parameters(model, delta),
            Controller::EyeBlink(b) => b.update_parameters(model, delta),
        }
    }
}

/// Whether entry `a` runs before entry `b`: by priority, and by position
/// (registration order) between equal priorities.
pub open spec fn runs_before(entries: Seq<(Controller, bool)>, a: int, b: int) -> bool {
    let pa = entries[a].0.priority_spec();
    let pb = entries[b].0.priority_spec();
    pa < pb || (pa == pb && a < b)
}

/// Whether `s` lists the positions of exactly the enabled entries, each
/// once, in running order.
pub open spec fn is_schedule(entries: Seq<(Controller, bool)>, s: Seq<usize>) -> bool {
    &&& forall|k: int| #![trigger s[k]] 0 <= k < s.len() ==> (s[k] as int) < entries.len() && entries[s[k] as int].1
    &&& forall|p: int| 0 <= p < entries.len() && (#[trigger] entries[p]).1 ==> exists|k: int| 0 <= k < s.len() && s[k] as int == p
    &&& forall|k1: int, k2: int| 0 <= k1 < k2 < s.len() ==> runs_before(entries, s[k1] as int, s[k2] as int)
}

/// The parameter values after the first `n` scheduled controllers ran.
pub open spec fn run_params(
    params: Seq<i64>,
    entries: Seq<(Controller, bool)>,
    s: Seq<usize>,
    delta: int,
    n: nat,
) -> Seq<i64>
    decreases n,
{
    if n == 0 {
        params
    } else {
        let prev = run_params(params, entries, s, delta, (n - 1) as nat);
        entries[s[n - 1] as int].0.effect(prev, delta)
    }
}

/// Whether `p` is among the first `n` positions of `s`.
pub open spec fn scheduled(s: Seq<usize>, n: int, p: int) -> bool {
    exists|k: int| 0 <= k < n && s[k] as int == p
}

/// In every schedule, an enabled controller with a lower priority number
/// runs before an enabled one with a higher number, so the later one's
/// writes to a shared parameter are the ones that remain.
pub proof fn lemma_priority_order(entries: Seq<(Controller, bool)>, s: Seq<usize>, a: int, b: int)
    requires
        is_schedule(entries, s),
        0 <= a < entries.len(),
        0 <= b < entries.len(),
        entries[a].1,
        entries[b].1,
        entries[a].0.priority_spec() < entries[b].0.priority_spec(),
    ensures
        exists|ka: int, kb: int| 0 <= ka < kb < s.len() && s[ka] as int == a && s[kb] as int == b,
        forall|ka: int, kb: int| 0 <= ka < s.len() && 0 <= kb < s.len() && s[ka] as int == a && s[kb] as int == b ==> ka < kb,
{
    assert(entries[a].1);
    assert(entries[b].1);
    let ka = choose|k: int| 0 <= k < s.len() && s[k] as int == a;
    let kb = choose|k: int| 0 <= k < s.len() && s[k] as int == b;
    if kb < ka {
        assert(runs_before(entries, s[kb] as int, s[ka] as int));
    }
    assert(ka != kb);
    assert forall|x: int, y: int| 0 <= x < s.len() && 0 <= y < s.len() && s[x] as int == a && s[y] as int == b implies x < y by {
        if y < x {
            assert(runs_before(entries, s[y] as int, s[x] as int));
        }
    }
}

proof fn lemma_apply_entries_len(
    values: Seq<i64>,
    es: Seq<(usize, crate::records::ExpressionBlendType, i64)>,
    w: int,
    n: nat,
)
    requires
        n <= es.len(),
        forall|k: int| 0 <= k < es.len() ==> (#[trigger] es[k]).0 < values.len(),
    ensures
        apply_entries(values, es, w, n).len() == values.len(),
    decreases n,
{
    if n > 0 {
        lemma_apply_entries_len(values, es, w, (n - 1) as nat);
    }
}

/// A controller that fits keeps the number of parameter values.
pub proof fn lemma_effect_len(c: Controller, params: Seq<i64>, delta: int)
    requires
        c.fits(params.len()),
    ensures
        c.effect(params, delta).len() == params.len(),
{
    match c {
        Controller::Expression(e) => {
            if let Some(i) = e.current() {
                if i < e.slots().len() && e.slots()[i as int] is Some {
                    let x = e.slots()[i as int].unwrap();
                    assert(e.slots()[i as int] is Some);
                    lemma_apply_entries_len(params, x.entries(), e.weight_spec() as int, x.entries().len());
                }
            }
        },
        Controller::EyeBlink(_) => {},
    }
}

/// Running fitting controllers keeps the number of parameter values.
pub proof fn lemma_run_params_len(
    params: Seq<i64>,
    entries: Seq<(Controller, bool)>,
    s: Seq<usize>,
    delta: int,
    n: nat,
)
    requires
        n <= s.len(),
        forall|k: int| 0 <= k < s.len() ==> (s[k] as int) < entries.len(),
        forall|i: int| 0 <= i < entries.len() ==> (#[trigger] entries[i]).0.fits(params.len()),
    ensures
        run_params(params, entries, s, delta, n).len() == params.len(),
    decreases n,
{
    if n > 0 {
        lemma_run_params_len(params, entries, s, delta, (n - 1) as nat);
        let prev = run_params(params, entries, s, delta, (n - 1) as nat);
        let c = entries[s[n - 1] as int].0;
        assert(c.fits(params.len()));
        lemma_effect_len(c, prev, delta);
    }
}

/// When the controller that runs last is an eye blink controller, every
/// parameter it drives ends with the value it wrote, whatever the earlier
/// controllers wrote there.
pub proof fn lemma_last_writer_wins(
    params: Seq<i64>,
    entries: Seq<(Controller, bool)>,
    s: Seq<usize>,
    delta: int,
    j: int,
)
    requires
        is_schedule(entries, s),
        s.len() > 0,
        forall|i: int| 0 <= i < entries.len() ==> (#[trigger] entries[i]).0.fits(params.len()),
        0 <= j < params.len(),
        entries[s.last() as int].0 is EyeBlink,
        crate::eye_blink::in_ids(entries[s.last() as int].0->EyeBlink_0.ids(), j),
    ensures
        run_params(params, entries, s, delta, s.len())[j]
            == entries[s.last() as int].0->EyeBlink_0.tick_value(delta),
{
    let n = s.len();
    lemma_run_params_len(params, entries, s, delta, (n - 1) as nat);
}

/// Whether `c`, on any `n` parameter values, leaves `x` in parameter `i`.
pub open spec fn writes(c: Controller, n: nat, delta: int, i: int, x: i64) -> bool {
    forall|p: Seq<i64>| p.len() == n ==> #[trigger] c.effect(p, delta)[i] == x
}

/// Whether `c`, on any `n` parameter values, leaves parameter `i` alone.
pub open spec fn leaves(c: Controller, n: nat, delta: int, i: int) -> bool {
    forall|p: Seq<i64>| p.len() == n ==> #[trigger] c.effect(p, delta)[i] == p[i]
}

/// With exactly two enabled controllers, `a` of lower priority number than
/// `b`, where `a` writes `xa` to parameter `i` and `b` writes `xb` to
/// parameter `j`: a tick leaves `xb` in `j`, and, where `i` and `j` differ
/// and `b` leaves `i` alone, `xa` in `i`. On a shared parameter the later
/// (higher-numbered) controller's write is the one that remains.
pub proof fn lemma_two_writers(
    params: Seq<i64>,
    entries: Seq<(Controller, bool)>,
    s: Seq<usize>,
    delta: int,
    a: int,
    b: int,
    i: int,
    j: int,
    xa: i64,
    xb: i64,
)
    requires
        is_schedule(entries, s),
        0 <= a < entries.len(),
        0 <= b < entries.len(),
        entries[a].1,
        entries[b].1,
        forall|q: int| 0 <= q < entries.len() && (#[trigger] entries[q]).1 ==> q == a || q == b,
        entries[a].0.priority_spec() < entries[b].0.priority_spec(),
        forall|q: int| 0 <= q < entries.len() ==> (#[trigger] entries[q]).0.fits(params.len()),
        0 <= i < params.len(),
        0 <= j < params.len(),
        writes(entries[a].0, params.len(), delta, i, xa),
        writes(entries[b].0, params.len(), delta, j, xb),
        i != j ==> leaves(entries[b].0, params.len(), delta, i),
    ensures
        run_params(params, entries, s, delta, s.len())[j] == xb,
        i != j ==> run_params(params, entries, s, delta, s.len())[i] == xa,
{
    lemma_priority_order(entries, s, a, b);
    let (ka, kb) = choose|ka: int, kb: int| 0 <= ka < kb < s.len() && s[ka] as int == a && s[kb] as int == b;
    assert forall|k: int| 0 <= k < s.len() implies (s[k] as int == a || s[k] as int == b) by {
        assert(entries[s[k] as int].1);
    }
    if s.len() > 2 {
        assert(runs_before(entries, s[0] as int, s[1] as int));
        assert(runs_before(entries, s[1] as int, s[2] as int));
        assert(runs_before(entries, s[0] as int, s[2] as int));
        assert(false);
    }
    assert(s.len() == 2 && ka == 0 && kb == 1);
    let p1 = run_params(params, entries, s, delta, 1);
    assert(run_params(params, entries, s, delta, 0) == params);
    assert(p1 == entries[a].0.effect(params, delta));
    lemma_effect_len(entries[a].0, params, delta);
    assert(p1[i] == xa);
    assert(run_params(params, entries, s, delta, 2) == entries[b].0.effect(p1, delta));
    assert(entries[b].0.effect(p1, delta)[j] == xb);
    if i != j {
        assert(entries[b].0.effect(p1, delta)[i] == p1[i]);
    }
}

/// Enabled controllers that run in a given order, keyed by kind.
pub struct ControllerMap {
    entries: Vec<(Controller, bool)>,
}

impl ControllerMap {
    /// The controllers with their enabled bits, in registration order.
    pub closed spec fn entries_view(&self) -> Seq<(Controller, bool)> {
        self.entries@
    }

    /// The position of the controller of kind `k`, if one is registered.
    pub open spec fn position(&self, k: ControllerKind) -> Option<int> {
        if exists|i: int| 0 <= i < self.entries_view().len() && self.entries_view()[i].0.kind_spec() == k {
            Some(choose|i: int| 0 <= i < self.entries_view().len() && self.entries_view()[i].0.kind_spec() == k)
        } else {
            None
        }
    }

    /// The map's invariant: one controller per kind, each valid.
    pub open spec fn wf(&self) -> bool {
        let e = self.entries_view();
        &&& forall|i: int, j: int|
            0 <= i < e.len() && 0 <= j < e.len() && i != j ==> e[i].0.kind_spec() != e[j].0.kind_spec()
        &&& forall|i: int| 0 <= i < e.len() ==> (#[trigger] e[i]).0.valid()
    }

    /// Every controller fits a model with `count` parameters.
    pub open spec fn fits(&self, count: nat) -> bool {
        forall|i: int| 0 <= i < self.entries_view().len() ==> (#[trigger] self.entries_view()[i]).0.fits(count)
    }

    /// An empty map.
    pub fn new() -> (r: ControllerMap)
        ensures
            r.wf(),
            r.entries_view().len() == 0,
    {
        ControllerMap { entries: Vec::new() }
    }

    pub proof fn lemma_position(&self, k: ControllerKind, i: int)
        requires
            self.wf(),
            0 <= i < self.entries_view().len(),
            self.entries_view()[i].0.kind_spec() == k,
        ensures
            self.position(k) == Some(i),
    {
        let c = choose|j: int| 0 <= j < self.entries_view().len() && self.entries_view()[j].0.kind_spec() == k;
        if c != i {
            assert(self.entries_view()[c].0.kind_spec() != self.entries_view()[i].0.kind_spec());
        }
    }

    fn find(&self, k: ControllerKind) -> (r: Option<usize>)
        requires
            self.wf(),
        ensures
            match r {
                Some(i) => self.position(k) == Some(i as int),
                None => self.position(k) is None,
            },
    {
        let mut i: usize = 0;
        while i < self.entries.len()
            invariant
                i <= self.entries@.len(),
                self.wf(),
                forall|j: int| 0 <= j < i ==> self.entries_view()[j].0.kind_spec() != k,
            decreases self.entries@.len() - i,
        {
            if self.entries[i].0.kind() == k {
                proof {
                    self.lemma_position(k, i as int);
                }
                return Some(i);
            }
            i = i + 1;
        }
        None
    }

    /// Registers `controller`, enabled. A controller of the same kind is
    /// replaced in its place and returned; otherwise the new one goes last.
    pub fn register(&mut self, controller: Controller) -> (r: Option<Controller>)
        requires
            old(self).wf(),
            controller.valid(),
        ensures
            final(self).wf(),
            match old(self).position(controller.kind_spec()) {
                Some(i) => r == Some(old(self).entries_view()[i].0) && final(self).entries_view()
                    == old(self).entries_view().update(i, (controller, true)),
                None => r is None && final(self).entries_view() == old(self).entries_view().push(
                    (controller, true),
                ),
            },
    {
        let k = controller.kind();
        match self.find(k) {
            Some(i) => {
                let (old_c, _) = self.entries.remove(i);
                self.entries.insert(i, (controller, true));
                proof {
                    assert(self.entries_view() =~= old(self).entries_view().update(i as int, (controller, true)));
                }
                Some(old_c)
            },
            None => {
                self.entries.push((controller, true));
                proof {
                    let e = self.entries_view();
                    assert forall|i: int, j: int|
                        0 <= i < e.len() && 0 <= j < e.len() && i != j implies e[i].0.kind_spec() != e[j].0.kind_spec() by {
                        if i == e.len() - 1 && j < e.len() - 1 {
                            assert(old(self).entries_view()[j].0.kind_spec() != k);
                        }
                        if j == e.len() - 1 && i < e.len() - 1 {
                            assert(old(self).entries_view()[i].0.kind_spec() != k);
                        }
                    }
                }
                None
            },
        }
    }

    /// Removes and returns the controller of kind `k`, if one is registered.
    pub fn remove(&mut self, k: ControllerKind) -> (r: Option<Controller>)
        requires
            old(self).wf(),
        ensures
            final(self).wf(),
            match old(self).position(k) {
                Some(i) => r == Some(old(self).entries_view()[i].0) && final(self).entries_view()
                    == old(self).entries_view().remove(i),
                None => r is None && final(self).entries_view() == old(self).entries_view(),
            },
    {
        match self.find(k) {
            Some(i) => {
                let (c, _) = self.entries.remove(i);
                proof {
                    let e = self.entries_view();
                    let o = old(self).entries_view();
                    assert forall|a: int, b: int|
                        0 <= a < e.len() && 0 <= b < e.len() && a != b implies e[a].0.kind_spec() != e[b].0.kind_spec() by {
                        let a2 = if a < i { a } else { a + 1 };
                        let b2 = if b < i { b } else { b + 1 };
                        assert(e[a] == o[a2] && e[b] == o[b2]);
                    }
                    assert forall|a: int| 0 <= a < e.len() implies (#[trigger] e[a]).0.valid() by {
                        let a2 = if a < i { a } else { a + 1 };
                        assert(e[a] == o[a2]);
                    }
                }
                Some(c)
            },
            None => None,
        }
    }

    /// The controller of kind `k`, if one is registered.
    pub fn get(&self, k: ControllerKind) -> (r: Option<&Controller>)
        requires
            self.wf(),
        ensures
            match self.position(k) {
                Some(i) => r == Some(&self.entries_view()[i].0),
                None => r is None,
            },
    {
        match self.find(k) {
            Some(i) => Some(&self.entries[i].0),
            None => None,
        }
    }

    /// Enables or disables the controller of kind `k`; does nothing if none
    /// is registered.
    pub fn set_enabled(&mut self, k: ControllerKind, enabled: bool)
        requires
            old(self).wf(),
        ensures
            final(self).wf(),
            match old(self).position(k) {
                Some(i) => final(self).entries_view() == old(self).entries_view().update(
                    i,
                    (old(self).entries_view()[i].0, enabled),
                ),
                None => final(self).entries_view() == old(self).entries_view(),
            },
    {
        match self.find(k) {
            Some(i) => {
                let (c, _) = self.entries.remove(i);
                self.entries.insert(i, (c, enabled));
                proof {
                    assert(self.entries_view() =~= old(self).entries_view().update(
                        i as int,
                        (old(self).entries_view()[i as int].0, enabled),
                    ));
                }
            },
            None => {},
        }
    }

    /// Whether the controller of kind `k` is registered and enabled.
    pub fn is_enabled(&self, k: ControllerKind) -> (r: bool)
        requires
            self.wf(),
        ensures
            r == match self.position(k) {
                Some(i) => self.entries_view()[i].1,
                None => false,
            },
    {
        match self.find(k) {
            Some(i) => self.entries[i].1,
            None => false,
        }
    }

    /// Whether a controller of kind `k` is registered.
    pub fn is_registered(&self, k: ControllerKind) -> (r: bool)
        requires
            self.wf(),
        ensures
            r == self.position(k) is Some,
    {
        self.find(k).is_some()
    }

    /// Whether `after` is `before` with the expression controller at `i`
    /// replaced by one that relates to it as `step` says.
    pub open spec fn expression_changed(
        before: Seq<(Controller, bool)>,
        after: Seq<(Controller, bool)>,
        i: int,
        step: spec_fn(ExpressionController, ExpressionController) -> bool,
    ) -> bool {
        &&& after.len() == before.len()
        &&& forall|q: int| 0 <= q < before.len() && q != i ==> after[q] == before[q]
        &&& after[i].1 == before[i].1
        &&& before[i].0 is Expression
        &&& after[i].0 is Expression
        &&& step(before[i].0->Expression_0, after[i].0->Expression_0)
    }

    /// Makes `name` the current expression of the expression controller;
    /// returns whether one is registered.
    pub fn set_expression(&mut self, name: &str) -> (r: bool)
        requires
            old(self).wf(),
        ensures
            final(self).wf(),
            match old(self).position(ControllerKind::Expression) {
                Some(i) => r && Self::expression_changed(
                    old(self).entries_view(),
                    final(self).entries_view(),
                    i,
                    |a: ExpressionController, b: ExpressionController| b.selected_from(a, name@),
                ),
                None => !r && final(self).entries_view() == old(self).entries_view(),
            },
    {
        match self.find(ControllerKind::Expression) {
            Some(i) => {
                let (c, en) = self.entries.remove(i);
                let c2 = match c {
                    Controller::Expression(mut ec) => {
                        ec.set_expression(name);
                        Controller::Expression(ec)
                    },
                    other => other,
                };
                self.entries.insert(i, (c2, en));
                proof {
                    let v = self.entries_view();
                    let o = old(self).entries_view();
                    assert(o[i as int].0.kind_spec() == ControllerKind::Expression);
                    assert forall|a: int, b: int|
                        0 <= a < v.len() && 0 <= b < v.len() && a != b implies v[a].0.kind_spec() != v[b].0.kind_spec() by {
                        assert(o[a].0.kind_spec() != o[b].0.kind_spec());
                    }
                }
                true
            },
            None => false,
        }
    }

    /// Sets the weight of the expression controller, clamped to
    /// `[0, UNIT]`; returns whether one is registered.
    pub fn set_expression_weight(&mut self, weight: i64) -> (r: bool)
        requires
            old(self).wf(),
        ensures
            final(self).wf(),
            match old(self).position(ControllerKind::Expression) {
                Some(i) => r && Self::expression_changed(
                    old(self).entries_view(),
                    final(self).entries_view(),
                    i,
                    |a: ExpressionController, b: ExpressionController| b.weighted_from(a, weight),
                ),
                None => !r && final(self).entries_view() == old(self).entries_view(),
            },
    {
        match self.find(ControllerKind::Expression) {
            Some(i) => {
                let (c, en) = self.entries.remove(i);
                let c2 = match c {
                    Controller::Expression(mut ec) => {
                        ec.set_expression_weight(weight);
                        Controller::Expression(ec)
                    },
                    other => other,
                };
                self.entries.insert(i, (c2, en));
                proof {
                    let v = self.entries_view();
                    let o = old(self).entries_view();
                    assert(o[i as int].0.kind_spec() == ControllerKind::Expression);
                    assert forall|a: int, b: int|
                        0 <= a < v.len() && 0 <= b < v.len() && a != b implies v[a].0.kind_spec() != v[b].0.kind_spec() by {
                        assert(o[a].0.kind_spec() != o[b].0.kind_spec());
                    }
                }
                true
            },
            None => false,
        }
    }

    /// The kinds of the registered controllers, in registration order.
    pub fn controllers(&self) -> (r: Vec<ControllerKind>)
        ensures
            r@.len() == self.entries_view().len(),
            forall|i: int| 0 <= i < r@.len() ==> r@[i] == (#[trigger] self.entries_view()[i]).0.kind_spec(),
    {
        let mut r: Vec<ControllerKind> = Vec::new();
        let mut i: usize = 0;
        while i < self.entries.len()
            invariant
                i <= self.entries@.len(),
                r@.len() == i,
                forall|j: int| 0 <= j < i ==> r@[j] == (#[trigger] self.entries_view()[j]).0.kind_spec(),
            decreases self.entries@.len() - i,
        {
            r.push(self.entries[i].0.kind());
            i = i + 1;
        }
        r
    }

    /// The kinds of the enabled controllers, in registration order.
    pub fn enabled_controllers(&self) -> (r: Vec<ControllerKind>)
        ensures
            forall|k: ControllerKind| r@.contains(k) <==> exists|i: int|
                0 <= i < self.entries_view().len() && self.entries_view()[i].1
                    && self.entries_view()[i].0.kind_spec() == k,
    {
        let mut r: Vec<ControllerKind> = Vec::new();
        let mut i: usize = 0;
        while i < self.entries.len()
            invariant
                i <= self.entries@.len(),
                forall|k: ControllerKind| r@.contains(k) <==> exists|j: int|
                    0 <= j < i && self.entries_view()[j].1 && self.entries_view()[j].0.kind_spec() == k,
            decreases self.entries@.len() - i,
        {
            if self.entries[i].1 {
                let k = self.entries[i].0.kind();
                let ghost before = r@;
                r.push(k);
                proof {
                    assert forall|q: ControllerKind| r@.contains(q) <==> exists|j: int|
                        0 <= j < i + 1 && self.entries_view()[j].1 && self.entries_view()[j].0.kind_spec() == q by {
                        if q == k {
                            assert(r@[before.len() as int] == k);
                        }
                        if r@.contains(q) && q != k {
                            let w = choose|w: int| 0 <= w < r@.len() && r@[w] == q;
                            assert(before[w] == q);
                        }
                        if before.contains(q) {
                            let w = choose|w: int| 0 <= w < before.len() && before[w] == q;
                            assert(r@[w] == q);
                        }
                    }
                }
            }
            i = i + 1;
        }
        r
    }

    /// The positions of the enabled controllers in the order they run:
    /// ascending priority, registration order between equal priorities.
    pub fn schedule(&self) -> (r: Vec<usize>)
        ensures
            is_schedule(self.entries_view(), r@),
    {
        let ghost e = self.entries_view();
        let mut s: Vec<usize> = Vec::new();
        let mut p: usize = 0;
        while p < self.entries.len()
            invariant
                p <= e.len(),
                e == self.entries_view(),
                forall|k: int| #![trigger s@[k]] 0 <= k < s@.len() ==> (s@[k] as int) < p && e[s@[k] as int].1,
                forall|q: int| 0 <= q < p && (#[trigger] e[q]).1 ==> exists|k: int| 0 <= k < s@.len() && s@[k] as int == q,
                forall|k1: int, k2: int| 0 <= k1 < k2 < s@.len() ==> runs_before(e, s@[k1] as int, s@[k2] as int),
            decreases e.len() - p,
        {
            if self.entries[p].1 {
                let prio = self.entries[p].0.priority();
                let mut j: usize = 0;
                while j < s.len() && self.entries[s[j]].0.priority() <= prio
                    invariant
                        j <= s@.len(),
                        e == self.entries_view(),
                        p < e.len(),
                        prio == e[p as int].0.priority_spec(),
                        forall|k: int| #![trigger s@[k]] 0 <= k < s@.len() ==> (s@[k] as int) < p && e[s@[k] as int].1,
                        forall|k: int| 0 <= k < j ==> e[s@[k] as int].0.priority_spec() <= prio,
                    decreases s@.len() - j,
                {
                    j = j + 1;
                }
                let ghost old_s = s@;
                s.insert(j, p);
                proof {
                    assert(s@ == old_s.insert(j as int, p));
                    assert forall|k1: int, k2: int| 0 <= k1 < k2 < s@.len() implies runs_before(e, s@[k1] as int, s@[k2] as int) by {
                        if k1 < j as int && k2 == j as int {
                        } else if k1 == j as int && k2 > j as int {
                            // everything after the gap has a higher priority
                            assert(runs_before(e, old_s[j as int] as int, old_s[k2 - 1] as int) || k2 - 1 == j as int);
                        } else if k1 < j as int && k2 > j as int {
                            assert(runs_before(e, old_s[k1] as int, old_s[k2 - 1] as int));
                        } else if k1 > j as int {
                            assert(runs_before(e, old_s[k1 - 1] as int, old_s[k2 - 1] as int));
                        } else {
                            assert(runs_before(e, old_s[k1] as int, old_s[k2] as int));
                        }
                    }
                    assert forall|q: int| 0 <= q < p + 1 && (#[trigger] e[q]).1 implies exists|k: int| 0 <= k < s@.len() && s@[k] as int == q by {
                        if q == p as int {
                            assert(s@[j as int] as int == q);
                        } else {
                            let k = choose|k: int| 0 <= k < old_s.len() && old_s[k] as int == q;
                            if k < j as int {
                                assert(s@[k] as int == q);
                            } else {
                                assert(s@[k + 1] as int == q);
                            }
                        }
                    }
                }
            }
            p = p + 1;
        }
        s
    }

    /// Runs every enabled controller once on `model`, in the order of
    /// `schedule`: a later controller sees, and may overwrite, what an
    /// earlier one wrote.
    pub fn update_enabled_controllers(&mut self, model: &mut Model, delta: i64)
        requires
            old(self).wf(),
            old(model).wf(),
            old(self).fits(old(model).parameter_count_spec()),
        ensures
            final(self).wf(),
            final(self).fits(old(model).parameter_count_spec()),
            final(model).wf(),
            final(model).same_but_params(*old(model)),
            exists|s: Seq<usize>|
                is_schedule(old(self).entries_view(), s) && final(model).params() == run_params(
                    old(model).params(),
                    old(self).entries_view(),
                    s,
                    delta as int,
                    s.len(),
                ) && final(self).entries_view() == Seq::new(
                    old(self).entries_view().len(),
                    |p: int|
                        if scheduled(s, s.len() as int, p) {
                            (old(self).entries_view()[p].0.after(delta as int), old(self).entries_view()[p].1)
                        } else {
                            old(self).entries_view()[p]
                        },
                ),
    {
        let s = self.schedule();
        let ghost e = old(self).entries_view();
        let ghost count = old(model).parameter_count_spec();
        let mut k: usize = 0;
        while k < s.len()
            invariant
                k <= s@.len(),
                is_schedule(e, s@),
                e == old(self).entries_view(),
                count == old(model).parameter_count_spec(),
                self.entries_view().len() == e.len(),
                self.wf(),
                self.fits(count),
                model.wf(),
                model.same_but_params(*old(model)),
                model.params() == run_params(old(model).params(), e, s@, delta as int, k as nat),
                forall|p: int| 0 <= p < e.len() ==> #[trigger] self.entries_view()[p] == if scheduled(s@, k as int, p) {
                    (e[p].0.after(delta as int), e[p].1)
                } else {
                    e[p]
                },
            decreases s@.len() - k,
        {
            let p = s[k];
            proof {
                // a position runs once: it is not among the earlier ones
                if scheduled(s@, k as int, p as int) {
                    let k0 = choose|k0: int| 0 <= k0 < k && s@[k0] as int == p as int;
                    assert(runs_before(e, s@[k0] as int, s@[k as int] as int));
                }
                assert(self.entries_view()[p as int] == e[p as int]);
            }
            let (mut c, en) = self.entries.remove(p);
            c.update_parameters(model, delta);
            self.entries.insert(p, (c, en));
            proof {
                assert forall|q: int| 0 <= q < e.len() implies #[trigger] self.entries_view()[q] == if scheduled(s@, k + 1, q) {
                    (e[q].0.after(delta as int), e[q].1)
                } else {
                    e[q]
                } by {
                    if q == p as int {
                        assert(s@[k as int] as int == q);
                    } else {
                        if scheduled(s@, k + 1, q) {
                            let k0 = choose|k0: int| 0 <= k0 < k + 1 && s@[k0] as int == q;
                            assert(k0 < k);
                        }
                    }
                }
                let v = self.entries_view();
                assert forall|i: int, j: int|
                    0 <= i < v.len() && 0 <= j < v.len() && i != j implies v[i].0.kind_spec() != v[j].0.kind_spec() by {
                    assert(old(self).entries_view()[i].0.kind_spec() != old(self).entries_view()[j].0.kind_spec());
                }
            }
            k = k + 1;
        }
        proof {
            assert(self.entries_view() =~= Seq::new(
                e.len(),
                |p: int|
                    if scheduled(s@, s@.len() as int, p) {
                        (e[p].0.after(delta as int), e[p].1)
                    } else {
                        e[p]
                    },
            ));
        }
    }
}

} // verus!
