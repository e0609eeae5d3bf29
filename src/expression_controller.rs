//! The expression controller: named expressions, one of which is applied
//! with a weight each tick.

use vstd::prelude::*;
use crate::expression::{apply_entries, Expression};
use crate::fixed::{clamp_spec, fx_clamp, UNIT};
use crate::model::Model;
use crate::slab::SimpleSlab;

verus! {

/// The default priority of the expression controller.
pub const EXPRESSION_PRIORITY: usize = 200;

/// The position in `names` of the entry named `n`, if any.
pub open spec fn entry_of(names: Seq<(Seq<char>, usize)>, n: Seq<char>) -> Option<int> {
    if exists|i: int| 0 <= i < names.len() && names[i].0 == n {
        Some(choose|i: int| 0 <= i < names.len() && names[i].0 == n)
    } else {
        None
    }
}

/// Registers expressions under names and applies the current one.
pub struct ExpressionController {
    expressions: SimpleSlab<Expression>,
    name_map: Vec<(String, usize)>,
    current_expr: Option<usize>,
    weight: i64,
    priority: usize,
}

impl ExpressionController {
    /// The registered names with the slot of their expression.
    pub closed spec fn names_view(&self) -> Seq<(Seq<char>, usize)> {
        self.name_map@.map_values(|p: (String, usize)| (p.0@, p.1))
    }

    /// The slots of the expression store.
    pub closed spec fn slots(&self) -> Seq<Option<Expression>> {
        self.expressions@
    }

    /// The slot of the current expression, if one is set.
    pub closed spec fn current(&self) -> Option<usize> {
        self.current_expr
    }

    /// The weight the current expression is applied with.
    pub closed spec fn weight_spec(&self) -> i64 {
        self.weight
    }

    pub closed spec fn priority_spec(&self) -> usize {
        self.priority
    }

    /// The expression registered under `n`, if any.
    pub open spec fn lookup(&self, n: Seq<char>) -> Option<Expression> {
        match entry_of(self.names_view(), n) {
            Some(i) => self.slots()[self.names_view()[i].1 as int],
            None => None,
        }
    }

    /// The controller's invariant: names are unique, each names its own
    /// occupied slot, and the weight lies in `[0, UNIT]`.
    pub closed spec fn wf(&self) -> bool {
        let names = self.names_view();
        &&& self.expressions.wf()
        &&& forall|i: int, j: int|
            0 <= i < names.len() && 0 <= j < names.len() && i != j ==> names[i].0 != names[j].0
                && names[i].1 != names[j].1
        &&& forall|i: int|
            0 <= i < names.len() ==> (names[i].1 as int) < self.slots().len()
                && self.slots()[names[i].1 as int] is Some
        &&& 0 <= self.weight <= UNIT
    }

    /// Every stored expression names parameters of a model with `count`
    /// parameters.
    pub open spec fn fits(&self, count: nat) -> bool {
        forall|i: int|
            0 <= i < self.slots().len() && (#[trigger] self.slots()[i]) is Some ==> self.slots()[i].unwrap().fits(count)
    }

    /// An empty controller with full weight.
    pub fn new() -> (r: ExpressionController)
        ensures
            r.wf(),
            r.names_view().len() == 0,
            r.slots().len() == 0,
            r.current() is None,
            r.weight_spec() == UNIT,
            r.priority_spec() == EXPRESSION_PRIORITY,
    {
        let r = ExpressionController {
            expressions: SimpleSlab::new(),
            name_map: Vec::new(),
            current_expr: None,
            weight: UNIT,
            priority: EXPRESSION_PRIORITY,
        };
        assert(r.names_view() =~= Seq::empty());
        r
    }

    fn find_name(&self, name: &String) -> (r: Option<usize>)
        ensures
            match r {
                Some(k) => k < self.names_view().len() && self.names_view()[k as int].0 == name@,
                None => entry_of(self.names_view(), name@) is None,
            },
    {
        let mut k: usize = 0;
        while k < self.name_map.len()
            invariant
                k <= self.name_map@.len(),
                forall|j: int| 0 <= j < k ==> self.names_view()[j].0 != name@,
            decreases self.name_map@.len() - k,
        {
            if self.name_map[k].0 == *name {
                return Some(k);
            }
            k = k + 1;
        }
        None
    }

    proof fn lemma_entry(&self, n: Seq<char>, k: int)
        requires
            self.wf(),
            0 <= k < self.names_view().len(),
            self.names_view()[k].0 == n,
        ensures
            entry_of(self.names_view(), n) == Some(k),
    {
        let names = self.names_view();
        let c = choose|i: int| 0 <= i < names.len() && names[i].0 == n;
        if c != k {
            assert(names[c].0 != names[k].0);
        }
    }

    /// Stores `exp` under `name` and returns the expression that was
    /// registered under that name before, if any.
    pub fn register(&mut self, name: String, exp: Expression) -> (r: Option<Expression>)
        requires
            old(self).wf(),
            old(self).slots().len() < usize::MAX,
        ensures
            final(self).wf(),
            r == old(self).lookup(name@),
            final(self).slots().len() <= old(self).slots().len() + 1,
            final(self).lookup(name@) == Some(exp),
            forall|n: Seq<char>| n != name@ ==> #[trigger] final(self).lookup(n) == old(self).lookup(n),
            final(self).current() == old(self).current(),
            final(self).weight_spec() == old(self).weight_spec(),
            final(self).priority_spec() == old(self).priority_spec(),
            forall|i: int|
                0 <= i < final(self).slots().len() && (#[trigger] final(self).slots()[i]) is Some
                    ==> (i < old(self).slots().len() && final(self).slots()[i] == old(self).slots()[i]) || final(self).slots()[i] == Some(exp),
    {
        let ghost old_names = self.names_view();
        let ghost old_slots = self.slots();
        let found = self.find_name(&name);
        let idx = self.expressions.push(exp);
        proof {
            // the new slot was empty, so no name pointed at it
            assert forall|i: int| 0 <= i < old_names.len() implies old_names[i].1 != idx by {
                if (old_names[i].1 as int) == idx as int {
                    assert(old_slots[idx as int] is Some);
                }
            }
        }
        match found {
            Some(k) => {
                let old_idx = self.name_map[k].1;
                let entry = (name, idx);
                self.name_map.set(k, entry);
                proof {
                    assert(self.names_view() =~= old_names.update(k as int, (name@, idx)));
                }
                let r = self.expressions.take(old_idx);
                proof {
                    self.lemma_entry(name@, k as int);
                    assert forall|n: Seq<char>| n != name@ implies #[trigger] self.lookup(n) == old(self).lookup(n) by {
                        match entry_of(old_names, n) {
                            Some(j) => {
                                self.lemma_entry(n, j);
                            },
                            None => {
                                if let Some(j) = entry_of(self.names_view(), n) {
                                    assert(old_names[j].0 == n);
                                }
                            },
                        }
                    }
                }
                r
            },
            None => {
                self.name_map.push((name, idx));
                proof {
                    assert(self.names_view() =~= old_names.push((name@, idx)));
                    self.lemma_entry(name@, old_names.len() as int);
                    assert forall|n: Seq<char>| n != name@ implies #[trigger] self.lookup(n) == old(self).lookup(n) by {
                        match entry_of(old_names, n) {
                            Some(j) => {
                                self.lemma_entry(n, j);
                            },
                            None => {
                                if let Some(j) = entry_of(self.names_view(), n) {
                                    assert(old_names[j].0 == n);
                                }
                            },
                        }
                    }
                }
                None
            },
        }
    }

    /// Whether `self` is `before` after `set_expression(name)`.
    pub open spec fn selected_from(&self, before: ExpressionController, name: Seq<char>) -> bool {
        &&& self.wf()
        &&& self.current() == match entry_of(before.names_view(), name) {
            Some(i) => Some(before.names_view()[i].1),
            None => None::<usize>,
        }
        &&& before.lookup(name) is Some ==> ({
            let c = self.current();
            &&& c is Some
            &&& (c.unwrap() as int) < self.slots().len()
            &&& self.slots()[c.unwrap() as int] == before.lookup(name)
        })
        &&& before.lookup(name) is None ==> self.current() is None
        &&& self.names_view() == before.names_view()
        &&& self.slots() == before.slots()
        &&& self.weight_spec() == before.weight_spec()
        &&& self.priority_spec() == before.priority_spec()
    }

    /// Whether `self` is `before` after `set_expression_weight(weight)`.
    pub open spec fn weighted_from(&self, before: ExpressionController, weight: i64) -> bool {
        &&& self.wf()
        &&& self.weight_spec() == clamp_spec(weight as int, 0, UNIT as int)
        &&& self.names_view() == before.names_view()
        &&& self.slots() == before.slots()
        &&& self.current() == before.current()
        &&& self.priority_spec() == before.priority_spec()
    }

    /// Makes the expression registered under `name` the current one; with
    /// no such expression, no expression is applied.
    pub fn set_expression(&mut self, name: &str)
        requires
            old(self).wf(),
        ensures
            final(self).wf(),
            final(self).current() == match entry_of(old(self).names_view(), name@) {
                Some(i) => Some(old(self).names_view()[i].1),
                None => None::<usize>,
            },
            old(self).lookup(name@) is Some ==> ({
                let c = final(self).current();
                &&& c is Some
                &&& (c.unwrap() as int) < final(self).slots().len()
                &&& final(self).slots()[c.unwrap() as int] == old(self).lookup(name@)
            }),
            old(self).lookup(name@) is None ==> final(self).current() is None,
            final(self).names_view() == old(self).names_view(),
            final(self).slots() == old(self).slots(),
            final(self).weight_spec() == old(self).weight_spec(),
            final(self).priority_spec() == old(self).priority_spec(),
    {
        let key = name.to_owned();
        match self.find_name(&key) {
            Some(k) => {
                proof {
                    self.lemma_entry(name@, k as int);
                }
                self.current_expr = Some(self.name_map[k].1);
            },
            None => {
                self.current_expr = None;
            },
        }
    }

    /// Sets the weight, clamped to `[0, UNIT]`.
    pub fn set_expression_weight(&mut self, weight: i64)
        requires
            old(self).wf(),
        ensures
            final(self).wf(),
            final(self).weight_spec() == clamp_spec(weight as int, 0, UNIT as int),
            final(self).names_view() == old(self).names_view(),
            final(self).slots() == old(self).slots(),
            final(self).current() == old(self).current(),
            final(self).priority_spec() == old(self).priority_spec(),
    {
        self.weight = fx_clamp(weight, 0, UNIT);
    }

    /// The weight.
    pub fn weight(&self) -> (r: i64)
        ensures
            r == self.weight_spec(),
    {
        self.weight
    }

    /// The registered names, in registration order.
    pub fn names(&self) -> (r: Vec<String>)
        ensures
            r@.len() == self.names_view().len(),
            forall|i: int| 0 <= i < r@.len() ==> r@[i]@ == #[trigger] self.names_view()[i].0,
    {
        let mut r: Vec<String> = Vec::new();
        let mut k: usize = 0;
        while k < self.name_map.len()
            invariant
                k <= self.name_map@.len(),
                r@.len() == k,
                forall|i: int| 0 <= i < k ==> r@[i]@ == #[trigger] self.names_view()[i].0,
            decreases self.name_map@.len() - k,
        {
            r.push(self.name_map[k].0.clone());
            k = k + 1;
        }
        r
    }

    /// The expression slots; a removed expression leaves an empty slot.
    pub fn expressions(&self) -> (r: &[Option<Expression>])
        ensures
            r@ == self.slots(),
    {
        self.expressions.iter()
    }

    /// The execution priority; lower runs first.
    pub fn priority(&self) -> (r: usize)
        ensures
            r == self.priority_spec(),
    {
        self.priority
    }

    /// Sets the execution priority.
    pub fn set_priority(&mut self, priority: usize)
        requires
            old(self).wf(),
        ensures
            final(self).wf(),
            final(self).priority_spec() == priority,
            final(self).names_view() == old(self).names_view(),
            final(self).slots() == old(self).slots(),
            final(self).current() == old(self).current(),
            final(self).weight_spec() == old(self).weight_spec(),
    {
        self.priority = priority;
    }

    /// Applies the current expression, if it is still stored, with the
    /// controller's weight.
    pub fn update_parameters(&self, model: &mut Model, delta: i64)
        requires
            self.wf(),
            old(model).wf(),
            self.fits(old(model).parameter_count_spec()),
        ensures
            final(model).wf(),
            final(model).same_but_params(*old(model)),
            final(model).params() == match self.current() {
                Some(i) => if i < self.slots().len() && self.slots()[i as int] is Some {
                    let e = self.slots()[i as int].unwrap();
                    apply_entries(
                        old(model).params(),
                        e.entries(),
                        self.weight_spec() as int,
                        e.entries().len(),
                    )
                } else {
                    old(model).params()
                },
                None => old(model).params(),
            },
    {
        match self.current_expr {
            Some(i) => match self.expressions.get(i) {
                Some(e) => {
                    e.apply(model, self.weight);
                },
                None => {},
            },
            None => {},
        }
    }
}

} // verus!
