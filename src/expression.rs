//! Expressions: weighted blends of values into a model's parameters.

use vstd::prelude::*;
use crate::fixed::{clamp_spec, fx_add, fx_clamp, fx_lerp, fx_mul, lerp_spec, mul_spec, saturate, UNIT};
use crate::model::Model;
use crate::moc::{find_id, first_index_of, has_id, strings_view};
use crate::records::{Expression3, ExpressionBlendType, ExpressionParameter};

verus! {

/// The parameter value that blending `b` into `v` with weight `w` yields.
pub open spec fn blend_spec(blend_type: ExpressionBlendType, v: int, b: int, w: int) -> int {
    match blend_type {
        ExpressionBlendType::Add => saturate(v + mul_spec(b, w)),
        ExpressionBlendType::Multiply => mul_spec(v, lerp_spec(UNIT as int, b, w)),
        ExpressionBlendType::Overwrite => mul_spec(b, w),
    }
}

/// Blends `b` into `v` with weight `w`, a weight in `[0, UNIT]`.
pub fn blend(blend_type: ExpressionBlendType, v: i64, b: i64, w: i64) -> (r: i64)
    requires
        0 <= w <= UNIT,
    ensures
        r == blend_spec(blend_type, v as int, b as int, w as int),
{
    match blend_type {
        ExpressionBlendType::Add => fx_add(v, fx_mul(b, w)),
        ExpressionBlendType::Multiply => fx_mul(v, fx_lerp(UNIT, b, w)),
        ExpressionBlendType::Overwrite => fx_mul(b, w),
    }
}

/// The blend laws at the two ends of the weight range: at weight 0 adding
/// and multiplying leave the value alone and overwriting yields 0; at weight
/// `UNIT` adding yields `v + b`, multiplying yields `v * b` and overwriting
/// yields `b`.
pub proof fn lemma_blend_laws(v: i64, b: i64)
    ensures
        blend_spec(ExpressionBlendType::Add, v as int, b as int, 0) == v,
        blend_spec(ExpressionBlendType::Multiply, v as int, b as int, 0) == v,
        blend_spec(ExpressionBlendType::Overwrite, v as int, b as int, 0) == 0,
        blend_spec(ExpressionBlendType::Add, v as int, b as int, UNIT as int) == saturate(v + b),
        blend_spec(ExpressionBlendType::Multiply, v as int, b as int, UNIT as int) == mul_spec(
            v as int,
            b as int,
        ),
        blend_spec(ExpressionBlendType::Overwrite, v as int, b as int, UNIT as int) == b,
{
    lemma_scale_cancels(b as int);
    lemma_scale_cancels(v as int);
    lemma_scale_cancels(b - UNIT);
    assert((b as int) * 0 == 0);
    assert((v as int) * (UNIT as int) == (UNIT as int) * (v as int));
    assert(((b - UNIT) * 0) == 0);
}

/// Multiplying by `UNIT` and dividing by it gives the number back.
proof fn lemma_scale_cancels(x: int)
    ensures
        (x * (UNIT as int)) / (UNIT as int) == x,
        ((UNIT as int) * x) / (UNIT as int) == x,
{
    assert((x * 1000000) / 1000000 == x) by (nonlinear_arith);
    assert((1000000 * x) / 1000000 == x) by (nonlinear_arith);
}

/// The first index of `name` among `ids`; meaningful where `name` occurs.
pub open spec fn index_of(ids: Seq<Seq<char>>, name: Seq<char>) -> int {
    choose|i: int| first_index_of(ids, name, i)
}

/// The first index that holds a name is the one `index_of` picks.
pub proof fn lemma_first_index(ids: Seq<Seq<char>>, name: Seq<char>, i: int)
    requires
        first_index_of(ids, name, i),
    ensures
        index_of(ids, name) == i,
{
    let j = index_of(ids, name);
    assert(first_index_of(ids, name, j));
    if j < i {
        assert(ids[j] != name);
    } else if i < j {
        assert(ids[i] != name);
    }
}

/// The entries that the records `ps` resolve to against the parameter ids
/// `ids`: one per record whose id occurs, in record order.
pub open spec fn resolve(ids: Seq<Seq<char>>, ps: Seq<ExpressionParameter>) -> Seq<
    (usize, ExpressionBlendType, i64),
>
    decreases ps.len(),
{
    if ps.len() == 0 {
        Seq::empty()
    } else {
        let rest = resolve(ids, ps.drop_last());
        let p = ps.last();
        if has_id(ids, p.id@) {
            rest.push((index_of(ids, p.id@) as usize, p.blend_type, p.value))
        } else {
            rest
        }
    }
}

/// The parameter values after applying the first `n` entries of `es` with
/// weight `w`, one after another.
pub open spec fn apply_entries(
    values: Seq<i64>,
    es: Seq<(usize, ExpressionBlendType, i64)>,
    w: int,
    n: nat,
) -> Seq<i64>
    decreases n,
{
    if n == 0 {
        values
    } else {
        let prev = apply_entries(values, es, w, (n - 1) as nat);
        let (i, t, b) = es[n - 1];
        prev.update(i as int, blend_spec(t, prev[i as int] as int, b as int, w) as i64)
    }
}

/// A model expression: parameter indices with a blend type and a value.
pub struct Expression {
    fade_in: i64,
    fade_out: i64,
    parameters: Vec<(usize, ExpressionBlendType, i64)>,
}

impl Expression {
    /// The resolved entries.
    pub closed spec fn entries(&self) -> Seq<(usize, ExpressionBlendType, i64)> {
        self.parameters@
    }

    /// The fade-in and fade-out times, in microseconds.
    pub closed spec fn fade_times(&self) -> (i64, i64) {
        (self.fade_in, self.fade_out)
    }

    /// Every entry names a parameter of a model with `count` parameters.
    pub open spec fn fits(&self, count: nat) -> bool {
        forall|k: int| 0 <= k < self.entries().len() ==> (#[trigger] self.entries()[k]).0 < count
    }

    /// The entries of the expression, in order.
    pub fn parameters(&self) -> (r: &[(usize, ExpressionBlendType, i64)])
        ensures
            r@ == self.entries(),
    {
        self.parameters.as_slice()
    }

    /// Resolves the records of an expression descriptor against the
    /// parameter ids of `model`; a record whose id the model does not have is
    /// dropped.
    pub fn from_exp3(model: &Model, exp3: Expression3) -> (r: Expression)
        requires
            model.wf(),
        ensures
            r.entries() == resolve(model.moc_spec().parameter_ids_view(), exp3.parameters@),
            r.fits(model.parameter_count_spec()),
            r.fade_times() == (exp3.fade_in_time, exp3.fade_out_time),
    {
        let ids = model.moc().parameter_ids();
        let ghost idv = model.moc_spec().parameter_ids_view();
        let records = &exp3.parameters;
        let mut parameters: Vec<(usize, ExpressionBlendType, i64)> = Vec::new();
        let mut k: usize = 0;
        while k < records.len()
            invariant
                k <= records@.len(),
                strings_view(ids@) == idv,
                idv.len() == model.parameter_count_spec(),
                parameters@ == resolve(idv, records@.subrange(0, k as int)),
                forall|j: int| 0 <= j < parameters@.len() ==> (#[trigger] parameters@[j]).0 < idv.len(),
            decreases records@.len() - k,
        {
            let p = &records[k];
            let found = find_id(ids, p.id.as_str());
            proof {
                assert(records@.subrange(0, k + 1).drop_last() =~= records@.subrange(0, k as int));
                assert(records@.subrange(0, k + 1).last() == records@[k as int]);
            }
            match found {
                Some(idx) => {
                    proof {
                        lemma_first_index(idv, p.id@, idx as int);
                    }
                    parameters.push((idx, p.blend_type, p.value));
                },
                None => {},
            }
            k = k + 1;
        }
        assert(records@.subrange(0, records@.len() as int) =~= records@);
        Expression { fade_in: exp3.fade_in_time, fade_out: exp3.fade_out_time, parameters }
    }

    /// Blends the expression into the model's parameter values, entry after
    /// entry, with `weight` clamped to `[0, UNIT]`.
    pub fn apply(&self, model: &mut Model, weight: i64)
        requires
            old(model).wf(),
            self.fits(old(model).parameter_count_spec()),
        ensures
            final(model).wf(),
            final(model).same_but_params(*old(model)),
            final(model).params() == apply_entries(
                old(model).params(),
                self.entries(),
                clamp_spec(weight as int, 0, UNIT as int),
                self.entries().len(),
            ),
    {
        let w = fx_clamp(weight, 0, UNIT);
        let mut k: usize = 0;
        while k < self.parameters.len()
            invariant
                k <= self.entries().len(),
                model.wf(),
                self.fits(model.parameter_count_spec()),
                model.same_but_params(*old(model)),
                w == clamp_spec(weight as int, 0, UNIT as int),
                0 <= w <= UNIT,
                model.params() == apply_entries(old(model).params(), self.entries(), w as int, k as nat),
            decreases self.entries().len() - k,
        {
            let (i, t, b) = self.parameters[k];
            assert(self.entries()[k as int].0 < model.parameter_count_spec());
            let v = model.parameter_values()[i];
            let nv = blend(t, v, b, w);
            model.set_parameter_value(i, nv);
            k = k + 1;
        }
    }
}

} // verus!
