//! The eye blink controller: a four-state cycle that drives parameters
//! between open (`UNIT`) and closed (0).

use vstd::prelude::*;
use crate::fixed::{fx_add, fx_ratio, fx_sub, ratio_spec, saturate, UNIT};
use crate::model::Model;

verus! {

/// The default priority of the eye blink controller.
pub const EYE_BLINK_PRIORITY: usize = 100;

/// The state of the eyes.
#[derive(Copy, Clone, Debug, PartialEq, Eq, Structural)]
pub enum EyeState {
    Open,
    Closed,
    Closing,
    Opening,
}

/// The four timings of a blink cycle, in microseconds.
#[derive(Copy, Clone, Debug, PartialEq, Eq, Structural)]
pub struct BlinkTimings {
    pub blink_interval: i64,
    pub closed_time: i64,
    pub opening_time: i64,
    pub closing_time: i64,
}

/// The fraction `n / d` of an eye opening, 0 where `d` is not positive.
pub open spec fn fraction_spec(n: int, d: int) -> int {
    if d > 0 {
        ratio_spec(n, d)
    } else {
        0
    }
}

/// One tick of the cycle: the countdown loses `delta`; the state moves on
/// when the countdown is no longer positive, and the countdown gains the
/// length of the next state. Yields the new state, the new countdown, and
/// the value written to the parameters.
pub open spec fn blink_step(state: EyeState, countdown: int, t: BlinkTimings, delta: int) -> (
    EyeState,
    int,
    int,
) {
    let next = saturate(countdown - delta);
    match state {
        EyeState::Open => if next <= 0 {
            (EyeState::Closing, saturate(next + t.closing_time), UNIT as int)
        } else {
            (EyeState::Open, next, UNIT as int)
        },
        EyeState::Closed => if next <= 0 {
            (EyeState::Opening, saturate(next + t.opening_time), 0)
        } else {
            (EyeState::Closed, next, 0)
        },
        EyeState::Opening => if next <= 0 {
            (EyeState::Open, saturate(next + t.blink_interval), UNIT as int)
        } else {
            (
                EyeState::Opening,
                next,
                fraction_spec(t.opening_time - next, t.opening_time as int),
            )
        },
        EyeState::Closing => if next <= 0 {
            (EyeState::Closed, saturate(next + t.closed_time), 0)
        } else {
            (EyeState::Closing, next, fraction_spec(next, t.closing_time as int))
        },
    }
}

/// Whether `j` is one of `ids`.
pub open spec fn in_ids(ids: Seq<usize>, j: int) -> bool {
    exists|w: int| 0 <= w < ids.len() && ids[w] as int == j
}

/// `old` with every index in `ids` set to `v`.
pub open spec fn write_all(old: Seq<i64>, ids: Seq<usize>, v: i64) -> Seq<i64> {
    Seq::new(old.len(), |j: int| if in_ids(ids, j) { v } else { old[j] })
}

/// While closing the countdown is at most the closing time, and while
/// opening at most the opening time.
pub open spec fn countdown_bounded(state: EyeState, countdown: int, t: BlinkTimings) -> bool {
    &&& state == EyeState::Closing ==> countdown <= t.closing_time
    &&& state == EyeState::Opening ==> countdown <= t.opening_time
}

proof fn lemma_fraction_bounds(n: int, d: int)
    requires
        d > 0,
        0 <= n <= d,
    ensures
        0 <= fraction_spec(n, d) <= UNIT,
{
    assert(0 <= (n * (UNIT as int)) / d <= UNIT) by (nonlinear_arith)
        requires
            d > 0,
            0 <= n <= d,
    ;
}

proof fn lemma_fraction_ordered(a: int, b: int, d: int)
    requires
        d > 0,
        a <= b,
    ensures
        fraction_spec(a, d) <= fraction_spec(b, d),
{
    assert(a * (UNIT as int) <= b * (UNIT as int)) by (nonlinear_arith)
        requires
            a <= b,
    ;
    vstd::arithmetic::div_mod::lemma_div_is_ordered(a * (UNIT as int), b * (UNIT as int), d);
}

/// With positive opening and closing times and a non-negative tick, a step
/// of the cycle keeps the countdown bound, and the value it writes lies in
/// `[0, UNIT]`.
pub proof fn lemma_blink_step_bounded(state: EyeState, countdown: int, t: BlinkTimings, delta: int)
    requires
        t.opening_time > 0,
        t.closing_time > 0,
        delta >= 0,
        i64::MIN <= countdown <= i64::MAX,
        delta <= i64::MAX,
        countdown_bounded(state, countdown, t),
    ensures
        ({
            let (s, c, v) = blink_step(state, countdown, t, delta);
            countdown_bounded(s, c, t) && 0 <= v <= UNIT
        }),
{
    let next = saturate(countdown - delta);
    assert(next <= countdown);
    match state {
        EyeState::Closing => {
            if next > 0 {
                lemma_fraction_bounds(next, t.closing_time as int);
            }
        },
        EyeState::Opening => {
            if next > 0 {
                lemma_fraction_bounds(t.opening_time - next, t.opening_time as int);
            }
        },
        _ => {},
    }
}

/// While the eyes keep closing, each step writes no more than the step
/// before it: a step that stays in `Closing` followed by any step with a
/// non-negative tick.
pub proof fn lemma_closing_decreases(c0: int, t: BlinkTimings, d1: int, d2: int)
    requires
        t.closing_time > 0,
        d1 >= 0,
        d2 >= 0,
        i64::MIN <= c0 <= i64::MAX,
        d1 <= i64::MAX,
        d2 <= i64::MAX,
        blink_step(EyeState::Closing, c0, t, d1).0 == EyeState::Closing,
    ensures
        ({
            let (_s1, c1, v1) = blink_step(EyeState::Closing, c0, t, d1);
            let (_s2, _c2, v2) = blink_step(EyeState::Closing, c1, t, d2);
            v2 <= v1
        }),
{
    let c1 = saturate(c0 - d1);
    let next = saturate(c1 - d2);
    assert(c1 > 0);
    assert(next <= c1);
    lemma_fraction_ordered(0, c1, t.closing_time as int);
    if next > 0 {
        lemma_fraction_ordered(next, c1, t.closing_time as int);
    }
    assert(fraction_spec(0, t.closing_time as int) == 0);
}

/// While the eyes keep opening, each step writes no less than the step
/// before it: a step that stays in `Opening` followed by any step with a
/// non-negative tick (the step that reopens the eyes writes `UNIT`).
pub proof fn lemma_opening_increases(c0: int, t: BlinkTimings, d1: int, d2: int)
    requires
        t.opening_time > 0,
        d1 >= 0,
        d2 >= 0,
        i64::MIN <= c0 <= i64::MAX,
        d1 <= i64::MAX,
        d2 <= i64::MAX,
        c0 <= t.opening_time,
        blink_step(EyeState::Opening, c0, t, d1).0 == EyeState::Opening,
    ensures
        ({
            let (_s1, c1, v1) = blink_step(EyeState::Opening, c0, t, d1);
            let (_s2, _c2, v2) = blink_step(EyeState::Opening, c1, t, d2);
            v1 <= v2
        }),
{
    let c1 = saturate(c0 - d1);
    let next = saturate(c1 - d2);
    assert(0 < c1 <= t.opening_time);
    assert(next <= c1);
    lemma_fraction_bounds(t.opening_time - c1, t.opening_time as int);
    if next > 0 {
        lemma_fraction_ordered(t.opening_time - c1, t.opening_time - next, t.opening_time as int);
    }
}

/// An eye blink controller over a set of parameter indices.
pub struct EyeBlink {
    parameter_ids: Vec<usize>,
    current_state: EyeState,
    next_cycle: i64,
    timings: BlinkTimings,
    priority: usize,
}

impl EyeBlink {
    pub closed spec fn ids(&self) -> Seq<usize> {
        self.parameter_ids@
    }

    pub closed spec fn state(&self) -> EyeState {
        self.current_state
    }

    /// The time left in the current state, in microseconds.
    pub closed spec fn countdown(&self) -> i64 {
        self.next_cycle
    }

    pub closed spec fn timings_spec(&self) -> BlinkTimings {
        self.timings
    }

    pub closed spec fn priority_spec(&self) -> usize {
        self.priority
    }

    /// The controller after a tick of `delta` microseconds.
    pub closed spec fn ticked(&self, delta: int) -> EyeBlink {
        let (s, c, _v) = blink_step(self.current_state, self.next_cycle as int, self.timings, delta);
        EyeBlink { current_state: s, next_cycle: c as i64, ..*self }
    }

    /// The value the controller writes on a tick of `delta` microseconds.
    pub open spec fn tick_value(&self, delta: int) -> i64 {
        blink_step(self.state(), self.countdown() as int, self.timings_spec(), delta).2 as i64
    }

    /// Every parameter index is below `count`.
    pub open spec fn fits(&self, count: nat) -> bool {
        forall|k: int| 0 <= k < self.ids().len() ==> (#[trigger] self.ids()[k]) < count
    }

    /// The timings of a default controller: a blink every five seconds.
    pub open spec fn default_timings() -> BlinkTimings {
        BlinkTimings {
            blink_interval: 5_000_000,
            closed_time: 50_000,
            opening_time: 150_000,
            closing_time: 100_000,
        }
    }

    /// A controller over no parameters that blinks every five seconds.
    pub fn default() -> (r: EyeBlink)
        ensures
            r.ids().len() == 0,
            r.state() == EyeState::Open,
            r.countdown() == 5_000_000,
            r.timings_spec() == (BlinkTimings {
                blink_interval: 5_000_000,
                closed_time: 50_000,
                opening_time: 150_000,
                closing_time: 100_000,
            }),
            r.priority_spec() == EYE_BLINK_PRIORITY,
    {
        EyeBlink {
            parameter_ids: Vec::new(),
            current_state: EyeState::Open,
            next_cycle: 5_000_000,
            timings: BlinkTimings {
                blink_interval: 5_000_000,
                closed_time: 50_000,
                opening_time: 150_000,
                closing_time: 100_000,
            },
            priority: EYE_BLINK_PRIORITY,
        }
    }

    /// A controller over the parameters `parameter_ids` with the given
    /// timings, eyes open, the first blink `blink_interval` from now.
    pub fn new(
        parameter_ids: Vec<usize>,
        blink_interval: i64,
        closed_time: i64,
        opening_time: i64,
        closing_time: i64,
    ) -> (r: EyeBlink)
        ensures
            r.ids() == parameter_ids@,
            r.state() == EyeState::Open,
            r.countdown() == blink_interval,
            r.timings_spec() == (BlinkTimings {
                blink_interval,
                closed_time,
                opening_time,
                closing_time,
            }),
            r.priority_spec() == EYE_BLINK_PRIORITY,
    {
        EyeBlink {
            parameter_ids,
            current_state: EyeState::Open,
            next_cycle: blink_interval,
            timings: BlinkTimings { blink_interval, closed_time, opening_time, closing_time },
            priority: EYE_BLINK_PRIORITY,
        }
    }

    /// Sets the parameters that the controller drives.
    pub fn set_ids(&mut self, parameter_ids: Vec<usize>)
        ensures
            final(self).ids() == parameter_ids@,
            final(self).state() == old(self).state(),
            final(self).countdown() == old(self).countdown(),
            final(self).timings_spec() == old(self).timings_spec(),
            final(self).priority_spec() == old(self).priority_spec(),
    {
        self.parameter_ids = parameter_ids;
    }

    /// Sets the timings. The blink interval is raised to the sum of the
    /// three transition times where it is shorter, and the countdown restarts
    /// from it.
    pub fn set_timings(
        &mut self,
        blink_interval: i64,
        closed_time: i64,
        opening_time: i64,
        closing_time: i64,
    )
        ensures
            ({
                let sum = saturate(saturate(closed_time + opening_time) + closing_time);
                let interval = if blink_interval >= sum {
                    blink_interval as int
                } else {
                    sum
                };
                &&& final(self).timings_spec() == (BlinkTimings {
                    blink_interval: interval as i64,
                    closed_time,
                    opening_time,
                    closing_time,
                })
                &&& final(self).countdown() == interval
            }),
            final(self).ids() == old(self).ids(),
            final(self).state() == old(self).state(),
            final(self).priority_spec() == old(self).priority_spec(),
    {
        let sum = fx_add(fx_add(closed_time, opening_time), closing_time);
        let interval = if blink_interval >= sum {
            blink_interval
        } else {
            sum
        };
        self.timings = BlinkTimings { blink_interval: interval, closed_time, opening_time, closing_time };
        self.next_cycle = interval;
    }

    /// The timings.
    pub fn timings(&self) -> (r: BlinkTimings)
        ensures
            r == self.timings_spec(),
    {
        self.timings
    }

    /// The state of the eyes.
    pub fn eye_state(&self) -> (r: EyeState)
        ensures
            r == self.state(),
    {
        self.current_state
    }

    /// The execution priority; lower runs first.
    pub fn priority(&self) -> (r: usize)
        ensures
            r == self.priority_spec(),
    {
        self.priority
    }

    /// Sets the execution priority.
    pub fn set_priority(&mut self, priority: usize)
        ensures
            final(self).priority_spec() == priority,
            final(self).ids() == old(self).ids(),
            final(self).state() == old(self).state(),
            final(self).countdown() == old(self).countdown(),
            final(self).timings_spec() == old(self).timings_spec(),
    {
        self.priority = priority;
    }

    /// Advances the cycle by `delta` microseconds and writes the eye value
    /// to every parameter of the controller.
    pub fn update_parameters(&mut self, model: &mut Model, delta: i64)
        requires
            old(model).wf(),
            old(self).fits(old(model).parameter_count_spec()),
        ensures
            ({
                let (s, c, v) = blink_step(
                    old(self).state(),
                    old(self).countdown() as int,
                    old(self).timings_spec(),
                    delta as int,
                );
                &&& final(self).state() == s
                &&& final(self).countdown() == c
                &&& final(model).params() == write_all(old(model).params(), old(self).ids(), v as i64)
            }),
            *final(self) == old(self).ticked(delta as int),
            final(self).ids() == old(self).ids(),
            final(self).timings_spec() == old(self).timings_spec(),
            final(self).priority_spec() == old(self).priority_spec(),
            final(model).wf(),
            final(model).same_but_params(*old(model)),
    {
        let t = self.timings;
        let next = fx_sub(self.next_cycle, delta);
        let val: i64 = match self.current_state {
            EyeState::Open => {
                if next <= 0 {
                    self.current_state = EyeState::Closing;
                    self.next_cycle = fx_add(next, t.closing_time);
                } else {
                    self.next_cycle = next;
                }
                UNIT
            },
            EyeState::Closed => {
                if next <= 0 {
                    self.current_state = EyeState::Opening;
                    self.next_cycle = fx_add(next, t.opening_time);
                } else {
                    self.next_cycle = next;
                }
                0
            },
            EyeState::Opening => {
                if next <= 0 {
                    self.current_state = EyeState::Open;
                    self.next_cycle = fx_add(next, t.blink_interval);
                    UNIT
                } else {
                    self.next_cycle = next;
                    if t.opening_time > 0 {
                        fx_ratio(fx_sub(t.opening_time, next), t.opening_time)
                    } else {
                        0
                    }
                }
            },
            EyeState::Closing => {
                if next <= 0 {
                    self.current_state = EyeState::Closed;
                    self.next_cycle = fx_add(next, t.closed_time);
                    0
                } else {
                    self.next_cycle = next;
                    if t.closing_time > 0 {
                        fx_ratio(next, t.closing_time)
                    } else {
                        0
                    }
                }
            },
        };
        let mut k: usize = 0;
        while k < self.parameter_ids.len()
            invariant
                k <= self.ids().len(),
                self.ids() == old(self).ids(),
                self.fits(model.parameter_count_spec()),
                model.wf(),
                model.same_but_params(*old(model)),
                model.params().len() == old(model).params().len(),
                forall|j: int|
                    0 <= j < old(model).params().len() ==> #[trigger] model.params()[j] == if in_ids(self.ids().subrange(0, k as int), j) {
                        val
                    } else {
                        old(model).params()[j]
                    },
            decreases self.ids().len() - k,
        {
            let p = self.parameter_ids[k];
            assert(self.ids()[k as int] < model.parameter_count_spec());
            model.set_parameter_value(p, val);
            k = k + 1;
            proof {
                let sub = self.ids().subrange(0, k as int);
                assert(sub =~= self.ids().subrange(0, k - 1).push(p));
                assert forall|j: int| 0 <= j < old(model).params().len() implies #[trigger] model.params()[j] == if in_ids(sub, j) {
                    val
                } else {
                    old(model).params()[j]
                } by {
                    let pre = self.ids().subrange(0, k - 1);
                    if j == p as int {
                        assert(sub[k - 1] == p);
                    } else {
                        if in_ids(sub, j) {
                            let w = choose|w: int| 0 <= w < sub.len() && sub[w] as int == j;
                            assert(pre[w] as int == j);
                        }
                        if in_ids(pre, j) {
                            let w = choose|w: int| 0 <= w < pre.len() && pre[w] as int == j;
                            assert(sub[w] as int == j);
                        }
                    }
                }
            }
        }
        assert(self.ids().subrange(0, self.ids().len() as int) =~= self.ids());
        assert(model.params() =~= write_all(old(model).params(), old(self).ids(), val));
    }
}

} // verus!
