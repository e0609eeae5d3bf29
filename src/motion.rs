//! Motions: time-driven curves that write parameter values and part
//! opacities, with play, pause, stop and looping.

use vstd::prelude::*;
use crate::expression::index_of;
use crate::fixed::{clamp_spec, fx_clamp, fx_lerp, fx_ratio, fx_sub, lerp_spec, ratio_spec, saturate, UNIT};
use crate::model::Model;
use crate::moc::has_id;
use crate::records::{Curve, Motion3, Segment, SegmentPoint};

verus! {

/// Whether the time range of `seg` holds `t`.
pub open spec fn intersects_spec(seg: Segment, t: int) -> bool {
    match seg {
        Segment::Linear(p0, p1) => p0.time <= t <= p1.time,
        Segment::Bezier(ps) => ps[0].time <= t <= ps[3].time,
        Segment::Stepped(p0, t1) => p0.time <= t <= t1,
        Segment::InverseStepped(t0, p1) => t0 <= t <= p1.time,
    }
}

/// How far `t` lies from `t0` towards `t1`, as a fraction in `[0, UNIT]`;
/// 0 where the range is empty.
pub open spec fn progress_spec(t0: int, t1: int, t: int) -> int {
    if t1 <= t0 {
        0
    } else {
        clamp_spec(ratio_spec(saturate(t - t0), saturate(t1 - t0)), 0, UNIT as int)
    }
}

/// The value of `seg` at time `t`.
pub open spec fn interpolate_spec(seg: Segment, t: int) -> int {
    match seg {
        Segment::Linear(p0, p1) => {
            let k = progress_spec(p0.time as int, p1.time as int, t);
            if k <= 0 {
                p0.value as int
            } else {
                lerp_spec(p0.value as int, p1.value as int, k)
            }
        },
        Segment::Bezier(ps) => {
            let k = progress_spec(ps[0].time as int, ps[3].time as int, t);
            let a = lerp_spec(ps[0].value as int, ps[1].value as int, k);
            let b = lerp_spec(ps[1].value as int, ps[2].value as int, k);
            let c = lerp_spec(ps[2].value as int, ps[3].value as int, k);
            let d = lerp_spec(a, b, k);
            let e = lerp_spec(b, c, k);
            lerp_spec(d, e, k)
        },
        Segment::Stepped(p0, _) => p0.value as int,
        Segment::InverseStepped(_, p1) => p1.value as int,
    }
}

/// Whether the time range of `seg` holds `t`.
pub fn segment_intersects(seg: &Segment, t: i64) -> (r: bool)
    ensures
        r == intersects_spec(*seg, t as int),
{
    match seg {
        Segment::Linear(p0, p1) => p0.time <= t && t <= p1.time,
        Segment::Bezier(ps) => ps[0].time <= t && t <= ps[3].time,
        Segment::Stepped(p0, t1) => p0.time <= t && t <= *t1,
        Segment::InverseStepped(t0, p1) => *t0 <= t && t <= p1.time,
    }
}

fn progress(t0: i64, t1: i64, t: i64) -> (r: i64)
    ensures
        r == progress_spec(t0 as int, t1 as int, t as int),
        0 <= r <= UNIT,
{
    if t1 <= t0 {
        0
    } else {
        let span = fx_sub(t1, t0);
        fx_clamp(fx_ratio(fx_sub(t, t0), span), 0, UNIT)
    }
}

/// The value of `seg` at time `t`: linear interpolation for a linear
/// segment, De Casteljau's reduction of the values for a Bezier segment, and
/// the held value for a stepped one.
pub fn segment_interpolate(seg: &Segment, t: i64) -> (r: i64)
    ensures
        r == interpolate_spec(*seg, t as int),
{
    match seg {
        Segment::Linear(p0, p1) => {
            let k = progress(p0.time, p1.time, t);
            if k <= 0 {
                p0.value
            } else {
                fx_lerp(p0.value, p1.value, k)
            }
        },
        Segment::Bezier(ps) => {
            let k = progress(ps[0].time, ps[3].time, t);
            let a = fx_lerp(ps[0].value, ps[1].value, k);
            let b = fx_lerp(ps[1].value, ps[2].value, k);
            let c = fx_lerp(ps[2].value, ps[3].value, k);
            let d = fx_lerp(a, b, k);
            let e = fx_lerp(b, c, k);
            fx_lerp(d, e, k)
        },
        Segment::Stepped(p0, _) => p0.value,
        Segment::InverseStepped(_, p1) => p1.value,
    }
}

/// A linear segment yields its first point's value at that point's time
/// and, where its time range is not empty, its last point's value at that
/// point's time.
pub proof fn lemma_linear_ends(p0: SegmentPoint, p1: SegmentPoint)
    ensures
        interpolate_spec(Segment::Linear(p0, p1), p0.time as int) == p0.value,
        p0.time < p1.time ==> interpolate_spec(Segment::Linear(p0, p1), p1.time as int)
            == p1.value,
{
    let s = saturate(p1.time - p0.time);
    if p0.time < p1.time {
        assert(s > 0);
        assert((s * (UNIT as int)) / s == UNIT) by (nonlinear_arith)
            requires
                s > 0,
        ;
        assert(((p1.value - p0.value) * (UNIT as int)) / (UNIT as int) == p1.value - p0.value)
            by (nonlinear_arith);
        assert((0 * (UNIT as int)) / s == 0) by (nonlinear_arith)
            requires
                s > 0,
        ;
    }
}

/// The index of the first segment of `segs` at or after `from` whose range
/// holds `t`, if any.
pub open spec fn first_hit(segs: Seq<Segment>, t: int, from: int) -> Option<int>
    decreases segs.len() - from,
{
    if from < 0 || from >= segs.len() {
        None
    } else if intersects_spec(segs[from], t) {
        Some(from)
    } else {
        first_hit(segs, t, from + 1)
    }
}

proof fn lemma_first_hit_bounds(segs: Seq<Segment>, t: int, from: int)
    ensures
        first_hit(segs, t, from) matches Some(i) ==> 0 <= from <= i < segs.len(),
    decreases segs.len() - from,
{
    if 0 <= from < segs.len() && !intersects_spec(segs[from], t) {
        lemma_first_hit_bounds(segs, t, from + 1);
    }
}

/// The value that a curve with segments `segs` takes at time `t`: that of
/// the first segment whose range holds `t`.
pub open spec fn curve_value(segs: Seq<Segment>, t: int) -> Option<int> {
    match first_hit(segs, t, 0) {
        Some(i) => Some(interpolate_spec(segs[i], t)),
        None => None,
    }
}

/// The target tag of a curve that drives a parameter.
pub open spec fn parameter_tag() -> Seq<char> {
    seq!['P', 'a', 'r', 'a', 'm', 'e', 't', 'e', 'r']
}

/// The target tag of a curve that drives a part opacity.
pub open spec fn part_opacity_tag() -> Seq<char> {
    seq!['P', 'a', 'r', 't', 'O', 'p', 'a', 'c', 'i', 't', 'y']
}

/// Parameter values and part opacities after a curve with target `target`
/// and id `id` writes `value`: a parameter or part that the model does not
/// have, and any other target, leave both as they were.
pub open spec fn route(
    state: (Seq<i64>, Seq<i64>),
    pids: Seq<Seq<char>>,
    qids: Seq<Seq<char>>,
    target: Seq<char>,
    id: Seq<char>,
    value: i64,
) -> (Seq<i64>, Seq<i64>) {
    if target == parameter_tag() && has_id(pids, id) {
        (state.0.update(index_of(pids, id), value), state.1)
    } else if target == part_opacity_tag() && has_id(qids, id) {
        (state.0, state.1.update(index_of(qids, id), value))
    } else {
        state
    }
}

/// Parameter values and part opacities after the first `n` curves of
/// `curves` are evaluated at time `t` and written, one after another.
pub open spec fn apply_curves(
    state: (Seq<i64>, Seq<i64>),
    pids: Seq<Seq<char>>,
    qids: Seq<Seq<char>>,
    curves: Seq<Curve>,
    t: int,
    n: nat,
) -> (Seq<i64>, Seq<i64>)
    decreases n,
{
    if n == 0 {
        state
    } else {
        let prev = apply_curves(state, pids, qids, curves, t, (n - 1) as nat);
        let c = curves[n - 1];
        match curve_value(c.segments@, t) {
            Some(v) => route(prev, pids, qids, c.target@, c.id@, v as i64),
            None => prev,
        }
    }
}

/// The playback state after a tick of `delta` microseconds: a playing
/// motion advances; on reaching its duration a looped motion wraps around
/// (to 0 where the duration is not positive) and any other one stops at
/// its duration and pauses. A paused motion does not move.
pub open spec fn tick_spec(playing: bool, looped: bool, duration: int, current: int, delta: int) -> (
    int,
    bool,
) {
    if !playing {
        (current, playing)
    } else {
        let t = saturate(current + delta);
        if duration <= t {
            if looped {
                if duration > 0 {
                    (t % duration, true)
                } else {
                    (0, true)
                }
            } else {
                (duration, false)
            }
        } else {
            (t, true)
        }
    }
}

/// The index of the first segment whose range holds `t`.
fn first_intersecting(segs: &Vec<Segment>, t: i64) -> (r: Option<usize>)
    ensures
        match r {
            Some(k) => first_hit(segs@, t as int, 0) == Some(k as int),
            None => first_hit(segs@, t as int, 0) is None,
        },
{
    let mut s: usize = 0;
    while s < segs.len()
        invariant
            s <= segs@.len(),
            first_hit(segs@, t as int, 0) == first_hit(segs@, t as int, s as int),
        decreases segs@.len() - s,
    {
        if segment_intersects(&segs[s], t) {
            return Some(s);
        }
        s = s + 1;
    }
    None
}

/// The segment kind code of a linear segment, in fixed point.
pub const SEGMENT_LINEAR: i64 = 0;
/// The segment kind code of a Bezier segment, in fixed point.
pub const SEGMENT_BEZIER: i64 = 1_000_000;
/// The segment kind code of a stepped segment, in fixed point.
pub const SEGMENT_STEPPED: i64 = 2_000_000;
/// The segment kind code of an inverse stepped segment, in fixed point.
pub const SEGMENT_INVERSE_STEPPED: i64 = 3_000_000;

/// How many numbers follow the kind code of a segment, or 0 for an unknown
/// code.
pub open spec fn operand_count(code: i64) -> int {
    if code == SEGMENT_LINEAR || code == SEGMENT_STEPPED || code == SEGMENT_INVERSE_STEPPED {
        2
    } else if code == SEGMENT_BEZIER {
        6
    } else {
        0
    }
}

/// The segment that starts at `last` and is encoded at `pos` (its kind
/// code) of `data`, with the point it ends at.
pub open spec fn decode_segment(data: Seq<i64>, pos: int, last: SegmentPoint) -> (Segment, SegmentPoint) {
    let code = data[pos];
    let p = SegmentPoint { time: data[pos + 1], value: data[pos + 2] };
    if code == SEGMENT_LINEAR {
        (Segment::Linear(last, p), p)
    } else if code == SEGMENT_STEPPED {
        (Segment::Stepped(last, p.time), p)
    } else if code == SEGMENT_INVERSE_STEPPED {
        (Segment::InverseStepped(last.time, p), p)
    } else {
        let q = SegmentPoint { time: data[pos + 5], value: data[pos + 6] };
        (Segment::Bezier([last, p, SegmentPoint { time: data[pos + 3], value: data[pos + 4] }, q]), q)
    }
}

/// The segments encoded in `data` from `pos` on, the first starting at
/// `last`; `None` where a kind code is unknown or a segment is cut short.
pub open spec fn decode_from(data: Seq<i64>, pos: int, last: SegmentPoint) -> Option<Seq<Segment>>
    decreases data.len() - pos,
{
    if pos < 0 || pos >= data.len() {
        Some(Seq::empty())
    } else {
        let n = operand_count(data[pos]);
        if n == 0 || pos + 1 + n > data.len() {
            None
        } else {
            let (seg, next) = decode_segment(data, pos, last);
            match decode_from(data, pos + 1 + n, next) {
                Some(rest) => Some(seq![seg] + rest),
                None => None,
            }
        }
    }
}

/// The segments of a curve's flat encoding: a start point (time, value),
/// then for each segment a kind code and the points it adds, each segment
/// starting where the previous one ended.
pub open spec fn decode_spec(data: Seq<i64>) -> Option<Seq<Segment>> {
    if data.len() < 2 {
        None
    } else {
        decode_from(data, 2, SegmentPoint { time: data[0], value: data[1] })
    }
}

/// Decodes the flat encoding of a curve's segments; `None` where it lacks
/// a start point, holds an unknown kind code, or ends inside a segment.
pub fn parse_segments(data: &[i64]) -> (r: Option<Vec<Segment>>)
    ensures
        match decode_spec(data@) {
            Some(s) => r is Some && r.unwrap()@ == s,
            None => r is None,
        },
{
    if data.len() < 2 {
        return None;
    }
    let mut last = SegmentPoint { time: data[0], value: data[1] };
    let mut pos: usize = 2;
    let mut out: Vec<Segment> = Vec::new();
    while pos < data.len()
        invariant
            2 <= pos <= data@.len(),
            decode_spec(data@) == match decode_from(data@, pos as int, last) {
                Some(rest) => Some(out@ + rest),
                None => None::<Seq<Segment>>,
            },
        decreases data@.len() - pos,
    {
        let code = data[pos];
        let n: usize = if code == SEGMENT_LINEAR || code == SEGMENT_STEPPED || code
            == SEGMENT_INVERSE_STEPPED {
            2
        } else if code == SEGMENT_BEZIER {
            6
        } else {
            0
        };
        if n == 0 || n > data.len() - pos - 1 {
            return None;
        }
        let p = SegmentPoint { time: data[pos + 1], value: data[pos + 2] };
        let ghost g = decode_segment(data@, pos as int, last);
        let seg = if code == SEGMENT_LINEAR {
            Segment::Linear(last, p)
        } else if code == SEGMENT_STEPPED {
            Segment::Stepped(last, p.time)
        } else if code == SEGMENT_INVERSE_STEPPED {
            Segment::InverseStepped(last.time, p)
        } else {
            let q = SegmentPoint { time: data[pos + 5], value: data[pos + 6] };
            let s = Segment::Bezier([last, p, SegmentPoint { time: data[pos + 3], value: data[pos + 4] }, q]);
            last = q;
            s
        };
        if code != SEGMENT_BEZIER {
            last = p;
        }
        assert(seg == g.0);
        assert(last == g.1);
        let ghost before = out@;
        out.push(seg);
        proof {
            match decode_from(data@, pos + 1 + n, last) {
                Some(rest) => {
                    assert(before + (seq![seg] + rest) =~= out@ + rest);
                },
                None => {},
            }
        }
        pos = pos + 1 + n;
    }
    proof {
        assert(out@ + Seq::<Segment>::empty() =~= out@);
    }
    Some(out)
}

/// A looped motion that is playing, at a time within `[0, duration)`, and
/// ticked by a non-negative `delta` whose sum with the time fits in `i64`,
/// lands at the sum modulo the duration, again within `[0, duration)`, and
/// keeps playing.
pub proof fn lemma_loop_wraps(duration: i64, current: i64, delta: i64)
    requires
        duration > 0,
        0 <= current < duration,
        delta >= 0,
        current + delta <= i64::MAX,
    ensures
        tick_spec(true, true, duration as int, current as int, delta as int) == (
            (current + delta) % (duration as int),
            true,
        ),
        0 <= (current + delta) % (duration as int) < duration,
{
    let x = current + delta;
    vstd::arithmetic::div_mod::lemma_mod_bound(x, duration as int);
    if x < duration {
        vstd::arithmetic::div_mod::lemma_small_mod(x as nat, duration as nat);
    }
}

/// A motion that does not loop, ticked past its duration, stops at its
/// duration and pauses.
pub proof fn lemma_clamp_at_end(duration: i64, current: i64, delta: i64)
    requires
        current + delta >= duration,
        current + delta <= i64::MAX,
    ensures
        tick_spec(true, false, duration as int, current as int, delta as int) == (duration as int, false),
{
}

/// A motion and its playback state.
pub struct Motion {
    json: Motion3,
    duration: i64,
    fps: i64,
    looped: bool,
    playing: bool,
    current_time: i64,
}

impl Motion {
    /// The curves of the motion.
    pub closed spec fn curves(&self) -> Seq<Curve> {
        self.json.curves@
    }

    /// The duration in microseconds.
    pub closed spec fn duration_spec(&self) -> i64 {
        self.duration
    }

    /// Whether the motion loops.
    pub closed spec fn looped_spec(&self) -> bool {
        self.looped
    }

    /// Whether the motion is playing.
    pub closed spec fn playing_spec(&self) -> bool {
        self.playing
    }

    /// The playback time in microseconds.
    pub closed spec fn time_spec(&self) -> i64 {
        self.current_time
    }

    /// A stopped motion over the curves of `motion3`, with the duration and
    /// looping of its header.
    pub fn new(motion3: Motion3) -> (r: Motion)
        ensures
            r.curves() == motion3.curves@,
            r.duration_spec() == motion3.meta.duration,
            r.fps_spec() == motion3.meta.fps,
            r.looped_spec() == motion3.meta.looped,
            !r.playing_spec(),
            r.time_spec() == 0,
    {
        let duration = motion3.meta.duration;
        let fps = motion3.meta.fps;
        let looped = motion3.meta.looped;
        Motion { json: motion3, duration, fps, looped, playing: false, current_time: 0 }
    }

    /// The descriptor the motion plays.
    pub fn motion3(&self) -> (r: &Motion3)
        ensures
            r.curves@ == self.curves(),
    {
        &self.json
    }

    /// The duration in microseconds.
    pub fn duration(&self) -> (r: i64)
        ensures
            r == self.duration_spec(),
    {
        self.duration
    }

    /// Frames per second of the descriptor, in millionths.
    pub closed spec fn fps_spec(&self) -> i64 {
        self.fps
    }

    /// Frames per second of the descriptor, in millionths.
    pub fn fps(&self) -> (r: i64)
        ensures
            r == self.fps_spec(),
    {
        self.fps
    }

    /// The playback time in microseconds.
    pub fn current_time(&self) -> (r: i64)
        ensures
            r == self.time_spec(),
    {
        self.current_time
    }

    /// Sets whether the motion loops.
    pub fn set_looped(&mut self, looped: bool)
        ensures
            final(self).looped_spec() == looped,
            final(self).playing_spec() == old(self).playing_spec(),
            final(self).time_spec() == old(self).time_spec(),
            final(self).duration_spec() == old(self).duration_spec(),
            final(self).curves() == old(self).curves(),
    {
        self.looped = looped;
    }

    /// Starts or resumes playback.
    pub fn play(&mut self)
        ensures
            final(self).playing_spec(),
            final(self).looped_spec() == old(self).looped_spec(),
            final(self).time_spec() == old(self).time_spec(),
            final(self).duration_spec() == old(self).duration_spec(),
            final(self).curves() == old(self).curves(),
    {
        self.playing = true;
    }

    /// Pauses playback, keeping the time.
    pub fn pause(&mut self)
        ensures
            !final(self).playing_spec(),
            final(self).looped_spec() == old(self).looped_spec(),
            final(self).time_spec() == old(self).time_spec(),
            final(self).duration_spec() == old(self).duration_spec(),
            final(self).curves() == old(self).curves(),
    {
        self.playing = false;
    }

    /// Stops playback and rewinds to time 0.
    pub fn stop(&mut self)
        ensures
            !final(self).playing_spec(),
            final(self).time_spec() == 0,
            final(self).looped_spec() == old(self).looped_spec(),
            final(self).duration_spec() == old(self).duration_spec(),
            final(self).curves() == old(self).curves(),
    {
        self.playing = false;
        self.current_time = 0;
    }

    /// Whether the motion is playing.
    pub fn is_playing(&self) -> (r: bool)
        ensures
            r == self.playing_spec(),
    {
        self.playing
    }

    /// Advances playback by `delta_time` microseconds.
    pub fn tick(&mut self, delta_time: i64)
        ensures
            (final(self).time_spec() as int, final(self).playing_spec()) == tick_spec(
                old(self).playing_spec(),
                old(self).looped_spec(),
                old(self).duration_spec() as int,
                old(self).time_spec() as int,
                delta_time as int,
            ),
            final(self).looped_spec() == old(self).looped_spec(),
            final(self).duration_spec() == old(self).duration_spec(),
            final(self).curves() == old(self).curves(),
    {
        if !self.playing {
            return;
        }
        let t = crate::fixed::fx_add(self.current_time, delta_time);
        if self.duration <= t {
            if self.looped {
                if self.duration > 0 {
                    self.current_time = t % self.duration;
                } else {
                    self.current_time = 0;
                }
            } else {
                self.current_time = self.duration;
                self.playing = false;
            }
        } else {
            self.current_time = t;
        }
    }

    /// Evaluates every curve at the current time and writes its value to
    /// the parameter or part opacity it targets. Curves whose target is the
    /// model itself (the `EyeBlink` and `LipSync` channels) are recognized
    /// but change nothing yet, and so are curves with any other target or
    /// with an id the model does not have.
    pub fn update(&self, model: &mut Model)
        requires
            old(model).wf(),
        ensures
            final(model).wf(),
            final(model).moc_spec() == old(model).moc_spec(),
            final(model).drawables_same(*old(model)),
            (final(model).params(), final(model).opacities()) == apply_curves(
                (old(model).params(), old(model).opacities()),
                old(model).moc_spec().parameter_ids_view(),
                old(model).moc_spec().part_ids_view(),
                self.curves(),
                self.time_spec() as int,
                self.curves().len(),
            ),
    {
        let current = self.current_time;
        let curves = &self.json.curves;
        let ghost pids = old(model).moc_spec().parameter_ids_view();
        let ghost qids = old(model).moc_spec().part_ids_view();
        proof {
            reveal_strlit("Parameter");
            reveal_strlit("PartOpacity");
        }
        let parameter_target = "Parameter".to_owned();
        let part_target = "PartOpacity".to_owned();
        assert(parameter_target@ =~= parameter_tag());
        assert(part_target@ =~= part_opacity_tag());
        let mut c: usize = 0;
        while c < curves.len()
            invariant
                c <= curves@.len(),
                curves@ == self.curves(),
                model.wf(),
                model.moc_spec() == old(model).moc_spec(),
                model.drawables_same(*old(model)),
                pids == model.moc_spec().parameter_ids_view(),
                qids == model.moc_spec().part_ids_view(),
                parameter_target@ == parameter_tag(),
                part_target@ == part_opacity_tag(),
                (model.params(), model.opacities()) == apply_curves(
                    (old(model).params(), old(model).opacities()),
                    pids,
                    qids,
                    curves@,
                    current as int,
                    c as nat,
                ),
            decreases curves@.len() - c,
        {
            let curve = &curves[c];
            let segs = &curve.segments;
            let found = first_intersecting(segs, current);
            proof {
                lemma_first_hit_bounds(segs@, current as int, 0);
            }
            match found {
                Some(s) => {
                    let value = segment_interpolate(&segs[s], current);
                    assert(curve_value(curve.segments@, current as int) == Some(value as int));
                    if curve.target == parameter_target {
                        match model.parameter_index(curve.id.as_str()) {
                            Some(i) => {
                                proof {
                                    crate::expression::lemma_first_index(pids, curve.id@, i as int);
                                }
                                model.set_parameter_value(i, value);
                            },
                            None => {},
                        }
                    } else if curve.target == part_target {
                        match model.part_index(curve.id.as_str()) {
                            Some(i) => {
                                proof {
                                    crate::expression::lemma_first_index(qids, curve.id@, i as int);
                                }
                                model.set_part_opacity(i, value);
                            },
                            None => {},
                        }
                    }
                },
                None => {},
            }
            proof {
                assert(curves@.subrange(0, c as int + 1).last() == curves@[c as int]);
            }
            c = c + 1;
        }
    }
}

} // verus!
