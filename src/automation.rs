//! Keyframe automation of stage variables: a pure function from a time or
//! beat position to a value.

use vstd::prelude::*;

verus! {

/// Keyframe positions count thousandths of a second or of a beat.
pub const POSITION_SCALE: u64 = 1000;

/// What a curve's positions measure.
#[derive(Clone, Copy, Debug, PartialEq, Eq, Structural)]
pub enum Domain {
    Time,
    Beat,
}

/// How values between two keyframes are found.
#[derive(Clone, Copy, Debug, PartialEq, Eq, Structural)]
pub enum Interpolation {
    /// Hold the value of the keyframe at or before the position.
    Step,
    /// Straight line between the two bracketing keyframes, rounded down.
    Linear,
}

#[derive(Clone, Copy, Debug, PartialEq, Eq, Structural)]
pub struct Keyframe {
    /// Position, in units of `1 / POSITION_SCALE`.
    pub at: u64,
    pub value: i64,
}

#[derive(Clone, Copy, Debug, PartialEq, Eq, Structural)]
pub enum CurveError {
    /// A curve needs at least one keyframe.
    Empty,
    /// Keyframe positions must strictly increase.
    Unordered,
}

/// A keyframed curve. Well-formed when it has a keyframe and the keyframe
/// positions strictly increase.
#[derive(Clone, Debug)]
pub struct AutomationCurve {
    pub domain: Domain,
    pub interpolation: Interpolation,
    pub keyframes: Vec<Keyframe>,
}

pub open spec fn strictly_increasing(kf: Seq<Keyframe>) -> bool {
    forall|a: int, b: int| 0 <= a < b < kf.len() ==> #[trigger] kf[a].at < #[trigger] kf[b].at
}

/// The value between keyframes `a` and `b` at position `x`, for
/// `a.at <= x < b.at`.
pub open spec fn segment_value(a: Keyframe, b: Keyframe, interpolation: Interpolation, x: int) -> int {
    match interpolation {
        Interpolation::Step => a.value as int,
        Interpolation::Linear => if b.value >= a.value {
            a.value + (b.value - a.value) * (x - a.at) / (b.at - a.at)
        } else {
            a.value - (a.value - b.value) * (x - a.at) / (b.at - a.at)
        },
    }
}

/// The value at `x`, for `x` at or after keyframe `i`: found in the first
/// segment from `i` on that contains `x`, or the last value past the end.
pub open spec fn value_from(kf: Seq<Keyframe>, interpolation: Interpolation, x: int, i: int) -> int
    decreases kf.len() - i,
{
    if i < 0 || i + 1 >= kf.len() {
        if 0 <= i < kf.len() { kf[i].value as int } else { 0 }
    } else if x < kf[i + 1].at {
        segment_value(kf[i], kf[i + 1], interpolation, x)
    } else {
        value_from(kf, interpolation, x, i + 1)
    }
}

/// The curve's value at `x`: the first value up to the first keyframe, the
/// last value from the last keyframe on, interpolated in between.
pub open spec fn curve_value(kf: Seq<Keyframe>, interpolation: Interpolation, x: int) -> int {
    if x <= kf[0].at {
        kf[0].value as int
    } else {
        value_from(kf, interpolation, x, 0)
    }
}

impl AutomationCurve {
    pub open spec fn wf(&self) -> bool {
        self.keyframes@.len() > 0 && strictly_increasing(self.keyframes@)
    }

    pub open spec fn value_at(&self, x: int) -> int {
        curve_value(self.keyframes@, self.interpolation, x)
    }

    /// A curve over the given keyframes, refused when there is none or
    /// when their positions do not strictly increase.
    pub fn new(domain: Domain, interpolation: Interpolation, keyframes: Vec<Keyframe>) -> (r: Result<
        AutomationCurve,
        CurveError,
    >)
        ensures
            keyframes@.len() == 0 ==> r == Err::<AutomationCurve, CurveError>(CurveError::Empty),
            keyframes@.len() > 0 && !strictly_increasing(keyframes@) ==> r == Err::<
                AutomationCurve,
                CurveError,
            >(CurveError::Unordered),
            keyframes@.len() > 0 && strictly_increasing(keyframes@) ==> (r matches Ok(c) && c.wf()
                && c.domain == domain && c.interpolation == interpolation && c.keyframes@
                == keyframes@),
    {
        if keyframes.len() == 0 {
            return Err(CurveError::Empty);
        }
        if !increasing(&keyframes) {
            return Err(CurveError::Unordered);
        }
        Ok(AutomationCurve { domain, interpolation, keyframes })
    }

    /// Whether the curve has a keyframe and strictly increasing positions.
    pub fn is_valid(&self) -> (r: bool)
        ensures
            r == self.wf(),
    {
        self.keyframes.len() > 0 && increasing(&self.keyframes)
    }

    /// The value at position `x`.
    pub fn evaluate(&self, x: u64) -> (r: i64)
        requires
            self.wf(),
        ensures
            r as int == self.value_at(x as int),
    {
        let kf = &self.keyframes;
        let n = kf.len();
        if x <= kf[0].at {
            return kf[0].value;
        }
        let mut i: usize = 0;
        while i + 1 < n
            invariant
                n == kf@.len(),
                0 <= i < n,
                kf[i as int].at <= x,
                strictly_increasing(kf@),
                self.value_at(x as int) == value_from(kf@, self.interpolation, x as int, i as int),
            decreases n - i,
        {
            if x < kf[i + 1].at {
                return segment(kf[i], kf[i + 1], self.interpolation, x);
            }
            i = i + 1;
        }
        kf[i].value
    }
}

/// Whether the positions strictly increase.
fn increasing(kf: &Vec<Keyframe>) -> (r: bool)
    ensures
        r == strictly_increasing(kf@),
{
    let n = kf.len();
    if n == 0 {
        return true;
    }
    let mut i: usize = 0;
    while i + 1 < n
        invariant
            n == kf@.len(),
            n > 0,
            0 <= i < n,
            strictly_increasing(kf@.take(i + 1)),
        decreases n - i,
    {
        if kf[i].at >= kf[i + 1].at {
            assert(!strictly_increasing(kf@)) by {
                assert(kf@[i as int].at >= kf@[i + 1].at);
            }
            return false;
        }
        assert(strictly_increasing(kf@.take(i + 2))) by {
            assert forall|a: int, b: int| 0 <= a < b < i + 2 implies #[trigger] kf@.take(i + 2)[a].at
                < #[trigger] kf@.take(i + 2)[b].at by {
                if b < i + 1 {
                    assert(kf@.take(i + 1)[a].at < kf@.take(i + 1)[b].at);
                } else if a < i {
                    assert(kf@.take(i + 1)[a].at < kf@.take(i + 1)[i as int].at);
                }
            }
        }
        i = i + 1;
    }
    assert(kf@.take(n as int) =~= kf@);
    true
}

/// One segment's value at `x`, for `a.at <= x < b.at`.
fn segment(a: Keyframe, b: Keyframe, interpolation: Interpolation, x: u64) -> (r: i64)
    requires
        a.at <= x < b.at,
    ensures
        r as int == segment_value(a, b, interpolation, x as int),
{
    match interpolation {
        Interpolation::Step => a.value,
        Interpolation::Linear => {
            let offset = (x - a.at) as u128;
            let span = (b.at - a.at) as u128;
            let rising = b.value >= a.value;
            let diff: u128 = if rising {
                (b.value as i128 - a.value as i128) as u128
            } else {
                (a.value as i128 - b.value as i128) as u128
            };
            proof {
                vstd::arithmetic::mul::lemma_mul_upper_bound(
                    diff as int, u64::MAX as int, offset as int, u64::MAX as int);
                lemma_share_bounded(diff as int, offset as int, span as int);
            }
            let share = diff * offset / span;
            if rising {
                (a.value as i128 + share as i128) as i64
            } else {
                (a.value as i128 - share as i128) as i64
            }
        },
    }
}

/// `d * o / s <= d` when `0 <= o < s`.
proof fn lemma_share_bounded(d: int, o: int, s: int)
    requires
        d >= 0,
        0 <= o < s,
    ensures
        0 <= d * o / s <= d,
{
    vstd::arithmetic::mul::lemma_mul_inequality(o, s, d);
    assert(d * o <= d * s) by (nonlinear_arith)
        requires d >= 0, o <= s;
    assert(d * o >= 0) by (nonlinear_arith)
        requires d >= 0, o >= 0;
    vstd::arithmetic::div_mod::lemma_div_is_ordered(d * o, d * s, s);
    vstd::arithmetic::div_mod::lemma_div_by_multiple(d, s);
    vstd::arithmetic::div_mod::lemma_div_pos_is_pos(d * o, s);
}

proof fn lemma_value_from_at_keyframe(kf: Seq<Keyframe>, interpolation: Interpolation, j: int, i: int)
    requires
        strictly_increasing(kf),
        0 <= i <= j < kf.len(),
    ensures
        value_from(kf, interpolation, kf[j].at as int, i) == kf[j].value,
    decreases j - i,
{
    if i < j {
        assert(kf[i + 1].at <= kf[j].at) by {
            if i + 1 < j {
                assert(kf[i + 1].at < kf[j].at);
            }
        }
        lemma_value_from_at_keyframe(kf, interpolation, j, i + 1);
    } else if i + 1 < kf.len() {
        assert(kf[i].at < kf[i + 1].at);
    }
}

proof fn lemma_value_from_past_end(kf: Seq<Keyframe>, interpolation: Interpolation, x: int, i: int)
    requires
        strictly_increasing(kf),
        0 <= i < kf.len(),
        x >= kf[kf.len() - 1].at,
    ensures
        value_from(kf, interpolation, x, i) == kf[kf.len() - 1].value,
    decreases kf.len() - i,
{
    if i + 1 < kf.len() {
        assert(kf[i + 1].at <= kf[kf.len() - 1].at) by {
            if i + 1 < kf.len() - 1 {
                assert(kf[i + 1].at < kf[kf.len() - 1].at);
            }
        }
        lemma_value_from_past_end(kf, interpolation, x, i + 1);
    }
}

/// A curve returns a keyframe's value exactly at that keyframe's position,
/// and clamps to its first and last values outside the keyframed range.
pub proof fn lemma_curve_hits_keyframes_and_clamps(curve: AutomationCurve, j: int, x: int)
    requires
        curve.wf(),
        0 <= j < curve.keyframes@.len(),
    ensures
        curve.value_at(curve.keyframes@[j].at as int) == curve.keyframes@[j].value,
        x <= curve.keyframes@[0].at ==> curve.value_at(x) == curve.keyframes@[0].value,
        x >= curve.keyframes@.last().at ==> curve.value_at(x) == curve.keyframes@.last().value,
{
    let kf = curve.keyframes@;
    if j > 0 {
        assert(kf[0].at < kf[j].at);
        lemma_value_from_at_keyframe(kf, curve.interpolation, j, 0);
    }
    if x >= kf.last().at && x > kf[0].at {
        lemma_value_from_past_end(kf, curve.interpolation, x, 0);
    }
    if x >= kf.last().at && x <= kf[0].at && kf.len() > 1 {
        assert(kf[0].at < kf[kf.len() - 1].at);
    }
}

} // verus!
