//! Live behaviors a register or analog point can follow, and the numeric
//! constraints each one must satisfy.

use vstd::prelude::*;

use crate::ieee::Real;

verus! {

/// Drift applied on top of a gaussian or sinusoidal behavior.
#[derive(Debug, Clone, Copy, PartialEq)]
pub struct DriftModifier {
    /// When false, the modifier is ignored.
    pub enabled: bool,
    /// Change per simulation second.
    pub rate: Real,
    /// Inclusive `[min, max]` clamp.
    pub bounds: (Real, Real),
}

/// A scheduled step value.
#[derive(Debug, Clone, Copy, PartialEq, Eq, Structural)]
pub struct StepEntry {
    /// Seconds from simulation start.
    pub at: Real,
    /// Value to hold after `at`.
    pub value: Real,
}

/// Per-register simulation behavior.
#[derive(Debug, PartialEq)]
pub enum BehaviorSpec {
    /// Always returns the operating point.
    Constant,
    /// Gaussian noise around the operating point.
    GaussianNoise {
        /// Standard deviation.
        std_dev: Real,
        /// Optional slow drift of the center.
        drift: Option<DriftModifier>,
    },
    /// Sine wave around the operating point.
    Sinusoidal {
        /// Full cycle duration in hours.
        period_hours: Real,
        /// Peak deviation from center.
        amplitude: Real,
        /// Optional slow drift of the center.
        drift: Option<DriftModifier>,
    },
    /// Linear drift of the operating point.
    Drift {
        /// Change per simulation second.
        rate: Real,
        /// Inclusive clamp.
        bounds: (Real, Real),
    },
    /// Repeating ramp.
    Sawtooth {
        /// Period in seconds.
        period_seconds: Real,
        /// Ramp start.
        min: Real,
        /// Ramp end.
        max: Real,
    },
    /// Analog high/low around the operating point (50% duty).
    Square {
        /// Full high+low cycle in seconds.
        period_seconds: Real,
        /// Peak deviation from center.
        amplitude: Real,
    },
    /// Symmetric ramp `min -> max -> min`.
    Triangle {
        /// Period in seconds.
        period_seconds: Real,
        /// Low end.
        min: Real,
        /// High end.
        max: Real,
    },
    /// Uniform random in `[min, max]` each tick.
    Uniform {
        /// Inclusive lower bound.
        min: Real,
        /// Inclusive upper bound.
        max: Real,
    },
    /// Discrete jumps at elapsed times.
    Step {
        /// Steps in any order; the engine sorts by `at`.
        steps: Vec<StepEntry>,
    },
    /// Walk `values` in order, one entry every `dwell_seconds`, then repeat.
    Cycle {
        /// Simulation seconds spent on each value.
        dwell_seconds: Real,
        /// Engineering values.
        values: Vec<Real>,
    },
}

/// Which numeric constraint of a behavior is broken.
#[derive(Debug, Clone, Copy, PartialEq, Eq, Structural)]
pub enum BehaviorFault {
    /// `std_dev <= 0`.
    StdDev,
    /// `period_hours <= 0`.
    PeriodHours,
    /// `amplitude <= 0`.
    Amplitude,
    /// Drift `bounds[0] >= bounds[1]` (behavior or modifier).
    DriftBounds,
    /// `period_seconds <= 0`.
    PeriodSeconds,
    /// Sawtooth `min >= max`.
    SawtoothRange,
    /// Triangle `min >= max`.
    TriangleRange,
    /// Uniform `min >= max`.
    UniformRange,
    /// Step behavior with no steps.
    NoSteps,
    /// A step scheduled before time zero.
    StepAt,
    /// `dwell_seconds <= 0`.
    DwellSeconds,
    /// Cycle behavior with no values.
    NoValues,
}

/// When a constraint is checked within its behavior: the period (or
/// `std_dev`, `dwell_seconds`, the presence of steps, the uniform range)
/// first, then the amplitude, range, step times or values, and the drift
/// bounds last.
pub open spec fn check_rank(f: BehaviorFault) -> int {
    match f {
        BehaviorFault::StdDev => 0,
        BehaviorFault::PeriodHours => 0,
        BehaviorFault::PeriodSeconds => 0,
        BehaviorFault::DwellSeconds => 0,
        BehaviorFault::NoSteps => 0,
        BehaviorFault::UniformRange => 0,
        BehaviorFault::Amplitude => 1,
        BehaviorFault::SawtoothRange => 1,
        BehaviorFault::TriangleRange => 1,
        BehaviorFault::StepAt => 1,
        BehaviorFault::NoValues => 1,
        BehaviorFault::DriftBounds => 2,
    }
}

/// `x <= 0` in IEEE-754 (false for a NaN).
pub open spec fn not_positive(x: Real) -> bool {
    x.at_most(Real::zero_spec())
}

/// `lo >= hi` in IEEE-754 (false when either is a NaN).
pub open spec fn not_below(lo: Real, hi: Real) -> bool {
    hi.at_most(lo)
}

/// Whether an optional drift modifier has inverted bounds.
pub open spec fn drift_bad(d: Option<DriftModifier>) -> bool {
    d matches Some(m) && not_below(m.bounds.0, m.bounds.1)
}

impl Clone for BehaviorSpec {
    fn clone(&self) -> (r: Self)
        ensures
            r.same(*self),
    {
        match self {
            BehaviorSpec::Constant => BehaviorSpec::Constant,
            BehaviorSpec::GaussianNoise { std_dev, drift } => BehaviorSpec::GaussianNoise {
                std_dev: *std_dev,
                drift: *drift,
            },
            BehaviorSpec::Sinusoidal { period_hours, amplitude, drift } => {
                BehaviorSpec::Sinusoidal {
                    period_hours: *period_hours,
                    amplitude: *amplitude,
                    drift: *drift,
                }
            },
            BehaviorSpec::Drift { rate, bounds } => BehaviorSpec::Drift {
                rate: *rate,
                bounds: *bounds,
            },
            BehaviorSpec::Sawtooth { period_seconds, min, max } => BehaviorSpec::Sawtooth {
                period_seconds: *period_seconds,
                min: *min,
                max: *max,
            },
            BehaviorSpec::Square { period_seconds, amplitude } => BehaviorSpec::Square {
                period_seconds: *period_seconds,
                amplitude: *amplitude,
            },
            BehaviorSpec::Triangle { period_seconds, min, max } => BehaviorSpec::Triangle {
                period_seconds: *period_seconds,
                min: *min,
                max: *max,
            },
            BehaviorSpec::Uniform { min, max } => BehaviorSpec::Uniform { min: *min, max: *max },
            BehaviorSpec::Step { steps } => BehaviorSpec::Step { steps: copy_steps(steps) },
            BehaviorSpec::Cycle { dwell_seconds, values } => BehaviorSpec::Cycle {
                dwell_seconds: *dwell_seconds,
                values: copy_reals(values),
            },
        }
    }
}

fn copy_steps(v: &Vec<StepEntry>) -> (r: Vec<StepEntry>)
    ensures
        r@ == v@,
{
    let mut r: Vec<StepEntry> = Vec::new();
    for i in 0..v.len()
        invariant
            r@ == v@.subrange(0, i as int),
    {
        r.push(v[i]);
    }
    assert(r@ =~= v@);
    r
}

fn copy_reals(v: &Vec<Real>) -> (r: Vec<Real>)
    ensures
        r@ == v@,
{
    let mut r: Vec<Real> = Vec::new();
    for i in 0..v.len()
        invariant
            r@ == v@.subrange(0, i as int),
    {
        r.push(v[i]);
    }
    assert(r@ =~= v@);
    r
}

impl BehaviorSpec {
    /// Whether two behaviors hold the same values (lists compared by
    /// their elements).
    pub open spec fn same(self, o: BehaviorSpec) -> bool {
        match (self, o) {
            (BehaviorSpec::Step { steps: a }, BehaviorSpec::Step { steps: b }) => a@ == b@,
            (
                BehaviorSpec::Cycle { dwell_seconds: d, values: a },
                BehaviorSpec::Cycle { dwell_seconds: e, values: b },
            ) => d == e && a@ == b@,
            (BehaviorSpec::Step { .. }, _) => false,
            (BehaviorSpec::Cycle { .. }, _) => false,
            _ => self == o,
        }
    }

    /// Whether the behavior breaks a given constraint.
    pub open spec fn breaks(self, f: BehaviorFault) -> bool {
        match (self, f) {
            (BehaviorSpec::GaussianNoise { std_dev, .. }, BehaviorFault::StdDev) => not_positive(std_dev),
            (BehaviorSpec::GaussianNoise { drift, .. }, BehaviorFault::DriftBounds) => drift_bad(drift),
            (BehaviorSpec::Sinusoidal { period_hours, .. }, BehaviorFault::PeriodHours) => not_positive(period_hours),
            (BehaviorSpec::Sinusoidal { amplitude, .. }, BehaviorFault::Amplitude) => not_positive(amplitude),
            (BehaviorSpec::Sinusoidal { drift, .. }, BehaviorFault::DriftBounds) => drift_bad(drift),
            (BehaviorSpec::Drift { bounds, .. }, BehaviorFault::DriftBounds) => not_below(bounds.0, bounds.1),
            (BehaviorSpec::Sawtooth { period_seconds, .. }, BehaviorFault::PeriodSeconds) => not_positive(period_seconds),
            (BehaviorSpec::Sawtooth { min, max, .. }, BehaviorFault::SawtoothRange) => not_below(min, max),
            (BehaviorSpec::Square { period_seconds, .. }, BehaviorFault::PeriodSeconds) => not_positive(period_seconds),
            (BehaviorSpec::Square { amplitude, .. }, BehaviorFault::Amplitude) => not_positive(amplitude),
            (BehaviorSpec::Triangle { period_seconds, .. }, BehaviorFault::PeriodSeconds) => not_positive(period_seconds),
            (BehaviorSpec::Triangle { min, max, .. }, BehaviorFault::TriangleRange) => not_below(min, max),
            (BehaviorSpec::Uniform { min, max }, BehaviorFault::UniformRange) => not_below(min, max),
            (BehaviorSpec::Step { steps }, BehaviorFault::NoSteps) => steps@.len() == 0,
            (BehaviorSpec::Step { steps }, BehaviorFault::StepAt) => exists|i: int|
                0 <= i < steps@.len() && #[trigger] steps@[i].at.less(Real::zero_spec()),
            (BehaviorSpec::Cycle { dwell_seconds, .. }, BehaviorFault::DwellSeconds) => not_positive(dwell_seconds),
            (BehaviorSpec::Cycle { values, .. }, BehaviorFault::NoValues) => values@.len() == 0,
            _ => false,
        }
    }

    /// Whether every numeric constraint of the behavior holds.
    pub open spec fn sound(self) -> bool {
        forall|f: BehaviorFault| !#[trigger] self.breaks(f)
    }

    /// Whether `f` is the constraint the check reports: one the behavior
    /// breaks, with no broken constraint checked before it.
    pub open spec fn reports(self, f: BehaviorFault) -> bool {
        &&& self.breaks(f)
        &&& forall|g: BehaviorFault| check_rank(g) < check_rank(f) ==> !#[trigger] self.breaks(g)
    }

    /// Check the numeric constraints of the behavior.
    ///
    /// `Ok` exactly when every constraint holds; an `Err` names the first
    /// constraint broken in check order (see `check_rank`): the period
    /// before the amplitude or range, and the drift modifier last.
    #[verifier::loop_isolation(false)]
    pub fn validate(&self) -> (r: Result<(), BehaviorFault>)
        ensures
            r is Ok <==> self.sound(),
            r matches Err(f) ==> self.breaks(f) && self.reports(f),
    {
        let zero = Real::zero();
        match self {
            BehaviorSpec::Constant => {
                assert forall|f: BehaviorFault| !#[trigger] self.breaks(f) by {}
                Ok(())
            },
            BehaviorSpec::GaussianNoise { std_dev, drift } => {
                if std_dev.le(zero) {
                    assert(self.breaks(BehaviorFault::StdDev));
                    assert forall|g: BehaviorFault| check_rank(g) < check_rank(BehaviorFault::StdDev) implies !#[trigger] self.breaks(g) by {}
                    return Err(BehaviorFault::StdDev);
                }
                if let Some(d) = drift {
                    if d.bounds.1.le(d.bounds.0) {
                        assert(self.breaks(BehaviorFault::DriftBounds));
                        assert forall|g: BehaviorFault| check_rank(g) < check_rank(BehaviorFault::DriftBounds) implies !#[trigger] self.breaks(g) by {}
                        return Err(BehaviorFault::DriftBounds);
                    }
                }
                assert forall|f: BehaviorFault| !#[trigger] self.breaks(f) by {}
                Ok(())
            },
            BehaviorSpec::Sinusoidal { period_hours, amplitude, drift } => {
                if period_hours.le(zero) {
                    assert(self.breaks(BehaviorFault::PeriodHours));
                    assert forall|g: BehaviorFault| check_rank(g) < check_rank(BehaviorFault::PeriodHours) implies !#[trigger] self.breaks(g) by {}
                    return Err(BehaviorFault::PeriodHours);
                }
                if amplitude.le(zero) {
                    assert(self.breaks(BehaviorFault::Amplitude));
                    assert forall|g: BehaviorFault| check_rank(g) < check_rank(BehaviorFault::Amplitude) implies !#[trigger] self.breaks(g) by {}
                    return Err(BehaviorFault::Amplitude);
                }
                if let Some(d) = drift {
                    if d.bounds.1.le(d.bounds.0) {
                        assert(self.breaks(BehaviorFault::DriftBounds));
                        assert forall|g: BehaviorFault| check_rank(g) < check_rank(BehaviorFault::DriftBounds) implies !#[trigger] self.breaks(g) by {}
                        return Err(BehaviorFault::DriftBounds);
                    }
                }
                assert forall|f: BehaviorFault| !#[trigger] self.breaks(f) by {}
                Ok(())
            },
            BehaviorSpec::Drift { bounds, .. } => {
                if bounds.1.le(bounds.0) {
                    assert(self.breaks(BehaviorFault::DriftBounds));
                    assert forall|g: BehaviorFault| check_rank(g) < check_rank(BehaviorFault::DriftBounds) implies !#[trigger] self.breaks(g) by {}
                    return Err(BehaviorFault::DriftBounds);
                }
                assert forall|f: BehaviorFault| !#[trigger] self.breaks(f) by {}
                Ok(())
            },
            BehaviorSpec::Sawtooth { period_seconds, min, max } => {
                if period_seconds.le(zero) {
                    assert(self.breaks(BehaviorFault::PeriodSeconds));
                    assert forall|g: BehaviorFault| check_rank(g) < check_rank(BehaviorFault::PeriodSeconds) implies !#[trigger] self.breaks(g) by {}
                    return Err(BehaviorFault::PeriodSeconds);
                }
                if max.le(*min) {
                    assert(self.breaks(BehaviorFault::SawtoothRange));
                    assert forall|g: BehaviorFault| check_rank(g) < check_rank(BehaviorFault::SawtoothRange) implies !#[trigger] self.breaks(g) by {}
                    return Err(BehaviorFault::SawtoothRange);
                }
                assert forall|f: BehaviorFault| !#[trigger] self.breaks(f) by {}
                Ok(())
            },
            BehaviorSpec::Square { period_seconds, amplitude } => {
                if period_seconds.le(zero) {
                    assert(self.breaks(BehaviorFault::PeriodSeconds));
                    assert forall|g: BehaviorFault| check_rank(g) < check_rank(BehaviorFault::PeriodSeconds) implies !#[trigger] self.breaks(g) by {}
                    return Err(BehaviorFault::PeriodSeconds);
                }
                if amplitude.le(zero) {
                    assert(self.breaks(BehaviorFault::Amplitude));
                    assert forall|g: BehaviorFault| check_rank(g) < check_rank(BehaviorFault::Amplitude) implies !#[trigger] self.breaks(g) by {}
                    return Err(BehaviorFault::Amplitude);
                }
                assert forall|f: BehaviorFault| !#[trigger] self.breaks(f) by {}
                Ok(())
            },
            BehaviorSpec::Triangle { period_seconds, min, max } => {
                if period_seconds.le(zero) {
                    assert(self.breaks(BehaviorFault::PeriodSeconds));
                    assert forall|g: BehaviorFault| check_rank(g) < check_rank(BehaviorFault::PeriodSeconds) implies !#[trigger] self.breaks(g) by {}
                    return Err(BehaviorFault::PeriodSeconds);
                }
                if max.le(*min) {
                    assert(self.breaks(BehaviorFault::TriangleRange));
                    assert forall|g: BehaviorFault| check_rank(g) < check_rank(BehaviorFault::TriangleRange) implies !#[trigger] self.breaks(g) by {}
                    return Err(BehaviorFault::TriangleRange);
                }
                assert forall|f: BehaviorFault| !#[trigger] self.breaks(f) by {}
                Ok(())
            },
            BehaviorSpec::Uniform { min, max } => {
                if max.le(*min) {
                    assert(self.breaks(BehaviorFault::UniformRange));
                    assert forall|g: BehaviorFault| check_rank(g) < check_rank(BehaviorFault::UniformRange) implies !#[trigger] self.breaks(g) by {}
                    return Err(BehaviorFault::UniformRange);
                }
                assert forall|f: BehaviorFault| !#[trigger] self.breaks(f) by {}
                Ok(())
            },
            BehaviorSpec::Step { steps } => {
                if steps.len() == 0 {
                    assert(self.breaks(BehaviorFault::NoSteps));
                    assert forall|g: BehaviorFault| check_rank(g) < check_rank(BehaviorFault::NoSteps) implies !#[trigger] self.breaks(g) by {}
                    return Err(BehaviorFault::NoSteps);
                }
                let mut i: usize = 0;
                while i < steps.len()
                    invariant
                        0 <= i <= steps@.len(),
                        zero == Real::zero_spec(),
                        forall|j: int| 0 <= j < i ==> !(#[trigger] steps@[j].at.less(Real::zero_spec())),
                    decreases steps@.len() - i,
                {
                    if steps[i].at.lt(zero) {
                        assert(steps@[i as int].at.less(Real::zero_spec()));
                        assert(self.breaks(BehaviorFault::StepAt));
                        assert forall|g: BehaviorFault| check_rank(g) < check_rank(BehaviorFault::StepAt) implies !#[trigger] self.breaks(g) by {}
                        return Err(BehaviorFault::StepAt);
                    }
                    i = i + 1;
                }
                assert forall|f: BehaviorFault| !#[trigger] self.breaks(f) by {}
                Ok(())
            },
            BehaviorSpec::Cycle { dwell_seconds, values } => {
                if dwell_seconds.le(zero) {
                    assert(self.breaks(BehaviorFault::DwellSeconds));
                    assert forall|g: BehaviorFault| check_rank(g) < check_rank(BehaviorFault::DwellSeconds) implies !#[trigger] self.breaks(g) by {}
                    return Err(BehaviorFault::DwellSeconds);
                }
                if values.len() == 0 {
                    assert(self.breaks(BehaviorFault::NoValues));
                    assert forall|g: BehaviorFault| check_rank(g) < check_rank(BehaviorFault::NoValues) implies !#[trigger] self.breaks(g) by {}
                    return Err(BehaviorFault::NoValues);
                }
                assert forall|f: BehaviorFault| !#[trigger] self.breaks(f) by {}
                Ok(())
            },
        }
    }

    /// Short behavior name.
    pub open spec fn name(self) -> Seq<char> {
        match self {
            BehaviorSpec::Constant => "constant"@,
            BehaviorSpec::GaussianNoise { .. } => "gaussian_noise"@,
            BehaviorSpec::Sinusoidal { .. } => "sinusoidal"@,
            BehaviorSpec::Drift { .. } => "drift"@,
            BehaviorSpec::Sawtooth { .. } => "sawtooth"@,
            BehaviorSpec::Square { .. } => "square"@,
            BehaviorSpec::Triangle { .. } => "triangle"@,
            BehaviorSpec::Uniform { .. } => "uniform"@,
            BehaviorSpec::Step { .. } => "step"@,
            BehaviorSpec::Cycle { .. } => "cycle"@,
        }
    }

    /// Short behavior name used in `/config` and `simbus check`.
    pub fn kind_name(&self) -> (s: &'static str)
        ensures
            s@ == self.name(),
    {
        match self {
            BehaviorSpec::Constant => "constant",
            BehaviorSpec::GaussianNoise { .. } => "gaussian_noise",
            BehaviorSpec::Sinusoidal { .. } => "sinusoidal",
            BehaviorSpec::Drift { .. } => "drift",
            BehaviorSpec::Sawtooth { .. } => "sawtooth",
            BehaviorSpec::Square { .. } => "square",
            BehaviorSpec::Triangle { .. } => "triangle",
            BehaviorSpec::Uniform { .. } => "uniform",
            BehaviorSpec::Step { .. } => "step",
            BehaviorSpec::Cycle { .. } => "cycle",
        }
    }
}

/// The numeric rules of the behaviors. A behavior is sound exactly when:
/// gaussian noise has `std_dev > 0`; a sine wave has `period_hours > 0`
/// and `amplitude > 0`; a square wave has `period_seconds > 0` and
/// `amplitude > 0`; a sawtooth or triangle wave has `period_seconds > 0`
/// and `min < max`; a drift has `bounds[0] < bounds[1]`; a uniform
/// behavior has `min < max`; a step list is non-empty with no step before
/// time zero; a cycle has `dwell_seconds > 0` and at least one value; and
/// a drift modifier, enabled or not, has `bounds[0] < bounds[1]`. Each
/// `x > 0` means that IEEE-754 `x <= 0` fails, and `a < b` that `b <= a`
/// fails (so a NaN passes, as in the original comparisons).
pub proof fn lemma_behavior_rules(b: BehaviorSpec)
    ensures
        b.sound() <==> match b {
            BehaviorSpec::Constant => true,
            BehaviorSpec::GaussianNoise { std_dev, drift } => !std_dev.at_most(Real::zero_spec()) && !(
            drift matches Some(d) && d.bounds.1.at_most(d.bounds.0)),
            BehaviorSpec::Sinusoidal { period_hours, amplitude, drift } => !period_hours.at_most(Real::zero_spec())
                && !amplitude.at_most(Real::zero_spec()) && !(drift matches Some(d) && d.bounds.1.at_most(
                d.bounds.0,
            )),
            BehaviorSpec::Drift { bounds, .. } => !bounds.1.at_most(bounds.0),
            BehaviorSpec::Sawtooth { period_seconds, min, max } => !period_seconds.at_most(Real::zero_spec())
                && !max.at_most(min),
            BehaviorSpec::Square { period_seconds, amplitude } => !period_seconds.at_most(Real::zero_spec())
                && !amplitude.at_most(Real::zero_spec()),
            BehaviorSpec::Triangle { period_seconds, min, max } => !period_seconds.at_most(Real::zero_spec())
                && !max.at_most(min),
            BehaviorSpec::Uniform { min, max } => !max.at_most(min),
            BehaviorSpec::Step { steps } => steps@.len() > 0 && forall|i: int|
                0 <= i < steps@.len() ==> !(#[trigger] steps@[i]).at.less(Real::zero_spec()),
            BehaviorSpec::Cycle { dwell_seconds, values } => !dwell_seconds.at_most(Real::zero_spec())
                && values@.len() > 0,
        },
{
    if b.sound() {
        assert(!b.breaks(BehaviorFault::StdDev));
        assert(!b.breaks(BehaviorFault::PeriodHours));
        assert(!b.breaks(BehaviorFault::Amplitude));
        assert(!b.breaks(BehaviorFault::DriftBounds));
        assert(!b.breaks(BehaviorFault::PeriodSeconds));
        assert(!b.breaks(BehaviorFault::SawtoothRange));
        assert(!b.breaks(BehaviorFault::TriangleRange));
        assert(!b.breaks(BehaviorFault::UniformRange));
        assert(!b.breaks(BehaviorFault::NoSteps));
        assert(!b.breaks(BehaviorFault::StepAt));
        assert(!b.breaks(BehaviorFault::DwellSeconds));
        assert(!b.breaks(BehaviorFault::NoValues));
    }
}

} // verus!
