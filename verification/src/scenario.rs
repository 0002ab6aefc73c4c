//! Scenario documents: timed sequences of steps bundled with a device.

use vstd::prelude::*;

use crate::ieee::Real;
use crate::types::FaultType;

verus! {

/// Analog vs binary literal for `set_point`.
#[derive(Debug, Clone, Copy, PartialEq, Eq, Structural)]
pub enum PointLiteral {
    /// Boolean.
    Bool(bool),
    /// Signed integer (YAML `50`).
    Int(i64),
    /// Real.
    Float(Real),
}

impl PointLiteral {
    /// Whether the literal can be read as an analog value.
    pub open spec fn is_analog(self) -> bool {
        !(self is Bool)
    }

    /// The binary value the literal stands for, if any.
    pub open spec fn binary(self) -> Option<bool> {
        match self {
            PointLiteral::Bool(v) => Some(v),
            PointLiteral::Int(0) => Some(false),
            PointLiteral::Int(1) => Some(true),
            _ => None,
        }
    }

    /// Whether the literal can be read as an analog value (`Int` or `Float`).
    pub fn has_analog(&self) -> (b: bool)
        ensures
            b == self.is_analog(),
    {
        !matches!(self, PointLiteral::Bool(_))
    }

    /// Binary value: a boolean, or the integers 0 and 1.
    pub fn as_bool(&self) -> (r: Option<bool>)
        ensures
            r == self.binary(),
    {
        match *self {
            PointLiteral::Bool(v) => Some(v),
            PointLiteral::Int(0) => Some(false),
            PointLiteral::Int(1) => Some(true),
            _ => None,
        }
    }
}

/// Set a point by id (language 2).
#[derive(Debug, Clone, PartialEq)]
pub struct SetPointStep {
    /// Seconds from scenario start.
    pub at: Real,
    /// Point id.
    pub point: String,
    /// Engineering or boolean value.
    pub value: PointLiteral,
}

/// Write a register by name and shift its operating point.
#[derive(Debug, Clone, PartialEq)]
pub struct SetRegisterStep {
    /// Seconds from scenario start.
    pub at: Real,
    /// Register name.
    pub register_name: String,
    /// Real-world value.
    pub value: Real,
    /// Target space (`holding` or `input`).
    pub register_type: String,
}

/// Inject a TTL fault.
#[derive(Debug, Clone, PartialEq)]
pub struct InjectFaultStep {
    /// Seconds from scenario start.
    pub at: Real,
    /// Fault kind.
    pub fault_type: FaultType,
    /// Target register, coil, or point id.
    pub register_name: Option<String>,
    /// Spike target or noise factor.
    pub value: Option<Real>,
    /// Duration in seconds.
    pub duration_s: Real,
}

/// Force a coil or discrete input.
#[derive(Debug, Clone, PartialEq)]
pub struct SetCoilStep {
    /// Seconds from scenario start.
    pub at: Real,
    /// Coil or discrete name.
    pub coil: String,
    /// Target state.
    pub value: bool,
}

/// Change tick interval mid-scenario.
#[derive(Debug, Clone, PartialEq)]
pub struct SetTickIntervalStep {
    /// Seconds from scenario start.
    pub at: Real,
    /// New tick interval.
    pub tick_interval: Real,
}

/// A single timed scenario action.
#[derive(Debug, Clone, PartialEq)]
pub enum ScenarioStep {
    /// Write a register and shift `state.base`.
    SetRegister(SetRegisterStep),
    /// Write a canonical point (language 2).
    SetPoint(SetPointStep),
    /// Inject a fault.
    InjectFault(InjectFaultStep),
    /// Write a coil or discrete.
    SetCoil(SetCoilStep),
    /// Update tick interval.
    SetTickInterval(SetTickIntervalStep),
}

/// What makes a scenario's steps unusable on any device.
#[derive(Debug, Clone, Copy, PartialEq, Eq, Structural)]
pub enum StepFault {
    /// The step list is empty.
    NoSteps,
    /// A step is scheduled before time zero.
    NegativeAt,
    /// An `inject_fault` lasts zero seconds or less.
    Duration,
    /// A `set_tick_interval` is zero or less.
    TickInterval,
    /// A `set_register` names a space other than `holding` or `input`.
    RegisterType,
}

impl ScenarioStep {
    /// Scheduled time in seconds.
    pub open spec fn at_spec(self) -> Real {
        match self {
            ScenarioStep::SetRegister(s) => s.at,
            ScenarioStep::SetPoint(s) => s.at,
            ScenarioStep::InjectFault(s) => s.at,
            ScenarioStep::SetCoil(s) => s.at,
            ScenarioStep::SetTickInterval(s) => s.at,
        }
    }

    /// Scheduled time in seconds.
    pub fn at(&self) -> (r: Real)
        ensures
            r == self.at_spec(),
    {
        match self {
            ScenarioStep::SetRegister(s) => s.at,
            ScenarioStep::SetPoint(s) => s.at,
            ScenarioStep::InjectFault(s) => s.at,
            ScenarioStep::SetCoil(s) => s.at,
            ScenarioStep::SetTickInterval(s) => s.at,
        }
    }

    /// Whether the step has a given fault on its own (independent of order).
    pub open spec fn has_fault(self, f: StepFault) -> bool {
        match f {
            StepFault::NegativeAt => self.at_spec().less(Real::zero_spec()),
            StepFault::Duration => self matches ScenarioStep::InjectFault(s)
                && s.duration_s.at_most(Real::zero_spec()),
            StepFault::TickInterval => self matches ScenarioStep::SetTickInterval(s)
                && s.tick_interval.at_most(Real::zero_spec()),
            StepFault::RegisterType => self matches ScenarioStep::SetRegister(s)
                && s.register_type@ != "holding"@ && s.register_type@ != "input"@,
            StepFault::NoSteps => false,
        }
    }

    /// Whether `f` is the fault the step check reports for this step: a
    /// negative `at` first, then the rule of the step's kind.
    pub open spec fn first_fault(self, f: StepFault) -> bool {
        if self.has_fault(StepFault::NegativeAt) {
            f == StepFault::NegativeAt
        } else {
            f != StepFault::NegativeAt && self.has_fault(f)
        }
    }
}

/// Timed event sequence.
#[derive(Debug, Clone, PartialEq)]
pub struct ScenarioSpec {
    /// Stable id used to run the scenario (`heat-wave`). Required when the
    /// scenario is embedded in a device document.
    pub id: String,
    /// Display name.
    pub name: String,
    /// Description.
    pub description: String,
    /// Steps (any order; the player sorts by `at`).
    pub steps: Vec<ScenarioStep>,
}

/// Whether a character is an ASCII lowercase letter.
pub open spec fn is_lower(c: char) -> bool {
    97 <= (c as int) <= 122
}

/// Whether a character is an ASCII digit.
pub open spec fn is_digit(c: char) -> bool {
    48 <= (c as int) <= 57
}

/// Lowercase kebab-case: a lowercase letter, then lowercase letters,
/// digits, and `-`.
pub open spec fn kebab(s: Seq<char>) -> bool {
    &&& s.len() > 0
    &&& is_lower(s[0])
    &&& forall|i: int| 1 <= i < s.len() ==> is_lower(#[trigger] s[i]) || is_digit(s[i]) || s[i] == '-'
}

/// Whether an id is lowercase kebab-case.
pub fn scenario_id_ok(id: &str) -> (b: bool)
    ensures
        b == kebab(id@),
{
    if !id.is_ascii() {
        proof {
            if kebab(id@) {
                assert(vstd::utf8::is_ascii_chars(id@));
            }
        }
        return false;
    }
    let bytes = id.as_bytes();
    let n = bytes.len();
    proof {
        vstd::string::is_ascii_spec_bytes(id);
        assert(n == id@.len());
        assert forall|k: int| 0 <= k < n implies #[trigger] bytes@[k] == id@[k] as u8 by {}
    }
    if n == 0 {
        return false;
    }
    let first = bytes[0];
    if !(97u8 <= first && first <= 122u8) {
        proof {
            vstd::utf8::is_ascii_chars_nat_bound(id@);
        }
        return false;
    }
    let mut i: usize = 1;
    while i < n
        invariant
            1 <= i <= n,
            n == id@.len(),
            bytes@.len() == n,
            forall|k: int| 0 <= k < n ==> #[trigger] bytes@[k] == id@[k] as u8,
            vstd::utf8::is_ascii_chars(id@),
            is_lower(id@[0]),
            forall|j: int| 1 <= j < i ==> is_lower(#[trigger] id@[j]) || is_digit(id@[j]) || id@[j] == '-',
        decreases n - i,
    {
        let b = bytes[i];
        proof {
            vstd::utf8::is_ascii_chars_nat_bound(id@);
            assert(b == id@[i as int] as u8);
        }
        if !((97u8 <= b && b <= 122u8) || (48u8 <= b && b <= 57u8) || b == 45u8) {
            return false;
        }
        i = i + 1;
    }
    true
}

impl ScenarioSpec {
    /// The steps, as a sequence.
    pub open spec fn step_seq(self) -> Seq<ScenarioStep> {
        self.steps@
    }

    /// Whether the steps are usable on some device: there is at least one,
    /// and no step has a fault of its own.
    pub open spec fn steps_ok(self) -> bool {
        &&& self.steps@.len() > 0
        &&& forall|i: int, f: StepFault| 0 <= i < self.steps@.len() ==> !#[trigger] self.steps@[i].has_fault(f)
    }

    /// Whether a fault is present in this scenario's steps.
    pub open spec fn shows(self, f: StepFault) -> bool {
        match f {
            StepFault::NoSteps => self.steps@.len() == 0,
            _ => exists|i: int| 0 <= i < self.steps@.len() && #[trigger] self.steps@[i].has_fault(f),
        }
    }

    /// Whether `f` is what the step check reports: no steps at all, or
    /// the first fault of the first step (in document order) that has one.
    pub open spec fn reports(self, f: StepFault) -> bool {
        if self.steps@.len() == 0 {
            f == StepFault::NoSteps
        } else {
            exists|i: int|
                0 <= i < self.steps@.len() && (forall|j: int, g: StepFault|
                    0 <= j < i ==> !#[trigger] self.steps@[j].has_fault(g)) && #[trigger] self.steps@[i].first_fault(f)
        }
    }

    /// Validate step constraints.
    ///
    /// `Ok` exactly when the steps are usable; an `Err` names the first
    /// fault in document order (see `reports`).
    pub fn validate(&self) -> (r: Result<(), StepFault>)
        ensures
            r is Ok <==> self.steps_ok(),
            r matches Err(f) ==> self.shows(f) && self.reports(f),
    {
        if self.steps.len() == 0 {
            return Err(StepFault::NoSteps);
        }
        let zero = Real::zero();
        let mut i: usize = 0;
        while i < self.steps.len()
            invariant
                0 <= i <= self.steps@.len(),
                zero == Real::zero_spec(),
                forall|j: int, f: StepFault| 0 <= j < i ==> !#[trigger] self.steps@[j].has_fault(f),
            decreases self.steps@.len() - i,
        {
            let step = &self.steps[i];
            if step.at().lt(zero) {
                assert(self.steps@[i as int].has_fault(StepFault::NegativeAt));
                assert(self.steps@[i as int].first_fault(StepFault::NegativeAt));
                return Err(StepFault::NegativeAt);
            }
            match step {
                ScenarioStep::InjectFault(s) => {
                    if s.duration_s.le(zero) {
                        assert(self.steps@[i as int].has_fault(StepFault::Duration));
                        assert(self.steps@[i as int].first_fault(StepFault::Duration));
                assert(self.steps@[i as int].first_fault(StepFault::Duration));
                        return Err(StepFault::Duration);
                    }
                },
                ScenarioStep::SetTickInterval(s) => {
                    if s.tick_interval.le(zero) {
                        assert(self.steps@[i as int].has_fault(StepFault::TickInterval));
                        assert(self.steps@[i as int].first_fault(StepFault::TickInterval));
                assert(self.steps@[i as int].first_fault(StepFault::TickInterval));
                        return Err(StepFault::TickInterval);
                    }
                },
                ScenarioStep::SetRegister(s) => {
                    if !crate::text::str_eq(s.register_type.as_str(), "holding")
                        && !crate::text::str_eq(s.register_type.as_str(), "input") {
                        assert(self.steps@[i as int].has_fault(StepFault::RegisterType));
                        assert(self.steps@[i as int].first_fault(StepFault::RegisterType));
                assert(self.steps@[i as int].first_fault(StepFault::RegisterType));
                        return Err(StepFault::RegisterType);
                    }
                },
                _ => {},
            }
            assert forall|f: StepFault| !#[trigger] self.steps@[i as int].has_fault(f) by {}
            i = i + 1;
        }
        Ok(())
    }

    /// Id used to run this scenario (`id`, or `name` when `id` is empty).
    pub fn run_id(&self) -> (r: &str)
        ensures
            r@ == if self.id@.len() == 0 {
                self.name@
            } else {
                self.id@
            },
    {
        if self.id.as_str().is_empty() {
            self.name.as_str()
        } else {
            self.id.as_str()
        }
    }
}

/// Default `register_type` of a `set_register` step.
pub fn default_holding() -> (s: String)
    ensures
        s@ == "holding"@,
{
    crate::text::string_of("holding")
}

/// Default `duration_s` of an `inject_fault` step: 30 seconds.
pub fn default_duration() -> (d: Real)
    ensures
        d.bits == 0x403E_0000_0000_0000,
{
    Real::from_bits(0x403E_0000_0000_0000)
}

/// The rules a scenario's steps must meet. A scenario is usable exactly
/// when it has a step and every step is scheduled at time zero or later
/// (IEEE-754 `at < 0` fails), every `inject_fault` step lasts a positive
/// time, every `set_tick_interval` step sets a positive interval, and
/// every `set_register` step names the `holding` or the `input` table.
pub proof fn lemma_step_rules(sc: ScenarioSpec)
    ensures
        sc.steps_ok() <==> sc.steps@.len() > 0 && forall|i: int|
            0 <= i < sc.steps@.len() ==> {
                let st = #[trigger] sc.steps@[i];
                &&& !st.at_spec().less(Real::zero_spec())
                &&& st matches ScenarioStep::InjectFault(f) ==> !f.duration_s.at_most(Real::zero_spec())
                &&& st matches ScenarioStep::SetTickInterval(t) ==> !t.tick_interval.at_most(Real::zero_spec())
                &&& st matches ScenarioStep::SetRegister(r) ==> (r.register_type@ == "holding"@ || r.register_type@
                    == "input"@)
            },
{
    if sc.steps_ok() {
        assert forall|i: int| 0 <= i < sc.steps@.len() implies {
            let st = #[trigger] sc.steps@[i];
            &&& !st.at_spec().less(Real::zero_spec())
            &&& st matches ScenarioStep::InjectFault(f) ==> !f.duration_s.at_most(Real::zero_spec())
            &&& st matches ScenarioStep::SetTickInterval(t) ==> !t.tick_interval.at_most(Real::zero_spec())
            &&& st matches ScenarioStep::SetRegister(r) ==> (r.register_type@ == "holding"@ || r.register_type@
                == "input"@)
        } by {
            assert(!sc.steps@[i].has_fault(StepFault::NegativeAt));
            assert(!sc.steps@[i].has_fault(StepFault::Duration));
            assert(!sc.steps@[i].has_fault(StepFault::TickInterval));
            assert(!sc.steps@[i].has_fault(StepFault::RegisterType));
        }
    }
}

/// A scenario id is lowercase kebab-case exactly when it is non-empty,
/// starts with a letter `a`..`z`, and goes on with letters `a`..`z`,
/// digits `0`..`9` and hyphens only.
pub proof fn lemma_kebab_rule(id: Seq<char>)
    ensures
        kebab(id) <==> id.len() > 0 && ('a' as int) <= (id[0] as int) <= ('z' as int) && forall|i: int|
            1 <= i < id.len() ==> (('a' as int) <= (#[trigger] id[i] as int) <= ('z' as int)) || (('0' as int) <= (
            id[i] as int) <= ('9' as int)) || id[i] == '-',
{
}

} // verus!
