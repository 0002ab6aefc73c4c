//! The text shown for each violation of the device language.

use vstd::prelude::*;

use crate::behavior::BehaviorFault;
use crate::scenario::StepFault;
use crate::text::{decimal, push_decimal, push_str};
use crate::types::RegisterSpace;
use crate::validate::{Context, Invalid};

verus! {

/// `a ++ b ++ c`.
fn join3(a: &str, b: &str, c: &str) -> (s: String)
    ensures
        s@ == a@ + b@ + c@,
{
    let mut s = String::new();
    push_str(&mut s, a);
    push_str(&mut s, b);
    push_str(&mut s, c);
    assert(s@ =~= a@ + b@ + c@);
    s
}

/// `a ++ b ++ c ++ d ++ e`.
fn join5(a: &str, b: &str, c: &str, d: &str, e: &str) -> (s: String)
    ensures
        s@ == a@ + b@ + c@ + d@ + e@,
{
    let mut s = String::new();
    push_str(&mut s, a);
    push_str(&mut s, b);
    push_str(&mut s, c);
    push_str(&mut s, d);
    push_str(&mut s, e);
    assert(s@ =~= a@ + b@ + c@ + d@ + e@);
    s
}

/// `a ++ decimal(n) ++ b`.
fn with_number(a: &str, n: u64, b: &str) -> (s: String)
    ensures
        s@ == a@ + decimal(n as nat) + b@,
{
    let mut s = String::new();
    push_str(&mut s, a);
    push_decimal(&mut s, n);
    push_str(&mut s, b);
    assert(s@ =~= a@ + decimal(n as nat) + b@);
    s
}

/// YAML name of a register space.
pub open spec fn space_text(s: RegisterSpace) -> Seq<char> {
    match s {
        RegisterSpace::Holding => "holding"@,
        RegisterSpace::Input => "input"@,
    }
}

fn space_str(s: RegisterSpace) -> (r: &'static str)
    ensures
        r@ == space_text(s),
{
    match s {
        RegisterSpace::Holding => "holding",
        RegisterSpace::Input => "input",
    }
}

/// Text of a broken behavior constraint.
pub open spec fn behavior_text(f: BehaviorFault) -> Seq<char> {
    match f {
        BehaviorFault::StdDev => "std_dev must be > 0"@,
        BehaviorFault::PeriodHours => "period_hours must be > 0"@,
        BehaviorFault::Amplitude => "amplitude must be > 0"@,
        BehaviorFault::DriftBounds => "drift bounds[0] must be less than bounds[1]"@,
        BehaviorFault::PeriodSeconds => "period_seconds must be > 0"@,
        BehaviorFault::SawtoothRange => "sawtooth min must be less than max"@,
        BehaviorFault::TriangleRange => "triangle min must be less than max"@,
        BehaviorFault::UniformRange => "uniform min must be less than max"@,
        BehaviorFault::NoSteps => "step behavior needs at least one step"@,
        BehaviorFault::StepAt => "step.at must be >= 0"@,
        BehaviorFault::DwellSeconds => "dwell_seconds must be > 0"@,
        BehaviorFault::NoValues => "cycle behavior needs at least one value"@,
    }
}

fn behavior_str(f: BehaviorFault) -> (r: &'static str)
    ensures
        r@ == behavior_text(f),
{
    match f {
        BehaviorFault::StdDev => "std_dev must be > 0",
        BehaviorFault::PeriodHours => "period_hours must be > 0",
        BehaviorFault::Amplitude => "amplitude must be > 0",
        BehaviorFault::DriftBounds => "drift bounds[0] must be less than bounds[1]",
        BehaviorFault::PeriodSeconds => "period_seconds must be > 0",
        BehaviorFault::SawtoothRange => "sawtooth min must be less than max",
        BehaviorFault::TriangleRange => "triangle min must be less than max",
        BehaviorFault::UniformRange => "uniform min must be less than max",
        BehaviorFault::NoSteps => "step behavior needs at least one step",
        BehaviorFault::StepAt => "step.at must be >= 0",
        BehaviorFault::DwellSeconds => "dwell_seconds must be > 0",
        BehaviorFault::NoValues => "cycle behavior needs at least one value",
    }
}

/// Text of a broken step rule.
pub open spec fn step_text(f: StepFault) -> Seq<char> {
    match f {
        StepFault::NoSteps => "scenario needs at least one step"@,
        StepFault::NegativeAt => "step.at must be >= 0"@,
        StepFault::Duration => "inject_fault duration_s must be > 0"@,
        StepFault::TickInterval => "tick_interval must be > 0"@,
        StepFault::RegisterType => "register_type must be 'holding' or 'input'"@,
    }
}

fn step_str(f: StepFault) -> (r: &'static str)
    ensures
        r@ == step_text(f),
{
    match f {
        StepFault::NoSteps => "scenario needs at least one step",
        StepFault::NegativeAt => "step.at must be >= 0",
        StepFault::Duration => "inject_fault duration_s must be > 0",
        StepFault::TickInterval => "tick_interval must be > 0",
        StepFault::RegisterType => "register_type must be 'holding' or 'input'",
    }
}

/// Context prefix of a behavior error.
pub open spec fn context_text(c: Context) -> Seq<char> {
    match c {
        Context::Register(n) => "register '"@ + n@ + "'"@,
        Context::Point(n) => "point '"@ + n@ + "'"@,
    }
}

/// The supported-version tail of a version error.
pub open spec fn version_tail() -> Seq<char> {
    " is not supported (this runtime understands 1\u{2013}2)"@
}

impl Invalid {
    /// The text shown for this violation.
    pub open spec fn text(self) -> Seq<char> {
        match self {
            Invalid::SpecVersion(v) => "spec_version "@ + decimal(v as nat) + version_tail(),
            Invalid::UnitId => "modbus.unit_id must be between 1 and 247"@,
            Invalid::DefaultPort => "modbus.default_port must be >= 1"@,
            Invalid::DuplicateRegisterName(n) => "duplicate register name '"@ + n@ + "'"@,
            Invalid::RegisterScale(n) => "register '"@ + n@ + "': scale must be >= 1"@,
            Invalid::Behavior(c, f) => context_text(c) + ": "@ + behavior_text(f),
            Invalid::AddressOverlap(s, a) => space_text(s) + " address "@ + decimal(a as nat)
                + " overlaps another register"@,
            Invalid::DuplicateCoilName(n) => "duplicate coil/discrete name '"@ + n@ + "'"@,
            Invalid::UnknownTriggerRegister(c, r) => "coil '"@ + c@ + "': trigger references unknown register '"@
                + r@ + "'"@,
            Invalid::UnknownAlarmCoil(a, t) => "alarm '"@ + a@ + "': references unknown coil '"@ + t@ + "'"@,
            Invalid::NoPoints => "language 2: points must not be empty"@,
            Invalid::EmptyPointId => "point id must not be empty"@,
            Invalid::DuplicatePointId(n) => "duplicate point id '"@ + n@ + "'"@,
            Invalid::AnalogTrigger(n) => "point '"@ + n@ + "': analog points cannot have trigger"@,
            Invalid::BinarySimulation(n) => "point '"@ + n@ + "': binary points cannot have simulation"@,
            Invalid::UnknownTriggerPoint(n, s) => "point '"@ + n@ + "': trigger references unknown point '"@ + s@
                + "'"@,
            Invalid::TriggerNotAnalog(n, s) => "point '"@ + n@ + "': trigger source '"@ + s@ + "' must be analog"@,
            Invalid::EmptyModbusExport => "language 2: modbus bindings require a non-empty export"@,
            Invalid::EmptyOpcuaExport => "language 2: opcua bindings require a non-empty export"@,
            Invalid::UnknownOpcuaExport(id) => "opcua export '"@ + id@ + "' is not a point"@,
            Invalid::EmptyBacnetExport => "language 2: bacnet-ip bindings require a non-empty export"@,
            Invalid::UnknownBacnetExport(id) => "bacnet export '"@ + id@ + "' is not a point"@,
            Invalid::DuplicateBacnetObject(id, o, i) => "bacnet export '"@ + id@ + "': duplicate "@ + o.wire_name()
                + " instance "@ + decimal(i as nat),
            Invalid::UnknownModbusExport(id) => "modbus export '"@ + id@ + "' is not a point"@,
            Invalid::ExportScale(id) => "modbus export '"@ + id@ + "': scale must be >= 1"@,
            Invalid::ExportSpace(id, k, s) => "modbus export '"@ + id@ + "': "@ + k.wire_name()
                + " point cannot use space "@ + s.wire_name(),
            Invalid::ExportOverlap(s, a) => "modbus "@ + s.wire_name() + " address "@ + decimal(a as nat)
                + " overlaps another export"@,
            Invalid::DuplicateScenarioId(id) => "duplicate scenario id '"@ + id@ + "'"@,
            Invalid::MissingScenarioId(n) => "scenario '"@ + n@ + "': embedded scenarios must set id"@,
            Invalid::ScenarioIdFormat(n, id) => "scenario '"@ + n@ + "': id must be lowercase kebab-case (got '"@
                + id@ + "')"@,
            Invalid::Steps(f) => step_text(f),
            Invalid::SetRegisterNotFound(c, r, t) => "scenario '"@ + c@ + "': set_register '"@ + r@
                + "' not found in "@ + t@,
            Invalid::SetPointNotFound(c, p) => "scenario '"@ + c@ + "': set_point '"@ + p@ + "' not found"@,
            Invalid::SetPointNeedsNumber(c, p) => "scenario '"@ + c@ + "': set_point '"@ + p@
                + "' needs a numeric value"@,
            Invalid::SetPointNeedsBool(c, p) => "scenario '"@ + c@ + "': set_point '"@ + p@
                + "' needs a boolean value"@,
            Invalid::SetCoilNotFound(c, k) => "scenario '"@ + c@ + "': set_coil '"@ + k@ + "' not found"@,
            Invalid::FaultNeedsTarget(c) => "scenario '"@ + c@ + "': inject_fault requires register_name"@,
            Invalid::AlarmTargetNotBinary(c, t) => "scenario '"@ + c@ + "': inject_fault alarm target '"@ + t@
                + "' is not a binary point"@,
            Invalid::FaultTargetNotAnalog(c, t) => "scenario '"@ + c@ + "': inject_fault target '"@ + t@
                + "' is not an analog point"@,
            Invalid::MixedRegisters => "language 2: do not mix registers: with points: (use export on bindings)"@,
            Invalid::AnalogDefault(id) => "point '"@ + id@ + "': analog default must be a number"@,
            Invalid::BinaryDefault(id) => "point '"@ + id@ + "': binary default must be a boolean"@,
        }
    }

    /// The text shown for this violation.
    pub fn message(&self) -> (s: String)
        ensures
            s@ == self.text(),
    {
        match self {
            Invalid::SpecVersion(v) => with_number(
                "spec_version ",
                *v,
                " is not supported (this runtime understands 1\u{2013}2)",
            ),
            Invalid::UnitId => crate::text::string_of("modbus.unit_id must be between 1 and 247"),
            Invalid::DefaultPort => crate::text::string_of("modbus.default_port must be >= 1"),
            Invalid::DuplicateRegisterName(n) => join3("duplicate register name '", n.as_str(), "'"),
            Invalid::RegisterScale(n) => join3("register '", n.as_str(), "': scale must be >= 1"),
            Invalid::Behavior(c, f) => {
                let mut s = match c {
                    Context::Register(n) => join3("register '", n.as_str(), "'"),
                    Context::Point(n) => join3("point '", n.as_str(), "'"),
                };
                let ghost head = s@;
                push_str(&mut s, ": ");
                push_str(&mut s, behavior_str(*f));
                assert(s@ =~= head + ": "@ + behavior_text(*f));
                s
            },
            Invalid::AddressOverlap(sp, a) => {
                let mut s = crate::text::string_of(space_str(*sp));
                let ghost head = s@;
                let tail = with_number(" address ", *a as u64, " overlaps another register");
                push_str(&mut s, tail.as_str());
                assert(s@ =~= head + " address "@ + decimal(*a as nat) + " overlaps another register"@);
                s
            },
            Invalid::DuplicateCoilName(n) => join3("duplicate coil/discrete name '", n.as_str(), "'"),
            Invalid::UnknownTriggerRegister(c, r) => join5(
                "coil '",
                c.as_str(),
                "': trigger references unknown register '",
                r.as_str(),
                "'",
            ),
            Invalid::UnknownAlarmCoil(a, t) => join5(
                "alarm '",
                a.as_str(),
                "': references unknown coil '",
                t.as_str(),
                "'",
            ),
            Invalid::NoPoints => crate::text::string_of("language 2: points must not be empty"),
            Invalid::EmptyPointId => crate::text::string_of("point id must not be empty"),
            Invalid::DuplicatePointId(n) => join3("duplicate point id '", n.as_str(), "'"),
            Invalid::AnalogTrigger(n) => join3("point '", n.as_str(), "': analog points cannot have trigger"),
            Invalid::BinarySimulation(n) => join3(
                "point '",
                n.as_str(),
                "': binary points cannot have simulation",
            ),
            Invalid::UnknownTriggerPoint(n, src) => join5(
                "point '",
                n.as_str(),
                "': trigger references unknown point '",
                src.as_str(),
                "'",
            ),
            Invalid::TriggerNotAnalog(n, src) => join5(
                "point '",
                n.as_str(),
                "': trigger source '",
                src.as_str(),
                "' must be analog",
            ),
            Invalid::EmptyModbusExport => crate::text::string_of(
                "language 2: modbus bindings require a non-empty export",
            ),
            Invalid::EmptyOpcuaExport => crate::text::string_of(
                "language 2: opcua bindings require a non-empty export",
            ),
            Invalid::UnknownOpcuaExport(id) => join3("opcua export '", id.as_str(), "' is not a point"),
            Invalid::EmptyBacnetExport => crate::text::string_of(
                "language 2: bacnet-ip bindings require a non-empty export",
            ),
            Invalid::UnknownBacnetExport(id) => join3("bacnet export '", id.as_str(), "' is not a point"),
            Invalid::DuplicateBacnetObject(id, o, i) => {
                let mut s = join5("bacnet export '", id.as_str(), "': duplicate ", o.as_str(), " instance ");
                push_decimal(&mut s, *i as u64);
                s
            },
            Invalid::UnknownModbusExport(id) => join3("modbus export '", id.as_str(), "' is not a point"),
            Invalid::ExportScale(id) => join3("modbus export '", id.as_str(), "': scale must be >= 1"),
            Invalid::ExportSpace(id, k, sp) => {
                let mut s = join5("modbus export '", id.as_str(), "': ", k.as_str(), " point cannot use space ");
                push_str(&mut s, sp.as_str());
                s
            },
            Invalid::ExportOverlap(sp, a) => {
                let mut s = join3("modbus ", sp.as_str(), "");
                let tail = with_number(" address ", *a as u64, " overlaps another export");
                push_str(&mut s, tail.as_str());
                proof {
                    reveal_strlit("");
                    assert("modbus "@ + sp.wire_name() + ""@ =~= "modbus "@ + sp.wire_name());
                }
                assert(s@ =~= "modbus "@ + sp.wire_name() + " address "@ + decimal(*a as nat)
                    + " overlaps another export"@);
                s
            },
            Invalid::DuplicateScenarioId(id) => join3("duplicate scenario id '", id.as_str(), "'"),
            Invalid::MissingScenarioId(n) => join3("scenario '", n.as_str(), "': embedded scenarios must set id"),
            Invalid::ScenarioIdFormat(n, id) => join5(
                "scenario '",
                n.as_str(),
                "': id must be lowercase kebab-case (got '",
                id.as_str(),
                "')",
            ),
            Invalid::Steps(f) => crate::text::string_of(step_str(*f)),
            Invalid::SetRegisterNotFound(c, r, t) => {
                let mut s = join5("scenario '", c.as_str(), "': set_register '", r.as_str(), "' not found in ");
                push_str(&mut s, t.as_str());
                s
            },
            Invalid::SetPointNotFound(c, p) => join5(
                "scenario '",
                c.as_str(),
                "': set_point '",
                p.as_str(),
                "' not found",
            ),
            Invalid::SetPointNeedsNumber(c, p) => join5(
                "scenario '",
                c.as_str(),
                "': set_point '",
                p.as_str(),
                "' needs a numeric value",
            ),
            Invalid::SetPointNeedsBool(c, p) => join5(
                "scenario '",
                c.as_str(),
                "': set_point '",
                p.as_str(),
                "' needs a boolean value",
            ),
            Invalid::SetCoilNotFound(c, k) => join5(
                "scenario '",
                c.as_str(),
                "': set_coil '",
                k.as_str(),
                "' not found",
            ),
            Invalid::FaultNeedsTarget(c) => join3(
                "scenario '",
                c.as_str(),
                "': inject_fault requires register_name",
            ),
            Invalid::AlarmTargetNotBinary(c, t) => join5(
                "scenario '",
                c.as_str(),
                "': inject_fault alarm target '",
                t.as_str(),
                "' is not a binary point",
            ),
            Invalid::FaultTargetNotAnalog(c, t) => join5(
                "scenario '",
                c.as_str(),
                "': inject_fault target '",
                t.as_str(),
                "' is not an analog point",
            ),
            Invalid::MixedRegisters => crate::text::string_of(
                "language 2: do not mix registers: with points: (use export on bindings)",
            ),
            Invalid::AnalogDefault(id) => join3("point '", id.as_str(), "': analog default must be a number"),
            Invalid::BinaryDefault(id) => join3("point '", id.as_str(), "': binary default must be a boolean"),
        }
    }
}

} // verus!
