use simbus::behavior::{BehaviorFault, BehaviorSpec, DriftModifier};
use simbus::control::{field_listening, readyz, server_ready, Status};
use simbus::device::{
    TriggerSpec,
    default_spec_version, AlarmSpec, CoilSpec, DeviceSpec, IdentitySpec, ModbusSpec, RegisterMapSpec, RegisterSpec,
};
use simbus::engine::{fault_effect, ActiveFault, FaultEffect, FaultTable};
use simbus::ieee::Real;
use simbus::lift::finish_v1;
use simbus::load::accept_device;
use simbus::scenario::{ScenarioSpec, ScenarioStep, SetRegisterStep, SetTickIntervalStep, StepFault};
use simbus::types::{AlarmSeverity, DataType, Endianness, FaultType, TriggerCondition, UaNaming};
use simbus::validate::Invalid;

fn num(x: f64) -> Real {
    Real::from_bits(x.to_bits())
}

fn device(coils: Vec<CoilSpec>, alarms: Vec<AlarmSpec>) -> DeviceSpec {
    DeviceSpec {
        name: "d".to_string(),
        spec_version: default_spec_version(),
        version: "1.0".to_string(),
        device_type: "x".to_string(),
        description: String::new(),
        identity: IdentitySpec { vendor: String::new(), product: String::new(), revision: String::new() },
        modbus: ModbusSpec { default_port: 502, unit_id: 1, endianness: Endianness::Big },
        registers: RegisterMapSpec {
            holding: vec![RegisterSpec {
                address: 0,
                name: "temperature".to_string(),
                description: String::new(),
                unit: String::new(),
                default: num(20.0),
                scale: 10,
                data_type: DataType::Uint16,
                simulation: None,
            }],
            input: Vec::new(),
            coils,
            discrete: Vec::new(),
        },
        alarms,
        bindings: Vec::new(),
        scenarios: Vec::new(),
        points: Vec::new(),
        ua_naming: UaNaming::SpacePrefix,
    }
}

fn alarm(name: &str, trigger: &str) -> AlarmSpec {
    AlarmSpec { name: name.to_string(), severity: AlarmSeverity::Warning, trigger: trigger.to_string() }
}

fn coil(name: &str) -> CoilSpec {
    CoilSpec { address: 0, name: name.to_string(), description: String::new(), default: false, trigger: None }
}

fn set_register(at: f64, ty: &str) -> ScenarioStep {
    ScenarioStep::SetRegister(SetRegisterStep {
        at: num(at),
        register_name: "temperature".to_string(),
        value: num(1.0),
        register_type: ty.to_string(),
    })
}

#[test]
fn first_unknown_alarm_coil_is_reported() {
    let spec = device(vec![coil("hot")], vec![alarm("ok", "hot"), alarm("first", "nope"), alarm("second", "gone")]);
    let e = accept_device(finish_v1(spec)).unwrap_err();
    assert_eq!(e, Invalid::UnknownAlarmCoil("first".to_string(), "nope".to_string()));
    assert_eq!(e.message(), "alarm 'first': references unknown coil 'nope'");
}

#[test]
fn guest_id_is_checked_before_steps() {
    let spec = device(Vec::new(), Vec::new());
    let sc = ScenarioSpec { id: "Heat-Wave".to_string(), name: "Heat".to_string(), description: String::new(), steps: Vec::new() };
    let e = spec.validate_guest_scenario(&sc).unwrap_err();
    assert_eq!(e, Invalid::ScenarioIdFormat("Heat".to_string(), "Heat-Wave".to_string()));
    assert_eq!(e.message(), "scenario 'Heat': id must be lowercase kebab-case (got 'Heat-Wave')");
    let empty = ScenarioSpec { id: String::new(), ..sc };
    assert_eq!(spec.validate_guest_scenario(&empty).unwrap_err(), Invalid::MissingScenarioId("Heat".to_string()));
}

#[test]
fn first_step_fault_in_document_order() {
    let bad_tick = ScenarioStep::SetTickInterval(SetTickIntervalStep { at: num(1.0), tick_interval: num(0.0) });
    let sc = ScenarioSpec {
        id: "s".to_string(),
        name: "S".to_string(),
        description: String::new(),
        steps: vec![set_register(0.0, "holding"), set_register(2.0, "coil"), bad_tick, set_register(-1.0, "holding")],
    };
    assert_eq!(sc.validate(), Err(StepFault::RegisterType));
    // Within one step a negative time comes before the kind's own rule.
    let sc2 = ScenarioSpec { steps: vec![set_register(-1.0, "coil")], ..sc };
    assert_eq!(sc2.validate(), Err(StepFault::NegativeAt));
}

#[test]
fn sinusoidal_period_before_amplitude_before_drift() {
    let drift = Some(DriftModifier { enabled: true, rate: num(0.1), bounds: (num(5.0), num(1.0)) });
    let b = BehaviorSpec::Sinusoidal { period_hours: num(0.0), amplitude: num(-1.0), drift };
    assert_eq!(b.validate(), Err(BehaviorFault::PeriodHours));
    let b = BehaviorSpec::Sinusoidal { period_hours: num(24.0), amplitude: num(-1.0), drift };
    assert_eq!(b.validate(), Err(BehaviorFault::Amplitude));
    let b = BehaviorSpec::Sinusoidal { period_hours: num(24.0), amplitude: num(2.0), drift };
    assert_eq!(b.validate(), Err(BehaviorFault::DriftBounds));
    let b = BehaviorSpec::Square { period_seconds: num(-1.0), amplitude: num(0.0) };
    assert_eq!(b.validate(), Err(BehaviorFault::PeriodSeconds));
}

#[test]
fn readiness_needs_every_started_server() {
    let tcp = server_ready(true, true);
    let tls_absent = server_ready(false, false);
    let ua_waiting = server_ready(true, false);
    assert_eq!(readyz(field_listening(tcp, tls_absent, server_ready(false, false)), true), Status::Success);
    assert_eq!(readyz(field_listening(tcp, tls_absent, ua_waiting), true), Status::Unavailable);
    assert_eq!(readyz(field_listening(tcp, tls_absent, server_ready(true, true)), false), Status::Unavailable);
}

#[test]
fn injecting_under_a_key_keeps_one_fault_for_it() {
    let mut table = FaultTable::new();
    table.insert(ActiveFault::new(FaultType::Spike, Some("temperature".to_string()), Some(num(42.0)), num(10.0)));
    table.insert(ActiveFault::new(FaultType::Dropout, None, None, num(3.0)));
    assert_eq!(table.faults().len(), 2);
    table.insert(ActiveFault::new(FaultType::Freeze, Some("temperature".to_string()), None, num(5.0)));
    assert_eq!(table.faults().len(), 2);
    let temps: Vec<&ActiveFault> =
        table.faults().iter().filter(|f| f.register_name.as_deref() == Some("temperature")).collect();
    assert_eq!(temps.len(), 1);
    assert_eq!(temps[0].fault_type, FaultType::Freeze);
}

fn register(name: &str, address: u16, scale: u32) -> RegisterSpec {
    RegisterSpec {
        address,
        name: name.to_string(),
        description: String::new(),
        unit: String::new(),
        default: num(0.0),
        scale,
        data_type: DataType::Uint16,
        simulation: None,
    }
}

#[test]
fn first_failing_register_is_reported() {
    let mut spec = device(Vec::new(), Vec::new());
    spec.registers.holding = vec![register("x", 0, 0), register("x", 5, 10)];
    assert_eq!(accept_device(finish_v1(spec)).unwrap_err(), Invalid::RegisterScale("x".to_string()));
    let mut spec = device(Vec::new(), Vec::new());
    spec.registers.holding = vec![register("x", 0, 10), register("y", 0, 10), register("x", 3, 0)];
    assert_eq!(accept_device(finish_v1(spec)).unwrap_err().message(), "holding address 0 overlaps another register");
}

#[test]
fn first_failing_coil_is_reported() {
    let bad_trigger = CoilSpec {
        trigger: Some(TriggerSpec { source_register: "missing".to_string(), condition: TriggerCondition::Gt, threshold: num(1.0) }),
        ..coil("c1")
    };
    let spec = device(vec![bad_trigger, CoilSpec { address: 1, ..coil("c1") }], Vec::new());
    assert_eq!(
        accept_device(finish_v1(spec)).unwrap_err(),
        Invalid::UnknownTriggerRegister("c1".to_string(), "missing".to_string())
    );
}

#[test]
fn applicable_fault_decides_the_tick_effect() {
    let mut table = FaultTable::new();
    assert_eq!(fault_effect(&table, "temperature"), FaultEffect::Keep);
    table.insert(ActiveFault::new(FaultType::Dropout, None, None, num(3.0)));
    assert_eq!(fault_effect(&table, "temperature"), FaultEffect::Zero);
    table.insert(ActiveFault::new(FaultType::Freeze, Some("temperature".to_string()), None, num(5.0)));
    assert_eq!(fault_effect(&table, "temperature"), FaultEffect::HoldCell);
    assert_eq!(fault_effect(&table, "humidity"), FaultEffect::Zero);
    table.insert(ActiveFault::new(FaultType::Spike, Some("humidity".to_string()), Some(num(99.0)), num(5.0)));
    assert_eq!(fault_effect(&table, "humidity"), FaultEffect::SetValue(num(99.0)));
    table.insert(ActiveFault::new(FaultType::NoiseAmplify, Some("humidity".to_string()), None, num(5.0)));
    assert_eq!(fault_effect(&table, "humidity"), FaultEffect::Amplify(None));
    table.insert(ActiveFault::new(FaultType::Alarm, Some("humidity".to_string()), None, num(5.0)));
    assert_eq!(fault_effect(&table, "humidity"), FaultEffect::Keep);
}
