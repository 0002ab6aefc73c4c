use simbus::control::{
    authorize, check_register_override, check_simulation_patch, field_listening, install_scenario, list_scenarios,
    listener_label, readyz, resolve_scenario, simulation_label, start_run, uninstall_scenario, validate_fault,
    FaultRequest, RegisterOverrideRequest, SimulationPatchRequest, Status,
};
use simbus::ctl::{register_body, request_for, CtlBody, CtlCommand, Method};
use simbus::device::{
    default_spec_version, CoilSpec, DeviceSpec, IdentitySpec, ModbusSpec, RegisterMapSpec, RegisterSpec,
};
use simbus::ieee::Real;
use simbus::lift::finish_v1;
use simbus::load::accept_device;
use simbus::runner::{ScenarioRunner, ScenarioState};
use simbus::scenario::{default_holding, ScenarioSpec, ScenarioStep, SetRegisterStep};
use simbus::seed::{fnv1a64, mix_seed, FNV_OFFSET};
use simbus::types::{DataType, Endianness, FaultType, UaNaming};

fn num(x: f64) -> Real {
    Real::from_bits(x.to_bits())
}

fn scenario(id: &str, target: &str) -> ScenarioSpec {
    ScenarioSpec {
        id: id.to_string(),
        name: id.to_string(),
        description: String::new(),
        steps: vec![ScenarioStep::SetRegister(SetRegisterStep {
            at: num(0.0),
            register_name: target.to_string(),
            value: num(30.0),
            register_type: default_holding(),
        })],
    }
}

fn device() -> DeviceSpec {
    let spec = DeviceSpec {
        name: "Generic T&H Sensor".to_string(),
        spec_version: default_spec_version(),
        version: "1.0".to_string(),
        device_type: "tnh_sensor".to_string(),
        description: String::new(),
        identity: IdentitySpec { vendor: String::new(), product: String::new(), revision: String::new() },
        modbus: ModbusSpec { default_port: 502, unit_id: 1, endianness: Endianness::Big },
        registers: RegisterMapSpec {
            holding: vec![RegisterSpec {
                address: 0,
                name: "temperature".to_string(),
                description: String::new(),
                unit: String::new(),
                default: num(22.5),
                scale: 10,
                data_type: DataType::Uint16,
                simulation: None,
            }],
            input: Vec::new(),
            coils: vec![CoilSpec {
                address: 0,
                name: "high_temp_alarm".to_string(),
                description: String::new(),
                default: false,
                trigger: None,
            }],
            discrete: Vec::new(),
        },
        alarms: Vec::new(),
        bindings: Vec::new(),
        scenarios: vec![scenario("heat-wave", "temperature"), scenario("fast-alarm-test", "temperature")],
        points: Vec::new(),
        ua_naming: UaNaming::SpacePrefix,
    };
    accept_device(finish_v1(spec)).unwrap()
}

fn fault(fault_type: FaultType, name: Option<&str>, value: Option<f64>, duration: f64) -> FaultRequest {
    FaultRequest {
        fault_type,
        register_name: name.map(|n| n.to_string()),
        value: value.map(num),
        duration_s: num(duration),
    }
}

#[test]
fn lists_bundled_scenarios() {
    let infos = list_scenarios(&device(), &ScenarioRunner::new());
    let ids: Vec<&str> = infos.iter().map(|i| i.id.as_str()).collect();
    assert!(ids.contains(&"heat-wave"));
    assert!(ids.contains(&"fast-alarm-test"));
    assert!(infos.iter().all(|i| i.source == "bundled" && i.steps == 1));
}

#[test]
fn unknown_scenario_is_404() {
    let spec = device();
    let runner = ScenarioRunner::new();
    assert!(resolve_scenario(&spec, &runner, "not-from-this-device").is_none());
    assert_eq!(resolve_scenario(&spec, &runner, "heat-wave").unwrap().id, "heat-wave");
}

#[test]
fn writes_require_api_key_when_configured() {
    let key = Some("secret".to_string());
    assert_eq!(authorize(&key, None, None), Err(Status::Unauthorized));
    assert_eq!(Status::Unauthorized.code(), 401);
    assert_eq!(authorize(&key, Some("secret"), None), Ok(()));
    assert_eq!(authorize(&key, None, Some("Bearer secret")), Ok(()));
    assert_eq!(authorize(&key, Some("wrong"), Some("Bearer secret")), Err(Status::Unauthorized));
    assert_eq!(authorize(&None, None, None), Ok(()));
}

#[test]
fn patch_rejects_both_value_fields() {
    let err = check_register_override(&RegisterOverrideRequest { value: Some(270), real_value: Some(num(27.0)) })
        .unwrap_err();
    assert_eq!(err.status.code(), 422);
    assert_eq!(err.body.detail, "'value' and 'real_value' are mutually exclusive.");
    let err = check_register_override(&RegisterOverrideRequest { value: None, real_value: None }).unwrap_err();
    assert_eq!(err.body.detail, "Provide 'value' (raw uint16) or 'real_value' (physical units).");
    assert!(check_register_override(&RegisterOverrideRequest { value: None, real_value: Some(num(27.0)) }).is_ok());
}

#[test]
fn inject_fault_rejects_unknown_register() {
    let err = validate_fault(&device(), &fault(FaultType::Spike, Some("nope"), Some(35.0), 5.0)).unwrap_err();
    assert_eq!(err.status, Status::NotFound);
    assert_eq!(err.body.detail, "register 'nope' not found");
}

#[test]
fn inject_spike_requires_value() {
    let err = validate_fault(&device(), &fault(FaultType::Spike, Some("temperature"), None, 5.0)).unwrap_err();
    assert_eq!(err.status.code(), 422);
    assert_eq!(err.body.detail, "spike requires 'value' (real-world units)");
}

#[test]
fn inject_known_spike_is_accepted() {
    assert!(validate_fault(&device(), &fault(FaultType::Spike, Some("temperature"), Some(35.0), 5.0)).is_ok());
}

#[test]
fn fault_requests_are_checked_in_order() {
    let spec = device();
    let err = validate_fault(&spec, &fault(FaultType::Spike, Some("nope"), None, 0.0)).unwrap_err();
    assert_eq!(err.body.detail, "duration_s must be > 0");
    let err = validate_fault(&spec, &fault(FaultType::Alarm, None, None, 1.0)).unwrap_err();
    assert_eq!(err.body.detail, "alarm requires register_name (coil name)");
    let err = validate_fault(&spec, &fault(FaultType::Alarm, Some("temperature"), None, 1.0)).unwrap_err();
    assert_eq!((err.status, err.body.detail.as_str()), (Status::NotFound, "coil 'temperature' not found"));
    assert!(validate_fault(&spec, &fault(FaultType::Alarm, Some("high_temp_alarm"), None, 1.0)).is_ok());
    assert!(validate_fault(&spec, &fault(FaultType::Dropout, None, None, 1.0)).is_ok());
    let err = validate_fault(&spec, &fault(FaultType::Freeze, None, None, 1.0)).unwrap_err();
    assert_eq!(err.body.detail, "register_name is required (null is only valid for device-wide dropout)");
}

#[test]
fn readyz_unavailable_when_not_running() {
    assert_eq!(readyz(true, false), Status::Unavailable);
    assert_eq!(readyz(true, false).code(), 503);
    assert_eq!(readyz(true, true), Status::Success);
    assert_eq!(simulation_label(false), "stopped");
    assert_eq!(simulation_label(true), "running");
}

#[test]
fn readyz_tls_only() {
    assert_eq!(readyz(field_listening(true, true, true), true), Status::Success);
    assert_eq!(readyz(field_listening(true, true, true), true).code(), 200);
}

#[test]
fn status_and_readyz_dual_bind() {
    let listening = field_listening(true, false, true);
    assert_eq!(listener_label(listening), "stopped");
    assert_eq!(readyz(listening, true), Status::Unavailable);
    let listening = field_listening(true, true, true);
    assert_eq!(listener_label(listening), "listening");
    assert_eq!(readyz(listening, true), Status::Success);
}

#[test]
fn simulation_patch_needs_positive_tick() {
    assert!(check_simulation_patch(&SimulationPatchRequest { tick_interval: None, running: Some(false) }).is_ok());
    let err = check_simulation_patch(&SimulationPatchRequest { tick_interval: Some(num(0.0)), running: None })
        .unwrap_err();
    assert_eq!(err.body.detail, "tick_interval must be > 0");
}

#[test]
fn install_session_scenario_and_reject_bundled_id() {
    let spec = device();
    let mut runner = ScenarioRunner::new();
    assert_eq!(install_scenario(&mut runner, &spec, scenario("lab-spike", "temperature")).unwrap(), "lab-spike");
    let listed = list_scenarios(&spec, &runner);
    assert_eq!(listed.len(), 3);
    assert_eq!(listed[2].id, "lab-spike");
    assert_eq!(listed[2].source, "session");
    let err = install_scenario(&mut runner, &spec, scenario("heat-wave", "temperature")).unwrap_err();
    assert_eq!(err.status.code(), 409);
    assert_eq!(err.body.detail, "scenario 'heat-wave' is bundled in the device YAML");
    let err = install_scenario(&mut runner, &spec, scenario("bad-one", "missing")).unwrap_err();
    assert_eq!(err.status, Status::Unprocessable);
    assert_eq!(err.body.detail, "scenario 'bad-one': set_register 'missing' not found in holding");
    assert_eq!(uninstall_scenario(&mut runner, &spec, "lab-spike"), Ok(false));
    let err = uninstall_scenario(&mut runner, &spec, "lab-spike").unwrap_err();
    assert_eq!((err.status.code(), err.body.detail.as_str()), (404, "Scenario 'lab-spike' not found"));
    assert_eq!(uninstall_scenario(&mut runner, &spec, "heat-wave").unwrap_err().status, Status::Conflict);
}

#[test]
fn session_scenarios_are_sorted_by_id() {
    let spec = device();
    let mut runner = ScenarioRunner::new();
    for id in ["zeta", "alpha", "mid"] {
        install_scenario(&mut runner, &spec, scenario(id, "temperature")).unwrap();
    }
    let ids: Vec<&str> = runner.session_scenarios().iter().map(|s| s.id.as_str()).collect();
    assert_eq!(ids, vec!["alpha", "mid", "zeta"]);
    assert!(runner.install_session(scenario("mid", "temperature")).is_some());
    assert_eq!(runner.session_scenarios().len(), 3);
    assert!(runner.remove_session("alpha"));
    assert!(!runner.remove_session("alpha"));
}

#[test]
fn a_new_run_supersedes_the_old_one() {
    let spec = device();
    let mut runner = ScenarioRunner::new();
    assert_eq!(runner.status().state, ScenarioState::Idle);
    let first = start_run(&mut runner, &spec.scenarios[0]);
    assert!(runner.is_running(first));
    assert_eq!(runner.status().scenario_name.as_deref(), Some("heat-wave"));
    let second = start_run(&mut runner, &spec.scenarios[1]);
    assert!(second != first);
    assert!(!runner.is_running(first));
    runner.note_step(first, 1, num(3.0));
    assert_eq!(runner.status().step_index, 0);
    runner.note_step(second, 1, num(3.0));
    assert_eq!(runner.status().step_index, 1);
    runner.mark_completed(second, num(4.0));
    assert_eq!(runner.status().state, ScenarioState::Completed);
    assert_eq!(ScenarioState::Completed.as_str(), "completed");
}

#[test]
fn stopping_the_active_session_scenario() {
    let spec = device();
    let mut runner = ScenarioRunner::new();
    install_scenario(&mut runner, &spec, scenario("lab-spike", "temperature")).unwrap();
    let s = resolve_scenario(&spec, &runner, "lab-spike").unwrap().clone();
    let g = start_run(&mut runner, &s);
    assert_eq!(uninstall_scenario(&mut runner, &spec, "lab-spike"), Ok(true));
    assert!(!runner.is_running(g));
    assert_eq!(runner.status().state, ScenarioState::Stopped);
}

#[test]
fn ctl_requests() {
    let q = request_for(CtlCommand::Status).unwrap();
    assert_eq!((q.method, q.path.as_str(), q.body), (Method::Get, "/status", None));
    let q = request_for(CtlCommand::WriteRegister { address: 3, real_value: Some(num(27.0)), value: None, input: true })
        .unwrap();
    assert_eq!((q.method, q.path.as_str()), (Method::Patch, "/registers/input/3"));
    assert_eq!(q.body, Some(CtlBody::RealValue(num(27.0))));
    let q = request_for(CtlCommand::Coil { address: 1, value: true, discrete: false }).unwrap();
    assert_eq!(q.path, "/registers/coils/1");
    let q = request_for(CtlCommand::Run { id: "heat-wave".to_string() }).unwrap();
    assert_eq!((q.method, q.path.as_str()), (Method::Post, "/scenarios/heat-wave/run"));
    assert_eq!(
        request_for(CtlCommand::WriteRegister { address: 0, real_value: None, value: None, input: false }),
        Err("provide --real-value or --value")
    );
    assert_eq!(register_body(Some(num(1.0)), Some(1)), Err("--real-value and --value are mutually exclusive"));
    assert_eq!(register_body(None, Some(7)), Ok(CtlBody::Value(7)));
}

#[test]
fn fnv_hash_values() {
    assert_eq!(fnv1a64(b""), FNV_OFFSET);
    assert_eq!(fnv1a64(b"a"), 0xaf63_dc4c_8601_ec8c);
    assert_eq!(fnv1a64(b"foobar"), 0x8594_4171_f739_67e8);
}

#[test]
fn vendor_changes_the_mixed_seed() {
    let a = device();
    let mut b = device();
    b.identity.vendor = "acme".to_string();
    let mut c = device();
    c.identity.vendor = "other".to_string();
    assert_ne!(mix_seed(42, &b), mix_seed(42, &c));
    assert_ne!(mix_seed(42, &a), mix_seed(42, &b));
    assert_eq!(mix_seed(42, &b), mix_seed(42, &b));
    assert_eq!(mix_seed(1, &a) ^ mix_seed(2, &a), 3);
}
