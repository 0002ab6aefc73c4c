use simbus::behavior::BehaviorSpec;
use simbus::device::{
    default_modbus_tls_port, default_opcua_port, default_scale, default_spec_version, AlarmSpec,
    BindingSpec, CoilSpec, DeviceSpec, IdentitySpec, ModbusSpec, RegisterMapSpec, RegisterSpec,
    TriggerSpec, SPEC_VERSION_MIN,
};
use simbus::export::{Export, ModbusExportEntry};
use simbus::ieee::Real;
use simbus::lift::finish_v1;
use simbus::load::{accept_device, accept_scenario, language_of, load_v2, DocumentV2, Language, PointRow, YamlScalar};
use simbus::report::{device_report, ReportReals};
use simbus::scenario::{default_holding, InjectFaultStep, ScenarioSpec, ScenarioStep, SetPointStep, SetRegisterStep, PointLiteral};
use simbus::types::{
    AlarmSeverity, DataType, Endianness, FaultType, ModbusExportSpace, PointClass, PointKind,
    ProtocolId, TriggerCondition, UaNaming,
};
use simbus::validate::Invalid;

fn num(x: f64) -> Real {
    Real::from_bits(x.to_bits())
}

fn render(r: &Real) -> String {
    format!("{}", f64::from_bits(r.bits))
}

fn reg(address: u16, name: &str, default: f64, scale: u32, data_type: DataType, sim: Option<BehaviorSpec>) -> RegisterSpec {
    RegisterSpec {
        address,
        name: name.to_string(),
        description: String::new(),
        unit: String::new(),
        default: num(default),
        scale,
        data_type,
        simulation: sim,
    }
}

fn coil(address: u16, name: &str, trigger: Option<TriggerSpec>) -> CoilSpec {
    CoilSpec { address, name: name.to_string(), description: String::new(), default: false, trigger }
}

fn trigger(source: &str, condition: TriggerCondition, threshold: f64) -> TriggerSpec {
    TriggerSpec { source_register: source.to_string(), condition, threshold: num(threshold) }
}

fn modbus(port: u16, unit: u8) -> ModbusSpec {
    ModbusSpec { default_port: port, unit_id: unit, endianness: Endianness::Big }
}

fn v1(name: &str, device_type: &str, modbus: ModbusSpec, registers: RegisterMapSpec) -> DeviceSpec {
    DeviceSpec {
        name: name.to_string(),
        spec_version: default_spec_version(),
        version: "1.0".to_string(),
        device_type: device_type.to_string(),
        description: String::new(),
        identity: IdentitySpec { vendor: String::new(), product: String::new(), revision: String::new() },
        modbus,
        registers,
        alarms: Vec::new(),
        bindings: Vec::new(),
        scenarios: Vec::new(),
        points: Vec::new(),
        ua_naming: UaNaming::SpacePrefix,
    }
}

fn holding_only(regs: Vec<RegisterSpec>) -> RegisterMapSpec {
    RegisterMapSpec { holding: regs, input: Vec::new(), coils: Vec::new(), discrete: Vec::new() }
}

/// The path a language 1 document takes once it is parsed.
fn load_v1(spec: DeviceSpec) -> Result<DeviceSpec, Invalid> {
    assert_eq!(language_of(Some(spec.spec_version as u64), true), Ok(Language::V1));
    accept_device(finish_v1(spec))
}

fn reals_of(spec: &DeviceSpec) -> ReportReals {
    let defaults = |regs: &Vec<RegisterSpec>| regs.iter().map(|r| render(&r.default)).collect::<Vec<_>>();
    let thresholds = |coils: &Vec<CoilSpec>| {
        coils
            .iter()
            .map(|c| c.trigger.as_ref().map(|t| render(&t.threshold)).unwrap_or_default())
            .collect::<Vec<_>>()
    };
    ReportReals {
        holding_defaults: defaults(&spec.registers.holding),
        input_defaults: defaults(&spec.registers.input),
        coil_thresholds: thresholds(&spec.registers.coils),
        discrete_thresholds: thresholds(&spec.registers.discrete),
    }
}

fn report(path: &str, spec: &DeviceSpec) -> String {
    device_report(path, spec, &reals_of(spec))
}

fn tnh() -> DeviceSpec {
    let mut spec = v1(
        "Generic T&H Sensor",
        "tnh_sensor",
        modbus(502, 1),
        RegisterMapSpec {
            holding: vec![
                reg(0, "temperature", 22.5, 10, DataType::Uint16, Some(BehaviorSpec::GaussianNoise { std_dev: num(0.3), drift: None })),
                reg(
                    1,
                    "humidity",
                    45.0,
                    10,
                    DataType::Uint16,
                    Some(BehaviorSpec::Sinusoidal { period_hours: num(12.0), amplitude: num(5.0), drift: None }),
                ),
            ],
            input: Vec::new(),
            coils: vec![coil(0, "high_temp_alarm", Some(trigger("temperature", TriggerCondition::Gt, 30.0)))],
            discrete: Vec::new(),
        },
    );
    spec.alarms.push(AlarmSpec {
        name: "High temperature".to_string(),
        severity: AlarmSeverity::Critical,
        trigger: "high_temp_alarm".to_string(),
    });
    spec
}

fn watts(bindings: Vec<BindingSpec>) -> DeviceSpec {
    let mut spec = v1("box", "meter", modbus(502, 1), holding_only(vec![reg(0, "watts", 1.0, default_scale(), DataType::Uint16, None)]));
    spec.bindings = bindings;
    spec
}

fn holding_sim(sim: BehaviorSpec) -> DeviceSpec {
    v1("x", "x", modbus(502, 1), holding_only(vec![reg(0, "a", 1.0, default_scale(), DataType::Uint16, Some(sim))]))
}

fn kind_of(spec: &DeviceSpec) -> &'static str {
    spec.registers.holding[0].simulation.as_ref().unwrap().kind_name()
}

fn set_register(at: f64, name: &str, value: f64) -> ScenarioStep {
    ScenarioStep::SetRegister(SetRegisterStep {
        at: num(at),
        register_name: name.to_string(),
        value: num(value),
        register_type: default_holding(),
    })
}

fn temperature_only() -> DeviceSpec {
    v1("tnh", "tnh_sensor", modbus(502, 1), holding_only(vec![reg(0, "temperature", 22.5, default_scale(), DataType::Uint16, None)]))
}

#[test]
fn check_report_summarizes_configuration() {
    let spec = load_v1(tnh()).unwrap();
    let report = report("example.yaml", &spec);
    assert!(report.starts_with("OK  example.yaml"));
    assert!(report.contains("type         tnh_sensor"));
    assert!(report.contains("modbus       port 502, unit 1, endianness big"));
    assert!(report.contains("inferred"));
    assert!(report.contains("holding 2"));
    assert!(report.contains("temperature"));
    assert!(report.contains("gaussian_noise"));
    assert!(report.contains("high_temp_alarm"));
    assert!(report.contains("High temperature"));
}

#[test]
fn infers_modbus_tcp_binding() {
    let spec = load_v1(tnh()).unwrap();
    assert!(spec.bindings.is_empty());
    assert_eq!(spec.resolved_bindings().len(), 1);
}

#[test]
fn rejects_unknown_trigger() {
    let spec = v1(
        "bad",
        "bad",
        modbus(502, 1),
        RegisterMapSpec {
            holding: Vec::new(),
            input: Vec::new(),
            coils: vec![coil(0, "alarm", Some(trigger("missing", TriggerCondition::Gt, 1.0)))],
            discrete: Vec::new(),
        },
    );
    let msg = load_v1(spec).unwrap_err().message();
    assert!(msg.contains("unknown register"), "{msg}");
}

#[test]
fn rejects_overlap_for_float32() {
    let spec = v1(
        "overlap",
        "x",
        modbus(502, 1),
        holding_only(vec![
            reg(0, "a", 1.0, default_scale(), DataType::Float32, None),
            reg(1, "b", 2.0, default_scale(), DataType::Uint16, None),
        ]),
    );
    let err = load_v1(spec).unwrap_err().message();
    assert!(err.contains("overlaps"), "{err}");
}

#[test]
fn rejects_empty_scenario() {
    let scenario = ScenarioSpec {
        id: String::new(),
        name: "empty".to_string(),
        description: "none".to_string(),
        steps: Vec::new(),
    };
    let err = accept_scenario(scenario).unwrap_err().message();
    assert!(err.contains("at least one step"), "{err}");
}

#[test]
fn defaults_spec_version_to_one() {
    assert_eq!(language_of(None, true), Ok(Language::V1));
    let spec = load_v1(tnh()).unwrap();
    assert_eq!(spec.spec_version, SPEC_VERSION_MIN);
}

#[test]
fn rejects_unknown_spec_version() {
    let err = language_of(Some(99), true).unwrap_err();
    assert!(err.message().contains("spec_version"), "{}", err.message());
}

#[test]
fn embedded_scenario_must_reference_real_registers() {
    let mut spec = temperature_only();
    spec.scenarios.push(ScenarioSpec {
        id: "heat-wave".to_string(),
        name: "Heat Wave".to_string(),
        description: String::new(),
        steps: vec![set_register(0.0, "missing", 30.0)],
    });
    let err = load_v1(spec).unwrap_err().message();
    assert!(err.contains("set_register"), "{err}");
}

#[test]
fn embedded_scenario_is_part_of_the_contract() {
    let mut spec = temperature_only();
    spec.scenarios.push(ScenarioSpec {
        id: "heat-wave".to_string(),
        name: "Heat Wave".to_string(),
        description: "Rise then spike.".to_string(),
        steps: vec![
            set_register(0.0, "temperature", 22.0),
            ScenarioStep::InjectFault(InjectFaultStep {
                at: num(2.0),
                fault_type: FaultType::Spike,
                register_name: Some("temperature".to_string()),
                value: Some(num(42.0)),
                duration_s: num(10.0),
            }),
        ],
    });
    let spec = load_v1(spec).unwrap();
    assert_eq!(spec.scenarios.len(), 1);
    assert_eq!(spec.scenarios[0].id, "heat-wave");
    let report = report("tnh.yaml", &spec);
    assert!(report.contains("spec_version 1"));
    assert!(report.contains("heat-wave"));
}

#[test]
fn snmp_binding_is_valid_syntax_but_unimplemented() {
    let spec = watts(vec![BindingSpec::SnmpV2c { port: 161, community: "public".to_string(), map: None }]);
    let spec = load_v1(spec).unwrap();
    let unimplemented = spec.unimplemented_protocols();
    assert_eq!(unimplemented.len(), 1);
    assert!(!unimplemented[0].is_implemented());
    let report = report("snmp.yaml", &spec);
    assert!(report.contains("specified, not implemented"));
}

#[test]
fn modbus_tls_is_implemented_with_default_port() {
    let spec = watts(vec![BindingSpec::ModbusTls {
        port: default_modbus_tls_port(),
        certfile: "cert.pem".to_string(),
        keyfile: "key.pem".to_string(),
        cafile: None,
        export: Export::new(),
    }]);
    let spec = load_v1(spec).unwrap();
    assert!(spec.unimplemented_protocols().is_empty());
    match &spec.resolved_bindings()[0] {
        BindingSpec::ModbusTls { port, certfile, keyfile, cafile, .. } => {
            assert_eq!(*port, 802);
            assert_eq!(certfile, "cert.pem");
            assert_eq!(keyfile, "key.pem");
            assert!(cafile.is_none());
        }
        other => panic!("expected modbus-tls, got {other:?}"),
    }
    let report = report("tls.yaml", &spec);
    assert!(!report.contains("specified, not implemented"));
    assert!(report.contains("modbus-tls :802"));
}

#[test]
fn modbus_tls_parses_cafile() {
    let spec = watts(vec![
        BindingSpec::ModbusTcp { port: None, unit_id: None, endianness: Endianness::Big, export: Export::new() },
        BindingSpec::ModbusTls {
            port: 8802,
            certfile: "/tmp/cert.pem".to_string(),
            keyfile: "/tmp/key.pem".to_string(),
            cafile: Some("/tmp/ca.pem".to_string()),
            export: Export::new(),
        },
    ]);
    let spec = load_v1(spec).unwrap();
    assert!(spec.unimplemented_protocols().is_empty());
    let report = report("mtls.yaml", &spec);
    assert!(report.contains("modbus-tls :8802 mTLS"));
}

#[test]
fn opcua_is_implemented_with_default_port() {
    let spec = watts(vec![BindingSpec::Opcua { port: default_opcua_port(), export: Export::new() }]);
    let spec = load_v1(spec).unwrap();
    assert!(spec.unimplemented_protocols().is_empty());
    match &spec.resolved_bindings()[0] {
        BindingSpec::Opcua { port, .. } => assert_eq!(*port, 4840),
        other => panic!("expected opcua, got {other:?}"),
    }
    let report = report("opcua.yaml", &spec);
    assert!(!report.contains("specified, not implemented"));
    assert!(report.contains("opcua :4840"));
}

#[test]
fn accepts_square_triangle_uniform_cycle() {
    let spec = load_v1(holding_sim(BehaviorSpec::Square { period_seconds: num(10.0), amplitude: num(5.0) })).unwrap();
    assert_eq!(kind_of(&spec), "square");

    let spec = load_v1(holding_sim(BehaviorSpec::Triangle { period_seconds: num(8.0), min: num(0.0), max: num(10.0) }))
        .unwrap();
    assert_eq!(kind_of(&spec), "triangle");

    let spec = load_v1(holding_sim(BehaviorSpec::Uniform { min: num(10.0), max: num(90.0) })).unwrap();
    assert_eq!(kind_of(&spec), "uniform");

    let spec = load_v1(holding_sim(BehaviorSpec::Cycle {
        dwell_seconds: num(5.0),
        values: vec![num(0.0), num(25.0), num(50.0)],
    }))
    .unwrap();
    assert_eq!(kind_of(&spec), "cycle");
    let report = report("cycle.yaml", &spec);
    assert!(report.contains("cycle"));
}

#[test]
fn rejects_invalid_square_triangle_uniform_cycle() {
    let err = load_v1(holding_sim(BehaviorSpec::Square { period_seconds: num(0.0), amplitude: num(5.0) }))
        .unwrap_err()
        .message();
    assert!(err.contains("period_seconds"), "{err}");

    let err = load_v1(holding_sim(BehaviorSpec::Triangle { period_seconds: num(8.0), min: num(10.0), max: num(10.0) }))
        .unwrap_err()
        .message();
    assert!(err.contains("triangle min"), "{err}");

    let err = load_v1(holding_sim(BehaviorSpec::Uniform { min: num(90.0), max: num(10.0) })).unwrap_err().message();
    assert!(err.contains("uniform min"), "{err}");

    let err = load_v1(holding_sim(BehaviorSpec::Cycle { dwell_seconds: num(1.0), values: Vec::new() }))
        .unwrap_err()
        .message();
    assert!(err.contains("at least one value"), "{err}");
}

fn point(id: &str, kind: PointKind, class: PointClass, default: YamlScalar) -> PointRow {
    PointRow {
        id: id.to_string(),
        kind,
        class,
        description: String::new(),
        unit: String::new(),
        default,
        simulation: None,
        trigger: None,
    }
}

fn doc_v2(points: Vec<PointRow>, bindings: Vec<BindingSpec>) -> DocumentV2 {
    DocumentV2 {
        name: "Example".to_string(),
        spec_version: 2,
        version: "1.0".to_string(),
        device_type: "example".to_string(),
        description: String::new(),
        identity: IdentitySpec { vendor: String::new(), product: String::new(), revision: String::new() },
        points,
        bindings,
        alarms: Vec::new(),
        scenarios: Vec::new(),
    }
}

/// The path a language 2 document takes once it is parsed.
fn load_2(doc: DocumentV2, has_registers: bool) -> Result<DeviceSpec, Invalid> {
    language_of(Some(doc.spec_version as u64), has_registers)?;
    accept_device(load_v2(doc)?)
}

#[test]
fn language_two_points_and_explicit_export() {
    let mut analog = point("analog_a", PointKind::Analog, PointClass::Value, YamlScalar::Number(num(50.0)));
    analog.unit = "units".to_string();
    analog.simulation = Some(BehaviorSpec::Constant);
    let mut high = point("analog_a_high", PointKind::Binary, PointClass::Input, YamlScalar::Bool(false));
    high.trigger = Some(trigger("analog_a", TriggerCondition::Gt, 80.0));
    let mut export: Export<ModbusExportEntry> = Export::new();
    export.insert(
        "analog_a".to_string(),
        ModbusExportEntry { space: ModbusExportSpace::Holding, address: 0, scale: 10, data_type: DataType::Uint16 },
    );
    export.insert(
        "analog_a_high".to_string(),
        ModbusExportEntry { space: ModbusExportSpace::Coil, address: 0, scale: 1, data_type: DataType::Uint16 },
    );
    let mut doc = doc_v2(
        vec![analog, high],
        vec![BindingSpec::ModbusTcp { port: Some(502), unit_id: Some(1), endianness: Endianness::Big, export }],
    );
    doc.scenarios.push(ScenarioSpec {
        id: "demo-spike".to_string(),
        name: "Demo".to_string(),
        description: String::new(),
        steps: vec![ScenarioStep::SetPoint(SetPointStep {
            at: num(0.0),
            point: "analog_a".to_string(),
            value: PointLiteral::Float(num(95.0)),
        })],
    });
    let spec = load_2(doc, false).unwrap();
    assert_eq!(spec.spec_version, 2);
    assert_eq!(spec.points.len(), 2);
    assert_eq!(spec.registers.holding[0].name, "analog_a");
    assert_eq!(spec.registers.coils[0].name, "analog_a_high");
    assert!(spec.bindings[0].protocol_id() == ProtocolId::ModbusTcp);
}

#[test]
fn language_two_requires_modbus_export() {
    let doc = doc_v2(
        vec![point("analog_a", PointKind::Analog, PointClass::Value, YamlScalar::Number(num(1.0)))],
        vec![BindingSpec::ModbusTcp { port: Some(502), unit_id: None, endianness: Endianness::Big, export: Export::new() }],
    );
    let err = load_2(doc, false).unwrap_err().message();
    assert!(err.contains("export"), "{err}");
}

#[test]
fn language_two_rejects_mixed_registers() {
    let mut export: Export<ModbusExportEntry> = Export::new();
    export.insert(
        "analog_a".to_string(),
        ModbusExportEntry { space: ModbusExportSpace::Holding, address: 0, scale: 1, data_type: DataType::Uint16 },
    );
    let doc = doc_v2(
        vec![point("analog_a", PointKind::Analog, PointClass::Value, YamlScalar::Number(num(1.0)))],
        vec![BindingSpec::ModbusTcp { port: Some(502), unit_id: None, endianness: Endianness::Big, export }],
    );
    let err = load_2(doc, true).unwrap_err().message();
    assert!(err.contains("mix"), "{err}");
}

#[test]
fn language_two_rejects_analog_default_that_is_not_a_number() {
    let mut export: Export<ModbusExportEntry> = Export::new();
    export.insert(
        "analog_a".to_string(),
        ModbusExportEntry { space: ModbusExportSpace::Holding, address: 0, scale: 1, data_type: DataType::Uint16 },
    );
    let doc = doc_v2(
        vec![point("analog_a", PointKind::Analog, PointClass::Value, YamlScalar::Bool(true))],
        vec![BindingSpec::ModbusTcp { port: Some(502), unit_id: None, endianness: Endianness::Big, export }],
    );
    let err = load_2(doc, false).unwrap_err();
    assert_eq!(err, Invalid::AnalogDefault("analog_a".to_string()));
    assert_eq!(err.message(), "point 'analog_a': analog default must be a number");
}

#[test]
fn unit_id_out_of_range_is_rejected_first() {
    let spec = v1("u", "x", modbus(502, 0), holding_only(vec![reg(0, "a", 1.0, 1, DataType::Uint16, None)]));
    let err = load_v1(spec).unwrap_err();
    assert_eq!(err, Invalid::UnitId);
    assert_eq!(err.message(), "modbus.unit_id must be between 1 and 247");
}

#[test]
fn port_zero_is_rejected() {
    let spec = v1("u", "x", modbus(0, 1), holding_only(vec![reg(0, "a", 1.0, 1, DataType::Uint16, None)]));
    assert_eq!(load_v1(spec).unwrap_err().message(), "modbus.default_port must be >= 1");
}

#[test]
fn duplicate_register_names_are_rejected() {
    let spec = v1(
        "u",
        "x",
        modbus(502, 1),
        holding_only(vec![reg(0, "a", 1.0, 1, DataType::Uint16, None), reg(1, "a", 1.0, 1, DataType::Uint16, None)]),
    );
    assert_eq!(load_v1(spec).unwrap_err().message(), "duplicate register name 'a'");
}

#[test]
fn zero_scale_is_rejected() {
    let spec = v1("u", "x", modbus(502, 1), holding_only(vec![reg(0, "a", 1.0, 0, DataType::Uint16, None)]));
    assert_eq!(load_v1(spec).unwrap_err().message(), "register 'a': scale must be >= 1");
}

#[test]
fn overlap_message_names_space_and_address() {
    let spec = v1(
        "overlap",
        "x",
        modbus(502, 1),
        holding_only(vec![
            reg(0, "a", 1.0, 1, DataType::Float32, None),
            reg(1, "b", 2.0, 1, DataType::Uint16, None),
        ]),
    );
    assert_eq!(load_v1(spec).unwrap_err().message(), "holding address 1 overlaps another register");
}

#[test]
fn alarm_on_unknown_coil_is_rejected() {
    let mut spec = tnh();
    spec.alarms.push(AlarmSpec {
        name: "Ghost".to_string(),
        severity: AlarmSeverity::Info,
        trigger: "no_such_coil".to_string(),
    });
    assert_eq!(load_v1(spec).unwrap_err().message(), "alarm 'Ghost': references unknown coil 'no_such_coil'");
}

#[test]
fn embedded_scenario_id_must_be_kebab_case() {
    let mut spec = temperature_only();
    spec.scenarios.push(ScenarioSpec {
        id: "Heat_Wave".to_string(),
        name: "Heat Wave".to_string(),
        description: String::new(),
        steps: vec![set_register(0.0, "temperature", 30.0)],
    });
    assert_eq!(
        load_v1(spec).unwrap_err().message(),
        "scenario 'Heat Wave': id must be lowercase kebab-case (got 'Heat_Wave')"
    );
}

#[test]
fn lift_gives_one_point_per_register_and_coil() {
    let spec = load_v1(tnh()).unwrap();
    assert_eq!(spec.points.len(), 3);
    assert_eq!(spec.points[0].id, "temperature");
    assert_eq!(spec.points[1].id, "humidity");
    assert_eq!(spec.points[2].id, "high_temp_alarm");
    assert!(spec.point_is_backed("temperature"));
    assert!(!spec.point_is_backed("pressure"));
}

#[test]
fn report_lists_counts_alarms_and_defaults() {
    let spec = load_v1(tnh()).unwrap();
    let report = report("example.yaml", &spec);
    assert!(report.contains("  counts       holding 2  input 0  coils 1  discrete 0\n"));
    assert!(report.contains("22.5"));
    assert!(report.contains("critical"));
    assert!(report.contains("modbus-tcp :502 unit 1"));
}

#[test]
fn report_matches_the_documented_layout() {
    let spec = load_v1(tnh()).unwrap();
    let mut want = String::new();
    want.push_str("OK  example.yaml\n\n");
    want.push_str("  name         Generic T&H Sensor\n");
    want.push_str("  type         tnh_sensor\n");
    want.push_str("  version      1.0\n");
    want.push_str("  spec_version 1\n");
    want.push_str("  modbus       port 502, unit 1, endianness big\n");
    want.push_str("  bindings     modbus-tcp :502 unit 1 (inferred)\n");
    want.push('\n');
    want.push_str("  counts       holding 2  input 0  coils 1  discrete 0\n");
    want.push_str("\n  holding\n");
    for (address, name, behavior, default) in [(0, "temperature", "gaussian_noise", 22.5), (1, "humidity", "sinusoidal", 45.0)] {
        want.push_str(&format!(
            "    {:>5}  {:<24} {:<8} {:<16} default {}  scale {}\n",
            address, name, "uint16", behavior, default, 10
        ));
    }
    want.push_str("\n  coils\n");
    want.push_str(&format!("    {:>5}  {:<24} default {:<5}  {}\n", 0, "high_temp_alarm", false, "temperature gt 30"));
    want.push_str("\n  alarms\n");
    want.push_str(&format!("    {:<22} {:<10} <- {}\n", "High temperature", "critical", "high_temp_alarm"));
    assert_eq!(report("example.yaml", &spec), want);
}
