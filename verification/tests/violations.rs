use simbus::behavior::BehaviorSpec;
use simbus::device::{
    default_spec_version, BindingSpec, CoilSpec, DeviceSpec, IdentitySpec, ModbusSpec, RegisterMapSpec, RegisterSpec,
    TriggerSpec,
};
use simbus::export::{BacnetExportEntry, Export, ModbusExportEntry, OpcuaExportEntry};
use simbus::ieee::Real;
use simbus::lift::finish_v1;
use simbus::load::{accept_device, language_of, load_v2, DocumentV2, PointRow, YamlScalar};
use simbus::scenario::{
    default_holding, InjectFaultStep, PointLiteral, ScenarioSpec, ScenarioStep, SetCoilStep, SetPointStep,
    SetRegisterStep, StepFault,
};
use simbus::types::{
    BacnetObjectType, DataType, Endianness, FaultType, ModbusExportSpace, PointClass, PointKind, RegisterSpace,
    TriggerCondition, UaNaming,
};
use simbus::validate::Invalid;

fn num(x: f64) -> Real {
    Real::from_bits(x.to_bits())
}

fn analog(id: &str) -> PointRow {
    PointRow {
        id: id.to_string(),
        kind: PointKind::Analog,
        class: PointClass::Value,
        description: String::new(),
        unit: String::new(),
        default: YamlScalar::Number(num(1.0)),
        simulation: None,
        trigger: None,
    }
}

fn binary(id: &str) -> PointRow {
    PointRow {
        id: id.to_string(),
        kind: PointKind::Binary,
        class: PointClass::Input,
        description: String::new(),
        unit: String::new(),
        default: YamlScalar::Bool(false),
        simulation: None,
        trigger: None,
    }
}

fn trig(source: &str) -> Option<TriggerSpec> {
    Some(TriggerSpec { source_register: source.to_string(), condition: TriggerCondition::Gt, threshold: num(1.0) })
}

fn row(space: ModbusExportSpace, address: u16, scale: u32) -> ModbusExportEntry {
    ModbusExportEntry { space, address, scale, data_type: DataType::Uint16 }
}

fn modbus_export(rows: Vec<(&str, ModbusExportEntry)>) -> Export<ModbusExportEntry> {
    let mut x = Export::new();
    for (id, e) in rows {
        x.insert(id.to_string(), e);
    }
    x
}

fn tcp(rows: Vec<(&str, ModbusExportEntry)>) -> BindingSpec {
    BindingSpec::ModbusTcp { port: Some(502), unit_id: Some(1), endianness: Endianness::Big, export: modbus_export(rows) }
}

fn tls(rows: Vec<(&str, ModbusExportEntry)>) -> BindingSpec {
    BindingSpec::ModbusTls {
        port: 802,
        certfile: "c.pem".to_string(),
        keyfile: "k.pem".to_string(),
        cafile: None,
        export: modbus_export(rows),
    }
}

/// The Modbus binding every language 2 document below starts with.
fn a_on_holding() -> BindingSpec {
    tcp(vec![("a", row(ModbusExportSpace::Holding, 0, 10))])
}

fn doc(points: Vec<PointRow>, bindings: Vec<BindingSpec>, scenarios: Vec<ScenarioSpec>) -> DocumentV2 {
    DocumentV2 {
        name: "d".to_string(),
        spec_version: 2,
        version: "1.0".to_string(),
        device_type: "x".to_string(),
        description: String::new(),
        identity: IdentitySpec { vendor: String::new(), product: String::new(), revision: String::new() },
        points,
        bindings,
        alarms: Vec::new(),
        scenarios,
    }
}

fn load_2(d: DocumentV2) -> Result<DeviceSpec, Invalid> {
    language_of(Some(d.spec_version as u64), false)?;
    accept_device(load_v2(d)?)
}

fn scenario(id: &str, steps: Vec<ScenarioStep>) -> ScenarioSpec {
    ScenarioSpec { id: id.to_string(), name: "S".to_string(), description: String::new(), steps }
}

fn set_point(point: &str, value: PointLiteral) -> ScenarioStep {
    ScenarioStep::SetPoint(SetPointStep { at: num(0.0), point: point.to_string(), value })
}

fn fault(fault_type: FaultType, target: Option<&str>) -> ScenarioStep {
    ScenarioStep::InjectFault(InjectFaultStep {
        at: num(0.0),
        fault_type,
        register_name: target.map(|t| t.to_string()),
        value: Some(num(5.0)),
        duration_s: num(1.0),
    })
}

fn err2(points: Vec<PointRow>, bindings: Vec<BindingSpec>, scenarios: Vec<ScenarioSpec>) -> Invalid {
    load_2(doc(points, bindings, scenarios)).unwrap_err()
}

fn v1(registers: RegisterMapSpec, scenarios: Vec<ScenarioSpec>) -> DeviceSpec {
    DeviceSpec {
        name: "d".to_string(),
        spec_version: default_spec_version(),
        version: "1.0".to_string(),
        device_type: "x".to_string(),
        description: String::new(),
        identity: IdentitySpec { vendor: String::new(), product: String::new(), revision: String::new() },
        modbus: ModbusSpec { default_port: 502, unit_id: 1, endianness: Endianness::Big },
        registers,
        alarms: Vec::new(),
        bindings: Vec::new(),
        scenarios,
        points: Vec::new(),
        ua_naming: UaNaming::SpacePrefix,
    }
}

fn temperature() -> RegisterSpec {
    RegisterSpec {
        address: 0,
        name: "temperature".to_string(),
        description: String::new(),
        unit: String::new(),
        default: num(20.0),
        scale: 10,
        data_type: DataType::Uint16,
        simulation: None,
    }
}

fn coil(name: &str, trigger: Option<TriggerSpec>) -> CoilSpec {
    CoilSpec { address: 0, name: name.to_string(), description: String::new(), default: false, trigger }
}

fn err1(spec: DeviceSpec) -> Invalid {
    accept_device(finish_v1(spec)).unwrap_err()
}

#[test]
fn spec_version_out_of_range() {
    let mut spec = v1(RegisterMapSpec::empty(), Vec::new());
    spec.spec_version = 3;
    let e = err1(spec);
    assert_eq!(e, Invalid::SpecVersion(3));
    assert_eq!(e.message(), "spec_version 3 is not supported (this runtime understands 1\u{2013}2)");
}

#[test]
fn duplicate_coil_names() {
    let map = RegisterMapSpec {
        holding: Vec::new(),
        input: Vec::new(),
        coils: vec![coil("c", None)],
        discrete: vec![CoilSpec { address: 1, ..coil("c", None) }],
    };
    let e = err1(v1(map, Vec::new()));
    assert_eq!(e, Invalid::DuplicateCoilName("c".to_string()));
    assert_eq!(e.message(), "duplicate coil/discrete name 'c'");
}

#[test]
fn trigger_on_unknown_register() {
    let map = RegisterMapSpec {
        holding: vec![temperature()],
        input: Vec::new(),
        coils: vec![coil("alarm", trig("missing"))],
        discrete: Vec::new(),
    };
    let e = err1(v1(map, Vec::new()));
    assert_eq!(e.message(), "coil 'alarm': trigger references unknown register 'missing'");
}

#[test]
fn behavior_errors_name_their_register() {
    let mut reg = temperature();
    reg.simulation = Some(BehaviorSpec::GaussianNoise { std_dev: num(-1.0), drift: None });
    let map = RegisterMapSpec { holding: vec![reg], input: Vec::new(), coils: Vec::new(), discrete: Vec::new() };
    assert_eq!(err1(v1(map, Vec::new())).message(), "register 'temperature': std_dev must be > 0");
}

#[test]
fn input_register_overlap_names_input() {
    let second = RegisterSpec { name: "other".to_string(), ..temperature() };
    let map = RegisterMapSpec { holding: Vec::new(), input: vec![temperature(), second], coils: Vec::new(), discrete: Vec::new() };
    let e = err1(v1(map, Vec::new()));
    assert_eq!(e, Invalid::AddressOverlap(RegisterSpace::Input, 0));
    assert_eq!(e.message(), "input address 0 overlaps another register");
}

#[test]
fn language_two_needs_points() {
    let e = err2(Vec::new(), Vec::new(), Vec::new());
    assert_eq!(e, Invalid::NoPoints);
    assert_eq!(e.message(), "language 2: points must not be empty");
}

#[test]
fn point_ids_must_be_set_and_unique() {
    assert_eq!(err2(vec![analog("")], Vec::new(), Vec::new()).message(), "point id must not be empty");
    let e = err2(vec![analog("a"), analog("a")], vec![a_on_holding()], Vec::new());
    assert_eq!(e.message(), "duplicate point id 'a'");
}

#[test]
fn point_kind_rules() {
    let mut a = analog("a");
    a.trigger = trig("a");
    assert_eq!(err2(vec![a], Vec::new(), Vec::new()).message(), "point 'a': analog points cannot have trigger");
    let mut b = binary("b");
    b.simulation = Some(BehaviorSpec::Constant);
    assert_eq!(err2(vec![b], Vec::new(), Vec::new()).message(), "point 'b': binary points cannot have simulation");
    let mut a = analog("a");
    a.simulation = Some(BehaviorSpec::Uniform { min: num(2.0), max: num(1.0) });
    // Without a Modbus plane every point gets a backing register, and registers are checked first.
    assert_eq!(err2(vec![a], Vec::new(), Vec::new()).message(), "register 'a': uniform min must be less than max");
}

#[test]
fn point_triggers_need_an_analog_source() {
    let mut b = binary("b");
    b.trigger = trig("zz");
    let e = err2(vec![analog("a"), b], vec![a_on_holding()], Vec::new());
    assert_eq!(e.message(), "point 'b': trigger references unknown point 'zz'");
    let mut b = binary("b");
    b.trigger = trig("c");
    let e = err2(vec![analog("a"), b, binary("c")], vec![a_on_holding()], Vec::new());
    assert_eq!(e.message(), "point 'b': trigger source 'c' must be analog");
}

#[test]
fn language_two_exports_must_be_filled() {
    let e = err2(vec![analog("a")], vec![tcp(Vec::new())], Vec::new());
    assert_eq!(e, Invalid::EmptyModbusExport);
    let ua = BindingSpec::Opcua { port: 4840, export: Export::new() };
    let e = err2(vec![analog("a")], vec![a_on_holding(), ua], Vec::new());
    assert_eq!(e.message(), "language 2: opcua bindings require a non-empty export");
    let bn = BindingSpec::BacnetIp { port: 47808, device_instance: 1, export: Export::new() };
    let e = err2(vec![analog("a")], vec![a_on_holding(), bn], Vec::new());
    assert_eq!(e.message(), "language 2: bacnet-ip bindings require a non-empty export");
}

#[test]
fn exports_must_name_points() {
    let mut ua = Export::new();
    ua.insert("zz".to_string(), OpcuaExportEntry {});
    let e = err2(vec![analog("a")], vec![a_on_holding(), BindingSpec::Opcua { port: 4840, export: ua }], Vec::new());
    assert_eq!(e.message(), "opcua export 'zz' is not a point");
    let mut bn = Export::new();
    bn.insert("zz".to_string(), BacnetExportEntry { object: BacnetObjectType::AnalogInput, instance: 1 });
    let binding = BindingSpec::BacnetIp { port: 47808, device_instance: 1, export: bn };
    let e = err2(vec![analog("a")], vec![a_on_holding(), binding], Vec::new());
    assert_eq!(e.message(), "bacnet export 'zz' is not a point");
    let rows = vec![("a", row(ModbusExportSpace::Holding, 0, 10)), ("zz", row(ModbusExportSpace::Holding, 4, 10))];
    let e = err2(vec![analog("a")], vec![tcp(rows)], Vec::new());
    assert_eq!(e, Invalid::UnknownModbusExport("zz".to_string()));
    assert_eq!(e.message(), "modbus export 'zz' is not a point");
}

#[test]
fn bacnet_objects_are_unique() {
    let mut bn = Export::new();
    bn.insert("a".to_string(), BacnetExportEntry { object: BacnetObjectType::AnalogValue, instance: 1 });
    bn.insert("c".to_string(), BacnetExportEntry { object: BacnetObjectType::AnalogValue, instance: 1 });
    let binding = BindingSpec::BacnetIp { port: 47808, device_instance: 1, export: bn };
    let e = err2(vec![analog("a"), analog("c")], vec![a_on_holding(), binding], Vec::new());
    assert_eq!(e, Invalid::DuplicateBacnetObject("c".to_string(), BacnetObjectType::AnalogValue, 1));
    assert_eq!(e.message(), "bacnet export 'c': duplicate analog-value instance 1");
}

#[test]
fn modbus_export_rows_are_checked() {
    let e = err2(vec![analog("a")], vec![a_on_holding(), tls(vec![("a", row(ModbusExportSpace::Input, 0, 0))])], Vec::new());
    assert_eq!(e.message(), "modbus export 'a': scale must be >= 1");
    let e = err2(
        vec![analog("a"), binary("b")],
        vec![a_on_holding(), tls(vec![("b", row(ModbusExportSpace::Holding, 0, 1))])],
        Vec::new(),
    );
    assert_eq!(e, Invalid::ExportSpace("b".to_string(), PointKind::Binary, ModbusExportSpace::Holding));
    assert_eq!(e.message(), "modbus export 'b': binary point cannot use space holding");
    let rows = vec![("a", row(ModbusExportSpace::Input, 3, 1)), ("c", row(ModbusExportSpace::Input, 3, 1))];
    let e = err2(vec![analog("a"), analog("c")], vec![a_on_holding(), tls(rows)], Vec::new());
    assert_eq!(e.message(), "modbus input address 3 overlaps another export");
}

#[test]
fn binary_default_must_be_a_boolean() {
    let mut b = binary("b");
    b.default = YamlScalar::Number(num(1.0));
    let e = err2(vec![b], Vec::new(), Vec::new());
    assert_eq!(e.message(), "point 'b': binary default must be a boolean");
}

#[test]
fn embedded_scenario_ids() {
    let steps = || vec![set_point("a", PointLiteral::Float(num(2.0)))];
    let e = err2(vec![analog("a")], vec![a_on_holding()], vec![scenario("s", steps()), scenario("s", steps())]);
    assert_eq!(e.message(), "duplicate scenario id 's'");
    let e = err2(vec![analog("a")], vec![a_on_holding()], vec![scenario("", steps())]);
    assert_eq!(e.message(), "scenario 'S': embedded scenarios must set id");
    let e = err2(vec![analog("a")], vec![a_on_holding()], vec![scenario("s", Vec::new())]);
    assert_eq!(e, Invalid::Steps(StepFault::NoSteps));
}

#[test]
fn set_point_steps_are_checked() {
    let pts = || vec![analog("a"), binary("b")];
    let e = err2(pts(), vec![a_on_holding()], vec![scenario("s", vec![set_point("zz", PointLiteral::Bool(true))])]);
    assert_eq!(e.message(), "scenario 's': set_point 'zz' not found");
    let e = err2(pts(), vec![a_on_holding()], vec![scenario("s", vec![set_point("a", PointLiteral::Bool(true))])]);
    assert_eq!(e.message(), "scenario 's': set_point 'a' needs a numeric value");
    let e = err2(pts(), vec![a_on_holding()], vec![scenario("s", vec![set_point("b", PointLiteral::Int(2))])]);
    assert_eq!(e.message(), "scenario 's': set_point 'b' needs a boolean value");
    let ok = load_2(doc(pts(), vec![a_on_holding()], vec![scenario("s", vec![set_point("b", PointLiteral::Int(1))])]));
    assert!(ok.is_ok());
}

#[test]
fn fault_steps_are_checked() {
    let pts = || vec![analog("a"), binary("b")];
    let e = err2(pts(), vec![a_on_holding()], vec![scenario("s", vec![fault(FaultType::Dropout, None)])]);
    assert_eq!(e.message(), "scenario 's': inject_fault requires register_name");
    let e = err2(pts(), vec![a_on_holding()], vec![scenario("s", vec![fault(FaultType::Alarm, Some("a"))])]);
    assert_eq!(e.message(), "scenario 's': inject_fault alarm target 'a' is not a binary point");
    let e = err2(pts(), vec![a_on_holding()], vec![scenario("s", vec![fault(FaultType::Spike, Some("b"))])]);
    assert_eq!(e.message(), "scenario 's': inject_fault target 'b' is not an analog point");
    assert!(load_2(doc(pts(), vec![a_on_holding()], vec![scenario("s", vec![fault(FaultType::Alarm, Some("b"))])])).is_ok());
}

#[test]
fn set_coil_and_register_type_steps_are_checked() {
    let map = || RegisterMapSpec {
        holding: vec![temperature()],
        input: Vec::new(),
        coils: vec![coil("alarm", None)],
        discrete: Vec::new(),
    };
    let step = ScenarioStep::SetCoil(SetCoilStep { at: num(0.0), coil: "zz".to_string(), value: true });
    let e = err1(v1(map(), vec![scenario("s", vec![step])]));
    assert_eq!(e.message(), "scenario 's': set_coil 'zz' not found");
    let step = ScenarioStep::SetRegister(SetRegisterStep {
        at: num(0.0),
        register_name: "temperature".to_string(),
        value: num(1.0),
        register_type: "input".to_string(),
    });
    let e = err1(v1(map(), vec![scenario("s", vec![step])]));
    assert_eq!(e.message(), "scenario 's': set_register 'temperature' not found in input");
    let step = ScenarioStep::SetRegister(SetRegisterStep {
        at: num(0.0),
        register_name: "temperature".to_string(),
        value: num(1.0),
        register_type: "coils".to_string(),
    });
    let e = err1(v1(map(), vec![scenario("s", vec![step])]));
    assert_eq!(e, Invalid::Steps(StepFault::RegisterType));
    assert_eq!(e.message(), "register_type must be 'holding' or 'input'");
    let step = ScenarioStep::SetRegister(SetRegisterStep {
        at: num(0.0),
        register_name: "temperature".to_string(),
        value: num(1.0),
        register_type: default_holding(),
    });
    assert!(accept_device(finish_v1(v1(map(), vec![scenario("s", vec![step])]))).is_ok());
}

#[test]
fn materialized_tables_follow_addresses() {
    let bindings = vec![tcp(vec![
        ("a", row(ModbusExportSpace::Holding, 5, 10)),
        ("b", row(ModbusExportSpace::Holding, 1, 10)),
        ("c", row(ModbusExportSpace::Holding, 3, 10)),
        ("x", row(ModbusExportSpace::Coil, 9, 1)),
        ("y", row(ModbusExportSpace::Coil, 2, 1)),
    ])];
    let spec = load_2(doc(vec![analog("a"), analog("b"), analog("c"), binary("x"), binary("y")], bindings, Vec::new())).unwrap();
    let holding: Vec<(u16, &str)> = spec.registers.holding.iter().map(|r| (r.address, r.name.as_str())).collect();
    assert_eq!(holding, vec![(1, "b"), (3, "c"), (5, "a")]);
    let coils: Vec<(u16, &str)> = spec.registers.coils.iter().map(|c| (c.address, c.name.as_str())).collect();
    assert_eq!(coils, vec![(2, "y"), (9, "x")]);
}
