use simbus::bacnet::{bacnet_export, bacnet_objects, device_plan, writable};
use simbus::device::{
    default_spec_version, BindingSpec, CoilSpec, DeviceSpec, IdentitySpec, ModbusSpec, RegisterMapSpec, RegisterSpec,
    TriggerSpec,
};
use simbus::encode::CellValue;
use simbus::engine::{
    find_numeric_by_name, from_spec, override_coil, override_discrete, reset_from_spec, resolve_step, trigger_action,
    trigger_plan, ActiveFault, DeviceError, FaultTable, StepAction, TriggerAction,
};
use simbus::runner::playback_order;
use simbus::export::{BacnetExportEntry, Export};
use simbus::ieee::Real;
use simbus::lift::finish_v1;
use simbus::load::accept_device;
use simbus::opcua::{ua_identity, ua_nodes, UaFolder};
use simbus::scenario::{default_holding, InjectFaultStep, ScenarioStep, SetCoilStep, SetRegisterStep, SetTickIntervalStep};
use simbus::types::{
    BacnetObjectType, DataType, Endianness, FaultType, PointKind, RegisterSpace, TriggerCondition, UaNaming,
};

fn num(x: f64) -> Real {
    Real::from_bits(x.to_bits())
}

fn reg(address: u16, name: &str, default: f64) -> RegisterSpec {
    RegisterSpec {
        address,
        name: name.to_string(),
        description: String::new(),
        unit: String::new(),
        default: num(default),
        scale: 10,
        data_type: DataType::Uint16,
        simulation: None,
    }
}

fn bit(address: u16, name: &str, default: bool) -> CoilSpec {
    CoilSpec { address, name: name.to_string(), description: String::new(), default, trigger: None }
}

fn device(bindings: Vec<BindingSpec>) -> DeviceSpec {
    let spec = DeviceSpec {
        name: "Generic T&H Sensor".to_string(),
        spec_version: default_spec_version(),
        version: "1.0".to_string(),
        device_type: "tnh_sensor".to_string(),
        description: "room sensor".to_string(),
        identity: IdentitySpec { vendor: "Acme".to_string(), product: String::new(), revision: "2.1".to_string() },
        modbus: ModbusSpec { default_port: 502, unit_id: 1, endianness: Endianness::Big },
        registers: RegisterMapSpec {
            holding: vec![reg(0, "temperature", 22.5), reg(1, "humidity", 45.0)],
            input: vec![reg(0, "supply_voltage", 24.0)],
            coils: vec![bit(0, "high_temp_alarm", false)],
            discrete: vec![bit(0, "door_open", true)],
        },
        alarms: Vec::new(),
        bindings,
        scenarios: Vec::new(),
        points: Vec::new(),
        ua_naming: UaNaming::SpacePrefix,
    };
    accept_device(finish_v1(spec)).unwrap()
}

fn cells() -> (Vec<CellValue>, Vec<CellValue>) {
    (vec![CellValue::U16(225), CellValue::U16(450)], vec![CellValue::U16(240)])
}

#[test]
fn ua_nodes_follow_the_register_map() {
    let nodes = ua_nodes(&device(Vec::new()));
    let ids: Vec<&str> = nodes.iter().map(|n| n.node_id.as_str()).collect();
    assert_eq!(
        ids,
        vec!["holding/temperature", "holding/humidity", "input/supply_voltage", "coils/high_temp_alarm", "discrete/door_open"]
    );
    assert_eq!(nodes[0].folder, UaFolder::Holding);
    assert!(nodes[0].numeric && nodes[0].writable);
    assert!(nodes[2].numeric && !nodes[2].writable);
    assert!(!nodes[3].numeric && nodes[3].writable);
    assert!(!nodes[4].numeric && !nodes[4].writable);
    assert_eq!(nodes[1].address, 1);
    assert_eq!(UaFolder::Discrete.browse_name(), "Discrete");
}

#[test]
fn ua_identity_names_the_device() {
    let id = ua_identity(&device(Vec::new()), 4840);
    assert_eq!(id.namespace_uri, "urn:simbus:tnh_sensor");
    assert_eq!(id.application_name, "Generic T&H Sensor");
    assert_eq!(id.manufacturer, "Acme");
    assert_eq!(id.product, "Generic T&H Sensor");
    assert_eq!(id.software_version, "2.1");
    assert_eq!(id.discovery_urls, vec!["opc.tcp://0.0.0.0:4840/".to_string(), "opc.tcp://127.0.0.1:4840/".to_string()]);
}

#[test]
fn bacnet_objects_follow_the_export() {
    let mut export: Export<BacnetExportEntry> = Export::new();
    export.insert("temperature".to_string(), BacnetExportEntry { object: BacnetObjectType::AnalogInput, instance: 1 });
    export.insert("nope".to_string(), BacnetExportEntry { object: BacnetObjectType::AnalogValue, instance: 2 });
    export.insert("high_temp_alarm".to_string(), BacnetExportEntry { object: BacnetObjectType::BinaryValue, instance: 3 });
    let spec = device(vec![BindingSpec::BacnetIp { port: 47808, device_instance: 1001, export }]);
    let rows = bacnet_export(&spec);
    assert_eq!(rows.len(), 3);
    let objects = bacnet_objects(&spec, &rows);
    assert_eq!(objects.len(), 2);
    // Rows come in id order: `high_temp_alarm` before `temperature`.
    assert_eq!((objects[0].object, objects[0].kind), (BacnetObjectType::BinaryValue, PointKind::Binary));
    assert_eq!((objects[1].name.as_str(), objects[1].instance), ("temperature", 1));
    assert_eq!(objects[1].kind, PointKind::Analog);
    assert!(!writable(BacnetObjectType::AnalogInput));
    assert!(writable(BacnetObjectType::AnalogOutput));
    assert!(writable(BacnetObjectType::BinaryValue));
    assert!(bacnet_export(&device(Vec::new())).is_empty());
}

#[test]
fn bacnet_device_object_carries_identity() {
    let plan = device_plan(&device(Vec::new()), 1001);
    assert_eq!(plan.instance, 1001);
    assert_eq!(plan.name, "Generic T&H Sensor");
    assert_eq!(plan.vendor_name, Some("Acme".to_string()));
    assert_eq!(plan.model_name, None);
    assert_eq!(plan.firmware_revision, Some("2.1".to_string()));
    assert_eq!(plan.description, "room sensor");
}

#[test]
fn bank_is_seeded_from_the_document() {
    let spec = device(Vec::new());
    let (h, i) = cells();
    let bank = from_spec(&spec, &h, &i);
    let snap = bank.snapshot();
    assert_eq!(snap.holding.get(&0), Some(&225));
    assert_eq!(snap.holding.get(&1), Some(&450));
    assert_eq!(snap.input.get(&0), Some(&240));
    assert_eq!(snap.coils.get(&0), Some(&false));
    assert_eq!(snap.discrete.get(&0), Some(&true));
    assert_eq!(bank.endianness(), Endianness::Big);
}

#[test]
fn reset_rewinds_overrides() {
    let spec = device(Vec::new());
    let (h, i) = cells();
    let mut bank = from_spec(&spec, &h, &i);
    assert_eq!(override_coil(&mut bank, 0, true), Ok(true));
    assert_eq!(override_discrete(&mut bank, 0, false), Ok(false));
    bank.set_cell(RegisterSpace::Holding, 0, CellValue::U16(400));
    reset_from_spec(&mut bank, &spec, &h, &i);
    assert_eq!(bank.snapshot(), from_spec(&spec, &h, &i).snapshot());
}

#[test]
fn overrides_of_unknown_bits_name_the_register_space() {
    let spec = device(Vec::new());
    let (h, i) = cells();
    let mut bank = from_spec(&spec, &h, &i);
    assert_eq!(
        override_coil(&mut bank, 9, true),
        Err(DeviceError::UnknownRegister { space: RegisterSpace::Holding, address: 9 })
    );
    assert_eq!(
        override_discrete(&mut bank, 9, true),
        Err(DeviceError::UnknownRegister { space: RegisterSpace::Input, address: 9 })
    );
}

#[test]
fn steps_resolve_against_the_device() {
    let spec = device(Vec::new());
    assert_eq!(find_numeric_by_name(&spec, "humidity"), Some((RegisterSpace::Holding, 1)));
    assert_eq!(find_numeric_by_name(&spec, "supply_voltage"), Some((RegisterSpace::Input, 0)));
    assert_eq!(find_numeric_by_name(&spec, "nope"), None);
    let step = ScenarioStep::SetRegister(SetRegisterStep {
        at: num(0.0),
        register_name: "humidity".to_string(),
        value: num(50.0),
        register_type: default_holding(),
    });
    assert_eq!(
        resolve_step(&spec, &step),
        StepAction::WriteRegister { space: RegisterSpace::Holding, address: 1, value: num(50.0) }
    );
    let step = ScenarioStep::SetCoil(SetCoilStep { at: num(1.0), coil: "high_temp_alarm".to_string(), value: true });
    assert_eq!(resolve_step(&spec, &step), StepAction::WriteCoil { address: 0, value: true });
    let step = ScenarioStep::SetCoil(SetCoilStep { at: num(1.0), coil: "missing".to_string(), value: true });
    assert_eq!(resolve_step(&spec, &step), StepAction::Skip);
    let step = ScenarioStep::SetTickInterval(SetTickIntervalStep { at: num(2.0), tick_interval: num(0.5) });
    assert_eq!(resolve_step(&spec, &step), StepAction::SetTickInterval(num(0.5)));
    let step = ScenarioStep::InjectFault(InjectFaultStep {
        at: num(3.0),
        fault_type: FaultType::Spike,
        register_name: Some("temperature".to_string()),
        value: Some(num(42.0)),
        duration_s: num(10.0),
    });
    assert_eq!(
        resolve_step(&spec, &step),
        StepAction::InjectFault(ActiveFault::new(FaultType::Spike, Some("temperature".to_string()), Some(num(42.0)), num(10.0)))
    );
}

#[test]
fn fault_table_keeps_one_fault_per_target() {
    let mut table = FaultTable::new();
    table.insert(ActiveFault::new(FaultType::Spike, Some("temperature".to_string()), Some(num(42.0)), num(10.0)));
    table.insert(ActiveFault::new(FaultType::Freeze, Some("temperature".to_string()), None, num(5.0)));
    table.insert(ActiveFault::new(FaultType::Dropout, None, None, num(3.0)));
    assert_eq!(table.faults().len(), 2);
    assert_eq!(table.get("temperature").unwrap().fault_type, FaultType::Freeze);
    assert_eq!(table.get("_device").unwrap().fault_type, FaultType::Dropout);
    assert_eq!(table.applicable("humidity").unwrap().fault_type, FaultType::Dropout);
    assert_eq!(table.applicable("temperature").unwrap().fault_type, FaultType::Freeze);
    assert_eq!(table.faults()[0].key(), "temperature");
    table.clear();
    assert!(table.faults().is_empty());
    assert!(table.applicable("humidity").is_none());
}

#[test]
fn faults_expire_when_time_runs_out() {
    let mut table = FaultTable::new();
    table.insert(ActiveFault::new(FaultType::Spike, Some("a".to_string()), Some(num(1.0)), num(10.0)));
    table.insert(ActiveFault::new(FaultType::Freeze, Some("b".to_string()), None, num(1.0)));
    table.insert(ActiveFault::new(FaultType::Dropout, None, None, num(4.0)));
    table.expire(&vec![num(9.0), num(0.0), num(-0.0)]);
    assert_eq!(table.faults().len(), 1);
    assert_eq!(table.faults()[0].key(), "a");
    assert_eq!(table.faults()[0].remaining_s, num(9.0));
    assert_eq!(table.faults()[0].duration_s, num(10.0));
}

#[test]
fn steps_play_in_time_order_ties_in_document_order() {
    let tick = |at: f64| ScenarioStep::SetTickInterval(SetTickIntervalStep { at: num(at), tick_interval: num(1.0) });
    let steps = vec![tick(5.0), tick(0.0), tick(5.0), tick(-0.0), tick(2.5), tick(0.0)];
    assert_eq!(playback_order(&steps), vec![3, 1, 5, 4, 0, 2]);
    assert!(playback_order(&Vec::new()).is_empty());
}

#[test]
fn tick_plan_for_alarm_coils() {
    let mut spec = device(Vec::new());
    spec.registers.coils[0].trigger = Some(TriggerSpec {
        source_register: "temperature".to_string(),
        condition: TriggerCondition::Gt,
        threshold: num(30.0),
    });
    spec.registers.discrete[0].trigger = Some(TriggerSpec {
        source_register: "supply_voltage".to_string(),
        condition: TriggerCondition::Lt,
        threshold: num(20.0),
    });
    let mut faults = FaultTable::new();
    let (coils, discrete) = trigger_plan(&spec, &faults);
    assert_eq!(coils, vec![TriggerAction::Compare { space: RegisterSpace::Holding, register: 0 }]);
    assert_eq!(discrete, vec![TriggerAction::Compare { space: RegisterSpace::Input, register: 0 }]);
    faults.insert(ActiveFault::new(FaultType::Alarm, Some("high_temp_alarm".to_string()), None, num(200.0)));
    faults.insert(ActiveFault::new(FaultType::Alarm, Some("door_open".to_string()), None, num(200.0)));
    let (coils, discrete) = trigger_plan(&spec, &faults);
    assert_eq!(coils, vec![TriggerAction::Force]);
    assert_eq!(discrete, vec![TriggerAction::Compare { space: RegisterSpace::Input, register: 0 }]);
    spec.registers.coils[0].trigger = None;
    assert_eq!(trigger_action(&spec, &FaultTable::new(), &spec.registers.coils[0], true), TriggerAction::Keep);
}

#[test]
fn bacnet_listener_is_the_first_bacnet_binding() {
    assert_eq!(simbus::bacnet::bacnet_listener(&device(Vec::new())), None);
    let spec = device(vec![
        BindingSpec::Opcua { port: 4840, export: Export::new() },
        BindingSpec::BacnetIp { port: 47808, device_instance: 7, export: Export::new() },
        BindingSpec::BacnetIp { port: 47809, device_instance: 8, export: Export::new() },
    ]);
    assert_eq!(simbus::bacnet::bacnet_listener(&spec), Some((47808, 7)));
}
