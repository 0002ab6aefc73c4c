use simbus::export::{BacnetExportEntry, Export};
use simbus::behavior::{BehaviorFault, BehaviorSpec, DriftModifier, StepEntry};
use simbus::ieee::Real;
use simbus::scenario::{default_duration, scenario_id_ok, PointLiteral, ScenarioSpec, ScenarioStep, SetTickIntervalStep, StepFault};
use simbus::text::{str_eq, str_less};
use simbus::types::{
    AlarmSeverity, BacnetObjectType, DataType, Endianness, ModbusExportSpace, PointClass, PointKind, ProtocolId,
    TriggerCondition,
};

fn num(x: f64) -> Real {
    Real::from_bits(x.to_bits())
}

#[test]
fn wire_strings_match_yaml() {
    assert_eq!(Endianness::Big.as_str(), "big");
    assert_eq!(Endianness::BigSwap.as_str(), "big_swap");
    assert_eq!(Endianness::LittleSwap.as_str(), "little_swap");
    assert_eq!(DataType::Uint16.as_str(), "uint16");
    assert_eq!(DataType::Float32.as_str(), "float32");
    assert_eq!(DataType::Float32.word_count(), 2);
}

#[test]
fn more_wire_strings() {
    assert_eq!(Endianness::Little.as_str(), "little");
    assert_eq!(DataType::Int16.as_str(), "int16");
    assert_eq!(DataType::Uint32.as_str(), "uint32");
    assert_eq!(DataType::Uint16.word_count(), 1);
    assert_eq!(DataType::Uint32.word_count(), 2);
    assert_eq!(TriggerCondition::Gte.as_str(), "gte");
    assert_eq!(AlarmSeverity::Warning.as_str(), "warning");
    assert_eq!(ProtocolId::BacnetIp.as_str(), "bacnet-ip");
    assert_eq!(PointKind::Analog.as_str(), "analog");
    assert_eq!(PointClass::Output.as_str(), "output");
    assert_eq!(ModbusExportSpace::Discrete.as_str(), "discrete");
    assert_eq!(BacnetObjectType::BinaryOutput.as_str(), "binary-output");
}

#[test]
fn served_protocols() {
    assert!(ProtocolId::ModbusTcp.is_implemented());
    assert!(ProtocolId::ModbusTls.is_implemented());
    assert!(ProtocolId::Opcua.is_implemented());
    assert!(ProtocolId::BacnetIp.is_implemented());
    assert!(!ProtocolId::ModbusRtu.is_implemented());
    assert!(!ProtocolId::SnmpV2c.is_implemented());
    assert!(!ProtocolId::MqttSparkplug.is_implemented());
}

#[test]
fn point_classes_and_bacnet_objects() {
    assert!(!PointClass::Input.field_writable());
    assert!(PointClass::Value.field_writable());
    assert!(PointClass::Output.field_writable());
    assert!(BacnetObjectType::AnalogInput.matches_point(PointKind::Analog, PointClass::Input));
    assert!(!BacnetObjectType::AnalogInput.matches_point(PointKind::Binary, PointClass::Input));
    assert!(!BacnetObjectType::BinaryValue.matches_point(PointKind::Binary, PointClass::Output));
}

#[test]
fn reals_order_as_ieee_doubles() {
    let xs = [-f64::INFINITY, -3.5, -0.0, 0.0, 1e-300, 2.0, 30.0, f64::INFINITY, f64::NAN];
    for a in xs {
        for b in xs {
            assert_eq!(num(a).lt(num(b)), a < b, "{a} < {b}");
            assert_eq!(num(a).le(num(b)), a <= b, "{a} <= {b}");
        }
        assert_eq!(num(a).is_nan(), a.is_nan());
        assert_eq!(num(a).is_positive(), a > 0.0);
    }
    assert_eq!(Real::zero().to_bits(), 0);
    assert_eq!(f64::from_bits(default_duration().bits), 30.0);
}

#[test]
fn text_equality_and_order() {
    assert!(str_eq("abc", "abc"));
    assert!(!str_eq("abc", "abd"));
    assert!(!str_eq("ab", "abc"));
    for (a, b) in [("a", "b"), ("ab", "a"), ("", "x"), ("heat-wave", "heat"), ("same", "same"), ("Z", "a")] {
        assert_eq!(str_less(a, b), a < b, "{a} < {b}");
    }
}

#[test]
fn scenario_ids_are_kebab_case() {
    assert!(scenario_id_ok("heat-wave"));
    assert!(scenario_id_ok("fast-alarm-test2"));
    assert!(scenario_id_ok("a"));
    assert!(!scenario_id_ok(""));
    assert!(!scenario_id_ok("Heat"));
    assert!(!scenario_id_ok("-lead"));
    assert!(scenario_id_ok("trail-"));
    assert!(scenario_id_ok("double--dash"));
    assert!(!scenario_id_ok("9lives"));
    assert!(!scenario_id_ok("under_score"));
}

#[test]
fn scenario_steps_are_checked() {
    let tick = |at: f64, t: f64| ScenarioStep::SetTickInterval(SetTickIntervalStep { at: num(at), tick_interval: num(t) });
    let mut s = ScenarioSpec { id: String::new(), name: "n".to_string(), description: String::new(), steps: Vec::new() };
    assert_eq!(s.validate(), Err(StepFault::NoSteps));
    assert_eq!(s.run_id(), "n");
    s.steps.push(tick(-1.0, 1.0));
    assert_eq!(s.validate(), Err(StepFault::NegativeAt));
    s.steps[0] = tick(0.0, 0.0);
    assert_eq!(s.validate(), Err(StepFault::TickInterval));
    s.steps[0] = tick(0.0, 0.5);
    assert_eq!(s.validate(), Ok(()));
    assert_eq!(s.steps[0].at(), num(0.0));
    s.id = "run-me".to_string();
    assert_eq!(s.run_id(), "run-me");
}

#[test]
fn point_literals() {
    assert_eq!(PointLiteral::Bool(true).as_bool(), Some(true));
    assert_eq!(PointLiteral::Int(0).as_bool(), Some(false));
    assert_eq!(PointLiteral::Int(1).as_bool(), Some(true));
    assert_eq!(PointLiteral::Int(2).as_bool(), None);
    assert_eq!(PointLiteral::Float(num(1.0)).as_bool(), None);
    assert!(PointLiteral::Float(num(1.0)).has_analog());
    assert!(PointLiteral::Int(7).has_analog());
    assert!(!PointLiteral::Bool(false).has_analog());
}

#[test]
fn behaviors_are_checked() {
    assert_eq!(BehaviorSpec::Constant.validate(), Ok(()));
    assert_eq!(
        BehaviorSpec::GaussianNoise { std_dev: num(0.0), drift: None }.validate(),
        Err(BehaviorFault::StdDev)
    );
    let drift = DriftModifier { enabled: true, rate: num(0.1), bounds: (num(5.0), num(5.0)) };
    assert_eq!(
        BehaviorSpec::GaussianNoise { std_dev: num(0.3), drift: Some(drift) }.validate(),
        Err(BehaviorFault::DriftBounds)
    );
    assert_eq!(
        BehaviorSpec::Sinusoidal { period_hours: num(1.0), amplitude: num(-1.0), drift: None }.validate(),
        Err(BehaviorFault::Amplitude)
    );
    assert_eq!(
        BehaviorSpec::Sawtooth { period_seconds: num(10.0), min: num(3.0), max: num(1.0) }.validate(),
        Err(BehaviorFault::SawtoothRange)
    );
    assert_eq!(BehaviorSpec::Step { steps: Vec::new() }.validate(), Err(BehaviorFault::NoSteps));
    assert_eq!(
        BehaviorSpec::Step { steps: vec![StepEntry { at: num(-1.0), value: num(1.0) }] }.validate(),
        Err(BehaviorFault::StepAt)
    );
    assert_eq!(
        BehaviorSpec::Cycle { dwell_seconds: num(0.0), values: vec![num(1.0)] }.validate(),
        Err(BehaviorFault::DwellSeconds)
    );
    assert_eq!(BehaviorSpec::Drift { rate: num(1.0), bounds: (num(0.0), num(1.0)) }.kind_name(), "drift");
    assert_eq!(BehaviorSpec::GaussianNoise { std_dev: num(1.0), drift: None }.kind_name(), "gaussian_noise");
}

#[test]
fn total_order_matches_total_cmp() {
    let xs = [-f64::NAN, -f64::INFINITY, -3.5, -0.0, 0.0, 1e-300, 2.0, f64::INFINITY, f64::NAN];
    for a in xs {
        for b in xs {
            assert_eq!(num(a).total_le(num(b)), a.total_cmp(&b) != std::cmp::Ordering::Greater, "{a} vs {b}");
        }
    }
}

#[test]
fn export_keeps_one_row_per_id_in_id_order() {
    let mut x: Export<BacnetExportEntry> = Export::new();
    assert!(x.is_empty());
    x.insert("b".to_string(), BacnetExportEntry { object: BacnetObjectType::AnalogInput, instance: 1 });
    x.insert("a".to_string(), BacnetExportEntry { object: BacnetObjectType::BinaryInput, instance: 2 });
    x.insert("b".to_string(), BacnetExportEntry { object: BacnetObjectType::AnalogValue, instance: 3 });
    assert_eq!(x.len(), 2);
    assert_eq!(x.id(0), "a");
    assert_eq!(x.id(1), "b");
    assert_eq!(x.get("b").map(|e| e.instance), Some(3));
    assert_eq!(x.entry(0).instance, 2);
    x.insert("B".to_string(), BacnetExportEntry { object: BacnetObjectType::AnalogValue, instance: 4 });
    x.insert("ab".to_string(), BacnetExportEntry { object: BacnetObjectType::AnalogValue, instance: 5 });
    let ids: Vec<&str> = (0..x.len()).map(|i| x.id(i).as_str()).collect();
    assert_eq!(ids, vec!["B", "a", "ab", "b"]);
    assert!(x.get("c").is_none());
    assert_eq!(x.copy().len(), 4);
}
