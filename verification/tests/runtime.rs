use simbus::device::{
    default_modbus_tls_port, default_spec_version, BindingSpec, DeviceSpec, IdentitySpec, ModbusSpec,
    RegisterMapSpec, RegisterSpec,
};
use simbus::export::Export;
use simbus::ieee::Real;
use simbus::lift::finish_v1;
use simbus::listen::{admit_tls_files, check_run_args, field_listeners, refuse_unimplemented, require_pem, ListenArgs};
use simbus::load::accept_device;
use simbus::types::{DataType, Endianness, UaNaming};

fn num(x: f64) -> Real {
    Real::from_bits(x.to_bits())
}

fn no_flags() -> ListenArgs {
    ListenArgs { port: None, modbus_tls_port: None, modbus_cert: None, modbus_key: None, modbus_ca: None, opcua_port: None }
}

fn fixture(name: &str, bindings: Vec<BindingSpec>) -> DeviceSpec {
    let spec = DeviceSpec {
        name: name.to_string(),
        spec_version: default_spec_version(),
        version: "1.0".to_string(),
        device_type: "fixture".to_string(),
        description: String::new(),
        identity: IdentitySpec { vendor: String::new(), product: String::new(), revision: String::new() },
        modbus: ModbusSpec { default_port: 502, unit_id: 1, endianness: Endianness::Big },
        registers: RegisterMapSpec {
            holding: vec![RegisterSpec {
                address: 0,
                name: "temperature".to_string(),
                description: String::new(),
                unit: String::new(),
                default: num(22.5),
                scale: 10,
                data_type: DataType::Uint16,
                simulation: None,
            }],
            input: Vec::new(),
            coils: Vec::new(),
            discrete: Vec::new(),
        },
        alarms: Vec::new(),
        bindings,
        scenarios: Vec::new(),
        points: Vec::new(),
        ua_naming: UaNaming::SpacePrefix,
    };
    accept_device(finish_v1(spec)).unwrap()
}

fn sample() -> DeviceSpec {
    fixture("Check Fixture", Vec::new())
}

fn tcp() -> BindingSpec {
    BindingSpec::ModbusTcp { port: None, unit_id: None, endianness: Endianness::Big, export: Export::new() }
}

fn tls(cert: &str, key: &str) -> DeviceSpec {
    fixture(
        "tls-fix",
        vec![
            tcp(),
            BindingSpec::ModbusTls {
                port: default_modbus_tls_port(),
                certfile: cert.to_string(),
                keyfile: key.to_string(),
                cafile: None,
                export: Export::new(),
            },
        ],
    )
}

fn opcua() -> DeviceSpec {
    fixture("ua-fix", vec![tcp(), BindingSpec::Opcua { port: 4840, export: Export::new() }])
}

#[test]
fn default_bindings_are_tcp_only() {
    let listeners = field_listeners(&sample(), &no_flags());
    assert_eq!(listeners.tcp, Some((502, 1)));
    assert!(listeners.tls.is_none());
    assert!(listeners.opcua.is_none());
}

#[test]
fn tls_boot_fails_without_pem() {
    let spec = tls("/no/such/cert.pem", "/no/such/key.pem");
    let listeners = field_listeners(&spec, &no_flags());
    // Neither file exists: the certfile is refused first.
    let err = admit_tls_files(listeners, false, false, false).unwrap_err();
    assert!(err.contains("certfile not found"));
    assert_eq!(err, "modbus-tls certfile not found: /no/such/cert.pem");
}

#[test]
fn tls_refusal_goes_cert_key_then_ca() {
    let spec = tls("/no/such/cert.pem", "/no/such/key.pem");
    let err = admit_tls_files(field_listeners(&spec, &no_flags()), true, false, false).unwrap_err();
    assert_eq!(err, "modbus-tls keyfile not found: /no/such/key.pem");
    let mut args = no_flags();
    args.modbus_ca = Some("/no/such/ca.pem".to_string());
    let err = admit_tls_files(field_listeners(&spec, &args), true, true, false).unwrap_err();
    assert_eq!(err, "modbus-tls cafile not found: /no/such/ca.pem");
    let ok = admit_tls_files(field_listeners(&spec, &no_flags()), true, true, false).unwrap();
    assert_eq!(ok.tls.unwrap().port, default_modbus_tls_port());
    let plain = admit_tls_files(field_listeners(&sample(), &no_flags()), false, false, false).unwrap();
    assert!(plain.tls.is_none());
}

#[test]
fn port_override_does_not_change_tls_port() {
    let spec = tls("/tmp/cert.pem", "/tmp/key.pem");
    let mut args = no_flags();
    args.port = Some(1502);
    args.modbus_tls_port = Some(8802);
    let listeners = field_listeners(&spec, &args);
    assert_eq!(listeners.tcp, Some((1502, 1)));
    assert_eq!(listeners.tls.unwrap().port, 8802);
}

#[test]
fn opcua_port_override_requires_binding() {
    let mut args = no_flags();
    args.opcua_port = Some(14840);
    let listeners = field_listeners(&sample(), &args);
    assert!(listeners.opcua.is_none());
}

#[test]
fn opcua_binding_uses_yaml_then_override() {
    let spec = opcua();
    let listeners = field_listeners(&spec, &no_flags());
    assert_eq!(listeners.tcp, Some((502, 1)));
    assert_eq!(listeners.opcua, Some(4840));

    let mut args = no_flags();
    args.opcua_port = Some(14840);
    let listeners = field_listeners(&spec, &args);
    assert_eq!(listeners.opcua, Some(14840));
}

#[test]
fn tls_flags_replace_binding_files() {
    let spec = tls("cert.pem", "key.pem");
    let mut args = no_flags();
    args.modbus_cert = Some("other.pem".to_string());
    args.modbus_ca = Some("ca.pem".to_string());
    let bind = field_listeners(&spec, &args).tls.unwrap();
    assert_eq!(bind.port, 802);
    assert_eq!(bind.certfile, "other.pem");
    assert_eq!(bind.keyfile, "key.pem");
    assert_eq!(bind.cafile, Some("ca.pem".to_string()));
}

#[test]
fn present_pem_is_accepted() {
    assert_eq!(require_pem(true, "cert.pem", "certfile"), Ok(()));
}

#[test]
fn run_arguments_are_checked_in_order() {
    assert_eq!(check_run_args(num(1.0), num(1.0), num(0.0), num(0.0)), Ok(()));
    assert_eq!(check_run_args(num(0.0), num(-1.0), num(0.0), num(0.0)), Err("--tick must be > 0"));
    assert_eq!(check_run_args(num(f64::NAN), num(1.0), num(0.0), num(0.0)), Ok(()));
    assert_eq!(check_run_args(num(1.0), num(-0.0), num(0.0), num(0.0)), Err("--time-scale must be > 0"));
    assert_eq!(check_run_args(num(1.0), num(2.0), num(-1.0), num(0.0)), Err("--tick-health must be >= 0"));
    assert_eq!(check_run_args(num(1.0), num(2.0), num(1.0), num(-0.5)), Err("--shutdown-timeout must be >= 0"));
}

#[test]
fn unimplemented_protocols_refuse_boot() {
    assert_eq!(refuse_unimplemented(&sample()), Ok(()));
    let spec = fixture(
        "snmp",
        vec![
            tcp(),
            BindingSpec::SnmpV2c { port: 161, community: "public".to_string(), map: None },
            BindingSpec::MqttSparkplug {
                broker: "mqtt://b:1883".to_string(),
                group_id: "g".to_string(),
                edge_node_id: "e".to_string(),
            },
        ],
    );
    assert_eq!(
        refuse_unimplemented(&spec).unwrap_err(),
        "device requests unimplemented protocol(s): snmp-v2c, mqtt-sparkplug. specified in the contract; not served by this runtime."
    );
}
