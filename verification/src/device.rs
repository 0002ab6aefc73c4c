//! The device document: register map, canonical points, bindings, alarms
//! and bundled scenarios, with the lookups the rest of the library uses.

use vstd::prelude::*;

use crate::behavior::BehaviorSpec;
use crate::export::{BacnetExportEntry, Export, ModbusExportEntry, OpcuaExportEntry};
use crate::ieee::Real;
use crate::scenario::ScenarioSpec;
use crate::types::{
    AlarmSeverity, DataType, Endianness, PointClass, PointKind, ProtocolId, TriggerCondition,
    UaNaming,
};

verus! {

/// Current device language. Documents may use `1` (register map) or `2` (points).
pub const SPEC_VERSION: u32 = 2;

/// Oldest language this library still loads (`registers:` maps).
pub const SPEC_VERSION_MIN: u32 = 1;

/// Optional vendor identity (FC43 / OPC UA BuildInfo).
#[derive(Debug, Clone, PartialEq, Eq)]
pub struct IdentitySpec {
    /// Vendor name.
    pub vendor: String,
    /// Product name.
    pub product: String,
    /// Revision string.
    pub revision: String,
}

/// Whether two optional behaviors hold the same values.
pub open spec fn same_behavior(a: Option<BehaviorSpec>, b: Option<BehaviorSpec>) -> bool {
    match (a, b) {
        (None, None) => true,
        (Some(x), Some(y)) => x.same(y),
        _ => false,
    }
}

/// A copy of an optional behavior.
pub fn copy_behavior(b: &Option<BehaviorSpec>) -> (r: Option<BehaviorSpec>)
    ensures
        same_behavior(r, *b),
{
    match b {
        Some(x) => Some(x.clone()),
        None => None,
    }
}

/// A holding or input register.
#[derive(Debug, PartialEq)]
pub struct RegisterSpec {
    /// Zero-based address of the first word.
    pub address: u16,
    /// Unique name within the device.
    pub name: String,
    /// Human description.
    pub description: String,
    /// Engineering unit.
    pub unit: String,
    /// Default real-world value.
    pub default: Real,
    /// `raw ~ real_value * scale`.
    pub scale: u32,
    /// Wire type.
    pub data_type: DataType,
    /// Optional live behavior.
    pub simulation: Option<BehaviorSpec>,
}

/// Coil or discrete trigger.
#[derive(Debug, PartialEq)]
pub struct TriggerSpec {
    /// Source analog point / register id.
    pub source_register: String,
    /// Comparison.
    pub condition: TriggerCondition,
    /// Threshold in real-world units.
    pub threshold: Real,
}

impl Clone for TriggerSpec {
    fn clone(&self) -> (r: Self)
        ensures
            r == *self,
    {
        TriggerSpec {
            source_register: self.source_register.clone(),
            condition: self.condition,
            threshold: self.threshold,
        }
    }
}

/// A copy of an optional trigger.
pub fn copy_trigger(t: &Option<TriggerSpec>) -> (r: Option<TriggerSpec>)
    ensures
        r == *t,
{
    match t {
        Some(x) => Some(x.clone()),
        None => None,
    }
}

/// Coil or discrete input.
#[derive(Debug, PartialEq)]
pub struct CoilSpec {
    /// Zero-based address.
    pub address: u16,
    /// Unique name.
    pub name: String,
    /// Human description.
    pub description: String,
    /// Default boolean state.
    pub default: bool,
    /// Optional trigger.
    pub trigger: Option<TriggerSpec>,
}

/// Full register map.
#[derive(Debug, PartialEq)]
pub struct RegisterMapSpec {
    /// Holding registers.
    pub holding: Vec<RegisterSpec>,
    /// Input registers.
    pub input: Vec<RegisterSpec>,
    /// Coils.
    pub coils: Vec<CoilSpec>,
    /// Discrete inputs.
    pub discrete: Vec<CoilSpec>,
}

impl RegisterMapSpec {
    /// A map with no registers, coils or discrete inputs.
    pub fn empty() -> (m: Self)
        ensures
            m.holding@.len() == 0,
            m.input@.len() == 0,
            m.coils@.len() == 0,
            m.discrete@.len() == 0,
    {
        RegisterMapSpec {
            holding: Vec::new(),
            input: Vec::new(),
            coils: Vec::new(),
            discrete: Vec::new(),
        }
    }
}

/// Legacy / default Modbus listen settings.
#[derive(Debug, Clone, Copy, PartialEq, Eq, Structural)]
pub struct ModbusSpec {
    /// Default TCP port.
    pub default_port: u16,
    /// Unit ID 1-247.
    pub unit_id: u8,
    /// Multi-word endianness.
    pub endianness: Endianness,
}

impl Default for ModbusSpec {
    fn default() -> (m: Self)
        ensures
            m == (ModbusSpec { default_port: 502, unit_id: 1, endianness: Endianness::Big }),
    {
        ModbusSpec { default_port: 502, unit_id: 1, endianness: Endianness::Big }
    }
}

/// Named alarm metadata.
#[derive(Debug, Clone, PartialEq)]
pub struct AlarmSpec {
    /// Display name.
    pub name: String,
    /// Severity.
    pub severity: AlarmSeverity,
    /// Coil or discrete name that activates this alarm.
    pub trigger: String,
}

/// One device point (canonical after load).
#[derive(Debug, PartialEq)]
pub struct PointSpec {
    /// Stable id (`temperature`). Unique in the document.
    pub id: String,
    /// Analog or binary.
    pub kind: PointKind,
    /// Input / value / output.
    pub class: PointClass,
    /// Human text.
    pub description: String,
    /// Engineering unit.
    pub unit: String,
    /// Analog power-on value.
    pub analog_default: Real,
    /// Binary power-on value.
    pub binary_default: bool,
    /// Analog live behavior.
    pub simulation: Option<BehaviorSpec>,
    /// Binary input derived from an analog point.
    pub trigger: Option<TriggerSpec>,
}

impl PointSpec {
    /// The analog point that stands for a register.
    pub open spec fn of_register(reg: RegisterSpec, class: PointClass, p: PointSpec) -> bool {
        &&& p.id == reg.name
        &&& p.kind == PointKind::Analog
        &&& p.class == class
        &&& p.description == reg.description
        &&& p.unit == reg.unit
        &&& p.analog_default == reg.default
        &&& p.binary_default == false
        &&& same_behavior(p.simulation, reg.simulation)
        &&& p.trigger is None
    }

    /// The binary point that stands for a coil or discrete input.
    pub open spec fn of_coil(coil: CoilSpec, class: PointClass, p: PointSpec) -> bool {
        &&& p.id == coil.name
        &&& p.kind == PointKind::Binary
        &&& p.class == class
        &&& p.description == coil.description
        &&& p.unit@.len() == 0
        &&& p.analog_default == Real::zero_spec()
        &&& p.binary_default == coil.default
        &&& p.simulation is None
        &&& p.trigger == coil.trigger
    }

    /// The analog point that stands for a register.
    pub fn from_register(reg: &RegisterSpec, class: PointClass) -> (p: Self)
        ensures
            PointSpec::of_register(*reg, class, p),
    {
        PointSpec {
            id: reg.name.clone(),
            kind: PointKind::Analog,
            class,
            description: reg.description.clone(),
            unit: reg.unit.clone(),
            analog_default: reg.default,
            binary_default: false,
            simulation: copy_behavior(&reg.simulation),
            trigger: None,
        }
    }

    /// The binary point that stands for a coil or discrete input.
    pub fn from_coil(coil: &CoilSpec, class: PointClass) -> (p: Self)
        ensures
            PointSpec::of_coil(*coil, class, p),
    {
        PointSpec {
            id: coil.name.clone(),
            kind: PointKind::Binary,
            class,
            description: coil.description.clone(),
            unit: String::new(),
            analog_default: Real::zero(),
            binary_default: coil.default,
            simulation: None,
            trigger: copy_trigger(&coil.trigger),
        }
    }
}

/// A protocol binding declared on the device.
#[derive(Debug)]
pub enum BindingSpec {
    /// Modbus TCP slave.
    ModbusTcp {
        /// Listen port.
        port: Option<u16>,
        /// Unit ID override.
        unit_id: Option<u8>,
        /// Multi-word endianness (language 2; language 1 uses top-level `modbus`).
        endianness: Endianness,
        /// Point id -> PDU address. Required and non-empty in language 2.
        export: Export<ModbusExportEntry>,
    },
    /// Modbus RTU slave.
    ModbusRtu {
        /// Serial device path.
        device: String,
        /// Baud rate.
        baudrate: u32,
    },
    /// Modbus TLS slave (IANA 802).
    ModbusTls {
        /// Listen port.
        port: u16,
        /// PEM certificate path (required at boot).
        certfile: String,
        /// PEM key path (required at boot).
        keyfile: String,
        /// Optional PEM CA; when set, the server requires a client certificate.
        cafile: Option<String>,
        /// Point id -> PDU address. Required and non-empty in language 2.
        export: Export<ModbusExportEntry>,
    },
    /// SNMP v2c agent.
    SnmpV2c {
        /// UDP port.
        port: u16,
        /// Community string.
        community: String,
        /// Optional OID map path.
        map: Option<String>,
    },
    /// OPC UA server.
    Opcua {
        /// Listen port.
        port: u16,
        /// Point ids to publish. Required and non-empty in language 2.
        export: Export<OpcuaExportEntry>,
    },
    /// Sparkplug B MQTT publisher.
    MqttSparkplug {
        /// Broker URL, e.g. `mqtt://broker:1883`.
        broker: String,
        /// Sparkplug group id.
        group_id: String,
        /// Edge node id.
        edge_node_id: String,
    },
    /// BACnet/IP server.
    BacnetIp {
        /// UDP port.
        port: u16,
        /// BACnet device instance.
        device_instance: u32,
        /// Point id -> object + instance. Required and non-empty in language 2.
        export: Export<BacnetExportEntry>,
    },
}

impl BindingSpec {
    /// Protocol of a binding.
    pub open spec fn protocol(self) -> ProtocolId {
        match self {
            BindingSpec::ModbusTcp { .. } => ProtocolId::ModbusTcp,
            BindingSpec::ModbusRtu { .. } => ProtocolId::ModbusRtu,
            BindingSpec::ModbusTls { .. } => ProtocolId::ModbusTls,
            BindingSpec::SnmpV2c { .. } => ProtocolId::SnmpV2c,
            BindingSpec::Opcua { .. } => ProtocolId::Opcua,
            BindingSpec::MqttSparkplug { .. } => ProtocolId::MqttSparkplug,
            BindingSpec::BacnetIp { .. } => ProtocolId::BacnetIp,
        }
    }

    /// Protocol id for this binding.
    pub fn protocol_id(&self) -> (p: ProtocolId)
        ensures
            p == self.protocol(),
    {
        match self {
            BindingSpec::ModbusTcp { .. } => ProtocolId::ModbusTcp,
            BindingSpec::ModbusRtu { .. } => ProtocolId::ModbusRtu,
            BindingSpec::ModbusTls { .. } => ProtocolId::ModbusTls,
            BindingSpec::SnmpV2c { .. } => ProtocolId::SnmpV2c,
            BindingSpec::Opcua { .. } => ProtocolId::Opcua,
            BindingSpec::MqttSparkplug { .. } => ProtocolId::MqttSparkplug,
            BindingSpec::BacnetIp { .. } => ProtocolId::BacnetIp,
        }
    }

    /// Whether two bindings hold the same settings and export rows.
    pub open spec fn same(self, o: BindingSpec) -> bool {
        match (self, o) {
            (
                BindingSpec::ModbusTcp { port: p, unit_id: u, endianness: e, export: x },
                BindingSpec::ModbusTcp { port: q, unit_id: v, endianness: f, export: y },
            ) => p == q && u == v && e == f && x.entries() == y.entries(),
            (
                BindingSpec::ModbusTls { port: p, certfile: c, keyfile: k, cafile: a, export: x },
                BindingSpec::ModbusTls { port: q, certfile: d, keyfile: l, cafile: b, export: y },
            ) => p == q && c == d && k == l && a == b && x.entries() == y.entries(),
            (
                BindingSpec::Opcua { port: p, export: x },
                BindingSpec::Opcua { port: q, export: y },
            ) => p == q && x.entries() == y.entries(),
            (
                BindingSpec::BacnetIp { port: p, device_instance: d, export: x },
                BindingSpec::BacnetIp { port: q, device_instance: e, export: y },
            ) => p == q && d == e && x.entries() == y.entries(),
            (BindingSpec::ModbusTcp { .. }, _) => false,
            (BindingSpec::ModbusTls { .. }, _) => false,
            (BindingSpec::Opcua { .. }, _) => false,
            (BindingSpec::BacnetIp { .. }, _) => false,
            _ => self == o,
        }
    }

    /// A copy with the same settings and export rows.
    pub fn copy(&self) -> (b: BindingSpec)
        ensures
            b.same(*self),
    {
        match self {
            BindingSpec::ModbusTcp { port, unit_id, endianness, export } => BindingSpec::ModbusTcp {
                port: *port,
                unit_id: *unit_id,
                endianness: *endianness,
                export: export.copy(),
            },
            BindingSpec::ModbusRtu { device, baudrate } => BindingSpec::ModbusRtu {
                device: device.clone(),
                baudrate: *baudrate,
            },
            BindingSpec::ModbusTls { port, certfile, keyfile, cafile, export } => {
                BindingSpec::ModbusTls {
                    port: *port,
                    certfile: certfile.clone(),
                    keyfile: keyfile.clone(),
                    cafile: match cafile {
                        Some(c) => Some(c.clone()),
                        None => None,
                    },
                    export: export.copy(),
                }
            },
            BindingSpec::SnmpV2c { port, community, map } => BindingSpec::SnmpV2c {
                port: *port,
                community: community.clone(),
                map: match map {
                    Some(m) => Some(m.clone()),
                    None => None,
                },
            },
            BindingSpec::Opcua { port, export } => BindingSpec::Opcua {
                port: *port,
                export: export.copy(),
            },
            BindingSpec::MqttSparkplug { broker, group_id, edge_node_id } => {
                BindingSpec::MqttSparkplug {
                    broker: broker.clone(),
                    group_id: group_id.clone(),
                    edge_node_id: edge_node_id.clone(),
                }
            },
            BindingSpec::BacnetIp { port, device_instance, export } => BindingSpec::BacnetIp {
                port: *port,
                device_instance: *device_instance,
                export: export.copy(),
            },
        }
    }
}

/// Top-level device specification.
#[derive(Debug)]
pub struct DeviceSpec {
    /// Display name.
    pub name: String,
    /// Language version. Omitted files default to `1`.
    pub spec_version: u32,
    /// Map / product version string (not the language version).
    pub version: String,
    /// Device type key.
    pub device_type: String,
    /// Human description.
    pub description: String,
    /// Optional identity.
    pub identity: IdentitySpec,
    /// Modbus defaults (language 1, or derived from a language 2 binding).
    pub modbus: ModbusSpec,
    /// Register map.
    pub registers: RegisterMapSpec,
    /// Alarm metadata.
    pub alarms: Vec<AlarmSpec>,
    /// Protocol bindings. Empty means infer Modbus TCP from `modbus`.
    pub bindings: Vec<BindingSpec>,
    /// Scenarios bundled with this device. Loaded at boot; not auto-run.
    pub scenarios: Vec<ScenarioSpec>,
    /// Canonical points (language 2 document or language 1 lift).
    pub points: Vec<PointSpec>,
    /// OPC UA NodeId style.
    pub ua_naming: UaNaming,
}

/// `i` is the first point with id `id`.
pub open spec fn first_point(pts: Seq<PointSpec>, id: Seq<char>, i: int) -> bool {
    &&& 0 <= i < pts.len()
    &&& pts[i].id@ == id
    &&& forall|j: int| 0 <= j < i ==> #[trigger] pts[j].id@ != id
}

/// A point id has at most one first position.
pub proof fn lemma_first_point_unique(pts: Seq<PointSpec>, id: Seq<char>, a: int, b: int)
    requires
        first_point(pts, id, a),
        first_point(pts, id, b),
    ensures
        a == b,
{
    if a < b {
        assert(pts[a].id@ == id);
    } else if b < a {
        assert(pts[b].id@ == id);
    }
}

/// Whether some point has id `id`.
pub open spec fn has_point(pts: Seq<PointSpec>, id: Seq<char>) -> bool {
    exists|i: int| 0 <= i < pts.len() && #[trigger] pts[i].id@ == id
}

/// `i` is the first scenario with id `id`.
pub open spec fn first_scenario(ss: Seq<ScenarioSpec>, id: Seq<char>, i: int) -> bool {
    &&& 0 <= i < ss.len()
    &&& ss[i].id@ == id
    &&& forall|j: int| 0 <= j < i ==> #[trigger] ss[j].id@ != id
}

/// Whether a register list has a register called `name`.
pub open spec fn names_register(regs: Seq<RegisterSpec>, name: Seq<char>) -> bool {
    exists|i: int| 0 <= i < regs.len() && #[trigger] regs[i].name@ == name
}

/// Whether a coil list has a coil called `name`.
pub open spec fn names_coil(coils: Seq<CoilSpec>, name: Seq<char>) -> bool {
    exists|i: int| 0 <= i < coils.len() && #[trigger] coils[i].name@ == name
}

/// Index of the first register called `name`, if any.
pub fn find_register(regs: &Vec<RegisterSpec>, name: &str) -> (r: Option<usize>)
    ensures
        match r {
            Some(i) => i < regs@.len() && regs@[i as int].name@ == name@
                && forall|j: int| 0 <= j < i ==> #[trigger] regs@[j].name@ != name@,
            None => !names_register(regs@, name@),
        },
{
    let mut i: usize = 0;
    while i < regs.len()
        invariant
            0 <= i <= regs@.len(),
            forall|j: int| 0 <= j < i ==> #[trigger] regs@[j].name@ != name@,
        decreases regs@.len() - i,
    {
        if crate::text::str_eq(regs[i].name.as_str(), name) {
            return Some(i);
        }
        i = i + 1;
    }
    None
}

/// Index of the first coil called `name`, if any.
pub fn find_coil(coils: &Vec<CoilSpec>, name: &str) -> (r: Option<usize>)
    ensures
        match r {
            Some(i) => i < coils@.len() && coils@[i as int].name@ == name@
                && forall|j: int| 0 <= j < i ==> #[trigger] coils@[j].name@ != name@,
            None => !names_coil(coils@, name@),
        },
{
    let mut i: usize = 0;
    while i < coils.len()
        invariant
            0 <= i <= coils@.len(),
            forall|j: int| 0 <= j < i ==> #[trigger] coils@[j].name@ != name@,
        decreases coils@.len() - i,
    {
        if crate::text::str_eq(coils[i].name.as_str(), name) {
            return Some(i);
        }
        i = i + 1;
    }
    None
}

impl DeviceSpec {
    /// Look up a canonical point: the first point with id `id`.
    pub fn point(&self, id: &str) -> (r: Option<&PointSpec>)
        ensures
            match r {
                Some(p) => exists|i: int| first_point(self.points@, id@, i) && self.points@[i] == *p,
                None => !has_point(self.points@, id@),
            },
    {
        match self.point_index(id) {
            Some(i) => Some(&self.points[i]),
            None => None,
        }
    }

    /// Index of the first point with id `id`, if any.
    pub fn point_index(&self, id: &str) -> (r: Option<usize>)
        ensures
            match r {
                Some(i) => first_point(self.points@, id@, i as int),
                None => !has_point(self.points@, id@),
            },
    {
        let mut i: usize = 0;
        while i < self.points.len()
            invariant
                0 <= i <= self.points@.len(),
                forall|j: int| 0 <= j < i ==> #[trigger] self.points@[j].id@ != id@,
            decreases self.points@.len() - i,
        {
            if crate::text::str_eq(self.points[i].id.as_str(), id) {
                return Some(i);
            }
            i = i + 1;
        }
        None
    }

    /// Bundled scenario by id: the first scenario with that id.
    pub fn scenario(&self, id: &str) -> (r: Option<&ScenarioSpec>)
        ensures
            match r {
                Some(s) => exists|i: int| first_scenario(self.scenarios@, id@, i) && self.scenarios@[i] == *s,
                None => forall|i: int| 0 <= i < self.scenarios@.len() ==> #[trigger] self.scenarios@[i].id@ != id@,
            },
    {
        let mut i: usize = 0;
        while i < self.scenarios.len()
            invariant
                0 <= i <= self.scenarios@.len(),
                forall|j: int| 0 <= j < i ==> #[trigger] self.scenarios@[j].id@ != id@,
            decreases self.scenarios@.len() - i,
        {
            if crate::text::str_eq(self.scenarios[i].id.as_str(), id) {
                assert(first_scenario(self.scenarios@, id@, i as int));
                return Some(&self.scenarios[i]);
            }
            i = i + 1;
        }
        None
    }

    /// Whether a point has a cell in the engine bank: some register, coil
    /// or discrete input carries its id.
    pub open spec fn backs(self, id: Seq<char>) -> bool {
        ||| names_register(self.registers.holding@, id)
        ||| names_register(self.registers.input@, id)
        ||| names_coil(self.registers.coils@, id)
        ||| names_coil(self.registers.discrete@, id)
    }

    /// Whether a point currently has a cell in the engine bank.
    pub fn point_is_backed(&self, id: &str) -> (b: bool)
        ensures
            b == self.backs(id@),
    {
        find_register(&self.registers.holding, id).is_some()
            || find_register(&self.registers.input, id).is_some()
            || find_coil(&self.registers.coils, id).is_some()
            || find_coil(&self.registers.discrete, id).is_some()
    }
}

/// Default of `drift.enabled`.
pub fn default_true() -> (b: bool)
    ensures
        b,
{
    true
}

/// Default register and export `scale`.
pub fn default_scale() -> (s: u32)
    ensures
        s == 1,
{
    1
}

/// Default `modbus.unit_id`.
pub fn default_unit_id() -> (u: u8)
    ensures
        u == 1,
{
    1
}

/// Default Modbus RTU baud rate.
pub fn default_baud() -> (b: u32)
    ensures
        b == 9600,
{
    9600
}

/// Default Modbus TLS port (IANA 802).
pub fn default_modbus_tls_port() -> (p: u16)
    ensures
        p == 802,
{
    802
}

/// Default SNMP port.
pub fn default_snmp_port() -> (p: u16)
    ensures
        p == 161,
{
    161
}

/// Default SNMP community.
pub fn default_community() -> (s: String)
    ensures
        s@ == "public"@,
{
    crate::text::string_of("public")
}

/// Default OPC UA port.
pub fn default_opcua_port() -> (p: u16)
    ensures
        p == 4840,
{
    4840
}

/// Default BACnet/IP port.
pub fn default_bacnet_port() -> (p: u16)
    ensures
        p == 47808,
{
    47808
}

/// Language version of a document that omits `spec_version`.
pub fn default_spec_version() -> (v: u32)
    ensures
        v == SPEC_VERSION_MIN,
{
    SPEC_VERSION_MIN
}

} // verus!
