//! Wire enums shared by the device language, the bank and the protocols.
//!
//! Every enum that has a YAML spelling carries a spec function `wire_name`
//! with that spelling, and an executable `as_str` proved to return it.

use vstd::prelude::*;

verus! {

/// Byte order for multi-register values.
#[derive(Debug, Clone, Copy, PartialEq, Eq, Structural)]
pub enum Endianness {
    /// ABCD (most common Modbus layout).
    Big,
    /// DCBA.
    Little,
    /// BADC.
    BigSwap,
    /// CDAB.
    LittleSwap,
}

impl Endianness {
    /// YAML spelling.
    pub open spec fn wire_name(self) -> Seq<char> {
        match self {
            Endianness::Big => "big"@,
            Endianness::Little => "little"@,
            Endianness::BigSwap => "big_swap"@,
            Endianness::LittleSwap => "little_swap"@,
        }
    }

    /// Canonical wire / YAML string.
    pub fn as_str(self) -> (s: &'static str)
        ensures
            s@ == self.wire_name(),
    {
        match self {
            Endianness::Big => "big",
            Endianness::Little => "little",
            Endianness::BigSwap => "big_swap",
            Endianness::LittleSwap => "little_swap",
        }
    }
}

/// On-wire data type for a register (or register pair).
#[derive(Debug, Clone, Copy, PartialEq, Eq, Structural)]
pub enum DataType {
    /// Single 16-bit unsigned register.
    Uint16,
    /// Single 16-bit signed register, stored as two's complement.
    Int16,
    /// Two consecutive registers.
    Uint32,
    /// IEEE-754 float32 across two registers.
    Float32,
}

impl DataType {
    /// YAML spelling.
    pub open spec fn wire_name(self) -> Seq<char> {
        match self {
            DataType::Uint16 => "uint16"@,
            DataType::Int16 => "int16"@,
            DataType::Uint32 => "uint32"@,
            DataType::Float32 => "float32"@,
        }
    }

    /// Number of 16-bit words a value of this type occupies.
    pub open spec fn words(self) -> nat {
        match self {
            DataType::Uint16 | DataType::Int16 => 1,
            DataType::Uint32 | DataType::Float32 => 2,
        }
    }

    /// Canonical wire / YAML string.
    pub fn as_str(self) -> (s: &'static str)
        ensures
            s@ == self.wire_name(),
    {
        match self {
            DataType::Uint16 => "uint16",
            DataType::Int16 => "int16",
            DataType::Uint32 => "uint32",
            DataType::Float32 => "float32",
        }
    }

    /// Number of 16-bit Modbus words occupied by this type.
    pub fn word_count(self) -> (n: u8)
        ensures
            n == self.words(),
    {
        match self {
            DataType::Uint16 | DataType::Int16 => 1,
            DataType::Uint32 | DataType::Float32 => 2,
        }
    }
}

/// Holding vs input register space.
#[derive(Debug, Clone, Copy, PartialEq, Eq, Hash, Structural)]
pub enum RegisterSpace {
    /// Holding registers (FC3 / FC6 / FC16).
    Holding,
    /// Input registers (FC4).
    Input,
}

/// Coil trigger comparison.
#[derive(Debug, Clone, Copy, PartialEq, Eq, Structural)]
pub enum TriggerCondition {
    /// Greater than.
    Gt,
    /// Less than.
    Lt,
    /// Equal (within half a raw step).
    Eq,
    /// Greater than or equal.
    Gte,
    /// Less than or equal.
    Lte,
}

impl TriggerCondition {
    /// YAML spelling.
    pub open spec fn wire_name(self) -> Seq<char> {
        match self {
            TriggerCondition::Gt => "gt"@,
            TriggerCondition::Lt => "lt"@,
            TriggerCondition::Eq => "eq"@,
            TriggerCondition::Gte => "gte"@,
            TriggerCondition::Lte => "lte"@,
        }
    }

    /// Canonical YAML string.
    pub fn as_str(self) -> (s: &'static str)
        ensures
            s@ == self.wire_name(),
    {
        match self {
            TriggerCondition::Gt => "gt",
            TriggerCondition::Lt => "lt",
            TriggerCondition::Eq => "eq",
            TriggerCondition::Gte => "gte",
            TriggerCondition::Lte => "lte",
        }
    }
}

/// Alarm severity.
#[derive(Debug, Clone, Copy, PartialEq, Eq, Structural)]
pub enum AlarmSeverity {
    /// Informational.
    Info,
    /// Warning.
    Warning,
    /// Critical.
    Critical,
}

impl AlarmSeverity {
    /// YAML spelling.
    pub open spec fn wire_name(self) -> Seq<char> {
        match self {
            AlarmSeverity::Info => "info"@,
            AlarmSeverity::Warning => "warning"@,
            AlarmSeverity::Critical => "critical"@,
        }
    }

    /// Canonical YAML string.
    pub fn as_str(self) -> (s: &'static str)
        ensures
            s@ == self.wire_name(),
    {
        match self {
            AlarmSeverity::Info => "info",
            AlarmSeverity::Warning => "warning",
            AlarmSeverity::Critical => "critical",
        }
    }
}

/// Protocol identifier used by bindings.
#[derive(Debug, Clone, Copy, PartialEq, Eq, Hash, Structural)]
pub enum ProtocolId {
    /// Modbus TCP slave.
    ModbusTcp,
    /// Modbus RTU slave.
    ModbusRtu,
    /// Modbus TCP with TLS.
    ModbusTls,
    /// SNMP agent.
    SnmpV2c,
    /// OPC UA server.
    Opcua,
    /// MQTT Sparkplug B publisher.
    MqttSparkplug,
    /// BACnet/IP server.
    BacnetIp,
}

impl ProtocolId {
    /// YAML spelling (kebab-case).
    pub open spec fn wire_name(self) -> Seq<char> {
        match self {
            ProtocolId::ModbusTcp => "modbus-tcp"@,
            ProtocolId::ModbusRtu => "modbus-rtu"@,
            ProtocolId::ModbusTls => "modbus-tls"@,
            ProtocolId::SnmpV2c => "snmp-v2c"@,
            ProtocolId::Opcua => "opcua"@,
            ProtocolId::MqttSparkplug => "mqtt-sparkplug"@,
            ProtocolId::BacnetIp => "bacnet-ip"@,
        }
    }

    /// The protocols this runtime serves.
    pub open spec fn implemented(self) -> bool {
        self is ModbusTcp || self is ModbusTls || self is Opcua || self is BacnetIp
    }

    /// Canonical YAML / wire string (`kebab-case`).
    pub fn as_str(self) -> (s: &'static str)
        ensures
            s@ == self.wire_name(),
    {
        match self {
            ProtocolId::ModbusTcp => "modbus-tcp",
            ProtocolId::ModbusRtu => "modbus-rtu",
            ProtocolId::ModbusTls => "modbus-tls",
            ProtocolId::SnmpV2c => "snmp-v2c",
            ProtocolId::Opcua => "opcua",
            ProtocolId::MqttSparkplug => "mqtt-sparkplug",
            ProtocolId::BacnetIp => "bacnet-ip",
        }
    }

    /// Whether this runtime can serve the protocol.
    ///
    /// Unimplemented ids are still valid syntax. `check` reports them; boot
    /// refuses a document that resolves to any of them.
    pub fn is_implemented(self) -> (b: bool)
        ensures
            b == self.implemented(),
    {
        match self {
            ProtocolId::ModbusTcp | ProtocolId::ModbusTls | ProtocolId::Opcua
            | ProtocolId::BacnetIp => true,
            _ => false,
        }
    }
}

/// Fault kinds injected via the API or scenarios.
#[derive(Debug, Clone, Copy, PartialEq, Eq, Structural)]
pub enum FaultType {
    /// Force a register to an extreme value.
    Spike,
    /// Hold the current register value.
    Freeze,
    /// Force the register to 0.
    Dropout,
    /// Force a named coil to true.
    Alarm,
    /// Multiply gaussian `std_dev`.
    NoiseAmplify,
}

/// Analog vs binary point.
#[derive(Debug, Clone, Copy, PartialEq, Eq, Structural)]
pub enum PointKind {
    /// Engineering real.
    Analog,
    /// Two-state.
    Binary,
}

impl PointKind {
    /// YAML spelling.
    pub open spec fn wire_name(self) -> Seq<char> {
        match self {
            PointKind::Analog => "analog"@,
            PointKind::Binary => "binary"@,
        }
    }

    /// Canonical YAML string.
    pub fn as_str(self) -> (s: &'static str)
        ensures
            s@ == self.wire_name(),
    {
        match self {
            PointKind::Analog => "analog",
            PointKind::Binary => "binary",
        }
    }
}

/// ASHRAE Input / Value / Output class.
#[derive(Debug, Clone, Copy, PartialEq, Eq, Structural)]
pub enum PointClass {
    /// Measured. Tick owns the value.
    Input,
    /// Setpoint / parameter / software point.
    Value,
    /// Command to an actuator.
    Output,
}

impl PointClass {
    /// YAML spelling.
    pub open spec fn wire_name(self) -> Seq<char> {
        match self {
            PointClass::Input => "input"@,
            PointClass::Value => "value"@,
            PointClass::Output => "output"@,
        }
    }

    /// Canonical YAML string.
    pub fn as_str(self) -> (s: &'static str)
        ensures
            s@ == self.wire_name(),
    {
        match self {
            PointClass::Input => "input",
            PointClass::Value => "value",
            PointClass::Output => "output",
        }
    }

    /// OPC UA / typical field write for this class.
    pub fn field_writable(self) -> (b: bool)
        ensures
            b == (self is Value || self is Output),
    {
        match self {
            PointClass::Value | PointClass::Output => true,
            PointClass::Input => false,
        }
    }
}

/// How OPC UA NodeIds are built.
#[derive(Debug, Clone, Copy, PartialEq, Eq, Structural)]
pub enum UaNaming {
    /// `ns=N;s=holding/{name}` (language 1).
    SpacePrefix,
    /// `ns=N;s={id}` (language 2).
    PointId,
}

/// Modbus table for a point export.
#[derive(Debug, Clone, Copy, PartialEq, Eq, Structural)]
pub enum ModbusExportSpace {
    /// FC3 / FC6 / FC16.
    Holding,
    /// FC4.
    Input,
    /// FC1 / FC5 / FC15.
    Coil,
    /// FC2.
    Discrete,
}

impl ModbusExportSpace {
    /// YAML spelling.
    pub open spec fn wire_name(self) -> Seq<char> {
        match self {
            ModbusExportSpace::Holding => "holding"@,
            ModbusExportSpace::Input => "input"@,
            ModbusExportSpace::Coil => "coil"@,
            ModbusExportSpace::Discrete => "discrete"@,
        }
    }

    /// Canonical YAML string.
    pub fn as_str(self) -> (s: &'static str)
        ensures
            s@ == self.wire_name(),
    {
        match self {
            ModbusExportSpace::Holding => "holding",
            ModbusExportSpace::Input => "input",
            ModbusExportSpace::Coil => "coil",
            ModbusExportSpace::Discrete => "discrete",
        }
    }
}

/// BACnet object type in `export.object`.
#[derive(Debug, Clone, Copy, PartialEq, Eq, Hash, Structural)]
pub enum BacnetObjectType {
    /// Analog Input.
    AnalogInput,
    /// Analog Value.
    AnalogValue,
    /// Analog Output.
    AnalogOutput,
    /// Binary Input.
    BinaryInput,
    /// Binary Value.
    BinaryValue,
    /// Binary Output.
    BinaryOutput,
}

impl BacnetObjectType {
    /// YAML spelling (kebab-case).
    pub open spec fn wire_name(self) -> Seq<char> {
        match self {
            BacnetObjectType::AnalogInput => "analog-input"@,
            BacnetObjectType::AnalogValue => "analog-value"@,
            BacnetObjectType::AnalogOutput => "analog-output"@,
            BacnetObjectType::BinaryInput => "binary-input"@,
            BacnetObjectType::BinaryValue => "binary-value"@,
            BacnetObjectType::BinaryOutput => "binary-output"@,
        }
    }

    /// The point kind this object type carries.
    pub open spec fn kind(self) -> PointKind {
        match self {
            BacnetObjectType::AnalogInput | BacnetObjectType::AnalogValue
            | BacnetObjectType::AnalogOutput => PointKind::Analog,
            _ => PointKind::Binary,
        }
    }

    /// The point class this object type carries.
    pub open spec fn class(self) -> PointClass {
        match self {
            BacnetObjectType::AnalogInput | BacnetObjectType::BinaryInput => PointClass::Input,
            BacnetObjectType::AnalogValue | BacnetObjectType::BinaryValue => PointClass::Value,
            _ => PointClass::Output,
        }
    }

    /// Canonical YAML string.
    pub fn as_str(self) -> (s: &'static str)
        ensures
            s@ == self.wire_name(),
    {
        match self {
            BacnetObjectType::AnalogInput => "analog-input",
            BacnetObjectType::AnalogValue => "analog-value",
            BacnetObjectType::AnalogOutput => "analog-output",
            BacnetObjectType::BinaryInput => "binary-input",
            BacnetObjectType::BinaryValue => "binary-value",
            BacnetObjectType::BinaryOutput => "binary-output",
        }
    }

    /// Whether this matches `kind` × `class`.
    pub fn matches_point(self, kind: PointKind, class: PointClass) -> (b: bool)
        ensures
            b == (self.kind() == kind && self.class() == class),
    {
        match (self, kind, class) {
            (BacnetObjectType::AnalogInput, PointKind::Analog, PointClass::Input)
            | (BacnetObjectType::AnalogValue, PointKind::Analog, PointClass::Value)
            | (BacnetObjectType::AnalogOutput, PointKind::Analog, PointClass::Output)
            | (BacnetObjectType::BinaryInput, PointKind::Binary, PointClass::Input)
            | (BacnetObjectType::BinaryValue, PointKind::Binary, PointClass::Value)
            | (BacnetObjectType::BinaryOutput, PointKind::Binary, PointClass::Output) => true,
            _ => false,
        }
    }

    /// Whether a field write to Present_Value of this object is honoured.
    pub open spec fn is_commandable(self) -> bool {
        self.class() != PointClass::Input
    }
}

} // verus!
