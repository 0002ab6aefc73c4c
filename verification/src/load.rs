//! Turning parsed documents into validated devices and scenarios.
//!
//! Parsing the text is the caller's part; this module decides which
//! language a document uses, builds the canonical device of a language 2
//! document, and accepts a device or scenario only when it is valid.

use vstd::prelude::*;

use crate::behavior::BehaviorSpec;
use crate::device::{
    AlarmSpec, BindingSpec, DeviceSpec, IdentitySpec, ModbusSpec, PointSpec, RegisterMapSpec, TriggerSpec,
};
use crate::ieee::Real;
use crate::lift::{is_modbus, materialize_registers, modbus_from_bindings, modbus_settings};
use crate::scenario::{ScenarioSpec, StepFault};
use crate::types::{Endianness, PointClass, PointKind, UaNaming};
use crate::validate::Invalid;

verus! {

/// The YAML scalar given as a point's `default`.
#[derive(Debug, Clone, Copy, PartialEq, Eq, Structural)]
pub enum YamlScalar {
    /// A number.
    Number(Real),
    /// A boolean.
    Bool(bool),
    /// Anything else (string, null, list, map).
    Other,
}

/// One `points:` row of a language 2 document.
#[derive(Debug)]
pub struct PointRow {
    /// Stable id.
    pub id: String,
    /// Analog or binary.
    pub kind: PointKind,
    /// Input / value / output.
    pub class: PointClass,
    /// Human text.
    pub description: String,
    /// Engineering unit.
    pub unit: String,
    /// Power-on value as written.
    pub default: YamlScalar,
    /// Analog live behavior.
    pub simulation: Option<BehaviorSpec>,
    /// Binary input derived from an analog point.
    pub trigger: Option<TriggerSpec>,
}

/// A language 2 document as parsed.
#[derive(Debug)]
pub struct DocumentV2 {
    /// Display name.
    pub name: String,
    /// Language version.
    pub spec_version: u32,
    /// Map / product version string.
    pub version: String,
    /// Device type key.
    pub device_type: String,
    /// Human description.
    pub description: String,
    /// Optional identity.
    pub identity: IdentitySpec,
    /// Point rows.
    pub points: Vec<PointRow>,
    /// Protocol bindings.
    pub bindings: Vec<BindingSpec>,
    /// Alarm metadata.
    pub alarms: Vec<AlarmSpec>,
    /// Bundled scenarios.
    pub scenarios: Vec<ScenarioSpec>,
}

/// Which language a document is written in.
#[derive(Debug, Clone, Copy, PartialEq, Eq, Structural)]
pub enum Language {
    /// Register map (`registers:`).
    V1,
    /// Points with per-binding exports.
    V2,
}

/// Whether a point row's default suits its kind: a number for an analog
/// point, a boolean for a binary one.
pub open spec fn default_fits(row: PointRow) -> bool {
    match row.kind {
        PointKind::Analog => row.default is Number,
        PointKind::Binary => row.default is Bool,
    }
}

/// The error for a point row whose default does not suit its kind.
pub open spec fn default_error(row: PointRow) -> Invalid {
    match row.kind {
        PointKind::Analog => Invalid::AnalogDefault(row.id),
        PointKind::Binary => Invalid::BinaryDefault(row.id),
    }
}

/// The point a row stands for.
pub open spec fn point_of_row(row: PointRow, p: PointSpec) -> bool {
    &&& p.id == row.id
    &&& p.kind == row.kind
    &&& p.class == row.class
    &&& p.description == row.description
    &&& p.unit == row.unit
    &&& p.analog_default == match row.default {
        YamlScalar::Number(x) => x,
        _ => Real::zero_spec(),
    }
    &&& p.binary_default == match row.default {
        YamlScalar::Bool(b) => b,
        _ => false,
    }
    &&& p.simulation == row.simulation
    &&& p.trigger == row.trigger
}

/// Modbus settings of a language 2 document with bindings `bs`: those of
/// its first Modbus binding, or port 502, unit 1, big-endian.
pub open spec fn modbus_of(bs: Seq<BindingSpec>, m: ModbusSpec) -> bool {
    ||| exists|i: int|
        0 <= i < bs.len() && is_modbus(#[trigger] bs[i]) && m == modbus_settings(bs[i]) && forall|j: int|
            0 <= j < i ==> !is_modbus(#[trigger] bs[j])
    ||| (forall|i: int| 0 <= i < bs.len() ==> !is_modbus(#[trigger] bs[i])) && m == (ModbusSpec {
        default_port: 502,
        unit_id: 1,
        endianness: Endianness::Big,
    })
}

/// The canonical point of a language 2 row.
pub fn point_from_yaml(row: PointRow) -> (r: Result<PointSpec, Invalid>)
    ensures
        r is Ok <==> default_fits(row),
        r matches Err(e) ==> e == default_error(row),
        r matches Ok(p) ==> point_of_row(row, p),
{
    let mut analog_default = Real::zero();
    let mut binary_default = false;
    match row.kind {
        PointKind::Analog => match row.default {
            YamlScalar::Number(x) => {
                analog_default = x;
            },
            _ => {
                return Err(Invalid::AnalogDefault(row.id));
            },
        },
        PointKind::Binary => match row.default {
            YamlScalar::Bool(b) => {
                binary_default = b;
            },
            _ => {
                return Err(Invalid::BinaryDefault(row.id));
            },
        },
    }
    Ok(
        PointSpec {
            id: row.id,
            kind: row.kind,
            class: row.class,
            description: row.description,
            unit: row.unit,
            analog_default,
            binary_default,
            simulation: row.simulation,
            trigger: row.trigger,
        },
    )
}

/// The canonical device of a language 2 document: its points, the Modbus
/// settings of its first Modbus binding, and the engine cells its bindings
/// imply. Fails on the first point row whose default does not suit its kind.
pub fn load_v2(doc: DocumentV2) -> (r: Result<DeviceSpec, Invalid>)
    ensures
        r is Ok <==> forall|i: int| 0 <= i < doc.points@.len() ==> default_fits(#[trigger] doc.points@[i]),
        r matches Err(e) ==> exists|i: int|
            0 <= i < doc.points@.len() && !default_fits(#[trigger] doc.points@[i]) && e == default_error(
                doc.points@[i],
            ) && forall|j: int| 0 <= j < i ==> default_fits(#[trigger] doc.points@[j]),
        r matches Ok(s) ==> {
            &&& s.name == doc.name
            &&& s.spec_version == doc.spec_version
            &&& s.version == doc.version
            &&& s.device_type == doc.device_type
            &&& s.description == doc.description
            &&& s.identity == doc.identity
            &&& s.alarms == doc.alarms
            &&& s.bindings == doc.bindings
            &&& s.scenarios == doc.scenarios
            &&& s.ua_naming == UaNaming::PointId
            &&& s.points@.len() == doc.points@.len()
            &&& forall|i: int| 0 <= i < s.points@.len() ==> point_of_row(doc.points@[i], #[trigger] s.points@[i])
            &&& modbus_of(s.bindings@, s.modbus)
            &&& s.cells(s.registers)
        },
{
    let ghost all = doc.points@;
    let DocumentV2 {
        name,
        spec_version,
        version,
        device_type,
        description,
        identity,
        points: rows,
        bindings,
        alarms,
        scenarios,
    } = doc;
    let mut rows = rows;
    let mut points: Vec<PointSpec> = Vec::new();
    let n = rows.len();
    let mut i: usize = 0;
    while i < n
        invariant
            0 <= i <= n,
            n == all.len(),
            all == doc.points@,
            rows@ == all.subrange(i as int, n as int),
            points@.len() == i,
            forall|j: int| 0 <= j < i ==> point_of_row(all[j], #[trigger] points@[j]),
            forall|j: int| 0 <= j < i ==> default_fits(#[trigger] all[j]),
        decreases n - i,
    {
        let row = rows.remove(0);
        assert(row == all[i as int]);
        match point_from_yaml(row) {
            Ok(p) => {
                points.push(p);
            },
            Err(e) => {
                assert(!default_fits(all[i as int]) && e == default_error(all[i as int]));
                return Err(e);
            },
        }
        proof {
            assert(rows@ =~= all.subrange(i as int + 1, n as int));
        }
        i = i + 1;
    }
    let modbus = modbus_from_bindings(&bindings);
    let mut spec = DeviceSpec {
        name,
        spec_version,
        version,
        device_type,
        description,
        identity,
        modbus,
        registers: RegisterMapSpec::empty(),
        alarms,
        bindings,
        scenarios,
        points,
        ua_naming: UaNaming::PointId,
    };
    spec.registers = materialize_registers(&spec);
    Ok(spec)
}

/// Route a document by its `spec_version` (absent means 1): language 1 up
/// to 1, language 2 at 2 unless it also has `registers:`, and an error for
/// any later version.
pub fn language_of(version: Option<u64>, has_registers: bool) -> (r: Result<Language, Invalid>)
    ensures
        ({
            let v = match version {
                Some(v) => v,
                None => 1,
            };
            &&& v <= 1 ==> r == Ok::<Language, Invalid>(Language::V1)
            &&& v == 2 && has_registers ==> r == Err::<Language, Invalid>(Invalid::MixedRegisters)
            &&& v == 2 && !has_registers ==> r == Ok::<Language, Invalid>(Language::V2)
            &&& v > 2 ==> r == Err::<Language, Invalid>(Invalid::SpecVersion(v))
        }),
{
    let v = match version {
        Some(v) => v,
        None => 1,
    };
    if v <= 1 {
        Ok(Language::V1)
    } else if v == 2 {
        if has_registers {
            Err(Invalid::MixedRegisters)
        } else {
            Ok(Language::V2)
        }
    } else {
        Err(Invalid::SpecVersion(v))
    }
}

/// Accept a built device only when every rule of the language holds.
pub fn accept_device(spec: DeviceSpec) -> (r: Result<DeviceSpec, Invalid>)
    ensures
        r is Ok <==> spec.valid(),
        r matches Ok(s) ==> s == spec,
        r matches Err(e) ==> spec.shows(e) && spec.reports(e),
{
    match spec.validate() {
        Ok(()) => Ok(spec),
        Err(e) => Err(e),
    }
}

/// Accept a standalone scenario only when its steps are usable.
pub fn accept_scenario(scenario: ScenarioSpec) -> (r: Result<ScenarioSpec, Invalid>)
    ensures
        r is Ok <==> scenario.steps_ok(),
        r matches Ok(s) ==> s == scenario,
        r matches Err(e) ==> exists|f: StepFault| e == Invalid::Steps(f) && scenario.shows(f) && scenario.reports(f),
{
    match scenario.validate() {
        Ok(()) => Ok(scenario),
        Err(f) => Err(Invalid::Steps(f)),
    }
}

} // verus!
