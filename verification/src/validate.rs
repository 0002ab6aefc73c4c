//! What makes a device document usable, and the checks that decide it.
//!
//! Every check returns `Ok` exactly when the document meets the rule it
//! stands for; an error names one concrete violation of that rule.

use vstd::prelude::*;

use crate::bank::sat_addr;
use crate::behavior::{BehaviorFault, BehaviorSpec};
use crate::device::{SPEC_VERSION, SPEC_VERSION_MIN, BindingSpec, CoilSpec, DeviceSpec, PointSpec, RegisterSpec, first_point, has_point, names_coil};
use crate::export::{BacnetExportEntry, Export, ModbusExportEntry, OpcuaExportEntry};
use crate::scenario::{ScenarioSpec, ScenarioStep, StepFault, kebab, scenario_id_ok};
use crate::types::FaultType;
use crate::types::{BacnetObjectType, ModbusExportSpace, PointKind, RegisterSpace};

verus! {

/// Where a behavior error was found.
#[derive(Debug, Clone, PartialEq, Eq)]
pub enum Context {
    /// On the register with this name.
    Register(String),
    /// On the point with this id.
    Point(String),
}

/// One violation of the device language.
#[derive(Debug, Clone, PartialEq, Eq)]
pub enum Invalid {
    /// `spec_version` outside the supported range.
    SpecVersion(u64),
    /// `modbus.unit_id` outside 1..=247.
    UnitId,
    /// `modbus.default_port` is zero.
    DefaultPort,
    /// Two registers share a name.
    DuplicateRegisterName(String),
    /// A register has scale zero.
    RegisterScale(String),
    /// A behavior breaks a numeric constraint.
    Behavior(Context, BehaviorFault),
    /// Two registers of one space occupy the same address.
    AddressOverlap(RegisterSpace, u16),
    /// Two coils or discrete inputs share a name.
    DuplicateCoilName(String),
    /// A coil trigger names no register (coil, source).
    UnknownTriggerRegister(String, String),
    /// An alarm names no coil or binary point (alarm, trigger).
    UnknownAlarmCoil(String, String),
    /// A language 2 document with no points.
    NoPoints,
    /// A point with an empty id.
    EmptyPointId,
    /// Two points share an id.
    DuplicatePointId(String),
    /// An analog point with a trigger.
    AnalogTrigger(String),
    /// A binary point with a simulation.
    BinarySimulation(String),
    /// A point trigger names no point (point, source).
    UnknownTriggerPoint(String, String),
    /// A point trigger names a binary point (point, source).
    TriggerNotAnalog(String, String),
    /// A language 2 Modbus binding with an empty export.
    EmptyModbusExport,
    /// A language 2 OPC UA binding with an empty export.
    EmptyOpcuaExport,
    /// An OPC UA export id that is not a point.
    UnknownOpcuaExport(String),
    /// A language 2 BACnet binding with an empty export.
    EmptyBacnetExport,
    /// A BACnet export id that is not a point.
    UnknownBacnetExport(String),
    /// Two BACnet export rows with the same object and instance (id of the second).
    DuplicateBacnetObject(String, BacnetObjectType, u32),
    /// A Modbus export id that is not a point.
    UnknownModbusExport(String),
    /// An analog Modbus export row with scale zero.
    ExportScale(String),
    /// A Modbus export row whose table does not fit the point kind.
    ExportSpace(String, PointKind, ModbusExportSpace),
    /// Two Modbus export rows of one table occupy the same address.
    ExportOverlap(ModbusExportSpace, u16),
    /// Two bundled scenarios share an id.
    DuplicateScenarioId(String),
    /// An embedded scenario without id (scenario name).
    MissingScenarioId(String),
    /// A scenario id that is not lowercase kebab-case (name, id).
    ScenarioIdFormat(String, String),
    /// A scenario step list breaks a step rule.
    Steps(StepFault),
    /// `set_register` names no register of its space (scenario, register, space).
    SetRegisterNotFound(String, String, String),
    /// `set_point` names no point (scenario, point).
    SetPointNotFound(String, String),
    /// `set_point` gives an analog point a boolean (scenario, point).
    SetPointNeedsNumber(String, String),
    /// `set_point` gives a binary point a value that is not 0, 1 or a boolean (scenario, point).
    SetPointNeedsBool(String, String),
    /// `set_coil` names no coil or discrete input (scenario, coil).
    SetCoilNotFound(String, String),
    /// `inject_fault` without a target (scenario).
    FaultNeedsTarget(String),
    /// An alarm fault aimed at something that is not binary (scenario, target).
    AlarmTargetNotBinary(String, String),
    /// A non-alarm fault aimed at something that is not analog (scenario, target).
    FaultTargetNotAnalog(String, String),
    /// A language 2 document that also has `registers:`.
    MixedRegisters,
    /// A language 2 analog point whose default is not a number (point id).
    AnalogDefault(String),
    /// A language 2 binary point whose default is not a boolean (point id).
    BinaryDefault(String),
}

/// Whether an optional behavior meets its numeric constraints.
pub open spec fn sim_ok(b: Option<BehaviorSpec>) -> bool {
    match b {
        None => true,
        Some(x) => x.sound(),
    }
}

/// Whether an optional behavior breaks constraint `f`.
pub open spec fn sim_breaks(b: Option<BehaviorSpec>, f: BehaviorFault) -> bool {
    match b {
        None => false,
        Some(x) => x.breaks(f),
    }
}

/// Addresses a register occupies, first word first (saturated at the end of
/// the address space).
pub open spec fn reg_words(r: RegisterSpec) -> Seq<u16> {
    if r.data_type.words() == 1 {
        seq![r.address]
    } else {
        seq![r.address, sat_addr(r.address, 1)]
    }
}

/// Addresses occupied by a register list, register by register.
pub open spec fn occupied(regs: Seq<RegisterSpec>) -> Seq<u16>
    decreases regs.len(),
{
    if regs.len() == 0 {
        Seq::empty()
    } else {
        occupied(regs.drop_last()) + reg_words(regs.last())
    }
}

/// Whether `a` occurs at two positions of `s`.
pub open spec fn twice(s: Seq<u16>, a: u16) -> bool {
    exists|i: int, j: int| 0 <= i < j < s.len() && #[trigger] s[i] == a && #[trigger] s[j] == a
}

/// The register checks of one space: names unique within `regs` and unused
/// by `before`, scales at least 1, behaviors sound, no shared address.
pub open spec fn registers_ok(before: Seq<RegisterSpec>, regs: Seq<RegisterSpec>) -> bool {
    &&& forall|i: int, j: int|
        0 <= i < j < regs.len() ==> #[trigger] regs[i].name@ != #[trigger] regs[j].name@
    &&& forall|i: int, k: int|
        0 <= i < regs.len() && 0 <= k < before.len() ==> #[trigger] regs[i].name@ != #[trigger] before[k].name@
    &&& forall|i: int| 0 <= i < regs.len() ==> (#[trigger] regs[i]).scale >= 1 && sim_ok(regs[i].simulation)
    &&& occupied(regs).no_duplicates()
}

/// Whether register name `n` is used twice among `before ++ regs` (with
/// at least one use in `regs`).
pub open spec fn name_reused(before: Seq<RegisterSpec>, regs: Seq<RegisterSpec>, n: Seq<char>) -> bool {
    ||| exists|i: int, j: int|
        0 <= i < j < regs.len() && #[trigger] regs[i].name@ == n && #[trigger] regs[j].name@ == n
    ||| exists|i: int, k: int|
        0 <= i < regs.len() && 0 <= k < before.len() && #[trigger] regs[i].name@ == n
            && #[trigger] before[k].name@ == n
}

/// Whether an error names a real violation among the registers `regs` of
/// `space` (whose names must also avoid `before`).
pub open spec fn registers_show(
    before: Seq<RegisterSpec>,
    regs: Seq<RegisterSpec>,
    space: RegisterSpace,
    e: Invalid,
) -> bool {
    match e {
        Invalid::DuplicateRegisterName(n) => name_reused(before, regs, n@),
        Invalid::RegisterScale(n) => exists|i: int|
            0 <= i < regs.len() && #[trigger] regs[i].name@ == n@ && regs[i].scale == 0,
        Invalid::Behavior(Context::Register(n), f) => exists|i: int|
            0 <= i < regs.len() && #[trigger] regs[i].name@ == n@ && sim_breaks(regs[i].simulation, f),
        Invalid::AddressOverlap(s, a) => s == space && twice(occupied(regs), a),
        _ => false,
    }
}

/// Whether `a` is in the first `n` elements of `s`.
fn seen(s: &Vec<u16>, a: u16) -> (b: bool)
    ensures
        b == s@.contains(a),
{
    let mut i: usize = 0;
    while i < s.len()
        invariant
            0 <= i <= s@.len(),
            forall|j: int| 0 <= j < i ==> s@[j] != a,
        decreases s@.len() - i,
    {
        if s[i] == a {
            assert(s@[i as int] == a);
            return true;
        }
        i = i + 1;
    }
    false
}

/// Whether a register in `regs[..upto]` is called `name`.
fn register_named(regs: &Vec<RegisterSpec>, upto: usize, name: &str) -> (b: bool)
    requires
        upto <= regs@.len(),
    ensures
        b == exists|k: int| 0 <= k < upto && #[trigger] regs@[k].name@ == name@,
{
    let mut k: usize = 0;
    while k < upto
        invariant
            0 <= k <= upto <= regs@.len(),
            forall|j: int| 0 <= j < k ==> #[trigger] regs@[j].name@ != name@,
        decreases upto - k,
    {
        if crate::text::str_eq(regs[k].name.as_str(), name) {
            return true;
        }
        k = k + 1;
    }
    false
}

proof fn lemma_occupied_step(regs: Seq<RegisterSpec>, i: int)
    requires
        0 <= i < regs.len(),
    ensures
        occupied(regs.subrange(0, i + 1)) == occupied(regs.subrange(0, i)) + reg_words(regs[i]),
{
    assert(regs.subrange(0, i + 1).drop_last() =~= regs.subrange(0, i));
}

proof fn lemma_no_dup_push(s: Seq<u16>, a: u16)
    requires
        s.no_duplicates(),
        !s.contains(a),
    ensures
        s.push(a).no_duplicates(),
{
    assert forall|i: int, j: int|
        0 <= i < s.push(a).len() && 0 <= j < s.push(a).len() && i != j implies
        s.push(a)[i] != s.push(a)[j] by {
        if i < s.len() && j < s.len() {
        } else if i < s.len() {
            assert(s.contains(s[i]));
        } else {
            assert(s.contains(s[j]));
        }
    }
}

proof fn lemma_twice_prefix(s: Seq<u16>, t: Seq<u16>, a: u16)
    requires
        twice(s, a),
        s.len() <= t.len(),
        forall|k: int| 0 <= k < s.len() ==> #[trigger] s[k] == t[k],
    ensures
        twice(t, a),
{
    let (i, j) = choose|i: int, j: int| 0 <= i < j < s.len() && #[trigger] s[i] == a && #[trigger] s[j] == a;
    assert(t[i] == a && t[j] == a);
}

/// The addresses of a register-list prefix lead the addresses of the list.
proof fn lemma_occupied_prefix(regs: Seq<RegisterSpec>, n: int)
    requires
        0 <= n <= regs.len(),
    ensures
        occupied(regs.subrange(0, n)).len() <= occupied(regs).len(),
        forall|k: int| 0 <= k < occupied(regs.subrange(0, n)).len() ==>
            #[trigger] occupied(regs.subrange(0, n))[k] == occupied(regs)[k],
    decreases regs.len() - n,
{
    if n == regs.len() {
        assert(regs.subrange(0, n) =~= regs);
    } else {
        lemma_occupied_prefix(regs, n + 1);
        lemma_occupied_step(regs, n);
        let p = occupied(regs.subrange(0, n));
        let q = occupied(regs.subrange(0, n + 1));
        assert forall|k: int| 0 <= k < p.len() implies #[trigger] p[k] == occupied(regs)[k] by {
            assert(q[k] == p[k]);
        }
    }
}

/// Whether register `i` of `regs` repeats an earlier name (of `regs` or
/// `before`).
pub open spec fn reg_dup(before: Seq<RegisterSpec>, regs: Seq<RegisterSpec>, i: int) -> bool {
    (exists|k: int| 0 <= k < i && #[trigger] regs[k].name@ == regs[i].name@) || (exists|k: int|
        0 <= k < before.len() && #[trigger] before[k].name@ == regs[i].name@)
}

/// Whether register `i` passes its checks: a new name, a scale of at
/// least 1, a sound behavior, and words not taken by earlier registers.
pub open spec fn register_passes(before: Seq<RegisterSpec>, regs: Seq<RegisterSpec>, i: int) -> bool {
    let r = regs[i];
    let prior = occupied(regs.subrange(0, i));
    &&& !reg_dup(before, regs, i)
    &&& r.scale >= 1
    &&& sim_ok(r.simulation)
    &&& !prior.contains(r.address)
    &&& r.data_type.words() == 2 ==> !prior.contains(sat_addr(r.address, 1)) && sat_addr(r.address, 1) != r.address
}

/// The error reported for a failing register `i`: a repeated name, then a
/// zero scale, then the behavior's first fault, then the first taken word.
pub open spec fn register_fault(
    before: Seq<RegisterSpec>,
    regs: Seq<RegisterSpec>,
    space: RegisterSpace,
    i: int,
    e: Invalid,
) -> bool {
    let r = regs[i];
    if reg_dup(before, regs, i) {
        e matches Invalid::DuplicateRegisterName(n) && n@ == r.name@
    } else if r.scale == 0 {
        e matches Invalid::RegisterScale(n) && n@ == r.name@
    } else if !sim_ok(r.simulation) {
        e matches Invalid::Behavior(Context::Register(n), f) && n@ == r.name@ && (r.simulation matches Some(b)
            && b.reports(f))
    } else if occupied(regs.subrange(0, i)).contains(r.address) {
        e == Invalid::AddressOverlap(space, r.address)
    } else {
        e == Invalid::AddressOverlap(space, sat_addr(r.address, 1))
    }
}

/// Whether `e` is what the register checks of one space report: the
/// error of the first register, in order, that fails.
pub open spec fn registers_report(
    before: Seq<RegisterSpec>,
    regs: Seq<RegisterSpec>,
    space: RegisterSpace,
    e: Invalid,
) -> bool {
    exists|i: int|
        0 <= i < regs.len() && (forall|j: int| 0 <= j < i ==> #[trigger] register_passes(before, regs, j))
            && !register_passes(before, regs, i) && #[trigger] register_fault(before, regs, space, i, e)
}

/// Check the registers of one space, whose names must also avoid `before`.
pub fn check_registers(before: &Vec<RegisterSpec>, regs: &Vec<RegisterSpec>, space: RegisterSpace) -> (r:
    Result<(), Invalid>)
    ensures
        r is Ok <==> registers_ok(before@, regs@),
        r matches Err(e) ==> registers_show(before@, regs@, space, e) && registers_report(before@, regs@, space, e),
{
    let mut occ: Vec<u16> = Vec::new();
    let mut i: usize = 0;
    while i < regs.len()
        invariant
            0 <= i <= regs@.len(),
            occ@ == occupied(regs@.subrange(0, i as int)),
            occ@.no_duplicates(),
            forall|a: int, b: int| 0 <= a < b < i ==> #[trigger] regs@[a].name@ != #[trigger] regs@[b].name@,
            forall|a: int, k: int|
                0 <= a < i && 0 <= k < before@.len() ==> #[trigger] regs@[a].name@ != #[trigger] before@[k].name@,
            forall|a: int| 0 <= a < i ==> (#[trigger] regs@[a]).scale >= 1 && sim_ok(regs@[a].simulation),
            forall|j: int| 0 <= j < i ==> #[trigger] register_passes(before@, regs@, j),
        decreases regs@.len() - i,
    {
        let reg = &regs[i];
        let name = reg.name.as_str();
        if register_named(regs, i, name) || register_named(before, before.len(), name) {
            let n = reg.name.clone();
            proof {
                assert(regs@[i as int].name@ == n@);
                assert(reg_dup(before@, regs@, i as int));
                assert(register_fault(before@, regs@, space, i as int, Invalid::DuplicateRegisterName(n)));
            }
            return Err(Invalid::DuplicateRegisterName(n));
        }
        proof {
            assert(!reg_dup(before@, regs@, i as int));
        }
        if reg.scale == 0 {
            let e = Invalid::RegisterScale(reg.name.clone());
            proof {
                assert(register_fault(before@, regs@, space, i as int, e));
            }
            return Err(e);
        }
        match &reg.simulation {
            Some(sim) => match sim.validate() {
                Ok(()) => {},
                Err(f) => {
                    let e = Invalid::Behavior(Context::Register(reg.name.clone()), f);
                    proof {
                        assert(register_fault(before@, regs@, space, i as int, e));
                    }
                    return Err(e);
                },
            },
            None => {},
        }
        proof {
            lemma_occupied_step(regs@, i as int);
        }
        let first = reg.address;
        if seen(&occ, first) {
            proof {
                let k = choose|k: int| 0 <= k < occ@.len() && occ@[k] == first;
                let full = occupied(regs@.subrange(0, i as int + 1));
                assert(full[k] == first && full[occ@.len() as int] == first);
                lemma_occupied_prefix(regs@, i as int + 1);
                lemma_twice_prefix(full, occupied(regs@), first);
                assert(register_fault(before@, regs@, space, i as int, Invalid::AddressOverlap(space, first)));
            }
            return Err(Invalid::AddressOverlap(space, first));
        }
        proof {
            lemma_no_dup_push(occ@, first);
        }
        let ghost prior = occ@;
        occ.push(first);
        if reg.data_type.word_count() == 2 {
            let second = if first == 65535 { 65535 } else { first + 1 };
            proof {
                assert(second == sat_addr(first, 1));
            }
            if seen(&occ, second) {
                proof {
                    if second != first {
                        let k = choose|k: int| 0 <= k < occ@.len() && occ@[k] == second;
                        assert(prior[k] == second);
                    }
                    assert(register_fault(before@, regs@, space, i as int, Invalid::AddressOverlap(space, second)));
                }
                proof {
                    let k = choose|k: int| 0 <= k < occ@.len() && occ@[k] == second;
                    let full = occupied(regs@.subrange(0, i as int + 1));
                    assert(full[k] == second && full[occ@.len() as int] == second);
                    lemma_occupied_prefix(regs@, i as int + 1);
                    lemma_twice_prefix(full, occupied(regs@), second);
                }
                return Err(Invalid::AddressOverlap(space, second));
            }
            proof {
                lemma_no_dup_push(occ@, second);
                assert(occ@[prior.len() as int] == first);
                if prior.contains(second) {
                    let k = choose|k: int| 0 <= k < prior.len() && prior[k] == second;
                    assert(occ@[k] == second);
                }
                assert(second != first);
                assert(!prior.contains(second));
            }
            occ.push(second);
        }
        proof {
            assert(!prior.contains(first));
            assert(prior == occupied(regs@.subrange(0, i as int)));
            assert(occ@ =~= occupied(regs@.subrange(0, i as int + 1)));
            assert(register_passes(before@, regs@, i as int));
        }
        i = i + 1;
    }
    proof {
        assert(regs@.subrange(0, regs@.len() as int) =~= regs@);
    }
    Ok(())
}

/// Whether a trigger source names a register of `holding` or `input`.
pub open spec fn source_known(holding: Seq<RegisterSpec>, input: Seq<RegisterSpec>, src: Seq<char>) -> bool {
    crate::device::names_register(holding, src) || crate::device::names_register(input, src)
}

/// The coil checks of one table: names unique within `cs` and unused by
/// `before`, and every trigger names a register.
pub open spec fn coils_ok(
    before: Seq<CoilSpec>,
    cs: Seq<CoilSpec>,
    holding: Seq<RegisterSpec>,
    input: Seq<RegisterSpec>,
) -> bool {
    &&& forall|i: int, j: int| 0 <= i < j < cs.len() ==> #[trigger] cs[i].name@ != #[trigger] cs[j].name@
    &&& forall|i: int, k: int|
        0 <= i < cs.len() && 0 <= k < before.len() ==> #[trigger] cs[i].name@ != #[trigger] before[k].name@
    &&& forall|i: int|
        0 <= i < cs.len() ==> ((#[trigger] cs[i]).trigger matches Some(t) ==> source_known(
            holding,
            input,
            t.source_register@,
        ))
}

/// Whether an error names a real violation among the coils `cs`.
pub open spec fn coils_show(
    before: Seq<CoilSpec>,
    cs: Seq<CoilSpec>,
    holding: Seq<RegisterSpec>,
    input: Seq<RegisterSpec>,
    e: Invalid,
) -> bool {
    match e {
        Invalid::DuplicateCoilName(n) => {
            ||| exists|i: int, j: int|
                0 <= i < j < cs.len() && #[trigger] cs[i].name@ == n@ && #[trigger] cs[j].name@ == n@
            ||| exists|i: int, k: int|
                0 <= i < cs.len() && 0 <= k < before.len() && #[trigger] cs[i].name@ == n@
                    && #[trigger] before[k].name@ == n@
        },
        Invalid::UnknownTriggerRegister(c, src) => exists|i: int|
            0 <= i < cs.len() && #[trigger] cs[i].name@ == c@ && cs[i].trigger is Some
                && cs[i].trigger.unwrap().source_register@ == src@ && !source_known(holding, input, src@),
        _ => false,
    }
}

/// Whether a coil in `cs[..upto]` is called `name`.
fn coil_named(cs: &Vec<CoilSpec>, upto: usize, name: &str) -> (b: bool)
    requires
        upto <= cs@.len(),
    ensures
        b == exists|k: int| 0 <= k < upto && #[trigger] cs@[k].name@ == name@,
{
    let mut k: usize = 0;
    while k < upto
        invariant
            0 <= k <= upto <= cs@.len(),
            forall|j: int| 0 <= j < k ==> #[trigger] cs@[j].name@ != name@,
        decreases upto - k,
    {
        if crate::text::str_eq(cs[k].name.as_str(), name) {
            return true;
        }
        k = k + 1;
    }
    false
}

/// Check one coil table, whose names must also avoid `before`.
/// Whether coil `i` of `cs` repeats an earlier name (of `cs` or `before`).
pub open spec fn coil_dup(before: Seq<CoilSpec>, cs: Seq<CoilSpec>, i: int) -> bool {
    (exists|k: int| 0 <= k < i && #[trigger] cs[k].name@ == cs[i].name@) || (exists|k: int|
        0 <= k < before.len() && #[trigger] before[k].name@ == cs[i].name@)
}

/// Whether coil `i` passes its checks: a new name, and a trigger (if any)
/// naming a holding or input register.
pub open spec fn coil_passes(
    before: Seq<CoilSpec>,
    cs: Seq<CoilSpec>,
    holding: Seq<RegisterSpec>,
    input: Seq<RegisterSpec>,
    i: int,
) -> bool {
    &&& !coil_dup(before, cs, i)
    &&& cs[i].trigger matches Some(t) ==> source_known(holding, input, t.source_register@)
}

/// Whether `e` is what the coil checks report: the first coil, in order,
/// that fails names it; a repeated name comes before an unknown trigger.
pub open spec fn coils_report(
    before: Seq<CoilSpec>,
    cs: Seq<CoilSpec>,
    holding: Seq<RegisterSpec>,
    input: Seq<RegisterSpec>,
    e: Invalid,
) -> bool {
    exists|i: int|
        0 <= i < cs.len() && (forall|j: int| 0 <= j < i ==> #[trigger] coil_passes(before, cs, holding, input, j))
            && !coil_passes(before, cs, holding, input, i) && #[trigger] coil_fault(before, cs, i, e)
}

/// The error reported for a failing coil `i`.
pub open spec fn coil_fault(before: Seq<CoilSpec>, cs: Seq<CoilSpec>, i: int, e: Invalid) -> bool {
    if coil_dup(before, cs, i) {
        e matches Invalid::DuplicateCoilName(n) && n@ == cs[i].name@
    } else {
        e matches Invalid::UnknownTriggerRegister(n, src) && n@ == cs[i].name@ && (cs[i].trigger matches Some(t)
            && t.source_register@ == src@)
    }
}

pub fn check_coils(
    before: &Vec<CoilSpec>,
    cs: &Vec<CoilSpec>,
    holding: &Vec<RegisterSpec>,
    input: &Vec<RegisterSpec>,
) -> (r: Result<(), Invalid>)
    ensures
        r is Ok <==> coils_ok(before@, cs@, holding@, input@),
        r matches Err(e) ==> coils_show(before@, cs@, holding@, input@, e) && coils_report(
            before@,
            cs@,
            holding@,
            input@,
            e,
        ),
{
    let mut i: usize = 0;
    while i < cs.len()
        invariant
            0 <= i <= cs@.len(),
            forall|a: int, b: int| 0 <= a < b < i ==> #[trigger] cs@[a].name@ != #[trigger] cs@[b].name@,
            forall|a: int, k: int|
                0 <= a < i && 0 <= k < before@.len() ==> #[trigger] cs@[a].name@ != #[trigger] before@[k].name@,
            forall|a: int|
                0 <= a < i ==> ((#[trigger] cs@[a]).trigger matches Some(t) ==> source_known(
                    holding@,
                    input@,
                    t.source_register@,
                )),
            forall|j: int| 0 <= j < i ==> #[trigger] coil_passes(before@, cs@, holding@, input@, j),
        decreases cs@.len() - i,
    {
        let coil = &cs[i];
        let name = coil.name.as_str();
        if coil_named(cs, i, name) || coil_named(before, before.len(), name) {
            let e = Invalid::DuplicateCoilName(coil.name.clone());
            proof {
                assert(coil_dup(before@, cs@, i as int));
                assert(coil_fault(before@, cs@, i as int, e));
            }
            return Err(e);
        }
        match &coil.trigger {
            Some(t) => {
                let src = t.source_register.as_str();
                if crate::device::find_register(holding, src).is_none()
                    && crate::device::find_register(input, src).is_none() {
                    let e = Invalid::UnknownTriggerRegister(coil.name.clone(), t.source_register.clone());
                    proof {
                        assert(!coil_dup(before@, cs@, i as int));
                        assert(coil_fault(before@, cs@, i as int, e));
                        assert(!coil_passes(before@, cs@, holding@, input@, i as int));
                    }
                    return Err(e);
                }
            },
            None => {},
        }
        proof {
            assert(!coil_dup(before@, cs@, i as int));
            assert(coil_passes(before@, cs@, holding@, input@, i as int));
        }
        i = i + 1;
    }
    Ok(())
}

impl DeviceSpec {
    /// Whether alarm trigger `t` names a coil, a discrete input, or a
    /// binary point.
    pub open spec fn alarm_target(self, t: Seq<char>) -> bool {
        ||| names_coil(self.registers.coils@, t)
        ||| names_coil(self.registers.discrete@, t)
        ||| exists|i: int|
            0 <= i < self.points@.len() && #[trigger] self.points@[i].id@ == t
                && self.points@[i].kind == PointKind::Binary
    }

    /// Every alarm names a coil, discrete input or binary point.
    pub open spec fn alarms_ok(self) -> bool {
        forall|i: int| 0 <= i < self.alarms@.len() ==> self.alarm_target(#[trigger] self.alarms@[i].trigger@)
    }

    /// Whether a binary point has id `t`.
    fn binary_point(&self, t: &str) -> (b: bool)
        ensures
            b == exists|i: int|
                0 <= i < self.points@.len() && #[trigger] self.points@[i].id@ == t@
                    && self.points@[i].kind == PointKind::Binary,
    {
        let mut i: usize = 0;
        while i < self.points.len()
            invariant
                0 <= i <= self.points@.len(),
                forall|j: int|
                    0 <= j < i ==> !(#[trigger] self.points@[j].id@ == t@ && self.points@[j].kind
                        == PointKind::Binary),
            decreases self.points@.len() - i,
        {
            if self.points[i].kind == PointKind::Binary && crate::text::str_eq(
                self.points[i].id.as_str(),
                t,
            ) {
                return true;
            }
            i = i + 1;
        }
        false
    }

    /// Whether `e` names the first alarm, in document order, whose trigger
    /// is no coil, discrete input or binary point.
    pub open spec fn first_bad_alarm(self, e: Invalid) -> bool {
        e matches Invalid::UnknownAlarmCoil(a, t) && exists|i: int|
            0 <= i < self.alarms@.len() && #[trigger] self.alarms@[i].name@ == a@ && self.alarms@[i].trigger@ == t@
                && !self.alarm_target(t@) && forall|j: int|
                0 <= j < i ==> self.alarm_target(#[trigger] self.alarms@[j].trigger@)
    }

    /// Check that every alarm names a coil, discrete input or binary point;
    /// the first alarm in document order that does not is reported.
    pub fn check_alarms(&self) -> (r: Result<(), Invalid>)
        ensures
            r is Ok <==> self.alarms_ok(),
            r matches Err(e) ==> self.first_bad_alarm(e),
    {
        let mut i: usize = 0;
        while i < self.alarms.len()
            invariant
                0 <= i <= self.alarms@.len(),
                forall|j: int| 0 <= j < i ==> self.alarm_target(#[trigger] self.alarms@[j].trigger@),
            decreases self.alarms@.len() - i,
        {
            let alarm = &self.alarms[i];
            let t = alarm.trigger.as_str();
            if crate::device::find_coil(&self.registers.coils, t).is_none()
                && crate::device::find_coil(&self.registers.discrete, t).is_none()
                && !self.binary_point(t) {
                let a = alarm.name.clone();
                let tr = alarm.trigger.clone();
                assert(self.alarms@[i as int].name@ == a@ && self.alarms@[i as int].trigger@ == tr@);
                return Err(Invalid::UnknownAlarmCoil(a, tr));
            }
            i = i + 1;
        }
        Ok(())
    }

    /// The point rules: a language 2 document has points; ids are non-empty
    /// and unique; analog points have no trigger and a sound behavior;
    /// binary points have no behavior; every trigger names an analog point.
    pub open spec fn points_ok(self) -> bool {
        let pts = self.points@;
        &&& self.spec_version >= 2 ==> pts.len() > 0
        &&& forall|i: int| 0 <= i < pts.len() ==> (#[trigger] pts[i]).id@.len() > 0
        &&& forall|i: int, j: int| 0 <= i < j < pts.len() ==> #[trigger] pts[i].id@ != #[trigger] pts[j].id@
        &&& forall|i: int|
            0 <= i < pts.len() ==> ((#[trigger] pts[i]).kind == PointKind::Analog ==> pts[i].trigger is None
                && sim_ok(pts[i].simulation))
        &&& forall|i: int|
            0 <= i < pts.len() ==> ((#[trigger] pts[i]).kind == PointKind::Binary ==> pts[i].simulation is None)
        &&& forall|i: int|
            0 <= i < pts.len() ==> ((#[trigger] pts[i]).trigger matches Some(t) ==> self.analog_source(
                t.source_register@,
            ))
    }

    /// Whether the first point with id `src` exists and is analog.
    pub open spec fn analog_source(self, src: Seq<char>) -> bool {
        exists|k: int| crate::device::first_point(self.points@, src, k) && self.points@[k].kind == PointKind::Analog
    }

    /// Whether a point with id `n` has a trigger whose source is `src`.
    pub open spec fn trigger_on(self, n: Seq<char>, src: Seq<char>) -> bool {
        exists|i: int|
            0 <= i < self.points@.len() && #[trigger] self.points@[i].id@ == n && self.points@[i].trigger is Some
                && self.points@[i].trigger.unwrap().source_register@ == src
    }

    /// Whether the first point with id `src` exists and is binary.
    pub open spec fn binary_source(self, src: Seq<char>) -> bool {
        exists|k: int| crate::device::first_point(self.points@, src, k) && self.points@[k].kind == PointKind::Binary
    }

    /// Whether an error names a real violation of the point rules.
    pub open spec fn points_show(self, e: Invalid) -> bool {
        let pts = self.points@;
        match e {
            Invalid::NoPoints => self.spec_version >= 2 && pts.len() == 0,
            Invalid::EmptyPointId => exists|i: int| 0 <= i < pts.len() && (#[trigger] pts[i]).id@.len() == 0,
            Invalid::DuplicatePointId(n) => exists|i: int, j: int|
                0 <= i < j < pts.len() && #[trigger] pts[i].id@ == n@ && #[trigger] pts[j].id@ == n@,
            Invalid::AnalogTrigger(n) => exists|i: int|
                0 <= i < pts.len() && #[trigger] pts[i].id@ == n@ && pts[i].kind == PointKind::Analog
                    && pts[i].trigger is Some,
            Invalid::Behavior(Context::Point(n), f) => exists|i: int|
                0 <= i < pts.len() && #[trigger] pts[i].id@ == n@ && pts[i].kind == PointKind::Analog
                    && sim_breaks(pts[i].simulation, f),
            Invalid::BinarySimulation(n) => exists|i: int|
                0 <= i < pts.len() && #[trigger] pts[i].id@ == n@ && pts[i].kind == PointKind::Binary
                    && pts[i].simulation is Some,
            Invalid::UnknownTriggerPoint(n, src) => self.trigger_on(n@, src@) && !crate::device::has_point(
                pts,
                src@,
            ),
            Invalid::TriggerNotAnalog(n, src) => self.trigger_on(n@, src@) && self.binary_source(src@),
            _ => false,
        }
    }

    /// Whether point `i` passes the first pass of checks: a non-empty, new
    /// id; an analog point without trigger and with a sound behavior; a
    /// binary point without behavior.
    pub open spec fn point_passes(self, i: int) -> bool {
        let p = self.points@[i];
        &&& p.id@.len() > 0
        &&& !(exists|k: int| 0 <= k < i && #[trigger] self.points@[k].id@ == p.id@)
        &&& p.kind == PointKind::Analog ==> p.trigger is None && sim_ok(p.simulation)
        &&& p.kind == PointKind::Binary ==> p.simulation is None
    }

    /// The error reported for a point `i` that fails the first pass: an
    /// empty id, a repeated id, then the rules of its kind in order.
    pub open spec fn point_fault(self, i: int, e: Invalid) -> bool {
        let p = self.points@[i];
        if p.id@.len() == 0 {
            e == Invalid::EmptyPointId
        } else if exists|k: int| 0 <= k < i && #[trigger] self.points@[k].id@ == p.id@ {
            e matches Invalid::DuplicatePointId(n) && n@ == p.id@
        } else if p.kind == PointKind::Analog {
            if p.trigger is Some {
                e matches Invalid::AnalogTrigger(n) && n@ == p.id@
            } else {
                e matches Invalid::Behavior(Context::Point(n), f) && n@ == p.id@ && (p.simulation matches Some(b)
                    && b.reports(f))
            }
        } else {
            e matches Invalid::BinarySimulation(n) && n@ == p.id@
        }
    }

    /// Whether point `i`'s trigger, if any, names an analog point.
    pub open spec fn trigger_passes(self, i: int) -> bool {
        self.points@[i].trigger matches Some(t) ==> self.analog_source(t.source_register@)
    }

    /// The error reported for a point `i` whose trigger fails: an unknown
    /// source, or a source that is not analog.
    pub open spec fn trigger_fault(self, i: int, e: Invalid) -> bool {
        let p = self.points@[i];
        p.trigger matches Some(t) && if !crate::device::has_point(self.points@, t.source_register@) {
            e matches Invalid::UnknownTriggerPoint(n, src) && n@ == p.id@ && src@ == t.source_register@
        } else {
            e matches Invalid::TriggerNotAnalog(n, src) && n@ == p.id@ && src@ == t.source_register@
        }
    }

    /// Whether `e` is what the point checks report: a language 2 document
    /// without points; else the first point, in order, failing the first
    /// pass; else the first point whose trigger fails.
    pub open spec fn points_report(self, e: Invalid) -> bool {
        let n = self.points@.len();
        if self.spec_version >= 2 && n == 0 {
            e == Invalid::NoPoints
        } else if !(forall|i: int| 0 <= i < n ==> #[trigger] self.point_passes(i)) {
            exists|i: int|
                0 <= i < n && (forall|j: int| 0 <= j < i ==> #[trigger] self.point_passes(j)) && !self.point_passes(i)
                    && #[trigger] self.point_fault(i, e)
        } else {
            exists|i: int|
                0 <= i < n && (forall|j: int| 0 <= j < i ==> #[trigger] self.trigger_passes(j)) && !self.trigger_passes(
                    i,
                ) && #[trigger] self.trigger_fault(i, e)
        }
    }

    /// Whether a point in `points[..upto]` has id `id`.
    fn point_named(&self, upto: usize, id: &str) -> (b: bool)
        requires
            upto <= self.points@.len(),
        ensures
            b == exists|k: int| 0 <= k < upto && #[trigger] self.points@[k].id@ == id@,
    {
        let mut k: usize = 0;
        while k < upto
            invariant
                0 <= k <= upto <= self.points@.len(),
                forall|j: int| 0 <= j < k ==> #[trigger] self.points@[j].id@ != id@,
            decreases upto - k,
        {
            if crate::text::str_eq(self.points[k].id.as_str(), id) {
                return true;
            }
            k = k + 1;
        }
        false
    }

    /// Check the point rules.
    pub fn validate_points(&self) -> (r: Result<(), Invalid>)
        ensures
            r is Ok <==> self.points_ok(),
            r matches Err(e) ==> self.points_show(e) && self.points_report(e),
    {
        if self.spec_version >= 2 && self.points.len() == 0 {
            return Err(Invalid::NoPoints);
        }
        let mut i: usize = 0;
        while i < self.points.len()
            invariant
                0 <= i <= self.points@.len(),
                !(self.spec_version >= 2 && self.points@.len() == 0),
                forall|a: int| 0 <= a < i ==> (#[trigger] self.points@[a]).id@.len() > 0,
                forall|a: int, b: int|
                    0 <= a < b < i ==> #[trigger] self.points@[a].id@ != #[trigger] self.points@[b].id@,
                forall|a: int|
                    0 <= a < i ==> ((#[trigger] self.points@[a]).kind == PointKind::Analog
                        ==> self.points@[a].trigger is None && sim_ok(self.points@[a].simulation)),
                forall|a: int|
                    0 <= a < i ==> ((#[trigger] self.points@[a]).kind == PointKind::Binary
                        ==> self.points@[a].simulation is None),
                forall|j: int| 0 <= j < i ==> #[trigger] self.point_passes(j),
            decreases self.points@.len() - i,
        {
            let p = &self.points[i];
            if p.id.as_str().is_empty() {
                assert(self.points@[i as int].id@.len() == 0);
                assert(self.point_fault(i as int, Invalid::EmptyPointId));
                assert(!self.point_passes(i as int));
                assert(self.points_report(Invalid::EmptyPointId));
                return Err(Invalid::EmptyPointId);
            }
            if self.point_named(i, p.id.as_str()) {
                let e = Invalid::DuplicatePointId(p.id.clone());
                assert(self.point_fault(i as int, e));
                assert(!self.point_passes(i as int));
                assert(self.points_report(e));
                return Err(e);
            }
            match p.kind {
                PointKind::Analog => {
                    if p.trigger.is_some() {
                        let e = Invalid::AnalogTrigger(p.id.clone());
                        assert(self.point_fault(i as int, e));
                        assert(!self.point_passes(i as int));
                        assert(self.points_report(e));
                        return Err(e);
                    }
                    match &p.simulation {
                        Some(sim) => match sim.validate() {
                            Ok(()) => {},
                            Err(f) => {
                                let e = Invalid::Behavior(Context::Point(p.id.clone()), f);
                                assert(self.point_fault(i as int, e));
                                assert(!self.point_passes(i as int));
                                assert(self.points_report(e));
                                return Err(e);
                            },
                        },
                        None => {},
                    }
                },
                PointKind::Binary => {
                    if p.simulation.is_some() {
                        let e = Invalid::BinarySimulation(p.id.clone());
                        assert(self.point_fault(i as int, e));
                        assert(!self.point_passes(i as int));
                        assert(self.points_report(e));
                        return Err(e);
                    }
                },
            }
            assert(self.point_passes(i as int));
            i = i + 1;
        }
        let mut i: usize = 0;
        while i < self.points.len()
            invariant
                0 <= i <= self.points@.len(),
                !(self.spec_version >= 2 && self.points@.len() == 0),
                forall|a: int| 0 <= a < self.points@.len() ==> (#[trigger] self.points@[a]).id@.len() > 0,
                forall|a: int, b: int|
                    0 <= a < b < self.points@.len() ==> #[trigger] self.points@[a].id@
                        != #[trigger] self.points@[b].id@,
                forall|a: int|
                    0 <= a < self.points@.len() ==> ((#[trigger] self.points@[a]).kind == PointKind::Analog
                        ==> self.points@[a].trigger is None && sim_ok(self.points@[a].simulation)),
                forall|a: int|
                    0 <= a < self.points@.len() ==> ((#[trigger] self.points@[a]).kind == PointKind::Binary
                        ==> self.points@[a].simulation is None),
                forall|a: int|
                    0 <= a < i ==> ((#[trigger] self.points@[a]).trigger matches Some(t)
                        ==> self.analog_source(t.source_register@)),
                forall|j: int| 0 <= j < self.points@.len() ==> #[trigger] self.point_passes(j),
                forall|j: int| 0 <= j < i ==> #[trigger] self.trigger_passes(j),
            decreases self.points@.len() - i,
        {
            let p = &self.points[i];
            match &p.trigger {
                Some(t) => {
                    let src = t.source_register.as_str();
                    match self.point_index(src) {
                        None => {
                            let e = Invalid::UnknownTriggerPoint(p.id.clone(), t.source_register.clone());
                            assert(self.trigger_fault(i as int, e));
                            return Err(e);
                        },
                        Some(k) => {
                            if self.points[k].kind != PointKind::Analog {
                                assert(self.points@[i as int].id@ == p.id@);
                                assert(crate::device::first_point(self.points@, src@, k as int));
                                assert(self.points@[k as int].kind == PointKind::Binary);
                                let n = p.id.clone();
                                let ts = t.source_register.clone();
                                assert(self.points@[i as int].trigger.unwrap().source_register@ == ts@);
                                assert(self.points@[i as int].id@ == n@);
                                assert(self.trigger_on(n@, ts@));
                                assert(self.binary_source(ts@));
                                let e = Invalid::TriggerNotAnalog(n, ts);
                                assert(self.points_show(e));
                                assert(crate::device::has_point(self.points@, src@));
                                assert(self.trigger_fault(i as int, e));
                                assert(!self.trigger_passes(i as int));
                                return Err(e);
                            }
                        },
                    }
                },
                None => {},
            }
            assert(self.trigger_passes(i as int));
            i = i + 1;
        }
        Ok(())
    }
}

/// Whether a Modbus table can hold a point of this kind (analog points in
/// register tables with scale at least 1, binary points in bit tables).
pub open spec fn fits(kind: PointKind, e: ModbusExportEntry) -> bool {
    match kind {
        PointKind::Analog => (e.space == ModbusExportSpace::Holding || e.space == ModbusExportSpace::Input)
            && e.scale >= 1,
        PointKind::Binary => e.space == ModbusExportSpace::Coil || e.space == ModbusExportSpace::Discrete,
    }
}

/// Whether a Modbus table takes analog points.
pub open spec fn register_table(space: ModbusExportSpace) -> bool {
    space == ModbusExportSpace::Holding || space == ModbusExportSpace::Input
}

/// Addresses one export row occupies: the words of its data type in a
/// register table (saturated at the end of the address space), one bit
/// otherwise.
pub open spec fn row_words(e: ModbusExportEntry) -> Seq<u16> {
    if register_table(e.space) && e.data_type.words() == 2 {
        seq![e.address, sat_addr(e.address, 1)]
    } else {
        seq![e.address]
    }
}

/// Addresses occupied in table `space` by a row list, row by row.
pub open spec fn export_occupied(rows: Seq<(String, ModbusExportEntry)>, space: ModbusExportSpace) -> Seq<u16>
    decreases rows.len(),
{
    if rows.len() == 0 {
        Seq::empty()
    } else {
        export_occupied(rows.drop_last(), space) + if rows.last().1.space == space {
            row_words(rows.last().1)
        } else {
            Seq::empty()
        }
    }
}

proof fn lemma_export_step(rows: Seq<(String, ModbusExportEntry)>, i: int, space: ModbusExportSpace)
    requires
        0 <= i < rows.len(),
    ensures
        export_occupied(rows.subrange(0, i + 1), space) == export_occupied(rows.subrange(0, i), space) + if rows[i].1.space
            == space {
            row_words(rows[i].1)
        } else {
            Seq::empty()
        },
{
    assert(rows.subrange(0, i + 1).drop_last() =~= rows.subrange(0, i));
}

proof fn lemma_export_prefix(rows: Seq<(String, ModbusExportEntry)>, n: int, space: ModbusExportSpace)
    requires
        0 <= n <= rows.len(),
    ensures
        export_occupied(rows.subrange(0, n), space).len() <= export_occupied(rows, space).len(),
        forall|k: int| 0 <= k < export_occupied(rows.subrange(0, n), space).len() ==>
            #[trigger] export_occupied(rows.subrange(0, n), space)[k] == export_occupied(rows, space)[k],
    decreases rows.len() - n,
{
    if n == rows.len() {
        assert(rows.subrange(0, n) =~= rows);
    } else {
        lemma_export_prefix(rows, n + 1, space);
        lemma_export_step(rows, n, space);
        let p = export_occupied(rows.subrange(0, n), space);
        let q = export_occupied(rows.subrange(0, n + 1), space);
        assert forall|k: int| 0 <= k < p.len() implies #[trigger] p[k] == export_occupied(rows, space)[k] by {
            assert(q[k] == p[k]);
        }
    }
}

impl DeviceSpec {
    /// Whether the first point with id `id` exists and has kind `kind`.
    pub open spec fn first_kind(self, id: Seq<char>, kind: PointKind) -> bool {
        exists|k: int| first_point(self.points@, id, k) && self.points@[k].kind == kind
    }

    /// Whether an export row names a point that its table can hold.
    pub open spec fn row_fits(self, row: (String, ModbusExportEntry)) -> bool {
        exists|k: int| first_point(self.points@, row.0@, k) && fits(self.points@[k].kind, row.1)
    }

    /// The Modbus export rules: every row names a point its table can
    /// hold, and no table has an address twice.
    pub open spec fn modbus_export_ok(self, rows: Seq<(String, ModbusExportEntry)>) -> bool {
        &&& forall|i: int| 0 <= i < rows.len() ==> self.row_fits(#[trigger] rows[i])
        &&& forall|space: ModbusExportSpace| (#[trigger] export_occupied(rows, space)).no_duplicates()
    }

    /// Whether an error names a real violation of the Modbus export rules.
    pub open spec fn modbus_export_show(self, rows: Seq<(String, ModbusExportEntry)>, e: Invalid) -> bool {
        match e {
            Invalid::UnknownModbusExport(id) => exists|i: int|
                0 <= i < rows.len() && #[trigger] rows[i].0@ == id@ && !has_point(self.points@, id@),
            Invalid::ExportScale(id) => exists|i: int|
                0 <= i < rows.len() && #[trigger] rows[i].0@ == id@ && self.first_kind(id@, PointKind::Analog)
                    && register_table(rows[i].1.space) && rows[i].1.scale == 0,
            Invalid::ExportSpace(id, kind, space) => exists|i: int|
                0 <= i < rows.len() && #[trigger] rows[i].0@ == id@ && self.first_kind(id@, kind)
                    && rows[i].1.space == space && register_table(space) != (kind == PointKind::Analog),
            Invalid::ExportOverlap(space, a) => twice(export_occupied(rows, space), a),
            _ => false,
        }
    }

    /// Whether Modbus export row `i` passes its checks: it names a point
    /// its table can hold, and its words are free in its table.
    pub open spec fn mrow_passes(self, rows: Seq<(String, ModbusExportEntry)>, i: int) -> bool {
        let x = rows[i].1;
        let prior = export_occupied(rows.subrange(0, i), x.space);
        &&& self.row_fits(rows[i])
        &&& !prior.contains(x.address)
        &&& (register_table(x.space) && x.data_type.words() == 2) ==> !prior.contains(sat_addr(x.address, 1))
            && sat_addr(x.address, 1) != x.address
    }

    /// The error reported for a failing Modbus export row `i`: an id that
    /// is no point, then a table that does not take the point's kind, then
    /// a zero scale, then the first taken word.
    pub open spec fn mrow_fault(self, rows: Seq<(String, ModbusExportEntry)>, i: int, e: Invalid) -> bool {
        let r = rows[i];
        let x = r.1;
        if !has_point(self.points@, r.0@) {
            e matches Invalid::UnknownModbusExport(id) && id@ == r.0@
        } else if !self.row_fits(r) {
            if exists|k: int|
                first_point(self.points@, r.0@, k) && (self.points@[k].kind == PointKind::Analog) != register_table(
                    x.space,
                ) {
                e matches Invalid::ExportSpace(id, kind, space) && id@ == r.0@ && space == x.space && self.first_kind(
                    r.0@,
                    kind,
                )
            } else {
                e matches Invalid::ExportScale(id) && id@ == r.0@
            }
        } else if export_occupied(rows.subrange(0, i), x.space).contains(x.address) {
            e == Invalid::ExportOverlap(x.space, x.address)
        } else {
            e == Invalid::ExportOverlap(x.space, sat_addr(x.address, 1))
        }
    }

    /// Whether `e` is what the Modbus export check reports: the error of
    /// the first row, in table order, that fails.
    pub open spec fn modbus_export_report(self, rows: Seq<(String, ModbusExportEntry)>, e: Invalid) -> bool {
        exists|i: int|
            0 <= i < rows.len() && (forall|j: int| 0 <= j < i ==> #[trigger] self.mrow_passes(rows, j))
                && !self.mrow_passes(rows, i) && #[trigger] self.mrow_fault(rows, i, e)
    }

    /// Check one Modbus export table against the points.
    #[verifier::rlimit(40)]
    pub fn validate_modbus_export(&self, export: &Export<ModbusExportEntry>) -> (r: Result<(), Invalid>)
        ensures
            r is Ok <==> self.modbus_export_ok(export.entries()),
            r matches Err(e) ==> self.modbus_export_show(export.entries(), e) && self.modbus_export_report(
                export.entries(),
                e,
            ),
    {
        let ghost rows = export.entries();
        let mut holding: Vec<u16> = Vec::new();
        let mut input: Vec<u16> = Vec::new();
        let mut coils: Vec<u16> = Vec::new();
        let mut discrete: Vec<u16> = Vec::new();
        let n = export.len();
        let mut i: usize = 0;
        while i < n
            invariant
                0 <= i <= n,
                n == rows.len(),
                rows == export.entries(),
                forall|a: int| 0 <= a < i ==> self.row_fits(#[trigger] rows[a]),
                holding@ == export_occupied(rows.subrange(0, i as int), ModbusExportSpace::Holding),
                input@ == export_occupied(rows.subrange(0, i as int), ModbusExportSpace::Input),
                coils@ == export_occupied(rows.subrange(0, i as int), ModbusExportSpace::Coil),
                discrete@ == export_occupied(rows.subrange(0, i as int), ModbusExportSpace::Discrete),
                holding@.no_duplicates(),
                input@.no_duplicates(),
                coils@.no_duplicates(),
                discrete@.no_duplicates(),
                forall|j: int| 0 <= j < i ==> #[trigger] self.mrow_passes(rows, j),
            decreases n - i,
        {
            let id = export.id(i);
            let entry = export.entry(i);
            let k = match self.point_index(id.as_str()) {
                None => {
                    let e = Invalid::UnknownModbusExport(id.clone());
                    proof {
                        assert(!has_point(self.points@, rows[i as int].0@));
                        assert(self.mrow_fault(rows, i as int, e));
                        assert(!self.mrow_passes(rows, i as int));
                    }
                    return Err(e);
                },
                Some(k) => k,
            };
            let kind = self.points[k].kind;
            assert(first_point(self.points@, id@, k as int));
            assert(rows[i as int].0@ == id@);
            assert(self.first_kind(id@, kind));
            let analog_table = entry.space == ModbusExportSpace::Holding || entry.space
                == ModbusExportSpace::Input;
            assert(has_point(self.points@, rows[i as int].0@));
            if (kind == PointKind::Analog) != analog_table {
                let e = Invalid::ExportSpace(id.clone(), kind, entry.space);
                assert(self.modbus_export_show(rows, e));
                proof {
                    assert(!self.row_fits(rows[i as int])) by {
                        if self.row_fits(rows[i as int]) {
                            let q = choose|q: int| first_point(self.points@, rows[i as int].0@, q) && fits(
                                self.points@[q].kind,
                                rows[i as int].1,
                            );
                            crate::device::lemma_first_point_unique(self.points@, id@, q, k as int);
                        }
                    }
                    assert(self.mrow_fault(rows, i as int, e));
                }
                return Err(e);
            }
            if kind == PointKind::Analog && entry.scale == 0 {
                let e = Invalid::ExportScale(id.clone());
                assert(self.modbus_export_show(rows, e));
                proof {
                    assert(!self.row_fits(rows[i as int])) by {
                        if self.row_fits(rows[i as int]) {
                            let q = choose|q: int| first_point(self.points@, rows[i as int].0@, q) && fits(
                                self.points@[q].kind,
                                rows[i as int].1,
                            );
                            crate::device::lemma_first_point_unique(self.points@, id@, q, k as int);
                        }
                    }
                    assert forall|q: int| first_point(self.points@, rows[i as int].0@, q) implies (
                    self.points@[q].kind == PointKind::Analog) == register_table(entry.space) by {
                        crate::device::lemma_first_point_unique(self.points@, id@, q, k as int);
                    }
                    assert(self.mrow_fault(rows, i as int, e));
                }
                return Err(e);
            }
            assert(self.row_fits(rows[i as int]));
            proof {
                lemma_export_step(rows, i as int, ModbusExportSpace::Holding);
                lemma_export_step(rows, i as int, ModbusExportSpace::Input);
                lemma_export_step(rows, i as int, ModbusExportSpace::Coil);
                lemma_export_step(rows, i as int, ModbusExportSpace::Discrete);
            }
            let two = analog_table && entry.data_type.word_count() == 2;
            let first = entry.address;
            let second = if first == 65535 { 65535 } else { first + 1 };
            let occ: &mut Vec<u16> = match entry.space {
                ModbusExportSpace::Holding => &mut holding,
                ModbusExportSpace::Input => &mut input,
                ModbusExportSpace::Coil => &mut coils,
                ModbusExportSpace::Discrete => &mut discrete,
            };
            let ghost full = export_occupied(rows.subrange(0, i as int + 1), entry.space);
            let ghost prev = occ@;
            assert(prev == export_occupied(rows.subrange(0, i as int), entry.space));
            if seen(occ, first) {
                proof {
                    let q = choose|q: int| 0 <= q < prev.len() && prev[q] == first;
                    assert(full[q] == first && full[prev.len() as int] == first);
                    lemma_export_prefix(rows, i as int + 1, entry.space);
                    lemma_twice_prefix(full, export_occupied(rows, entry.space), first);
                    assert(self.mrow_fault(rows, i as int, Invalid::ExportOverlap(entry.space, first)));
                }
                return Err(Invalid::ExportOverlap(entry.space, first));
            }
            proof {
                lemma_no_dup_push(occ@, first);
            }
            occ.push(first);
            proof {
                assert(second == sat_addr(first, 1));
            }
            if two {
                if seen(occ, second) {
                    proof {
                        if second != first {
                            let q = choose|q: int| 0 <= q < prev.len() + 1 && prev.push(first)[q] == second;
                            assert(prev[q] == second);
                        }
                        assert(self.mrow_fault(rows, i as int, Invalid::ExportOverlap(entry.space, second)));
                        let q = choose|q: int| 0 <= q < prev.len() + 1 && prev.push(first)[q] == second;
                        assert(full[q] == second && full[prev.len() as int + 1] == second);
                        lemma_export_prefix(rows, i as int + 1, entry.space);
                        lemma_twice_prefix(full, export_occupied(rows, entry.space), second);
                    }
                    return Err(Invalid::ExportOverlap(entry.space, second));
                }
                proof {
                    lemma_no_dup_push(occ@, second);
                    assert(occ@[prev.len() as int] == first);
                    if prev.contains(second) {
                        let q = choose|q: int| 0 <= q < prev.len() && prev[q] == second;
                        assert(occ@[q] == second);
                    }
                    assert(second != first);
                    assert(!prev.contains(second));
                }
                occ.push(second);
            }
            proof {
                assert(occ@ =~= full);
                assert(!prev.contains(first));
                assert(self.mrow_passes(rows, i as int));
            }
            i = i + 1;
        }
        proof {
            assert(rows.subrange(0, n as int) =~= rows);
            assert forall|space: ModbusExportSpace| (#[trigger] export_occupied(rows, space)).no_duplicates() by {
                match space {
                    ModbusExportSpace::Holding => {},
                    ModbusExportSpace::Input => {},
                    ModbusExportSpace::Coil => {},
                    ModbusExportSpace::Discrete => {},
                }
            }
        }
        Ok(())
    }
}

impl DeviceSpec {
    /// Every OPC UA export id is a point.
    pub open spec fn opcua_export_ok(self, rows: Seq<(String, OpcuaExportEntry)>) -> bool {
        forall|i: int| 0 <= i < rows.len() ==> has_point(self.points@, (#[trigger] rows[i]).0@)
    }

    /// Every BACnet export id is a point, and no object and instance pair
    /// is exported twice.
    pub open spec fn bacnet_export_ok(self, rows: Seq<(String, BacnetExportEntry)>) -> bool {
        &&& forall|i: int| 0 <= i < rows.len() ==> has_point(self.points@, (#[trigger] rows[i]).0@)
        &&& forall|i: int, j: int| 0 <= i < j < rows.len() ==> #[trigger] rows[i].1 != #[trigger] rows[j].1
    }

    /// The rules one language 2 binding must meet: a Modbus, OPC UA or
    /// BACnet binding has a non-empty export that meets its table rules.
    pub open spec fn binding_ok(self, b: BindingSpec) -> bool {
        match b {
            BindingSpec::ModbusTcp { export, .. } => export.entries().len() > 0 && self.modbus_export_ok(
                export.entries(),
            ),
            BindingSpec::ModbusTls { export, .. } => export.entries().len() > 0 && self.modbus_export_ok(
                export.entries(),
            ),
            BindingSpec::Opcua { export, .. } => export.entries().len() > 0 && self.opcua_export_ok(
                export.entries(),
            ),
            BindingSpec::BacnetIp { export, .. } => export.entries().len() > 0 && self.bacnet_export_ok(
                export.entries(),
            ),
            _ => true,
        }
    }

    /// Every binding meets the language 2 binding rules.
    pub open spec fn bindings_ok(self) -> bool {
        forall|i: int| 0 <= i < self.bindings@.len() ==> self.binding_ok(#[trigger] self.bindings@[i])
    }

    /// Whether an error names a real violation of an OPC UA export.
    pub open spec fn opcua_show(self, rows: Seq<(String, OpcuaExportEntry)>, e: Invalid) -> bool {
        match e {
            Invalid::EmptyOpcuaExport => rows.len() == 0,
            Invalid::UnknownOpcuaExport(id) => exists|i: int|
                0 <= i < rows.len() && #[trigger] rows[i].0@ == id@ && !has_point(self.points@, id@),
            _ => false,
        }
    }

    /// Whether an error names a real violation of a BACnet export.
    pub open spec fn bacnet_show(self, rows: Seq<(String, BacnetExportEntry)>, e: Invalid) -> bool {
        match e {
            Invalid::EmptyBacnetExport => rows.len() == 0,
            Invalid::UnknownBacnetExport(id) => exists|i: int|
                0 <= i < rows.len() && #[trigger] rows[i].0@ == id@ && !has_point(self.points@, id@),
            Invalid::DuplicateBacnetObject(id, object, instance) => exists|i: int, j: int|
                0 <= i < j < rows.len() && #[trigger] rows[j].0@ == id@ && #[trigger] rows[i].1 == rows[j].1
                    && rows[j].1 == (BacnetExportEntry { object, instance }),
            _ => false,
        }
    }

    /// Whether an error names a real violation of one binding's rules.
    pub open spec fn binding_show(self, b: BindingSpec, e: Invalid) -> bool {
        match b {
            BindingSpec::ModbusTcp { export, .. } => if export.entries().len() == 0 {
                e == Invalid::EmptyModbusExport
            } else {
                self.modbus_export_show(export.entries(), e)
            },
            BindingSpec::ModbusTls { export, .. } => if export.entries().len() == 0 {
                e == Invalid::EmptyModbusExport
            } else {
                self.modbus_export_show(export.entries(), e)
            },
            BindingSpec::Opcua { export, .. } => self.opcua_show(export.entries(), e),
            BindingSpec::BacnetIp { export, .. } => self.bacnet_show(export.entries(), e),
            _ => false,
        }
    }

    /// Whether an error names a real violation of some binding's rules.
    pub open spec fn bindings_show(self, e: Invalid) -> bool {
        exists|i: int| 0 <= i < self.bindings@.len() && self.binding_show(#[trigger] self.bindings@[i], e)
    }

    /// Whether `e` is what the OPC UA export check reports: an empty
    /// table, else the first row, in table order, that names no point.
    pub open spec fn opcua_report(self, rows: Seq<(String, OpcuaExportEntry)>, e: Invalid) -> bool {
        if rows.len() == 0 {
            e == Invalid::EmptyOpcuaExport
        } else {
            exists|i: int|
                0 <= i < rows.len() && (forall|j: int| 0 <= j < i ==> has_point(self.points@, (#[trigger] rows[j]).0@))
                    && !has_point(self.points@, rows[i].0@) && (e matches Invalid::UnknownOpcuaExport(id) && id@
                    == (#[trigger] rows[i]).0@)
        }
    }

    /// Whether BACnet export row `i` passes: it names a point, and no
    /// earlier row has the same object and instance.
    pub open spec fn brow_passes(self, rows: Seq<(String, BacnetExportEntry)>, i: int) -> bool {
        &&& has_point(self.points@, rows[i].0@)
        &&& forall|j: int| 0 <= j < i ==> #[trigger] rows[j].1 != rows[i].1
    }

    /// Whether `e` is what the BACnet export check reports: an empty table,
    /// else the error of the first row, in table order, that fails (an
    /// unknown point before a repeated object).
    pub open spec fn bacnet_report(self, rows: Seq<(String, BacnetExportEntry)>, e: Invalid) -> bool {
        if rows.len() == 0 {
            e == Invalid::EmptyBacnetExport
        } else {
            exists|i: int|
                0 <= i < rows.len() && (forall|j: int| 0 <= j < i ==> #[trigger] self.brow_passes(rows, j))
                    && !self.brow_passes(rows, i) && #[trigger] self.brow_fault(rows, i, e)
        }
    }

    /// The error reported for a failing BACnet export row `i`.
    pub open spec fn brow_fault(self, rows: Seq<(String, BacnetExportEntry)>, i: int, e: Invalid) -> bool {
        if !has_point(self.points@, rows[i].0@) {
            e matches Invalid::UnknownBacnetExport(id) && id@ == rows[i].0@
        } else {
            e matches Invalid::DuplicateBacnetObject(id, object, instance) && id@ == rows[i].0@ && object
                == rows[i].1.object && instance == rows[i].1.instance
        }
    }

    /// Whether `e` is what the check of one binding reports.
    pub open spec fn binding_report(self, b: BindingSpec, e: Invalid) -> bool {
        match b {
            BindingSpec::ModbusTcp { export, .. } => if export.entries().len() == 0 {
                e == Invalid::EmptyModbusExport
            } else {
                self.modbus_export_report(export.entries(), e)
            },
            BindingSpec::ModbusTls { export, .. } => if export.entries().len() == 0 {
                e == Invalid::EmptyModbusExport
            } else {
                self.modbus_export_report(export.entries(), e)
            },
            BindingSpec::Opcua { export, .. } => self.opcua_report(export.entries(), e),
            BindingSpec::BacnetIp { export, .. } => self.bacnet_report(export.entries(), e),
            _ => false,
        }
    }

    /// Whether `e` is what the binding checks report: the error of the
    /// first binding, in document order, that fails.
    pub open spec fn bindings_report(self, e: Invalid) -> bool {
        exists|i: int|
            0 <= i < self.bindings@.len() && (forall|j: int| 0 <= j < i ==> self.binding_ok(#[trigger] self.bindings@[j]))
                && !self.binding_ok(self.bindings@[i]) && self.binding_report(#[trigger] self.bindings@[i], e)
    }

    fn check_opcua_export(&self, export: &Export<OpcuaExportEntry>) -> (r: Result<(), Invalid>)
        ensures
            r is Ok <==> export.entries().len() > 0 && self.opcua_export_ok(export.entries()),
            r matches Err(e) ==> self.opcua_show(export.entries(), e) && self.opcua_report(export.entries(), e),
    {
        let ghost rows = export.entries();
        let n = export.len();
        if n == 0 {
            return Err(Invalid::EmptyOpcuaExport);
        }
        let mut i: usize = 0;
        while i < n
            invariant
                0 <= i <= n,
                n == rows.len(),
                rows == export.entries(),
                forall|a: int| 0 <= a < i ==> has_point(self.points@, (#[trigger] rows[a]).0@),
            decreases n - i,
        {
            let id = export.id(i);
            if self.point_index(id.as_str()).is_none() {
                let e = Invalid::UnknownOpcuaExport(id.clone());
                assert(rows[i as int].0@ == id@);
                assert(!has_point(self.points@, rows[i as int].0@));
                return Err(e);
            }
            i = i + 1;
        }
        Ok(())
    }

    fn check_bacnet_export(&self, export: &Export<BacnetExportEntry>) -> (r: Result<(), Invalid>)
        ensures
            r is Ok <==> export.entries().len() > 0 && self.bacnet_export_ok(export.entries()),
            r matches Err(e) ==> self.bacnet_show(export.entries(), e) && self.bacnet_report(export.entries(), e),
    {
        let ghost rows = export.entries();
        let n = export.len();
        if n == 0 {
            return Err(Invalid::EmptyBacnetExport);
        }
        let mut i: usize = 0;
        while i < n
            invariant
                0 <= i <= n,
                n == rows.len(),
                rows == export.entries(),
                forall|a: int| 0 <= a < i ==> has_point(self.points@, (#[trigger] rows[a]).0@),
                forall|a: int, b: int| 0 <= a < b < i ==> #[trigger] rows[a].1 != #[trigger] rows[b].1,
                forall|j: int| 0 <= j < i ==> #[trigger] self.brow_passes(rows, j),
            decreases n - i,
        {
            let id = export.id(i);
            let entry = export.entry(i);
            let found = self.point_index(id.as_str());
            if found.is_none() {
                let e = Invalid::UnknownBacnetExport(id.clone());
                assert(rows[i as int].0@ == id@);
                assert(self.brow_fault(rows, i as int, e));
                return Err(e);
            }
            assert(has_point(self.points@, rows[i as int].0@)) by {
                let k = found.unwrap() as int;
                assert(self.points@[k].id@ == id@);
            }
            let mut j: usize = 0;
            while j < i
                invariant
                    0 <= j <= i < n,
                    n == rows.len(),
                    rows == export.entries(),
                    entry == rows[i as int].1,
                    id@ == rows[i as int].0@,
                    has_point(self.points@, rows[i as int].0@),
                    forall|c: int| 0 <= c < i ==> #[trigger] self.brow_passes(rows, c),
                    forall|c: int| 0 <= c < j ==> rows[c].1 != entry,
                decreases i - j,
            {
                if export.entry(j) == entry {
                    let e = Invalid::DuplicateBacnetObject(id.clone(), entry.object, entry.instance);
                    assert(rows[i as int].0@ == id@ && rows[j as int].1 == rows[i as int].1);
                    assert(has_point(self.points@, rows[i as int].0@));
                    assert(self.brow_fault(rows, i as int, e));
                    assert(!self.brow_passes(rows, i as int));
                    return Err(e);
                }
                j = j + 1;
            }
            assert(self.brow_passes(rows, i as int));
            i = i + 1;
        }
        Ok(())
    }

    /// Check every binding against the language 2 binding rules.
    pub fn validate_v2_bindings(&self) -> (r: Result<(), Invalid>)
        ensures
            r is Ok <==> self.bindings_ok(),
            r matches Err(e) ==> self.bindings_show(e) && self.bindings_report(e),
    {
        let mut i: usize = 0;
        while i < self.bindings.len()
            invariant
                0 <= i <= self.bindings@.len(),
                forall|a: int| 0 <= a < i ==> self.binding_ok(#[trigger] self.bindings@[a]),
            decreases self.bindings@.len() - i,
        {
            let b = &self.bindings[i];
            let checked = match b {
                BindingSpec::ModbusTcp { export, .. } => if export.is_empty() {
                    Err(Invalid::EmptyModbusExport)
                } else {
                    self.validate_modbus_export(export)
                },
                BindingSpec::ModbusTls { export, .. } => if export.is_empty() {
                    Err(Invalid::EmptyModbusExport)
                } else {
                    self.validate_modbus_export(export)
                },
                BindingSpec::Opcua { export, .. } => self.check_opcua_export(export),
                BindingSpec::BacnetIp { export, .. } => self.check_bacnet_export(export),
                _ => Ok(()),
            };
            match checked {
                Ok(()) => {},
                Err(e) => {
                    assert(self.binding_show(self.bindings@[i as int], e));
                    assert(self.binding_report(self.bindings@[i as int], e));
                    return Err(e);
                },
            }
            i = i + 1;
        }
        Ok(())
    }
}

/// The point a `set_point` step aims at, if the step is one.
pub open spec fn set_point_target(st: ScenarioStep) -> Option<Seq<char>> {
    match st {
        ScenarioStep::SetPoint(s) => Some(s.point@),
        _ => None,
    }
}

/// The coil a `set_coil` step aims at, if the step is one.
pub open spec fn set_coil_target(st: ScenarioStep) -> Option<Seq<char>> {
    match st {
        ScenarioStep::SetCoil(s) => Some(s.coil@),
        _ => None,
    }
}

impl DeviceSpec {
    /// Whether an analog point, or a register of either space, is called `t`.
    pub open spec fn analog_target(self, t: Seq<char>) -> bool {
        ||| exists|i: int|
            0 <= i < self.points@.len() && #[trigger] self.points@[i].id@ == t
                && self.points@[i].kind == PointKind::Analog
        ||| crate::device::names_register(self.registers.holding@, t)
        ||| crate::device::names_register(self.registers.input@, t)
    }

    /// Whether a binary point, a coil or a discrete input is called `t`.
    pub open spec fn binary_target(self, t: Seq<char>) -> bool {
        ||| exists|i: int|
            0 <= i < self.points@.len() && #[trigger] self.points@[i].id@ == t
                && self.points@[i].kind == PointKind::Binary
        ||| names_coil(self.registers.coils@, t)
        ||| names_coil(self.registers.discrete@, t)
    }

    /// Whether one scenario step names things this device has: a register
    /// of the named space, a point that takes the literal, a coil or
    /// discrete input, or a fault target of the right kind.
    pub open spec fn step_ok(self, st: ScenarioStep) -> bool {
        match st {
            ScenarioStep::SetRegister(s) => {
                ||| s.register_type@ == "holding"@ && crate::device::names_register(
                    self.registers.holding@,
                    s.register_name@,
                )
                ||| s.register_type@ == "input"@ && crate::device::names_register(
                    self.registers.input@,
                    s.register_name@,
                )
            },
            ScenarioStep::SetPoint(s) => exists|k: int|
                first_point(self.points@, s.point@, k) && match self.points@[k].kind {
                    PointKind::Analog => s.value.is_analog(),
                    PointKind::Binary => s.value.binary() is Some,
                },
            ScenarioStep::SetCoil(s) => names_coil(self.registers.coils@, s.coil@) || names_coil(
                self.registers.discrete@,
                s.coil@,
            ),
            ScenarioStep::InjectFault(s) => match s.register_name {
                None => false,
                Some(t) => if s.fault_type == FaultType::Alarm {
                    self.binary_target(t@)
                } else {
                    self.analog_target(t@)
                },
            },
            ScenarioStep::SetTickInterval(_) => true,
        }
    }

    /// Whether a scenario can run on this device: it has a kebab-case id,
    /// its steps are usable, and every step names things the device has.
    pub open spec fn guest_ok(self, sc: ScenarioSpec) -> bool {
        &&& sc.id@.len() > 0
        &&& kebab(sc.id@)
        &&& sc.steps_ok()
        &&& forall|i: int| 0 <= i < sc.steps@.len() ==> self.step_ok(#[trigger] sc.steps@[i])
    }

    /// Whether step `st` is a failing `set_register` on `reg` in space `ty`.
    pub open spec fn bad_set_register(self, st: ScenarioStep, reg: Seq<char>, ty: Seq<char>) -> bool {
        match st {
            ScenarioStep::SetRegister(s) => s.register_name@ == reg && s.register_type@ == ty && !self.step_ok(st),
            _ => false,
        }
    }

    /// Whether step `st` is an `inject_fault` aimed at `t` (alarm or not)
    /// whose target has the wrong kind.
    pub open spec fn bad_fault_target(self, st: ScenarioStep, t: Seq<char>, alarm: bool) -> bool {
        match st {
            ScenarioStep::InjectFault(s) => match s.register_name {
                Some(n) => n@ == t && (s.fault_type == FaultType::Alarm) == alarm && !self.step_ok(st),
                None => false,
            },
            _ => false,
        }
    }

    /// Whether a `set_point` step gives point `pt` a literal of the wrong
    /// kind, the point's first entry having kind `kind`.
    pub open spec fn bad_literal(self, st: ScenarioStep, pt: Seq<char>, kind: PointKind) -> bool {
        match st {
            ScenarioStep::SetPoint(s) => s.point@ == pt && self.first_kind(pt, kind) && !self.step_ok(st),
            _ => false,
        }
    }

    /// Whether an error names a real violation of `guest_ok`.
    pub open spec fn guest_show(self, sc: ScenarioSpec, e: Invalid) -> bool {
        let steps = sc.steps@;
        match e {
            Invalid::MissingScenarioId(n) => sc.id@.len() == 0 && n@ == sc.name@,
            Invalid::ScenarioIdFormat(n, id) => !kebab(sc.id@) && n@ == sc.name@ && id@ == sc.id@,
            Invalid::Steps(f) => sc.shows(f),
            Invalid::SetRegisterNotFound(c, reg, ty) => c@ == sc.id@ && exists|i: int|
                0 <= i < steps.len() && self.bad_set_register(#[trigger] steps[i], reg@, ty@),
            Invalid::SetPointNotFound(c, pt) => c@ == sc.id@ && (exists|i: int|
                0 <= i < steps.len() && #[trigger] set_point_target(steps[i]) == Some(pt@)) && !has_point(
                self.points@,
                pt@,
            ),
            Invalid::SetPointNeedsNumber(c, pt) => c@ == sc.id@ && exists|i: int|
                0 <= i < steps.len() && self.bad_literal(#[trigger] steps[i], pt@, PointKind::Analog),
            Invalid::SetPointNeedsBool(c, pt) => c@ == sc.id@ && exists|i: int|
                0 <= i < steps.len() && self.bad_literal(#[trigger] steps[i], pt@, PointKind::Binary),
            Invalid::SetCoilNotFound(c, coil) => c@ == sc.id@ && (exists|i: int|
                0 <= i < steps.len() && #[trigger] set_coil_target(steps[i]) == Some(coil@)) && !names_coil(
                self.registers.coils@,
                coil@,
            ) && !names_coil(self.registers.discrete@, coil@),
            Invalid::FaultNeedsTarget(c) => c@ == sc.id@ && exists|i: int|
                0 <= i < steps.len() && (#[trigger] steps[i] matches ScenarioStep::InjectFault(s)
                    && s.register_name is None),
            Invalid::AlarmTargetNotBinary(c, t) => c@ == sc.id@ && exists|i: int|
                0 <= i < steps.len() && self.bad_fault_target(#[trigger] steps[i], t@, true),
            Invalid::FaultTargetNotAnalog(c, t) => c@ == sc.id@ && exists|i: int|
                0 <= i < steps.len() && self.bad_fault_target(#[trigger] steps[i], t@, false),
            _ => false,
        }
    }

    /// Whether `e` is the error the device check gives for step `st` of the
    /// scenario with id `ctx`.
    pub open spec fn step_shows(self, st: ScenarioStep, ctx: Seq<char>, e: Invalid) -> bool {
        match e {
            Invalid::SetRegisterNotFound(c, reg, ty) => c@ == ctx && self.bad_set_register(st, reg@, ty@),
            Invalid::SetPointNotFound(c, pt) => c@ == ctx && set_point_target(st) == Some(pt@) && !has_point(
                self.points@,
                pt@,
            ),
            Invalid::SetPointNeedsNumber(c, pt) => c@ == ctx && self.bad_literal(st, pt@, PointKind::Analog),
            Invalid::SetPointNeedsBool(c, pt) => c@ == ctx && self.bad_literal(st, pt@, PointKind::Binary),
            Invalid::SetCoilNotFound(c, coil) => c@ == ctx && set_coil_target(st) == Some(coil@) && !names_coil(
                self.registers.coils@,
                coil@,
            ) && !names_coil(self.registers.discrete@, coil@),
            Invalid::FaultNeedsTarget(c) => c@ == ctx && (st matches ScenarioStep::InjectFault(s)
                && s.register_name is None),
            Invalid::AlarmTargetNotBinary(c, t) => c@ == ctx && self.bad_fault_target(st, t@, true),
            Invalid::FaultTargetNotAnalog(c, t) => c@ == ctx && self.bad_fault_target(st, t@, false),
            _ => false,
        }
    }

    /// Whether `e` is what the guest check reports: an empty id, then a
    /// malformed id, then the first step fault, then the first step (in
    /// document order) that names something the device lacks.
    pub open spec fn guest_reports(self, sc: ScenarioSpec, e: Invalid) -> bool {
        let steps = sc.steps@;
        if sc.id@.len() == 0 {
            e matches Invalid::MissingScenarioId(n) && n@ == sc.name@
        } else if !kebab(sc.id@) {
            e matches Invalid::ScenarioIdFormat(n, id) && n@ == sc.name@ && id@ == sc.id@
        } else if !sc.steps_ok() {
            e matches Invalid::Steps(f) && sc.reports(f)
        } else {
            exists|i: int|
                0 <= i < steps.len() && (forall|a: int| 0 <= a < i ==> self.step_ok(#[trigger] steps[a]))
                    && !self.step_ok(steps[i]) && #[trigger] self.step_shows(steps[i], sc.id@, e)
        }
    }

    /// Whether an analog point has id `t`.
    fn analog_point(&self, t: &str) -> (b: bool)
        ensures
            b == exists|i: int|
                0 <= i < self.points@.len() && #[trigger] self.points@[i].id@ == t@
                    && self.points@[i].kind == PointKind::Analog,
    {
        let mut i: usize = 0;
        while i < self.points.len()
            invariant
                0 <= i <= self.points@.len(),
                forall|j: int|
                    0 <= j < i ==> !(#[trigger] self.points@[j].id@ == t@ && self.points@[j].kind
                        == PointKind::Analog),
            decreases self.points@.len() - i,
        {
            if self.points[i].kind == PointKind::Analog && crate::text::str_eq(
                self.points[i].id.as_str(),
                t,
            ) {
                return true;
            }
            i = i + 1;
        }
        false
    }

    /// Check one step against the device; `ctx` is the scenario id.
    fn check_step(&self, st: &ScenarioStep, ctx: &String) -> (r: Result<(), Invalid>)
        ensures
            r is Ok <==> self.step_ok(*st),
            r matches Err(e) ==> self.step_shows(*st, ctx@, e),
    {
        match st {
            ScenarioStep::SetRegister(s) => {
                let in_holding = crate::device::find_register(
                    &self.registers.holding,
                    s.register_name.as_str(),
                ).is_some();
                let in_input = crate::device::find_register(
                    &self.registers.input,
                    s.register_name.as_str(),
                ).is_some();
                let ok = if crate::text::str_eq(s.register_type.as_str(), "holding") {
                    in_holding
                } else if crate::text::str_eq(s.register_type.as_str(), "input") {
                    in_input
                } else {
                    false
                };
                if !ok {
                    proof {
                        reveal_strlit("holding");
                        reveal_strlit("input");
                        assert("holding"@ != "input"@) by {
                            assert("holding"@[0] != "input"@[0]);
                        }
                        assert(!self.step_ok(*st));
                    }
                    return Err(
                        Invalid::SetRegisterNotFound(
                            ctx.clone(),
                            s.register_name.clone(),
                            s.register_type.clone(),
                        ),
                    );
                }
                proof {
                    reveal_strlit("holding");
                    reveal_strlit("input");
                }
                Ok(())
            },
            ScenarioStep::SetPoint(s) => {
                match self.point_index(s.point.as_str()) {
                    None => Err(Invalid::SetPointNotFound(ctx.clone(), s.point.clone())),
                    Some(k) => {
                        assert(first_point(self.points@, s.point@, k as int));
                        match self.points[k].kind {
                            PointKind::Analog => {
                                if !s.value.has_analog() {
                                    assert(self.first_kind(s.point@, PointKind::Analog));
                                    return Err(Invalid::SetPointNeedsNumber(ctx.clone(), s.point.clone()));
                                }
                                Ok(())
                            },
                            PointKind::Binary => {
                                if s.value.as_bool().is_none() {
                                    assert(self.first_kind(s.point@, PointKind::Binary));
                                    return Err(Invalid::SetPointNeedsBool(ctx.clone(), s.point.clone()));
                                }
                                Ok(())
                            },
                        }
                    },
                }
            },
            ScenarioStep::SetCoil(s) => {
                if crate::device::find_coil(&self.registers.coils, s.coil.as_str()).is_none()
                    && crate::device::find_coil(&self.registers.discrete, s.coil.as_str()).is_none() {
                    return Err(Invalid::SetCoilNotFound(ctx.clone(), s.coil.clone()));
                }
                Ok(())
            },
            ScenarioStep::InjectFault(s) => {
                match &s.register_name {
                    None => Err(Invalid::FaultNeedsTarget(ctx.clone())),
                    Some(target) => {
                        let t = target.as_str();
                        if s.fault_type == FaultType::Alarm {
                            let binary = self.binary_point(t) || crate::device::find_coil(
                                &self.registers.coils,
                                t,
                            ).is_some() || crate::device::find_coil(&self.registers.discrete, t).is_some();
                            if !binary {
                                return Err(Invalid::AlarmTargetNotBinary(ctx.clone(), target.clone()));
                            }
                        } else {
                            let analog = self.analog_point(t) || crate::device::find_register(
                                &self.registers.holding,
                                t,
                            ).is_some() || crate::device::find_register(&self.registers.input, t).is_some();
                            if !analog {
                                return Err(Invalid::FaultTargetNotAnalog(ctx.clone(), target.clone()));
                            }
                        }
                        Ok(())
                    },
                }
            },
            ScenarioStep::SetTickInterval(_) => Ok(()),
        }
    }

    /// Validate one scenario against this device's registers, coils and
    /// points. Used for bundled scenarios and for session installs.
    pub fn validate_guest_scenario(&self, scenario: &ScenarioSpec) -> (r: Result<(), Invalid>)
        ensures
            r is Ok <==> self.guest_ok(*scenario),
            r matches Err(e) ==> self.guest_show(*scenario, e) && self.guest_reports(*scenario, e),
    {
        if scenario.id.as_str().is_empty() {
            return Err(Invalid::MissingScenarioId(scenario.name.clone()));
        }
        if !scenario_id_ok(scenario.id.as_str()) {
            return Err(Invalid::ScenarioIdFormat(scenario.name.clone(), scenario.id.clone()));
        }
        match scenario.validate() {
            Ok(()) => {},
            Err(f) => {
                return Err(Invalid::Steps(f));
            },
        }
        let mut i: usize = 0;
        while i < scenario.steps.len()
            invariant
                0 <= i <= scenario.steps@.len(),
                scenario.steps_ok(),
                scenario.id@.len() > 0,
                kebab(scenario.id@),
                forall|a: int| 0 <= a < i ==> self.step_ok(#[trigger] scenario.steps@[a]),
            decreases scenario.steps@.len() - i,
        {
            match self.check_step(&scenario.steps[i], &scenario.id) {
                Ok(()) => {},
                Err(e) => {
                    assert(self.step_shows(scenario.steps@[i as int], scenario.id@, e));
                    assert(!self.step_ok(scenario.steps@[i as int]));
                    assert(self.guest_reports(*scenario, e));
                    assert(self.guest_show(*scenario, e));
                    return Err(e);
                },
            }
            i = i + 1;
        }
        Ok(())
    }
}

impl DeviceSpec {
    /// Bundled scenarios have unique ids and each can run on the device.
    pub open spec fn scenarios_ok(self) -> bool {
        &&& forall|i: int, j: int|
            0 <= i < j < self.scenarios@.len() ==> #[trigger] self.scenarios@[i].id@
                != #[trigger] self.scenarios@[j].id@
        &&& forall|i: int| 0 <= i < self.scenarios@.len() ==> self.guest_ok(#[trigger] self.scenarios@[i])
    }

    /// Whether an error names a real violation of `scenarios_ok`.
    pub open spec fn scenarios_show(self, e: Invalid) -> bool {
        ||| (e matches Invalid::DuplicateScenarioId(id) && exists|i: int, j: int|
            0 <= i < j < self.scenarios@.len() && #[trigger] self.scenarios@[i].id@ == id@
                && #[trigger] self.scenarios@[j].id@ == id@)
        ||| exists|i: int| 0 <= i < self.scenarios@.len() && self.guest_show(#[trigger] self.scenarios@[i], e)
    }

    /// Whether bundled scenario `i` passes: a new id, and it can run on
    /// the device.
    pub open spec fn scenario_passes(self, i: int) -> bool {
        &&& !(exists|k: int| 0 <= k < i && #[trigger] self.scenarios@[k].id@ == self.scenarios@[i].id@)
        &&& self.guest_ok(self.scenarios@[i])
    }

    /// Whether `e` is what the scenario checks report: for the first
    /// bundled scenario, in order, that fails, a repeated id, or else what
    /// its guest check reports.
    pub open spec fn scenarios_report(self, e: Invalid) -> bool {
        exists|i: int|
            0 <= i < self.scenarios@.len() && (forall|j: int| 0 <= j < i ==> #[trigger] self.scenario_passes(j))
                && !self.scenario_passes(i) && #[trigger] self.scenario_fault(i, e)
    }

    /// The error reported for a failing bundled scenario `i`.
    pub open spec fn scenario_fault(self, i: int, e: Invalid) -> bool {
        let sc = self.scenarios@[i];
        if exists|k: int| 0 <= k < i && #[trigger] self.scenarios@[k].id@ == sc.id@ {
            e matches Invalid::DuplicateScenarioId(id) && id@ == sc.id@
        } else {
            self.guest_reports(sc, e)
        }
    }

    /// Check the bundled scenarios.
    pub fn validate_scenarios(&self) -> (r: Result<(), Invalid>)
        ensures
            r is Ok <==> self.scenarios_ok(),
            r matches Err(e) ==> self.scenarios_show(e) && self.scenarios_report(e),
    {
        let mut i: usize = 0;
        while i < self.scenarios.len()
            invariant
                0 <= i <= self.scenarios@.len(),
                forall|a: int, b: int|
                    0 <= a < b < i ==> #[trigger] self.scenarios@[a].id@ != #[trigger] self.scenarios@[b].id@,
                forall|a: int| 0 <= a < i ==> self.guest_ok(#[trigger] self.scenarios@[a]),
                forall|c: int| 0 <= c < i ==> #[trigger] self.scenario_passes(c),
            decreases self.scenarios@.len() - i,
        {
            let sc = &self.scenarios[i];
            let mut j: usize = 0;
            while j < i
                invariant
                    0 <= j <= i < self.scenarios@.len(),
                    sc == self.scenarios@[i as int],
                    forall|c: int| 0 <= c < j ==> #[trigger] self.scenarios@[c].id@ != sc.id@,
                    forall|c: int| 0 <= c < i ==> #[trigger] self.scenario_passes(c),
                decreases i - j,
            {
                if crate::text::str_eq(self.scenarios[j].id.as_str(), sc.id.as_str()) {
                    let id = sc.id.clone();
                    assert(self.scenarios@[j as int].id@ == id@ && self.scenarios@[i as int].id@ == id@);
                    assert(self.scenario_fault(i as int, Invalid::DuplicateScenarioId(id)));
                    assert(!self.scenario_passes(i as int));
                    return Err(Invalid::DuplicateScenarioId(id));
                }
                j = j + 1;
            }
            assert(!(exists|k: int| 0 <= k < i && #[trigger] self.scenarios@[k].id@ == self.scenarios@[i as int].id@));
            match self.validate_guest_scenario(sc) {
                Ok(()) => {},
                Err(e) => {
                    assert(self.guest_show(self.scenarios@[i as int], e));
                    assert(self.scenario_fault(i as int, e));
                    return Err(e);
                },
            }
            assert(self.scenario_passes(i as int));
            i = i + 1;
        }
        Ok(())
    }

    /// Whether the language version is one this library understands.
    pub open spec fn version_ok(self) -> bool {
        SPEC_VERSION_MIN <= self.spec_version <= SPEC_VERSION
    }

    /// Whether the Modbus defaults are usable: unit id 1..=247 and a
    /// non-zero port.
    pub open spec fn modbus_ok(self) -> bool {
        1 <= self.modbus.unit_id <= 247 && self.modbus.default_port >= 1
    }

    /// Every rule of the device language holds.
    pub open spec fn valid(self) -> bool {
        &&& self.version_ok()
        &&& self.modbus_ok()
        &&& registers_ok(Seq::empty(), self.registers.holding@)
        &&& registers_ok(self.registers.holding@, self.registers.input@)
        &&& coils_ok(Seq::empty(), self.registers.coils@, self.registers.holding@, self.registers.input@)
        &&& coils_ok(
            self.registers.coils@,
            self.registers.discrete@,
            self.registers.holding@,
            self.registers.input@,
        )
        &&& self.alarms_ok()
        &&& self.points_ok()
        &&& self.spec_version >= 2 ==> self.bindings_ok()
        &&& self.scenarios_ok()
    }

    /// Whether an error names a real violation of `valid`.
    pub open spec fn shows(self, e: Invalid) -> bool {
        let h = self.registers.holding@;
        let n = self.registers.input@;
        ||| (e matches Invalid::SpecVersion(v) && v == self.spec_version && !self.version_ok())
        ||| (e == Invalid::UnitId && !(1 <= self.modbus.unit_id <= 247))
        ||| (e == Invalid::DefaultPort && self.modbus.default_port == 0)
        ||| registers_show(Seq::empty(), h, RegisterSpace::Holding, e)
        ||| registers_show(h, n, RegisterSpace::Input, e)
        ||| coils_show(Seq::empty(), self.registers.coils@, h, n, e)
        ||| coils_show(self.registers.coils@, self.registers.discrete@, h, n, e)
        ||| (e matches Invalid::UnknownAlarmCoil(a, t) && exists|i: int|
            0 <= i < self.alarms@.len() && #[trigger] self.alarms@[i].name@ == a@ && self.alarms@[i].trigger@ == t@
                && !self.alarm_target(t@))
        ||| self.points_show(e)
        ||| (self.spec_version >= 2 && self.bindings_show(e))
        ||| self.scenarios_show(e)
    }

    /// Whether `e` is what validation reports. The groups of checks run in
    /// order (version, unit id, port, holding registers, input registers,
    /// coils, discrete inputs, alarms, points, language 2 bindings,
    /// scenarios); within the first group that fails, `e` is its first
    /// violation in document (or table) order.
    pub open spec fn reports(self, e: Invalid) -> bool {
        let h = self.registers.holding@;
        let n = self.registers.input@;
        let c = self.registers.coils@;
        let d = self.registers.discrete@;
        if !self.version_ok() {
            e == Invalid::SpecVersion(self.spec_version as u64)
        } else if !(1 <= self.modbus.unit_id <= 247) {
            e == Invalid::UnitId
        } else if self.modbus.default_port == 0 {
            e == Invalid::DefaultPort
        } else if !registers_ok(Seq::empty(), h) {
            registers_report(Seq::empty(), h, RegisterSpace::Holding, e)
        } else if !registers_ok(h, n) {
            registers_report(h, n, RegisterSpace::Input, e)
        } else if !coils_ok(Seq::empty(), c, h, n) {
            coils_report(Seq::empty(), c, h, n, e)
        } else if !coils_ok(c, d, h, n) {
            coils_report(c, d, h, n, e)
        } else if !self.alarms_ok() {
            self.first_bad_alarm(e)
        } else if !self.points_ok() {
            self.points_report(e)
        } else if self.spec_version >= 2 && !self.bindings_ok() {
            self.bindings_report(e)
        } else {
            self.scenarios_report(e)
        }
    }

    /// Validate cross-references and numeric constraints.
    ///
    /// `Ok` exactly when every rule holds; an error is the first violation
    /// in check order (see `reports`).
    pub fn validate(&self) -> (r: Result<(), Invalid>)
        ensures
            r is Ok <==> self.valid(),
            r matches Err(e) ==> self.shows(e) && self.reports(e),
            !self.version_ok() ==> r == Err::<(), Invalid>(Invalid::SpecVersion(self.spec_version as u64)),
            self.version_ok() && !(1 <= self.modbus.unit_id <= 247) ==> r == Err::<(), Invalid>(Invalid::UnitId),
            self.version_ok() && 1 <= self.modbus.unit_id <= 247 && self.modbus.default_port == 0 ==> r == Err::<
                (),
                Invalid,
            >(Invalid::DefaultPort),
    {
        if self.spec_version < SPEC_VERSION_MIN || self.spec_version > SPEC_VERSION {
            return Err(Invalid::SpecVersion(self.spec_version as u64));
        }
        if self.modbus.unit_id == 0 || self.modbus.unit_id > 247 {
            return Err(Invalid::UnitId);
        }
        if self.modbus.default_port == 0 {
            return Err(Invalid::DefaultPort);
        }
        let none: Vec<RegisterSpec> = Vec::new();
        check_registers(&none, &self.registers.holding, RegisterSpace::Holding)?;
        check_registers(&self.registers.holding, &self.registers.input, RegisterSpace::Input)?;
        let no_coils: Vec<CoilSpec> = Vec::new();
        check_coils(&no_coils, &self.registers.coils, &self.registers.holding, &self.registers.input)?;
        check_coils(
            &self.registers.coils,
            &self.registers.discrete,
            &self.registers.holding,
            &self.registers.input,
        )?;
        self.check_alarms()?;
        self.validate_points()?;
        if self.spec_version >= 2 {
            self.validate_v2_bindings()?;
        }
        self.validate_scenarios()?;
        Ok(())
    }
}

/// Whether two registers share no word address.
pub open spec fn words_disjoint(a: RegisterSpec, b: RegisterSpec) -> bool {
    forall|x: u16| #[trigger] reg_words(a).contains(x) ==> !reg_words(b).contains(x)
}

/// A word of register `i` sits in the address list at the position of
/// its register.
proof fn lemma_word_position(regs: Seq<RegisterSpec>, i: int, o: int)
    requires
        0 <= i < regs.len(),
        0 <= o < reg_words(regs[i]).len(),
    ensures
        occupied(regs.subrange(0, i)).len() + o < occupied(regs.subrange(0, i + 1)).len(),
        occupied(regs.subrange(0, i + 1)).len() <= occupied(regs).len(),
        occupied(regs)[occupied(regs.subrange(0, i)).len() + o] == reg_words(regs[i])[o],
{
    lemma_occupied_step(regs, i);
    lemma_occupied_prefix(regs, i + 1);
    let q = occupied(regs.subrange(0, i + 1));
    let k = occupied(regs.subrange(0, i)).len() + o;
    assert(q[k] == reg_words(regs[i])[o]);
    assert(q[k] == occupied(regs)[k]);
}

/// The address lists of a prefix grow with the prefix.
proof fn lemma_occupied_len_mono(regs: Seq<RegisterSpec>, a: int, b: int)
    requires
        0 <= a <= b <= regs.len(),
    ensures
        occupied(regs.subrange(0, a)).len() <= occupied(regs.subrange(0, b)).len(),
{
    let r = regs.subrange(0, b);
    lemma_occupied_prefix(r, a);
    assert(r.subrange(0, a) =~= regs.subrange(0, a));
}

/// Registers whose address list has no repeat occupy disjoint words.
proof fn lemma_occupied_disjoint(regs: Seq<RegisterSpec>)
    requires
        occupied(regs).no_duplicates(),
    ensures
        forall|i: int, j: int| 0 <= i < j < regs.len() ==> words_disjoint(#[trigger] regs[i], #[trigger] regs[j]),
{
    assert forall|i: int, j: int| 0 <= i < j < regs.len() implies words_disjoint(#[trigger] regs[i], #[trigger] regs[j]) by {
        assert forall|x: u16| #[trigger] reg_words(regs[i]).contains(x) implies !reg_words(regs[j]).contains(x) by {
            let o = choose|o: int| 0 <= o < reg_words(regs[i]).len() && reg_words(regs[i])[o] == x;
            if reg_words(regs[j]).contains(x) {
                let p = choose|p: int| 0 <= p < reg_words(regs[j]).len() && reg_words(regs[j])[p] == x;
                lemma_word_position(regs, i, o);
                lemma_word_position(regs, j, p);
                lemma_occupied_len_mono(regs, i + 1, j);
                let ki = occupied(regs.subrange(0, i)).len() + o;
                let kj = occupied(regs.subrange(0, j)).len() + p;
                assert(ki < kj);
                assert(occupied(regs)[ki] == occupied(regs)[kj]);
            }
        }
    }
}

/// A document that validates meets every numeric and naming rule: a
/// supported language version, a unit id in 1..=247, a non-zero port,
/// register names unique across holding and input registers, every scale
/// at least 1, the registers of one space on disjoint words, coil and
/// discrete-input names unique across both tables, and every trigger
/// naming a holding or input register.
pub proof fn lemma_valid_document(spec: DeviceSpec)
    requires
        spec.valid(),
    ensures
        SPEC_VERSION_MIN <= spec.spec_version <= SPEC_VERSION,
        1 <= spec.modbus.unit_id <= 247,
        spec.modbus.default_port >= 1,
        ({
            let h = spec.registers.holding@;
            let n = spec.registers.input@;
            &&& forall|i: int, j: int| 0 <= i < j < h.len() ==> #[trigger] h[i].name@ != #[trigger] h[j].name@
            &&& forall|i: int, j: int| 0 <= i < j < n.len() ==> #[trigger] n[i].name@ != #[trigger] n[j].name@
            &&& forall|i: int, k: int| 0 <= i < n.len() && 0 <= k < h.len() ==> #[trigger] n[i].name@ != #[trigger] h[k].name@
            &&& forall|i: int| 0 <= i < h.len() ==> (#[trigger] h[i]).scale >= 1
            &&& forall|i: int| 0 <= i < n.len() ==> (#[trigger] n[i]).scale >= 1
            &&& forall|i: int, j: int| 0 <= i < j < h.len() ==> words_disjoint(#[trigger] h[i], #[trigger] h[j])
            &&& forall|i: int, j: int| 0 <= i < j < n.len() ==> words_disjoint(#[trigger] n[i], #[trigger] n[j])
        }),
        ({
            let c = spec.registers.coils@;
            let d = spec.registers.discrete@;
            let h = spec.registers.holding@;
            let n = spec.registers.input@;
            &&& forall|i: int, j: int| 0 <= i < j < c.len() ==> #[trigger] c[i].name@ != #[trigger] c[j].name@
            &&& forall|i: int, j: int| 0 <= i < j < d.len() ==> #[trigger] d[i].name@ != #[trigger] d[j].name@
            &&& forall|i: int, k: int| 0 <= i < d.len() && 0 <= k < c.len() ==> #[trigger] d[i].name@ != #[trigger] c[k].name@
            &&& forall|i: int|
                0 <= i < c.len() ==> ((#[trigger] c[i]).trigger matches Some(t) ==> source_known(h, n, t.source_register@))
            &&& forall|i: int|
                0 <= i < d.len() ==> ((#[trigger] d[i]).trigger matches Some(t) ==> source_known(h, n, t.source_register@))
        }),
{
    lemma_occupied_disjoint(spec.registers.holding@);
    lemma_occupied_disjoint(spec.registers.input@);
}

/// A document that validates also meets the point, alarm and scenario
/// rules: every alarm names a coil, a discrete input or a binary point; a
/// language 2 document has points; point ids are non-empty and unique; an
/// analog point has no trigger and a sound behavior; a binary point has no
/// behavior; every trigger names an analog point (the first with its id);
/// bundled scenarios have unique, non-empty, lowercase kebab-case ids and
/// at least one step.
pub proof fn lemma_valid_document_points(spec: DeviceSpec)
    requires
        spec.valid(),
    ensures
        forall|a: int|
            0 <= a < spec.alarms@.len() ==> {
                let t = (#[trigger] spec.alarms@[a]).trigger@;
                ||| names_coil(spec.registers.coils@, t)
                ||| names_coil(spec.registers.discrete@, t)
                ||| exists|k: int|
                    0 <= k < spec.points@.len() && #[trigger] spec.points@[k].id@ == t && spec.points@[k].kind
                        == PointKind::Binary
            },
        spec.spec_version >= 2 ==> spec.points@.len() > 0,
        forall|i: int| 0 <= i < spec.points@.len() ==> (#[trigger] spec.points@[i]).id@.len() > 0,
        forall|i: int, j: int|
            0 <= i < j < spec.points@.len() ==> #[trigger] spec.points@[i].id@ != #[trigger] spec.points@[j].id@,
        forall|i: int|
            0 <= i < spec.points@.len() && (#[trigger] spec.points@[i]).kind == PointKind::Analog ==> (
            spec.points@[i].trigger is None) && (spec.points@[i].simulation matches Some(b) ==> b.sound()),
        forall|i: int|
            0 <= i < spec.points@.len() && (#[trigger] spec.points@[i]).kind == PointKind::Binary ==> (
            spec.points@[i].simulation is None),
        forall|i: int|
            0 <= i < spec.points@.len() && ((#[trigger] spec.points@[i]).trigger is Some) ==> exists|k: int|
                first_point(spec.points@, spec.points@[i].trigger.unwrap().source_register@, k)
                    && spec.points@[k].kind == PointKind::Analog,
        forall|i: int, j: int|
            0 <= i < j < spec.scenarios@.len() ==> #[trigger] spec.scenarios@[i].id@
                != #[trigger] spec.scenarios@[j].id@,
        forall|i: int|
            0 <= i < spec.scenarios@.len() ==> (#[trigger] spec.scenarios@[i]).id@.len() > 0 && kebab(
                spec.scenarios@[i].id@,
            ) && spec.scenarios@[i].steps@.len() > 0,
{
    assert forall|i: int|
        0 <= i < spec.points@.len() && ((#[trigger] spec.points@[i]).trigger is Some) implies exists|k: int|
        first_point(spec.points@, spec.points@[i].trigger.unwrap().source_register@, k) && spec.points@[k].kind
            == PointKind::Analog by {
        assert(spec.analog_source(spec.points@[i].trigger.unwrap().source_register@));
    }
    assert forall|i: int| 0 <= i < spec.scenarios@.len() implies (#[trigger] spec.scenarios@[i]).id@.len() > 0
        && kebab(spec.scenarios@[i].id@) && spec.scenarios@[i].steps@.len() > 0 by {
        assert(spec.guest_ok(spec.scenarios@[i]));
    }
}

} // verus!
