//! Device-level decisions of the simulation engine: errors, the fault
//! table, what a scenario step does to the device, and the bank writes the
//! control plane and the field plane share.
//!
//! The numeric evolution of registers (noise, waves, ramps, conversion of
//! engineering values to raw words) belongs to the caller's engine.

use vstd::prelude::*;

use crate::bank::{
    NumericCell, RegisterBank, coil_write_result, lands_in, set_bits_prefix, word_range_result,
    write_prefix,
};
use crate::device::{CoilSpec, DeviceSpec, RegisterSpec, names_register};
use crate::encode::CellValue;
use crate::ieee::Real;
use crate::modbus::ExceptionCode;
use crate::scenario::{PointLiteral, ScenarioStep};
use crate::text::{decimal, push_decimal, push_str, str_eq, string_of};
use crate::types::{FaultType, PointKind, RegisterSpace};

verus! {

/// Device-level errors.
#[derive(Debug, Clone, PartialEq, Eq)]
pub enum DeviceError {
    /// Unknown register address.
    UnknownRegister {
        /// Space.
        space: RegisterSpace,
        /// Address.
        address: u16,
    },
    /// Unknown register name.
    UnknownRegisterName(String),
    /// Unknown coil or discrete name.
    UnknownCoil(String),
    /// Unknown coil address (field-plane write).
    UnknownCoilAddress {
        /// Coil address.
        address: u16,
    },
}

impl DeviceError {
    /// Text of the error.
    pub open spec fn text(self) -> Seq<char> {
        match self {
            DeviceError::UnknownRegister { space, address } => (match space {
                RegisterSpace::Holding => "Holding"@,
                RegisterSpace::Input => "Input"@,
            }) + " register "@ + decimal(address as nat) + " not found"@,
            DeviceError::UnknownRegisterName(n) => "register '"@ + n@ + "' not found"@,
            DeviceError::UnknownCoil(n) => "coil '"@ + n@ + "' not found"@,
            DeviceError::UnknownCoilAddress { address } => "coil address "@ + decimal(address as nat)
                + " not found"@,
        }
    }

    /// Text of the error.
    pub fn message(&self) -> (s: String)
        ensures
            s@ == self.text(),
    {
        match self {
            DeviceError::UnknownRegister { space, address } => {
                let mut s = string_of(
                    match space {
                        RegisterSpace::Holding => "Holding",
                        RegisterSpace::Input => "Input",
                    },
                );
                push_str(&mut s, " register ");
                push_decimal(&mut s, *address as u64);
                push_str(&mut s, " not found");
                s
            },
            DeviceError::UnknownRegisterName(n) => {
                let mut s = string_of("register '");
                push_str(&mut s, n.as_str());
                push_str(&mut s, "' not found");
                s
            },
            DeviceError::UnknownCoil(n) => {
                let mut s = string_of("coil '");
                push_str(&mut s, n.as_str());
                push_str(&mut s, "' not found");
                s
            },
            DeviceError::UnknownCoilAddress { address } => {
                let mut s = string_of("coil address ");
                push_decimal(&mut s, *address as u64);
                push_str(&mut s, " not found");
                s
            },
        }
    }
}

/// Modbus exception for a device error: every kind of unknown target is
/// an illegal data address.
pub fn exception(err: &DeviceError) -> (e: ExceptionCode)
    ensures
        e == ExceptionCode::IllegalDataAddress,
{
    match err {
        DeviceError::UnknownRegister { .. } => ExceptionCode::IllegalDataAddress,
        DeviceError::UnknownRegisterName(_) => ExceptionCode::IllegalDataAddress,
        DeviceError::UnknownCoil(_) => ExceptionCode::IllegalDataAddress,
        DeviceError::UnknownCoilAddress { .. } => ExceptionCode::IllegalDataAddress,
    }
}

/// A TTL override applied on each tick.
#[derive(Debug, PartialEq)]
pub struct ActiveFault {
    /// Kind.
    pub fault_type: FaultType,
    /// Register or coil name; `None` means device-wide.
    pub register_name: Option<String>,
    /// Spike target or noise factor.
    pub value: Option<Real>,
    /// Duration as requested when the fault was injected.
    pub duration_s: Real,
    /// Time remaining.
    pub remaining_s: Real,
}

/// Key of a fault in the fault table: its target, or `_device`.
pub open spec fn fault_key(f: ActiveFault) -> Seq<char> {
    match f.register_name {
        Some(n) => n@,
        None => "_device"@,
    }
}

impl ActiveFault {
    /// A fault with remaining time equal to its duration.
    pub fn new(fault_type: FaultType, register_name: Option<String>, value: Option<Real>, duration_s: Real) -> (f:
        Self)
        ensures
            f.fault_type == fault_type,
            f.register_name == register_name,
            f.value == value,
            f.duration_s == duration_s,
            f.remaining_s == duration_s,
    {
        ActiveFault { fault_type, register_name, value, duration_s, remaining_s: duration_s }
    }

    /// Key used in the fault table.
    pub fn key(&self) -> (k: String)
        ensures
            k@ == fault_key(*self),
    {
        match &self.register_name {
            Some(n) => n.clone(),
            None => string_of("_device"),
        }
    }

    /// A copy of the fault.
    pub fn copy(&self) -> (f: Self)
        ensures
            f == *self,
    {
        ActiveFault {
            fault_type: self.fault_type,
            register_name: match &self.register_name {
                Some(n) => Some(n.clone()),
                None => None,
            },
            value: self.value,
            duration_s: self.duration_s,
            remaining_s: self.remaining_s,
        }
    }
}

/// Whether the faults have pairwise distinct keys.
pub open spec fn distinct_keys(fs: Seq<ActiveFault>) -> bool {
    forall|i: int, j: int|
        0 <= i < fs.len() && 0 <= j < fs.len() && i != j ==> fault_key(#[trigger] fs[i]) != fault_key(#[trigger] fs[j])
}

/// Whether some fault in `fs` has key `k`.
pub open spec fn has_key(fs: Seq<ActiveFault>, k: Seq<char>) -> bool {
    exists|i: int| 0 <= i < fs.len() && fault_key(#[trigger] fs[i]) == k
}

/// `after` is `before` with `fault` stored under its key: the fault whose
/// key it shares is replaced, the others stay, keys stay distinct, and the
/// table grows by one exactly when no fault had that key.
pub open spec fn inserted(before: Seq<ActiveFault>, fault: ActiveFault, after: Seq<ActiveFault>) -> bool {
    &&& forall|f: ActiveFault| #[trigger] after.contains(f) <==> (f == fault || (before.contains(f) && fault_key(f)
        != fault_key(fault)))
    &&& distinct_keys(after)
    &&& after.len() == before.len() + if has_key(before, fault_key(fault)) {
        0int
    } else {
        1int
    }
}

/// Active faults, at most one per key.
#[derive(Debug)]
pub struct FaultTable {
    faults: Vec<ActiveFault>,
}

impl FaultTable {
    /// The faults, in table order.
    pub closed spec fn entries(self) -> Seq<ActiveFault> {
        self.faults@
    }

    #[verifier::type_invariant]
    spec fn one_per_key(self) -> bool {
        distinct_keys(self.faults@)
    }

    /// An empty table.
    pub fn new() -> (t: Self)
        ensures
            t.entries().len() == 0,
    {
        FaultTable { faults: Vec::new() }
    }

    /// The faults, in table order (keys distinct).
    pub fn faults(&self) -> (r: &Vec<ActiveFault>)
        ensures
            r@ == self.entries(),
            distinct_keys(r@),
    {
        proof {
            use_type_invariant(self);
        }
        &self.faults
    }

    /// Remove every fault.
    pub fn clear(&mut self)
        ensures
            final(self).entries().len() == 0,
    {
        self.faults = Vec::new();
    }

    fn index_of(&self, key: &str) -> (r: Option<usize>)
        ensures
            match r {
                Some(i) => i < self.entries().len() && fault_key(self.entries()[i as int]) == key@,
                None => forall|i: int| 0 <= i < self.entries().len() ==> fault_key(#[trigger] self.entries()[i]) != key@,
            },
    {
        let mut i: usize = 0;
        while i < self.faults.len()
            invariant
                0 <= i <= self.faults@.len(),
                forall|j: int| 0 <= j < i ==> fault_key(#[trigger] self.faults@[j]) != key@,
            decreases self.faults@.len() - i,
        {
            let k = self.faults[i].key();
            if str_eq(k.as_str(), key) {
                return Some(i);
            }
            i = i + 1;
        }
        None
    }

    /// The fault stored under `key`.
    pub fn get(&self, key: &str) -> (r: Option<&ActiveFault>)
        ensures
            match r {
                Some(f) => exists|i: int|
                    0 <= i < self.entries().len() && self.entries()[i] == *f && fault_key(#[trigger] self.entries()[i])
                        == key@,
                None => forall|i: int| 0 <= i < self.entries().len() ==> fault_key(#[trigger] self.entries()[i]) != key@,
            },
    {
        match self.index_of(key) {
            Some(i) => Some(&self.faults[i]),
            None => None,
        }
    }

    /// The fault that applies to register `name`: its own, else a
    /// device-wide one.
    pub fn applicable(&self, name: &str) -> (r: Option<&ActiveFault>)
        ensures
            match r {
                Some(f) => (exists|i: int|
                    0 <= i < self.entries().len() && self.entries()[i] == *f && fault_key(#[trigger] self.entries()[i])
                        == name@) || ((forall|i: int|
                    0 <= i < self.entries().len() ==> fault_key(#[trigger] self.entries()[i]) != name@) && exists|i: int|
                    0 <= i < self.entries().len() && self.entries()[i] == *f && fault_key(#[trigger] self.entries()[i])
                        == "_device"@),
                None => forall|i: int|
                    0 <= i < self.entries().len() ==> fault_key(#[trigger] self.entries()[i]) != name@ && fault_key(
                        self.entries()[i],
                    ) != "_device"@,
            },
    {
        match self.get(name) {
            Some(f) => Some(f),
            None => self.get("_device"),
        }
    }

    /// Store a fault under its key, replacing the fault stored there.
    pub fn insert(&mut self, fault: ActiveFault)
        ensures
            forall|f: ActiveFault| #[trigger] final(self).entries().contains(f) <==> (f == fault || (old(
                self,
            ).entries().contains(f) && fault_key(f) != fault_key(fault))),
            inserted(old(self).entries(), fault, final(self).entries()),
    {
        proof {
            use_type_invariant(&*self);
        }
        let ghost before = self.faults@;
        let key = fault.key();
        let mut faults: Vec<ActiveFault> = Vec::new();
        std::mem::swap(&mut faults, &mut self.faults);
        match self.index_of_in(&faults, key.as_str()) {
            Some(i) => {
                faults.set(i, fault);
                proof {
                    assert(has_key(before, fault_key(fault))) by {
                        assert(fault_key(before[i as int]) == fault_key(fault));
                    }
                    let after = faults@;
                    assert forall|a: int, b: int|
                        0 <= a < after.len() && 0 <= b < after.len() && a != b implies fault_key(#[trigger] after[a])
                        != fault_key(#[trigger] after[b]) by {
                        if a != i && b != i {
                            assert(after[a] == before[a] && after[b] == before[b]);
                        } else if a == i {
                            assert(after[b] == before[b]);
                            assert(fault_key(before[i as int]) != fault_key(before[b]));
                        } else {
                            assert(after[a] == before[a]);
                            assert(fault_key(before[i as int]) != fault_key(before[a]));
                        }
                    }
                    assert forall|f: ActiveFault| #[trigger] after.contains(f) <==> (f == fault || (before.contains(f)
                        && fault_key(f) != fault_key(fault))) by {
                        if after.contains(f) && f != fault {
                            let k = choose|k: int| 0 <= k < after.len() && after[k] == f;
                            assert(k != i);
                            assert(before[k] == f);
                            assert(fault_key(before[k]) != fault_key(before[i as int]));
                        }
                        if f == fault {
                            assert(after[i as int] == f);
                        }
                        if before.contains(f) && fault_key(f) != fault_key(fault) {
                            let k = choose|k: int| 0 <= k < before.len() && before[k] == f;
                            assert(k != i);
                            assert(after[k] == f);
                        }
                    }
                }
            },
            None => {
                faults.push(fault);
                proof {
                    assert(!has_key(before, fault_key(fault)));
                    let after = faults@;
                    assert forall|a: int, b: int|
                        0 <= a < after.len() && 0 <= b < after.len() && a != b implies fault_key(#[trigger] after[a])
                        != fault_key(#[trigger] after[b]) by {
                        if a < before.len() && b < before.len() {
                            assert(after[a] == before[a] && after[b] == before[b]);
                        } else if a < before.len() {
                            assert(after[a] == before[a]);
                        } else {
                            assert(after[b] == before[b]);
                        }
                    }
                    assert forall|f: ActiveFault| #[trigger] after.contains(f) <==> (f == fault || (before.contains(f)
                        && fault_key(f) != fault_key(fault))) by {
                        if after.contains(f) && f != fault {
                            let k = choose|k: int| 0 <= k < after.len() && after[k] == f;
                            assert(k < before.len());
                            assert(before[k] == f);
                        }
                        if f == fault {
                            assert(after[before.len() as int] == f);
                        }
                        if before.contains(f) && fault_key(f) != fault_key(fault) {
                            let k = choose|k: int| 0 <= k < before.len() && before[k] == f;
                            assert(after[k] == f);
                        }
                    }
                }
            },
        }
        self.faults = faults;
    }

    fn index_of_in(&self, faults: &Vec<ActiveFault>, key: &str) -> (r: Option<usize>)
        ensures
            match r {
                Some(i) => i < faults@.len() && fault_key(faults@[i as int]) == key@,
                None => forall|i: int| 0 <= i < faults@.len() ==> fault_key(#[trigger] faults@[i]) != key@,
            },
    {
        let mut i: usize = 0;
        while i < faults.len()
            invariant
                0 <= i <= faults@.len(),
                forall|j: int| 0 <= j < i ==> fault_key(#[trigger] faults@[j]) != key@,
            decreases faults@.len() - i,
        {
            let k = faults[i].key();
            if str_eq(k.as_str(), key) {
                return Some(i);
            }
            i = i + 1;
        }
        None
    }

    /// Advance the clock: fault `i` now has `remaining[i]` seconds left, and
    /// a fault with no time left (`<= 0`) expires. The survivors keep their
    /// order.
    pub fn expire(&mut self, remaining: &Vec<Real>)
        requires
            remaining@.len() == old(self).entries().len(),
        ensures
            final(self).entries().len() <= old(self).entries().len(),
            forall|i: int|
                0 <= i < final(self).entries().len() ==> !(#[trigger] final(self).entries()[i]).remaining_s.at_most(
                    Real::zero_spec(),
                ),
            forall|f: ActiveFault| #[trigger] final(self).entries().contains(f) <==> exists|i: int|
                0 <= i < old(self).entries().len() && !remaining@[i].at_most(Real::zero_spec()) && f == (ActiveFault {
                    remaining_s: remaining@[i],
                    ..old(self).entries()[i]
                }),
    {
        proof {
            use_type_invariant(&*self);
        }
        let ghost before = self.faults@;
        let mut kept: Vec<ActiveFault> = Vec::new();
        let mut i: usize = 0;
        while i < self.faults.len()
            invariant
                0 <= i <= before.len(),
                self.faults@ == before,
                remaining@.len() == before.len(),
                distinct_keys(before),
                kept@.len() <= i,
                forall|k: int|
                    0 <= k < kept@.len() ==> !(#[trigger] kept@[k]).remaining_s.at_most(Real::zero_spec()),
                forall|k: int|
                    0 <= k < kept@.len() ==> exists|j: int|
                        0 <= j < i && !remaining@[j].at_most(Real::zero_spec()) && #[trigger] kept@[k] == (
                        ActiveFault { remaining_s: remaining@[j], ..before[j] }),
                forall|j: int|
                    0 <= j < i && !remaining@[j].at_most(Real::zero_spec()) ==> kept@.contains(
                        ActiveFault { remaining_s: remaining@[j], ..before[j] },
                    ),
                forall|a: int, b: int|
                    0 <= a < kept@.len() && 0 <= b < kept@.len() && a != b ==> fault_key(#[trigger] kept@[a])
                        != fault_key(#[trigger] kept@[b]),
                forall|k: int|
                    0 <= k < kept@.len() ==> exists|j: int|
                        0 <= j < i && fault_key(#[trigger] kept@[k]) == fault_key(before[j]),
            decreases before.len() - i,
        {
            let r = remaining[i];
            if !r.le(Real::zero()) {
                let mut f = self.faults[i].copy();
                f.remaining_s = r;
                let ghost kept0 = kept@;
                proof {
                    assert forall|k: int| 0 <= k < kept0.len() implies fault_key(kept0[k]) != fault_key(f) by {
                        let j = choose|j: int| 0 <= j < i && fault_key(kept0[k]) == fault_key(before[j]);
                        assert(fault_key(before[j]) != fault_key(before[i as int]));
                    }
                }
                kept.push(f);
                proof {
                    assert(kept@[kept@.len() - 1] == f);
                    assert forall|j: int|
                        0 <= j < i + 1 && !remaining@[j].at_most(Real::zero_spec()) implies kept@.contains(
                        ActiveFault { remaining_s: remaining@[j], ..before[j] },
                    ) by {
                        if j < i {
                            let k = choose|k: int|
                                0 <= k < kept0.len() && kept0[k] == (ActiveFault {
                                    remaining_s: remaining@[j],
                                    ..before[j]
                                });
                            assert(kept@[k] == kept0[k]);
                        } else {
                            assert(kept@[kept0.len() as int] == f);
                        }
                    }
                    assert forall|k: int| 0 <= k < kept@.len() implies exists|j: int|
                        0 <= j < i + 1 && fault_key(#[trigger] kept@[k]) == fault_key(before[j]) by {
                        if k == kept0.len() {
                            assert(fault_key(kept@[k]) == fault_key(before[i as int]));
                        } else {
                            assert(kept@[k] == kept0[k]);
                        }
                    }
                    assert forall|k: int| 0 <= k < kept@.len() implies exists|j: int|
                        0 <= j < i + 1 && !remaining@[j].at_most(Real::zero_spec()) && #[trigger] kept@[k] == (
                        ActiveFault { remaining_s: remaining@[j], ..before[j] }) by {
                        if k == kept0.len() {
                            assert(kept@[k] == f);
                        } else {
                            assert(kept@[k] == kept0[k]);
                        }
                    }
                }
            }
            i = i + 1;
        }
        proof {
            assert forall|f: ActiveFault| #[trigger] kept@.contains(f) <==> exists|i: int|
                0 <= i < before.len() && !remaining@[i].at_most(Real::zero_spec()) && f == (ActiveFault {
                    remaining_s: remaining@[i],
                    ..before[i]
                }) by {
                if kept@.contains(f) {
                    let k = choose|k: int| 0 <= k < kept@.len() && kept@[k] == f;
                }
            }
        }
        self.faults = kept;
    }
}

/// What a scenario step does to the device.
#[derive(Debug, PartialEq)]
pub enum StepAction {
    /// Override a register with an engineering value.
    WriteRegister {
        /// Space.
        space: RegisterSpace,
        /// Base address.
        address: u16,
        /// Engineering value.
        value: Real,
    },
    /// Override a register with a `set_point` literal.
    WritePoint {
        /// Space.
        space: RegisterSpace,
        /// Base address.
        address: u16,
        /// Literal as written.
        value: PointLiteral,
    },
    /// Set a coil.
    WriteCoil {
        /// Bit address.
        address: u16,
        /// State.
        value: bool,
    },
    /// Set a discrete input.
    WriteDiscrete {
        /// Bit address.
        address: u16,
        /// State.
        value: bool,
    },
    /// Inject a fault.
    InjectFault(ActiveFault),
    /// Change the tick interval.
    SetTickInterval(Real),
    /// The step names nothing this device has: skipped.
    Skip,
}

/// Index of the first register at `address`.
pub fn register_at(regs: &Vec<RegisterSpec>, address: u16) -> (r: Option<usize>)
    ensures
        match r {
            Some(i) => i < regs@.len() && regs@[i as int].address == address && forall|j: int|
                0 <= j < i ==> #[trigger] regs@[j].address != address,
            None => forall|j: int| 0 <= j < regs@.len() ==> #[trigger] regs@[j].address != address,
        },
{
    let mut i: usize = 0;
    while i < regs.len()
        invariant
            0 <= i <= regs@.len(),
            forall|j: int| 0 <= j < i ==> #[trigger] regs@[j].address != address,
        decreases regs@.len() - i,
    {
        if regs[i].address == address {
            return Some(i);
        }
        i = i + 1;
    }
    None
}

/// The registers of one space.
pub open spec fn space_registers(spec: DeviceSpec, space: RegisterSpace) -> Seq<RegisterSpec> {
    match space {
        RegisterSpace::Holding => spec.registers.holding@,
        RegisterSpace::Input => spec.registers.input@,
    }
}

fn registers_of(spec: &DeviceSpec, space: RegisterSpace) -> (r: &Vec<RegisterSpec>)
    ensures
        r@ == space_registers(*spec, space),
{
    match space {
        RegisterSpace::Holding => &spec.registers.holding,
        RegisterSpace::Input => &spec.registers.input,
    }
}

/// `i` is the first register of `regs` called `name`.
pub open spec fn first_named(regs: Seq<RegisterSpec>, name: Seq<char>, i: int) -> bool {
    0 <= i < regs.len() && regs[i].name@ == name && forall|j: int| 0 <= j < i ==> #[trigger] regs[j].name@ != name
}

/// A register by name: the first holding register with that name, else the
/// first input register.
pub fn find_numeric_by_name(spec: &DeviceSpec, name: &str) -> (r: Option<(RegisterSpace, usize)>)
    ensures
        match r {
            Some((space, i)) => first_named(space_registers(*spec, space), name@, i as int) && (space
                == RegisterSpace::Input ==> !names_register(spec.registers.holding@, name@)),
            None => !names_register(spec.registers.holding@, name@) && !names_register(
                spec.registers.input@,
                name@,
            ),
        },
{
    match crate::device::find_register(&spec.registers.holding, name) {
        Some(i) => Some((RegisterSpace::Holding, i)),
        None => match crate::device::find_register(&spec.registers.input, name) {
            Some(i) => Some((RegisterSpace::Input, i)),
            None => None,
        },
    }
}

/// Space a `set_register` step targets: input when it says `input`,
/// holding otherwise.
pub open spec fn step_space(register_type: Seq<char>) -> RegisterSpace {
    if register_type == "input"@ {
        RegisterSpace::Input
    } else {
        RegisterSpace::Holding
    }
}

/// What a `set_register` step does: override the first register of its
/// space with that name, or nothing when there is none.
pub open spec fn set_register_effect(spec: DeviceSpec, s: crate::scenario::SetRegisterStep, a: StepAction) -> bool {
    let regs = space_registers(spec, step_space(s.register_type@));
    if names_register(regs, s.register_name@) {
        exists|i: int|
            first_named(regs, s.register_name@, i) && a == StepAction::WriteRegister {
                space: step_space(s.register_type@),
                address: regs[i].address,
                value: s.value,
            }
    } else {
        a == StepAction::Skip
    }
}

/// `i` is the first coil of `cs` called `name`.
pub open spec fn first_coil(cs: Seq<crate::device::CoilSpec>, name: Seq<char>, i: int) -> bool {
    0 <= i < cs.len() && cs[i].name@ == name && forall|j: int| 0 <= j < i ==> #[trigger] cs[j].name@ != name
}

/// Set the bit called `name` (the first coil, else the first discrete
/// input with that name), or nothing when there is none.
pub open spec fn bit_effect(spec: DeviceSpec, name: Seq<char>, value: bool, a: StepAction) -> bool {
    let c = spec.registers.coils@;
    let d = spec.registers.discrete@;
    if crate::device::names_coil(c, name) {
        exists|i: int| first_coil(c, name, i) && a == StepAction::WriteCoil { address: c[i].address, value }
    } else if crate::device::names_coil(d, name) {
        exists|i: int| first_coil(d, name, i) && a == StepAction::WriteDiscrete { address: d[i].address, value }
    } else {
        a == StepAction::Skip
    }
}

/// What a `set_point` step does: for a binary point, set the bit with the
/// point's id to the literal's boolean value; for an analog point, override
/// the register with the point's id (holding first, then input); nothing
/// when the point, its cell, or a boolean reading of the literal is missing.
pub open spec fn set_point_effect(spec: DeviceSpec, s: crate::scenario::SetPointStep, a: StepAction) -> bool {
    let h = spec.registers.holding@;
    let n = spec.registers.input@;
    if spec.first_kind(s.point@, PointKind::Binary) {
        match s.value.binary() {
            Some(b) => bit_effect(spec, s.point@, b, a),
            None => a == StepAction::Skip,
        }
    } else if spec.first_kind(s.point@, PointKind::Analog) {
        if names_register(h, s.point@) {
            exists|i: int|
                first_named(h, s.point@, i) && a == StepAction::WritePoint {
                    space: RegisterSpace::Holding,
                    address: h[i].address,
                    value: s.value,
                }
        } else if names_register(n, s.point@) {
            exists|i: int|
                first_named(n, s.point@, i) && a == StepAction::WritePoint {
                    space: RegisterSpace::Input,
                    address: n[i].address,
                    value: s.value,
                }
        } else {
            a == StepAction::Skip
        }
    } else {
        a == StepAction::Skip
    }
}

/// What a scenario step does to this device.
pub open spec fn step_effect(spec: DeviceSpec, step: ScenarioStep, a: StepAction) -> bool {
    match step {
        ScenarioStep::SetRegister(s) => set_register_effect(spec, s, a),
        ScenarioStep::SetPoint(s) => set_point_effect(spec, s, a),
        ScenarioStep::InjectFault(s) => a == StepAction::InjectFault(
            ActiveFault {
                fault_type: s.fault_type,
                register_name: s.register_name,
                value: s.value,
                duration_s: s.duration_s,
                remaining_s: s.duration_s,
            },
        ),
        ScenarioStep::SetCoil(s) => bit_effect(spec, s.coil@, s.value, a),
        ScenarioStep::SetTickInterval(s) => a == StepAction::SetTickInterval(s.tick_interval),
    }
}

fn resolve_set_register(spec: &DeviceSpec, s: &crate::scenario::SetRegisterStep) -> (a: StepAction)
    ensures
        set_register_effect(*spec, *s, a),
{
    let input = str_eq(s.register_type.as_str(), "input");
    let space = if input {
        RegisterSpace::Input
    } else {
        RegisterSpace::Holding
    };
    let regs = registers_of(spec, space);
    match crate::device::find_register(regs, s.register_name.as_str()) {
        Some(i) => {
            assert(first_named(regs@, s.register_name@, i as int));
            StepAction::WriteRegister { space, address: regs[i].address, value: s.value }
        },
        None => StepAction::Skip,
    }
}

fn resolve_bit(spec: &DeviceSpec, name: &str, value: bool) -> (a: StepAction)
    ensures
        bit_effect(*spec, name@, value, a),
{
    match crate::device::find_coil(&spec.registers.coils, name) {
        Some(i) => {
            assert(first_coil(spec.registers.coils@, name@, i as int));
            StepAction::WriteCoil { address: spec.registers.coils[i].address, value }
        },
        None => match crate::device::find_coil(&spec.registers.discrete, name) {
            Some(i) => {
                assert(first_coil(spec.registers.discrete@, name@, i as int));
                StepAction::WriteDiscrete { address: spec.registers.discrete[i].address, value }
            },
            None => StepAction::Skip,
        },
    }
}

fn resolve_set_point(spec: &DeviceSpec, s: &crate::scenario::SetPointStep) -> (a: StepAction)
    ensures
        set_point_effect(*spec, *s, a),
{
    let k = match spec.point_index(s.point.as_str()) {
        Some(k) => k,
        None => {
            return StepAction::Skip;
        },
    };
    assert(crate::device::first_point(spec.points@, s.point@, k as int));
    proof {
        if spec.first_kind(s.point@, PointKind::Binary) && spec.first_kind(s.point@, PointKind::Analog) {
            let k1 = choose|k1: int|
                crate::device::first_point(spec.points@, s.point@, k1) && spec.points@[k1].kind == PointKind::Binary;
            let k2 = choose|k2: int|
                crate::device::first_point(spec.points@, s.point@, k2) && spec.points@[k2].kind == PointKind::Analog;
            if k1 < k2 {
                assert(spec.points@[k1].id@ == s.point@);
            } else if k2 < k1 {
                assert(spec.points@[k2].id@ == s.point@);
            }
        }
    }
    match spec.points[k].kind {
        PointKind::Binary => {
            assert(spec.first_kind(s.point@, PointKind::Binary));
            match s.value.as_bool() {
                Some(b) => resolve_bit(spec, s.point.as_str(), b),
                None => StepAction::Skip,
            }
        },
        PointKind::Analog => {
            assert(spec.first_kind(s.point@, PointKind::Analog));
            assert(!spec.first_kind(s.point@, PointKind::Binary)) by {
                if spec.first_kind(s.point@, PointKind::Binary) {
                    let k1 = choose|k1: int|
                        crate::device::first_point(spec.points@, s.point@, k1) && spec.points@[k1].kind
                            == PointKind::Binary;
                    if k1 < k {
                        assert(spec.points@[k1].id@ == s.point@);
                    } else if k < k1 {
                        assert(spec.points@[k as int].id@ == s.point@);
                    }
                }
            }
            match crate::device::find_register(&spec.registers.holding, s.point.as_str()) {
                Some(i) => {
                    assert(first_named(spec.registers.holding@, s.point@, i as int));
                    StepAction::WritePoint {
                        space: RegisterSpace::Holding,
                        address: spec.registers.holding[i].address,
                        value: s.value,
                    }
                },
                None => match crate::device::find_register(&spec.registers.input, s.point.as_str()) {
                    Some(i) => {
                        assert(first_named(spec.registers.input@, s.point@, i as int));
                        StepAction::WritePoint {
                            space: RegisterSpace::Input,
                            address: spec.registers.input[i].address,
                            value: s.value,
                        }
                    },
                    None => StepAction::Skip,
                },
            }
        },
    }
}

/// Which register a `set_register` step writes. When its `register_type`
/// is `input` it writes the first input register with its name, and when
/// it is anything else the first holding register with that name, in each
/// case at that register's address with the step's value; when the table
/// it names has no register of that name the step is skipped.
pub proof fn lemma_set_register_table(
    spec: DeviceSpec,
    s: crate::scenario::SetRegisterStep,
    a: StepAction,
)
    requires
        step_effect(spec, ScenarioStep::SetRegister(s), a),
    ensures
        s.register_type@ == "input"@ && names_register(spec.registers.input@, s.register_name@) ==> exists|i: int|
            first_named(spec.registers.input@, s.register_name@, i) && (a == (StepAction::WriteRegister {
                space: RegisterSpace::Input,
                address: spec.registers.input@[i].address,
                value: s.value,
            })),
        s.register_type@ != "input"@ && names_register(spec.registers.holding@, s.register_name@) ==> exists|i: int|
            first_named(spec.registers.holding@, s.register_name@, i) && (a == (StepAction::WriteRegister {
                space: RegisterSpace::Holding,
                address: spec.registers.holding@[i].address,
                value: s.value,
            })),
        s.register_type@ == "input"@ && !names_register(spec.registers.input@, s.register_name@) ==> a
            == StepAction::Skip,
        s.register_type@ != "input"@ && !names_register(spec.registers.holding@, s.register_name@) ==> a
            == StepAction::Skip,
{
}

/// What the other scenario steps do. A `set_coil` step sets the first coil
/// with its name, else the first discrete input with that name, at that
/// bit's address to the step's state, and is skipped when neither table
/// has the name. An `inject_fault` step injects a fault with the step's
/// kind, target, value and duration, all of it still to run. A
/// `set_tick_interval` step sets the tick interval to the step's value.
pub proof fn lemma_other_steps(spec: DeviceSpec, step: ScenarioStep, a: StepAction)
    requires
        step_effect(spec, step, a),
    ensures
        step matches ScenarioStep::SetCoil(s) ==> {
            let c = spec.registers.coils@;
            let d = spec.registers.discrete@;
            &&& crate::device::names_coil(c, s.coil@) ==> exists|i: int|
                first_coil(c, s.coil@, i) && (a == (StepAction::WriteCoil { address: c[i].address, value: s.value }))
            &&& !crate::device::names_coil(c, s.coil@) && crate::device::names_coil(d, s.coil@) ==> exists|i: int|
                first_coil(d, s.coil@, i) && (a == (StepAction::WriteDiscrete { address: d[i].address, value: s.value }))
            &&& !crate::device::names_coil(c, s.coil@) && !crate::device::names_coil(d, s.coil@) ==> a
                == StepAction::Skip
        },
        step matches ScenarioStep::InjectFault(s) ==> (a matches StepAction::InjectFault(f) && f.fault_type
            == s.fault_type && f.register_name == s.register_name && f.value == s.value && f.duration_s
            == s.duration_s && f.remaining_s == s.duration_s),
        step matches ScenarioStep::SetTickInterval(s) ==> (a == StepAction::SetTickInterval(s.tick_interval)),
{
}

/// What a tick does to a coil or discrete input. An alarm fault stored
/// under a coil's name forces that coil on, whatever its trigger; a
/// discrete input is never forced. Otherwise a bit with a trigger compares
/// the register its source names, looking in the input registers before
/// the holding registers and taking the last register with that name; a
/// bit whose trigger names no register, or that has no trigger, is left as
/// it is.
pub proof fn lemma_trigger_rules(spec: DeviceSpec, faults: Seq<ActiveFault>, c: CoilSpec, is_coil: bool, a: TriggerAction)
    requires
        trigger_effect(spec, faults, c, is_coil, a),
    ensures
        is_coil && (exists|k: int|
            0 <= k < faults.len() && fault_key(#[trigger] faults[k]) == c.name@ && faults[k].fault_type
                == FaultType::Alarm) ==> a == TriggerAction::Force,
        a == TriggerAction::Force ==> is_coil,
        a is Compare ==> (c.trigger is Some),
        forall|sp: RegisterSpace, i: usize| a == (TriggerAction::Compare { space: sp, register: i }) ==> {
            let src = c.trigger.unwrap().source_register@;
            let regs = if sp == RegisterSpace::Input {
                spec.registers.input@
            } else {
                spec.registers.holding@
            };
            &&& i < regs.len()
            &&& regs[i as int].name@ == src
            &&& forall|j: int| i < j < regs.len() ==> #[trigger] regs[j].name@ != src
            &&& sp == RegisterSpace::Holding ==> !names_register(spec.registers.input@, src)
        },
        !(is_coil && alarm_held(faults, c.name@)) && (c.trigger matches Some(t) && names_register(
            spec.registers.input@,
            t.source_register@,
        )) ==> (a matches TriggerAction::Compare { space, .. } && space == RegisterSpace::Input),
        !(is_coil && alarm_held(faults, c.name@)) && (c.trigger is None || (c.trigger matches Some(t)
            && !names_register(spec.registers.input@, t.source_register@) && !names_register(
            spec.registers.holding@,
            t.source_register@,
        ))) ==> a == TriggerAction::Keep,
{
}

/// Decide what one scenario step does to this device.
pub fn resolve_step(spec: &DeviceSpec, step: &ScenarioStep) -> (a: StepAction)
    ensures
        step_effect(*spec, *step, a),
{
    match step {
        ScenarioStep::SetRegister(s) => resolve_set_register(spec, s),
        ScenarioStep::SetPoint(s) => resolve_set_point(spec, s),
        ScenarioStep::InjectFault(s) => StepAction::InjectFault(
            ActiveFault::new(
                s.fault_type,
                match &s.register_name {
                    Some(n) => Some(n.clone()),
                    None => None,
                },
                s.value,
                s.duration_s,
            ),
        ),
        ScenarioStep::SetCoil(s) => resolve_bit(spec, s.coil.as_str(), s.value),
        ScenarioStep::SetTickInterval(s) => StepAction::SetTickInterval(s.tick_interval),
    }
}

/// Override a coil from the control plane. An unknown coil is reported as
/// an unknown holding address.
pub fn override_coil(bank: &mut RegisterBank, address: u16, value: bool) -> (r: Result<bool, DeviceError>)
    ensures
        r is Ok <==> old(bank).coil_bits().contains_key(address),
        r matches Ok(v) ==> v == value && final(bank).coil_bits() == old(bank).coil_bits().insert(address, value),
        r matches Err(e) ==> e == (DeviceError::UnknownRegister { space: RegisterSpace::Holding, address })
            && *final(bank) == *old(bank),
        forall|s: RegisterSpace| final(bank).cells(s) == old(bank).cells(s),
        final(bank).discrete_bits() == old(bank).discrete_bits(),
        final(bank).endian() == old(bank).endian(),
{
    if !bank.has_coil(address) {
        return Err(DeviceError::UnknownRegister { space: RegisterSpace::Holding, address });
    }
    bank.set_coil(address, value);
    Ok(value)
}

/// Override a discrete input from the control plane. An unknown input is
/// reported as an unknown input-register address.
pub fn override_discrete(bank: &mut RegisterBank, address: u16, value: bool) -> (r: Result<bool, DeviceError>)
    ensures
        r is Ok <==> old(bank).discrete_bits().contains_key(address),
        r matches Ok(v) ==> v == value && final(bank).discrete_bits() == old(bank).discrete_bits().insert(
            address,
            value,
        ),
        r matches Err(e) ==> e == (DeviceError::UnknownRegister { space: RegisterSpace::Input, address })
            && *final(bank) == *old(bank),
        forall|s: RegisterSpace| final(bank).cells(s) == old(bank).cells(s),
        final(bank).coil_bits() == old(bank).coil_bits(),
        final(bank).endian() == old(bank).endian(),
{
    if !bank.has_discrete(address) {
        return Err(DeviceError::UnknownRegister { space: RegisterSpace::Input, address });
    }
    bank.set_discrete(address, value);
    Ok(value)
}

/// Field-plane coil write: every address must exist, else nothing changes
/// and the first missing address is reported.
pub fn write_coils(bank: &mut RegisterBank, address: u16, values: &[bool]) -> (r: Result<(), DeviceError>)
    ensures
        match coil_write_result(old(bank).coil_bits(), address, values@.len() as int) {
            Ok(()) => r is Ok && final(bank).coil_bits() == set_bits_prefix(
                old(bank).coil_bits(),
                address,
                values@,
                values@.len(),
            ),
            Err(a) => r == Err::<(), DeviceError>(DeviceError::UnknownCoilAddress { address: a })
                && final(bank).coil_bits() == old(bank).coil_bits(),
        },
        forall|s: RegisterSpace| final(bank).cells(s) == old(bank).cells(s),
        final(bank).discrete_bits() == old(bank).discrete_bits(),
        final(bank).endian() == old(bank).endian(),
{
    match bank.write_coils(address, values) {
        Ok(()) => Ok(()),
        Err(a) => Err(DeviceError::UnknownCoilAddress { address: a }),
    }
}

/// `i` is the last register called `name`.
pub open spec fn last_named(regs: Seq<RegisterSpec>, name: Seq<char>, i: int) -> bool {
    0 <= i < regs.len() && regs[i].name@ == name && forall|j: int| i < j < regs.len() ==> #[trigger] regs[j].name@ != name
}

fn find_last_register(regs: &Vec<RegisterSpec>, name: &str) -> (r: Option<usize>)
    ensures
        match r {
            Some(i) => last_named(regs@, name@, i as int),
            None => !names_register(regs@, name@),
        },
{
    let mut k: usize = regs.len();
    while k > 0
        invariant
            0 <= k <= regs@.len(),
            forall|j: int| k <= j < regs@.len() ==> #[trigger] regs@[j].name@ != name@,
        decreases k,
    {
        k = k - 1;
        if str_eq(regs[k].name.as_str(), name) {
            return Some(k);
        }
    }
    None
}

/// What the fault that applies to a simulated register does to the value
/// the tick computed for it.
#[derive(Debug, Clone, Copy, PartialEq, Eq, Structural)]
pub enum FaultEffect {
    /// Keep the computed value.
    Keep,
    /// Replace it with this engineering value.
    SetValue(Real),
    /// Hold the value the register cell has now.
    HoldCell,
    /// Replace it with 0.
    Zero,
    /// Add noise scaled by this factor (the default factor when `None`).
    Amplify(Option<Real>),
}

/// The effect of an applicable fault (or of none): a spike sets its value
/// (when it has one); a freeze sets its value, or else holds the cell; a
/// dropout zeroes; noise amplification scales the noise by its value; an
/// alarm fault leaves registers alone.
pub open spec fn effect_of(f: Option<ActiveFault>) -> FaultEffect {
    match f {
        None => FaultEffect::Keep,
        Some(fault) => match fault.fault_type {
            FaultType::Spike => match fault.value {
                Some(v) => FaultEffect::SetValue(v),
                None => FaultEffect::Keep,
            },
            FaultType::Freeze => match fault.value {
                Some(v) => FaultEffect::SetValue(v),
                None => FaultEffect::HoldCell,
            },
            FaultType::Dropout => FaultEffect::Zero,
            FaultType::NoiseAmplify => FaultEffect::Amplify(fault.value),
            FaultType::Alarm => FaultEffect::Keep,
        },
    }
}

/// What the fault that applies to register `name` (its own, else a
/// device-wide one) does to the register's computed value this tick.
pub fn fault_effect(faults: &FaultTable, name: &str) -> (r: FaultEffect)
    ensures
        exists|f: Option<ActiveFault>|
            r == effect_of(f) && match f {
                Some(x) => exists|i: int|
                    0 <= i < faults.entries().len() && #[trigger] faults.entries()[i] == x && (fault_key(x) == name@
                        || (fault_key(x) == "_device"@ && forall|j: int|
                        0 <= j < faults.entries().len() ==> fault_key(#[trigger] faults.entries()[j]) != name@)),
                None => forall|i: int|
                    0 <= i < faults.entries().len() ==> fault_key(#[trigger] faults.entries()[i]) != name@
                        && fault_key(faults.entries()[i]) != "_device"@,
            },
{
    match faults.applicable(name) {
        None => {
            assert(FaultEffect::Keep == effect_of(None));
            FaultEffect::Keep
        },
        Some(fault) => {
            let r = match fault.fault_type {
                FaultType::Spike => match fault.value {
                    Some(v) => FaultEffect::SetValue(v),
                    None => FaultEffect::Keep,
                },
                FaultType::Freeze => match fault.value {
                    Some(v) => FaultEffect::SetValue(v),
                    None => FaultEffect::HoldCell,
                },
                FaultType::Dropout => FaultEffect::Zero,
                FaultType::NoiseAmplify => FaultEffect::Amplify(fault.value),
                FaultType::Alarm => FaultEffect::Keep,
            };
            assert(r == effect_of(Some(*fault)));
            r
        },
    }
}

/// What a fault does to a simulated register's tick value. A spike or a
/// freeze that carries a value holds the register at that value (for a
/// freeze, the value latched when it was injected); a freeze without one
/// holds the register's cell as it stands; a dropout forces zero; noise
/// amplification scales the noise by the fault's factor; an alarm fault, a
/// spike without a value, and no fault at all leave the computed value.
pub proof fn lemma_fault_effects(f: ActiveFault)
    ensures
        forall|v: Real|
            (f.fault_type == FaultType::Spike || f.fault_type == FaultType::Freeze) && f.value == Some(v) ==> (
            effect_of(Some(f)) == FaultEffect::SetValue(v)),
        f.fault_type == FaultType::Freeze && f.value == None::<Real> ==> (effect_of(Some(f)) == FaultEffect::HoldCell),
        f.fault_type == FaultType::Spike && f.value == None::<Real> ==> (effect_of(Some(f)) == FaultEffect::Keep),
        f.fault_type == FaultType::Dropout ==> effect_of(Some(f)) == FaultEffect::Zero,
        f.fault_type == FaultType::NoiseAmplify ==> effect_of(Some(f)) == FaultEffect::Amplify(f.value),
        f.fault_type == FaultType::Alarm ==> effect_of(Some(f)) == FaultEffect::Keep,
        effect_of(None) == FaultEffect::Keep,
{
}

/// What a tick does to one coil or discrete input once the registers have
/// moved.
#[derive(Debug, Clone, Copy, PartialEq, Eq, Structural)]
pub enum TriggerAction {
    /// An alarm fault holds the coil set.
    Force,
    /// Set the bit to the outcome of its trigger on register `register` of
    /// `space`.
    Compare {
        /// Space of the source register.
        space: RegisterSpace,
        /// Index of the source register in its table.
        register: usize,
    },
    /// Leave the bit as it is: it has no trigger, or the trigger's source is
    /// not a register of the device.
    Keep,
}

/// Whether an alarm fault targets the bit called `name`.
pub open spec fn alarm_held(faults: Seq<ActiveFault>, name: Seq<char>) -> bool {
    exists|k: int|
        0 <= k < faults.len() && fault_key(#[trigger] faults[k]) == name && faults[k].fault_type == FaultType::Alarm
}

/// The action for bit `c` (a coil when `is_coil`): an alarm fault on a coil
/// forces it; otherwise a trigger reads the last input register with the
/// source's name, else the last holding register with it.
pub open spec fn trigger_effect(spec: DeviceSpec, faults: Seq<ActiveFault>, c: CoilSpec, is_coil: bool, a: TriggerAction) -> bool {
    if is_coil && alarm_held(faults, c.name@) {
        a == TriggerAction::Force
    } else {
        match c.trigger {
            None => a == TriggerAction::Keep,
            Some(t) => {
                let inp = spec.registers.input@;
                let hold = spec.registers.holding@;
                if names_register(inp, t.source_register@) {
                    a matches TriggerAction::Compare { space, register } && space == RegisterSpace::Input
                        && last_named(inp, t.source_register@, register as int)
                } else if names_register(hold, t.source_register@) {
                    a matches TriggerAction::Compare { space, register } && space == RegisterSpace::Holding
                        && last_named(hold, t.source_register@, register as int)
                } else {
                    a == TriggerAction::Keep
                }
            },
        }
    }
}

/// The action a tick takes on one coil (`is_coil`) or discrete input.
pub fn trigger_action(spec: &DeviceSpec, faults: &FaultTable, c: &CoilSpec, is_coil: bool) -> (a: TriggerAction)
    ensures
        trigger_effect(*spec, faults.entries(), *c, is_coil, a),
{
    proof {
        use_type_invariant(faults);
    }
    if is_coil {
        match faults.get(c.name.as_str()) {
            Some(f) => {
                if f.fault_type == FaultType::Alarm {
                    return TriggerAction::Force;
                }
            },
            None => {},
        }
    }
    match &c.trigger {
        None => TriggerAction::Keep,
        Some(t) => match find_last_register(&spec.registers.input, t.source_register.as_str()) {
            Some(i) => TriggerAction::Compare { space: RegisterSpace::Input, register: i },
            None => match find_last_register(&spec.registers.holding, t.source_register.as_str()) {
                Some(i) => TriggerAction::Compare { space: RegisterSpace::Holding, register: i },
                None => TriggerAction::Keep,
            },
        },
    }
}

fn bit_actions(spec: &DeviceSpec, faults: &FaultTable, bits: &Vec<CoilSpec>, is_coil: bool) -> (r: Vec<TriggerAction>)
    ensures
        r@.len() == bits@.len(),
        forall|i: int| 0 <= i < r@.len() ==> trigger_effect(*spec, faults.entries(), bits@[i], is_coil, #[trigger] r@[i]),
{
    let mut r: Vec<TriggerAction> = Vec::new();
    let mut i: usize = 0;
    while i < bits.len()
        invariant
            0 <= i <= bits@.len(),
            r@.len() == i,
            forall|k: int| 0 <= k < i ==> trigger_effect(*spec, faults.entries(), bits@[k], is_coil, #[trigger] r@[k]),
        decreases bits@.len() - i,
    {
        r.push(trigger_action(spec, faults, &bits[i], is_coil));
        i = i + 1;
    }
    r
}

/// What a tick does to every coil and every discrete input, in table order.
pub fn trigger_plan(spec: &DeviceSpec, faults: &FaultTable) -> (r: (Vec<TriggerAction>, Vec<TriggerAction>))
    ensures
        r.0@.len() == spec.registers.coils@.len(),
        forall|i: int|
            0 <= i < r.0@.len() ==> trigger_effect(*spec, faults.entries(), spec.registers.coils@[i], true, #[trigger] r.0@[i]),
        r.1@.len() == spec.registers.discrete@.len(),
        forall|i: int|
            0 <= i < r.1@.len() ==> trigger_effect(
                *spec,
                faults.entries(),
                spec.registers.discrete@[i],
                false,
                #[trigger] r.1@[i],
            ),
{
    (bit_actions(spec, faults, &spec.registers.coils, true), bit_actions(spec, faults, &spec.registers.discrete, false))
}

/// Field- and control-plane word write: the whole run must land on declared
/// registers, else nothing changes and the first address that does not is
/// reported. `Ok` lists each register base that was written.
pub fn write_words(bank: &mut RegisterBank, space: RegisterSpace, address: u16, words: &[u16]) -> (r:
    Result<Vec<u16>, DeviceError>)
    ensures
        words@.len() > 65535 ==> r == Err::<Vec<u16>, DeviceError>(
            DeviceError::UnknownRegister { space, address },
        ) && *final(bank) == *old(bank),
        words@.len() <= 65535 ==> match word_range_result(
            old(bank).cells(space),
            address,
            words@.len() as int,
        ) {
            Err(e) => r == Err::<Vec<u16>, DeviceError>(
                DeviceError::UnknownRegister { space, address: e },
            ) && *final(bank) == *old(bank),
            Ok(_) => r is Ok && final(bank).cells(space) == write_prefix(
                old(bank).cells(space),
                old(bank).endian(),
                address,
                words@,
                words@.len(),
            ),
        },
        r matches Ok(written) ==> {
            &&& written@.no_duplicates()
            &&& forall|b: u16|
                written@.contains(b) <==> exists|i: int|
                    0 <= i < words@.len() && #[trigger] lands_in(old(bank).cells(space), address, i, b)
        },
        forall|s: RegisterSpace| s != space ==> final(bank).cells(s) == old(bank).cells(s),
        final(bank).endian() == old(bank).endian(),
        final(bank).coil_bits() == old(bank).coil_bits(),
        final(bank).discrete_bits() == old(bank).discrete_bits(),
{
    match bank.write_words(space, address, words) {
        Ok(written) => Ok(written),
        Err(a) => Err(DeviceError::UnknownRegister { space, address: a }),
    }
}

/// Cells a register list seeds, in order (a later register at the same
/// address replaces an earlier one).
pub open spec fn seeded(regs: Seq<RegisterSpec>, cells: Seq<CellValue>, n: int) -> Map<u16, NumericCell>
    decreases n,
{
    if n <= 0 {
        Map::empty()
    } else {
        seeded(regs, cells, n - 1).insert(regs[n - 1].address, NumericCell { value: cells[n - 1], scale: regs[n - 1].scale })
    }
}

/// Bits a coil list seeds, in order.
pub open spec fn seeded_bits(coils: Seq<crate::device::CoilSpec>, n: int) -> Map<u16, bool>
    decreases n,
{
    if n <= 0 {
        Map::empty()
    } else {
        seeded_bits(coils, n - 1).insert(coils[n - 1].address, coils[n - 1].default)
    }
}

/// Whether `bank` holds exactly the document's registers and bits, each
/// register with the given initial cell.
pub open spec fn seeded_from(
    bank: RegisterBank,
    spec: DeviceSpec,
    holding_cells: Seq<CellValue>,
    input_cells: Seq<CellValue>,
) -> bool {
    let m = spec.registers;
    &&& bank.endian() == spec.modbus.endianness
    &&& bank.cells(RegisterSpace::Holding) == seeded(m.holding@, holding_cells, m.holding@.len() as int)
    &&& bank.cells(RegisterSpace::Input) == seeded(m.input@, input_cells, m.input@.len() as int)
    &&& bank.coil_bits() == seeded_bits(m.coils@, m.coils@.len() as int)
    &&& bank.discrete_bits() == seeded_bits(m.discrete@, m.discrete@.len() as int)
}

fn seed_space(bank: &mut RegisterBank, space: RegisterSpace, regs: &Vec<RegisterSpec>, cells: &Vec<CellValue>)
    requires
        cells@.len() == regs@.len(),
        old(bank).cells(space) == Map::<u16, NumericCell>::empty(),
    ensures
        final(bank).cells(space) == seeded(regs@, cells@, regs@.len() as int),
        forall|s: RegisterSpace| s != space ==> final(bank).cells(s) == old(bank).cells(s),
        final(bank).endian() == old(bank).endian(),
        final(bank).coil_bits() == old(bank).coil_bits(),
        final(bank).discrete_bits() == old(bank).discrete_bits(),
{
    let mut i: usize = 0;
    while i < regs.len()
        invariant
            0 <= i <= regs@.len(),
            cells@.len() == regs@.len(),
            bank.cells(space) == seeded(regs@, cells@, i as int),
            forall|s: RegisterSpace| s != space ==> bank.cells(s) == old(bank).cells(s),
            bank.endian() == old(bank).endian(),
            bank.coil_bits() == old(bank).coil_bits(),
            bank.discrete_bits() == old(bank).discrete_bits(),
        decreases regs@.len() - i,
    {
        bank.insert_numeric(space, regs[i].address, cells[i], regs[i].scale);
        i = i + 1;
    }
}

/// Rewind the bank to the document: its byte order, and every register,
/// coil and discrete input at its initial value (`holding_cells[i]` and
/// `input_cells[i]` are the initial cells of the `i`-th register).
pub fn reset_from_spec(
    bank: &mut RegisterBank,
    spec: &DeviceSpec,
    holding_cells: &Vec<CellValue>,
    input_cells: &Vec<CellValue>,
)
    requires
        holding_cells@.len() == spec.registers.holding@.len(),
        input_cells@.len() == spec.registers.input@.len(),
    ensures
        seeded_from(*final(bank), *spec, holding_cells@, input_cells@),
{
    bank.clear(spec.modbus.endianness);
    seed_space(bank, RegisterSpace::Holding, &spec.registers.holding, holding_cells);
    seed_space(bank, RegisterSpace::Input, &spec.registers.input, input_cells);
    let mut i: usize = 0;
    while i < spec.registers.coils.len()
        invariant
            0 <= i <= spec.registers.coils@.len(),
            bank.coil_bits() == seeded_bits(spec.registers.coils@, i as int),
            bank.discrete_bits() == Map::<u16, bool>::empty(),
            bank.endian() == spec.modbus.endianness,
            bank.cells(RegisterSpace::Holding) == seeded(
                spec.registers.holding@,
                holding_cells@,
                spec.registers.holding@.len() as int,
            ),
            bank.cells(RegisterSpace::Input) == seeded(
                spec.registers.input@,
                input_cells@,
                spec.registers.input@.len() as int,
            ),
        decreases spec.registers.coils@.len() - i,
    {
        bank.insert_coil(spec.registers.coils[i].address, spec.registers.coils[i].default);
        i = i + 1;
    }
    let mut i: usize = 0;
    while i < spec.registers.discrete.len()
        invariant
            0 <= i <= spec.registers.discrete@.len(),
            bank.coil_bits() == seeded_bits(spec.registers.coils@, spec.registers.coils@.len() as int),
            bank.discrete_bits() == seeded_bits(spec.registers.discrete@, i as int),
            bank.endian() == spec.modbus.endianness,
            bank.cells(RegisterSpace::Holding) == seeded(
                spec.registers.holding@,
                holding_cells@,
                spec.registers.holding@.len() as int,
            ),
            bank.cells(RegisterSpace::Input) == seeded(
                spec.registers.input@,
                input_cells@,
                spec.registers.input@.len() as int,
            ),
        decreases spec.registers.discrete@.len() - i,
    {
        bank.insert_discrete(spec.registers.discrete[i].address, spec.registers.discrete[i].default);
        i = i + 1;
    }
}

/// A bank seeded from the document (see `reset_from_spec`).
pub fn from_spec(spec: &DeviceSpec, holding_cells: &Vec<CellValue>, input_cells: &Vec<CellValue>) -> (bank:
    RegisterBank)
    requires
        holding_cells@.len() == spec.registers.holding@.len(),
        input_cells@.len() == spec.registers.input@.len(),
    ensures
        seeded_from(bank, *spec, holding_cells@, input_cells@),
{
    let mut bank = RegisterBank::new(spec.modbus.endianness);
    reset_from_spec(&mut bank, spec, holding_cells, input_cells);
    bank
}

/// A reset brings any bank back to the boot state: two banks seeded from
/// the same document with the same initial cells are indistinguishable.
pub proof fn lemma_reset_matches_boot(
    boot: RegisterBank,
    reset: RegisterBank,
    spec: DeviceSpec,
    holding_cells: Seq<CellValue>,
    input_cells: Seq<CellValue>,
)
    requires
        seeded_from(boot, spec, holding_cells, input_cells),
        seeded_from(reset, spec, holding_cells, input_cells),
    ensures
        reset.endian() == boot.endian(),
        reset.cells(RegisterSpace::Holding) == boot.cells(RegisterSpace::Holding),
        reset.cells(RegisterSpace::Input) == boot.cells(RegisterSpace::Input),
        reset.coil_bits() == boot.coil_bits(),
        reset.discrete_bits() == boot.discrete_bits(),
{
}

/// After a fault is injected, exactly one fault has its key and it is
/// that fault; faults under other keys are kept; the table grows by one
/// exactly when no fault had that key.
pub proof fn lemma_inject_one_per_key(before: Seq<ActiveFault>, fault: ActiveFault, after: Seq<ActiveFault>)
    requires
        distinct_keys(before),
        inserted(before, fault, after),
    ensures
        exists|i: int|
            0 <= i < after.len() && after[i] == fault && forall|j: int|
                0 <= j < after.len() && j != i ==> fault_key(#[trigger] after[j]) != fault_key(fault),
        forall|g: ActiveFault| #[trigger] before.contains(g) && fault_key(g) != fault_key(fault) ==> after.contains(g),
        after.len() == before.len() + if has_key(before, fault_key(fault)) {
            0int
        } else {
            1int
        },
{
    assert(after.contains(fault));
    let i = choose|i: int| 0 <= i < after.len() && after[i] == fault;
    assert forall|j: int| 0 <= j < after.len() && j != i implies fault_key(#[trigger] after[j]) != fault_key(fault) by {
        assert(fault_key(after[i]) == fault_key(fault));
    }
}

} // verus!
