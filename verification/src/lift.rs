//! From the two document languages to one canonical device: inferred
//! bindings, the Modbus settings of a language 2 document, engine cells
//! for its points, and the points of a language 1 register map.

use vstd::prelude::*;

use crate::bank::sat_addr;
use crate::behavior::BehaviorSpec;
use crate::device::{
    AlarmSpec, BindingSpec, CoilSpec, DeviceSpec, IdentitySpec, ModbusSpec, PointSpec, RegisterMapSpec,
    RegisterSpec, TriggerSpec, copy_behavior, copy_trigger, first_point, has_point, same_behavior,
};
use crate::ieee::Real;
use crate::scenario::ScenarioSpec;
use crate::validate::Invalid;
use crate::export::{Export, ModbusExportEntry, put};
use crate::types::{DataType, Endianness, ModbusExportSpace, PointClass, PointKind, ProtocolId, UaNaming};

verus! {

/// Export row of a register in table `space`.
pub open spec fn register_entry(r: RegisterSpec, space: ModbusExportSpace) -> ModbusExportEntry {
    ModbusExportEntry { space, address: r.address, scale: r.scale, data_type: r.data_type }
}

/// Export row of a coil or discrete input in table `space`.
pub open spec fn coil_entry(c: CoilSpec, space: ModbusExportSpace) -> ModbusExportEntry {
    ModbusExportEntry { space, address: c.address, scale: 1, data_type: DataType::Uint16 }
}

/// `rows` after putting each register of `regs`, in order.
pub open spec fn put_registers(
    rows: Seq<(String, ModbusExportEntry)>,
    regs: Seq<RegisterSpec>,
    space: ModbusExportSpace,
) -> Seq<(String, ModbusExportEntry)>
    decreases regs.len(),
{
    if regs.len() == 0 {
        rows
    } else {
        put(put_registers(rows, regs.drop_last(), space), regs.last().name, register_entry(regs.last(), space))
    }
}

/// `rows` after putting each coil of `coils`, in order.
pub open spec fn put_coils(
    rows: Seq<(String, ModbusExportEntry)>,
    coils: Seq<CoilSpec>,
    space: ModbusExportSpace,
) -> Seq<(String, ModbusExportEntry)>
    decreases coils.len(),
{
    if coils.len() == 0 {
        rows
    } else {
        put(put_coils(rows, coils.drop_last(), space), coils.last().name, coil_entry(coils.last(), space))
    }
}

/// The export table a language 1 register map implies: holding, input,
/// coil and discrete entries put in that order (a later name replaces the
/// entry of an earlier one).
pub open spec fn register_export(m: RegisterMapSpec) -> Seq<(String, ModbusExportEntry)> {
    let h = put_registers(Seq::empty(), m.holding@, ModbusExportSpace::Holding);
    let i = put_registers(h, m.input@, ModbusExportSpace::Input);
    let c = put_coils(i, m.coils@, ModbusExportSpace::Coil);
    put_coils(c, m.discrete@, ModbusExportSpace::Discrete)
}

fn put_all_registers(t: &mut Export<ModbusExportEntry>, regs: &Vec<RegisterSpec>, space: ModbusExportSpace)
    ensures
        final(t).entries() == put_registers(old(t).entries(), regs@, space),
{
    let ghost start = t.entries();
    let mut i: usize = 0;
    while i < regs.len()
        invariant
            0 <= i <= regs@.len(),
            t.entries() == put_registers(start, regs@.subrange(0, i as int), space),
        decreases regs@.len() - i,
    {
        proof {
            assert(regs@.subrange(0, i as int + 1).drop_last() =~= regs@.subrange(0, i as int));
        }
        let reg = &regs[i];
        t.insert(
            reg.name.clone(),
            ModbusExportEntry { space, address: reg.address, scale: reg.scale, data_type: reg.data_type },
        );
        i = i + 1;
    }
    proof {
        assert(regs@.subrange(0, regs@.len() as int) =~= regs@);
    }
}

fn put_all_coils(t: &mut Export<ModbusExportEntry>, coils: &Vec<CoilSpec>, space: ModbusExportSpace)
    ensures
        final(t).entries() == put_coils(old(t).entries(), coils@, space),
{
    let ghost start = t.entries();
    let mut i: usize = 0;
    while i < coils.len()
        invariant
            0 <= i <= coils@.len(),
            t.entries() == put_coils(start, coils@.subrange(0, i as int), space),
        decreases coils@.len() - i,
    {
        proof {
            assert(coils@.subrange(0, i as int + 1).drop_last() =~= coils@.subrange(0, i as int));
        }
        let coil = &coils[i];
        t.insert(
            coil.name.clone(),
            ModbusExportEntry { space, address: coil.address, scale: 1, data_type: DataType::Uint16 },
        );
        i = i + 1;
    }
    proof {
        assert(coils@.subrange(0, coils@.len() as int) =~= coils@);
    }
}

/// The export table a language 1 register map implies.
pub fn modbus_export_from_registers(registers: &RegisterMapSpec) -> (t: Export<ModbusExportEntry>)
    ensures
        t.entries() == register_export(*registers),
{
    let mut t = Export::new();
    assert(t.entries() =~= Seq::empty());
    put_all_registers(&mut t, &registers.holding, ModbusExportSpace::Holding);
    put_all_registers(&mut t, &registers.input, ModbusExportSpace::Input);
    put_all_coils(&mut t, &registers.coils, ModbusExportSpace::Coil);
    put_all_coils(&mut t, &registers.discrete, ModbusExportSpace::Discrete);
    t
}

/// Whether a binding is a Modbus TCP or Modbus TLS binding.
pub open spec fn is_modbus(b: BindingSpec) -> bool {
    b is ModbusTcp || b is ModbusTls
}

/// The export table of a Modbus binding.
pub open spec fn modbus_table(b: BindingSpec) -> Option<Export<ModbusExportEntry>> {
    match b {
        BindingSpec::ModbusTcp { export, .. } => Some(export),
        BindingSpec::ModbusTls { export, .. } => Some(export),
        _ => None,
    }
}

/// Whether a binding is a Modbus binding with a non-empty export.
pub open spec fn exports_modbus(b: BindingSpec) -> bool {
    modbus_table(b) matches Some(t) && t.entries().len() > 0
}

/// Modbus settings a binding stands for: a TCP binding's port (502 when
/// unset), unit (1 when unset) and byte order; a TLS binding's port with
/// unit 1 and big-endian words.
pub open spec fn modbus_settings(b: BindingSpec) -> ModbusSpec {
    match b {
        BindingSpec::ModbusTcp { port, unit_id, endianness, .. } => ModbusSpec {
            default_port: match port {
                Some(p) => p,
                None => 502,
            },
            unit_id: match unit_id {
                Some(u) => u,
                None => 1,
            },
            endianness,
        },
        BindingSpec::ModbusTls { port, .. } => ModbusSpec {
            default_port: port,
            unit_id: 1,
            endianness: Endianness::Big,
        },
        _ => ModbusSpec { default_port: 502, unit_id: 1, endianness: Endianness::Big },
    }
}

/// Whether any binding is a Modbus TCP or TLS binding.
pub fn has_modbus_binding(bindings: &Vec<BindingSpec>) -> (b: bool)
    ensures
        b == exists|i: int| 0 <= i < bindings@.len() && is_modbus(#[trigger] bindings@[i]),
{
    let mut i: usize = 0;
    while i < bindings.len()
        invariant
            0 <= i <= bindings@.len(),
            forall|j: int| 0 <= j < i ==> !is_modbus(#[trigger] bindings@[j]),
        decreases bindings@.len() - i,
    {
        match &bindings[i] {
            BindingSpec::ModbusTcp { .. } | BindingSpec::ModbusTls { .. } => {
                return true;
            },
            _ => {},
        }
        i = i + 1;
    }
    false
}

/// The export of the first Modbus binding whose export is not empty.
pub fn first_modbus_export(bindings: &Vec<BindingSpec>) -> (r: Option<&Export<ModbusExportEntry>>)
    ensures
        match r {
            Some(t) => exists|i: int|
                0 <= i < bindings@.len() && exports_modbus(#[trigger] bindings@[i]) && modbus_table(bindings@[i])
                    == Some(*t) && forall|j: int| 0 <= j < i ==> !exports_modbus(#[trigger] bindings@[j]),
            None => forall|i: int| 0 <= i < bindings@.len() ==> !exports_modbus(#[trigger] bindings@[i]),
        },
{
    let mut i: usize = 0;
    while i < bindings.len()
        invariant
            0 <= i <= bindings@.len(),
            forall|j: int| 0 <= j < i ==> !exports_modbus(#[trigger] bindings@[j]),
        decreases bindings@.len() - i,
    {
        match &bindings[i] {
            BindingSpec::ModbusTcp { export, .. } | BindingSpec::ModbusTls { export, .. } => {
                if !export.is_empty() {
                    assert(exports_modbus(bindings@[i as int]));
                    return Some(export);
                }
            },
            _ => {},
        }
        i = i + 1;
    }
    None
}

/// Modbus settings of a language 2 document: those of its first Modbus
/// binding, or port 502, unit 1, big-endian when it has none.
pub fn modbus_from_bindings(bindings: &Vec<BindingSpec>) -> (m: ModbusSpec)
    ensures
        (exists|i: int|
            0 <= i < bindings@.len() && is_modbus(#[trigger] bindings@[i]) && m == modbus_settings(bindings@[i])
                && forall|j: int| 0 <= j < i ==> !is_modbus(#[trigger] bindings@[j]))
            || ((forall|i: int| 0 <= i < bindings@.len() ==> !is_modbus(#[trigger] bindings@[i])) && m
                == (ModbusSpec { default_port: 502, unit_id: 1, endianness: Endianness::Big })),
{
    let mut i: usize = 0;
    while i < bindings.len()
        invariant
            0 <= i <= bindings@.len(),
            forall|j: int| 0 <= j < i ==> !is_modbus(#[trigger] bindings@[j]),
        decreases bindings@.len() - i,
    {
        match &bindings[i] {
            BindingSpec::ModbusTcp { port, unit_id, endianness, .. } => {
                let m = ModbusSpec {
                    default_port: match port {
                        Some(p) => *p,
                        None => 502,
                    },
                    unit_id: match unit_id {
                        Some(u) => *u,
                        None => 1,
                    },
                    endianness: *endianness,
                };
                assert(is_modbus(bindings@[i as int]));
                return m;
            },
            BindingSpec::ModbusTls { port, .. } => {
                assert(is_modbus(bindings@[i as int]));
                return ModbusSpec { default_port: *port, unit_id: 1, endianness: Endianness::Big };
            },
            _ => {},
        }
        i = i + 1;
    }
    ModbusSpec { default_port: 502, unit_id: 1, endianness: Endianness::Big }
}

/// Protocols still to serve among `ps`, in order.
pub open spec fn unserved(ps: Seq<ProtocolId>) -> Seq<ProtocolId>
    decreases ps.len(),
{
    if ps.len() == 0 {
        Seq::empty()
    } else if ps.last().implemented() {
        unserved(ps.drop_last())
    } else {
        unserved(ps.drop_last()).push(ps.last())
    }
}

impl DeviceSpec {
    /// The binding a language 1 document without bindings implies: Modbus
    /// TCP on the document's port, unit and byte order, exporting its
    /// register map.
    pub open spec fn inferred(self, b: BindingSpec) -> bool {
        match b {
            BindingSpec::ModbusTcp { port, unit_id, endianness, export } => port == Some(self.modbus.default_port)
                && unit_id == Some(self.modbus.unit_id) && endianness == self.modbus.endianness && export.entries()
                == register_export(self.registers),
            _ => false,
        }
    }

    /// Protocols of the bindings to start.
    pub open spec fn resolved_protocols(self) -> Seq<ProtocolId> {
        if self.bindings@.len() > 0 {
            self.bindings@.map_values(|b: BindingSpec| b.protocol())
        } else if self.spec_version >= 2 {
            Seq::empty()
        } else {
            seq![ProtocolId::ModbusTcp]
        }
    }

    /// Bindings to start: the declared ones, or, when there are none, the
    /// Modbus TCP binding a language 1 document implies (none for language 2).
    pub fn resolved_bindings(&self) -> (r: Vec<BindingSpec>)
        ensures
            self.bindings@.len() > 0 ==> r@.len() == self.bindings@.len() && forall|i: int|
                0 <= i < r@.len() ==> (#[trigger] r@[i]).same(self.bindings@[i]),
            self.bindings@.len() == 0 && self.spec_version >= 2 ==> r@.len() == 0,
            self.bindings@.len() == 0 && self.spec_version < 2 ==> r@.len() == 1 && self.inferred(r@[0]),
    {
        if self.bindings.len() == 0 {
            if self.spec_version >= 2 {
                Vec::new()
            } else {
                let mut r = Vec::new();
                r.push(
                    BindingSpec::ModbusTcp {
                        port: Some(self.modbus.default_port),
                        unit_id: Some(self.modbus.unit_id),
                        endianness: self.modbus.endianness,
                        export: modbus_export_from_registers(&self.registers),
                    },
                );
                r
            }
        } else {
            let mut r: Vec<BindingSpec> = Vec::new();
            let mut i: usize = 0;
            while i < self.bindings.len()
                invariant
                    0 <= i <= self.bindings@.len(),
                    r@.len() == i,
                    forall|j: int| 0 <= j < i ==> (#[trigger] r@[j]).same(self.bindings@[j]),
                decreases self.bindings@.len() - i,
            {
                r.push(self.bindings[i].copy());
                i = i + 1;
            }
            r
        }
    }

    /// Protocols declared on this device that this runtime cannot serve,
    /// in binding order.
    pub fn unimplemented_protocols(&self) -> (r: Vec<ProtocolId>)
        ensures
            r@ == unserved(self.resolved_protocols()),
    {
        let mut r: Vec<ProtocolId> = Vec::new();
        if self.bindings.len() == 0 {
            proof {
                let ps = self.resolved_protocols();
                if self.spec_version < 2 {
                    assert(ps.drop_last() =~= Seq::<ProtocolId>::empty());
                    assert(ps.last() == ProtocolId::ModbusTcp);
                    assert(ps.last().implemented());
                    assert(unserved(ps.drop_last()) =~= Seq::<ProtocolId>::empty());
                }
                assert(unserved(ps) =~= Seq::<ProtocolId>::empty());
            }
            return r;
        }
        let ghost ps = self.bindings@.map_values(|b: BindingSpec| b.protocol());
        let mut i: usize = 0;
        while i < self.bindings.len()
            invariant
                0 <= i <= self.bindings@.len(),
                ps == self.bindings@.map_values(|b: BindingSpec| b.protocol()),
                r@ == unserved(ps.subrange(0, i as int)),
            decreases self.bindings@.len() - i,
        {
            proof {
                assert(ps.subrange(0, i as int + 1).drop_last() =~= ps.subrange(0, i as int));
            }
            let p = self.bindings[i].protocol_id();
            if !p.is_implemented() {
                r.push(p);
            }
            i = i + 1;
        }
        proof {
            assert(ps.subrange(0, self.bindings@.len() as int) =~= ps);
        }
        r
    }
}

/// The register that backs analog point `p` at `address`.
pub open spec fn reg_of_point(p: PointSpec, address: u16, scale: u32, data_type: DataType, r: RegisterSpec) -> bool {
    &&& r.address == address
    &&& r.name == p.id
    &&& r.description == p.description
    &&& r.unit == p.unit
    &&& r.default == p.analog_default
    &&& r.scale == scale
    &&& r.data_type == data_type
    &&& same_behavior(r.simulation, p.simulation)
}

/// The coil or discrete input that backs binary point `p` at `address`.
pub open spec fn coil_of_point(p: PointSpec, address: u16, c: CoilSpec) -> bool {
    &&& c.address == address
    &&& c.name == p.id
    &&& c.description == p.description
    &&& c.default == p.binary_default
    &&& c.trigger == p.trigger
}

fn register_for(p: &PointSpec, address: u16, scale: u32, data_type: DataType) -> (r: RegisterSpec)
    ensures
        reg_of_point(*p, address, scale, data_type, r),
{
    RegisterSpec {
        address,
        name: p.id.clone(),
        description: p.description.clone(),
        unit: p.unit.clone(),
        default: p.analog_default,
        scale,
        data_type,
        simulation: copy_behavior(&p.simulation),
    }
}

fn coil_for(p: &PointSpec, address: u16) -> (c: CoilSpec)
    ensures
        coil_of_point(*p, address, c),
{
    CoilSpec {
        address,
        name: p.id.clone(),
        description: p.description.clone(),
        default: p.binary_default,
        trigger: copy_trigger(&p.trigger),
    }
}

/// Number of points of kind `kind` among the first `n`.
pub open spec fn count_kind(pts: Seq<PointSpec>, n: int, kind: PointKind) -> nat
    decreases n,
{
    if n <= 0 {
        0
    } else {
        count_kind(pts, n - 1, kind) + if pts[n - 1].kind == kind {
            1nat
        } else {
            0nat
        }
    }
}

/// The cells that back every point of a document with no Modbus plane:
/// analog points as `float32` holding registers with scale 1, two words
/// apart from address 0; binary points as coils, one apart from address 0
/// (addresses saturate at the end of the address space).
pub open spec fn backed_all(pts: Seq<PointSpec>, m: RegisterMapSpec) -> bool {
    &&& m.input@.len() == 0
    &&& m.discrete@.len() == 0
    &&& backed_upto(pts, pts.len() as int, m.holding@, m.coils@)
}

/// Backing cells for the first `n` points.
pub open spec fn backed_upto(pts: Seq<PointSpec>, n: int, holding: Seq<RegisterSpec>, coils: Seq<CoilSpec>) -> bool {
    &&& holding.len() == count_kind(pts, n, PointKind::Analog)
    &&& coils.len() == count_kind(pts, n, PointKind::Binary)
    &&& forall|i: int|
        0 <= i < n && (#[trigger] pts[i]).kind == PointKind::Analog ==> reg_of_point(
            pts[i],
            sat_addr(0, 2 * (count_kind(pts, i, PointKind::Analog) as int)),
            1,
            DataType::Float32,
            holding[count_kind(pts, i, PointKind::Analog) as int],
        )
    &&& forall|i: int|
        0 <= i < n && (#[trigger] pts[i]).kind == PointKind::Binary ==> coil_of_point(
            pts[i],
            sat_addr(0, count_kind(pts, i, PointKind::Binary) as int),
            coils[count_kind(pts, i, PointKind::Binary) as int],
        )
}

#[verifier::rlimit(40)]
proof fn lemma_backed_step(
    pts: Seq<PointSpec>,
    i: int,
    holding: Seq<RegisterSpec>,
    coils: Seq<CoilSpec>,
    h2: Seq<RegisterSpec>,
    c2: Seq<CoilSpec>,
)
    requires
        0 <= i < pts.len(),
        backed_upto(pts, i, holding, coils),
        pts[i].kind == PointKind::Analog ==> h2 == holding.push(h2.last()) && c2 == coils && reg_of_point(
            pts[i],
            sat_addr(0, 2 * (count_kind(pts, i, PointKind::Analog) as int)),
            1,
            DataType::Float32,
            h2.last(),
        ),
        pts[i].kind == PointKind::Binary ==> c2 == coils.push(c2.last()) && h2 == holding && coil_of_point(
            pts[i],
            sat_addr(0, count_kind(pts, i, PointKind::Binary) as int),
            c2.last(),
        ),
    ensures
        backed_upto(pts, i + 1, h2, c2),
{
    assert forall|j: int|
        0 <= j < i + 1 && (#[trigger] pts[j]).kind == PointKind::Analog implies reg_of_point(
        pts[j],
        sat_addr(0, 2 * (count_kind(pts, j, PointKind::Analog) as int)),
        1,
        DataType::Float32,
        h2[count_kind(pts, j, PointKind::Analog) as int],
    ) by {
        if j < i {
            lemma_count_kind_mono(pts, j + 1, i, PointKind::Analog);
            assert(h2[count_kind(pts, j, PointKind::Analog) as int] == holding[count_kind(
                pts,
                j,
                PointKind::Analog,
            ) as int]);
        }
    }
    assert forall|j: int|
        0 <= j < i + 1 && (#[trigger] pts[j]).kind == PointKind::Binary implies coil_of_point(
        pts[j],
        sat_addr(0, count_kind(pts, j, PointKind::Binary) as int),
        c2[count_kind(pts, j, PointKind::Binary) as int],
    ) by {
        if j < i {
            lemma_count_kind_mono(pts, j + 1, i, PointKind::Binary);
            assert(c2[count_kind(pts, j, PointKind::Binary) as int] == coils[count_kind(
                pts,
                j,
                PointKind::Binary,
            ) as int]);
        }
    }
}

/// Give each point a backing cell, for a document with no Modbus plane.
/// A register table kept in address order below `w0` stays so below `w`
/// when at most one register at `w0` is appended.
proof fn lemma_regs_grow(t0: Seq<RegisterSpec>, t: Seq<RegisterSpec>, w0: u16, w: u16)
    requires
        regs_ascend(t0),
        forall|k: int| 0 <= k < t0.len() ==> (#[trigger] t0[k]).address <= w0,
        w0 <= w,
        t == t0 || (t == t0.push(t.last()) && t.last().address == w0),
    ensures
        regs_ascend(t),
        forall|k: int| 0 <= k < t.len() ==> (#[trigger] t[k]).address <= w,
{
    assert forall|x: int, y: int| 0 <= x < y < t.len() implies #[trigger] t[x].address <= #[trigger] t[y].address by {
        if y < t0.len() {
            assert(t[x] == t0[x] && t[y] == t0[y]);
        } else {
            assert(t[x] == t0[x]);
        }
    }
    assert forall|k: int| 0 <= k < t.len() implies (#[trigger] t[k]).address <= w by {
        if k < t0.len() {
            assert(t[k] == t0[k]);
        }
    }
}

/// A coil table kept in address order below `b0` stays so below `b` when
/// at most one coil at `b0` is appended.
proof fn lemma_coils_grow(t0: Seq<CoilSpec>, t: Seq<CoilSpec>, b0: u16, b: u16)
    requires
        coils_ascend(t0),
        forall|k: int| 0 <= k < t0.len() ==> (#[trigger] t0[k]).address <= b0,
        b0 <= b,
        t == t0 || (t == t0.push(t.last()) && t.last().address == b0),
    ensures
        coils_ascend(t),
        forall|k: int| 0 <= k < t.len() ==> (#[trigger] t[k]).address <= b,
{
    assert forall|x: int, y: int| 0 <= x < y < t.len() implies #[trigger] t[x].address <= #[trigger] t[y].address by {
        if y < t0.len() {
            assert(t[x] == t0[x] && t[y] == t0[y]);
        } else {
            assert(t[x] == t0[x]);
        }
    }
    assert forall|k: int| 0 <= k < t.len() implies (#[trigger] t[k]).address <= b by {
        if k < t0.len() {
            assert(t[k] == t0[k]);
        }
    }
}

#[verifier::spinoff_prover]
#[verifier::rlimit(40)]
pub fn back_all_points(points: &Vec<PointSpec>) -> (m: RegisterMapSpec)
    ensures
        backed_all(points@, m),
        tables_ascend(m),
{
    let mut m = RegisterMapSpec::empty();
    let ghost pts = points@;
    let mut word: u16 = 0;
    let mut bit: u16 = 0;
    let mut i: usize = 0;
    while i < points.len()
        invariant
            0 <= i <= pts.len(),
            pts == points@,
            m.input@.len() == 0,
            m.discrete@.len() == 0,
            backed_upto(pts, i as int, m.holding@, m.coils@),
            word == sat_addr(0, 2 * (count_kind(pts, i as int, PointKind::Analog) as int)),
            bit == sat_addr(0, count_kind(pts, i as int, PointKind::Binary) as int),
            tables_ascend(m),
            forall|k: int| 0 <= k < m.holding@.len() ==> (#[trigger] m.holding@[k]).address <= word,
            forall|k: int| 0 <= k < m.coils@.len() ==> (#[trigger] m.coils@[k]).address <= bit,
        decreases pts.len() - i,
    {
        let ghost h0 = m.holding@;
        let ghost c0 = m.coils@;
        let ghost w0 = word;
        let ghost b0 = bit;
        let p = &points[i];
        match p.kind {
            PointKind::Analog => {
                push_register(&mut m.holding, register_for(p, word, 1, DataType::Float32));
                word = word.saturating_add(2);
                assert(m.holding@ == h0.push(m.holding@.last()) && m.holding@.last().address == w0);
            },
            PointKind::Binary => {
                push_coil(&mut m.coils, coil_for(p, bit));
                bit = bit.saturating_add(1);
                assert(m.coils@ == c0.push(m.coils@.last()) && m.coils@.last().address == b0);
            },
        }
        proof {
            lemma_backed_step(pts, i as int, h0, c0, m.holding@, m.coils@);
            lemma_regs_grow(h0, m.holding@, w0, word);
            lemma_coils_grow(c0, m.coils@, b0, bit);
        }
        i = i + 1;
    }
    m
}

/// Number of rows of `s` whose address is at most `a`.
pub open spec fn at_or_below(s: Seq<(String, ModbusExportEntry)>, a: u16) -> nat
    decreases s.len(),
{
    if s.len() == 0 {
        0
    } else {
        at_or_below(s.drop_last(), a) + if s.last().1.address <= a {
            1nat
        } else {
            0nat
        }
    }
}

/// `s` with row `r` placed after every row whose address is at most its own.
pub open spec fn insert_by_address(s: Seq<(String, ModbusExportEntry)>, r: (String, ModbusExportEntry)) -> Seq<
    (String, ModbusExportEntry),
> {
    s.insert(at_or_below(s, r.1.address) as int, r)
}

/// The export rows in ascending address order; rows with the same address
/// keep their table order.
pub open spec fn by_address(rows: Seq<(String, ModbusExportEntry)>) -> Seq<(String, ModbusExportEntry)>
    decreases rows.len(),
{
    if rows.len() == 0 {
        rows
    } else {
        insert_by_address(by_address(rows.drop_last()), rows.last())
    }
}

/// Whether the addresses of a row sequence never decrease.
pub open spec fn addresses_ascend(s: Seq<(String, ModbusExportEntry)>) -> bool {
    forall|i: int, j: int| 0 <= i < j < s.len() ==> #[trigger] s[i].1.address <= #[trigger] s[j].1.address
}

/// Where the rows at most `a` end in ascending rows.
proof fn lemma_at_or_below(s: Seq<(String, ModbusExportEntry)>, a: u16, k: int)
    requires
        0 <= k <= s.len(),
        forall|j: int| 0 <= j < k ==> (#[trigger] s[j]).1.address <= a,
        forall|j: int| k <= j < s.len() ==> (#[trigger] s[j]).1.address > a,
    ensures
        at_or_below(s, a) == k,
    decreases s.len(),
{
    if s.len() > 0 {
        let d = s.drop_last();
        if k == s.len() {
            lemma_at_or_below(d, a, k - 1);
        } else {
            lemma_at_or_below(d, a, k);
        }
    }
}

/// Collect the rows of an export table in ascending address order (rows
/// with the same address in table order).
fn rows_by_address(export: &Export<ModbusExportEntry>) -> (v: Vec<(String, ModbusExportEntry)>)
    ensures
        v@ == by_address(export.entries()),
        addresses_ascend(v@),
{
    let ghost rows = export.entries();
    let n = export.len();
    let mut v: Vec<(String, ModbusExportEntry)> = Vec::new();
    let mut i: usize = 0;
    while i < n
        invariant
            0 <= i <= n,
            n == rows.len(),
            rows == export.entries(),
            v@ == by_address(rows.subrange(0, i as int)),
            addresses_ascend(v@),
        decreases n - i,
    {
        let r = (export.id(i).clone(), export.entry(i));
        let a = r.1.address;
        let mut k: usize = 0;
        while k < v.len() && v[k].1.address <= a
            invariant
                0 <= k <= v@.len(),
                forall|j: int| 0 <= j < k ==> (#[trigger] v@[j]).1.address <= a,
            decreases v@.len() - k,
        {
            k = k + 1;
        }
        proof {
            assert forall|j: int| k <= j < v@.len() implies (#[trigger] v@[j]).1.address > a by {
                assert(v@[k as int].1.address > a);
                if j > k {
                    assert(v@[k as int].1.address <= v@[j].1.address);
                }
            }
            lemma_at_or_below(v@, a, k as int);
            assert(rows.subrange(0, i as int + 1).drop_last() =~= rows.subrange(0, i as int));
            assert(rows.subrange(0, i as int + 1).last() == rows[i as int]);
            assert(r == rows[i as int]);
        }
        let ghost before = v@;
        v.insert(k, r);
        proof {
            before.insert_ensures(k as int, r);
            assert forall|x: int, y: int| 0 <= x < y < v@.len() implies #[trigger] v@[x].1.address
                <= #[trigger] v@[y].1.address by {
                if y < k {
                    assert(v@[x] == before[x] && v@[y] == before[y]);
                } else if y == k {
                    assert(v@[x] == before[x]);
                } else if x < k {
                    assert(v@[x] == before[x] && v@[y] == before[y - 1]);
                } else if x == k {
                    assert(v@[y] == before[y - 1]);
                } else {
                    assert(v@[x] == before[x - 1] && v@[y] == before[y - 1]);
                }
            }
        }
        i = i + 1;
    }
    proof {
        assert(rows.subrange(0, n as int) =~= rows);
    }
    v
}

/// Number of rows among the first `n` that sit in table `s` and name a point.
pub open spec fn count_rows(
    pts: Seq<PointSpec>,
    rows: Seq<(String, ModbusExportEntry)>,
    n: int,
    s: ModbusExportSpace,
) -> nat
    decreases n,
{
    if n <= 0 {
        0
    } else {
        count_rows(pts, rows, n - 1, s) + if rows[n - 1].1.space == s && has_point(pts, rows[n - 1].0@) {
            1nat
        } else {
            0nat
        }
    }
}

/// Whether `table` holds, in row order, one register per row among the
/// first `n` of `rows` that sits in register table `s` and names a point.
pub open spec fn register_table_from(
    pts: Seq<PointSpec>,
    rows: Seq<(String, ModbusExportEntry)>,
    n: int,
    s: ModbusExportSpace,
    table: Seq<RegisterSpec>,
) -> bool {
    &&& table.len() == count_rows(pts, rows, n, s)
    &&& forall|i: int|
        0 <= i < n && (#[trigger] rows[i]).1.space == s && has_point(pts, rows[i].0@) ==> exists|k: int|
            first_point(pts, rows[i].0@, k) && reg_of_point(
                pts[k],
                rows[i].1.address,
                rows[i].1.scale,
                rows[i].1.data_type,
                table[count_rows(pts, rows, i, s) as int],
            )
}

/// Whether `table` holds, in row order, one coil per row among the first
/// `n` of `rows` that sits in bit table `s` and names a point.
pub open spec fn coil_table_from(
    pts: Seq<PointSpec>,
    rows: Seq<(String, ModbusExportEntry)>,
    n: int,
    s: ModbusExportSpace,
    table: Seq<CoilSpec>,
) -> bool {
    &&& table.len() == count_rows(pts, rows, n, s)
    &&& forall|i: int|
        0 <= i < n && (#[trigger] rows[i]).1.space == s && has_point(pts, rows[i].0@) ==> exists|k: int|
            first_point(pts, rows[i].0@, k) && coil_of_point(
                pts[k],
                rows[i].1.address,
                table[count_rows(pts, rows, i, s) as int],
            )
}

/// The register map a sequence of export rows implies: each row that names
/// a point becomes a cell of its table at its address, the cells of one
/// table in the order of `rows`.
pub open spec fn exported_cells(pts: Seq<PointSpec>, rows: Seq<(String, ModbusExportEntry)>, m: RegisterMapSpec) -> bool {
    let n = rows.len() as int;
    &&& register_table_from(pts, rows, n, ModbusExportSpace::Holding, m.holding@)
    &&& register_table_from(pts, rows, n, ModbusExportSpace::Input, m.input@)
    &&& coil_table_from(pts, rows, n, ModbusExportSpace::Coil, m.coils@)
    &&& coil_table_from(pts, rows, n, ModbusExportSpace::Discrete, m.discrete@)
}

proof fn lemma_count_rows_mono(
    pts: Seq<PointSpec>,
    rows: Seq<(String, ModbusExportEntry)>,
    a: int,
    b: int,
    s: ModbusExportSpace,
)
    requires
        0 <= a <= b,
    ensures
        count_rows(pts, rows, a, s) <= count_rows(pts, rows, b, s),
    decreases b - a,
{
    if a < b {
        lemma_count_rows_mono(pts, rows, a, b - 1, s);
    }
}

proof fn lemma_count_kind_mono(pts: Seq<PointSpec>, a: int, b: int, kind: PointKind)
    requires
        0 <= a <= b,
    ensures
        count_kind(pts, a, kind) <= count_kind(pts, b, kind),
    decreases b - a,
{
    if a < b {
        lemma_count_kind_mono(pts, a, b - 1, kind);
    }
}

/// Appending a register keeps the rows before `i` and adds row `i`.
proof fn lemma_register_step(
    pts: Seq<PointSpec>,
    rows: Seq<(String, ModbusExportEntry)>,
    i: int,
    s: ModbusExportSpace,
    table: Seq<RegisterSpec>,
    next: Seq<RegisterSpec>,
)
    requires
        0 <= i < rows.len(),
        register_table_from(pts, rows, i, s, table),
        (rows[i].1.space == s && has_point(pts, rows[i].0@)) ==> (exists|k: int|
            first_point(pts, rows[i].0@, k) && reg_of_point(
                pts[k],
                rows[i].1.address,
                rows[i].1.scale,
                rows[i].1.data_type,
                next.last(),
            )) && next == table.push(next.last()),
        !(rows[i].1.space == s && has_point(pts, rows[i].0@)) ==> next == table,
    ensures
        register_table_from(pts, rows, i + 1, s, next),
{
    assert forall|j: int|
        0 <= j < i + 1 && (#[trigger] rows[j]).1.space == s && has_point(pts, rows[j].0@) implies exists|k: int|
        first_point(pts, rows[j].0@, k) && reg_of_point(
            pts[k],
            rows[j].1.address,
            rows[j].1.scale,
            rows[j].1.data_type,
            next[count_rows(pts, rows, j, s) as int],
        ) by {
        if j < i {
            lemma_count_rows_mono(pts, rows, j + 1, i, s);
            assert(next[count_rows(pts, rows, j, s) as int] == table[count_rows(pts, rows, j, s) as int]);
        }
    }
}

/// Appending a coil keeps the rows before `i` and adds row `i`.
proof fn lemma_coil_step(
    pts: Seq<PointSpec>,
    rows: Seq<(String, ModbusExportEntry)>,
    i: int,
    s: ModbusExportSpace,
    table: Seq<CoilSpec>,
    next: Seq<CoilSpec>,
)
    requires
        0 <= i < rows.len(),
        coil_table_from(pts, rows, i, s, table),
        (rows[i].1.space == s && has_point(pts, rows[i].0@)) ==> (exists|k: int|
            first_point(pts, rows[i].0@, k) && coil_of_point(pts[k], rows[i].1.address, next.last()))
            && next == table.push(next.last()),
        !(rows[i].1.space == s && has_point(pts, rows[i].0@)) ==> next == table,
    ensures
        coil_table_from(pts, rows, i + 1, s, next),
{
    assert forall|j: int|
        0 <= j < i + 1 && (#[trigger] rows[j]).1.space == s && has_point(pts, rows[j].0@) implies exists|k: int|
        first_point(pts, rows[j].0@, k) && coil_of_point(
            pts[k],
            rows[j].1.address,
            next[count_rows(pts, rows, j, s) as int],
        ) by {
        if j < i {
            lemma_count_rows_mono(pts, rows, j + 1, i, s);
            assert(next[count_rows(pts, rows, j, s) as int] == table[count_rows(pts, rows, j, s) as int]);
        }
    }
}

/// Whether `m` holds no cells.
pub open spec fn empty_map(m: RegisterMapSpec) -> bool {
    m.holding@.len() == 0 && m.input@.len() == 0 && m.coils@.len() == 0 && m.discrete@.len() == 0
}

impl DeviceSpec {
    /// The engine cells a language 2 document implies: those its first
    /// non-empty Modbus export describes, each table in address order (rows
    /// with the same address in table order); with no Modbus binding at
    /// all, one private cell per point; with only empty Modbus exports, none.
    pub open spec fn cells(self, m: RegisterMapSpec) -> bool {
        let bs = self.bindings@;
        ||| exists|i: int|
            0 <= i < bs.len() && exports_modbus(#[trigger] bs[i]) && (forall|j: int|
                0 <= j < i ==> !exports_modbus(#[trigger] bs[j])) && exported_cells(
                self.points@,
                by_address(modbus_table(bs[i]).unwrap().entries()),
                m,
            ) && tables_ascend(m)
        ||| (forall|i: int| 0 <= i < bs.len() ==> !exports_modbus(#[trigger] bs[i])) && tables_ascend(m) && if exists|i: int|
            0 <= i < bs.len() && is_modbus(#[trigger] bs[i]) {
            empty_map(m)
        } else {
            backed_all(self.points@, m)
        }
    }
}

fn push_register(table: &mut Vec<RegisterSpec>, r: RegisterSpec)
    ensures
        final(table)@ == old(table)@.push(r),
{
    table.push(r);
}

fn push_coil(table: &mut Vec<CoilSpec>, c: CoilSpec)
    ensures
        final(table)@ == old(table)@.push(c),
{
    table.push(c);
}

/// Whether the addresses of a register table never decrease.
pub open spec fn regs_ascend(t: Seq<RegisterSpec>) -> bool {
    forall|i: int, j: int| 0 <= i < j < t.len() ==> #[trigger] t[i].address <= #[trigger] t[j].address
}

/// Whether the addresses of a coil table never decrease.
pub open spec fn coils_ascend(t: Seq<CoilSpec>) -> bool {
    forall|i: int, j: int| 0 <= i < j < t.len() ==> #[trigger] t[i].address <= #[trigger] t[j].address
}

/// Whether each of the four tables of `m` is in address order.
pub open spec fn tables_ascend(m: RegisterMapSpec) -> bool {
    &&& regs_ascend(m.holding@)
    &&& regs_ascend(m.input@)
    &&& coils_ascend(m.coils@)
    &&& coils_ascend(m.discrete@)
}

/// Every register of `t` sits at or below the address of row `i - 1` (none
/// when `i` is 0).
pub open spec fn regs_upto(t: Seq<RegisterSpec>, rows: Seq<(String, ModbusExportEntry)>, i: int) -> bool {
    &&& i == 0 ==> t.len() == 0
    &&& i > 0 ==> forall|k: int| 0 <= k < t.len() ==> (#[trigger] t[k]).address <= rows[i - 1].1.address
}

/// Every coil of `t` sits at or below the address of row `i - 1` (none when
/// `i` is 0).
pub open spec fn coils_upto(t: Seq<CoilSpec>, rows: Seq<(String, ModbusExportEntry)>, i: int) -> bool {
    &&& i == 0 ==> t.len() == 0
    &&& i > 0 ==> forall|k: int| 0 <= k < t.len() ==> (#[trigger] t[k]).address <= rows[i - 1].1.address
}

/// Cells for export rows in ascending address order: one per row that
/// names a point, each table in address order.
fn cells_from_rows(spec: &DeviceSpec, rows_v: &Vec<(String, ModbusExportEntry)>) -> (m: RegisterMapSpec)
    requires
        addresses_ascend(rows_v@),
    ensures
        exported_cells(spec.points@, rows_v@, m),
        tables_ascend(m),
{
    let ghost pts = spec.points@;
    let ghost rows = rows_v@;
    let mut m = RegisterMapSpec::empty();
    let n = rows_v.len();
    let mut i: usize = 0;
    while i < n
        invariant
            0 <= i <= n,
            n == rows.len(),
            rows == rows_v@,
            pts == spec.points@,
            addresses_ascend(rows),
            register_table_from(pts, rows, i as int, ModbusExportSpace::Holding, m.holding@),
            register_table_from(pts, rows, i as int, ModbusExportSpace::Input, m.input@),
            coil_table_from(pts, rows, i as int, ModbusExportSpace::Coil, m.coils@),
            coil_table_from(pts, rows, i as int, ModbusExportSpace::Discrete, m.discrete@),
            tables_ascend(m),
            regs_upto(m.holding@, rows, i as int),
            regs_upto(m.input@, rows, i as int),
            coils_upto(m.coils@, rows, i as int),
            coils_upto(m.discrete@, rows, i as int),
        decreases n - i,
    {
        let ghost h0 = m.holding@;
        let ghost i0 = m.input@;
        let ghost c0 = m.coils@;
        let ghost d0 = m.discrete@;
        let id = &rows_v[i].0;
        let e = rows_v[i].1;
        proof {
            if i > 0 {
                assert(rows[i as int - 1].1.address <= rows[i as int].1.address);
            }
        }
        match spec.point_index(id.as_str()) {
            None => {},
            Some(k) => {
                let p = &spec.points[k];
                assert(first_point(pts, rows[i as int].0@, k as int));
                match e.space {
                    ModbusExportSpace::Holding => {
                        push_register(&mut m.holding, register_for(p, e.address, e.scale, e.data_type));
                    },
                    ModbusExportSpace::Input => {
                        push_register(&mut m.input, register_for(p, e.address, e.scale, e.data_type));
                    },
                    ModbusExportSpace::Coil => {
                        push_coil(&mut m.coils, coil_for(p, e.address));
                    },
                    ModbusExportSpace::Discrete => {
                        push_coil(&mut m.discrete, coil_for(p, e.address));
                    },
                }
            },
        }
        proof {
            lemma_register_step(pts, rows, i as int, ModbusExportSpace::Holding, h0, m.holding@);
            lemma_register_step(pts, rows, i as int, ModbusExportSpace::Input, i0, m.input@);
            lemma_coil_step(pts, rows, i as int, ModbusExportSpace::Coil, c0, m.coils@);
            lemma_coil_step(pts, rows, i as int, ModbusExportSpace::Discrete, d0, m.discrete@);
            let a = rows[i as int].1.address;
            assert forall|k: int| 0 <= k < m.holding@.len() implies (#[trigger] m.holding@[k]).address <= a by {
                if k < h0.len() {
                    assert(m.holding@[k] == h0[k]);
                }
            }
            assert forall|k: int| 0 <= k < m.input@.len() implies (#[trigger] m.input@[k]).address <= a by {
                if k < i0.len() {
                    assert(m.input@[k] == i0[k]);
                }
            }
            assert forall|k: int| 0 <= k < m.coils@.len() implies (#[trigger] m.coils@[k]).address <= a by {
                if k < c0.len() {
                    assert(m.coils@[k] == c0[k]);
                }
            }
            assert forall|k: int| 0 <= k < m.discrete@.len() implies (#[trigger] m.discrete@[k]).address <= a by {
                if k < d0.len() {
                    assert(m.discrete@[k] == d0[k]);
                }
            }
            assert(regs_ascend(m.holding@)) by {
                assert forall|x: int, y: int| 0 <= x < y < m.holding@.len() implies #[trigger] m.holding@[x].address
                    <= #[trigger] m.holding@[y].address by {
                    if y < h0.len() {
                        assert(m.holding@[x] == h0[x] && m.holding@[y] == h0[y]);
                    } else {
                        assert(m.holding@[x] == h0[x]);
                    }
                }
            }
            assert(regs_ascend(m.input@)) by {
                assert forall|x: int, y: int| 0 <= x < y < m.input@.len() implies #[trigger] m.input@[x].address
                    <= #[trigger] m.input@[y].address by {
                    if y < i0.len() {
                        assert(m.input@[x] == i0[x] && m.input@[y] == i0[y]);
                    } else {
                        assert(m.input@[x] == i0[x]);
                    }
                }
            }
            assert(coils_ascend(m.coils@)) by {
                assert forall|x: int, y: int| 0 <= x < y < m.coils@.len() implies #[trigger] m.coils@[x].address
                    <= #[trigger] m.coils@[y].address by {
                    if y < c0.len() {
                        assert(m.coils@[x] == c0[x] && m.coils@[y] == c0[y]);
                    } else {
                        assert(m.coils@[x] == c0[x]);
                    }
                }
            }
            assert(coils_ascend(m.discrete@)) by {
                assert forall|x: int, y: int| 0 <= x < y < m.discrete@.len() implies #[trigger] m.discrete@[x].address
                    <= #[trigger] m.discrete@[y].address by {
                    if y < d0.len() {
                        assert(m.discrete@[x] == d0[x] && m.discrete@[y] == d0[y]);
                    } else {
                        assert(m.discrete@[x] == d0[x]);
                    }
                }
            }
        }
        i = i + 1;
    }
    m
}

/// The engine cells of a language 2 document, each table ordered by
/// address so that it reads like a register map.
pub fn materialize_registers(spec: &DeviceSpec) -> (m: RegisterMapSpec)
    ensures
        spec.cells(m),
{
    match first_modbus_export(&spec.bindings) {
        None => {
            if !has_modbus_binding(&spec.bindings) {
                back_all_points(&spec.points)
            } else {
                RegisterMapSpec::empty()
            }
        },
        Some(export) => {
            let rows = rows_by_address(export);
            cells_from_rows(spec, &rows)
        },
    }
}

/// The points a language 1 register map stands for: holding registers as
/// analog values, input registers as analog inputs, coils as binary inputs
/// when they have a trigger and binary values otherwise, discrete inputs as
/// binary inputs, in that order.
pub open spec fn lifted_points(m: RegisterMapSpec, pts: Seq<PointSpec>) -> bool {
    let h = m.holding@;
    let n = m.input@;
    let c = m.coils@;
    let d = m.discrete@;
    &&& pts.len() == h.len() + n.len() + c.len() + d.len()
    &&& forall|k: int| 0 <= k < h.len() ==> PointSpec::of_register(#[trigger] h[k], PointClass::Value, pts[k])
    &&& forall|k: int|
        0 <= k < n.len() ==> PointSpec::of_register(#[trigger] n[k], PointClass::Input, pts[h.len() + k])
    &&& forall|k: int|
        0 <= k < c.len() ==> PointSpec::of_coil(
            #[trigger] c[k],
            if c[k].trigger is Some {
                PointClass::Input
            } else {
                PointClass::Value
            },
            pts[h.len() + n.len() + k],
        )
    &&& forall|k: int|
        0 <= k < d.len() ==> PointSpec::of_coil(#[trigger] d[k], PointClass::Input, pts[h.len() + n.len() + c.len() + k])
}

/// Whether two documents agree on everything but their points and OPC UA
/// naming.
pub open spec fn same_document(a: DeviceSpec, b: DeviceSpec) -> bool {
    &&& a.name == b.name
    &&& a.spec_version == b.spec_version
    &&& a.version == b.version
    &&& a.device_type == b.device_type
    &&& a.description == b.description
    &&& a.identity == b.identity
    &&& a.modbus == b.modbus
    &&& a.registers == b.registers
    &&& a.alarms == b.alarms
    &&& a.bindings == b.bindings
    &&& a.scenarios == b.scenarios
}

fn push_point(v: &mut Vec<PointSpec>, p: PointSpec)
    ensures
        final(v)@ == old(v)@.push(p),
{
    v.push(p);
}

/// Lift a language 1 register map into canonical points.
pub fn lift_v1(spec: &mut DeviceSpec)
    ensures
        same_document(*final(spec), *old(spec)),
        final(spec).ua_naming == UaNaming::SpacePrefix,
        lifted_points(final(spec).registers, final(spec).points@),
{
    spec.ua_naming = UaNaming::SpacePrefix;
    spec.points = Vec::new();
    let ghost h = spec.registers.holding@;
    let ghost n = spec.registers.input@;
    let ghost c = spec.registers.coils@;
    let ghost d = spec.registers.discrete@;
    let mut i: usize = 0;
    while i < spec.registers.holding.len()
        invariant
            same_document(*spec, *old(spec)),
            spec.ua_naming == UaNaming::SpacePrefix,
            h == spec.registers.holding@,
            0 <= i <= h.len(),
            spec.points@.len() == i,
            forall|k: int| 0 <= k < i ==> PointSpec::of_register(#[trigger] h[k], PointClass::Value, spec.points@[k]),
        decreases h.len() - i,
    {
        let p = PointSpec::from_register(&spec.registers.holding[i], PointClass::Value);
        push_point(&mut spec.points, p);
        i = i + 1;
    }
    let mut i: usize = 0;
    while i < spec.registers.input.len()
        invariant
            same_document(*spec, *old(spec)),
            spec.ua_naming == UaNaming::SpacePrefix,
            h == spec.registers.holding@,
            n == spec.registers.input@,
            0 <= i <= n.len(),
            spec.points@.len() == h.len() + i,
            forall|k: int| 0 <= k < h.len() ==> PointSpec::of_register(#[trigger] h[k], PointClass::Value, spec.points@[k]),
            forall|k: int|
                0 <= k < i ==> PointSpec::of_register(#[trigger] n[k], PointClass::Input, spec.points@[h.len() + k]),
        decreases n.len() - i,
    {
        let p = PointSpec::from_register(&spec.registers.input[i], PointClass::Input);
        push_point(&mut spec.points, p);
        i = i + 1;
    }
    let mut i: usize = 0;
    while i < spec.registers.coils.len()
        invariant
            same_document(*spec, *old(spec)),
            spec.ua_naming == UaNaming::SpacePrefix,
            h == spec.registers.holding@,
            n == spec.registers.input@,
            c == spec.registers.coils@,
            0 <= i <= c.len(),
            spec.points@.len() == h.len() + n.len() + i,
            forall|k: int| 0 <= k < h.len() ==> PointSpec::of_register(#[trigger] h[k], PointClass::Value, spec.points@[k]),
            forall|k: int|
                0 <= k < n.len() ==> PointSpec::of_register(#[trigger] n[k], PointClass::Input, spec.points@[h.len() + k]),
            forall|k: int|
                0 <= k < i ==> PointSpec::of_coil(
                    #[trigger] c[k],
                    if c[k].trigger is Some {
                        PointClass::Input
                    } else {
                        PointClass::Value
                    },
                    spec.points@[h.len() + n.len() + k],
                ),
        decreases c.len() - i,
    {
        let coil = &spec.registers.coils[i];
        let class = if coil.trigger.is_some() {
            PointClass::Input
        } else {
            PointClass::Value
        };
        let p = PointSpec::from_coil(coil, class);
        push_point(&mut spec.points, p);
        i = i + 1;
    }
    let mut i: usize = 0;
    while i < spec.registers.discrete.len()
        invariant
            same_document(*spec, *old(spec)),
            spec.ua_naming == UaNaming::SpacePrefix,
            h == spec.registers.holding@,
            n == spec.registers.input@,
            c == spec.registers.coils@,
            d == spec.registers.discrete@,
            0 <= i <= d.len(),
            spec.points@.len() == h.len() + n.len() + c.len() + i,
            forall|k: int| 0 <= k < h.len() ==> PointSpec::of_register(#[trigger] h[k], PointClass::Value, spec.points@[k]),
            forall|k: int|
                0 <= k < n.len() ==> PointSpec::of_register(#[trigger] n[k], PointClass::Input, spec.points@[h.len() + k]),
            forall|k: int|
                0 <= k < c.len() ==> PointSpec::of_coil(
                    #[trigger] c[k],
                    if c[k].trigger is Some {
                        PointClass::Input
                    } else {
                        PointClass::Value
                    },
                    spec.points@[h.len() + n.len() + k],
                ),
            forall|k: int|
                0 <= k < i ==> PointSpec::of_coil(
                    #[trigger] d[k],
                    PointClass::Input,
                    spec.points@[h.len() + n.len() + c.len() + k],
                ),
        decreases d.len() - i,
    {
        let p = PointSpec::from_coil(&spec.registers.discrete[i], PointClass::Input);
        push_point(&mut spec.points, p);
        i = i + 1;
    }
}

/// A language 1 document after the lift.
pub fn finish_v1(spec: DeviceSpec) -> (r: DeviceSpec)
    ensures
        same_document(r, spec),
        r.ua_naming == UaNaming::SpacePrefix,
        lifted_points(r.registers, r.points@),
{
    let mut spec = spec;
    lift_v1(&mut spec);
    spec
}

} // verus!
