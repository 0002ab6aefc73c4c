//! What a device publishes over BACnet/IP: its device object, one object
//! per exported point, which objects accept field writes, and the notes
//! `simbus check` prints about questionable exports.

use vstd::prelude::*;

use crate::device::{BindingSpec, DeviceSpec, PointSpec, first_point, has_point};
use crate::export::BacnetExportEntry;
use crate::text::{push_str, string_of};
use crate::types::{BacnetObjectType, PointKind};

verus! {

/// Whether a binding is a BACnet/IP binding.
pub open spec fn is_bacnet(b: BindingSpec) -> bool {
    b is BacnetIp
}

/// Export rows of a BACnet/IP binding.
pub open spec fn bacnet_rows(b: BindingSpec) -> Seq<(String, BacnetExportEntry)> {
    match b {
        BindingSpec::BacnetIp { export, .. } => export.entries(),
        _ => Seq::empty(),
    }
}

/// The BACnet export of a device: the rows of its first BACnet/IP
/// binding, or none.
pub open spec fn first_bacnet_rows(bs: Seq<BindingSpec>) -> Seq<(String, BacnetExportEntry)> {
    if exists|i: int| 0 <= i < bs.len() && is_bacnet(#[trigger] bs[i]) {
        let i = choose|i: int|
            0 <= i < bs.len() && is_bacnet(#[trigger] bs[i]) && forall|j: int| 0 <= j < i ==> !is_bacnet(#[trigger] bs[j]);
        bacnet_rows(bs[i])
    } else {
        Seq::empty()
    }
}

/// Export rows of the first BACnet/IP binding.
pub fn bacnet_export(spec: &DeviceSpec) -> (r: Vec<(String, BacnetExportEntry)>)
    ensures
        (exists|i: int|
            0 <= i < spec.bindings@.len() && is_bacnet(#[trigger] spec.bindings@[i]) && (forall|j: int|
                0 <= j < i ==> !is_bacnet(#[trigger] spec.bindings@[j])) && r@ == bacnet_rows(spec.bindings@[i]))
            || ((forall|i: int| 0 <= i < spec.bindings@.len() ==> !is_bacnet(#[trigger] spec.bindings@[i]))
            && r@.len() == 0),
{
    let mut i: usize = 0;
    while i < spec.bindings.len()
        invariant
            0 <= i <= spec.bindings@.len(),
            forall|j: int| 0 <= j < i ==> !is_bacnet(#[trigger] spec.bindings@[j]),
        decreases spec.bindings@.len() - i,
    {
        if let BindingSpec::BacnetIp { export, .. } = &spec.bindings[i] {
            let mut rows: Vec<(String, BacnetExportEntry)> = Vec::new();
            let n = export.len();
            let mut k: usize = 0;
            while k < n
                invariant
                    0 <= k <= n,
                    n == export.entries().len(),
                    rows@ == export.entries().subrange(0, k as int),
                decreases n - k,
            {
                rows.push((export.id(k).clone(), export.entry(k)));
                k = k + 1;
            }
            assert(rows@ =~= export.entries());
            assert(is_bacnet(spec.bindings@[i as int]));
            return rows;
        }
        i = i + 1;
    }
    Vec::new()
}

/// The BACnet/IP listener a device asks for: the port and device instance
/// of its first BACnet/IP binding.
pub fn bacnet_listener(spec: &DeviceSpec) -> (r: Option<(u16, u32)>)
    ensures
        match r {
            Some((port, instance)) => exists|i: int|
                0 <= i < spec.bindings@.len() && is_bacnet(#[trigger] spec.bindings@[i]) && (forall|j: int|
                    0 <= j < i ==> !is_bacnet(#[trigger] spec.bindings@[j])) && (spec.bindings@[i] matches BindingSpec::BacnetIp { port: p, device_instance: d, .. } && p == port
                    && d == instance),
            None => forall|i: int| 0 <= i < spec.bindings@.len() ==> !is_bacnet(#[trigger] spec.bindings@[i]),
        },
{
    let mut i: usize = 0;
    while i < spec.bindings.len()
        invariant
            0 <= i <= spec.bindings@.len(),
            forall|j: int| 0 <= j < i ==> !is_bacnet(#[trigger] spec.bindings@[j]),
        decreases spec.bindings@.len() - i,
    {
        if let BindingSpec::BacnetIp { port, device_instance, .. } = &spec.bindings[i] {
            return Some((*port, *device_instance));
        }
        i = i + 1;
    }
    None
}

/// Whether field writes to Present_Value of an object are taken over by
/// the device (values, outputs) rather than ignored (inputs).
pub fn writable(object: BacnetObjectType) -> (b: bool)
    ensures
        b == object.is_commandable(),
{
    match object {
        BacnetObjectType::AnalogValue | BacnetObjectType::AnalogOutput | BacnetObjectType::BinaryValue
        | BacnetObjectType::BinaryOutput => true,
        _ => false,
    }
}

/// One BACnet object to publish.
#[derive(Debug, Clone, PartialEq, Eq)]
pub struct BacnetObjectPlan {
    /// Object type.
    pub object: BacnetObjectType,
    /// Object instance.
    pub instance: u32,
    /// Object name: the point id.
    pub name: String,
    /// Object description: the point's description.
    pub description: String,
    /// Point kind.
    pub kind: PointKind,
}

/// The object that publishes export row `row`, when it names a point.
pub open spec fn plan_for(spec: DeviceSpec, row: (String, BacnetExportEntry)) -> Seq<BacnetObjectPlan> {
    if has_point(spec.points@, row.0@) {
        let p = spec.points@[choose|k: int| first_point(spec.points@, row.0@, k)];
        seq![
            BacnetObjectPlan {
                object: row.1.object,
                instance: row.1.instance,
                name: row.0,
                description: p.description,
                kind: p.kind,
            },
        ]
    } else {
        Seq::empty()
    }
}

/// Objects for the first `n` rows.
pub open spec fn plans(spec: DeviceSpec, rows: Seq<(String, BacnetExportEntry)>, n: int) -> Seq<BacnetObjectPlan>
    decreases n,
{
    if n <= 0 {
        Seq::empty()
    } else {
        plans(spec, rows, n - 1) + plan_for(spec, rows[n - 1])
    }
}

/// Objects to publish: one per export row that names a point, in row order.
pub fn bacnet_objects(spec: &DeviceSpec, rows: &Vec<(String, BacnetExportEntry)>) -> (r: Vec<BacnetObjectPlan>)
    ensures
        r@ == plans(*spec, rows@, rows@.len() as int),
{
    let mut r: Vec<BacnetObjectPlan> = Vec::new();
    let mut i: usize = 0;
    while i < rows.len()
        invariant
            0 <= i <= rows@.len(),
            r@ == plans(*spec, rows@, i as int),
        decreases rows@.len() - i,
    {
        let (id, entry) = &rows[i];
        match spec.point_index(id.as_str()) {
            Some(p) => {
                let point = &spec.points[p];
                proof {
                    let c = choose|c: int| first_point(spec.points@, rows@[i as int].0@, c);
                    crate::device::lemma_first_point_unique(spec.points@, rows@[i as int].0@, c, p as int);
                }
                r.push(
                    BacnetObjectPlan {
                        object: entry.object,
                        instance: entry.instance,
                        name: id.clone(),
                        description: point.description.clone(),
                        kind: point.kind,
                    },
                );
            },
            None => {},
        }
        proof {
            assert(r@ =~= plans(*spec, rows@, i as int + 1));
        }
        i = i + 1;
    }
    r
}

/// Settings of the BACnet device object.
#[derive(Debug, Clone, PartialEq, Eq)]
pub struct BacnetDevicePlan {
    /// Device instance.
    pub instance: u32,
    /// Object name: the device name.
    pub name: String,
    /// Vendor name, when the identity sets one.
    pub vendor_name: Option<String>,
    /// Model name, when the identity sets a product.
    pub model_name: Option<String>,
    /// Firmware revision, when the identity sets a revision.
    pub firmware_revision: Option<String>,
    /// Description.
    pub description: String,
}

/// `Some(s)` for a non-empty string, `None` for an empty one.
pub open spec fn non_empty(s: String) -> Option<String> {
    if s@.len() == 0 {
        None
    } else {
        Some(s)
    }
}

fn non_empty_copy(s: &String) -> (r: Option<String>)
    ensures
        r == non_empty(*s),
{
    if s.as_str().is_empty() {
        None
    } else {
        Some(s.clone())
    }
}

/// Settings of the BACnet device object of a device.
pub fn device_plan(spec: &DeviceSpec, instance: u32) -> (r: BacnetDevicePlan)
    ensures
        r.instance == instance,
        r.name == spec.name,
        r.vendor_name == non_empty(spec.identity.vendor),
        r.model_name == non_empty(spec.identity.product),
        r.firmware_revision == non_empty(spec.identity.revision),
        r.description == spec.description,
{
    BacnetDevicePlan {
        instance,
        name: spec.name.clone(),
        vendor_name: non_empty_copy(&spec.identity.vendor),
        model_name: non_empty_copy(&spec.identity.product),
        firmware_revision: non_empty_copy(&spec.identity.revision),
        description: spec.description.clone(),
    }
}

/// Note printed when an exported object type does not match the point.
pub open spec fn mismatch_note(id: Seq<char>, e: BacnetExportEntry, p: PointSpec) -> Seq<char> {
    "bacnet export '"@ + id + "' is "@ + e.object.wire_name() + " but point is "@ + p.kind.wire_name() + " "@
        + p.class.wire_name()
}

/// Note printed when an exported point has no engine cell.
pub open spec fn unbacked_note(id: Seq<char>) -> Seq<char> {
    "bacnet export '"@ + id + "' has no engine cell: this document binds Modbus but does not export '"@ + id
        + "' there"@
}

/// Notes for one export row.
pub open spec fn row_notes(spec: DeviceSpec, row: (String, BacnetExportEntry)) -> Seq<Seq<char>> {
    if has_point(spec.points@, row.0@) {
        let p = spec.points@[choose|k: int| first_point(spec.points@, row.0@, k)];
        (if row.1.object.kind() == p.kind && row.1.object.class() == p.class {
            Seq::empty()
        } else {
            seq![mismatch_note(row.0@, row.1, p)]
        }) + (if spec.backs(row.0@) {
            Seq::empty()
        } else {
            seq![unbacked_note(row.0@)]
        })
    } else {
        Seq::empty()
    }
}

/// Notes for the first `n` rows.
pub open spec fn rows_notes(spec: DeviceSpec, rows: Seq<(String, BacnetExportEntry)>, n: int) -> Seq<Seq<char>>
    decreases n,
{
    if n <= 0 {
        Seq::empty()
    } else {
        rows_notes(spec, rows, n - 1) + row_notes(spec, rows[n - 1])
    }
}

/// Notes for the first `n` bindings.
pub open spec fn bindings_notes(spec: DeviceSpec, n: int) -> Seq<Seq<char>>
    decreases n,
{
    if n <= 0 {
        Seq::empty()
    } else {
        let rows = bacnet_rows(spec.bindings@[n - 1]);
        bindings_notes(spec, n - 1) + rows_notes(spec, rows, rows.len() as int)
    }
}

/// The texts of a list of strings.
pub open spec fn texts(v: Seq<String>) -> Seq<Seq<char>> {
    v.map_values(|s: String| s@)
}

proof fn lemma_texts_push(v: Seq<String>, s: String)
    ensures
        texts(v.push(s)) == texts(v).push(s@),
{
    assert(texts(v.push(s)) =~= texts(v).push(s@));
}

impl DeviceSpec {
    /// Notes on BACnet exports whose object type does not match the point's
    /// kind and class, or whose point has no engine cell (the document binds
    /// Modbus but does not export that point there), for every BACnet/IP
    /// binding and row, in order.
    pub fn bacnet_export_warnings(&self) -> (r: Vec<String>)
        ensures
            texts(r@) == bindings_notes(*self, self.bindings@.len() as int),
    {
        let mut out: Vec<String> = Vec::new();
        let mut b: usize = 0;
        while b < self.bindings.len()
            invariant
                0 <= b <= self.bindings@.len(),
                texts(out@) == bindings_notes(*self, b as int),
            decreases self.bindings@.len() - b,
        {
            if let BindingSpec::BacnetIp { export, .. } = &self.bindings[b] {
                let ghost rows = export.entries();
                let ghost start = texts(out@);
                let n = export.len();
                let mut k: usize = 0;
                while k < n
                    invariant
                        0 <= k <= n,
                        n == rows.len(),
                        rows == export.entries(),
                        texts(out@) == start + rows_notes(*self, rows, k as int),
                    decreases n - k,
                {
                    let id = export.id(k);
                    let entry = export.entry(k);
                    let ghost before = texts(out@);
                    match self.point_index(id.as_str()) {
                        Some(p) => {
                            let point = &self.points[p];
                            proof {
                                let c = choose|c: int| first_point(self.points@, rows[k as int].0@, c);
                                crate::device::lemma_first_point_unique(self.points@, rows[k as int].0@, c, p as int);
                            }
                            let ghost mid = before;
                            if !entry.object.matches_point(point.kind, point.class) {
                                let mut s = string_of("bacnet export '");
                                push_str(&mut s, id.as_str());
                                push_str(&mut s, "' is ");
                                push_str(&mut s, entry.object.as_str());
                                push_str(&mut s, " but point is ");
                                push_str(&mut s, point.kind.as_str());
                                push_str(&mut s, " ");
                                push_str(&mut s, point.class.as_str());
                                proof {
                                    lemma_texts_push(out@, s);
                                }
                                out.push(s);
                            }
                            let ghost mid2 = texts(out@);
                            if !self.point_is_backed(id.as_str()) {
                                let mut s = string_of("bacnet export '");
                                push_str(&mut s, id.as_str());
                                push_str(&mut s, "' has no engine cell: this document binds Modbus but does not export '");
                                push_str(&mut s, id.as_str());
                                push_str(&mut s, "' there");
                                proof {
                                    lemma_texts_push(out@, s);
                                }
                                out.push(s);
                            }
                            proof {
                                assert(texts(out@) =~= before + row_notes(*self, rows[k as int]));
                            }
                        },
                        None => {
                            proof {
                                assert(row_notes(*self, rows[k as int]) =~= Seq::<Seq<char>>::empty());
                                assert(texts(out@) =~= before + row_notes(*self, rows[k as int]));
                            }
                        },
                    }
                    proof {
                        assert(texts(out@) =~= start + rows_notes(*self, rows, k as int + 1));
                    }
                    k = k + 1;
                }
                proof {
                    assert(bacnet_rows(self.bindings@[b as int]) == rows);
                }
            } else {
                proof {
                    assert(bacnet_rows(self.bindings@[b as int]) =~= Seq::<(String, BacnetExportEntry)>::empty());
                    assert(texts(out@) =~= bindings_notes(*self, b as int + 1));
                }
            }
            b = b + 1;
        }
        out
    }
}

} // verus!
