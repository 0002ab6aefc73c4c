//! What a device publishes over OPC UA: the server's identity and one
//! variable per register, coil and discrete input, grouped in four folders.

use vstd::prelude::*;

use crate::device::{CoilSpec, DeviceSpec, RegisterSpec};
use crate::text::{decimal, push_decimal, push_str, string_of};

verus! {

/// Folder of a variable.
#[derive(Debug, Clone, Copy, PartialEq, Eq, Structural)]
pub enum UaFolder {
    /// Holding registers.
    Holding,
    /// Input registers.
    Input,
    /// Coils.
    Coils,
    /// Discrete inputs.
    Discrete,
}

impl UaFolder {
    /// Browse name of the folder.
    pub open spec fn title(self) -> Seq<char> {
        match self {
            UaFolder::Holding => "Holding"@,
            UaFolder::Input => "Input"@,
            UaFolder::Coils => "Coils"@,
            UaFolder::Discrete => "Discrete"@,
        }
    }

    /// Prefix of the node ids in the folder.
    pub open spec fn prefix(self) -> Seq<char> {
        match self {
            UaFolder::Holding => "holding"@,
            UaFolder::Input => "input"@,
            UaFolder::Coils => "coils"@,
            UaFolder::Discrete => "discrete"@,
        }
    }

    /// Browse name of the folder.
    pub fn browse_name(self) -> (s: &'static str)
        ensures
            s@ == self.title(),
    {
        match self {
            UaFolder::Holding => "Holding",
            UaFolder::Input => "Input",
            UaFolder::Coils => "Coils",
            UaFolder::Discrete => "Discrete",
        }
    }

    /// Prefix of the node ids in the folder.
    pub fn id_prefix(self) -> (s: &'static str)
        ensures
            s@ == self.prefix(),
    {
        match self {
            UaFolder::Holding => "holding",
            UaFolder::Input => "input",
            UaFolder::Coils => "coils",
            UaFolder::Discrete => "discrete",
        }
    }

    /// Whether clients may write the variables of the folder.
    pub open spec fn writable(self) -> bool {
        self == UaFolder::Holding || self == UaFolder::Coils
    }

    /// Whether the variables of the folder are numbers (else booleans).
    pub open spec fn numeric(self) -> bool {
        self == UaFolder::Holding || self == UaFolder::Input
    }
}

/// One published variable.
#[derive(Debug, Clone, PartialEq, Eq)]
pub struct UaNode {
    /// Folder.
    pub folder: UaFolder,
    /// String node id (`holding/temperature`).
    pub node_id: String,
    /// Browse and display name.
    pub name: String,
    /// Float variable (registers) or boolean (coils, discrete inputs).
    pub numeric: bool,
    /// Whether clients may write it.
    pub writable: bool,
    /// Address of the backing register or bit.
    pub address: u16,
}

/// The variable for a cell called `name` at `address` in folder `f`.
pub open spec fn node_for(f: UaFolder, name: String, address: u16, n: UaNode) -> bool {
    &&& n.folder == f
    &&& n.node_id@ == f.prefix() + "/"@ + name@
    &&& n.name == name
    &&& n.numeric == f.numeric()
    &&& n.writable == f.writable()
    &&& n.address == address
}

fn make_node(f: UaFolder, name: &String, address: u16) -> (n: UaNode)
    ensures
        node_for(f, *name, address, n),
{
    let mut id = string_of(f.id_prefix());
    push_str(&mut id, "/");
    push_str(&mut id, name.as_str());
    UaNode {
        folder: f,
        node_id: id,
        name: name.clone(),
        numeric: f == UaFolder::Holding || f == UaFolder::Input,
        writable: f == UaFolder::Holding || f == UaFolder::Coils,
        address,
    }
}

fn register_nodes(out: &mut Vec<UaNode>, f: UaFolder, regs: &Vec<RegisterSpec>)
    ensures
        final(out)@.len() == old(out)@.len() + regs@.len(),
        forall|k: int| 0 <= k < old(out)@.len() ==> #[trigger] final(out)@[k] == old(out)@[k],
        forall|k: int|
            0 <= k < regs@.len() ==> node_for(
                f,
                regs@[k].name,
                regs@[k].address,
                #[trigger] final(out)@[old(out)@.len() + k],
            ),
{
    let ghost start = out@;
    let mut i: usize = 0;
    while i < regs.len()
        invariant
            0 <= i <= regs@.len(),
            out@.len() == start.len() + i,
            forall|k: int| 0 <= k < start.len() ==> #[trigger] out@[k] == start[k],
            forall|k: int|
                0 <= k < i ==> node_for(f, regs@[k].name, regs@[k].address, #[trigger] out@[start.len() + k]),
        decreases regs@.len() - i,
    {
        out.push(make_node(f, &regs[i].name, regs[i].address));
        i = i + 1;
    }
}

fn coil_nodes(out: &mut Vec<UaNode>, f: UaFolder, coils: &Vec<CoilSpec>)
    ensures
        final(out)@.len() == old(out)@.len() + coils@.len(),
        forall|k: int| 0 <= k < old(out)@.len() ==> #[trigger] final(out)@[k] == old(out)@[k],
        forall|k: int|
            0 <= k < coils@.len() ==> node_for(
                f,
                coils@[k].name,
                coils@[k].address,
                #[trigger] final(out)@[old(out)@.len() + k],
            ),
{
    let ghost start = out@;
    let mut i: usize = 0;
    while i < coils.len()
        invariant
            0 <= i <= coils@.len(),
            out@.len() == start.len() + i,
            forall|k: int| 0 <= k < start.len() ==> #[trigger] out@[k] == start[k],
            forall|k: int|
                0 <= k < i ==> node_for(f, coils@[k].name, coils@[k].address, #[trigger] out@[start.len() + k]),
        decreases coils@.len() - i,
    {
        out.push(make_node(f, &coils[i].name, coils[i].address));
        i = i + 1;
    }
}

/// Variables of a device: holding registers (writable floats), input
/// registers (read-only floats), coils (writable booleans), discrete inputs
/// (read-only booleans), each table in order.
pub fn ua_nodes(spec: &DeviceSpec) -> (r: Vec<UaNode>)
    ensures
        ({
            let h = spec.registers.holding@;
            let n = spec.registers.input@;
            let c = spec.registers.coils@;
            let d = spec.registers.discrete@;
            &&& r@.len() == h.len() + n.len() + c.len() + d.len()
            &&& forall|k: int|
                0 <= k < h.len() ==> node_for(UaFolder::Holding, h[k].name, h[k].address, #[trigger] r@[k])
            &&& forall|k: int|
                0 <= k < n.len() ==> node_for(UaFolder::Input, n[k].name, n[k].address, #[trigger] r@[h.len() + k])
            &&& forall|k: int|
                0 <= k < c.len() ==> node_for(
                    UaFolder::Coils,
                    c[k].name,
                    c[k].address,
                    #[trigger] r@[h.len() + n.len() + k],
                )
            &&& forall|k: int|
                0 <= k < d.len() ==> node_for(
                    UaFolder::Discrete,
                    d[k].name,
                    d[k].address,
                    #[trigger] r@[h.len() + n.len() + c.len() + k],
                )
        }),
{
    let mut r: Vec<UaNode> = Vec::new();
    let ghost r0 = r@;
    register_nodes(&mut r, UaFolder::Holding, &spec.registers.holding);
    let ghost r1 = r@;
    register_nodes(&mut r, UaFolder::Input, &spec.registers.input);
    let ghost r2 = r@;
    coil_nodes(&mut r, UaFolder::Coils, &spec.registers.coils);
    let ghost r3 = r@;
    coil_nodes(&mut r, UaFolder::Discrete, &spec.registers.discrete);
    proof {
        let h = spec.registers.holding@;
        let n = spec.registers.input@;
        let c = spec.registers.coils@;
        assert forall|k: int| 0 <= k < h.len() implies node_for(
            UaFolder::Holding,
            h[k].name,
            h[k].address,
            #[trigger] r@[k],
        ) by {
            assert(r0.len() == 0);
            assert(node_for(UaFolder::Holding, h[k].name, h[k].address, r1[r0.len() + k]));
            assert(r@[k] == r3[k] && r3[k] == r2[k] && r2[k] == r1[k]);
        }
        assert forall|k: int| 0 <= k < n.len() implies node_for(
            UaFolder::Input,
            n[k].name,
            n[k].address,
            #[trigger] r@[h.len() + k],
        ) by {
            assert(r@[h.len() + k] == r3[h.len() + k] && r3[h.len() + k] == r2[h.len() + k]);
        }
        assert forall|k: int| 0 <= k < c.len() implies node_for(
            UaFolder::Coils,
            c[k].name,
            c[k].address,
            #[trigger] r@[h.len() + n.len() + k],
        ) by {
            assert(r@[h.len() + n.len() + k] == r3[h.len() + n.len() + k]);
        }
    }
    r
}

/// Identity an OPC UA server announces for a device.
#[derive(Debug, Clone, PartialEq, Eq)]
pub struct UaIdentity {
    /// Namespace and product URI (`urn:simbus:{type}`).
    pub namespace_uri: String,
    /// Application name: the device name.
    pub application_name: String,
    /// Manufacturer: the identity's vendor.
    pub manufacturer: String,
    /// Product: the identity's product, or the device name.
    pub product: String,
    /// Software version: the identity's revision.
    pub software_version: String,
    /// Discovery URLs on every interface and on loopback.
    pub discovery_urls: Vec<String>,
}

/// Identity an OPC UA server on `port` announces for a device.
pub fn ua_identity(spec: &DeviceSpec, port: u16) -> (r: UaIdentity)
    ensures
        r.namespace_uri@ == "urn:simbus:"@ + spec.device_type@,
        r.application_name == spec.name,
        r.manufacturer == spec.identity.vendor,
        r.product == if spec.identity.product@.len() == 0 {
            spec.name
        } else {
            spec.identity.product
        },
        r.software_version == spec.identity.revision,
        r.discovery_urls@.len() == 2,
        r.discovery_urls@[0]@ == "opc.tcp://0.0.0.0:"@ + decimal(port as nat) + "/"@,
        r.discovery_urls@[1]@ == "opc.tcp://127.0.0.1:"@ + decimal(port as nat) + "/"@,
{
    let mut ns = string_of("urn:simbus:");
    push_str(&mut ns, spec.device_type.as_str());
    let mut any = string_of("opc.tcp://0.0.0.0:");
    push_decimal(&mut any, port as u64);
    push_str(&mut any, "/");
    let mut local = string_of("opc.tcp://127.0.0.1:");
    push_decimal(&mut local, port as u64);
    push_str(&mut local, "/");
    let mut urls: Vec<String> = Vec::new();
    urls.push(any);
    urls.push(local);
    UaIdentity {
        namespace_uri: ns,
        application_name: spec.name.clone(),
        manufacturer: spec.identity.vendor.clone(),
        product: if spec.identity.product.as_str().is_empty() {
            spec.name.clone()
        } else {
            spec.identity.product.clone()
        },
        software_version: spec.identity.revision.clone(),
        discovery_urls: urls,
    }
}

} // verus!
