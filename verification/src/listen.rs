//! Which field listeners a device starts, on which ports, and the checks
//! the runtime makes on its own arguments before it boots.

use vstd::prelude::*;

use crate::device::{BindingSpec, DeviceSpec, ModbusSpec};
use crate::ieee::Real;
use crate::lift::unserved;
use crate::text::push_str;
use crate::types::ProtocolId;

verus! {

/// Command-line overrides for the field listeners.
#[derive(Debug, Clone, PartialEq, Eq)]
pub struct ListenArgs {
    /// Modbus TCP port (replaces the document's when it binds Modbus TCP).
    pub port: Option<u16>,
    /// Modbus TLS port.
    pub modbus_tls_port: Option<u16>,
    /// TLS certificate path.
    pub modbus_cert: Option<String>,
    /// TLS key path.
    pub modbus_key: Option<String>,
    /// Client CA path (mutual TLS).
    pub modbus_ca: Option<String>,
    /// OPC UA port.
    pub opcua_port: Option<u16>,
}

/// A Modbus TLS listener.
#[derive(Debug, Clone, PartialEq, Eq)]
pub struct TlsBind {
    /// Listen port.
    pub port: u16,
    /// Certificate path.
    pub certfile: String,
    /// Key path.
    pub keyfile: String,
    /// Client CA path.
    pub cafile: Option<String>,
}

/// The field listeners to start.
#[derive(Debug, Clone, PartialEq, Eq)]
pub struct FieldListeners {
    /// Modbus TCP port and unit id.
    pub tcp: Option<(u16, u8)>,
    /// Modbus TLS listener.
    pub tls: Option<TlsBind>,
    /// OPC UA port.
    pub opcua: Option<u16>,
}

/// `o`, or `d` when `o` is `None`.
pub open spec fn or_else<T>(o: Option<T>, d: T) -> T {
    match o {
        Some(v) => v,
        None => d,
    }
}

/// The TLS listener of a Modbus TLS binding: command-line port and files
/// win over the binding's.
pub open spec fn tls_bind(
    args: ListenArgs,
    port: u16,
    certfile: String,
    keyfile: String,
    cafile: Option<String>,
) -> TlsBind {
    TlsBind {
        port: or_else(args.modbus_tls_port, port),
        certfile: or_else(args.modbus_cert, certfile),
        keyfile: or_else(args.modbus_key, keyfile),
        cafile: match args.modbus_ca {
            Some(c) => Some(c),
            None => cafile,
        },
    }
}

/// Listener plan after the bindings `bs`, in order: the TCP port, the
/// unit id, the TLS listener and the OPC UA port, each taken from the last
/// binding that sets it (a command-line override wins over a binding's
/// TLS and OPC UA settings).
pub open spec fn plan(bs: Seq<BindingSpec>, m: ModbusSpec, args: ListenArgs) -> (
    Option<u16>,
    u8,
    Option<TlsBind>,
    Option<u16>,
)
    decreases bs.len(),
{
    if bs.len() == 0 {
        (None, m.unit_id, None, None)
    } else {
        let p = plan(bs.drop_last(), m, args);
        match bs.last() {
            BindingSpec::ModbusTcp { port, unit_id, .. } => (
                Some(or_else(port, m.default_port)),
                or_else(unit_id, p.1),
                p.2,
                p.3,
            ),
            BindingSpec::ModbusTls { port, certfile, keyfile, cafile, .. } => (
                p.0,
                p.1,
                Some(tls_bind(args, port, certfile, keyfile, cafile)),
                p.3,
            ),
            BindingSpec::Opcua { port, .. } => (p.0, p.1, p.2, Some(or_else(args.opcua_port, port))),
            _ => p,
        }
    }
}

/// The listeners a device starts: the plan of its bindings (a language 1
/// document without bindings listens on Modbus TCP with its own port and
/// unit), with `--port` replacing the TCP port when there is a TCP listener.
pub open spec fn listeners_of(spec: DeviceSpec, args: ListenArgs) -> FieldListeners {
    let p = if spec.bindings@.len() > 0 {
        plan(spec.bindings@, spec.modbus, args)
    } else if spec.spec_version >= 2 {
        (None, spec.modbus.unit_id, None, None)
    } else {
        (Some(spec.modbus.default_port), spec.modbus.unit_id, None, None)
    };
    FieldListeners {
        tcp: match p.0 {
            Some(port) => Some((or_else(args.port, port), p.1)),
            None => None,
        },
        tls: p.2,
        opcua: p.3,
    }
}

fn copy_opt(s: &Option<String>) -> (r: Option<String>)
    ensures
        r == *s,
{
    match s {
        Some(v) => Some(v.clone()),
        None => None,
    }
}

/// The field listeners to start. Whether the TLS files exist is for the
/// caller to check before it boots.
pub fn field_listeners(spec: &DeviceSpec, args: &ListenArgs) -> (r: FieldListeners)
    ensures
        r == listeners_of(*spec, *args),
{
    let mut unit_id: u8 = spec.modbus.unit_id;
    let mut tcp_port: Option<u16> = None;
    let mut tls: Option<TlsBind> = None;
    let mut opcua: Option<u16> = None;
    if spec.bindings.len() == 0 {
        if spec.spec_version < 2 {
            tcp_port = Some(spec.modbus.default_port);
        }
    } else {
        let mut i: usize = 0;
        while i < spec.bindings.len()
            invariant
                0 <= i <= spec.bindings@.len(),
                (tcp_port, unit_id, tls, opcua) == plan(spec.bindings@.subrange(0, i as int), spec.modbus, *args),
            decreases spec.bindings@.len() - i,
        {
            proof {
                assert(spec.bindings@.subrange(0, i as int + 1).drop_last() =~= spec.bindings@.subrange(0, i as int));
            }
            match &spec.bindings[i] {
                BindingSpec::ModbusTcp { port, unit_id: bind_unit, .. } => {
                    if let Some(u) = bind_unit {
                        unit_id = *u;
                    }
                    tcp_port = Some(
                        match port {
                            Some(p) => *p,
                            None => spec.modbus.default_port,
                        },
                    );
                },
                BindingSpec::ModbusTls { port, certfile, keyfile, cafile, .. } => {
                    tls = Some(
                        TlsBind {
                            port: match args.modbus_tls_port {
                                Some(p) => p,
                                None => *port,
                            },
                            certfile: match &args.modbus_cert {
                                Some(c) => c.clone(),
                                None => certfile.clone(),
                            },
                            keyfile: match &args.modbus_key {
                                Some(k) => k.clone(),
                                None => keyfile.clone(),
                            },
                            cafile: match &args.modbus_ca {
                                Some(c) => Some(c.clone()),
                                None => copy_opt(cafile),
                            },
                        },
                    );
                },
                BindingSpec::Opcua { port, .. } => {
                    opcua = Some(
                        match args.opcua_port {
                            Some(p) => p,
                            None => *port,
                        },
                    );
                },
                _ => {},
            }
            i = i + 1;
        }
        proof {
            assert(spec.bindings@.subrange(0, spec.bindings@.len() as int) =~= spec.bindings@);
        }
    }
    let tcp = match tcp_port {
        Some(p) => Some(
            (
                match args.port {
                    Some(o) => o,
                    None => p,
                },
                unit_id,
            ),
        ),
        None => None,
    };
    FieldListeners { tcp, tls, opcua }
}

/// Check the runtime's numeric arguments.
pub fn check_run_args(tick: Real, time_scale: Real, tick_health: Real, shutdown_timeout: Real) -> (r: Result<
    (),
    &'static str,
>)
    ensures
        match r {
            Ok(()) => !tick.at_most(Real::zero_spec()) && !time_scale.at_most(Real::zero_spec())
                && !tick_health.less(Real::zero_spec()) && !shutdown_timeout.less(Real::zero_spec()),
            Err(m) => if tick.at_most(Real::zero_spec()) {
                m@ == "--tick must be > 0"@
            } else if time_scale.at_most(Real::zero_spec()) {
                m@ == "--time-scale must be > 0"@
            } else if tick_health.less(Real::zero_spec()) {
                m@ == "--tick-health must be >= 0"@
            } else {
                shutdown_timeout.less(Real::zero_spec()) && m@ == "--shutdown-timeout must be >= 0"@
            },
        },
{
    let zero = Real::zero();
    if tick.le(zero) {
        return Err("--tick must be > 0");
    }
    if time_scale.le(zero) {
        return Err("--time-scale must be > 0");
    }
    if tick_health.lt(zero) {
        return Err("--tick-health must be >= 0");
    }
    if shutdown_timeout.lt(zero) {
        return Err("--shutdown-timeout must be >= 0");
    }
    Ok(())
}

/// Protocol names joined with `, `.
pub open spec fn joined(ps: Seq<ProtocolId>) -> Seq<char>
    decreases ps.len(),
{
    if ps.len() == 0 {
        Seq::empty()
    } else if ps.len() == 1 {
        ps[0].wire_name()
    } else {
        joined(ps.drop_last()) + ", "@ + ps.last().wire_name()
    }
}

/// Refuse to boot a device that declares protocols this runtime cannot
/// serve, naming them.
pub fn refuse_unimplemented(spec: &DeviceSpec) -> (r: Result<(), String>)
    ensures
        match r {
            Ok(()) => unserved(spec.resolved_protocols()).len() == 0,
            Err(m) => unserved(spec.resolved_protocols()).len() > 0 && m@
                == "device requests unimplemented protocol(s): "@ + joined(unserved(spec.resolved_protocols()))
                + ". specified in the contract; not served by this runtime."@,
        },
{
    let ps = spec.unimplemented_protocols();
    if ps.len() == 0 {
        return Ok(());
    }
    let mut m = crate::text::string_of("device requests unimplemented protocol(s): ");
    let ghost head = m@;
    let mut i: usize = 0;
    while i < ps.len()
        invariant
            0 <= i <= ps@.len(),
            m@ == head + joined(ps@.subrange(0, i as int)),
        decreases ps@.len() - i,
    {
        proof {
            assert(ps@.subrange(0, i as int + 1).drop_last() =~= ps@.subrange(0, i as int));
        }
        if i > 0 {
            push_str(&mut m, ", ");
        }
        push_str(&mut m, ps[i].as_str());
        proof {
            if i == 0 {
                assert(joined(ps@.subrange(0, 1)) == ps@[0].wire_name());
                assert(m@ =~= head + joined(ps@.subrange(0, i as int + 1)));
            } else {
                assert(m@ =~= head + joined(ps@.subrange(0, i as int + 1)));
            }
        }
        i = i + 1;
    }
    push_str(&mut m, ". specified in the contract; not served by this runtime.");
    proof {
        assert(ps@.subrange(0, ps@.len() as int) =~= ps@);
    }
    Err(m)
}

/// Refuse to boot when a TLS file is missing: `present` says whether the
/// file at `path` exists; `label` names it (`certfile`, `keyfile`, `cafile`).
pub fn require_pem(present: bool, path: &str, label: &str) -> (r: Result<(), String>)
    ensures
        r is Ok <==> present,
        r matches Err(m) ==> m@ == "modbus-tls "@ + label@ + " not found: "@ + path@,
{
    if !present {
        let mut m = crate::text::string_of("modbus-tls ");
        push_str(&mut m, label);
        push_str(&mut m, " not found: ");
        push_str(&mut m, path);
        return Err(m);
    }
    Ok(())
}

/// Whether no two bindings of `bs` are both Modbus TCP, both Modbus TLS or
/// both OPC UA.
pub open spec fn one_of_each(bs: Seq<BindingSpec>) -> bool {
    forall|i: int, j: int|
        0 <= i < j < bs.len() ==> !(#[trigger] bs[i] is ModbusTcp && #[trigger] bs[j] is ModbusTcp) && !(
        bs[i] is ModbusTls && bs[j] is ModbusTls) && !(bs[i] is Opcua && bs[j] is Opcua)
}

proof fn lemma_plan_one_of_each(bs: Seq<BindingSpec>, m: ModbusSpec, args: ListenArgs)
    requires
        one_of_each(bs),
    ensures
        ({
            let p = plan(bs, m, args);
            &&& (forall|i: int| 0 <= i < bs.len() ==> !(#[trigger] bs[i] is ModbusTcp)) ==> p.0 is None && p.1
                == m.unit_id
            &&& forall|i: int|
                0 <= i < bs.len() ==> (#[trigger] bs[i] matches BindingSpec::ModbusTcp { port, unit_id, .. } ==> p.0
                    == Some(or_else(port, m.default_port)) && p.1 == or_else(unit_id, m.unit_id))
            &&& (forall|i: int| 0 <= i < bs.len() ==> !(#[trigger] bs[i] is ModbusTls)) ==> p.2 is None
            &&& forall|i: int|
                0 <= i < bs.len() ==> (#[trigger] bs[i] matches BindingSpec::ModbusTls {
                    port,
                    certfile,
                    keyfile,
                    cafile,
                    ..
                } ==> p.2 == Some(tls_bind(args, port, certfile, keyfile, cafile)))
            &&& (forall|i: int| 0 <= i < bs.len() ==> !(#[trigger] bs[i] is Opcua)) ==> p.3 is None
            &&& forall|i: int|
                0 <= i < bs.len() ==> (#[trigger] bs[i] matches BindingSpec::Opcua { port, .. } ==> p.3 == Some(
                    or_else(args.opcua_port, port),
                ))
        }),
    decreases bs.len(),
{
    if bs.len() > 0 {
        let r = bs.drop_last();
        let n = r.len() as int;
        assert(one_of_each(r)) by {
            assert forall|i: int, j: int| 0 <= i < j < r.len() implies !(#[trigger] r[i] is ModbusTcp
                && #[trigger] r[j] is ModbusTcp) && !(r[i] is ModbusTls && r[j] is ModbusTls) && !(r[i] is Opcua
                && r[j] is Opcua) by {
                assert(r[i] == bs[i] && r[j] == bs[j]);
            }
        }
        lemma_plan_one_of_each(r, m, args);
        let last = bs[n];
        assert forall|i: int| 0 <= i < n implies #[trigger] bs[i] == r[i] by {}
        assert forall|i: int| 0 <= i < n && (#[trigger] bs[i] is ModbusTcp) implies !(last is ModbusTcp) by {
            assert(!(bs[i] is ModbusTcp && bs[n] is ModbusTcp));
        }
        assert forall|i: int| 0 <= i < n && (#[trigger] bs[i] is ModbusTls) implies !(last is ModbusTls) by {
            assert(!(bs[i] is ModbusTls && bs[n] is ModbusTls));
        }
        assert forall|i: int| 0 <= i < n && (#[trigger] bs[i] is Opcua) implies !(last is Opcua) by {
            assert(!(bs[i] is Opcua && bs[n] is Opcua));
        }
    }
}

/// With at most one Modbus TCP, one Modbus TLS and one OPC UA binding,
/// each listener comes from its binding: TCP on `--port`, else the
/// binding's port, else the document's default port, with the binding's
/// unit id or the document's; TLS on `--modbus-tls-port` or the binding's
/// port, with the files given on the command line or else the binding's;
/// OPC UA on `--opcua-port` or the binding's port. A kind with no binding
/// has no listener, except that a language 1 document without bindings
/// listens on Modbus TCP with its own port and unit id.
pub proof fn lemma_one_listener_per_binding(spec: DeviceSpec, args: ListenArgs)
    requires
        one_of_each(spec.bindings@),
    ensures
        ({
            let bs = spec.bindings@;
            let l = listeners_of(spec, args);
            let m = spec.modbus;
            &&& bs.len() > 0 && (forall|i: int| 0 <= i < bs.len() ==> !(#[trigger] bs[i] is ModbusTcp)) ==> l.tcp
                is None
            &&& forall|i: int|
                0 <= i < bs.len() ==> (#[trigger] bs[i] matches BindingSpec::ModbusTcp { port, unit_id, .. }
                    ==> l.tcp == Some((or_else(args.port, or_else(port, m.default_port)), or_else(unit_id, m.unit_id))))
            &&& (forall|i: int| 0 <= i < bs.len() ==> !(#[trigger] bs[i] is ModbusTls)) ==> l.tls is None
            &&& forall|i: int|
                0 <= i < bs.len() ==> (#[trigger] bs[i] matches BindingSpec::ModbusTls {
                    port,
                    certfile,
                    keyfile,
                    cafile,
                    ..
                } ==> l.tls == Some(tls_bind(args, port, certfile, keyfile, cafile)))
            &&& (forall|i: int| 0 <= i < bs.len() ==> !(#[trigger] bs[i] is Opcua)) ==> l.opcua is None
            &&& forall|i: int|
                0 <= i < bs.len() ==> (#[trigger] bs[i] matches BindingSpec::Opcua { port, .. } ==> l.opcua == Some(
                    or_else(args.opcua_port, port),
                ))
            &&& bs.len() == 0 && spec.spec_version < 2 ==> l.tcp == Some(
                (or_else(args.port, m.default_port), m.unit_id),
            )
            &&& bs.len() == 0 && spec.spec_version >= 2 ==> l.tcp is None
        }),
{
    lemma_plan_one_of_each(spec.bindings@, spec.modbus, args);
}

/// Boot refusal for a missing TLS file: `label` names it (`certfile`,
/// `keyfile`, `cafile`), `path` is where it was looked for.
pub open spec fn pem_missing(label: Seq<char>, path: Seq<char>) -> Seq<char> {
    "modbus-tls "@ + label + " not found: "@ + path
}

/// Why a listener plan cannot boot, if it cannot: with a TLS listener, a
/// missing certfile is reported first, then a missing keyfile, then a
/// missing client CA file (when one is configured). `cert`, `key` and `ca`
/// say whether each file exists.
pub open spec fn tls_refusal(l: FieldListeners, cert: bool, key: bool, ca: bool) -> Option<Seq<char>> {
    match l.tls {
        None => None,
        Some(t) => if !cert {
            Some(pem_missing("certfile"@, t.certfile@))
        } else if !key {
            Some(pem_missing("keyfile"@, t.keyfile@))
        } else {
            match t.cafile {
                Some(c) => if !ca {
                    Some(pem_missing("cafile"@, c@))
                } else {
                    None
                },
                None => None,
            }
        },
    }
}

/// Admit a listener plan only when its TLS files exist: `cert_present`,
/// `key_present` and `ca_present` say whether the certfile, keyfile and
/// client CA file of the TLS listener exist. The plan comes back unchanged,
/// or the first missing file is refused (see `tls_refusal`).
pub fn admit_tls_files(l: FieldListeners, cert_present: bool, key_present: bool, ca_present: bool) -> (r: Result<
    FieldListeners,
    String,
>)
    ensures
        match tls_refusal(l, cert_present, key_present, ca_present) {
            None => r == Ok::<FieldListeners, String>(l),
            Some(m) => r matches Err(e) && e@ == m,
        },
{
    match &l.tls {
        None => {},
        Some(t) => {
            match require_pem(cert_present, t.certfile.as_str(), "certfile") {
                Ok(()) => {},
                Err(m) => {
                    return Err(m);
                },
            }
            match require_pem(key_present, t.keyfile.as_str(), "keyfile") {
                Ok(()) => {},
                Err(m) => {
                    return Err(m);
                },
            }
            match &t.cafile {
                Some(c) => match require_pem(ca_present, c.as_str(), "cafile") {
                    Ok(()) => {},
                    Err(m) => {
                        return Err(m);
                    },
                },
                None => {},
            }
        },
    }
    Ok(l)
}

} // verus!
