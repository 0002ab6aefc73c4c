//! The control client: which HTTP request each `simbus ctl` command sends.

use vstd::prelude::*;

use crate::ieee::Real;
use crate::text::{decimal, push_decimal, push_str, string_of};

verus! {

/// HTTP method of a control request.
#[derive(Debug, Clone, Copy, PartialEq, Eq, Structural)]
pub enum Method {
    /// GET.
    Get,
    /// POST.
    Post,
    /// PATCH.
    Patch,
    /// DELETE.
    Delete,
}

/// A `simbus ctl` command.
#[derive(Debug, Clone, PartialEq)]
pub enum CtlCommand {
    /// GET /status
    Status,
    /// GET /config
    Config,
    /// GET /healthz
    Healthz,
    /// GET /readyz
    Readyz,
    /// GET /metrics
    Metrics,
    /// GET /registers
    Registers,
    /// PATCH a holding or input register.
    WriteRegister {
        /// Register address.
        address: u16,
        /// Engineering value.
        real_value: Option<Real>,
        /// Raw word.
        value: Option<u16>,
        /// Input register instead of holding.
        input: bool,
    },
    /// PATCH a coil or discrete input.
    Coil {
        /// Bit address.
        address: u16,
        /// Target state.
        value: bool,
        /// Discrete input instead of coil.
        discrete: bool,
    },
    /// GET /faults
    Faults,
    /// POST /faults
    Fault {
        /// Fault kind as typed.
        fault_type: String,
        /// Target register or coil.
        register: Option<String>,
        /// Spike target or noise factor.
        value: Option<Real>,
        /// Duration in seconds.
        duration: Real,
    },
    /// DELETE /faults
    ClearFaults,
    /// PATCH /simulation
    Tick {
        /// New tick interval.
        interval: Real,
    },
    /// POST /simulation/reset
    Reset,
    /// GET /scenarios
    Scenarios,
    /// POST /scenarios/{id}/run
    Run {
        /// Scenario id.
        id: String,
    },
    /// GET /scenarios/active
    Active,
    /// POST /scenarios/stop
    Stop,
}

/// JSON body of a control request.
#[derive(Debug, Clone, PartialEq)]
pub enum CtlBody {
    /// `{"real_value": v}`
    RealValue(Real),
    /// `{"value": v}` with a raw word.
    Value(u16),
    /// `{"value": b}` with a coil state.
    Coil(bool),
    /// `{"fault_type", "register_name", "value", "duration_s"}`
    Fault {
        /// Fault kind as typed.
        fault_type: String,
        /// Target register or coil.
        register_name: Option<String>,
        /// Spike target or noise factor.
        value: Option<Real>,
        /// Duration in seconds.
        duration_s: Real,
    },
    /// `{"tick_interval": v}`
    TickInterval(Real),
}

/// One control request: method, path below the base URL, optional body.
#[derive(Debug, Clone, PartialEq)]
pub struct CtlRequest {
    /// HTTP method.
    pub method: Method,
    /// Path below the base URL.
    pub path: String,
    /// JSON body.
    pub body: Option<CtlBody>,
}

/// Body of a register write: exactly one of the engineering and raw value.
pub open spec fn register_body_of(real_value: Option<Real>, value: Option<u16>) -> Result<CtlBody, Seq<char>> {
    match (real_value, value) {
        (Some(r), None) => Ok(CtlBody::RealValue(r)),
        (None, Some(v)) => Ok(CtlBody::Value(v)),
        (None, None) => Err("provide --real-value or --value"@),
        (Some(_), Some(_)) => Err("--real-value and --value are mutually exclusive"@),
    }
}

/// Body of a register write: exactly one of the engineering and raw value.
pub fn register_body(real_value: Option<Real>, value: Option<u16>) -> (r: Result<CtlBody, &'static str>)
    ensures
        match (r, register_body_of(real_value, value)) {
            (Ok(b), Ok(c)) => b == c,
            (Err(m), Err(n)) => m@ == n,
            _ => false,
        },
{
    match (real_value, value) {
        (Some(v), None) => Ok(CtlBody::RealValue(v)),
        (None, Some(raw)) => Ok(CtlBody::Value(raw)),
        (None, None) => Err("provide --real-value or --value"),
        (Some(_), Some(_)) => Err("--real-value and --value are mutually exclusive"),
    }
}

/// Method and path of a command.
pub open spec fn route(cmd: CtlCommand) -> (Method, Seq<char>) {
    match cmd {
        CtlCommand::Status => (Method::Get, "/status"@),
        CtlCommand::Config => (Method::Get, "/config"@),
        CtlCommand::Healthz => (Method::Get, "/healthz"@),
        CtlCommand::Readyz => (Method::Get, "/readyz"@),
        CtlCommand::Metrics => (Method::Get, "/metrics"@),
        CtlCommand::Registers => (Method::Get, "/registers"@),
        CtlCommand::WriteRegister { address, input, .. } => (Method::Patch, if input {
            "/registers/input/"@ + decimal(address as nat)
        } else {
            "/registers/"@ + decimal(address as nat)
        }),
        CtlCommand::Coil { address, discrete, .. } => (Method::Patch, if discrete {
            "/registers/discrete/"@ + decimal(address as nat)
        } else {
            "/registers/coils/"@ + decimal(address as nat)
        }),
        CtlCommand::Faults => (Method::Get, "/faults"@),
        CtlCommand::Fault { .. } => (Method::Post, "/faults"@),
        CtlCommand::ClearFaults => (Method::Delete, "/faults"@),
        CtlCommand::Tick { .. } => (Method::Patch, "/simulation"@),
        CtlCommand::Reset => (Method::Post, "/simulation/reset"@),
        CtlCommand::Scenarios => (Method::Get, "/scenarios"@),
        CtlCommand::Run { id } => (Method::Post, "/scenarios/"@ + id@ + "/run"@),
        CtlCommand::Active => (Method::Get, "/scenarios/active"@),
        CtlCommand::Stop => (Method::Post, "/scenarios/stop"@),
    }
}

/// Body of a command, when it sends one.
pub open spec fn body_of(cmd: CtlCommand) -> Option<CtlBody> {
    match cmd {
        CtlCommand::WriteRegister { real_value, value, .. } => match register_body_of(real_value, value) {
            Ok(b) => Some(b),
            Err(_) => None,
        },
        CtlCommand::Coil { value, .. } => Some(CtlBody::Coil(value)),
        CtlCommand::Fault { fault_type, register, value, duration } => Some(
            CtlBody::Fault { fault_type, register_name: register, value, duration_s: duration },
        ),
        CtlCommand::Tick { interval } => Some(CtlBody::TickInterval(interval)),
        _ => None,
    }
}

fn numbered(prefix: &str, n: u16) -> (s: String)
    ensures
        s@ == prefix@ + decimal(n as nat),
{
    let mut s = string_of(prefix);
    push_decimal(&mut s, n as u64);
    s
}

/// The request a command sends. A register write with neither or both
/// values is refused before anything is sent.
pub fn request_for(cmd: CtlCommand) -> (r: Result<CtlRequest, &'static str>)
    ensures
        match cmd {
            CtlCommand::WriteRegister { real_value, value, .. } => match register_body_of(real_value, value) {
                Err(m) => r matches Err(e) && e@ == m,
                Ok(_) => r is Ok,
            },
            _ => r is Ok,
        },
        r matches Ok(q) ==> q.method == route(cmd).0 && q.path@ == route(cmd).1 && q.body == body_of(cmd),
{
    match cmd {
        CtlCommand::Status => Ok(CtlRequest { method: Method::Get, path: string_of("/status"), body: None }),
        CtlCommand::Config => Ok(CtlRequest { method: Method::Get, path: string_of("/config"), body: None }),
        CtlCommand::Healthz => Ok(CtlRequest { method: Method::Get, path: string_of("/healthz"), body: None }),
        CtlCommand::Readyz => Ok(CtlRequest { method: Method::Get, path: string_of("/readyz"), body: None }),
        CtlCommand::Metrics => Ok(CtlRequest { method: Method::Get, path: string_of("/metrics"), body: None }),
        CtlCommand::Registers => Ok(
            CtlRequest { method: Method::Get, path: string_of("/registers"), body: None },
        ),
        CtlCommand::WriteRegister { address, real_value, value, input } => {
            let body = register_body(real_value, value)?;
            let path = if input {
                numbered("/registers/input/", address)
            } else {
                numbered("/registers/", address)
            };
            Ok(CtlRequest { method: Method::Patch, path, body: Some(body) })
        },
        CtlCommand::Coil { address, value, discrete } => {
            let path = if discrete {
                numbered("/registers/discrete/", address)
            } else {
                numbered("/registers/coils/", address)
            };
            Ok(CtlRequest { method: Method::Patch, path, body: Some(CtlBody::Coil(value)) })
        },
        CtlCommand::Faults => Ok(CtlRequest { method: Method::Get, path: string_of("/faults"), body: None }),
        CtlCommand::Fault { fault_type, register, value, duration } => Ok(
            CtlRequest {
                method: Method::Post,
                path: string_of("/faults"),
                body: Some(CtlBody::Fault { fault_type, register_name: register, value, duration_s: duration }),
            },
        ),
        CtlCommand::ClearFaults => Ok(
            CtlRequest { method: Method::Delete, path: string_of("/faults"), body: None },
        ),
        CtlCommand::Tick { interval } => Ok(
            CtlRequest {
                method: Method::Patch,
                path: string_of("/simulation"),
                body: Some(CtlBody::TickInterval(interval)),
            },
        ),
        CtlCommand::Reset => Ok(
            CtlRequest { method: Method::Post, path: string_of("/simulation/reset"), body: None },
        ),
        CtlCommand::Scenarios => Ok(
            CtlRequest { method: Method::Get, path: string_of("/scenarios"), body: None },
        ),
        CtlCommand::Run { id } => {
            let mut path = string_of("/scenarios/");
            push_str(&mut path, id.as_str());
            push_str(&mut path, "/run");
            assert(path@ =~= "/scenarios/"@ + id@ + "/run"@);
            Ok(CtlRequest { method: Method::Post, path, body: None })
        },
        CtlCommand::Active => Ok(
            CtlRequest { method: Method::Get, path: string_of("/scenarios/active"), body: None },
        ),
        CtlCommand::Stop => Ok(
            CtlRequest { method: Method::Post, path: string_of("/scenarios/stop"), body: None },
        ),
    }
}

/// Which table a bit or register command writes. A coil command with
/// `discrete` set sends `PATCH /registers/discrete/{address}` and one
/// without it `PATCH /registers/coils/{address}`, both with the state as
/// body; the two paths differ, so a discrete input is never written
/// through the coil table or the other way round. A register command with
/// `input` set sends `PATCH /registers/input/{address}` and one without it
/// `PATCH /registers/{address}`.
pub proof fn lemma_write_targets(address: u16, value: bool, real_value: Option<Real>, raw: Option<u16>)
    ensures
        route(CtlCommand::Coil { address, value, discrete: true }) == (Method::Patch, "/registers/discrete/"@
            + decimal(address as nat)),
        route(CtlCommand::Coil { address, value, discrete: false }) == (Method::Patch, "/registers/coils/"@
            + decimal(address as nat)),
        route(CtlCommand::Coil { address, value, discrete: true }).1 != route(
            CtlCommand::Coil { address, value, discrete: false },
        ).1,
        body_of(CtlCommand::Coil { address, value, discrete: true }) == Some(CtlBody::Coil(value)),
        body_of(CtlCommand::Coil { address, value, discrete: false }) == Some(CtlBody::Coil(value)),
        route(CtlCommand::WriteRegister { address, real_value, value: raw, input: true }) == (
        Method::Patch,
        "/registers/input/"@ + decimal(address as nat),
        ),
        route(CtlCommand::WriteRegister { address, real_value, value: raw, input: false }) == (
        Method::Patch,
        "/registers/"@ + decimal(address as nat),
        ),
{
    reveal_strlit("/registers/discrete/");
    reveal_strlit("/registers/coils/");
    let d = "/registers/discrete/"@ + decimal(address as nat);
    let c = "/registers/coils/"@ + decimal(address as nat);
    assert(d[11] == 'd' && c[11] == 'c');
}

/// The request of every command without an address: the reads are `GET`s
/// of `/status`, `/config`, `/healthz`, `/readyz`, `/metrics`,
/// `/registers`, `/faults`, `/scenarios` and `/scenarios/active`; a fault
/// is `POST /faults` with its kind, target, value and duration as body;
/// clearing faults is `DELETE /faults`; a tick change is `PATCH
/// /simulation` with the interval as body; a reset is `POST
/// /simulation/reset`; running a scenario is `POST /scenarios/{id}/run`;
/// stopping is `POST /scenarios/stop`. Only register, coil, fault and tick
/// commands carry a body.
pub proof fn lemma_command_routes(
    fault_type: String,
    register: Option<String>,
    value: Option<Real>,
    duration: Real,
    interval: Real,
    id: String,
)
    ensures
        route(CtlCommand::Status) == (Method::Get, "/status"@),
        route(CtlCommand::Config) == (Method::Get, "/config"@),
        route(CtlCommand::Healthz) == (Method::Get, "/healthz"@),
        route(CtlCommand::Readyz) == (Method::Get, "/readyz"@),
        route(CtlCommand::Metrics) == (Method::Get, "/metrics"@),
        route(CtlCommand::Registers) == (Method::Get, "/registers"@),
        route(CtlCommand::Faults) == (Method::Get, "/faults"@),
        route(CtlCommand::Fault { fault_type, register, value, duration }) == (Method::Post, "/faults"@),
        body_of(CtlCommand::Fault { fault_type, register, value, duration }) == Some(
            CtlBody::Fault { fault_type, register_name: register, value, duration_s: duration },
        ),
        route(CtlCommand::ClearFaults) == (Method::Delete, "/faults"@),
        route(CtlCommand::Tick { interval }) == (Method::Patch, "/simulation"@),
        body_of(CtlCommand::Tick { interval }) == Some(CtlBody::TickInterval(interval)),
        route(CtlCommand::Reset) == (Method::Post, "/simulation/reset"@),
        route(CtlCommand::Scenarios) == (Method::Get, "/scenarios"@),
        route(CtlCommand::Run { id }) == (Method::Post, "/scenarios/"@ + id@ + "/run"@),
        route(CtlCommand::Active) == (Method::Get, "/scenarios/active"@),
        route(CtlCommand::Stop) == (Method::Post, "/scenarios/stop"@),
        body_of(CtlCommand::Status) == None::<CtlBody> && body_of(CtlCommand::Config) == None::<CtlBody>
            && body_of(CtlCommand::Healthz) == None::<CtlBody> && body_of(CtlCommand::Readyz) == None::<CtlBody>
            && body_of(CtlCommand::Metrics) == None::<CtlBody> && body_of(CtlCommand::Registers) == None::<CtlBody>
            && body_of(CtlCommand::Faults) == None::<CtlBody> && body_of(CtlCommand::ClearFaults) == None::<CtlBody>
            && body_of(CtlCommand::Reset) == None::<CtlBody> && body_of(CtlCommand::Scenarios) == None::<CtlBody>
            && body_of(CtlCommand::Run { id }) == None::<CtlBody> && body_of(CtlCommand::Active) == None::<CtlBody>
            && body_of(CtlCommand::Stop) == None::<CtlBody>,
{
}

/// A register write sends exactly one of its values: the engineering
/// value alone as `real_value`, the raw word alone as `value`; with neither
/// or both it is refused.
pub proof fn lemma_register_body(real_value: Option<Real>, raw: Option<u16>)
    ensures
        forall|r: Real| real_value == Some(r) && raw == None::<u16> ==> (register_body_of(real_value, raw) == Ok::<
            CtlBody,
            Seq<char>,
        >(CtlBody::RealValue(r))),
        forall|w: u16| real_value == None::<Real> && raw == Some(w) ==> (register_body_of(real_value, raw) == Ok::<
            CtlBody,
            Seq<char>,
        >(CtlBody::Value(w))),
        (real_value is Some) == (raw is Some) ==> (register_body_of(real_value, raw) is Err),
{
}

} // verus!
