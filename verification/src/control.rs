//! Decisions of the HTTP control plane: who may write, which requests are
//! well-formed, and how the scenario catalog answers install, uninstall
//! and run requests. The transport itself lives with the caller.

use vstd::prelude::*;

use std::collections::BTreeMap;

use crate::bank::Snapshot;
use crate::device::{CoilSpec, DeviceSpec, names_coil, names_register};
use crate::ieee::Real;
use crate::runner::{ScenarioRunner, has_session};
use crate::scenario::ScenarioSpec;
use crate::text::{push_str, str_eq, string_of};
use crate::types::FaultType;
use crate::validate::Invalid;

verus! {

/// HTTP status of an answer.
#[derive(Debug, Clone, Copy, PartialEq, Eq, Structural)]
pub enum Status {
    /// 200.
    Success,
    /// 201.
    Created,
    /// 202.
    Accepted,
    /// 204.
    NoContent,
    /// 401.
    Unauthorized,
    /// 404.
    NotFound,
    /// 409.
    Conflict,
    /// 422.
    Unprocessable,
    /// 503.
    Unavailable,
}

impl Status {
    /// Numeric HTTP status code.
    pub open spec fn number(self) -> u16 {
        match self {
            Status::Success => 200,
            Status::Created => 201,
            Status::Accepted => 202,
            Status::NoContent => 204,
            Status::Unauthorized => 401,
            Status::NotFound => 404,
            Status::Conflict => 409,
            Status::Unprocessable => 422,
            Status::Unavailable => 503,
        }
    }

    /// Numeric HTTP status code.
    pub fn code(self) -> (c: u16)
        ensures
            c == self.number(),
    {
        match self {
            Status::Success => 200,
            Status::Created => 201,
            Status::Accepted => 202,
            Status::NoContent => 204,
            Status::Unauthorized => 401,
            Status::NotFound => 404,
            Status::Conflict => 409,
            Status::Unprocessable => 422,
            Status::Unavailable => 503,
        }
    }
}

/// Error body of a refused request.
#[derive(Debug, Clone, PartialEq, Eq)]
pub struct ErrorBody {
    /// Human-readable reason.
    pub detail: String,
}

/// A refused request: status and reason.
#[derive(Debug, Clone, PartialEq, Eq)]
pub struct Refusal {
    /// HTTP status.
    pub status: Status,
    /// Error body.
    pub body: ErrorBody,
}

fn refuse(status: Status, detail: String) -> (r: Refusal)
    ensures
        r.status == status,
        r.body.detail == detail,
{
    Refusal { status, body: ErrorBody { detail } }
}

/// Coil entry of `/config`.
#[derive(Debug, Clone, PartialEq, Eq)]
pub struct CoilInfo {
    /// Zero-based address.
    pub address: u16,
    /// Name.
    pub name: String,
    /// Human description.
    pub description: String,
    /// Default state.
    pub default: bool,
}

/// Scenario entry of `/scenarios` and `/config`.
#[derive(Debug, Clone, PartialEq, Eq)]
pub struct ScenarioInfo {
    /// Id.
    pub id: String,
    /// Display name.
    pub name: String,
    /// Description.
    pub description: String,
    /// Number of steps.
    pub steps: usize,
    /// `bundled` or `session`.
    pub source: &'static str,
}

/// Body of `GET /registers`.
#[derive(Debug, Clone, PartialEq, Eq)]
pub struct SnapshotResponse {
    /// Holding words keyed by address.
    pub holding: BTreeMap<u16, u16>,
    /// Input words keyed by address.
    pub input: BTreeMap<u16, u16>,
    /// Coil bits.
    pub coils: BTreeMap<u16, bool>,
    /// Discrete bits.
    pub discrete: BTreeMap<u16, bool>,
}

/// Body of `PATCH /registers/...` for numeric registers.
#[derive(Debug, Clone, Copy, PartialEq, Eq, Structural)]
pub struct RegisterOverrideRequest {
    /// Raw word.
    pub value: Option<u16>,
    /// Engineering value.
    pub real_value: Option<Real>,
}

/// Body of `PATCH /registers/coils/...` and `/registers/discrete/...`.
#[derive(Debug, Clone, Copy, PartialEq, Eq, Structural)]
pub struct CoilOverrideRequest {
    /// Target state.
    pub value: bool,
}

/// Body of `POST /faults`.
#[derive(Debug, Clone, PartialEq)]
pub struct FaultRequest {
    /// Fault kind.
    pub fault_type: FaultType,
    /// Target register or coil; `None` for a device-wide dropout.
    pub register_name: Option<String>,
    /// Spike target or noise factor.
    pub value: Option<Real>,
    /// Duration in seconds.
    pub duration_s: Real,
}

/// Body of `PATCH /simulation`.
#[derive(Debug, Clone, Copy, PartialEq, Eq, Structural)]
pub struct SimulationPatchRequest {
    /// New tick interval.
    pub tick_interval: Option<Real>,
    /// Run or pause the simulation.
    pub running: Option<bool>,
}

/// The `/registers` body for a bank snapshot.
pub fn snapshot_response(snap: Snapshot) -> (r: SnapshotResponse)
    ensures
        r.holding@ == snap.holding@,
        r.input@ == snap.input@,
        r.coils@ == snap.coils@,
        r.discrete@ == snap.discrete@,
{
    SnapshotResponse {
        holding: snap.holding,
        input: snap.input,
        coils: snap.coils,
        discrete: snap.discrete,
    }
}

/// Whether a write is authorized: no key is configured, or the caller
/// presents it. The `x-api-key` header wins when present; otherwise an
/// `Authorization: Bearer <key>` header is read.
pub open spec fn authorized(api_key: Option<String>, x_api_key: Option<Seq<char>>, authorization: Option<Seq<char>>) -> bool {
    match api_key {
        None => true,
        Some(k) => match x_api_key {
            Some(x) => x == k@,
            None => match authorization {
                Some(a) => a == "Bearer "@ + k@,
                None => false,
            },
        },
    }
}

/// Check a write request's credentials.
pub fn authorize(api_key: &Option<String>, x_api_key: Option<&str>, authorization: Option<&str>) -> (r: Result<
    (),
    Status,
>)
    ensures
        r is Ok <==> authorized(
            *api_key,
            match x_api_key {
                Some(x) => Some(x@),
                None => None,
            },
            match authorization {
                Some(a) => Some(a@),
                None => None,
            },
        ),
        r matches Err(s) ==> s == Status::Unauthorized,
{
    let expected = match api_key {
        None => {
            return Ok(());
        },
        Some(k) => k,
    };
    let ok = match x_api_key {
        Some(x) => str_eq(x, expected.as_str()),
        None => match authorization {
            Some(a) => {
                let mut bearer = string_of("Bearer ");
                push_str(&mut bearer, expected.as_str());
                str_eq(a, bearer.as_str())
            },
            None => false,
        },
    };
    if ok {
        Ok(())
    } else {
        Err(Status::Unauthorized)
    }
}

/// Whether `name` is a holding or input register of the device.
pub open spec fn numeric_named(spec: DeviceSpec, name: Seq<char>) -> bool {
    names_register(spec.registers.holding@, name) || names_register(spec.registers.input@, name)
}

/// The answer to `POST /faults`: `None` when the fault may be injected,
/// otherwise the status and reason.
pub open spec fn fault_answer(spec: DeviceSpec, body: FaultRequest) -> Option<(Status, Seq<char>)> {
    if body.duration_s.at_most(Real::zero_spec()) {
        Some((Status::Unprocessable, "duration_s must be > 0"@))
    } else if body.fault_type == FaultType::Alarm {
        match body.register_name {
            None => Some((Status::Unprocessable, "alarm requires register_name (coil name)"@)),
            Some(n) => if names_coil(spec.registers.coils@, n@) {
                None
            } else {
                Some((Status::NotFound, "coil '"@ + n@ + "' not found"@))
            },
        }
    } else {
        match body.register_name {
            None => if body.fault_type == FaultType::Dropout {
                None
            } else {
                Some((Status::Unprocessable, "register_name is required (null is only valid for device-wide dropout)"@))
            },
            Some(n) => if body.fault_type == FaultType::Spike && body.value is None {
                Some((Status::Unprocessable, "spike requires 'value' (real-world units)"@))
            } else if numeric_named(spec, n@) {
                None
            } else {
                Some((Status::NotFound, "register '"@ + n@ + "' not found"@))
            },
        }
    }
}

fn quoted(a: &str, n: &str, b: &str) -> (s: String)
    ensures
        s@ == a@ + n@ + b@,
{
    let mut s = string_of(a);
    push_str(&mut s, n);
    push_str(&mut s, b);
    assert(s@ =~= a@ + n@ + b@);
    s
}

/// Check a fault request against the device.
pub fn validate_fault(spec: &DeviceSpec, body: &FaultRequest) -> (r: Result<(), Refusal>)
    ensures
        match fault_answer(*spec, *body) {
            None => r is Ok,
            Some((status, detail)) => r matches Err(e) && e.status == status && e.body.detail@ == detail,
        },
{
    if body.duration_s.le(Real::zero()) {
        return Err(refuse(Status::Unprocessable, string_of("duration_s must be > 0")));
    }
    if body.fault_type == FaultType::Alarm {
        match &body.register_name {
            None => Err(refuse(Status::Unprocessable, string_of("alarm requires register_name (coil name)"))),
            Some(n) => if crate::device::find_coil(&spec.registers.coils, n.as_str()).is_some() {
                Ok(())
            } else {
                Err(refuse(Status::NotFound, quoted("coil '", n.as_str(), "' not found")))
            },
        }
    } else {
        match &body.register_name {
            None => if body.fault_type == FaultType::Dropout {
                Ok(())
            } else {
                Err(
                    refuse(
                        Status::Unprocessable,
                        string_of("register_name is required (null is only valid for device-wide dropout)"),
                    ),
                )
            },
            Some(n) => if body.fault_type == FaultType::Spike && body.value.is_none() {
                Err(refuse(Status::Unprocessable, string_of("spike requires 'value' (real-world units)")))
            } else if crate::device::find_register(&spec.registers.holding, n.as_str()).is_some()
                || crate::device::find_register(&spec.registers.input, n.as_str()).is_some() {
                Ok(())
            } else {
                Err(refuse(Status::NotFound, quoted("register '", n.as_str(), "' not found")))
            },
        }
    }
}

/// Check a numeric override body: exactly one of `value` and `real_value`.
pub fn check_register_override(body: &RegisterOverrideRequest) -> (r: Result<(), Refusal>)
    ensures
        r is Ok <==> (body.value is Some) != (body.real_value is Some),
        r matches Err(e) ==> e.status == Status::Unprocessable && e.body.detail@ == if body.value is None {
            "Provide 'value' (raw uint16) or 'real_value' (physical units)."@
        } else {
            "'value' and 'real_value' are mutually exclusive."@
        },
{
    if body.value.is_none() && body.real_value.is_none() {
        return Err(
            refuse(
                Status::Unprocessable,
                string_of("Provide 'value' (raw uint16) or 'real_value' (physical units)."),
            ),
        );
    }
    if body.value.is_some() && body.real_value.is_some() {
        return Err(refuse(Status::Unprocessable, string_of("'value' and 'real_value' are mutually exclusive.")));
    }
    Ok(())
}

/// Check a simulation patch: a new tick interval must be positive.
pub fn check_simulation_patch(body: &SimulationPatchRequest) -> (r: Result<(), Refusal>)
    ensures
        r is Ok <==> !(body.tick_interval matches Some(t) && t.at_most(Real::zero_spec())),
        r matches Err(e) ==> e.status == Status::Unprocessable && e.body.detail@ == "tick_interval must be > 0"@,
{
    match body.tick_interval {
        Some(t) => if t.le(Real::zero()) {
            Err(refuse(Status::Unprocessable, string_of("tick_interval must be > 0")))
        } else {
            Ok(())
        },
        None => Ok(()),
    }
}

/// Readiness of one field server: one that was not started does not hold
/// readiness back; a started one is ready once it accepts connections.
pub open spec fn ready_of(started: bool, accepting: bool) -> bool {
    !started || accepting
}

/// Readiness flag of one field server (see `ready_of`).
pub fn server_ready(started: bool, accepting: bool) -> (b: bool)
    ensures
        b == ready_of(started, accepting),
{
    !started || accepting
}

/// Whether the TCP, TLS and OPC UA servers are all ready.
pub open spec fn all_listening(tcp_ready: bool, tls_ready: bool, opcua_ready: bool) -> bool {
    tcp_ready && tls_ready && opcua_ready
}

/// Whether every field listener the process started is accepting.
pub fn field_listening(tcp_ready: bool, tls_ready: bool, opcua_ready: bool) -> (b: bool)
    ensures
        b == all_listening(tcp_ready, tls_ready, opcua_ready),
{
    tcp_ready && tls_ready && opcua_ready
}

/// Answer of `/readyz` for the field-plane and simulation states.
pub open spec fn readiness(listening: bool, running: bool) -> Status {
    if listening && running {
        Status::Success
    } else {
        Status::Unavailable
    }
}

/// `/readyz`: ready when the field plane listens and the simulation runs.
pub fn readyz(listening: bool, running: bool) -> (s: Status)
    ensures
        s == readiness(listening, running),
{
    if listening && running {
        Status::Success
    } else {
        Status::Unavailable
    }
}

/// `/readyz` answers OK exactly when the simulation runs and every field
/// server that was started (Modbus TCP, Modbus TLS, OPC UA) accepts
/// connections; otherwise it answers *service unavailable*.
pub proof fn lemma_ready_exactly_when(
    running: bool,
    tcp_started: bool,
    tcp_accepting: bool,
    tls_started: bool,
    tls_accepting: bool,
    opcua_started: bool,
    opcua_accepting: bool,
)
    ensures
        ({
            let s = readiness(
                all_listening(
                    ready_of(tcp_started, tcp_accepting),
                    ready_of(tls_started, tls_accepting),
                    ready_of(opcua_started, opcua_accepting),
                ),
                running,
            );
            &&& (s == Status::Success) <==> (running && (tcp_started ==> tcp_accepting) && (tls_started
                ==> tls_accepting) && (opcua_started ==> opcua_accepting))
            &&& s != Status::Success ==> s == Status::Unavailable
        }),
{
}

/// `/status` label of the simulation loop.
pub fn simulation_label(running: bool) -> (s: &'static str)
    ensures
        s@ == if running {
            "running"@
        } else {
            "stopped"@
        },
{
    if running {
        "running"
    } else {
        "stopped"
    }
}

/// `/status` label of the field plane.
pub fn listener_label(listening: bool) -> (s: &'static str)
    ensures
        s@ == if listening {
            "listening"@
        } else {
            "stopped"@
        },
{
    if listening {
        "listening"
    } else {
        "stopped"
    }
}

/// Catalog entry of a scenario.
pub open spec fn info_of(s: ScenarioSpec, source: Seq<char>, info: ScenarioInfo) -> bool {
    info.id == s.id && info.name == s.name && info.description == s.description && info.steps == s.steps@.len()
        && info.source@ == source
}

fn scenario_info(s: &ScenarioSpec, source: &'static str) -> (i: ScenarioInfo)
    ensures
        info_of(*s, source@, i),
{
    ScenarioInfo {
        id: s.id.clone(),
        name: s.name.clone(),
        description: s.description.clone(),
        steps: s.steps.len(),
        source,
    }
}

/// Catalog entries of the bundled scenarios, in document order.
pub fn bundled_infos(spec: &DeviceSpec) -> (r: Vec<ScenarioInfo>)
    ensures
        r@.len() == spec.scenarios@.len(),
        forall|i: int| 0 <= i < r@.len() ==> info_of(spec.scenarios@[i], "bundled"@, #[trigger] r@[i]),
{
    let mut r: Vec<ScenarioInfo> = Vec::new();
    let mut i: usize = 0;
    while i < spec.scenarios.len()
        invariant
            0 <= i <= spec.scenarios@.len(),
            r@.len() == i,
            forall|j: int| 0 <= j < i ==> info_of(spec.scenarios@[j], "bundled"@, #[trigger] r@[j]),
        decreases spec.scenarios@.len() - i,
    {
        r.push(scenario_info(&spec.scenarios[i], "bundled"));
        i = i + 1;
    }
    r
}

/// `GET /scenarios`: bundled scenarios in document order, then session
/// scenarios sorted by id.
pub fn list_scenarios(spec: &DeviceSpec, runner: &ScenarioRunner) -> (r: Vec<ScenarioInfo>)
    ensures
        r@.len() == spec.scenarios@.len() + runner.session().len(),
        forall|i: int|
            0 <= i < spec.scenarios@.len() ==> info_of(spec.scenarios@[i], "bundled"@, #[trigger] r@[i]),
        forall|i: int|
            0 <= i < runner.session().len() ==> info_of(
                runner.session()[i],
                "session"@,
                #[trigger] r@[spec.scenarios@.len() + i],
            ),
{
    let mut r = bundled_infos(spec);
    let session = runner.session_scenarios();
    let n = spec.scenarios.len();
    let mut i: usize = 0;
    while i < session.len()
        invariant
            0 <= i <= session@.len(),
            session@ == runner.session(),
            n == spec.scenarios@.len(),
            r@.len() == n + i,
            forall|j: int| 0 <= j < n ==> info_of(spec.scenarios@[j], "bundled"@, #[trigger] r@[j]),
            forall|j: int| 0 <= j < i ==> info_of(session@[j], "session"@, #[trigger] r@[n + j]),
        decreases session@.len() - i,
    {
        r.push(scenario_info(&session[i], "session"));
        i = i + 1;
    }
    r
}

/// Coil entries of `/config`, in table order.
pub fn coil_infos(coils: &Vec<CoilSpec>) -> (r: Vec<CoilInfo>)
    ensures
        r@.len() == coils@.len(),
        forall|i: int|
            0 <= i < r@.len() ==> (#[trigger] r@[i]).address == coils@[i].address && r@[i].name == coils@[i].name
                && r@[i].description == coils@[i].description && r@[i].default == coils@[i].default,
{
    let mut r: Vec<CoilInfo> = Vec::new();
    let mut i: usize = 0;
    while i < coils.len()
        invariant
            0 <= i <= coils@.len(),
            r@.len() == i,
            forall|j: int|
                0 <= j < i ==> (#[trigger] r@[j]).address == coils@[j].address && r@[j].name == coils@[j].name
                    && r@[j].description == coils@[j].description && r@[j].default == coils@[j].default,
        decreases coils@.len() - i,
    {
        let c = &coils[i];
        r.push(
            CoilInfo {
                address: c.address,
                name: c.name.clone(),
                description: c.description.clone(),
                default: c.default,
            },
        );
        i = i + 1;
    }
    r
}

/// Whether the device bundles a scenario with id `id`.
pub open spec fn bundled(spec: DeviceSpec, id: Seq<char>) -> bool {
    exists|i: int| 0 <= i < spec.scenarios@.len() && #[trigger] spec.scenarios@[i].id@ == id
}

/// `POST /scenarios`: install a session scenario. A bundled id is a
/// conflict; a scenario the device cannot run is unprocessable; otherwise
/// the session holds it (replacing a copy with the same id). Returns the id.
pub fn install_scenario(runner: &mut ScenarioRunner, spec: &DeviceSpec, body: ScenarioSpec) -> (r: Result<
    String,
    Refusal,
>)
    ensures
        bundled(*spec, body.id@) ==> (r matches Err(e) && e.status == Status::Conflict && e.body.detail@
            == "scenario '"@ + body.id@ + "' is bundled in the device YAML"@),
        !bundled(*spec, body.id@) && !spec.guest_ok(body) ==> (r matches Err(e) && e.status
            == Status::Unprocessable && exists|v: Invalid| spec.guest_show(body, v) && e.body.detail@ == v.text()),
        r is Ok <==> !bundled(*spec, body.id@) && spec.guest_ok(body),
        r matches Ok(id) ==> id@ == body.id@ && forall|s: ScenarioSpec| #[trigger] final(runner).session().contains(
            s,
        ) <==> (s == body || (old(runner).session().contains(s) && s.id@ != body.id@)),
        r is Err ==> final(runner).session() == old(runner).session(),
        final(runner).current() == old(runner).current(),
        final(runner).generation() == old(runner).generation(),
{
    if spec.scenario(body.id.as_str()).is_some() {
        return Err(
            refuse(Status::Conflict, quoted("scenario '", body.id.as_str(), "' is bundled in the device YAML")),
        );
    }
    match spec.validate_guest_scenario(&body) {
        Ok(()) => {},
        Err(e) => {
            return Err(refuse(Status::Unprocessable, e.message()));
        },
    }
    let id = body.id.clone();
    let _previous = runner.install_session(body);
    Ok(id)
}

/// `DELETE /scenarios/{name}`: remove a session scenario. A bundled id is
/// a conflict and an unknown one is not found. When the scenario is the
/// one last started, playback is stopped first; `Ok(true)` says so.
pub fn uninstall_scenario(runner: &mut ScenarioRunner, spec: &DeviceSpec, name: &str) -> (r: Result<bool, Refusal>)
    ensures
        bundled(*spec, name@) ==> (r matches Err(e) && e.status == Status::Conflict && e.body.detail@ == "scenario '"@
            + name@ + "' is bundled in the device YAML"@),
        !bundled(*spec, name@) && !has_session(old(runner).session(), name@) ==> (r matches Err(e) && e.status
            == Status::NotFound && e.body.detail@ == "Scenario '"@ + name@ + "' not found"@),
        r is Ok <==> !bundled(*spec, name@) && has_session(old(runner).session(), name@),
        r matches Ok(stopped) ==> {
            &&& stopped == (old(runner).current().scenario_name matches Some(n) && n@ == name@)
            &&& forall|s: ScenarioSpec| #[trigger] final(runner).session().contains(s) <==> old(
                runner,
            ).session().contains(s) && s.id@ != name@
            &&& stopped ==> final(runner).current() == crate::runner::stopped(old(runner).current())
                && final(runner).generation() == crate::runner::next_generation(old(runner).generation())
            &&& !stopped ==> final(runner).current() == old(runner).current() && final(runner).generation() == old(
                runner,
            ).generation()
        },
        r is Err ==> final(runner).session() == old(runner).session() && final(runner).current() == old(
            runner,
        ).current() && final(runner).generation() == old(runner).generation(),
{
    if spec.scenario(name).is_some() {
        return Err(refuse(Status::Conflict, quoted("scenario '", name, "' is bundled in the device YAML")));
    }
    if runner.session_scenario(name).is_none() {
        return Err(refuse(Status::NotFound, quoted("Scenario '", name, "' not found")));
    }
    let status = runner.status();
    let active = match &status.scenario_name {
        Some(n) => str_eq(n.as_str(), name),
        None => false,
    };
    if active {
        runner.mark_stopped();
    }
    runner.remove_session(name);
    Ok(active)
}

/// The scenario `POST /scenarios/{name}/run` plays: the bundled one with
/// that id, else the session copy.
pub fn resolve_scenario<'a>(spec: &'a DeviceSpec, runner: &'a ScenarioRunner, id: &str) -> (r: Option<
    &'a ScenarioSpec,
>)
    ensures
        bundled(*spec, id@) ==> (r matches Some(s) && exists|i: int|
            crate::device::first_scenario(spec.scenarios@, id@, i) && spec.scenarios@[i] == *s),
        !bundled(*spec, id@) && has_session(runner.session(), id@) ==> (r matches Some(s) && s.id@ == id@
            && runner.session().contains(*s)),
        !bundled(*spec, id@) && !has_session(runner.session(), id@) ==> r is None,
{
    match spec.scenario(id) {
        Some(s) => Some(s),
        None => match runner.session_scenario(id) {
            Some(s) => Some(s),
            None => None,
        },
    }
}

/// Start a run: the current run is superseded and a new one begins.
/// Returns the new run's generation.
pub fn start_run(runner: &mut ScenarioRunner, scenario: &ScenarioSpec) -> (g: u64)
    ensures
        g == crate::runner::next_generation(crate::runner::next_generation(old(runner).generation())),
        final(runner).generation() == g,
        final(runner).current().state == crate::runner::ScenarioState::Running,
        final(runner).current().step_index == 0,
        final(runner).current().total_steps == scenario.steps.len(),
        final(runner).session() == old(runner).session(),
{
    runner.mark_stopped();
    runner.begin(scenario)
}

} // verus!
