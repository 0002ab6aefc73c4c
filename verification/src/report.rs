//! The configuration summary `simbus check` prints for a valid device.
//!
//! Reals are printed as the caller renders them: the report takes the
//! rendered register defaults and trigger thresholds alongside the device.

use vstd::prelude::*;
use vstd::string::StrSliceExecFns;

use crate::device::{AlarmSpec, BindingSpec, CoilSpec, DeviceSpec, RegisterSpec};
use crate::lift::unserved;
use crate::scenario::ScenarioSpec;
use crate::text::{decimal, push_char, push_decimal, push_str};
use crate::types::ProtocolId;

verus! {

/// Rendered reals of a report, one entry per register or coil of each
/// table (the threshold of a coil without trigger is not printed).
#[derive(Debug, Clone, PartialEq, Eq)]
pub struct ReportReals {
    /// Holding register defaults.
    pub holding_defaults: Vec<String>,
    /// Input register defaults.
    pub input_defaults: Vec<String>,
    /// Coil trigger thresholds.
    pub coil_thresholds: Vec<String>,
    /// Discrete-input trigger thresholds.
    pub discrete_thresholds: Vec<String>,
}

/// `n` spaces.
pub open spec fn spaces(n: int) -> Seq<char>
    decreases n,
{
    if n <= 0 {
        Seq::empty()
    } else {
        spaces(n - 1).push(' ')
    }
}

/// `s` padded with spaces on the right to `w` characters.
pub open spec fn pad_right(s: Seq<char>, w: int) -> Seq<char> {
    s + spaces(w - s.len())
}

/// `s` padded with spaces on the left to `w` characters.
pub open spec fn pad_left(s: Seq<char>, w: int) -> Seq<char> {
    spaces(w - s.len()) + s
}

/// Text of a boolean.
pub open spec fn bool_text(b: bool) -> Seq<char> {
    if b {
        "true"@
    } else {
        "false"@
    }
}

/// One-line summary of a binding.
pub open spec fn binding_text(b: BindingSpec) -> Seq<char> {
    match b {
        BindingSpec::ModbusTcp { port, unit_id, .. } => "modbus-tcp :"@ + match port {
            Some(p) => decimal(p as nat),
            None => "default"@,
        } + " unit "@ + decimal(
            match unit_id {
                Some(u) => u,
                None => 1,
            } as nat,
        ),
        BindingSpec::ModbusRtu { device, baudrate } => "modbus-rtu "@ + device@ + " @"@ + decimal(baudrate as nat),
        BindingSpec::ModbusTls { port, cafile, .. } => "modbus-tls :"@ + decimal(port as nat) + if cafile is Some {
            " mTLS"@
        } else {
            Seq::empty()
        },
        BindingSpec::SnmpV2c { port, community, .. } => "snmp-v2c :"@ + decimal(port as nat) + " community "@
            + community@,
        BindingSpec::Opcua { port, .. } => "opcua :"@ + decimal(port as nat),
        BindingSpec::MqttSparkplug { broker, group_id, edge_node_id } => "sparkplug "@ + broker@ + " "@
            + group_id@ + "/"@ + edge_node_id@,
        BindingSpec::BacnetIp { port, device_instance, .. } => "bacnet-ip :"@ + decimal(port as nat)
            + " instance "@ + decimal(device_instance as nat),
    }
}

/// Binding summaries joined with `, `.
pub open spec fn bindings_text(bs: Seq<BindingSpec>) -> Seq<char>
    decreases bs.len(),
{
    if bs.len() == 0 {
        Seq::empty()
    } else if bs.len() == 1 {
        binding_text(bs[0])
    } else {
        bindings_text(bs.drop_last()) + ", "@ + binding_text(bs.last())
    }
}

/// Unserved protocols, each marked, joined with `, `.
pub open spec fn unserved_text(ps: Seq<ProtocolId>) -> Seq<char>
    decreases ps.len(),
{
    if ps.len() == 0 {
        Seq::empty()
    } else if ps.len() == 1 {
        ps[0].wire_name() + " (specified, not implemented)"@
    } else {
        unserved_text(ps.drop_last()) + ", "@ + ps.last().wire_name() + " (specified, not implemented)"@
    }
}

/// Report line of a register whose default renders as `d`.
pub open spec fn register_line(r: RegisterSpec, d: Seq<char>) -> Seq<char> {
    "    "@ + pad_left(decimal(r.address as nat), 5) + "  "@ + pad_right(r.name@, 24) + " "@ + pad_right(
        r.data_type.wire_name(),
        8,
    ) + " "@ + pad_right(
        match r.simulation {
            Some(b) => b.name(),
            None => "-"@,
        },
        16,
    ) + " default "@ + d + (if r.unit@.len() == 0 {
        Seq::empty()
    } else {
        " "@ + r.unit@
    }) + "  scale "@ + decimal(r.scale as nat) + "\n"@
}

/// Report line of a coil whose trigger threshold renders as `t`.
pub open spec fn coil_line(c: CoilSpec, t: Seq<char>) -> Seq<char> {
    "    "@ + pad_left(decimal(c.address as nat), 5) + "  "@ + pad_right(c.name@, 24) + " default "@ + pad_right(
        bool_text(c.default),
        5,
    ) + "  "@ + match c.trigger {
        None => "static"@,
        Some(tr) => tr.source_register@ + " "@ + tr.condition.wire_name() + " "@ + t,
    } + "\n"@
}

/// Lines of the first `n` registers.
pub open spec fn register_lines(regs: Seq<RegisterSpec>, ds: Seq<String>, n: int) -> Seq<char>
    decreases n,
{
    if n <= 0 {
        Seq::empty()
    } else {
        register_lines(regs, ds, n - 1) + register_line(regs[n - 1], ds[n - 1]@)
    }
}

/// Lines of the first `n` coils.
pub open spec fn coil_lines(cs: Seq<CoilSpec>, ts: Seq<String>, n: int) -> Seq<char>
    decreases n,
{
    if n <= 0 {
        Seq::empty()
    } else {
        coil_lines(cs, ts, n - 1) + coil_line(cs[n - 1], ts[n - 1]@)
    }
}

/// A register table section (nothing for an empty table).
pub open spec fn register_section(title: Seq<char>, regs: Seq<RegisterSpec>, ds: Seq<String>) -> Seq<char> {
    if regs.len() == 0 {
        Seq::empty()
    } else {
        "\n  "@ + title + "\n"@ + register_lines(regs, ds, regs.len() as int)
    }
}

/// A coil table section (nothing for an empty table).
pub open spec fn coil_section(title: Seq<char>, cs: Seq<CoilSpec>, ts: Seq<String>) -> Seq<char> {
    if cs.len() == 0 {
        Seq::empty()
    } else {
        "\n  "@ + title + "\n"@ + coil_lines(cs, ts, cs.len() as int)
    }
}

/// Report line of an alarm.
pub open spec fn alarm_line(a: AlarmSpec) -> Seq<char> {
    "    "@ + pad_right(a.name@, 22) + " "@ + pad_right(a.severity.wire_name(), 10) + " <- "@ + a.trigger@ + "\n"@
}

/// Lines of the first `n` alarms.
pub open spec fn alarm_lines(alarms: Seq<AlarmSpec>, n: int) -> Seq<char>
    decreases n,
{
    if n <= 0 {
        Seq::empty()
    } else {
        alarm_lines(alarms, n - 1) + alarm_line(alarms[n - 1])
    }
}

/// Report line of a bundled scenario.
pub open spec fn scenario_line(s: ScenarioSpec) -> Seq<char> {
    "    "@ + pad_right(s.id@, 22) + " "@ + pad_left(decimal(s.steps@.len()), 3) + " steps  "@ + s.name@ + "\n"@
}

/// Lines of the first `n` scenarios.
pub open spec fn scenario_lines(ss: Seq<ScenarioSpec>, n: int) -> Seq<char>
    decreases n,
{
    if n <= 0 {
        Seq::empty()
    } else {
        scenario_lines(ss, n - 1) + scenario_line(ss[n - 1])
    }
}

/// Summaries of the bindings to start.
pub open spec fn resolved_text(spec: DeviceSpec) -> Seq<char> {
    if spec.bindings@.len() > 0 {
        bindings_text(spec.bindings@)
    } else if spec.spec_version >= 2 {
        Seq::empty()
    } else {
        "modbus-tcp :"@ + decimal(spec.modbus.default_port as nat) + " unit "@ + decimal(spec.modbus.unit_id as nat)
    }
}

/// The header lines before the unimplemented-protocol note.
pub open spec fn head_before(path: Seq<char>, spec: DeviceSpec) -> Seq<char> {
    "OK  "@ + path + "\n\n"@ + "  name         "@ + spec.name@ + "\n"@ + "  type         "@ + spec.device_type@ + "\n"@
        + "  version      "@ + spec.version@ + "\n"@ + "  spec_version "@ + decimal(spec.spec_version as nat) + "\n"@
        + "  modbus       port "@ + decimal(spec.modbus.default_port as nat) + ", unit "@ + decimal(
        spec.modbus.unit_id as nat,
    ) + ", endianness "@ + spec.modbus.endianness.wire_name() + "\n"@ + "  bindings     "@ + resolved_text(spec) + (
    if spec.bindings@.len() == 0 {
        " (inferred)"@
    } else {
        Seq::empty()
    }) + "\n"@
}

/// The note line listing the declared protocols this runtime does not
/// serve; empty when it serves them all.
pub open spec fn unimplemented_line(spec: DeviceSpec) -> Seq<char> {
    let ps = unserved(spec.resolved_protocols());
    if ps.len() == 0 {
        Seq::empty()
    } else {
        "  unimplemented "@ + unserved_text(ps) + "\n"@
    }
}

/// The header lines after the note: a blank line and the counts.
pub open spec fn head_after(spec: DeviceSpec) -> Seq<char> {
    "\n"@ + "  counts       holding "@ + decimal(spec.registers.holding@.len()) + "  input "@ + decimal(
        spec.registers.input@.len(),
    ) + "  coils "@ + decimal(spec.registers.coils@.len()) + "  discrete "@ + decimal(
        spec.registers.discrete@.len(),
    ) + "\n"@
}

/// The header of the report, up to the counts line.
pub open spec fn report_head(path: Seq<char>, spec: DeviceSpec) -> Seq<char> {
    head_before(path, spec) + unimplemented_line(spec) + head_after(spec)
}

/// The sections after the header: registers, coils, alarms, scenarios.
pub open spec fn report_body(spec: DeviceSpec, reals: ReportReals) -> Seq<char> {
    let m = spec.registers;
    register_section("holding"@, m.holding@, reals.holding_defaults@) + register_section(
        "input"@,
        m.input@,
        reals.input_defaults@,
    ) + coil_section("coils"@, m.coils@, reals.coil_thresholds@) + coil_section(
        "discrete"@,
        m.discrete@,
        reals.discrete_thresholds@,
    ) + (if spec.alarms@.len() == 0 {
        Seq::empty()
    } else {
        "\n  alarms\n"@ + alarm_lines(spec.alarms@, spec.alarms@.len() as int)
    }) + (if spec.scenarios@.len() == 0 {
        Seq::empty()
    } else {
        "\n  scenarios\n"@ + scenario_lines(spec.scenarios@, spec.scenarios@.len() as int)
    })
}

/// The whole report.
pub open spec fn report_text(path: Seq<char>, spec: DeviceSpec, reals: ReportReals) -> Seq<char> {
    report_head(path, spec) + report_body(spec, reals)
}

/// The marker that follows each protocol named in the note line.
pub open spec fn not_served_mark() -> Seq<char> {
    " (specified, not implemented)"@
}

/// The note list ends with the marker of its last protocol.
proof fn lemma_unserved_text_ends(ps: Seq<ProtocolId>)
    requires
        ps.len() > 0,
    ensures
        exists|u: Seq<char>| unserved_text(ps) == u + not_served_mark(),
{
    if ps.len() == 1 {
        assert(unserved_text(ps) == ps[0].wire_name() + not_served_mark());
    } else {
        let u = unserved_text(ps.drop_last()) + ", "@ + ps.last().wire_name();
        assert(unserved_text(ps) == u + not_served_mark());
    }
}

/// A marker placed inside a line of a text can be found there.
proof fn lemma_mark_found(a: Seq<char>, head: Seq<char>, u: Seq<char>, tail: Seq<char>, b: Seq<char>)
    ensures
        ({
            let t = a + (head + (u + not_served_mark()) + tail) + b;
            let k: int = (a.len() + head.len() + u.len()) as int;
            &&& k + not_served_mark().len() <= t.len()
            &&& t.subrange(k, k + not_served_mark().len()) == not_served_mark()
        }),
{
    let t = a + (head + (u + not_served_mark()) + tail) + b;
    let k: int = (a.len() + head.len() + u.len()) as int;
    assert(t =~= (a + head + u) + not_served_mark() + (tail + b));
    assert(t.subrange(k, k + not_served_mark().len()) =~= not_served_mark());
}

/// The report carries the "specified, not implemented" note exactly when
/// some declared protocol is not implemented: the note line is empty when
/// every protocol is served; otherwise it stands in the report and the
/// marker follows each unserved protocol, the last one included.
pub proof fn lemma_unimplemented_note(path: Seq<char>, spec: DeviceSpec, reals: ReportReals)
    ensures
        (unimplemented_line(spec).len() == 0) <==> (unserved(spec.resolved_protocols()).len() == 0),
        report_text(path, spec, reals) == head_before(path, spec) + unimplemented_line(spec) + (head_after(spec)
            + report_body(spec, reals)),
        unserved(spec.resolved_protocols()).len() > 0 ==> exists|k: int|
            0 <= k && k + not_served_mark().len() <= report_text(path, spec, reals).len()
                && #[trigger] report_text(path, spec, reals).subrange(k, k + not_served_mark().len())
                == not_served_mark(),
{
    let t = report_text(path, spec, reals);
    let line = unimplemented_line(spec);
    let a = head_before(path, spec);
    let b = head_after(spec) + report_body(spec, reals);
    assert(t =~= a + line + b);
    let ps = unserved(spec.resolved_protocols());
    if ps.len() > 0 {
        reveal_strlit("  unimplemented ");
        lemma_unserved_text_ends(ps);
        let u = choose|u: Seq<char>| unserved_text(ps) == u + not_served_mark();
        assert(line == "  unimplemented "@ + (u + not_served_mark()) + "\n"@);
        lemma_mark_found(a, "  unimplemented "@, u, "\n"@, b);
        let k: int = (a.len() + "  unimplemented "@.len() + u.len()) as int;
        assert(t.subrange(k, k + not_served_mark().len()) == not_served_mark());
    } else {
        assert(line.len() == 0);
    }
}

proof fn lemma_spaces_len(n: int)
    ensures
        spaces(n).len() == if n <= 0 {
            0
        } else {
            n
        },
    decreases n,
{
    if n > 0 {
        lemma_spaces_len(n - 1);
    }
}

fn push_spaces(out: &mut String, n: usize)
    ensures
        final(out)@ == old(out)@ + spaces(n as int),
{
    let mut i: usize = 0;
    while i < n
        invariant
            0 <= i <= n,
            out@ == old(out)@ + spaces(i as int),
        decreases n - i,
    {
        push_char(out, ' ');
        i = i + 1;
        proof {
            assert(out@ =~= old(out)@ + spaces(i as int));
        }
    }
}

/// Append `s` padded on the right to `w` characters.
fn push_right(out: &mut String, s: &str, w: usize)
    ensures
        final(out)@ == old(out)@ + pad_right(s@, w as int),
{
    push_str(out, s);
    let n = s.unicode_len();
    let fill = if n < w {
        w - n
    } else {
        0
    };
    push_spaces(out, fill);
    proof {
        if n >= w {
            assert(spaces(w - s@.len()) =~= spaces(0));
        }
        assert(final(out)@ =~= old(out)@ + pad_right(s@, w as int));
    }
}

/// Append `s` padded on the left to `w` characters.
fn push_left(out: &mut String, s: &str, w: usize)
    ensures
        final(out)@ == old(out)@ + pad_left(s@, w as int),
{
    let n = s.unicode_len();
    let fill = if n < w {
        w - n
    } else {
        0
    };
    push_spaces(out, fill);
    push_str(out, s);
    proof {
        if n >= w {
            assert(spaces(w - s@.len()) =~= spaces(0));
        }
        assert(final(out)@ =~= old(out)@ + pad_left(s@, w as int));
    }
}

fn decimal_string(n: u64) -> (s: String)
    ensures
        s@ == decimal(n as nat),
{
    let mut s = String::new();
    push_decimal(&mut s, n);
    assert(s@ =~= decimal(n as nat));
    s
}

/// One-line summary of a binding.
pub fn describe_binding(binding: &BindingSpec) -> (s: String)
    ensures
        s@ == binding_text(*binding),
{
    let mut s = String::new();
    match binding {
        BindingSpec::ModbusTcp { port, unit_id, .. } => {
            push_str(&mut s, "modbus-tcp :");
            match port {
                Some(p) => push_decimal(&mut s, *p as u64),
                None => push_str(&mut s, "default"),
            }
            push_str(&mut s, " unit ");
            let unit = match unit_id {
                Some(u) => *u,
                None => 1,
            };
            push_decimal(&mut s, unit as u64);
        },
        BindingSpec::ModbusRtu { device, baudrate } => {
            push_str(&mut s, "modbus-rtu ");
            push_str(&mut s, device.as_str());
            push_str(&mut s, " @");
            push_decimal(&mut s, *baudrate as u64);
        },
        BindingSpec::ModbusTls { port, cafile, .. } => {
            push_str(&mut s, "modbus-tls :");
            push_decimal(&mut s, *port as u64);
            if cafile.is_some() {
                push_str(&mut s, " mTLS");
            }
        },
        BindingSpec::SnmpV2c { port, community, .. } => {
            push_str(&mut s, "snmp-v2c :");
            push_decimal(&mut s, *port as u64);
            push_str(&mut s, " community ");
            push_str(&mut s, community.as_str());
        },
        BindingSpec::Opcua { port, .. } => {
            push_str(&mut s, "opcua :");
            push_decimal(&mut s, *port as u64);
        },
        BindingSpec::MqttSparkplug { broker, group_id, edge_node_id } => {
            push_str(&mut s, "sparkplug ");
            push_str(&mut s, broker.as_str());
            push_str(&mut s, " ");
            push_str(&mut s, group_id.as_str());
            push_str(&mut s, "/");
            push_str(&mut s, edge_node_id.as_str());
        },
        BindingSpec::BacnetIp { port, device_instance, .. } => {
            push_str(&mut s, "bacnet-ip :");
            push_decimal(&mut s, *port as u64);
            push_str(&mut s, " instance ");
            push_decimal(&mut s, *device_instance as u64);
        },
    }
    assert(s@ =~= binding_text(*binding));
    s
}

fn register_line_string(r: &RegisterSpec, d: &String) -> (s: String)
    ensures
        s@ == register_line(*r, d@),
{
    let behavior = match &r.simulation {
        Some(b) => b.kind_name(),
        None => "-",
    };
    let unit_part = if r.unit.as_str().is_empty() {
        String::new()
    } else {
        let mut u = crate::text::string_of(" ");
        push_str(&mut u, r.unit.as_str());
        u
    };
    let address = decimal_string(r.address as u64);
    let mut s = crate::text::string_of("    ");
    push_left(&mut s, address.as_str(), 5);
    push_str(&mut s, "  ");
    push_right(&mut s, r.name.as_str(), 24);
    push_str(&mut s, " ");
    push_right(&mut s, r.data_type.as_str(), 8);
    push_str(&mut s, " ");
    push_right(&mut s, behavior, 16);
    push_str(&mut s, " default ");
    push_str(&mut s, d.as_str());
    push_str(&mut s, unit_part.as_str());
    push_str(&mut s, "  scale ");
    push_decimal(&mut s, r.scale as u64);
    push_str(&mut s, "\n");
    s
}

fn coil_line_string(c: &CoilSpec, t: &String) -> (s: String)
    ensures
        s@ == coil_line(*c, t@),
{
    let trigger = match &c.trigger {
        None => crate::text::string_of("static"),
        Some(tr) => {
            let mut x = crate::text::string_of(tr.source_register.as_str());
            push_str(&mut x, " ");
            push_str(&mut x, tr.condition.as_str());
            push_str(&mut x, " ");
            push_str(&mut x, t.as_str());
            x
        },
    };
    let address = decimal_string(c.address as u64);
    let mut s = crate::text::string_of("    ");
    push_left(&mut s, address.as_str(), 5);
    push_str(&mut s, "  ");
    push_right(&mut s, c.name.as_str(), 24);
    push_str(&mut s, " default ");
    push_right(
        &mut s,
        if c.default {
            "true"
        } else {
            "false"
        },
        5,
    );
    push_str(&mut s, "  ");
    push_str(&mut s, trigger.as_str());
    push_str(&mut s, "\n");
    s
}

fn alarm_line_string(a: &AlarmSpec) -> (s: String)
    ensures
        s@ == alarm_line(*a),
{
    let mut s = crate::text::string_of("    ");
    push_right(&mut s, a.name.as_str(), 22);
    push_str(&mut s, " ");
    push_right(&mut s, a.severity.as_str(), 10);
    push_str(&mut s, " <- ");
    push_str(&mut s, a.trigger.as_str());
    push_str(&mut s, "\n");
    s
}

fn scenario_line_string(sc: &ScenarioSpec) -> (s: String)
    ensures
        s@ == scenario_line(*sc),
{
    let steps = decimal_string(sc.steps.len() as u64);
    let mut s = crate::text::string_of("    ");
    push_right(&mut s, sc.id.as_str(), 22);
    push_str(&mut s, " ");
    push_left(&mut s, steps.as_str(), 3);
    push_str(&mut s, " steps  ");
    push_str(&mut s, sc.name.as_str());
    push_str(&mut s, "\n");
    s
}

fn push_register_lines(out: &mut String, regs: &Vec<RegisterSpec>, ds: &Vec<String>)
    requires
        ds@.len() == regs@.len(),
    ensures
        final(out)@ == old(out)@ + register_lines(regs@, ds@, regs@.len() as int),
{
    let mut i: usize = 0;
    while i < regs.len()
        invariant
            0 <= i <= regs@.len(),
            ds@.len() == regs@.len(),
            out@ == old(out)@ + register_lines(regs@, ds@, i as int),
        decreases regs@.len() - i,
    {
        let line = register_line_string(&regs[i], &ds[i]);
        push_str(out, line.as_str());
        proof {
            assert(out@ =~= old(out)@ + register_lines(regs@, ds@, i as int + 1));
        }
        i = i + 1;
    }
}

fn push_coil_lines(out: &mut String, cs: &Vec<CoilSpec>, ts: &Vec<String>)
    requires
        ts@.len() == cs@.len(),
    ensures
        final(out)@ == old(out)@ + coil_lines(cs@, ts@, cs@.len() as int),
{
    let mut i: usize = 0;
    while i < cs.len()
        invariant
            0 <= i <= cs@.len(),
            ts@.len() == cs@.len(),
            out@ == old(out)@ + coil_lines(cs@, ts@, i as int),
        decreases cs@.len() - i,
    {
        let line = coil_line_string(&cs[i], &ts[i]);
        push_str(out, line.as_str());
        proof {
            assert(out@ =~= old(out)@ + coil_lines(cs@, ts@, i as int + 1));
        }
        i = i + 1;
    }
}

fn register_section_string(title: &str, regs: &Vec<RegisterSpec>, ds: &Vec<String>) -> (s: String)
    requires
        ds@.len() == regs@.len(),
    ensures
        s@ == register_section(title@, regs@, ds@),
{
    if regs.len() == 0 {
        return String::new();
    }
    let mut s = crate::text::string_of("\n  ");
    push_str(&mut s, title);
    push_str(&mut s, "\n");
    push_register_lines(&mut s, regs, ds);
    s
}

fn coil_section_string(title: &str, cs: &Vec<CoilSpec>, ts: &Vec<String>) -> (s: String)
    requires
        ts@.len() == cs@.len(),
    ensures
        s@ == coil_section(title@, cs@, ts@),
{
    if cs.len() == 0 {
        return String::new();
    }
    let mut s = crate::text::string_of("\n  ");
    push_str(&mut s, title);
    push_str(&mut s, "\n");
    push_coil_lines(&mut s, cs, ts);
    s
}

fn bindings_string(bs: &Vec<BindingSpec>) -> (s: String)
    ensures
        s@ == bindings_text(bs@),
{
    let mut s = String::new();
    let mut i: usize = 0;
    while i < bs.len()
        invariant
            0 <= i <= bs@.len(),
            s@ == bindings_text(bs@.subrange(0, i as int)),
        decreases bs@.len() - i,
    {
        proof {
            assert(bs@.subrange(0, i as int + 1).drop_last() =~= bs@.subrange(0, i as int));
        }
        let d = describe_binding(&bs[i]);
        if i > 0 {
            push_str(&mut s, ", ");
            push_str(&mut s, d.as_str());
        } else {
            s = d;
            proof {
                assert(bindings_text(bs@.subrange(0, 1)) == binding_text(bs@[0]));
            }
        }
        i = i + 1;
    }
    proof {
        assert(bs@.subrange(0, bs@.len() as int) =~= bs@);
    }
    s
}

fn unserved_string(ps: &Vec<ProtocolId>) -> (s: String)
    ensures
        s@ == unserved_text(ps@),
{
    let mut s = String::new();
    let mut i: usize = 0;
    while i < ps.len()
        invariant
            0 <= i <= ps@.len(),
            s@ == unserved_text(ps@.subrange(0, i as int)),
        decreases ps@.len() - i,
    {
        proof {
            assert(ps@.subrange(0, i as int + 1).drop_last() =~= ps@.subrange(0, i as int));
        }
        if i > 0 {
            push_str(&mut s, ", ");
            push_str(&mut s, ps[i].as_str());
            push_str(&mut s, " (specified, not implemented)");
        } else {
            s = crate::text::string_of(ps[i].as_str());
            push_str(&mut s, " (specified, not implemented)");
            proof {
                assert(unserved_text(ps@.subrange(0, 1)) == ps@[0].wire_name() + " (specified, not implemented)"@);
            }
        }
        i = i + 1;
    }
    proof {
        assert(ps@.subrange(0, ps@.len() as int) =~= ps@);
    }
    s
}

fn resolved_string(spec: &DeviceSpec) -> (s: String)
    ensures
        s@ == resolved_text(*spec),
{
    if spec.bindings.len() > 0 {
        bindings_string(&spec.bindings)
    } else if spec.spec_version >= 2 {
        String::new()
    } else {
        let mut s = crate::text::string_of("modbus-tcp :");
        push_decimal(&mut s, spec.modbus.default_port as u64);
        push_str(&mut s, " unit ");
        push_decimal(&mut s, spec.modbus.unit_id as u64);
        s
    }
}

fn head_before_string(path: &str, spec: &DeviceSpec) -> (s: String)
    ensures
        s@ == head_before(path@, *spec),
{
    let resolved = resolved_string(spec);
    let note = if spec.bindings.len() == 0 {
        crate::text::string_of(" (inferred)")
    } else {
        String::new()
    };
    let mut s = crate::text::string_of("OK  ");
    push_str(&mut s, path);
    push_str(&mut s, "\n\n");
    push_str(&mut s, "  name         ");
    push_str(&mut s, spec.name.as_str());
    push_str(&mut s, "\n");
    push_str(&mut s, "  type         ");
    push_str(&mut s, spec.device_type.as_str());
    push_str(&mut s, "\n");
    push_str(&mut s, "  version      ");
    push_str(&mut s, spec.version.as_str());
    push_str(&mut s, "\n");
    push_str(&mut s, "  spec_version ");
    push_decimal(&mut s, spec.spec_version as u64);
    push_str(&mut s, "\n");
    push_str(&mut s, "  modbus       port ");
    push_decimal(&mut s, spec.modbus.default_port as u64);
    push_str(&mut s, ", unit ");
    push_decimal(&mut s, spec.modbus.unit_id as u64);
    push_str(&mut s, ", endianness ");
    push_str(&mut s, spec.modbus.endianness.as_str());
    push_str(&mut s, "\n");
    push_str(&mut s, "  bindings     ");
    push_str(&mut s, resolved.as_str());
    push_str(&mut s, note.as_str());
    push_str(&mut s, "\n");
    s
}

fn unimplemented_line_string(spec: &DeviceSpec) -> (s: String)
    ensures
        s@ == unimplemented_line(*spec),
{
    let ps = spec.unimplemented_protocols();
    if ps.len() == 0 {
        String::new()
    } else {
        let mut u = crate::text::string_of("  unimplemented ");
        let list = unserved_string(&ps);
        push_str(&mut u, list.as_str());
        push_str(&mut u, "\n");
        u
    }
}

fn head_after_string(spec: &DeviceSpec) -> (s: String)
    ensures
        s@ == head_after(*spec),
{
    let mut s = crate::text::string_of("\n");
    push_str(&mut s, "  counts       holding ");
    push_decimal(&mut s, spec.registers.holding.len() as u64);
    push_str(&mut s, "  input ");
    push_decimal(&mut s, spec.registers.input.len() as u64);
    push_str(&mut s, "  coils ");
    push_decimal(&mut s, spec.registers.coils.len() as u64);
    push_str(&mut s, "  discrete ");
    push_decimal(&mut s, spec.registers.discrete.len() as u64);
    push_str(&mut s, "\n");
    s
}

fn head_string(path: &str, spec: &DeviceSpec) -> (s: String)
    ensures
        s@ == report_head(path@, *spec),
{
    let mut s = head_before_string(path, spec);
    let line = unimplemented_line_string(spec);
    push_str(&mut s, line.as_str());
    let after = head_after_string(spec);
    push_str(&mut s, after.as_str());
    s
}

fn alarms_string(alarms: &Vec<AlarmSpec>) -> (s: String)
    ensures
        s@ == (if alarms@.len() == 0 {
            Seq::empty()
        } else {
            "\n  alarms\n"@ + alarm_lines(alarms@, alarms@.len() as int)
        }),
{
    if alarms.len() == 0 {
        return String::new();
    }
    let mut s = crate::text::string_of("\n  alarms\n");
    let mut i: usize = 0;
    while i < alarms.len()
        invariant
            0 <= i <= alarms@.len(),
            s@ == "\n  alarms\n"@ + alarm_lines(alarms@, i as int),
        decreases alarms@.len() - i,
    {
        let line = alarm_line_string(&alarms[i]);
        push_str(&mut s, line.as_str());
        proof {
            assert(s@ =~= "\n  alarms\n"@ + alarm_lines(alarms@, i as int + 1));
        }
        i = i + 1;
    }
    s
}

fn scenarios_string(ss: &Vec<ScenarioSpec>) -> (s: String)
    ensures
        s@ == (if ss@.len() == 0 {
            Seq::empty()
        } else {
            "\n  scenarios\n"@ + scenario_lines(ss@, ss@.len() as int)
        }),
{
    if ss.len() == 0 {
        return String::new();
    }
    let mut s = crate::text::string_of("\n  scenarios\n");
    let mut i: usize = 0;
    while i < ss.len()
        invariant
            0 <= i <= ss@.len(),
            s@ == "\n  scenarios\n"@ + scenario_lines(ss@, i as int),
        decreases ss@.len() - i,
    {
        let line = scenario_line_string(&ss[i]);
        push_str(&mut s, line.as_str());
        proof {
            assert(s@ =~= "\n  scenarios\n"@ + scenario_lines(ss@, i as int + 1));
        }
        i = i + 1;
    }
    s
}

/// Text report produced by `simbus check`.
pub fn device_report(path: &str, spec: &DeviceSpec, reals: &ReportReals) -> (s: String)
    requires
        reals.holding_defaults@.len() == spec.registers.holding@.len(),
        reals.input_defaults@.len() == spec.registers.input@.len(),
        reals.coil_thresholds@.len() == spec.registers.coils@.len(),
        reals.discrete_thresholds@.len() == spec.registers.discrete@.len(),
    ensures
        s@ == report_text(path@, *spec, *reals),
{
    let mut out = head_string(path, spec);
    let body = body_string(spec, reals);
    push_str(&mut out, body.as_str());
    out
}

fn body_string(spec: &DeviceSpec, reals: &ReportReals) -> (out: String)
    requires
        reals.holding_defaults@.len() == spec.registers.holding@.len(),
        reals.input_defaults@.len() == spec.registers.input@.len(),
        reals.coil_thresholds@.len() == spec.registers.coils@.len(),
        reals.discrete_thresholds@.len() == spec.registers.discrete@.len(),
    ensures
        out@ == report_body(*spec, *reals),
{
    let mut out = String::new();
    let h = register_section_string("holding", &spec.registers.holding, &reals.holding_defaults);
    push_str(&mut out, h.as_str());
    let n = register_section_string("input", &spec.registers.input, &reals.input_defaults);
    push_str(&mut out, n.as_str());
    let c = coil_section_string("coils", &spec.registers.coils, &reals.coil_thresholds);
    push_str(&mut out, c.as_str());
    let d = coil_section_string("discrete", &spec.registers.discrete, &reals.discrete_thresholds);
    push_str(&mut out, d.as_str());
    let a = alarms_string(&spec.alarms);
    push_str(&mut out, a.as_str());
    let sc = scenarios_string(&spec.scenarios);
    push_str(&mut out, sc.as_str());
    out
}

} // verus!
