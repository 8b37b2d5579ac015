//! Windows services of XAMPP: their names, ports and what `sc.exe` reports.

use vstd::prelude::*;
use crate::{ServiceState, ServiceStatus, ServiceType};
use crate::text::{
    chars_of, contains, contains_exec, decimal, decimal_string, find_from, lemma_find_from,
    line_spans_exec, lines, line_spans, lemma_line_spans_bounds, parse_u32, parse_u32_exec,
    push_range, push_str, split, split_spans, split_spans_exec, starts_with, starts_with_exec,
    trim, trim_range,
};

verus! {

/// Start or stop.
#[derive(Clone, Copy, Debug, PartialEq, Eq, Structural)]
pub enum ServiceAction {
    Start,
    Stop,
}

/// The Windows service name of each XAMPP service.
pub open spec fn service_name_of(t: ServiceType) -> Seq<char> {
    match t {
        ServiceType::Apache => "Apache2.4"@,
        ServiceType::MySQL => "mysql"@,
        ServiceType::FileZilla => "FileZilla"@,
    }
}

/// The Windows service name of `service_type`.
pub fn service_name(service_type: &ServiceType) -> (r: &'static str)
    ensures
        r@ == service_name_of(*service_type),
{
    match service_type {
        ServiceType::Apache => "Apache2.4",
        ServiceType::MySQL => "mysql",
        ServiceType::FileZilla => "FileZilla",
    }
}

/// The port a service listens on by default.
pub open spec fn default_port(t: ServiceType) -> u16 {
    match t {
        ServiceType::Apache => 80,
        ServiceType::MySQL => 3306,
        ServiceType::FileZilla => 21,
    }
}

/// The port probed on a remote machine for `service_type`.
pub fn service_port(service_type: &ServiceType) -> (r: u16)
    ensures
        r == default_port(*service_type),
{
    match service_type {
        ServiceType::Apache => 80,
        ServiceType::MySQL => 3306,
        ServiceType::FileZilla => 21,
    }
}

/// The services probed on every machine, in order.
pub fn all_service_types() -> (r: Vec<ServiceType>)
    ensures
        r@ == seq![ServiceType::Apache, ServiceType::MySQL, ServiceType::FileZilla],
{
    vec![ServiceType::Apache, ServiceType::MySQL, ServiceType::FileZilla]
}

/// The arguments of `sc.exe` that start or stop a service, on `remote_host`
/// when one is given.
pub open spec fn control_args(
    t: ServiceType,
    action: ServiceAction,
    remote_host: Option<Seq<char>>,
) -> Seq<Seq<char>> {
    let verb = match action {
        ServiceAction::Start => "start"@,
        ServiceAction::Stop => "stop"@,
    };
    match remote_host {
        Some(h) => seq!["\\\\"@ + h, verb, service_name_of(t)],
        None => seq![verb, service_name_of(t)],
    }
}

/// The arguments of `sc.exe` for `action` on `service_type` (see `control_args`).
pub fn sc_control_args(
    service_type: &ServiceType,
    action: ServiceAction,
    remote_host: Option<&str>,
) -> (r: Vec<String>)
    ensures
        r@.map_values(|s: String| s@) == control_args(
            *service_type,
            action,
            match remote_host {
                Some(h) => Some(h@),
                None => None,
            },
        ),
{
    let mut args: Vec<String> = Vec::new();
    if let Some(host) = remote_host {
        let mut h = String::from_str("\\\\");
        push_str(&mut h, host);
        args.push(h);
    }
    match action {
        ServiceAction::Start => args.push(String::from_str("start")),
        ServiceAction::Stop => args.push(String::from_str("stop")),
    }
    args.push(String::from_str(service_name(service_type)));
    proof {
        let ghost expect = control_args(
            *service_type,
            action,
            match remote_host {
                Some(h) => Some(h@),
                None => None,
            },
        );
        assert(args@.map_values(|s: String| s@) =~= expect);
    }
    args
}

/// The message of a failed `sc.exe` run: its trimmed error output, or its
/// trimmed standard output when the error output is blank.
pub open spec fn failure_message(stderr: Seq<char>, stdout: Seq<char>) -> Seq<char> {
    "Service command failed: "@ + if trim(stderr).len() == 0 {
        trim(stdout)
    } else {
        trim(stderr)
    }
}

/// The error reported when `sc.exe` fails (see `failure_message`).
pub fn command_failure(stderr: &str, stdout: &str) -> (r: String)
    ensures
        r@ == failure_message(stderr@, stdout@),
{
    let e = chars_of(stderr);
    let o = chars_of(stdout);
    let (ea, eb) = trim_range(&e, 0, e.len());
    let mut r = String::from_str("Service command failed: ");
    assert(e@.subrange(0, e@.len() as int) =~= e@);
    assert(o@.subrange(0, o@.len() as int) =~= o@);
    if ea == eb {
        let (oa, ob) = trim_range(&o, 0, o.len());
        push_range(&mut r, &o, oa, ob);
    } else {
        push_range(&mut r, &e, ea, eb);
    }
    r
}

/// The state that `sc query` output shows.
pub open spec fn sc_state(out: Seq<char>) -> ServiceState {
    if contains(out, "RUNNING"@) {
        ServiceState::Running
    } else if contains(out, "STOPPED"@) {
        ServiceState::Stopped
    } else if contains(out, "START_PENDING"@) || contains(out, "STOP_PENDING"@) {
        ServiceState::Starting
    } else {
        ServiceState::Error
    }
}

/// A line whose trimmed text starts with `PID`.
pub open spec fn is_pid_line(l: Seq<char>) -> bool {
    starts_with(trim(l), "PID"@)
}

/// Index of the first PID line of `ls` at or after `k`, or `ls.len()`.
pub open spec fn first_pid_line(ls: Seq<Seq<char>>, k: int) -> int
    decreases ls.len() - k,
{
    if k < 0 || k >= ls.len() {
        ls.len() as int
    } else if is_pid_line(ls[k]) {
        k
    } else {
        first_pid_line(ls, k + 1)
    }
}

/// The process id on a PID line: its second `:`-separated piece, trimmed,
/// read as a `u32`.
pub open spec fn pid_of_line(l: Seq<char>) -> Option<u32> {
    let ps = split(l, ':');
    if ps.len() > 1 {
        parse_u32(trim(ps[1]))
    } else {
        None
    }
}

/// The process id that `sc query` output shows: taken from its first PID line.
pub open spec fn sc_pid(out: Seq<char>) -> Option<u32> {
    let ls = lines(out);
    let k = first_pid_line(ls, 0);
    if k < ls.len() {
        pid_of_line(ls[k])
    } else {
        None
    }
}

/// The status of a local service from the output of `sc query`; the port is
/// Apache's configured port, or the default port of the other services.
pub fn parse_sc_query(output: &str, service_type: &ServiceType, apache_port: u16) -> (r:
    ServiceStatus)
    ensures
        r.name == *service_type,
        r.status == sc_state(output@),
        r.pid == sc_pid(output@),
        r.port == (match *service_type {
            ServiceType::Apache => apache_port,
            _ => default_port(*service_type),
        }),
        r.uptime is None,
{
    let v = chars_of(output);
    let state = if contains_exec(&v, &chars_of("RUNNING")) {
        ServiceState::Running
    } else if contains_exec(&v, &chars_of("STOPPED")) {
        ServiceState::Stopped
    } else if contains_exec(&v, &chars_of("START_PENDING")) || contains_exec(
        &v,
        &chars_of("STOP_PENDING"),
    ) {
        ServiceState::Starting
    } else {
        ServiceState::Error
    };
    let pid = pid_from(&v);
    let port = match service_type {
        ServiceType::Apache => apache_port,
        ServiceType::MySQL => 3306,
        ServiceType::FileZilla => 21,
    };
    ServiceStatus { name: *service_type, status: state, port, pid, uptime: None }
}

/// The process id of the first PID line of `v` (see `sc_pid`).
fn pid_from(v: &Vec<char>) -> (r: Option<u32>)
    ensures
        r == sc_pid(v@),
{
    let spans = line_spans_exec(v);
    let ghost ls = lines(v@);
    let pid_chars = chars_of("PID");
    let mut k: usize = 0;
    while k < spans.len()
        invariant
            k <= spans@.len(),
            spans@.len() == line_spans(v@).len(),
            ls == lines(v@),
            ls.len() == spans@.len(),
            pid_chars@ == "PID"@,
            forall|j: int|
                0 <= j < spans@.len() ==> (#[trigger] spans@[j]).0 == line_spans(v@)[j].0
                    && spans@[j].1 == line_spans(v@)[j].1,
            forall|j: int| 0 <= j < spans@.len() ==> (#[trigger] spans@[j]).0 <= spans@[j].1 <= v@.len(),
            first_pid_line(ls, 0) == first_pid_line(ls, k as int),
        decreases spans@.len() - k,
    {
        let (s0, s1) = spans[k];
        let (a, b) = trim_range(v, s0, s1);
        assert(ls[k as int] == v@.subrange(s0 as int, s1 as int));
        let t = &v[a..b];
        assert(t@ == v@.subrange(a as int, b as int));
        if starts_with_exec(t, &pid_chars) {
            assert(is_pid_line(ls[k as int]));
            let pieces = split_spans_exec(v, s0, s1, ':');
            if pieces.len() > 1 {
                let (p0, p1) = pieces[1];
                let (x, y) = trim_range(v, p0, p1);
                proof {
                    let l = ls[k as int];
                    let sp = split_spans(l, ':')[1];
                    assert(split(l, ':')[1] == l.subrange(sp.0, sp.1));
                    assert(l.subrange(sp.0, sp.1) =~= v@.subrange(p0 as int, p1 as int));
                }
                return parse_u32_exec(v, x, y);
            } else {
                return None;
            }
        }
        k = k + 1;
    }
    None
}

/// The status of a remote service, from whether its port accepted a
/// connection.
pub fn remote_status(service_type: &ServiceType, is_running: bool) -> (r: ServiceStatus)
    ensures
        r.name == *service_type,
        r.status == (if is_running {
            ServiceState::Running
        } else {
            ServiceState::Stopped
        }),
        r.port == default_port(*service_type),
        r.pid is None,
        r.uptime is None,
{
    let port = service_port(service_type);
    let status = if is_running {
        ServiceState::Running
    } else {
        ServiceState::Stopped
    };
    ServiceStatus { name: *service_type, status, port, pid: None, uptime: None }
}

/// The address `ip:port` probed for `service_type` on a remote machine.
pub fn remote_service_address(ip: &str, service_type: &ServiceType) -> (r: String)
    ensures
        r@ == ip@ + ":"@ + decimal(default_port(*service_type) as nat),
{
    let mut r = String::from_str(ip);
    r.append(":");
    let p = decimal_string(service_port(service_type) as u64);
    r.append(p.as_str());
    r
}

/// The states of Apache, MySQL and FileZilla on a remote machine, from
/// whether each one's port accepted a connection.
pub fn remote_statuses(running: [bool; 3]) -> (r: Vec<ServiceStatus>)
    ensures
        r@.len() == 3,
        forall|i: int|
            0 <= i < 3 ==> (#[trigger] r@[i]).name == seq![
                ServiceType::Apache,
                ServiceType::MySQL,
                ServiceType::FileZilla,
            ][i] && r@[i].port == default_port(r@[i].name) && r@[i].status == (if running@[i] {
                ServiceState::Running
            } else {
                ServiceState::Stopped
            }) && r@[i].pid is None && r@[i].uptime is None,
{
    let types = all_service_types();
    let mut r: Vec<ServiceStatus> = Vec::new();
    let mut i: usize = 0;
    while i < 3
        invariant
            i <= 3,
            types@ == seq![ServiceType::Apache, ServiceType::MySQL, ServiceType::FileZilla],
            r@.len() == i,
            forall|j: int|
                0 <= j < i ==> (#[trigger] r@[j]).name == types@[j] && r@[j].port == default_port(
                    r@[j].name,
                ) && r@[j].status == (if running@[j] {
                    ServiceState::Running
                } else {
                    ServiceState::Stopped
                }) && r@[j].pid is None && r@[j].uptime is None,
        decreases 3 - i,
    {
        r.push(remote_status(&types[i], running[i]));
        i = i + 1;
    }
    r
}

/// The service a name asks for, in any case.
pub open spec fn service_type_of(lower: Seq<char>) -> Option<ServiceType> {
    if lower == "apache"@ {
        Some(ServiceType::Apache)
    } else if lower == "mysql"@ {
        Some(ServiceType::MySQL)
    } else if lower == "filezilla"@ {
        Some(ServiceType::FileZilla)
    } else {
        None
    }
}

/// The service named `s` (see `service_type_of`), or the refusal of an
/// unknown name.
pub fn parse_service_type(s: &str) -> (r: Result<ServiceType, String>)
    ensures
        match service_type_of(crate::unicode::lowercase(s@)) {
            Some(t) => r == Ok::<ServiceType, String>(t),
            None => r matches Err(e) && e@ == "Unknown service: "@ + s@,
        },
{
    let lower = crate::unicode::to_lowercase(s);
    let v = chars_of(lower.as_str());
    if crate::text::chars_eq(&v, &chars_of("apache")) {
        Ok(ServiceType::Apache)
    } else if crate::text::chars_eq(&v, &chars_of("mysql")) {
        Ok(ServiceType::MySQL)
    } else if crate::text::chars_eq(&v, &chars_of("filezilla")) {
        Ok(ServiceType::FileZilla)
    } else {
        let mut e = String::from_str("Unknown service: ");
        e.append(s);
        Err(e)
    }
}

/// Whether the machine at `ip` is this one: a loopback name, or this
/// machine's own address `local_ip` when it is known.
pub open spec fn is_local(ip: Seq<char>, local_ip: Option<Seq<char>>) -> bool {
    ip == "127.0.0.1"@ || ip == "localhost"@ || ip == "::1"@ || local_ip == Some(ip)
}

/// Law: a machine is this one exactly when its address is `127.0.0.1`,
/// `localhost`, `::1` or this machine's own known address.
pub proof fn law_local_machines(ip: Seq<char>, local_ip: Option<Seq<char>>)
    ensures
        is_local(ip, local_ip) <==> (ip == "127.0.0.1"@ || ip == "localhost"@ || ip == "::1"@
            || local_ip == Some(ip)),
{
}

/// The host to control services on: none for this machine (see `is_local`),
/// else the machine's address.
pub fn remote_host_for(ip: &str, local_ip: Option<&str>) -> (r: Option<String>)
    ensures
        is_local(ip@, match local_ip { Some(l) => Some(l@), None => None }) ==> r is None,
        !is_local(ip@, match local_ip { Some(l) => Some(l@), None => None }) ==> (r matches Some(h)
            && h@ == ip@),
{
    let v = chars_of(ip);
    let local = crate::text::chars_eq(&v, &chars_of("127.0.0.1")) || crate::text::chars_eq(
        &v,
        &chars_of("localhost"),
    ) || crate::text::chars_eq(&v, &chars_of("::1")) || match local_ip {
        Some(l) => crate::text::chars_eq(&v, &chars_of(l)),
        None => false,
    };
    if local {
        None
    } else {
        Some(String::from_str(ip))
    }
}

/// The pause between stopping and starting a service on restart, in seconds.
pub const RESTART_PAUSE_SECS: u64 = 1;

} // verus!
