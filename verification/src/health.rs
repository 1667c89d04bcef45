//! The health endpoint: whether the sidecar is ready and alive, and what is
//! answered to an HTTP request that asks for it.

use vstd::prelude::*;
use vstd::utf8::encode_utf8;

use crate::env::{number_setting, EnvVars};
use crate::logger::{Level, LogEntry};
use crate::number::{decimal, decimal_string, parse_unsigned};
use crate::text::{
    cat2, chars_of, find_char, first_at, same, second_word, show_bytes, shown_bytes, string_of,
    word_after_first,
};

verus! {

/// How long the Kubernetes API may stay silent before the sidecar no longer
/// counts as alive.
pub const K8S_CONTACT_THRESHOLD_SECONDS: u64 = 60;

/// What the health endpoint reports on.
pub struct Health {
    /// Whether the first sync is complete.
    pub ready: bool,
    /// When Kubernetes was last heard of, in milliseconds since the start.
    pub last_contact_ms: u64,
    /// For each watcher, whether it is running.
    pub watchers: Vec<bool>,
}

impl Health {
    /// The state at the start: not ready, and no watchers.
    pub fn new() -> (r: Health)
        ensures
            !r.ready,
            r.last_contact_ms == 0,
            r.watchers@.len() == 0,
    {
        Health { ready: false, last_contact_ms: 0, watchers: Vec::new() }
    }
}

/// Notes that the first sync is complete.
pub fn mark_ready(health: &mut Health)
    ensures
        final(health).ready,
        final(health).last_contact_ms == old(health).last_contact_ms,
        final(health).watchers == old(health).watchers,
{
    health.ready = true;
}

/// Notes that Kubernetes was heard of at `now_ms`.
pub fn update_k8s_contact(health: &mut Health, now_ms: u64)
    ensures
        final(health).last_contact_ms == now_ms,
        final(health).ready == old(health).ready,
        final(health).watchers == old(health).watchers,
{
    health.last_contact_ms = now_ms;
}

/// Takes the watchers to report on.
pub fn register_watchers(health: &mut Health, flags: Vec<bool>)
    ensures
        final(health).watchers == flags,
        final(health).ready == old(health).ready,
        final(health).last_contact_ms == old(health).last_contact_ms,
{
    health.watchers = flags;
}

/// Notes that watcher `index` has stopped.
pub fn watcher_stopped(health: &mut Health, index: usize)
    ensures
        final(health).ready == old(health).ready,
        final(health).last_contact_ms == old(health).last_contact_ms,
        final(health).watchers@ == (if index < old(health).watchers@.len() {
            old(health).watchers@.update(index as int, false)
        } else {
            old(health).watchers@
        }),
{
    if index < health.watchers.len() {
        health.watchers.set(index, false);
    }
}

/// Some watcher is not running.
pub open spec fn some_watcher_dead(watchers: Seq<bool>) -> bool {
    exists|i: int| 0 <= i < watchers.len() && !#[trigger] watchers[i]
}

/// Kubernetes has been silent for longer than the threshold.
pub open spec fn contact_lost(health: Health, now_ms: u64) -> bool {
    now_ms - health.last_contact_ms > K8S_CONTACT_THRESHOLD_SECONDS * 1000
}

/// Silence is not undone by waiting: once Kubernetes counts as lost, it does
/// so until it is heard of.
pub proof fn contact_stays_lost(health: Health, now_ms: u64, later_ms: u64)
    requires
        contact_lost(health, now_ms),
        now_ms <= later_ms,
    ensures
        contact_lost(health, later_ms),
{
}

/// Everything is well: ready, Kubernetes heard of, all watchers running.
pub open spec fn is_healthy(health: Health, now_ms: u64) -> bool {
    health.ready && !contact_lost(health, now_ms) && !some_watcher_dead(health.watchers@)
}

/// The body of the health report. The first thing that is wrong is reported.
pub open spec fn health_text(health: Health, now_ms: u64) -> Seq<char> {
    if !health.ready {
        "NOT READY"@
    } else if contact_lost(health, now_ms) {
        "NOT LIVE (K8s contact lost)"@
    } else if some_watcher_dead(health.watchers@) {
        "NOT LIVE (watcher thread died)"@
    } else {
        "OK"@
    }
}

/// Status code, reason and body of the health report.
pub fn status_body(health: &Health, now_ms: u64) -> (r: (u16, &'static str, &'static str))
    ensures
        r.0 == (if is_healthy(*health, now_ms) {
            200u16
        } else {
            503u16
        }),
        r.1@ == (if is_healthy(*health, now_ms) {
            "OK"@
        } else {
            "Service Unavailable"@
        }),
        r.2@ == health_text(*health, now_ms),
{
    if !health.ready {
        return (503, "Service Unavailable", "NOT READY");
    }
    if now_ms > health.last_contact_ms && now_ms - health.last_contact_ms
        > K8S_CONTACT_THRESHOLD_SECONDS * 1000 {
        return (503, "Service Unavailable", "NOT LIVE (K8s contact lost)");
    }
    let mut i: usize = 0;
    while i < health.watchers.len()
        invariant
            health.ready,
            !contact_lost(*health, now_ms),
            i <= health.watchers@.len(),
            forall|j: int| 0 <= j < i ==> #[trigger] health.watchers@[j],
        decreases health.watchers@.len() - i,
    {
        if !health.watchers[i] {
            assert(some_watcher_dead(health.watchers@));
            return (503, "Service Unavailable", "NOT LIVE (watcher thread died)");
        }
        i += 1;
    }
    (200, "OK", "OK")
}

// ---------------------------------------------------------------------------
// The HTTP exchange
// ---------------------------------------------------------------------------

/// The path that a request asks for: the second word of its first line.
pub open spec fn request_path(request: Seq<char>) -> Seq<char> {
    let word = second_word(request.take(first_at(request, '\n')));
    if word.len() == 0 {
        "/"@
    } else {
        word
    }
}

/// The path that a request asks for.
pub fn path_of(request: &str) -> (r: String)
    ensures
        r@ == request_path(request@),
{
    let chars = chars_of(request);
    let end: usize = find_char(&chars, '\n');
    let line = string_of(&chars, 0, end);
    assert(line@ =~= request@.take(first_at(request@, '\n')));
    let word = word_after_first(line.as_str());
    if word.as_str().is_empty() {
        "/".to_string()
    } else {
        word
    }
}

/// The answer to a request for `path`: the health report, or 404.
pub open spec fn answer(path: Seq<char>, health: Health, now_ms: u64) -> (u16, Seq<char>, Seq<char>) {
    if path == "/healthz"@ {
        if is_healthy(health, now_ms) {
            (200, "OK"@, health_text(health, now_ms))
        } else {
            (503, "Service Unavailable"@, health_text(health, now_ms))
        }
    } else {
        (404, "Not Found"@, "Not Found"@)
    }
}

/// An HTTP response.
pub open spec fn response_text(code: u16, reason: Seq<char>, body: Seq<char>) -> Seq<char> {
    "HTTP/1.0 "@ + decimal(code as nat) + " "@ + reason
        + "\r\nServer: HealthHTTP/1.0\r\nContent-Type: text/plain; charset=utf-8\r\nContent-Length: "@
        + decimal(encode_utf8(body).len()) + "\r\nConnection: close\r\n\r\n"@ + body
}

/// Renders an HTTP response.
pub fn render_response(code: u16, reason: &str, body: &str) -> (r: String)
    ensures
        r@ == response_text(code, reason@, body@),
{
    let size: usize = body.as_bytes().len();
    let mut out = "HTTP/1.0 ".to_string();
    out.append(decimal_string(code as u64).as_str());
    out.append(" ");
    out.append(reason);
    out.append(
        "\r\nServer: HealthHTTP/1.0\r\nContent-Type: text/plain; charset=utf-8\r\nContent-Length: ",
    );
    out.append(decimal_string(size as u64).as_str());
    out.append("\r\nConnection: close\r\n\r\n");
    out.append(body);
    out
}

/// What is answered to the text of a request.
pub fn respond(health: &Health, now_ms: u64, request: &str) -> (r: String)
    ensures
        ({
            let a = answer(request_path(request@), *health, now_ms);
            r@ == response_text(a.0, a.1, a.2)
        }),
{
    let path = path_of(request);
    if same(path.as_str(), "/healthz") {
        let (code, reason, body) = status_body(health, now_ms);
        render_response(code, reason, body)
    } else {
        render_response(404, "Not Found", "Not Found")
    }
}

/// What is answered to the bytes of a request, of which anything that is not
/// UTF-8 is replaced; nothing if none arrived.
pub fn handle(health: &Health, now_ms: u64, request: &[u8]) -> (r: Option<String>)
    ensures
        r is Some == (request@.len() > 0),
        r is Some ==> ({
            let a = answer(request_path(shown_bytes(request@)), *health, now_ms);
            r->0@ == response_text(a.0, a.1, a.2)
        }),
{
    if request.len() == 0 {
        None
    } else {
        let text = show_bytes(request);
        Some(respond(health, now_ms, text.as_str()))
    }
}

// ---------------------------------------------------------------------------
// Binding
// ---------------------------------------------------------------------------

/// The port that the health server listens on: the one in `HEALTH_PORT`, or
/// else 8080.
pub fn health_port(vars: &EnvVars) -> (r: u16)
    ensures
        r == number_setting(vars@, "HEALTH_PORT"@, 8080, u16::MAX as nat),
{
    match vars.get("HEALTH_PORT") {
        Some(text) => match parse_unsigned(text.as_str(), 10, u16::MAX as u64) {
            Some(n) => n as u16,
            None => 8080,
        },
        None => 8080,
    }
}

/// Where the health server listens.
pub enum BindTarget {
    /// All addresses, IPv6 first with a fallback to IPv4.
    Any,
    /// The given host.
    Host(String),
}

/// Where the health server listens: at `HEALTH_HOST`, unless that is unset or
/// empty.
pub fn bind_target(vars: &EnvVars) -> (r: BindTarget)
    ensures
        match r {
            BindTarget::Host(h) => vars@.contains_key("HEALTH_HOST"@) && vars@["HEALTH_HOST"@].len() > 0
                && h@ == vars@["HEALTH_HOST"@],
            BindTarget::Any => !vars@.contains_key("HEALTH_HOST"@) || vars@["HEALTH_HOST"@].len() == 0,
        },
{
    match vars.get("HEALTH_HOST") {
        Some(host) => if host.as_str().is_empty() {
            BindTarget::Any
        } else {
            BindTarget::Host(host.clone())
        },
        None => BindTarget::Any,
    }
}

/// Of the addresses that a host resolved to, of which `ipv6` says the family,
/// the first IPv6 one, or else the first.
pub fn preferred_address(ipv6: &Vec<bool>) -> (r: Option<usize>)
    ensures
        match r {
            Some(i) => {
                &&& i < ipv6@.len()
                &&& if ipv6@.contains(true) {
                    ipv6@[i as int] && forall|j: int| 0 <= j < i ==> !#[trigger] ipv6@[j]
                } else {
                    i == 0
                }
            },
            None => ipv6@.len() == 0,
        },
{
    let mut i: usize = 0;
    while i < ipv6.len()
        invariant
            i <= ipv6@.len(),
            forall|j: int| 0 <= j < i ==> !#[trigger] ipv6@[j],
        decreases ipv6@.len() - i,
    {
        if ipv6[i] {
            assert(ipv6@[i as int]);
            return Some(i);
        }
        i += 1;
    }
    if ipv6.len() == 0 {
        None
    } else {
        Some(0)
    }
}

/// What is logged when there is no IPv6 to listen on.
pub fn fallback_entry() -> (r: LogEntry)
    ensures
        r@ == (
            Level::Warning,
            "IPv6 not available, falling back to IPv4 for the health server"@,
        ),
{
    let message = "IPv6 not available, falling back to IPv4 for the health server".to_string();
    LogEntry { level: Level::Warning, message }
}

/// What is logged when the health server starts.
pub fn starting_entry(port: u16) -> (r: LogEntry)
    ensures
        r@ == (Level::Info, "Starting health server on port "@ + decimal(port as nat)),
{
    let message = cat2("Starting health server on port ", decimal_string(port as u64).as_str());
    LogEntry { level: Level::Info, message }
}

/// What is logged when the health server cannot start; the sidecar goes on
/// without it.
pub fn start_failure(error: &str) -> (r: LogEntry)
    ensures
        r@ == (Level::Error, "Failed to start health server: "@ + error@),
{
    LogEntry { level: Level::Error, message: cat2("Failed to start health server: ", error) }
}

} // verus!
