//! A worker that runs crf searches for a server.
pub mod connection;
pub mod frames;
pub mod heartbeat;
pub mod job;
pub mod pending;
pub mod report;

use crate::command::worker_protocol::{JobAssignedPayload, ServerReply};
use crate::duration;
use crate::duration::Duration;
use crate::text;
use vstd::prelude::*;

verus! {

broadcast use vstd::string::group_string_axioms;

/// The protocol version that a worker speaks.
pub const SUPPORTED_PROTOCOL_VERSION: u64 = 1;

/// How a worker is set up.
#[derive(Debug, PartialEq, Eq)]
pub struct WorkerConfig {
    /// Base URL of the server, e.g. http://127.0.0.1:4000
    pub connect: String,
    /// Worker authentication token.
    pub token: String,
    /// Client worker id announced to the server.
    pub worker_id: String,
    /// Worker version announced to the server.
    pub version: String,
    /// Protocol version announced to the server.
    pub protocol_version: u64,
    /// Exit after the first work poll instead of running as a long-lived worker.
    pub once: bool,
    /// Use a local file instead of waiting for the server to transfer one over the socket.
    pub local_path: Option<String>,
}

/// What came of one request for work.
#[derive(Debug, PartialEq, Eq)]
pub struct WorkerSession {
    pub assigned_worker_id: String,
    pub negotiated_protocol_version: u64,
    pub work_status: String,
    pub assigned_job: Option<JobAssignedPayload>,
}

impl WorkerSession {
    /// The session of a worker with this answer to its request.
    pub fn new(assigned_worker_id: String, negotiated_protocol_version: u64, reply: ServerReply) -> (r:
        Self)
        ensures
            r.assigned_worker_id == assigned_worker_id,
            r.negotiated_protocol_version == negotiated_protocol_version,
            r.work_status@ == status_text(reply),
            r.assigned_job == (match reply {
                ServerReply::JobAssigned(job) => Some(job),
                ServerReply::NoWork(_) => None,
            }),
    {
        let work_status = work_status_label(&reply);
        let assigned_job = match reply {
            ServerReply::JobAssigned(job) => Some(job),
            ServerReply::NoWork(_) => None,
        };
        Self { assigned_worker_id, negotiated_protocol_version, work_status, assigned_job }
    }

    /// What is printed of the session.
    pub fn summary(&self) -> (r: String)
        ensures
            r@ == received_text(
                self.assigned_worker_id@,
                self.negotiated_protocol_version,
                self.work_status@,
            ),
    {
        received_line(
            self.assigned_worker_id.as_str(),
            self.negotiated_protocol_version,
            self.work_status.as_str(),
        )
    }
}

/// What is printed of an answer to a request for work.
pub open spec fn received_text(worker_id: Seq<char>, version: u64, status: Seq<char>) -> Seq<char> {
    "connected worker "@ + worker_id + " via "@ + text::dec(version as nat) + " and received "@
        + status
}

/// What is printed of an answer to a request for work.
pub fn received_line(worker_id: &str, version: u64, status: &str) -> (r: String)
    ensures
        r@ == received_text(worker_id@, version, status@),
{
    let version = text::dec_string(version);
    let mut out = text::cat4("connected worker ", worker_id, " via ", version.as_str());
    out.append(" and received ");
    out.append(status);
    out
}

/// The status of an answer, with the job that it assigns.
pub open spec fn status_text(reply: ServerReply) -> Seq<char> {
    match reply {
        ServerReply::NoWork(payload) => payload.status.name(),
        ServerReply::JobAssigned(payload) => payload.status.name() + " (job_id="@ + payload.job_id@
            + ")"@,
    }
}

/// The status of an answer, with the job that it assigns.
pub fn work_status_label(reply: &ServerReply) -> (r: String)
    ensures
        r@ == status_text(*reply),
{
    match reply {
        ServerReply::NoWork(payload) => payload.status.as_str().to_owned(),
        ServerReply::JobAssigned(payload) => text::cat4(
            payload.status.as_str(),
            " (job_id=",
            payload.job_id.as_str(),
            ")",
        ),
    }
}

/// How a worker behaves over time.
#[derive(Debug, Clone, Copy, PartialEq, Eq, Structural)]
pub struct WorkerRuntime {
    pub idle_delay: Duration,
    pub reconnect_base_delay: Duration,
    pub reconnect_max_delay: Duration,
    pub max_pulls: Option<usize>,
}

impl Default for WorkerRuntime {
    /// A worker asks again after five seconds, reconnects at once, and never
    /// stops.
    fn default() -> (r: Self)
        ensures
            r.idle_delay@ == 5_000_000_000,
            r.reconnect_base_delay@ == 0,
            r.reconnect_max_delay@ == 0,
            r.max_pulls is None,
    {
        Self {
            idle_delay: Duration::from_secs(5),
            reconnect_base_delay: Duration::zero(),
            reconnect_max_delay: Duration::zero(),
            max_pulls: None,
        }
    }
}

/// How long a worker waits before it connects again.
#[derive(Debug, Clone, Copy, PartialEq, Eq, Structural)]
pub struct ReconnectBackoff {
    current: Duration,
    base: Duration,
    max: Duration,
}

impl ReconnectBackoff {
    /// The next delay in nanoseconds.
    pub closed spec fn delay(self) -> nat {
        self.current@
    }

    /// The first delay in nanoseconds.
    pub closed spec fn first(self) -> nat {
        self.base@
    }

    /// The longest delay that another delay leads to, in nanoseconds.
    pub closed spec fn longest(self) -> nat {
        self.max@
    }

    /// Delays that start with `base`.
    pub fn new(base: Duration, max: Duration) -> (r: Self)
        ensures
            r.delay() == base@,
            r.first() == base@,
            r.longest() == max@,
    {
        Self { current: base, base, max }
    }

    /// The next delay. The one behind it is twice as long, up to the longest.
    pub fn next_delay(&mut self) -> (r: Duration)
        ensures
            r@ == old(self).delay(),
            final(self).delay() == delay_next(old(self).delay(), old(self).longest()),
            final(self).first() == old(self).first(),
            final(self).longest() == old(self).longest(),
    {
        let delay = self.current;
        self.current = self.current.saturating_mul(2).shorter(self.max);
        delay
    }

    /// The delays start again.
    pub fn reset(&mut self)
        ensures
            final(self).delay() == old(self).first(),
            final(self).first() == old(self).first(),
            final(self).longest() == old(self).longest(),
    {
        self.current = self.base;
    }
}

/// The delay after one of this length.
pub open spec fn delay_next(delay: nat, max: nat) -> nat {
    duration::least(duration::least(delay * 2, duration::MAX_NANOS as nat), max)
}

/// A delay is twice as long as the one before it, up to the longest one.
pub proof fn law_delay_doubles_up_to_the_longest(delay: nat, max: nat)
    requires
        max <= duration::MAX_NANOS,
    ensures
        2 * delay <= max ==> delay_next(delay, max) == 2 * delay,
        2 * delay > max ==> delay_next(delay, max) == max,
{
}

/// The delay after `n` delays that started with `base`.
pub open spec fn delay_after(base: nat, max: nat, n: nat) -> nat
    decreases n,
{
    if n == 0 {
        base
    } else {
        delay_next(delay_after(base, max, (n - 1) as nat), max)
    }
}

/// Delays that start no longer than the longest one never get shorter and
/// never longer than it.
pub proof fn law_backoff_grows_and_caps(base: nat, max: nat, n: nat)
    requires
        base <= max,
        max <= duration::MAX_NANOS,
    ensures
        delay_after(base, max, n) <= delay_after(base, max, n + 1) <= max,
    decreases n,
{
    if n > 0 {
        law_backoff_grows_and_caps(base, max, (n - 1) as nat);
    }
}

/// A number of bytes per second in whole mebibytes.
pub fn format_bytes_per_second(bytes_per_second: u64) -> (r: String)
    ensures
        r@ == text::dec((bytes_per_second / 0x10_0000) as nat) + " MiB/s"@,
{
    let n = text::dec_string(bytes_per_second / 0x10_0000);
    text::cat2(n.as_str(), " MiB/s")
}

// ---- addresses ----

/// The scheme of the socket for a base URL, and what stands behind the URL's
/// own scheme.
pub open spec fn socket_parts(url: Seq<char>) -> Option<(Seq<char>, Seq<char>)> {
    if text::has_prefix(url, "http://"@) {
        Some(("ws://"@, url.skip(7)))
    } else if text::has_prefix(url, "https://"@) {
        Some(("wss://"@, url.skip(8)))
    } else if text::has_prefix(url, "ws://"@) {
        Some(("ws://"@, url.skip(5)))
    } else if text::has_prefix(url, "wss://"@) {
        Some(("wss://"@, url.skip(6)))
    } else {
        None
    }
}

/// The text without its first characters.
fn rest_of(s: &str, n: usize) -> (r: String)
    requires
        n <= s@.len(),
    ensures
        r@ == s@.skip(n as int),
{
    let v = text::chars_of(s);
    let out = text::slice_string(v.as_slice(), n, v.len());
    assert(out@ =~= s@.skip(n as int));
    out
}

/// The address of the socket for the base URL of a server.
pub fn worker_websocket_url(base_url: &str, token: &str) -> (r: Result<String, String>)
    ensures
        ({
            let url = text::strip_end(base_url@, '/');
            match (socket_parts(url), r) {
                (Some((scheme, rest)), Ok(address)) => address@ == scheme + rest
                    + "/workers/socket/websocket?token="@ + token@ + "&vsn=2.0.0"@,
                (None, Err(e)) => e@ == "unsupported websocket base URL: "@ + url,
                _ => false,
            }
        }),
{
    let url = text::trim_end_char(base_url, '/');
    proof {
        reveal_strlit("http://");
        reveal_strlit("https://");
        reveal_strlit("ws://");
        reveal_strlit("wss://");
    }
    let (scheme, rest) = if text::starts_with(url.as_str(), "http://") {
        ("ws://", rest_of(url.as_str(), 7))
    } else if text::starts_with(url.as_str(), "https://") {
        ("wss://", rest_of(url.as_str(), 8))
    } else if text::starts_with(url.as_str(), "ws://") {
        ("ws://", rest_of(url.as_str(), 5))
    } else if text::starts_with(url.as_str(), "wss://") {
        ("wss://", rest_of(url.as_str(), 6))
    } else {
        return Err(text::cat2("unsupported websocket base URL: ", url.as_str()));
    };
    let mut out = text::cat4(scheme, rest.as_str(), "/workers/socket/websocket?token=", token);
    out.append("&vsn=2.0.0");
    Ok(out)
}

/// What is reported where the server answers a connection with an HTTP status.
pub fn connect_refused(request_url: &str, status: &str, body: &str) -> (r: String)
    ensures
        r@ == "connect websocket "@ + request_url@ + ": HTTP "@ + status@ + " "@ + text::trimmed(
            body@,
        ),
{
    let mut out = text::cat4("connect websocket ", request_url, ": HTTP ", status);
    let trimmed = text::trim(body);
    out.append(" ");
    out.append(trimmed.as_str());
    out
}

/// What is reported where a connection fails otherwise.
pub fn connect_failed(request_url: &str, error: &str) -> (r: String)
    ensures
        r@ == "connect websocket "@ + request_url@ + ": "@ + error@,
{
    text::cat4("connect websocket ", request_url, ": ", error)
}

/// An address keeps all behind its scheme, and a secure one stays secure: `http`
/// becomes `ws` and `https` becomes `wss`, while `ws` and `wss` stay. Other
/// schemes have no socket.
pub proof fn law_socket_keeps_address_and_security(rest: Seq<char>, url: Seq<char>)
    ensures
        socket_parts("http://"@ + rest) == Some(("ws://"@, rest)),
        socket_parts("https://"@ + rest) == Some(("wss://"@, rest)),
        socket_parts("ws://"@ + rest) == Some(("ws://"@, rest)),
        socket_parts("wss://"@ + rest) == Some(("wss://"@, rest)),
        socket_parts(url) is Some <==> text::has_prefix(url, "http://"@) || text::has_prefix(
            url,
            "https://"@,
        ) || text::has_prefix(url, "ws://"@) || text::has_prefix(url, "wss://"@),
{
    reveal_strlit("http://");
    reveal_strlit("https://");
    reveal_strlit("ws://");
    reveal_strlit("wss://");
    let a = "http://"@ + rest;
    let b = "https://"@ + rest;
    let c = "ws://"@ + rest;
    let d = "wss://"@ + rest;
    assert(a.subrange(0, 7) =~= "http://"@);
    assert(b.subrange(0, 8) =~= "https://"@);
    assert(c.subrange(0, 5) =~= "ws://"@);
    assert(d.subrange(0, 6) =~= "wss://"@);
    assert(a.skip(7) =~= rest);
    assert(b.skip(8) =~= rest);
    assert(c.skip(5) =~= rest);
    assert(d.skip(6) =~= rest);
    assert(b[4] == 's' && "http://"@[4] == ':');
    assert(c[0] == 'w' && d[0] == 'w' && d[1] == 's' && d[2] == 's' && "ws://"@[2] == ':');
    assert("http://"@[0] == 'h' && "https://"@[0] == 'h');
    if text::has_prefix(b, "http://"@) {
        assert(b.subrange(0, 7)[4] == b[4]);
    }
    if text::has_prefix(c, "http://"@) {
        assert(c.subrange(0, 7)[0] == c[0]);
    }
    if text::has_prefix(c, "https://"@) {
        assert(c.subrange(0, 8)[0] == c[0]);
    }
    if text::has_prefix(d, "http://"@) {
        assert(d.subrange(0, 7)[0] == d[0]);
    }
    if text::has_prefix(d, "https://"@) {
        assert(d.subrange(0, 8)[0] == d[0]);
    }
    if text::has_prefix(d, "ws://"@) {
        assert(d.subrange(0, 5)[2] == d[2]);
    }
}

} // verus!
