//! The probing of one open port, step by step.
//!
//! A `Fingerprinter` decides; its driver acts. The driver asks for the next
//! step, performs it on the connection (a TLS handshake, a read, a write),
//! and reports what came of it. Every deadline belongs to one step and runs
//! from the moment that step begins. Nothing that fails here fails the scan:
//! a step that yields nothing only leaves the result less specific.

use crate::cert::{tls_banner, tls_banner_of};
use crate::fingerprint::{
    escape_banner, guess_service, http_banner_of, http_port, http_reply_banner, is_http_port,
    is_ssh_line, is_tls_port, looks_like_ssh, redis_banner_of, redis_reply_banner,
    reply_text, service_of, ssh_banner_of, ssh_line_banner, tls_port, utf8_lossy,
};
use crate::scanner::Outcome;
use crate::text::escape_breaks;
use crate::types::{clone_opt, opt_text};
use vstd::prelude::*;

verus! {

/// Which optional probes may be sent.
#[derive(Debug, Clone, Copy, PartialEq, Eq, Structural)]
pub struct ProbePolicy {
    /// Whether a Redis `PING` may be sent to port 6379.
    pub redis: bool,
}

/// Where the probing of a port stands.
#[derive(Debug, Clone, Copy, PartialEq, Eq, Structural)]
pub enum Stage {
    /// A TLS handshake is due.
    Tls,
    /// A first read is due, for what the service sends unasked.
    Passive,
    /// A second, longer read is due on the SSH port.
    Ssh,
    /// The HTTP request is due.
    HttpSend,
    /// A read of the HTTP response is due.
    HttpRead,
    /// The Redis `PING` is due.
    RedisSend,
    /// A read of the reply to the `PING` is due.
    RedisRead,
    /// Nothing is due: the result stands.
    Done,
}

/// What the driver is to do next.
#[derive(Debug, Clone, PartialEq, Eq)]
pub enum ProbeStep {
    /// Perform a client TLS handshake that accepts any certificate and any
    /// host name, within `timeout_ms`.
    Handshake { timeout_ms: u64 },
    /// Read once, at most `max_bytes` and for at most `timeout_ms`. No read
    /// is made once `window_ms` have passed since the first read of this
    /// stage; the driver then reports `Silent`.
    Read { max_bytes: usize, timeout_ms: u64, window_ms: u64 },
    /// Write all of `payload` within `timeout_ms`.
    Send { payload: String, timeout_ms: u64 },
    /// Stop: the result stands.
    Finish,
}

/// What came of a step.
#[derive(Debug, Clone, PartialEq, Eq)]
pub enum ProbeEvent {
    /// A read returned these bytes.
    Data(Vec<u8>),
    /// A read returned nothing, failed, or ran out of time.
    Silent,
    /// The payload was written.
    Sent,
    /// The payload could not be written in time.
    SendFailed,
    /// The TLS handshake succeeded; the peer's leaf certificate in DER, if it
    /// showed one.
    Secured(Option<Vec<u8>>),
    /// The TLS handshake failed or ran out of time.
    Refused,
}

pub const HANDSHAKE_TIMEOUT_MS: u64 = 600;

pub const PASSIVE_READ_MAX: usize = 256;

pub const PASSIVE_TIMEOUT_MS: u64 = 200;

pub const SSH_READ_MAX: usize = 256;

pub const SSH_TIMEOUT_MS: u64 = 400;

pub const SEND_TIMEOUT_MS: u64 = 200;

pub const HTTP_READ_MAX: usize = 1024;

pub const HTTP_READ_TIMEOUT_MS: u64 = 80;

pub const HTTP_WINDOW_MS: u64 = 400;

pub const HTTP_REPLY_MAX: usize = 4096;

pub const REDIS_READ_MAX: usize = 64;

pub const REDIS_TIMEOUT_MS: u64 = 200;

pub const SSH_PORT: u16 = 22;

pub const REDIS_PORT: u16 = 6379;

/// The probing of one open port: what is known, and what is due.
#[derive(Debug)]
pub struct Fingerprinter {
    host: String,
    port: u16,
    policy: ProbePolicy,
    stage: Stage,
    banner: Option<String>,
    reply: Vec<u8>,
}

/// The mathematical value of a `Fingerprinter`.
pub struct FingerprinterView {
    /// The address of the host, as text.
    pub host: Seq<char>,
    pub port: u16,
    pub policy: ProbePolicy,
    pub stage: Stage,
    /// The banner found so far.
    pub banner: Option<Seq<char>>,
    /// The bytes of the HTTP response read so far.
    pub reply: Seq<u8>,
}

impl View for Fingerprinter {
    type V = FingerprinterView;

    closed spec fn view(&self) -> FingerprinterView {
        FingerprinterView {
            host: self.host@,
            port: self.port,
            policy: self.policy,
            stage: self.stage,
            banner: opt_text(self.banner),
            reply: self.reply@,
        }
    }
}

/// The request that asks a web server at `host` for its front page.
pub open spec fn http_request_of(host: Seq<char>) -> Seq<char> {
    "GET / HTTP/1.0\r\nUser-Agent: lan-scan-rs/0.1\r\nHost: "@ + host
        + "\r\nConnection: close\r\n\r\n"@
}

/// Whether `reply` holds the empty line that ends the header of a response.
pub open spec fn header_ended(reply: Seq<u8>) -> bool {
    exists|i: int|
        0 <= i && i + 4 <= reply.len() && #[trigger] reply[i] == 13 && reply[i + 1] == 10
            && reply[i + 2] == 13 && reply[i + 3] == 10
}

/// Whether an HTTP response of which `reply` has been read is read no further.
pub open spec fn http_reply_complete(reply: Seq<u8>) -> bool {
    reply.len() >= HTTP_REPLY_MAX || header_ended(reply)
}

/// The banner that the HTTP response `reply` gives; none where it is empty.
pub open spec fn http_result(reply: Seq<u8>) -> Option<Seq<char>> {
    if reply.len() == 0 {
        None
    } else {
        Some(http_banner_of(utf8_lossy(reply)))
    }
}

/// The bytes that a read brought; none where the event is no read, or a read
/// of nothing.
pub open spec fn data_of(event: ProbeEvent) -> Option<Seq<u8>> {
    match event {
        ProbeEvent::Data(bytes) => if bytes@.len() > 0 {
            Some(bytes@)
        } else {
            None
        },
        _ => None,
    }
}

/// Whether the banner `banner` is an SSH greeting.
pub open spec fn ssh_seen(banner: Option<Seq<char>>) -> bool {
    match banner {
        Some(text) => is_ssh_line(text),
        None => false,
    }
}

/// The stage that follows the reads for what the service sends unasked: an
/// active probe where there is no banner yet and the port has one, else the
/// end.
pub open spec fn active_stage(port: u16, policy: ProbePolicy, banner: Option<Seq<char>>) -> Stage {
    if banner is Some {
        Stage::Done
    } else if http_port(port) {
        Stage::HttpSend
    } else if policy.redis && port == REDIS_PORT {
        Stage::RedisSend
    } else {
        Stage::Done
    }
}

/// The stage that follows the first read, which left the banner `banner`.
pub open spec fn stage_after_passive(
    port: u16,
    policy: ProbePolicy,
    banner: Option<Seq<char>>,
) -> Stage {
    if port == SSH_PORT && !ssh_seen(banner) {
        Stage::Ssh
    } else {
        active_stage(port, policy, banner)
    }
}

/// The state in which the probing of `port` at `host` begins.
pub open spec fn initial(host: Seq<char>, port: u16, policy: ProbePolicy) -> FingerprinterView {
    FingerprinterView {
        host,
        port,
        policy,
        stage: if tls_port(port) {
            Stage::Tls
        } else {
            Stage::Passive
        },
        banner: None,
        reply: Seq::empty(),
    }
}

/// The state that follows `s` once the step due in `s` has led to `event`.
/// An event that does not belong to the step counts as the step's failure.
pub open spec fn after(s: FingerprinterView, event: ProbeEvent) -> FingerprinterView {
    match s.stage {
        Stage::Tls => {
            let banner = match event {
                ProbeEvent::Secured(Some(der)) => tls_banner_of(der@),
                _ => None,
            };
            FingerprinterView { stage: Stage::Done, banner, ..s }
        },
        Stage::Passive => {
            let banner = match data_of(event) {
                Some(bytes) => Some(escape_breaks(utf8_lossy(bytes))),
                None => None,
            };
            FingerprinterView {
                stage: stage_after_passive(s.port, s.policy, banner),
                banner,
                ..s
            }
        },
        Stage::Ssh => {
            let greeting = match data_of(event) {
                Some(bytes) => ssh_banner_of(utf8_lossy(bytes)),
                None => None,
            };
            let banner = if greeting is Some {
                greeting
            } else {
                s.banner
            };
            FingerprinterView { stage: active_stage(s.port, s.policy, banner), banner, ..s }
        },
        Stage::HttpSend => {
            if event is Sent {
                FingerprinterView { stage: Stage::HttpRead, reply: Seq::empty(), ..s }
            } else {
                FingerprinterView { stage: Stage::Done, ..s }
            }
        },
        Stage::HttpRead => {
            match data_of(event) {
                Some(bytes) => {
                    let reply = s.reply + bytes;
                    if http_reply_complete(reply) {
                        FingerprinterView {
                            stage: Stage::Done,
                            banner: http_result(reply),
                            reply,
                            ..s
                        }
                    } else {
                        FingerprinterView { reply, ..s }
                    }
                },
                None => FingerprinterView {
                    stage: Stage::Done,
                    banner: http_result(s.reply),
                    ..s
                },
            }
        },
        Stage::RedisSend => {
            if event is Sent {
                FingerprinterView { stage: Stage::RedisRead, ..s }
            } else {
                FingerprinterView { stage: Stage::Done, ..s }
            }
        },
        Stage::RedisRead => {
            let banner = match data_of(event) {
                Some(bytes) => Some(redis_banner_of(utf8_lossy(bytes))),
                None => None,
            };
            FingerprinterView { stage: Stage::Done, banner, ..s }
        },
        Stage::Done => s,
    }
}

/// The service of the port as it stands in `s`: `https` on a TLS port,
/// whatever became of the handshake; else what the banner or the port number
/// suggests.
pub open spec fn service_in(s: FingerprinterView) -> Option<Seq<char>> {
    if tls_port(s.port) {
        Some("https"@)
    } else {
        service_of(s.port, s.banner)
    }
}

/// How many more events the probing in `s` can take at most before it is done.
pub open spec fn steps_left(s: FingerprinterView) -> nat {
    match s.stage {
        Stage::Tls => 1,
        Stage::Passive => HTTP_REPLY_MAX as nat + 4,
        Stage::Ssh => HTTP_REPLY_MAX as nat + 3,
        Stage::HttpSend => HTTP_REPLY_MAX as nat + 2,
        Stage::HttpRead => if s.reply.len() < HTTP_REPLY_MAX {
            (HTTP_REPLY_MAX - s.reply.len() + 1) as nat
        } else {
            1
        },
        Stage::RedisSend => 2,
        Stage::RedisRead => 1,
        Stage::Done => 0,
    }
}

/// Every event brings the probing strictly nearer to its end, so a driver
/// that reports one event for each step it is given comes to `Finish`.
pub proof fn lemma_probe_advances(s: FingerprinterView, event: ProbeEvent)
    requires
        s.stage != Stage::Done,
    ensures
        steps_left(after(s, event)) < steps_left(s),
{
}

/// On a TLS port the service is `https` from the start to the end, whatever
/// the handshake and the certificate come to, and the handshake is the only
/// step.
pub proof fn lemma_tls_port_is_https(
    host: Seq<char>,
    port: u16,
    policy: ProbePolicy,
    event: ProbeEvent,
)
    requires
        tls_port(port),
    ensures
        initial(host, port, policy).stage == Stage::Tls,
        service_in(initial(host, port, policy)) == Some("https"@),
        after(initial(host, port, policy), event).stage == Stage::Done,
        service_in(after(initial(host, port, policy), event)) == Some("https"@),
        !(event is Secured) ==> after(initial(host, port, policy), event).banner is None,
{
}

/// A banner, once found, ends the probing unless the SSH port still waits for
/// its greeting: no active probe is sent to a service that spoke by itself.
pub proof fn lemma_banner_stops_active_probes(s: FingerprinterView, event: ProbeEvent)
    requires
        s.stage == Stage::Passive || s.stage == Stage::Ssh,
        after(s, event).banner is Some,
    ensures
        after(s, event).stage == Stage::Done || after(s, event).stage == Stage::Ssh,
        after(s, event).stage != Stage::HttpSend,
        after(s, event).stage != Stage::RedisSend,
{
}

/// Tells whether `reply` holds the empty line that ends a response's header.
pub fn has_header_end(reply: &[u8]) -> (r: bool)
    ensures
        r == header_ended(reply@),
{
    if reply.len() < 4 {
        return false;
    }
    let mut i: usize = 0;
    while i <= reply.len() - 4
        invariant
            reply.len() >= 4,
            i <= reply.len() - 3,
            forall|k: int|
                0 <= k < i ==> !(#[trigger] reply@[k] == 13 && reply@[k + 1] == 10 && reply@[k + 2]
                    == 13 && reply@[k + 3] == 10),
        decreases reply.len() - i,
    {
        if reply[i] == 13 && reply[i + 1] == 10 && reply[i + 2] == 13 && reply[i + 3] == 10 {
            return true;
        }
        i += 1;
    }
    false
}

/// Writes the request that asks a web server at `host` for its front page.
pub fn http_request(host: &str) -> (r: String)
    ensures
        r@ == http_request_of(host@),
{
    let mut out = String::from_str("GET / HTTP/1.0\r\nUser-Agent: lan-scan-rs/0.1\r\nHost: ");
    out.append(host);
    out.append("\r\nConnection: close\r\n\r\n");
    out
}

/// Sums up the HTTP response `reply`; none where it is empty.
pub fn http_banner(reply: &[u8]) -> (r: Option<String>)
    ensures
        opt_text(r) == http_result(reply@),
{
    match reply_text(reply) {
        Some(text) => Some(http_reply_banner(text.as_str())),
        None => None,
    }
}

/// The banner for what a service sent unasked; none where it sent nothing.
pub fn passive_banner(data: &[u8]) -> (r: Option<String>)
    ensures
        opt_text(r) == if data@.len() == 0 {
            None
        } else {
            Some(escape_breaks(utf8_lossy(data@)))
        },
{
    match reply_text(data) {
        Some(text) => Some(escape_banner(text.as_str())),
        None => None,
    }
}

/// The banner from a second read on the SSH port; none where nothing was
/// read or what was read is no SSH greeting.
pub fn ssh_banner(data: &[u8]) -> (r: Option<String>)
    ensures
        opt_text(r) == if data@.len() == 0 {
            None
        } else {
            ssh_banner_of(utf8_lossy(data@))
        },
{
    match reply_text(data) {
        Some(text) => ssh_line_banner(text.as_str()),
        None => None,
    }
}

/// The banner from the reply to a Redis `PING`; none where there was none.
pub fn redis_banner(data: &[u8]) -> (r: Option<String>)
    ensures
        opt_text(r) == if data@.len() == 0 {
            None
        } else {
            Some(redis_banner_of(utf8_lossy(data@)))
        },
{
    match reply_text(data) {
        Some(text) => Some(redis_reply_banner(text.as_str())),
        None => None,
    }
}

/// Picks the active probe, if any, for a port whose banner so far is `banner`.
fn choose_active(port: u16, policy: ProbePolicy, banner: &Option<String>) -> (r: Stage)
    ensures
        r == active_stage(port, policy, opt_text(*banner)),
{
    if banner.is_some() {
        Stage::Done
    } else if is_http_port(port) {
        Stage::HttpSend
    } else if policy.redis && port == REDIS_PORT {
        Stage::RedisSend
    } else {
        Stage::Done
    }
}

/// The bytes of a read, where the event is a read of something.
fn event_data(event: &ProbeEvent) -> (r: Option<&Vec<u8>>)
    ensures
        match r {
            Some(bytes) => data_of(*event) == Some(bytes@),
            None => data_of(*event) is None,
        },
{
    match event {
        ProbeEvent::Data(bytes) => if bytes.len() > 0 {
            Some(bytes)
        } else {
            None
        },
        _ => None,
    }
}

impl Fingerprinter {
    /// Begins the probing of the open port `port` at the host whose address
    /// reads `host`. On a TLS port the handshake is due, on any other the
    /// first read.
    pub fn start(host: String, port: u16, policy: ProbePolicy) -> (r: Fingerprinter)
        ensures
            r@ == initial(host@, port, policy),
    {
        let stage = if is_tls_port(port) {
            Stage::Tls
        } else {
            Stage::Passive
        };
        Fingerprinter { host, port, policy, stage, banner: None, reply: Vec::new() }
    }

    /// Where the probing stands.
    pub fn stage(&self) -> (r: Stage)
        ensures
            r == self@.stage,
    {
        self.stage
    }

    /// Whether the result stands.
    pub fn is_done(&self) -> (r: bool)
        ensures
            r == (self@.stage == Stage::Done),
    {
        self.stage == Stage::Done
    }

    /// What the driver is to do next.
    pub fn next_step(&self) -> (r: ProbeStep)
        ensures
            match self@.stage {
                Stage::Tls => r == (ProbeStep::Handshake { timeout_ms: HANDSHAKE_TIMEOUT_MS }),
                Stage::Passive => r == (ProbeStep::Read {
                    max_bytes: PASSIVE_READ_MAX,
                    timeout_ms: PASSIVE_TIMEOUT_MS,
                    window_ms: PASSIVE_TIMEOUT_MS,
                }),
                Stage::Ssh => r == (ProbeStep::Read {
                    max_bytes: SSH_READ_MAX,
                    timeout_ms: SSH_TIMEOUT_MS,
                    window_ms: SSH_TIMEOUT_MS,
                }),
                Stage::HttpSend => r matches ProbeStep::Send { payload, timeout_ms } && payload@
                    == http_request_of(self@.host) && timeout_ms == SEND_TIMEOUT_MS,
                Stage::HttpRead => r == (ProbeStep::Read {
                    max_bytes: HTTP_READ_MAX,
                    timeout_ms: HTTP_READ_TIMEOUT_MS,
                    window_ms: HTTP_WINDOW_MS,
                }),
                Stage::RedisSend => r matches ProbeStep::Send { payload, timeout_ms } && payload@
                    == "*1\r\n$4\r\nPING\r\n"@ && timeout_ms == SEND_TIMEOUT_MS,
                Stage::RedisRead => r == (ProbeStep::Read {
                    max_bytes: REDIS_READ_MAX,
                    timeout_ms: REDIS_TIMEOUT_MS,
                    window_ms: REDIS_TIMEOUT_MS,
                }),
                Stage::Done => r == ProbeStep::Finish,
            },
    {
        match self.stage {
            Stage::Tls => ProbeStep::Handshake { timeout_ms: HANDSHAKE_TIMEOUT_MS },
            Stage::Passive => ProbeStep::Read {
                max_bytes: PASSIVE_READ_MAX,
                timeout_ms: PASSIVE_TIMEOUT_MS,
                window_ms: PASSIVE_TIMEOUT_MS,
            },
            Stage::Ssh => ProbeStep::Read {
                max_bytes: SSH_READ_MAX,
                timeout_ms: SSH_TIMEOUT_MS,
                window_ms: SSH_TIMEOUT_MS,
            },
            Stage::HttpSend => ProbeStep::Send {
                payload: http_request(self.host.as_str()),
                timeout_ms: SEND_TIMEOUT_MS,
            },
            Stage::HttpRead => ProbeStep::Read {
                max_bytes: HTTP_READ_MAX,
                timeout_ms: HTTP_READ_TIMEOUT_MS,
                window_ms: HTTP_WINDOW_MS,
            },
            Stage::RedisSend => ProbeStep::Send {
                payload: String::from_str("*1\r\n$4\r\nPING\r\n"),
                timeout_ms: SEND_TIMEOUT_MS,
            },
            Stage::RedisRead => ProbeStep::Read {
                max_bytes: REDIS_READ_MAX,
                timeout_ms: REDIS_TIMEOUT_MS,
                window_ms: REDIS_TIMEOUT_MS,
            },
            Stage::Done => ProbeStep::Finish,
        }
    }

    /// Takes in what came of the step that was due.
    pub fn handle(&mut self, event: ProbeEvent)
        ensures
            final(self)@ == after(old(self)@, event),
    {
        match self.stage {
            Stage::Tls => {
                self.banner = match &event {
                    ProbeEvent::Secured(Some(der)) => tls_banner(der.as_slice()),
                    _ => None,
                };
                self.stage = Stage::Done;
            },
            Stage::Passive => {
                self.banner = match event_data(&event) {
                    Some(bytes) => passive_banner(bytes.as_slice()),
                    None => None,
                };
                let greeted = match &self.banner {
                    Some(text) => looks_like_ssh(text.as_str()),
                    None => false,
                };
                self.stage = if self.port == SSH_PORT && !greeted {
                    Stage::Ssh
                } else {
                    choose_active(self.port, self.policy, &self.banner)
                };
            },
            Stage::Ssh => {
                let greeting = match event_data(&event) {
                    Some(bytes) => ssh_banner(bytes.as_slice()),
                    None => None,
                };
                if greeting.is_some() {
                    self.banner = greeting;
                }
                self.stage = choose_active(self.port, self.policy, &self.banner);
            },
            Stage::HttpSend => {
                if let ProbeEvent::Sent = event {
                    self.reply = Vec::new();
                    self.stage = Stage::HttpRead;
                } else {
                    self.stage = Stage::Done;
                }
            },
            Stage::HttpRead => {
                match event_data(&event) {
                    Some(bytes) => {
                        let ghost before = self.reply@;
                        self.reply.extend_from_slice(bytes.as_slice());
                        assert(self.reply@ =~= before + bytes@);
                        if self.reply.len() >= HTTP_REPLY_MAX || has_header_end(
                            self.reply.as_slice(),
                        ) {
                            self.banner = http_banner(self.reply.as_slice());
                            self.stage = Stage::Done;
                        }
                    },
                    None => {
                        self.banner = http_banner(self.reply.as_slice());
                        self.stage = Stage::Done;
                    },
                }
            },
            Stage::RedisSend => {
                if let ProbeEvent::Sent = event {
                    self.stage = Stage::RedisRead;
                } else {
                    self.stage = Stage::Done;
                }
            },
            Stage::RedisRead => {
                self.banner = match event_data(&event) {
                    Some(bytes) => redis_banner(bytes.as_slice()),
                    None => None,
                };
                self.stage = Stage::Done;
            },
            Stage::Done => {},
        }
    }

    /// The banner found so far.
    pub fn banner(&self) -> (r: Option<String>)
        ensures
            opt_text(r) == self@.banner,
    {
        clone_opt(&self.banner)
    }

    /// How the unit of this port ended, its connect having taken
    /// `latency_ms`: open, with the service and the banner as they stand.
    pub fn outcome(&self, latency_ms: u64) -> (r: Outcome)
        ensures
            r matches Outcome::Open { latency_ms: l, service, banner } && l == latency_ms
                && opt_text(service) == service_in(self@) && opt_text(banner) == self@.banner,
    {
        Outcome::Open { latency_ms, service: self.service(), banner: self.banner() }
    }

    /// The service of the port, as it stands.
    pub fn service(&self) -> (r: Option<String>)
        ensures
            opt_text(r) == service_in(self@),
    {
        if is_tls_port(self.port) {
            Some(String::from_str("https"))
        } else {
            match &self.banner {
                Some(text) => guess_service(self.port, Some(text.as_str())),
                None => guess_service(self.port, None),
            }
        }
    }
}

} // verus!
