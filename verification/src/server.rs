//! What the management interface keeps of scans: the request for one, the
//! state of the one that counts, and the results of the last one that ended.
//!
//! Scans are told apart by tickets. Only the scan that was begun last is
//! authoritative: when an earlier one ends, its results are dropped.

use crate::netdetect::{
    expand_cidr_to_ips, parse_host, parse_net, parsed_host, parsed_net, HostAddr, IpNet,
};
use crate::ports::{default_port_list, default_ports};
use crate::text::chars_of;
use crate::types::{ResultsView, ScanResults};
use vstd::prelude::*;

verus! {

/// Whether a scan runs, has run, or neither.
#[derive(Debug, Clone, Copy, PartialEq, Eq, Structural)]
pub enum ScanState {
    Idle,
    Running,
    Done,
}

impl ScanState {
    /// The name of the state: `idle`, `running` or `done`.
    pub open spec fn spec_label(self) -> Seq<char> {
        match self {
            ScanState::Idle => "idle"@,
            ScanState::Running => "running"@,
            ScanState::Done => "done"@,
        }
    }

    /// The name of the state, as the interface shows it.
    pub fn label(&self) -> (r: &'static str)
        ensures
            r@ == self.spec_label(),
    {
        match self {
            ScanState::Idle => "idle",
            ScanState::Running => "running",
            ScanState::Done => "done",
        }
    }
}

/// How far the scan that counts has come.
#[derive(Debug, Clone, Copy, PartialEq, Eq, Structural)]
pub struct Status {
    pub total: u64,
    pub scanned: u64,
    pub open: u64,
    pub state: ScanState,
}

impl Default for Status {
    /// The status before any scan: idle, with nothing counted.
    fn default() -> (r: Status)
        ensures
            r == (Status { total: 0, scanned: 0, open: 0, state: ScanState::Idle }),
    {
        Status { total: 0, scanned: 0, open: 0, state: ScanState::Idle }
    }
}

/// A request for a scan, as the interface receives it.
#[derive(Debug, Clone, PartialEq, Eq)]
pub struct ScanRequest {
    /// Networks in CIDR notation, or single addresses.
    pub targets: Vec<String>,
    /// The ports to scan; the default list where it is empty.
    pub ports: Vec<u16>,
    /// How many units may run at a time; 1000 where absent.
    pub concurrency: Option<usize>,
    /// The connect timeout in milliseconds; 400 where absent.
    pub timeout_ms: Option<u64>,
}

/// The concurrency of a request that names none.
pub const DEFAULT_CONCURRENCY: usize = 1000;

/// The connect timeout, in milliseconds, of a request that names none.
pub const DEFAULT_TIMEOUT_MS: u64 = 400;

/// Why a request is refused. `target` counts the targets from 0.
#[derive(Debug, Clone, Copy, PartialEq, Eq, Structural)]
pub enum RequestError {
    /// A target with a `/` that is no network in CIDR notation.
    InvalidCidr { target: usize },
    /// A target without `/` that is no address.
    InvalidIp { target: usize },
}

impl RequestError {
    /// What the caller is told.
    pub open spec fn spec_message(self) -> Seq<char> {
        match self {
            RequestError::InvalidCidr { .. } => "invalid CIDR: invalid IP address syntax"@,
            RequestError::InvalidIp { .. } => "invalid IP: invalid IP address syntax"@,
        }
    }

    /// What the caller is told.
    pub fn message(&self) -> (r: String)
        ensures
            r@ == self.spec_message(),
    {
        match self {
            RequestError::InvalidCidr { .. } => String::from_str(
                "invalid CIDR: invalid IP address syntax",
            ),
            RequestError::InvalidIp { .. } => String::from_str(
                "invalid IP: invalid IP address syntax",
            ),
        }
    }
}

/// What is scanned, and how.
#[derive(Debug, Clone, PartialEq, Eq)]
pub struct ScanPlan {
    pub targets: Vec<HostAddr>,
    pub ports: Vec<u16>,
    pub concurrency: usize,
    pub timeout_ms: u64,
}

/// The addresses to scan in a network.
pub open spec fn hosts_of(net: IpNet) -> Seq<HostAddr> {
    match net {
        IpNet::V4(n) => n.spec_hosts().map_values(|a: u32| HostAddr::V4(a)),
        IpNet::V6(_) => Seq::<HostAddr>::empty(),
    }
}

/// Whether a target names a network rather than one address.
pub open spec fn is_cidr_text(target: Seq<char>) -> bool {
    target.contains('/')
}

/// The addresses that the `index`-th target of a request stands for: the
/// hosts of the network where it has a `/`, else the one address it names.
pub open spec fn target_hosts(target: Seq<char>, index: usize) -> Result<
    Seq<HostAddr>,
    RequestError,
> {
    if is_cidr_text(target) {
        match parsed_net(target) {
            Some(net) => Ok(hosts_of(net)),
            None => Err(RequestError::InvalidCidr { target: index }),
        }
    } else {
        match parsed_host(target) {
            Some(host) => Ok(seq![host]),
            None => Err(RequestError::InvalidIp { target: index }),
        }
    }
}

/// The addresses that the first `n` of `targets` stand for, in their order;
/// the first target that is refused decides.
pub open spec fn resolved(targets: Seq<String>, n: nat) -> Result<Seq<HostAddr>, RequestError>
    decreases n,
{
    if n == 0 || n > targets.len() {
        Ok(Seq::empty())
    } else {
        match resolved(targets, (n - 1) as nat) {
            Err(e) => Err(e),
            Ok(before) => match target_hosts(targets[n - 1]@, (n - 1) as usize) {
                Err(e) => Err(e),
                Ok(hosts) => Ok(before + hosts),
            },
        }
    }
}

/// Tells whether a target names a network rather than one address.
pub fn is_cidr(target: &str) -> (r: bool)
    ensures
        r == is_cidr_text(target@),
{
    let chars = chars_of(target);
    let mut i: usize = 0;
    while i < chars.len()
        invariant
            i <= chars.len(),
            chars@ == target@,
            forall|k: int| 0 <= k < i ==> chars@[k] != '/',
        decreases chars.len() - i,
    {
        if chars[i] == '/' {
            return true;
        }
        i += 1;
    }
    false
}

/// The addresses that the targets of a request stand for, in their order.
pub fn resolve_targets(targets: &Vec<String>) -> (r: Result<Vec<HostAddr>, RequestError>)
    ensures
        match resolved(targets@, targets@.len()) {
            Ok(hosts) => r is Ok && r->Ok_0@ == hosts,
            Err(e) => r == Err::<Vec<HostAddr>, RequestError>(e),
        },
{
    let mut all: Vec<HostAddr> = Vec::new();
    let mut i: usize = 0;
    while i < targets.len()
        invariant
            i <= targets.len(),
            resolved(targets@, i as nat) == Ok::<Seq<HostAddr>, RequestError>(all@),
        decreases targets.len() - i,
    {
        let target = targets[i].as_str();
        let ghost before = all@;
        if is_cidr(target) {
            match parse_net(target) {
                Some(net) => {
                    let mut hosts = expand_cidr_to_ips(net);
                    all.append(&mut hosts);
                },
                None => {
                    proof {
                        lemma_refused_stays(targets@, (i + 1) as nat, targets@.len());
                    }
                    return Err(RequestError::InvalidCidr { target: i });
                },
            }
        } else {
            match parse_host(target) {
                Some(host) => {
                    all.push(host);
                    assert(all@ =~= before + seq![host]);
                },
                None => {
                    proof {
                        lemma_refused_stays(targets@, (i + 1) as nat, targets@.len());
                    }
                    return Err(RequestError::InvalidIp { target: i });
                },
            }
        }
        i += 1;
    }
    Ok(all)
}

/// A refusal among the first `n` targets is the refusal of any longer list.
proof fn lemma_refused_stays(targets: Seq<String>, n: nat, m: nat)
    requires
        n <= m <= targets.len(),
        resolved(targets, n) is Err,
    ensures
        resolved(targets, m) == resolved(targets, n),
    decreases m,
{
    if m > n {
        lemma_refused_stays(targets, n, (m - 1) as nat);
    }
}

impl ScanRequest {
    /// The ports that the request asks for: its own, or the default list
    /// where it names none.
    pub open spec fn spec_ports(&self) -> Seq<u16> {
        if self.ports@.len() == 0 {
            default_port_list()
        } else {
            self.ports@
        }
    }

    pub open spec fn spec_concurrency(&self) -> usize {
        match self.concurrency {
            Some(c) => c,
            None => DEFAULT_CONCURRENCY,
        }
    }

    pub open spec fn spec_timeout_ms(&self) -> u64 {
        match self.timeout_ms {
            Some(t) => t,
            None => DEFAULT_TIMEOUT_MS,
        }
    }

    /// Works out what the request asks for. It is refused, before anything
    /// is scanned, where one of its targets cannot be read.
    pub fn plan(&self) -> (r: Result<ScanPlan, RequestError>)
        ensures
            match resolved(self.targets@, self.targets@.len()) {
                Ok(hosts) => r is Ok && r->Ok_0.targets@ == hosts && r->Ok_0.ports@
                    == self.spec_ports() && r->Ok_0.concurrency == self.spec_concurrency()
                    && r->Ok_0.timeout_ms == self.spec_timeout_ms(),
                Err(e) => r == Err::<ScanPlan, RequestError>(e),
            },
    {
        let targets = match resolve_targets(&self.targets) {
            Ok(hosts) => hosts,
            Err(e) => {
                return Err(e);
            },
        };
        let ports = if self.ports.len() == 0 {
            default_ports()
        } else {
            self.ports.clone()
        };
        let concurrency = match self.concurrency {
            Some(c) => c,
            None => DEFAULT_CONCURRENCY,
        };
        let timeout_ms = match self.timeout_ms {
            Some(t) => t,
            None => DEFAULT_TIMEOUT_MS,
        };
        Ok(ScanPlan { targets, ports, concurrency, timeout_ms })
    }
}

/// The results of a scan that ended, if it ended with results.
pub open spec fn opt_results(o: Option<ScanResults>) -> Option<ResultsView> {
    match o {
        Some(r) => Some(r@),
        None => None,
    }
}

/// The status of the scan that counts, and its ticket while it runs. The two
/// change together.
#[derive(Debug, Clone, Copy)]
struct Phase {
    status: Status,
    active: Option<u64>,
}

/// What the management interface keeps of scans. Whatever is done with a
/// controller, its state meets the invariant of `ControllerView`.
#[derive(Debug)]
pub struct Controller {
    phase: Phase,
    results: Option<ScanResults>,
    next_ticket: u64,
}

/// The mathematical value of a `Controller`.
pub struct ControllerView {
    /// The status of the scan that counts, as last recorded.
    pub status: Status,
    /// The results of the last scan that counted and ended.
    pub results: Option<ResultsView>,
    /// The ticket of the scan that runs and counts.
    pub active: Option<u64>,
    /// The ticket that the next scan gets.
    pub next_ticket: u64,
}

/// What beginning a scan comes to.
#[derive(Debug, Clone, Copy, PartialEq, Eq, Structural)]
pub struct Begun {
    /// The ticket of the scan that begins.
    pub ticket: u64,
    /// The ticket of the scan that ran until now and is to be cancelled.
    pub superseded: Option<u64>,
}

impl ControllerView {
    /// What holds of the controller at every moment: the state is `running`
    /// exactly while a scan counts, and that scan's ticket has been given out.
    pub open spec fn inv(self) -> bool {
        &&& (self.status.state == ScanState::Running) == (self.active is Some)
        &&& self.active is Some ==> self.active->0 < self.next_ticket
    }
}

/// The controller before any scan.
pub open spec fn idle() -> ControllerView {
    ControllerView {
        status: Status { total: 0, scanned: 0, open: 0, state: ScanState::Idle },
        results: None,
        active: None,
        next_ticket: 0,
    }
}

/// The controller after a scan of `total` units has begun, and what the
/// beginning comes to: the new scan counts from now on, earlier results are
/// dropped, and the scan that ran is to be cancelled. Nothing begins once the
/// tickets are used up.
pub open spec fn begun(s: ControllerView, total: u64) -> (ControllerView, Option<Begun>) {
    if s.next_ticket == u64::MAX {
        (s, None)
    } else {
        (
            ControllerView {
                status: Status { total, scanned: 0, open: 0, state: ScanState::Running },
                results: None,
                active: Some(s.next_ticket),
                next_ticket: (s.next_ticket + 1) as u64,
            },
            Some(Begun { ticket: s.next_ticket, superseded: s.active }),
        )
    }
}

/// The controller after the scan with the ticket `ticket` has ended, with
/// results or, where it could not start, without. The end of a scan that does
/// not count changes nothing.
pub open spec fn ended(
    s: ControllerView,
    ticket: u64,
    outcome: Option<ResultsView>,
) -> ControllerView {
    if s.active != Some(ticket) {
        s
    } else {
        match outcome {
            Some(results) => ControllerView {
                status: Status {
                    total: s.status.total,
                    scanned: results.scanned_done,
                    open: results.open_count,
                    state: ScanState::Done,
                },
                results: Some(results),
                active: None,
                next_ticket: s.next_ticket,
            },
            None => ControllerView {
                status: Status { state: ScanState::Idle, ..s.status },
                results: s.results,
                active: None,
                next_ticket: s.next_ticket,
            },
        }
    }
}

/// The status that an observer is shown: while a scan counts and its live
/// counters `live` (done, open) are at hand, these; else what was recorded.
pub open spec fn shown(s: ControllerView, live: Option<(u64, u64)>) -> Status {
    match live {
        Some((scanned, open)) => if s.active is Some {
            Status { scanned, open, ..s.status }
        } else {
            s.status
        },
        None => s.status,
    }
}

/// The controller begins in a state of which its invariant holds, and every
/// step keeps it.
pub proof fn lemma_controller_inv(
    s: ControllerView,
    total: u64,
    ticket: u64,
    outcome: Option<ResultsView>,
)
    requires
        s.inv(),
    ensures
        idle().inv(),
        begun(s, total).0.inv(),
        ended(s, ticket, outcome).inv(),
{
}

/// A scan that begins while another runs takes its place: the other is named
/// for cancellation, and when it ends, at whatever moment and with whatever
/// results, the controller stays as the new scan left it.
pub proof fn lemma_superseded_scan_is_ignored(
    s: ControllerView,
    total: u64,
    outcome: Option<ResultsView>,
)
    requires
        s.inv(),
        s.active is Some,
        begun(s, total).1 is Some,
    ensures
        begun(s, total).1->0.superseded == s.active,
        begun(s, total).0.active == Some(begun(s, total).1->0.ticket),
        begun(s, total).1->0.ticket != s.active->0,
        ended(begun(s, total).0, s.active->0, outcome) == begun(s, total).0,
{
}

/// No scan but the one that counts can change the controller by ending.
pub proof fn lemma_only_the_active_scan_ends(
    s: ControllerView,
    ticket: u64,
    outcome: Option<ResultsView>,
)
    requires
        s.active != Some(ticket),
    ensures
        ended(s, ticket, outcome) == s,
{
}

impl View for Controller {
    type V = ControllerView;

    closed spec fn view(&self) -> ControllerView {
        ControllerView {
            status: self.phase.status,
            results: opt_results(self.results),
            active: self.phase.active,
            next_ticket: self.next_ticket,
        }
    }
}

impl Controller {
    #[verifier::type_invariant]
    spec fn valid(&self) -> bool {
        self@.inv()
    }

    /// The controller before any scan.
    pub fn new() -> (r: Controller)
        ensures
            r@ == idle(),
            r@.inv(),
    {
        Controller {
            phase: Phase {
                status: Status { total: 0, scanned: 0, open: 0, state: ScanState::Idle },
                active: None,
            },
            results: None,
            next_ticket: 0,
        }
    }

    /// Has no effect: tells a caller that is verified itself that the state
    /// of the controller meets its invariant.
    pub fn audit(&self)
        ensures
            self@.inv(),
    {
        proof {
            use_type_invariant(self);
        }
    }

    /// Begins a scan of `total` units. See `begun`.
    pub fn begin(&mut self, total: u64) -> (r: Option<Begun>)
        ensures
            (final(self)@, r) == begun(old(self)@, total),
            final(self)@.inv(),
    {
        proof {
            use_type_invariant(&*self);
        }
        if self.next_ticket == u64::MAX {
            return None;
        }
        let ticket = self.next_ticket;
        let superseded = self.phase.active;
        self.next_ticket = ticket + 1;
        self.results = None;
        self.phase = Phase {
            status: Status { total, scanned: 0, open: 0, state: ScanState::Running },
            active: Some(ticket),
        };
        Some(Begun { ticket, superseded })
    }

    /// Takes in the end of the scan with the ticket `ticket`. See `ended`.
    /// Tells whether that scan counted.
    pub fn end(&mut self, ticket: u64, outcome: Option<ScanResults>) -> (counted: bool)
        ensures
            final(self)@ == ended(old(self)@, ticket, opt_results(outcome)),
            counted == (old(self)@.active == Some(ticket)),
            final(self)@.inv(),
    {
        proof {
            use_type_invariant(&*self);
        }
        let counts = match self.phase.active {
            Some(t) => t == ticket,
            None => false,
        };
        if !counts {
            return false;
        }
        let status = self.phase.status;
        match outcome {
            Some(results) => {
                self.phase = Phase {
                    status: Status {
                        total: status.total,
                        scanned: results.scanned_done,
                        open: results.open_count,
                        state: ScanState::Done,
                    },
                    active: None,
                };
                self.results = Some(results);
            },
            None => {
                self.phase = Phase {
                    status: Status {
                        total: status.total,
                        scanned: status.scanned,
                        open: status.open,
                        state: ScanState::Idle,
                    },
                    active: None,
                };
            },
        }
        true
    }

    /// The status to show. See `shown`.
    pub fn status(&self, live: Option<(u64, u64)>) -> (r: Status)
        ensures
            r == shown(self@, live),
    {
        match live {
            Some((scanned, open)) => if self.phase.active.is_some() {
                Status {
                    total: self.phase.status.total,
                    scanned,
                    open,
                    state: self.phase.status.state,
                }
            } else {
                self.phase.status
            },
            None => self.phase.status,
        }
    }

    /// The ticket of the scan that runs and counts.
    pub fn active(&self) -> (r: Option<u64>)
        ensures
            r == self@.active,
    {
        self.phase.active
    }

    /// The results of the last scan that counted and ended; none before the
    /// first such scan, and none while a scan runs.
    pub fn results(&self) -> (r: Option<ScanResults>)
        ensures
            opt_results(r) == self@.results,
    {
        match &self.results {
            Some(results) => Some(results.duplicate()),
            None => None,
        }
    }
}

} // verus!
