//! The scan itself: which units of work there are, how many of them may run
//! at a time, when the scan stops, and what it has found.
//!
//! A unit is one port on one target. The `ScanEngine` decides and counts; its
//! driver connects and probes. The driver asks the engine what to do
//! (`poll`), starts each unit it is given (`start_unit`), and reports how each
//! one ended (`complete_unit`). Cancellation is a flag that the driver reads
//! and hands in: once seen, no further unit is handed out or started, and the
//! units that run already are waited for.

use crate::netdetect::HostAddr;
use crate::ports::is_digit;
use crate::types::{
    duplicate_entries, entry_views, opt_text, EntryView, ResultsView, ScanEntry, ScanResults,
};
use vstd::prelude::*;

verus! {

/// The least number of units that may run at a time.
pub const MIN_CONCURRENCY: usize = 1;

/// The greatest number of units that may run at a time.
pub const MAX_CONCURRENCY: usize = 5000;

/// The number of units that run at a time where `concurrency` are asked for.
pub open spec fn clamped(concurrency: usize) -> usize {
    if concurrency < MIN_CONCURRENCY {
        MIN_CONCURRENCY
    } else if concurrency > MAX_CONCURRENCY {
        MAX_CONCURRENCY
    } else {
        concurrency
    }
}

/// Brings the number of units asked for into the range that is served: 0
/// counts as 1, and anything above 5000 as 5000.
pub fn clamp_concurrency(concurrency: usize) -> (r: usize)
    ensures
        r == clamped(concurrency),
        MIN_CONCURRENCY <= r <= MAX_CONCURRENCY,
{
    if concurrency < MIN_CONCURRENCY {
        MIN_CONCURRENCY
    } else if concurrency > MAX_CONCURRENCY {
        MAX_CONCURRENCY
    } else {
        concurrency
    }
}

/// The latency to record for a connect that took `elapsed_ms` milliseconds:
/// the number itself, as far as 64 bits hold it.
pub fn latency_ms(elapsed_ms: u128) -> (r: u64)
    ensures
        r == elapsed_ms % 0x1_0000_0000_0000_0000,
{
    let low: u128 = elapsed_ms % 0x1_0000_0000_0000_0000;
    low as u64
}

/// The number that the two decimal digits of `s` at `i` and `i + 1` write.
pub open spec fn two_digits(s: Seq<char>, i: int) -> int {
    (s[i] as u32 - '0' as u32) * 10 + (s[i + 1] as u32 - '0' as u32)
}

/// Whether `i` is a place at which a timestamp holds a separator, not a digit.
pub open spec fn separator_place(i: int) -> bool {
    i == 4 || i == 7 || i == 10 || i == 13 || i == 16 || i == 19
}

/// Whether `s` is a moment in UTC as RFC 3339 writes it: the year in four
/// digits, the month, the day, `T`, the hour, the minute and the second in
/// two digits each, separated by `-` and `:` as in `1985-04-12T23:20:50`;
/// then, where the second has a fraction, a point and one to nine digits;
/// then `Z`.
pub open spec fn is_rfc3339_utc(s: Seq<char>) -> bool {
    &&& 20 <= s.len() <= 30 && s.len() != 21
    &&& s[4] == '-' && s[7] == '-' && s[10] == 'T' && s[13] == ':' && s[16] == ':'
    &&& s.len() > 20 ==> s[19] == '.'
    &&& s[s.len() - 1] == 'Z'
    &&& forall|i: int|
        0 <= i < s.len() - 1 && !separator_place(i) ==> is_digit(#[trigger] s[i])
    &&& 1 <= two_digits(s, 5) <= 12
    &&& 1 <= two_digits(s, 8) <= 31
    &&& two_digits(s, 11) <= 23
    &&& two_digits(s, 14) <= 59
    &&& two_digits(s, 17) <= 59
}

/// `time::OffsetDateTime::now_utc`, written by `format` with `Rfc3339`; none
/// where `format` fails, as it does for a year beyond 9999. Which moment is
/// written differs from call to call. What is written has the form of RFC
/// 3339 with the offset `Z`: zero-padded digits for the year, the month, the
/// day, the hour, the minute and the second, the fraction of the second where
/// it is not 0, without its trailing zeros, and `Z`, the offset being UTC.
#[verifier::external_body]
fn utc_now_rfc3339() -> (r: Option<String>)
    ensures
        r matches Some(text) ==> is_rfc3339_utc(text@),
{
    time::OffsetDateTime::now_utc().format(&time::format_description::well_known::Rfc3339).ok()
}

/// The start of 1970 is written as RFC 3339 asks.
proof fn lemma_epoch_is_rfc3339()
    ensures
        is_rfc3339_utc("1970-01-01T00:00:00Z"@),
{
    reveal_strlit("1970-01-01T00:00:00Z");
    let s = "1970-01-01T00:00:00Z"@;
    assert(s.len() == 20);
    assert(s[0] == '1' && s[1] == '9' && s[2] == '7' && s[3] == '0');
    assert(s[5] == '0' && s[6] == '1' && s[8] == '0' && s[9] == '1');
    assert(s[11] == '0' && s[12] == '0' && s[14] == '0' && s[15] == '0');
    assert(s[17] == '0' && s[18] == '0' && s[19] == 'Z');
    assert forall|i: int| 0 <= i < s.len() - 1 && !separator_place(i) implies is_digit(
        #[trigger] s[i],
    ) by {
        if i == 0 {
        } else if i == 1 {
        } else if i == 2 {
        } else if i == 3 {
        } else if i == 5 {
        } else if i == 6 {
        } else if i == 8 {
        } else if i == 9 {
        } else if i == 11 {
        } else if i == 12 {
        } else if i == 14 {
        } else if i == 15 {
        } else if i == 17 {
        } else {
            assert(i == 18);
        }
    }
}

/// The present moment in UTC, by RFC 3339, as the clock gives it; the start
/// of 1970, `1970-01-01T00:00:00Z`, where the moment cannot be written.
pub fn now_iso_like() -> (r: String)
    ensures
        is_rfc3339_utc(r@),
{
    match utc_now_rfc3339() {
        Some(text) => text,
        None => {
            proof {
                lemma_epoch_is_rfc3339();
            }
            String::from_str("1970-01-01T00:00:00Z")
        },
    }
}

/// The counters and the list that a running scan fills and an observer reads.
#[derive(Debug)]
pub struct SharedProgress {
    /// The number of units that have finished, open or not.
    pub scanned_done: u64,
    /// The number of entries.
    pub open_count: u64,
    /// The open ports, in the order in which they were found.
    pub entries: Vec<ScanEntry>,
}

impl SharedProgress {
    /// What holds of the progress of every scan: the count of open ports is
    /// the number of entries, each entry stands for a unit that has finished,
    /// and every entry is an open port.
    pub open spec fn wf(&self) -> bool {
        &&& self.open_count == self.entries@.len()
        &&& self.open_count <= self.scanned_done
        &&& forall|i: int| 0 <= i < self.entries@.len() ==> (#[trigger] self.entries@[i]@).open
    }

    /// The progress of a scan that has not begun.
    pub fn new() -> (r: SharedProgress)
        ensures
            r.wf(),
            r.scanned_done == 0,
            r.open_count == 0,
            r.entries@.len() == 0,
    {
        SharedProgress { scanned_done: 0, open_count: 0, entries: Vec::new() }
    }

    /// The results as they stand, for a scan of `total` units.
    pub fn snapshot(&self, total: u64) -> (r: ScanResults)
        ensures
            r.scanned_total == total,
            r.scanned_done == self.scanned_done,
            r.open_count == self.open_count,
            entry_views(r.entries@) == entry_views(self.entries@),
            r.entries@.len() == self.entries@.len(),
    {
        let entries = duplicate_entries(&self.entries);
        assert(entry_views(entries@).len() == entries@.len());
        assert(entry_views(self.entries@).len() == self.entries@.len());
        ScanResults {
            scanned_total: total,
            scanned_done: self.scanned_done,
            open_count: self.open_count,
            entries,
        }
    }
}

impl Default for SharedProgress {
    fn default() -> (r: SharedProgress)
        ensures
            r.wf(),
            r.scanned_done == 0,
            r.open_count == 0,
            r.entries@.len() == 0,
    {
        SharedProgress::new()
    }
}

/// One unit of work: one port on one target.
#[derive(Debug, Clone, Copy, PartialEq, Eq, Structural)]
pub struct Unit {
    /// The place of the unit in the scan, counted from 0: targets in the
    /// order given and, for each target, ports in the order given.
    pub index: u64,
    pub ip: HostAddr,
    pub port: u16,
}

/// What the driver is to do next.
#[derive(Debug, Clone, Copy, PartialEq, Eq, Structural)]
pub enum ScanAction {
    /// Run this unit.
    Dispatch(Unit),
    /// Wait until a running unit ends, report it, and ask again.
    Wait,
    /// Stop: every unit that was handed out has ended.
    Finished,
}

/// How a unit ended.
#[derive(Debug, Clone, PartialEq, Eq)]
pub enum Outcome {
    /// The connect was refused, found no route, or ran out of time.
    Closed,
    /// The connect succeeded after `latency_ms`.
    Open { latency_ms: u64, service: Option<String>, banner: Option<String> },
}

/// Why a scan cannot begin.
#[derive(Debug, Clone, Copy, PartialEq, Eq, Structural)]
pub enum ScanError {
    /// Targets times ports is more than can be counted in 64 bits.
    TooManyUnits,
}

/// The entry for the unit `unit`, found open.
pub open spec fn entry_for(
    unit: Unit,
    latency_ms: u64,
    service: Option<Seq<char>>,
    banner: Option<Seq<char>>,
    timestamp: Seq<char>,
) -> EntryView {
    EntryView {
        ip: unit.ip.text(),
        port: unit.port,
        open: true,
        latency_ms,
        service,
        banner,
        timestamp,
    }
}

/// The mathematical state of a scan.
pub struct EngineView {
    pub targets: Seq<HostAddr>,
    pub ports: Seq<u16>,
    /// How many units may run at a time.
    pub limit: nat,
    /// How many units have been handed out.
    pub dispatched: nat,
    /// How many units have been handed out and have not ended.
    pub in_flight: nat,
    /// How many units were handed out and then not started, the scan having
    /// been cancelled meanwhile.
    pub skipped: nat,
    /// How many units have finished.
    pub done: nat,
    /// Whether cancellation was seen.
    pub halted: bool,
    pub entries: Seq<EntryView>,
}

impl EngineView {
    /// The number of units of the scan.
    pub open spec fn total(self) -> nat {
        self.targets.len() * self.ports.len()
    }

    /// The `k`-th unit of the scan.
    pub open spec fn unit(self, k: nat) -> Unit {
        Unit {
            index: k as u64,
            ip: self.targets[k as int / self.ports.len() as int],
            port: self.ports[k as int % self.ports.len() as int],
        }
    }

    /// Whether `entry` is an open port of the `k`-th unit, which was handed out.
    pub open spec fn entry_of_unit(self, entry: EntryView, k: nat) -> bool {
        k < self.dispatched && entry.open && entry.ip == self.unit(k).ip.text() && entry.port
            == self.unit(k).port
    }

    /// Whether `entry` is an open port of a unit that was handed out.
    pub open spec fn has_unit(self, entry: EntryView) -> bool {
        exists|k: nat| #[trigger] self.entry_of_unit(entry, k)
    }

    /// What holds of a scan at every moment.
    pub open spec fn inv(self) -> bool {
        &&& self.total() <= u64::MAX
        &&& MIN_CONCURRENCY <= self.limit <= MAX_CONCURRENCY
        &&& self.dispatched <= self.total()
        &&& self.done + self.skipped + self.in_flight == self.dispatched
        &&& self.in_flight <= self.limit
        &&& self.skipped > 0 ==> self.halted
        &&& self.entries.len() <= self.done
        &&& forall|i: int| 0 <= i < self.entries.len() ==> #[trigger] self.has_unit(self.entries[i])
    }

    /// Whether the scan is over: nothing runs, and nothing more is handed out.
    pub open spec fn finished(self) -> bool {
        self.in_flight == 0 && (self.halted || self.dispatched == self.total())
    }

    /// The results as they stand.
    pub open spec fn results(self) -> ResultsView {
        ResultsView {
            scanned_total: self.total() as u64,
            scanned_done: self.done as u64,
            open_count: self.entries.len() as u64,
            entries: self.entries,
        }
    }
}

/// The state in which a scan of `ports` on `targets` begins.
pub open spec fn fresh(targets: Seq<HostAddr>, ports: Seq<u16>, concurrency: usize) -> EngineView {
    EngineView {
        targets,
        ports,
        limit: clamped(concurrency) as nat,
        dispatched: 0,
        in_flight: 0,
        skipped: 0,
        done: 0,
        halted: false,
        entries: Seq::empty(),
    }
}

/// The state after the driver has asked what to do, and what it is told.
/// Cancellation, once seen, stays. While the scan is not cancelled and units
/// are left, the next unit is handed out as soon as fewer than `limit` run;
/// until then, and while units still run at the end, the driver waits.
pub open spec fn polled(s: EngineView, cancelled: bool) -> (EngineView, ScanAction) {
    let halted = s.halted || cancelled;
    if !halted && s.dispatched < s.total() && s.in_flight < s.limit {
        (
            EngineView { dispatched: s.dispatched + 1, in_flight: s.in_flight + 1, ..s },
            ScanAction::Dispatch(s.unit(s.dispatched)),
        )
    } else if s.in_flight > 0 {
        (EngineView { halted, ..s }, ScanAction::Wait)
    } else {
        (EngineView { halted, ..s }, ScanAction::Finished)
    }
}

/// The state after a unit that was handed out has looked at the cancellation
/// flag before its work, and whether it goes on. A unit that sees the scan
/// cancelled gives its place back at once and is not counted as done.
pub open spec fn started(s: EngineView, cancelled: bool) -> (EngineView, bool) {
    if s.in_flight == 0 {
        (s, false)
    } else if cancelled {
        (
            EngineView {
                in_flight: (s.in_flight - 1) as nat,
                skipped: s.skipped + 1,
                halted: true,
                ..s
            },
            false,
        )
    } else {
        (s, true)
    }
}

/// The state after the `index`-th unit has ended. The unit gives its place
/// back and counts as done; where its port was open, its entry is added. A
/// report for a unit that was not handed out, or while nothing runs, changes
/// nothing.
pub open spec fn completed(
    s: EngineView,
    index: u64,
    outcome: Outcome,
    timestamp: Seq<char>,
) -> EngineView {
    if s.in_flight == 0 || index >= s.dispatched {
        s
    } else {
        match outcome {
            Outcome::Closed => EngineView {
                in_flight: (s.in_flight - 1) as nat,
                done: s.done + 1,
                ..s
            },
            Outcome::Open { latency_ms, service, banner } => EngineView {
                in_flight: (s.in_flight - 1) as nat,
                done: s.done + 1,
                entries: s.entries.push(
                    entry_for(
                        s.unit(index as nat),
                        latency_ms,
                        opt_text(service),
                        opt_text(banner),
                        timestamp,
                    ),
                ),
                ..s
            },
        }
    }
}

/// A scan begins in a state of which the invariant holds.
pub proof fn lemma_fresh_inv(targets: Seq<HostAddr>, ports: Seq<u16>, concurrency: usize)
    requires
        targets.len() * ports.len() <= u64::MAX,
    ensures
        fresh(targets, ports, concurrency).inv(),
{
}

/// Asking what to do keeps the invariant, and the scan is over exactly when
/// the driver is told so.
pub proof fn lemma_polled_inv(s: EngineView, cancelled: bool)
    requires
        s.inv(),
    ensures
        polled(s, cancelled).0.inv(),
        polled(s, cancelled).1 == ScanAction::Finished <==> polled(s, cancelled).0.finished(),
{
    let t = polled(s, cancelled).0;
    assert forall|i: int| 0 <= i < t.entries.len() implies #[trigger] t.has_unit(t.entries[i]) by {
        assert(s.has_unit(s.entries[i]));
        let k = choose|k: nat| #[trigger] s.entry_of_unit(s.entries[i], k);
        assert(t.entry_of_unit(t.entries[i], k));
    }
}

/// Starting a unit keeps the invariant.
pub proof fn lemma_started_inv(s: EngineView, cancelled: bool)
    requires
        s.inv(),
    ensures
        started(s, cancelled).0.inv(),
{
    let t = started(s, cancelled).0;
    assert forall|i: int| 0 <= i < t.entries.len() implies #[trigger] t.has_unit(t.entries[i]) by {
        assert(s.has_unit(s.entries[i]));
        let k = choose|k: nat| #[trigger] s.entry_of_unit(s.entries[i], k);
        assert(t.entry_of_unit(t.entries[i], k));
    }
}

/// The end of a unit keeps the invariant.
pub proof fn lemma_completed_inv(s: EngineView, index: u64, outcome: Outcome, timestamp: Seq<char>)
    requires
        s.inv(),
    ensures
        completed(s, index, outcome, timestamp).inv(),
{
    let t = completed(s, index, outcome, timestamp);
    assert forall|i: int| 0 <= i < t.entries.len() implies #[trigger] t.has_unit(t.entries[i]) by {
        if i < s.entries.len() {
            assert(s.has_unit(s.entries[i]));
            let k = choose|k: nat| #[trigger] s.entry_of_unit(s.entries[i], k);
            assert(t.entry_of_unit(t.entries[i], k));
        } else {
            assert(t.entry_of_unit(t.entries[i], index as nat));
        }
    }
}

/// Progress never goes back: whatever happens, no fewer units are handed out
/// or done than before, what was found stays found and stays in its place,
/// and cancellation, once seen, stays seen.
pub proof fn lemma_progress_is_monotone(
    s: EngineView,
    cancelled: bool,
    index: u64,
    outcome: Outcome,
    timestamp: Seq<char>,
)
    requires
        s.inv(),
    ensures
        polled(s, cancelled).0.done == s.done,
        polled(s, cancelled).0.entries == s.entries,
        polled(s, cancelled).0.dispatched >= s.dispatched,
        s.halted ==> polled(s, cancelled).0.halted,
        started(s, cancelled).0.done == s.done,
        started(s, cancelled).0.entries == s.entries,
        started(s, cancelled).0.dispatched == s.dispatched,
        s.halted ==> started(s, cancelled).0.halted,
        completed(s, index, outcome, timestamp).done >= s.done,
        s.entries.is_prefix_of(completed(s, index, outcome, timestamp).entries),
        completed(s, index, outcome, timestamp).entries.len() <= s.entries.len() + 1,
        completed(s, index, outcome, timestamp).dispatched == s.dispatched,
        completed(s, index, outcome, timestamp).halted == s.halted,
{
}

/// A scan that ends without having been cancelled has done every unit; a
/// scan that ends however has done no more units than there are.
pub proof fn lemma_done_at_the_end(s: EngineView)
    requires
        s.inv(),
        s.finished(),
    ensures
        !s.halted ==> s.done == s.total(),
        s.done <= s.total(),
        s.results().scanned_done <= s.results().scanned_total,
{
}

/// At every moment of every scan, the count of open ports is the number of
/// entries, and no more units are done than there are.
pub proof fn lemma_results_consistent(s: EngineView)
    requires
        s.inv(),
    ensures
        s.results().open_count == s.results().entries.len(),
        s.results().scanned_done <= s.results().scanned_total,
        s.results().scanned_done == s.done,
        s.results().scanned_total == s.total(),
{
}

/// Only an open port makes an entry: a unit that ends closed leaves the
/// entries as they are, and every entry there is stands for a unit that was
/// handed out and found its port open.
pub proof fn lemma_closed_leaves_no_entry(s: EngineView, index: u64, timestamp: Seq<char>)
    requires
        s.inv(),
    ensures
        completed(s, index, Outcome::Closed, timestamp).entries == s.entries,
        forall|i: int|
            0 <= i < s.entries.len() ==> (#[trigger] s.entries[i]).open && exists|k: nat|
                k < s.dispatched && s.entries[i].port == s.unit(k).port && s.entries[i].ip
                    == s.unit(k).ip.text(),
{
    assert forall|i: int| 0 <= i < s.entries.len() implies (#[trigger] s.entries[i]).open
        && exists|k: nat|
        k < s.dispatched && s.entries[i].port == s.unit(k).port && s.entries[i].ip == s.unit(
            k,
        ).ip.text() by {
        assert(s.has_unit(s.entries[i]));
        let k = choose|k: nat| #[trigger] s.entry_of_unit(s.entries[i], k);
        assert(k < s.dispatched && s.entries[i].port == s.unit(k).port);
    }
}

/// A scan that is cancelled before any unit was handed out ends at once,
/// with nothing done and no entry.
pub proof fn lemma_cancelled_before_start(
    targets: Seq<HostAddr>,
    ports: Seq<u16>,
    concurrency: usize,
)
    ensures
        polled(fresh(targets, ports, concurrency), true).1 == ScanAction::Finished,
        polled(fresh(targets, ports, concurrency), true).0.finished(),
        polled(fresh(targets, ports, concurrency), true).0.results().scanned_done == 0,
        polled(fresh(targets, ports, concurrency), true).0.results().entries.len() == 0,
        polled(fresh(targets, ports, concurrency), true).0.results().open_count == 0,
{
}

/// Once cancellation was seen no unit is handed out any more, whatever the
/// driver reports later.
pub proof fn lemma_no_dispatch_after_cancel(s: EngineView, cancelled: bool)
    requires
        s.halted || cancelled,
    ensures
        !(polled(s, cancelled).1 is Dispatch),
        polled(s, cancelled).0.halted,
        polled(s, cancelled).0.dispatched == s.dispatched,
{
}

/// A concurrency of 0 serves as 1 does, and one above 5000 as 5000 does.
pub proof fn lemma_concurrency_clamped(
    targets: Seq<HostAddr>,
    ports: Seq<u16>,
    concurrency: usize,
)
    ensures
        fresh(targets, ports, 0) == fresh(targets, ports, 1),
        concurrency > 5000 ==> fresh(targets, ports, concurrency) == fresh(targets, ports, 5000),
        1 <= fresh(targets, ports, concurrency).limit <= 5000,
{
}

/// A unit is handed out only while fewer than `limit` run, so that never more
/// than `limit` run at a time.
pub proof fn lemma_admission(s: EngineView, cancelled: bool)
    requires
        s.inv(),
    ensures
        polled(s, cancelled).1 is Dispatch ==> s.in_flight < s.limit,
        polled(s, cancelled).0.in_flight <= s.limit,
{
}

/// The counters of a scan. They change together.
#[derive(Debug, Clone, Copy)]
struct Counters {
    dispatched: u64,
    in_flight: usize,
    skipped: u64,
    done: u64,
    halted: bool,
}

/// A scan: its targets and ports, its limits and its progress. Whatever is
/// done with an engine, its state meets the invariant of a scan.
#[derive(Debug)]
pub struct ScanEngine {
    targets: Vec<HostAddr>,
    ports: Vec<u16>,
    total: u64,
    limit: usize,
    counters: Counters,
    entries: Vec<ScanEntry>,
}

impl View for ScanEngine {
    type V = EngineView;

    closed spec fn view(&self) -> EngineView {
        EngineView {
            targets: self.targets@,
            ports: self.ports@,
            limit: self.limit as nat,
            dispatched: self.counters.dispatched as nat,
            in_flight: self.counters.in_flight as nat,
            skipped: self.counters.skipped as nat,
            done: self.counters.done as nat,
            halted: self.counters.halted,
            entries: entry_views(self.entries@),
        }
    }
}

impl ScanEngine {
    #[verifier::type_invariant]
    spec fn valid(&self) -> bool {
        &&& self@.inv()
        &&& self.total == self@.total()
    }

    /// Begins a scan of `ports` on `targets` in which at most `concurrency`
    /// units run at a time, 0 counting as 1 and more than 5000 as 5000. The
    /// scan is refused where it has more units than 64 bits count.
    pub fn new(targets: Vec<HostAddr>, ports: Vec<u16>, concurrency: usize) -> (r: Result<
        ScanEngine,
        ScanError,
    >)
        ensures
            targets@.len() * ports@.len() <= u64::MAX ==> r is Ok,
            targets@.len() * ports@.len() > u64::MAX ==> r == Err::<ScanEngine, ScanError>(
                ScanError::TooManyUnits,
            ),
            r is Ok ==> r->Ok_0@ == fresh(targets@, ports@, concurrency) && r->Ok_0@.inv(),
    {
        let total = match (targets.len() as u64).checked_mul(ports.len() as u64) {
            Some(n) => n,
            None => {
                return Err(ScanError::TooManyUnits);
            },
        };
        let entries: Vec<ScanEntry> = Vec::new();
        assert(entry_views(entries@) =~= Seq::<EntryView>::empty());
        let engine = ScanEngine {
            targets,
            ports,
            total,
            limit: clamp_concurrency(concurrency),
            counters: Counters { dispatched: 0, in_flight: 0, skipped: 0, done: 0, halted: false },
            entries,
        };
        Ok(engine)
    }

    /// Has no effect: tells a caller that is verified itself that the state
    /// of the engine meets the invariant of a scan.
    pub fn audit(&self)
        ensures
            self@.inv(),
    {
        proof {
            use_type_invariant(self);
        }
    }

    /// The number of units of the scan.
    pub fn total(&self) -> (r: u64)
        ensures
            r == self@.total(),
    {
        proof {
            use_type_invariant(self);
        }
        self.total
    }

    /// How many units may run at a time.
    pub fn limit(&self) -> (r: usize)
        ensures
            r == self@.limit,
            MIN_CONCURRENCY <= r <= MAX_CONCURRENCY,
    {
        proof {
            use_type_invariant(self);
        }
        self.limit
    }

    /// How many units run.
    pub fn in_flight(&self) -> (r: usize)
        ensures
            r == self@.in_flight,
            r <= self@.limit,
    {
        proof {
            use_type_invariant(self);
        }
        self.counters.in_flight
    }

    /// Whether cancellation was seen.
    pub fn is_halted(&self) -> (r: bool)
        ensures
            r == self@.halted,
    {
        self.counters.halted
    }

    /// Whether the scan is over.
    pub fn is_finished(&self) -> (r: bool)
        ensures
            r == self@.finished(),
    {
        proof {
            use_type_invariant(self);
        }
        self.counters.in_flight == 0 && (self.counters.halted || self.counters.dispatched
            == self.total)
    }

    /// The numbers of units done and of open ports found so far.
    pub fn counters(&self) -> (r: (u64, u64))
        ensures
            r.0 == self@.done,
            r.1 == self@.entries.len(),
            r.1 <= r.0 <= self@.total(),
    {
        proof {
            use_type_invariant(self);
        }
        assert(entry_views(self.entries@).len() == self.entries@.len());
        (self.counters.done, self.entries.len() as u64)
    }

    /// The progress of the scan as it stands, for an observer.
    pub fn progress(&self) -> (r: SharedProgress)
        ensures
            r.wf(),
            r.scanned_done == self@.done,
            r.open_count == self@.entries.len(),
            entry_views(r.entries@) == self@.entries,
    {
        proof {
            use_type_invariant(self);
        }
        let entries = duplicate_entries(&self.entries);
        proof {
            assert(entry_views(self.entries@).len() == self.entries@.len());
            assert(entry_views(entries@).len() == entries@.len());
            assert forall|i: int| 0 <= i < entries@.len() implies (#[trigger] entries@[i]@).open by {
                assert(entry_views(entries@)[i] == entries@[i]@);
                assert(self@.has_unit(self@.entries[i]));
            }
        }
        SharedProgress {
            scanned_done: self.counters.done,
            open_count: self.entries.len() as u64,
            entries,
        }
    }

    /// The `k`-th unit of the scan.
    fn unit_at(&self, k: u64) -> (r: Unit)
        requires
            k < self@.total(),
        ensures
            r == self@.unit(k as nat),
    {
        proof {
            use_type_invariant(self);
        }
        let np: u64 = self.ports.len() as u64;
        let nt: u64 = self.targets.len() as u64;
        assert(np > 0 && k / np < nt) by (nonlinear_arith)
            requires
                k < nt * np,
                0 <= k,
                0 <= np,
                0 <= nt,
        ;
        Unit {
            index: k,
            ip: self.targets[(k / np) as usize],
            port: self.ports[(k % np) as usize],
        }
    }

    /// Tells the driver what to do next, given whether the scan is cancelled
    /// now. See `polled`.
    pub fn poll(&mut self, cancelled: bool) -> (action: ScanAction)
        ensures
            (final(self)@, action) == polled(old(self)@, cancelled),
            final(self)@.inv(),
    {
        proof {
            use_type_invariant(&*self);
            lemma_polled_inv(self@, cancelled);
        }
        let c = self.counters;
        let halted = c.halted || cancelled;
        if !halted && c.dispatched < self.total && c.in_flight < self.limit {
            let unit = self.unit_at(c.dispatched);
            self.counters = Counters {
                dispatched: c.dispatched + 1,
                in_flight: c.in_flight + 1,
                skipped: c.skipped,
                done: c.done,
                halted: c.halted,
            };
            ScanAction::Dispatch(unit)
        } else {
            self.counters = Counters {
                dispatched: c.dispatched,
                in_flight: c.in_flight,
                skipped: c.skipped,
                done: c.done,
                halted,
            };
            if c.in_flight > 0 {
                ScanAction::Wait
            } else {
                ScanAction::Finished
            }
        }
    }

    /// Tells a unit that was handed out whether to do its work, given
    /// whether the scan is cancelled now. See `started`.
    pub fn start_unit(&mut self, cancelled: bool) -> (go: bool)
        ensures
            (final(self)@, go) == started(old(self)@, cancelled),
            final(self)@.inv(),
    {
        proof {
            use_type_invariant(&*self);
            lemma_started_inv(self@, cancelled);
        }
        let c = self.counters;
        if c.in_flight == 0 {
            false
        } else if cancelled {
            self.counters = Counters {
                dispatched: c.dispatched,
                in_flight: c.in_flight - 1,
                skipped: c.skipped + 1,
                done: c.done,
                halted: true,
            };
            false
        } else {
            true
        }
    }

    /// Takes in the end of the `index`-th unit, which was recorded at the
    /// moment `timestamp`. See `completed`.
    pub fn complete_unit_at(&mut self, index: u64, outcome: Outcome, timestamp: String)
        ensures
            final(self)@ == completed(old(self)@, index, outcome, timestamp@),
            final(self)@.inv(),
    {
        proof {
            use_type_invariant(&*self);
            lemma_completed_inv(self@, index, outcome, timestamp@);
        }
        let c = self.counters;
        if c.in_flight == 0 || index >= c.dispatched {
            return ;
        }
        let unit = self.unit_at(index);
        let ghost before = self@;
        proof {
            lemma_completed_inv(before, index, Outcome::Closed, timestamp@);
        }
        self.counters = Counters {
            dispatched: c.dispatched,
            in_flight: c.in_flight - 1,
            skipped: c.skipped,
            done: c.done + 1,
            halted: c.halted,
        };
        match outcome {
            Outcome::Closed => {},
            Outcome::Open { latency_ms, service, banner } => {
                let entry = ScanEntry {
                    ip: unit.ip.to_string(),
                    port: unit.port,
                    open: true,
                    latency_ms,
                    service,
                    banner,
                    timestamp,
                };
                let mut entries: Vec<ScanEntry> = Vec::new();
                assert(entry_views(entries@) =~= Seq::<EntryView>::empty());
                std::mem::swap(&mut self.entries, &mut entries);
                entries.push(entry);
                assert(entry_views(entries@) =~= before.entries.push(entry@));
                std::mem::swap(&mut self.entries, &mut entries);
            },
        }
    }

    /// Takes in the end of the `index`-th unit, now. See `completed`; the
    /// moment recorded is the present one, in UTC by RFC 3339, as the clock
    /// gives it.
    pub fn complete_unit(&mut self, index: u64, outcome: Outcome)
        ensures
            exists|timestamp: Seq<char>|
                is_rfc3339_utc(timestamp) && final(self)@ == completed(
                    old(self)@,
                    index,
                    outcome,
                    timestamp,
                ),
            final(self)@.inv(),
    {
        let timestamp = now_iso_like();
        let ghost moment = timestamp@;
        self.complete_unit_at(index, outcome, timestamp);
        assert(is_rfc3339_utc(moment) && self@ == completed(old(self)@, index, outcome, moment));
    }

    /// The results as they stand.
    pub fn results(&self) -> (r: ScanResults)
        ensures
            r@ == self@.results(),
            r.consistent(),
    {
        proof {
            use_type_invariant(self);
        }
        let entries = duplicate_entries(&self.entries);
        assert(entry_views(entries@).len() == entries@.len());
        assert(entry_views(self.entries@).len() == self.entries@.len());
        ScanResults {
            scanned_total: self.total,
            scanned_done: self.counters.done,
            open_count: self.entries.len() as u64,
            entries,
        }
    }
}

} // verus!
