//! The records that a scan produces.

use vstd::prelude::*;

verus! {

/// The text of an optional string.
pub open spec fn opt_text(o: Option<String>) -> Option<Seq<char>> {
    match o {
        Some(s) => Some(s@),
        None => None,
    }
}

/// A copy of an optional string.
pub fn clone_opt(o: &Option<String>) -> (r: Option<String>)
    ensures
        opt_text(r) == opt_text(*o),
{
    match o {
        Some(s) => Some(s.clone()),
        None => None,
    }
}

/// One open port that a scan found.
#[derive(Debug, Clone, PartialEq, Eq)]
pub struct ScanEntry {
    /// The address, as text.
    pub ip: String,
    pub port: u16,
    /// Always true: ports that did not answer are not recorded.
    pub open: bool,
    /// How long the connect took, in milliseconds.
    pub latency_ms: u64,
    /// The service that the banner or the port number suggests.
    pub service: Option<String>,
    /// What the service sent, with line breaks made visible.
    pub banner: Option<String>,
    /// When the entry was recorded: UTC, RFC 3339.
    pub timestamp: String,
}

/// The mathematical value of a `ScanEntry`.
pub struct EntryView {
    pub ip: Seq<char>,
    pub port: u16,
    pub open: bool,
    pub latency_ms: u64,
    pub service: Option<Seq<char>>,
    pub banner: Option<Seq<char>>,
    pub timestamp: Seq<char>,
}

impl View for ScanEntry {
    type V = EntryView;

    open spec fn view(&self) -> EntryView {
        EntryView {
            ip: self.ip@,
            port: self.port,
            open: self.open,
            latency_ms: self.latency_ms,
            service: opt_text(self.service),
            banner: opt_text(self.banner),
            timestamp: self.timestamp@,
        }
    }
}

impl ScanEntry {
    /// A copy of the entry.
    pub fn duplicate(&self) -> (r: ScanEntry)
        ensures
            r@ == self@,
    {
        ScanEntry {
            ip: self.ip.clone(),
            port: self.port,
            open: self.open,
            latency_ms: self.latency_ms,
            service: clone_opt(&self.service),
            banner: clone_opt(&self.banner),
            timestamp: self.timestamp.clone(),
        }
    }
}

/// The values of a list of entries, in order.
pub open spec fn entry_views(entries: Seq<ScanEntry>) -> Seq<EntryView> {
    entries.map_values(|e: ScanEntry| e@)
}

/// A copy of a list of entries.
pub fn duplicate_entries(entries: &Vec<ScanEntry>) -> (r: Vec<ScanEntry>)
    ensures
        entry_views(r@) == entry_views(entries@),
{
    let mut out: Vec<ScanEntry> = Vec::new();
    let mut i: usize = 0;
    while i < entries.len()
        invariant
            i <= entries.len(),
            out@.len() == i,
            forall|k: int| 0 <= k < i ==> out@[k]@ == entries@[k]@,
        decreases entries.len() - i,
    {
        out.push(entries[i].duplicate());
        i += 1;
    }
    assert(entry_views(out@) =~= entry_views(entries@));
    out
}

/// What a scan has found, and how far it has come.
#[derive(Debug, Clone)]
pub struct ScanResults {
    /// The number of units of the scan: targets times ports.
    pub scanned_total: u64,
    /// The number of units that have finished, open or not.
    pub scanned_done: u64,
    /// The number of entries.
    pub open_count: u64,
    /// The open ports, in the order in which they were found.
    pub entries: Vec<ScanEntry>,
}

/// The mathematical value of a `ScanResults`.
pub struct ResultsView {
    pub scanned_total: u64,
    pub scanned_done: u64,
    pub open_count: u64,
    pub entries: Seq<EntryView>,
}

impl View for ScanResults {
    type V = ResultsView;

    open spec fn view(&self) -> ResultsView {
        ResultsView {
            scanned_total: self.scanned_total,
            scanned_done: self.scanned_done,
            open_count: self.open_count,
            entries: entry_views(self.entries@),
        }
    }
}

impl ScanResults {
    /// What every snapshot of a scan satisfies: no more units are done than
    /// there are, and the count of open ports is the number of entries.
    pub open spec fn consistent(&self) -> bool {
        self.scanned_done <= self.scanned_total && self.open_count == self.entries@.len()
    }

    /// A copy of the results.
    pub fn duplicate(&self) -> (r: ScanResults)
        ensures
            r@ == self@,
    {
        ScanResults {
            scanned_total: self.scanned_total,
            scanned_done: self.scanned_done,
            open_count: self.open_count,
            entries: duplicate_entries(&self.entries),
        }
    }
}

impl Default for ScanResults {
    /// The results of a scan of nothing.
    fn default() -> (r: ScanResults)
        ensures
            r.scanned_total == 0,
            r.scanned_done == 0,
            r.open_count == 0,
            r.entries@.len() == 0,
    {
        ScanResults { scanned_total: 0, scanned_done: 0, open_count: 0, entries: Vec::new() }
    }
}

} // verus!
