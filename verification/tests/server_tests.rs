use lan_scan_rs::netdetect::{ipv4_from_octets, HostAddr};
use lan_scan_rs::ports::default_ports;
use lan_scan_rs::server::{
    is_cidr, resolve_targets, Begun, Controller, RequestError, ScanRequest, ScanState, Status,
};
use lan_scan_rs::types::{ScanEntry, ScanResults};

fn v4(a: u8, b: u8, c: u8, d: u8) -> HostAddr {
    HostAddr::V4(ipv4_from_octets(a, b, c, d))
}

fn request(targets: &[&str]) -> ScanRequest {
    ScanRequest {
        targets: targets.iter().map(|t| String::from(*t)).collect(),
        ports: Vec::new(),
        concurrency: None,
        timeout_ms: None,
    }
}

fn results(done: u64, ports: &[u16]) -> ScanResults {
    ScanResults {
        scanned_total: 10,
        scanned_done: done,
        open_count: ports.len() as u64,
        entries: ports
            .iter()
            .map(|p| ScanEntry {
                ip: String::from("10.0.0.1"),
                port: *p,
                open: true,
                latency_ms: 1,
                service: None,
                banner: None,
                timestamp: String::from("t"),
            })
            .collect(),
    }
}

#[test]
fn state_labels() {
    assert_eq!(ScanState::Idle.label(), "idle");
    assert_eq!(ScanState::Running.label(), "running");
    assert_eq!(ScanState::Done.label(), "done");
    assert_eq!(
        Status::default(),
        Status { total: 0, scanned: 0, open: 0, state: ScanState::Idle }
    );
}

#[test]
fn targets_with_a_slash_are_networks() {
    assert!(is_cidr("10.0.0.0/30"));
    assert!(is_cidr("/"));
    assert!(!is_cidr("10.0.0.1"));
    assert!(!is_cidr(""));
}

#[test]
fn targets_are_resolved_in_order() {
    let got = resolve_targets(&vec![
        String::from("192.168.1.9"),
        String::from("10.0.0.0/30"),
        String::from("::1"),
        String::from("fd00::/120"),
        String::from("10.0.0.0/30"),
    ]);
    assert_eq!(
        got,
        Ok(vec![
            v4(192, 168, 1, 9),
            v4(10, 0, 0, 1),
            v4(10, 0, 0, 2),
            HostAddr::V6(1),
            v4(10, 0, 0, 1),
            v4(10, 0, 0, 2),
        ])
    );
    assert_eq!(resolve_targets(&Vec::new()), Ok(Vec::new()));
}

#[test]
fn first_bad_target_is_reported() {
    assert_eq!(
        resolve_targets(&vec![String::from("10.0.0.1"), String::from("10.0.0.0/33"), String::from("x")]),
        Err(RequestError::InvalidCidr { target: 1 })
    );
    assert_eq!(
        resolve_targets(&vec![String::from("10.0.0.1"), String::from("10.0.0"), String::from("1/2")]),
        Err(RequestError::InvalidIp { target: 1 })
    );
    assert_eq!(
        RequestError::InvalidCidr { target: 1 }.message(),
        "invalid CIDR: invalid IP address syntax"
    );
    assert_eq!(
        RequestError::InvalidIp { target: 0 }.message(),
        "invalid IP: invalid IP address syntax"
    );
}

#[test]
fn plan_fills_in_the_defaults() {
    let plan = request(&["10.0.0.0/30"]).plan().unwrap();
    assert_eq!(plan.targets, vec![v4(10, 0, 0, 1), v4(10, 0, 0, 2)]);
    assert_eq!(plan.ports, default_ports());
    assert_eq!(plan.concurrency, 1000);
    assert_eq!(plan.timeout_ms, 400);
}

#[test]
fn plan_keeps_what_the_request_names() {
    let req = ScanRequest {
        targets: vec![String::from("127.0.0.1")],
        ports: vec![8080, 22, 8080],
        concurrency: Some(0),
        timeout_ms: Some(50),
    };
    let plan = req.plan().unwrap();
    assert_eq!(plan.targets, vec![v4(127, 0, 0, 1)]);
    assert_eq!(plan.ports, vec![8080, 22, 8080]);
    assert_eq!(plan.concurrency, 0);
    assert_eq!(plan.timeout_ms, 50);
    assert_eq!(request(&["nonsense"]).plan(), Err(RequestError::InvalidIp { target: 0 }));
}

#[test]
fn controller_runs_one_scan() {
    let mut c = Controller::new();
    assert_eq!(c.status(None), Status { total: 0, scanned: 0, open: 0, state: ScanState::Idle });
    assert_eq!(c.results().map(|r| r.scanned_done), None);
    assert_eq!(c.active(), None);
    let begun = c.begin(10).unwrap();
    assert_eq!(begun, Begun { ticket: 0, superseded: None });
    assert_eq!(c.active(), Some(0));
    assert_eq!(c.status(None), Status { total: 10, scanned: 0, open: 0, state: ScanState::Running });
    assert_eq!(
        c.status(Some((4, 1))),
        Status { total: 10, scanned: 4, open: 1, state: ScanState::Running }
    );
    assert!(c.results().is_none());
    assert!(c.end(0, Some(results(10, &[80, 443]))));
    assert_eq!(c.active(), None);
    assert_eq!(c.status(None), Status { total: 10, scanned: 10, open: 2, state: ScanState::Done });
    // live counters of a scan that does not count any more are not shown
    assert_eq!(
        c.status(Some((4, 1))),
        Status { total: 10, scanned: 10, open: 2, state: ScanState::Done }
    );
    let kept = c.results().unwrap();
    assert_eq!(kept.scanned_done, 10);
    assert_eq!(kept.entries.len(), 2);
    assert_eq!(kept.entries[1].port, 443);
}

#[test]
fn second_scan_supersedes_the_first() {
    let mut c = Controller::new();
    let first = c.begin(10).unwrap();
    let second = c.begin(20).unwrap();
    assert_eq!(second, Begun { ticket: 1, superseded: Some(first.ticket) });
    assert_eq!(c.status(None), Status { total: 20, scanned: 0, open: 0, state: ScanState::Running });
    // the first scan ends late: nothing of it is kept
    assert!(!c.end(first.ticket, Some(results(3, &[22]))));
    assert_eq!(c.active(), Some(1));
    assert_eq!(c.status(None), Status { total: 20, scanned: 0, open: 0, state: ScanState::Running });
    assert!(c.results().is_none());
    assert!(c.end(second.ticket, Some(results(20, &[]))));
    assert_eq!(c.status(None), Status { total: 20, scanned: 20, open: 0, state: ScanState::Done });
    // and still nothing when it ends after the second
    assert!(!c.end(first.ticket, Some(results(3, &[22]))));
    assert_eq!(c.status(None), Status { total: 20, scanned: 20, open: 0, state: ScanState::Done });
    assert_eq!(c.results().unwrap().entries.len(), 0);
}

#[test]
fn new_scan_drops_earlier_results() {
    let mut c = Controller::new();
    let first = c.begin(10).unwrap();
    assert!(c.end(first.ticket, Some(results(10, &[80]))));
    assert!(c.results().is_some());
    let second = c.begin(5).unwrap();
    assert_eq!(second, Begun { ticket: 1, superseded: None });
    assert!(c.results().is_none());
}

#[test]
fn scan_that_could_not_start_leaves_the_controller_idle() {
    let mut c = Controller::new();
    let t = c.begin(10).unwrap();
    assert!(c.end(t.ticket, None));
    assert_eq!(c.status(None), Status { total: 10, scanned: 0, open: 0, state: ScanState::Idle });
    assert!(c.results().is_none());
    assert_eq!(c.active(), None);
    assert!(!c.end(t.ticket, None));
    assert!(!c.end(99, Some(results(1, &[]))));
}
