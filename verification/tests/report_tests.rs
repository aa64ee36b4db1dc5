use lan_scan_rs::report::{decimal, render_results_table};
use lan_scan_rs::types::{ScanEntry, ScanResults};

fn entry(ip: &str, port: u16, latency_ms: u64, banner: Option<&str>) -> ScanEntry {
    ScanEntry {
        ip: String::from(ip),
        port,
        open: true,
        latency_ms,
        service: None,
        banner: banner.map(String::from),
        timestamp: String::from("2024-01-01T00:00:00Z"),
    }
}

fn text(n: u64) -> String {
    decimal(n).into_iter().collect()
}

#[test]
fn decimal_notation() {
    assert_eq!(text(0), "0");
    assert_eq!(text(7), "7");
    assert_eq!(text(10), "10");
    assert_eq!(text(65535), "65535");
    assert_eq!(text(1_000_000_007), "1000000007");
    assert_eq!(text(u64::MAX), "18446744073709551615");
}

#[test]
fn table_of_no_entries() {
    let lines = render_results_table(&ScanResults::default());
    assert_eq!(
        lines,
        vec![
            "",
            "Open ports: 0 (scanned: 0)",
            "ip  port  latency_ms  banner",
            "--  ----  ----------  ------",
        ]
    );
}

#[test]
fn table_with_entries() {
    let results = ScanResults {
        scanned_total: 8,
        scanned_done: 8,
        open_count: 3,
        entries: vec![
            entry("192.168.1.10", 22, 12, Some("SSH-2.0-OpenSSH_9.6")),
            entry("10.0.0.1", 8080, 1234, None),
            entry("::1", 65535, 0, Some("x")),
        ],
    };
    let lines = render_results_table(&results);
    assert_eq!(
        lines,
        vec![
            "",
            "Open ports: 3 (scanned: 8)",
            "ip            port  latency_ms  banner             ",
            "------------  ----  ----------  -------------------",
            "192.168.1.10    22          12  SSH-2.0-OpenSSH_9.6",
            "10.0.0.1      8080        1234                     ",
            "::1           65535           0  x                  ",
        ]
    );
}

#[test]
fn banner_is_cut_to_60_characters() {
    let long: String = std::iter::repeat('b').take(75).collect();
    let results = ScanResults {
        scanned_total: 1,
        scanned_done: 1,
        open_count: 1,
        entries: vec![entry("h", 1, 18446744073709551615, Some(&long))],
    };
    let lines = render_results_table(&results);
    let cut: String = std::iter::repeat('b').take(60).collect();
    let dashes: String = std::iter::repeat('-').take(60).collect();
    assert_eq!(lines[2], format!("ip  port  latency_ms  banner{}", " ".repeat(54)));
    assert_eq!(lines[3], format!("--  ----  ----------  {}", dashes));
    assert_eq!(lines[4], format!("h      1  18446744073709551615  {}", cut));
}

#[test]
fn widths_count_characters() {
    let results = ScanResults {
        scanned_total: 1,
        scanned_done: 1,
        open_count: 1,
        entries: vec![entry("h", 1, 1, Some("\u{e9}\u{e9}\u{e9}\u{e9}\u{e9}\u{e9}\u{e9}\u{e9}"))],
    };
    let lines = render_results_table(&results);
    assert_eq!(lines[2], "ip  port  latency_ms  banner  ");
    assert_eq!(lines[3], "--  ----  ----------  --------");
    assert_eq!(lines[4], "h      1           1  \u{e9}\u{e9}\u{e9}\u{e9}\u{e9}\u{e9}\u{e9}\u{e9}");
}
