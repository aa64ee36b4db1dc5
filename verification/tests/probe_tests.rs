use lan_scan_rs::scanner::Outcome;
use lan_scan_rs::probe::{
    has_header_end, http_banner, http_request, passive_banner, redis_banner, ssh_banner,
    Fingerprinter, ProbeEvent, ProbePolicy, ProbeStep, Stage,
};

const OFF: ProbePolicy = ProbePolicy { redis: false };
const ON: ProbePolicy = ProbePolicy { redis: true };

fn start(port: u16, policy: ProbePolicy) -> Fingerprinter {
    Fingerprinter::start(String::from("127.0.0.1"), port, policy)
}

fn data(bytes: &[u8]) -> ProbeEvent {
    ProbeEvent::Data(bytes.to_vec())
}

fn read(max_bytes: usize, timeout_ms: u64, window_ms: u64) -> ProbeStep {
    ProbeStep::Read { max_bytes, timeout_ms, window_ms }
}

#[test]
fn tls_port_without_handshake() {
    for port in [443u16, 8443, 9443, 993, 995, 465] {
        let mut f = start(port, OFF);
        assert_eq!(f.stage(), Stage::Tls);
        assert_eq!(f.next_step(), ProbeStep::Handshake { timeout_ms: 600 });
        assert_eq!(f.service().as_deref(), Some("https"));
        f.handle(ProbeEvent::Refused);
        assert!(f.is_done());
        assert_eq!(f.next_step(), ProbeStep::Finish);
        assert_eq!(f.service().as_deref(), Some("https"));
        assert_eq!(f.banner(), None);
    }
}

#[test]
fn tls_port_without_certificate() {
    let mut f = start(443, OFF);
    f.handle(ProbeEvent::Secured(None));
    assert!(f.is_done());
    assert_eq!(f.service().as_deref(), Some("https"));
    assert_eq!(f.banner(), None);
    let mut g = start(443, OFF);
    g.handle(ProbeEvent::Secured(Some(b"junk".to_vec())));
    assert!(g.is_done());
    assert_eq!(g.banner(), None);
    let mut h = start(443, OFF);
    h.handle(data(b"HTTP/1.1 400 Bad Request"));
    assert!(h.is_done());
    assert_eq!(h.banner(), None);
    assert_eq!(h.service().as_deref(), Some("https"));
}

#[test]
fn passive_banner_ends_the_probing() {
    let mut f = start(25, ON);
    assert_eq!(f.stage(), Stage::Passive);
    assert_eq!(f.next_step(), read(256, 200, 200));
    f.handle(data(b"220 mail.example ESMTP\r\n"));
    assert!(f.is_done());
    assert_eq!(f.banner().as_deref(), Some("220 mail.example ESMTP\\r\\n"));
    assert_eq!(f.service().as_deref(), Some("smtp"));
}

#[test]
fn silent_port_without_active_probe() {
    let mut f = start(5432, ON);
    f.handle(ProbeEvent::Silent);
    assert!(f.is_done());
    assert_eq!(f.banner(), None);
    assert_eq!(f.service().as_deref(), Some("postgresql"));
    let mut g = start(12345, ON);
    g.handle(data(b""));
    assert!(g.is_done());
    assert_eq!(g.banner(), None);
    assert_eq!(g.service(), None);
}

#[test]
fn ssh_port_greeting_at_once() {
    let mut f = start(22, OFF);
    f.handle(data(b"SSH-2.0-OpenSSH_9.6\r\n"));
    assert!(f.is_done());
    assert_eq!(f.banner().as_deref(), Some("SSH-2.0-OpenSSH_9.6\\r\\n"));
    assert_eq!(f.service().as_deref(), Some("ssh"));
}

#[test]
fn ssh_port_second_read() {
    let mut f = start(22, OFF);
    f.handle(ProbeEvent::Silent);
    assert_eq!(f.stage(), Stage::Ssh);
    assert_eq!(f.next_step(), read(256, 400, 400));
    f.handle(data(b"SSH-2.0-dropbear\r\n"));
    assert!(f.is_done());
    assert_eq!(f.banner().as_deref(), Some("SSH-2.0-dropbear"));
    assert_eq!(f.service().as_deref(), Some("ssh"));
}

#[test]
fn ssh_port_second_read_replaces_other_text() {
    let mut f = start(22, OFF);
    f.handle(data(b"hello\n"));
    assert_eq!(f.stage(), Stage::Ssh);
    f.handle(data(b"SSH-2.0-x\n"));
    assert!(f.is_done());
    assert_eq!(f.banner().as_deref(), Some("SSH-2.0-x"));
    let mut g = start(22, OFF);
    g.handle(data(b"hello\n"));
    g.handle(data(b"still no greeting"));
    assert!(g.is_done());
    assert_eq!(g.banner().as_deref(), Some("hello\\n"));
    assert_eq!(g.service().as_deref(), Some("ssh"));
    let mut h = start(22, OFF);
    h.handle(ProbeEvent::Silent);
    h.handle(ProbeEvent::Silent);
    assert!(h.is_done());
    assert_eq!(h.banner(), None);
    assert_eq!(h.service().as_deref(), Some("ssh"));
}

#[test]
fn http_probe_until_header_end() {
    let mut f = start(8080, OFF);
    f.handle(ProbeEvent::Silent);
    assert_eq!(f.stage(), Stage::HttpSend);
    assert_eq!(
        f.next_step(),
        ProbeStep::Send {
            payload: String::from(
                "GET / HTTP/1.0\r\nUser-Agent: lan-scan-rs/0.1\r\nHost: 127.0.0.1\r\nConnection: close\r\n\r\n"
            ),
            timeout_ms: 200,
        }
    );
    f.handle(ProbeEvent::Sent);
    assert_eq!(f.stage(), Stage::HttpRead);
    assert_eq!(f.next_step(), read(1024, 80, 400));
    f.handle(data(b"HTTP/1.0 200 OK\r\nServer: tiny"));
    assert_eq!(f.stage(), Stage::HttpRead);
    f.handle(data(b"httpd\r\n\r"));
    assert_eq!(f.stage(), Stage::HttpRead);
    f.handle(data(b"\n<title>x</title>"));
    assert!(f.is_done());
    assert_eq!(f.banner().as_deref(), Some("HTTP server=tinyhttpd, title=\"x\""));
    assert_eq!(f.service().as_deref(), Some("http"));
}

#[test]
fn http_probe_ends_when_the_server_falls_silent() {
    let mut f = start(80, OFF);
    f.handle(ProbeEvent::Silent);
    f.handle(ProbeEvent::Sent);
    f.handle(data(b"HTTP/1.0 200 OK\r\nServer: s\r\n"));
    assert_eq!(f.stage(), Stage::HttpRead);
    f.handle(ProbeEvent::Silent);
    assert!(f.is_done());
    assert_eq!(f.banner().as_deref(), Some("HTTP server=s"));
}

#[test]
fn http_probe_without_any_reply() {
    let mut f = start(80, OFF);
    f.handle(ProbeEvent::Silent);
    f.handle(ProbeEvent::Sent);
    f.handle(ProbeEvent::Silent);
    assert!(f.is_done());
    assert_eq!(f.banner(), None);
    assert_eq!(f.service().as_deref(), Some("http"));
    let mut g = start(80, OFF);
    g.handle(ProbeEvent::Silent);
    g.handle(ProbeEvent::SendFailed);
    assert!(g.is_done());
    assert_eq!(g.banner(), None);
}

#[test]
fn http_probe_stops_at_4096_bytes() {
    let mut f = start(80, OFF);
    f.handle(ProbeEvent::Silent);
    f.handle(ProbeEvent::Sent);
    let chunk = vec![b'a'; 1024];
    for _ in 0..3 {
        f.handle(ProbeEvent::Data(chunk.clone()));
        assert_eq!(f.stage(), Stage::HttpRead);
    }
    f.handle(ProbeEvent::Data(vec![b'a'; 1023]));
    assert_eq!(f.stage(), Stage::HttpRead);
    f.handle(data(b"a"));
    assert!(f.is_done());
    assert_eq!(f.banner().as_deref(), Some("HTTP"));
}

#[test]
fn no_http_probe_after_a_banner() {
    let mut f = start(80, OFF);
    f.handle(data(b"hi\n"));
    assert!(f.is_done());
    assert_eq!(f.banner().as_deref(), Some("hi\\n"));
    assert_eq!(f.service().as_deref(), Some("http"));
}

#[test]
fn redis_probe_needs_the_policy() {
    let mut f = start(6379, OFF);
    f.handle(ProbeEvent::Silent);
    assert!(f.is_done());
    assert_eq!(f.banner(), None);
    assert_eq!(f.service().as_deref(), Some("redis"));
    let mut g = start(6380, ON);
    g.handle(ProbeEvent::Silent);
    assert!(g.is_done());
}

#[test]
fn redis_probe() {
    let mut f = start(6379, ON);
    f.handle(ProbeEvent::Silent);
    assert_eq!(f.stage(), Stage::RedisSend);
    assert_eq!(
        f.next_step(),
        ProbeStep::Send { payload: String::from("*1\r\n$4\r\nPING\r\n"), timeout_ms: 200 }
    );
    f.handle(ProbeEvent::Sent);
    assert_eq!(f.stage(), Stage::RedisRead);
    assert_eq!(f.next_step(), read(64, 200, 200));
    f.handle(data(b"+PONG\r\n"));
    assert!(f.is_done());
    assert_eq!(f.banner().as_deref(), Some("redis PONG"));
    assert_eq!(f.service().as_deref(), Some("redis"));
}

#[test]
fn redis_probe_other_endings() {
    let mut f = start(6379, ON);
    f.handle(ProbeEvent::Silent);
    f.handle(ProbeEvent::Sent);
    f.handle(data(b"-ERR unknown\r\n"));
    assert_eq!(f.banner().as_deref(), Some("-ERR unknown\\r\\n"));
    let mut g = start(6379, ON);
    g.handle(ProbeEvent::Silent);
    g.handle(ProbeEvent::Sent);
    g.handle(ProbeEvent::Silent);
    assert!(g.is_done());
    assert_eq!(g.banner(), None);
    let mut h = start(6379, ON);
    h.handle(ProbeEvent::Silent);
    h.handle(ProbeEvent::SendFailed);
    assert!(h.is_done());
    assert_eq!(h.banner(), None);
}

#[test]
fn events_after_the_end_change_nothing() {
    let mut f = start(25, OFF);
    f.handle(data(b"220 x"));
    assert!(f.is_done());
    f.handle(data(b"SSH-2.0"));
    f.handle(ProbeEvent::Sent);
    f.handle(ProbeEvent::Secured(None));
    assert!(f.is_done());
    assert_eq!(f.banner().as_deref(), Some("220 x"));
}

#[test]
fn every_probing_ends() {
    for port in [22u16, 80, 443, 6379, 9999] {
        let mut f = start(port, ON);
        let mut steps = 0;
        while !f.is_done() {
            let event = match f.next_step() {
                ProbeStep::Handshake { .. } => ProbeEvent::Secured(None),
                ProbeStep::Read { .. } => data(b"x"),
                ProbeStep::Send { .. } => ProbeEvent::Sent,
                ProbeStep::Finish => unreachable!(),
            };
            f.handle(event);
            steps += 1;
            assert!(steps <= 4100);
        }
    }
}

#[test]
fn header_end_detection() {
    assert!(has_header_end(b"\r\n\r\n"));
    assert!(has_header_end(b"a\r\n\r\nb"));
    assert!(!has_header_end(b"\r\n\r"));
    assert!(!has_header_end(b"\n\n"));
    assert!(!has_header_end(b"\r\n \r\n"));
    assert!(!has_header_end(b""));
}

#[test]
fn request_names_the_host() {
    assert_eq!(
        http_request("10.0.0.7"),
        "GET / HTTP/1.0\r\nUser-Agent: lan-scan-rs/0.1\r\nHost: 10.0.0.7\r\nConnection: close\r\n\r\n"
    );
}

#[test]
fn banners_from_bytes() {
    assert_eq!(passive_banner(b""), None);
    assert_eq!(passive_banner(b"a\r\nb").as_deref(), Some("a\\r\\nb"));
    assert_eq!(passive_banner(&[0xff, b'\n']).as_deref(), Some("\u{fffd}\\n"));
    assert_eq!(ssh_banner(b""), None);
    assert_eq!(ssh_banner(b"nope"), None);
    assert_eq!(ssh_banner(b" ssh-2.0 \n").as_deref(), None);
    assert_eq!(ssh_banner(b"ssh-2.0 \n").as_deref(), Some("ssh-2.0"));
    assert_eq!(redis_banner(b""), None);
    assert_eq!(redis_banner(b"+PONG\r\n").as_deref(), Some("redis PONG"));
    assert_eq!(http_banner(b""), None);
    assert_eq!(http_banner(b"x").as_deref(), Some("HTTP"));
}

#[test]
fn outcome_of_a_probed_port() {
    let mut f = start(25, OFF);
    f.handle(data(b"220 x ESMTP"));
    assert_eq!(
        f.outcome(31),
        Outcome::Open {
            latency_ms: 31,
            service: Some(String::from("smtp")),
            banner: Some(String::from("220 x ESMTP")),
        }
    );
    let g = start(443, OFF);
    assert_eq!(
        g.outcome(0),
        Outcome::Open { latency_ms: 0, service: Some(String::from("https")), banner: None }
    );
}
