//! Telling what service answers on an open port: which ports get which
//! probe, what a reply is worth as a banner, and which service a banner or a
//! port number suggests.

use crate::text::{
    chars_of, contains, contains_in, eq_ignore_case, escape_breaks, escape_line_breaks, find,
    find_from, find_in, find_in_from, lower, position_from, position_in, prefix, prefix_of,
    starts_with, starts_with_in, string_of, to_lower, trim, trimmed,
};
use crate::types::opt_text;
use vstd::prelude::*;
use vstd::slice::slice_subrange;

verus! {

/// Whether `port` is one on which TLS is spoken from the first byte.
pub open spec fn tls_port(port: u16) -> bool {
    port == 443 || port == 8443 || port == 9443 || port == 993 || port == 995 || port == 465
}

/// Whether `port` is one on which a web server is expected.
pub open spec fn http_port(port: u16) -> bool {
    port == 80 || port == 81 || port == 82 || port == 591 || port == 8000 || port == 8001 || port
        == 8008 || port == 8080 || port == 8081 || port == 8088 || port == 8888
}

/// Tells whether `port` is one on which TLS is spoken from the first byte.
pub fn is_tls_port(port: u16) -> (r: bool)
    ensures
        r == tls_port(port),
{
    matches!(port, 443 | 8443 | 9443 | 993 | 995 | 465)
}

/// Tells whether `port` is one on which a web server is expected.
pub fn is_http_port(port: u16) -> (r: bool)
    ensures
        r == http_port(port),
{
    matches!(port, 80 | 81 | 82 | 591 | 8000 | 8001 | 8008 | 8080 | 8081 | 8088 | 8888)
}

/// The service whose signature the lower-cased banner `lb` carries. The
/// signatures are tried in a fixed order and the first that is found decides.
pub open spec fn banner_service(lb: Seq<char>) -> Option<Seq<char>> {
    if contains(lb, "ssh-"@) {
        Some("ssh"@)
    } else if starts_with(lb, "http/"@) || contains(lb, "http/1."@) || contains(lb, "server:"@) {
        Some("http"@)
    } else if contains(lb, "smtp"@) {
        Some("smtp"@)
    } else if contains(lb, "redis"@) {
        Some("redis"@)
    } else if contains(lb, "mysql"@) {
        Some("mysql"@)
    } else if contains(lb, "postgres"@) {
        Some("postgresql"@)
    } else if contains(lb, "mongodb"@) {
        Some("mongodb"@)
    } else if contains(lb, "mqtt"@) {
        Some("mqtt"@)
    } else {
        None
    }
}

/// The service that is usually found on `port`.
pub open spec fn port_service(port: u16) -> Option<Seq<char>> {
    if port == 22 {
        Some("ssh"@)
    } else if port == 23 {
        Some("telnet"@)
    } else if port == 25 {
        Some("smtp"@)
    } else if port == 53 {
        Some("dns"@)
    } else if http_port(port) || port == 3000 || port == 5000 || port == 7001 || port == 7002
        || port == 9000 {
        Some("http"@)
    } else if port == 110 {
        Some("pop3"@)
    } else if port == 123 {
        Some("ntp"@)
    } else if port == 139 || port == 445 {
        Some("smb"@)
    } else if port == 143 {
        Some("imap"@)
    } else if port == 161 {
        Some("snmp"@)
    } else if port == 389 {
        Some("ldap"@)
    } else if port == 443 || port == 8443 {
        Some("https"@)
    } else if port == 465 || port == 587 {
        Some("smtps"@)
    } else if port == 631 {
        Some("ipp"@)
    } else if port == 993 {
        Some("imaps"@)
    } else if port == 995 {
        Some("pop3s"@)
    } else if port == 1433 {
        Some("mssql"@)
    } else if port == 1521 {
        Some("oracle"@)
    } else if port == 1723 {
        Some("pptp"@)
    } else if port == 1883 {
        Some("mqtt"@)
    } else if port == 2049 {
        Some("nfs"@)
    } else if port == 2375 || port == 2376 {
        Some("docker"@)
    } else if port == 2380 {
        Some("etcd"@)
    } else if port == 3128 {
        Some("http-proxy"@)
    } else if port == 3260 {
        Some("iscsi"@)
    } else if port == 3306 {
        Some("mysql"@)
    } else if port == 3389 {
        Some("rdp"@)
    } else if port == 4369 {
        Some("epmd"@)
    } else if port == 5040 {
        Some("unknown"@)
    } else if port == 5432 {
        Some("postgresql"@)
    } else if port == 5672 {
        Some("amqp"@)
    } else if port == 5900 {
        Some("vnc"@)
    } else if port == 5985 || port == 5986 {
        Some("winrm"@)
    } else if port == 6379 {
        Some("redis"@)
    } else if port == 9092 {
        Some("kafka"@)
    } else if port == 9200 || port == 9300 {
        Some("elasticsearch"@)
    } else if port == 11211 {
        Some("memcached"@)
    } else if port == 27017 {
        Some("mongodb"@)
    } else {
        None
    }
}

/// The service behind an open port: the one that the banner names, looked
/// for without regard to case, or else the one usual on the port.
pub open spec fn service_of(port: u16, banner: Option<Seq<char>>) -> Option<Seq<char>> {
    match banner {
        Some(b) => match banner_service(lower(b)) {
            Some(name) => Some(name),
            None => port_service(port),
        },
        None => port_service(port),
    }
}

/// The text of an optional string slice.
pub open spec fn opt_str_text(o: Option<&str>) -> Option<Seq<char>> {
    match o {
        Some(s) => Some(s@),
        None => None,
    }
}

/// Looks for the signature of a protocol in a lower-cased banner.
fn service_in_banner(lb: &[char]) -> (r: Option<&'static str>)
    ensures
        opt_str_text(r) == banner_service(lb@),
{
    if contains_in(lb, chars_of("ssh-").as_slice()) {
        Some("ssh")
    } else if starts_with_in(lb, chars_of("http/").as_slice()) || contains_in(
        lb,
        chars_of("http/1.").as_slice(),
    ) || contains_in(lb, chars_of("server:").as_slice()) {
        Some("http")
    } else if contains_in(lb, chars_of("smtp").as_slice()) {
        Some("smtp")
    } else if contains_in(lb, chars_of("redis").as_slice()) {
        Some("redis")
    } else if contains_in(lb, chars_of("mysql").as_slice()) {
        Some("mysql")
    } else if contains_in(lb, chars_of("postgres").as_slice()) {
        Some("postgresql")
    } else if contains_in(lb, chars_of("mongodb").as_slice()) {
        Some("mongodb")
    } else if contains_in(lb, chars_of("mqtt").as_slice()) {
        Some("mqtt")
    } else {
        None
    }
}

/// Looks `port` up in the table of usual services.
fn service_on_port(port: u16) -> (r: Option<&'static str>)
    ensures
        opt_str_text(r) == port_service(port),
{
    match port {
        22 => Some("ssh"),
        23 => Some("telnet"),
        25 => Some("smtp"),
        53 => Some("dns"),
        80 | 81 | 82 | 591 | 8000 | 8001 | 8008 | 8080 | 8081 | 8088 | 8888 => Some("http"),
        110 => Some("pop3"),
        123 => Some("ntp"),
        139 | 445 => Some("smb"),
        143 => Some("imap"),
        161 => Some("snmp"),
        389 => Some("ldap"),
        443 | 8443 => Some("https"),
        465 | 587 => Some("smtps"),
        631 => Some("ipp"),
        993 => Some("imaps"),
        995 => Some("pop3s"),
        1433 => Some("mssql"),
        1521 => Some("oracle"),
        1723 => Some("pptp"),
        1883 => Some("mqtt"),
        2049 => Some("nfs"),
        2375 | 2376 => Some("docker"),
        2380 => Some("etcd"),
        3000 => Some("http"),
        3128 => Some("http-proxy"),
        3260 => Some("iscsi"),
        3306 => Some("mysql"),
        3389 => Some("rdp"),
        4369 => Some("epmd"),
        5000 => Some("http"),
        5040 => Some("unknown"),
        5432 => Some("postgresql"),
        5672 => Some("amqp"),
        5900 => Some("vnc"),
        5985 | 5986 => Some("winrm"),
        6379 => Some("redis"),
        7001 | 7002 => Some("http"),
        9000 => Some("http"),
        9092 => Some("kafka"),
        9200 | 9300 => Some("elasticsearch"),
        11211 => Some("memcached"),
        27017 => Some("mongodb"),
        _ => None,
    }
}

/// Names the service behind an open port. A signature in the banner decides
/// (SSH, HTTP, SMTP, Redis, MySQL, PostgreSQL, MongoDB, MQTT, in this order,
/// without regard to case); without one, the port number does; without
/// either, there is no name.
pub fn guess_service(port: u16, banner: Option<&str>) -> (r: Option<String>)
    ensures
        opt_text(r) == service_of(port, opt_str_text(banner)),
{
    let from_banner: Option<&'static str> = match banner {
        Some(b) => {
            let lb = to_lower(chars_of(b).as_slice());
            service_in_banner(lb.as_slice())
        },
        None => None,
    };
    let name: Option<&'static str> = match from_banner {
        Some(n) => Some(n),
        None => service_on_port(port),
    };
    match name {
        Some(n) => Some(String::from_str(n)),
        None => None,
    }
}

/// What `String::from_utf8_lossy` returns for the bytes `data`: their text,
/// with each ill-formed part replaced by U+FFFD.
pub uninterp spec fn utf8_lossy(data: Seq<u8>) -> Seq<char>;

/// `String::from_utf8_lossy`: the text of `data`, whatever bytes it holds.
/// The text is known only by its name.
#[verifier::external_body]
fn lossy_text(data: &[u8]) -> (r: String)
    ensures
        r@ == utf8_lossy(data@),
{
    String::from_utf8_lossy(data).into_owned()
}

/// The text of a reply; none where nothing was received.
pub fn reply_text(data: &[u8]) -> (r: Option<String>)
    ensures
        opt_text(r) == if data@.len() == 0 {
            None
        } else {
            Some(utf8_lossy(data@))
        },
{
    if data.len() == 0 {
        None
    } else {
        Some(lossy_text(data))
    }
}

/// Whether `text` reads as the greeting of an SSH server: it begins with the
/// SSH version prefix, in any case, or names OpenSSH.
pub open spec fn is_ssh_line(text: Seq<char>) -> bool {
    starts_with(lower(text), "ssh-"@) || contains(text, "OpenSSH"@)
}

/// The banner taken from a second read on the SSH port, if it is a greeting.
pub open spec fn ssh_banner_of(text: Seq<char>) -> Option<Seq<char>> {
    if is_ssh_line(text) {
        Some(escape_breaks(trim(text)))
    } else {
        None
    }
}

/// The banner taken from the reply to a Redis `PING`.
pub open spec fn redis_banner_of(text: Seq<char>) -> Seq<char> {
    if starts_with(text, "+PONG"@) {
        "redis PONG"@
    } else {
        escape_breaks(text)
    }
}

/// The banner for text that a service sent unasked: the text with its line
/// breaks made visible.
pub fn escape_banner(text: &str) -> (r: String)
    ensures
        r@ == escape_breaks(text@),
{
    let escaped = escape_line_breaks(chars_of(text).as_slice());
    string_of(escaped.as_slice())
}

/// Tells whether `text` reads as the greeting of an SSH server.
pub fn looks_like_ssh(text: &str) -> (r: bool)
    ensures
        r == is_ssh_line(text@),
{
    let chars = chars_of(text);
    let low = to_lower(chars.as_slice());
    starts_with_in(low.as_slice(), chars_of("ssh-").as_slice()) || contains_in(
        chars.as_slice(),
        chars_of("OpenSSH").as_slice(),
    )
}

/// The banner from a second read on the SSH port: the text without the white
/// space around it and with its line breaks made visible, if it is an SSH
/// greeting; none otherwise.
pub fn ssh_line_banner(text: &str) -> (r: Option<String>)
    ensures
        opt_text(r) == ssh_banner_of(text@),
{
    if looks_like_ssh(text) {
        let chars = chars_of(text);
        let escaped = escape_line_breaks(trimmed(chars.as_slice()));
        Some(string_of(escaped.as_slice()))
    } else {
        None
    }
}

/// The banner from the reply to a Redis `PING`: `redis PONG` where the
/// server answered `+PONG`, else the reply with its line breaks made visible.
pub fn redis_reply_banner(text: &str) -> (r: String)
    ensures
        r@ == redis_banner_of(text@),
{
    if starts_with_in(chars_of(text).as_slice(), chars_of("+PONG").as_slice()) {
        String::from_str("redis PONG")
    } else {
        escape_banner(text)
    }
}

/// The value of the header `name` in the response `resp`, from index `from`
/// on. Lines end at a line feed. The first line that has a colon and, before
/// it, `name` in any case and with any white space around it, gives the
/// value: what follows the colon, without the white space around it. The
/// search ends without a value at the first blank line.
pub open spec fn header_from(resp: Seq<char>, name: Seq<char>, from: int) -> Option<Seq<char>>
    decreases resp.len() - from,
{
    let end = position_from(resp, '\n', from);
    let line = resp.subrange(from, end);
    let colon = position_from(line, ':', 0);
    if from < 0 || from > resp.len() || end < from {
        None
    } else if colon < line.len() && lower(trim(line.subrange(0, colon))) == lower(name) {
        Some(trim(line.subrange(colon + 1, line.len() as int)))
    } else if trim(line).len() == 0 || end >= resp.len() {
        None
    } else {
        header_from(resp, name, end + 1)
    }
}

/// The value of the header `name` in the response `resp`.
pub open spec fn header_value(resp: Seq<char>, name: Seq<char>) -> Option<Seq<char>> {
    header_from(resp, name, 0)
}

/// Where the body of the response `low` begins: after the first empty line,
/// or at the start where there is none.
pub open spec fn body_start(low: Seq<char>) -> int {
    match find(low, "\r\n\r\n"@) {
        Some(i) => i + "\r\n\r\n"@.len(),
        None => 0,
    }
}

/// The longest title that is kept.
pub const TITLE_MAX: usize = 120;

/// The title of the HTML page in the response `resp`: what stands between the
/// end of the first `<title` tag of the body and the next `</title>`, tags
/// being matched in any case, without the white space around it and cut to
/// 120 characters.
pub open spec fn html_title(resp: Seq<char>) -> Option<Seq<char>> {
    let low = lower(resp);
    match find_from(low, "<title"@, body_start(low)) {
        None => None,
        Some(open) => {
            let gt = position_from(low, '>', open);
            if gt >= low.len() {
                None
            } else {
                match find_from(low, "</title>"@, gt + 1) {
                    None => None,
                    Some(close) => Some(prefix(trim(resp.subrange(gt + 1, close)), 120)),
                }
            }
        },
    }
}

/// The banner that sums up the response `resp` of a web server.
pub open spec fn http_banner_of(resp: Seq<char>) -> Seq<char> {
    match (header_value(resp, "server"@), html_title(resp)) {
        (None, None) => "HTTP"@,
        (Some(server), None) => "HTTP "@ + "server="@ + server,
        (None, Some(title)) => "HTTP "@ + "title=\""@ + title + "\""@,
        (Some(server), Some(title)) => "HTTP "@ + "server="@ + server + ", "@ + "title=\""@
            + title + "\""@,
    }
}

/// Finds the value of the header `name` in a response.
pub fn extract_header(resp: &str, name: &str) -> (r: Option<String>)
    ensures
        opt_text(r) == header_value(resp@, name@),
{
    let text = chars_of(resp);
    let wanted = chars_of(name);
    let mut from: usize = 0;
    loop
        invariant
            text@ == resp@,
            wanted@ == name@,
            from <= text.len(),
            header_value(resp@, name@) == header_from(resp@, name@, from as int),
        decreases text.len() - from,
    {
        let end = position_in(text.as_slice(), '\n', from);
        let line = slice_subrange(text.as_slice(), from, end);
        let colon = position_in(line, ':', 0);
        if colon < line.len() {
            let key = trimmed(slice_subrange(line, 0, colon));
            if eq_ignore_case(key, wanted.as_slice()) {
                let value = trimmed(slice_subrange(line, colon + 1, line.len()));
                return Some(string_of(value));
            }
        }
        if trimmed(line).len() == 0 || end >= text.len() {
            return None;
        }
        from = end + 1;
    }
}

/// Finds the title of the HTML page in a response.
pub fn extract_html_title(resp: &str) -> (r: Option<String>)
    ensures
        opt_text(r) == html_title(resp@),
{
    let text = chars_of(resp);
    let low = to_lower(text.as_slice());
    let gap = chars_of("\r\n\r\n");
    let start: usize = match find_in(low.as_slice(), gap.as_slice()) {
        Some(i) => i + gap.len(),
        None => 0,
    };
    let open = match find_in_from(low.as_slice(), chars_of("<title").as_slice(), start) {
        Some(i) => i,
        None => {
            return None;
        },
    };
    let gt = position_in(low.as_slice(), '>', open);
    if gt >= low.len() {
        return None;
    }
    let close = match find_in_from(low.as_slice(), chars_of("</title>").as_slice(), gt + 1) {
        Some(i) => i,
        None => {
            return None;
        },
    };
    let inner = trimmed(slice_subrange(text.as_slice(), gt + 1, close));
    Some(string_of(prefix_of(inner, TITLE_MAX)))
}

/// Sums up the response of a web server: `HTTP`, then the `Server` header
/// and the page title, as far as the response has them.
pub fn http_reply_banner(resp: &str) -> (r: String)
    ensures
        r@ == http_banner_of(resp@),
{
    let server = extract_header(resp, "server");
    let title = extract_html_title(resp);
    match (server, title) {
        (None, None) => String::from_str("HTTP"),
        (Some(server), None) => {
            let mut out = String::from_str("HTTP ");
            out.append("server=");
            out.append(server.as_str());
            out
        },
        (None, Some(title)) => {
            let mut out = String::from_str("HTTP ");
            out.append("title=\"");
            out.append(title.as_str());
            out.append("\"");
            out
        },
        (Some(server), Some(title)) => {
            let mut out = String::from_str("HTTP ");
            out.append("server=");
            out.append(server.as_str());
            out.append(", ");
            out.append("title=\"");
            out.append(title.as_str());
            out.append("\"");
            out
        },
    }
}

} // verus!
