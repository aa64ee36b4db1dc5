//! The text format of a port list, and the built-in port lists.
//!
//! A port list is read line by line. What follows a `#` is a comment; white
//! space around a line is ignored, and so are blank lines. A line holds either
//! one port or an inclusive range `start-end`. Ports come out in the order in
//! which they are first named, each one once.

use crate::text::{chars_of, position_from, position_in, trim, trimmed};
use vstd::prelude::*;
use vstd::slice::slice_subrange;

verus! {

/// Why a piece of text is not a port number.
#[derive(Debug, Clone, Copy, PartialEq, Eq, Structural)]
pub enum PortError {
    /// Not an unsigned decimal number that fits 32 bits.
    NotANumber,
    /// A number, but not within 1 to 65535.
    OutOfRange(u32),
}

/// Why a port list is rejected. `line` counts from 1.
#[derive(Debug, Clone, Copy, PartialEq, Eq, Structural)]
pub enum PortsError {
    /// The part before the `-` of a range is not a port.
    InvalidStart { line: usize, cause: PortError },
    /// The part after the `-` of a range is not a port.
    InvalidEnd { line: usize, cause: PortError },
    /// A range whose start lies above its end.
    ReversedRange { line: usize, start: u16, end: u16 },
    /// A line without `-` that is not a port.
    InvalidPort { line: usize, cause: PortError },
}

/// Whether `c` is a decimal digit.
pub open spec fn is_digit(c: char) -> bool {
    '0' <= c && c <= '9'
}

/// The value of the decimal digit `c`.
pub open spec fn digit_value(c: char) -> nat {
    (c as u32 - '0' as u32) as nat
}

/// Whether `s` holds decimal digits only.
pub open spec fn all_digits(s: Seq<char>) -> bool {
    forall|i: int| 0 <= i < s.len() ==> is_digit(#[trigger] s[i])
}

/// The number that the decimal digits `s` write.
pub open spec fn decimal(s: Seq<char>) -> nat
    decreases s.len(),
{
    if s.len() == 0 {
        0
    } else {
        decimal(s.drop_last()) * 10 + digit_value(s.last())
    }
}

/// `s` without one leading plus sign.
pub open spec fn without_sign(s: Seq<char>) -> Seq<char> {
    if s.len() > 0 && s[0] == '+' {
        s.drop_first()
    } else {
        s
    }
}

/// The port that `s` writes: an optional `+`, then at least one decimal digit,
/// with a value that fits 32 bits and lies within 1 to 65535.
pub open spec fn parse_port(s: Seq<char>) -> Result<u16, PortError> {
    let d = without_sign(s);
    if d.len() == 0 || !all_digits(d) || decimal(d) > u32::MAX {
        Err(PortError::NotANumber)
    } else if decimal(d) == 0 || decimal(d) > 65535 {
        Err(PortError::OutOfRange(decimal(d) as u32))
    } else {
        Ok(decimal(d) as u16)
    }
}

/// `acc` followed by `p`, unless `acc` holds `p` already.
pub open spec fn add_port(acc: Seq<u16>, p: u16) -> Seq<u16> {
    if acc.contains(p) {
        acc
    } else {
        acc.push(p)
    }
}

/// `acc` followed by those of `a, a + 1, .., b` that it does not hold yet.
pub open spec fn add_range(acc: Seq<u16>, a: int, b: int) -> Seq<u16>
    decreases b + 1 - a,
{
    if a > b || a < 0 || b > 65535 {
        acc
    } else {
        add_range(add_port(acc, a as u16), a + 1, b)
    }
}

/// A line without its comment and the white space around it.
pub open spec fn line_body(line: Seq<char>) -> Seq<char> {
    trim(line.subrange(0, position_from(line, '#', 0)))
}

/// What the line `line`, the `line_no`-th of the text, adds to the ports `acc`
/// found so far.
pub open spec fn parse_line(line: Seq<char>, line_no: nat, acc: Seq<u16>) -> Result<
    Seq<u16>,
    PortsError,
> {
    let body = line_body(line);
    let dash = position_from(body, '-', 0);
    if body.len() == 0 {
        Ok(acc)
    } else if dash < body.len() {
        match parse_port(trim(body.subrange(0, dash))) {
            Err(cause) => Err(PortsError::InvalidStart { line: line_no as usize, cause }),
            Ok(start) => match parse_port(trim(body.subrange(dash + 1, body.len() as int))) {
                Err(cause) => Err(PortsError::InvalidEnd { line: line_no as usize, cause }),
                Ok(end) => if start > end {
                    Err(PortsError::ReversedRange { line: line_no as usize, start, end })
                } else {
                    Ok(add_range(acc, start as int, end as int))
                },
            },
        }
    } else {
        match parse_port(body) {
            Err(cause) => Err(PortsError::InvalidPort { line: line_no as usize, cause }),
            Ok(p) => Ok(add_port(acc, p)),
        }
    }
}

/// What the lines of `s` from index `from` on add to `acc`, the line at `from`
/// being the `line_no`-th. Lines end at a line feed; the first line that is
/// rejected decides.
pub open spec fn parse_lines(s: Seq<char>, from: int, line_no: nat, acc: Seq<u16>) -> Result<
    Seq<u16>,
    PortsError,
>
    decreases s.len() - from,
{
    let end = position_from(s, '\n', from);
    if from < 0 || from > s.len() || end < from {
        Ok(acc)
    } else {
        match parse_line(s.subrange(from, end), line_no, acc) {
            Err(e) => Err(e),
            Ok(next) => if end >= s.len() {
                Ok(next)
            } else {
                parse_lines(s, end + 1, line_no + 1, next)
            },
        }
    }
}

/// The ports that the text `s` lists.
pub open spec fn parse_ports(s: Seq<char>) -> Result<Seq<u16>, PortsError> {
    parse_lines(s, 0, 1, Seq::empty())
}

/// A list of ports as a port list yields it: no port twice, none of them 0.
pub open spec fn is_port_list(v: Seq<u16>) -> bool {
    v.no_duplicates() && forall|i: int| 0 <= i < v.len() ==> #[trigger] v[i] >= 1
}

/// Adding a range keeps what was found before in its place, and keeps a list
/// of ports a list of ports.
pub proof fn lemma_add_range_extends(acc: Seq<u16>, a: int, b: int)
    requires
        1 <= a,
    ensures
        acc.is_prefix_of(add_range(acc, a, b)),
        is_port_list(acc) ==> is_port_list(add_range(acc, a, b)),
        forall|p: u16| a <= p <= b <= 65535 ==> add_range(acc, a, b).contains(p),
        forall|p: u16|
            add_range(acc, a, b).contains(p) ==> acc.contains(p) || (a <= p <= b <= 65535),
    decreases b + 1 - a,
{
    if a > b || b > 65535 {
    } else {
        let next = add_port(acc, a as u16);
        lemma_add_range_extends(next, a + 1, b);
        let out = add_range(acc, a, b);
        assert(out == add_range(next, a + 1, b));
        assert(acc.is_prefix_of(next));
        if is_port_list(acc) {
            assert(is_port_list(next)) by {
                if !acc.contains(a as u16) {
                    assert forall|i: int, j: int|
                        0 <= i < next.len() && 0 <= j < next.len() && i != j implies next[i]
                        != next[j] by {
                        if i == acc.len() {
                            assert(acc[j] == next[j]);
                        } else if j == acc.len() {
                            assert(acc[i] == next[i]);
                        }
                    }
                }
            }
        }
        assert(next.contains(a as u16)) by {
            if !acc.contains(a as u16) {
                assert(next[acc.len() as int] == a as u16);
            }
        }
        assert forall|p: u16| a <= p <= b implies out.contains(p) by {
            if p == a {
                let k = choose|k: int| 0 <= k < next.len() && next[k] == a as u16;
                assert(out[k] == p);
            }
        }
        assert forall|p: u16| out.contains(p) implies acc.contains(p) || (a <= p <= b) by {
            if next.contains(p) && !acc.contains(p) {
                let k = choose|k: int| 0 <= k < next.len() && next[k] == p;
                if k < acc.len() {
                    assert(acc[k] == p);
                }
            }
        }
    }
}

/// Ports come out in the order of their first mention, each once: a line
/// that is accepted leaves the ports found before it where they are, and adds
/// only ports that were not found before.
pub proof fn lemma_first_mention_order(line: Seq<char>, line_no: nat, acc: Seq<u16>)
    requires
        is_port_list(acc),
        parse_line(line, line_no, acc) is Ok,
    ensures
        acc.is_prefix_of(parse_line(line, line_no, acc)->Ok_0),
        is_port_list(parse_line(line, line_no, acc)->Ok_0),
{
    let body = line_body(line);
    let dash = position_from(body, '-', 0);
    if body.len() == 0 {
    } else if dash < body.len() {
        let start = parse_port(trim(body.subrange(0, dash)))->Ok_0;
        let end = parse_port(trim(body.subrange(dash + 1, body.len() as int)))->Ok_0;
        lemma_add_range_extends(acc, start as int, end as int);
    } else {
        let p = parse_port(body)->Ok_0;
        lemma_add_range_extends(acc, p as int, p as int);
        assert(add_range(acc, p as int, p as int) == add_port(acc, p)) by {
            reveal_with_fuel(add_range, 2);
        }
    }
}

/// The value of a prefix of digits is at most the value of the whole.
proof fn lemma_decimal_prefix(s: Seq<char>, k: int)
    requires
        0 <= k <= s.len(),
    ensures
        decimal(s.take(k)) <= decimal(s),
    decreases s.len(),
{
    if k == s.len() {
        assert(s.take(k) =~= s);
    } else {
        assert(s.drop_last().take(k) =~= s.take(k));
        lemma_decimal_prefix(s.drop_last(), k);
    }
}

/// Reads one port number: an optional `+` and decimal digits, nothing else,
/// with a value within 1 to 65535.
pub fn parse_port_str(s: &str) -> (r: Result<u16, PortError>)
    ensures
        r == parse_port(s@),
{
    parse_port_chars(chars_of(s).as_slice())
}

/// Reads one port number from its characters.
fn parse_port_chars(s: &[char]) -> (r: Result<u16, PortError>)
    ensures
        r == parse_port(s@),
{
    let start: usize = if s.len() > 0 && s[0] == '+' {
        1
    } else {
        0
    };
    let ghost d = without_sign(s@);
    assert(d =~= s@.subrange(start as int, s@.len() as int));
    if start == s.len() {
        return Err(PortError::NotANumber);
    }
    let mut val: u64 = 0;
    let mut i: usize = start;
    while i < s.len()
        invariant
            start <= i <= s.len(),
            d == without_sign(s@),
            d == s@.subrange(start as int, s@.len() as int),
            all_digits(d.take(i - start)),
            val == decimal(d.take(i - start)),
            val <= u32::MAX,
        decreases s.len() - i,
    {
        let c = s[i];
        assert(d[i - start] == c);
        if !('0' <= c && c <= '9') {
            assert(!is_digit(d[i - start]));
            return Err(PortError::NotANumber);
        }
        let digit: u64 = (c as u32 - '0' as u32) as u64;
        proof {
            let next = d.take(i - start + 1);
            assert(next.drop_last() =~= d.take(i - start));
            assert(next.last() == c);
            assert forall|k: int| 0 <= k < next.len() implies is_digit(#[trigger] next[k]) by {
                if k < i - start {
                    assert(d.take(i - start)[k] == next[k]);
                }
            }
            lemma_decimal_prefix(d, i - start + 1);
        }
        let wide: u64 = val * 10 + digit;
        if wide > 0xFFFF_FFFF {
            return Err(PortError::NotANumber);
        }
        val = wide;
        i += 1;
    }
    assert(d.take(d.len() as int) =~= d);
    if val == 0 || val > 65535 {
        Err(PortError::OutOfRange(val as u32))
    } else {
        Ok(val as u16)
    }
}

/// The table of ports seen agrees with the list of ports found.
spec fn tracks(seen: Seq<bool>, acc: Seq<u16>) -> bool {
    seen.len() == 65536 && forall|p: u16| #[trigger] seen[p as int] == acc.contains(p)
}

/// Appends `p` to `out` unless it is there already.
fn push_port(out: &mut Vec<u16>, seen: &mut Vec<bool>, p: u16)
    requires
        tracks(old(seen)@, old(out)@),
        is_port_list(old(out)@),
        p >= 1,
    ensures
        tracks(final(seen)@, final(out)@),
        is_port_list(final(out)@),
        final(out)@ == add_port(old(out)@, p),
{
    assert(seen@[p as int] == out@.contains(p));
    if !seen[p as usize] {
        let ghost before = out@;
        seen.set(p as usize, true);
        out.push(p);
        assert forall|q: u16| #[trigger] seen@[q as int] == out@.contains(q) by {
            if q == p {
                assert(out@[before.len() as int] == p);
            } else {
                assert(old(seen)@[q as int] == before.contains(q));
                if before.contains(q) {
                    let k = choose|k: int| 0 <= k < before.len() && before[k] == q;
                    assert(out@[k] == q);
                }
            }
        }
    }
}

/// Appends those of `start..=end` to `out` that are not there yet.
fn push_range(out: &mut Vec<u16>, seen: &mut Vec<bool>, start: u16, end: u16)
    requires
        tracks(old(seen)@, old(out)@),
        is_port_list(old(out)@),
        1 <= start <= end,
    ensures
        tracks(final(seen)@, final(out)@),
        is_port_list(final(out)@),
        final(out)@ == add_range(old(out)@, start as int, end as int),
{
    let mut p: u16 = start;
    loop
        invariant
            1 <= start <= p <= end,
            tracks(seen@, out@),
            is_port_list(out@),
            add_range(old(out)@, start as int, end as int) == add_range(out@, p as int, end as int),
        decreases end - p,
    {
        push_port(out, seen, p);
        if p == end {
            assert(add_range(out@, p + 1, end as int) == out@);
            return ;
        }
        p += 1;
    }
}

/// Reads one line of a port list into `out`.
fn parse_line_into(
    line: &[char],
    line_no: usize,
    out: &mut Vec<u16>,
    seen: &mut Vec<bool>,
) -> (r: Result<(), PortsError>)
    requires
        tracks(old(seen)@, old(out)@),
        is_port_list(old(out)@),
    ensures
        tracks(final(seen)@, final(out)@),
        is_port_list(final(out)@),
        match parse_line(line@, line_no as nat, old(out)@) {
            Ok(next) => r is Ok && final(out)@ == next,
            Err(e) => r == Err::<(), PortsError>(e) && final(out)@ == old(out)@,
        },
{
    let hash = position_in(line, '#', 0);
    let body = trimmed(slice_subrange(line, 0, hash));
    if body.len() == 0 {
        return Ok(());
    }
    let dash = position_in(body, '-', 0);
    if dash < body.len() {
        let start = match parse_port_chars(trimmed(slice_subrange(body, 0, dash))) {
            Ok(p) => p,
            Err(cause) => {
                return Err(PortsError::InvalidStart { line: line_no, cause });
            },
        };
        let end = match parse_port_chars(trimmed(slice_subrange(body, dash + 1, body.len()))) {
            Ok(p) => p,
            Err(cause) => {
                return Err(PortsError::InvalidEnd { line: line_no, cause });
            },
        };
        if start > end {
            return Err(PortsError::ReversedRange { line: line_no, start, end });
        }
        push_range(out, seen, start, end);
        Ok(())
    } else {
        match parse_port_chars(body) {
            Ok(p) => {
                push_port(out, seen, p);
                Ok(())
            },
            Err(cause) => Err(PortsError::InvalidPort { line: line_no, cause }),
        }
    }
}

/// A line whose body is not empty is not empty itself.
proof fn lemma_body_of_empty(line: Seq<char>)
    requires
        line.len() == 0,
    ensures
        line_body(line).len() == 0,
{
    assert(line.subrange(0, position_from(line, '#', 0)) =~= Seq::<char>::empty());
}

/// Reads a port list: one port or one inclusive range `start-end` per line,
/// comments from `#` on, blank lines and surrounding white space ignored. The
/// ports come back in the order of their first mention, each once. The first
/// line that cannot be read is reported with its number, and nothing else.
pub fn parse_ports_str(s: &str) -> (r: Result<Vec<u16>, PortsError>)
    ensures
        match parse_ports(s@) {
            Ok(ports) => r is Ok && r->Ok_0@ == ports,
            Err(e) => r == Err::<Vec<u16>, PortsError>(e),
        },
        r is Ok ==> is_port_list(r->Ok_0@),
{
    let text = chars_of(s);
    let mut out: Vec<u16> = Vec::new();
    let mut seen: Vec<bool> = Vec::new();
    while seen.len() < 65536
        invariant
            seen@.len() <= 65536,
            forall|k: int| 0 <= k < seen@.len() ==> !seen@[k],
        decreases 65536 - seen@.len(),
    {
        seen.push(false);
    }
    let mut from: usize = 0;
    let mut index: usize = 0;
    loop
        invariant
            text@ == s@,
            from <= text.len(),
            index <= from,
            tracks(seen@, out@),
            is_port_list(out@),
            parse_ports(s@) == parse_lines(s@, from as int, (index + 1) as nat, out@),
        decreases text.len() - from,
    {
        let end = position_in(text.as_slice(), '\n', from);
        let line = slice_subrange(text.as_slice(), from, end);
        if end > from {
            match parse_line_into(line, index + 1, &mut out, &mut seen) {
                Ok(()) => {},
                Err(e) => {
                    return Err(e);
                },
            }
        } else {
            proof {
                lemma_body_of_empty(line@);
            }
        }
        if end >= text.len() {
            return Ok(out);
        }
        from = end + 1;
        index += 1;
    }
}

/// The ports of the default list: widely used TCP services across
/// infrastructure, web, databases and tooling.
pub open spec fn default_port_list() -> Seq<u16> {
    seq![
        20, 21, 22, 23, 25, 53, 67, 68, 69, 80, 110, 111, 123, 135, 137, 138, 139, 143, 161, 179,
        389, 427, 443, 445, 465, 500, 512, 513, 514, 515, 520, 554, 587, 631, 636, 853, 873, 902,
        989, 990, 993, 995, 1025, 1080, 1194, 1433, 1434, 1521, 1723, 1883, 2049, 2082, 2083, 2086,
        2087, 2181, 2375, 2376, 2380, 2483, 2484, 27017, 27018, 27019, 28017, 3000, 3128, 3260,
        3306, 3333, 3389, 3478, 4000, 4040, 4369, 4444, 4500, 4567, 5000, 5001, 5040, 5050, 5060,
        5061, 5432, 5555, 5671, 5672, 5696, 5900, 5901, 5984, 5985, 5986, 6000, 6080, 61616, 6379,
        6380, 6443, 6666, 6667, 7001, 7002, 7199, 7200, 7777, 8000, 8001, 8008, 8009, 8010, 8080,
        8081, 8088, 8089, 8090, 8161, 8181, 8200, 8222, 8333, 8443, 8500, 8529, 8888, 9000, 9001,
        9042, 9071, 9090, 9091, 9092, 9100, 9200, 9300, 9418, 9443, 9500, 9600, 9666, 9999, 10000,
        11211,
    ]
}

/// The ports of the quick list: common interactive, web and database ports.
pub open spec fn quick_port_list() -> Seq<u16> {
    seq![
        21, 22, 23, 25, 80, 110, 135, 139, 143, 443, 445, 465, 500, 587, 631, 993, 995, 1433, 1521,
        1723, 1883, 3000, 3128, 3260, 3306, 3389, 5000, 5432, 5672, 5900, 5985, 5986, 6379, 7001,
        7002, 8000, 8008, 8080, 8081, 8088, 8443, 8888, 9000, 9092, 9200, 9300, 11211, 27017,
    ]
}

/// The default list of ports to scan.
pub fn default_ports() -> (r: Vec<u16>)
    ensures
        r@ == default_port_list(),
{
    let r: Vec<u16> = vec![
        20, 21, 22, 23, 25, 53, 67, 68, 69, 80, 110, 111, 123, 135, 137, 138, 139, 143, 161, 179,
        389, 427, 443, 445, 465, 500, 512, 513, 514, 515, 520, 554, 587, 631, 636, 853, 873, 902,
        989, 990, 993, 995, 1025, 1080, 1194, 1433, 1434, 1521, 1723, 1883, 2049, 2082, 2083, 2086,
        2087, 2181, 2375, 2376, 2380, 2483, 2484, 27017, 27018, 27019, 28017, 3000, 3128, 3260,
        3306, 3333, 3389, 3478, 4000, 4040, 4369, 4444, 4500, 4567, 5000, 5001, 5040, 5050, 5060,
        5061, 5432, 5555, 5671, 5672, 5696, 5900, 5901, 5984, 5985, 5986, 6000, 6080, 61616, 6379,
        6380, 6443, 6666, 6667, 7001, 7002, 7199, 7200, 7777, 8000, 8001, 8008, 8009, 8010, 8080,
        8081, 8088, 8089, 8090, 8161, 8181, 8200, 8222, 8333, 8443, 8500, 8529, 8888, 9000, 9001,
        9042, 9071, 9090, 9091, 9092, 9100, 9200, 9300, 9418, 9443, 9500, 9600, 9666, 9999, 10000,
        11211,
    ];
    assert(r@ =~= default_port_list());
    r
}

/// A smaller list of ports for quick scans.
pub fn quick_ports() -> (r: Vec<u16>)
    ensures
        r@ == quick_port_list(),
{
    let r: Vec<u16> = vec![
        21, 22, 23, 25, 80, 110, 135, 139, 143, 443, 445, 465, 500, 587, 631, 993, 995, 1433, 1521,
        1723, 1883, 3000, 3128, 3260, 3306, 3389, 5000, 5432, 5672, 5900, 5985, 5986, 6379, 7001,
        7002, 8000, 8008, 8080, 8081, 8088, 8443, 8888, 9000, 9092, 9200, 9300, 11211, 27017,
    ];
    assert(r@ =~= quick_port_list());
    r
}

/// The ports to scan, given what was read of a port list: the ports it lists,
/// or the default list where nothing could be read (`None`), the text is
/// rejected, or it lists no port.
pub fn load_ports_or_default(content: Option<&str>) -> (r: Vec<u16>)
    ensures
        r@ == match content {
            Some(text) => match parse_ports(text@) {
                Ok(ports) => if ports.len() > 0 {
                    ports
                } else {
                    default_port_list()
                },
                Err(_) => default_port_list(),
            },
            None => default_port_list(),
        },
{
    match content {
        Some(text) => match parse_ports_str(text) {
            Ok(ports) => if ports.len() > 0 {
                ports
            } else {
                default_ports()
            },
            Err(_) => default_ports(),
        },
        None => default_ports(),
    }
}

} // verus!
