//! The table in which the results of a scan are shown.
//!
//! The table has four columns: the address, flush left; the port and the
//! connect latency in milliseconds, flush right; and the banner, cut to 60
//! characters, flush left. Widths are counted in characters. The address and
//! the banner column are as wide as their widest cell.

use crate::text::{chars_of, prefix, prefix_of, string_of};
use crate::types::{entry_views, opt_text, EntryView, ResultsView, ScanEntry, ScanResults};
use vstd::prelude::*;

verus! {

/// The most characters of a banner that the table shows.
pub const BANNER_MAX: usize = 60;

/// The width of the port column.
pub const PORT_WIDTH: usize = 4;

/// The width of the latency column.
pub const LATENCY_WIDTH: usize = 10;

/// The least width of the address column.
pub const MIN_IP_WIDTH: usize = 2;

/// The least width of the banner column.
pub const MIN_BANNER_WIDTH: usize = 6;

/// The character that writes the digit `d`.
pub open spec fn digit_char(d: nat) -> char {
    (('0' as u8) + (d % 10) as u8) as char
}

/// The decimal notation of `n`.
pub open spec fn decimal_text(n: nat) -> Seq<char>
    decreases n,
{
    if n < 10 {
        seq![digit_char(n)]
    } else {
        decimal_text(n / 10).push(digit_char(n % 10))
    }
}

/// `n` times the character `c`.
pub open spec fn repeat(c: char, n: nat) -> Seq<char> {
    Seq::new(n, |i: int| c)
}

/// `s`, followed by as many `fill` as bring it to `width` characters.
pub open spec fn pad_right(s: Seq<char>, width: nat, fill: char) -> Seq<char> {
    if s.len() >= width {
        s
    } else {
        s + repeat(fill, (width - s.len()) as nat)
    }
}

/// `s`, preceded by as many spaces as bring it to `width` characters.
pub open spec fn pad_left(s: Seq<char>, width: nat) -> Seq<char> {
    if s.len() >= width {
        s
    } else {
        repeat(' ', (width - s.len()) as nat) + s
    }
}

/// What the table shows of a banner: its first 60 characters, or nothing.
pub open spec fn banner_cell(banner: Option<Seq<char>>) -> Seq<char> {
    match banner {
        Some(text) => prefix(text, BANNER_MAX as nat),
        None => Seq::empty(),
    }
}

/// The greater of two widths.
pub open spec fn wider(a: nat, b: nat) -> nat {
    if a >= b {
        a
    } else {
        b
    }
}

/// The width of the address column for `entries`.
pub open spec fn ip_width(entries: Seq<EntryView>) -> nat
    decreases entries.len(),
{
    if entries.len() == 0 {
        MIN_IP_WIDTH as nat
    } else {
        wider(ip_width(entries.drop_last()), entries.last().ip.len())
    }
}

/// The width of the banner column for `entries`.
pub open spec fn banner_width(entries: Seq<EntryView>) -> nat
    decreases entries.len(),
{
    if entries.len() == 0 {
        MIN_BANNER_WIDTH as nat
    } else {
        wider(banner_width(entries.drop_last()), banner_cell(entries.last().banner).len())
    }
}

/// A row of the table with the cells given, the first and the last filled up
/// with `fill`.
pub open spec fn row(
    ip: Seq<char>,
    port: Seq<char>,
    latency: Seq<char>,
    banner: Seq<char>,
    ip_w: nat,
    banner_w: nat,
    fill: char,
) -> Seq<char> {
    pad_right(ip, ip_w, fill) + "  "@ + port + "  "@ + latency + "  "@ + pad_right(
        banner,
        banner_w,
        fill,
    )
}

/// The line that sums the results up.
pub open spec fn summary_line(results: ResultsView) -> Seq<char> {
    "Open ports: "@ + decimal_text(results.open_count as nat) + " (scanned: "@ + decimal_text(
        results.scanned_done as nat,
    ) + ")"@
}

/// The line that heads the table.
pub open spec fn header_line(ip_w: nat, banner_w: nat) -> Seq<char> {
    row(
        "ip"@,
        pad_left("port"@, PORT_WIDTH as nat),
        pad_left("latency_ms"@, LATENCY_WIDTH as nat),
        "banner"@,
        ip_w,
        banner_w,
        ' ',
    )
}

/// The line of dashes under the heads.
pub open spec fn rule_line(ip_w: nat, banner_w: nat) -> Seq<char> {
    row(
        Seq::empty(),
        repeat('-', PORT_WIDTH as nat),
        repeat('-', LATENCY_WIDTH as nat),
        Seq::empty(),
        ip_w,
        banner_w,
        '-',
    )
}

/// The line of one entry.
pub open spec fn entry_line(entry: EntryView, ip_w: nat, banner_w: nat) -> Seq<char> {
    row(
        entry.ip,
        pad_left(decimal_text(entry.port as nat), PORT_WIDTH as nat),
        pad_left(decimal_text(entry.latency_ms as nat), LATENCY_WIDTH as nat),
        banner_cell(entry.banner),
        ip_w,
        banner_w,
        ' ',
    )
}

/// The lines of the table for `results`: an empty line, the summary, the
/// heads, the rule, and one line for each entry in the order of the entries.
pub open spec fn table_lines(results: ResultsView) -> Seq<Seq<char>> {
    let ip_w = ip_width(results.entries);
    let banner_w = banner_width(results.entries);
    seq![
        Seq::<char>::empty(),
        summary_line(results),
        header_line(ip_w, banner_w),
        rule_line(ip_w, banner_w),
    ] + results.entries.map_values(|e: EntryView| entry_line(e, ip_w, banner_w))
}

/// The texts of a list of strings.
pub open spec fn texts(lines: Seq<String>) -> Seq<Seq<char>> {
    lines.map_values(|l: String| l@)
}

/// Writes `n` in decimal notation.
pub fn decimal(n: u64) -> (r: Vec<char>)
    ensures
        r@ == decimal_text(n as nat),
    decreases n,
{
    let digit: u8 = (n % 10) as u8;
    let c: char = (48u8 + digit) as char;
    if n < 10 {
        let mut out: Vec<char> = Vec::new();
        out.push(c);
        assert(out@ =~= seq![digit_char(n as nat)]);
        out
    } else {
        let mut out = decimal(n / 10);
        out.push(c);
        out
    }
}

/// Appends `n` times the character `c` to `out`.
fn push_repeat(out: &mut Vec<char>, c: char, n: usize)
    ensures
        final(out)@ == old(out)@ + repeat(c, n as nat),
{
    let mut i: usize = 0;
    assert(out@ =~= old(out)@ + repeat(c, 0));
    while i < n
        invariant
            i <= n,
            out@ == old(out)@ + repeat(c, i as nat),
        decreases n - i,
    {
        out.push(c);
        i += 1;
        assert(out@ =~= old(out)@ + repeat(c, i as nat));
    }
}

/// Appends `s` to `out`, filled up on the right to `width` characters.
fn push_padded_right(out: &mut Vec<char>, s: &[char], width: usize, fill: char)
    ensures
        final(out)@ == old(out)@ + pad_right(s@, width as nat, fill),
{
    let ghost before = out@;
    out.extend_from_slice(s);
    assert(out@ =~= before + s@);
    if s.len() < width {
        push_repeat(out, fill, width - s.len());
        assert(out@ =~= before + pad_right(s@, width as nat, fill));
    }
}

/// Appends `s` to `out`, filled up on the left with spaces to `width`
/// characters.
fn push_padded_left(out: &mut Vec<char>, s: &[char], width: usize)
    ensures
        final(out)@ == old(out)@ + pad_left(s@, width as nat),
{
    let ghost before = out@;
    if s.len() < width {
        push_repeat(out, ' ', width - s.len());
    }
    let ghost mid = out@;
    out.extend_from_slice(s);
    assert(out@ =~= mid + s@);
    assert(out@ =~= before + pad_left(s@, width as nat));
}

/// Appends the characters of `s` to `out`.
fn push_str(out: &mut Vec<char>, s: &str)
    ensures
        final(out)@ == old(out)@ + s@,
{
    let ghost before = out@;
    let chars = chars_of(s);
    out.extend_from_slice(chars.as_slice());
    assert(out@ =~= before + s@);
}

/// Writes a row of the table.
fn write_row(
    ip: &[char],
    port: &[char],
    latency: &[char],
    banner: &[char],
    ip_w: usize,
    banner_w: usize,
    fill: char,
) -> (r: String)
    ensures
        r@ == row(ip@, port@, latency@, banner@, ip_w as nat, banner_w as nat, fill),
{
    let mut out: Vec<char> = Vec::new();
    push_padded_right(&mut out, ip, ip_w, fill);
    assert(out@ =~= pad_right(ip@, ip_w as nat, fill));
    push_str(&mut out, "  ");
    let ghost a = out@;
    out.extend_from_slice(port);
    assert(out@ =~= a + port@);
    push_str(&mut out, "  ");
    let ghost b = out@;
    out.extend_from_slice(latency);
    assert(out@ =~= b + latency@);
    push_str(&mut out, "  ");
    push_padded_right(&mut out, banner, banner_w, fill);
    string_of(out.as_slice())
}

/// What the table shows of a banner.
fn banner_chars(banner: &Option<String>) -> (r: Vec<char>)
    ensures
        r@ == banner_cell(opt_text(*banner)),
{
    match banner {
        Some(text) => {
            let chars = chars_of(text.as_str());
            let cut = prefix_of(chars.as_slice(), BANNER_MAX);
            let mut out: Vec<char> = Vec::new();
            out.extend_from_slice(cut);
            assert(out@ =~= cut@);
            out
        },
        None => Vec::new(),
    }
}

/// The widths of the address column and of the banner column.
fn column_widths(entries: &Vec<ScanEntry>) -> (r: (usize, usize))
    ensures
        r.0 == ip_width(entry_views(entries@)),
        r.1 == banner_width(entry_views(entries@)),
{
    let mut ip_w: usize = MIN_IP_WIDTH;
    let mut banner_w: usize = MIN_BANNER_WIDTH;
    let mut i: usize = 0;
    assert(entry_views(entries@).take(0) =~= Seq::<EntryView>::empty());
    while i < entries.len()
        invariant
            i <= entries.len(),
            ip_w == ip_width(entry_views(entries@).take(i as int)),
            banner_w == banner_width(entry_views(entries@).take(i as int)),
        decreases entries.len() - i,
    {
        let entry = &entries[i];
        let ip_len = entry.ip.as_str().unicode_len();
        let banner_len = banner_chars(&entry.banner).len();
        proof {
            let next = entry_views(entries@).take(i + 1);
            assert(next.drop_last() =~= entry_views(entries@).take(i as int));
            assert(next.last() == entry@);
        }
        if ip_len > ip_w {
            ip_w = ip_len;
        }
        if banner_len > banner_w {
            banner_w = banner_len;
        }
        i += 1;
    }
    assert(entry_views(entries@).take(entries@.len() as int) =~= entry_views(entries@));
    (ip_w, banner_w)
}

/// Writes the line of one entry.
fn write_entry(entry: &ScanEntry, ip_w: usize, banner_w: usize) -> (r: String)
    ensures
        r@ == entry_line(entry@, ip_w as nat, banner_w as nat),
{
    let ip = chars_of(entry.ip.as_str());
    let mut port: Vec<char> = Vec::new();
    push_padded_left(&mut port, decimal(entry.port as u64).as_slice(), PORT_WIDTH);
    assert(port@ =~= pad_left(decimal_text(entry.port as nat), PORT_WIDTH as nat));
    let mut latency: Vec<char> = Vec::new();
    push_padded_left(&mut latency, decimal(entry.latency_ms).as_slice(), LATENCY_WIDTH);
    assert(latency@ =~= pad_left(decimal_text(entry.latency_ms as nat), LATENCY_WIDTH as nat));
    let banner = banner_chars(&entry.banner);
    write_row(
        ip.as_slice(),
        port.as_slice(),
        latency.as_slice(),
        banner.as_slice(),
        ip_w,
        banner_w,
        ' ',
    )
}

/// Writes the line that sums the results up.
fn write_summary(results: &ScanResults) -> (r: String)
    ensures
        r@ == summary_line(results@),
{
    let mut out: Vec<char> = Vec::new();
    push_str(&mut out, "Open ports: ");
    assert(out@ =~= "Open ports: "@);
    let ghost a = out@;
    out.extend_from_slice(decimal(results.open_count).as_slice());
    assert(out@ =~= a + decimal_text(results.open_count as nat));
    push_str(&mut out, " (scanned: ");
    let ghost b = out@;
    out.extend_from_slice(decimal(results.scanned_done).as_slice());
    assert(out@ =~= b + decimal_text(results.scanned_done as nat));
    push_str(&mut out, ")");
    string_of(out.as_slice())
}

/// Writes the table of the results of a scan, line by line.
pub fn render_results_table(results: &ScanResults) -> (r: Vec<String>)
    ensures
        texts(r@) == table_lines(results@),
{
    let (ip_w, banner_w) = column_widths(&results.entries);
    let mut lines: Vec<String> = Vec::new();
    lines.push(String::new());
    lines.push(write_summary(results));
    let mut port_head: Vec<char> = Vec::new();
    push_padded_left(&mut port_head, chars_of("port").as_slice(), PORT_WIDTH);
    assert(port_head@ =~= pad_left("port"@, PORT_WIDTH as nat));
    let mut latency_head: Vec<char> = Vec::new();
    push_padded_left(&mut latency_head, chars_of("latency_ms").as_slice(), LATENCY_WIDTH);
    assert(latency_head@ =~= pad_left("latency_ms"@, LATENCY_WIDTH as nat));
    lines.push(
        write_row(
            chars_of("ip").as_slice(),
            port_head.as_slice(),
            latency_head.as_slice(),
            chars_of("banner").as_slice(),
            ip_w,
            banner_w,
            ' ',
        ),
    );
    let mut port_rule: Vec<char> = Vec::new();
    push_repeat(&mut port_rule, '-', PORT_WIDTH);
    assert(port_rule@ =~= repeat('-', PORT_WIDTH as nat));
    let mut latency_rule: Vec<char> = Vec::new();
    push_repeat(&mut latency_rule, '-', LATENCY_WIDTH);
    assert(latency_rule@ =~= repeat('-', LATENCY_WIDTH as nat));
    let none: Vec<char> = Vec::new();
    assert(none@ =~= Seq::<char>::empty());
    lines.push(
        write_row(
            none.as_slice(),
            port_rule.as_slice(),
            latency_rule.as_slice(),
            none.as_slice(),
            ip_w,
            banner_w,
            '-',
        ),
    );
    let ghost head = texts(lines@);
    assert(head =~= seq![
        Seq::<char>::empty(),
        summary_line(results@),
        header_line(ip_w as nat, banner_w as nat),
        rule_line(ip_w as nat, banner_w as nat),
    ]);
    let mut i: usize = 0;
    while i < results.entries.len()
        invariant
            i <= results.entries.len(),
            lines@.len() == 4 + i,
            texts(lines@).take(4) == head,
            forall|k: int|
                0 <= k < i ==> (#[trigger] lines@[4 + k])@ == entry_line(
                    results.entries@[k]@,
                    ip_w as nat,
                    banner_w as nat,
                ),
        decreases results.entries.len() - i,
    {
        let ghost before = lines@;
        lines.push(write_entry(&results.entries[i], ip_w, banner_w));
        assert(texts(lines@).take(4) =~= texts(before).take(4));
        assert forall|k: int| 0 <= k < i + 1 implies (#[trigger] lines@[4 + k])@ == entry_line(
            results.entries@[k]@,
            ip_w as nat,
            banner_w as nat,
        ) by {
            if k < i {
                assert(lines@[4 + k] == before[4 + k]);
            }
        }
        i += 1;
    }
    proof {
        let want = table_lines(results@);
        let got = texts(lines@);
        assert(got.len() == want.len());
        assert forall|k: int| 0 <= k < got.len() implies got[k] == want[k] by {
            if k < 4 {
                assert(got.take(4)[k] == got[k]);
            } else {
                assert(lines@[4 + (k - 4)]@ == got[k]);
            }
        }
        assert(got =~= want);
    }
    lines
}

} // verus!
