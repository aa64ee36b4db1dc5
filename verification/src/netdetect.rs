//! Networks in CIDR notation, the host addresses they span, and the networks
//! that the machine's own interfaces suggest for scanning.
//!
//! An IPv4 address is held as the 32-bit number it writes in network order
//! (`10.1.2.3` is `0x0A01_0203`), an IPv6 address as its 128-bit number.

use vstd::prelude::*;

verus! {

/// The address of one host.
#[derive(Debug, Clone, Copy, PartialEq, Eq, Hash, Structural)]
pub enum HostAddr {
    V4(u32),
    V6(u128),
}

/// An IPv4 address with a prefix length of at most 32.
#[derive(Debug, Clone, Copy, PartialEq, Eq, Hash)]
pub struct Ipv4Net {
    addr: u32,
    prefix_len: u8,
}

/// An IPv6 address with a prefix length of at most 128.
#[derive(Debug, Clone, Copy, PartialEq, Eq, Hash)]
pub struct Ipv6Net {
    addr: u128,
    prefix_len: u8,
}

/// A network of either family.
#[derive(Debug, Clone, Copy, PartialEq, Eq, Hash)]
pub enum IpNet {
    V4(Ipv4Net),
    V6(Ipv6Net),
}

/// The mask that keeps the first `prefix_len` bits of an IPv4 address.
pub open spec fn netmask(prefix_len: u8) -> u32 {
    if prefix_len == 0 || prefix_len > 32 {
        0
    } else {
        0xFFFF_FFFFu32 << ((32 - prefix_len) as u32)
    }
}

/// The mask that keeps what follows the first `prefix_len` bits.
pub open spec fn hostmask(prefix_len: u8) -> u32 {
    if prefix_len >= 32 {
        0
    } else {
        0xFFFF_FFFFu32 >> (prefix_len as u32)
    }
}

/// The first address of the network that `addr` lies in.
pub open spec fn network_of(addr: u32, prefix_len: u8) -> u32 {
    addr & netmask(prefix_len)
}

/// The last address of the network that `addr` lies in.
pub open spec fn broadcast_of(addr: u32, prefix_len: u8) -> u32 {
    addr | hostmask(prefix_len)
}

/// How many host addresses lie strictly between `first` and `last`.
pub open spec fn host_count(first: u32, last: u32) -> nat {
    if last - first >= 2 {
        (last - first - 1) as nat
    } else {
        0
    }
}

/// The addresses strictly between `first` and `last`, ascending.
pub open spec fn hosts_between(first: u32, last: u32) -> Seq<u32> {
    Seq::new(host_count(first, last), |i: int| (first + 1 + i) as u32)
}

/// The number that the four octets of a dotted address write.
pub open spec fn octets_value(a: u8, b: u8, c: u8, d: u8) -> u32 {
    (a * 0x100_0000 + b * 0x1_0000 + c * 0x100 + d) as u32
}

/// Whether the IPv4 address `ip` lies in 127.0.0.0/8.
pub open spec fn is_loopback(ip: u32) -> bool {
    ip / 0x100_0000 == 127
}

/// `ip` with its last octet cleared: the address of its /24 network.
pub open spec fn default_net_addr(ip: u32) -> u32 {
    (ip - ip % 256) as u32
}

/// What `Display` of `ipnet::Ipv4Net` returns for the network of address
/// `addr` and prefix length `prefix_len`.
pub uninterp spec fn ipv4_net_text(addr: u32, prefix_len: u8) -> Seq<char>;

/// What `Display` of std's IPv4 address type returns for the address `addr`.
pub uninterp spec fn ipv4_text(addr: u32) -> Seq<char>;

/// What `Display` of std's IPv6 address type returns for the address `addr`.
pub uninterp spec fn ipv6_text(addr: u128) -> Seq<char>;

/// `ipnet::Ipv4Net::network`: the address with all but its first
/// `prefix_len` bits cleared.
#[verifier::external_body]
fn ipnet_network(addr: u32, prefix_len: u8) -> (r: u32)
    requires
        prefix_len <= 32,
    ensures
        r == network_of(addr, prefix_len),
{
    ipnet::Ipv4Net::new_assert(addr.into(), prefix_len).network().into()
}

/// `ipnet::Ipv4Net::broadcast`: the address with all but its first
/// `prefix_len` bits set.
#[verifier::external_body]
fn ipnet_broadcast(addr: u32, prefix_len: u8) -> (r: u32)
    requires
        prefix_len <= 32,
    ensures
        r == broadcast_of(addr, prefix_len),
{
    ipnet::Ipv4Net::new_assert(addr.into(), prefix_len).broadcast().into()
}

/// `Display` of `ipnet::Ipv4Net`: the network in CIDR notation. The text is
/// known only by its name.
#[verifier::external_body]
fn ipnet_display(addr: u32, prefix_len: u8) -> (r: String)
    requires
        prefix_len <= 32,
    ensures
        r@ == ipv4_net_text(addr, prefix_len),
{
    ipnet::Ipv4Net::new_assert(addr.into(), prefix_len).to_string()
}

/// `Display` of std's IPv4 address, reached through `ipnet::Ipv4Net::addr`.
/// The text is known only by its name.
#[verifier::external_body]
fn ipv4_display(addr: u32) -> (r: String)
    ensures
        r@ == ipv4_text(addr),
{
    ipnet::Ipv4Net::new_assert(addr.into(), 32).addr().to_string()
}

/// `Display` of std's IPv6 address, reached through `ipnet::Ipv6Net::addr`.
/// The text is known only by its name.
#[verifier::external_body]
fn ipv6_display(addr: u128) -> (r: String)
    ensures
        r@ == ipv6_text(addr),
{
    ipnet::Ipv6Net::new_assert(addr.into(), 128).addr().to_string()
}

impl HostAddr {
    /// The text of the address.
    pub open spec fn text(self) -> Seq<char> {
        match self {
            HostAddr::V4(n) => ipv4_text(n),
            HostAddr::V6(n) => ipv6_text(n),
        }
    }

    /// The address in its usual notation.
    pub fn to_string(&self) -> (r: String)
        ensures
            r@ == self.text(),
    {
        match self {
            HostAddr::V4(n) => ipv4_display(*n),
            HostAddr::V6(n) => ipv6_display(*n),
        }
    }
}

/// The IPv4 address `a.b.c.d` as a number.
pub fn ipv4_from_octets(a: u8, b: u8, c: u8, d: u8) -> (r: u32)
    ensures
        r == octets_value(a, b, c, d),
{
    (a as u32) * 0x100_0000 + (b as u32) * 0x1_0000 + (c as u32) * 0x100 + (d as u32)
}

impl Ipv4Net {
    #[verifier::type_invariant]
    spec fn valid(self) -> bool {
        self.prefix_len <= 32
    }

    /// The address that the network was made of.
    pub closed spec fn spec_addr(self) -> u32 {
        self.addr
    }

    /// The prefix length of the network.
    pub closed spec fn spec_prefix_len(self) -> u8 {
        self.prefix_len
    }

    /// The first address of the network.
    pub open spec fn spec_network(self) -> u32 {
        network_of(self.spec_addr(), self.spec_prefix_len())
    }

    /// The last address of the network.
    pub open spec fn spec_broadcast(self) -> u32 {
        broadcast_of(self.spec_addr(), self.spec_prefix_len())
    }

    /// The host addresses of the network: all of its addresses but the first
    /// and the last, ascending.
    pub open spec fn spec_hosts(self) -> Seq<u32> {
        hosts_between(self.spec_network(), self.spec_broadcast())
    }

    /// The network of `addr` with the prefix length `prefix_len`; none where
    /// the prefix length is above 32.
    pub fn new(addr: u32, prefix_len: u8) -> (r: Option<Ipv4Net>)
        ensures
            r is Some <==> prefix_len <= 32,
            r is Some ==> r->0.spec_addr() == addr && r->0.spec_prefix_len() == prefix_len,
    {
        if prefix_len > 32 {
            None
        } else {
            Some(Ipv4Net { addr, prefix_len })
        }
    }

    /// The address that the network was made of, host bits included.
    pub fn addr(&self) -> (r: u32)
        ensures
            r == self.spec_addr(),
    {
        self.addr
    }

    /// The prefix length, at most 32.
    pub fn prefix_len(&self) -> (r: u8)
        ensures
            r == self.spec_prefix_len(),
            r <= 32,
    {
        proof {
            use_type_invariant(self);
        }
        self.prefix_len
    }

    /// The first address of the network.
    pub fn network(&self) -> (r: u32)
        ensures
            r == self.spec_network(),
            r <= self.spec_addr(),
    {
        proof {
            use_type_invariant(self);
            lemma_network_bounds(self.addr, self.prefix_len);
        }
        ipnet_network(self.addr, self.prefix_len)
    }

    /// The last address of the network.
    pub fn broadcast(&self) -> (r: u32)
        ensures
            r == self.spec_broadcast(),
            r >= self.spec_addr(),
    {
        proof {
            use_type_invariant(self);
            lemma_network_bounds(self.addr, self.prefix_len);
        }
        ipnet_broadcast(self.addr, self.prefix_len)
    }

    /// The network in CIDR notation.
    pub fn to_string(&self) -> (r: String)
        ensures
            r@ == ipv4_net_text(self.spec_addr(), self.spec_prefix_len()),
    {
        proof {
            use_type_invariant(self);
        }
        ipnet_display(self.addr, self.prefix_len)
    }
}

impl Ipv6Net {
    #[verifier::type_invariant]
    spec fn valid(self) -> bool {
        self.prefix_len <= 128
    }

    /// The address that the network was made of.
    pub closed spec fn spec_addr(self) -> u128 {
        self.addr
    }

    /// The prefix length of the network.
    pub closed spec fn spec_prefix_len(self) -> u8 {
        self.prefix_len
    }

    /// The network of `addr` with the prefix length `prefix_len`; none where
    /// the prefix length is above 128.
    pub fn new(addr: u128, prefix_len: u8) -> (r: Option<Ipv6Net>)
        ensures
            r is Some <==> prefix_len <= 128,
            r is Some ==> r->0.spec_addr() == addr && r->0.spec_prefix_len() == prefix_len,
    {
        if prefix_len > 128 {
            None
        } else {
            Some(Ipv6Net { addr, prefix_len })
        }
    }

    /// The address that the network was made of, host bits included.
    pub fn addr(&self) -> (r: u128)
        ensures
            r == self.spec_addr(),
    {
        self.addr
    }

    /// The prefix length, at most 128.
    pub fn prefix_len(&self) -> (r: u8)
        ensures
            r == self.spec_prefix_len(),
            r <= 128,
    {
        proof {
            use_type_invariant(self);
        }
        self.prefix_len
    }
}

/// A network begins at or before each of its addresses and ends at or after it.
pub proof fn lemma_network_bounds(addr: u32, prefix_len: u8)
    ensures
        network_of(addr, prefix_len) <= addr <= broadcast_of(addr, prefix_len),
{
    let m = netmask(prefix_len);
    let h = hostmask(prefix_len);
    assert(addr & m <= addr) by (bit_vector);
    assert(addr | h >= addr) by (bit_vector);
}

/// Neither the first nor the last address of a network is among its hosts.
pub proof fn lemma_hosts_exclude_ends(first: u32, last: u32)
    ensures
        !hosts_between(first, last).contains(first),
        !hosts_between(first, last).contains(last),
        forall|i: int|
            0 <= i < hosts_between(first, last).len() ==> first < #[trigger] hosts_between(
                first,
                last,
            )[i] < last,
{
    let hosts = hosts_between(first, last);
    assert forall|i: int| 0 <= i < hosts.len() implies first < #[trigger] hosts[i] < last by {}
}

/// The hosts of a network are the addresses strictly between its network
/// address and its broadcast address, ascending by one: neither of the two
/// is among them.
pub proof fn lemma_hosts_of_network(net: Ipv4Net)
    ensures
        !net.spec_hosts().contains(net.spec_network()),
        !net.spec_hosts().contains(net.spec_broadcast()),
        net.spec_network() <= net.spec_broadcast(),
        forall|i: int|
            0 <= i < net.spec_hosts().len() ==> net.spec_network() < #[trigger] net.spec_hosts()[i]
                < net.spec_broadcast(),
        forall|a: u32|
            net.spec_network() < a < net.spec_broadcast() ==> net.spec_hosts().contains(a),
{
    let first = net.spec_network();
    let last = net.spec_broadcast();
    lemma_network_bounds(net.spec_addr(), net.spec_prefix_len());
    lemma_hosts_exclude_ends(first, last);
    assert forall|a: u32| first < a < last implies net.spec_hosts().contains(a) by {
        assert(net.spec_hosts()[a - first - 1] == a);
    }
}

/// A network of prefix length `p` spans `hostmask(p) + 1` addresses, from its
/// network address on: its broadcast address lies `hostmask(p)` above its
/// network address, and it has `hostmask(p) - 1` hosts, or none where that is
/// less than one.
pub proof fn lemma_host_count(addr: u32, prefix_len: u8)
    requires
        prefix_len <= 32,
    ensures
        broadcast_of(addr, prefix_len) - network_of(addr, prefix_len) == hostmask(prefix_len),
        hosts_between(network_of(addr, prefix_len), broadcast_of(addr, prefix_len)).len() == (
        if hostmask(prefix_len) >= 2 {
            hostmask(prefix_len) - 1
        } else {
            0
        }),
        prefix_len == 24 ==> hostmask(prefix_len) == 255,
        prefix_len == 30 ==> hostmask(prefix_len) == 3,
{
    let p: u32 = prefix_len as u32;
    let h = hostmask(prefix_len);
    let m = netmask(prefix_len);
    if prefix_len == 0 {
        assert(0xFFFF_FFFFu32 >> 0u32 == 0xFFFF_FFFFu32) by (bit_vector);
        assert((addr | 0xFFFF_FFFFu32) - (addr & 0u32) == 0xFFFF_FFFFu32) by (bit_vector);
    } else if prefix_len == 32 {
        assert(0xFFFF_FFFFu32 << 0u32 == 0xFFFF_FFFFu32) by (bit_vector);
        assert((addr | 0u32) - (addr & 0xFFFF_FFFFu32) == 0u32) by (bit_vector);
    } else {
        assert((addr | (0xFFFF_FFFFu32 >> p)) - (addr & (0xFFFF_FFFFu32 << ((32 - p) as u32)))
            == (0xFFFF_FFFFu32 >> p)) by (bit_vector)
            requires
                1 <= p <= 31,
        ;
    }
    assert(0xFFFF_FFFFu32 >> 24u32 == 255u32) by (bit_vector);
    assert(0xFFFF_FFFFu32 >> 30u32 == 3u32) by (bit_vector);
}

/// The /24 network that the IPv4 address `ip` lies in.
pub fn ipv4_to_default_cidr(ip: u32) -> (r: Ipv4Net)
    ensures
        r.spec_addr() == default_net_addr(ip),
        r.spec_prefix_len() == 24,
        r.spec_network() == r.spec_addr(),
        r.spec_network() == network_of(ip, 24),
{
    proof {
        let base: u32 = (ip - ip % 256) as u32;
        assert(0xFFFF_FFFFu32 << 8u32 == 0xFFFF_FF00u32) by (bit_vector);
        assert((ip & 0xFFFF_FF00u32) == (ip - ip % 256u32) as u32) by (bit_vector);
        assert(base & 0xFFFF_FF00u32 == base) by (bit_vector)
            requires
                base == ip & 0xFFFF_FF00u32,
        ;
    }
    Ipv4Net { addr: ip - ip % 256, prefix_len: 24 }
}

/// The host addresses of an IPv4 network, ascending: every address of the
/// network but its first (the network address) and its last (the broadcast
/// address). A network of one or two addresses has none.
pub fn expand_ipv4net_hosts(net: Ipv4Net) -> (r: Vec<u32>)
    ensures
        r@ == net.spec_hosts(),
{
    let first = net.network();
    let last = net.broadcast();
    let mut out: Vec<u32> = Vec::new();
    if last - first < 2 {
        assert(out@ =~= net.spec_hosts());
        return out;
    }
    let mut n: u32 = first + 1;
    while n < last
        invariant
            first < n <= last,
            out@.len() == n - first - 1,
            forall|i: int| 0 <= i < out@.len() ==> out@[i] == first + 1 + i,
        decreases last - n,
    {
        out.push(n);
        n += 1;
    }
    assert(out@ =~= hosts_between(first, last));
    out
}

/// The addresses to scan in a network: the host addresses of an IPv4 network,
/// ascending; none for an IPv6 network.
pub fn expand_cidr_to_ips(cidr: IpNet) -> (r: Vec<HostAddr>)
    ensures
        r@ == match cidr {
            IpNet::V4(net) => net.spec_hosts().map_values(|n: u32| HostAddr::V4(n)),
            IpNet::V6(_) => Seq::<HostAddr>::empty(),
        },
{
    match cidr {
        IpNet::V4(net) => {
            let hosts = expand_ipv4net_hosts(net);
            let mut out: Vec<HostAddr> = Vec::new();
            let mut i: usize = 0;
            while i < hosts.len()
                invariant
                    i <= hosts.len(),
                    out@.len() == i,
                    forall|k: int| 0 <= k < i ==> out@[k] == HostAddr::V4(hosts@[k]),
                decreases hosts.len() - i,
            {
                out.push(HostAddr::V4(hosts[i]));
                i += 1;
            }
            assert(out@ =~= hosts@.map_values(|n: u32| HostAddr::V4(n)));
            out
        },
        IpNet::V6(_) => Vec::new(),
    }
}

/// The error of `ipnet`'s parsers. It says nothing beyond that the text was
/// rejected.
#[verifier::external_type_specification]
#[verifier::external_body]
pub struct ExAddrParseError(ipnet::AddrParseError);

/// What `FromStr` of `ipnet::IpNet` returns for the text `s`, as a network of
/// this library; none where it rejects the text.
pub uninterp spec fn parsed_net(s: Seq<char>) -> Option<IpNet>;

/// What `FromStr` of std's IP address type returns for the text `s`, as an
/// address of this library; none where it rejects the text.
pub uninterp spec fn parsed_host(s: Seq<char>) -> Option<HostAddr>;

/// `FromStr` of `ipnet::IpNet`: reads a network in CIDR notation. Which texts
/// it accepts, and as what, is known only by name.
#[verifier::external_body]
fn ipnet_parse(s: &str) -> (r: Result<IpNet, ipnet::AddrParseError>)
    ensures
        r is Ok <==> parsed_net(s@) is Some,
        r is Ok ==> parsed_net(s@) == Some(r->Ok_0),
{
    match s.parse::<ipnet::IpNet>() {
        Ok(ipnet::IpNet::V4(n)) => Ok(
            IpNet::V4(Ipv4Net { addr: n.addr().into(), prefix_len: n.prefix_len() }),
        ),
        Ok(ipnet::IpNet::V6(n)) => Ok(
            IpNet::V6(Ipv6Net { addr: n.addr().into(), prefix_len: n.prefix_len() }),
        ),
        Err(e) => Err(e),
    }
}

/// `FromStr` of std's IP address type, whose result is held in an
/// `ipnet::IpNet` of prefix length 0 to tell the two families apart. Which
/// texts it accepts, and as what, is known only by name.
#[verifier::external_body]
fn std_parse_host(s: &str) -> (r: Option<HostAddr>)
    ensures
        r == parsed_host(s@),
{
    match ipnet::IpNet::new_assert(s.parse().ok()?, 0) {
        ipnet::IpNet::V4(n) => Some(HostAddr::V4(n.addr().into())),
        ipnet::IpNet::V6(n) => Some(HostAddr::V6(n.addr().into())),
    }
}

/// Reads a network in CIDR notation, such as `192.168.1.0/24`.
pub fn parse_net(s: &str) -> (r: Option<IpNet>)
    ensures
        r == parsed_net(s@),
{
    match ipnet_parse(s) {
        Ok(net) => Some(net),
        Err(_) => None,
    }
}

/// Reads one address, such as `192.168.1.7`.
pub fn parse_host(s: &str) -> (r: Option<HostAddr>)
    ensures
        r == parsed_host(s@),
{
    std_parse_host(s)
}

/// Whether `v` ascends strictly.
pub open spec fn ascending(v: Seq<u32>) -> bool {
    forall|i: int, j: int| 0 <= i < j < v.len() ==> v[i] < v[j]
}

/// The addresses of the /24 networks of the interface addresses `addrs` that
/// are IPv4 and not loopback.
pub open spec fn local_net_addrs(addrs: Seq<HostAddr>) -> Set<u32> {
    Set::new(
        |n: u32|
            exists|k: int|
                0 <= k < addrs.len() && #[trigger] addrs[k] is V4 && !is_loopback(addrs[k]->V4_0)
                    && default_net_addr(addrs[k]->V4_0) == n,
    )
}

/// Puts `n` into the ascending list `nets`, unless it is there.
fn insert_ascending(nets: &mut Vec<u32>, n: u32)
    requires
        ascending(old(nets)@),
    ensures
        ascending(final(nets)@),
        forall|m: u32| final(nets)@.contains(m) <==> (old(nets)@.contains(m) || m == n),
{
    let ghost before = nets@;
    let mut j: usize = 0;
    while j < nets.len() && nets[j] < n
        invariant
            j <= nets.len(),
            nets@ == before,
            forall|k: int| 0 <= k < j ==> before[k] < n,
        decreases nets.len() - j,
    {
        j += 1;
    }
    if j < nets.len() && nets[j] == n {
        assert(before.contains(n));
        return ;
    }
    nets.insert(j, n);
    proof {
        before.insert_ensures(j as int, n);
        let after = nets@;
        assert forall|a: int, b: int| 0 <= a < b < after.len() implies after[a] < after[b] by {
            if a < j {
                assert(after[a] == before[a]);
            } else if a > j {
                assert(after[a] == before[a - 1]);
            }
            if b < j {
                assert(after[b] == before[b]);
            } else if b > j {
                assert(after[b] == before[b - 1]);
            }
        }
        assert forall|m: u32| after.contains(m) <==> (before.contains(m) || m == n) by {
            if after.contains(m) {
                let k = choose|k: int| 0 <= k < after.len() && after[k] == m;
                if k < j {
                    assert(before[k] == m);
                } else if k > j {
                    assert(before[k - 1] == m);
                }
            }
            if before.contains(m) {
                let k = choose|k: int| 0 <= k < before.len() && before[k] == m;
                if k < j {
                    assert(after[k] == m);
                } else {
                    assert(after[k + 1] == m);
                }
            }
            if m == n {
                assert(after[j as int] == m);
            }
        }
    }
}

/// The networks to scan by default, given the addresses of the machine's
/// interfaces: the /24 network of each IPv4 address that is not loopback,
/// each network once, ascending by address.
pub fn detect_local_cidrs(interfaces: &Vec<HostAddr>) -> (r: Vec<IpNet>)
    ensures
        forall|i: int|
            0 <= i < r@.len() ==> (#[trigger] r@[i]) is V4 && r@[i]->V4_0.spec_prefix_len() == 24,
        forall|i: int, j: int|
            0 <= i < j < r@.len() ==> r@[i]->V4_0.spec_addr() < r@[j]->V4_0.spec_addr(),
        forall|n: u32|
            local_net_addrs(interfaces@).contains(n) <==> exists|i: int|
                0 <= i < r@.len() && (#[trigger] r@[i])->V4_0.spec_addr() == n,
{
    let mut nets: Vec<u32> = Vec::new();
    let mut k: usize = 0;
    while k < interfaces.len()
        invariant
            k <= interfaces.len(),
            ascending(nets@),
            forall|n: u32|
                nets@.contains(n) <==> local_net_addrs(interfaces@.take(k as int)).contains(n),
        decreases interfaces.len() - k,
    {
        let ghost seen = interfaces@.take(k as int);
        let ghost next = interfaces@.take(k + 1);
        let ghost before = nets@;
        let addr = interfaces[k];
        let mut added: Option<u32> = None;
        if let HostAddr::V4(ip) = addr {
            if ip / 0x100_0000 != 127 {
                added = Some(ip - ip % 256);
                insert_ascending(&mut nets, ip - ip % 256);
            }
        }
        proof {
            assert forall|n: u32|
                nets@.contains(n) <==> local_net_addrs(next).contains(n) by {
                assert(nets@.contains(n) <==> (before.contains(n) || added == Some(n)));
                if local_net_addrs(next).contains(n) {
                    let w = choose|w: int|
                        0 <= w < next.len() && #[trigger] next[w] is V4 && !is_loopback(
                            next[w]->V4_0,
                        ) && default_net_addr(next[w]->V4_0) == n;
                    if w < k {
                        assert(seen[w] == next[w]);
                        assert(local_net_addrs(seen).contains(n));
                    }
                }
                if local_net_addrs(seen).contains(n) {
                    let w = choose|w: int|
                        0 <= w < seen.len() && #[trigger] seen[w] is V4 && !is_loopback(
                            seen[w]->V4_0,
                        ) && default_net_addr(seen[w]->V4_0) == n;
                    assert(next[w] == seen[w]);
                }
                if added == Some(n) {
                    assert(next[k as int] == addr);
                }
            }
        }
        k += 1;
    }
    assert(interfaces@.take(interfaces@.len() as int) =~= interfaces@);
    let mut out: Vec<IpNet> = Vec::new();
    let mut i: usize = 0;
    while i < nets.len()
        invariant
            i <= nets.len(),
            out@.len() == i,
            forall|t: int|
                0 <= t < i ==> (#[trigger] out@[t]) is V4 && out@[t]->V4_0.spec_prefix_len() == 24
                    && out@[t]->V4_0.spec_addr() == nets@[t],
        decreases nets.len() - i,
    {
        out.push(IpNet::V4(Ipv4Net { addr: nets[i], prefix_len: 24 }));
        i += 1;
    }
    proof {
        assert forall|n: u32|
            local_net_addrs(interfaces@).contains(n) <==> exists|i: int|
                0 <= i < out@.len() && (#[trigger] out@[i])->V4_0.spec_addr() == n by {
            if nets@.contains(n) {
                let t = choose|t: int| 0 <= t < nets@.len() && nets@[t] == n;
                assert(out@[t]->V4_0.spec_addr() == n);
            }
            if exists|i: int| 0 <= i < out@.len() && (#[trigger] out@[i])->V4_0.spec_addr() == n {
                let t = choose|t: int|
                    0 <= t < out@.len() && (#[trigger] out@[t])->V4_0.spec_addr() == n;
                assert(nets@[t] == n);
            }
        }
    }
    out
}

} // verus!
