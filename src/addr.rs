//! IP addresses, IPv4 network blocks, and the subnet heuristic.
use vstd::prelude::*;

verus! {

/// An IP address as resolved for a host: IPv4 as a 32-bit number (first
/// octet most significant), IPv6 as a 128-bit number.
#[derive(Debug, Clone, Copy, PartialEq, Eq, Structural)]
pub enum IpAddress {
    V4(u32),
    V6(u128),
}

/// The 32-bit number of the dotted quad `a.b.c.d`.
pub open spec fn quad(a: u8, b: u8, c: u8, d: u8) -> int {
    a as int * 16777216 + b as int * 65536 + c as int * 256 + d as int
}

impl IpAddress {
    /// The IPv4 address `a.b.c.d`.
    pub fn v4(a: u8, b: u8, c: u8, d: u8) -> (r: IpAddress)
        ensures
            r == IpAddress::V4(quad(a, b, c, d) as u32),
            quad(a, b, c, d) < 0x1_0000_0000,
    {
        let n: u32 = a as u32 * 16777216 + b as u32 * 65536 + c as u32 * 256 + d as u32;
        IpAddress::V4(n)
    }

    /// The IPv6 address whose 128-bit number is `n`.
    pub fn v6(n: u128) -> (r: IpAddress)
        ensures
            r == IpAddress::V6(n),
    {
        IpAddress::V6(n)
    }
}

/// An IPv4 network block: a base address and a prefix length. Only the first
/// `prefix_len` bits of the base address take part in containment; a prefix
/// length over 32 (which the parser never produces) acts as 32.
#[derive(Debug, Clone, Copy, PartialEq, Eq, Structural)]
pub struct Subnet {
    pub addr: u32,
    pub prefix_len: u8,
}

/// Whether `a` and `net` agree on their first `prefix` bits.
pub open spec fn in_block(net: u32, prefix: u8, a: u32) -> bool {
    if prefix == 0 {
        true
    } else if prefix >= 32 {
        a == net
    } else {
        a >> ((32 - prefix) as u32) == net >> ((32 - prefix) as u32)
    }
}

/// Whether the address lies in the block; IPv6 addresses lie in no IPv4 block.
pub open spec fn addr_in_subnet(ip: IpAddress, net: Subnet) -> bool {
    match ip {
        IpAddress::V4(a) => in_block(net.addr, net.prefix_len, a),
        IpAddress::V6(_) => false,
    }
}

/// Whether some address of `ips` lies in some block of `nets`.
pub open spec fn any_in_subnets(ips: Seq<IpAddress>, nets: Seq<Subnet>) -> bool {
    exists|i: int, j: int|
        0 <= i < ips.len() && 0 <= j < nets.len() && #[trigger] addr_in_subnet(ips[i], nets[j])
}

/// The text of a block could not be read as `a.b.c.d/prefix`.
#[derive(Debug, Clone, Copy, PartialEq, Eq, Structural)]
pub struct SubnetParseError;

/// What ipnet's `Ipv4Net` parser makes of a text: the base address as a
/// 32-bit number and the prefix length, or nothing where the text is no block.
pub uninterp spec fn ipv4_net_of(s: Seq<char>) -> Option<(u32, u8)>;

/// Relies on `<ipnet::Ipv4Net as FromStr>::from_str` and its `addr` and
/// `prefix_len`: the outcome depends on the text alone, and a parsed prefix
/// length is at most 32 (`Ipv4Net::new` refuses more).
#[verifier::external_body]
fn parse_ipv4_net(s: &str) -> (r: Option<(u32, u8)>)
    ensures
        r == ipv4_net_of(s@),
        r matches Some(p) ==> p.1 <= 32,
{
    match s.parse::<ipnet::Ipv4Net>() {
        Ok(net) => Some((u32::from(net.addr()), net.prefix_len())),
        Err(_) => None,
    }
}

/// The block that a text denotes, where it denotes one.
pub open spec fn subnet_of(s: Seq<char>) -> Option<Subnet> {
    match ipv4_net_of(s) {
        Some(p) => Some(Subnet { addr: p.0, prefix_len: p.1 }),
        None => None,
    }
}

/// The blocks of the lines that denote one, in line order; the others are
/// left out.
pub open spec fn subnets_of(lines: Seq<Seq<char>>) -> Seq<Subnet>
    decreases lines.len(),
{
    if lines.len() == 0 {
        Seq::empty()
    } else {
        let before = subnets_of(lines.drop_last());
        match subnet_of(lines.last()) {
            Some(net) => before.push(net),
            None => before,
        }
    }
}

/// The views of a sequence of strings.
pub open spec fn texts(lines: Seq<String>) -> Seq<Seq<char>> {
    lines.map_values(|l: String| l@)
}

impl Subnet {
    /// Reads a block written `a.b.c.d/prefix`.
    pub fn parse(s: &str) -> (r: Result<Subnet, SubnetParseError>)
        ensures
            match subnet_of(s@) {
                Some(net) => r == Ok::<Subnet, SubnetParseError>(net) && net.prefix_len <= 32,
                None => r == Err::<Subnet, SubnetParseError>(SubnetParseError),
            },
    {
        match parse_ipv4_net(s) {
            Some((addr, prefix_len)) => Ok(Subnet { addr, prefix_len }),
            None => Err(SubnetParseError),
        }
    }

    /// Whether the IPv4 address `a` lies in this block.
    pub fn contains_v4(&self, a: u32) -> (r: bool)
        ensures
            r == in_block(self.addr, self.prefix_len, a),
    {
        if self.prefix_len == 0 {
            true
        } else if self.prefix_len >= 32 {
            a == self.addr
        } else {
            let shift: u32 = (32 - self.prefix_len) as u32;
            (a >> shift) == (self.addr >> shift)
        }
    }

    /// Whether the address lies in this block; never for an IPv6 address.
    pub fn contains(&self, ip: &IpAddress) -> (r: bool)
        ensures
            r == addr_in_subnet(*ip, *self),
    {
        match ip {
            IpAddress::V4(a) => self.contains_v4(*a),
            IpAddress::V6(_) => false,
        }
    }
}

impl core::str::FromStr for Subnet {
    type Err = SubnetParseError;

    fn from_str(s: &str) -> Result<Subnet, SubnetParseError> {
        Subnet::parse(s)
    }
}

/// The subnet table of a list of lines: each line that reads as a block
/// gives one, in line order; a line that does not is skipped.
pub fn subnets_from_lines(lines: &Vec<String>) -> (r: Vec<Subnet>)
    ensures
        r@ == subnets_of(texts(lines@)),
{
    let mut r: Vec<Subnet> = Vec::new();
    let mut i: usize = 0;
    while i < lines.len()
        invariant
            0 <= i <= lines@.len(),
            r@ == subnets_of(texts(lines@).take(i as int)),
        decreases lines@.len() - i,
    {
        assert(texts(lines@).take(i + 1).drop_last() == texts(lines@).take(i as int));
        if let Ok(net) = Subnet::parse(lines[i].as_str()) {
            r.push(net);
        }
        i = i + 1;
    }
    assert(texts(lines@).take(lines@.len() as int) == texts(lines@));
    r
}

/// Whether at least one IPv4 address of `ips` lies in at least one block of
/// `subnets`. An empty table matches nothing, and IPv6 addresses never match.
pub fn bigip_by_ip(ips: &[IpAddress], subnets: &[Subnet]) -> (r: bool)
    ensures
        r == any_in_subnets(ips@, subnets@),
{
    let mut i: usize = 0;
    while i < ips.len()
        invariant
            0 <= i <= ips@.len(),
            forall|k: int, j: int|
                0 <= k < i && 0 <= j < subnets@.len() ==> !#[trigger] addr_in_subnet(ips@[k], subnets@[j]),
        decreases ips@.len() - i,
    {
        let mut j: usize = 0;
        while j < subnets.len()
            invariant
                0 <= i < ips@.len(),
                0 <= j <= subnets@.len(),
                forall|k: int, l: int|
                    0 <= k < i && 0 <= l < subnets@.len() ==> !#[trigger] addr_in_subnet(ips@[k], subnets@[l]),
                forall|l: int| 0 <= l < j ==> !#[trigger] addr_in_subnet(ips@[i as int], subnets@[l]),
            decreases subnets@.len() - j,
        {
            if subnets[j].contains(&ips[i]) {
                return true;
            }
            j = j + 1;
        }
        i = i + 1;
    }
    false
}

/// An empty subnet table matches no address.
pub proof fn lemma_empty_table_matches_nothing(ips: Seq<IpAddress>)
    ensures
        !any_in_subnets(ips, Seq::empty()),
{
}

/// IPv6 addresses never match: a list that holds no IPv4 address matches no
/// table.
pub proof fn lemma_ipv6_never_matches(ips: Seq<IpAddress>, nets: Seq<Subnet>)
    requires
        forall|i: int| 0 <= i < ips.len() ==> (#[trigger] ips[i]) is V6,
    ensures
        !any_in_subnets(ips, nets),
{
    assert forall|i: int, j: int| 0 <= i < ips.len() && 0 <= j < nets.len() implies
        !#[trigger] addr_in_subnet(ips[i], nets[j]) by {
        assert(ips[i] is V6);
    }
}

} // verus!
