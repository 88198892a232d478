//! The proxy's configuration: network policies, NO_PROXY entries, and the
//! rules that map subnets to policies.
use vstd::prelude::*;
use crate::net::{Ipv4Net, ipv4_text, parse_ipv4};
use crate::text::{contains_substring, dec_text, has_char, has_substring};

verus! {

/// What `netaddr2::Netv4Addr::from_str` makes of a text: an address and a
/// mask, or nothing.
pub uninterp spec fn netv4_parse_of(s: Seq<char>) -> Option<(u32, u32)>;

/// The netmask with the `n` leading bits set, for `n` up to 32.
pub open spec fn prefix_mask(n: u32) -> u32 {
    if n >= 32 {
        0xffff_ffff
    } else {
        !(0xffff_ffffu32 >> n)
    }
}

/// Whether a mask is a prefix mask.
pub open spec fn is_prefix_mask(m: u32) -> bool {
    exists|n: u32| n <= 32 && #[trigger] prefix_mask(n) == m
}

/// How a netmask is written after the `/`: its prefix length where it is a
/// prefix mask, the dotted mask otherwise.
pub open spec fn mask_text(m: u32) -> Seq<char> {
    if is_prefix_mask(m) {
        dec_text((choose|n: u32| n <= 32 && #[trigger] prefix_mask(n) == m) as nat)
    } else {
        ipv4_text(m)
    }
}

/// The text that `netaddr2::Netv4Addr`'s `Display` writes: the masked
/// address, a `/`, and the mask.
pub open spec fn netv4_text_spec(addr: u32, mask: u32) -> Seq<char> {
    ipv4_text(addr & mask) + seq!['/'] + mask_text(mask)
}

/// A network in canonical CIDR form, `a.b.c.d/n`.
pub open spec fn cidr_text(addr: u32, n: u32) -> Seq<char> {
    ipv4_text(addr) + seq!['/'] + dec_text(n as nat)
}

/// Relies on `netaddr2::Netv4Addr::from_str`, which reads `a.b.c.d/n`,
/// `a.b.c.d/m.m.m.m` or `a.b.c.d m.m.m.m` and keeps the address masked
/// (`Netv4Addr::new`). On `a.b.c.d/n` with `n` up to 32 it reads the address
/// with `std`'s `Ipv4Addr`, the length with `u32::from_str`, and takes the
/// mask `u32::MAX ^ (u32::MAX >> n)` (all ones for 32).
#[verifier::external_body]
pub(crate) fn parse_netv4(s: &str) -> (r: Option<(u32, u32)>)
    ensures
        r == netv4_parse_of(s@),
        r matches Some((a, m)) ==> a & m == a,
        forall|a: u32, n: u32|
            n <= 32 && s@ == #[trigger] cidr_text(a, n) ==> r == Some(
                (a & prefix_mask(n), prefix_mask(n)),
            ),
{
    match s.parse::<netaddr2::Netv4Addr>() {
        Ok(n) => Some((u32::from(n.addr()), u32::from(n.mask()))),
        Err(_) => None,
    }
}

/// Relies on `netaddr2::Netv4Addr::new` and its `Display`: the text is the
/// masked address as `Ipv4Addr` writes it, a `/`, and the prefix length where
/// the mask is a prefix mask (`count_ones`), the dotted mask otherwise; and
/// `Netv4Addr::from_str` reads it back to the same network.
#[verifier::external_body]
fn netv4_text(addr: u32, mask: u32) -> (r: String)
    ensures
        r@ == netv4_text_spec(addr, mask),
        netv4_parse_of(r@) == Some((addr & mask, mask)),
{
    netaddr2::Netv4Addr::new(addr.into(), mask.into()).to_string()
}

/// A NO_PROXY entry, as the contracts see it.
pub enum NoProxySpec {
    Host(Seq<char>),
    Subnet(Ipv4Net),
}

/// A NO_PROXY entry: a host name part, or an IPv4 network.
#[derive(Clone, Debug)]
pub enum NoProxyValue {
    Host(String),
    Subnet(Ipv4Net),
}

impl View for NoProxyValue {
    type V = NoProxySpec;

    open spec fn view(&self) -> NoProxySpec {
        match self {
            NoProxyValue::Host(h) => NoProxySpec::Host(h@),
            NoProxyValue::Subnet(n) => NoProxySpec::Subnet(*n),
        }
    }
}

/// The entry that a text denotes: a network where it holds a `/`, a host
/// name part otherwise; nothing where the network does not parse.
pub open spec fn no_proxy_of(s: Seq<char>) -> Option<NoProxySpec> {
    if s.contains('/') {
        match netv4_parse_of(s) {
            Some((a, m)) => Some(NoProxySpec::Subnet(Ipv4Net { addr: a, mask: m })),
            None => None,
        }
    } else {
        Some(NoProxySpec::Host(s))
    }
}

/// The text of an entry.
pub open spec fn no_proxy_text(v: NoProxySpec) -> Seq<char> {
    match v {
        NoProxySpec::Host(h) => h,
        NoProxySpec::Subnet(n) => netv4_text_spec(n.addr, n.mask),
    }
}

/// Whether an entry matches a target host: a host name part where the
/// target holds it, a network where the target is an IPv4 literal inside it.
/// No name is resolved.
pub open spec fn no_proxy_matches(v: NoProxySpec, target: Seq<char>) -> bool {
    match v {
        NoProxySpec::Host(h) => has_substring(target, h),
        NoProxySpec::Subnet(n) => exists|a: u32| target == #[trigger] ipv4_text(a) && n.spec_contains(a),
    }
}

/// Whether an entry is one that reading a text can give: a host name part
/// without `/`, or a network whose address is masked.
pub open spec fn is_canonical(v: NoProxySpec) -> bool {
    match v {
        NoProxySpec::Host(h) => !h.contains('/'),
        NoProxySpec::Subnet(n) => n.addr & n.mask == n.addr,
    }
}

/// A text without `/` is read as a host name part and written back as it
/// stands, so for host names writing what was read gives the text again.
pub proof fn lemma_host_text_round_trip(s: Seq<char>)
    requires
        !s.contains('/'),
    ensures
        no_proxy_of(s) == Some(NoProxySpec::Host(s)),
        no_proxy_text(NoProxySpec::Host(s)) == s,
        is_canonical(NoProxySpec::Host(s)),
{
}

/// Distinct lengths give distinct prefix masks.
proof fn lemma_prefix_mask_injective(n1: u32, n2: u32)
    requires
        n1 <= 32,
        n2 <= 32,
        prefix_mask(n1) == prefix_mask(n2),
    ensures
        n1 == n2,
{
    assert(n1 <= 32 && n2 <= 32 && prefix_mask(n1) == prefix_mask(n2) ==> n1 == n2) by (bit_vector);
}

/// A network in canonical CIDR form is written back as the same text: a
/// `a.b.c.d/n` whose host bits are zero is what `Display` gives for that
/// address and the prefix mask of `n`, which is what `from_str` reads from it.
/// So writing what was read gives the text again, for CIDR networks as for
/// host names.
pub proof fn lemma_cidr_text_round_trip(addr: u32, n: u32)
    requires
        n <= 32,
        addr & prefix_mask(n) == addr,
    ensures
        netv4_text_spec(addr, prefix_mask(n)) == cidr_text(addr, n),
        no_proxy_text(NoProxySpec::Subnet(Ipv4Net { addr, mask: prefix_mask(n) })) == cidr_text(addr, n),
        cidr_text(addr, n).contains('/'),
{
    let m = prefix_mask(n);
    assert(is_prefix_mask(m));
    let k = choose|k: u32| k <= 32 && #[trigger] prefix_mask(k) == m;
    lemma_prefix_mask_injective(k, n);
    assert(cidr_text(addr, n)[ipv4_text(addr).len() as int] == '/');
}

/// Why a NO_PROXY text was refused.
#[derive(Clone, Debug, PartialEq, Eq)]
pub enum NoProxyError {
    /// The text holds a `/` but is no IPv4 network.
    InvalidSubnet(String),
}

impl NoProxyValue {
    /// Reads an entry: a text with a `/` is an IPv4 network, any other text
    /// a host name part.
    pub fn from_str(s: &str) -> (r: Result<NoProxyValue, NoProxyError>)
        ensures
            r matches Ok(v) ==> no_proxy_of(s@) == Some(v@) && is_canonical(v@),
            r matches Err(NoProxyError::InvalidSubnet(t)) ==> no_proxy_of(s@) is None && t@ == s@,
            forall|a: u32, n: u32|
                n <= 32 && s@ == #[trigger] cidr_text(a, n) ==> r == Ok::<NoProxyValue, NoProxyError>(
                    NoProxyValue::Subnet(Ipv4Net { addr: a & prefix_mask(n), mask: prefix_mask(n) }),
                ),
    {
        proof {
            assert forall|a: u32, n: u32| n <= 32 && s@ == #[trigger] cidr_text(a, n) implies s@.contains(
                '/',
            ) by {
                assert(s@[ipv4_text(a).len() as int] == '/');
            }
        }
        if has_char(s, '/') {
            match parse_netv4(s) {
                Some((addr, mask)) => Ok(NoProxyValue::Subnet(Ipv4Net { addr, mask })),
                None => Err(NoProxyError::InvalidSubnet(s.to_owned())),
            }
        } else {
            Ok(NoProxyValue::Host(s.to_owned()))
        }
    }

    /// The entry's text: the host name part, or the network as `netaddr2`
    /// writes it. Read back, the text of an entry that `from_str` made gives
    /// the same entry, so reading a text and writing it out is idempotent.
    pub fn to_string(&self) -> (r: String)
        ensures
            r@ == no_proxy_text(self@),
            is_canonical(self@) ==> no_proxy_of(r@) == Some(self@),
    {
        match self {
            NoProxyValue::Host(h) => h.clone(),
            NoProxyValue::Subnet(n) => {
                let r = netv4_text(n.addr, n.mask);
                assert(r@[ipv4_text(n.addr & n.mask).len() as int] == '/');
                r
            },
        }
    }

    /// Whether this entry sends `other_host` around the proxy.
    pub fn matches_host(&self, other_host: &str) -> (r: bool)
        ensures
            r == no_proxy_matches(self@, other_host@),
    {
        match self {
            NoProxyValue::Host(h) => contains_substring(other_host, h.as_str()),
            NoProxyValue::Subnet(n) => {
                match parse_ipv4(other_host) {
                    Some(a) => n.contains(a),
                    None => false,
                }
            },
        }
    }
}

impl PartialEq for NoProxyValue {
    fn eq(&self, other: &NoProxyValue) -> (r: bool) {
        same_entry(self, other)
    }
}

impl vstd::std_specs::cmp::PartialEqSpecImpl for NoProxyValue {
    open spec fn obeys_eq_spec() -> bool {
        true
    }

    open spec fn eq_spec(&self, other: &NoProxyValue) -> bool {
        self@ == other@
    }
}

/// Whether two entries are the same.
pub fn same_entry(a: &NoProxyValue, b: &NoProxyValue) -> (r: bool)
    ensures
        r == (a@ == b@),
{
    match (a, b) {
        (NoProxyValue::Host(x), NoProxyValue::Host(y)) => *x == *y,
        (NoProxyValue::Subnet(x), NoProxyValue::Subnet(y)) => x.addr == y.addr && x.mask == y.mask,
        _ => false,
    }
}

/// The entries of a list, as the contracts see them.
pub open spec fn entries_view(v: Seq<NoProxyValue>) -> Seq<NoProxySpec> {
    v.map_values(|e: NoProxyValue| e@)
}

/// Whether two lists hold the same entries in the same order.
pub fn same_entries(a: &Vec<NoProxyValue>, b: &Vec<NoProxyValue>) -> (r: bool)
    ensures
        r == (entries_view(a@) == entries_view(b@)),
{
    if a.len() != b.len() {
        assert(entries_view(a@).len() != entries_view(b@).len());
        return false;
    }
    let mut i: usize = 0;
    while i < a.len()
        invariant
            a@.len() == b@.len(),
            i <= a@.len(),
            forall|k: int| 0 <= k < i ==> a@[k]@ == b@[k]@,
        decreases a@.len() - i,
    {
        if !same_entry(&a[i], &b[i]) {
            assert(entries_view(a@)[i as int] != entries_view(b@)[i as int]);
            return false;
        }
        i = i + 1;
    }
    assert(entries_view(a@) =~= entries_view(b@));
    true
}

/// A copy of a list of entries.
pub fn copy_entries(v: &Vec<NoProxyValue>) -> (r: Vec<NoProxyValue>)
    ensures
        entries_view(r@) == entries_view(v@),
{
    let mut out: Vec<NoProxyValue> = Vec::new();
    let mut i: usize = 0;
    while i < v.len()
        invariant
            i <= v@.len(),
            out@.len() == i,
            forall|k: int| 0 <= k < i ==> out@[k]@ == v@[k]@,
        decreases v@.len() - i,
    {
        let e = match &v[i] {
            NoProxyValue::Host(h) => NoProxyValue::Host(h.clone()),
            NoProxyValue::Subnet(n) => NoProxyValue::Subnet(*n),
        };
        out.push(e);
        i = i + 1;
    }
    assert(entries_view(out@) =~= entries_view(v@));
    out
}

/// A network policy, as the contracts see it.
pub enum ProxyConfigSpec {
    Direct,
    Proxy { host: Seq<char>, port: u32, no_proxy: Seq<NoProxySpec> },
}

/// A network policy: dial origins directly, or tunnel through an upstream
/// proxy except for targets that a NO_PROXY entry matches.
#[derive(Clone, Debug)]
pub enum ProxyConfig {
    Direct,
    Proxy { host: String, port: u32, no_proxy: Vec<NoProxyValue> },
}

impl View for ProxyConfig {
    type V = ProxyConfigSpec;

    open spec fn view(&self) -> ProxyConfigSpec {
        match self {
            ProxyConfig::Direct => ProxyConfigSpec::Direct,
            ProxyConfig::Proxy { host, port, no_proxy } => ProxyConfigSpec::Proxy {
                host: host@,
                port: *port,
                no_proxy: entries_view(no_proxy@),
            },
        }
    }
}

impl ProxyConfig {
    /// Whether two policies are the same.
    pub fn same_as(&self, other: &ProxyConfig) -> (r: bool)
        ensures
            r == (self@ == other@),
    {
        match (self, other) {
            (ProxyConfig::Direct, ProxyConfig::Direct) => true,
            (
                ProxyConfig::Proxy { host: h1, port: port_a, no_proxy: n1 },
                ProxyConfig::Proxy { host: h2, port: port_b, no_proxy: n2 },
            ) => *h1 == *h2 && *port_a == *port_b && same_entries(n1, n2),
            _ => false,
        }
    }

    /// A copy of this policy.
    pub fn duplicate(&self) -> (r: ProxyConfig)
        ensures
            r@ == self@,
    {
        match self {
            ProxyConfig::Direct => ProxyConfig::Direct,
            ProxyConfig::Proxy { host, port, no_proxy } => ProxyConfig::Proxy {
                host: host.clone(),
                port: *port,
                no_proxy: copy_entries(no_proxy),
            },
        }
    }
}

impl PartialEq for ProxyConfig {
    fn eq(&self, other: &ProxyConfig) -> (r: bool) {
        self.same_as(other)
    }
}

impl vstd::std_specs::cmp::PartialEqSpecImpl for ProxyConfig {
    open spec fn obeys_eq_spec() -> bool {
        true
    }

    open spec fn eq_spec(&self, other: &ProxyConfig) -> bool {
        self@ == other@
    }
}

impl Default for ProxyConfig {
    fn default() -> (r: ProxyConfig)
        ensures
            r@ == ProxyConfigSpec::Direct,
    {
        ProxyConfig::Direct
    }
}

/// What a rule of the configuration matches: any network, or the hosts that
/// have an address in a given one.
#[derive(Clone, Copy, Debug, PartialEq, Eq, Structural)]
pub enum SubNetKey {
    Default,
    Subnet(Ipv4Net),
}

/// The configuration: the port to listen on, and the rules that pick a
/// policy, first match first.
#[derive(Clone, Debug)]
pub struct Config {
    pub port: u32,
    pub subnets: Vec<(SubNetKey, ProxyConfig)>,
}

/// A configuration's rules, as the contracts see them.
pub open spec fn rules_view(v: Seq<(SubNetKey, ProxyConfig)>) -> Seq<(SubNetKey, ProxyConfigSpec)> {
    v.map_values(|r: (SubNetKey, ProxyConfig)| (r.0, r.1@))
}

/// A host name entry.
fn host_entry(name: &str) -> (r: NoProxyValue)
    ensures
        r@ == NoProxySpec::Host(name@),
{
    NoProxyValue::Host(name.to_owned())
}

/// The entries that both corporate networks bypass the proxy for.
fn corporate_entries() -> (r: Vec<NoProxyValue>)
    ensures
        entries_view(r@) == seq![
            NoProxySpec::Host("localhost"@),
            NoProxySpec::Host("rvaonem.priv"@),
            NoProxySpec::Host("rvaonem.fgov.be"@),
            NoProxySpec::Host("169.254.169.254"@),
            NoProxySpec::Host("cloud.rvadc.be"@),
            NoProxySpec::Host("onemrva.priv"@),
        ],
{
    let mut v: Vec<NoProxyValue> = Vec::new();
    v.push(host_entry("localhost"));
    v.push(host_entry("rvaonem.priv"));
    v.push(host_entry("rvaonem.fgov.be"));
    v.push(host_entry("169.254.169.254"));
    v.push(host_entry("cloud.rvadc.be"));
    v.push(host_entry("onemrva.priv"));
    assert(entries_view(v@) =~= seq![
        NoProxySpec::Host("localhost"@),
        NoProxySpec::Host("rvaonem.priv"@),
        NoProxySpec::Host("rvaonem.fgov.be"@),
        NoProxySpec::Host("169.254.169.254"@),
        NoProxySpec::Host("cloud.rvadc.be"@),
        NoProxySpec::Host("onemrva.priv"@),
    ]);
    v
}

/// The corporate proxy that both corporate networks use.
pub open spec fn corporate_proxy(no_proxy: Seq<NoProxySpec>) -> ProxyConfigSpec {
    ProxyConfigSpec::Proxy { host: "proxygate.onemrva.priv"@, port: 8888, no_proxy }
}

impl Default for Config {
    /// Listens on 3333; on 10.80.0.0/16 and 10.130.0.0/16 goes through the
    /// corporate proxy, elsewhere directly.
    fn default() -> (r: Config)
        ensures
            r.port == 3333,
            rules_view(r.subnets@) == seq![
                (
                    SubNetKey::Subnet(Ipv4Net { addr: 0x0a50_0000, mask: 0xffff_0000 }),
                    corporate_proxy(
                        seq![
                            NoProxySpec::Host("localhost"@),
                            NoProxySpec::Host("rvaonem.priv"@),
                            NoProxySpec::Host("rvaonem.fgov.be"@),
                            NoProxySpec::Host("169.254.169.254"@),
                            NoProxySpec::Host("cloud.rvadc.be"@),
                            NoProxySpec::Host("onemrva.priv"@),
                            NoProxySpec::Host("teams.microsoft.com"@),
                            NoProxySpec::Host("google.com"@),
                        ],
                    ),
                ),
                (
                    SubNetKey::Subnet(Ipv4Net { addr: 0x0a82_0000, mask: 0xffff_0000 }),
                    corporate_proxy(
                        seq![
                            NoProxySpec::Host("localhost"@),
                            NoProxySpec::Host("rvaonem.priv"@),
                            NoProxySpec::Host("rvaonem.fgov.be"@),
                            NoProxySpec::Host("169.254.169.254"@),
                            NoProxySpec::Host("cloud.rvadc.be"@),
                            NoProxySpec::Host("onemrva.priv"@),
                        ],
                    ),
                ),
                (SubNetKey::Default, ProxyConfigSpec::Direct),
            ],
    {
        let mut office = corporate_entries();
        let ghost shared = office@;
        office.push(host_entry("teams.microsoft.com"));
        office.push(host_entry("google.com"));
        assert(entries_view(office@) =~= seq![
            NoProxySpec::Host("localhost"@),
            NoProxySpec::Host("rvaonem.priv"@),
            NoProxySpec::Host("rvaonem.fgov.be"@),
            NoProxySpec::Host("169.254.169.254"@),
            NoProxySpec::Host("cloud.rvadc.be"@),
            NoProxySpec::Host("onemrva.priv"@),
            NoProxySpec::Host("teams.microsoft.com"@),
            NoProxySpec::Host("google.com"@),
        ]) by {
            assert(entries_view(shared).len() == 6);
            assert forall|k: int| 0 <= k < 6 implies entries_view(office@)[k] == entries_view(
                shared,
            )[k] by {}
        }
        let campus = corporate_entries();
        let mut subnets: Vec<(SubNetKey, ProxyConfig)> = Vec::new();
        subnets.push(
            (
                SubNetKey::Subnet(Ipv4Net { addr: 0x0a50_0000, mask: 0xffff_0000 }),
                ProxyConfig::Proxy {
                    host: "proxygate.onemrva.priv".to_owned(),
                    port: 8888,
                    no_proxy: office,
                },
            ),
        );
        subnets.push(
            (
                SubNetKey::Subnet(Ipv4Net { addr: 0x0a82_0000, mask: 0xffff_0000 }),
                ProxyConfig::Proxy {
                    host: "proxygate.onemrva.priv".to_owned(),
                    port: 8888,
                    no_proxy: campus,
                },
            ),
        );
        subnets.push((SubNetKey::Default, ProxyConfig::Direct));
        let r = Config { port: 3333, subnets };
        assert(rules_view(r.subnets@) =~= seq![
            (
                SubNetKey::Subnet(Ipv4Net { addr: 0x0a50_0000, mask: 0xffff_0000 }),
                corporate_proxy(
                    seq![
                        NoProxySpec::Host("localhost"@),
                        NoProxySpec::Host("rvaonem.priv"@),
                        NoProxySpec::Host("rvaonem.fgov.be"@),
                        NoProxySpec::Host("169.254.169.254"@),
                        NoProxySpec::Host("cloud.rvadc.be"@),
                        NoProxySpec::Host("onemrva.priv"@),
                        NoProxySpec::Host("teams.microsoft.com"@),
                        NoProxySpec::Host("google.com"@),
                    ],
                ),
            ),
            (
                SubNetKey::Subnet(Ipv4Net { addr: 0x0a82_0000, mask: 0xffff_0000 }),
                corporate_proxy(
                    seq![
                        NoProxySpec::Host("localhost"@),
                        NoProxySpec::Host("rvaonem.priv"@),
                        NoProxySpec::Host("rvaonem.fgov.be"@),
                        NoProxySpec::Host("169.254.169.254"@),
                        NoProxySpec::Host("cloud.rvadc.be"@),
                        NoProxySpec::Host("onemrva.priv"@),
                    ],
                ),
            ),
            (SubNetKey::Default, ProxyConfigSpec::Direct),
        ]);
        r
    }
}

} // verus!
