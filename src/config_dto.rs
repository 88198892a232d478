//! The configuration as its file states it, and how it becomes a `Config`.
use vstd::prelude::*;
use crate::config::{
    netv4_parse_of, no_proxy_of, rules_view, Config, NoProxyError, NoProxySpec, NoProxyValue,
    ProxyConfig, ProxyConfigSpec, SubNetKey, entries_view,
};
use crate::net::Ipv4Net;

verus! {

/// The configuration file: the port, and the rules in order.
pub struct ConfigDto {
    pub port: u32,
    pub subnets: Vec<ProxyConfigDto>,
}

/// One rule of the configuration file: `Direct` matches any network; a
/// `Proxy` rule names a network and the proxy to use there.
pub enum ProxyConfigDto {
    Direct,
    Proxy(ProxySubnet),
}

/// A proxied network of the configuration file.
pub struct ProxySubnet {
    pub ip_range: String,
    pub proxy_host: String,
    pub proxy_port: u32,
    pub no_proxy: Vec<String>,
}

/// Why a configuration file was refused.
#[derive(Clone, Debug, PartialEq, Eq)]
pub enum ConfigError {
    /// A network range, or a NO_PROXY entry with a `/`, that is no IPv4 network.
    InvalidSubnet(String),
}

/// The entries that a list of NO_PROXY texts denotes, where each of them reads.
pub open spec fn entries_of(texts: Seq<String>) -> Option<Seq<NoProxySpec>> {
    if forall|i: int| 0 <= i < texts.len() ==> (#[trigger] no_proxy_of(texts[i]@)) is Some {
        Some(Seq::new(texts.len(), |i: int| no_proxy_of(texts[i]@)->Some_0))
    } else {
        None
    }
}

/// The rule that a rule of the file denotes, where its texts read.
pub open spec fn rule_of(d: ProxyConfigDto) -> Option<(SubNetKey, ProxyConfigSpec)> {
    match d {
        ProxyConfigDto::Direct => Some((SubNetKey::Default, ProxyConfigSpec::Direct)),
        ProxyConfigDto::Proxy(p) => match (netv4_parse_of(p.ip_range@), entries_of(p.no_proxy@)) {
            (Some((a, m)), Some(entries)) => Some(
                (
                    SubNetKey::Subnet(Ipv4Net { addr: a, mask: m }),
                    ProxyConfigSpec::Proxy { host: p.proxy_host@, port: p.proxy_port, no_proxy: entries },
                ),
            ),
            _ => None,
        },
    }
}

/// Reads the NO_PROXY texts of a rule.
fn read_entries(texts: &Vec<String>) -> (r: Result<Vec<NoProxyValue>, ConfigError>)
    ensures
        r is Ok <==> entries_of(texts@) is Some,
        r matches Ok(v) ==> entries_of(texts@) == Some(entries_view(v@)),
        r matches Err(ConfigError::InvalidSubnet(t)) ==> netv4_parse_of(t@) is None,
{
    let mut out: Vec<NoProxyValue> = Vec::new();
    let mut i: usize = 0;
    while i < texts.len()
        invariant
            i <= texts@.len(),
            out@.len() == i,
            forall|k: int| 0 <= k < i ==> no_proxy_of(texts@[k]@) == Some(#[trigger] out@[k]@),
        decreases texts@.len() - i,
    {
        match NoProxyValue::from_str(texts[i].as_str()) {
            Ok(v) => out.push(v),
            Err(NoProxyError::InvalidSubnet(t)) => {
                assert(no_proxy_of(texts@[i as int]@) is None);
                return Err(ConfigError::InvalidSubnet(t));
            },
        }
        i = i + 1;
    }
    assert forall|k: int| 0 <= k < texts@.len() implies (#[trigger] no_proxy_of(texts@[k]@)) is Some by {
        assert(no_proxy_of(texts@[k]@) == Some(out@[k]@));
    }
    assert(Seq::new(texts@.len(), |k: int| no_proxy_of(texts@[k]@)->Some_0) =~= entries_view(out@));
    Ok(out)
}

/// Reads the network range of a rule.
fn read_range(text: &String) -> (r: Option<Ipv4Net>)
    ensures
        r matches Some(n) ==> netv4_parse_of(text@) == Some((n.addr, n.mask)),
        r is None ==> netv4_parse_of(text@) is None,
{
    match crate::config::parse_netv4(text.as_str()) {
        Some((addr, mask)) => Some(Ipv4Net { addr, mask }),
        None => None,
    }
}

impl ConfigDto {
    /// The configuration that the file states: `Direct` becomes a rule for
    /// any network, each `Proxy` a rule for its network. Fails where a range
    /// or a NO_PROXY network does not read.
    pub fn to_config(self) -> (r: Result<Config, ConfigError>)
        ensures
            r is Ok <==> forall|i: int|
                0 <= i < self.subnets@.len() ==> (#[trigger] rule_of(self.subnets@[i])) is Some,
            r matches Ok(c) ==> c.port == self.port && rules_view(c.subnets@) == Seq::new(
                self.subnets@.len(),
                |i: int| rule_of(self.subnets@[i])->Some_0,
            ),
            r matches Err(ConfigError::InvalidSubnet(t)) ==> netv4_parse_of(t@) is None,
    {
        let mut subnets: Vec<(SubNetKey, ProxyConfig)> = Vec::new();
        let mut i: usize = 0;
        while i < self.subnets.len()
            invariant
                i <= self.subnets@.len(),
                subnets@.len() == i,
                forall|k: int|
                    0 <= k < i ==> (#[trigger] rule_of(self.subnets@[k])) == Some(
                        (subnets@[k].0, subnets@[k].1@),
                    ),
            decreases self.subnets@.len() - i,
        {
            match &self.subnets[i] {
                ProxyConfigDto::Direct => {
                    subnets.push((SubNetKey::Default, ProxyConfig::Direct));
                },
                ProxyConfigDto::Proxy(p) => {
                    let range = match read_range(&p.ip_range) {
                        Some(n) => n,
                        None => {
                            assert(rule_of(self.subnets@[i as int]) is None);
                            return Err(ConfigError::InvalidSubnet(p.ip_range.clone()));
                        },
                    };
                    let entries = match read_entries(&p.no_proxy) {
                        Ok(v) => v,
                        Err(e) => {
                            assert(rule_of(self.subnets@[i as int]) is None);
                            return Err(e);
                        },
                    };
                    subnets.push(
                        (
                            SubNetKey::Subnet(range),
                            ProxyConfig::Proxy {
                                host: p.proxy_host.clone(),
                                port: p.proxy_port,
                                no_proxy: entries,
                            },
                        ),
                    );
                },
            }
            i = i + 1;
        }
        let r = Config { port: self.port, subnets };
        assert(rules_view(r.subnets@) =~= Seq::new(
            self.subnets@.len(),
            |k: int| rule_of(self.subnets@[k])->Some_0,
        ));
        Ok(r)
    }
}

} // verus!
