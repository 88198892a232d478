//! Choosing the active network policy from the host's IPv4 addresses, and
//! deciding when a new policy is to be published.
use vstd::prelude::*;
use crate::config::{rules_view, Config, ProxyConfig, ProxyConfigSpec, SubNetKey};

verus! {

/// Whether a rule's key matches a host with the given addresses.
pub open spec fn key_matches(k: SubNetKey, ips: Seq<u32>) -> bool {
    match k {
        SubNetKey::Default => true,
        SubNetKey::Subnet(n) => exists|i: int| 0 <= i < ips.len() && n.spec_contains(#[trigger] ips[i]),
    }
}

/// The policy of the first rule at or after `k` that matches.
pub open spec fn select_from(rules: Seq<(SubNetKey, ProxyConfigSpec)>, ips: Seq<u32>, k: int) -> Option<
    ProxyConfigSpec,
>
    decreases rules.len() - k,
{
    if 0 <= k < rules.len() {
        if key_matches(rules[k].0, ips) {
            Some(rules[k].1)
        } else {
            select_from(rules, ips, k + 1)
        }
    } else {
        None
    }
}

/// The policy of the first rule that matches.
pub open spec fn select(rules: Seq<(SubNetKey, ProxyConfigSpec)>, ips: Seq<u32>) -> Option<ProxyConfigSpec> {
    select_from(rules, ips, 0)
}

/// Whether a rule's key matches a host with the addresses `ips`.
pub fn key_matches_ips(key: &SubNetKey, ips: &[u32]) -> (r: bool)
    ensures
        r == key_matches(*key, ips@),
{
    match key {
        SubNetKey::Default => true,
        SubNetKey::Subnet(n) => {
            let mut i: usize = 0;
            while i < ips.len()
                invariant
                    *key == SubNetKey::Subnet(*n),
                    i <= ips@.len(),
                    forall|j: int| 0 <= j < i ==> !n.spec_contains(#[trigger] ips@[j]),
                decreases ips@.len() - i,
            {
                if n.contains(ips[i]) {
                    assert(n.spec_contains(ips@[i as int]));
                    return true;
                }
                i = i + 1;
            }
            false
        },
    }
}

/// The policy that applies to a host with the addresses `ips`: that of the
/// first rule whose key matches, if any does.
pub fn select_proxy_config(config: &Config, ips: &[u32]) -> (r: Option<ProxyConfig>)
    ensures
        match r {
            Some(c) => select(rules_view(config.subnets@), ips@) == Some(c@),
            None => select(rules_view(config.subnets@), ips@) is None,
        },
{
    let ghost rules = rules_view(config.subnets@);
    let mut k: usize = 0;
    while k < config.subnets.len()
        invariant
            rules == rules_view(config.subnets@),
            k <= config.subnets@.len(),
            select_from(rules, ips@, k as int) == select(rules, ips@),
        decreases config.subnets@.len() - k,
    {
        if key_matches_ips(&config.subnets[k].0, ips) {
            return Some(config.subnets[k].1.duplicate());
        }
        k = k + 1;
    }
    None
}

/// The stored policy and the value published after an update: a selected
/// policy that differs from the stored one is stored and published; else
/// nothing changes and nothing is published.
pub open spec fn update_spec(current: ProxyConfigSpec, selected: Option<ProxyConfigSpec>) -> (
    ProxyConfigSpec,
    Option<ProxyConfigSpec>,
) {
    match selected {
        Some(c) => if c == current {
            (current, None)
        } else {
            (c, Some(c))
        },
        None => (current, None),
    }
}

/// No value is published twice in a row: a value published by one update is
/// not published again by the next, whatever it selects, and nothing is
/// published that equals the policy stored before it.
pub proof fn lemma_no_repeated_publish(
    current: ProxyConfigSpec,
    first: Option<ProxyConfigSpec>,
    second: Option<ProxyConfigSpec>,
)
    ensures
        update_spec(current, first).1 matches Some(p) ==> p != current,
        ({
            let (stored, published) = update_spec(current, first);
            published matches Some(p) ==> !(update_spec(stored, second).1 == Some(p))
        }),
{
}

/// The process-wide policy: the one in force, starting from `Direct`.
pub struct PolicyState {
    current: ProxyConfig,
}

impl PolicyState {
    /// The policy in force.
    pub closed spec fn spec_current(&self) -> ProxyConfigSpec {
        self.current@
    }

    /// A state seeded with `Direct`.
    pub fn new() -> (r: PolicyState)
        ensures
            r.spec_current() == ProxyConfigSpec::Direct,
    {
        PolicyState { current: ProxyConfig::Direct }
    }

    /// A copy of the policy in force.
    pub fn current(&self) -> (r: ProxyConfig)
        ensures
            r@ == self.spec_current(),
    {
        self.current.duplicate()
    }

    /// Runs the selection for a host with the addresses `ips` and returns
    /// the policy to publish: the selected one where it differs from the one
    /// in force, which it then replaces; nothing otherwise.
    pub fn on_interfaces(&mut self, config: &Config, ips: &[u32]) -> (r: Option<ProxyConfig>)
        ensures
            ({
                let (stored, published) = update_spec(
                    old(self).spec_current(),
                    select(rules_view(config.subnets@), ips@),
                );
                &&& final(self).spec_current() == stored
                &&& match r {
                    Some(p) => published == Some(p@),
                    None => published is None,
                }
            }),
    {
        match select_proxy_config(config, ips) {
            Some(c) => {
                if c.same_as(&self.current) {
                    None
                } else {
                    let published = c.duplicate();
                    self.current = c;
                    Some(published)
                }
            },
            None => None,
        }
    }
}

} // verus!
