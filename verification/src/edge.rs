//! Which IP version the tunnel uses to reach the edge of its network.

use vstd::prelude::*;

verus! {

/// The port on which the edge is reached.
pub const EDGE_PORT: u16 = 7844;

/// The IP version that was asked for.
#[derive(Clone, Copy, Debug, PartialEq, Eq, Structural)]
pub enum EdgeIpPreference {
    Auto,
    V4,
    V6,
}

/// One address of an edge host, and whether a connection to it came about.
#[derive(Clone, Copy, Debug, PartialEq, Eq, Structural)]
pub struct AddressProbe {
    pub ipv4: bool,
    pub reachable: bool,
}

/// What probing an edge host has shown.
#[derive(Debug)]
pub enum HostProbe {
    /// The name did not resolve, for this reason.
    Unresolved { reason: String },
    /// The name resolved to these addresses.
    Resolved { addresses: Vec<AddressProbe> },
}

/// What probing an edge host has shown, in mathematical terms.
pub enum HostSeen {
    Unresolved { reason: Seq<char> },
    Resolved { addresses: Seq<AddressProbe> },
}

impl View for HostProbe {
    type V = HostSeen;

    open spec fn view(&self) -> HostSeen {
        match *self {
            HostProbe::Unresolved { reason } => HostSeen::Unresolved { reason: reason@ },
            HostProbe::Resolved { addresses } => HostSeen::Resolved { addresses: addresses@ },
        }
    }
}

/// What is known while the edge hosts are probed.
#[derive(Clone, Copy, Debug, PartialEq, Eq, Structural)]
pub struct EdgeProbe {
    /// The first host is done, the second one is next.
    pub first_done: bool,
    pub resolved_any: bool,
    pub reachable_v4: bool,
    pub reachable_v6: bool,
}

/// What is to be done next.
#[derive(Debug)]
pub enum EdgeStep {
    /// Resolve `host`, connect to each of its addresses, and tell `probe` of it.
    Probe { probe: EdgeProbe, host: &'static str },
    /// The IP version, or why none can be recommended.
    Decided { version: Result<&'static str, String> },
}

/// What is to be done next, with its texts as characters.
pub enum EdgeNext {
    Probe { probe: EdgeProbe, host: Seq<char> },
    Decided { version: Result<Seq<char>, Seq<char>> },
}

impl View for EdgeStep {
    type V = EdgeNext;

    open spec fn view(&self) -> EdgeNext {
        match *self {
            EdgeStep::Probe { probe, host } => EdgeNext::Probe { probe, host: host@ },
            EdgeStep::Decided { version } => EdgeNext::Decided {
                version: match version {
                    Ok(v) => Ok(v@),
                    Err(e) => Err(e@),
                },
            },
        }
    }
}

/// The name of an edge host.
pub open spec fn edge_host(second: bool) -> Seq<char> {
    if second {
        "region2.v2.argotunnel.com"@
    } else {
        "region1.v2.argotunnel.com"@
    }
}

/// Why the name `host` did not resolve.
pub open spec fn resolve_error(host: Seq<char>, reason: Seq<char>) -> Seq<char> {
    "DNS resolve failed for "@ + host + ": "@ + reason
}

/// A reachable address of the wanted version is among `addresses`.
pub open spec fn reaches(addresses: Seq<AddressProbe>, ipv4: bool) -> bool {
    exists|i: int|
        0 <= i < addresses.len() && (#[trigger] addresses[i]).reachable && addresses[i].ipv4
            == ipv4
}

/// What the choice is where no version was asked for and the two edge hosts
/// show `first` and `second`: a name that does not resolve ends it, a reachable
/// IPv4 address comes before a reachable IPv6 address, and without either there
/// is no choice.
pub open spec fn edge_choice(first: HostSeen, second: HostSeen) -> Result<Seq<char>, Seq<char>> {
    match (first, second) {
        (HostSeen::Unresolved { reason }, _) => Err(resolve_error(edge_host(false), reason)),
        (_, HostSeen::Unresolved { reason }) => Err(resolve_error(edge_host(true), reason)),
        (HostSeen::Resolved { addresses: a }, HostSeen::Resolved { addresses: b }) => {
            if a.len() == 0 && b.len() == 0 {
                Err("cannot resolve argotunnel DNS records"@)
            } else if reaches(a, true) || reaches(b, true) {
                Ok("4"@)
            } else if reaches(a, false) || reaches(b, false) {
                Ok("6"@)
            } else {
                Err("cannot connect to argotunnel on TCP/7844"@)
            }
        },
    }
}

/// What is known after a host with `addresses`.
pub open spec fn noted(probe: EdgeProbe, addresses: Seq<AddressProbe>) -> EdgeProbe {
    EdgeProbe {
        first_done: true,
        resolved_any: probe.resolved_any || addresses.len() > 0,
        reachable_v4: probe.reachable_v4 || reaches(addresses, true),
        reachable_v6: probe.reachable_v6 || reaches(addresses, false),
    }
}

/// The choice once both hosts are done.
pub open spec fn settled(probe: EdgeProbe) -> Result<Seq<char>, Seq<char>> {
    if !probe.resolved_any {
        Err("cannot resolve argotunnel DNS records"@)
    } else if probe.reachable_v4 {
        Ok("4"@)
    } else if probe.reachable_v6 {
        Ok("6"@)
    } else {
        Err("cannot connect to argotunnel on TCP/7844"@)
    }
}

/// What is to be done after a host has shown `seen`.
pub open spec fn observed(probe: EdgeProbe, seen: HostSeen) -> EdgeNext {
    match seen {
        HostSeen::Unresolved { reason } => EdgeNext::Decided {
            version: Err(resolve_error(edge_host(probe.first_done), reason)),
        },
        HostSeen::Resolved { addresses } => if probe.first_done {
            EdgeNext::Decided { version: settled(noted(probe, addresses)) }
        } else {
            EdgeNext::Probe { probe: noted(probe, addresses), host: edge_host(true) }
        },
    }
}

/// What is known before any host was probed.
pub open spec fn nothing_known() -> EdgeProbe {
    EdgeProbe {
        first_done: false,
        resolved_any: false,
        reachable_v4: false,
        reachable_v6: false,
    }
}

/// What is to be done first.
pub open spec fn edge_start(pref: EdgeIpPreference) -> EdgeNext {
    match pref {
        EdgeIpPreference::V4 => EdgeNext::Decided { version: Ok("4"@) },
        EdgeIpPreference::V6 => EdgeNext::Decided { version: Ok("6"@) },
        EdgeIpPreference::Auto => EdgeNext::Probe {
            probe: nothing_known(),
            host: edge_host(false),
        },
    }
}

/// Starts the choice of the IP version. A version that was asked for is taken
/// without probing.
pub fn choose_edge_ip_version(pref: EdgeIpPreference) -> (r: EdgeStep)
    ensures
        r@ == edge_start(pref),
{
    match pref {
        EdgeIpPreference::V4 => EdgeStep::Decided { version: Ok("4") },
        EdgeIpPreference::V6 => EdgeStep::Decided { version: Ok("6") },
        EdgeIpPreference::Auto => EdgeStep::Probe {
            probe: EdgeProbe {
                first_done: false,
                resolved_any: false,
                reachable_v4: false,
                reachable_v6: false,
            },
            host: "region1.v2.argotunnel.com",
        },
    }
}

/// Whether a reachable address of the wanted version is among `addresses`.
fn any_reachable(addresses: &Vec<AddressProbe>, ipv4: bool) -> (r: bool)
    ensures
        r == reaches(addresses@, ipv4),
{
    let mut i: usize = 0;
    while i < addresses.len()
        invariant
            i <= addresses.len(),
            forall|k: int|
                0 <= k < i ==> !((#[trigger] addresses@[k]).reachable && addresses@[k].ipv4
                    == ipv4),
        decreases addresses.len() - i,
    {
        if addresses[i].reachable && addresses[i].ipv4 == ipv4 {
            return true;
        }
        i = i + 1;
    }
    false
}

impl EdgeProbe {
    /// Takes note of what the host that was asked for has shown.
    pub fn observe(self, seen: HostProbe) -> (r: EdgeStep)
        ensures
            r@ == observed(self, seen@),
    {
        let host = if self.first_done {
            "region2.v2.argotunnel.com"
        } else {
            "region1.v2.argotunnel.com"
        };
        let addresses = match seen {
            HostProbe::Unresolved { reason } => {
                let mut e = "DNS resolve failed for ".to_owned();
                e.append(host);
                e.append(": ");
                e.append(reason.as_str());
                return EdgeStep::Decided { version: Err(e) };
            },
            HostProbe::Resolved { addresses } => addresses,
        };
        let known = EdgeProbe {
            first_done: true,
            resolved_any: self.resolved_any || addresses.len() > 0,
            reachable_v4: any_reachable(&addresses, true) || self.reachable_v4,
            reachable_v6: any_reachable(&addresses, false) || self.reachable_v6,
        };
        if !self.first_done {
            return EdgeStep::Probe { probe: known, host: "region2.v2.argotunnel.com" };
        }
        if !known.resolved_any {
            let e = "cannot resolve argotunnel DNS records".to_owned();
            return EdgeStep::Decided { version: Err(e) };
        }
        if known.reachable_v4 {
            return EdgeStep::Decided { version: Ok("4") };
        }
        if known.reachable_v6 {
            return EdgeStep::Decided { version: Ok("6") };
        }
        let e = "cannot connect to argotunnel on TCP/7844".to_owned();
        EdgeStep::Decided { version: Err(e) }
    }
}

/// The version to start with: the chosen one, or IPv4 where there is no choice.
pub fn edge_ip_version_or_default(choice: Result<&'static str, String>) -> (r: &'static str)
    ensures
        r@ == (match choice {
            Ok(v) => v@,
            Err(_) => "4"@,
        }),
{
    match choice {
        Ok(v) => v,
        Err(_) => "4",
    }
}

/// Probing one host after the other comes to `edge_choice`, and the second
/// host is left alone only where the first one already settled the choice.
pub proof fn lemma_probing_decides(first: HostSeen, second: HostSeen)
    ensures
        match observed(nothing_known(), first) {
            EdgeNext::Decided { version } => version == edge_choice(first, second),
            EdgeNext::Probe { probe, host } => {
                &&& host == edge_host(true)
                &&& observed(probe, second) == (EdgeNext::Decided {
                    version: edge_choice(first, second),
                })
            },
        },
{
}

/// Only the names of the two versions are ever chosen.
pub proof fn lemma_choice_is_a_version(first: HostSeen, second: HostSeen)
    ensures
        edge_choice(first, second) matches Ok(v) ==> v == "4"@ || v == "6"@,
{
}

/// What probing both hosts comes to where no version is asked for.
pub open spec fn probed(first: HostSeen, second: HostSeen) -> Result<Seq<char>, Seq<char>> {
    match edge_start(EdgeIpPreference::Auto) {
        EdgeNext::Decided { version } => version,
        EdgeNext::Probe { probe, .. } => match observed(probe, first) {
            EdgeNext::Decided { version } => version,
            EdgeNext::Probe { probe, .. } => match observed(probe, second) {
                EdgeNext::Decided { version } => version,
                EdgeNext::Probe { .. } => arbitrary(),
            },
        },
    }
}

/// A version that is asked for is taken at once. Otherwise the first host is
/// probed, then the second one, and then the choice is made.
pub proof fn lemma_probing_order(first: HostSeen, second: HostSeen)
    ensures
        edge_start(EdgeIpPreference::V4) == (EdgeNext::Decided { version: Ok("4"@) }),
        edge_start(EdgeIpPreference::V6) == (EdgeNext::Decided { version: Ok("6"@) }),
        edge_start(EdgeIpPreference::Auto) matches EdgeNext::Probe { probe, host } && {
            &&& host == "region1.v2.argotunnel.com"@
            &&& first is Unresolved ==> observed(probe, first) is Decided
            &&& first is Resolved ==> (observed(probe, first) matches EdgeNext::Probe {
                probe: next,
                host: other,
            } && other == "region2.v2.argotunnel.com"@ && observed(next, second) is Decided)
        },
{
}

/// IPv4 is chosen exactly where both names resolve and some address of either
/// host is reachable over IPv4. IPv6 is chosen exactly where both resolve, none
/// is reachable over IPv4 and some address is over IPv6.
pub proof fn lemma_reachable_addresses_decide(a: Seq<AddressProbe>, b: Seq<AddressProbe>)
    ensures
        ({
            let r = probed(
                HostSeen::Resolved { addresses: a },
                HostSeen::Resolved { addresses: b },
            );
            let over = |ipv4: bool|
                (exists|i: int|
                    0 <= i < a.len() && (#[trigger] a[i]).reachable && a[i].ipv4 == ipv4) || (
                exists|i: int|
                    0 <= i < b.len() && (#[trigger] b[i]).reachable && b[i].ipv4 == ipv4);
            &&& over(true) ==> r == Ok::<Seq<char>, Seq<char>>("4"@)
            &&& !over(true) && over(false) ==> r == Ok::<Seq<char>, Seq<char>>("6"@)
            &&& !over(true) && !over(false) && a.len() + b.len() > 0 ==> r == Err::<
                Seq<char>,
                Seq<char>,
            >("cannot connect to argotunnel on TCP/7844"@)
            &&& a.len() + b.len() == 0 ==> r == Err::<Seq<char>, Seq<char>>(
                "cannot resolve argotunnel DNS records"@,
            )
        }),
{
}

/// A name that does not resolve ends the choice with its host and the reason,
/// that of the first host ahead of that of the second one.
pub proof fn lemma_unresolved_host_decides(seen: HostSeen, reason: Seq<char>)
    ensures
        probed(HostSeen::Unresolved { reason }, seen) == Err::<Seq<char>, Seq<char>>(
            "DNS resolve failed for "@ + "region1.v2.argotunnel.com"@ + ": "@ + reason,
        ),
        seen is Resolved ==> probed(seen, HostSeen::Unresolved { reason }) == Err::<
            Seq<char>,
            Seq<char>,
        >("DNS resolve failed for "@ + "region2.v2.argotunnel.com"@ + ": "@ + reason),
{
}

/// Which of the two hosts has which addresses does not matter.
pub proof fn lemma_hosts_are_equal(a: Seq<AddressProbe>, b: Seq<AddressProbe>)
    ensures
        probed(HostSeen::Resolved { addresses: a }, HostSeen::Resolved { addresses: b }) == probed(
            HostSeen::Resolved { addresses: b },
            HostSeen::Resolved { addresses: a },
        ),
{
}

/// What hosts show and what is to be done is seen as what it holds.
pub proof fn lemma_views(h: HostProbe, s: EdgeStep)
    ensures
        h matches HostProbe::Unresolved { reason } ==> h@ == (HostSeen::Unresolved {
            reason: reason@,
        }),
        h matches HostProbe::Resolved { addresses } ==> h@ == (HostSeen::Resolved {
            addresses: addresses@,
        }),
        s matches EdgeStep::Probe { probe, host } ==> s@ == (EdgeNext::Probe { probe, host: host@ }),
        s matches EdgeStep::Decided { version: Ok(v) } ==> s@ == (EdgeNext::Decided {
            version: Ok(v@),
        }),
        s matches EdgeStep::Decided { version: Err(e) } ==> s@ == (EdgeNext::Decided {
            version: Err(e@),
        }),
{
}

} // verus!
