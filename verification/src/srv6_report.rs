//! Where the advertised service SIDs of peers and the derived ones differ, and which advertised
//! SIDs are not programmed.

use vstd::prelude::*;

use crate::addr::{ipv6_text, IpAddr, Ipv6Addr};
use crate::evpn::{ip_before, ip_precedes, ipv6_before};
use crate::evpn_fold::{
    derived_multicast_sid, derived_sid, derived_unicast_sid, find_host_at, has_dot, host_at,
    is_host_at, is_srv6, one, prefix_srv6_irb_routes, prefix_target, LearnedRoutes,
    LearnedRoutesView, RemoteFlood, RemoteMac, RemotePrefix, RemotePrefixView,
};
use crate::lists::{flat, flat_step};
use crate::orchestrator::HostView;
use crate::sorted::{
    is_sorted, sort, text_before, text_irreflexive, text_precedes, text_total, text_transitive, Key,
    NumberKey,
};
use crate::srv6::{service_sid, DISC_MULTICAST, DISC_UNICAST};
use crate::text::{find_char, opt_view, same, views};
use crate::topology::{Fabric, FabricView};

verus! {

/// A service SID that a peer advertised, and the one that the fabric derives for the same service.
#[derive(Debug, PartialEq, Eq)]
pub struct Srv6Divergence {
    pub vni: u32,
    /// `end.dt2u` for a MAC address, `end.dt2m` for an endpoint to flood to.
    pub behavior: String,
    pub vtep: IpAddr,
    /// The one that is programmed.
    pub learned_sid: Ipv6Addr,
    pub derived_sid: Ipv6Addr,
}

/// What a [`Srv6Divergence`] holds.
#[verifier::ext_equal]
pub struct Srv6DivergenceView {
    pub vni: u32,
    pub behavior: Seq<char>,
    pub vtep: IpAddr,
    pub learned_sid: Ipv6Addr,
    pub derived_sid: Ipv6Addr,
}

impl View for Srv6Divergence {
    type V = Srv6DivergenceView;

    open spec fn view(&self) -> Srv6DivergenceView {
        Srv6DivergenceView {
            vni: self.vni,
            behavior: self.behavior@,
            vtep: self.vtep,
            learned_sid: self.learned_sid,
            derived_sid: self.derived_sid,
        }
    }
}

/// A layer-3 service SID that a peer advertised for a prefix and that is not programmed.
#[derive(Debug, PartialEq, Eq)]
pub struct Srv6IrbGatedSid {
    pub l3_vni: u32,
    pub prefix: String,
    pub vtep: IpAddr,
    pub learned_sid: Ipv6Addr,
    /// `end.dt4`.
    pub behavior: String,
    /// The layer-2 SID that is programmed in its place.
    pub programmed_sid: Ipv6Addr,
}

/// What a [`Srv6IrbGatedSid`] holds.
#[verifier::ext_equal]
pub struct Srv6IrbGatedSidView {
    pub l3_vni: u32,
    pub prefix: Seq<char>,
    pub vtep: IpAddr,
    pub learned_sid: Ipv6Addr,
    pub behavior: Seq<char>,
    pub programmed_sid: Ipv6Addr,
}

impl View for Srv6IrbGatedSid {
    type V = Srv6IrbGatedSidView;

    open spec fn view(&self) -> Srv6IrbGatedSidView {
        Srv6IrbGatedSidView {
            l3_vni: self.l3_vni,
            prefix: self.prefix@,
            vtep: self.vtep,
            learned_sid: self.learned_sid,
            behavior: self.behavior@,
            programmed_sid: self.programmed_sid,
        }
    }
}

fn ipv6_precedes(a: Ipv6Addr, b: Ipv6Addr) -> (r: bool)
    ensures
        r == ipv6_before(a, b),
{
    ip_precedes(IpAddr::V6(a), IpAddr::V6(b))
}

impl Key for Srv6Divergence {
    /// By segment, behaviour, endpoint, advertised and derived SID.
    open spec fn before(a: Srv6DivergenceView, b: Srv6DivergenceView) -> bool {
        a.vni < b.vni || (a.vni == b.vni && (text_before(a.behavior, b.behavior) || (a.behavior
            == b.behavior && (ip_before(a.vtep, b.vtep) || (a.vtep == b.vtep && (ipv6_before(
            a.learned_sid,
            b.learned_sid,
        ) || (a.learned_sid == b.learned_sid && ipv6_before(a.derived_sid, b.derived_sid))))))))
    }

    proof fn irreflexive(a: Srv6DivergenceView) {
        text_irreflexive(a.behavior);
    }

    proof fn transitive(a: Srv6DivergenceView, b: Srv6DivergenceView, c: Srv6DivergenceView) {
        if text_before(a.behavior, b.behavior) && text_before(b.behavior, c.behavior) {
            text_transitive(a.behavior, b.behavior, c.behavior);
        }
    }

    proof fn total(a: Srv6DivergenceView, b: Srv6DivergenceView) {
        text_total(a.behavior, b.behavior);
    }

    fn precedes(&self, other: &Self) -> (r: bool) {
        if self.vni != other.vni {
            return self.vni < other.vni;
        }
        if !same(self.behavior.as_str(), other.behavior.as_str()) {
            return text_precedes(self.behavior.as_str(), other.behavior.as_str());
        }
        proof {
            text_irreflexive(self.behavior@);
        }
        if self.vtep != other.vtep {
            return ip_precedes(self.vtep, other.vtep);
        }
        if self.learned_sid != other.learned_sid {
            return ipv6_precedes(self.learned_sid, other.learned_sid);
        }
        ipv6_precedes(self.derived_sid, other.derived_sid)
    }
}

impl Key for Srv6IrbGatedSid {
    /// By segment, prefix, endpoint, advertised SID, behaviour and programmed SID.
    open spec fn before(a: Srv6IrbGatedSidView, b: Srv6IrbGatedSidView) -> bool {
        a.l3_vni < b.l3_vni || (a.l3_vni == b.l3_vni && (text_before(a.prefix, b.prefix) || (
        a.prefix == b.prefix && (ip_before(a.vtep, b.vtep) || (a.vtep == b.vtep && (ipv6_before(
            a.learned_sid,
            b.learned_sid,
        ) || (a.learned_sid == b.learned_sid && (text_before(a.behavior, b.behavior) || (a.behavior
            == b.behavior && ipv6_before(a.programmed_sid, b.programmed_sid))))))))))
    }

    proof fn irreflexive(a: Srv6IrbGatedSidView) {
        text_irreflexive(a.prefix);
        text_irreflexive(a.behavior);
    }

    proof fn transitive(a: Srv6IrbGatedSidView, b: Srv6IrbGatedSidView, c: Srv6IrbGatedSidView) {
        if text_before(a.prefix, b.prefix) && text_before(b.prefix, c.prefix) {
            text_transitive(a.prefix, b.prefix, c.prefix);
        }
        if text_before(a.behavior, b.behavior) && text_before(b.behavior, c.behavior) {
            text_transitive(a.behavior, b.behavior, c.behavior);
        }
    }

    proof fn total(a: Srv6IrbGatedSidView, b: Srv6IrbGatedSidView) {
        text_total(a.prefix, b.prefix);
        text_total(a.behavior, b.behavior);
    }

    fn precedes(&self, other: &Self) -> (r: bool) {
        if self.l3_vni != other.l3_vni {
            return self.l3_vni < other.l3_vni;
        }
        if !same(self.prefix.as_str(), other.prefix.as_str()) {
            return text_precedes(self.prefix.as_str(), other.prefix.as_str());
        }
        proof {
            text_irreflexive(self.prefix@);
        }
        if self.vtep != other.vtep {
            return ip_precedes(self.vtep, other.vtep);
        }
        if self.learned_sid != other.learned_sid {
            return ipv6_precedes(self.learned_sid, other.learned_sid);
        }
        if !same(self.behavior.as_str(), other.behavior.as_str()) {
            return text_precedes(self.behavior.as_str(), other.behavior.as_str());
        }
        proof {
            text_irreflexive(self.behavior@);
        }
        ipv6_precedes(self.programmed_sid, other.programmed_sid)
    }
}

/// The host of the fabric with the given endpoint.
pub open spec fn known_host(f: FabricView, vtep: IpAddr) -> Option<HostView> {
    match vtep {
        IpAddr::V4(v) => host_at(f.topo, v),
        IpAddr::V6(_) => None,
    }
}

/// What is reported of a SID that a peer advertised for a service on a segment: where the peer is a
/// host of the fabric for which a SID can be derived, and that SID is another.
pub open spec fn divergence(
    f: FabricView,
    vni: u32,
    vtep: IpAddr,
    learned: Option<Ipv6Addr>,
    disc: u8,
    behavior: Seq<char>,
) -> Option<Srv6DivergenceView> {
    match (learned, known_host(f, vtep)) {
        (Some(learned_sid), Some(r)) => match derived_sid(f, r, disc, vni) {
            Some(derived) if derived != learned_sid => Some(
                Srv6DivergenceView { vni, behavior, vtep, learned_sid, derived_sid: derived },
            ),
            _ => None,
        },
        _ => None,
    }
}

/// What is reported of a MAC address.
pub open spec fn mac_divergence(f: FabricView, m: RemoteMac) -> Option<Srv6DivergenceView> {
    divergence(f, m.vni, m.vtep, m.srv6_sid, DISC_UNICAST, "end.dt2u"@)
}

/// What is reported of an endpoint to flood to.
pub open spec fn flood_divergence(f: FabricView, e: RemoteFlood) -> Option<Srv6DivergenceView> {
    divergence(f, e.vni, e.vtep, e.srv6_sid, DISC_MULTICAST, "end.dt2m"@)
}

/// All that is reported.
pub open spec fn divergences(f: FabricView, r: LearnedRoutesView) -> Seq<Srv6DivergenceView> {
    flat(r.macs, |m| one(mac_divergence(f, m))) + flat(r.floods, |e| one(flood_divergence(f, e)))
}

/// What is reported of a prefix: where its tenant is known, it is one of IPv4, the egress router's
/// MAC address is given, and the peer is a host of the fabric for which the layer-2 SID can be
/// derived, the SID that the peer advertised.
pub open spec fn gated(f: FabricView, p: RemotePrefixView) -> Option<Srv6IrbGatedSidView> {
    match (p.srv6_sid, known_host(f, p.vtep)) {
        (Some(learned_sid), Some(r)) if p.router_mac is Some => match derived_sid(f, r, DISC_UNICAST, p.l3_vni) {
            Some(programmed_sid) if f.ip_vrfs.dom().contains(p.l3_vni) && find_char(p.prefix, '.')
                < p.prefix.len() => Some(
                Srv6IrbGatedSidView {
                    l3_vni: p.l3_vni,
                    prefix: p.prefix,
                    vtep: p.vtep,
                    learned_sid,
                    behavior: "end.dt4"@,
                    programmed_sid,
                },
            ),
            _ => None,
        },
        _ => None,
    }
}

fn make_divergence(
    f: &Fabric,
    vni: u32,
    vtep: IpAddr,
    learned: Option<Ipv6Addr>,
    disc: u8,
    behavior: &str,
) -> (r: Option<Srv6Divergence>)
    requires
        f.inv(),
        disc == DISC_UNICAST || disc == DISC_MULTICAST,
    ensures
        opt_view(r) == divergence(f@, vni, vtep, learned, disc, behavior@),
{
    let v = match vtep {
        IpAddr::V4(v) => v,
        IpAddr::V6(_) => {
            return None;
        },
    };
    match (learned, find_host_at(&f.topo, v)) {
        (Some(learned_sid), Some(remote)) => {
            let derived = if disc == DISC_UNICAST {
                derived_unicast_sid(f, remote, vni)
            } else {
                derived_multicast_sid(f, remote, vni)
            };
            match derived {
                Some(derived_sid) => if derived_sid != learned_sid {
                    Some(
                        Srv6Divergence {
                            vni,
                            behavior: String::from_str(behavior),
                            vtep,
                            learned_sid,
                            derived_sid,
                        },
                    )
                } else {
                    None
                },
                None => None,
            }
        },
        _ => None,
    }
}

fn make_mac_divergence(f: &Fabric, m: &RemoteMac) -> (r: Option<Srv6Divergence>)
    requires
        f.inv(),
    ensures
        opt_view(r) == mac_divergence(f@, *m),
{
    make_divergence(f, m.vni, m.vtep, m.srv6_sid, DISC_UNICAST, "end.dt2u")
}

fn make_flood_divergence(f: &Fabric, e: &RemoteFlood) -> (r: Option<Srv6Divergence>)
    requires
        f.inv(),
    ensures
        opt_view(r) == flood_divergence(f@, *e),
{
    make_divergence(f, e.vni, e.vtep, e.srv6_sid, DISC_MULTICAST, "end.dt2m")
}

fn make_gated(f: &Fabric, p: &RemotePrefix) -> (r: Option<Srv6IrbGatedSid>)
    requires
        f.inv(),
    ensures
        opt_view(r) == gated(f@, p@),
{
    let key = NumberKey { number: p.l3_vni };
    if f.ip_vrfs.get(&key).is_none() || !has_dot(p.prefix.as_str()) || p.router_mac.is_none() {
        return None;
    }
    assert(f@.ip_vrfs.dom().contains(p.l3_vni));
    let v = match p.vtep {
        IpAddr::V4(v) => v,
        IpAddr::V6(_) => {
            return None;
        },
    };
    match (p.srv6_sid, find_host_at(&f.topo, v)) {
        (Some(learned_sid), Some(remote)) => match derived_unicast_sid(f, remote, p.l3_vni) {
            Some(programmed_sid) => Some(
                Srv6IrbGatedSid {
                    l3_vni: p.l3_vni,
                    prefix: p.prefix.clone(),
                    vtep: p.vtep,
                    learned_sid,
                    behavior: String::from_str("end.dt4"),
                    programmed_sid,
                },
            ),
            None => None,
        },
        _ => None,
    }
}

fn mac_divergences(f: &Fabric, xs: &Vec<RemoteMac>) -> (r: Vec<Srv6Divergence>)
    requires
        f.inv(),
    ensures
        views(r@) == flat(xs@, |x: RemoteMac| one(mac_divergence(f@, x))),
{
    let ghost s = xs@;
    let ghost w = |x: RemoteMac| one(mac_divergence(f@, x));
    let mut out: Vec<Srv6Divergence> = Vec::new();
    assert(views(out@) =~= flat(s.take(0), w));
    for i in 0..xs.len()
        invariant
            f.inv(),
            s == xs@,
            w == (|x: RemoteMac| one(mac_divergence(f@, x))),
            views(out@) == flat(s.take(i as int), w),
    {
        proof {
            flat_step(s, w, i as int);
        }
        let ghost before = views(out@);
        match make_mac_divergence(f, &xs[i]) {
            Some(e) => {
                out.push(e);
                assert(views(out@) =~= before + seq![e@]);
            },
            None => {
                assert(before =~= before + Seq::empty());
            },
        }
    }
    assert(s.take(xs@.len() as int) =~= s);
    out
}

fn flood_divergences(f: &Fabric, xs: &Vec<RemoteFlood>) -> (r: Vec<Srv6Divergence>)
    requires
        f.inv(),
    ensures
        views(r@) == flat(xs@, |x: RemoteFlood| one(flood_divergence(f@, x))),
{
    let ghost s = xs@;
    let ghost w = |x: RemoteFlood| one(flood_divergence(f@, x));
    let mut out: Vec<Srv6Divergence> = Vec::new();
    assert(views(out@) =~= flat(s.take(0), w));
    for i in 0..xs.len()
        invariant
            f.inv(),
            s == xs@,
            w == (|x: RemoteFlood| one(flood_divergence(f@, x))),
            views(out@) == flat(s.take(i as int), w),
    {
        proof {
            flat_step(s, w, i as int);
        }
        let ghost before = views(out@);
        match make_flood_divergence(f, &xs[i]) {
            Some(e) => {
                out.push(e);
                assert(views(out@) =~= before + seq![e@]);
            },
            None => {
                assert(before =~= before + Seq::empty());
            },
        }
    }
    assert(s.take(xs@.len() as int) =~= s);
    out
}

fn gated_sids(f: &Fabric, xs: &Vec<RemotePrefix>) -> (r: Vec<Srv6IrbGatedSid>)
    requires
        f.inv(),
    ensures
        views(r@) == flat(views(xs@), |x: RemotePrefixView| one(gated(f@, x))),
{
    let ghost s = views(xs@);
    let ghost w = |x: RemotePrefixView| one(gated(f@, x));
    let mut out: Vec<Srv6IrbGatedSid> = Vec::new();
    assert(views(out@) =~= flat(s.take(0), w));
    for i in 0..xs.len()
        invariant
            f.inv(),
            s == views(xs@),
            w == (|x: RemotePrefixView| one(gated(f@, x))),
            views(out@) == flat(s.take(i as int), w),
    {
        proof {
            flat_step(s, w, i as int);
        }
        let ghost before = views(out@);
        match make_gated(f, &xs[i]) {
            Some(e) => {
                out.push(e);
                assert(views(out@) =~= before + seq![e@]);
            },
            None => {
                assert(before =~= before + Seq::empty());
            },
        }
    }
    assert(s.take(xs@.len() as int) =~= s);
    out
}

/// Reports every advertised SID that differs from the derived one, in order.
pub fn srv6_divergences(f: &Fabric, routes: &LearnedRoutes) -> (r: Vec<Srv6Divergence>)
    requires
        f.inv(),
    ensures
        views(r@).to_multiset() == divergences(f@, routes@).to_multiset(),
        is_sorted::<Srv6Divergence>(views(r@)),
{
    let mut out = mac_divergences(f, &routes.macs);
    let mut more = flood_divergences(f, &routes.floods);
    let ghost a = out@;
    let ghost b = more@;
    out.append(&mut more);
    assert(views(out@) =~= views(a) + views(b));
    sort(out)
}

/// Reports every advertised layer-3 SID that is not programmed, in order.
pub fn srv6_irb_gated_sids(f: &Fabric, routes: &LearnedRoutes) -> (r: Vec<Srv6IrbGatedSid>)
    requires
        f.inv(),
    ensures
        views(r@).to_multiset() == flat(routes@.prefixes, |p| one(gated(f@, p))).to_multiset(),
        is_sorted::<Srv6IrbGatedSid>(views(r@)),
{
    sort(gated_sids(f, &routes.prefixes))
}

/// A SID that equals the derived one is not reported.
pub proof fn matching_sid_is_no_divergence(f: FabricView, m: RemoteMac, r: HostView)
    requires
        known_host(f, m.vtep) == Some(r),
        m.srv6_sid == derived_sid(f, r, DISC_UNICAST, m.vni),
    ensures
        mac_divergence(f, m) is None,
{
}

/// The report names exactly the prefixes with an advertised SID that an SRv6 host other than the
/// peer routes, and the SID that is programmed there for every segment of the tenant.
pub proof fn gated_prefix_is_routed(f: FabricView, h: HostView, p: RemotePrefixView)
    requires
        is_srv6(h),
        p.srv6_sid is Some,
        p.vtep matches IpAddr::V4(v) ==> v != h.vtep_ip,
    ensures
        gated(f, p) is Some <==> prefix_target(f, h, p) is Some,
        gated(f, p) matches Some(g) ==> {
            let routes = prefix_srv6_irb_routes(f, h, p);
            &&& routes.len() == f.ip_vrfs[p.l3_vni].networks.len()
            &&& forall|i: int|
                0 <= i < routes.len() ==> (#[trigger] routes[i]).vni
                    == f.ip_vrfs[p.l3_vni].networks[i] && routes[i].remote_sid == ipv6_text(
                    g.programmed_sid,
                )
        },
{
}

/// The endpoint is that of the fabric's host `id`; of several hosts with the endpoint, it is the one
/// with the smallest id.
pub open spec fn has_endpoint(f: FabricView, vtep: IpAddr, id: Seq<char>) -> bool {
    &&& f.topo.hosts.dom().contains(id)
    &&& vtep == IpAddr::V4(f.topo.hosts[id].vtep_ip)
    &&& forall|o: Seq<char>| #[trigger]
        f.topo.hosts.dom().contains(o) && f.topo.hosts[o].vtep_ip == f.topo.hosts[id].vtep_ip
            ==> o == id || text_before(id, o)
}

proof fn known_host_has_endpoint(f: FabricView, vtep: IpAddr)
    ensures
        known_host(f, vtep) matches Some(r) ==> exists|id: Seq<char>| #[trigger]
            has_endpoint(f, vtep, id) && r == f.topo.hosts[id],
        forall|id: Seq<char>| #[trigger]
            has_endpoint(f, vtep, id) ==> known_host(f, vtep) == Some(f.topo.hosts[id]),
{
    if let IpAddr::V4(v) = vtep {
        if known_host(f, vtep) is Some {
            let id = choose|id: Seq<char>| is_host_at(f.topo, v, id);
            assert(is_host_at(f.topo, v, id));
            assert(has_endpoint(f, vtep, id));
        }
        assert forall|id: Seq<char>| #[trigger] has_endpoint(f, vtep, id) implies known_host(f, vtep)
            == Some(f.topo.hosts[id]) by {
            assert(is_host_at(f.topo, v, id));
            let o = choose|o: Seq<char>| is_host_at(f.topo, v, o);
            assert(is_host_at(f.topo, v, o));
            if o != id {
                text_transitive(o, id, o);
                text_irreflexive(o);
            }
        }
    }
}

/// A divergence is reported exactly where a peer of the fabric advertised a SID and its locator gives
/// another: for a MAC address that of the unicast behaviour, for an endpoint to flood to that of the
/// flood behaviour. The report says which service it is about and both SIDs.
pub proof fn divergence_is_reported(
    f: FabricView,
    vni: u32,
    vtep: IpAddr,
    learned: Option<Ipv6Addr>,
    flood: bool,
    d: Srv6DivergenceView,
)
    requires
        f.wf(),
    ensures
        ({
            let reported = if flood {
                flood_divergence(f, (RemoteFlood { vni, vtep, srv6_sid: learned }))
            } else {
                mac_divergence(
                    f,
                    (RemoteMac { vni, mac: [0, 0, 0, 0, 0, 0], vtep, ip: None, srv6_sid: learned }),
                )
            };
            reported == Some(d) <==> {
                &&& d.vni == vni
                &&& d.vtep == vtep
                &&& learned == Some(d.learned_sid)
                &&& d.behavior == if flood {
                    "end.dt2m"@
                } else {
                    "end.dt2u"@
                }
                &&& d.learned_sid != d.derived_sid
                &&& exists|id: Seq<char>| #[trigger]
                    has_endpoint(f, vtep, id) && f.locators.dom().contains(id) && service_sid(
                        f.locators[id],
                        if flood {
                            1u8
                        } else {
                            0u8
                        },
                        vni,
                    ) == Some(d.derived_sid)
            }
        }),
{
    known_host_has_endpoint(f, vtep);
    if known_host(f, vtep) is Some {
        let id = choose|id: Seq<char>| #[trigger]
            has_endpoint(f, vtep, id) && known_host(f, vtep)->0 == f.topo.hosts[id];
        assert(f.topo.hosts[id].id == id);
        assert forall|o: Seq<char>| #[trigger] has_endpoint(f, vtep, o) implies o == id by {
            assert(f.topo.hosts[o].id == o);
        }
    }
}

/// What is said of a MAC address depends on its segment, its endpoint and the advertised SID alone.
pub proof fn divergence_is_that_of_the_route(f: FabricView, m: RemoteMac, n: RemoteMac)
    requires
        m.vni == n.vni,
        m.vtep == n.vtep,
        m.srv6_sid == n.srv6_sid,
    ensures
        mac_divergence(f, m) == mac_divergence(f, n),
{
}

/// A SID that was advertised for a prefix and is not programmed is reported exactly where the prefix
/// is one of IPv4 of a known tenant, with a router MAC, behind a host of the fabric whose locator
/// gives a SID on the tenant's segment. The report says which prefix it is about, the SID that was
/// advertised, and the one that is programmed instead.
pub proof fn unused_prefix_sid_is_reported(
    f: FabricView,
    p: RemotePrefixView,
    g: Srv6IrbGatedSidView,
)
    requires
        f.wf(),
    ensures
        gated(f, p) == Some(g) <==> {
            &&& g.l3_vni == p.l3_vni
            &&& g.prefix == p.prefix
            &&& g.vtep == p.vtep
            &&& p.srv6_sid == Some(g.learned_sid)
            &&& g.behavior == "end.dt4"@
            &&& p.router_mac is Some
            &&& p.prefix.contains('.')
            &&& f.ip_vrfs.dom().contains(p.l3_vni)
            &&& exists|id: Seq<char>| #[trigger]
                has_endpoint(f, p.vtep, id) && f.locators.dom().contains(id) && service_sid(
                    f.locators[id],
                    0,
                    p.l3_vni,
                ) == Some(g.programmed_sid)
        },
{
    known_host_has_endpoint(f, p.vtep);
    crate::text::find_char_properties(p.prefix, '.');
    if find_char(p.prefix, '.') < p.prefix.len() {
        assert(p.prefix[find_char(p.prefix, '.') as int] == '.');
    }
    if known_host(f, p.vtep) is Some {
        let id = choose|id: Seq<char>| #[trigger]
            has_endpoint(f, p.vtep, id) && known_host(f, p.vtep)->0 == f.topo.hosts[id];
        assert(f.topo.hosts[id].id == id);
        assert forall|o: Seq<char>| #[trigger] has_endpoint(f, p.vtep, o) implies o == id by {
            assert(f.topo.hosts[o].id == o);
        }
    }
}

/// The reports are listed by segment first, then by what they are about: of divergences the behaviour
/// and the endpoint, of unused SIDs the prefix and the endpoint, and then the SIDs.
pub proof fn reports_are_ordered(
    a: Srv6DivergenceView,
    b: Srv6DivergenceView,
    c: Srv6IrbGatedSidView,
    d: Srv6IrbGatedSidView,
)
    ensures
        a.vni < b.vni ==> Srv6Divergence::before(a, b),
        a.vni == b.vni && text_before(a.behavior, b.behavior) ==> Srv6Divergence::before(a, b),
        a.vni == b.vni && a.behavior == b.behavior && ip_before(a.vtep, b.vtep)
            ==> Srv6Divergence::before(a, b),
        a.vni == b.vni && a.behavior == b.behavior && a.vtep == b.vtep && ipv6_before(
            a.learned_sid,
            b.learned_sid,
        ) ==> Srv6Divergence::before(a, b),
        c.l3_vni < d.l3_vni ==> Srv6IrbGatedSid::before(c, d),
        c.l3_vni == d.l3_vni && text_before(c.prefix, d.prefix) ==> Srv6IrbGatedSid::before(c, d),
        c.l3_vni == d.l3_vni && c.prefix == d.prefix && ip_before(c.vtep, d.vtep)
            ==> Srv6IrbGatedSid::before(c, d),
        c.l3_vni == d.l3_vni && c.prefix == d.prefix && c.vtep == d.vtep && ipv6_before(
            c.learned_sid,
            d.learned_sid,
        ) ==> Srv6IrbGatedSid::before(c, d),
{
}

/// What is seen of the records of this module is all that they hold, field by field.
pub proof fn srv6_report_records_are_seen_whole(
    srv6_divergence: Srv6Divergence,
    srv6_irb_gated_sid: Srv6IrbGatedSid,
)
    ensures
        srv6_divergence@.vni == srv6_divergence.vni,
        srv6_divergence@.behavior == srv6_divergence.behavior@,
        srv6_divergence@.vtep == srv6_divergence.vtep,
        srv6_divergence@.learned_sid == srv6_divergence.learned_sid,
        srv6_divergence@.derived_sid == srv6_divergence.derived_sid,
        srv6_irb_gated_sid@.l3_vni == srv6_irb_gated_sid.l3_vni,
        srv6_irb_gated_sid@.prefix == srv6_irb_gated_sid.prefix@,
        srv6_irb_gated_sid@.vtep == srv6_irb_gated_sid.vtep,
        srv6_irb_gated_sid@.learned_sid == srv6_irb_gated_sid.learned_sid,
        srv6_irb_gated_sid@.behavior == srv6_irb_gated_sid.behavior@,
        srv6_irb_gated_sid@.programmed_sid == srv6_irb_gated_sid.programmed_sid,
{
}

/// Nothing is reported of no routes; a further MAC route or flood entry adds its own report, if it
/// has one, and takes none of the others away.
pub proof fn every_route_is_reported_once(
    f: FabricView,
    r: LearnedRoutesView,
    m: RemoteMac,
    e: RemoteFlood,
)
    ensures
        r.macs.len() == 0 && r.floods.len() == 0 ==> divergences(f, r).len() == 0,
        mac_divergence(f, m) matches Some(d) ==> divergences(
            f,
            LearnedRoutesView { macs: r.macs.push(m), ..r },
        ).to_multiset() == divergences(f, r).to_multiset().insert(d),
        mac_divergence(f, m) is None ==> divergences(
            f,
            LearnedRoutesView { macs: r.macs.push(m), ..r },
        ).to_multiset() == divergences(f, r).to_multiset(),
        flood_divergence(f, e) matches Some(d) ==> divergences(
            f,
            LearnedRoutesView { floods: r.floods.push(e), ..r },
        ).to_multiset() == divergences(f, r).to_multiset().insert(d),
        flood_divergence(f, e) is None ==> divergences(
            f,
            LearnedRoutesView { floods: r.floods.push(e), ..r },
        ).to_multiset() == divergences(f, r).to_multiset(),
{
    broadcast use vstd::seq_lib::group_to_multiset_ensures;

    let a = flat(r.macs, |m| one(mac_divergence(f, m)));
    let b = flat(r.floods, |e| one(flood_divergence(f, e)));
    let a1 = one(mac_divergence(f, m));
    let b1 = one(flood_divergence(f, e));
    assert(r.macs.push(m).drop_last() =~= r.macs);
    assert(r.floods.push(e).drop_last() =~= r.floods);
    assert(divergences(f, r) == a + b);
    assert(divergences(f, LearnedRoutesView { macs: r.macs.push(m), ..r }) =~= (a + a1) + b);
    assert(divergences(f, LearnedRoutesView { floods: r.floods.push(e), ..r }) =~= a + (b + b1));
    vstd::seq_lib::lemma_multiset_commutative(a, b);
    vstd::seq_lib::lemma_multiset_commutative(a + a1, b);
    vstd::seq_lib::lemma_multiset_commutative(a, b + b1);
    match mac_divergence(f, m) {
        Some(d) => {
            assert(a + a1 =~= a.push(d));
        },
        None => {
            assert(a + a1 =~= a);
        },
    }
    match flood_divergence(f, e) {
        Some(d) => {
            assert(b + b1 =~= b.push(d));
        },
        None => {
            assert(b + b1 =~= b);
        },
    }
}

} // verus!
