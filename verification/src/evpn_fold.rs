//! What the control plane learns from other fabrics' routes, folded into each host's configuration.

use vstd::prelude::*;

use crate::addr::{fmt_mac, ipv4_text, ipv6_text, mac_text, IpAddr, Ipv4Addr, Ipv6Addr};
use crate::config::{
    EncapName, FileConfig, FileConfigView, FloodVtepCfg, FloodVtepCfgView, IrbRouteCfg,
    IrbRouteCfgView, MacRouteCfg, MacRouteCfgView, Nd6Cfg, Nd6CfgView, NeighborCfg, NeighborCfgView,
    Srv6Cfg, Srv6CfgView, Srv6FloodCfg, Srv6FloodCfgView, Srv6IrbRouteCfg, Srv6IrbRouteCfgView,
    Srv6LocalSidCfg, Srv6LocalSidCfgView, Srv6RouteCfg, Srv6RouteCfgView, TunnelCfg, TunnelCfgView,
};
use crate::evpn::{EvpnLearned, FloodKey, LearnedView, MacKey, PrefixKey};
use crate::lists::{
    flat, flat_contains, flat_empty, flat_step, keyed_at, keyed_domain, merged, merged_contains,
    merged_step,
};
use crate::orchestrator::{Host, HostView, Topology, TopologyView};
use crate::sorted::{
    items_are_ordered, keys, ordered, ordered_lists, text_before, text_irreflexive, text_precedes,
    text_total, text_transitive, Key, NumberKey, TextKey,
};
use crate::srv6::{
    advertised_sid_gives_the_source, locator_src_from_service_sid, recovered_source, service_sid,
    source_of, srv6_service_sid, Locator, DISC_MULTICAST, DISC_UNICAST,
};
use crate::text::{chars_of, find_char, find_char_properties, find_from, opt_view, same, views};
use crate::topology::{Fabric, FabricView, IpVrf, IpVrfView};

verus! {

/// A remote MAC address, as a peer advertised it.
#[derive(Clone, Copy, Debug, PartialEq, Eq)]
pub struct RemoteMac {
    pub vni: u32,
    pub mac: [u8; 6],
    /// The endpoint the address is behind.
    pub vtep: IpAddr,
    /// The address bound to it.
    pub ip: Option<IpAddr>,
    /// The service SID that the peer advertised.
    pub srv6_sid: Option<Ipv6Addr>,
}

/// An endpoint to flood to, as a peer advertised it.
#[derive(Clone, Copy, Debug, PartialEq, Eq)]
pub struct RemoteFlood {
    pub vni: u32,
    pub vtep: IpAddr,
    /// The service SID that the peer advertised.
    pub srv6_sid: Option<Ipv6Addr>,
}

/// A remote subnet, as a peer advertised it.
#[derive(Debug, PartialEq, Eq)]
pub struct RemotePrefix {
    pub l3_vni: u32,
    pub prefix: String,
    pub vtep: IpAddr,
    pub router_mac: Option<[u8; 6]>,
    pub gw: Option<IpAddr>,
    /// The service SID that the peer advertised.
    pub srv6_sid: Option<Ipv6Addr>,
}

/// What a [`RemotePrefix`] holds.
#[verifier::ext_equal]
pub struct RemotePrefixView {
    pub l3_vni: u32,
    pub prefix: Seq<char>,
    pub vtep: IpAddr,
    pub router_mac: Option<[u8; 6]>,
    pub gw: Option<IpAddr>,
    pub srv6_sid: Option<Ipv6Addr>,
}

impl View for RemotePrefix {
    type V = RemotePrefixView;

    open spec fn view(&self) -> RemotePrefixView {
        RemotePrefixView {
            l3_vni: self.l3_vni,
            prefix: self.prefix@,
            vtep: self.vtep,
            router_mac: self.router_mac,
            gw: self.gw,
            srv6_sid: self.srv6_sid,
        }
    }
}

/// All that peers advertised.
#[derive(Debug, PartialEq, Eq)]
pub struct LearnedRoutes {
    pub macs: Vec<RemoteMac>,
    pub floods: Vec<RemoteFlood>,
    pub prefixes: Vec<RemotePrefix>,
}

/// What a [`LearnedRoutes`] holds.
#[verifier::ext_equal]
pub struct LearnedRoutesView {
    pub macs: Seq<RemoteMac>,
    pub floods: Seq<RemoteFlood>,
    pub prefixes: Seq<RemotePrefixView>,
}

impl View for LearnedRoutes {
    type V = LearnedRoutesView;

    open spec fn view(&self) -> LearnedRoutesView {
        LearnedRoutesView {
            macs: self.macs@,
            floods: self.floods@,
            prefixes: views(self.prefixes@),
        }
    }
}

// ---------------------------------------------------------------------------
// Peers
// ---------------------------------------------------------------------------

/// The host with the given id has the given endpoint address, and no host with a smaller id has it.
pub open spec fn is_host_at(t: TopologyView, v: Ipv4Addr, id: Seq<char>) -> bool {
    &&& t.hosts.dom().contains(id)
    &&& t.hosts[id].vtep_ip == v
    &&& forall|o: Seq<char>| #[trigger]
        t.hosts.dom().contains(o) && t.hosts[o].vtep_ip == v ==> o == id || text_before(id, o)
}

/// The host with the given endpoint address.
pub open spec fn host_at(t: TopologyView, v: Ipv4Addr) -> Option<HostView> {
    if exists|id: Seq<char>| is_host_at(t, v, id) {
        Some(t.hosts[choose|id: Seq<char>| is_host_at(t, v, id)])
    } else {
        None
    }
}

/// The host of the fabric, other than `h`, that has the given endpoint.
pub open spec fn remote_of(f: FabricView, h: HostView, vtep: IpAddr) -> Option<HostView> {
    match vtep {
        IpAddr::V4(v) => if v == h.vtep_ip {
            None
        } else {
            host_at(f.topo, v)
        },
        IpAddr::V6(_) => None,
    }
}

/// An IPv4 endpoint that no host of the fabric has.
pub open spec fn is_external(f: FabricView, h: HostView, vtep: IpAddr) -> bool {
    vtep matches IpAddr::V4(v) && v != h.vtep_ip && host_at(f.topo, v) is None
}

/// The service SID that the fabric derives for a host, where the host has a locator.
pub open spec fn derived_sid(f: FabricView, h: HostView, disc: u8, vni: u32) -> Option<Ipv6Addr> {
    if f.locators.dom().contains(h.id) {
        service_sid(f.locators[h.id], disc, vni)
    } else {
        None
    }
}

/// The SID that is programmed: the one advertised, else the one derived.
pub open spec fn sid_for(learned: Option<Ipv6Addr>, derived: Option<Ipv6Addr>) -> Option<Ipv6Addr> {
    match learned {
        Some(s) => Some(s),
        None => derived,
    }
}

/// The outer source address of a host, where it has a locator.
pub open spec fn host_source(f: FabricView, h: HostView) -> Option<Ipv6Addr> {
    if f.locators.dom().contains(h.id) {
        source_of(f.locators[h.id])
    } else {
        None
    }
}

/// The host uses SRv6.
pub open spec fn is_srv6(h: HostView) -> bool {
    h.encap == EncapName::Srv6
}

/// The text of an address, where there is one.
pub open spec fn sid_text(a: Option<Ipv6Addr>) -> Option<Seq<char>> {
    match a {
        Some(a) => Some(ipv6_text(a)),
        None => None,
    }
}

/// The value as a sequence of at most one element.
pub open spec fn one<A>(o: Option<A>) -> Seq<A> {
    match o {
        Some(x) => seq![x],
        None => Seq::empty(),
    }
}

// ---------------------------------------------------------------------------
// Entries for MAC addresses
// ---------------------------------------------------------------------------

/// The SRv6 route to a MAC address behind a host of the fabric.
pub open spec fn mac_srv6_route(f: FabricView, h: HostView, m: RemoteMac) -> Option<
    Srv6RouteCfgView,
> {
    match remote_of(f, h, m.vtep) {
        Some(r) => match sid_for(m.srv6_sid, derived_sid(f, r, DISC_UNICAST, m.vni)) {
            Some(sid) if is_srv6(h) => Some(
                Srv6RouteCfgView {
                    vni: m.vni,
                    mac: mac_text(m.mac),
                    remote_sid: ipv6_text(sid),
                    via_mac: mac_text(r.underlay_mac),
                    out_iface: h.underlay_iface,
                },
            ),
            _ => None,
        },
        None => None,
    }
}

/// The bridging entry for a MAC address behind a host of the fabric.
pub open spec fn mac_route(f: FabricView, h: HostView, m: RemoteMac) -> Option<MacRouteCfgView> {
    match (remote_of(f, h, m.vtep), m.vtep) {
        (Some(r), IpAddr::V4(v)) if !is_srv6(h) => Some(
            MacRouteCfgView {
                vni: m.vni,
                mac: mac_text(m.mac),
                remote_vtep: ipv4_text(v),
                via_mac: mac_text(r.underlay_mac),
                out_iface: h.underlay_iface,
            },
        ),
        _ => None,
    }
}

/// There is an entry to reach the MAC address by. Without one it is held, and nothing is programmed of
/// it.
pub open spec fn is_reachable(f: FabricView, h: HostView, m: RemoteMac) -> bool {
    mac_srv6_route(f, h, m) is Some || mac_route(f, h, m) is Some
}

/// The ARP entry for a reachable MAC address with an IPv4 address.
pub open spec fn mac_neighbor(f: FabricView, h: HostView, m: RemoteMac) -> Option<NeighborCfgView> {
    match m.ip {
        Some(IpAddr::V4(ip)) if is_reachable(f, h, m) => Some(
            NeighborCfgView { vni: m.vni, ip: ipv4_text(ip), mac: mac_text(m.mac) },
        ),
        _ => None,
    }
}

/// The tunnel to the IPv4 address of a MAC address.
pub open spec fn mac_tunnel(f: FabricView, h: HostView, m: RemoteMac) -> Option<TunnelCfgView> {
    match (remote_of(f, h, m.vtep), m.vtep, m.ip) {
        (Some(r), IpAddr::V4(v), Some(IpAddr::V4(ip))) if !is_srv6(h) => Some(
            TunnelCfgView {
                vni: m.vni,
                inner_dst: ipv4_text(ip) + "/32"@,
                remote_vtep: ipv4_text(v),
                via_mac: mac_text(r.underlay_mac),
                out_iface: h.underlay_iface,
            },
        ),
        _ => None,
    }
}

/// The neighbour-discovery entry for a reachable MAC address with an IPv6 address.
pub open spec fn mac_nd_neighbor(f: FabricView, h: HostView, m: RemoteMac) -> Option<Nd6CfgView> {
    match m.ip {
        Some(IpAddr::V6(ip)) if is_reachable(f, h, m) => Some(
            Nd6CfgView { vni: m.vni, ip: ipv6_text(ip), mac: mac_text(m.mac) },
        ),
        _ => None,
    }
}

/// The source address to trust for a MAC address: that of the host it is behind, where a route is
/// programmed; or the one that the SID of a peer outside the fabric leads back to.
pub open spec fn mac_peer(f: FabricView, h: HostView, m: RemoteMac) -> Option<Seq<char>> {
    if !is_srv6(h) {
        None
    } else {
        match remote_of(f, h, m.vtep) {
            Some(r) => if sid_for(m.srv6_sid, derived_sid(f, r, DISC_UNICAST, m.vni)) is Some {
                sid_text(host_source(f, r))
            } else {
                None
            },
            None => match m.srv6_sid {
                Some(sid) if is_external(f, h, m.vtep) => sid_text(
                    recovered_source(sid, DISC_UNICAST, m.vni),
                ),
                _ => None,
            },
        }
    }
}

// ---------------------------------------------------------------------------
// Entries for prefixes
// ---------------------------------------------------------------------------

/// Where a prefix is routed.
pub ghost struct PrefixTarget {
    pub vrf: IpVrfView,
    pub router_mac: [u8; 6],
    pub remote: HostView,
    pub vtep: Ipv4Addr,
    /// The SID on an SRv6 host: that of the unicast behaviour on the layer-3 segment, as derived.
    pub sid: Option<Ipv6Addr>,
}

/// Where a prefix is routed: the tenant must be known, the egress router's MAC address given, the
/// endpoint a host of the fabric, and the prefix one of IPv4. On an SRv6 host the peer must have a
/// locator.
pub open spec fn prefix_target(f: FabricView, h: HostView, p: RemotePrefixView) -> Option<
    PrefixTarget,
> {
    match (p.router_mac, remote_of(f, h, p.vtep), p.vtep) {
        (Some(router_mac), Some(remote), IpAddr::V4(vtep)) => {
            let sid = derived_sid(f, remote, DISC_UNICAST, p.l3_vni);
            if !f.ip_vrfs.dom().contains(p.l3_vni) || find_char(p.prefix, '.') >= p.prefix.len() {
                None
            } else if is_srv6(h) && sid is None {
                None
            } else {
                Some(
                    PrefixTarget { vrf: f.ip_vrfs[p.l3_vni], router_mac, remote, vtep, sid },
                )
            }
        },
        _ => None,
    }
}

/// The routed entries for a prefix: one for each segment of the tenant.
pub open spec fn prefix_irb_routes(f: FabricView, h: HostView, p: RemotePrefixView) -> Seq<
    IrbRouteCfgView,
> {
    match prefix_target(f, h, p) {
        Some(t) if !is_srv6(h) => t.vrf.networks.map_values(
            |vni: u32|
                IrbRouteCfgView {
                    vni,
                    inner_dst: p.prefix,
                    l3_vni: p.l3_vni,
                    remote_vtep: ipv4_text(t.vtep),
                    via_mac: mac_text(t.remote.underlay_mac),
                    out_iface: h.underlay_iface,
                    router_mac: mac_text(t.router_mac),
                    gateway_mac: mac_text(t.vrf.gateway_mac),
                },
        ),
        _ => Seq::empty(),
    }
}

/// The routed entries for a prefix on an SRv6 host: one for each segment of the tenant.
pub open spec fn prefix_srv6_irb_routes(f: FabricView, h: HostView, p: RemotePrefixView) -> Seq<
    Srv6IrbRouteCfgView,
> {
    match prefix_target(f, h, p) {
        Some(t) if is_srv6(h) => t.vrf.networks.map_values(
            |vni: u32|
                Srv6IrbRouteCfgView {
                    vni,
                    inner_dst: p.prefix,
                    l3_vni: p.l3_vni,
                    remote_sid: ipv6_text(t.sid->0),
                    via_mac: mac_text(t.remote.underlay_mac),
                    out_iface: h.underlay_iface,
                    router_mac: mac_text(t.router_mac),
                    gateway_mac: mac_text(t.vrf.gateway_mac),
                },
        ),
        _ => Seq::empty(),
    }
}

/// The SID that the host itself terminates for a prefix's tenant, where it routes the prefix.
pub open spec fn prefix_local_sid(f: FabricView, h: HostView, p: RemotePrefixView) -> Option<
    Srv6LocalSidCfgView,
> {
    match (prefix_target(f, h, p), derived_sid(f, h, DISC_UNICAST, p.l3_vni)) {
        (Some(_), Some(own)) if is_srv6(h) => Some(
            Srv6LocalSidCfgView {
                sid: ipv6_text(own),
                vni: p.l3_vni,
                behavior: Some("end.dt2u"@),
            },
        ),
        _ => None,
    }
}

/// The source address to trust for a prefix.
pub open spec fn prefix_peer(f: FabricView, h: HostView, p: RemotePrefixView) -> Option<Seq<char>> {
    match prefix_target(f, h, p) {
        Some(t) if is_srv6(h) => sid_text(host_source(f, t.remote)),
        _ => None,
    }
}

/// Adds a SID to the list, unless one with its address is in it.
pub open spec fn add_local_sid(
    list: Seq<Srv6LocalSidCfgView>,
    e: Option<Srv6LocalSidCfgView>,
) -> Seq<Srv6LocalSidCfgView> {
    match e {
        Some(e) if !has_sid(list, e.sid) => list.push(e),
        _ => list,
    }
}

/// The list has an entry with the given SID.
pub open spec fn has_sid(list: Seq<Srv6LocalSidCfgView>, sid: Seq<char>) -> bool {
    exists|i: int| 0 <= i < list.len() && (#[trigger] list[i]).sid == sid
}

/// The list with the SIDs for all prefixes.
pub open spec fn with_local_sids(
    list: Seq<Srv6LocalSidCfgView>,
    f: FabricView,
    h: HostView,
    ps: Seq<RemotePrefixView>,
) -> Seq<Srv6LocalSidCfgView>
    decreases ps.len(),
{
    if ps.len() == 0 {
        list
    } else {
        add_local_sid(
            with_local_sids(list, f, h, ps.drop_last()),
            prefix_local_sid(f, h, ps.last()),
        )
    }
}

// ---------------------------------------------------------------------------
// Entries for endpoints to flood to
// ---------------------------------------------------------------------------

/// The SRv6 entry for an endpoint to flood to.
pub open spec fn flood_srv6(f: FabricView, h: HostView, e: RemoteFlood) -> Option<
    Srv6FloodCfgView,
> {
    match remote_of(f, h, e.vtep) {
        Some(r) => match sid_for(e.srv6_sid, derived_sid(f, r, DISC_MULTICAST, e.vni)) {
            Some(sid) if is_srv6(h) => Some(
                Srv6FloodCfgView {
                    vni: e.vni,
                    remote_sid: ipv6_text(sid),
                    via_mac: mac_text(r.underlay_mac),
                    out_iface: h.underlay_iface,
                },
            ),
            _ => None,
        },
        None => None,
    }
}

/// The entry for an endpoint to flood to.
pub open spec fn flood_vtep(f: FabricView, h: HostView, e: RemoteFlood) -> Option<
    FloodVtepCfgView,
> {
    match (remote_of(f, h, e.vtep), e.vtep) {
        (Some(r), IpAddr::V4(v)) if !is_srv6(h) => Some(
            FloodVtepCfgView {
                vni: e.vni,
                remote_vtep: ipv4_text(v),
                via_mac: mac_text(r.underlay_mac),
                out_iface: h.underlay_iface,
            },
        ),
        _ => None,
    }
}

/// The source address to trust for an endpoint to flood to.
pub open spec fn flood_peer(f: FabricView, h: HostView, e: RemoteFlood) -> Option<Seq<char>> {
    if !is_srv6(h) {
        None
    } else {
        match remote_of(f, h, e.vtep) {
            Some(r) => if sid_for(e.srv6_sid, derived_sid(f, r, DISC_MULTICAST, e.vni)) is Some {
                sid_text(host_source(f, r))
            } else {
                None
            },
            None => match e.srv6_sid {
                Some(sid) if is_external(f, h, e.vtep) => sid_text(
                    recovered_source(sid, DISC_MULTICAST, e.vni),
                ),
                _ => None,
            },
        }
    }
}

// ---------------------------------------------------------------------------
// The whole
// ---------------------------------------------------------------------------

/// All the source addresses to trust.
pub open spec fn evpn_peers(f: FabricView, h: HostView, r: LearnedRoutesView) -> Seq<Seq<char>> {
    flat(r.macs, |m| one(mac_peer(f, h, m))) + flat(r.prefixes, |p| one(prefix_peer(f, h, p)))
        + flat(r.floods, |e| one(flood_peer(f, h, e)))
}

/// A host's configuration with the learned routes folded in, behind what was there.
pub open spec fn with_evpn(
    c: FileConfigView,
    h: HostView,
    f: FabricView,
    r: LearnedRoutesView,
) -> FileConfigView {
    FileConfigView {
        srv6_routes: c.srv6_routes + flat(r.macs, |m| one(mac_srv6_route(f, h, m))),
        mac_routes: c.mac_routes + flat(r.macs, |m| one(mac_route(f, h, m))),
        neighbors: c.neighbors + flat(r.macs, |m| one(mac_neighbor(f, h, m))),
        tunnels: c.tunnels + flat(r.macs, |m| one(mac_tunnel(f, h, m))),
        nd_neighbors: c.nd_neighbors + flat(r.macs, |m| one(mac_nd_neighbor(f, h, m))),
        irb_routes: c.irb_routes + flat(r.prefixes, |p| prefix_irb_routes(f, h, p)),
        srv6_irb_routes: c.srv6_irb_routes + flat(r.prefixes, |p| prefix_srv6_irb_routes(f, h, p)),
        srv6_local_sids: with_local_sids(c.srv6_local_sids, f, h, r.prefixes),
        srv6_floods: c.srv6_floods + flat(r.floods, |e| one(flood_srv6(f, h, e))),
        flood_vteps: c.flood_vteps + flat(r.floods, |e| one(flood_vtep(f, h, e))),
        srv6: match c.srv6 {
            Some(s) => Some(Srv6CfgView { peers: merged(s.peers, evpn_peers(f, h, r)), ..s }),
            None => None,
        },
        ..c
    }
}

// ---------------------------------------------------------------------------
// Looking up peers
// ---------------------------------------------------------------------------

/// The host with the given endpoint address; of several, the one with the smallest id.
pub(crate) fn find_host_at(topo: &Topology, v: Ipv4Addr) -> (r: Option<&Host>)
    requires
        topo.inv(),
    ensures
        opt_view_ref(r) == host_at(topo@, v),
{
    let hosts = topo.hosts();
    let ghost ks = Seq::new(hosts@.len(), |i: int| hosts@[i].id@);
    let ghost t = topo@;
    proof {
        keyed_domain(ks, views(hosts@));
        assert forall|i: int| 0 <= i < hosts@.len() implies t.hosts.dom().contains(
            (#[trigger] hosts@[i]).id@,
        ) && t.hosts[hosts@[i].id@] == hosts@[i]@ by {
            keyed_at(ks, views(hosts@), i);
            assert(ks[i] == hosts@[i].id@);
        }
    }
    let mut best: Option<usize> = None;
    for i in 0..hosts.len()
        invariant
            forall|j: int|
                0 <= j < i && (#[trigger] hosts@[j]).vtep_ip == v ==> best is Some && (
                hosts@[j].id@ == hosts@[best->0 as int].id@ || text_before(
                    hosts@[best->0 as int].id@,
                    hosts@[j].id@,
                )),
            best matches Some(b) ==> b < i && hosts@[b as int].vtep_ip == v,
    {
        if hosts[i].vtep_ip == v {
            match best {
                Some(b) => {
                    if text_precedes(hosts[i].id.as_str(), hosts[b].id.as_str()) {
                        let ghost ni = hosts@[i as int].id@;
                        let ghost nb = hosts@[b as int].id@;
                        assert forall|j: int|
                            0 <= j < i + 1 && (#[trigger] hosts@[j]).vtep_ip == v implies
                                hosts@[j].id@
                            == ni || text_before(ni, hosts@[j].id@) by {
                            if j < i && hosts@[j].id@ != nb {
                                text_transitive(ni, nb, hosts@[j].id@);
                            }
                        }
                        best = Some(i);
                    } else {
                        proof {
                            text_total(hosts@[i as int].id@, hosts@[b as int].id@);
                        }
                    }
                },
                None => {
                    best = Some(i);
                },
            }
        }
    }
    match best {
        Some(b) => {
            proof {
                let id = hosts@[b as int].id@;
                assert forall|o: Seq<char>| #[trigger]
                    t.hosts.dom().contains(o) && t.hosts[o].vtep_ip == v implies o == id
                    || text_before(id, o) by {
                    let j = choose|j: int| 0 <= j < ks.len() && ks[j] == o;
                    assert(hosts@[j].id@ == o);
                }
                assert(is_host_at(t, v, id));
                let other = choose|o: Seq<char>| is_host_at(t, v, o);
                assert(is_host_at(t, v, other));
                if other != id {
                    text_transitive(id, other, id);
                    text_irreflexive(id);
                }
            }
            Some(&hosts[b])
        },
        None => {
            proof {
                assert forall|o: Seq<char>| !is_host_at(t, v, o) by {
                    if is_host_at(t, v, o) {
                        assert(ks.contains(o));
                        let j = choose|j: int| 0 <= j < ks.len() && ks[j] == o;
                        assert(hosts@[j].id@ == o);
                    }
                }
            }
            None
        },
    }
}

/// The view of a reference that may be absent.
pub open spec fn opt_view_ref(r: Option<&Host>) -> Option<HostView> {
    match r {
        Some(h) => Some(h@),
        None => None,
    }
}

fn find_remote<'a>(f: &'a Fabric, h: &Host, vtep: IpAddr) -> (r: Option<&'a Host>)
    requires
        f.inv(),
    ensures
        opt_view_ref(r) == remote_of(f@, h@, vtep),
{
    match vtep {
        IpAddr::V4(v) => if v == h.vtep_ip {
            None
        } else {
            find_host_at(&f.topo, v)
        },
        IpAddr::V6(_) => None,
    }
}

fn check_external(f: &Fabric, h: &Host, vtep: IpAddr) -> (r: bool)
    requires
        f.inv(),
    ensures
        r == is_external(f@, h@, vtep),
{
    match vtep {
        IpAddr::V4(v) => v != h.vtep_ip && find_host_at(&f.topo, v).is_none(),
        IpAddr::V6(_) => false,
    }
}

fn derive_sid(f: &Fabric, h: &Host, disc: u8, vni: u32) -> (r: Option<Ipv6Addr>)
    requires
        f.inv(),
    ensures
        r == derived_sid(f@, h@, disc, vni),
{
    let key = TextKey { text: h.id.clone() };
    match f.locators.get(&key) {
        Some(l) => srv6_service_sid(*l, disc, vni),
        None => None,
    }
}

/// The unicast service SID that the fabric derives for a host.
pub fn derived_unicast_sid(f: &Fabric, remote: &Host, vni: u32) -> (r: Option<Ipv6Addr>)
    requires
        f.inv(),
    ensures
        r == derived_sid(f@, remote@, DISC_UNICAST, vni),
{
    derive_sid(f, remote, DISC_UNICAST, vni)
}

/// The flood service SID that the fabric derives for a host.
pub fn derived_multicast_sid(f: &Fabric, remote: &Host, vni: u32) -> (r: Option<Ipv6Addr>)
    requires
        f.inv(),
    ensures
        r == derived_sid(f@, remote@, DISC_MULTICAST, vni),
{
    derive_sid(f, remote, DISC_MULTICAST, vni)
}

/// The outer source address of a host.
pub fn srv6_src(f: &Fabric, h: &Host) -> (r: Option<Ipv6Addr>)
    requires
        f.inv(),
    ensures
        r == host_source(f@, h@),
{
    let key = TextKey { text: h.id.clone() };
    match f.locators.get(&key) {
        Some(l) => l.srv6_src(),
        None => None,
    }
}

pub(crate) fn source_text(f: &Fabric, h: &Host) -> (r: Option<String>)
    requires
        f.inv(),
    ensures
        opt_view(r) == sid_text(host_source(f@, h@)),
{
    match srv6_src(f, h) {
        Some(a) => Some(a.to_string()),
        None => None,
    }
}

/// The source address of a peer outside the fabric, as its service SID gives it.
pub fn external_peer_decap_src(learned_sid: Ipv6Addr, disc: u8, vni: u32) -> (r: Option<Ipv6Addr>)
    ensures
        r == recovered_source(learned_sid, disc, vni),
{
    locator_src_from_service_sid(learned_sid, disc, vni)
}

fn external_source_text(sid: Ipv6Addr, disc: u8, vni: u32) -> (r: Option<String>)
    ensures
        opt_view(r) == sid_text(recovered_source(sid, disc, vni)),
{
    match external_peer_decap_src(sid, disc, vni) {
        Some(a) => Some(a.to_string()),
        None => None,
    }
}

fn choose_sid(learned: Option<Ipv6Addr>, derived: Option<Ipv6Addr>) -> (r: Option<Ipv6Addr>)
    ensures
        r == sid_for(learned, derived),
{
    match learned {
        Some(s) => Some(s),
        None => derived,
    }
}

// ---------------------------------------------------------------------------
// One entry
// ---------------------------------------------------------------------------

fn make_mac_srv6_route(f: &Fabric, h: &Host, m: &RemoteMac) -> (r: Option<Srv6RouteCfg>)
    requires
        f.inv(),
    ensures
        opt_view(r) == mac_srv6_route(f@, h@, *m),
{
    match find_remote(f, h, m.vtep) {
        Some(remote) => match choose_sid(m.srv6_sid, derived_unicast_sid(f, remote, m.vni)) {
            Some(sid) => if h.encap.is_srv6() {
                Some(
                    Srv6RouteCfg {
                        vni: m.vni,
                        mac: fmt_mac(m.mac),
                        remote_sid: sid.to_string(),
                        via_mac: fmt_mac(remote.underlay_mac),
                        out_iface: h.underlay_iface.clone(),
                    },
                )
            } else {
                None
            },
            None => None,
        },
        None => None,
    }
}

fn make_mac_route(f: &Fabric, h: &Host, m: &RemoteMac) -> (r: Option<MacRouteCfg>)
    requires
        f.inv(),
    ensures
        opt_view(r) == mac_route(f@, h@, *m),
{
    match (find_remote(f, h, m.vtep), m.vtep) {
        (Some(remote), IpAddr::V4(v)) => if h.encap.is_srv6() {
            None
        } else {
            Some(
                MacRouteCfg {
                    vni: m.vni,
                    mac: fmt_mac(m.mac),
                    remote_vtep: v.to_string(),
                    via_mac: fmt_mac(remote.underlay_mac),
                    out_iface: h.underlay_iface.clone(),
                },
            )
        },
        _ => None,
    }
}

fn check_reachable(f: &Fabric, h: &Host, m: &RemoteMac) -> (r: bool)
    requires
        f.inv(),
    ensures
        r == is_reachable(f@, h@, *m),
{
    match find_remote(f, h, m.vtep) {
        Some(remote) => {
            !h.encap.is_srv6() || choose_sid(
                m.srv6_sid,
                derived_unicast_sid(f, remote, m.vni),
            ).is_some()
        },
        None => false,
    }
}

fn make_mac_neighbor(f: &Fabric, h: &Host, m: &RemoteMac) -> (r: Option<NeighborCfg>)
    requires
        f.inv(),
    ensures
        opt_view(r) == mac_neighbor(f@, h@, *m),
{
    match m.ip {
        Some(IpAddr::V4(ip)) => if check_reachable(f, h, m) {
            Some(NeighborCfg { vni: m.vni, ip: ip.to_string(), mac: fmt_mac(m.mac) })
        } else {
            None
        },
        _ => None,
    }
}

fn make_mac_tunnel(f: &Fabric, h: &Host, m: &RemoteMac) -> (r: Option<TunnelCfg>)
    requires
        f.inv(),
    ensures
        opt_view(r) == mac_tunnel(f@, h@, *m),
{
    match (find_remote(f, h, m.vtep), m.vtep, m.ip) {
        (Some(remote), IpAddr::V4(v), Some(IpAddr::V4(ip))) => if h.encap.is_srv6() {
            None
        } else {
            let mut inner_dst = ip.to_string();
            inner_dst.append("/32");
            Some(
                TunnelCfg {
                    vni: m.vni,
                    inner_dst,
                    remote_vtep: v.to_string(),
                    via_mac: fmt_mac(remote.underlay_mac),
                    out_iface: h.underlay_iface.clone(),
                },
            )
        },
        _ => None,
    }
}

fn make_mac_nd_neighbor(f: &Fabric, h: &Host, m: &RemoteMac) -> (r: Option<Nd6Cfg>)
    requires
        f.inv(),
    ensures
        opt_view(r) == mac_nd_neighbor(f@, h@, *m),
{
    match m.ip {
        Some(IpAddr::V6(ip)) => if check_reachable(f, h, m) {
            Some(Nd6Cfg { vni: m.vni, ip: ip.to_string(), mac: fmt_mac(m.mac) })
        } else {
            None
        },
        _ => None,
    }
}

fn make_mac_peer(f: &Fabric, h: &Host, m: &RemoteMac) -> (r: Option<String>)
    requires
        f.inv(),
    ensures
        opt_view(r) == mac_peer(f@, h@, *m),
{
    if !h.encap.is_srv6() {
        return None;
    }
    match find_remote(f, h, m.vtep) {
        Some(remote) => if choose_sid(
            m.srv6_sid,
            derived_unicast_sid(f, remote, m.vni),
        ).is_some() {
            source_text(f, remote)
        } else {
            None
        },
        None => match m.srv6_sid {
            Some(sid) => if check_external(f, h, m.vtep) {
                external_source_text(sid, DISC_UNICAST, m.vni)
            } else {
                None
            },
            None => None,
        },
    }
}

fn make_flood_srv6(f: &Fabric, h: &Host, e: &RemoteFlood) -> (r: Option<Srv6FloodCfg>)
    requires
        f.inv(),
    ensures
        opt_view(r) == flood_srv6(f@, h@, *e),
{
    match find_remote(f, h, e.vtep) {
        Some(remote) => match choose_sid(e.srv6_sid, derived_multicast_sid(f, remote, e.vni)) {
            Some(sid) => if h.encap.is_srv6() {
                Some(
                    Srv6FloodCfg {
                        vni: e.vni,
                        remote_sid: sid.to_string(),
                        via_mac: fmt_mac(remote.underlay_mac),
                        out_iface: h.underlay_iface.clone(),
                    },
                )
            } else {
                None
            },
            None => None,
        },
        None => None,
    }
}

fn make_flood_vtep(f: &Fabric, h: &Host, e: &RemoteFlood) -> (r: Option<FloodVtepCfg>)
    requires
        f.inv(),
    ensures
        opt_view(r) == flood_vtep(f@, h@, *e),
{
    match (find_remote(f, h, e.vtep), e.vtep) {
        (Some(remote), IpAddr::V4(v)) => if h.encap.is_srv6() {
            None
        } else {
            Some(
                FloodVtepCfg {
                    vni: e.vni,
                    remote_vtep: v.to_string(),
                    via_mac: fmt_mac(remote.underlay_mac),
                    out_iface: h.underlay_iface.clone(),
                },
            )
        },
        _ => None,
    }
}

fn make_flood_peer(f: &Fabric, h: &Host, e: &RemoteFlood) -> (r: Option<String>)
    requires
        f.inv(),
    ensures
        opt_view(r) == flood_peer(f@, h@, *e),
{
    if !h.encap.is_srv6() {
        return None;
    }
    match find_remote(f, h, e.vtep) {
        Some(remote) => if choose_sid(
            e.srv6_sid,
            derived_multicast_sid(f, remote, e.vni),
        ).is_some() {
            source_text(f, remote)
        } else {
            None
        },
        None => match e.srv6_sid {
            Some(sid) => if check_external(f, h, e.vtep) {
                external_source_text(sid, DISC_MULTICAST, e.vni)
            } else {
                None
            },
            None => None,
        },
    }
}

/// Where a prefix is routed: the routing context, the egress router's MAC address, the peer and its
/// endpoint, and the peer's SID.
struct Target<'a> {
    vrf: &'a IpVrf,
    router_mac: [u8; 6],
    remote: &'a Host,
    vtep: Ipv4Addr,
    sid: Option<Ipv6Addr>,
}

pub(crate) fn has_dot(s: &str) -> (r: bool)
    ensures
        r == (find_char(s@, '.') < s@.len()),
{
    let v = chars_of(s);
    assert(v@.skip(0) =~= v@);
    let i: usize = find_from(&v, '.', 0);
    i < v.len()
}

fn find_target<'a>(f: &'a Fabric, h: &Host, p: &RemotePrefix) -> (r: Option<Target<'a>>)
    requires
        f.inv(),
    ensures
        match r {
            Some(t) => prefix_target(f@, h@, p@) == Some(
                PrefixTarget {
                    vrf: t.vrf@,
                    router_mac: t.router_mac,
                    remote: t.remote@,
                    vtep: t.vtep,
                    sid: t.sid,
                },
            ),
            None => prefix_target(f@, h@, p@) is None,
        },
{
    let key = NumberKey { number: p.l3_vni };
    let vrf = match f.ip_vrfs.get(&key) {
        Some(v) => v,
        None => {
            return None;
        },
    };
    assert(f@.ip_vrfs.dom().contains(p.l3_vni));
    match (p.router_mac, find_remote(f, h, p.vtep), p.vtep) {
        (Some(router_mac), Some(remote), IpAddr::V4(vtep)) => {
            if !has_dot(p.prefix.as_str()) {
                return None;
            }
            let sid = derived_unicast_sid(f, remote, p.l3_vni);
            if h.encap.is_srv6() && sid.is_none() {
                return None;
            }
            Some(Target { vrf, router_mac, remote, vtep, sid })
        },
        _ => None,
    }
}

fn make_irb_routes(f: &Fabric, h: &Host, p: &RemotePrefix) -> (r: Vec<IrbRouteCfg>)
    requires
        f.inv(),
    ensures
        views(r@) == prefix_irb_routes(f@, h@, p@),
{
    let mut out: Vec<IrbRouteCfg> = Vec::new();
    match find_target(f, h, p) {
        Some(t) => {
            if h.encap.is_srv6() {
                assert(views(out@) =~= Seq::empty());
                return out;
            }
            let ghost want = prefix_irb_routes(f@, h@, p@);
            for i in 0..t.vrf.networks.len()
                invariant
                    want == prefix_irb_routes(f@, h@, p@),
                    want.len() == t.vrf.networks@.len(),
                    !is_srv6(h@),
                    prefix_target(f@, h@, p@) == Some(
                        PrefixTarget {
                            vrf: t.vrf@,
                            router_mac: t.router_mac,
                            remote: t.remote@,
                            vtep: t.vtep,
                            sid: t.sid,
                        },
                    ),
                    out@.len() == i,
                    forall|j: int| 0 <= j < i ==> (#[trigger] out@[j])@ == want[j],
            {
                out.push(
                    IrbRouteCfg {
                        vni: t.vrf.networks[i],
                        inner_dst: p.prefix.clone(),
                        l3_vni: p.l3_vni,
                        remote_vtep: t.vtep.to_string(),
                        via_mac: fmt_mac(t.remote.underlay_mac),
                        out_iface: h.underlay_iface.clone(),
                        router_mac: fmt_mac(t.router_mac),
                        gateway_mac: fmt_mac(t.vrf.gateway_mac),
                    },
                );
            }
            assert(views(out@) =~= want);
        },
        None => {
            assert(views(out@) =~= Seq::empty());
        },
    }
    out
}

fn make_srv6_irb_routes(f: &Fabric, h: &Host, p: &RemotePrefix) -> (r: Vec<Srv6IrbRouteCfg>)
    requires
        f.inv(),
    ensures
        views(r@) == prefix_srv6_irb_routes(f@, h@, p@),
{
    let mut out: Vec<Srv6IrbRouteCfg> = Vec::new();
    match find_target(f, h, p) {
        Some(t) => {
            let sid = match t.sid {
                Some(sid) => if h.encap.is_srv6() {
                    sid
                } else {
                    assert(views(out@) =~= Seq::empty());
                    return out;
                },
                None => {
                    assert(views(out@) =~= Seq::empty());
                    return out;
                },
            };
            let ghost want = prefix_srv6_irb_routes(f@, h@, p@);
            for i in 0..t.vrf.networks.len()
                invariant
                    want == prefix_srv6_irb_routes(f@, h@, p@),
                    want.len() == t.vrf.networks@.len(),
                    is_srv6(h@),
                    t.sid == Some(sid),
                    prefix_target(f@, h@, p@) == Some(
                        PrefixTarget {
                            vrf: t.vrf@,
                            router_mac: t.router_mac,
                            remote: t.remote@,
                            vtep: t.vtep,
                            sid: t.sid,
                        },
                    ),
                    out@.len() == i,
                    forall|j: int| 0 <= j < i ==> (#[trigger] out@[j])@ == want[j],
            {
                out.push(
                    Srv6IrbRouteCfg {
                        vni: t.vrf.networks[i],
                        inner_dst: p.prefix.clone(),
                        l3_vni: p.l3_vni,
                        remote_sid: sid.to_string(),
                        via_mac: fmt_mac(t.remote.underlay_mac),
                        out_iface: h.underlay_iface.clone(),
                        router_mac: fmt_mac(t.router_mac),
                        gateway_mac: fmt_mac(t.vrf.gateway_mac),
                    },
                );
            }
            assert(views(out@) =~= want);
        },
        None => {
            assert(views(out@) =~= Seq::empty());
        },
    }
    out
}

fn make_local_sid(f: &Fabric, h: &Host, p: &RemotePrefix) -> (r: Option<Srv6LocalSidCfg>)
    requires
        f.inv(),
    ensures
        opt_view(r) == prefix_local_sid(f@, h@, p@),
{
    if !h.encap.is_srv6() || find_target(f, h, p).is_none() {
        return None;
    }
    match derived_unicast_sid(f, h, p.l3_vni) {
        Some(own) => Some(
            Srv6LocalSidCfg {
                sid: own.to_string(),
                vni: p.l3_vni,
                behavior: Some(String::from_str("end.dt2u")),
            },
        ),
        None => None,
    }
}

fn make_prefix_peer(f: &Fabric, h: &Host, p: &RemotePrefix) -> (r: Option<String>)
    requires
        f.inv(),
    ensures
        opt_view(r) == prefix_peer(f@, h@, p@),
{
    match find_target(f, h, p) {
        Some(t) => if h.encap.is_srv6() {
            source_text(f, t.remote)
        } else {
            None
        },
        None => None,
    }
}

// ---------------------------------------------------------------------------
// All entries
// ---------------------------------------------------------------------------

fn mac_srv6_routes(f: &Fabric, h: &Host, xs: &Vec<RemoteMac>) -> (r: Vec<Srv6RouteCfg>)
    requires
        f.inv(),
    ensures
        views(r@) == flat(xs@, |x: RemoteMac| one(mac_srv6_route(f@, h@, x))),
{
    let ghost s = xs@;
    let ghost w = |x: RemoteMac| one(mac_srv6_route(f@, h@, x));
    let mut out: Vec<Srv6RouteCfg> = Vec::new();
    assert(views(out@) =~= flat(s.take(0), w));
    for i in 0..xs.len()
        invariant
            f.inv(),
            s == xs@,
            w == (|x: RemoteMac| one(mac_srv6_route(f@, h@, x))),
            views(out@) == flat(s.take(i as int), w),
    {
        proof {
            flat_step(s, w, i as int);
        }
        let ghost before = views(out@);
        match make_mac_srv6_route(f, h, &xs[i]) {
            Some(e) => {
                out.push(e);
                assert(views(out@) =~= before + seq![e@]);
            },
            None => {
                assert(before =~= before + Seq::empty());
            },
        }
    }
    assert(s.take(xs@.len() as int) =~= s);
    out
}

fn mac_routes(f: &Fabric, h: &Host, xs: &Vec<RemoteMac>) -> (r: Vec<MacRouteCfg>)
    requires
        f.inv(),
    ensures
        views(r@) == flat(xs@, |x: RemoteMac| one(mac_route(f@, h@, x))),
{
    let ghost s = xs@;
    let ghost w = |x: RemoteMac| one(mac_route(f@, h@, x));
    let mut out: Vec<MacRouteCfg> = Vec::new();
    assert(views(out@) =~= flat(s.take(0), w));
    for i in 0..xs.len()
        invariant
            f.inv(),
            s == xs@,
            w == (|x: RemoteMac| one(mac_route(f@, h@, x))),
            views(out@) == flat(s.take(i as int), w),
    {
        proof {
            flat_step(s, w, i as int);
        }
        let ghost before = views(out@);
        match make_mac_route(f, h, &xs[i]) {
            Some(e) => {
                out.push(e);
                assert(views(out@) =~= before + seq![e@]);
            },
            None => {
                assert(before =~= before + Seq::empty());
            },
        }
    }
    assert(s.take(xs@.len() as int) =~= s);
    out
}

fn mac_neighbors(f: &Fabric, h: &Host, xs: &Vec<RemoteMac>) -> (r: Vec<NeighborCfg>)
    requires
        f.inv(),
    ensures
        views(r@) == flat(xs@, |x: RemoteMac| one(mac_neighbor(f@, h@, x))),
{
    let ghost s = xs@;
    let ghost w = |x: RemoteMac| one(mac_neighbor(f@, h@, x));
    let mut out: Vec<NeighborCfg> = Vec::new();
    assert(views(out@) =~= flat(s.take(0), w));
    for i in 0..xs.len()
        invariant
            f.inv(),
            s == xs@,
            w == (|x: RemoteMac| one(mac_neighbor(f@, h@, x))),
            views(out@) == flat(s.take(i as int), w),
    {
        proof {
            flat_step(s, w, i as int);
        }
        let ghost before = views(out@);
        match make_mac_neighbor(f, h, &xs[i]) {
            Some(e) => {
                out.push(e);
                assert(views(out@) =~= before + seq![e@]);
            },
            None => {
                assert(before =~= before + Seq::empty());
            },
        }
    }
    assert(s.take(xs@.len() as int) =~= s);
    out
}

fn mac_tunnels(f: &Fabric, h: &Host, xs: &Vec<RemoteMac>) -> (r: Vec<TunnelCfg>)
    requires
        f.inv(),
    ensures
        views(r@) == flat(xs@, |x: RemoteMac| one(mac_tunnel(f@, h@, x))),
{
    let ghost s = xs@;
    let ghost w = |x: RemoteMac| one(mac_tunnel(f@, h@, x));
    let mut out: Vec<TunnelCfg> = Vec::new();
    assert(views(out@) =~= flat(s.take(0), w));
    for i in 0..xs.len()
        invariant
            f.inv(),
            s == xs@,
            w == (|x: RemoteMac| one(mac_tunnel(f@, h@, x))),
            views(out@) == flat(s.take(i as int), w),
    {
        proof {
            flat_step(s, w, i as int);
        }
        let ghost before = views(out@);
        match make_mac_tunnel(f, h, &xs[i]) {
            Some(e) => {
                out.push(e);
                assert(views(out@) =~= before + seq![e@]);
            },
            None => {
                assert(before =~= before + Seq::empty());
            },
        }
    }
    assert(s.take(xs@.len() as int) =~= s);
    out
}

fn mac_nd_neighbors(f: &Fabric, h: &Host, xs: &Vec<RemoteMac>) -> (r: Vec<Nd6Cfg>)
    requires
        f.inv(),
    ensures
        views(r@) == flat(xs@, |x: RemoteMac| one(mac_nd_neighbor(f@, h@, x))),
{
    let ghost s = xs@;
    let ghost w = |x: RemoteMac| one(mac_nd_neighbor(f@, h@, x));
    let mut out: Vec<Nd6Cfg> = Vec::new();
    assert(views(out@) =~= flat(s.take(0), w));
    for i in 0..xs.len()
        invariant
            f.inv(),
            s == xs@,
            w == (|x: RemoteMac| one(mac_nd_neighbor(f@, h@, x))),
            views(out@) == flat(s.take(i as int), w),
    {
        proof {
            flat_step(s, w, i as int);
        }
        let ghost before = views(out@);
        match make_mac_nd_neighbor(f, h, &xs[i]) {
            Some(e) => {
                out.push(e);
                assert(views(out@) =~= before + seq![e@]);
            },
            None => {
                assert(before =~= before + Seq::empty());
            },
        }
    }
    assert(s.take(xs@.len() as int) =~= s);
    out
}

fn mac_peers(f: &Fabric, h: &Host, xs: &Vec<RemoteMac>) -> (r: Vec<String>)
    requires
        f.inv(),
    ensures
        views(r@) == flat(xs@, |x: RemoteMac| one(mac_peer(f@, h@, x))),
{
    let ghost s = xs@;
    let ghost w = |x: RemoteMac| one(mac_peer(f@, h@, x));
    let mut out: Vec<String> = Vec::new();
    assert(views(out@) =~= flat(s.take(0), w));
    for i in 0..xs.len()
        invariant
            f.inv(),
            s == xs@,
            w == (|x: RemoteMac| one(mac_peer(f@, h@, x))),
            views(out@) == flat(s.take(i as int), w),
    {
        proof {
            flat_step(s, w, i as int);
        }
        let ghost before = views(out@);
        match make_mac_peer(f, h, &xs[i]) {
            Some(e) => {
                out.push(e);
                assert(views(out@) =~= before + seq![e@]);
            },
            None => {
                assert(before =~= before + Seq::empty());
            },
        }
    }
    assert(s.take(xs@.len() as int) =~= s);
    out
}

fn irb_routes(f: &Fabric, h: &Host, xs: &Vec<RemotePrefix>) -> (r: Vec<IrbRouteCfg>)
    requires
        f.inv(),
    ensures
        views(r@) == flat(views(xs@), |x: RemotePrefixView| prefix_irb_routes(f@, h@, x)),
{
    let ghost s = views(xs@);
    let ghost w = |x: RemotePrefixView| prefix_irb_routes(f@, h@, x);
    let mut out: Vec<IrbRouteCfg> = Vec::new();
    assert(views(out@) =~= flat(s.take(0), w));
    for i in 0..xs.len()
        invariant
            f.inv(),
            s == views(xs@),
            w == (|x: RemotePrefixView| prefix_irb_routes(f@, h@, x)),
            views(out@) == flat(s.take(i as int), w),
    {
        proof {
            flat_step(s, w, i as int);
        }
        let ghost before = views(out@);
        let mut more = make_irb_routes(f, h, &xs[i]);
        let ghost added = more@;
        out.append(&mut more);
        assert(views(out@) =~= before + views(added));
    }
    assert(s.take(xs@.len() as int) =~= s);
    out
}

fn srv6_irb_routes(f: &Fabric, h: &Host, xs: &Vec<RemotePrefix>) -> (r: Vec<Srv6IrbRouteCfg>)
    requires
        f.inv(),
    ensures
        views(r@) == flat(views(xs@), |x: RemotePrefixView| prefix_srv6_irb_routes(f@, h@, x)),
{
    let ghost s = views(xs@);
    let ghost w = |x: RemotePrefixView| prefix_srv6_irb_routes(f@, h@, x);
    let mut out: Vec<Srv6IrbRouteCfg> = Vec::new();
    assert(views(out@) =~= flat(s.take(0), w));
    for i in 0..xs.len()
        invariant
            f.inv(),
            s == views(xs@),
            w == (|x: RemotePrefixView| prefix_srv6_irb_routes(f@, h@, x)),
            views(out@) == flat(s.take(i as int), w),
    {
        proof {
            flat_step(s, w, i as int);
        }
        let ghost before = views(out@);
        let mut more = make_srv6_irb_routes(f, h, &xs[i]);
        let ghost added = more@;
        out.append(&mut more);
        assert(views(out@) =~= before + views(added));
    }
    assert(s.take(xs@.len() as int) =~= s);
    out
}

fn prefix_peers(f: &Fabric, h: &Host, xs: &Vec<RemotePrefix>) -> (r: Vec<String>)
    requires
        f.inv(),
    ensures
        views(r@) == flat(views(xs@), |x: RemotePrefixView| one(prefix_peer(f@, h@, x))),
{
    let ghost s = views(xs@);
    let ghost w = |x: RemotePrefixView| one(prefix_peer(f@, h@, x));
    let mut out: Vec<String> = Vec::new();
    assert(views(out@) =~= flat(s.take(0), w));
    for i in 0..xs.len()
        invariant
            f.inv(),
            s == views(xs@),
            w == (|x: RemotePrefixView| one(prefix_peer(f@, h@, x))),
            views(out@) == flat(s.take(i as int), w),
    {
        proof {
            flat_step(s, w, i as int);
        }
        let ghost before = views(out@);
        match make_prefix_peer(f, h, &xs[i]) {
            Some(e) => {
                out.push(e);
                assert(views(out@) =~= before + seq![e@]);
            },
            None => {
                assert(before =~= before + Seq::empty());
            },
        }
    }
    assert(s.take(xs@.len() as int) =~= s);
    out
}

fn srv6_floods(f: &Fabric, h: &Host, xs: &Vec<RemoteFlood>) -> (r: Vec<Srv6FloodCfg>)
    requires
        f.inv(),
    ensures
        views(r@) == flat(xs@, |x: RemoteFlood| one(flood_srv6(f@, h@, x))),
{
    let ghost s = xs@;
    let ghost w = |x: RemoteFlood| one(flood_srv6(f@, h@, x));
    let mut out: Vec<Srv6FloodCfg> = Vec::new();
    assert(views(out@) =~= flat(s.take(0), w));
    for i in 0..xs.len()
        invariant
            f.inv(),
            s == xs@,
            w == (|x: RemoteFlood| one(flood_srv6(f@, h@, x))),
            views(out@) == flat(s.take(i as int), w),
    {
        proof {
            flat_step(s, w, i as int);
        }
        let ghost before = views(out@);
        match make_flood_srv6(f, h, &xs[i]) {
            Some(e) => {
                out.push(e);
                assert(views(out@) =~= before + seq![e@]);
            },
            None => {
                assert(before =~= before + Seq::empty());
            },
        }
    }
    assert(s.take(xs@.len() as int) =~= s);
    out
}

fn flood_vteps(f: &Fabric, h: &Host, xs: &Vec<RemoteFlood>) -> (r: Vec<FloodVtepCfg>)
    requires
        f.inv(),
    ensures
        views(r@) == flat(xs@, |x: RemoteFlood| one(flood_vtep(f@, h@, x))),
{
    let ghost s = xs@;
    let ghost w = |x: RemoteFlood| one(flood_vtep(f@, h@, x));
    let mut out: Vec<FloodVtepCfg> = Vec::new();
    assert(views(out@) =~= flat(s.take(0), w));
    for i in 0..xs.len()
        invariant
            f.inv(),
            s == xs@,
            w == (|x: RemoteFlood| one(flood_vtep(f@, h@, x))),
            views(out@) == flat(s.take(i as int), w),
    {
        proof {
            flat_step(s, w, i as int);
        }
        let ghost before = views(out@);
        match make_flood_vtep(f, h, &xs[i]) {
            Some(e) => {
                out.push(e);
                assert(views(out@) =~= before + seq![e@]);
            },
            None => {
                assert(before =~= before + Seq::empty());
            },
        }
    }
    assert(s.take(xs@.len() as int) =~= s);
    out
}

fn flood_peers(f: &Fabric, h: &Host, xs: &Vec<RemoteFlood>) -> (r: Vec<String>)
    requires
        f.inv(),
    ensures
        views(r@) == flat(xs@, |x: RemoteFlood| one(flood_peer(f@, h@, x))),
{
    let ghost s = xs@;
    let ghost w = |x: RemoteFlood| one(flood_peer(f@, h@, x));
    let mut out: Vec<String> = Vec::new();
    assert(views(out@) =~= flat(s.take(0), w));
    for i in 0..xs.len()
        invariant
            f.inv(),
            s == xs@,
            w == (|x: RemoteFlood| one(flood_peer(f@, h@, x))),
            views(out@) == flat(s.take(i as int), w),
    {
        proof {
            flat_step(s, w, i as int);
        }
        let ghost before = views(out@);
        match make_flood_peer(f, h, &xs[i]) {
            Some(e) => {
                out.push(e);
                assert(views(out@) =~= before + seq![e@]);
            },
            None => {
                assert(before =~= before + Seq::empty());
            },
        }
    }
    assert(s.take(xs@.len() as int) =~= s);
    out
}

fn add_local_sids(list: &mut Vec<Srv6LocalSidCfg>, f: &Fabric, h: &Host, ps: &Vec<RemotePrefix>)
    requires
        f.inv(),
    ensures
        views(final(list)@) == with_local_sids(views(old(list)@), f@, h@, views(ps@)),
{
    let ghost start = views(list@);
    let ghost s = views(ps@);
    assert(s.take(0) =~= Seq::empty());
    for i in 0..ps.len()
        invariant
            f.inv(),
            s == views(ps@),
            views(list@) == with_local_sids(start, f@, h@, s.take(i as int)),
    {
        assert(s.take(i + 1).drop_last() =~= s.take(i as int));
        assert(s.take(i + 1).last() == ps@[i as int]@);
        let ghost before = views(list@);
        match make_local_sid(f, h, &ps[i]) {
            Some(e) => {
                if !lists_sid(list, e.sid.as_str()) {
                    list.push(e);
                    assert(views(list@) =~= before.push(e@));
                }
            },
            None => {},
        }
    }
    assert(s.take(ps@.len() as int) =~= s);
}

fn lists_sid(list: &Vec<Srv6LocalSidCfg>, sid: &str) -> (r: bool)
    ensures
        r == has_sid(views(list@), sid@),
{
    for i in 0..list.len()
        invariant
            forall|j: int| 0 <= j < i ==> (#[trigger] views(list@)[j]).sid != sid@,
    {
        if same(list[i].sid.as_str(), sid) {
            assert(views(list@)[i as int].sid == sid@);
            return true;
        }
    }
    false
}

pub(crate) fn contains_text(list: &Vec<String>, s: &str) -> (r: bool)
    ensures
        r == views(list@).contains(s@),
{
    for i in 0..list.len()
        invariant
            forall|j: int| 0 <= j < i ==> #[trigger] views(list@)[j] != s@,
    {
        if same(list[i].as_str(), s) {
            assert(views(list@)[i as int] == s@);
            return true;
        }
    }
    false
}

/// Adds texts to a list, each unless it is in the list already.
pub fn merge_texts(list: &mut Vec<String>, more: &Vec<String>)
    ensures
        views(final(list)@) == merged(views(old(list)@), views(more@)),
{
    let ghost start = views(list@);
    let ghost s = views(more@);
    assert(s.take(0) =~= Seq::empty());
    for i in 0..more.len()
        invariant
            s == views(more@),
            views(list@) == merged(start, s.take(i as int)),
    {
        proof {
            merged_step(start, s, i as int);
        }
        let ghost before = views(list@);
        if !contains_text(list, more[i].as_str()) {
            let t = more[i].clone();
            list.push(t);
            assert(views(list@) =~= before.push(t@));
        }
    }
    assert(s.take(more@.len() as int) =~= s);
}

fn append_all<T: View>(list: &mut Vec<T>, more: Vec<T>)
    ensures
        views(final(list)@) == views(old(list)@) + views(more@),
{
    let ghost start = list@;
    let ghost added = more@;
    let mut more = more;
    list.append(&mut more);
    assert(views(list@) =~= views(start) + views(added));
}

fn all_peers(f: &Fabric, h: &Host, routes: &LearnedRoutes) -> (r: Vec<String>)
    requires
        f.inv(),
    ensures
        views(r@) == evpn_peers(f@, h@, routes@),
{
    let mut peers = mac_peers(f, h, &routes.macs);
    append_all(&mut peers, prefix_peers(f, h, &routes.prefixes));
    append_all(&mut peers, flood_peers(f, h, &routes.floods));
    peers
}

/// Folds learned routes into a host's configuration. What lands in which table follows the host's
/// own encapsulation; an SRv6 host also trusts the source address of every peer it sends to.
pub fn append_evpn_entries(file: &mut FileConfig, host: &Host, f: &Fabric, routes: &LearnedRoutes)
    requires
        f.inv(),
    ensures
        final(file)@ == with_evpn(old(file)@, host@, f@, routes@),
{
    append_all(&mut file.srv6_routes, mac_srv6_routes(f, host, &routes.macs));
    append_all(&mut file.mac_routes, mac_routes(f, host, &routes.macs));
    append_all(&mut file.neighbors, mac_neighbors(f, host, &routes.macs));
    append_all(&mut file.tunnels, mac_tunnels(f, host, &routes.macs));
    append_all(&mut file.nd_neighbors, mac_nd_neighbors(f, host, &routes.macs));
    append_all(&mut file.irb_routes, irb_routes(f, host, &routes.prefixes));
    append_all(&mut file.srv6_irb_routes, srv6_irb_routes(f, host, &routes.prefixes));
    add_local_sids(&mut file.srv6_local_sids, f, host, &routes.prefixes);
    append_all(&mut file.srv6_floods, srv6_floods(f, host, &routes.floods));
    append_all(&mut file.flood_vteps, flood_vteps(f, host, &routes.floods));
    let peers = all_peers(f, host, routes);
    let srv6 = file.srv6.take();
    file.srv6 = match srv6 {
        Some(s) => {
            let mut list = s.peers;
            merge_texts(&mut list, &peers);
            Some(Srv6Cfg { local_src: s.local_src, peers: list })
        },
        None => None,
    };
    assert(file@ =~= with_evpn(old(file)@, host@, f@, routes@));
}

// ---------------------------------------------------------------------------
// From the learned state
// ---------------------------------------------------------------------------

/// The routes of the learned state, each table in the order of its keys.
pub open spec fn routes_of(l: LearnedView) -> LearnedRoutesView {
    LearnedRoutesView {
        macs: ordered::<MacKey>(l.macs.dom()).map_values(
            |k: (u32, [u8; 6])|
                RemoteMac {
                    vni: k.0,
                    mac: k.1,
                    vtep: l.macs[k].vtep,
                    ip: l.macs[k].ip,
                    srv6_sid: l.macs[k].srv6_sid,
                },
        ),
        floods: ordered::<FloodKey>(l.floods.dom()).map_values(
            |k: (u32, IpAddr)| RemoteFlood { vni: k.0, vtep: k.1, srv6_sid: l.floods[k] },
        ),
        prefixes: ordered::<PrefixKey>(l.prefixes.dom()).map_values(
            |k: (u32, Seq<char>)|
                RemotePrefixView {
                    l3_vni: k.0,
                    prefix: k.1,
                    vtep: l.prefixes[k].vtep,
                    router_mac: l.prefixes[k].router_mac,
                    gw: l.prefixes[k].gw,
                    srv6_sid: l.prefixes[k].srv6_sid,
                },
        ),
    }
}

/// Lists the learned state, as [`routes_of`] says.
pub fn learned_routes(e: &EvpnLearned) -> (r: LearnedRoutes)
    requires
        e.inv(),
    ensures
        r@ == routes_of(e@),
{
    let r = LearnedRoutes {
        macs: learned_macs(e),
        floods: learned_floods(e),
        prefixes: learned_prefixes(e),
    };
    assert(r@ =~= routes_of(e@));
    r
}

fn learned_macs(e: &EvpnLearned) -> (r: Vec<RemoteMac>)
    requires
        e.inv(),
    ensures
        r@ == routes_of(e@).macs,
{
    let items = e.iter_macs();
    proof {
        items_are_ordered(items@);
    }
    let mut out: Vec<RemoteMac> = Vec::new();
    for i in 0..items.len()
        invariant
            out@.len() == i,
            forall|j: int|
                0 <= j < i ==> (#[trigger] out@[j]) == (RemoteMac {
                    vni: items@[j].key.vni,
                    mac: items@[j].key.mac,
                    vtep: items@[j].value.vtep,
                    ip: items@[j].value.ip,
                    srv6_sid: items@[j].value.srv6_sid,
                }),
    {
        let k = &items[i];
        out.push(
            RemoteMac {
                vni: k.key.vni,
                mac: k.key.mac,
                vtep: k.value.vtep,
                ip: k.value.ip,
                srv6_sid: k.value.srv6_sid,
            },
        );
    }
    proof {
        let want = routes_of(e@).macs;
        assert forall|i: int| 0 <= i < want.len() implies out@[i] == want[i] by {
            assert(keys(items@)[i] == items@[i].key@);
        }
        assert(out@ =~= want);
    }
    out
}

fn learned_floods(e: &EvpnLearned) -> (r: Vec<RemoteFlood>)
    requires
        e.inv(),
    ensures
        r@ == routes_of(e@).floods,
{
    let items = e.floods();
    proof {
        items_are_ordered(items@);
    }
    let mut out: Vec<RemoteFlood> = Vec::new();
    for i in 0..items.len()
        invariant
            out@.len() == i,
            forall|j: int|
                0 <= j < i ==> (#[trigger] out@[j]) == (RemoteFlood {
                    vni: items@[j].key.vni,
                    vtep: items@[j].key.vtep,
                    srv6_sid: items@[j].value,
                }),
    {
        let k = &items[i];
        out.push(RemoteFlood { vni: k.key.vni, vtep: k.key.vtep, srv6_sid: k.value });
    }
    proof {
        let want = routes_of(e@).floods;
        assert forall|i: int| 0 <= i < want.len() implies out@[i] == want[i] by {
            assert(keys(items@)[i] == items@[i].key@);
        }
        assert(out@ =~= want);
    }
    out
}

fn learned_prefixes(e: &EvpnLearned) -> (r: Vec<RemotePrefix>)
    requires
        e.inv(),
    ensures
        views(r@) == routes_of(e@).prefixes,
{
    let items = e.iter_prefixes();
    proof {
        items_are_ordered(items@);
    }
    let mut out: Vec<RemotePrefix> = Vec::new();
    for i in 0..items.len()
        invariant
            out@.len() == i,
            forall|j: int|
                0 <= j < i ==> (#[trigger] out@[j])@ == (RemotePrefixView {
                    l3_vni: items@[j].key.l3_vni,
                    prefix: items@[j].key.prefix@,
                    vtep: items@[j].value.vtep,
                    router_mac: items@[j].value.router_mac,
                    gw: items@[j].value.gw,
                    srv6_sid: items@[j].value.srv6_sid,
                }),
    {
        let k = &items[i];
        out.push(
            RemotePrefix {
                l3_vni: k.key.l3_vni,
                prefix: k.key.prefix.clone(),
                vtep: k.value.vtep,
                router_mac: k.value.router_mac,
                gw: k.value.gw,
                srv6_sid: k.value.srv6_sid,
            },
        );
    }
    proof {
        let want = routes_of(e@).prefixes;
        assert forall|i: int| 0 <= i < want.len() implies views(out@)[i] == want[i] by {
            assert(keys(items@)[i] == items@[i].key@);
        }
        assert(views(out@) =~= want);
    }
    out
}

// ---------------------------------------------------------------------------
// Laws
// ---------------------------------------------------------------------------

/// A host never sends to itself.
pub proof fn host_is_not_its_own_peer(f: FabricView, h: HostView)
    ensures
        remote_of(f, h, IpAddr::V4(h.vtep_ip)) is None,
{
}

/// A MAC address behind a host that advertised no SID and has no locator is held on a host that uses
/// SRv6: nothing is programmed of it.
pub proof fn held_mac_is_not_programmed(f: FabricView, h: HostView, m: RemoteMac)
    requires
        is_srv6(h),
        m.srv6_sid is None,
        remote_of(f, h, m.vtep) matches Some(r) && !f.locators.dom().contains(r.id),
    ensures
        !is_reachable(f, h, m),
        mac_neighbor(f, h, m) is None,
        mac_nd_neighbor(f, h, m) is None,
        mac_tunnel(f, h, m) is None,
        mac_peer(f, h, m) is None,
{
}

/// An advertised SID is programmed as it was advertised, whatever would be derived.
#[verifier::spinoff_prover]
pub proof fn advertised_sid_is_programmed(
    f: FabricView,
    h: HostView,
    c: FileConfigView,
    r: LearnedRoutesView,
    i: int,
)
    requires
        is_srv6(h),
        0 <= i < r.macs.len(),
        remote_of(f, h, r.macs[i].vtep) is Some,
        r.macs[i].srv6_sid is Some,
    ensures
        exists|e: Srv6RouteCfgView| #[trigger]
            with_evpn(c, h, f, r).srv6_routes.contains(e) && e.vni == r.macs[i].vni && e.mac
                == mac_text(r.macs[i].mac) && e.remote_sid == ipv6_text(r.macs[i].srv6_sid->0),
{
    let m = r.macs[i];
    let w = |m: RemoteMac| one(mac_srv6_route(f, h, m));
    let e = mac_srv6_route(f, h, m)->0;
    assert(w(r.macs[i])[0] == e);
    assert(w(r.macs[i]).contains(e));
    flat_contains(r.macs, w, e);
    let s = flat(r.macs, w);
    let k = choose|k: int| 0 <= k < s.len() && s[k] == e;
    assert((c.srv6_routes + s)[c.srv6_routes.len() + k] == e);
    assert(with_evpn(c, h, f, r).srv6_routes.contains(e));
}

/// What a host learns lands in the tables that its own encapsulation reads, and in no other.
pub proof fn tables_follow_the_encapsulation(
    f: FabricView,
    h: HostView,
    c: FileConfigView,
    r: LearnedRoutesView,
)
    ensures
        is_srv6(h) ==> {
            let d = with_evpn(c, h, f, r);
            &&& d.mac_routes == c.mac_routes
            &&& d.tunnels == c.tunnels
            &&& d.flood_vteps == c.flood_vteps
            &&& d.irb_routes == c.irb_routes
        },
        !is_srv6(h) ==> {
            let d = with_evpn(c, h, f, r);
            &&& d.srv6_routes == c.srv6_routes
            &&& d.srv6_floods == c.srv6_floods
            &&& d.srv6_irb_routes == c.srv6_irb_routes
            &&& d.srv6_local_sids == c.srv6_local_sids
            &&& d.srv6 == c.srv6
        },
{
    let d = with_evpn(c, h, f, r);
    if is_srv6(h) {
        flat_empty(r.macs, |m| one(mac_route(f, h, m)));
        flat_empty(r.macs, |m| one(mac_tunnel(f, h, m)));
        flat_empty(r.floods, |e| one(flood_vtep(f, h, e)));
        flat_empty(r.prefixes, |p| prefix_irb_routes(f, h, p));
        assert(d.mac_routes =~= c.mac_routes);
        assert(d.tunnels =~= c.tunnels);
        assert(d.flood_vteps =~= c.flood_vteps);
        assert(d.irb_routes =~= c.irb_routes);
    } else {
        flat_empty(r.macs, |m| one(mac_srv6_route(f, h, m)));
        flat_empty(r.floods, |e| one(flood_srv6(f, h, e)));
        flat_empty(r.prefixes, |p| prefix_srv6_irb_routes(f, h, p));
        flat_empty(r.macs, |m| one(mac_peer(f, h, m)));
        flat_empty(r.prefixes, |p| one(prefix_peer(f, h, p)));
        flat_empty(r.floods, |e| one(flood_peer(f, h, e)));
        no_local_sids(c.srv6_local_sids, f, h, r.prefixes);
        assert(d.srv6_routes =~= c.srv6_routes);
        assert(d.srv6_floods =~= c.srv6_floods);
        assert(d.srv6_irb_routes =~= c.srv6_irb_routes);
        assert(evpn_peers(f, h, r) =~= Seq::empty());
    }
}

proof fn no_local_sids(
    list: Seq<Srv6LocalSidCfgView>,
    f: FabricView,
    h: HostView,
    ps: Seq<RemotePrefixView>,
)
    requires
        !is_srv6(h),
    ensures
        with_local_sids(list, f, h, ps) == list,
    decreases ps.len(),
{
    if ps.len() > 0 {
        no_local_sids(list, f, h, ps.drop_last());
    }
}

/// An SRv6 host accepts frames from every host that it learned a MAC address behind and sends to,
/// and from a peer outside the fabric whose SID leads back to a source address.
pub proof fn learned_peer_is_trusted(
    f: FabricView,
    h: HostView,
    c: FileConfigView,
    r: LearnedRoutesView,
    i: int,
)
    requires
        c.srv6 is Some,
        0 <= i < r.macs.len(),
        mac_peer(f, h, r.macs[i]) is Some,
    ensures
        with_evpn(c, h, f, r).srv6 matches Some(s) && s.peers.contains(
            mac_peer(f, h, r.macs[i])->0,
        ),
{
    let src = mac_peer(f, h, r.macs[i])->0;
    let w = |m: RemoteMac| one(mac_peer(f, h, m));
    assert(w(r.macs[i])[0] == src);
    assert(w(r.macs[i]).contains(src));
    flat_contains(r.macs, w, src);
    let s = flat(r.macs, w);
    let k = choose|k: int| 0 <= k < s.len() && s[k] == src;
    assert(evpn_peers(f, h, r)[k] == src);
    merged_contains(c.srv6->0.peers, evpn_peers(f, h, r), src);
}

/// A peer outside the fabric that derives its SIDs is trusted, without knowing its locator.
pub proof fn external_peer_is_trusted(f: FabricView, h: HostView, m: RemoteMac, l: Locator)
    requires
        is_srv6(h),
        is_external(f, h, m.vtep),
        m.srv6_sid == service_sid(l, DISC_UNICAST, m.vni),
        m.srv6_sid is Some,
        m.vni != 0,
    ensures
        mac_peer(f, h, m) == sid_text(source_of(l)),
        mac_srv6_route(f, h, m) is None,
{
    advertised_sid_gives_the_source(l, DISC_UNICAST, m.vni);
}

/// A host that routes into a tenant's layer-3 segment terminates its own SID for it.
pub proof fn routed_tenant_has_a_local_sid(
    f: FabricView,
    h: HostView,
    c: FileConfigView,
    r: LearnedRoutesView,
    i: int,
)
    requires
        0 <= i < r.prefixes.len(),
        prefix_local_sid(f, h, r.prefixes[i]) is Some,
    ensures
        has_sid(
            with_evpn(c, h, f, r).srv6_local_sids,
            prefix_local_sid(f, h, r.prefixes[i])->0.sid,
        ),
{
    local_sids_grow(c.srv6_local_sids, f, h, r.prefixes, i);
}

proof fn local_sids_grow(
    list: Seq<Srv6LocalSidCfgView>,
    f: FabricView,
    h: HostView,
    ps: Seq<RemotePrefixView>,
    i: int,
)
    requires
        0 <= i < ps.len(),
        prefix_local_sid(f, h, ps[i]) is Some,
    ensures
        has_sid(with_local_sids(list, f, h, ps), prefix_local_sid(f, h, ps[i])->0.sid),
    decreases ps.len(),
{
    let sid = prefix_local_sid(f, h, ps[i])->0.sid;
    let front = with_local_sids(list, f, h, ps.drop_last());
    let all = with_local_sids(list, f, h, ps);
    if i < ps.len() - 1 {
        assert(ps.drop_last()[i] == ps[i]);
        local_sids_grow(list, f, h, ps.drop_last(), i);
        let k = choose|k: int| 0 <= k < front.len() && (#[trigger] front[k]).sid == sid;
        assert(all[k].sid == sid);
    } else if !has_sid(front, sid) {
        assert(all[front.len() as int].sid == sid);
    }
}

// ---------------------------------------------------------------------------
// What is programmed of what was learned, field by field
// ---------------------------------------------------------------------------

/// The endpoint is that of the fabric's host `id`, which is not `h`; of several hosts with the
/// endpoint, it is the one with the smallest id.
pub open spec fn sits_behind(f: FabricView, h: HostView, vtep: IpAddr, id: Seq<char>) -> bool {
    &&& f.topo.hosts.dom().contains(id)
    &&& vtep == IpAddr::V4(f.topo.hosts[id].vtep_ip)
    &&& f.topo.hosts[id].vtep_ip != h.vtep_ip
    &&& forall|o: Seq<char>| #[trigger]
        f.topo.hosts.dom().contains(o) && f.topo.hosts[o].vtep_ip == f.topo.hosts[id].vtep_ip
            ==> o == id || text_before(id, o)
}

/// The text is that of the advertised SID, or without one of the SID that the host's locator gives
/// the behaviour on the segment.
pub open spec fn writes_sid(
    f: FabricView,
    id: Seq<char>,
    advertised: Option<Ipv6Addr>,
    behaviour: u8,
    vni: u32,
    text: Seq<char>,
) -> bool {
    match advertised {
        Some(sid) => text == ipv6_text(sid),
        None => f.locators.dom().contains(id) && (service_sid(
            f.locators[id],
            behaviour,
            vni,
        ) matches Some(sid) && text == ipv6_text(sid)),
    }
}

/// The host has a SID for the behaviour on the segment, or one was advertised.
pub open spec fn has_some_sid(
    f: FabricView,
    id: Seq<char>,
    advertised: Option<Ipv6Addr>,
    behaviour: u8,
    vni: u32,
) -> bool {
    advertised is Some || f.locators.dom().contains(id) && service_sid(
        f.locators[id],
        behaviour,
        vni,
    ) is Some
}

proof fn remote_sits_behind(f: FabricView, h: HostView, vtep: IpAddr) -> (id: Seq<char>)
    requires
        remote_of(f, h, vtep) is Some,
    ensures
        sits_behind(f, h, vtep, id),
        remote_of(f, h, vtep) == Some(f.topo.hosts[id]),
{
    let v = vtep->V4_0;
    let id = choose|id: Seq<char>| is_host_at(f.topo, v, id);
    assert(is_host_at(f.topo, v, id));
    id
}

proof fn behind_is_remote(f: FabricView, h: HostView, vtep: IpAddr, id: Seq<char>)
    requires
        sits_behind(f, h, vtep, id),
    ensures
        remote_of(f, h, vtep) == Some(f.topo.hosts[id]),
{
    let v = f.topo.hosts[id].vtep_ip;
    assert(is_host_at(f.topo, v, id));
    let o = choose|o: Seq<char>| is_host_at(f.topo, v, o);
    assert(is_host_at(f.topo, v, o));
    if o != id {
        text_transitive(o, id, o);
        text_irreflexive(o);
    }
}

proof fn appended_contains<A>(a: Seq<A>, b: Seq<A>, x: A)
    ensures
        (a + b).contains(x) <==> a.contains(x) || b.contains(x),
{
    if a.contains(x) {
        let i = choose|i: int| 0 <= i < a.len() && a[i] == x;
        assert((a + b)[i] == x);
    }
    if b.contains(x) {
        let i = choose|i: int| 0 <= i < b.len() && b[i] == x;
        assert((a + b)[a.len() + i] == x);
    }
    if (a + b).contains(x) {
        let i = choose|i: int| 0 <= i < (a + b).len() && (a + b)[i] == x;
        if i < a.len() {
            assert(a[i] == x);
        } else {
            assert(b[i - a.len()] == x);
        }
    }
}

/// What an SRv6 host routes of learned MAC addresses: each that is behind another host of the fabric
/// and has a SID, to that SID, toward that host's underlay MAC, over the host's own underlay
/// interface; and nothing else.
#[verifier::spinoff_prover]
pub proof fn learned_srv6_routes(
    c: FileConfigView,
    h: HostView,
    f: FabricView,
    r: LearnedRoutesView,
    e: Srv6RouteCfgView,
)
    requires
        f.wf(),
    ensures
        with_evpn(c, h, f, r).srv6_routes.contains(e) <==> c.srv6_routes.contains(e) || exists|
            j: int,
            id: Seq<char>,
        |
            0 <= j < r.macs.len() && #[trigger] sits_behind(f, h, r.macs[j].vtep, id) && {
                let m = r.macs[j];
                let remote = f.topo.hosts[id];
                &&& h.encap == EncapName::Srv6
                &&& e.vni == m.vni
                &&& e.mac == mac_text(m.mac)
                &&& writes_sid(f, id, m.srv6_sid, 0, m.vni, e.remote_sid)
                &&& e.via_mac == mac_text(remote.underlay_mac)
                &&& e.out_iface == h.underlay_iface
            },
{
    let w = |x: RemoteMac| one(mac_srv6_route(f, h, x));
    let more = flat(r.macs, w);
    flat_contains(r.macs, w, e);
    appended_contains(c.srv6_routes, more, e);
    assert(with_evpn(c, h, f, r).srv6_routes == c.srv6_routes + more);
    if more.contains(e) {
        let j = choose|j: int| 0 <= j < r.macs.len() && w(#[trigger] r.macs[j]).contains(e);
        let m = r.macs[j];
        let id = remote_sits_behind(f, h, m.vtep);
        assert(f.topo.hosts[id].id == id);
        assert(sits_behind(f, h, r.macs[j].vtep, id));
    }
    assert forall|j: int, id: Seq<char>|
        0 <= j < r.macs.len() && #[trigger] sits_behind(f, h, r.macs[j].vtep, id) && {
            let m = r.macs[j];
            let remote = f.topo.hosts[id];
                &&& h.encap == EncapName::Srv6
                &&& e.vni == m.vni
                &&& e.mac == mac_text(m.mac)
                &&& writes_sid(f, id, m.srv6_sid, 0, m.vni, e.remote_sid)
                &&& e.via_mac == mac_text(remote.underlay_mac)
                &&& e.out_iface == h.underlay_iface
        } implies more.contains(e) by {
        behind_is_remote(f, h, r.macs[j].vtep, id);
        assert(f.topo.hosts[id].id == id);
        assert(mac_srv6_route(f, h, r.macs[j]) == Some(e));
        assert(w(r.macs[j])[0] == e);
        assert(w(r.macs[j]).contains(e));
    }
}

/// What any other host bridges of learned MAC addresses: each that is behind another host of the
/// fabric, to the advertised endpoint, toward that host's underlay MAC, over the host's own underlay
/// interface; and nothing else.
#[verifier::spinoff_prover]
pub proof fn learned_mac_routes(
    c: FileConfigView,
    h: HostView,
    f: FabricView,
    r: LearnedRoutesView,
    e: MacRouteCfgView,
)
    requires
        f.wf(),
    ensures
        with_evpn(c, h, f, r).mac_routes.contains(e) <==> c.mac_routes.contains(e) || exists|
            j: int,
            id: Seq<char>,
        |
            0 <= j < r.macs.len() && #[trigger] sits_behind(f, h, r.macs[j].vtep, id) && {
                let m = r.macs[j];
                let remote = f.topo.hosts[id];
                &&& h.encap != EncapName::Srv6
                &&& e.vni == m.vni
                &&& e.mac == mac_text(m.mac)
                &&& e.remote_vtep == ipv4_text(remote.vtep_ip)
                &&& e.via_mac == mac_text(remote.underlay_mac)
                &&& e.out_iface == h.underlay_iface
            },
{
    let w = |x: RemoteMac| one(mac_route(f, h, x));
    let more = flat(r.macs, w);
    flat_contains(r.macs, w, e);
    appended_contains(c.mac_routes, more, e);
    assert(with_evpn(c, h, f, r).mac_routes == c.mac_routes + more);
    if more.contains(e) {
        let j = choose|j: int| 0 <= j < r.macs.len() && w(#[trigger] r.macs[j]).contains(e);
        let m = r.macs[j];
        let id = remote_sits_behind(f, h, m.vtep);
        assert(f.topo.hosts[id].id == id);
        assert(sits_behind(f, h, r.macs[j].vtep, id));
    }
    assert forall|j: int, id: Seq<char>|
        0 <= j < r.macs.len() && #[trigger] sits_behind(f, h, r.macs[j].vtep, id) && {
            let m = r.macs[j];
            let remote = f.topo.hosts[id];
                &&& h.encap != EncapName::Srv6
                &&& e.vni == m.vni
                &&& e.mac == mac_text(m.mac)
                &&& e.remote_vtep == ipv4_text(remote.vtep_ip)
                &&& e.via_mac == mac_text(remote.underlay_mac)
                &&& e.out_iface == h.underlay_iface
        } implies more.contains(e) by {
        behind_is_remote(f, h, r.macs[j].vtep, id);
        assert(f.topo.hosts[id].id == id);
        assert(mac_route(f, h, r.macs[j]) == Some(e));
        assert(w(r.macs[j])[0] == e);
        assert(w(r.macs[j]).contains(e));
    }
}

/// What a host answers ARP for of learned MAC addresses: each IPv4 address advertised with a MAC
/// address that the host can reach, with that MAC address; and nothing else.
#[verifier::spinoff_prover]
pub proof fn learned_neighbors(
    c: FileConfigView,
    h: HostView,
    f: FabricView,
    r: LearnedRoutesView,
    e: NeighborCfgView,
)
    requires
        f.wf(),
    ensures
        with_evpn(c, h, f, r).neighbors.contains(e) <==> c.neighbors.contains(e) || exists|
            j: int,
            id: Seq<char>,
        |
            0 <= j < r.macs.len() && #[trigger] sits_behind(f, h, r.macs[j].vtep, id) && {
                let m = r.macs[j];
                let remote = f.topo.hosts[id];
                &&& h.encap != EncapName::Srv6 || has_some_sid(f, id, m.srv6_sid, 0, m.vni)
                &&& m.ip matches Some(IpAddr::V4(ip)) && e.ip == ipv4_text(ip)
                &&& e.vni == m.vni
                &&& e.mac == mac_text(m.mac)
            },
{
    let w = |x: RemoteMac| one(mac_neighbor(f, h, x));
    let more = flat(r.macs, w);
    flat_contains(r.macs, w, e);
    appended_contains(c.neighbors, more, e);
    assert(with_evpn(c, h, f, r).neighbors == c.neighbors + more);
    if more.contains(e) {
        let j = choose|j: int| 0 <= j < r.macs.len() && w(#[trigger] r.macs[j]).contains(e);
        let m = r.macs[j];
        let id = remote_sits_behind(f, h, m.vtep);
        assert(f.topo.hosts[id].id == id);
        assert(sits_behind(f, h, r.macs[j].vtep, id));
    }
    assert forall|j: int, id: Seq<char>|
        0 <= j < r.macs.len() && #[trigger] sits_behind(f, h, r.macs[j].vtep, id) && {
            let m = r.macs[j];
            let remote = f.topo.hosts[id];
                &&& h.encap != EncapName::Srv6 || has_some_sid(f, id, m.srv6_sid, 0, m.vni)
                &&& m.ip matches Some(IpAddr::V4(ip)) && e.ip == ipv4_text(ip)
                &&& e.vni == m.vni
                &&& e.mac == mac_text(m.mac)
        } implies more.contains(e) by {
        behind_is_remote(f, h, r.macs[j].vtep, id);
        assert(f.topo.hosts[id].id == id);
        assert(mac_neighbor(f, h, r.macs[j]) == Some(e));
        assert(w(r.macs[j])[0] == e);
        assert(w(r.macs[j]).contains(e));
    }
}

/// Where a host without SRv6 tunnels to by learned addresses: each IPv4 address advertised with a MAC
/// address behind another host of the fabric, to the advertised endpoint, toward that host's underlay
/// MAC, over the host's own underlay interface; and nowhere else.
#[verifier::spinoff_prover]
pub proof fn learned_tunnels(
    c: FileConfigView,
    h: HostView,
    f: FabricView,
    r: LearnedRoutesView,
    e: TunnelCfgView,
)
    requires
        f.wf(),
    ensures
        with_evpn(c, h, f, r).tunnels.contains(e) <==> c.tunnels.contains(e) || exists|
            j: int,
            id: Seq<char>,
        |
            0 <= j < r.macs.len() && #[trigger] sits_behind(f, h, r.macs[j].vtep, id) && {
                let m = r.macs[j];
                let remote = f.topo.hosts[id];
                &&& h.encap != EncapName::Srv6
                &&& m.ip matches Some(IpAddr::V4(ip)) && e.inner_dst == ipv4_text(ip) + "/32"@
                &&& e.vni == m.vni
                &&& e.remote_vtep == ipv4_text(remote.vtep_ip)
                &&& e.via_mac == mac_text(remote.underlay_mac)
                &&& e.out_iface == h.underlay_iface
            },
{
    let w = |x: RemoteMac| one(mac_tunnel(f, h, x));
    let more = flat(r.macs, w);
    flat_contains(r.macs, w, e);
    appended_contains(c.tunnels, more, e);
    assert(with_evpn(c, h, f, r).tunnels == c.tunnels + more);
    if more.contains(e) {
        let j = choose|j: int| 0 <= j < r.macs.len() && w(#[trigger] r.macs[j]).contains(e);
        let m = r.macs[j];
        let id = remote_sits_behind(f, h, m.vtep);
        assert(f.topo.hosts[id].id == id);
        assert(sits_behind(f, h, r.macs[j].vtep, id));
    }
    assert forall|j: int, id: Seq<char>|
        0 <= j < r.macs.len() && #[trigger] sits_behind(f, h, r.macs[j].vtep, id) && {
            let m = r.macs[j];
            let remote = f.topo.hosts[id];
                &&& h.encap != EncapName::Srv6
                &&& m.ip matches Some(IpAddr::V4(ip)) && e.inner_dst == ipv4_text(ip) + "/32"@
                &&& e.vni == m.vni
                &&& e.remote_vtep == ipv4_text(remote.vtep_ip)
                &&& e.via_mac == mac_text(remote.underlay_mac)
                &&& e.out_iface == h.underlay_iface
        } implies more.contains(e) by {
        behind_is_remote(f, h, r.macs[j].vtep, id);
        assert(f.topo.hosts[id].id == id);
        assert(mac_tunnel(f, h, r.macs[j]) == Some(e));
        assert(w(r.macs[j])[0] == e);
        assert(w(r.macs[j]).contains(e));
    }
}

/// What a host answers neighbour solicitations for of learned MAC addresses: each IPv6 address
/// advertised with a MAC address that the host can reach, with that MAC address; and nothing else.
#[verifier::spinoff_prover]
pub proof fn learned_nd_neighbors(
    c: FileConfigView,
    h: HostView,
    f: FabricView,
    r: LearnedRoutesView,
    e: Nd6CfgView,
)
    requires
        f.wf(),
    ensures
        with_evpn(c, h, f, r).nd_neighbors.contains(e) <==> c.nd_neighbors.contains(e) || exists|
            j: int,
            id: Seq<char>,
        |
            0 <= j < r.macs.len() && #[trigger] sits_behind(f, h, r.macs[j].vtep, id) && {
                let m = r.macs[j];
                let remote = f.topo.hosts[id];
                &&& h.encap != EncapName::Srv6 || has_some_sid(f, id, m.srv6_sid, 0, m.vni)
                &&& m.ip matches Some(IpAddr::V6(ip)) && e.ip == ipv6_text(ip)
                &&& e.vni == m.vni
                &&& e.mac == mac_text(m.mac)
            },
{
    let w = |x: RemoteMac| one(mac_nd_neighbor(f, h, x));
    let more = flat(r.macs, w);
    flat_contains(r.macs, w, e);
    appended_contains(c.nd_neighbors, more, e);
    assert(with_evpn(c, h, f, r).nd_neighbors == c.nd_neighbors + more);
    if more.contains(e) {
        let j = choose|j: int| 0 <= j < r.macs.len() && w(#[trigger] r.macs[j]).contains(e);
        let m = r.macs[j];
        let id = remote_sits_behind(f, h, m.vtep);
        assert(f.topo.hosts[id].id == id);
        assert(sits_behind(f, h, r.macs[j].vtep, id));
    }
    assert forall|j: int, id: Seq<char>|
        0 <= j < r.macs.len() && #[trigger] sits_behind(f, h, r.macs[j].vtep, id) && {
            let m = r.macs[j];
            let remote = f.topo.hosts[id];
                &&& h.encap != EncapName::Srv6 || has_some_sid(f, id, m.srv6_sid, 0, m.vni)
                &&& m.ip matches Some(IpAddr::V6(ip)) && e.ip == ipv6_text(ip)
                &&& e.vni == m.vni
                &&& e.mac == mac_text(m.mac)
        } implies more.contains(e) by {
        behind_is_remote(f, h, r.macs[j].vtep, id);
        assert(f.topo.hosts[id].id == id);
        assert(mac_nd_neighbor(f, h, r.macs[j]) == Some(e));
        assert(w(r.macs[j])[0] == e);
        assert(w(r.macs[j]).contains(e));
    }
}

/// Where a host without SRv6 floods to by learned routes: each advertised endpoint of another host of
/// the fabric, toward that host's underlay MAC, over the host's own underlay interface; and nowhere
/// else.
#[verifier::spinoff_prover]
pub proof fn learned_flood_vteps(
    c: FileConfigView,
    h: HostView,
    f: FabricView,
    r: LearnedRoutesView,
    e: FloodVtepCfgView,
)
    requires
        f.wf(),
    ensures
        with_evpn(c, h, f, r).flood_vteps.contains(e) <==> c.flood_vteps.contains(e) || exists|
            j: int,
            id: Seq<char>,
        |
            0 <= j < r.floods.len() && #[trigger] sits_behind(f, h, r.floods[j].vtep, id) && {
                let m = r.floods[j];
                let remote = f.topo.hosts[id];
                &&& h.encap != EncapName::Srv6
                &&& e.vni == m.vni
                &&& e.remote_vtep == ipv4_text(remote.vtep_ip)
                &&& e.via_mac == mac_text(remote.underlay_mac)
                &&& e.out_iface == h.underlay_iface
            },
{
    let w = |x: RemoteFlood| one(flood_vtep(f, h, x));
    let more = flat(r.floods, w);
    flat_contains(r.floods, w, e);
    appended_contains(c.flood_vteps, more, e);
    assert(with_evpn(c, h, f, r).flood_vteps == c.flood_vteps + more);
    if more.contains(e) {
        let j = choose|j: int| 0 <= j < r.floods.len() && w(#[trigger] r.floods[j]).contains(e);
        let m = r.floods[j];
        let id = remote_sits_behind(f, h, m.vtep);
        assert(f.topo.hosts[id].id == id);
        assert(sits_behind(f, h, r.floods[j].vtep, id));
    }
    assert forall|j: int, id: Seq<char>|
        0 <= j < r.floods.len() && #[trigger] sits_behind(f, h, r.floods[j].vtep, id) && {
            let m = r.floods[j];
            let remote = f.topo.hosts[id];
                &&& h.encap != EncapName::Srv6
                &&& e.vni == m.vni
                &&& e.remote_vtep == ipv4_text(remote.vtep_ip)
                &&& e.via_mac == mac_text(remote.underlay_mac)
                &&& e.out_iface == h.underlay_iface
        } implies more.contains(e) by {
        behind_is_remote(f, h, r.floods[j].vtep, id);
        assert(f.topo.hosts[id].id == id);
        assert(flood_vtep(f, h, r.floods[j]) == Some(e));
        assert(w(r.floods[j])[0] == e);
        assert(w(r.floods[j]).contains(e));
    }
}

/// Where an SRv6 host floods to by learned routes: to the flood SID of each advertised endpoint of
/// another host of the fabric, toward that host's underlay MAC, over the host's own underlay
/// interface; and nowhere else.
#[verifier::spinoff_prover]
pub proof fn learned_srv6_floods(
    c: FileConfigView,
    h: HostView,
    f: FabricView,
    r: LearnedRoutesView,
    e: Srv6FloodCfgView,
)
    requires
        f.wf(),
    ensures
        with_evpn(c, h, f, r).srv6_floods.contains(e) <==> c.srv6_floods.contains(e) || exists|
            j: int,
            id: Seq<char>,
        |
            0 <= j < r.floods.len() && #[trigger] sits_behind(f, h, r.floods[j].vtep, id) && {
                let m = r.floods[j];
                let remote = f.topo.hosts[id];
                &&& h.encap == EncapName::Srv6
                &&& e.vni == m.vni
                &&& writes_sid(f, id, m.srv6_sid, 1, m.vni, e.remote_sid)
                &&& e.via_mac == mac_text(remote.underlay_mac)
                &&& e.out_iface == h.underlay_iface
            },
{
    let w = |x: RemoteFlood| one(flood_srv6(f, h, x));
    let more = flat(r.floods, w);
    flat_contains(r.floods, w, e);
    appended_contains(c.srv6_floods, more, e);
    assert(with_evpn(c, h, f, r).srv6_floods == c.srv6_floods + more);
    if more.contains(e) {
        let j = choose|j: int| 0 <= j < r.floods.len() && w(#[trigger] r.floods[j]).contains(e);
        let m = r.floods[j];
        let id = remote_sits_behind(f, h, m.vtep);
        assert(f.topo.hosts[id].id == id);
        assert(sits_behind(f, h, r.floods[j].vtep, id));
    }
    assert forall|j: int, id: Seq<char>|
        0 <= j < r.floods.len() && #[trigger] sits_behind(f, h, r.floods[j].vtep, id) && {
            let m = r.floods[j];
            let remote = f.topo.hosts[id];
                &&& h.encap == EncapName::Srv6
                &&& e.vni == m.vni
                &&& writes_sid(f, id, m.srv6_sid, 1, m.vni, e.remote_sid)
                &&& e.via_mac == mac_text(remote.underlay_mac)
                &&& e.out_iface == h.underlay_iface
        } implies more.contains(e) by {
        behind_is_remote(f, h, r.floods[j].vtep, id);
        assert(f.topo.hosts[id].id == id);
        assert(flood_srv6(f, h, r.floods[j]) == Some(e));
        assert(w(r.floods[j])[0] == e);
        assert(w(r.floods[j]).contains(e));
    }
}

/// What a host without SRv6 routes of learned prefixes: for each IPv4 prefix of a known tenant behind
/// another host of the fabric, and each of the tenant's segments, one entry to the advertised
/// endpoint, toward that host's underlay MAC, over the host's own underlay interface, with the
/// advertised router MAC and the tenant's gateway MAC; and nothing else.
#[verifier::spinoff_prover]
pub proof fn learned_irb_routes(
    c: FileConfigView,
    h: HostView,
    f: FabricView,
    r: LearnedRoutesView,
    e: IrbRouteCfgView,
)
    requires
        f.wf(),
    ensures
        with_evpn(c, h, f, r).irb_routes.contains(e) <==> c.irb_routes.contains(e) || exists|
            j: int,
            id: Seq<char>,
        |
            0 <= j < r.prefixes.len() && #[trigger] sits_behind(f, h, r.prefixes[j].vtep, id) && {
                let m = r.prefixes[j];
                let remote = f.topo.hosts[id];
                &&& h.encap != EncapName::Srv6
                &&& f.ip_vrfs.dom().contains(m.l3_vni)
                &&& f.ip_vrfs[m.l3_vni].networks.contains(e.vni)
                &&& m.prefix.contains('.')
                &&& m.router_mac matches Some(router) && e.router_mac == mac_text(router)
                &&& e.gateway_mac == mac_text(f.ip_vrfs[m.l3_vni].gateway_mac)
                &&& e.inner_dst == m.prefix
                &&& e.l3_vni == m.l3_vni
                &&& e.remote_vtep == ipv4_text(remote.vtep_ip)
                &&& e.via_mac == mac_text(remote.underlay_mac)
                &&& e.out_iface == h.underlay_iface
            },
{
    let w = |x: RemotePrefixView| prefix_irb_routes(f, h, x);
    let more = flat(r.prefixes, w);
    flat_contains(r.prefixes, w, e);
    appended_contains(c.irb_routes, more, e);
    assert(with_evpn(c, h, f, r).irb_routes == c.irb_routes + more);
    if more.contains(e) {
        let j = choose|j: int| 0 <= j < r.prefixes.len() && w(#[trigger] r.prefixes[j]).contains(e);
        let m = r.prefixes[j];
        let id = remote_sits_behind(f, h, m.vtep);
        assert(f.topo.hosts[id].id == id);
        assert(sits_behind(f, h, r.prefixes[j].vtep, id));
        find_char_properties(r.prefixes[j].prefix, '.');
        let nets = f.ip_vrfs[r.prefixes[j].l3_vni].networks;
        let out = prefix_irb_routes(f, h, r.prefixes[j]);
        if out.contains(e) {
            let n = choose|n: int| 0 <= n < out.len() && out[n] == e;
            assert(nets[n] == e.vni);
        }
        if nets.contains(e.vni) && out.len() == nets.len() {
            let n = choose|n: int| 0 <= n < nets.len() && nets[n] == e.vni;
            assert(out.contains(out[n]));
        }
    }
    assert forall|j: int, id: Seq<char>|
        0 <= j < r.prefixes.len() && #[trigger] sits_behind(f, h, r.prefixes[j].vtep, id) && {
            let m = r.prefixes[j];
            let remote = f.topo.hosts[id];
                &&& h.encap != EncapName::Srv6
                &&& f.ip_vrfs.dom().contains(m.l3_vni)
                &&& f.ip_vrfs[m.l3_vni].networks.contains(e.vni)
                &&& m.prefix.contains('.')
                &&& m.router_mac matches Some(router) && e.router_mac == mac_text(router)
                &&& e.gateway_mac == mac_text(f.ip_vrfs[m.l3_vni].gateway_mac)
                &&& e.inner_dst == m.prefix
                &&& e.l3_vni == m.l3_vni
                &&& e.remote_vtep == ipv4_text(remote.vtep_ip)
                &&& e.via_mac == mac_text(remote.underlay_mac)
                &&& e.out_iface == h.underlay_iface
        } implies more.contains(e) by {
        behind_is_remote(f, h, r.prefixes[j].vtep, id);
        assert(f.topo.hosts[id].id == id);
        find_char_properties(r.prefixes[j].prefix, '.');
        let nets = f.ip_vrfs[r.prefixes[j].l3_vni].networks;
        let out = prefix_irb_routes(f, h, r.prefixes[j]);
        if out.contains(e) {
            let n = choose|n: int| 0 <= n < out.len() && out[n] == e;
            assert(nets[n] == e.vni);
        }
        if nets.contains(e.vni) && out.len() == nets.len() {
            let n = choose|n: int| 0 <= n < nets.len() && nets[n] == e.vni;
            assert(out.contains(out[n]));
        }
        assert(w(r.prefixes[j]).contains(e));
    }
}

/// What an SRv6 host routes of learned prefixes: for each IPv4 prefix of a known tenant behind another
/// host of the fabric, and each of the tenant's segments, one entry to the unicast SID of that host on
/// the tenant's layer-3 segment, toward that host's underlay MAC, over the host's own underlay
/// interface, with the advertised router MAC and the tenant's gateway MAC; and nothing else.
#[verifier::spinoff_prover]
pub proof fn learned_srv6_irb_routes(
    c: FileConfigView,
    h: HostView,
    f: FabricView,
    r: LearnedRoutesView,
    e: Srv6IrbRouteCfgView,
)
    requires
        f.wf(),
    ensures
        with_evpn(c, h, f, r).srv6_irb_routes.contains(e) <==> c.srv6_irb_routes.contains(e) || exists|
            j: int,
            id: Seq<char>,
        |
            0 <= j < r.prefixes.len() && #[trigger] sits_behind(f, h, r.prefixes[j].vtep, id) && {
                let m = r.prefixes[j];
                let remote = f.topo.hosts[id];
                &&& h.encap == EncapName::Srv6
                &&& f.ip_vrfs.dom().contains(m.l3_vni)
                &&& f.ip_vrfs[m.l3_vni].networks.contains(e.vni)
                &&& m.prefix.contains('.')
                &&& m.router_mac matches Some(router) && e.router_mac == mac_text(router)
                &&& e.gateway_mac == mac_text(f.ip_vrfs[m.l3_vni].gateway_mac)
                &&& e.inner_dst == m.prefix
                &&& e.l3_vni == m.l3_vni
                &&& writes_sid(f, id, None, 0, m.l3_vni, e.remote_sid)
                &&& e.via_mac == mac_text(remote.underlay_mac)
                &&& e.out_iface == h.underlay_iface
            },
{
    let w = |x: RemotePrefixView| prefix_srv6_irb_routes(f, h, x);
    let more = flat(r.prefixes, w);
    flat_contains(r.prefixes, w, e);
    appended_contains(c.srv6_irb_routes, more, e);
    assert(with_evpn(c, h, f, r).srv6_irb_routes == c.srv6_irb_routes + more);
    if more.contains(e) {
        let j = choose|j: int| 0 <= j < r.prefixes.len() && w(#[trigger] r.prefixes[j]).contains(e);
        let m = r.prefixes[j];
        let id = remote_sits_behind(f, h, m.vtep);
        assert(f.topo.hosts[id].id == id);
        assert(sits_behind(f, h, r.prefixes[j].vtep, id));
        find_char_properties(r.prefixes[j].prefix, '.');
        let nets = f.ip_vrfs[r.prefixes[j].l3_vni].networks;
        let out = prefix_srv6_irb_routes(f, h, r.prefixes[j]);
        if out.contains(e) {
            let n = choose|n: int| 0 <= n < out.len() && out[n] == e;
            assert(nets[n] == e.vni);
        }
        if nets.contains(e.vni) && out.len() == nets.len() {
            let n = choose|n: int| 0 <= n < nets.len() && nets[n] == e.vni;
            assert(out.contains(out[n]));
        }
    }
    assert forall|j: int, id: Seq<char>|
        0 <= j < r.prefixes.len() && #[trigger] sits_behind(f, h, r.prefixes[j].vtep, id) && {
            let m = r.prefixes[j];
            let remote = f.topo.hosts[id];
                &&& h.encap == EncapName::Srv6
                &&& f.ip_vrfs.dom().contains(m.l3_vni)
                &&& f.ip_vrfs[m.l3_vni].networks.contains(e.vni)
                &&& m.prefix.contains('.')
                &&& m.router_mac matches Some(router) && e.router_mac == mac_text(router)
                &&& e.gateway_mac == mac_text(f.ip_vrfs[m.l3_vni].gateway_mac)
                &&& e.inner_dst == m.prefix
                &&& e.l3_vni == m.l3_vni
                &&& writes_sid(f, id, None, 0, m.l3_vni, e.remote_sid)
                &&& e.via_mac == mac_text(remote.underlay_mac)
                &&& e.out_iface == h.underlay_iface
        } implies more.contains(e) by {
        behind_is_remote(f, h, r.prefixes[j].vtep, id);
        assert(f.topo.hosts[id].id == id);
        find_char_properties(r.prefixes[j].prefix, '.');
        let nets = f.ip_vrfs[r.prefixes[j].l3_vni].networks;
        let out = prefix_srv6_irb_routes(f, h, r.prefixes[j]);
        if out.contains(e) {
            let n = choose|n: int| 0 <= n < out.len() && out[n] == e;
            assert(nets[n] == e.vni);
        }
        if nets.contains(e.vni) && out.len() == nets.len() {
            let n = choose|n: int| 0 <= n < nets.len() && nets[n] == e.vni;
            assert(out.contains(out[n]));
        }
        assert(w(r.prefixes[j]).contains(e));
    }
}

/// An SRv6 host routes the prefix: it is an IPv4 prefix of a known tenant, with a router MAC, behind
/// the fabric's host `id`, which has a SID on the tenant's layer-3 segment.
pub open spec fn routes_prefix(
    f: FabricView,
    h: HostView,
    p: RemotePrefixView,
    id: Seq<char>,
) -> bool {
    &&& h.encap == EncapName::Srv6
    &&& sits_behind(f, h, p.vtep, id)
    &&& f.ip_vrfs.dom().contains(p.l3_vni)
    &&& p.prefix.contains('.')
    &&& p.router_mac is Some
    &&& has_some_sid(f, id, None, 0, p.l3_vni)
}

proof fn target_is_routed(f: FabricView, h: HostView, p: RemotePrefixView)
    requires
        f.wf(),
        h.encap == EncapName::Srv6,
    ensures
        prefix_target(f, h, p) is Some <==> exists|id: Seq<char>| #[trigger]
            routes_prefix(f, h, p, id),
        forall|id: Seq<char>| #[trigger]
            routes_prefix(f, h, p, id) ==> prefix_target(f, h, p)->0.remote == f.topo.hosts[id],
{
    find_char_properties(p.prefix, '.');
    if prefix_target(f, h, p) is Some {
        let id = remote_sits_behind(f, h, p.vtep);
        assert(f.topo.hosts[id].id == id);
        assert(p.prefix[find_char(p.prefix, '.') as int] == '.');
        assert(routes_prefix(f, h, p, id));
    }
    assert forall|id: Seq<char>| #[trigger] routes_prefix(f, h, p, id) implies prefix_target(
        f,
        h,
        p,
    ) is Some && prefix_target(f, h, p)->0.remote == f.topo.hosts[id] by {
        behind_is_remote(f, h, p.vtep, id);
        assert(f.topo.hosts[id].id == id);
    }
}

/// The entry is the host's own unicast SID on the layer-3 segment of one of the prefixes that it
/// routes.
pub open spec fn own_tenant_sid(
    f: FabricView,
    h: HostView,
    ps: Seq<RemotePrefixView>,
    e: Srv6LocalSidCfgView,
) -> bool {
    exists|j: int, id: Seq<char>|
        {
            &&& 0 <= j < ps.len()
            &&& #[trigger] routes_prefix(f, h, ps[j], id)
            &&& e.vni == ps[j].l3_vni
            &&& e.behavior == Some("end.dt2u"@)
            &&& writes_sid(f, h.id, None, 0, ps[j].l3_vni, e.sid)
        }
}

/// The list holds the host's own unicast SID on the segment.
pub open spec fn lists_own_sid(
    f: FabricView,
    h: HostView,
    list: Seq<Srv6LocalSidCfgView>,
    vni: u32,
) -> bool {
    exists|n: int| 0 <= n < list.len() && writes_sid(f, h.id, None, 0, vni, (#[trigger] list[n]).sid)
}

/// The SIDs that a host terminates for tenants: the list it had stays in front, each entry behind it
/// is the host's own unicast SID on the layer-3 segment of a prefix that it routes, and each prefix
/// that it routes has its SID in the list.
pub proof fn learned_local_sids(
    c: FileConfigView,
    h: HostView,
    f: FabricView,
    r: LearnedRoutesView,
)
    requires
        f.wf(),
    ensures
        c.srv6_local_sids.is_prefix_of(with_evpn(c, h, f, r).srv6_local_sids),
        forall|n: int|
            c.srv6_local_sids.len() <= n < with_evpn(c, h, f, r).srv6_local_sids.len()
                ==> own_tenant_sid(
                f,
                h,
                r.prefixes,
                #[trigger] with_evpn(c, h, f, r).srv6_local_sids[n],
            ),
        forall|j: int, id: Seq<char>|
            0 <= j < r.prefixes.len() && #[trigger] routes_prefix(f, h, r.prefixes[j], id)
                && has_some_sid(f, h.id, None, 0, r.prefixes[j].l3_vni) ==> lists_own_sid(
                f,
                h,
                with_evpn(c, h, f, r).srv6_local_sids,
                r.prefixes[j].l3_vni,
            ),
{
    local_sids_come_from_prefixes(c.srv6_local_sids, h, f, r.prefixes);
}

proof fn local_sids_come_from_prefixes(
    was: Seq<Srv6LocalSidCfgView>,
    h: HostView,
    f: FabricView,
    ps: Seq<RemotePrefixView>,
)
    requires
        f.wf(),
    ensures
        was.is_prefix_of(with_local_sids(was, f, h, ps)),
        forall|n: int|
            was.len() <= n < with_local_sids(was, f, h, ps).len() ==> own_tenant_sid(
                f,
                h,
                ps,
                #[trigger] with_local_sids(was, f, h, ps)[n],
            ),
        forall|j: int, id: Seq<char>|
            0 <= j < ps.len() && #[trigger] routes_prefix(f, h, ps[j], id) && has_some_sid(
                f,
                h.id,
                None,
                0,
                ps[j].l3_vni,
            ) ==> lists_own_sid(f, h, with_local_sids(was, f, h, ps), ps[j].l3_vni),
    decreases ps.len(),
{
    if ps.len() > 0 {
        let front = ps.drop_last();
        let last = ps.last();
        let z = ps.len() - 1;
        local_sids_come_from_prefixes(was, h, f, front);
        let before = with_local_sids(was, f, h, front);
        let now = with_local_sids(was, f, h, ps);
        let own = prefix_local_sid(f, h, last);
        if h.encap == EncapName::Srv6 {
            target_is_routed(f, h, last);
        }
        assert(ps[z] == last);
        assert(was =~= now.subrange(0, was.len() as int));
        assert forall|n: int| was.len() <= n < now.len() implies own_tenant_sid(
            f,
            h,
            ps,
            #[trigger] now[n],
        ) by {
            if n < before.len() {
                assert(now[n] == before[n]);
                assert(own_tenant_sid(f, h, front, before[n]));
                let (j, id) = choose|j: int, id: Seq<char>|
                    {
                        &&& 0 <= j < front.len()
                        &&& #[trigger] routes_prefix(f, h, front[j], id)
                        &&& before[n].vni == front[j].l3_vni
                        &&& before[n].behavior == Some("end.dt2u"@)
                        &&& writes_sid(f, h.id, None, 0, front[j].l3_vni, before[n].sid)
                    };
                assert(front[j] == ps[j]);
                assert(routes_prefix(f, h, ps[j], id));
            } else {
                assert(own == Some(now[n]));
                let id = choose|id: Seq<char>| #[trigger] routes_prefix(f, h, last, id);
                assert(routes_prefix(f, h, ps[z], id));
            }
        }
        assert forall|j: int, id: Seq<char>|
            0 <= j < ps.len() && #[trigger] routes_prefix(f, h, ps[j], id) && has_some_sid(
                f,
                h.id,
                None,
                0,
                ps[j].l3_vni,
            ) implies lists_own_sid(f, h, now, ps[j].l3_vni) by {
            if j < z {
                assert(routes_prefix(f, h, front[j], id));
                assert(lists_own_sid(f, h, before, front[j].l3_vni));
                let n = choose|n: int|
                    0 <= n < before.len() && writes_sid(
                        f,
                        h.id,
                        None,
                        0,
                        front[j].l3_vni,
                        (#[trigger] before[n]).sid,
                    );
                assert(now[n] == before[n]);
            } else {
                assert(own is Some);
                if has_sid(before, own->0.sid) {
                    let n = choose|n: int|
                        0 <= n < before.len() && (#[trigger] before[n]).sid == own->0.sid;
                    assert(now[n] == before[n]);
                } else {
                    assert(now[before.len() as int] == own->0);
                }
            }
        }
    } else {
        assert(was =~= was.subrange(0, was.len() as int));
    }
}

/// The source address is that of the fabric's host `id`: what its locator gives.
pub open spec fn sends_from(f: FabricView, id: Seq<char>, src: Seq<char>) -> bool {
    f.locators.dom().contains(id) && (source_of(f.locators[id]) matches Some(a) && src == ipv6_text(
        a,
    ))
}

/// No host of the fabric has the endpoint, which is one of IPv4.
pub open spec fn outside_fabric(f: FabricView, h: HostView, vtep: IpAddr) -> bool {
    vtep matches IpAddr::V4(v) && v != h.vtep_ip && (forall|o: Seq<char>| #[trigger]
        f.topo.hosts.dom().contains(o) ==> f.topo.hosts[o].vtep_ip != v)
}

proof fn external_is_outside(f: FabricView, h: HostView, vtep: IpAddr)
    requires
        f.topo.hosts.dom().finite(),
    ensures
        is_external(f, h, vtep) <==> outside_fabric(f, h, vtep),
{
    if let IpAddr::V4(v) = vtep {
        if is_external(f, h, vtep) && !outside_fabric(f, h, vtep) {
            let o = choose|o: Seq<char>| #[trigger]
                f.topo.hosts.dom().contains(o) && f.topo.hosts[o].vtep_ip == v;
            first_host_exists(f.topo, v, o);
        }
        if outside_fabric(f, h, vtep) && !is_external(f, h, vtep) {
            let o = choose|o: Seq<char>| is_host_at(f.topo, v, o);
            assert(is_host_at(f.topo, v, o));
        }
    }
}

proof fn first_host_exists(t: TopologyView, v: Ipv4Addr, o: Seq<char>)
    requires
        t.hosts.dom().finite(),
        t.hosts.dom().contains(o),
        t.hosts[o].vtep_ip == v,
    ensures
        exists|id: Seq<char>| is_host_at(t, v, id),
{
    let with = t.hosts.dom().filter(|k: Seq<char>| t.hosts[k].vtep_ip == v);
    let ks = ordered::<TextKey>(with);
    t.hosts.dom().lemma_len_filter(|k: Seq<char>| t.hosts[k].vtep_ip == v);
    ordered_lists::<TextKey>(with);
    assert(with.contains(o));
    let i = choose|i: int| 0 <= i < ks.len() && ks[i] == o;
    let id = ks[0];
    assert(ks.contains(id));
    assert(with.contains(id));
    assert forall|k: Seq<char>| #[trigger]
        t.hosts.dom().contains(k) && t.hosts[k].vtep_ip == v implies k == id || text_before(
        id,
        k,
    ) by {
        assert(with.contains(k));
        let j = choose|j: int| 0 <= j < ks.len() && ks[j] == k;
        if j > 0 {
            assert(TextKey::before(ks[0], ks[j]));
        }
    }
    assert(is_host_at(t, v, id));
}

/// Whom an SRv6 host trusts for a learned MAC address or an endpoint to flood to: the host of the
/// fabric it is behind, where a SID leads there; or, for an endpoint outside the fabric, the source
/// that the advertised SID leads back to.
pub open spec fn trusted_for(
    f: FabricView,
    h: HostView,
    vtep: IpAddr,
    advertised: Option<Ipv6Addr>,
    behaviour: u8,
    vni: u32,
    src: Seq<char>,
) -> bool {
    ||| exists|id: Seq<char>| #[trigger]
        sits_behind(f, h, vtep, id) && has_some_sid(f, id, advertised, behaviour, vni)
            && sends_from(f, id, src)
    ||| outside_fabric(f, h, vtep) && (advertised matches Some(sid) && (recovered_source(
        sid,
        behaviour,
        vni,
    ) matches Some(a) && src == ipv6_text(a)))
}

/// Whom an SRv6 host trusts with what was learned: whom it trusted before, the hosts behind the
/// learned MAC addresses, prefixes and endpoints to flood to that it can reach, and the peers outside
/// the fabric that advertised SIDs; and nobody else. Its own source address stays.
#[verifier::spinoff_prover]
pub proof fn learned_peers(
    c: FileConfigView,
    h: HostView,
    f: FabricView,
    r: LearnedRoutesView,
    src: Seq<char>,
)
    requires
        f.wf(),
        f.topo.hosts.dom().finite(),
        h.encap == EncapName::Srv6,
    ensures
        with_evpn(c, h, f, r).srv6 is Some <==> c.srv6 is Some,
        c.srv6 matches Some(s) ==> {
            let now = with_evpn(c, h, f, r).srv6->0;
            &&& now.local_src == s.local_src
            &&& now.peers.contains(src) <==> {
                ||| s.peers.contains(src)
                ||| exists|j: int|
                    0 <= j < r.macs.len() && trusted_for(
                        f,
                        h,
                        (#[trigger] r.macs[j]).vtep,
                        r.macs[j].srv6_sid,
                        0,
                        r.macs[j].vni,
                        src,
                    )
                ||| exists|j: int|
                    0 <= j < r.floods.len() && trusted_for(
                        f,
                        h,
                        (#[trigger] r.floods[j]).vtep,
                        r.floods[j].srv6_sid,
                        1,
                        r.floods[j].vni,
                        src,
                    )
                ||| exists|j: int, id: Seq<char>|
                    0 <= j < r.prefixes.len() && #[trigger] routes_prefix(
                        f,
                        h,
                        r.prefixes[j],
                        id,
                    ) && sends_from(f, id, src)
            }
        },
{
    if let Some(s) = c.srv6 {
        let a = flat(r.macs, |m: RemoteMac| one(mac_peer(f, h, m)));
        let b = flat(r.prefixes, |p: RemotePrefixView| one(prefix_peer(f, h, p)));
        let d = flat(r.floods, |e: RemoteFlood| one(flood_peer(f, h, e)));
        merged_contains(s.peers, evpn_peers(f, h, r), src);
        assert(evpn_peers(f, h, r) == a + b + d);
        appended_contains(a + b, d, src);
        appended_contains(a, b, src);
        mac_peers_are_trusted(h, f, r.macs, src);
        flood_peers_are_trusted(h, f, r.floods, src);
        prefix_peers_are_trusted(h, f, r.prefixes, src);
    }
}

proof fn mac_peers_are_trusted(h: HostView, f: FabricView, s: Seq<RemoteMac>, src: Seq<char>)
    requires
        f.wf(),
        f.topo.hosts.dom().finite(),
        h.encap == EncapName::Srv6,
    ensures
        flat(s, |m: RemoteMac| one(mac_peer(f, h, m))).contains(src) <==> exists|j: int|
            0 <= j < s.len() && trusted_for(
                f,
                h,
                (#[trigger] s[j]).vtep,
                s[j].srv6_sid,
                0,
                s[j].vni,
                src,
            ),
{
    let w = |m: RemoteMac| one(mac_peer(f, h, m));
    flat_contains(s, w, src);
    assert forall|j: int| 0 <= j < s.len() implies w(s[j]).contains(src) == trusted_for(
        f,
        h,
        (#[trigger] s[j]).vtep,
        s[j].srv6_sid,
        0,
        s[j].vni,
        src,
    ) by {
        let m = s[j];
        trust_is_told(f, h, m.vtep, m.srv6_sid, 0, m.vni, src);
        holds_one(mac_peer(f, h, m), src);
    }
}

proof fn flood_peers_are_trusted(h: HostView, f: FabricView, s: Seq<RemoteFlood>, src: Seq<char>)
    requires
        f.wf(),
        f.topo.hosts.dom().finite(),
        h.encap == EncapName::Srv6,
    ensures
        flat(s, |e: RemoteFlood| one(flood_peer(f, h, e))).contains(src) <==> exists|j: int|
            0 <= j < s.len() && trusted_for(
                f,
                h,
                (#[trigger] s[j]).vtep,
                s[j].srv6_sid,
                1,
                s[j].vni,
                src,
            ),
{
    let w = |e: RemoteFlood| one(flood_peer(f, h, e));
    flat_contains(s, w, src);
    assert forall|j: int| 0 <= j < s.len() implies w(s[j]).contains(src) == trusted_for(
        f,
        h,
        (#[trigger] s[j]).vtep,
        s[j].srv6_sid,
        1,
        s[j].vni,
        src,
    ) by {
        let m = s[j];
        trust_is_told(f, h, m.vtep, m.srv6_sid, 1, m.vni, src);
        holds_one(flood_peer(f, h, m), src);
    }
}

proof fn prefix_peers_are_trusted(
    h: HostView,
    f: FabricView,
    s: Seq<RemotePrefixView>,
    src: Seq<char>,
)
    requires
        f.wf(),
        h.encap == EncapName::Srv6,
    ensures
        flat(s, |p: RemotePrefixView| one(prefix_peer(f, h, p))).contains(src) <==> exists|
            j: int,
            id: Seq<char>,
        |
            0 <= j < s.len() && #[trigger] routes_prefix(f, h, s[j], id) && sends_from(f, id, src),
{
    let w = |p: RemotePrefixView| one(prefix_peer(f, h, p));
    let b = flat(s, w);
    flat_contains(s, w, src);
    if b.contains(src) {
        let j = choose|j: int| 0 <= j < s.len() && w(#[trigger] s[j]).contains(src);
        holds_one(prefix_peer(f, h, s[j]), src);
        target_is_routed(f, h, s[j]);
        let id = choose|id: Seq<char>| #[trigger] routes_prefix(f, h, s[j], id);
        assert(f.topo.hosts[id].id == id);
        assert(routes_prefix(f, h, s[j], id) && sends_from(f, id, src));
    }
    assert forall|j: int, id: Seq<char>|
        0 <= j < s.len() && #[trigger] routes_prefix(f, h, s[j], id) && sends_from(
            f,
            id,
            src,
        ) implies b.contains(src) by {
        target_is_routed(f, h, s[j]);
        assert(f.topo.hosts[id].id == id);
        holds_one(prefix_peer(f, h, s[j]), src);
        assert(w(s[j]).contains(src));
    }
}

proof fn holds_one<A>(o: Option<A>, x: A)
    ensures
        one(o).contains(x) <==> o == Some(x),
{
    if o == Some(x) {
        assert(one(o)[0] == x);
    }
}

proof fn trust_is_told(
    f: FabricView,
    h: HostView,
    vtep: IpAddr,
    advertised: Option<Ipv6Addr>,
    disc: u8,
    vni: u32,
    src: Seq<char>,
)
    requires
        f.wf(),
        f.topo.hosts.dom().finite(),
    ensures
        trusted_for(f, h, vtep, advertised, disc, vni, src) <==> match remote_of(f, h, vtep) {
            Some(r) => sid_for(advertised, derived_sid(f, r, disc, vni)) is Some && sid_text(
                host_source(f, r),
            ) == Some(src),
            None => match advertised {
                Some(sid) if is_external(f, h, vtep) => sid_text(recovered_source(sid, disc, vni))
                    == Some(src),
                _ => false,
            },
        },
{
    external_is_outside(f, h, vtep);
    if remote_of(f, h, vtep) is Some {
        let id = remote_sits_behind(f, h, vtep);
        assert(f.topo.hosts[id].id == id);
        assert(sits_behind(f, h, vtep, id));
        assert forall|o: Seq<char>| #[trigger] sits_behind(f, h, vtep, o) implies o == id by {
            behind_is_remote(f, h, vtep, o);
            assert(f.topo.hosts[o].id == o);
        }
    } else {
        assert forall|o: Seq<char>| !#[trigger] sits_behind(f, h, vtep, o) by {
            if sits_behind(f, h, vtep, o) {
                behind_is_remote(f, h, vtep, o);
            }
        }
    }
}

/// What was learned is listed with nothing left out and nothing added: each entry under its key, with
/// all that was advertised, and no entry twice.
#[verifier::spinoff_prover]
pub proof fn learned_state_is_listed(l: LearnedView)
    requires
        l.macs.dom().finite(),
        l.floods.dom().finite(),
        l.prefixes.dom().finite(),
    ensures
        forall|m: RemoteMac| #[trigger]
            routes_of(l).macs.contains(m) <==> {
                let k = (m.vni, m.mac);
                &&& l.macs.dom().contains(k)
                &&& m.vtep == l.macs[k].vtep && m.ip == l.macs[k].ip
                &&& m.srv6_sid == l.macs[k].srv6_sid
            },
        forall|e: RemoteFlood| #[trigger]
            routes_of(l).floods.contains(e) <==> {
                let k = (e.vni, e.vtep);
                &&& l.floods.dom().contains(k)
                &&& e.srv6_sid == l.floods[k]
            },
        forall|p: RemotePrefixView| #[trigger]
            routes_of(l).prefixes.contains(p) <==> {
                let k = (p.l3_vni, p.prefix);
                &&& l.prefixes.dom().contains(k)
                &&& p.vtep == l.prefixes[k].vtep && p.router_mac == l.prefixes[k].router_mac
                &&& p.gw == l.prefixes[k].gw && p.srv6_sid == l.prefixes[k].srv6_sid
            },
{
    let r = routes_of(l);
    ordered_lists::<MacKey>(l.macs.dom());
    ordered_lists::<FloodKey>(l.floods.dom());
    ordered_lists::<PrefixKey>(l.prefixes.dom());
    let km = ordered::<MacKey>(l.macs.dom());
    let kf = ordered::<FloodKey>(l.floods.dom());
    let kp = ordered::<PrefixKey>(l.prefixes.dom());
    assert forall|m: RemoteMac| #[trigger] r.macs.contains(m) <==> {
        let k = (m.vni, m.mac);
        &&& l.macs.dom().contains(k)
        &&& m.vtep == l.macs[k].vtep && m.ip == l.macs[k].ip
        &&& m.srv6_sid == l.macs[k].srv6_sid
    } by {
        let k = (m.vni, m.mac);
        if r.macs.contains(m) {
            let i = choose|i: int| 0 <= i < r.macs.len() && r.macs[i] == m;
            assert(km.contains(km[i]) && km[i] == k);
            assert(l.macs.dom().contains(km[i]));
        }
        if l.macs.dom().contains(k) && m.vtep == l.macs[k].vtep && m.ip == l.macs[k].ip
            && m.srv6_sid == l.macs[k].srv6_sid {
            let i = choose|i: int| 0 <= i < km.len() && km[i] == k;
            assert(r.macs[i] == m);
        }
    }
    assert forall|e: RemoteFlood| #[trigger] r.floods.contains(e) <==> {
        let k = (e.vni, e.vtep);
        &&& l.floods.dom().contains(k)
        &&& e.srv6_sid == l.floods[k]
    } by {
        let k = (e.vni, e.vtep);
        if r.floods.contains(e) {
            let i = choose|i: int| 0 <= i < r.floods.len() && r.floods[i] == e;
            assert(kf.contains(kf[i]) && kf[i] == k);
            assert(l.floods.dom().contains(kf[i]));
        }
        if l.floods.dom().contains(k) && e.srv6_sid == l.floods[k] {
            let i = choose|i: int| 0 <= i < kf.len() && kf[i] == k;
            assert(r.floods[i] == e);
        }
    }
    assert forall|p: RemotePrefixView| #[trigger] r.prefixes.contains(p) <==> {
        let k = (p.l3_vni, p.prefix);
        &&& l.prefixes.dom().contains(k)
        &&& p.vtep == l.prefixes[k].vtep && p.router_mac == l.prefixes[k].router_mac
        &&& p.gw == l.prefixes[k].gw && p.srv6_sid == l.prefixes[k].srv6_sid
    } by {
        let k = (p.l3_vni, p.prefix);
        if r.prefixes.contains(p) {
            let i = choose|i: int| 0 <= i < r.prefixes.len() && r.prefixes[i] == p;
            assert(kp.contains(kp[i]) && kp[i] == k);
            assert(l.prefixes.dom().contains(kp[i]));
        }
        if l.prefixes.dom().contains(k) && p.vtep == l.prefixes[k].vtep && p.router_mac
            == l.prefixes[k].router_mac && p.gw == l.prefixes[k].gw && p.srv6_sid
            == l.prefixes[k].srv6_sid {
            let i = choose|i: int| 0 <= i < kp.len() && kp[i] == k;
            assert(r.prefixes[i] == p);
        }
    }
}

/// What is seen of the records of this module is all that they hold, field by field.
pub proof fn evpn_fold_records_are_seen_whole(
    remote_prefix: RemotePrefix,
    learned_routes: LearnedRoutes,
)
    ensures
        remote_prefix@.l3_vni == remote_prefix.l3_vni,
        remote_prefix@.prefix == remote_prefix.prefix@,
        remote_prefix@.vtep == remote_prefix.vtep,
        remote_prefix@.router_mac == remote_prefix.router_mac,
        remote_prefix@.gw == remote_prefix.gw,
        remote_prefix@.srv6_sid == remote_prefix.srv6_sid,
        learned_routes@.macs == learned_routes.macs@,
        learned_routes@.floods == learned_routes.floods@,
        learned_routes@.prefixes == views(learned_routes.prefixes@),
{
}

} // verus!
