//! The configuration of every host: what the fabric derives for it, with what was learned folded
//! in.

use vstd::prelude::*;

use crate::addr::{fmt_mac, ipv4_text, ipv6_text, mac_text, Ipv6Addr};
use crate::config::{
    BackendCfg, BackendCfgView, EncapName, FileConfig, FileConfigView, ServiceCfg, ServiceCfgView,
    Srv6Cfg, Srv6CfgView, Srv6FloodCfg, Srv6FloodCfgView, Srv6LocalSidCfg, Srv6LocalSidCfgView,
    Srv6RouteCfg, Srv6RouteCfgView,
};
use crate::evpn_fold::{
    append_evpn_entries, contains_text, derived_multicast_sid, derived_sid, derived_unicast_sid,
    host_source, is_srv6, one, sid_text, source_text, srv6_src, with_evpn, LearnedRoutes,
    LearnedRoutesView,
};
use crate::fabric_laws::port_ids_differ;
use crate::lists::{
    distinct, first_index, first_index_is, first_index_properties, flat, flat_contains, flat_step,
    keyed, keyed_at, keyed_domain, merged, merged_contains,
};
use crate::orchestrator::{
    local_vni_has_port, wf_derivable, with_id, Host, HostView, Port, PortView, Topology,
    TopologyView,
};
use crate::sorted::{
    keys, lists_in_order, ordered, ordered_is, ordered_lists, values, Key, SortedMap, TextKey,
};
use crate::srv6::{service_sid, source_of, DISC_MULTICAST, DISC_UNICAST};
use crate::text::{opt_view, same, views};
use crate::topology::{names_port, Fabric, FabricView, LbMember, LbMemberView, LoadBalancerView};

verus! {

// ---------------------------------------------------------------------------
// An SRv6 host
// ---------------------------------------------------------------------------

/// The route toward a peer's MAC address: to the unicast SID of its host.
pub open spec fn srv6_route_if_peer(f: FabricView, id: Seq<char>, p: PortView) -> Option<
    Srv6RouteCfgView,
> {
    let remote = f.topo.hosts[p.host];
    match derived_sid(f, remote, DISC_UNICAST, p.vni) {
        Some(sid) if f.topo.is_peer(id, p) => Some(
            Srv6RouteCfgView {
                vni: p.vni,
                mac: mac_text(p.mac),
                remote_sid: ipv6_text(sid),
                via_mac: mac_text(remote.underlay_mac),
                out_iface: f.topo.hosts[id].underlay_iface,
            },
        ),
        _ => None,
    }
}

/// The entry that floods to a peer's host: to its flood SID.
pub open spec fn srv6_flood_if_peer(f: FabricView, id: Seq<char>, p: PortView) -> Option<
    Srv6FloodCfgView,
> {
    let remote = f.topo.hosts[p.host];
    match derived_sid(f, remote, DISC_MULTICAST, p.vni) {
        Some(sid) if f.topo.is_peer(id, p) => Some(
            Srv6FloodCfgView {
                vni: p.vni,
                remote_sid: ipv6_text(sid),
                via_mac: mac_text(remote.underlay_mac),
                out_iface: f.topo.hosts[id].underlay_iface,
            },
        ),
        _ => None,
    }
}

/// The source address of a peer's host.
pub open spec fn srv6_source_if_peer(f: FabricView, id: Seq<char>, p: PortView) -> Option<
    Seq<char>,
> {
    if f.topo.is_peer(id, p) {
        sid_text(host_source(f, f.topo.hosts[p.host]))
    } else {
        None
    }
}

/// A SID that the host terminates.
pub open spec fn local_sid(
    f: FabricView,
    h: HostView,
    disc: u8,
    vni: u32,
    behavior: Seq<char>,
) -> Option<Srv6LocalSidCfgView> {
    match derived_sid(f, h, disc, vni) {
        Some(sid) => Some(
            Srv6LocalSidCfgView { sid: ipv6_text(sid), vni, behavior: Some(behavior) },
        ),
        None => None,
    }
}

/// The SIDs that the host terminates on a segment: one for each behaviour.
pub open spec fn local_sids_of(f: FabricView, h: HostView, vni: u32) -> Seq<Srv6LocalSidCfgView> {
    one(local_sid(f, h, DISC_UNICAST, vni, "end.dt2u"@)) + one(
        local_sid(f, h, DISC_MULTICAST, vni, "end.dt2m"@),
    )
}

/// The server of a pool member: the address of its port.
pub open spec fn backend_of(t: TopologyView, m: LbMemberView) -> Option<BackendCfgView> {
    let i = first_index(t.ports, with_id(m.port_id));
    if i < t.ports.len() {
        Some(BackendCfgView { ip: ipv4_text(t.ports[i].ip), port: m.port })
    } else {
        None
    }
}

/// The service that a host gets for a load balancer, if it has a port on its segment.
pub open spec fn service_if_local(t: TopologyView, id: Seq<char>, lb: LoadBalancerView) -> Option<
    ServiceCfgView,
> {
    if t.local_vnis(id).contains(lb.vni) {
        Some(
            ServiceCfgView {
                vip: ipv4_text(lb.vip),
                port: lb.port,
                proto: lb.proto,
                backends: flat(lb.members, |m| one(backend_of(t, m))),
                policy: lb.vni,
            },
        )
    } else {
        None
    }
}

/// The services of a host, in the order of their load balancers' ids.
pub open spec fn services_of(f: FabricView, id: Seq<char>) -> Seq<ServiceCfgView> {
    flat(
        ordered::<TextKey>(f.load_balancers.dom()),
        |k: Seq<char>| one(service_if_local(f.topo, id, f.load_balancers[k])),
    )
}

/// The configuration that the fabric derives for a host: that of its ports, and the services of its
/// segments. An SRv6 host has no tunnels by address:
/// it sends to the SIDs of its peers' hosts, terminates two SIDs on each of its segments, and
/// accepts frames from its peers' hosts.
pub open spec fn fabric_derived(f: FabricView, id: Seq<char>) -> FileConfigView {
    let c = FileConfigView { services: services_of(f, id), ..f.topo.derived(id) };
    let h = f.topo.hosts[id];
    if is_srv6(h) {
        FileConfigView {
            overlay: None,
            tunnels: Seq::empty(),
            srv6: match host_source(f, h) {
                Some(src) => Some(
                    Srv6CfgView {
                        local_src: ipv6_text(src),
                        peers: merged(
                            Seq::empty(),
                            flat(f.topo.ports, |p| one(srv6_source_if_peer(f, id, p))),
                        ),
                    },
                ),
                None => None,
            },
            srv6_routes: flat(f.topo.ports, |p| one(srv6_route_if_peer(f, id, p))),
            srv6_floods: merged(
                Seq::empty(),
                flat(f.topo.ports, |p| one(srv6_flood_if_peer(f, id, p))),
            ),
            srv6_local_sids: flat(f.topo.local_vnis(id), |v| local_sids_of(f, h, v)),
            ..c
        }
    } else {
        c
    }
}

/// The configuration of a host, with learned routes folded in where there are any.
#[verifier::opaque]
pub open spec fn config_of(
    f: FabricView,
    id: Seq<char>,
    routes: Option<LearnedRoutesView>,
) -> FileConfigView {
    match routes {
        Some(r) => with_evpn(fabric_derived(f, id), f.topo.hosts[id], f, r),
        None => fabric_derived(f, id),
    }
}

fn make_route(f: &Fabric, host: &Host, vnis: &Vec<u32>, p: &Port) -> (r: Option<Srv6RouteCfg>)
    requires
        f.inv(),
        f@.topo.wf(),
        f@.topo.hosts.dom().contains(host.id@),
        f@.topo.hosts[host.id@] == host@,
        f@.topo.hosts.dom().contains(p.host@),
        vnis@ == f@.topo.local_vnis(host.id@),
    ensures
        opt_view(r) == srv6_route_if_peer(f@, host.id@, p@),
{
    if same(p.host.as_str(), host.id.as_str()) || !contains_vni(vnis, p.vni) {
        return None;
    }
    let remote = f.topo.host(p.host.as_str()).unwrap();
    match derived_unicast_sid(f, remote, p.vni) {
        Some(sid) => Some(
            Srv6RouteCfg {
                vni: p.vni,
                mac: fmt_mac(p.mac),
                remote_sid: sid.to_string(),
                via_mac: fmt_mac(remote.underlay_mac),
                out_iface: host.underlay_iface.clone(),
            },
        ),
        None => None,
    }
}

fn make_flood(f: &Fabric, host: &Host, vnis: &Vec<u32>, p: &Port) -> (r: Option<Srv6FloodCfg>)
    requires
        f.inv(),
        f@.topo.wf(),
        f@.topo.hosts.dom().contains(host.id@),
        f@.topo.hosts[host.id@] == host@,
        f@.topo.hosts.dom().contains(p.host@),
        vnis@ == f@.topo.local_vnis(host.id@),
    ensures
        opt_view(r) == srv6_flood_if_peer(f@, host.id@, p@),
{
    if same(p.host.as_str(), host.id.as_str()) || !contains_vni(vnis, p.vni) {
        return None;
    }
    let remote = f.topo.host(p.host.as_str()).unwrap();
    match derived_multicast_sid(f, remote, p.vni) {
        Some(sid) => Some(
            Srv6FloodCfg {
                vni: p.vni,
                remote_sid: sid.to_string(),
                via_mac: fmt_mac(remote.underlay_mac),
                out_iface: host.underlay_iface.clone(),
            },
        ),
        None => None,
    }
}

fn make_source(f: &Fabric, host: &Host, vnis: &Vec<u32>, p: &Port) -> (r: Option<String>)
    requires
        f.inv(),
        f@.topo.wf(),
        f@.topo.hosts.dom().contains(p.host@),
        vnis@ == f@.topo.local_vnis(host.id@),
    ensures
        opt_view(r) == srv6_source_if_peer(f@, host.id@, p@),
{
    if same(p.host.as_str(), host.id.as_str()) || !contains_vni(vnis, p.vni) {
        return None;
    }
    let remote = f.topo.host(p.host.as_str()).unwrap();
    source_text(f, remote)
}

fn contains_vni(v: &Vec<u32>, x: u32) -> (r: bool)
    ensures
        r == v@.contains(x),
{
    for i in 0..v.len()
        invariant
            forall|j: int| 0 <= j < i ==> v@[j] != x,
    {
        if v[i] == x {
            assert(v@[i as int] == x);
            return true;
        }
    }
    false
}

fn same_flood(a: &Srv6FloodCfg, b: &Srv6FloodCfg) -> (r: bool)
    ensures
        r == (a@ == b@),
{
    a.vni == b.vni && same(a.remote_sid.as_str(), b.remote_sid.as_str()) && same(
        a.via_mac.as_str(),
        b.via_mac.as_str(),
    ) && same(a.out_iface.as_str(), b.out_iface.as_str())
}

fn contains_flood(v: &Vec<Srv6FloodCfg>, x: &Srv6FloodCfg) -> (r: bool)
    ensures
        r == views(v@).contains(x@),
{
    for i in 0..v.len()
        invariant
            forall|j: int| 0 <= j < i ==> #[trigger] views(v@)[j] != x@,
    {
        if same_flood(&v[i], x) {
            assert(views(v@)[i as int] == x@);
            return true;
        }
    }
    false
}

fn srv6_routes(f: &Fabric, host: &Host, vnis: &Vec<u32>) -> (r: Vec<Srv6RouteCfg>)
    requires
        f.inv(),
        f@.topo.wf(),
        f@.topo.hosts.dom().contains(host.id@),
        f@.topo.hosts[host.id@] == host@,
        vnis@ == f@.topo.local_vnis(host.id@),
    ensures
        views(r@) == flat(f@.topo.ports, |p: PortView| one(srv6_route_if_peer(f@, host.id@, p))),
{
    let ports = f.topo.ports();
    let ghost s = f@.topo.ports;
    let ghost w = |p: PortView| one(srv6_route_if_peer(f@, host.id@, p));
    let mut out: Vec<Srv6RouteCfg> = Vec::new();
    assert(views(out@) =~= flat(s.take(0), w));
    for i in 0..ports.len()
        invariant
            f.inv(),
            f@.topo.wf(),
            f@.topo.hosts.dom().contains(host.id@),
            f@.topo.hosts[host.id@] == host@,
            vnis@ == f@.topo.local_vnis(host.id@),
            s == f@.topo.ports,
            s == views(ports@),
            w == (|p: PortView| one(srv6_route_if_peer(f@, host.id@, p))),
            views(out@) == flat(s.take(i as int), w),
    {
        proof {
            flat_step(s, w, i as int);
            assert(s[i as int] == ports@[i as int]@);
        }
        let ghost before = views(out@);
        match make_route(f, host, vnis, &ports[i]) {
            Some(e) => {
                out.push(e);
                assert(views(out@) =~= before + seq![e@]);
            },
            None => {
                assert(before =~= before + Seq::empty());
            },
        }
    }
    assert(s.take(ports@.len() as int) =~= s);
    out
}

fn srv6_floods(f: &Fabric, host: &Host, vnis: &Vec<u32>) -> (r: Vec<Srv6FloodCfg>)
    requires
        f.inv(),
        f@.topo.wf(),
        f@.topo.hosts.dom().contains(host.id@),
        f@.topo.hosts[host.id@] == host@,
        vnis@ == f@.topo.local_vnis(host.id@),
    ensures
        views(r@) == merged(
            Seq::empty(),
            flat(f@.topo.ports, |p: PortView| one(srv6_flood_if_peer(f@, host.id@, p))),
        ),
{
    let ports = f.topo.ports();
    let ghost s = f@.topo.ports;
    let ghost w = |p: PortView| one(srv6_flood_if_peer(f@, host.id@, p));
    let ghost none = Seq::<Srv6FloodCfgView>::empty();
    let mut out: Vec<Srv6FloodCfg> = Vec::new();
    assert(views(out@) =~= merged(none, flat(s.take(0), w)));
    for i in 0..ports.len()
        invariant
            f.inv(),
            f@.topo.wf(),
            f@.topo.hosts.dom().contains(host.id@),
            f@.topo.hosts[host.id@] == host@,
            vnis@ == f@.topo.local_vnis(host.id@),
            s == f@.topo.ports,
            s == views(ports@),
            w == (|p: PortView| one(srv6_flood_if_peer(f@, host.id@, p))),
            none == Seq::<Srv6FloodCfgView>::empty(),
            views(out@) == merged(none, flat(s.take(i as int), w)),
    {
        let ghost done = flat(s.take(i as int), w);
        proof {
            flat_step(s, w, i as int);
            assert(s[i as int] == ports@[i as int]@);
        }
        let ghost before = views(out@);
        match make_flood(f, host, vnis, &ports[i]) {
            Some(e) => {
                assert((done + seq![e@]).drop_last() =~= done);
                if !contains_flood(&out, &e) {
                    out.push(e);
                    assert(views(out@) =~= before.push(e@));
                }
            },
            None => {
                assert(done =~= done + Seq::empty());
            },
        }
    }
    assert(s.take(ports@.len() as int) =~= s);
    out
}

fn srv6_peers(f: &Fabric, host: &Host, vnis: &Vec<u32>) -> (r: Vec<String>)
    requires
        f.inv(),
        f@.topo.wf(),
        vnis@ == f@.topo.local_vnis(host.id@),
    ensures
        views(r@) == merged(
            Seq::empty(),
            flat(f@.topo.ports, |p: PortView| one(srv6_source_if_peer(f@, host.id@, p))),
        ),
{
    let ports = f.topo.ports();
    let ghost s = f@.topo.ports;
    let ghost w = |p: PortView| one(srv6_source_if_peer(f@, host.id@, p));
    let ghost none = Seq::<Seq<char>>::empty();
    let mut out: Vec<String> = Vec::new();
    assert(views(out@) =~= merged(none, flat(s.take(0), w)));
    for i in 0..ports.len()
        invariant
            f.inv(),
            f@.topo.wf(),
            vnis@ == f@.topo.local_vnis(host.id@),
            s == f@.topo.ports,
            s == views(ports@),
            w == (|p: PortView| one(srv6_source_if_peer(f@, host.id@, p))),
            none == Seq::<Seq<char>>::empty(),
            views(out@) == merged(none, flat(s.take(i as int), w)),
    {
        let ghost done = flat(s.take(i as int), w);
        proof {
            flat_step(s, w, i as int);
            assert(s[i as int] == ports@[i as int]@);
        }
        let ghost before = views(out@);
        match make_source(f, host, vnis, &ports[i]) {
            Some(e) => {
                assert((done + seq![e@]).drop_last() =~= done);
                if !contains_text(&out, e.as_str()) {
                    out.push(e);
                    assert(views(out@) =~= before.push(e@));
                }
            },
            None => {
                assert(done =~= done + Seq::empty());
            },
        }
    }
    assert(s.take(ports@.len() as int) =~= s);
    out
}

fn make_local_sid(sid: Option<Ipv6Addr>, vni: u32, behavior: &str) -> (r: Option<Srv6LocalSidCfg>)
    ensures
        opt_view(r) == match sid {
            Some(sid) => Some(
                Srv6LocalSidCfgView { sid: ipv6_text(sid), vni, behavior: Some(behavior@) },
            ),
            None => None,
        },
{
    match sid {
        Some(sid) => Some(
            Srv6LocalSidCfg {
                sid: sid.to_string(),
                vni,
                behavior: Some(String::from_str(behavior)),
            },
        ),
        None => None,
    }
}

fn srv6_local_sids(f: &Fabric, host: &Host, vnis: &Vec<u32>) -> (r: Vec<Srv6LocalSidCfg>)
    requires
        f.inv(),
    ensures
        views(r@) == flat(vnis@, |v: u32| local_sids_of(f@, host@, v)),
{
    let ghost w = |v: u32| local_sids_of(f@, host@, v);
    let mut out: Vec<Srv6LocalSidCfg> = Vec::new();
    assert(views(out@) =~= flat(vnis@.take(0), w));
    for i in 0..vnis.len()
        invariant
            f.inv(),
            w == (|v: u32| local_sids_of(f@, host@, v)),
            views(out@) == flat(vnis@.take(i as int), w),
    {
        let vni: u32 = vnis[i];
        proof {
            flat_step(vnis@, w, i as int);
        }
        let ghost before = views(out@);
        let unicast = make_local_sid(derived_unicast_sid(f, host, vni), vni, "end.dt2u");
        let flood = make_local_sid(derived_multicast_sid(f, host, vni), vni, "end.dt2m");
        let ghost a = one(opt_view(unicast));
        let ghost b = one(opt_view(flood));
        match unicast {
            Some(e) => {
                out.push(e);
            },
            None => {},
        }
        assert(views(out@) =~= before + a);
        match flood {
            Some(e) => {
                out.push(e);
            },
            None => {},
        }
        assert(views(out@) =~= before + (a + b));
    }
    assert(vnis@.take(vnis@.len() as int) =~= vnis@);
    out
}

fn make_backends(t: &Topology, members: &Vec<LbMember>) -> (r: Vec<BackendCfg>)
    ensures
        views(r@) == flat(views(members@), |m: LbMemberView| one(backend_of(t@, m))),
{
    let ghost s = views(members@);
    let ghost w = |m: LbMemberView| one(backend_of(t@, m));
    let mut out: Vec<BackendCfg> = Vec::new();
    assert(views(out@) =~= flat(s.take(0), w));
    for i in 0..members.len()
        invariant
            s == views(members@),
            w == (|m: LbMemberView| one(backend_of(t@, m))),
            views(out@) == flat(s.take(i as int), w),
    {
        proof {
            flat_step(s, w, i as int);
            assert(s[i as int] == members@[i as int]@);
        }
        let ghost before = views(out@);
        match port_named(t, members[i].port_id.as_str()) {
            Some(p) => {
                let e = BackendCfg { ip: p.ip.to_string(), port: members[i].port };
                out.push(e);
                assert(views(out@) =~= before + seq![e@]);
            },
            None => {
                assert(before =~= before + Seq::empty());
            },
        }
    }
    assert(s.take(members@.len() as int) =~= s);
    out
}

fn port_named<'a>(t: &'a Topology, id: &str) -> (r: Option<&'a Port>)
    ensures
        match r {
            Some(p) => first_index(t@.ports, with_id(id@)) < t@.ports.len() && t@.ports[first_index(
                t@.ports,
                with_id(id@),
            )] == p@,
            None => first_index(t@.ports, with_id(id@)) == t@.ports.len(),
        },
{
    let ports = t.ports();
    for i in 0..ports.len()
        invariant
            views(ports@) == t@.ports,
            forall|j: int| 0 <= j < i ==> !with_id(id@)(#[trigger] t@.ports[j]),
    {
        assert(t@.ports[i as int] == ports@[i as int]@);
        if same(ports[i].id.as_str(), id) {
            proof {
                first_index_is(t@.ports, with_id(id@), i as int);
            }
            return Some(&ports[i]);
        }
    }
    proof {
        first_index_is(t@.ports, with_id(id@), t@.ports.len() as int);
    }
    None
}

fn make_services(f: &Fabric, vnis: &Vec<u32>, id: Ghost<Seq<char>>) -> (r: Vec<ServiceCfg>)
    requires
        f.inv(),
        vnis@ == f@.topo.local_vnis(id@),
    ensures
        views(r@) == services_of(f@, id@),
{
    let items = f.load_balancers.items();
    let ghost ks = keys(items@);
    let ghost m = f@.load_balancers;
    let ghost w = |k: Seq<char>| one(service_if_local(f@.topo, id@, m[k]));
    proof {
        keyed_domain(ks, values(items@));
        assert(lists_in_order::<TextKey>(ks, m.dom())) by {
            assert forall|i: int, j: int| 0 <= i < j < ks.len() implies <TextKey as Key>::before(
                #[trigger] ks[i],
                #[trigger] ks[j],
            ) by {
                assert(ks[i] == items@[i].key@ && ks[j] == items@[j].key@);
            }
            assert forall|k: Seq<char>| ks.contains(k) <==> #[trigger] m.dom().contains(k) by {
                assert(f.load_balancers@.dom().contains(k) <==> ks.contains(k));
            }
        }
        ordered_is::<TextKey>(ks, m.dom());
    }
    let mut out: Vec<ServiceCfg> = Vec::new();
    assert(views(out@) =~= flat(ks.take(0), w));
    for i in 0..items.len()
        invariant
            f.inv(),
            vnis@ == f@.topo.local_vnis(id@),
            ks == keys(items@),
            m == f@.load_balancers,
            keyed(ks, values(items@)) == f.load_balancers@,
            distinct(ks),
            w == (|k: Seq<char>| one(service_if_local(f@.topo, id@, m[k]))),
            views(out@) == flat(ks.take(i as int), w),
    {
        let lb = &items[i].value;
        proof {
            flat_step(ks, w, i as int);
            keyed_at(ks, values(items@), i as int);
            assert(m[ks[i as int]] == lb@);
        }
        let ghost before = views(out@);
        if contains_vni(vnis, lb.vni) {
            let e = ServiceCfg {
                vip: lb.vip.to_string(),
                port: lb.port,
                proto: lb.proto,
                backends: make_backends(&f.topo, &lb.members),
                policy: lb.vni,
            };
            out.push(e);
            assert(views(out@) =~= before + seq![e@]);
        } else {
            assert(before =~= before + Seq::empty());
        }
    }
    assert(ks.take(items@.len() as int) =~= ks);
    out
}

/// Derives the configuration of a host; `None` where the host is unknown.
pub fn derive_host(f: &Fabric, id: &str) -> (r: Option<FileConfig>)
    requires
        f.inv(),
        f@.topo.wf(),
    ensures
        match r {
            Some(c) => f@.topo.hosts.dom().contains(id@) && c@ == fabric_derived(f@, id@),
            None => !f@.topo.hosts.dom().contains(id@),
        },
{
    proof {
        wf_derivable(f@.topo, id@);
    }
    let mut file = match f.topo.derive(id) {
        Some(c) => c,
        None => {
            return None;
        },
    };
    let host = f.topo.host(id).unwrap();
    let vnis = f.topo.host_vnis(id);
    file.services = make_services(f, &vnis, Ghost(id@));
    if host.encap.is_srv6() {
        assert(host.id@ == id@);
        file.overlay = None;
        file.tunnels = Vec::new();
        file.srv6 = match srv6_src(f, host) {
            Some(src) => Some(
                Srv6Cfg { local_src: src.to_string(), peers: srv6_peers(f, host, &vnis) },
            ),
            None => None,
        };
        file.srv6_routes = srv6_routes(f, host, &vnis);
        file.srv6_floods = srv6_floods(f, host, &vnis);
        file.srv6_local_sids = srv6_local_sids(f, host, &vnis);
    }
    assert(file@ =~= fabric_derived(f@, id@));
    Some(file)
}

fn derive_one(f: &Fabric, host: &Host, evpn: Option<&LearnedRoutes>) -> (r: FileConfig)
    requires
        f.inv(),
        f@.topo.wf(),
        f@.topo.hosts.dom().contains(host.id@),
        f@.topo.hosts[host.id@] == host@,
    ensures
        r@ == config_of(
            f@,
            host.id@,
            match evpn {
                Some(e) => Some(e@),
                None => None,
            },
        ),
{
    proof {
        reveal(config_of);
    }
    let mut file = derive_host(f, host.id.as_str()).unwrap();
    match evpn {
        Some(e) => {
            append_evpn_entries(&mut file, host, f, e);
        },
        None => {},
    }
    file
}

/// Derives the configuration of every host, with learned routes folded in where there are any.
pub fn derive_configs(f: &Fabric, evpn: Option<&LearnedRoutes>) -> (r: SortedMap<
    TextKey,
    FileConfig,
>)
    requires
        f.inv(),
        f@.topo.wf(),
    ensures
        r.inv(),
        r@.dom() == f@.topo.hosts.dom(),
        forall|id: Seq<char>| #[trigger]
            r@.dom().contains(id) ==> r@[id]@ == config_of(
                f@,
                id,
                match evpn {
                    Some(e) => Some(e@),
                    None => None,
                },
            ),
{
    let hosts = f.topo.hosts();
    let ghost ks = Seq::new(hosts@.len(), |i: int| hosts@[i].id@);
    let ghost routes = match evpn {
        Some(e) => Some(e@),
        None => None,
    };
    let mut out: SortedMap<TextKey, FileConfig> = SortedMap::new();
    proof {
        keyed_domain(ks, views(hosts@));
        assert forall|i: int| 0 <= i < hosts@.len() implies f@.topo.hosts.dom().contains(
            (#[trigger] hosts@[i]).id@,
        ) && f@.topo.hosts[hosts@[i].id@] == hosts@[i]@ by {
            keyed_at(ks, views(hosts@), i);
            assert(ks[i] == hosts@[i].id@);
        }
    }
    for i in 0..hosts.len()
        invariant
            f.inv(),
            f@.topo.wf(),
            out.inv(),
            routes == (match evpn {
                Some(e) => Some(e@),
                None => None,
            }),
            ks == Seq::new(hosts@.len(), |i: int| hosts@[i].id@),
            forall|j: int|
                0 <= j < hosts@.len() ==> f@.topo.hosts.dom().contains((#[trigger] hosts@[j]).id@)
                    && f@.topo.hosts[hosts@[j].id@] == hosts@[j]@,
            forall|j: int| 0 <= j < i ==> out@.dom().contains(#[trigger] ks[j]),
            forall|id: Seq<char>| #[trigger]
                out@.dom().contains(id) ==> f@.topo.hosts.dom().contains(id) && out@[id]@
                    == config_of(f@, id, routes),
    {
        let host = &hosts[i];
        let file = derive_one(f, host, evpn);
        assert(ks[i as int] == host.id@);
        out.insert(TextKey { text: host.id.clone() }, file);
    }
    proof {
        assert forall|id: Seq<char>| f@.topo.hosts.dom().contains(id) implies out@.dom().contains(
            id,
        ) by {
            let j = choose|j: int| 0 <= j < ks.len() && ks[j] == id;
            assert(out@.dom().contains(ks[j]));
        }
        assert(out@.dom() =~= f@.topo.hosts.dom());
    }
    out
}

// ---------------------------------------------------------------------------
// Laws
// ---------------------------------------------------------------------------

proof fn local_sid_listed(f: FabricView, id: Seq<char>, vni: u32, e: Srv6LocalSidCfgView)
    requires
        f.topo.local_vnis(id).contains(vni),
        is_srv6(f.topo.hosts[id]),
        local_sids_of(f, f.topo.hosts[id], vni).contains(e),
    ensures
        fabric_derived(f, id).srv6_local_sids.contains(e),
{
    let vnis = f.topo.local_vnis(id);
    let w = |v: u32| local_sids_of(f, f.topo.hosts[id], v);
    flat_contains(vnis, w, e);
    let i = choose|i: int| 0 <= i < vnis.len() && vnis[i] == vni;
    assert(w(vnis[i]).contains(e));
}

/// A host with a port on the segment of a load balancer balances for it: its configuration has the
/// service, with the address of each member's port behind it.
pub proof fn balancer_is_served(f: FabricView, id: Seq<char>, lb_id: Seq<char>)
    requires
        f.load_balancers.dom().finite(),
        f.load_balancers.dom().contains(lb_id),
        f.topo.local_vnis(id).contains(f.load_balancers[lb_id].vni),
    ensures
        exists|s: ServiceCfgView| #[trigger]
            fabric_derived(f, id).services.contains(s) && s.vip == ipv4_text(
                f.load_balancers[lb_id].vip,
            ) && s.port == f.load_balancers[lb_id].port && s.backends == flat(
                f.load_balancers[lb_id].members,
                |m| one(backend_of(f.topo, m)),
            ),
{
    let ks = ordered::<TextKey>(f.load_balancers.dom());
    let w = |k: Seq<char>| one(service_if_local(f.topo, id, f.load_balancers[k]));
    ordered_lists::<TextKey>(f.load_balancers.dom());
    let i = choose|i: int| 0 <= i < ks.len() && ks[i] == lb_id;
    let s = service_if_local(f.topo, id, f.load_balancers[lb_id])->0;
    assert(w(ks[i])[0] == s);
    assert(w(ks[i]).contains(s));
    flat_contains(ks, w, s);
    assert(fabric_derived(f, id).services.contains(s));
}

/// Every SID that an SRv6 host sends unicast frames to is one that the host of the peer terminates,
/// with nothing exchanged between them.
pub proof fn unicast_sids_agree(f: FabricView, id: Seq<char>, e: Srv6RouteCfgView)
    requires
        f.wf(),
        f.topo.hosts.dom().contains(id),
        is_srv6(f.topo.hosts[id]),
        fabric_derived(f, id).srv6_routes.contains(e),
    ensures
        exists|peer: Seq<char>|
            peer != id && #[trigger] f.topo.hosts.dom().contains(peer) && e.via_mac == mac_text(
                f.topo.hosts[peer].underlay_mac,
            ) && fabric_derived(f, peer).srv6_local_sids.contains(
                (Srv6LocalSidCfgView {
                    sid: e.remote_sid,
                    vni: e.vni,
                    behavior: Some("end.dt2u"@),
                }),
            ),
{
    let ports = f.topo.ports;
    let w = |p: PortView| one(srv6_route_if_peer(f, id, p));
    flat_contains(ports, w, e);
    let i = choose|i: int| 0 <= i < ports.len() && w(#[trigger] ports[i]).contains(e);
    let p = ports[i];
    assert(srv6_route_if_peer(f, id, p) == Some(e));
    let peer = p.host;
    let h = f.topo.hosts[peer];
    assert(f.topo.hosts.dom().contains(peer));
    assert(f.locators.dom().contains(peer));
    local_vni_has_port(f.topo, peer, p.vni);
    let want = Srv6LocalSidCfgView {
        sid: e.remote_sid,
        vni: e.vni,
        behavior: Some("end.dt2u"@),
    };
    let a = one(local_sid(f, h, DISC_UNICAST, p.vni, "end.dt2u"@));
    assert(a[0] == want);
    assert(local_sids_of(f, h, p.vni)[0] == want);
    local_sid_listed(f, peer, p.vni, want);
}

/// Every SID that an SRv6 host floods to is one that the host of the peer terminates.
pub proof fn flood_sids_agree(f: FabricView, id: Seq<char>, e: Srv6FloodCfgView)
    requires
        f.wf(),
        f.topo.hosts.dom().contains(id),
        is_srv6(f.topo.hosts[id]),
        fabric_derived(f, id).srv6_floods.contains(e),
    ensures
        exists|peer: Seq<char>|
            peer != id && #[trigger] f.topo.hosts.dom().contains(peer) && e.via_mac == mac_text(
                f.topo.hosts[peer].underlay_mac,
            ) && fabric_derived(f, peer).srv6_local_sids.contains(
                (Srv6LocalSidCfgView {
                    sid: e.remote_sid,
                    vni: e.vni,
                    behavior: Some("end.dt2m"@),
                }),
            ),
{
    let ports = f.topo.ports;
    let w = |p: PortView| one(srv6_flood_if_peer(f, id, p));
    merged_contains(Seq::empty(), flat(ports, w), e);
    assert(!Seq::<Srv6FloodCfgView>::empty().contains(e));
    flat_contains(ports, w, e);
    let i = choose|i: int| 0 <= i < ports.len() && w(#[trigger] ports[i]).contains(e);
    let p = ports[i];
    assert(srv6_flood_if_peer(f, id, p) == Some(e));
    let peer = p.host;
    let h = f.topo.hosts[peer];
    assert(f.topo.hosts.dom().contains(peer));
    assert(f.locators.dom().contains(peer));
    local_vni_has_port(f.topo, peer, p.vni);
    let want = Srv6LocalSidCfgView {
        sid: e.remote_sid,
        vni: e.vni,
        behavior: Some("end.dt2m"@),
    };
    let s = local_sids_of(f, h, p.vni);
    assert(one(local_sid(f, h, DISC_MULTICAST, p.vni, "end.dt2m"@))[0] == want);
    assert(s[s.len() - 1] == want);
    local_sid_listed(f, peer, p.vni, want);
}

/// Two SRv6 hosts with ports on one network accept each other's frames.
pub proof fn peers_are_trusted(f: FabricView, i: int, k: int)
    requires
        f.wf(),
        0 <= i < f.topo.ports.len(),
        0 <= k < f.topo.ports.len(),
        f.topo.ports[i].host != f.topo.ports[k].host,
        f.topo.ports[i].vni == f.topo.ports[k].vni,
        is_srv6(f.topo.hosts[f.topo.ports[i].host]),
        host_source(f, f.topo.hosts[f.topo.ports[i].host]) is Some,
        host_source(f, f.topo.hosts[f.topo.ports[k].host]) is Some,
    ensures
        fabric_derived(f, f.topo.ports[i].host).srv6 matches Some(s) && s.peers.contains(
            ipv6_text(host_source(f, f.topo.hosts[f.topo.ports[k].host])->0),
        ),
{
    let ports = f.topo.ports;
    let id = ports[i].host;
    let p = ports[k];
    let src = ipv6_text(host_source(f, f.topo.hosts[p.host])->0);
    local_vni_has_port(f.topo, id, p.vni);
    assert(f.topo.is_peer(id, p));
    let w = |p: PortView| one(srv6_source_if_peer(f, id, p));
    assert(w(p)[0] == src);
    assert(w(ports[k]).contains(src));
    flat_contains(ports, w, src);
    merged_contains(Seq::empty(), flat(ports, w), src);
}

/// Port `k` is on the given host, port `i` is on another, and they are on one network.
pub open spec fn shares_network(t: TopologyView, id: Seq<char>, i: int, k: int) -> bool {
    &&& 0 <= i < t.ports.len()
    &&& 0 <= k < t.ports.len()
    &&& t.ports[i].host != id
    &&& t.ports[k].host == id
    &&& t.ports[i].vni == t.ports[k].vni
}

/// An SRv6 host routes to the MAC addresses of the ports of other hosts on its networks and to no
/// others: each to the unicast SID of the port's host on the network, toward that host's underlay
/// MAC, over the host's own underlay interface.
pub proof fn srv6_routes_lead_to_peers(f: FabricView, id: Seq<char>, e: Srv6RouteCfgView)
    requires
        f.wf(),
        f.topo.hosts.dom().contains(id),
        f.topo.hosts[id].encap == EncapName::Srv6,
    ensures
        fabric_derived(f, id).srv6_routes.contains(e) <==> exists|i: int, k: int| #[trigger]
            shares_network(f.topo, id, i, k) && {
                let p = f.topo.ports[i];
                let remote = f.topo.hosts[p.host];
                &&& f.locators.dom().contains(p.host)
                &&& e.vni == p.vni
                &&& e.mac == mac_text(p.mac)
                &&& service_sid(f.locators[p.host], 0, p.vni) matches Some(sid)
                    && e.remote_sid == ipv6_text(sid)
                &&& e.via_mac == mac_text(remote.underlay_mac)
                &&& e.out_iface == f.topo.hosts[id].underlay_iface
            },
{
    let ports = f.topo.ports;
    let w = |p: PortView| one(srv6_route_if_peer(f, id, p));
    flat_contains(ports, w, e);
    merged_contains(Seq::empty(), flat(ports, w), e);
    assert(!Seq::<Srv6RouteCfgView>::empty().contains(e));
    if fabric_derived(f, id).srv6_routes.contains(e) {
        let i = choose|i: int| 0 <= i < ports.len() && w(#[trigger] ports[i]).contains(e);
        let p = ports[i];
        assert(srv6_route_if_peer(f, id, p) == Some(e));
        local_vni_has_port(f.topo, id, p.vni);
        let k = choose|k: int|
            0 <= k < ports.len() && (#[trigger] ports[k]).host == id && ports[k].vni == p.vni;
        assert(f.topo.hosts.dom().contains(p.host));
        assert(f.topo.hosts[p.host].id == p.host);
        assert(shares_network(f.topo, id, i, k));
    }
    assert forall|i: int, k: int| #[trigger]
        shares_network(f.topo, id, i, k) && {
            let p = f.topo.ports[i];
            let remote = f.topo.hosts[p.host];
                &&& f.locators.dom().contains(p.host)
                &&& e.vni == p.vni
                &&& e.mac == mac_text(p.mac)
                &&& service_sid(f.locators[p.host], 0, p.vni) matches Some(sid)
                    && e.remote_sid == ipv6_text(sid)
                &&& e.via_mac == mac_text(remote.underlay_mac)
                &&& e.out_iface == f.topo.hosts[id].underlay_iface
        } implies fabric_derived(f, id).srv6_routes.contains(e) by {
        local_vni_has_port(f.topo, id, ports[i].vni);
        assert(ports[k].host == id);
        assert(f.topo.is_peer(id, ports[i]));
        assert(f.topo.hosts.dom().contains(ports[i].host));
        assert(f.topo.hosts[ports[i].host].id == ports[i].host);
        assert(srv6_route_if_peer(f, id, ports[i]) == Some(e));
        assert(w(ports[i])[0] == e);
        assert(w(ports[i]).contains(e));
    }
}

/// An SRv6 host floods to the hosts that have ports on its networks and to no others: to the flood SID
/// of each on the network, toward that host's underlay MAC, over the host's own underlay interface.
pub proof fn srv6_floods_lead_to_peers(f: FabricView, id: Seq<char>, e: Srv6FloodCfgView)
    requires
        f.wf(),
        f.topo.hosts.dom().contains(id),
        f.topo.hosts[id].encap == EncapName::Srv6,
    ensures
        fabric_derived(f, id).srv6_floods.contains(e) <==> exists|i: int, k: int| #[trigger]
            shares_network(f.topo, id, i, k) && {
                let p = f.topo.ports[i];
                let remote = f.topo.hosts[p.host];
                &&& f.locators.dom().contains(p.host)
                &&& e.vni == p.vni
                &&& service_sid(f.locators[p.host], 1, p.vni) matches Some(sid)
                    && e.remote_sid == ipv6_text(sid)
                &&& e.via_mac == mac_text(remote.underlay_mac)
                &&& e.out_iface == f.topo.hosts[id].underlay_iface
            },
{
    let ports = f.topo.ports;
    let w = |p: PortView| one(srv6_flood_if_peer(f, id, p));
    flat_contains(ports, w, e);
    merged_contains(Seq::empty(), flat(ports, w), e);
    assert(!Seq::<Srv6FloodCfgView>::empty().contains(e));
    if fabric_derived(f, id).srv6_floods.contains(e) {
        let i = choose|i: int| 0 <= i < ports.len() && w(#[trigger] ports[i]).contains(e);
        let p = ports[i];
        assert(srv6_flood_if_peer(f, id, p) == Some(e));
        local_vni_has_port(f.topo, id, p.vni);
        let k = choose|k: int|
            0 <= k < ports.len() && (#[trigger] ports[k]).host == id && ports[k].vni == p.vni;
        assert(f.topo.hosts.dom().contains(p.host));
        assert(f.topo.hosts[p.host].id == p.host);
        assert(shares_network(f.topo, id, i, k));
    }
    assert forall|i: int, k: int| #[trigger]
        shares_network(f.topo, id, i, k) && {
            let p = f.topo.ports[i];
            let remote = f.topo.hosts[p.host];
                &&& f.locators.dom().contains(p.host)
                &&& e.vni == p.vni
                &&& service_sid(f.locators[p.host], 1, p.vni) matches Some(sid)
                    && e.remote_sid == ipv6_text(sid)
                &&& e.via_mac == mac_text(remote.underlay_mac)
                &&& e.out_iface == f.topo.hosts[id].underlay_iface
        } implies fabric_derived(f, id).srv6_floods.contains(e) by {
        local_vni_has_port(f.topo, id, ports[i].vni);
        assert(ports[k].host == id);
        assert(f.topo.is_peer(id, ports[i]));
        assert(f.topo.hosts.dom().contains(ports[i].host));
        assert(f.topo.hosts[ports[i].host].id == ports[i].host);
        assert(srv6_flood_if_peer(f, id, ports[i]) == Some(e));
        assert(w(ports[i])[0] == e);
        assert(w(ports[i]).contains(e));
    }
}

/// An SRv6 host terminates two SIDs on each network that it has a port on and no others: the unicast
/// SID, which forwards by MAC address, and the flood SID, which floods.
pub proof fn local_sids_are_of_networks(f: FabricView, id: Seq<char>, e: Srv6LocalSidCfgView)
    requires
        f.wf(),
        f.topo.hosts.dom().contains(id),
        f.topo.hosts[id].encap == EncapName::Srv6,
    ensures
        fabric_derived(f, id).srv6_local_sids.contains(e) <==> (exists|k: int|
            0 <= k < f.topo.ports.len() && (#[trigger] f.topo.ports[k]).host == id
                && f.topo.ports[k].vni == e.vni) && ({
            ||| service_sid(f.locators[id], 0, e.vni) matches Some(sid) && e.sid == ipv6_text(sid)
                && e.behavior == Some("end.dt2u"@)
            ||| service_sid(f.locators[id], 1, e.vni) matches Some(sid) && e.sid == ipv6_text(sid)
                && e.behavior == Some("end.dt2m"@)
        }),
{
    let h = f.topo.hosts[id];
    let vnis = f.topo.local_vnis(id);
    let w = |v: u32| local_sids_of(f, h, v);
    assert(h.id == id);
    assert(f.locators.dom().contains(id));
    flat_contains(vnis, w, e);
    local_vni_has_port(f.topo, id, e.vni);
    if fabric_derived(f, id).srv6_local_sids.contains(e) {
        let j = choose|j: int| 0 <= j < vnis.len() && w(#[trigger] vnis[j]).contains(e);
        let s = local_sids_of(f, h, vnis[j]);
        let m = choose|m: int| 0 <= m < s.len() && s[m] == e;
        assert(vnis.contains(vnis[j]));
        assert(e.vni == vnis[j]);
    }
    if vnis.contains(e.vni) {
        let a = local_sid(f, h, 0, e.vni, "end.dt2u"@);
        let b = local_sid(f, h, 1, e.vni, "end.dt2m"@);
        let s = local_sids_of(f, h, e.vni);
        if a == Some(e) {
            assert(s[0] == e);
            local_sid_listed(f, id, e.vni, e);
        }
        if b == Some(e) {
            assert(s[s.len() - 1] == e);
            local_sid_listed(f, id, e.vni, e);
        }
    }
}

/// An SRv6 host accepts frames from the hosts that have ports on its networks and from no others, by
/// their source addresses, and sends from its own.
pub proof fn srv6_sources_are_of_peers(f: FabricView, id: Seq<char>, src: Seq<char>)
    requires
        f.wf(),
        f.topo.hosts.dom().contains(id),
        f.topo.hosts[id].encap == EncapName::Srv6,
    ensures
        fabric_derived(f, id).srv6 is Some <==> source_of(f.locators[id]) is Some,
        fabric_derived(f, id).srv6 matches Some(s) ==> {
            &&& s.local_src == ipv6_text(source_of(f.locators[id])->0)
            &&& s.peers.contains(src) <==> exists|i: int, k: int| #[trigger]
                shares_network(f.topo, id, i, k) && f.locators.dom().contains(f.topo.ports[i].host)
                    && (source_of(f.locators[f.topo.ports[i].host]) matches Some(a) && src
                    == ipv6_text(a))
        },
{
    let h = f.topo.hosts[id];
    let ports = f.topo.ports;
    assert(h.id == id);
    assert(f.locators.dom().contains(id));
    let w = |p: PortView| one(srv6_source_if_peer(f, id, p));
    flat_contains(ports, w, src);
    merged_contains(Seq::empty(), flat(ports, w), src);
    assert(!Seq::<Seq<char>>::empty().contains(src));
    if flat(ports, w).contains(src) {
        let i = choose|i: int| 0 <= i < ports.len() && w(#[trigger] ports[i]).contains(src);
        let p = ports[i];
        assert(srv6_source_if_peer(f, id, p) == Some(src));
        local_vni_has_port(f.topo, id, p.vni);
        let k = choose|k: int|
            0 <= k < ports.len() && (#[trigger] ports[k]).host == id && ports[k].vni == p.vni;
        assert(f.topo.hosts.dom().contains(p.host));
        assert(f.topo.hosts[p.host].id == p.host);
        assert(shares_network(f.topo, id, i, k));
    }
    assert forall|i: int, k: int| #[trigger]
        shares_network(f.topo, id, i, k) && f.locators.dom().contains(f.topo.ports[i].host) && (
        source_of(f.locators[f.topo.ports[i].host]) matches Some(a) && src == ipv6_text(
            a,
        )) implies flat(ports, w).contains(src) by {
        local_vni_has_port(f.topo, id, ports[i].vni);
        assert(ports[k].host == id);
        assert(f.topo.is_peer(id, ports[i]));
        assert(f.topo.hosts.dom().contains(ports[i].host));
        assert(f.topo.hosts[ports[i].host].id == ports[i].host);
        assert(w(ports[i])[0] == src);
        assert(w(ports[i]).contains(src));
    }
}

/// What an SRv6 host shares with any other: policies, interfaces and ARP entries. It has no endpoint
/// and no tunnels by address; any other host has no SIDs.
pub proof fn encapsulation_decides_tables(f: FabricView, id: Seq<char>)
    ensures
        ({
            let c = fabric_derived(f, id);
            let d = f.topo.derived(id);
            let srv6 = f.topo.hosts[id].encap == EncapName::Srv6;
            &&& c.default_action == d.default_action
            &&& c.blocklist == d.blocklist
            &&& c.policies == d.policies
            &&& c.interfaces == d.interfaces
            &&& c.neighbors == d.neighbors
            &&& c.nd_neighbors.len() == 0
            &&& c.mac_routes.len() == 0
            &&& c.flood_vteps.len() == 0
            &&& c.irb_routes.len() == 0
            &&& c.srv6_irb_routes.len() == 0
            &&& srv6 ==> c.overlay is None && c.tunnels.len() == 0
            &&& !srv6 ==> {
                &&& c.overlay == d.overlay
                &&& c.tunnels == d.tunnels
                &&& c.srv6 is None
                &&& c.srv6_routes.len() == 0
                &&& c.srv6_floods.len() == 0
                &&& c.srv6_local_sids.len() == 0
            }
        }),
{
}

/// A service stands for a load balancer on a network that the host has a port on, and each such load
/// balancer has one: with its address, port and protocol, under the policy of its network, and with
/// one backend for each member, in order: the address of the member's port and the member's own port
/// number.
pub proof fn services_are_of_load_balancers(f: FabricView, id: Seq<char>, s: ServiceCfgView)
    requires
        f.wf(),
        f.load_balancers.dom().finite(),
    ensures
        fabric_derived(f, id).services.contains(s) <==> exists|lb_id: Seq<char>| #[trigger]
            f.load_balancers.dom().contains(lb_id) && serves(f.topo, id, f.load_balancers[lb_id], s),
{
    let ks = ordered::<TextKey>(f.load_balancers.dom());
    let w = |k: Seq<char>| one(service_if_local(f.topo, id, f.load_balancers[k]));
    ordered_lists::<TextKey>(f.load_balancers.dom());
    flat_contains(ks, w, s);
    if fabric_derived(f, id).services.contains(s) {
        let j = choose|j: int| 0 <= j < ks.len() && w(#[trigger] ks[j]).contains(s);
        assert(ks.contains(ks[j]));
        let lb = f.load_balancers[ks[j]];
        assert(f.load_balancers.dom().contains(ks[j]));
        assert(service_if_local(f.topo, id, lb) == Some(s));
        local_vni_has_port(f.topo, id, lb.vni);
        backends_are_of_members(f, lb.members);
        assert(serves(f.topo, id, lb, s));
    }
    assert forall|lb_id: Seq<char>| #[trigger]
        f.load_balancers.dom().contains(lb_id) && serves(
            f.topo,
            id,
            f.load_balancers[lb_id],
            s,
        ) implies fabric_derived(f, id).services.contains(s) by {
        let lb = f.load_balancers[lb_id];
        local_vni_has_port(f.topo, id, lb.vni);
        backends_are_of_members(f, lb.members);
        let b = flat(lb.members, |m| one(backend_of(f.topo, m)));
        assert forall|j: int| 0 <= j < b.len() implies b[j] == s.backends[j] by {
            assert(f.resolves_all(lb.members));
            assert(stands_for(f.topo, lb.members[j], b[j]));
            assert(stands_for(f.topo, lb.members[j], s.backends[j]));
            let x = choose|x: int|
                0 <= x < f.topo.ports.len() && (#[trigger] f.topo.ports[x]).id
                    == lb.members[j].port_id && b[j].ip == ipv4_text(f.topo.ports[x].ip);
            let y = choose|y: int|
                0 <= y < f.topo.ports.len() && (#[trigger] f.topo.ports[y]).id
                    == lb.members[j].port_id && s.backends[j].ip == ipv4_text(f.topo.ports[y].ip);
            if x != y {
                port_ids_differ(f.topo, x, y);
            }
        }
        assert(b =~= s.backends);
        assert(service_if_local(f.topo, id, lb) == Some(s));
        let j = choose|j: int| 0 <= j < ks.len() && ks[j] == lb_id;
        assert(w(ks[j])[0] == s);
        assert(w(ks[j]).contains(s));
    }
}

/// The service is what a host of one of the load balancer's ports gets for it.
pub open spec fn serves(
    t: TopologyView,
    id: Seq<char>,
    lb: LoadBalancerView,
    s: ServiceCfgView,
) -> bool {
    &&& exists|k: int|
        0 <= k < t.ports.len() && (#[trigger] t.ports[k]).host == id && t.ports[k].vni == lb.vni
    &&& s.vip == ipv4_text(lb.vip)
    &&& s.port == lb.port
    &&& s.proto == lb.proto
    &&& s.policy == lb.vni
    &&& s.backends.len() == lb.members.len()
    &&& forall|j: int|
        0 <= j < lb.members.len() ==> stands_for(t, #[trigger] lb.members[j], s.backends[j])
}

/// The backend has the member's port number and the address of the port that it names.
pub open spec fn stands_for(t: TopologyView, m: LbMemberView, b: BackendCfgView) -> bool {
    &&& b.port == m.port
    &&& exists|i: int|
        0 <= i < t.ports.len() && (#[trigger] t.ports[i]).id == m.port_id && b.ip == ipv4_text(
            t.ports[i].ip,
        )
}

proof fn backends_are_of_members(f: FabricView, members: Seq<LbMemberView>)
    requires
        f.resolves_all(members),
    ensures
        ({
            let b = flat(members, |m| one(backend_of(f.topo, m)));
            &&& b.len() == members.len()
            &&& forall|j: int|
                0 <= j < members.len() ==> stands_for(f.topo, #[trigger] members[j], b[j])
        }),
    decreases members.len(),
{
    if members.len() > 0 {
        let w = |m: LbMemberView| one(backend_of(f.topo, m));
        let rest = members.drop_last();
        let n = members.len() - 1;
        let m = members[n];
        assert forall|j: int| 0 <= j < rest.len() implies names_port(
            f.topo.ports,
            (#[trigger] rest[j]).port_id,
        ) by {
            assert(rest[j] == members[j]);
        }
        backends_are_of_members(f, rest);
        first_index_properties(f.topo.ports, with_id(m.port_id));
        assert(names_port(f.topo.ports, m.port_id));
        let all = flat(members, w);
        let l = flat(rest, w);
        assert(all == l + w(m));
        let i = first_index(f.topo.ports, with_id(m.port_id));
        assert(f.topo.ports[i].id == m.port_id);
        assert(all[n] == w(m)[0]);
        assert(stands_for(f.topo, m, all[n]));
        assert forall|j: int| 0 <= j < members.len() implies stands_for(
            f.topo,
            #[trigger] members[j],
            all[j],
        ) by {
            if j < n {
                assert(all[j] == l[j]);
                assert(stands_for(f.topo, rest[j], l[j]));
            }
        }
    }
}

/// Without learned routes a host's configuration is the derived one; with them, the derived entries
/// come first in each table, and the policies, interfaces, services and endpoint stay.
pub proof fn learned_routes_only_add(f: FabricView, id: Seq<char>, routes: Option<LearnedRoutesView>)
    ensures
        ({
            let c = fabric_derived(f, id);
            let d = config_of(f, id, routes);
            &&& routes is None ==> d == c
            &&& d.default_action == c.default_action
            &&& d.blocklist == c.blocklist
            &&& d.overlay == c.overlay
            &&& d.policies == c.policies
            &&& d.interfaces == c.interfaces
            &&& d.services == c.services
            &&& c.tunnels.is_prefix_of(d.tunnels)
            &&& c.neighbors.is_prefix_of(d.neighbors)
            &&& c.nd_neighbors.is_prefix_of(d.nd_neighbors)
            &&& c.mac_routes.is_prefix_of(d.mac_routes)
            &&& c.flood_vteps.is_prefix_of(d.flood_vteps)
            &&& c.irb_routes.is_prefix_of(d.irb_routes)
            &&& c.srv6_routes.is_prefix_of(d.srv6_routes)
            &&& c.srv6_floods.is_prefix_of(d.srv6_floods)
            &&& c.srv6_irb_routes.is_prefix_of(d.srv6_irb_routes)
            &&& c.srv6 is Some <==> d.srv6 is Some
            &&& c.srv6 matches Some(s) ==> d.srv6->0.local_src == s.local_src
        }),
{
    reveal(config_of);
}

} // verus!
