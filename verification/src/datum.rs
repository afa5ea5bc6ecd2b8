//! Comparing and copying configurations.

use vstd::prelude::*;

use crate::config::{
    BackendCfg, FileConfig, FloodVtepCfg, InterfaceFile, IrbRouteCfg, MacRouteCfg, Nd6Cfg,
    NeighborCfg, OverlayCfg, PolicyFile, PortRule, ServiceCfg, Srv6Cfg, Srv6FloodCfg,
    Srv6IrbRouteCfg, Srv6LocalSidCfg, Srv6RouteCfg, TunnelCfg,
};
use crate::text::{opt_view, same, views};

verus! {

/// A value that is compared and copied by its view.
pub trait Datum: View + Sized {
    /// Whether two values hold the same.
    fn matches(&self, other: &Self) -> (r: bool)
        ensures
            r == (self@ == other@),
    ;

    /// A value that holds the same.
    fn copied(&self) -> (r: Self)
        ensures
            r@ == self@,
    ;
}

/// Whether two lists hold the same values.
pub fn same_list<T: Datum>(a: &Vec<T>, b: &Vec<T>) -> (r: bool)
    ensures
        r == (views(a@) == views(b@)),
{
    if a.len() != b.len() {
        assert(views(a@).len() != views(b@).len());
        return false;
    }
    for i in 0..a.len()
        invariant
            a@.len() == b@.len(),
            forall|j: int| 0 <= j < i ==> #[trigger] a@[j]@ == b@[j]@,
    {
        if !a[i].matches(&b[i]) {
            assert(views(a@)[i as int] != views(b@)[i as int]);
            return false;
        }
    }
    assert(views(a@) =~= views(b@));
    true
}

/// A list that holds the same values.
pub fn copy_list<T: Datum>(a: &Vec<T>) -> (r: Vec<T>)
    ensures
        views(r@) == views(a@),
{
    let mut r: Vec<T> = Vec::new();
    for i in 0..a.len()
        invariant
            r@.len() == i,
            forall|j: int| 0 <= j < i ==> #[trigger] r@[j]@ == a@[j]@,
    {
        r.push(a[i].copied());
    }
    assert(views(r@) =~= views(a@));
    r
}

/// Whether two choices hold the same.
pub fn same_option<T: Datum>(a: &Option<T>, b: &Option<T>) -> (r: bool)
    ensures
        r == (opt_view(*a) == opt_view(*b)),
{
    match (a, b) {
        (Some(x), Some(y)) => x.matches(y),
        (None, None) => true,
        _ => false,
    }
}

/// A choice that holds the same.
pub fn copy_option<T: Datum>(a: &Option<T>) -> (r: Option<T>)
    ensures
        opt_view(r) == opt_view(*a),
{
    match a {
        Some(x) => Some(x.copied()),
        None => None,
    }
}

impl Datum for String {
    fn matches(&self, other: &Self) -> (r: bool) {
        same(self.as_str(), other.as_str())
    }

    fn copied(&self) -> (r: Self) {
        self.clone()
    }
}

fn same_number_u16(a: Option<u16>, b: Option<u16>) -> (r: bool)
    ensures
        r == (a == b),
{
    match (a, b) {
        (Some(x), Some(y)) => x == y,
        (None, None) => true,
        _ => false,
    }
}

fn same_number_u32(a: Option<u32>, b: Option<u32>) -> (r: bool)
    ensures
        r == (a == b),
{
    match (a, b) {
        (Some(x), Some(y)) => x == y,
        (None, None) => true,
        _ => false,
    }
}

impl Datum for PortRule {
    fn matches(&self, other: &Self) -> (r: bool) {
        self.proto == other.proto
            && self.port == other.port
            && self.action == other.action
            && self.log == other.log
            && same_option(&self.src, &other.src)
    }

    fn copied(&self) -> (r: Self) {
        PortRule {
            proto: self.proto,
            port: self.port,
            action: self.action,
            log: self.log,
            src: copy_option(&self.src),
        }
    }
}

impl Datum for PolicyFile {
    fn matches(&self, other: &Self) -> (r: bool) {
        self.id == other.id
            && same_option(&self.name, &other.name)
            && self.default_action == other.default_action
            && self.drop_icmp == other.drop_icmp
            && self.log == other.log
            && self.stateful == other.stateful
            && same_list(&self.blocklist, &other.blocklist)
            && same_list(&self.port_rules, &other.port_rules)
    }

    fn copied(&self) -> (r: Self) {
        PolicyFile {
            id: self.id,
            name: copy_option(&self.name),
            default_action: self.default_action,
            drop_icmp: self.drop_icmp,
            log: self.log,
            stateful: self.stateful,
            blocklist: copy_list(&self.blocklist),
            port_rules: copy_list(&self.port_rules),
        }
    }
}

impl Datum for OverlayCfg {
    fn matches(&self, other: &Self) -> (r: bool) {
        self.local_vtep.matches(&other.local_vtep)
            && self.underlay_iface.matches(&other.underlay_iface)
            && self.encap == other.encap
            && same_number_u16(self.udp_port, other.udp_port)
            && same_option(&self.local_mac, &other.local_mac)
            && same_number_u16(self.underlay_mtu, other.underlay_mtu)
    }

    fn copied(&self) -> (r: Self) {
        OverlayCfg {
            local_vtep: self.local_vtep.copied(),
            underlay_iface: self.underlay_iface.copied(),
            encap: self.encap,
            udp_port: self.udp_port,
            local_mac: copy_option(&self.local_mac),
            underlay_mtu: self.underlay_mtu,
        }
    }
}

impl Datum for Srv6Cfg {
    fn matches(&self, other: &Self) -> (r: bool) {
        self.local_src.matches(&other.local_src)
            && same_list(&self.peers, &other.peers)
    }

    fn copied(&self) -> (r: Self) {
        Srv6Cfg {
            local_src: self.local_src.copied(),
            peers: copy_list(&self.peers),
        }
    }
}

impl Datum for InterfaceFile {
    fn matches(&self, other: &Self) -> (r: bool) {
        self.name.matches(&other.name)
            && self.policy == other.policy
            && same_number_u32(self.vni, other.vni)
            && self.masquerade == other.masquerade
    }

    fn copied(&self) -> (r: Self) {
        InterfaceFile {
            name: self.name.copied(),
            policy: self.policy,
            vni: self.vni,
            masquerade: self.masquerade,
        }
    }
}

impl Datum for TunnelCfg {
    fn matches(&self, other: &Self) -> (r: bool) {
        self.vni == other.vni
            && self.inner_dst.matches(&other.inner_dst)
            && self.remote_vtep.matches(&other.remote_vtep)
            && self.via_mac.matches(&other.via_mac)
            && self.out_iface.matches(&other.out_iface)
    }

    fn copied(&self) -> (r: Self) {
        TunnelCfg {
            vni: self.vni,
            inner_dst: self.inner_dst.copied(),
            remote_vtep: self.remote_vtep.copied(),
            via_mac: self.via_mac.copied(),
            out_iface: self.out_iface.copied(),
        }
    }
}

impl Datum for NeighborCfg {
    fn matches(&self, other: &Self) -> (r: bool) {
        self.vni == other.vni
            && self.ip.matches(&other.ip)
            && self.mac.matches(&other.mac)
    }

    fn copied(&self) -> (r: Self) {
        NeighborCfg {
            vni: self.vni,
            ip: self.ip.copied(),
            mac: self.mac.copied(),
        }
    }
}

impl Datum for Nd6Cfg {
    fn matches(&self, other: &Self) -> (r: bool) {
        self.vni == other.vni
            && self.ip.matches(&other.ip)
            && self.mac.matches(&other.mac)
    }

    fn copied(&self) -> (r: Self) {
        Nd6Cfg {
            vni: self.vni,
            ip: self.ip.copied(),
            mac: self.mac.copied(),
        }
    }
}

impl Datum for MacRouteCfg {
    fn matches(&self, other: &Self) -> (r: bool) {
        self.vni == other.vni
            && self.mac.matches(&other.mac)
            && self.remote_vtep.matches(&other.remote_vtep)
            && self.via_mac.matches(&other.via_mac)
            && self.out_iface.matches(&other.out_iface)
    }

    fn copied(&self) -> (r: Self) {
        MacRouteCfg {
            vni: self.vni,
            mac: self.mac.copied(),
            remote_vtep: self.remote_vtep.copied(),
            via_mac: self.via_mac.copied(),
            out_iface: self.out_iface.copied(),
        }
    }
}

impl Datum for FloodVtepCfg {
    fn matches(&self, other: &Self) -> (r: bool) {
        self.vni == other.vni
            && self.remote_vtep.matches(&other.remote_vtep)
            && self.via_mac.matches(&other.via_mac)
            && self.out_iface.matches(&other.out_iface)
    }

    fn copied(&self) -> (r: Self) {
        FloodVtepCfg {
            vni: self.vni,
            remote_vtep: self.remote_vtep.copied(),
            via_mac: self.via_mac.copied(),
            out_iface: self.out_iface.copied(),
        }
    }
}

impl Datum for IrbRouteCfg {
    fn matches(&self, other: &Self) -> (r: bool) {
        self.vni == other.vni
            && self.inner_dst.matches(&other.inner_dst)
            && self.l3_vni == other.l3_vni
            && self.remote_vtep.matches(&other.remote_vtep)
            && self.via_mac.matches(&other.via_mac)
            && self.out_iface.matches(&other.out_iface)
            && self.router_mac.matches(&other.router_mac)
            && self.gateway_mac.matches(&other.gateway_mac)
    }

    fn copied(&self) -> (r: Self) {
        IrbRouteCfg {
            vni: self.vni,
            inner_dst: self.inner_dst.copied(),
            l3_vni: self.l3_vni,
            remote_vtep: self.remote_vtep.copied(),
            via_mac: self.via_mac.copied(),
            out_iface: self.out_iface.copied(),
            router_mac: self.router_mac.copied(),
            gateway_mac: self.gateway_mac.copied(),
        }
    }
}

impl Datum for Srv6RouteCfg {
    fn matches(&self, other: &Self) -> (r: bool) {
        self.vni == other.vni
            && self.mac.matches(&other.mac)
            && self.remote_sid.matches(&other.remote_sid)
            && self.via_mac.matches(&other.via_mac)
            && self.out_iface.matches(&other.out_iface)
    }

    fn copied(&self) -> (r: Self) {
        Srv6RouteCfg {
            vni: self.vni,
            mac: self.mac.copied(),
            remote_sid: self.remote_sid.copied(),
            via_mac: self.via_mac.copied(),
            out_iface: self.out_iface.copied(),
        }
    }
}

impl Datum for Srv6FloodCfg {
    fn matches(&self, other: &Self) -> (r: bool) {
        self.vni == other.vni
            && self.remote_sid.matches(&other.remote_sid)
            && self.via_mac.matches(&other.via_mac)
            && self.out_iface.matches(&other.out_iface)
    }

    fn copied(&self) -> (r: Self) {
        Srv6FloodCfg {
            vni: self.vni,
            remote_sid: self.remote_sid.copied(),
            via_mac: self.via_mac.copied(),
            out_iface: self.out_iface.copied(),
        }
    }
}

impl Datum for Srv6LocalSidCfg {
    fn matches(&self, other: &Self) -> (r: bool) {
        self.sid.matches(&other.sid)
            && self.vni == other.vni
            && same_option(&self.behavior, &other.behavior)
    }

    fn copied(&self) -> (r: Self) {
        Srv6LocalSidCfg {
            sid: self.sid.copied(),
            vni: self.vni,
            behavior: copy_option(&self.behavior),
        }
    }
}

impl Datum for Srv6IrbRouteCfg {
    fn matches(&self, other: &Self) -> (r: bool) {
        self.vni == other.vni
            && self.inner_dst.matches(&other.inner_dst)
            && self.l3_vni == other.l3_vni
            && self.remote_sid.matches(&other.remote_sid)
            && self.via_mac.matches(&other.via_mac)
            && self.out_iface.matches(&other.out_iface)
            && self.router_mac.matches(&other.router_mac)
            && self.gateway_mac.matches(&other.gateway_mac)
    }

    fn copied(&self) -> (r: Self) {
        Srv6IrbRouteCfg {
            vni: self.vni,
            inner_dst: self.inner_dst.copied(),
            l3_vni: self.l3_vni,
            remote_sid: self.remote_sid.copied(),
            via_mac: self.via_mac.copied(),
            out_iface: self.out_iface.copied(),
            router_mac: self.router_mac.copied(),
            gateway_mac: self.gateway_mac.copied(),
        }
    }
}

impl Datum for BackendCfg {
    fn matches(&self, other: &Self) -> (r: bool) {
        self.ip.matches(&other.ip)
            && self.port == other.port
    }

    fn copied(&self) -> (r: Self) {
        BackendCfg {
            ip: self.ip.copied(),
            port: self.port,
        }
    }
}

impl Datum for ServiceCfg {
    fn matches(&self, other: &Self) -> (r: bool) {
        self.vip.matches(&other.vip)
            && self.port == other.port
            && self.proto == other.proto
            && same_list(&self.backends, &other.backends)
            && self.policy == other.policy
    }

    fn copied(&self) -> (r: Self) {
        ServiceCfg {
            vip: self.vip.copied(),
            port: self.port,
            proto: self.proto,
            backends: copy_list(&self.backends),
            policy: self.policy,
        }
    }
}

impl Datum for FileConfig {
    fn matches(&self, other: &Self) -> (r: bool) {
        self.default_action == other.default_action
            && same_list(&self.blocklist, &other.blocklist)
            && same_option(&self.overlay, &other.overlay)
            && same_option(&self.srv6, &other.srv6)
            && same_list(&self.policies, &other.policies)
            && same_list(&self.interfaces, &other.interfaces)
            && same_list(&self.tunnels, &other.tunnels)
            && same_list(&self.neighbors, &other.neighbors)
            && same_list(&self.nd_neighbors, &other.nd_neighbors)
            && same_list(&self.mac_routes, &other.mac_routes)
            && same_list(&self.flood_vteps, &other.flood_vteps)
            && same_list(&self.irb_routes, &other.irb_routes)
            && same_list(&self.srv6_routes, &other.srv6_routes)
            && same_list(&self.srv6_floods, &other.srv6_floods)
            && same_list(&self.srv6_local_sids, &other.srv6_local_sids)
            && same_list(&self.srv6_irb_routes, &other.srv6_irb_routes)
            && same_list(&self.services, &other.services)
    }

    fn copied(&self) -> (r: Self) {
        FileConfig {
            default_action: self.default_action,
            blocklist: copy_list(&self.blocklist),
            overlay: copy_option(&self.overlay),
            srv6: copy_option(&self.srv6),
            policies: copy_list(&self.policies),
            interfaces: copy_list(&self.interfaces),
            tunnels: copy_list(&self.tunnels),
            neighbors: copy_list(&self.neighbors),
            nd_neighbors: copy_list(&self.nd_neighbors),
            mac_routes: copy_list(&self.mac_routes),
            flood_vteps: copy_list(&self.flood_vteps),
            irb_routes: copy_list(&self.irb_routes),
            srv6_routes: copy_list(&self.srv6_routes),
            srv6_floods: copy_list(&self.srv6_floods),
            srv6_local_sids: copy_list(&self.srv6_local_sids),
            srv6_irb_routes: copy_list(&self.srv6_irb_routes),
            services: copy_list(&self.services),
        }
    }
}

} // verus!
