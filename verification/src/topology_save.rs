//! Writing a fabric back as a file, so that loading the file gives the same fabric again.

use vstd::prelude::*;

use crate::addr::{cidr4_text, cidr6_text, fmt_mac, ip_text, ipv4_text, ipv6_text, mac_text, IpAddr};
use crate::config::clone_rules;
use crate::evpn::same_mac;
use crate::lists::{distinct, first_index, flat, flat_step, keyed, keyed_at, keyed_domain};
use crate::orchestrator::{
    first_port_with_id, mac_for, mac_of, policy_id_of, with_id, Host, HostView, Network,
    NetworkView, Port, PortView, SecurityGroup, SecurityGroupView, Topology, TopologyView,
};
use crate::sorted::{
    keys, keys_in_order, texts_increasing, values, Key, NumberKey, SortedMap, TextKey,
};
use crate::srv6::Locator;
use crate::store::{Subnet, SubnetCidr, SubnetView};
use crate::text::{clone_strings, decimal, opt_view, push_decimal, views};
use crate::topology::{
    Fabric, FabricView, HostFile, HostFileView, IpVrf, IpVrfFile, IpVrfFileView, IpVrfView,
    LbMemberFile, LbMemberFileView, LbMemberView, LoadBalancer, LoadBalancerFile,
    LoadBalancerFileView, LoadBalancerView, NetworkFile, NetworkFileView, PortFile, PortFileView,
    SecurityGroupFile, SecurityGroupFileView, SubnetFile, SubnetFileView, TopologyFile,
    TopologyFileView,
};

verus! {

// ---------------------------------------------------------------------------
// What each entry is written as
// ---------------------------------------------------------------------------

/// A locator as `prefix/len`.
pub open spec fn locator_text(l: Locator) -> Seq<char> {
    ipv6_text(l.addr).push('/') + decimal(l.len as nat)
}

/// How a host is written.
pub open spec fn host_file(f: FabricView, h: HostView) -> HostFileView {
    HostFileView {
        id: h.id,
        vtep: ipv4_text(h.vtep_ip),
        underlay_iface: h.underlay_iface,
        underlay_mac: mac_text(h.underlay_mac),
        encap: h.encap,
        udp_port: h.udp_port,
        underlay_mtu: h.underlay_mtu,
        srv6_locator: if f.locators.dom().contains(h.id) {
            Some(locator_text(f.locators[h.id]))
        } else {
            None
        },
    }
}

/// How a network is written.
pub open spec fn network_file(n: NetworkView) -> NetworkFileView {
    NetworkFileView {
        vni: n.vni,
        name: n.name,
        subnet: cidr4_text(n.subnet),
        default_action: n.default_action,
        drop_icmp: n.drop_icmp,
    }
}

/// The text of a subnet's prefix.
pub open spec fn subnet_cidr_text(c: SubnetCidr) -> Seq<char> {
    match c {
        SubnetCidr::V4(c) => cidr4_text(c),
        SubnetCidr::V6(c) => cidr6_text(c),
    }
}

/// The text of an address, where there is one.
pub open spec fn ip_text_option(a: Option<IpAddr>) -> Option<Seq<char>> {
    match a {
        Some(a) => Some(ip_text(a)),
        None => None,
    }
}

/// How a subnet is written.
pub open spec fn subnet_file(s: SubnetView) -> SubnetFileView {
    SubnetFileView {
        id: s.id,
        vni: s.vni,
        cidr: subnet_cidr_text(s.cidr),
        gateway: ip_text_option(s.gateway),
        pool_start: match s.pool {
            Some(r) => Some(ip_text(r.start)),
            None => None,
        },
        pool_end: match s.pool {
            Some(r) => Some(ip_text(r.end)),
            None => None,
        },
        enable_dhcp: s.enable_dhcp,
    }
}

/// How a security group is written.
pub open spec fn group_file(g: SecurityGroupView) -> SecurityGroupFileView {
    SecurityGroupFileView {
        name: g.name,
        default_action: g.default_action,
        drop_icmp: g.drop_icmp,
        stateful: g.stateful,
        blocklist: g.blocklist,
        rules: g.rules,
    }
}

/// How a routing context is written.
pub open spec fn vrf_file(v: IpVrfView) -> IpVrfFileView {
    IpVrfFileView {
        l3_vni: v.l3_vni,
        name: v.name,
        gateway_mac: mac_text(v.gateway_mac),
        networks: v.networks,
    }
}

/// How a member of a load balancer is written: by the host and the interface of its port, or not at
/// all where its port is gone.
pub open spec fn member_file(ports: Seq<PortView>) -> spec_fn(LbMemberView) -> Seq<
    LbMemberFileView,
> {
    |m: LbMemberView|
        {
            let i = first_index(ports, with_id(m.port_id));
            if i < ports.len() {
                seq![LbMemberFileView { host: ports[i].host, tap: ports[i].tap, port: m.port }]
            } else {
                Seq::empty()
            }
        }
}

/// How a load balancer is written.
pub open spec fn lb_file(ports: Seq<PortView>, lb: LoadBalancerView) -> LoadBalancerFileView {
    LoadBalancerFileView {
        id: lb.id,
        vni: lb.vni,
        vip: ipv4_text(lb.vip),
        port: lb.port,
        proto: lb.proto,
        members: flat(lb.members, member_file(ports)),
    }
}

/// The name of the security group that a policy id stands for.
pub open spec fn group_name(t: TopologyView, policy: Option<u32>) -> Option<Seq<char>> {
    match policy {
        Some(pid) if t.has_group_of(pid) => Some(
            choose|name: Seq<char>| t.is_group_of(pid, name),
        ),
        _ => None,
    }
}

/// How a port is written: with its address; with its MAC address where that is not the derived one;
/// and with the name of its security group in place of the policy id.
pub open spec fn port_file(t: TopologyView, p: PortView) -> PortFileView {
    let group = group_name(t, p.policy);
    PortFileView {
        network: p.vni,
        host: p.host,
        tap: p.tap,
        ip: Some(ipv4_text(p.ip)),
        policy: if group is Some {
            None
        } else {
            p.policy
        },
        security_group: group,
        mac: if p.mac != mac_of(p.ip) {
            Some(mac_text(p.mac))
        } else {
            None
        },
    }
}

/// A list holds every entry of a map once, as `w` writes it, in the order of `ks`.
pub open spec fn lists<K, V, F>(s: Seq<F>, ks: Seq<K>, m: Map<K, V>, w: spec_fn(V) -> F) -> bool {
    &&& s.len() == ks.len()
    &&& distinct(ks)
    &&& forall|k: K| #[trigger] m.dom().contains(k) ==> ks.contains(k)
    &&& forall|i: int|
        0 <= i < ks.len() ==> m.dom().contains(#[trigger] ks[i]) && s[i] == w(m[ks[i]])
}

/// The ids of hosts.
pub open spec fn host_ids(s: Seq<HostFileView>) -> Seq<Seq<char>> {
    Seq::new(s.len(), |i: int| s[i].id)
}

/// The VNIs of networks.
pub open spec fn network_vnis(s: Seq<NetworkFileView>) -> Seq<u32> {
    Seq::new(s.len(), |i: int| s[i].vni)
}

/// The ids of subnets.
pub open spec fn subnet_ids(s: Seq<SubnetFileView>) -> Seq<Seq<char>> {
    Seq::new(s.len(), |i: int| s[i].id)
}

/// The names of security groups.
pub open spec fn group_names(s: Seq<SecurityGroupFileView>) -> Seq<Seq<char>> {
    Seq::new(s.len(), |i: int| s[i].name)
}

/// The layer-3 segments of routing contexts.
pub open spec fn vrf_vnis(s: Seq<IpVrfFileView>) -> Seq<u32> {
    Seq::new(s.len(), |i: int| s[i].l3_vni)
}

/// The ids of load balancers.
pub open spec fn lb_ids(s: Seq<LoadBalancerFileView>) -> Seq<Seq<char>> {
    Seq::new(s.len(), |i: int| s[i].id)
}

/// Strictly increasing numbers.
pub open spec fn numbers_increasing(s: Seq<u32>) -> bool {
    forall|i: int, j: int| 0 <= i < j < s.len() ==> #[trigger] s[i] < #[trigger] s[j]
}

/// Whether a file is how a fabric is written: each table in the order of its keys, and the ports in
/// order of creation.
pub open spec fn written(tf: TopologyFileView, f: FabricView) -> bool {
    &&& texts_increasing(host_ids(tf.hosts))
    &&& lists(tf.hosts, host_ids(tf.hosts), f.topo.hosts, |h| host_file(f, h))
    &&& numbers_increasing(network_vnis(tf.networks))
    &&& lists(tf.networks, network_vnis(tf.networks), f.topo.networks, |n| network_file(n))
    &&& texts_increasing(subnet_ids(tf.subnets))
    &&& lists(tf.subnets, subnet_ids(tf.subnets), f.subnets, |s| subnet_file(s))
    &&& texts_increasing(group_names(tf.security_groups))
    &&& lists(
        tf.security_groups,
        group_names(tf.security_groups),
        f.topo.security_groups,
        |g| group_file(g),
    )
    &&& numbers_increasing(vrf_vnis(tf.ip_vrfs))
    &&& lists(tf.ip_vrfs, vrf_vnis(tf.ip_vrfs), f.ip_vrfs, |v| vrf_file(v))
    &&& texts_increasing(lb_ids(tf.load_balancers))
    &&& lists(
        tf.load_balancers,
        lb_ids(tf.load_balancers),
        f.load_balancers,
        |lb| lb_file(f.topo.ports, lb),
    )
    &&& tf.ports == f.topo.ports.map_values(|p| port_file(f.topo, p))
}

// ---------------------------------------------------------------------------
// Writing
// ---------------------------------------------------------------------------

/// A table in key order whose values are those of `m` as `w` writes them gives a list of `m`.
proof fn listed<K, V, F: View>(
    ks: Seq<K>,
    rs: Seq<F>,
    t: Map<K, F>,
    m: Map<K, V>,
    w: spec_fn(V) -> F::V,
)
    requires
        ks.len() == rs.len(),
        distinct(ks),
        keyed(ks, rs) == t,
        t.dom() == m.dom(),
        forall|k: K| #[trigger] t.dom().contains(k) ==> t[k]@ == w(m[k]),
    ensures
        lists(views(rs), ks, m, w),
{
    keyed_domain(ks, rs);
    assert forall|i: int| 0 <= i < ks.len() implies m.dom().contains(#[trigger] ks[i]) && views(
        rs,
    )[i] == w(m[ks[i]]) by {
        keyed_at(ks, rs, i);
        assert(t.dom().contains(ks[i]));
    }
}

fn locator_to_string(l: &Locator) -> (r: String)
    ensures
        r@ == locator_text(*l),
{
    let mut s = l.addr.to_string();
    s.push('/');
    push_decimal(&mut s, l.len as u64);
    s
}

fn host_to_file(f: &Fabric, h: &Host) -> (r: HostFile)
    requires
        f.inv(),
    ensures
        r@ == host_file(f@, h@),
{
    let key = TextKey { text: h.id.clone() };
    let srv6_locator = match f.locators.get(&key) {
        Some(l) => Some(locator_to_string(l)),
        None => None,
    };
    HostFile {
        id: h.id.clone(),
        vtep: h.vtep_ip.to_string(),
        underlay_iface: h.underlay_iface.clone(),
        underlay_mac: fmt_mac(h.underlay_mac),
        encap: h.encap,
        udp_port: h.udp_port,
        underlay_mtu: h.underlay_mtu,
        srv6_locator,
    }
}

fn network_to_file(n: &Network) -> (r: NetworkFile)
    requires
        n.subnet.valid(),
    ensures
        r@ == network_file(n@),
{
    NetworkFile {
        vni: n.vni,
        name: n.name.clone(),
        subnet: n.subnet.to_string(),
        default_action: n.default_action,
        drop_icmp: n.drop_icmp,
    }
}

fn ip_to_string(a: Option<IpAddr>) -> (r: Option<String>)
    ensures
        opt_view(r) == ip_text_option(a),
{
    match a {
        Some(a) => Some(a.to_string()),
        None => None,
    }
}

/// Writes a subnet in its file form.
pub fn subnet_to_file(s: &Subnet) -> (r: SubnetFile)
    ensures
        r@ == subnet_file(s@),
{
    let (pool_start, pool_end) = match s.pool {
        Some(r) => (Some(r.start.to_string()), Some(r.end.to_string())),
        None => (None, None),
    };
    SubnetFile {
        id: s.id.clone(),
        vni: s.vni,
        cidr: match &s.cidr {
            SubnetCidr::V4(c) => c.to_string(),
            SubnetCidr::V6(c) => c.to_string(),
        },
        gateway: ip_to_string(s.gateway),
        pool_start,
        pool_end,
        enable_dhcp: s.enable_dhcp,
    }
}

fn group_to_file(g: &SecurityGroup) -> (r: SecurityGroupFile)
    ensures
        r@ == group_file(g@),
{
    SecurityGroupFile {
        name: g.name.clone(),
        default_action: g.default_action,
        drop_icmp: g.drop_icmp,
        stateful: g.stateful,
        blocklist: clone_strings(&g.blocklist),
        rules: clone_rules(&g.rules),
    }
}

fn clone_numbers(v: &Vec<u32>) -> (r: Vec<u32>)
    ensures
        r@ == v@,
{
    let mut r: Vec<u32> = Vec::new();
    for i in 0..v.len()
        invariant
            r@ == v@.take(i as int),
    {
        r.push(v[i]);
        assert(v@.take(i + 1) =~= v@.take(i as int).push(v@[i as int]));
    }
    assert(v@.take(v@.len() as int) =~= v@);
    r
}

fn vrf_to_file(v: &IpVrf) -> (r: IpVrfFile)
    ensures
        r@ == vrf_file(v@),
{
    IpVrfFile {
        l3_vni: v.l3_vni,
        name: v.name.clone(),
        gateway_mac: fmt_mac(v.gateway_mac),
        networks: clone_numbers(&v.networks),
    }
}

fn lb_to_file(ports: &Vec<Port>, lb: &LoadBalancer) -> (r: LoadBalancerFile)
    ensures
        r@ == lb_file(views(ports@), lb@),
{
    let ghost ms = views(lb.members@);
    let ghost pv = views(ports@);
    let ghost w = member_file(pv);
    let mut members: Vec<LbMemberFile> = Vec::new();
    assert(views(members@) =~= flat(ms.take(0), w));
    for i in 0..lb.members.len()
        invariant
            ms == views(lb.members@),
            pv == views(ports@),
            w == member_file(pv),
            views(members@) == flat(ms.take(i as int), w),
    {
        proof {
            flat_step(ms, w, i as int);
        }
        let m = &lb.members[i];
        assert(ms[i as int] == m@);
        let ghost before = views(members@);
        match first_port_with_id(ports, m.port_id.as_str()) {
            Some(k) => {
                let member = LbMemberFile {
                    host: ports[k].host.clone(),
                    tap: ports[k].tap.clone(),
                    port: m.port,
                };
                assert(pv[k as int] == ports@[k as int]@);
                members.push(member);
                assert(views(members@) =~= before + seq![member@]);
            },
            None => {
                assert(before =~= before + Seq::empty());
            },
        }
    }
    assert(ms.take(lb.members@.len() as int) =~= ms);
    LoadBalancerFile {
        id: lb.id.clone(),
        vni: lb.vni,
        vip: lb.vip.to_string(),
        port: lb.port,
        proto: lb.proto,
        members,
    }
}

/// The name of the group with the given policy id.
fn group_with_policy(topo: &Topology, policy: Option<u32>) -> (r: Option<String>)
    requires
        topo.inv(),
        topo@.wf(),
    ensures
        opt_view(r) == group_name(topo@, policy),
{
    let pid: u32 = match policy {
        Some(p) => p,
        None => {
            return None;
        },
    };
    let groups = topo.security_groups();
    let ghost ks = Seq::new(groups@.len(), |i: int| groups@[i].name@);
    let ghost t = topo@;
    proof {
        keyed_domain(ks, views(groups@));
    }
    for i in 0..groups.len()
        invariant
            policy == Some(pid),
            t == topo@,
            t.wf(),
            ks == Seq::new(groups@.len(), |i: int| groups@[i].name@),
            forall|k: Seq<char>| #[trigger] t.security_groups.dom().contains(k) <==> ks.contains(k),
            forall|j: int| 0 <= j < i ==> policy_id_of(#[trigger] ks[j]) != pid,
    {
        if groups[i].policy_id() == pid {
            proof {
                let name = ks[i as int];
                assert(ks.contains(name));
                assert(t.is_group_of(pid, name));
                let other = choose|n: Seq<char>| t.is_group_of(pid, n);
                assert(t.is_group_of(pid, other));
                assert(t.security_groups.dom().contains(other));
                assert(t.security_groups.dom().contains(name));
            }
            return Some(groups[i].name.clone());
        }
    }
    proof {
        if t.has_group_of(pid) {
            let other = choose|n: Seq<char>| t.is_group_of(pid, n);
            assert(t.security_groups.dom().contains(other));
            let j = choose|j: int| 0 <= j < ks.len() && ks[j] == other;
            assert(policy_id_of(ks[j]) != pid);
        }
    }
    None
}

fn port_to_file(topo: &Topology, p: &Port) -> (r: PortFile)
    requires
        topo.inv(),
        topo@.wf(),
    ensures
        r@ == port_file(topo@, p@),
{
    let security_group = group_with_policy(topo, p.policy);
    let derived = mac_for(p.ip);
    let mac = if same_mac(&p.mac, &derived) {
        None
    } else {
        Some(fmt_mac(p.mac))
    };
    PortFile {
        network: p.vni,
        host: p.host.clone(),
        tap: p.tap.clone(),
        ip: Some(p.ip.to_string()),
        policy: if security_group.is_some() {
            None
        } else {
            p.policy
        },
        security_group,
        mac,
    }
}

fn hosts_to_file(f: &Fabric) -> (r: Vec<HostFile>)
    requires
        f.inv(),
        f@.tables_match(),
    ensures
        texts_increasing(host_ids(views(r@))),
        lists(views(r@), host_ids(views(r@)), f@.topo.hosts, |h| host_file(f@, h)),
{
    let hosts = f.topo.hosts();
    let ghost ks = Seq::new(hosts@.len(), |i: int| hosts@[i].id@);
    let ghost w = |h: HostView| host_file(f@, h);
    let mut table: SortedMap<TextKey, HostFile> = SortedMap::new();
    for i in 0..hosts.len()
        invariant
            f.inv(),
            table.inv(),
            ks == Seq::new(hosts@.len(), |i: int| hosts@[i].id@),
            w == (|h: HostView| host_file(f@, h)),
            ({
                let m = keyed(ks.take(i as int), views(hosts@).take(i as int));
                &&& table@.dom() == m.dom()
                &&& forall|k: Seq<char>| #[trigger] table@.dom().contains(k)
                    ==> table@[k]@ == w(m[k])
            }),
    {
        let h = &hosts[i];
        proof {
            let m = keyed(ks.take(i as int), views(hosts@).take(i as int));
            assert(ks.take(i + 1).drop_last() =~= ks.take(i as int));
            assert(views(hosts@).take(i + 1).drop_last() =~= views(hosts@).take(i as int));
            assert(views(hosts@)[i as int] == h@);
            assert(keyed(ks.take(i + 1), views(hosts@).take(i + 1)) == m.insert(h.id@, h@));
        }
        table.insert(TextKey { text: h.id.clone() }, host_to_file(f, h));
    }
    let ghost t = table@;
    let r = table.into_values();
    proof {
        assert(ks.take(hosts@.len() as int) =~= ks);
        assert(views(hosts@).take(hosts@.len() as int) =~= views(hosts@));
        let rk = choose|rk: Seq<Seq<char>>|
            #[trigger] keyed(rk, r@) == t && keys_in_order::<TextKey>(rk) && distinct(rk)
                && rk.len() == r@.len();
        listed(rk, r@, t, f@.topo.hosts, w);
        assert(host_ids(views(r@)) =~= rk) by {
            assert forall|i: int| 0 <= i < rk.len() implies host_ids(views(r@))[i] == rk[i] by {
                assert(f@.topo.hosts.dom().contains(rk[i]));
            }
        }
        assert forall|i: int, j: int| 0 <= i < j < rk.len() implies crate::sorted::text_before(
            #[trigger] rk[i],
            #[trigger] rk[j],
        ) by {
            assert(TextKey::before(rk[i], rk[j]));
        }
    }
    r
}

fn networks_to_file(f: &Fabric) -> (r: Vec<NetworkFile>)
    requires
        f.inv(),
        f@.tables_match(),
    ensures
        numbers_increasing(network_vnis(views(r@))),
        lists(views(r@), network_vnis(views(r@)), f@.topo.networks, |n| network_file(n)),
{
    let networks = f.topo.networks();
    let ghost ks = Seq::new(networks@.len(), |i: int| networks@[i].vni);
    let ghost w = |n: NetworkView| network_file(n);
    let mut table: SortedMap<NumberKey, NetworkFile> = SortedMap::new();
    for i in 0..networks.len()
        invariant
            f.topo.inv(),
            f@.topo.wf(),
            keyed(ks, views(networks@)) == f@.topo.networks,
            distinct(ks),
            table.inv(),
            ks == Seq::new(networks@.len(), |i: int| networks@[i].vni),
            w == (|n: NetworkView| network_file(n)),
            ({
                let m = keyed(ks.take(i as int), views(networks@).take(i as int));
                &&& table@.dom() == m.dom()
                &&& forall|k: u32| #[trigger] table@.dom().contains(k) ==> table@[k]@ == w(m[k])
            }),
    {
        let n = &networks[i];
        proof {
            keyed_at(ks, views(networks@), i as int);
            assert(ks[i as int] == n.vni);
            let m = keyed(ks.take(i as int), views(networks@).take(i as int));
            assert(ks.take(i + 1).drop_last() =~= ks.take(i as int));
            assert(views(networks@).take(i + 1).drop_last() =~= views(networks@).take(i as int));
            assert(views(networks@)[i as int] == n@);
            assert(keyed(ks.take(i + 1), views(networks@).take(i + 1)) == m.insert(n.vni, n@));
        }
        table.insert(NumberKey { number: n.vni }, network_to_file(n));
    }
    let ghost t = table@;
    let r = table.into_values();
    proof {
        assert(ks.take(networks@.len() as int) =~= ks);
        assert(views(networks@).take(networks@.len() as int) =~= views(networks@));
        let rk = choose|rk: Seq<u32>|
            #[trigger] keyed(rk, r@) == t && keys_in_order::<NumberKey>(rk) && distinct(rk)
                && rk.len() == r@.len();
        listed(rk, r@, t, f@.topo.networks, w);
        assert(network_vnis(views(r@)) =~= rk) by {
            assert forall|i: int| 0 <= i < rk.len() implies network_vnis(views(r@))[i] == rk[i] by {
                assert(f@.topo.networks.dom().contains(rk[i]));
            }
        }
        assert forall|i: int, j: int| 0 <= i < j < rk.len() implies #[trigger] rk[i]
            < #[trigger] rk[j] by {
            assert(NumberKey::before(rk[i], rk[j]));
        }
    }
    r
}

fn groups_to_file(f: &Fabric) -> (r: Vec<SecurityGroupFile>)
    requires
        f.inv(),
        f@.tables_match(),
    ensures
        texts_increasing(group_names(views(r@))),
        lists(views(r@), group_names(views(r@)), f@.topo.security_groups, |g| group_file(g)),
{
    let groups = f.topo.security_groups();
    let ghost ks = Seq::new(groups@.len(), |i: int| groups@[i].name@);
    let ghost w = |g: SecurityGroupView| group_file(g);
    let mut table: SortedMap<TextKey, SecurityGroupFile> = SortedMap::new();
    for i in 0..groups.len()
        invariant
            f.inv(),
            table.inv(),
            ks == Seq::new(groups@.len(), |i: int| groups@[i].name@),
            w == (|g: SecurityGroupView| group_file(g)),
            ({
                let m = keyed(ks.take(i as int), views(groups@).take(i as int));
                &&& table@.dom() == m.dom()
                &&& forall|k: Seq<char>| #[trigger] table@.dom().contains(k)
                    ==> table@[k]@ == w(m[k])
            }),
    {
        let g = &groups[i];
        proof {
            let m = keyed(ks.take(i as int), views(groups@).take(i as int));
            assert(ks.take(i + 1).drop_last() =~= ks.take(i as int));
            assert(views(groups@).take(i + 1).drop_last() =~= views(groups@).take(i as int));
            assert(views(groups@)[i as int] == g@);
            assert(keyed(ks.take(i + 1), views(groups@).take(i + 1)) == m.insert(g.name@, g@));
        }
        table.insert(TextKey { text: g.name.clone() }, group_to_file(g));
    }
    let ghost t = table@;
    let r = table.into_values();
    proof {
        assert(ks.take(groups@.len() as int) =~= ks);
        assert(views(groups@).take(groups@.len() as int) =~= views(groups@));
        let rk = choose|rk: Seq<Seq<char>>|
            #[trigger] keyed(rk, r@) == t && keys_in_order::<TextKey>(rk) && distinct(rk)
                && rk.len() == r@.len();
        listed(rk, r@, t, f@.topo.security_groups, w);
        assert(group_names(views(r@)) =~= rk) by {
            assert forall|i: int| 0 <= i < rk.len() implies group_names(views(r@))[i] == rk[i] by {
                assert(f@.topo.security_groups.dom().contains(rk[i]));
            }
        }
        assert forall|i: int, j: int| 0 <= i < j < rk.len() implies crate::sorted::text_before(
            #[trigger] rk[i],
            #[trigger] rk[j],
        ) by {
            assert(TextKey::before(rk[i], rk[j]));
        }
    }
    r
}

fn subnets_to_file(f: &Fabric) -> (r: Vec<SubnetFile>)
    requires
        f.inv(),
        f@.tables_match(),
    ensures
        texts_increasing(subnet_ids(views(r@))),
        lists(views(r@), subnet_ids(views(r@)), f@.subnets, |s: SubnetView| subnet_file(s)),
{
    let items = f.subnets.items();
    let ghost ks = keys(items@);
    let ghost m = f@.subnets;
    let ghost w = |s: SubnetView| subnet_file(s);
    let mut r: Vec<SubnetFile> = Vec::new();
    for i in 0..items.len()
        invariant
            w == (|s: SubnetView| subnet_file(s)),
            r@.len() == i,
            forall|j: int| 0 <= j < i ==> (#[trigger] r@[j])@ == w(items@[j].value@),
    {
        r.push(subnet_to_file(&items[i].value));
    }
    proof {
        keyed_domain(ks, values(items@));
        assert forall|i: int| 0 <= i < ks.len() implies m.dom().contains(#[trigger] ks[i]) && views(
            r@,
        )[i] == w(m[ks[i]]) && subnet_ids(views(r@))[i] == ks[i] by {
            keyed_at(ks, values(items@), i);
            assert(f.subnets@.dom().contains(ks[i]));
            assert(m.dom().contains(ks[i]));
            assert(r@[i]@ == w(items@[i].value@));
        }
        assert(subnet_ids(views(r@)) =~= ks);
        assert forall|k: Seq<char>| #[trigger] m.dom().contains(k) implies ks.contains(k) by {
            assert(f.subnets@.dom().contains(k));
        }
        assert forall|i: int, j: int| 0 <= i < j < ks.len() implies crate::sorted::text_before(
            #[trigger] ks[i],
            #[trigger] ks[j],
        ) by {
            assert(TextKey::before(items@[i].key@, items@[j].key@));
        }
    }
    r
}

fn vrfs_to_file(f: &Fabric) -> (r: Vec<IpVrfFile>)
    requires
        f.inv(),
        f@.tables_match(),
    ensures
        numbers_increasing(vrf_vnis(views(r@))),
        lists(views(r@), vrf_vnis(views(r@)), f@.ip_vrfs, |v: IpVrfView| vrf_file(v)),
{
    let items = f.ip_vrfs.items();
    let ghost ks = keys(items@);
    let ghost m = f@.ip_vrfs;
    let ghost w = |v: IpVrfView| vrf_file(v);
    let mut r: Vec<IpVrfFile> = Vec::new();
    for i in 0..items.len()
        invariant
            w == (|v: IpVrfView| vrf_file(v)),
            r@.len() == i,
            forall|j: int| 0 <= j < i ==> (#[trigger] r@[j])@ == w(items@[j].value@),
    {
        r.push(vrf_to_file(&items[i].value));
    }
    proof {
        keyed_domain(ks, values(items@));
        assert forall|i: int| 0 <= i < ks.len() implies m.dom().contains(#[trigger] ks[i]) && views(
            r@,
        )[i] == w(m[ks[i]]) && vrf_vnis(views(r@))[i] == ks[i] by {
            keyed_at(ks, values(items@), i);
            assert(f.ip_vrfs@.dom().contains(ks[i]));
            assert(m.dom().contains(ks[i]));
            assert(r@[i]@ == w(items@[i].value@));
        }
        assert(vrf_vnis(views(r@)) =~= ks);
        assert forall|k: u32| #[trigger] m.dom().contains(k) implies ks.contains(k) by {
            assert(f.ip_vrfs@.dom().contains(k));
        }
        assert forall|i: int, j: int| 0 <= i < j < ks.len() implies
            #[trigger] ks[i] < #[trigger] ks[j] by {
            assert(NumberKey::before(items@[i].key@, items@[j].key@));
        }
    }
    r
}

fn lbs_to_file(f: &Fabric) -> (r: Vec<LoadBalancerFile>)
    requires
        f.inv(),
        f@.tables_match(),
    ensures
        texts_increasing(lb_ids(views(r@))),
        lists(views(r@), lb_ids(views(r@)), f@.load_balancers, |lb: LoadBalancerView| lb_file(
            f@.topo.ports,
            lb,
        )),
{
    let items = f.load_balancers.items();
    let ghost ks = keys(items@);
    let ghost m = f@.load_balancers;
    let ghost w = |lb: LoadBalancerView| lb_file(f@.topo.ports, lb);
    let mut r: Vec<LoadBalancerFile> = Vec::new();
    for i in 0..items.len()
        invariant
            w == (|lb: LoadBalancerView| lb_file(f@.topo.ports, lb)),
            r@.len() == i,
            forall|j: int| 0 <= j < i ==> (#[trigger] r@[j])@ == w(items@[j].value@),
    {
        r.push(lb_to_file(f.topo.ports(), &items[i].value));
    }
    proof {
        keyed_domain(ks, values(items@));
        assert forall|i: int| 0 <= i < ks.len() implies m.dom().contains(#[trigger] ks[i]) && views(
            r@,
        )[i] == w(m[ks[i]]) && lb_ids(views(r@))[i] == ks[i] by {
            keyed_at(ks, values(items@), i);
            assert(f.load_balancers@.dom().contains(ks[i]));
            assert(m.dom().contains(ks[i]));
            assert(r@[i]@ == w(items@[i].value@));
        }
        assert(lb_ids(views(r@)) =~= ks);
        assert forall|k: Seq<char>| #[trigger] m.dom().contains(k) implies ks.contains(k) by {
            assert(f.load_balancers@.dom().contains(k));
        }
        assert forall|i: int, j: int| 0 <= i < j < ks.len() implies crate::sorted::text_before(
            #[trigger] ks[i],
            #[trigger] ks[j],
        ) by {
            assert(TextKey::before(items@[i].key@, items@[j].key@));
        }
    }
    r
}

fn ports_to_file(topo: &Topology) -> (r: Vec<PortFile>)
    requires
        topo.inv(),
        topo@.wf(),
    ensures
        views(r@) == topo@.ports.map_values(|p| port_file(topo@, p)),
{
    let ports = topo.ports();
    let mut r: Vec<PortFile> = Vec::new();
    for i in 0..ports.len()
        invariant
            topo.inv(),
            topo@.wf(),
            views(ports@) == topo@.ports,
            r@.len() == i,
            forall|j: int| 0 <= j < i ==> (#[trigger] r@[j])@ == port_file(topo@, topo@.ports[j]),
    {
        assert(topo@.ports[i as int] == ports@[i as int]@);
        r.push(port_to_file(topo, &ports[i]));
    }
    assert(views(r@) =~= topo@.ports.map_values(|p| port_file(topo@, p)));
    r
}

/// Writes a fabric as a file. Ports keep their addresses, so that loading the file gives the same
/// addresses again.
pub fn to_file(f: &Fabric) -> (r: TopologyFile)
    requires
        f.inv(),
        f@.tables_match(),
    ensures
        written(r@, f@),
{
    TopologyFile {
        hosts: hosts_to_file(f),
        networks: networks_to_file(f),
        subnets: subnets_to_file(f),
        security_groups: groups_to_file(f),
        ip_vrfs: vrfs_to_file(f),
        load_balancers: lbs_to_file(f),
        ports: ports_to_file(&f.topo),
    }
}

} // verus!
