//! Loading a file that a fabric was written to gives the fabric.

use vstd::prelude::*;

use crate::addr::{
    cidr_v4_of, cidr_v6_of, ip_of, ipv4_of, ipv4_text, ipv4_text_round_trip, ipv6_of, ipv6_text,
    mac_from, mac_text_round_trip,
};
use crate::addr_laws::{
    cidr4_text_round_trip, cidr6_text_round_trip, ip_text_round_trip, ipv6_text_chars,
    ipv6_text_round_trip, slash_split, unsigned_round_trip,
};
use crate::config::EncapName;
use crate::fabric_laws::{
    create_port_keeps_wf, port_id_injective, port_ids_differ, port_is_created_where_it_can_be,
};
use crate::lists::{
    distinct, first_index, first_index_is, first_index_properties, flat, try_steps,
    try_steps_failed, try_steps_next,
};
use crate::orchestrator::{
    at_address, at_tap, policy_id_of, with_id, HostView, PortView, TopologyView,
};
use crate::srv6::Locator;
use crate::store::{subnet_cidr_of, unused_on, SubnetCidr, SubnetView};
use crate::text::{
    debug_text, decimal, find_char, find_char_properties, find_char_unique, unsigned_value,
    unsigned_value_nonnegative,
};
use crate::topology::{
    built, group_step, host_step, lb_step, load_balancer_of, locator_of, member_step,
    missing_network, names_port, network_step, port_ip, port_mac, port_step, subnet_of_file,
    subnet_step, vrf_step, FabricView, HostFileView, IpVrfFileView, LbMemberFileView, LbMemberView,
    LoadBalancerFileView, LoadBalancerView, NetworkFileView, PortFileView, SecurityGroupFileView,
    SubnetFileView, TopologyFileView,
};
use crate::topology_save::{
    group_file, group_name, group_names, host_file, host_ids, lb_file, lb_ids, lists, member_file,
    network_file, network_vnis, port_file, subnet_cidr_text, subnet_file, subnet_ids, vrf_file,
    vrf_vnis, written,
};

verus! {

/// The values of a map, in the order of `ks`.
spec fn picked<K, V>(ks: Seq<K>, m: Map<K, V>) -> Seq<V> {
    Seq::new(ks.len(), |i: int| m[ks[i]])
}

/// The part of a map under the first `i` keys.
spec fn part<K, V>(ks: Seq<K>, m: Map<K, V>, i: int) -> Map<K, V> {
    Map::new(|k: K| m.dom().contains(k) && ks.take(i).contains(k), |k: K| m[k])
}

proof fn part_start<K, V>(ks: Seq<K>, m: Map<K, V>)
    ensures
        part(ks, m, 0) == Map::<K, V>::empty(),
{
    assert(part(ks, m, 0) =~= Map::<K, V>::empty());
}

proof fn part_step<K, V>(ks: Seq<K>, m: Map<K, V>, i: int)
    requires
        0 <= i < ks.len(),
        distinct(ks),
    ensures
        !part(ks, m, i).dom().contains(ks[i]),
        m.dom().contains(ks[i]) ==> part(ks, m, i + 1) == part(ks, m, i).insert(ks[i], m[ks[i]]),
        !m.dom().contains(ks[i]) ==> part(ks, m, i + 1) == part(ks, m, i).remove(ks[i]),
{
    let a = ks.take(i);
    let b = ks.take(i + 1);
    assert(!a.contains(ks[i])) by {
        if a.contains(ks[i]) {
            let j = choose|j: int| 0 <= j < a.len() && a[j] == ks[i];
            assert(ks[j] == ks[i]);
        }
    }
    assert forall|k: K| b.contains(k) <==> a.contains(k) || k == ks[i] by {
        assert(b[i] == ks[i]);
        if a.contains(k) {
            let j = choose|j: int| 0 <= j < a.len() && a[j] == k;
            assert(b[j] == k);
        }
        if b.contains(k) {
            let j = choose|j: int| 0 <= j < b.len() && b[j] == k;
            if j < i {
                assert(a[j] == k);
            }
        }
    }
    if m.dom().contains(ks[i]) {
        assert(part(ks, m, i + 1) =~= part(ks, m, i).insert(ks[i], m[ks[i]]));
    } else {
        assert(part(ks, m, i + 1) =~= part(ks, m, i).remove(ks[i]));
    }
}

proof fn part_end<K, V>(ks: Seq<K>, m: Map<K, V>)
    requires
        forall|k: K| #[trigger] m.dom().contains(k) ==> ks.contains(k),
    ensures
        part(ks, m, ks.len() as int) == m,
{
    assert(ks.take(ks.len() as int) =~= ks);
    assert(part(ks, m, ks.len() as int) =~= m);
}

// ---------------------------------------------------------------------------
// Hosts and networks
// ---------------------------------------------------------------------------

/// A fabric with the first hosts.
spec fn with_hosts(f: FabricView, ks: Seq<Seq<char>>, i: int) -> FabricView {
    FabricView {
        topo: TopologyView { hosts: part(ks, f.topo.hosts, i), ..TopologyView::empty() },
        locators: part(ks, f.locators, i),
        ..FabricView::empty()
    }
}

proof fn locator_round_trip(f: FabricView, h: HostView)
    ensures
        locator_of(host_file(f, h)) == Ok::<Option<Locator>, Seq<char>>(
            if f.locators.dom().contains(h.id) {
                Some(f.locators[h.id])
            } else {
                None
            },
        ),
{
    if f.locators.dom().contains(h.id) {
        let l = f.locators[h.id];
        ipv6_text_chars(l.addr);
        ipv6_text_round_trip(l.addr);
        slash_split(ipv6_text(l.addr), l.len as nat);
        unsigned_round_trip(l.len as nat, 255);
    }
}

proof fn hosts_load(tf: TopologyFileView, f: FabricView, i: int)
    requires
        f.wf(),
        written(tf, f),
        0 <= i <= tf.hosts.len(),
    ensures
        try_steps(FabricView::empty(), tf.hosts.take(i), |f, x| host_step(f, x)) == Ok::<
            FabricView,
            Seq<char>,
        >(with_hosts(f, host_ids(tf.hosts), i)),
    decreases i,
{
    let ks = host_ids(tf.hosts);
    if i == 0 {
        part_start(ks, f.topo.hosts);
        part_start(ks, f.locators);
        assert(tf.hosts.take(0) =~= Seq::empty());
    } else {
        hosts_load(tf, f, i - 1);
        assert(tf.hosts.take(i).drop_last() =~= tf.hosts.take(i - 1));
        let x = tf.hosts[i - 1];
        assert(f.topo.hosts.dom().contains(ks[i - 1]));
        let h = f.topo.hosts[ks[i - 1]];
        assert(x == host_file(f, h));
        ipv4_text_round_trip(h.vtep_ip);
        mac_text_round_trip(h.underlay_mac);
        locator_round_trip(f, h);
        part_step(ks, f.topo.hosts, i - 1);
        part_step(ks, f.locators, i - 1);
        reveal(host_step);
        assert(f.locators.dom().contains(h.id) <==> h.encap == EncapName::Srv6);
        let g = with_hosts(f, ks, i - 1);
        assert(host_step(g, x) == Ok::<FabricView, Seq<char>>(with_hosts(f, ks, i)));
    }
}

/// A fabric with all hosts, and the first networks.
spec fn with_networks(f: FabricView, ks: Seq<u32>, i: int) -> FabricView {
    FabricView {
        topo: TopologyView {
            hosts: f.topo.hosts,
            networks: part(ks, f.topo.networks, i),
            ..TopologyView::empty()
        },
        locators: f.locators,
        ..FabricView::empty()
    }
}

proof fn networks_load(tf: TopologyFileView, f: FabricView, i: int)
    requires
        f.wf(),
        f.addressed(),
        written(tf, f),
        0 <= i <= tf.networks.len(),
    ensures
        try_steps(
            with_networks(f, network_vnis(tf.networks), 0),
            tf.networks.take(i),
            |f, x| network_step(f, x),
        ) == Ok::<FabricView, Seq<char>>(with_networks(f, network_vnis(tf.networks), i)),
    decreases i,
{
    let ks = network_vnis(tf.networks);
    if i == 0 {
        assert(tf.networks.take(0) =~= Seq::empty());
    } else {
        networks_load(tf, f, i - 1);
        assert(tf.networks.take(i).drop_last() =~= tf.networks.take(i - 1));
        let x = tf.networks[i - 1];
        assert(f.topo.networks.dom().contains(ks[i - 1]));
        let n = f.topo.networks[ks[i - 1]];
        assert(x == network_file(n));
        cidr4_text_round_trip(n.subnet);
        part_step(ks, f.topo.networks, i - 1);
        reveal(network_step);
        let g = with_networks(f, ks, i - 1);
        assert(network_step(g, x) == Ok::<FabricView, Seq<char>>(with_networks(f, ks, i)));
    }
}

// ---------------------------------------------------------------------------
// Subnets, security groups and routing contexts
// ---------------------------------------------------------------------------

/// A fabric with all hosts and networks, and the first subnets.
spec fn with_subnets(f: FabricView, ks: Seq<Seq<char>>, i: int) -> FabricView {
    FabricView {
        topo: TopologyView {
            hosts: f.topo.hosts,
            networks: f.topo.networks,
            ..TopologyView::empty()
        },
        locators: f.locators,
        subnets: part(ks, f.subnets, i),
        ..FabricView::empty()
    }
}

proof fn subnet_round_trip(s: SubnetView)
    requires
        match s.cidr {
            SubnetCidr::V4(c) => c.canonical(),
            SubnetCidr::V6(c) => c.canonical(),
        },
    ensures
        subnet_of_file(subnet_file(s)) == Ok::<SubnetView, Seq<char>>(s),
{
    let text = subnet_cidr_text(s.cidr);
    match s.cidr {
        SubnetCidr::V4(c) => {
            cidr4_text_round_trip(c);
            find_char_unique(text, ':', text.len() as int);
        },
        SubnetCidr::V6(c) => {
            cidr6_text_round_trip(c);
            find_char_properties(text, ':');
            let k = choose|k: int| 0 <= k < text.len() && #[trigger] text[k] == ':';
            assert(text[k] == ':');
        },
    }
    assert(subnet_cidr_of(text) == Some(s.cidr));
    if s.gateway is Some {
        ip_text_round_trip(s.gateway->0);
    }
    if s.pool is Some {
        ip_text_round_trip(s.pool->0.start);
        ip_text_round_trip(s.pool->0.end);
    }
}

proof fn subnet_load(g: FabricView, s: SubnetView)
    requires
        match s.cidr {
            SubnetCidr::V4(c) => c.canonical(),
            SubnetCidr::V6(c) => c.canonical(),
        },
        g.topo.networks.dom().contains(s.vni),
        !g.subnets.dom().contains(s.id),
    ensures
        subnet_step(g, subnet_file(s)) == Ok::<FabricView, Seq<char>>(
            FabricView { subnets: g.subnets.insert(s.id, s), ..g },
        ),
{
    subnet_round_trip(s);
    reveal(subnet_step);
}

proof fn subnets_load(tf: TopologyFileView, f: FabricView, i: int)
    requires
        f.wf(),
        f.addressed(),
        written(tf, f),
        0 <= i <= tf.subnets.len(),
    ensures
        try_steps(
            with_subnets(f, subnet_ids(tf.subnets), 0),
            tf.subnets.take(i),
            |f, x| subnet_step(f, x),
        ) == Ok::<FabricView, Seq<char>>(with_subnets(f, subnet_ids(tf.subnets), i)),
    decreases i,
{
    let ks = subnet_ids(tf.subnets);
    if i == 0 {
        assert(tf.subnets.take(0) =~= Seq::empty());
    } else {
        subnets_load(tf, f, i - 1);
        assert(tf.subnets.take(i).drop_last() =~= tf.subnets.take(i - 1));
        let x = tf.subnets[i - 1];
        assert(f.subnets.dom().contains(ks[i - 1]));
        let s = f.subnets[ks[i - 1]];
        assert(x == subnet_file(s));
        part_step(ks, f.subnets, i - 1);
        let g = with_subnets(f, ks, i - 1);
        subnet_load(g, s);
        assert(subnet_step(g, x) == Ok::<FabricView, Seq<char>>(with_subnets(f, ks, i)));
    }
}

/// A fabric with all hosts, networks and subnets, and the first security groups.
spec fn with_groups(f: FabricView, ks: Seq<Seq<char>>, i: int) -> FabricView {
    FabricView {
        topo: TopologyView {
            hosts: f.topo.hosts,
            networks: f.topo.networks,
            security_groups: part(ks, f.topo.security_groups, i),
            ..TopologyView::empty()
        },
        locators: f.locators,
        subnets: f.subnets,
        ..FabricView::empty()
    }
}

proof fn groups_load(tf: TopologyFileView, f: FabricView, i: int)
    requires
        f.wf(),
        written(tf, f),
        0 <= i <= tf.security_groups.len(),
    ensures
        try_steps(
            with_groups(f, group_names(tf.security_groups), 0),
            tf.security_groups.take(i),
            |f, x| group_step(f, x),
        ) == Ok::<FabricView, Seq<char>>(with_groups(f, group_names(tf.security_groups), i)),
    decreases i,
{
    let ks = group_names(tf.security_groups);
    if i == 0 {
        assert(tf.security_groups.take(0) =~= Seq::empty());
    } else {
        groups_load(tf, f, i - 1);
        assert(tf.security_groups.take(i).drop_last() =~= tf.security_groups.take(i - 1));
        let x = tf.security_groups[i - 1];
        let name = ks[i - 1];
        assert(f.topo.security_groups.dom().contains(name));
        let s = f.topo.security_groups[name];
        assert(x == group_file(s));
        part_step(ks, f.topo.security_groups, i - 1);
        reveal(group_step);
        let g = with_groups(f, ks, i - 1);
        let pid = policy_id_of(name);
        assert(!g.topo.has_group_of(pid)) by {
            if g.topo.has_group_of(pid) {
                let other = choose|n: Seq<char>| g.topo.is_group_of(pid, n);
                assert(f.topo.security_groups.dom().contains(other));
                assert(other == name);
            }
        }
        assert(group_step(g, x) == Ok::<FabricView, Seq<char>>(with_groups(f, ks, i)));
    }
}

/// A fabric with all hosts, networks, subnets and security groups, and the first routing contexts.
spec fn with_vrfs(f: FabricView, ks: Seq<u32>, i: int) -> FabricView {
    FabricView {
        topo: TopologyView { ports: Seq::empty(), ..f.topo },
        ip_vrfs: part(ks, f.ip_vrfs, i),
        load_balancers: Map::empty(),
        ..f
    }
}

proof fn vrfs_load(tf: TopologyFileView, f: FabricView, i: int)
    requires
        f.wf(),
        written(tf, f),
        0 <= i <= tf.ip_vrfs.len(),
    ensures
        try_steps(
            with_vrfs(f, vrf_vnis(tf.ip_vrfs), 0),
            tf.ip_vrfs.take(i),
            |f, x| vrf_step(f, x),
        ) == Ok::<FabricView, Seq<char>>(with_vrfs(f, vrf_vnis(tf.ip_vrfs), i)),
    decreases i,
{
    let ks = vrf_vnis(tf.ip_vrfs);
    if i == 0 {
        assert(tf.ip_vrfs.take(0) =~= Seq::empty());
    } else {
        vrfs_load(tf, f, i - 1);
        assert(tf.ip_vrfs.take(i).drop_last() =~= tf.ip_vrfs.take(i - 1));
        let x = tf.ip_vrfs[i - 1];
        assert(f.ip_vrfs.dom().contains(ks[i - 1]));
        let v = f.ip_vrfs[ks[i - 1]];
        assert(x == vrf_file(v));
        mac_text_round_trip(v.gateway_mac);
        part_step(ks, f.ip_vrfs, i - 1);
        reveal(vrf_step);
        let g = with_vrfs(f, ks, i - 1);
        assert(f.hosts_all(v.networks));
        first_index_is(v.networks, missing_network(g.topo), v.networks.len() as int);
        assert(vrf_step(g, x) == Ok::<FabricView, Seq<char>>(with_vrfs(f, ks, i)));
    }
}

// ---------------------------------------------------------------------------
// Ports
// ---------------------------------------------------------------------------

/// A fabric with all but the load balancers, and the first ports.
spec fn with_ports(f: FabricView, i: int) -> FabricView {
    FabricView {
        topo: TopologyView { ports: f.topo.ports.take(i), ..f.topo },
        load_balancers: Map::empty(),
        ..f
    }
}

proof fn port_load(f: FabricView, i: int)
    requires
        f.wf(),
        f.addressed(),
        0 <= i < f.topo.ports.len(),
    ensures
        port_step(with_ports(f, i), port_file(f.topo, f.topo.ports[i])) == Ok::<
            FabricView,
            Seq<char>,
        >(with_ports(f, i + 1)),
{
    let g = with_ports(f, i);
    let t = g.topo;
    let p = f.topo.ports[i];
    let x = port_file(f.topo, p);
    reveal(port_step);
    ipv4_text_round_trip(p.ip);
    mac_text_round_trip(p.mac);
    first_index_is(t.ports, at_tap(p.host, p.tap), i);
    first_index_is(t.ports, at_address(p.vni, p.ip.bits as int), i);
    assert(t.ports.push(p) =~= f.topo.ports.take(i + 1));
    let group = group_name(f.topo, p.policy);
    if group is Some {
        let pid = p.policy->0;
        let name = group->0;
        assert(f.topo.is_group_of(pid, name));
        let q = PortView { policy: None, ..p };
        let ports = t.ports.push(q);
        assert forall|j: int| 0 <= j < i implies !with_id(p.id)(#[trigger] ports[j]) by {
            assert(ports[j] == f.topo.ports[j]);
            if ports[j].id == p.id {
                port_id_injective(ports[j].vni, ports[j].ip, p.vni, p.ip);
            }
        }
        first_index_is(ports, with_id(p.id), i);
        assert(ports.update(i, p) =~= f.topo.ports.take(i + 1));
    }
}

proof fn ports_load(tf: TopologyFileView, f: FabricView, i: int)
    requires
        f.wf(),
        f.addressed(),
        written(tf, f),
        0 <= i <= tf.ports.len(),
    ensures
        try_steps(with_ports(f, 0), tf.ports.take(i), |f, x| port_step(f, x)) == Ok::<
            FabricView,
            Seq<char>,
        >(with_ports(f, i)),
    decreases i,
{
    if i == 0 {
        assert(tf.ports.take(0) =~= Seq::empty());
    } else {
        ports_load(tf, f, i - 1);
        assert(tf.ports.take(i).drop_last() =~= tf.ports.take(i - 1));
        assert(tf.ports[i - 1] == port_file(f.topo, f.topo.ports[i - 1]));
        port_load(f, i - 1);
    }
}

// ---------------------------------------------------------------------------
// Load balancers
// ---------------------------------------------------------------------------

proof fn members_load(f: FabricView, ms: Seq<LbMemberView>)
    requires
        f.wf(),
        f.resolves_all(ms),
    ensures
        try_steps(
            Seq::empty(),
            flat(ms, member_file(f.topo.ports)),
            member_step(f.topo.ports),
        ) == Ok::<Seq<LbMemberView>, Seq<char>>(ms),
    decreases ms.len(),
{
    let ports = f.topo.ports;
    let w = member_file(ports);
    if ms.len() == 0 {
        assert(ms =~= Seq::empty());
    } else {
        let front = ms.drop_last();
        let m = ms.last();
        assert(f.resolves_all(front)) by {
            assert forall|i: int| 0 <= i < front.len() implies names_port(
                ports,
                (#[trigger] front[i]).port_id,
            ) by {
                assert(front[i] == ms[i]);
            }
        }
        members_load(f, front);
        assert(names_port(ports, ms[ms.len() - 1].port_id));
        let k = choose|k: int| 0 <= k < ports.len() && (#[trigger] ports[k]).id == m.port_id;
        first_index_properties(ports, with_id(m.port_id));
        let i = first_index(ports, with_id(m.port_id));
        assert(i < ports.len());
        let p = ports[i];
        assert(p.id == m.port_id);
        assert forall|j: int| 0 <= j < i implies !at_tap(p.host, p.tap)(#[trigger] ports[j]) by {}
        first_index_is(ports, at_tap(p.host, p.tap), i);
        let x = LbMemberFileView { host: p.host, tap: p.tap, port: m.port };
        assert(w(m) == seq![x]);
        let s = flat(ms, w);
        assert(s == flat(front, w) + seq![x]);
        assert(s.drop_last() =~= flat(front, w));
        assert(s.last() == x);
        assert(front.push(m) =~= ms);
    }
}

/// A fabric with the first load balancers.
spec fn with_balancers(f: FabricView, ks: Seq<Seq<char>>, i: int) -> FabricView {
    FabricView { load_balancers: part(ks, f.load_balancers, i), ..f }
}

proof fn balancers_load(tf: TopologyFileView, f: FabricView, i: int)
    requires
        f.wf(),
        written(tf, f),
        0 <= i <= tf.load_balancers.len(),
    ensures
        try_steps(
            with_balancers(f, lb_ids(tf.load_balancers), 0),
            tf.load_balancers.take(i),
            |f, x| lb_step(f, x),
        ) == Ok::<FabricView, Seq<char>>(with_balancers(f, lb_ids(tf.load_balancers), i)),
    decreases i,
{
    let ks = lb_ids(tf.load_balancers);
    if i == 0 {
        assert(tf.load_balancers.take(0) =~= Seq::empty());
    } else {
        balancers_load(tf, f, i - 1);
        assert(tf.load_balancers.take(i).drop_last() =~= tf.load_balancers.take(i - 1));
        let x = tf.load_balancers[i - 1];
        assert(f.load_balancers.dom().contains(ks[i - 1]));
        let lb = f.load_balancers[ks[i - 1]];
        assert(x == lb_file(f.topo.ports, lb));
        ipv4_text_round_trip(lb.vip);
        members_load(f, lb.members);
        part_step(ks, f.load_balancers, i - 1);
        reveal(lb_step);
        let g = with_balancers(f, ks, i - 1);
        assert(lb_step(g, x) == Ok::<FabricView, Seq<char>>(with_balancers(f, ks, i)));
    }
}

/// Loading a file that a fabric was written to gives the fabric: the same hosts, networks, subnets,
/// security groups, routing contexts and load balancers, and the same ports, each with its id, its
/// addresses and its policy.
pub proof fn reload_gives_the_fabric(tf: TopologyFileView, f: FabricView)
    requires
        f.wf(),
        f.addressed(),
        written(tf, f),
    ensures
        built(tf) == Ok::<FabricView, Seq<char>>(f),
{
    assert(tf.hosts.take(tf.hosts.len() as int) =~= tf.hosts);
    hosts_load(tf, f, tf.hosts.len() as int);
    part_end(host_ids(tf.hosts), f.topo.hosts);
    part_end(host_ids(tf.hosts), f.locators);
    part_start(network_vnis(tf.networks), f.topo.networks);
    assert(with_hosts(f, host_ids(tf.hosts), tf.hosts.len() as int) == with_networks(
        f,
        network_vnis(tf.networks),
        0,
    ));
    assert(tf.networks.take(tf.networks.len() as int) =~= tf.networks);
    networks_load(tf, f, tf.networks.len() as int);
    part_end(network_vnis(tf.networks), f.topo.networks);
    part_start(subnet_ids(tf.subnets), f.subnets);
    assert(with_networks(f, network_vnis(tf.networks), tf.networks.len() as int) == with_subnets(
        f,
        subnet_ids(tf.subnets),
        0,
    ));
    assert(tf.subnets.take(tf.subnets.len() as int) =~= tf.subnets);
    subnets_load(tf, f, tf.subnets.len() as int);
    part_end(subnet_ids(tf.subnets), f.subnets);
    part_start(group_names(tf.security_groups), f.topo.security_groups);
    assert(with_subnets(f, subnet_ids(tf.subnets), tf.subnets.len() as int) == with_groups(
        f,
        group_names(tf.security_groups),
        0,
    ));
    assert(tf.security_groups.take(tf.security_groups.len() as int) =~= tf.security_groups);
    groups_load(tf, f, tf.security_groups.len() as int);
    part_end(group_names(tf.security_groups), f.topo.security_groups);
    part_start(vrf_vnis(tf.ip_vrfs), f.ip_vrfs);
    assert(with_groups(f, group_names(tf.security_groups), tf.security_groups.len() as int)
        == with_vrfs(f, vrf_vnis(tf.ip_vrfs), 0));
    assert(tf.ip_vrfs.take(tf.ip_vrfs.len() as int) =~= tf.ip_vrfs);
    vrfs_load(tf, f, tf.ip_vrfs.len() as int);
    part_end(vrf_vnis(tf.ip_vrfs), f.ip_vrfs);
    assert(f.topo.ports.take(0) =~= Seq::empty());
    assert(with_vrfs(f, vrf_vnis(tf.ip_vrfs), tf.ip_vrfs.len() as int) == with_ports(f, 0));
    assert(tf.ports.take(tf.ports.len() as int) =~= tf.ports);
    ports_load(tf, f, tf.ports.len() as int);
    assert(f.topo.ports.take(f.topo.ports.len() as int) =~= f.topo.ports);
    part_start(lb_ids(tf.load_balancers), f.load_balancers);
    assert(with_ports(f, tf.ports.len() as int) == with_balancers(
        f,
        lb_ids(tf.load_balancers),
        0,
    ));
    assert(tf.load_balancers.take(tf.load_balancers.len() as int) =~= tf.load_balancers);
    balancers_load(tf, f, tf.load_balancers.len() as int);
    part_end(lb_ids(tf.load_balancers), f.load_balancers);
    assert(with_balancers(f, lb_ids(tf.load_balancers), tf.load_balancers.len() as int) == f);
}

/// Keeps a member that names a port.
pub open spec fn if_named(ports: Seq<PortView>) -> spec_fn(LbMemberView) -> Seq<LbMemberView> {
    |m: LbMemberView|
        if names_port(ports, m.port_id) {
            seq![m]
        } else {
            Seq::empty()
        }
}

impl FabricView {
    /// The fabric whose load balancers have only the members that name a port.
    pub open spec fn pruned(self) -> FabricView {
        FabricView {
            load_balancers: self.load_balancers.map_values(
                |lb: LoadBalancerView|
                    LoadBalancerView {
                        members: flat(lb.members, if_named(self.topo.ports)),
                        ..lb
                    },
            ),
            ..self
        }
    }
}

/// The members that name a port do so, and are written as all the members are.
pub proof fn named_members(ports: Seq<PortView>, ms: Seq<LbMemberView>)
    ensures
        forall|i: int|
            0 <= i < flat(ms, if_named(ports)).len() ==> names_port(
                ports,
                (#[trigger] flat(ms, if_named(ports))[i]).port_id,
            ),
        flat(flat(ms, if_named(ports)), member_file(ports)) == flat(ms, member_file(ports)),
    decreases ms.len(),
{
    let w = if_named(ports);
    if ms.len() > 0 {
        let m = ms.last();
        let front = flat(ms.drop_last(), w);
        let all = flat(ms, w);
        named_members(ports, ms.drop_last());
        first_index_properties(ports, with_id(m.port_id));
        let k = first_index(ports, with_id(m.port_id));
        if k < ports.len() {
            assert(ports[k].id == m.port_id);
            assert(all == front.push(m));
            assert(all.drop_last() =~= front);
        } else {
            assert(!names_port(ports, m.port_id)) by {
                if names_port(ports, m.port_id) {
                    let j = choose|j: int| 0 <= j < ports.len() && (#[trigger] ports[j]).id == m.port_id;
                    assert(!with_id(m.port_id)(ports[j]));
                }
            }
            assert(all =~= front);
            assert(flat(ms, member_file(ports)) =~= flat(ms.drop_last(), member_file(ports)));
        }
    }
}

/// A member of a load balancer whose port is gone is dropped: loading a file that a fabric was written
/// to gives the fabric without such members.
pub proof fn reload_drops_vanished_members(tf: TopologyFileView, f: FabricView)
    requires
        f.pruned().wf(),
        f.addressed(),
        written(tf, f),
    ensures
        built(tf) == Ok::<FabricView, Seq<char>>(f.pruned()),
{
    let g = f.pruned();
    let ports = f.topo.ports;
    assert(tf.load_balancers.len() == lb_ids(tf.load_balancers).len());
    assert(lists(
        tf.load_balancers,
        lb_ids(tf.load_balancers),
        g.load_balancers,
        |lb| lb_file(ports, lb),
    )) by {
        assert(g.load_balancers.dom() =~= f.load_balancers.dom());
        assert forall|k: Seq<char>| f.load_balancers.dom().contains(k) implies lb_file(
            ports,
            #[trigger] g.load_balancers[k],
        ) == lb_file(ports, f.load_balancers[k]) by {
            named_members(ports, f.load_balancers[k].members);
        }
    }
    assert(tf.hosts.len() == host_ids(tf.hosts).len());
    assert(lists(tf.hosts, host_ids(tf.hosts), g.topo.hosts, |h| host_file(g, h)));
    assert(written(tf, g));
    reload_gives_the_fabric(tf, g);
}

// ---------------------------------------------------------------------------
// What each part of a file adds to the fabric
// ---------------------------------------------------------------------------

/// The text writes the locator: an IPv6 address, a slash, and the length in bits.
pub open spec fn writes_locator(text: Seq<char>, l: Locator) -> bool {
    exists|i: int|
        {
            &&& 0 <= i < text.len()
            &&& #[trigger] text[i] == '/'
            &&& forall|j: int| 0 <= j < i ==> text[j] != '/'
            &&& ipv6_of(text.take(i)) == Some(l.addr)
            &&& unsigned_value(text.skip(i + 1), 10, 255) == Some(l.len as int)
        }
}

/// A host of the file is accepted exactly where it writes an endpoint and a MAC address, and it has a
/// locator that can be read if and only if it uses SRv6. The fabric then has the host and its locator
/// as the file writes them, and nothing else changes.
pub proof fn host_is_as_written(f: FabricView, h: HostFileView)
    ensures
        host_step(f, h) is Ok <==> ipv4_of(h.vtep) is Some && mac_from(h.underlay_mac) is Some
            && match h.srv6_locator {
            Some(text) => h.encap == EncapName::Srv6 && exists|l: Locator| #[trigger]
                writes_locator(text, l),
            None => h.encap != EncapName::Srv6,
        },
        host_step(f, h) matches Ok(g) ==> {
            let x = g.topo.hosts[h.id];
            &&& g.topo.hosts == f.topo.hosts.insert(h.id, x)
            &&& x.id == h.id
            &&& ipv4_of(h.vtep) == Some(x.vtep_ip)
            &&& x.underlay_iface == h.underlay_iface
            &&& mac_from(h.underlay_mac) == Some(x.underlay_mac)
            &&& x.encap == h.encap
            &&& x.udp_port == h.udp_port
            &&& x.underlay_mtu == h.underlay_mtu
            &&& h.srv6_locator matches Some(text) ==> writes_locator(text, g.locators[h.id])
                && g.locators == f.locators.insert(h.id, g.locators[h.id])
            &&& h.srv6_locator is None ==> g.locators == f.locators.remove(h.id)
            &&& g.topo.networks == f.topo.networks && g.topo.ports == f.topo.ports
            &&& g.topo.security_groups == f.topo.security_groups && g.subnets == f.subnets
            &&& g.ip_vrfs == f.ip_vrfs && g.load_balancers == f.load_balancers
        },
{
    reveal(host_step);
    if let Some(text) = h.srv6_locator {
        find_char_properties(text, '/');
        let i = find_char(text, '/') as int;
        if let Ok(Some(l)) = locator_of(h) {
            unsigned_value_nonnegative(text.skip(i + 1), 10, 255);
            assert(text[i] == '/');
            assert(writes_locator(text, l));
        }
        assert forall|l: Locator| #[trigger] writes_locator(text, l) implies locator_of(h) == Ok::<
            Option<Locator>,
            Seq<char>,
        >(Some(l)) by {
            let k = choose|k: int|
                {
                    &&& 0 <= k < text.len()
                    &&& #[trigger] text[k] == '/'
                    &&& forall|j: int| 0 <= j < k ==> text[j] != '/'
                    &&& ipv6_of(text.take(k)) == Some(l.addr)
                    &&& unsigned_value(text.skip(k + 1), 10, 255) == Some(l.len as int)
                };
            find_char_unique(text, '/', k);
        }
    }
}

/// A network of the file is accepted exactly where it writes a prefix, its VNI is neither zero nor
/// reserved, and no network has it. The fabric then has the network as the file writes it, and nothing
/// else changes.
pub proof fn network_is_as_written(f: FabricView, n: NetworkFileView)
    ensures
        network_step(f, n) is Ok <==> cidr_v4_of(n.subnet) is Some && 0 < n.vni < 0xFF_0000
            && !f.topo.networks.dom().contains(n.vni),
        network_step(f, n) matches Ok(g) ==> {
            let x = g.topo.networks[n.vni];
            &&& g.topo.networks == f.topo.networks.insert(n.vni, x)
            &&& x.vni == n.vni
            &&& x.name == n.name
            &&& cidr_v4_of(n.subnet) == Some(x.subnet)
            &&& x.default_action == n.default_action
            &&& x.drop_icmp == n.drop_icmp
            &&& g.topo.hosts == f.topo.hosts && g.topo.ports == f.topo.ports
            &&& g.topo.security_groups == f.topo.security_groups && g.subnets == f.subnets
            &&& g.ip_vrfs == f.ip_vrfs && g.load_balancers == f.load_balancers
            &&& g.locators == f.locators
        },
{
    reveal(network_step);
}

/// A subnet of the file is accepted exactly where it writes a prefix, its gateway and the ends of its
/// pool are addresses where they are given, the pool has both ends or none, its network exists, and no
/// subnet has the id. The fabric then has the subnet as the file writes it, and nothing else changes.
pub proof fn subnet_is_as_written(f: FabricView, s: SubnetFileView)
    ensures
        subnet_step(f, s) is Ok <==> {
            &&& s.cidr.contains(':') ==> cidr_v6_of(s.cidr) is Some
            &&& !s.cidr.contains(':') ==> cidr_v4_of(s.cidr) is Some
            &&& s.gateway matches Some(g) ==> ip_of(g) is Some
            &&& s.pool_start is Some <==> s.pool_end is Some
            &&& s.pool_start matches Some(a) ==> ip_of(a) is Some
            &&& s.pool_end matches Some(a) ==> ip_of(a) is Some
            &&& f.topo.networks.dom().contains(s.vni)
            &&& !f.subnets.dom().contains(s.id)
        },
        subnet_step(f, s) matches Ok(g) ==> {
            let n = g.subnets[s.id];
            &&& g.subnets == f.subnets.insert(s.id, n)
            &&& n.id == s.id
            &&& n.vni == s.vni
            &&& s.cidr.contains(':') ==> n.cidr == SubnetCidr::V6(cidr_v6_of(s.cidr)->0)
            &&& !s.cidr.contains(':') ==> n.cidr == SubnetCidr::V4(cidr_v4_of(s.cidr)->0)
            &&& s.gateway matches Some(a) ==> n.gateway == ip_of(a)
            &&& s.gateway is None ==> n.gateway is None
            &&& s.pool_start is None ==> n.pool is None
            &&& s.pool_start matches Some(a) ==> (n.pool matches Some(p) && Some(p.start) == ip_of(a)
                && Some(p.end) == ip_of(s.pool_end->0))
            &&& n.enable_dhcp == s.enable_dhcp
            &&& g.topo == f.topo && g.locators == f.locators
            &&& g.ip_vrfs == f.ip_vrfs && g.load_balancers == f.load_balancers
        },
{
    reveal(subnet_step);
    find_char_properties(s.cidr, ':');
    let k = find_char(s.cidr, ':');
    if k < s.cidr.len() {
        assert(s.cidr[k as int] == ':');
        assert(s.cidr.contains(':'));
    } else {
        assert(!s.cidr.contains(':'));
    }
}

/// A security group of the file is accepted exactly where it has a name, no group has the name, and no
/// group has its policy id. The fabric then has the group as the file writes it, and nothing else
/// changes.
pub proof fn group_is_as_written(f: FabricView, s: SecurityGroupFileView)
    ensures
        group_step(f, s) is Ok <==> s.name.len() > 0 && !f.topo.security_groups.dom().contains(
            s.name,
        ) && (forall|name: Seq<char>| #[trigger]
            f.topo.security_groups.dom().contains(name) ==> policy_id_of(name) != policy_id_of(
                s.name,
            )),
        group_step(f, s) matches Ok(g) ==> {
            let x = g.topo.security_groups[s.name];
            &&& g.topo.security_groups == f.topo.security_groups.insert(s.name, x)
            &&& x.name == s.name
            &&& x.default_action == s.default_action
            &&& x.drop_icmp == s.drop_icmp
            &&& x.stateful == s.stateful
            &&& x.blocklist == s.blocklist
            &&& x.rules == s.rules
            &&& g.topo.hosts == f.topo.hosts && g.topo.ports == f.topo.ports
            &&& g.topo.networks == f.topo.networks && g.subnets == f.subnets
            &&& g.ip_vrfs == f.ip_vrfs && g.load_balancers == f.load_balancers
            &&& g.locators == f.locators
        },
{
    reveal(group_step);
    let pid = policy_id_of(s.name);
    if f.topo.has_group_of(pid) {
        let name = choose|name: Seq<char>| f.topo.is_group_of(pid, name);
        assert(f.topo.is_group_of(pid, name));
        assert(f.topo.security_groups.dom().contains(name));
    } else {
        assert forall|name: Seq<char>| #[trigger]
            f.topo.security_groups.dom().contains(name) implies policy_id_of(name) != pid by {
            assert(!f.topo.is_group_of(pid, name));
        }
    }
}

/// A routing context of the file is accepted exactly where its gateway has the MAC address of one
/// station, its networks exist, and its segment is one of 24 bits, not zero and new. The fabric then
/// has it as the file writes it, and nothing else changes.
pub proof fn vrf_is_as_written(f: FabricView, v: IpVrfFileView)
    ensures
        vrf_step(f, v) is Ok <==> {
            &&& mac_from(v.gateway_mac) matches Some(m) && m[0] % 2 == 0 && !(m[0] == 0 && m[1] == 0
                && m[2] == 0 && m[3] == 0 && m[4] == 0 && m[5] == 0)
            &&& forall|i: int|
                0 <= i < v.networks.len() ==> f.topo.networks.dom().contains(
                    #[trigger] v.networks[i],
                )
            &&& 0 < v.l3_vni < 0x100_0000
            &&& !f.ip_vrfs.dom().contains(v.l3_vni)
        },
        vrf_step(f, v) matches Ok(g) ==> {
            let x = g.ip_vrfs[v.l3_vni];
            &&& g.ip_vrfs == f.ip_vrfs.insert(v.l3_vni, x)
            &&& x.l3_vni == v.l3_vni
            &&& x.name == v.name
            &&& mac_from(v.gateway_mac) == Some(x.gateway_mac)
            &&& x.networks == v.networks
            &&& g.topo == f.topo && g.locators == f.locators
            &&& g.subnets == f.subnets && g.load_balancers == f.load_balancers
        },
{
    reveal(vrf_step);
    let w = missing_network(f.topo);
    first_index_properties(v.networks, w);
    let k = first_index(v.networks, w);
    if k < v.networks.len() {
        assert(!f.topo.networks.dom().contains(v.networks[k]));
    } else {
        assert forall|i: int| 0 <= i < v.networks.len() implies f.topo.networks.dom().contains(
            #[trigger] v.networks[i],
        ) by {
            assert(!w(v.networks[i]));
        }
    }
    if let Some(m) = mac_from(v.gateway_mac) {
        let zero = seq![0u8, 0, 0, 0, 0, 0];
        if m[0] == 0 && m[1] == 0 && m[2] == 0 && m[3] == 0 && m[4] == 0 && m[5] == 0 {
            assert(m@ =~= zero);
        }
        if m@ == zero {
            assert(m@[0] == 0 && m@[1] == 0 && m@[2] == 0 && m@[3] == 0 && m@[4] == 0 && m@[5] == 0);
        }
    }
}

/// A port of the file is accepted exactly where its address and MAC address can be read, where they
/// are given, the port can be created, and the security group exists, where one is named. It stands
/// behind the other ports, as the file writes it, with the group's policy where a group is named, and
/// nothing else changes.
pub proof fn port_is_as_written(f: FabricView, p: PortFileView)
    requires
        f.wf(),
    ensures
        port_step(f, p) is Ok <==> {
            &&& p.ip matches Some(s) ==> ipv4_of(s) is Some
            &&& p.mac matches Some(s) ==> mac_from(s) is Some
            &&& p.security_group matches Some(g) ==> f.topo.security_groups.dom().contains(g)
            &&& f.topo.networks.dom().contains(p.network)
            &&& f.topo.hosts.dom().contains(p.host)
            &&& forall|i: int|
                0 <= i < f.topo.ports.len() ==> (#[trigger] f.topo.ports[i]).host != p.host
                    || f.topo.ports[i].tap != p.tap
            &&& p.ip matches Some(s) ==> f.topo.networks[p.network].subnet.contains(ipv4_of(s)->0)
                && unused_on(f.topo, p.network, ipv4_of(s)->0.bits as int)
            &&& p.ip is None ==> exists|a: int|
                f.topo.networks[p.network].subnet.base() < a < f.topo.networks[p.network].subnet.base()
                    + f.topo.networks[p.network].subnet.span() - 1 && #[trigger] unused_on(
                    f.topo,
                    p.network,
                    a,
                )
        },
        port_step(f, p) matches Ok(g) ==> g.topo.ports.len() == f.topo.ports.len() + 1 && {
            let x = g.topo.ports[f.topo.ports.len() as int];
            let subnet = f.topo.networks[p.network].subnet;
            &&& g.topo.ports.drop_last() == f.topo.ports
            &&& x.vni == p.network
            &&& x.host == p.host
            &&& x.tap == p.tap
            &&& p.security_group matches Some(name) ==> x.policy == Some(policy_id_of(name))
            &&& p.security_group is None ==> x.policy == p.policy
            &&& x.id == "port-"@ + decimal(p.network as nat) + "-"@ + ipv4_text(x.ip)
            &&& p.ip matches Some(s) ==> ipv4_of(s) == Some(x.ip)
            &&& p.ip is None ==> subnet.base() < x.ip.bits && unused_on(
                f.topo,
                p.network,
                x.ip.bits as int,
            ) && forall|a: int|
                subnet.base() < a < x.ip.bits ==> !#[trigger] unused_on(f.topo, p.network, a)
            &&& p.mac matches Some(s) ==> mac_from(s) == Some(x.mac)
            &&& p.mac is None ==> {
                &&& x.mac[0] == 2 && x.mac[1] == 0
                &&& x.mac[2] * 0x100_0000 + x.mac[3] * 0x1_0000 + x.mac[4] * 0x100 + x.mac[5]
                    == x.ip.bits
            }
            &&& g.topo.hosts == f.topo.hosts && g.topo.networks == f.topo.networks
            &&& g.topo.security_groups == f.topo.security_groups && g.subnets == f.subnets
            &&& g.ip_vrfs == f.ip_vrfs && g.load_balancers == f.load_balancers
            &&& g.locators == f.locators
        },
{
    reveal(port_step);
    if let (Ok(ip), Ok(mac)) = (port_ip(p), port_mac(p)) {
        let t = f.topo;
        let policy = if p.security_group is Some {
            None
        } else {
            p.policy
        };
        port_is_created_where_it_can_be(t, p.network, p.host, p.tap, ip, policy, mac);
        let step = t.create_port(p.network, p.host, p.tap, ip, policy, mac);
        if let Ok(port) = step.1 {
            let n = t.ports.len() as int;
            create_port_keeps_wf(t, p.network, p.host, p.tap, ip, policy, mac);
            let ports = step.0.ports;
            assert(ports[n] == port);
            assert(ports.drop_last() =~= t.ports);
            assert forall|j: int| 0 <= j < n implies !with_id(port.id)(#[trigger] ports[j]) by {
                port_ids_differ(step.0, j, n);
            }
            first_index_is(ports, with_id(port.id), n);
            if let Some(name) = p.security_group {
                let bound = step.0.set_port_security_group(port.id, Some(name));
                if bound.1 is Ok {
                    assert(bound.0.ports.drop_last() =~= t.ports);
                }
            }
        }
    }
}

/// A load balancer of the file is accepted exactly where each member names the host and interface of a
/// port, its address can be read, and no load balancer has the id. The fabric then has it as the file
/// writes it, with the ids of its members' ports in their order, and nothing else changes.
pub proof fn load_balancer_is_as_written(f: FabricView, lb: LoadBalancerFileView)
    requires
        f.wf(),
    ensures
        lb_step(f, lb) is Ok <==> {
            &&& forall|j: int|
                0 <= j < lb.members.len() ==> exists|i: int|
                    0 <= i < f.topo.ports.len() && (#[trigger] f.topo.ports[i]).host
                        == (#[trigger] lb.members[j]).host && f.topo.ports[i].tap
                        == lb.members[j].tap
            &&& ipv4_of(lb.vip) is Some
            &&& !f.load_balancers.dom().contains(lb.id)
        },
        lb_step(f, lb) matches Ok(g) ==> {
            let x = g.load_balancers[lb.id];
            &&& g.load_balancers == f.load_balancers.insert(lb.id, x)
            &&& x.id == lb.id
            &&& x.vni == lb.vni
            &&& ipv4_of(lb.vip) == Some(x.vip)
            &&& x.port == lb.port
            &&& x.proto == lb.proto
            &&& x.members.len() == lb.members.len()
            &&& forall|j: int, i: int|
                0 <= j < lb.members.len() && 0 <= i < f.topo.ports.len() && (
                #[trigger] f.topo.ports[i]).host == (#[trigger] lb.members[j]).host
                    && f.topo.ports[i].tap == lb.members[j].tap ==> x.members[j].port_id
                    == f.topo.ports[i].id && x.members[j].port == lb.members[j].port
            &&& g.topo == f.topo && g.locators == f.locators
            &&& g.subnets == f.subnets && g.ip_vrfs == f.ip_vrfs
        },
{
    reveal(lb_step);
    members_resolve(f, lb.members);
}

proof fn members_resolve(f: FabricView, ms: Seq<LbMemberFileView>)
    requires
        f.wf(),
    ensures
        ({
            let r = try_steps(Seq::empty(), ms, member_step(f.topo.ports));
            &&& r is Ok <==> forall|j: int|
                0 <= j < ms.len() ==> exists|i: int|
                    0 <= i < f.topo.ports.len() && (#[trigger] f.topo.ports[i]).host == (
                    #[trigger] ms[j]).host && f.topo.ports[i].tap == ms[j].tap
            &&& r matches Ok(out) ==> out.len() == ms.len() && forall|j: int, i: int|
                0 <= j < ms.len() && 0 <= i < f.topo.ports.len() && (
                #[trigger] f.topo.ports[i]).host == (#[trigger] ms[j]).host && f.topo.ports[i].tap
                    == ms[j].tap ==> out[j].port_id == f.topo.ports[i].id && out[j].port
                    == ms[j].port
        }),
    decreases ms.len(),
{
    let ports = f.topo.ports;
    if ms.len() > 0 {
        let front = ms.drop_last();
        let z = ms.len() - 1;
        let m = ms[z];
        members_resolve(f, front);
        let w = at_tap(m.host, m.tap);
        first_index_properties(ports, w);
        let k = first_index(ports, w);
        let before = try_steps(Seq::empty(), front, member_step(ports));
        let r = try_steps(Seq::empty(), ms, member_step(ports));
        assert forall|j: int| 0 <= j < z implies front[j] == #[trigger] ms[j] by {}
        if k < ports.len() {
            assert(ports[k].host == ms[z].host && ports[k].tap == ms[z].tap);
            assert forall|i: int| 0 <= i < ports.len() && (#[trigger] ports[i]).host == m.host
                && ports[i].tap == m.tap implies i == k by {
                if i < k {
                    assert(!w(ports[i]));
                } else if k < i {
                    assert(!(ports[k].host == ports[i].host && ports[k].tap == ports[i].tap));
                }
            }
        } else {
            assert forall|i: int| 0 <= i < ports.len() implies !((#[trigger] ports[i]).host
                == ms[z].host && ports[i].tap == ms[z].tap) by {
                assert(!w(ports[i]));
            }
        }
        if let Ok(out) = r {
            let done = before->Ok_0;
            assert(out.drop_last() =~= done);
            assert forall|j: int| 0 <= j < ms.len() implies exists|i: int|
                0 <= i < ports.len() && (#[trigger] ports[i]).host == (#[trigger] ms[j]).host
                    && ports[i].tap == ms[j].tap by {
                if j < z {
                    assert(front[j] == ms[j]);
                } else {
                    assert(ports[k].host == ms[z].host);
                }
            }
            assert forall|j: int, i: int|
                0 <= j < ms.len() && 0 <= i < ports.len() && (#[trigger] ports[i]).host == (
                #[trigger] ms[j]).host && ports[i].tap == ms[j].tap implies out[j].port_id
                == ports[i].id && out[j].port == ms[j].port by {
                if j < z {
                    assert(front[j] == ms[j]);
                    assert(out[j] == done[j]);
                }
            }
        } else if before is Err {
            let j = choose|j: int|
                0 <= j < front.len() && !(exists|i: int|
                    0 <= i < ports.len() && (#[trigger] ports[i]).host == (
                    #[trigger] front[j]).host && ports[i].tap == front[j].tap);
            assert(front[j] == ms[j]);
        } else {
            assert(ms[z] == m);
        }
    }
}

/// What is wrong with a host of a file whose locator cannot be read, whose addresses cannot be, or
/// that has a locator without SRv6 or SRv6 without a locator.
pub proof fn unreadable_host_is_told(f: FabricView, h: HostFileView)
    ensures
        ipv4_of(h.vtep) is None ==> host_step(f, h) == Err::<FabricView, Seq<char>>(
            "host "@ + debug_text(h.id) + ": invalid vtep "@ + debug_text(h.vtep),
        ),
        ipv4_of(h.vtep) is Some && mac_from(h.underlay_mac) is None ==> host_step(f, h) == Err::<
            FabricView,
            Seq<char>,
        >(
            "host "@ + debug_text(h.id) + ": invalid underlay_mac "@ + debug_text(h.underlay_mac)
                + ": "@ + "expected six pairs of hexadecimal digits"@,
        ),
        ipv4_of(h.vtep) is Some && mac_from(h.underlay_mac) is Some ==> {
            &&& h.srv6_locator is None && h.encap == EncapName::Srv6 ==> host_step(f, h) == Err::<
                FabricView,
                Seq<char>,
            >("host "@ + debug_text(h.id) + ": srv6_locator and srv6 encap go together"@)
            &&& h.srv6_locator matches Some(l) ==> {
                &&& !l.contains('/') ==> host_step(f, h) == Err::<FabricView, Seq<char>>(
                    "host "@ + debug_text(h.id) + ": srv6_locator "@ + debug_text(l)
                        + " must be written as prefix/len"@,
                )
                &&& forall|i: int|
                    0 <= i < l.len() && #[trigger] l[i] == '/' && !l.take(i).contains('/') ==> {
                        &&& ipv6_of(l.take(i)) is None ==> host_step(f, h) == Err::<
                            FabricView,
                            Seq<char>,
                        >(
                            "host "@ + debug_text(h.id) + ": invalid srv6_locator prefix in "@
                                + debug_text(l),
                        )
                        &&& ipv6_of(l.take(i)) is Some && unsigned_value(
                            l.skip(i + 1),
                            10,
                            255,
                        ) is None ==> host_step(f, h) == Err::<FabricView, Seq<char>>(
                            "host "@ + debug_text(h.id) + ": invalid srv6_locator length in "@
                                + debug_text(l),
                        )
                        &&& ipv6_of(l.take(i)) is Some && unsigned_value(
                            l.skip(i + 1),
                            10,
                            255,
                        ) is Some && h.encap != EncapName::Srv6 ==> host_step(f, h) == Err::<
                            FabricView,
                            Seq<char>,
                        >("host "@ + debug_text(h.id) + ": srv6_locator and srv6 encap go together"@)
                    }
            }
        },
{
    reveal(host_step);
    match h.srv6_locator {
        Some(l) => {
            find_char_properties(l, '/');
            let k = find_char(l, '/') as int;
            if !l.contains('/') && k < l.len() {
                assert(l[k] == '/');
            }
            assert forall|i: int|
                0 <= i < l.len() && #[trigger] l[i] == '/' && !l.take(i).contains('/') implies k
                == i by {
                if k < i {
                    assert(l.take(i)[k] == '/');
                }
            }
        },
        None => {},
    }
}

/// What is wrong with a network or a subnet of a file: text that cannot be read, a pool with one
/// end, an unknown network, or an id in use.
pub proof fn unreadable_subnet_is_told(f: FabricView, n: NetworkFileView, s: SubnetFileView)
    ensures
        cidr_v4_of(n.subnet) is None ==> network_step(f, n) == Err::<FabricView, Seq<char>>(
            "network "@ + decimal(n.vni as nat) + ": invalid subnet "@ + debug_text(n.subnet)
                + ": "@ + "expected an IPv4 address, a slash and a length up to 32"@,
        ),
        ({
            let read = if s.cidr.contains(':') {
                cidr_v6_of(s.cidr) is Some
            } else {
                cidr_v4_of(s.cidr) is Some
            };
            let led = s.gateway matches Some(g) ==> ip_of(g) is Some;
            let whole = (s.pool_start is Some) == (s.pool_end is Some);
            let ends = (s.pool_start matches Some(a) ==> ip_of(a) is Some) && (
            s.pool_end matches Some(z) ==> ip_of(z) is Some);
            let name = "subnet "@ + debug_text(s.id);
            let told = |e: Seq<char>| subnet_step(f, s) == Err::<FabricView, Seq<char>>(e);
            &&& !read && s.cidr.contains(':') ==> told(
                name + ": invalid cidr "@ + debug_text(s.cidr) + ": "@
                    + "expected an IPv6 address, a slash and a length up to 128"@,
            )
            &&& !read && !s.cidr.contains(':') ==> told(
                name + ": invalid cidr "@ + debug_text(s.cidr) + ": "@
                    + "expected an IPv4 address, a slash and a length up to 32"@,
            )
            &&& read ==> (s.gateway matches Some(g) ==> (ip_of(g) is None ==> told(
                name + ": invalid gateway "@ + debug_text(g),
            )))
            &&& read && led && !whole ==> told(
                name + ": pool requires both pool_start and pool_end"@,
            )
            &&& read && led ==> (s.pool_start matches Some(a) ==> (s.pool_end matches Some(z) ==> {
                &&& ip_of(a) is None ==> told(name + ": invalid pool_start "@ + debug_text(a))
                &&& ip_of(a) is Some && ip_of(z) is None ==> told(
                    name + ": invalid pool_end "@ + debug_text(z),
                )
            }))
            &&& read && led && whole && ends && !f.topo.networks.dom().contains(s.vni) ==> told(
                name + ": unknown network vni "@ + decimal(s.vni as nat),
            )
            &&& read && led && whole && ends && f.topo.networks.dom().contains(s.vni)
                && f.subnets.dom().contains(s.id) ==> told(name + " already exists"@)
        }),
{
    reveal(network_step);
    reveal(subnet_step);
    find_char_properties(s.cidr, ':');
}

/// What is wrong with a routing context of a file: its gateway address cannot be read, a network of
/// it is unknown, its segment is out of range, its gateway is no station, or its segment is in use,
/// in this order.
pub proof fn refused_vrf_is_told_why(f: FabricView, v: IpVrfFileView, i: int)
    ensures
        ({
            let name = "ip_vrf "@ + v.name;
            let told = |e: Seq<char>| vrf_step(f, v) == Err::<FabricView, Seq<char>>(e);
            let known = forall|j: int|
                0 <= j < v.networks.len() ==> f.topo.networks.dom().contains(
                    #[trigger] v.networks[j],
                );
            &&& mac_from(v.gateway_mac) is None ==> told(
                name + ": invalid gateway_mac "@ + debug_text(v.gateway_mac) + ": "@
                    + "expected six pairs of hexadecimal digits"@,
            )
            &&& mac_from(v.gateway_mac) is Some && 0 <= i < v.networks.len()
                && !f.topo.networks.dom().contains(v.networks[i]) && (forall|j: int|
                0 <= j < i ==> f.topo.networks.dom().contains(#[trigger] v.networks[j])) ==> told(
                name + ": unknown network vni "@ + decimal(v.networks[i] as nat),
            )
            &&& mac_from(v.gateway_mac) matches Some(m) ==> (known ==> {
                let single = m[0] % 2 == 0 && !(m[0] == 0 && m[1] == 0 && m[2] == 0 && m[3] == 0
                    && m[4] == 0 && m[5] == 0);
                &&& v.l3_vni == 0 || v.l3_vni > 16777215 ==> told(
                    name + ": l3_vni "@ + decimal(v.l3_vni as nat)
                        + " is not between 1 and 16777215"@,
                )
                &&& 0 < v.l3_vni <= 16777215 && !single ==> told(
                    name + ": gateway_mac "@ + debug_text(v.gateway_mac)
                        + " is not the address of one station"@,
                )
                &&& 0 < v.l3_vni <= 16777215 && single && f.ip_vrfs.dom().contains(v.l3_vni)
                    ==> told(
                    name + ": l3_vni "@ + decimal(v.l3_vni as nat) + " already exists"@,
                )
            })
        }),
{
    reveal(vrf_step);
    match mac_from(v.gateway_mac) {
        Some(m) => {
            if m[0] == 0 && m[1] == 0 && m[2] == 0 && m[3] == 0 && m[4] == 0 && m[5] == 0 {
                assert(m@ =~= seq![0u8, 0, 0, 0, 0, 0]);
            }
        },
        None => {},
    }
    first_index_properties(v.networks, missing_network(f.topo));
    if 0 <= i < v.networks.len() && !f.topo.networks.dom().contains(v.networks[i]) && (forall|
        j: int,
    | 0 <= j < i ==> f.topo.networks.dom().contains(#[trigger] v.networks[j])) {
        first_index_is(v.networks, missing_network(f.topo), i);
    }
}

/// What is wrong with a port or a load balancer of a file: text that cannot be read, a member that
/// no port of the file stands for, or an id in use.
pub proof fn unreadable_port_is_told(f: FabricView, p: PortFileView, lb: LoadBalancerFileView)
    ensures
        p.ip matches Some(a) ==> (ipv4_of(a) is None ==> port_step(f, p) == Err::<
            FabricView,
            Seq<char>,
        >("port "@ + p.host + "/"@ + p.tap + ": invalid ip "@ + debug_text(a))),
        (p.ip matches Some(a) ==> ipv4_of(a) is Some) ==> (p.mac matches Some(m) ==> (mac_from(
            m,
        ) is None ==> port_step(f, p) == Err::<FabricView, Seq<char>>(
            "mac "@ + debug_text(m) + ": "@ + "expected six pairs of hexadecimal digits"@,
        ))),
        lb.members.len() == 0 && ipv4_of(lb.vip) is None ==> lb_step(f, lb) == Err::<
            FabricView,
            Seq<char>,
        >("load_balancer "@ + lb.id + ": "@ + ("invalid vip "@ + debug_text(lb.vip))),
        lb.members.len() > 0 && (forall|i: int|
            0 <= i < f.topo.ports.len() ==> (#[trigger] f.topo.ports[i]).host != lb.members[0].host
                || f.topo.ports[i].tap != lb.members[0].tap) ==> lb_step(f, lb) == Err::<
            FabricView,
            Seq<char>,
        >(
            "load_balancer "@ + lb.id + ": "@ + ("member "@ + lb.members[0].host + "/"@
                + lb.members[0].tap + " names no declared port"@),
        ),
        load_balancer_of(f.topo.ports, lb) is Ok && f.load_balancers.dom().contains(lb.id)
            ==> lb_step(f, lb) == Err::<FabricView, Seq<char>>(
            "load_balancer "@ + lb.id + " already exists"@,
        ),
{
    reveal(port_step);
    reveal(lb_step);
    let step = member_step(f.topo.ports);
    if lb.members.len() > 0 {
        let m = lb.members[0];
        first_index_properties(f.topo.ports, at_tap(m.host, m.tap));
        if forall|i: int|
            0 <= i < f.topo.ports.len() ==> (#[trigger] f.topo.ports[i]).host != m.host
                || f.topo.ports[i].tap != m.tap {
            try_steps_next(Seq::empty(), lb.members, step, 0);
            try_steps_failed(Seq::empty(), lb.members, step, 1);
        }
    }
}

} // verus!
