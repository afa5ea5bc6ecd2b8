//! What holds of the fabric as a whole: every operation keeps it well formed, and what it derives
//! follows its ports.

use vstd::prelude::*;

use crate::addr::{ipv4_text, ipv4_text_round_trip, mac_text, Ipv4Addr};
use crate::config::{ActionName, InterfaceFileView, NeighborCfgView, TunnelCfgView};
use crate::lists::{
    first_index, first_index_properties, flat, flat_contains, increasing, sorted_set_properties,
};
use crate::orchestrator::{
    any_port, at_address, at_tap, bound_to, group_policy, interface_if_local, local_vni_has_port,
    lowest_free_properties, mac_of, network_policy, on_host, on_network, other_at_tap, policy_id_of,
    policy_if_local, port_id_text, unless_id, with_id, HostView, NetworkView, PortView,
    SecurityGroupView, TopologyView, EVPN_RESERVED_VNI_BASE,
};
use crate::store::{unused_is_not_found, unused_on};
use crate::text::decimal;


verus! {

/// Registering a host keeps the fabric well formed.
pub proof fn add_host_keeps_wf(t: TopologyView, h: HostView)
    requires
        t.wf(),
    ensures
        t.add_host(h).wf(),
{
    let u = t.add_host(h);
    assert(u.ports == t.ports);
}

/// Adding a network, or being refused, keeps the fabric well formed.
pub proof fn add_network_keeps_wf(t: TopologyView, n: NetworkView)
    requires
        t.wf(),
        n.subnet.valid(),
    ensures
        t.add_network(n).0.wf(),
{
}

/// A network with a zero VNI or one in the reserved range is never added.
pub proof fn reserved_vnis_stay_free(t: TopologyView, n: NetworkView)
    requires
        n.vni == 0 || n.vni >= EVPN_RESERVED_VNI_BASE,
    ensures
        t.add_network(n).1 is Err,
        t.add_network(n).0 == t,
{
}

/// Removing a host, or being refused, keeps the fabric well formed.
pub proof fn remove_host_keeps_wf(t: TopologyView, id: Seq<char>)
    requires
        t.wf(),
    ensures
        t.remove_host(id).0.wf(),
{
    first_index_properties(t.ports, on_host(id));
    let u = t.remove_host(id).0;
    assert forall|i: int| 0 <= i < u.ports.len() implies u.hosts.dom().contains(
        (#[trigger] u.ports[i]).host,
    ) by {
        assert(t.hosts.dom().contains(t.ports[i].host));
        if t.remove_host(id).1 is Ok {
            assert(!on_host(id)(t.ports[i]));
        }
    }
}

/// A host is removed only when no port is on it.
pub proof fn host_with_ports_stays(t: TopologyView, id: Seq<char>, i: int)
    requires
        0 <= i < t.ports.len(),
        t.ports[i].host == id,
    ensures
        t.remove_host(id).1 is Err,
        t.remove_host(id).0 == t,
{
    first_index_properties(t.ports, on_host(id));
    assert(on_host(id)(t.ports[i]));
}

/// Removing a network, or being refused, keeps the fabric well formed.
pub proof fn remove_network_keeps_wf(t: TopologyView, vni: u32)
    requires
        t.wf(),
    ensures
        t.remove_network(vni).0.wf(),
{
    first_index_properties(t.ports, on_network(vni));
    let u = t.remove_network(vni).0;
    assert forall|i: int| 0 <= i < u.ports.len() implies u.networks.dom().contains(
        (#[trigger] u.ports[i]).vni,
    ) by {
        assert(t.networks.dom().contains(t.ports[i].vni));
        if t.remove_network(vni).1 is Ok {
            assert(!on_network(vni)(t.ports[i]));
        }
    }
}

/// A network is removed only when no port is on it.
pub proof fn network_with_ports_stays(t: TopologyView, vni: u32, i: int)
    requires
        0 <= i < t.ports.len(),
        t.ports[i].vni == vni,
    ensures
        t.remove_network(vni).1 is Err,
        t.remove_network(vni).0 == t,
{
    first_index_properties(t.ports, on_network(vni));
    assert(on_network(vni)(t.ports[i]));
}

/// Adding a security group, or being refused, keeps the fabric well formed.
pub proof fn add_security_group_keeps_wf(
    t: TopologyView,
    g: SecurityGroupView,
    after: TopologyView,
    outcome: Result<(), Seq<char>>,
)
    requires
        t.wf(),
        t.add_security_group(g, after, outcome),
    ensures
        after.wf(),
{
    if outcome is Ok {
        let pid = policy_id_of(g.name);
        assert(!t.has_group_of(pid));
        assert forall|a: Seq<char>, b: Seq<char>|
            #![trigger after.security_groups.dom().contains(a), after.security_groups.dom().contains(b)]
            after.security_groups.dom().contains(a) && after.security_groups.dom().contains(b)
                && policy_id_of(a) == policy_id_of(b) implies a == b by {
            if a != g.name && b == g.name {
                assert(t.is_group_of(pid, a));
            }
            if a == g.name && b != g.name {
                assert(t.is_group_of(pid, b));
            }
            if a != g.name && b != g.name {
                assert(t.security_groups.dom().contains(a) && t.security_groups.dom().contains(b));
            }
        }
    }
}

/// Removing a security group, or being refused, keeps the fabric well formed.
pub proof fn remove_security_group_keeps_wf(t: TopologyView, name: Seq<char>)
    requires
        t.wf(),
    ensures
        t.remove_security_group(name).0.wf(),
{
    let u = t.remove_security_group(name).0;
    assert forall|a: Seq<char>, b: Seq<char>|
        #![trigger u.security_groups.dom().contains(a), u.security_groups.dom().contains(b)]
        u.security_groups.dom().contains(a) && u.security_groups.dom().contains(b) && policy_id_of(
            a,
        ) == policy_id_of(b) implies a == b by {
        assert(t.security_groups.dom().contains(a) && t.security_groups.dom().contains(b));
    }
}

/// A security group is removed only when no port is bound to it.
pub proof fn bound_group_stays(t: TopologyView, name: Seq<char>, i: int)
    requires
        t.security_groups.dom().contains(name),
        0 <= i < t.ports.len(),
        t.ports[i].policy == Some(policy_id_of(name)),
    ensures
        t.remove_security_group(name).1 is Err,
        t.remove_security_group(name).0 == t,
{
    let f = bound_to(policy_id_of(name));
    first_index_properties(t.ports, f);
    assert(f(t.ports[i]));
}

/// Binding a port, or being refused, keeps the fabric well formed.
pub proof fn set_port_security_group_keeps_wf(
    t: TopologyView,
    port_id: Seq<char>,
    group: Option<Seq<char>>,
)
    requires
        t.wf(),
    ensures
        t.set_port_security_group(port_id, group).0.wf(),
{
    let u = t.set_port_security_group(port_id, group).0;
    let k = first_index(t.ports, with_id(port_id));
    first_index_properties(t.ports, with_id(port_id));
    assert forall|i: int, j: int| 0 <= i < j < u.ports.len() implies {
        let p = #[trigger] u.ports[i];
        let q = #[trigger] u.ports[j];
        &&& !(p.host == q.host && p.tap == q.tap)
        &&& !(p.vni == q.vni && p.ip == q.ip)
    } by {
        let p = t.ports[i];
        let q = t.ports[j];
        assert(!(p.host == q.host && p.tap == q.tap) && !(p.vni == q.vni && p.ip == q.ip));
    }
    assert forall|i: int| 0 <= i < u.ports.len() implies {
        let p = #[trigger] u.ports[i];
        &&& u.networks.dom().contains(p.vni)
        &&& u.hosts.dom().contains(p.host)
        &&& p.id == port_id_text(p.vni, p.ip)
    } by {
        let p = t.ports[i];
        assert(p.id == port_id_text(p.vni, p.ip));
    }
}

/// Creating a port, or being refused, keeps the fabric well formed.
pub proof fn create_port_keeps_wf(
    t: TopologyView,
    vni: u32,
    host: Seq<char>,
    tap: Seq<char>,
    requested: Option<Ipv4Addr>,
    policy: Option<u32>,
    mac: Option<[u8; 6]>,
)
    requires
        t.wf(),
    ensures
        t.create_port(vni, host, tap, requested, policy, mac).0.wf(),
{
    let u = t.create_port(vni, host, tap, requested, policy, mac).0;
    created_port_properties(t, vni, host, tap, requested, policy, mac);
    if t.create_port(vni, host, tap, requested, policy, mac).1 is Ok {
        let n = t.ports.len() as int;
        let new = u.ports[n];
        first_index_properties(t.ports, at_tap(host, tap));
        first_index_properties(t.ports, at_address(vni, new.ip.bits as int));
        assert forall|i: int, j: int| 0 <= i < j < u.ports.len() implies {
            let p = #[trigger] u.ports[i];
            let q = #[trigger] u.ports[j];
            &&& !(p.host == q.host && p.tap == q.tap)
            &&& !(p.vni == q.vni && p.ip == q.ip)
        } by {
            let p = t.ports[i];
            assert(u.ports[i] == p);
            if j < n {
                let q = t.ports[j];
                assert(u.ports[j] == q);
                assert(!(p.host == q.host && p.tap == q.tap));
            } else {
                assert(!at_tap(host, tap)(p));
                assert(!at_address(vni, new.ip.bits as int)(p));
            }
        }
        assert forall|i: int| 0 <= i < u.ports.len() implies {
            let p = #[trigger] u.ports[i];
            &&& u.networks.dom().contains(p.vni)
            &&& u.hosts.dom().contains(p.host)
            &&& p.id == port_id_text(p.vni, p.ip)
        } by {
            if i < n {
                assert(u.ports[i] == t.ports[i]);
                assert(t.ports[i].id == port_id_text(t.ports[i].vni, t.ports[i].ip));
            }
        }
    }
}

/// A created port has the requested address, which lies in the subnet; or, where none was
/// requested, the lowest host address of the subnet that was free. In either case no port of the
/// network had it. Its id and, unless one was given, its MAC address follow from the address.
pub proof fn created_port_properties(
    t: TopologyView,
    vni: u32,
    host: Seq<char>,
    tap: Seq<char>,
    requested: Option<Ipv4Addr>,
    policy: Option<u32>,
    mac: Option<[u8; 6]>,
)
    requires
        t.keys_match(),
    ensures
        t.create_port(vni, host, tap, requested, policy, mac).1 matches Ok(p) ==> {
            let subnet = t.networks[vni].subnet;
            &&& p.vni == vni && p.host == host && p.tap == tap && p.policy == policy
            &&& p.id == port_id_text(vni, p.ip)
            &&& mac is None ==> p.mac == mac_of(p.ip)
            &&& !any_port(t.ports, at_address(vni, p.ip.bits as int))
            &&& match requested {
                Some(ip) => p.ip == ip && subnet.contains(ip),
                None => {
                    &&& subnet.base() < p.ip.bits < subnet.base() + subnet.span() - 1
                    &&& forall|b: int|
                        subnet.base() < b < p.ip.bits ==> any_port(
                            t.ports,
                            #[trigger] at_address(vni, b),
                        )
                },
            }
        },
        t.create_port(vni, host, tap, requested, policy, mac).1 matches Ok(p)
            ==> t.create_port(vni, host, tap, requested, policy, mac).0.ports == t.ports.push(p),
{
    if t.networks.dom().contains(vni) {
        let subnet = t.networks[vni].subnet;
        assert(subnet.valid());
        lowest_free_properties(t.ports, vni, subnet.base(), 1, subnet.span());
    }
}

/// Two ports never share an interface: a second port on it is refused.
pub proof fn tap_binds_one_port(
    t: TopologyView,
    vni: u32,
    i: int,
    requested: Option<Ipv4Addr>,
    policy: Option<u32>,
)
    requires
        0 <= i < t.ports.len(),
    ensures
        t.create_port(vni, t.ports[i].host, t.ports[i].tap, requested, policy, None).1 is Err,
        t.create_port(vni, t.ports[i].host, t.ports[i].tap, requested, policy, None).0 == t,
{
    let f = at_tap(t.ports[i].host, t.ports[i].tap);
    first_index_properties(t.ports, f);
    assert(f(t.ports[i]));
}

proof fn kept_port_was_there(ports: Seq<PortView>, id: Seq<char>)
    ensures
        flat(ports, unless_id(id)).len() <= ports.len(),
        forall|i: int|
            0 <= i < flat(ports, unless_id(id)).len() ==> exists|j: int|
                i <= j < ports.len() && #[trigger] flat(
                    ports,
                    unless_id(id),
                )[i] == #[trigger] ports[j]
                    && ports[j].id != id,
        forall|a: int, b: int|
            0 <= a < b < flat(ports, unless_id(id)).len() ==> exists|j: int, k: int|
                0 <= j < k < ports.len() && #[trigger] flat(ports, unless_id(id))[a]
                    == #[trigger] ports[j] && #[trigger] flat(ports, unless_id(id))[b]
                    == #[trigger] ports[k],
    decreases ports.len(),
{
    if ports.len() > 0 {
        let t = ports.drop_last();
        kept_port_was_there(t, id);
        let l = flat(t, unless_id(id));
        let all = flat(ports, unless_id(id));
        let n = ports.len() - 1;
        if ports.last().id == id {
            assert(all =~= l);
        } else {
            assert(all =~= l.push(ports.last()));
        }
        assert forall|i: int| 0 <= i < all.len() implies exists|j: int|
            i <= j < ports.len() && #[trigger] all[i] == #[trigger] ports[j] && ports[j].id
                != id by {
            if i < l.len() {
                assert(all[i] == l[i]);
                let j = choose|j: int|
                    i <= j < t.len() && #[trigger] l[i] == #[trigger] t[j] && t[j].id != id;
                assert(ports[j] == t[j]);
            } else {
                assert(all[i] == ports[n]);
            }
        }
        assert forall|a: int, b: int| 0 <= a < b < all.len() implies exists|j: int, k: int|
            0 <= j < k < ports.len() && #[trigger] all[a] == #[trigger] ports[j]
                && #[trigger] all[b] == #[trigger] ports[k] by {
            if b < l.len() {
                assert(all[a] == l[a] && all[b] == l[b]);
                let (j, k) = choose|j: int, k: int|
                    0 <= j < k < t.len() && #[trigger] l[a] == #[trigger] t[j] && #[trigger] l[b]
                        == #[trigger] t[k];
                assert(ports[j] == t[j] && ports[k] == t[k]);
            } else {
                assert(all[a] == l[a]);
                let j = choose|j: int|
                    a <= j < t.len() && #[trigger] l[a] == #[trigger] t[j] && t[j].id != id;
                assert(ports[j] == t[j] && all[b] == ports[n]);
            }
        }
    }
}

/// Removing a port keeps the fabric well formed.
pub proof fn remove_port_keeps_wf(t: TopologyView, id: Seq<char>)
    requires
        t.wf(),
    ensures
        t.remove_port(id).wf(),
{
    let u = t.remove_port(id);
    kept_port_was_there(t.ports, id);
    assert forall|i: int, j: int| 0 <= i < j < u.ports.len() implies {
        let p = #[trigger] u.ports[i];
        let q = #[trigger] u.ports[j];
        &&& !(p.host == q.host && p.tap == q.tap)
        &&& !(p.vni == q.vni && p.ip == q.ip)
    } by {
        let (a, b) = choose|a: int, b: int|
            0 <= a < b < t.ports.len() && u.ports[i] == #[trigger] t.ports[a] && u.ports[j]
                == #[trigger] t.ports[b];
        assert(!(t.ports[a].host == t.ports[b].host && t.ports[a].tap == t.ports[b].tap));
    }
    assert forall|i: int| 0 <= i < u.ports.len() implies {
        let p = #[trigger] u.ports[i];
        &&& u.networks.dom().contains(p.vni)
        &&& u.hosts.dom().contains(p.host)
        &&& p.id == port_id_text(p.vni, p.ip)
    } by {
        let a = choose|a: int|
            i <= a < t.ports.len() && u.ports[i] == #[trigger] t.ports[a] && t.ports[a].id != id;
        assert(t.ports[a].id == port_id_text(t.ports[a].vni, t.ports[a].ip));
    }
}

/// Migrating a port, or being refused, keeps the fabric well formed.
pub proof fn migrate_port_keeps_wf(t: TopologyView, id: Seq<char>, host: Seq<char>, tap: Seq<char>)
    requires
        t.wf(),
    ensures
        t.migrate_port(id, host, tap).0.wf(),
{
    let u = t.migrate_port(id, host, tap).0;
    let k = first_index(t.ports, with_id(id));
    first_index_properties(t.ports, with_id(id));
    first_index_properties(t.ports, other_at_tap(id, host, tap));
    if t.migrate_port(id, host, tap).1 is Ok {
        assert forall|i: int, j: int| 0 <= i < j < u.ports.len() implies {
            let p = #[trigger] u.ports[i];
            let q = #[trigger] u.ports[j];
            &&& !(p.host == q.host && p.tap == q.tap)
            &&& !(p.vni == q.vni && p.ip == q.ip)
        } by {
            let p = t.ports[i];
            let q = t.ports[j];
            assert(!(p.host == q.host && p.tap == q.tap) && !(p.vni == q.vni && p.ip == q.ip));
            if i == k {
                port_ids_differ(t, k, j);
                assert(!other_at_tap(id, host, tap)(q));
            } else if j == k {
                port_ids_differ(t, i, k);
                assert(!other_at_tap(id, host, tap)(p));
            }
        }
        assert forall|i: int| 0 <= i < u.ports.len() implies {
            let p = #[trigger] u.ports[i];
            &&& u.networks.dom().contains(p.vni)
            &&& u.hosts.dom().contains(p.host)
            &&& p.id == port_id_text(p.vni, p.ip)
        } by {
            let p = t.ports[i];
            assert(p.id == port_id_text(p.vni, p.ip));
        }
    }
}

/// A migrated port keeps its id, network, address, MAC address and policy, and every other port is
/// untouched.
pub proof fn migration_keeps_identity(
    t: TopologyView,
    id: Seq<char>,
    host: Seq<char>,
    tap: Seq<char>,
)
    ensures
        t.migrate_port(id, host, tap).1 matches Ok(p) ==> {
            let k = first_index(t.ports, with_id(id));
            let u = t.migrate_port(id, host, tap).0;
            &&& 0 <= k < t.ports.len()
            &&& p.id == id && p.host == host && p.tap == tap
            &&& p.vni == t.ports[k].vni && p.ip == t.ports[k].ip && p.mac == t.ports[k].mac
            &&& p.policy == t.ports[k].policy
            &&& u.ports.len() == t.ports.len() && u.ports[k] == p
            &&& forall|i: int| 0 <= i < t.ports.len() && i != k ==> u.ports[i] == t.ports[i]
        },
{
    first_index_properties(t.ports, with_id(id));
}

// ---------------------------------------------------------------------------
// Text identifies
// ---------------------------------------------------------------------------

/// Different addresses have different texts.
pub proof fn ipv4_text_injective(a: Ipv4Addr, b: Ipv4Addr)
    requires
        ipv4_text(a) == ipv4_text(b),
    ensures
        a == b,
{
    ipv4_text_round_trip(a);
    ipv4_text_round_trip(b);
}

proof fn suffix_cancels(a: Seq<char>, b: Seq<char>, s: Seq<char>)
    requires
        a + s == b + s,
    ensures
        a == b,
{
    let x = a + s;
    let y = b + s;
    assert(x.len() == a.len() + s.len() && y.len() == b.len() + s.len());
    assert forall|i: int| 0 <= i < a.len() implies a[i] == b[i] by {
        assert(x[i] == a[i] && y[i] == b[i]);
    }
    assert(a =~= b);
}

/// Different tunnels' destinations have different texts.
pub proof fn host_route_injective(a: Ipv4Addr, b: Ipv4Addr)
    requires
        ipv4_text(a) + "/32"@ == ipv4_text(b) + "/32"@,
    ensures
        a == b,
{
    suffix_cancels(ipv4_text(a), ipv4_text(b), "/32"@);
    ipv4_text_injective(a, b);
}

spec fn all_digits(s: Seq<char>) -> bool {
    forall|k: int| 0 <= k < s.len() ==> 48 <= (#[trigger] s[k]) as int <= 57
}

proof fn decimal_digits(n: nat)
    ensures
        all_digits(crate::text::decimal(n)),
        crate::text::digits_value(crate::text::decimal(n), 10) == Some(n as int),
    decreases n,
{
    let s = crate::text::decimal(n);
    if n < 10 {
        assert(s.drop_last() =~= Seq::<char>::empty());
        assert(crate::text::digits_value(s.drop_last(), 10) == Some(0int));
    } else {
        decimal_digits(n / 10);
        assert(s.drop_last() =~= crate::text::decimal(n / 10));
        assert forall|k: int| 0 <= k < s.len() implies 48 <= (#[trigger] s[k]) as int <= 57 by {
            if k < s.len() - 1 {
                assert(s[k] == crate::text::decimal(n / 10)[k]);
            }
        }
        assert(n == (n / 10) * 10 + n % 10);
    }
}

/// Different network and address pairs give different port ids.
pub proof fn port_id_injective(vni: u32, ip: Ipv4Addr, vni2: u32, ip2: Ipv4Addr)
    requires
        port_id_text(vni, ip) == port_id_text(vni2, ip2),
    ensures
        vni == vni2,
        ip == ip2,
{
    let d = crate::text::decimal(vni as nat);
    let d2 = crate::text::decimal(vni2 as nat);
    let s = port_id_text(vni, ip);
    let s2 = port_id_text(vni2, ip2);
    decimal_digits(vni as nat);
    decimal_digits(vni2 as nat);
    reveal_strlit("port-");
    reveal_strlit("-");
    let p = "port-"@;
    assert(s[5 + d.len() as int] == '-');
    assert(s2[5 + d2.len() as int] == '-');
    if d.len() < d2.len() {
        assert(s2[5 + d.len() as int] == d2[d.len() as int]);
    }
    if d2.len() < d.len() {
        assert(s[5 + d2.len() as int] == d[d2.len() as int]);
    }
    assert(d.len() == d2.len());
    assert forall|k: int| 0 <= k < d.len() implies d[k] == d2[k] by {
        assert(s[5 + k] == d[k] && s2[5 + k] == d2[k]);
    }
    assert(d =~= d2);
    let a = ipv4_text(ip);
    let b = ipv4_text(ip2);
    assert(s.len() == 6 + d.len() + a.len());
    assert(s2.len() == 6 + d2.len() + b.len());
    assert forall|k: int| 0 <= k < a.len() implies a[k] == b[k] by {
        assert(s[6 + d.len() + k] == a[k] && s2[6 + d.len() + k] == b[k]);
    }
    assert(a =~= b);
    ipv4_text_injective(ip, ip2);
}

/// In a well-formed fabric no two ports share an id.
pub proof fn port_ids_differ(t: TopologyView, i: int, j: int)
    requires
        t.wf(),
        0 <= i < t.ports.len(),
        0 <= j < t.ports.len(),
        i != j,
    ensures
        t.ports[i].id != t.ports[j].id,
{
    let p = t.ports[i];
    let q = t.ports[j];
    if p.id == q.id {
        assert(p.id == port_id_text(p.vni, p.ip) && q.id == port_id_text(q.vni, q.ip));
        port_id_injective(p.vni, p.ip, q.vni, q.ip);
        if i < j {
            assert(!(t.ports[i].vni == t.ports[j].vni && t.ports[i].ip == t.ports[j].ip));
        } else {
            assert(!(t.ports[j].vni == t.ports[i].vni && t.ports[j].ip == t.ports[i].ip));
        }
    }
}

// ---------------------------------------------------------------------------
// Derivation
// ---------------------------------------------------------------------------

/// A host gets tunnels only for networks that it has a port on.
pub proof fn tunnel_implies_local_port(t: TopologyView, id: Seq<char>, e: TunnelCfgView)
    requires
        t.derived(id).tunnels.contains(e),
    ensures
        exists|i: int|
            0 <= i < t.ports.len() && (#[trigger] t.ports[i]).host == id && t.ports[i].vni == e.vni,
{
    let f = t.tunnel_if_peer(id);
    flat_contains(t.ports, f, e);
    let i = choose|i: int| 0 <= i < t.ports.len() && f(#[trigger] t.ports[i]).contains(e);
    local_vni_has_port(t, id, t.ports[i].vni);
}

/// The entries of a host's own port: its interface, with the policy that applies to it.
pub proof fn local_port_gets_interface(t: TopologyView, i: int)
    requires
        0 <= i < t.ports.len(),
    ensures
        t.derived(t.ports[i].host).interfaces.contains(
            InterfaceFileView {
                name: t.ports[i].tap,
                policy: t.ports[i].effective_policy(),
                vni: Some(t.ports[i].vni),
                masquerade: false,
            },
        ),
{
    let p = t.ports[i];
    let e = InterfaceFileView {
        name: p.tap,
        policy: p.effective_policy(),
        vni: Some(p.vni),
        masquerade: false,
    };
    let f = interface_if_local(p.host);
    assert(f(t.ports[i])[0] == e);
    assert(f(t.ports[i]).contains(e));
    flat_contains(t.ports, f, e);
}

/// A port is reachable from every other host on its network: that host has a tunnel to the endpoint
/// of the port's host, and answers ARP for the port.
pub proof fn peer_gets_tunnel(t: TopologyView, id: Seq<char>, i: int, k: int)
    requires
        0 <= i < t.ports.len(),
        0 <= k < t.ports.len(),
        t.ports[k].host == id,
        t.ports[i].host != id,
        t.ports[i].vni == t.ports[k].vni,
    ensures
        t.derived(id).tunnels.contains(
            TunnelCfgView {
                vni: t.ports[i].vni,
                inner_dst: ipv4_text(t.ports[i].ip) + "/32"@,
                remote_vtep: ipv4_text(t.hosts[t.ports[i].host].vtep_ip),
                via_mac: mac_text(t.hosts[t.ports[i].host].underlay_mac),
                out_iface: t.hosts[id].underlay_iface,
            },
        ),
        t.derived(id).neighbors.contains(
            NeighborCfgView {
                vni: t.ports[i].vni,
                ip: ipv4_text(t.ports[i].ip),
                mac: mac_text(t.ports[i].mac),
            },
        ),
{
    let p = t.ports[i];
    local_vni_has_port(t, id, p.vni);
    let q = t.ports[k];
    assert(q.host == id && q.vni == p.vni);
    assert(t.is_peer(id, p));
    let ft = t.tunnel_if_peer(id);
    let fnb = t.neighbor_if_peer(id);
    let e = ft(p)[0];
    let n = fnb(p)[0];
    assert(ft(t.ports[i]).contains(e));
    assert(fnb(t.ports[i]).contains(n));
    flat_contains(t.ports, ft, e);
    flat_contains(t.ports, fnb, n);
}

/// After a port is removed no host has a tunnel or an ARP entry for its address.
pub proof fn removed_port_is_withdrawn(t: TopologyView, i: int, id: Seq<char>)
    requires
        t.wf(),
        0 <= i < t.ports.len(),
    ensures
        forall|e: TunnelCfgView| #[trigger]
            t.remove_port(t.ports[i].id).derived(id).tunnels.contains(e) ==> !(e.vni
                == t.ports[i].vni && e.inner_dst == ipv4_text(t.ports[i].ip) + "/32"@),
        forall|e: NeighborCfgView| #[trigger]
            t.remove_port(t.ports[i].id).derived(id).neighbors.contains(e) ==> !(e.vni
                == t.ports[i].vni && e.ip == ipv4_text(t.ports[i].ip)),
        forall|e: InterfaceFileView| #[trigger]
            t.remove_port(t.ports[i].id).derived(t.ports[i].host).interfaces.contains(e) ==> e.name
                != t.ports[i].tap,
{
    let p = t.ports[i];
    let u = t.remove_port(p.id);
    kept_port_was_there(t.ports, p.id);
    assert forall|e: TunnelCfgView| #[trigger] u.derived(id).tunnels.contains(e) implies !(e.vni
        == p.vni && e.inner_dst == ipv4_text(p.ip) + "/32"@) by {
        let f = u.tunnel_if_peer(id);
        flat_contains(u.ports, f, e);
        let k = choose|k: int| 0 <= k < u.ports.len() && f(#[trigger] u.ports[k]).contains(e);
        let j = choose|j: int|
            k <= j < t.ports.len() && u.ports[k] == #[trigger] t.ports[j] && t.ports[j].id != p.id;
        if e.vni == p.vni && e.inner_dst == ipv4_text(p.ip) + "/32"@ {
            host_route_injective(u.ports[k].ip, p.ip);
            same_address_same_port(t, i, j);
        }
    }
    assert forall|e: NeighborCfgView| #[trigger] u.derived(id).neighbors.contains(e) implies !(
    e.vni == p.vni && e.ip == ipv4_text(p.ip)) by {
        let f = u.neighbor_if_peer(id);
        flat_contains(u.ports, f, e);
        let k = choose|k: int| 0 <= k < u.ports.len() && f(#[trigger] u.ports[k]).contains(e);
        let j = choose|j: int|
            k <= j < t.ports.len() && u.ports[k] == #[trigger] t.ports[j] && t.ports[j].id != p.id;
        if e.vni == p.vni && e.ip == ipv4_text(p.ip) {
            ipv4_text_injective(u.ports[k].ip, p.ip);
            same_address_same_port(t, i, j);
        }
    }
    assert forall|e: InterfaceFileView| #[trigger]
        u.derived(p.host).interfaces.contains(e) implies e.name != p.tap by {
        let f = interface_if_local(p.host);
        flat_contains(u.ports, f, e);
        let k = choose|k: int| 0 <= k < u.ports.len() && f(#[trigger] u.ports[k]).contains(e);
        let j = choose|j: int|
            k <= j < t.ports.len() && u.ports[k] == #[trigger] t.ports[j] && t.ports[j].id != p.id;
        if e.name == p.tap {
            if i < j {
                assert(!(t.ports[i].host == t.ports[j].host && t.ports[i].tap == t.ports[j].tap));
            } else if j < i {
                assert(!(t.ports[j].host == t.ports[i].host && t.ports[j].tap == t.ports[i].tap));
            }
        }
    }
}

proof fn same_address_same_port(t: TopologyView, i: int, j: int)
    requires
        t.wf(),
        0 <= i < t.ports.len(),
        0 <= j < t.ports.len(),
        t.ports[i].vni == t.ports[j].vni,
        t.ports[i].ip == t.ports[j].ip,
    ensures
        i == j,
{
    if i < j {
        assert(!(t.ports[i].vni == t.ports[j].vni && t.ports[i].ip == t.ports[j].ip));
    } else if j < i {
        assert(!(t.ports[j].vni == t.ports[i].vni && t.ports[j].ip == t.ports[i].ip));
    }
}

/// After a migration every host on the port's network other than the new one tunnels to the new
/// host's endpoint for the port's address.
pub proof fn migration_repoints_peers(
    t: TopologyView,
    id: Seq<char>,
    host: Seq<char>,
    tap: Seq<char>,
    peer: Seq<char>,
    k: int,
)
    requires
        t.migrate_port(id, host, tap).1 is Ok,
        peer != host,
        0 <= k < t.ports.len(),
        t.migrate_port(id, host, tap).0.ports[k].host == peer,
        t.migrate_port(id, host, tap).0.ports[k].vni == t.migrate_port(id, host, tap).1->Ok_0.vni,
    ensures
        ({
            let u = t.migrate_port(id, host, tap).0;
            let p = t.migrate_port(id, host, tap).1->Ok_0;
            u.derived(peer).tunnels.contains(
                TunnelCfgView {
                    vni: p.vni,
                    inner_dst: ipv4_text(p.ip) + "/32"@,
                    remote_vtep: ipv4_text(t.hosts[host].vtep_ip),
                    via_mac: mac_text(t.hosts[host].underlay_mac),
                    out_iface: t.hosts[peer].underlay_iface,
                },
            )
        }),
{
    migration_keeps_identity(t, id, host, tap);
    let u = t.migrate_port(id, host, tap).0;
    let m = first_index(t.ports, with_id(id));
    peer_gets_tunnel(u, peer, m, k);
}

proof fn network_policies(t: TopologyView, vnis: Seq<u32>)
    requires
        t.keys_match(),
        forall|i: int| 0 <= i < vnis.len() ==> t.networks.dom().contains(#[trigger] vnis[i]),
    ensures
        flat(vnis, t.policy_of_network()).len() == vnis.len(),
        forall|i: int|
            0 <= i < vnis.len() ==> (#[trigger] flat(vnis, t.policy_of_network())[i]).id == vnis[i],
    decreases vnis.len(),
{
    if vnis.len() > 0 {
        let rest = vnis.drop_last();
        assert forall|i: int| 0 <= i < rest.len() implies t.networks.dom().contains(
            #[trigger] rest[i],
        ) by {
            assert(rest[i] == vnis[i]);
        }
        network_policies(t, rest);
        let l = flat(rest, t.policy_of_network());
        let all = flat(vnis, t.policy_of_network());
        assert(t.networks.dom().contains(vnis[vnis.len() - 1]));
        assert forall|i: int| 0 <= i < vnis.len() implies (#[trigger] all[i]).id == vnis[i] by {
            if i < rest.len() {
                assert(all[i] == l[i] && rest[i] == vnis[i]);
            }
        }
    }
}

proof fn group_policies(t: TopologyView, pids: Seq<u32>)
    requires
        t.wf(),
        increasing(pids),
    ensures
        ({
            let s = flat(pids, t.policy_of_group());
            &&& forall|i: int| 0 <= i < s.len() ==> pids.contains((#[trigger] s[i]).id)
            &&& forall|i: int, j: int|
                0 <= i < j < s.len() ==> (#[trigger] s[i]).id < (#[trigger] s[j]).id
        }),
    decreases pids.len(),
{
    if pids.len() > 0 {
        let rest = pids.drop_last();
        group_policies(t, rest);
        let l = flat(rest, t.policy_of_group());
        let s = flat(pids, t.policy_of_group());
        let last = pids.last();
        let r = t.policy_of_group()(last);
        assert(s == l + r);
        if t.has_group_of(last) {
            let name = choose|name: Seq<char>| t.is_group_of(last, name);
            assert(t.is_group_of(last, name));
            assert(t.security_groups.dom().contains(name));
            assert(r.len() == 1 && r[0].id == last);
        } else {
            assert(r.len() == 0);
        }
        assert forall|i: int| 0 <= i < s.len() implies pids.contains((#[trigger] s[i]).id) by {
            if i < l.len() {
                assert(s[i] == l[i]);
                let k = choose|k: int| 0 <= k < rest.len() && rest[k] == l[i].id;
                assert(pids[k] == s[i].id);
            } else {
                assert(pids[pids.len() - 1] == s[i].id);
            }
        }
        assert forall|i: int, j: int| 0 <= i < j < s.len() implies (#[trigger] s[i]).id < (
        #[trigger] s[j]).id by {
            assert(s[i] == l[i]);
            if j < l.len() {
                assert(s[j] == l[j]);
            } else {
                let k = choose|k: int| 0 <= k < rest.len() && rest[k] == l[i].id;
                assert(pids[k] < pids[pids.len() - 1]);
            }
        }
    }
}

/// A derived configuration holds each policy once, however many ports use it.
pub proof fn policies_are_distinct(t: TopologyView, id: Seq<char>)
    requires
        t.wf(),
    ensures
        forall|i: int, j: int|
            0 <= i < j < t.derived(id).policies.len() ==> (#[trigger] t.derived(id).policies[i]).id
                != (#[trigger] t.derived(id).policies[j]).id,
{
    let vnis = t.local_vnis(id);
    let pids = t.local_policies(id);
    let fp = policy_if_local(id, vnis);
    sorted_set_properties(flat(t.ports, crate::orchestrator::vni_if_local(id)));
    sorted_set_properties(flat(t.ports, fp));
    assert forall|i: int| 0 <= i < vnis.len() implies t.networks.dom().contains(
        #[trigger] vnis[i],
    ) by {
        assert(vnis.contains(vnis[i]));
        local_vni_has_port(t, id, vnis[i]);
    }
    network_policies(t, vnis);
    group_policies(t, pids);
    let a = flat(vnis, t.policy_of_network());
    let b = flat(pids, t.policy_of_group());
    let all = t.derived(id).policies;
    assert(all == a + b);
    assert forall|i: int, j: int| 0 <= i < j < all.len() implies (#[trigger] all[i]).id != (
    #[trigger] all[j]).id by {
        if j < a.len() {
            assert(all[i] == a[i] && all[j] == a[j]);
            assert(vnis[i] < vnis[j]);
        } else if i < a.len() {
            assert(all[i] == a[i] && all[j] == b[j - a.len()]);
            let pid = all[j].id;
            assert(pids.contains(pid));
            assert(flat(t.ports, fp).contains(pid));
            flat_contains(t.ports, fp, pid);
            let k = choose|k: int| 0 <= k < t.ports.len()
                && fp(#[trigger] t.ports[k]).contains(pid);
            assert(!vnis.contains(pid));
            assert(vnis.contains(vnis[i]));
        } else {
            assert(all[i] == b[i - a.len()] && all[j] == b[j - a.len()]);
        }
    }
}

/// The policy of a port resolves: a port without a policy of its own has its network's, and a port
/// bound to a group has the group's rule set, under the group's policy id.
pub proof fn port_policy_resolves(t: TopologyView, i: int)
    requires
        t.wf(),
        0 <= i < t.ports.len(),
    ensures
        t.ports[i].policy is None ==> t.derived(t.ports[i].host).policies.contains(
            network_policy(t.networks[t.ports[i].vni]),
        ),
        forall|name: Seq<char>| #[trigger]
            t.security_groups.dom().contains(name) && t.ports[i].policy == Some(policy_id_of(name))
                ==> t.derived(t.ports[i].host).policies.contains(
                group_policy(t.security_groups[name]),
            ),
{
    let p = t.ports[i];
    let id = p.host;
    let vnis = t.local_vnis(id);
    let pids = t.local_policies(id);
    let a = flat(vnis, t.policy_of_network());
    let b = flat(pids, t.policy_of_group());
    let all = t.derived(id).policies;
    assert(all == a + b);
    local_vni_has_port(t, id, p.vni);
    assert(vnis.contains(p.vni));
    if p.policy is None {
        let e = network_policy(t.networks[p.vni]);
        let k = choose|k: int| 0 <= k < vnis.len() && vnis[k] == p.vni;
        assert(t.policy_of_network()(vnis[k])[0] == e);
        assert(t.policy_of_network()(vnis[k]).contains(e));
        flat_contains(vnis, t.policy_of_network(), e);
        let m = choose|m: int| 0 <= m < a.len() && a[m] == e;
        assert(all[m] == e);
    }
    assert forall|name: Seq<char>| #[trigger]
        t.security_groups.dom().contains(name) && p.policy == Some(
            policy_id_of(name),
        ) implies all.contains(group_policy(t.security_groups[name])) by {
        let pid = policy_id_of(name);
        let e = group_policy(t.security_groups[name]);
        let fp = policy_if_local(id, vnis);
        assert(!vnis.contains(pid)) by {
            if vnis.contains(pid) {
                local_vni_has_port(t, id, pid);
                let k = choose|k: int|
                    0 <= k < t.ports.len() && (#[trigger] t.ports[k]).host == id && t.ports[k].vni
                        == pid;
                assert(t.networks.dom().contains(t.ports[k].vni));
            }
        }
        assert(fp(t.ports[i])[0] == pid);
        assert(fp(t.ports[i]).contains(pid));
        flat_contains(t.ports, fp, pid);
        sorted_set_properties(flat(t.ports, fp));
        assert(pids.contains(pid));
        assert(t.is_group_of(pid, name));
        let picked = choose|n: Seq<char>| t.is_group_of(pid, n);
        assert(t.security_groups.dom().contains(picked));
        assert(picked == name);
        let k = choose|k: int| 0 <= k < pids.len() && pids[k] == pid;
        assert(t.policy_of_group()(pids[k])[0] == e);
        assert(t.policy_of_group()(pids[k]).contains(e));
        flat_contains(pids, t.policy_of_group(), e);
        let m = choose|m: int| 0 <= m < b.len() && b[m] == e;
        assert(all[a.len() + m] == e);
    }
}

// ---------------------------------------------------------------------------
// What a host's configuration holds, field by field
// ---------------------------------------------------------------------------

/// A port bound to a security group gets the group's rule set: the configuration of the port's host
/// holds one policy under the group's id, and it has the group's name, default action, ICMP setting,
/// statefulness, blocklist and rules.
pub proof fn group_policy_reaches_bound_port(t: TopologyView, i: int, name: Seq<char>)
    requires
        t.wf(),
        0 <= i < t.ports.len(),
        t.security_groups.dom().contains(name),
        t.ports[i].policy == Some(policy_id_of(name)),
    ensures
        exists|k: int|
            0 <= k < t.derived(t.ports[i].host).policies.len() && (#[trigger] t.derived(
                t.ports[i].host,
            ).policies[k]).id == t.ports[i].policy->0,
        forall|k: int|
            0 <= k < t.derived(t.ports[i].host).policies.len() && (#[trigger] t.derived(
                t.ports[i].host,
            ).policies[k]).id == t.ports[i].policy->0 ==> {
                let p = t.derived(t.ports[i].host).policies[k];
                let g = t.security_groups[name];
                &&& p.name == Some(name)
                &&& p.default_action == g.default_action
                &&& p.drop_icmp == g.drop_icmp
                &&& p.stateful == g.stateful
                &&& p.blocklist == g.blocklist
                &&& p.port_rules == g.rules
                &&& !p.log
            },
{
    let id = t.ports[i].host;
    let all = t.derived(id).policies;
    port_policy_resolves(t, i);
    policies_are_distinct(t, id);
    let e = group_policy(t.security_groups[name]);
    assert(t.security_groups[name].name == name);
    assert(all.contains(e));
    let k = choose|k: int| 0 <= k < all.len() && all[k] == e;
    assert(all[k].id == t.ports[i].policy->0);
    assert forall|m: int|
        0 <= m < all.len() && (#[trigger] all[m]).id == t.ports[i].policy->0 implies all[m] == e by {
        if m < k {
            assert(all[m].id != all[k].id);
        } else if k < m {
            assert(all[k].id != all[m].id);
        }
    }
}

/// A port's network is enforced where the port is: the configuration of its host holds one policy
/// under the VNI, with the network's name, default action and ICMP setting, stateless and with no
/// rules of its own.
pub proof fn network_policy_reaches_port(t: TopologyView, i: int)
    requires
        t.wf(),
        0 <= i < t.ports.len(),
    ensures
        exists|k: int|
            0 <= k < t.derived(t.ports[i].host).policies.len() && (#[trigger] t.derived(
                t.ports[i].host,
            ).policies[k]).id == t.ports[i].vni,
        forall|k: int|
            0 <= k < t.derived(t.ports[i].host).policies.len() && (#[trigger] t.derived(
                t.ports[i].host,
            ).policies[k]).id == t.ports[i].vni ==> {
                let p = t.derived(t.ports[i].host).policies[k];
                let n = t.networks[t.ports[i].vni];
                &&& p.name == Some(n.name)
                &&& p.default_action == n.default_action
                &&& p.drop_icmp == n.drop_icmp
                &&& !p.stateful
                &&& !p.log
                &&& p.blocklist.len() == 0
                &&& p.port_rules.len() == 0
            },
{
    let p = t.ports[i];
    let id = p.host;
    let vnis = t.local_vnis(id);
    let a = flat(vnis, t.policy_of_network());
    let all = t.derived(id).policies;
    policies_are_distinct(t, id);
    local_vni_has_port(t, id, p.vni);
    let e = network_policy(t.networks[p.vni]);
    let j = choose|j: int| 0 <= j < vnis.len() && vnis[j] == p.vni;
    assert(t.policy_of_network()(vnis[j])[0] == e);
    assert(t.policy_of_network()(vnis[j]).contains(e));
    flat_contains(vnis, t.policy_of_network(), e);
    let k = choose|k: int| 0 <= k < a.len() && a[k] == e;
    assert(all[k] == e);
    assert(t.networks.dom().contains(p.vni));
    assert(all[k].id == p.vni);
    assert forall|m: int| 0 <= m < all.len() && (#[trigger] all[m]).id == p.vni implies all[m]
        == e by {
        if m < k {
            assert(all[m].id != all[k].id);
        } else if k < m {
            assert(all[k].id != all[m].id);
        }
    }
}

/// A host is told of no more policies than its ports need: each is that of a network that one of its
/// ports is on, or of a group that one of its ports is bound to.
pub proof fn policy_is_needed(t: TopologyView, id: Seq<char>, k: int)
    requires
        t.wf(),
        0 <= k < t.derived(id).policies.len(),
    ensures
        exists|i: int|
            0 <= i < t.ports.len() && (#[trigger] t.ports[i]).host == id && (t.ports[i].vni
                == t.derived(id).policies[k].id || t.ports[i].policy == Some(
                t.derived(id).policies[k].id,
            )),
{
    let vnis = t.local_vnis(id);
    let pids = t.local_policies(id);
    let a = flat(vnis, t.policy_of_network());
    let b = flat(pids, t.policy_of_group());
    let all = t.derived(id).policies;
    let e = all[k];
    if k < a.len() {
        assert(a[k] == e);
        assert(a.contains(e));
        flat_contains(vnis, t.policy_of_network(), e);
        let j = choose|j: int|
            0 <= j < vnis.len() && t.policy_of_network()(#[trigger] vnis[j]).contains(e);
        assert(vnis.contains(vnis[j]));
        local_vni_has_port(t, id, vnis[j]);
        assert(t.networks.dom().contains(vnis[j]));
    } else {
        let fp = policy_if_local(id, vnis);
        sorted_set_properties(flat(t.ports, fp));
        group_policies(t, pids);
        assert(b[k - a.len()] == e);
        assert(pids.contains(e.id));
        flat_contains(t.ports, fp, e.id);
        let i = choose|i: int| 0 <= i < t.ports.len() && fp(#[trigger] t.ports[i]).contains(e.id);
        assert(t.ports[i].host == id);
    }
}

/// A host's interfaces are those of its ports and no others: each is bound to its port's network,
/// under the policy set on the port, or else the network's, and is not masqueraded.
pub proof fn interfaces_are_those_of_ports(t: TopologyView, id: Seq<char>, e: InterfaceFileView)
    ensures
        t.derived(id).interfaces.contains(e) <==> exists|i: int|
            {
                &&& 0 <= i < t.ports.len()
                &&& (#[trigger] t.ports[i]).host == id
                &&& e.name == t.ports[i].tap
                &&& e.vni == Some(t.ports[i].vni)
                &&& t.ports[i].policy is Some ==> e.policy == t.ports[i].policy->0
                &&& t.ports[i].policy is None ==> e.policy == t.ports[i].vni
                &&& !e.masquerade
            },
{
    let f = interface_if_local(id);
    flat_contains(t.ports, f, e);
    if t.derived(id).interfaces.contains(e) {
        let i = choose|i: int| 0 <= i < t.ports.len() && f(#[trigger] t.ports[i]).contains(e);
        assert(t.ports[i].host == id);
    }
    if exists|i: int|
        {
            &&& 0 <= i < t.ports.len()
            &&& (#[trigger] t.ports[i]).host == id
            &&& e.name == t.ports[i].tap
            &&& e.vni == Some(t.ports[i].vni)
            &&& t.ports[i].policy is Some ==> e.policy == t.ports[i].policy->0
            &&& t.ports[i].policy is None ==> e.policy == t.ports[i].vni
            &&& !e.masquerade
        } {
        let i = choose|i: int|
            {
                &&& 0 <= i < t.ports.len()
                &&& (#[trigger] t.ports[i]).host == id
                &&& e.name == t.ports[i].tap
                &&& e.vni == Some(t.ports[i].vni)
                &&& t.ports[i].policy is Some ==> e.policy == t.ports[i].policy->0
                &&& t.ports[i].policy is None ==> e.policy == t.ports[i].vni
                &&& !e.masquerade
            };
        assert(f(t.ports[i])[0] == e);
        assert(f(t.ports[i]).contains(e));
    }
}

/// A host's tunnels lead to the ports of other hosts on its networks and nowhere else: each to the
/// port's address, toward the endpoint and the underlay MAC of the port's host, over the host's own
/// underlay interface.
pub proof fn tunnels_lead_to_peers(t: TopologyView, id: Seq<char>, e: TunnelCfgView)
    ensures
        t.derived(id).tunnels.contains(e) <==> exists|i: int, k: int|
            {
                &&& 0 <= i < t.ports.len()
                &&& 0 <= k < t.ports.len()
                &&& (#[trigger] t.ports[i]).host != id
                &&& (#[trigger] t.ports[k]).host == id
                &&& t.ports[k].vni == t.ports[i].vni
                &&& e.vni == t.ports[i].vni
                &&& e.inner_dst == ipv4_text(t.ports[i].ip) + "/32"@
                &&& e.remote_vtep == ipv4_text(t.hosts[t.ports[i].host].vtep_ip)
                &&& e.via_mac == mac_text(t.hosts[t.ports[i].host].underlay_mac)
                &&& e.out_iface == t.hosts[id].underlay_iface
            },
{
    let f = t.tunnel_if_peer(id);
    flat_contains(t.ports, f, e);
    if t.derived(id).tunnels.contains(e) {
        let i = choose|i: int| 0 <= i < t.ports.len() && f(#[trigger] t.ports[i]).contains(e);
        assert(t.is_peer(id, t.ports[i]));
        local_vni_has_port(t, id, t.ports[i].vni);
        let k = choose|k: int|
            0 <= k < t.ports.len() && (#[trigger] t.ports[k]).host == id && t.ports[k].vni
                == t.ports[i].vni;
        assert(t.ports[k].host == id && t.ports[i].host != id);
    }
    assert forall|i: int, k: int|
        {
            &&& 0 <= i < t.ports.len()
            &&& 0 <= k < t.ports.len()
            &&& (#[trigger] t.ports[i]).host != id
            &&& (#[trigger] t.ports[k]).host == id
            &&& t.ports[k].vni == t.ports[i].vni
            &&& e.vni == t.ports[i].vni
            &&& e.inner_dst == ipv4_text(t.ports[i].ip) + "/32"@
            &&& e.remote_vtep == ipv4_text(t.hosts[t.ports[i].host].vtep_ip)
            &&& e.via_mac == mac_text(t.hosts[t.ports[i].host].underlay_mac)
            &&& e.out_iface == t.hosts[id].underlay_iface
        } implies t.derived(id).tunnels.contains(e) by {
        local_vni_has_port(t, id, t.ports[i].vni);
        assert(t.is_peer(id, t.ports[i]));
        assert(f(t.ports[i])[0] == e);
        assert(f(t.ports[i]).contains(e));
    }
}

/// A host answers ARP for the ports of other hosts on its networks and for nothing else: with each
/// port's own address and MAC.
pub proof fn neighbours_are_peers(t: TopologyView, id: Seq<char>, e: NeighborCfgView)
    ensures
        t.derived(id).neighbors.contains(e) <==> exists|i: int, k: int|
            {
                &&& 0 <= i < t.ports.len()
                &&& 0 <= k < t.ports.len()
                &&& (#[trigger] t.ports[i]).host != id
                &&& (#[trigger] t.ports[k]).host == id
                &&& t.ports[k].vni == t.ports[i].vni
                &&& e.vni == t.ports[i].vni
                &&& e.ip == ipv4_text(t.ports[i].ip)
                &&& e.mac == mac_text(t.ports[i].mac)
            },
{
    let f = t.neighbor_if_peer(id);
    flat_contains(t.ports, f, e);
    if t.derived(id).neighbors.contains(e) {
        let i = choose|i: int| 0 <= i < t.ports.len() && f(#[trigger] t.ports[i]).contains(e);
        assert(t.is_peer(id, t.ports[i]));
        local_vni_has_port(t, id, t.ports[i].vni);
        let k = choose|k: int|
            0 <= k < t.ports.len() && (#[trigger] t.ports[k]).host == id && t.ports[k].vni
                == t.ports[i].vni;
        assert(t.ports[k].host == id && t.ports[i].host != id);
    }
    assert forall|i: int, k: int|
        {
            &&& 0 <= i < t.ports.len()
            &&& 0 <= k < t.ports.len()
            &&& (#[trigger] t.ports[i]).host != id
            &&& (#[trigger] t.ports[k]).host == id
            &&& t.ports[k].vni == t.ports[i].vni
            &&& e.vni == t.ports[i].vni
            &&& e.ip == ipv4_text(t.ports[i].ip)
            &&& e.mac == mac_text(t.ports[i].mac)
        } implies t.derived(id).neighbors.contains(e) by {
        local_vni_has_port(t, id, t.ports[i].vni);
        assert(t.is_peer(id, t.ports[i]));
        assert(f(t.ports[i])[0] == e);
        assert(f(t.ports[i]).contains(e));
    }
}

/// The rest of a host's configuration: its endpoint as it was registered, traffic without a policy
/// passes, and nothing else is set.
pub proof fn endpoint_is_that_of_host(t: TopologyView, id: Seq<char>)
    ensures
        ({
            let c = t.derived(id);
            let h = t.hosts[id];
            &&& c.overlay matches Some(o) && {
                &&& o.local_vtep == ipv4_text(h.vtep_ip)
                &&& o.underlay_iface == h.underlay_iface
                &&& o.encap == h.encap
                &&& o.udp_port == h.udp_port
                &&& o.local_mac is None
                &&& o.underlay_mtu == h.underlay_mtu
            }
            &&& c.default_action == ActionName::Pass
            &&& c.blocklist.len() == 0
            &&& c.srv6 is None
            &&& c.nd_neighbors.len() == 0
            &&& c.mac_routes.len() == 0
            &&& c.flood_vteps.len() == 0
            &&& c.irb_routes.len() == 0
            &&& c.srv6_routes.len() == 0
            &&& c.srv6_floods.len() == 0
            &&& c.srv6_local_sids.len() == 0
            &&& c.srv6_irb_routes.len() == 0
            &&& c.services.len() == 0
        }),
{
}

/// A host learns of each port once: it has no more interfaces, tunnels and ARP entries than the
/// fabric has ports.
pub proof fn one_entry_per_port(t: TopologyView, id: Seq<char>)
    ensures
        t.derived(id).interfaces.len() + t.derived(id).tunnels.len() <= t.ports.len(),
        t.derived(id).neighbors.len() == t.derived(id).tunnels.len(),
{
    entries_counted(t, id, t.ports);
}

proof fn entries_counted(t: TopologyView, id: Seq<char>, s: Seq<PortView>)
    ensures
        flat(s, interface_if_local(id)).len() + flat(s, t.tunnel_if_peer(id)).len() <= s.len(),
        flat(s, t.neighbor_if_peer(id)).len() == flat(s, t.tunnel_if_peer(id)).len(),
    decreases s.len(),
{
    if s.len() > 0 {
        entries_counted(t, id, s.drop_last());
    }
}

/// A port is created exactly where its network and host exist, no port has the interface, and an
/// address can be had: the requested one, in the subnet and unused; or, without a request, some
/// address between the first and the last of the subnet that no port has. It stands behind the other
/// ports, has what was asked for, and a MAC address of `02:00` and the address where none was given.
pub proof fn port_is_created_where_it_can_be(
    t: TopologyView,
    vni: u32,
    host: Seq<char>,
    tap: Seq<char>,
    requested: Option<Ipv4Addr>,
    policy: Option<u32>,
    mac: Option<[u8; 6]>,
)
    requires
        t.wf(),
    ensures
        t.create_port(vni, host, tap, requested, policy, mac).1 is Ok <==> t.networks.dom().contains(
            vni,
        ) && t.hosts.dom().contains(host) && (forall|i: int|
            0 <= i < t.ports.len() ==> (#[trigger] t.ports[i]).host != host || t.ports[i].tap
                != tap) && match requested {
            Some(a) => t.networks[vni].subnet.contains(a) && unused_on(t, vni, a.bits as int),
            None => exists|a: int|
                t.networks[vni].subnet.base() < a < t.networks[vni].subnet.base()
                    + t.networks[vni].subnet.span() - 1 && #[trigger] unused_on(t, vni, a),
        },
        t.create_port(vni, host, tap, requested, policy, mac).1 matches Ok(p) ==> {
            let u = t.create_port(vni, host, tap, requested, policy, mac).0;
            let subnet = t.networks[vni].subnet;
            &&& u.ports == t.ports.push(p)
            &&& u.hosts == t.hosts && u.networks == t.networks
            &&& u.security_groups == t.security_groups
            &&& p.vni == vni
            &&& p.host == host
            &&& p.tap == tap
            &&& p.policy == policy
            &&& p.id == "port-"@ + decimal(vni as nat) + "-"@ + ipv4_text(p.ip)
            &&& mac matches Some(m) ==> p.mac == m
            &&& mac is None ==> {
                &&& p.mac[0] == 2 && p.mac[1] == 0
                &&& p.mac[2] * 0x100_0000 + p.mac[3] * 0x1_0000 + p.mac[4] * 0x100 + p.mac[5]
                    == p.ip.bits
            }
            &&& unused_on(t, vni, p.ip.bits as int)
            &&& requested matches Some(a) ==> p.ip == a
            &&& requested is None ==> {
                &&& subnet.base() < p.ip.bits < subnet.base() + subnet.span() - 1
                &&& forall|a: int|
                    subnet.base() < a < p.ip.bits ==> !#[trigger] unused_on(t, vni, a)
            }
        },
        t.create_port(vni, host, tap, requested, policy, mac).1 is Err ==> t.create_port(
            vni,
            host,
            tap,
            requested,
            policy,
            mac,
        ).0 == t,
{
    let f = at_tap(host, tap);
    first_index_properties(t.ports, f);
    let k = first_index(t.ports, f);
    if k < t.ports.len() {
        assert(t.ports[k].host == host && t.ports[k].tap == tap);
    } else {
        assert forall|i: int| 0 <= i < t.ports.len() implies (#[trigger] t.ports[i]).host != host
            || t.ports[i].tap != tap by {
            assert(!f(t.ports[i]));
        }
    }
    if t.networks.dom().contains(vni) {
        let subnet = t.networks[vni].subnet;
        assert(subnet.valid());
        lowest_free_properties(t.ports, vni, subnet.base(), 1, subnet.span());
        assert forall|a: int| #[trigger] unused_on(t, vni, a) == !any_port(
            t.ports,
            at_address(vni, a),
        ) by {
            unused_is_not_found(t, vni, a);
        }
        created_port_properties(t, vni, host, tap, requested, policy, mac);
        let step = t.create_port(vni, host, tap, requested, policy, mac);
        if let Ok(p) = step.1 {
            crate::addr::octets_recombine(p.ip.bits);
            assert(unused_on(t, vni, p.ip.bits as int));
        }
        if requested is None && step.1 is Err && k >= t.ports.len() && t.hosts.dom().contains(
            host,
        ) {
            assert forall|a: int| subnet.base() < a < subnet.base() + subnet.span()
                - 1 implies !#[trigger] unused_on(t, vni, a) by {
                if subnet.span() >= 3 {
                    let g = at_address(vni, a);
                    unused_is_not_found(t, vni, a);
                }
            }
        }
    }
}

} // verus!
