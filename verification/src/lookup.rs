//! What is looked up for a frame: the keys under which a host's tables are asked, and what the
//! answers are computed from.

use vstd::prelude::*;

use crate::addr::Ipv4Addr;
use crate::datapath::{
    be16, flow_key, flow_of, get_mac, has_ports, mac_at, FlowKey, Packet, ETH_LEN, IPV6_LEN,
    O_IP6_DST, O_IP6_NEXT, O_IP6_SRC,
};
use crate::firewall::{ingress, ipv6_ports, policy_of, IngressAnswers, Next};
use crate::translation::{
    candidate, candidates_differ, chosen_port, chosen_port_is_free, lb_plan, masqueraded,
    masqueraded_reply, napt_port, napt_seed, records, seed_of, source, FlowState, LbAnswers, Target,
    NAPT_PROBES, ROUTER_NAT_POLICY,
};

verus! {

/// An address within a policy or a segment. The longest prefix that covers it counts.
#[derive(Clone, Copy, Debug, PartialEq, Eq, Structural)]
pub struct ScopedAddr {
    pub scope: u32,
    pub addr: Ipv4Addr,
}

/// The rule for a destination port and a source. The rule with the longest prefix that covers the
/// source counts.
#[derive(Clone, Copy, Debug, PartialEq, Eq, Structural)]
pub struct RuleKey {
    pub policy: u32,
    pub proto: u8,
    pub port: u16,
    pub src: Ipv4Addr,
}

/// A destination port within a policy.
#[derive(Clone, Copy, Debug, PartialEq, Eq, Structural)]
pub struct PortKey {
    pub policy: u32,
    pub proto: u8,
    pub port: u16,
}

/// A service within a policy.
#[derive(Clone, Copy, Debug, PartialEq, Eq, Structural)]
pub struct ServiceKey {
    pub policy: u32,
    pub vip: Ipv4Addr,
    pub port: u16,
    pub proto: u8,
}

/// A MAC address within a segment.
#[derive(Clone, Copy, Debug, PartialEq, Eq)]
pub struct MacKey {
    pub vni: u32,
    pub mac: [u8; 6],
}

// ---------------------------------------------------------------------------
// Packets that come in
// ---------------------------------------------------------------------------

/// What is asked for an IPv4 packet that comes in.
#[derive(Clone, Copy, Debug, PartialEq, Eq, Structural)]
pub struct IngressKeys {
    /// Whether it is the overlay's.
    pub overlay_port: u16,
    /// Whether it is the endpoint of a peer.
    pub vtep: Ipv4Addr,
    pub blocklist: ScopedAddr,
    pub rule: RuleKey,
    pub port_forward: PortKey,
    pub flow: FlowKey,
}

/// What is asked for a packet that comes in under a policy: the blocklist and the rule go by its
/// source.
pub open spec fn ingress_asks(policy: u32, p: Packet) -> IngressKeys {
    IngressKeys {
        overlay_port: p.dst_port,
        vtep: p.src,
        blocklist: ScopedAddr { scope: policy, addr: p.src },
        rule: RuleKey { policy, proto: p.proto, port: p.dst_port, src: p.src },
        port_forward: PortKey { policy, proto: p.proto, port: p.dst_port },
        flow: flow_of(policy, p),
    }
}

/// Gives the keys for a packet that comes in.
pub fn ingress_keys(policy: u32, p: &Packet) -> (r: IngressKeys)
    ensures
        r == ingress_asks(policy, *p),
{
    IngressKeys {
        overlay_port: p.dst_port,
        vtep: p.src,
        blocklist: ScopedAddr { scope: policy, addr: p.src },
        rule: RuleKey { policy, proto: p.proto, port: p.dst_port, src: p.src },
        port_forward: PortKey { policy, proto: p.proto, port: p.dst_port },
        flow: flow_key(policy, p),
    }
}

/// What is asked for an IPv6 packet that comes in.
#[derive(Debug, PartialEq, Eq)]
pub struct Ipv6Keys {
    /// Whether it is a SID of this host, and whether it is translated.
    pub dst: Vec<u8>,
    /// Whether the policy's blocklist covers it.
    pub src: Vec<u8>,
    pub rule: RuleKey,
}

fn copy16(f: &Vec<u8>, at: usize) -> (r: Vec<u8>)
    requires
        at + 16 <= f.len(),
    ensures
        r@ == f@.subrange(at as int, at + 16),
{
    let mut t: Vec<u8> = Vec::new();
    for i in at..at + 16
        invariant
            at + 16 <= f@.len(),
            t@ == f@.subrange(at as int, i as int),
    {
        t.push(f[i]);
        assert(f@.subrange(at as int, i + 1) =~= f@.subrange(at as int, i as int).push(
            f@[i as int],
        ));
    }
    t
}

/// The destination port of an IPv6 packet, zero where it has none.
pub open spec fn port6(f: Seq<u8>) -> u16 {
    if has_ports(f[O_IP6_NEXT as int]) && f.len() >= ETH_LEN + IPV6_LEN + 4 {
        be16(f, ETH_LEN + IPV6_LEN + 2)
    } else {
        0
    }
}

/// Gives the keys for an IPv6 packet. Rules are for IPv4 sources, so that only those for any source
/// apply: the source that is asked for is zero.
pub fn ipv6_keys(policy: u32, frame: &Vec<u8>) -> (r: Option<Ipv6Keys>)
    ensures
        match r {
            Some(k) => {
                &&& frame@.len() >= ETH_LEN + IPV6_LEN
                &&& k.dst@ == frame@.subrange(O_IP6_DST as int, O_IP6_DST + 16)
                &&& k.src@ == frame@.subrange(O_IP6_SRC as int, O_IP6_SRC + 16)
                &&& k.rule == (RuleKey {
                    policy,
                    proto: frame@[O_IP6_NEXT as int],
                    port: port6(frame@),
                    src: Ipv4Addr { bits: 0 },
                })
            },
            None => frame@.len() < ETH_LEN + IPV6_LEN,
        },
{
    if frame.len() < ETH_LEN + IPV6_LEN {
        return None;
    }
    let (src_port, dst_port) = ipv6_ports(frame);
    Some(
        Ipv6Keys {
            dst: copy16(frame, O_IP6_DST),
            src: copy16(frame, O_IP6_SRC),
            rule: RuleKey {
                policy,
                proto: frame[O_IP6_NEXT],
                port: dst_port,
                src: Ipv4Addr { bits: 0 },
            },
        },
    )
}

// ---------------------------------------------------------------------------
// Packets that leave
// ---------------------------------------------------------------------------

/// What is asked for an IPv4 packet that leaves.
#[derive(Clone, Copy, Debug, PartialEq, Eq, Structural)]
pub struct EgressKeys {
    pub blocklist: ScopedAddr,
    pub rule: RuleKey,
}

/// What is asked for a packet that leaves: the blocklist goes by its destination.
pub open spec fn egress_asks(policy: u32, p: Packet) -> EgressKeys {
    EgressKeys {
        blocklist: ScopedAddr { scope: policy, addr: p.dst },
        rule: RuleKey { policy, proto: p.proto, port: p.dst_port, src: p.src },
    }
}

/// Gives the keys for a packet that leaves.
pub fn egress_keys(policy: u32, p: &Packet) -> (r: EgressKeys)
    ensures
        r == egress_asks(policy, *p),
{
    EgressKeys {
        blocklist: ScopedAddr { scope: policy, addr: p.dst },
        rule: RuleKey { policy, proto: p.proto, port: p.dst_port, src: p.src },
    }
}

/// The reply flows that are looked up for a masqueraded packet, one for each port that is tried.
pub open spec fn probes_asked(policy: u32, p: Packet, wan_ip: Ipv4Addr) -> Seq<FlowKey> {
    let seed = seed_of(p.src, p.dst, p.src_port, p.dst_port);
    Seq::new(
        NAPT_PROBES as nat,
        |i: int| masqueraded_reply(policy, p, wan_ip, candidate(seed, i as u16)),
    )
}

/// Gives the reply flows that are looked up for a masqueraded packet.
pub fn probe_keys(policy: u32, p: &Packet, wan_ip: Ipv4Addr) -> (r: Vec<FlowKey>)
    ensures
        r@ == probes_asked(policy, *p, wan_ip),
{
    let seed: u32 = napt_seed(p.src, p.dst, p.src_port, p.dst_port);
    let mut r: Vec<FlowKey> = Vec::new();
    for i in 0..NAPT_PROBES
        invariant
            seed == seed_of(p.src, p.dst, p.src_port, p.dst_port),
            r@.len() == i,
            forall|j: int| 0 <= j < i ==> r@[j] == probes_asked(policy, *p, wan_ip)[j],
    {
        r.push(
            FlowKey {
                policy,
                src: p.dst,
                dst: wan_ip,
                src_port: p.dst_port,
                dst_port: napt_port(seed, i),
                proto: p.proto,
            },
        );
    }
    assert(r@ =~= probes_asked(policy, *p, wan_ip));
    r
}

// ---------------------------------------------------------------------------
// Later stages
// ---------------------------------------------------------------------------

/// What is asked for a tenant's frame that may go to another host.
#[derive(Clone, Copy, Debug, PartialEq, Eq)]
pub struct EncapKeys {
    pub mac: MacKey,
    /// Asked only where nothing is found for the MAC address, and only for tunnels.
    pub address: ScopedAddr,
}

/// The entry for a frame's destination MAC address.
pub open spec fn mac_asked(vni: u32, f: Seq<u8>) -> MacKey {
    MacKey { vni, mac: mac_at(f, 0) }
}

/// Gives the key for a frame's destination MAC address.
pub fn mac_key(vni: u32, frame: &Vec<u8>) -> (r: Option<MacKey>)
    ensures
        r == if frame@.len() >= 6 {
            Some(mac_asked(vni, frame@))
        } else {
            None
        },
{
    if frame.len() < 6 {
        return None;
    }
    Some(MacKey { vni, mac: get_mac(frame, 0) })
}

/// Gives the keys for a tenant's frame that may go to another host.
pub fn encap_keys(vni: u32, frame: &Vec<u8>, p: &Packet) -> (r: Option<EncapKeys>)
    ensures
        r == if frame@.len() >= 6 {
            Some(
                EncapKeys {
                    mac: mac_asked(vni, frame@),
                    address: ScopedAddr { scope: vni, addr: p.dst },
                },
            )
        } else {
            None
        },
{
    match mac_key(vni, frame) {
        Some(mac) => Some(EncapKeys { mac, address: ScopedAddr { scope: vni, addr: p.dst } }),
        None => None,
    }
}

/// What is asked for a packet that may be for a service.
#[derive(Clone, Copy, Debug, PartialEq, Eq, Structural)]
pub struct BalanceKeys {
    pub flow: FlowKey,
    /// Asked only where nothing is tracked under the packet's policy.
    pub router_flow: Option<FlowKey>,
    pub service: ServiceKey,
}

/// What is asked for a packet that may be for a service. What port forwarding tracks is not asked
/// for a second time where the packet's policy is already the one that it is tracked under.
pub open spec fn balance_asks(policy: u32, p: Packet) -> BalanceKeys {
    BalanceKeys {
        flow: flow_of(policy, p),
        router_flow: if policy != ROUTER_NAT_POLICY {
            Some(flow_of(ROUTER_NAT_POLICY, p))
        } else {
            None
        },
        service: ServiceKey { policy, vip: p.dst, port: p.dst_port, proto: p.proto },
    }
}

/// Gives the keys for a packet that may be for a service.
pub fn balance_keys(policy: u32, p: &Packet) -> (r: BalanceKeys)
    ensures
        r == balance_asks(policy, *p),
{
    BalanceKeys {
        flow: flow_key(policy, p),
        router_flow: if policy != ROUTER_NAT_POLICY {
            Some(flow_key(ROUTER_NAT_POLICY, p))
        } else {
            None
        },
        service: ServiceKey { policy, vip: p.dst, port: p.dst_port, proto: p.proto },
    }
}

/// Gives the key of the flow that is looked up before a packet's port is forwarded.
pub fn port_forward_flow(p: &Packet) -> (r: FlowKey)
    ensures
        r == flow_of(ROUTER_NAT_POLICY, *p),
{
    flow_key(ROUTER_NAT_POLICY, p)
}

/// Gives the key of the route for a packet.
pub fn route_key(policy: u32, p: &Packet) -> (r: ScopedAddr)
    ensures
        r == (ScopedAddr { scope: policy, addr: p.dst }),
{
    ScopedAddr { scope: policy, addr: p.dst }
}

/// What the hash of a session is computed from: who it comes from, not whom it is for.
#[derive(Clone, Copy, Debug, PartialEq, Eq, Structural)]
pub struct SessionKey {
    pub src: Target,
    pub proto: u8,
}

/// Gives what the hash of a packet's session is computed from.
pub fn session_key(p: &Packet) -> (r: SessionKey)
    ensures
        r == (SessionKey { src: source(*p), proto: p.proto }),
{
    SessionKey { src: Target { ip: p.src, port: p.src_port }, proto: p.proto }
}

// ---------------------------------------------------------------------------
// Laws
// ---------------------------------------------------------------------------

/// What is remembered of an allowed packet is what is asked for the next packet of its flow; its
/// reverse is what is asked for the reply.
pub proof fn remembered_flow_is_asked(
    f: Seq<u8>,
    a: IngressAnswers,
    policy: u32,
    p: Packet,
    q: Packet,
)
    requires
        policy == policy_of(a.policy),
        ingress(f, a).remember is Some,
        ingress(f, a).next matches Next::Forward(s) && s.packet == p,
        q.src == p.dst,
        q.dst == p.src,
        q.src_port == p.dst_port,
        q.dst_port == p.src_port,
        q.proto == p.proto,
    ensures
        ingress(f, a).remember == Some(ingress_asks(policy, p).flow),
        ingress(f, a).remember->Some_0.reversed() == ingress_asks(policy, q).flow,
{
}

/// What is recorded of a new flow to a service is what is asked for the flow's next packet.
pub proof fn tracked_flow_is_asked(f: Seq<u8>, policy: u32, p: Packet, a: LbAnswers)
    requires
        lb_plan(f, policy, p, a) is New,
    ensures
        lb_plan(f, policy, p, a)->New_flow.forward_key == balance_asks(policy, p).flow,
{
}

/// A masqueraded flow is recorded under a reply flow that was looked up and found free or its own,
/// unless none was: then it keeps its port.
pub proof fn masqueraded_flow_was_asked(
    policy: u32,
    p: Packet,
    wan_ip: Ipv4Addr,
    probes: Seq<Option<FlowState>>,
)
    requires
        probes.len() == NAPT_PROBES,
        masqueraded(policy, p, wan_ip, probes) is Translated,
    ensures
        ({
            let m = masqueraded(policy, p, wan_ip, probes);
            ||| exists|k: int|
                #![trigger probes[k]]
                0 <= k < NAPT_PROBES && (probes[k] is None || records(probes[k], source(p)))
                    && m->reply == probes_asked(policy, p, wan_ip)[k]
            ||| m->port == p.src_port && forall|k: int|
                0 <= k < NAPT_PROBES ==> (#[trigger] probes[k]) is Some && !records(
                    probes[k],
                    source(p),
                )
        }),
{
    let seed = seed_of(p.src, p.dst, p.src_port, p.dst_port);
    chosen_port_is_free(seed, probes, source(p));
    let port = chosen_port(seed, probes, source(p));
    if exists|k: int|
        0 <= k < probes.len() && (probes[k] is None || records(probes[k], source(p))) && port
            == #[trigger] candidate(seed, k as u16) {
        let k = choose|k: int|
            0 <= k < probes.len() && (probes[k] is None || records(probes[k], source(p))) && port
                == #[trigger] candidate(seed, k as u16);
        assert(probes[k] is None || records(probes[k], source(p)));
        assert(probes_asked(policy, p, wan_ip)[k] == masqueraded_reply(policy, p, wan_ip, port));
    }
}

/// What is asked for a packet that comes in: the blocklist and the rule by its source, the rule and
/// the forward by its protocol and destination port, all under its policy; the peers by its source.
pub proof fn ingress_is_asked_by_source(policy: u32, p: Packet)
    ensures
        ({
            let k = ingress_asks(policy, p);
            &&& k.overlay_port == p.dst_port
            &&& k.vtep == p.src
            &&& k.blocklist.scope == policy && k.blocklist.addr == p.src
            &&& k.rule.policy == policy && k.rule.proto == p.proto && k.rule.port == p.dst_port
                && k.rule.src == p.src
            &&& k.port_forward.policy == policy && k.port_forward.proto == p.proto
                && k.port_forward.port == p.dst_port
            &&& k.flow.policy == policy && k.flow.src == p.src && k.flow.dst == p.dst
                && k.flow.src_port == p.src_port && k.flow.dst_port == p.dst_port && k.flow.proto
                == p.proto
        }),
{
}

/// What is asked for a packet that leaves: the blocklist by its destination, the rule by its
/// destination port and its source.
pub proof fn egress_is_asked_by_destination(policy: u32, p: Packet)
    ensures
        ({
            let k = egress_asks(policy, p);
            &&& k.blocklist.scope == policy && k.blocklist.addr == p.dst
            &&& k.rule.policy == policy && k.rule.proto == p.proto && k.rule.port == p.dst_port
                && k.rule.src == p.src
        }),
{
}

/// What is asked for a packet that may be for a service: its flow under its policy, and where that is
/// not the one of port forwarding also under that; the service by its destination.
pub proof fn service_is_asked_by_destination(policy: u32, p: Packet)
    ensures
        ({
            let k = balance_asks(policy, p);
            &&& k.service.policy == policy && k.service.vip == p.dst && k.service.port == p.dst_port
                && k.service.proto == p.proto
            &&& k.flow.policy == policy && k.flow.src == p.src && k.flow.dst == p.dst
                && k.flow.src_port == p.src_port && k.flow.dst_port == p.dst_port && k.flow.proto
                == p.proto
            &&& k.router_flow is Some <==> policy != 0
            &&& k.router_flow matches Some(r) ==> r.policy == 0 && r.src == p.src && r.dst == p.dst
                && r.src_port == p.src_port && r.dst_port == p.dst_port && r.proto == p.proto
        }),
{
}

/// The eight reply flows that are looked up for a masqueraded packet go from its destination to the
/// interface's address, each to another port of the ephemeral range.
pub proof fn probes_are_replies(policy: u32, p: Packet, wan_ip: Ipv4Addr, i: int, j: int)
    requires
        0 <= i < 8,
        0 <= j < 8,
    ensures
        ({
            let ks = probes_asked(policy, p, wan_ip);
            let k = ks[i];
            &&& ks.len() == 8
            &&& k.policy == policy && k.proto == p.proto
            &&& k.src == p.dst && k.src_port == p.dst_port
            &&& k.dst == wan_ip && k.dst_port >= 32768
            &&& i != j ==> ks[i].dst_port != ks[j].dst_port
        }),
{
    let seed = seed_of(p.src, p.dst, p.src_port, p.dst_port);
    if i < j {
        candidates_differ(seed, i as u16, j as u16);
    } else if j < i {
        candidates_differ(seed, j as u16, i as u16);
    }
}

/// The entry that is asked for a frame is the one for its destination MAC address on its segment; the
/// port of an IPv6 packet is that of TCP or UDP behind the fixed header.
pub proof fn frame_is_asked_by_destination(vni: u32, f: Seq<u8>)
    requires
        f.len() >= 54,
    ensures
        ({
            let k = mac_asked(vni, f);
            &&& k.vni == vni
            &&& k.mac[0] == f[0] && k.mac[1] == f[1] && k.mac[2] == f[2] && k.mac[3] == f[3]
                && k.mac[4] == f[4] && k.mac[5] == f[5]
        }),
        (f[20] == 6 || f[20] == 17) && f.len() >= 58 ==> port6(f) == f[56] * 256 + f[57],
        !(f[20] == 6 || f[20] == 17) || f.len() < 58 ==> port6(f) == 0,
{
}

} // verus!
