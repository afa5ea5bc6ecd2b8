//! Address translation: load balancing, port forwarding and masquerading.

use vstd::prelude::*;

use crate::addr::{octet, Ipv4Addr};
use crate::datapath::{
    be16, bytes16, bytes32, flow_key, flow_of, get16, has_ports, patched, patched_index, put16,
    put32, with_ports, Counter, FlowKey, Packet, TcAction, XdpAction, IPV4_LEN, O_IP_CSUM, O_IP_DST,
    O_IP_SRC, O_L4_DPORT, O_L4_SPORT, O_TCP_CSUM, O_UDP_CSUM, PROTO_TCP, PROTO_UDP,
};
use crate::lists::{first_index, first_index_is, first_index_properties};
use crate::overlay::Taken;

verus! {

/// The policy under which port forwarding tracks its flows. The packet and its reply come in under
/// the policies of different zones, so neither of these can be used.
pub const ROUTER_NAT_POLICY: u32 = 0;

/// An address and a port. Port zero stands for the one that the packet has.
#[derive(Clone, Copy, Debug, PartialEq, Eq, Structural)]
pub struct Target {
    pub ip: Ipv4Addr,
    pub port: u16,
}

/// What is tracked of a flow: what its packets are translated to.
#[derive(Clone, Copy, Debug, PartialEq, Eq, Structural)]
pub struct FlowState {
    pub to: Target,
    /// The source is translated; else the destination.
    pub reverse: bool,
    /// What the other end is translated to, where both are.
    pub second: Option<Target>,
}

/// A translation to be made: of the source where `reverse`, else of the destination.
#[derive(Clone, Copy, Debug, PartialEq, Eq, Structural)]
pub struct NatRequest {
    pub old: Target,
    pub new: Target,
    pub reverse: bool,
}

/// A translation with the checksums that it leads to.
#[derive(Clone, Copy, Debug, PartialEq, Eq, Structural)]
pub struct Nat {
    pub new_ip: Ipv4Addr,
    pub new_port: u16,
    pub rewrite_port: bool,
    pub new_ip_checksum: u16,
    pub new_l4_checksum: u16,
    pub rewrite_l4_checksum: bool,
}

// ---------------------------------------------------------------------------
// Writing a translation
// ---------------------------------------------------------------------------

/// Where the layer-4 checksum is.
pub open spec fn l4_csum_at(proto: u8) -> usize {
    if proto == PROTO_TCP {
        O_TCP_CSUM
    } else {
        O_UDP_CSUM
    }
}

fn l4_csum_offset(proto: u8) -> (r: usize)
    ensures
        r == l4_csum_at(proto),
{
    if proto == PROTO_TCP {
        O_TCP_CSUM
    } else {
        O_UDP_CSUM
    }
}

/// The frame with the address, the port and the IPv4 checksum of a translation.
pub open spec fn l3_nat_written(f: Seq<u8>, n: Nat, reverse: bool) -> Seq<u8> {
    let g = patched(f, O_IP_CSUM as int, bytes16(n.new_ip_checksum));
    let addr_at = if reverse {
        O_IP_SRC
    } else {
        O_IP_DST
    };
    let port_at = if reverse {
        O_L4_SPORT
    } else {
        O_L4_DPORT
    };
    let g = patched(g, addr_at as int, bytes32(n.new_ip.bits));
    if n.rewrite_port {
        patched(g, port_at as int, bytes16(n.new_port))
    } else {
        g
    }
}

/// Writes the address, the port and the IPv4 checksum of a translation.
pub fn write_l3_nat(frame: &mut Vec<u8>, n: &Nat, reverse: bool)
    requires
        old(frame)@.len() >= O_L4_DPORT + 2,
    ensures
        final(frame)@ == l3_nat_written(old(frame)@, *n, reverse),
        final(frame)@.len() == old(frame)@.len(),
{
    put16(frame, O_IP_CSUM, n.new_ip_checksum);
    if reverse {
        put32(frame, O_IP_SRC, n.new_ip.bits);
        if n.rewrite_port {
            put16(frame, O_L4_SPORT, n.new_port);
        }
    } else {
        put32(frame, O_IP_DST, n.new_ip.bits);
        if n.rewrite_port {
            put16(frame, O_L4_DPORT, n.new_port);
        }
    }
}

/// The frame after a translation.
pub open spec fn nat_applied(f: Seq<u8>, n: Nat, reverse: bool, proto: u8) -> Seq<u8> {
    let g = l3_nat_written(f, n, reverse);
    if n.rewrite_l4_checksum {
        patched(g, l4_csum_at(proto) as int, bytes16(n.new_l4_checksum))
    } else {
        g
    }
}

/// Applies a translation; `false` where the frame is too short to carry the layer-4 checksum.
pub fn apply_nat(frame: &mut Vec<u8>, n: &Nat, reverse: bool, proto: u8) -> (applied: bool)
    ensures
        applied == (old(frame)@.len() >= l4_csum_at(proto) + 2),
        final(frame)@ == if applied {
            nat_applied(old(frame)@, *n, reverse, proto)
        } else {
            old(frame)@
        },
        final(frame)@.len() == old(frame)@.len(),
{
    let at: usize = l4_csum_offset(proto);
    if frame.len() < at + 2 {
        return false;
    }
    write_l3_nat(frame, n, reverse);
    if n.rewrite_l4_checksum {
        put16(frame, at, n.new_l4_checksum);
    }
    true
}

/// The frame after one translation, or after two of opposite ends.
pub open spec fn translated(
    f: Seq<u8>,
    first: Nat,
    second: Option<Nat>,
    reverse: bool,
    proto: u8,
) -> Seq<u8> {
    let g = nat_applied(f, first, reverse, proto);
    match second {
        Some(n) => nat_applied(g, n, !reverse, proto),
        None => g,
    }
}

/// Translates a frame and lets it pass.
pub fn translate(
    frame: &mut Vec<u8>,
    first: &Nat,
    second: &Option<Nat>,
    reverse: bool,
    proto: u8,
    counter: Counter,
) -> (r: Taken)
    ensures
        if old(frame)@.len() >= l4_csum_at(proto) + 2 {
            r == Taken::Done(XdpAction::Pass, counter) && final(frame)@ == translated(
                old(frame)@,
                *first,
                *second,
                reverse,
                proto,
            )
        } else {
            r == Taken::Short && final(frame)@ == old(frame)@
        },
{
    if !apply_nat(frame, first, reverse, proto) {
        return Taken::Short;
    }
    match second {
        Some(n) => {
            let applied = apply_nat(frame, n, !reverse, proto);
        },
        None => {},
    }
    Taken::Done(XdpAction::Pass, counter)
}

/// The layer-4 checksum that a frame has, where it is long enough.
pub fn l4_checksum(frame: &Vec<u8>, proto: u8) -> (r: Option<u16>)
    ensures
        r == if frame@.len() >= l4_csum_at(proto) + 2 {
            Some(be16(frame@, l4_csum_at(proto) as int))
        } else {
            None
        },
{
    let at: usize = l4_csum_offset(proto);
    if frame.len() < at + 2 {
        return None;
    }
    Some(get16(frame, at))
}

/// What the checksums after a translation are computed from.
#[derive(Clone, Copy, Debug, PartialEq, Eq, Structural)]
pub struct NatInputs {
    pub old: Target,
    pub new: Target,
    pub ip_checksum: u16,
    pub l4_checksum: u16,
    pub proto: u8,
}

/// What a packet's first translation is computed from: the checksums that the packet has. Nothing
/// where the frame is too short to carry the layer-4 checksum.
pub fn first_inputs(frame: &Vec<u8>, p: &Packet, n: &NatRequest) -> (r: Option<NatInputs>)
    ensures
        r == if frame@.len() >= l4_csum_at(p.proto) + 2 {
            Some(
                NatInputs {
                    old: n.old,
                    new: n.new,
                    ip_checksum: p.checksum,
                    l4_checksum: be16(frame@, l4_csum_at(p.proto) as int),
                    proto: p.proto,
                },
            )
        } else {
            None
        },
{
    match l4_checksum(frame, p.proto) {
        Some(c) => Some(
            NatInputs {
                old: n.old,
                new: n.new,
                ip_checksum: p.checksum,
                l4_checksum: c,
                proto: p.proto,
            },
        ),
        None => None,
    }
}

/// What a packet's second translation is computed from: the checksums that the first leads to.
pub fn second_inputs(first: &Nat, p: &Packet, n: &NatRequest) -> (r: NatInputs)
    ensures
        r == (NatInputs {
            old: n.old,
            new: n.new,
            ip_checksum: first.new_ip_checksum,
            l4_checksum: first.new_l4_checksum,
            proto: p.proto,
        }),
{
    NatInputs {
        old: n.old,
        new: n.new,
        ip_checksum: first.new_ip_checksum,
        l4_checksum: first.new_l4_checksum,
        proto: p.proto,
    }
}

// ---------------------------------------------------------------------------
// Load balancing
// ---------------------------------------------------------------------------

/// The servers of a service: a run of the server table.
#[derive(Clone, Copy, Debug, PartialEq, Eq, Structural)]
pub struct ServiceValue {
    pub backend_start: u32,
    pub backend_count: u32,
}

/// What is looked up for a packet that may be for a service.
#[derive(Clone, Copy, Debug, PartialEq, Eq, Structural)]
pub struct LbAnswers {
    /// What is tracked of the packet's flow under its policy.
    pub known: Option<FlowState>,
    /// What is tracked of it under the policy of port forwarding.
    pub known_router: Option<FlowState>,
    /// The service at the packet's destination.
    pub service: Option<ServiceValue>,
    /// The server that was picked.
    pub backend: Option<Target>,
}

/// Two entries to be tracked: first that of the replies, then that of the packets.
#[derive(Clone, Copy, Debug, PartialEq, Eq, Structural)]
pub struct NewFlow {
    /// The flow of the replies, and what they are translated to.
    pub reverse_key: FlowKey,
    pub reverse_state: FlowState,
    /// The flow of the packets, and what they are translated to.
    pub forward_key: FlowKey,
    pub forward_state: FlowState,
}

/// The second entry of a new flow: that of its packets, which is made only where that of the replies
/// could be. Else the next packet of the flow starts it again.
pub fn after_reply_recorded(flow: &NewFlow, recorded: bool) -> (r: Option<(FlowKey, FlowState)>)
    ensures
        r == (if recorded {
            Some((flow.forward_key, flow.forward_state))
        } else {
            None
        }),
{
    if recorded {
        Some((flow.forward_key, flow.forward_state))
    } else {
        None
    }
}

/// What is done with a packet.
#[derive(Clone, Copy, Debug, PartialEq, Eq, Structural)]
pub enum NatPlan {
    /// It is left to the next stage; something may be counted.
    Fall(Option<Counter>),
    /// It is too short.
    Short,
    /// It belongs to a tracked flow.
    Known { first: NatRequest, second: Option<NatRequest>, counter: Counter },
    /// It starts a flow. `allow` is a flow that the firewall is to let in from now on.
    New {
        flow: NewFlow,
        allow: Option<FlowKey>,
        first: NatRequest,
        second: Option<NatRequest>,
        counter: Counter,
    },
}

/// Only TCP and UDP behind an IPv4 header without options are translated.
pub open spec fn translatable(p: Packet) -> bool {
    has_ports(p.proto) && p.ihl == IPV4_LEN
}

/// The state that counts: the one under the packet's policy, else the one of port forwarding.
pub open spec fn known_state(policy: u32, a: LbAnswers) -> Option<FlowState> {
    match a.known {
        Some(s) => Some(s),
        None => if policy != ROUTER_NAT_POLICY {
            a.known_router
        } else {
            None
        },
    }
}

/// The source of a packet.
pub open spec fn source(p: Packet) -> Target {
    Target { ip: p.src, port: p.src_port }
}

/// The destination of a packet.
pub open spec fn destination(p: Packet) -> Target {
    Target { ip: p.dst, port: p.dst_port }
}

/// The translations of a packet of a tracked flow.
pub open spec fn known_plan(p: Packet, s: FlowState) -> NatPlan {
    let (near, far) = if s.reverse {
        (source(p), destination(p))
    } else {
        (destination(p), source(p))
    };
    NatPlan::Known {
        first: NatRequest { old: near, new: s.to, reverse: s.reverse },
        second: match s.second {
            Some(t) => Some(NatRequest { old: far, new: t, reverse: !s.reverse }),
            None => None,
        },
        counter: if s.reverse {
            Counter::LbReverse
        } else {
            Counter::LbEstablished
        },
    }
}

/// The port that a target stands for.
pub open spec fn port_of(t: Target, dst_port: u16) -> u16 {
    if t.port == 0 {
        dst_port
    } else {
        t.port
    }
}

/// The entries for a new flow to a server: packets go to the server, and its replies come from the
/// address that the client used.
pub open spec fn balanced_flow(policy: u32, p: Packet, backend: Target) -> NewFlow {
    NewFlow {
        reverse_key: FlowKey {
            policy,
            src: backend.ip,
            dst: p.src,
            src_port: port_of(backend, p.dst_port),
            dst_port: p.src_port,
            proto: p.proto,
        },
        reverse_state: FlowState { to: destination(p), reverse: true, second: None },
        forward_key: flow_of(policy, p),
        forward_state: FlowState { to: backend, reverse: false, second: None },
    }
}

/// What is done with a packet that may be for a service.
pub open spec fn lb_plan(f: Seq<u8>, policy: u32, p: Packet, a: LbAnswers) -> NatPlan {
    if !translatable(p) {
        NatPlan::Fall(None)
    } else if f.len() < l4_csum_at(p.proto) + 2 {
        NatPlan::Short
    } else {
        match (known_state(policy, a), a.service, a.backend) {
            (Some(s), _, _) => known_plan(p, s),
            (None, None, _) => NatPlan::Fall(None),
            (None, Some(service), backend) => if service.backend_count == 0 {
                NatPlan::Fall(Some(Counter::LbNoBackend))
            } else {
                match backend {
                    Some(b) => NatPlan::New {
                        flow: balanced_flow(policy, p, b),
                        allow: None,
                        first: NatRequest { old: destination(p), new: b, reverse: false },
                        second: None,
                        counter: Counter::LoadBalanced,
                    },
                    None => NatPlan::Fall(None),
                }
            },
        }
    }
}

/// The place of the picked server in the server table.
pub fn backend_index(service: &ServiceValue, pick: u32) -> (r: u32)
    ensures
        r == service.backend_start.wrapping_add(pick),
{
    service.backend_start.wrapping_add(pick)
}

fn is_translatable(p: &Packet) -> (r: bool)
    ensures
        r == translatable(*p),
{
    with_ports(p.proto) && p.ihl == IPV4_LEN
}

/// Decides what is done with a packet that may be for a service.
pub fn try_load_balance(frame: &Vec<u8>, policy: u32, p: &Packet, a: &LbAnswers) -> (r: NatPlan)
    ensures
        r == lb_plan(frame@, policy, *p, *a),
{
    if !is_translatable(p) {
        return NatPlan::Fall(None);
    }
    if frame.len() < l4_csum_offset(p.proto) + 2 {
        return NatPlan::Short;
    }
    let src = Target { ip: p.src, port: p.src_port };
    let dst = Target { ip: p.dst, port: p.dst_port };
    let known = match a.known {
        Some(s) => Some(s),
        None => if policy != ROUTER_NAT_POLICY {
            a.known_router
        } else {
            None
        },
    };
    match known {
        Some(s) => {
            let (near, far) = if s.reverse {
                (src, dst)
            } else {
                (dst, src)
            };
            let second = match s.second {
                Some(t) => Some(NatRequest { old: far, new: t, reverse: !s.reverse }),
                None => None,
            };
            let counter = if s.reverse {
                Counter::LbReverse
            } else {
                Counter::LbEstablished
            };
            return NatPlan::Known {
                first: NatRequest { old: near, new: s.to, reverse: s.reverse },
                second,
                counter,
            };
        },
        None => {},
    }
    let service = match a.service {
        Some(s) => s,
        None => {
            return NatPlan::Fall(None);
        },
    };
    if service.backend_count == 0 {
        return NatPlan::Fall(Some(Counter::LbNoBackend));
    }
    let backend = match a.backend {
        Some(b) => b,
        None => {
            return NatPlan::Fall(None);
        },
    };
    let backend_port: u16 = if backend.port == 0 {
        p.dst_port
    } else {
        backend.port
    };
    let flow = NewFlow {
        reverse_key: FlowKey {
            policy,
            src: backend.ip,
            dst: p.src,
            src_port: backend_port,
            dst_port: p.src_port,
            proto: p.proto,
        },
        reverse_state: FlowState { to: dst, reverse: true, second: None },
        forward_key: flow_key(policy, p),
        forward_state: FlowState { to: backend, reverse: false, second: None },
    };
    NatPlan::New {
        flow,
        allow: None,
        first: NatRequest { old: dst, new: backend, reverse: false },
        second: None,
        counter: Counter::LoadBalanced,
    }
}

// ---------------------------------------------------------------------------
// Port forwarding
// ---------------------------------------------------------------------------

/// A port forward: where packets for the port go.
#[derive(Clone, Copy, Debug, PartialEq, Eq, Structural)]
pub struct PortFwd {
    pub to: Target,
    /// The destination that the packet must have; all zero for any.
    pub match_dst: Ipv4Addr,
    /// The source that packets get, so that the reply comes back through this host; all zero for
    /// none.
    pub snat_ip: Ipv4Addr,
}

/// The source is translated too.
pub open spec fn is_hairpin(t: PortFwd) -> bool {
    t.snat_ip.bits != 0
}

/// The entries for a new forwarded flow.
pub open spec fn forwarded_flow(p: Packet, t: PortFwd) -> NewFlow {
    NewFlow {
        reverse_key: FlowKey {
            policy: ROUTER_NAT_POLICY,
            src: t.to.ip,
            dst: if is_hairpin(t) {
                t.snat_ip
            } else {
                p.src
            },
            src_port: port_of(t.to, p.dst_port),
            dst_port: p.src_port,
            proto: p.proto,
        },
        reverse_state: FlowState {
            to: destination(p),
            reverse: true,
            second: if is_hairpin(t) {
                Some(Target { ip: p.src, port: 0 })
            } else {
                None
            },
        },
        forward_key: flow_of(ROUTER_NAT_POLICY, p),
        forward_state: FlowState {
            to: t.to,
            reverse: false,
            second: if is_hairpin(t) {
                Some(Target { ip: t.snat_ip, port: 0 })
            } else {
                None
            },
        },
    }
}

/// What is done with a packet for a forwarded port. `known` is whether its flow is tracked already
/// under the policy of port forwarding.
pub open spec fn forward_plan(f: Seq<u8>, p: Packet, t: PortFwd, known: bool) -> NatPlan {
    if !translatable(p) {
        NatPlan::Fall(None)
    } else if t.match_dst.bits != 0 && p.dst != t.match_dst {
        NatPlan::Fall(None)
    } else if known {
        NatPlan::Fall(None)
    } else if f.len() < l4_csum_at(p.proto) + 2 {
        NatPlan::Short
    } else {
        NatPlan::New {
            flow: forwarded_flow(p, t),
            allow: Some(forwarded_flow(p, t).reverse_key),
            first: NatRequest { old: destination(p), new: t.to, reverse: false },
            second: if is_hairpin(t) {
                Some(
                    NatRequest {
                        old: source(p),
                        new: Target { ip: t.snat_ip, port: 0 },
                        reverse: true,
                    },
                )
            } else {
                None
            },
            counter: Counter::LoadBalanced,
        }
    }
}

/// Decides what is done with a packet for a forwarded port.
pub fn try_port_forward(frame: &Vec<u8>, p: &Packet, t: &PortFwd, known: bool) -> (r: NatPlan)
    ensures
        r == forward_plan(frame@, *p, *t, known),
{
    if !is_translatable(p) {
        return NatPlan::Fall(None);
    }
    if t.match_dst.bits != 0 && p.dst != t.match_dst {
        return NatPlan::Fall(None);
    }
    if known {
        return NatPlan::Fall(None);
    }
    if frame.len() < l4_csum_offset(p.proto) + 2 {
        return NatPlan::Short;
    }
    let hairpin: bool = t.snat_ip.bits != 0;
    let src = Target { ip: p.src, port: p.src_port };
    let dst = Target { ip: p.dst, port: p.dst_port };
    let target_port: u16 = if t.to.port == 0 {
        p.dst_port
    } else {
        t.to.port
    };
    let reply_dst = if hairpin {
        t.snat_ip
    } else {
        p.src
    };
    let snat = Target { ip: t.snat_ip, port: 0 };
    let client = Target { ip: p.src, port: 0 };
    let flow = NewFlow {
        reverse_key: FlowKey {
            policy: ROUTER_NAT_POLICY,
            src: t.to.ip,
            dst: reply_dst,
            src_port: target_port,
            dst_port: p.src_port,
            proto: p.proto,
        },
        reverse_state: FlowState {
            to: dst,
            reverse: true,
            second: if hairpin {
                Some(client)
            } else {
                None
            },
        },
        forward_key: flow_key(ROUTER_NAT_POLICY, p),
        forward_state: FlowState {
            to: t.to,
            reverse: false,
            second: if hairpin {
                Some(snat)
            } else {
                None
            },
        },
    };
    let second = if hairpin {
        Some(NatRequest { old: src, new: snat, reverse: true })
    } else {
        None
    };
    NatPlan::New {
        flow,
        allow: Some(flow.reverse_key),
        first: NatRequest { old: dst, new: t.to, reverse: false },
        second,
        counter: Counter::LoadBalanced,
    }
}

// ---------------------------------------------------------------------------
// Masquerading
// ---------------------------------------------------------------------------

/// How many ports are tried for a masqueraded flow.
pub const NAPT_PROBES: u16 = 8;

/// The four octets of an address as a number, the first octet least significant.
pub open spec fn octets_low_first(a: Ipv4Addr) -> u32 {
    (octet(a.bits, 0) + octet(a.bits, 1) * 256 + octet(a.bits, 2) * 65536 + octet(a.bits, 3)
        * 16777216) as u32
}

fn low_first(a: Ipv4Addr) -> (r: u32)
    ensures
        r == octets_low_first(a),
{
    let o = a.octets();
    o[0] as u32 + o[1] as u32 * 256 + o[2] as u32 * 65536 + o[3] as u32 * 16777216
}

/// The number that the ports tried for a flow start from: a hash of its ends.
pub open spec fn seed_of(src: Ipv4Addr, dst: Ipv4Addr, sport: u16, dport: u16) -> u32 {
    let d = octets_low_first(dst);
    (octets_low_first(src) ^ (d << 16 | d >> 16) ^ ((sport as u32) << 16) ^ dport as u32).wrapping_mul(
        2654435761,
    )
}

/// Computes [`seed_of`].
pub fn napt_seed(src: Ipv4Addr, dst: Ipv4Addr, sport: u16, dport: u16) -> (r: u32)
    ensures
        r == seed_of(src, dst, sport, dport),
{
    let d: u32 = low_first(dst);
    let h: u32 = low_first(src) ^ (d << 16 | d >> 16) ^ ((sport as u32) << 16) ^ dport as u32;
    h.wrapping_mul(2654435761)
}

/// The `i`-th port that is tried.
pub open spec fn candidate(seed: u32, i: u16) -> u16 {
    (32768 + seed.wrapping_add(i as u32) as int % 32768) as u16
}

/// Computes the `i`-th port that is tried.
pub fn napt_port(seed: u32, i: u16) -> (r: u16)
    ensures
        r == candidate(seed, i),
        r >= 32768,
{
    32768 + (seed.wrapping_add(i as u32) % 32768) as u16
}

/// What is tracked is this very flow.
pub open spec fn records(known: Option<FlowState>, src: Target) -> bool {
    known matches Some(s) && s.to == src
}

/// The first of the ports tried under which this very flow is tracked; their number where it is
/// under none.
pub open spec fn own_probe(probes: Seq<Option<FlowState>>, src: Target) -> int {
    first_index(probes, |k: Option<FlowState>| records(k, src))
}

/// The first of the ports tried under which nothing is tracked; their number where there is none.
pub open spec fn free_probe(probes: Seq<Option<FlowState>>) -> int {
    first_index(probes, |k: Option<FlowState>| k is None)
}

/// The port of a masqueraded flow: of the ports tried, the first one under which the flow is tracked
/// already, else the first free one; where there is neither, the one that the packet has.
pub open spec fn chosen_port(seed: u32, probes: Seq<Option<FlowState>>, src: Target) -> u16 {
    if own_probe(probes, src) < probes.len() {
        candidate(seed, own_probe(probes, src) as u16)
    } else if free_probe(probes) < probes.len() {
        candidate(seed, free_probe(probes) as u16)
    } else {
        src.port
    }
}

/// Chooses the port of a masqueraded flow. `probes` is what is tracked under each port tried.
pub fn choose_port(seed: u32, probes: &Vec<Option<FlowState>>, src: Target) -> (r: u16)
    requires
        probes@.len() == NAPT_PROBES,
    ensures
        r == chosen_port(seed, probes@, src),
{
    let ghost own = |k: Option<FlowState>| records(k, src);
    let ghost free = |k: Option<FlowState>| k is None;
    let mut vacant: usize = probes.len();
    for i in 0..probes.len()
        invariant
            probes@.len() == NAPT_PROBES,
            own == (|k: Option<FlowState>| records(k, src)),
            free == (|k: Option<FlowState>| k is None),
            forall|j: int| 0 <= j < i ==> !own(#[trigger] probes@[j]),
            vacant < i || vacant == probes@.len(),
            vacant < i ==> free(probes@[vacant as int]),
            forall|j: int| 0 <= j < i && j < vacant ==> !free(#[trigger] probes@[j]),
    {
        match probes[i] {
            Some(s) => {
                if s.to == src {
                    proof {
                        first_index_is(probes@, own, i as int);
                    }
                    return napt_port(seed, i as u16);
                }
            },
            None => {
                if vacant == probes.len() {
                    vacant = i;
                }
            },
        }
    }
    proof {
        first_index_is(probes@, own, probes@.len() as int);
        first_index_is(probes@, free, vacant as int);
    }
    if vacant < probes.len() {
        napt_port(seed, vacant as u16)
    } else {
        src.port
    }
}

/// What is done with a packet that leaves a masqueraded interface.
#[derive(Clone, Copy, Debug, PartialEq, Eq, Structural)]
pub enum Masquerade {
    /// It leaves as it is.
    Unchanged,
    /// It leaves from the interface's address and the given port. Its replies, which have the flow
    /// `reply`, are let in by the firewall and go back to `client`.
    Translated { port: u16, reply: FlowKey, client: FlowState },
}

/// The flow of the replies to a masqueraded packet.
pub open spec fn masqueraded_reply(
    policy: u32,
    p: Packet,
    wan_ip: Ipv4Addr,
    port: u16,
) -> FlowKey {
    FlowKey {
        policy,
        src: p.dst,
        dst: wan_ip,
        src_port: p.dst_port,
        dst_port: port,
        proto: p.proto,
    }
}

/// What is done with a packet that leaves a masqueraded interface.
pub open spec fn masqueraded(
    policy: u32,
    p: Packet,
    wan_ip: Ipv4Addr,
    probes: Seq<Option<FlowState>>,
) -> Masquerade {
    if !translatable(p) || p.src == wan_ip {
        Masquerade::Unchanged
    } else {
        let seed = seed_of(p.src, p.dst, p.src_port, p.dst_port);
        let port = chosen_port(seed, probes, source(p));
        Masquerade::Translated {
            port,
            reply: masqueraded_reply(policy, p, wan_ip, port),
            client: FlowState { to: source(p), reverse: false, second: None },
        }
    }
}

/// Decides what is done with a packet that leaves a masqueraded interface. `probes` is what is
/// tracked of the reply flow under each port tried.
pub fn masquerade_egress(
    policy: u32,
    p: &Packet,
    wan_ip: Ipv4Addr,
    probes: &Vec<Option<FlowState>>,
) -> (r: Masquerade)
    requires
        probes@.len() == NAPT_PROBES,
    ensures
        r == masqueraded(policy, *p, wan_ip, probes@),
{
    if !is_translatable(p) || p.src == wan_ip {
        return Masquerade::Unchanged;
    }
    let src = Target { ip: p.src, port: p.src_port };
    let seed: u32 = napt_seed(p.src, p.dst, p.src_port, p.dst_port);
    let port: u16 = choose_port(seed, probes, src);
    Masquerade::Translated {
        port,
        reply: FlowKey {
            policy,
            src: p.dst,
            dst: wan_ip,
            src_port: p.dst_port,
            dst_port: port,
            proto: p.proto,
        },
        client: FlowState { to: src, reverse: false, second: None },
    }
}

/// One step of rewriting the source of a packet that leaves, with the kernel's checksum helpers.
#[derive(Clone, Copy, Debug, PartialEq, Eq, Structural)]
#[allow(inconsistent_fields)]
pub enum SkbStep {
    /// Repairs the layer-4 checksum at the offset for a changed address, pseudo-header included.
    L4Address { at: usize, from: Ipv4Addr, to: Ipv4Addr },
    /// Repairs the IPv4 checksum at the offset for a changed address.
    L3Address { at: usize, from: Ipv4Addr, to: Ipv4Addr },
    /// Stores an address.
    StoreAddress { at: usize, to: Ipv4Addr },
    /// Repairs the layer-4 checksum at the offset for a changed port.
    L4Port { at: usize, from: u16, to: u16 },
    /// Stores a port.
    StorePort { at: usize, to: u16 },
}

/// The steps that rewrite the source. A UDP checksum of zero means that there is none.
pub open spec fn snat_steps(
    old_src: Target,
    new_src: Target,
    proto: u8,
    l4_checksum: u16,
) -> Seq<SkbStep> {
    let at = l4_csum_at(proto);
    let active = !(proto == PROTO_UDP && l4_checksum == 0);
    let a = if active {
        seq![SkbStep::L4Address { at, from: old_src.ip, to: new_src.ip }]
    } else {
        Seq::empty()
    };
    let b = seq![
        SkbStep::L3Address { at: O_IP_CSUM, from: old_src.ip, to: new_src.ip },
        SkbStep::StoreAddress { at: O_IP_SRC, to: new_src.ip },
    ];
    let c = if old_src.port != new_src.port && active {
        seq![SkbStep::L4Port { at, from: old_src.port, to: new_src.port }]
    } else {
        Seq::empty()
    };
    let d = if old_src.port != new_src.port {
        seq![SkbStep::StorePort { at: O_L4_SPORT, to: new_src.port }]
    } else {
        Seq::empty()
    };
    a + b + c + d
}

/// Gives the steps that rewrite the source of a packet that leaves.
pub fn snat_tc(old_src: Target, new_src: Target, proto: u8, l4_checksum: u16) -> (r: Vec<SkbStep>)
    ensures
        r@ == snat_steps(old_src, new_src, proto, l4_checksum),
{
    let at: usize = l4_csum_offset(proto);
    let active: bool = !(proto == PROTO_UDP && l4_checksum == 0);
    let mut r: Vec<SkbStep> = Vec::new();
    if active {
        r.push(SkbStep::L4Address { at, from: old_src.ip, to: new_src.ip });
    }
    r.push(SkbStep::L3Address { at: O_IP_CSUM, from: old_src.ip, to: new_src.ip });
    r.push(SkbStep::StoreAddress { at: O_IP_SRC, to: new_src.ip });
    if old_src.port != new_src.port {
        if active {
            r.push(SkbStep::L4Port { at, from: old_src.port, to: new_src.port });
        }
        r.push(SkbStep::StorePort { at: O_L4_SPORT, to: new_src.port });
    }
    assert(r@ =~= snat_steps(old_src, new_src, proto, l4_checksum));
    r
}

// ---------------------------------------------------------------------------
// Laws
// ---------------------------------------------------------------------------

/// Gives the steps that rewrite the source of a masqueraded packet. Nothing where the frame is too
/// short to carry the layer-4 checksum: it leaves as it is.
pub fn rewrite_source(frame: &Vec<u8>, p: &Packet, new_src: Target) -> (r: Option<Vec<SkbStep>>)
    ensures
        match r {
            Some(steps) => frame@.len() >= l4_csum_at(p.proto) + 2 && steps@ == snat_steps(
                source(*p),
                new_src,
                p.proto,
                be16(frame@, l4_csum_at(p.proto) as int),
            ),
            None => frame@.len() < l4_csum_at(p.proto) + 2,
        },
{
    match l4_checksum(frame, p.proto) {
        Some(c) => Some(snat_tc(Target { ip: p.src, port: p.src_port }, new_src, p.proto, c)),
        None => None,
    }
}

/// A masqueraded packet leaves in any case, and is counted where it was rewritten.
pub fn masquerade_outcome(rewritten: bool) -> (r: (TcAction, Option<Counter>))
    ensures
        r.0 == TcAction::Accept,
        r.1 == (if rewritten {
            Some(Counter::EgressMasqueraded)
        } else {
            None
        }),
{
    if rewritten {
        (TcAction::Accept, Some(Counter::EgressMasqueraded))
    } else {
        (TcAction::Accept, None)
    }
}

/// The reply to a balanced flow's packet is tracked, and its source becomes the address that the
/// client used.
pub proof fn balanced_reply_is_restored(f: Seq<u8>, policy: u32, p: Packet, b: Target, q: Packet)
    requires
        q.src == b.ip,
        q.src_port == port_of(b, p.dst_port),
        q.dst == p.src,
        q.dst_port == p.src_port,
        q.proto == p.proto,
        translatable(q),
        f.len() >= l4_csum_at(q.proto) + 2,
    ensures
        flow_of(policy, q) == balanced_flow(policy, p, b).reverse_key,
        forall|a: LbAnswers|
            a.known == Some(balanced_flow(policy, p, b).reverse_state) ==> #[trigger] lb_plan(
                f,
                policy,
                q,
                a,
            ) == (NatPlan::Known {
                first: NatRequest { old: source(q), new: destination(p), reverse: true },
                second: None,
                counter: Counter::LbReverse,
            }),
{
}

/// Later packets of a balanced flow go to the same server.
pub proof fn balanced_flow_keeps_its_server(
    f: Seq<u8>,
    policy: u32,
    p: Packet,
    b: Target,
    a: LbAnswers,
)
    requires
        translatable(p),
        f.len() >= l4_csum_at(p.proto) + 2,
        a.known == Some(balanced_flow(policy, p, b).forward_state),
    ensures
        flow_of(policy, p) == balanced_flow(policy, p, b).forward_key,
        lb_plan(f, policy, p, a) == (NatPlan::Known {
            first: NatRequest { old: destination(p), new: b, reverse: false },
            second: None,
            counter: Counter::LbEstablished,
        }),
{
}

/// The reply to a forwarded packet, under whatever policy it comes in, gets the source that the
/// client used; and where the packet's source was translated too, the client as its destination.
pub proof fn forwarded_reply_is_restored(
    f: Seq<u8>,
    policy: u32,
    p: Packet,
    t: PortFwd,
    q: Packet,
    a: LbAnswers,
)
    requires
        q.src == t.to.ip,
        q.src_port == port_of(t.to, p.dst_port),
        q.dst == (if is_hairpin(t) {
            t.snat_ip
        } else {
            p.src
        }),
        q.dst_port == p.src_port,
        q.proto == p.proto,
        translatable(q),
        f.len() >= l4_csum_at(q.proto) + 2,
        policy != ROUTER_NAT_POLICY,
        a.known is None,
        a.known_router == Some(forwarded_flow(p, t).reverse_state),
    ensures
        flow_of(ROUTER_NAT_POLICY, q) == forwarded_flow(p, t).reverse_key,
        lb_plan(f, policy, q, a) == (NatPlan::Known {
            first: NatRequest { old: source(q), new: destination(p), reverse: true },
            second: if is_hairpin(t) {
                Some(
                    NatRequest {
                        old: destination(q),
                        new: Target { ip: p.src, port: 0 },
                        reverse: false,
                    },
                )
            } else {
                None
            },
            counter: Counter::LbReverse,
        }),
{
}

/// The reply to a masqueraded packet goes back to the client.
pub proof fn masqueraded_reply_is_restored(
    f: Seq<u8>,
    policy: u32,
    p: Packet,
    wan_ip: Ipv4Addr,
    port: u16,
    q: Packet,
    a: LbAnswers,
)
    requires
        q.src == p.dst,
        q.src_port == p.dst_port,
        q.dst == wan_ip,
        q.dst_port == port,
        q.proto == p.proto,
        translatable(q),
        f.len() >= l4_csum_at(q.proto) + 2,
        a.known == Some(FlowState { to: source(p), reverse: false, second: None }),
    ensures
        flow_of(policy, q) == masqueraded_reply(policy, p, wan_ip, port),
        lb_plan(f, policy, q, a) == (NatPlan::Known {
            first: NatRequest { old: destination(q), new: source(p), reverse: false },
            second: None,
            counter: Counter::LbEstablished,
        }),
{
}

/// The ports tried for a flow are different ones.
pub proof fn candidates_differ(seed: u32, i: u16, j: u16)
    requires
        i < j < NAPT_PROBES,
    ensures
        candidate(seed, i) != candidate(seed, j),
{
    let a = seed.wrapping_add(i as u32) as int;
    let b = seed.wrapping_add(j as u32) as int;
    assert(a == (seed + i) % 0x1_0000_0000);
    assert(b == (seed + j) % 0x1_0000_0000);
}

/// The port chosen for a flow is in the ephemeral range, or the one that the packet has.
pub proof fn chosen_port_range(seed: u32, probes: Seq<Option<FlowState>>, src: Target)
    ensures
        chosen_port(seed, probes, src) >= 32768 || chosen_port(seed, probes, src) == src.port,
{
}

/// A flow is never given a port under which another flow is tracked, unless all the ports tried are
/// taken.
pub proof fn chosen_port_is_free(seed: u32, probes: Seq<Option<FlowState>>, src: Target)
    ensures
        ({
            let port = chosen_port(seed, probes, src);
            ||| exists|k: int|
                0 <= k < probes.len() && (probes[k] is None || records(probes[k], src)) && port
                    == #[trigger] candidate(seed, k as u16)
            ||| port == src.port && forall|k: int|
                0 <= k < probes.len() ==> (#[trigger] probes[k]) is Some && !records(
                    probes[k],
                    src,
                )
        }),
{
    first_index_properties(probes, |k: Option<FlowState>| records(k, src));
    first_index_properties(probes, |k: Option<FlowState>| k is None);
    let own = own_probe(probes, src);
    let free = free_probe(probes);
    if own < probes.len() {
        assert(records(probes[own], src));
    } else if free < probes.len() {
        assert(probes[free] is None);
    }
}

/// A flow keeps its port: as long as it is tracked under one of the ports tried, that one is chosen,
/// whichever of the others became free.
pub proof fn held_port_is_kept(seed: u32, probes: Seq<Option<FlowState>>, src: Target, k: int)
    requires
        0 <= k < probes.len(),
        records(probes[k], src),
        forall|j: int| 0 <= j < k ==> !records(#[trigger] probes[j], src),
    ensures
        chosen_port(seed, probes, src) == candidate(seed, k as u16),
{
    first_index_is(probes, |s: Option<FlowState>| records(s, src), k);
}

/// What is tracked, once a new flow was to be recorded: both entries where that of the replies could
/// be made, else none.
pub open spec fn tracked_after(
    table: Map<FlowKey, FlowState>,
    flow: NewFlow,
    recorded: bool,
) -> Map<FlowKey, FlowState> {
    if recorded {
        table.insert(flow.reverse_key, flow.reverse_state).insert(
            flow.forward_key,
            flow.forward_state,
        )
    } else {
        table
    }
}

/// What is tracked of a flow.
pub open spec fn looked_up(table: Map<FlowKey, FlowState>, key: FlowKey) -> Option<FlowState> {
    if table.dom().contains(key) {
        Some(table[key])
    } else {
        None
    }
}

/// The answers for a packet come from what is tracked.
pub open spec fn answered_from(
    table: Map<FlowKey, FlowState>,
    policy: u32,
    p: Packet,
    a: LbAnswers,
) -> bool {
    &&& a.known == looked_up(table, flow_of(policy, p))
    &&& a.known_router == looked_up(table, flow_of(ROUTER_NAT_POLICY, p))
}

/// Where the entry of the replies could not be made, the next packet of the flow starts it again, to
/// the same server and with the same entries; where it could, the next packet belongs to a tracked
/// flow and goes to the same server.
pub proof fn balanced_flow_heals(
    table: Map<FlowKey, FlowState>,
    recorded: bool,
    policy: u32,
    f: Seq<u8>,
    p: Packet,
    a: LbAnswers,
    g: Seq<u8>,
    q: Packet,
    b: LbAnswers,
)
    requires
        answered_from(table, policy, p, a),
        lb_plan(f, policy, p, a) is New,
        flow_of(policy, q) == flow_of(policy, p),
        translatable(q),
        g.len() >= l4_csum_at(q.proto) + 2,
        answered_from(
            tracked_after(table, lb_plan(f, policy, p, a)->New_flow, recorded),
            policy,
            q,
            b,
        ),
        b.service == a.service,
        b.backend == a.backend,
    ensures
        !recorded ==> lb_plan(g, policy, q, b) == lb_plan(f, policy, p, a),
        recorded ==> (lb_plan(g, policy, q, b) matches NatPlan::Known { first, .. } && first
            == lb_plan(f, policy, p, a)->New_first),
{
}

/// The same of a forwarded flow: where the entry of the replies could not be made, the next packet
/// of the flow starts it again; where it could, the next packet is left to the stage that
/// translates tracked flows.
pub proof fn forwarded_flow_heals(
    table: Map<FlowKey, FlowState>,
    recorded: bool,
    f: Seq<u8>,
    p: Packet,
    t: PortFwd,
    known: bool,
    g: Seq<u8>,
    q: Packet,
    still_known: bool,
)
    requires
        known == table.dom().contains(flow_of(ROUTER_NAT_POLICY, p)),
        forward_plan(f, p, t, known) is New,
        flow_of(ROUTER_NAT_POLICY, q) == flow_of(ROUTER_NAT_POLICY, p),
        translatable(q),
        g.len() >= l4_csum_at(q.proto) + 2,
        still_known == tracked_after(
            table,
            forward_plan(f, p, t, known)->New_flow,
            recorded,
        ).dom().contains(flow_of(ROUTER_NAT_POLICY, q)),
    ensures
        !recorded ==> forward_plan(g, q, t, still_known) == forward_plan(f, p, t, known),
        recorded ==> forward_plan(g, q, t, still_known) == NatPlan::Fall(None),
{
}

/// Every TCP or UDP packet behind an IPv4 header without options, whose source is not the interface's
/// address, is translated when it leaves a masquerading interface, and only such packets are. Its
/// replies, which go from its destination to the interface's address and the port it was given, go
/// back to its source.
pub proof fn masquerade_translates(
    policy: u32,
    p: Packet,
    wan_ip: Ipv4Addr,
    probes: Seq<Option<FlowState>>,
)
    ensures
        ({
            let m = masqueraded(policy, p, wan_ip, probes);
            &&& m is Translated <==> (p.proto == 6 || p.proto == 17) && p.ihl == 20 && p.src != wan_ip
            &&& m matches Masquerade::Translated { port, reply, client } ==> {
                &&& reply.policy == policy
                &&& reply.src == p.dst && reply.src_port == p.dst_port
                &&& reply.dst == wan_ip && reply.dst_port == port
                &&& reply.proto == p.proto
                &&& client.to.ip == p.src && client.to.port == p.src_port
                &&& !client.reverse && client.second is None
                &&& port >= 32768 || port == p.src_port
            }
        }),
{
}

/// The port that a masqueraded packet gets: where something is free or the flow's own among what is
/// tracked under the ports tried, one of the ports tried; never one that another flow holds. A flow
/// that holds one keeps the first that it holds, and another takes the first free one.
pub proof fn masquerade_port(
    policy: u32,
    p: Packet,
    wan_ip: Ipv4Addr,
    probes: Seq<Option<FlowState>>,
    k: int,
)
    requires
        masqueraded(policy, p, wan_ip, probes) is Translated,
        0 <= k < probes.len() <= 8,
        probes[k] matches Some(s) ==> s.to.ip == p.src && s.to.port == p.src_port,
        forall|j: int|
            0 <= j < probes.len() ==> ((#[trigger] probes[j]) matches Some(s) ==> s.to.ip == p.src
                && s.to.port == p.src_port ==> j >= k && probes[k] is Some),
        forall|j: int| 0 <= j < k && probes[k] is None ==> (#[trigger] probes[j]) is Some,
    ensures
        ({
            let seed = seed_of(p.src, p.dst, p.src_port, p.dst_port);
            masqueraded(policy, p, wan_ip, probes)->port == 32768 + (seed + k) % 0x1_0000_0000
                % 32768
        }),
{
    let src = source(p);
    let own = |s: Option<FlowState>| records(s, src);
    let free = |s: Option<FlowState>| s is None;
    assert(src.ip == p.src && src.port == p.src_port);
    assert forall|j: int| 0 <= j < probes.len() implies own(#[trigger] probes[j]) == (
    probes[j] matches Some(s) && s.to.ip == p.src && s.to.port == p.src_port) by {
        if let Some(s) = probes[j] {
            assert(s.to == src <==> s.to.ip == src.ip && s.to.port == src.port);
        }
    }
    if probes[k] is Some {
        assert(own(probes[k]));
        first_index_is(probes, own, k);
    } else {
        assert forall|j: int| 0 <= j < probes.len() implies !own(#[trigger] probes[j]) by {}
        first_index_is(probes, own, probes.len() as int);
        first_index_is(probes, free, k);
    }
    let seed = seed_of(p.src, p.dst, p.src_port, p.dst_port);
    assert(seed.wrapping_add(k as u16 as u32) == (seed + k) % 0x1_0000_0000);
}

/// Each bit of a packet's ends counts for where its ports are tried: flows that differ in the source
/// port alone start from different numbers.
pub proof fn seeds_tell_ports_apart(src: Ipv4Addr, dst: Ipv4Addr, a: u16, b: u16, dport: u16)
    requires
        a != b,
    ensures
        seed_of(src, dst, a, dport) != seed_of(src, dst, b, dport),
{
    let d = octets_low_first(dst);
    let s = octets_low_first(src);
    let x = s ^ (d << 16 | d >> 16) ^ ((a as u32) << 16) ^ dport as u32;
    let y = s ^ (d << 16 | d >> 16) ^ ((b as u32) << 16) ^ dport as u32;
    assert(x != y) by (bit_vector)
        requires
            a != b,
            x == s ^ (d << 16 | d >> 16) ^ ((a as u32) << 16) ^ dport as u32,
            y == s ^ (d << 16 | d >> 16) ^ ((b as u32) << 16) ^ dport as u32,
    ;
    odd_factor_is_injective(x, y);
}

proof fn odd_factor_is_injective(x: u32, y: u32)
    requires
        x != y,
    ensures
        x.wrapping_mul(2654435761) != y.wrapping_mul(2654435761),
{
    let m = 0x1_0000_0000int;
    let u = x * 2654435761int;
    let v = y * 2654435761int;
    if u % m == v % m {
        vstd::arithmetic::div_mod::lemma_mul_mod_noop_left(u, 244002641, m);
        vstd::arithmetic::div_mod::lemma_mul_mod_noop_left(v, 244002641, m);
        assert(u * 244002641 == x * (2654435761int * 244002641)) by (nonlinear_arith)
            requires
                u == x * 2654435761int,
        ;
        assert(v * 244002641 == y * (2654435761int * 244002641)) by (nonlinear_arith)
            requires
                v == y * 2654435761int,
        ;
        assert((2654435761int * 244002641) % m == 1);
        vstd::arithmetic::div_mod::lemma_mul_mod_noop_right(x as int, 2654435761int * 244002641, m);
        vstd::arithmetic::div_mod::lemma_mul_mod_noop_right(y as int, 2654435761int * 244002641, m);
        assert(x as int % m == x);
        assert(y as int % m == y);
    }
}

/// A packet of a tracked flow is translated to what is tracked: its source where that says so, else
/// its destination; and the other end too, where that is tracked. What is tracked under the packet's
/// own policy counts before what port forwarding tracks.
pub proof fn tracked_packet_is_translated(f: Seq<u8>, policy: u32, p: Packet, a: LbAnswers)
    requires
        (p.proto == 6 || p.proto == 17) && p.ihl == 20,
        f.len() >= if p.proto == 6 {
            52int
        } else {
            42
        },
    ensures
        ({
            let plan = lb_plan(f, policy, p, a);
            &&& plan is Known <==> a.known is Some || policy != 0 && a.known_router is Some
            &&& plan matches NatPlan::Known { first, second, counter } ==> {
                let s = if a.known is Some {
                    a.known->0
                } else {
                    a.known_router->0
                };
                &&& first.reverse == s.reverse
                &&& first.new.ip == s.to.ip && first.new.port == s.to.port
                &&& first.old.ip == (if s.reverse {
                    p.src
                } else {
                    p.dst
                })
                &&& first.old.port == (if s.reverse {
                    p.src_port
                } else {
                    p.dst_port
                })
                &&& second is Some <==> s.second is Some
                &&& second matches Some(n) ==> {
                    &&& n.reverse == !s.reverse
                    &&& n.new.ip == s.second->0.ip && n.new.port == s.second->0.port
                    &&& n.old.ip == (if s.reverse {
                        p.dst
                    } else {
                        p.src
                    })
                    &&& n.old.port == (if s.reverse {
                        p.dst_port
                    } else {
                        p.src_port
                    })
                }
                &&& counter == if s.reverse {
                    Counter::LbReverse
                } else {
                    Counter::LbEstablished
                }
            }
        }),
{
}

/// A packet for a service that has servers starts a flow to the server that was picked: its
/// destination becomes the server, and what the server answers gets the address that the client used
/// as its source.
pub proof fn service_packet_is_balanced(f: Seq<u8>, policy: u32, p: Packet, a: LbAnswers)
    requires
        (p.proto == 6 || p.proto == 17) && p.ihl == 20,
        f.len() >= if p.proto == 6 {
            52int
        } else {
            42
        },
        a.known is None,
        policy == 0 || a.known_router is None,
    ensures
        ({
            let plan = lb_plan(f, policy, p, a);
            &&& plan is New <==> (a.service matches Some(s) && s.backend_count > 0 && a.backend is Some)
            &&& plan == NatPlan::Fall(Some(Counter::LbNoBackend)) <==> (a.service matches Some(s)
                && s.backend_count == 0)
            &&& plan is New || plan is Fall
            &&& plan matches NatPlan::New { flow, allow, first, second, counter } ==> {
                let b = a.backend->0;
                &&& allow is None && second is None && counter == Counter::LoadBalanced
                &&& !first.reverse
                &&& first.old.ip == p.dst && first.old.port == p.dst_port
                &&& first.new.ip == b.ip && first.new.port == b.port
                &&& flow.forward_key.policy == policy && flow.forward_key.proto == p.proto
                &&& flow.forward_key.src == p.src && flow.forward_key.src_port == p.src_port
                &&& flow.forward_key.dst == p.dst && flow.forward_key.dst_port == p.dst_port
                &&& flow.forward_state.to.ip == b.ip && flow.forward_state.to.port == b.port
                &&& !flow.forward_state.reverse && flow.forward_state.second is None
                &&& flow.reverse_key.policy == policy && flow.reverse_key.proto == p.proto
                &&& flow.reverse_key.src == b.ip
                &&& flow.reverse_key.src_port == (if b.port == 0 {
                    p.dst_port
                } else {
                    b.port
                })
                &&& flow.reverse_key.dst == p.src && flow.reverse_key.dst_port == p.src_port
                &&& flow.reverse_state.to.ip == p.dst && flow.reverse_state.to.port == p.dst_port
                &&& flow.reverse_state.reverse && flow.reverse_state.second is None
            }
        }),
{
}

/// Neither balancing nor forwarding touches a packet without ports or with IPv4 options, and a frame
/// that cannot hold the checksum of its protocol is too short.
pub proof fn untranslatable_packet_is_left(
    f: Seq<u8>,
    policy: u32,
    p: Packet,
    a: LbAnswers,
    t: PortFwd,
    known: bool,
)
    ensures
        !(p.proto == 6 || p.proto == 17) || p.ihl != 20 ==> lb_plan(f, policy, p, a)
            == NatPlan::Fall(None) && forward_plan(f, p, t, known) == NatPlan::Fall(None),
        lb_plan(f, policy, p, a) is Short <==> p.ihl == 20 && (p.proto == 6 && f.len() < 52 || p.proto
            == 17 && f.len() < 42),
        forward_plan(f, p, t, known) is Short ==> p.ihl == 20 && (p.proto == 6 && f.len() < 52
            || p.proto == 17 && f.len() < 42),
{
}

/// A packet for a forwarded port whose flow is not tracked, and whose destination is the one that the
/// forward is for, starts a flow to the target. Where the forward gives a source, the packet gets it,
/// and the reply goes back to the client from the address that the client used. The reply is let in.
pub proof fn forwarded_packet_is_translated(f: Seq<u8>, p: Packet, t: PortFwd, known: bool)
    requires
        (p.proto == 6 || p.proto == 17) && p.ihl == 20,
        f.len() >= if p.proto == 6 {
            52int
        } else {
            42
        },
    ensures
        ({
            let plan = forward_plan(f, p, t, known);
            &&& plan is New <==> !known && (t.match_dst.bits == 0 || p.dst == t.match_dst)
            &&& plan is New || plan == NatPlan::Fall(None)
            &&& plan matches NatPlan::New { flow, allow, first, second, counter } ==> {
                let hairpin = t.snat_ip.bits != 0;
                &&& counter == Counter::LoadBalanced
                &&& allow == Some(flow.reverse_key)
                &&& !first.reverse
                &&& first.old.ip == p.dst && first.old.port == p.dst_port
                &&& first.new.ip == t.to.ip && first.new.port == t.to.port
                &&& second is Some <==> hairpin
                &&& second matches Some(n) ==> n.reverse && n.old.ip == p.src && n.old.port
                    == p.src_port && n.new.ip == t.snat_ip && n.new.port == 0
                &&& flow.forward_key.policy == 0 && flow.forward_key.proto == p.proto
                &&& flow.forward_key.src == p.src && flow.forward_key.src_port == p.src_port
                &&& flow.forward_key.dst == p.dst && flow.forward_key.dst_port == p.dst_port
                &&& !flow.forward_state.reverse
                &&& flow.forward_state.to.ip == t.to.ip && flow.forward_state.to.port == t.to.port
                &&& flow.forward_state.second is Some <==> hairpin
                &&& flow.forward_state.second matches Some(n) ==> n.ip == t.snat_ip && n.port == 0
                &&& flow.reverse_key.policy == 0 && flow.reverse_key.proto == p.proto
                &&& flow.reverse_key.src == t.to.ip
                &&& flow.reverse_key.src_port == (if t.to.port == 0 {
                    p.dst_port
                } else {
                    t.to.port
                })
                &&& flow.reverse_key.dst == (if hairpin {
                    t.snat_ip
                } else {
                    p.src
                })
                &&& flow.reverse_key.dst_port == p.src_port
                &&& flow.reverse_state.reverse
                &&& flow.reverse_state.to.ip == p.dst && flow.reverse_state.to.port == p.dst_port
                &&& flow.reverse_state.second is Some <==> hairpin
                &&& flow.reverse_state.second matches Some(n) ==> n.ip == p.src && n.port == 0
            }
        }),
{
}

/// Where a translation changes a frame: the address and the port of the end that is translated, the
/// IPv4 checksum, and the checksum of its protocol; nothing else.
pub proof fn translation_changes_one_end(f: Seq<u8>, n: Nat, reverse: bool, proto: u8, i: int)
    requires
        f.len() >= if proto == 6 {
            52int
        } else {
            42
        },
        0 <= i < f.len(),
    ensures
        ({
            let g = nat_applied(f, n, reverse, proto);
            let addr = if reverse {
                26int
            } else {
                30
            };
            let port = if reverse {
                34int
            } else {
                36
            };
            let csum = if proto == 6 {
                50int
            } else {
                40
            };
            &&& g.len() == f.len()
            &&& g[addr] * 0x100_0000 + g[addr + 1] * 0x1_0000 + g[addr + 2] * 0x100 + g[addr + 3]
                == n.new_ip.bits
            &&& n.rewrite_port ==> g[port] * 256 + g[port + 1] == n.new_port
            &&& g[24] * 256 + g[25] == n.new_ip_checksum
            &&& n.rewrite_l4_checksum ==> g[csum] * 256 + g[csum + 1] == n.new_l4_checksum
            &&& g[i] == f[i] || addr <= i < addr + 4 || 24 <= i < 26 || n.rewrite_port && port <= i
                < port + 2 || n.rewrite_l4_checksum && csum <= i < csum + 2
        }),
{
    let addr = if reverse {
        26int
    } else {
        30
    };
    let port = if reverse {
        34int
    } else {
        36
    };
    let csum = if proto == 6 {
        50int
    } else {
        40
    };
    let g1 = patched(f, 24, bytes16(n.new_ip_checksum));
    patched_index(f, 24, bytes16(n.new_ip_checksum));
    let g2 = patched(g1, addr, bytes32(n.new_ip.bits));
    patched_index(g1, addr, bytes32(n.new_ip.bits));
    patched_index(g2, port, bytes16(n.new_port));
    let g3 = if n.rewrite_port {
        patched(g2, port, bytes16(n.new_port))
    } else {
        g2
    };
    patched_index(g3, csum, bytes16(n.new_l4_checksum));
}

/// Where both ends are translated, the second translation is of the end that the first is not of.
pub proof fn second_translation_is_of_the_other_end(
    f: Seq<u8>,
    first: Nat,
    second: Nat,
    reverse: bool,
    proto: u8,
)
    requires
        f.len() >= if proto == 6 {
            52int
        } else {
            42
        },
    ensures
        translated(f, first, None, reverse, proto) == nat_applied(f, first, reverse, proto),
        ({
            let g = translated(f, first, Some(second), reverse, proto);
            let (at, other) = if reverse {
                (26int, 30int)
            } else {
                (30int, 26int)
            };
            &&& g[at] * 0x100_0000 + g[at + 1] * 0x1_0000 + g[at + 2] * 0x100 + g[at + 3]
                == first.new_ip.bits
            &&& g[other] * 0x100_0000 + g[other + 1] * 0x1_0000 + g[other + 2] * 0x100 + g[other + 3]
                == second.new_ip.bits
        }),
{
    let h = nat_applied(f, first, reverse, proto);
    let at = if reverse {
        26int
    } else {
        30
    };
    translation_changes_one_end(f, first, reverse, proto, at);
    translation_changes_one_end(h, second, !reverse, proto, at);
    translation_changes_one_end(h, second, !reverse, proto, at + 1);
    translation_changes_one_end(h, second, !reverse, proto, at + 2);
    translation_changes_one_end(h, second, !reverse, proto, at + 3);
}

/// The source of a packet that leaves is stored, and both checksums are repaired for what changed of
/// it; a datagram without a checksum gets none. The port is touched only where it changed.
pub proof fn source_is_rewritten(old_src: Target, new_src: Target, proto: u8, l4_checksum: u16)
    requires
        proto == 6 || proto == 17,
    ensures
        ({
            let steps = snat_steps(old_src, new_src, proto, l4_checksum);
            let at = if proto == 6 {
                50usize
            } else {
                40
            };
            let summed = proto == 6 || l4_checksum != 0;
            let moved = old_src.port != new_src.port;
            &&& steps.contains(SkbStep::StoreAddress { at: 26, to: new_src.ip })
            &&& steps.contains(
                SkbStep::L3Address { at: 24, from: old_src.ip, to: new_src.ip },
            )
            &&& steps.contains(SkbStep::L4Address { at, from: old_src.ip, to: new_src.ip })
                <==> summed
            &&& steps.contains(SkbStep::StorePort { at: 34, to: new_src.port }) <==> moved
            &&& steps.contains(SkbStep::L4Port { at, from: old_src.port, to: new_src.port })
                <==> moved && summed
            &&& steps.len() == 2 + (if summed {
                1int
            } else {
                0
            }) + (if moved {
                1int
            } else {
                0
            }) + (if moved && summed {
                1int
            } else {
                0
            })
        }),
{
    let steps = snat_steps(old_src, new_src, proto, l4_checksum);
    let at = if proto == 6 {
        50usize
    } else {
        40
    };
    let summed = proto == 6 || l4_checksum != 0;
    let k = if summed {
        1int
    } else {
        0
    };
    if summed {
        assert(steps[0] == SkbStep::L4Address { at, from: old_src.ip, to: new_src.ip });
    }
    assert(steps[k] == SkbStep::L3Address { at: 24, from: old_src.ip, to: new_src.ip });
    assert(steps[k + 1] == SkbStep::StoreAddress { at: 26, to: new_src.ip });
    if old_src.port != new_src.port {
        if summed {
            assert(steps[k + 2] == SkbStep::L4Port { at, from: old_src.port, to: new_src.port });
            assert(steps[k + 3] == SkbStep::StorePort { at: 34, to: new_src.port });
        } else {
            assert(steps[k + 2] == SkbStep::StorePort { at: 34, to: new_src.port });
        }
    }
}

/// Port forwarding is tracked under policy 0, and eight ports are tried for a masqueraded flow.
pub proof fn translation_numbers()
    ensures
        ROUTER_NAT_POLICY == 0,
        NAPT_PROBES == 8,
{
}

} // verus!
