//! Frames that the datapath turns round or rewrites: answers to address requests, refusals, prefix
//! translation, and routed frames.

use vstd::prelude::*;

use crate::addr::Ipv4Addr;
use crate::datapath::{
    be16, be32, bytes16, bytes32, get16, get32, get_mac, patched, patched_index, put, put16, put32,
    put8, Counter, Packet, XdpAction, ETHERTYPE_IPV4, ETH_LEN, IPV4_LEN, IPV6_LEN, O_ETH_SRC,
    O_ETH_TYPE, O_IP, O_IP6_DST, O_IP6_MSG, O_IP6_NEXT, O_IP6_PLEN, O_IP6_SRC, O_IP_CSUM, O_IP_DST,
    O_IP_FRAG, O_IP_ID, O_IP_PROTO, O_IP_SRC, O_IP_TOTLEN, O_IP_TTL, O_L4, O_L4_DPORT, O_L4_SPORT,
    O_TCP_ACK, O_TCP_CSUM, O_TCP_FLAGS, O_TCP_OFF, O_TCP_SEQ, O_TCP_URG, O_TCP_WIN, PROTO_ICMP,
    PROTO_ICMPV6, PROTO_TCP, PROTO_UDP,
};
use crate::overlay::Taken;

verus! {

/// ARP operation: request.
pub const ARP_REQUEST: u16 = 1;

/// ARP operation: reply.
pub const ARP_REPLY: u16 = 2;

/// Length of an ARP message for Ethernet and IPv4.
pub const ARP_LEN: usize = 28;

/// ICMPv6 type of a neighbour solicitation.
pub const ICMPV6_NEIGHBOR_SOLICIT: u8 = 135;

/// Length of the neighbour advertisement that is sent.
pub const ND_NA_MSG_LEN: usize = 32;

/// Length of what an ICMP refusal puts in front of the refused packet: an IPv4 and an ICMP header.
pub const ICMP_UNREACH_PREPEND: usize = 28;

/// IPv4 total length of an ICMP refusal.
pub const ICMP_UNREACH_TOTAL_LEN: u16 = 56;

// ---------------------------------------------------------------------------
// ARP
// ---------------------------------------------------------------------------

/// The reply to an ARP request: the MAC address that was asked for, to the host that asked.
pub open spec fn arp_reply(f: Seq<u8>, mac: Seq<u8>) -> Seq<u8> {
    let sha = f.subrange(22, 28);
    let spa = f.subrange(28, 32);
    let tpa = f.subrange(38, 42);
    let g = patched(patched(f, 0, sha), O_ETH_SRC as int, mac);
    let g = patched(patched(g, 20, bytes16(ARP_REPLY)), 22, mac);
    patched(patched(patched(g, 28, tpa), 32, sha), 38, spa)
}

/// What is done with an ARP frame, and the frame after it. `entry` is the MAC address known for the
/// address that the frame asks for.
pub open spec fn arp_handled(
    f: Seq<u8>,
    enabled: bool,
    vni: u32,
    entry: Option<[u8; 6]>,
) -> (Taken, Seq<u8>) {
    if !enabled || vni == 0 {
        (Taken::Fall, f)
    } else if f.len() < ETH_LEN + ARP_LEN {
        (Taken::Short, f)
    } else if be16(f, 20) != ARP_REQUEST {
        (Taken::Fall, f)
    } else {
        match entry {
            Some(mac) => (Taken::Done(XdpAction::Tx, Counter::ArpSuppressed), arp_reply(f, mac@)),
            None => (Taken::Fall, f),
        }
    }
}

/// The address that an ARP frame asks for.
pub fn arp_target(frame: &Vec<u8>) -> (r: Option<Ipv4Addr>)
    ensures
        r == if frame@.len() >= ETH_LEN + ARP_LEN {
            Some(Ipv4Addr { bits: be32(frame@, 38) })
        } else {
            None
        },
{
    if frame.len() < ETH_LEN + ARP_LEN {
        return None;
    }
    Some(Ipv4Addr { bits: get32(frame, 38) })
}

fn copy4(f: &Vec<u8>, at: usize) -> (r: [u8; 4])
    requires
        at + 4 <= f.len(),
    ensures
        r@ == f@.subrange(at as int, at + 4),
{
    let r = [f[at], f[at + 1], f[at + 2], f[at + 3]];
    assert(r@ =~= f@.subrange(at as int, at + 4));
    r
}

/// Answers a tenant's ARP request for a known address; everything else is left as it is.
pub fn try_arp(frame: &mut Vec<u8>, enabled: bool, vni: u32, entry: Option<[u8; 6]>) -> (r: Taken)
    ensures
        (r, final(frame)@) == arp_handled(old(frame)@, enabled, vni, entry),
{
    if !enabled || vni == 0 {
        return Taken::Fall;
    }
    if frame.len() < ETH_LEN + ARP_LEN {
        return Taken::Short;
    }
    if get16(frame, 20) != ARP_REQUEST {
        return Taken::Fall;
    }
    let mac = match entry {
        Some(m) => m,
        None => {
            return Taken::Fall;
        },
    };
    let sha = get_mac(frame, 22);
    let spa = copy4(frame, 28);
    let tpa = copy4(frame, 38);
    put(frame, 0, sha.as_slice());
    put(frame, O_ETH_SRC, mac.as_slice());
    put16(frame, 20, ARP_REPLY);
    put(frame, 22, mac.as_slice());
    put(frame, 28, tpa.as_slice());
    put(frame, 32, sha.as_slice());
    put(frame, 38, spa.as_slice());
    Taken::Done(XdpAction::Tx, Counter::ArpSuppressed)
}

// ---------------------------------------------------------------------------
// Neighbour discovery
// ---------------------------------------------------------------------------

/// The fields of a neighbour advertisement.
#[derive(Debug, PartialEq, Eq)]
pub struct NaReply {
    pub eth_dst: [u8; 6],
    pub eth_src: [u8; 6],
    pub ipv6_src: [u8; 16],
    pub ipv6_dst: [u8; 16],
    pub na_msg: [u8; 32],
}

/// The solicitation turned into the advertisement, with the payload length of the advertisement.
pub open spec fn na_written(f: Seq<u8>, r: NaReply) -> Seq<u8> {
    let g = patched(patched(f, 0, r.eth_dst@), O_ETH_SRC as int, r.eth_src@);
    let g = patched(g, O_IP6_PLEN as int, bytes16(ND_NA_MSG_LEN as u16));
    let g = patched(patched(g, O_IP6_SRC as int, r.ipv6_src@), O_IP6_DST as int, r.ipv6_dst@);
    patched(g, O_IP6_MSG as int, r.na_msg@)
}

/// The frame is a neighbour solicitation on a tenant's segment, with room for the advertisement.
pub open spec fn answers_nd(f: Seq<u8>, enabled: bool, vni: u32) -> bool {
    &&& enabled
    &&& vni != 0
    &&& f.len() >= O_IP6_MSG + ND_NA_MSG_LEN
    &&& f[O_IP6_NEXT as int] == PROTO_ICMPV6
    &&& be16(f, O_IP6_PLEN as int) >= ND_NA_MSG_LEN
    &&& f[O_IP6_MSG as int] == ICMPV6_NEIGHBOR_SOLICIT
}

/// What is done with an IPv6 packet that may be a neighbour solicitation, and the frame after it.
/// `reply` is the advertisement for the target, where the target is known. What is not answered goes
/// on to the firewall.
pub open spec fn nd_handled(f: Seq<u8>, enabled: bool, vni: u32, reply: Option<NaReply>) -> (
    Taken,
    Seq<u8>,
) {
    match reply {
        Some(r) if answers_nd(f, enabled, vni) => (
            Taken::Done(XdpAction::Tx, Counter::NdSuppressed),
            na_written(f, r),
        ),
        _ => (Taken::Fall, f),
    }
}

/// The address that a neighbour solicitation asks for.
pub fn nd_target(frame: &Vec<u8>) -> (r: Option<Vec<u8>>)
    ensures
        match r {
            Some(t) => frame@.len() >= ETH_LEN + IPV6_LEN + 24 && t@ == frame@.subrange(62, 78),
            None => frame@.len() < ETH_LEN + IPV6_LEN + 24,
        },
{
    if frame.len() < ETH_LEN + IPV6_LEN + 24 {
        return None;
    }
    let mut t: Vec<u8> = Vec::new();
    for i in 62..78
        invariant
            frame@.len() >= 78,
            t@ == frame@.subrange(62, i as int),
    {
        t.push(frame[i]);
        assert(frame@.subrange(62, i + 1) =~= frame@.subrange(62, i as int).push(frame@[i as int]));
    }
    Some(t)
}

/// Answers a tenant's neighbour solicitation for a known address in place; everything else is left
/// as it is.
pub fn try_nd(frame: &mut Vec<u8>, enabled: bool, vni: u32, reply: &Option<NaReply>) -> (r: Taken)
    ensures
        (r, final(frame)@) == nd_handled(old(frame)@, enabled, vni, *reply),
{
    if !enabled || vni == 0 || frame.len() < O_IP6_MSG + ND_NA_MSG_LEN {
        return Taken::Fall;
    }
    if frame[O_IP6_NEXT] != PROTO_ICMPV6 || (get16(frame, O_IP6_PLEN) as usize) < ND_NA_MSG_LEN
        || frame[O_IP6_MSG] != ICMPV6_NEIGHBOR_SOLICIT {
        return Taken::Fall;
    }
    let r = match reply {
        Some(r) => r,
        None => {
            return Taken::Fall;
        },
    };
    put(frame, 0, r.eth_dst.as_slice());
    put(frame, O_ETH_SRC, r.eth_src.as_slice());
    put16(frame, O_IP6_PLEN, ND_NA_MSG_LEN as u16);
    put(frame, O_IP6_SRC, r.ipv6_src.as_slice());
    put(frame, O_IP6_DST, r.ipv6_dst.as_slice());
    put(frame, O_IP6_MSG, r.na_msg.as_slice());
    Taken::Done(XdpAction::Tx, Counter::NdSuppressed)
}

// ---------------------------------------------------------------------------
// Prefix translation
// ---------------------------------------------------------------------------

/// Replaces the IPv6 source address of a frame that leaves, where a translation is given. A frame
/// that is too short stays as it is.
pub fn npt66_egress_v6(frame: &mut Vec<u8>, translated: Option<[u8; 16]>)
    ensures
        final(frame)@ == match translated {
            Some(a) if old(frame)@.len() >= O_IP6_SRC + 16 => patched(
                old(frame)@,
                O_IP6_SRC as int,
                a@,
            ),
            _ => old(frame)@,
        },
{
    match translated {
        Some(a) => {
            if frame.len() >= O_IP6_SRC + 16 {
                put(frame, O_IP6_SRC, a.as_slice());
            }
        },
        None => {},
    }
}

/// Replaces the IPv6 destination address of a frame that comes in, where a translation is given.
/// `false` where the frame is too short.
pub fn npt66_ingress_v6(frame: &mut Vec<u8>, translated: Option<[u8; 16]>) -> (ok: bool)
    ensures
        ok == (translated is None || old(frame)@.len() >= O_IP6_DST + 16),
        final(frame)@ == match translated {
            Some(a) if ok => patched(old(frame)@, O_IP6_DST as int, a@),
            _ => old(frame)@,
        },
{
    match translated {
        Some(a) => {
            if frame.len() < O_IP6_DST + 16 {
                return false;
            }
            put(frame, O_IP6_DST, a.as_slice());
            true
        },
        None => true,
    }
}

// ---------------------------------------------------------------------------
// Refusals
// ---------------------------------------------------------------------------

/// What a refused TCP segment says of itself.
#[derive(Clone, Copy, Debug, PartialEq, Eq, Structural)]
pub struct Segment {
    pub seq: u32,
    pub ack: u32,
    pub flags: u8,
    /// The sequence numbers that the segment takes up: its payload, and one each for SYN and FIN.
    pub seg_len: u32,
}

/// The reset that answers a segment.
#[derive(Clone, Copy, Debug, PartialEq, Eq, Structural)]
pub struct TcpRst {
    pub seq: u32,
    pub ack: u32,
    pub flags: u8,
    pub ip_checksum: u16,
    pub tcp_checksum: u16,
}

/// How a packet is refused.
#[derive(Clone, Copy, Debug, PartialEq, Eq, Structural)]
pub enum Refusal {
    /// Dropped without an answer, and counted as refused.
    Silent,
    /// The frame is too short for what is read of it.
    Short,
    /// With a TCP reset.
    Reset(Segment),
    /// With an ICMP message.
    Unreachable,
}

/// Whether a flag of a TCP segment is set; `flag` is a power of two.
pub open spec fn flag_set(flags: u8, flag: u8) -> bool {
    (flags / flag) % 2 == 1
}

/// The payload of a TCP segment behind an IPv4 header without options.
pub open spec fn payload_len(total_len: u16, data_off: u8) -> int {
    let n = total_len - (IPV4_LEN + data_off / 16 * 4);
    if n < 0 {
        0
    } else {
        n
    }
}

/// What a TCP segment says of itself.
pub open spec fn segment_of(f: Seq<u8>) -> Segment {
    let flags = f[O_TCP_FLAGS as int];
    Segment {
        seq: be32(f, O_TCP_SEQ as int),
        ack: be32(f, O_TCP_ACK as int),
        flags,
        seg_len: (payload_len(be16(f, O_IP_TOTLEN as int), f[O_TCP_OFF as int]) + (if flag_set(
            flags,
            2,
        ) {
            1int
        } else {
            0
        }) + (if flag_set(flags, 1) {
            1int
        } else {
            0
        })) as u32,
    }
}

/// How a packet is refused: a TCP segment with a reset unless it is a reset itself, a UDP datagram
/// with an ICMP message, and any other without an answer; so too where the IPv4 header has options.
pub open spec fn refusal_of(f: Seq<u8>, p: Packet) -> Refusal {
    if p.ihl != IPV4_LEN {
        Refusal::Silent
    } else if p.proto == PROTO_UDP {
        Refusal::Unreachable
    } else if p.proto != PROTO_TCP {
        Refusal::Silent
    } else if f.len() < O_TCP_FLAGS + 1 {
        Refusal::Short
    } else if flag_set(f[O_TCP_FLAGS as int], 4) {
        Refusal::Silent
    } else {
        Refusal::Reset(segment_of(f))
    }
}

/// Decides how a packet is refused.
pub fn reject_packet(frame: &Vec<u8>, p: &Packet) -> (r: Refusal)
    requires
        frame@.len() >= ETH_LEN + IPV4_LEN,
    ensures
        r == refusal_of(frame@, *p),
{
    if p.ihl != IPV4_LEN {
        return Refusal::Silent;
    }
    if p.proto == PROTO_UDP {
        return Refusal::Unreachable;
    }
    if p.proto != PROTO_TCP {
        return Refusal::Silent;
    }
    if frame.len() < O_TCP_FLAGS + 1 {
        return Refusal::Short;
    }
    let flags: u8 = frame[O_TCP_FLAGS];
    if (flags / 4) % 2 == 1 {
        return Refusal::Silent;
    }
    let total_len: u32 = get16(frame, O_IP_TOTLEN) as u32;
    let headers: u32 = 20 + (frame[O_TCP_OFF] / 16) as u32 * 4;
    let payload: u32 = if total_len >= headers {
        total_len - headers
    } else {
        0
    };
    let syn: u32 = ((flags / 2) % 2) as u32;
    let fin: u32 = (flags % 2) as u32;
    Refusal::Reset(
        Segment {
            seq: get32(frame, O_TCP_SEQ),
            ack: get32(frame, O_TCP_ACK),
            flags,
            seg_len: payload + syn + fin,
        },
    )
}

/// Two refusing hosts never answer each other's resets.
pub proof fn reset_is_not_answered(f: Seq<u8>, p: Packet)
    requires
        p.proto == PROTO_TCP,
        flag_set(f[O_TCP_FLAGS as int], 4),
    ensures
        !(refusal_of(f, p) is Reset),
        !(refusal_of(f, p) is Unreachable),
{
}

/// The segment turned into the reset that answers it.
pub open spec fn rst_written(f: Seq<u8>, p: Packet, rst: TcpRst) -> Seq<u8> {
    let g = patched(patched(f, 0, f.subrange(6, 12)), O_ETH_SRC as int, f.subrange(0, 6));
    let g = patched(
        patched(g, O_IP_SRC as int, bytes32(p.dst.bits)),
        O_IP_DST as int,
        bytes32(p.src.bits),
    );
    let g = patched(patched(g, O_IP_TOTLEN as int, bytes16(40)), O_IP_ID as int, bytes16(0));
    let g = patched(patched(g, O_IP_FRAG as int, bytes16(0)), O_IP_TTL as int, seq![64u8]);
    let g = patched(
        patched(g, O_IP_PROTO as int, seq![PROTO_TCP]),
        O_IP_CSUM as int,
        bytes16(rst.ip_checksum),
    );
    let g = patched(
        patched(g, O_L4_SPORT as int, bytes16(p.dst_port)),
        O_L4_DPORT as int,
        bytes16(p.src_port),
    );
    let g = patched(
        patched(g, O_TCP_SEQ as int, bytes32(rst.seq)),
        O_TCP_ACK as int,
        bytes32(rst.ack),
    );
    let g = patched(patched(g, O_TCP_OFF as int, seq![80u8]), O_TCP_FLAGS as int, seq![rst.flags]);
    let g = patched(
        patched(g, O_TCP_WIN as int, bytes16(0)),
        O_TCP_CSUM as int,
        bytes16(rst.tcp_checksum),
    );
    patched(g, O_TCP_URG as int, bytes16(0))
}

/// Turns a segment into the reset that answers it; a frame that is too short is dropped as it is.
pub fn write_rst(frame: &mut Vec<u8>, p: &Packet, rst: &TcpRst) -> (r: (XdpAction, Option<Counter>))
    ensures
        if old(frame)@.len() >= O_TCP_URG + 2 {
            r == (XdpAction::Tx, Some(Counter::Rejected)) && final(frame)@ == rst_written(
                old(frame)@,
                *p,
                *rst,
            )
        } else {
            r == (XdpAction::Drop, None::<Counter>) && final(frame)@ == old(frame)@
        },
{
    if frame.len() < O_TCP_URG + 2 {
        return (XdpAction::Drop, None);
    }
    let dst = get_mac(frame, 0);
    let src = get_mac(frame, O_ETH_SRC);
    put(frame, 0, src.as_slice());
    put(frame, O_ETH_SRC, dst.as_slice());
    put32(frame, O_IP_SRC, p.dst.bits);
    put32(frame, O_IP_DST, p.src.bits);
    put16(frame, O_IP_TOTLEN, 40);
    put16(frame, O_IP_ID, 0);
    put16(frame, O_IP_FRAG, 0);
    put8(frame, O_IP_TTL, 64);
    put8(frame, O_IP_PROTO, PROTO_TCP);
    put16(frame, O_IP_CSUM, rst.ip_checksum);
    put16(frame, O_L4_SPORT, p.dst_port);
    put16(frame, O_L4_DPORT, p.src_port);
    put32(frame, O_TCP_SEQ, rst.seq);
    put32(frame, O_TCP_ACK, rst.ack);
    put8(frame, O_TCP_OFF, 80);
    put8(frame, O_TCP_FLAGS, rst.flags);
    put16(frame, O_TCP_WIN, 0);
    put16(frame, O_TCP_CSUM, rst.tcp_checksum);
    put16(frame, O_TCP_URG, 0);
    (XdpAction::Tx, Some(Counter::Rejected))
}

// ---------------------------------------------------------------------------
// The Internet checksum
// ---------------------------------------------------------------------------

/// The sum of the 16-bit numbers in the first `2 * n` bytes from `at` on.
pub open spec fn word_sum(f: Seq<u8>, at: int, n: int) -> int
    decreases n,
{
    if n <= 0 {
        0
    } else {
        word_sum(f, at, n - 1) + be16(f, at + 2 * (n - 1))
    }
}

/// The one's complement of the one's-complement sum: what makes the sum of a message with its
/// checksum all ones.
pub open spec fn checksum_of(sum: int) -> u16 {
    if sum == 0 {
        0xffff
    } else {
        (0xffff - ((sum - 1) % 65535 + 1)) as u16
    }
}

fn checksum36(f: &Vec<u8>, at: usize) -> (r: u16)
    requires
        at + 36 <= f.len(),
    ensures
        r == checksum_of(word_sum(f@, at as int, 18)),
{
    let mut sum: u32 = 0;
    for i in 0usize..18
        invariant
            at + 36 <= f.len(),
            sum == word_sum(f@, at as int, i as int),
            sum <= i * 65535,
    {
        sum = sum + get16(f, at + 2 * i) as u32;
    }
    if sum == 0 {
        0xffff
    } else {
        (0xffff - ((sum - 1) % 65535 + 1)) as u16
    }
}

/// A sum with the checksum added to it is a multiple of all ones: the receiver accepts the message.
pub proof fn checksum_verifies(sum: int)
    requires
        sum > 0,
    ensures
        (sum + checksum_of(sum)) % 65535 == 0,
{
    let r = (sum - 1) % 65535 + 1;
    assert((sum + 0xffff - r) % 65535 == 0) by (nonlinear_arith)
        requires
            r == (sum - 1) % 65535 + 1,
            sum > 0,
    ;
}

/// Zero bytes where the headers of an ICMP refusal will be.
pub open spec fn refusal_room() -> Seq<u8> {
    Seq::new(ICMP_UNREACH_PREPEND as nat, |i: int| 0u8)
}

fn prepend_room(frame: &mut Vec<u8>)
    ensures
        final(frame)@ == refusal_room() + old(frame)@,
{
    let mut g: Vec<u8> = Vec::new();
    for i in 0..ICMP_UNREACH_PREPEND
        invariant
            g@ == Seq::new(i as nat, |j: int| 0u8),
    {
        g.push(0);
        assert(g@ =~= Seq::new((i + 1) as nat, |j: int| 0u8));
    }
    g.append(frame);
    *frame = g;
}

/// The headers of an ICMP refusal, in front of the refused packet.
pub open spec fn unreachable_headers(
    g: Seq<u8>,
    dst_mac: Seq<u8>,
    src_mac: Seq<u8>,
    p: Packet,
    ip_checksum: u16,
) -> Seq<u8> {
    let g = patched(patched(g, 0, src_mac), O_ETH_SRC as int, dst_mac);
    let g = patched(g, O_ETH_TYPE as int, bytes16(ETHERTYPE_IPV4));
    let g = patched(patched(g, O_IP as int, seq![0x45u8]), O_IP + 1, seq![0u8]);
    let g = patched(
        patched(g, O_IP_TOTLEN as int, bytes16(ICMP_UNREACH_TOTAL_LEN)),
        O_IP_ID as int,
        bytes16(0),
    );
    let g = patched(patched(g, O_IP_FRAG as int, bytes16(0)), O_IP_TTL as int, seq![64u8]);
    let g = patched(
        patched(g, O_IP_PROTO as int, seq![PROTO_ICMP]),
        O_IP_CSUM as int,
        bytes16(ip_checksum),
    );
    let g = patched(
        patched(g, O_IP_SRC as int, bytes32(p.dst.bits)),
        O_IP_DST as int,
        bytes32(p.src.bits),
    );
    let g = patched(patched(g, O_L4 as int, seq![3u8]), O_L4 + 1, seq![3u8]);
    patched(patched(g, O_L4 + 2, bytes16(0)), O_L4 + 4, bytes32(0))
}

/// The refused packet behind the headers of an ICMP refusal, with the checksum of the message.
pub open spec fn unreachable_written(f: Seq<u8>, p: Packet, ip_checksum: u16) -> Seq<u8> {
    let g = unreachable_headers(
        refusal_room() + f,
        f.subrange(0, 6),
        f.subrange(6, 12),
        p,
        ip_checksum,
    );
    patched(g, O_L4 + 2, bytes16(checksum_of(word_sum(g, O_L4 as int, 18))))
}

/// Turns a refused datagram into the ICMP message that says so. `accepted` is whether the kernel
/// made room in front of the frame.
pub fn reject_icmp_unreachable(
    frame: &mut Vec<u8>,
    p: &Packet,
    ip_checksum: u16,
    accepted: bool,
) -> (r: (XdpAction, Option<Counter>))
    requires
        old(frame)@.len() >= ETH_LEN + IPV4_LEN,
        old(frame)@.len() <= usize::MAX - ICMP_UNREACH_PREPEND,
    ensures
        if p.proto != PROTO_UDP {
            r == (XdpAction::Drop, Some(Counter::Rejected)) && final(frame)@ == old(frame)@
        } else if !accepted {
            r == (XdpAction::Drop, Some(Counter::Malformed)) && final(frame)@ == old(frame)@
        } else if old(frame)@.len() + ICMP_UNREACH_PREPEND < O_L4 + 36 {
            r == (XdpAction::Drop, None::<Counter>) && final(frame)@ == refusal_room() + old(frame)@
        } else {
            r == (XdpAction::Tx, Some(Counter::Rejected)) && final(frame)@ == unreachable_written(
                old(frame)@,
                *p,
                ip_checksum,
            )
        },
{
    if p.proto != PROTO_UDP {
        return (XdpAction::Drop, Some(Counter::Rejected));
    }
    let dst = get_mac(frame, 0);
    let src = get_mac(frame, O_ETH_SRC);
    if !accepted {
        return (XdpAction::Drop, Some(Counter::Malformed));
    }
    prepend_room(frame);
    if frame.len() < O_L4 + 36 {
        return (XdpAction::Drop, None);
    }
    put(frame, 0, src.as_slice());
    put(frame, O_ETH_SRC, dst.as_slice());
    put16(frame, O_ETH_TYPE, ETHERTYPE_IPV4);
    put8(frame, O_IP, 0x45);
    put8(frame, O_IP + 1, 0);
    put16(frame, O_IP_TOTLEN, ICMP_UNREACH_TOTAL_LEN);
    put16(frame, O_IP_ID, 0);
    put16(frame, O_IP_FRAG, 0);
    put8(frame, O_IP_TTL, 64);
    put8(frame, O_IP_PROTO, PROTO_ICMP);
    put16(frame, O_IP_CSUM, ip_checksum);
    put32(frame, O_IP_SRC, p.dst.bits);
    put32(frame, O_IP_DST, p.src.bits);
    put8(frame, O_L4, 3);
    put8(frame, O_L4 + 1, 3);
    put16(frame, O_L4 + 2, 0);
    put32(frame, O_L4 + 4, 0);
    let sum: u16 = checksum36(frame, O_L4);
    put16(frame, O_L4 + 2, sum);
    (XdpAction::Tx, Some(Counter::Rejected))
}

// ---------------------------------------------------------------------------
// Routed frames
// ---------------------------------------------------------------------------

/// How a routed or switched frame is rewritten.
#[derive(Clone, Copy, Debug, PartialEq, Eq)]
pub struct Rewrite {
    pub dst_mac: [u8; 6],
    pub src_mac: [u8; 6],
    /// The new time to live of a routed frame; a switched one keeps it.
    pub new_ttl: Option<u8>,
    pub new_checksum: u16,
    pub out_ifindex: u32,
}

/// What the routes say of a packet.
#[derive(Clone, Copy, Debug, PartialEq, Eq)]
pub enum ForwardOutcome {
    /// No route takes it.
    Pass,
    /// A route would take it, but its time to live is over.
    TtlExceeded,
    /// It is rewritten and sent on.
    Redirect(Rewrite),
}

/// The frame after a rewrite.
pub open spec fn rewritten(f: Seq<u8>, w: Rewrite) -> Seq<u8> {
    let g = patched(patched(f, 0, w.dst_mac@), O_ETH_SRC as int, w.src_mac@);
    match w.new_ttl {
        Some(ttl) => patched(
            patched(g, O_IP_TTL as int, seq![ttl]),
            O_IP_CSUM as int,
            bytes16(w.new_checksum),
        ),
        None => g,
    }
}

/// The bytes that a rewrite needs.
pub open spec fn rewrite_len(w: Rewrite) -> int {
    if w.new_ttl is Some {
        O_IP_CSUM + 2
    } else {
        12
    }
}

/// Rewrites a frame and sends it out of another interface. `redirects` is whether that interface
/// can be redirected to.
pub fn forward(frame: &mut Vec<u8>, w: &Rewrite, redirects: bool) -> (r: Taken)
    ensures
        if old(frame)@.len() < rewrite_len(*w) {
            r == Taken::Short && final(frame)@ == old(frame)@
        } else {
            &&& r == Taken::Done(
                if redirects {
                    XdpAction::Redirect
                } else {
                    XdpAction::Aborted
                },
                Counter::Forwarded,
            )
            &&& final(frame)@ == rewritten(old(frame)@, *w)
        },
{
    match w.new_ttl {
        Some(ttl) => {
            if frame.len() < O_IP_CSUM + 2 {
                return Taken::Short;
            }
            put(frame, 0, w.dst_mac.as_slice());
            put(frame, O_ETH_SRC, w.src_mac.as_slice());
            put8(frame, O_IP_TTL, ttl);
            put16(frame, O_IP_CSUM, w.new_checksum);
        },
        None => {
            if frame.len() < 12 {
                return Taken::Short;
            }
            put(frame, 0, w.dst_mac.as_slice());
            put(frame, O_ETH_SRC, w.src_mac.as_slice());
        },
    }
    let action = if redirects {
        XdpAction::Redirect
    } else {
        XdpAction::Aborted
    };
    Taken::Done(action, Counter::Forwarded)
}

/// What is done with a packet that may be routed, and the frame after it.
pub open spec fn routed(f: Seq<u8>, outcome: ForwardOutcome, redirects: bool) -> (Taken, Seq<u8>) {
    match outcome {
        ForwardOutcome::Pass => (Taken::Fall, f),
        ForwardOutcome::TtlExceeded => (
            Taken::Done(XdpAction::Drop, Counter::ForwardTtlExceeded),
            f,
        ),
        ForwardOutcome::Redirect(w) => if f.len() < rewrite_len(w) {
            (Taken::Short, f)
        } else {
            (
                Taken::Done(
                    if redirects {
                        XdpAction::Redirect
                    } else {
                        XdpAction::Aborted
                    },
                    Counter::Forwarded,
                ),
                rewritten(f, w),
            )
        },
    }
}

/// Does with a packet what the routes say of it.
pub fn route_frame(frame: &mut Vec<u8>, outcome: &ForwardOutcome, redirects: bool) -> (r: Taken)
    ensures
        (r, final(frame)@) == routed(old(frame)@, *outcome, redirects),
{
    match outcome {
        ForwardOutcome::Pass => Taken::Fall,
        ForwardOutcome::TtlExceeded => Taken::Done(XdpAction::Drop, Counter::ForwardTtlExceeded),
        ForwardOutcome::Redirect(w) => forward(frame, w, redirects),
    }
}

// ---------------------------------------------------------------------------
// Laws
// ---------------------------------------------------------------------------

/// An ARP request on a tenant's segment for a known address is answered, and nothing else is.
pub proof fn known_address_is_answered(f: Seq<u8>, enabled: bool, vni: u32, entry: Option<[u8; 6]>)
    ensures
        ({
            let (taken, g) = arp_handled(f, enabled, vni, entry);
            let asked = enabled && vni != 0 && f.len() >= 42 && f[20] == 0 && f[21] == 1
                && entry is Some;
            &&& taken == Taken::Done(XdpAction::Tx, Counter::ArpSuppressed) <==> asked
            &&& !asked ==> g == f
            &&& taken == Taken::Short <==> enabled && vni != 0 && f.len() < 42
            &&& taken is Done ==> asked
        }),
{
}

/// The answer to an ARP request: a reply to the host that asked, from the MAC address that was asked
/// for, which it gives as the one of the address asked for; the rest of the frame stays.
pub proof fn arp_answer(f: Seq<u8>, mac: Seq<u8>, i: int)
    requires
        f.len() >= 42,
        mac.len() == 6,
        0 <= i < f.len(),
    ensures
        ({
            let g = arp_reply(f, mac);
            &&& g.len() == f.len()
            &&& 0 <= i < 6 ==> g[i] == f[22 + i]
            &&& 6 <= i < 12 ==> g[i] == mac[i - 6]
            &&& i == 20 ==> g[i] == 0
            &&& i == 21 ==> g[i] == 2
            &&& 22 <= i < 28 ==> g[i] == mac[i - 22]
            &&& 28 <= i < 32 ==> g[i] == f[i + 10]
            &&& 32 <= i < 38 ==> g[i] == f[i - 10]
            &&& 38 <= i < 42 ==> g[i] == f[i - 10]
            &&& 12 <= i < 20 || i >= 42 ==> g[i] == f[i]
        }),
{
    let sha = f.subrange(22, 28);
    let spa = f.subrange(28, 32);
    let tpa = f.subrange(38, 42);
    patched_index(f, 0, sha);
    let g1 = patched(f, 0, sha);
    patched_index(g1, 6, mac);
    let g2 = patched(g1, 6, mac);
    patched_index(g2, 20, bytes16(2));
    let g3 = patched(g2, 20, bytes16(2));
    patched_index(g3, 22, mac);
    let g4 = patched(g3, 22, mac);
    patched_index(g4, 28, tpa);
    let g5 = patched(g4, 28, tpa);
    patched_index(g5, 32, sha);
    let g6 = patched(g5, 32, sha);
    patched_index(g6, 38, spa);
}

/// A neighbour solicitation on a tenant's segment for a known address, with room for the answer, is
/// answered, and nothing else is.
pub proof fn known_neighbour_address_is_answered(
    f: Seq<u8>,
    enabled: bool,
    vni: u32,
    reply: Option<NaReply>,
)
    ensures
        ({
            let (taken, g) = nd_handled(f, enabled, vni, reply);
            let asked = enabled && vni != 0 && f.len() >= 86 && f[20] == 58 && f[18] * 256 + f[19]
                >= 32 && f[54] == 135 && reply is Some;
            &&& taken == Taken::Done(XdpAction::Tx, Counter::NdSuppressed) <==> asked
            &&& !asked ==> taken == Taken::Fall && g == f
        }),
{
}

/// The answer to a neighbour solicitation has the addresses and the message of the advertisement, and
/// the message's length; the rest of the frame stays.
pub proof fn nd_answer(f: Seq<u8>, r: NaReply, i: int)
    requires
        f.len() >= 86,
        0 <= i < f.len(),
    ensures
        ({
            let g = na_written(f, r);
            &&& g.len() == f.len()
            &&& 0 <= i < 6 ==> g[i] == r.eth_dst[i]
            &&& 6 <= i < 12 ==> g[i] == r.eth_src[i - 6]
            &&& i == 18 ==> g[i] == 0
            &&& i == 19 ==> g[i] == 32
            &&& 22 <= i < 38 ==> g[i] == r.ipv6_src[i - 22]
            &&& 38 <= i < 54 ==> g[i] == r.ipv6_dst[i - 38]
            &&& 54 <= i < 86 ==> g[i] == r.na_msg[i - 54]
            &&& 12 <= i < 18 || 20 <= i < 22 || i >= 86 ==> g[i] == f[i]
        }),
{
    patched_index(f, 0, r.eth_dst@);
    let g1 = patched(f, 0, r.eth_dst@);
    patched_index(g1, 6, r.eth_src@);
    let g2 = patched(g1, 6, r.eth_src@);
    patched_index(g2, 18, bytes16(32));
    let g3 = patched(g2, 18, bytes16(32));
    patched_index(g3, 22, r.ipv6_src@);
    let g4 = patched(g3, 22, r.ipv6_src@);
    patched_index(g4, 38, r.ipv6_dst@);
    let g5 = patched(g4, 38, r.ipv6_dst@);
    patched_index(g5, 54, r.na_msg@);
}

/// How a packet without IPv4 options is refused: TCP with a reset, unless it is a reset; UDP with an
/// ICMP message; anything else in silence. A packet with options is refused in silence.
pub proof fn refusals(f: Seq<u8>, p: Packet)
    ensures
        ({
            let r = refusal_of(f, p);
            &&& r is Unreachable <==> p.ihl == 20 && p.proto == 17
            &&& r is Reset <==> p.ihl == 20 && p.proto == 6 && f.len() >= 48 && f[47] / 4 % 2 == 0
            &&& r is Short <==> p.ihl == 20 && p.proto == 6 && f.len() < 48
            &&& r is Silent <==> p.ihl != 20 || !(p.proto == 6 || p.proto == 17) || p.proto == 6
                && f.len() >= 48 && f[47] / 4 % 2 == 1
        }),
{
}

/// What a reset is computed from: the segment's numbers and flags, and how much of the sequence it
/// takes up, which is its payload and one for each of SYN and FIN.
pub proof fn refused_segment(f: Seq<u8>, p: Packet, s: Segment)
    requires
        refusal_of(f, p) == Refusal::Reset(s),
    ensures
        s.seq == f[38] * 0x100_0000 + f[39] * 0x1_0000 + f[40] * 0x100 + f[41],
        s.ack == f[42] * 0x100_0000 + f[43] * 0x1_0000 + f[44] * 0x100 + f[45],
        s.flags == f[47],
        ({
            let total = f[16] * 256 + f[17];
            let headers = 20 + f[46] / 16 * 4;
            let payload = if total >= headers {
                total - headers
            } else {
                0
            };
            s.seg_len == payload + f[47] / 2 % 2 + f[47] % 2
        }),
{
}

/// The reset that answers a segment: the ends change places at every layer, the numbers, flags and
/// checksums are those of the reset, and it is 40 bytes long, without options or window.
#[verifier::rlimit(60)]
#[verifier::spinoff_prover]
pub proof fn reset_answer(f: Seq<u8>, p: Packet, rst: TcpRst, i: int)
    requires
        f.len() >= 54,
        0 <= i < f.len(),
    ensures
        ({
            let g = rst_written(f, p, rst);
            &&& g.len() == f.len()
            &&& 0 <= i < 6 ==> g[i] == f[i + 6]
            &&& 6 <= i < 12 ==> g[i] == f[i - 6]
            &&& 16 <= i < 22 ==> g[i] == if i == 17 {
                40u8
            } else {
                0u8
            }
            &&& i == 22 ==> g[i] == 64
            &&& i == 23 ==> g[i] == 6
            &&& g[24] * 256 + g[25] == rst.ip_checksum
            &&& g[26] * 0x100_0000 + g[27] * 0x1_0000 + g[28] * 0x100 + g[29] == p.dst.bits
            &&& g[30] * 0x100_0000 + g[31] * 0x1_0000 + g[32] * 0x100 + g[33] == p.src.bits
            &&& g[34] * 256 + g[35] == p.dst_port
            &&& g[36] * 256 + g[37] == p.src_port
            &&& g[38] * 0x100_0000 + g[39] * 0x1_0000 + g[40] * 0x100 + g[41] == rst.seq
            &&& g[42] * 0x100_0000 + g[43] * 0x1_0000 + g[44] * 0x100 + g[45] == rst.ack
            &&& g[46] == 80
            &&& g[47] == rst.flags
            &&& 48 <= i < 50 || 52 <= i < 54 ==> g[i] == 0
            &&& g[50] * 256 + g[51] == rst.tcp_checksum
            &&& 12 <= i < 16 || i >= 54 ==> g[i] == f[i]
        }),
{
    patched_index(f, 0, f.subrange(6, 12));
    let g = patched(f, 0, f.subrange(6, 12));
    patched_index(g, 6, f.subrange(0, 6));
    let g = patched(g, 6, f.subrange(0, 6));
    patched_index(g, 26, bytes32(p.dst.bits));
    let g = patched(g, 26, bytes32(p.dst.bits));
    patched_index(g, 30, bytes32(p.src.bits));
    let g = patched(g, 30, bytes32(p.src.bits));
    patched_index(g, 16, bytes16(40));
    let g = patched(g, 16, bytes16(40));
    patched_index(g, 18, bytes16(0));
    let g = patched(g, 18, bytes16(0));
    patched_index(g, 20, bytes16(0));
    let g = patched(g, 20, bytes16(0));
    patched_index(g, 22, seq![64u8]);
    let g = patched(g, 22, seq![64u8]);
    patched_index(g, 23, seq![6u8]);
    let g = patched(g, 23, seq![6u8]);
    patched_index(g, 24, bytes16(rst.ip_checksum));
    let g = patched(g, 24, bytes16(rst.ip_checksum));
    patched_index(g, 34, bytes16(p.dst_port));
    let g = patched(g, 34, bytes16(p.dst_port));
    patched_index(g, 36, bytes16(p.src_port));
    let g = patched(g, 36, bytes16(p.src_port));
    patched_index(g, 38, bytes32(rst.seq));
    let g = patched(g, 38, bytes32(rst.seq));
    patched_index(g, 42, bytes32(rst.ack));
    let g = patched(g, 42, bytes32(rst.ack));
    patched_index(g, 46, seq![80u8]);
    let g = patched(g, 46, seq![80u8]);
    patched_index(g, 47, seq![rst.flags]);
    let g = patched(g, 47, seq![rst.flags]);
    patched_index(g, 48, bytes16(0));
    let g = patched(g, 48, bytes16(0));
    patched_index(g, 50, bytes16(rst.tcp_checksum));
    let g = patched(g, 50, bytes16(rst.tcp_checksum));
    patched_index(g, 52, bytes16(0));
}

/// What the routes say of a packet is done: it falls through where no route takes it, it is dropped
/// where its time to live is over, and else it is rewritten and sent on.
pub proof fn route_is_followed(f: Seq<u8>, w: Rewrite, redirects: bool)
    ensures
        routed(f, ForwardOutcome::Pass, redirects) == (Taken::Fall, f),
        routed(f, ForwardOutcome::TtlExceeded, redirects) == (
            Taken::Done(XdpAction::Drop, Counter::ForwardTtlExceeded),
            f,
        ),
        ({
            let (taken, g) = routed(f, ForwardOutcome::Redirect(w), redirects);
            let short = f.len() < 12 || w.new_ttl is Some && f.len() < 26;
            &&& taken == Taken::Short <==> short
            &&& short ==> g == f
            &&& !short && redirects ==> taken == Taken::Done(
                XdpAction::Redirect,
                Counter::Forwarded,
            )
            &&& !short && !redirects ==> taken == Taken::Done(
                XdpAction::Aborted,
                Counter::Forwarded,
            )
        }),
{
}

/// A frame that is sent on has the MAC addresses of the next hop; a routed one also has its new time
/// to live and checksum. Nothing else of it changes.
pub proof fn forwarded_frame(f: Seq<u8>, w: Rewrite, redirects: bool, i: int)
    requires
        f.len() >= 26,
        0 <= i < f.len(),
    ensures
        ({
            let g = routed(f, ForwardOutcome::Redirect(w), redirects).1;
            &&& g.len() == f.len()
            &&& 0 <= i < 6 ==> g[i] == w.dst_mac[i]
            &&& 6 <= i < 12 ==> g[i] == w.src_mac[i - 6]
            &&& w.new_ttl matches Some(ttl) ==> g[22] == ttl && g[24] * 256 + g[25] == w.new_checksum
            &&& i >= 12 && (w.new_ttl is None || i != 22 && i != 24 && i != 25) ==> g[i] == f[i]
        }),
{
    patched_index(f, 0, w.dst_mac@);
    let g = patched(f, 0, w.dst_mac@);
    patched_index(g, 6, w.src_mac@);
    let g = patched(g, 6, w.src_mac@);
    if let Some(ttl) = w.new_ttl {
        patched_index(g, 22, seq![ttl]);
        let g = patched(g, 22, seq![ttl]);
        patched_index(g, 24, bytes16(w.new_checksum));
    }
}

/// The ICMP message that refuses a datagram: from the datagram's destination to its source, of type
/// and code three (the port cannot be reached), with the datagram behind its headers.
#[verifier::rlimit(30)]
#[verifier::spinoff_prover]
pub proof fn unreachable_answer(f: Seq<u8>, p: Packet, ip_checksum: u16, i: int)
    requires
        f.len() >= 42,
        0 <= i < f.len() + 28,
    ensures
        ({
            let g = unreachable_written(f, p, ip_checksum);
            &&& g.len() == f.len() + 28
            &&& 0 <= i < 6 ==> g[i] == f[i + 6]
            &&& 6 <= i < 12 ==> g[i] == f[i - 6]
            &&& g[12] == 8 && g[13] == 0 && g[14] == 0x45 && g[15] == 0
            &&& 16 <= i < 22 ==> g[i] == if i == 17 {
                56u8
            } else {
                0u8
            }
            &&& g[22] == 64 && g[23] == 1
            &&& g[24] * 256 + g[25] == ip_checksum
            &&& g[26] * 0x100_0000 + g[27] * 0x1_0000 + g[28] * 0x100 + g[29] == p.dst.bits
            &&& g[30] * 0x100_0000 + g[31] * 0x1_0000 + g[32] * 0x100 + g[33] == p.src.bits
            &&& g[34] == 3 && g[35] == 3
            &&& 38 <= i < 42 ==> g[i] == 0
            &&& i >= 42 ==> g[i] == f[i - 28]
        }),
{
    let room = refusal_room() + f;
    let (a, b) = (f.subrange(6, 12), f.subrange(0, 6));
    patched_index(room, 0, a);
    let g = patched(room, 0, a);
    patched_index(g, 6, b);
    let g = patched(g, 6, b);
    patched_index(g, 12, bytes16(0x0800));
    let g = patched(g, 12, bytes16(0x0800));
    patched_index(g, 14, seq![0x45u8]);
    let g = patched(g, 14, seq![0x45u8]);
    patched_index(g, 15, seq![0u8]);
    let g = patched(g, 15, seq![0u8]);
    patched_index(g, 16, bytes16(56));
    let g = patched(g, 16, bytes16(56));
    patched_index(g, 18, bytes16(0));
    let g = patched(g, 18, bytes16(0));
    patched_index(g, 20, bytes16(0));
    let g = patched(g, 20, bytes16(0));
    patched_index(g, 22, seq![64u8]);
    let g = patched(g, 22, seq![64u8]);
    patched_index(g, 23, seq![1u8]);
    let g = patched(g, 23, seq![1u8]);
    patched_index(g, 24, bytes16(ip_checksum));
    let g = patched(g, 24, bytes16(ip_checksum));
    patched_index(g, 26, bytes32(p.dst.bits));
    let g = patched(g, 26, bytes32(p.dst.bits));
    patched_index(g, 30, bytes32(p.src.bits));
    let g = patched(g, 30, bytes32(p.src.bits));
    patched_index(g, 34, seq![3u8]);
    let g = patched(g, 34, seq![3u8]);
    patched_index(g, 35, seq![3u8]);
    let g = patched(g, 35, seq![3u8]);
    patched_index(g, 36, bytes16(0));
    let g = patched(g, 36, bytes16(0));
    patched_index(g, 38, bytes32(0));
    let g = patched(g, 38, bytes32(0));
    patched_index(g, 36, bytes16(checksum_of(word_sum(g, 34, 18))));
}

proof fn word_sum_without(f: Seq<u8>, g: Seq<u8>, n: int)
    requires
        2 <= n <= 18,
        f.len() >= 70,
        g.len() == f.len(),
        forall|i: int| 34 <= i < 70 && i != 36 && i != 37 ==> f[i] == g[i],
        f[36] == 0 && f[37] == 0,
    ensures
        word_sum(g, 34, n) == word_sum(f, 34, n) + be16(g, 36),
    decreases n,
{
    if n == 2 {
        reveal_with_fuel(word_sum, 3);
    } else {
        word_sum_without(f, g, n - 1);
        assert(be16(f, 34 + 2 * (n - 1)) == be16(g, 34 + 2 * (n - 1)));
    }
}

proof fn word_sum_grows(f: Seq<u8>, n: int)
    requires
        1 <= n <= 18,
    ensures
        word_sum(f, 34, n) >= be16(f, 34),
    decreases n,
{
    reveal_with_fuel(word_sum, 2);
    if n > 1 {
        word_sum_grows(f, n - 1);
    }
}

/// The receiver accepts the ICMP message: the sum of its numbers, the checksum with them, is a multiple
/// of all ones.
#[verifier::spinoff_prover]
pub proof fn unreachable_checksum_verifies(f: Seq<u8>, p: Packet, ip_checksum: u16)
    requires
        f.len() >= 42,
    ensures
        word_sum(unreachable_written(f, p, ip_checksum), 34, 18) % 65535 == 0,
{
    let g = unreachable_headers(
        refusal_room() + f,
        f.subrange(0, 6),
        f.subrange(6, 12),
        p,
        ip_checksum,
    );
    let h = unreachable_written(f, p, ip_checksum);
    unreachable_answer(f, p, ip_checksum, 34);
    let c = checksum_of(word_sum(g, 34, 18));
    headers_keep_len(refusal_room() + f, f.subrange(0, 6), f.subrange(6, 12), p, ip_checksum);
    patched_index(g, 36, bytes16(c));
    assert(be16(h, 36) == c);
    word_sum_without(g, h, 18);
    word_sum_grows(g, 18);
    assert(be16(g, 34) == 0x303);
    checksum_verifies(word_sum(g, 34, 18));
}

proof fn headers_keep_len(g: Seq<u8>, a: Seq<u8>, b: Seq<u8>, p: Packet, ip_checksum: u16)
    requires
        g.len() >= 70,
        a.len() == 6,
        b.len() == 6,
    ensures
        unreachable_headers(g, a, b, p, ip_checksum).len() == g.len(),
        unreachable_headers(g, a, b, p, ip_checksum)[34] == 3,
        unreachable_headers(g, a, b, p, ip_checksum)[35] == 3,
        unreachable_headers(g, a, b, p, ip_checksum)[36] == 0,
        unreachable_headers(g, a, b, p, ip_checksum)[37] == 0,
{
    patched_index(g, 0, b);
    let g = patched(g, 0, b);
    patched_index(g, 6, a);
    let g = patched(g, 6, a);
    patched_index(g, 12, bytes16(0x0800));
    let g = patched(g, 12, bytes16(0x0800));
    patched_index(g, 14, seq![0x45u8]);
    let g = patched(g, 14, seq![0x45u8]);
    patched_index(g, 15, seq![0u8]);
    let g = patched(g, 15, seq![0u8]);
    patched_index(g, 16, bytes16(56));
    let g = patched(g, 16, bytes16(56));
    patched_index(g, 18, bytes16(0));
    let g = patched(g, 18, bytes16(0));
    patched_index(g, 20, bytes16(0));
    let g = patched(g, 20, bytes16(0));
    patched_index(g, 22, seq![64u8]);
    let g = patched(g, 22, seq![64u8]);
    patched_index(g, 23, seq![1u8]);
    let g = patched(g, 23, seq![1u8]);
    patched_index(g, 24, bytes16(ip_checksum));
    let g = patched(g, 24, bytes16(ip_checksum));
    patched_index(g, 26, bytes32(p.dst.bits));
    let g = patched(g, 26, bytes32(p.dst.bits));
    patched_index(g, 30, bytes32(p.src.bits));
    let g = patched(g, 30, bytes32(p.src.bits));
    patched_index(g, 34, seq![3u8]);
    let g = patched(g, 34, seq![3u8]);
    patched_index(g, 35, seq![3u8]);
    let g = patched(g, 35, seq![3u8]);
    patched_index(g, 36, bytes16(0));
    let g = patched(g, 36, bytes16(0));
    patched_index(g, 38, bytes32(0));
}

/// The numbers of the answers: ARP asks with 1 and answers with 2 in 28 octets; a neighbour
/// solicitation is message 135, and its answer has 32 octets; an ICMP error puts two headers of 28
/// octets in all before the 28 octets that it quotes.
pub proof fn answer_numbers()
    ensures
        ARP_REQUEST == 1 && ARP_REPLY == 2 && ARP_LEN == 28,
        ICMPV6_NEIGHBOR_SOLICIT == 135 && ND_NA_MSG_LEN == 32,
        ICMP_UNREACH_PREPEND == 20 + 8,
        ICMP_UNREACH_TOTAL_LEN == 20 + 8 + 20 + 8,
{
}

} // verus!
