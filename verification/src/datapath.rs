//! Frames: where their fields are, how they are read, and how fields are replaced.

use vstd::prelude::*;

use crate::addr::Ipv4Addr;

verus! {

/// EtherType of IPv4.
pub const ETHERTYPE_IPV4: u16 = 0x0800;

/// EtherType of IPv6.
pub const ETHERTYPE_IPV6: u16 = 0x86dd;

/// EtherType of ARP.
pub const ETHERTYPE_ARP: u16 = 0x0806;

/// Protocol number of ICMP.
pub const PROTO_ICMP: u8 = 1;

/// Protocol number of TCP.
pub const PROTO_TCP: u8 = 6;

/// Protocol number of UDP.
pub const PROTO_UDP: u8 = 17;

/// Protocol number of ICMP for IPv6.
pub const PROTO_ICMPV6: u8 = 58;

/// Length of the Ethernet header.
pub const ETH_LEN: usize = 14;

/// Length of an IPv4 header without options.
pub const IPV4_LEN: usize = 20;

/// Length of the fixed IPv6 header.
pub const IPV6_LEN: usize = 40;

/// Where the source MAC address is.
pub const O_ETH_SRC: usize = 6;

/// Where the EtherType is.
pub const O_ETH_TYPE: usize = 12;

/// Where the IPv4 header starts.
pub const O_IP: usize = 14;

/// Where the IPv4 total length is.
pub const O_IP_TOTLEN: usize = 16;

/// Where the IPv4 identification is.
pub const O_IP_ID: usize = 18;

/// Where the IPv4 flags and fragment offset are.
pub const O_IP_FRAG: usize = 20;

/// Where the IPv4 time to live is.
pub const O_IP_TTL: usize = 22;

/// Where the IPv4 protocol number is.
pub const O_IP_PROTO: usize = 23;

/// Where the IPv4 header checksum is.
pub const O_IP_CSUM: usize = 24;

/// Where the IPv4 source address is.
pub const O_IP_SRC: usize = 26;

/// Where the IPv4 destination address is.
pub const O_IP_DST: usize = 30;

/// Where the layer-4 header starts, behind an IPv4 header without options.
pub const O_L4: usize = 34;

/// Where the source port is.
pub const O_L4_SPORT: usize = 34;

/// Where the destination port is.
pub const O_L4_DPORT: usize = 36;

/// Where the TCP sequence number is.
pub const O_TCP_SEQ: usize = 38;

/// Where the TCP acknowledgement number is.
pub const O_TCP_ACK: usize = 42;

/// Where the TCP data offset is.
pub const O_TCP_OFF: usize = 46;

/// Where the TCP flags are.
pub const O_TCP_FLAGS: usize = 47;

/// Where the TCP window is.
pub const O_TCP_WIN: usize = 48;

/// Where the TCP checksum is.
pub const O_TCP_CSUM: usize = 50;

/// Where the TCP urgent pointer is.
pub const O_TCP_URG: usize = 52;

/// Where the UDP checksum is.
pub const O_UDP_CSUM: usize = 40;

/// Where the IPv6 payload length is.
pub const O_IP6_PLEN: usize = 18;

/// Where the IPv6 next-header number is.
pub const O_IP6_NEXT: usize = 20;

/// Where the IPv6 source address is.
pub const O_IP6_SRC: usize = 22;

/// Where the IPv6 destination address is.
pub const O_IP6_DST: usize = 38;

/// Where the message behind the fixed IPv6 header starts.
pub const O_IP6_MSG: usize = 54;

/// What becomes of a received frame.
#[derive(Clone, Copy, Debug, PartialEq, Eq, Structural)]
pub enum XdpAction {
    Aborted,
    Drop,
    Pass,
    Tx,
    Redirect,
}

/// What becomes of a frame at the traffic-control hooks.
#[derive(Clone, Copy, Debug, PartialEq, Eq, Structural)]
pub enum TcAction {
    Accept,
    Shot,
}

/// What is counted. `Policy` is a counter that the firewall policy names by its number.
#[derive(Clone, Copy, Debug, PartialEq, Eq, Structural)]
pub enum Counter {
    RxPackets,
    RxBytes,
    TxPackets,
    NonIpv4,
    Malformed,
    DroppedBlocklist,
    EstablishedAllowed,
    PassedRule,
    EgressDropped,
    EgressMasqueraded,
    Rejected,
    Forwarded,
    ForwardTtlExceeded,
    LoadBalanced,
    LbEstablished,
    LbReverse,
    LbNoBackend,
    OverlayEncap,
    OverlayDecap,
    OverlayTooBig,
    OverlayDropUntrusted,
    Srv6Encap,
    Srv6Decap,
    ArpSuppressed,
    NdSuppressed,
    BumReplicated,
    Policy(u32),
}

/// What is counted of every frame that comes in: one packet, and its length.
pub fn received(frame: &Vec<u8>) -> (r: [(Counter, u64); 2])
    ensures
        r[0] == (Counter::RxPackets, 1u64),
        r[1] == (Counter::RxBytes, frame@.len() as u64),
{
    [(Counter::RxPackets, 1), (Counter::RxBytes, frame.len() as u64)]
}

/// What is counted of every frame that leaves: one packet, whatever is decided of it.
pub fn transmitted() -> (r: (Counter, u64))
    ensures
        r == (Counter::TxPackets, 1u64),
{
    (Counter::TxPackets, 1)
}

// ---------------------------------------------------------------------------
// Fields
// ---------------------------------------------------------------------------

/// The 16-bit number at a position, most significant byte first.
pub open spec fn be16(f: Seq<u8>, at: int) -> u16 {
    (f[at] * 256 + f[at + 1]) as u16
}

/// The 32-bit number at a position, most significant byte first.
pub open spec fn be32(f: Seq<u8>, at: int) -> u32 {
    (f[at] * 16777216 + f[at + 1] * 65536 + f[at + 2] * 256 + f[at + 3]) as u32
}

/// The bytes of a 16-bit number, most significant first.
pub open spec fn bytes16(n: u16) -> Seq<u8> {
    seq![(n / 256) as u8, (n % 256) as u8]
}

/// The bytes of a 32-bit number, most significant first.
pub open spec fn bytes32(n: u32) -> Seq<u8> {
    seq![
        (n / 16777216) as u8,
        (n / 65536 % 256) as u8,
        (n / 256 % 256) as u8,
        (n % 256) as u8,
    ]
}

/// The IPv4 address at a position.
pub open spec fn addr_at(f: Seq<u8>, at: int) -> Ipv4Addr {
    Ipv4Addr { bits: be32(f, at) }
}

/// The frame with the bytes from a position on replaced.
#[verifier::opaque]
pub open spec fn patched(f: Seq<u8>, at: int, bytes: Seq<u8>) -> Seq<u8> {
    f.take(at) + bytes + f.skip(at + bytes.len())
}

/// Reads a 16-bit number.
pub fn get16(f: &Vec<u8>, at: usize) -> (r: u16)
    requires
        at + 2 <= f.len(),
    ensures
        r == be16(f@, at as int),
{
    f[at] as u16 * 256 + f[at + 1] as u16
}

/// Reads a 32-bit number.
pub fn get32(f: &Vec<u8>, at: usize) -> (r: u32)
    requires
        at + 4 <= f.len(),
    ensures
        r == be32(f@, at as int),
{
    f[at] as u32 * 16777216 + f[at + 1] as u32 * 65536 + f[at + 2] as u32 * 256 + f[at + 3] as u32
}

/// The MAC address at a position.
pub open spec fn mac_at(f: Seq<u8>, at: int) -> [u8; 6] {
    [f[at], f[at + 1], f[at + 2], f[at + 3], f[at + 4], f[at + 5]]
}

/// Reads a MAC address.
pub fn get_mac(f: &Vec<u8>, at: usize) -> (r: [u8; 6])
    requires
        at + 6 <= f.len(),
    ensures
        r@ == f@.subrange(at as int, at + 6),
        r == mac_at(f@, at as int),
{
    let r = [f[at], f[at + 1], f[at + 2], f[at + 3], f[at + 4], f[at + 5]];
    assert(r@ =~= f@.subrange(at as int, at + 6));
    let ghost want = mac_at(f@, at as int);
    assert(r =~= want) by {
        assert forall|i: int| 0 <= i < 6 implies r[i] == want[i] by {}
    }
    r
}

/// Replaces one byte.
pub fn put8(f: &mut Vec<u8>, at: usize, n: u8)
    requires
        at < old(f).len(),
    ensures
        final(f)@ == patched(old(f)@, at as int, seq![n]),
        final(f)@.len() == old(f)@.len(),
{
    f.set(at, n);
    proof {
        reveal(patched);
    }
    assert(f@ =~= patched(old(f)@, at as int, seq![n]));
}

/// Replaces a 16-bit number.
pub fn put16(f: &mut Vec<u8>, at: usize, n: u16)
    requires
        at + 2 <= old(f).len(),
    ensures
        final(f)@ == patched(old(f)@, at as int, bytes16(n)),
        final(f)@.len() == old(f)@.len(),
{
    f.set(at, (n / 256) as u8);
    f.set(at + 1, (n % 256) as u8);
    proof {
        reveal(patched);
    }
    assert(f@ =~= patched(old(f)@, at as int, bytes16(n)));
}

/// Replaces a 32-bit number.
pub fn put32(f: &mut Vec<u8>, at: usize, n: u32)
    requires
        at + 4 <= old(f).len(),
    ensures
        final(f)@ == patched(old(f)@, at as int, bytes32(n)),
        final(f)@.len() == old(f)@.len(),
{
    f.set(at, (n / 16777216) as u8);
    f.set(at + 1, (n / 65536 % 256) as u8);
    f.set(at + 2, (n / 256 % 256) as u8);
    f.set(at + 3, (n % 256) as u8);
    proof {
        reveal(patched);
    }
    assert(f@ =~= patched(old(f)@, at as int, bytes32(n)));
}

/// Replaces a run of bytes.
pub fn put(f: &mut Vec<u8>, at: usize, bytes: &[u8])
    requires
        at + bytes@.len() <= old(f).len(),
    ensures
        final(f)@ == patched(old(f)@, at as int, bytes@),
        final(f)@.len() == old(f)@.len(),
{
    let ghost start = f@;
    for i in 0..bytes.len()
        invariant
            f@.len() == start.len(),
            at + bytes@.len() <= start.len(),
            start.len() <= usize::MAX,
            forall|j: int| 0 <= j < i ==> f@[at + j] == bytes@[j],
            forall|j: int| 0 <= j < start.len() && !(at <= j < at + i) ==> f@[j] == start[j],
    {
        f.set(at + i, bytes[i]);
    }
    proof {
        reveal(patched);
    }
    assert(f@ =~= patched(start, at as int, bytes@));
}

/// Replacing bytes keeps the length and every other byte.
pub proof fn patched_bytes(f: Seq<u8>, at: int, bytes: Seq<u8>)
    requires
        0 <= at,
        at + bytes.len() <= f.len(),
    ensures
        patched(f, at, bytes).len() == f.len(),
        patched(f, at, bytes).subrange(at, at + bytes.len()) == bytes,
        forall|i: int|
            0 <= i < f.len() && !(at <= i < at + bytes.len()) ==> #[trigger] patched(
                f,
                at,
                bytes,
            )[i]
                == f[i],
{
    reveal(patched);
    assert(patched(f, at, bytes).subrange(at, at + bytes.len()) =~= bytes);
}

// ---------------------------------------------------------------------------
// IPv4 packets
// ---------------------------------------------------------------------------

/// What the datapath reads of an IPv4 packet.
#[derive(Clone, Copy, Debug, PartialEq, Eq, Structural)]
pub struct Packet {
    /// Length of the IPv4 header.
    pub ihl: usize,
    pub proto: u8,
    pub ttl: u8,
    pub checksum: u16,
    pub tot_len: u16,
    pub src: Ipv4Addr,
    pub dst: Ipv4Addr,
    /// Zero where the packet has no ports: another protocol, a later fragment, or too short.
    pub src_port: u16,
    pub dst_port: u16,
}

/// TCP or UDP.
pub open spec fn has_ports(proto: u8) -> bool {
    proto == PROTO_TCP || proto == PROTO_UDP
}

/// Decides [`has_ports`].
pub fn with_ports(proto: u8) -> (r: bool)
    ensures
        r == has_ports(proto),
{
    proto == PROTO_TCP || proto == PROTO_UDP
}

/// The length of the IPv4 header that a frame states.
pub open spec fn ihl_of(f: Seq<u8>) -> int {
    f[O_IP as int] % 16 * 4
}

/// The IPv4 header is one of version four, with at least its fixed part.
pub open spec fn ipv4_sound(f: Seq<u8>) -> bool {
    f[O_IP as int] / 16 == 4 && ihl_of(f) >= IPV4_LEN
}

/// The packet carries a layer-4 header: it is TCP or UDP, the first fragment, and long enough.
pub open spec fn carries_ports(f: Seq<u8>) -> bool {
    &&& has_ports(f[O_IP_PROTO as int])
    &&& be16(f, O_IP_FRAG as int) % 8192 == 0
    &&& ETH_LEN + ihl_of(f) + 4 <= f.len()
}

/// What a frame with a sound IPv4 header holds.
pub open spec fn packet_of(f: Seq<u8>) -> Packet {
    let l4 = ETH_LEN + ihl_of(f);
    Packet {
        ihl: ihl_of(f) as usize,
        proto: f[O_IP_PROTO as int],
        ttl: f[O_IP_TTL as int],
        checksum: be16(f, O_IP_CSUM as int),
        tot_len: be16(f, O_IP_TOTLEN as int),
        src: addr_at(f, O_IP_SRC as int),
        dst: addr_at(f, O_IP_DST as int),
        src_port: if carries_ports(f) {
            be16(f, l4)
        } else {
            0
        },
        dst_port: if carries_ports(f) {
            be16(f, l4 + 2)
        } else {
            0
        },
    }
}

/// What a frame turns out to be.
#[derive(Clone, Copy, Debug, PartialEq, Eq, Structural)]
pub enum Parsed {
    /// Too short for the header it announces.
    Short,
    /// IPv4 with an unsound header.
    Malformed,
    Ipv4(Packet),
    Ipv6,
    Arp,
    /// Anything else.
    Other,
}

/// What a frame is.
pub open spec fn parsed(f: Seq<u8>) -> Parsed {
    if f.len() < ETH_LEN {
        Parsed::Short
    } else if be16(f, O_ETH_TYPE as int) == ETHERTYPE_IPV6 {
        Parsed::Ipv6
    } else if be16(f, O_ETH_TYPE as int) == ETHERTYPE_ARP {
        Parsed::Arp
    } else if be16(f, O_ETH_TYPE as int) != ETHERTYPE_IPV4 {
        Parsed::Other
    } else if f.len() < ETH_LEN + IPV4_LEN {
        Parsed::Short
    } else if !ipv4_sound(f) {
        Parsed::Malformed
    } else {
        Parsed::Ipv4(packet_of(f))
    }
}

/// Reads the headers of a frame.
pub fn parse_frame(f: &Vec<u8>) -> (r: Parsed)
    ensures
        r == parsed(f@),
{
    if f.len() < ETH_LEN {
        return Parsed::Short;
    }
    let ethertype: u16 = get16(f, O_ETH_TYPE);
    if ethertype == ETHERTYPE_IPV6 {
        return Parsed::Ipv6;
    }
    if ethertype == ETHERTYPE_ARP {
        return Parsed::Arp;
    }
    if ethertype != ETHERTYPE_IPV4 {
        return Parsed::Other;
    }
    if f.len() < ETH_LEN + IPV4_LEN {
        return Parsed::Short;
    }
    let first: u8 = f[O_IP];
    let ihl: usize = (first % 16) as usize * 4;
    if first / 16 != 4 || ihl < IPV4_LEN {
        return Parsed::Malformed;
    }
    let proto: u8 = f[O_IP_PROTO];
    let l4: usize = ETH_LEN + ihl;
    let ports: bool = with_ports(proto) && get16(f, O_IP_FRAG) % 8192 == 0 && l4 + 4 <= f.len();
    let src_port: u16 = if ports {
        get16(f, l4)
    } else {
        0
    };
    let dst_port: u16 = if ports {
        get16(f, l4 + 2)
    } else {
        0
    };
    Parsed::Ipv4(
        Packet {
            ihl,
            proto,
            ttl: f[O_IP_TTL],
            checksum: get16(f, O_IP_CSUM),
            tot_len: get16(f, O_IP_TOTLEN),
            src: Ipv4Addr { bits: get32(f, O_IP_SRC) },
            dst: Ipv4Addr { bits: get32(f, O_IP_DST) },
            src_port,
            dst_port,
        },
    )
}

/// A later fragment has no ports, so no rule, service or tracked flow for a port applies to it.
pub proof fn later_fragment_has_no_ports(f: Seq<u8>)
    requires
        be16(f, O_IP_FRAG as int) % 8192 != 0,
    ensures
        packet_of(f).src_port == 0,
        packet_of(f).dst_port == 0,
{
}

// ---------------------------------------------------------------------------
// Flows
// ---------------------------------------------------------------------------

/// A flow in one direction, within a policy.
#[derive(Clone, Copy, Debug, PartialEq, Eq, Structural)]
pub struct FlowKey {
    pub policy: u32,
    pub src: Ipv4Addr,
    pub dst: Ipv4Addr,
    pub src_port: u16,
    pub dst_port: u16,
    pub proto: u8,
}

impl FlowKey {
    /// The flow in the other direction.
    pub open spec fn reversed(self) -> FlowKey {
        FlowKey {
            policy: self.policy,
            src: self.dst,
            dst: self.src,
            src_port: self.dst_port,
            dst_port: self.src_port,
            proto: self.proto,
        }
    }

    /// Gives the flow in the other direction.
    pub fn reverse(&self) -> (r: FlowKey)
        ensures
            r == self.reversed(),
    {
        FlowKey {
            policy: self.policy,
            src: self.dst,
            dst: self.src,
            src_port: self.dst_port,
            dst_port: self.src_port,
            proto: self.proto,
        }
    }
}

/// The flow of a packet.
pub open spec fn flow_of(policy: u32, p: Packet) -> FlowKey {
    FlowKey {
        policy,
        src: p.src,
        dst: p.dst,
        src_port: p.src_port,
        dst_port: p.dst_port,
        proto: p.proto,
    }
}

/// The flow of a packet.
pub fn flow_key(policy: u32, p: &Packet) -> (r: FlowKey)
    ensures
        r == flow_of(policy, *p),
{
    FlowKey {
        policy,
        src: p.src,
        dst: p.dst,
        src_port: p.src_port,
        dst_port: p.dst_port,
        proto: p.proto,
    }
}

/// The flow in the other direction, turned round again, is the flow.
pub proof fn reversed_twice(k: FlowKey)
    ensures
        k.reversed().reversed() == k,
{
}

// ---------------------------------------------------------------------------
// Laws
// ---------------------------------------------------------------------------

/// What is read of an IPv4 packet stands where its header says: the fixed fields at their places, and
/// the ports behind the header, where there are any.
pub proof fn packet_fields(f: Seq<u8>, p: Packet)
    requires
        parsed(f) == Parsed::Ipv4(p),
    ensures
        f.len() >= 34,
        p.ihl == f[14] % 16 * 4,
        p.ihl >= 20,
        p.tot_len == f[16] * 256 + f[17],
        p.ttl == f[22],
        p.proto == f[23],
        p.checksum == f[24] * 256 + f[25],
        p.src.bits == f[26] * 0x100_0000 + f[27] * 0x1_0000 + f[28] * 0x100 + f[29],
        p.dst.bits == f[30] * 0x100_0000 + f[31] * 0x1_0000 + f[32] * 0x100 + f[33],
        (p.proto == 6 || p.proto == 17) && (f[20] * 256 + f[21]) % 8192 == 0 && f.len() >= 18
            + p.ihl ==> p.src_port == f[14 + p.ihl] * 256 + f[15 + p.ihl] && p.dst_port == f[16
            + p.ihl] * 256 + f[17 + p.ihl],
        !(p.proto == 6 || p.proto == 17) || (f[20] * 256 + f[21]) % 8192 != 0 || f.len() < 18
            + p.ihl ==> p.src_port == 0 && p.dst_port == 0,
{
    assert(be16(f, 12) == 0x0800);
}

/// What a frame is goes by its EtherType, and for IPv4 by its version and header length.
pub proof fn frame_kinds(f: Seq<u8>)
    ensures
        parsed(f) is Ipv6 <==> f.len() >= 14 && f[12] == 0x86 && f[13] == 0xdd,
        parsed(f) is Arp <==> f.len() >= 14 && f[12] == 0x08 && f[13] == 0x06,
        parsed(f) is Ipv4 <==> f.len() >= 34 && f[12] == 0x08 && f[13] == 0 && f[14] / 16 == 4
            && f[14] % 16 >= 5,
        parsed(f) is Malformed <==> f.len() >= 34 && f[12] == 0x08 && f[13] == 0 && (f[14] / 16 != 4
            || f[14] % 16 < 5),
        parsed(f) is Short <==> f.len() < 14 || f.len() < 34 && f[12] == 0x08 && f[13] == 0,
{
}

/// A number is read back as it was written, most significant byte first.
pub proof fn written_numbers(n: u16, m: u32)
    ensures
        bytes16(n).len() == 2,
        bytes16(n)[0] * 256 + bytes16(n)[1] == n,
        be16(bytes16(n), 0) == n,
        bytes32(m).len() == 4,
        bytes32(m)[0] * 0x100_0000 + bytes32(m)[1] * 0x1_0000 + bytes32(m)[2] * 0x100 + bytes32(m)[3]
            == m,
        be32(bytes32(m), 0) == m,
{
}

/// A flow has the ends of its packet; in the other direction they change places.
pub proof fn flow_ends(policy: u32, p: Packet)
    ensures
        ({
            let k = flow_of(policy, p);
            let r = k.reversed();
            &&& k.policy == policy && r.policy == policy
            &&& k.proto == p.proto && r.proto == p.proto
            &&& k.src == p.src && k.src_port == p.src_port
            &&& k.dst == p.dst && k.dst_port == p.dst_port
            &&& r.src == p.dst && r.src_port == p.dst_port
            &&& r.dst == p.src && r.dst_port == p.src_port
        }),
{
}

/// Each byte of a frame after a replacement: the new one in its place, any other as before.
pub proof fn patched_index(f: Seq<u8>, at: int, bytes: Seq<u8>)
    requires
        0 <= at,
        at + bytes.len() <= f.len(),
    ensures
        patched(f, at, bytes).len() == f.len(),
        forall|i: int|
            0 <= i < f.len() ==> #[trigger] patched(f, at, bytes)[i] == if at <= i < at + bytes.len() {
                bytes[i - at]
            } else {
                f[i]
            },
{
    reveal(patched);
}

/// The numbers that frames carry, and where their fields stand: the IPv4 and IPv6 headers follow the
/// 14 octets of Ethernet, and the layer-4 header an IPv4 header of 20 octets or an IPv6 one of 40.
pub proof fn frame_numbers()
    ensures
        ETHERTYPE_IPV4 == 0x0800 && ETHERTYPE_IPV6 == 0x86dd && ETHERTYPE_ARP == 0x0806,
        PROTO_ICMP == 1 && PROTO_TCP == 6 && PROTO_UDP == 17 && PROTO_ICMPV6 == 58,
        ETH_LEN == 14 && IPV4_LEN == 20 && IPV6_LEN == 40,
        O_ETH_SRC == 6 && O_ETH_TYPE == 12,
        O_IP == 14 && O_IP_TOTLEN == 14 + 2 && O_IP_ID == 14 + 4 && O_IP_FRAG == 14 + 6,
        O_IP_TTL == 14 + 8 && O_IP_PROTO == 14 + 9 && O_IP_CSUM == 14 + 10,
        O_IP_SRC == 14 + 12 && O_IP_DST == 14 + 16,
        O_L4 == 14 + 20 && O_L4_SPORT == 34 && O_L4_DPORT == 34 + 2,
        O_TCP_SEQ == 34 + 4 && O_TCP_ACK == 34 + 8 && O_TCP_OFF == 34 + 12,
        O_TCP_FLAGS == 34 + 13 && O_TCP_WIN == 34 + 14,
        O_TCP_CSUM == 34 + 16 && O_TCP_URG == 34 + 18 && O_UDP_CSUM == 34 + 6,
        O_IP6_PLEN == 14 + 4 && O_IP6_NEXT == 14 + 6 && O_IP6_SRC == 14 + 8,
        O_IP6_DST == 14 + 24 && O_IP6_MSG == 14 + 40,
{
}

} // verus!
