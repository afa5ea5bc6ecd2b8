//! The overlay: which frames are wrapped and sent to another host, which are unwrapped, and which
//! are copied to every host of a segment.

use vstd::prelude::*;

use crate::addr::Ipv4Addr;
use crate::datapath::{Counter, XdpAction, ETH_LEN};

verus! {

/// Length of the outer headers of a tunnelled frame: Ethernet, IPv4, UDP and the tunnel's own.
pub const OVERLAY_OUTER_LEN: usize = 50;

/// Length of the outer headers of an SRv6 frame: Ethernet and IPv6.
pub const SRV6_L2_OUTER_LEN: usize = 54;

/// The most endpoints that a frame is copied to.
pub const MAX_FLOOD_VTEPS: usize = 16;

/// What a stage does with a frame.
#[derive(Clone, Copy, Debug, PartialEq, Eq, Structural)]
pub enum Taken {
    /// Leaves it to the next stage.
    Fall,
    /// It is too short for what the stage reads.
    Short,
    /// Decides it, and counts.
    Done(XdpAction, Counter),
}

/// Where a segment's frames for an address are sent.
#[derive(Clone, Copy, Debug, PartialEq, Eq)]
pub struct Endpoint {
    pub remote_vtep: Ipv4Addr,
    pub via_mac: [u8; 6],
    pub out_ifindex: u32,
}

// ---------------------------------------------------------------------------
// Unwrapping
// ---------------------------------------------------------------------------

/// What is removed from the front of a tunnelled frame: the outer headers, with the options of its
/// IPv4 header.
pub open spec fn decap_len(ihl: int) -> int {
    ETH_LEN + ihl + 16
}

/// Removes the outer headers of a tunnelled frame. `accepted` is whether the kernel moved the start
/// of the frame; where it did not, the frame stays as it is.
pub fn try_decap(frame: &mut Vec<u8>, ihl: usize, accepted: bool) -> (r: (XdpAction, Counter))
    requires
        ihl <= 60,
    ensures
        if accepted && decap_len(ihl as int) <= old(frame)@.len() {
            r == (XdpAction::Pass, Counter::OverlayDecap) && final(frame)@ == old(frame)@.skip(
                decap_len(ihl as int),
            )
        } else {
            r == (XdpAction::Pass, Counter::Malformed) && final(frame)@ == old(frame)@
        },
{
    let delta: usize = ETH_LEN + ihl + 16;
    if !accepted || frame.len() < delta {
        return (XdpAction::Pass, Counter::Malformed);
    }
    remove_front(frame, delta);
    (XdpAction::Pass, Counter::OverlayDecap)
}

fn remove_front(frame: &mut Vec<u8>, n: usize)
    requires
        n <= old(frame).len(),
    ensures
        final(frame)@ == old(frame)@.skip(n as int),
{
    let rest = frame.split_off(n);
    *frame = rest;
    assert(frame@ =~= old(frame)@.skip(n as int));
}

/// A frame may be unwrapped only where it is addressed to this host's endpoint and comes from the
/// endpoint of a peer.
pub open spec fn tunnel_trusted(dst: Ipv4Addr, local_vtep: Ipv4Addr, known_vtep: bool) -> bool {
    dst == local_vtep && known_vtep
}

/// What is looked up for an IPv6 packet that may be for one of the host's SIDs.
#[derive(Clone, Copy, Debug, PartialEq, Eq, Structural)]
pub struct Srv6DecapAnswers {
    /// SRv6 is configured.
    pub enabled: bool,
    /// The segment of the interface that the packet came in on; zero for the underlay.
    pub vni: u32,
    /// Whether the destination is a SID of this host, and if so whether it is a unicast one.
    pub local_sid: Option<bool>,
    /// The kernel moved the start of the frame.
    pub accepted: bool,
}

/// Whether a packet is unwrapped: it must come in on the underlay, for a unicast SID of this host.
pub open spec fn srv6_unwraps(a: Srv6DecapAnswers) -> bool {
    a.enabled && a.vni == 0 && a.local_sid == Some(true)
}

/// Removes the outer headers of a frame that is for a unicast SID of this host.
pub fn try_srv6_decap(frame: &mut Vec<u8>, a: &Srv6DecapAnswers) -> (r: Taken)
    ensures
        if !srv6_unwraps(*a) {
            r == Taken::Fall && final(frame)@ == old(frame)@
        } else if a.accepted && SRV6_L2_OUTER_LEN <= old(frame)@.len() {
            r == Taken::Done(XdpAction::Pass, Counter::Srv6Decap) && final(frame)@ == old(
                frame,
            )@.skip(SRV6_L2_OUTER_LEN as int)
        } else {
            r == Taken::Done(XdpAction::Pass, Counter::Malformed) && final(frame)@ == old(frame)@
        },
{
    if !a.enabled || a.vni != 0 {
        return Taken::Fall;
    }
    match a.local_sid {
        Some(true) => {},
        _ => {
            return Taken::Fall;
        },
    }
    if !a.accepted || frame.len() < SRV6_L2_OUTER_LEN {
        return Taken::Done(XdpAction::Pass, Counter::Malformed);
    }
    remove_front(frame, SRV6_L2_OUTER_LEN);
    Taken::Done(XdpAction::Pass, Counter::Srv6Decap)
}

/// A frame that comes in on a tenant's interface is never unwrapped, whatever it is addressed to.
pub proof fn tenant_frame_is_not_unwrapped(a: Srv6DecapAnswers)
    requires
        a.vni != 0,
    ensures
        !srv6_unwraps(a),
{
}

// ---------------------------------------------------------------------------
// Wrapping
// ---------------------------------------------------------------------------

/// The number that spreads flows over paths: a hash of the flow's source, mixed with its
/// destination port.
pub open spec fn entropy_of(hash: u32, dst_port: u16) -> u32 {
    hash ^ ((dst_port as u32) << 16)
}

/// Computes [`entropy_of`].
pub fn flow_entropy(hash: u32, dst_port: u16) -> (r: u32)
    ensures
        r == entropy_of(hash, dst_port),
{
    hash ^ ((dst_port as u32) << 16)
}

/// The length of a frame as the outer headers state it.
pub open spec fn inner_len(frame: Seq<u8>) -> u16 {
    (frame.len() % 65536) as u16
}

/// Computes [`inner_len`].
pub fn frame_len16(frame: &Vec<u8>) -> (r: u16)
    ensures
        r == inner_len(frame@),
{
    (frame.len() % 65536) as u16
}

/// What is looked up for a tenant's frame that may go to another host.
#[derive(Debug, PartialEq, Eq)]
pub struct EncapAnswers {
    /// The overlay is configured.
    pub enabled: bool,
    /// The segment of the interface that the frame came in on.
    pub vni: u32,
    /// Some entry says where the frame goes: for its destination MAC address, or (in a tunnel) for
    /// its destination address.
    pub found: bool,
    /// The longest frame that fits into the underlay once wrapped.
    pub max_inner_len: u16,
    /// The outer headers for the entry.
    pub headers: Vec<u8>,
    /// The kernel made room in front of the frame.
    pub accepted: bool,
    /// The interface that the entry names can be redirected to.
    pub redirects: bool,
}

/// The entry that counts: the one for the destination MAC address, else the one for the destination
/// address.
pub open spec fn endpoint_of<E>(by_mac: Option<E>, by_address: Option<E>) -> Option<E> {
    match by_mac {
        Some(e) => Some(e),
        None => by_address,
    }
}

/// Chooses the entry that counts.
pub fn choose_endpoint<E: Copy>(by_mac: Option<E>, by_address: Option<E>) -> (r: Option<E>)
    ensures
        r == endpoint_of(by_mac, by_address),
{
    match by_mac {
        Some(e) => Some(e),
        None => by_address,
    }
}

/// What is done with a frame that may go to another host, and the frame after it.
pub open spec fn wrapped(
    f: Seq<u8>,
    enabled: bool,
    vni: u32,
    found: bool,
    max_inner_len: u16,
    headers: Seq<u8>,
    accepted: bool,
    redirects: bool,
    counter: Counter,
) -> (Taken, Seq<u8>) {
    if !enabled || vni == 0 {
        (Taken::Fall, f)
    } else if f.len() < 6 {
        (Taken::Short, f)
    } else if !found {
        (Taken::Fall, f)
    } else if inner_len(f) > max_inner_len {
        (Taken::Done(XdpAction::Drop, Counter::OverlayTooBig), f)
    } else if !accepted {
        (Taken::Done(XdpAction::Pass, Counter::Malformed), f)
    } else if redirects {
        (Taken::Done(XdpAction::Redirect, counter), headers + f)
    } else {
        (Taken::Done(XdpAction::Aborted, counter), headers + f)
    }
}

fn wrap(frame: &mut Vec<u8>, a: &EncapAnswers, counter: Counter) -> (r: Taken)
    ensures
        (r, final(frame)@) == wrapped(
            old(frame)@,
            a.enabled,
            a.vni,
            a.found,
            a.max_inner_len,
            a.headers@,
            a.accepted,
            a.redirects,
            counter,
        ),
{
    if !a.enabled || a.vni == 0 {
        return Taken::Fall;
    }
    if frame.len() < 6 {
        return Taken::Short;
    }
    if !a.found {
        return Taken::Fall;
    }
    if frame_len16(frame) > a.max_inner_len {
        return Taken::Done(XdpAction::Drop, Counter::OverlayTooBig);
    }
    if !a.accepted {
        return Taken::Done(XdpAction::Pass, Counter::Malformed);
    }
    let mut out: Vec<u8> = Vec::new();
    for i in 0..a.headers.len()
        invariant
            out@ == a.headers@.take(i as int),
    {
        out.push(a.headers[i]);
        assert(a.headers@.take(i + 1) =~= a.headers@.take(i as int).push(a.headers@[i as int]));
    }
    assert(a.headers@.take(a.headers@.len() as int) =~= a.headers@);
    out.append(frame);
    *frame = out;
    if a.redirects {
        Taken::Done(XdpAction::Redirect, counter)
    } else {
        Taken::Done(XdpAction::Aborted, counter)
    }
}

/// Wraps a tenant's frame into a tunnel to another host, where its destination is there.
pub fn try_encap(frame: &mut Vec<u8>, a: &EncapAnswers) -> (r: Taken)
    requires
        a.headers@.len() == OVERLAY_OUTER_LEN,
    ensures
        (r, final(frame)@) == wrapped(
            old(frame)@,
            a.enabled,
            a.vni,
            a.found,
            a.max_inner_len,
            a.headers@,
            a.accepted,
            a.redirects,
            Counter::OverlayEncap,
        ),
{
    wrap(frame, a, Counter::OverlayEncap)
}

/// Wraps a tenant's frame for the SID of another host, where its destination is there.
pub fn try_srv6_encap(frame: &mut Vec<u8>, a: &EncapAnswers) -> (r: Taken)
    requires
        a.headers@.len() == SRV6_L2_OUTER_LEN,
    ensures
        (r, final(frame)@) == wrapped(
            old(frame)@,
            a.enabled,
            a.vni,
            a.found,
            a.max_inner_len,
            a.headers@,
            a.accepted,
            a.redirects,
            Counter::Srv6Encap,
        ),
{
    wrap(frame, a, Counter::Srv6Encap)
}

/// Unwrapping a frame that was wrapped into a tunnel gives the frame.
pub proof fn unwrapping_undoes_wrapping(f: Seq<u8>, headers: Seq<u8>)
    requires
        headers.len() == OVERLAY_OUTER_LEN,
    ensures
        (headers + f).skip(decap_len(20)) == f,
{
    assert((headers + f).skip(decap_len(20)) =~= f);
}

/// Unwrapping a frame that was wrapped for a SID gives the frame.
pub proof fn srv6_unwrapping_undoes_wrapping(f: Seq<u8>, headers: Seq<u8>)
    requires
        headers.len() == SRV6_L2_OUTER_LEN,
    ensures
        (headers + f).skip(SRV6_L2_OUTER_LEN as int) == f,
{
    assert((headers + f).skip(SRV6_L2_OUTER_LEN as int) =~= f);
}

/// A wrapped frame never exceeds what fits into the underlay.
pub proof fn wrapped_frame_fits(
    f: Seq<u8>,
    vni: u32,
    max_inner_len: u16,
    headers: Seq<u8>,
    accepted: bool,
    redirects: bool,
    counter: Counter,
)
    requires
        f.len() < 65536,
        wrapped(
            f,
            true,
            vni,
            true,
            max_inner_len,
            headers,
            accepted,
            redirects,
            counter,
        ).1 == headers
            + f,
        headers.len() > 0,
    ensures
        f.len() <= max_inner_len,
{
    let w = wrapped(f, true, vni, true, max_inner_len, headers, accepted, redirects, counter);
    assert((headers + f).len() > f.len());
}

// ---------------------------------------------------------------------------
// Copies for a segment
// ---------------------------------------------------------------------------

/// What is looked up for a frame that may have to be copied to every host of its segment.
#[derive(Debug, PartialEq, Eq)]
pub struct BumAnswers {
    /// The overlay is configured.
    pub enabled: bool,
    /// The segment of the interface that the frame came in on.
    pub vni: u32,
    /// An entry says where frames for the destination MAC address go.
    pub known_mac: bool,
    /// The endpoints of the segment, where there is a list.
    pub flood: Option<Vec<Endpoint>>,
    /// The longest frame that fits into the underlay once wrapped.
    pub max_inner_len: u16,
}

/// To whom a frame is copied, and the number that spreads the copies over paths.
#[derive(Debug, PartialEq, Eq)]
pub struct BumPlan {
    pub endpoints: Vec<Endpoint>,
    pub entropy: u32,
}

/// A frame for many: broadcast or multicast, or for an address whose place is unknown.
pub open spec fn is_bum(first_byte: u8, known_mac: bool) -> bool {
    first_byte % 2 == 1 || !known_mac
}

/// The endpoints that a frame is copied to: the first of the segment's list, where the frame is one
/// for many and fits into the underlay once wrapped.
pub open spec fn flood_targets(
    f: Seq<u8>,
    enabled: bool,
    vni: u32,
    known_mac: bool,
    flood: Option<Seq<Endpoint>>,
    max_inner_len: u16,
) -> Seq<Endpoint> {
    match flood {
        Some(list) => if enabled && vni != 0 && f.len() >= 6 && is_bum(f[0], known_mac)
            && inner_len(f) <= max_inner_len {
            if list.len() <= MAX_FLOOD_VTEPS {
                list
            } else {
                list.take(MAX_FLOOD_VTEPS as int)
            }
        } else {
            Seq::empty()
        },
        None => Seq::empty(),
    }
}

/// The number that spreads the copies of a frame over paths.
pub open spec fn flood_entropy(f: Seq<u8>, vni: u32) -> u32 {
    vni ^ ((f[4] as u32) << 8) ^ (f[5] as u32)
}

/// Decides to whom a frame is copied. The frame itself is delivered on its host in any case.
pub fn try_bum(frame: &Vec<u8>, a: &BumAnswers) -> (r: BumPlan)
    ensures
        r.endpoints@ == flood_targets(
            frame@,
            a.enabled,
            a.vni,
            a.known_mac,
            match a.flood {
                Some(list) => Some(list@),
                None => None,
            },
            a.max_inner_len,
        ),
        r.endpoints@.len() > 0 ==> r.entropy == flood_entropy(frame@, a.vni),
{
    let mut endpoints: Vec<Endpoint> = Vec::new();
    if !a.enabled || a.vni == 0 || frame.len() < 6 {
        return BumPlan { endpoints, entropy: 0 };
    }
    if !(frame[0] % 2 == 1 || !a.known_mac) {
        return BumPlan { endpoints, entropy: 0 };
    }
    let list = match &a.flood {
        Some(list) => list,
        None => {
            return BumPlan { endpoints, entropy: 0 };
        },
    };
    if frame_len16(frame) > a.max_inner_len {
        return BumPlan { endpoints, entropy: 0 };
    }
    let entropy: u32 = a.vni ^ ((frame[4] as u32) << 8) ^ (frame[5] as u32);
    let mut i: usize = 0;
    while i < MAX_FLOOD_VTEPS && i < list.len()
        invariant
            i <= list@.len(),
            i <= MAX_FLOOD_VTEPS,
            endpoints@ == list@.take(i as int),
        decreases MAX_FLOOD_VTEPS - i,
    {
        endpoints.push(list[i]);
        assert(list@.take(i + 1) =~= list@.take(i as int).push(list@[i as int]));
        i += 1;
    }
    assert(list@.take(list@.len() as int) =~= list@);
    BumPlan { endpoints, entropy }
}

/// A frame for a known unicast address is not copied.
pub proof fn known_unicast_is_not_copied(
    f: Seq<u8>,
    vni: u32,
    flood: Option<Seq<Endpoint>>,
    max_inner_len: u16,
)
    requires
        f.len() >= 6,
        f[0] % 2 == 0,
    ensures
        flood_targets(f, true, vni, true, flood, max_inner_len).len() == 0,
{
}

// ---------------------------------------------------------------------------
// Laws
// ---------------------------------------------------------------------------

/// Which frames are unwrapped: those that come in on the underlay of a host that uses SRv6, for a
/// unicast SID of its own. A tunnelled frame is trusted where it is for this host's endpoint and from
/// the endpoint of a peer.
pub proof fn unwrapping_is_guarded(
    a: Srv6DecapAnswers,
    dst: Ipv4Addr,
    local_vtep: Ipv4Addr,
    known_vtep: bool,
)
    ensures
        srv6_unwraps(a) <==> a.enabled && a.vni == 0 && a.local_sid == Some(true),
        tunnel_trusted(dst, local_vtep, known_vtep) <==> dst.bits == local_vtep.bits && known_vtep,
{
}

/// What is removed of a tunnelled frame: 14 bytes of Ethernet, the IPv4 header, 8 bytes of UDP and 8
/// bytes of the tunnel's header. A frame wrapped into 50 bytes of headers is what is left.
pub proof fn outer_headers_are_removed(ihl: int, f: Seq<u8>, headers: Seq<u8>)
    ensures
        decap_len(ihl) == 14 + ihl + 8 + 8,
        headers.len() == 50 ==> (headers + f).skip(decap_len(20)) == f,
{
    if headers.len() == 50 {
        assert((headers + f).skip(50) =~= f);
    }
}

/// A tenant's frame whose destination is known to be elsewhere is wrapped and sent there, unless it
/// would not fit into the underlay; a frame of no segment, or for an unknown destination, is left as
/// it is.
pub proof fn known_destination_is_reached(
    f: Seq<u8>,
    enabled: bool,
    vni: u32,
    found: bool,
    max_inner_len: u16,
    headers: Seq<u8>,
    accepted: bool,
    redirects: bool,
    counter: Counter,
)
    requires
        6 <= f.len() < 65536,
        headers.len() > 0,
    ensures
        ({
            let (taken, g) = wrapped(
                f,
                enabled,
                vni,
                found,
                max_inner_len,
                headers,
                accepted,
                redirects,
                counter,
            );
            let wanted = enabled && vni != 0 && found;
            let fits = f.len() <= max_inner_len;
            &&& taken == Taken::Fall <==> !wanted
            &&& taken == Taken::Done(XdpAction::Drop, Counter::OverlayTooBig) <==> wanted && !fits
            &&& wanted && fits && !accepted ==> taken == Taken::Done(
                XdpAction::Pass,
                Counter::Malformed,
            )
            &&& wanted && fits && accepted && redirects ==> taken == Taken::Done(
                XdpAction::Redirect,
                counter,
            )
            &&& wanted && fits && accepted && !redirects ==> taken == Taken::Done(
                XdpAction::Aborted,
                counter,
            )
            &&& wanted && fits && accepted ==> g == headers + f
            &&& !(wanted && fits && accepted) ==> g == f
        }),
{
}

/// A frame that is too short for a destination MAC address is not looked at further on a segment.
pub proof fn stub_is_short(
    f: Seq<u8>,
    found: bool,
    max_inner_len: u16,
    headers: Seq<u8>,
    accepted: bool,
    redirects: bool,
    counter: Counter,
    vni: u32,
)
    requires
        f.len() < 6,
        vni != 0,
    ensures
        wrapped(f, true, vni, found, max_inner_len, headers, accepted, redirects, counter) == (
            Taken::Short,
            f,
        ),
{
}

/// The entry for the MAC address counts before the one for the address, and that one where there is
/// no other.
pub proof fn mac_entry_comes_first<E>(e: E, by_address: Option<E>)
    ensures
        endpoint_of(Some(e), by_address) == Some(e),
        endpoint_of(None, by_address) == by_address,
{
}

/// Flows from one source to different ports get different numbers, and so do different sources to one
/// port.
pub proof fn entropy_tells_flows_apart(h: u32, g: u32, a: u16, b: u16)
    ensures
        a != b ==> entropy_of(h, a) != entropy_of(h, b),
        h != g ==> entropy_of(h, a) != entropy_of(g, a),
        entropy_of(h, 0) == h,
{
    assert(a != b ==> h ^ ((a as u32) << 16) != h ^ ((b as u32) << 16)) by (bit_vector);
    assert(h != g ==> h ^ ((a as u32) << 16) != g ^ ((a as u32) << 16)) by (bit_vector);
    assert(h ^ ((0u16 as u32) << 16) == h) by (bit_vector);
}

/// A frame for many on a segment (its first byte odd, or its place unknown) that fits into the underlay
/// is copied to the endpoints of the segment, each of the first sixteen, in their order; no other
/// frame is copied.
pub proof fn frame_for_many_is_copied(
    f: Seq<u8>,
    enabled: bool,
    vni: u32,
    known_mac: bool,
    flood: Option<Seq<Endpoint>>,
    max_inner_len: u16,
)
    requires
        f.len() < 65536,
    ensures
        ({
            let out = flood_targets(f, enabled, vni, known_mac, flood, max_inner_len);
            let wanted = enabled && vni != 0 && f.len() >= 6 && (f[0] % 2 == 1 || !known_mac)
                && f.len() <= max_inner_len;
            &&& !wanted || flood is None ==> out.len() == 0
            &&& wanted && flood is Some ==> {
                &&& out.len() == (if flood->0.len() <= 16 {
                    flood->0.len() as int
                } else {
                    16
                })
                &&& forall|i: int| 0 <= i < out.len() ==> #[trigger] out[i] == flood->0[i]
            }
        }),
{
}

/// Copies for different hosts of one segment, or of one destination on different segments, spread over
/// different paths.
pub proof fn flood_entropy_tells_apart(f: Seq<u8>, g: Seq<u8>, u: u32, v: u32)
    requires
        f.len() >= 6,
        g.len() >= 6,
    ensures
        f[4] != g[4] || f[5] != g[5] ==> flood_entropy(f, v) != flood_entropy(g, v),
        u != v ==> flood_entropy(f, u) != flood_entropy(f, v),
        f[4] == 0 && f[5] == 0 ==> flood_entropy(f, v) == v,
{
    let (a, b, c, d) = (f[4], f[5], g[4], g[5]);
    assert(a != c || b != d ==> v ^ ((a as u32) << 8) ^ (b as u32) != v ^ ((c as u32) << 8) ^ (
    d as u32)) by (bit_vector);
    assert(u != v ==> u ^ ((a as u32) << 8) ^ (b as u32) != v ^ ((a as u32) << 8) ^ (b as u32))
        by (bit_vector);
    assert(a == 0 && b == 0 ==> v ^ ((a as u32) << 8) ^ (b as u32) == v) by (bit_vector);
}

/// A tunnel puts Ethernet, IPv4, UDP and its own header before a frame, and SRv6 Ethernet and IPv6;
/// at most 16 endpoints get a copy of a flooded frame.
pub proof fn tunnel_numbers()
    ensures
        OVERLAY_OUTER_LEN == 14 + 20 + 8 + 8,
        SRV6_L2_OUTER_LEN == 14 + 40,
        MAX_FLOOD_VTEPS == 16,
{
}

} // verus!
