//! Segment identifiers: how a host's locator, a behaviour and a segment make up the address that
//! the other hosts send to.

use vstd::prelude::*;

use crate::addr::Ipv6Addr;

verus! {

/// Behaviour of a unicast service SID: decapsulate and forward by destination MAC address.
pub const DISC_UNICAST: u8 = 0;

/// Behaviour of a flood service SID: decapsulate and flood.
pub const DISC_MULTICAST: u8 = 1;

/// An SRv6 locator: the prefix that a host's service SIDs start with.
#[derive(Clone, Copy, Debug, PartialEq, Eq, Structural)]
pub struct Locator {
    pub addr: Ipv6Addr,
    pub len: u8,
}

/// The sixteen bytes of an address.
pub open spec fn ipv6_bytes(a: Ipv6Addr) -> Seq<u8> {
    seq![
        (a.s0 / 256) as u8,
        (a.s0 % 256) as u8,
        (a.s1 / 256) as u8,
        (a.s1 % 256) as u8,
        (a.s2 / 256) as u8,
        (a.s2 % 256) as u8,
        (a.s3 / 256) as u8,
        (a.s3 % 256) as u8,
        (a.s4 / 256) as u8,
        (a.s4 % 256) as u8,
        (a.s5 / 256) as u8,
        (a.s5 % 256) as u8,
        (a.s6 / 256) as u8,
        (a.s6 % 256) as u8,
        (a.s7 / 256) as u8,
        (a.s7 % 256) as u8,
    ]
}

/// The address with the given sixteen bytes.
pub open spec fn ipv6_of_bytes(b: Seq<u8>) -> Ipv6Addr {
    Ipv6Addr {
        s0: (b[0] * 256 + b[1]) as u16,
        s1: (b[2] * 256 + b[3]) as u16,
        s2: (b[4] * 256 + b[5]) as u16,
        s3: (b[6] * 256 + b[7]) as u16,
        s4: (b[8] * 256 + b[9]) as u16,
        s5: (b[10] * 256 + b[11]) as u16,
        s6: (b[12] * 256 + b[13]) as u16,
        s7: (b[14] * 256 + b[15]) as u16,
    }
}

/// The bytes of the address made of sixteen bytes are those bytes.
pub proof fn bytes_round_trip(b: Seq<u8>)
    requires
        b.len() == 16,
    ensures
        ipv6_bytes(ipv6_of_bytes(b)) == b,
{
    assert(ipv6_bytes(ipv6_of_bytes(b)) =~= b);
}

/// Two addresses with the same bytes are the same.
pub proof fn bytes_determine(a: Ipv6Addr, b: Ipv6Addr)
    requires
        ipv6_bytes(a) == ipv6_bytes(b),
    ensures
        a == b,
{
    let x = ipv6_bytes(a);
    let y = ipv6_bytes(b);
    assert(x[0] == y[0] && x[1] == y[1] && x[2] == y[2] && x[3] == y[3]);
    assert(x[4] == y[4] && x[5] == y[5] && x[6] == y[6] && x[7] == y[7]);
    assert(x[8] == y[8] && x[9] == y[9] && x[10] == y[10] && x[11] == y[11]);
    assert(x[12] == y[12] && x[13] == y[13] && x[14] == y[14] && x[15] == y[15]);
}

/// `n` zero bytes.
pub open spec fn zero_bytes(n: int) -> Seq<u8> {
    Seq::new(n as nat, |i: int| 0u8)
}

/// The behaviour and the 24-bit segment number as they stand behind the locator.
pub open spec fn service_bytes(disc: u8, vni: u32) -> Seq<u8> {
    seq![disc, (vni / 65536) as u8, (vni / 256 % 256) as u8, (vni % 256) as u8]
}

/// A locator of whole bytes that leaves room for the behaviour and the segment number.
pub open spec fn usable_locator(len: u8) -> bool {
    len % 8 == 0 && 8 <= len <= 96
}

/// The service SID of a behaviour on a segment: the locator, the behaviour, the segment number, and
/// zeros.
pub open spec fn service_sid(l: Locator, disc: u8, vni: u32) -> Option<Ipv6Addr> {
    if usable_locator(l.len) && vni < 0x100_0000 {
        let n = (l.len / 8) as int;
        Some(
            ipv6_of_bytes(
                ipv6_bytes(l.addr).take(n) + service_bytes(disc, vni) + zero_bytes(12 - n),
            ),
        )
    } else {
        None
    }
}

/// The outer source address of a host: its locator, and zeros.
pub open spec fn source_of(l: Locator) -> Option<Ipv6Addr> {
    if usable_locator(l.len) {
        let n = (l.len / 8) as int;
        Some(ipv6_of_bytes(ipv6_bytes(l.addr).take(n) + zero_bytes(16 - n)))
    } else {
        None
    }
}

/// The bytes are those of a service SID under a locator of `n` bytes.
pub open spec fn follows_layout(b: Seq<u8>, n: int, disc: u8, vni: u32) -> bool {
    &&& b.subrange(n, n + 4) == service_bytes(disc, vni)
    &&& b.skip(n + 4) == zero_bytes(12 - n)
}

/// The source address under the shortest locator of at least `n` bytes that the bytes can be a
/// service SID of.
pub open spec fn recovered_from(b: Seq<u8>, n: int, disc: u8, vni: u32) -> Option<Ipv6Addr>
    decreases 13 - n,
{
    if n > 12 {
        None
    } else if follows_layout(b, n, disc, vni) {
        Some(ipv6_of_bytes(b.take(n) + zero_bytes(16 - n)))
    } else {
        recovered_from(b, n + 1, disc, vni)
    }
}

/// The source address of the host that a service SID belongs to, where the SID follows the layout.
pub open spec fn recovered_source(sid: Ipv6Addr, disc: u8, vni: u32) -> Option<Ipv6Addr> {
    if vni < 0x100_0000 {
        recovered_from(ipv6_bytes(sid), 1, disc, vni)
    } else {
        None
    }
}

fn to_bytes(a: Ipv6Addr) -> (b: Vec<u8>)
    ensures
        b@ == ipv6_bytes(a),
{
    let mut b: Vec<u8> = Vec::new();
    push_segment(&mut b, a.s0);
    push_segment(&mut b, a.s1);
    push_segment(&mut b, a.s2);
    push_segment(&mut b, a.s3);
    push_segment(&mut b, a.s4);
    push_segment(&mut b, a.s5);
    push_segment(&mut b, a.s6);
    push_segment(&mut b, a.s7);
    assert(b@ =~= ipv6_bytes(a));
    b
}

fn push_segment(b: &mut Vec<u8>, s: u16)
    ensures
        final(b)@ == old(b)@.push((s / 256) as u8).push((s % 256) as u8),
{
    b.push((s / 256) as u8);
    b.push((s % 256) as u8);
}

fn segment(b: &Vec<u8>, i: usize) -> (s: u16)
    requires
        i + 1 < b.len(),
    ensures
        s == b@[i as int] * 256 + b@[i + 1],
{
    b[i] as u16 * 256 + b[i + 1] as u16
}

fn from_bytes(b: &Vec<u8>) -> (a: Ipv6Addr)
    requires
        b@.len() == 16,
    ensures
        a == ipv6_of_bytes(b@),
{
    Ipv6Addr {
        s0: segment(b, 0),
        s1: segment(b, 2),
        s2: segment(b, 4),
        s3: segment(b, 6),
        s4: segment(b, 8),
        s5: segment(b, 10),
        s6: segment(b, 12),
        s7: segment(b, 14),
    }
}

fn push_zeros(b: &mut Vec<u8>, n: usize)
    ensures
        final(b)@ == old(b)@ + zero_bytes(n as int),
{
    let ghost start = b@;
    assert(start =~= start + zero_bytes(0));
    for i in 0..n
        invariant
            b@ == start + zero_bytes(i as int),
    {
        b.push(0);
        assert(b@ =~= start + zero_bytes(i + 1));
    }
}

fn push_first(b: &mut Vec<u8>, from: &Vec<u8>, n: usize)
    requires
        n <= from@.len(),
    ensures
        final(b)@ == old(b)@ + from@.take(n as int),
{
    let ghost start = b@;
    assert(start =~= start + from@.take(0));
    for i in 0..n
        invariant
            n <= from@.len(),
            b@ == start + from@.take(i as int),
    {
        b.push(from[i]);
        assert(b@ =~= start + from@.take(i + 1));
    }
}

/// Computes the service SID of a behaviour on a segment; `None` where the locator is not one of
/// whole bytes with room behind it, or the segment number has more than 24 bits.
pub fn srv6_service_sid(l: Locator, disc: u8, vni: u32) -> (r: Option<Ipv6Addr>)
    ensures
        r == service_sid(l, disc, vni),
{
    if l.len % 8 != 0 || l.len < 8 || l.len > 96 || vni >= 0x100_0000 {
        return None;
    }
    let n: usize = (l.len / 8) as usize;
    let addr = to_bytes(l.addr);
    let mut b: Vec<u8> = Vec::new();
    push_first(&mut b, &addr, n);
    b.push(disc);
    b.push((vni / 65536) as u8);
    b.push((vni / 256 % 256) as u8);
    b.push((vni % 256) as u8);
    assert(b@ =~= ipv6_bytes(l.addr).take(n as int) + service_bytes(disc, vni));
    push_zeros(&mut b, 12 - n);
    Some(from_bytes(&b))
}

impl Locator {
    /// Computes the outer source address of the host.
    pub fn srv6_src(&self) -> (r: Option<Ipv6Addr>)
        ensures
            r == source_of(*self),
    {
        if self.len % 8 != 0 || self.len < 8 || self.len > 96 {
            return None;
        }
        let n: usize = (self.len / 8) as usize;
        let addr = to_bytes(self.addr);
        let mut b: Vec<u8> = Vec::new();
        push_first(&mut b, &addr, n);
        assert(b@ =~= ipv6_bytes(self.addr).take(n as int));
        push_zeros(&mut b, 16 - n);
        Some(from_bytes(&b))
    }
}

fn check_layout(b: &Vec<u8>, n: usize, disc: u8, vni: u32) -> (r: bool)
    requires
        b@.len() == 16,
        n <= 12,
        vni < 0x100_0000,
    ensures
        r == follows_layout(b@, n as int, disc, vni),
{
    let ghost sub = b@.subrange(n as int, n + 4);
    let ghost want = service_bytes(disc, vni);
    if b[n] != disc || b[n + 1] != (vni / 65536) as u8 || b[n + 2] != (vni / 256 % 256) as u8 || b[n
        + 3] != (vni % 256) as u8 {
        proof {
            assert(sub[0] == b@[n as int] && sub[1] == b@[n + 1] && sub[2] == b@[n + 2] && sub[3]
                == b@[n + 3]);
            if sub == want {
                assert(want[0] == disc && want[1] == (vni / 65536) as u8 && want[2] == (vni / 256
                    % 256) as u8 && want[3] == (vni % 256) as u8);
            }
        }
        return false;
    }
    assert(sub =~= want);
    for i in n + 4..16
        invariant
            b@.len() == 16,
            n <= 12,
            forall|j: int| n + 4 <= j < i ==> b@[j] == 0,
    {
        if b[i] != 0 {
            proof {
                let tail = b@.skip(n + 4);
                assert(tail[i - n - 4] == b@[i as int]);
                if tail == zero_bytes(12 - n) {
                    assert(zero_bytes(12 - n)[i - n - 4] == 0);
                }
            }
            return false;
        }
    }
    assert(b@.skip(n + 4) =~= zero_bytes(12 - n));
    true
}

/// Recovers the source address of the host that a service SID belongs to, where the SID follows the
/// layout.
pub fn locator_src_from_service_sid(sid: Ipv6Addr, disc: u8, vni: u32) -> (r: Option<Ipv6Addr>)
    ensures
        r == recovered_source(sid, disc, vni),
{
    if vni >= 0x100_0000 {
        return None;
    }
    let b = to_bytes(sid);
    let mut n: usize = 1;
    while n <= 12
        invariant
            vni < 0x100_0000,
            1 <= n <= 13,
            b@ == ipv6_bytes(sid),
            recovered_source(sid, disc, vni) == recovered_from(b@, n as int, disc, vni),
        decreases 13 - n,
    {
        if check_layout(&b, n, disc, vni) {
            let mut s: Vec<u8> = Vec::new();
            push_first(&mut s, &b, n);
            assert(s@ =~= b@.take(n as int));
            push_zeros(&mut s, 16 - n);
            return Some(from_bytes(&s));
        }
        n += 1;
    }
    None
}

// ---------------------------------------------------------------------------
// Laws
// ---------------------------------------------------------------------------

proof fn sid_bytes(l: Locator, disc: u8, vni: u32)
    requires
        usable_locator(l.len),
        vni < 0x100_0000,
    ensures
        ({
            let n = (l.len / 8) as int;
            let b = ipv6_bytes(service_sid(l, disc, vni)->0);
            &&& b == ipv6_bytes(l.addr).take(n) + service_bytes(disc, vni) + zero_bytes(12 - n)
            &&& b.len() == 16
            &&& 1 <= n <= 12
            &&& b.subrange(n, n + 4) == service_bytes(disc, vni)
            &&& b.skip(n + 4) == zero_bytes(12 - n)
            &&& b.take(n) == ipv6_bytes(l.addr).take(n)
        }),
{
    let n = (l.len / 8) as int;
    let b = ipv6_bytes(l.addr).take(n) + service_bytes(disc, vni) + zero_bytes(12 - n);
    bytes_round_trip(b);
    assert(b.subrange(n, n + 4) =~= service_bytes(disc, vni));
    assert(b.skip(n + 4) =~= zero_bytes(12 - n));
    assert(b.take(n) =~= ipv6_bytes(l.addr).take(n));
}

/// Under one locator, two services have the same SID only where they are the same service: one
/// segment's unicast and flood behaviours never share a SID.
pub proof fn services_have_own_sids(l: Locator, disc: u8, vni: u32, disc2: u8, vni2: u32)
    requires
        service_sid(l, disc, vni) is Some,
        service_sid(l, disc, vni) == service_sid(l, disc2, vni2),
    ensures
        disc == disc2,
        vni == vni2,
{
    sid_bytes(l, disc, vni);
    sid_bytes(l, disc2, vni2);
    let a = service_bytes(disc, vni);
    let b = service_bytes(disc2, vni2);
    assert(a[0] == b[0] && a[1] == b[1] && a[2] == b[2] && a[3] == b[3]);
}

/// The source address is the SID of the unicast behaviour on segment zero.
pub proof fn source_is_the_zero_service(l: Locator)
    ensures
        source_of(l) == service_sid(l, DISC_UNICAST, 0),
{
    if usable_locator(l.len) {
        let n = (l.len / 8) as int;
        assert(ipv6_bytes(l.addr).take(n) + service_bytes(0, 0) + zero_bytes(12 - n) =~= ipv6_bytes(
            l.addr,
        ).take(n) + zero_bytes(16 - n));
    }
}

proof fn layout_position_unique(b: Seq<u8>, n: int, m: int, disc: u8, vni: u32)
    requires
        b.len() == 16,
        1 <= n < m <= 12,
        follows_layout(b, n, disc, vni),
        follows_layout(b, m, disc, vni),
        vni < 0x100_0000,
    ensures
        disc == 0,
        vni == 0,
{
    let w = service_bytes(disc, vni);
    let x = b.subrange(n, n + 4);
    let y = b.subrange(m, m + 4);
    assert(x[0] == b[n] && x[1] == b[n + 1] && x[2] == b[n + 2] && x[3] == b[n + 3]);
    assert(y[0] == b[m] && y[1] == b[m + 1] && y[2] == b[m + 2] && y[3] == b[m + 3]);
    assert forall|j: int| n + 4 <= j < 16 implies b[j] == 0 by {
        assert(b.skip(n + 4)[j - n - 4] == zero_bytes(12 - n)[j - n - 4]);
    }
    assert(w[0] == disc && w[1] == (vni / 65536) as u8 && w[2] == (vni / 256 % 256) as u8 && w[3]
        == (vni % 256) as u8);
    if m >= n + 4 {
        assert(b[m] == 0 && b[m + 1] == 0 && b[m + 2] == 0 && b[m + 3] == 0);
    } else if m == n + 1 {
        assert(b[m + 3] == 0);
    } else if m == n + 2 {
        assert(b[m + 2] == 0 && b[m + 3] == 0);
    } else {
        assert(b[m + 1] == 0 && b[m + 2] == 0 && b[m + 3] == 0);
    }
    assert(w[0] == 0 && w[1] == 0 && w[2] == 0 && w[3] == 0);
}

proof fn recovered_skips(b: Seq<u8>, k: int, n: int, disc: u8, vni: u32)
    requires
        b.len() == 16,
        1 <= k <= n <= 12,
        follows_layout(b, n, disc, vni),
        vni < 0x100_0000,
        disc != 0 || vni != 0,
    ensures
        recovered_from(b, k, disc, vni) == Some(ipv6_of_bytes(b.take(n) + zero_bytes(16 - n))),
    decreases n - k,
{
    if k < n {
        if follows_layout(b, k, disc, vni) {
            layout_position_unique(b, k, n, disc, vni);
        }
        recovered_skips(b, k + 1, n, disc, vni);
    }
}

/// What a peer that derives its SIDs advertises leads back to its source address, without knowing
/// its locator.
pub proof fn advertised_sid_gives_the_source(l: Locator, disc: u8, vni: u32)
    requires
        usable_locator(l.len),
        vni < 0x100_0000,
        disc != 0 || vni != 0,
    ensures
        recovered_source(service_sid(l, disc, vni)->0, disc, vni) == source_of(l),
{
    sid_bytes(l, disc, vni);
    let n = (l.len / 8) as int;
    recovered_skips(ipv6_bytes(service_sid(l, disc, vni)->0), 1, n, disc, vni);
}

/// Where each byte of a service SID comes from: the locator's leading bytes, the behaviour, the
/// segment number with its highest byte first, and zeros. There is a SID under every locator of whole
/// bytes between one and twelve, for every segment number of 24 bits, and in no other case.
pub proof fn sid_layout(l: Locator, disc: u8, vni: u32)
    ensures
        service_sid(l, disc, vni) is Some <==> l.len % 8 == 0 && 8 <= l.len <= 96 && vni
            < 0x100_0000,
        service_sid(l, disc, vni) matches Some(sid) ==> {
            let n = (l.len / 8) as int;
            let b = ipv6_bytes(sid);
            &&& b.len() == 16
            &&& forall|j: int| 0 <= j < n ==> #[trigger] b[j] == ipv6_bytes(l.addr)[j]
            &&& b[n] == disc
            &&& b[n + 1] * 65536 + b[n + 2] * 256 + b[n + 3] == vni
            &&& forall|j: int| n + 4 <= j < 16 ==> #[trigger] b[j] == 0
        },
{
    if service_sid(l, disc, vni) is Some {
        sid_bytes(l, disc, vni);
        let n = (l.len / 8) as int;
        let w = service_bytes(disc, vni);
        assert(vni / 65536 < 256);
        assert(w[0] == disc && w[1] == vni / 65536 && w[2] == vni / 256 % 256 && w[3] == vni % 256);
        let b = ipv6_bytes(service_sid(l, disc, vni)->0);
        assert(b[n] == w[0] && b[n + 1] == w[1] && b[n + 2] == w[2] && b[n + 3] == w[3]);
    }
}

/// Where each byte of a host's outer source address comes from: the locator's leading bytes, and
/// zeros.
pub proof fn source_layout(l: Locator)
    ensures
        source_of(l) is Some <==> l.len % 8 == 0 && 8 <= l.len <= 96,
        source_of(l) matches Some(src) ==> {
            let b = ipv6_bytes(src);
            &&& b.len() == 16
            &&& forall|j: int|
                0 <= j < l.len / 8 ==> #[trigger] b[j] == ipv6_bytes(l.addr)[j]
            &&& forall|j: int| l.len / 8 <= j < 16 ==> #[trigger] b[j] == 0
        },
{
    if source_of(l) is Some {
        let n = (l.len / 8) as int;
        let b = ipv6_bytes(l.addr).take(n) + zero_bytes(16 - n);
        bytes_round_trip(b);
    }
}

/// What is recovered from a SID is the start of the SID, followed by zeros, where the behaviour, the
/// segment number and nothing but zeros stand behind that start; of several such starts the shortest.
/// Nothing is recovered only where no start will do.
pub proof fn recovered_source_is_a_start(sid: Ipv6Addr, disc: u8, vni: u32)
    ensures
        recovered_source(sid, disc, vni) matches Some(src) ==> exists|n: int|
            1 <= n <= 12 && #[trigger] stands_behind(sid, n, disc, vni) && ipv6_bytes(src)
                == ipv6_bytes(sid).take(n) + zero_bytes(16 - n) && (forall|m: int|
                1 <= m < n ==> !#[trigger] stands_behind(sid, m, disc, vni)),
        recovered_source(sid, disc, vni) is None ==> forall|n: int|
            1 <= n <= 12 ==> !#[trigger] stands_behind(sid, n, disc, vni),
{
    if vni < 0x100_0000 {
        recovered_is_first(sid, 1, disc, vni);
    }
}

/// The behaviour and the segment number stand behind the first `n` bytes of the address, and zeros
/// behind them.
pub open spec fn stands_behind(sid: Ipv6Addr, n: int, disc: u8, vni: u32) -> bool {
    let b = ipv6_bytes(sid);
    &&& b[n] == disc
    &&& b[n + 1] * 65536 + b[n + 2] * 256 + b[n + 3] == vni
    &&& forall|j: int| n + 4 <= j < 16 ==> #[trigger] b[j] == 0
}

proof fn layout_is_bytewise(b: Seq<u8>, n: int, disc: u8, vni: u32)
    requires
        b.len() == 16,
        1 <= n <= 12,
        vni < 0x100_0000,
    ensures
        follows_layout(b, n, disc, vni) <==> {
            &&& b[n] == disc
            &&& b[n + 1] * 65536 + b[n + 2] * 256 + b[n + 3] == vni
            &&& forall|j: int| n + 4 <= j < 16 ==> #[trigger] b[j] == 0
        },
{
    let w = service_bytes(disc, vni);
    let x = b.subrange(n, n + 4);
    assert(vni / 65536 < 256);
    assert(w[0] == disc && w[1] == vni / 65536 && w[2] == vni / 256 % 256 && w[3] == vni % 256);
    assert(x[0] == b[n] && x[1] == b[n + 1] && x[2] == b[n + 2] && x[3] == b[n + 3]);
    if follows_layout(b, n, disc, vni) {
        assert forall|j: int| n + 4 <= j < 16 implies #[trigger] b[j] == 0 by {
            assert(b.skip(n + 4)[j - n - 4] == zero_bytes(12 - n)[j - n - 4]);
        }
    } else {
        if b[n] == disc && b[n + 1] * 65536 + b[n + 2] * 256 + b[n + 3] == vni {
            assert(x =~= w);
            if forall|j: int| n + 4 <= j < 16 ==> #[trigger] b[j] == 0 {
                assert(b.skip(n + 4) =~= zero_bytes(12 - n));
            }
        }
    }
}

proof fn recovered_is_first(sid: Ipv6Addr, k: int, disc: u8, vni: u32)
    requires
        1 <= k <= 13,
        vni < 0x100_0000,
    ensures
        recovered_from(ipv6_bytes(sid), k, disc, vni) matches Some(src) ==> exists|n: int|
            k <= n <= 12 && #[trigger] stands_behind(sid, n, disc, vni) && ipv6_bytes(src)
                == ipv6_bytes(sid).take(n) + zero_bytes(16 - n) && (forall|m: int|
                k <= m < n ==> !#[trigger] stands_behind(sid, m, disc, vni)),
        recovered_from(ipv6_bytes(sid), k, disc, vni) is None ==> forall|n: int|
            k <= n <= 12 ==> !#[trigger] stands_behind(sid, n, disc, vni),
    decreases 13 - k,
{
    if k <= 12 {
        layout_is_bytewise(ipv6_bytes(sid), k, disc, vni);
        let b = ipv6_bytes(sid).take(k) + zero_bytes(16 - k);
        bytes_round_trip(b);
        if follows_layout(ipv6_bytes(sid), k, disc, vni) {
            assert(stands_behind(sid, k, disc, vni));
        } else {
            recovered_is_first(sid, k + 1, disc, vni);
        }
    }
}

/// The behaviours are told apart by their numbers.
pub proof fn behaviour_numbers()
    ensures
        DISC_UNICAST == 0,
        DISC_MULTICAST == 1,
{
}

} // verus!
