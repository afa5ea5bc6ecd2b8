//! What a routing daemon's EVPN feed says of the remote fabric: the lines of the feed, the state
//! learned from them, and when that state asks for a new derivation.
//!
//! ```text
//! + evpn vni <vni> mac <mac> ip <ipaddr> vtep <ipaddr>
//! + evpn vni <vni> mac <mac> vtep <ipaddr>
//! - evpn vni <vni> mac <mac>
//! + evpn vni <vni> flood <ipaddr>
//! - evpn vni <vni> flood <ipaddr>
//! + evpn l3vni <vni> prefix <cidr> vtep <ipaddr> [router-mac <mac>] [gw <ipaddr>] [srv6 <sid>]
//! - evpn l3vni <vni> prefix <cidr>
//! % end-of-dump
//! ```

use vstd::prelude::*;

use crate::addr::{
    ip_of, ipv6_of, mac_from, parse_ip, parse_ipv6, parse_mac_chars, IpAddr, Ipv6Addr,
};
use crate::lists::keyed;
use crate::sorted::{
    in_order, keys, text_before, text_irreflexive, text_precedes, text_total, text_transitive,
    values, Item, Key, SortedMap,
};
use crate::text::{
    chars_are, chars_of, find_char, find_from, parse_unsigned, split_words, string_of, sub_chars,
    unsigned_value, unsigned_value_nonnegative, views, words,
};

verus! {

/// One change of the remote state. An endpoint that speaks SRv6 may advertise a service SID with
/// it; the lines of the feed do not carry one on.
#[derive(Debug, PartialEq, Eq)]
pub enum EvpnMonitorEvent {
    /// A remote MAC address, with its bound address where there is one, behind `vtep`.
    MacUpdate {
        vni: u32,
        mac: [u8; 6],
        ip: Option<IpAddr>,
        vtep: IpAddr,
        srv6_sid: Option<Ipv6Addr>,
    },
    /// A remote MAC address is gone.
    MacWithdraw { vni: u32, mac: [u8; 6] },
    /// An endpoint to flood to.
    FloodUpdate { vni: u32, vtep: IpAddr, srv6_sid: Option<Ipv6Addr> },
    /// An endpoint to flood to is gone.
    FloodWithdraw { vni: u32, vtep: IpAddr },
    /// A remote subnet, reached by routing through `vtep` in the tenant's layer-3 segment.
    PrefixUpdate {
        l3_vni: u32,
        prefix: String,
        vtep: IpAddr,
        router_mac: Option<[u8; 6]>,
        gw: Option<IpAddr>,
        srv6_sid: Option<Ipv6Addr>,
    },
    /// A remote subnet is gone.
    PrefixWithdraw { l3_vni: u32, prefix: String },
    /// The initial snapshot is complete.
    EndOfDump,
}

/// What an [`EvpnMonitorEvent`] holds.
pub enum EventView {
    MacUpdate {
        vni: u32,
        mac: [u8; 6],
        ip: Option<IpAddr>,
        vtep: IpAddr,
        srv6_sid: Option<Ipv6Addr>,
    },
    MacWithdraw { vni: u32, mac: [u8; 6] },
    FloodUpdate { vni: u32, vtep: IpAddr, srv6_sid: Option<Ipv6Addr> },
    FloodWithdraw { vni: u32, vtep: IpAddr },
    PrefixUpdate {
        l3_vni: u32,
        prefix: Seq<char>,
        vtep: IpAddr,
        router_mac: Option<[u8; 6]>,
        gw: Option<IpAddr>,
        srv6_sid: Option<Ipv6Addr>,
    },
    PrefixWithdraw { l3_vni: u32, prefix: Seq<char> },
    EndOfDump,
}

impl View for EvpnMonitorEvent {
    type V = EventView;

    open spec fn view(&self) -> EventView {
        match self {
            EvpnMonitorEvent::MacUpdate { vni, mac, ip, vtep, srv6_sid } => EventView::MacUpdate {
                vni: *vni,
                mac: *mac,
                ip: *ip,
                vtep: *vtep,
                srv6_sid: *srv6_sid,
            },
            EvpnMonitorEvent::MacWithdraw { vni, mac } => EventView::MacWithdraw {
                vni: *vni,
                mac: *mac,
            },
            EvpnMonitorEvent::FloodUpdate { vni, vtep, srv6_sid } => EventView::FloodUpdate {
                vni: *vni,
                vtep: *vtep,
                srv6_sid: *srv6_sid,
            },
            EvpnMonitorEvent::FloodWithdraw { vni, vtep } => EventView::FloodWithdraw {
                vni: *vni,
                vtep: *vtep,
            },
            EvpnMonitorEvent::PrefixUpdate { l3_vni, prefix, vtep, router_mac, gw, srv6_sid } =>
                EventView::PrefixUpdate {
                l3_vni: *l3_vni,
                prefix: prefix@,
                vtep: *vtep,
                router_mac: *router_mac,
                gw: *gw,
                srv6_sid: *srv6_sid,
            },
            EvpnMonitorEvent::PrefixWithdraw { l3_vni, prefix } => EventView::PrefixWithdraw {
                l3_vni: *l3_vni,
                prefix: prefix@,
            },
            EvpnMonitorEvent::EndOfDump => EventView::EndOfDump,
        }
    }
}

// ---------------------------------------------------------------------------
// The lines of the feed
// ---------------------------------------------------------------------------

/// A segment id in decimal.
pub open spec fn vni_of(s: Seq<char>) -> Option<u32> {
    match unsigned_value(s, 10, 0xFFFF_FFFF) {
        Some(n) => Some(n as u32),
        None => None,
    }
}

/// Whether `s` is `address/length` with a length that fits the family of the address.
pub open spec fn is_cidr(s: Seq<char>) -> bool {
    let i = find_char(s, '/') as int;
    i < s.len() && match (ip_of(s.take(i)), unsigned_value(s.skip(i + 1), 10, 255)) {
        (Some(IpAddr::V4(_)), Some(n)) => n <= 32,
        (Some(IpAddr::V6(_)), Some(n)) => n <= 128,
        _ => false,
    }
}

/// The optional end of a prefix line, as pairs of a keyword and a value. A later pair counts over
/// an earlier one; an unknown keyword, a malformed value or a keyword without a value spoils the
/// line.
pub open spec fn prefix_tail(
    t: Seq<Seq<char>>,
    router_mac: Option<[u8; 6]>,
    gw: Option<IpAddr>,
) -> Option<(Option<[u8; 6]>, Option<IpAddr>)>
    decreases t.len(),
{
    if t.len() == 0 {
        Some((router_mac, gw))
    } else if t.len() == 1 {
        None
    } else if t[0] == "router-mac"@ {
        match mac_from(t[1]) {
            Some(m) => prefix_tail(t.skip(2), Some(m), gw),
            None => None,
        }
    } else if t[0] == "gw"@ {
        match ip_of(t[1]) {
            Some(a) => prefix_tail(t.skip(2), router_mac, Some(a)),
            None => None,
        }
    } else if t[0] == "srv6"@ {
        match ipv6_of(t[1]) {
            Some(_) => prefix_tail(t.skip(2), router_mac, gw),
            None => None,
        }
    } else {
        None
    }
}

/// The event of a line about a prefix, from its words.
pub open spec fn prefix_event(t: Seq<Seq<char>>) -> Option<EventView> {
    match vni_of(t[3]) {
        Some(l3_vni) => if t[4] != "prefix"@ || !is_cidr(t[5]) {
            None
        } else if t[0] == "-"@ {
            if t.len() == 6 {
                Some(EventView::PrefixWithdraw { l3_vni, prefix: t[5] })
            } else {
                None
            }
        } else if t.len() < 8 || t[6] != "vtep"@ {
            None
        } else {
            match (ip_of(t[7]), prefix_tail(t.skip(8), None, None)) {
                (Some(vtep), Some((router_mac, gw))) => Some(
                    EventView::PrefixUpdate {
                        l3_vni,
                        prefix: t[5],
                        vtep,
                        router_mac,
                        gw,
                        srv6_sid: None,
                    },
                ),
                _ => None,
            }
        },
        None => None,
    }
}

/// The event of a line about a bridged segment, from its words.
pub open spec fn segment_event(t: Seq<Seq<char>>) -> Option<EventView> {
    match vni_of(t[3]) {
        None => None,
        Some(vni) => if t[4] == "flood"@ {
            match ip_of(t[5]) {
                Some(vtep) => if t.len() != 6 {
                    None
                } else if t[0] == "+"@ {
                    Some(EventView::FloodUpdate { vni, vtep, srv6_sid: None })
                } else {
                    Some(EventView::FloodWithdraw { vni, vtep })
                },
                None => None,
            }
        } else if t[4] == "mac"@ {
            match mac_from(t[5]) {
                None => None,
                Some(mac) => if t[0] == "-"@ {
                    if t.len() == 6 {
                        Some(EventView::MacWithdraw { vni, mac })
                    } else {
                        None
                    }
                } else if t.len() == 8 && t[6] == "vtep"@ {
                    match ip_of(t[7]) {
                        Some(vtep) => Some(
                            EventView::MacUpdate { vni, mac, ip: None, vtep, srv6_sid: None },
                        ),
                        None => None,
                    }
                } else if t.len() == 10 && t[6] == "ip"@ && t[8] == "vtep"@ {
                    match (ip_of(t[7]), ip_of(t[9])) {
                        (Some(ip), Some(vtep)) => Some(
                            EventView::MacUpdate { vni, mac, ip: Some(ip), vtep, srv6_sid: None },
                        ),
                        _ => None,
                    }
                } else {
                    None
                },
            }
        } else {
            None
        },
    }
}

/// The event of a line; `None` where it is none that is known.
pub open spec fn event_of(line: Seq<char>) -> Option<EventView> {
    let t = words(line);
    if t.len() == 2 && t[0] == "%"@ && t[1] == "end-of-dump"@ {
        Some(EventView::EndOfDump)
    } else if t.len() < 6 || (t[0] != "+"@ && t[0] != "-"@) || t[1] != "evpn"@ {
        None
    } else if t[2] == "l3vni"@ {
        prefix_event(t)
    } else if t[2] == "vni"@ {
        segment_event(t)
    } else {
        None
    }
}

/// The view of an optional event.
pub open spec fn opt_event(e: Option<EvpnMonitorEvent>) -> Option<EventView> {
    match e {
        Some(e) => Some(e@),
        None => None,
    }
}

fn parse_vni(v: &Vec<char>) -> (r: Option<u32>)
    ensures
        r == vni_of(v@),
{
    match parse_unsigned(v, 10, 0xFFFF_FFFF) {
        Some(n) => Some(n as u32),
        None => None,
    }
}

/// Accepts `address/length` where both parts are well formed and the length fits.
pub fn validated_cidr(v: &Vec<char>) -> (r: Option<String>)
    ensures
        match r {
            Some(s) => is_cidr(v@) && s@ == v@,
            None => !is_cidr(v@),
        },
{
    assert(v@.skip(0) =~= v@);
    let i: usize = find_from(v, '/', 0);
    if i == v.len() {
        return None;
    }
    let addr = sub_chars(v, 0, i);
    let len = sub_chars(v, i + 1, v.len());
    assert(addr@ =~= v@.take(i as int));
    assert(len@ =~= v@.skip(i + 1));
    match (parse_ip(&addr), parse_unsigned(&len, 10, 255)) {
        (Some(a), Some(n)) => {
            let max: u64 = match a {
                IpAddr::V4(_) => 32,
                IpAddr::V6(_) => 128,
            };
            if n <= max {
                Some(string_of(v))
            } else {
                None
            }
        },
        _ => None,
    }
}

fn parse_prefix_event(t: &Vec<Vec<char>>) -> (r: Option<EvpnMonitorEvent>)
    requires
        t@.len() >= 6,
        t@[0]@ == "+"@ || t@[0]@ == "-"@,
    ensures
        opt_event(r) == prefix_event(views(t@)),
{
    let ghost w = views(t@);
    assert(w[0] == t@[0]@ && w[3] == t@[3]@ && w[4] == t@[4]@ && w[5] == t@[5]@);
    if !chars_are(&t[4], "prefix") {
        return None;
    }
    let l3_vni: u32 = match parse_vni(&t[3]) {
        Some(n) => n,
        None => {
            return None;
        },
    };
    let prefix = match validated_cidr(&t[5]) {
        Some(p) => p,
        None => {
            return None;
        },
    };
    if chars_are(&t[0], "-") {
        if t.len() == 6 {
            return Some(EvpnMonitorEvent::PrefixWithdraw { l3_vni, prefix });
        }
        return None;
    }
    if t.len() < 8 || !chars_are(&t[6], "vtep") {
        return None;
    }
    let vtep = match parse_ip(&t[7]) {
        Some(a) => a,
        None => {
            return None;
        },
    };
    let mut router_mac: Option<[u8; 6]> = None;
    let mut gw: Option<IpAddr> = None;
    let mut i: usize = 8;
    while t.len() - i >= 2
        invariant
            8 <= i <= t@.len(),
            w == views(t@),
            prefix_tail(w.skip(i as int), router_mac, gw) == prefix_tail(w.skip(8), None, None),
            prefix_event(w) == match (ip_of(w[7]), prefix_tail(w.skip(8), None, None)) {
                (Some(vtep), Some((router_mac, gw))) => Some(
                    EventView::PrefixUpdate {
                        l3_vni,
                        prefix: prefix@,
                        vtep,
                        router_mac,
                        gw,
                        srv6_sid: None,
                    },
                ),
                _ => None,
            },
        decreases t@.len() - i,
    {
        let ghost rest = w.skip(i as int);
        assert(rest[0] == t@[i as int]@ && rest[1] == t@[i + 1]@);
        assert(rest.skip(2) =~= w.skip(i + 2));
        if chars_are(&t[i], "router-mac") {
            match parse_mac_chars(&t[i + 1]) {
                Some(m) => {
                    router_mac = Some(m);
                },
                None => {
                    return None;
                },
            }
        } else if chars_are(&t[i], "gw") {
            match parse_ip(&t[i + 1]) {
                Some(a) => {
                    gw = Some(a);
                },
                None => {
                    return None;
                },
            }
        } else if chars_are(&t[i], "srv6") {
            if parse_ipv6(&t[i + 1]).is_none() {
                return None;
            }
        } else {
            return None;
        }
        i += 2;
    }
    assert(w.skip(i as int).len() == t@.len() - i);
    if i != t.len() {
        return None;
    }
    Some(EvpnMonitorEvent::PrefixUpdate { l3_vni, prefix, vtep, router_mac, gw, srv6_sid: None })
}

/// Reads one line of the feed. White space may stand anywhere between the words; a line that is not
/// understood in full gives `None`.
pub fn parse_evpn_event(line: &str) -> (r: Option<EvpnMonitorEvent>)
    ensures
        opt_event(r) == event_of(line@),
{
    let v = chars_of(line);
    let t = split_words(&v);
    let ghost w = words(line@);
    assert(views(t@) == w);
    assert forall|i: int| 0 <= i < t@.len() implies w[i] == (#[trigger] t@[i])@ by {}
    if t.len() == 2 && chars_are(&t[0], "%") && chars_are(&t[1], "end-of-dump") {
        return Some(EvpnMonitorEvent::EndOfDump);
    }
    if t.len() < 6 {
        return None;
    }
    let add = chars_are(&t[0], "+");
    if (!add && !chars_are(&t[0], "-")) || !chars_are(&t[1], "evpn") {
        return None;
    }
    if chars_are(&t[2], "l3vni") {
        return parse_prefix_event(&t);
    }
    if !chars_are(&t[2], "vni") {
        return None;
    }
    let vni: u32 = match parse_vni(&t[3]) {
        Some(n) => n,
        None => {
            return None;
        },
    };
    proof {
        reveal_strlit("+");
        reveal_strlit("-");
        assert("+"@[0] != "-"@[0]);
    }
    if chars_are(&t[4], "flood") {
        if t.len() != 6 {
            return None;
        }
        return match parse_ip(&t[5]) {
            Some(vtep) => if add {
                Some(EvpnMonitorEvent::FloodUpdate { vni, vtep, srv6_sid: None })
            } else {
                Some(EvpnMonitorEvent::FloodWithdraw { vni, vtep })
            },
            None => None,
        };
    }
    if !chars_are(&t[4], "mac") {
        return None;
    }
    proof {
        reveal_strlit("flood");
        reveal_strlit("mac");
    }
    let mac = match parse_mac_chars(&t[5]) {
        Some(m) => m,
        None => {
            return None;
        },
    };
    if !add {
        if t.len() == 6 {
            return Some(EvpnMonitorEvent::MacWithdraw { vni, mac });
        }
        return None;
    }
    if t.len() == 8 {
        if !chars_are(&t[6], "vtep") {
            return None;
        }
        return match parse_ip(&t[7]) {
            Some(vtep) => Some(
                EvpnMonitorEvent::MacUpdate { vni, mac, ip: None, vtep, srv6_sid: None },
            ),
            None => None,
        };
    }
    if t.len() == 10 {
        if !chars_are(&t[6], "ip") || !chars_are(&t[8], "vtep") {
            return None;
        }
        return match (parse_ip(&t[7]), parse_ip(&t[9])) {
            (Some(ip), Some(vtep)) => Some(
                EvpnMonitorEvent::MacUpdate { vni, mac, ip: Some(ip), vtep, srv6_sid: None },
            ),
            _ => None,
        };
    }
    None
}

// ---------------------------------------------------------------------------
// Keys
// ---------------------------------------------------------------------------

/// A MAC address on a segment. Ordered by segment, then by address.
#[derive(Clone, Copy, Debug, PartialEq, Eq)]
pub struct MacKey {
    pub vni: u32,
    pub mac: [u8; 6],
}

impl View for MacKey {
    type V = (u32, [u8; 6]);

    open spec fn view(&self) -> (u32, [u8; 6]) {
        (self.vni, self.mac)
    }
}

/// The order of MAC addresses: byte by byte.
pub open spec fn mac_before(a: [u8; 6], b: [u8; 6]) -> bool {
    a[0] < b[0] || (a[0] == b[0] && (a[1] < b[1] || (a[1] == b[1] && (a[2] < b[2] || (a[2] == b[2]
        && (a[3] < b[3] || (a[3] == b[3] && (a[4] < b[4] || (a[4] == b[4] && a[5] < b[5])))))))))
}

fn mac_precedes(a: &[u8; 6], b: &[u8; 6]) -> (r: bool)
    ensures
        r == mac_before(*a, *b),
{
    a[0] < b[0] || (a[0] == b[0] && (a[1] < b[1] || (a[1] == b[1] && (a[2] < b[2] || (a[2] == b[2]
        && (a[3] < b[3] || (a[3] == b[3] && (a[4] < b[4] || (a[4] == b[4] && a[5] < b[5])))))))))
}

proof fn macs_equal(a: [u8; 6], b: [u8; 6])
    requires
        a[0] == b[0],
        a[1] == b[1],
        a[2] == b[2],
        a[3] == b[3],
        a[4] == b[4],
        a[5] == b[5],
    ensures
        a == b,
{
    assert forall|i: int| 0 <= i < 6 implies a[i] == b[i] by {}
    assert(a =~= b);
}

/// Whether two MAC addresses are the same.
pub fn same_mac(a: &[u8; 6], b: &[u8; 6]) -> (r: bool)
    ensures
        r == (*a == *b),
{
    let r = a[0] == b[0] && a[1] == b[1] && a[2] == b[2] && a[3] == b[3] && a[4] == b[4] && a[5]
        == b[5];
    proof {
        if r {
            macs_equal(*a, *b);
        }
    }
    r
}

impl Key for MacKey {
    open spec fn before(a: (u32, [u8; 6]), b: (u32, [u8; 6])) -> bool {
        a.0 < b.0 || (a.0 == b.0 && mac_before(a.1, b.1))
    }

    proof fn irreflexive(a: (u32, [u8; 6])) {
    }

    proof fn transitive(a: (u32, [u8; 6]), b: (u32, [u8; 6]), c: (u32, [u8; 6])) {
    }

    proof fn total(a: (u32, [u8; 6]), b: (u32, [u8; 6])) {
        if a.0 == b.0 && !mac_before(a.1, b.1) && !mac_before(b.1, a.1) {
            macs_equal(a.1, b.1);
        }
    }

    fn precedes(&self, other: &Self) -> (r: bool) {
        self.vni < other.vni || (self.vni == other.vni && mac_precedes(&self.mac, &other.mac))
    }
}

/// An endpoint to flood to on a segment. Ordered by segment, then by address.
#[derive(Clone, Copy, Debug, PartialEq, Eq, Structural)]
pub struct FloodKey {
    pub vni: u32,
    pub vtep: IpAddr,
}

impl View for FloodKey {
    type V = (u32, IpAddr);

    open spec fn view(&self) -> (u32, IpAddr) {
        (self.vni, self.vtep)
    }
}

/// The order of IPv6 addresses: segment by segment.
pub open spec fn ipv6_before(a: Ipv6Addr, b: Ipv6Addr) -> bool {
    a.s0 < b.s0 || (a.s0 == b.s0 && (a.s1 < b.s1 || (a.s1 == b.s1 && (a.s2 < b.s2 || (a.s2 == b.s2
        && (a.s3 < b.s3 || (a.s3 == b.s3 && (a.s4 < b.s4 || (a.s4 == b.s4 && (a.s5 < b.s5 || (a.s5
        == b.s5 && (a.s6 < b.s6 || (a.s6 == b.s6 && a.s7 < b.s7)))))))))))))
}

/// The order of addresses: IPv4 before IPv6, then by number.
pub open spec fn ip_before(a: IpAddr, b: IpAddr) -> bool {
    match (a, b) {
        (IpAddr::V4(x), IpAddr::V4(y)) => x.bits < y.bits,
        (IpAddr::V4(_), IpAddr::V6(_)) => true,
        (IpAddr::V6(_), IpAddr::V4(_)) => false,
        (IpAddr::V6(x), IpAddr::V6(y)) => ipv6_before(x, y),
    }
}

/// Decides [`ip_before`].
pub fn ip_precedes(a: IpAddr, b: IpAddr) -> (r: bool)
    ensures
        r == ip_before(a, b),
{
    match (a, b) {
        (IpAddr::V4(x), IpAddr::V4(y)) => x.bits < y.bits,
        (IpAddr::V4(_), IpAddr::V6(_)) => true,
        (IpAddr::V6(_), IpAddr::V4(_)) => false,
        (IpAddr::V6(a), IpAddr::V6(b)) => a.s0 < b.s0 || (a.s0 == b.s0 && (a.s1 < b.s1 || (a.s1
            == b.s1 && (a.s2 < b.s2 || (a.s2 == b.s2 && (a.s3 < b.s3 || (a.s3 == b.s3 && (a.s4
            < b.s4 || (a.s4 == b.s4 && (a.s5 < b.s5 || (a.s5 == b.s5 && (a.s6 < b.s6 || (a.s6
            == b.s6 && a.s7 < b.s7))))))))))))),
    }
}

impl Key for FloodKey {
    open spec fn before(a: (u32, IpAddr), b: (u32, IpAddr)) -> bool {
        a.0 < b.0 || (a.0 == b.0 && ip_before(a.1, b.1))
    }

    proof fn irreflexive(a: (u32, IpAddr)) {
    }

    proof fn transitive(a: (u32, IpAddr), b: (u32, IpAddr), c: (u32, IpAddr)) {
    }

    proof fn total(a: (u32, IpAddr), b: (u32, IpAddr)) {
    }

    fn precedes(&self, other: &Self) -> (r: bool) {
        self.vni < other.vni || (self.vni == other.vni && ip_precedes(self.vtep, other.vtep))
    }
}

/// A prefix of a tenant. Ordered by the tenant's segment, then by the text of the prefix.
#[derive(Debug, PartialEq, Eq)]
pub struct PrefixKey {
    pub l3_vni: u32,
    pub prefix: String,
}

impl View for PrefixKey {
    type V = (u32, Seq<char>);

    open spec fn view(&self) -> (u32, Seq<char>) {
        (self.l3_vni, self.prefix@)
    }
}

impl Key for PrefixKey {
    open spec fn before(a: (u32, Seq<char>), b: (u32, Seq<char>)) -> bool {
        a.0 < b.0 || (a.0 == b.0 && text_before(a.1, b.1))
    }

    proof fn irreflexive(a: (u32, Seq<char>)) {
        text_irreflexive(a.1);
    }

    proof fn transitive(a: (u32, Seq<char>), b: (u32, Seq<char>), c: (u32, Seq<char>)) {
        if a.0 == b.0 && b.0 == c.0 {
            text_transitive(a.1, b.1, c.1);
        }
    }

    proof fn total(a: (u32, Seq<char>), b: (u32, Seq<char>)) {
        text_total(a.1, b.1);
    }

    fn precedes(&self, other: &Self) -> (r: bool) {
        self.l3_vni < other.l3_vni || (self.l3_vni == other.l3_vni && text_precedes(
            self.prefix.as_str(),
            other.prefix.as_str(),
        ))
    }
}

// ---------------------------------------------------------------------------
// The learned state
// ---------------------------------------------------------------------------

/// Where a remote MAC address is, and the address bound to it.
#[derive(Clone, Copy, Debug, PartialEq, Eq, Structural)]
pub struct LearnedMac {
    pub vtep: IpAddr,
    pub ip: Option<IpAddr>,
    pub srv6_sid: Option<Ipv6Addr>,
}

/// Where a remote subnet is routed, with the MAC address of the egress router.
#[derive(Clone, Copy, Debug, PartialEq, Eq)]
pub struct LearnedPrefix {
    pub vtep: IpAddr,
    /// Without it the route cannot be programmed: there is no inner destination to write.
    pub router_mac: Option<[u8; 6]>,
    pub gw: Option<IpAddr>,
    pub srv6_sid: Option<Ipv6Addr>,
}

/// The remote state that the feed describes.
#[derive(Debug, PartialEq, Eq)]
pub struct EvpnLearned {
    macs: SortedMap<MacKey, LearnedMac>,
    floods: SortedMap<FloodKey, Option<Ipv6Addr>>,
    prefixes: SortedMap<PrefixKey, LearnedPrefix>,
}

/// What an [`EvpnLearned`] holds: MAC addresses by segment and address, endpoints to flood to by
/// segment, and prefixes by tenant and prefix.
#[verifier::ext_equal]
pub struct LearnedView {
    pub macs: Map<(u32, [u8; 6]), LearnedMac>,
    pub floods: Map<(u32, IpAddr), Option<Ipv6Addr>>,
    pub prefixes: Map<(u32, Seq<char>), LearnedPrefix>,
}

impl View for EvpnLearned {
    type V = LearnedView;

    closed spec fn view(&self) -> LearnedView {
        LearnedView { macs: self.macs@, floods: self.floods@, prefixes: self.prefixes@ }
    }
}

impl LearnedView {
    /// Nothing learned.
    pub open spec fn empty() -> LearnedView {
        LearnedView { macs: Map::empty(), floods: Map::empty(), prefixes: Map::empty() }
    }

    /// The state after an event.
    pub open spec fn learn(self, ev: EventView) -> LearnedView {
        match ev {
            EventView::MacUpdate { vni, mac, ip, vtep, srv6_sid } => LearnedView {
                macs: self.macs.insert((vni, mac), LearnedMac { vtep, ip, srv6_sid }),
                ..self
            },
            EventView::MacWithdraw { vni, mac } => LearnedView {
                macs: self.macs.remove((vni, mac)),
                ..self
            },
            EventView::FloodUpdate { vni, vtep, srv6_sid } => LearnedView {
                floods: self.floods.insert((vni, vtep), srv6_sid),
                ..self
            },
            EventView::FloodWithdraw { vni, vtep } => LearnedView {
                floods: self.floods.remove((vni, vtep)),
                ..self
            },
            EventView::PrefixUpdate { l3_vni, prefix, vtep, router_mac, gw, srv6_sid } =>
                LearnedView {
                prefixes: self.prefixes.insert(
                    (l3_vni, prefix),
                    LearnedPrefix { vtep, router_mac, gw, srv6_sid },
                ),
                ..self
            },
            EventView::PrefixWithdraw { l3_vni, prefix } => LearnedView {
                prefixes: self.prefixes.remove((l3_vni, prefix)),
                ..self
            },
            EventView::EndOfDump => self,
        }
    }

    /// Whether an event changes the state.
    pub open spec fn changes(self, ev: EventView) -> bool {
        match ev {
            EventView::MacUpdate { vni, mac, ip, vtep, srv6_sid } =>
                !(self.macs.dom().contains((vni, mac))
                && self.macs[(vni, mac)] == LearnedMac { vtep, ip, srv6_sid }),
            EventView::MacWithdraw { vni, mac } => self.macs.dom().contains((vni, mac)),
            EventView::FloodUpdate { vni, vtep, srv6_sid } =>
                !(self.floods.dom().contains((vni, vtep))
                && self.floods[(vni, vtep)] == srv6_sid),
            EventView::FloodWithdraw { vni, vtep } => self.floods.dom().contains((vni, vtep)),
            EventView::PrefixUpdate { l3_vni, prefix, vtep, router_mac, gw, srv6_sid } => !(
            self.prefixes.dom().contains((l3_vni, prefix)) && self.prefixes[(l3_vni, prefix)]
                == LearnedPrefix { vtep, router_mac, gw, srv6_sid }),
            EventView::PrefixWithdraw { l3_vni, prefix } => self.prefixes.dom().contains(
                (l3_vni, prefix),
            ),
            EventView::EndOfDump => false,
        }
    }
}

fn same_mac_option(a: Option<[u8; 6]>, b: Option<[u8; 6]>) -> (r: bool)
    ensures
        r == (a == b),
{
    match (a, b) {
        (Some(x), Some(y)) => same_mac(&x, &y),
        (None, None) => true,
        _ => false,
    }
}

impl EvpnLearned {
    /// The tables are in order.
    pub closed spec fn inv(&self) -> bool {
        self.macs.inv() && self.floods.inv() && self.prefixes.inv()
    }

    /// Nothing learned.
    pub fn new() -> (r: EvpnLearned)
        ensures
            r.inv(),
            r@ == LearnedView::empty(),
    {
        EvpnLearned {
            macs: SortedMap::new(),
            floods: SortedMap::new(),
            prefixes: SortedMap::new(),
        }
    }

    /// Takes an event in. Tells whether anything changed.
    pub fn apply(&mut self, ev: &EvpnMonitorEvent) -> (r: bool)
        requires
            old(self).inv(),
        ensures
            final(self).inv(),
            final(self)@ == old(self)@.learn(ev@),
            r == old(self)@.changes(ev@),
    {
        proof {
            change_is_reported(self@, ev@);
        }
        match ev {
            EvpnMonitorEvent::MacUpdate { vni, mac, ip, vtep, srv6_sid } => {
                let key = MacKey { vni: *vni, mac: *mac };
                let next = LearnedMac { vtep: *vtep, ip: *ip, srv6_sid: *srv6_sid };
                let known = match self.macs.get(&key) {
                    Some(cur) => *cur == next,
                    None => false,
                };
                if known {
                    assert(self@.macs =~= old(self)@.learn(ev@).macs);
                    return false;
                }
                self.macs.insert(key, next);
                true
            },
            EvpnMonitorEvent::MacWithdraw { vni, mac } => {
                self.macs.remove(&MacKey { vni: *vni, mac: *mac })
            },
            EvpnMonitorEvent::FloodUpdate { vni, vtep, srv6_sid } => {
                let key = FloodKey { vni: *vni, vtep: *vtep };
                let known = match self.floods.get(&key) {
                    Some(cur) => *cur == *srv6_sid,
                    None => false,
                };
                if known {
                    assert(self@.floods =~= old(self)@.learn(ev@).floods);
                    return false;
                }
                self.floods.insert(key, *srv6_sid);
                true
            },
            EvpnMonitorEvent::FloodWithdraw { vni, vtep } => {
                self.floods.remove(&FloodKey { vni: *vni, vtep: *vtep })
            },
            EvpnMonitorEvent::PrefixUpdate { l3_vni, prefix, vtep, router_mac, gw, srv6_sid } => {
                let key = PrefixKey { l3_vni: *l3_vni, prefix: prefix.clone() };
                let next = LearnedPrefix {
                    vtep: *vtep,
                    router_mac: *router_mac,
                    gw: *gw,
                    srv6_sid: *srv6_sid,
                };
                let known = match self.prefixes.get(&key) {
                    Some(cur) => cur.vtep == next.vtep && same_mac_option(
                        cur.router_mac,
                        next.router_mac,
                    ) && cur.gw == next.gw && cur.srv6_sid == next.srv6_sid,
                    None => false,
                };
                if known {
                    assert(self@.prefixes =~= old(self)@.learn(ev@).prefixes);
                    return false;
                }
                self.prefixes.insert(key, next);
                true
            },
            EvpnMonitorEvent::PrefixWithdraw { l3_vni, prefix } => {
                let key = PrefixKey { l3_vni: *l3_vni, prefix: prefix.clone() };
                self.prefixes.remove(&key)
            },
            EvpnMonitorEvent::EndOfDump => false,
        }
    }

    /// The learned MAC addresses, by segment and address.
    pub fn iter_macs(&self) -> (r: &Vec<Item<MacKey, LearnedMac>>)
        requires
            self.inv(),
        ensures
            in_order(r@),
            keyed(keys(r@), values(r@)) == self@.macs,
    {
        self.macs.items()
    }

    /// The endpoints to flood to, by segment and address.
    pub fn floods(&self) -> (r: &Vec<Item<FloodKey, Option<Ipv6Addr>>>)
        requires
            self.inv(),
        ensures
            in_order(r@),
            keyed(keys(r@), values(r@)) == self@.floods,
    {
        self.floods.items()
    }

    /// The learned prefixes, by tenant and prefix.
    pub fn iter_prefixes(&self) -> (r: &Vec<Item<PrefixKey, LearnedPrefix>>)
        requires
            self.inv(),
        ensures
            in_order(r@),
            keyed(keys(r@), values(r@)) == self@.prefixes,
    {
        self.prefixes.items()
    }
}

/// An event is reported as a change exactly when the state after it differs.
pub proof fn change_is_reported(s: LearnedView, ev: EventView)
    ensures
        s.changes(ev) <==> s.learn(ev) != s,
{
    let t = s.learn(ev);
    match ev {
        EventView::MacUpdate { vni, mac, ip, vtep, srv6_sid } => {
            if !s.changes(ev) {
                assert(t.macs =~= s.macs);
            } else {
                assert(t.macs[(vni, mac)] == LearnedMac { vtep, ip, srv6_sid });
                assert(t.macs.dom().contains((vni, mac)));
            }
        },
        EventView::MacWithdraw { vni, mac } => {
            if !s.changes(ev) {
                assert(t.macs =~= s.macs);
            } else {
                assert(!t.macs.dom().contains((vni, mac)));
            }
        },
        EventView::FloodUpdate { vni, vtep, srv6_sid } => {
            if !s.changes(ev) {
                assert(t.floods =~= s.floods);
            } else {
                assert(t.floods[(vni, vtep)] == srv6_sid);
                assert(t.floods.dom().contains((vni, vtep)));
            }
        },
        EventView::FloodWithdraw { vni, vtep } => {
            if !s.changes(ev) {
                assert(t.floods =~= s.floods);
            } else {
                assert(!t.floods.dom().contains((vni, vtep)));
            }
        },
        EventView::PrefixUpdate { l3_vni, prefix, vtep, router_mac, gw, srv6_sid } => {
            if !s.changes(ev) {
                assert(t.prefixes =~= s.prefixes);
            } else {
                assert(t.prefixes[(l3_vni, prefix)]
                    == LearnedPrefix { vtep, router_mac, gw, srv6_sid });
                assert(t.prefixes.dom().contains((l3_vni, prefix)));
            }
        },
        EventView::PrefixWithdraw { l3_vni, prefix } => {
            if !s.changes(ev) {
                assert(t.prefixes =~= s.prefixes);
            } else {
                assert(!t.prefixes.dom().contains((l3_vni, prefix)));
            }
        },
        EventView::EndOfDump => {},
    }
}

/// An event that was just taken in changes nothing when it comes again.
pub proof fn repeated_event_changes_nothing(s: LearnedView, ev: EventView)
    ensures
        !s.learn(ev).changes(ev),
        s.learn(ev).learn(ev) == s.learn(ev),
{
    change_is_reported(s, ev);
    change_is_reported(s.learn(ev), ev);
}

/// A withdrawal takes back what an update of the same key added, where the key was new.
pub proof fn withdrawal_undoes_update(
    s: LearnedView,
    l3_vni: u32,
    prefix: Seq<char>,
    vni: u32,
    mac: [u8; 6],
    vtep: IpAddr,
    ip: Option<IpAddr>,
    router_mac: Option<[u8; 6]>,
    srv6_sid: Option<Ipv6Addr>,
)
    ensures
        !s.macs.dom().contains((vni, mac)) ==> s.learn(
            EventView::MacUpdate { vni, mac, ip, vtep, srv6_sid },
        ).learn(EventView::MacWithdraw { vni, mac }) == s,
        !s.floods.dom().contains((vni, vtep)) ==> s.learn(
            EventView::FloodUpdate { vni, vtep, srv6_sid },
        ).learn(EventView::FloodWithdraw { vni, vtep }) == s,
        !s.prefixes.dom().contains((l3_vni, prefix)) ==> s.learn(
            EventView::PrefixUpdate { l3_vni, prefix, vtep, router_mac, gw: ip, srv6_sid },
        ).learn(EventView::PrefixWithdraw { l3_vni, prefix }) == s,
{
    let a = s.learn(EventView::MacUpdate { vni, mac, ip, vtep, srv6_sid }).learn(
        EventView::MacWithdraw { vni, mac },
    );
    if !s.macs.dom().contains((vni, mac)) {
        assert(a.macs =~= s.macs);
    }
    let b = s.learn(EventView::FloodUpdate { vni, vtep, srv6_sid }).learn(
        EventView::FloodWithdraw { vni, vtep },
    );
    if !s.floods.dom().contains((vni, vtep)) {
        assert(b.floods =~= s.floods);
    }
    let c = s.learn(
        EventView::PrefixUpdate { l3_vni, prefix, vtep, router_mac, gw: ip, srv6_sid },
    ).learn(
        EventView::PrefixWithdraw { l3_vni, prefix },
    );
    if !s.prefixes.dom().contains((l3_vni, prefix)) {
        assert(c.prefixes =~= s.prefixes);
    }
}

/// One prefix in two tenants is two routes: an event about one leaves the other as it is, and an
/// event about a bridged segment leaves every prefix as it is.
pub proof fn prefixes_are_per_tenant(
    s: LearnedView,
    l3_vni: u32,
    prefix: Seq<char>,
    ev: EventView,
)
    requires
        match ev {
            EventView::PrefixUpdate { l3_vni: v, .. } => v != l3_vni,
            EventView::PrefixWithdraw { l3_vni: v, .. } => v != l3_vni,
            _ => true,
        },
    ensures
        s.learn(ev).prefixes.dom().contains((l3_vni, prefix)) == s.prefixes.dom().contains(
            (l3_vni, prefix),
        ),
        s.prefixes.dom().contains((l3_vni, prefix)) ==> s.learn(ev).prefixes[(l3_vni, prefix)]
            == s.prefixes[(l3_vni, prefix)],
{
}

// ---------------------------------------------------------------------------
// When to derive anew
// ---------------------------------------------------------------------------

/// How far a connection to the feed has come.
#[derive(Clone, Copy, Debug, PartialEq, Eq, Structural)]
pub struct MonitorState {
    /// The initial snapshot is complete.
    pub dumped: bool,
    /// The initial snapshot changed something that was not derived from yet.
    pub dirty_in_dump: bool,
}

impl MonitorState {
    /// A new connection.
    pub fn new() -> (r: MonitorState)
        ensures
            r == (MonitorState { dumped: false, dirty_in_dump: false }),
    {
        MonitorState { dumped: false, dirty_in_dump: false }
    }

    /// The state after a line, and whether to derive anew: once at the end of the initial snapshot,
    /// where it changed something, and after that at every change.
    pub open spec fn after(self, learned: LearnedView, line: Seq<char>) -> (
        MonitorState,
        LearnedView,
        bool,
    ) {
        match event_of(line) {
            None => (self, learned, false),
            Some(EventView::EndOfDump) => (
                MonitorState { dumped: true, dirty_in_dump: false },
                learned,
                self.dirty_in_dump,
            ),
            Some(ev) => if !learned.changes(ev) {
                (self, learned.learn(ev), false)
            } else if self.dumped {
                (self, learned.learn(ev), true)
            } else {
                (MonitorState { dirty_in_dump: true, ..self }, learned.learn(ev), false)
            },
        }
    }

    /// Takes one line of the feed in. Tells whether to derive anew.
    pub fn step(&mut self, learned: &mut EvpnLearned, line: &str) -> (r: bool)
        requires
            old(learned).inv(),
        ensures
            final(learned).inv(),
            (*final(self), final(learned)@, r) == old(self).after(old(learned)@, line@),
    {
        match parse_evpn_event(line) {
            None => false,
            Some(ev) => {
                match ev {
                    EvpnMonitorEvent::EndOfDump => {
                        let dirty = self.dirty_in_dump;
                        self.dumped = true;
                        self.dirty_in_dump = false;
                        return dirty;
                    },
                    _ => {},
                }
                let changed = learned.apply(&ev);
                if !changed {
                    false
                } else if self.dumped {
                    true
                } else {
                    self.dirty_in_dump = true;
                    false
                }
            },
        }
    }
}

// ---------------------------------------------------------------------------
// What a line says, and what is remembered of it
// ---------------------------------------------------------------------------

/// A line that announces a MAC address without an address bound to it is understood exactly where its
/// number and its addresses can be read, and says what they say.
#[verifier::spinoff_prover]
pub proof fn mac_line_is_understood(line: Seq<char>, t: Seq<Seq<char>>)
    requires
        t == words(line),
        t.len() == 8,
        t[0] == "+"@ && t[1] == "evpn"@ && t[2] == "vni"@ && t[4] == "mac"@ && t[6] == "vtep"@,
    ensures
        event_of(line) is Some <==> unsigned_value(t[3], 10, 0xFFFF_FFFF) is Some && mac_from(
            t[5],
        ) is Some && ip_of(t[7]) is Some,
        event_of(line) matches Some(e) ==> (e matches EventView::MacUpdate {
            vni,
            mac,
            ip,
            vtep,
            srv6_sid,
        } && unsigned_value(t[3], 10, 0xFFFF_FFFF) == Some(vni as int) && mac_from(t[5]) == Some(mac)
            && ip is None && ip_of(t[7]) == Some(vtep) && srv6_sid is None),
{
    feed_words();
    unsigned_value_nonnegative(t[3], 10, 0xFFFF_FFFF);
}

/// A line that announces a MAC address with an address bound to it is understood exactly where its
/// number and its addresses can be read, and says what they say.
#[verifier::spinoff_prover]
pub proof fn bound_mac_line_is_understood(line: Seq<char>, t: Seq<Seq<char>>)
    requires
        t == words(line),
        t.len() == 10,
        t[0] == "+"@ && t[1] == "evpn"@ && t[2] == "vni"@ && t[4] == "mac"@,
        t[6] == "ip"@ && t[8] == "vtep"@,
    ensures
        event_of(line) is Some <==> unsigned_value(t[3], 10, 0xFFFF_FFFF) is Some && mac_from(
            t[5],
        ) is Some && ip_of(t[7]) is Some && ip_of(t[9]) is Some,
        event_of(line) matches Some(e) ==> (e matches EventView::MacUpdate {
            vni,
            mac,
            ip,
            vtep,
            srv6_sid,
        } && unsigned_value(t[3], 10, 0xFFFF_FFFF) == Some(vni as int) && mac_from(t[5]) == Some(mac)
            && ip == ip_of(t[7]) && ip_of(t[9]) == Some(vtep) && srv6_sid is None),
{
    feed_words();
    unsigned_value_nonnegative(t[3], 10, 0xFFFF_FFFF);
}

/// A line that takes a MAC address back is understood exactly where its number and its address can be
/// read, and says what they say.
#[verifier::spinoff_prover]
pub proof fn mac_withdrawal_is_understood(line: Seq<char>, t: Seq<Seq<char>>)
    requires
        t == words(line),
        t.len() == 6,
        t[0] == "-"@ && t[1] == "evpn"@ && t[2] == "vni"@ && t[4] == "mac"@,
    ensures
        event_of(line) is Some <==> unsigned_value(t[3], 10, 0xFFFF_FFFF) is Some && mac_from(
            t[5],
        ) is Some,
        event_of(line) matches Some(e) ==> (e matches EventView::MacWithdraw { vni, mac }
            && unsigned_value(t[3], 10, 0xFFFF_FFFF) == Some(vni as int) && mac_from(t[5]) == Some(
            mac,
        )),
{
    feed_words();
    unsigned_value_nonnegative(t[3], 10, 0xFFFF_FFFF);
}

/// A line about an endpoint to flood to is understood exactly where its number and its address can be
/// read: it announces the endpoint with a plus and takes it back with a minus.
#[verifier::spinoff_prover]
pub proof fn flood_line_is_understood(line: Seq<char>, t: Seq<Seq<char>>)
    requires
        t == words(line),
        t.len() == 6,
        t[0] == "+"@ || t[0] == "-"@,
        t[1] == "evpn"@ && t[2] == "vni"@ && t[4] == "flood"@,
    ensures
        event_of(line) is Some <==> unsigned_value(t[3], 10, 0xFFFF_FFFF) is Some && ip_of(
            t[5],
        ) is Some,
        event_of(line) is Some && t[0] == "+"@ ==> (event_of(line)->0 matches EventView::FloodUpdate {
            vni,
            vtep,
            srv6_sid,
        } && unsigned_value(t[3], 10, 0xFFFF_FFFF) == Some(vni as int) && ip_of(t[5]) == Some(vtep)
            && srv6_sid is None),
        event_of(line) is Some && t[0] == "-"@ ==> (
        event_of(line)->0 matches EventView::FloodWithdraw { vni, vtep } && unsigned_value(
            t[3],
            10,
            0xFFFF_FFFF,
        ) == Some(vni as int) && ip_of(t[5]) == Some(vtep)),
{
    feed_words();
    unsigned_value_nonnegative(t[3], 10, 0xFFFF_FFFF);
}

/// The line that ends the initial snapshot is understood.
pub proof fn end_of_dump_is_understood(line: Seq<char>, t: Seq<Seq<char>>)
    requires
        t == words(line),
        t.len() == 2,
        t[0] == "%"@ && t[1] == "end-of-dump"@,
    ensures
        event_of(line) == Some(EventView::EndOfDump),
{
}

/// The text is an address, a slash and a length that fits the address.
pub open spec fn writes_prefix(s: Seq<char>) -> bool {
    exists|i: int|
        {
            &&& 0 <= i < s.len()
            &&& #[trigger] s[i] == '/'
            &&& forall|j: int| 0 <= j < i ==> s[j] != '/'
            &&& ip_of(s.take(i)) matches Some(a) && (unsigned_value(
                s.skip(i + 1),
                10,
                255,
            ) matches Some(n) && (n <= 32 || a is V6 && n <= 128))
        }
}

proof fn prefix_is_written(s: Seq<char>)
    ensures
        is_cidr(s) <==> writes_prefix(s),
{
    crate::text::find_char_properties(s, '/');
    if is_cidr(s) {
        assert(s[find_char(s, '/') as int] == '/');
    }
    if writes_prefix(s) {
        let i = choose|i: int|
            {
                &&& 0 <= i < s.len()
                &&& #[trigger] s[i] == '/'
                &&& forall|j: int| 0 <= j < i ==> s[j] != '/'
                &&& ip_of(s.take(i)) matches Some(a) && (unsigned_value(
                    s.skip(i + 1),
                    10,
                    255,
                ) matches Some(n) && (n <= 32 || a is V6 && n <= 128))
            };
        crate::text::find_char_unique(s, '/', i);
    }
}

/// A line that announces a prefix is understood exactly where its number, its prefix, its endpoint and
/// the pairs at its end can be read, and says what they say.
#[verifier::spinoff_prover]
pub proof fn prefix_line_is_understood(line: Seq<char>, t: Seq<Seq<char>>)
    requires
        t == words(line),
        t.len() >= 8,
        t[0] == "+"@ && t[1] == "evpn"@ && t[2] == "l3vni"@ && t[4] == "prefix"@ && t[6] == "vtep"@,
    ensures
        event_of(line) is Some <==> unsigned_value(t[3], 10, 0xFFFF_FFFF) is Some && writes_prefix(
            t[5],
        ) && ip_of(t[7]) is Some && prefix_tail(t.skip(8), None, None) is Some,
        event_of(line) matches Some(e) ==> (e matches EventView::PrefixUpdate {
            l3_vni,
            prefix,
            vtep,
            router_mac,
            gw,
            srv6_sid,
        } && unsigned_value(t[3], 10, 0xFFFF_FFFF) == Some(l3_vni as int) && prefix == t[5] && ip_of(
            t[7],
        ) == Some(vtep) && prefix_tail(t.skip(8), None, None) == Some((router_mac, gw))
            && srv6_sid is None),
{
    feed_words();
    prefix_is_written(t[5]);
    unsigned_value_nonnegative(t[3], 10, 0xFFFF_FFFF);
}

/// The end of a prefix line, pair by pair: a pair that can be read sets what it names and leaves the
/// rest to decide; any other pair, or a word without a partner, spoils the line.
pub proof fn prefix_line_ends_in_pairs(
    word: Seq<char>,
    value: Seq<char>,
    rest: Seq<Seq<char>>,
    router_mac: Option<[u8; 6]>,
    gw: Option<IpAddr>,
)
    ensures
        prefix_tail(Seq::empty(), router_mac, gw) == Some((router_mac, gw)),
        prefix_tail(seq![word], router_mac, gw) is None,
        ({
            let tail = prefix_tail(seq![word, value] + rest, router_mac, gw);
            &&& word == "router-mac"@ ==> tail == match mac_from(value) {
                Some(m) => prefix_tail(rest, Some(m), gw),
                None => None,
            }
            &&& word == "gw"@ ==> tail == match ip_of(value) {
                Some(a) => prefix_tail(rest, router_mac, Some(a)),
                None => None,
            }
            &&& word == "srv6"@ ==> tail == match ipv6_of(value) {
                Some(_) => prefix_tail(rest, router_mac, gw),
                None => None,
            }
            &&& word != "router-mac"@ && word != "gw"@ && word != "srv6"@ ==> tail is None
        }),
{
    feed_words();
    let t = seq![word, value] + rest;
    assert(t.skip(2) =~= rest);
    assert(t[0] == word && t[1] == value);
}

/// A line that takes a prefix back is understood exactly where its number and its prefix can be read,
/// and says what they say.
#[verifier::spinoff_prover]
pub proof fn prefix_withdrawal_is_understood(line: Seq<char>, t: Seq<Seq<char>>)
    requires
        t == words(line),
        t.len() == 6,
        t[0] == "-"@ && t[1] == "evpn"@ && t[2] == "l3vni"@ && t[4] == "prefix"@,
    ensures
        event_of(line) is Some <==> unsigned_value(t[3], 10, 0xFFFF_FFFF) is Some && writes_prefix(
            t[5],
        ),
        event_of(line) matches Some(e) ==> (e matches EventView::PrefixWithdraw { l3_vni, prefix }
            && unsigned_value(t[3], 10, 0xFFFF_FFFF) == Some(l3_vni as int) && prefix == t[5]),
{
    feed_words();
    prefix_is_written(t[5]);
    unsigned_value_nonnegative(t[3], 10, 0xFFFF_FFFF);
}

/// Any other line is not understood: one that starts neither with a sign and the name of the feed nor
/// with the mark of the end of the snapshot, or that is about neither of the two kinds of segments.
pub proof fn other_lines_are_ignored(line: Seq<char>, t: Seq<Seq<char>>)
    requires
        t == words(line),
        t.len() < 6 || (t[0] != "+"@ && t[0] != "-"@) || t[1] != "evpn"@ || (t[2] != "vni"@ && t[2]
            != "l3vni"@),
        t.len() != 2 || t[0] != "%"@ || t[1] != "end-of-dump"@,
    ensures
        event_of(line) is None,
{
}

proof fn feed_words()
    ensures
        "+"@ != "-"@,
        "+"@ != "%"@,
        "-"@ != "%"@,
        "vni"@ != "l3vni"@,
        "mac"@ != "flood"@,
        "ip"@ != "vtep"@,
        "gw"@ != "router-mac"@,
        "srv6"@ != "router-mac"@,
        "srv6"@ != "gw"@,
{
    reveal_strlit("+");
    reveal_strlit("-");
    reveal_strlit("%");
    reveal_strlit("vni");
    reveal_strlit("l3vni");
    reveal_strlit("mac");
    reveal_strlit("flood");
    reveal_strlit("ip");
    reveal_strlit("vtep");
    reveal_strlit("gw");
    reveal_strlit("router-mac");
    reveal_strlit("srv6");
    assert("srv6"@[0] == 's');
    assert("+"@[0] == '+' && "-"@[0] == '-' && "%"@[0] == '%');
    assert("vni"@[0] == 'v' && "l3vni"@[0] == 'l');
    assert("mac"@[0] == 'm' && "flood"@[0] == 'f');
    assert("ip"@[0] == 'i' && "vtep"@[0] == 'v');
    assert("gw"@[0] == 'g' && "router-mac"@[0] == 'r');
}

/// What is remembered: an update stands under its key as it came, in place of what was there, a
/// withdrawal leaves nothing under its key, and everything under other keys and in the other tables
/// stays.
pub proof fn events_are_remembered(s: LearnedView, ev: EventView)
    ensures
        match ev {
            EventView::MacUpdate { vni, mac, ip, vtep, srv6_sid } => {
                let x = s.learn(ev).macs[(vni, mac)];
                &&& s.learn(ev).macs == s.macs.insert((vni, mac), x)
                &&& x.vtep == vtep && x.ip == ip && x.srv6_sid == srv6_sid
                &&& s.learn(ev).floods == s.floods && s.learn(ev).prefixes == s.prefixes
            },
            EventView::MacWithdraw { vni, mac } => {
                &&& s.learn(ev).macs == s.macs.remove((vni, mac))
                &&& s.learn(ev).floods == s.floods && s.learn(ev).prefixes == s.prefixes
            },
            EventView::FloodUpdate { vni, vtep, srv6_sid } => {
                &&& s.learn(ev).floods == s.floods.insert((vni, vtep), srv6_sid)
                &&& s.learn(ev).macs == s.macs && s.learn(ev).prefixes == s.prefixes
            },
            EventView::FloodWithdraw { vni, vtep } => {
                &&& s.learn(ev).floods == s.floods.remove((vni, vtep))
                &&& s.learn(ev).macs == s.macs && s.learn(ev).prefixes == s.prefixes
            },
            EventView::PrefixUpdate { l3_vni, prefix, vtep, router_mac, gw, srv6_sid } => {
                let x = s.learn(ev).prefixes[(l3_vni, prefix)];
                &&& s.learn(ev).prefixes == s.prefixes.insert((l3_vni, prefix), x)
                &&& x.vtep == vtep && x.router_mac == router_mac && x.gw == gw && x.srv6_sid
                    == srv6_sid
                &&& s.learn(ev).macs == s.macs && s.learn(ev).floods == s.floods
            },
            EventView::PrefixWithdraw { l3_vni, prefix } => {
                &&& s.learn(ev).prefixes == s.prefixes.remove((l3_vni, prefix))
                &&& s.learn(ev).macs == s.macs && s.learn(ev).floods == s.floods
            },
            EventView::EndOfDump => s.learn(ev) == s,
        },
{
}

/// When to derive anew: during the initial snapshot never, at its end exactly where it changed
/// something, and after it at every line that changes something. Each line is remembered.
pub proof fn derivation_waits_for_the_snapshot(
    m: MonitorState,
    learned: LearnedView,
    line: Seq<char>,
)
    ensures
        ({
            let (n, l, derive) = m.after(learned, line);
            &&& event_of(line) is None ==> n == m && l == learned && !derive
            &&& event_of(line) == Some(EventView::EndOfDump) ==> n.dumped && !n.dirty_in_dump && l
                == learned && derive == m.dirty_in_dump
            &&& event_of(line) is Some && !(event_of(line)->0 is EndOfDump) ==> {
                &&& l == learned.learn(event_of(line)->0)
                &&& n.dumped == m.dumped
                &&& derive <==> m.dumped && l != learned
                &&& n.dirty_in_dump <==> m.dirty_in_dump || (!m.dumped && l != learned)
            }
        }),
{
    if let Some(e) = event_of(line) {
        change_is_reported(learned, e);
    }
}

/// Addresses are ordered as numbers: MAC addresses byte by byte, IPv4 addresses before those of IPv6.
pub proof fn addresses_are_ordered_as_numbers(a: [u8; 6], b: [u8; 6], x: IpAddr, y: IpAddr)
    ensures
        mac_before(a, b) <==> ((((a[0] * 256 + a[1]) * 256 + a[2]) * 256 + a[3]) * 256 + a[4]) * 256
            + a[5] < ((((b[0] * 256 + b[1]) * 256 + b[2]) * 256 + b[3]) * 256 + b[4]) * 256 + b[5],
        match (x, y) {
            (IpAddr::V4(p), IpAddr::V4(q)) => ip_before(x, y) <==> p.bits < q.bits,
            (IpAddr::V4(_), IpAddr::V6(_)) => ip_before(x, y),
            (IpAddr::V6(_), IpAddr::V4(_)) => !ip_before(x, y),
            (IpAddr::V6(p), IpAddr::V6(q)) => ip_before(x, y) <==> crate::ipam::ipv6_number(p)
                < crate::ipam::ipv6_number(q),
        },
{
}

/// Before the first event nothing is learned.
pub proof fn nothing_is_learned_at_first()
    ensures
        forall|k| !(#[trigger] LearnedView::empty().macs.dom().contains(k)),
        forall|k| !(#[trigger] LearnedView::empty().floods.dom().contains(k)),
        forall|k| !(#[trigger] LearnedView::empty().prefixes.dom().contains(k)),
{
}

} // verus!
