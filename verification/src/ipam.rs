//! The addresses of subnets: which are given out and to whom, and floating addresses.

use vstd::arithmetic::power2::{
    lemma2_to64, lemma_pow2_adds, lemma_pow2_pos, lemma_pow2_strictly_increases,
    lemma_pow2_unfold, pow2,
};
use vstd::prelude::*;

use crate::addr::{ip_text, IpAddr, Ipv4Addr, Ipv6Addr};
use crate::addr_laws::{ip_text_chars, ip_text_round_trip};
use crate::error::{result_view, Error};
use crate::evpn::{ip_before, ip_precedes};
use crate::lists::{distinct, keyed, keyed_at, keyed_domain, keyed_is, keyed_push};
use crate::sorted::{
    in_key_order, items_are_ordered, keys, map_views, map_views_insert, map_views_remove, ordered,
    ordered_lists, text_before, text_irreflexive, text_precedes, text_total, text_transitive,
    values, Key, SortedMap, TextKey,
};
use crate::store::{
    quoted_error, Association, AssociationView, FloatingIp, FloatingIpView, Subnet, SubnetCidr,
    SubnetView,
};
use crate::text::{debug_str, debug_text, decimal, opt_view, push_decimal, same, views};

verus! {

// ---------------------------------------------------------------------------
// Addresses as numbers
// ---------------------------------------------------------------------------

/// An IPv6 address as a number.
pub open spec fn ipv6_number(a: Ipv6Addr) -> int {
    ((((((a.s0 * 65536 + a.s1) * 65536 + a.s2) * 65536 + a.s3) * 65536 + a.s4) * 65536 + a.s5)
        * 65536 + a.s6) * 65536 + a.s7
}

/// The IPv6 address with a number.
pub open spec fn ipv6_numbered(n: int) -> Ipv6Addr {
    let n6 = n / 65536;
    let n5 = n6 / 65536;
    let n4 = n5 / 65536;
    let n3 = n4 / 65536;
    let n2 = n3 / 65536;
    let n1 = n2 / 65536;
    let n0 = n1 / 65536;
    Ipv6Addr {
        s0: (n0 % 65536) as u16,
        s1: (n1 % 65536) as u16,
        s2: (n2 % 65536) as u16,
        s3: (n3 % 65536) as u16,
        s4: (n4 % 65536) as u16,
        s5: (n5 % 65536) as u16,
        s6: (n6 % 65536) as u16,
        s7: (n % 65536) as u16,
    }
}

/// An address as a number.
pub open spec fn ip_number(a: IpAddr) -> int {
    match a {
        IpAddr::V4(x) => x.bits as int,
        IpAddr::V6(x) => ipv6_number(x),
    }
}

/// Whether an address is one of IPv6.
pub open spec fn is_v6(a: IpAddr) -> bool {
    a is V6
}

/// The address of a family with a number.
pub open spec fn ip_numbered(v6: bool, n: int) -> IpAddr {
    if v6 {
        IpAddr::V6(ipv6_numbered(n))
    } else {
        IpAddr::V4(Ipv4Addr { bits: n as u32 })
    }
}

/// The largest number of an address of a family.
pub open spec fn family_max(v6: bool) -> int {
    if v6 {
        u128::MAX as int
    } else {
        u32::MAX as int
    }
}

proof fn next_segment(m: int, s: u16)
    ensures
        (m * 65536 + s) / 65536 == m,
        (m * 65536 + s) % 65536 == s,
{
}

/// The number of an address fits its family, and gives the address back.
pub proof fn number_round_trip(a: IpAddr)
    ensures
        0 <= ip_number(a) <= family_max(is_v6(a)),
        ip_numbered(is_v6(a), ip_number(a)) == a,
{
    if let IpAddr::V6(x) = a {
        let n1 = x.s0 * 65536 + x.s1;
        let n2 = n1 * 65536 + x.s2;
        let n3 = n2 * 65536 + x.s3;
        let n4 = n3 * 65536 + x.s4;
        let n5 = n4 * 65536 + x.s5;
        let n6 = n5 * 65536 + x.s6;
        next_segment(x.s0 as int, x.s1);
        next_segment(n1, x.s2);
        next_segment(n2, x.s3);
        next_segment(n3, x.s4);
        next_segment(n4, x.s5);
        next_segment(n5, x.s6);
        next_segment(n6, x.s7);
        let y = ipv6_numbered(n6 * 65536 + x.s7);
        assert(y.s7 == x.s7);
        assert(y.s6 == x.s6);
        assert(y.s5 == x.s5);
        assert(y.s4 == x.s4);
        assert(y.s3 == x.s3);
        assert(y.s2 == x.s2);
        assert(y.s1 == x.s1);
        assert(y.s0 == x.s0);
    }
}

/// Each number of a family is the number of one address.
pub proof fn numbered_round_trip(v6: bool, n: int)
    requires
        0 <= n <= family_max(v6),
    ensures
        ip_number(ip_numbered(v6, n)) == n,
        is_v6(ip_numbered(v6, n)) == v6,
{
}

fn number_of(a: IpAddr) -> (r: u128)
    ensures
        r == ip_number(a),
{
    match a {
        IpAddr::V4(x) => x.bits as u128,
        IpAddr::V6(a) => {
            let n1: u128 = a.s0 as u128 * 65536 + a.s1 as u128;
            let n2: u128 = n1 * 65536 + a.s2 as u128;
            let n3: u128 = n2 * 65536 + a.s3 as u128;
            let n4: u128 = n3 * 65536 + a.s4 as u128;
            let n5: u128 = n4 * 65536 + a.s5 as u128;
            let n6: u128 = n5 * 65536 + a.s6 as u128;
            n6 * 65536 + a.s7 as u128
        },
    }
}

fn address_at(v6: bool, n: u128) -> (r: IpAddr)
    requires
        n <= family_max(v6),
    ensures
        r == ip_numbered(v6, n as int),
{
    if v6 {
        let n6: u128 = n / 65536;
        let n5: u128 = n6 / 65536;
        let n4: u128 = n5 / 65536;
        let n3: u128 = n4 / 65536;
        let n2: u128 = n3 / 65536;
        let n1: u128 = n2 / 65536;
        let n0: u128 = n1 / 65536;
        IpAddr::V6(
            Ipv6Addr {
                s0: (n0 % 65536) as u16,
                s1: (n1 % 65536) as u16,
                s2: (n2 % 65536) as u16,
                s3: (n3 % 65536) as u16,
                s4: (n4 % 65536) as u16,
                s5: (n5 % 65536) as u16,
                s6: (n6 % 65536) as u16,
                s7: (n % 65536) as u16,
            },
        )
    } else {
        IpAddr::V4(Ipv4Addr { bits: n as u32 })
    }
}

/// Decides [`is_v6`].
fn of_v6(a: IpAddr) -> (r: bool)
    ensures
        r == is_v6(a),
{
    match a {
        IpAddr::V4(_) => false,
        IpAddr::V6(_) => true,
    }
}

// ---------------------------------------------------------------------------
// The addresses of a subnet
// ---------------------------------------------------------------------------

impl SubnetCidr {
    /// Whether the prefix is one of IPv6.
    pub open spec fn v6(self) -> bool {
        self is V6
    }

    /// The number of the network address.
    pub open spec fn first(self) -> int {
        match self {
            SubnetCidr::V4(c) => c.base(),
            SubnetCidr::V6(c) => ipv6_number(c.addr),
        }
    }

    /// The bits that tell the addresses of the prefix apart.
    pub open spec fn host_bits(self) -> nat {
        match self {
            SubnetCidr::V4(c) => if c.prefix <= 32 {
                (32 - c.prefix) as nat
            } else {
                0
            },
            SubnetCidr::V6(c) => if c.prefix <= 128 {
                (128 - c.prefix) as nat
            } else {
                0
            },
        }
    }

    /// The number of the last address.
    pub open spec fn last(self) -> int {
        let n = self.first() + pow2(self.host_bits()) - 1;
        if n <= family_max(self.v6()) {
            n
        } else {
            family_max(self.v6())
        }
    }

    /// The number of the last address that a port can have: in IPv4 the very last one is the
    /// broadcast address.
    pub open spec fn last_host(self) -> int {
        if self.v6() {
            self.last()
        } else {
            self.last() - 1
        }
    }

    /// Decides [`SubnetCidr::v6`].
    pub fn is_v6(&self) -> (r: bool)
        ensures
            r == self.v6(),
    {
        match self {
            SubnetCidr::V4(_) => false,
            SubnetCidr::V6(_) => true,
        }
    }

    /// The numbers of the network address and of the last address that a port can have; `None`
    /// where no port can have any.
    fn range(&self) -> (r: Option<(u128, u128)>)
        ensures
            match r {
                Some(t) => t.0 == self.first() && t.1 == self.last_host() && t.0 < t.1 && t.1
                    <= family_max(self.v6()),
                None => self.last_host() <= self.first(),
            },
    {
        let (first, bits, max): (u128, u32, u128) = match self {
            SubnetCidr::V4(c) => (
                Ipv4Addr::from_octets(c.octets).bits as u128,
                if c.prefix <= 32 {
                    32 - c.prefix as u32
                } else {
                    0
                },
                u32::MAX as u128,
            ),
            SubnetCidr::V6(c) => (
                number_of(IpAddr::V6(c.addr)),
                if c.prefix <= 128 {
                    128 - c.prefix as u32
                } else {
                    0
                },
                u128::MAX,
            ),
        };
        let mask: u128 = all_ones(bits);
        proof {
            if self.v6() {
                number_round_trip(IpAddr::V6(self->V6_0.addr));
            }
        }
        let last: u128 = if mask <= max - first {
            first + mask
        } else {
            max
        };
        let host: u128 = match self {
            SubnetCidr::V6(_) => last,
            SubnetCidr::V4(_) => if last == 0 {
                return None;
            } else {
                last - 1
            },
        };
        if first < host {
            Some((first, host))
        } else {
            None
        }
    }
}

/// Computes `2^n - 1`.
fn all_ones(n: u32) -> (r: u128)
    requires
        n <= 128,
    ensures
        r == pow2(n as nat) - 1,
{
    let mut r: u128 = 0;
    proof {
        lemma2_to64();
        lemma_pow2_adds(64, 64);
    }
    assert(pow2(128) == u128::MAX + 1);
    for i in 0..n
        invariant
            n <= 128,
            r == pow2(i as nat) - 1,
            pow2(128) == u128::MAX + 1,
    {
        proof {
            lemma_pow2_unfold((i + 1) as nat);
            if i + 1 < 128 {
                lemma_pow2_strictly_increases((i + 1) as nat, 128);
            }
        }
        r = r * 2 + 1;
    }
    r
}

/// Whether a port can have the address in the subnet: it is an address of the subnet, but neither
/// the network address nor, in IPv4, the broadcast address, and it is not the gateway's.
pub open spec fn assignable(s: SubnetView, a: IpAddr) -> bool {
    &&& is_v6(a) == s.cidr.v6()
    &&& s.cidr.first() < ip_number(a) <= s.cidr.last_host()
    &&& s.gateway != Some(a)
}

/// Whether the address lies in the subnet's pool, where it has one.
pub open spec fn in_pool(s: SubnetView, a: IpAddr) -> bool {
    match s.pool {
        Some(r) => {
            &&& is_v6(r.start) == is_v6(a)
            &&& is_v6(r.end) == is_v6(a)
            &&& ip_number(r.start) <= ip_number(a) <= ip_number(r.end)
        },
        None => true,
    }
}

/// Decides [`assignable`].
fn can_assign(s: &Subnet, a: IpAddr) -> (r: bool)
    ensures
        r == assignable(s@, a),
{
    if of_v6(a) != s.cidr.is_v6() {
        return false;
    }
    let n: u128 = number_of(a);
    let inside: bool = match s.cidr.range() {
        Some(t) => t.0 < n && n <= t.1,
        None => false,
    };
    inside && !is_gateway(s, a)
}

fn is_gateway(s: &Subnet, a: IpAddr) -> (r: bool)
    ensures
        r == (s@.gateway == Some(a)),
{
    match s.gateway {
        Some(g) => g == a,
        None => false,
    }
}

/// Decides [`in_pool`].
fn pooled(s: &Subnet, a: IpAddr) -> (r: bool)
    ensures
        r == in_pool(s@, a),
{
    match s.pool {
        Some(p) => {
            let v6: bool = of_v6(a);
            let n: u128 = number_of(a);
            of_v6(p.start) == v6 && of_v6(p.end) == v6 && number_of(p.start) <= n && n <= number_of(
                p.end,
            )
        },
        None => true,
    }
}

// ---------------------------------------------------------------------------
// The address book
// ---------------------------------------------------------------------------

/// Who has an address.
#[derive(Debug, PartialEq, Eq)]
pub enum Holder {
    /// Nobody in particular: it was given out by itself.
    Standalone,
    /// The port with the id.
    Port(String),
    /// A floating address.
    Floating,
}

/// What a [`Holder`] holds.
pub enum HolderView {
    Standalone,
    Port(Seq<char>),
    Floating,
}

impl View for Holder {
    type V = HolderView;

    open spec fn view(&self) -> HolderView {
        match self {
            Holder::Standalone => HolderView::Standalone,
            Holder::Port(id) => HolderView::Port(id@),
            Holder::Floating => HolderView::Floating,
        }
    }
}

impl Clone for Holder {
    fn clone(&self) -> (r: Self)
        ensures
            r@ == self@,
    {
        match self {
            Holder::Standalone => Holder::Standalone,
            Holder::Port(id) => Holder::Port(id.clone()),
            Holder::Floating => Holder::Floating,
        }
    }
}

/// An address of a subnet. Ordered by the subnet's id, then by the address.
#[derive(Debug, PartialEq, Eq)]
pub struct LeaseKey {
    pub subnet_id: String,
    pub addr: IpAddr,
}

impl View for LeaseKey {
    type V = (Seq<char>, IpAddr);

    open spec fn view(&self) -> (Seq<char>, IpAddr) {
        (self.subnet_id@, self.addr)
    }
}

impl Key for LeaseKey {
    open spec fn before(a: (Seq<char>, IpAddr), b: (Seq<char>, IpAddr)) -> bool {
        text_before(a.0, b.0) || (a.0 == b.0 && ip_before(a.1, b.1))
    }

    proof fn irreflexive(a: (Seq<char>, IpAddr)) {
        text_irreflexive(a.0);
    }

    proof fn transitive(
        a: (Seq<char>, IpAddr),
        b: (Seq<char>, IpAddr),
        c: (Seq<char>, IpAddr),
    ) {
        if text_before(a.0, b.0) && text_before(b.0, c.0) {
            text_transitive(a.0, b.0, c.0);
        }
    }

    proof fn total(a: (Seq<char>, IpAddr), b: (Seq<char>, IpAddr)) {
        text_total(a.0, b.0);
    }

    fn precedes(&self, other: &Self) -> (r: bool) {
        if text_precedes(self.subnet_id.as_str(), other.subnet_id.as_str()) {
            return true;
        }
        same(self.subnet_id.as_str(), other.subnet_id.as_str()) && ip_precedes(
            self.addr,
            other.addr,
        )
    }
}

/// The subnets, the addresses that are given out, and the floating addresses.
pub struct AddressBook {
    subnets: SortedMap<TextKey, Subnet>,
    leases: SortedMap<LeaseKey, Holder>,
    floating: SortedMap<TextKey, FloatingIp>,
}

/// What an [`AddressBook`] holds.
#[verifier::ext_equal]
pub struct AddressBookView {
    /// The subnets, by id.
    pub subnets: Map<Seq<char>, SubnetView>,
    /// Who has which address, by the subnet's id and the address.
    pub leases: Map<(Seq<char>, IpAddr), HolderView>,
    /// The floating addresses, by id.
    pub floating: Map<Seq<char>, FloatingIpView>,
}

impl View for AddressBook {
    type V = AddressBookView;

    closed spec fn view(&self) -> AddressBookView {
        AddressBookView {
            subnets: map_views(self.subnets@),
            leases: map_views(self.leases@),
            floating: map_views(self.floating@),
        }
    }
}

/// The id of a floating address.
pub open spec fn floating_id(subnet_id: Seq<char>, a: IpAddr) -> Seq<char> {
    "fip-"@ + subnet_id + "-"@ + ip_text(a)
}

impl AddressBookView {
    /// Nothing is in the book.
    pub open spec fn empty() -> AddressBookView {
        AddressBookView { subnets: Map::empty(), leases: Map::empty(), floating: Map::empty() }
    }

    /// Every table goes by what it holds; every address that is given out is one of a subnet that
    /// is in the book; every floating address is one that is given out as such, has the id that
    /// belongs to it, and no two of them stand for one address of a port.
    pub open spec fn wf(self) -> bool {
        &&& forall|k: Seq<char>| #[trigger]
            self.subnets.dom().contains(k) ==> self.subnets[k].id == k
        &&& forall|k: (Seq<char>, IpAddr)| #[trigger]
            self.leases.dom().contains(k) ==> self.subnets.dom().contains(k.0) && assignable(
                self.subnets[k.0],
                k.1,
            )
        &&& forall|k: Seq<char>| #[trigger]
            self.floating.dom().contains(k) ==> self.is_floating(k, self.floating[k])
        &&& forall|j: Seq<char>, k: Seq<char>|
            #![trigger self.floating.dom().contains(j), self.floating.dom().contains(k)]
            self.floating.dom().contains(j) && self.floating.dom().contains(k) && j != k ==> (
            self.floating[j].association is None || self.floating[j].association
                != self.floating[k].association)
    }

    /// The floating address belongs under the id.
    pub open spec fn is_floating(self, id: Seq<char>, f: FloatingIpView) -> bool {
        &&& f.id == id
        &&& id == floating_id(f.subnet_id, f.addr)
        &&& self.leases.dom().contains((f.subnet_id, f.addr))
        &&& self.leases[(f.subnet_id, f.addr)] == HolderView::Floating
    }

    /// The address with the number can be given out next.
    pub open spec fn candidate(self, id: Seq<char>, n: int) -> bool {
        let s = self.subnets[id];
        let a = ip_numbered(s.cidr.v6(), n);
        assignable(s, a) && in_pool(s, a) && !self.leases.dom().contains((id, a))
    }

    /// The lowest address from number `n` up to number `hi` that can be given out next.
    pub open spec fn lowest(self, id: Seq<char>, n: int, hi: int) -> Option<IpAddr>
        decreases hi - n + 1,
    {
        if n > hi {
            None
        } else if self.candidate(id, n) {
            Some(ip_numbered(self.subnets[id].cidr.v6(), n))
        } else {
            self.lowest(id, n + 1, hi)
        }
    }

    /// The address of the subnet that is given out next.
    pub open spec fn next_free(self, id: Seq<char>) -> Option<IpAddr> {
        let c = self.subnets[id].cidr;
        self.lowest(id, c.first() + 1, c.last_host())
    }

    /// Some address of the subnet is given out.
    pub open spec fn in_use(self, subnet_id: Seq<char>) -> bool {
        exists|a: IpAddr| #[trigger] self.leases.dom().contains((subnet_id, a))
    }

    /// Some subnet belongs to the network.
    pub open spec fn serves(self, vni: u32) -> bool {
        exists|k: Seq<char>| #[trigger]
            self.subnets.dom().contains(k) && self.subnets[k].vni == vni
    }

    /// Adding a subnet. Its network must be known, and its id must be new.
    pub open spec fn add_subnet(self, s: SubnetView, known_network: bool) -> (
        AddressBookView,
        Result<(), Seq<char>>,
    ) {
        if !known_network {
            (
                self,
                Err(
                    "subnet "@ + debug_text(s.id) + ": unknown network vni "@ + decimal(
                        s.vni as nat,
                    ),
                ),
            )
        } else if self.subnets.dom().contains(s.id) {
            (self, Err("subnet "@ + debug_text(s.id) + " already exists"@))
        } else {
            (AddressBookView { subnets: self.subnets.insert(s.id, s), ..self }, Ok(()))
        }
    }

    /// Removing a subnet, which fails while any of its addresses is given out.
    pub open spec fn remove_subnet(self, id: Seq<char>) -> (
        AddressBookView,
        Result<bool, Seq<char>>,
    ) {
        if !self.subnets.dom().contains(id) {
            (self, Ok(false))
        } else if self.in_use(id) {
            (self, Err("subnet "@ + debug_text(id) + " still has allocated addresses"@))
        } else {
            (AddressBookView { subnets: self.subnets.remove(id), ..self }, Ok(true))
        }
    }

    /// The address that a request gets: the requested one, where it can be had, else the lowest one
    /// of the pool.
    pub open spec fn address_for(self, subnet_id: Seq<char>, ip: Option<IpAddr>) -> Result<
        IpAddr,
        Seq<char>,
    > {
        if !self.subnets.dom().contains(subnet_id) {
            Err("unknown subnet "@ + debug_text(subnet_id))
        } else {
            let s = self.subnets[subnet_id];
            match ip {
                Some(a) => if !assignable(s, a) {
                    Err(
                        "address "@ + ip_text(a) + " cannot be assigned in subnet "@ + debug_text(
                            subnet_id,
                        ),
                    )
                } else if self.leases.dom().contains((subnet_id, a)) {
                    Err(
                        "address "@ + ip_text(a) + " is already allocated in subnet "@ + debug_text(
                            subnet_id,
                        ),
                    )
                } else {
                    Ok(a)
                },
                None => match self.next_free(subnet_id) {
                    Some(a) => Ok(a),
                    None => Err("subnet "@ + debug_text(subnet_id) + " has no free address"@),
                },
            }
        }
    }

    /// Giving an address out.
    pub open spec fn lease(self, subnet_id: Seq<char>, ip: Option<IpAddr>, holder: HolderView) -> (
        AddressBookView,
        Result<IpAddr, Seq<char>>,
    ) {
        match self.address_for(subnet_id, ip) {
            Ok(a) => (
                AddressBookView { leases: self.leases.insert((subnet_id, a), holder), ..self },
                Ok(a),
            ),
            Err(e) => (self, Err(e)),
        }
    }

    /// Giving an address out by itself.
    pub open spec fn allocate(self, subnet_id: Seq<char>, ip: Option<IpAddr>) -> (
        AddressBookView,
        Result<IpAddr, Seq<char>>,
    ) {
        self.lease(subnet_id, ip, HolderView::Standalone)
    }

    /// Taking an address back from its holder. Tells whether the holder had it.
    pub open spec fn take_back(self, subnet_id: Seq<char>, a: IpAddr, holder: HolderView) -> (
        AddressBookView,
        bool,
    ) {
        if self.leases.dom().contains((subnet_id, a)) && self.leases[(subnet_id, a)] == holder {
            (AddressBookView { leases: self.leases.remove((subnet_id, a)), ..self }, true)
        } else {
            (self, false)
        }
    }

    /// Giving an address to a port, which must be one of the subnet's network. `port_vni` is the
    /// network of the port, where there is one with the id.
    pub open spec fn bind(
        self,
        port_id: Seq<char>,
        port_vni: Option<u32>,
        subnet_id: Seq<char>,
        ip: Option<IpAddr>,
    ) -> (AddressBookView, Result<IpAddr, Seq<char>>) {
        match port_vni {
            None => (self, Err("unknown port "@ + debug_text(port_id))),
            Some(vni) => if self.subnets.dom().contains(subnet_id) && self.subnets[subnet_id].vni
                != vni {
                (
                    self,
                    Err(
                        "port "@ + debug_text(port_id) + " is not on the network of subnet "@
                            + debug_text(subnet_id),
                    ),
                )
            } else {
                self.lease(subnet_id, ip, HolderView::Port(port_id))
            },
        }
    }

    /// Giving an address out as a floating one.
    pub open spec fn allocate_floating(self, subnet_id: Seq<char>, ip: Option<IpAddr>) -> (
        AddressBookView,
        Result<FloatingIpView, Seq<char>>,
    ) {
        let step = self.lease(subnet_id, ip, HolderView::Floating);
        match step.1 {
            Ok(a) => {
                let f = FloatingIpView {
                    id: floating_id(subnet_id, a),
                    vni: self.subnets[subnet_id].vni,
                    subnet_id,
                    addr: a,
                    association: None,
                };
                (AddressBookView { floating: self.floating.insert(f.id, f), ..step.0 }, Ok(f))
            },
            Err(e) => (self, Err(e)),
        }
    }

    /// The port has the address, in whichever subnet.
    pub open spec fn port_has(self, port_id: Seq<char>, a: IpAddr) -> bool {
        exists|s: Seq<char>|
            #![trigger self.leases.dom().contains((s, a))]
            self.leases.dom().contains((s, a)) && self.leases[(s, a)] == HolderView::Port(port_id)
    }

    /// Some floating address stands for the port's address.
    pub open spec fn is_target(self, t: AssociationView) -> bool {
        exists|id: Seq<char>| #[trigger]
            self.floating.dom().contains(id) && self.floating[id].association == Some(t)
    }

    /// The book with what a floating address stands for replaced.
    pub open spec fn with_association(
        self,
        id: Seq<char>,
        association: Option<AssociationView>,
    ) -> AddressBookView {
        let f = FloatingIpView { association, ..self.floating[id] };
        AddressBookView { floating: self.floating.insert(id, f), ..self }
    }

    /// Letting a floating address stand for an address of a port, one for one.
    pub open spec fn associate(self, id: Seq<char>, port_id: Seq<char>, fixed: IpAddr) -> (
        AddressBookView,
        Result<FloatingIpView, Seq<char>>,
    ) {
        let t = AssociationView { port_id, fixed_addr: fixed };
        if !self.floating.dom().contains(id) {
            (self, Err("no floating ip "@ + debug_text(id)))
        } else if self.floating[id].association is Some {
            (self, Err("floating ip "@ + debug_text(id) + " is already associated"@))
        } else if !self.port_has(port_id, fixed) {
            (
                self,
                Err(
                    "port "@ + debug_text(port_id) + " does not hold address "@ + ip_text(fixed),
                ),
            )
        } else if self.is_target(t) {
            (
                self,
                Err(
                    "address "@ + ip_text(fixed) + " of port "@ + debug_text(port_id)
                        + " already has a floating ip"@,
                ),
            )
        } else {
            let after = self.with_association(id, Some(t));
            (after, Ok(after.floating[id]))
        }
    }

    /// Letting a floating address stand for nothing.
    pub open spec fn disassociate(self, id: Seq<char>) -> (
        AddressBookView,
        Result<FloatingIpView, Seq<char>>,
    ) {
        if !self.floating.dom().contains(id) {
            (self, Err("no floating ip "@ + debug_text(id)))
        } else {
            let after = self.with_association(id, None);
            (after, Ok(after.floating[id]))
        }
    }

    /// Taking a floating address back, which fails while it stands for a port's address. Tells
    /// whether there was one.
    pub open spec fn release_floating(self, id: Seq<char>) -> (
        AddressBookView,
        Result<bool, Seq<char>>,
    ) {
        if !self.floating.dom().contains(id) {
            (self, Ok(false))
        } else if self.floating[id].association is Some {
            (self, Err("floating ip "@ + debug_text(id) + " is still associated"@))
        } else {
            let f = self.floating[id];
            (
                AddressBookView {
                    floating: self.floating.remove(id),
                    leases: self.leases.remove((f.subnet_id, f.addr)),
                    ..self
                },
                Ok(true),
            )
        }
    }
}

// ---------------------------------------------------------------------------
// Operations
// ---------------------------------------------------------------------------

proof fn nothing_below(b: AddressBookView, s: Seq<char>, n: int, m: int, hi: int)
    requires
        n <= m,
        forall|k: int| n <= k < m ==> !#[trigger] b.candidate(s, k),
        m <= hi + 1,
    ensures
        b.lowest(s, n, hi) == b.lowest(s, m, hi),
    decreases m - n,
{
    if n < m {
        assert(!b.candidate(s, n));
        nothing_below(b, s, n + 1, m, hi);
    }
}

/// Texts in quotes between other texts.
fn message(a: &str, id: &str, b: &str) -> (r: Error)
    ensures
        r@ == a@ + debug_text(id@) + b@,
{
    let mut s = String::from_str(a);
    s.append(debug_str(id).as_str());
    s.append(b);
    Error::new(s)
}

/// A text with an address and a text in quotes.
fn address_message(addr: IpAddr, what: &str, id: &str) -> (r: Error)
    ensures
        r@ == "address "@ + ip_text(addr) + what@ + debug_text(id@),
{
    let mut s = String::from_str("address ");
    s.append(addr.to_string().as_str());
    s.append(what);
    s.append(debug_str(id).as_str());
    Error::new(s)
}

impl AddressBook {
    /// The tables are in order and go by the ids of what they hold.
    pub closed spec fn inv(&self) -> bool {
        &&& self.subnets.inv() && self.leases.inv() && self.floating.inv()
        &&& forall|k: Seq<char>| #[trigger]
            self@.subnets.dom().contains(k) ==> self@.subnets[k].id == k
        &&& forall|k: Seq<char>| #[trigger]
            self@.floating.dom().contains(k) ==> self@.floating[k].id == k
    }

    /// A book with nothing in it.
    pub fn new() -> (r: AddressBook)
        ensures
            r.inv(),
            r@ == AddressBookView::empty(),
    {
        let r = AddressBook {
            subnets: SortedMap::new(),
            leases: SortedMap::new(),
            floating: SortedMap::new(),
        };
        assert(r@.subnets =~= Map::empty());
        assert(r@.leases =~= Map::empty());
        assert(r@.floating =~= Map::empty());
        r
    }

    /// A book with the given subnets, of which no address is given out.
    pub fn with_subnets(subnets: &SortedMap<TextKey, Subnet>) -> (r: AddressBook)
        requires
            subnets.inv(),
            forall|k: Seq<char>| #[trigger]
                subnets@.dom().contains(k) ==> subnets@[k]@.id == k,
        ensures
            r.inv(),
            r@ == (AddressBookView { subnets: map_views(subnets@), ..AddressBookView::empty() }),
    {
        let mut b = AddressBook::new();
        let items = subnets.items();
        let ghost ks = keys(items@);
        let ghost vs = values(items@);
        proof {
            keyed_domain(ks, vs);
        }
        for i in 0..items.len()
            invariant
                b.inv(),
                ks == keys(items@),
                vs == values(items@),
                distinct(ks),
                subnets@ == keyed(ks, vs),
                forall|k: Seq<char>| #[trigger]
                    subnets@.dom().contains(k) ==> subnets@[k]@.id == k,
                b@ == (AddressBookView {
                    subnets: keyed(ks.take(i as int), views(vs.take(i as int))),
                    ..AddressBookView::empty()
                }),
        {
            let x = items[i].value.clone();
            let key = TextKey { text: x.id.clone() };
            proof {
                keyed_at(ks, vs, i as int);
                let (k, v) = (ks.take(i as int), views(vs.take(i as int)));
                map_views_insert(b.subnets@, key@, x);
                keyed_push(k, v, ks[i as int], vs[i as int]@);
                assert(k.push(ks[i as int]) =~= ks.take(i + 1));
                assert(v.push(vs[i as int]@) =~= views(vs.take(i + 1)));
            }
            b.subnets.insert(key, x);
        }
        proof {
            assert(ks.take(items@.len() as int) =~= ks && vs.take(items@.len() as int) =~= vs);
            let m = map_views(subnets@);
            assert forall|i: int| 0 <= i < ks.len() implies m.dom().contains(#[trigger] ks[i])
                && m[ks[i]] == views(vs)[i] by {
                keyed_at(ks, vs, i);
            }
            keyed_is(ks, views(vs), m);
        }
        b
    }

    /// The subnet with the id.
    pub fn subnet(&self, id: &str) -> (r: Option<&Subnet>)
        requires
            self.inv(),
        ensures
            match r {
                Some(s) => self@.subnets.dom().contains(id@) && self@.subnets[id@] == s@,
                None => !self@.subnets.dom().contains(id@),
            },
    {
        self.subnets.get(&TextKey { text: String::from_str(id) })
    }

    /// The floating address with the id.
    pub fn floating_ip(&self, id: &str) -> (r: Option<&FloatingIp>)
        requires
            self.inv(),
        ensures
            match r {
                Some(f) => self@.floating.dom().contains(id@) && self@.floating[id@] == f@,
                None => !self@.floating.dom().contains(id@),
            },
    {
        self.floating.get(&TextKey { text: String::from_str(id) })
    }

    /// Who has an address.
    pub fn holder(&self, subnet_id: &str, addr: IpAddr) -> (r: Option<&Holder>)
        requires
            self.inv(),
        ensures
            match r {
                Some(h) => self@.leases.dom().contains((subnet_id@, addr)) && self@.leases[(
                    subnet_id@,
                    addr,
                )] == h@,
                None => !self@.leases.dom().contains((subnet_id@, addr)),
            },
    {
        self.leases.get(&LeaseKey { subnet_id: String::from_str(subnet_id), addr })
    }

    fn is_candidate(&self, id: &str, s: &Subnet, n: u128) -> (r: bool)
        requires
            self.inv(),
            self@.subnets[id@] == s@,
            n <= family_max(s@.cidr.v6()),
        ensures
            r == self@.candidate(id@, n as int),
    {
        let a = address_at(s.cidr.is_v6(), n);
        can_assign(s, a) && pooled(s, a) && self.holder(id, a).is_none()
    }

    fn find_free(&self, id: &str, s: &Subnet) -> (r: Option<IpAddr>)
        requires
            self.inv(),
            self@.subnets[id@] == s@,
        ensures
            r == self@.next_free(id@),
    {
        let v6: bool = s.cidr.is_v6();
        let (first, last): (u128, u128) = match s.cidr.range() {
            Some(t) => t,
            None => {
                return None;
            },
        };
        let mut n: u128 = first + 1;
        match s.pool {
            Some(p) => {
                let start: u128 = number_of(p.start);
                if start > n {
                    proof {
                        assert forall|k: int| n <= k < start && k <= last implies !#[trigger]
                            self@.candidate(id@, k) by {
                            numbered_round_trip(v6, k);
                        }
                    }
                    if start > last {
                        proof {
                            nothing_below(self@, id@, n as int, last + 1, last as int);
                        }
                        return None;
                    }
                    proof {
                        nothing_below(self@, id@, n as int, start as int, last as int);
                    }
                    n = start;
                }
            },
            None => {},
        }
        while n < last
            invariant
                self.inv(),
                self@.subnets[id@] == s@,
                v6 == s@.cidr.v6(),
                last == s@.cidr.last_host(),
                n <= last,
                last <= family_max(v6),
                self@.next_free(id@) == self@.lowest(id@, n as int, last as int),
            decreases last - n,
        {
            if self.is_candidate(id, s, n) {
                return Some(address_at(v6, n));
            }
            n = n + 1;
        }
        if self.is_candidate(id, s, n) {
            Some(address_at(v6, n))
        } else {
            assert(self@.lowest(id@, n + 1, last as int) is None);
            None
        }
    }
}

impl AddressBook {
    /// Adds a subnet. `known_network` is whether its network exists. Fails where it does not, and
    /// where the id is taken.
    pub fn add_subnet(&mut self, s: Subnet, known_network: bool) -> (r: Result<(), Error>)
        requires
            old(self).inv(),
        ensures
            final(self).inv(),
            (final(self)@, result_view(r)) == old(self)@.add_subnet(s@, known_network),
    {
        if !known_network {
            let mut m = String::from_str("subnet ");
            m.append(debug_str(s.id.as_str()).as_str());
            m.append(": unknown network vni ");
            push_decimal(&mut m, s.vni as u64);
            return Err(Error::new(m));
        }
        if self.subnet(s.id.as_str()).is_some() {
            return Err(message("subnet ", s.id.as_str(), " already exists"));
        }
        let key = TextKey { text: s.id.clone() };
        proof {
            map_views_insert(self.subnets@, key@, s);
        }
        self.subnets.insert(key, s);
        Ok(())
    }

    /// Whether some subnet belongs to the network.
    pub fn has_subnet_of(&self, vni: u32) -> (r: bool)
        requires
            self.inv(),
        ensures
            r == self@.serves(vni),
    {
        let items = self.subnets.items();
        let ghost ks = keys(items@);
        proof {
            keyed_domain(ks, values(items@));
        }
        for i in 0..items.len()
            invariant
                ks == keys(items@),
                distinct(ks),
                self.subnets@ == keyed(ks, values(items@)),
                forall|k: Seq<char>| #[trigger]
                    self.subnets@.dom().contains(k) <==> ks.contains(k),
                forall|j: int| 0 <= j < i ==> (#[trigger] items@[j]).value@.vni != vni,
        {
            if items[i].value.vni == vni {
                proof {
                    keyed_at(ks, values(items@), i as int);
                }
                assert(self@.subnets.dom().contains(ks[i as int]));
                return true;
            }
        }
        assert(!self@.serves(vni)) by {
            if self@.serves(vni) {
                let k = choose|k: Seq<char>| #[trigger]
                    self@.subnets.dom().contains(k) && self@.subnets[k].vni == vni;
                assert(self.subnets@.dom().contains(k));
                let j = choose|j: int| 0 <= j < ks.len() && ks[j] == k;
                keyed_at(ks, values(items@), j);
                assert(items@[j].value@.vni == vni);
            }
        }
        false
    }

    /// Whether some address of the subnet is given out.
    fn is_in_use(&self, subnet_id: &str) -> (r: bool)
        requires
            self.inv(),
        ensures
            r == self@.in_use(subnet_id@),
    {
        let items = self.leases.items();
        let ghost ks = keys(items@);
        proof {
            keyed_domain(ks, values(items@));
        }
        for i in 0..items.len()
            invariant
                ks == keys(items@),
                self.leases@ == keyed(ks, values(items@)),
                forall|k: (Seq<char>, IpAddr)| #[trigger]
                    self.leases@.dom().contains(k) <==> ks.contains(k),
                forall|j: int| 0 <= j < i ==> (#[trigger] ks[j]).0 != subnet_id@,
        {
            if same(items[i].key.subnet_id.as_str(), subnet_id) {
                assert(ks[i as int] == items@[i as int].key@);
                assert(ks.contains(ks[i as int]));
                assert(self@.leases.dom().contains((subnet_id@, ks[i as int].1)));
                return true;
            }
        }
        assert forall|a: IpAddr| !#[trigger] self@.leases.dom().contains((subnet_id@, a)) by {
            if self@.leases.dom().contains((subnet_id@, a)) {
                assert(ks.contains((subnet_id@, a)));
            }
        }
        false
    }

    /// Removes a subnet. Tells whether there was one; fails while any of its addresses is given
    /// out.
    pub fn remove_subnet(&mut self, id: &str) -> (r: Result<bool, Error>)
        requires
            old(self).inv(),
        ensures
            final(self).inv(),
            (final(self)@, result_view(r)) == old(self)@.remove_subnet(id@),
    {
        if self.subnet(id).is_none() {
            return Ok(false);
        }
        if self.is_in_use(id) {
            return Err(message("subnet ", id, " still has allocated addresses"));
        }
        let key = TextKey { text: String::from_str(id) };
        proof {
            map_views_remove(self.subnets@, key@);
        }
        let removed = self.subnets.remove(&key);
        Ok(true)
    }

    /// The address that a request gets.
    fn pick(&self, subnet_id: &str, ip: Option<IpAddr>) -> (r: Result<IpAddr, Error>)
        requires
            self.inv(),
        ensures
            match r {
                Ok(a) => self@.address_for(subnet_id@, ip) == Ok::<IpAddr, Seq<char>>(a),
                Err(e) => self@.address_for(subnet_id@, ip) == Err::<IpAddr, Seq<char>>(e@),
            },
    {
        let s = match self.subnet(subnet_id) {
            Some(s) => s,
            None => {
                return Err(quoted_error("unknown subnet ", subnet_id));
            },
        };
        match ip {
            Some(a) => {
                if !can_assign(s, a) {
                    return Err(address_message(a, " cannot be assigned in subnet ", subnet_id));
                }
                if self.holder(subnet_id, a).is_some() {
                    return Err(address_message(a, " is already allocated in subnet ", subnet_id));
                }
                Ok(a)
            },
            None => match self.find_free(subnet_id, s) {
                Some(a) => Ok(a),
                None => Err(message("subnet ", subnet_id, " has no free address")),
            },
        }
    }

    fn give(&mut self, subnet_id: &str, ip: Option<IpAddr>, holder: Holder) -> (r: Result<
        IpAddr,
        Error,
    >)
        requires
            old(self).inv(),
        ensures
            final(self).inv(),
            match r {
                Ok(a) => old(self)@.lease(subnet_id@, ip, holder@) == (
                    final(self)@,
                    Ok::<IpAddr, Seq<char>>(a),
                ),
                Err(e) => old(self)@.lease(subnet_id@, ip, holder@) == (
                    final(self)@,
                    Err::<IpAddr, Seq<char>>(e@),
                ),
            },
    {
        let a = match self.pick(subnet_id, ip) {
            Ok(a) => a,
            Err(e) => {
                return Err(e);
            },
        };
        let key = LeaseKey { subnet_id: String::from_str(subnet_id), addr: a };
        proof {
            map_views_insert(self.leases@, key@, holder);
        }
        self.leases.insert(key, holder);
        Ok(a)
    }
}

/// Adding a subnet keeps the book well formed.
pub proof fn add_subnet_keeps_wf(b: AddressBookView, s: SubnetView, known_network: bool)
    requires
        b.wf(),
    ensures
        b.add_subnet(s, known_network).0.wf(),
{
}

/// Removing a subnet keeps the book well formed.
pub proof fn remove_subnet_keeps_wf(b: AddressBookView, id: Seq<char>)
    requires
        b.wf(),
    ensures
        b.remove_subnet(id).0.wf(),
{
    let after = b.remove_subnet(id).0;
    assert forall|k: (Seq<char>, IpAddr)| #[trigger]
        after.leases.dom().contains(k) implies after.subnets.dom().contains(k.0) && assignable(
        after.subnets[k.0],
        k.1,
    ) by {
        if k.0 == id && b.subnets.dom().contains(id) {
            assert(b.leases.dom().contains((id, k.1)));
        }
    }
}

proof fn lowest_properties(b: AddressBookView, s: Seq<char>, n: int, hi: int)
    ensures
        match b.lowest(s, n, hi) {
            Some(a) => exists|k: int|
                n <= k <= hi && #[trigger] b.candidate(s, k) && a == ip_numbered(
                    b.subnets[s].cidr.v6(),
                    k,
                )
                    && forall|j: int| n <= j < k ==> !#[trigger] b.candidate(s, j),
            None => forall|k: int| n <= k <= hi ==> !#[trigger] b.candidate(s, k),
        },
    decreases hi - n + 1,
{
    if n <= hi && !b.candidate(s, n) {
        lowest_properties(b, s, n + 1, hi);
        if let Some(a) = b.lowest(s, n, hi) {
            let k = choose|k: int|
                n + 1 <= k <= hi && #[trigger] b.candidate(s, k) && a == ip_numbered(
                    b.subnets[s].cidr.v6(),
                    k,
                )
                    && forall|j: int| n + 1 <= j < k ==> !#[trigger] b.candidate(s, j);
            assert(b.candidate(s, k));
        }
    }
}

/// An address that is given out is one of its subnet, not the gateway's, and was not given out
/// before; one that was not asked for lies in the pool.
pub proof fn given_address_was_free(b: AddressBookView, subnet_id: Seq<char>, ip: Option<IpAddr>)
    ensures
        match b.address_for(subnet_id, ip) {
            Ok(a) => {
                &&& b.subnets.dom().contains(subnet_id)
                &&& assignable(b.subnets[subnet_id], a)
                &&& b.subnets[subnet_id].gateway != Some(a)
                &&& !b.leases.dom().contains((subnet_id, a))
                &&& ip is None ==> in_pool(b.subnets[subnet_id], a)
                &&& ip matches Some(x) ==> a == x
            },
            Err(_) => true,
        },
{
    if b.subnets.dom().contains(subnet_id) && ip is None {
        let s = b.subnets[subnet_id];
        lowest_properties(b, subnet_id, s.cidr.first() + 1, s.cidr.last_host());
    }
}

/// Giving an address out keeps the book well formed.
pub proof fn lease_keeps_wf(
    b: AddressBookView,
    subnet_id: Seq<char>,
    ip: Option<IpAddr>,
    holder: HolderView,
)
    requires
        b.wf(),
    ensures
        b.lease(subnet_id, ip, holder).0.wf(),
{
    given_address_was_free(b, subnet_id, ip);
    let after = b.lease(subnet_id, ip, holder).0;
    assert forall|k: Seq<char>| #[trigger] after.floating.dom().contains(k) implies
        after.is_floating(
        k,
        after.floating[k],
    ) by {
        assert(b.is_floating(k, b.floating[k]));
    }
}

/// Taking an address back that no floating address has keeps the book well formed.
pub proof fn take_back_keeps_wf(
    b: AddressBookView,
    subnet_id: Seq<char>,
    a: IpAddr,
    holder: HolderView,
)
    requires
        b.wf(),
        holder != HolderView::Floating,
    ensures
        b.take_back(subnet_id, a, holder).0.wf(),
{
    let after = b.take_back(subnet_id, a, holder).0;
    assert forall|k: Seq<char>| #[trigger] after.floating.dom().contains(k) implies
        after.is_floating(
        k,
        after.floating[k],
    ) by {
        assert(b.is_floating(k, b.floating[k]));
    }
}

/// Different addresses have different ids as floating ones.
pub proof fn floating_id_injective(s: Seq<char>, a: IpAddr, s2: Seq<char>, a2: IpAddr)
    requires
        floating_id(s, a) == floating_id(s2, a2),
    ensures
        s == s2,
        a == a2,
{
    let x = floating_id(s, a);
    let y = floating_id(s2, a2);
    let t = ip_text(a);
    let t2 = ip_text(a2);
    reveal_strlit("fip-");
    reveal_strlit("-");
    ip_text_chars(a);
    ip_text_chars(a2);
    let n = 4 + s.len();
    let n2 = 4 + s2.len();
    assert(x.len() == n + 1 + t.len() && y.len() == n2 + 1 + t2.len());
    assert(x[n as int] == '-' && y[n2 as int] == '-');
    if n < n2 {
        assert(x[n2 as int] == t[n2 - n - 1]);
        assert(false);
    }
    if n2 < n {
        assert(y[n as int] == t2[n - n2 - 1]);
        assert(false);
    }
    assert forall|i: int| 0 <= i < s.len() implies s[i] == s2[i] by {
        assert(x[i + 4] == s[i] && y[i + 4] == s2[i]);
    }
    assert(s =~= s2);
    assert forall|i: int| 0 <= i < t.len() implies t[i] == t2[i] by {
        assert(x[i + n + 1] == t[i] && y[i + n + 1] == t2[i]);
    }
    assert(t =~= t2);
    ip_text_round_trip(a);
    ip_text_round_trip(a2);
}

/// A floating address that is given out has a new id.
pub proof fn floating_id_is_new(b: AddressBookView, subnet_id: Seq<char>, ip: Option<IpAddr>)
    requires
        b.wf(),
    ensures
        b.address_for(subnet_id, ip) matches Ok(a) ==> !b.floating.dom().contains(
            floating_id(subnet_id, a),
        ),
{
    given_address_was_free(b, subnet_id, ip);
    if let Ok(a) = b.address_for(subnet_id, ip) {
        let id = floating_id(subnet_id, a);
        if b.floating.dom().contains(id) {
            let f = b.floating[id];
            assert(b.is_floating(id, f));
            floating_id_injective(subnet_id, a, f.subnet_id, f.addr);
        }
    }
}

/// Giving out a floating address keeps the book well formed.
pub proof fn allocate_floating_keeps_wf(
    b: AddressBookView,
    subnet_id: Seq<char>,
    ip: Option<IpAddr>,
)
    requires
        b.wf(),
    ensures
        b.allocate_floating(subnet_id, ip).0.wf(),
{
    lease_keeps_wf(b, subnet_id, ip, HolderView::Floating);
    let step = b.lease(subnet_id, ip, HolderView::Floating);
    let after = b.allocate_floating(subnet_id, ip).0;
    if let Ok(a) = step.1 {
        assert forall|k: Seq<char>| #[trigger]
            after.floating.dom().contains(k) implies after.is_floating(k, after.floating[k]) by {
            if k != floating_id(subnet_id, a) {
                assert(step.0.floating.dom().contains(k));
                assert(step.0.is_floating(k, step.0.floating[k]));
            }
        }
    }
}

/// Letting a floating address stand for an address of a port keeps the book well formed.
pub proof fn associate_keeps_wf(
    b: AddressBookView,
    id: Seq<char>,
    port_id: Seq<char>,
    fixed: IpAddr,
)
    requires
        b.wf(),
    ensures
        b.associate(id, port_id, fixed).0.wf(),
{
    let after = b.associate(id, port_id, fixed).0;
    assert forall|k: Seq<char>| #[trigger] after.floating.dom().contains(k) implies
        after.is_floating(
        k,
        after.floating[k],
    ) by {
        assert(b.is_floating(k, b.floating[k]));
    }
}

/// Letting a floating address stand for nothing keeps the book well formed.
pub proof fn disassociate_keeps_wf(b: AddressBookView, id: Seq<char>)
    requires
        b.wf(),
    ensures
        b.disassociate(id).0.wf(),
{
    let after = b.disassociate(id).0;
    assert forall|k: Seq<char>| #[trigger] after.floating.dom().contains(k) implies
        after.is_floating(
        k,
        after.floating[k],
    ) by {
        assert(b.is_floating(k, b.floating[k]));
    }
}

/// Taking a floating address back keeps the book well formed.
pub proof fn release_floating_keeps_wf(b: AddressBookView, id: Seq<char>)
    requires
        b.wf(),
    ensures
        b.release_floating(id).0.wf(),
{
    let after = b.release_floating(id).0;
    assert forall|k: Seq<char>| #[trigger] after.floating.dom().contains(k) implies
        after.is_floating(
        k,
        after.floating[k],
    ) by {
        assert(b.is_floating(k, b.floating[k]));
        if b.floating.dom().contains(id) && k != id {
            assert(b.is_floating(id, b.floating[id]));
        }
    }
}

impl AddressBook {
    /// Gives an address out by itself: the requested one, or the lowest free one of the pool.
    pub fn allocate(&mut self, subnet_id: &str, ip: Option<IpAddr>) -> (r: Result<IpAddr, Error>)
        requires
            old(self).inv(),
        ensures
            final(self).inv(),
            match r {
                Ok(a) => old(self)@.allocate(subnet_id@, ip) == (
                    final(self)@,
                    Ok::<IpAddr, Seq<char>>(a),
                ),
                Err(e) => old(self)@.allocate(subnet_id@, ip) == (
                    final(self)@,
                    Err::<IpAddr, Seq<char>>(e@),
                ),
            },
    {
        self.give(subnet_id, ip, Holder::Standalone)
    }

    fn take(&mut self, subnet_id: &str, addr: IpAddr, holder: &Holder) -> (r: bool)
        requires
            old(self).inv(),
            holder@ != HolderView::Floating,
        ensures
            final(self).inv(),
            (final(self)@, r) == old(self)@.take_back(subnet_id@, addr, holder@),
    {
        let held: bool = match self.holder(subnet_id, addr) {
            Some(h) => match (h, holder) {
                (Holder::Standalone, Holder::Standalone) => true,
                (Holder::Port(a), Holder::Port(b)) => same(a.as_str(), b.as_str()),
                _ => false,
            },
            None => false,
        };
        if !held {
            return false;
        }
        let key = LeaseKey { subnet_id: String::from_str(subnet_id), addr };
        proof {
            map_views_remove(self.leases@, key@);
        }
        let removed = self.leases.remove(&key);
        true
    }

    /// Takes back an address that was given out by itself. Tells whether it was.
    pub fn release(&mut self, subnet_id: &str, addr: IpAddr) -> (r: bool)
        requires
            old(self).inv(),
        ensures
            final(self).inv(),
            (final(self)@, r) == old(self)@.take_back(subnet_id@, addr, HolderView::Standalone),
    {
        self.take(subnet_id, addr, &Holder::Standalone)
    }

    /// Gives an address to a port. `port_vni` is the port's network, where there is such a port.
    pub fn bind_port_subnet(
        &mut self,
        port_id: &str,
        port_vni: Option<u32>,
        subnet_id: &str,
        ip: Option<IpAddr>,
    ) -> (r: Result<IpAddr, Error>)
        requires
            old(self).inv(),
        ensures
            final(self).inv(),
            match r {
                Ok(a) => old(self)@.bind(port_id@, port_vni, subnet_id@, ip) == (
                    final(self)@,
                    Ok::<IpAddr, Seq<char>>(a),
                ),
                Err(e) => old(self)@.bind(port_id@, port_vni, subnet_id@, ip) == (
                    final(self)@,
                    Err::<IpAddr, Seq<char>>(e@),
                ),
            },
    {
        let vni: u32 = match port_vni {
            Some(v) => v,
            None => {
                return Err(quoted_error("unknown port ", port_id));
            },
        };
        let elsewhere: bool = match self.subnet(subnet_id) {
            Some(s) => s.vni != vni,
            None => false,
        };
        if elsewhere {
            let mut m = String::from_str("port ");
            m.append(debug_str(port_id).as_str());
            m.append(" is not on the network of subnet ");
            m.append(debug_str(subnet_id).as_str());
            return Err(Error::new(m));
        }
        self.give(subnet_id, ip, Holder::Port(String::from_str(port_id)))
    }

    /// Takes an address back from a port. Tells whether the port had it.
    pub fn unbind_port_address(&mut self, port_id: &str, subnet_id: &str, addr: IpAddr) -> (r: bool)
        requires
            old(self).inv(),
        ensures
            final(self).inv(),
            (final(self)@, r) == old(self)@.take_back(
                subnet_id@,
                addr,
                HolderView::Port(port_id@),
            ),
    {
        self.take(subnet_id, addr, &Holder::Port(String::from_str(port_id)))
    }

    /// Gives out a floating address: the requested one, or the lowest free one of the pool.
    pub fn allocate_floating_ip(&mut self, subnet_id: &str, ip: Option<IpAddr>) -> (r: Result<
        FloatingIp,
        Error,
    >)
        requires
            old(self).inv(),
        ensures
            final(self).inv(),
            (final(self)@, result_view(r)) == old(self)@.allocate_floating(subnet_id@, ip),
    {
        let vni: u32 = match self.subnet(subnet_id) {
            Some(s) => s.vni,
            None => 0,
        };
        let a = match self.give(subnet_id, ip, Holder::Floating) {
            Ok(a) => a,
            Err(e) => {
                return Err(e);
            },
        };
        let mut id = String::from_str("fip-");
        id.append(subnet_id);
        id.append("-");
        id.append(a.to_string().as_str());
        let f = FloatingIp {
            id,
            vni,
            subnet_id: String::from_str(subnet_id),
            addr: a,
            association: None,
        };
        let key = TextKey { text: f.id.clone() };
        let result = f.clone();
        proof {
            map_views_insert(self.floating@, key@, f);
        }
        self.floating.insert(key, f);
        Ok(result)
    }

    /// Whether a port has an address, in whichever subnet.
    fn has_address(&self, port_id: &str, addr: IpAddr) -> (r: bool)
        requires
            self.inv(),
        ensures
            r == self@.port_has(port_id@, addr),
    {
        let items = self.leases.items();
        let ghost ks = keys(items@);
        proof {
            keyed_domain(ks, values(items@));
        }
        for i in 0..items.len()
            invariant
                ks == keys(items@),
                distinct(ks),
                self.leases@ == keyed(ks, values(items@)),
                forall|k: (Seq<char>, IpAddr)| #[trigger]
                    self.leases@.dom().contains(k) <==> ks.contains(k),
                forall|j: int|
                    0 <= j < i ==> (#[trigger] ks[j]).1 != addr || items@[j].value@
                        != HolderView::Port(port_id@),
        {
            let here: bool = match &items[i].value {
                Holder::Port(p) => items[i].key.addr == addr && same(p.as_str(), port_id),
                _ => false,
            };
            assert(ks[i as int] == items@[i as int].key@);
            if here {
                proof {
                    keyed_at(ks, values(items@), i as int);
                }
                assert(self@.leases.dom().contains((ks[i as int].0, addr)));
                return true;
            }
        }
        assert(!self@.port_has(port_id@, addr)) by {
            if self@.port_has(port_id@, addr) {
                let s = choose|s: Seq<char>|
                    #![trigger self@.leases.dom().contains((s, addr))]
                    self@.leases.dom().contains((s, addr)) && self@.leases[(s, addr)]
                        == HolderView::Port(port_id@);
                assert(self.leases@.dom().contains((s, addr)));
                assert(ks.contains((s, addr)));
                let j = choose|j: int| 0 <= j < ks.len() && ks[j] == (s, addr);
                keyed_at(ks, values(items@), j);
                assert(ks[j].1 == addr);
            }
        }
        false
    }

    /// Whether some floating address stands for the port's address.
    fn has_floating(&self, port_id: &str, fixed: IpAddr) -> (r: bool)
        requires
            self.inv(),
        ensures
            r == self@.is_target(AssociationView { port_id: port_id@, fixed_addr: fixed }),
    {
        let ghost t = AssociationView { port_id: port_id@, fixed_addr: fixed };
        let items = self.floating.items();
        let ghost ks = keys(items@);
        proof {
            keyed_domain(ks, values(items@));
        }
        for i in 0..items.len()
            invariant
                t == (AssociationView { port_id: port_id@, fixed_addr: fixed }),
                ks == keys(items@),
                distinct(ks),
                self.floating@ == keyed(ks, values(items@)),
                forall|k: Seq<char>| #[trigger]
                    self.floating@.dom().contains(k) <==> ks.contains(k),
                forall|j: int| 0 <= j < i ==> (#[trigger] items@[j]).value@.association != Some(t),
        {
            let here: bool = match &items[i].value.association {
                Some(a) => a.fixed_addr == fixed && same(a.port_id.as_str(), port_id),
                None => false,
            };
            assert(ks[i as int] == items@[i as int].key@);
            if here {
                proof {
                    keyed_at(ks, values(items@), i as int);
                }
                assert(self@.floating.dom().contains(ks[i as int]));
                return true;
            }
        }
        assert(!self@.is_target(t)) by {
            if self@.is_target(t) {
                let id = choose|id: Seq<char>| #[trigger]
                    self@.floating.dom().contains(id) && self@.floating[id].association == Some(t);
                assert(self.floating@.dom().contains(id));
                assert(ks.contains(id));
                let j = choose|j: int| 0 <= j < ks.len() && ks[j] == id;
                keyed_at(ks, values(items@), j);
                assert(items@[j].value@.association == Some(t));
            }
        }
        false
    }

    fn set_association(&mut self, id: &str, association: Option<Association>) -> (r: FloatingIp)
        requires
            old(self).inv(),
            old(self)@.floating.dom().contains(id@),
        ensures
            final(self).inv(),
            final(self)@ == old(self)@.with_association(id@, opt_view(association)),
            r@ == final(self)@.floating[id@],
    {
        let key = TextKey { text: String::from_str(id) };
        let mut f = self.floating.get(&key).unwrap().clone();
        f.association = association;
        let result = f.clone();
        proof {
            map_views_insert(self.floating@, key@, f);
        }
        self.floating.insert(key, f);
        result
    }

    /// Lets a floating address stand for an address that a port has. Fails where there is no such
    /// floating address, where it stands for one already, where the port does not have the address,
    /// and where another floating address stands for it.
    pub fn associate_floating_ip(&mut self, id: &str, port_id: &str, fixed: IpAddr) -> (r: Result<
        FloatingIp,
        Error,
    >)
        requires
            old(self).inv(),
        ensures
            final(self).inv(),
            (final(self)@, result_view(r)) == old(self)@.associate(id@, port_id@, fixed),
    {
        let taken: bool = match self.floating_ip(id) {
            Some(f) => f.association.is_some(),
            None => {
                return Err(quoted_error("no floating ip ", id));
            },
        };
        if taken {
            return Err(message("floating ip ", id, " is already associated"));
        }
        if !self.has_address(port_id, fixed) {
            let mut m = String::from_str("port ");
            m.append(debug_str(port_id).as_str());
            m.append(" does not hold address ");
            m.append(fixed.to_string().as_str());
            return Err(Error::new(m));
        }
        if self.has_floating(port_id, fixed) {
            let mut m = String::from_str("address ");
            m.append(fixed.to_string().as_str());
            m.append(" of port ");
            m.append(debug_str(port_id).as_str());
            m.append(" already has a floating ip");
            return Err(Error::new(m));
        }
        let t = Association { port_id: String::from_str(port_id), fixed_addr: fixed };
        Ok(self.set_association(id, Some(t)))
    }

    /// Lets a floating address stand for nothing. Fails where there is no such floating address.
    pub fn disassociate_floating_ip(&mut self, id: &str) -> (r: Result<FloatingIp, Error>)
        requires
            old(self).inv(),
        ensures
            final(self).inv(),
            (final(self)@, result_view(r)) == old(self)@.disassociate(id@),
    {
        if self.floating_ip(id).is_none() {
            return Err(quoted_error("no floating ip ", id));
        }
        Ok(self.set_association(id, None))
    }

    /// Takes a floating address back. Tells whether there was one; fails while it stands for an
    /// address of a port.
    pub fn release_floating_ip(&mut self, id: &str) -> (r: Result<bool, Error>)
        requires
            old(self).inv(),
        ensures
            final(self).inv(),
            (final(self)@, result_view(r)) == old(self)@.release_floating(id@),
    {
        let lease = match self.floating_ip(id) {
            Some(f) => {
                if f.association.is_some() {
                    return Err(message("floating ip ", id, " is still associated"));
                }
                LeaseKey { subnet_id: f.subnet_id.clone(), addr: f.addr }
            },
            None => {
                return Ok(false);
            },
        };
        let key = TextKey { text: String::from_str(id) };
        proof {
            map_views_remove(self.floating@, key@);
            map_views_remove(self.leases@, lease@);
        }
        let gone = self.floating.remove(&key);
        let freed = self.leases.remove(&lease);
        Ok(true)
    }
}

// ---------------------------------------------------------------------------
// Lists and snapshots
// ---------------------------------------------------------------------------

/// An address that is given out, and who has it.
#[derive(Debug, PartialEq, Eq)]
pub struct Lease {
    pub subnet_id: String,
    pub addr: IpAddr,
    pub holder: Holder,
}

/// What a [`Lease`] holds.
#[verifier::ext_equal]
pub struct LeaseView {
    pub subnet_id: Seq<char>,
    pub addr: IpAddr,
    pub holder: HolderView,
}

impl View for Lease {
    type V = LeaseView;

    open spec fn view(&self) -> LeaseView {
        LeaseView { subnet_id: self.subnet_id@, addr: self.addr, holder: self.holder@ }
    }
}

/// An address book as lists.
#[derive(Debug, PartialEq, Eq)]
pub struct AddressSnapshot {
    pub subnets: Vec<Subnet>,
    pub leases: Vec<Lease>,
    pub floating: Vec<FloatingIp>,
}

/// What an [`AddressSnapshot`] holds.
#[verifier::ext_equal]
pub struct AddressSnapshotView {
    pub subnets: Seq<SubnetView>,
    pub leases: Seq<LeaseView>,
    pub floating: Seq<FloatingIpView>,
}

impl View for AddressSnapshot {
    type V = AddressSnapshotView;

    open spec fn view(&self) -> AddressSnapshotView {
        AddressSnapshotView {
            subnets: views(self.subnets@),
            leases: views(self.leases@),
            floating: views(self.floating@),
        }
    }
}

/// The subnets of a list, by id. Of two with one id the later counts.
pub open spec fn subnets_by_id(s: Seq<SubnetView>) -> Map<Seq<char>, SubnetView> {
    keyed(Seq::new(s.len(), |i: int| s[i].id), s)
}

/// The holders of a list of addresses, by subnet and address. Of two for one address the later
/// counts.
pub open spec fn holders(s: Seq<LeaseView>) -> Map<(Seq<char>, IpAddr), HolderView> {
    keyed(
        Seq::new(s.len(), |i: int| (s[i].subnet_id, s[i].addr)),
        Seq::new(s.len(), |i: int| s[i].holder),
    )
}

/// The floating addresses of a list, by id. Of two with one id the later counts.
pub open spec fn floating_by_id(s: Seq<FloatingIpView>) -> Map<Seq<char>, FloatingIpView> {
    keyed(Seq::new(s.len(), |i: int| s[i].id), s)
}

impl AddressSnapshotView {
    /// The book that the snapshot describes.
    pub open spec fn model(self) -> AddressBookView {
        AddressBookView {
            subnets: subnets_by_id(self.subnets),
            leases: holders(self.leases),
            floating: floating_by_id(self.floating),
        }
    }
}

/// A map is what its values give by their keys, listed in the order of the keys.
proof fn listed_is_keyed<V>(m: Map<Seq<char>, V>, ks: Seq<Seq<char>>, vs: Seq<V>)
    requires
        m.dom().finite(),
        ks == ordered::<TextKey>(m.dom()),
        vs == in_key_order::<TextKey, V>(m),
    ensures
        keyed(ks, vs) == m,
{
    ordered_lists::<TextKey>(m.dom());
    assert(distinct(ks)) by {
        assert forall|i: int, j: int| 0 <= i < j < ks.len() implies ks[i] != ks[j] by {
            assert(<TextKey as Key>::before(ks[i], ks[j]));
            text_irreflexive(ks[i]);
        }
    }
    assert forall|i: int| 0 <= i < ks.len() implies m.dom().contains(#[trigger] ks[i]) && m[ks[i]]
        == vs[i] by {
        assert(ks.contains(ks[i]));
    }
    keyed_is(ks, vs, m);
}

impl AddressBook {
    /// The subnets, in the order of their ids.
    pub fn subnets(&self) -> (r: Vec<Subnet>)
        requires
            self.inv(),
        ensures
            views(r@) == in_key_order::<TextKey, SubnetView>(self@.subnets),
    {
        let items = self.subnets.items();
        proof {
            items_are_ordered(items@);
            assert(self@.subnets.dom() =~= self.subnets@.dom());
        }
        let mut r: Vec<Subnet> = Vec::new();
        for i in 0..items.len()
            invariant
                r@.len() == i,
                forall|j: int| 0 <= j < i ==> (#[trigger] r@[j])@ == items@[j].value@,
        {
            r.push(items[i].value.clone());
        }
        proof {
            let want = in_key_order::<TextKey, SubnetView>(self@.subnets);
            assert forall|i: int| 0 <= i < want.len() implies views(r@)[i] == want[i] by {
                assert(keys(items@)[i] == items@[i].key@);
                keyed_at(keys(items@), values(items@), i);
            }
            assert(views(r@) =~= want);
        }
        r
    }

    /// The floating addresses, in the order of their ids.
    pub fn floating_ips(&self) -> (r: Vec<FloatingIp>)
        requires
            self.inv(),
        ensures
            views(r@) == in_key_order::<TextKey, FloatingIpView>(self@.floating),
    {
        let items = self.floating.items();
        proof {
            items_are_ordered(items@);
            assert(self@.floating.dom() =~= self.floating@.dom());
        }
        let mut r: Vec<FloatingIp> = Vec::new();
        for i in 0..items.len()
            invariant
                r@.len() == i,
                forall|j: int| 0 <= j < i ==> (#[trigger] r@[j])@ == items@[j].value@,
        {
            r.push(items[i].value.clone());
        }
        proof {
            let want = in_key_order::<TextKey, FloatingIpView>(self@.floating);
            assert forall|i: int| 0 <= i < want.len() implies views(r@)[i] == want[i] by {
                assert(keys(items@)[i] == items@[i].key@);
                keyed_at(keys(items@), values(items@), i);
            }
            assert(views(r@) =~= want);
        }
        r
    }

    /// The addresses that are given out, by subnet and address.
    pub fn leases(&self) -> (r: Vec<Lease>)
        requires
            self.inv(),
        ensures
            holders(views(r@)) == self@.leases,
            r@.len() == ordered::<LeaseKey>(self@.leases.dom()).len(),
            forall|i: int|
                0 <= i < r@.len() ==> ((#[trigger] r@[i]).subnet_id@, r@[i].addr)
                    == ordered::<LeaseKey>(self@.leases.dom())[i],
    {
        let items = self.leases.items();
        proof {
            items_are_ordered(items@);
            assert(self@.leases.dom() =~= self.leases@.dom());
        }
        let mut r: Vec<Lease> = Vec::new();
        for i in 0..items.len()
            invariant
                r@.len() == i,
                forall|j: int|
                    0 <= j < i ==> (#[trigger] r@[j])@ == (LeaseView {
                        subnet_id: items@[j].key@.0,
                        addr: items@[j].key@.1,
                        holder: items@[j].value@,
                    }),
        {
            r.push(
                Lease {
                    subnet_id: items[i].key.subnet_id.clone(),
                    addr: items[i].key.addr,
                    holder: items[i].value.clone(),
                },
            );
        }
        proof {
            let s = views(r@);
            let ks = Seq::new(s.len(), |i: int| (s[i].subnet_id, s[i].addr));
            let vs = Seq::new(s.len(), |i: int| s[i].holder);
            let m = self@.leases;
            assert(ks =~= keys(items@));
            keyed_domain(keys(items@), values(items@));
            assert forall|i: int| 0 <= i < ks.len() implies m.dom().contains(#[trigger] ks[i])
                && m[ks[i]] == vs[i] by {
                keyed_at(keys(items@), values(items@), i);
                assert(s[i] == r@[i]@);
            }
            assert forall|k: (Seq<char>, IpAddr)| #[trigger]
                m.dom().contains(k) implies ks.contains(k) by {
                assert(self.leases@.dom().contains(k));
            }
            keyed_is(ks, vs, m);
        }
        r
    }

    /// The book as lists.
    pub fn to_snapshot(&self) -> (r: AddressSnapshot)
        requires
            self.inv(),
        ensures
            r@.model() == self@,
    {
        let r = AddressSnapshot {
            subnets: self.subnets(),
            leases: self.leases(),
            floating: self.floating_ips(),
        };
        proof {
            self.subnets.domain_is_finite();
            self.floating.domain_is_finite();
            let b = self@;
            assert(b.subnets.dom() =~= self.subnets@.dom());
            assert(b.floating.dom() =~= self.floating@.dom());
            ordered_lists::<TextKey>(b.subnets.dom());
            ordered_lists::<TextKey>(b.floating.dom());
            let s = r@.subnets;
            let f = r@.floating;
            let ks = Seq::new(s.len(), |i: int| s[i].id);
            let kf = Seq::new(f.len(), |i: int| f[i].id);
            let os = ordered::<TextKey>(b.subnets.dom());
            let of = ordered::<TextKey>(b.floating.dom());
            assert forall|i: int| 0 <= i < os.len() implies ks[i] == os[i] by {
                assert(os.contains(os[i]));
                assert(b.subnets.dom().contains(os[i]));
            }
            assert forall|i: int| 0 <= i < of.len() implies kf[i] == of[i] by {
                assert(of.contains(of[i]));
                assert(b.floating.dom().contains(of[i]));
            }
            assert(ks =~= os);
            assert(kf =~= of);
            listed_is_keyed(b.subnets, ks, s);
            listed_is_keyed(b.floating, kf, f);
            assert(r@.model() =~= b);
        }
        r
    }

    /// The book that lists describe.
    pub fn from_snapshot(snap: &AddressSnapshot) -> (r: AddressBook)
        ensures
            r.inv(),
            r@ == snap@.model(),
    {
        let mut b = AddressBook::new();
        let ghost s = snap@.subnets;
        let ghost ks = Seq::new(s.len(), |i: int| s[i].id);
        for i in 0..snap.subnets.len()
            invariant
                b.inv(),
                s == views(snap.subnets@),
                ks == Seq::new(s.len(), |i: int| s[i].id),
                b@.subnets == keyed(ks.take(i as int), s.take(i as int)),
                b@.leases == Map::<(Seq<char>, IpAddr), HolderView>::empty(),
                b@.floating == Map::<Seq<char>, FloatingIpView>::empty(),
        {
            let x = snap.subnets[i].clone();
            let key = TextKey { text: x.id.clone() };
            proof {
                map_views_insert(b.subnets@, key@, x);
                keyed_push(ks.take(i as int), s.take(i as int), ks[i as int], s[i as int]);
                assert(ks.take(i as int).push(ks[i as int]) =~= ks.take(i + 1));
                assert(s.take(i as int).push(s[i as int]) =~= s.take(i + 1));
            }
            b.subnets.insert(key, x);
        }
        assert(ks.take(s.len() as int) =~= ks && s.take(s.len() as int) =~= s);
        let ghost l = snap@.leases;
        let ghost kl = Seq::new(l.len(), |i: int| (l[i].subnet_id, l[i].addr));
        let ghost vl = Seq::new(l.len(), |i: int| l[i].holder);
        for i in 0..snap.leases.len()
            invariant
                b.inv(),
                l == views(snap.leases@),
                kl == Seq::new(l.len(), |i: int| (l[i].subnet_id, l[i].addr)),
                vl == Seq::new(l.len(), |i: int| l[i].holder),
                b@.subnets == subnets_by_id(snap@.subnets),
                b@.leases == keyed(kl.take(i as int), vl.take(i as int)),
                b@.floating == Map::<Seq<char>, FloatingIpView>::empty(),
        {
            let x = &snap.leases[i];
            let holder = x.holder.clone();
            let key = LeaseKey { subnet_id: x.subnet_id.clone(), addr: x.addr };
            proof {
                assert(l[i as int] == x@);
                map_views_insert(b.leases@, key@, holder);
                keyed_push(kl.take(i as int), vl.take(i as int), kl[i as int], vl[i as int]);
                assert(kl.take(i as int).push(kl[i as int]) =~= kl.take(i + 1));
                assert(vl.take(i as int).push(vl[i as int]) =~= vl.take(i + 1));
            }
            b.leases.insert(key, holder);
        }
        assert(kl.take(l.len() as int) =~= kl && vl.take(l.len() as int) =~= vl);
        let ghost f = snap@.floating;
        let ghost kf = Seq::new(f.len(), |i: int| f[i].id);
        for i in 0..snap.floating.len()
            invariant
                b.inv(),
                f == views(snap.floating@),
                kf == Seq::new(f.len(), |i: int| f[i].id),
                b@.subnets == subnets_by_id(snap@.subnets),
                b@.leases == holders(snap@.leases),
                b@.floating == keyed(kf.take(i as int), f.take(i as int)),
        {
            let x = snap.floating[i].clone();
            let key = TextKey { text: x.id.clone() };
            proof {
                map_views_insert(b.floating@, key@, x);
                keyed_push(kf.take(i as int), f.take(i as int), kf[i as int], f[i as int]);
                assert(kf.take(i as int).push(kf[i as int]) =~= kf.take(i + 1));
                assert(f.take(i as int).push(f[i as int]) =~= f.take(i + 1));
            }
            b.floating.insert(key, x);
        }
        assert(kf.take(f.len() as int) =~= kf && f.take(f.len() as int) =~= f);
        b
    }
}

// ---------------------------------------------------------------------------
// Laws
// ---------------------------------------------------------------------------

/// Whether an address of a subnet is in its pool and can be given out.
pub open spec fn is_free(b: AddressBookView, subnet_id: Seq<char>, a: IpAddr) -> bool {
    let s = b.subnets[subnet_id];
    assignable(s, a) && in_pool(s, a) && !b.leases.dom().contains((subnet_id, a))
}

/// Where no particular address is asked for, the lowest free one of the pool is given out, and the
/// request fails only where none is free.
pub proof fn lowest_address_is_given(b: AddressBookView, subnet_id: Seq<char>)
    requires
        b.subnets.dom().contains(subnet_id),
    ensures
        match b.address_for(subnet_id, None) {
            Ok(a) => {
                &&& is_free(b, subnet_id, a)
                &&& forall|x: IpAddr| #[trigger]
                    is_free(b, subnet_id, x) ==> ip_number(a) <= ip_number(x)
            },
            Err(_) => forall|x: IpAddr| !#[trigger] is_free(b, subnet_id, x),
        },
{
    let s = b.subnets[subnet_id];
    let lo = s.cidr.first() + 1;
    let hi = s.cidr.last_host();
    lowest_properties(b, subnet_id, lo, hi);
    let r = b.address_for(subnet_id, None);
    if let Ok(a) = r {
        let k = choose|k: int|
            lo <= k <= hi && #[trigger] b.candidate(subnet_id, k) && a == ip_numbered(
                s.cidr.v6(),
                k,
            ) && forall|j: int| lo <= j < k ==> !#[trigger] b.candidate(subnet_id, j);
        cidr_bounds(s.cidr);
        numbered_round_trip(s.cidr.v6(), k);
        assert forall|x: IpAddr| #[trigger] is_free(b, subnet_id, x) implies ip_number(a)
            <= ip_number(x) by {
            number_round_trip(x);
            assert(b.candidate(subnet_id, ip_number(x)));
        }
    } else {
        assert forall|x: IpAddr| !#[trigger] is_free(b, subnet_id, x) by {
            if is_free(b, subnet_id, x) {
                number_round_trip(x);
                assert(b.candidate(subnet_id, ip_number(x)));
            }
        }
    }
}

proof fn cidr_bounds(c: SubnetCidr)
    ensures
        0 <= c.first(),
        c.last_host() <= family_max(c.v6()),
{
    if let SubnetCidr::V6(x) = c {
        number_round_trip(IpAddr::V6(x.addr));
    }
}

/// No address is given out twice.
pub proof fn no_address_is_given_twice(
    b: AddressBookView,
    subnet_id: Seq<char>,
    ip: Option<IpAddr>,
    holder: HolderView,
    again: Option<IpAddr>,
)
    ensures
        b.lease(subnet_id, ip, holder).1 matches Ok(a) ==> b.lease(
            subnet_id,
            ip,
            holder,
        ).0.address_for(subnet_id, again) != Ok::<IpAddr, Seq<char>>(a),
{
    let after = b.lease(subnet_id, ip, holder).0;
    given_address_was_free(after, subnet_id, again);
}

/// Taking an address back from the one who got it undoes giving it out.
pub proof fn taking_back_undoes_giving(
    b: AddressBookView,
    subnet_id: Seq<char>,
    ip: Option<IpAddr>,
    holder: HolderView,
)
    ensures
        b.lease(subnet_id, ip, holder).1 matches Ok(a) ==> b.lease(
            subnet_id,
            ip,
            holder,
        ).0.take_back(subnet_id, a, holder) == (b, true),
{
    given_address_was_free(b, subnet_id, ip);
    let step = b.lease(subnet_id, ip, holder);
    if let Ok(a) = step.1 {
        assert(step.0.take_back(subnet_id, a, holder).0 =~= b);
    }
}

/// A subnet with an address that is given out cannot be removed.
pub proof fn subnet_in_use_stays(b: AddressBookView, subnet_id: Seq<char>, a: IpAddr)
    requires
        b.wf(),
        b.leases.dom().contains((subnet_id, a)),
    ensures
        b.remove_subnet(subnet_id).0 == b,
        b.remove_subnet(subnet_id).1 is Err,
{
}

/// Taking a floating address back undoes giving it out.
pub proof fn floating_release_undoes_allocation(
    b: AddressBookView,
    subnet_id: Seq<char>,
    ip: Option<IpAddr>,
)
    requires
        b.wf(),
    ensures
        b.allocate_floating(subnet_id, ip).1 matches Ok(f) ==> b.allocate_floating(
            subnet_id,
            ip,
        ).0.release_floating(f.id) == (b, Ok::<bool, Seq<char>>(true)),
{
    given_address_was_free(b, subnet_id, ip);
    floating_id_is_new(b, subnet_id, ip);
    let step = b.allocate_floating(subnet_id, ip);
    if let Ok(f) = step.1 {
        assert(step.0.release_floating(f.id).0 =~= b);
    }
}

/// A floating address that stands for an address of a port cannot be taken back.
pub proof fn associated_floating_stays(b: AddressBookView, id: Seq<char>)
    requires
        b.floating.dom().contains(id),
        b.floating[id].association is Some,
    ensures
        b.release_floating(id).0 == b,
        b.release_floating(id).1 is Err,
{
}

/// Letting a floating address stand for nothing undoes letting it stand for an address of a port.
pub proof fn disassociation_undoes_association(
    b: AddressBookView,
    id: Seq<char>,
    port_id: Seq<char>,
    fixed: IpAddr,
)
    requires
        b.associate(id, port_id, fixed).1 is Ok,
    ensures
        b.associate(id, port_id, fixed).0.disassociate(id).0 == b,
        b.associate(id, port_id, fixed).0.disassociate(id).1 == Ok::<FloatingIpView, Seq<char>>(
            b.floating[id],
        ),
{
    let after = b.associate(id, port_id, fixed).0;
    assert(after.disassociate(id).0.floating =~= b.floating);
}

/// Which addresses a port can have in a subnet: in IPv4 those strictly between the network address
/// and the broadcast address, in IPv6 all but the network address; and never the gateway's.
pub proof fn assignable_addresses(s: SubnetView, a: IpAddr)
    ensures
        match (s.cidr, a) {
            (SubnetCidr::V4(c), IpAddr::V4(x)) => c.prefix <= 32 && c.base() + pow2(
                (32 - c.prefix) as nat,
            ) <= 0x1_0000_0000 ==> (assignable(s, a) <==> c.base() < x.bits < c.base() + pow2(
                (32 - c.prefix) as nat,
            ) - 1 && s.gateway != Some(a)),
            (SubnetCidr::V6(c), IpAddr::V6(x)) => c.prefix <= 128 && ipv6_number(c.addr) + pow2(
                (128 - c.prefix) as nat,
            ) <= u128::MAX + 1 ==> (assignable(s, a) <==> ipv6_number(c.addr) < ipv6_number(x)
                < ipv6_number(c.addr) + pow2((128 - c.prefix) as nat) && s.gateway != Some(a)),
            _ => !assignable(s, a),
        },
{
}

/// A pool holds the addresses of its family from its first to its last; without a pool every address
/// will do.
pub proof fn pooled_addresses(s: SubnetView, a: IpAddr)
    ensures
        s.pool is None ==> in_pool(s, a),
        s.pool matches Some(r) ==> match (r.start, r.end, a) {
            (IpAddr::V4(lo), IpAddr::V4(hi), IpAddr::V4(x)) => in_pool(s, a) <==> lo.bits <= x.bits
                <= hi.bits,
            (IpAddr::V6(lo), IpAddr::V6(hi), IpAddr::V6(x)) => in_pool(s, a) <==> ipv6_number(lo)
                <= ipv6_number(x) <= ipv6_number(hi),
            _ => !in_pool(s, a),
        },
{
}

/// A particular address is given out exactly where the subnet is known, a port can have the address
/// in it, and nobody has it; the pool is no bar.
pub proof fn requested_address_is_given(b: AddressBookView, subnet_id: Seq<char>, a: IpAddr)
    ensures
        b.address_for(subnet_id, Some(a)) is Ok <==> b.subnets.dom().contains(subnet_id)
            && assignable(b.subnets[subnet_id], a) && !b.leases.dom().contains((subnet_id, a)),
        b.address_for(subnet_id, Some(a)) matches Ok(x) ==> x == a,
        b.address_for(subnet_id, None) is Ok ==> b.subnets.dom().contains(subnet_id),
{
}

/// What is seen of the records of this module is all that they hold, field by field.
pub proof fn ipam_records_are_seen_whole(
    lease: Lease,
    address_snapshot: AddressSnapshot,
)
    ensures
        lease@.subnet_id == lease.subnet_id@,
        lease@.addr == lease.addr,
        lease@.holder == lease.holder@,
        address_snapshot@.subnets == views(address_snapshot.subnets@),
        address_snapshot@.leases == views(address_snapshot.leases@),
        address_snapshot@.floating == views(address_snapshot.floating@),
{
}

/// A snapshot in which no key occurs twice describes exactly the subnets, leases and floating
/// addresses that it lists: a subnet and a floating address stand under their ids, and the holder of
/// a lease under its subnet and address.
#[verifier::spinoff_prover]
pub proof fn snapshot_describes_its_entries(s: AddressSnapshotView)
    requires
        forall|i: int, j: int|
            0 <= i < j < s.subnets.len() ==> (#[trigger] s.subnets[i]).id != (
            #[trigger] s.subnets[j]).id,
        forall|i: int, j: int|
            0 <= i < j < s.leases.len() ==> (#[trigger] s.leases[i]).subnet_id != (
            #[trigger] s.leases[j]).subnet_id || s.leases[i].addr != s.leases[j].addr,
        forall|i: int, j: int|
            0 <= i < j < s.floating.len() ==> (#[trigger] s.floating[i]).id != (
            #[trigger] s.floating[j]).id,
    ensures
        forall|i: int|
            0 <= i < s.subnets.len() ==> {
                let e = #[trigger] s.subnets[i];
                s.model().subnets.dom().contains(e.id) && s.model().subnets[e.id] == e
            },
        forall|i: int|
            0 <= i < s.leases.len() ==> {
                let e = #[trigger] s.leases[i];
                s.model().leases.dom().contains((e.subnet_id, e.addr))
                    && s.model().leases[(e.subnet_id, e.addr)] == e.holder
            },
        forall|i: int|
            0 <= i < s.floating.len() ==> {
                let e = #[trigger] s.floating[i];
                s.model().floating.dom().contains(e.id) && s.model().floating[e.id] == e
            },
        forall|id: Seq<char>| #[trigger]
            s.model().subnets.dom().contains(id) ==> exists|i: int|
                0 <= i < s.subnets.len() && (#[trigger] s.subnets[i]).id == id,
        forall|subnet_id: Seq<char>, addr: IpAddr| #[trigger]
            s.model().leases.dom().contains((subnet_id, addr)) ==> exists|i: int|
                0 <= i < s.leases.len() && (#[trigger] s.leases[i]).subnet_id == subnet_id
                    && s.leases[i].addr == addr,
        forall|id: Seq<char>| #[trigger]
            s.model().floating.dom().contains(id) ==> exists|i: int|
                0 <= i < s.floating.len() && (#[trigger] s.floating[i]).id == id,
{
    let sk = Seq::new(s.subnets.len(), |i: int| s.subnets[i].id);
    let lk = Seq::new(s.leases.len(), |i: int| (s.leases[i].subnet_id, s.leases[i].addr));
    let lv = Seq::new(s.leases.len(), |i: int| s.leases[i].holder);
    let fk = Seq::new(s.floating.len(), |i: int| s.floating[i].id);
    keyed_domain(sk, s.subnets);
    keyed_domain(lk, lv);
    keyed_domain(fk, s.floating);
    assert forall|i: int| 0 <= i < s.subnets.len() implies keyed(sk, s.subnets).dom().contains(
        (#[trigger] s.subnets[i]).id,
    ) && keyed(sk, s.subnets)[s.subnets[i].id] == s.subnets[i] by {
        assert(distinct(sk));
        keyed_at(sk, s.subnets, i);
    }
    assert forall|i: int| 0 <= i < s.leases.len() implies keyed(lk, lv).dom().contains(
        ((#[trigger] s.leases[i]).subnet_id, s.leases[i].addr),
    ) && keyed(lk, lv)[(s.leases[i].subnet_id, s.leases[i].addr)] == s.leases[i].holder by {
        assert(distinct(lk));
        keyed_at(lk, lv, i);
    }
    assert forall|i: int| 0 <= i < s.floating.len() implies keyed(fk, s.floating).dom().contains(
        (#[trigger] s.floating[i]).id,
    ) && keyed(fk, s.floating)[s.floating[i].id] == s.floating[i] by {
        assert(distinct(fk));
        keyed_at(fk, s.floating, i);
    }
    assert forall|id: Seq<char>| #[trigger] s.model().subnets.dom().contains(id) implies exists|
        i: int,
    | 0 <= i < s.subnets.len() && (#[trigger] s.subnets[i]).id == id by {
        let i = choose|i: int| 0 <= i < sk.len() && sk[i] == id;
        assert(s.subnets[i].id == id);
    }
    assert forall|subnet_id: Seq<char>, addr: IpAddr| #[trigger]
        s.model().leases.dom().contains((subnet_id, addr)) implies exists|i: int|
        0 <= i < s.leases.len() && (#[trigger] s.leases[i]).subnet_id == subnet_id
            && s.leases[i].addr == addr by {
        let i = choose|i: int| 0 <= i < lk.len() && lk[i] == (subnet_id, addr);
        assert(s.leases[i].subnet_id == subnet_id);
    }
    assert forall|id: Seq<char>| #[trigger] s.model().floating.dom().contains(id) implies exists|
        i: int,
    | 0 <= i < s.floating.len() && (#[trigger] s.floating[i]).id == id by {
        let i = choose|i: int| 0 <= i < fk.len() && fk[i] == id;
        assert(s.floating[i].id == id);
    }
}

/// Why a subnet is not added or removed: its network is unknown, its id is in use, or addresses of
/// it are still allocated.
pub proof fn refused_subnet_is_told_why(b: AddressBookView, s: SubnetView, id: Seq<char>)
    ensures
        b.add_subnet(s, false) == (
            b,
            Err::<(), Seq<char>>(
                "subnet "@ + debug_text(s.id) + ": unknown network vni "@ + decimal(s.vni as nat),
            ),
        ),
        b.subnets.dom().contains(s.id) ==> b.add_subnet(s, true) == (
            b,
            Err::<(), Seq<char>>("subnet "@ + debug_text(s.id) + " already exists"@),
        ),
        !b.subnets.dom().contains(s.id) ==> b.add_subnet(s, true).1 is Ok,
        !b.subnets.dom().contains(id) ==> b.remove_subnet(id) == (b, Ok::<bool, Seq<char>>(false)),
        b.remove_subnet(id).1 matches Err(e) ==> e == "subnet "@ + debug_text(id)
            + " still has allocated addresses"@ && b.remove_subnet(id).0 == b,
{
}

/// Why there is no address of a subnet: the subnet is unknown; the address asked for cannot be
/// assigned or is allocated; or none is free.
pub proof fn refused_address_is_told_why(b: AddressBookView, id: Seq<char>, ip: Option<IpAddr>)
    ensures
        !b.subnets.dom().contains(id) ==> b.address_for(id, ip) == Err::<IpAddr, Seq<char>>(
            "unknown subnet "@ + debug_text(id),
        ),
        b.subnets.dom().contains(id) ==> (ip matches Some(a) ==> {
            &&& !assignable(b.subnets[id], a) ==> b.address_for(id, ip) == Err::<IpAddr, Seq<char>>(
                "address "@ + ip_text(a) + " cannot be assigned in subnet "@ + debug_text(id),
            )
            &&& assignable(b.subnets[id], a) && b.leases.dom().contains((id, a)) ==> b.address_for(
                id,
                ip,
            ) == Err::<IpAddr, Seq<char>>(
                "address "@ + ip_text(a) + " is already allocated in subnet "@ + debug_text(id),
            )
            &&& assignable(b.subnets[id], a) && !b.leases.dom().contains((id, a))
                ==> b.address_for(id, ip) == Ok::<IpAddr, Seq<char>>(a)
        }),
        b.subnets.dom().contains(id) && ip is None && b.address_for(id, ip) is Err
            ==> b.address_for(id, ip) == Err::<IpAddr, Seq<char>>(
            "subnet "@ + debug_text(id) + " has no free address"@,
        ),
{
}

/// Why no address is bound to a port: the port is unknown, or it is on another network than the
/// subnet; else the address is given or refused as without a port.
pub proof fn refused_binding_is_told_why(
    b: AddressBookView,
    port_id: Seq<char>,
    vni: u32,
    subnet_id: Seq<char>,
    ip: Option<IpAddr>,
)
    ensures
        b.bind(port_id, None, subnet_id, ip) == (
            b,
            Err::<IpAddr, Seq<char>>("unknown port "@ + debug_text(port_id)),
        ),
        ({
            let other = b.subnets.dom().contains(subnet_id) && b.subnets[subnet_id].vni != vni;
            let r = b.bind(port_id, Some(vni), subnet_id, ip);
            &&& other ==> r == (
                b,
                Err::<IpAddr, Seq<char>>(
                    "port "@ + debug_text(port_id) + " is not on the network of subnet "@
                        + debug_text(subnet_id),
                ),
            )
            &&& !other ==> r.1 == b.address_for(subnet_id, ip)
        }),
{
}

/// Why a floating address is not associated, freed or released: it is not there, it is associated
/// already, or the port does not have the address or has a floating one for it.
pub proof fn refused_floating_is_told_why(
    b: AddressBookView,
    id: Seq<char>,
    port_id: Seq<char>,
    fixed: IpAddr,
)
    ensures
        !b.floating.dom().contains(id) ==> b.associate(id, port_id, fixed) == (
            b,
            Err::<FloatingIpView, Seq<char>>("no floating ip "@ + debug_text(id)),
        ) && b.disassociate(id) == (
            b,
            Err::<FloatingIpView, Seq<char>>("no floating ip "@ + debug_text(id)),
        ) && b.release_floating(id) == (b, Ok::<bool, Seq<char>>(false)),
        b.floating.dom().contains(id) && b.floating[id].association is Some ==> b.associate(
            id,
            port_id,
            fixed,
        ) == (
            b,
            Err::<FloatingIpView, Seq<char>>(
                "floating ip "@ + debug_text(id) + " is already associated"@,
            ),
        ) && b.release_floating(id) == (
            b,
            Err::<bool, Seq<char>>("floating ip "@ + debug_text(id) + " is still associated"@),
        ),
        b.floating.dom().contains(id) ==> b.disassociate(id).1 is Ok,
        b.floating.dom().contains(id) && b.floating[id].association is None ==> {
            let r = b.associate(id, port_id, fixed);
            let had = exists|s: Seq<char>| #[trigger]
                b.leases.dom().contains((s, fixed)) && b.leases[(s, fixed)] == HolderView::Port(
                    port_id,
                );
            &&& !had ==> r == (
                b,
                Err::<FloatingIpView, Seq<char>>(
                    "port "@ + debug_text(port_id) + " does not hold address "@ + ip_text(fixed),
                ),
            )
            &&& had && r.1 is Err ==> r == (
                b,
                Err::<FloatingIpView, Seq<char>>(
                    "address "@ + ip_text(fixed) + " of port "@ + debug_text(port_id)
                        + " already has a floating ip"@,
                ),
            )
            &&& b.release_floating(id).1 == Ok::<bool, Seq<char>>(true)
        },
{
}

} // verus!
