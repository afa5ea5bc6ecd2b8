//! IPv4, IPv6 and MAC addresses, and their textual forms.

use vstd::arithmetic::power2::{
    lemma2_to64, lemma_pow2_pos, lemma_pow2_strictly_increases, lemma_pow2_unfold, pow2,
};
use vstd::prelude::*;

use crate::text::{
    chars_of, decimal, digit_value, digits_value, find_char, find_char_unique, find_from, hex_pair,
    hexadecimal, parse_digits, parse_unsigned, push_decimal, push_hex_pair, push_hexadecimal, split,
    split_at_char, sub_chars, unsigned_value, views,
};

verus! {

/// An IPv4 address, as the 32-bit number that its four octets write in network order.
#[derive(Clone, Copy, Debug, PartialEq, Eq, PartialOrd, Ord, Hash, Structural)]
pub struct Ipv4Addr {
    /// The address as a number.
    pub bits: u32,
}

/// An IPv6 address, as its eight 16-bit segments.
#[derive(Clone, Copy, Debug, PartialEq, Eq, PartialOrd, Ord, Hash, Structural)]
pub struct Ipv6Addr {
    pub s0: u16,
    pub s1: u16,
    pub s2: u16,
    pub s3: u16,
    pub s4: u16,
    pub s5: u16,
    pub s6: u16,
    pub s7: u16,
}

/// An IPv4 or IPv6 address. Every IPv4 address orders before every IPv6 address.
#[derive(Clone, Copy, Debug, PartialEq, Eq, PartialOrd, Ord, Hash, Structural)]
pub enum IpAddr {
    V4(Ipv4Addr),
    V6(Ipv6Addr),
}

/// An IPv4 prefix: the network address and the number of its leading bits that count.
#[derive(Clone, Copy, Debug, PartialEq, Eq)]
pub struct Cidr4 {
    pub octets: [u8; 4],
    pub prefix: u8,
}

// ---------------------------------------------------------------------------
// IPv4
// ---------------------------------------------------------------------------

/// The number that four octets write in network order.
pub open spec fn octets_value(o: [u8; 4]) -> int {
    o[0] * 16777216 + o[1] * 65536 + o[2] * 256 + o[3]
}

/// Octet `i` (0 to 3) of an IPv4 address.
pub open spec fn octet(bits: u32, i: int) -> u8 {
    if i == 0 {
        (bits / 16777216) as u8
    } else if i == 1 {
        (bits / 65536 % 256) as u8
    } else if i == 2 {
        (bits / 256 % 256) as u8
    } else {
        (bits % 256) as u8
    }
}

/// The four octets of an IPv4 address.
pub open spec fn octets_of(bits: u32) -> [u8; 4] {
    [octet(bits, 0), octet(bits, 1), octet(bits, 2), octet(bits, 3)]
}

/// The dotted-decimal text of an IPv4 address.
pub open spec fn ipv4_text(a: Ipv4Addr) -> Seq<char> {
    decimal(octet(a.bits, 0) as nat).push('.') + decimal(octet(a.bits, 1) as nat).push('.')
        + decimal(octet(a.bits, 2) as nat).push('.') + decimal(octet(a.bits, 3) as nat)
}

/// The value of one dotted-decimal component: one to three digits, no leading zero, at most 255.
pub open spec fn octet_value(p: Seq<char>) -> Option<int> {
    if 1 <= p.len() <= 3 && (p.len() == 1 || p[0] != '0') {
        match digits_value(p, 10) {
            Some(v) => if v <= 255 {
                Some(v)
            } else {
                None
            },
            None => None,
        }
    } else {
        None
    }
}

/// The IPv4 address that `s` writes in dotted-decimal form.
pub open spec fn ipv4_of(s: Seq<char>) -> Option<Ipv4Addr> {
    let p = split(s, '.');
    if p.len() == 4 {
        match (octet_value(p[0]), octet_value(p[1]), octet_value(p[2]), octet_value(p[3])) {
            (Some(a), Some(b), Some(c), Some(d)) => Some(
                Ipv4Addr { bits: (a * 16777216 + b * 65536 + c * 256 + d) as u32 },
            ),
            _ => None,
        }
    } else {
        None
    }
}

fn parse_octet(p: &Vec<char>) -> (r: Option<u32>)
    ensures
        match r {
            Some(v) => octet_value(p@) == Some(v as int) && v <= 255,
            None => octet_value(p@) is None,
        },
{
    if p.len() < 1 || p.len() > 3 || (p.len() != 1 && p[0] == '0') {
        return None;
    }
    assert(p@.skip(0) =~= p@);
    match parse_digits(p, 0, 10, 255) {
        Some(v) => Some(v as u32),
        None => None,
    }
}

/// Reads dotted-decimal text, as [`ipv4_of`] says.
pub fn parse_ipv4(v: &Vec<char>) -> (r: Option<Ipv4Addr>)
    ensures
        r == ipv4_of(v@),
{
    let p = split_at_char(v, '.');
    let ghost pieces = split(v@, '.');
    if p.len() != 4 {
        return None;
    }
    assert(p@[0]@ == pieces[0] && p@[1]@ == pieces[1] && p@[2]@ == pieces[2]
        && p@[3]@ == pieces[3]);
    match (parse_octet(&p[0]), parse_octet(&p[1]), parse_octet(&p[2]), parse_octet(&p[3])) {
        (Some(a), Some(b), Some(c), Some(d)) => Some(
            Ipv4Addr { bits: a * 16777216 + b * 65536 + c * 256 + d },
        ),
        _ => None,
    }
}

proof fn octets_split(a: u8, b: u8, c: u8, d: u8, bits: u32)
    requires
        bits == a * 16777216 + b * 65536 + c * 256 + d,
    ensures
        octet(bits, 0) == a,
        octet(bits, 1) == b,
        octet(bits, 2) == c,
        octet(bits, 3) == d,
{
    assert(bits / 16777216 == a) by (nonlinear_arith)
        requires
            bits == a * 16777216 + b * 65536 + c * 256 + d,
            b < 256,
            c < 256,
            d < 256,
    ;
    assert(bits / 65536 == a * 256 + b) by (nonlinear_arith)
        requires
            bits == a * 16777216 + b * 65536 + c * 256 + d,
            c < 256,
            d < 256,
    ;
    assert(bits / 256 == a * 65536 + b * 256 + c) by (nonlinear_arith)
        requires
            bits == a * 16777216 + b * 65536 + c * 256 + d,
            d < 256,
    ;
}

impl Ipv4Addr {
    /// The address with the given octets.
    pub fn from_octets(o: [u8; 4]) -> (r: Ipv4Addr)
        ensures
            r.bits == octets_value(o),
            octet(r.bits, 0) == o[0],
            octet(r.bits, 1) == o[1],
            octet(r.bits, 2) == o[2],
            octet(r.bits, 3) == o[3],
    {
        let bits: u32 = o[0] as u32 * 16777216 + o[1] as u32 * 65536 + o[2] as u32 * 256
            + o[3] as u32;
        proof {
            octets_split(o[0], o[1], o[2], o[3], bits);
        }
        Ipv4Addr { bits }
    }

    /// The four octets, in network order.
    pub fn octets(self) -> (o: [u8; 4])
        ensures
            o == octets_of(self.bits),
            octets_value(o) == self.bits,
            o[0] == octet(self.bits, 0),
            o[1] == octet(self.bits, 1),
            o[2] == octet(self.bits, 2),
            o[3] == octet(self.bits, 3),
    {
        let b: u32 = self.bits;
        let o: [u8; 4] = [
            (b / 16777216) as u8,
            (b / 65536 % 256) as u8,
            (b / 256 % 256) as u8,
            (b % 256) as u8,
        ];
        assert(o =~= octets_of(b));
        o
    }

    /// Reads dotted-decimal text.
    pub fn parse(s: &str) -> (r: Option<Ipv4Addr>)
        ensures
            r == ipv4_of(s@),
    {
        parse_ipv4(&chars_of(s))
    }

    /// Appends the dotted-decimal text.
    pub fn push_to(self, s: &mut String)
        ensures
            final(s)@ == old(s)@ + ipv4_text(self),
    {
        let o = self.octets();
        push_decimal(s, o[0] as u64);
        s.push('.');
        push_decimal(s, o[1] as u64);
        s.push('.');
        push_decimal(s, o[2] as u64);
        s.push('.');
        push_decimal(s, o[3] as u64);
        assert(s@ =~= old(s)@ + ipv4_text(self));
    }

    /// The dotted-decimal text.
    pub fn to_string(self) -> (s: String)
        ensures
            s@ == ipv4_text(self),
    {
        let mut s = String::new();
        self.push_to(&mut s);
        assert(s@ =~= ipv4_text(self));
        s
    }
}

/// Two arrays of four octets are equal when they write the same number.
pub proof fn octets_determined(a: [u8; 4], b: [u8; 4])
    requires
        octets_value(a) == octets_value(b),
    ensures
        a == b,
{
    assert(a[0] == b[0] && a[1] == b[1] && a[2] == b[2] && a[3] == b[3]);
    assert(a =~= b) by {
        assert forall|i: int| 0 <= i < 4 implies a[i] == b[i] by {}
    }
}

proof fn decimal_small(n: nat)
    requires
        n < 1000,
    ensures
        1 <= decimal(n).len() <= 3,
        decimal(n).len() > 1 ==> decimal(n)[0] != '0',
        digits_value(decimal(n), 10) == Some(n as int),
        forall|k: int| 0 <= k < decimal(n).len() ==> 48 <= #[trigger] decimal(n)[k] as int <= 57,
{
    reveal_with_fuel(decimal, 4);
    reveal_with_fuel(digits_value, 4);
    if n < 10 {
        assert(decimal(n).drop_last() =~= Seq::<char>::empty());
    } else if n < 100 {
        assert(decimal(n).drop_last() =~= decimal(n / 10));
        assert(decimal(n / 10).drop_last() =~= Seq::<char>::empty());
    } else {
        assert(decimal(n).drop_last() =~= decimal(n / 10));
        assert(decimal(n / 10).drop_last() =~= decimal(n / 10 / 10));
        assert(decimal(n / 10 / 10).drop_last() =~= Seq::<char>::empty());
    }
}

/// Splitting a piece without `c`, then `c`, then more text gives the piece and the split of the
/// rest.
pub proof fn split_prefix(a: Seq<char>, c: char, b: Seq<char>)
    requires
        forall|k: int| 0 <= k < a.len() ==> a[k] != c,
    ensures
        split(a.push(c) + b, c) == seq![a] + split(b, c),
{
    let s = a.push(c) + b;
    find_char_unique(s, c, a.len() as int);
    assert(s.take(a.len() as int) =~= a);
    assert(s.skip((a.len() + 1) as int) =~= b);
}

/// Text without `c` is its own only piece.
pub proof fn split_whole(a: Seq<char>, c: char)
    requires
        forall|k: int| 0 <= k < a.len() ==> a[k] != c,
    ensures
        split(a, c) == seq![a],
{
    find_char_unique(a, c, a.len() as int);
}

/// Splitting four pieces without `c`, joined by `c`, gives the pieces.
proof fn split_four(d0: Seq<char>, d1: Seq<char>, d2: Seq<char>, d3: Seq<char>, c: char)
    requires
        forall|k: int| 0 <= k < d0.len() ==> d0[k] != c,
        forall|k: int| 0 <= k < d1.len() ==> d1[k] != c,
        forall|k: int| 0 <= k < d2.len() ==> d2[k] != c,
        forall|k: int| 0 <= k < d3.len() ==> d3[k] != c,
    ensures
        split(d0.push(c) + d1.push(c) + d2.push(c) + d3, c) == seq![d0, d1, d2, d3],
{
    let t2 = d2.push(c) + d3;
    let t1 = d1.push(c) + t2;
    split_prefix(d0, c, t1);
    split_prefix(d1, c, t2);
    split_prefix(d2, c, d3);
    split_whole(d3, c);
    assert(d0.push(c) + d1.push(c) + d2.push(c) + d3 =~= d0.push(c) + t1);
    assert(split(d0.push(c) + t1, c) =~= seq![d0, d1, d2, d3]);
}

pub proof fn octets_recombine(bits: u32)
    ensures
        octet(bits, 0) * 16777216 + octet(bits, 1) * 65536 + octet(bits, 2) * 256 + octet(bits, 3)
            == bits,
{
}

/// The text of an octet is read back as the octet, and holds no dot.
proof fn octet_text(b: u8)
    ensures
        octet_value(decimal(b as nat)) == Some(b as int),
        forall|k: int| 0 <= k < decimal(b as nat).len() ==> #[trigger] decimal(b as nat)[k] != '.',
{
    decimal_small(b as nat);
}

/// Reading back the text of an IPv4 address gives the address.
pub proof fn ipv4_text_round_trip(a: Ipv4Addr)
    ensures
        ipv4_of(ipv4_text(a)) == Some(a),
{
    let b0 = octet(a.bits, 0);
    let b1 = octet(a.bits, 1);
    let b2 = octet(a.bits, 2);
    let b3 = octet(a.bits, 3);
    octet_text(b0);
    octet_text(b1);
    octet_text(b2);
    octet_text(b3);
    octets_recombine(a.bits);
    split_four(decimal(b0 as nat), decimal(b1 as nat), decimal(b2 as nat), decimal(b3 as nat), '.');
}

// ---------------------------------------------------------------------------
// IPv4 prefixes
// ---------------------------------------------------------------------------

impl Cidr4 {
    /// The network address as a number.
    pub open spec fn base(&self) -> int {
        octets_value(self.octets)
    }

    /// How many addresses share the prefix.
    pub open spec fn size(&self) -> int {
        pow2((32 - self.prefix) as nat) as int
    }

    /// The number of addresses that allocation counts with: all that share the prefix, or one less
    /// than the whole address space.
    pub open spec fn span(&self) -> int {
        if self.prefix == 0 {
            0xFFFF_FFFF
        } else {
            self.size()
        }
    }

    /// A prefix length that fits, and no host address beyond the address space.
    pub open spec fn valid(&self) -> bool {
        &&& self.prefix <= 32
        &&& self.base() + self.span() <= 0x1_0000_0001
    }

    /// The address lies in the block of the prefix that starts at the network address.
    pub open spec fn contains(&self, ip: Ipv4Addr) -> bool {
        ip.bits - ip.bits as int % self.size() == self.base()
    }
}

/// Computes `2^n`.
pub fn power_of_two(n: u32) -> (r: u64)
    requires
        n <= 32,
    ensures
        r == pow2(n as nat),
        1 <= r <= 0x1_0000_0000,
{
    let mut r: u64 = 1;
    proof {
        lemma2_to64();
    }
    for i in 0..n
        invariant
            n <= 32,
            r == pow2(i as nat),
            r <= 0x1_0000_0000,
    {
        proof {
            lemma2_to64();
            lemma_pow2_unfold((i + 1) as nat);
            if i + 1 < 32 {
                lemma_pow2_strictly_increases((i + 1) as nat, 32);
            }
        }
        r = r * 2;
    }
    proof {
        lemma_pow2_pos(n as nat);
    }
    r
}

/// An address with all but the leading `prefix` bits cleared.
pub open spec fn network_address(a: Ipv4Addr, prefix: int) -> Ipv4Addr {
    Ipv4Addr { bits: (a.bits - a.bits as int % (pow2((32 - prefix) as nat) as int)) as u32 }
}

/// The prefix that `s` writes as `address/length`, its host bits cleared.
pub open spec fn cidr_v4_of(s: Seq<char>) -> Option<Cidr4> {
    let i = find_char(s, '/') as int;
    if i < s.len() {
        match (ipv4_of(s.take(i)), unsigned_value(s.skip(i + 1), 10, 255)) {
            (Some(a), Some(p)) => if p <= 32 {
                Some(Cidr4 { octets: octets_of(network_address(a, p).bits), prefix: p as u8 })
            } else {
                None
            },
            _ => None,
        }
    } else {
        None
    }
}

/// Reads an IPv4 prefix in `address/length` form and clears its host bits.
pub fn parse_cidr_v4(s: &str) -> (r: Option<Cidr4>)
    ensures
        r == cidr_v4_of(s@),
        r matches Some(c) ==> c.valid(),
{
    let v = chars_of(s);
    assert(v@.skip(0) =~= v@);
    let i: usize = find_from(&v, '/', 0);
    if i == v.len() {
        return None;
    }
    let addr = sub_chars(&v, 0, i);
    let len = sub_chars(&v, i + 1, v.len());
    assert(addr@ =~= s@.take(i as int));
    assert(len@ =~= s@.skip(i + 1));
    match (parse_ipv4(&addr), parse_unsigned(&len, 10, 255)) {
        (Some(a), Some(p)) => {
            if p > 32 {
                return None;
            }
            let span: u64 = power_of_two(32 - p as u32);
            let bits: u64 = a.bits as u64;
            proof {
                lemma_block_fits(bits as int, p as nat);
                lemma2_to64();
            }
            let base: u64 = bits - bits % span;
            let octets = Ipv4Addr { bits: base as u32 }.octets();
            Some(Cidr4 { octets, prefix: p as u8 })
        },
        _ => None,
    }
}

/// A prefix that was read is usable.
pub proof fn cidr_v4_valid(s: Seq<char>)
    ensures
        cidr_v4_of(s) matches Some(c) ==> c.valid(),
{
    let i = find_char(s, '/') as int;
    if cidr_v4_of(s) is Some {
        let a = ipv4_of(s.take(i))->0;
        let p = unsigned_value(s.skip(i + 1), 10, 255)->0;
        crate::text::unsigned_value_nonnegative(s.skip(i + 1), 10, 255);
        lemma_block_fits(a.bits as int, p as nat);
        lemma2_to64();
        octets_recombine(network_address(a, p).bits);
        let c = cidr_v4_of(s)->0;
        assert(octets_value(c.octets) == network_address(a, p).bits);
    }
}

/// The text of an IPv4 prefix.
pub open spec fn cidr4_text(c: Cidr4) -> Seq<char> {
    ipv4_text(Ipv4Addr { bits: c.base() as u32 }).push('/') + decimal(c.prefix as nat)
}

impl Cidr4 {
    /// The `address/length` text.
    pub fn to_string(&self) -> (s: String)
        ensures
            s@ == cidr4_text(*self),
    {
        let mut s = Ipv4Addr::from_octets(self.octets).to_string();
        s.push('/');
        push_decimal(&mut s, self.prefix as u64);
        s
    }
}

/// An aligned block of a power of two addresses ends within the 32-bit space.
proof fn lemma_block_fits(bits: int, p: nat)
    requires
        0 <= bits < 0x1_0000_0000,
        p <= 32,
    ensures
        bits - bits % (pow2((32 - p) as nat) as int) >= 0,
        bits - bits % (pow2((32 - p) as nat) as int) + pow2((32 - p) as nat) <= 0x1_0000_0000,
{
    let span = pow2((32 - p) as nat) as int;
    let blocks = pow2(p) as int;
    lemma_pow2_pos((32 - p) as nat);
    lemma_pow2_pos(p);
    lemma2_to64();
    vstd::arithmetic::power2::lemma_pow2_adds(p, (32 - p) as nat);
    assert(pow2(32) == 0x1_0000_0000);
    let q = bits / span;
    assert(bits - bits % span == q * span && q >= 0 && bits % span <= bits) by (nonlinear_arith)
        requires
            span > 0,
            bits >= 0,
            q == bits / span,
    ;
    assert(q < blocks) by (nonlinear_arith)
        requires
            span > 0,
            q * span <= bits,
            bits < blocks * span,
    ;
    assert((q + 1) * span <= blocks * span) by (nonlinear_arith)
        requires
            q < blocks,
            span > 0,
    ;
    assert((q + 1) * span == q * span + span) by (nonlinear_arith);
}

// ---------------------------------------------------------------------------
// IPv6
// ---------------------------------------------------------------------------

impl Ipv6Addr {
    /// The eight segments.
    pub open spec fn segments(&self) -> Seq<u16> {
        seq![self.s0, self.s1, self.s2, self.s3, self.s4, self.s5, self.s6, self.s7]
    }
}

/// The address whose segments are the first eight numbers of `g`.
pub open spec fn ipv6_from(g: Seq<u16>) -> Ipv6Addr {
    Ipv6Addr {
        s0: g[0],
        s1: g[1],
        s2: g[2],
        s3: g[3],
        s4: g[4],
        s5: g[5],
        s6: g[6],
        s7: g[7],
    }
}

/// How many segments from position `i` on are zero without a break.
pub open spec fn zero_run(s: Seq<u16>, i: int) -> nat
    decreases s.len() - i,
{
    if 0 <= i < s.len() && s[i] == 0 {
        1 + zero_run(s, i + 1)
    } else {
        0
    }
}

/// The first of the longest runs of zero segments that start at `i` or later: where it starts, and
/// its length.
pub open spec fn longest_zero_run(s: Seq<u16>, i: int) -> (int, nat)
    decreases s.len() - i,
{
    if i < 0 || i >= s.len() {
        (s.len() as int, 0)
    } else {
        let later = longest_zero_run(s, i + 1);
        if zero_run(s, i) >= later.1 {
            (i, zero_run(s, i))
        } else {
            later
        }
    }
}

/// The segments in hexadecimal, with a colon between any two.
pub open spec fn hex_groups(s: Seq<u16>) -> Seq<char>
    decreases s.len(),
{
    if s.len() == 0 {
        Seq::empty()
    } else if s.len() == 1 {
        hexadecimal(s[0] as nat)
    } else {
        hex_groups(s.drop_last()).push(':') + hexadecimal(s.last() as nat)
    }
}

/// An IPv4 address that the IPv6 address maps (`::ffff:0:0/96`).
pub open spec fn is_ipv4_mapped(a: Ipv6Addr) -> bool {
    a.s0 == 0 && a.s1 == 0 && a.s2 == 0 && a.s3 == 0 && a.s4 == 0 && a.s5 == 0xffff
}

/// The text of an IPv6 address: lower-case hexadecimal segments, the first of the longest runs of
/// two or more zero segments written `::`, and a mapped IPv4 address in dotted-decimal form.
pub open spec fn ipv6_text(a: Ipv6Addr) -> Seq<char> {
    let s = a.segments();
    let run = longest_zero_run(s, 0);
    if is_ipv4_mapped(a) {
        seq![':', ':', 'f', 'f', 'f', 'f', ':'] + ipv4_text(
            Ipv4Addr { bits: (a.s6 * 65536 + a.s7) as u32 },
        )
    } else if run.1 > 1 {
        hex_groups(s.take(run.0)) + seq![':', ':'] + hex_groups(s.skip(run.0 + run.1))
    } else {
        hex_groups(s)
    }
}

fn push_hex_groups(out: &mut String, s: &Vec<u16>, from: usize, to: usize)
    requires
        from <= to <= s@.len(),
    ensures
        final(out)@ == old(out)@ + hex_groups(s@.subrange(from as int, to as int)),
{
    let ghost start = out@;
    for i in from..to
        invariant
            from <= to <= s@.len(),
            out@ == start + hex_groups(s@.subrange(from as int, i as int)),
    {
        let ghost before = out@;
        let ghost done = s@.subrange(from as int, i as int);
        let ghost next = s@.subrange(from as int, i + 1);
        assert(next.drop_last() =~= done);
        if i > from {
            out.push(':');
        }
        push_hexadecimal(out, s[i] as u64);
        assert(out@ =~= start + hex_groups(next));
    }
}

pub proof fn longest_zero_run_bounds(s: Seq<u16>, i: int)
    requires
        0 <= i <= s.len(),
    ensures
        i <= longest_zero_run(s, i).0 <= s.len(),
        longest_zero_run(s, i).0 + longest_zero_run(s, i).1 <= s.len(),
    decreases s.len() - i,
{
    if i < s.len() {
        longest_zero_run_bounds(s, i + 1);
        zero_run_bounds(s, i);
    }
}

pub proof fn zero_run_bounds(s: Seq<u16>, i: int)
    requires
        0 <= i <= s.len(),
    ensures
        i + zero_run(s, i) <= s.len(),
    decreases s.len() - i,
{
    if i < s.len() {
        zero_run_bounds(s, i + 1);
    }
}

impl Ipv6Addr {
    fn segment_vec(self) -> (v: Vec<u16>)
        ensures
            v@ == self.segments(),
    {
        let mut v: Vec<u16> = Vec::new();
        v.push(self.s0);
        v.push(self.s1);
        v.push(self.s2);
        v.push(self.s3);
        v.push(self.s4);
        v.push(self.s5);
        v.push(self.s6);
        v.push(self.s7);
        assert(v@ =~= self.segments());
        v
    }

    /// Appends the text.
    pub fn push_to(self, s: &mut String)
        ensures
            final(s)@ == old(s)@ + ipv6_text(self),
    {
        let ghost start = s@;
        if self.s0 == 0 && self.s1 == 0 && self.s2 == 0 && self.s3 == 0 && self.s4 == 0 && self.s5
            == 0xffff {
            s.push(':');
            s.push(':');
            s.push('f');
            s.push('f');
            s.push('f');
            s.push('f');
            s.push(':');
            Ipv4Addr { bits: self.s6 as u32 * 65536 + self.s7 as u32 }.push_to(s);
            assert(s@ =~= start + ipv6_text(self));
            return;
        }
        let v = self.segment_vec();
        let mut i: usize = v.len();
        let mut run: usize = 0;
        let mut best_start: usize = v.len();
        let mut best_len: usize = 0;
        while i > 0
            invariant
                i <= v@.len(),
                v@.len() == 8,
                run == zero_run(v@, i as int),
                run <= 8 - i,
                (best_start as int, best_len as nat) == longest_zero_run(v@, i as int),
            decreases i,
        {
            i -= 1;
            if v[i] == 0 {
                run += 1;
            } else {
                run = 0;
            }
            if run >= best_len {
                best_start = i;
                best_len = run;
            }
        }
        proof {
            longest_zero_run_bounds(v@, 0);
        }
        if best_len > 1 {
            push_hex_groups(s, &v, 0, best_start);
            s.push(':');
            s.push(':');
            push_hex_groups(s, &v, best_start + best_len, v.len());
            assert(v@.subrange(0, best_start as int) =~= v@.take(best_start as int));
            assert(v@.subrange(best_start + best_len, 8) =~= v@.skip(best_start + best_len));
            assert(s@ =~= start + ipv6_text(self));
        } else {
            push_hex_groups(s, &v, 0, v.len());
            assert(v@.subrange(0, 8) =~= v@);
        }
    }

    /// The text of the address.
    pub fn to_string(self) -> (s: String)
        ensures
            s@ == ipv6_text(self),
    {
        let mut s = String::new();
        self.push_to(&mut s);
        assert(s@ =~= ipv6_text(self));
        s
    }
}

/// The value of a hexadecimal group: one to four digits.
pub open spec fn hextet_value(p: Seq<char>) -> Option<int> {
    if 1 <= p.len() <= 4 {
        digits_value(p, 16)
    } else {
        None
    }
}

/// The segments that a list of groups writes. With `v4` the last group may be an IPv4 address,
/// which stands for two segments.
pub open spec fn groups_of(p: Seq<Seq<char>>, v4: bool) -> Option<Seq<u16>>
    decreases p.len(),
{
    if p.len() == 0 {
        Some(Seq::empty())
    } else {
        match (groups_of(p.drop_last(), false), hextet_value(p.last()), ipv4_of(p.last())) {
            (Some(g), Some(h), _) => Some(g.push(h as u16)),
            (Some(g), None, Some(a)) => if v4 {
                Some(g.push((a.bits / 65536) as u16).push((a.bits % 65536) as u16))
            } else {
                None
            },
            _ => None,
        }
    }
}

/// The segments that colon-separated groups write; none where the text is empty.
pub open spec fn groups(s: Seq<char>, v4: bool) -> Option<Seq<u16>> {
    if s.len() == 0 {
        Some(Seq::empty())
    } else {
        groups_of(split(s, ':'), v4)
    }
}

/// The first position of `::`, or the length of `s` where there is none.
pub open spec fn find_gap(s: Seq<char>) -> nat
    decreases s.len(),
{
    if s.len() == 0 || (s.len() > 1 && s[0] == ':' && s[1] == ':') {
        0
    } else {
        1 + find_gap(s.skip(1))
    }
}

/// The IPv6 address that `s` writes: eight segments, or at most seven with `::` for the zero
/// segments between them.
pub open spec fn ipv6_of(s: Seq<char>) -> Option<Ipv6Addr> {
    let i = find_gap(s) as int;
    if i < s.len() {
        match (groups(s.take(i), false), groups(s.skip(i + 2), true)) {
            (Some(h), Some(t)) => if h.len() + t.len() <= 7 {
                Some(ipv6_from(h + Seq::new((8 - h.len() - t.len()) as nat, |k: int| 0u16) + t))
            } else {
                None
            },
            _ => None,
        }
    } else {
        match groups(s, true) {
            Some(g) => if g.len() == 8 {
                Some(ipv6_from(g))
            } else {
                None
            },
            None => None,
        }
    }
}

proof fn hextet_bound(p: Seq<char>)
    ensures
        hextet_value(p) matches Some(v) ==> 0 <= v <= 65535,
{
    if 1 <= p.len() <= 4 {
        reveal_with_fuel(digits_value, 5);
    }
}

fn parse_hextet(p: &Vec<char>) -> (r: Option<u16>)
    ensures
        match r {
            Some(v) => hextet_value(p@) == Some(v as int),
            None => hextet_value(p@) is None,
        },
{
    proof {
        hextet_bound(p@);
    }
    if p.len() < 1 || p.len() > 4 {
        return None;
    }
    assert(p@.skip(0) =~= p@);
    match parse_digits(p, 0, 16, 65535) {
        Some(v) => Some(v as u16),
        None => None,
    }
}

fn parse_groups(v: &Vec<char>, from: usize, to: usize, v4: bool) -> (r: Option<Vec<u16>>)
    requires
        from <= to <= v@.len(),
    ensures
        match r {
            Some(g) => groups(v@.subrange(from as int, to as int), v4) == Some(g@),
            None => groups(v@.subrange(from as int, to as int), v4) is None,
        },
{
    let mut g: Vec<u16> = Vec::new();
    if from == to {
        return Some(g);
    }
    let s = sub_chars(v, from, to);
    let p = split_at_char(&s, ':');
    let ghost pieces = split(s@, ':');
    let last: usize = p.len() - 1;
    for i in 0..last
        invariant
            last == pieces.len() - 1,
            views(p@) == pieces,
            from < to <= v@.len(),
            pieces == split(v@.subrange(from as int, to as int), ':'),
            groups_of(pieces.take(i as int), false) == Some(g@),
    {
        let ghost next = pieces.take(i + 1);
        assert(next.drop_last() =~= pieces.take(i as int));
        assert(next.last() == p@[i as int]@);
        match parse_hextet(&p[i]) {
            Some(h) => {
                g.push(h);
            },
            None => {
                proof {
                    groups_prefix(pieces, i + 1, v4);
                }
                return None;
            },
        }
    }
    assert(pieces.drop_last() =~= pieces.take(last as int));
    assert(pieces.last() == p@[last as int]@);
    match parse_hextet(&p[last]) {
        Some(h) => {
            g.push(h);
            Some(g)
        },
        None => {
            if !v4 {
                return None;
            }
            match parse_ipv4(&p[last]) {
                Some(a) => {
                    g.push((a.bits / 65536) as u16);
                    g.push((a.bits % 65536) as u16);
                    Some(g)
                },
                None => None,
            }
        },
    }
}

proof fn groups_prefix(p: Seq<Seq<char>>, n: int, v4: bool)
    requires
        0 < n < p.len(),
        groups_of(p.take(n), false) is None,
    ensures
        groups_of(p, v4) is None,
    decreases p.len(),
{
    if n == p.len() - 1 {
        assert(p.drop_last() =~= p.take(n));
    } else {
        assert(p.drop_last().take(n) =~= p.take(n));
        groups_prefix(p.drop_last(), n, false);
    }
}

pub proof fn find_gap_unique(s: Seq<char>, i: int)
    requires
        0 <= i <= s.len(),
        i < s.len() ==> i + 1 < s.len() && s[i] == ':' && s[i + 1] == ':',
        forall|k: int| 0 <= k < i && k + 1 < s.len()
            ==> !(s[k] == ':' && #[trigger] s[k + 1] == ':'),
    ensures
        find_gap(s) == i,
    decreases s.len(),
{
    if i > 0 {
        let t = s.skip(1);
        if s.len() > 1 {
            assert(!(s[0] == ':' && s[0int + 1] == ':'));
        }
        assert forall|k: int| 0 <= k < i - 1 && k + 1 < t.len() implies !(t[k] == ':'
            && #[trigger] t[k + 1] == ':') by {
            assert(t[k] == s[k + 1] && t[k + 1] == s[(k + 1) + 1]);
        }
        find_gap_unique(t, i - 1);
    }
}

/// Reads the text of an IPv6 address, as [`ipv6_of`] says.
pub fn parse_ipv6(v: &Vec<char>) -> (r: Option<Ipv6Addr>)
    ensures
        r == ipv6_of(v@),
{
    let n: usize = v.len();
    let mut i: usize = 0;
    while i < n && !(i + 1 < n && v[i] == ':' && v[i + 1] == ':')
        invariant
            n == v@.len(),
            i <= n,
            forall|k: int|
                0 <= k < i && k + 1 < v@.len() ==> !(v@[k] == ':' && #[trigger] v@[k + 1] == ':'),
        decreases n - i,
    {
        i += 1;
    }
    proof {
        find_gap_unique(v@, i as int);
    }
    let mut all: Vec<u16> = Vec::new();
    if i < n {
        assert(v@.subrange(0, i as int) =~= v@.take(i as int));
        assert(v@.subrange(i + 2, n as int) =~= v@.skip(i + 2));
        let head = match parse_groups(v, 0, i, false) {
            Some(h) => h,
            None => {
                return None;
            },
        };
        let tail = match parse_groups(v, i + 2, n, true) {
            Some(t) => t,
            None => {
                return None;
            },
        };
        if head.len() > 7 || tail.len() > 7 || head.len() + tail.len() > 7 {
            return None;
        }
        let zeros: usize = 8 - head.len() - tail.len();
        for k in 0..head.len()
            invariant
                all@ == head@.take(k as int),
        {
            all.push(head[k]);
        }
        for k in 0..zeros
            invariant
                all@ == head@ + Seq::new(k as nat, |j: int| 0u16),
        {
            all.push(0);
        }
        for k in 0..tail.len()
            invariant
                all@ == head@ + Seq::new(zeros as nat, |j: int| 0u16) + tail@.take(k as int),
        {
            all.push(tail[k]);
        }
        assert(all@ =~= head@ + Seq::new(zeros as nat, |j: int| 0u16) + tail@);
        assert(Seq::new(zeros as nat, |j: int| 0u16) =~= Seq::new(
            (8 - head@.len() - tail@.len()) as nat,
            |k: int| 0u16,
        ));
    } else {
        assert(v@.subrange(0, n as int) =~= v@);
        all =
        match parse_groups(v, 0, n, true) {
            Some(g) => g,
            None => {
                return None;
            },
        };
        if all.len() != 8 {
            return None;
        }
    }
    Some(
        Ipv6Addr {
            s0: all[0],
            s1: all[1],
            s2: all[2],
            s3: all[3],
            s4: all[4],
            s5: all[5],
            s6: all[6],
            s7: all[7],
        },
    )
}

// ---------------------------------------------------------------------------
// IPv6 prefixes
// ---------------------------------------------------------------------------

/// An IPv6 prefix: the network address and the number of its leading bits that count.
#[derive(Clone, Copy, Debug, PartialEq, Eq, Structural)]
pub struct Cidr6 {
    pub addr: Ipv6Addr,
    pub prefix: u8,
}

/// A segment with all but its leading `keep` bits cleared.
pub open spec fn leading_bits(s: u16, keep: int) -> u16 {
    if keep >= 16 {
        s
    } else if keep <= 0 {
        0
    } else {
        (s - s as int % (pow2((16 - keep) as nat) as int)) as u16
    }
}

/// An address with all but the leading `prefix` bits cleared.
pub open spec fn network_address6(a: Ipv6Addr, prefix: int) -> Ipv6Addr {
    Ipv6Addr {
        s0: leading_bits(a.s0, prefix),
        s1: leading_bits(a.s1, prefix - 16),
        s2: leading_bits(a.s2, prefix - 32),
        s3: leading_bits(a.s3, prefix - 48),
        s4: leading_bits(a.s4, prefix - 64),
        s5: leading_bits(a.s5, prefix - 80),
        s6: leading_bits(a.s6, prefix - 96),
        s7: leading_bits(a.s7, prefix - 112),
    }
}

/// The prefix that `s` writes as `address/length`, its host bits cleared.
pub open spec fn cidr_v6_of(s: Seq<char>) -> Option<Cidr6> {
    let i = find_char(s, '/') as int;
    if i < s.len() {
        match (ipv6_of(s.take(i)), unsigned_value(s.skip(i + 1), 10, 255)) {
            (Some(a), Some(p)) => if p <= 128 {
                Some(Cidr6 { addr: network_address6(a, p), prefix: p as u8 })
            } else {
                None
            },
            _ => None,
        }
    } else {
        None
    }
}

fn keep_leading_bits(s: u16, prefix: u8, at: u8) -> (r: u16)
    requires
        prefix <= 128,
        at <= 112,
    ensures
        r == leading_bits(s, prefix - at),
{
    if prefix as u32 >= at as u32 + 16 {
        s
    } else if prefix <= at {
        0
    } else {
        let unit: u64 = power_of_two(16 - (prefix - at) as u32);
        let n: u64 = s as u64;
        assert(n % unit <= n) by (nonlinear_arith)
            requires
                unit > 0,
        ;
        (n - n % unit) as u16
    }
}

/// Clears all but the leading `prefix` bits of an address.
pub fn clear_host_bits6(a: Ipv6Addr, prefix: u8) -> (r: Ipv6Addr)
    requires
        prefix <= 128,
    ensures
        r == network_address6(a, prefix as int),
{
    Ipv6Addr {
        s0: keep_leading_bits(a.s0, prefix, 0),
        s1: keep_leading_bits(a.s1, prefix, 16),
        s2: keep_leading_bits(a.s2, prefix, 32),
        s3: keep_leading_bits(a.s3, prefix, 48),
        s4: keep_leading_bits(a.s4, prefix, 64),
        s5: keep_leading_bits(a.s5, prefix, 80),
        s6: keep_leading_bits(a.s6, prefix, 96),
        s7: keep_leading_bits(a.s7, prefix, 112),
    }
}

/// Reads an IPv6 prefix in `address/length` form and clears its host bits.
pub fn parse_cidr_v6(s: &str) -> (r: Option<Cidr6>)
    ensures
        r == cidr_v6_of(s@),
{
    let v = chars_of(s);
    assert(v@.skip(0) =~= v@);
    let i: usize = find_from(&v, '/', 0);
    if i == v.len() {
        return None;
    }
    let addr = sub_chars(&v, 0, i);
    let len = sub_chars(&v, i + 1, v.len());
    assert(addr@ =~= s@.take(i as int));
    assert(len@ =~= s@.skip(i + 1));
    match (parse_ipv6(&addr), parse_unsigned(&len, 10, 255)) {
        (Some(a), Some(p)) => {
            if p > 128 {
                return None;
            }
            Some(Cidr6 { addr: clear_host_bits6(a, p as u8), prefix: p as u8 })
        },
        _ => None,
    }
}

/// The text of an IPv6 prefix.
pub open spec fn cidr6_text(c: Cidr6) -> Seq<char> {
    ipv6_text(c.addr).push('/') + decimal(c.prefix as nat)
}

impl Cidr6 {
    /// The `address/length` text.
    pub fn to_string(&self) -> (s: String)
        ensures
            s@ == cidr6_text(*self),
    {
        let mut s = self.addr.to_string();
        s.push('/');
        push_decimal(&mut s, self.prefix as u64);
        s
    }
}

// ---------------------------------------------------------------------------
// Either family
// ---------------------------------------------------------------------------

/// The address, of either family, that `s` writes.
pub open spec fn ip_of(s: Seq<char>) -> Option<IpAddr> {
    match ipv4_of(s) {
        Some(a) => Some(IpAddr::V4(a)),
        None => match ipv6_of(s) {
            Some(a) => Some(IpAddr::V6(a)),
            None => None,
        },
    }
}

/// The text of an address of either family.
pub open spec fn ip_text(a: IpAddr) -> Seq<char> {
    match a {
        IpAddr::V4(a) => ipv4_text(a),
        IpAddr::V6(a) => ipv6_text(a),
    }
}

/// Reads an address of either family, as [`ip_of`] says.
pub fn parse_ip(v: &Vec<char>) -> (r: Option<IpAddr>)
    ensures
        r == ip_of(v@),
{
    match parse_ipv4(v) {
        Some(a) => Some(IpAddr::V4(a)),
        None => match parse_ipv6(v) {
            Some(a) => Some(IpAddr::V6(a)),
            None => None,
        },
    }
}

impl IpAddr {
    /// Reads the text of an address.
    pub fn parse(s: &str) -> (r: Option<IpAddr>)
        ensures
            r == ip_of(s@),
    {
        parse_ip(&chars_of(s))
    }

    /// The text of the address.
    pub fn to_string(self) -> (s: String)
        ensures
            s@ == ip_text(self),
    {
        match self {
            IpAddr::V4(a) => a.to_string(),
            IpAddr::V6(a) => a.to_string(),
        }
    }
}

impl Ipv6Addr {
    /// Reads the text of an address.
    pub fn parse(s: &str) -> (r: Option<Ipv6Addr>)
        ensures
            r == ipv6_of(s@),
    {
        parse_ipv6(&chars_of(s))
    }
}

// ---------------------------------------------------------------------------
// MAC addresses
// ---------------------------------------------------------------------------

/// A MAC address as six colon-separated pairs of lower-case hexadecimal digits.
pub open spec fn mac_text(m: [u8; 6]) -> Seq<char> {
    hex_pair(m[0]).push(':') + (hex_pair(m[1]).push(':') + (hex_pair(m[2]).push(':') + (hex_pair(
        m[3],
    ).push(':') + (hex_pair(m[4]).push(':') + hex_pair(m[5])))))
}

/// The byte that a pair of hexadecimal digits writes.
pub open spec fn mac_byte(p: Seq<char>) -> Option<int> {
    if p.len() == 2 {
        digits_value(p, 16)
    } else {
        None
    }
}

/// The MAC address that `s` writes: exactly six colon-separated bytes of two hexadecimal digits.
pub open spec fn mac_from(s: Seq<char>) -> Option<[u8; 6]> {
    let p = split(s, ':');
    if p.len() == 6 && (forall|i: int| 0 <= i < 6 ==> mac_byte(#[trigger] p[i]) is Some) {
        Some(
            [
                mac_byte(p[0])->0 as u8,
                mac_byte(p[1])->0 as u8,
                mac_byte(p[2])->0 as u8,
                mac_byte(p[3])->0 as u8,
                mac_byte(p[4])->0 as u8,
                mac_byte(p[5])->0 as u8,
            ],
        )
    } else {
        None
    }
}

/// The address of one station: neither that of a group nor all zero.
pub open spec fn is_station(m: [u8; 6]) -> bool {
    m[0] % 2 == 0 && m@ != seq![0u8, 0, 0, 0, 0, 0]
}

/// Decides [`is_station`].
pub fn names_station(m: [u8; 6]) -> (r: bool)
    ensures
        r == is_station(m),
{
    let zero = m[0] == 0 && m[1] == 0 && m[2] == 0 && m[3] == 0 && m[4] == 0 && m[5] == 0;
    assert(zero ==> m@ =~= seq![0u8, 0, 0, 0, 0, 0]);
    m[0] % 2 == 0 && !zero
}

/// What is wrong with a text that writes no MAC address.
pub open spec fn mac_fault() -> Seq<char> {
    "expected six pairs of hexadecimal digits"@
}

/// Tells what is wrong with a text that writes no MAC address.
pub fn mac_fault_text() -> (r: &'static str)
    ensures
        r@ == mac_fault(),
{
    "expected six pairs of hexadecimal digits"
}

/// What is wrong with a text that writes no prefix of the family.
pub open spec fn cidr_fault(v6: bool) -> Seq<char> {
    if v6 {
        "expected an IPv6 address, a slash and a length up to 128"@
    } else {
        "expected an IPv4 address, a slash and a length up to 32"@
    }
}

/// Tells what is wrong with a text that writes no prefix of the family.
pub fn cidr_fault_text(v6: bool) -> (r: &'static str)
    ensures
        r@ == cidr_fault(v6),
{
    if v6 {
        "expected an IPv6 address, a slash and a length up to 128"
    } else {
        "expected an IPv4 address, a slash and a length up to 32"
    }
}

/// Formats a MAC address as lower-case hexadecimal pairs.
pub fn fmt_mac(mac: [u8; 6]) -> (s: String)
    ensures
        s@ == mac_text(mac),
{
    let mut s = String::new();
    push_hex_pair(&mut s, mac[0]);
    s.push(':');
    push_hex_pair(&mut s, mac[1]);
    s.push(':');
    push_hex_pair(&mut s, mac[2]);
    s.push(':');
    push_hex_pair(&mut s, mac[3]);
    s.push(':');
    push_hex_pair(&mut s, mac[4]);
    s.push(':');
    push_hex_pair(&mut s, mac[5]);
    assert(s@ =~= mac_text(mac));
    s
}

fn parse_mac_byte(p: &Vec<char>) -> (r: Option<u8>)
    ensures
        match r {
            Some(b) => mac_byte(p@) == Some(b as int),
            None => mac_byte(p@) is None,
        },
{
    if p.len() != 2 {
        return None;
    }
    proof {
        reveal_with_fuel(digits_value, 3);
        assert(p@.skip(0) =~= p@);
    }
    match parse_digits(p, 0, 16, 255) {
        Some(v) => Some(v as u8),
        None => None,
    }
}

/// Reads a MAC address from characters.
pub fn parse_mac_chars(v: &Vec<char>) -> (r: Option<[u8; 6]>)
    ensures
        r == mac_from(v@),
{
    let p = split_at_char(v, ':');
    let ghost pieces = split(v@, ':');
    if p.len() != 6 {
        return None;
    }
    let mut mac: [u8; 6] = [0, 0, 0, 0, 0, 0];
    for i in 0..6
        invariant
            p@.len() == 6,
            views(p@) == pieces,
            pieces == split(v@, ':'),
            forall|j: int| 0 <= j < i ==> mac_byte(#[trigger] pieces[j]) == Some(mac[j] as int),
    {
        assert(pieces[i as int] == p@[i as int]@);
        match parse_mac_byte(&p[i]) {
            Some(b) => {
                mac[i] = b;
            },
            None => {
                return None;
            },
        }
    }
    proof {
        let m = mac_from(v@)->0;
        assert forall|i: int| 0 <= i < 6 implies mac[i] == m[i] by {
            assert(mac_byte(pieces[i]) == Some(mac[i] as int));
        }
        assert(mac =~= m);
    }
    Some(mac)
}

/// Reads a MAC address, as [`mac_from`] says.
pub fn parse_mac(s: &str) -> (r: Option<[u8; 6]>)
    ensures
        r == mac_from(s@),
{
    parse_mac_chars(&chars_of(s))
}

proof fn hex_pair_value(b: u8)
    ensures
        mac_byte(hex_pair(b)) == Some(b as int),
        hex_pair(b).len() == 2,
        hex_pair(b)[0] != ':',
        hex_pair(b)[1] != ':',
{
    let s = hex_pair(b);
    reveal_with_fuel(digits_value, 3);
    assert(s.drop_last() =~= seq![s[0]]);
    assert(s.drop_last().drop_last() =~= Seq::<char>::empty());
    assert(digit_value(s[0], 16) == Some(b as int / 16));
    assert(digit_value(s[1], 16) == Some(b as int % 16));
}

/// Reading back the text of a MAC address gives the address.
pub proof fn mac_text_round_trip(m: [u8; 6])
    ensures
        mac_from(mac_text(m)) == Some(m),
{
    hex_pair_value(m[0]);
    hex_pair_value(m[1]);
    hex_pair_value(m[2]);
    hex_pair_value(m[3]);
    hex_pair_value(m[4]);
    hex_pair_value(m[5]);
    let h5 = hex_pair(m[5]);
    let h4 = hex_pair(m[4]).push(':') + h5;
    let h3 = hex_pair(m[3]).push(':') + h4;
    let h2 = hex_pair(m[2]).push(':') + h3;
    let h1 = hex_pair(m[1]).push(':') + h2;
    split_whole(h5, ':');
    split_prefix(hex_pair(m[4]), ':', h5);
    split_prefix(hex_pair(m[3]), ':', h4);
    split_prefix(hex_pair(m[2]), ':', h3);
    split_prefix(hex_pair(m[1]), ':', h2);
    split_prefix(hex_pair(m[0]), ':', h1);
    assert(split(mac_text(m), ':') =~= seq![
        hex_pair(m[0]),
        hex_pair(m[1]),
        hex_pair(m[2]),
        hex_pair(m[3]),
        hex_pair(m[4]),
        hex_pair(m[5]),
    ]);
    assert(mac_from(mac_text(m))->0 =~= m);
}

} // verus!
