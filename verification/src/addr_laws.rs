//! Reading back what was written: the texts of addresses and prefixes determine them.

use vstd::arithmetic::power2::{lemma_pow2_pos, pow2};
use vstd::prelude::*;

use crate::addr::{
    cidr4_text, cidr6_text, cidr_v4_of, cidr_v6_of, find_gap_unique, groups, groups_of, hex_groups,
    hextet_value, ip_of, ip_text, ipv4_of, ipv4_text, ipv4_text_round_trip, ipv6_of, ipv6_text,
    is_ipv4_mapped, leading_bits, longest_zero_run, longest_zero_run_bounds, mac_byte, mac_from,
    network_address, network_address6, octet, octets_determined, octets_of, octets_recombine,
    octets_value, split_prefix, split_whole, zero_run, zero_run_bounds, Cidr4, Cidr6, IpAddr,
    Ipv4Addr, Ipv6Addr,
};
use crate::text::{
    decimal, digits_value, find_char, find_char_unique, hexadecimal, split, unsigned_value,
};

verus! {

// ---------------------------------------------------------------------------
// Numbers
// ---------------------------------------------------------------------------

/// Reading back a number in decimal gives the number.
pub proof fn decimal_round_trip(n: nat)
    ensures
        decimal(n).len() > 0,
        digits_value(decimal(n), 10) == Some(n as int),
        forall|k: int| 0 <= k < decimal(n).len() ==> 48 <= #[trigger] decimal(n)[k] as int <= 57,
    decreases n,
{
    if n < 10 {
        assert(decimal(n).drop_last() =~= Seq::<char>::empty());
        assert(digits_value(Seq::<char>::empty(), 10) == Some(0int));
    } else {
        decimal_round_trip(n / 10);
        assert(decimal(n).drop_last() =~= decimal(n / 10));
    }
}

/// A number in decimal is read back where it is not above the largest number allowed.
pub proof fn unsigned_round_trip(n: nat, max: int)
    requires
        n <= max,
    ensures
        unsigned_value(decimal(n), 10, max) == Some(n as int),
{
    decimal_round_trip(n);
    assert(decimal(n)[0] != '+');
}

/// Reading back a number in hexadecimal gives the number.
pub proof fn hexadecimal_round_trip(n: nat)
    ensures
        hexadecimal(n).len() > 0,
        digits_value(hexadecimal(n), 16) == Some(n as int),
        forall|k: int| 0 <= k < hexadecimal(n).len() ==> hex_digit(#[trigger] hexadecimal(n)[k]),
    decreases n,
{
    if n < 16 {
        assert(hexadecimal(n).drop_last() =~= Seq::<char>::empty());
        assert(digits_value(Seq::<char>::empty(), 16) == Some(0int));
    } else {
        hexadecimal_round_trip(n / 16);
        assert(hexadecimal(n).drop_last() =~= hexadecimal(n / 16));
    }
}

/// A decimal or lower-case hexadecimal digit.
pub open spec fn hex_digit(c: char) -> bool {
    48 <= c as int <= 57 || 97 <= c as int <= 102
}

/// A segment in hexadecimal is a group that is read back.
proof fn hextet_round_trip(n: u16)
    ensures
        hextet_value(hexadecimal(n as nat)) == Some(n as int),
{
    hexadecimal_round_trip(n as nat);
    assert(hexadecimal(n as nat).len() <= 4) by {
        reveal_with_fuel(hexadecimal, 5);
    }
}

// ---------------------------------------------------------------------------
// Groups of segments
// ---------------------------------------------------------------------------

proof fn hex_groups_first(s: Seq<u16>)
    requires
        s.len() >= 2,
    ensures
        hex_groups(s) == hexadecimal(s[0] as nat).push(':') + hex_groups(s.skip(1)),
    decreases s.len(),
{
    if s.len() == 2 {
        assert(s.drop_last() =~= seq![s[0]]);
        assert(s.skip(1) =~= seq![s[1]]);
        assert(hex_groups(seq![s[0]]) == hexadecimal(s[0] as nat));
        assert(hex_groups(seq![s[1]]) == hexadecimal(s[1] as nat));
    } else {
        hex_groups_first(s.drop_last());
        assert(s.drop_last().skip(1) =~= s.skip(1).drop_last());
        assert(hex_groups(s) =~= hexadecimal(s[0] as nat).push(':') + hex_groups(s.skip(1)));
    }
}

/// The segments as groups.
spec fn pieces(s: Seq<u16>) -> Seq<Seq<char>> {
    Seq::new(s.len(), |i: int| hexadecimal(s[i] as nat))
}

proof fn hex_groups_split(s: Seq<u16>)
    requires
        s.len() > 0,
    ensures
        split(hex_groups(s), ':') == pieces(s),
    decreases s.len(),
{
    hexadecimal_round_trip(s[0] as nat);
    if s.len() == 1 {
        split_whole(hexadecimal(s[0] as nat), ':');
        assert(pieces(s) =~= seq![hexadecimal(s[0] as nat)]);
    } else {
        hex_groups_first(s);
        hex_groups_split(s.skip(1));
        split_prefix(hexadecimal(s[0] as nat), ':', hex_groups(s.skip(1)));
        assert(pieces(s) =~= seq![hexadecimal(s[0] as nat)] + pieces(s.skip(1)));
    }
}

proof fn pieces_groups(s: Seq<u16>, v4: bool)
    ensures
        groups_of(pieces(s), v4) == Some(s),
    decreases s.len(),
{
    if s.len() == 0 {
        assert(s =~= Seq::empty());
    } else {
        pieces_groups(s.drop_last(), false);
        assert(pieces(s).drop_last() =~= pieces(s.drop_last()));
        hextet_round_trip(s.last());
        assert(s.drop_last().push(s.last()) =~= s);
    }
}

/// No colon stands at either end, and none beside another.
spec fn single_colons(t: Seq<char>) -> bool {
    forall|k: int|
        0 <= k < t.len() && #[trigger] t[k] == ':' ==> 0 < k && k + 1 < t.len() && t[k + 1] != ':'
}

proof fn hex_groups_chars(s: Seq<u16>)
    ensures
        s.len() > 0 ==> hex_groups(s).len() > 0,
        s.len() > 1 ==> exists|k: int| 0 <= k < hex_groups(s).len() && hex_groups(s)[k] == ':',
        single_colons(hex_groups(s)),
        forall|k: int|
            0 <= k < hex_groups(s).len() ==> hex_digit(#[trigger] hex_groups(s)[k])
                || hex_groups(s)[k] == ':',
    decreases s.len(),
{
    if s.len() > 0 {
        hexadecimal_round_trip(s.last() as nat);
        let h = hexadecimal(s.last() as nat);
        assert forall|k: int| 0 <= k < h.len() implies #[trigger] h[k] != ':' by {
            assert(hex_digit(h[k]));
        }
        if s.len() > 1 {
            let d = hex_groups(s.drop_last());
            let t = d.push(':') + h;
            hex_groups_chars(s.drop_last());
            assert(t[d.len() as int] == ':');
            assert forall|k: int| 0 <= k < t.len() && #[trigger] t[k] == ':' implies 0 < k && k + 1
                < t.len() && t[k + 1] != ':' by {
                if k < d.len() {
                    assert(d[k] == ':');
                    assert(t[k + 1] == d[k + 1]);
                } else if k == d.len() {
                    assert(t[k + 1] == h[0]);
                } else {
                    assert(t[k] == h[k - d.len() - 1]);
                }
            }
            assert forall|k: int| 0 <= k < t.len() implies hex_digit(#[trigger] t[k]) || t[k]
                == ':' by {
                if k < d.len() {
                    assert(t[k] == d[k]);
                } else if k > d.len() {
                    assert(t[k] == h[k - d.len() - 1]);
                }
            }
        }
    }
}

proof fn groups_round_trip(s: Seq<u16>, v4: bool)
    ensures
        groups(hex_groups(s), v4) == Some(s),
{
    if s.len() > 0 {
        hex_groups_chars(s);
        hex_groups_split(s);
        pieces_groups(s, v4);
    } else {
        assert(s =~= Seq::empty());
    }
}

// ---------------------------------------------------------------------------
// IPv6 addresses
// ---------------------------------------------------------------------------

proof fn zero_run_zeros(s: Seq<u16>, i: int)
    requires
        0 <= i <= s.len(),
    ensures
        forall|k: int| i <= k < i + zero_run(s, i) ==> #[trigger] s[k] == 0,
    decreases s.len() - i,
{
    zero_run_bounds(s, i);
    if i < s.len() && s[i] == 0 {
        zero_run_zeros(s, i + 1);
    }
}

proof fn longest_zero_run_zeros(s: Seq<u16>, i: int)
    requires
        0 <= i <= s.len(),
    ensures
        ({
            let run = longest_zero_run(s, i);
            forall|k: int| run.0 <= k < run.0 + run.1 ==> #[trigger] s[k] == 0
        }),
    decreases s.len() - i,
{
    if i < s.len() {
        longest_zero_run_zeros(s, i + 1);
        zero_run_zeros(s, i);
    }
}

proof fn compressed_round_trip(a: Ipv6Addr)
    requires
        !is_ipv4_mapped(a),
        longest_zero_run(a.segments(), 0).1 > 1,
    ensures
        ipv6_of(ipv6_text(a)) == Some(a),
{
    let s = a.segments();
    let run = longest_zero_run(s, 0);
    longest_zero_run_bounds(s, 0);
    longest_zero_run_zeros(s, 0);
    let h = s.take(run.0);
    let t = s.skip(run.0 + run.1);
    let x = hex_groups(h);
    let y = hex_groups(t);
    let text = x + seq![':', ':'] + y;
    hex_groups_chars(h);
    let i = x.len() as int;
    assert(text[i] == ':' && text[i + 1] == ':');
    assert forall|k: int| 0 <= k < i && k + 1 < text.len() implies !(text[k] == ':'
        && #[trigger] text[k + 1] == ':') by {
        assert(text[k] == x[k]);
        if k + 1 < i {
            assert(text[k + 1] == x[k + 1]);
        }
    }
    find_gap_unique(text, i);
    assert(text.take(i) =~= x);
    assert(text.skip(i + 2) =~= y);
    groups_round_trip(h, false);
    groups_round_trip(t, true);
    let zeros = Seq::new((8 - h.len() - t.len()) as nat, |k: int| 0u16);
    assert(h + zeros + t =~= s) by {
        assert forall|k: int| 0 <= k < 8 implies (h + zeros + t)[k] == s[k] by {}
    }
}

proof fn plain_round_trip(a: Ipv6Addr)
    requires
        !is_ipv4_mapped(a),
        longest_zero_run(a.segments(), 0).1 <= 1,
    ensures
        ipv6_of(ipv6_text(a)) == Some(a),
{
    let s = a.segments();
    let text = hex_groups(s);
    hex_groups_chars(s);
    assert forall|k: int| 0 <= k < text.len() && k + 1 < text.len() implies !(text[k] == ':'
        && #[trigger] text[k + 1] == ':') by {}
    find_gap_unique(text, text.len() as int);
    groups_round_trip(s, true);
}

/// The characters of an IPv4 address in text form.
proof fn ipv4_text_chars(a: Ipv4Addr)
    ensures
        ipv4_text(a).len() >= 7,
        forall|k: int|
            0 <= k < ipv4_text(a).len() ==> 48 <= #[trigger] ipv4_text(a)[k] as int <= 57
                || ipv4_text(a)[k] == '.',
{
    decimal_round_trip(octet(a.bits, 0) as nat);
    decimal_round_trip(octet(a.bits, 1) as nat);
    decimal_round_trip(octet(a.bits, 2) as nat);
    decimal_round_trip(octet(a.bits, 3) as nat);
}

proof fn mapped_hextet()
    ensures
        hextet_value(seq!['f', 'f', 'f', 'f']) == Some(0xffffint),
{
    let f = seq!['f', 'f', 'f', 'f'];
    reveal_with_fuel(digits_value, 5);
    assert(f.drop_last() =~= seq!['f', 'f', 'f']);
    assert(f.drop_last().drop_last() =~= seq!['f', 'f']);
    assert(f.drop_last().drop_last().drop_last() =~= seq!['f']);
    assert(f.drop_last().drop_last().drop_last().drop_last() =~= Seq::<char>::empty());
}

proof fn mapped_groups(v4: Ipv4Addr)
    ensures
        groups(seq!['f', 'f', 'f', 'f', ':'] + ipv4_text(v4), true) == Some(
            seq![0xffffu16, (v4.bits / 65536) as u16, (v4.bits % 65536) as u16],
        ),
{
    let x = ipv4_text(v4);
    let f = seq!['f', 'f', 'f', 'f'];
    let tail = seq!['f', 'f', 'f', 'f', ':'] + x;
    assert(tail =~= f.push(':') + x);
    ipv4_text_chars(v4);
    ipv4_text_round_trip(v4);
    assert forall|k: int| 0 <= k < x.len() implies #[trigger] x[k] != ':' by {}
    split_prefix(f, ':', x);
    split_whole(x, ':');
    let p = seq![f] + seq![x];
    assert(split(tail, ':') == p);
    assert(p.drop_last() =~= seq![f]);
    assert(p.last() == x);
    assert(seq![f].drop_last() =~= Seq::<Seq<char>>::empty());
    assert(seq![f].last() == f);
    mapped_hextet();
    assert(groups_of(Seq::<Seq<char>>::empty(), false) == Some(Seq::<u16>::empty()));
    let one = Seq::<u16>::empty().push(0xffffu16);
    assert(groups_of(seq![f], false) == Some(one));
    assert(hextet_value(x) is None);
    assert(groups_of(p, true) == Some(
        one.push((v4.bits / 65536) as u16).push((v4.bits % 65536) as u16),
    ));
    assert(one.push((v4.bits / 65536) as u16).push((v4.bits % 65536) as u16) =~= seq![
        0xffffu16,
        (v4.bits / 65536) as u16,
        (v4.bits % 65536) as u16,
    ]);
}

proof fn mapped_round_trip(a: Ipv6Addr)
    requires
        is_ipv4_mapped(a),
    ensures
        ipv6_of(ipv6_text(a)) == Some(a),
{
    let v4 = Ipv4Addr { bits: (a.s6 * 65536 + a.s7) as u32 };
    let text = seq![':', ':', 'f', 'f', 'f', 'f', ':'] + ipv4_text(v4);
    find_gap_unique(text, 0);
    assert(text.take(0) =~= Seq::<char>::empty());
    assert(text.skip(2) =~= seq!['f', 'f', 'f', 'f', ':'] + ipv4_text(v4));
    mapped_groups(v4);
    assert(v4.bits / 65536 == a.s6 && v4.bits % 65536 == a.s7);
    let t = seq![0xffffu16, a.s6, a.s7];
    let zeros = Seq::new(5, |k: int| 0u16);
    assert(Seq::<u16>::empty() + zeros + t =~= a.segments());
}

/// Reading back the text of an IPv6 address gives the address.
pub proof fn ipv6_text_round_trip(a: Ipv6Addr)
    ensures
        ipv6_of(ipv6_text(a)) == Some(a),
{
    if is_ipv4_mapped(a) {
        mapped_round_trip(a);
    } else if longest_zero_run(a.segments(), 0).1 > 1 {
        compressed_round_trip(a);
    } else {
        plain_round_trip(a);
    }
}

/// The text of an IPv6 address holds a colon, and only digits, colons and dots.
pub proof fn ipv6_text_chars(a: Ipv6Addr)
    ensures
        exists|k: int| 0 <= k < ipv6_text(a).len() && ipv6_text(a)[k] == ':',
        forall|k: int|
            0 <= k < ipv6_text(a).len() ==> hex_digit(#[trigger] ipv6_text(a)[k])
                || ipv6_text(a)[k] == ':' || ipv6_text(a)[k] == '.',
{
    let s = a.segments();
    let run = longest_zero_run(s, 0);
    if is_ipv4_mapped(a) {
        ipv4_text_chars(Ipv4Addr { bits: (a.s6 * 65536 + a.s7) as u32 });
        assert(ipv6_text(a)[0] == ':');
    } else if run.1 > 1 {
        hex_groups_chars(s.take(run.0));
        hex_groups_chars(s.skip(run.0 + run.1));
        assert(ipv6_text(a)[hex_groups(s.take(run.0)).len() as int] == ':');
    } else {
        hex_groups_chars(s);
        assert(ipv6_text(a) == hex_groups(s));
        assert(s.len() > 1);
        let k = choose|k: int| 0 <= k < hex_groups(s).len() && hex_groups(s)[k] == ':';
        assert(ipv6_text(a)[k] == ':');
    }
}

proof fn digits_are_digits(s: Seq<char>)
    requires
        digits_value(s, 10) is Some,
    ensures
        forall|k: int| 0 <= k < s.len() ==> 48 <= #[trigger] s[k] as int <= 57,
    decreases s.len(),
{
    if s.len() > 0 {
        digits_are_digits(s.drop_last());
        assert forall|k: int| 0 <= k < s.len() implies 48 <= #[trigger] s[k] as int <= 57 by {
            if k < s.len() - 1 {
                assert(s.drop_last()[k] == s[k]);
            }
        }
    }
}

proof fn split_covers(s: Seq<char>, c: char, x: char, k: int)
    requires
        0 <= k < s.len(),
        s[k] == x,
        x != c,
    ensures
        exists|i: int, j: int|
            0 <= i < split(s, c).len() && 0 <= j < split(s, c)[i].len() && #[trigger] split(
                s,
                c,
            )[i][j] == x,
    decreases s.len(),
{
    let p = split(s, c);
    let n = find_char(s, c) as int;
    crate::text::find_char_properties(s, c);
    if n >= s.len() {
        assert(p[0][k] == x);
    } else if k < n {
        assert(p[0][k] == x);
    } else {
        let t = s.skip(n + 1);
        assert(t[k - n - 1] == x);
        split_covers(t, c, x, k - n - 1);
        let (i, j) = choose|i: int, j: int|
            0 <= i < split(t, c).len() && 0 <= j < split(t, c)[i].len() && #[trigger] split(
                t,
                c,
            )[i][j] == x;
        assert(p[i + 1] == split(t, c)[i]);
        assert(p[i + 1][j] == x);
    }
}

/// Text with a colon is no IPv4 address.
pub proof fn colon_is_no_ipv4(s: Seq<char>, k: int)
    requires
        0 <= k < s.len(),
        s[k] == ':',
    ensures
        ipv4_of(s) is None,
{
    if ipv4_of(s) is Some {
        split_covers(s, '.', ':', k);
        let p = split(s, '.');
        let (i, j) = choose|i: int, j: int|
            0 <= i < p.len() && 0 <= j < p[i].len() && #[trigger] p[i][j] == ':';
        digits_are_digits(p[i]);
    }
}

/// The text of an address holds only digits, colons and dots.
pub proof fn ip_text_chars(a: IpAddr)
    ensures
        forall|k: int|
            0 <= k < ip_text(a).len() ==> hex_digit(#[trigger] ip_text(a)[k]) || ip_text(a)[k]
                == ':' || ip_text(a)[k] == '.',
{
    match a {
        IpAddr::V4(x) => {
            ipv4_text_chars(x);
        },
        IpAddr::V6(x) => {
            ipv6_text_chars(x);
        },
    }
}

/// Reading back the text of an address of either family gives the address.
pub proof fn ip_text_round_trip(a: IpAddr)
    ensures
        ip_of(ip_text(a)) == Some(a),
{
    match a {
        IpAddr::V4(x) => {
            ipv4_text_round_trip(x);
        },
        IpAddr::V6(x) => {
            ipv6_text_chars(x);
            let k = choose|k: int| 0 <= k < ipv6_text(x).len() && ipv6_text(x)[k] == ':';
            colon_is_no_ipv4(ipv6_text(x), k);
            ipv6_text_round_trip(x);
        },
    }
}

// ---------------------------------------------------------------------------
// Prefixes
// ---------------------------------------------------------------------------

/// `text/len` is split at its slash.
pub proof fn slash_split(a: Seq<char>, n: nat)
    requires
        forall|k: int| 0 <= k < a.len() ==> a[k] != '/',
    ensures
        ({
            let s = a.push('/') + decimal(n);
            &&& find_char(s, '/') == a.len()
            &&& a.len() < s.len()
            &&& s.take(a.len() as int) == a
            &&& s.skip((a.len() + 1) as int) == decimal(n)
        }),
{
    let s = a.push('/') + decimal(n);
    find_char_unique(s, '/', a.len() as int);
    assert(s.take(a.len() as int) =~= a);
    assert(s.skip((a.len() + 1) as int) =~= decimal(n));
}

impl Cidr4 {
    /// The length fits, and no host bit is set.
    pub open spec fn canonical(&self) -> bool {
        self.prefix <= 32 && self.base() % self.size() == 0
    }
}

impl Cidr6 {
    /// The length fits, and no host bit is set.
    pub open spec fn canonical(&self) -> bool {
        self.prefix <= 128 && network_address6(self.addr, self.prefix as int) == self.addr
    }
}

/// Reading back the text of an IPv4 prefix without host bits gives the prefix.
pub proof fn cidr4_text_round_trip(c: Cidr4)
    requires
        c.canonical(),
    ensures
        cidr_v4_of(cidr4_text(c)) == Some(c),
        forall|k: int| 0 <= k < cidr4_text(c).len() ==> #[trigger] cidr4_text(c)[k] != ':',
{
    let a = Ipv4Addr { bits: c.base() as u32 };
    ipv4_text_chars(a);
    ipv4_text_round_trip(a);
    slash_split(ipv4_text(a), c.prefix as nat);
    unsigned_round_trip(c.prefix as nat, 255);
    decimal_round_trip(c.prefix as nat);
    octets_recombine(a.bits);
    octets_determined(octets_of(a.bits), c.octets);
    assert(network_address(a, c.prefix as int) == a);
}

/// Reading back the text of an IPv6 prefix without host bits gives the prefix.
pub proof fn cidr6_text_round_trip(c: Cidr6)
    requires
        c.canonical(),
    ensures
        cidr_v6_of(cidr6_text(c)) == Some(c),
        exists|k: int| 0 <= k < cidr6_text(c).len() && #[trigger] cidr6_text(c)[k] == ':',
{
    ipv6_text_chars(c.addr);
    ipv6_text_round_trip(c.addr);
    slash_split(ipv6_text(c.addr), c.prefix as nat);
    unsigned_round_trip(c.prefix as nat, 255);
    let k = choose|k: int| 0 <= k < ipv6_text(c.addr).len() && ipv6_text(c.addr)[k] == ':';
    assert(cidr6_text(c)[k] == ':');
}

proof fn aligned(x: int, m: int)
    requires
        m > 0,
        x >= 0,
    ensures
        (x - x % m) % m == 0,
        0 <= x - x % m <= x,
{
    vstd::arithmetic::div_mod::lemma_fundamental_div_mod(x, m);
    vstd::arithmetic::div_mod::lemma_mod_multiples_basic(x / m, m);
    assert(x - x % m == (x / m) * m) by (nonlinear_arith)
        requires
            x == m * (x / m) + x % m,
    ;
    vstd::arithmetic::div_mod::lemma_mod_bound(x, m);
    vstd::arithmetic::div_mod::lemma_div_pos_is_pos(x, m);
    assert((x / m) * m >= 0) by (nonlinear_arith)
        requires
            x / m >= 0,
            m > 0,
    ;
}

/// A prefix that was read has no host bits.
pub proof fn cidr_v4_canonical(s: Seq<char>)
    ensures
        cidr_v4_of(s) matches Some(c) ==> c.canonical(),
{
    let i = find_char(s, '/') as int;
    if cidr_v4_of(s) is Some {
        let a = ipv4_of(s.take(i))->0;
        let p = unsigned_value(s.skip(i + 1), 10, 255)->0;
        crate::text::unsigned_value_nonnegative(s.skip(i + 1), 10, 255);
        let m = pow2((32 - p) as nat) as int;
        lemma_pow2_pos((32 - p) as nat);
        aligned(a.bits as int, m);
        octets_recombine(network_address(a, p).bits);
        let c = cidr_v4_of(s)->0;
        assert(octets_value(c.octets) == network_address(a, p).bits);
    }
}

proof fn leading_bits_again(s: u16, keep: int)
    ensures
        leading_bits(leading_bits(s, keep), keep) == leading_bits(s, keep),
{
    if 0 < keep < 16 {
        lemma_pow2_pos((16 - keep) as nat);
        aligned(s as int, pow2((16 - keep) as nat) as int);
    }
}

/// A prefix that was read has no host bits.
pub proof fn cidr_v6_canonical(s: Seq<char>)
    ensures
        cidr_v6_of(s) matches Some(c) ==> c.canonical(),
{
    let i = find_char(s, '/') as int;
    if cidr_v6_of(s) is Some {
        let a = ipv6_of(s.take(i))->0;
        let p = unsigned_value(s.skip(i + 1), 10, 255)->0;
        crate::text::unsigned_value_nonnegative(s.skip(i + 1), 10, 255);
        leading_bits_again(a.s0, p);
        leading_bits_again(a.s1, p - 16);
        leading_bits_again(a.s2, p - 32);
        leading_bits_again(a.s3, p - 48);
        leading_bits_again(a.s4, p - 64);
        leading_bits_again(a.s5, p - 80);
        leading_bits_again(a.s6, p - 96);
        leading_bits_again(a.s7, p - 112);
    }
}

/// An address of the block of a prefix without host bits is in the block.
pub proof fn block_contains(c: Cidr4, ip: Ipv4Addr)
    requires
        c.canonical(),
        c.base() <= ip.bits < c.base() + c.size(),
    ensures
        c.contains(ip),
{
    let m = c.size();
    lemma_pow2_pos((32 - c.prefix) as nat);
    let off = ip.bits - c.base();
    vstd::arithmetic::div_mod::lemma_mod_adds(c.base(), off, m);
    vstd::arithmetic::div_mod::lemma_small_mod(off as nat, m as nat);
}

/// A prefix without host bits holds the addresses from its network address on, as many as share it,
/// and no others. The prefix and what it leaves open make up the whole address space.
pub proof fn block_is_a_range(c: Cidr4, ip: Ipv4Addr)
    requires
        c.canonical(),
        c.prefix <= 32,
    ensures
        c.contains(ip) <==> c.base() <= ip.bits < c.base() + c.size(),
        c.size() * pow2(c.prefix as nat) == 0x1_0000_0000,
        c.base() == c.octets[0] * 0x100_0000 + c.octets[1] * 0x1_0000 + c.octets[2] * 0x100
            + c.octets[3],
        c.prefix > 0 ==> c.span() == c.size(),
        c.prefix == 0 ==> c.span() == c.size() - 1,
{
    let m = c.size();
    lemma_pow2_pos((32 - c.prefix) as nat);
    vstd::arithmetic::power2::lemma_pow2_adds((32 - c.prefix) as nat, c.prefix as nat);
    vstd::arithmetic::power2::lemma2_to64();
    if c.base() <= ip.bits < c.base() + m {
        block_contains(c, ip);
    }
    if c.contains(ip) {
        vstd::arithmetic::div_mod::lemma_mod_bound(ip.bits as int, m);
    }
}

// ---------------------------------------------------------------------------
// What is read, and what is not
// ---------------------------------------------------------------------------

/// One component of a dotted-decimal address: one to three digits, without a zero in front of others,
/// at most 255.
pub open spec fn is_octet(p: Seq<char>) -> bool {
    &&& 1 <= p.len() <= 3
    &&& p.len() > 1 ==> p[0] != '0'
    &&& digits_value(p, 10) matches Some(n) && n <= 255
}

/// A text writes an IPv4 address exactly where it is four components with dots between them, the first
/// the most significant.
#[verifier::spinoff_prover]
pub proof fn ipv4_is_four_octets(s: Seq<char>, p: Seq<Seq<char>>)
    requires
        p == split(s, '.'),
    ensures
        ipv4_of(s) is Some <==> p.len() == 4 && is_octet(p[0]) && is_octet(p[1]) && is_octet(p[2])
            && is_octet(p[3]),
        ipv4_of(s) matches Some(a) ==> a.bits == digits_value(p[0], 10)->0 * 0x100_0000
            + digits_value(p[1], 10)->0 * 0x1_0000 + digits_value(p[2], 10)->0 * 0x100
            + digits_value(p[3], 10)->0,
{
    if p.len() == 4 {
        crate::text::digits_value_grows(p[0], p[0].len() as int, 10);
        crate::text::digits_value_grows(p[1], p[1].len() as int, 10);
        crate::text::digits_value_grows(p[2], p[2].len() as int, 10);
        crate::text::digits_value_grows(p[3], p[3].len() as int, 10);
        octet_is_read(p[0]);
        octet_is_read(p[1]);
        octet_is_read(p[2]);
        octet_is_read(p[3]);
    }
}

proof fn octet_is_read(p: Seq<char>)
    ensures
        crate::addr::octet_value(p) is Some <==> is_octet(p),
        crate::addr::octet_value(p) matches Some(n) ==> digits_value(p, 10) == Some(n),
{
}

/// A text writes a MAC address exactly where it is six pairs of hexadecimal digits with colons between
/// them, in their order.
pub proof fn mac_is_six_pairs(s: Seq<char>, m: [u8; 6])
    ensures
        mac_from(s) == Some(m) <==> {
            let p = split(s, ':');
            &&& p.len() == 6
            &&& forall|i: int|
                0 <= i < 6 ==> (#[trigger] p[i]).len() == 2 && digits_value(p[i], 16) == Some(
                    m[i] as int,
                )
        },
{
    let p = split(s, ':');
    assert forall|i: int| 0 <= i < p.len() implies (mac_byte(#[trigger] p[i]) matches Some(v) ==> 0
        <= v <= 255) by {
        if mac_byte(p[i]) is Some {
            pair_is_a_byte(p[i]);
        }
    }
    if mac_from(s) == Some(m) {
        assert(m[0] == mac_byte(p[0])->0);
        assert(m[1] == mac_byte(p[1])->0);
        assert(m[2] == mac_byte(p[2])->0);
        assert(m[3] == mac_byte(p[3])->0);
        assert(m[4] == mac_byte(p[4])->0);
        assert(m[5] == mac_byte(p[5])->0);
        assert forall|i: int| 0 <= i < 6 implies (#[trigger] p[i]).len() == 2 && digits_value(
            p[i],
            16,
        ) == Some(m[i] as int) by {
            assert(mac_byte(p[i]) is Some);
            if i == 0 || i == 1 || i == 2 || i == 3 || i == 4 || i == 5 {
            }
        }
    }
    if p.len() == 6 && (forall|i: int|
        0 <= i < 6 ==> (#[trigger] p[i]).len() == 2 && digits_value(p[i], 16) == Some(
            m[i] as int,
        )) {
        assert forall|i: int| 0 <= i < 6 implies mac_byte(#[trigger] p[i]) is Some by {}
        let r = mac_from(s)->0;
        assert(mac_byte(p[0]) == Some(m[0] as int));
        assert(mac_byte(p[1]) == Some(m[1] as int));
        assert(mac_byte(p[2]) == Some(m[2] as int));
        assert(mac_byte(p[3]) == Some(m[3] as int));
        assert(mac_byte(p[4]) == Some(m[4] as int));
        assert(mac_byte(p[5]) == Some(m[5] as int));
        assert(r =~= m);
    }
}

proof fn pair_is_a_byte(p: Seq<char>)
    requires
        p.len() == 2,
        digits_value(p, 16) is Some,
    ensures
        0 <= digits_value(p, 16)->0 <= 255,
{
    reveal_with_fuel(digits_value, 3);
    let q = p.drop_last();
    assert(q.drop_last() =~= Seq::empty());
}

/// A text writes an IPv4 prefix exactly where it is an address, a slash and a length of at most 32. The
/// prefix is the block of that length that the address lies in.
pub proof fn cidr4_is_the_block_of_the_address(s: Seq<char>, i: int)
    requires
        0 <= i < s.len(),
        s[i] == '/',
        forall|j: int| 0 <= j < i ==> s[j] != '/',
    ensures
        cidr_v4_of(s) is Some <==> ipv4_of(s.take(i)) is Some && (unsigned_value(
            s.skip(i + 1),
            10,
            255,
        ) matches Some(p) && p <= 32),
        cidr_v4_of(s) matches Some(c) ==> {
            let a = ipv4_of(s.take(i))->0;
            &&& unsigned_value(s.skip(i + 1), 10, 255) == Some(c.prefix as int)
            &&& c.prefix <= 32
            &&& c.base() <= a.bits < c.base() + pow2((32 - c.prefix) as nat)
            &&& c.base() % (pow2((32 - c.prefix) as nat) as int) == 0
        },
{
    find_char_unique(s, '/', i);
    crate::text::unsigned_value_nonnegative(s.skip(i + 1), 10, 255);
    if let Some(c) = cidr_v4_of(s) {
        let a = ipv4_of(s.take(i))->0;
        let m = pow2((32 - c.prefix) as nat) as int;
        lemma_pow2_pos((32 - c.prefix) as nat);
        let x = a.bits as int;
        vstd::arithmetic::div_mod::lemma_mod_bound(x, m);
        vstd::arithmetic::div_mod::lemma_fundamental_div_mod(x, m);
        assert(x % m <= x) by {
            vstd::arithmetic::div_mod::lemma_mod_decreases(a.bits as nat, m as nat);
        }
        let n = network_address(a, c.prefix as int);
        octets_recombine(n.bits);
        assert(c.base() == n.bits);
        cidr_v4_canonical(s);
        aligned(x, m);
    }
}

/// A text without a slash writes no prefix of either family.
pub proof fn prefix_has_a_slash(s: Seq<char>)
    requires
        !s.contains('/'),
    ensures
        cidr_v4_of(s) is None,
        cidr_v6_of(s) is None,
{
    crate::text::find_char_properties(s, '/');
    if find_char(s, '/') < s.len() {
        assert(s[find_char(s, '/') as int] == '/');
    }
}

/// The segment `x` is the segment `s` with all bits from bit `keep` on cleared.
pub open spec fn keeps_leading(s: u16, keep: int, x: u16) -> bool {
    &&& keep >= 16 ==> x == s
    &&& keep <= 0 ==> x == 0
    &&& 0 < keep < 16 ==> x <= s && s - x < pow2((16 - keep) as nat) && x as int % (pow2(
        (16 - keep) as nat,
    ) as int) == 0
}

proof fn leading_bits_are_kept(s: u16, keep: int)
    ensures
        keeps_leading(s, keep, leading_bits(s, keep)),
{
    if 0 < keep < 16 {
        let m = pow2((16 - keep) as nat) as int;
        lemma_pow2_pos((16 - keep) as nat);
        let x = s as int;
        vstd::arithmetic::div_mod::lemma_mod_bound(x, m);
        vstd::arithmetic::div_mod::lemma_mod_decreases(s as nat, m as nat);
        aligned(x, m);
    }
}

/// A text writes an IPv6 prefix exactly where it is an address, a slash and a length of at most 128.
/// The prefix has the bits of the address up to that length, and zeros behind them.
pub proof fn cidr6_is_the_block_of_the_address(s: Seq<char>, i: int)
    requires
        0 <= i < s.len(),
        s[i] == '/',
        forall|j: int| 0 <= j < i ==> s[j] != '/',
    ensures
        cidr_v6_of(s) is Some <==> ipv6_of(s.take(i)) is Some && (unsigned_value(
            s.skip(i + 1),
            10,
            255,
        ) matches Some(p) && p <= 128),
        cidr_v6_of(s) matches Some(c) ==> {
            let a = ipv6_of(s.take(i))->0;
            &&& unsigned_value(s.skip(i + 1), 10, 255) == Some(c.prefix as int)
            &&& keeps_leading(a.s0, c.prefix as int, c.addr.s0)
            &&& keeps_leading(a.s1, c.prefix - 16, c.addr.s1)
            &&& keeps_leading(a.s2, c.prefix - 32, c.addr.s2)
            &&& keeps_leading(a.s3, c.prefix - 48, c.addr.s3)
            &&& keeps_leading(a.s4, c.prefix - 64, c.addr.s4)
            &&& keeps_leading(a.s5, c.prefix - 80, c.addr.s5)
            &&& keeps_leading(a.s6, c.prefix - 96, c.addr.s6)
            &&& keeps_leading(a.s7, c.prefix - 112, c.addr.s7)
        },
{
    find_char_unique(s, '/', i);
    crate::text::unsigned_value_nonnegative(s.skip(i + 1), 10, 255);
    if let Some(c) = cidr_v6_of(s) {
        let a = ipv6_of(s.take(i))->0;
        leading_bits_are_kept(a.s0, c.prefix as int);
        leading_bits_are_kept(a.s1, c.prefix - 16);
        leading_bits_are_kept(a.s2, c.prefix - 32);
        leading_bits_are_kept(a.s3, c.prefix - 48);
        leading_bits_are_kept(a.s4, c.prefix - 64);
        leading_bits_are_kept(a.s5, c.prefix - 80);
        leading_bits_are_kept(a.s6, c.prefix - 96);
        leading_bits_are_kept(a.s7, c.prefix - 112);
    }
}

/// An address of either family: what writes an IPv4 address is one, and what else writes an IPv6
/// address is one of those.
pub proof fn either_family_is_read(s: Seq<char>)
    ensures
        ip_of(s) is None <==> ipv4_of(s) is None && ipv6_of(s) is None,
        ip_of(s) matches Some(IpAddr::V4(a)) ==> ipv4_of(s) == Some(a),
        ip_of(s) matches Some(IpAddr::V6(a)) ==> ipv4_of(s) is None && ipv6_of(s) == Some(a),
{
}

/// A group of an IPv6 address is one to four hexadecimal digits, and nothing else.
pub proof fn hextet_is_up_to_four_digits(p: Seq<char>)
    ensures
        hextet_value(p) is Some <==> 1 <= p.len() <= 4 && digits_value(p, 16) is Some,
        hextet_value(p) matches Some(n) ==> digits_value(p, 16) == Some(n),
{
}

} // verus!
