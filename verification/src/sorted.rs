//! Tables kept in key order.

use vstd::prelude::*;

use crate::lists::{distinct, keyed, keyed_at, keyed_domain, keyed_is, keyed_len};
use crate::text::{chars_of, views};

verus! {

/// A key with a strict total order on its views.
pub trait Key: View + Sized {
    /// Whether the first key comes before the second.
    spec fn before(a: Self::V, b: Self::V) -> bool;

    proof fn irreflexive(a: Self::V)
        ensures
            !Self::before(a, a),
    ;

    proof fn transitive(a: Self::V, b: Self::V, c: Self::V)
        requires
            Self::before(a, b),
            Self::before(b, c),
        ensures
            Self::before(a, c),
    ;

    proof fn total(a: Self::V, b: Self::V)
        ensures
            a == b || Self::before(a, b) || Self::before(b, a),
    ;

    /// Decides [`Key::before`].
    fn precedes(&self, other: &Self) -> (r: bool)
        ensures
            r == Self::before(self@, other@),
    ;
}

/// A key and its value.
#[derive(Debug, PartialEq, Eq)]
pub struct Item<K, V> {
    pub key: K,
    pub value: V,
}

/// The keys of a table, in order.
pub open spec fn keys<K: Key, V>(s: Seq<Item<K, V>>) -> Seq<K::V> {
    Seq::new(s.len(), |i: int| s[i].key@)
}

/// The values of a table, in order of their keys.
pub open spec fn values<K, V>(s: Seq<Item<K, V>>) -> Seq<V> {
    Seq::new(s.len(), |i: int| s[i].value)
}

/// Every key comes before the next.
pub open spec fn in_order<K: Key, V>(s: Seq<Item<K, V>>) -> bool {
    forall|i: int, j: int|
        0 <= i < j < s.len() ==> K::before((#[trigger] s[i]).key@, (#[trigger] s[j]).key@)
}

/// Every key comes before the next.
pub open spec fn keys_in_order<K: Key>(ks: Seq<K::V>) -> bool {
    forall|i: int, j: int| 0 <= i < j < ks.len() ==> K::before(#[trigger] ks[i], #[trigger] ks[j])
}

/// A table in key order.
#[derive(Debug, PartialEq, Eq)]
pub struct SortedMap<K, V> {
    items: Vec<Item<K, V>>,
}

impl<K: Key, V> View for SortedMap<K, V> {
    type V = Map<K::V, V>;

    closed spec fn view(&self) -> Map<K::V, V> {
        keyed(keys(self.items@), values(self.items@))
    }
}

proof fn in_order_distinct<K: Key, V>(s: Seq<Item<K, V>>)
    requires
        in_order(s),
    ensures
        distinct(keys(s)),
{
    assert forall|i: int, j: int| 0 <= i < j < keys(s).len() implies keys(s)[i] != keys(s)[j] by {
        assert(K::before(s[i].key@, s[j].key@));
        K::irreflexive(s[i].key@);
    }
}

impl<K: Key, V> SortedMap<K, V> {
    /// The items are in order, each key once.
    pub closed spec fn inv(&self) -> bool {
        in_order(self.items@)
    }

    /// An empty table.
    pub fn new() -> (r: Self)
        ensures
            r.inv(),
            r@ == Map::<K::V, V>::empty(),
    {
        let r = SortedMap { items: Vec::new() };
        assert(r@ =~= Map::<K::V, V>::empty());
        r
    }

    /// A table has finitely many keys.
    pub proof fn domain_is_finite(&self)
        requires
            self.inv(),
        ensures
            self@.dom().finite(),
    {
        in_order_distinct(self.items@);
        keyed_len(keys(self.items@), values(self.items@));
    }

    /// The items, in key order.
    pub fn items(&self) -> (r: &Vec<Item<K, V>>)
        requires
            self.inv(),
        ensures
            in_order(r@),
            keyed(keys(r@), values(r@)) == self@,
            distinct(keys(r@)),
    {
        proof {
            in_order_distinct(self.items@);
        }
        &self.items
    }

    /// The number of keys that come before `key`, and whether `key` itself follows them.
    fn locate(&self, key: &K) -> (r: (usize, bool))
        requires
            self.inv(),
        ensures
            r.0 <= self.items@.len(),
            forall|j: int|
                0 <= j < r.0 ==> K::before((#[trigger] self.items@[j]).key@, key@),
            r.1 ==> r.0 < self.items@.len() && self.items@[r.0 as int].key@ == key@,
            !r.1 ==> forall|j: int|
                r.0 <= j < self.items@.len() ==> K::before(key@, (#[trigger] self.items@[j]).key@),
            r.1 == self@.dom().contains(key@),
    {
        let mut p: usize = 0;
        while p < self.items.len() && self.items[p].key.precedes(key)
            invariant
                p <= self.items@.len(),
                forall|j: int| 0 <= j < p ==> K::before((#[trigger] self.items@[j]).key@, key@),
            decreases self.items@.len() - p,
        {
            p += 1;
        }
        proof {
            keyed_domain(keys(self.items@), values(self.items@));
        }
        if p < self.items.len() && !key.precedes(&self.items[p].key) {
            proof {
                K::total(self.items@[p as int].key@, key@);
                keyed_at_in_order(self.items@, p as int);
            }
            (p, true)
        } else {
            assert forall|j: int| p <= j < self.items@.len() implies K::before(
                key@,
                (#[trigger] self.items@[j]).key@,
            ) by {
                if j > p {
                    assert(K::before(self.items@[p as int].key@, self.items@[j].key@));
                    K::transitive(key@, self.items@[p as int].key@, self.items@[j].key@);
                }
            }
            proof {
                let ks = keys(self.items@);
                if ks.contains(key@) {
                    let j = choose|j: int| 0 <= j < ks.len() && ks[j] == key@;
                    K::irreflexive(key@);
                    if j < p {
                        assert(K::before(self.items@[j].key@, key@));
                    } else {
                        assert(K::before(key@, self.items@[j].key@));
                    }
                }
            }
            (p, false)
        }
    }

    /// The value of a key.
    pub fn get(&self, key: &K) -> (r: Option<&V>)
        requires
            self.inv(),
        ensures
            match r {
                Some(v) => self@.dom().contains(key@) && self@[key@] == *v,
                None => !self@.dom().contains(key@),
            },
    {
        let at: (usize, bool) = self.locate(key);
        if at.1 {
            proof {
                keyed_at_in_order(self.items@, at.0 as int);
            }
            Some(&self.items[at.0].value)
        } else {
            None
        }
    }

    /// The values, in key order.
    pub fn into_values(self) -> (r: Vec<V>)
        requires
            self.inv(),
        ensures
            exists|ks: Seq<K::V>|
                #[trigger] keyed(ks, r@) == self@ && keys_in_order::<K>(ks) && distinct(ks)
                    && ks.len() == r@.len(),
    {
        let ghost s = self.items@;
        let mut items = self.items;
        let mut out: Vec<V> = Vec::new();
        while items.len() > 0
            invariant
                items@ == s.take(items@.len() as int),
                items@.len() + out@.len() == s.len(),
                out@ == values(s).skip(items@.len() as int),
            decreases items@.len(),
        {
            let item = items.pop().unwrap();
            out.insert(0, item.value);
            assert(values(s).skip(items@.len() as int) =~= seq![values(s)[items@.len() as int]]
                + values(s).skip((items@.len() + 1) as int));
        }
        proof {
            in_order_distinct(s);
        }
        assert(out@ =~= values(s));
        assert(keyed(keys(s), out@) == self@);
        out
    }

    /// Sets the value of a key.
    pub fn insert(&mut self, key: K, value: V)
        requires
            old(self).inv(),
        ensures
            final(self).inv(),
            final(self)@ == old(self)@.insert(key@, value),
    {
        let ghost before = self.items@;
        let ghost k = key@;
        let ghost m = self@.insert(k, value);
        let at: (usize, bool) = self.locate(&key);
        let p: usize = at.0;
        let item = Item { key, value };
        proof {
            keyed_domain(keys(before), values(before));
            if at.1 {
                assert forall|j: int| p < j < before.len() implies K::before(
                    k,
                    (#[trigger] before[j]).key@,
                ) by {
                    assert(K::before(before[p as int].key@, before[j].key@));
                }
            }
        }
        if at.1 {
            self.items[p] = item;
            assert(self.items@ == before.update(p as int, item));
        } else {
            self.items.insert(p, item);
            assert(self.items@ == before.insert(p as int, item));
        }
        proof {
            let now = self.items@;
            let shift: int = now.len() - before.len();
            assert(now[p as int] == item);
            assert(forall|i: int| 0 <= i < p ==> now[i] == before[i]);
            assert(forall|i: int| p < i < now.len() ==> now[i] == before[i - shift]);
            assert forall|i: int, j: int| 0 <= i < j < now.len() implies K::before(
                (#[trigger] now[i]).key@,
                (#[trigger] now[j]).key@,
            ) by {
                if j < p {
                    assert(K::before(before[i].key@, before[j].key@));
                } else if i < p && j == p {
                    assert(K::before(before[i].key@, k));
                } else if i < p {
                    assert(K::before(before[i].key@, before[j - shift].key@));
                } else if i == p {
                    assert(K::before(k, before[j - shift].key@));
                } else {
                    assert(K::before(before[i - shift].key@, before[j - shift].key@));
                }
            }
            in_order_distinct(now);
            let ks2 = keys(now);
            let vs2 = values(now);
            assert forall|i: int| 0 <= i < ks2.len() implies m.dom().contains(#[trigger] ks2[i])
                && m[ks2[i]] == vs2[i] by {
                if i != p {
                    let j = if i < p {
                        i
                    } else {
                        i - shift
                    };
                    assert(now[i] == before[j]);
                    keyed_at_in_order(before, j);
                    if i < p {
                        assert(ks2[i] != ks2[p as int]);
                    } else {
                        assert(ks2[p as int] != ks2[i]);
                    }
                }
            }
            assert forall|x: K::V| #[trigger] m.dom().contains(x) implies ks2.contains(x) by {
                if x == k {
                    assert(ks2[p as int] == x);
                } else {
                    let j = choose|j: int| 0 <= j < keys(before).len() && keys(before)[j] == x;
                    let i = if j < p {
                        j
                    } else {
                        j + shift
                    };
                    assert(now[i] == before[j]);
                    assert(ks2[i] == x);
                }
            }
            keyed_is(ks2, vs2, m);
        }
    }

    /// Removes a key. Tells whether it was there.
    pub fn remove(&mut self, key: &K) -> (r: bool)
        requires
            old(self).inv(),
        ensures
            final(self).inv(),
            final(self)@ == old(self)@.remove(key@),
            r == old(self)@.dom().contains(key@),
    {
        let ghost before = self.items@;
        let ghost m = self@.remove(key@);
        let at: (usize, bool) = self.locate(key);
        let p: usize = at.0;
        proof {
            keyed_domain(keys(before), values(before));
            in_order_distinct(before);
        }
        if !at.1 {
            assert(m =~= self@);
            return false;
        }
        let gone = self.items.remove(p);
        proof {
            let now = self.items@;
            assert(now == before.remove(p as int));
            assert forall|i: int, j: int| 0 <= i < j < now.len() implies K::before(
                (#[trigger] now[i]).key@,
                (#[trigger] now[j]).key@,
            ) by {
                let a = if i < p {
                    i
                } else {
                    i + 1
                };
                let b = if j < p {
                    j
                } else {
                    j + 1
                };
                assert(now[i] == before[a] && now[j] == before[b]);
                assert(K::before(before[a].key@, before[b].key@));
            }
            in_order_distinct(now);
            let ks = keys(before);
            let ks2 = keys(now);
            let vs2 = values(now);
            assert forall|i: int| 0 <= i < ks2.len() implies m.dom().contains(#[trigger] ks2[i])
                && m[ks2[i]] == vs2[i] by {
                let j = if i < p {
                    i
                } else {
                    i + 1
                };
                assert(now[i] == before[j]);
                keyed_at_in_order(before, j);
                if j < p {
                    assert(ks[j] != ks[p as int]);
                } else {
                    assert(ks[p as int] != ks[j]);
                }
            }
            assert forall|x: K::V| #[trigger] m.dom().contains(x) implies ks2.contains(x) by {
                let j = choose|j: int| 0 <= j < ks.len() && ks[j] == x;
                let i = if j < p {
                    j
                } else {
                    j - 1
                };
                assert(now[i] == before[j]);
                assert(ks2[i] == x);
            }
            keyed_is(ks2, vs2, m);
        }
        true
    }
}

proof fn keyed_at_in_order<K: Key, V>(s: Seq<Item<K, V>>, i: int)
    requires
        in_order(s),
        0 <= i < s.len(),
    ensures
        keyed(keys(s), values(s)).dom().contains(s[i].key@),
        keyed(keys(s), values(s))[s[i].key@] == s[i].value,
{
    in_order_distinct(s);
    keyed_at(keys(s), values(s), i);
}

// ---------------------------------------------------------------------------
// Order of texts
// ---------------------------------------------------------------------------

/// Whether `a` comes before `b` in the order of their characters.
pub open spec fn text_before(a: Seq<char>, b: Seq<char>) -> bool
    decreases a.len(),
{
    if b.len() == 0 {
        false
    } else if a.len() == 0 {
        true
    } else if a[0] == b[0] {
        text_before(a.skip(1), b.skip(1))
    } else {
        a[0] < b[0]
    }
}

/// No text comes before itself.
pub proof fn text_irreflexive(a: Seq<char>)
    ensures
        !text_before(a, a),
    decreases a.len(),
{
    if a.len() > 0 {
        text_irreflexive(a.skip(1));
    }
}

/// The order of texts is transitive.
pub proof fn text_transitive(a: Seq<char>, b: Seq<char>, c: Seq<char>)
    requires
        text_before(a, b),
        text_before(b, c),
    ensures
        text_before(a, c),
    decreases a.len(),
{
    if a.len() > 0 && b.len() > 0 && c.len() > 0 && a[0] == b[0] && b[0] == c[0] {
        text_transitive(a.skip(1), b.skip(1), c.skip(1));
    }
}

/// Of two different texts one comes before the other.
pub proof fn text_total(a: Seq<char>, b: Seq<char>)
    ensures
        a == b || text_before(a, b) || text_before(b, a),
    decreases a.len(),
{
    if a.len() == 0 || b.len() == 0 {
        if a.len() == b.len() {
            assert(a =~= b);
        }
    } else if a[0] == b[0] {
        text_total(a.skip(1), b.skip(1));
        if a.skip(1) == b.skip(1) {
            assert(a.skip(1).len() == a.len() - 1 && b.skip(1).len() == b.len() - 1);
            assert forall|i: int| 0 <= i < a.len() implies a[i] == b[i] by {
                if i > 0 {
                    assert(a[i] == a.skip(1)[i - 1] && b[i] == b.skip(1)[i - 1]);
                }
            }
            assert(a =~= b);
        }
    }
}

/// Decides [`text_before`].
pub fn text_precedes(a: &str, b: &str) -> (r: bool)
    ensures
        r == text_before(a@, b@),
{
    let x = chars_of(a);
    let y = chars_of(b);
    let mut i: usize = 0;
    assert(x@.skip(0) =~= x@ && y@.skip(0) =~= y@);
    while i < x.len() && i < y.len() && x[i] == y[i]
        invariant
            i <= x@.len(),
            i <= y@.len(),
            text_before(x@, y@) == text_before(x@.skip(i as int), y@.skip(i as int)),
        decreases x@.len() - i,
    {
        assert(x@.skip(i as int).skip(1) =~= x@.skip(i + 1));
        assert(y@.skip(i as int).skip(1) =~= y@.skip(i + 1));
        i += 1;
    }
    if i == y.len() {
        false
    } else if i == x.len() {
        true
    } else {
        x[i] < y[i]
    }
}

/// A text as a key.
#[derive(Debug, PartialEq, Eq)]
pub struct TextKey {
    pub text: String,
}

impl View for TextKey {
    type V = Seq<char>;

    open spec fn view(&self) -> Seq<char> {
        self.text@
    }
}

impl Key for TextKey {
    open spec fn before(a: Seq<char>, b: Seq<char>) -> bool {
        text_before(a, b)
    }

    proof fn irreflexive(a: Seq<char>) {
        text_irreflexive(a);
    }

    proof fn transitive(a: Seq<char>, b: Seq<char>, c: Seq<char>) {
        text_transitive(a, b, c);
    }

    proof fn total(a: Seq<char>, b: Seq<char>) {
        text_total(a, b);
    }

    fn precedes(&self, other: &Self) -> (r: bool) {
        text_precedes(self.text.as_str(), other.text.as_str())
    }
}

/// A number as a key.
#[derive(Clone, Copy, Debug, PartialEq, Eq, Structural)]
pub struct NumberKey {
    pub number: u32,
}

impl View for NumberKey {
    type V = u32;

    open spec fn view(&self) -> u32 {
        self.number
    }
}

impl Key for NumberKey {
    open spec fn before(a: u32, b: u32) -> bool {
        a < b
    }

    proof fn irreflexive(a: u32) {
    }

    proof fn transitive(a: u32, b: u32, c: u32) {
    }

    proof fn total(a: u32, b: u32) {
    }

    fn precedes(&self, other: &Self) -> (r: bool) {
        self.number < other.number
    }
}

/// The elements of a finite set in order.
pub open spec fn ordered<K: Key>(keys: Set<K::V>) -> Seq<K::V> {
    choose|ks: Seq<K::V>| #[trigger] lists_in_order::<K>(ks, keys)
}

/// Whether `ks` lists the elements of `keys` in order, each once.
pub open spec fn lists_in_order<K: Key>(ks: Seq<K::V>, keys: Set<K::V>) -> bool {
    keys_in_order::<K>(ks) && forall|k: K::V| ks.contains(k) <==> #[trigger] keys.contains(k)
}

proof fn in_order_unique<K: Key>(a: Seq<K::V>, b: Seq<K::V>, keys: Set<K::V>)
    requires
        lists_in_order::<K>(a, keys),
        lists_in_order::<K>(b, keys),
    ensures
        a == b,
    decreases a.len(),
{
    if a.len() == 0 {
        if b.len() > 0 {
            assert(b.contains(b[0]));
            assert(keys.contains(b[0]));
            assert(a.contains(b[0]));
        }
        assert(a =~= b);
    } else {
        assert(a.contains(a.last()));
        assert(keys.contains(a.last()));
        assert(b.contains(a.last()));
        assert(b.contains(b.last()));
        assert(keys.contains(b.last()));
        assert(a.contains(b.last()));
        let i = choose|i: int| 0 <= i < a.len() && a[i] == b.last();
        let j = choose|j: int| 0 <= j < b.len() && b[j] == a.last();
        if i < a.len() - 1 {
            assert(K::before(a[i], a[a.len() - 1]));
            if j < b.len() - 1 {
                assert(K::before(b[j], b[b.len() - 1]));
                K::transitive(a[i], b[j], a[i]);
            }
            K::irreflexive(a[i]);
        }
        assert(a.last() == b.last());
        let rest = keys.remove(a.last());
        in_order_rest::<K>(a, keys);
        in_order_rest::<K>(b, keys);
        in_order_unique::<K>(a.drop_last(), b.drop_last(), rest);
        assert(a =~= a.drop_last().push(a.last()));
        assert(b =~= b.drop_last().push(b.last()));
    }
}

proof fn in_order_rest<K: Key>(a: Seq<K::V>, keys: Set<K::V>)
    requires
        lists_in_order::<K>(a, keys),
        a.len() > 0,
    ensures
        lists_in_order::<K>(a.drop_last(), keys.remove(a.last())),
{
    let front = a.drop_last();
    assert forall|k: K::V| front.contains(k) <==> #[trigger] keys.remove(a.last()).contains(k) by {
        if front.contains(k) {
            let i = choose|i: int| 0 <= i < front.len() && front[i] == k;
            assert(a[i] == k);
            assert(K::before(a[i], a[a.len() - 1]));
            K::irreflexive(k);
            assert(keys.contains(k));
        }
        if keys.remove(a.last()).contains(k) {
            assert(keys.contains(k));
            let i = choose|i: int| 0 <= i < a.len() && a[i] == k;
            assert(front[i] == k);
        }
    }
    assert forall|i: int, j: int| 0 <= i < j < front.len() implies K::before(
        #[trigger] front[i],
        #[trigger] front[j],
    ) by {
        assert(K::before(a[i], a[j]));
    }
}

/// A list of the elements in order is the one.
pub proof fn ordered_is<K: Key>(ks: Seq<K::V>, keys: Set<K::V>)
    requires
        lists_in_order::<K>(ks, keys),
    ensures
        ordered::<K>(keys) == ks,
{
    in_order_unique::<K>(ordered::<K>(keys), ks, keys);
}

proof fn greatest<K: Key>(keys: Set<K::V>) -> (m: K::V)
    requires
        keys.finite(),
        keys.len() > 0,
    ensures
        keys.contains(m),
        forall|k: K::V| #[trigger] keys.contains(k) ==> k == m || K::before(k, m),
    decreases keys.len(),
{
    let a = keys.choose();
    let rest = keys.remove(a);
    if rest.len() == 0 {
        assert forall|k: K::V| #[trigger] keys.contains(k) implies k == a || K::before(k, a) by {
            if k != a {
                assert(rest.contains(k));
            }
        }
        a
    } else {
        let b = greatest::<K>(rest);
        K::total(a, b);
        let m = if K::before(b, a) {
            a
        } else {
            b
        };
        assert forall|k: K::V| #[trigger] keys.contains(k) implies k == m || K::before(k, m) by {
            if k != a {
                assert(rest.contains(k));
                if K::before(b, a) && k != b {
                    K::transitive(k, b, a);
                }
            }
        }
        m
    }
}

/// Every finite set has a list of its elements in order.
pub proof fn ordered_lists<K: Key>(keys: Set<K::V>)
    requires
        keys.finite(),
    ensures
        lists_in_order::<K>(ordered::<K>(keys), keys),
    decreases keys.len(),
{
    if keys.len() == 0 {
        let none = Seq::<K::V>::empty();
        assert forall|k: K::V| none.contains(k) <==> #[trigger] keys.contains(k) by {
            assert(keys =~= Set::empty());
        }
        assert(lists_in_order::<K>(none, keys));
    } else {
        let m = greatest::<K>(keys);
        let rest = keys.remove(m);
        ordered_lists::<K>(rest);
        let front = ordered::<K>(rest);
        let all = front.push(m);
        assert forall|k: K::V| all.contains(k) <==> #[trigger] keys.contains(k) by {
            if all.contains(k) {
                let i = choose|i: int| 0 <= i < all.len() && all[i] == k;
                if i < front.len() {
                    assert(front.contains(front[i]));
                    assert(rest.contains(k));
                }
            }
            if keys.contains(k) {
                if k == m {
                    assert(all[front.len() as int] == k);
                } else {
                    assert(rest.contains(k));
                    let i = choose|i: int| 0 <= i < front.len() && front[i] == k;
                    assert(all[i] == k);
                }
            }
        }
        assert forall|i: int, j: int| 0 <= i < j < all.len() implies K::before(
            #[trigger] all[i],
            #[trigger] all[j],
        ) by {
            assert(front.contains(front[i]));
            assert(rest.contains(front[i]));
            if j < front.len() {
                assert(K::before(front[i], front[j]));
            }
        }
        assert(lists_in_order::<K>(all, keys));
    }
}

/// Strictly increasing in the order of texts.
pub open spec fn texts_increasing(s: Seq<Seq<char>>) -> bool {
    forall|i: int, j: int| 0 <= i < j < s.len() ==> text_before(#[trigger] s[i], #[trigger] s[j])
}

/// The items of a table are the pairs of its map, in key order.
pub proof fn items_are_ordered<K: Key, V>(items: Seq<Item<K, V>>)
    requires
        in_order(items),
    ensures
        ordered::<K>(keyed(keys(items), values(items)).dom()) == keys(items),
        forall|i: int|
            0 <= i < items.len() ==> keyed(keys(items), values(items))[#[trigger] keys(items)[i]]
                == items[i].value,
{
    let ks = keys(items);
    let m = keyed(ks, values(items));
    keyed_domain(ks, values(items));
    assert forall|i: int, j: int| 0 <= i < j < ks.len() implies K::before(
        #[trigger] ks[i],
        #[trigger] ks[j],
    ) by {
        assert(K::before(items[i].key@, items[j].key@));
    }
    assert(distinct(ks)) by {
        assert forall|i: int, j: int| 0 <= i < j < ks.len() implies ks[i] != ks[j] by {
            assert(K::before(ks[i], ks[j]));
            K::irreflexive(ks[i]);
        }
    }
    assert(lists_in_order::<K>(ks, m.dom()));
    ordered_is::<K>(ks, m.dom());
    assert forall|i: int| 0 <= i < items.len() implies m[#[trigger] ks[i]] == items[i].value by {
        keyed_at(ks, values(items), i);
    }
}

/// The values of a map in the order of their keys.
pub open spec fn in_key_order<K: Key, V>(m: Map<K::V, V>) -> Seq<V> {
    let ks = ordered::<K>(m.dom());
    Seq::new(ks.len(), |i: int| m[ks[i]])
}

/// The values of a map, by their views.
pub open spec fn map_views<K, V: View>(m: Map<K, V>) -> Map<K, V::V> {
    Map::new(|k: K| m.dom().contains(k), |k: K| m[k]@)
}

/// Inserting a value inserts its view.
pub proof fn map_views_insert<K, V: View>(m: Map<K, V>, k: K, v: V)
    ensures
        map_views(m.insert(k, v)) == map_views(m).insert(k, v@),
{
    assert(map_views(m.insert(k, v)) =~= map_views(m).insert(k, v@));
}

/// Removing a key removes it from the views.
pub proof fn map_views_remove<K, V: View>(m: Map<K, V>, k: K)
    ensures
        map_views(m.remove(k)) == map_views(m).remove(k),
{
    assert(map_views(m.remove(k)) =~= map_views(m).remove(k));
}

// ---------------------------------------------------------------------------
// Sorting
// ---------------------------------------------------------------------------

/// No element comes before one that stands in front of it.
pub open spec fn is_sorted<K: Key>(s: Seq<K::V>) -> bool {
    forall|i: int, j: int| 0 <= i < j < s.len() ==> !K::before(#[trigger] s[j], #[trigger] s[i])
}

proof fn inserted_multiset<A>(s: Seq<A>, i: int, a: A)
    requires
        0 <= i <= s.len(),
    ensures
        s.insert(i, a).to_multiset() == s.to_multiset().insert(a),
{
    broadcast use vstd::multiset::group_multiset_axioms;

    let t = s.insert(i, a);
    assert(t.remove(i) =~= s);
    t.to_multiset_ensures();
    assert(t.remove(i).to_multiset() =~= t.to_multiset().remove(t[i]));
    assert(t.contains(a)) by {
        assert(t[i] == a);
    }
    assert(t.to_multiset() =~= s.to_multiset().insert(a));
}

/// Inserts an element behind those that do not come after it.
fn place<K: Key>(v: &mut Vec<K>, x: K)
    requires
        is_sorted::<K>(views(old(v)@)),
    ensures
        is_sorted::<K>(views(final(v)@)),
        views(final(v)@).to_multiset() == views(old(v)@).to_multiset().insert(x@),
{
    let ghost s = views(v@);
    let mut p: usize = v.len();
    while p > 0 && x.precedes(&v[p - 1])
        invariant
            p <= v@.len(),
            s == views(v@),
            forall|j: int| p <= j < s.len() ==> K::before(x@, #[trigger] s[j]),
        decreases p,
    {
        p -= 1;
        assert(s[p as int] == v@[p as int]@);
    }
    let ghost a = x@;
    proof {
        if p > 0 {
            assert(s[p - 1] == v@[p - 1]@);
            assert(!K::before(a, s[p - 1]));
            assert forall|j: int| 0 <= j < p implies !K::before(a, #[trigger] s[j]) by {
                if j < p - 1 && K::before(a, s[j]) {
                    K::total(s[j], s[p - 1]);
                    if K::before(s[j], s[p - 1]) {
                        K::transitive(a, s[j], s[p - 1]);
                    }
                }
            }
        }
        inserted_multiset(s, p as int, a);
    }
    v.insert(p, x);
    assert(views(v@) =~= s.insert(p as int, a));
    assert forall|i: int, j: int| 0 <= i < j < v@.len() implies !K::before(
        #[trigger] views(v@)[j],
        #[trigger] views(v@)[i],
    ) by {
        let t = views(v@);
        if i == p {
            assert(t[j] == s[j - 1]);
            if K::before(s[j - 1], a) {
                K::transitive(a, s[j - 1], a);
                K::irreflexive(a);
            }
        } else if j == p {
            assert(t[i] == s[i]);
        } else {
            let i2 = if i < p {
                i
            } else {
                i - 1
            };
            let j2 = if j < p {
                j
            } else {
                j - 1
            };
            assert(t[i] == s[i2] && t[j] == s[j2]);
        }
    }
}

/// Sorts a list.
pub fn sort<K: Key>(v: Vec<K>) -> (r: Vec<K>)
    ensures
        is_sorted::<K>(views(r@)),
        views(r@).to_multiset() == views(v@).to_multiset(),
{
    let ghost s = views(v@);
    let mut rest = v;
    let mut r: Vec<K> = Vec::new();
    proof {
        broadcast use vstd::multiset::group_multiset_axioms;

        assert(views(r@) =~= Seq::empty());
        s.to_multiset_ensures();
        Seq::<K::V>::empty().to_multiset_ensures();
        assert(Seq::<K::V>::empty().to_multiset() =~= vstd::multiset::Multiset::empty());
        assert(views(r@).to_multiset().add(s.to_multiset()) =~= s.to_multiset());
    }
    while rest.len() > 0
        invariant
            is_sorted::<K>(views(r@)),
            views(r@).to_multiset().add(views(rest@).to_multiset()) == s.to_multiset(),
        decreases rest@.len(),
    {
        let ghost before = views(rest@);
        let ghost done = views(r@).to_multiset();
        let x = rest.pop().unwrap();
        proof {
            broadcast use vstd::multiset::group_multiset_axioms;

            assert(before =~= views(rest@).push(x@));
            views(rest@).to_multiset_ensures();
            assert(views(rest@).push(x@).to_multiset() =~= views(rest@).to_multiset().insert(x@));
        }
        let ghost a = x@;
        place(&mut r, x);
        proof {
            broadcast use vstd::multiset::group_multiset_axioms;

            assert(done.insert(a).add(views(rest@).to_multiset()) =~= done.add(
                views(rest@).to_multiset().insert(a),
            ));
        }
    }
    proof {
        broadcast use vstd::multiset::group_multiset_axioms;

        assert(views(rest@) =~= Seq::empty());
        Seq::<K::V>::empty().to_multiset_ensures();
        assert(Seq::<K::V>::empty().to_multiset() =~= vstd::multiset::Multiset::empty());
        assert(views(r@).to_multiset() =~= s.to_multiset());
    }
    r
}

// ---------------------------------------------------------------------------
// Laws
// ---------------------------------------------------------------------------

/// Texts are ordered as in a dictionary: the first character in which they differ decides, and a text
/// comes before every longer one that starts with it.
pub proof fn texts_are_ordered_as_in_a_dictionary(
    p: Seq<char>,
    c: char,
    d: char,
    x: Seq<char>,
    y: Seq<char>,
)
    ensures
        c < d ==> text_before(p + seq![c] + x, p + seq![d] + y),
        c < d ==> !text_before(p + seq![d] + y, p + seq![c] + x),
        text_before(p, p + seq![c] + x),
        !text_before(p + seq![c] + x, p),
    decreases p.len(),
{
    let a = p + seq![c] + x;
    let b = p + seq![d] + y;
    if p.len() > 0 {
        let q = p.skip(1);
        texts_are_ordered_as_in_a_dictionary(q, c, d, x, y);
        assert(a.skip(1) =~= q + seq![c] + x);
        assert(b.skip(1) =~= q + seq![d] + y);
        assert(a[0] == p[0] && b[0] == p[0]);
    } else {
        assert(a[0] == c && b[0] == d);
    }
}

/// Texts and numbers as keys are ordered as texts and numbers.
pub proof fn keys_are_ordered_as_they_are(a: Seq<char>, b: Seq<char>, m: u32, n: u32)
    ensures
        TextKey::before(a, b) <==> text_before(a, b),
        NumberKey::before(m, n) <==> m < n,
{
}

} // verus!
