//! Sequences as tables: lookup by key, first match, concatenated images, and sorted sets.

use vstd::prelude::*;

verus! {

// ---------------------------------------------------------------------------
// Keyed sequences
// ---------------------------------------------------------------------------

/// The map from each key to the value at its last position.
pub open spec fn keyed<K, V>(ks: Seq<K>, vs: Seq<V>) -> Map<K, V>
    decreases ks.len(),
{
    if ks.len() == 0 {
        Map::empty()
    } else {
        keyed(ks.drop_last(), vs.drop_last()).insert(ks.last(), vs.last())
    }
}

/// No two positions hold the same key.
pub open spec fn distinct<K>(ks: Seq<K>) -> bool {
    forall|i: int, j: int| 0 <= i < j < ks.len() ==> ks[i] != ks[j]
}

/// The keys of [`keyed`] are the keys of the sequence.
pub proof fn keyed_domain<K, V>(ks: Seq<K>, vs: Seq<V>)
    requires
        ks.len() == vs.len(),
    ensures
        forall|k: K| #[trigger] keyed(ks, vs).dom().contains(k) <==> ks.contains(k),
    decreases ks.len(),
{
    if ks.len() > 0 {
        let before = keyed(ks.drop_last(), vs.drop_last());
        keyed_domain(ks.drop_last(), vs.drop_last());
        assert forall|k: K| #[trigger] keyed(ks, vs).dom().contains(k) <==> ks.contains(k) by {
            assert(before.dom().contains(k) <==> ks.drop_last().contains(k));
            if ks.contains(k) {
                let i = choose|i: int| 0 <= i < ks.len() && ks[i] == k;
                if i < ks.len() - 1 {
                    assert(ks.drop_last()[i] == k);
                }
            }
            if keyed(ks, vs).dom().contains(k) {
                if k == ks.last() {
                    assert(ks[ks.len() - 1] == k);
                } else {
                    assert(ks.drop_last().contains(k));
                    let i = choose|i: int| 0 <= i < ks.len() - 1 && ks.drop_last()[i] == k;
                    assert(ks[i] == k);
                }
            }
        }
    }
}

/// Where keys are distinct, each key maps to the value at its position.
pub proof fn keyed_at<K, V>(ks: Seq<K>, vs: Seq<V>, i: int)
    requires
        ks.len() == vs.len(),
        distinct(ks),
        0 <= i < ks.len(),
    ensures
        keyed(ks, vs).dom().contains(ks[i]),
        keyed(ks, vs)[ks[i]] == vs[i],
    decreases ks.len(),
{
    if i < ks.len() - 1 {
        keyed_at(ks.drop_last(), vs.drop_last(), i);
    }
}

/// Appending a key and a value inserts the pair.
pub proof fn keyed_push<K, V>(ks: Seq<K>, vs: Seq<V>, k: K, v: V)
    requires
        ks.len() == vs.len(),
    ensures
        keyed(ks.push(k), vs.push(v)) == keyed(ks, vs).insert(k, v),
{
    assert(ks.push(k).drop_last() =~= ks);
    assert(vs.push(v).drop_last() =~= vs);
}

/// Replacing the value at a position replaces the value of its key.
pub proof fn keyed_update<K, V>(ks: Seq<K>, vs: Seq<V>, i: int, v: V)
    requires
        ks.len() == vs.len(),
        distinct(ks),
        0 <= i < ks.len(),
    ensures
        keyed(ks, vs.update(i, v)) == keyed(ks, vs).insert(ks[i], v),
{
    let a = keyed(ks, vs.update(i, v));
    let b = keyed(ks, vs).insert(ks[i], v);
    keyed_domain(ks, vs);
    keyed_domain(ks, vs.update(i, v));
    keyed_at(ks, vs, i);
    assert forall|k: K| a.dom().contains(k) implies a[k] == b[k] by {
        let j = choose|j: int| 0 <= j < ks.len() && ks[j] == k;
        keyed_at(ks, vs, j);
        keyed_at(ks, vs.update(i, v), j);
    }
    assert(a.dom() =~= b.dom());
    assert(a =~= b);
}

/// Removing a position removes its key.
pub proof fn keyed_remove<K, V>(ks: Seq<K>, vs: Seq<V>, i: int)
    requires
        ks.len() == vs.len(),
        distinct(ks),
        0 <= i < ks.len(),
    ensures
        distinct(ks.remove(i)),
        keyed(ks.remove(i), vs.remove(i)) == keyed(ks, vs).remove(ks[i]),
{
    let ks2 = ks.remove(i);
    let vs2 = vs.remove(i);
    let a = keyed(ks2, vs2);
    let b = keyed(ks, vs).remove(ks[i]);
    keyed_domain(ks, vs);
    keyed_domain(ks2, vs2);
    assert forall|k: K| #[trigger] a.dom().contains(k) <==> b.dom().contains(k) by {
        if a.dom().contains(k) {
            let j = choose|j: int| 0 <= j < ks2.len() && ks2[j] == k;
            let p = if j < i {
                j
            } else {
                j + 1
            };
            assert(ks[p] == k);
        }
        if b.dom().contains(k) {
            let j = choose|j: int| 0 <= j < ks.len() && ks[j] == k;
            let p = if j < i {
                j
            } else {
                j - 1
            };
            assert(ks2[p] == k);
        }
    }
    assert forall|k: K| a.dom().contains(k) implies a[k] == b[k] by {
        let j = choose|j: int| 0 <= j < ks2.len() && ks2[j] == k;
        let p = if j < i {
            j
        } else {
            j + 1
        };
        keyed_at(ks2, vs2, j);
        keyed_at(ks, vs, p);
    }
    assert(a.dom() =~= b.dom());
    assert(a =~= b);
}

/// A map with exactly the given keys, each with the value at its position, is [`keyed`].
pub proof fn keyed_is<K, V>(ks: Seq<K>, vs: Seq<V>, m: Map<K, V>)
    requires
        ks.len() == vs.len(),
        distinct(ks),
        forall|k: K| #[trigger] m.dom().contains(k) ==> ks.contains(k),
        forall|i: int| 0 <= i < ks.len()
            ==> m.dom().contains(#[trigger] ks[i]) && m[ks[i]] == vs[i],
    ensures
        keyed(ks, vs) == m,
{
    let a = keyed(ks, vs);
    keyed_domain(ks, vs);
    assert forall|k: K| #[trigger] a.dom().contains(k) <==> m.dom().contains(k) by {
        if a.dom().contains(k) {
            let i = choose|i: int| 0 <= i < ks.len() && ks[i] == k;
            assert(m.dom().contains(ks[i]));
        }
    }
    assert forall|k: K| a.dom().contains(k) implies a[k] == m[k] by {
        let i = choose|i: int| 0 <= i < ks.len() && ks[i] == k;
        keyed_at(ks, vs, i);
        assert(m[ks[i]] == vs[i]);
    }
    assert(a.dom() =~= m.dom());
    assert(a =~= m);
}

/// Where keys are distinct, there are as many keys in the map as positions.
pub proof fn keyed_len<K, V>(ks: Seq<K>, vs: Seq<V>)
    requires
        ks.len() == vs.len(),
        distinct(ks),
    ensures
        keyed(ks, vs).dom().finite(),
        keyed(ks, vs).dom().len() == ks.len(),
    decreases ks.len(),
{
    if ks.len() > 0 {
        let (k, v) = (ks.drop_last(), vs.drop_last());
        keyed_len(k, v);
        keyed_domain(k, v);
        if keyed(k, v).dom().contains(ks.last()) {
            let i = choose|i: int| 0 <= i < k.len() && k[i] == ks.last();
            assert(ks[i] != ks[ks.len() - 1]);
        }
        assert(keyed(ks, vs).dom() =~= keyed(k, v).dom().insert(ks.last()));
    }
}

// ---------------------------------------------------------------------------
// First match
// ---------------------------------------------------------------------------

/// The first position whose element satisfies `f`, or the length where none does.
pub open spec fn first_index<A>(s: Seq<A>, f: spec_fn(A) -> bool) -> int
    decreases s.len(),
{
    if s.len() == 0 || f(s[0]) {
        0
    } else {
        1 + first_index(s.skip(1), f)
    }
}

/// A position that satisfies `f`, with none before it, is the first.
pub proof fn first_index_is<A>(s: Seq<A>, f: spec_fn(A) -> bool, i: int)
    requires
        0 <= i <= s.len(),
        i < s.len() ==> f(s[i]),
        forall|j: int| 0 <= j < i ==> !f(#[trigger] s[j]),
    ensures
        first_index(s, f) == i,
    decreases s.len(),
{
    if i > 0 {
        assert(!f(s[0]));
        let t = s.skip(1);
        assert forall|j: int| 0 <= j < i - 1 implies !f(#[trigger] t[j]) by {
            assert(t[j] == s[j + 1]);
        }
        first_index_is(t, f, i - 1);
    }
}

/// What [`first_index`] finds.
pub proof fn first_index_properties<A>(s: Seq<A>, f: spec_fn(A) -> bool)
    ensures
        0 <= first_index(s, f) <= s.len(),
        first_index(s, f) < s.len() ==> f(s[first_index(s, f)]),
        forall|j: int| 0 <= j < first_index(s, f) ==> !f(#[trigger] s[j]),
    decreases s.len(),
{
    if s.len() > 0 && !f(s[0]) {
        let t = s.skip(1);
        first_index_properties(t, f);
        let i = first_index(t, f);
        if i < t.len() {
            assert(t[i] == s[i + 1]);
        }
        assert forall|j: int| 0 <= j < first_index(s, f) implies !f(#[trigger] s[j]) by {
            if j > 0 {
                assert(s[j] == t[j - 1]);
            }
        }
    }
}

// ---------------------------------------------------------------------------
// Concatenated images
// ---------------------------------------------------------------------------

/// The images of the elements under `f`, one after the other.
pub open spec fn flat<A, B>(s: Seq<A>, f: spec_fn(A) -> Seq<B>) -> Seq<B>
    decreases s.len(),
{
    if s.len() == 0 {
        Seq::empty()
    } else {
        flat(s.drop_last(), f) + f(s.last())
    }
}

/// One more element adds its image.
pub proof fn flat_step<A, B>(s: Seq<A>, f: spec_fn(A) -> Seq<B>, i: int)
    requires
        0 <= i < s.len(),
    ensures
        flat(s.take(i + 1), f) == flat(s.take(i), f) + f(s[i]),
{
    assert(s.take(i + 1).drop_last() =~= s.take(i));
}

/// What [`flat`] holds: exactly the elements of the images.
pub proof fn flat_contains<A, B>(s: Seq<A>, f: spec_fn(A) -> Seq<B>, b: B)
    ensures
        flat(s, f).contains(b) <==> exists|i: int| 0 <= i < s.len() && f(#[trigger] s[i]).contains(
            b,
        ),
    decreases s.len(),
{
    if s.len() > 0 {
        let t = s.drop_last();
        flat_contains(t, f, b);
        let l = flat(t, f);
        let r = f(s.last());
        assert(flat(s, f) == l + r);
        if flat(s, f).contains(b) {
            let k = choose|k: int| 0 <= k < (l + r).len() && (l + r)[k] == b;
            if k < l.len() {
                assert(l[k] == b);
                let i = choose|i: int| 0 <= i < t.len() && f(#[trigger] t[i]).contains(b);
                assert(s[i] == t[i]);
            } else {
                assert(r[k - l.len()] == b);
                assert(s[s.len() - 1] == s.last());
            }
        }
        if exists|i: int| 0 <= i < s.len() && f(#[trigger] s[i]).contains(b) {
            let i = choose|i: int| 0 <= i < s.len() && f(#[trigger] s[i]).contains(b);
            if i < s.len() - 1 {
                assert(t[i] == s[i]);
                let k = choose|k: int| 0 <= k < l.len() && l[k] == b;
                assert((l + r)[k] == b);
            } else {
                let k = choose|k: int| 0 <= k < r.len() && r[k] == b;
                assert((l + r)[l.len() + k] == b);
            }
        }
    }
}

/// Where every image is empty, so is the whole.
pub proof fn flat_empty<A, B>(s: Seq<A>, f: spec_fn(A) -> Seq<B>)
    requires
        forall|i: int| 0 <= i < s.len() ==> (#[trigger] f(s[i])).len() == 0,
    ensures
        flat(s, f).len() == 0,
    decreases s.len(),
{
    if s.len() > 0 {
        let t = s.drop_last();
        assert forall|i: int| 0 <= i < t.len() implies (#[trigger] f(t[i])).len() == 0 by {
            assert(t[i] == s[i]);
        }
        flat_empty(t, f);
        assert(f(s[s.len() - 1]).len() == 0);
    }
}

// ---------------------------------------------------------------------------
// Lists without repetition
// ---------------------------------------------------------------------------

/// A list with the elements of another behind it, each unless it is in the list already.
pub open spec fn merged<A>(s: Seq<A>, more: Seq<A>) -> Seq<A>
    decreases more.len(),
{
    if more.len() == 0 {
        s
    } else {
        let front = merged(s, more.drop_last());
        if front.contains(more.last()) {
            front
        } else {
            front.push(more.last())
        }
    }
}

/// One more element.
pub proof fn merged_step<A>(s: Seq<A>, more: Seq<A>, i: int)
    requires
        0 <= i < more.len(),
    ensures
        merged(s, more.take(i + 1)) == ({
            let front = merged(s, more.take(i));
            if front.contains(more[i]) {
                front
            } else {
                front.push(more[i])
            }
        }),
{
    assert(more.take(i + 1).drop_last() =~= more.take(i));
}

/// The merged list holds exactly the elements of both.
pub proof fn merged_contains<A>(s: Seq<A>, more: Seq<A>, x: A)
    ensures
        merged(s, more).contains(x) <==> s.contains(x) || more.contains(x),
    decreases more.len(),
{
    if more.len() > 0 {
        let last = more.last();
        let front = merged(s, more.drop_last());
        merged_contains(s, more.drop_last(), x);
        assert(more.contains(x) <==> more.drop_last().contains(x) || x == last) by {
            if more.contains(x) {
                let i = choose|i: int| 0 <= i < more.len() && more[i] == x;
                if i < more.len() - 1 {
                    assert(more.drop_last()[i] == x);
                }
            }
            if more.drop_last().contains(x) {
                let i = choose|i: int| 0 <= i < more.len() - 1 && more.drop_last()[i] == x;
                assert(more[i] == x);
            }
            assert(more[more.len() - 1] == last);
        }
        if !front.contains(last) {
            assert(front.push(last).contains(x) <==> front.contains(x) || x == last) by {
                if front.push(last).contains(x) {
                    let i = choose|i: int| 0 <= i < front.push(last).len()
                        && front.push(last)[i] == x;
                    if i < front.len() {
                        assert(front[i] == x);
                    }
                }
                if front.contains(x) {
                    let i = choose|i: int| 0 <= i < front.len() && front[i] == x;
                    assert(front.push(last)[i] == x);
                }
                assert(front.push(last)[front.len() as int] == last);
            }
        }
    } else {
        assert(!more.contains(x));
    }
}

// ---------------------------------------------------------------------------
// Steps that may fail
// ---------------------------------------------------------------------------

/// What a sequence of steps leads to: the state after the last, or the first failure.
pub open spec fn try_steps<S, A, E>(
    s: S,
    xs: Seq<A>,
    f: spec_fn(S, A) -> Result<S, E>,
) -> Result<S, E>
    decreases xs.len(),
{
    if xs.len() == 0 {
        Ok(s)
    } else {
        match try_steps(s, xs.drop_last(), f) {
            Ok(t) => f(t, xs.last()),
            Err(e) => Err(e),
        }
    }
}

/// One more step.
pub proof fn try_steps_next<S, A, E>(s: S, xs: Seq<A>, f: spec_fn(S, A) -> Result<S, E>, i: int)
    requires
        0 <= i < xs.len(),
    ensures
        try_steps(s, xs.take(i + 1), f) == match try_steps(s, xs.take(i), f) {
            Ok(t) => f(t, xs[i]),
            Err(e) => Err(e),
        },
{
    assert(xs.take(i + 1).drop_last() =~= xs.take(i));
}

/// A failure of the first steps is the failure of all.
pub proof fn try_steps_failed<S, A, E>(s: S, xs: Seq<A>, f: spec_fn(S, A) -> Result<S, E>, i: int)
    requires
        0 <= i <= xs.len(),
        try_steps(s, xs.take(i), f) is Err,
    ensures
        try_steps(s, xs, f) == try_steps(s, xs.take(i), f),
    decreases xs.len() - i,
{
    if i < xs.len() {
        try_steps_next(s, xs, f, i);
        try_steps_failed(s, xs, f, i + 1);
    } else {
        assert(xs.take(i) =~= xs);
    }
}

// ---------------------------------------------------------------------------
// Sorted sets of numbers
// ---------------------------------------------------------------------------

/// Inserts a number into an increasing sequence, unless it is there.
pub open spec fn insert_sorted(s: Seq<u32>, x: u32) -> Seq<u32>
    decreases s.len(),
{
    if s.len() == 0 {
        seq![x]
    } else if s.last() < x {
        s.push(x)
    } else if s.last() == x {
        s
    } else {
        insert_sorted(s.drop_last(), x).push(s.last())
    }
}

/// The numbers of `s`, each once, in increasing order.
pub open spec fn sorted_set(s: Seq<u32>) -> Seq<u32>
    decreases s.len(),
{
    if s.len() == 0 {
        Seq::empty()
    } else {
        insert_sorted(sorted_set(s.drop_last()), s.last())
    }
}

/// Strictly increasing.
pub open spec fn increasing(s: Seq<u32>) -> bool {
    forall|i: int, j: int| 0 <= i < j < s.len() ==> s[i] < s[j]
}

proof fn insert_sorted_properties(s: Seq<u32>, x: u32)
    requires
        increasing(s),
    ensures
        increasing(insert_sorted(s, x)),
        forall|y: u32| #[trigger] insert_sorted(s, x).contains(y) <==> s.contains(y) || y == x,
    decreases s.len(),
{
    let r = insert_sorted(s, x);
    if s.len() == 0 {
        assert(r[0] == x);
    } else if s.last() < x {
        assert(r[s.len() as int] == x);
        assert forall|y: u32| s.contains(y) implies #[trigger] r.contains(y) by {
            let i = choose|i: int| 0 <= i < s.len() && s[i] == y;
            assert(r[i] == y);
        }
    } else if s.last() == x {
        assert(s[s.len() - 1] == x);
    } else {
        let t = s.drop_last();
        let u = insert_sorted(t, x);
        insert_sorted_properties(t, x);
        assert forall|y: u32| #[trigger] r.contains(y) <==> s.contains(y) || y == x by {
            if r.contains(y) {
                let i = choose|i: int| 0 <= i < r.len() && r[i] == y;
                if i < u.len() {
                    assert(u[i] == y);
                    assert(u.contains(y));
                    if t.contains(y) {
                        let k = choose|k: int| 0 <= k < t.len() && t[k] == y;
                        assert(s[k] == y);
                    }
                } else {
                    assert(s[s.len() - 1] == y);
                }
            }
            if s.contains(y) {
                let i = choose|i: int| 0 <= i < s.len() && s[i] == y;
                if i < t.len() {
                    assert(t[i] == y);
                    assert(t.contains(y) && u.contains(y));
                    let k = choose|k: int| 0 <= k < u.len() && u[k] == y;
                    assert(r[k] == y);
                } else {
                    assert(r[u.len() as int] == y);
                }
            }
            if y == x {
                assert(u.contains(x));
                let k = choose|k: int| 0 <= k < u.len() && u[k] == x;
                assert(r[k] == x);
            }
        }
        assert forall|i: int, j: int| 0 <= i < j < r.len() implies r[i] < r[j] by {
            if j < u.len() {
                assert(u[i] < u[j]);
            } else {
                assert(u.contains(u[i]));
                if u[i] != x {
                    let k = choose|k: int| 0 <= k < t.len() && t[k] == u[i];
                    assert(s[k] < s[s.len() - 1]);
                }
            }
        }
    }
}

/// [`sorted_set`] is increasing and holds exactly the numbers of the sequence.
pub proof fn sorted_set_properties(s: Seq<u32>)
    ensures
        increasing(sorted_set(s)),
        forall|y: u32| #[trigger] sorted_set(s).contains(y) <==> s.contains(y),
    decreases s.len(),
{
    if s.len() > 0 {
        let t = s.drop_last();
        sorted_set_properties(t);
        insert_sorted_properties(sorted_set(t), s.last());
        assert forall|y: u32| #[trigger] sorted_set(s).contains(y) <==> s.contains(y) by {
            if s.contains(y) {
                let i = choose|i: int| 0 <= i < s.len() && s[i] == y;
                if i < t.len() {
                    assert(t[i] == y);
                }
            }
            if sorted_set(s).contains(y) {
                if y == s.last() {
                    assert(s[s.len() - 1] == y);
                } else {
                    let i = choose|i: int| 0 <= i < t.len() && t[i] == y;
                    assert(s[i] == y);
                }
            }
        }
    }
}

/// Inserts a number into an increasing vector, unless it is there.
pub fn insert_into_sorted(v: &mut Vec<u32>, x: u32)
    requires
        increasing(old(v)@),
    ensures
        final(v)@ == insert_sorted(old(v)@, x),
        increasing(final(v)@),
{
    let ghost start = v@;
    let mut i: usize = v.len();
    proof {
        insert_sorted_properties(start, x);
    }
    assert(start.take(i as int) =~= start);
    assert(insert_sorted(start, x) =~= insert_sorted(
        start.take(i as int),
        x,
    ) + start.skip(i as int));
    while i > 0 && v[i - 1] > x
        invariant
            i <= v@.len(),
            v@ == start,
            insert_sorted(start, x) == insert_sorted(
                start.take(i as int),
                x,
            ) + start.skip(i as int),
        decreases i,
    {
        let ghost t = start.take(i as int);
        assert(t.drop_last() =~= start.take(i - 1));
        assert(t.last() == start[i - 1]);
        assert(insert_sorted(t, x) + start.skip(i as int) =~= insert_sorted(start.take(i - 1), x)
            + start.skip(i - 1));
        i -= 1;
    }
    let ghost t = start.take(i as int);
    if i > 0 && v[i - 1] == x {
        assert(t.last() == x);
        assert(t + start.skip(i as int) =~= start);
        return;
    }
    assert(insert_sorted(t, x) =~= t.push(x));
    v.insert(i, x);
    assert(v@ =~= t.push(x) + start.skip(i as int));
}

/// A merged list starts with the list that it was merged into and repeats nothing of what was added.
pub proof fn merged_extends<A>(s: Seq<A>, more: Seq<A>)
    ensures
        s.is_prefix_of(merged(s, more)),
        forall|i: int, j: int|
            0 <= i < j && s.len() <= j < merged(s, more).len() ==> (#[trigger] merged(s, more)[i])
                != (#[trigger] merged(s, more)[j]),
    decreases more.len(),
{
    if more.len() > 0 {
        let front = merged(s, more.drop_last());
        let all = merged(s, more);
        merged_extends(s, more.drop_last());
        assert(s =~= all.subrange(0, s.len() as int));
        assert forall|i: int, j: int| 0 <= i < j && s.len() <= j < all.len() implies (
        #[trigger] all[i]) != (#[trigger] all[j]) by {
            assert(all[i] == front[i]);
            if j < front.len() {
                assert(all[j] == front[j]);
            } else {
                assert(front.contains(front[i]));
            }
        }
    } else {
        assert(s =~= s.subrange(0, s.len() as int));
    }
}

/// What a keyed list gives for a key is the value at the key's place, and nothing for other keys.
pub proof fn keyed_gives_the_value<K, V>(ks: Seq<K>, vs: Seq<V>, k: K)
    requires
        distinct(ks),
        ks.len() == vs.len(),
    ensures
        keyed(ks, vs).dom().contains(k) <==> ks.contains(k),
        forall|i: int| 0 <= i < ks.len() && #[trigger] ks[i] == k ==> keyed(ks, vs)[k] == vs[i],
{
    keyed_domain(ks, vs);
    assert forall|i: int| 0 <= i < ks.len() && #[trigger] ks[i] == k implies keyed(ks, vs)[k]
        == vs[i] by {
        keyed_at(ks, vs, i);
    }
}

} // verus!
