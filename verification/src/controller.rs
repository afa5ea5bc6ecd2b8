//! The configurations that the controller serves: their sources, their versions, and who is told.

use vstd::prelude::*;

use crate::admin::{denied, deny_named, misdirected, route, Route};
use crate::authz::{Authz, Caller};
use crate::config::{empty_config, ActionName, FileConfig, FileConfigView};
use crate::datum::Datum;
use crate::evpn_fold::{LearnedRoutes, LearnedRoutesView};
use crate::fabric_config::{config_of, derive_configs};
use crate::lists::{distinct, keyed, keyed_at, keyed_domain, keyed_len};
use crate::rest::{Code, Status, StatusView};
use crate::sorted::{
    in_order, keys, map_views, map_views_insert, texts_increasing, values, SortedMap, TextKey,
};
use crate::store::NodeId;
use crate::text::{debug_text, opt_view, views};
use crate::topology::{Fabric, FabricView};

verus! {

/// A configuration under its version.
#[derive(Debug, PartialEq, Eq)]
pub struct NodeConfig {
    pub version: u64,
    pub config: FileConfig,
}

/// What a [`NodeConfig`] holds.
#[verifier::ext_equal]
pub struct NodeConfigView {
    pub version: u64,
    pub config: FileConfigView,
}

impl View for NodeConfig {
    type V = NodeConfigView;

    open spec fn view(&self) -> NodeConfigView {
        NodeConfigView { version: self.version, config: self.config@ }
    }
}

/// A table of configurations by node.
pub type Configs = SortedMap<TextKey, FileConfig>;

/// The sources of configurations, and what is served.
#[derive(Debug)]
pub struct State {
    files: Configs,
    derived: Configs,
    overrides: Configs,
    served: SortedMap<TextKey, NodeConfig>,
    generation: u64,
}

/// What a [`State`] holds.
#[verifier::ext_equal]
pub struct StateView {
    /// From the per-node files.
    pub files: Map<Seq<char>, FileConfigView>,
    /// Derived from the fabric.
    pub derived: Map<Seq<char>, FileConfigView>,
    /// Pushed by an administrator.
    pub overrides: Map<Seq<char>, FileConfigView>,
    /// What each node is served.
    pub served: Map<Seq<char>, NodeConfigView>,
    /// The latest version that was given out.
    pub generation: u64,
}

impl View for State {
    type V = StateView;

    closed spec fn view(&self) -> StateView {
        StateView {
            files: map_views(self.files@),
            derived: map_views(self.derived@),
            overrides: map_views(self.overrides@),
            served: map_views(self.served@),
            generation: self.generation,
        }
    }
}

impl StateView {
    /// The state at the start.
    pub open spec fn initial() -> StateView {
        StateView {
            files: Map::empty(),
            derived: Map::empty(),
            overrides: Map::empty(),
            served: Map::empty(),
            generation: 0,
        }
    }

    /// What each node with a source is to get: an override before what is derived, and that before
    /// a file.
    pub open spec fn desired(self) -> Map<Seq<char>, FileConfigView> {
        self.files.union_prefer_right(self.derived).union_prefer_right(self.overrides)
    }

    /// What a node is to get. A node without a source gets the configuration without any entry.
    pub open spec fn target(self, node: Seq<char>) -> FileConfigView {
        if self.desired().dom().contains(node) {
            self.desired()[node]
        } else {
            empty_config()
        }
    }

    /// Whether a node is due for a new version: one with a source where it is not served what it is
    /// to get, and one without a source where it is served any entry.
    pub open spec fn due(self, node: Seq<char>) -> bool {
        if self.desired().dom().contains(node) {
            !self.served.dom().contains(node) || self.served[node].config != self.desired()[node]
        } else {
            self.served.dom().contains(node) && self.served[node].config != empty_config()
        }
    }

    /// How many versions a recomputation may need at most.
    pub open spec fn nodes(self) -> nat {
        self.files.dom().len() + self.derived.dom().len() + self.overrides.dom().len()
            + self.served.dom().len()
    }

    /// That a recomputation led to `after`: each node that is due gets what it is to get, under a
    /// version of its own above all earlier ones, with no version left out; every other node keeps
    /// what it has.
    pub open spec fn recomputed(self, after: StateView) -> bool {
        &&& after.files == self.files
        &&& after.derived == self.derived
        &&& after.overrides == self.overrides
        &&& self.generation <= after.generation
        &&& after.served.dom() == self.served.dom().union(self.desired().dom())
        &&& forall|n: Seq<char>| #[trigger]
            after.served.dom().contains(n) ==> if self.due(n) {
                &&& after.served[n].config == self.target(n)
                &&& self.generation < after.served[n].version <= after.generation
            } else {
                after.served[n] == self.served[n]
            }
        &&& forall|m: Seq<char>, n: Seq<char>|
            m != n && self.due(m) && self.due(n) ==> (#[trigger] after.served[m]).version != (
            #[trigger] after.served[n]).version
        &&& forall|v: u64|
            self.generation < v <= after.generation ==> #[trigger] self.gives(after, v)
    }

    /// Whether some node that is due has the version `v` in `after`.
    pub open spec fn gives(self, after: StateView, v: u64) -> bool {
        exists|n: Seq<char>| self.due(n) && (#[trigger] after.served[n]).version == v
    }

    /// Every served version was given out, and no two nodes share one.
    pub open spec fn wf(self) -> bool {
        &&& forall|n: Seq<char>|
            self.served.dom().contains(n) ==> 1 <= (#[trigger] self.served[n]).version
                <= self.generation
        &&& forall|m: Seq<char>, n: Seq<char>|
            m != n && self.served.dom().contains(m) && self.served.dom().contains(n) ==> (
            #[trigger] self.served[m]).version != (#[trigger] self.served[n]).version
    }

    /// What a node is sent: what it is served, or version 0 of the configuration without any entry.
    pub open spec fn sent(self, node: Seq<char>) -> NodeConfigView {
        if self.served.dom().contains(node) {
            self.served[node]
        } else {
            NodeConfigView { version: 0, config: empty_config() }
        }
    }
}

// ---------------------------------------------------------------------------
// Tables of configurations
// ---------------------------------------------------------------------------

proof fn views_domain<K, V: View>(m: Map<K, V>)
    ensures
        map_views(m).dom() == m.dom(),
{
    assert(map_views(m).dom() =~= m.dom());
}

/// Whether two tables hold the same configurations.
pub fn same_configs(a: &Configs, b: &Configs) -> (r: bool)
    requires
        a.inv(),
        b.inv(),
    ensures
        r == (map_views(a@) == map_views(b@)),
{
    let ghost (va, vb) = (map_views(a@), map_views(b@));
    let xs = a.items();
    let ys = b.items();
    proof {
        keyed_domain(keys(xs@), values(xs@));
        keyed_domain(keys(ys@), values(ys@));
    }
    for i in 0..xs.len()
        invariant
            b.inv(),
            va == map_views(a@),
            vb == map_views(b@),
            keyed(keys(xs@), values(xs@)) == a@,
            distinct(keys(xs@)),
            forall|j: int|
                0 <= j < i ==> vb.dom().contains(#[trigger] keys(xs@)[j]) && vb[keys(xs@)[j]]
                    == va[keys(xs@)[j]],
    {
        proof {
            keyed_at(keys(xs@), values(xs@), i as int);
        }
        let ghost k = keys(xs@)[i as int];
        assert(va.dom().contains(k) && va[k] == xs@[i as int].value@);
        match b.get(&xs[i].key) {
            Some(c) => {
                if !xs[i].value.matches(c) {
                    assert(vb[k] != va[k]);
                    return false;
                }
            },
            None => {
                assert(!vb.dom().contains(k));
                return false;
            },
        }
    }
    for i in 0..ys.len()
        invariant
            a.inv(),
            va == map_views(a@),
            vb == map_views(b@),
            keyed(keys(ys@), values(ys@)) == b@,
            distinct(keys(ys@)),
            forall|j: int| 0 <= j < i ==> va.dom().contains(#[trigger] keys(ys@)[j]),
    {
        proof {
            keyed_at(keys(ys@), values(ys@), i as int);
        }
        let ghost k = keys(ys@)[i as int];
        assert(vb.dom().contains(k));
        if a.get(&ys[i].key).is_none() {
            assert(!va.dom().contains(k));
            return false;
        }
    }
    proof {
        assert forall|k: Seq<char>| va.dom().contains(k) implies vb.dom().contains(k) && vb[k]
            == va[k] by {
            let j = choose|j: int| 0 <= j < keys(xs@).len() && keys(xs@)[j] == k;
            assert(vb.dom().contains(keys(xs@)[j]));
        }
        assert forall|k: Seq<char>| vb.dom().contains(k) implies va.dom().contains(k) by {
            let j = choose|j: int| 0 <= j < keys(ys@).len() && keys(ys@)[j] == k;
            assert(va.dom().contains(keys(ys@)[j]));
        }
        assert(va =~= vb);
    }
    true
}

/// Lays the configurations of `over` on top of those in `base`.
fn lay_over(base: &mut Configs, over: &Configs)
    requires
        old(base).inv(),
        over.inv(),
    ensures
        final(base).inv(),
        map_views(final(base)@) == map_views(old(base)@).union_prefer_right(map_views(over@)),
{
    let ghost start = map_views(base@);
    let ghost top = map_views(over@);
    let items = over.items();
    let ghost ks = keys(items@);
    proof {
        keyed_domain(ks, values(items@));
    }
    for i in 0..items.len()
        invariant
            base.inv(),
            top == map_views(over@),
            ks == keys(items@),
            keyed(ks, values(items@)) == over@,
            distinct(ks),
            forall|k: Seq<char>| #[trigger]
                map_views(base@).dom().contains(k) <==> start.dom().contains(k) || ks.take(
                    i as int,
                ).contains(k),
            forall|k: Seq<char>| #[trigger]
                map_views(base@).dom().contains(k) ==> map_views(base@)[k] == (if ks.take(
                    i as int,
                ).contains(k) {
                    top[k]
                } else {
                    start[k]
                }),
    {
        let ghost before = base@;
        let ghost k0 = ks[i as int];
        proof {
            keyed_at(ks, values(items@), i as int);
        }
        let key = TextKey { text: items[i].key.text.clone() };
        let value = items[i].value.copied();
        base.insert(key, value);
        proof {
            map_views_insert(before, k0, value);
            assert(top[k0] == value@);
            let now = map_views(base@);
            assert forall|k: Seq<char>| #[trigger] now.dom().contains(k)
                <==> start.dom().contains(k)
                || ks.take(i as int + 1).contains(k) by {
                taken_contains(ks, i as int, k);
                assert(map_views(before).dom().contains(k) <==> start.dom().contains(k) || ks.take(
                    i as int,
                ).contains(k));
            }
            assert forall|k: Seq<char>| #[trigger] now.dom().contains(k) implies now[k] == (
            if ks.take(i as int + 1).contains(k) {
                top[k]
            } else {
                start[k]
            }) by {
                taken_contains(ks, i as int, k);
                if k != k0 {
                    assert(map_views(before).dom().contains(k));
                }
            }
        }
    }
    proof {
        assert(ks.take(ks.len() as int) =~= ks);
        let want = start.union_prefer_right(top);
        assert forall|k: Seq<char>| #[trigger] map_views(base@).dom().contains(k)
            <==> want.dom().contains(k) by {
            assert(over@.dom().contains(k) <==> ks.contains(k));
        }
        assert forall|k: Seq<char>| #[trigger] map_views(base@).dom().contains(k) implies map_views(
            base@,
        )[k] == want[k] by {
            assert(over@.dom().contains(k) <==> ks.contains(k));
        }
        assert(map_views(base@) =~= want);
    }
}

// ---------------------------------------------------------------------------
// Recomputation
// ---------------------------------------------------------------------------

/// Where a recomputation of `s` stands once the nodes in `seen` are dealt with: those of them that
/// were due are listed in `done`, in the order of their new versions.
spec fn progress(
    s: StateView,
    seen: Set<Seq<char>>,
    done: Seq<Seq<char>>,
    served: Map<Seq<char>, NodeConfigView>,
    generation: int,
) -> bool {
    &&& generation == s.generation + done.len()
    &&& served.dom() == s.served.dom().union(seen)
    &&& forall|n: Seq<char>| !seen.contains(n) && #[trigger] served.dom().contains(n) ==> served[n]
        == s.served[n]
    &&& forall|n: Seq<char>| #[trigger]
        seen.contains(n) ==> if s.due(n) {
            done.contains(n) && served[n].config == s.target(n)
        } else {
            served[n] == s.served[n] && s.served.dom().contains(n)
        }
    &&& distinct(done)
    &&& forall|i: int|
        0 <= i < done.len() ==> s.due(#[trigger] done[i]) && seen.contains(done[i])
            && served[done[i]].version == s.generation + 1 + i
}

proof fn progress_start(s: StateView)
    ensures
        progress(s, Set::empty(), Seq::empty(), s.served, s.generation as int),
{
    assert(s.served.dom() =~= s.served.dom().union(Set::empty()));
}

proof fn progress_kept(
    s: StateView,
    seen: Set<Seq<char>>,
    done: Seq<Seq<char>>,
    served: Map<Seq<char>, NodeConfigView>,
    generation: int,
    node: Seq<char>,
)
    requires
        progress(s, seen, done, served, generation),
        !seen.contains(node),
        served.dom().contains(node),
        !s.due(node),
    ensures
        progress(s, seen.insert(node), done, served, generation),
{
    let now = seen.insert(node);
    assert(s.served.dom().contains(node));
    assert(served.dom() =~= s.served.dom().union(now));
}

proof fn progress_made(
    s: StateView,
    seen: Set<Seq<char>>,
    done: Seq<Seq<char>>,
    served: Map<Seq<char>, NodeConfigView>,
    generation: int,
    node: Seq<char>,
    given: NodeConfigView,
)
    requires
        progress(s, seen, done, served, generation),
        !seen.contains(node),
        s.due(node),
        given.config == s.target(node),
        given.version == generation + 1,
    ensures
        progress(
            s,
            seen.insert(node),
            done.push(node),
            served.insert(node, given),
            generation + 1,
        ),
{
    let now = seen.insert(node);
    let list = done.push(node);
    let table = served.insert(node, given);
    assert(table.dom() =~= s.served.dom().union(now));
    assert forall|i: int| 0 <= i < list.len() implies s.due(#[trigger] list[i]) && now.contains(
        list[i],
    ) && table[list[i]].version == s.generation + 1 + i by {
        if i < done.len() {
            assert(list[i] == done[i]);
        }
    }
    assert(distinct(list)) by {
        assert forall|i: int, j: int| 0 <= i < j < list.len() implies list[i] != list[j] by {
            assert(seen.contains(done[i]));
        }
    }
    assert forall|n: Seq<char>| #[trigger] now.contains(n) implies if s.due(n) {
        list.contains(n) && table[n].config == s.target(n)
    } else {
        table[n] == s.served[n] && s.served.dom().contains(n)
    } by {
        if n == node {
            assert(list[list.len() - 1] == n);
        } else {
            assert(seen.contains(n));
            if s.due(n) {
                let i = choose|i: int| 0 <= i < done.len() && done[i] == n;
                assert(list[i] == n);
            }
        }
    }
}

proof fn progress_complete(
    s: StateView,
    seen: Set<Seq<char>>,
    done: Seq<Seq<char>>,
    after: StateView,
)
    requires
        progress(s, seen, done, after.served, after.generation as int),
        after.files == s.files,
        after.derived == s.derived,
        after.overrides == s.overrides,
        seen =~= s.served.dom().union(s.desired().dom()),
    ensures
        s.recomputed(after),
        after.generation > s.generation <==> exists|n: Seq<char>| s.due(n),
{
    assert(after.served.dom() =~= s.served.dom().union(s.desired().dom()));
    assert forall|n: Seq<char>| #[trigger] after.served.dom().contains(n) implies if s.due(n) {
        &&& after.served[n].config == s.target(n)
        &&& s.generation < after.served[n].version <= after.generation
    } else {
        after.served[n] == s.served[n]
    } by {
        assert(seen.contains(n));
        if s.due(n) {
            let i = choose|i: int| 0 <= i < done.len() && done[i] == n;
            assert(after.served[done[i]].version == s.generation + 1 + i);
        }
    }
    assert forall|m: Seq<char>, n: Seq<char>| m != n && s.due(m) && s.due(n) implies (
    #[trigger] after.served[m]).version != (#[trigger] after.served[n]).version by {
        assert(seen.contains(m) && seen.contains(n));
        let i = choose|i: int| 0 <= i < done.len() && done[i] == m;
        let j = choose|j: int| 0 <= j < done.len() && done[j] == n;
        assert(after.served[done[i]].version == s.generation + 1 + i);
        assert(after.served[done[j]].version == s.generation + 1 + j);
    }
    assert forall|v: u64| s.generation < v <= after.generation implies #[trigger] s.gives(
        after,
        v,
    ) by {
        let i = v - s.generation - 1;
        assert(s.due(done[i]) && after.served[done[i]].version == v);
    }
    if after.generation > s.generation {
        assert(s.due(done[0]));
    }
    if exists|n: Seq<char>| s.due(n) {
        let n = choose|n: Seq<char>| s.due(n);
        assert(seen.contains(n));
        assert(done.contains(n));
    }
}

/// Whether what is served is `desired`, whatever its version.
pub fn same_except_version(served: &NodeConfig, desired: &FileConfig) -> (r: bool)
    ensures
        r == (served@.config == desired@),
{
    served.config.matches(desired)
}

impl State {
    /// The tables are in order.
    pub closed spec fn inv(&self) -> bool {
        &&& self.files.inv()
        &&& self.derived.inv()
        &&& self.overrides.inv()
        &&& self.served.inv()
    }

    /// A state without any source.
    pub fn new() -> (r: Self)
        ensures
            r.inv(),
            r@ == StateView::initial(),
            r@.wf(),
    {
        let r = State {
            files: SortedMap::new(),
            derived: SortedMap::new(),
            overrides: SortedMap::new(),
            served: SortedMap::new(),
            generation: 0,
        };
        assert(r@ =~= StateView::initial());
        r
    }

    /// What each node with a source is to get.
    fn merge(&self) -> (r: Configs)
        requires
            self.inv(),
        ensures
            r.inv(),
            map_views(r@) == self@.desired(),
    {
        let mut r: Configs = SortedMap::new();
        lay_over(&mut r, &self.files);
        assert(map_views(r@) =~= self@.files);
        lay_over(&mut r, &self.derived);
        lay_over(&mut r, &self.overrides);
        r
    }

    proof fn room(&self, merged: Configs)
        requires
            self.inv(),
            map_views(merged@) == self@.desired(),
        ensures
            merged@.dom().len() + self.served@.dom().len() <= self@.nodes(),
    {
        let (f, d, o) = (self@.files.dom(), self@.derived.dom(), self@.overrides.dom());
        views_domain(self.files@);
        views_domain(self.derived@);
        views_domain(self.overrides@);
        views_domain(self.served@);
        views_domain(merged@);
        self.files.domain_is_finite();
        self.derived.domain_is_finite();
        self.overrides.domain_is_finite();
        vstd::set_lib::lemma_len_union(f, d);
        vstd::set_lib::lemma_len_union(f.union(d), o);
        assert(self@.desired().dom() =~= f.union(d).union(o));
    }

    /// Brings what is served in line with the sources. Gives the generation to wake watchers with,
    /// if any node was due.
    pub fn recompute(&mut self) -> (r: Option<u64>)
        requires
            old(self).inv(),
            old(self)@.generation + old(self)@.nodes() <= u64::MAX,
        ensures
            final(self).inv(),
            old(self)@.recomputed(final(self)@),
            r == (if exists|n: Seq<char>| old(self)@.due(n) {
                Some(final(self)@.generation)
            } else {
                None
            }),
    {
        let ghost s = self@;
        let start: u64 = self.generation;
        let merged = self.merge();
        proof {
            self.room(merged);
        }
        let items = merged.items();
        let ghost ks = keys(items@);
        let ghost mut seen = Set::<Seq<char>>::empty();
        let ghost mut done = Seq::<Seq<char>>::empty();
        proof {
            progress_start(s);
            self.served.domain_is_finite();
            keyed_domain(ks, values(items@));
            keyed_len(ks, values(items@));
            views_domain(self.served@);
        }
        for i in 0..items.len()
            invariant
                self.inv(),
                ks == keys(items@),
                keyed(ks, values(items@)) == merged@,
                distinct(ks),
                map_views(merged@) == s.desired(),
                self@.files == s.files,
                self@.derived == s.derived,
                self@.overrides == s.overrides,
                progress(s, seen, done, self@.served, self.generation as int),
                forall|n: Seq<char>| #[trigger] seen.contains(n) <==> ks.take(i as int).contains(n),
                done.len() <= i,
                s.generation + items@.len() <= u64::MAX,
        {
            let ghost node = ks[i as int];
            proof {
                keyed_at(ks, values(items@), i as int);
                assert(s.desired().dom().contains(node) && s.desired()[node]
                    == items@[i as int].value@);
                assert(!seen.contains(node)) by {
                    if ks.take(i as int).contains(node) {
                        let j = choose|j: int| 0 <= j < i && ks.take(i as int)[j] == node;
                        assert(ks[j] == node);
                    }
                }
                assert forall|n: Seq<char>| ks.take(i as int + 1).contains(n) <==> ks.take(
                    i as int,
                ).contains(n) || n == node by {
                    taken_contains(ks, i as int, n);
                }
            }
            let differs = match self.served.get(&items[i].key) {
                Some(current) => {
                    assert(self@.served.dom().contains(node) && self@.served[node] == current@);
                    !same_except_version(current, &items[i].value)
                },
                None => {
                    assert(!self@.served.dom().contains(node));
                    true
                },
            };
            assert(self@.served.dom().contains(node) ==> self@.served[node] == s.served[node]);
            assert(s.served.dom().union(seen).contains(node) <==> s.served.dom().contains(node));
            assert(differs == s.due(node));
            if differs {
                let ghost before = self.served@;
                let ghost generation = self.generation as int;
                self.generation = self.generation + 1;
                let given = NodeConfig {
                    version: self.generation,
                    config: items[i].value.copied(),
                };
                self.served.insert(TextKey { text: items[i].key.text.clone() }, given);
                proof {
                    map_views_insert(before, node, given);
                    progress_made(s, seen, done, map_views(before), generation, node, given@);
                    done = done.push(node);
                }
            } else {
                proof {
                    progress_kept(s, seen, done, self@.served, self.generation as int, node);
                }
            }
            proof {
                seen = seen.insert(node);
            }
        }
        assert(ks.take(ks.len() as int) =~= ks);
        let stale = stale_nodes(&self.served, &merged);
        let ghost first = seen;
        proof {
            views_domain(self.served@);
            views_domain(merged@);
            assert forall|n: Seq<char>| #[trigger] seen.contains(n) <==> s.desired().dom().contains(
                n,
            ) by {
                assert(merged@.dom().contains(n) <==> ks.contains(n));
            }
            stale_are_few(views(stale@), s.served.dom());
        }
        let ghost names = views(stale@);
        for i in 0..stale.len()
            invariant
                self.inv(),
                names == views(stale@),
                distinct(names),
                self@.files == s.files,
                self@.derived == s.derived,
                self@.overrides == s.overrides,
                progress(s, seen, done, self@.served, self.generation as int),
                forall|n: Seq<char>| #[trigger]
                    first.contains(n) <==> s.desired().dom().contains(n),
                forall|n: Seq<char>| #[trigger]
                    seen.contains(n) <==> first.contains(n) || names.take(i as int).contains(n),
                forall|n: Seq<char>|
                    names.contains(n) <==> s.served.dom().contains(n)
                        && !s.desired().dom().contains(n),
                done.len() <= items@.len() + i,
                s.generation + items@.len() + names.len() <= u64::MAX,
        {
            let ghost node = names[i as int];
            proof {
                assert(names.contains(node));
                assert(!seen.contains(node)) by {
                    if names.take(i as int).contains(node) {
                        let j = choose|j: int| 0 <= j < i && names.take(i as int)[j] == node;
                        assert(names[j] == node);
                    }
                }
                assert forall|n: Seq<char>| names.take(i as int + 1).contains(n) <==> names.take(
                    i as int,
                ).contains(n) || n == node by {
                    taken_contains(names, i as int, n);
                }
            }
            let key = TextKey { text: stale[i].clone() };
            let empty = FileConfig::default();
            let differs = match self.served.get(&key) {
                Some(current) => {
                    assert(self@.served.dom().contains(node) && self@.served[node] == current@);
                    !same_except_version(current, &empty)
                },
                None => true,
            };
            assert(self@.served.dom().contains(node)) by {
                assert(s.served.dom().union(seen).contains(node));
            }
            assert(differs == s.due(node));
            if differs {
                let ghost before = self.served@;
                let ghost generation = self.generation as int;
                self.generation = self.generation + 1;
                let given = NodeConfig { version: self.generation, config: empty };
                self.served.insert(key, given);
                proof {
                    map_views_insert(before, node, given);
                    progress_made(s, seen, done, map_views(before), generation, node, given@);
                    done = done.push(node);
                }
            } else {
                proof {
                    progress_kept(s, seen, done, self@.served, self.generation as int, node);
                }
            }
            proof {
                seen = seen.insert(node);
            }
        }
        proof {
            assert(names.take(names.len() as int) =~= names);
            assert(seen =~= s.served.dom().union(s.desired().dom()));
            progress_complete(s, seen, done, self@);
        }
        if self.generation > start {
            Some(self.generation)
        } else {
            None
        }
    }
}

proof fn taken_contains<A>(s: Seq<A>, i: int, x: A)
    requires
        0 <= i < s.len(),
    ensures
        s.take(i + 1).contains(x) <==> s.take(i).contains(x) || x == s[i],
{
    assert(s.take(i + 1) =~= s.take(i).push(s[i]));
    if x == s[i] {
        assert(s.take(i + 1)[i] == x);
    }
    if s.take(i).contains(x) {
        let j = choose|j: int| 0 <= j < i && s.take(i)[j] == x;
        assert(s.take(i + 1)[j] == x);
    }
    if s.take(i + 1).contains(x) && x != s[i] {
        let t = s.take(i + 1);
        let j = choose|j: int| 0 <= j < t.len() && t[j] == x;
        assert(s.take(i)[j] == x);
    }
}

proof fn stale_are_few(names: Seq<Seq<char>>, served: Set<Seq<char>>)
    requires
        distinct(names),
        served.finite(),
        forall|n: Seq<char>| names.contains(n) ==> served.contains(n),
    ensures
        names.len() <= served.len(),
    decreases names.len(),
{
    if names.len() > 0 {
        let last = names.last();
        assert(names.contains(last));
        let rest = names.drop_last();
        assert forall|n: Seq<char>| rest.contains(n) implies served.remove(last).contains(n) by {
            let j = choose|j: int| 0 <= j < rest.len() && rest[j] == n;
            assert(names[j] == n && names[j] != names[names.len() - 1]);
        }
        stale_are_few(rest, served.remove(last));
    }
}

/// The nodes that are served without being in `wanted`.
fn stale_nodes(served: &SortedMap<TextKey, NodeConfig>, wanted: &Configs) -> (r: Vec<String>)
    requires
        served.inv(),
        wanted.inv(),
    ensures
        distinct(views(r@)),
        forall|n: Seq<char>|
            views(r@).contains(n) <==> served@.dom().contains(n) && !wanted@.dom().contains(n),
{
    let items = served.items();
    let ghost ks = keys(items@);
    let mut r: Vec<String> = Vec::new();
    proof {
        keyed_domain(ks, values(items@));
    }
    for i in 0..items.len()
        invariant
            wanted.inv(),
            ks == keys(items@),
            distinct(ks),
            distinct(views(r@)),
            forall|n: Seq<char>|
                views(r@).contains(n) <==> ks.take(i as int).contains(n) && !wanted@.dom().contains(
                    n,
                ),
    {
        let ghost before = views(r@);
        let ghost node = ks[i as int];
        proof {
            assert(!ks.take(i as int).contains(node)) by {
                if ks.take(i as int).contains(node) {
                    let j = choose|j: int| 0 <= j < i && ks.take(i as int)[j] == node;
                    assert(ks[j] == node);
                }
            }
        }
        if wanted.get(&items[i].key).is_none() {
            r.push(items[i].key.text.clone());
            proof {
                assert(views(r@) =~= before.push(node));
                assert forall|n: Seq<char>| views(r@).contains(n) <==> ks.take(
                    i as int + 1,
                ).contains(n) && !wanted@.dom().contains(n) by {
                    taken_contains(ks, i as int, n);
                    if before.contains(n) {
                        let j = choose|j: int| 0 <= j < before.len() && before[j] == n;
                        assert(views(r@)[j] == n);
                    }
                    if n == node {
                        assert(views(r@)[before.len() as int] == n);
                    }
                    if views(r@).contains(n) && n != node {
                        let j = choose|j: int| 0 <= j < views(r@).len() && views(r@)[j] == n;
                        assert(before[j] == n);
                    }
                }
                assert forall|a: int, b: int| 0 <= a < b < views(r@).len() implies views(r@)[a]
                    != views(r@)[b] by {
                    if b == before.len() {
                        assert(before.contains(before[a]));
                    }
                }
            }
        } else {
            proof {
                assert forall|n: Seq<char>| views(r@).contains(n) <==> ks.take(
                    i as int + 1,
                ).contains(n) && !wanted@.dom().contains(n) by {
                    taken_contains(ks, i as int, n);
                }
            }
        }
    }
    proof {
        assert(ks.take(ks.len() as int) =~= ks);
    }
    r
}

// ---------------------------------------------------------------------------
// Changes of the sources
// ---------------------------------------------------------------------------

impl State {
    /// Replaces the configurations from files, and recomputes if they changed.
    pub fn set_files(&mut self, files: Configs) -> (r: Option<u64>)
        requires
            old(self).inv(),
            files.inv(),
            old(self)@.generation + map_views(files@).dom().len() + old(self)@.nodes() <= u64::MAX,
        ensures
            final(self).inv(),
            if map_views(files@) == old(self)@.files {
                final(self)@ == old(self)@ && r is None
            } else {
                let s = StateView { files: map_views(files@), ..old(self)@ };
                &&& s.recomputed(final(self)@)
                &&& r == s.notice(final(self)@)
            },
    {
        if same_configs(&self.files, &files) {
            return None;
        }
        self.files = files;
        self.recompute()
    }

    /// Replaces the configurations derived from the fabric, and recomputes if they changed.
    pub fn set_derived(&mut self, derived: Configs) -> (r: Option<u64>)
        requires
            old(self).inv(),
            derived.inv(),
            old(self)@.generation + map_views(derived@).dom().len() + old(self)@.nodes()
                <= u64::MAX,
        ensures
            final(self).inv(),
            if map_views(derived@) == old(self)@.derived {
                final(self)@ == old(self)@ && r is None
            } else {
                let s = StateView { derived: map_views(derived@), ..old(self)@ };
                &&& s.recomputed(final(self)@)
                &&& r == s.notice(final(self)@)
            },
    {
        if same_configs(&self.derived, &derived) {
            return None;
        }
        self.derived = derived;
        self.recompute()
    }

    /// Sets the sources at the start, and recomputes.
    pub fn load(&mut self, files: Option<Configs>, derived: Configs) -> (r: Option<u64>)
        requires
            old(self).inv(),
            files is Some ==> files->0.inv(),
            derived.inv(),
            old(self)@.loaded(files, map_views(derived@)).generation + old(self)@.loaded(
                files,
                map_views(derived@),
            ).nodes() <= u64::MAX,
        ensures
            final(self).inv(),
            old(self)@.loaded(files, map_views(derived@)).recomputed(final(self)@),
            r == old(self)@.loaded(files, map_views(derived@)).notice(final(self)@),
    {
        match files {
            Some(f) => {
                self.files = f;
            },
            None => {},
        }
        self.derived = derived;
        self.recompute()
    }
}

/// What the fabric derives for each of its hosts, with learned routes folded in.
pub open spec fn fabric_configs(f: FabricView, routes: LearnedRoutesView) -> Map<
    Seq<char>,
    FileConfigView,
> {
    Map::new(
        |id: Seq<char>| f.topo.hosts.dom().contains(id),
        |id: Seq<char>| config_of(f, id, Some(routes)),
    )
}

impl State {
    /// Derives the configuration of every host from the fabric once more, and recomputes if any
    /// changed.
    pub fn re_derive(&mut self, f: &Fabric, routes: &LearnedRoutes) -> (r: Option<u64>)
        requires
            old(self).inv(),
            f.inv(),
            f@.topo.wf(),
            old(self)@.generation + f@.topo.hosts.dom().len() + old(self)@.nodes() <= u64::MAX,
        ensures
            final(self).inv(),
            if fabric_configs(f@, routes@) == old(self)@.derived {
                final(self)@ == old(self)@ && r is None
            } else {
                let s = StateView { derived: fabric_configs(f@, routes@), ..old(self)@ };
                &&& s.recomputed(final(self)@)
                &&& r == s.notice(final(self)@)
            },
    {
        let derived = derive_configs(f, Some(routes));
        assert(map_views(derived@) =~= fabric_configs(f@, routes@));
        assert(fabric_configs(f@, routes@).dom() =~= f@.topo.hosts.dom());
        self.set_derived(derived)
    }
}

impl StateView {
    /// The state with the sources of the start. Without a directory of files the files stay.
    pub open spec fn loaded(
        self,
        files: Option<Configs>,
        derived: Map<Seq<char>, FileConfigView>,
    ) -> StateView {
        StateView {
            files: match files {
                Some(f) => map_views(f@),
                None => self.files,
            },
            derived,
            ..self
        }
    }

    /// The generation that watchers are woken with, if any node was due.
    pub open spec fn notice(self, after: StateView) -> Option<u64> {
        if exists|n: Seq<char>| self.due(n) {
            Some(after.generation)
        } else {
            None
        }
    }

    /// The state with an override for `node`.
    pub open spec fn overridden(self, node: Seq<char>, config: FileConfigView) -> StateView {
        StateView { overrides: self.overrides.insert(node, config), ..self }
    }

    /// The state without an override for `node`.
    pub open spec fn reverted(self, node: Seq<char>) -> StateView {
        StateView { overrides: self.overrides.remove(node), ..self }
    }
}

/// The answer to an administrator's push: a denial, a missing or an invalid configuration, or a
/// member that does not lead its cluster, in this order.
pub open spec fn push_refusal(
    may_write: bool,
    node: Seq<char>,
    config: Option<FileConfigView>,
    invalid: Option<Seq<char>>,
    member: Option<NodeId>,
    leader: Option<NodeId>,
) -> Option<StatusView> {
    if !may_write {
        Some(denied("set config for node "@ + debug_text(node)))
    } else if config is None {
        Some(StatusView { code: Code::InvalidArgument, message: "missing config"@ })
    } else {
        match invalid {
            Some(e) => Some(
                StatusView { code: Code::InvalidArgument, message: "invalid config: "@ + e },
            ),
            None => misdirected(member, leader),
        }
    }
}

/// The answer to an administrator's withdrawal: a denial, or a member that does not lead its
/// cluster, in this order.
pub open spec fn withdraw_refusal(
    may_write: bool,
    node: Seq<char>,
    member: Option<NodeId>,
    leader: Option<NodeId>,
) -> Option<StatusView> {
    if !may_write {
        Some(denied("delete config for node "@ + debug_text(node)))
    } else {
        misdirected(member, leader)
    }
}

impl State {
    /// Pushes a configuration for `node` over its other sources. `invalid` says what the validation
    /// of the configuration found wrong with it; `member` and `leader` are as in [`route`].
    pub fn set_config(
        &mut self,
        authz: &Authz,
        caller: &Caller,
        node: String,
        config: Option<FileConfig>,
        invalid: Option<String>,
        member: Option<NodeId>,
        leader: Option<NodeId>,
    ) -> (r: Result<Option<u64>, Status>)
        requires
            old(self).inv(),
            old(self)@.generation + old(self)@.nodes() < u64::MAX,
        ensures
            final(self).inv(),
            ({
                let refusal = push_refusal(
                    authz@.may_write_host(caller@, node@),
                    node@,
                    opt_view(config),
                    opt_view(invalid),
                    member,
                    leader,
                );
                match r {
                    Err(e) => refusal == Some(e@) && final(self)@ == old(self)@,
                    Ok(notice) => {
                        let s = old(self)@.overridden(node@, config->0@);
                        &&& refusal is None
                        &&& s.recomputed(final(self)@)
                        &&& notice == s.notice(final(self)@)
                    },
                }
            }),
    {
        if !authz.allow_host(caller, node.as_str()) {
            return Err(deny_named("set config for node ", node.as_str()));
        }
        let config = match config {
            Some(c) => c,
            None => {
                return Err(
                    Status {
                        code: Code::InvalidArgument,
                        message: String::from_str("missing config"),
                    },
                );
            },
        };
        match invalid {
            Some(e) => {
                let mut message = String::from_str("invalid config: ");
                message.append(e.as_str());
                return Err(Status { code: Code::InvalidArgument, message });
            },
            None => {},
        }
        match route(member, leader) {
            Route::Redirect(status) => {
                return Err(status);
            },
            _ => {},
        }
        let ghost before = self.overrides@;
        let ghost s = self@;
        proof {
            views_domain(before);
            self.overrides.domain_is_finite();
            map_views_insert(before, node@, config);
        }
        self.overrides.insert(TextKey { text: node }, config);
        assert(self@ =~= s.overridden(node@, config@));
        assert(self@.overrides.dom() =~= s.overrides.dom().insert(node@));
        Ok(self.recompute())
    }

    /// Withdraws what was pushed for `node`. Tells whether there was anything, and the generation
    /// to wake watchers with. `member` and `leader` are as in [`route`].
    pub fn delete_config(
        &mut self,
        authz: &Authz,
        caller: &Caller,
        node: String,
        member: Option<NodeId>,
        leader: Option<NodeId>,
    ) -> (r: Result<(bool, Option<u64>), Status>)
        requires
            old(self).inv(),
            old(self)@.generation + old(self)@.nodes() <= u64::MAX,
        ensures
            final(self).inv(),
            match r {
                Err(e) => {
                    &&& withdraw_refusal(
                        authz@.may_write_host(caller@, node@),
                        node@,
                        member,
                        leader,
                    ) == Some(e@)
                    &&& final(self)@ == old(self)@
                },
                Ok((existed, notice)) => {
                    let s = old(self)@.reverted(node@);
                    &&& withdraw_refusal(
                        authz@.may_write_host(caller@, node@),
                        node@,
                        member,
                        leader,
                    ) is None
                    &&& existed == old(self)@.overrides.dom().contains(node@)
                    &&& if existed {
                        s.recomputed(final(self)@) && notice == s.notice(final(self)@)
                    } else {
                        final(self)@ == old(self)@ && notice is None
                    }
                },
            },
    {
        if !authz.allow_host(caller, node.as_str()) {
            return Err(deny_named("delete config for node ", node.as_str()));
        }
        match route(member, leader) {
            Route::Redirect(status) => {
                return Err(status);
            },
            _ => {},
        }
        let ghost before = self.overrides@;
        let ghost s = self@;
        let key = TextKey { text: node };
        let existed = self.overrides.remove(&key);
        proof {
            views_domain(before);
            assert(map_views(before.remove(node@)) =~= map_views(before).remove(node@));
            assert(self@ =~= s.reverted(node@));
            if !existed {
                assert(s.overrides.remove(node@) =~= s.overrides);
            }
        }
        if !existed {
            return Ok((false, None));
        }
        proof {
            self.overrides.domain_is_finite();
            views_domain(self.overrides@);
            assert(s.overrides.dom() =~= self@.overrides.dom().insert(node@));
        }
        let notice = self.recompute();
        Ok((true, notice))
    }

    /// What `node` is sent.
    pub fn get_config(&self, node: &str) -> (r: NodeConfig)
        requires
            self.inv(),
        ensures
            r@ == self@.sent(node@),
    {
        let key = TextKey { text: String::from_str(node) };
        match self.served.get(&key) {
            Some(c) => NodeConfig { version: c.version, config: c.config.copied() },
            None => NodeConfig { version: 0, config: FileConfig::default() },
        }
    }

    /// What a watcher of `node` is sent next, if it has something else than the version
    /// `last_sent`.
    pub fn watch_config(&self, node: &str, last_sent: u64) -> (r: Option<NodeConfig>)
        requires
            self.inv(),
        ensures
            opt_view(r) == (if self@.sent(node@).version != last_sent {
                Some(self@.sent(node@))
            } else {
                None
            }),
    {
        let c = self.get_config(node);
        if c.version != last_sent {
            Some(c)
        } else {
            None
        }
    }

    /// Lists the nodes that are served, in the order of their names.
    pub fn list_nodes(&self) -> (r: Vec<NodeSummary>)
        requires
            self.inv(),
        ensures
            texts_increasing(Seq::new(r@.len(), |i: int| r@[i].node_id@)),
            forall|n: Seq<char>| #[trigger]
                self@.served.dom().contains(n) <==> exists|i: int|
                    0 <= i < r@.len() && (#[trigger] r@[i]).node_id@ == n,
            forall|i: int| 0 <= i < r@.len()
                ==> (#[trigger] r@[i])@ == self@.summary(r@[i].node_id@),
    {
        let items = self.served.items();
        let ghost ks = keys(items@);
        let mut r: Vec<NodeSummary> = Vec::new();
        proof {
            keyed_domain(ks, values(items@));
        }
        for i in 0..items.len()
            invariant
                self.inv(),
                ks == keys(items@),
                keyed(ks, values(items@)) == self.served@,
                distinct(ks),
                r@.len() == i,
                forall|j: int|
                    0 <= j < i ==> (#[trigger] r@[j]).node_id@ == ks[j] && r@[j]@ == self@.summary(
                        ks[j],
                    ),
        {
            proof {
                keyed_at(ks, values(items@), i as int);
            }
            let key = &items[i].key;
            let from_admin = self.overrides.get(key).is_some();
            let source = if from_admin {
                "admin"
            } else if self.derived.get(key).is_some() {
                "derived"
            } else if self.files.get(key).is_some() {
                "file"
            } else {
                "default"
            };
            assert(self@.served[ks[i as int]] == items@[i as int].value@);
            r.push(
                NodeSummary {
                    node_id: key.text.clone(),
                    version: items[i].value.version,
                    from_admin,
                    source: String::from_str(source),
                },
            );
        }
        proof {
            let names = Seq::new(r@.len(), |i: int| r@[i].node_id@);
            assert forall|i: int, j: int| 0 <= i < j < names.len() implies
                crate::sorted::text_before(#[trigger] names[i], #[trigger] names[j]) by {
                assert(in_order(items@));
                assert(r@[i].node_id@ == ks[i] && r@[j].node_id@ == ks[j]);
                assert(items@[i].key@ == ks[i] && items@[j].key@ == ks[j]);
            }
            assert forall|n: Seq<char>| #[trigger] self@.served.dom().contains(n) <==> exists|
                i: int,
            |
                0 <= i < r@.len() && (#[trigger] r@[i]).node_id@ == n by {
                assert(self.served@.dom().contains(n) <==> ks.contains(n));
                if ks.contains(n) {
                    let i = choose|i: int| 0 <= i < ks.len() && ks[i] == n;
                    assert(r@[i].node_id@ == n);
                }
                if exists|i: int| 0 <= i < r@.len() && (#[trigger] r@[i]).node_id@ == n {
                    let i = choose|i: int| 0 <= i < r@.len() && (#[trigger] r@[i]).node_id@ == n;
                    assert(ks[i] == n);
                }
            }
        }
        r
    }
}

/// The version that a new watcher has: none that is ever given out.
pub const NOTHING_SENT: u64 = 0xFFFF_FFFF_FFFF_FFFF;

/// A node that is served.
#[derive(Debug, PartialEq, Eq)]
pub struct NodeSummary {
    pub node_id: String,
    pub version: u64,
    /// Whether an administrator pushed what it gets.
    pub from_admin: bool,
    /// Where what it gets comes from.
    pub source: String,
}

/// What a [`NodeSummary`] holds.
#[verifier::ext_equal]
pub struct NodeSummaryView {
    pub node_id: Seq<char>,
    pub version: u64,
    pub from_admin: bool,
    pub source: Seq<char>,
}

impl View for NodeSummary {
    type V = NodeSummaryView;

    open spec fn view(&self) -> NodeSummaryView {
        NodeSummaryView {
            node_id: self.node_id@,
            version: self.version,
            from_admin: self.from_admin,
            source: self.source@,
        }
    }
}

impl StateView {
    /// The name of the source that a node's configuration comes from.
    pub open spec fn source(self, node: Seq<char>) -> Seq<char> {
        if self.overrides.dom().contains(node) {
            "admin"@
        } else if self.derived.dom().contains(node) {
            "derived"@
        } else if self.files.dom().contains(node) {
            "file"@
        } else {
            "default"@
        }
    }

    /// How a served node is listed.
    pub open spec fn summary(self, node: Seq<char>) -> NodeSummaryView {
        NodeSummaryView {
            node_id: node,
            version: self.served[node].version,
            from_admin: self.overrides.dom().contains(node),
            source: self.source(node),
        }
    }
}

// ---------------------------------------------------------------------------
// Laws
// ---------------------------------------------------------------------------

/// A recomputation keeps every served version given out, and no two nodes at one version.
pub proof fn recomputed_is_well_formed(s: StateView, t: StateView)
    requires
        s.wf(),
        s.recomputed(t),
    ensures
        t.wf(),
{
    assert forall|n: Seq<char>| t.served.dom().contains(n) implies 1 <= (
    #[trigger] t.served[n]).version <= t.generation by {
        if !s.due(n) {
            assert(s.served.dom().contains(n));
        }
    }
    assert forall|m: Seq<char>, n: Seq<char>|
        m != n && t.served.dom().contains(m) && t.served.dom().contains(n) implies (
    #[trigger] t.served[m]).version != (#[trigger] t.served[n]).version by {
        if !s.due(m) {
            assert(s.served.dom().contains(m));
            assert(s.served[m].version <= s.generation);
        }
        if !s.due(n) {
            assert(s.served.dom().contains(n));
            assert(s.served[n].version <= s.generation);
        }
    }
}

/// An override beats what is derived, which beats a file; a node without any of them gets the
/// configuration without any entry.
pub proof fn precedence(s: StateView, t: StateView, node: Seq<char>)
    requires
        s.recomputed(t),
    ensures
        s.overrides.dom().contains(node) ==> t.sent(node).config == s.overrides[node],
        !s.overrides.dom().contains(node) && s.derived.dom().contains(node) ==> t.sent(node).config
            == s.derived[node],
        !s.overrides.dom().contains(node) && !s.derived.dom().contains(node)
            && s.files.dom().contains(node) ==> t.sent(node).config == s.files[node],
        !s.overrides.dom().contains(node) && !s.derived.dom().contains(node)
            && !s.files.dom().contains(node) ==> t.sent(node).config == empty_config(),
{
    assert(t.served.dom().contains(node) <==> s.served.dom().union(s.desired().dom()).contains(
        node,
    ));
}

/// What a node is sent after a recomputation is what it is to get.
pub proof fn served_is_the_target(s: StateView, t: StateView, node: Seq<char>)
    requires
        s.recomputed(t),
    ensures
        t.sent(node).config == s.target(node),
{
    assert(t.served.dom().contains(node) <==> s.served.dom().union(s.desired().dom()).contains(
        node,
    ));
}

/// A configuration that an administrator pushes is what the node is sent, and no other node is sent
/// anything else than before if it was up to date.
pub proof fn pushed_config_is_served(
    s: StateView,
    node: Seq<char>,
    config: FileConfigView,
    t: StateView,
    other: Seq<char>,
)
    requires
        s.overridden(node, config).recomputed(t),
    ensures
        t.sent(node).config == config,
        other != node && !s.due(other) ==> t.sent(other) == s.sent(other),
{
    let o = s.overridden(node, config);
    precedence(o, t, node);
    if other != node && !s.due(other) {
        assert(o.desired().dom().contains(other) <==> s.desired().dom().contains(other));
        if s.desired().dom().contains(other) {
            assert(o.desired()[other] == s.desired()[other]);
        }
        assert(!o.due(other));
        assert(t.served.dom().contains(other) <==> o.served.dom().union(
            o.desired().dom(),
        ).contains(other));
    }
}

/// Withdrawing what was pushed gives the node what its other sources say.
pub proof fn withdrawn_config_reverts(s: StateView, node: Seq<char>, t: StateView)
    requires
        s.reverted(node).recomputed(t),
    ensures
        t.sent(node).config == (if s.derived.dom().contains(node) {
            s.derived[node]
        } else if s.files.dom().contains(node) {
            s.files[node]
        } else {
            empty_config()
        }),
{
    precedence(s.reverted(node), t, node);
}

/// A watcher that has the version a node was served is sent something exactly where the node got
/// a new version, and whatever changes a configuration gives a higher version.
pub proof fn change_reaches_the_watcher(s: StateView, t: StateView, node: Seq<char>)
    requires
        s.wf(),
        s.recomputed(t),
    ensures
        s.sent(node).config != t.sent(node).config ==> s.sent(node).version
            != t.sent(node).version,
        s.due(node) <==> s.sent(node).version < t.sent(node).version,
        !s.due(node) <==> s.sent(node) == t.sent(node),
{
    assert(t.served.dom().contains(node) <==> s.served.dom().union(s.desired().dom()).contains(
        node,
    ));
    if s.served.dom().contains(node) {
        assert(1 <= s.served[node].version <= s.generation);
    }
    if s.due(node) {
        assert(t.served.dom().contains(node));
    }
}

/// Recomputing once more changes nothing: no node is due, so that no watcher is woken.
pub proof fn recomputing_again_changes_nothing(s: StateView, t: StateView, u: StateView)
    requires
        s.recomputed(t),
        t.recomputed(u),
    ensures
        forall|n: Seq<char>| !#[trigger] t.due(n),
        u == t,
{
    assert(t.desired() == s.desired());
    assert forall|n: Seq<char>| !#[trigger] t.due(n) by {
        served_is_the_target(s, t, n);
        if t.desired().dom().contains(n) {
            assert(t.served.dom().contains(n));
        }
    }
    if u.generation > t.generation {
        assert(t.gives(u, u.generation));
    }
    assert(u.served.dom() =~= t.served.dom()) by {
        assert forall|n: Seq<char>| u.served.dom().contains(n) <==> t.served.dom().contains(n) by {
            assert(!t.due(n));
            assert(u.served.dom().contains(n) <==> t.served.dom().union(
                t.desired().dom(),
            ).contains(n));
        }
    }
    assert(u.served =~= t.served) by {
        assert forall|n: Seq<char>| u.served.dom().contains(n) implies u.served[n]
            == t.served[n] by {
            assert(!t.due(n));
        }
    }
    assert(u =~= t);
}

/// No version that is given out is the one that a new watcher starts with, as long as there are
/// versions left.
pub proof fn new_watcher_is_sent_something(s: StateView, node: Seq<char>)
    requires
        s.wf(),
        s.generation < NOTHING_SENT,
    ensures
        s.sent(node).version != NOTHING_SENT,
{
    if s.served.dom().contains(node) {
        assert(s.served[node].version <= s.generation);
    }
}

/// Who is told what is wrong with a push, in this order: without permission, without a configuration,
/// with an invalid one, and at a member that does not lead. A push with none of these goes through.
pub proof fn push_is_refused(
    may_write: bool,
    node: Seq<char>,
    config: Option<FileConfigView>,
    invalid: Option<Seq<char>>,
    member: Option<NodeId>,
    leader: Option<NodeId>,
)
    ensures
        push_refusal(may_write, node, config, invalid, member, leader) is None <==> may_write
            && config is Some && invalid is None && (member matches Some(m) ==> leader == Some(m)),
        push_refusal(may_write, node, config, invalid, member, leader) matches Some(s) ==> s.code
            == if !may_write {
            Code::PermissionDenied
        } else if config is None || invalid is Some {
            Code::InvalidArgument
        } else {
            Code::FailedPrecondition
        },
        withdraw_refusal(may_write, node, member, leader) is None <==> may_write && (
        member matches Some(m) ==> leader == Some(m)),
        withdraw_refusal(may_write, node, member, leader) matches Some(s) ==> s.code == if may_write {
            Code::FailedPrecondition
        } else {
            Code::PermissionDenied
        },
{
}

/// A node that nothing is served for is sent version zero of a configuration that lets everything pass
/// and has no entry.
pub proof fn unknown_node_is_sent_nothing(s: StateView, node: Seq<char>)
    requires
        !s.served.dom().contains(node),
    ensures
        s.sent(node).version == 0,
        ({
            let c = s.sent(node).config;
            &&& c.default_action == ActionName::Pass
            &&& c.overlay is None && c.srv6 is None
            &&& c.blocklist.len() == 0 && c.policies.len() == 0 && c.interfaces.len() == 0
            &&& c.tunnels.len() == 0 && c.neighbors.len() == 0 && c.nd_neighbors.len() == 0
            &&& c.mac_routes.len() == 0 && c.flood_vteps.len() == 0 && c.irb_routes.len() == 0
            &&& c.srv6_routes.len() == 0 && c.srv6_floods.len() == 0
            &&& c.srv6_local_sids.len() == 0 && c.srv6_irb_routes.len() == 0
            &&& c.services.len() == 0
        }),
{
}

/// Watchers are woken exactly where some node is sent another version than before, and with the
/// greatest version that was given out.
pub proof fn watchers_are_woken_by_a_change(s: StateView, t: StateView)
    requires
        s.wf(),
        s.recomputed(t),
    ensures
        s.notice(t) is Some <==> exists|n: Seq<char>|
            (#[trigger] s.sent(n)).version != t.sent(n).version,
        s.notice(t) matches Some(g) ==> g == t.generation && g > s.generation,
        s.notice(t) matches Some(g) ==> exists|n: Seq<char>| (#[trigger] t.sent(n)).version == g,
{
    if exists|n: Seq<char>| s.due(n) {
        let n = choose|n: Seq<char>| s.due(n);
        change_reaches_the_watcher(s, t, n);
        assert(s.sent(n).version != t.sent(n).version);
        assert(t.served.dom().contains(n) <==> s.served.dom().union(s.desired().dom()).contains(n));
        assert(t.served.dom().contains(n));
        assert(s.generation < t.served[n].version);
        assert(s.gives(t, t.generation));
        let m = choose|m: Seq<char>| s.due(m) && (#[trigger] t.served[m]).version == t.generation;
        assert(t.served.dom().contains(m) <==> s.served.dom().union(s.desired().dom()).contains(m));
        assert(t.sent(m).version == t.generation);
    } else {
        assert forall|n: Seq<char>| (#[trigger] s.sent(n)).version == t.sent(n).version by {
            assert(!s.due(n));
            change_reaches_the_watcher(s, t, n);
        }
    }
}

/// How a served node is listed: under its name and version, with the source of what it is sent. An
/// administrator's push is named before a derivation, and that before a file.
pub proof fn listing_names_the_source(s: StateView, node: Seq<char>)
    ensures
        s.summary(node).node_id == node,
        s.summary(node).version == s.served[node].version,
        s.summary(node).from_admin == s.overrides.dom().contains(node),
        s.overrides.dom().contains(node) ==> s.summary(node).source == "admin"@,
        !s.overrides.dom().contains(node) && s.derived.dom().contains(node) ==> s.summary(
            node,
        ).source == "derived"@,
        !s.overrides.dom().contains(node) && !s.derived.dom().contains(node)
            && s.files.dom().contains(node) ==> s.summary(node).source == "file"@,
        !s.overrides.dom().contains(node) && !s.derived.dom().contains(node)
            && !s.files.dom().contains(node) ==> s.summary(node).source == "default"@,
{
}

/// A push touches the override of its node alone, and a withdrawal takes it away.
pub proof fn push_touches_one_override(s: StateView, node: Seq<char>, config: FileConfigView)
    ensures
        ({
            let t = s.overridden(node, config);
            &&& t.overrides == s.overrides.insert(node, config)
            &&& t.files == s.files && t.derived == s.derived
            &&& t.served == s.served && t.generation == s.generation
        }),
        ({
            let t = s.reverted(node);
            &&& t.overrides == s.overrides.remove(node)
            &&& t.files == s.files && t.derived == s.derived
            &&& t.served == s.served && t.generation == s.generation
        }),
{
}

/// The fabric gives each of its hosts a configuration, and nobody else: the derived one with the
/// learned routes folded in.
pub proof fn fabric_configures_its_hosts(f: FabricView, routes: LearnedRoutesView, id: Seq<char>)
    ensures
        fabric_configs(f, routes).dom().contains(id) <==> f.topo.hosts.dom().contains(id),
        f.topo.hosts.dom().contains(id) ==> fabric_configs(f, routes)[id] == config_of(
            f,
            id,
            Some(routes),
        ),
{
}

/// What is seen of the records of this module is all that they hold, field by field.
pub proof fn controller_records_are_seen_whole(
    node_config: NodeConfig,
    node_summary: NodeSummary,
)
    ensures
        node_config@.version == node_config.version,
        node_config@.config == node_config.config@,
        node_summary@.node_id == node_summary.node_id@,
        node_summary@.version == node_summary.version,
        node_summary@.from_admin == node_summary.from_admin,
        node_summary@.source == node_summary.source@,
{
}

/// Loading the sources replaces what the fabric derives, and what the files hold where files are
/// given; it leaves what administrators pushed, what nodes are served and the version alone.
pub proof fn loading_keeps_overrides(
    s: StateView,
    files: Option<Configs>,
    derived: Map<Seq<char>, FileConfigView>,
)
    ensures
        s.loaded(files, derived).derived == derived,
        s.loaded(files, derived).overrides == s.overrides,
        s.loaded(files, derived).served == s.served,
        s.loaded(files, derived).generation == s.generation,
        files is None ==> s.loaded(files, derived).files == s.files,
        files matches Some(f) ==> forall|n: Seq<char>| #[trigger]
            s.loaded(files, derived).files.dom().contains(n) <==> f@.dom().contains(n),
        files matches Some(f) ==> forall|n: Seq<char>|
            f@.dom().contains(n) ==> #[trigger] s.loaded(files, derived).files[n] == f@[n]@,
{
}

/// What an administrator is told whose push or withdrawal is refused: first that there is no leave,
/// then what is wrong with the configuration.
pub proof fn refused_push_is_told_why(
    node: Seq<char>,
    config: Option<FileConfigView>,
    invalid: Option<Seq<char>>,
    member: Option<NodeId>,
    leader: Option<NodeId>,
)
    ensures
        push_refusal(false, node, config, invalid, member, leader) matches Some(s) && s.message
            == "not authorized to "@ + ("set config for node "@ + debug_text(node)),
        push_refusal(true, node, None, invalid, member, leader) matches Some(s) && s.message
            == "missing config"@,
        config is Some ==> (invalid matches Some(e) ==> (push_refusal(
            true,
            node,
            config,
            invalid,
            member,
            leader,
        ) matches Some(s) && s.message == "invalid config: "@ + e)),
        config is Some && invalid is None ==> push_refusal(
            true,
            node,
            config,
            invalid,
            member,
            leader,
        ) == misdirected(member, leader),
        withdraw_refusal(false, node, member, leader) matches Some(s) && s.code
            == Code::PermissionDenied && s.message == "not authorized to "@ + (
        "delete config for node "@ + debug_text(node)),
        withdraw_refusal(true, node, member, leader) == misdirected(member, leader),
{
}

/// A watcher that was sent nothing has the greatest number in place of a version.
pub proof fn nothing_sent_is_no_version()
    ensures
        NOTHING_SENT == u64::MAX,
{
}

/// A controller starts without a source for any node, serves none, and has given out no version.
pub proof fn controller_starts_empty(n: Seq<char>)
    ensures
        !StateView::initial().files.dom().contains(n),
        !StateView::initial().derived.dom().contains(n),
        !StateView::initial().overrides.dom().contains(n),
        !StateView::initial().served.dom().contains(n),
        StateView::initial().generation == 0,
{
}

} // verus!
