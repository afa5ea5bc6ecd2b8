//! What the nodes report of themselves.

use vstd::prelude::*;

use crate::datum::{copy_list, Datum};
use crate::lists::{distinct, keyed, keyed_at, keyed_domain};
use crate::resources::{api_view, missing, not_found, ApiError, ApiErrorView};
use crate::sorted::{
    keys, lists_in_order, map_views, ordered, ordered_is, values, Key, SortedMap, TextKey,
};
use crate::text::{debug_text, decimal, push_decimal, views};

verus! {

/// A counter that a node reports.
#[derive(Debug, PartialEq, Eq)]
pub struct CounterReport {
    pub name: String,
    pub value: u64,
}

/// What a [`CounterReport`] holds.
#[verifier::ext_equal]
pub struct CounterReportView {
    pub name: Seq<char>,
    pub value: u64,
}

impl View for CounterReport {
    type V = CounterReportView;

    open spec fn view(&self) -> CounterReportView {
        CounterReportView { name: self.name@, value: self.value }
    }
}

impl Datum for CounterReport {
    fn matches(&self, other: &Self) -> (r: bool) {
        self.name.matches(&other.name) && self.value == other.value
    }

    fn copied(&self) -> (r: Self) {
        CounterReport { name: self.name.copied(), value: self.value }
    }
}

/// How a report is written: `name=value` for each counter above zero, with single spaces between.
pub open spec fn active_counters(cs: Seq<CounterReportView>) -> Seq<char>
    decreases cs.len(),
{
    if cs.len() == 0 {
        Seq::empty()
    } else {
        let front = active_counters(cs.drop_last());
        let c = cs.last();
        if c.value == 0 {
            front
        } else {
            let gap = if any_active(cs.drop_last()) {
                seq![' ']
            } else {
                Seq::empty()
            };
            front + gap + c.name + seq!['='] + decimal(c.value as nat)
        }
    }
}

/// Whether any counter is above zero.
pub open spec fn any_active(cs: Seq<CounterReportView>) -> bool {
    exists|i: int| 0 <= i < cs.len() && (#[trigger] cs[i]).value > 0
}

/// Writes a report, as [`active_counters`] says.
pub fn report_stats(counters: &Vec<CounterReport>) -> (r: String)
    ensures
        r@ == active_counters(views(counters@)),
{
    let ghost cs = views(counters@);
    let mut r = String::new();
    let mut any = false;
    for i in 0..counters.len()
        invariant
            cs == views(counters@),
            r@ == active_counters(cs.take(i as int)),
            any == any_active(cs.take(i as int)),
    {
        let ghost front = cs.take(i as int);
        let ghost now = cs.take(i as int + 1);
        proof {
            assert(now.drop_last() =~= front);
            assert(now.last() == counters@[i as int]@);
            assert(any_active(now) == (any_active(front) || counters@[i as int].value > 0)) by {
                if any_active(front) {
                    let j = choose|j: int| 0 <= j < front.len() && (#[trigger] front[j]).value > 0;
                    assert(now[j] == front[j]);
                }
                if counters@[i as int].value > 0 {
                    assert(now[i as int].value > 0);
                }
                if any_active(now) && counters@[i as int].value == 0 {
                    let j = choose|j: int| 0 <= j < now.len() && (#[trigger] now[j]).value > 0;
                    assert(front[j] == now[j]);
                }
            }
        }
        if counters[i].value > 0 {
            if any {
                r.push(' ');
            }
            r.append(counters[i].name.as_str());
            r.push('=');
            push_decimal(&mut r, counters[i].value);
            any = true;
            assert(r@ =~= active_counters(now));
        }
    }
    assert(cs.take(cs.len() as int) =~= cs);
    r
}

// ---------------------------------------------------------------------------
// The latest report of each node
// ---------------------------------------------------------------------------

/// The latest report of a node.
#[derive(Debug, PartialEq, Eq)]
pub struct NodeStats {
    pub node_id: String,
    /// All counters that were reported, those at zero too.
    pub counters: Vec<CounterReport>,
    /// When the report came, in milliseconds since the Unix epoch.
    pub reported_at_ms: u64,
}

/// What a [`NodeStats`] holds.
#[verifier::ext_equal]
pub struct NodeStatsView {
    pub node_id: Seq<char>,
    pub counters: Seq<CounterReportView>,
    pub reported_at_ms: u64,
}

impl View for NodeStats {
    type V = NodeStatsView;

    open spec fn view(&self) -> NodeStatsView {
        NodeStatsView {
            node_id: self.node_id@,
            counters: views(self.counters@),
            reported_at_ms: self.reported_at_ms,
        }
    }
}

impl Datum for NodeStats {
    fn matches(&self, other: &Self) -> (r: bool) {
        self.node_id.matches(&other.node_id) && crate::datum::same_list(
            &self.counters,
            &other.counters,
        ) && self.reported_at_ms == other.reported_at_ms
    }

    fn copied(&self) -> (r: Self) {
        NodeStats {
            node_id: self.node_id.copied(),
            counters: copy_list(&self.counters),
            reported_at_ms: self.reported_at_ms,
        }
    }
}

/// The latest report of every node that has reported.
#[derive(Debug)]
pub struct StatsBoard {
    nodes: SortedMap<TextKey, NodeStats>,
}

impl View for StatsBoard {
    type V = Map<Seq<char>, NodeStatsView>;

    closed spec fn view(&self) -> Map<Seq<char>, NodeStatsView> {
        map_views(self.nodes@)
    }
}

/// The board after a report: it takes the place of the node's previous one.
pub open spec fn reported(
    board: Map<Seq<char>, NodeStatsView>,
    node: Seq<char>,
    counters: Seq<CounterReportView>,
    now: u64,
) -> Map<Seq<char>, NodeStatsView> {
    board.insert(node, NodeStatsView { node_id: node, counters, reported_at_ms: now })
}

/// The reports of all nodes, in the order of their names.
pub open spec fn all_reports(board: Map<Seq<char>, NodeStatsView>) -> Seq<NodeStatsView> {
    ordered::<TextKey>(board.dom()).map_values(|n: Seq<char>| board[n])
}

/// The report of a node, or that it has not reported.
pub open spec fn report_of(board: Map<Seq<char>, NodeStatsView>, node: Seq<char>) -> Result<
    NodeStatsView,
    ApiErrorView,
> {
    if board.dom().contains(node) {
        Ok(board[node])
    } else {
        Err(missing("no stats reported by node "@, node))
    }
}

impl StatsBoard {
    /// The table is in order.
    pub closed spec fn inv(&self) -> bool {
        self.nodes.inv()
    }

    /// A board without any report.
    pub fn new() -> (r: Self)
        ensures
            r.inv(),
            r@ == Map::<Seq<char>, NodeStatsView>::empty(),
    {
        let r = StatsBoard { nodes: SortedMap::new() };
        assert(r@ =~= Map::<Seq<char>, NodeStatsView>::empty());
        r
    }

    /// Takes in the report that `node` made at `now`.
    pub fn report(&mut self, node: String, counters: Vec<CounterReport>, now: u64)
        requires
            old(self).inv(),
        ensures
            final(self).inv(),
            final(self)@ == reported(old(self)@, node@, views(counters@), now),
    {
        let ghost before = self.nodes@;
        let key = TextKey { text: node.clone() };
        let stats = NodeStats { node_id: node, counters, reported_at_ms: now };
        self.nodes.insert(key, stats);
        assert(map_views(self.nodes@) =~= map_views(before).insert(node@, stats@));
    }

    /// The reports of all nodes, in the order of their names.
    pub fn all(&self) -> (r: Vec<NodeStats>)
        requires
            self.inv(),
        ensures
            views(r@) == all_reports(self@),
    {
        let items = self.nodes.items();
        let ghost ks = keys(items@);
        let ghost m = self@;
        proof {
            keyed_domain(ks, values(items@));
            assert(lists_in_order::<TextKey>(ks, m.dom())) by {
                assert forall|i: int, j: int| 0 <= i < j < ks.len() implies
                    <TextKey as Key>::before(
                    #[trigger] ks[i],
                    #[trigger] ks[j],
                ) by {
                    assert(ks[i] == items@[i].key@ && ks[j] == items@[j].key@);
                }
                assert forall|k: Seq<char>| ks.contains(k) <==> #[trigger] m.dom().contains(k) by {
                    assert(self.nodes@.dom().contains(k) <==> ks.contains(k));
                }
            }
            ordered_is::<TextKey>(ks, m.dom());
        }
        let mut r: Vec<NodeStats> = Vec::new();
        for i in 0..items.len()
            invariant
                ks == keys(items@),
                m == self@,
                keyed(ks, values(items@)) == self.nodes@,
                distinct(ks),
                r@.len() == i,
                forall|j: int| 0 <= j < i ==> #[trigger] r@[j]@ == m[ks[j]],
        {
            proof {
                keyed_at(ks, values(items@), i as int);
                assert(m[ks[i as int]] == items@[i as int].value@);
            }
            r.push(items[i].value.copied());
        }
        assert(views(r@) =~= all_reports(m));
        r
    }

    /// The report of `node`.
    pub fn one(&self, node: &str) -> (r: Result<NodeStats, ApiError>)
        requires
            self.inv(),
        ensures
            api_view(r) == report_of(self@, node@),
    {
        let key = TextKey { text: String::from_str(node) };
        match self.nodes.get(&key) {
            Some(s) => Ok(s.copied()),
            None => Err(not_found("no stats reported by node ", node)),
        }
    }

    /// The reports that a query asks for: all of them for the empty name, else that of the node.
    pub fn get_stats(&self, node: &str) -> (r: Vec<NodeStats>)
        requires
            self.inv(),
        ensures
            views(r@) == (if node@.len() == 0 {
                all_reports(self@)
            } else if self@.dom().contains(node@) {
                seq![self@[node@]]
            } else {
                Seq::empty()
            }),
    {
        if node.unicode_len() == 0 {
            return self.all();
        }
        let mut r: Vec<NodeStats> = Vec::new();
        match self.one(node) {
            Ok(s) => {
                r.push(s);
                assert(views(r@) =~= seq![self@[node@]]);
            },
            Err(_) => {
                assert(views(r@) =~= Seq::<NodeStatsView>::empty());
            },
        }
        r
    }
}

// ---------------------------------------------------------------------------
// Laws
// ---------------------------------------------------------------------------

/// A node's counters can be asked for after it reports them, all of them and nothing from before;
/// the reports of other nodes stay.
pub proof fn report_is_read_back(
    board: Map<Seq<char>, NodeStatsView>,
    node: Seq<char>,
    counters: Seq<CounterReportView>,
    now: u64,
    other: Seq<char>,
)
    ensures
        report_of(reported(board, node, counters, now), node) == Ok::<NodeStatsView, ApiErrorView>(
            NodeStatsView { node_id: node, counters, reported_at_ms: now },
        ),
        other != node ==> report_of(reported(board, node, counters, now), other) == report_of(
            board,
            other,
        ),
{
}

/// A report grows by one counter at a time: a counter at zero adds nothing, and any other its name, an
/// equals sign and its value, with one space before it where something was written already.
pub proof fn counter_is_written_if_it_counts(cs: Seq<CounterReportView>, c: CounterReportView)
    ensures
        active_counters(Seq::<CounterReportView>::empty()).len() == 0,
        c.value == 0 ==> active_counters(cs.push(c)) == active_counters(cs),
        c.value > 0 && (forall|i: int| 0 <= i < cs.len() ==> (#[trigger] cs[i]).value == 0)
            ==> active_counters(cs.push(c)) == active_counters(cs) + c.name + "="@ + decimal(
            c.value as nat,
        ),
        c.value > 0 && (exists|i: int| 0 <= i < cs.len() && (#[trigger] cs[i]).value > 0)
            ==> active_counters(cs.push(c)) == active_counters(cs) + " "@ + c.name + "="@ + decimal(
            c.value as nat,
        ),
{
    reveal_strlit("=");
    reveal_strlit(" ");
    let all = cs.push(c);
    assert(all.drop_last() =~= cs);
    assert("="@ =~= seq!['=']);
    assert(" "@ =~= seq![' ']);
    assert(active_counters(cs) + Seq::<char>::empty() =~= active_counters(cs));
}

/// All reports are those of the nodes that reported, each once, in the order of their names.
pub proof fn all_reports_are_listed(board: Map<Seq<char>, NodeStatsView>)
    requires
        board.dom().finite(),
        forall|n: Seq<char>| #[trigger] board.dom().contains(n) ==> board[n].node_id == n,
    ensures
        forall|i: int, j: int|
            0 <= i < j < all_reports(board).len() ==> crate::sorted::text_before(
                (#[trigger] all_reports(board)[i]).node_id,
                (#[trigger] all_reports(board)[j]).node_id,
            ),
        forall|n: Seq<char>| #[trigger]
            board.dom().contains(n) ==> all_reports(board).contains(board[n]),
        forall|i: int|
            0 <= i < all_reports(board).len() ==> board.dom().contains(
                (#[trigger] all_reports(board)[i]).node_id,
            ) && all_reports(board)[i] == board[all_reports(board)[i].node_id],
{
    let ks = ordered::<TextKey>(board.dom());
    let r = all_reports(board);
    crate::sorted::ordered_lists::<TextKey>(board.dom());
    assert forall|i: int| 0 <= i < r.len() implies board.dom().contains((#[trigger] r[i]).node_id)
        && r[i] == board[r[i].node_id] && r[i].node_id == ks[i] by {
        assert(ks.contains(ks[i]));
        assert(board.dom().contains(ks[i]));
    }
    assert forall|i: int, j: int| 0 <= i < j < r.len() implies crate::sorted::text_before(
        (#[trigger] r[i]).node_id,
        (#[trigger] r[j]).node_id,
    ) by {
        assert(r[i].node_id == ks[i] && r[j].node_id == ks[j]);
        assert(TextKey::before(ks[i], ks[j]));
    }
    assert forall|n: Seq<char>| #[trigger] board.dom().contains(n) implies r.contains(board[n]) by {
        let i = choose|i: int| 0 <= i < ks.len() && ks[i] == n;
        assert(r[i] == board[n]);
    }
}

/// A node's report is found under its name, and a node that did not report is not found.
pub proof fn report_is_found_by_name(board: Map<Seq<char>, NodeStatsView>, node: Seq<char>)
    ensures
        report_of(board, node) is Ok <==> board.dom().contains(node),
        report_of(board, node) matches Ok(s) ==> s == board[node],
        report_of(board, node) matches Err(e) ==> e.status == 404,
{
}

/// What is seen of the records of this module is all that they hold, field by field.
pub proof fn stats_records_are_seen_whole(
    counter_report: CounterReport,
    node_stats: NodeStats,
)
    ensures
        counter_report@.name == counter_report.name@,
        counter_report@.value == counter_report.value,
        node_stats@.node_id == node_stats.node_id@,
        node_stats@.counters == views(node_stats.counters@),
        node_stats@.reported_at_ms == node_stats.reported_at_ms,
{
}

/// A node that has reported nothing is not found, and the answer names it.
pub proof fn silent_node_is_told(board: Map<Seq<char>, NodeStatsView>, node: Seq<char>)
    ensures
        !board.dom().contains(node) ==> (report_of(board, node) matches Err(e) && e.status == 404
            && e.message == "no stats reported by node "@ + debug_text(node)),
        board.dom().contains(node) ==> report_of(board, node) == Ok::<NodeStatsView, ApiErrorView>(
            board[node],
        ),
{
}

} // verus!
