//! The audit trail: a bounded ring of the latest records.

use std::collections::VecDeque;

use vstd::prelude::*;

use crate::text::views;

verus! {

/// How many of the latest records are kept.
pub const AUDIT_RING_CAP: usize = 1024;

/// One record of a change that reached the gateway.
#[derive(Debug, PartialEq, Eq)]
pub struct AuditEntry {
    /// Sequence number, per process.
    pub seq: u64,
    /// Time of the change, in milliseconds since the Unix epoch.
    pub ts_millis: u64,
    /// The caller, or `anonymous`.
    pub actor: String,
    /// What was asked for, as `resource.verb`.
    pub operation: String,
    /// What it was asked for.
    pub target: String,
    /// `ok`, `denied`, or `error: ` and a message.
    pub result: String,
}

/// What a [`AuditEntry`] holds.
#[verifier::ext_equal]
pub struct AuditEntryView {
    pub seq: u64,
    pub ts_millis: u64,
    pub actor: Seq<char>,
    pub operation: Seq<char>,
    pub target: Seq<char>,
    pub result: Seq<char>,
}

impl View for AuditEntry {
    type V = AuditEntryView;

    open spec fn view(&self) -> AuditEntryView {
        AuditEntryView {
            seq: self.seq,
            ts_millis: self.ts_millis,
            actor: self.actor@,
            operation: self.operation@,
            target: self.target@,
            result: self.result@,
        }
    }
}

impl Clone for AuditEntry {
    fn clone(&self) -> (r: Self)
        ensures
            r@ == self@,
    {
        AuditEntry {
            seq: self.seq,
            ts_millis: self.ts_millis,
            actor: self.actor.clone(),
            operation: self.operation.clone(),
            target: self.target.clone(),
            result: self.result.clone(),
        }
    }
}

/// The audit trail.
#[derive(Debug)]
pub struct Audit {
    ring: VecDeque<AuditEntry>,
    seq: u64,
}

/// What an [`Audit`] holds: the latest records, oldest first, and the number of the next one.
#[verifier::ext_equal]
pub struct AuditView {
    pub ring: Seq<AuditEntryView>,
    pub seq: u64,
}

impl View for Audit {
    type V = AuditView;

    closed spec fn view(&self) -> AuditView {
        AuditView { ring: views(self.ring@), seq: self.seq }
    }
}

impl AuditView {
    /// The ring is bounded, and its records are numbered one after the other up to the next number.
    pub open spec fn wf(self) -> bool {
        &&& self.ring.len() <= AUDIT_RING_CAP
        &&& forall|i: int|
            0 <= i < self.ring.len() ==> (#[trigger] self.ring[i]).seq == number_before(
                self.seq,
                self.ring.len() - i,
            )
    }

    /// The trail after a record of `e`, whose number is the next one: the oldest record leaves a
    /// full ring.
    pub open spec fn recorded(self, e: AuditEntryView) -> AuditView {
        let kept = if self.ring.len() == AUDIT_RING_CAP {
            self.ring.skip(1)
        } else {
            self.ring
        };
        AuditView { ring: kept.push(e), seq: self.seq.wrapping_add(1) }
    }

    /// The latest `limit` records, or all of them.
    pub open spec fn latest(self, limit: Option<usize>) -> Seq<AuditEntryView> {
        match limit {
            Some(n) => if n < self.ring.len() {
                self.ring.skip(self.ring.len() - n)
            } else {
                self.ring
            },
            None => self.ring,
        }
    }
}

/// The number `k` records before number `seq`; the numbers start over after the largest.
pub open spec fn number_before(seq: u64, k: int) -> int {
    (seq - k) % 0x1_0000_0000_0000_0000
}

impl Audit {
    /// An empty trail.
    pub fn new() -> (r: Self)
        ensures
            r@ == (AuditView { ring: Seq::empty(), seq: 0 }),
            r@.wf(),
    {
        let r = Audit { ring: VecDeque::with_capacity(AUDIT_RING_CAP), seq: 0 };
        assert(views(r.ring@) =~= Seq::<AuditEntryView>::empty());
        r
    }

    /// Records one change, made at `ts_millis`, and hands out the record.
    pub fn record(
        &mut self,
        ts_millis: u64,
        actor: &str,
        operation: &str,
        target: &str,
        result: &str,
    ) -> (r: AuditEntry)
        requires
            old(self)@.wf(),
        ensures
            final(self)@.wf(),
            r@ == (AuditEntryView {
                seq: old(self)@.seq,
                ts_millis,
                actor: actor@,
                operation: operation@,
                target: target@,
                result: result@,
            }),
            final(self)@ == old(self)@.recorded(r@),
    {
        let entry = AuditEntry {
            seq: self.seq,
            ts_millis,
            actor: String::from_str(actor),
            operation: String::from_str(operation),
            target: String::from_str(target),
            result: String::from_str(result),
        };
        let copy = entry.clone();
        if self.ring.len() == AUDIT_RING_CAP {
            let ghost before = self.ring@;
            self.ring.pop_front();
            assert(views(self.ring@) =~= views(before).skip(1));
        }
        let ghost kept = self.ring@;
        self.ring.push_back(entry);
        assert(views(self.ring@) =~= views(kept).push(entry@));
        self.seq = self.seq.wrapping_add(1);
        proof {
            recorded_wf(old(self)@, entry@);
        }
        copy
    }

    /// The latest `limit` records, or all that are kept, oldest first.
    pub fn recent(&self, limit: Option<usize>) -> (r: Vec<AuditEntry>)
        ensures
            views(r@) == self@.latest(limit),
    {
        let len: usize = self.ring.len();
        let start: usize = match limit {
            Some(n) => if n < len {
                len - n
            } else {
                0
            },
            None => 0,
        };
        let mut r: Vec<AuditEntry> = Vec::new();
        for i in start..len
            invariant
                start <= len == self.ring@.len(),
                r@.len() == i - start,
                forall|j: int| 0 <= j < r@.len() ==> #[trigger] r@[j]@ == self.ring@[start + j]@,
        {
            r.push(self.ring[i].clone());
        }
        assert(views(r@) =~= self@.latest(limit));
        r
    }
}

proof fn recorded_wf(a: AuditView, e: AuditEntryView)
    requires
        a.wf(),
        e.seq == a.seq,
    ensures
        a.recorded(e).wf(),
{
    let b = a.recorded(e);
    assert forall|i: int| 0 <= i < b.ring.len() implies (#[trigger] b.ring[i]).seq == number_before(
        b.seq,
        b.ring.len() - i,
    ) by {
        if i < b.ring.len() - 1 {
            if a.ring.len() == AUDIT_RING_CAP {
                assert(b.ring[i] == a.ring[i + 1]);
            } else {
                assert(b.ring[i] == a.ring[i]);
            }
        }
    }
}

// ---------------------------------------------------------------------------
// Laws
// ---------------------------------------------------------------------------

/// The trail after the records `es`, made one after the other.
pub open spec fn after_records(a: AuditView, es: Seq<AuditEntryView>) -> AuditView
    decreases es.len(),
{
    if es.len() == 0 {
        a
    } else {
        after_records(a, es.drop_last()).recorded(es.last())
    }
}

/// Over a whole run the trail holds exactly the latest records, in the order in which they were
/// made, and never more than [`AUDIT_RING_CAP`].
pub proof fn trail_is_the_tail(es: Seq<AuditEntryView>)
    ensures
        ({
            let ring = after_records(AuditView { ring: Seq::empty(), seq: 0 }, es).ring;
            let n = if es.len() < AUDIT_RING_CAP {
                es.len() as int
            } else {
                AUDIT_RING_CAP as int
            };
            ring == es.skip(es.len() - n)
        }),
    decreases es.len(),
{
    if es.len() > 0 {
        trail_is_the_tail(es.drop_last());
        let before = after_records(AuditView { ring: Seq::empty(), seq: 0 }, es.drop_last()).ring;
        let ring = after_records(AuditView { ring: Seq::empty(), seq: 0 }, es).ring;
        let n = if es.len() < AUDIT_RING_CAP {
            es.len() as int
        } else {
            AUDIT_RING_CAP as int
        };
        assert(ring =~= es.skip(es.len() - n));
    }
}

/// A record can be read back as the latest one, and the records before it stay as they were.
pub proof fn record_is_read_back(a: AuditView, e: AuditEntryView)
    requires
        a.wf(),
    ensures
        a.recorded(e).latest(Some(1)) == seq![e],
        a.recorded(e).ring.drop_last() == a.latest(Some((AUDIT_RING_CAP - 1) as usize)),
{
    assert(a.recorded(e).latest(Some(1)) =~= seq![e]);
    assert(a.recorded(e).ring.drop_last() =~= a.latest(Some((AUDIT_RING_CAP - 1) as usize)));
}

/// A record takes the last place and the next number. The trail grows by one up to a thousand and
/// twenty-four records; a full one loses its oldest record, and all others move up unchanged.
pub proof fn record_takes_the_last_place(a: AuditView, e: AuditEntryView)
    requires
        a.wf(),
    ensures
        ({
            let b = a.recorded(e);
            let lost: int = if a.ring.len() == 1024 {
                1
            } else {
                0
            };
            &&& a.ring.len() <= 1024
            &&& b.ring.len() == a.ring.len() + 1 - lost
            &&& b.ring[b.ring.len() - 1] == e
            &&& forall|i: int| 0 <= i < b.ring.len() - 1 ==> #[trigger] b.ring[i] == a.ring[i + lost]
            &&& a.seq < u64::MAX ==> b.seq == a.seq + 1
            &&& a.seq == u64::MAX ==> b.seq == 0
        }),
{
}

/// The latest records are the last ones of the trail, in their order: as many as asked for, or all
/// where there are fewer or nothing in particular is asked for.
pub proof fn latest_are_the_last(a: AuditView, limit: Option<usize>)
    ensures
        ({
            let r = a.latest(limit);
            &&& limit is None ==> r.len() == a.ring.len()
            &&& limit matches Some(n) ==> r.len() == if n < a.ring.len() {
                n as int
            } else {
                a.ring.len() as int
            }
            &&& forall|j: int|
                0 <= j < r.len() ==> #[trigger] r[j] == a.ring[a.ring.len() - r.len() + j]
        }),
{
}

/// What is seen of the records of this module is all that they hold, field by field.
pub proof fn audit_records_are_seen_whole(
    audit_entry: AuditEntry,
)
    ensures
        audit_entry@.seq == audit_entry.seq,
        audit_entry@.ts_millis == audit_entry.ts_millis,
        audit_entry@.actor == audit_entry.actor@,
        audit_entry@.operation == audit_entry.operation@,
        audit_entry@.target == audit_entry.target@,
        audit_entry@.result == audit_entry.result@,
{
}

/// The trail keeps the last 1024 records.
pub proof fn trail_size()
    ensures
        AUDIT_RING_CAP == 1024,
{
}

} // verus!
