//! The snapshot cache and its dedup lock. Process-wide state holds the last
//! serialized snapshot; at most one acquisition cycle may replace it at a
//! time, and a caller that finds a cycle in flight falls through to the
//! cached payload instead of queueing behind slow hardware.
//!
//! The surrounding binary holds this state behind its locks; the methods
//! here pin down what each step of the protocol does, and the trace lemmas
//! state the two guarantees the discipline exists for: a burst of concurrent
//! fetches claims the cycle exactly once, and published payloads are only
//! ever extended, never rolled back.

use vstd::prelude::*;

use vstd::string::StringExecFns;

use crate::card::NHICardBasic;
use crate::json::snapshot_json;

verus! {

/// The abstract cache: every payload ever published, newest last, and
/// whether an acquisition cycle is in flight. The current payload is the
/// last entry.
pub struct CacheModel {
    pub history: Seq<Seq<char>>,
    pub acquiring: bool,
}

/// One step of the cache protocol.
pub enum CacheOp {
    /// A fetch that wants fresh data tries to claim the acquisition lock
    /// without blocking.
    TryClaim,
    /// The claimed cycle replaces the payload with its result.
    Publish(Seq<char>),
    /// The claimed cycle ends, with or without having published.
    Release,
}

/// Whether this step starts an acquisition cycle.
pub open spec fn claim_succeeds(m: CacheModel, op: CacheOp) -> bool {
    op is TryClaim && !m.acquiring
}

pub open spec fn cache_step(m: CacheModel, op: CacheOp) -> CacheModel {
    match op {
        CacheOp::TryClaim => CacheModel { history: m.history, acquiring: true },
        CacheOp::Publish(p) => {
            if m.acquiring {
                CacheModel { history: m.history.push(p), acquiring: true }
            } else {
                m
            }
        },
        CacheOp::Release => CacheModel { history: m.history, acquiring: false },
    }
}

pub open spec fn run_trace(m: CacheModel, ops: Seq<CacheOp>) -> CacheModel
    decreases ops.len(),
{
    if ops.len() == 0 {
        m
    } else {
        run_trace(cache_step(m, ops[0]), ops.drop_first())
    }
}

/// How many of the steps in a trace start an acquisition cycle.
pub open spec fn count_claims(m: CacheModel, ops: Seq<CacheOp>) -> nat
    decreases ops.len(),
{
    if ops.len() == 0 {
        0
    } else {
        (if claim_succeeds(m, ops[0]) {
            1nat
        } else {
            0nat
        }) + count_claims(cache_step(m, ops[0]), ops.drop_first())
    }
}

/// Dedup guarantee: however many concurrent fetches race for fresh data
/// while no acquisition is in flight, exactly one of them starts a physical
/// acquisition cycle; while one is in flight, none does. The race itself
/// publishes nothing, so every loser reads the payload of the immediately
/// preceding cycle, whole — never a mix of two cycles' data.
pub proof fn lemma_exactly_one_claim(m: CacheModel, ops: Seq<CacheOp>)
    requires
        forall|i: int| 0 <= i < ops.len() ==> ops[i] is TryClaim,
    ensures
        m.acquiring ==> count_claims(m, ops) == 0,
        !m.acquiring && ops.len() >= 1 ==> count_claims(m, ops) == 1,
        run_trace(m, ops).history == m.history,
    decreases ops.len(),
{
    if ops.len() > 0 {
        let m2 = cache_step(m, ops[0]);
        assert(m2.acquiring);
        lemma_exactly_one_claim(m2, ops.drop_first());
    }
}

/// Staleness bound: a trace of cache steps only extends the history of
/// published payloads. A fetch that starts after some cycle has published
/// reads the last entry of an extension of that history, so it sees that
/// cycle's payload or a newer one, never an older one.
pub proof fn lemma_history_monotonic(m: CacheModel, ops: Seq<CacheOp>)
    ensures
        m.history.is_prefix_of(run_trace(m, ops).history),
    decreases ops.len(),
{
    if ops.len() == 0 {
        assert(m.history.is_prefix_of(m.history));
    } else {
        let m2 = cache_step(m, ops[0]);
        lemma_history_monotonic(m2, ops.drop_first());
        assert(m.history.is_prefix_of(m2.history));
    }
}

/// The process-wide cache state: the last serialized snapshot and the
/// acquisition flag, together with the ghost history of everything ever
/// published.
pub struct SnapshotCache {
    payload: String,
    acquiring: bool,
    history: Ghost<Seq<Seq<char>>>,
}

impl SnapshotCache {
    pub closed spec fn payload_chars(self) -> Seq<char> {
        self.payload@
    }

    pub closed spec fn is_acquiring(self) -> bool {
        self.acquiring
    }

    pub closed spec fn model(self) -> CacheModel {
        CacheModel { history: self.history@, acquiring: self.acquiring }
    }

    /// The current payload is the most recently published one.
    pub open spec fn wf(self) -> bool {
        &&& self.model().history.len() >= 1
        &&& self.model().history.last() == self.payload_chars()
    }

    /// A fresh cache holds the empty snapshot and no cycle is in flight.
    pub fn new() -> (r: Self)
        ensures
            r.wf(),
            !r.is_acquiring(),
            r.payload_chars() == snapshot_json(Seq::<NHICardBasic>::empty()),
            r.model().history == seq![snapshot_json(Seq::<NHICardBasic>::empty())],
    {
        let mut payload = String::new();
        payload.append("[]");
        let ghost h: Seq<Seq<char>> = seq!["[]"@];
        SnapshotCache { payload, acquiring: false, history: Ghost(h) }
    }

    /// The non-blocking claim at the heart of the dedup lock: the caller
    /// learns whether it now owns the acquisition cycle. A caller that does
    /// not must fall through to the cached payload instead of waiting.
    pub fn try_claim(&mut self) -> (claimed: bool)
        requires
            old(self).wf(),
        ensures
            final(self).wf(),
            claimed == claim_succeeds(old(self).model(), CacheOp::TryClaim),
            final(self).model() == cache_step(old(self).model(), CacheOp::TryClaim),
            final(self).payload_chars() == old(self).payload_chars(),
    {
        if self.acquiring {
            false
        } else {
            self.acquiring = true;
            true
        }
    }

    /// The claimed cycle replaces the payload with its freshly serialized
    /// snapshot. Nothing of the previous payload survives partially: the
    /// whole string is swapped at once.
    pub fn publish(&mut self, json: String)
        requires
            old(self).wf(),
            old(self).is_acquiring(),
        ensures
            final(self).wf(),
            final(self).is_acquiring(),
            final(self).payload_chars() == json@,
            final(self).model() == cache_step(old(self).model(), CacheOp::Publish(json@)),
    {
        self.history = Ghost(self.history@.push(json@));
        self.payload = json;
    }

    /// The cycle ends and the lock is free for the next fetch. A cycle that
    /// hard-failed releases without publishing, leaving the previous
    /// payload in place.
    pub fn release(&mut self)
        requires
            old(self).wf(),
            old(self).is_acquiring(),
        ensures
            final(self).wf(),
            !final(self).is_acquiring(),
            final(self).payload_chars() == old(self).payload_chars(),
            final(self).model() == cache_step(old(self).model(), CacheOp::Release),
    {
        self.acquiring = false;
    }

    /// Reads the current payload without touching hardware: always the last
    /// published snapshot, whole.
    pub fn read(&self) -> (r: String)
        requires
            self.wf(),
        ensures
            r@ == self.payload_chars(),
            r@ == self.model().history.last(),
    {
        let r = self.payload.clone();
        r
    }
}

} // verus!
