//! Per-session state: the pending-bytes buffer for partial framing, the
//! liveness-failure counter, and the last-activity timestamp.
//!
//! The transport channel itself is owned by the unverified host layer;
//! everything the session protocol decides from is modelled here.

use vstd::prelude::*;
use vstd::utf8::*;
use crate::framing::{scalar_prefix, retained_tail, drained_text_bytes, drain_text};

verus! {

/// Number of consecutive liveness-probe failures, with no intervening
/// successful read, write or probe, after which a session is evicted.
pub const LIVENESS_FAILURE_LIMIT: u32 = 3;

/// Mathematical model of one session's local state.
pub ghost struct SessionModel {
    /// Bytes read from the channel but not yet emitted as text.
    pub pending: Seq<u8>,
    /// Consecutive liveness-probe failures since the last activity.
    pub failures: u32,
    /// Timestamp of the most recent activity, in caller-supplied ticks.
    pub last_activity: u64,
}

impl SessionModel {
    /// A session is well formed when its pending buffer is a proper
    /// prefix of one character's encoding — so it is shorter than the
    /// widest encoding — and its failure counter has not yet reached
    /// the eviction limit (a session at the limit is removed at once).
    pub open spec fn wf(self) -> bool {
        &&& scalar_prefix(self.pending)
        &&& self.failures < LIVENESS_FAILURE_LIMIT
    }

    /// The state of a freshly established session.
    pub open spec fn fresh(now: u64) -> SessionModel {
        SessionModel { pending: Seq::<u8>::empty(), failures: 0, last_activity: now }
    }
}

/// The model after some successful activity at time `now`: the failure
/// counter restarts and the activity timestamp moves.
pub open spec fn touched(s: SessionModel, now: u64) -> SessionModel {
    SessionModel { pending: s.pending, failures: 0, last_activity: now }
}

/// The model after ingesting `bytes` from the channel at time `now`:
/// the pending buffer keeps only the undecodable tail, and the read
/// counts as activity.
pub open spec fn ingested(s: SessionModel, bytes: Seq<u8>, now: u64) -> SessionModel {
    SessionModel {
        pending: retained_tail(s.pending + bytes),
        failures: 0,
        last_activity: now,
    }
}

/// The text a read emits when `bytes` arrive on a session in state `s`:
/// the decodable prefix of the pending buffer joined with the new
/// bytes.
pub open spec fn read_emits(s: SessionModel, bytes: Seq<u8>) -> Seq<char> {
    decode_utf8(drained_text_bytes(s.pending + bytes))
}

/// The model after a failed liveness probe: one more consecutive
/// failure.
pub open spec fn probe_failed(s: SessionModel) -> SessionModel {
    SessionModel {
        pending: s.pending,
        failures: (s.failures + 1) as u32,
        last_activity: s.last_activity,
    }
}

/// True when one more failed probe exhausts the bounded retries and the
/// session must be evicted.
pub open spec fn probe_failure_evicts(s: SessionModel) -> bool {
    s.failures + 1 >= LIVENESS_FAILURE_LIMIT
}

/// Activity suppresses eviction: after any successful write (or probe,
/// or empty read) the consecutive-failure counter is 0, a following
/// read still observes it at 0, and the next failed probe alone cannot
/// evict the session.
pub proof fn lemma_activity_suppresses_eviction(
    s: SessionModel,
    t1: u64,
    bytes: Seq<u8>,
    t2: u64,
)
    ensures
        touched(s, t1).failures == 0,
        ingested(touched(s, t1), bytes, t2).failures == 0,
        touched(touched(s, t1), t2).failures == 0,
        !probe_failure_evicts(touched(s, t1)),
{
}

/// A read boundary is invisible on a text-safe channel: when bytes
/// `b1 + b2` of one valid UTF-8 stream reach a session with nothing
/// pending in two reads instead of one — even split through the middle
/// of a character's encoding — the two emitted texts joined equal the
/// decoding of the unsplit stream, and nothing stays pending.
pub proof fn lemma_read_split_transparent(
    s: SessionModel,
    b1: Seq<u8>,
    b2: Seq<u8>,
    t1: u64,
    t2: u64,
)
    requires
        s.pending == Seq::<u8>::empty(),
        valid_utf8(b1 + b2),
    ensures
        read_emits(s, b1) + read_emits(ingested(s, b1, t1), b2) == decode_utf8(b1 + b2),
        ingested(ingested(s, b1, t1), b2, t2).pending == Seq::<u8>::empty(),
{
    assert(s.pending + b1 =~= b1);
    assert(ingested(s, b1, t1).pending + b2 =~= crate::framing::retained_tail(b1) + b2);
    crate::framing::lemma_split_reads_valid_stream(b1, b2);
}

/// Bounded-retry eviction: starting from any state with no recorded
/// failures, the first two consecutive failed probes do not evict, and
/// the third does — so a session with no intervening activity is
/// removed on the third failed tick, before a fourth.
pub proof fn lemma_three_failures_evict(s: SessionModel)
    requires
        s.failures == 0,
    ensures
        !probe_failure_evicts(s),
        !probe_failure_evicts(probe_failed(s)),
        probe_failure_evicts(probe_failed(probe_failed(s))),
{
}

/// Session-local state, as owned by the registry.  The channel half of
/// the session lives with the unverified transport layer and is keyed
/// by the same identifier.
#[derive(Debug)]
pub struct SessionData {
    pending: Vec<u8>,
    failures: u32,
    last_activity: u64,
}

impl View for SessionData {
    type V = SessionModel;

    closed spec fn view(&self) -> SessionModel {
        SessionModel {
            pending: self.pending@,
            failures: self.failures,
            last_activity: self.last_activity,
        }
    }
}

impl SessionData {
    /// A fresh session: empty pending buffer, no failures, active now.
    pub fn new(now: u64) -> (s: SessionData)
        ensures
            s@ == SessionModel::fresh(now),
            s@.wf(),
    {
        SessionData { pending: Vec::new(), failures: 0, last_activity: now }
    }

    /// Records successful activity: restarts the failure counter and
    /// moves the activity timestamp.
    pub fn update_activity(&mut self, now: u64)
        ensures
            final(self)@ == touched(old(self)@, now),
    {
        self.failures = 0;
        self.last_activity = now;
    }

    /// Ingests bytes read from the channel and returns the text they
    /// complete.  Whatever still sits mid-character stays pending; the
    /// read counts as activity.
    pub fn ingest_read(&mut self, bytes: &Vec<u8>, now: u64) -> (out: String)
        ensures
            out@ == read_emits(old(self)@, bytes@),
            final(self)@ == ingested(old(self)@, bytes@, now),
            final(self)@.pending.len() <= 3,
            old(self)@.wf() ==> final(self)@.wf(),
    {
        self.pending.extend_from_slice(bytes.as_slice());
        proof {
            assert(self.pending@ =~= old(self)@.pending + bytes@);
        }
        let out = drain_text(&mut self.pending);
        self.failures = 0;
        self.last_activity = now;
        out
    }

    /// Records one failed liveness probe and reports whether the
    /// bounded retries are now exhausted.
    pub fn record_probe_failure(&mut self) -> (evict: bool)
        requires
            old(self)@.failures < LIVENESS_FAILURE_LIMIT,
        ensures
            final(self)@ == probe_failed(old(self)@),
            evict == probe_failure_evicts(old(self)@),
    {
        self.failures = self.failures + 1;
        self.failures >= LIVENESS_FAILURE_LIMIT
    }

    /// The current consecutive-failure count.
    pub fn failure_count(&self) -> (n: u32)
        ensures
            n == self@.failures,
    {
        self.failures
    }

    /// The timestamp of the most recent activity.
    pub fn last_activity(&self) -> (t: u64)
        ensures
            t == self@.last_activity,
    {
        self.last_activity
    }

    /// How many bytes wait in the pending buffer.
    pub fn pending_len(&self) -> (n: usize)
        ensures
            n == self@.pending.len(),
    {
        self.pending.len()
    }
}

} // verus!
