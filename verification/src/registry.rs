//! The session registry: a mapping from session identifier to session
//! state, with atomic insert, per-operation lookup, and removal.
//!
//! An identifier present in the mapping denotes a live, owned session;
//! absence means "not found" to every caller.  Removal is atomic with
//! the decision to destroy, so no caller ever observes a session that
//! is half torn down.  The host layer serializes all calls through one
//! exclusive-access guard, so each operation here sees and leaves a
//! consistent registry.

use vstd::prelude::*;
use crate::errors::SshError;
use crate::session::{
    SessionData, SessionModel, touched, ingested, read_emits, probe_failed, probe_failure_evicts,
};

verus! {

/// What the host layer observed when it tried one non-blocking read on
/// a session's channel.
#[derive(Debug)]
pub enum ReadEvent {
    /// The channel was still authenticated and delivered these bytes.
    Data(Vec<u8>),
    /// The channel was still authenticated and delivered zero bytes.
    Empty,
    /// The read would have blocked: a normal, transient condition.
    WouldBlock,
    /// The read failed with a hard I/O error.
    HardError,
    /// The channel no longer reports itself authenticated.
    AuthLost,
}

/// What the host layer observed after running a session's write loop.
#[derive(Clone, Copy, Debug)]
pub enum WriteOutcome {
    /// Every byte was accepted and flushed.
    Completed,
    /// A write or flush failed with a hard I/O error.
    HardError,
}

/// What the host layer observed when it forwarded a terminal resize.
#[derive(Clone, Copy, Debug)]
pub enum ResizeOutcome {
    /// The channel accepted the new size.
    Accepted,
    /// The channel refused the request; the session stays usable.
    Refused,
}

/// What a liveness-monitor tick decided.
#[derive(Clone, Copy, Debug, PartialEq, Eq, Structural)]
pub enum MonitorDecision {
    /// The session is gone; the monitor's task should end.
    Exit,
    /// The session stays; keep ticking.
    Continue,
    /// Retries are exhausted; the session was removed and the
    /// monitor's task should end.
    Evict,
}

/// The mapping denoted by an association list of sessions, later
/// entries winning.
pub open spec fn entries_map(s: Seq<(String, SessionData)>) -> Map<Seq<char>, SessionModel>
    decreases s.len(),
{
    if s.len() == 0 {
        Map::empty()
    } else {
        entries_map(s.drop_last()).insert(s.last().0@, s.last().1@)
    }
}

/// True when no two entries share an identifier.
pub open spec fn unique_keys(s: Seq<(String, SessionData)>) -> bool {
    forall|i: int, j: int| 0 <= i < j < s.len() ==> s[i].0@ != s[j].0@
}

/// An identifier is in the mapping exactly when some entry carries it.
proof fn lemma_entries_map_contains(s: Seq<(String, SessionData)>, k: Seq<char>)
    ensures
        entries_map(s).contains_key(k) <==> (exists|i: int| 0 <= i < s.len() && s[i].0@ == k),
    decreases s.len(),
{
    if s.len() > 0 {
        let pre = s.drop_last();
        lemma_entries_map_contains(pre, k);
        if s.last().0@ == k {
            assert(s[s.len() - 1].0@ == k);
        } else if entries_map(s).contains_key(k) {
            let i = choose|i: int| 0 <= i < pre.len() && pre[i].0@ == k;
            assert(s[i].0@ == k);
        } else if exists|i: int| 0 <= i < s.len() && s[i].0@ == k {
            let i = choose|i: int| 0 <= i < s.len() && s[i].0@ == k;
            assert(pre[i].0@ == k);
        }
    }
}

/// With unique identifiers, the mapping sends each entry's identifier
/// to that entry's session.
proof fn lemma_entries_map_index(s: Seq<(String, SessionData)>, i: int)
    requires
        unique_keys(s),
        0 <= i < s.len(),
    ensures
        entries_map(s).contains_key(s[i].0@),
        entries_map(s)[s[i].0@] == s[i].1@,
    decreases s.len(),
{
    let pre = s.drop_last();
    if i < s.len() - 1 {
        assert(pre[i] == s[i]);
        lemma_entries_map_index(pre, i);
        assert(s.last().0@ != s[i].0@);
    }
}

/// With unique identifiers, dropping an entry drops exactly its
/// identifier from the mapping.
proof fn lemma_entries_map_remove(s: Seq<(String, SessionData)>, i: int)
    requires
        unique_keys(s),
        0 <= i < s.len(),
    ensures
        unique_keys(s.remove(i)),
        entries_map(s.remove(i)) =~= entries_map(s).remove(s[i].0@),
    decreases s.len(),
{
    s.remove_ensures(i);
    let k = s[i].0@;
    let r = s.remove(i);
    assert(unique_keys(r)) by {
        assert forall|a: int, b: int| 0 <= a < b < r.len() implies r[a].0@ != r[b].0@ by {
            let a0: int = if a < i {
                a
            } else {
                a + 1
            };
            let b0: int = if b < i {
                b
            } else {
                b + 1
            };
            assert(r[a] == s[a0]);
            assert(r[b] == s[b0]);
        }
    }
    let pre = s.drop_last();
    if i == s.len() - 1 {
        assert(r =~= pre);
        lemma_entries_map_contains(pre, k);
        assert(forall|j: int| 0 <= j < pre.len() ==> pre[j] == s[j]);
        assert(!entries_map(pre).contains_key(k));
        assert(entries_map(pre) =~= entries_map(pre).insert(k, s.last().1@).remove(k));
    } else {
        lemma_entries_map_remove(pre, i);
        assert(r.drop_last() =~= pre.remove(i));
        assert(r.last() == s.last());
        assert(entries_map(r) == entries_map(pre.remove(i)).insert(s.last().0@, s.last().1@));
        assert(s.last().0@ != k);
        assert(entries_map(pre).remove(k).insert(s.last().0@, s.last().1@) =~= entries_map(
            pre,
        ).insert(s.last().0@, s.last().1@).remove(k));
    }
}

/// The registry.  The host application owns exactly one per process
/// and guards it with one exclusive-access lock, so at most one
/// operation touches a given session at a time.
pub struct SessionRegistry {
    entries: Vec<(String, SessionData)>,
}

impl View for SessionRegistry {
    type V = Map<Seq<char>, SessionModel>;

    closed spec fn view(&self) -> Map<Seq<char>, SessionModel> {
        entries_map(self.entries@)
    }
}

impl SessionRegistry {
    /// Internal consistency: identifiers are unique and every stored
    /// session is well formed.
    pub closed spec fn wf(&self) -> bool {
        &&& unique_keys(self.entries@)
        &&& forall|i: int|
            0 <= i < self.entries@.len() ==> (#[trigger] self.entries@[i].1)@.wf()
    }

    /// Every session a well-formed registry holds is itself well
    /// formed; in particular its failure counter sits below the
    /// eviction limit.
    pub proof fn lemma_wf_sessions(&self, k: Seq<char>)
        requires
            self.wf(),
            self@.contains_key(k),
        ensures
            self@[k].wf(),
    {
        lemma_entries_map_contains(self.entries@, k);
        let i = choose|i: int| 0 <= i < self.entries@.len() && self.entries@[i].0@ == k;
        lemma_entries_map_index(self.entries@, i);
    }

    /// An empty registry.
    pub fn new() -> (r: SessionRegistry)
        ensures
            r@ == Map::<Seq<char>, SessionModel>::empty(),
            r.wf(),
    {
        SessionRegistry { entries: Vec::new() }
    }

    /// How many sessions are live.
    pub fn len(&self) -> (n: usize)
        requires
            self.wf(),
        ensures
            n == self@.dom().len(),
    {
        proof {
            Self::lemma_entries_map_card(self.entries@);
        }
        self.entries.len()
    }

    /// With unique identifiers the mapping has one key per entry.
    proof fn lemma_entries_map_card(s: Seq<(String, SessionData)>)
        requires
            unique_keys(s),
        ensures
            entries_map(s).dom().len() == s.len(),
            entries_map(s).dom().finite(),
        decreases s.len(),
    {
        if s.len() > 0 {
            let pre = s.drop_last();
            Self::lemma_entries_map_card(pre);
            lemma_entries_map_contains(pre, s.last().0@);
            assert(forall|j: int| 0 <= j < pre.len() ==> pre[j] == s[j]);
            assert(!entries_map(pre).contains_key(s.last().0@));
        }
    }

    /// Whether a session with this identifier is live.
    pub fn contains(&self, id: &String) -> (b: bool)
        requires
            self.wf(),
        ensures
            b == self@.contains_key(id@),
    {
        let r = self.find_index(id);
        r.is_some()
    }

    /// Index of the entry carrying `id`, if any.
    fn find_index(&self, id: &String) -> (r: Option<usize>)
        requires
            self.wf(),
        ensures
            match r {
                Option::Some(i) => {
                    &&& i < self.entries@.len()
                    &&& self.entries@[i as int].0@ == id@
                    &&& self@.contains_key(id@)
                    &&& self@[id@] == self.entries@[i as int].1@
                },
                Option::None => !self@.contains_key(id@),
            },
    {
        let n = self.entries.len();
        let mut i: usize = 0;
        while i < n
            invariant
                self.wf(),
                n == self.entries@.len(),
                i <= n,
                forall|j: int| 0 <= j < i ==> self.entries@[j].0@ != id@,
            decreases n - i,
        {
            if self.entries[i].0 == *id {
                proof {
                    lemma_entries_map_index(self.entries@, i as int);
                }
                return Option::Some(i);
            }
            i = i + 1;
        }
        proof {
            lemma_entries_map_contains(self.entries@, id@);
        }
        Option::None
    }

    /// Removes and hands out the entry carrying `id`, if any.
    fn take_entry(&mut self, id: &String) -> (r: Option<(String, SessionData)>)
        requires
            old(self).wf(),
        ensures
            final(self).wf(),
            match r {
                Option::Some(pair) => {
                    &&& pair.0@ == id@
                    &&& old(self)@.contains_key(id@)
                    &&& pair.1@ == old(self)@[id@]
                    &&& pair.1@.wf()
                    &&& final(self)@ == old(self)@.remove(id@)
                    &&& !final(self)@.contains_key(id@)
                },
                Option::None => {
                    &&& !old(self)@.contains_key(id@)
                    &&& final(self)@ == old(self)@
                },
            },
    {
        let found = self.find_index(id);
        match found {
            Option::None => Option::None,
            Option::Some(i) => {
                proof {
                    lemma_entries_map_remove(self.entries@, i as int);
                    s_remove_wf(self.entries@, i as int);
                }
                let pair = self.entries.remove(i);
                proof {
                    lemma_entries_map_contains(self.entries@, id@);
                    if self@.contains_key(id@) {
                        let j = choose|j: int|
                            0 <= j < self.entries@.len() && self.entries@[j].0@ == id@;
                        old(self).entries@.remove_ensures(i as int);
                        let j0: int = if j < i as int {
                            j
                        } else {
                            j + 1
                        };
                        assert(old(self).entries@[j0].0@ == id@);
                        assert(old(self).entries@[i as int].0@ == id@);
                    }
                }
                Option::Some(pair)
            },
        }
    }

    /// Adds an entry for an identifier that is not yet live.
    fn push_entry(&mut self, key: String, sess: SessionData)
        requires
            old(self).wf(),
            !old(self)@.contains_key(key@),
            sess@.wf(),
        ensures
            final(self).wf(),
            final(self)@ == old(self)@.insert(key@, sess@),
    {
        proof {
            lemma_entries_map_contains(self.entries@, key@);
        }
        let ghost pre = self.entries@;
        self.entries.push((key, sess));
        proof {
            assert(self.entries@.drop_last() =~= pre);
            assert(forall|j: int| 0 <= j < pre.len() ==> self.entries@[j] == pre[j]);
        }
    }
    /// Inserts a ready session under a fresh identifier, replacing any
    /// session that already carried it (identifiers are random and do
    /// not collide in practice).
    pub fn insert_session(&mut self, id: String, sess: SessionData)
        requires
            old(self).wf(),
            sess@.wf(),
        ensures
            final(self).wf(),
            final(self)@ == old(self)@.insert(id@, sess@),
    {
        let taken = self.take_entry(&id);
        proof {
            if old(self)@.contains_key(id@) {
                assert(old(self)@.remove(id@).insert(id@, sess@) =~= old(self)@.insert(
                    id@,
                    sess@,
                ));
            }
        }
        self.push_entry(id, sess);
    }

    /// One framed read against the session `id`, given what the host
    /// layer observed on the channel.
    ///
    /// An unknown identifier fails with `SessionNotFound`.  A channel
    /// that lost authentication or failed hard removes the session and
    /// fails with `ConnectionLost`.  A would-block result is no error:
    /// empty text, nothing changed.  A zero-byte read is empty text
    /// that counts as activity.  Delivered bytes join the pending
    /// buffer, whose decodable prefix comes back as text while an
    /// undecodable tail stays pending for the next read.
    pub fn read(&mut self, id: &String, ev: ReadEvent, now: u64) -> (r: Result<String, SshError>)
        requires
            old(self).wf(),
        ensures
            final(self).wf(),
            !old(self)@.contains_key(id@) ==> r == Err::<String, SshError>(
                SshError::SessionNotFound,
            ) && final(self)@ == old(self)@,
            old(self)@.contains_key(id@) ==> (match ev {
                ReadEvent::Data(bytes) => {
                    &&& r matches Ok(t) && t@ == read_emits(old(self)@[id@], bytes@)
                    &&& final(self)@ == old(self)@.insert(
                        id@,
                        ingested(old(self)@[id@], bytes@, now),
                    )
                },
                ReadEvent::Empty => {
                    &&& r matches Ok(t) && t@ == Seq::<char>::empty()
                    &&& final(self)@ == old(self)@.insert(id@, touched(old(self)@[id@], now))
                },
                ReadEvent::WouldBlock => {
                    &&& r matches Ok(t) && t@ == Seq::<char>::empty()
                    &&& final(self)@ == old(self)@
                },
                ReadEvent::HardError => {
                    &&& r == Err::<String, SshError>(SshError::ConnectionLost)
                    &&& final(self)@ == old(self)@.remove(id@)
                },
                ReadEvent::AuthLost => {
                    &&& r == Err::<String, SshError>(SshError::ConnectionLost)
                    &&& final(self)@ == old(self)@.remove(id@)
                },
            }),
    {
        let taken = self.take_entry(id);
        match taken {
            Option::None => Err(SshError::SessionNotFound),
            Option::Some((key, mut sess)) => match ev {
                ReadEvent::Data(bytes) => {
                    let out = sess.ingest_read(&bytes, now);
                    self.push_entry(key, sess);
                    Ok(out)
                },
                ReadEvent::Empty => {
                    sess.update_activity(now);
                    self.push_entry(key, sess);
                    Ok(String::new())
                },
                ReadEvent::WouldBlock => {
                    proof {
                        assert(old(self)@.remove(id@).insert(id@, sess@) =~= old(self)@);
                    }
                    self.push_entry(key, sess);
                    Ok(String::new())
                },
                ReadEvent::HardError => Err(SshError::ConnectionLost),
                ReadEvent::AuthLost => Err(SshError::ConnectionLost),
            },
        }
    }

    /// Reports the outcome of one all-or-nothing write against the
    /// session `id`.
    ///
    /// An unknown identifier fails with `SessionNotFound`.  A
    /// completed write counts as activity.  A hard write or flush
    /// error removes the session and fails with `ConnectionLost`.
    pub fn write(&mut self, id: &String, outcome: WriteOutcome, now: u64) -> (r: Result<
        (),
        SshError,
    >)
        requires
            old(self).wf(),
        ensures
            final(self).wf(),
            !old(self)@.contains_key(id@) ==> r == Err::<(), SshError>(SshError::SessionNotFound)
                && final(self)@ == old(self)@,
            old(self)@.contains_key(id@) ==> (match outcome {
                WriteOutcome::Completed => {
                    &&& r == Ok::<(), SshError>(())
                    &&& final(self)@ == old(self)@.insert(id@, touched(old(self)@[id@], now))
                },
                WriteOutcome::HardError => {
                    &&& r == Err::<(), SshError>(SshError::ConnectionLost)
                    &&& final(self)@ == old(self)@.remove(id@)
                },
            }),
    {
        let taken = self.take_entry(id);
        match taken {
            Option::None => Err(SshError::SessionNotFound),
            Option::Some((key, mut sess)) => match outcome {
                WriteOutcome::Completed => {
                    sess.update_activity(now);
                    self.push_entry(key, sess);
                    Ok(())
                },
                WriteOutcome::HardError => Err(SshError::ConnectionLost),
            },
        }
    }

    /// Reports the outcome of forwarding a terminal resize to the
    /// session `id`'s channel: pure forwarding, and a refusal is not
    /// evidence the connection is dead, so the session never moves.
    pub fn resize(&mut self, id: &String, outcome: ResizeOutcome) -> (r: Result<(), SshError>)
        requires
            old(self).wf(),
        ensures
            final(self).wf(),
            final(self)@ == old(self)@,
            !old(self)@.contains_key(id@) ==> r == Err::<(), SshError>(SshError::SessionNotFound),
            old(self)@.contains_key(id@) ==> (match outcome {
                ResizeOutcome::Accepted => r == Ok::<(), SshError>(()),
                ResizeOutcome::Refused => r == Err::<(), SshError>(SshError::ResizeFailed),
            }),
    {
        let taken = self.take_entry(id);
        match taken {
            Option::None => Err(SshError::SessionNotFound),
            Option::Some((key, sess)) => {
                proof {
                    assert(old(self)@.remove(id@).insert(id@, sess@) =~= old(self)@);
                }
                let r = match outcome {
                    ResizeOutcome::Accepted => Ok(()),
                    ResizeOutcome::Refused => Err(SshError::ResizeFailed),
                };
                self.push_entry(key, sess);
                r
            },
        }
    }

    /// Removes the session `id`, if it is live.  Idempotent and never
    /// an error: a missing identifier is a no-op, and every later
    /// operation on `id` sees `SessionNotFound`.  The host layer
    /// performs the bounded graceful shutdown of the channel after the
    /// entry is gone, so no new operation can observe it meanwhile.
    pub fn close(&mut self, id: &String) -> (found: bool)
        requires
            old(self).wf(),
        ensures
            final(self).wf(),
            final(self)@ == old(self)@.remove(id@),
            !final(self)@.contains_key(id@),
            found == old(self)@.contains_key(id@),
    {
        let taken = self.take_entry(id);
        proof {
            if !old(self)@.contains_key(id@) {
                assert(old(self)@.remove(id@) =~= old(self)@);
            }
        }
        taken.is_some()
    }

    /// One liveness-monitor tick for the session `id`, given whether
    /// the probe went through.
    ///
    /// A missing session ends the monitor.  A successful probe counts
    /// as activity.  A failed probe adds one consecutive failure;
    /// reaching the bounded-retry limit removes the session — the sole
    /// automatic-eviction path.
    pub fn probe_tick(&mut self, id: &String, probe_ok: bool, now: u64) -> (d: MonitorDecision)
        requires
            old(self).wf(),
        ensures
            final(self).wf(),
            !old(self)@.contains_key(id@) ==> d == MonitorDecision::Exit && final(self)@
                == old(self)@,
            old(self)@.contains_key(id@) && probe_ok ==> d == MonitorDecision::Continue
                && final(self)@ == old(self)@.insert(id@, touched(old(self)@[id@], now)),
            old(self)@.contains_key(id@) && !probe_ok && !probe_failure_evicts(old(self)@[id@])
                ==> d == MonitorDecision::Continue && final(self)@ == old(self)@.insert(
                id@,
                probe_failed(old(self)@[id@]),
            ),
            old(self)@.contains_key(id@) && !probe_ok && probe_failure_evicts(old(self)@[id@])
                ==> d == MonitorDecision::Evict && final(self)@ == old(self)@.remove(id@),
            !probe_ok ==> final(self)@ == failed_tick_step(old(self)@, id@),
    {
        let taken = self.take_entry(id);
        match taken {
            Option::None => MonitorDecision::Exit,
            Option::Some((key, mut sess)) => {
                if probe_ok {
                    sess.update_activity(now);
                    self.push_entry(key, sess);
                    MonitorDecision::Continue
                } else {
                    let evict = sess.record_probe_failure();
                    if evict {
                        MonitorDecision::Evict
                    } else {
                        self.push_entry(key, sess);
                        MonitorDecision::Continue
                    }
                }
            },
        }
    }

    /// The consecutive liveness-failure count of the session `id`, if
    /// it is live.
    pub fn failure_count_of(&self, id: &String) -> (r: Option<u32>)
        requires
            self.wf(),
        ensures
            match r {
                Option::Some(n) => self@.contains_key(id@) && n == self@[id@].failures,
                Option::None => !self@.contains_key(id@),
            },
    {
        let found = self.find_index(id);
        match found {
            Option::None => Option::None,
            Option::Some(i) => Option::Some(self.entries[i].1.failure_count()),
        }
    }

    /// The last-activity timestamp of the session `id`, if it is live.
    pub fn last_activity_of(&self, id: &String) -> (r: Option<u64>)
        requires
            self.wf(),
        ensures
            match r {
                Option::Some(t) => self@.contains_key(id@) && t == self@[id@].last_activity,
                Option::None => !self@.contains_key(id@),
            },
    {
        let found = self.find_index(id);
        match found {
            Option::None => Option::None,
            Option::Some(i) => Option::Some(self.entries[i].1.last_activity()),
        }
    }
}

/// The registry after one failed probe tick for `id`: a missing
/// session is left alone, exhausted retries remove the session, and
/// otherwise one more consecutive failure is recorded.
pub open spec fn failed_tick_step(m: Map<Seq<char>, SessionModel>, id: Seq<char>) -> Map<
    Seq<char>,
    SessionModel,
> {
    if !m.contains_key(id) {
        m
    } else if probe_failure_evicts(m[id]) {
        m.remove(id)
    } else {
        m.insert(id, probe_failed(m[id]))
    }
}

/// Bounded-retry eviction at the registry: a session with no recorded
/// failures survives two consecutive failed probe ticks and is removed
/// by the third — before a fourth tick — after which its identifier is
/// absent, so by the operations' contracts a concurrent caller's next
/// read, write or resize under it answers `SessionNotFound`.
pub proof fn lemma_monitor_evicts_in_three_ticks(m: Map<Seq<char>, SessionModel>, id: Seq<char>)
    requires
        m.contains_key(id),
        m[id].failures == 0,
    ensures
        failed_tick_step(m, id).contains_key(id),
        failed_tick_step(failed_tick_step(m, id), id).contains_key(id),
        !failed_tick_step(failed_tick_step(failed_tick_step(m, id), id), id).contains_key(id),
{
}

/// Closing is idempotent and final: once an identifier is removed it
/// is absent, so by the operations' contracts every subsequent read,
/// write or resize under it answers `SessionNotFound`, and removing it
/// again — as racing closers do — changes nothing.
pub proof fn lemma_close_idempotent(m: Map<Seq<char>, SessionModel>, id: Seq<char>)
    ensures
        !m.remove(id).contains_key(id),
        m.remove(id).remove(id) == m.remove(id),
{
    assert(m.remove(id).remove(id) =~= m.remove(id));
}

/// Removing an entry keeps every remaining session well formed.
proof fn s_remove_wf(s: Seq<(String, SessionData)>, i: int)
    requires
        0 <= i < s.len(),
        forall|j: int| 0 <= j < s.len() ==> (#[trigger] s[j].1)@.wf(),
    ensures
        forall|j: int| 0 <= j < s.remove(i).len() ==> (#[trigger] s.remove(i)[j].1)@.wf(),
{
    s.remove_ensures(i);
    assert forall|j: int| 0 <= j < s.remove(i).len() implies (#[trigger] s.remove(i)[j].1)@.wf()
        by {
        let j0: int = if j < i {
            j
        } else {
            j + 1
        };
        assert(s.remove(i)[j] == s[j0]);
    }
}

} // verus!
