use crate::session::{EnqueueError, Session, SessionState, SessionView};
use std::collections::HashMap;
use vstd::prelude::*;

verus! {

broadcast use vstd::std_specs::hash::group_hash_axioms;

/// Why a session could not be registered.
#[derive(Clone, Copy, Debug, PartialEq, Eq, Structural)]
pub enum RegisterError {
    /// A session with the same id is already registered.
    DuplicateSession,
    /// The session is already closed.
    SessionClosed,
}

/// What the write loop of a session finds in the registry.
pub enum Outbound {
    /// The oldest pending frame, now taken off the queue.
    Frame(String),
    /// The session is registered and has nothing pending.
    Idle,
    /// The session is no longer registered.
    Gone,
}

/// Mathematical model of the registry: for each online identity, the ids of
/// its sessions; for each registered session id, the session.
pub struct RegistryView {
    pub users: Map<i64, Set<u64>>,
    pub sessions: Map<u64, SessionView>,
}

impl RegistryView {
    /// An identity is a key iff it has at least one session, each session
    /// is filed under its owner, and no registered session is closed.
    pub open spec fn wf(self) -> bool {
        &&& forall|u: i64| #[trigger] self.users.contains_key(u) ==> !self.users[u].is_empty()
        &&& forall|u: i64, sid: u64|
            self.users.contains_key(u) && #[trigger] self.users[u].contains(sid)
                ==> self.sessions.contains_key(sid) && self.sessions[sid].owner == u
        &&& forall|sid: u64| #[trigger]
            self.sessions.contains_key(sid) ==> {
                let s = self.sessions[sid];
                &&& self.users.contains_key(s.owner)
                &&& self.users[s.owner].contains(sid)
                &&& s.id == sid
                &&& s.wf()
                &&& s.state != SessionState::Closed
            }
    }

    pub open spec fn is_online(self, u: i64) -> bool {
        self.users.contains_key(u)
    }

    /// The ids of the sessions registered for `u` (empty when offline).
    pub open spec fn sessions_of(self, u: i64) -> Set<u64> {
        if self.users.contains_key(u) {
            self.users[u]
        } else {
            Set::empty()
        }
    }

    pub open spec fn holds(self, u: i64, sid: u64) -> bool {
        self.sessions_of(u).contains(sid)
    }

    pub open spec fn register_result(self, s: SessionView) -> Result<(), RegisterError> {
        if self.sessions.contains_key(s.id) {
            Err(RegisterError::DuplicateSession)
        } else if s.state == SessionState::Closed {
            Err(RegisterError::SessionClosed)
        } else {
            Ok(())
        }
    }

    /// The registry with `s` added to its owner's session set.
    pub open spec fn register(self, s: SessionView) -> RegistryView {
        RegistryView {
            users: self.users.insert(s.owner, self.sessions_of(s.owner).insert(s.id)),
            sessions: self.sessions.insert(s.id, s),
        }
    }

    /// The registry with session `sid` of `u` removed, and `u` removed when
    /// that was its last session; unchanged when `u` holds no such session.
    pub open spec fn unregister(self, u: i64, sid: u64) -> RegistryView {
        if self.holds(u, sid) {
            let rest = self.users[u].remove(sid);
            RegistryView {
                users: if rest.is_empty() {
                    self.users.remove(u)
                } else {
                    self.users.insert(u, rest)
                },
                sessions: self.sessions.remove(sid),
            }
        } else {
            self
        }
    }

    /// The registry with session `sid` replaced by `s` (identities unchanged).
    pub open spec fn with_session(self, sid: u64, s: SessionView) -> RegistryView {
        RegistryView { sessions: self.sessions.insert(sid, s), ..self }
    }

    /// What offering a frame to session `sid` answers.
    pub open spec fn offer_result(self, sid: u64) -> Result<(), EnqueueError> {
        if self.sessions.contains_key(sid) {
            self.sessions[sid].enqueue_result()
        } else {
            Err(EnqueueError::Closed)
        }
    }

    /// The registry after offering `frame` to session `sid`.
    pub open spec fn offer(self, sid: u64, frame: String) -> RegistryView {
        if self.sessions.contains_key(sid) {
            self.with_session(sid, self.sessions[sid].offer(frame))
        } else {
            self
        }
    }
}

/// Lemma: a registered session is filed under exactly its owner.
pub proof fn lemma_sessions_of(v: RegistryView, u: i64, sid: u64)
    requires
        v.wf(),
    ensures
        v.sessions_of(u).contains(sid) <==> (v.sessions.contains_key(sid) && v.sessions[sid].owner
            == u),
{
    if v.sessions.contains_key(sid) {
        assert(v.users[v.sessions[sid].owner].contains(sid));
    }
}

/// Lemma: replacing a registered session by one with the same id and owner
/// that is well formed and not closed keeps the registry well formed.
proof fn lemma_with_session_wf(v: RegistryView, sid: u64, s: SessionView)
    requires
        v.wf(),
        v.sessions.contains_key(sid),
        s.id == sid,
        s.owner == v.sessions[sid].owner,
        s.wf(),
        s.state != SessionState::Closed,
    ensures
        v.with_session(sid, s).wf(),
{
    let w = v.with_session(sid, s);
    assert forall|x: u64| #[trigger] w.sessions.contains_key(x) implies {
        let t = w.sessions[x];
        &&& w.users.contains_key(t.owner)
        &&& w.users[t.owner].contains(x)
        &&& t.id == x
        &&& t.wf()
        &&& t.state != SessionState::Closed
    } by {
        assert(v.sessions.contains_key(x));
    }
}

/// An identity is online exactly when it has at least one session.
pub proof fn lemma_online_iff_has_sessions(v: RegistryView, u: i64)
    requires
        v.wf(),
    ensures
        v.is_online(u) <==> !v.sessions_of(u).is_empty(),
{
}

/// Two sessions registered for one identity: closing either one leaves the
/// identity online, still holding the other session.
pub proof fn lemma_multi_device_stays_online(v: RegistryView, s1: SessionView, s2: SessionView)
    requires
        v.wf(),
        s1.owner == s2.owner,
        v.register_result(s1) is Ok,
        v.register(s1).register_result(s2) is Ok,
    ensures
        v.register(s1).register(s2).unregister(s1.owner, s1.id).is_online(s1.owner),
        v.register(s1).register(s2).unregister(s1.owner, s1.id).holds(s2.owner, s2.id),
        v.register(s1).register(s2).unregister(s2.owner, s2.id).is_online(s1.owner),
        v.register(s1).register(s2).unregister(s2.owner, s2.id).holds(s1.owner, s1.id),
{
    let u = s1.owner;
    let w = v.register(s1).register(s2);
    assert(s1.id != s2.id);
    assert(w.users[u].contains(s1.id));
    assert(w.users[u].contains(s2.id));
    assert(w.users[u].remove(s1.id).contains(s2.id));
    assert(w.users[u].remove(s2.id).contains(s1.id));
}

/// Closing the last session of an identity removes the identity's key:
/// no entry is left behind.
pub proof fn lemma_last_session_removes_identity(v: RegistryView, u: i64, sid: u64)
    requires
        v.wf(),
        v.sessions_of(u) == set![sid],
    ensures
        !v.unregister(u, sid).users.contains_key(u),
        !v.unregister(u, sid).is_online(u),
        v.unregister(u, sid).sessions_of(u).is_empty(),
{
    assert(v.users.contains_key(u)) by {
        assert(v.sessions_of(u).contains(sid));
    }
    assert(v.users[u].remove(sid) =~= Set::<u64>::empty());
}

/// Unregistering the same (identity, session) pair twice leaves the same
/// registry as unregistering it once.
pub proof fn lemma_unregister_idempotent(v: RegistryView, u: i64, sid: u64)
    ensures
        v.unregister(u, sid).unregister(u, sid) == v.unregister(u, sid),
{
    let once = v.unregister(u, sid);
    if v.holds(u, sid) {
        assert(!once.holds(u, sid));
    }
}

/// Lemma: removing the element at `i` of a sequence without duplicates
/// removes exactly that value from its set, and keeps it duplicate-free.
proof fn lemma_remove_index_to_set(s: Seq<u64>, i: int)
    requires
        s.no_duplicates(),
        0 <= i < s.len(),
    ensures
        s.remove(i).to_set() =~= s.to_set().remove(s[i]),
        s.remove(i).no_duplicates(),
{
    let r = s.remove(i);
    assert forall|x: u64| r.contains(x) <==> s.to_set().remove(s[i]).contains(x) by {
        if r.contains(x) {
            let j = choose|j: int| 0 <= j < r.len() && r[j] == x;
            if j < i {
                assert(s[j] == x);
            } else {
                assert(s[j + 1] == x);
            }
        }
        if s.contains(x) && x != s[i] {
            let k = choose|k: int| 0 <= k < s.len() && s[k] == x;
            if k < i {
                assert(r[k] == x);
            } else {
                assert(r[k - 1] == x);
            }
        }
    }
    assert forall|a: int, b: int| 0 <= a < r.len() && 0 <= b < r.len() && a != b implies r[a]
        != r[b] by {
        let a2 = if a < i {
            a
        } else {
            a + 1
        };
        let b2 = if b < i {
            b
        } else {
            b + 1
        };
        assert(r[a] == s[a2] && r[b] == s[b2]);
    }
}

/// The position of `x` in `v`, if it occurs.
fn index_of(v: &Vec<u64>, x: u64) -> (r: Option<usize>)
    ensures
        match r {
            Some(i) => i < v@.len() && v@[i as int] == x,
            None => !v@.contains(x),
        },
{
    let mut i: usize = 0;
    while i < v.len()
        invariant
            i <= v@.len(),
            forall|j: int| 0 <= j < i ==> v@[j] != x,
        decreases v@.len() - i,
    {
        if v[i] == x {
            return Some(i);
        }
        i += 1;
    }
    None
}

/// Maps each online identity to the set of its live sessions (several
/// devices or tabs per identity), and owns those sessions' outbound queues.
/// Every operation takes the registry as a whole, so holding it behind one
/// lock makes each of them atomic.
pub struct ConnectionRegistry {
    users: HashMap<i64, Vec<u64>>,
    sessions: HashMap<u64, Session>,
}

/// An empty registry, ready to be shared by the session tasks.
pub fn create_clients() -> (r: ConnectionRegistry)
    ensures
        r.wf(),
        r@.users == Map::<i64, Set<u64>>::empty(),
        r@.sessions == Map::<u64, SessionView>::empty(),
{
    ConnectionRegistry::new()
}

impl View for ConnectionRegistry {
    type V = RegistryView;

    closed spec fn view(&self) -> RegistryView {
        RegistryView {
            users: Map::new(
                |u: i64| self.users@.contains_key(u),
                |u: i64| self.users@[u]@.to_set(),
            ),
            sessions: Map::new(
                |sid: u64| self.sessions@.contains_key(sid),
                |sid: u64| self.sessions@[sid]@,
            ),
        }
    }
}

impl ConnectionRegistry {
    /// Each identity's id list is non-empty and without duplicates.
    pub closed spec fn lists_ok(&self) -> bool {
        forall|u: i64| #[trigger]
            self.users@.contains_key(u) ==> self.users@[u]@.no_duplicates() && self.users@[u]@.len()
                > 0
    }

    pub open spec fn wf(&self) -> bool {
        self@.wf() && self.lists_ok()
    }

    pub fn new() -> (r: ConnectionRegistry)
        ensures
            r.wf(),
            r@.users == Map::<i64, Set<u64>>::empty(),
            r@.sessions == Map::<u64, SessionView>::empty(),
    {
        let r = ConnectionRegistry { users: HashMap::new(), sessions: HashMap::new() };
        assert(r@.users =~= Map::<i64, Set<u64>>::empty());
        assert(r@.sessions =~= Map::<u64, SessionView>::empty());
        r
    }

    /// Whether `u` has at least one registered session.
    pub fn is_online(&self, u: i64) -> (r: bool)
        requires
            self.wf(),
        ensures
            r == self@.is_online(u),
            r <==> !self@.sessions_of(u).is_empty(),
    {
        self.users.contains_key(&u)
    }

    /// Whether a session with id `sid` is registered.
    pub fn contains_session(&self, sid: u64) -> (r: bool)
        ensures
            r == self@.sessions.contains_key(sid),
    {
        self.sessions.contains_key(&sid)
    }

    /// A snapshot of the ids of `u`'s sessions. It may go stale as soon as
    /// the registry changes.
    pub fn sessions_for(&self, u: i64) -> (r: Vec<u64>)
        requires
            self.wf(),
        ensures
            r@.to_set() == self@.sessions_of(u),
            r@.no_duplicates(),
            r@.len() == 0 <==> !self@.is_online(u),
    {
        match self.users.get(&u) {
            None => {
                let r: Vec<u64> = Vec::new();
                assert(r@.to_set() =~= Set::<u64>::empty());
                r
            },
            Some(list) => {
                let mut r: Vec<u64> = Vec::new();
                let mut i: usize = 0;
                while i < list.len()
                    invariant
                        i <= list@.len(),
                        r@ == list@.subrange(0, i as int),
                    decreases list@.len() - i,
                {
                    r.push(list[i]);
                    i += 1;
                }
                assert(r@ =~= list@);
                assert(r@.to_set() =~= self@.sessions_of(u));
                r
            },
        }
    }

    /// Adds `session` to its owner's session set. A duplicate id or a closed
    /// session is refused and the registry is left unchanged.
    pub fn register(&mut self, session: Session) -> (r: Result<(), RegisterError>)
        requires
            old(self).wf(),
            session.wf(),
        ensures
            final(self).wf(),
            r == old(self)@.register_result(session@),
            r is Ok ==> final(self)@ == old(self)@.register(session@),
            r is Err ==> final(self)@ == old(self)@,
    {
        let sid = session.id();
        let u = session.owner();
        if self.sessions.contains_key(&sid) {
            return Err(RegisterError::DuplicateSession);
        }
        if session.state() == SessionState::Closed {
            return Err(RegisterError::SessionClosed);
        }
        let ghost pre = self@;
        let mut list = match self.users.remove(&u) {
            Some(l) => l,
            None => Vec::new(),
        };
        let ghost l0 = list@;
        proof {
            assert(l0.to_set() =~= pre.sessions_of(u));
            if old(self).users@.contains_key(u) {
                assert(!list@.contains(sid)) by {
                    if list@.contains(sid) {
                        assert(pre.users[u].contains(sid));
                    }
                }
            }
        }
        list.push(sid);
        self.users.insert(u, list);
        self.sessions.insert(sid, session);
        proof {
            let post = pre.register(session@);
            l0.lemma_push_to_set_commute(sid);
            assert(l0.push(sid).to_set() =~= pre.sessions_of(u).insert(sid));
            assert(self@.users =~= post.users);
            assert(self@.sessions =~= post.sessions);
            assert forall|w: i64| #[trigger] self.users@.contains_key(w) implies self.users@[
                w
            ]@.no_duplicates() && self.users@[w]@.len() > 0 by {
                if w != u {
                    assert(old(self).users@.contains_key(w));
                }
            }
            assert forall|w: i64| #[trigger] post.users.contains_key(w) implies !post.users[
                w
            ].is_empty() by {
                if w == u {
                    assert(post.users[w].contains(sid));
                } else {
                    assert(!pre.users[w].is_empty());
                }
            }
            assert forall|w: i64, x: u64|
                post.users.contains_key(w) && #[trigger] post.users[w].contains(
                    x,
                ) implies post.sessions.contains_key(x) && post.sessions[x].owner == w by {
                if w != u || x != sid {
                    assert(pre.users.contains_key(w) && pre.users[w].contains(x));
                }
            }
            assert forall|x: u64| #[trigger] post.sessions.contains_key(x) implies {
                let s = post.sessions[x];
                &&& post.users.contains_key(s.owner)
                &&& post.users[s.owner].contains(x)
                &&& s.id == x
                &&& s.wf()
                &&& s.state != SessionState::Closed
            } by {
                if x != sid {
                    assert(pre.sessions.contains_key(x));
                }
            }
        }
        Ok(())
    }

    /// Removes exactly session `sid` of `u`, and `u` itself when that was
    /// its last session. The removed session comes back closed. Calling it
    /// again for the same pair changes nothing and returns `None`.
    pub fn unregister(&mut self, u: i64, sid: u64) -> (r: Option<Session>)
        requires
            old(self).wf(),
        ensures
            final(self).wf(),
            final(self)@ == old(self)@.unregister(u, sid),
            r is Some <==> old(self)@.holds(u, sid),
            r matches Some(s) ==> s.wf() && s@ == old(self)@.sessions[sid].with_state(
                SessionState::Closed,
            ),
    {
        let ghost pre = self@;
        let taken = self.users.remove(&u);
        match taken {
            None => {
                assert(self.users@ =~= old(self).users@);
                assert(self@.users =~= pre.users);
                assert(self@.sessions =~= pre.sessions);
                None
            },
            Some(mut list) => {
                match index_of(&list, sid) {
                    None => {
                        self.users.insert(u, list);
                        assert(self.users@ =~= old(self).users@);
                        assert(self@.users =~= pre.users);
                        assert(self@.sessions =~= pre.sessions);
                        None
                    },
                    Some(i) => {
                        proof {
                            lemma_remove_index_to_set(list@, i as int);
                        }
                        list.remove(i);
                        let ghost rest = pre.users[u].remove(sid);
                        assert(list@.to_set() =~= rest);
                        if list.len() > 0 {
                            self.users.insert(u, list);
                            assert(rest.contains(list@[0]));
                        } else {
                            assert(rest =~= Set::<u64>::empty());
                        }
                        let removed = self.sessions.remove(&sid);
                        proof {
                            let post = pre.unregister(u, sid);
                            assert(pre.holds(u, sid));
                            assert(self@.users =~= post.users);
                            assert(self@.sessions =~= post.sessions);
                            assert forall|w: i64| #[trigger]
                                self.users@.contains_key(w) implies self.users@[
                                w
                            ]@.no_duplicates() && self.users@[w]@.len() > 0 by {
                                if w != u {
                                    assert(old(self).users@.contains_key(w));
                                }
                            }
                            assert forall|w: i64| #[trigger]
                                post.users.contains_key(w) implies !post.users[w].is_empty() by {
                                if w == u {
                                    assert(post.users[w].contains(list@[0]));
                                } else {
                                    assert(!pre.users[w].is_empty());
                                }
                            }
                            assert forall|w: i64, x: u64|
                                post.users.contains_key(w) && #[trigger] post.users[w].contains(
                                    x,
                                ) implies post.sessions.contains_key(x) && post.sessions[x].owner
                                == w by {
                                assert(pre.users.contains_key(w) && pre.users[w].contains(x));
                            }
                            assert forall|x: u64| #[trigger] post.sessions.contains_key(x) implies {
                                let s = post.sessions[x];
                                &&& post.users.contains_key(s.owner)
                                &&& post.users[s.owner].contains(x)
                                &&& s.id == x
                                &&& s.wf()
                                &&& s.state != SessionState::Closed
                            } by {
                                assert(pre.sessions.contains_key(x));
                                let o = pre.sessions[x].owner;
                                assert(pre.users[o].contains(x));
                                if o == u {
                                    assert(rest.contains(x));
                                }
                            }
                        }
                        match removed {
                            Some(mut s) => {
                                s.mark_closed();
                                Some(s)
                            },
                            None => {
                                proof {
                                    assert(pre.sessions.contains_key(sid));
                                }
                                None
                            },
                        }
                    },
                }
            },
        }
    }

    /// Offers `frame` to session `sid` without blocking. An unknown id
    /// answers `Closed`; otherwise the session's own `enqueue` decides.
    pub fn offer(&mut self, sid: u64, frame: String) -> (r: Result<(), EnqueueError>)
        requires
            old(self).wf(),
        ensures
            final(self).wf(),
            r == old(self)@.offer_result(sid),
            final(self)@ == old(self)@.offer(sid, frame),
    {
        let ghost pre = self@;
        match self.sessions.remove(&sid) {
            None => {
                assert(self.sessions@ =~= old(self).sessions@);
                assert(self@.sessions =~= pre.sessions);
                Err(EnqueueError::Closed)
            },
            Some(mut s) => {
                assert(old(self).sessions@.contains_key(sid) && old(self).sessions@[sid] == s);
                assert(pre.sessions.contains_key(sid) && pre.sessions[sid] == s@);
                let r = s.enqueue(frame);
                self.sessions.insert(sid, s);
                proof {
                    assert(self@.sessions =~= pre.offer(sid, frame).sessions);
                    assert(self@.users =~= pre.users);
                    lemma_with_session_wf(pre, sid, pre.sessions[sid].offer(frame));
                }
                r
            },
        }
    }

    /// Starts closing session `sid`: from now on it takes no frames. It
    /// stays registered until `unregister`. Returns whether it was found.
    pub fn begin_close(&mut self, sid: u64) -> (r: bool)
        requires
            old(self).wf(),
        ensures
            final(self).wf(),
            r == old(self)@.sessions.contains_key(sid),
            final(self)@ == if r {
                old(self)@.with_session(sid, old(self)@.sessions[sid].closing())
            } else {
                old(self)@
            },
    {
        let ghost pre = self@;
        match self.sessions.remove(&sid) {
            None => {
                assert(self.sessions@ =~= old(self).sessions@);
                assert(self@.sessions =~= pre.sessions);
                false
            },
            Some(mut s) => {
                assert(old(self).sessions@.contains_key(sid) && old(self).sessions@[sid] == s);
                assert(pre.sessions.contains_key(sid) && pre.sessions[sid] == s@);
                s.begin_close();
                self.sessions.insert(sid, s);
                proof {
                    assert(self@.sessions =~= pre.with_session(
                        sid,
                        pre.sessions[sid].closing(),
                    ).sessions);
                    assert(self@.users =~= pre.users);
                    lemma_with_session_wf(pre, sid, pre.sessions[sid].closing());
                }
                true
            },
        }
    }

    /// For the write loop of session `sid`: its oldest pending frame, taken
    /// off the queue; `Idle` when nothing is pending; `Gone` when the
    /// session is no longer registered.
    pub fn take_outbound(&mut self, sid: u64) -> (r: Outbound)
        requires
            old(self).wf(),
        ensures
            final(self).wf(),
            !old(self)@.sessions.contains_key(sid) ==> r is Gone && final(self)@ == old(self)@,
            old(self)@.sessions.contains_key(sid) ==> {
                let s = old(self)@.sessions[sid];
                &&& final(self)@ == old(self)@.with_session(sid, s.after_take())
                &&& s.queue.len() == 0 ==> r is Idle
                &&& s.queue.len() > 0 ==> r == Outbound::Frame(s.queue[0])
            },
    {
        let ghost pre = self@;
        match self.sessions.remove(&sid) {
            None => {
                assert(self.sessions@ =~= old(self).sessions@);
                assert(self@.sessions =~= pre.sessions);
                Outbound::Gone
            },
            Some(mut s) => {
                assert(old(self).sessions@.contains_key(sid) && old(self).sessions@[sid] == s);
                assert(pre.sessions.contains_key(sid) && pre.sessions[sid] == s@);
                let frame = s.next_outbound();
                self.sessions.insert(sid, s);
                proof {
                    assert(self@.sessions =~= pre.with_session(
                        sid,
                        pre.sessions[sid].after_take(),
                    ).sessions);
                    assert(self@.users =~= pre.users);
                    lemma_with_session_wf(pre, sid, pre.sessions[sid].after_take());
                }
                match frame {
                    Some(f) => Outbound::Frame(f),
                    None => Outbound::Idle,
                }
            },
        }
    }
}

} // verus!
