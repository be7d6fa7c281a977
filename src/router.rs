use crate::event::{Event, EventKind, Target};
use crate::registry::{lemma_sessions_of, ConnectionRegistry, RegistryView};
use crate::session::EnqueueError;
use vstd::prelude::*;

verus! {

/// Which kinds of event also go to the sender's other sessions when the
/// sender is among a group's members. The session an event came from never
/// gets it back.
#[derive(Clone, Copy, Debug, PartialEq, Eq, Structural)]
pub struct EchoPolicy {
    pub message: bool,
    pub typing: bool,
    pub presence: bool,
}

impl EchoPolicy {
    pub open spec fn echoes(self, kind: EventKind) -> bool {
        match kind {
            EventKind::Message => self.message,
            EventKind::Typing => self.typing,
            EventKind::Online | EventKind::Offline => self.presence,
        }
    }

    /// Messages reach the sender's other devices; typing and presence
    /// events do not.
    pub fn standard() -> (r: EchoPolicy)
        ensures
            r.message,
            !r.typing,
            !r.presence,
    {
        EchoPolicy { message: true, typing: false, presence: false }
    }

    pub fn echoes_kind(&self, kind: EventKind) -> (r: bool)
        ensures
            r == self.echoes(kind),
    {
        match kind {
            EventKind::Message => self.message,
            EventKind::Typing => self.typing,
            EventKind::Online | EventKind::Offline => self.presence,
        }
    }
}

/// The membership lookup for a group event failed.
#[derive(Clone, Copy, Debug, PartialEq, Eq, Structural)]
pub enum ResolverError {
    Unavailable,
}

/// The outcome of routing one event.
pub struct DeliveryReport {
    /// Sessions whose queue took the frame.
    pub delivered: Vec<u64>,
    /// Sessions whose queue was full: the frame was dropped for them.
    pub full: Vec<u64>,
    /// Sessions that were closing and took nothing.
    pub closed: Vec<u64>,
    /// Target identities with no live session.
    pub offline: Vec<i64>,
    /// The membership lookup failed: nothing was delivered.
    pub resolver_failed: bool,
}

/// The identities an event is meant for, given the group's members as the
/// resolver returned them (unused for a direct event).
pub open spec fn target_set(policy: EchoPolicy, e: Event, members: Seq<i64>) -> Set<i64> {
    match e.target {
        Target::Direct(u) => set![u],
        Target::Group(_) => if policy.echoes(e.kind) {
            members.to_set()
        } else {
            members.to_set().remove(e.sender)
        },
    }
}

/// The sessions that a frame for `targets` is offered to: every registered
/// session of a target, except the one it came from.
pub open spec fn recipients(v: RegistryView, targets: Set<i64>, origin: u64) -> Set<u64> {
    Set::new(
        |sid: u64| v.sessions.contains_key(sid) && targets.contains(v.sessions[sid].owner) && sid
            != origin,
    )
}

/// The registry after `frame` has been offered to each session in `chosen`.
pub open spec fn offered_to(v: RegistryView, chosen: Set<u64>, frame: String) -> RegistryView {
    RegistryView {
        users: v.users,
        sessions: Map::new(
            |sid: u64| v.sessions.contains_key(sid),
            |sid: u64|
                if chosen.contains(sid) {
                    v.sessions[sid].offer(frame)
                } else {
                    v.sessions[sid]
                },
        ),
    }
}

/// The targets that have no live session.
pub open spec fn unreachable(v: RegistryView, targets: Set<i64>) -> Set<i64> {
    Set::new(|t: i64| targets.contains(t) && !v.is_online(t))
}

impl DeliveryReport {
    /// The report accounts for a delivery of one frame to `targets` on
    /// registry `v`: each recipient is listed once, under what its queue
    /// answered, and each offline target is listed once.
    pub open spec fn describes(&self, v: RegistryView, targets: Set<i64>, origin: u64) -> bool {
        let chosen = recipients(v, targets, origin);
        &&& !self.resolver_failed
        &&& self.delivered@.no_duplicates()
        &&& self.full@.no_duplicates()
        &&& self.closed@.no_duplicates()
        &&& self.offline@.no_duplicates()
        &&& self.offline@.to_set() == unreachable(v, targets)
        &&& forall|sid: u64|
            #![trigger self.delivered@.contains(sid)]
            self.delivered@.contains(sid) <==> chosen.contains(sid)
                && v.sessions[sid].enqueue_result() is Ok
        &&& forall|sid: u64|
            #![trigger self.full@.contains(sid)]
            self.full@.contains(sid) <==> chosen.contains(sid) && v.sessions[sid].enqueue_result()
                == Err::<(), EnqueueError>(EnqueueError::Full)
        &&& forall|sid: u64|
            #![trigger self.closed@.contains(sid)]
            self.closed@.contains(sid) <==> chosen.contains(sid)
                && v.sessions[sid].enqueue_result() == Err::<(), EnqueueError>(
                EnqueueError::Closed,
            )
    }

    /// The report of a group event whose membership lookup failed.
    pub open spec fn is_resolver_failure(&self) -> bool {
        &&& self.resolver_failed
        &&& self.delivered@.len() == 0
        &&& self.full@.len() == 0
        &&& self.closed@.len() == 0
        &&& self.offline@.len() == 0
    }

    pub fn delivered_count(&self) -> (r: usize)
        ensures
            r == self.delivered@.len(),
    {
        self.delivered.len()
    }

    pub fn full_count(&self) -> (r: usize)
        ensures
            r == self.full@.len(),
    {
        self.full.len()
    }

    pub fn offline_count(&self) -> (r: usize)
        ensures
            r == self.offline@.len(),
    {
        self.offline.len()
    }
}

proof fn lemma_push_contains<A>(s: Seq<A>, a: A, x: A)
    ensures
        s.push(a).contains(x) <==> s.contains(x) || x == a,
{
    if x == a {
        assert(s.push(a)[s.len() as int] == a);
    }
    if s.contains(x) {
        let k = choose|k: int| 0 <= k < s.len() && s[k] == x;
        assert(s.push(a)[k] == x);
    }
}

/// The sessions handled after `i` targets, and `j` sessions of target `i`.
spec fn covered(
    v: RegistryView,
    targets: Seq<i64>,
    i: int,
    sids: Seq<u64>,
    j: int,
    origin: u64,
) -> Set<u64> {
    Set::new(
        |sid: u64|
            recipients(v, targets.subrange(0, i).to_set(), origin).contains(sid) || (
            sids.subrange(0, j).contains(sid) && sid != origin),
    )
}

/// Offers `frame` to every session of every identity in `targets`, except
/// session `origin`, and reports what each queue answered.
pub fn deliver(
    reg: &mut ConnectionRegistry,
    targets: &Vec<i64>,
    origin: u64,
    frame: &String,
) -> (r: DeliveryReport)
    requires
        old(reg).wf(),
        targets@.no_duplicates(),
    ensures
        final(reg).wf(),
        final(reg)@ == offered_to(old(reg)@, recipients(old(reg)@, targets@.to_set(), origin), *frame),
        r.describes(old(reg)@, targets@.to_set(), origin),
{
    let ghost v0 = reg@;
    let mut report = DeliveryReport {
        delivered: Vec::new(),
        full: Vec::new(),
        closed: Vec::new(),
        offline: Vec::new(),
        resolver_failed: false,
    };
    let mut i: usize = 0;
    proof {
        let c0 = recipients(v0, targets@.subrange(0, 0).to_set(), origin);
        assert(c0 =~= Set::<u64>::empty());
        assert(offered_to(v0, c0, *frame).sessions =~= v0.sessions);
    }
    while i < targets.len()
        invariant
            v0 == old(reg)@,
            v0.wf(),
            targets@.no_duplicates(),
            i <= targets@.len(),
            reg.wf(),
            reg@ == offered_to(v0, recipients(v0, targets@.subrange(0, i as int).to_set(), origin), *frame),
            !report.resolver_failed,
            report.delivered@.no_duplicates(),
            report.full@.no_duplicates(),
            report.closed@.no_duplicates(),
            report.offline@.no_duplicates(),
            forall|t: i64| #[trigger] report.offline@.contains(t) <==> targets@.subrange(0, i as int).contains(t) && !v0.is_online(t),
            forall|sid: u64|
                #![trigger report.delivered@.contains(sid)]
                report.delivered@.contains(sid) <==> recipients(v0, targets@.subrange(0, i as int).to_set(), origin).contains(sid)
                    && v0.sessions[sid].enqueue_result() is Ok,
            forall|sid: u64|
                #![trigger report.full@.contains(sid)]
                report.full@.contains(sid) <==> recipients(v0, targets@.subrange(0, i as int).to_set(), origin).contains(sid)
                    && v0.sessions[sid].enqueue_result() == Err::<(), EnqueueError>(EnqueueError::Full),
            forall|sid: u64|
                #![trigger report.closed@.contains(sid)]
                report.closed@.contains(sid) <==> recipients(v0, targets@.subrange(0, i as int).to_set(), origin).contains(sid)
                    && v0.sessions[sid].enqueue_result() == Err::<(), EnqueueError>(EnqueueError::Closed),
        decreases targets@.len() - i,
    {
        let t = targets[i];
        let sids = reg.sessions_for(t);
        let ghost done = recipients(v0, targets@.subrange(0, i as int).to_set(), origin);
        proof {
            assert(reg@.users == v0.users);
            assert(!targets@.subrange(0, i as int).contains(t)) by {
                if targets@.subrange(0, i as int).contains(t) {
                    let k = choose|k: int| 0 <= k < i && targets@.subrange(0, i as int)[k] == t;
                    assert(targets@[k] == targets@[i as int]);
                }
            }
        }
        let ghost off0 = report.offline@;
        if sids.len() == 0 {
            assert(!report.offline@.contains(t));
            report.offline.push(t);
        }
        proof {
            assert(targets@.subrange(0, i + 1) =~= targets@.subrange(0, i as int).push(t));
            assert forall|x: i64| #[trigger] report.offline@.contains(x) <==> targets@.subrange(0, i + 1).contains(x) && !v0.is_online(x) by {
                lemma_push_contains(targets@.subrange(0, i as int), t, x);
                lemma_push_contains(off0, t, x);
            }
            assert(covered(v0, targets@, i as int, sids@, 0, origin) =~= done);
        }
        let mut j: usize = 0;
        while j < sids.len()
            invariant
                v0 == old(reg)@,
                v0.wf(),
                i < targets@.len(),
                t == targets@[i as int],
                !targets@.subrange(0, i as int).contains(t),
                done == recipients(v0, targets@.subrange(0, i as int).to_set(), origin),
                sids@.to_set() == v0.sessions_of(t),
                sids@.no_duplicates(),
                j <= sids@.len(),
                reg.wf(),
                reg@ == offered_to(v0, covered(v0, targets@, i as int, sids@, j as int, origin), *frame),
                !report.resolver_failed,
                report.delivered@.no_duplicates(),
                report.full@.no_duplicates(),
                report.closed@.no_duplicates(),
                report.offline@.no_duplicates(),
                forall|x: i64| #[trigger] report.offline@.contains(x) <==> targets@.subrange(0, i + 1).contains(x) && !v0.is_online(x),
                forall|sid: u64|
                    #![trigger report.delivered@.contains(sid)]
                    report.delivered@.contains(sid) <==> covered(v0, targets@, i as int, sids@, j as int, origin).contains(sid)
                        && v0.sessions[sid].enqueue_result() is Ok,
                forall|sid: u64|
                    #![trigger report.full@.contains(sid)]
                    report.full@.contains(sid) <==> covered(v0, targets@, i as int, sids@, j as int, origin).contains(sid)
                        && v0.sessions[sid].enqueue_result() == Err::<(), EnqueueError>(EnqueueError::Full),
                forall|sid: u64|
                    #![trigger report.closed@.contains(sid)]
                    report.closed@.contains(sid) <==> covered(v0, targets@, i as int, sids@, j as int, origin).contains(sid)
                        && v0.sessions[sid].enqueue_result() == Err::<(), EnqueueError>(EnqueueError::Closed),
            decreases sids@.len() - j,
        {
            let sid = sids[j];
            let ghost before = covered(v0, targets@, i as int, sids@, j as int, origin);
            let ghost after = covered(v0, targets@, i as int, sids@, j + 1, origin);
            proof {
                assert(sids@.to_set().contains(sid));
                lemma_sessions_of(v0, t, sid);
                assert(sids@.subrange(0, j + 1) =~= sids@.subrange(0, j as int).push(sid));
                assert(!sids@.subrange(0, j as int).contains(sid)) by {
                    if sids@.subrange(0, j as int).contains(sid) {
                        let k = choose|k: int| 0 <= k < j && sids@.subrange(0, j as int)[k] == sid;
                        assert(sids@[k] == sids@[j as int]);
                    }
                }
                assert(!done.contains(sid)) by {
                    if done.contains(sid) {
                        assert(targets@.subrange(0, i as int).to_set().contains(t));
                    }
                }
                assert(!before.contains(sid));
            }
            proof {
                assert forall|x: u64| #[trigger] after.contains(x) == (before.contains(x) || (x
                    == sid && sid != origin)) by {
                    lemma_push_contains(sids@.subrange(0, j as int), sid, x);
                }
            }
            if sid != origin {
                let ghost del0 = report.delivered@;
                let ghost full0 = report.full@;
                let ghost closed0 = report.closed@;
                assert(!report.delivered@.contains(sid));
                assert(!report.full@.contains(sid));
                assert(!report.closed@.contains(sid));
                assert(reg@.sessions.contains_key(sid) && reg@.sessions[sid] == v0.sessions[sid]);
                let res = reg.offer(sid, frame.clone());
                proof {
                    assert(after =~= before.insert(sid));
                    assert(reg@.sessions =~= offered_to(v0, after, *frame).sessions);
                }
                match res {
                    Ok(()) => report.delivered.push(sid),
                    Err(EnqueueError::Full) => report.full.push(sid),
                    Err(EnqueueError::Closed) => report.closed.push(sid),
                }
                proof {
                    assert forall|x: u64| #[trigger] report.delivered@.contains(x) <==> after.contains(x)
                        && v0.sessions[x].enqueue_result() is Ok by {
                        lemma_push_contains(del0, sid, x);
                    }
                    assert forall|x: u64| #[trigger] report.full@.contains(x) <==> after.contains(x)
                        && v0.sessions[x].enqueue_result() == Err::<(), EnqueueError>(
                        EnqueueError::Full,
                    ) by {
                        lemma_push_contains(full0, sid, x);
                    }
                    assert forall|x: u64| #[trigger] report.closed@.contains(x) <==> after.contains(x)
                        && v0.sessions[x].enqueue_result() == Err::<(), EnqueueError>(
                        EnqueueError::Closed,
                    ) by {
                        lemma_push_contains(closed0, sid, x);
                    }
                }
            } else {
                assert(after =~= before);
            }
            j += 1;
        }
        proof {
            let next = recipients(v0, targets@.subrange(0, i + 1).to_set(), origin);
            assert(targets@.subrange(0, i + 1) =~= targets@.subrange(0, i as int).push(t));
            targets@.subrange(0, i as int).lemma_push_to_set_commute(t);
            assert(sids@.subrange(0, sids@.len() as int) =~= sids@);
            assert forall|sid: u64| #[trigger] next.contains(sid) == covered(v0, targets@, i as int, sids@, j as int, origin).contains(sid) by {
                lemma_sessions_of(v0, t, sid);
                assert(sids@.contains(sid) == sids@.to_set().contains(sid));
            }
            assert(next =~= covered(v0, targets@, i as int, sids@, j as int, origin));
        }
        i += 1;
    }
    proof {
        assert(targets@.subrange(0, targets@.len() as int) =~= targets@);
        assert(report.offline@.to_set() =~= unreachable(v0, targets@.to_set()));
    }
    report
}

/// The identities a routed event goes to; `None` when it is a group event
/// whose membership lookup failed.
pub open spec fn resolved_targets(
    policy: EchoPolicy,
    e: Event,
    members: Result<Vec<i64>, ResolverError>,
) -> Option<Set<i64>> {
    match e.target {
        Target::Direct(u) => Some(set![u]),
        Target::Group(_) => match members {
            Ok(m) => Some(target_set(policy, e, m@)),
            Err(_) => None,
        },
    }
}

/// Whether `x` occurs in `v`.
fn contains_id(v: &Vec<i64>, x: i64) -> (r: bool)
    ensures
        r == v@.contains(x),
{
    let mut i: usize = 0;
    while i < v.len()
        invariant
            i <= v@.len(),
            forall|j: int| 0 <= j < i ==> v@[j] != x,
        decreases v@.len() - i,
    {
        if v[i] == x {
            return true;
        }
        i += 1;
    }
    false
}

/// Resolves the targets of an event and fans it out over the registry.
#[derive(Clone, Copy, Debug, PartialEq, Eq, Structural)]
pub struct Router {
    pub policy: EchoPolicy,
}

impl Router {
    /// A router with the standard echo policy.
    pub fn new() -> (r: Router)
        ensures
            r.policy.message,
            !r.policy.typing,
            !r.policy.presence,
    {
        Router { policy: EchoPolicy::standard() }
    }

    pub fn with_policy(policy: EchoPolicy) -> (r: Router)
        ensures
            r.policy == policy,
    {
        Router { policy }
    }

    /// The target identities of `event`, each once: its receiver, or the
    /// group's `members` (without the sender unless its kind is echoed).
    pub fn targets(&self, event: &Event, members: &Vec<i64>) -> (r: Vec<i64>)
        ensures
            r@.no_duplicates(),
            r@.to_set() == target_set(self.policy, *event, members@),
    {
        match event.target {
            Target::Direct(u) => {
                let mut r: Vec<i64> = Vec::new();
                r.push(u);
                proof {
                    assert forall|x: i64| r@.contains(x) <==> x == u by {
                        if x == u {
                            assert(r@[0] == u);
                        }
                    }
                    assert(r@.to_set() =~= set![u]);
                }
                r
            },
            Target::Group(_) => {
                let echo = self.policy.echoes_kind(event.kind);
                let sender = event.sender;
                let mut r: Vec<i64> = Vec::new();
                let mut i: usize = 0;
                while i < members.len()
                    invariant
                        i <= members@.len(),
                        echo == self.policy.echoes(event.kind),
                        sender == event.sender,
                        r@.no_duplicates(),
                        forall|x: i64| #[trigger]
                            r@.contains(x) <==> members@.subrange(0, i as int).contains(x) && (
                            echo || x != sender),
                    decreases members@.len() - i,
                {
                    let m = members[i];
                    let ghost r0 = r@;
                    if (echo || m != sender) && !contains_id(&r, m) {
                        r.push(m);
                    }
                    proof {
                        assert(members@.subrange(0, i + 1) =~= members@.subrange(0, i as int).push(
                            m,
                        ));
                        assert forall|x: i64| #[trigger]
                            r@.contains(x) <==> members@.subrange(0, i + 1).contains(x) && (echo
                                || x != sender) by {
                            lemma_push_contains(members@.subrange(0, i as int), m, x);
                            lemma_push_contains(r0, m, x);
                        }
                    }
                    i += 1;
                }
                proof {
                    assert(members@.subrange(0, members@.len() as int) =~= members@);
                    assert(r@.to_set() =~= target_set(self.policy, *event, members@));
                }
                r
            },
        }
    }

    /// Routes one event that arrived on session `origin`: resolves its
    /// target set (for a group event, from `members`, the resolver's answer
    /// at resolution time) and offers the serialized `frame` to every live
    /// session of every target but `origin`. A failed lookup delivers to
    /// nobody and says so in the report.
    pub fn route(
        &self,
        reg: &mut ConnectionRegistry,
        event: &Event,
        origin: u64,
        members: &Result<Vec<i64>, ResolverError>,
        frame: &String,
    ) -> (r: DeliveryReport)
        requires
            old(reg).wf(),
        ensures
            final(reg).wf(),
            match resolved_targets(self.policy, *event, *members) {
                Some(ts) => {
                    &&& final(reg)@ == offered_to(old(reg)@, recipients(old(reg)@, ts, origin), *frame)
                    &&& r.describes(old(reg)@, ts, origin)
                },
                None => final(reg)@ == old(reg)@ && r.is_resolver_failure(),
            },
    {
        let none: Vec<i64> = Vec::new();
        let targets = match event.target {
            Target::Direct(_) => self.targets(event, &none),
            Target::Group(_) => match members {
                Ok(m) => self.targets(event, m),
                Err(_) => {
                    return DeliveryReport {
                        delivered: Vec::new(),
                        full: Vec::new(),
                        closed: Vec::new(),
                        offline: Vec::new(),
                        resolver_failed: true,
                    };
                },
            },
        };
        deliver(reg, &targets, origin, frame)
    }
}

/// A direct event to an identity with no live session leaves every queue
/// as it was, and its report lists no session and names that identity as
/// unreachable; it is no failure.
pub proof fn lemma_direct_to_offline(
    v: RegistryView,
    u: i64,
    origin: u64,
    frame: String,
    r: DeliveryReport,
)
    requires
        v.wf(),
        !v.is_online(u),
        r.describes(v, set![u], origin),
    ensures
        offered_to(v, recipients(v, set![u], origin), frame) == v,
        r.delivered@.len() == 0,
        r.full@.len() == 0,
        r.closed@.len() == 0,
        r.offline@.to_set() == set![u],
        !r.resolver_failed,
{
    assert(recipients(v, set![u], origin) =~= Set::<u64>::empty()) by {
        assert forall|sid: u64| !#[trigger] recipients(v, set![u], origin).contains(sid) by {
            if v.sessions.contains_key(sid) && v.sessions[sid].owner == u {
                lemma_sessions_of(v, u, sid);
            }
        }
    }
    assert(offered_to(v, recipients(v, set![u], origin), frame).sessions =~= v.sessions);
    assert(unreachable(v, set![u]) =~= set![u]);
    if r.delivered@.len() > 0 {
        assert(r.delivered@.contains(r.delivered@[0]));
    }
    if r.full@.len() > 0 {
        assert(r.full@.contains(r.full@[0]));
    }
    if r.closed@.len() > 0 {
        assert(r.closed@.contains(r.closed@[0]));
    }
}

/// A group event is offered to exactly the sessions, other than its origin,
/// of the members the resolver returned (less the sender when its kind is
/// not echoed): membership is read once, from that answer.
pub proof fn lemma_group_delivers_to_members(
    v: RegistryView,
    policy: EchoPolicy,
    e: Event,
    members: Seq<i64>,
    origin: u64,
    sid: u64,
)
    requires
        v.wf(),
        e.target is Group,
    ensures
        recipients(v, target_set(policy, e, members), origin).contains(sid) <==> {
            &&& v.sessions.contains_key(sid)
            &&& sid != origin
            &&& members.contains(v.sessions[sid].owner)
            &&& (policy.echoes(e.kind) || v.sessions[sid].owner != e.sender)
        },
{
}

} // verus!
