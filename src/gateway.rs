use crate::registry::{ConnectionRegistry, RegistryView};
use crate::session::{Session, SessionState, SessionView};
use vstd::prelude::*;

verus! {

/// Why an upgrade request did not become a session.
#[derive(Clone, Copy, Debug, PartialEq, Eq, Structural)]
pub enum Rejected {
    /// The request carries no verified identity.
    Unauthenticated,
    /// The transport upgrade failed.
    UpgradeFailed,
    /// Every session id has been handed out.
    SessionIdsExhausted,
    /// The next session id is already registered.
    SessionIdInUse,
}

/// Admits verified identities and registers a fresh session for each
/// successful upgrade.
pub struct Gateway {
    next_session: u64,
    queue_capacity: usize,
}

/// Model of the gateway: the id the next session gets, and the outbound
/// queue capacity of every session it opens.
pub struct GatewayView {
    pub next_session: u64,
    pub queue_capacity: nat,
}

impl View for Gateway {
    type V = GatewayView;

    closed spec fn view(&self) -> GatewayView {
        GatewayView { next_session: self.next_session, queue_capacity: self.queue_capacity as nat }
    }
}

/// The session that the gateway opens for `identity` under id `sid`.
pub open spec fn fresh_session(sid: u64, identity: i64, capacity: nat) -> SessionView {
    SessionView { id: sid, owner: identity, queue: Seq::empty(), capacity, state: SessionState::Open }
}

/// What `accept` answers.
pub open spec fn accept_result(
    g: GatewayView,
    reg: RegistryView,
    identity: Option<i64>,
    upgraded: bool,
) -> Result<u64, Rejected> {
    if identity is None {
        Err(Rejected::Unauthenticated)
    } else if !upgraded {
        Err(Rejected::UpgradeFailed)
    } else if g.next_session == u64::MAX {
        Err(Rejected::SessionIdsExhausted)
    } else if reg.sessions.contains_key(g.next_session) {
        Err(Rejected::SessionIdInUse)
    } else {
        Ok(g.next_session)
    }
}

/// The identity claim of a request: it must carry a verified identity.
pub fn verified_identity(identity: Option<i64>) -> (r: Result<i64, Rejected>)
    ensures
        r == match identity {
            Some(u) => Ok::<i64, Rejected>(u),
            None => Err(Rejected::Unauthenticated),
        },
{
    match identity {
        Some(u) => Ok(u),
        None => Err(Rejected::Unauthenticated),
    }
}

impl Gateway {
    /// Session ids start at 1.
    pub fn new(queue_capacity: usize) -> (r: Gateway)
        ensures
            r@.next_session == 1,
            r@.queue_capacity == queue_capacity,
    {
        Gateway { next_session: 1, queue_capacity }
    }

    pub fn queue_capacity(&self) -> (r: usize)
        ensures
            r == self@.queue_capacity,
    {
        self.queue_capacity
    }

    /// Turns an upgrade request into a registered, open session. The
    /// identity must already have been verified by the token check; the
    /// gateway checks no credential. A rejected request registers nothing.
    pub fn accept(
        &mut self,
        reg: &mut ConnectionRegistry,
        identity: Option<i64>,
        upgraded: bool,
    ) -> (r: Result<u64, Rejected>)
        requires
            old(reg).wf(),
        ensures
            final(reg).wf(),
            r == accept_result(old(self)@, old(reg)@, identity, upgraded),
            final(self)@.queue_capacity == old(self)@.queue_capacity,
            r matches Ok(sid) ==> {
                &&& final(reg)@ == old(reg)@.register(
                    fresh_session(sid, identity->Some_0, old(self)@.queue_capacity),
                )
                &&& final(self)@.next_session == sid + 1
            },
            r is Err ==> final(reg)@ == old(reg)@,
            r == Err::<u64, Rejected>(Rejected::SessionIdInUse) ==> final(self)@.next_session
                == old(self)@.next_session + 1,
            r is Err && r != Err::<u64, Rejected>(Rejected::SessionIdInUse) ==> final(self)@
                == old(self)@,
    {
        let u = match verified_identity(identity) {
            Ok(u) => u,
            Err(e) => return Err(e),
        };
        if !upgraded {
            return Err(Rejected::UpgradeFailed);
        }
        if self.next_session == u64::MAX {
            return Err(Rejected::SessionIdsExhausted);
        }
        let sid = self.next_session;
        self.next_session = sid + 1;
        if reg.contains_session(sid) {
            return Err(Rejected::SessionIdInUse);
        }
        let session = Session::open(sid, u, self.queue_capacity);
        match reg.register(session) {
            Ok(()) => Ok(sid),
            Err(_) => {
                proof {
                    assert(false);
                }
                Err(Rejected::SessionIdInUse)
            },
        }
    }
}

} // verus!
