use std::collections::VecDeque;
use vstd::prelude::*;

verus! {

/// Outbound queue capacity used when none is configured.
pub const DEFAULT_QUEUE_CAPACITY: usize = 100;

/// Lifecycle of one connection: `Connecting -> Open -> Closing -> Closed`.
#[derive(Clone, Copy, Debug, PartialEq, Eq, Structural)]
pub enum SessionState {
    Connecting,
    Open,
    Closing,
    Closed,
}

/// Why an event could not be queued on a session.
#[derive(Clone, Copy, Debug, PartialEq, Eq, Structural)]
pub enum EnqueueError {
    /// The outbound queue already holds `capacity` frames.
    Full,
    /// The session is not open (not yet established, or closing/closed).
    Closed,
}

/// Mathematical model of a session.
pub struct SessionView {
    pub id: u64,
    pub owner: i64,
    /// Pending serialized frames, oldest first.
    pub queue: Seq<String>,
    pub capacity: nat,
    pub state: SessionState,
}

impl SessionView {
    /// The session takes a new frame right now.
    pub open spec fn accepts(self) -> bool {
        self.state == SessionState::Open && self.queue.len() < self.capacity
    }

    /// What `enqueue` answers in this state.
    pub open spec fn enqueue_result(self) -> Result<(), EnqueueError> {
        if self.state != SessionState::Open {
            Err(EnqueueError::Closed)
        } else if self.queue.len() >= self.capacity {
            Err(EnqueueError::Full)
        } else {
            Ok(())
        }
    }

    /// The state after offering `frame`: appended when accepted, else unchanged.
    pub open spec fn offer(self, frame: String) -> SessionView {
        if self.accepts() {
            SessionView { queue: self.queue.push(frame), ..self }
        } else {
            self
        }
    }

    pub open spec fn with_state(self, state: SessionState) -> SessionView {
        SessionView { state, ..self }
    }

    /// The state after `begin_close`.
    pub open spec fn closing(self) -> SessionView {
        if self.state == SessionState::Open || self.state == SessionState::Connecting {
            self.with_state(SessionState::Closing)
        } else {
            self
        }
    }

    /// The state after the oldest pending frame is taken, if there is one.
    pub open spec fn after_take(self) -> SessionView {
        if self.queue.len() > 0 {
            SessionView { queue: self.queue.drop_first(), ..self }
        } else {
            self
        }
    }

    pub open spec fn wf(self) -> bool {
        self.queue.len() <= self.capacity
    }
}

/// One live connection: its owner, a bounded outbound queue of serialized
/// frames, and its lifecycle state.
pub struct Session {
    id: u64,
    owner: i64,
    queue: VecDeque<String>,
    capacity: usize,
    state: SessionState,
}

impl View for Session {
    type V = SessionView;

    closed spec fn view(&self) -> SessionView {
        SessionView {
            id: self.id,
            owner: self.owner,
            queue: self.queue@,
            capacity: self.capacity as nat,
            state: self.state,
        }
    }
}

impl Session {
    pub open spec fn wf(&self) -> bool {
        self@.wf()
    }

    /// A session under construction; it takes no frames until established.
    pub fn new(id: u64, owner: i64, capacity: usize) -> (s: Session)
        ensures
            s.wf(),
            s@ == (SessionView {
                id,
                owner,
                queue: Seq::empty(),
                capacity: capacity as nat,
                state: SessionState::Connecting,
            }),
    {
        Session { id, owner, queue: VecDeque::new(), capacity, state: SessionState::Connecting }
    }

    /// A session whose transport is established: open, with an empty queue.
    pub fn open(id: u64, owner: i64, capacity: usize) -> (s: Session)
        ensures
            s.wf(),
            s@ == (SessionView {
                id,
                owner,
                queue: Seq::empty(),
                capacity: capacity as nat,
                state: SessionState::Open,
            }),
    {
        let mut s = Session::new(id, owner, capacity);
        s.establish();
        s
    }

    /// `Connecting -> Open`; any other state is left as it is.
    pub fn establish(&mut self)
        requires
            old(self).wf(),
        ensures
            final(self).wf(),
            final(self)@ == if old(self)@.state == SessionState::Connecting {
                old(self)@.with_state(SessionState::Open)
            } else {
                old(self)@
            },
    {
        if self.state == SessionState::Connecting {
            self.state = SessionState::Open;
        }
    }

    pub fn id(&self) -> (r: u64)
        ensures
            r == self@.id,
    {
        self.id
    }

    pub fn owner(&self) -> (r: i64)
        ensures
            r == self@.owner,
    {
        self.owner
    }

    pub fn capacity(&self) -> (r: usize)
        ensures
            r as nat == self@.capacity,
    {
        self.capacity
    }

    pub fn state(&self) -> (r: SessionState)
        ensures
            r == self@.state,
    {
        self.state
    }

    /// The liveness flag: the session is open.
    pub fn is_live(&self) -> (r: bool)
        ensures
            r == (self@.state == SessionState::Open),
    {
        self.state == SessionState::Open
    }

    /// Number of frames waiting to be written.
    pub fn pending(&self) -> (r: usize)
        ensures
            r == self@.queue.len(),
    {
        self.queue.len()
    }

    /// Non-blocking push of one serialized frame onto the outbound queue.
    /// A full queue drops the frame (`Full`); a session that is not open
    /// refuses it (`Closed`). Either way the session is left unchanged.
    pub fn enqueue(&mut self, frame: String) -> (r: Result<(), EnqueueError>)
        requires
            old(self).wf(),
        ensures
            final(self).wf(),
            r == old(self)@.enqueue_result(),
            r is Ok <==> old(self)@.accepts(),
            final(self)@ == old(self)@.offer(frame),
    {
        if self.state != SessionState::Open {
            Err(EnqueueError::Closed)
        } else if self.queue.len() >= self.capacity {
            Err(EnqueueError::Full)
        } else {
            self.queue.push_back(frame);
            Ok(())
        }
    }

    /// Takes the oldest pending frame, for the write loop.
    pub fn next_outbound(&mut self) -> (r: Option<String>)
        requires
            old(self).wf(),
        ensures
            final(self).wf(),
            final(self)@ == old(self)@.after_take(),
            r == if old(self)@.queue.len() > 0 {
                Some(old(self)@.queue[0])
            } else {
                None
            },
    {
        let r = self.queue.pop_front();
        proof {
            if old(self)@.queue.len() > 0 {
                assert(self@.queue =~= old(self)@.queue.drop_first());
            }
        }
        r
    }

    /// Starts the close handshake: an open (or still connecting) session
    /// stops taking frames. Closing or closed sessions are left as they are.
    pub fn begin_close(&mut self)
        requires
            old(self).wf(),
        ensures
            final(self).wf(),
            final(self)@ == old(self)@.closing(),
    {
        if self.state == SessionState::Open || self.state == SessionState::Connecting {
            self.state = SessionState::Closing;
        }
    }

    /// Terminal transition, from any state.
    pub fn mark_closed(&mut self)
        requires
            old(self).wf(),
        ensures
            final(self).wf(),
            final(self)@ == old(self)@.with_state(SessionState::Closed),
    {
        self.state = SessionState::Closed;
    }
}

} // verus!
