use vstd::prelude::*;
use vstd::string::*;

verus! {

/// Relies on serde_json::Value as an opaque JSON value: a frame's `data`
/// is carried through unread.
#[verifier::external_type_specification]
#[verifier::external_body]
pub struct ExJsonValue(serde_json::Value);

/// One inbound or outbound frame as it stands on the wire, once the JSON
/// text has been parsed.
pub struct WsEvent {
    /// `"message"`, `"typing"`, `"online"` or `"offline"`.
    pub event_type: String,
    pub user_id: i64,
    pub receiver_id: Option<i64>,
    pub group_id: Option<i64>,
    pub content: Option<String>,
    pub data: Option<serde_json::Value>,
}

#[derive(Clone, Copy, Debug, PartialEq, Eq, Structural)]
pub enum EventKind {
    Message,
    Typing,
    Online,
    Offline,
}

/// Where an event goes: one identity, or the members of one group.
#[derive(Clone, Copy, Debug, PartialEq, Eq, Structural)]
pub enum Target {
    Direct(i64),
    Group(i64),
}

/// A validated event: exactly one target, by construction.
#[derive(Clone, Copy, Debug, PartialEq, Eq, Structural)]
pub struct Event {
    pub kind: EventKind,
    pub sender: i64,
    pub target: Target,
}

/// Why a parsed frame is not a valid event.
#[derive(Clone, Copy, Debug, PartialEq, Eq, Structural)]
pub enum DecodeError {
    UnknownEventType,
    /// Neither `receiver_id` nor `group_id` is set.
    MissingTarget,
    /// Both `receiver_id` and `group_id` are set.
    AmbiguousTarget,
}

/// The kind that a wire `event_type` names.
pub open spec fn kind_named(name: Seq<char>) -> Option<EventKind> {
    if name == "message"@ {
        Some(EventKind::Message)
    } else if name == "typing"@ {
        Some(EventKind::Typing)
    } else if name == "online"@ {
        Some(EventKind::Online)
    } else if name == "offline"@ {
        Some(EventKind::Offline)
    } else {
        None
    }
}

impl WsEvent {
    /// The event that this frame stands for, or why it stands for none.
    pub open spec fn decoded(&self) -> Result<Event, DecodeError> {
        match kind_named(self.event_type@) {
            None => Err(DecodeError::UnknownEventType),
            Some(kind) => match (self.receiver_id, self.group_id) {
                (Some(r), None) => Ok(Event { kind, sender: self.user_id, target: Target::Direct(r) }),
                (None, Some(g)) => Ok(Event { kind, sender: self.user_id, target: Target::Group(g) }),
                (None, None) => Err(DecodeError::MissingTarget),
                (Some(_), Some(_)) => Err(DecodeError::AmbiguousTarget),
            },
        }
    }

    /// Validates the frame into an event: a known `event_type` and exactly
    /// one of `receiver_id` / `group_id`.
    pub fn decode(&self) -> (r: Result<Event, DecodeError>)
        ensures
            r == self.decoded(),
    {
        let kind = match event_kind(self.event_type.as_str()) {
            Some(k) => k,
            None => return Err(DecodeError::UnknownEventType),
        };
        match (self.receiver_id, self.group_id) {
            (Some(r), None) => Ok(Event { kind, sender: self.user_id, target: Target::Direct(r) }),
            (None, Some(g)) => Ok(Event { kind, sender: self.user_id, target: Target::Group(g) }),
            (None, None) => Err(DecodeError::MissingTarget),
            (Some(_), Some(_)) => Err(DecodeError::AmbiguousTarget),
        }
    }
}

/// Character-wise equality of two strings.
fn same_text(a: &str, b: &str) -> (r: bool)
    ensures
        r == (a@ == b@),
{
    let n = a.unicode_len();
    if n != b.unicode_len() {
        return false;
    }
    let mut i: usize = 0;
    while i < n
        invariant
            n == a@.len(),
            n == b@.len(),
            i <= n,
            forall|j: int| 0 <= j < i ==> a@[j] == b@[j],
        decreases n - i,
    {
        if a.get_char(i) != b.get_char(i) {
            return false;
        }
        i += 1;
    }
    assert(a@ =~= b@);
    true
}

/// The kind that a wire `event_type` names, if any.
pub fn event_kind(name: &str) -> (r: Option<EventKind>)
    ensures
        r == kind_named(name@),
{
    if same_text(name, "message") {
        Some(EventKind::Message)
    } else if same_text(name, "typing") {
        Some(EventKind::Typing)
    } else if same_text(name, "online") {
        Some(EventKind::Online)
    } else if same_text(name, "offline") {
        Some(EventKind::Offline)
    } else {
        None
    }
}

/// What the read loop of a session got from its transport.
pub enum Inbound {
    /// A text frame whose JSON parsed into a wire event.
    Frame(WsEvent),
    /// A frame that is not text, or whose JSON did not parse.
    Undecodable,
    /// The transport closed or failed.
    Ended,
}

/// What the read loop does next.
pub enum ReadStep {
    /// Route this event.
    Dispatch(Event),
    /// Drop the frame and keep reading: malformed input is not fatal.
    Discard,
    /// Stop reading; the session is to be closed and unregistered.
    Stop,
}

/// The read loop's decision for one input.
pub fn read_step(input: &Inbound) -> (r: ReadStep)
    ensures
        r == match input {
            Inbound::Frame(w) => match w.decoded() {
                Ok(e) => ReadStep::Dispatch(e),
                Err(_) => ReadStep::Discard,
            },
            Inbound::Undecodable => ReadStep::Discard,
            Inbound::Ended => ReadStep::Stop,
        },
{
    match input {
        Inbound::Frame(w) => match w.decode() {
            Ok(e) => ReadStep::Dispatch(e),
            Err(_) => ReadStep::Discard,
        },
        Inbound::Undecodable => ReadStep::Discard,
        Inbound::Ended => ReadStep::Stop,
    }
}

} // verus!
