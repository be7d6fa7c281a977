use vstd::prelude::*;

verus! {

/// Body of a new-account request.
pub struct RegisterRequest {
    pub username: String,
    pub email: String,
    pub password: String,
}

/// Body of a sign-in request.
pub struct LoginRequest {
    pub email: String,
    pub password: String,
}

/// What a bearer token asserts: the identity (`sub`) and the expiry time
/// in seconds since the epoch (`exp`).
#[derive(Clone, Copy, Debug, PartialEq, Eq, Structural)]
pub struct Claims {
    pub sub: i64,
    pub exp: usize,
}

/// Body of a create-group request.
pub struct CreateGroupRequest {
    pub name: String,
    pub description: Option<String>,
}

/// Body of a join-group request.
#[derive(Clone, Copy, Debug, PartialEq, Eq, Structural)]
pub struct JoinGroupRequest {
    pub group_id: i64,
}

/// Body of a store-message request.
pub struct SendMessageRequest {
    pub receiver_id: Option<i64>,
    pub group_id: Option<i64>,
    pub content: String,
    pub message_type: String,
}

impl SendMessageRequest {
    /// A message must name a receiver or a group.
    pub fn has_target(&self) -> (r: bool)
        ensures
            r == (self.receiver_id is Some || self.group_id is Some),
    {
        self.receiver_id.is_some() || self.group_id.is_some()
    }
}

} // verus!
