use chat_gateway::registry::{create_clients, ConnectionRegistry, Outbound, RegisterError};
use chat_gateway::session::{EnqueueError, Session, SessionState};

fn reg_with(sessions: &[(u64, i64)]) -> ConnectionRegistry {
    let mut reg = ConnectionRegistry::new();
    for (sid, owner) in sessions {
        assert_eq!(reg.register(Session::open(*sid, *owner, 100)), Ok(()));
    }
    reg
}

#[test]
fn online_iff_sessions_non_empty() {
    let mut reg = reg_with(&[(1, 10), (2, 20)]);
    for u in [10i64, 20, 30] {
        assert_eq!(reg.is_online(u), !reg.sessions_for(u).is_empty());
    }
    assert!(reg.is_online(10));
    assert!(!reg.is_online(30));
    reg.unregister(10, 1);
    assert_eq!(reg.is_online(10), !reg.sessions_for(10).is_empty());
    assert!(!reg.is_online(10));
}

#[test]
fn two_devices_closing_one_stays_online() {
    let mut reg = reg_with(&[(1, 10), (2, 10)]);
    let mut both = reg.sessions_for(10);
    both.sort();
    assert_eq!(both, vec![1, 2]);
    let closed = reg.unregister(10, 1).expect("registered");
    assert_eq!(closed.state(), SessionState::Closed);
    assert!(reg.is_online(10));
    assert_eq!(reg.sessions_for(10), vec![2]);
}

#[test]
fn closing_last_session_removes_identity() {
    let mut reg = reg_with(&[(1, 10)]);
    assert!(reg.unregister(10, 1).is_some());
    assert!(!reg.is_online(10));
    assert!(reg.sessions_for(10).is_empty());
    assert!(!reg.contains_session(1));
}

#[test]
fn unregister_twice_is_same_as_once() {
    let mut reg = reg_with(&[(1, 10), (2, 10), (3, 20)]);
    assert!(reg.unregister(10, 1).is_some());
    let after_once = (reg.sessions_for(10), reg.sessions_for(20), reg.is_online(10));
    assert!(reg.unregister(10, 1).is_none());
    let after_twice = (reg.sessions_for(10), reg.sessions_for(20), reg.is_online(10));
    assert_eq!(after_once, after_twice);
}

#[test]
fn unregister_with_wrong_owner_is_noop() {
    let mut reg = reg_with(&[(1, 10)]);
    assert!(reg.unregister(20, 1).is_none());
    assert!(reg.contains_session(1));
    assert!(reg.is_online(10));
}

#[test]
fn duplicate_or_closed_session_is_refused() {
    let mut reg = reg_with(&[(1, 10)]);
    assert_eq!(reg.register(Session::open(1, 20, 5)), Err(RegisterError::DuplicateSession));
    assert!(!reg.is_online(20));
    let mut dead = Session::open(2, 20, 5);
    dead.mark_closed();
    assert_eq!(reg.register(dead), Err(RegisterError::SessionClosed));
    assert!(!reg.is_online(20));
}

#[test]
fn write_loop_drains_in_order_then_idle_then_gone() {
    let mut reg = reg_with(&[(1, 10)]);
    assert_eq!(reg.offer(1, "a".to_string()), Ok(()));
    assert_eq!(reg.offer(1, "b".to_string()), Ok(()));
    assert!(matches!(reg.take_outbound(1), Outbound::Frame(f) if f == "a"));
    assert!(matches!(reg.take_outbound(1), Outbound::Frame(f) if f == "b"));
    assert!(matches!(reg.take_outbound(1), Outbound::Idle));
    reg.unregister(10, 1);
    assert!(matches!(reg.take_outbound(1), Outbound::Gone));
}

#[test]
fn closing_session_refuses_frames_until_unregistered() {
    let mut reg = reg_with(&[(1, 10)]);
    assert!(reg.begin_close(1));
    assert_eq!(reg.offer(1, "a".to_string()), Err(EnqueueError::Closed));
    assert!(reg.is_online(10));
    assert!(!reg.begin_close(99));
    assert_eq!(reg.offer(99, "a".to_string()), Err(EnqueueError::Closed));
}

#[test]
fn fresh_registry_is_empty() {
    let reg = create_clients();
    assert!(!reg.is_online(1));
    assert!(reg.sessions_for(1).is_empty());
    assert!(!reg.contains_session(1));
}
