use chat_gateway::session::{EnqueueError, Session, SessionState, DEFAULT_QUEUE_CAPACITY};

#[test]
fn overflow_on_101st_enqueue_keeps_first_100_in_order() {
    let mut s = Session::open(1, 7, 100);
    for k in 0..100 {
        assert_eq!(s.enqueue(format!("frame-{}", k)), Ok(()));
    }
    assert_eq!(s.enqueue("frame-100".to_string()), Err(EnqueueError::Full));
    assert!(s.is_live());
    assert_eq!(s.state(), SessionState::Open);
    assert_eq!(s.pending(), 100);
    for k in 0..100 {
        assert_eq!(s.next_outbound(), Some(format!("frame-{}", k)));
    }
    assert_eq!(s.next_outbound(), None);
}

#[test]
fn default_capacity_is_one_hundred() {
    assert_eq!(DEFAULT_QUEUE_CAPACITY, 100);
    let s = Session::open(2, 3, DEFAULT_QUEUE_CAPACITY);
    assert_eq!(s.capacity(), 100);
    assert_eq!(s.id(), 2);
    assert_eq!(s.owner(), 3);
}

#[test]
fn full_queue_takes_again_after_draining_one() {
    let mut s = Session::open(1, 1, 2);
    assert_eq!(s.enqueue("a".to_string()), Ok(()));
    assert_eq!(s.enqueue("b".to_string()), Ok(()));
    assert_eq!(s.enqueue("c".to_string()), Err(EnqueueError::Full));
    assert_eq!(s.next_outbound(), Some("a".to_string()));
    assert_eq!(s.enqueue("d".to_string()), Ok(()));
    assert_eq!(s.next_outbound(), Some("b".to_string()));
    assert_eq!(s.next_outbound(), Some("d".to_string()));
}

#[test]
fn zero_capacity_queue_is_always_full() {
    let mut s = Session::open(1, 1, 0);
    assert_eq!(s.enqueue("a".to_string()), Err(EnqueueError::Full));
    assert_eq!(s.pending(), 0);
}

#[test]
fn lifecycle_connecting_open_closing_closed() {
    let mut s = Session::new(5, 9, 10);
    assert_eq!(s.state(), SessionState::Connecting);
    assert!(!s.is_live());
    assert_eq!(s.enqueue("early".to_string()), Err(EnqueueError::Closed));
    s.establish();
    assert_eq!(s.state(), SessionState::Open);
    assert_eq!(s.enqueue("x".to_string()), Ok(()));
    s.begin_close();
    assert_eq!(s.state(), SessionState::Closing);
    assert_eq!(s.enqueue("late".to_string()), Err(EnqueueError::Closed));
    assert_eq!(s.next_outbound(), Some("x".to_string()));
    s.mark_closed();
    assert_eq!(s.state(), SessionState::Closed);
    s.establish();
    assert_eq!(s.state(), SessionState::Closed);
    s.begin_close();
    assert_eq!(s.state(), SessionState::Closed);
}
