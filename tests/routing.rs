use chat_gateway::event::{Event, EventKind, Target};
use chat_gateway::registry::{ConnectionRegistry, Outbound};
use chat_gateway::router::{deliver, EchoPolicy, ResolverError, Router};
use chat_gateway::session::Session;

const A: i64 = 1;
const B: i64 = 2;
const C: i64 = 3;

fn reg_with(sessions: &[(u64, i64, usize)]) -> ConnectionRegistry {
    let mut reg = ConnectionRegistry::new();
    for (sid, owner, cap) in sessions {
        assert_eq!(reg.register(Session::open(*sid, *owner, *cap)), Ok(()));
    }
    reg
}

fn frames(reg: &mut ConnectionRegistry, sid: u64) -> Vec<String> {
    let mut out = Vec::new();
    while let Outbound::Frame(f) = reg.take_outbound(sid) {
        out.push(f);
    }
    out
}

fn no_members() -> Result<Vec<i64>, ResolverError> {
    Ok(Vec::new())
}

#[test]
fn direct_message_reaches_both_sessions_of_receiver() {
    // A has session 10; B has sessions 20 and 21; C is offline.
    let mut reg = reg_with(&[(10, A, 100), (20, B, 100), (21, B, 100)]);
    let frame = r#"{"event_type":"message","user_id":1,"receiver_id":2,"content":"hi"}"#.to_string();
    let event = Event { kind: EventKind::Message, sender: A, target: Target::Direct(B) };
    let report = Router::new().route(&mut reg, &event, 10, &no_members(), &frame);
    assert_eq!(report.delivered_count(), 2);
    assert_eq!(report.offline_count(), 0);
    assert_eq!(report.full_count(), 0);
    assert!(!report.resolver_failed);
    assert_eq!(frames(&mut reg, 20), vec![frame.clone()]);
    assert_eq!(frames(&mut reg, 21), vec![frame.clone()]);
    assert!(frames(&mut reg, 10).is_empty());
    assert!(!reg.is_online(C));
}

#[test]
fn direct_to_offline_user_is_reported_unreachable() {
    let mut reg = reg_with(&[(10, A, 100)]);
    let event = Event { kind: EventKind::Message, sender: A, target: Target::Direct(C) };
    let report = Router::new().route(&mut reg, &event, 10, &no_members(), &"x".to_string());
    assert_eq!(report.offline, vec![C]);
    assert!(report.delivered.is_empty());
    assert!(report.full.is_empty());
    assert!(report.closed.is_empty());
    assert!(!report.resolver_failed);
    assert!(frames(&mut reg, 10).is_empty());
}

#[test]
fn group_event_goes_to_resolved_members_only() {
    // B (20) and C (30) are members; D = 4 (40) is online but not a member.
    let mut reg = reg_with(&[(10, A, 100), (20, B, 100), (30, C, 100), (40, 4, 100)]);
    let event = Event { kind: EventKind::Message, sender: A, target: Target::Group(7) };
    let members = Ok(vec![A, B, C, 5]);
    let report = Router::new().route(&mut reg, &event, 10, &members, &"g".to_string());
    let mut delivered = report.delivered.clone();
    delivered.sort();
    assert_eq!(delivered, vec![20, 30]);
    assert_eq!(report.offline, vec![5]);
    assert!(frames(&mut reg, 40).is_empty());
    assert!(frames(&mut reg, 10).is_empty());
}

#[test]
fn group_membership_snapshot_is_used_as_given() {
    let mut reg = reg_with(&[(20, B, 100), (30, C, 100)]);
    let event = Event { kind: EventKind::Message, sender: A, target: Target::Group(7) };
    let snapshot = Ok(vec![B]);
    let report = Router::new().route(&mut reg, &event, 99, &snapshot, &"g".to_string());
    // C joining after resolution does not change this delivery.
    assert_eq!(report.delivered, vec![20]);
    assert!(frames(&mut reg, 30).is_empty());
}

#[test]
fn message_echoes_to_senders_other_devices() {
    let mut reg = reg_with(&[(10, A, 100), (11, A, 100), (20, B, 100)]);
    let event = Event { kind: EventKind::Message, sender: A, target: Target::Group(7) };
    let report = Router::new().route(&mut reg, &event, 10, &Ok(vec![A, B]), &"m".to_string());
    let mut delivered = report.delivered.clone();
    delivered.sort();
    assert_eq!(delivered, vec![11, 20]);
}

#[test]
fn typing_is_not_echoed_to_sender() {
    let mut reg = reg_with(&[(10, A, 100), (11, A, 100), (20, B, 100)]);
    let event = Event { kind: EventKind::Typing, sender: A, target: Target::Group(7) };
    let report = Router::new().route(&mut reg, &event, 10, &Ok(vec![A, B]), &"t".to_string());
    assert_eq!(report.delivered, vec![20]);
    assert!(frames(&mut reg, 11).is_empty());
}

#[test]
fn echo_policy_is_configurable() {
    let policy = EchoPolicy { message: false, typing: true, presence: false };
    let router = Router::with_policy(policy);
    assert_eq!(router.policy, policy);
    let mut reg = reg_with(&[(10, A, 100), (11, A, 100)]);
    let typing = Event { kind: EventKind::Typing, sender: A, target: Target::Group(7) };
    assert_eq!(router.route(&mut reg, &typing, 10, &Ok(vec![A]), &"t".to_string()).delivered, vec![11]);
    let message = Event { kind: EventKind::Message, sender: A, target: Target::Group(7) };
    assert!(router.route(&mut reg, &message, 10, &Ok(vec![A]), &"m".to_string()).delivered.is_empty());
}

#[test]
fn resolver_failure_delivers_to_nobody() {
    let mut reg = reg_with(&[(20, B, 100)]);
    let event = Event { kind: EventKind::Message, sender: A, target: Target::Group(7) };
    let report = Router::new().route(&mut reg, &event, 10, &Err(ResolverError::Unavailable), &"g".to_string());
    assert!(report.resolver_failed);
    assert!(report.delivered.is_empty() && report.offline.is_empty());
    assert!(frames(&mut reg, 20).is_empty());
}

#[test]
fn full_queue_is_reported_and_others_still_get_it() {
    let mut reg = reg_with(&[(20, B, 1), (21, B, 100)]);
    assert_eq!(reg.offer(20, "old".to_string()), Ok(()));
    let event = Event { kind: EventKind::Message, sender: A, target: Target::Direct(B) };
    let report = Router::new().route(&mut reg, &event, 10, &no_members(), &"new".to_string());
    assert_eq!(report.full, vec![20]);
    assert_eq!(report.delivered, vec![21]);
    assert_eq!(frames(&mut reg, 20), vec!["old".to_string()]);
    assert!(reg.contains_session(20));
}

#[test]
fn closing_session_is_reported_closed() {
    let mut reg = reg_with(&[(20, B, 100)]);
    assert!(reg.begin_close(20));
    let event = Event { kind: EventKind::Message, sender: A, target: Target::Direct(B) };
    let report = Router::new().route(&mut reg, &event, 10, &no_members(), &"x".to_string());
    assert_eq!(report.closed, vec![20]);
    assert!(report.delivered.is_empty());
}

#[test]
fn duplicate_members_get_one_copy() {
    let mut reg = reg_with(&[(20, B, 100)]);
    let event = Event { kind: EventKind::Message, sender: A, target: Target::Group(7) };
    let report = Router::new().route(&mut reg, &event, 10, &Ok(vec![B, B, B]), &"x".to_string());
    assert_eq!(report.delivered, vec![20]);
    assert_eq!(frames(&mut reg, 20).len(), 1);
}

#[test]
fn targets_are_deduplicated_and_exclude_unechoed_sender() {
    let router = Router::new();
    let typing = Event { kind: EventKind::Typing, sender: A, target: Target::Group(7) };
    assert_eq!(router.targets(&typing, &vec![B, A, B, C]), vec![B, C]);
    let message = Event { kind: EventKind::Message, sender: A, target: Target::Group(7) };
    assert_eq!(router.targets(&message, &vec![B, A, B]), vec![B, A]);
    let direct = Event { kind: EventKind::Message, sender: A, target: Target::Direct(C) };
    assert_eq!(router.targets(&direct, &vec![B]), vec![C]);
}

#[test]
fn deliver_skips_origin_session() {
    let mut reg = reg_with(&[(10, A, 100), (11, A, 100)]);
    let report = deliver(&mut reg, &vec![A], 11, &"x".to_string());
    assert_eq!(report.delivered, vec![10]);
    assert!(frames(&mut reg, 11).is_empty());
}

#[test]
fn standard_policy_echoes_messages_only() {
    let p = EchoPolicy::standard();
    assert!(p.echoes_kind(EventKind::Message));
    assert!(!p.echoes_kind(EventKind::Typing));
    assert!(!p.echoes_kind(EventKind::Online));
    assert!(!p.echoes_kind(EventKind::Offline));
}
