use geyserfeed::backoff::BackoffState;
use geyserfeed::message::InboundMessage;
use geyserfeed::message::SlotStatus;
use geyserfeed::message::StreamItem;
use geyserfeed::record::Record;
use geyserfeed::request::subscription_request;
use geyserfeed::request::Commitment;
use geyserfeed::session::SessionEvent;
use geyserfeed::session::SessionFailure;
use geyserfeed::supervisor::run_supervisor;
use geyserfeed::supervisor::ConnectOutcome;
use geyserfeed::supervisor::SupervisorEvent;

#[test]
fn backoff_starts_at_initial_delay() {
    let b = BackoffState::new(250, 3, 10_000);
    assert_eq!(b.delay_ms(), 250);
    let d = BackoffState::default_schedule();
    assert_eq!(d.delay_ms(), 500);
    assert_eq!(d.cap_ms, 60_000);
}

#[test]
fn backoff_grows_exponentially_and_saturates() {
    let mut b = BackoffState::new(500, 2, 3_000);
    let mut delays: Vec<u64> = Vec::new();
    for _ in 0..5 {
        delays.push(b.delay_ms());
        b.advance();
    }
    assert_eq!(delays, vec![500, 1000, 2000, 3000, 3000]);
}

#[test]
fn backoff_reset_returns_to_initial() {
    let mut b = BackoffState::new(500, 2, 60_000);
    b.advance();
    b.advance();
    assert_eq!(b.delay_ms(), 2000);
    b.reset();
    assert_eq!(b.delay_ms(), 500);
    assert_eq!(b.cap_ms, 60_000);
}

#[test]
fn subscription_request_names_slot_category() {
    let r = subscription_request();
    assert_eq!(r.label, "client");
    assert!(r.filter_by_commitment);
    assert!(!r.interslot_updates);
    assert_eq!(r.commitment, Commitment::Confirmed);
}

#[test]
fn two_failures_then_success_resets_backoff() {
    // Two failed connects: two failure records, two strictly increasing
    // delays, no reset between them; then a success resets the schedule
    // before its session runs, so the wait after that session's failure is
    // the initial delay again.
    let outcomes = vec![
        ConnectOutcome::Failed("dns failure".to_string()),
        ConnectOutcome::Failed("tls failure".to_string()),
        ConnectOutcome::Connected(vec![]),
    ];
    let mut schedule = BackoffState::default_schedule();
    let events = run_supervisor(&outcomes, &mut schedule);
    let expected_session = geyserfeed::session::run_session(&vec![]);
    assert_eq!(
        events,
        vec![
            SupervisorEvent::Attempting,
            SupervisorEvent::ConnectFailed("dns failure".to_string()),
            SupervisorEvent::SleptMs(500),
            SupervisorEvent::Attempting,
            SupervisorEvent::ConnectFailed("tls failure".to_string()),
            SupervisorEvent::SleptMs(1000),
            SupervisorEvent::Attempting,
            SupervisorEvent::Connected,
            SupervisorEvent::SessionStarted(subscription_request()),
            SupervisorEvent::SessionRan(expected_session),
            SupervisorEvent::SleptMs(500),
        ]
    );
    // The schedule advanced once past the post-success reset.
    assert_eq!(schedule.delay_ms(), 1000);
    assert_eq!(schedule.initial_ms, 500);
}

#[test]
fn session_failure_feeds_next_cycle() {
    // A session that dies on a malformed frame is followed by a new attempt
    // whose session re-sends the full subscription request.
    let outcomes = vec![
        ConnectOutcome::Connected(vec![StreamItem::Update(InboundMessage::Absent)]),
        ConnectOutcome::Connected(vec![StreamItem::Update(InboundMessage::Slot {
            slot: 9,
            parent: Some(8),
            status: SlotStatus::Finalized,
        })]),
    ];
    let mut schedule = BackoffState::default_schedule();
    let events = run_supervisor(&outcomes, &mut schedule);
    let starts: Vec<&SupervisorEvent> = events
        .iter()
        .filter(|e| matches!(e, SupervisorEvent::SessionStarted(_)))
        .collect();
    assert_eq!(starts.len(), 2);
    for s in starts {
        match s {
            SupervisorEvent::SessionStarted(r) => assert_eq!(*r, subscription_request()),
            _ => unreachable!(),
        }
    }
    match &events[3] {
        SupervisorEvent::SessionRan(out) => {
            assert_eq!(out.events, vec![SessionEvent::Logged(Record::MissingPayload)]);
            assert_eq!(out.failure, SessionFailure::MalformedFrame);
        }
        other => panic!("expected a session run, got {:?}", other),
    }
}

#[test]
fn connected_outcome_sleeps_initial_delay() {
    let outcomes = vec![ConnectOutcome::Connected(vec![])];
    let mut schedule = BackoffState::new(700, 2, 9_000);
    schedule.advance();
    schedule.advance();
    assert_eq!(schedule.delay_ms(), 2800);
    let events = run_supervisor(&outcomes, &mut schedule);
    match events.last() {
        Some(SupervisorEvent::SleptMs(d)) => assert_eq!(*d, 700),
        other => panic!("expected a sleep event, got {:?}", other),
    }
    assert_eq!(schedule.delay_ms(), 1400);
}
