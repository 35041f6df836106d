use twitchalerts::client::StreamData;
use twitchalerts::engine::{
    decide_check, resolve_new_live, run_cycle_actions, Act, CheckDecision, Event, FetchOutcome,
};
use twitchalerts::error::{FailureKind, TaskFlags, TransportFlags};
use twitchalerts::suppression::SuppressionWindow;
use twitchalerts::watchlist::WatchEntry;

fn entry(name: &str, last: i64) -> WatchEntry {
    WatchEntry {
        identifier: name.to_string(),
        alerts_enabled: true,
        last_live_started_at: last,
    }
}

fn live(name: &str, started_at: i64) -> StreamData {
    StreamData {
        id: "9001".to_string(),
        user_id: "1".to_string(),
        user_login: name.to_string(),
        user_name: name.to_string(),
        game_id: "2".to_string(),
        game_name: "A Game".to_string(),
        stream_type: "live".to_string(),
        title: "A Title".to_string(),
        viewer_count: 7,
        started_at,
        language: "en".to_string(),
        thumbnail_url: "https://example.invalid/thumb.jpg".to_string(),
        tags_ids: None,
        tags: Some(vec!["tag".to_string()]),
        is_mature: false,
    }
}

fn timeout_flags() -> TransportFlags {
    TransportFlags {
        timeout: true,
        connect: false,
        status: false,
        redirect: false,
        request: false,
        body: false,
        builder: false,
    }
}

#[test]
fn offline_is_silent() {
    let d = decide_check(&entry("alice", 10), FetchOutcome::Offline);
    assert!(matches!(d, CheckDecision::Silent));
}

#[test]
fn unchanged_session_start_is_silent() {
    let d = decide_check(&entry("alice", 10), FetchOutcome::Live(live("alice", 10)));
    assert!(matches!(d, CheckDecision::Silent));
}

#[test]
fn changed_session_start_is_a_new_live_session() {
    let d = decide_check(&entry("alice", 10), FetchOutcome::Live(live("alice", 11)));
    match d {
        CheckDecision::NewLive { status } => assert_eq!(status.started_at, 11),
        _ => panic!("expected a new live session"),
    }
}

#[test]
fn transport_failure_is_reported_classified() {
    let d = decide_check(&entry("alice", 10), FetchOutcome::Transport(timeout_flags()));
    match d {
        CheckDecision::Report { failure } => {
            assert_eq!(failure.kind, FailureKind::Timeout);
            assert_eq!(failure.code, 1);
        },
        _ => panic!("expected a reported failure"),
    }
}

#[test]
fn task_failure_is_reported_classified() {
    let d = decide_check(
        &entry("alice", 10),
        FetchOutcome::Task(TaskFlags { cancelled: false, panicked: true }),
    );
    match d {
        CheckDecision::Report { failure } => {
            assert_eq!(failure.kind, FailureKind::TaskFailure);
            assert_eq!(failure.code, 10);
        },
        _ => panic!("expected a reported failure"),
    }
}

#[test]
fn successful_write_back_resolves_to_the_live_notification() {
    let ev = resolve_new_live("alice".to_string(), live("alice", 11), true);
    match ev {
        Event::WentLive { identifier, status } => {
            assert_eq!(identifier, "alice");
            assert_eq!(status.started_at, 11);
        },
        _ => panic!("expected the live notification"),
    }
}

#[test]
fn failed_write_back_resolves_to_a_persistence_failure() {
    let ev = resolve_new_live("alice".to_string(), live("alice", 11), false);
    match ev {
        Event::Failed { failure } => {
            assert_eq!(failure.kind, FailureKind::PersistenceFailure);
            assert_eq!(failure.code, 12);
        },
        _ => panic!("expected a persistence failure"),
    }
}

#[test]
fn cycle_skips_suppressed_entities() {
    let entries = vec![entry("alice", 0), entry("bob", 0)];
    let mut window = SuppressionWindow::new(30_000);
    // Alice produced an outcome 10 s ago; Bob has no mark.
    window.mark(&"alice".to_string(), 0);
    let outcomes = vec![FetchOutcome::Offline, FetchOutcome::Offline];
    let oks = vec![true, true];
    let trace = run_cycle_actions(&entries, &mut window, 10_000, outcomes, &oks);
    // Only Bob is checked: his request and the pacing pause.
    assert_eq!(trace.len(), 2);
    assert!(matches!(&trace[0], Act::Request { identifier } if identifier == "bob"));
    assert!(matches!(&trace[1], Act::Pause { millis: 80 }));
    // Nothing in the trace names the suppressed entity.
    for act in &trace {
        match act {
            Act::Request { identifier } => assert_ne!(identifier, "alice"),
            Act::Write { identifier, .. } => assert_ne!(identifier, "alice"),
            Act::Dispatch { identifier, .. } => assert_ne!(identifier, "alice"),
            Act::Pause { .. } => {},
        }
    }
}

#[test]
fn new_live_session_writes_back_before_dispatching() {
    let entries = vec![entry("alice", 100)];
    let mut window = SuppressionWindow::new(30_000);
    let outcomes = vec![FetchOutcome::Live(live("alice", 200))];
    let oks = vec![true];
    let trace = run_cycle_actions(&entries, &mut window, 0, outcomes, &oks);
    assert_eq!(trace.len(), 4);
    assert!(matches!(&trace[0], Act::Request { identifier } if identifier == "alice"));
    assert!(
        matches!(&trace[1], Act::Write { identifier, started_at: 200 } if identifier == "alice")
    );
    match &trace[2] {
        Act::Dispatch { identifier, event } => {
            assert_eq!(identifier, "alice");
            assert!(matches!(event, Event::WentLive { .. }));
        },
        _ => panic!("expected a dispatch after the write-back"),
    }
    assert!(matches!(&trace[3], Act::Pause { millis: 80 }));
}

#[test]
fn failed_write_back_dispatches_a_failure_and_no_notification() {
    let entries = vec![entry("alice", 100)];
    let mut window = SuppressionWindow::new(30_000);
    let outcomes = vec![FetchOutcome::Live(live("alice", 200))];
    let oks = vec![false];
    let trace = run_cycle_actions(&entries, &mut window, 0, outcomes, &oks);
    assert_eq!(trace.len(), 4);
    assert!(matches!(&trace[1], Act::Write { .. }));
    match &trace[2] {
        Act::Dispatch { event, .. } => match event {
            Event::Failed { failure } => {
                assert_eq!(failure.kind, FailureKind::PersistenceFailure);
                assert_eq!(failure.code, 12);
            },
            Event::WentLive { .. } => panic!("no notification may follow a failed write-back"),
        },
        _ => panic!("expected a dispatched failure"),
    }
    for act in &trace {
        if let Act::Dispatch { event: Event::WentLive { .. }, .. } = act {
            panic!("no notification may follow a failed write-back");
        }
    }
}

#[test]
fn every_request_pays_the_pacing_pause() {
    let entries = vec![entry("alice", 0), entry("bob", 0), entry("carol", 5)];
    let mut window = SuppressionWindow::new(30_000);
    window.mark(&"bob".to_string(), 0);
    let outcomes = vec![
        FetchOutcome::Live(live("alice", 9)),
        FetchOutcome::Offline,
        FetchOutcome::Transport(timeout_flags()),
    ];
    let oks = vec![true, true, true];
    let trace = run_cycle_actions(&entries, &mut window, 1_000, outcomes, &oks);
    let requests = trace.iter().filter(|a| matches!(a, Act::Request { .. })).count();
    let pauses: Vec<u64> = trace
        .iter()
        .filter_map(|a| match a {
            Act::Pause { millis } => Some(*millis),
            _ => None,
        })
        .collect();
    assert_eq!(requests, 2);
    assert_eq!(pauses.len(), requests);
    assert!(pauses.iter().all(|&p| p >= 80));
    let total: u64 = pauses.iter().sum();
    assert_eq!(total, requests as u64 * 80);
}

#[test]
fn cycle_marks_checked_entities_as_recent() {
    let entries = vec![entry("alice", 0)];
    let mut window = SuppressionWindow::new(30_000);
    let trace = run_cycle_actions(&entries, &mut window, 5_000, vec![FetchOutcome::Offline], &vec![
        true,
    ]);
    assert_eq!(trace.len(), 2);
    // A second cycle moments later skips the entity entirely.
    let trace = run_cycle_actions(&entries, &mut window, 6_000, vec![FetchOutcome::Offline], &vec![
        true,
    ]);
    assert!(trace.is_empty());
}
