use bench_orchestrator::controller::{Action, Controller, Event, Outcome, Stage, FAULT_MESSAGE};

fn replay(n: usize, events: Vec<Event>) -> (Controller, Vec<Action>) {
    let mut c = Controller::new(n);
    let mut actions = Vec::new();
    for e in events {
        actions.push(c.step(e));
    }
    (c, actions)
}

fn started() -> Event {
    Event::Started { has_commit_message: true }
}

fn failed(message: &str) -> Event {
    Event::ExecutionFailed { message: message.to_string() }
}

#[test]
fn all_workloads_succeed_in_order() {
    let events = vec![
        started(),
        Event::Created,
        Event::Loaded,
        Event::Executed,
        Event::Loaded,
        Event::Executed,
        Event::Loaded,
        Event::Executed,
    ];
    let (c, actions) = replay(3, events);
    assert_eq!(
        actions,
        vec![
            Action::CreateInvocation { max_workloads: 3 },
            Action::LoadWorkload { index: 0 },
            Action::ExecuteWorkload { index: 0 },
            Action::LoadWorkload { index: 1 },
            Action::ExecuteWorkload { index: 1 },
            Action::LoadWorkload { index: 2 },
            Action::ExecuteWorkload { index: 2 },
            Action::Finish { outcome: Outcome::Success },
        ]
    );
    assert_eq!(c.outcome(), Some(Outcome::Success));
}

#[test]
fn no_workloads_succeeds_after_creation() {
    let (c, actions) = replay(0, vec![started(), Event::Created]);
    assert_eq!(
        actions,
        vec![
            Action::CreateInvocation { max_workloads: 0 },
            Action::Finish { outcome: Outcome::Success },
        ]
    );
    assert_eq!(c.outcome(), Some(Outcome::Success));
}

#[test]
fn execution_failure_stops_the_sequence() {
    let events = vec![
        started(),
        Event::Created,
        Event::Loaded,
        Event::Executed,
        Event::Loaded,
        failed("search request timed out"),
        Event::Executed,
        Event::Loaded,
        Event::Reported,
    ];
    let (c, actions) = replay(4, events);
    assert_eq!(
        actions[5],
        Action::MarkFailed { message: "search request timed out".to_string() }
    );
    assert_eq!(actions[6], Action::Wait);
    assert_eq!(actions[7], Action::Wait);
    assert_eq!(actions[8], Action::Finish { outcome: Outcome::Failure });
    let marks = actions.iter().filter(|a| matches!(a, Action::MarkFailed { .. })).count();
    assert_eq!(marks, 1);
    assert!(!actions.iter().any(|a| matches!(a, Action::LoadWorkload { index } if *index >= 2)));
    assert!(!Outcome::Failure.exits_cleanly());
    assert_eq!(c.outcome(), Some(Outcome::Failure));
}

#[test]
fn missing_second_workload_file() {
    let events = vec![
        started(),
        Event::Created,
        Event::Loaded,
        Event::Executed,
        Event::LoadFailed { message: "error opening workloads/second.json".to_string() },
        Event::Reported,
    ];
    let (c, actions) = replay(3, events);
    assert_eq!(
        actions,
        vec![
            Action::CreateInvocation { max_workloads: 3 },
            Action::LoadWorkload { index: 0 },
            Action::ExecuteWorkload { index: 0 },
            Action::LoadWorkload { index: 1 },
            Action::MarkFailed { message: "error opening workloads/second.json".to_string() },
            Action::Finish { outcome: Outcome::Failure },
        ]
    );
    assert_eq!(c.outcome(), Some(Outcome::Failure));
    assert!(!c.outcome().unwrap().exits_cleanly());
}

#[test]
fn interrupt_during_first_workload() {
    let events = vec![
        started(),
        Event::Created,
        Event::Loaded,
        Event::Interrupted,
        Event::Executed,
        Event::Interrupted,
        Event::Reported,
    ];
    let (c, actions) = replay(2, events);
    assert_eq!(
        actions,
        vec![
            Action::CreateInvocation { max_workloads: 2 },
            Action::LoadWorkload { index: 0 },
            Action::ExecuteWorkload { index: 0 },
            Action::CancelInvocation,
            Action::Wait,
            Action::Wait,
            Action::Finish { outcome: Outcome::Cancelled },
        ]
    );
    assert!(c.outcome().unwrap().exits_cleanly());
}

#[test]
fn interrupt_while_in_flight_call_fails() {
    let events = vec![
        started(),
        Event::Created,
        Event::Loaded,
        Event::Interrupted,
        failed("connection reset"),
        Event::Reported,
    ];
    let (c, actions) = replay(2, events);
    assert_eq!(actions[3], Action::CancelInvocation);
    assert_eq!(actions[4], Action::Wait);
    assert_eq!(actions[5], Action::Finish { outcome: Outcome::Cancelled });
    assert!(!actions.iter().any(|a| matches!(a, Action::MarkFailed { .. })));
    assert!(!actions.iter().any(|a| matches!(a, Action::LoadWorkload { index: 1 })));
    assert_eq!(c.outcome(), Some(Outcome::Cancelled));
}

#[test]
fn interrupt_while_loading_first_workload() {
    let (_, actions) = replay(1, vec![started(), Event::Created, Event::Interrupted]);
    assert_eq!(actions[2], Action::CancelInvocation);
}

#[test]
fn fault_is_reported_with_fixed_message() {
    let events = vec![
        started(),
        Event::Created,
        Event::Loaded,
        Event::Faulted,
        Event::Reported,
    ];
    let (c, actions) = replay(2, events);
    assert_eq!(actions[3], Action::MarkFailed { message: "Panicked".to_string() });
    assert_eq!(FAULT_MESSAGE, "Panicked");
    assert_eq!(actions[4], Action::Finish { outcome: Outcome::Panic });
    assert_eq!(c.outcome(), Some(Outcome::Panic));
    assert!(!Outcome::Panic.exits_cleanly());
}

#[test]
fn creation_failure_runs_no_workload() {
    let events = vec![started(), Event::CreationFailed, Event::Loaded, Event::Executed];
    let (c, actions) = replay(3, events);
    assert_eq!(
        actions,
        vec![
            Action::CreateInvocation { max_workloads: 3 },
            Action::Finish { outcome: Outcome::Fatal },
            Action::Wait,
            Action::Wait,
        ]
    );
    assert_eq!(c.outcome(), Some(Outcome::Fatal));
    assert!(!Outcome::Fatal.exits_cleanly());
}

#[test]
fn missing_commit_message_is_fatal() {
    let (c, actions) = replay(2, vec![Event::Started { has_commit_message: false }]);
    assert_eq!(actions, vec![Action::Finish { outcome: Outcome::Fatal }]);
    assert_eq!(c.outcome(), Some(Outcome::Fatal));
}

#[test]
fn unexpected_events_are_ignored() {
    let mut c = Controller::new(2);
    assert_eq!(c.step(Event::Loaded), Action::Wait);
    assert_eq!(c.stage, Stage::Starting);
    assert_eq!(c.outcome(), None);
    c.step(started());
    assert_eq!(c.step(Event::Reported), Action::Wait);
    assert_eq!(c.stage, Stage::Creating);
}

#[test]
fn clean_exits() {
    assert!(Outcome::Success.exits_cleanly());
    assert!(Outcome::Cancelled.exits_cleanly());
}

#[test]
fn interrupt_during_failure_report_is_cancelled_afterwards() {
    let events = vec![
        started(),
        Event::Created,
        Event::Loaded,
        failed("bad response"),
        Event::Interrupted,
        Event::Interrupted,
        Event::Reported,
        Event::Reported,
    ];
    let (c, actions) = replay(2, events);
    assert_eq!(actions[3], Action::MarkFailed { message: "bad response".to_string() });
    assert_eq!(actions[4], Action::Wait);
    assert_eq!(actions[5], Action::Wait);
    assert_eq!(actions[6], Action::CancelInvocation);
    assert_eq!(actions[7], Action::Finish { outcome: Outcome::Failure });
    assert_eq!(c.outcome(), Some(Outcome::Failure));
}
