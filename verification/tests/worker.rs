use wadingpool::worker::{WorkerEvent, WorkerState};

const STATES: [WorkerState; 6] = [
    WorkerState::Starting,
    WorkerState::Idle,
    WorkerState::Running,
    WorkerState::Draining,
    WorkerState::Exited,
    WorkerState::Aborted,
];

const EVENTS: [WorkerEvent; 6] = [
    WorkerEvent::Started,
    WorkerEvent::TaskReceived,
    WorkerEvent::TaskCompleted,
    WorkerEvent::TaskAborted,
    WorkerEvent::QueueClosed,
    WorkerEvent::Stopped,
];

#[test]
fn worker_walks_through_its_life_cycle() {
    let state = WorkerState::Starting;
    let state = state.on(WorkerEvent::Started).unwrap();
    assert_eq!(state, WorkerState::Idle);
    let state = state.on(WorkerEvent::TaskReceived).unwrap();
    assert_eq!(state, WorkerState::Running);
    let state = state.on(WorkerEvent::TaskCompleted).unwrap();
    assert_eq!(state, WorkerState::Idle);
    let state = state.on(WorkerEvent::TaskReceived).unwrap();
    assert_eq!(state, WorkerState::Running);
    let state = state.on(WorkerEvent::TaskCompleted).unwrap();
    assert_eq!(state, WorkerState::Idle);
    let state = state.on(WorkerEvent::QueueClosed).unwrap();
    assert_eq!(state, WorkerState::Draining);
    let state = state.on(WorkerEvent::Stopped).unwrap();
    assert_eq!(state, WorkerState::Exited);
}

#[test]
fn aborting_task_ends_a_running_worker() {
    assert_eq!(
        WorkerState::Running.on(WorkerEvent::TaskAborted),
        Some(WorkerState::Aborted)
    );
    assert_eq!(WorkerState::Idle.on(WorkerEvent::TaskAborted), None);
    assert_eq!(WorkerState::Starting.on(WorkerEvent::TaskAborted), None);
}

#[test]
fn events_out_of_place_are_refused() {
    assert_eq!(WorkerState::Starting.on(WorkerEvent::TaskReceived), None);
    assert_eq!(WorkerState::Starting.on(WorkerEvent::QueueClosed), None);
    assert_eq!(WorkerState::Idle.on(WorkerEvent::Started), None);
    assert_eq!(WorkerState::Idle.on(WorkerEvent::Stopped), None);
    assert_eq!(WorkerState::Running.on(WorkerEvent::TaskReceived), None);
    assert_eq!(WorkerState::Running.on(WorkerEvent::QueueClosed), None);
    assert_eq!(WorkerState::Draining.on(WorkerEvent::TaskReceived), None);
}

#[test]
fn exactly_six_transitions_exist() {
    let mut defined = 0;
    for state in STATES {
        for event in EVENTS {
            if state.on(event).is_some() {
                defined += 1;
            }
        }
    }
    assert_eq!(defined, 6);
}

#[test]
fn worker_exits_only_from_draining() {
    for state in STATES {
        for event in EVENTS {
            if state.on(event) == Some(WorkerState::Exited) {
                assert_eq!(state, WorkerState::Draining);
                assert_eq!(event, WorkerEvent::Stopped);
            }
            if state.on(event) == Some(WorkerState::Draining) {
                assert_eq!(state, WorkerState::Idle);
                assert_eq!(event, WorkerEvent::QueueClosed);
            }
        }
    }
}

#[test]
fn ended_worker_accepts_no_event() {
    for event in EVENTS {
        assert_eq!(WorkerState::Exited.on(event), None);
        assert_eq!(WorkerState::Aborted.on(event), None);
    }
}

#[test]
fn only_exited_and_aborted_workers_have_terminated() {
    assert!(!WorkerState::Starting.has_terminated());
    assert!(!WorkerState::Idle.has_terminated());
    assert!(!WorkerState::Running.has_terminated());
    assert!(!WorkerState::Draining.has_terminated());
    assert!(WorkerState::Exited.has_terminated());
    assert!(WorkerState::Aborted.has_terminated());
}
