use roll_call::node::{Action, Coordinator, NodeState};

fn deliver(c: &mut Coordinator, action: Action, succeeded: bool) -> Option<Action> {
    let call = c.receive(action);
    if call.is_some() {
        assert_eq!(c.in_flight(), call);
        c.complete(succeeded);
    }
    assert_eq!(c.in_flight(), None);
    call
}

#[test]
fn new_coordinator_is_idle_with_no_call_out() {
    let c = Coordinator::new();
    assert_eq!(c.state(), NodeState::Idle);
    assert_eq!(c.in_flight(), None);
}

#[test]
fn idle_start_roll_call_forwards_start_and_marks_on_success() {
    let mut c = Coordinator::new();
    assert_eq!(deliver(&mut c, Action::StartRollCall, true), Some(Action::StartRollCall));
    assert_eq!(c.state(), NodeState::Active);
}

#[test]
fn idle_start_roll_call_failure_stays_idle() {
    let mut c = Coordinator::new();
    assert_eq!(deliver(&mut c, Action::StartRollCall, false), Some(Action::StartRollCall));
    assert_eq!(c.state(), NodeState::Idle);
}

#[test]
fn active_start_roll_call_forwards_mark_and_clears() {
    let mut c = Coordinator::new();
    deliver(&mut c, Action::StartRollCall, true);
    assert_eq!(deliver(&mut c, Action::StartRollCall, true), Some(Action::MarkItself));
    assert_eq!(c.state(), NodeState::Idle);
}

#[test]
fn active_start_roll_call_failure_stays_active() {
    let mut c = Coordinator::new();
    deliver(&mut c, Action::StartRollCall, true);
    assert_eq!(deliver(&mut c, Action::StartRollCall, false), Some(Action::MarkItself));
    assert_eq!(c.state(), NodeState::Active);
}

#[test]
fn active_mark_itself_forwards_mark_and_clears() {
    let mut c = Coordinator::new();
    deliver(&mut c, Action::StartRollCall, true);
    assert_eq!(deliver(&mut c, Action::MarkItself, true), Some(Action::MarkItself));
    assert_eq!(c.state(), NodeState::Idle);
}

#[test]
fn active_mark_itself_failure_stays_active() {
    let mut c = Coordinator::new();
    deliver(&mut c, Action::StartRollCall, true);
    assert_eq!(deliver(&mut c, Action::MarkItself, false), Some(Action::MarkItself));
    assert_eq!(c.state(), NodeState::Active);
}

#[test]
fn idle_mark_itself_repeated_is_a_no_op() {
    let mut c = Coordinator::new();
    for _ in 0..5 {
        assert_eq!(c.receive(Action::MarkItself), None);
        assert_eq!(c.in_flight(), None);
        assert_eq!(c.state(), NodeState::Idle);
    }
}

#[test]
fn call_stays_in_flight_until_its_outcome_is_reported() {
    let mut c = Coordinator::new();
    assert_eq!(c.receive(Action::StartRollCall), Some(Action::StartRollCall));
    assert_eq!(c.in_flight(), Some(Action::StartRollCall));
    assert_eq!(c.state(), NodeState::Idle);
    c.complete(true);
    assert_eq!(c.in_flight(), None);
    assert_eq!(c.state(), NodeState::Active);
}

#[test]
fn duplicate_start_roll_call_marks_then_clears() {
    let mut c = Coordinator::new();
    assert_eq!(deliver(&mut c, Action::StartRollCall, true), Some(Action::StartRollCall));
    assert_eq!(c.state(), NodeState::Active);
    assert_eq!(deliver(&mut c, Action::StartRollCall, true), Some(Action::MarkItself));
    assert_eq!(c.state(), NodeState::Idle);
}

#[test]
fn operation_names_map_to_actions() {
    assert_eq!(Action::StartRollCall.operation(), "StartRollCall");
    assert_eq!(Action::MarkItself.operation(), "MarkItself");
    assert_eq!(Action::from_operation("StartRollCall"), Some(Action::StartRollCall));
    assert_eq!(Action::from_operation("MarkItself"), Some(Action::MarkItself));
    assert_eq!(Action::from_operation("markitself"), None);
    assert_eq!(Action::from_operation(""), None);
    assert_eq!(Action::from_operation("StartRollCall "), None);
}
