use roll_call::node::{Action, Coordinator, NodeState};
use std::collections::VecDeque;

/// Runs a ring of `n` coordinators from one `StartRollCall` delivered to node 0
/// until no message is left. `fails` names a node whose forwarded call fails.
/// Returns each forwarded call as (sender, action), in order, and the states.
fn run_ring(n: usize, fails: Option<usize>) -> (Vec<(usize, Action)>, Vec<NodeState>, usize) {
    let mut nodes: Vec<Coordinator> = (0..n).map(|_| Coordinator::new()).collect();
    let mut messages: VecDeque<(usize, Action)> = VecDeque::new();
    messages.push_back((0, Action::StartRollCall));
    let mut forwarded = Vec::new();
    let mut deliveries = 0;
    while let Some((k, action)) = messages.pop_front() {
        deliveries += 1;
        if let Some(call) = nodes[k].receive(action) {
            let ok = fails != Some(k);
            nodes[k].complete(ok);
            if ok {
                forwarded.push((k, call));
                messages.push_back(((k + 1) % n, call));
            }
        }
        assert!(deliveries <= 4 * n + 4, "the cycle does not end");
    }
    (forwarded, nodes.iter().map(|c| c.state()).collect(), deliveries)
}

#[test]
fn three_node_ring_roll_call_trace() {
    let (forwarded, states, deliveries) = run_ring(3, None);
    assert_eq!(
        forwarded,
        vec![
            (0, Action::StartRollCall),
            (1, Action::StartRollCall),
            (2, Action::StartRollCall),
            (0, Action::MarkItself),
            (1, Action::MarkItself),
            (2, Action::MarkItself),
        ]
    );
    assert_eq!(states, vec![NodeState::Idle, NodeState::Idle, NodeState::Idle]);
    assert_eq!(deliveries, 7);
}

#[test]
fn three_node_ring_states_step_by_step() {
    let mut nodes = vec![Coordinator::new(), Coordinator::new(), Coordinator::new()];
    let mut step = |k: usize, action: Action| -> Option<Action> {
        let call = nodes[k].receive(action);
        if call.is_some() {
            nodes[k].complete(true);
        }
        call
    };
    assert_eq!(step(0, Action::StartRollCall), Some(Action::StartRollCall));
    assert_eq!(step(1, Action::StartRollCall), Some(Action::StartRollCall));
    assert_eq!(step(2, Action::StartRollCall), Some(Action::StartRollCall));
    assert_eq!(step(0, Action::StartRollCall), Some(Action::MarkItself));
    assert_eq!(step(1, Action::MarkItself), Some(Action::MarkItself));
    assert_eq!(step(2, Action::MarkItself), Some(Action::MarkItself));
    assert_eq!(step(0, Action::MarkItself), None);
    let states: Vec<NodeState> = nodes.iter().map(|c| c.state()).collect();
    assert_eq!(states, vec![NodeState::Idle, NodeState::Idle, NodeState::Idle]);
}

#[test]
fn ring_of_five_converges_in_two_sweeps() {
    let (forwarded, states, deliveries) = run_ring(5, None);
    let mut expected = Vec::new();
    for i in 0..5 {
        expected.push((i, Action::StartRollCall));
    }
    for i in 0..5 {
        expected.push((i, Action::MarkItself));
    }
    assert_eq!(forwarded, expected);
    assert!(states.iter().all(|s| *s == NodeState::Idle));
    assert_eq!(deliveries, 11);
}

#[test]
fn single_node_ring_calls_itself() {
    let (forwarded, states, deliveries) = run_ring(1, None);
    assert_eq!(forwarded, vec![(0, Action::StartRollCall), (0, Action::MarkItself)]);
    assert_eq!(states, vec![NodeState::Idle]);
    assert_eq!(deliveries, 3);
}

#[test]
fn failure_in_phase_one_stalls_the_cycle() {
    let (forwarded, states, _) = run_ring(4, Some(1));
    assert_eq!(forwarded, vec![(0, Action::StartRollCall)]);
    assert_eq!(
        states,
        vec![NodeState::Active, NodeState::Idle, NodeState::Idle, NodeState::Idle]
    );
}

#[test]
fn failure_in_phase_two_stalls_the_cycle() {
    let mut nodes = vec![Coordinator::new(), Coordinator::new(), Coordinator::new()];
    for k in 0..3 {
        nodes[k].receive(Action::StartRollCall);
        nodes[k].complete(true);
    }
    assert_eq!(nodes[0].receive(Action::StartRollCall), Some(Action::MarkItself));
    nodes[0].complete(true);
    assert_eq!(nodes[1].receive(Action::MarkItself), Some(Action::MarkItself));
    nodes[1].complete(false);
    let states: Vec<NodeState> = nodes.iter().map(|c| c.state()).collect();
    assert_eq!(states, vec![NodeState::Idle, NodeState::Active, NodeState::Active]);
}
