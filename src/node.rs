use vstd::prelude::*;

use crate::text::is_word;

verus! {

/// A request that travels around the ring. The same two names are used for
/// what a node receives and for the remote call it makes on the next node.
#[derive(Clone, Copy, Debug, PartialEq, Eq, Structural)]
pub enum Action {
    StartRollCall,
    MarkItself,
}

/// The name of the remote operation that delivers `action` to a node.
pub open spec fn operation_name(action: Action) -> Seq<char> {
    match action {
        Action::StartRollCall => "StartRollCall"@,
        Action::MarkItself => "MarkItself"@,
    }
}

impl Action {
    /// The name of the remote operation that delivers this action.
    pub fn operation(&self) -> (r: &'static str)
        ensures
            r@ == operation_name(*self),
    {
        match self {
            Action::StartRollCall => {
                proof {
                    reveal_strlit("StartRollCall");
                }
                "StartRollCall"
            },
            Action::MarkItself => {
                proof {
                    reveal_strlit("MarkItself");
                }
                "MarkItself"
            },
        }
    }

    /// The action that the remote operation called `name` enqueues, or `None`
    /// when no operation has that name.
    pub fn from_operation(name: &str) -> (r: Option<Action>)
        ensures
            name@ == operation_name(Action::StartRollCall) ==> r == Some(Action::StartRollCall),
            name@ == operation_name(Action::MarkItself) ==> r == Some(Action::MarkItself),
            name@ != operation_name(Action::StartRollCall) && name@ != operation_name(
                Action::MarkItself,
            ) ==> r is None,
    {
        proof {
            reveal_strlit("StartRollCall");
            reveal_strlit("MarkItself");
            assert("StartRollCall"@[0] != "MarkItself"@[0]);
        }
        if is_word(name, "StartRollCall") {
            Some(Action::StartRollCall)
        } else if is_word(name, "MarkItself") {
            Some(Action::MarkItself)
        } else {
            None
        }
    }
}

/// Whether this node is marked present in the roll call under way.
#[derive(Clone, Copy, Debug, PartialEq, Eq, Structural)]
pub enum NodeState {
    Idle,
    Active,
}

/// The remote call that a node in `state` makes on the next node when `action`
/// is delivered to it, or `None` when the delivery is a no-op.
pub open spec fn call_for(state: NodeState, action: Action) -> Option<Action> {
    match state {
        NodeState::Idle => match action {
            Action::StartRollCall => Some(Action::StartRollCall),
            Action::MarkItself => None,
        },
        NodeState::Active => Some(Action::MarkItself),
    }
}

/// The state of a node in `state` once the remote call `call` has come back:
/// a successful `StartRollCall` marks the node, a successful `MarkItself`
/// clears it, and a failed call changes nothing.
pub open spec fn after_call(state: NodeState, call: Action, succeeded: bool) -> NodeState {
    if !succeeded {
        state
    } else {
        match call {
            Action::StartRollCall => NodeState::Active,
            Action::MarkItself => NodeState::Idle,
        }
    }
}

/// A node in `state` that is handed `deliveries` one after another, each an
/// action with the outcome of the remote call it leads to: its final state, and
/// the remote calls it issued, in order.
pub open spec fn node_run(state: NodeState, deliveries: Seq<(Action, bool)>) -> (NodeState, Seq<Action>)
    decreases deliveries.len(),
{
    if deliveries.len() == 0 {
        (state, Seq::empty())
    } else {
        let (before, issued) = node_run(state, deliveries.drop_last());
        let (action, succeeded) = deliveries.last();
        match call_for(before, action) {
            Some(call) => (after_call(before, call, succeeded), issued.push(call)),
            None => (before, issued),
        }
    }
}

/// What the coordinator of a node knows: its own state, and the remote call it
/// has issued and whose outcome it is waiting for, if any.
pub struct CoordinatorView {
    pub state: NodeState,
    pub in_flight: Option<Action>,
}

/// The single worker of a node that owns its roll-call state. It takes actions
/// one at a time; for each it decides the remote call to make on the next node
/// and, once the outcome of that call is known, the node's new state.
pub struct Coordinator {
    state: NodeState,
    in_flight: Option<Action>,
}

impl View for Coordinator {
    type V = CoordinatorView;

    closed spec fn view(&self) -> CoordinatorView {
        CoordinatorView { state: self.state, in_flight: self.in_flight }
    }
}

impl Coordinator {
    /// A coordinator for a node that has just started: `Idle`, no call out.
    pub fn new() -> (r: Coordinator)
        ensures
            r@.state == NodeState::Idle,
            r@.in_flight is None,
    {
        Coordinator { state: NodeState::Idle, in_flight: None }
    }

    pub fn state(&self) -> (r: NodeState)
        ensures
            r == self@.state,
    {
        self.state
    }

    pub fn in_flight(&self) -> (r: Option<Action>)
        ensures
            r == self@.in_flight,
    {
        self.in_flight
    }

    /// Takes the next action off the command queue. Returns the remote call to
    /// make on the next node, if any; that call is then in flight, and no other
    /// action is taken until `complete` reports its outcome. The node's state
    /// changes only in `complete`.
    pub fn receive(&mut self, action: Action) -> (call: Option<Action>)
        requires
            old(self)@.in_flight is None,
        ensures
            call == call_for(old(self)@.state, action),
            final(self)@.state == old(self)@.state,
            final(self)@.in_flight == call,
    {
        let call = match self.state {
            NodeState::Idle => match action {
                Action::StartRollCall => Some(Action::StartRollCall),
                Action::MarkItself => None,
            },
            NodeState::Active => Some(Action::MarkItself),
        };
        self.in_flight = call;
        call
    }

    /// Reports the outcome of the call in flight. On success the node takes its
    /// new state; on failure it stays as it was and the action is dropped.
    pub fn complete(&mut self, succeeded: bool)
        requires
            old(self)@.in_flight is Some,
        ensures
            final(self)@.state == after_call(old(self)@.state, old(self)@.in_flight->0, succeeded),
            final(self)@.in_flight is None,
    {
        if succeeded {
            match self.in_flight {
                Some(Action::StartRollCall) => {
                    self.state = NodeState::Active;
                },
                Some(Action::MarkItself) => {
                    self.state = NodeState::Idle;
                },
                None => {},
            }
        }
        self.in_flight = None;
    }
}

/// Delivering `MarkItself` to an `Idle` node, any number of times and whatever
/// the outcomes handed with it, never changes its state and never issues a
/// remote call.
pub proof fn lemma_clearing_is_idempotent(deliveries: Seq<(Action, bool)>)
    requires
        forall|i: int| 0 <= i < deliveries.len() ==> (#[trigger] deliveries[i]).0 == Action::MarkItself,
    ensures
        node_run(NodeState::Idle, deliveries).0 == NodeState::Idle,
        node_run(NodeState::Idle, deliveries).1 =~= Seq::<Action>::empty(),
    decreases deliveries.len(),
{
    if deliveries.len() > 0 {
        let rest = deliveries.drop_last();
        assert forall|i: int| 0 <= i < rest.len() implies (#[trigger] rest[i]).0 == Action::MarkItself by {
            assert(rest[i] == deliveries[i]);
        }
        lemma_clearing_is_idempotent(rest);
        assert(deliveries.last() == deliveries[deliveries.len() - 1]);
    }
}

/// `StartRollCall` delivered twice in a row to an `Idle` node, both remote calls
/// succeeding: the first marks the node and forwards `StartRollCall`; the second
/// finds it `Active`, so it clears it again and forwards `MarkItself`.
pub proof fn lemma_duplicate_start()
    ensures
        node_run(NodeState::Idle, seq![(Action::StartRollCall, true)]).0 == NodeState::Active,
        node_run(NodeState::Idle, seq![(Action::StartRollCall, true)]).1
            =~= seq![Action::StartRollCall],
        node_run(NodeState::Idle, seq![(Action::StartRollCall, true), (Action::StartRollCall, true)]).0
            == NodeState::Idle,
        node_run(NodeState::Idle, seq![(Action::StartRollCall, true), (Action::StartRollCall, true)]).1
            =~= seq![Action::StartRollCall, Action::MarkItself],
{
    let one = seq![(Action::StartRollCall, true)];
    let two = seq![(Action::StartRollCall, true), (Action::StartRollCall, true)];
    assert(one.drop_last() =~= Seq::<(Action, bool)>::empty());
    assert(one.last() == (Action::StartRollCall, true));
    assert(two.drop_last() =~= one);
    assert(two.last() == (Action::StartRollCall, true));
    reveal_with_fuel(node_run, 3);
    assert(Seq::<Action>::empty().push(Action::StartRollCall) =~= seq![Action::StartRollCall]);
    assert(seq![Action::StartRollCall].push(Action::MarkItself) =~= seq![
        Action::StartRollCall,
        Action::MarkItself,
    ]);
}

} // verus!
