use vstd::prelude::*;

use crate::node::{after_call, call_for, Action, NodeState};

verus! {

/// A ring of nodes seen as a whole, each node driven by its coordinator:
/// the state of node `i` at `nodes[i]`, the one message on its way (the node it
/// is for, and the action), and every call forwarded so far (the node that made
/// it, and the action), oldest first.
pub struct RingView {
    pub nodes: Seq<NodeState>,
    pub message: Option<(nat, Action)>,
    pub forwarded: Seq<(nat, Action)>,
}

/// The node after node `k` in a ring of `n` nodes.
pub open spec fn successor(k: nat, n: nat) -> nat {
    if k + 1 < n {
        k + 1
    } else {
        0
    }
}

/// A ring has at least one node, and a message is addressed to one of them.
pub open spec fn ring_wf(r: RingView) -> bool {
    &&& r.nodes.len() > 0
    &&& r.message matches Some((k, _)) ==> k < r.nodes.len()
}

/// The ring after the message on its way is delivered, where `succeeded` is the
/// outcome of the remote call its receiver makes, if any. A node that makes no
/// call, or whose call fails, keeps its state, and then no message is left.
pub open spec fn ring_step(r: RingView, succeeded: bool) -> RingView {
    match r.message {
        None => r,
        Some((k, action)) => {
            let state = r.nodes[k as int];
            match call_for(state, action) {
                Some(call) if succeeded => RingView {
                    nodes: r.nodes.update(k as int, after_call(state, call, true)),
                    message: Some((successor(k, r.nodes.len()), call)),
                    forwarded: r.forwarded.push((k, call)),
                },
                _ => RingView { nodes: r.nodes, message: None, forwarded: r.forwarded },
            }
        },
    }
}

/// The ring after one delivery for each outcome in `outcomes`, in order.
pub open spec fn ring_run(r: RingView, outcomes: Seq<bool>) -> RingView
    decreases outcomes.len(),
{
    if outcomes.len() == 0 {
        r
    } else {
        ring_step(ring_run(r, outcomes.drop_last()), outcomes.last())
    }
}

/// `k` outcomes that are all successes.
pub open spec fn all_succeed(k: nat) -> Seq<bool> {
    Seq::new(k, |_i: int| true)
}

/// A ring of `n` nodes, all `Idle`, with `StartRollCall` delivered to node 0.
pub open spec fn started(n: nat) -> RingView {
    RingView {
        nodes: Seq::new(n, |_i: int| NodeState::Idle),
        message: Some((0, Action::StartRollCall)),
        forwarded: Seq::empty(),
    }
}

/// `action` forwarded by nodes `0`, `1`, ..., `k - 1`, in that order.
pub open spec fn sweep(k: nat, action: Action) -> Seq<(nat, Action)> {
    Seq::new(k, |i: int| (i as nat, action))
}

proof fn lemma_phase_one(n: nat, k: nat)
    requires
        0 < n,
        k <= n,
    ensures
        ring_run(started(n), all_succeed(k)) == (RingView {
            nodes: Seq::new(n, |i: int| if i < k { NodeState::Active } else { NodeState::Idle }),
            message: Some((if k < n { k } else { 0 }, Action::StartRollCall)),
            forwarded: sweep(k, Action::StartRollCall),
        }),
    decreases k,
{
    let r = ring_run(started(n), all_succeed(k));
    if k == 0 {
        assert(r.nodes =~= Seq::new(n, |i: int| if i < k { NodeState::Active } else { NodeState::Idle }));
        assert(r.forwarded =~= sweep(k, Action::StartRollCall));
    } else {
        let j = (k - 1) as nat;
        assert(all_succeed(k).drop_last() =~= all_succeed(j));
        lemma_phase_one(n, j);
        let prev = ring_run(started(n), all_succeed(j));
        assert(prev.nodes[j as int] == NodeState::Idle);
        assert(r.nodes =~= Seq::new(n, |i: int| if i < k { NodeState::Active } else { NodeState::Idle }));
        assert(r.forwarded =~= sweep(k, Action::StartRollCall));
    }
}

proof fn lemma_phase_two(n: nat, j: nat)
    requires
        0 < j <= n,
    ensures
        ring_run(started(n), all_succeed(n + j)) == (RingView {
            nodes: Seq::new(n, |i: int| if i < j { NodeState::Idle } else { NodeState::Active }),
            message: Some((if j < n { j } else { 0 }, Action::MarkItself)),
            forwarded: sweep(n, Action::StartRollCall) + sweep(j, Action::MarkItself),
        }),
    decreases j,
{
    let r = ring_run(started(n), all_succeed(n + j));
    let k = (n + j - 1) as nat;
    assert(all_succeed(n + j).drop_last() =~= all_succeed(k));
    if j == 1 {
        lemma_phase_one(n, n);
    } else {
        lemma_phase_two(n, (j - 1) as nat);
    }
    assert(r.nodes =~= Seq::new(n, |i: int| if i < j { NodeState::Idle } else { NodeState::Active }));
    assert(r.forwarded =~= sweep(n, Action::StartRollCall) + sweep(j, Action::MarkItself));
}

/// A roll call on a ring of `n` nodes, all `Idle`, started by `StartRollCall`
/// at node 0, with every forwarded call succeeding. After `n` deliveries every
/// node has been marked, each by the one `StartRollCall` it forwarded. After `n`
/// more every node has been cleared, each by the one `MarkItself` it forwarded,
/// and the last of these is on its way back to node 0. That final delivery is a
/// no-op: the cycle ends there with all nodes `Idle`, having forwarded exactly
/// `n` calls of each kind, in ring order.
pub proof fn lemma_two_phase_convergence(n: nat)
    requires
        n > 0,
    ensures
        ring_run(started(n), all_succeed(n)).nodes =~= Seq::new(n, |_i: int| NodeState::Active),
        ring_run(started(n), all_succeed(n)).forwarded =~= sweep(n, Action::StartRollCall),
        ring_run(started(n), all_succeed(2 * n)).message == Some((0nat, Action::MarkItself)),
        ring_run(started(n), all_succeed(2 * n + 1)).nodes =~= Seq::new(n, |_i: int| NodeState::Idle),
        ring_run(started(n), all_succeed(2 * n + 1)).message is None,
        ring_run(started(n), all_succeed(2 * n + 1)).forwarded
            =~= sweep(n, Action::StartRollCall) + sweep(n, Action::MarkItself),
{
    lemma_phase_one(n, n);
    lemma_phase_two(n, n);
    assert(all_succeed(2 * n + 1).drop_last() =~= all_succeed(n + n));
    let last = ring_run(started(n), all_succeed(2 * n + 1));
    assert(last.nodes =~= Seq::new(n, |_i: int| NodeState::Idle));
}

proof fn lemma_quiet_ring_stays(r: RingView, outcomes: Seq<bool>)
    requires
        r.message is None,
    ensures
        ring_run(r, outcomes) == r,
    decreases outcomes.len(),
{
    if outcomes.len() > 0 {
        lemma_quiet_ring_stays(r, outcomes.drop_last());
    }
}

/// When the remote call made by the receiver of the message fails, that node
/// keeps its state, no node changes, nothing is forwarded, and no message is
/// left: whatever is delivered afterwards, the ring stays exactly as it is.
pub proof fn lemma_stall_on_failure(r: RingView, later: Seq<bool>)
    requires
        ring_wf(r),
        r.message matches Some((k, action)) && call_for(r.nodes[k as int], action) is Some,
    ensures
        ring_step(r, false).nodes == r.nodes,
        ring_step(r, false).forwarded == r.forwarded,
        ring_step(r, false).message is None,
        ring_run(ring_step(r, false), later) == ring_step(r, false),
{
    lemma_quiet_ring_stays(ring_step(r, false), later);
}

} // verus!
