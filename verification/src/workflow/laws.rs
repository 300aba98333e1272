//! What holds of every run, whatever the host reports and in whatever order.

use vstd::prelude::*;
use crate::json::JsonView;
use crate::workflow::graph::{incoming, is_ranking, occurrences, Graph};
use crate::workflow::runner::{
    begun, cancelled, enqueue, halt, polled, release, release_one, retry_of, returned, settle,
    started, stop, terminal, woken, CommandView, Gate, NodeState, Phase, RunFault, RunState,
};
use crate::workflow::search::{adjacency_wf, has_edge, is_walk, reaches};

verus! {

/// Something that a host reports to a runner.
pub enum Step {
    Begin,
    Start { node: int, registered: bool, gate: Gate },
    Returned { node: int, outcome: Result<Option<JsonView>, Seq<char>>, elapsed: u64 },
    Woke { node: int },
    Cancel,
    EmitFailed { error: Seq<char> },
    Poll,
}

/// The state and the commands that follow from one step.
pub open spec fn step(g: Graph, s: RunState, x: Step) -> (RunState, Seq<CommandView>) {
    match x {
        Step::Begin => begun(g, s),
        Step::Start { node, registered, gate } => started(g, s, node, registered, gate),
        Step::Returned { node, outcome, elapsed } => returned(g, s, node, outcome, elapsed),
        Step::Woke { node } => woken(s, node),
        Step::Cancel => cancelled(s),
        Step::EmitFailed { error } => halt(s, RunFault::EmitFailure(error)),
        Step::Poll => (polled(s).0, polled(s).1),
    }
}

/// The state has one entry for every node of the graph, and the graph names
/// only nodes.
pub open spec fn fits(g: Graph, s: RunState) -> bool {
    &&& adjacency_wf(g.rows())
    &&& s.nodes.len() == g.nodes@.len()
    &&& forall|i: int| 0 <= i < g.starts@.len() ==> (#[trigger] g.starts@[i]) < g.nodes@.len()
}

/// How far a node has come: it waits, it is ready, its runner is at work, or
/// it is done.
pub open spec fn progress(p: Phase) -> int {
    match p {
        Phase::Pending => 0,
        Phase::Ready => 1,
        Phase::Invoking => 2,
        Phase::Sleeping => 2,
        _ => 3,
    }
}

/// From `a` to `b` no node has gone back, and no node that was done has changed.
pub open spec fn no_way_back(a: RunState, b: RunState) -> bool {
    &&& a.nodes.len() == b.nodes.len()
    &&& forall|k: int|
        0 <= k < a.nodes.len() ==> progress(a.nodes[k].phase) <= progress(
            (#[trigger] b.nodes[k]).phase,
        )
    &&& forall|k: int|
        0 <= k < a.nodes.len() && progress(a.nodes[k].phase) == 3 ==> (#[trigger] b.nodes[k]).phase
            == a.nodes[k].phase
}

/// What releasing successors leaves as it was, and what it may change.
pub proof fn lemma_release_frame(s: RunState, row: Seq<usize>, j: nat)
    requires
        j <= row.len(),
        forall|i: int| 0 <= i < row.len() ==> (#[trigger] row[i]) < s.nodes.len(),
    ensures
        ({
            let r = release(s, row, j);
            &&& r.nodes.len() == s.nodes.len()
            &&& r.cancelled == s.cancelled
            &&& r.failure == s.failure
            &&& r.begun == s.begun
            &&& r.finished == s.finished
            &&& r.cancel_siblings == s.cancel_siblings
            &&& forall|k: int|
                0 <= k < s.nodes.len() ==> {
                    let before = s.nodes[k];
                    let after = #[trigger] r.nodes[k];
                    &&& after.attempts == before.attempts
                    &&& after.remaining <= before.remaining
                    &&& (after.phase == before.phase || (before.phase == Phase::Pending
                        && after.phase == Phase::Ready && after.remaining == 0 && !s.halted()))
                }
        }),
    decreases j,
{
    if j > 0 {
        lemma_release_frame(s, row, (j - 1) as nat);
        let p = release(s, row, (j - 1) as nat);
        let t = row[j - 1] as int;
        assert(row[j - 1] < s.nodes.len());
        let r = release(s, row, j);
        assert forall|k: int| 0 <= k < s.nodes.len() implies {
            let before = s.nodes[k];
            let after = #[trigger] r.nodes[k];
            &&& after.attempts == before.attempts
            &&& after.remaining <= before.remaining
            &&& (after.phase == before.phase || (before.phase == Phase::Pending && after.phase
                == Phase::Ready && after.remaining == 0 && !s.halted()))
        } by {
            assert(p.nodes[k].attempts == s.nodes[k].attempts);
            if k != t {
                assert(r.nodes[k] == p.nodes[k]);
            }
        }
    }
}

/// What making roots ready leaves as it was, and what it may change.
pub proof fn lemma_enqueue_frame(s: RunState, starts: Seq<usize>, j: nat)
    requires
        j <= starts.len(),
        forall|i: int| 0 <= i < starts.len() ==> (#[trigger] starts[i]) < s.nodes.len(),
    ensures
        ({
            let r = enqueue(s, starts, j);
            &&& r.nodes.len() == s.nodes.len()
            &&& r.cancelled == s.cancelled
            &&& r.failure == s.failure
            &&& r.begun == s.begun
            &&& r.finished == s.finished
            &&& r.cancel_siblings == s.cancel_siblings
            &&& forall|k: int|
                0 <= k < s.nodes.len() ==> {
                    let before = s.nodes[k];
                    let after = #[trigger] r.nodes[k];
                    &&& after.attempts == before.attempts
                    &&& after.remaining == before.remaining
                    &&& (after.phase == before.phase || (before.phase == Phase::Pending
                        && after.phase == Phase::Ready && !s.halted()))
                }
        }),
    decreases j,
{
    if j > 0 {
        lemma_enqueue_frame(s, starts, (j - 1) as nat);
        let p = enqueue(s, starts, (j - 1) as nat);
        let t = starts[j - 1] as int;
        assert(starts[j - 1] < s.nodes.len());
        let r = enqueue(s, starts, j);
        assert forall|k: int| 0 <= k < s.nodes.len() implies {
            let before = s.nodes[k];
            let after = #[trigger] r.nodes[k];
            &&& after.attempts == before.attempts
            &&& after.remaining == before.remaining
            &&& (after.phase == before.phase || (before.phase == Phase::Pending && after.phase
                == Phase::Ready && !s.halted()))
        } by {
            assert(p.nodes[k].attempts == s.nodes[k].attempts);
            if k != t {
                assert(r.nodes[k] == p.nodes[k]);
            }
        }
    }
}

/// What the settling of a node leaves as it was, and what it may change.
pub proof fn lemma_settle_frame(g: Graph, s: RunState, node: int, phase: Phase)
    requires
        fits(g, s),
        0 <= node < s.nodes.len(),
    ensures
        ({
            let r = settle(s, g.rows()[node], node, phase);
            &&& r.nodes.len() == s.nodes.len()
            &&& r.cancelled == s.cancelled
            &&& r.failure == s.failure
            &&& r.begun == s.begun
            &&& r.finished == s.finished
            &&& r.cancel_siblings == s.cancel_siblings
            &&& forall|k: int|
                0 <= k < s.nodes.len() ==> {
                    let before = s.with_phase(node, phase).nodes[k];
                    let after = #[trigger] r.nodes[k];
                    &&& after.attempts == before.attempts
                    &&& after.remaining <= before.remaining
                    &&& (after.phase == before.phase || (before.phase == Phase::Pending
                        && after.phase == Phase::Ready && after.remaining == 0 && !s.halted()))
                }
        }),
{
    let row = g.rows()[node];
    assert forall|i: int| 0 <= i < row.len() implies (#[trigger] row[i]) < s.nodes.len() by {
        assert(g.rows()[node][i] < g.rows().len());
    }
    lemma_release_frame(s.with_phase(node, phase), row, row.len());
}

/// At most once: whatever is reported, no node goes back to where it was. A
/// node whose runner was called is never made ready again, and a node that is
/// done stays as it is.
pub proof fn lemma_no_way_back(g: Graph, s: RunState, x: Step)
    requires
        fits(g, s),
    ensures
        fits(g, step(g, s, x).0),
        no_way_back(s, step(g, s, x).0),
{
    let r = step(g, s, x).0;
    match x {
        Step::Begin => {
            if !s.begun {
                lemma_enqueue_frame(RunState { begun: true, ..s }, g.starts@, g.starts@.len());
            }
        },
        Step::Start { node, registered, gate } => {
            if 0 <= node < s.nodes.len() && s.nodes[node].phase == Phase::Ready && !s.halted()
                && registered {
                match gate {
                    Gate::Error(e) => {
                        lemma_terminal_frame(g, s, node, RunFault::ConditionEvalFailure(e), e);
                    },
                    Gate::Skip(_) => {
                        lemma_settle_frame(g, s, node, Phase::Skipped);
                    },
                    Gate::Pass => {},
                }
            }
        },
        Step::Returned { node, outcome, elapsed } => {
            if 0 <= node < s.nodes.len() && s.nodes[node].phase == Phase::Invoking {
                match outcome {
                    Ok(_) => {
                        lemma_settle_frame(g, s, node, Phase::Succeeded);
                    },
                    Err(e) => {
                        lemma_terminal_frame(g, s, node, RunFault::RunnerFailure(e), e);
                    },
                }
            }
        },
        Step::Woke { node } => {},
        Step::Cancel => {},
        Step::EmitFailed { error } => {},
        Step::Poll => {},
    }
}

/// A node that fails for good in a phase in which its runner may be at work
/// does not go back, and no other node does.
proof fn lemma_terminal_frame(g: Graph, s: RunState, node: int, error: RunFault, message: Seq<char>)
    requires
        fits(g, s),
        0 <= node < s.nodes.len(),
        progress(s.nodes[node].phase) <= 2,
    ensures
        fits(g, terminal(g, s, node, error, message).0),
        no_way_back(s, terminal(g, s, node, error, message).0),
{
    lemma_settle_frame(g, s, node, Phase::Tolerated);
}

/// Cancellation leaves no node in flight.
pub proof fn lemma_cancel_quiesces(s: RunState)
    ensures
        cancelled(s).0.cancelled,
        cancelled(s).0.quiescent(),
{
}

/// No command calls a runner.
pub open spec fn calls_no_runner(commands: Seq<CommandView>) -> bool {
    forall|i: int| 0 <= i < commands.len() ==> !(#[trigger] commands[i] is Invoke)
}

/// Cancellation safety: once a run is cancelled, nothing that is reported makes
/// it call a runner; the run stays cancelled, with no node in flight.
pub proof fn lemma_cancelled_calls_no_runner(g: Graph, s: RunState, x: Step)
    requires
        fits(g, s),
        s.cancelled,
        s.quiescent(),
    ensures
        calls_no_runner(step(g, s, x).1),
        step(g, s, x).0.cancelled,
        step(g, s, x).0.quiescent(),
{
    match x {
        Step::Begin => {
            if !s.begun {
                lemma_enqueue_frame(RunState { begun: true, ..s }, g.starts@, g.starts@.len());
            }
        },
        Step::Start { node, registered, gate } => {
            if 0 <= node < s.nodes.len() {
                assert(!s.nodes[node].phase.in_flight());
            }
        },
        Step::Returned { node, outcome, elapsed } => {
            if 0 <= node < s.nodes.len() {
                assert(!s.nodes[node].phase.in_flight());
            }
        },
        Step::Woke { node } => {
            if 0 <= node < s.nodes.len() {
                assert(!s.nodes[node].phase.in_flight());
            }
        },
        Step::Cancel => {
            lemma_no_events(s.nodes, s.nodes.len());
        },
        Step::EmitFailed { error } => {
            lemma_no_events(s.nodes, s.nodes.len());
        },
        Step::Poll => {},
    }
}

/// Where no node is in flight, none is counted as such.
proof fn lemma_no_events(nodes: Seq<NodeState>, i: nat)
    requires
        i <= nodes.len(),
        forall|k: int| 0 <= k < nodes.len() ==> !(#[trigger] nodes[k]).phase.in_flight(),
    ensures
        crate::workflow::runner::flights(nodes, i) == 0,
    decreases i,
{
    if i > 0 {
        lemma_no_events(nodes, (i - 1) as nat);
    }
}

/// Every node whose retry count is not negative has had its runner called no
/// more than that count and once; one that sleeps before its next attempt has
/// that attempt still to come.
pub open spec fn attempts_bounded(g: Graph, s: RunState) -> bool {
    forall|k: int|
        0 <= k < s.nodes.len() && retry_of(g, k) >= 0 ==> {
            &&& (#[trigger] s.nodes[k]).attempts <= retry_of(g, k) + 1
            &&& s.nodes[k].phase == Phase::Sleeping ==> s.nodes[k].attempts <= retry_of(g, k)
            &&& progress(s.nodes[k].phase) <= 1 ==> s.nodes[k].attempts == 0
        }
}

/// Every call of a runner that the commands ask for is the one that the state
/// counts, and is within the retry count of its node.
pub open spec fn calls_within_bound(g: Graph, s: RunState, commands: Seq<CommandView>) -> bool {
    forall|i: int|
        0 <= i < commands.len() ==> (#[trigger] commands[i] matches CommandView::Invoke {
            node,
            attempt,
        } ==> node < s.nodes.len() && s.nodes[node as int].attempts == attempt && (retry_of(
            g,
            node as int,
        ) >= 0 ==> attempt <= retry_of(g, node as int) + 1))
}

/// Retry bound: whatever is reported, the runner of a node whose retry count `n`
/// is not negative is called at most `n + 1` times. Each call that is asked for
/// raises the count of its node by one, and the count never passes `n + 1`.
pub proof fn lemma_attempts_bounded(g: Graph, s: RunState, x: Step)
    requires
        fits(g, s),
        attempts_bounded(g, s),
    ensures
        attempts_bounded(g, step(g, s, x).0),
        calls_within_bound(g, step(g, s, x).0, step(g, s, x).1),
{
    let r = step(g, s, x).0;
    let commands = step(g, s, x).1;
    match x {
        Step::Begin => {
            if !s.begun {
                lemma_enqueue_frame(RunState { begun: true, ..s }, g.starts@, g.starts@.len());
            }
            lemma_quiet_within(g, r, commands);
        },
        Step::Start { node, registered, gate } => {
            if 0 <= node < s.nodes.len() && s.nodes[node].phase == Phase::Ready && !s.halted()
                && registered {
                match gate {
                    Gate::Error(e) => {
                        lemma_settle_frame(g, s, node, Phase::Tolerated);
                        lemma_halt_calls(s.with_phase(node, Phase::Failed), RunFault::ConditionEvalFailure(e));
                        assert(calls_no_runner(terminal(g, s, node, RunFault::ConditionEvalFailure(e), e).1));
                        lemma_quiet_within(g, r, commands);
                    },
                    Gate::Skip(_) => {
                        lemma_settle_frame(g, s, node, Phase::Skipped);
                        lemma_quiet_within(g, r, commands);
                    },
                    Gate::Pass => {
                        lemma_one_call(g, r, commands, 1, node);
                    },
                }
            } else if 0 <= node < s.nodes.len() && s.nodes[node].phase == Phase::Ready
                && !s.halted() {
                lemma_halt_calls(
                    s.with_phase(node, Phase::Failed),
                    RunFault::UnknownAction(g.nodes@[node].node_context.action_type@),
                );
                lemma_quiet_within(g, r, commands);
            } else {
                lemma_quiet_within(g, r, commands);
            }
        },
        Step::Returned { node, outcome, elapsed } => {
            if 0 <= node < s.nodes.len() && s.nodes[node].phase == Phase::Invoking {
                match outcome {
                    Ok(_) => {
                        lemma_settle_frame(g, s, node, Phase::Succeeded);
                        lemma_quiet_within(g, r, commands);
                    },
                    Err(e) => {
                        lemma_settle_frame(g, s, node, Phase::Tolerated);
                        lemma_halt_calls(s.with_phase(node, Phase::Failed), RunFault::RunnerFailure(e));
                        assert(calls_no_runner(terminal(g, s, node, RunFault::RunnerFailure(e), e).1));
                        lemma_quiet_within(g, r, commands);
                    },
                }
            } else {
                lemma_quiet_within(g, r, commands);
            }
        },
        Step::Woke { node } => {
            if 0 <= node < s.nodes.len() && s.nodes[node].phase == Phase::Sleeping {
                lemma_one_call(g, r, commands, 0, node);
            } else {
                lemma_quiet_within(g, r, commands);
            }
        },
        Step::Cancel => {
            lemma_cancel_events(crate::workflow::runner::flights(s.nodes, s.nodes.len()));
            lemma_quiet_within(g, r, commands);
        },
        Step::EmitFailed { error } => {
            lemma_halt_calls(s, RunFault::EmitFailure(error));
            lemma_quiet_within(g, r, commands);
        },
        Step::Poll => {
            lemma_quiet_within(g, r, commands);
        },
    }
}

/// Commands of which one calls a runner, within the bound of its node and
/// as the state counts it, call none beyond a bound.
proof fn lemma_one_call(g: Graph, s: RunState, commands: Seq<CommandView>, at: int, node: int)
    requires
        fits(g, s),
        0 <= at < commands.len(),
        0 <= node < s.nodes.len(),
        commands[at] == (CommandView::Invoke {
            node: node as usize,
            attempt: s.nodes[node].attempts,
        }),
        retry_of(g, node) >= 0 ==> s.nodes[node].attempts <= retry_of(g, node) + 1,
        forall|i: int| 0 <= i < commands.len() && i != at ==> !(#[trigger] commands[i] is Invoke),
    ensures
        calls_within_bound(g, s, commands),
{
    assert(g.nodes@.len() == g.nodes.len());
    assert(node as usize == node);
    assert forall|i: int| 0 <= i < commands.len() implies (#[trigger] commands[i] matches CommandView::Invoke {
        node,
        attempt,
    } ==> node < s.nodes.len() && s.nodes[node as int].attempts == attempt && (retry_of(
        g,
        node as int,
    ) >= 0 ==> attempt <= retry_of(g, node as int) + 1)) by {
        if i != at {
            assert(!(commands[i] is Invoke));
        }
    }
}

/// Commands that call no runner call none beyond a bound.
proof fn lemma_quiet_within(g: Graph, s: RunState, commands: Seq<CommandView>)
    requires
        calls_no_runner(commands),
    ensures
        calls_within_bound(g, s, commands),
{
    assert forall|i: int| 0 <= i < commands.len() implies (#[trigger] commands[i] matches CommandView::Invoke {
        node,
        attempt,
    } ==> node < s.nodes.len() && s.nodes[node as int].attempts == attempt && (retry_of(
        g,
        node as int,
    ) >= 0 ==> attempt <= retry_of(g, node as int) + 1)) by {
        assert(!(commands[i] is Invoke));
    }
}

/// Cancel events call no runner.
proof fn lemma_cancel_events(count: nat)
    ensures
        calls_no_runner(crate::workflow::runner::cancel_events(count)),
        crate::workflow::runner::cancel_events(count).len() == count,
    decreases count,
{
    if count > 0 {
        lemma_cancel_events((count - 1) as nat);
    }
}

/// A halt calls no runner.
proof fn lemma_halt_calls(s: RunState, error: RunFault)
    ensures
        calls_no_runner(halt(s, error).1),
{
    lemma_cancel_events(crate::workflow::runner::flights(s.nodes, s.nodes.len()));
}

/// How many edges lead to `b` from those of the first `a` nodes that have not
/// settled.
pub open spec fn pending_edges(rows: Seq<Seq<usize>>, nodes: Seq<NodeState>, b: int, a: nat) -> nat
    decreases a,
{
    if a == 0 || a > rows.len() || a > nodes.len() {
        0
    } else {
        pending_edges(rows, nodes, b, (a - 1) as nat) + if nodes[a - 1].phase.settled() {
            0nat
        } else {
            occurrences(rows[a - 1], b, rows[a - 1].len())
        }
    }
}

/// Every node waits for as many predecessors as edges lead to it from nodes
/// that have not settled.
pub open spec fn counted(g: Graph, s: RunState) -> bool {
    forall|b: int|
        0 <= b < s.nodes.len() ==> (#[trigger] s.nodes[b]).remaining == pending_edges(
            g.rows(),
            s.nodes,
            b,
            s.nodes.len(),
        )
}

/// Every node that has left the pending phase waits for no predecessor.
pub open spec fn joined(g: Graph, s: RunState) -> bool {
    &&& forall|b: int|
        0 <= b < s.nodes.len() && progress((#[trigger] s.nodes[b]).phase) >= 1
            ==> s.nodes[b].remaining == 0
    &&& forall|i: int|
        0 <= i < g.starts@.len() ==> s.nodes[(#[trigger] g.starts@[i]) as int].remaining == 0
}

proof fn lemma_pending_same(
    rows: Seq<Seq<usize>>,
    before: Seq<NodeState>,
    after: Seq<NodeState>,
    b: int,
    a: nat,
)
    requires
        before.len() == after.len(),
        forall|k: int|
            0 <= k < before.len() ==> before[k].phase.settled() == (#[trigger] after[k]).phase.settled(),
    ensures
        pending_edges(rows, before, b, a) == pending_edges(rows, after, b, a),
    decreases a,
{
    if a > 0 && a <= rows.len() && a <= before.len() {
        lemma_pending_same(rows, before, after, b, (a - 1) as nat);
        assert(before[a - 1].phase.settled() == after[a - 1].phase.settled());
    }
}

proof fn lemma_pending_settle(
    rows: Seq<Seq<usize>>,
    before: Seq<NodeState>,
    after: Seq<NodeState>,
    node: int,
    b: int,
    a: nat,
)
    requires
        before.len() == after.len(),
        a <= rows.len(),
        a <= before.len(),
        0 <= node < before.len(),
        !before[node].phase.settled(),
        after[node].phase.settled(),
        forall|k: int|
            0 <= k < before.len() && k != node ==> before[k].phase.settled() == (
            #[trigger] after[k]).phase.settled(),
    ensures
        pending_edges(rows, before, b, a) == pending_edges(rows, after, b, a) + if node < a {
            occurrences(rows[node], b, rows[node].len())
        } else {
            0nat
        },
    decreases a,
{
    if a > 0 {
        lemma_pending_settle(rows, before, after, node, b, (a - 1) as nat);
        if a - 1 != node {
            assert(before[a - 1].phase.settled() == after[a - 1].phase.settled());
        }
    }
}

proof fn lemma_pending_zero(rows: Seq<Seq<usize>>, nodes: Seq<NodeState>, b: int, a: nat, x: int)
    requires
        a <= rows.len(),
        a <= nodes.len(),
        pending_edges(rows, nodes, b, a) == 0,
        0 <= x < a,
        !nodes[x].phase.settled(),
    ensures
        occurrences(rows[x], b, rows[x].len()) == 0,
    decreases a,
{
    if x < a - 1 {
        lemma_pending_zero(rows, nodes, b, (a - 1) as nat, x);
    }
}

proof fn lemma_occurs(row: Seq<usize>, b: int, j: nat, i: int)
    requires
        j <= row.len(),
        0 <= i < j,
        row[i] == b,
    ensures
        occurrences(row, b, j) > 0,
    decreases j,
{
    if i < j - 1 {
        lemma_occurs(row, b, (j - 1) as nat, i);
    }
}

/// What releasing the first `j` successors of a row makes of the count of a node.
proof fn lemma_release_remaining(s: RunState, row: Seq<usize>, j: nat, b: int)
    requires
        j <= row.len(),
        forall|i: int| 0 <= i < row.len() ==> (#[trigger] row[i]) < s.nodes.len(),
        0 <= b < s.nodes.len(),
    ensures
        release(s, row, j).nodes[b].remaining == (if s.nodes[b].remaining >= occurrences(
            row,
            b,
            j,
        ) {
            s.nodes[b].remaining - occurrences(row, b, j)
        } else {
            0
        }),
    decreases j,
{
    if j > 0 {
        lemma_release_remaining(s, row, (j - 1) as nat, b);
        lemma_release_frame(s, row, (j - 1) as nat);
        let p = release(s, row, (j - 1) as nat);
        let t = row[j - 1] as int;
        assert(row[j - 1] < s.nodes.len());
        assert(release(s, row, j) == release_one(p, t));
    }
}

/// Join: where every node waits for as many predecessors as edges lead to it
/// from nodes that have not settled, a node that waits for none has every one
/// of its predecessors settled. So a node that has left the pending phase runs
/// after all the nodes from which an edge leads to it: what they have written
/// is there for it to read.
pub proof fn lemma_predecessors_settled(g: Graph, s: RunState, a: int, j: int)
    requires
        fits(g, s),
        counted(g, s),
        joined(g, s),
        0 <= a < s.nodes.len(),
        0 <= j < g.rows()[a].len(),
        progress(s.nodes[g.rows()[a][j] as int].phase) >= 1,
    ensures
        s.nodes[a].phase.settled(),
{
    let b = g.rows()[a][j] as int;
    assert(g.rows()[a][j] < g.rows().len());
    assert(s.nodes[b].remaining == 0);
    if !s.nodes[a].phase.settled() {
        lemma_pending_zero(g.rows(), s.nodes, b, s.nodes.len(), a);
        lemma_occurs(g.rows()[a], b, g.rows()[a].len(), j);
    }
}

/// Settling a node that had not settled keeps the counts right.
proof fn lemma_settle_counted(g: Graph, s: RunState, node: int, phase: Phase)
    requires
        fits(g, s),
        counted(g, s),
        joined(g, s),
        0 <= node < s.nodes.len(),
        !s.nodes[node].phase.settled(),
        progress(s.nodes[node].phase) >= 1,
        phase.settled(),
    ensures
        counted(g, settle(s, g.rows()[node], node, phase)),
        joined(g, settle(s, g.rows()[node], node, phase)),
{
    let row = g.rows()[node];
    let marked = s.with_phase(node, phase);
    let r = settle(s, row, node, phase);
    let n = s.nodes.len();
    assert forall|i: int| 0 <= i < row.len() implies (#[trigger] row[i]) < s.nodes.len() by {
        assert(g.rows()[node][i] < g.rows().len());
    }
    lemma_release_frame(marked, row, row.len());
    assert forall|b: int| 0 <= b < n implies (#[trigger] r.nodes[b]).remaining == pending_edges(
        g.rows(),
        r.nodes,
        b,
        n,
    ) by {
        lemma_release_remaining(marked, row, row.len(), b);
        lemma_pending_settle(g.rows(), s.nodes, marked.nodes, node, b, n);
        assert forall|k: int| 0 <= k < n implies marked.nodes[k].phase.settled() == (
        #[trigger] r.nodes[k]).phase.settled() by {}
        lemma_pending_same(g.rows(), marked.nodes, r.nodes, b, n);
        assert(marked.nodes[b].remaining == s.nodes[b].remaining);
    }
    assert forall|i: int| 0 <= i < g.starts@.len() implies r.nodes[(
    #[trigger] g.starts@[i]) as int].remaining == 0 by {
        let t = g.starts@[i] as int;
        assert(s.nodes[t].remaining == 0);
        assert(r.nodes[t].remaining <= marked.nodes[t].remaining);
    }
    assert forall|b: int| 0 <= b < n && progress((#[trigger] r.nodes[b]).phase) >= 1 implies r.nodes[b].remaining
        == 0 by {
        assert(r.nodes[b].remaining <= marked.nodes[b].remaining);
        if b != node {
            assert(marked.nodes[b] == s.nodes[b]);
        }
    }
}

/// A change that leaves the counts as they were, settles no node and takes
/// none out of the pending phase but nodes that wait for no predecessor, keeps
/// the counts right.
proof fn lemma_counted_kept(g: Graph, s: RunState, r: RunState)
    requires
        fits(g, s),
        counted(g, s),
        joined(g, s),
        r.nodes.len() == s.nodes.len(),
        forall|k: int|
            0 <= k < s.nodes.len() ==> {
                let before = s.nodes[k];
                let after = #[trigger] r.nodes[k];
                &&& after.remaining == before.remaining
                &&& after.phase.settled() == before.phase.settled()
                &&& (progress(after.phase) >= 1 ==> progress(before.phase) >= 1
                    || before.remaining == 0)
            },
    ensures
        counted(g, r),
        joined(g, r),
{
    assert forall|b: int| 0 <= b < s.nodes.len() implies (#[trigger] r.nodes[b]).remaining
        == pending_edges(g.rows(), r.nodes, b, s.nodes.len()) by {
        lemma_pending_same(g.rows(), s.nodes, r.nodes, b, s.nodes.len());
        assert(r.nodes[b].remaining == s.nodes[b].remaining);
    }
    assert forall|i: int| 0 <= i < g.starts@.len() implies r.nodes[(
    #[trigger] g.starts@[i]) as int].remaining == 0 by {
        let t = g.starts@[i] as int;
        assert(r.nodes[t].remaining == s.nodes[t].remaining);
    }
}

/// Whatever is reported, the counts stay right: every node waits for as many
/// predecessors as edges lead to it from nodes that have not settled, and a node
/// that has left the pending phase waits for none.
pub proof fn lemma_counts_kept(g: Graph, s: RunState, x: Step)
    requires
        fits(g, s),
        counted(g, s),
        joined(g, s),
    ensures
        counted(g, step(g, s, x).0),
        joined(g, step(g, s, x).0),
{
    let r = step(g, s, x).0;
    match x {
        Step::Begin => {
            if !s.begun {
                let first = RunState { begun: true, ..s };
                lemma_enqueue_frame(first, g.starts@, g.starts@.len());
                lemma_enqueue_roots(g, first, g.starts@.len());
                assert forall|k: int| 0 <= k < s.nodes.len() implies {
                    let before = s.nodes[k];
                    let after = #[trigger] r.nodes[k];
                    &&& after.remaining == before.remaining
                    &&& after.phase.settled() == before.phase.settled()
                    &&& (progress(after.phase) >= 1 ==> progress(before.phase) >= 1
                        || before.remaining == 0)
                } by {
                    assert(first.nodes[k] == s.nodes[k]);
                }
                lemma_counted_kept(g, s, r);
            } else {
                lemma_counted_kept(g, s, r);
            }
        },
        Step::Start { node, registered, gate } => {
            if 0 <= node < s.nodes.len() && s.nodes[node].phase == Phase::Ready {
                if s.halted() || !registered {
                    lemma_counted_kept(g, s, r);
                } else {
                    match gate {
                        Gate::Error(e) => {
                            lemma_terminal_counted(g, s, node, RunFault::ConditionEvalFailure(e), e);
                        },
                        Gate::Skip(_) => {
                            lemma_settle_counted(g, s, node, Phase::Skipped);
                        },
                        Gate::Pass => {
                            lemma_counted_kept(g, s, r);
                        },
                    }
                }
            } else {
                lemma_counted_kept(g, s, r);
            }
        },
        Step::Returned { node, outcome, elapsed } => {
            if 0 <= node < s.nodes.len() && s.nodes[node].phase == Phase::Invoking {
                match outcome {
                    Ok(_) => {
                        lemma_settle_counted(g, s, node, Phase::Succeeded);
                    },
                    Err(e) => {
                        match crate::workflow::runner::retry_decision(
                            retry_of(g, node),
                            crate::workflow::runner::delay_of(g, node),
                            crate::workflow::runner::MIN_RETRY_INTERVAL_MS,
                            s.nodes[node].attempts,
                            elapsed,
                        ) {
                            crate::workflow::runner::RetryDecision::Retry(_) => {
                                lemma_counted_kept(g, s, r);
                            },
                            crate::workflow::runner::RetryDecision::GiveUp => {
                                lemma_terminal_counted(g, s, node, RunFault::RunnerFailure(e), e);
                            },
                        }
                    },
                }
            } else {
                lemma_counted_kept(g, s, r);
            }
        },
        Step::Woke { node } => {
            lemma_counted_kept(g, s, r);
        },
        Step::Cancel => {
            lemma_counted_kept(g, s, r);
        },
        Step::EmitFailed { error } => {
            lemma_counted_kept(g, s, r);
        },
        Step::Poll => {
            lemma_counted_kept(g, s, r);
        },
    }
}

/// A root that is made ready is a root.
proof fn lemma_enqueue_roots(g: Graph, s: RunState, j: nat)
    requires
        fits(g, s),
        j <= g.starts@.len(),
    ensures
        forall|k: int|
            0 <= k < s.nodes.len() && s.nodes[k].phase != (#[trigger] enqueue(
                s,
                g.starts@,
                j,
            ).nodes[k]).phase ==> exists|i: int| 0 <= i < j && g.starts@[i] == k,
    decreases j,
{
    if j > 0 {
        lemma_enqueue_roots(g, s, (j - 1) as nat);
        lemma_enqueue_frame(s, g.starts@, (j - 1) as nat);
        let p = enqueue(s, g.starts@, (j - 1) as nat);
        let t = g.starts@[j - 1] as int;
        assert(g.starts@[j - 1] < g.nodes@.len());
        let r = enqueue(s, g.starts@, j);
        assert forall|k: int|
            0 <= k < s.nodes.len() && s.nodes[k].phase != (#[trigger] r.nodes[k]).phase implies exists|
            i: int,
        | 0 <= i < j && g.starts@[i] == k by {
            if k == t {
                assert(g.starts@[j - 1] == k);
            } else {
                assert(r.nodes[k] == p.nodes[k]);
                assert(s.nodes[k].phase != p.nodes[k].phase);
                let i = choose|i: int| 0 <= i < j - 1 && g.starts@[i] == k;
                assert(g.starts@[i] == k);
            }
        }
    }
}

/// The failure of a node whose runner may be at work keeps the counts right.
proof fn lemma_terminal_counted(g: Graph, s: RunState, node: int, error: RunFault, message: Seq<char>)
    requires
        fits(g, s),
        counted(g, s),
        joined(g, s),
        0 <= node < s.nodes.len(),
        s.nodes[node].phase == Phase::Ready || s.nodes[node].phase == Phase::Invoking,
    ensures
        counted(g, terminal(g, s, node, error, message).0),
        joined(g, terminal(g, s, node, error, message).0),
{
    let r = terminal(g, s, node, error, message).0;
    if crate::workflow::runner::err_return_of(g, node) {
        lemma_counted_kept(g, s, r);
    } else {
        lemma_settle_counted(g, s, node, Phase::Tolerated);
    }
}

proof fn lemma_pending_all(rows: Seq<Seq<usize>>, nodes: Seq<NodeState>, b: int, a: nat)
    requires
        a <= rows.len(),
        a <= nodes.len(),
        forall|k: int| 0 <= k < nodes.len() ==> !(#[trigger] nodes[k]).phase.settled(),
    ensures
        pending_edges(rows, nodes, b, a) == incoming(rows, b, a),
    decreases a,
{
    if a > 0 {
        lemma_pending_all(rows, nodes, b, (a - 1) as nat);
        assert(!nodes[a - 1].phase.settled());
    }
}

/// A run in which every node is pending, has had no attempt and waits for as
/// many predecessors as its graph node says, is one of which all that the laws
/// of this module ask for holds at its start.
pub proof fn lemma_fresh_run(g: Graph, s: RunState)
    requires
        g.wf(),
        s.nodes.len() == g.nodes@.len(),
        !s.begun,
        forall|i: int|
            0 <= i < s.nodes.len() ==> (#[trigger] s.nodes[i]) == (NodeState {
                phase: Phase::Pending,
                remaining: g.nodes@[i].wait_count,
                attempts: 0,
            }),
    ensures
        fits(g, s),
        counted(g, s),
        joined(g, s),
        attempts_bounded(g, s),
        going(g, s),
{
    assert forall|b: int| 0 <= b < s.nodes.len() implies (#[trigger] s.nodes[b]).remaining
        == pending_edges(g.rows(), s.nodes, b, s.nodes.len()) by {
        lemma_pending_all(g.rows(), s.nodes, b, s.nodes.len());
    }
    assert forall|i: int| 0 <= i < g.starts@.len() implies s.nodes[(
    #[trigger] g.starts@[i]) as int].remaining == 0 by {
        let t = g.starts@[i] as int;
        assert(s.nodes[t].remaining == g.nodes@[t].wait_count);
    }
    assert forall|b: int|
        0 <= b < s.nodes.len() && (#[trigger] s.nodes[b]).phase == Phase::Pending implies s.nodes[b].remaining
        > 0 || incoming(g.rows(), b, s.nodes.len()) == 0 by {
        assert(s.nodes[b].remaining == g.nodes@[b].wait_count);
    }
}

/// How many of the first `i` nodes are pending.
pub open spec fn pendings(nodes: Seq<NodeState>, i: nat) -> nat
    decreases i,
{
    if i == 0 || i > nodes.len() {
        0
    } else {
        pendings(nodes, (i - 1) as nat) + if nodes[i - 1].phase == Phase::Pending {
            1nat
        } else {
            0nat
        }
    }
}

/// The work that is left to start: the nodes that are pending and those that
/// wait to be started.
pub open spec fn backlog(s: RunState) -> nat {
    pendings(s.nodes, s.nodes.len()) + s.queue.len()
}

proof fn lemma_pendings_update(nodes: Seq<NodeState>, k: int, state: NodeState, i: nat)
    requires
        0 <= k < nodes.len(),
        i <= nodes.len(),
    ensures
        pendings(nodes.update(k, state), i) == pendings(nodes, i) + (if k < i && state.phase
            == Phase::Pending {
            1int
        } else {
            0int
        }) - (if k < i && nodes[k].phase == Phase::Pending {
            1int
        } else {
            0int
        }),
    decreases i,
{
    if i > 0 {
        lemma_pendings_update(nodes, k, state, (i - 1) as nat);
    }
}

proof fn lemma_pendings_same(a: Seq<NodeState>, b: Seq<NodeState>, i: nat)
    requires
        a.len() == b.len(),
        i <= a.len(),
        forall|k: int|
            0 <= k < a.len() ==> ((#[trigger] a[k]).phase == Phase::Pending <==> b[k].phase
                == Phase::Pending),
    ensures
        pendings(a, i) == pendings(b, i),
    decreases i,
{
    if i > 0 {
        lemma_pendings_same(a, b, (i - 1) as nat);
        assert(a[i - 1].phase == Phase::Pending <==> b[i - 1].phase == Phase::Pending);
    }
}

proof fn lemma_release_backlog(s: RunState, row: Seq<usize>, j: nat)
    requires
        j <= row.len(),
        forall|i: int| 0 <= i < row.len() ==> (#[trigger] row[i]) < s.nodes.len(),
    ensures
        backlog(release(s, row, j)) == backlog(s),
    decreases j,
{
    if j > 0 {
        lemma_release_backlog(s, row, (j - 1) as nat);
        lemma_release_frame(s, row, (j - 1) as nat);
        let p = release(s, row, (j - 1) as nat);
        let t = row[j - 1] as int;
        assert(row[j - 1] < s.nodes.len());
        let r = release_one(p, t);
        lemma_pendings_update(p.nodes, t, r.nodes[t], p.nodes.len());
    }
}

/// Starting a node that has been taken from the nodes that wait adds no work.
pub proof fn lemma_start_backlog(g: Graph, s: RunState, node: int, registered: bool, gate: Gate)
    requires
        fits(g, s),
    ensures
        backlog(started(g, s, node, registered, gate).0) <= backlog(s),
{
    let r = started(g, s, node, registered, gate).0;
    if 0 <= node < s.nodes.len() && s.nodes[node].phase == Phase::Ready {
        let row = g.rows()[node];
        assert forall|i: int| 0 <= i < row.len() implies (#[trigger] row[i]) < s.nodes.len() by {
            assert(g.rows()[node][i] < g.rows().len());
        }
        if s.halted() {
            lemma_pendings_same(s.nodes, r.nodes, s.nodes.len());
        } else if !registered {
            lemma_pendings_same(s.nodes, r.nodes, s.nodes.len());
        } else {
            match gate {
                Gate::Error(e) => {
                    if crate::workflow::runner::err_return_of(g, node) {
                        lemma_pendings_same(s.nodes, r.nodes, s.nodes.len());
                    } else {
                        let marked = s.with_phase(node, Phase::Tolerated);
                        lemma_pendings_same(s.nodes, marked.nodes, s.nodes.len());
                        lemma_release_backlog(marked, row, row.len());
                    }
                },
                Gate::Skip(_) => {
                    let marked = s.with_phase(node, Phase::Skipped);
                    lemma_pendings_same(s.nodes, marked.nodes, s.nodes.len());
                    lemma_release_backlog(marked, row, row.len());
                },
                Gate::Pass => {
                    lemma_pendings_same(s.nodes, r.nodes, s.nodes.len());
                },
            }
        }
    }
}

/// What holds of a run as long as it goes on: once it has begun no root is
/// pending; a node that is pending waits for a predecessor, unless no edge leads
/// to it; and no node has failed for good or was cancelled.
pub open spec fn going(g: Graph, s: RunState) -> bool {
    s.halted() || {
        &&& s.begun ==> forall|i: int|
            0 <= i < g.starts@.len() ==> progress(
                s.nodes[(#[trigger] g.starts@[i]) as int].phase,
            ) >= 1
        &&& forall|b: int|
            0 <= b < s.nodes.len() && (#[trigger] s.nodes[b]).phase == Phase::Pending
                ==> s.nodes[b].remaining > 0 || incoming(g.rows(), b, s.nodes.len()) == 0
        &&& forall|b: int|
            0 <= b < s.nodes.len() ==> (#[trigger] s.nodes[b]).phase != Phase::Failed
                && s.nodes[b].phase != Phase::Cancelled
    }
}

proof fn lemma_release_ripe(s: RunState, row: Seq<usize>, j: nat)
    requires
        j <= row.len(),
        forall|i: int| 0 <= i < row.len() ==> (#[trigger] row[i]) < s.nodes.len(),
        !s.halted(),
    ensures
        forall|b: int|
            0 <= b < s.nodes.len() && (#[trigger] release(s, row, j).nodes[b]).phase
                == Phase::Pending && release(s, row, j).nodes[b].remaining == 0 ==> release(
                s,
                row,
                j,
            ).nodes[b] == s.nodes[b],
    decreases j,
{
    if j > 0 {
        lemma_release_ripe(s, row, (j - 1) as nat);
        lemma_release_frame(s, row, (j - 1) as nat);
        let p = release(s, row, (j - 1) as nat);
        let t = row[j - 1] as int;
        assert(row[j - 1] < s.nodes.len());
        let r = release(s, row, j);
        assert forall|b: int|
            0 <= b < s.nodes.len() && (#[trigger] r.nodes[b]).phase == Phase::Pending
                && r.nodes[b].remaining == 0 implies r.nodes[b] == s.nodes[b] by {
            if b != t {
                assert(r.nodes[b] == p.nodes[b]);
            }
        }
    }
}

/// Settling a node in a run that goes on leaves it going on.
proof fn lemma_settle_going(g: Graph, s: RunState, node: int, phase: Phase)
    requires
        fits(g, s),
        going(g, s),
        !s.halted(),
        0 <= node < s.nodes.len(),
        progress(s.nodes[node].phase) >= 1,
        phase.settled(),
    ensures
        going(g, settle(s, g.rows()[node], node, phase)),
{
    let row = g.rows()[node];
    let marked = s.with_phase(node, phase);
    let r = settle(s, row, node, phase);
    assert forall|i: int| 0 <= i < row.len() implies (#[trigger] row[i]) < s.nodes.len() by {
        assert(g.rows()[node][i] < g.rows().len());
    }
    lemma_release_frame(marked, row, row.len());
    lemma_release_ripe(marked, row, row.len());
    assert forall|b: int|
        0 <= b < r.nodes.len() && (#[trigger] r.nodes[b]).phase == Phase::Pending implies r.nodes[b].remaining
        > 0 || incoming(g.rows(), b, r.nodes.len()) == 0 by {
        if r.nodes[b].remaining == 0 {
            assert(r.nodes[b] == marked.nodes[b]);
            assert(b != node);
            assert(marked.nodes[b] == s.nodes[b]);
        }
    }
    if s.begun {
        assert forall|i: int| 0 <= i < g.starts@.len() implies progress(
            r.nodes[(#[trigger] g.starts@[i]) as int].phase,
        ) >= 1 by {
            let t = g.starts@[i] as int;
            assert(progress(s.nodes[t].phase) >= 1);
            if t != node {
                assert(marked.nodes[t] == s.nodes[t]);
            }
        }
    }
    assert forall|b: int| 0 <= b < r.nodes.len() implies (#[trigger] r.nodes[b]).phase
        != Phase::Failed && r.nodes[b].phase != Phase::Cancelled by {
        if b != node {
            assert(marked.nodes[b] == s.nodes[b]);
        }
    }
}

proof fn lemma_enqueue_all(g: Graph, s: RunState, j: nat)
    requires
        fits(g, s),
        j <= g.starts@.len(),
        !s.halted(),
    ensures
        forall|i: int|
            0 <= i < j ==> progress(
                enqueue(s, g.starts@, j).nodes[(#[trigger] g.starts@[i]) as int].phase,
            ) >= 1,
    decreases j,
{
    if j > 0 {
        lemma_enqueue_all(g, s, (j - 1) as nat);
        lemma_enqueue_frame(s, g.starts@, (j - 1) as nat);
        let p = enqueue(s, g.starts@, (j - 1) as nat);
        let t = g.starts@[j - 1] as int;
        assert(g.starts@[j - 1] < g.nodes@.len());
        let r = enqueue(s, g.starts@, j);
        assert forall|i: int| 0 <= i < j implies progress(
            r.nodes[(#[trigger] g.starts@[i]) as int].phase,
        ) >= 1 by {
            let x = g.starts@[i] as int;
            assert(g.starts@[i] < g.nodes@.len());
            if x != t {
                assert(r.nodes[x] == p.nodes[x]);
            }
        }
    }
}

/// Whatever is reported, a run that goes on is, afterwards, halted or still one
/// that goes on.
pub proof fn lemma_going_kept(g: Graph, s: RunState, x: Step)
    requires
        fits(g, s),
        joined(g, s),
        going(g, s),
    ensures
        going(g, step(g, s, x).0),
{
    let r = step(g, s, x).0;
    if s.halted() {
        lemma_halted_stays(g, s, x);
    } else {
        match x {
            Step::Begin => {
                if !s.begun {
                    let first = RunState { begun: true, ..s };
                    lemma_enqueue_frame(first, g.starts@, g.starts@.len());
                    lemma_enqueue_all(g, first, g.starts@.len());
                    lemma_enqueue_roots(g, first, g.starts@.len());
                    assert forall|b: int|
                        0 <= b < r.nodes.len() && (#[trigger] r.nodes[b]).phase
                            == Phase::Pending implies r.nodes[b].remaining > 0 || incoming(
                        g.rows(),
                        b,
                        r.nodes.len(),
                    ) == 0 by {
                        assert(first.nodes[b] == s.nodes[b]);
                    }
                    assert forall|b: int| 0 <= b < r.nodes.len() implies (
                    #[trigger] r.nodes[b]).phase != Phase::Failed && r.nodes[b].phase
                        != Phase::Cancelled by {
                        assert(first.nodes[b] == s.nodes[b]);
                    }
                }
            },
            Step::Start { node, registered, gate } => {
                if 0 <= node < s.nodes.len() && s.nodes[node].phase == Phase::Ready
                    && registered {
                    match gate {
                        Gate::Error(e) => {
                            if !crate::workflow::runner::err_return_of(g, node) {
                                lemma_settle_going(g, s, node, Phase::Tolerated);
                            }
                        },
                        Gate::Skip(_) => {
                            lemma_settle_going(g, s, node, Phase::Skipped);
                        },
                        Gate::Pass => {
                            lemma_phase_going(g, s, r, node);
                        },
                    }
                }
            },
            Step::Returned { node, outcome, elapsed } => {
                if 0 <= node < s.nodes.len() && s.nodes[node].phase == Phase::Invoking {
                    match outcome {
                        Ok(_) => {
                            lemma_settle_going(g, s, node, Phase::Succeeded);
                        },
                        Err(e) => {
                            match crate::workflow::runner::retry_decision(
                                retry_of(g, node),
                                crate::workflow::runner::delay_of(g, node),
                                crate::workflow::runner::MIN_RETRY_INTERVAL_MS,
                                s.nodes[node].attempts,
                                elapsed,
                            ) {
                                crate::workflow::runner::RetryDecision::Retry(_) => {
                                    lemma_phase_going(g, s, r, node);
                                },
                                crate::workflow::runner::RetryDecision::GiveUp => {
                                    if !crate::workflow::runner::err_return_of(g, node) {
                                        lemma_settle_going(g, s, node, Phase::Tolerated);
                                    }
                                },
                            }
                        },
                    }
                }
            },
            Step::Woke { node } => {
                if 0 <= node < s.nodes.len() && s.nodes[node].phase == Phase::Sleeping {
                    lemma_phase_going(g, s, r, node);
                }
            },
            Step::Cancel => {},
            Step::EmitFailed { error } => {},
            Step::Poll => {},
        }
    }
}

/// A run that is halted stays halted.
proof fn lemma_halted_stays(g: Graph, s: RunState, x: Step)
    requires
        fits(g, s),
        s.halted(),
    ensures
        step(g, s, x).0.halted(),
{
    match x {
        Step::Begin => {
            if !s.begun {
                lemma_enqueue_frame(RunState { begun: true, ..s }, g.starts@, g.starts@.len());
            }
        },
        Step::Start { node, registered, gate } => {},
        Step::Returned { node, outcome, elapsed } => {
            if 0 <= node < s.nodes.len() && s.nodes[node].phase == Phase::Invoking {
                lemma_settle_frame(g, s, node, Phase::Succeeded);
                lemma_settle_frame(g, s, node, Phase::Tolerated);
            }
        },
        Step::Woke { node } => {},
        Step::Cancel => {},
        Step::EmitFailed { error } => {},
        Step::Poll => {},
    }
}

/// A node whose runner is at work, or is about to be, changing between such
/// phases leaves a run going on.
proof fn lemma_phase_going(g: Graph, s: RunState, r: RunState, node: int)
    requires
        fits(g, s),
        going(g, s),
        !s.halted(),
        0 <= node < s.nodes.len(),
        progress(s.nodes[node].phase) >= 1,
        r.nodes.len() == s.nodes.len(),
        r.cancelled == s.cancelled,
        r.failure == s.failure,
        r.begun == s.begun,
        progress(r.nodes[node].phase) == 2,
        forall|b: int| 0 <= b < s.nodes.len() && b != node ==> r.nodes[b] == s.nodes[b],
    ensures
        going(g, r),
{
    if s.begun {
        assert forall|i: int| 0 <= i < g.starts@.len() implies progress(
            r.nodes[(#[trigger] g.starts@[i]) as int].phase,
        ) >= 1 by {
            let t = g.starts@[i] as int;
            assert(progress(s.nodes[t].phase) >= 1);
        }
    }
}

proof fn lemma_arg_max(rank: Seq<int>, wanted: spec_fn(int) -> bool, k: nat)
    requires
        k <= rank.len(),
        exists|x: int| 0 <= x < k && #[trigger] wanted(x),
    ensures
        exists|m: int|
            0 <= m < k && #[trigger] wanted(m) && forall|x: int|
                0 <= x < k && #[trigger] wanted(x) ==> rank[x] <= rank[m],
    decreases k,
{
    let last = k - 1;
    if exists|x: int| 0 <= x < last && #[trigger] wanted(x) {
        lemma_arg_max(rank, wanted, last as nat);
        let m0 = choose|m: int|
            0 <= m < last && #[trigger] wanted(m) && forall|x: int|
                0 <= x < last && #[trigger] wanted(x) ==> rank[x] <= rank[m];
        let m = if wanted(last) && rank[last] > rank[m0] {
            last
        } else {
            m0
        };
        assert(0 <= m < k && wanted(m) && forall|x: int|
            0 <= x < k && #[trigger] wanted(x) ==> rank[x] <= rank[m]);
    } else {
        let x0 = choose|x: int| 0 <= x < k && #[trigger] wanted(x);
        assert(x0 == last);
        assert(0 <= last < k && wanted(last) && forall|x: int|
            0 <= x < k && #[trigger] wanted(x) ==> rank[x] <= rank[last]);
    }
}

proof fn lemma_occurrence_found(row: Seq<usize>, b: int, j: nat)
    requires
        j <= row.len(),
        occurrences(row, b, j) > 0,
    ensures
        exists|i: int| 0 <= i < j && #[trigger] row[i] == b,
    decreases j,
{
    if row[j - 1] != b {
        lemma_occurrence_found(row, b, (j - 1) as nat);
        let i = choose|i: int| 0 <= i < j - 1 && #[trigger] row[i] == b;
        assert(row[i] == b);
    }
}

proof fn lemma_pending_found(rows: Seq<Seq<usize>>, nodes: Seq<NodeState>, b: int, a: nat)
    requires
        a <= rows.len(),
        a <= nodes.len(),
        pending_edges(rows, nodes, b, a) > 0,
    ensures
        exists|x: int, i: int|
            0 <= x < a && !nodes[x].phase.settled() && 0 <= i < rows[x].len()
                && #[trigger] rows[x][i] == b,
    decreases a,
{
    let x = a - 1;
    if !nodes[x].phase.settled() && occurrences(rows[x], b, rows[x].len()) > 0 {
        lemma_occurrence_found(rows[x], b, rows[x].len());
        let i = choose|i: int| 0 <= i < rows[x].len() && #[trigger] rows[x][i] == b;
        assert(0 <= x < a && !nodes[x].phase.settled() && 0 <= i < rows[x].len() && rows[x][i]
            == b);
    } else {
        lemma_pending_found(rows, nodes, b, (a - 1) as nat);
        let (y, i) = choose|y: int, i: int|
            0 <= y < a - 1 && !nodes[y].phase.settled() && 0 <= i < rows[y].len()
                && #[trigger] rows[y][i] == b;
        assert(0 <= y < a && !nodes[y].phase.settled() && 0 <= i < rows[y].len() && rows[y][i]
            == b);
    }
}

proof fn lemma_edge_incoming(rows: Seq<Seq<usize>>, u: int, i: int, a: nat)
    requires
        a <= rows.len(),
        0 <= u < a,
        0 <= i < rows[u].len(),
    ensures
        incoming(rows, rows[u][i] as int, a) > 0,
    decreases a,
{
    if u < a - 1 {
        lemma_edge_incoming(rows, u, i, (a - 1) as nat);
    } else {
        lemma_occurs(rows[u], rows[u][i] as int, rows[u].len(), i);
    }
}

/// Exactly once: in a run that has begun, was neither cancelled nor has failed,
/// and in which no node is in flight any more, every node that a root reaches
/// has settled: its runner has run to its end, or the node was skipped. With
/// [`lemma_no_way_back`] and [`lemma_predecessors_settled`] this says that every
/// such node was started once, after all the nodes that lead to it.
pub proof fn lemma_all_reached_settled(g: Graph, s: RunState, v: int)
    requires
        g.wf(),
        fits(g, s),
        counted(g, s),
        going(g, s),
        s.begun,
        !s.halted(),
        s.quiescent(),
        reaches(g.rows(), g.roots(), v),
    ensures
        0 <= v < s.nodes.len(),
        s.nodes[v].phase.settled(),
{
    let n = s.nodes.len();
    let rows = g.rows();
    let walk = choose|p: Seq<int>|
        is_walk(rows, p) && g.roots().contains(p[0]) && #[trigger] p.last() == v;
    lemma_walk_in_range(rows, walk, walk.len() - 1);
    let stuck = |x: int| reaches(rows, g.roots(), x) && s.nodes[x].phase == Phase::Pending;
    if !s.nodes[v].phase.settled() {
        assert(!s.nodes[v].phase.in_flight());
        assert(stuck(v));
        let rank = choose|rank: Seq<int>| is_ranking(rows, rank);
        lemma_arg_max(rank, stuck, n);
        let m = choose|m: int|
            0 <= m < n && #[trigger] stuck(m) && forall|x: int|
                0 <= x < n && #[trigger] stuck(x) ==> rank[x] <= rank[m];
        let p = choose|p: Seq<int>|
            is_walk(rows, p) && g.roots().contains(p[0]) && #[trigger] p.last() == m;
        if p.len() == 1 {
            let i = choose|i: int| 0 <= i < g.starts@.len() && g.starts@[i] == m;
            assert(progress(s.nodes[g.starts@[i] as int].phase) >= 1);
        } else {
            let u = p[p.len() - 2];
            lemma_walk_in_range(rows, p, p.len() - 2);
            assert(has_edge(rows, p[p.len() - 2], p[p.len() - 2 + 1]));
            let i = choose|i: int| 0 <= i < rows[u].len() && #[trigger] rows[u][i] == m;
            lemma_edge_incoming(rows, u, i, n);
            assert(s.nodes[m].remaining > 0);
            lemma_pending_found(rows, s.nodes, m, n);
            let (a, k) = choose|a: int, k: int|
                0 <= a < n && !s.nodes[a].phase.settled() && 0 <= k < rows[a].len()
                    && #[trigger] rows[a][k] == m;
            assert(!s.nodes[a].phase.in_flight());
            assert(s.nodes[a].phase == Phase::Pending);
            assert(rows[a].len() > 0);
            assert(reaches(rows, g.roots(), a));
            assert(stuck(a));
            assert(rank[rows[a][k] as int] < rank[a]);
        }
    }
}

proof fn lemma_walk_in_range(rows: Seq<Seq<usize>>, p: Seq<int>, i: int)
    requires
        adjacency_wf(rows),
        is_walk(rows, p),
        0 <= i < p.len(),
    ensures
        0 <= p[i] < rows.len(),
    decreases i,
{
    if i > 0 {
        lemma_walk_in_range(rows, p, i - 1);
        assert(has_edge(rows, p[i - 1], p[i - 1 + 1]));
        let j = choose|j: int| 0 <= j < rows[p[i - 1]].len() && #[trigger] rows[p[i - 1]][j] == p[i];
        assert(rows[p[i - 1]][j] < rows.len());
    }
}

/// All that holds of the state of every run: the state fits its graph; every
/// node waits for as many predecessors as edges lead to it from nodes that have
/// not settled, and for none once it has left the pending phase; no runner was
/// called more often than the retry count of its node allows; the run is halted
/// or goes on; and in a run that was cancelled no node is in flight.
pub open spec fn sound(g: Graph, s: RunState) -> bool {
    &&& fits(g, s)
    &&& counted(g, s)
    &&& joined(g, s)
    &&& attempts_bounded(g, s)
    &&& going(g, s)
    &&& s.cancelled ==> s.quiescent()
}

/// Whatever is reported, the state of a run stays sound.
pub proof fn lemma_sound_kept(g: Graph, s: RunState, x: Step)
    requires
        sound(g, s),
    ensures
        sound(g, step(g, s, x).0),
{
    lemma_no_way_back(g, s, x);
    lemma_counts_kept(g, s, x);
    lemma_attempts_bounded(g, s, x);
    lemma_going_kept(g, s, x);
    if s.cancelled {
        lemma_cancelled_calls_no_runner(g, s, x);
    } else {
        match x {
            Step::Begin => {
                if !s.begun {
                    lemma_enqueue_frame(RunState { begun: true, ..s }, g.starts@, g.starts@.len());
                }
            },
            Step::Start { node, registered, gate } => {
                if 0 <= node < s.nodes.len() {
                    lemma_settle_frame(g, s, node, Phase::Skipped);
                    lemma_settle_frame(g, s, node, Phase::Tolerated);
                }
            },
            Step::Returned { node, outcome, elapsed } => {
                if 0 <= node < s.nodes.len() {
                    lemma_settle_frame(g, s, node, Phase::Succeeded);
                    lemma_settle_frame(g, s, node, Phase::Tolerated);
                }
            },
            Step::Woke { node } => {},
            Step::Cancel => {
                lemma_cancel_quiesces(s);
            },
            Step::EmitFailed { error } => {},
            Step::Poll => {},
        }
    }
}

/// Whether siblings are cancelled on a failure is no matter to soundness.
pub proof fn lemma_sound_siblings(g: Graph, s: RunState, cancel_siblings: bool)
    requires
        sound(g, s),
    ensures
        sound(g, RunState { cancel_siblings, ..s }),
{
    let r = RunState { cancel_siblings, ..s };
    assert forall|b: int| 0 <= b < r.nodes.len() implies (#[trigger] r.nodes[b]).remaining
        == pending_edges(g.rows(), r.nodes, b, r.nodes.len()) by {
        assert(s.nodes[b].remaining == pending_edges(g.rows(), s.nodes, b, s.nodes.len()));
    }
}

/// Soundness speaks of the nodes, of whether the run has begun and of why it
/// has halted, and of nothing else.
pub proof fn lemma_sound_same(g: Graph, s: RunState, r: RunState)
    requires
        sound(g, s),
        r.nodes == s.nodes,
        r.cancelled == s.cancelled,
        r.failure == s.failure,
        r.begun == s.begun,
    ensures
        sound(g, r),
{
}

} // verus!
