//! One call for a host: take in what has happened, start every node that has
//! become ready, and look whether the run has come to its end.

use vstd::prelude::*;
use crate::context::Context;
use crate::json::JsonValue;
use crate::register::bus::NodeRegisterBus;
use crate::types::conditions::ConditionResult;
use crate::json::JsonView;
use crate::types::conditions::{check_view, verdict, Verdict};
use crate::workflow::graph::Graph;
use crate::workflow::search::reaches;
use crate::workflow::laws::{
    backlog, calls_no_runner, fits, lemma_cancel_quiesces, lemma_cancelled_calls_no_runner,
    lemma_all_reached_settled, lemma_no_way_back, lemma_sound_kept, lemma_sound_same, lemma_start_backlog, no_way_back,
    sound, step, Step,
};
use crate::workflow::runner::{
    command_views, ended_view, gate_of, outcome_of, outcome_view, polled, started, Command,
    CommandView, Gate, RunError, RunFault, RunState, WorkflowRunner,
};

verus! {

/// Something that a host reports.
#[derive(Debug)]
pub enum Signal {
    /// The run is to begin.
    Begin,
    /// The runner of a node has returned, `elapsed` milliseconds after it was
    /// called.
    Returned { node: usize, outcome: Result<Option<JsonValue>, String>, elapsed: u64 },
    /// The pause of a node is over.
    Woke { node: usize },
    /// The run is to be cancelled.
    Cancel,
    /// An event of the workflow itself could not be published.
    EmitFailed { error: String },
}

/// The step that a signal stands for.
pub open spec fn step_of(signal: Signal) -> Step {
    match signal {
        Signal::Begin => Step::Begin,
        Signal::Returned { node, outcome, elapsed } => Step::Returned {
            node: node as int,
            outcome: outcome_view(outcome),
            elapsed,
        },
        Signal::Woke { node } => Step::Woke { node: node as int },
        Signal::Cancel => Step::Cancel,
        Signal::EmitFailed { error } => Step::EmitFailed { error: error@ },
    }
}

proof fn lemma_no_way_back_chain(
    a: crate::workflow::runner::RunState,
    b: crate::workflow::runner::RunState,
    c: crate::workflow::runner::RunState,
)
    requires
        no_way_back(a, b),
        no_way_back(b, c),
    ensures
        no_way_back(a, c),
{
    assert forall|k: int| 0 <= k < a.nodes.len() implies crate::workflow::laws::progress(
        a.nodes[k].phase,
    ) <= crate::workflow::laws::progress((#[trigger] c.nodes[k]).phase) by {
        assert(crate::workflow::laws::progress(a.nodes[k].phase)
            <= crate::workflow::laws::progress(b.nodes[k].phase));
    }
    assert forall|k: int|
        0 <= k < a.nodes.len() && crate::workflow::laws::progress(a.nodes[k].phase)
            == 3 implies (#[trigger] c.nodes[k]).phase == a.nodes[k].phase by {
        assert(b.nodes[k].phase == a.nodes[k].phase);
    }
}

/// What a verdict on the conditions of a node says of it.
pub open spec fn gate_of_verdict(v: Result<Verdict, Seq<char>>) -> Gate {
    match v {
        Ok(v) => if v.pass {
            Gate::Pass
        } else {
            Gate::Skip(v.reason)
        },
        Err(e) => Gate::Error(e),
    }
}

/// What the conditions of node `node` say of it against a store; a node
/// without conditions may run.
pub open spec fn gate_for(g: Graph, node: int, store: Map<Seq<char>, JsonView>) -> Gate {
    match g.nodes@[node].node_context.metadata.conditions {
        Some(c) => gate_of_verdict(verdict(c, store)),
        None => Gate::Pass,
    }
}

/// The action types for which a registry holds both a node kind and a runner
/// factory.
pub open spec fn registered<D, F>(bus: &NodeRegisterBus<D, F>) -> Set<Seq<char>> {
    Set::new(|k: Seq<char>| bus.has_node(k) && bus.has_runner(k))
}

/// The nodes that wait to be started are started, one after the other and
/// those first that have waited longest, until none waits any more: each with
/// what the registry knows of its action type and what its conditions say
/// against the store. The state at the end, and the commands in their order.
pub open spec fn drained(
    g: Graph,
    s: RunState,
    known: Set<Seq<char>>,
    store: Map<Seq<char>, JsonView>,
) -> (RunState, Seq<CommandView>)
    decreases backlog(s),
{
    if s.queue.len() == 0 || !fits(g, s) {
        (s, Seq::empty())
    } else {
        let node = s.queue[0] as int;
        let taken = RunState { queue: s.queue.drop_first(), ..s };
        let is_known = known.contains(g.nodes@[node].node_context.action_type@);
        let gate = gate_for(g, node, store);
        let (after, first) = started(g, taken, node, is_known, gate);
        proof {
            lemma_start_backlog(g, taken, node, is_known, gate);
        }
        let (end, rest) = drained(g, after, known, store);
        (end, first + rest)
    }
}

/// What follows from one report of a host: the step itself, then the start
/// of every node that has become ready, then the look for the end of the run.
/// The state at the end, the commands in their order, and how the run has ended
/// if it has.
pub open spec fn handled(
    g: Graph,
    s: RunState,
    x: Step,
    known: Set<Seq<char>>,
    store: Map<Seq<char>, JsonView>,
) -> (RunState, Seq<CommandView>, Option<Result<(), RunFault>>) {
    let (applied, first) = step(g, s, x);
    let (pumped, second) = drained(g, applied, known, store);
    let (end, third, ended) = polled(pumped);
    (end, first + second + third, ended)
}

/// No command calls a runner or says of a node that it runs.
pub open spec fn starts_nothing(commands: Seq<CommandView>) -> bool {
    forall|i: int|
        0 <= i < commands.len() ==> !(#[trigger] commands[i] is Invoke) && !(commands[i] matches CommandView::EmitNode(
            event,
        ) && event.status == "running"@)
}

/// In a run that was cancelled nothing that is reported starts a node: no
/// runner is called and no node says that it runs.
pub proof fn lemma_cancelled_starts_nothing(g: Graph, s: RunState, x: Step)
    requires
        sound(g, s),
        s.cancelled,
    ensures
        starts_nothing(step(g, s, x).1),
{
    lemma_cancelled_calls_no_runner(g, s, x);
    reveal_strlit("running");
    reveal_strlit("cancel");
    reveal_strlit("done");
    reveal_strlit("error");
    reveal_strlit("skip");
    match x {
        Step::Start { node, registered, gate } => {},
        Step::Returned { node, outcome, elapsed } => {
            if 0 <= node < s.nodes.len() {
                assert(!s.nodes[node].phase.in_flight());
            }
        },
        Step::Woke { node } => {
            if 0 <= node < s.nodes.len() {
                assert(!s.nodes[node].phase.in_flight());
            }
        },
        Step::Cancel => {
            lemma_cancel_events_quiet(crate::workflow::runner::flights(s.nodes, s.nodes.len()));
        },
        Step::EmitFailed { error } => {
            lemma_cancel_events_quiet(crate::workflow::runner::flights(s.nodes, s.nodes.len()));
        },
        _ => {},
    }
}

/// Events that say that a node was cancelled start nothing.
proof fn lemma_cancel_events_quiet(count: nat)
    ensures
        starts_nothing(crate::workflow::runner::cancel_events(count)),
        crate::workflow::runner::cancel_events(count).len() == count,
    decreases count,
{
    reveal_strlit("running");
    reveal_strlit("cancel");
    assert("cancel"@.len() == 6 && "running"@.len() == 7);
    if count > 0 {
        lemma_cancel_events_quiet((count - 1) as nat);
        let before = crate::workflow::runner::cancel_events((count - 1) as nat);
        let all = crate::workflow::runner::cancel_events(count);
        assert forall|i: int| 0 <= i < all.len() implies !(#[trigger] all[i] is Invoke) && !(all[i] matches CommandView::EmitNode(
            event,
        ) && event.status == "running"@) by {
            if i < before.len() {
                assert(all[i] == before[i]);
            } else {
                assert(all[i] == crate::workflow::runner::cancel_event());
            }
        }
    }
}

/// What starts nothing, behind what starts nothing, starts nothing.
proof fn lemma_quiet_join(a: Seq<CommandView>, b: Seq<CommandView>)
    requires
        starts_nothing(a),
        starts_nothing(b),
    ensures
        starts_nothing(a + b),
        calls_no_runner(a + b),
{
    assert forall|i: int| 0 <= i < (a + b).len() implies !(#[trigger] (a + b)[i] is Invoke) && !((a
        + b)[i] matches CommandView::EmitNode(event) && event.status == "running"@) by {
        if i < a.len() {
            assert((a + b)[i] == a[i]);
        } else {
            assert((a + b)[i] == b[i - a.len()]);
        }
    }
}

/// The start of the nodes that wait keeps what holds of every run: the state
/// stays sound, no node goes back, and no node waits to be started afterwards.
/// In a run that was cancelled it starts nothing, and the run stays cancelled.
pub proof fn lemma_drained(
    g: Graph,
    s: RunState,
    known: Set<Seq<char>>,
    store: Map<Seq<char>, JsonView>,
)
    requires
        sound(g, s),
    ensures
        sound(g, drained(g, s, known, store).0),
        no_way_back(s, drained(g, s, known, store).0),
        drained(g, s, known, store).0.queue.len() == 0,
        s.cancelled ==> drained(g, s, known, store).0.cancelled && starts_nothing(
            drained(g, s, known, store).1,
        ),
    decreases backlog(s),
{
    if s.queue.len() > 0 {
        let node = s.queue[0] as int;
        let taken = RunState { queue: s.queue.drop_first(), ..s };
        let is_known = known.contains(g.nodes@[node].node_context.action_type@);
        let gate = gate_for(g, node, store);
        let x = Step::Start { node, registered: is_known, gate };
        let (after, first) = started(g, taken, node, is_known, gate);
        lemma_sound_same(g, s, taken);
        lemma_start_backlog(g, taken, node, is_known, gate);
        lemma_sound_kept(g, taken, x);
        lemma_no_way_back(g, taken, x);
        assert(step(g, taken, x) == (after, first));
        lemma_drained(g, after, known, store);
        let (end, rest) = drained(g, after, known, store);
        assert(no_way_back(s, taken));
        lemma_no_way_back_chain(s, taken, after);
        lemma_no_way_back_chain(s, after, end);
        if s.cancelled {
            lemma_cancelled_calls_no_runner(g, taken, x);
            lemma_cancelled_starts_nothing(g, taken, x);
            lemma_quiet_join(first, rest);
        }
    } else {
        assert(no_way_back(s, s));
    }
}

/// What holds of every report, whatever it is: the state stays sound, no node
/// goes back, no node waits to be started afterwards, and a run that ends is
/// finished with no node in flight. In a run that was cancelled the report
/// starts nothing, and the run stays cancelled.
pub proof fn lemma_handled(
    g: Graph,
    s: RunState,
    x: Step,
    known: Set<Seq<char>>,
    store: Map<Seq<char>, JsonView>,
)
    requires
        sound(g, s),
    ensures
        sound(g, handled(g, s, x, known, store).0),
        no_way_back(s, handled(g, s, x, known, store).0),
        handled(g, s, x, known, store).0.queue.len() == 0,
        handled(g, s, x, known, store).2 is Some ==> handled(g, s, x, known, store).0.finished
            && handled(g, s, x, known, store).0.quiescent(),
        s.cancelled ==> handled(g, s, x, known, store).0.cancelled && starts_nothing(
            handled(g, s, x, known, store).1,
        ),
{
    let (applied, first) = step(g, s, x);
    lemma_sound_kept(g, s, x);
    lemma_no_way_back(g, s, x);
    lemma_drained(g, applied, known, store);
    let (pumped, second) = drained(g, applied, known, store);
    let (end, third, ended) = polled(pumped);
    lemma_sound_same(g, pumped, end);
    lemma_no_way_back_chain(s, applied, pumped);
    assert(no_way_back(pumped, end));
    lemma_no_way_back_chain(s, pumped, end);
    if s.cancelled {
        lemma_cancelled_calls_no_runner(g, s, x);
        lemma_cancelled_starts_nothing(g, s, x);
        lemma_quiet_join(first, second);
        assert(starts_nothing(third)) by {
            reveal_strlit("running");
        }
        lemma_quiet_join(first + second, third);
    }
}

/// Cancellation: the report of a cancellation cancels every node in flight
/// and starts nothing. It ends a run that has begun and has not ended, in that
/// same report, and without an error where no node had failed before: a
/// cancellation is never an error of its own.
pub proof fn lemma_cancel_ends(
    g: Graph,
    s: RunState,
    known: Set<Seq<char>>,
    store: Map<Seq<char>, JsonView>,
)
    requires
        sound(g, s),
    ensures
        handled(g, s, Step::Cancel, known, store).0.cancelled,
        handled(g, s, Step::Cancel, known, store).0.quiescent(),
        starts_nothing(handled(g, s, Step::Cancel, known, store).1),
        s.begun && !s.finished ==> handled(g, s, Step::Cancel, known, store).2 == Some(
            outcome_of(s),
        ),
        s.failure is None ==> !(handled(g, s, Step::Cancel, known, store).2 matches Some(Err(_))),
{
    let (applied, first) = step(g, s, Step::Cancel);
    lemma_cancel_quiesces(s);
    lemma_sound_kept(g, s, Step::Cancel);
    assert(drained(g, applied, known, store) == (applied, Seq::<CommandView>::empty()));
    lemma_cancel_events_quiet(crate::workflow::runner::flights(s.nodes, s.nodes.len()));
    let (end, third, ended) = polled(applied);
    assert(starts_nothing(third)) by {
        reveal_strlit("running");
    }
    lemma_quiet_join(first, Seq::<CommandView>::empty());
    lemma_quiet_join(first + Seq::<CommandView>::empty(), third);
}

/// Exactly once: where a report ends a run that was not cancelled, and ends it
/// without an error, every node that a root reaches has settled: its runner
/// has run to its end, or the node was skipped. No node goes back
/// ([`lemma_run`]), so each such node was started once and no more.
pub proof fn lemma_ended_well(
    g: Graph,
    s: RunState,
    x: Step,
    known: Set<Seq<char>>,
    store: Map<Seq<char>, JsonView>,
    v: int,
)
    requires
        g.wf(),
        sound(g, s),
        handled(g, s, x, known, store).2 == Some(Ok::<(), RunFault>(())),
        !handled(g, s, x, known, store).0.cancelled,
        reaches(g.rows(), g.roots(), v),
    ensures
        0 <= v < handled(g, s, x, known, store).0.nodes.len(),
        handled(g, s, x, known, store).0.nodes[v].phase.settled(),
{
    lemma_handled(g, s, x, known, store);
    let end = handled(g, s, x, known, store).0;
    lemma_all_reached_settled(g, end, v);
}

/// The state after a number of reports, each handled in its turn against the
/// store as it is then.
pub open spec fn after_reports(
    g: Graph,
    s: RunState,
    reports: Seq<(Step, Map<Seq<char>, JsonView>)>,
    known: Set<Seq<char>>,
) -> RunState
    decreases reports.len(),
{
    if reports.len() == 0 {
        s
    } else {
        handled(
            g,
            after_reports(g, s, reports.drop_last(), known),
            reports.last().0,
            known,
            reports.last().1,
        ).0
    }
}

/// What holds of a run as a whole, whatever is reported and in whatever order:
/// the state stays sound and no node goes back, so that no node is started a
/// second time; and once the run is cancelled it stays so, and the next report
/// starts nothing.
pub proof fn lemma_run(
    g: Graph,
    s: RunState,
    reports: Seq<(Step, Map<Seq<char>, JsonView>)>,
    known: Set<Seq<char>>,
    next: Step,
    store: Map<Seq<char>, JsonView>,
)
    requires
        sound(g, s),
    ensures
        sound(g, after_reports(g, s, reports, known)),
        no_way_back(s, after_reports(g, s, reports, known)),
        s.cancelled ==> after_reports(g, s, reports, known).cancelled && starts_nothing(
            handled(g, after_reports(g, s, reports, known), next, known, store).1,
        ),
    decreases reports.len(),
{
    if reports.len() > 0 {
        let before = after_reports(g, s, reports.drop_last(), known);
        lemma_run(g, s, reports.drop_last(), known, reports.last().0, reports.last().1);
        lemma_handled(g, before, reports.last().0, known, reports.last().1);
        lemma_no_way_back_chain(s, before, after_reports(g, s, reports, known));
    } else {
        assert(no_way_back(s, s));
    }
    lemma_handled(g, after_reports(g, s, reports, known), next, known, store);
}

/// Commands that call no runner, behind commands that call none, call none.
proof fn lemma_quiet_append(a: Seq<Command>, b: Seq<Command>)
    requires
        calls_no_runner(command_views(a)),
        calls_no_runner(command_views(b)),
    ensures
        calls_no_runner(command_views(a + b)),
{
    let joined = command_views(a + b);
    assert forall|i: int| 0 <= i < joined.len() implies !(#[trigger] joined[i] is Invoke) by {
        if i < a.len() {
            assert(joined[i] == command_views(a)[i]);
        } else {
            assert(joined[i] == command_views(b)[i - a.len()]);
        }
    }
}

/// Starts every node that waits to be started, and those that become ready
/// meanwhile because a node before them was skipped: each has its kind looked up
/// in the registry and its conditions checked against the context. The commands
/// are appended to `commands`.
pub fn pump<D, F>(
    runner: &mut WorkflowRunner,
    ctx: &Context,
    bus: &NodeRegisterBus<D, F>,
    commands: &mut Vec<Command>,
)
    requires
        old(runner).inv(),
    ensures
        final(runner).inv(),
        final(runner).graph() == old(runner).graph(),
        final(runner)@.queue.len() == 0,
        no_way_back(old(runner)@, final(runner)@),
        final(commands)@.len() >= old(commands)@.len(),
        old(runner)@.cancelled ==> final(runner)@.cancelled,
        old(runner)@.cancelled && calls_no_runner(command_views(old(commands)@))
            ==> calls_no_runner(command_views(final(commands)@)),
        final(runner)@ == drained(
            old(runner).graph(),
            old(runner)@,
            registered(bus),
            ctx.store(),
        ).0,
        command_views(final(commands)@) == command_views(old(commands)@) + drained(
            old(runner).graph(),
            old(runner)@,
            registered(bus),
            ctx.store(),
        ).1,
{
    let ghost target = drained(runner.graph(), runner@, registered(bus), ctx.store());
    proof {
        runner.lemma_inv();
        assert(command_views(commands@) + target.1 == command_views(old(commands)@) + target.1);
    }
    loop
        invariant
            runner.inv(),
            target == drained(old(runner).graph(), old(runner)@, registered(bus), ctx.store()),
            drained(runner.graph(), runner@, registered(bus), ctx.store()).0 == target.0,
            command_views(commands@) + drained(
                runner.graph(),
                runner@,
                registered(bus),
                ctx.store(),
            ).1 == command_views(old(commands)@) + target.1,
            runner.graph() == old(runner).graph(),
            no_way_back(old(runner)@, runner@),
            commands@.len() >= old(commands)@.len(),
            old(runner)@.cancelled ==> runner@.cancelled,
            old(runner)@.cancelled && calls_no_runner(command_views(old(commands)@))
                ==> calls_no_runner(command_views(commands@)),
        ensures
            runner.inv(),
            runner.graph() == old(runner).graph(),
            runner@.queue.len() == 0,
            no_way_back(old(runner)@, runner@),
            commands@.len() >= old(commands)@.len(),
            old(runner)@.cancelled ==> runner@.cancelled,
            old(runner)@.cancelled && calls_no_runner(command_views(old(commands)@))
                ==> calls_no_runner(command_views(commands@)),
            runner@ == target.0,
            command_views(commands@) == command_views(old(commands)@) + target.1,
        decreases backlog(runner@),
    {
        let ghost g = runner.graph();
        let ghost before = runner@;
        let ghost views_before = command_views(commands@);
        let node = match runner.take_ready() {
            Some(node) => node,
            None => {
                proof {
                    assert(views_before + Seq::<CommandView>::empty() == views_before);
                }
                break ;
            },
        };
        let ghost taken = runner@;
        proof {
            runner.lemma_inv();
            assert(taken.nodes == before.nodes);
            assert(backlog(taken) + 1 == backlog(before));
        }
        let schema = &runner.get_graph().nodes[node].node_context;
        let is_known = bus.is_registered(schema.action_type.as_str());
        let checked = match &schema.metadata.conditions {
            Some(conditions) => conditions.check(ctx),
            None => Ok(ConditionResult { pass: true, reason: None }),
        };
        proof {
            lemma_start_backlog(g, taken, node as int, is_known, gate_of(checked));
            lemma_no_way_back(
                g,
                taken,
                Step::Start { node: node as int, registered: is_known, gate: gate_of(checked) },
            );
            assert(no_way_back(before, taken));
            if taken.cancelled {
                lemma_cancelled_calls_no_runner(
                    g,
                    taken,
                    Step::Start { node: node as int, registered: is_known, gate: gate_of(checked) },
                );
            }
        }
        proof {
            runner.lemma_inv();
            assert(gate_of(checked) == gate_for(g, node as int, ctx.store()));
        }
        let mut started = runner.start_node(node, is_known, checked);
        let ghost so_far = commands@;
        let ghost first = command_views(started@);
        proof {
            lemma_no_way_back_chain(before, taken, runner@);
            lemma_no_way_back_chain(old(runner)@, before, runner@);
            if old(runner)@.cancelled && calls_no_runner(command_views(old(commands)@)) {
                lemma_quiet_append(so_far, started@);
            }
        }
        commands.append(&mut started);
        proof {
            assert(command_views(commands@) =~= views_before + first);
            let rest = drained(g, runner@, registered(bus), ctx.store()).1;
            assert(drained(g, before, registered(bus), ctx.store()).1 == first + rest);
            assert(views_before + first + rest == views_before + (first + rest));
        }
    }
}

/// Takes in a signal: applies it, starts the nodes that have become ready,
/// and looks whether the run has come to its end. Returns the commands to carry
/// out, in order, and how the run has ended if it has.
#[verifier::rlimit(50)]
#[verifier::spinoff_prover]
pub fn handle<D, F>(
    runner: &mut WorkflowRunner,
    ctx: &Context,
    bus: &NodeRegisterBus<D, F>,
    signal: Signal,
) -> (r: (Vec<Command>, Option<Result<(), RunError>>))
    requires
        old(runner).inv(),
    ensures
        final(runner).inv(),
        final(runner).graph() == old(runner).graph(),
        final(runner)@.queue.len() == 0,
        no_way_back(old(runner)@, final(runner)@),
        r.1 is Some ==> final(runner)@.finished && final(runner)@.quiescent(),
        old(runner)@.cancelled ==> final(runner)@.cancelled && calls_no_runner(
            command_views(r.0@),
        ),
        final(runner)@ == handled(
            old(runner).graph(),
            old(runner)@,
            step_of(signal),
            registered(bus),
            ctx.store(),
        ).0,
        command_views(r.0@) == handled(
            old(runner).graph(),
            old(runner)@,
            step_of(signal),
            registered(bus),
            ctx.store(),
        ).1,
        ended_view(r.1) == handled(
            old(runner).graph(),
            old(runner)@,
            step_of(signal),
            registered(bus),
            ctx.store(),
        ).2,
{
    let ghost g = runner.graph();
    let ghost first = runner@;
    proof {
        runner.lemma_inv();
        if first.cancelled {
            lemma_cancelled_calls_no_runner(g, first, step_of(signal));
        }
    }
    let mut commands = match signal {
        Signal::Begin => {
            proof {
                lemma_no_way_back(g, first, Step::Begin);
            }
            runner.begin()
        },
        Signal::Returned { node, outcome, elapsed } => {
            proof {
                lemma_no_way_back(
                    g,
                    first,
                    Step::Returned { node: node as int, outcome: outcome_view(outcome), elapsed },
                );
            }
            runner.on_returned(node, outcome, elapsed)
        },
        Signal::Woke { node } => {
            proof {
                lemma_no_way_back(g, first, Step::Woke { node: node as int });
            }
            runner.on_woke(node)
        },
        Signal::Cancel => {
            proof {
                lemma_no_way_back(g, first, Step::Cancel);
            }
            runner.cancel()
        },
        Signal::EmitFailed { error } => {
            proof {
                lemma_no_way_back(g, first, Step::EmitFailed { error: error@ });
            }
            runner.on_emit_failed(error)
        },
    };
    let ghost applied = runner@;
    pump(runner, ctx, bus, &mut commands);
    let ghost pumped = runner@;
    proof {
        lemma_no_way_back_chain(first, applied, pumped);
        runner.lemma_inv();
    }
    let ghost views_pumped = command_views(commands@);
    let (mut tail, ended) = runner.poll();
    let ghost so_far = commands@;
    let ghost third = command_views(tail@);
    proof {
        assert(no_way_back(pumped, runner@));
        lemma_no_way_back_chain(first, pumped, runner@);
        if first.cancelled {
            lemma_cancelled_calls_no_runner(g, pumped, Step::Poll);
            lemma_quiet_append(so_far, tail@);
        }
    }
    commands.append(&mut tail);
    proof {
        assert(command_views(commands@) =~= views_pumped + third);
    }
    (commands, ended)
}

} // verus!
