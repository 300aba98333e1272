//! The scheduler as a state machine. It decides; a host performs: the host
//! hands in what has happened and gets back the commands to carry out next.
//!
//! A node runs once all nodes that lead to it have settled. A node that was
//! skipped, or that failed where its `err_return` is off, settles like one that
//! succeeded. After a cancellation or a failure no node is started any more.

use vstd::prelude::*;
use crate::event::node::{NodeEventPayload, NodeEventView};
use crate::event::workflow::{WorkflowEventPayload, WorkflowStatus};
use crate::json::{JsonValue, JsonView};
use crate::schema::workflow::WorkflowSchema;
use crate::types::conditions::ConditionResult;
use crate::workflow::builder::{built_from, fault_fits, BuildError, Builder};
use crate::workflow::graph::Graph;
use crate::workflow::laws::{lemma_fresh_run, lemma_sound_kept, lemma_sound_siblings, sound, Step};

verus! {

/// Least time between two attempts of a node that is retried without end.
pub const MIN_RETRY_INTERVAL_MS: u64 = 200;

/// Where a node stands in a run.
#[derive(Clone, Copy, Debug, PartialEq, Eq, Structural)]
pub enum Phase {
    /// Waiting for predecessors.
    Pending,
    /// All predecessors have settled; waiting to be started.
    Ready,
    /// Its runner has been called and has not returned.
    Invoking,
    /// Waiting between two attempts.
    Sleeping,
    Succeeded,
    /// Its conditions did not hold.
    Skipped,
    /// It failed, and its `err_return` is off.
    Tolerated,
    /// It failed for good.
    Failed,
    Cancelled,
}

impl Phase {
    /// The node is done and its successors may count it.
    pub open spec fn settled(self) -> bool {
        self == Phase::Succeeded || self == Phase::Skipped || self == Phase::Tolerated
    }

    /// The node has a task that is not done.
    pub open spec fn in_flight(self) -> bool {
        self == Phase::Ready || self == Phase::Invoking || self == Phase::Sleeping
    }

    /// Whether the node has a task that is not done.
    pub fn is_in_flight(self) -> (r: bool)
        ensures
            r == self.in_flight(),
    {
        match self {
            Phase::Ready | Phase::Invoking | Phase::Sleeping => true,
            _ => false,
        }
    }
}

/// The state of one node in a run.
#[derive(Clone, Copy, Debug)]
pub struct NodeState {
    pub phase: Phase,
    /// How many predecessors have yet to settle.
    pub remaining: usize,
    /// How often the runner has been called.
    pub attempts: u64,
}

/// Why a run failed.
#[derive(Debug)]
pub enum RunError {
    /// No node kind, or no runner, is registered for this action type.
    UnknownAction(String),
    RunnerFailure(String),
    ConditionEvalFailure(String),
    EmitFailure(String),
}

/// The mathematical value of a [`RunError`].
pub enum RunFault {
    UnknownAction(Seq<char>),
    RunnerFailure(Seq<char>),
    ConditionEvalFailure(Seq<char>),
    EmitFailure(Seq<char>),
}

impl View for RunError {
    type V = RunFault;

    open spec fn view(&self) -> RunFault {
        match self {
            RunError::UnknownAction(s) => RunFault::UnknownAction(s@),
            RunError::RunnerFailure(s) => RunFault::RunnerFailure(s@),
            RunError::ConditionEvalFailure(s) => RunFault::ConditionEvalFailure(s@),
            RunError::EmitFailure(s) => RunFault::EmitFailure(s@),
        }
    }
}

impl RunError {
    /// A copy of the error.
    pub fn duplicate(&self) -> (r: RunError)
        ensures
            r@ == self@,
    {
        match self {
            RunError::UnknownAction(s) => RunError::UnknownAction(s.clone()),
            RunError::RunnerFailure(s) => RunError::RunnerFailure(s.clone()),
            RunError::ConditionEvalFailure(s) => RunError::ConditionEvalFailure(s.clone()),
            RunError::EmitFailure(s) => RunError::EmitFailure(s.clone()),
        }
    }

    /// The error as a sentence.
    pub fn message(&self) -> (r: String)
        ensures
            r@ == match self@ {
                RunFault::UnknownAction(s) => "Can't find node : "@ + s,
                RunFault::RunnerFailure(s) => s,
                RunFault::ConditionEvalFailure(s) => "condition check failed: "@ + s,
                RunFault::EmitFailure(s) => "failed to emit event: "@ + s,
            },
    {
        let mut r = String::new();
        match self {
            RunError::UnknownAction(s) => {
                r.push_str("Can't find node : ");
                r.push_str(s.as_str());
            },
            RunError::RunnerFailure(s) => {
                r.push_str(s.as_str());
            },
            RunError::ConditionEvalFailure(s) => {
                r.push_str("condition check failed: ");
                r.push_str(s.as_str());
            },
            RunError::EmitFailure(s) => {
                r.push_str("failed to emit event: ");
                r.push_str(s.as_str());
            },
        }
        assert(r@ =~= match self@ {
            RunFault::UnknownAction(s) => "Can't find node : "@ + s,
            RunFault::RunnerFailure(s) => s,
            RunFault::ConditionEvalFailure(s) => "condition check failed: "@ + s,
            RunFault::EmitFailure(s) => "failed to emit event: "@ + s,
        });
        r
    }
}

/// What the host is to do.
#[derive(Debug)]
pub enum Command {
    /// Publish on the workflow channel.
    EmitWorkflow(WorkflowEventPayload),
    /// Publish on the node channel.
    EmitNode(NodeEventPayload),
    /// Call the runner of the node, then report what it returned.
    Invoke { node: usize, attempt: u64 },
    /// Wait this long, then report that the node woke.
    Sleep { node: usize, millis: u64 },
}

/// The mathematical value of a [`Command`].
pub enum CommandView {
    EmitWorkflow(WorkflowEventPayload),
    EmitNode(NodeEventView),
    Invoke { node: usize, attempt: u64 },
    Sleep { node: usize, millis: u64 },
}

impl View for Command {
    type V = CommandView;

    open spec fn view(&self) -> CommandView {
        match self {
            Command::EmitWorkflow(p) => CommandView::EmitWorkflow(*p),
            Command::EmitNode(p) => CommandView::EmitNode(p@),
            Command::Invoke { node, attempt } => CommandView::Invoke {
                node: *node,
                attempt: *attempt,
            },
            Command::Sleep { node, millis } => CommandView::Sleep { node: *node, millis: *millis },
        }
    }
}

/// The views of a list of commands.
pub open spec fn command_views(commands: Seq<Command>) -> Seq<CommandView> {
    Seq::new(commands.len(), |i: int| commands[i]@)
}

/// What to do after an attempt has failed.
#[derive(Clone, Copy, Debug, PartialEq, Eq, Structural)]
pub enum RetryDecision {
    /// Try again after this many milliseconds.
    Retry(u64),
    GiveUp,
}

/// What is left of an interval of `interval` milliseconds once `elapsed`
/// milliseconds of it have gone by.
pub open spec fn rest_of(interval: u64, elapsed: u64) -> u64 {
    if elapsed >= interval {
        0
    } else {
        (interval - elapsed) as u64
    }
}

/// What is left of an interval once `elapsed` milliseconds of it have gone by.
pub fn rest(interval: u64, elapsed: u64) -> (r: u64)
    ensures
        r == rest_of(interval, elapsed),
{
    if elapsed >= interval {
        0
    } else {
        interval - elapsed
    }
}

/// What is to follow the failure of attempt number `attempts`, which began
/// `elapsed` milliseconds ago.
pub open spec fn retry_decision(
    retry: i32,
    delay_ms: u64,
    min_interval: u64,
    attempts: u64,
    elapsed: u64,
) -> RetryDecision {
    if retry < 0 {
        RetryDecision::Retry(rest_of(min_interval, elapsed))
    } else if attempts <= retry {
        RetryDecision::Retry(delay_ms)
    } else {
        RetryDecision::GiveUp
    }
}

/// Decides what follows the failure of attempt number `attempts` (the first
/// attempt is number one), which began `elapsed` milliseconds ago. With
/// `retry` below zero the node is tried again without end, one attempt in
/// every `min_interval` milliseconds: the pause is what is left of the interval
/// since the failed attempt began, and none where the attempt took longer.
/// Else it is tried again `delay_ms` milliseconds later as long as fewer than
/// `retry + 1` attempts were made.
pub fn handle_retry(retry: i32, delay_ms: u64, min_interval: u64, attempts: u64, elapsed: u64) -> (r:
    RetryDecision)
    ensures
        r == retry_decision(retry, delay_ms, min_interval, attempts, elapsed),
{
    if retry < 0 {
        RetryDecision::Retry(rest(min_interval, elapsed))
    } else if attempts <= retry as u64 {
        RetryDecision::Retry(delay_ms)
    } else {
        RetryDecision::GiveUp
    }
}

/// Retry bound: with `retry` at zero or above, attempt number `retry + 1` is
/// the last; a failure of it is final.
pub proof fn lemma_retry_bound(
    retry: i32,
    delay_ms: u64,
    min_interval: u64,
    attempts: u64,
    elapsed: u64,
)
    requires
        retry >= 0,
    ensures
        retry_decision(retry, delay_ms, min_interval, attempts, elapsed) is Retry <==> attempts
            < retry + 1,
{
}

/// Retry without end: with `retry` below zero a failure is never final, and
/// `delay_ms` has no say. The next attempt begins `min_interval` milliseconds
/// after the failed one began, or at once where the failed one took longer: an
/// attempt that takes no longer than the interval is followed by the next
/// exactly one interval after its beginning.
pub proof fn lemma_retry_forever(
    retry: i32,
    delay_ms: u64,
    min_interval: u64,
    attempts: u64,
    elapsed: u64,
)
    requires
        retry < 0,
    ensures
        retry_decision(retry, delay_ms, min_interval, attempts, elapsed) matches RetryDecision::Retry(
            pause,
        ) && elapsed + pause == (if elapsed >= min_interval {
            elapsed as int
        } else {
            min_interval as int
        }),
{
}

/// The state of a run, as contracts speak of it.
pub struct RunState {
    /// The state of each node, by index.
    pub nodes: Seq<NodeState>,
    /// The nodes that wait to be started, first come first.
    pub queue: Seq<usize>,
    pub cancelled: bool,
    /// The first failure that ended the run.
    pub failure: Option<RunFault>,
    pub begun: bool,
    pub finished: bool,
    /// Whether a failure also cancels the nodes that are in flight.
    pub cancel_siblings: bool,
}

impl RunState {
    /// No node is started any more.
    pub open spec fn halted(self) -> bool {
        self.cancelled || self.failure is Some
    }

    /// The same state with node `node` in another phase.
    pub open spec fn with_phase(self, node: int, phase: Phase) -> RunState {
        RunState {
            nodes: self.nodes.update(
                node,
                NodeState {
                    phase,
                    remaining: self.nodes[node].remaining,
                    attempts: self.nodes[node].attempts,
                },
            ),
            ..self
        }
    }

    /// No node has a task that is not done.
    pub open spec fn quiescent(self) -> bool {
        forall|i: int| 0 <= i < self.nodes.len() ==> !(#[trigger] self.nodes[i]).phase.in_flight()
    }
}

/// One predecessor of node `t` has settled: `t` waits for one fewer, and is
/// made ready if it waits for none and the run goes on.
pub open spec fn release_one(s: RunState, t: int) -> RunState {
    let old = s.nodes[t];
    let rest: usize = if old.remaining > 0 {
        (old.remaining - 1) as usize
    } else {
        0
    };
    if rest == 0 && old.phase == Phase::Pending && !s.halted() {
        RunState {
            nodes: s.nodes.update(
                t,
                NodeState { phase: Phase::Ready, remaining: rest, attempts: old.attempts },
            ),
            queue: s.queue.push(t as usize),
            ..s
        }
    } else {
        RunState {
            nodes: s.nodes.update(
                t,
                NodeState { phase: old.phase, remaining: rest, attempts: old.attempts },
            ),
            ..s
        }
    }
}

/// The first `j` successors in `row` are released, one after the other.
pub open spec fn release(s: RunState, row: Seq<usize>, j: nat) -> RunState
    decreases j,
{
    if j == 0 || j > row.len() {
        s
    } else {
        release_one(release(s, row, (j - 1) as nat), row[j - 1] as int)
    }
}

/// Node `node` settles in `phase` and releases its successors `row`.
pub open spec fn settle(s: RunState, row: Seq<usize>, node: int, phase: Phase) -> RunState {
    release(s.with_phase(node, phase), row, row.len())
}

/// A root is made ready if it is pending and the run goes on.
pub open spec fn enqueue_one(s: RunState, t: int) -> RunState {
    if s.nodes[t].phase == Phase::Pending && !s.halted() {
        RunState { queue: s.queue.push(t as usize), ..s.with_phase(t, Phase::Ready) }
    } else {
        s
    }
}

/// The first `j` roots are made ready, one after the other.
pub open spec fn enqueue(s: RunState, starts: Seq<usize>, j: nat) -> RunState
    decreases j,
{
    if j == 0 || j > starts.len() {
        s
    } else {
        enqueue_one(enqueue(s, starts, (j - 1) as nat), starts[j - 1] as int)
    }
}

/// The phase of a node after the run was stopped: a node in flight is
/// cancelled, but one whose runner is at work only where `kill` is set.
pub open spec fn stopped_phase(p: Phase, kill: bool) -> Phase {
    if p == Phase::Ready || (kill && p.in_flight()) {
        Phase::Cancelled
    } else {
        p
    }
}

/// The state after the run was stopped.
pub open spec fn stop(s: RunState, kill: bool) -> RunState {
    RunState {
        nodes: Seq::new(
            s.nodes.len(),
            |i: int|
                NodeState {
                    phase: stopped_phase(s.nodes[i].phase, kill),
                    remaining: s.nodes[i].remaining,
                    attempts: s.nodes[i].attempts,
                },
        ),
        queue: Seq::empty(),
        ..s
    }
}

/// How many of the first `i` nodes are in flight.
pub open spec fn flights(nodes: Seq<NodeState>, i: nat) -> nat
    decreases i,
{
    if i == 0 || i > nodes.len() {
        0
    } else {
        flights(nodes, (i - 1) as nat) + if nodes[i - 1].phase.in_flight() {
            1nat
        } else {
            0nat
        }
    }
}

/// The event of a cancelled node.
pub open spec fn cancel_event() -> CommandView {
    CommandView::EmitNode(NodeEventView { status: "cancel"@, name: "*"@, result: None })
}

/// `count` cancel events.
pub open spec fn cancel_events(count: nat) -> Seq<CommandView>
    decreases count,
{
    if count == 0 {
        Seq::empty()
    } else {
        cancel_events((count - 1) as nat).push(cancel_event())
    }
}

/// A graph with the state of a run on it.
#[derive(Debug)]
pub struct WorkflowRunner {
    graph: Graph,
    states: Vec<NodeState>,
    queue: Vec<usize>,
    head: usize,
    cancelled: bool,
    failure: Option<RunError>,
    begun: bool,
    finished: bool,
    cancel_siblings: bool,
}

/// Appends a command.
fn push_command(commands: &mut Vec<Command>, c: Command)
    ensures
        command_views(final(commands)@) == command_views(old(commands)@).push(c@),
{
    commands.push(c);
    assert(command_views(commands@) =~= command_views(old(commands)@).push(c@));
}

impl View for WorkflowRunner {
    type V = RunState;

    closed spec fn view(&self) -> RunState {
        RunState {
            nodes: self.states@,
            queue: self.queue@.subrange(self.head as int, self.queue@.len() as int),
            cancelled: self.cancelled,
            failure: match self.failure {
                Some(e) => Some(e@),
                None => None,
            },
            begun: self.begun,
            finished: self.finished,
            cancel_siblings: self.cancel_siblings,
        }
    }
}

impl WorkflowRunner {
    /// The graph that is run.
    pub closed spec fn graph(&self) -> Graph {
        self.graph
    }

    /// The shape of a runner: its graph can be run, it has a state for every
    /// node, and the nodes that wait to be started are nodes.
    pub closed spec fn shape(&self) -> bool {
        &&& self.graph.wf()
        &&& self.states@.len() == self.graph.nodes@.len()
        &&& self.head <= self.queue@.len()
        &&& forall|i: int| 0 <= i < self.queue@.len() ==> (#[trigger] self.queue@[i]) < self.states@.len()
    }

    /// What holds of a runner between two calls: it has its shape, and its
    /// state is sound.
    pub closed spec fn inv(&self) -> bool {
        self.shape() && sound(self.graph, self@)
    }

    /// What holds of the state of every runner.
    pub proof fn lemma_inv(&self)
        requires
            self.inv(),
        ensures
            self.graph().wf(),
            sound(self.graph(), self@),
            self@.nodes.len() == self.graph().nodes@.len(),
            forall|i: int| 0 <= i < self@.queue.len() ==> (#[trigger] self@.queue[i]) < self@.nodes.len(),
    {
    }

    /// A runner for the workflow, with no node begun: each node is pending and
    /// waits for as many predecessors as its graph node says.
    pub fn create(workflow: WorkflowSchema) -> (r: Result<WorkflowRunner, BuildError>)
        requires
            workflow.distinct_ids(),
        ensures
            match r {
                Ok(runner) => {
                    &&& !workflow.malformed()
                    &&& runner.inv()
                    &&& built_from(runner.graph(), workflow)
                    &&& runner@.queue.len() == 0
                    &&& !runner@.cancelled && runner@.failure is None && !runner@.begun
                        && !runner@.finished && !runner@.cancel_siblings
                    &&& forall|i: int|
                        0 <= i < runner@.nodes.len() ==> (#[trigger] runner@.nodes[i])
                            == (NodeState {
                            phase: Phase::Pending,
                            remaining: runner.graph().nodes@[i].wait_count,
                            attempts: 0,
                        })
                },
                Err(e) => workflow.malformed() && fault_fits(workflow, e@),
            },
    {
        match Builder::new(workflow).build() {
            Ok(graph) => Ok(WorkflowRunner::from_graph(graph)),
            Err(e) => Err(e),
        }
    }

    /// A runner for a graph, with no node begun.
    pub fn from_graph(graph: Graph) -> (runner: WorkflowRunner)
        requires
            graph.wf(),
        ensures
            runner.inv(),
            runner.graph() == graph,
            runner@.queue.len() == 0,
            !runner@.cancelled && runner@.failure is None && !runner@.begun && !runner@.finished
                && !runner@.cancel_siblings,
            runner@.nodes.len() == graph.nodes@.len(),
            forall|i: int|
                0 <= i < runner@.nodes.len() ==> (#[trigger] runner@.nodes[i]) == (NodeState {
                    phase: Phase::Pending,
                    remaining: graph.nodes@[i].wait_count,
                    attempts: 0,
                }),
    {
        let n = graph.nodes.len();
        let mut states: Vec<NodeState> = Vec::new();
        let mut i: usize = 0;
        while i < n
            invariant
                i <= n,
                n == graph.nodes@.len(),
                states@.len() == i,
                forall|k: int|
                    0 <= k < i ==> (#[trigger] states@[k]) == (NodeState {
                        phase: Phase::Pending,
                        remaining: graph.nodes@[k].wait_count,
                        attempts: 0,
                    }),
            decreases n - i,
        {
            states.push(
                NodeState { phase: Phase::Pending, remaining: graph.nodes[i].wait_count, attempts: 0 },
            );
            i += 1;
        }
        let runner = WorkflowRunner {
            graph,
            states,
            queue: Vec::new(),
            head: 0,
            cancelled: false,
            failure: None,
            begun: false,
            finished: false,
            cancel_siblings: false,
        };
        proof {
            lemma_fresh_run(runner.graph, runner@);
        }
        runner
    }

    /// The same runner, but one in which a failure cancels the nodes in flight
    /// (`true`) or lets them come to their end (`false`).
    pub fn with_cancel_siblings(self, cancel_siblings: bool) -> (r: WorkflowRunner)
        requires
            self.inv(),
        ensures
            r.inv(),
            r.graph() == self.graph(),
            r@ == (RunState { cancel_siblings, ..self@ }),
    {
        proof {
            lemma_sound_siblings(self.graph, self@, cancel_siblings);
        }
        WorkflowRunner {
            graph: self.graph,
            states: self.states,
            queue: self.queue,
            head: self.head,
            cancelled: self.cancelled,
            failure: self.failure,
            begun: self.begun,
            finished: self.finished,
            cancel_siblings,
        }
    }

    /// The graph that is run.
    pub fn get_graph(&self) -> (g: &Graph)
        ensures
            *g == self.graph(),
    {
        &self.graph
    }

    /// The state of node `node`.
    pub fn node_state(&self, node: usize) -> (r: Option<NodeState>)
        ensures
            r == (if node < self@.nodes.len() {
                Some(self@.nodes[node as int])
            } else {
                None
            }),
    {
        if node < self.states.len() {
            Some(self.states[node])
        } else {
            None
        }
    }

    /// Whether the run was cancelled.
    pub fn is_cancelled(&self) -> (r: bool)
        ensures
            r == self@.cancelled,
    {
        self.cancelled
    }

    /// Whether no node is started any more.
    pub fn is_halted(&self) -> (r: bool)
        ensures
            r == self@.halted(),
    {
        self.cancelled || self.failure.is_some()
    }

    /// Whether no node has a task that is not done.
    pub fn is_quiescent(&self) -> (r: bool)
        ensures
            r == self@.quiescent(),
    {
        let mut i: usize = 0;
        while i < self.states.len()
            invariant
                i <= self.states@.len(),
                forall|k: int| 0 <= k < i ==> !(#[trigger] self.states@[k]).phase.in_flight(),
            decreases self.states@.len() - i,
        {
            if self.states[i].phase.is_in_flight() {
                return false;
            }
            i += 1;
        }
        true
    }
}

/// What the conditions of a node say of it.
pub enum Gate {
    /// The node may run.
    Pass,
    /// The node is skipped, for this reason.
    Skip(Option<Seq<char>>),
    /// The conditions could not be evaluated.
    Error(Seq<char>),
}

/// What a node's conditions have said of it, as a gate.
pub open spec fn gate_of(checked: Result<ConditionResult, String>) -> Gate {
    match checked {
        Ok(r) => if r.pass {
            Gate::Pass
        } else {
            Gate::Skip(
                match r.reason {
                    Some(t) => Some(t@),
                    None => None,
                },
            )
        },
        Err(e) => Gate::Error(e@),
    }
}

/// How often a failed node is tried again; below zero, without end.
pub open spec fn retry_of(g: Graph, node: int) -> i32 {
    match g.nodes@[node].node_context.metadata.retry {
        Some(r) => r,
        None => 0,
    }
}

/// Milliseconds between two attempts of a node.
pub open spec fn delay_of(g: Graph, node: int) -> u64 {
    match g.nodes@[node].node_context.metadata.duration {
        Some(d) => d as u64,
        None => 0,
    }
}

/// Whether a failure of the node ends the run.
pub open spec fn err_return_of(g: Graph, node: int) -> bool {
    match g.nodes@[node].node_context.metadata.err_return {
        Some(b) => b,
        None => true,
    }
}

/// A node event as a command.
pub open spec fn node_event(status: Seq<char>, name: Seq<char>, result: Option<JsonView>) -> CommandView {
    CommandView::EmitNode(NodeEventView { status, name, result })
}

/// A text as the result of an event.
pub open spec fn text_result(text: Option<Seq<char>>) -> Option<JsonView> {
    match text {
        Some(t) => Some(JsonView::String(t)),
        None => None,
    }
}

/// The run halts on `error`: the first failure is kept and the run is stopped.
/// Where siblings are to be cancelled, every node in flight is cancelled and says
/// so; else only the nodes that wait to be started are dropped.
pub open spec fn halt(s: RunState, error: RunFault) -> (RunState, Seq<CommandView>) {
    let marked = RunState {
        failure: if s.failure is None {
            Some(error)
        } else {
            s.failure
        },
        ..s
    };
    (stop(marked, s.cancel_siblings), stop_events(marked.nodes, s.cancel_siblings))
}

/// The events of the nodes that a stop cancels: one for each node in flight
/// where `kill` is set, none else.
pub open spec fn stop_events(nodes: Seq<NodeState>, kill: bool) -> Seq<CommandView> {
    if kill {
        cancel_events(flights(nodes, nodes.len()))
    } else {
        Seq::empty()
    }
}

/// Node `node` has failed for good with `error`, which reads `message`: it
/// says so; then the run halts if the node's `err_return` is on, else the node
/// settles.
pub open spec fn terminal(g: Graph, s: RunState, node: int, error: RunFault, message: Seq<char>) -> (
    RunState,
    Seq<CommandView>,
) {
    let event = node_event("error"@, g.nodes@[node].node_id@, Some(JsonView::String(message)));
    if err_return_of(g, node) {
        let (after, events) = halt(s.with_phase(node, Phase::Failed), error);
        (after, seq![event] + events)
    } else {
        (settle(s, g.rows()[node], node, Phase::Tolerated), seq![event])
    }
}

/// A ready node is started: it says that it runs; then it fails the run if
/// no runner is registered for it, is skipped or fails if its conditions say
/// so, and else has its runner called for the first time.
pub open spec fn started(g: Graph, s: RunState, node: int, registered: bool, gate: Gate) -> (
    RunState,
    Seq<CommandView>,
) {
    let id = g.nodes@[node].node_id@;
    let running = node_event("running"@, id, None);
    if !(0 <= node < s.nodes.len()) || s.nodes[node].phase != Phase::Ready {
        (s, Seq::empty())
    } else if s.halted() {
        (s.with_phase(node, Phase::Cancelled), Seq::empty())
    } else if !registered {
        let (after, events) = halt(
            s.with_phase(node, Phase::Failed),
            RunFault::UnknownAction(g.nodes@[node].node_context.action_type@),
        );
        (after, seq![running] + events)
    } else {
        match gate {
            Gate::Error(e) => {
                let (after, events) = terminal(g, s, node, RunFault::ConditionEvalFailure(e), e);
                (after, seq![running] + events)
            },
            Gate::Skip(reason) => (
                settle(s, g.rows()[node], node, Phase::Skipped),
                seq![running, node_event("skip"@, id, text_result(reason))],
            ),
            Gate::Pass => (
                RunState {
                    nodes: s.nodes.update(
                        node,
                        NodeState {
                            phase: Phase::Invoking,
                            remaining: s.nodes[node].remaining,
                            attempts: 1,
                        },
                    ),
                    ..s
                },
                seq![running, CommandView::Invoke { node: node as usize, attempt: 1 }],
            ),
        }
    }
}

/// The runner of a node has returned, `elapsed` milliseconds after it was
/// called: on success the node says that it is done and settles; on failure it
/// is tried again after a pause, or has failed for good, as its retry count
/// says. What a node returns that has no call
/// outstanding changes nothing.
pub open spec fn returned(
    g: Graph,
    s: RunState,
    node: int,
    outcome: Result<Option<JsonView>, Seq<char>>,
    elapsed: u64,
) -> (RunState, Seq<CommandView>) {
    if !(0 <= node < s.nodes.len()) || s.nodes[node].phase != Phase::Invoking {
        (s, Seq::empty())
    } else {
        match outcome {
            Ok(result) => (
                settle(s, g.rows()[node], node, Phase::Succeeded),
                seq![node_event("done"@, g.nodes@[node].node_id@, result)],
            ),
            Err(e) => match retry_decision(
                retry_of(g, node),
                delay_of(g, node),
                MIN_RETRY_INTERVAL_MS,
                s.nodes[node].attempts,
                elapsed,
            ) {
                RetryDecision::Retry(millis) => (
                    s.with_phase(node, Phase::Sleeping),
                    seq![CommandView::Sleep { node: node as usize, millis }],
                ),
                RetryDecision::GiveUp => terminal(g, s, node, RunFault::RunnerFailure(e), e),
            },
        }
    }
}

/// A sleeping node has woken: its runner is called once more. Of a node that
/// does not sleep nothing changes.
pub open spec fn woken(s: RunState, node: int) -> (RunState, Seq<CommandView>) {
    if !(0 <= node < s.nodes.len()) || s.nodes[node].phase != Phase::Sleeping {
        (s, Seq::empty())
    } else {
        let attempt: u64 = if s.nodes[node].attempts < u64::MAX {
            (s.nodes[node].attempts + 1) as u64
        } else {
            u64::MAX
        };
        (
            RunState {
                nodes: s.nodes.update(
                    node,
                    NodeState {
                        phase: Phase::Invoking,
                        remaining: s.nodes[node].remaining,
                        attempts: attempt,
                    },
                ),
                ..s
            },
            seq![CommandView::Invoke { node: node as usize, attempt }],
        )
    }
}

/// The run is cancelled: every node in flight is cancelled and says so.
pub open spec fn cancelled(s: RunState) -> (RunState, Seq<CommandView>) {
    (stop(RunState { cancelled: true, ..s }, true), stop_events(s.nodes, true))
}

/// The run has begun: it says so and its roots are made ready.
pub open spec fn begun(g: Graph, s: RunState) -> (RunState, Seq<CommandView>) {
    if s.begun {
        (s, Seq::empty())
    } else {
        (
            enqueue(RunState { begun: true, ..s }, g.starts@, g.starts@.len()),
            seq![
                CommandView::EmitWorkflow(WorkflowEventPayload { status: WorkflowStatus::Running }),
            ],
        )
    }
}

/// How a run has ended.
pub open spec fn outcome_of(s: RunState) -> Result<(), RunFault> {
    match s.failure {
        Some(f) => Err(f),
        None => Ok(()),
    }
}

/// The end of a run is looked for: a run that has begun and in which no node
/// is in flight is finished, and says so unless it has failed.
pub open spec fn polled(s: RunState) -> (RunState, Seq<CommandView>, Option<Result<(), RunFault>>) {
    if s.begun && !s.finished && s.quiescent() {
        (
            RunState { finished: true, ..s },
            if s.failure is None {
                seq![
                    CommandView::EmitWorkflow(
                        WorkflowEventPayload { status: WorkflowStatus::Finished },
                    ),
                ]
            } else {
                Seq::empty()
            },
            Some(outcome_of(s)),
        )
    } else {
        (s, Seq::empty(), None)
    }
}

impl WorkflowRunner {
    /// Puts node `node` into `phase` and releases its successors.
    fn settle_node(&mut self, node: usize, phase: Phase)
        requires
            old(self).shape(),
            node < old(self)@.nodes.len(),
        ensures
            final(self).shape(),
            final(self).graph() == old(self).graph(),
            final(self)@ == settle(
                old(self)@,
                old(self).graph().rows()[node as int],
                node as int,
                phase,
            ),
    {
        let st = self.states[node];
        self.states.set(node, NodeState { phase, remaining: st.remaining, attempts: st.attempts });
        let ghost marked = self@;
        let ghost row = self.graph.rows()[node as int];
        assert(marked == old(self)@.with_phase(node as int, phase));
        let halted = self.cancelled || self.failure.is_some();
        let count = self.graph.nodes[node].next.len();
        assert(row == self.graph.nodes@[node as int].next@);
        let mut j: usize = 0;
        while j < count
            invariant
                j <= count,
                count == row.len(),
                node < self.graph.nodes@.len(),
                row == self.graph.nodes@[node as int].next@,
                row == self.graph.rows()[node as int],
                self.graph == old(self).graph,
                self.shape(),
                halted == self@.halted(),
                self@ == release(marked, row, j as nat),
            decreases count - j,
        {
            let t = self.graph.nodes[node].next[j];
            assert(t == row[j as int]);
            assert(t < self.states@.len());
            let before = self.states[t];
            let rest: usize = if before.remaining > 0 {
                before.remaining - 1
            } else {
                0
            };
            let ghost prior = self@;
            if rest == 0 && before.phase == Phase::Pending && !halted {
                self.states.set(
                    t,
                    NodeState { phase: Phase::Ready, remaining: rest, attempts: before.attempts },
                );
                self.queue.push(t);
                assert(self@.queue =~= prior.queue.push(t));
            } else {
                self.states.set(
                    t,
                    NodeState { phase: before.phase, remaining: rest, attempts: before.attempts },
                );
            }
            assert(self@ == release_one(prior, t as int));
            j += 1;
        }
    }

    /// Stops the run: cancels the nodes that wait to be started and, where
    /// `kill` is set, every node in flight, each of which then says so.
    fn stop_nodes(&mut self, kill: bool, commands: &mut Vec<Command>)
        requires
            old(self).shape(),
        ensures
            final(self).shape(),
            final(self).graph() == old(self).graph(),
            final(self)@ == stop(old(self)@, kill),
            command_views(final(commands)@) == command_views(old(commands)@) + stop_events(
                old(self)@.nodes,
                kill,
            ),
    {
        let ghost initial = self.states@;
        let n = self.states.len();
        let mut i: usize = 0;
        assert(command_views(commands@) =~= command_views(old(commands)@) + cancel_events(0));
        assert(command_views(commands@) =~= command_views(old(commands)@) + Seq::empty());
        while i < n
            invariant
                i <= n,
                n == initial.len(),
                self.states@.len() == n,
                self.graph == old(self).graph,
                self.queue == old(self).queue,
                self.head == old(self).head,
                self.cancelled == old(self).cancelled,
                self.failure == old(self).failure,
                self.begun == old(self).begun,
                self.finished == old(self).finished,
                self.cancel_siblings == old(self).cancel_siblings,
                self.shape(),
                initial == old(self).states@,
                forall|k: int| i <= k < n ==> self.states@[k] == initial[k],
                forall|k: int|
                    0 <= k < i ==> self.states@[k] == (NodeState {
                        phase: stopped_phase(initial[k].phase, kill),
                        remaining: initial[k].remaining,
                        attempts: initial[k].attempts,
                    }),
                command_views(commands@) == command_views(old(commands)@) + (if kill {
                    cancel_events(flights(initial, i as nat))
                } else {
                    Seq::empty()
                }),
            decreases n - i,
        {
            let st = self.states[i];
            let flying = st.phase.is_in_flight();
            if st.phase == Phase::Ready || (kill && flying) {
                self.states.set(
                    i,
                    NodeState {
                        phase: Phase::Cancelled,
                        remaining: st.remaining,
                        attempts: st.attempts,
                    },
                );
            }
            if kill && flying {
                let ghost before = command_views(commands@);
                push_command(commands, Command::EmitNode(NodeEventPayload::cancel()));
                assert(command_views(commands@) =~= command_views(old(commands)@) + cancel_events(
                    flights(initial, (i + 1) as nat),
                ));
            }
            i += 1;
        }
        self.queue = Vec::new();
        self.head = 0;
        assert(self@.nodes =~= stop(old(self)@, kill).nodes);
        assert(self@.queue =~= stop(old(self)@, kill).queue);
    }

    /// Halts the run on `error`.
    fn halt_run(&mut self, error: RunError, commands: &mut Vec<Command>)
        requires
            old(self).shape(),
        ensures
            final(self).shape(),
            final(self).graph() == old(self).graph(),
            final(self)@ == halt(old(self)@, error@).0,
            command_views(final(commands)@) == command_views(old(commands)@) + halt(
                old(self)@,
                error@,
            ).1,
    {
        if self.failure.is_none() {
            self.failure = Some(error);
        }
        let kill = self.cancel_siblings;
        self.stop_nodes(kill, commands);
    }

    /// Node `node` has failed for good.
    fn fail_node(&mut self, node: usize, error: RunError, message: &str, commands: &mut Vec<Command>)
        requires
            old(self).shape(),
            node < old(self)@.nodes.len(),
        ensures
            final(self).shape(),
            final(self).graph() == old(self).graph(),
            final(self)@ == terminal(
                old(self).graph(),
                old(self)@,
                node as int,
                error@,
                message@,
            ).0,
            command_views(final(commands)@) == command_views(old(commands)@) + terminal(
                old(self).graph(),
                old(self)@,
                node as int,
                error@,
                message@,
            ).1,
    {
        let id = self.graph.nodes[node].node_id.clone();
        let event = NodeEventPayload::error(id, Some(JsonValue::string(message)));
        let ghost base = command_views(commands@);
        push_command(commands, Command::EmitNode(event));
        let stops = match self.graph.nodes[node].node_context.metadata.err_return {
            Some(b) => b,
            None => true,
        };
        if stops {
            let st = self.states[node];
            self.states.set(
                node,
                NodeState { phase: Phase::Failed, remaining: st.remaining, attempts: st.attempts },
            );
            assert(self@ == old(self)@.with_phase(node as int, Phase::Failed));
            let ghost marked = self@;
            self.halt_run(error, commands);
            assert(command_views(commands@) =~= base + (seq![
                node_event(
                    "error"@,
                    self.graph.nodes@[node as int].node_id@,
                    Some(JsonView::String(message@)),
                ),
            ] + halt(marked, error@).1));
        } else {
            self.settle_node(node, Phase::Tolerated);
            assert(command_views(commands@) =~= base + seq![
                node_event(
                    "error"@,
                    self.graph.nodes@[node as int].node_id@,
                    Some(JsonView::String(message@)),
                ),
            ]);
        }
    }
}

impl WorkflowRunner {
    /// Begins the run.
    pub fn begin(&mut self) -> (commands: Vec<Command>)
        requires
            old(self).inv(),
        ensures
            final(self).inv(),
            final(self).graph() == old(self).graph(),
            final(self)@ == begun(old(self).graph(), old(self)@).0,
            command_views(commands@) == begun(old(self).graph(), old(self)@).1,
    {
        proof {
            lemma_sound_kept(self.graph, self@, Step::Begin);
        }
        let mut commands: Vec<Command> = Vec::new();
        assert(command_views(commands@) =~= Seq::empty());
        if self.begun {
            return commands;
        }
        self.begun = true;
        push_command(
            &mut commands,
            Command::EmitWorkflow(WorkflowEventPayload { status: WorkflowStatus::Running }),
        );
        let ghost first = self@;
        let halted = self.cancelled || self.failure.is_some();
        let count = self.graph.starts.len();
        let mut j: usize = 0;
        while j < count
            invariant
                j <= count,
                count == self.graph.starts@.len(),
                self.graph == old(self).graph,
                self.shape(),
                halted == self@.halted(),
                self@ == enqueue(first, self.graph.starts@, j as nat),
            decreases count - j,
        {
            let t = self.graph.starts[j];
            let st = self.states[t];
            let ghost prior = self@;
            if st.phase == Phase::Pending && !halted {
                self.states.set(
                    t,
                    NodeState { phase: Phase::Ready, remaining: st.remaining, attempts: st.attempts },
                );
                self.queue.push(t);
                assert(self@.queue =~= prior.queue.push(t));
            }
            assert(self@ == enqueue_one(prior, t as int));
            j += 1;
        }
        assert(command_views(commands@) =~= begun(old(self).graph(), old(self)@).1);
        commands
    }

    /// Takes the node that has waited longest to be started.
    pub fn take_ready(&mut self) -> (r: Option<usize>)
        requires
            old(self).inv(),
        ensures
            final(self).inv(),
            final(self).graph() == old(self).graph(),
            match r {
                Some(node) => old(self)@.queue.len() > 0 && node == old(self)@.queue[0] && node
                    < old(self)@.nodes.len() && final(self)@ == (RunState {
                    queue: old(self)@.queue.drop_first(),
                    ..old(self)@
                }),
                None => old(self)@.queue.len() == 0 && final(self)@ == old(self)@,
            },
    {
        proof {
            crate::workflow::laws::lemma_sound_same(
                self.graph,
                self@,
                RunState { queue: self@.queue.drop_first(), ..self@ },
            );
        }
        if self.head < self.queue.len() {
            let node = self.queue[self.head];
            self.head = self.head + 1;
            assert(self@.queue =~= old(self)@.queue.drop_first());
            Some(node)
        } else {
            None
        }
    }

    /// Starts a ready node. `registered` says whether a node kind and a runner
    /// are registered for its action type; `checked` is what the check of its
    /// conditions gave.
    pub fn start_node(&mut self, node: usize, registered: bool, checked: Result<ConditionResult, String>) -> (commands: Vec<Command>)
        requires
            old(self).inv(),
        ensures
            final(self).inv(),
            final(self).graph() == old(self).graph(),
            final(self)@ == started(
                old(self).graph(),
                old(self)@,
                node as int,
                registered,
                gate_of(checked),
            ).0,
            command_views(commands@) == started(
                old(self).graph(),
                old(self)@,
                node as int,
                registered,
                gate_of(checked),
            ).1,
    {
        proof {
            lemma_sound_kept(
                self.graph,
                self@,
                Step::Start { node: node as int, registered, gate: gate_of(checked) },
            );
        }
        let mut commands: Vec<Command> = Vec::new();
        assert(command_views(commands@) =~= Seq::empty());
        if node >= self.states.len() {
            return commands;
        }
        let st = self.states[node];
        if st.phase != Phase::Ready {
            return commands;
        }
        if self.cancelled || self.failure.is_some() {
            self.states.set(
                node,
                NodeState { phase: Phase::Cancelled, remaining: st.remaining, attempts: st.attempts },
            );
            return commands;
        }
        let ghost id = self.graph.nodes@[node as int].node_id@;
        let ghost running = node_event("running"@, id, None);
        push_command(
            &mut commands,
            Command::EmitNode(NodeEventPayload::running(self.graph.nodes[node].node_id.clone())),
        );
        assert(command_views(commands@) =~= seq![running]);
        if !registered {
            self.states.set(
                node,
                NodeState { phase: Phase::Failed, remaining: st.remaining, attempts: st.attempts },
            );
            let action = self.graph.nodes[node].node_context.action_type.clone();
            self.halt_run(RunError::UnknownAction(action), &mut commands);
            return commands;
        }
        match checked {
            Err(e) => {
                let error = RunError::ConditionEvalFailure(e.clone());
                self.fail_node(node, error, e.as_str(), &mut commands);
            },
            Ok(result) => {
                if result.pass {
                    self.states.set(
                        node,
                        NodeState { phase: Phase::Invoking, remaining: st.remaining, attempts: 1 },
                    );
                    push_command(&mut commands, Command::Invoke { node, attempt: 1 });
                    assert(command_views(commands@) =~= seq![
                        running,
                        CommandView::Invoke { node, attempt: 1 },
                    ]);
                } else {
                    let reason = match result.reason {
                        Some(t) => Some(JsonValue::String(t)),
                        None => None,
                    };
                    push_command(
                        &mut commands,
                        Command::EmitNode(
                            NodeEventPayload::skip(self.graph.nodes[node].node_id.clone(), reason),
                        ),
                    );
                    self.settle_node(node, Phase::Skipped);
                    assert(command_views(commands@) =~= seq![
                        running,
                        node_event("skip"@, id, text_result(gate_of(checked)->Skip_0)),
                    ]);
                }
            },
        }
        commands
    }

    /// Takes in what the runner of a node has returned, `elapsed` milliseconds
    /// after it was called.
    pub fn on_returned(
        &mut self,
        node: usize,
        outcome: Result<Option<JsonValue>, String>,
        elapsed: u64,
    ) -> (commands: Vec<Command>)
        requires
            old(self).inv(),
        ensures
            final(self).inv(),
            final(self).graph() == old(self).graph(),
            final(self)@ == returned(
                old(self).graph(),
                old(self)@,
                node as int,
                outcome_view(outcome),
                elapsed,
            ).0,
            command_views(commands@) == returned(
                old(self).graph(),
                old(self)@,
                node as int,
                outcome_view(outcome),
                elapsed,
            ).1,
    {
        proof {
            lemma_sound_kept(
                self.graph,
                self@,
                Step::Returned { node: node as int, outcome: outcome_view(outcome), elapsed },
            );
        }
        let mut commands: Vec<Command> = Vec::new();
        assert(command_views(commands@) =~= Seq::empty());
        if node >= self.states.len() {
            return commands;
        }
        let st = self.states[node];
        if st.phase != Phase::Invoking {
            return commands;
        }
        match outcome {
            Ok(result) => {
                push_command(
                    &mut commands,
                    Command::EmitNode(
                        NodeEventPayload::success(self.graph.nodes[node].node_id.clone(), result),
                    ),
                );
                self.settle_node(node, Phase::Succeeded);
                assert(command_views(commands@) =~= seq![
                    node_event(
                        "done"@,
                        self.graph.nodes@[node as int].node_id@,
                        outcome_view(outcome)->Ok_0,
                    ),
                ]);
            },
            Err(e) => {
                let retry = match self.graph.nodes[node].node_context.metadata.retry {
                    Some(r) => r,
                    None => 0,
                };
                let delay: u64 = match self.graph.nodes[node].node_context.metadata.duration {
                    Some(d) => d as u64,
                    None => 0,
                };
                match handle_retry(retry, delay, MIN_RETRY_INTERVAL_MS, st.attempts, elapsed) {
                    RetryDecision::Retry(millis) => {
                        self.states.set(
                            node,
                            NodeState {
                                phase: Phase::Sleeping,
                                remaining: st.remaining,
                                attempts: st.attempts,
                            },
                        );
                        push_command(&mut commands, Command::Sleep { node, millis });
                        assert(command_views(commands@) =~= seq![
                            CommandView::Sleep { node, millis },
                        ]);
                    },
                    RetryDecision::GiveUp => {
                        let error = RunError::RunnerFailure(e.clone());
                        self.fail_node(node, error, e.as_str(), &mut commands);
                        assert(command_views(commands@) =~= terminal(
                            old(self).graph(),
                            old(self)@,
                            node as int,
                            RunFault::RunnerFailure(e@),
                            e@,
                        ).1);
                    },
                }
            },
        }
        commands
    }

    /// Takes in that a sleeping node has woken.
    pub fn on_woke(&mut self, node: usize) -> (commands: Vec<Command>)
        requires
            old(self).inv(),
        ensures
            final(self).inv(),
            final(self).graph() == old(self).graph(),
            final(self)@ == woken(old(self)@, node as int).0,
            command_views(commands@) == woken(old(self)@, node as int).1,
    {
        proof {
            lemma_sound_kept(self.graph, self@, Step::Woke { node: node as int });
        }
        let mut commands: Vec<Command> = Vec::new();
        assert(command_views(commands@) =~= Seq::empty());
        if node >= self.states.len() {
            return commands;
        }
        let st = self.states[node];
        if st.phase != Phase::Sleeping {
            return commands;
        }
        let attempt: u64 = if st.attempts < u64::MAX {
            st.attempts + 1
        } else {
            u64::MAX
        };
        self.states.set(
            node,
            NodeState { phase: Phase::Invoking, remaining: st.remaining, attempts: attempt },
        );
        push_command(&mut commands, Command::Invoke { node, attempt });
        assert(command_views(commands@) =~= seq![CommandView::Invoke { node, attempt }]);
        commands
    }

    /// Cancels the run.
    pub fn cancel(&mut self) -> (commands: Vec<Command>)
        requires
            old(self).inv(),
        ensures
            final(self).inv(),
            final(self).graph() == old(self).graph(),
            final(self)@ == cancelled(old(self)@).0,
            command_views(commands@) == cancelled(old(self)@).1,
    {
        proof {
            lemma_sound_kept(self.graph, self@, Step::Cancel);
        }
        let mut commands: Vec<Command> = Vec::new();
        assert(command_views(commands@) =~= Seq::empty());
        self.cancelled = true;
        self.stop_nodes(true, &mut commands);
        assert(command_views(commands@) =~= cancelled(old(self)@).1);
        commands
    }

    /// Takes in that an event of the workflow itself could not be published:
    /// the run halts on that failure.
    pub fn on_emit_failed(&mut self, error: String) -> (commands: Vec<Command>)
        requires
            old(self).inv(),
        ensures
            final(self).inv(),
            final(self).graph() == old(self).graph(),
            final(self)@ == halt(old(self)@, RunFault::EmitFailure(error@)).0,
            command_views(commands@) == halt(old(self)@, RunFault::EmitFailure(error@)).1,
    {
        proof {
            lemma_sound_kept(self.graph, self@, Step::EmitFailed { error: error@ });
        }
        let mut commands: Vec<Command> = Vec::new();
        assert(command_views(commands@) =~= Seq::empty());
        self.halt_run(RunError::EmitFailure(error), &mut commands);
        assert(command_views(commands@) =~= halt(old(self)@, RunFault::EmitFailure(error@)).1);
        commands
    }

    /// Looks whether the run has come to its end, and if so how.
    pub fn poll(&mut self) -> (r: (Vec<Command>, Option<Result<(), RunError>>))
        requires
            old(self).inv(),
        ensures
            final(self).inv(),
            final(self).graph() == old(self).graph(),
            final(self)@ == polled(old(self)@).0,
            command_views(r.0@) == polled(old(self)@).1,
            ended_view(r.1) == polled(old(self)@).2,
    {
        proof {
            lemma_sound_kept(self.graph, self@, Step::Poll);
        }
        let mut commands: Vec<Command> = Vec::new();
        assert(command_views(commands@) =~= Seq::empty());
        if !self.begun || self.finished || !self.is_quiescent() {
            return (commands, None);
        }
        self.finished = true;
        match &self.failure {
            Some(e) => {
                let e = e.duplicate();
                (commands, Some(Err(e)))
            },
            None => {
                push_command(
                    &mut commands,
                    Command::EmitWorkflow(WorkflowEventPayload { status: WorkflowStatus::Finished }),
                );
                assert(command_views(commands@) =~= polled(old(self)@).1);
                (commands, Some(Ok(())))
            },
        }
    }
}

/// What a runner returned, with the values as their views.
pub open spec fn outcome_view(outcome: Result<Option<JsonValue>, String>) -> Result<
    Option<JsonView>,
    Seq<char>,
> {
    match outcome {
        Ok(Some(v)) => Ok(Some(v@)),
        Ok(None) => Ok(None),
        Err(e) => Err(e@),
    }
}

/// How a run has ended, if it has, with the error as its view.
pub open spec fn ended_view(ended: Option<Result<(), RunError>>) -> Option<Result<(), RunFault>> {
    match ended {
        Some(Ok(())) => Some(Ok(())),
        Some(Err(e)) => Some(Err(e@)),
        None => None,
    }
}

} // verus!
