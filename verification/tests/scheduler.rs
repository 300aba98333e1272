use std::cell::RefCell;
use std::rc::Rc;

use auto_engine::context::Context;
use auto_engine::json::{JsonNumber, JsonValue};
use auto_engine::register::bus::NodeRegisterBus;
use auto_engine::schema::node::{NodeSchema, Position};
use auto_engine::schema::workflow::{Connection, WorkflowSchema};
use auto_engine::types::conditions::Conditions;
use auto_engine::types::field::{FieldType, SchemaField};
use auto_engine::types::node::{
    I18nValue, NodeDefine, NodeRunner, NodeRunnerControl, NodeRunnerController, NodeRunnerFactory,
};
use auto_engine::types::typs::MetaData;
use auto_engine::workflow::engine::{handle, Signal};
use auto_engine::workflow::runner::{
    handle_retry, rest, Command, Phase, RetryDecision, RunError, WorkflowRunner,
    MIN_RETRY_INTERVAL_MS,
};

#[derive(Clone)]
struct Kind {
    action: String,
    inputs: Vec<SchemaField>,
}

impl NodeDefine for Kind {
    fn action_type(&self) -> String {
        self.action.clone()
    }
    fn name(&self) -> I18nValue {
        I18nValue::new("", &self.action)
    }
    fn icon(&self) -> String {
        String::new()
    }
    fn category(&self) -> Option<I18nValue> {
        None
    }
    fn description(&self) -> Option<I18nValue> {
        None
    }
    fn output_schema(&self, _input: &Vec<(String, JsonValue)>) -> Vec<SchemaField> {
        vec![]
    }
    fn input_schema(&self) -> Vec<SchemaField> {
        self.inputs.clone()
    }
}

/// Returns its inputs as outputs, after failing as often as it was told to.
struct Echo {
    calls: Rc<RefCell<Vec<String>>>,
    failures_left: Rc<RefCell<u32>>,
    label: String,
}

impl NodeRunner for Echo {
    fn run(
        &mut self,
        _ctx: &mut Context,
        param: Vec<(String, JsonValue)>,
    ) -> Result<Option<Vec<(String, JsonValue)>>, String> {
        self.calls.borrow_mut().push(self.label.clone());
        let mut left = self.failures_left.borrow_mut();
        if *left > 0 {
            *left -= 1;
            return Err(format!("{} failed", self.label));
        }
        Ok(Some(param))
    }
}

struct EchoFactory {
    calls: Rc<RefCell<Vec<String>>>,
    failures_left: Rc<RefCell<u32>>,
    label: String,
}

impl NodeRunnerFactory for EchoFactory {
    type Runner = NodeRunnerController<Echo>;

    fn create(&self) -> NodeRunnerController<Echo> {
        NodeRunnerController::new(Echo {
            calls: self.calls.clone(),
            failures_left: self.failures_left.clone(),
            label: self.label.clone(),
        })
    }
}

struct Host {
    runner: WorkflowRunner,
    ctx: Context,
    bus: NodeRegisterBus<Kind, EchoFactory>,
    calls: Rc<RefCell<Vec<String>>>,
    events: Vec<String>,
    sleeps: Vec<u64>,
    ended: Option<Result<(), RunError>>,
    cancel_after_calls: Option<usize>,
    call_takes_ms: u64,
}

fn text_field(name: &str) -> SchemaField {
    SchemaField::new(name, FieldType::String)
}

fn node(id: &str, action: &str) -> NodeSchema {
    NodeSchema {
        node_id: id.to_string(),
        action_type: action.to_string(),
        metadata: MetaData::named(id),
        input_data: None,
        position: Position::default(),
        icon: None,
    }
}

fn with_input(mut n: NodeSchema, key: &str, value: &str) -> NodeSchema {
    let mut data = n.input_data.take().unwrap_or_default();
    data.push((key.to_string(), JsonValue::String(value.to_string())));
    n.input_data = Some(data);
    n
}

fn edge(from: &str, to: &str) -> Connection {
    Connection { from: from.to_string(), to: to.to_string() }
}

impl Host {
    fn new(workflow: WorkflowSchema) -> Host {
        assert!(workflow.has_distinct_ids());
        Host {
            runner: WorkflowRunner::create(workflow).expect("workflow should be valid"),
            ctx: Context::new(""),
            bus: NodeRegisterBus::new(),
            calls: Rc::new(RefCell::new(vec![])),
            events: vec![],
            sleeps: vec![],
            ended: None,
            cancel_after_calls: None,
            call_takes_ms: 0,
        }
    }

    fn register(&mut self, action: &str, inputs: Vec<SchemaField>, failures: u32) {
        let kind = Kind { action: action.to_string(), inputs };
        let factory = EchoFactory {
            calls: self.calls.clone(),
            failures_left: Rc::new(RefCell::new(failures)),
            label: action.to_string(),
        };
        self.bus.register(kind, factory);
    }

    fn describe(command: &Command) -> Option<String> {
        match command {
            Command::EmitWorkflow(p) => Some(format!("workflow:{}", p.status.as_str())),
            Command::EmitNode(p) => Some(match &p.result {
                Some(r) => format!("node:{}({},{})", p.status, p.name, r.to_text()),
                None => format!("node:{}({})", p.status, p.name),
            }),
            _ => None,
        }
    }

    /// Carries a signal and all that follows from it through, one command at a
    /// time, the runners being called at once and every pause being over at once.
    fn drive(&mut self, signal: Signal) {
        let mut signals = vec![signal];
        while let Some(signal) = signals.pop() {
            let (commands, ended) = handle(&mut self.runner, &self.ctx, &self.bus, signal);
            if ended.is_some() {
                self.ended = ended;
            }
            let mut next: Vec<Signal> = vec![];
            for command in commands {
                if let Some(text) = Host::describe(&command) {
                    self.events.push(text);
                }
                match command {
                    Command::Invoke { node, .. } => {
                        if self.cancel_after_calls == Some(self.calls.borrow().len()) {
                            next.push(Signal::Cancel);
                        }
                        let schema = &self.runner.get_graph().nodes[node].node_context;
                        let name = schema.metadata.name.clone();
                        let params = schema.input_data.clone().unwrap_or_default();
                        let fields = self.bus.load_node(&schema.action_type).unwrap().input_schema();
                        let mut runner = self.bus.create_runner(&schema.action_type).unwrap();
                        let outcome = runner
                            .run(&mut self.ctx, &name, params, &fields)
                            .map(|outputs| outputs.map(JsonValue::Object));
                        next.push(Signal::Returned { node, outcome, elapsed: self.call_takes_ms });
                    }
                    Command::Sleep { node, millis } => {
                        self.sleeps.push(millis);
                        next.push(Signal::Woke { node });
                    }
                    _ => {}
                }
            }
            // Keep the order in which the commands came.
            next.reverse();
            signals.extend(next);
        }
    }

    fn phase(&self, node: usize) -> Phase {
        self.runner.node_state(node).unwrap().phase
    }
}

#[test]
fn linear_chain_runs_in_order_and_passes_values_on() {
    let workflow = WorkflowSchema {
        nodes: vec![
            node("S", "Start"),
            with_input(node("A", "Echo"), "x", "1"),
            with_input(node("B", "Echo"), "x", "${ctx.A.x:9}"),
        ],
        connections: vec![edge("S", "A"), edge("A", "B")],
    };
    let mut host = Host::new(workflow);
    host.register("Start", vec![], 0);
    host.register("Echo", vec![text_field("x")], 0);
    host.drive(Signal::Begin);
    assert_eq!(
        host.events,
        vec![
            "workflow:running",
            "node:running(S)",
            "node:done(S,{})",
            "node:running(A)",
            "node:done(A,{\"x\":\"1\"})",
            "node:running(B)",
            "node:done(B,{\"x\":\"1\"})",
            "workflow:finished",
        ]
    );
    assert!(matches!(host.ended, Some(Ok(()))));
    assert!(matches!(host.ctx.get_value("ctx.A.x"), Some(JsonValue::String(ref s)) if s == "1"));
    assert!(matches!(host.ctx.get_value("ctx.B.x"), Some(JsonValue::String(ref s)) if s == "1"));
}

#[test]
fn run_executes_nodes_with_params() {
    let workflow = WorkflowSchema {
        nodes: vec![
            NodeSchema {
                node_id: "node-0".to_string(),
                action_type: "Start".to_string(),
                metadata: MetaData::named("start"),
                input_data: None,
                position: Position::default(),
                icon: None,
            },
            NodeSchema {
                node_id: "node-1".to_string(),
                action_type: "Custom".to_string(),
                metadata: MetaData::named("custom"),
                input_data: Some(vec![("foo".to_string(), JsonValue::String("bar".to_string()))]),
                position: Position::default(),
                icon: None,
            },
        ],
        connections: vec![edge("node-0", "node-1")],
    };
    let mut host = Host::new(workflow);
    host.register("Start", vec![], 0);
    host.register("Custom", vec![], 0);
    host.drive(Signal::Begin);
    assert!(matches!(host.ended, Some(Ok(()))));
    let custom_calls = host.calls.borrow().iter().filter(|c| *c == "Custom").count();
    assert_eq!(custom_calls, 1);
}

#[test]
fn diamond_join_runs_the_joint_once_after_both_branches() {
    let workflow = WorkflowSchema {
        nodes: vec![
            node("S", "Start"),
            with_input(node("A", "Left"), "v", "a"),
            with_input(node("B", "Right"), "v", "b"),
            with_input(with_input(node("C", "Join"), "left", "${ctx.A.v}"), "right", "${ctx.B.v}"),
        ],
        connections: vec![edge("S", "A"), edge("S", "B"), edge("A", "C"), edge("B", "C")],
    };
    let mut host = Host::new(workflow);
    host.register("Start", vec![], 0);
    host.register("Left", vec![text_field("v")], 0);
    host.register("Right", vec![text_field("v")], 0);
    host.register("Join", vec![text_field("left"), text_field("right")], 0);
    assert_eq!(host.runner.node_state(3).unwrap().remaining, 2);
    host.drive(Signal::Begin);
    assert!(matches!(host.ended, Some(Ok(()))));
    let calls = host.calls.borrow().clone();
    assert_eq!(calls.iter().filter(|c| *c == "Join").count(), 1);
    let join_at = calls.iter().position(|c| c == "Join").unwrap();
    assert!(calls.iter().position(|c| c == "Left").unwrap() < join_at);
    assert!(calls.iter().position(|c| c == "Right").unwrap() < join_at);
    assert!(host
        .events
        .contains(&"node:done(C,{\"left\":\"a\",\"right\":\"b\"})".to_string()));
    assert_eq!(host.phase(3), Phase::Succeeded);
}

#[test]
fn node_is_skipped_where_its_condition_fails_and_successors_still_run() {
    let mut gated = node("N", "Echo");
    gated.metadata.conditions = Some(Conditions {
        exist: Some("ctx.A.ready".to_string()),
        condition: None,
        not_exist: None,
    });
    let workflow = WorkflowSchema {
        nodes: vec![node("S", "Start"), gated, node("T", "Echo")],
        connections: vec![edge("S", "N"), edge("N", "T")],
    };
    let mut host = Host::new(workflow);
    host.register("Start", vec![], 0);
    host.register("Echo", vec![], 0);
    host.drive(Signal::Begin);
    assert!(host
        .events
        .contains(&"node:skip(N,\"ctx.A.ready does not exist\")".to_string()));
    assert_eq!(host.phase(1), Phase::Skipped);
    assert_eq!(host.phase(2), Phase::Succeeded);
    assert!(host.events.contains(&"node:running(T)".to_string()));
    assert!(matches!(host.ended, Some(Ok(()))));
    // The runner of the skipped node was never called: Start and T only.
    assert_eq!(host.calls.borrow().len(), 2);
}

#[test]
fn infinite_retry_goes_on_until_success() {
    let mut flaky = node("F", "Flaky");
    flaky.metadata.retry = Some(-1);
    flaky.metadata.duration = Some(5);
    let workflow = WorkflowSchema {
        nodes: vec![node("S", "Start"), flaky],
        connections: vec![edge("S", "F")],
    };
    let mut host = Host::new(workflow);
    host.register("Start", vec![], 0);
    host.register("Flaky", vec![], 3);
    host.drive(Signal::Begin);
    assert!(matches!(host.ended, Some(Ok(()))));
    assert_eq!(host.calls.borrow().iter().filter(|c| *c == "Flaky").count(), 4);
    assert_eq!(host.sleeps, vec![200, 200, 200]);
    assert!(!host.events.iter().any(|e| e.starts_with("node:error")));
    assert_eq!(host.events.iter().filter(|e| e.starts_with("node:done(F")).count(), 1);
    assert_eq!(host.runner.node_state(1).unwrap().attempts, 4);
}

#[test]
fn infinite_retry_keeps_one_attempt_in_every_interval() {
    let mut flaky = node("F", "Flaky");
    flaky.metadata.retry = Some(-1);
    let workflow = WorkflowSchema {
        nodes: vec![node("S", "Start"), flaky],
        connections: vec![edge("S", "F")],
    };
    let mut host = Host::new(workflow);
    host.call_takes_ms = 120;
    host.register("Start", vec![], 0);
    host.register("Flaky", vec![], 2);
    host.drive(Signal::Begin);
    assert!(matches!(host.ended, Some(Ok(()))));
    // Each attempt began 200 ms after the one before it: 120 ms of work and
    // 80 ms of pause.
    assert_eq!(host.sleeps, vec![80, 80]);

    let mut slow = node("F", "Flaky");
    slow.metadata.retry = Some(-1);
    let workflow = WorkflowSchema {
        nodes: vec![node("S", "Start"), slow],
        connections: vec![edge("S", "F")],
    };
    let mut host = Host::new(workflow);
    host.call_takes_ms = 350;
    host.register("Start", vec![], 0);
    host.register("Flaky", vec![], 2);
    host.drive(Signal::Begin);
    assert!(matches!(host.ended, Some(Ok(()))));
    assert_eq!(host.sleeps, vec![0, 0]);
}

#[test]
fn retry_count_bounds_the_calls() {
    let mut flaky = node("F", "Flaky");
    flaky.metadata.retry = Some(2);
    flaky.metadata.duration = Some(30);
    let workflow = WorkflowSchema {
        nodes: vec![node("S", "Start"), flaky, node("T", "Start")],
        connections: vec![edge("S", "F")],
    };
    // A second Start without edges keeps the document valid.
    let mut host = Host::new(workflow);
    host.register("Start", vec![], 0);
    host.register("Flaky", vec![], 10);
    host.drive(Signal::Begin);
    assert_eq!(host.calls.borrow().iter().filter(|c| *c == "Flaky").count(), 3);
    assert_eq!(host.sleeps, vec![30, 30]);
    assert!(host.events.contains(&"node:error(F,\"Flaky failed\")".to_string()));
    assert_eq!(host.phase(1), Phase::Failed);
    match &host.ended {
        Some(Err(RunError::RunnerFailure(e))) => assert_eq!(e, "Flaky failed"),
        other => panic!("unexpected end {:?}", other),
    }
    assert!(!host.events.contains(&"workflow:finished".to_string()));
}

#[test]
fn single_attempt_where_retry_is_zero() {
    let workflow = WorkflowSchema {
        nodes: vec![node("S", "Start"), node("F", "Flaky")],
        connections: vec![edge("S", "F")],
    };
    let mut host = Host::new(workflow);
    host.register("Start", vec![], 0);
    host.register("Flaky", vec![], 1);
    host.drive(Signal::Begin);
    assert_eq!(host.calls.borrow().iter().filter(|c| *c == "Flaky").count(), 1);
    assert!(host.sleeps.is_empty());
    assert!(matches!(host.ended, Some(Err(RunError::RunnerFailure(_)))));
}

#[test]
fn tolerated_failure_lets_the_successors_run() {
    let mut flaky = node("F", "Flaky");
    flaky.metadata.err_return = Some(false);
    let workflow = WorkflowSchema {
        nodes: vec![node("S", "Start"), flaky, node("T", "Echo")],
        connections: vec![edge("S", "F"), edge("F", "T")],
    };
    let mut host = Host::new(workflow);
    host.register("Start", vec![], 0);
    host.register("Flaky", vec![], 1);
    host.register("Echo", vec![], 0);
    host.drive(Signal::Begin);
    assert_eq!(host.phase(1), Phase::Tolerated);
    assert_eq!(host.phase(2), Phase::Succeeded);
    assert!(host.events.iter().any(|e| e.starts_with("node:error(F")));
    assert!(host.events.contains(&"workflow:finished".to_string()));
    assert!(matches!(host.ended, Some(Ok(()))));
}

#[test]
fn unknown_action_fails_the_run() {
    let workflow = WorkflowSchema {
        nodes: vec![node("S", "Start"), node("X", "Nowhere"), node("T", "Echo")],
        connections: vec![edge("S", "X"), edge("X", "T")],
    };
    let mut host = Host::new(workflow);
    host.register("Start", vec![], 0);
    host.register("Echo", vec![], 0);
    host.drive(Signal::Begin);
    match &host.ended {
        Some(Err(e @ RunError::UnknownAction(action))) => {
            assert_eq!(action, "Nowhere");
            assert_eq!(e.message(), "Can't find node : Nowhere");
        }
        other => panic!("unexpected end {:?}", other),
    }
    assert_eq!(host.phase(1), Phase::Failed);
    assert_eq!(host.phase(2), Phase::Pending);
    assert!(!host.events.contains(&"node:running(T)".to_string()));
}

#[test]
fn condition_that_cannot_be_evaluated_fails_the_node() {
    let mut gated = node("N", "Echo");
    gated.metadata.conditions =
        Some(Conditions { exist: None, condition: Some("1 +".to_string()), not_exist: None });
    let workflow = WorkflowSchema {
        nodes: vec![node("S", "Start"), gated],
        connections: vec![edge("S", "N")],
    };
    let mut host = Host::new(workflow);
    host.register("Start", vec![], 0);
    host.register("Echo", vec![], 0);
    host.drive(Signal::Begin);
    assert!(matches!(host.ended, Some(Err(RunError::ConditionEvalFailure(_)))));
    assert!(host.events.iter().any(|e| e.starts_with("node:error(N")));
}

#[test]
fn cancellation_stops_new_calls_and_ends_without_error() {
    let workflow = WorkflowSchema {
        nodes: vec![node("S", "Start"), node("A", "Echo"), node("B", "Echo")],
        connections: vec![edge("S", "A"), edge("A", "B")],
    };
    let mut host = Host::new(workflow);
    host.register("Start", vec![], 0);
    host.register("Echo", vec![], 0);
    // The caller cancels while the runner of A is at work.
    host.cancel_after_calls = Some(1);
    host.drive(Signal::Begin);
    assert!(matches!(host.ended, Some(Ok(()))));
    assert!(host.runner.is_cancelled());
    assert_eq!(host.phase(1), Phase::Cancelled);
    assert_eq!(host.phase(2), Phase::Pending);
    assert!(host.events.contains(&"node:cancel(*)".to_string()));
    assert!(!host.events.contains(&"node:running(B)".to_string()));
    assert!(!host.events.iter().any(|e| e.starts_with("node:done(A")));
    let before = host.calls.borrow().len();
    // Whatever is reported afterwards calls no runner.
    host.drive(Signal::Woke { node: 1 });
    host.drive(Signal::Returned { node: 2, outcome: Ok(None), elapsed: 0 });
    assert_eq!(host.calls.borrow().len(), before);
}

#[test]
fn cancel_before_begin_runs_nothing() {
    let workflow = WorkflowSchema { nodes: vec![node("S", "Start")], connections: vec![] };
    let mut host = Host::new(workflow);
    host.register("Start", vec![], 0);
    host.drive(Signal::Cancel);
    assert!(host.ended.is_none());
    host.drive(Signal::Begin);
    assert_eq!(host.events, vec!["workflow:running", "workflow:finished"]);
    assert!(host.calls.borrow().is_empty());
}

#[test]
fn failure_cancels_siblings_where_asked_to() {
    let workflow = WorkflowSchema {
        nodes: vec![node("S", "Start"), node("F", "Flaky"), node("A", "Echo")],
        connections: vec![edge("S", "F"), edge("S", "A")],
    };
    assert!(workflow.has_distinct_ids());
    let runner = WorkflowRunner::create(workflow).unwrap().with_cancel_siblings(true);
    let mut runner = runner;
    let begin = runner.begin();
    assert_eq!(begin.len(), 1);
    assert_eq!(runner.take_ready(), Some(0));
    let started = runner.start_node(0, true, Ok(Default::default()));
    // A result that does not pass is a skip: the Start settles and both
    // successors become ready.
    assert_eq!(started.len(), 2);
    assert_eq!(runner.take_ready(), Some(1));
    assert_eq!(runner.take_ready(), Some(2));
    let pass = || Ok(auto_engine::types::conditions::ConditionResult { pass: true, reason: None });
    assert!(matches!(runner.start_node(1, true, pass())[1], Command::Invoke { node: 1, attempt: 1 }));
    assert!(matches!(runner.start_node(2, true, pass())[1], Command::Invoke { node: 2, attempt: 1 }));
    let commands = runner.on_returned(1, Err("boom".to_string()), 0);
    // The error of F, then the cancel event of A, which was in flight.
    assert_eq!(commands.len(), 2);
    assert!(matches!(&commands[0], Command::EmitNode(p) if p.status == "error" && p.name == "F"));
    assert!(matches!(&commands[1], Command::EmitNode(p) if p.status == "cancel" && p.name == "*"));
    assert_eq!(runner.node_state(2).unwrap().phase, Phase::Cancelled);
    assert!(runner.is_quiescent());
    assert!(runner.on_returned(2, Ok(None), 0).is_empty());
    let (tail, ended) = runner.poll();
    assert!(tail.is_empty());
    assert!(matches!(ended, Some(Err(RunError::RunnerFailure(ref e))) if e == "boom"));
    assert!(runner.poll().1.is_none());
}

#[test]
fn failure_lets_siblings_finish_where_not_asked_to_cancel() {
    let workflow = WorkflowSchema {
        nodes: vec![node("S", "Start"), node("F", "Flaky"), node("A", "Echo"), node("B", "Echo")],
        connections: vec![edge("S", "F"), edge("S", "A"), edge("A", "B")],
    };
    let mut runner = WorkflowRunner::create(workflow).unwrap();
    let pass = || Ok(auto_engine::types::conditions::ConditionResult { pass: true, reason: None });
    runner.begin();
    assert_eq!(runner.take_ready(), Some(0));
    runner.start_node(0, true, pass());
    runner.on_returned(0, Ok(None), 0);
    assert_eq!(runner.take_ready(), Some(1));
    assert_eq!(runner.take_ready(), Some(2));
    runner.start_node(1, true, pass());
    runner.start_node(2, true, pass());
    let commands = runner.on_returned(1, Err("boom".to_string()), 0);
    assert_eq!(commands.len(), 1);
    assert_eq!(runner.node_state(2).unwrap().phase, Phase::Invoking);
    assert!(!runner.is_quiescent());
    assert!(runner.poll().1.is_none());
    // A comes to its end, but what follows it is not started any more.
    let done = runner.on_returned(2, Ok(None), 0);
    assert!(matches!(&done[0], Command::EmitNode(p) if p.status == "done" && p.name == "A"));
    assert_eq!(runner.node_state(3).unwrap().phase, Phase::Pending);
    assert_eq!(runner.node_state(3).unwrap().remaining, 0);
    assert_eq!(runner.take_ready(), None);
    assert!(matches!(runner.poll().1, Some(Err(RunError::RunnerFailure(_)))));
}

#[test]
fn stale_reports_change_nothing() {
    let workflow = WorkflowSchema {
        nodes: vec![node("S", "Start"), node("A", "Echo")],
        connections: vec![edge("S", "A")],
    };
    let mut runner = WorkflowRunner::create(workflow).unwrap();
    assert!(runner.on_returned(0, Ok(None), 0).is_empty());
    assert!(runner.on_woke(1).is_empty());
    assert!(runner.on_returned(7, Ok(None), 0).is_empty());
    assert!(runner.start_node(1, true, Ok(Default::default())).is_empty());
    assert_eq!(runner.node_state(0).unwrap().phase, Phase::Pending);
    assert_eq!(runner.node_state(1).unwrap().remaining, 1);
    assert!(runner.node_state(2).is_none());
    assert!(runner.begin().len() == 1);
    assert!(runner.begin().is_empty());
}

#[test]
fn emit_failure_of_a_workflow_event_ends_the_run() {
    let workflow = WorkflowSchema { nodes: vec![node("S", "Start")], connections: vec![] };
    let mut runner = WorkflowRunner::create(workflow).unwrap();
    runner.begin();
    assert!(runner.on_emit_failed("pipe closed".to_string()).is_empty());
    assert!(runner.is_halted());
    assert_eq!(runner.node_state(0).unwrap().phase, Phase::Cancelled);
    match runner.poll().1 {
        Some(Err(e @ RunError::EmitFailure(_))) => {
            assert_eq!(e.message(), "failed to emit event: pipe closed")
        }
        other => panic!("unexpected end {:?}", other),
    }
}

#[test]
fn retry_decisions() {
    assert_eq!(handle_retry(-1, 50, 200, 1, 0), RetryDecision::Retry(200));
    assert_eq!(handle_retry(-7, 50, 0, 1_000_000, 0), RetryDecision::Retry(0));
    assert_eq!(handle_retry(0, 50, 200, 1, 0), RetryDecision::GiveUp);
    assert_eq!(handle_retry(2, 50, 200, 1, 0), RetryDecision::Retry(50));
    assert_eq!(handle_retry(2, 50, 200, 2, 170), RetryDecision::Retry(50));
    assert_eq!(handle_retry(2, 50, 200, 3, 0), RetryDecision::GiveUp);
    // Without end: the pause is what is left of the interval since the
    // attempt began.
    assert_eq!(handle_retry(-1, 50, 200, 3, 150), RetryDecision::Retry(50));
    assert_eq!(handle_retry(-1, 50, 200, 3, 199), RetryDecision::Retry(1));
    assert_eq!(handle_retry(-1, 50, 200, 3, 200), RetryDecision::Retry(0));
    assert_eq!(handle_retry(-1, 50, 200, 3, 5_000), RetryDecision::Retry(0));
    assert_eq!(handle_retry(-1, 50, 200, 3, u64::MAX), RetryDecision::Retry(0));
    assert_eq!(rest(200, 0), 200);
    assert_eq!(rest(200, 120), 80);
    assert_eq!(rest(10, 11), 0);
    assert_eq!(MIN_RETRY_INTERVAL_MS, 200);
}

#[test]
fn whole_number_outputs_are_published_as_numbers() {
    let mut ctx = Context::new("");
    let outputs = vec![
        ("count".to_string(), JsonValue::Number(JsonNumber::PosInt(3))),
        ("count".to_string(), JsonValue::Number(JsonNumber::PosInt(4))),
    ];
    auto_engine::types::node::publish_outputs(&mut ctx, "agg", &outputs);
    assert!(matches!(
        ctx.get_value("ctx.agg.count"),
        Some(JsonValue::Number(JsonNumber::PosInt(4)))
    ));
}
