use auto_engine::json::JsonValue;
use auto_engine::node::start::runner::StartRunnerFactory;
use auto_engine::register::bus::NodeRegisterBus;
use auto_engine::schema::node::{NodeSchema, Position};
use auto_engine::schema::workflow::{Connection, WorkflowSchema};
use auto_engine::types::field::{FieldType, SchemaField};
use auto_engine::types::node::{I18nValue, NodeDefine};
use auto_engine::types::typs::MetaData;
use auto_engine::workflow::builder::Builder;
use auto_engine::workflow::graph::{get_prev_node_outputs, Graph, NamedOutputs};

fn create_test_metadata(name: &str) -> MetaData {
    MetaData {
        name: name.to_string(),
        description: None,
        duration: None,
        retry: None,
        interval: None,
        conditions: None,
        err_return: None,
    }
}

fn create_test_schema_field(name: &str, field_type: FieldType) -> SchemaField {
    SchemaField {
        name: name.to_string(),
        field_type,
        item_type: None,
        description: None,
        enums: vec![],
        default: None,
        condition: None,
    }
}

struct MockNodeDefine {
    action_type: String,
    output_schema: Vec<SchemaField>,
}

impl NodeDefine for MockNodeDefine {
    fn action_type(&self) -> String {
        self.action_type.clone()
    }

    fn name(&self) -> I18nValue {
        I18nValue { zh: "测试节点".to_string(), en: "Test Node".to_string() }
    }

    fn icon(&self) -> String {
        "test-icon".to_string()
    }

    fn category(&self) -> Option<I18nValue> {
        None
    }

    fn description(&self) -> Option<I18nValue> {
        None
    }

    fn output_schema(&self, _input: &Vec<(String, JsonValue)>) -> Vec<SchemaField> {
        self.output_schema.clone()
    }

    fn input_schema(&self) -> Vec<SchemaField> {
        vec![]
    }
}

type Bus = NodeRegisterBus<MockNodeDefine, StartRunnerFactory>;

fn register(bus: &mut Bus, action: &str, fields: Vec<SchemaField>) {
    bus.register_node(
        action.to_string(),
        MockNodeDefine { action_type: action.to_string(), output_schema: fields },
    );
}

fn node(id: &str, action: &str, name: &str) -> NodeSchema {
    NodeSchema {
        node_id: id.to_string(),
        action_type: action.to_string(),
        metadata: create_test_metadata(name),
        input_data: None,
        position: Position::default(),
        icon: None,
    }
}

/// A graph of the nodes behind a Start that leads to each of `first`.
fn graph(nodes: Vec<NodeSchema>, first: &[&str], edges: &[(&str, &str)]) -> Graph {
    let mut all = vec![node("start", "Start", "start")];
    all.extend(nodes);
    let mut connections: Vec<Connection> = first
        .iter()
        .map(|to| Connection { from: "start".to_string(), to: to.to_string() })
        .collect();
    connections.extend(
        edges.iter().map(|(from, to)| Connection { from: from.to_string(), to: to.to_string() }),
    );
    let workflow = WorkflowSchema { nodes: all, connections };
    assert!(workflow.has_distinct_ids());
    Builder::new(workflow).build().unwrap()
}

fn names(all: &[NamedOutputs]) -> Vec<&str> {
    let mut names: Vec<&str> = all.iter().map(|o| o.name.as_str()).collect();
    names.sort();
    names
}

#[test]
fn test_prev_parameters_with_nonexistent_node() {
    let bus = Bus::new();
    let graph = graph(vec![], &[], &[]);

    let result = graph.node_params_from_ctx("nonexistent", &bus);

    assert!(result.is_ok());
    assert!(result.unwrap().is_empty());
}

#[test]
fn test_prev_parameters_with_single_node_no_prev() {
    let mut bus = Bus::new();
    let output_fields = vec![
        create_test_schema_field("result", FieldType::String),
        create_test_schema_field("count", FieldType::Number),
    ];
    register(&mut bus, "TestAction", output_fields);
    let graph = graph(vec![node("node-1", "TestAction", "test_node")], &[], &[]);

    let result = graph.node_params_from_ctx("node-1", &bus);

    assert!(result.is_ok());
    assert!(result.unwrap().is_empty());
}

#[test]
fn test_prev_parameters_with_node_not_registered() {
    let bus = Bus::new();
    let graph = graph(
        vec![
            node("node-1", "UnknownAction", "test_node"),
            node("node-2", "SecondAction", "consumer_node"),
        ],
        &["node-1"],
        &[("node-1", "node-2")],
    );

    let result = graph.node_params_from_ctx("node-2", &bus);

    assert!(result.is_err());
    assert!(result.err().unwrap().contains("Node UnknownAction not found"));
}

#[test]
fn test_prev_parameters_with_prev_nodes() {
    let mut bus = Bus::new();
    register(&mut bus, "FirstAction", vec![create_test_schema_field("output1", FieldType::String)]);
    register(&mut bus, "SecondAction", vec![create_test_schema_field("output2", FieldType::Number)]);
    let graph = graph(
        vec![
            node("node-1", "FirstAction", "first_node"),
            node("node-2", "SecondAction", "second_node"),
        ],
        &["node-1"],
        &[("node-1", "node-2")],
    );

    let result = graph.node_params_from_ctx("node-2", &bus);

    assert!(result.is_ok());
    let params = result.unwrap();
    assert_eq!(params.len(), 1);
    assert_eq!(names(&params), vec!["first_node"]);
    assert_eq!(params[0].fields.len(), 1);
}

#[test]
fn test_prev_parameters_with_multiple_prev_nodes() {
    let mut bus = Bus::new();
    register(&mut bus, "Action1", vec![create_test_schema_field("out1", FieldType::String)]);
    register(&mut bus, "Action2", vec![create_test_schema_field("out2", FieldType::String)]);
    register(&mut bus, "Action3", vec![create_test_schema_field("out3", FieldType::String)]);
    let graph = graph(
        vec![
            node("node-1", "Action1", "node1"),
            node("node-2", "Action2", "node2"),
            node("node-3", "Action3", "node3"),
        ],
        &["node-1", "node-2"],
        &[("node-1", "node-3"), ("node-2", "node-3")],
    );

    let result = graph.node_params_from_ctx("node-3", &bus);

    assert!(result.is_ok());
    let params = result.unwrap();
    assert_eq!(params.len(), 2);
    assert_eq!(names(&params), vec!["node1", "node2"]);
}

#[test]
fn test_prev_parameters_with_chain() {
    let mut bus = Bus::new();
    for i in 1..=3 {
        register(
            &mut bus,
            &format!("Action{}", i),
            vec![create_test_schema_field(&format!("out{}", i), FieldType::String)],
        );
    }
    let graph = graph(
        vec![
            node("node-1", "Action1", "node1"),
            node("node-2", "Action2", "node2"),
            node("node-3", "Action3", "node3"),
        ],
        &["node-1"],
        &[("node-1", "node-2"), ("node-2", "node-3")],
    );

    let result = graph.node_params_from_ctx("node-3", &bus);

    assert!(result.is_ok());
    let params = result.unwrap();
    assert_eq!(params.len(), 2);
    assert_eq!(names(&params), vec!["node1", "node2"]);
}

#[test]
fn test_prev_parameters_output_schema_content() {
    let mut bus = Bus::new();
    register(&mut bus, "TestAction", vec![
        create_test_schema_field("field1", FieldType::String),
        create_test_schema_field("field2", FieldType::Number),
        create_test_schema_field("field3", FieldType::Boolean),
    ]);
    let graph = graph(
        vec![node("node-1", "TestAction", "test_node"), node("node-2", "ConsumerAction", "consumer")],
        &["node-1"],
        &[("node-1", "node-2")],
    );

    let result = graph.node_params_from_ctx("node-2", &bus);

    assert!(result.is_ok());
    let params = result.unwrap();
    let schema = &params.iter().find(|o| o.name == "test_node").unwrap().fields;
    assert_eq!(schema.len(), 3);
    assert_eq!(schema[0].name, "field1");
    assert_eq!(schema[1].name, "field2");
    assert_eq!(schema[2].name, "field3");
}

#[test]
fn outputs_of_the_start_are_met_where_its_kind_is_registered() {
    let mut bus = Bus::new();
    register(&mut bus, "Start", vec![create_test_schema_field("user", FieldType::String)]);
    register(&mut bus, "Action1", vec![]);
    let graph = graph(
        vec![node("node-1", "Action1", "node1"), node("node-2", "Action2", "node2")],
        &["node-1"],
        &[("node-1", "node-2")],
    );
    let all = get_prev_node_outputs(&graph, &bus, 2).unwrap_or_default();
    assert_eq!(names(&all), vec!["node1", "start"]);
    // Right before the first node stands the Start only.
    let all = get_prev_node_outputs(&graph, &bus, 1).unwrap_or_default();
    assert_eq!(names(&all), vec!["start"]);
    assert!(get_prev_node_outputs(&graph, &bus, 0).unwrap_or_default().is_empty());
}

#[test]
fn every_node_that_leads_there_is_named_once() {
    let mut bus = Bus::new();
    register(&mut bus, "Start", vec![create_test_schema_field("begun", FieldType::Boolean)]);
    register(&mut bus, "Work", vec![create_test_schema_field("done", FieldType::String)]);
    let graph = graph(
        vec![
            node("a", "Work", "left"),
            node("b", "Work", "right"),
            node("c", "Work", "joint"),
            node("d", "Work", "last"),
        ],
        &["a", "b"],
        &[("a", "c"), ("b", "c"), ("c", "d")],
    );
    let all = graph.node_params_from_ctx("d", &bus).unwrap();
    assert_eq!(names(&all), vec!["joint", "left", "right", "start"]);
    let start = all.iter().find(|o| o.name == "start").unwrap();
    assert_eq!(start.fields.len(), 1);
    assert_eq!(start.fields[0].name, "begun");
    let joint = all.iter().find(|o| o.name == "joint").unwrap();
    assert_eq!(joint.fields[0].name, "done");
    // The node itself and what follows it are not among them.
    let before_joint = graph.node_params_from_ctx("c", &bus).unwrap();
    assert_eq!(names(&before_joint), vec!["left", "right", "start"]);
}

#[test]
fn nodes_of_one_name_share_an_entry() {
    let mut bus = Bus::new();
    register(&mut bus, "Start", vec![]);
    register(&mut bus, "One", vec![create_test_schema_field("one", FieldType::String)]);
    register(&mut bus, "Two", vec![create_test_schema_field("two", FieldType::String)]);
    let graph = graph(
        vec![node("a", "One", "same"), node("b", "Two", "same"), node("c", "One", "end")],
        &["a"],
        &[("a", "b"), ("b", "c")],
    );
    let all = graph.node_params_from_ctx("c", &bus).unwrap();
    assert_eq!(names(&all), vec!["same", "start"]);
    let same = all.iter().find(|o| o.name == "same").unwrap();
    assert_eq!(same.fields.len(), 1);
    assert!(same.fields[0].name == "one" || same.fields[0].name == "two");
}
