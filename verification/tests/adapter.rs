use auto_engine::context::Context;
use auto_engine::json::{JsonNumber, JsonValue};
use auto_engine::node::data_aggregator::runner::DataAggregatorRunner;
use auto_engine::node::image_match::node::ImageMatchNode;
use auto_engine::node::keyboard::node::KeyboardNode;
use auto_engine::node::mouse_click::node::MouseClickNode;
use auto_engine::node::mouse_move::node::MouseMoveNode;
use auto_engine::node::screen_capture::node::ScreenCaptureNode;
use auto_engine::node::start::node::StartNode;
use auto_engine::node::start::runner::StartRunner;
use auto_engine::node::time_wait::node::TimeWaitNode;
use auto_engine::node::wasm::node::{HostNode, WasmNode};
use auto_engine::register::bus::BuiltinNode;
use auto_engine::types::field::{copy_fields, FieldType, SchemaField};
use auto_engine::types::node::{
    record_outcome, I18nValue, NodeDefine, NodeRunner, NodeRunnerController,
};

#[test]
fn outcome_with_outputs_is_published_and_handed_on() {
    let mut ctx = Context::new("");
    ctx.set_string_value("ctx.n.kept", "old");
    let outcome = Ok(Some(vec![
        ("a".to_string(), JsonValue::string("first")),
        ("b".to_string(), JsonValue::Number(JsonNumber::PosInt(2))),
        ("a".to_string(), JsonValue::string("last")),
    ]));
    let back = record_outcome(&mut ctx, "n", outcome).unwrap().unwrap();
    assert_eq!(back.len(), 3);
    assert_eq!(back[0].1.to_text(), "\"first\"");
    assert_eq!(ctx.get_value("ctx.n.a").unwrap().to_text(), "\"last\"");
    assert_eq!(ctx.get_value("ctx.n.b").unwrap().to_text(), "2");
    assert_eq!(ctx.get_value("ctx.n.kept").unwrap().to_text(), "\"old\"");
}

#[test]
fn outcome_without_outputs_leaves_the_context() {
    let mut ctx = Context::new("");
    assert!(matches!(record_outcome(&mut ctx, "n", Ok(None)), Ok(None)));
    assert_eq!(record_outcome(&mut ctx, "n", Err("no".to_string())).unwrap_err(), "no");
    assert!(ctx.get_value("ctx.n.a").is_none());
}

#[test]
fn adapter_reads_the_kind_of_the_first_field_of_the_name() {
    let mut ctx = Context::new("");
    let mut list = SchemaField::new("v", FieldType::Array);
    list.item_type = Some(FieldType::String);
    let schema = vec![list, SchemaField::new("v", FieldType::Object)];
    let mut adapter = NodeRunnerController::new(StartRunner::new());
    let err = adapter
        .execute(&mut ctx, "n", vec![("v".to_string(), JsonValue::string("x"))], &schema)
        .unwrap_err();
    assert_eq!(err, "Field 'v' cannot be parsed as an array: x");
    let schema = vec![SchemaField::new("w", FieldType::Array), SchemaField::new("v", FieldType::Object)];
    let err = adapter
        .execute(&mut ctx, "n", vec![("v".to_string(), JsonValue::string("x"))], &schema)
        .unwrap_err();
    assert_eq!(err, "Field 'v' cannot be parsed as an object: x");
    let schema = vec![SchemaField::new("k", FieldType::Number)];
    let err = adapter
        .execute(&mut ctx, "n", vec![("k".to_string(), JsonValue::string("1x"))], &schema)
        .unwrap_err();
    assert_eq!(err, "Field 'k' cannot be parsed as a number: 1x");
    assert!(ctx.get_value("ctx.n.k").is_none());
}

#[test]
fn data_aggregator_names_the_input_that_is_no_list() {
    let mut ctx = Context::new("");
    let mut runner = DataAggregatorRunner::new();
    let err = runner
        .run(&mut ctx, vec![
            ("mode".to_string(), JsonValue::string("object")),
            ("sources".to_string(), JsonValue::Array(vec![])),
            ("keys".to_string(), JsonValue::Bool(true)),
        ])
        .unwrap_err();
    assert_eq!(err, "Failed to parse node parameters: keys: expected a list");
    let err = runner
        .run(&mut ctx, vec![("mode".to_string(), JsonValue::string("object"))])
        .unwrap_err();
    assert_eq!(err, "Failed to parse node parameters: sources: expected a list of strings");
    let out = runner
        .run(&mut ctx, vec![
            ("mode".to_string(), JsonValue::string("object")),
            ("sources".to_string(), JsonValue::Array(vec![JsonValue::string("ctx.a.b")])),
            ("keys".to_string(), JsonValue::Null),
        ])
        .unwrap()
        .unwrap();
    assert_eq!(out.len(), 2);
    assert_eq!(out[0].0, "result");
    assert_eq!(out[0].1.to_text(), "{\"item_0\":null}");
    assert_eq!(out[1].0, "count");
    assert_eq!(out[1].1.to_text(), "1");
}

fn shown(fields: &Vec<SchemaField>) -> String {
    format!("{:?}", fields)
}

#[test]
fn builtin_node_answers_as_its_kind() {
    let input = vec![(
        "params".to_string(),
        JsonValue::Object(vec![("user".to_string(), JsonValue::string("ada"))]),
    )];
    let start = BuiltinNode::Start(StartNode::new());
    assert_eq!(start.action_type(), "Start");
    assert_eq!(start.name().en, StartNode::new().name().en);
    assert_eq!(start.icon(), StartNode::new().icon());
    assert_eq!(shown(&start.output_schema(&input)), shown(&StartNode::new().output_schema(&input)));
    assert_eq!(start.output_schema(&input)[0].name, "user");
    let keys = BuiltinNode::Keyboard(KeyboardNode::new());
    assert_eq!(keys.action_type(), "KeyBoard");
    assert_eq!(shown(&keys.input_schema()), shown(&KeyboardNode::new().input_schema()));
    assert_eq!(keys.category().unwrap().en, KeyboardNode::new().category().unwrap().en);
    let click = BuiltinNode::MouseClick(MouseClickNode::new());
    assert_eq!(click.action_type(), "MouseClick");
    assert_eq!(click.name().zh, "鼠标点击");
    assert_eq!(click.input_schema()[0].enums, vec!["left".to_string(), "right".to_string()]);
    let mv = BuiltinNode::MouseMove(MouseMoveNode::new());
    assert_eq!(mv.description().unwrap().zh, MouseMoveNode::new().description().unwrap().zh);
    let wait = BuiltinNode::TimeWait(TimeWaitNode::new());
    assert_eq!(wait.action_type(), "TimeWait");
    assert_eq!(shown(&wait.input_schema()), shown(&TimeWaitNode::new().input_schema()));
    let find = BuiltinNode::ImageMatch(ImageMatchNode::new());
    assert_eq!(shown(&find.output_schema(&input)), shown(&ImageMatchNode::new().output_schema(&input)));
}

#[test]
fn copies_of_fields_show_as_their_source() {
    let fields = ScreenCaptureNode::new().input_schema();
    assert!(fields.iter().any(|f| f.condition.is_some()));
    assert_eq!(shown(&copy_fields(&fields)), shown(&fields));
    assert_eq!(shown(&fields.clone()), shown(&fields));
    let one = fields.iter().find(|f| f.condition.is_some()).unwrap();
    assert_eq!(format!("{:?}", one.duplicate()), format!("{:?}", one));
    let condition = one.condition.as_ref().unwrap();
    assert_eq!(format!("{:?}", condition.duplicate()), format!("{:?}", condition));
    assert_eq!(format!("{:?}", condition.clone()), format!("{:?}", condition));
}

#[test]
fn plugin_node_hands_out_copies_of_its_lists() {
    let mut field = SchemaField::new("a", FieldType::Number);
    field.default = Some("1".to_string());
    let node = WasmNode::from_node(HostNode {
        action_type: "Plugin".to_string(),
        name: I18nValue::new("插件", "Plugin"),
        icon: "icon".to_string(),
        output_schema: vec![SchemaField::new("out", FieldType::String)],
        input_schema: vec![field],
        description: I18nValue::new("说明", "does things"),
        category: I18nValue::new("类", "plugins"),
    });
    assert_eq!(node.name().en, "Plugin");
    assert_eq!(node.category().unwrap().zh, "类");
    assert_eq!(node.description().unwrap().zh, "说明");
    assert_eq!(node.input_schema().len(), 1);
    assert_eq!(node.input_schema()[0].default, Some("1".to_string()));
    assert!(matches!(node.input_schema()[0].field_type, FieldType::Number));
    assert_eq!(node.output_schema(&vec![])[0].name, "out");
    assert_eq!(node.output_schema(&vec![]).len(), 1);
}
