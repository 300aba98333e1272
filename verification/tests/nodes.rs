use auto_engine::context::Context;
use auto_engine::event::node::{NodeEventPayload, NODE_EVENT};
use auto_engine::event::workflow::{WorkflowEventPayload, WorkflowStatus, WORKFLOW_EVENT};
use auto_engine::json::{JsonNumber, JsonValue};
use auto_engine::node::data_aggregator::node::DataAggregatorNode;
use auto_engine::node::data_aggregator::runner::{
    member_key, DataAggregatorParam, DataAggregatorRunner, DataAggregatorRunnerFactory,
};
use auto_engine::node::http::node::HttpNode;
use auto_engine::node::http::runner::{
    parse_method, split_header, HttpMethod, HttpParams, HttpRunnerFactory,
};
use auto_engine::node::image_match::node::ImageMatchNode;
use auto_engine::node::image_match::runner::{imread_mode, ImageMatchRunnerFactory, ImreadMode};
use auto_engine::node::keyboard::node::KeyboardNode;
use auto_engine::node::mouse_click::node::MouseClickNode;
use auto_engine::node::mouse_click::runner::{
    parse_button, MouseButton, MouseClickNodeFactory, MouseClickParams,
};
use auto_engine::node::mouse_move::node::MouseMoveNode;
use auto_engine::node::mouse_move::runner::{divide, scale_divisor, MouseMoveNodeFactory, MouseMoveParams};
use auto_engine::node::ocr::node::OcrNode;
use auto_engine::node::ocr::runner::{OcrParams, OcrRunner, OcrRunnerFactory};
use auto_engine::node::screen_capture::node::ScreenCaptureNode;
use auto_engine::node::screen_capture::runner::{
    Region, ScreenCaptureParams, ScreenCaptureRunner, ScreenCaptureRunnerFactory,
};
use auto_engine::node::start::node::{start_params, StartNode};
use auto_engine::node::start::runner::{StartRunner, StartRunnerFactory};
use auto_engine::node::time_wait::node::TimeWaitNode;
use auto_engine::node::time_wait::runner::{TimeWaitParam, TimeWaitRunner, TimeWaitRunnerFactory};
use auto_engine::node::wasm::node::{HostNode, WasmNode};
use auto_engine::notification::emitter::{Emitter, NotificationEmitter};
use auto_engine::notification::tauri::TauriEmitter;
use auto_engine::plugin::loader::PluginLoader;
use auto_engine::register::bus::{BuiltinNode, InternalFactories, NodeRegisterBus};
use auto_engine::runner::mouse::{convert_to_int, MouseRunner};
use auto_engine::types::conditions::Conditions;
use auto_engine::types::field::{Condition, FieldType, ValueConstraint};
use auto_engine::types::node::{
    I18nValue, NodeDefine, NodeRunner, NodeRunnerControl, NodeRunnerFactory,
};
use auto_engine::types::typs::{ImageOptimization, MetaData, Node};
use std::cell::RefCell;
use std::rc::Rc;

#[test]
fn built_in_node_kinds_name_themselves() {
    assert_eq!(StartNode::new().action_type(), "Start");
    assert_eq!(TimeWaitNode::new().action_type(), "TimeWait");
    assert_eq!(DataAggregatorNode::new().action_type(), "DataAggregator");
    assert_eq!(HttpNode::new().action_type(), "HTTPClient");
    assert_eq!(ImageMatchNode::new().action_type(), "ImageMatch");
    assert_eq!(KeyboardNode::new().action_type(), "KeyBoard");
    assert_eq!(MouseClickNode::new().action_type(), "MouseClick");
    assert_eq!(MouseMoveNode::new().action_type(), "MouseMove");
    assert_eq!(OcrNode::new().action_type(), "OCR");
    assert_eq!(ScreenCaptureNode::new().action_type(), "ScreenCapture");
}

#[test]
fn built_in_node_kinds_declare_their_fields() {
    let http = HttpNode::new();
    let names: Vec<String> = http.input_schema().into_iter().map(|f| f.name).collect();
    assert_eq!(names, vec!["method", "url", "headers", "body", "timeout_ms"]);
    assert_eq!(http.input_schema()[4].default.as_deref(), Some("30000"));
    assert_eq!(http.input_schema()[2].item_type, Some(FieldType::String));
    assert_eq!(http.name().en, "HTTP Request");
    assert!(http.icon().starts_with("data:image/svg+xml;base64,"));
    let outputs: Vec<String> = http.output_schema(&vec![]).into_iter().map(|f| f.name).collect();
    assert_eq!(outputs, vec!["status", "body"]);

    let wait = TimeWaitNode::new();
    assert_eq!(wait.input_schema().len(), 1);
    assert_eq!(wait.input_schema()[0].field_type, FieldType::Number);
    assert!(wait.output_schema(&vec![]).is_empty());
    assert_eq!(wait.category().unwrap().en, "Basic Node");

    let capture = ScreenCaptureNode::new();
    let fields = capture.input_schema();
    let x = fields.iter().find(|f| f.name == "x").unwrap();
    match x.condition.as_ref().unwrap() {
        Condition::Field(c) => {
            assert_eq!(c.field, "mode");
            assert!(c.required);
            assert!(matches!(&c.constraint, ValueConstraint::String(s)
                if s.equals.as_deref() == Some("area")));
        }
        other => panic!("unexpected condition {:?}", other),
    }
    assert!(fields.iter().find(|f| f.name == "mode").unwrap().condition.is_none());
    let copy = x.clone();
    assert!(matches!(copy.condition, Some(Condition::Field(ref c)) if c.field == "mode"));

    let aggregator = DataAggregatorNode::new();
    assert_eq!(aggregator.input_schema()[0].enums, vec!["object", "array"]);
    assert_eq!(aggregator.description().unwrap().en,
        "Aggregate values from multiple data sources into an object or array");
}

#[test]
fn start_node_offers_the_members_of_its_params() {
    let input = vec![(
        "params".to_string(),
        JsonValue::Object(vec![
            ("user".to_string(), JsonValue::String("ada".to_string())),
            ("tries".to_string(), JsonValue::Number(JsonNumber::PosInt(3))),
        ]),
    )];
    let fields = StartNode::new().output_schema(&input);
    let names: Vec<&str> = fields.iter().map(|f| f.name.as_str()).collect();
    assert_eq!(names, vec!["user", "tries"]);
    assert!(fields.iter().all(|f| f.field_type == FieldType::String));
    assert!(StartNode::new().output_schema(&vec![]).is_empty());
    assert!(start_params(&vec![("params".to_string(), JsonValue::Null)]).is_empty());

    let mut ctx = Context::new("");
    let outputs = StartRunner::new().run(&mut ctx, input).unwrap().unwrap();
    assert_eq!(outputs.len(), 2);
    assert_eq!(outputs[0].0, "user");
    assert!(matches!(&outputs[1].1, JsonValue::Number(JsonNumber::PosInt(3))));

    let mut controlled = StartRunnerFactory::new().create();
    let result = controlled
        .run(
            &mut ctx,
            "begin",
            vec![(
                "params".to_string(),
                JsonValue::Object(vec![("user".to_string(), JsonValue::string("ada"))]),
            )],
            &StartNode::new().input_schema(),
        )
        .unwrap()
        .unwrap();
    assert_eq!(result.len(), 1);
    assert!(matches!(ctx.get_value("ctx.begin.user"), Some(JsonValue::String(ref s)) if s == "ada"));
}

#[test]
fn start_params_given_as_a_bare_string_are_refused() {
    let mut ctx = Context::new("");
    let mut controlled = StartRunnerFactory::new().create();
    let err = controlled
        .run(
            &mut ctx,
            "begin",
            vec![("params".to_string(), JsonValue::string("{}"))],
            &StartNode::new().input_schema(),
        )
        .unwrap_err();
    assert_eq!(err, "Field 'params' cannot be parsed as an object: {}");
}

#[test]
fn data_aggregator_gathers_values() {
    let mut ctx = Context::new("");
    ctx.set_string_value("ctx.a.v", "one");
    ctx.set_value("ctx.b.v", JsonValue::Number(JsonNumber::PosInt(2)));
    let param = DataAggregatorParam {
        mode: "object".to_string(),
        sources: vec![
            "ctx.a.v".to_string(),
            "${ctx.b.v}".to_string(),
            "${ctx.c.v:three}".to_string(),
            "ctx.d.v".to_string(),
        ],
        keys: vec!["first".to_string(), "second".to_string()],
    };
    let out = DataAggregatorRunner::aggregate(&ctx, &param);
    assert_eq!(out[0].0, "result");
    assert_eq!(
        out[0].1.to_text(),
        "{\"first\":\"one\",\"second\":2,\"item_2\":\"three\",\"item_3\":null}"
    );
    assert_eq!(out[1].0, "count");
    assert!(matches!(out[1].1, JsonValue::Number(JsonNumber::PosInt(4))));

    let as_array = DataAggregatorParam { mode: "ARRAY".to_string(), ..param.clone() };
    let out = DataAggregatorRunner::aggregate(&ctx, &as_array);
    assert_eq!(out[0].1.to_text(), "[\"one\",2,\"three\",null]");
    // Any other mode gives an object.
    let other = DataAggregatorParam { mode: "list".to_string(), keys: vec![], ..param };
    let out = DataAggregatorRunner::aggregate(&ctx, &other);
    assert!(out[0].1.to_text().starts_with("{\"item_0\":\"one\""));
    assert_eq!(member_key(&vec!["k".to_string()], 0), "k");
    assert_eq!(member_key(&vec!["k".to_string()], 12), "item_12");
}

#[test]
fn data_aggregator_runs_behind_its_adapter() {
    let mut ctx = Context::new("");
    ctx.set_string_value("ctx.a.v", "one");
    let mut runner = DataAggregatorRunnerFactory::new().create();
    let params = vec![
        ("mode".to_string(), JsonValue::string("array")),
        ("sources".to_string(), JsonValue::Array(vec![JsonValue::string("ctx.a.v")])),
    ];
    let outputs = runner
        .run(&mut ctx, "gather", params, &DataAggregatorNode::new().input_schema())
        .unwrap()
        .unwrap();
    assert_eq!(outputs[0].1.to_text(), "[\"one\"]");
    assert_eq!(ctx.get_value("ctx.gather.result").unwrap().to_text(), "[\"one\"]");
    assert_eq!(ctx.get_value("ctx.gather.count").unwrap().to_text(), "1");

    let mut direct = DataAggregatorRunner::new();
    let err = direct.run(&mut ctx, vec![("mode".to_string(), JsonValue::Null)]).unwrap_err();
    assert_eq!(err, "Failed to parse node parameters: mode: expected a string");
    let err = direct
        .run(&mut ctx, vec![
            ("mode".to_string(), JsonValue::string("array")),
            ("sources".to_string(), JsonValue::Array(vec![JsonValue::Null])),
        ])
        .unwrap_err();
    assert_eq!(err, "Failed to parse node parameters: sources: expected a list of strings");
    assert!(DataAggregatorParam::from_params(&vec![
        ("mode".to_string(), JsonValue::string("array")),
        ("sources".to_string(), JsonValue::Array(vec![])),
    ])
    .unwrap()
    .keys
    .is_empty());
}

#[test]
fn typed_parameters_are_read_from_inputs() {
    let wait = TimeWaitParam::from_params(&vec![(
        "duration".to_string(),
        JsonValue::Number(JsonNumber::PosInt(3)),
    )])
    .unwrap();
    assert_eq!(wait.duration, 3);
    assert!(TimeWaitParam::from_params(&vec![(
        "duration".to_string(),
        JsonValue::Number(JsonNumber::NegInt(-3)),
    )])
    .is_err());
    assert!(TimeWaitParam::from_params(&vec![]).is_err());

    let click =
        MouseClickParams::from_params(&vec![("value".to_string(), JsonValue::string("Left"))]).unwrap();
    assert_eq!(click.value, "Left");
    assert!(MouseClickParams::from_params(&vec![("value".to_string(), JsonValue::Bool(true))]).is_err());

    let ocr = OcrParams::from_params(&vec![
        ("image".to_string(), JsonValue::string("a.png")),
        ("digits_only".to_string(), JsonValue::Bool(true)),
    ])
    .unwrap();
    assert!(ocr.digits_only && ocr.image == "a.png");

    let mv = MouseMoveParams::from_params(&vec![
        ("x".to_string(), JsonValue::Number(JsonNumber::PosInt(301))),
        ("y".to_string(), JsonValue::Number(JsonNumber::NegInt(-7))),
        ("hidpi".to_string(), JsonValue::string("200%")),
    ])
    .unwrap();
    assert_eq!(mv.target(), (150, -3));
    assert!(MouseMoveParams::from_params(&vec![
        ("x".to_string(), JsonValue::Number(JsonNumber::PosInt(1 << 40))),
        ("y".to_string(), JsonValue::Number(JsonNumber::PosInt(0))),
        ("hidpi".to_string(), JsonValue::string("100%")),
    ])
    .is_err());
}

#[test]
fn mouse_helpers() {
    assert_eq!(parse_button("left"), Ok(MouseButton::Left));
    assert_eq!(parse_button("RIGHT"), Ok(MouseButton::Right));
    assert_eq!(parse_button("middle").unwrap_err(), "Invalid button value 'middle'");
    assert_eq!(scale_divisor("100%"), 1);
    assert_eq!(scale_divisor("200%"), 2);
    assert_eq!(scale_divisor("400%"), 4);
    assert_eq!(scale_divisor("150%"), 1);
    for (a, d) in [(7, 2), (-7, 2), (i32::MIN, 4), (i32::MAX, 4), (0, 1), (-1, 4)] {
        assert_eq!(divide(a, d), a / d);
    }
    assert_eq!(convert_to_int("15"), Some(15));
    assert_eq!(convert_to_int("x"), None);
    let _ = (MouseRunner::new(), MouseClickNodeFactory::new(), MouseMoveNodeFactory::new());
}

#[test]
fn http_helpers() {
    assert_eq!(parse_method("get"), Some(HttpMethod::Get));
    assert_eq!(parse_method("PoSt"), Some(HttpMethod::Post));
    assert_eq!(parse_method("PUT"), None);
    assert_eq!(
        split_header(" Content-Type :  text/plain; a:b \t"),
        Some(("Content-Type".to_string(), "text/plain; a:b".to_string()))
    );
    assert_eq!(split_header("X:"), Some(("X".to_string(), String::new())));
    assert_eq!(split_header(":"), Some((String::new(), String::new())));
    assert_eq!(split_header("no colon"), None);
    for item in ["a: b", "  a  :\u{a0}b\u{3000}", "\t\n:x", "k:  ", "::"] {
        let parts: Vec<&str> = item.splitn(2, ':').collect();
        assert_eq!(
            split_header(item),
            Some((parts[0].trim().to_string(), parts[1].trim().to_string())),
            "input {:?}",
            item
        );
    }
    assert_eq!(HttpParams::default_timeout(), 30_000);
    let mut params = HttpParams {
        method: "post".to_string(),
        url: "http://localhost".to_string(),
        headers: None,
        body: "x".to_string(),
        timeout_ms: HttpParams::default_timeout(),
    };
    assert!(params.sends_body());
    params.body.clear();
    assert!(!params.sends_body());
    params.body.push('x');
    params.method = "get".to_string();
    assert!(!params.sends_body());
    let _ = HttpRunnerFactory::new();
}

#[test]
fn image_and_text_helpers() {
    assert_eq!(imread_mode("COLOR"), ImreadMode::Color);
    assert_eq!(imread_mode("color"), ImreadMode::Color);
    assert_eq!(imread_mode("GRAYSCALE"), ImreadMode::Grayscale);
    assert_eq!(imread_mode("other"), ImreadMode::Grayscale);
    let ocr = OcrRunner::new();
    assert_eq!(ocr.extract_digits("a1b22 c٣-3"), "1223");
    assert_eq!(ocr.extract_digits(""), "");
    let _ = (OcrRunnerFactory::new(), ImageMatchRunnerFactory::new());
    let optimization = ImageOptimization::default();
    assert_eq!(optimization.resize.as_deref(), Some("1.0"));
    assert_eq!(optimization.imread_type.as_deref(), Some("GRAYSCALE"));
    assert_eq!(optimization.resize(), "1.0");
    assert_eq!(optimization.imread_type(), ImreadMode::Grayscale);
    let colour =
        ImageOptimization { resize: Some("0.5".to_string()), imread_type: Some("COLOR".to_string()) };
    assert_eq!(colour.resize(), "0.5");
    assert_eq!(colour.imread_type(), ImreadMode::Color);
    let unsaid = ImageOptimization { resize: None, imread_type: Some("color".to_string()) };
    assert_eq!(unsaid.resize(), "1.0");
    assert_eq!(unsaid.imread_type(), ImreadMode::Grayscale);
}

#[test]
fn screen_capture_region() {
    let mut params = ScreenCaptureParams {
        mode: "full".to_string(),
        file_name: "shot.png".to_string(),
        screen_index: 0,
        x: Some(1),
        y: None,
        width: None,
        height: None,
    };
    assert_eq!(params.region(), Ok(None));
    params.mode = "Area".to_string();
    assert_eq!(
        params.region().unwrap_err(),
        "Area mode requires x, y, width and height to be provided"
    );
    params.y = Some(2);
    params.width = Some(30);
    params.height = Some(40);
    assert_eq!(params.region(), Ok(Some(Region { x: 1, y: 2, width: 30, height: 40 })));
    let _ = (ScreenCaptureRunner::new(), ScreenCaptureRunnerFactory::new());
    let _ = (TimeWaitRunner::new(), TimeWaitRunnerFactory::new());
}

#[test]
fn plugin_node_declares_what_the_plugin_said() {
    let node = WasmNode::from_node(HostNode {
        action_type: "Plugin".to_string(),
        name: I18nValue::new("插件", "Plugin"),
        icon: "icon".to_string(),
        output_schema: vec![],
        input_schema: vec![auto_engine::types::field::SchemaField::new("a", FieldType::Number)],
        description: I18nValue::new("", "does things"),
        category: I18nValue::new("", "plugins"),
    });
    assert_eq!(node.action_type(), "Plugin");
    assert_eq!(node.name().zh, "插件");
    assert_eq!(node.icon(), "icon");
    assert_eq!(node.input_schema()[0].name, "a");
    assert_eq!(node.description().unwrap().en, "does things");
    assert_eq!(node.category().unwrap().en, "plugins");
    let loader = PluginLoader::new();
    assert!(loader.is_plugin_file("node.wasm"));
    assert!(loader.is_plugin_file("a.b.wasm"));
    assert!(!loader.is_plugin_file(".wasm"));
    assert!(!loader.is_plugin_file("wasm"));
    assert!(!loader.is_plugin_file("node.wasm.bak"));
    assert!(!loader.is_plugin_file("node.WASM"));
}

struct Kind(&'static str);

impl NodeDefine for Kind {
    fn action_type(&self) -> String {
        self.0.to_string()
    }
    fn name(&self) -> I18nValue {
        I18nValue::new("", self.0)
    }
    fn icon(&self) -> String {
        String::new()
    }
    fn category(&self) -> Option<I18nValue> {
        None
    }
    fn description(&self) -> Option<I18nValue> {
        None
    }
    fn output_schema(&self, _input: &Vec<(String, JsonValue)>) -> Vec<auto_engine::types::field::SchemaField> {
        vec![]
    }
    fn input_schema(&self) -> Vec<auto_engine::types::field::SchemaField> {
        vec![]
    }
}

#[test]
fn registry_keeps_the_last_registration() {
    let mut bus: NodeRegisterBus<Kind, StartRunnerFactory> = NodeRegisterBus::new();
    assert!(bus.load_node("a").is_none());
    assert!(bus.create_runner("a").is_none());
    assert!(bus.list_nodes().is_empty());
    assert_eq!(bus.register(Kind("a"), StartRunnerFactory::new()), "a");
    bus.register_node("b".to_string(), Kind("first b"));
    bus.register_node("b".to_string(), Kind("second b"));
    assert_eq!(bus.load_node("a").unwrap().0, "a");
    assert_eq!(bus.load_node("b").unwrap().0, "second b");
    assert!(bus.create_runner("a").is_some());
    assert!(bus.create_runner("b").is_none());
    assert!(bus.is_registered("a"));
    assert!(!bus.is_registered("b"));
    bus.register_runner("b".to_string(), StartRunnerFactory::new());
    assert!(bus.is_registered("b"));
    assert!(bus.load_runner_factory("c").is_none());
    let mut listed: Vec<&str> = bus.list_nodes().iter().map(|k| k.0).collect();
    listed.sort();
    assert_eq!(listed, vec!["a", "second b"]);
}

#[test]
fn registry_brings_the_built_in_kinds_along() {
    let bus: NodeRegisterBus<BuiltinNode, StartRunnerFactory> = NodeRegisterBus::new()
        .with_internal_nodes(InternalFactories {
            start: StartRunnerFactory::new(),
            mouse_move: StartRunnerFactory::new(),
            mouse_click: StartRunnerFactory::new(),
            keyboard: StartRunnerFactory::new(),
            image_match: StartRunnerFactory::new(),
            time_wait: StartRunnerFactory::new(),
            data_aggregator: StartRunnerFactory::new(),
        });
    for action in
        ["Start", "MouseMove", "MouseClick", "KeyBoard", "ImageMatch", "TimeWait", "DataAggregator"]
    {
        assert!(bus.is_registered(action), "{}", action);
        assert_eq!(bus.load_node(action).unwrap().action_type(), action);
    }
    assert!(!bus.is_registered("HTTPClient"));
    assert_eq!(bus.list_nodes().len(), 7);
    assert_eq!(bus.load_node("TimeWait").unwrap().name().en, "Time Wait");
    assert_eq!(bus.load_node("MouseMove").unwrap().input_schema().len(), 3);
}

struct Recorder {
    seen: Rc<RefCell<Vec<String>>>,
    fail: bool,
    label: &'static str,
}

impl Emitter for Recorder {
    fn emit(&self, event: &str, payload: &JsonValue) -> Result<(), String> {
        self.seen.borrow_mut().push(format!("{}:{}:{}", self.label, event, payload.to_text()));
        if self.fail {
            Err(format!("{} is down", self.label))
        } else {
            Ok(())
        }
    }
}

#[test]
fn emitter_hands_events_to_every_backend_and_stops_at_the_first_failure() {
    let seen = Rc::new(RefCell::new(vec![]));
    let empty: NotificationEmitter<Recorder> = NotificationEmitter::new();
    assert_eq!(empty.len(), 0);
    assert!(empty.emit(NODE_EVENT, &JsonValue::Null).is_ok());

    let emitter = NotificationEmitter::new()
        .with_emitter(Recorder { seen: seen.clone(), fail: false, label: "a" })
        .with_emitter(Recorder { seen: seen.clone(), fail: true, label: "b" })
        .with_emitter(Recorder { seen: seen.clone(), fail: false, label: "c" });
    assert_eq!(emitter.len(), 3);
    let payload = WorkflowEventPayload { status: WorkflowStatus::Running }.to_json();
    assert_eq!(emitter.emit(WORKFLOW_EVENT, &payload).unwrap_err(), "b is down");
    assert_eq!(
        *seen.borrow(),
        vec![
            "a:workflow:{\"status\":\"running\"}".to_string(),
            "b:workflow:{\"status\":\"running\"}".to_string()
        ]
    );
    let wrapped = TauriEmitter::new(Recorder { seen: seen.clone(), fail: false, label: "t" });
    assert!(wrapped.emit("node", &JsonValue::Bool(true)).is_ok());
    assert_eq!(seen.borrow().last().unwrap(), "t:node:true");
}

#[test]
fn event_payloads() {
    assert_eq!(NODE_EVENT, "node");
    assert_eq!(WORKFLOW_EVENT, "workflow");
    let running = NodeEventPayload::running("n".to_string());
    assert_eq!((running.status.as_str(), running.name.as_str()), ("running", "n"));
    assert!(running.result.is_none());
    assert_eq!(running.to_json().to_text(), "{\"status\":\"running\",\"name\":\"n\",\"result\":null}");
    assert_eq!(NodeEventPayload::waiting("n".to_string()).status, "waiting");
    assert_eq!(NodeEventPayload::skip("n".to_string(), None).status, "skip");
    assert_eq!(NodeEventPayload::error("n".to_string(), None).status, "error");
    let cancel = NodeEventPayload::cancel();
    assert_eq!((cancel.status.as_str(), cancel.name.as_str()), ("cancel", "*"));
    let done = NodeEventPayload::success(
        "n".to_string(),
        Some(JsonValue::Object(vec![("x".to_string(), JsonValue::string("1"))])),
    );
    assert_eq!(
        done.to_json().to_text(),
        "{\"status\":\"done\",\"name\":\"n\",\"result\":{\"x\":\"1\"}}"
    );
    let custom = NodeEventPayload::new("s".to_string(), "n".to_string(), Some(JsonValue::Null));
    assert_eq!(custom.status, "s");
    for (status, text) in [
        (WorkflowStatus::Running, "running"),
        (WorkflowStatus::Paused, "paused"),
        (WorkflowStatus::Finished, "finished"),
        (WorkflowStatus::Cancelled, "cancelled"),
    ] {
        assert_eq!(status.as_str(), text);
        assert_eq!(
            WorkflowEventPayload { status }.to_json().to_text(),
            format!("{{\"status\":\"{}\"}}", text)
        );
    }
}

#[test]
fn pipeline_nodes_answer_for_their_metadata() {
    let mut metadata = MetaData::named("wait a bit");
    metadata.err_return = Some(false);
    metadata.conditions =
        Some(Conditions { exist: None, condition: Some("1 +".to_string()), not_exist: None });
    let node = Node::TimeWait { metadata };
    assert_eq!(node.name(), "wait a bit");
    assert_eq!(node.metadata().name, "wait a bit");
    assert!(!node.stop_when_error());
    assert_eq!(node.conditions().unwrap().condition.as_deref(), Some("1 +"));
    let ctx = Context::new("");
    // The conditions cannot be evaluated.
    assert!(!node.check_conditions(&ctx));
    let plain = Node::Start { metadata: MetaData::named("s") };
    assert!(plain.stop_when_error());
    assert!(plain.conditions().is_none());
    assert!(plain.check_conditions(&ctx));
    let mut gated = MetaData::named("g");
    gated.conditions =
        Some(Conditions { exist: Some("gone".to_string()), condition: None, not_exist: None });
    // A condition that does not hold is no error.
    assert!(Node::Start { metadata: gated }.check_conditions(&ctx));
}
