use auto_engine::context::Context;
use auto_engine::pipeline::{
    node_result, resolve_coordinate, stage_result, PipelineRunner, RunningResult, MIN_ROUND_MS,
};
use auto_engine::types::typs::{MetaData, Node, Stage};

fn wait(err_return: Option<bool>) -> Node {
    let mut metadata = MetaData::named("w");
    metadata.err_return = err_return;
    Node::TimeWait { metadata }
}

#[test]
fn failure_ends_the_pipeline_only_where_the_node_says_so() {
    assert!(matches!(node_result(&wait(None), Ok(())), RunningResult::Pass));
    assert!(matches!(node_result(&wait(Some(false)), Ok(())), RunningResult::Pass));
    assert!(matches!(
        node_result(&wait(None), Err("x".to_string())),
        RunningResult::Error(ref e) if e == "x"
    ));
    assert!(matches!(
        node_result(&wait(Some(true)), Err("x".to_string())),
        RunningResult::Error(_)
    ));
    assert!(matches!(node_result(&wait(Some(false)), Err("x".to_string())), RunningResult::Pass));
}

#[test]
fn stage_ends_as_its_last_node() {
    assert!(matches!(stage_result(vec![]), RunningResult::Pass));
    assert!(matches!(
        stage_result(vec![RunningResult::Error("a".to_string()), RunningResult::Pass]),
        RunningResult::Pass
    ));
    assert!(matches!(
        stage_result(vec![RunningResult::Pass, RunningResult::Error("b".to_string())]),
        RunningResult::Error(ref e) if e == "b"
    ));
}

#[test]
fn coordinates_resolve_to_whole_numbers() {
    let mut ctx = Context::new("");
    ctx.set_string_value("find.dot.x", "120");
    assert_eq!(resolve_coordinate(&ctx, "x", "${find.dot.x}"), Ok(120));
    assert_eq!(resolve_coordinate(&ctx, "y", "-4"), Ok(-4));
    assert_eq!(
        resolve_coordinate(&ctx, "y", "${find.dot.y}"),
        Err("Failed to covert y: '' to int".to_string())
    );
    assert_eq!(
        resolve_coordinate(&ctx, "x", "1.5"),
        Err("Failed to covert x: '1.5' to int".to_string())
    );
}

#[test]
fn rounds_are_ten_milliseconds_apart_at_the_least() {
    let stage = Stage { stage: vec![wait(None)] };
    let runner = PipelineRunner::new(vec![vec![stage]], 1.0f64.to_bits(), "dir".to_string(), 3);
    assert_eq!(runner.round_interval(), 10);
    assert_eq!(MIN_ROUND_MS, 10);
    assert_eq!(runner.pipelines.len(), 1);
    assert_eq!(runner.dir_path, "dir");
    let slow = PipelineRunner::new(vec![], 0, String::new(), 250);
    assert_eq!(slow.round_interval(), 250);
}
