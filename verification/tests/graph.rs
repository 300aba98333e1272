use auto_engine::schema::node::{NodeSchema, Position};
use auto_engine::schema::workflow::{Connection, WorkflowSchema};
use auto_engine::types::typs::MetaData;
use auto_engine::workflow::builder::{find_node, BuildError, Builder};
use auto_engine::workflow::graph::Graph;
use auto_engine::workflow::runner::WorkflowRunner;

fn metadata(name: &str) -> MetaData {
    MetaData {
        name: name.to_string(),
        description: None,
        duration: None,
        retry: None,
        interval: None,
        conditions: None,
        err_return: None,
    }
}

fn node(id: &str, action: &str, name: &str) -> NodeSchema {
    NodeSchema {
        node_id: id.to_string(),
        action_type: action.to_string(),
        metadata: metadata(name),
        input_data: None,
        position: Position::default(),
        icon: None,
    }
}

fn edge(from: &str, to: &str) -> Connection {
    Connection { from: from.to_string(), to: to.to_string() }
}

fn workflow(nodes: &[(&str, &str)], edges: &[(&str, &str)]) -> WorkflowSchema {
    WorkflowSchema {
        nodes: nodes.iter().map(|(id, action)| node(id, action, id)).collect(),
        connections: edges.iter().map(|(from, to)| edge(from, to)).collect(),
    }
}

fn build(nodes: &[(&str, &str)], edges: &[(&str, &str)]) -> Result<Graph, BuildError> {
    let w = workflow(nodes, edges);
    assert!(w.has_distinct_ids());
    Builder::new(w).build()
}

#[test]
fn create_fails_on_cycle() {
    let workflow = WorkflowSchema {
        nodes: vec![node("node-0", "Start", "start"), node("node-1", "Custom", "custom")],
        connections: vec![edge("node-0", "node-1"), edge("node-1", "node-0")],
    };

    let err = WorkflowRunner::create(workflow).unwrap_err();
    // The way back leads to the Start, and a connection to a Start is refused
    // before any walk is made.
    assert!(matches!(err, BuildError::StartInInEdge(ref id) if id == "node-0"));
    assert_eq!(
        err.message(),
        "The [Start] node cannot be used as the next node in the connection."
    );
}

#[test]
fn cycle_behind_start_is_detected() {
    let err = build(&[("S", "Start"), ("A", "Echo"), ("B", "Echo")], &[
        ("S", "A"),
        ("A", "B"),
        ("B", "A"),
    ])
    .unwrap_err();
    match &err {
        BuildError::CycleDetected(id) => {
            assert!(id == "A" || id == "B");
            assert_eq!(err.message(), format!("workflow contains a cycle at node '{}'", id));
        }
        other => panic!("unexpected error {:?}", other),
    }
}

#[test]
fn self_loop_is_a_cycle() {
    let err = build(&[("S", "Start"), ("A", "Echo")], &[("S", "A"), ("A", "A")]).unwrap_err();
    assert!(matches!(err, BuildError::CycleDetected(ref id) if id == "A"));
}

#[test]
fn cycle_that_no_start_reaches_is_no_fault() {
    let graph = build(&[("S", "Start"), ("A", "Echo"), ("B", "Echo")], &[("A", "B"), ("B", "A")])
        .unwrap();
    assert_eq!(graph.starts, vec![0]);
    // Nodes that no Start reaches keep no successors and wait for nobody.
    for i in 0..3 {
        assert!(graph.nodes[i].next.is_empty());
        assert!(graph.nodes[i].prev.is_empty());
        assert_eq!(graph.nodes[i].wait_count, 0);
    }
}

#[test]
fn missing_start_is_refused() {
    let err = build(&[("A", "Echo"), ("B", "Echo")], &[("A", "B")]).unwrap_err();
    assert!(matches!(err, BuildError::MissingStart));
    assert_eq!(err.message(), "workflow missing Start node");
    assert!(matches!(build(&[], &[]), Err(BuildError::MissingStart)));
    // The action type is compared letter for letter.
    assert!(matches!(build(&[("A", "start")], &[]), Err(BuildError::MissingStart)));
}

#[test]
fn missing_nodes_are_named() {
    let err = build(&[("S", "Start"), ("A", "Echo")], &[("S", "A"), ("X", "A")]).unwrap_err();
    assert!(matches!(err, BuildError::MissingNode(ref id) if id == "X"));
    assert_eq!(err.message(), "connection references missing node 'X'");
    let err = build(&[("S", "Start"), ("A", "Echo")], &[("S", "Y")]).unwrap_err();
    assert!(matches!(err, BuildError::MissingNode(ref id) if id == "Y"));
    // The source is looked at before the target.
    let err = build(&[("S", "Start")], &[("X", "Y")]).unwrap_err();
    assert!(matches!(err, BuildError::MissingNode(ref id) if id == "X"));
}

#[test]
fn faults_of_connections_come_in_their_order_and_before_all_else() {
    // The first faulty connection decides, also where no Start is there.
    let err = build(&[("A", "Echo")], &[("A", "Z"), ("Q", "A")]).unwrap_err();
    assert!(matches!(err, BuildError::MissingNode(ref id) if id == "Z"));
    let err = build(&[("S", "Start"), ("A", "Echo")], &[("A", "S"), ("A", "Z")]).unwrap_err();
    assert!(matches!(err, BuildError::StartInInEdge(ref id) if id == "S"));
    // A connection to a Start is refused even where its source is missing.
    let err = build(&[("S", "Start")], &[("Z", "S")]).unwrap_err();
    assert!(matches!(err, BuildError::StartInInEdge(ref id) if id == "S"));
}

#[test]
fn linear_chain_is_built() {
    let graph = build(&[("S", "Start"), ("A", "Echo"), ("B", "Echo")], &[("S", "A"), ("A", "B")])
        .unwrap();
    assert_eq!(graph.nodes.len(), 3);
    assert_eq!(graph.starts, vec![0]);
    assert_eq!(graph.nodes[0].node_id, "S");
    assert_eq!(graph.nodes[0].node_context.action_type, "Start");
    assert_eq!(graph.nodes[0].next, vec![1]);
    assert_eq!(graph.nodes[1].next, vec![2]);
    assert!(graph.nodes[2].next.is_empty());
    assert!(graph.nodes[0].prev.is_empty());
    assert_eq!(graph.nodes[1].prev, vec!["S"]);
    assert_eq!(graph.nodes[2].prev, vec!["A"]);
    assert_eq!(
        graph.nodes.iter().map(|n| n.wait_count).collect::<Vec<_>>(),
        vec![0, 1, 1]
    );
    assert_eq!(graph.find("B"), Some(2));
    assert_eq!(graph.find("C"), None);
}

#[test]
fn diamond_counts_both_predecessors_of_the_joint() {
    let graph = build(
        &[("S", "Start"), ("A", "Echo"), ("B", "Echo"), ("C", "Echo")],
        &[("S", "A"), ("S", "B"), ("B", "C"), ("A", "C")],
    )
    .unwrap();
    assert_eq!(graph.nodes[0].next, vec![1, 2]);
    assert_eq!(graph.nodes[3].wait_count, 2);
    // Predecessors come node by node, in the order of the document.
    assert_eq!(graph.nodes[3].prev, vec!["A", "B"]);
    for n in &graph.nodes {
        assert_eq!(n.wait_count, n.prev.len());
    }
}

#[test]
fn fan_in_is_the_in_degree_where_every_source_is_reached() {
    let nodes = [("S1", "Start"), ("S2", "Start"), ("A", "Echo"), ("B", "Echo"), ("C", "Echo")];
    let edges = [("S1", "A"), ("S2", "A"), ("S2", "B"), ("A", "C"), ("B", "C"), ("S1", "C")];
    let graph = build(&nodes, &edges).unwrap();
    assert_eq!(graph.starts, vec![0, 1]);
    for (i, (id, _)) in nodes.iter().enumerate() {
        let mut recorded: Vec<&str> = graph.nodes[i].prev.iter().map(String::as_str).collect();
        recorded.sort();
        recorded.dedup();
        let mut sources: Vec<&str> =
            edges.iter().filter(|(_, to)| to == id).map(|(from, _)| *from).collect();
        sources.sort();
        sources.dedup();
        assert_eq!(recorded, sources, "node {}", id);
    }
    // A node that two Starts reach is counted once for each edge, not once for
    // each Start.
    assert_eq!(graph.nodes[4].wait_count, 3);
}

#[test]
fn repeated_connection_counts_twice() {
    let graph = build(&[("S", "Start"), ("A", "Echo")], &[("S", "A"), ("S", "A")]).unwrap();
    assert_eq!(graph.nodes[0].next, vec![1, 1]);
    assert_eq!(graph.nodes[1].prev, vec!["S", "S"]);
    assert_eq!(graph.nodes[1].wait_count, 2);
}

#[test]
fn edge_from_a_node_that_no_start_reaches_is_not_counted() {
    let graph = build(&[("S", "Start"), ("A", "Echo"), ("U", "Echo")], &[("S", "A"), ("U", "A")])
        .unwrap();
    assert_eq!(graph.nodes[1].prev, vec!["S"]);
    assert_eq!(graph.nodes[1].wait_count, 1);
    assert!(graph.nodes[2].next.is_empty());
}

#[test]
fn distinct_ids_are_recognised() {
    assert!(workflow(&[], &[]).has_distinct_ids());
    assert!(workflow(&[("a", "X"), ("b", "X")], &[]).has_distinct_ids());
    assert!(!workflow(&[("a", "X"), ("b", "X"), ("a", "Y")], &[]).has_distinct_ids());
    let nodes = workflow(&[("a", "X"), ("b", "X")], &[]).nodes;
    assert_eq!(find_node(&nodes, "b"), Some(1));
    assert_eq!(find_node(&nodes, "c"), None);
}

#[test]
fn graph_of_given_parts() {
    let graph = Graph::new(vec![], vec![]);
    assert!(graph.nodes.is_empty());
    assert!(graph.starts.is_empty());
    assert_eq!(graph.find("x"), None);
}
