use memgraph::aggregate::aggregate_plan;
use memgraph::aggregate::select_target;
use memgraph::aggregate::snapshot_filename;
use memgraph::aggregate::AggregateDecision;
use memgraph::structs::DebuggerInstance;

fn target(ws: &str) -> DebuggerInstance {
    DebuggerInstance {
        title: "node".to_string(),
        url: "file://x".to_string(),
        webSocketDebuggerUrl: ws.to_string(),
    }
}

#[test]
fn no_targets_is_a_clean_non_fatal_outcome() {
    assert!(select_target(vec![]).is_none());
}

#[test]
fn first_target_is_selected() {
    let picked = select_target(vec![target("ws://a"), target("ws://b")]);
    match picked {
        Some(t) => assert_eq!(t.webSocketDebuggerUrl, "ws://a"),
        None => panic!("a non-empty discovery response selects its first entry"),
    }
}

#[test]
fn no_snapshots_no_artifact() {
    assert!(matches!(aggregate_plan(vec![]), AggregateDecision::Skip));
}

#[test]
fn three_snapshots_render_exactly_those_files() {
    let files = vec![
        "./.memgraphs/100.txt".to_string(),
        "./.memgraphs/200.txt".to_string(),
        "./.memgraphs/300.txt".to_string(),
    ];
    match aggregate_plan(files.clone()) {
        AggregateDecision::Render { files: picked, output } => {
            assert_eq!(picked, files);
            assert_eq!(output, "memgraph.svg");
        }
        AggregateDecision::Skip => panic!("three snapshot files must be rendered"),
    }
}

#[test]
fn snapshot_names_are_distinct_per_capture_time() {
    assert_eq!(snapshot_filename("./.memgraphs", 1234), "./.memgraphs/1234.txt");
    assert_eq!(snapshot_filename("./.memgraphs", 1235), "./.memgraphs/1235.txt");
    let a = snapshot_filename("d", 10);
    let b = snapshot_filename("d", 11);
    assert_ne!(a, b);
}
