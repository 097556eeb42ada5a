use argus::engine::TgnnEngine;
use argus::graph::TemporalGraph;

#[test]
fn test_temporal_smurfing_detected() {
    let mut graph = TemporalGraph::new(10, 20);
    let a = graph.add_node(100);
    let b = graph.add_node(200);
    let c = graph.add_node(300);

    graph.add_edge(a, b, 1000, 50.0f64.to_bits());
    graph.add_edge(b, c, 2000, 50.0f64.to_bits());
    graph.add_edge(c, a, 3000, 50.0f64.to_bits());

    let engine = TgnnEngine::new(5, 300_000);

    let is_smurfing = engine.detect_temporal_cycle(&graph, a, 999);
    assert!(is_smurfing, "Failed to detect valid temporal cycle");
}

#[test]
fn test_temporal_smurfing_ignored_outside_time_window() {
    let mut graph = TemporalGraph::new(10, 20);
    let a = graph.add_node(100);
    let b = graph.add_node(200);
    let c = graph.add_node(300);

    graph.add_edge(a, b, 1000, 50.0f64.to_bits());
    graph.add_edge(b, c, 2000, 50.0f64.to_bits());
    graph.add_edge(c, a, 500_000, 50.0f64.to_bits());

    let engine = TgnnEngine::new(5, 300_000);

    let is_smurfing = engine.detect_temporal_cycle(&graph, a, 999);
    assert!(!is_smurfing, "Falsely detected cycle outside time window");
}

#[test]
fn test_temporal_smurfing_ignored_bad_chronology() {
    let mut graph = TemporalGraph::new(10, 20);
    let a = graph.add_node(100);
    let b = graph.add_node(200);
    let c = graph.add_node(300);

    graph.add_edge(a, b, 1000, 50.0f64.to_bits());
    graph.add_edge(c, a, 2000, 50.0f64.to_bits());
    graph.add_edge(b, c, 3000, 50.0f64.to_bits());

    let engine = TgnnEngine::new(5, 300_000);

    let is_smurfing = engine.detect_temporal_cycle(&graph, a, 999);
    assert!(!is_smurfing, "Falsely detected cycle that violates time chronology");
}

fn triangle() -> (TemporalGraph, usize) {
    let mut graph = TemporalGraph::new(3, 3);
    let a = graph.add_node(1);
    let b = graph.add_node(2);
    let c = graph.add_node(3);
    graph.add_edge(a, b, 10, 0);
    graph.add_edge(b, c, 20, 0);
    graph.add_edge(c, a, 30, 0);
    (graph, a)
}

#[test]
fn engine_new_keeps_parameters() {
    let engine = TgnnEngine::new(3, 42);
    assert_eq!(engine.max_hops, 3);
    assert_eq!(engine.time_window_ms, 42);
}

#[test]
fn cycle_longer_than_hop_limit_is_ignored() {
    let (graph, a) = triangle();
    assert!(!TgnnEngine::new(2, 1_000).detect_temporal_cycle(&graph, a, 0));
    assert!(TgnnEngine::new(3, 1_000).detect_temporal_cycle(&graph, a, 0));
}

#[test]
fn zero_hops_never_detects() {
    let (graph, a) = triangle();
    assert!(!TgnnEngine::new(0, 1_000).detect_temporal_cycle(&graph, a, 0));
}

#[test]
fn window_is_inclusive() {
    let (graph, a) = triangle();
    // the last transfer is 30 after the start time 0
    assert!(TgnnEngine::new(5, 30).detect_temporal_cycle(&graph, a, 0));
    assert!(!TgnnEngine::new(5, 29).detect_temporal_cycle(&graph, a, 0));
}

#[test]
fn transfers_at_the_start_time_do_not_count() {
    let (graph, a) = triangle();
    assert!(!TgnnEngine::new(5, 1_000).detect_temporal_cycle(&graph, a, 10));
    assert!(TgnnEngine::new(5, 1_000).detect_temporal_cycle(&graph, a, 9));
}

#[test]
fn self_loop_is_a_cycle_of_one_hop() {
    let mut graph = TemporalGraph::new(1, 1);
    let a = graph.add_node(1);
    graph.add_edge(a, a, 5, 0);
    assert!(TgnnEngine::new(1, 10).detect_temporal_cycle(&graph, a, 0));
}

#[test]
fn equal_timestamps_break_the_chain() {
    let mut graph = TemporalGraph::new(2, 2);
    let a = graph.add_node(1);
    let b = graph.add_node(2);
    graph.add_edge(a, b, 5, 0);
    graph.add_edge(b, a, 5, 0);
    assert!(!TgnnEngine::new(4, 10).detect_temporal_cycle(&graph, a, 0));
}

#[test]
fn cycle_through_other_start_is_not_reported() {
    // b -> c -> b is a cycle, but not through a
    let mut graph = TemporalGraph::new(3, 3);
    let a = graph.add_node(1);
    let b = graph.add_node(2);
    let c = graph.add_node(3);
    graph.add_edge(a, b, 1, 0);
    graph.add_edge(b, c, 2, 0);
    graph.add_edge(c, b, 3, 0);
    assert!(!TgnnEngine::new(6, 100).detect_temporal_cycle(&graph, a, 0));
    assert!(TgnnEngine::new(6, 100).detect_temporal_cycle(&graph, b, 0));
}

#[test]
fn branching_search_finds_the_cycle_on_any_branch() {
    let mut graph = TemporalGraph::new(4, 4);
    let a = graph.add_node(1);
    let b = graph.add_node(2);
    let c = graph.add_node(3);
    let d = graph.add_node(4);
    graph.add_edge(a, b, 1, 0);
    graph.add_edge(a, c, 2, 0);
    graph.add_edge(a, d, 3, 0);
    graph.add_edge(b, a, 4, 0);
    assert!(TgnnEngine::new(2, 100).detect_temporal_cycle(&graph, a, 0));
}

#[test]
fn interleaved_transfers_give_no_false_cycle() {
    let mut graph = TemporalGraph::new(4, 4);
    let a = graph.add_node(1);
    let b = graph.add_node(2);
    let c = graph.add_node(3);
    let d = graph.add_node(4);
    graph.add_edge(a, b, 1, 0);
    graph.add_edge(c, a, 2, 0);
    graph.add_edge(a, d, 3, 0);
    // a's transfers are a -> b and a -> d; neither leads back to a
    assert!(!TgnnEngine::new(5, 100).detect_temporal_cycle(&graph, a, 0));
    assert!(TgnnEngine::new(5, 100).detect_temporal_cycle(&graph, c, 0) == false);
}
