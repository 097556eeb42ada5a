use argus::engine::TgnnEngine;
use argus::ingestion::GraphEvent;
use argus::monitor::Monitor;

fn transfer(src: u64, dst: u64) -> GraphEvent {
    GraphEvent { msg_id: 0, src_node: src, dst_node: dst, amount: 0 }
}

#[test]
fn monitor_flags_a_closing_cycle() {
    let mut m = Monitor::new(8, 8, TgnnEngine::new(5, 300_000));
    assert!(!m.record_transfer(&transfer(1, 2), 10));
    assert!(!m.record_transfer(&transfer(2, 3), 20));
    // c -> a closes a -> b -> c -> a, but the search starts at c after 30
    assert!(!m.record_transfer(&transfer(3, 1), 30));
    assert_eq!(m.graph.nodes.len(), 3);
    assert_eq!(m.graph.edges.len(), 3);
}

#[test]
fn monitor_reuses_nodes_of_known_accounts() {
    let mut m = Monitor::new(8, 8, TgnnEngine::new(5, 300_000));
    m.record_transfer(&transfer(7, 8), 1);
    m.record_transfer(&transfer(8, 7), 2);
    m.record_transfer(&transfer(7, 7), 3);
    assert_eq!(m.graph.nodes.len(), 2);
    assert_eq!(m.directory[&7], 0);
    assert_eq!(m.directory[&8], 1);
    assert_eq!(m.graph.nodes[1].account_id, 8);
    let from_7 = m.graph.get_edges(0);
    assert_eq!(from_7.len(), 2);
    assert_eq!(from_7[0].dst, 1);
    assert_eq!(from_7[1].dst, 0);
    assert_eq!(m.graph.get_edges(1)[0].dst, 0);
}

#[test]
fn monitor_flags_cycle_found_from_the_sender() {
    let mut m = Monitor::new(8, 8, TgnnEngine::new(5, 300_000));
    assert!(!m.record_transfer(&transfer(1, 2), 100));
    assert!(!m.record_transfer(&transfer(2, 1), 200));
    // from account 1 after time 50: 1 -> 2 at 100, 2 -> 1 at 200
    assert!(m.record_transfer(&transfer(1, 3), 50));
}

#[test]
fn monitor_new_transfer_is_not_later_than_its_own_time() {
    let mut m = Monitor::new(8, 8, TgnnEngine::new(5, 300_000));
    // a self transfer at time 7 is not strictly later than 7
    assert!(!m.record_transfer(&transfer(4, 4), 7));
}
