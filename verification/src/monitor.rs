//! The analysis side of the engine: each incoming transfer is recorded in
//! the graph, its accounts being given nodes on first sight, and the sending
//! account is then checked for a temporal cycle.
use vstd::prelude::*;
use std::collections::HashMap;
use crate::engine::TgnnEngine;
use crate::graph::{Edge, TemporalGraph};
use crate::ingestion::GraphEvent;

verus! {

broadcast use vstd::std_specs::hash::group_hash_axioms;

/// 1 for an account without a node yet, 0 for a known one.
pub open spec fn unseen(directory: Map<u64, usize>, account: u64) -> int {
    if directory.contains_key(account) {
        0
    } else {
        1
    }
}

/// The graph built so far, the node of every account seen, and the
/// detector run on every transfer.
pub struct Monitor {
    pub graph: TemporalGraph,
    pub directory: HashMap<u64, usize>,
    pub engine: TgnnEngine,
}

impl Monitor {
    /// The graph is well formed, every transfer leads to a node, and every
    /// account seen has a node that carries its identifier.
    pub open spec fn wf(&self) -> bool {
        &&& self.graph.wf()
        &&& forall|e: int| 0 <= e < self.graph.edges@.len() ==> #[trigger] self.graph.edges@[e].dst < self.graph.nodes@.len()
        &&& forall|k: u64| #[trigger] self.directory@.contains_key(k) ==> {
            &&& self.directory@[k] < self.graph.nodes@.len()
            &&& self.graph.nodes@[self.directory@[k] as int].account_id == k
        }
    }

    /// An empty monitor; the capacities are allocation hints.
    ///
    /// The node and edge arrays take 24 bytes per slot, and the account
    /// map's table (a 16-byte entry and a control byte per bucket, at most
    /// twice 8/7 of the capacity in buckets) under 40 bytes per account;
    /// capacities whose buffers would pass `isize::MAX` bytes, on which the
    /// allocation panics, are left out.
    pub fn new(node_capacity: usize, edge_capacity: usize, engine: TgnnEngine) -> (m: Self)
        requires
            node_capacity * 40 <= isize::MAX,
            edge_capacity * 24 <= isize::MAX,
        ensures
            m.wf(),
            m.graph.nodes@.len() == 0,
            m.graph.edges@.len() == 0,
            m.directory@ == Map::<u64, usize>::empty(),
            m.engine == engine,
    {
        Monitor {
            graph: TemporalGraph::new(node_capacity, edge_capacity),
            directory: HashMap::with_capacity(node_capacity),
            engine,
        }
    }

    /// The node of `account`, added to the graph if the account is new.
    fn node_for(&mut self, account: u64) -> (idx: usize)
        requires
            old(self).wf(),
        ensures
            final(self).wf(),
            final(self).engine == old(self).engine,
            final(self).graph.edges@ == old(self).graph.edges@,
            final(self).directory@ == old(self).directory@.insert(account, idx),
            forall|v: int|
                0 <= v < final(self).graph.nodes@.len() ==> #[trigger] final(self).graph.out_edges(v)
                    == old(self).graph.transfers_of(v),
            old(self).directory@.contains_key(account) ==> {
                &&& idx == old(self).directory@[account]
                &&& final(self).graph.nodes@ == old(self).graph.nodes@
            },
            !old(self).directory@.contains_key(account) ==> {
                &&& idx == old(self).graph.nodes@.len()
                &&& final(self).graph.nodes@ == old(self).graph.nodes@.push(
                    crate::graph::Node { account_id: account, edge_start: 0, edge_count: 0 },
                )
            },
    {
        match self.directory.get(&account) {
            Some(idx) => {
                *idx
            },
            None => {
                let idx = self.graph.add_node(account);
                self.directory.insert(account, idx);
                idx
            },
        }
    }

    /// Records one transfer at `timestamp` and reports whether the sending
    /// account now closes a temporal cycle that starts after `timestamp`.
    ///
    /// Both accounts get nodes on first sight (the sender first); the
    /// transfer becomes an edge from the sender's node to the receiver's.
    pub fn record_transfer(&mut self, event: &GraphEvent, timestamp: u64) -> (flagged: bool)
        requires
            old(self).wf(),
        ensures
            final(self).wf(),
            final(self).engine == old(self).engine,
            final(self).directory@.contains_key(event.src_node),
            final(self).directory@.contains_key(event.dst_node),
            forall|k: u64| #[trigger] old(self).directory@.contains_key(k) ==> final(self).directory@.contains_key(k)
                && final(self).directory@[k] == old(self).directory@[k],
            final(self).directory@.dom() == old(self).directory@.dom().insert(event.src_node).insert(event.dst_node),
            !old(self).directory@.contains_key(event.src_node)
                ==> final(self).directory@[event.src_node] == old(self).graph.nodes@.len(),
            !old(self).directory@.contains_key(event.dst_node) && event.dst_node != event.src_node
                ==> final(self).directory@[event.dst_node] == old(self).graph.nodes@.len() + unseen(
                old(self).directory@,
                event.src_node,
            ),
            final(self).graph.nodes@.len() == old(self).graph.nodes@.len() + unseen(old(self).directory@, event.src_node)
                + if event.dst_node == event.src_node { 0 } else { unseen(old(self).directory@, event.dst_node) },
            forall|v: int|
                0 <= v < old(self).graph.nodes@.len() ==> #[trigger] final(self).graph.nodes@[v].account_id
                    == old(self).graph.nodes@[v].account_id,
            final(self).graph.out_edges(final(self).directory@[event.src_node] as int)
                == old(self).graph.transfers_of(final(self).directory@[event.src_node] as int).push(
                Edge { dst: final(self).directory@[event.dst_node], timestamp, amount: event.amount },
            ),
            forall|v: int|
                0 <= v < final(self).graph.nodes@.len() && v != final(self).directory@[event.src_node]
                    ==> #[trigger] final(self).graph.out_edges(v) == old(self).graph.transfers_of(v),
            flagged == final(self).engine.has_temporal_cycle(
                &final(self).graph,
                final(self).directory@[event.src_node],
                timestamp,
            ),
    {
        let src_idx = self.node_for(event.src_node);
        let dst_idx = self.node_for(event.dst_node);
        self.graph.add_edge(src_idx, dst_idx, timestamp, event.amount);
        proof {
            crate::engine::law_closed_graph_search_stays_in_graph(&self.engine, &self.graph, src_idx, timestamp);
        }
        self.engine.detect_temporal_cycle(&self.graph, src_idx, timestamp)
    }
}

} // verus!
