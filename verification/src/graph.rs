//! A temporal transaction graph stored in flat, contiguous arrays.
//!
//! Every account is a [`Node`]; every transfer is an [`Edge`]. A node's
//! outgoing transfers are the window `edges[edge_start .. edge_start + edge_count]`
//! of the global edge array, in the order they were added. When a transfer
//! arrives for an account whose window is not at the end of the array, the
//! window is moved there first, so each window stays contiguous and holds
//! exactly that account's transfers.
use vstd::prelude::*;

verus! {

/// One transfer: where the money went, when, and how much.
///
/// The amount is carried as the IEEE-754 bit pattern of the transferred
/// value (`f64::to_bits`), so the graph never computes on floating point.
#[derive(Debug, Clone, Copy, PartialEq, Eq)]
pub struct Edge {
    pub dst: usize,
    pub timestamp: u64,
    pub amount: u64,
}

/// One account and the window of the edge array that holds its transfers.
#[derive(Debug, Clone, Copy, PartialEq, Eq)]
pub struct Node {
    pub account_id: u64,
    pub edge_start: usize,
    pub edge_count: usize,
}

/// The whole graph: all accounts and all transfers.
pub struct TemporalGraph {
    pub nodes: Vec<Node>,
    pub edges: Vec<Edge>,
}

/// One graph-building call, for stating what a sequence of calls builds.
pub enum GraphOp {
    AddNode { account_id: u64 },
    AddEdge { src: usize, dst: usize, timestamp: u64, amount: u64 },
}

/// The number of accounts that `ops` add.
pub open spec fn nodes_added(ops: Seq<GraphOp>) -> nat
    decreases ops.len(),
{
    if ops.len() == 0 {
        0
    } else {
        nodes_added(ops.drop_last()) + match ops.last() {
            GraphOp::AddNode { .. } => 1nat,
            GraphOp::AddEdge { .. } => 0nat,
        }
    }
}

/// The transfers that `ops` add with source `n`, in call order.
pub open spec fn transfers_from(ops: Seq<GraphOp>, n: int) -> Seq<Edge>
    decreases ops.len(),
{
    if ops.len() == 0 {
        Seq::empty()
    } else {
        let before = transfers_from(ops.drop_last(), n);
        match ops.last() {
            GraphOp::AddEdge { src, dst, timestamp, amount } => if src == n {
                before.push(Edge { dst, timestamp, amount })
            } else {
                before
            },
            GraphOp::AddNode { .. } => before,
        }
    }
}

impl TemporalGraph {
    /// Every node's edge window lies inside the edge array.
    pub open spec fn wf(&self) -> bool {
        forall|u: int|
            0 <= u < self.nodes@.len() ==> (#[trigger] self.nodes@[u]).edge_count == 0
                || self.nodes@[u].edge_start + self.nodes@[u].edge_count <= self.edges@.len()
    }

    /// Edge position `e` lies in the window of node `u`.
    pub open spec fn owns_edge(&self, u: int, e: int) -> bool {
        &&& 0 <= u < self.nodes@.len()
        &&& self.nodes@[u].edge_start <= e < self.nodes@[u].edge_start + self.nodes@[u].edge_count
    }

    /// The transfers that `get_edges(u)` hands out.
    pub open spec fn out_edges(&self, u: int) -> Seq<Edge> {
        let n = self.nodes@[u];
        if n.edge_count == 0 {
            Seq::empty()
        } else {
            self.edges@.subrange(n.edge_start as int, n.edge_start + n.edge_count)
        }
    }

    /// The transfers of account `u`; none for an index that is not a node.
    pub open spec fn transfers_of(&self, u: int) -> Seq<Edge> {
        if 0 <= u < self.nodes@.len() {
            self.out_edges(u)
        } else {
            Seq::empty()
        }
    }

    /// The window of `u` can grow in place: it is empty or ends where the
    /// edge array ends.
    pub open spec fn window_at_end(&self, u: int) -> bool {
        self.nodes@[u].edge_count == 0 || self.nodes@[u].edge_start + self.nodes@[u].edge_count
            == self.edges@.len()
    }

    /// The copies that `add_edge(u, ..)` appends before the new edge: the
    /// transfers of `u` when its window has to move, nothing otherwise.
    pub open spec fn moved_edges(&self, u: int) -> Seq<Edge> {
        if self.window_at_end(u) {
            Seq::empty()
        } else {
            self.out_edges(u)
        }
    }

    /// The node that `add_edge(u, ..)` leaves for `u`: its window ends with
    /// the new edge and holds one edge more.
    pub open spec fn extended_node(&self, u: int) -> Node {
        let n = self.nodes@[u];
        Node {
            account_id: n.account_id,
            edge_start: if n.edge_count != 0 && self.window_at_end(u) {
                n.edge_start
            } else {
                self.edges@.len() as usize
            },
            edge_count: (n.edge_count + 1) as usize,
        }
    }

    /// `after` is `self` after the graph-building call `op`, as far as the
    /// accounts and their transfers go.
    pub open spec fn applies(&self, op: GraphOp, after: &TemporalGraph) -> bool {
        match op {
            GraphOp::AddNode { account_id } => {
                &&& after.nodes@ == self.nodes@.push(Node { account_id, edge_start: 0, edge_count: 0 })
                &&& after.edges@ == self.edges@
            },
            GraphOp::AddEdge { src, dst, timestamp, amount } => {
                &&& src < self.nodes@.len()
                &&& after.nodes@.len() == self.nodes@.len()
                &&& after.out_edges(src as int) == self.out_edges(src as int).push(Edge { dst, timestamp, amount })
                &&& forall|v: int|
                    0 <= v < self.nodes@.len() && v != src ==> #[trigger] after.out_edges(v) == self.out_edges(v)
            },
        }
    }

    /// The graph holds what `ops` add: as many accounts, and for each
    /// account the transfers added from it, in order.
    pub open spec fn holds_ops(&self, ops: Seq<GraphOp>) -> bool {
        &&& self.nodes@.len() == nodes_added(ops)
        &&& forall|n: int| 0 <= n < self.nodes@.len() ==> #[trigger] self.out_edges(n) == transfers_from(ops, n)
        &&& forall|n: int| n >= self.nodes@.len() || n < 0 ==> #[trigger] transfers_from(ops, n) == Seq::<Edge>::empty()
    }

    /// An empty graph; the capacities are allocation hints. `Vec::with_capacity`
    /// panics when a buffer would exceed `isize::MAX` bytes (24 bytes per node
    /// and per edge), so those capacities are left out.
    pub fn new(node_capacity: usize, edge_capacity: usize) -> (g: Self)
        requires
            node_capacity * 24 <= isize::MAX,
            edge_capacity * 24 <= isize::MAX,
        ensures
            g.wf(),
            g.nodes@ == Seq::<Node>::empty(),
            g.edges@ == Seq::<Edge>::empty(),
    {
        TemporalGraph { nodes: Vec::with_capacity(node_capacity), edges: Vec::with_capacity(edge_capacity) }
    }

    /// Appends an account without transfers and returns its index.
    pub fn add_node(&mut self, account_id: u64) -> (idx: usize)
        ensures
            old(self).wf() ==> final(self).wf(),
            idx == old(self).nodes@.len(),
            final(self).nodes@ == old(self).nodes@.push(
                Node { account_id, edge_start: 0, edge_count: 0 },
            ),
            final(self).edges@ == old(self).edges@,
            old(self).applies(GraphOp::AddNode { account_id }, &*final(self)),
    {
        let idx = self.nodes.len();
        self.nodes.push(Node { account_id, edge_start: 0, edge_count: 0 });
        proof {
            if old(self).wf() {
                assert forall|u: int| 0 <= u < self.nodes@.len() implies (#[trigger] self.nodes@[u]).edge_count == 0
                    || self.nodes@[u].edge_start + self.nodes@[u].edge_count <= self.edges@.len() by {
                    if u < idx {
                        assert(self.nodes@[u] == old(self).nodes@[u]);
                    }
                }
            }
        }
        idx
    }

    /// Records a transfer from `src_idx` to `dst_idx`.
    ///
    /// The transfer joins the transfers of `src_idx`, after the earlier
    /// ones. If the window of `src_idx` does not end where the edge array
    /// ends, its transfers are first copied to the end of the array and the
    /// window moved there; the new edge is then appended and the window
    /// grows by one.
    pub fn add_edge(&mut self, src_idx: usize, dst_idx: usize, timestamp: u64, amount: u64)
        requires
            old(self).wf(),
            src_idx < old(self).nodes@.len(),
        ensures
            final(self).wf(),
            final(self).edges@ == old(self).edges@ + old(self).moved_edges(src_idx as int)
                + seq![Edge { dst: dst_idx, timestamp, amount }],
            final(self).nodes@ == old(self).nodes@.update(src_idx as int, old(self).extended_node(src_idx as int)),
            final(self).out_edges(src_idx as int) == old(self).out_edges(src_idx as int).push(
                Edge { dst: dst_idx, timestamp, amount },
            ),
            forall|v: int|
                0 <= v < old(self).nodes@.len() && v != src_idx ==> #[trigger] final(self).out_edges(v)
                    == old(self).out_edges(v),
            old(self).applies(GraphOp::AddEdge { src: src_idx, dst: dst_idx, timestamp, amount }, &*final(self)),
    {
        let ghost old_edges = self.edges@;
        let ghost old_out = old(self).out_edges(src_idx as int);
        let mut node = self.nodes[src_idx];
        let end = self.edges.len();
        if node.edge_count == 0 {
            node.edge_start = end;
        } else if node.edge_start + node.edge_count != end {
            // move the window to the end of the array
            let start = node.edge_start;
            let count = node.edge_count;
            let mut k: usize = 0;
            while k < count
                invariant
                    0 <= k <= count,
                    start + count <= old_edges.len(),
                    end == old_edges.len(),
                    self.nodes@ == old(self).nodes@,
                    node == old(self).nodes@[src_idx as int],
                    start == node.edge_start,
                    count == node.edge_count,
                    old_out == old_edges.subrange(start as int, start + count),
                    self.edges@ == old_edges + old_out.take(k as int),
                decreases count - k,
            {
                let e = self.edges[start + k];
                self.edges.push(e);
                assert(old_out.take(k + 1) =~= old_out.take(k as int).push(e));
                k = k + 1;
            }
            assert(old_out.take(count as int) =~= old_out);
            node.edge_start = end;
        }
        self.edges.push(Edge { dst: dst_idx, timestamp, amount });
        // the edge array now holds the whole window, so the count cannot overflow
        assert(node.edge_start + node.edge_count < self.edges.len());
        node.edge_count = node.edge_count + 1;
        self.nodes.set(src_idx, node);
        proof {
            let new_e = Edge { dst: dst_idx, timestamp, amount };
            assert(self.edges@ =~= old_edges + old(self).moved_edges(src_idx as int) + seq![new_e]);
            assert forall|u: int| 0 <= u < self.nodes@.len() implies (#[trigger] self.nodes@[u]).edge_count == 0
                || self.nodes@[u].edge_start + self.nodes@[u].edge_count <= self.edges@.len() by {
                if u != src_idx {
                    assert(self.nodes@[u] == old(self).nodes@[u]);
                }
            }
            assert(self.out_edges(src_idx as int) =~= old_out.push(new_e));
            assert forall|v: int| 0 <= v < old(self).nodes@.len() && v != src_idx implies #[trigger] self.out_edges(v)
                == old(self).out_edges(v) by {
                assert(self.nodes@[v] == old(self).nodes@[v]);
                if self.nodes@[v].edge_count != 0 {
                    assert(self.out_edges(v) =~= old(self).out_edges(v));
                }
            }
        }
    }

    /// The transfers recorded for `node_idx`: its window of the edge array.
    pub fn get_edges(&self, node_idx: usize) -> (r: &[Edge])
        requires
            self.wf(),
            node_idx < self.nodes@.len(),
        ensures
            r@ == self.out_edges(node_idx as int),
    {
        let node = &self.nodes[node_idx];
        if node.edge_count == 0 {
            return &[];
        }
        let all = self.edges.as_slice();
        assert(node.edge_start + node.edge_count <= all.len());
        let end = node.edge_start + node.edge_count;
        &all[node.edge_start..end]
    }
}

/// One call keeps the graph holding what the calls so far add.
proof fn lemma_step_holds_ops(before: &TemporalGraph, after: &TemporalGraph, ops: Seq<GraphOp>, op: GraphOp)
    requires
        before.holds_ops(ops),
        before.applies(op, after),
    ensures
        after.holds_ops(ops.push(op)),
{
    let all = ops.push(op);
    assert(all.drop_last() =~= ops);
    match op {
        GraphOp::AddNode { account_id } => {
            assert forall|n: int| 0 <= n < after.nodes@.len() implies #[trigger] after.out_edges(n)
                == transfers_from(all, n) by {
                if n < before.nodes@.len() {
                    assert(after.nodes@[n] == before.nodes@[n]);
                    assert(before.out_edges(n) == transfers_from(ops, n));
                } else {
                    assert(transfers_from(ops, n) == Seq::<Edge>::empty());
                }
            }
            assert forall|n: int| n >= after.nodes@.len() || n < 0 implies #[trigger] transfers_from(all, n)
                == Seq::<Edge>::empty() by {
                assert(transfers_from(ops, n) == Seq::<Edge>::empty());
            }
        },
        GraphOp::AddEdge { src, dst, timestamp, amount } => {
            assert forall|n: int| 0 <= n < after.nodes@.len() implies #[trigger] after.out_edges(n)
                == transfers_from(all, n) by {
                assert(before.out_edges(n) == transfers_from(ops, n));
            }
            assert forall|n: int| n >= after.nodes@.len() || n < 0 implies #[trigger] transfers_from(all, n)
                == Seq::<Edge>::empty() by {
                assert(transfers_from(ops, n) == Seq::<Edge>::empty());
            }
        },
    }
}

/// After the first `i` calls the graph holds what those calls add.
proof fn lemma_holds_ops_upto(graphs: Seq<TemporalGraph>, ops: Seq<GraphOp>, i: int)
    requires
        graphs.len() == ops.len() + 1,
        graphs[0].nodes@.len() == 0,
        forall|j: int| 0 <= j < ops.len() ==> #[trigger] graphs[j].applies(ops[j], &graphs[j + 1]),
        0 <= i <= ops.len(),
    ensures
        graphs[i].holds_ops(ops.take(i)),
    decreases i,
{
    if i == 0 {
        assert(ops.take(0) =~= Seq::<GraphOp>::empty());
    } else {
        let j = i - 1;
        lemma_holds_ops_upto(graphs, ops, j);
        assert(graphs[j].applies(ops[j], &graphs[j + 1]));
        lemma_step_holds_ops(&graphs[j], &graphs[j + 1], ops.take(j), ops[j]);
        assert(ops.take(j).push(ops[j]) =~= ops.take(i));
    }
}

/// A graph built from an empty one by a sequence of `add_node` and
/// `add_edge` calls has one node per `add_node` call, and `get_edges(n)`
/// gives exactly the transfers added with source `n`, in call order (none
/// if there are none), however the calls for different accounts interleave.
pub proof fn law_graph_holds_its_transfers(graphs: Seq<TemporalGraph>, ops: Seq<GraphOp>)
    requires
        graphs.len() == ops.len() + 1,
        graphs[0].nodes@.len() == 0,
        forall|j: int| 0 <= j < ops.len() ==> #[trigger] graphs[j].applies(ops[j], &graphs[j + 1]),
    ensures
        graphs.last().nodes@.len() == nodes_added(ops),
        forall|n: int| 0 <= n < graphs.last().nodes@.len() ==> #[trigger] graphs.last().out_edges(n)
            == transfers_from(ops, n),
{
    lemma_holds_ops_upto(graphs, ops, ops.len() as int);
    assert(ops.take(ops.len() as int) =~= ops);
}

} // verus!
