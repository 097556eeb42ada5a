//! Bounded, chronologically pruned detection of temporal cycles.
//!
//! A temporal cycle from account `s` after time `t0` is a walk
//! `s = v0 -> v1 -> ... -> vk = s` of `1 <= k <= max_hops` transfers whose
//! timestamps strictly increase, the first one later than `t0`, and all of
//! them at most `time_window_ms` after `t0`.
use vstd::prelude::*;
use crate::graph::TemporalGraph;

verus! {

/// Detection parameters: the longest cycle searched for, in transfers, and
/// how long after the start time a transfer may happen and still count.
pub struct TgnnEngine {
    pub max_hops: usize,
    pub time_window_ms: u64,
}

/// The account at which a walk stands after its first `i` transfers
/// (walks are sequences of positions in the graph's edge array).
pub open spec fn walk_node(g: &TemporalGraph, start: usize, walk: Seq<int>, i: int) -> usize {
    if i <= 0 {
        start
    } else {
        g.edges@[walk[i - 1]].dst
    }
}

/// The time at which a walk stands after its first `i` transfers.
pub open spec fn walk_time(g: &TemporalGraph, start_time: u64, walk: Seq<int>, i: int) -> u64 {
    if i <= 0 {
        start_time
    } else {
        g.edges@[walk[i - 1]].timestamp
    }
}

/// `a` is a prefix of `b`.
pub open spec fn is_prefix(a: Seq<int>, b: Seq<int>) -> bool {
    a.len() <= b.len() && a =~= b.take(a.len() as int)
}

impl TgnnEngine {
    /// Transfer `i` of `walk` leaves the account the walk stands at, comes
    /// strictly later than the previous one (or than `start_time`), and lies
    /// inside the time window.
    pub open spec fn step_ok(&self, g: &TemporalGraph, start: usize, start_time: u64, walk: Seq<int>, i: int) -> bool {
        let e = walk[i];
        &&& g.owns_edge(walk_node(g, start, walk, i) as int, e)
        &&& g.edges@[e].timestamp > walk_time(g, start_time, walk, i)
        &&& g.edges@[e].timestamp - start_time <= self.time_window_ms
    }

    /// `walk` is a chronological walk from `start` inside the time window.
    pub open spec fn is_temporal_walk(&self, g: &TemporalGraph, start: usize, start_time: u64, walk: Seq<int>) -> bool {
        forall|i: int| 0 <= i < walk.len() ==> #[trigger] self.step_ok(g, start, start_time, walk, i)
    }

    /// `walk` is a temporal cycle of at most `max_hops` transfers back to `start`.
    pub open spec fn is_temporal_cycle(&self, g: &TemporalGraph, start: usize, start_time: u64, walk: Seq<int>) -> bool {
        &&& 1 <= walk.len() <= self.max_hops
        &&& self.is_temporal_walk(g, start, start_time, walk)
        &&& walk_node(g, start, walk, walk.len() as int) == start
    }

    /// Some temporal cycle from `start` after `start_time` exists.
    pub open spec fn has_temporal_cycle(&self, g: &TemporalGraph, start: usize, start_time: u64) -> bool {
        exists|walk: Seq<int>| self.is_temporal_cycle(g, start, start_time, walk)
    }

    /// Every account that the search would expand is a node of the graph:
    /// the end of every temporal walk shorter than `max_hops` that has not
    /// already come back to `start`.
    pub open spec fn search_stays_in_graph(&self, g: &TemporalGraph, start: usize, start_time: u64) -> bool {
        forall|walk: Seq<int>|
            #![trigger self.is_temporal_walk(g, start, start_time, walk)]
            self.is_temporal_walk(g, start, start_time, walk) && walk.len() < self.max_hops
                && (walk.len() == 0 || walk_node(g, start, walk, walk.len() as int) != start)
                ==> walk_node(g, start, walk, walk.len() as int) < g.nodes@.len()
    }

    /// The number of search steps spent on the walk `walk` and everything
    /// it is extended to.
    spec fn search_size(&self, g: &TemporalGraph, start: usize, start_time: u64, walk: Seq<int>) -> nat
        decreases self.max_hops - walk.len(), 1int, 0int,
    {
        if walk.len() >= self.max_hops {
            1
        } else {
            let u = walk_node(g, start, walk, walk.len() as int) as int;
            let lo = g.nodes@[u].edge_start as int;
            let hi = lo + g.nodes@[u].edge_count;
            1 + self.children_size(g, start, start_time, walk, lo, hi)
        }
    }

    /// The search steps spent on the extensions of `walk` by the edge
    /// positions `lo .. hi`.
    spec fn children_size(&self, g: &TemporalGraph, start: usize, start_time: u64, walk: Seq<int>, lo: int, hi: int) -> nat
        decreases self.max_hops - walk.len(), 0int, hi - lo,
    {
        if lo >= hi || walk.len() >= self.max_hops {
            0
        } else {
            let t = walk_time(g, start_time, walk, walk.len() as int);
            let e = g.edges@[lo];
            let here: nat = if e.timestamp > t && e.timestamp - start_time <= self.time_window_ms {
                self.search_size(g, start, start_time, walk.push(lo))
            } else {
                0
            };
            here + self.children_size(g, start, start_time, walk, lo + 1, hi)
        }
    }

    /// The search steps left for a stack of walks.
    spec fn stack_size(&self, g: &TemporalGraph, start: usize, start_time: u64, walks: Seq<Seq<int>>) -> nat
        decreases walks.len(),
    {
        if walks.len() == 0 {
            0
        } else {
            self.stack_size(g, start, start_time, walks.drop_last())
                + self.search_size(g, start, start_time, walks.last())
        }
    }

    /// What the search stack holds for a walk: the account it stands at,
    /// its length, and the time of its last transfer.
    spec fn entry_of(&self, g: &TemporalGraph, start: usize, start_time: u64, walk: Seq<int>) -> (usize, usize, u64) {
        (walk_node(g, start, walk, walk.len() as int), walk.len() as usize, walk_time(g, start_time, walk, walk.len() as int))
    }

    /// A prefix of a walk stands where the walk stood at that length, and
    /// its steps are the walk's steps.
    proof fn lemma_prefix_agrees(&self, g: &TemporalGraph, start: usize, start_time: u64, q: Seq<int>, w: Seq<int>)
        requires
            is_prefix(q, w),
        ensures
            forall|i: int| 0 <= i <= q.len() ==> #[trigger] walk_node(g, start, q, i) == walk_node(g, start, w, i),
            forall|i: int| 0 <= i <= q.len() ==> #[trigger] walk_time(g, start_time, q, i) == walk_time(g, start_time, w, i),
            forall|i: int| 0 <= i < q.len() ==> #[trigger] self.step_ok(g, start, start_time, q, i) == self.step_ok(g, start, start_time, w, i),
    {
        assert forall|i: int| 0 <= i < q.len() implies q[i] == w[i] by {
        }
    }

    /// Extending a temporal walk by a step that is fine keeps it a temporal walk.
    proof fn lemma_extend_walk(&self, g: &TemporalGraph, start: usize, start_time: u64, walk: Seq<int>, e: int)
        requires
            self.is_temporal_walk(g, start, start_time, walk),
            self.step_ok(g, start, start_time, walk.push(e), walk.len() as int),
        ensures
            self.is_temporal_walk(g, start, start_time, walk.push(e)),
            is_prefix(walk, walk.push(e)),
    {
        let w = walk.push(e);
        self.lemma_prefix_agrees(g, start, start_time, walk, w);
        assert forall|i: int| 0 <= i < w.len() implies #[trigger] self.step_ok(g, start, start_time, w, i) by {
            if i < walk.len() {
                assert(self.step_ok(g, start, start_time, walk, i));
            }
        }
    }

    /// A walk that is a prefix of `w` and as long as `w` is `w`.
    proof fn lemma_prefix_full(q: Seq<int>, w: Seq<int>)
        requires
            is_prefix(q, w),
            q.len() == w.len(),
        ensures
            q == w,
    {
    }

    /// The search steps left grow by exactly the pushed walk's share.
    proof fn lemma_stack_push(&self, g: &TemporalGraph, start: usize, start_time: u64, walks: Seq<Seq<int>>, w: Seq<int>)
        ensures
            self.stack_size(g, start, start_time, walks.push(w))
                == self.stack_size(g, start, start_time, walks) + self.search_size(g, start, start_time, w),
    {
        assert(walks.push(w).drop_last() =~= walks);
    }

    pub fn new(max_hops: usize, time_window_ms: u64) -> (e: Self)
        ensures
            e.max_hops == max_hops,
            e.time_window_ms == time_window_ms,
    {
        TgnnEngine { max_hops, time_window_ms }
    }

    /// Looks for a temporal cycle through `start_node` after `start_time` by
    /// a depth-first search on an explicit stack, pruning every transfer that
    /// is not strictly later than the one before it or that falls outside
    /// the time window, and never following more than `max_hops` transfers.
    ///
    /// The answer is `true` exactly when such a cycle exists.
    #[verifier::loop_isolation(false)]
    pub fn detect_temporal_cycle(&self, graph: &TemporalGraph, start_node: usize, start_time: u64) -> (found: bool)
        requires
            graph.wf(),
            self.search_stays_in_graph(graph, start_node, start_time),
        ensures
            found == self.has_temporal_cycle(graph, start_node, start_time),
    {
        let ghost g = graph;
        let ghost s = start_node;
        let ghost t0 = start_time;
        let mut stack: Vec<(usize, usize, u64)> = Vec::with_capacity(64);
        stack.push((start_node, 0, start_time));
        let ghost mut walks: Seq<Seq<int>> = seq![Seq::<int>::empty()];
        proof {
            assert forall|w: Seq<int>| #[trigger] self.is_temporal_cycle(g, s, t0, w) implies
                exists|j: int| 0 <= j < walks.len() && #[trigger] is_prefix(walks[j], w) by {
                assert(is_prefix(walks[0], w));
            }
        }
        loop
            invariant
                stack@.len() == walks.len(),
                forall|j: int| 0 <= j < walks.len() ==> self.entry_of(g, s, t0, #[trigger] walks[j]) == stack@[j],
                forall|j: int| 0 <= j < walks.len() ==> {
                    &&& self.is_temporal_walk(g, s, t0, #[trigger] walks[j])
                    &&& walks[j].len() <= self.max_hops
                    &&& walk_time(g, t0, walks[j], walks[j].len() as int) >= t0
                },
                forall|w: Seq<int>| #[trigger] self.is_temporal_cycle(g, s, t0, w) ==>
                    exists|j: int| 0 <= j < walks.len() && #[trigger] is_prefix(walks[j], w),
            decreases self.stack_size(g, s, t0, walks),
        {
            let ghost prev = walks;
            let ghost prev_stack = stack@;
            match stack.pop() {
                None => {
                    proof {
                        // a cycle would have a prefix on the now empty stack
                        if self.has_temporal_cycle(g, s, t0) {
                            let w = choose|w: Seq<int>| self.is_temporal_cycle(g, s, t0, w);
                            assert(self.is_temporal_cycle(g, s, t0, w));
                        }
                    }
                    return false;
                },
                Some((curr_node, depth, curr_time)) => {
                    let ghost walk = prev.last();
                    proof {
                        walks = prev.drop_last();
                    }
                    if depth > 0 && curr_node == start_node {
                        assert(self.is_temporal_cycle(g, s, t0, walk));
                        return true;
                    }
                    if depth >= self.max_hops {
                        proof {
                            assert forall|w: Seq<int>| #[trigger] self.is_temporal_cycle(g, s, t0, w) implies
                                exists|j: int| 0 <= j < walks.len() && #[trigger] is_prefix(walks[j], w) by {
                                let j = choose|j: int| 0 <= j < prev.len() && #[trigger] is_prefix(prev[j], w);
                                if j == prev.len() - 1 {
                                    Self::lemma_prefix_full(walk, w);
                                }
                                assert(walks[j] == prev[j]);
                            }
                        }
                        continue;
                    }
                    // a walk shorter than the hop limit that has not come back: its end is a node
                    let edges = graph.get_edges(curr_node);
                    let ghost lo = graph.nodes@[curr_node as int].edge_start as int;
                    let ghost hi = lo + graph.nodes@[curr_node as int].edge_count;
                    let ghost rest = walks;
                    proof {
                        assert forall|w: Seq<int>| #[trigger] self.is_temporal_cycle(g, s, t0, w)
                            && !(is_prefix(walk, w) && w.len() > walk.len() && w[walk.len() as int] >= lo) implies
                            exists|j: int| 0 <= j < walks.len() && #[trigger] is_prefix(walks[j], w) by {
                            let j = choose|j: int| 0 <= j < prev.len() && #[trigger] is_prefix(prev[j], w);
                            if j == prev.len() - 1 {
                                if w.len() == walk.len() {
                                    Self::lemma_prefix_full(walk, w);
                                }
                                self.lemma_prefix_agrees(g, s, t0, walk, w);
                                assert(self.step_ok(g, s, t0, w, walk.len() as int));
                            }
                            assert(walks[j] == prev[j]);
                        }
                    }
                    let mut i: usize = 0;
                    while i < edges.len()
                        invariant
                            0 <= i <= edges@.len(),
                            stack@.len() == walks.len(),
                            walks.len() >= rest.len(),
                            forall|j: int| 0 <= j < rest.len() ==> walks[j] == rest[j],
                            forall|j: int| 0 <= j < walks.len() ==> self.entry_of(g, s, t0, #[trigger] walks[j]) == stack@[j],
                            forall|j: int| 0 <= j < walks.len() ==> {
                                &&& self.is_temporal_walk(g, s, t0, #[trigger] walks[j])
                                &&& walks[j].len() <= self.max_hops
                                &&& walk_time(g, t0, walks[j], walks[j].len() as int) >= t0
                            },
                            forall|w: Seq<int>| #[trigger] self.is_temporal_cycle(g, s, t0, w)
                                && !(is_prefix(walk, w) && w.len() > walk.len() && w[walk.len() as int] >= lo + i) ==>
                                exists|j: int| 0 <= j < walks.len() && #[trigger] is_prefix(walks[j], w),
                            self.stack_size(g, s, t0, walks) + self.children_size(g, s, t0, walk, lo + i, hi)
                                == self.stack_size(g, s, t0, rest) + self.children_size(g, s, t0, walk, lo, hi),
                        decreases edges@.len() - i,
                    {
                        let edge = edges[i];
                        let ghost e = lo + i;
                        let ghost before = walks;
                        if edge.timestamp > curr_time && (edge.timestamp - start_time) <= self.time_window_ms {
                            stack.push((edge.dst, depth + 1, edge.timestamp));
                            proof {
                                let nw = walk.push(e);
                                self.lemma_extend_walk(g, s, t0, walk, e);
                                self.lemma_stack_push(g, s, t0, walks, nw);
                                walks = walks.push(nw);
                            }
                        }
                        proof {
                            assert forall|w: Seq<int>| #[trigger] self.is_temporal_cycle(g, s, t0, w)
                                && !(is_prefix(walk, w) && w.len() > walk.len() && w[walk.len() as int] >= e + 1) implies
                                exists|j: int| 0 <= j < walks.len() && #[trigger] is_prefix(walks[j], w) by {
                                if is_prefix(walk, w) && w.len() > walk.len() && w[walk.len() as int] == e {
                                    let nw = walk.push(e);
                                    self.lemma_prefix_agrees(g, s, t0, walk, w);
                                    assert(self.step_ok(g, s, t0, w, walk.len() as int));
                                    assert(nw =~= w.take(nw.len() as int));
                                    assert(is_prefix(walks[walks.len() - 1], w));
                                } else {
                                    let j = choose|j: int| 0 <= j < before.len() && #[trigger] is_prefix(before[j], w);
                                    assert(walks[j] == before[j]);
                                }
                            }
                        }
                        i = i + 1;
                    }
                    proof {
                        assert forall|w: Seq<int>| #[trigger] self.is_temporal_cycle(g, s, t0, w) implies
                            exists|j: int| 0 <= j < walks.len() && #[trigger] is_prefix(walks[j], w) by {
                            if is_prefix(walk, w) && w.len() > walk.len() {
                                self.lemma_prefix_agrees(g, s, t0, walk, w);
                                assert(self.step_ok(g, s, t0, w, walk.len() as int));
                            }
                        }
                    }
                }
            }
        }
    }
}

/// Searching further (more hops) or longer (a wider time window) never
/// loses a cycle that a narrower search finds.
pub proof fn law_detection_monotone(
    narrow: &TgnnEngine,
    wide: &TgnnEngine,
    g: &TemporalGraph,
    start: usize,
    start_time: u64,
)
    requires
        narrow.max_hops <= wide.max_hops,
        narrow.time_window_ms <= wide.time_window_ms,
    ensures
        narrow.has_temporal_cycle(g, start, start_time) ==> wide.has_temporal_cycle(g, start, start_time),
{
    if narrow.has_temporal_cycle(g, start, start_time) {
        let w = choose|w: Seq<int>| narrow.is_temporal_cycle(g, start, start_time, w);
        assert forall|i: int| 0 <= i < w.len() implies #[trigger] wide.step_ok(g, start, start_time, w, i) by {
            assert(narrow.step_ok(g, start, start_time, w, i));
        }
        assert(wide.is_temporal_cycle(g, start, start_time, w));
    }
}

/// In a well-formed graph whose transfers all lead to accounts of the graph,
/// the search from an account of the graph never leaves the graph.
pub proof fn law_closed_graph_search_stays_in_graph(
    engine: &TgnnEngine,
    g: &TemporalGraph,
    start: usize,
    start_time: u64,
)
    requires
        g.wf(),
        start < g.nodes@.len(),
        forall|e: int| 0 <= e < g.edges@.len() ==> #[trigger] g.edges@[e].dst < g.nodes@.len(),
    ensures
        engine.search_stays_in_graph(g, start, start_time),
{
    assert forall|walk: Seq<int>|
        engine.is_temporal_walk(g, start, start_time, walk) && walk.len() < engine.max_hops
            && (walk.len() == 0 || walk_node(g, start, walk, walk.len() as int) != start)
        implies walk_node(g, start, walk, walk.len() as int) < g.nodes@.len() by {
        if walk.len() > 0 {
            let k = walk.len() - 1;
            assert(engine.step_ok(g, start, start_time, walk, k));
            let u = walk_node(g, start, walk, k) as int;
        }
    }
}

} // verus!
