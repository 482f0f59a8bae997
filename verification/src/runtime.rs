use vstd::prelude::*;
use crate::error::VegaFusionError;
use crate::graph::{TaskGraph, TaskNode, depends_on, graph_edges_wf, kind_matches, lemma_depends_lt};
use crate::task_value::TaskValue;

verus! {

/// A node's cached value can be used as it stands: present and not
/// stale.
pub open spec fn node_fresh(nodes: Seq<TaskNode>, i: int) -> bool {
    nodes[i].value is Some && !nodes[i].dirty
}

/// Every direct input of node `i` is fresh, so the node's task could
/// run right now from the cache.
pub open spec fn inputs_fresh(nodes: Seq<TaskNode>, i: int) -> bool {
    forall|j: int|
        0 <= j < nodes[i].inputs@.len() ==> node_fresh(
            nodes,
            (#[trigger] nodes[i].inputs@[j]) as int,
        )
}

/// An ancestor of the target (or the target itself) that is stale but
/// whose direct inputs are all fresh: the next task evaluation the
/// cache owes.
pub open spec fn ready_stale(nodes: Seq<TaskNode>, target: int, x: int) -> bool {
    &&& 0 <= x < nodes.len()
    &&& x == target || depends_on(nodes, target, x)
    &&& !node_fresh(nodes, x)
    &&& inputs_fresh(nodes, x)
}

/// If the target depends on `i`, it also depends on every input of `i`.
proof fn lemma_depends_step(nodes: Seq<TaskNode>, t: int, i: int, jj: int)
    requires
        graph_edges_wf(nodes),
        0 <= t < nodes.len(),
        0 <= i < nodes.len(),
        depends_on(nodes, t, i),
        0 <= jj < nodes[i].inputs@.len(),
    ensures
        depends_on(nodes, t, nodes[i].inputs@[jj] as int),
    decreases t,
{
    let p = nodes[i].inputs@[jj] as int;
    assert(depends_on(nodes, i, p)) by {
        assert(0 <= jj < nodes[i].inputs@.len() && nodes[i].inputs@[jj] as int == p);
    }
    lemma_depends_lt(nodes, t, i);
    let j = choose|j: int|
        #![trigger nodes[t].inputs@[j]]
        0 <= j < nodes[t].inputs@.len() && ({
            let q = nodes[t].inputs@[j] as int;
            q == i || depends_on(nodes, q, i)
        });
    let q = nodes[t].inputs@[j] as int;
    if q == i {
        assert(depends_on(nodes, q, p));
    } else {
        lemma_depends_step(nodes, q, i, jj);
    }
}

/// Among the marked nodes, a stale one with the smallest index has all
/// its inputs fresh; so a stale marked node guarantees a ready one.
proof fn lemma_stale_has_ready(nodes: Seq<TaskNode>, target: int, amark: Seq<bool>, i: int)
    requires
        graph_edges_wf(nodes),
        amark.len() == nodes.len(),
        0 <= target < nodes.len(),
        0 <= i < nodes.len(),
        amark[i],
        !node_fresh(nodes, i),
        forall|x: int| 0 <= x < nodes.len() && amark[x] ==> x == target || depends_on(nodes, target, x),
        forall|x: int, j: int|
            #![trigger amark[x], nodes[x].inputs@[j]]
            0 <= x < nodes.len() && amark[x] && 0 <= j < nodes[x].inputs@.len()
                ==> amark[nodes[x].inputs@[j] as int],
    ensures
        exists|x: int| #[trigger] ready_stale(nodes, target, x) && amark[x],
    decreases i,
{
    if inputs_fresh(nodes, i) {
        assert(ready_stale(nodes, target, i));
    } else {
        let j = choose|j: int|
            0 <= j < nodes[i].inputs@.len() && !node_fresh(
                nodes,
                (#[trigger] nodes[i].inputs@[j]) as int,
            );
        let p = nodes[i].inputs@[j] as int;
        lemma_stale_has_ready(nodes, target, amark, p);
    }
}

/// The caching evaluator's decision logic. Values are cached in the
/// graph's nodes; the runtime decides, from the cache and the
/// staleness flags alone, which value can be returned at once and
/// which single task evaluation is owed next. Running a task's
/// asynchronous work and storing its result are the caller's side of
/// the loop. The cache holds at most `capacity` entries by the
/// caller's accounting; dropping a cached value never loses
/// correctness, only amortized cost.
#[derive(Debug)]
pub struct TaskGraphRuntime {
    pub capacity: usize,
}

impl TaskGraphRuntime {
    /// A runtime with a bounded cache. A zero capacity cannot hold
    /// even one in-flight result and is a configuration error.
    pub fn new(capacity: usize) -> (r: Result<TaskGraphRuntime, VegaFusionError>)
        ensures
            r is Ok <==> capacity > 0,
            r is Ok ==> r->Ok_0.capacity == capacity,
    {
        if capacity == 0 {
            Err(VegaFusionError::internal("Cache capacity must be positive"))
        } else {
            Ok(TaskGraphRuntime { capacity })
        }
    }

    /// The node's value, straight from the cache.
    ///
    /// `Ok(Some(v))` is returned exactly when the cached entry is
    /// present and not stale, and `v` is that entry: asking twice with
    /// no intervening update returns the identical value and owes no
    /// task evaluation. `Ok(None)` means the node must be evaluated
    /// first (see `next_to_evaluate`).
    pub fn get_node_value<'a>(&self, graph: &'a TaskGraph, index: usize) -> (r: Result<
        Option<&'a TaskValue>,
        VegaFusionError,
    >)
        ensures
            index >= graph.nodes@.len() <==> r is Err,
            r is Err ==> r->Err_0 is Internal,
            index < graph.nodes@.len() ==> match r->Ok_0 {
                Some(v) => node_fresh(graph.nodes@, index as int) && graph.nodes@[
                    index as int
                ].value == Some(*v),
                None => !node_fresh(graph.nodes@, index as int),
            },
    {
        if index >= graph.nodes.len() {
            return Err(VegaFusionError::internal("Node index out of range"));
        }
        if graph.nodes[index].dirty {
            return Ok(None);
        }
        match &graph.nodes[index].value {
            Some(v) => Ok(Some(v)),
            None => Ok(None),
        }
    }

    /// Which single task evaluation the cache owes before `target` can
    /// be served.
    ///
    /// `Ok(None)` is returned exactly when the target is fresh: no
    /// task runs at all then. Otherwise the returned node is stale, is
    /// the target or one of its ancestors, and all of its direct
    /// inputs are fresh, so the caller can evaluate exactly that one
    /// task and store the result.
    pub fn next_to_evaluate(&self, graph: &TaskGraph, target: usize) -> (r: Result<
        Option<usize>,
        VegaFusionError,
    >)
        requires
            graph.wf(),
        ensures
            target >= graph.nodes@.len() <==> r is Err,
            target < graph.nodes@.len() ==> match r->Ok_0 {
                None => node_fresh(graph.nodes@, target as int),
                Some(i) => !node_fresh(graph.nodes@, target as int) && ready_stale(
                    graph.nodes@,
                    target as int,
                    i as int,
                ),
            },
    {
        let n = graph.nodes.len();
        if target >= n {
            return Err(VegaFusionError::internal("Node index out of range"));
        }
        let target_fresh = !graph.nodes[target].dirty && graph.nodes[target].value.is_some();
        if target_fresh {
            return Ok(None);
        }
        let ghost nodes = graph.nodes@;
        // Mark the target and, walking backwards, every input of a
        // marked node: exactly the target's ancestry gets marked.
        let mut amark: Vec<bool> = Vec::new();
        let mut i: usize = 0;
        while i < n
            invariant
                i <= n,
                amark@.len() == i,
                forall|ii: int| 0 <= ii < i ==> !(#[trigger] amark@[ii]),
            decreases n - i,
        {
            amark.push(false);
            i = i + 1;
        }
        amark[target] = true;
        let mut x: usize = target + 1;
        while x > 0
            invariant
                x <= target + 1,
                target < n,
                n == nodes.len(),
                n == amark@.len(),
                graph.nodes@ == nodes,
                graph_edges_wf(nodes),
                amark@[target as int],
                forall|ii: int|
                    0 <= ii < n && #[trigger] amark@[ii] ==> ii == target || depends_on(
                        nodes,
                        target as int,
                        ii,
                    ),
                forall|ii: int, j: int|
                    #![trigger amark@[ii], nodes[ii].inputs@[j]]
                    x <= ii < n && amark@[ii] && 0 <= j < nodes[ii].inputs@.len()
                        ==> amark@[nodes[ii].inputs@[j] as int],
            decreases x,
        {
            x = x - 1;
            if amark[x] {
                let m = graph.nodes[x].inputs.len();
                let mut j: usize = 0;
                while j < m
                    invariant
                        j <= m,
                        x < n,
                        n == nodes.len(),
                        n == amark@.len(),
                        graph.nodes@ == nodes,
                        graph_edges_wf(nodes),
                        m == nodes[x as int].inputs@.len(),
                        amark@[target as int],
                        amark@[x as int],
                        target < n,
                        forall|ii: int|
                            0 <= ii < n && #[trigger] amark@[ii] ==> ii == target || depends_on(
                                nodes,
                                target as int,
                                ii,
                            ),
                        forall|ii: int, j2: int|
                            #![trigger amark@[ii], nodes[ii].inputs@[j2]]
                            x < ii < n && amark@[ii] && 0 <= j2 < nodes[ii].inputs@.len()
                                ==> amark@[nodes[ii].inputs@[j2] as int],
                        forall|j2: int|
                            0 <= j2 < j ==> amark@[(#[trigger] nodes[x as int].inputs@[j2]) as int],
                    decreases m - j,
                {
                    let p = graph.nodes[x].inputs[j];
                    proof {
                        if x as int == target {
                            assert(depends_on(nodes, target as int, p as int)) by {
                                assert(nodes[target as int].inputs@[j as int] == p);
                            }
                        } else {
                            lemma_depends_step(nodes, target as int, x as int, j as int);
                        }
                    }
                    amark[p] = true;
                    j = j + 1;
                }
            }
        }
        // The smallest marked stale node has only fresh inputs; scan
        // for the first one.
        let mut i: usize = 0;
        while i < n
            invariant
                i <= n,
                n == nodes.len(),
                n == amark@.len(),
                graph.nodes@ == nodes,
                graph_edges_wf(nodes),
                target < n,
                amark@[target as int],
                !node_fresh(nodes, target as int),
                forall|ii: int|
                    0 <= ii < n && #[trigger] amark@[ii] ==> ii == target || depends_on(
                        nodes,
                        target as int,
                        ii,
                    ),
                forall|ii: int, j: int|
                    #![trigger amark@[ii], nodes[ii].inputs@[j]]
                    0 <= ii < n && amark@[ii] && 0 <= j < nodes[ii].inputs@.len()
                        ==> amark@[nodes[ii].inputs@[j] as int],
                forall|ii: int|
                    0 <= ii < i && #[trigger] amark@[ii] ==> node_fresh(nodes, ii) || !inputs_fresh(
                        nodes,
                        ii,
                    ),
            decreases n - i,
        {
            if amark[i] {
                let stale = graph.nodes[i].dirty || graph.nodes[i].value.is_none();
                if stale {
                    let mut all_fresh = true;
                    let m = graph.nodes[i].inputs.len();
                    let mut j: usize = 0;
                    while j < m
                        invariant
                            j <= m,
                            i < n,
                            n == nodes.len(),
                            graph.nodes@ == nodes,
                            graph_edges_wf(nodes),
                            m == nodes[i as int].inputs@.len(),
                            all_fresh == forall|j2: int|
                                0 <= j2 < j ==> node_fresh(
                                    nodes,
                                    (#[trigger] nodes[i as int].inputs@[j2]) as int,
                                ),
                        decreases m - j,
                    {
                        let p = graph.nodes[i].inputs[j];
                        let p_fresh = !graph.nodes[p].dirty && graph.nodes[p].value.is_some();
                        if !p_fresh {
                            all_fresh = false;
                        }
                        j = j + 1;
                    }
                    if all_fresh {
                        return Ok(Some(i));
                    }
                }
            }
            i = i + 1;
        }
        proof {
            lemma_stale_has_ready(nodes, target as int, amark@, target as int);
            let w = choose|w: int| #[trigger] ready_stale(nodes, target as int, w) && amark@[w];
            assert(false);
        }
        Err(VegaFusionError::internal("Unreachable: a stale target always owes an evaluation"))
    }

    /// Drop a node's cached entry, the bounded cache's way of staying
    /// within its capacity (the driver picks victims, favouring nodes
    /// without watchers). Only that node changes, and only its value:
    /// the next request recomputes it, so eviction costs time, never
    /// correctness.
    pub fn evict(&self, graph: &mut TaskGraph, index: usize) -> (r: Result<(), VegaFusionError>)
        requires
            old(graph).wf(),
        ensures
            final(graph).wf(),
            index >= old(graph).nodes@.len() ==> r is Err && *final(graph) == *old(graph),
            index < old(graph).nodes@.len() ==> {
                &&& r is Ok
                &&& final(graph).nodes@.len() == old(graph).nodes@.len()
                &&& final(graph).nodes@[index as int].value is None
                &&& final(graph).nodes@[index as int].dirty == old(graph).nodes@[
                    index as int
                ].dirty
                &&& final(graph).nodes@[index as int].kind == old(graph).nodes@[index as int].kind
                &&& final(graph).nodes@[index as int].inputs == old(graph).nodes@[
                    index as int
                ].inputs
                &&& final(graph).nodes@[index as int].output_var == old(graph).nodes@[
                    index as int
                ].output_var
                &&& forall|i: int|
                    0 <= i < old(graph).nodes@.len() && i != index
                        ==> #[trigger] final(graph).nodes@[i] == old(graph).nodes@[i]
            },
    {
        let n = graph.nodes.len();
        if index >= n {
            return Err(VegaFusionError::internal("Node index out of range"));
        }
        graph.nodes[index].value = None;
        Ok(())
    }

    /// Record a task's freshly computed result (the primary value or a
    /// declared side output) in its node's cache entry. Only that node
    /// changes; it becomes fresh. A bad index or a value of the wrong
    /// variant is rejected and the graph is left as it was.
    pub fn store_result(&self, graph: &mut TaskGraph, index: usize, value: TaskValue) -> (r:
        Result<(), VegaFusionError>)
        requires
            old(graph).wf(),
        ensures
            final(graph).wf(),
            index >= old(graph).nodes@.len() ==> r is Err && *final(graph) == *old(graph),
            index < old(graph).nodes@.len() && !kind_matches(
                old(graph).nodes@[index as int].kind,
                value@,
            ) ==> r is Err && *final(graph) == *old(graph),
            index < old(graph).nodes@.len() && kind_matches(
                old(graph).nodes@[index as int].kind,
                value@,
            ) ==> {
                &&& r is Ok
                &&& final(graph).nodes@.len() == old(graph).nodes@.len()
                &&& final(graph).nodes@[index as int].value == Some(value)
                &&& final(graph).nodes@[index as int].dirty == false
                &&& final(graph).nodes@[index as int].kind == old(graph).nodes@[index as int].kind
                &&& final(graph).nodes@[index as int].inputs == old(graph).nodes@[
                    index as int
                ].inputs
                &&& final(graph).nodes@[index as int].output_var == old(graph).nodes@[
                    index as int
                ].output_var
                &&& forall|i: int|
                    0 <= i < old(graph).nodes@.len() && i != index
                        ==> #[trigger] final(graph).nodes@[i] == old(graph).nodes@[i]
            },
    {
        let n = graph.nodes.len();
        if index >= n {
            return Err(VegaFusionError::internal("Node index out of range"));
        }
        let variant_ok = match (&graph.nodes[index].kind, &value) {
            (crate::graph::ValueKind::Scalar, TaskValue::Scalar(_)) => true,
            (crate::graph::ValueKind::Table, TaskValue::Table(_)) => true,
            _ => false,
        };
        if !variant_ok {
            return Err(VegaFusionError::internal("Value variant does not match the node's kind"));
        }
        graph.nodes[index].value = Some(value);
        graph.nodes[index].dirty = false;
        Ok(())
    }
}

} // verus!
