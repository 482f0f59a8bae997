use vstd::prelude::*;
use crate::error::VegaFusionError;
use crate::task_value::{TaskValue, TaskValueModel};
use crate::variable::ScopedVariable;

verus! {

/// Which variant a node's task produces: its namespace identity never
/// changes across re-evaluations.
#[derive(Debug, Clone, Copy, PartialEq, Eq, Structural)]
pub enum ValueKind {
    Scalar,
    Table,
}

/// Whether a value's variant agrees with a node's declared kind.
pub open spec fn kind_matches(k: ValueKind, m: TaskValueModel) -> bool {
    match k {
        ValueKind::Scalar => m is Scalar,
        ValueKind::Table => m is Table,
    }
}

/// One task to be placed in the graph: the scoped variable it
/// produces, the variant it produces, and the scoped variables it
/// reads.
#[derive(Debug)]
pub struct TaskDecl {
    pub output_var: ScopedVariable,
    pub kind: ValueKind,
    pub input_vars: Vec<ScopedVariable>,
}

/// One resolved node: its task's declaration data, the indices of the
/// producing nodes of its inputs, its current value, and whether that
/// value is stale.
#[derive(Debug)]
pub struct TaskNode {
    pub output_var: ScopedVariable,
    pub kind: ValueKind,
    pub inputs: Vec<usize>,
    pub value: Option<TaskValue>,
    pub dirty: bool,
}

/// The dependency DAG over tasks. Topology is fixed at construction;
/// only each node's value and staleness flag change afterwards.
#[derive(Debug)]
pub struct TaskGraph {
    pub nodes: Vec<TaskNode>,
}

/// Every edge points to an earlier node: the caller-supplied task
/// order is topological, which makes the graph acyclic.
pub open spec fn graph_edges_wf(nodes: Seq<TaskNode>) -> bool {
    forall|i: int, j: int|
        0 <= i < nodes.len() && 0 <= j < nodes[i].inputs@.len() ==> (#[trigger] nodes[i].inputs@[j])
            < i
}

/// Every stored value matches its node's declared kind.
pub open spec fn graph_values_wf(nodes: Seq<TaskNode>) -> bool {
    forall|i: int|
        0 <= i < nodes.len() ==> match #[trigger] nodes[i].value {
            Some(v) => kind_matches(nodes[i].kind, v@),
            None => true,
        }
}

/// Node `d` transitively depends on node `a`: `a` is an input of `d`,
/// or an input of `d` depends on `a`. In other words, `d` is a strict
/// descendant of `a`.
pub open spec fn depends_on(nodes: Seq<TaskNode>, d: int, a: int) -> bool
    decreases d,
    when graph_edges_wf(nodes) && 0 <= d < nodes.len()
{
    exists|j: int|
        #![trigger nodes[d].inputs@[j]]
        0 <= j < nodes[d].inputs@.len() && ({
            let p = nodes[d].inputs@[j] as int;
            p == a || depends_on(nodes, p, a)
        })
}

/// A strict descendant has a larger index than its ancestor.
pub proof fn lemma_depends_lt(nodes: Seq<TaskNode>, d: int, a: int)
    requires
        graph_edges_wf(nodes),
        0 <= d < nodes.len(),
        depends_on(nodes, d, a),
    ensures
        a < d,
    decreases d,
{
    let j = choose|j: int|
        #![trigger nodes[d].inputs@[j]]
        0 <= j < nodes[d].inputs@.len() && ({
            let p = nodes[d].inputs@[j] as int;
            p == a || depends_on(nodes, p, a)
        });
    let p = nodes[d].inputs@[j] as int;
    if p == a {
    } else {
        lemma_depends_lt(nodes, p, a);
    }
}

/// Task `k` is the producer, among the first `i` tasks, of the `j`-th
/// input of task `i`.
pub open spec fn resolves(tasks: Seq<TaskDecl>, i: int, j: int, k: int) -> bool {
    0 <= k < i && tasks[k].output_var@ == tasks[i].input_vars@[j]@
}

/// No two tasks produce the same scoped variable.
pub open spec fn unique_producers(tasks: Seq<TaskDecl>) -> bool {
    forall|k1: int, k2: int|
        0 <= k1 < k2 < tasks.len() ==> (#[trigger] tasks[k1].output_var@) != (
        #[trigger] tasks[k2].output_var@)
}

/// The `j`-th input of task `i` has some producer among the earlier
/// tasks.
pub open spec fn input_resolvable(tasks: Seq<TaskDecl>, i: int, j: int) -> bool {
    exists|k: int| #[trigger] resolves(tasks, i, j, k)
}

/// Every input of every task has a producer among the earlier tasks,
/// and producers are unambiguous.
pub open spec fn resolvable(tasks: Seq<TaskDecl>) -> bool {
    &&& unique_producers(tasks)
    &&& forall|i: int, j: int|
        0 <= i < tasks.len() && 0 <= j < tasks[i].input_vars@.len()
            ==> #[trigger] input_resolvable(tasks, i, j)
}

impl TaskGraph {
    pub open spec fn wf(&self) -> bool {
        graph_edges_wf(self.nodes@) && graph_values_wf(self.nodes@)
    }

    pub fn node_count(&self) -> (r: usize)
        ensures
            r == self.nodes@.len(),
    {
        self.nodes.len()
    }

    /// Build the graph: one node per task, each input resolved to the
    /// unique earlier producing task. An unresolved reference, a
    /// reference to a later task (a cycle under the caller's order) or
    /// two producers of one scoped variable are construction errors.
    pub fn new(tasks: &Vec<TaskDecl>) -> (r: Result<TaskGraph, VegaFusionError>)
        ensures
            r is Ok <==> resolvable(tasks@),
            r is Ok ==> ({
                let g = r->Ok_0;
                &&& g.wf()
                &&& g.nodes@.len() == tasks@.len()
                &&& forall|i: int|
                    0 <= i < tasks@.len() ==> {
                        &&& (#[trigger] g.nodes@[i]).output_var@ == tasks@[i].output_var@
                        &&& g.nodes@[i].kind == tasks@[i].kind
                        &&& g.nodes@[i].value is None
                        &&& g.nodes@[i].dirty == false
                        &&& g.nodes@[i].inputs@.len() == tasks@[i].input_vars@.len()
                        &&& forall|j: int|
                            0 <= j < tasks@[i].input_vars@.len() ==> resolves(
                                tasks@,
                                i,
                                j,
                                #[trigger] g.nodes@[i].inputs@[j] as int,
                            )
                    }
            }),
    {
        let n = tasks.len();
        // Reject duplicate producers.
        let mut i: usize = 0;
        while i < n
            invariant
                i <= n,
                n == tasks@.len(),
                forall|k1: int, k2: int|
                    0 <= k1 < k2 < i ==> (#[trigger] tasks@[k1].output_var@) != (
                    #[trigger] tasks@[k2].output_var@),
            decreases n - i,
        {
            let mut k: usize = 0;
            while k < i
                invariant
                    k <= i < n,
                    n == tasks@.len(),
                    forall|k1: int|
                        0 <= k1 < k ==> (#[trigger] tasks@[k1].output_var@) != tasks@[
                            i as int
                        ].output_var@,
                decreases i - k,
            {
                if tasks[k].output_var.same_as(&tasks[i].output_var) {
                    proof {
                        assert(!unique_producers(tasks@));
                    }
                    return Err(
                        VegaFusionError::internal("Two tasks produce the same scoped variable"),
                    );
                }
                k = k + 1;
            }
            i = i + 1;
        }
        // Resolve every input to its unique earlier producer.
        let mut nodes: Vec<TaskNode> = Vec::new();
        let mut i: usize = 0;
        while i < n
            invariant
                i <= n,
                n == tasks@.len(),
                unique_producers(tasks@),
                nodes@.len() == i,
                forall|ii: int|
                    0 <= ii < i ==> {
                        &&& (#[trigger] nodes@[ii]).output_var@ == tasks@[ii].output_var@
                        &&& nodes@[ii].kind == tasks@[ii].kind
                        &&& nodes@[ii].value is None
                        &&& nodes@[ii].dirty == false
                        &&& nodes@[ii].inputs@.len() == tasks@[ii].input_vars@.len()
                        &&& forall|j: int|
                            0 <= j < tasks@[ii].input_vars@.len() ==> resolves(
                                tasks@,
                                ii,
                                j,
                                #[trigger] nodes@[ii].inputs@[j] as int,
                            )
                    },
            decreases n - i,
        {
            let m = tasks[i].input_vars.len();
            let mut inputs: Vec<usize> = Vec::new();
            let mut j: usize = 0;
            while j < m
                invariant
                    j <= m,
                    i < n,
                    n == tasks@.len(),
                    m == tasks@[i as int].input_vars@.len(),
                    inputs@.len() == j,
                    forall|jj: int|
                        0 <= jj < j ==> resolves(
                            tasks@,
                            i as int,
                            jj,
                            #[trigger] inputs@[jj] as int,
                        ),
                decreases m - j,
            {
                let mut found: Option<usize> = None;
                let mut k: usize = 0;
                while k < i
                    invariant
                        k <= i < n,
                        n == tasks@.len(),
                        m == tasks@[i as int].input_vars@.len(),
                        j < m,
                        match found {
                            Some(kk) => resolves(tasks@, i as int, j as int, kk as int),
                            None => forall|kp: int|
                                0 <= kp < k ==> !resolves(tasks@, i as int, j as int, kp),
                        },
                    decreases i - k,
                {
                    if found.is_none() && tasks[k].output_var.same_as(&tasks[i].input_vars[j]) {
                        found = Some(k);
                    }
                    k = k + 1;
                }
                match found {
                    None => {
                        proof {
                            assert(forall|kp: int| !(#[trigger] resolves(
                                tasks@,
                                i as int,
                                j as int,
                                kp,
                            )));
                            assert(!input_resolvable(tasks@, i as int, j as int));
                        }
                        return Err(
                            VegaFusionError::internal("Unresolved input variable reference"),
                        );
                    }
                    Some(kk) => {
                        inputs.push(kk);
                    }
                }
                j = j + 1;
            }
            let node = TaskNode {
                output_var: clone_scoped_variable(&tasks[i].output_var),
                kind: tasks[i].kind,
                inputs: inputs,
                value: None,
                dirty: false,
            };
            nodes.push(node);
            i = i + 1;
        }
        let g = TaskGraph { nodes: nodes };
        proof {
            assert forall|i2: int, j2: int|
                0 <= i2 < tasks@.len() && 0 <= j2
                    < tasks@[i2].input_vars@.len() implies #[trigger] input_resolvable(
                tasks@,
                i2,
                j2,
            ) by {
                assert(resolves(tasks@, i2, j2, g.nodes@[i2].inputs@[j2] as int));
            }
            assert(resolvable(tasks@));
        }
        Ok(g)
    }

    /// The scoped-variable-to-node-index table, in node order.
    pub fn build_mapping(&self) -> (r: Vec<(ScopedVariable, usize)>)
        ensures
            r@.len() == self.nodes@.len(),
            forall|i: int|
                0 <= i < r@.len() ==> (#[trigger] r@[i]).0@ == self.nodes@[i].output_var@ && r@[
                    i
                ].1 == i,
    {
        let n = self.nodes.len();
        let mut r: Vec<(ScopedVariable, usize)> = Vec::new();
        let mut i: usize = 0;
        while i < n
            invariant
                i <= n,
                n == self.nodes@.len(),
                r@.len() == i,
                forall|ii: int|
                    0 <= ii < i ==> (#[trigger] r@[ii]).0@ == self.nodes@[ii].output_var@ && r@[
                        ii
                    ].1 == ii,
            decreases n - i,
        {
            r.push((clone_scoped_variable(&self.nodes[i].output_var), i));
            i = i + 1;
        }
        r
    }

    /// Override a node's value from outside normal evaluation.
    ///
    /// On success the value is stored, the node is fresh again, every
    /// strict descendant is marked stale, and no other node changes.
    /// A bad index or a value of the wrong variant is rejected and the
    /// graph is left exactly as it was.
    pub fn update_value(&mut self, index: usize, value: TaskValue) -> (r: Result<
        (),
        VegaFusionError,
    >)
        requires
            old(self).wf(),
        ensures
            final(self).wf(),
            index >= old(self).nodes@.len() ==> r is Err && r->Err_0 is Internal && *final(self)
                == *old(self),
            index < old(self).nodes@.len() && !kind_matches(
                old(self).nodes@[index as int].kind,
                value@,
            ) ==> r is Err && r->Err_0 is Internal && *final(self) == *old(self),
            index < old(self).nodes@.len() && kind_matches(
                old(self).nodes@[index as int].kind,
                value@,
            ) ==> {
                let nodes0 = old(self).nodes@;
                let nodes1 = final(self).nodes@;
                &&& r is Ok
                &&& nodes1.len() == nodes0.len()
                &&& nodes1[index as int].value == Some(value)
                &&& nodes1[index as int].dirty == false
                &&& forall|i: int|
                    0 <= i < nodes0.len() ==> {
                        &&& (#[trigger] nodes1[i]).output_var@ == nodes0[i].output_var@
                        &&& nodes1[i].kind == nodes0[i].kind
                        &&& nodes1[i].inputs == nodes0[i].inputs
                    }
                &&& forall|i: int|
                    0 <= i < nodes0.len() && i != index && depends_on(nodes0, i, index as int)
                        ==> (#[trigger] nodes1[i]).dirty
                &&& forall|i: int|
                    0 <= i < nodes0.len() && i != index && !depends_on(nodes0, i, index as int)
                        ==> #[trigger] nodes1[i] == nodes0[i]
            },
    {
        let n = self.nodes.len();
        if index >= n {
            return Err(VegaFusionError::internal("Node index out of range"));
        }
        let variant_ok = match (&self.nodes[index].kind, &value) {
            (ValueKind::Scalar, TaskValue::Scalar(_)) => true,
            (ValueKind::Table, TaskValue::Table(_)) => true,
            _ => false,
        };
        if !variant_ok {
            return Err(VegaFusionError::internal("Value variant does not match the node's kind"));
        }
        let ghost nodes0 = self.nodes@;
        self.nodes[index].value = Some(value);
        self.nodes[index].dirty = false;
        // One forward pass marks exactly the strict descendants: a node
        // depends on `index` iff one of its inputs is `index` or an
        // already-marked node.
        let mut mark: Vec<bool> = Vec::new();
        let mut i: usize = 0;
        while i < n
            invariant
                i <= n,
                mark@.len() == i,
                forall|ii: int| 0 <= ii < i ==> !(#[trigger] mark@[ii]),
            decreases n - i,
        {
            mark.push(false);
            i = i + 1;
        }
        proof {
            assert forall|ii: int| 0 <= ii <= index implies !depends_on(
                nodes0,
                ii,
                index as int,
            ) by {
                if depends_on(nodes0, ii, index as int) {
                    lemma_depends_lt(nodes0, ii, index as int);
                }
            }
        }
        let mut d: usize = index + 1;
        while d < n
            invariant
                index < d <= n,
                n == self.nodes@.len(),
                n == nodes0.len(),
                n == mark@.len(),
                graph_edges_wf(nodes0),
                graph_values_wf(self.nodes@),
                self.nodes@[index as int].value == Some(value),
                forall|ii: int|
                    0 <= ii < n ==> #[trigger] mark@[ii] == (ii > index && ii < d && depends_on(
                        nodes0,
                        ii,
                        index as int,
                    )),
                self.nodes@[index as int].dirty == false,
                forall|ii: int|
                    0 <= ii < n ==> {
                        &&& (#[trigger] self.nodes@[ii]).output_var@ == nodes0[ii].output_var@
                        &&& self.nodes@[ii].kind == nodes0[ii].kind
                        &&& self.nodes@[ii].inputs == nodes0[ii].inputs
                    },
                forall|ii: int|
                    0 <= ii < n && ii != index && !depends_on(nodes0, ii, index as int)
                        ==> #[trigger] self.nodes@[ii] == nodes0[ii],
                forall|ii: int|
                    index < ii < d && depends_on(nodes0, ii, index as int)
                        ==> (#[trigger] self.nodes@[ii]).dirty,
            decreases n - d,
        {
            let inputs_len = self.nodes[d].inputs.len();
            let mut hit = false;
            let mut j: usize = 0;
            while j < inputs_len
                invariant
                    j <= inputs_len,
                    d < n,
                    n == self.nodes@.len(),
                    n == nodes0.len(),
                    n == mark@.len(),
                    graph_edges_wf(nodes0),
                    self.nodes@[d as int].inputs == nodes0[d as int].inputs,
                    inputs_len == nodes0[d as int].inputs@.len(),
                    forall|ii: int|
                        0 <= ii < n ==> #[trigger] mark@[ii] == (ii > index && ii < d
                            && depends_on(nodes0, ii, index as int)),
                    hit == exists|jj: int|
                        #![trigger nodes0[d as int].inputs@[jj]]
                        0 <= jj < j && ({
                            let p = nodes0[d as int].inputs@[jj] as int;
                            p == index || depends_on(nodes0, p, index as int)
                        }),
                decreases inputs_len - j,
            {
                let p = self.nodes[d].inputs[j];
                if p == index || mark[p] {
                    proof {
                        if p as int != index && mark@[p as int] {
                            assert(depends_on(nodes0, p as int, index as int));
                        }
                    }
                    hit = true;
                }
                proof {
                    if p as int > index && p as int != index && depends_on(
                        nodes0,
                        p as int,
                        index as int,
                    ) {
                        assert(mark@[p as int]);
                    }
                    if (p as int) < index && depends_on(nodes0, p as int, index as int) {
                        lemma_depends_lt(nodes0, p as int, index as int);
                    }
                }
                j = j + 1;
            }
            proof {
                assert(hit == depends_on(nodes0, d as int, index as int));
            }
            if hit {
                self.nodes[d].dirty = true;
            }
            mark[d] = hit;
            d = d + 1;
        }
        Ok(())
    }
}

/// Copy a scoped variable, field by field, keeping its identity.
pub fn clone_scoped_variable(v: &ScopedVariable) -> (r: ScopedVariable)
    ensures
        r@ == v@,
{
    let name = v.variable.name.clone();
    let mut scope: Vec<u32> = Vec::new();
    let n = v.scope.len();
    let mut i: usize = 0;
    while i < n
        invariant
            i <= n,
            n == v.scope@.len(),
            scope@ == v.scope@.take(i as int),
        decreases n - i,
    {
        scope.push(v.scope[i]);
        proof {
            assert(v.scope@.take(i as int).push(v.scope@[i as int]) =~= v.scope@.take(i + 1));
        }
        i = i + 1;
    }
    proof {
        assert(v.scope@.take(n as int) =~= v.scope@);
    }
    ScopedVariable {
        variable: crate::variable::Variable {
            name: name,
            namespace: v.variable.namespace,
        },
        scope: scope,
    }
}

} // verus!
