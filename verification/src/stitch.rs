use vstd::prelude::*;
use crate::graph::{TaskDecl, clone_scoped_variable};
use crate::variable::{ScopedVariable, ScopedVariableModel};

verus! {

/// The communication plan between the server half and the client half
/// of a split chart: which scoped variables flow in which direction.
#[derive(Debug)]
pub struct CommPlan {
    /// Produced server-side, read client-side: sent at session start
    /// and whenever the server graph recomputes them.
    pub server_to_client: Vec<ScopedVariable>,
    /// Produced client-side, read server-side: the client watches them
    /// and forwards updates.
    pub client_to_server: Vec<ScopedVariable>,
}

/// Some task of the list produces this scoped variable.
pub open spec fn produced_by(tasks: Seq<TaskDecl>, v: ScopedVariableModel) -> bool {
    exists|k: int| 0 <= k < tasks.len() && (#[trigger] tasks[k].output_var@) == v
}

/// Some task of the list reads this scoped variable.
pub open spec fn read_by(tasks: Seq<TaskDecl>, v: ScopedVariableModel) -> bool {
    exists|k: int, j: int|
        #![trigger tasks[k].input_vars@[j]]
        0 <= k < tasks.len() && 0 <= j < tasks[k].input_vars@.len() && tasks[k].input_vars@[j]@
            == v
}

/// The list holds this scoped variable.
pub open spec fn var_in(list: Seq<ScopedVariable>, v: ScopedVariableModel) -> bool {
    exists|i: int| 0 <= i < list.len() && (#[trigger] list[i]@) == v
}

/// No scoped variable appears twice in the list.
pub open spec fn no_dup_vars(list: Seq<ScopedVariable>) -> bool {
    forall|i: int, j: int|
        0 <= i < j < list.len() ==> (#[trigger] list[i]@) != (#[trigger] list[j]@)
}

/// Does some task of `tasks` read `v`?
fn reads_var(tasks: &Vec<TaskDecl>, v: &ScopedVariable) -> (r: bool)
    ensures
        r == read_by(tasks@, v@),
{
    let n = tasks.len();
    let mut k: usize = 0;
    while k < n
        invariant
            k <= n,
            n == tasks@.len(),
            forall|k2: int, j2: int|
                #![trigger tasks@[k2].input_vars@[j2]]
                0 <= k2 < k && 0 <= j2 < tasks@[k2].input_vars@.len() ==> tasks@[
                    k2
                ].input_vars@[j2]@ != v@,
        decreases n - k,
    {
        let m = tasks[k].input_vars.len();
        let mut j: usize = 0;
        while j < m
            invariant
                j <= m,
                k < n,
                n == tasks@.len(),
                m == tasks@[k as int].input_vars@.len(),
                forall|j2: int|
                    0 <= j2 < j ==> (#[trigger] tasks@[k as int].input_vars@[j2]@) != v@,
            decreases m - j,
        {
            if tasks[k].input_vars[j].same_as(v) {
                return true;
            }
            j = j + 1;
        }
        k = k + 1;
    }
    false
}

/// Is `v` already in the list?
fn contains_var(list: &Vec<ScopedVariable>, v: &ScopedVariable) -> (r: bool)
    ensures
        r == var_in(list@, v@),
{
    let n = list.len();
    let mut i: usize = 0;
    while i < n
        invariant
            i <= n,
            n == list@.len(),
            forall|i2: int| 0 <= i2 < i ==> (#[trigger] list@[i2]@) != v@,
        decreases n - i,
    {
        if list[i].same_as(v) {
            return true;
        }
        i = i + 1;
    }
    false
}

/// The deduplicated list of variables produced by a task of `from` and
/// read by a task of `to`: one direction of the communication plan.
fn directed_vars(from: &Vec<TaskDecl>, to: &Vec<TaskDecl>) -> (r: Vec<ScopedVariable>)
    ensures
        no_dup_vars(r@),
        forall|v: ScopedVariableModel|
            #[trigger] var_in(r@, v) <==> produced_by(from@, v) && read_by(to@, v),
{
    let n = from.len();
    let mut acc: Vec<ScopedVariable> = Vec::new();
    let mut i: usize = 0;
    while i < n
        invariant
            i <= n,
            n == from@.len(),
            no_dup_vars(acc@),
            forall|ii: int|
                0 <= ii < acc@.len() ==> produced_by(from@, (#[trigger] acc@[ii])@) && read_by(
                    to@,
                    acc@[ii]@,
                ),
            forall|k: int|
                0 <= k < i && read_by(to@, (#[trigger] from@[k].output_var@)) ==> var_in(
                    acc@,
                    from@[k].output_var@,
                ),
        decreases n - i,
    {
        let v = &from[i].output_var;
        if reads_var(to, v) && !contains_var(&acc, v) {
            let ghost acc0 = acc@;
            acc.push(clone_scoped_variable(v));
            proof {
                assert(produced_by(from@, v@)) by {
                    assert(from@[i as int].output_var@ == v@);
                }
                assert forall|ii: int| 0 <= ii < acc@.len() implies produced_by(
                    from@,
                    (#[trigger] acc@[ii])@,
                ) && read_by(to@, acc@[ii]@) by {
                    if ii < acc0.len() {
                        assert(acc@[ii] == acc0[ii]);
                    }
                }
                assert forall|k: int|
                    0 <= k < i + 1 && read_by(
                        to@,
                        (#[trigger] from@[k].output_var@),
                    ) implies var_in(acc@, from@[k].output_var@) by {
                    if k < i {
                        assert(var_in(acc0, from@[k].output_var@));
                        let w = choose|w: int| 0 <= w < acc0.len() && (#[trigger] acc0[w]@)
                            == from@[k].output_var@;
                        assert(acc@[w]@ == from@[k].output_var@);
                    } else {
                        assert(acc@[acc0.len() as int]@ == from@[k].output_var@);
                    }
                }
            }
        } else {
            proof {
                if read_by(to@, from@[i as int].output_var@) {
                    assert(var_in(acc@, from@[i as int].output_var@));
                }
            }
        }
        i = i + 1;
    }
    proof {
        assert forall|v: ScopedVariableModel| #[trigger]
            var_in(acc@, v) <==> produced_by(from@, v) && read_by(to@, v) by {
            if var_in(acc@, v) {
                let w = choose|w: int| 0 <= w < acc@.len() && (#[trigger] acc@[w]@) == v;
            }
            if produced_by(from@, v) && read_by(to@, v) {
                let k = choose|k: int| 0 <= k < from@.len() && (#[trigger] from@[k].output_var@)
                    == v;
            }
        }
    }
    acc
}

/// Compute the communication plan for the two halves of a split chart.
///
/// `server_to_client` holds exactly the variables produced by a
/// server-side task and read by a client-side task, each once;
/// `client_to_server` the reverse. A variable with no consumer on the
/// other side is never transported.
pub fn stitch_specs(server: &Vec<TaskDecl>, client: &Vec<TaskDecl>) -> (r: CommPlan)
    ensures
        no_dup_vars(r.server_to_client@),
        no_dup_vars(r.client_to_server@),
        forall|v: ScopedVariableModel|
            #[trigger] var_in(r.server_to_client@, v) <==> produced_by(server@, v) && read_by(
                client@,
                v,
            ),
        forall|v: ScopedVariableModel|
            #[trigger] var_in(r.client_to_server@, v) <==> produced_by(client@, v) && read_by(
                server@,
                v,
            ),
{
    CommPlan {
        server_to_client: directed_vars(server, client),
        client_to_server: directed_vars(client, server),
    }
}

/// When no scoped variable is produced on both sides of the split, the
/// two halves of the communication plan are disjoint.
pub proof fn lemma_plan_disjoint(
    server: Seq<TaskDecl>,
    client: Seq<TaskDecl>,
    s2c: Seq<ScopedVariable>,
    c2s: Seq<ScopedVariable>,
)
    requires
        forall|v: ScopedVariableModel|
            #[trigger] var_in(s2c, v) <==> produced_by(server, v) && read_by(client, v),
        forall|v: ScopedVariableModel|
            #[trigger] var_in(c2s, v) <==> produced_by(client, v) && read_by(server, v),
        forall|v: ScopedVariableModel|
            !(#[trigger] produced_by(server, v) && produced_by(client, v)),
    ensures
        forall|v: ScopedVariableModel| !(#[trigger] var_in(s2c, v) && var_in(c2s, v)),
{
    assert forall|v: ScopedVariableModel| !(#[trigger] var_in(s2c, v) && var_in(c2s, v)) by {
        if var_in(s2c, v) && var_in(c2s, v) {
            assert(produced_by(server, v) && produced_by(client, v));
        }
    }
}

} // verus!
