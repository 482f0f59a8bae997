use vstd::prelude::*;

verus! {

/// The namespace half of a variable's identity: a signal is a scalar
/// reactive value, a data variable is a named dataset. A signal and a
/// dataset may share a name without colliding.
#[derive(Debug, Clone, Copy, PartialEq, Eq, Structural)]
pub enum VariableNamespace {
    Signal,
    Data,
}

/// A name plus its namespace discriminator.
#[derive(Debug, Clone)]
pub struct Variable {
    pub name: String,
    pub namespace: VariableNamespace,
}

/// Spec-level identity of a variable.
pub struct VariableModel {
    pub name: Seq<char>,
    pub namespace: VariableNamespace,
}

impl View for Variable {
    type V = VariableModel;

    open spec fn view(&self) -> VariableModel {
        VariableModel { name: self.name@, namespace: self.namespace }
    }
}

/// A variable paired with its scope path: the ordered indices locating
/// it within nested chart components. Two scoped variables are equal
/// iff both the variable and the full scope path match.
#[derive(Debug, Clone)]
pub struct ScopedVariable {
    pub variable: Variable,
    pub scope: Vec<u32>,
}

/// Spec-level identity of a scoped variable.
pub struct ScopedVariableModel {
    pub variable: VariableModel,
    pub scope: Seq<u32>,
}

impl View for ScopedVariable {
    type V = ScopedVariableModel;

    open spec fn view(&self) -> ScopedVariableModel {
        ScopedVariableModel { variable: self.variable@, scope: self.scope@ }
    }
}

impl Variable {
    /// Identity of two variables, decided at the model level.
    pub fn same_as(&self, other: &Variable) -> (r: bool)
        ensures
            r == (self@ == other@),
    {
        let ns_eq = match (self.namespace, other.namespace) {
            (VariableNamespace::Signal, VariableNamespace::Signal) => true,
            (VariableNamespace::Data, VariableNamespace::Data) => true,
            _ => false,
        };
        ns_eq && self.name == other.name
    }
}

/// Equality of two scope paths.
pub fn scope_eq(a: &Vec<u32>, b: &Vec<u32>) -> (r: bool)
    ensures
        r == (a@ == b@),
{
    if a.len() != b.len() {
        proof {
            assert(a@ != b@);
        }
        return false;
    }
    let n = a.len();
    let mut i: usize = 0;
    while i < n
        invariant
            i <= n,
            n == a@.len(),
            n == b@.len(),
            forall|j: int| 0 <= j < i ==> a@[j] == b@[j],
        decreases n - i,
    {
        if a[i] != b[i] {
            proof {
                assert(a@ != b@);
            }
            return false;
        }
        i = i + 1;
    }
    proof {
        assert(a@ =~= b@);
    }
    true
}

impl ScopedVariable {
    /// Identity of two scoped variables: variable and full scope path.
    pub fn same_as(&self, other: &ScopedVariable) -> (r: bool)
        ensures
            r == (self@ == other@),
    {
        self.variable.same_as(&other.variable) && scope_eq(&self.scope, &other.scope)
    }
}

/// One declared input of a task: the scoped variable it reads, and
/// whether updates of that variable propagate re-evaluation.
#[derive(Debug, Clone)]
pub struct InputVariable {
    pub var: ScopedVariable,
    pub propagate: bool,
}

} // verus!
