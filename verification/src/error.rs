use vstd::prelude::*;

verus! {

/// The error type shared by graph construction, task evaluation and
/// dataset ingestion. `Internal` marks a broken invariant (wrong variant,
/// unresolved reference, bad index); `External` marks a failure of an
/// outside resource (unreachable URL, malformed source data).
#[derive(Debug, Clone)]
pub enum VegaFusionError {
    Internal(String),
    External(String),
}

impl VegaFusionError {
    pub open spec fn spec_message(&self) -> Seq<char> {
        match self {
            VegaFusionError::Internal(m) => m@,
            VegaFusionError::External(m) => m@,
        }
    }

    /// The human-readable description of the error.
    pub fn message(&self) -> (r: &String)
        ensures
            r@ == self.spec_message(),
    {
        match self {
            VegaFusionError::Internal(m) => m,
            VegaFusionError::External(m) => m,
        }
    }

    pub fn internal(msg: &str) -> (r: VegaFusionError)
        ensures
            r is Internal,
            r.spec_message() == msg@,
    {
        VegaFusionError::Internal(msg.to_owned())
    }

    pub fn external(msg: &str) -> (r: VegaFusionError)
        ensures
            r is External,
            r.spec_message() == msg@,
    {
        VegaFusionError::External(msg.to_owned())
    }
}

} // verus!
