use vstd::prelude::*;
use vstd::string::StrSliceExecFns;

verus! {

/// Spec-level model of a scalar value: what contracts speak about.
pub enum ScalarModel {
    Null,
    Bool(bool),
    Num(i64),
    Str(Seq<char>),
    Date(i64),
}

/// A single typed scalar value: the signal half of the value model.
/// A date is carried as milliseconds since the Unix epoch, the
/// canonical representation used across the wire.
#[derive(Debug, Clone)]
pub enum ScalarVal {
    Null,
    Bool(bool),
    Num(i64),
    Str(String),
    Date(i64),
}

impl View for ScalarVal {
    type V = ScalarModel;

    open spec fn view(&self) -> ScalarModel {
        match self {
            ScalarVal::Null => ScalarModel::Null,
            ScalarVal::Bool(b) => ScalarModel::Bool(*b),
            ScalarVal::Num(n) => ScalarModel::Num(*n),
            ScalarVal::Str(s) => ScalarModel::Str(s@),
            ScalarVal::Date(d) => ScalarModel::Date(*d),
        }
    }
}

impl ScalarVal {
    /// Structural equality of two scalars, decided at the model level.
    pub fn same_as(&self, other: &ScalarVal) -> (r: bool)
        ensures
            r == (self@ == other@),
    {
        match (self, other) {
            (ScalarVal::Null, ScalarVal::Null) => true,
            (ScalarVal::Bool(a), ScalarVal::Bool(b)) => a == b,
            (ScalarVal::Num(a), ScalarVal::Num(b)) => a == b,
            (ScalarVal::Str(a), ScalarVal::Str(b)) => *a == *b,
            (ScalarVal::Date(a), ScalarVal::Date(b)) => a == b,
            _ => false,
        }
    }

}

/// The approximate number of bytes a scalar occupies beyond the
/// enclosing value header: eight plus the string's length for a string,
/// a fixed payload cost for the rest.
pub open spec fn spec_scalar_inner_size(m: ScalarModel) -> int {
    match m {
        ScalarModel::Str(s) => 8 + s.len() as int,
        _ => 8,
    }
}

/// Approximate in-memory footprint of the scalar's payload, saturating
/// at `usize::MAX` rather than overflowing.
pub fn inner_size_of_scalar(v: &ScalarVal) -> (r: usize)
    ensures
        r == sat_to_usize(spec_scalar_inner_size(v@)),
{
    match v {
        ScalarVal::Str(s) => {
            let l = s.as_str().unicode_len();
            if l > usize::MAX - 8 {
                usize::MAX
            } else {
                8 + l
            }
        }
        _ => 8,
    }
}

/// Copy a scalar, field by field, keeping its model.
pub fn clone_scalar(v: &ScalarVal) -> (r: ScalarVal)
    ensures
        r@ == v@,
{
    match v {
        ScalarVal::Null => ScalarVal::Null,
        ScalarVal::Bool(b) => ScalarVal::Bool(*b),
        ScalarVal::Num(n) => ScalarVal::Num(*n),
        ScalarVal::Str(s) => ScalarVal::Str(s.clone()),
        ScalarVal::Date(d) => ScalarVal::Date(*d),
    }
}

/// Clamp a non-negative mathematical size to the machine's `usize`.
pub open spec fn sat_to_usize(n: int) -> int {
    if n > usize::MAX as int {
        usize::MAX as int
    } else {
        n
    }
}

/// Saturating addition on sizes.
pub fn sat_add(a: usize, b: usize) -> (r: usize)
    ensures
        r == sat_to_usize(a + b),
{
    if a > usize::MAX - b {
        usize::MAX
    } else {
        a + b
    }
}

} // verus!
