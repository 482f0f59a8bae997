use vstd::prelude::*;
use crate::error::VegaFusionError;
use crate::scalar::{ScalarVal, ScalarModel, inner_size_of_scalar, sat_to_usize, sat_add};
use crate::table::{Table, ColumnModel, table_model_wf, inner_size_of_table, spec_table_inner_size};

verus! {

/// Fixed header cost charged to every task value by the cache's size
/// accounting, on top of the scalar's or table's own payload.
pub const TASK_VALUE_HEADER_BYTES: usize = 48;

/// Spec-level model of a task value.
pub enum TaskValueModel {
    Scalar(ScalarModel),
    Table(Seq<ColumnModel>),
}

/// The tagged union of computable results flowing through the task
/// graph and across the wire: a scalar signal value or a tabular
/// dataset.
#[derive(Debug, Clone)]
pub enum TaskValue {
    Scalar(ScalarVal),
    Table(Table),
}

impl View for TaskValue {
    type V = TaskValueModel;

    open spec fn view(&self) -> TaskValueModel {
        match self {
            TaskValue::Scalar(v) => TaskValueModel::Scalar(v@),
            TaskValue::Table(t) => TaskValueModel::Table(t@),
        }
    }
}

/// Well-formedness of a task value: a table payload must be a
/// well-formed table.
pub open spec fn task_value_model_wf(m: TaskValueModel) -> bool {
    match m {
        TaskValueModel::Scalar(_) => true,
        TaskValueModel::Table(t) => table_model_wf(t),
    }
}

/// The approximate byte footprint of a task value: header plus payload.
pub open spec fn spec_size_of_task_value(m: TaskValueModel) -> int {
    TASK_VALUE_HEADER_BYTES + match m {
        TaskValueModel::Scalar(s) => crate::scalar::spec_scalar_inner_size(s),
        TaskValueModel::Table(t) => spec_table_inner_size(t),
    }
}

impl TaskValue {
    pub open spec fn wf(&self) -> bool {
        task_value_model_wf(self@)
    }

    /// Decide well-formedness: a scalar always is; a table must be.
    pub fn is_wf(&self) -> (r: bool)
        ensures
            r == self.wf(),
    {
        match self {
            TaskValue::Scalar(_) => true,
            TaskValue::Table(t) => t.is_wf(),
        }
    }

    /// The scalar payload; a type-mismatch error on a table value.
    pub fn as_scalar(&self) -> (r: Result<&ScalarVal, VegaFusionError>)
        ensures
            self@ is Scalar <==> r is Ok,
            r is Ok ==> self@ == TaskValueModel::Scalar(r->Ok_0@),
            r is Err ==> r->Err_0 is Internal,
    {
        match self {
            TaskValue::Scalar(value) => Ok(value),
            _ => Err(VegaFusionError::internal("Value is not a scalar")),
        }
    }

    /// The table payload; a type-mismatch error on a scalar value.
    pub fn as_table(&self) -> (r: Result<&Table, VegaFusionError>)
        ensures
            self@ is Table <==> r is Ok,
            r is Ok ==> self@ == TaskValueModel::Table(r->Ok_0@),
            r is Err ==> r->Err_0 is Internal,
    {
        match self {
            TaskValue::Table(value) => Ok(value),
            _ => Err(VegaFusionError::internal("Value is not a table")),
        }
    }

    /// Approximate in-memory footprint used by the runtime's cache to
    /// bound memory, saturating at `usize::MAX`.
    pub fn size_of(&self) -> (r: usize)
        ensures
            r == sat_to_usize(spec_size_of_task_value(self@)),
    {
        let inner_size = match self {
            TaskValue::Scalar(scalar) => inner_size_of_scalar(scalar),
            TaskValue::Table(table) => inner_size_of_table(table),
        };
        sat_add(TASK_VALUE_HEADER_BYTES, inner_size)
    }
}

} // verus!
