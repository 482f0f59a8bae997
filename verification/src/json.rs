use vstd::prelude::*;
use crate::scalar::{ScalarVal, ScalarModel};
use crate::table::{ColumnModel, ColDataModel, ColumnData, spec_num_rows};
use crate::task_value::{TaskValue, TaskValueModel};

verus! {

/// One JSON scalar on its way to the client.
#[derive(Debug)]
pub enum JsonLeaf {
    Null,
    Bool(bool),
    Num(i64),
    Str(String),
}

/// Spec-level model of a JSON scalar.
pub enum JsonLeafModel {
    Null,
    Bool(bool),
    Num(i64),
    Str(Seq<char>),
}

impl View for JsonLeaf {
    type V = JsonLeafModel;

    open spec fn view(&self) -> JsonLeafModel {
        match self {
            JsonLeaf::Null => JsonLeafModel::Null,
            JsonLeaf::Bool(b) => JsonLeafModel::Bool(*b),
            JsonLeaf::Num(n) => JsonLeafModel::Num(*n),
            JsonLeaf::Str(s) => JsonLeafModel::Str(s@),
        }
    }
}

/// The JSON-like transport form of a task value: a scalar is one
/// leaf; a table is an array of row objects, each object naming every
/// column's cell in column order. The boundary that serializes this
/// to text lives outside the library.
#[derive(Debug)]
pub enum JsonVal {
    Leaf(JsonLeaf),
    Rows(Vec<Vec<(String, JsonLeaf)>>),
}

/// Spec-level model of the transport form.
pub enum JsonValModel {
    Leaf(JsonLeafModel),
    Rows(Seq<Seq<(Seq<char>, JsonLeafModel)>>),
}

pub open spec fn json_row_model(r: Seq<(String, JsonLeaf)>) -> Seq<(Seq<char>, JsonLeafModel)> {
    r.map_values(|e: (String, JsonLeaf)| (e.0@, e.1@))
}

impl View for JsonVal {
    type V = JsonValModel;

    open spec fn view(&self) -> JsonValModel {
        match self {
            JsonVal::Leaf(l) => JsonValModel::Leaf(l@),
            JsonVal::Rows(rows) => JsonValModel::Rows(
                rows@.map_values(|r: Vec<(String, JsonLeaf)>| json_row_model(r@)),
            ),
        }
    }
}

/// A scalar's JSON form: a date travels as its millisecond number.
pub open spec fn spec_scalar_json(m: ScalarModel) -> JsonLeafModel {
    match m {
        ScalarModel::Null => JsonLeafModel::Null,
        ScalarModel::Bool(b) => JsonLeafModel::Bool(b),
        ScalarModel::Num(n) => JsonLeafModel::Num(n),
        ScalarModel::Str(s) => JsonLeafModel::Str(s),
        ScalarModel::Date(d) => JsonLeafModel::Num(d),
    }
}

/// One table cell's JSON form.
pub open spec fn spec_cell_json(d: ColDataModel, i: int) -> JsonLeafModel {
    match d {
        ColDataModel::Bools(s) => JsonLeafModel::Bool(s[i]),
        ColDataModel::Nums(s) => JsonLeafModel::Num(s[i]),
        ColDataModel::Strs(s) => JsonLeafModel::Str(s[i]),
        ColDataModel::Dates(s) => JsonLeafModel::Num(s[i]),
    }
}

/// A table's JSON form: one row object per row.
pub open spec fn spec_table_json(t: Seq<ColumnModel>) -> JsonValModel {
    JsonValModel::Rows(
        Seq::new(
            spec_num_rows(t),
            |i: int| Seq::new(t.len(), |j: int| (t[j].name, spec_cell_json(t[j].data, i))),
        ),
    )
}

/// A task value's JSON form.
pub open spec fn spec_to_json(m: TaskValueModel) -> JsonValModel {
    match m {
        TaskValueModel::Scalar(s) => JsonValModel::Leaf(spec_scalar_json(s)),
        TaskValueModel::Table(t) => spec_table_json(t),
    }
}

/// One cell of a column, as JSON.
fn cell_json(d: &ColumnData, i: usize) -> (r: JsonLeaf)
    requires
        i < d@.len(),
    ensures
        r@ == spec_cell_json(d@, i as int),
{
    match d {
        ColumnData::Bools(v) => JsonLeaf::Bool(v[i]),
        ColumnData::Nums(v) => JsonLeaf::Num(v[i]),
        ColumnData::Strs(v) => JsonLeaf::Str(v[i].clone()),
        ColumnData::Dates(v) => JsonLeaf::Num(v[i]),
    }
}

impl TaskValue {
    /// The value as it travels to the client: a scalar as its JSON
    /// leaf, a table as an array of row objects in column order.
    pub fn to_json(&self) -> (r: JsonVal)
        requires
            self.wf(),
        ensures
            r@ == spec_to_json(self@),
    {
        match self {
            TaskValue::Scalar(v) => JsonVal::Leaf(
                match v {
                    ScalarVal::Null => JsonLeaf::Null,
                    ScalarVal::Bool(b) => JsonLeaf::Bool(*b),
                    ScalarVal::Num(n) => JsonLeaf::Num(*n),
                    ScalarVal::Str(s) => JsonLeaf::Str(s.clone()),
                    ScalarVal::Date(d) => JsonLeaf::Num(*d),
                },
            ),
            TaskValue::Table(t) => {
                let ghost tm = t@;
                let nrows = t.num_rows();
                let ncols = t.columns.len();
                let mut rows: Vec<Vec<(String, JsonLeaf)>> = Vec::new();
                let mut i: usize = 0;
                while i < nrows
                    invariant
                        i <= nrows,
                        tm == t@,
                        crate::table::table_model_wf(tm),
                        nrows == spec_num_rows(tm),
                        ncols == tm.len(),
                        rows@.len() == i,
                        forall|i2: int|
                            0 <= i2 < i ==> json_row_model((#[trigger] rows@[i2])@) == Seq::new(
                                tm.len(),
                                |j: int| (tm[j].name, spec_cell_json(tm[j].data, i2)),
                            ),
                    decreases nrows - i,
                {
                    let mut obj: Vec<(String, JsonLeaf)> = Vec::new();
                    let mut j: usize = 0;
                    while j < ncols
                        invariant
                            j <= ncols,
                            i < nrows,
                            tm == t@,
                            crate::table::table_model_wf(tm),
                            nrows == spec_num_rows(tm),
                            ncols == tm.len(),
                            obj@.len() == j,
                            forall|j2: int|
                                0 <= j2 < j ==> (#[trigger] obj@[j2]).0@ == tm[j2].name && obj@[
                                    j2
                                ].1@ == spec_cell_json(tm[j2].data, i as int),
                        decreases ncols - j,
                    {
                        let col = &t.columns[j];
                        proof {
                            assert(tm[j as int].data.len() == spec_num_rows(tm));
                            assert(tm[j as int].data == col.data@);
                        }
                        let cell = cell_json(&col.data, i);
                        obj.push((col.name.clone(), cell));
                        j = j + 1;
                    }
                    proof {
                        assert(json_row_model(obj@) =~= Seq::new(
                            tm.len(),
                            |j2: int| (tm[j2].name, spec_cell_json(tm[j2].data, i as int)),
                        ));
                    }
                    rows.push(obj);
                    i = i + 1;
                }
                let out = JsonVal::Rows(rows);
                proof {
                    assert(out@->Rows_0 =~= spec_table_json(tm)->Rows_0);
                }
                out
            }
        }
    }
}

} // verus!
