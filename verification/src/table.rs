use vstd::prelude::*;
use vstd::string::StrSliceExecFns;
use crate::scalar::{sat_to_usize, sat_add};

verus! {

/// Spec-level model of one column's cells.
pub enum ColDataModel {
    Bools(Seq<bool>),
    Nums(Seq<i64>),
    Strs(Seq<Seq<char>>),
    Dates(Seq<i64>),
}

impl ColDataModel {
    pub open spec fn len(&self) -> nat {
        match self {
            ColDataModel::Bools(s) => s.len(),
            ColDataModel::Nums(s) => s.len(),
            ColDataModel::Strs(s) => s.len(),
            ColDataModel::Dates(s) => s.len(),
        }
    }
}

/// Spec-level model of a named, typed column.
pub struct ColumnModel {
    pub name: Seq<char>,
    pub data: ColDataModel,
}

/// The cells of one column, all of one type. A date cell is the
/// canonical millisecond timestamp.
#[derive(Debug, Clone)]
pub enum ColumnData {
    Bools(Vec<bool>),
    Nums(Vec<i64>),
    Strs(Vec<String>),
    Dates(Vec<i64>),
}

impl View for ColumnData {
    type V = ColDataModel;

    open spec fn view(&self) -> ColDataModel {
        match self {
            ColumnData::Bools(v) => ColDataModel::Bools(v@),
            ColumnData::Nums(v) => ColDataModel::Nums(v@),
            ColumnData::Strs(v) => ColDataModel::Strs(v@.map_values(|s: String| s@)),
            ColumnData::Dates(v) => ColDataModel::Dates(v@),
        }
    }
}

impl ColumnData {
    /// Number of cells in the column.
    pub fn len(&self) -> (r: usize)
        ensures
            r == self@.len(),
    {
        match self {
            ColumnData::Bools(v) => v.len(),
            ColumnData::Nums(v) => v.len(),
            ColumnData::Strs(v) => v.len(),
            ColumnData::Dates(v) => v.len(),
        }
    }
}

/// An ordered, named, typed column of an immutable columnar dataset.
#[derive(Debug, Clone)]
pub struct Column {
    pub name: String,
    pub data: ColumnData,
}

impl View for Column {
    type V = ColumnModel;

    open spec fn view(&self) -> ColumnModel {
        ColumnModel { name: self.name@, data: self.data@ }
    }
}

/// An immutable, columnar, schema-typed dataset: ordered named columns,
/// all of the same length; row order is significant.
#[derive(Debug, Clone)]
pub struct Table {
    pub columns: Vec<Column>,
}

impl View for Table {
    type V = Seq<ColumnModel>;

    open spec fn view(&self) -> Seq<ColumnModel> {
        self.columns@.map_values(|c: Column| c@)
    }
}

/// Well-formedness of a table model: every column has the same number of
/// cells and no two columns share a name.
pub open spec fn table_model_wf(t: Seq<ColumnModel>) -> bool {
    &&& forall|i: int| 0 <= i < t.len() ==> #[trigger] t[i].data.len() == spec_num_rows(t)
    &&& forall|i: int, j: int| 0 <= i < j < t.len() ==> t[i].name != t[j].name
}

/// The row count of a table model: the first column's length, or zero
/// for a table with no columns.
pub open spec fn spec_num_rows(t: Seq<ColumnModel>) -> nat {
    if t.len() == 0 {
        0
    } else {
        t[0].data.len()
    }
}

impl Table {
    pub open spec fn wf(&self) -> bool {
        table_model_wf(self@)
    }

    /// Number of rows shared by every column of a well-formed table.
    pub fn num_rows(&self) -> (r: usize)
        ensures
            r == spec_num_rows(self@),
    {
        if self.columns.len() == 0 {
            0
        } else {
            self.columns[0].data.len()
        }
    }

    /// Number of columns.
    pub fn num_columns(&self) -> (r: usize)
        ensures
            r == self@.len(),
    {
        self.columns.len()
    }

    /// Decide well-formedness: every column the same length, no two
    /// columns sharing a name.
    pub fn is_wf(&self) -> (r: bool)
        ensures
            r == self.wf(),
    {
        let n = self.columns.len();
        let rows = self.num_rows();
        let mut i: usize = 0;
        while i < n
            invariant
                i <= n,
                n == self@.len(),
                rows == spec_num_rows(self@),
                forall|k: int| 0 <= k < i ==> (#[trigger] self@[k]).data.len() == rows,
            decreases n - i,
        {
            if self.columns[i].data.len() != rows {
                proof {
                    assert(self@[i as int].data.len() != spec_num_rows(self@));
                    assert(!table_model_wf(self@));
                }
                return false;
            }
            i = i + 1;
        }
        let mut a: usize = 0;
        while a < n
            invariant
                a <= n,
                n == self@.len(),
                forall|k1: int, k2: int|
                    #![trigger self@[k1].name, self@[k2].name]
                    0 <= k1 < k2 < n && k1 < a ==> self@[k1].name != self@[k2].name,
            decreases n - a,
        {
            let mut b: usize = a + 1;
            while b < n
                invariant
                    a < b <= n || (b == a + 1 && b > n),
                    a < n,
                    n == self@.len(),
                    forall|k2: int|
                        a < k2 < b ==> self@[a as int].name != (#[trigger] self@[k2]).name,
                decreases n - b,
            {
                if self.columns[a].name == self.columns[b].name {
                    proof {
                        assert(self@[a as int].name == self@[b as int].name);
                        assert(!table_model_wf(self@));
                    }
                    return false;
                }
                b = b + 1;
            }
            a = a + 1;
        }
        true
    }

    /// The position of the column with the given name, if any.
    pub fn find_column(&self, name: &str) -> (r: Option<usize>)
        ensures
            match r {
                Some(i) => i < self@.len() && self@[i as int].name == name@,
                None => forall|i: int| 0 <= i < self@.len() ==> self@[i].name != name@,
            },
    {
        let n = self.columns.len();
        let mut i: usize = 0;
        while i < n
            invariant
                i <= n,
                n == self@.len(),
                forall|j: int| 0 <= j < i ==> self@[j].name != name@,
            decreases n - i,
        {
            if string_eq_str(&self.columns[i].name, name) {
                return Some(i);
            }
            i = i + 1;
        }
        None
    }
}

/// Compare a `String` against a `&str` at the view level.
pub fn string_eq_str(a: &String, b: &str) -> (r: bool)
    ensures
        r == (a@ == b@),
{
    let owned = b.to_owned();
    *a == owned
}

/// The approximate payload size of one column model, in bytes.
pub open spec fn spec_col_inner_size(c: ColumnModel) -> int {
    c.name.len() + spec_data_inner_size(c.data)
}

/// The approximate payload size of a column's cells: one byte per
/// boolean, eight bytes per number or date, eight bytes plus the length
/// for each string.
pub open spec fn spec_data_inner_size(d: ColDataModel) -> int {
    match d {
        ColDataModel::Bools(s) => s.len() as int,
        ColDataModel::Nums(s) => 8 * s.len() as int,
        ColDataModel::Dates(s) => 8 * s.len() as int,
        ColDataModel::Strs(s) => spec_strs_size(s),
    }
}

pub open spec fn spec_strs_size(s: Seq<Seq<char>>) -> int
    decreases s.len(),
{
    if s.len() == 0 {
        0
    } else {
        spec_strs_size(s.drop_last()) + 8 + s.last().len() as int
    }
}

/// The approximate payload size of a table model, in bytes.
pub open spec fn spec_table_inner_size(t: Seq<ColumnModel>) -> int
    decreases t.len(),
{
    if t.len() == 0 {
        0
    } else {
        spec_table_inner_size(t.drop_last()) + spec_col_inner_size(t.last())
    }
}

/// Approximate in-memory footprint of the table's payload, saturating at
/// `usize::MAX` rather than overflowing.
pub fn inner_size_of_table(t: &Table) -> (r: usize)
    ensures
        r == sat_to_usize(spec_table_inner_size(t@)),
{
    let n = t.columns.len();
    let mut acc: usize = 0;
    let mut i: usize = 0;
    while i < n
        invariant
            i <= n,
            n == t@.len(),
            acc == sat_to_usize(spec_table_inner_size(t@.take(i as int))),
        decreases n - i,
    {
        let c = &t.columns[i];
        let csize = col_inner_size(c);
        acc = sat_add(acc, csize);
        proof {
            assert(t@.take(i + 1 as int).drop_last() =~= t@.take(i as int));
            assert(t@.take(i + 1 as int).last() == t@[i as int]);
        }
        i = i + 1;
    }
    proof {
        assert(t@.take(n as int) =~= t@);
    }
    acc
}

/// Approximate payload size of one column, saturating at `usize::MAX`.
pub fn col_inner_size(c: &Column) -> (r: usize)
    ensures
        r == sat_to_usize(spec_col_inner_size(c@)),
{
    let name_len = c.name.as_str().unicode_len();
    let data_size = data_inner_size(&c.data);
    sat_add(name_len, data_size)
}

/// Approximate payload size of a column's cells, saturating at `usize::MAX`.
pub fn data_inner_size(d: &ColumnData) -> (r: usize)
    ensures
        r == sat_to_usize(spec_data_inner_size(d@)),
{
    match d {
        ColumnData::Bools(v) => v.len(),
        ColumnData::Nums(v) => {
            if v.len() > usize::MAX / 8 {
                usize::MAX
            } else {
                8 * v.len()
            }
        }
        ColumnData::Dates(v) => {
            if v.len() > usize::MAX / 8 {
                usize::MAX
            } else {
                8 * v.len()
            }
        }
        ColumnData::Strs(v) => {
            let n = v.len();
            let mut acc: usize = 0;
            let mut i: usize = 0;
            while i < n
                invariant
                    i <= n,
                    n == v@.len(),
                    acc == sat_to_usize(spec_strs_size(v@.map_values(|s: String| s@).take(i as int))),
                decreases n - i,
            {
                let l = v[i].as_str().unicode_len();
                let cell = sat_add(8, l);
                acc = sat_add(acc, cell);
                proof {
                    let m = v@.map_values(|s: String| s@);
                    assert(m.take(i + 1 as int).drop_last() =~= m.take(i as int));
                    assert(m.take(i + 1 as int).last() == m[i as int]);
                }
                i = i + 1;
            }
            proof {
                let m = v@.map_values(|s: String| s@);
                assert(m.take(n as int) =~= m);
            }
            acc
        }
    }
}

} // verus!

verus! {

/// Copy a vector of plain cells.
pub fn clone_vec_i64(v: &Vec<i64>) -> (r: Vec<i64>)
    ensures
        r@ == v@,
{
    let n = v.len();
    let mut r: Vec<i64> = Vec::new();
    let mut i: usize = 0;
    while i < n
        invariant
            i <= n,
            n == v@.len(),
            r@ == v@.take(i as int),
        decreases n - i,
    {
        r.push(v[i]);
        proof {
            assert(v@.take(i as int).push(v@[i as int]) =~= v@.take(i + 1));
        }
        i = i + 1;
    }
    proof {
        assert(v@.take(n as int) =~= v@);
    }
    r
}

pub fn clone_vec_bool(v: &Vec<bool>) -> (r: Vec<bool>)
    ensures
        r@ == v@,
{
    let n = v.len();
    let mut r: Vec<bool> = Vec::new();
    let mut i: usize = 0;
    while i < n
        invariant
            i <= n,
            n == v@.len(),
            r@ == v@.take(i as int),
        decreases n - i,
    {
        r.push(v[i]);
        proof {
            assert(v@.take(i as int).push(v@[i as int]) =~= v@.take(i + 1));
        }
        i = i + 1;
    }
    proof {
        assert(v@.take(n as int) =~= v@);
    }
    r
}

pub fn clone_vec_string(v: &Vec<String>) -> (r: Vec<String>)
    ensures
        r@.map_values(|s: String| s@) == v@.map_values(|s: String| s@),
{
    let n = v.len();
    let mut r: Vec<String> = Vec::new();
    let mut i: usize = 0;
    while i < n
        invariant
            i <= n,
            n == v@.len(),
            r@.len() == i,
            forall|j: int| 0 <= j < i ==> (#[trigger] r@[j])@ == v@[j]@,
        decreases n - i,
    {
        r.push(v[i].clone());
        i = i + 1;
    }
    proof {
        assert(r@.map_values(|s: String| s@) =~= v@.map_values(|s: String| s@));
    }
    r
}

/// Copy a column, keeping its model.
pub fn clone_column(c: &Column) -> (r: Column)
    ensures
        r@ == c@,
{
    let data = match &c.data {
        ColumnData::Bools(v) => ColumnData::Bools(clone_vec_bool(v)),
        ColumnData::Nums(v) => ColumnData::Nums(clone_vec_i64(v)),
        ColumnData::Strs(v) => ColumnData::Strs(clone_vec_string(v)),
        ColumnData::Dates(v) => ColumnData::Dates(clone_vec_i64(v)),
    };
    Column { name: c.name.clone(), data: data }
}

/// Copy a table, keeping its model.
pub fn clone_table(t: &Table) -> (r: Table)
    ensures
        r@ == t@,
{
    let n = t.columns.len();
    let mut cols: Vec<Column> = Vec::new();
    let mut i: usize = 0;
    while i < n
        invariant
            i <= n,
            n == t.columns@.len(),
            cols@.len() == i,
            forall|j: int| 0 <= j < i ==> (#[trigger] cols@[j])@ == t.columns@[j]@,
        decreases n - i,
    {
        cols.push(clone_column(&t.columns[i]));
        i = i + 1;
    }
    let r = Table { columns: cols };
    proof {
        assert(r@ =~= t@);
    }
    r
}

} // verus!
