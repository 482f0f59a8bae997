use vstd::prelude::*;
use crate::error::VegaFusionError;
use crate::scalar::{ScalarVal, ScalarModel};
use crate::table::{Table, Column, ColumnData, ColumnModel, ColDataModel, table_model_wf};

verus! {

// ---------------------------------------------------------------------
// JSON ingestion: the compute half of loading a JSON dataset. The
// caller fetches the text (file or network); here it is parsed through
// serde_json and assembled, row by row, into a columnar table.
// ---------------------------------------------------------------------

#[verifier::external_type_specification]
#[verifier::external_body]
pub struct ExJsonValue(serde_json::Value);

#[verifier::external_type_specification]
#[verifier::external_body]
pub struct ExJsonError(serde_json::Error);

/// Spec-level model of a parsed JSON document. An integer the value
/// model can hold is `Int`; any other number (fractional, or outside
/// the signed 64-bit range) is `NonIntNumber`.
pub enum JsonDoc {
    Null,
    Bool(bool),
    Int(i64),
    NonIntNumber,
    Str(Seq<char>),
    Arr(Seq<JsonDoc>),
    Obj(Seq<(Seq<char>, JsonDoc)>),
}

/// What serde_json's parse returns for this text: `None` where the
/// parse fails (malformed text, or nesting beyond the parser's
/// limit). The result depends on the text alone.
pub uninterp spec fn json_of(s: Seq<char>) -> Option<JsonDoc>;

/// The document a parsed serde_json value holds: object entries in
/// the order serde_json's map iterates them.
pub uninterp spec fn json_doc(v: serde_json::Value) -> JsonDoc;

/// The scalar a document leaf carries, if it is a plain scalar.
pub open spec fn doc_scalar(d: JsonDoc) -> Option<ScalarModel> {
    match d {
        JsonDoc::Null => Some(ScalarModel::Null),
        JsonDoc::Bool(b) => Some(ScalarModel::Bool(b)),
        JsonDoc::Int(n) => Some(ScalarModel::Num(n)),
        JsonDoc::Str(s) => Some(ScalarModel::Str(s)),
        _ => None,
    }
}

/// Relies on serde_json::from_str: parses the text as one JSON value,
/// failing exactly where the named parse `json_of` does, and
/// returning a value holding the named document.
#[verifier::external_body]
fn parse_json(s: &str) -> (r: Result<serde_json::Value, serde_json::Error>)
    ensures
        r is Ok <==> json_of(s@) is Some,
        r is Ok ==> json_of(s@) == Some(json_doc(r->Ok_0)),
{
    serde_json::from_str(s)
}

/// Relies on serde_json::Value::as_array: `Some` exactly on an array
/// value, handing out the items whose documents make up the array.
#[verifier::external_body]
fn json_as_array(v: &serde_json::Value) -> (r: Option<&Vec<serde_json::Value>>)
    ensures
        r is Some <==> json_doc(*v) is Arr,
        r is Some ==> r->0@.map_values(|x: serde_json::Value| json_doc(x)) == json_doc(*v)->Arr_0,
{
    v.as_array()
}

/// Relies on serde_json::Value's public variants and
/// serde_json::Number::as_i64, one arm per variant: a null, boolean,
/// 64-bit-signed integer or string scalar moves across one-to-one —
/// exactly when the value's document is such a leaf; an object, an
/// array or any other number yields nothing.
#[verifier::external_body]
fn json_scalar(v: &serde_json::Value) -> (r: Option<ScalarVal>)
    ensures
        match r {
            Some(sv) => doc_scalar(json_doc(*v)) == Some(sv@),
            None => doc_scalar(json_doc(*v)) is None,
        },
{
    match v {
        serde_json::Value::Null => Some(ScalarVal::Null),
        serde_json::Value::Bool(b) => Some(ScalarVal::Bool(*b)),
        serde_json::Value::Number(n) => n.as_i64().map(ScalarVal::Num),
        serde_json::Value::String(s) => Some(ScalarVal::Str(s.clone())),
        _ => None,
    }
}

/// Relies on serde_json::Value::as_object and serde_json::Map::iter:
/// `Some` exactly on an object value, handing out the entries, in the
/// map's key order, whose names and documents make up the object.
#[verifier::external_body]
fn json_object_entries<'a>(v: &'a serde_json::Value) -> (r: Option<
    Vec<(&'a String, &'a serde_json::Value)>,
>)
    ensures
        r is Some <==> json_doc(*v) is Obj,
        r is Some ==> r->0@.map_values(
            |e: (&String, &serde_json::Value)| (e.0@, json_doc(*e.1)),
        ) == json_doc(*v)->Obj_0,
{
    v.as_object().map(|m| m.iter().collect())
}

// ---------------------------------------------------------------------
// CSV ingestion options: which delimiter and file extension a URL's
// extension selects. The file or network access and the columnar
// engine's CSV reader are the ingestion collaborator's side.
// ---------------------------------------------------------------------

/// Options handed to the ingestion collaborator's CSV reader.
#[derive(Debug)]
pub struct CsvReadOptions {
    /// The field separator: a tab for ".tsv" sources, else a comma.
    pub delimiter: u8,
    pub file_extension: String,
}

/// Pick the CSV reader's options from the URL: tab-separated files
/// keep their extension and separator, everything else reads as plain
/// comma-separated text.
pub fn csv_read_options(url: &str) -> (r: CsvReadOptions)
    ensures
        crate::tasks::spec_has_suffix(url@, ".tsv"@) ==> r.delimiter == 9 && r.file_extension@
            == ".tsv"@,
        !crate::tasks::spec_has_suffix(url@, ".tsv"@) ==> r.delimiter == 44 && r.file_extension@
            == ".csv"@,
{
    if crate::tasks::has_suffix(url, ".tsv") {
        CsvReadOptions { delimiter: 9, file_extension: ".tsv".to_owned() }
    } else {
        CsvReadOptions { delimiter: 44, file_extension: ".csv".to_owned() }
    }
}

// ---------------------------------------------------------------------
// Row assembly: the verified core. A dataset arrives as rows of
// (name, scalar) cells; the table is its columnar transposition.
// ---------------------------------------------------------------------

pub open spec fn row_model(r: Seq<(String, ScalarVal)>) -> Seq<(Seq<char>, ScalarModel)> {
    r.map_values(|e: (String, ScalarVal)| (e.0@, e.1@))
}

pub open spec fn rows_model(rows: Seq<Vec<(String, ScalarVal)>>) -> Seq<
    Seq<(Seq<char>, ScalarModel)>,
> {
    rows.map_values(|r: Vec<(String, ScalarVal)>| row_model(r@))
}

/// A cell the columnar model can hold: boolean, number or string.
pub open spec fn cell_ok(v: ScalarModel) -> bool {
    v is Bool || v is Num || v is Str
}

pub open spec fn variant_eq(a: ScalarModel, b: ScalarModel) -> bool {
    match (a, b) {
        (ScalarModel::Bool(_), ScalarModel::Bool(_)) => true,
        (ScalarModel::Num(_), ScalarModel::Num(_)) => true,
        (ScalarModel::Str(_), ScalarModel::Str(_)) => true,
        _ => false,
    }
}

/// Rows that transpose into a schema-typed table: every row has the
/// first row's names in the first row's order, cell types are uniform
/// down each column, cells are plain scalars, and no name repeats.
pub open spec fn rows_ok(rows: Seq<Seq<(Seq<char>, ScalarModel)>>) -> bool {
    &&& forall|i: int| 0 <= i < rows.len() ==> (#[trigger] rows[i]).len() == rows[0].len()
    &&& forall|i: int, j: int|
        #![trigger rows[i][j]]
        0 <= i < rows.len() && 0 <= j < rows[i].len() ==> {
            &&& rows[i][j].0 == rows[0][j].0
            &&& variant_eq(rows[i][j].1, rows[0][j].1)
            &&& cell_ok(rows[i][j].1)
        }
    &&& forall|j1: int, j2: int|
        #![trigger rows[0][j1], rows[0][j2]]
        rows.len() > 0 && 0 <= j1 < j2 < rows[0].len() ==> rows[0][j1].0 != rows[0][j2].0
}

/// Column `j` of the transposed table.
pub open spec fn spec_col_of(rows: Seq<Seq<(Seq<char>, ScalarModel)>>, j: int) -> ColumnModel {
    let name = rows[0][j].0;
    match rows[0][j].1 {
        ScalarModel::Bool(_) => ColumnModel {
            name: name,
            data: ColDataModel::Bools(Seq::new(rows.len(), |i: int| rows[i][j].1->Bool_0)),
        },
        ScalarModel::Num(_) => ColumnModel {
            name: name,
            data: ColDataModel::Nums(Seq::new(rows.len(), |i: int| rows[i][j].1->Num_0)),
        },
        _ => ColumnModel {
            name: name,
            data: ColDataModel::Strs(Seq::new(rows.len(), |i: int| rows[i][j].1->Str_0)),
        },
    }
}

/// The transposed table: one column per cell of the first row.
pub open spec fn spec_table_from_rows(rows: Seq<Seq<(Seq<char>, ScalarModel)>>) -> Seq<
    ColumnModel,
> {
    if rows.len() == 0 {
        Seq::empty()
    } else {
        Seq::new(rows[0].len(), |j: int| spec_col_of(rows, j))
    }
}

/// Transpose rows of named cells into a columnar table. Succeeds
/// exactly on well-shaped rows; the result is then their transposition
/// and a well-formed table.
pub fn table_from_rows(rows: &Vec<Vec<(String, ScalarVal)>>) -> (r: Result<
    Table,
    VegaFusionError,
>)
    ensures
        r is Ok <==> rows_ok(rows_model(rows@)),
        r is Ok ==> r->Ok_0@ == spec_table_from_rows(rows_model(rows@)) && table_model_wf(
            r->Ok_0@,
        ),
        r is Err ==> r->Err_0 is External,
{
    let ghost rm = rows_model(rows@);
    let nrows = rows.len();
    if nrows == 0 {
        let t = Table { columns: Vec::new() };
        proof {
            assert(rows_ok(rm));
            assert(t@ =~= spec_table_from_rows(rm));
        }
        return Ok(t);
    }
    let ncols = rows[0].len();
    // Validate the shape first.
    let mut i: usize = 0;
    while i < nrows
        invariant
            i <= nrows,
            nrows == rows@.len(),
            nrows > 0,
            rm == rows_model(rows@),
            ncols == rm[0].len(),
            forall|i2: int| 0 <= i2 < i ==> (#[trigger] rm[i2]).len() == rm[0].len(),
            forall|i2: int, j2: int|
                #![trigger rm[i2][j2]]
                0 <= i2 < i && 0 <= j2 < rm[i2].len() ==> {
                    &&& rm[i2][j2].0 == rm[0][j2].0
                    &&& variant_eq(rm[i2][j2].1, rm[0][j2].1)
                    &&& cell_ok(rm[i2][j2].1)
                },
        decreases nrows - i,
    {
        if rows[i].len() != ncols {
            proof {
                assert(!rows_ok(rm)) by {
                    assert(rm[i as int].len() != rm[0].len());
                }
            }
            return Err(VegaFusionError::external("Rows have differing numbers of cells"));
        }
        let mut j: usize = 0;
        while j < ncols
            invariant
                j <= ncols,
                i < nrows,
                nrows == rows@.len(),
                rm == rows_model(rows@),
                ncols == rm[0].len(),
                ncols == rm[i as int].len(),
                forall|j2: int|
                    #![trigger rm[i as int][j2]]
                    0 <= j2 < j ==> {
                        &&& rm[i as int][j2].0 == rm[0][j2].0
                        &&& variant_eq(rm[i as int][j2].1, rm[0][j2].1)
                        &&& cell_ok(rm[i as int][j2].1)
                    },
            decreases ncols - j,
        {
            let name_ok = crate::table::string_eq_str(&rows[i][j].0, rows[0][j].0.as_str());
            let cell = &rows[i][j].1;
            let head = &rows[0][j].1;
            let var_ok = match (cell, head) {
                (ScalarVal::Bool(_), ScalarVal::Bool(_)) => true,
                (ScalarVal::Num(_), ScalarVal::Num(_)) => true,
                (ScalarVal::Str(_), ScalarVal::Str(_)) => true,
                _ => false,
            };
            if !name_ok || !var_ok {
                proof {
                    assert(!rows_ok(rm)) by {
                        assert(rm[i as int][j as int].0 == rows@[i as int]@[j as int].0@);
                        if !name_ok {
                            assert(rm[i as int][j as int].0 != rm[0][j as int].0);
                        } else {
                            assert(!(variant_eq(rm[i as int][j as int].1, rm[0][j as int].1)
                                && cell_ok(rm[i as int][j as int].1)));
                        }
                    }
                }
                return Err(
                    VegaFusionError::external("Rows disagree on a cell's name or type"),
                );
            }
            j = j + 1;
        }
        i = i + 1;
    }
    // Reject duplicate names.
    let mut j1: usize = 0;
    while j1 < ncols
        invariant
            j1 <= ncols,
            nrows == rows@.len(),
            nrows > 0,
            rm == rows_model(rows@),
            ncols == rm[0].len(),
            forall|a: int, b: int|
                #![trigger rm[0][a], rm[0][b]]
                0 <= a < b < ncols && a < j1 ==> rm[0][a].0 != rm[0][b].0,
        decreases ncols - j1,
    {
        let mut j2: usize = j1 + 1;
        while j2 < ncols
            invariant
                j1 < j2 <= ncols || (j1 + 1 == j2 && j2 > ncols),
                j1 < ncols,
                nrows == rows@.len(),
                nrows > 0,
                rm == rows_model(rows@),
                ncols == rm[0].len(),
                forall|b: int| j1 < b < j2 ==> rm[0][j1 as int].0 != (#[trigger] rm[0][b]).0,
            decreases ncols - j2,
        {
            if crate::table::string_eq_str(&rows[0][j1].0, rows[0][j2].0.as_str()) {
                proof {
                    assert(!rows_ok(rm)) by {
                        assert(rm[0][j1 as int].0 == rm[0][j2 as int].0);
                    }
                }
                return Err(VegaFusionError::external("Two cells of a row share a name"));
            }
            j2 = j2 + 1;
        }
        j1 = j1 + 1;
    }
    proof {
        assert(rows_ok(rm));
    }
    // Transpose.
    let mut cols: Vec<Column> = Vec::new();
    let mut j: usize = 0;
    while j < ncols
        invariant
            j <= ncols,
            nrows == rows@.len(),
            nrows > 0,
            rm == rows_model(rows@),
            ncols == rm[0].len(),
            rows_ok(rm),
            cols@.len() == j,
            forall|j2: int| 0 <= j2 < j ==> (#[trigger] cols@[j2])@ == spec_col_of(rm, j2),
        decreases ncols - j,
    {
        let name = rows[0][j].0.clone();
        let data = match &rows[0][j].1 {
            ScalarVal::Bool(_) => {
                let mut cells: Vec<bool> = Vec::new();
                let mut i: usize = 0;
                while i < nrows
                    invariant
                        i <= nrows,
                        j < ncols,
                        nrows == rows@.len(),
                        nrows > 0,
                        rm == rows_model(rows@),
                        ncols == rm[0].len(),
                        rows_ok(rm),
                        rm[0][j as int].1 is Bool,
                        cells@.len() == i,
                        forall|i2: int|
                            0 <= i2 < i ==> (#[trigger] cells@[i2]) == rm[i2][j as int].1->Bool_0,
                    decreases nrows - i,
                {
                    proof {
                        assert(rm[i as int].len() == rm[0].len());
                        assert(rows@[i as int]@.len() == rm[i as int].len());
                    }
                    match &rows[i][j].1 {
                        ScalarVal::Bool(b) => {
                            cells.push(*b);
                        }
                        _ => {
                            proof {
                                assert(variant_eq(rm[i as int][j as int].1, rm[0][j as int].1));
                                assert(false);
                            }
                        }
                    }
                    i = i + 1;
                }
                ColumnData::Bools(cells)
            }
            ScalarVal::Num(_) => {
                let mut cells: Vec<i64> = Vec::new();
                let mut i: usize = 0;
                while i < nrows
                    invariant
                        i <= nrows,
                        j < ncols,
                        nrows == rows@.len(),
                        nrows > 0,
                        rm == rows_model(rows@),
                        ncols == rm[0].len(),
                        rows_ok(rm),
                        rm[0][j as int].1 is Num,
                        cells@.len() == i,
                        forall|i2: int|
                            0 <= i2 < i ==> (#[trigger] cells@[i2]) == rm[i2][j as int].1->Num_0,
                    decreases nrows - i,
                {
                    proof {
                        assert(rm[i as int].len() == rm[0].len());
                        assert(rows@[i as int]@.len() == rm[i as int].len());
                    }
                    match &rows[i][j].1 {
                        ScalarVal::Num(x) => {
                            cells.push(*x);
                        }
                        _ => {
                            proof {
                                assert(variant_eq(rm[i as int][j as int].1, rm[0][j as int].1));
                                assert(false);
                            }
                        }
                    }
                    i = i + 1;
                }
                ColumnData::Nums(cells)
            }
            _ => {
                let mut cells: Vec<String> = Vec::new();
                let mut i: usize = 0;
                while i < nrows
                    invariant
                        i <= nrows,
                        j < ncols,
                        nrows == rows@.len(),
                        nrows > 0,
                        rm == rows_model(rows@),
                        ncols == rm[0].len(),
                        rows_ok(rm),
                        rm[0][j as int].1 is Str,
                        cells@.len() == i,
                        forall|i2: int|
                            0 <= i2 < i ==> (#[trigger] cells@[i2])@ == rm[i2][j as int].1->Str_0,
                    decreases nrows - i,
                {
                    proof {
                        assert(rm[i as int].len() == rm[0].len());
                        assert(rows@[i as int]@.len() == rm[i as int].len());
                    }
                    match &rows[i][j].1 {
                        ScalarVal::Str(s) => {
                            cells.push(s.clone());
                        }
                        _ => {
                            proof {
                                assert(variant_eq(rm[i as int][j as int].1, rm[0][j as int].1));
                                assert(false);
                            }
                        }
                    }
                    i = i + 1;
                }
                ColumnData::Strs(cells)
            }
        };
        let col = Column { name: name, data: data };
        proof {
            match rm[0][j as int].1 {
                ScalarModel::Bool(_) => {
                    assert(col@.data->Bools_0 =~= spec_col_of(rm, j as int).data->Bools_0);
                }
                ScalarModel::Num(_) => {
                    assert(col@.data->Nums_0 =~= spec_col_of(rm, j as int).data->Nums_0);
                }
                ScalarModel::Str(_) => {
                    assert(col@.data->Strs_0 =~= spec_col_of(rm, j as int).data->Strs_0);
                }
                _ => {
                    assert(cell_ok(rm[0][j as int].1));
                    assert(false);
                }
            }
        }
        cols.push(col);
        j = j + 1;
    }
    let t = Table { columns: cols };
    proof {
        assert(t@ =~= spec_table_from_rows(rm));
        assert forall|a: int| 0 <= a < t@.len() implies (#[trigger] t@[a]).data.len()
            == crate::table::spec_num_rows(t@) by {
            assert(t@[a] == spec_col_of(rm, a));
            assert(t@[0] == spec_col_of(rm, 0));
        }
        assert(table_model_wf(t@));
    }
    Ok(t)
}

/// The cells of one row object, if every entry is a plain scalar.
pub open spec fn doc_row(entries: Seq<(Seq<char>, JsonDoc)>) -> Option<
    Seq<(Seq<char>, ScalarModel)>,
>
    decreases entries.len(),
{
    if entries.len() == 0 {
        Some(Seq::empty())
    } else {
        match doc_row(entries.drop_last()) {
            None => None,
            Some(cells) => match doc_scalar(entries.last().1) {
                None => None,
                Some(sm) => Some(cells.push((entries.last().0, sm))),
            },
        }
    }
}

/// The rows of a sequence of documents, if each is a flat object of
/// plain scalars.
pub open spec fn doc_rows(items: Seq<JsonDoc>) -> Option<Seq<Seq<(Seq<char>, ScalarModel)>>>
    decreases items.len(),
{
    if items.len() == 0 {
        Some(Seq::empty())
    } else {
        match doc_rows(items.drop_last()) {
            None => None,
            Some(rs) => match items.last() {
                JsonDoc::Obj(entries) => match doc_row(entries) {
                    None => None,
                    Some(r) => Some(rs.push(r)),
                },
                _ => None,
            },
        }
    }
}

/// The rows a parsed document describes: it must be an array of flat
/// objects of plain scalars.
pub open spec fn doc_table_rows(d: JsonDoc) -> Option<Seq<Seq<(Seq<char>, ScalarModel)>>> {
    match d {
        JsonDoc::Arr(items) => doc_rows(items),
        _ => None,
    }
}

/// The table JSON text describes: it parses, it is an array of flat
/// scalar objects, and its rows transpose.
pub open spec fn spec_json_table(s: Seq<char>) -> Option<Seq<ColumnModel>> {
    match json_of(s) {
        None => None,
        Some(d) => match doc_table_rows(d) {
            None => None,
            Some(rs) => if rows_ok(rs) {
                Some(spec_table_from_rows(rs))
            } else {
                None
            },
        },
    }
}

/// A cell a row cannot hold fails the whole row.
proof fn lemma_doc_row_none(entries: Seq<(Seq<char>, JsonDoc)>, k: int)
    requires
        0 <= k < entries.len(),
        doc_scalar(entries[k].1) is None,
    ensures
        doc_row(entries) is None,
    decreases entries.len(),
{
    if k < entries.len() - 1 {
        lemma_doc_row_none(entries.drop_last(), k);
    }
}

/// One item that is no flat scalar object fails the whole row list.
proof fn lemma_doc_rows_none(items: Seq<JsonDoc>, i: int)
    requires
        0 <= i < items.len(),
        match items[i] {
            JsonDoc::Obj(entries) => doc_row(entries) is None,
            _ => true,
        },
    ensures
        doc_rows(items) is None,
    decreases items.len(),
{
    if i < items.len() - 1 {
        lemma_doc_rows_none(items.drop_last(), i);
    }
}

/// Rows of named scalar cells extracted from a parsed JSON array of
/// objects: exactly the rows the value's document describes.
fn json_rows(v: &serde_json::Value) -> (r: Result<Vec<Vec<(String, ScalarVal)>>, VegaFusionError>)
    ensures
        match doc_table_rows(json_doc(*v)) {
            None => r is Err && r->Err_0 is External,
            Some(rs) => r is Ok && rows_model(r->Ok_0@) == rs,
        },
{
    let items = match json_as_array(v) {
        Some(items) => items,
        None => {
            return Err(VegaFusionError::external("A JSON dataset must be an array of rows"));
        }
    };
    let ghost items_doc = items@.map_values(|x: serde_json::Value| json_doc(x));
    let n = items.len();
    let mut rows: Vec<Vec<(String, ScalarVal)>> = Vec::new();
    let mut i: usize = 0;
    while i < n
        invariant
            i <= n,
            n == items@.len(),
            items_doc == items@.map_values(|x: serde_json::Value| json_doc(x)),
            items_doc.len() == n,
            json_doc(*v) is Arr,
            json_doc(*v)->Arr_0 == items_doc,
            doc_rows(items_doc.take(i as int)) == Some(rows_model(rows@)),
        decreases n - i,
    {
        proof {
            assert(items_doc[i as int] == json_doc(items@[i as int]));
        }
        let entries = match json_object_entries(&items[i]) {
            Some(e) => e,
            None => {
                proof {
                    lemma_doc_rows_none(items_doc, i as int);
                }
                return Err(VegaFusionError::external("A JSON row must be an object"));
            }
        };
        let ghost entries_doc = entries@.map_values(
            |e: (&String, &serde_json::Value)| (e.0@, json_doc(*e.1)),
        );
        proof {
            assert(json_doc(items@[i as int])->Obj_0 == entries_doc);
        }
        let m = entries.len();
        let mut row: Vec<(String, ScalarVal)> = Vec::new();
        let mut k: usize = 0;
        while k < m
            invariant
                k <= m,
                m == entries@.len(),
                i < n,
                n == items@.len(),
                items_doc.len() == n,
                json_doc(*v) is Arr,
                json_doc(*v)->Arr_0 == items_doc,
                items_doc[i as int] == json_doc(items@[i as int]),
                items_doc[i as int] is Obj,
                items_doc[i as int]->Obj_0 == entries_doc,
                entries_doc == entries@.map_values(
                    |e: (&String, &serde_json::Value)| (e.0@, json_doc(*e.1)),
                ),
                entries_doc.len() == m,
                doc_row(entries_doc.take(k as int)) == Some(row_model(row@)),
            decreases m - k,
        {
            proof {
                assert(entries_doc[k as int] == (entries@[k as int].0@, json_doc(
                    *entries@[k as int].1,
                )));
            }
            let (key, val) = &entries[k];
            match json_scalar(val) {
                Some(sv) => {
                    let ghost svm = sv@;
                    let ghost row0 = row@;
                    row.push(((*key).clone(), sv));
                    proof {
                        assert(doc_scalar(entries_doc[k as int].1) == Some(svm));
                        assert(entries_doc.take(k + 1 as int).drop_last() =~= entries_doc.take(
                            k as int,
                        ));
                        assert(entries_doc.take(k + 1 as int).last() == entries_doc[k as int]);
                        assert(row_model(row@) =~= row_model(row0).push(
                            (entries_doc[k as int].0, svm),
                        ));
                    }
                }
                None => {
                    proof {
                        assert(doc_scalar(entries_doc[k as int].1) is None);
                        lemma_doc_row_none(entries_doc, k as int);
                        lemma_doc_rows_none(items_doc, i as int);
                    }
                    return Err(
                        VegaFusionError::external("A JSON cell must be a plain scalar"),
                    );
                }
            }
            k = k + 1;
        }
        proof {
            assert(entries_doc.take(m as int) =~= entries_doc);
        }
        let ghost rows0 = rows@;
        rows.push(row);
        proof {
            assert(items_doc.take(i + 1 as int).drop_last() =~= items_doc.take(i as int));
            assert(items_doc.take(i + 1 as int).last() == items_doc[i as int]);
            assert(rows_model(rows@) =~= rows_model(rows0).push(row_model(rows@.last()@)));
        }
        i = i + 1;
    }
    proof {
        assert(items_doc.take(n as int) =~= items_doc);
    }
    Ok(rows)
}

/// Parse JSON text into a columnar table: the compute half of loading
/// a JSON dataset, shared by file and network sources.
///
/// Succeeds exactly when the text parses (as `json_of` names the
/// parse), holds an array of flat objects of plain scalars, and those
/// rows transpose; the result is then exactly their transposition.
/// Anything else — malformed text included — is an error, never a
/// default table.
pub fn read_json(text: &str) -> (r: Result<Table, VegaFusionError>)
    ensures
        r is Ok <==> spec_json_table(text@) is Some,
        r is Ok ==> Some(r->Ok_0@) == spec_json_table(text@) && table_model_wf(r->Ok_0@),
        r is Err ==> r->Err_0 is External,
{
    let parsed = match parse_json(text) {
        Ok(v) => v,
        Err(_) => {
            return Err(VegaFusionError::external("Malformed JSON content"));
        }
    };
    let rows = json_rows(&parsed)?;
    table_from_rows(&rows)
}


// ---------------------------------------------------------------------
// CSV ingestion: the compute half of loading a delimited text dataset.
// The text splits into lines and fields; the first line names the
// columns, every cell stays a string (a declared date column is
// reinterpreted later by the task). The caller fetches the text.
// ---------------------------------------------------------------------

/// Split a character sequence on a separator. A separator at the end
/// yields a trailing empty piece; the empty sequence is one empty
/// piece.
pub open spec fn spec_split(s: Seq<char>, sep: char) -> Seq<Seq<char>>
    decreases s.len(),
{
    if s.len() == 0 {
        seq![Seq::<char>::empty()]
    } else {
        let rest = spec_split(s.skip(1), sep);
        if s[0] == sep {
            seq![Seq::<char>::empty()] + rest
        } else {
            seq![seq![s[0]] + rest[0]] + rest.skip(1)
        }
    }
}

proof fn lemma_split_nonempty(s: Seq<char>, sep: char)
    ensures
        spec_split(s, sep).len() >= 1,
    decreases s.len(),
{
    if s.len() != 0 {
        lemma_split_nonempty(s.skip(1), sep);
    }
}

/// Split the characters from position `i` on.
fn split_slice(s: &[char], i: usize, sep: char) -> (r: Vec<Vec<char>>)
    requires
        i <= s@.len(),
    ensures
        r@.map_values(|v: Vec<char>| v@) == spec_split(s@.skip(i as int), sep),
        r@.len() >= 1,
    decreases s@.len() - i,
{
    if i == s.len() {
        let mut r: Vec<Vec<char>> = Vec::new();
        r.push(Vec::new());
        proof {
            assert(s@.skip(i as int) =~= Seq::<char>::empty());
            assert(r@.map_values(|v: Vec<char>| v@) =~= seq![Seq::<char>::empty()]);
        }
        r
    } else {
        let c = *vstd::slice::slice_index_get(s, i);
        let mut rest = split_slice(s, i + 1, sep);
        let ghost tail = spec_split(s@.skip(i as int + 1), sep);
        let ghost whole = spec_split(s@.skip(i as int), sep);
        proof {
            lemma_split_nonempty(s@.skip(i as int + 1), sep);
            assert(rest@.map_values(|v: Vec<char>| v@).len() == rest@.len());
            assert(s@.skip(i as int)[0] == s@[i as int]);
            assert(s@.skip(i as int).skip(1) =~= s@.skip(i as int + 1));
        }
        if c == sep {
            let ghost rest0 = rest@;
            rest.insert(0, Vec::new());
            proof {
                assert(rest@.map_values(|v: Vec<char>| v@) =~= whole);
            }
            rest
        } else {
            let ghost rest0 = rest@;
            rest[0].insert(0, c);
            proof {
                assert(rest@[0]@ =~= seq![s@[i as int]] + rest0[0]@);
                assert(rest@.map_values(|v: Vec<char>| v@) =~= whole);
            }
            rest
        }
    }
}

/// A line with one trailing carriage return removed.
pub open spec fn spec_trim_cr(l: Seq<char>) -> Seq<char> {
    if l.len() > 0 && l.last() == '\r' {
        l.drop_last()
    } else {
        l
    }
}

/// The text's lines: split on newlines, each trimmed of one trailing
/// carriage return, a final empty line dropped.
pub open spec fn spec_csv_lines(text: Seq<char>) -> Seq<Seq<char>> {
    let pieces = spec_split(text, '\n');
    let trimmed = Seq::new(pieces.len(), |k: int| spec_trim_cr(pieces[k]));
    if trimmed.len() > 0 && trimmed.last().len() == 0 {
        trimmed.drop_last()
    } else {
        trimmed
    }
}

/// The rows a delimited text describes: the first line names the
/// cells, each later line is one row of string cells, paired with the
/// names positionally as far as both reach. Ragged lines surface as
/// rows of differing lengths, which the transposition rejects.
pub open spec fn spec_csv_rows(text: Seq<char>, sep: char) -> Seq<Seq<(Seq<char>, ScalarModel)>> {
    let lines = spec_csv_lines(text);
    if lines.len() <= 1 {
        Seq::empty()
    } else {
        let hd = spec_split(lines[0], sep);
        Seq::new(
            (lines.len() - 1) as nat,
            |r: int|
                {
                    let fs = spec_split(lines[r + 1], sep);
                    let w: int = if hd.len() <= fs.len() {
                        hd.len() as int
                    } else {
                        fs.len() as int
                    };
                    Seq::new(w as nat, |j: int| (hd[j], ScalarModel::Str(fs[j])))
                },
        )
    }
}

/// The text's characters, one by one.
fn str_chars(s: &str) -> (r: Vec<char>)
    ensures
        r@ == s@,
{
    let n = s.unicode_len();
    let mut r: Vec<char> = Vec::new();
    let mut i: usize = 0;
    while i < n
        invariant
            i <= n,
            n == s@.len(),
            r@ == s@.take(i as int),
        decreases n - i,
    {
        r.push(s.get_char(i));
        proof {
            assert(s@.take(i as int).push(s@[i as int]) =~= s@.take(i + 1));
        }
        i = i + 1;
    }
    proof {
        assert(s@.take(n as int) =~= s@);
    }
    r
}

/// Parse delimited text into a columnar table: the compute half of
/// loading a CSV or TSV dataset. Succeeds exactly when the described
/// rows transpose (same arity everywhere, distinct names); the result
/// is then their transposition, as `table_from_rows` states it.
///
/// The accepted dialect is exactly what `spec_csv_rows` says: every
/// delimiter character splits a field — there is no quoting — and
/// every cell stays a string (a column the chart declares as a date
/// is reinterpreted later by the task; other typing is the execution
/// engine's concern).
pub fn read_csv(text: &str, delimiter: char) -> (r: Result<Table, VegaFusionError>)
    ensures
        r is Ok <==> rows_ok(spec_csv_rows(text@, delimiter)),
        r is Ok ==> r->Ok_0@ == spec_table_from_rows(spec_csv_rows(text@, delimiter))
            && table_model_wf(r->Ok_0@),
        r is Err ==> r->Err_0 is External,
{
    let chars = str_chars(text);
    let pieces = split_slice(chars.as_slice(), 0, '\n');
    proof {
        assert(chars@.skip(0) =~= text@);
    }
    let ghost pieces_spec = spec_split(text@, '\n');
    proof {
        assert(pieces@.map_values(|v: Vec<char>| v@).len() == pieces@.len());
    }
    let np = pieces.len();
    // Trim one trailing carriage return from each line.
    let mut lines: Vec<Vec<char>> = Vec::new();
    let mut i: usize = 0;
    while i < np
        invariant
            i <= np,
            np == pieces@.len(),
            np == pieces_spec.len(),
            pieces@.map_values(|v: Vec<char>| v@) == pieces_spec,
            lines@.len() == i,
            forall|k: int| 0 <= k < i ==> (#[trigger] lines@[k])@ == spec_trim_cr(pieces_spec[k]),
        decreases np - i,
    {
        proof {
            assert(pieces@.map_values(|v: Vec<char>| v@)[i as int] == pieces_spec[i as int]);
        }
        let mut line = clone_chars(&pieces[i]);
        let ll = line.len();
        if ll > 0 && line[ll - 1] == '\r' {
            line.pop();
            proof {
                assert(line@ =~= spec_trim_cr(pieces_spec[i as int]));
            }
        } else {
            proof {
                assert(line@ =~= spec_trim_cr(pieces_spec[i as int]));
            }
        }
        lines.push(line);
        i = i + 1;
    }
    // Drop a final empty line.
    let nl = lines.len();
    if nl > 0 {
        if lines[nl - 1].len() == 0 {
            lines.pop();
        }
    }
    let ghost lines_spec = spec_csv_lines(text@);
    proof {
        let trimmed = Seq::new(pieces_spec.len(), |k: int| spec_trim_cr(pieces_spec[k]));
        if np > 0 && trimmed.last().len() == 0 {
            assert(lines@.len() == lines_spec.len());
        } else {
            assert(lines@.len() == lines_spec.len());
        }
        assert(forall|k: int|
            0 <= k < lines@.len() ==> (#[trigger] lines@[k])@ == lines_spec[k]);
    }
    let ghost rows_spec = spec_csv_rows(text@, delimiter);
    if lines.len() <= 1 {
        let empty_rows: Vec<Vec<(String, ScalarVal)>> = Vec::new();
        let r = table_from_rows(&empty_rows);
        proof {
            assert(rows_spec =~~= rows_model(empty_rows@));
        }
        return r;
    }
    // Header names.
    let hd_fields = split_slice(lines[0].as_slice(), 0, delimiter);
    let ghost hd_spec = spec_split(lines_spec[0], delimiter);
    proof {
        assert(lines@[0]@.skip(0) =~= lines_spec[0]);
        assert(hd_fields@.map_values(|v: Vec<char>| v@).len() == hd_fields@.len());
    }
    let nhd = hd_fields.len();
    let mut header: Vec<String> = Vec::new();
    let mut j: usize = 0;
    while j < nhd
        invariant
            j <= nhd,
            nhd == hd_fields@.len(),
            nhd == hd_spec.len(),
            hd_fields@.map_values(|v: Vec<char>| v@) == hd_spec,
            header@.len() == j,
            forall|j2: int| 0 <= j2 < j ==> (#[trigger] header@[j2])@ == hd_spec[j2],
        decreases nhd - j,
    {
        proof {
            assert(hd_fields@.map_values(|v: Vec<char>| v@)[j as int] == hd_spec[j as int]);
        }
        header.push(crate::codec::string_from_chars(&hd_fields[j]));
        j = j + 1;
    }
    // Rows.
    let nlines = lines.len();
    let mut rows: Vec<Vec<(String, ScalarVal)>> = Vec::new();
    let mut r_i: usize = 1;
    while r_i < nlines
        invariant
            1 <= r_i <= nlines,
            nlines == lines@.len(),
            nlines == lines_spec.len(),
            nlines > 1,
            forall|k: int| 0 <= k < nlines ==> (#[trigger] lines@[k])@ == lines_spec[k],
            lines_spec == spec_csv_lines(text@),
            hd_spec == spec_split(lines_spec[0], delimiter),
            nhd == hd_spec.len(),
            header@.len() == nhd,
            forall|j2: int| 0 <= j2 < nhd ==> (#[trigger] header@[j2])@ == hd_spec[j2],
            rows_spec == spec_csv_rows(text@, delimiter),
            rows@.len() == r_i - 1,
            forall|r2: int|
                0 <= r2 < r_i - 1 ==> row_model((#[trigger] rows@[r2])@) == rows_spec[r2],
        decreases nlines - r_i,
    {
        let fs = split_slice(lines[r_i].as_slice(), 0, delimiter);
        let ghost fs_spec = spec_split(lines_spec[r_i as int], delimiter);
        proof {
            assert(lines@[r_i as int]@.skip(0) =~= lines_spec[r_i as int]);
            assert(fs@.map_values(|v: Vec<char>| v@).len() == fs@.len());
        }
        let nfs = fs.len();
        let w = if nhd <= nfs {
            nhd
        } else {
            nfs
        };
        let mut row: Vec<(String, ScalarVal)> = Vec::new();
        let mut j: usize = 0;
        while j < w
            invariant
                j <= w,
                w <= nhd,
                w <= nfs,
                w == if hd_spec.len() <= fs_spec.len() {
                    hd_spec.len() as int
                } else {
                    fs_spec.len() as int
                },
                nhd == hd_spec.len(),
                header@.len() == nhd,
                forall|j2: int| 0 <= j2 < nhd ==> (#[trigger] header@[j2])@ == hd_spec[j2],
                nfs == fs@.len(),
                nfs == fs_spec.len(),
                fs@.map_values(|v: Vec<char>| v@) == fs_spec,
                row@.len() == j,
                forall|j2: int|
                    0 <= j2 < j ==> (#[trigger] row@[j2]).0@ == hd_spec[j2] && row@[j2].1@
                        == ScalarModel::Str(fs_spec[j2]),
            decreases w - j,
        {
            proof {
                assert(fs@.map_values(|v: Vec<char>| v@)[j as int] == fs_spec[j as int]);
            }
            row.push((header[j].clone(), ScalarVal::Str(crate::codec::string_from_chars(&fs[j]))));
            j = j + 1;
        }
        proof {
            let target = rows_spec[r_i - 1];
            assert(rows_spec.len() == nlines - 1);
            assert(target.len() == w);
            assert(row_model(row@).len() == w);
            assert forall|j2: int| 0 <= j2 < w implies row_model(row@)[j2] == target[j2] by {
                assert(row_model(row@)[j2] == (row@[j2].0@, row@[j2].1@));
            }
            assert(row_model(row@) =~~= target);
        }
        rows.push(row);
        r_i = r_i + 1;
    }
    let out = table_from_rows(&rows);
    proof {
        assert(rows_spec.len() == nlines - 1);
        assert forall|r2: int| 0 <= r2 < rows_spec.len() implies rows_model(rows@)[r2]
            == rows_spec[r2] by {
            assert(rows_model(rows@)[r2] == row_model(rows@[r2]@));
        }
        assert(rows_model(rows@) =~~= rows_spec);
    }
    out
}

/// Copy one line's characters.
fn clone_chars(v: &Vec<char>) -> (r: Vec<char>)
    ensures
        r@ == v@,
{
    let n = v.len();
    let mut r: Vec<char> = Vec::new();
    let mut i: usize = 0;
    while i < n
        invariant
            i <= n,
            n == v@.len(),
            r@ == v@.take(i as int),
        decreases n - i,
    {
        r.push(v[i]);
        proof {
            assert(v@.take(i as int).push(v@[i as int]) =~= v@.take(i + 1));
        }
        i = i + 1;
    }
    proof {
        assert(v@.take(n as int) =~= v@);
    }
    r
}

} // verus!
