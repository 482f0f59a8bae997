use vstd::prelude::*;
use vstd::string::StrSliceExecFns;
use vstd::string::StringExecFns;
use crate::error::VegaFusionError;
use crate::scalar::{ScalarVal, ScalarModel, clone_scalar};
use crate::table::{Table, ColumnModel, ColumnData, ColDataModel, Column, clone_table, clone_column};
use crate::task_value::{TaskValue, TaskValueModel};
use crate::variable::InputVariable;

verus! {

// ---------------------------------------------------------------------
// The compilation scope: the named scalars and tables a task's
// expressions and transforms may read. Entries are appended in input
// order; a later entry for a name shadows an earlier one.
// ---------------------------------------------------------------------

/// The scope handed to the expression compiler and the transform
/// pipeline: named scalars and named tables.
#[derive(Debug)]
pub struct CompilationConfig {
    pub signal_scope: Vec<(String, ScalarVal)>,
    pub data_scope: Vec<(String, Table)>,
}

pub open spec fn sig_scope_model(s: Seq<(String, ScalarVal)>) -> Seq<(Seq<char>, ScalarModel)> {
    s.map_values(|e: (String, ScalarVal)| (e.0@, e.1@))
}

pub open spec fn data_scope_model(s: Seq<(String, Table)>) -> Seq<(Seq<char>, Seq<ColumnModel>)> {
    s.map_values(|e: (String, Table)| (e.0@, e.1@))
}

/// The latest entry under this name, if any: a later entry shadows an
/// earlier one, as an overwriting map insert would.
pub open spec fn data_lookup(s: Seq<(Seq<char>, Seq<ColumnModel>)>, name: Seq<char>) -> Option<
    Seq<ColumnModel>,
>
    decreases s.len(),
{
    if s.len() == 0 {
        None
    } else if s.last().0 == name {
        Some(s.last().1)
    } else {
        data_lookup(s.drop_last(), name)
    }
}

/// The first `k` entries with every entry under `name` removed.
pub open spec fn model_without(
    s: Seq<(Seq<char>, Seq<ColumnModel>)>,
    name: Seq<char>,
    k: int,
) -> Seq<(Seq<char>, Seq<ColumnModel>)>
    decreases k,
{
    if k <= 0 {
        Seq::empty()
    } else {
        let prev = model_without(s, name, k - 1);
        if s[k - 1].0 == name {
            prev
        } else {
            prev.push(s[k - 1])
        }
    }
}

/// The signal entries contributed by the first `k` input/value pairs:
/// one per scalar value, under the input variable's name.
pub open spec fn spec_sig_entries(
    vars: Seq<InputVariable>,
    vals: Seq<TaskValue>,
    k: int,
) -> Seq<(Seq<char>, ScalarModel)>
    decreases k,
{
    if k <= 0 {
        Seq::empty()
    } else {
        let prev = spec_sig_entries(vars, vals, k - 1);
        match vals[k - 1]@ {
            TaskValueModel::Scalar(sm) => prev.push((vars[k - 1].var.variable.name@, sm)),
            TaskValueModel::Table(_) => prev,
        }
    }
}

/// The data entries contributed by the first `k` input/value pairs:
/// one per table value, under the input variable's name.
pub open spec fn spec_data_entries(
    vars: Seq<InputVariable>,
    vals: Seq<TaskValue>,
    k: int,
) -> Seq<(Seq<char>, Seq<ColumnModel>)>
    decreases k,
{
    if k <= 0 {
        Seq::empty()
    } else {
        let prev = spec_data_entries(vars, vals, k - 1);
        match vals[k - 1]@ {
            TaskValueModel::Scalar(_) => prev,
            TaskValueModel::Table(tm) => prev.push((vars[k - 1].var.variable.name@, tm)),
        }
    }
}

/// How many input/value pairs line up: the shorter of the two lists.
pub open spec fn zip_len(vars: Seq<InputVariable>, vals: Seq<TaskValue>) -> int {
    if vars.len() <= vals.len() {
        vars.len() as int
    } else {
        vals.len() as int
    }
}

/// Build the compilation scope from a task's declared inputs and their
/// resolved values, pairing them positionally: each scalar value joins
/// the signal scope, each table the data scope, under the input
/// variable's name.
pub fn build_compilation_config(input_vars: &Vec<InputVariable>, values: &Vec<TaskValue>) -> (r:
    CompilationConfig)
    ensures
        sig_scope_model(r.signal_scope@) == spec_sig_entries(
            input_vars@,
            values@,
            zip_len(input_vars@, values@),
        ),
        data_scope_model(r.data_scope@) == spec_data_entries(
            input_vars@,
            values@,
            zip_len(input_vars@, values@),
        ),
{
    let mut signal_scope: Vec<(String, ScalarVal)> = Vec::new();
    let mut data_scope: Vec<(String, Table)> = Vec::new();
    let n = if input_vars.len() <= values.len() {
        input_vars.len()
    } else {
        values.len()
    };
    let mut i: usize = 0;
    while i < n
        invariant
            i <= n,
            n == zip_len(input_vars@, values@),
            n <= input_vars@.len(),
            n <= values@.len(),
            sig_scope_model(signal_scope@) == spec_sig_entries(input_vars@, values@, i as int),
            data_scope_model(data_scope@) == spec_data_entries(input_vars@, values@, i as int),
        decreases n - i,
    {
        let name = input_vars[i].var.variable.name.clone();
        let ghost sig0 = signal_scope@;
        let ghost dat0 = data_scope@;
        match &values[i] {
            TaskValue::Scalar(v) => {
                signal_scope.push((name, clone_scalar(v)));
                proof {
                    assert(sig_scope_model(signal_scope@) =~= sig_scope_model(sig0).push(
                        (input_vars@[i as int].var.variable.name@, values@[i as int]@->Scalar_0),
                    ));
                }
            }
            TaskValue::Table(t) => {
                data_scope.push((name, clone_table(t)));
                proof {
                    assert(data_scope_model(data_scope@) =~= data_scope_model(dat0).push(
                        (input_vars@[i as int].var.variable.name@, values@[i as int]@->Table_0),
                    ));
                }
            }
        }
        i = i + 1;
    }
    CompilationConfig { signal_scope, data_scope }
}

// ---------------------------------------------------------------------
// The task variants. What an outside collaborator computes (the
// compiled URL expression's value, a transform pipeline's output) is
// handed in as an argument; each function here pins down exactly what
// the task does with it.
// ---------------------------------------------------------------------

/// An attached transform pipeline, as the task sees it: how many
/// transforms it chains (the operators themselves are the execution
/// engine's) and which side-output variables it emits.
#[derive(Debug)]
pub struct TransformPipeline {
    pub transform_count: usize,
    pub output_vars: Vec<crate::variable::ScopedVariable>,
}

/// Whether an optional pipeline actually transforms anything.
pub open spec fn pipeline_active(p: &Option<TransformPipeline>) -> bool {
    match p {
        Some(pl) => pl.transform_count > 0,
        None => false,
    }
}

fn is_pipeline_active(p: &Option<TransformPipeline>) -> (r: bool)
    ensures
        r == pipeline_active(p),
{
    match p {
        Some(pl) => pl.transform_count > 0,
        None => false,
    }
}

/// Fold a raw table and an optional pipeline result into a task's
/// output pair: with an active pipeline the transformed table and its
/// side outputs, otherwise the raw table and no side outputs.
fn finish_with_pipeline(
    pipeline: &Option<TransformPipeline>,
    raw: Table,
    pipeline_result: Option<(Table, Vec<TaskValue>)>,
) -> (r: Result<(TaskValue, Vec<TaskValue>), VegaFusionError>)
    ensures
        !pipeline_active(pipeline) ==> match r {
            Ok((v, outs)) => v == TaskValue::Table(raw) && outs@.len() == 0,
            Err(_) => false,
        },
        pipeline_active(pipeline) ==> match pipeline_result {
            Some((t, outs)) => r == Ok::<(TaskValue, Vec<TaskValue>), VegaFusionError>(
                (TaskValue::Table(t), outs),
            ),
            None => r is Err && r->Err_0 is Internal,
        },
{
    if is_pipeline_active(pipeline) {
        match pipeline_result {
            Some((t, outs)) => Ok((TaskValue::Table(t), outs)),
            None => Err(
                VegaFusionError::internal("An active pipeline needs its transform result"),
            ),
        }
    } else {
        Ok((TaskValue::Table(raw), Vec::new()))
    }
}

/// The source of a URL-backed dataset: a literal, or an expression the
/// expression compiler evaluates against the signal scope.
#[derive(Debug)]
pub enum UrlSource {
    Literal(String),
    Expr(String),
}

/// Which ingestion format a URL's extension selects.
#[derive(Debug, Clone, Copy, PartialEq, Eq, Structural)]
pub enum DataFormat {
    Csv,
    Tsv,
    Json,
}

/// `s` ends with `suffix`.
pub open spec fn spec_has_suffix(s: Seq<char>, suffix: Seq<char>) -> bool {
    s.len() >= suffix.len() && s.subrange(s.len() - suffix.len(), s.len() as int) == suffix
}

/// Suffix test on character views.
pub fn has_suffix(s: &str, suffix: &str) -> (r: bool)
    ensures
        r == spec_has_suffix(s@, suffix@),
{
    let n = s.unicode_len();
    let m = suffix.unicode_len();
    if n < m {
        return false;
    }
    let mut i: usize = 0;
    while i < m
        invariant
            i <= m,
            m <= n,
            n == s@.len(),
            m == suffix@.len(),
            forall|j: int| 0 <= j < i ==> s@[n - m + j] == suffix@[j],
        decreases m - i,
    {
        if s.get_char(n - m + i) != suffix.get_char(i) {
            proof {
                assert(s@.subrange(n - m, n as int)[i as int] != suffix@[i as int]);
            }
            return false;
        }
        i = i + 1;
    }
    proof {
        assert(s@.subrange(n - m, n as int) =~= suffix@);
    }
    true
}

/// A URL-sourced dataset task: resolve the URL, ingest the content,
/// reinterpret declared date columns, then run the attached pipeline.
#[derive(Debug)]
pub struct DataUrlTask {
    pub url: UrlSource,
    pub batch_size: u32,
    /// Column names the chart's format declaration types as dates.
    pub format_date_fields: Vec<String>,
    pub pipeline: Option<TransformPipeline>,
    pub input_vars: Vec<InputVariable>,
}

impl DataUrlTask {
    /// The URL to load: the literal itself, or the string scalar the
    /// expression compiler produced for the URL expression. A missing
    /// or non-string expression value is an error.
    pub fn resolve_url(&self, url_value: Option<&ScalarVal>) -> (r: Result<
        String,
        VegaFusionError,
    >)
        ensures
            match self.url {
                UrlSource::Literal(_) => r is Ok && r->Ok_0@ == self.url->Literal_0@,
                UrlSource::Expr(_) => match url_value {
                    Some(v) => match v@ {
                        ScalarModel::Str(sv) => r is Ok && r->Ok_0@ == sv,
                        _ => r is Err && r->Err_0 is Internal,
                    },
                    None => r is Err && r->Err_0 is Internal,
                },
            },
    {
        match &self.url {
            UrlSource::Literal(u) => Ok(u.clone()),
            UrlSource::Expr(_) => match url_value {
                Some(ScalarVal::Str(u)) => Ok(u.clone()),
                Some(_) => Err(
                    VegaFusionError::internal("URL expression did not evaluate to a string"),
                ),
                None => Err(
                    VegaFusionError::internal("URL expression value was not supplied"),
                ),
            },
        }
    }

    /// Pick the ingestion format from the URL's file extension; any
    /// other extension is invalid and named in the error.
    pub fn classify_url(url: &str) -> (r: Result<DataFormat, VegaFusionError>)
        ensures
            spec_has_suffix(url@, ".csv"@) ==> r == Ok::<DataFormat, VegaFusionError>(
                DataFormat::Csv,
            ),
            !spec_has_suffix(url@, ".csv"@) && spec_has_suffix(url@, ".tsv"@) ==> r == Ok::<
                DataFormat,
                VegaFusionError,
            >(DataFormat::Tsv),
            !spec_has_suffix(url@, ".csv"@) && !spec_has_suffix(url@, ".tsv"@) && spec_has_suffix(
                url@,
                ".json"@,
            ) ==> r == Ok::<DataFormat, VegaFusionError>(DataFormat::Json),
            !spec_has_suffix(url@, ".csv"@) && !spec_has_suffix(url@, ".tsv"@)
                && !spec_has_suffix(url@, ".json"@) ==> r is Err && r->Err_0 is Internal
                && r->Err_0.spec_message() == "Invalid url file extension "@ + url@,
    {
        if has_suffix(url, ".csv") {
            Ok(DataFormat::Csv)
        } else if has_suffix(url, ".tsv") {
            Ok(DataFormat::Tsv)
        } else if has_suffix(url, ".json") {
            Ok(DataFormat::Json)
        } else {
            let msg = "Invalid url file extension ".to_owned().concat(url);
            Err(VegaFusionError::Internal(msg))
        }
    }

    /// Reinterpret the ingested table's declared date columns, then
    /// fold in the pipeline result.
    pub fn eval_fetched(&self, raw: Table, pipeline_result: Option<(Table, Vec<TaskValue>)>) -> (r:
        Result<(TaskValue, Vec<TaskValue>), VegaFusionError>)
        ensures
            match spec_parse_date_columns(raw@, names_model(self.format_date_fields@)) {
                None => r is Err && r->Err_0 is External,
                Some(fixed) => {
                    &&& !pipeline_active(&self.pipeline) ==> match r {
                        Ok((v, outs)) => v@ == TaskValueModel::Table(fixed) && outs@.len() == 0,
                        Err(_) => false,
                    }
                    &&& pipeline_active(&self.pipeline) ==> match pipeline_result {
                        Some((t, outs)) => r == Ok::<(TaskValue, Vec<TaskValue>), VegaFusionError>(
                            (TaskValue::Table(t), outs),
                        ),
                        None => r is Err && r->Err_0 is Internal,
                    }
                },
            },
    {
        let fixed = parse_date_columns(raw, &self.format_date_fields)?;
        finish_with_pipeline(&self.pipeline, fixed, pipeline_result)
    }
}

/// An inline-values dataset task: its data travels as an embedded
/// columnar byte block.
#[derive(Debug)]
pub struct DataValuesTask {
    pub values: Vec<u8>,
    pub pipeline: Option<TransformPipeline>,
    pub input_vars: Vec<InputVariable>,
}

impl DataValuesTask {
    /// Decode the embedded byte block, then fold in the pipeline
    /// result. A block that encodes a table decodes to exactly that
    /// table; a scalar block, an incomplete block or malformed bytes
    /// are errors, and the pipeline result is then irrelevant.
    pub fn eval(&self, pipeline_result: Option<(Table, Vec<TaskValue>)>) -> (r: Result<
        (TaskValue, Vec<TaskValue>),
        VegaFusionError,
    >)
        ensures
            match crate::codec::sdec_value(self.values@, 0) {
                None => r is Err,
                Some((m, p)) => !(m is Table && p == self.values@.len()) ==> r is Err,
            },
            forall|tm: Seq<ColumnModel>|
                crate::codec::wire_ok_table(tm) && self.values@ == #[trigger] crate::codec::senc_value(
                    TaskValueModel::Table(tm),
                ) ==> {
                    &&& !pipeline_active(&self.pipeline) ==> match r {
                        Ok((v, outs)) => v@ == TaskValueModel::Table(tm) && outs@.len() == 0,
                        Err(_) => false,
                    }
                    &&& pipeline_active(&self.pipeline) ==> match pipeline_result {
                        Some((t, outs)) => r == Ok::<(TaskValue, Vec<TaskValue>), VegaFusionError>(
                            (TaskValue::Table(t), outs),
                        ),
                        None => r is Err && r->Err_0 is Internal,
                    }
                },
    {
        let decoded = crate::codec::decode_task_value(self.values.as_slice())?;
        match decoded {
            TaskValue::Table(t) => finish_with_pipeline(&self.pipeline, t, pipeline_result),
            TaskValue::Scalar(_) => Err(
                VegaFusionError::internal("Inline values must decode to a table"),
            ),
        }
    }
}

/// A source-derived dataset task: start from a named table already in
/// the data scope, remove it from the scope to avoid self-reference,
/// and run the pipeline over it.
#[derive(Debug)]
pub struct DataSourceTask {
    pub source: String,
    pub pipeline: Option<TransformPipeline>,
    pub input_vars: Vec<InputVariable>,
}

impl DataSourceTask {
    /// Take the source table out of the data scope: the latest entry
    /// under the source name is returned and every entry under that
    /// name is dropped from the scope; the signal scope is untouched.
    /// A missing source is an error and leaves the scope as it was.
    pub fn take_source(&self, config: &mut CompilationConfig) -> (r: Result<
        Table,
        VegaFusionError,
    >)
        ensures
            r is Ok <==> data_lookup(
                data_scope_model(old(config).data_scope@),
                self.source@,
            ) is Some,
            final(config).signal_scope@ == old(config).signal_scope@,
            r is Err ==> r->Err_0 is Internal && final(config).data_scope@ == old(
                config,
            ).data_scope@,
            r is Ok ==> Some(r->Ok_0@) == data_lookup(
                data_scope_model(old(config).data_scope@),
                self.source@,
            ) && data_scope_model(final(config).data_scope@) == model_without(
                data_scope_model(old(config).data_scope@),
                self.source@,
                old(config).data_scope@.len() as int,
            ),
    {
        let n = config.data_scope.len();
        let ghost m0 = data_scope_model(config.data_scope@);
        let mut kept: Vec<(String, Table)> = Vec::new();
        let mut found: Option<Table> = None;
        let mut i: usize = 0;
        while i < n
            invariant
                i <= n,
                n == config.data_scope@.len(),
                m0 == data_scope_model(config.data_scope@),
                data_scope_model(kept@) == model_without(m0, self.source@, i as int),
                match found {
                    Some(t) => Some(t@) == data_lookup(m0.take(i as int), self.source@),
                    None => data_lookup(m0.take(i as int), self.source@) is None,
                },
            decreases n - i,
        {
            let ghost kept0 = kept@;
            let entry_name_matches = crate::table::string_eq_str(
                &config.data_scope[i].0,
                self.source.as_str(),
            );
            if entry_name_matches {
                found = Some(clone_table(&config.data_scope[i].1));
            } else {
                let name = config.data_scope[i].0.clone();
                let table = clone_table(&config.data_scope[i].1);
                kept.push((name, table));
                proof {
                    assert(data_scope_model(kept@) =~= data_scope_model(kept0).push(
                        (m0[i as int].0, m0[i as int].1),
                    ));
                }
            }
            proof {
                assert(m0.take(i + 1 as int).drop_last() =~= m0.take(i as int));
                assert(m0.take(i + 1 as int).last() == m0[i as int]);
            }
            i = i + 1;
        }
        proof {
            assert(m0.take(n as int) =~= m0);
        }
        match found {
            Some(t) => {
                config.data_scope = kept;
                Ok(t)
            }
            None => Err(VegaFusionError::internal("Source table is not in the data scope")),
        }
    }

    /// Take the source table out of the scope, then fold in the
    /// pipeline result. The scope ends as `take_source` leaves it: the
    /// signal scope untouched; the data scope without the source on
    /// success, unchanged on a missing source.
    pub fn eval(&self, config: &mut CompilationConfig, pipeline_result: Option<
        (Table, Vec<TaskValue>),
    >) -> (r: Result<(TaskValue, Vec<TaskValue>), VegaFusionError>)
        ensures
            final(config).signal_scope@ == old(config).signal_scope@,
            data_lookup(data_scope_model(old(config).data_scope@), self.source@) is None ==> r
                is Err && final(config).data_scope@ == old(config).data_scope@,
            data_lookup(data_scope_model(old(config).data_scope@), self.source@) is Some
                ==> data_scope_model(final(config).data_scope@) == model_without(
                data_scope_model(old(config).data_scope@),
                self.source@,
                old(config).data_scope@.len() as int,
            ),
            match data_lookup(data_scope_model(old(config).data_scope@), self.source@) {
                None => r is Err && r->Err_0 is Internal,
                Some(src) => {
                    &&& !pipeline_active(&self.pipeline) ==> match r {
                        Ok((v, outs)) => v@ == TaskValueModel::Table(src) && outs@.len() == 0,
                        Err(_) => false,
                    }
                    &&& pipeline_active(&self.pipeline) ==> match pipeline_result {
                        Some((t, outs)) => r == Ok::<(TaskValue, Vec<TaskValue>), VegaFusionError>(
                            (TaskValue::Table(t), outs),
                        ),
                        None => r is Err && r->Err_0 is Internal,
                    }
                },
            },
    {
        let source_table = self.take_source(config)?;
        finish_with_pipeline(&self.pipeline, source_table, pipeline_result)
    }
}

// ---------------------------------------------------------------------
// Date reinterpretation: string columns the format declaration types
// as dates become canonical millisecond timestamps. Dates are read as
// "YYYY-MM-DD" in the proleptic Gregorian calendar, UTC.
// ---------------------------------------------------------------------

pub open spec fn spec_is_digit(c: char) -> bool {
    48 <= c as u32 && c as u32 <= 57
}

pub open spec fn spec_digit(c: char) -> int {
    c as u32 - 48
}

pub open spec fn spec_is_leap(y: int) -> bool {
    (y % 4 == 0 && y % 100 != 0) || y % 400 == 0
}

/// Leap years in `[1970, y)`: the count below `y` minus the 477
/// leap years below 1970.
pub open spec fn spec_leaps_before(y: int) -> int {
    ((y - 1) / 4 - (y - 1) / 100 + (y - 1) / 400) - 477
}

/// Days of the year before month `m` begins.
pub open spec fn spec_month_offset(m: int, leap: bool) -> int {
    let base: int = if m == 1 {
        0
    } else if m == 2 {
        31
    } else if m == 3 {
        59
    } else if m == 4 {
        90
    } else if m == 5 {
        120
    } else if m == 6 {
        151
    } else if m == 7 {
        181
    } else if m == 8 {
        212
    } else if m == 9 {
        243
    } else if m == 10 {
        273
    } else if m == 11 {
        304
    } else {
        334
    };
    if leap && m > 2 {
        base + 1
    } else {
        base
    }
}

pub open spec fn spec_days_in_month(m: int, leap: bool) -> int {
    if m == 2 {
        if leap {
            29
        } else {
            28
        }
    } else if m == 4 || m == 6 || m == 9 || m == 11 {
        30
    } else {
        31
    }
}

/// The supported canonical range: the Unix epoch up to year 9999.
pub open spec fn spec_date_valid(y: int, m: int, d: int) -> bool {
    1970 <= y <= 9999 && 1 <= m <= 12 && 1 <= d <= spec_days_in_month(m, spec_is_leap(y))
}

/// Days since the Unix epoch.
pub open spec fn spec_epoch_days(y: int, m: int, d: int) -> int {
    (y - 1970) * 365 + spec_leaps_before(y) + spec_month_offset(m, spec_is_leap(y)) + (d - 1)
}

/// Milliseconds since the Unix epoch of "YYYY-MM-DD", if the string
/// has that shape and names a real date in range.
pub open spec fn spec_parse_date(s: Seq<char>) -> Option<i64> {
    if s.len() == 10 && spec_is_digit(s[0]) && spec_is_digit(s[1]) && spec_is_digit(s[2])
        && spec_is_digit(s[3]) && s[4] == '-' && spec_is_digit(s[5]) && spec_is_digit(s[6]) && s[7]
        == '-' && spec_is_digit(s[8]) && spec_is_digit(s[9]) {
        let y = spec_digit(s[0]) * 1000 + spec_digit(s[1]) * 100 + spec_digit(s[2]) * 10
            + spec_digit(s[3]);
        let m = spec_digit(s[5]) * 10 + spec_digit(s[6]);
        let d = spec_digit(s[8]) * 10 + spec_digit(s[9]);
        if spec_date_valid(y, m, d) {
            Some((spec_epoch_days(y, m, d) * 86400000) as i64)
        } else {
            None
        }
    } else {
        None
    }
}

/// Parse a "YYYY-MM-DD" date string to canonical milliseconds. This
/// is the one date shape the canonical representation accepts; any
/// other layout the chart's format declaration might carry is
/// rejected, not guessed at.
pub fn parse_date(s: &str) -> (r: Option<i64>)
    ensures
        r == spec_parse_date(s@),
{
    let n = s.unicode_len();
    if n != 10 {
        return None;
    }
    let c0 = s.get_char(0);
    let c1 = s.get_char(1);
    let c2 = s.get_char(2);
    let c3 = s.get_char(3);
    let c4 = s.get_char(4);
    let c5 = s.get_char(5);
    let c6 = s.get_char(6);
    let c7 = s.get_char(7);
    let c8 = s.get_char(8);
    let c9 = s.get_char(9);
    if !(is_digit(c0) && is_digit(c1) && is_digit(c2) && is_digit(c3) && c4 == '-' && is_digit(c5)
        && is_digit(c6) && c7 == '-' && is_digit(c8) && is_digit(c9)) {
        return None;
    }
    let y: i64 = digit(c0) * 1000 + digit(c1) * 100 + digit(c2) * 10 + digit(c3);
    let m: i64 = digit(c5) * 10 + digit(c6);
    let d: i64 = digit(c8) * 10 + digit(c9);
    if !(1970 <= y && m >= 1 && m <= 12) {
        return None;
    }
    let leap: bool = (y % 4 == 0 && y % 100 != 0) || y % 400 == 0;
    let dim: i64 = if m == 2 {
        if leap {
            29
        } else {
            28
        }
    } else if m == 4 || m == 6 || m == 9 || m == 11 {
        30
    } else {
        31
    };
    if !(1 <= d && d <= dim) {
        return None;
    }
    let leaps: i64 = ((y - 1) / 4 - (y - 1) / 100 + (y - 1) / 400) - 477;
    let moff: i64 = month_offset(m, leap);
    let days: i64 = (y - 1970) * 365 + leaps + moff + (d - 1);
    Some(days * 86400000)
}

fn is_digit(c: char) -> (r: bool)
    ensures
        r == spec_is_digit(c),
{
    let x = c as u32;
    48 <= x && x <= 57
}

fn digit(c: char) -> (r: i64)
    requires
        spec_is_digit(c),
    ensures
        r == spec_digit(c),
{
    (c as u32 - 48) as i64
}

fn month_offset(m: i64, leap: bool) -> (r: i64)
    requires
        1 <= m <= 12,
    ensures
        r == spec_month_offset(m as int, leap),
{
    let base: i64 = if m == 1 {
        0
    } else if m == 2 {
        31
    } else if m == 3 {
        59
    } else if m == 4 {
        90
    } else if m == 5 {
        120
    } else if m == 6 {
        151
    } else if m == 7 {
        181
    } else if m == 8 {
        212
    } else if m == 9 {
        243
    } else if m == 10 {
        273
    } else if m == 11 {
        304
    } else {
        334
    };
    if leap && m > 2 {
        base + 1
    } else {
        base
    }
}

/// The date cells of one string column, if every cell parses.
pub open spec fn spec_parse_date_cells(cells: Seq<Seq<char>>) -> Option<Seq<i64>>
    decreases cells.len(),
{
    if cells.len() == 0 {
        Some(Seq::empty())
    } else {
        match spec_parse_date_cells(cells.drop_last()) {
            None => None,
            Some(ds) => match spec_parse_date(cells.last()) {
                None => None,
                Some(d) => Some(ds.push(d)),
            },
        }
    }
}

pub open spec fn names_model(names: Seq<String>) -> Seq<Seq<char>> {
    names.map_values(|s: String| s@)
}

pub open spec fn name_in(names: Seq<Seq<char>>, name: Seq<char>) -> bool {
    exists|i: int| 0 <= i < names.len() && names[i] == name
}

/// The table after date reinterpretation: each string column whose
/// name is flagged becomes a date column of its parsed cells; any
/// unparsable cell fails the whole table; other columns are untouched.
pub open spec fn spec_parse_date_columns(t: Seq<ColumnModel>, flagged: Seq<Seq<char>>) -> Option<
    Seq<ColumnModel>,
>
    decreases t.len(),
{
    if t.len() == 0 {
        Some(Seq::empty())
    } else {
        match spec_parse_date_columns(t.drop_last(), flagged) {
            None => None,
            Some(cols) => {
                let c = t.last();
                match c.data {
                    ColDataModel::Strs(cells) => if name_in(flagged, c.name) {
                        match spec_parse_date_cells(cells) {
                            None => None,
                            Some(ds) => Some(
                                cols.push(ColumnModel { name: c.name, data: ColDataModel::Dates(ds) }),
                            ),
                        }
                    } else {
                        Some(cols.push(c))
                    },
                    _ => Some(cols.push(c)),
                }
            }
        }
    }
}

fn name_in_list(names: &Vec<String>, name: &String) -> (r: bool)
    ensures
        r == name_in(names_model(names@), name@),
{
    let n = names.len();
    let mut i: usize = 0;
    while i < n
        invariant
            i <= n,
            n == names@.len(),
            forall|j: int| 0 <= j < i ==> names_model(names@)[j] != name@,
        decreases n - i,
    {
        if crate::table::string_eq_str(&names[i], name.as_str()) {
            proof {
                assert(names_model(names@)[i as int] == name@);
            }
            return true;
        }
        i = i + 1;
    }
    false
}

/// Parse every flagged string column's cells as dates.
pub fn parse_date_columns(t: Table, flagged: &Vec<String>) -> (r: Result<Table, VegaFusionError>)
    ensures
        match spec_parse_date_columns(t@, names_model(flagged@)) {
            None => r is Err && r->Err_0 is External,
            Some(cols) => r is Ok && r->Ok_0@ == cols,
        },
{
    let ghost t0 = t@;
    let ghost fl = names_model(flagged@);
    let n = t.columns.len();
    let mut out: Vec<Column> = Vec::new();
    let mut i: usize = 0;
    while i < n
        invariant
            i <= n,
            n == t.columns@.len(),
            t0 == t@,
            fl == names_model(flagged@),
            Some(out@.map_values(|c: Column| c@)) == spec_parse_date_columns(
                t0.take(i as int),
                fl,
            ),
        decreases n - i,
    {
        let ghost out0 = out@;
        let col = &t.columns[i];
        let flagged_col = name_in_list(flagged, &col.name);
        let is_strs = match &col.data {
            ColumnData::Strs(_) => true,
            _ => false,
        };
        if flagged_col && is_strs {
            let cells = get_strs(&col.data);
            let m = cells.len();
            let ghost cm = col.data@->Strs_0;
            let mut dates: Vec<i64> = Vec::new();
            let mut j: usize = 0;
            while j < m
                invariant
                    j <= m,
                    m == cells@.len(),
                    cm == cells@.map_values(|s: String| s@),
                    Some(dates@) == spec_parse_date_cells(cm.take(j as int)),
                    i < n,
                    n == t.columns@.len(),
                    t0 == t@,
                    fl == names_model(flagged@),
                    t0[i as int].data is Strs,
                    name_in(fl, t0[i as int].name),
                    cm == t0[i as int].data->Strs_0,
                decreases m - j,
            {
                let ghost dates0 = dates@;
                match parse_date(cells[j].as_str()) {
                    Some(d) => {
                        dates.push(d);
                    }
                    None => {
                        proof {
                            lemma_parse_cells_prefix_none(cm, j as int);
                            lemma_parse_columns_none(t0, fl, i as int);
                        }
                        return Err(
                            VegaFusionError::external("A declared date column holds an unparsable date"),
                        );
                    }
                }
                proof {
                    assert(cm.take(j + 1 as int).drop_last() =~= cm.take(j as int));
                    assert(cm.take(j + 1 as int).last() == cm[j as int]);
                }
                j = j + 1;
            }
            proof {
                assert(cm.take(m as int) =~= cm);
            }
            out.push(
                Column { name: col.name.clone(), data: ColumnData::Dates(dates) },
            );
            proof {
                assert(t0.take(i + 1 as int).drop_last() =~= t0.take(i as int));
                assert(t0.take(i + 1 as int).last() == t0[i as int]);
                assert(out@.map_values(|c: Column| c@) =~= out0.map_values(|c: Column| c@).push(
                    out@.last()@,
                ));
            }
        } else {
            out.push(clone_column(col));
            proof {
                assert(t0.take(i + 1 as int).drop_last() =~= t0.take(i as int));
                assert(t0.take(i + 1 as int).last() == t0[i as int]);
                assert(out@.map_values(|c: Column| c@) =~= out0.map_values(|c: Column| c@).push(
                    out@.last()@,
                ));
            }
        }
        i = i + 1;
    }
    proof {
        assert(t0.take(n as int) =~= t0);
    }
    Ok(Table { columns: out })
}

/// If one flagged string column fails to parse, the whole table
/// fails, whatever the other columns hold.
proof fn lemma_parse_columns_none(t: Seq<ColumnModel>, flagged: Seq<Seq<char>>, i: int)
    requires
        0 <= i < t.len(),
        t[i].data is Strs,
        name_in(flagged, t[i].name),
        spec_parse_date_cells(t[i].data->Strs_0) is None,
    ensures
        spec_parse_date_columns(t, flagged) is None,
    decreases t.len(),
{
    if i < t.len() - 1 {
        lemma_parse_columns_none(t.drop_last(), flagged, i);
    }
}

/// If one cell of a column fails to parse, the whole column fails,
/// whatever the later cells hold.
proof fn lemma_parse_cells_prefix_none(cells: Seq<Seq<char>>, j: int)
    requires
        0 <= j < cells.len(),
        spec_parse_date(cells[j]) is None,
    ensures
        spec_parse_date_cells(cells) is None,
    decreases cells.len(),
{
    if cells.len() > 0 {
        if j == cells.len() - 1 {
        } else {
            lemma_parse_cells_prefix_none(cells.drop_last(), j);
        }
    }
}

fn get_strs(d: &ColumnData) -> (r: &Vec<String>)
    requires
        d@ is Strs,
    ensures
        r@.map_values(|s: String| s@) == d@->Strs_0,
{
    match d {
        ColumnData::Strs(v) => v,
        _ => {
            proof {
                assert(false);
            }
            loop
                invariant
                    false,
                decreases 0int,
            {
            }
        }
    }
}

} // verus!
