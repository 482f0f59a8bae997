use vegafusion_core::codec::{decode_task_value, encode_task_value};
use vegafusion_core::ingest::{csv_read_options, read_csv, read_json, table_from_rows};
use vegafusion_core::json::{JsonLeaf, JsonVal};
use vegafusion_core::scalar::ScalarVal;
use vegafusion_core::table::{Column, ColumnData, Table};
use vegafusion_core::task_value::TaskValue;
use vegafusion_core::tasks::{parse_date, parse_date_columns, DataUrlTask, DataFormat, UrlSource, TransformPipeline};

fn col_data_equal(a: &ColumnData, b: &ColumnData) -> bool {
    match (a, b) {
        (ColumnData::Bools(x), ColumnData::Bools(y)) => x == y,
        (ColumnData::Nums(x), ColumnData::Nums(y)) => x == y,
        (ColumnData::Strs(x), ColumnData::Strs(y)) => x == y,
        (ColumnData::Dates(x), ColumnData::Dates(y)) => x == y,
        _ => false,
    }
}

fn tables_equal(a: &Table, b: &Table) -> bool {
    a.columns.len() == b.columns.len()
        && a.columns
            .iter()
            .zip(b.columns.iter())
            .all(|(x, y)| x.name == y.name && col_data_equal(&x.data, &y.data))
}

fn values_equal(a: &TaskValue, b: &TaskValue) -> bool {
    match (a, b) {
        (TaskValue::Scalar(x), TaskValue::Scalar(y)) => x.same_as(y),
        (TaskValue::Table(x), TaskValue::Table(y)) => tables_equal(x, y),
        _ => false,
    }
}

fn sample_table() -> Table {
    Table {
        columns: vec![
            Column {
                name: "city".to_string(),
                data: ColumnData::Strs(vec![
                    "Oslo".to_string(),
                    "Lima".to_string(),
                    "Pune".to_string(),
                ]),
            },
            Column {
                name: "count".to_string(),
                data: ColumnData::Nums(vec![4, -7, 9000]),
            },
            Column {
                name: "active".to_string(),
                data: ColumnData::Bools(vec![true, false, true]),
            },
            Column {
                name: "day".to_string(),
                data: ColumnData::Dates(vec![0, 86400000, 1583020800000]),
            },
        ],
    }
}

#[test]
fn round_trip_scalars() {
    let scalars = vec![
        ScalarVal::Null,
        ScalarVal::Bool(true),
        ScalarVal::Bool(false),
        ScalarVal::Num(0),
        ScalarVal::Num(-123456789),
        ScalarVal::Num(i64::MAX),
        ScalarVal::Num(i64::MIN),
        ScalarVal::Str(String::new()),
        ScalarVal::Str("hello world".to_string()),
        ScalarVal::Str("snøfall — 雪".to_string()),
        ScalarVal::Date(1583020800000),
    ];
    for s in scalars {
        let v = TaskValue::Scalar(s);
        let bytes = encode_task_value(&v);
        let back = decode_task_value(&bytes).expect("a fresh encoding must decode");
        assert!(values_equal(&v, &back));
    }
}

#[test]
fn round_trip_table() {
    let v = TaskValue::Table(sample_table());
    let bytes = encode_task_value(&v);
    let back = decode_task_value(&bytes).expect("a fresh encoding must decode");
    assert!(values_equal(&v, &back));
}

#[test]
fn round_trip_empty_table() {
    let v = TaskValue::Table(Table { columns: Vec::new() });
    let bytes = encode_task_value(&v);
    let back = decode_task_value(&bytes).expect("a fresh encoding must decode");
    assert!(values_equal(&v, &back));
}

#[test]
fn scalar_encoding_is_compact() {
    // value tag + scalar tag + one 64-bit payload
    let bytes = encode_task_value(&TaskValue::Scalar(ScalarVal::Num(42)));
    assert_eq!(bytes.len(), 10);
}

#[test]
fn decode_rejects_garbage() {
    assert!(decode_task_value(&[]).is_err());
    assert!(decode_task_value(&[9, 9, 9]).is_err());
    // A valid encoding with trailing bytes is rejected too.
    let mut bytes = encode_task_value(&TaskValue::Scalar(ScalarVal::Null));
    bytes.push(0);
    assert!(decode_task_value(&bytes).is_err());
}

#[test]
fn as_scalar_and_as_table_split_the_variants() {
    let s = TaskValue::Scalar(ScalarVal::Num(5));
    let t = TaskValue::Table(sample_table());
    assert!(s.as_scalar().is_ok());
    assert!(s.as_table().is_err());
    assert!(t.as_table().is_ok());
    assert!(t.as_scalar().is_err());
    assert!(s.as_table().unwrap_err().message().contains("not a table"));
    assert!(t.as_scalar().unwrap_err().message().contains("not a scalar"));
}

#[test]
fn size_of_counts_header_and_payload() {
    // 48-byte header + 8-byte numeric payload
    assert_eq!(TaskValue::Scalar(ScalarVal::Num(1)).size_of(), 56);
    // 48 + (8 + string length)
    assert_eq!(
        TaskValue::Scalar(ScalarVal::Str("abcd".to_string())).size_of(),
        60
    );
}

#[test]
fn to_json_scalar_and_table() {
    match TaskValue::Scalar(ScalarVal::Date(77)).to_json() {
        JsonVal::Leaf(JsonLeaf::Num(n)) => assert_eq!(n, 77),
        other => panic!("expected a numeric leaf, got {:?}", other),
    }
    let t = Table {
        columns: vec![
            Column {
                name: "a".to_string(),
                data: ColumnData::Nums(vec![1, 2]),
            },
            Column {
                name: "b".to_string(),
                data: ColumnData::Strs(vec!["x".to_string(), "y".to_string()]),
            },
        ],
    };
    match TaskValue::Table(t).to_json() {
        JsonVal::Rows(rows) => {
            assert_eq!(rows.len(), 2);
            assert_eq!(rows[0].len(), 2);
            assert_eq!(rows[1][0].0, "a");
            match &rows[1][0].1 {
                JsonLeaf::Num(n) => assert_eq!(*n, 2),
                other => panic!("expected a numeric cell, got {:?}", other),
            }
            match &rows[0][1].1 {
                JsonLeaf::Str(s) => assert_eq!(s, "x"),
                other => panic!("expected a string cell, got {:?}", other),
            }
        }
        other => panic!("expected rows, got {:?}", other),
    }
}

#[test]
fn read_json_parses_rows() {
    let text = r#"[{"x": 5, "name": "a"}, {"x": -2, "name": "b"}]"#;
    let t = read_json(text).expect("well-shaped rows must parse");
    // serde_json's object walk orders keys alphabetically
    assert_eq!(t.columns.len(), 2);
    let expected = Table {
        columns: vec![
            Column {
                name: "name".to_string(),
                data: ColumnData::Strs(vec!["a".to_string(), "b".to_string()]),
            },
            Column {
                name: "x".to_string(),
                data: ColumnData::Nums(vec![5, -2]),
            },
        ],
    };
    assert!(tables_equal(&t, &expected));
}

#[test]
fn read_json_rejects_malformed_content() {
    assert!(read_json("this is not json").is_err());
    assert!(read_json(r#"{"not": "an array"}"#).is_err());
    assert!(read_json(r#"[{"x": 1}, {"y": 1}]"#).is_err());
    assert!(read_json(r#"[{"x": 1}, {"x": "two"}]"#).is_err());
}

#[test]
fn table_from_rows_rejects_ragged_and_duplicate_rows() {
    let ragged = vec![
        vec![("a".to_string(), ScalarVal::Num(1))],
        vec![
            ("a".to_string(), ScalarVal::Num(2)),
            ("b".to_string(), ScalarVal::Num(3)),
        ],
    ];
    assert!(table_from_rows(&ragged).is_err());
    let dup = vec![vec![
        ("a".to_string(), ScalarVal::Num(1)),
        ("a".to_string(), ScalarVal::Num(2)),
    ]];
    assert!(table_from_rows(&dup).is_err());
    let empty: Vec<Vec<(String, ScalarVal)>> = Vec::new();
    assert_eq!(table_from_rows(&empty).unwrap().columns.len(), 0);
}

#[test]
fn parse_date_canonical_values() {
    assert_eq!(parse_date("1970-01-01"), Some(0));
    assert_eq!(parse_date("1970-01-02"), Some(86400000));
    assert_eq!(parse_date("2020-03-01"), Some(1583020800000));
    assert_eq!(parse_date("2000-02-29"), Some(951782400000));
    assert_eq!(parse_date("1900-02-28"), None); // before the epoch
    assert_eq!(parse_date("2021-02-29"), None); // not a leap year
    assert_eq!(parse_date("2021-13-01"), None);
    assert_eq!(parse_date("2021-1-01"), None);
    assert_eq!(parse_date("garbage"), None);
}

#[test]
fn parse_date_columns_reinterprets_flagged_strings() {
    let t = Table {
        columns: vec![
            Column {
                name: "date".to_string(),
                data: ColumnData::Strs(vec![
                    "1970-01-01".to_string(),
                    "1970-01-02".to_string(),
                ]),
            },
            Column {
                name: "v".to_string(),
                data: ColumnData::Nums(vec![1, 2]),
            },
        ],
    };
    let fixed = parse_date_columns(t, &vec!["date".to_string()]).unwrap();
    assert!(col_data_equal(
        &fixed.columns[0].data,
        &ColumnData::Dates(vec![0, 86400000])
    ));
    assert!(col_data_equal(
        &fixed.columns[1].data,
        &ColumnData::Nums(vec![1, 2])
    ));

    let bad = Table {
        columns: vec![Column {
            name: "date".to_string(),
            data: ColumnData::Strs(vec!["not a date".to_string()]),
        }],
    };
    assert!(parse_date_columns(bad, &vec!["date".to_string()]).is_err());
}

#[test]
fn classify_url_by_extension() {
    assert_eq!(DataUrlTask::classify_url("a/b.csv").unwrap(), DataFormat::Csv);
    assert_eq!(DataUrlTask::classify_url("a/b.tsv").unwrap(), DataFormat::Tsv);
    assert_eq!(
        DataUrlTask::classify_url("http://x/y.json").unwrap(),
        DataFormat::Json
    );
    let err = DataUrlTask::classify_url("data.xyz").unwrap_err();
    assert_eq!(err.message().as_str(), "Invalid url file extension data.xyz");
}

#[test]
fn resolve_url_literal_and_expression() {
    let lit = DataUrlTask {
        url: UrlSource::Literal("data/cities.json".to_string()),
        batch_size: 1024,
        format_date_fields: Vec::new(),
        pipeline: None,
        input_vars: Vec::new(),
    };
    assert_eq!(lit.resolve_url(None).unwrap(), "data/cities.json");
    let expr = DataUrlTask {
        url: UrlSource::Expr("base + '/cities.json'".to_string()),
        batch_size: 1024,
        format_date_fields: Vec::new(),
        pipeline: None,
        input_vars: Vec::new(),
    };
    let v = ScalarVal::Str("data/cities.json".to_string());
    assert_eq!(expr.resolve_url(Some(&v)).unwrap(), "data/cities.json");
    assert!(expr.resolve_url(Some(&ScalarVal::Num(3))).is_err());
    assert!(expr.resolve_url(None).is_err());
}

#[test]
fn eval_fetched_without_pipeline_returns_raw_table() {
    let task = DataUrlTask {
        url: UrlSource::Literal("d.json".to_string()),
        batch_size: 1024,
        format_date_fields: Vec::new(),
        pipeline: None,
        input_vars: Vec::new(),
    };
    let raw = sample_table();
    let (value, outs) = task.eval_fetched(sample_table(), None).unwrap();
    assert!(outs.is_empty());
    match value {
        TaskValue::Table(t) => assert!(tables_equal(&t, &raw)),
        other => panic!("expected a table, got {:?}", other),
    }
}

#[test]
fn eval_fetched_with_pipeline_needs_its_result() {
    let task = DataUrlTask {
        url: UrlSource::Literal("d.json".to_string()),
        batch_size: 1024,
        format_date_fields: Vec::new(),
        pipeline: Some(TransformPipeline {
            transform_count: 1,
            output_vars: Vec::new(),
        }),
        input_vars: Vec::new(),
    };
    assert!(task.eval_fetched(sample_table(), None).is_err());
    let transformed = Table {
        columns: vec![Column {
            name: "n".to_string(),
            data: ColumnData::Nums(vec![1]),
        }],
    };
    let (value, outs) = task
        .eval_fetched(sample_table(), Some((transformed, Vec::new())))
        .unwrap();
    assert!(outs.is_empty());
    match value {
        TaskValue::Table(t) => assert_eq!(t.columns[0].name, "n"),
        other => panic!("expected a table, got {:?}", other),
    }
}

#[test]
fn read_csv_parses_header_and_rows() {
    let t = read_csv("a,b\n1,x\n2,y\n", ',').unwrap();
    let expected = Table {
        columns: vec![
            Column {
                name: "a".to_string(),
                data: ColumnData::Strs(vec!["1".to_string(), "2".to_string()]),
            },
            Column {
                name: "b".to_string(),
                data: ColumnData::Strs(vec!["x".to_string(), "y".to_string()]),
            },
        ],
    };
    assert!(tables_equal(&t, &expected));
    // Windows line endings and tab separation read the same way.
    let t2 = read_csv("a\tb\r\n1\tx\r\n2\ty\r\n", '\t').unwrap();
    assert!(tables_equal(&t2, &expected));
}

#[test]
fn read_csv_rejects_malformed_text() {
    assert!(
        read_csv("a,b\n1,2\n3\n", ',').is_err(),
        "rows of differing widths are rejected"
    );
    assert!(read_csv("a,a\n1,2\n", ',').is_err(), "duplicate names are rejected");
    assert_eq!(read_csv("", ',').unwrap().columns.len(), 0);
    assert_eq!(read_csv("a,b\n", ',').unwrap().columns.len(), 0);
}

#[test]
fn csv_options_follow_the_extension() {
    let tsv = csv_read_options("data/x.tsv");
    assert_eq!(tsv.delimiter, 9);
    assert_eq!(tsv.file_extension, ".tsv");
    let csv = csv_read_options("data/x.csv");
    assert_eq!(csv.delimiter, 44);
    assert_eq!(csv.file_extension, ".csv");
    let other = csv_read_options("http://host/x.json");
    assert_eq!(other.delimiter, 44);
}
