use vegafusion_core::codec::encode_task_value;
use vegafusion_core::graph::{TaskDecl, TaskGraph, ValueKind};
use vegafusion_core::ingest::read_json;
use vegafusion_core::runtime::TaskGraphRuntime;
use vegafusion_core::scalar::ScalarVal;
use vegafusion_core::session::{session_step, SessionEvent, SessionState};
use vegafusion_core::stitch::stitch_specs;
use vegafusion_core::table::{Column, ColumnData, Table};
use vegafusion_core::task_value::TaskValue;
use vegafusion_core::tasks::{
    build_compilation_config, DataSourceTask, DataValuesTask, TransformPipeline,
};
use vegafusion_core::variable::{InputVariable, ScopedVariable, Variable, VariableNamespace};

#[test]
fn test_marker() {}

fn data_var(name: &str) -> ScopedVariable {
    ScopedVariable {
        variable: Variable {
            name: name.to_string(),
            namespace: VariableNamespace::Data,
        },
        scope: Vec::new(),
    }
}

fn signal_var(name: &str) -> ScopedVariable {
    ScopedVariable {
        variable: Variable {
            name: name.to_string(),
            namespace: VariableNamespace::Signal,
        },
        scope: Vec::new(),
    }
}

fn decl(out: ScopedVariable, kind: ValueKind, inputs: Vec<ScopedVariable>) -> TaskDecl {
    TaskDecl {
        output_var: out,
        kind,
        input_vars: inputs,
    }
}

fn nums_table(name: &str, cells: Vec<i64>) -> Table {
    Table {
        columns: vec![Column {
            name: name.to_string(),
            data: ColumnData::Nums(cells),
        }],
    }
}

fn tables_equal(a: &Table, b: &Table) -> bool {
    a.columns.len() == b.columns.len()
        && a.columns.iter().zip(b.columns.iter()).all(|(x, y)| {
            x.name == y.name
                && match (&x.data, &y.data) {
                    (ColumnData::Bools(p), ColumnData::Bools(q)) => p == q,
                    (ColumnData::Nums(p), ColumnData::Nums(q)) => p == q,
                    (ColumnData::Strs(p), ColumnData::Strs(q)) => p == q,
                    (ColumnData::Dates(p), ColumnData::Dates(q)) => p == q,
                    _ => false,
                }
        })
}

#[test]
fn graph_construction_resolves_inputs() {
    let tasks = vec![
        decl(signal_var("a"), ValueKind::Scalar, vec![]),
        decl(data_var("d"), ValueKind::Table, vec![signal_var("a")]),
    ];
    let g = TaskGraph::new(&tasks).unwrap();
    assert_eq!(g.node_count(), 2);
    let mapping = g.build_mapping();
    assert_eq!(mapping.len(), 2);
    assert_eq!(mapping[1].1, 1);
    assert!(mapping[0].0.same_as(&signal_var("a")));
}

#[test]
fn graph_construction_rejects_unresolved_and_duplicates() {
    let unresolved = vec![decl(data_var("d"), ValueKind::Table, vec![signal_var("missing")])];
    assert!(TaskGraph::new(&unresolved).is_err());
    let duplicated = vec![
        decl(signal_var("a"), ValueKind::Scalar, vec![]),
        decl(signal_var("a"), ValueKind::Scalar, vec![]),
    ];
    assert!(TaskGraph::new(&duplicated).is_err());
    // a reference to a later task is a cycle under the caller's order
    let forward = vec![
        decl(signal_var("a"), ValueKind::Scalar, vec![signal_var("b")]),
        decl(signal_var("b"), ValueKind::Scalar, vec![]),
    ];
    assert!(TaskGraph::new(&forward).is_err());
}

fn chain_graph() -> TaskGraph {
    // 0 -> 1 -> 2, and 3 independent
    let tasks = vec![
        decl(signal_var("a"), ValueKind::Scalar, vec![]),
        decl(signal_var("b"), ValueKind::Scalar, vec![signal_var("a")]),
        decl(signal_var("c"), ValueKind::Scalar, vec![signal_var("b")]),
        decl(signal_var("z"), ValueKind::Scalar, vec![]),
    ];
    TaskGraph::new(&tasks).unwrap()
}

#[test]
fn dirty_propagation_marks_descendants_only() {
    let mut g = chain_graph();
    let rt = TaskGraphRuntime::new(10).unwrap();
    for i in 0..4 {
        rt.store_result(&mut g, i, TaskValue::Scalar(ScalarVal::Num(i as i64)))
            .unwrap();
    }
    g.update_value(0, TaskValue::Scalar(ScalarVal::Num(100)))
        .unwrap();
    assert!(!g.nodes[0].dirty, "the overridden node is fresh again");
    assert!(g.nodes[1].dirty, "a child is stale");
    assert!(g.nodes[2].dirty, "a grandchild is stale");
    assert!(!g.nodes[3].dirty, "an unrelated node is untouched");
    // The unrelated node's cached value is served without re-evaluation.
    let v = rt.get_node_value(&g, 3).unwrap();
    match v {
        Some(TaskValue::Scalar(s)) => assert!(s.same_as(&ScalarVal::Num(3))),
        other => panic!("expected the cached scalar, got {:?}", other),
    }
    assert_eq!(rt.next_to_evaluate(&g, 3).unwrap(), None);
}

#[test]
fn override_with_wrong_variant_is_rejected_and_harmless() {
    let mut g = chain_graph();
    let rt = TaskGraphRuntime::new(10).unwrap();
    rt.store_result(&mut g, 0, TaskValue::Scalar(ScalarVal::Num(7)))
        .unwrap();
    let r = g.update_value(0, TaskValue::Table(nums_table("x", vec![1])));
    assert!(r.is_err());
    // The previous cached value is intact and still fresh.
    match rt.get_node_value(&g, 0).unwrap() {
        Some(TaskValue::Scalar(s)) => assert!(s.same_as(&ScalarVal::Num(7))),
        other => panic!("expected the cached scalar, got {:?}", other),
    }
    assert!(g.update_value(99, TaskValue::Scalar(ScalarVal::Null)).is_err());
}

#[test]
fn evaluation_is_cached_and_runs_once() {
    let mut g = chain_graph();
    let rt = TaskGraphRuntime::new(10).unwrap();
    // Drive the chain to evaluate node 2: each step names one stale
    // node whose inputs are fresh.
    let mut evaluations: usize = 0;
    loop {
        match rt.next_to_evaluate(&g, 2).unwrap() {
            None => break,
            Some(i) => {
                evaluations += 1;
                rt.store_result(&mut g, i, TaskValue::Scalar(ScalarVal::Num(i as i64 * 10)))
                    .unwrap();
            }
        }
    }
    assert_eq!(evaluations, 3);
    let first = match rt.get_node_value(&g, 2).unwrap() {
        Some(TaskValue::Scalar(s)) => s.clone(),
        other => panic!("expected a scalar, got {:?}", other),
    };
    // A second request is a pure cache hit: no evaluation is owed and
    // the value is identical.
    assert_eq!(rt.next_to_evaluate(&g, 2).unwrap(), None);
    match rt.get_node_value(&g, 2).unwrap() {
        Some(TaskValue::Scalar(s)) => assert!(s.same_as(&first)),
        other => panic!("expected a scalar, got {:?}", other),
    }
}

#[test]
fn runtime_rejects_zero_capacity() {
    assert!(TaskGraphRuntime::new(0).is_err());
    assert!(TaskGraphRuntime::new(10).is_ok());
}

#[test]
fn stitched_plan_directs_variables() {
    // Server: a URL-backed dataset and a filtered view driven by a
    // client brush. Client: the brush signal and a renderer reading
    // both datasets.
    let server = vec![
        decl(data_var("source"), ValueKind::Table, vec![]),
        decl(
            data_var("filtered"),
            ValueKind::Table,
            vec![data_var("source"), signal_var("brush")],
        ),
    ];
    let client = vec![
        decl(signal_var("brush"), ValueKind::Scalar, vec![]),
        decl(
            signal_var("render"),
            ValueKind::Scalar,
            vec![data_var("filtered")],
        ),
    ];
    let plan = stitch_specs(&server, &client);
    // Only the dataset the client reads crosses server-to-client;
    // "source" has no client consumer and is never transported.
    assert_eq!(plan.server_to_client.len(), 1);
    assert!(plan.server_to_client[0].same_as(&data_var("filtered")));
    // The brush is watched and forwarded client-to-server.
    assert_eq!(plan.client_to_server.len(), 1);
    assert!(plan.client_to_server[0].same_as(&signal_var("brush")));
    // The two directions are disjoint.
    for s in &plan.server_to_client {
        for c in &plan.client_to_server {
            assert!(!s.same_as(c));
        }
    }
}

#[test]
fn url_dataset_scenario_serves_and_caches() {
    // One URL-backed dataset task (no transforms) feeding a client
    // render signal.
    let server = vec![decl(data_var("cities"), ValueKind::Table, vec![])];
    let client = vec![decl(
        signal_var("render"),
        ValueKind::Scalar,
        vec![data_var("cities")],
    )];
    let plan = stitch_specs(&server, &client);
    assert_eq!(plan.server_to_client.len(), 1);
    assert!(plan.server_to_client[0].same_as(&data_var("cities")));

    let mut g = TaskGraph::new(&server).unwrap();
    let rt = TaskGraphRuntime::new(10).unwrap();
    let task = vegafusion_core::tasks::DataUrlTask {
        url: vegafusion_core::tasks::UrlSource::Literal("cities.json".to_string()),
        batch_size: 1024,
        format_date_fields: Vec::new(),
        pipeline: None,
        input_vars: Vec::new(),
    };
    let source_text = r#"[{"city": "Oslo", "pop": 700}, {"city": "Lima", "pop": 11000}]"#;
    let expected = read_json(source_text).unwrap();

    let mut fetches: usize = 0;
    loop {
        match rt.next_to_evaluate(&g, 0).unwrap() {
            None => break,
            Some(i) => {
                assert_eq!(i, 0);
                // The fetch happens here, at the caller's edge.
                fetches += 1;
                let url = task.resolve_url(None).unwrap();
                assert_eq!(
                    vegafusion_core::tasks::DataUrlTask::classify_url(&url).unwrap(),
                    vegafusion_core::tasks::DataFormat::Json
                );
                let raw = read_json(source_text).unwrap();
                let (value, outs) = task.eval_fetched(raw, None).unwrap();
                assert!(outs.is_empty());
                rt.store_result(&mut g, 0, value).unwrap();
            }
        }
    }
    assert_eq!(fetches, 1);
    match rt.get_node_value(&g, 0).unwrap() {
        Some(TaskValue::Table(t)) => assert!(tables_equal(t, &expected)),
        other => panic!("expected the parsed table, got {:?}", other),
    }
    // A second request triggers no second fetch and returns the
    // identical cached table.
    assert_eq!(rt.next_to_evaluate(&g, 0).unwrap(), None);
    match rt.get_node_value(&g, 0).unwrap() {
        Some(TaskValue::Table(t)) => assert!(tables_equal(t, &expected)),
        other => panic!("expected the cached table, got {:?}", other),
    }
}

#[test]
fn brush_filter_scenario_round_trips_an_update() {
    // A brush selection on the client drives a server-side filter
    // transform. The brush interval travels as two scalar signals.
    let server = vec![
        decl(data_var("source"), ValueKind::Table, vec![]),
        decl(
            data_var("filtered"),
            ValueKind::Table,
            vec![
                data_var("source"),
                signal_var("brush_min"),
                signal_var("brush_max"),
            ],
        ),
    ];
    let client = vec![
        decl(signal_var("brush_min"), ValueKind::Scalar, vec![]),
        decl(signal_var("brush_max"), ValueKind::Scalar, vec![]),
        decl(
            signal_var("render"),
            ValueKind::Scalar,
            vec![data_var("filtered")],
        ),
    ];
    let plan = stitch_specs(&server, &client);
    assert_eq!(plan.client_to_server.len(), 2);
    assert!(plan
        .client_to_server
        .iter()
        .any(|v| v.same_as(&signal_var("brush_min"))));
    assert!(plan
        .client_to_server
        .iter()
        .any(|v| v.same_as(&signal_var("brush_max"))));

    // The server graph holds the source, the two watched signals and
    // the filtered view.
    let graph_tasks = vec![
        decl(data_var("source"), ValueKind::Table, vec![]),
        decl(signal_var("brush_min"), ValueKind::Scalar, vec![]),
        decl(signal_var("brush_max"), ValueKind::Scalar, vec![]),
        decl(
            data_var("filtered"),
            ValueKind::Table,
            vec![
                data_var("source"),
                signal_var("brush_min"),
                signal_var("brush_max"),
            ],
        ),
    ];
    let mut g = TaskGraph::new(&graph_tasks).unwrap();
    let rt = TaskGraphRuntime::new(10).unwrap();
    rt.store_result(&mut g, 0, TaskValue::Table(nums_table("x", vec![5, 20, 60, 45])))
        .unwrap();
    // The client sends the update {brush: [10, 50]}.
    g.update_value(1, TaskValue::Scalar(ScalarVal::Num(10))).unwrap();
    g.update_value(2, TaskValue::Scalar(ScalarVal::Num(50))).unwrap();

    let filter_task = DataSourceTask {
        source: "source".to_string(),
        pipeline: Some(TransformPipeline {
            transform_count: 1,
            output_vars: Vec::new(),
        }),
        input_vars: vec![
            InputVariable { var: data_var("source"), propagate: true },
            InputVariable { var: signal_var("brush_min"), propagate: true },
            InputVariable { var: signal_var("brush_max"), propagate: true },
        ],
    };
    loop {
        match rt.next_to_evaluate(&g, 3).unwrap() {
            None => break,
            Some(3) => {
                // Gather the fresh input values in declaration order.
                let mut values = Vec::new();
                for idx in [0usize, 1, 2] {
                    match rt.get_node_value(&g, idx).unwrap() {
                        Some(TaskValue::Scalar(s)) => values.push(TaskValue::Scalar(s.clone())),
                        Some(TaskValue::Table(t)) => {
                            values.push(TaskValue::Table(Table { columns: t.columns.clone() }))
                        }
                        None => panic!("inputs must be fresh"),
                    }
                }
                let mut config = build_compilation_config(&filter_task.input_vars, &values);
                // The transform engine's side: filter the source rows
                // to the brushed interval.
                let lo: i64 = 10;
                let hi: i64 = 50;
                let source_table = filter_task.take_source(&mut config).unwrap();
                let kept: Vec<i64> = match &source_table.columns[0].data {
                    ColumnData::Nums(cells) => cells
                        .iter()
                        .copied()
                        .filter(|c| lo <= *c && *c <= hi)
                        .collect(),
                    _ => panic!("expected numbers"),
                };
                let filtered = nums_table("x", kept);
                let mut config2 = build_compilation_config(&filter_task.input_vars, &values);
                let (value, outs) = filter_task
                    .eval(&mut config2, Some((filtered, Vec::new())))
                    .unwrap();
                assert!(outs.is_empty());
                rt.store_result(&mut g, 3, value).unwrap();
            }
            Some(other) => panic!("only the filtered view is stale, not node {}", other),
        }
    }
    // The dependent filtered dataset holds only rows within [10, 50].
    match rt.get_node_value(&g, 3).unwrap() {
        Some(TaskValue::Table(t)) => assert!(tables_equal(t, &nums_table("x", vec![20, 45]))),
        other => panic!("expected the filtered table, got {:?}", other),
    }
}

#[test]
fn inline_values_task_decodes_its_block() {
    let table = nums_table("n", vec![3, 1, 4]);
    let bytes = encode_task_value(&TaskValue::Table(Table {
        columns: table.columns.clone(),
    }));
    let task = DataValuesTask {
        values: bytes,
        pipeline: None,
        input_vars: Vec::new(),
    };
    let (value, outs) = task.eval(None).unwrap();
    assert!(outs.is_empty());
    match value {
        TaskValue::Table(t) => assert!(tables_equal(&t, &table)),
        other => panic!("expected the decoded table, got {:?}", other),
    }
    // A scalar block is not a dataset.
    let scalar_bytes = encode_task_value(&TaskValue::Scalar(ScalarVal::Num(1)));
    let bad = DataValuesTask {
        values: scalar_bytes,
        pipeline: None,
        input_vars: Vec::new(),
    };
    assert!(bad.eval(None).is_err());
}

#[test]
fn source_task_takes_its_table_out_of_scope() {
    let task = DataSourceTask {
        source: "src".to_string(),
        pipeline: None,
        input_vars: vec![InputVariable { var: data_var("src"), propagate: true }],
    };
    let values = vec![TaskValue::Table(nums_table("x", vec![1, 2]))];
    let mut config = build_compilation_config(&task.input_vars, &values);
    assert_eq!(config.data_scope.len(), 1);
    let (value, outs) = task.eval(&mut config, None).unwrap();
    assert!(outs.is_empty());
    assert_eq!(config.data_scope.len(), 0, "the source left the scope");
    match value {
        TaskValue::Table(t) => assert!(tables_equal(&t, &nums_table("x", vec![1, 2]))),
        other => panic!("expected the source table, got {:?}", other),
    }
    // A missing source is a construction-style error.
    let mut empty_config = build_compilation_config(&Vec::new(), &Vec::new());
    assert!(task.take_source(&mut empty_config).is_err());
}

#[test]
fn config_splits_scalars_and_tables() {
    let vars = vec![
        InputVariable { var: signal_var("s"), propagate: true },
        InputVariable { var: data_var("d"), propagate: true },
    ];
    let values = vec![
        TaskValue::Scalar(ScalarVal::Num(9)),
        TaskValue::Table(nums_table("x", vec![1])),
    ];
    let config = build_compilation_config(&vars, &values);
    assert_eq!(config.signal_scope.len(), 1);
    assert_eq!(config.signal_scope[0].0, "s");
    assert!(config.signal_scope[0].1.same_as(&ScalarVal::Num(9)));
    assert_eq!(config.data_scope.len(), 1);
    assert_eq!(config.data_scope[0].0, "d");
}

#[test]
fn session_walks_the_interactive_cycle() {
    let s = session_step(SessionState::Initial, SessionEvent::InitialValuesSent).unwrap();
    assert_eq!(s, SessionState::Watching);
    let s = session_step(s, SessionEvent::WatchObserved).unwrap();
    assert_eq!(s, SessionState::Updating);
    let s = session_step(s, SessionEvent::UpdatesApplied).unwrap();
    assert_eq!(s, SessionState::Pushing);
    let s = session_step(s, SessionEvent::ValuesPushed).unwrap();
    assert_eq!(s, SessionState::Watching);
    // Out-of-order events are rejected; the end is final.
    assert!(session_step(s, SessionEvent::UpdatesApplied).is_err());
    let s = session_step(s, SessionEvent::SessionEnd).unwrap();
    assert_eq!(s, SessionState::Ended);
    assert!(session_step(s, SessionEvent::WatchObserved).is_err());
    assert!(session_step(s, SessionEvent::SessionEnd).is_err());
}

#[test]
fn eviction_only_costs_a_recomputation() {
    let mut g = chain_graph();
    let rt = TaskGraphRuntime::new(2).unwrap();
    for i in 0..4 {
        rt.store_result(&mut g, i, TaskValue::Scalar(ScalarVal::Num(i as i64)))
            .unwrap();
    }
    rt.evict(&mut g, 3).unwrap();
    assert!(rt.get_node_value(&g, 3).unwrap().is_none());
    // The evicted node owes one evaluation again; nothing else does.
    assert_eq!(rt.next_to_evaluate(&g, 3).unwrap(), Some(3));
    assert_eq!(rt.next_to_evaluate(&g, 2).unwrap(), None);
    rt.store_result(&mut g, 3, TaskValue::Scalar(ScalarVal::Num(3)))
        .unwrap();
    match rt.get_node_value(&g, 3).unwrap() {
        Some(TaskValue::Scalar(s)) => assert!(s.same_as(&ScalarVal::Num(3))),
        other => panic!("expected the recomputed scalar, got {:?}", other),
    }
    assert!(rt.evict(&mut g, 99).is_err());
}
