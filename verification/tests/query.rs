use column_rs::columns::{PhysicalType, SchemaElement};
use column_rs::error::{FileError, JoinOp, PlanError, QueryError, VmError};
use column_rs::execution::{ExecuteAction, ExecuteEvent, ExecuteState, Route};
use column_rs::explain::{stats_for, ExplainAction, TableStats};
use column_rs::query::{OpenError, OpenedFile, QueryEngine, TableFile};
use column_rs::select::{
    check_streamable, first_join, from_table, in_subquery, is_window_column, join_table, Expr,
    FromClause, FunctionTail, Join, ResultColumn, Select, TableRef,
};
use column_rs::value::Value;

type Engine = QueryEngine<Vec<u8>>;

fn file(stem: &str, columns: &[&str]) -> TableFile<Vec<u8>> {
    let mut schema = vec![SchemaElement { name: "root".to_string(), physical_type: None }];
    for c in columns {
        schema.push(SchemaElement {
            name: c.to_string(),
            physical_type: Some(PhysicalType::Int64),
        });
    }
    TableFile {
        path: format!("{stem}.parquet"),
        stem: Some(stem.to_string()),
        opened: Ok(OpenedFile { data: stem.as_bytes().to_vec(), schema }),
    }
}

fn engine() -> Engine {
    let files = vec![
        file("orders", &["id", "region_key"]),
        file("regions", &["key", "budget"]),
    ];
    match QueryEngine::open_many(files) {
        Ok(engine) => engine,
        Err(e) => panic!("{e:?}"),
    }
}

fn table(name: &str) -> TableRef {
    TableRef { name: Some(name.to_string()) }
}

fn select(from: &str) -> Select {
    Select {
        columns: vec![ResultColumn::Expr { expr: Expr::Other }],
        from: Some(FromClause { first: table(from), joins: vec![] }),
        where_clause: None,
        aggregated: false,
        distinct: false,
        ordered: false,
        limited: false,
    }
}

fn joined(left: &str, right: TableRef) -> Select {
    let mut query = select(left);
    query.from = Some(FromClause {
        first: table(left),
        joins: vec![Join { op: JoinOp::Inner, table: right }],
    });
    query
}

fn filtered(from: &str, sub: Select) -> Select {
    let mut query = select(from);
    query.where_clause = Some(Expr::InSubquery { subquery: Box::new(sub) });
    query
}

fn windowed(from: &str) -> Select {
    let mut query = select(from);
    query.columns.push(ResultColumn::Expr {
        expr: Expr::FunctionCall { tail: Some(FunctionTail { over: true }) },
    });
    query
}

fn nameless() -> TableRef {
    TableRef { name: None }
}

fn message<T>(out: Result<T, QueryError>) -> String {
    match out {
        Ok(_) => panic!("expected an error"),
        Err(e) => e.message(),
    }
}

fn error_of(action: ExecuteAction) -> QueryError {
    match action {
        ExecuteAction::Return { result: Err(e) } => e,
        other => panic!("{other:?}"),
    }
}

/// Runs a query up to its route, all outside work succeeding.
fn route(engine: &Engine, query: Select, expanded: Select) -> (Vec<usize>, ExecuteAction) {
    let (mut state, mut action) = engine.execute(Ok(query));
    let mut expanded = Some(expanded);
    let mut files = vec![];
    loop {
        let event = match action {
            ExecuteAction::ExpandStar { .. } => ExecuteEvent::Expanded {
                query: Ok(expanded.take().unwrap()),
            },
            ExecuteAction::OpenFile { table } => {
                files.push(table);
                ExecuteEvent::Opened { outcome: Ok(()) }
            }
            other => return (files, other),
        };
        let (next, asked) = engine.resume(state, event);
        state = next;
        action = asked;
    }
}

fn assert_route(query: Select, expanded: Select, files: &[usize], expected: Route) {
    let (opened, action) = route(&engine(), query, expanded);
    assert_eq!(opened, files);
    match action {
        ExecuteAction::Run { route } => assert_eq!(route, expected),
        other => panic!("{other:?}"),
    }
}

#[test]
fn query_engine_runs_join_across_two_loaded_tables() {
    let engine = engine();
    assert_eq!(engine.table_names(), vec!["orders", "regions"]);

    let (state, action) = engine.execute(Ok(joined("orders", table("regions"))));
    assert!(matches!(action, ExecuteAction::ExpandStar { .. }));
    let query = Ok(joined("orders", table("regions")));
    let (state, _) = engine.resume(state, ExecuteEvent::Expanded { query });
    let (state, _) = engine.resume(state, ExecuteEvent::Opened { outcome: Ok(()) });
    let (state, action) = engine.resume(state, ExecuteEvent::Opened { outcome: Ok(()) });
    match action {
        ExecuteAction::Run { route } => assert_eq!(route, Route::Joined { main: 0, right: 1 }),
        other => panic!("{other:?}"),
    }
    let rows = Ok(vec![vec![Value::Int(1), Value::Int(500)]]);
    let (state, action) = engine.resume(state, ExecuteEvent::Ran { rows });
    assert!(matches!(action, ExecuteAction::NameColumns));
    let columns = vec!["orders.id".to_string(), "regions.budget".to_string()];
    let (state, action) = engine.resume(state, ExecuteEvent::Named { columns });
    assert!(matches!(state, ExecuteState::Finished));
    match action {
        ExecuteAction::Return { result: Ok(result) } => {
            assert!(!result.rows.is_empty());
            assert_eq!(result.columns, vec!["orders.id", "regions.budget"]);
        }
        other => panic!("{other:?}"),
    }
}

#[test]
fn query_engine_rejects_duplicate_table_name() {
    let mut engine = match QueryEngine::open(file("orders", &["id"])) {
        Ok(engine) => engine,
        Err(e) => panic!("{e:?}"),
    };
    let err = engine.add_table(file("orders", &["other"]), None).unwrap_err();
    assert!(err.message().contains("orders"));
    assert_eq!(err.message(), "table already loaded: orders");
    assert_eq!(engine.table_names(), vec!["orders"]);
    assert_eq!(engine.schemas(), vec![("orders", vec!["id".to_string()])]);
}

/// The planner refuses to expand the `*` of a query that aggregates.
fn rejected_star(query: Select) -> QueryError {
    let engine = match QueryEngine::open(file("production", &["id", "region", "amount"])) {
        Ok(engine) => engine,
        Err(e) => panic!("{e:?}"),
    };
    let (state, action) = engine.execute(Ok(query));
    match action {
        ExecuteAction::ExpandStar { schema } => assert_eq!(schema, vec!["id", "region", "amount"]),
        other => panic!("{other:?}"),
    }
    let refusal = ExecuteEvent::Expanded { query: Err(PlanError::StarWithAggregation) };
    let (state, action) = engine.resume(state, refusal);
    assert!(matches!(state, ExecuteState::Finished));
    error_of(action)
}

#[test]
fn select_star_with_group_by_is_rejected() {
    let mut query = select("production");
    query.columns = vec![ResultColumn::Star];
    query.aggregated = true;
    let err = rejected_star(query);
    assert!(matches!(err, QueryError::StarWithAggregation));
}

#[test]
fn select_star_with_aggregate_is_rejected() {
    let mut query = select("production");
    query.columns = vec![
        ResultColumn::Star,
        ResultColumn::Expr { expr: Expr::FunctionCall { tail: None } },
    ];
    query.aggregated = true;
    let err = rejected_star(query);
    assert!(matches!(err, QueryError::StarWithAggregation));
}

#[test]
fn a_file_is_loaded_under_its_name_its_stem_or_data() {
    let mut engine: Engine = QueryEngine::default();
    engine.add_table(file("orders", &["id"]), Some("o".to_string())).unwrap();
    engine.add_table(file("orders", &["id"]), None).unwrap();
    let mut odd = file("x", &[]);
    odd.stem = None;
    engine.add_table(odd, None).unwrap();
    assert_eq!(engine.table_names(), vec!["o", "orders", "data"]);
    assert_eq!(engine.table_data("o").unwrap(), b"orders");
    assert_eq!(engine.nth_table_data(2).unwrap(), b"x");
    assert!(engine.nth_table_data(3).is_none());
    assert!(engine.table_schema("data").unwrap().is_empty());
}

#[test]
fn a_file_that_does_not_open_is_reported() {
    let mut engine: Engine = QueryEngine::default();
    let mut missing = file("gone", &[]);
    missing.opened = Err(OpenError::Io("No such file".to_string()));
    let err = engine.add_table(missing, None).unwrap_err();
    assert!(matches!(err, QueryError::Io(_)));
    assert_eq!(err.message(), "gone.parquet: No such file");
    let mut odd = file("odd", &[]);
    odd.opened = Err(OpenError::Parquet(FileError("bad magic".to_string())));
    let err = engine.add_table(odd, None).unwrap_err();
    assert!(matches!(err, QueryError::File(_)));
    assert_eq!(err.message(), "bad magic");
    assert!(engine.table_names().is_empty());
}

#[test]
fn loading_stops_at_the_first_failure() {
    let mut bad = file("b", &[]);
    bad.opened = Err(OpenError::Io("denied".to_string()));
    let out = QueryEngine::open_many(vec![file("a", &[]), bad, file("a", &[])]);
    assert_eq!(message(out), "b.parquet: denied");
    let out = QueryEngine::open_many(vec![file("a", &[]), file("b", &[]), file("a", &[])]);
    assert_eq!(message(out), "table already loaded: a");
}

#[test]
fn unknown_tables_are_named() {
    let engine = engine();
    assert_eq!(message(engine.table_data("nope")), "unknown table: nope");
    assert_eq!(message(engine.table_schema("nope")), "unknown table: nope");
    assert_eq!(message(engine.table_position("")), "unknown table: ");
    assert_eq!(engine.table_position("regions").unwrap(), 1);
}

#[test]
fn a_star_stands_for_the_columns_of_its_tables() {
    let engine = engine();
    assert_eq!(engine.star_schema(&select("regions")).unwrap(), vec!["key", "budget"]);
    assert_eq!(
        engine.star_schema(&joined("orders", table("regions"))).unwrap(),
        vec!["orders.id", "orders.region_key", "regions.key", "regions.budget"]
    );
    assert_eq!(message(engine.star_schema(&select("x"))), "unknown table: x");
    assert_eq!(
        message(engine.star_schema(&joined("x", table("y")))),
        "unknown table: x"
    );
    assert_eq!(
        message(engine.star_schema(&joined("orders", table("y")))),
        "unknown table: y"
    );
    assert_eq!(
        message(engine.star_schema(&joined("x", nameless()))),
        "unknown table: <no table>"
    );
}

#[test]
fn the_shape_of_a_query_is_read_off() {
    assert_eq!(from_table(&select("t")).unwrap(), "t");
    let mut none = select("t");
    none.from = None;
    assert_eq!(message(from_table(&none)), "unknown table: <no table>");
    let query = joined("a", table("b"));
    assert_eq!(join_table(first_join(&query).unwrap()).unwrap(), "b");
    let query = joined("a", nameless());
    assert_eq!(message(join_table(first_join(&query).unwrap())), "unknown table: <no table>");
    assert!(first_join(&select("a")).is_none());
    assert!(in_subquery(&select("a")).is_none());
    let query = filtered("a", select("s"));
    assert_eq!(from_table(in_subquery(&query).unwrap()).unwrap(), "s");
    assert!(is_window_column(&windowed("a").columns[1]));
    assert!(!is_window_column(&ResultColumn::Star));
    let call = |tail| ResultColumn::Expr { expr: Expr::FunctionCall { tail } };
    assert!(!is_window_column(&call(None)));
    assert!(!is_window_column(&call(Some(FunctionTail { over: false }))));
}

#[test]
fn only_a_plain_scan_streams() {
    assert!(check_streamable(&select("t")).is_ok());
    let mut refused = vec![joined("a", table("b")), filtered("a", select("b")), windowed("a")];
    for i in 0..4 {
        let mut query = select("t");
        query.aggregated = i == 0;
        query.distinct = i == 1;
        query.ordered = i == 2;
        query.limited = i == 3;
        refused.push(query);
    }
    for query in &refused {
        assert!(matches!(check_streamable(query), Err(QueryError::NotStreamable(_))));
    }
}

#[test]
fn each_shape_has_its_route() {
    assert_route(select("orders"), select("orders"), &[0], Route::Plain { main: 0 });
    assert_route(windowed("regions"), windowed("regions"), &[1], Route::Windowed { main: 1 });
    assert_route(
        joined("orders", table("regions")),
        joined("orders", table("regions")),
        &[0, 1],
        Route::Joined { main: 0, right: 1 },
    );
    assert_route(
        filtered("orders", select("regions")),
        filtered("orders", select("regions")),
        &[0, 1],
        Route::SemiJoin { main: 0, sub: 1 },
    );
}

#[test]
fn a_subquery_goes_before_a_join_and_a_join_before_a_window() {
    let both = || {
        let mut query = joined("orders", table("orders"));
        query.where_clause = Some(Expr::InSubquery { subquery: Box::new(select("regions")) });
        query
    };
    assert_route(both(), both(), &[0, 1], Route::SemiJoin { main: 0, sub: 1 });
    let both = || {
        let mut query = windowed("orders");
        query.from = joined("orders", table("regions")).from;
        query
    };
    assert_route(both(), both(), &[0, 1], Route::Joined { main: 0, right: 1 });
}

#[test]
fn a_run_fails_where_its_work_fails() {
    let engine = engine();
    let (state, action) = engine.execute(Err("expected FROM".to_string()));
    assert!(matches!(state, ExecuteState::Finished));
    assert_eq!(error_of(action).message(), "unknown column: expected FROM");

    let (_, action) = engine.execute(Ok(select("nope")));
    assert_eq!(error_of(action).message(), "unknown table: nope");

    let query = || filtered("orders", select("nope"));
    let (_, action) = route(&engine, query(), query());
    assert_eq!(error_of(action).message(), "unknown table: nope");

    let (state, _) = engine.execute(Ok(select("orders")));
    let (state, _) = engine.resume(state, ExecuteEvent::Expanded { query: Ok(select("orders")) });
    let outcome = Err(FileError("torn footer".to_string()));
    let (_, action) = engine.resume(state, ExecuteEvent::Opened { outcome });
    assert_eq!(error_of(action).message(), "torn footer");

    let e = QueryError::from(VmError::Other("overflow".to_string()));
    let (_, action) = engine.resume(ExecuteState::Running, ExecuteEvent::Ran { rows: Err(e) });
    assert_eq!(error_of(action).message(), "overflow");
}

#[test]
fn explain_opens_every_table_that_the_query_names() {
    let engine = engine();
    let (state, action) = engine.explain(&filtered("orders", select("regions")));
    assert!(matches!(action, ExplainAction::OpenFile { table: 0 }));
    let orders = TableStats { row_groups: 1, rows: 21 };
    let (state, action) = engine.explain_resume(state, Ok(orders));
    assert!(matches!(action, ExplainAction::OpenFile { table: 1 }));
    let regions = TableStats { row_groups: 2, rows: 4 };
    let (state, action) = engine.explain_resume(state, Ok(regions));
    assert!(matches!(action, ExplainAction::Describe));
    assert_eq!(stats_for(&state.stats, "orders"), Some(orders));
    assert_eq!(stats_for(&state.stats, "regions"), Some(regions));
    assert_eq!(stats_for(&state.stats, "nope"), None);
}

#[test]
fn explain_fails_on_a_table_that_is_not_there() {
    let engine = engine();
    let said = |action| match action {
        ExplainAction::Fail { error } => error.message(),
        other => panic!("{other:?}"),
    };
    let (_, action) = engine.explain(&select("nope"));
    assert_eq!(said(action), "unknown table: nope");
    let (_, action) = engine.explain(&joined("orders", nameless()));
    assert_eq!(said(action), "unknown table: <no table>");
    let (state, _) = engine.explain(&joined("orders", table("regions")));
    assert_eq!(state.tables, vec!["orders", "regions"]);
    let (_, action) = engine.explain_resume(state, Err(FileError("torn".to_string())));
    assert_eq!(said(action), "torn");
}

#[test]
fn explain_opcodes_passes_the_planner_on() {
    let engine = engine();
    assert!(engine.explain_opcodes(Ok(vec![])).unwrap().is_empty());
    let err = engine.explain_opcodes(Err(PlanError::UnsupportedJoinKind(JoinOp::Full)));
    assert_eq!(
        message(err),
        "join kind Full is not yet executable (only Inner/Left are implemented)"
    );
}

#[test]
fn every_error_has_its_message() {
    let s = || "x".to_string();
    let kind = |op| QueryError::UnsupportedJoinKind(op).message();
    assert_eq!(QueryError::UnknownColumn(s()).message(), "unknown column: x");
    assert_eq!(QueryError::UnknownTable(s()).message(), "unknown table: x");
    assert_eq!(QueryError::DuplicateTable(s()).message(), "table already loaded: x");
    assert_eq!(QueryError::UnsupportedSemiJoin(s()).message(), "unsupported semi-join: x");
    assert_eq!(QueryError::UnsupportedSelectItem(s()).message(), "unsupported SELECT item: x");
    for (op, name) in [
        (JoinOp::Inner, "Inner"),
        (JoinOp::Left, "Left"),
        (JoinOp::Right, "Right"),
        (JoinOp::Full, "Full"),
        (JoinOp::Cross, "Cross"),
    ] {
        let expected =
            format!("join kind {name} is not yet executable (only Inner/Left are implemented)");
        assert_eq!(kind(op), expected);
    }
    assert_eq!(
        QueryError::StarWithAggregation.message(),
        "SELECT * cannot be combined with GROUP BY, an aggregate, or a window function"
    );
    assert_eq!(QueryError::PlannerInvariant(s()).message(), "x");
    assert_eq!(QueryError::NotStreamable(s()).message(), "x");
    assert_eq!(QueryError::File(FileError(s())).message(), "x");
    assert_eq!(QueryError::Io(s()).message(), "x");
    assert_eq!(QueryError::Vm(VmError::Other(s())).message(), "x");
    assert_eq!(QueryError::Vm(VmError::NotStreamable { reason: s() }).message(), "x");
    let torn = VmError::SegmentLoad { row_group: 12, column: Some("id".to_string()), reason: s() };
    assert_eq!(QueryError::Vm(torn).message(), "row group 12, column id: x");
    let absent = VmError::SegmentLoad { row_group: 0, column: None, reason: s() };
    assert_eq!(QueryError::Vm(absent).message(), "row group 0: x");
}

#[test]
fn plan_errors_become_query_errors() {
    let s = || "x".to_string();
    let from = QueryError::from;
    assert!(matches!(from(PlanError::UnknownColumn(s())), QueryError::UnknownColumn(_)));
    assert!(matches!(
        from(PlanError::UnsupportedSemiJoin(s())),
        QueryError::UnsupportedSemiJoin(_)
    ));
    assert!(matches!(
        from(PlanError::UnsupportedJoinKind(JoinOp::Cross)),
        QueryError::UnsupportedJoinKind(JoinOp::Cross)
    ));
    assert!(matches!(from(PlanError::StarWithAggregation), QueryError::StarWithAggregation));
    assert!(matches!(
        from(PlanError::UnsupportedSelectItem(s())),
        QueryError::UnsupportedSelectItem(_)
    ));
    assert!(matches!(from(PlanError::Internal(s())), QueryError::PlannerInvariant(_)));
}
