use column_rs::columns::SchemaElement;
use column_rs::error::{PlanError, QueryError};
use column_rs::explain::ExplainAction;
use column_rs::handler::{
    banner, help_extra, open_reply, output_of, ColumnHandler, CommandReply, Explain, Formatted,
    Outcome, Output, Request,
};
use column_rs::plan::PlanNode;
use column_rs::query::{OpenedFile, QueryEngine, TableFile};
use column_rs::select::{FromClause, Select, TableRef};
use column_rs::stream_output::QueryResult;
use column_rs::value::Value;

fn file(stem: &str, columns: &[&str]) -> TableFile<u8> {
    let mut schema = vec![SchemaElement { name: "root".to_string(), physical_type: None }];
    for c in columns {
        schema.push(SchemaElement { name: c.to_string(), physical_type: None });
    }
    TableFile {
        path: format!("{stem}.parquet"),
        stem: Some(stem.to_string()),
        opened: Ok(OpenedFile { data: 0, schema }),
    }
}

fn handler() -> ColumnHandler<u8> {
    let files = vec![file("orders", &["id", "amount"]), file("regions", &["key"])];
    match QueryEngine::open_many(files) {
        Ok(engine) => ColumnHandler { engine },
        Err(e) => panic!("{e:?}"),
    }
}

fn lines(reply: CommandReply) -> Vec<String> {
    match reply {
        CommandReply::Lines(lines) => lines,
        other => panic!("{other:?}"),
    }
}

fn opened(reply: CommandReply) -> (String, Option<String>) {
    match reply {
        CommandReply::Open { path, table } => (path, table),
        other => panic!("{other:?}"),
    }
}

fn from(table: &str) -> Select {
    Select {
        columns: vec![],
        from: Some(FromClause {
            first: TableRef { name: Some(table.to_string()) },
            joins: vec![],
        }),
        where_clause: None,
        aggregated: false,
        distinct: false,
        ordered: false,
        limited: false,
    }
}

#[test]
fn tables_lists_the_names_in_load_order() {
    for name in ["t", "ta", "tables"] {
        assert_eq!(lines(handler().command(name, "")), vec!["orders", "regions"]);
    }
}

#[test]
fn schema_lists_the_columns_below_each_table() {
    assert_eq!(
        lines(handler().command("schema", "ignored")),
        vec!["orders:", "  id", "  amount", "regions:", "  key"]
    );
}

#[test]
fn open_without_a_path_explains_itself() {
    assert_eq!(lines(handler().command("open", "")), vec![".open <path> [AS <name>]"]);
}

#[test]
fn open_splits_path_and_name() {
    let h = handler();
    assert_eq!(opened(h.command("o", " a.parquet ")), ("a.parquet".to_string(), None));
    assert_eq!(
        opened(h.command("open", "a.parquet AS  t ")),
        ("a.parquet".to_string(), Some("t".to_string()))
    );
    assert_eq!(
        opened(h.command("open", "a.parquet as t")),
        ("a.parquet".to_string(), Some("t".to_string()))
    );
    assert_eq!(
        opened(h.command("open", "a as b AS c")),
        ("a as b".to_string(), Some("c".to_string()))
    );
    assert_eq!(
        opened(h.command("open", "a AS b AS c")),
        ("a".to_string(), Some("b AS c".to_string()))
    );
    assert_eq!(opened(h.command("open", "aASb")), ("aASb".to_string(), None));
    assert_eq!(
        opened(h.command("open", "\u{a0}ü.parquet\t AS \u{3000}t")),
        ("ü.parquet".to_string(), Some("t".to_string()))
    );
    assert_eq!(opened(h.command("open", "  ")), (String::new(), None));
}

#[test]
fn color_is_not_supported() {
    assert_eq!(
        lines(handler().command("col", "on")),
        vec!["'.color' is not supported by this build's REPL"]
    );
}

#[test]
fn other_names_are_no_commands() {
    for name in ["", "x", "tablesx", "Tables", "pen"] {
        assert!(matches!(handler().command(name, ""), CommandReply::Unknown));
    }
}

#[test]
fn open_reply_is_silent_on_success() {
    assert!(open_reply(&Ok(())).is_empty());
    assert_eq!(
        open_reply(&Err(QueryError::DuplicateTable("t".to_string()))),
        vec!["error: table already loaded: t"]
    );
}

#[test]
fn help_and_banner_are_fixed_texts() {
    assert_eq!(
        help_extra(),
        vec![
            ".tables     List tables (Parquet files)",
            ".schema     Show column schema",
            ".open <path> [AS <name>]  Load another Parquet file into this session",
        ]
    );
    assert_eq!(
        banner("0.20.1"),
        "column-rs 0.20.1 — Parquet analytics\nEnter SQL queries ending with `;`. Type .help for commands.\n"
    );
}

#[test]
fn an_input_asks_for_what_its_prefix_says() {
    let h = handler();
    match h.execute(Err("no".to_string())) {
        Request::Refuse { message } => assert_eq!(message, "no"),
        other => panic!("{other:?}"),
    }
    assert!(matches!(h.execute(Ok((Explain::Opcodes, from("orders")))), Request::ListOpcodes));
    assert!(matches!(h.execute(Ok((Explain::Absent, from("orders")))), Request::Run));
    match h.execute(Ok((Explain::QueryPlan, from("regions")))) {
        Request::Plan { state, action } => {
            assert_eq!(state.tables, vec!["regions"]);
            assert!(matches!(action, ExplainAction::OpenFile { table: 1 }));
        }
        other => panic!("{other:?}"),
    }
}

#[test]
fn outcomes_become_outputs_or_messages() {
    let result = QueryResult { columns: vec!["id".to_string()], rows: vec![] };
    assert!(matches!(output_of(Outcome::Rows(Ok(result))), Ok(Output::Rows(_))));
    assert!(matches!(output_of(Outcome::Plan(Ok(vec![]))), Ok(Output::Plan(_))));
    assert!(matches!(output_of(Outcome::Opcodes(Ok(vec![]))), Ok(Output::Opcodes(_))));
    let e = || QueryError::from(PlanError::UnknownColumn("c".to_string()));
    for outcome in [Outcome::Rows(Err(e())), Outcome::Plan(Err(e())), Outcome::Opcodes(Err(e()))] {
        match output_of(outcome) {
            Err(message) => assert_eq!(message, "unknown column: c"),
            Ok(other) => panic!("{other:?}"),
        }
    }
}

#[test]
fn rows_are_formatted_as_cells() {
    let result = QueryResult {
        columns: vec!["a".to_string(), "b".to_string()],
        rows: vec![
            vec![Value::Int(-1), Value::Null],
            vec![Value::Bool(true), Value::Str("x".to_string())],
        ],
    };
    match handler().format(&Output::Rows(result)) {
        Formatted::Cells(cells) => {
            assert_eq!(cells, vec![vec!["-1", "NULL"], vec!["true", "x"]]);
        }
        other => panic!("{other:?}"),
    }
}

#[test]
fn plans_and_listings_are_formatted_as_text() {
    let plan = vec![PlanNode { id: 0, parent: 0, detail: "SCAN t".to_string() }];
    match handler().format(&Output::Plan(plan)) {
        Formatted::Text(text) => assert_eq!(text, "SCAN t\n"),
        other => panic!("{other:?}"),
    }
    match handler().format(&Output::Opcodes(vec![])) {
        Formatted::Text(text) => assert_eq!(text, ""),
        other => panic!("{other:?}"),
    }
}
