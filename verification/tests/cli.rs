use column_rs::cli::{
    after_streaming, codegen_reply, failure, is_streaming_input, open_failure, parse_args, query_reply,
    stream_event_text, try_stream_query, usage, usage_error, version_reply, Command, StreamEvent,
};
use column_rs::error::{QueryError, VmError};
use column_rs::handler::{ColumnHandler, Explain, Output};
use column_rs::listing::OpcodeSection;
use column_rs::plan::PlanNode;
use column_rs::query::QueryEngine;

fn args(list: &[&str]) -> Vec<String> {
    list.iter().map(|s| s.to_string()).collect()
}

#[test]
fn help_exits_zero_with_usage_on_stdout() {
    for flag in ["--help", "-h"] {
        assert!(matches!(parse_args(&args(&[flag])), Command::Help));
        let reply = usage();
        assert!(reply.success);
        assert!(reply.out.starts_with("usage: column-rs "));
        assert!(reply.err.is_empty());
    }
}

#[test]
fn version_exits_zero_with_name_and_version() {
    assert!(matches!(parse_args(&args(&["--version"])), Command::Version));
    assert!(matches!(parse_args(&args(&["-V"])), Command::Version));
    let reply = version_reply("0.20.1");
    assert!(reply.success);
    assert_eq!(reply.out.trim(), format!("column-rs {}", "0.20.1"));
    assert_eq!(reply.err, "");
}

#[test]
fn no_argument_is_a_misuse() {
    let expected = "[--version] [--help] [-c \"<SQL>\"] <file.parquet> [more.parquet ...]";
    match parse_args(&args(&[])) {
        Command::Misuse { expected: said } => assert_eq!(said, expected),
        other => panic!("{other:?}"),
    }
    let reply = usage_error(expected);
    assert!(!reply.success);
    assert_eq!(reply.out, "");
    assert_eq!(reply.err, format!("usage: column-rs {expected}\n"));
}

#[test]
fn a_query_takes_its_sql_and_every_file_behind_it() {
    match parse_args(&args(&["-c", "SELECT 1", "a.parquet", "b.parquet"])) {
        Command::Query { sql, paths } => {
            assert_eq!(sql, "SELECT 1");
            assert_eq!(paths, vec!["a.parquet", "b.parquet"]);
        }
        other => panic!("{other:?}"),
    }
}

#[test]
fn a_query_without_sql_or_file_is_a_misuse() {
    for list in [vec!["-c"], vec!["-c", "SELECT 1"]] {
        match parse_args(&args(&list)) {
            Command::Misuse { expected } => {
                assert_eq!(expected, "-c \"<SQL>\" <file.parquet> [more.parquet ...]");
            }
            other => panic!("{other:?}"),
        }
    }
}

#[test]
fn codegen_takes_its_sql_and_its_output_path() {
    match parse_args(&args(&["codegen", "SELECT 1", "--out", "q.rs", "ignored"])) {
        Command::Codegen { sql, out_path } => {
            assert_eq!(sql, "SELECT 1");
            assert_eq!(out_path, "q.rs");
        }
        other => panic!("{other:?}"),
    }
}

#[test]
fn codegen_without_an_output_path_is_a_misuse() {
    for list in [
        vec!["codegen"],
        vec!["codegen", "SELECT 1"],
        vec!["codegen", "SELECT 1", "--out"],
        vec!["codegen", "SELECT 1", "-o", "q.rs"],
    ] {
        match parse_args(&args(&list)) {
            Command::Misuse { expected } => {
                assert_eq!(expected, "codegen \"<SQL>\" --out <file.rs>");
            }
            other => panic!("{other:?}"),
        }
    }
}

#[test]
fn any_other_arguments_are_the_files_of_a_session() {
    match parse_args(&args(&["orders.parquet", "-c"])) {
        Command::Repl { paths } => assert_eq!(paths, vec!["orders.parquet", "-c"]),
        other => panic!("{other:?}"),
    }
}

#[test]
fn codegen_is_answered_with_what_was_written() {
    let reply = codegen_reply("q.rs", &Ok(Ok(())));
    assert!(reply.success);
    assert_eq!(reply.out, "wrote q.rs\n");
    let reply = codegen_reply("q.rs", &Ok(Err("denied".to_string())));
    assert!(!reply.success);
    assert_eq!(reply.err, "error: q.rs: denied\n");
    let reply = codegen_reply("q.rs", &Err("bad query".to_string()));
    assert!(!reply.success);
    assert_eq!(reply.err, "error: bad query\n");
    assert_eq!(reply.out, "");
}

#[test]
fn failures_are_written_behind_error() {
    assert_eq!(failure("oops").err, "error: oops\n");
    let reply = open_failure(&QueryError::DuplicateTable("orders".to_string()));
    assert!(!reply.success);
    assert_eq!(reply.err, "error: table already loaded: orders\n");
}

#[test]
fn a_plan_and_a_listing_get_a_line_end_behind_them() {
    let handler = ColumnHandler { engine: QueryEngine::<u8>::default() };
    let plan = vec![PlanNode { id: 0, parent: 0, detail: "SCAN t".to_string() }];
    let reply = query_reply(&handler, &Ok(Output::Plan(plan)));
    assert_eq!(reply.out, "SCAN t\n\n");
    let sections = vec![OpcodeSection { label: "body".to_string(), rows: vec![] }];
    let reply = query_reply(&handler, &Ok(Output::Opcodes(sections)));
    assert!(reply.out.ends_with("┘\n\n"));
    let reply = query_reply(&handler, &Err("unknown table: t".to_string()));
    assert!(!reply.success);
    assert_eq!(reply.err, "error: unknown table: t\n");
}

#[test]
fn only_a_query_that_parses_is_streamed() {
    assert!(is_streaming_input(&Ok(Explain::Absent)));
    assert!(!is_streaming_input(&Ok(Explain::QueryPlan)));
    assert!(!is_streaming_input(&Ok(Explain::Opcodes)));
    assert!(!is_streaming_input(&Err("no".to_string())));
}

#[test]
fn a_shape_that_cannot_stream_falls_back() {
    assert!(matches!(try_stream_query(Ok(()), true), Ok(true)));
    let e = QueryError::NotStreamable("x".to_string());
    assert!(matches!(try_stream_query(Err(e), false), Ok(false)));
    let e = QueryError::Vm(VmError::NotStreamable { reason: "x".to_string() });
    assert!(matches!(try_stream_query(Err(e), false), Ok(false)));
}

#[test]
fn once_the_header_went_out_an_error_is_an_error() {
    let e = QueryError::NotStreamable("x".to_string());
    assert!(matches!(
        try_stream_query(Err(e), true),
        Err(QueryError::NotStreamable(_))
    ));
    let e = QueryError::UnknownTable("t".to_string());
    assert!(matches!(
        try_stream_query(Err(e), false),
        Err(QueryError::UnknownTable(_))
    ));
    let e = QueryError::Vm(VmError::Other("x".to_string()));
    assert!(matches!(try_stream_query(Err(e), false), Err(QueryError::Vm(_))));
}

#[test]
fn only_the_column_names_count_as_the_header() {
    let mut header = false;
    let out = stream_event_text(&StreamEvent::Chunk(vec![]), &mut header);
    assert_eq!(out, "");
    assert!(!header);
    let columns = vec!["id".to_string(), "name".to_string()];
    let out = stream_event_text(&StreamEvent::Columns(columns), &mut header);
    assert_eq!(out, "id\tname\n");
    assert!(header);
}

#[test]
fn what_follows_a_stream_depends_on_how_it_went() {
    let done = after_streaming(Ok(true)).unwrap();
    assert!(done.success);
    assert_eq!(done.out, "");
    assert_eq!(done.err, "");
    assert!(after_streaming(Ok(false)).is_none());
    let failed = after_streaming(Err(QueryError::UnknownTable("t".to_string()))).unwrap();
    assert!(!failed.success);
    assert_eq!(failed.out, "");
    assert_eq!(failed.err, "error: unknown table: t\n");
}

#[test]
fn a_fallback_comes_before_anything_was_written() {
    let header = false;
    let e = QueryError::NotStreamable("x".to_string());
    let tried = try_stream_query(Err(e), header);
    assert!(after_streaming(tried).is_none());
    let mut header = false;
    let columns = vec!["id".to_string()];
    let written = stream_event_text(&StreamEvent::Columns(columns), &mut header);
    assert_eq!(written, "id\n");
    let e = QueryError::NotStreamable("x".to_string());
    let reply = after_streaming(try_stream_query(Err(e), header)).unwrap();
    assert_eq!(reply.err, "error: x\n");
}
