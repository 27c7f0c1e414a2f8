use column_rs::cli::{query_reply, stream_event_text, StreamEvent};
use column_rs::handler::{ColumnHandler, Output};
use column_rs::query::QueryEngine;
use column_rs::stream_output::{
    chunk_of, chunks_of, print_chunk, print_result_streaming, QueryResult,
};
use column_rs::value::{write_value, Value};

fn text(s: &str) -> Value<String> {
    Value::Str(s.to_string())
}

fn float(s: &str) -> Value<String> {
    Value::Float(s.to_string())
}

#[test]
fn each_kind_of_value_has_its_text() {
    assert_eq!(Value::<String>::Null.text(), "NULL");
    assert_eq!(Value::<String>::Int(0).text(), "0");
    assert_eq!(Value::<String>::Int(-42).text(), "-42");
    assert_eq!(Value::<String>::Int(1234567890).text(), "1234567890");
    assert_eq!(Value::<String>::Int(i64::MAX).text(), "9223372036854775807");
    assert_eq!(Value::<String>::Int(i64::MIN).text(), "-9223372036854775808");
    assert_eq!(float("2.5").text(), "2.5");
    assert_eq!(Value::<String>::Bool(true).text(), "true");
    assert_eq!(Value::<String>::Bool(false).text(), "false");
    assert_eq!(text("süd").text(), "süd");
}

#[test]
fn a_value_is_written_behind_what_is_there() {
    let mut out = "x=".to_string();
    write_value(&mut out, &Value::Int(7));
    assert_eq!(out, "x=7");
}

#[test]
fn a_chunk_prints_row_by_row() {
    let chunk = vec![
        vec![Value::Int(1), Value::Int(2)],
        vec![text("a"), Value::Null],
    ];
    let mut out = String::new();
    print_chunk(&mut out, &chunk);
    assert_eq!(out, "1\ta\n2\tNULL\n");
}

#[test]
fn a_short_column_leaves_its_cells_empty() {
    let chunk = vec![
        vec![Value::Int(1), Value::Int(2)],
        vec![text("a")],
        vec![Value::Bool(true), Value::Bool(false)],
    ];
    let mut out = String::new();
    print_chunk(&mut out, &chunk);
    assert_eq!(out, "1\ta\ttrue\n2\t\tfalse\n");
}

#[test]
fn a_chunk_without_columns_prints_nothing() {
    let mut out = "kept".to_string();
    print_chunk(&mut out, &vec![]);
    assert_eq!(out, "kept");
}

#[test]
fn a_result_prints_its_header_and_its_rows() {
    let result = QueryResult {
        columns: vec!["id".to_string(), "amount".to_string()],
        rows: vec![
            vec![Value::Int(996), float("9.5")],
            vec![Value::Int(997), Value::Null],
        ],
    };
    assert_eq!(print_result_streaming(&result), "id\tamount\n996\t9.5\n997\tNULL\n");
}

#[test]
fn a_result_without_rows_prints_its_header() {
    let result = QueryResult { columns: vec!["id".to_string()], rows: vec![] };
    assert_eq!(print_result_streaming(&result), "id\n");
}

#[test]
fn streamed_and_collected_output_agree() {
    let columns = vec!["id".to_string(), "name".to_string()];
    let events = vec![
        StreamEvent::Columns(columns.clone()),
        StreamEvent::Chunk(vec![
            vec![Value::Int(996), Value::Int(997)],
            vec![text("a"), text("b")],
        ]),
        StreamEvent::Chunk(vec![vec![Value::Int(998)], vec![Value::Null]]),
    ];
    let mut header = false;
    let mut streamed = String::new();
    for event in &events {
        streamed.push_str(&stream_event_text(event, &mut header));
    }
    assert!(header);
    let result = QueryResult {
        columns,
        rows: vec![
            vec![Value::Int(996), text("a")],
            vec![Value::Int(997), text("b")],
            vec![Value::Int(998), Value::Null],
        ],
    };
    let handler = ColumnHandler { engine: QueryEngine::<u8>::default() };
    let reply = query_reply(&handler, &Ok(Output::Rows(result)));
    assert!(reply.success);
    assert_eq!(reply.err, "");
    assert_eq!(streamed, reply.out);
    assert_eq!(streamed, "id\tname\n996\ta\n997\tb\n998\tNULL\n");
}

#[test]
fn rows_become_a_chunk_column_by_column() {
    let rows = vec![
        vec![Value::Int(1), text("a")],
        vec![Value::Int(2), Value::Null],
        vec![Value::Int(3), text("c")],
    ];
    let chunk = chunk_of(2, rows);
    assert_eq!(
        chunk,
        vec![
            vec![Value::Int(1), Value::Int(2), Value::Int(3)],
            vec![text("a"), Value::Null, text("c")],
        ]
    );
    let mut out = String::new();
    print_chunk(&mut out, &chunk);
    assert_eq!(out, "1\ta\n2\tNULL\n3\tc\n");
}

#[test]
fn a_chunk_without_rows_keeps_its_columns() {
    assert_eq!(chunk_of(2, vec![]), vec![vec![], vec![]]);
    assert!(chunk_of(0, vec![]).is_empty());
}

#[test]
fn rows_of_one_length_become_one_chunk() {
    let rows = || vec![vec![Value::Int(1), text("a")], vec![Value::Int(2), text("b")]];
    assert_eq!(chunks_of(rows()), vec![chunk_of(2, rows())]);
    assert!(chunks_of(vec![]).is_empty());
}

#[test]
fn rows_of_different_lengths_print_as_they_are() {
    let rows = vec![
        vec![Value::Int(1)],
        vec![],
        vec![Value::Int(2), text("b")],
        vec![Value::Null],
    ];
    let chunks = chunks_of(rows);
    assert_eq!(chunks.len(), 3);
    let mut out = String::new();
    for chunk in &chunks {
        print_chunk(&mut out, chunk);
    }
    assert_eq!(out, "1\n2\tb\nNULL\n");
    assert!(chunks_of(vec![vec![], vec![]]).is_empty());
}
