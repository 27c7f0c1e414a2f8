use column_rs::batch::{
    read_whole_table, reader_for, row_group_segments, ColumnData, ColumnReader, RowGroupData,
    RowGroupSegment,
};
use column_rs::columns::{
    leaf_columns, resolve_columns, LeafColumn, PhysicalType, QualifiedName, SchemaElement,
};
use column_rs::error::{PlanError, QueryError, VmError};
use column_rs::scan::{
    execute, execute_joined, execute_semi_join, execute_windowed, run_program, JoinColumns,
    PlannedSemiJoin, SemiJoinColumns,
};
use column_rs::value::Value;

fn element(name: &str, physical_type: Option<PhysicalType>) -> SchemaElement {
    SchemaElement { name: name.to_string(), physical_type }
}

fn schema() -> Vec<SchemaElement> {
    vec![
        element("root", None),
        element("id", Some(PhysicalType::Int64)),
        element("point", None),
        element("x", Some(PhysicalType::Double)),
        element("name", Some(PhysicalType::ByteArray)),
    ]
}

fn leaf(name: &str, index: usize, physical_type: PhysicalType) -> LeafColumn {
    LeafColumn { name: name.to_string(), index, physical_type }
}

fn name(full: &str) -> QualifiedName {
    let column = match full.split_once('.') {
        Some((_, column)) => column,
        None => full,
    };
    QualifiedName { name: full.to_string(), column: column.to_string() }
}

fn shown(columns: &[LeafColumn]) -> Vec<(&str, usize, PhysicalType)> {
    columns.iter().map(|c| (c.name.as_str(), c.index, c.physical_type)).collect()
}

fn message<T>(out: Result<T, QueryError>) -> String {
    match out {
        Ok(_) => panic!("expected an error"),
        Err(e) => e.message(),
    }
}

#[test]
fn leaves_skip_the_root_and_groups_but_count_them() {
    assert_eq!(
        shown(&leaf_columns(&schema())),
        vec![
            ("id", 0, PhysicalType::Int64),
            ("x", 2, PhysicalType::Double),
            ("name", 3, PhysicalType::ByteArray),
        ]
    );
    assert!(leaf_columns(&[]).is_empty());
    assert!(leaf_columns(&schema()[..1]).is_empty());
}

#[test]
fn resolving_keeps_each_name_as_the_query_wrote_it() {
    let leaves = leaf_columns(&schema());
    let names = [name("t.name"), name("id"), name("t.id")];
    assert_eq!(
        shown(&resolve_columns(&leaves, &names).unwrap()),
        vec![
            ("t.name", 3, PhysicalType::ByteArray),
            ("id", 0, PhysicalType::Int64),
            ("t.id", 0, PhysicalType::Int64),
        ]
    );
}

#[test]
fn resolving_fails_on_the_first_unknown_name() {
    let leaves = leaf_columns(&schema());
    let names = [name("id"), name("t.nope"), name("other")];
    assert_eq!(message(resolve_columns(&leaves, &names)), "unknown column: t.nope");
    assert_eq!(message(resolve_columns(&leaves, &[name("point")])), "unknown column: point");
}

#[test]
fn the_last_of_two_leaves_of_a_name_counts() {
    let leaves = [leaf("a", 0, PhysicalType::Int32), leaf("a", 1, PhysicalType::Float)];
    assert_eq!(
        shown(&resolve_columns(&leaves, &[name("a")]).unwrap()),
        vec![("a", 1, PhysicalType::Float)]
    );
}

#[test]
fn each_physical_type_has_its_reader() {
    assert_eq!(reader_for(PhysicalType::Int64), ColumnReader::Int64);
    assert_eq!(reader_for(PhysicalType::Int32), ColumnReader::Int32);
    assert_eq!(reader_for(PhysicalType::Double), ColumnReader::Double);
    assert_eq!(reader_for(PhysicalType::Float), ColumnReader::Float);
    assert_eq!(reader_for(PhysicalType::Boolean), ColumnReader::Boolean);
    assert_eq!(reader_for(PhysicalType::ByteArray), ColumnReader::Text);
    assert_eq!(reader_for(PhysicalType::FixedLenByteArray), ColumnReader::Text);
    assert_eq!(reader_for(PhysicalType::Int96), ColumnReader::Text);
}

#[test]
fn decoded_cells_become_values() {
    assert_eq!(
        ColumnData::Int64(vec![Some(i64::MIN), None]).to_values(),
        vec![Value::Int(i64::MIN), Value::Null]
    );
    assert_eq!(
        ColumnData::Int32(vec![Some(-7), None]).to_values(),
        vec![Value::Int(-7), Value::Null]
    );
    let half = 0.5f64.to_bits();
    assert_eq!(
        ColumnData::Double(vec![Some(half), None]).to_values(),
        vec![Value::Float(half), Value::Null]
    );
    let widened = f64::from(0.5f32).to_bits();
    assert_eq!(
        ColumnData::Float(vec![None, Some(widened)]).to_values(),
        vec![Value::Null, Value::Float(half)]
    );
    assert_eq!(
        ColumnData::Boolean(vec![Some(false), None]).to_values(),
        vec![Value::Bool(false), Value::Null]
    );
    assert_eq!(
        ColumnData::Text(vec![Some("a".to_string()), None]).to_values(),
        vec![Value::Str("a".to_string()), Value::Null]
    );
}

fn two_columns() -> Vec<LeafColumn> {
    vec![leaf("t.id", 0, PhysicalType::Int64), leaf("t.name", 3, PhysicalType::ByteArray)]
}

fn group(ids: Vec<Option<i64>>, names: Vec<Option<String>>) -> Option<RowGroupData> {
    Some(RowGroupData {
        num_rows: ids.len(),
        decoded: vec![Ok(ColumnData::Int64(ids)), Ok(ColumnData::Text(names))],
    })
}

#[test]
fn a_segment_loads_its_columns_by_name() {
    let segment = RowGroupSegment { row_group_index: 0, columns: two_columns() };
    let data = group(vec![Some(1), None], vec![None, Some("b".to_string())]);
    let batch = segment.load(&data).unwrap();
    assert_eq!(batch.num_rows(), 2);
    assert_eq!(
        batch.column(&"t.id".to_string()).unwrap(),
        &vec![Value::Int(1), Value::Null]
    );
    assert_eq!(
        batch.column(&"t.name".to_string()).unwrap(),
        &vec![Value::Null, Value::Str("b".to_string())]
    );
    assert!(batch.column(&"id".to_string()).is_none());
    let names: Vec<String> = batch.into_columns().into_iter().map(|c| c.name).collect();
    assert_eq!(names, vec!["t.id", "t.name"]);
}

#[test]
fn a_column_that_does_not_decode_is_an_error() {
    let segment = RowGroupSegment { row_group_index: 3, columns: two_columns() };
    let data = Some(RowGroupData {
        num_rows: 1,
        decoded: vec![
            Ok(ColumnData::Int64(vec![Some(1)])),
            Err("unexpected end of page".to_string()),
        ],
    });
    match segment.load(&data) {
        Err(e) => assert_eq!(e.message(), "row group 3, column t.name: unexpected end of page"),
        Ok(_) => panic!("expected an error"),
    }
    let table = read_whole_table(&two_columns(), &[data]);
    assert_eq!(
        table.unwrap_err().message(),
        "row group 0, column t.name: unexpected end of page"
    );
}

#[test]
fn a_row_group_that_is_not_there_is_an_error() {
    let segment = RowGroupSegment { row_group_index: 7, columns: two_columns() };
    match segment.load(&None) {
        Err(VmError::SegmentLoad { row_group, column, .. }) => {
            assert_eq!(row_group, 7);
            assert!(column.is_none());
        }
        other => panic!("{other:?}"),
    }
}

#[test]
fn a_whole_table_stacks_its_row_groups() {
    let groups = vec![
        group(vec![Some(1), Some(2)], vec![Some("a".to_string()), None]),
        group(vec![], vec![]),
        group(vec![Some(3)], vec![Some("c".to_string())]),
    ];
    let table = read_whole_table(&two_columns(), &groups).unwrap();
    assert_eq!(table.num_rows(), 3);
    assert_eq!(
        table.column(&"t.id".to_string()).unwrap(),
        &vec![Value::Int(1), Value::Int(2), Value::Int(3)]
    );
    assert_eq!(
        table.column(&"t.name".to_string()).unwrap(),
        &vec![Value::Str("a".to_string()), Value::Null, Value::Str("c".to_string())]
    );
}

#[test]
fn a_table_without_row_groups_has_empty_columns() {
    let table = read_whole_table(&two_columns(), &[]).unwrap();
    assert_eq!(table.num_rows(), 0);
    assert!(table.column(&"t.id".to_string()).unwrap().is_empty());
}

#[test]
fn a_column_listed_twice_is_read_once() {
    let columns = vec![leaf("a", 0, PhysicalType::Int64), leaf("a", 0, PhysicalType::Int64)];
    let group = |i: i64| {
        Some(RowGroupData {
            num_rows: 1,
            decoded: vec![
                Ok(ColumnData::Int64(vec![Some(i)])),
                Ok(ColumnData::Int64(vec![Some(i)])),
            ],
        })
    };
    let table = read_whole_table(&columns, &[group(1), group(2)]).unwrap();
    assert_eq!(table.num_rows(), 2);
    assert_eq!(
        table.column(&"a".to_string()).unwrap(),
        &vec![Value::Int(1), Value::Int(2)]
    );
    assert_eq!(table.into_columns().len(), 1);
}

#[test]
fn every_row_group_is_a_segment() {
    let segments = row_group_segments(3, &two_columns());
    let indices: Vec<usize> = segments.iter().map(|s| s.row_group_index).collect();
    assert_eq!(indices, vec![0, 1, 2]);
    for segment in &segments {
        assert_eq!(shown(&segment.columns), shown(&two_columns()));
    }
    assert!(row_group_segments(0, &two_columns()).is_empty());
}

#[test]
fn a_program_runs_over_every_row_group() {
    let segments = run_program(&schema(), 2, &[name("x")]).unwrap();
    assert_eq!(segments.len(), 2);
    assert_eq!(shown(&segments[1].columns), vec![("x", 2, PhysicalType::Double)]);
    assert_eq!(message(run_program(&schema(), 2, &[name("y")])), "unknown column: y");
}

#[test]
fn a_plan_that_fails_reads_nothing() {
    let broken = || PlanError::Internal("no register".to_string());
    assert_eq!(message(execute(&schema(), 1, Err(broken()))), "no register");
    assert_eq!(message(execute_windowed(&schema(), Err(broken()))), "no register");
    assert_eq!(message(execute_joined(&schema(), 1, &schema(), Err(broken()))), "no register");
    assert_eq!(message(execute_semi_join(&schema(), Err(broken()))), "no register");
}

#[test]
fn a_planned_query_reads_its_columns() {
    let segments = execute(&schema(), 1, Ok(vec![name("id")])).unwrap();
    assert_eq!(shown(&segments[0].columns), vec![("id", 0, PhysicalType::Int64)]);
    let columns = execute_windowed(&schema(), Ok(vec![name("name")])).unwrap();
    assert_eq!(shown(&columns), vec![("name", 3, PhysicalType::ByteArray)]);
}

#[test]
fn a_join_reads_its_left_side_by_row_groups_and_its_right_side_whole() {
    let plan = Ok(JoinColumns { left: vec![name("a.id")], right: vec![name("b.x")] });
    let input = execute_joined(&schema(), 3, &schema(), plan).unwrap();
    let indices: Vec<usize> = input.left.iter().map(|s| s.row_group_index).collect();
    assert_eq!(indices, vec![0, 1, 2]);
    for segment in &input.left {
        assert_eq!(shown(&segment.columns), vec![("a.id", 0, PhysicalType::Int64)]);
    }
    assert_eq!(shown(&input.right), vec![("b.x", 2, PhysicalType::Double)]);
}

#[test]
fn a_join_resolves_its_left_side_first() {
    let plan = |left: &str, right: &str| {
        Ok(JoinColumns { left: vec![name(left)], right: vec![name(right)] })
    };
    assert_eq!(
        message(execute_joined(&schema(), 1, &schema(), plan("a.no", "b.nope"))),
        "unknown column: a.no"
    );
    assert_eq!(
        message(execute_joined(&schema(), 1, &schema(), plan("a.id", "b.nope"))),
        "unknown column: b.nope"
    );
}

fn semi(body: &[&str], sub_rows: Result<Vec<Vec<Value<String>>>, QueryError>) -> PlannedSemiJoin {
    PlannedSemiJoin {
        columns: SemiJoinColumns {
            body: body.iter().map(|n| name(n)).collect(),
            key: name("name"),
        },
        sub_rows,
    }
}

#[test]
fn a_semi_join_reads_its_key_and_lets_each_key_through_once() {
    let rows = vec![
        vec![Value::Str("north".to_string())],
        vec![Value::Int(7)],
        vec![Value::Str("7".to_string())],
        vec![Value::Null],
    ];
    let input = execute_semi_join(&schema(), Ok(semi(&["id"], Ok(rows)))).unwrap();
    assert_eq!(
        shown(&input.columns),
        vec![("id", 0, PhysicalType::Int64), ("name", 3, PhysicalType::ByteArray)]
    );
    assert_eq!(input.allowed, vec!["north", "7", "NULL"]);
}

#[test]
fn a_key_that_is_read_anyway_is_read_once() {
    let input = execute_semi_join(&schema(), Ok(semi(&["name", "id"], Ok(vec![])))).unwrap();
    assert_eq!(
        shown(&input.columns),
        vec![("name", 3, PhysicalType::ByteArray), ("id", 0, PhysicalType::Int64)]
    );
    assert!(input.allowed.is_empty());
}

#[test]
fn a_subquery_of_two_columns_is_refused() {
    let rows = vec![vec![Value::Int(1), Value::Int(2)]];
    assert_eq!(
        message(execute_semi_join(&schema(), Ok(semi(&["nope"], Ok(rows))))),
        "unsupported semi-join: IN subquery must select exactly one column"
    );
    assert_eq!(
        message(execute_semi_join(&schema(), Ok(semi(&["nope"], Ok(vec![]))))),
        "unknown column: nope"
    );
    let e = QueryError::UnknownColumn("inner".to_string());
    assert_eq!(
        message(execute_semi_join(&schema(), Ok(semi(&["nope"], Err(e))))),
        "unknown column: inner"
    );
}
