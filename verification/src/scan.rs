//! What a planned program reads: the columns to load from each file, and, for a
//! semi-join, the key values that are let through.

use crate::batch::{row_group_segments, RowGroupSegment};
use crate::columns::{leaf_columns, resolve_columns, LeafColumn, QualifiedName, SchemaElement};
use crate::error::{PlanError, QueryError};
use crate::value::Value;
use vstd::prelude::*;
use vstd::string::*;

verus! {

/// The columns that a planned join loads from its two sides.
#[derive(Debug)]
pub struct JoinColumns {
    pub left: Vec<QualifiedName>,
    pub right: Vec<QualifiedName>,
}

/// The columns that a planned semi-join loads, and the column that it filters by.
#[derive(Debug)]
pub struct SemiJoinColumns {
    pub body: Vec<QualifiedName>,
    pub key: QualifiedName,
}

/// A planned semi-join, and what its subquery gave.
#[derive(Debug)]
pub struct PlannedSemiJoin {
    pub columns: SemiJoinColumns,
    pub sub_rows: Result<Vec<Vec<Value<String>>>, QueryError>,
}

/// What a join reads: its probe (left) side row group by row group, its build
/// (right) side whole.
#[derive(Debug)]
pub struct JoinInput {
    pub left: Vec<RowGroupSegment>,
    pub right: Vec<LeafColumn>,
}

/// What a semi-join reads, and the texts of the keys that it lets through.
#[derive(Debug)]
pub struct SemiJoinInput {
    pub columns: Vec<LeafColumn>,
    pub allowed: Vec<String>,
}

/// The columns of a file that the given names stand for, or the error that
/// names the first unknown one.
pub open spec fn file_columns(
    schema: Seq<SchemaElement>,
    names: Seq<QualifiedName>,
) -> Result<Seq<LeafColumn>, crate::error::QueryErrorView> {
    match crate::columns::resolved(crate::columns::leaves_of(schema), names, names.len()) {
        Ok(columns) => Ok(columns),
        Err(name) => Err(crate::error::QueryErrorView::UnknownColumn(name)),
    }
}

/// One segment for each row group, all over the same columns.
pub open spec fn covers_row_groups(
    segments: Seq<RowGroupSegment>,
    num_row_groups: nat,
    columns: Seq<LeafColumn>,
) -> bool {
    segments.len() == num_row_groups && forall|i: int|
        0 <= i < segments.len() ==> (#[trigger] segments[i]).row_group_index == i
            && segments[i].columns@ == columns
}

fn resolve(schema: &[SchemaElement], names: &[QualifiedName]) -> (out: Result<
    Vec<LeafColumn>,
    QueryError,
>)
    ensures
        match file_columns(schema@, names@) {
            Ok(columns) => out matches Ok(found) && found@ == columns,
            Err(e) => out matches Err(error) && error@ == e,
        },
{
    let leaves = leaf_columns(schema);
    resolve_columns(leaves.as_slice(), names)
}

/// The segments over which a program runs: every row group of the file, with
/// the columns that the program loads.
pub fn run_program(
    schema: &[SchemaElement],
    num_row_groups: usize,
    columns_to_load: &[QualifiedName],
) -> (out: Result<Vec<RowGroupSegment>, QueryError>)
    ensures
        match file_columns(schema@, columns_to_load@) {
            Ok(columns) => out matches Ok(segments) && covers_row_groups(
                segments@,
                num_row_groups as nat,
                columns,
            ),
            Err(e) => out matches Err(error) && error@ == e,
        },
{
    match resolve(schema, columns_to_load) {
        Ok(columns) => Ok(row_group_segments(num_row_groups, columns.as_slice())),
        Err(e) => Err(e),
    }
}

/// The segments over which a single-table query runs. `planned` is what the
/// planner made of the query: the columns that its program loads.
pub fn execute(
    schema: &[SchemaElement],
    num_row_groups: usize,
    planned: Result<Vec<QualifiedName>, PlanError>,
) -> (out: Result<Vec<RowGroupSegment>, QueryError>)
    ensures
        match planned {
            Err(e) => out matches Err(error) && error == crate::error::plan_failure(e),
            Ok(names) => match file_columns(schema@, names@) {
                Ok(columns) => out matches Ok(segments) && covers_row_groups(
                    segments@,
                    num_row_groups as nat,
                    columns,
                ),
                Err(e) => out matches Err(error) && error@ == e,
            },
        },
{
    match planned {
        Ok(names) => run_program(schema, num_row_groups, names.as_slice()),
        Err(e) => Err(QueryError::from(e)),
    }
}

/// What a query with one join reads: every row group of its left file as a
/// segment, and the columns of the right file, which is read whole. The left side
/// is resolved first.
pub fn execute_joined(
    left_schema: &[SchemaElement],
    left_row_groups: usize,
    right_schema: &[SchemaElement],
    planned: Result<JoinColumns, PlanError>,
) -> (out: Result<JoinInput, QueryError>)
    ensures
        match planned {
            Err(e) => out matches Err(error) && error == crate::error::plan_failure(e),
            Ok(names) => match (
                file_columns(left_schema@, names.left@),
                file_columns(right_schema@, names.right@),
            ) {
                (Err(e), _) => out matches Err(error) && error@ == e,
                (_, Err(e)) => out matches Err(error) && error@ == e,
                (Ok(left), Ok(right)) => {
                    &&& out matches Ok(input)
                    &&& covers_row_groups(input.left@, left_row_groups as nat, left)
                    &&& input.right@ == right
                },
            },
        },
{
    let names = match planned {
        Ok(names) => names,
        Err(e) => {
            return Err(QueryError::from(e));
        },
    };
    let left = match run_program(left_schema, left_row_groups, names.left.as_slice()) {
        Ok(segments) => segments,
        Err(e) => {
            return Err(e);
        },
    };
    match resolve(right_schema, names.right.as_slice()) {
        Ok(right) => Ok(JoinInput { left, right }),
        Err(e) => Err(e),
    }
}

/// The columns that a query with window functions reads from the whole table.
pub fn execute_windowed(
    schema: &[SchemaElement],
    planned: Result<Vec<QualifiedName>, PlanError>,
) -> (out: Result<Vec<LeafColumn>, QueryError>)
    ensures
        match planned {
            Err(e) => out matches Err(error) && error == crate::error::plan_failure(e),
            Ok(names) => match file_columns(schema@, names@) {
                Ok(columns) => out matches Ok(found) && found@ == columns,
                Err(e) => out matches Err(error) && error@ == e,
            },
        },
{
    match planned {
        Ok(names) => resolve(schema, names.as_slice()),
        Err(e) => Err(QueryError::from(e)),
    }
}

/// The first row of the subquery has one column, if there is a row.
pub open spec fn one_column(rows: Seq<Vec<Value<String>>>) -> bool {
    rows.len() > 0 ==> rows[0]@.len() == 1
}

/// `text` is the text of some row's first cell.
pub open spec fn let_through(rows: Seq<Vec<Value<String>>>, text: Seq<char>) -> bool {
    exists|r: int|
        0 <= r < rows.len() && crate::value::value_text((#[trigger] rows[r])@[0]) == text
}

/// The program's columns, and the key column behind them if it is not among them.
pub open spec fn needed(names: SemiJoinColumns) -> Seq<QualifiedName> {
    if exists|i: int| 0 <= i < names.body@.len() && (#[trigger] names.body@[i]).name@ == names.key.name@ {
        names.body@
    } else {
        names.body@.push(names.key)
    }
}

fn contains_text(list: &Vec<String>, text: &String) -> (yes: bool)
    ensures
        yes == exists|i: int| 0 <= i < list@.len() && (#[trigger] list@[i])@ == text@,
{
    let mut i: usize = 0;
    while i < list.len()
        invariant
            i <= list.len(),
            forall|k: int| 0 <= k < i ==> (#[trigger] list@[k])@ != text@,
        decreases list.len() - i,
    {
        if list[i] == *text {
            return true;
        }
        i = i + 1;
    }
    false
}

fn allowed_keys(rows: &Vec<Vec<Value<String>>>) -> (allowed: Vec<String>)
    requires
        forall|r: int| 0 <= r < rows@.len() ==> (#[trigger] rows@[r])@.len() > 0,
    ensures
        crate::text::texts(allowed@).no_duplicates(),
        forall|text: Seq<char>|
            crate::text::texts(allowed@).contains(text) <==> let_through(rows@, text),
{
    let mut allowed: Vec<String> = Vec::new();
    let mut r: usize = 0;
    while r < rows.len()
        invariant
            r <= rows.len(),
            forall|k: int| 0 <= k < rows@.len() ==> (#[trigger] rows@[k])@.len() > 0,
            crate::text::texts(allowed@).no_duplicates(),
            forall|text: Seq<char>|
                crate::text::texts(allowed@).contains(text) <==> let_through(
                    rows@.take(r as int),
                    text,
                ),
        decreases rows.len() - r,
    {
        let text = rows[r][0].text();
        let ghost seen = rows@.take(r as int);
        let ghost now = rows@.take(r + 1);
        let ghost before = crate::text::texts(allowed@);
        if !contains_text(&allowed, &text) {
            allowed.push(text);
            assert(crate::text::texts(allowed@) =~= before.push(text@));
            assert(!before.contains(text@)) by {
                if before.contains(text@) {
                    let k = choose|k: int| 0 <= k < before.len() && before[k] == text@;
                    assert(before[k] == text@);
                }
            }
        } else {
            assert(before.contains(text@)) by {
                let k = choose|k: int|
                    0 <= k < allowed@.len() && (#[trigger] allowed@[k])@ == text@;
                assert(before[k] == text@);
            }
        }
        let ghost after = crate::text::texts(allowed@);
        assert forall|t: Seq<char>| after.contains(t) <==> let_through(now, t) by {
            assert(now[r as int] == rows@[r as int]);
            assert(crate::value::value_text(now[r as int]@[0]) == text@);
            if after.contains(t) {
                if t != text@ {
                    let k = choose|k: int| 0 <= k < after.len() && after[k] == t;
                    assert(before[k] == t);
                    assert(before.contains(t));
                    let q = choose|q: int|
                        0 <= q < seen.len() && crate::value::value_text((#[trigger] seen[q])@[0])
                            == t;
                    assert(now[q] == seen[q]);
                }
            }
            if let_through(now, t) {
                let q = choose|q: int|
                    0 <= q < now.len() && crate::value::value_text((#[trigger] now[q])@[0]) == t;
                if q < r {
                    assert(seen[q] == now[q]);
                    assert(before.contains(t));
                    let k = choose|k: int| 0 <= k < before.len() && before[k] == t;
                    assert(after[k] == t);
                } else if after.len() > before.len() {
                    assert(after[before.len() as int] == t);
                }
            }
        }
        r = r + 1;
    }
    assert(rows@.take(rows.len() as int) =~= rows@);
    allowed
}

/// What a planned semi-join reads, or why it does not: the subquery's own error
/// comes before a subquery of more than one column, and that before an unknown
/// column.
pub open spec fn semi_join_reads(
    schema: Seq<SchemaElement>,
    plan: PlannedSemiJoin,
    out: Result<SemiJoinInput, QueryError>,
) -> bool {
    match plan.sub_rows {
        Err(e) => out matches Err(error) && error == e,
        Ok(rows) => if !one_column(rows@) {
            out matches Err(error) && error@ == crate::error::QueryErrorView::UnsupportedSemiJoin(
                "IN subquery must select exactly one column"@,
            )
        } else {
            match file_columns(schema, needed(plan.columns)) {
                Err(e) => out matches Err(error) && error@ == e,
                Ok(columns) => {
                    &&& out matches Ok(input)
                    &&& input.columns@ == columns
                    &&& crate::text::texts(input.allowed@).no_duplicates()
                    &&& forall|text: Seq<char>|
                        crate::text::texts(input.allowed@).contains(text) <==> let_through(
                            rows@,
                            text,
                        )
                },
            }
        },
    }
}

/// What a query whose entire `WHERE` clause is `col IN (SELECT ...)` reads from
/// its own table: the program's columns with the key column, and the keys that
/// are let through, each by its text.
pub fn execute_semi_join(
    main_schema: &[SchemaElement],
    planned: Result<PlannedSemiJoin, PlanError>,
) -> (out: Result<SemiJoinInput, QueryError>)
    requires
        planned matches Ok(plan) ==> (plan.sub_rows matches Ok(rows) ==> one_column(rows@)
            ==> forall|r: int| 0 <= r < rows@.len() ==> (#[trigger] rows@[r])@.len() > 0),
    ensures
        match planned {
            Err(e) => out matches Err(error) && error == crate::error::plan_failure(e),
            Ok(plan) => semi_join_reads(main_schema@, plan, out),
        },
{
    let plan = match planned {
        Ok(plan) => plan,
        Err(e) => {
            return Err(QueryError::from(e));
        },
    };
    let sub_rows = match plan.sub_rows {
        Ok(rows) => rows,
        Err(e) => {
            return Err(e);
        },
    };
    if sub_rows.len() > 0 && sub_rows[0].len() != 1 {
        return Err(
            QueryError::UnsupportedSemiJoin(
                "IN subquery must select exactly one column".to_string(),
            ),
        );
    }
    let allowed = allowed_keys(&sub_rows);
    let ghost wanted = needed(plan.columns);
    let mut names = plan.columns.body;
    let key = plan.columns.key;
    let mut present = false;
    let mut i: usize = 0;
    while i < names.len()
        invariant
            i <= names.len(),
            present == exists|k: int| 0 <= k < i && (#[trigger] names@[k]).name@ == key.name@,
        decreases names.len() - i,
    {
        if names[i].name == key.name {
            present = true;
        }
        i = i + 1;
    }
    if !present {
        names.push(key);
    }
    assert(names@ == wanted);
    match resolve(main_schema, names.as_slice()) {
        Ok(columns) => Ok(SemiJoinInput { columns, allowed }),
        Err(e) => Err(e),
    }
}

/// The key column of a semi-join is always among the columns that are read.
pub proof fn law_key_column_is_read(names: SemiJoinColumns)
    ensures
        exists|i: int|
            0 <= i < needed(names).len() && (#[trigger] needed(names)[i]).name@ == names.key.name@,
{
    if !(exists|i: int|
        0 <= i < names.body@.len() && (#[trigger] names.body@[i]).name@ == names.key.name@) {
        assert(needed(names)[names.body@.len() as int].name@ == names.key.name@);
    } else {
        let i = choose|i: int|
            0 <= i < names.body@.len() && (#[trigger] names.body@[i]).name@ == names.key.name@;
        assert(needed(names)[i].name@ == names.key.name@);
    }
}

/// The first cell of every row that the subquery gave, of whatever kind it is, is
/// let through by its text; and whatever is let through is the text of some row's
/// first cell.
pub proof fn law_every_key_of_the_subquery_is_let_through(
    schema: Seq<SchemaElement>,
    plan: PlannedSemiJoin,
    rows: Vec<Vec<Value<String>>>,
    input: SemiJoinInput,
    r: int,
    k: int,
)
    requires
        plan.sub_rows == Ok::<Vec<Vec<Value<String>>>, QueryError>(rows),
        semi_join_reads(schema, plan, Ok(input)),
    ensures
        0 <= r < rows@.len() ==> exists|i: int|
            0 <= i < input.allowed@.len() && (#[trigger] input.allowed@[i])@
                == crate::value::value_text(rows@[r]@[0]),
        0 <= k < input.allowed@.len() ==> exists|i: int|
            0 <= i < rows@.len() && crate::value::value_text((#[trigger] rows@[i])@[0])
                == input.allowed@[k]@,
        forall|i: int|
            0 <= i < k < input.allowed@.len() ==> (#[trigger] input.allowed@[i])@
                != input.allowed@[k]@,
{
    let keys = crate::text::texts(input.allowed@);
    if 0 <= r < rows@.len() {
        let text = crate::value::value_text(rows@[r]@[0]);
        assert(let_through(rows@, text));
        assert(keys.contains(text));
        let i = choose|i: int| 0 <= i < keys.len() && keys[i] == text;
        assert(input.allowed@[i]@ == text);
    }
    if 0 <= k < input.allowed@.len() {
        assert(keys[k] == input.allowed@[k]@);
        assert(keys.contains(keys[k]));
        assert(let_through(rows@, keys[k]));
        assert forall|i: int| 0 <= i < k implies (#[trigger] input.allowed@[i])@
            != input.allowed@[k]@ by {
            assert(keys[i] != keys[k]);
        }
    }
}

/// A semi-join fails with the subquery's own error, else because the subquery's
/// first row has not just one cell, else because a column is unknown; and on nothing
/// else.
pub proof fn law_semi_join_fails_for_a_reason(
    schema: Seq<SchemaElement>,
    plan: PlannedSemiJoin,
    out: Result<SemiJoinInput, QueryError>,
)
    requires
        semi_join_reads(schema, plan, out),
    ensures
        match plan.sub_rows {
            Err(e) => out == Err::<SemiJoinInput, QueryError>(e),
            Ok(rows) => if rows@.len() > 0 && rows@[0]@.len() != 1 {
                out matches Err(error) && error@
                    == crate::error::QueryErrorView::UnsupportedSemiJoin(
                    "IN subquery must select exactly one column"@,
                )
            } else {
                out matches Err(error) ==> error@ is UnknownColumn
            },
        },
        plan.sub_rows matches Ok(rows) && rows@.len() == 0 ==> (out matches Ok(input)
            ==> input.allowed@.len() == 0),
{
    if plan.sub_rows is Ok && out is Ok {
        let rows = plan.sub_rows->Ok_0;
        let input = out->Ok_0;
        if rows@.len() == 0 && input.allowed@.len() > 0 {
            let keys = crate::text::texts(input.allowed@);
            assert(keys.contains(keys[0]));
            assert(let_through(rows@, keys[0]));
        }
    }
}

/// A semi-join reads the program's columns, all of them and in their order, and
/// behind them the key column exactly if its name is not among theirs.
pub proof fn law_semi_join_reads_program_and_key(names: SemiJoinColumns)
    ensures
        needed(names).take(names.body@.len() as int) == names.body@,
        (forall|i: int| 0 <= i < names.body@.len() ==> (#[trigger] names.body@[i]).name@
            != names.key.name@) ==> needed(names).len() == names.body@.len() + 1 && needed(
            names,
        ).last() == names.key,
        (exists|i: int| 0 <= i < names.body@.len() && (#[trigger] names.body@[i]).name@
            == names.key.name@) ==> needed(names).len() == names.body@.len(),
{
    assert(needed(names).take(names.body@.len() as int) =~= names.body@);
}

/// What a program reads of a file: one column for each name, spelled as it was,
/// which is the last leaf of the file that the name's bare column names. An unknown
/// column is reported by the first such name.
pub proof fn law_file_columns_are_schema_leaves(
    schema: Seq<SchemaElement>,
    names: Seq<QualifiedName>,
)
    requires
        schema.len() <= usize::MAX,
    ensures
        match file_columns(schema, names) {
            Ok(columns) => columns.len() == names.len() && forall|i: int|
                0 <= i < names.len() ==> {
                    &&& (#[trigger] columns[i]).name == names[i].name
                    &&& crate::columns::last_leaf_at(
                        schema,
                        names[i].column@,
                        columns[i].index + 1,
                    )
                    &&& Some(columns[i].physical_type) == schema[columns[i].index
                        + 1].physical_type
                },
            Err(e) => exists|i: int|
                0 <= i < names.len() && e == crate::error::QueryErrorView::UnknownColumn(
                    (#[trigger] names[i]).name@,
                ) && crate::columns::no_leaf_named(schema, names[i].column@) && forall|j: int|
                    0 <= j < i ==> !crate::columns::no_leaf_named(
                        schema,
                        (#[trigger] names[j]).column@,
                    ),
        },
{
    crate::columns::law_names_resolve_to_schema_leaves(schema, names);
}

/// A scan reads every row group of the file once, in order, and each with the same
/// columns.
pub proof fn law_a_scan_reads_every_row_group(
    segments: Seq<RowGroupSegment>,
    num_row_groups: nat,
    columns: Seq<LeafColumn>,
    g: int,
)
    requires
        covers_row_groups(segments, num_row_groups, columns),
    ensures
        segments.len() == num_row_groups,
        0 <= g < num_row_groups ==> segments[g].row_group_index == g && segments[g].columns@
            == columns,
{
}

/// A semi-join whose subquery gave rows of one cell, or none, reads one column for
/// each of the program's names and one for the key if it is not among them: each
/// under its name, and each the last leaf of the file that the name's bare column
/// names. Where one of the names is unknown, the first such name is reported.
pub proof fn law_semi_join_reads_schema_leaves(
    schema: Seq<SchemaElement>,
    plan: PlannedSemiJoin,
    out: Result<SemiJoinInput, QueryError>,
)
    requires
        schema.len() <= usize::MAX,
        semi_join_reads(schema, plan, out),
        plan.sub_rows matches Ok(rows) && (rows@.len() > 0 ==> rows@[0]@.len() == 1),
    ensures
        ({
            let names = needed(plan.columns);
            match out {
                Ok(input) => input.columns@.len() == names.len() && forall|i: int|
                    0 <= i < names.len() ==> {
                        &&& (#[trigger] input.columns@[i]).name == names[i].name
                        &&& crate::columns::last_leaf_at(
                            schema,
                            names[i].column@,
                            input.columns@[i].index + 1,
                        )
                        &&& Some(input.columns@[i].physical_type)
                            == schema[input.columns@[i].index + 1].physical_type
                    },
                Err(e) => exists|i: int|
                    0 <= i < names.len() && e@ == crate::error::QueryErrorView::UnknownColumn(
                        (#[trigger] names[i]).name@,
                    ) && crate::columns::no_leaf_named(schema, names[i].column@) && forall|j: int|
                        0 <= j < i ==> !crate::columns::no_leaf_named(
                            schema,
                            (#[trigger] names[j]).column@,
                        ),
            }
        }),
{
    law_file_columns_are_schema_leaves(schema, needed(plan.columns));
}

} // verus!
