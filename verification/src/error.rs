//! What a query can fail with, and what the user reads of it.

use crate::text::count_text;
use vstd::prelude::*;
use vstd::string::*;

verus! {

/// How a `JOIN` combines its two sides.
#[derive(Debug, Clone, Copy, PartialEq, Eq, Structural)]
pub enum JoinOp {
    Inner,
    Left,
    Right,
    Full,
    Cross,
}

/// What the planner rejects.
#[derive(Debug)]
pub enum PlanError {
    UnknownColumn(String),
    UnsupportedSemiJoin(String),
    UnsupportedJoinKind(JoinOp),
    StarWithAggregation,
    UnsupportedSelectItem(String),
    /// A broken invariant of the planner itself.
    Internal(String),
}

/// What fails while a planned program runs.
#[derive(Debug)]
pub enum VmError {
    /// The program's shape cannot hand out rows before it has seen all of them.
    NotStreamable { reason: String },
    /// A row group that does not exist, or one of its columns that does not decode.
    SegmentLoad { row_group: usize, column: Option<String>, reason: String },
    /// Any other failure, by its message.
    Other(String),
}

/// What fails while a Parquet file is opened, by its message.
#[derive(Debug)]
pub struct FileError(pub String);

/// What a query can fail with.
#[derive(Debug)]
pub enum QueryError {
    UnknownColumn(String),
    UnknownTable(String),
    DuplicateTable(String),
    UnsupportedSemiJoin(String),
    /// A `SELECT`-list item that the planner cannot compile.
    UnsupportedSelectItem(String),
    /// A join that parses but has no execution: only `Inner` and `Left` have one.
    UnsupportedJoinKind(JoinOp),
    /// `SELECT *` (or a mixed `SELECT col, *`) combined with `GROUP BY`, an
    /// aggregate, or a window function.
    StarWithAggregation,
    /// A broken invariant of the planner itself.
    PlannerInvariant(String),
    /// A query that has to see all of its rows before the first one is known.
    NotStreamable(String),
    Vm(VmError),
    File(FileError),
    Io(String),
}

/// What a [`VmError`] says.
pub enum VmErrorView {
    NotStreamable { reason: Seq<char> },
    SegmentLoad { row_group: nat, column: Option<Seq<char>>, reason: Seq<char> },
    Other(Seq<char>),
}

/// What a [`QueryError`] says.
pub enum QueryErrorView {
    UnknownColumn(Seq<char>),
    UnknownTable(Seq<char>),
    DuplicateTable(Seq<char>),
    UnsupportedSemiJoin(Seq<char>),
    UnsupportedSelectItem(Seq<char>),
    UnsupportedJoinKind(JoinOp),
    StarWithAggregation,
    PlannerInvariant(Seq<char>),
    NotStreamable(Seq<char>),
    Vm(VmErrorView),
    File(Seq<char>),
    Io(Seq<char>),
}

impl View for VmError {
    type V = VmErrorView;

    open spec fn view(&self) -> VmErrorView {
        match *self {
            VmError::NotStreamable { reason } => VmErrorView::NotStreamable { reason: reason@ },
            VmError::SegmentLoad { row_group, column, reason } => VmErrorView::SegmentLoad {
                row_group: row_group as nat,
                column: match column {
                    Some(c) => Some(c@),
                    None => None,
                },
                reason: reason@,
            },
            VmError::Other(m) => VmErrorView::Other(m@),
        }
    }
}

impl View for QueryError {
    type V = QueryErrorView;

    open spec fn view(&self) -> QueryErrorView {
        match *self {
            QueryError::UnknownColumn(m) => QueryErrorView::UnknownColumn(m@),
            QueryError::UnknownTable(m) => QueryErrorView::UnknownTable(m@),
            QueryError::DuplicateTable(m) => QueryErrorView::DuplicateTable(m@),
            QueryError::UnsupportedSemiJoin(m) => QueryErrorView::UnsupportedSemiJoin(m@),
            QueryError::UnsupportedSelectItem(m) => QueryErrorView::UnsupportedSelectItem(m@),
            QueryError::UnsupportedJoinKind(op) => QueryErrorView::UnsupportedJoinKind(op),
            QueryError::StarWithAggregation => QueryErrorView::StarWithAggregation,
            QueryError::PlannerInvariant(m) => QueryErrorView::PlannerInvariant(m@),
            QueryError::NotStreamable(m) => QueryErrorView::NotStreamable(m@),
            QueryError::Vm(e) => QueryErrorView::Vm(e@),
            QueryError::File(e) => QueryErrorView::File(e.0@),
            QueryError::Io(m) => QueryErrorView::Io(m@),
        }
    }
}

impl vstd::std_specs::convert::FromSpecImpl<VmError> for QueryError {
    open spec fn obeys_from_spec() -> bool {
        true
    }

    open spec fn from_spec(e: VmError) -> QueryError {
        QueryError::Vm(e)
    }
}

impl From<VmError> for QueryError {
    fn from(e: VmError) -> (out: Self) {
        QueryError::Vm(e)
    }
}

impl vstd::std_specs::convert::FromSpecImpl<FileError> for QueryError {
    open spec fn obeys_from_spec() -> bool {
        true
    }

    open spec fn from_spec(e: FileError) -> QueryError {
        QueryError::File(e)
    }
}

impl From<FileError> for QueryError {
    fn from(e: FileError) -> (out: Self) {
        QueryError::File(e)
    }
}

/// The query error that stands for what the planner rejected.
pub open spec fn plan_failure(e: PlanError) -> QueryError {
    match e {
        PlanError::UnknownColumn(name) => QueryError::UnknownColumn(name),
        PlanError::UnsupportedSemiJoin(m) => QueryError::UnsupportedSemiJoin(m),
        PlanError::UnsupportedJoinKind(op) => QueryError::UnsupportedJoinKind(op),
        PlanError::StarWithAggregation => QueryError::StarWithAggregation,
        PlanError::UnsupportedSelectItem(m) => QueryError::UnsupportedSelectItem(m),
        PlanError::Internal(m) => QueryError::PlannerInvariant(m),
    }
}

impl vstd::std_specs::convert::FromSpecImpl<PlanError> for QueryError {
    open spec fn obeys_from_spec() -> bool {
        true
    }

    open spec fn from_spec(e: PlanError) -> QueryError {
        plan_failure(e)
    }
}

impl From<PlanError> for QueryError {
    fn from(e: PlanError) -> (out: Self) {
        match e {
            PlanError::UnknownColumn(name) => QueryError::UnknownColumn(name),
            PlanError::UnsupportedSemiJoin(m) => QueryError::UnsupportedSemiJoin(m),
            PlanError::UnsupportedJoinKind(op) => QueryError::UnsupportedJoinKind(op),
            PlanError::StarWithAggregation => QueryError::StarWithAggregation,
            PlanError::UnsupportedSelectItem(m) => QueryError::UnsupportedSelectItem(m),
            PlanError::Internal(m) => QueryError::PlannerInvariant(m),
        }
    }
}

/// The name of a join kind.
pub open spec fn join_name(op: JoinOp) -> Seq<char> {
    match op {
        JoinOp::Inner => "Inner"@,
        JoinOp::Left => "Left"@,
        JoinOp::Right => "Right"@,
        JoinOp::Full => "Full"@,
        JoinOp::Cross => "Cross"@,
    }
}

/// What the user reads of a [`VmError`].
pub open spec fn vm_error_text(e: VmErrorView) -> Seq<char> {
    match e {
        VmErrorView::NotStreamable { reason } => reason,
        VmErrorView::SegmentLoad { row_group, column, reason } => "row group "@
            + crate::text::digits(row_group) + (match column {
            Some(c) => ", column "@ + c,
            None => Seq::empty(),
        }) + ": "@ + reason,
        VmErrorView::Other(m) => m,
    }
}

/// What the user reads of a [`QueryError`].
pub open spec fn error_text(e: QueryErrorView) -> Seq<char> {
    match e {
        QueryErrorView::UnsupportedSemiJoin(m) => "unsupported semi-join: "@ + m,
        QueryErrorView::UnsupportedSelectItem(m) => "unsupported SELECT item: "@ + m,
        QueryErrorView::UnsupportedJoinKind(op) => "join kind "@ + join_name(op)
            + " is not yet executable (only Inner/Left are implemented)"@,
        QueryErrorView::StarWithAggregation =>
            "SELECT * cannot be combined with GROUP BY, an aggregate, or a window function"@,
        QueryErrorView::UnknownColumn(name) => "unknown column: "@ + name,
        QueryErrorView::UnknownTable(name) => "unknown table: "@ + name,
        QueryErrorView::DuplicateTable(name) => "table already loaded: "@ + name,
        QueryErrorView::PlannerInvariant(m) => m,
        QueryErrorView::NotStreamable(m) => m,
        QueryErrorView::Vm(e) => vm_error_text(e),
        QueryErrorView::File(m) => m,
        QueryErrorView::Io(m) => m,
    }
}

fn prefixed(head: &str, tail: &str) -> (out: String)
    ensures
        out@ == head@ + tail@,
{
    head.to_string().concat(tail)
}

impl JoinOp {
    fn name(self) -> (out: &'static str)
        ensures
            out@ == join_name(self),
    {
        match self {
            JoinOp::Inner => "Inner",
            JoinOp::Left => "Left",
            JoinOp::Right => "Right",
            JoinOp::Full => "Full",
            JoinOp::Cross => "Cross",
        }
    }
}

impl VmError {
    /// What the user reads of the error.
    pub fn message(&self) -> (out: String)
        ensures
            out@ == vm_error_text(self@),
    {
        match self {
            VmError::NotStreamable { reason } => reason.clone(),
            VmError::SegmentLoad { row_group, column, reason } => {
                let number = count_text(*row_group);
                let mut out = prefixed("row group ", number.as_str());
                match column {
                    Some(c) => {
                        out.append(", column ");
                        out.append(c.as_str());
                    },
                    None => {},
                }
                out.append(": ");
                out.append(reason.as_str());
                assert(out@ =~= vm_error_text(self@));
                out
            },
            VmError::Other(m) => m.clone(),
        }
    }
}

impl QueryError {
    /// What the user reads of the error.
    pub fn message(&self) -> (out: String)
        ensures
            out@ == error_text(self@),
    {
        match self {
            QueryError::UnsupportedSemiJoin(m) => prefixed("unsupported semi-join: ", m.as_str()),
            QueryError::UnsupportedSelectItem(m) => prefixed(
                "unsupported SELECT item: ",
                m.as_str(),
            ),
            QueryError::UnsupportedJoinKind(op) => prefixed("join kind ", op.name()).concat(
                " is not yet executable (only Inner/Left are implemented)",
            ),
            QueryError::StarWithAggregation => {
                "SELECT * cannot be combined with GROUP BY, an aggregate, or a window function".to_string()
            },
            QueryError::UnknownColumn(name) => prefixed("unknown column: ", name.as_str()),
            QueryError::UnknownTable(name) => prefixed("unknown table: ", name.as_str()),
            QueryError::DuplicateTable(name) => prefixed("table already loaded: ", name.as_str()),
            QueryError::PlannerInvariant(m) => m.clone(),
            QueryError::NotStreamable(m) => m.clone(),
            QueryError::Vm(e) => e.message(),
            QueryError::File(e) => e.0.clone(),
            QueryError::Io(m) => m.clone(),
        }
    }
}

/// A message about a column or a table names it at its end.
pub proof fn law_message_names_its_subject(name: Seq<char>)
    ensures
        crate::text::ends_with(error_text(QueryErrorView::UnknownColumn(name)), name),
        crate::text::ends_with(error_text(QueryErrorView::UnknownTable(name)), name),
        crate::text::ends_with(error_text(QueryErrorView::DuplicateTable(name)), name),
{
    crate::text::lemma_ends_with("unknown column: "@, name);
    crate::text::lemma_ends_with("unknown table: "@, name);
    crate::text::lemma_ends_with("table already loaded: "@, name);
}

/// A message about a column that does not decode begins with its row group and
/// its name.
pub proof fn law_decode_message_names_row_group_and_column(
    row_group: nat,
    column: Seq<char>,
    reason: Seq<char>,
)
    ensures
        crate::text::begins_with(
            error_text(
                QueryErrorView::Vm(
                    VmErrorView::SegmentLoad { row_group, column: Some(column), reason },
                ),
            ),
            "row group "@ + crate::text::digits(row_group) + ", column "@ + column,
        ),
{
    let text = error_text(
        QueryErrorView::Vm(VmErrorView::SegmentLoad { row_group, column: Some(column), reason }),
    );
    let start = "row group "@ + crate::text::digits(row_group) + ", column "@ + column;
    assert(text.take(start.len() as int) =~= start);
}

/// What the user reads of each error, in the error's own terms.
pub proof fn law_each_error_has_its_message(
    m: String,
    row_group: usize,
    column: String,
    op: JoinOp,
)
    ensures
        error_text(QueryError::UnknownColumn(m)@) == "unknown column: "@ + m@,
        error_text(QueryError::UnknownTable(m)@) == "unknown table: "@ + m@,
        error_text(QueryError::DuplicateTable(m)@) == "table already loaded: "@ + m@,
        error_text(QueryError::UnsupportedSemiJoin(m)@) == "unsupported semi-join: "@ + m@,
        error_text(QueryError::UnsupportedSelectItem(m)@) == "unsupported SELECT item: "@ + m@,
        error_text(QueryError::UnsupportedJoinKind(op)@) == "join kind "@ + (match op {
            JoinOp::Inner => "Inner"@,
            JoinOp::Left => "Left"@,
            JoinOp::Right => "Right"@,
            JoinOp::Full => "Full"@,
            JoinOp::Cross => "Cross"@,
        }) + " is not yet executable (only Inner/Left are implemented)"@,
        error_text(QueryError::StarWithAggregation@)
            == "SELECT * cannot be combined with GROUP BY, an aggregate, or a window function"@,
        error_text(QueryError::PlannerInvariant(m)@) == m@,
        error_text(QueryError::NotStreamable(m)@) == m@,
        error_text(QueryError::Io(m)@) == m@,
        error_text(QueryError::File(FileError(m))@) == m@,
        error_text(QueryError::Vm(VmError::Other(m))@) == m@,
        error_text(QueryError::Vm(VmError::NotStreamable { reason: m })@) == m@,
        error_text(
            QueryError::Vm(VmError::SegmentLoad { row_group, column: None, reason: m })@,
        ) == "row group "@ + crate::text::digits(row_group as nat) + ": "@ + m@,
        error_text(
            QueryError::Vm(VmError::SegmentLoad { row_group, column: Some(column), reason: m })@,
        ) == "row group "@ + crate::text::digits(row_group as nat) + ", column "@ + column@ + ": "@
            + m@,
{
    assert(error_text(
        QueryError::Vm(VmError::SegmentLoad { row_group, column: None, reason: m })@,
    ) =~= "row group "@ + crate::text::digits(row_group as nat) + ": "@ + m@);
    assert(error_text(
        QueryError::Vm(VmError::SegmentLoad { row_group, column: Some(column), reason: m })@,
    ) =~= "row group "@ + crate::text::digits(row_group as nat) + ", column "@ + column@ + ": "@
        + m@);
}

/// Two errors that say the same are of the same kind and hold the same texts.
pub proof fn law_errors_are_told_apart(
    a: String,
    b: String,
    row_group: usize,
    op: JoinOp,
    e: VmError,
)
    ensures
        QueryError::UnknownColumn(a)@ == QueryErrorView::UnknownColumn(a@),
        QueryError::UnknownTable(a)@ == QueryErrorView::UnknownTable(a@),
        QueryError::DuplicateTable(a)@ == QueryErrorView::DuplicateTable(a@),
        QueryError::UnsupportedSemiJoin(a)@ == QueryErrorView::UnsupportedSemiJoin(a@),
        QueryError::UnsupportedSelectItem(a)@ == QueryErrorView::UnsupportedSelectItem(a@),
        QueryError::PlannerInvariant(a)@ == QueryErrorView::PlannerInvariant(a@),
        QueryError::NotStreamable(a)@ == QueryErrorView::NotStreamable(a@),
        QueryError::Io(a)@ == QueryErrorView::Io(a@),
        QueryError::File(FileError(a))@ == QueryErrorView::File(a@),
        QueryError::StarWithAggregation@ == QueryErrorView::StarWithAggregation,
        QueryError::Vm(e)@ == QueryErrorView::Vm(e@),
        QueryError::UnsupportedJoinKind(op)@ == QueryErrorView::UnsupportedJoinKind(op),
        VmError::Other(a)@ == VmErrorView::Other(a@),
        (VmError::NotStreamable { reason: a })@ == (VmErrorView::NotStreamable { reason: a@ }),
        (VmError::SegmentLoad { row_group, column: Some(a), reason: b })@ == (
        VmErrorView::SegmentLoad { row_group: row_group as nat, column: Some(a@), reason: b@ }),
        (VmError::SegmentLoad { row_group, column: None, reason: b })@ == (
        VmErrorView::SegmentLoad { row_group: row_group as nat, column: None, reason: b@ }),
{
}

/// What the planner rejects is reported as the error of the same meaning, with
/// what it says.
pub proof fn law_plan_errors_keep_their_meaning(m: String, op: JoinOp)
    ensures
        plan_failure(PlanError::UnknownColumn(m)) == QueryError::UnknownColumn(m),
        plan_failure(PlanError::UnsupportedSemiJoin(m)) == QueryError::UnsupportedSemiJoin(m),
        plan_failure(PlanError::UnsupportedJoinKind(op)) == QueryError::UnsupportedJoinKind(op),
        plan_failure(PlanError::StarWithAggregation) == QueryError::StarWithAggregation,
        plan_failure(PlanError::UnsupportedSelectItem(m)) == QueryError::UnsupportedSelectItem(m),
        plan_failure(PlanError::Internal(m)) == QueryError::PlannerInvariant(m),
{
}

/// A failure of the machine and of a file is reported as what it is.
pub proof fn law_failures_are_kept_whole(vm: VmError, file: FileError, plan: PlanError)
    ensures
        <QueryError as vstd::std_specs::convert::FromSpec<VmError>>::from_spec(vm)
            == QueryError::Vm(vm),
        <QueryError as vstd::std_specs::convert::FromSpec<FileError>>::from_spec(file)
            == QueryError::File(file),
        <QueryError as vstd::std_specs::convert::FromSpec<PlanError>>::from_spec(plan)
            == plan_failure(plan),
{
}

} // verus!
