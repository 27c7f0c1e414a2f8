//! The decisions of a query's run, step by step. The engine asks for one piece
//! of outside work at a time (expanding a `*`, opening a file, running a planned
//! program, naming the output columns) and goes on with its outcome.

use crate::error::{FileError, PlanError, QueryError};
use crate::query::QueryEngine;
use crate::select::{first_join, from_table, has_window_column, in_subquery, join_table, Select};
use crate::stream_output::QueryResult;
use crate::value::Value;
use vstd::prelude::*;
use vstd::string::*;

verus! {

/// How a query is executed, over which of the loaded tables (by position).
#[derive(Debug, Clone, Copy, PartialEq, Eq, Structural)]
pub enum Route {
    /// Rows of `main` whose key is in the result of a subquery over `sub`.
    SemiJoin { main: usize, sub: usize },
    /// `main` joined with `right`.
    Joined { main: usize, right: usize },
    /// Window functions over the whole of `main`.
    Windowed { main: usize },
    /// A scan of `main`, row group by row group.
    Plain { main: usize },
}

/// The outside work that a run needs next, or its outcome.
#[derive(Debug)]
pub enum ExecuteAction {
    /// Replace each `*` of the query by these columns.
    ExpandStar { schema: Vec<String> },
    /// Open the file of the table at this position.
    OpenFile { table: usize },
    /// Plan and run the query in this way.
    Run { route: Route },
    /// Name the output columns of the query.
    NameColumns,
    /// The run is over.
    Return { result: Result<QueryResult, QueryError> },
}

/// What a run has to remember until the outside work is done.
#[derive(Debug)]
pub enum ExecuteState {
    Expanding { from: String },
    OpeningMain { main: usize, query: Select },
    OpeningOther { route: Route },
    Running,
    Naming { rows: Vec<Vec<Value<String>>> },
    Finished,
}

/// The outcome of the outside work.
#[derive(Debug)]
pub enum ExecuteEvent {
    Expanded { query: Result<Select, PlanError> },
    Opened { outcome: Result<(), FileError> },
    Ran { rows: Result<Vec<Vec<Value<String>>>, QueryError> },
    Named { columns: Vec<String> },
}

/// `event` is the outcome of the work that a run in `state` waits for.
pub open spec fn awaited(state: ExecuteState, event: ExecuteEvent) -> bool {
    match state {
        ExecuteState::Expanding { .. } => event is Expanded,
        ExecuteState::OpeningMain { .. } => event is Opened,
        ExecuteState::OpeningOther { .. } => event is Opened,
        ExecuteState::Running => event is Ran,
        ExecuteState::Naming { .. } => event is Named,
        ExecuteState::Finished => false,
    }
}

/// The run is over with the error `e`.
pub open spec fn failed(
    next: ExecuteState,
    action: ExecuteAction,
    e: crate::error::QueryErrorView,
) -> bool {
    &&& next is Finished
    &&& action matches ExecuteAction::Return { result: Err(error) }
    &&& error@ == e
}

/// A run begins: a query that does not parse is reported as an unknown column;
/// otherwise its `*` is expanded against the schema of the tables it names.
pub open spec fn begins<D>(
    tables: Seq<crate::query::TableView<D>>,
    parsed: Result<Select, String>,
    next: ExecuteState,
    action: ExecuteAction,
) -> bool {
    match parsed {
        Err(message) => failed(
            next,
            action,
            crate::error::QueryErrorView::UnknownColumn(message@),
        ),
        Ok(query) => match crate::query::star_schema_of(tables, query) {
            Err(e) => failed(next, action, e),
            Ok(columns) => {
                &&& next matches ExecuteState::Expanding { from } && Some(from@)
                    == crate::select::source(query)
                &&& action matches ExecuteAction::ExpandStar { schema }
                    && crate::text::texts(schema@) == columns
            },
        },
    }
}

/// The route of a query: a subquery in the `WHERE` clause comes before a join,
/// a join before window functions. Or why it has none.
pub open spec fn route_of<D>(
    tables: Seq<crate::query::TableView<D>>,
    query: Select,
    main: usize,
) -> Result<Route, crate::error::QueryErrorView> {
    match crate::select::filter_subquery(query) {
        Some(subquery) => match crate::select::source(subquery) {
            None => Err(crate::select::no_table()),
            Some(name) => match crate::query::position(tables, name) {
                None => Err(crate::query::unknown_table(name)),
                Some(sub) => Ok(Route::SemiJoin { main, sub: sub as usize }),
            },
        },
        None => match crate::select::leading_join(query) {
            Some(join) => match crate::select::right_side(join) {
                None => Err(crate::select::no_table()),
                Some(name) => match crate::query::position(tables, name) {
                    None => Err(crate::query::unknown_table(name)),
                    Some(right) => Ok(Route::Joined { main, right: right as usize }),
                },
            },
            None => if crate::select::has_window(query) {
                Ok(Route::Windowed { main })
            } else {
                Ok(Route::Plain { main })
            },
        },
    }
}

/// The second table of a route.
pub open spec fn other_table(route: Route) -> Option<usize> {
    match route {
        Route::SemiJoin { sub, .. } => Some(sub),
        Route::Joined { right, .. } => Some(right),
        Route::Windowed { .. } => None,
        Route::Plain { .. } => None,
    }
}

/// A run goes on from `state` with the outcome `event`.
pub open spec fn goes_on<D>(
    tables: Seq<crate::query::TableView<D>>,
    state: ExecuteState,
    event: ExecuteEvent,
    next: ExecuteState,
    action: ExecuteAction,
) -> bool {
    match (state, event) {
        (
            ExecuteState::Expanding { from },
            ExecuteEvent::Expanded { query: Err(e) },
        ) => failed(next, action, crate::error::plan_failure(e)@),
        (ExecuteState::Expanding { from }, ExecuteEvent::Expanded { query: Ok(query) }) => {
            match crate::query::position(tables, from@) {
                None => failed(next, action, crate::query::unknown_table(from@)),
                Some(i) => {
                    &&& next matches ExecuteState::OpeningMain { main, query: kept } && main == i
                        && kept == query
                    &&& action matches ExecuteAction::OpenFile { table } && table == i
                },
            }
        },
        (ExecuteState::OpeningMain { main, query }, ExecuteEvent::Opened { outcome: Err(e) }) => {
            failed(next, action, QueryError::File(e)@)
        },
        (ExecuteState::OpeningMain { main, query }, ExecuteEvent::Opened { outcome: Ok(_) }) => {
            match route_of(tables, query, main) {
                Err(e) => failed(next, action, e),
                Ok(route) => match other_table(route) {
                    Some(other) => {
                        &&& next == ExecuteState::OpeningOther { route }
                        &&& action == ExecuteAction::OpenFile { table: other }
                    },
                    None => {
                        &&& next == ExecuteState::Running
                        &&& action == ExecuteAction::Run { route }
                    },
                },
            }
        },
        (ExecuteState::OpeningOther { route }, ExecuteEvent::Opened { outcome: Err(e) }) => {
            failed(next, action, QueryError::File(e)@)
        },
        (ExecuteState::OpeningOther { route }, ExecuteEvent::Opened { outcome: Ok(_) }) => {
            &&& next == ExecuteState::Running
            &&& action == ExecuteAction::Run { route }
        },
        (ExecuteState::Running, ExecuteEvent::Ran { rows: Err(e) }) => failed(next, action, e@),
        (ExecuteState::Running, ExecuteEvent::Ran { rows: Ok(rows) }) => {
            &&& next == ExecuteState::Naming { rows }
            &&& action == ExecuteAction::NameColumns
        },
        (ExecuteState::Naming { rows }, ExecuteEvent::Named { columns }) => {
            &&& next == ExecuteState::Finished
            &&& action == ExecuteAction::Return { result: Ok(QueryResult { columns, rows }) }
        },
        _ => false,
    }
}

fn fail(e: QueryError) -> (out: (ExecuteState, ExecuteAction))
    ensures
        failed(out.0, out.1, e@),
{
    (ExecuteState::Finished, ExecuteAction::Return { result: Err(e) })
}

impl<D> QueryEngine<D> {
    /// Begins the run of a query, of which `parsed` is what the parser made.
    pub fn execute(&self, parsed: Result<Select, String>) -> (out: (ExecuteState, ExecuteAction))
        ensures
            begins(self@, parsed, out.0, out.1),
    {
        let query = match parsed {
            Ok(query) => query,
            Err(message) => {
                return fail(QueryError::UnknownColumn(message));
            },
        };
        let schema = match self.star_schema(&query) {
            Ok(schema) => schema,
            Err(e) => {
                return fail(e);
            },
        };
        match from_table(&query) {
            Ok(from) => (
                ExecuteState::Expanding { from: from.to_string() },
                ExecuteAction::ExpandStar { schema },
            ),
            Err(e) => fail(e),
        }
    }

    fn choose_route(&self, query: &Select, main: usize) -> (out: Result<Route, QueryError>)
        ensures
            match route_of(self@, *query, main) {
                Ok(route) => out matches Ok(found) && found == route,
                Err(e) => out matches Err(error) && error@ == e,
            },
    {
        if let Some(subquery) = in_subquery(query) {
            let name = match from_table(subquery) {
                Ok(name) => name,
                Err(e) => {
                    return Err(e);
                },
            };
            match self.table_position(name) {
                Ok(sub) => Ok(Route::SemiJoin { main, sub }),
                Err(e) => Err(e),
            }
        } else if let Some(join) = first_join(query) {
            let name = match join_table(join) {
                Ok(name) => name,
                Err(e) => {
                    return Err(e);
                },
            };
            match self.table_position(name) {
                Ok(right) => Ok(Route::Joined { main, right }),
                Err(e) => Err(e),
            }
        } else if has_window_column(query) {
            Ok(Route::Windowed { main })
        } else {
            Ok(Route::Plain { main })
        }
    }

    /// Goes on with a run, once the outside work that it waited for is done.
    pub fn resume(&self, state: ExecuteState, event: ExecuteEvent) -> (out: (
        ExecuteState,
        ExecuteAction,
    ))
        requires
            awaited(state, event),
        ensures
            goes_on(self@, state, event, out.0, out.1),
    {
        match (state, event) {
            (ExecuteState::Expanding { from }, ExecuteEvent::Expanded { query }) => match query {
                Err(e) => fail(QueryError::from(e)),
                Ok(query) => match self.table_position(from.as_str()) {
                    Err(e) => fail(e),
                    Ok(main) => (
                        ExecuteState::OpeningMain { main, query },
                        ExecuteAction::OpenFile { table: main },
                    ),
                },
            },
            (ExecuteState::OpeningMain { main, query }, ExecuteEvent::Opened { outcome }) => {
                match outcome {
                    Err(e) => fail(QueryError::from(e)),
                    Ok(()) => match self.choose_route(&query, main) {
                        Err(e) => fail(e),
                        Ok(route) => match route {
                            Route::SemiJoin { sub, .. } => (
                                ExecuteState::OpeningOther { route },
                                ExecuteAction::OpenFile { table: sub },
                            ),
                            Route::Joined { right, .. } => (
                                ExecuteState::OpeningOther { route },
                                ExecuteAction::OpenFile { table: right },
                            ),
                            _ => (ExecuteState::Running, ExecuteAction::Run { route }),
                        },
                    },
                }
            },
            (ExecuteState::OpeningOther { route }, ExecuteEvent::Opened { outcome }) => {
                match outcome {
                    Err(e) => fail(QueryError::from(e)),
                    Ok(()) => (ExecuteState::Running, ExecuteAction::Run { route }),
                }
            },
            (ExecuteState::Running, ExecuteEvent::Ran { rows }) => match rows {
                Err(e) => fail(e),
                Ok(rows) => (ExecuteState::Naming { rows }, ExecuteAction::NameColumns),
            },
            (ExecuteState::Naming { rows }, ExecuteEvent::Named { columns }) => (
                ExecuteState::Finished,
                ExecuteAction::Return { result: Ok(QueryResult { columns, rows }) },
            ),
            _ => vstd::pervasive::unreached(),
        }
    }
}

/// The most steps that a run in `state` still takes.
pub open spec fn steps_left(state: ExecuteState) -> nat {
    match state {
        ExecuteState::Expanding { .. } => 5,
        ExecuteState::OpeningMain { .. } => 4,
        ExecuteState::OpeningOther { .. } => 3,
        ExecuteState::Running => 2,
        ExecuteState::Naming { .. } => 1,
        ExecuteState::Finished => 0,
    }
}

/// Every step brings a run nearer to its end, and a run returns when it is over
/// and not before.
pub proof fn law_runs_end<D>(
    tables: Seq<crate::query::TableView<D>>,
    state: ExecuteState,
    event: ExecuteEvent,
    next: ExecuteState,
    action: ExecuteAction,
)
    requires
        goes_on(tables, state, event, next, action),
    ensures
        steps_left(next) < steps_left(state),
        next is Finished <==> action is Return,
{
}

/// A query over a table that is not loaded is refused at once, and the refusal
/// names the table.
pub proof fn law_unknown_table_is_refused<D>(
    tables: Seq<crate::query::TableView<D>>,
    query: Select,
    name: Seq<char>,
    next: ExecuteState,
    action: ExecuteAction,
)
    requires
        begins(tables, Ok(query), next, action),
        crate::select::source(query) == Some(name),
        crate::query::position(tables, name) is None,
        crate::select::leading_join(query) matches Some(join) ==> crate::select::right_side(
            join,
        ) is Some,
    ensures
        failed(next, action, crate::query::unknown_table(name)),
{
}

/// A run whose outside work succeeds returns the rows that the program gave,
/// under the column names that the planner gave.
pub proof fn law_rows_are_returned_as_they_came<D>(
    tables: Seq<crate::query::TableView<D>>,
    rows: Vec<Vec<Value<String>>>,
    columns: Vec<String>,
    named: ExecuteState,
    asked: ExecuteAction,
    next: ExecuteState,
    action: ExecuteAction,
)
    requires
        goes_on(
            tables,
            ExecuteState::Running,
            ExecuteEvent::Ran { rows: Ok(rows) },
            named,
            asked,
        ),
        goes_on(tables, named, ExecuteEvent::Named { columns }, next, action),
    ensures
        asked is NameColumns,
        action == (ExecuteAction::Return { result: Ok(QueryResult { columns, rows }) }),
{
}

/// A query that begins over loaded tables is run over those tables: the file
/// opened first is that of its own table, and the program is run by the route
/// of the expanded query, once the second table's file, if there is one, is open.
pub proof fn law_run_opens_its_tables<D>(
    tables: Seq<crate::query::TableView<D>>,
    query: Select,
    expanded: Select,
    route: Route,
    states: Seq<ExecuteState>,
    actions: Seq<ExecuteAction>,
)
    requires
        tables.len() <= usize::MAX,
        states.len() == 4,
        actions.len() == 4,
        begins(tables, Ok(query), states[0], actions[0]),
        actions[0] is ExpandStar,
        goes_on(
            tables,
            states[0],
            ExecuteEvent::Expanded { query: Ok(expanded) },
            states[1],
            actions[1],
        ),
        goes_on(
            tables,
            states[1],
            ExecuteEvent::Opened { outcome: Ok(()) },
            states[2],
            actions[2],
        ),
        crate::query::position(tables, crate::select::source(query)->0) matches Some(main)
            ==> route_of(tables, expanded, main as usize) == Ok::<
            Route,
            crate::error::QueryErrorView,
        >(route),
        other_table(route) is Some ==> goes_on(
            tables,
            states[2],
            ExecuteEvent::Opened { outcome: Ok(()) },
            states[3],
            actions[3],
        ),
    ensures
        crate::query::position(tables, crate::select::source(query)->0) matches Some(main)
            && actions[1] == (ExecuteAction::OpenFile { table: main as usize }),
        match other_table(route) {
            Some(other) => actions[2] == (ExecuteAction::OpenFile { table: other }) && actions[3]
                == (ExecuteAction::Run { route }),
            None => actions[2] == (ExecuteAction::Run { route }),
        },
{
}

/// A query that can stream is a plain scan of its own table.
pub proof fn law_streamable_query_is_a_plain_scan<D>(
    tables: Seq<crate::query::TableView<D>>,
    query: Select,
    main: usize,
)
    requires
        crate::select::streamable(query),
    ensures
        route_of(tables, query, main) == Ok::<Route, crate::error::QueryErrorView>(
            Route::Plain { main },
        ),
{
}

/// The query's whole `WHERE` clause is `col IN (SELECT ...)`.
pub open spec fn filters_by_subquery(query: Select) -> bool {
    query.where_clause matches Some(crate::select::Expr::InSubquery { .. })
}

/// A query with a join of any kind, and without a filtering subquery, is executed
/// as a join with the table of its first join: that table's file is opened behind
/// the query's own, and then the join is run. Such a query never streams.
pub proof fn law_any_join_is_executed_as_a_join<D>(
    tables: Seq<crate::query::TableView<D>>,
    query: Select,
    from: crate::select::FromClause,
    right: String,
    j: int,
    main: usize,
    opening: ExecuteState,
    opens: ExecuteAction,
    running: ExecuteState,
    runs: ExecuteAction,
)
    requires
        tables.len() <= usize::MAX,
        query.from == Some(from),
        from.joins@.len() > 0,
        from.joins@[0].table.name == Some(right),
        !filters_by_subquery(query),
        crate::query::first_named(tables, right@, j),
        goes_on(
            tables,
            ExecuteState::OpeningMain { main, query },
            ExecuteEvent::Opened { outcome: Ok(()) },
            opening,
            opens,
        ),
        goes_on(tables, opening, ExecuteEvent::Opened { outcome: Ok(()) }, running, runs),
    ensures
        opens == (ExecuteAction::OpenFile { table: j as usize }),
        runs == (ExecuteAction::Run { route: Route::Joined { main, right: j as usize } }),
        route_of(tables, query, main) == Ok::<Route, crate::error::QueryErrorView>(
            Route::Joined { main, right: j as usize },
        ),
        !crate::select::streamable(query),
{
    crate::query::law_names_are_looked_up(tables, right@, j);
}

/// A join whose right side is not loaded, or has no name, is refused, and the
/// refusal names what is missing.
pub proof fn law_join_needs_its_right_side<D>(
    tables: Seq<crate::query::TableView<D>>,
    query: Select,
    from: crate::select::FromClause,
    main: usize,
    next: ExecuteState,
    action: ExecuteAction,
)
    requires
        query.from == Some(from),
        from.joins@.len() > 0,
        !filters_by_subquery(query),
        goes_on(
            tables,
            ExecuteState::OpeningMain { main, query },
            ExecuteEvent::Opened { outcome: Ok(()) },
            next,
            action,
        ),
        from.joins@[0].table.name matches Some(right) ==> crate::query::none_named(tables, right@),
    ensures
        next is Finished,
        action matches ExecuteAction::Return { result: Err(e) } && e@
            == crate::error::QueryErrorView::UnknownTable(
            match from.joins@[0].table.name {
                Some(right) => right@,
                None => "<no table>"@,
            },
        ),
{
    match from.joins@[0].table.name {
        Some(right) => {
            crate::query::law_names_are_looked_up(tables, right@, 0);
        },
        None => {},
    }
}

/// A query that filters by a subquery is executed as a semi-join with the
/// subquery's own table, whatever else the query holds: that table's file is opened
/// behind the query's own. Such a query never streams.
pub proof fn law_subquery_is_executed_as_a_semi_join<D>(
    tables: Seq<crate::query::TableView<D>>,
    query: Select,
    subquery: Box<Select>,
    from: crate::select::FromClause,
    name: String,
    j: int,
    main: usize,
    opening: ExecuteState,
    opens: ExecuteAction,
    running: ExecuteState,
    runs: ExecuteAction,
)
    requires
        tables.len() <= usize::MAX,
        query.where_clause == Some(crate::select::Expr::InSubquery { subquery }),
        subquery.from == Some(from),
        from.first.name == Some(name),
        crate::query::first_named(tables, name@, j),
        goes_on(
            tables,
            ExecuteState::OpeningMain { main, query },
            ExecuteEvent::Opened { outcome: Ok(()) },
            opening,
            opens,
        ),
        goes_on(tables, opening, ExecuteEvent::Opened { outcome: Ok(()) }, running, runs),
    ensures
        opens == (ExecuteAction::OpenFile { table: j as usize }),
        runs == (ExecuteAction::Run { route: Route::SemiJoin { main, sub: j as usize } }),
        !crate::select::streamable(query),
{
    crate::query::law_names_are_looked_up(tables, name@, j);
}

/// A subquery over a table that is not loaded, or without a plain table, is
/// refused, and the refusal names what is missing.
pub proof fn law_subquery_needs_its_table<D>(
    tables: Seq<crate::query::TableView<D>>,
    query: Select,
    subquery: Box<Select>,
    main: usize,
    next: ExecuteState,
    action: ExecuteAction,
)
    requires
        query.where_clause == Some(crate::select::Expr::InSubquery { subquery }),
        goes_on(
            tables,
            ExecuteState::OpeningMain { main, query },
            ExecuteEvent::Opened { outcome: Ok(()) },
            next,
            action,
        ),
        subquery.from matches Some(from) ==> (from.first.name matches Some(name)
            ==> crate::query::none_named(tables, name@)),
    ensures
        next is Finished,
        action matches ExecuteAction::Return { result: Err(e) } && e@
            == crate::error::QueryErrorView::UnknownTable(
            match subquery.from {
                Some(crate::select::FromClause {
                    first: crate::select::TableRef { name: Some(name) },
                    ..
                }) => name@,
                _ => "<no table>"@,
            },
        ),
{
    match subquery.from {
        Some(crate::select::FromClause {
            first: crate::select::TableRef { name: Some(name) },
            ..
        }) => {
            crate::query::law_names_are_looked_up(tables, name@, 0);
        },
        _ => {},
    }
}

/// Column `i` is a function call with an `OVER` clause.
pub open spec fn calls_over(query: Select, i: int) -> bool {
    0 <= i < query.columns@.len() && (query.columns@[i] matches crate::select::ResultColumn::Expr {
        expr: crate::select::Expr::FunctionCall { tail: Some(tail) },
    } && tail.over)
}

/// A query over one table, without a filtering subquery, is run over the whole
/// table if a window function stands anywhere in its list, first or last, and never
/// streams.
pub proof fn law_window_anywhere_needs_the_whole_table<D>(
    tables: Seq<crate::query::TableView<D>>,
    query: Select,
    i: int,
    main: usize,
    next: ExecuteState,
    action: ExecuteAction,
)
    requires
        query.from matches Some(from) ==> from.joins@.len() == 0,
        !filters_by_subquery(query),
        calls_over(query, i),
        goes_on(
            tables,
            ExecuteState::OpeningMain { main, query },
            ExecuteEvent::Opened { outcome: Ok(()) },
            next,
            action,
        ),
    ensures
        next is Running,
        action == (ExecuteAction::Run { route: Route::Windowed { main } }),
        !crate::select::streamable(query),
{
    assert(crate::select::windowed(query.columns@[i]));
}

/// A query over one table, without a filtering subquery and without a window
/// function anywhere in its list, is a plain scan of that table.
pub proof fn law_without_windows_a_query_is_a_plain_scan<D>(
    tables: Seq<crate::query::TableView<D>>,
    query: Select,
    main: usize,
    next: ExecuteState,
    action: ExecuteAction,
)
    requires
        query.from matches Some(from) ==> from.joins@.len() == 0,
        !filters_by_subquery(query),
        forall|i: int| !calls_over(query, i),
        goes_on(
            tables,
            ExecuteState::OpeningMain { main, query },
            ExecuteEvent::Opened { outcome: Ok(()) },
            next,
            action,
        ),
    ensures
        next is Running,
        action == (ExecuteAction::Run { route: Route::Plain { main } }),
{
    assert forall|i: int| 0 <= i < query.columns@.len() implies !crate::select::windowed(
        #[trigger] query.columns@[i],
    ) by {
        assert(!calls_over(query, i));
    }
}

/// A query that does not parse is reported as an unknown column, with the parser's
/// message, and nothing is asked for.
pub proof fn law_a_query_that_does_not_parse_is_refused<D>(
    tables: Seq<crate::query::TableView<D>>,
    message: String,
    next: ExecuteState,
    action: ExecuteAction,
)
    requires
        begins(tables, Err(message), next, action),
    ensures
        next is Finished,
        action matches ExecuteAction::Return { result: Err(e) } && e@
            == crate::error::QueryErrorView::UnknownColumn(message@),
{
}

/// A query over a loaded table, without a join, has its `*` expanded against all
/// columns of that table, and then that table's file is opened.
pub proof fn law_a_query_begins_with_its_own_table<D>(
    tables: Seq<crate::query::TableView<D>>,
    query: Select,
    from: crate::select::FromClause,
    name: String,
    main: int,
    expanded: Select,
    first: ExecuteState,
    asks: ExecuteAction,
    second: ExecuteState,
    opens: ExecuteAction,
)
    requires
        tables.len() <= usize::MAX,
        query.from == Some(from),
        from.first.name == Some(name),
        crate::query::first_named(tables, name@, main),
        from.joins@.len() == 0,
        begins(tables, Ok(query), first, asks),
        goes_on(tables, first, ExecuteEvent::Expanded { query: Ok(expanded) }, second, opens),
    ensures
        asks matches ExecuteAction::ExpandStar { schema } && schema@.len()
            == tables[main].columns.len() && forall|c: int|
            0 <= c < schema@.len() ==> (#[trigger] schema@[c])@ == tables[main].columns[c],
        opens == (ExecuteAction::OpenFile { table: main as usize }),
        second == (ExecuteState::OpeningMain { main: main as usize, query: expanded }),
{
    crate::query::law_star_over_one_table(tables, query, from, name, main);
    crate::query::law_names_are_looked_up(tables, name@, main);
    let schema = asks->schema@;
    assert forall|c: int| 0 <= c < schema.len() implies (#[trigger] schema[c])@
        == tables[main].columns[c] by {
        assert(crate::text::texts(schema)[c] == schema[c]@);
    }
}

/// A query with a join of any kind over two loaded tables has its `*` expanded
/// against the columns of both, each behind its table's name, and then the file of
/// its own table is opened.
pub proof fn law_a_join_begins_with_both_tables<D>(
    tables: Seq<crate::query::TableView<D>>,
    query: Select,
    from: crate::select::FromClause,
    name: String,
    right: String,
    main: int,
    other: int,
    expanded: Select,
    first: ExecuteState,
    asks: ExecuteAction,
    second: ExecuteState,
    opens: ExecuteAction,
)
    requires
        tables.len() <= usize::MAX,
        query.from == Some(from),
        from.first.name == Some(name),
        from.joins@.len() > 0,
        from.joins@[0].table.name == Some(right),
        crate::query::first_named(tables, name@, main),
        crate::query::first_named(tables, right@, other),
        begins(tables, Ok(query), first, asks),
        goes_on(tables, first, ExecuteEvent::Expanded { query: Ok(expanded) }, second, opens),
    ensures
        asks matches ExecuteAction::ExpandStar { schema } && schema@.len()
            == tables[main].columns.len() + tables[other].columns.len() && (forall|c: int|
            0 <= c < tables[main].columns.len() ==> (#[trigger] schema@[c])@ == name@ + "."@
                + tables[main].columns[c]) && (forall|c: int|
            tables[main].columns.len() <= c < schema@.len() ==> (#[trigger] schema@[c])@ == right@
                + "."@ + tables[other].columns[c - tables[main].columns.len()]),
        opens == (ExecuteAction::OpenFile { table: main as usize }),
        second == (ExecuteState::OpeningMain { main: main as usize, query: expanded }),
{
    crate::query::law_star_over_a_join(tables, query, from, name, right, main, other);
    crate::query::law_names_are_looked_up(tables, name@, main);
    let schema = asks->schema@;
    assert(forall|c: int|
        0 <= c < schema.len() ==> crate::text::texts(schema)[c] == (#[trigger] schema[c])@);
}

/// Whatever fails on the way ends the run with its own error: a query that the
/// planner rejects, a file that does not open, a program that fails.
pub proof fn law_a_failure_ends_the_run<D>(
    tables: Seq<crate::query::TableView<D>>,
    state: ExecuteState,
    rejected: crate::error::PlanError,
    closed: FileError,
    stopped: QueryError,
    event: ExecuteEvent,
    next: ExecuteState,
    action: ExecuteAction,
)
    requires
        goes_on(tables, state, event, next, action),
        event == (ExecuteEvent::Expanded { query: Err(rejected) }) || event == (
        ExecuteEvent::Opened { outcome: Err(closed) }) || event == (ExecuteEvent::Ran {
            rows: Err(stopped),
        }),
    ensures
        next is Finished,
        action matches ExecuteAction::Return { result: Err(e) } && e@ == match event {
            ExecuteEvent::Expanded { .. } => crate::error::plan_failure(rejected)@,
            ExecuteEvent::Opened { .. } => crate::error::QueryErrorView::File(closed.0@),
            _ => stopped@,
        },
{
}

/// Each step waits for the one kind of outcome that it asked for.
pub proof fn law_each_action_awaits_its_outcome<D>(
    tables: Seq<crate::query::TableView<D>>,
    state: ExecuteState,
    event: ExecuteEvent,
    next: ExecuteState,
    action: ExecuteAction,
    outcome: ExecuteEvent,
)
    requires
        goes_on(tables, state, event, next, action),
    ensures
        awaited(next, outcome) <==> match action {
            ExecuteAction::ExpandStar { .. } => outcome is Expanded,
            ExecuteAction::OpenFile { .. } => outcome is Opened,
            ExecuteAction::Run { .. } => outcome is Ran,
            ExecuteAction::NameColumns => outcome is Named,
            ExecuteAction::Return { .. } => false,
        },
{
}

/// A query whose tables have no columns to expand a `*` against is refused at once,
/// for the reason why they have none; so is one whose table went missing.
pub proof fn law_a_query_without_its_tables_is_refused<D>(
    tables: Seq<crate::query::TableView<D>>,
    query: Select,
    next: ExecuteState,
    action: ExecuteAction,
    from: String,
    expanded: Select,
    later: ExecuteState,
    asks_next: ExecuteAction,
)
    requires
        begins(tables, Ok(query), next, action),
        goes_on(
            tables,
            ExecuteState::Expanding { from },
            ExecuteEvent::Expanded { query: Ok(expanded) },
            later,
            asks_next,
        ),
    ensures
        crate::query::star_schema_of(tables, query) matches Err(e) ==> next is Finished && (
        action matches ExecuteAction::Return { result: Err(error) } && error@ == e),
        crate::query::star_schema_of(tables, query) is Ok ==> action is ExpandStar && next is Expanding,
        crate::query::none_named(tables, from@) ==> later is Finished && (
        asks_next matches ExecuteAction::Return { result: Err(error) } && error@
            == crate::error::QueryErrorView::UnknownTable(from@)),
{
    crate::query::law_names_are_looked_up(tables, from@, 0);
}

} // verus!
