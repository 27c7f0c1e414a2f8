//! What the engine reads of a parsed `SELECT`: its tables, whether it filters by
//! a subquery, and which of its columns are window functions.

use crate::error::{JoinOp, QueryError};
use vstd::prelude::*;
use vstd::string::*;

verus! {

/// A table position in a `FROM` clause. A subquery there has no name.
#[derive(Debug)]
pub struct TableRef {
    pub name: Option<String>,
}

/// One `JOIN` and its right-hand table.
#[derive(Debug)]
pub struct Join {
    pub op: JoinOp,
    pub table: TableRef,
}

/// A `FROM` clause: its first table and the joins behind it.
#[derive(Debug)]
pub struct FromClause {
    pub first: TableRef,
    pub joins: Vec<Join>,
}

/// What may follow a function's arguments.
#[derive(Debug)]
pub struct FunctionTail {
    /// An `OVER (...)` clause is there.
    pub over: bool,
}

/// An expression, as far as its kind matters to the engine.
#[derive(Debug)]
pub enum Expr {
    /// `col IN (SELECT ...)`
    InSubquery { subquery: Box<Select> },
    /// `f(...)`, with what follows it.
    FunctionCall { tail: Option<FunctionTail> },
    Other,
}

/// One item of a `SELECT` list.
#[derive(Debug)]
pub enum ResultColumn {
    Expr { expr: Expr },
    Star,
}

/// A parsed `SELECT`, as far as its shape matters to the engine.
#[derive(Debug)]
pub struct Select {
    pub columns: Vec<ResultColumn>,
    pub from: Option<FromClause>,
    pub where_clause: Option<Expr>,
    /// `GROUP BY` or an aggregate is there.
    pub aggregated: bool,
    pub distinct: bool,
    /// `ORDER BY` is there.
    pub ordered: bool,
    /// `LIMIT` is there.
    pub limited: bool,
}

/// What a query without a plain table to read from is refused with.
pub open spec fn no_table() -> crate::error::QueryErrorView {
    crate::error::QueryErrorView::UnknownTable("<no table>"@)
}

/// The name of the table that a `SELECT` reads from.
pub open spec fn source(select: Select) -> Option<Seq<char>> {
    match select.from {
        Some(from) => match from.first.name {
            Some(name) => Some(name@),
            None => None,
        },
        None => None,
    }
}

/// The first join of a `SELECT`.
pub open spec fn leading_join(select: Select) -> Option<Join> {
    match select.from {
        Some(from) => if from.joins@.len() > 0 {
            Some(from.joins@[0])
        } else {
            None
        },
        None => None,
    }
}

/// The name of a join's right-hand table.
pub open spec fn right_side(join: Join) -> Option<Seq<char>> {
    match join.table.name {
        Some(name) => Some(name@),
        None => None,
    }
}

/// The subquery of a `SELECT` whose whole `WHERE` clause is `col IN (SELECT ...)`.
pub open spec fn filter_subquery(select: Select) -> Option<Select> {
    match select.where_clause {
        Some(Expr::InSubquery { subquery }) => Some(*subquery),
        _ => None,
    }
}

/// The column is a window function (`f(...) OVER (...)`).
pub open spec fn windowed(column: ResultColumn) -> bool {
    column matches ResultColumn::Expr { expr: Expr::FunctionCall { tail: Some(tail) } }
        && tail.over
}

/// One of the columns is a window function.
pub open spec fn has_window(select: Select) -> bool {
    exists|i: int| 0 <= i < select.columns@.len() && windowed(#[trigger] select.columns@[i])
}

/// The plain table name a `SELECT` reads from. There is no execution without a
/// `FROM` or with a subquery in it, so either is reported as an unknown table.
pub fn from_table(select: &Select) -> (out: Result<&str, QueryError>)
    ensures
        match source(*select) {
            Some(name) => out matches Ok(found) && found@ == name,
            None => out matches Err(e) && e@ == no_table(),
        },
        match select.from {
            Some(FromClause { first: TableRef { name: Some(name) }, .. }) => out matches Ok(found)
                && found@ == name@,
            _ => out matches Err(QueryError::UnknownTable(m)) && m@ == "<no table>"@,
        },
{
    match &select.from {
        Some(from) => match &from.first.name {
            Some(name) => Ok(name.as_str()),
            None => Err(QueryError::UnknownTable("<no table>".to_string())),
        },
        None => Err(QueryError::UnknownTable("<no table>".to_string())),
    }
}

/// The first (and, for the planner, only) `JOIN` of a `SELECT`.
pub fn first_join(select: &Select) -> (out: Option<&Join>)
    ensures
        match leading_join(*select) {
            Some(join) => out matches Some(found) && *found == join,
            None => out is None,
        },
        match select.from {
            Some(from) => if from.joins@.len() == 0 {
                out is None
            } else {
                out matches Some(found) && *found == from.joins@[0]
            },
            None => out is None,
        },
{
    match &select.from {
        Some(from) => if from.joins.len() > 0 {
            Some(&from.joins[0])
        } else {
            None
        },
        None => None,
    }
}

/// A join's right-hand table name, by the same rule as [`from_table`].
pub fn join_table(join: &Join) -> (out: Result<&str, QueryError>)
    ensures
        match right_side(*join) {
            Some(name) => out matches Ok(found) && found@ == name,
            None => out matches Err(e) && e@ == no_table(),
        },
        match join.table.name {
            Some(name) => out matches Ok(found) && found@ == name@,
            None => out matches Err(QueryError::UnknownTable(m)) && m@ == "<no table>"@,
        },
{
    match &join.table.name {
        Some(name) => Ok(name.as_str()),
        None => Err(QueryError::UnknownTable("<no table>".to_string())),
    }
}

/// The `IN (SELECT ...)` subquery, when the `WHERE` clause is exactly that.
pub fn in_subquery(select: &Select) -> (out: Option<&Select>)
    ensures
        match filter_subquery(*select) {
            Some(subquery) => out matches Some(found) && *found == subquery,
            None => out is None,
        },
        match select.where_clause {
            Some(Expr::InSubquery { subquery }) => out matches Some(found) && *found == *subquery,
            _ => out is None,
        },
{
    match &select.where_clause {
        Some(Expr::InSubquery { subquery }) => Some(&**subquery),
        _ => None,
    }
}

/// Whether a result column is a window function (`f(...) OVER (...)`).
pub fn is_window_column(column: &ResultColumn) -> (yes: bool)
    ensures
        yes == windowed(*column),
        yes == match *column {
            ResultColumn::Expr { expr: Expr::FunctionCall { tail: Some(tail) } } => tail.over,
            _ => false,
        },
{
    match column {
        ResultColumn::Expr { expr: Expr::FunctionCall { tail: Some(tail) } } => tail.over,
        _ => false,
    }
}

/// Whether any of the result columns is a window function.
pub fn has_window_column(select: &Select) -> (yes: bool)
    ensures
        yes == has_window(*select),
        yes == exists|i: int|
            0 <= i < select.columns@.len() && windowed(#[trigger] select.columns@[i]),
{
    let mut i: usize = 0;
    while i < select.columns.len()
        invariant
            i <= select.columns.len(),
            forall|k: int| 0 <= k < i ==> !windowed(#[trigger] select.columns@[k]),
        decreases select.columns.len() - i,
    {
        if is_window_column(&select.columns[i]) {
            return true;
        }
        i = i + 1;
    }
    false
}

/// A plain single-table `SELECT`: each row of its result is known before the
/// next row is read.
pub open spec fn streamable(select: Select) -> bool {
    &&& leading_join(select) is None
    &&& filter_subquery(select) is None
    &&& !has_window(select)
    &&& !select.aggregated
    &&& !select.distinct
    &&& !select.ordered
    &&& !select.limited
}

/// Refuses a query whose rows cannot be handed out while it runs: a join, a
/// semi-join, a window function, an aggregate, `DISTINCT`, `ORDER BY` or `LIMIT`.
pub fn check_streamable(select: &Select) -> (out: Result<(), QueryError>)
    ensures
        out is Ok <==> streamable(*select),
        out matches Err(e) ==> e@ == crate::error::QueryErrorView::NotStreamable(
            "query cannot stream its rows"@,
        ),
{
    if first_join(select).is_some() || in_subquery(select).is_some() || has_window_column(select)
        || select.aggregated || select.distinct || select.ordered || select.limited {
        Err(QueryError::NotStreamable("query cannot stream its rows".to_string()))
    } else {
        Ok(())
    }
}

/// A window function is a function call with an `OVER` clause, and nothing else is.
pub proof fn law_window_is_a_call_with_over(column: ResultColumn)
    ensures
        match column {
            ResultColumn::Star => !windowed(column),
            ResultColumn::Expr { expr: Expr::Other } => !windowed(column),
            ResultColumn::Expr { expr: Expr::InSubquery { .. } } => !windowed(column),
            ResultColumn::Expr { expr: Expr::FunctionCall { tail: None } } => !windowed(column),
            ResultColumn::Expr { expr: Expr::FunctionCall { tail: Some(tail) } } => windowed(column)
                == tail.over,
        },
{
}

/// A query can stream exactly if it has neither a join of any kind, nor a filtering
/// subquery, nor a window function at any place of its list, nor an aggregate,
/// `DISTINCT`, `ORDER BY` or `LIMIT`.
pub proof fn law_streamable_by_its_clauses(query: Select)
    ensures
        streamable(query) <==> {
            &&& query.from matches Some(from) ==> from.joins@.len() == 0
            &&& !(query.where_clause matches Some(Expr::InSubquery { .. }))
            &&& forall|i: int|
                0 <= i < query.columns@.len() ==> !(#[trigger] query.columns@[i] matches
                ResultColumn::Expr { expr: Expr::FunctionCall { tail: Some(tail) } } && tail.over)
            &&& !query.aggregated
            &&& !query.distinct
            &&& !query.ordered
            &&& !query.limited
        },
{
}

/// A query reads from the first table of its `FROM` clause, filters by a subquery
/// only where that is its whole `WHERE` clause, and joins the table of its first
/// join, whatever the kind of that join is.
pub proof fn law_tables_are_read_off(query: Select)
    ensures
        query.from is None ==> source(query) is None && leading_join(query) is None,
        query.from matches Some(from) ==> {
            &&& source(query) == (match from.first.name {
                Some(name) => Some(name@),
                None => None,
            })
            &&& from.joins@.len() == 0 ==> leading_join(query) is None
            &&& from.joins@.len() > 0 ==> leading_join(query) == Some(from.joins@[0])
        },
        filter_subquery(query) == (match query.where_clause {
            Some(Expr::InSubquery { subquery }) => Some(*subquery),
            _ => None,
        }),
        forall|join: Join|
            #[trigger] right_side(join) == (match join.table.name {
                Some(name) => Some(name@),
                None => None,
            }),
{
}

} // verus!
