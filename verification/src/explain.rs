//! `EXPLAIN`: the tables that a plan describes, and what their files hold.

use crate::error::{FileError, PlanError, QueryError};
use crate::listing::OpcodeSection;
use crate::query::QueryEngine;
use crate::select::{first_join, from_table, in_subquery, join_table, Select};
use vstd::prelude::*;
use vstd::string::*;

verus! {

/// What a Parquet footer says of a table's size.
#[derive(Debug, Clone, Copy, PartialEq, Eq, Structural)]
pub struct TableStats {
    pub row_groups: usize,
    pub rows: i64,
}

/// A table's name and size.
#[derive(Debug)]
pub struct NamedStats {
    pub table: String,
    pub stats: TableStats,
}

/// What an `EXPLAIN` needs next, or its outcome.
#[derive(Debug)]
pub enum ExplainAction {
    /// Open the file of the table at this position and read its size.
    OpenFile { table: usize },
    /// Describe the query; the state holds the sizes of all its tables.
    Describe,
    /// The query cannot be described.
    Fail { error: QueryError },
}

/// An `EXPLAIN` between two steps: the tables that the query names, and the
/// sizes of the first of them.
#[derive(Debug)]
pub struct ExplainState {
    pub tables: Vec<String>,
    pub stats: Vec<NamedStats>,
}

/// The tables that a query names: its own, then a filtering subquery's, then a
/// join's right side. Or why one of them has no name.
pub open spec fn named_tables(query: Select) -> Result<
    Seq<Seq<char>>,
    crate::error::QueryErrorView,
> {
    match crate::select::source(query) {
        None => Err(crate::select::no_table()),
        Some(from) => {
            let first = seq![from];
            let second = match crate::select::filter_subquery(query) {
                None => Ok(first),
                Some(subquery) => match crate::select::source(subquery) {
                    None => Err(crate::select::no_table()),
                    Some(name) => Ok(first.push(name)),
                },
            };
            match second {
                Err(e) => Err(e),
                Ok(names) => match crate::select::leading_join(query) {
                    None => Ok(names),
                    Some(join) => match crate::select::right_side(join) {
                        None => Err(crate::select::no_table()),
                        Some(name) => Ok(names.push(name)),
                    },
                },
            }
        },
    }
}

/// Each size belongs to the table at the same place.
pub open spec fn sizes_fit(tables: Seq<String>, stats: Seq<NamedStats>) -> bool {
    stats.len() <= tables.len() && forall|i: int|
        0 <= i < stats.len() ==> (#[trigger] stats[i]).table@ == tables[i]@
}

/// What an `EXPLAIN` does in a state: it opens the next table, or describes the
/// query once all are open.
pub open spec fn proceeds<D>(
    loaded: Seq<crate::query::TableView<D>>,
    tables: Seq<String>,
    stats: Seq<NamedStats>,
    action: ExplainAction,
) -> bool {
    if stats.len() < tables.len() {
        match crate::query::position(loaded, tables[stats.len() as int]@) {
            Some(i) => action matches ExplainAction::OpenFile { table } && table == i,
            None => action matches ExplainAction::Fail { error } && error@
                == crate::query::unknown_table(tables[stats.len() as int]@),
        }
    } else {
        action is Describe
    }
}

/// An `EXPLAIN` of `query` begins: it fails where a table has no name, else it
/// goes through the tables from the first one on.
pub open spec fn explains<D>(
    loaded: Seq<crate::query::TableView<D>>,
    query: Select,
    state: ExplainState,
    action: ExplainAction,
) -> bool {
    match named_tables(query) {
        Err(e) => action matches ExplainAction::Fail { error } && error@ == e,
        Ok(names) => {
            &&& crate::text::texts(state.tables@) == names
            &&& state.stats@.len() == 0
            &&& sizes_fit(state.tables@, state.stats@)
            &&& proceeds(loaded, state.tables@, state.stats@, action)
        },
    }
}

/// The sizes, once that of the next table is noted.
pub open spec fn noted(state: ExplainState, size: TableStats) -> Seq<NamedStats> {
    state.stats@.push(
        NamedStats { table: state.tables@[state.stats@.len() as int], stats: size },
    )
}

/// The size of a table: the last one noted under its name.
pub open spec fn size_named(stats: Seq<NamedStats>, table: Seq<char>) -> Option<TableStats>
    decreases stats.len(),
{
    if stats.len() == 0 {
        None
    } else if stats.last().table@ == table {
        Some(stats.last().stats)
    } else {
        size_named(stats.drop_last(), table)
    }
}

/// The size that was noted for `table`.
pub fn stats_for(stats: &[NamedStats], table: &str) -> (out: Option<TableStats>)
    ensures
        out == size_named(stats@, table@),
{
    let wanted = table.to_string();
    let mut i: usize = stats.len();
    assert(stats@.take(i as int) =~= stats@);
    while i > 0
        invariant
            i <= stats@.len(),
            wanted@ == table@,
            size_named(stats@, table@) == size_named(stats@.take(i as int), table@),
        decreases i,
    {
        assert(stats@.take(i as int).drop_last() =~= stats@.take(i - 1));
        i = i - 1;
        if stats[i].table == wanted {
            return Some(stats[i].stats);
        }
    }
    None
}

impl<D> QueryEngine<D> {
    fn next_explain_action(&self, tables: &Vec<String>, stats: &Vec<NamedStats>) -> (action:
        ExplainAction)
        ensures
            proceeds(self@, tables@, stats@, action),
    {
        if stats.len() < tables.len() {
            match self.table_position(tables[stats.len()].as_str()) {
                Ok(table) => ExplainAction::OpenFile { table },
                Err(error) => ExplainAction::Fail { error },
            }
        } else {
            ExplainAction::Describe
        }
    }

    /// Begins an `EXPLAIN` of `query`, which is not run.
    pub fn explain(&self, query: &Select) -> (out: (ExplainState, ExplainAction))
        ensures
            explains(self@, *query, out.0, out.1),
    {
        let mut tables: Vec<String> = Vec::new();
        match from_table(query) {
            Ok(name) => {
                tables.push(name.to_string());
            },
            Err(error) => {
                return (
                    ExplainState { tables: Vec::new(), stats: Vec::new() },
                    ExplainAction::Fail { error },
                );
            },
        }
        let ghost from = tables@[0]@;
        assert(crate::text::texts(tables@) =~= seq![from]);
        if let Some(subquery) = in_subquery(query) {
            match from_table(subquery) {
                Ok(name) => {
                    let ghost before = tables@;
                    tables.push(name.to_string());
                    assert(crate::text::texts(tables@) =~= crate::text::texts(before).push(name@));
                },
                Err(error) => {
                    return (
                        ExplainState { tables: Vec::new(), stats: Vec::new() },
                        ExplainAction::Fail { error },
                    );
                },
            }
        }
        if let Some(join) = first_join(query) {
            match join_table(join) {
                Ok(name) => {
                    let ghost before = tables@;
                    tables.push(name.to_string());
                    assert(crate::text::texts(tables@) =~= crate::text::texts(before).push(name@));
                },
                Err(error) => {
                    return (
                        ExplainState { tables: Vec::new(), stats: Vec::new() },
                        ExplainAction::Fail { error },
                    );
                },
            }
        }
        let stats: Vec<NamedStats> = Vec::new();
        let action = self.next_explain_action(&tables, &stats);
        (ExplainState { tables, stats }, action)
    }

    /// Goes on with an `EXPLAIN`, once the table that it waited for is open.
    pub fn explain_resume(
        &self,
        state: ExplainState,
        opened: Result<TableStats, FileError>,
    ) -> (out: (ExplainState, ExplainAction))
        requires
            state.stats@.len() < state.tables@.len(),
            sizes_fit(state.tables@, state.stats@),
        ensures
            match opened {
                Err(e) => out.1 matches ExplainAction::Fail { error } && error@ == QueryError::File(
                    e,
                )@,
                Ok(size) => {
                    &&& out.0.tables == state.tables
                    &&& out.0.stats@ == noted(state, size)
                    &&& sizes_fit(out.0.tables@, out.0.stats@)
                    &&& proceeds(self@, out.0.tables@, out.0.stats@, out.1)
                },
            },
    {
        let size = match opened {
            Ok(size) => size,
            Err(e) => {
                return (state, ExplainAction::Fail { error: QueryError::from(e) });
            },
        };
        let table = state.tables[state.stats.len()].clone();
        let mut stats = state.stats;
        stats.push(NamedStats { table, stats: size });
        let action = self.next_explain_action(&state.tables, &stats);
        (ExplainState { tables: state.tables, stats }, action)
    }

    /// The opcode listing of a query, of which `listed` is what the planner made.
    pub fn explain_opcodes(&self, listed: Result<Vec<OpcodeSection>, PlanError>) -> (out: Result<
        Vec<OpcodeSection>,
        QueryError,
    >)
        ensures
            match listed {
                Ok(sections) => out == Ok::<Vec<OpcodeSection>, QueryError>(sections),
                Err(e) => out matches Err(error) && error == crate::error::plan_failure(e),
            },
    {
        match listed {
            Ok(sections) => Ok(sections),
            Err(e) => Err(QueryError::from(e)),
        }
    }
}

proof fn lemma_size_found(stats: Seq<NamedStats>, k: int)
    requires
        0 <= k < stats.len(),
    ensures
        size_named(stats, stats[k].table@) is Some,
    decreases stats.len(),
{
    if k < stats.len() - 1 {
        lemma_size_found(stats.drop_last(), k);
    }
}

/// When a query is described, the size of every table that it names is known.
pub proof fn law_every_named_table_has_a_size(
    query: Select,
    tables: Seq<String>,
    stats: Seq<NamedStats>,
    k: int,
)
    requires
        named_tables(query) == Ok::<Seq<Seq<char>>, crate::error::QueryErrorView>(
            crate::text::texts(tables),
        ),
        sizes_fit(tables, stats),
        stats.len() == tables.len(),
        0 <= k < named_tables(query)->Ok_0.len(),
    ensures
        size_named(stats, named_tables(query)->Ok_0[k]) is Some,
{
    lemma_size_found(stats, k);
    assert(stats[k].table@ == tables[k]@);
}

/// Each table that is opened brings an `EXPLAIN` nearer to its end, and its size
/// is noted at its place.
pub proof fn law_explain_ends(state: ExplainState, size: TableStats)
    requires
        state.stats@.len() < state.tables@.len(),
        sizes_fit(state.tables@, state.stats@),
    ensures
        noted(state, size).len() == state.stats@.len() + 1,
        sizes_fit(state.tables@, noted(state, size)),
{
}

/// An `EXPLAIN` goes through the query's own table, then the table of a filtering
/// subquery, then the right side of the first join, of whatever kind; each is there
/// exactly if the query has it, and none is named twice for one place.
pub proof fn law_explain_goes_through_every_table<D>(
    loaded: Seq<crate::query::TableView<D>>,
    query: Select,
    from: crate::select::FromClause,
    name: String,
    state: ExplainState,
    action: ExplainAction,
    i: int,
)
    requires
        query.from == Some(from),
        from.first.name == Some(name),
        query.where_clause matches Some(crate::select::Expr::InSubquery { subquery }) ==> (
        subquery.from matches Some(inner) && inner.first.name is Some),
        from.joins@.len() > 0 ==> from.joins@[0].table.name is Some,
        explains(loaded, query, state, action),
    ensures
        state.stats@.len() == 0,
        state.tables@.len() == 1 + (if query.where_clause matches Some(
            crate::select::Expr::InSubquery { .. },
        ) {
            1int
        } else {
            0
        }) + (if from.joins@.len() > 0 {
            1int
        } else {
            0
        }),
        state.tables@[0]@ == name@,
        query.where_clause matches Some(crate::select::Expr::InSubquery { subquery })
            ==> state.tables@[1]@ == (((subquery.from->0).first.name)->0)@,
        from.joins@.len() > 0 ==> state.tables@.last()@ == ((from.joins@[0].table.name)->0)@,
        crate::query::first_named(loaded, name@, i) ==> (action matches ExplainAction::OpenFile {
            table,
        } && table == i),
        crate::query::none_named(loaded, name@) ==> (action matches ExplainAction::Fail { error }
            && error@ == crate::error::QueryErrorView::UnknownTable(name@)),
{
    crate::query::law_names_are_looked_up(loaded, name@, i);
    let names = named_tables(query)->Ok_0;
    assert(crate::text::texts(state.tables@) == names);
    assert(forall|i: int|
        0 <= i < state.tables@.len() ==> crate::text::texts(state.tables@)[i] == (
        #[trigger] state.tables@[i])@);
}

/// An `EXPLAIN` of a query one of whose tables has no name is refused.
pub proof fn law_explain_needs_named_tables<D>(
    loaded: Seq<crate::query::TableView<D>>,
    query: Select,
    state: ExplainState,
    action: ExplainAction,
)
    requires
        explains(loaded, query, state, action),
        query.from is None || (query.from->0).first.name is None || (query.where_clause matches Some(
            crate::select::Expr::InSubquery { subquery },
        ) && (subquery.from is None || (subquery.from->0).first.name is None)) || ((
        query.from->0).joins@.len() > 0 && (query.from->0).joins@[0].table.name is None),
    ensures
        action matches ExplainAction::Fail { error } && error@
            == crate::error::QueryErrorView::UnknownTable("<no table>"@),
{
}

/// The next table to be opened is the first one without a size, at the place where
/// it is loaded; one that is not loaded is refused by name. Once every table has a
/// size, and not before, the query is described.
pub proof fn law_explain_opens_the_next_table<D>(
    loaded: Seq<crate::query::TableView<D>>,
    tables: Seq<String>,
    stats: Seq<NamedStats>,
    action: ExplainAction,
    i: int,
)
    requires
        stats.len() <= tables.len(),
        proceeds(loaded, tables, stats, action),
    ensures
        action is Describe <==> stats.len() == tables.len(),
        stats.len() < tables.len() && crate::query::first_named(
            loaded,
            tables[stats.len() as int]@,
            i,
        ) ==> (action matches ExplainAction::OpenFile { table } && table == i),
        stats.len() < tables.len() && crate::query::none_named(loaded, tables[stats.len() as int]@)
            ==> (action matches ExplainAction::Fail { error } && error@
            == crate::error::QueryErrorView::UnknownTable(tables[stats.len() as int]@)),
{
    if stats.len() < tables.len() {
        crate::query::law_names_are_looked_up(loaded, tables[stats.len() as int]@, i);
    }
}

/// Noting a size keeps those noted before, and puts the new one behind them under
/// the name of the table that was opened.
pub proof fn law_noting_adds_one_size(state: ExplainState, size: TableStats)
    requires
        state.stats@.len() < state.tables@.len(),
    ensures
        noted(state, size).len() == state.stats@.len() + 1,
        forall|k: int|
            0 <= k < state.stats@.len() ==> #[trigger] noted(state, size)[k] == state.stats@[k],
        noted(state, size).last().stats == size,
        noted(state, size).last().table == state.tables@[state.stats@.len() as int],
{
}

/// A table's size is what was noted last under its name, wherever that stands, and
/// unknown only if nothing was.
pub proof fn law_size_is_the_last_noted(stats: Seq<NamedStats>, table: Seq<char>, k: int)
    ensures
        0 <= k < stats.len() && stats[k].table@ == table && (forall|j: int|
            k < j < stats.len() ==> (#[trigger] stats[j]).table@ != table) ==> size_named(
            stats,
            table,
        ) == Some(stats[k].stats),
        (forall|j: int| 0 <= j < stats.len() ==> (#[trigger] stats[j]).table@ != table)
            <==> size_named(stats, table) is None,
    decreases stats.len(),
{
    if stats.len() > 0 {
        let front = stats.drop_last();
        law_size_is_the_last_noted(front, table, k);
        assert(forall|j: int| 0 <= j < front.len() ==> front[j] == #[trigger] stats[j]);
        if stats.last().table@ != table {
            if size_named(stats, table) is Some {
                let j = choose|j: int|
                    0 <= j < front.len() && (#[trigger] front[j]).table@ == table;
                assert(stats[j].table@ == table);
            }
        } else {
            assert(stats[stats.len() - 1].table@ == table);
        }
    }
}

} // verus!
