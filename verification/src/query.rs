//! The query engine's tables, addressed by name.

use crate::columns::SchemaElement;
use crate::error::FileError;
use crate::select::{first_join, from_table, join_table, Select};
use vstd::prelude::*;
use vstd::string::*;

pub use crate::error::QueryError;
pub use crate::listing::{OpcodeRow, OpcodeSection};
pub use crate::plan::PlanNode;
pub use crate::scan::{execute, execute_joined, execute_semi_join, execute_windowed, run_program};
pub use crate::stream_output::QueryResult;

verus! {

/// One loaded table: its file's contents, and its column names, kept so that a
/// look at the schema does not parse the footer again.
struct Table<D> {
    name: String,
    data: D,
    column_names: Vec<String>,
}

/// What a loaded table is.
pub struct TableView<D> {
    pub name: Seq<char>,
    pub data: D,
    pub columns: Seq<Seq<char>>,
}

/// One or more loaded Parquet files, addressed by table name (derived from each
/// file's stem, e.g. `orders.parquet` -> `orders`). `D` is what holds a file's
/// contents.
pub struct QueryEngine<D> {
    tables: Vec<Table<D>>,
}

/// An opened Parquet file: its contents and its flattened schema.
pub struct OpenedFile<D> {
    pub data: D,
    pub schema: Vec<SchemaElement>,
}

/// Why a file does not open: it cannot be read, or it is no Parquet file.
#[derive(Debug)]
pub enum OpenError {
    Io(String),
    Parquet(FileError),
}

/// A file to load: its path as it is shown, the stem of the path, if that is
/// valid text, and the outcome of opening the file.
pub struct TableFile<D> {
    pub path: String,
    pub stem: Option<String>,
    pub opened: Result<OpenedFile<D>, OpenError>,
}

impl<D> Table<D> {
    spec fn shown(self) -> TableView<D> {
        TableView {
            name: self.name@,
            data: self.data,
            columns: crate::text::texts(self.column_names@),
        }
    }
}

impl<D> View for QueryEngine<D> {
    type V = Seq<TableView<D>>;

    closed spec fn view(&self) -> Seq<TableView<D>> {
        self.tables@.map_values(|t: Table<D>| t.shown())
    }
}

/// No two tables bear the same name.
pub open spec fn distinct_names<D>(tables: Seq<TableView<D>>) -> bool {
    forall|i: int, j: int|
        0 <= i < j < tables.len() ==> (#[trigger] tables[i]).name != (#[trigger] tables[j]).name
}

/// The position of the first table called `name`.
pub open spec fn position<D>(tables: Seq<TableView<D>>, name: Seq<char>) -> Option<int>
    decreases tables.len(),
{
    if tables.len() == 0 {
        None
    } else {
        match position(tables.drop_last(), name) {
            Some(i) => Some(i),
            None => if tables.last().name == name {
                Some(tables.len() - 1)
            } else {
                None
            },
        }
    }
}

/// What a query that names an unknown table is refused with.
pub open spec fn unknown_table(name: Seq<char>) -> crate::error::QueryErrorView {
    crate::error::QueryErrorView::UnknownTable(name)
}

/// The name under which a file is loaded: the given one, else the file's stem,
/// else `data`.
pub open spec fn load_name<D>(file: TableFile<D>, name: Option<String>) -> Seq<char> {
    match name {
        Some(given) => given@,
        None => match file.stem {
            Some(stem) => stem@,
            None => "data"@,
        },
    }
}

/// What a file that does not open is refused with. That it cannot be read is
/// reported with its path.
pub open spec fn open_failure(path: Seq<char>, e: OpenError) -> crate::error::QueryErrorView {
    match e {
        OpenError::Io(reason) => crate::error::QueryErrorView::Io(path + ": "@ + reason@),
        OpenError::Parquet(error) => crate::error::QueryErrorView::File(error.0@),
    }
}

/// The column names of a schema: all elements behind the root.
pub open spec fn schema_names(schema: Seq<SchemaElement>) -> Seq<Seq<char>> {
    if schema.len() == 0 {
        Seq::empty()
    } else {
        Seq::new((schema.len() - 1) as nat, |i: int| schema[i + 1].name@)
    }
}

/// The tables once `file` is loaded under `name`, or why it is not.
pub open spec fn loaded_with<D>(
    tables: Seq<TableView<D>>,
    file: TableFile<D>,
    name: Option<String>,
) -> Result<Seq<TableView<D>>, crate::error::QueryErrorView> {
    match file.opened {
        Err(e) => Err(open_failure(file.path@, e)),
        Ok(opened) => if position(tables, load_name(file, name)) is Some {
            Err(crate::error::QueryErrorView::DuplicateTable(load_name(file, name)))
        } else {
            Ok(
                tables.push(
                    TableView {
                        name: load_name(file, name),
                        data: opened.data,
                        columns: schema_names(opened.schema@),
                    },
                ),
            )
        },
    }
}

/// The tables once the first `n` files are loaded in order, each under its stem,
/// or why the first one that fails is not.
pub open spec fn loaded_all<D>(files: Seq<TableFile<D>>, n: nat) -> Result<
    Seq<TableView<D>>,
    crate::error::QueryErrorView,
>
    decreases n,
{
    if n == 0 {
        Ok(Seq::empty())
    } else {
        match loaded_all(files, (n - 1) as nat) {
            Err(e) => Err(e),
            Ok(tables) => loaded_with(tables, files[n - 1], None),
        }
    }
}

proof fn lemma_position<D>(tables: Seq<TableView<D>>, name: Seq<char>)
    ensures
        match position(tables, name) {
            Some(i) => 0 <= i < tables.len() && tables[i].name == name && forall|k: int|
                0 <= k < i ==> (#[trigger] tables[k]).name != name,
            None => forall|k: int| 0 <= k < tables.len() ==> (#[trigger] tables[k]).name != name,
        },
    decreases tables.len(),
{
    if tables.len() > 0 {
        let front = tables.drop_last();
        lemma_position(front, name);
        assert(forall|k: int| 0 <= k < front.len() ==> front[k] == #[trigger] tables[k]);
    }
}

fn schema_column_names(schema: &Vec<SchemaElement>) -> (names: Vec<String>)
    ensures
        crate::text::texts(names@) == schema_names(schema@),
{
    let mut names: Vec<String> = Vec::new();
    if schema.len() == 0 {
        assert(crate::text::texts(names@) =~= schema_names(schema@));
        return names;
    }
    let mut i: usize = 1;
    assert(crate::text::texts(names@) =~= schema_names(schema@).take(0));
    while i < schema.len()
        invariant
            1 <= i <= schema.len(),
            crate::text::texts(names@) == schema_names(schema@).take(i - 1),
        decreases schema.len() - i,
    {
        let ghost before = names@;
        names.push(schema[i].name.clone());
        i = i + 1;
        assert(crate::text::texts(names@) =~= crate::text::texts(before).push(
            schema@[i - 1].name@,
        ));
        assert(crate::text::texts(names@) =~= schema_names(schema@).take(i - 1));
    }
    assert(schema_names(schema@).take(schema@.len() - 1) =~= schema_names(schema@));
    names
}

impl<D> Default for QueryEngine<D> {
    /// An engine without a table.
    fn default() -> (engine: Self)
        ensures
            engine@ == Seq::<TableView<D>>::empty(),
    {
        let engine = QueryEngine { tables: Vec::new() };
        assert(engine@ =~= Seq::empty());
        engine
    }
}

impl<D> QueryEngine<D> {
    /// Every table has a name of its own.
    pub open spec fn well_formed(self) -> bool {
        distinct_names(self@)
    }

    fn find(&self, name: &str) -> (at: Option<usize>)
        ensures
            match at {
                Some(i) => i < self.tables@.len() && position(self@, name@) == Some(i as int),
                None => position(self@, name@) is None,
            },
    {
        let wanted = name.to_string();
        let mut i: usize = 0;
        assert(self@.take(0) =~= Seq::empty());
        while i < self.tables.len()
            invariant
                i <= self.tables.len(),
                wanted@ == name@,
                position(self@.take(i as int), name@) is None,
            decreases self.tables.len() - i,
        {
            assert(self@.take(i + 1).drop_last() =~= self@.take(i as int));
            assert(self@.take(i + 1).last().name == self.tables[i as int].name@);
            if self.tables[i].name == wanted {
                proof {
                    lemma_position_extends(self@, name@, (i + 1) as nat);
                }
                return Some(i);
            }
            i = i + 1;
        }
        assert(self@.take(self.tables.len() as int) =~= self@);
        None
    }

    /// Loads a file into this session, under `name`, or under its stem if that
    /// is nothing. Refuses a name that is already loaded, and leaves the tables
    /// as they are then.
    pub fn add_table(&mut self, file: TableFile<D>, name: Option<String>) -> (out: Result<
        (),
        QueryError,
    >)
        ensures
            match loaded_with(old(self)@, file, name) {
                Ok(tables) => out is Ok && final(self)@ == tables,
                Err(e) => out matches Err(error) && error@ == e && final(self)@ == old(self)@,
            },
            old(self).well_formed() ==> final(self).well_formed(),
    {
        let ghost wanted = load_name(file, name);
        let opened = match file.opened {
            Ok(opened) => opened,
            Err(e) => {
                return Err(
                    match e {
                        OpenError::Io(reason) => QueryError::Io(
                            file.path.concat(": ").concat(reason.as_str()),
                        ),
                        OpenError::Parquet(error) => QueryError::from(error),
                    },
                );
            },
        };
        let table_name = match name {
            Some(given) => given,
            None => match file.stem {
                Some(stem) => stem,
                None => "data".to_string(),
            },
        };
        if self.find(table_name.as_str()).is_some() {
            return Err(QueryError::DuplicateTable(table_name));
        }
        let column_names = schema_column_names(&opened.schema);
        self.tables.push(Table { name: table_name, data: opened.data, column_names });
        proof {
            let added = TableView {
                name: wanted,
                data: opened.data,
                columns: schema_names(opened.schema@),
            };
            assert(self@ =~= old(self)@.push(added));
            lemma_position(old(self)@, wanted);
            if old(self).well_formed() {
                assert forall|i: int, j: int| 0 <= i < j < self@.len() implies (
                #[trigger] self@[i]).name != (#[trigger] self@[j]).name by {
                    assert(old(self)@[i] == self@[i]);
                    if j < old(self)@.len() {
                        assert(old(self)@[j] == self@[j]);
                    }
                }
            }
        }
        Ok(())
    }

    /// Opens one file for querying.
    pub fn open(file: TableFile<D>) -> (out: Result<Self, QueryError>)
        ensures
            match loaded_with(Seq::<TableView<D>>::empty(), file, None) {
                Ok(tables) => out matches Ok(engine) && engine@ == tables && engine.well_formed(),
                Err(e) => out matches Err(error) && error@ == e,
            },
    {
        let mut engine: QueryEngine<D> = QueryEngine::default();
        match engine.add_table(file, None) {
            Ok(()) => Ok(engine),
            Err(e) => Err(e),
        }
    }

    /// Opens the files in order into a single session. The first file that does
    /// not open, or whose name is already loaded, is the error.
    pub fn open_many(files: Vec<TableFile<D>>) -> (out: Result<Self, QueryError>)
        ensures
            match loaded_all(files@, files@.len()) {
                Ok(tables) => out matches Ok(engine) && engine@ == tables && engine.well_formed(),
                Err(e) => out matches Err(error) && error@ == e,
            },
    {
        let mut engine: QueryEngine<D> = QueryEngine::default();
        let ghost all = files@;
        for file in it: files
            invariant
                it.seq() == all,
                engine.well_formed(),
                loaded_all(all, it.index() as nat) == Ok::<
                    Seq<TableView<D>>,
                    crate::error::QueryErrorView,
                >(engine@),
        {
            match engine.add_table(file, None) {
                Ok(()) => {},
                Err(e) => {
                    proof {
                        lemma_failure_stays(all, (it.index() + 1) as nat, all.len());
                    }
                    return Err(e);
                },
            }
        }
        Ok(engine)
    }
}

/// The columns of a table, each qualified by the table's name.
pub open spec fn qualified(table: Seq<char>, columns: Seq<Seq<char>>) -> Seq<Seq<char>> {
    columns.map_values(|c: Seq<char>| table + "."@ + c)
}

/// The columns that a `*` in the query stands for: those of its table, or, for a
/// join, those of the left and then of the right table, qualified by table. Or
/// why there are none: what is looked up first decides.
pub open spec fn star_schema_of<D>(tables: Seq<TableView<D>>, query: Select) -> Result<
    Seq<Seq<char>>,
    crate::error::QueryErrorView,
> {
    match crate::select::source(query) {
        None => Err(crate::select::no_table()),
        Some(from) => match crate::select::leading_join(query) {
            Some(join) => match crate::select::right_side(join) {
                None => Err(crate::select::no_table()),
                Some(right) => match (position(tables, from), position(tables, right)) {
                    (None, _) => Err(unknown_table(from)),
                    (_, None) => Err(unknown_table(right)),
                    (Some(i), Some(j)) => Ok(
                        qualified(from, tables[i].columns) + qualified(right, tables[j].columns),
                    ),
                },
            },
            None => match position(tables, from) {
                None => Err(unknown_table(from)),
                Some(i) => Ok(tables[i].columns),
            },
        },
    }
}

fn push_qualified(out: &mut Vec<String>, table: &str, columns: &Vec<String>)
    ensures
        crate::text::texts(final(out)@) == crate::text::texts(old(out)@) + qualified(
            table@,
            crate::text::texts(columns@),
        ),
{
    let ghost start = crate::text::texts(out@);
    let ghost all = qualified(table@, crate::text::texts(columns@));
    let mut i: usize = 0;
    assert(crate::text::texts(out@) =~= start + all.take(0));
    while i < columns.len()
        invariant
            i <= columns.len(),
            all == qualified(table@, crate::text::texts(columns@)),
            crate::text::texts(out@) == start + all.take(i as int),
        decreases columns.len() - i,
    {
        let ghost before = out@;
        let full = table.to_string().concat(".").concat(columns[i].as_str());
        assert(full@ == all[i as int]);
        out.push(full);
        i = i + 1;
        assert(crate::text::texts(out@) =~= crate::text::texts(before).push(all[i - 1]));
        assert(start + all.take(i as int) =~= (start + all.take(i - 1)).push(all[i - 1]));
    }
    assert(all.take(columns.len() as int) =~= all);
}

fn copy_names(names: &Vec<String>) -> (out: Vec<String>)
    ensures
        out@ == names@,
{
    let mut out: Vec<String> = Vec::new();
    let mut i: usize = 0;
    while i < names.len()
        invariant
            i <= names.len(),
            out@ == names@.take(i as int),
        decreases names.len() - i,
    {
        out.push(names[i].clone());
        i = i + 1;
        assert(out@ =~= names@.take(i as int));
    }
    assert(names@.take(names.len() as int) =~= names@);
    out
}

impl<D> QueryEngine<D> {
    /// The position of the table `name`, in load order.
    pub fn table_position(&self, name: &str) -> (out: Result<usize, QueryError>)
        ensures
            match position(self@, name@) {
                Some(i) => out matches Ok(found) && found == i && found < self@.len(),
                None => out matches Err(e) && e@ == unknown_table(name@),
            },
    {
        match self.find(name) {
            Some(i) => Ok(i),
            None => Err(QueryError::UnknownTable(name.to_string())),
        }
    }

    /// The contents of the table `name`.
    pub fn table_data(&self, name: &str) -> (out: Result<&D, QueryError>)
        ensures
            match position(self@, name@) {
                Some(i) => out matches Ok(data) && *data == self@[i].data,
                None => out matches Err(e) && e@ == unknown_table(name@),
            },
    {
        match self.table_position(name) {
            Ok(i) => Ok(&self.tables[i].data),
            Err(e) => Err(e),
        }
    }

    /// The contents of the `i`-th table, in load order.
    pub fn nth_table_data(&self, i: usize) -> (out: Option<&D>)
        ensures
            match out {
                Some(data) => i < self@.len() && *data == self@[i as int].data,
                None => i >= self@.len(),
            },
    {
        if i < self.tables.len() {
            Some(&self.tables[i].data)
        } else {
            None
        }
    }

    /// The column names of the table `name`.
    pub fn table_schema(&self, name: &str) -> (out: Result<&Vec<String>, QueryError>)
        ensures
            match position(self@, name@) {
                Some(i) => out matches Ok(columns) && crate::text::texts(columns@)
                    == self@[i].columns,
                None => out matches Err(e) && e@ == unknown_table(name@),
            },
    {
        match self.table_position(name) {
            Ok(i) => Ok(&self.tables[i].column_names),
            Err(e) => Err(e),
        }
    }

    /// The loaded table names, in load order.
    pub fn table_names(&self) -> (names: Vec<&str>)
        ensures
            names@.len() == self@.len(),
            forall|i: int| 0 <= i < names@.len() ==> (#[trigger] names@[i])@ == self@[i].name,
    {
        let mut names: Vec<&str> = Vec::new();
        let mut i: usize = 0;
        while i < self.tables.len()
            invariant
                i == names@.len() <= self.tables.len() == self@.len(),
                forall|k: int| 0 <= k < i ==> (#[trigger] names@[k])@ == self@[k].name,
            decreases self.tables.len() - i,
        {
            names.push(self.tables[i].name.as_str());
            i = i + 1;
        }
        names
    }

    /// The loaded tables with their columns, in load order.
    pub fn schemas(&self) -> (out: Vec<(&str, Vec<String>)>)
        ensures
            out@.len() == self@.len(),
            forall|i: int|
                0 <= i < out@.len() ==> (#[trigger] out@[i]).0@ == self@[i].name
                    && crate::text::texts(out@[i].1@) == self@[i].columns,
    {
        let mut out: Vec<(&str, Vec<String>)> = Vec::new();
        let mut i: usize = 0;
        while i < self.tables.len()
            invariant
                i == out@.len() <= self.tables.len() == self@.len(),
                forall|k: int|
                    0 <= k < i ==> (#[trigger] out@[k]).0@ == self@[k].name
                        && crate::text::texts(out@[k].1@) == self@[k].columns,
            decreases self.tables.len() - i,
        {
            out.push((self.tables[i].name.as_str(), copy_names(&self.tables[i].column_names)));
            i = i + 1;
        }
        out
    }

    /// The columns that a `*` in `query` stands for.
    pub fn star_schema(&self, query: &Select) -> (out: Result<Vec<String>, QueryError>)
        ensures
            match star_schema_of(self@, *query) {
                Ok(columns) => out matches Ok(found) && crate::text::texts(found@) == columns,
                Err(e) => out matches Err(error) && error@ == e,
            },
    {
        let from = match from_table(query) {
            Ok(from) => from,
            Err(e) => {
                return Err(e);
            },
        };
        match first_join(query) {
            Some(join) => {
                let right = match join_table(join) {
                    Ok(right) => right,
                    Err(e) => {
                        return Err(e);
                    },
                };
                let left_schema = match self.table_schema(from) {
                    Ok(columns) => columns,
                    Err(e) => {
                        return Err(e);
                    },
                };
                let right_schema = match self.table_schema(right) {
                    Ok(columns) => columns,
                    Err(e) => {
                        return Err(e);
                    },
                };
                let mut out: Vec<String> = Vec::new();
                push_qualified(&mut out, from, left_schema);
                push_qualified(&mut out, right, right_schema);
                assert(crate::text::texts(out@) =~= qualified(
                    from@,
                    crate::text::texts(left_schema@),
                ) + qualified(right@, crate::text::texts(right_schema@)));
                Ok(out)
            },
            None => match self.table_schema(from) {
                Ok(columns) => Ok(copy_names(columns)),
                Err(e) => Err(e),
            },
        }
    }
}

proof fn lemma_position_extends<D>(tables: Seq<TableView<D>>, name: Seq<char>, n: nat)
    requires
        n <= tables.len(),
        position(tables.take(n as int), name) is Some,
    ensures
        position(tables, name) == position(tables.take(n as int), name),
    decreases tables.len(),
{
    if n < tables.len() {
        assert(tables.drop_last().take(n as int) =~= tables.take(n as int));
        lemma_position_extends(tables.drop_last(), name, n);
    } else {
        assert(tables.take(n as int) =~= tables);
    }
}

proof fn lemma_failure_stays<D>(files: Seq<TableFile<D>>, n: nat, m: nat)
    requires
        n <= m,
        loaded_all(files, n) is Err,
    ensures
        loaded_all(files, m) == loaded_all(files, n),
    decreases m,
{
    if n < m {
        lemma_failure_stays(files, n, (m - 1) as nat);
    }
}

/// A table that was loaded is found under its name, behind all others, with the
/// contents and the columns of its file. Whatever was loaded before is found as
/// before.
pub proof fn law_loaded_table_is_found<D>(
    tables: Seq<TableView<D>>,
    file: TableFile<D>,
    name: Option<String>,
    other: Seq<char>,
)
    requires
        loaded_with(tables, file, name) is Ok,
    ensures
        ({
            let now = loaded_with(tables, file, name)->Ok_0;
            let added = load_name(file, name);
            &&& position(now, added) == Some(tables.len() as int)
            &&& file.opened matches Ok(opened) && now[tables.len() as int].data == opened.data
                && now[tables.len() as int].columns == schema_names(opened.schema@)
            &&& other != added ==> position(now, other) == position(tables, other)
            &&& position(tables, other) matches Some(i) ==> now[i] == tables[i]
        }),
{
    let now = loaded_with(tables, file, name)->Ok_0;
    assert(now.drop_last() =~= tables);
    lemma_position(tables, other);
}

/// A name that is taken is refused, and the refusal names it.
pub proof fn law_taken_name_is_refused<D>(
    tables: Seq<TableView<D>>,
    file: TableFile<D>,
    name: Option<String>,
    i: int,
)
    requires
        file.opened is Ok,
        0 <= i < tables.len(),
        tables[i].name == load_name(file, name),
    ensures
        loaded_with(tables, file, name) == Err::<Seq<TableView<D>>, crate::error::QueryErrorView>(
            crate::error::QueryErrorView::DuplicateTable(load_name(file, name)),
        ),
{
    lemma_position(tables, load_name(file, name));
}

proof fn lemma_load_order<D>(files: Seq<TableFile<D>>, n: nat)
    requires
        n <= files.len(),
        loaded_all(files, n) is Ok,
    ensures
        loaded_all(files, n)->Ok_0.len() == n,
        distinct_names(loaded_all(files, n)->Ok_0),
        forall|i: int|
            0 <= i < n ==> (#[trigger] loaded_all(files, n)->Ok_0[i]).name == load_name(
                files[i],
                None,
            ),
    decreases n,
{
    if n > 0 {
        lemma_load_order(files, (n - 1) as nat);
        let before = loaded_all(files, (n - 1) as nat)->Ok_0;
        let now = loaded_all(files, n)->Ok_0;
        lemma_position(before, load_name(files[n - 1], None));
        assert forall|i: int| 0 <= i < n implies (#[trigger] now[i]).name == load_name(
            files[i],
            None,
        ) by {
            if i < n - 1 {
                assert(now[i] == before[i]);
            }
        }
    }
}

/// Files that load together give one table each, in the order of the files, each
/// under its stem, and no two under the same name.
pub proof fn law_tables_in_load_order<D>(files: Seq<TableFile<D>>)
    requires
        loaded_all(files, files.len()) is Ok,
    ensures
        loaded_all(files, files.len())->Ok_0.len() == files.len(),
        distinct_names(loaded_all(files, files.len())->Ok_0),
        forall|i: int|
            0 <= i < files.len() ==> (#[trigger] loaded_all(files, files.len())->Ok_0[i]).name
                == load_name(files[i], None),
{
    lemma_load_order(files, files.len());
}

/// Table `i` is the first one called `name`.
pub open spec fn first_named<D>(tables: Seq<TableView<D>>, name: Seq<char>, i: int) -> bool {
    &&& 0 <= i < tables.len()
    &&& tables[i].name == name
    &&& forall|k: int| 0 <= k < i ==> (#[trigger] tables[k]).name != name
}

/// No table is called `name`.
pub open spec fn none_named<D>(tables: Seq<TableView<D>>, name: Seq<char>) -> bool {
    forall|k: int| 0 <= k < tables.len() ==> (#[trigger] tables[k]).name != name
}

/// A name is looked up as the first table that bears it, wherever that stands, and
/// is unknown only if no table bears it.
pub proof fn law_names_are_looked_up<D>(tables: Seq<TableView<D>>, name: Seq<char>, i: int)
    ensures
        first_named(tables, name, i) <==> position(tables, name) == Some(i),
        none_named(tables, name) <==> position(tables, name) is None,
{
    lemma_position(tables, name);
    match position(tables, name) {
        Some(p) => {
            if first_named(tables, name, i) {
                if p < i {
                    assert(tables[p].name != name);
                } else if i < p {
                    assert(tables[i].name != name);
                }
            }
            assert(tables[p].name == name);
        },
        None => {},
    }
}

/// A file that opens is loaded behind all tables, which stay as they are: under the
/// given name, else under its stem, else as `data`, with its contents and with one
/// column for each schema element behind the root. A taken name and a file that
/// does not open are refused for just that reason.
pub proof fn law_loading_adds_one_table<D>(
    tables: Seq<TableView<D>>,
    file: TableFile<D>,
    name: Option<String>,
    wanted: Seq<char>,
)
    requires
        name matches Some(given) ==> wanted == given@,
        name is None && file.stem is Some ==> wanted == (file.stem->0)@,
        name is None && file.stem is None ==> wanted == "data"@,
    ensures
        match file.opened {
            Err(OpenError::Io(reason)) => loaded_with(tables, file, name) == Err::<
                Seq<TableView<D>>,
                crate::error::QueryErrorView,
            >(crate::error::QueryErrorView::Io(file.path@ + ": "@ + reason@)),
            Err(OpenError::Parquet(error)) => loaded_with(tables, file, name) == Err::<
                Seq<TableView<D>>,
                crate::error::QueryErrorView,
            >(crate::error::QueryErrorView::File(error.0@)),
            Ok(opened) => if none_named(tables, wanted) {
                &&& loaded_with(tables, file, name) matches Ok(now)
                &&& now.len() == tables.len() + 1
                &&& forall|i: int| 0 <= i < tables.len() ==> #[trigger] now[i] == tables[i]
                &&& now[tables.len() as int].name == wanted
                &&& now[tables.len() as int].data == opened.data
                &&& opened.schema@.len() == 0 ==> now[tables.len() as int].columns.len() == 0
                &&& opened.schema@.len() > 0 ==> now[tables.len() as int].columns.len()
                    == opened.schema@.len() - 1
                &&& forall|c: int|
                    0 <= c < opened.schema@.len() - 1 ==> #[trigger] now[tables.len() as int].columns[c]
                        == opened.schema@[c + 1].name@
            } else {
                loaded_with(tables, file, name) == Err::<
                    Seq<TableView<D>>,
                    crate::error::QueryErrorView,
                >(crate::error::QueryErrorView::DuplicateTable(wanted))
            },
        },
{
    law_names_are_looked_up(tables, wanted, 0);
}

/// Files are loaded one after the other, each into what those before it gave, and
/// the first failure ends it.
pub proof fn law_files_load_one_after_the_other<D>(files: Seq<TableFile<D>>, n: nat, m: nat)
    requires
        n < files.len(),
        n < m,
    ensures
        loaded_all(files, 0) == Ok::<Seq<TableView<D>>, crate::error::QueryErrorView>(Seq::empty()),
        loaded_all(files, n) matches Ok(before) ==> loaded_all(files, n + 1) == loaded_with(
            before,
            files[n as int],
            None,
        ),
        loaded_all(files, n) is Err ==> loaded_all(files, m) == loaded_all(files, n),
{
    if loaded_all(files, n) is Err {
        lemma_failure_stays(files, n, m);
    }
}

/// A `*` over one table stands for that table's columns, all of them and in order.
pub proof fn law_star_over_one_table<D>(
    tables: Seq<TableView<D>>,
    query: Select,
    from: crate::select::FromClause,
    name: String,
    i: int,
)
    requires
        query.from == Some(from),
        from.first.name == Some(name),
        from.joins@.len() == 0,
    ensures
        first_named(tables, name@, i) ==> star_schema_of(tables, query) == Ok::<
            Seq<Seq<char>>,
            crate::error::QueryErrorView,
        >(tables[i].columns),
        none_named(tables, name@) ==> star_schema_of(tables, query) == Err::<
            Seq<Seq<char>>,
            crate::error::QueryErrorView,
        >(crate::error::QueryErrorView::UnknownTable(name@)),
{
    law_names_are_looked_up(tables, name@, i);
}

/// A `*` over a join, whatever its kind, stands for the columns of the left table
/// and then for those of the right one, each behind its table's name and a dot. The
/// first of the two that is not loaded is the error.
pub proof fn law_star_over_a_join<D>(
    tables: Seq<TableView<D>>,
    query: Select,
    from: crate::select::FromClause,
    name: String,
    right: String,
    i: int,
    j: int,
)
    requires
        query.from == Some(from),
        from.first.name == Some(name),
        from.joins@.len() > 0,
        from.joins@[0].table.name == Some(right),
    ensures
        first_named(tables, name@, i) && first_named(tables, right@, j) ==> {
            &&& star_schema_of(tables, query) matches Ok(columns)
            &&& columns.len() == tables[i].columns.len() + tables[j].columns.len()
            &&& forall|c: int|
                0 <= c < tables[i].columns.len() ==> #[trigger] columns[c] == name@ + "."@
                    + tables[i].columns[c]
            &&& forall|c: int|
                tables[i].columns.len() <= c < columns.len() ==> #[trigger] columns[c] == right@
                    + "."@ + tables[j].columns[c - tables[i].columns.len()]
        },
        none_named(tables, name@) ==> star_schema_of(tables, query) == Err::<
            Seq<Seq<char>>,
            crate::error::QueryErrorView,
        >(crate::error::QueryErrorView::UnknownTable(name@)),
        first_named(tables, name@, i) && none_named(tables, right@) ==> star_schema_of(
            tables,
            query,
        ) == Err::<Seq<Seq<char>>, crate::error::QueryErrorView>(
            crate::error::QueryErrorView::UnknownTable(right@),
        ),
{
    law_names_are_looked_up(tables, name@, i);
    law_names_are_looked_up(tables, right@, j);
}

/// A query without a plain table to read from, or whose join has none, has no `*`.
pub proof fn law_star_needs_named_tables<D>(tables: Seq<TableView<D>>, query: Select)
    requires
        query.from is None || (query.from->0).first.name is None || ((
        query.from->0).joins@.len() > 0 && (query.from->0).joins@[0].table.name is None),
    ensures
        star_schema_of(tables, query) == Err::<Seq<Seq<char>>, crate::error::QueryErrorView>(
            crate::error::QueryErrorView::UnknownTable("<no table>"@),
        ),
{
}

} // verus!
