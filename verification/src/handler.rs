//! The session behind the prompt: what an input asks for, how its outcome is
//! shown, and the dot-commands `.tables`, `.schema`, `.open` and `.color`.

use crate::error::QueryError;
use crate::explain::{ExplainAction, ExplainState};
use crate::listing::{format_opcodes, OpcodeSection};
use crate::plan::{format_plan, PlanNode};
use crate::query::QueryEngine;
use crate::select::Select;
use crate::stream_output::QueryResult;
use crate::text::{split_once, starts_with, trim};
use crate::value::Value;
use vstd::prelude::*;
use vstd::string::*;

verus! {

/// What an input's `EXPLAIN` prefix asks for.
#[derive(Debug, Clone, Copy, PartialEq, Eq, Structural)]
pub enum Explain {
    /// No prefix: run the query.
    Absent,
    /// `EXPLAIN QUERY PLAN`
    QueryPlan,
    /// A bare `EXPLAIN`
    Opcodes,
}

/// A query's rows, an `EXPLAIN QUERY PLAN` tree, or a bare `EXPLAIN` listing.
/// The latter two have a fixed format of their own.
#[derive(Debug)]
pub enum Output {
    Rows(QueryResult),
    Plan(Vec<PlanNode>),
    Opcodes(Vec<OpcodeSection>),
}

/// What an input asks for.
#[derive(Debug)]
pub enum Request {
    /// It does not parse: it is answered with the parser's message.
    Refuse { message: String },
    /// Describe the plan of its query, an `EXPLAIN` that has begun.
    Plan { state: ExplainState, action: ExplainAction },
    /// List the opcodes of its query.
    ListOpcodes,
    /// Run its query.
    Run,
}

/// What came of the work that an input asked for.
#[derive(Debug)]
pub enum Outcome {
    Rows(Result<QueryResult, QueryError>),
    Plan(Result<Vec<PlanNode>, QueryError>),
    Opcodes(Result<Vec<OpcodeSection>, QueryError>),
}

/// An output made ready: the cells of a table that is still to be laid out, or
/// finished text.
#[derive(Debug)]
pub enum Formatted {
    Cells(Vec<Vec<String>>),
    Text(String),
}

/// What a dot-command comes to.
#[derive(Debug)]
pub enum CommandReply {
    /// Not a command of this session.
    Unknown,
    /// The lines to print.
    Lines(Vec<String>),
    /// Load the file at `path`, under `table` or else under its stem.
    Open { path: String, table: Option<String> },
}

/// A session over the loaded tables.
pub struct ColumnHandler<D> {
    pub engine: QueryEngine<D>,
}

/// The cells of a result's rows.
pub open spec fn result_cells(rows: Seq<Vec<Value<String>>>) -> Seq<Seq<Seq<char>>> {
    rows.map_values(|row: Vec<Value<String>>| crate::stream_output::row_texts(row@))
}

/// What the user reads of a query error.
pub open spec fn message_of(e: QueryError) -> Seq<char> {
    crate::error::error_text(e@)
}

/// `name` is a non-empty abbreviation of the command `full`.
pub open spec fn abbreviates(name: Seq<char>, full: Seq<char>) -> bool {
    name.len() > 0 && crate::text::begins_with(full, name)
}

/// The lines of `.schema` for the first `n` tables: each table's name, then its
/// columns, indented.
pub open spec fn schema_lines<D>(tables: Seq<crate::query::TableView<D>>, n: nat) -> Seq<Seq<char>>
    decreases n,
{
    if n == 0 {
        Seq::empty()
    } else {
        schema_lines(tables, (n - 1) as nat).push(tables[n - 1].name + ":"@)
            + tables[n - 1].columns.map_values(|c: Seq<char>| "  "@ + c)
    }
}

/// The path and the table name in the argument of `.open`: `<path> AS <name>`,
/// or `<path>` alone.
pub open spec fn open_request(arg: Seq<char>) -> (Seq<char>, Option<Seq<char>>) {
    match crate::text::split_at_first(arg, " AS "@) {
        Some((path, name)) => (crate::text::trimmed(path), Some(crate::text::trimmed(name))),
        None => match crate::text::split_at_first(arg, " as "@) {
            Some((path, name)) => (crate::text::trimmed(path), Some(crate::text::trimmed(name))),
            None => (crate::text::trimmed(arg), None),
        },
    }
}

/// The reply to the dot-command `name` with the argument `arg`.
pub open spec fn replies<D>(
    tables: Seq<crate::query::TableView<D>>,
    name: Seq<char>,
    arg: Seq<char>,
    reply: CommandReply,
) -> bool {
    if abbreviates(name, "tables"@) {
        &&& reply matches CommandReply::Lines(lines)
        &&& crate::text::texts(lines@) == tables.map_values(
            |t: crate::query::TableView<D>| t.name,
        )
    } else if abbreviates(name, "schema"@) {
        &&& reply matches CommandReply::Lines(lines)
        &&& crate::text::texts(lines@) == schema_lines(tables, tables.len())
    } else if abbreviates(name, "open"@) {
        if arg.len() == 0 {
            &&& reply matches CommandReply::Lines(lines)
            &&& crate::text::texts(lines@) == seq![".open <path> [AS <name>]"@]
        } else {
            &&& reply matches CommandReply::Open { path, table }
            &&& path@ == open_request(arg).0
            &&& match open_request(arg).1 {
                Some(n) => table matches Some(t) && t@ == n,
                None => table is None,
            }
        }
    } else if abbreviates(name, "color"@) {
        &&& reply matches CommandReply::Lines(lines)
        &&& crate::text::texts(lines@) == seq!["'.color' is not supported by this build's REPL"@]
    } else {
        reply is Unknown
    }
}

fn one_line(line: &str) -> (lines: Vec<String>)
    ensures
        crate::text::texts(lines@) == seq![line@],
{
    let mut lines: Vec<String> = Vec::new();
    lines.push(line.to_string());
    assert(crate::text::texts(lines@) =~= seq![line@]);
    lines
}

fn is_command(name: &str, full: &str) -> (yes: bool)
    ensures
        yes == abbreviates(name@, full@),
{
    !name.is_empty() && starts_with(full, name)
}

fn push_line(lines: &mut Vec<String>, line: String)
    ensures
        crate::text::texts(final(lines)@) == crate::text::texts(old(lines)@).push(line@),
{
    lines.push(line);
    assert(crate::text::texts(lines@) =~= crate::text::texts(old(lines)@).push(line@));
}

/// Shows the outcome of an input: an output, or the error's message.
pub fn output_of(outcome: Outcome) -> (out: Result<Output, String>)
    ensures
        match outcome {
            Outcome::Rows(Ok(result)) => out == Ok::<Output, String>(Output::Rows(result)),
            Outcome::Plan(Ok(nodes)) => out == Ok::<Output, String>(Output::Plan(nodes)),
            Outcome::Opcodes(Ok(sections)) => out == Ok::<Output, String>(
                Output::Opcodes(sections),
            ),
            Outcome::Rows(Err(e)) => out matches Err(m) && m@ == message_of(e),
            Outcome::Plan(Err(e)) => out matches Err(m) && m@ == message_of(e),
            Outcome::Opcodes(Err(e)) => out matches Err(m) && m@ == message_of(e),
        },
{
    match outcome {
        Outcome::Rows(Ok(result)) => Ok(Output::Rows(result)),
        Outcome::Plan(Ok(nodes)) => Ok(Output::Plan(nodes)),
        Outcome::Opcodes(Ok(sections)) => Ok(Output::Opcodes(sections)),
        Outcome::Rows(Err(e)) => Err(e.message()),
        Outcome::Plan(Err(e)) => Err(e.message()),
        Outcome::Opcodes(Err(e)) => Err(e.message()),
    }
}

fn cells_of(row: &Vec<Value<String>>) -> (cells: Vec<String>)
    ensures
        crate::text::texts(cells@) == crate::stream_output::row_texts(row@),
{
    let mut cells: Vec<String> = Vec::new();
    let ghost all = crate::stream_output::row_texts(row@);
    let mut i: usize = 0;
    assert(crate::text::texts(cells@) =~= all.take(0));
    while i < row.len()
        invariant
            i <= row.len(),
            all == crate::stream_output::row_texts(row@),
            crate::text::texts(cells@) == all.take(i as int),
        decreases row.len() - i,
    {
        push_line(&mut cells, row[i].text());
        i = i + 1;
        assert(all.take(i as int) =~= all.take(i - 1).push(all[i - 1]));
    }
    assert(all.take(row.len() as int) =~= all);
    cells
}

/// The request of an input, of which `parsed` is what the parser made.
pub open spec fn requests<D>(
    tables: Seq<crate::query::TableView<D>>,
    parsed: Result<(Explain, Select), String>,
    request: Request,
) -> bool {
    match parsed {
        Err(m) => request == (Request::Refuse { message: m }),
        Ok((Explain::QueryPlan, query)) => request matches Request::Plan { state, action }
            && crate::explain::explains(tables, query, state, action),
        Ok((Explain::Opcodes, _)) => request is ListOpcodes,
        Ok((Explain::Absent, _)) => request is Run,
    }
}

impl<D> ColumnHandler<D> {
    /// Decides what is to be done with an input, of which `parsed` is what the
    /// parser made.
    pub fn execute(&self, parsed: Result<(Explain, Select), String>) -> (request: Request)
        ensures
            requests(self.engine@, parsed, request),
    {
        match parsed {
            Err(message) => Request::Refuse { message },
            Ok((explain, query)) => match explain {
                Explain::QueryPlan => {
                    let (state, action) = self.engine.explain(&query);
                    Request::Plan { state, action }
                },
                Explain::Opcodes => Request::ListOpcodes,
                Explain::Absent => Request::Run,
            },
        }
    }

    /// Makes an output ready to print. The cells of a result's rows are laid out
    /// by the caller; a plan or a listing is finished text.
    pub fn format(&self, output: &Output) -> (out: Formatted)
        requires
            *output matches Output::Plan(nodes) ==> crate::plan::finite_plan(nodes@),
        ensures
            match *output {
                Output::Rows(result) => {
                    &&& out matches Formatted::Cells(cells)
                    &&& cells@.map_values(|row: Vec<String>| crate::text::texts(row@))
                        == result_cells(result.rows@)
                },
                Output::Plan(nodes) => out matches Formatted::Text(text) && text@
                    == crate::plan::plan_text(nodes@),
                Output::Opcodes(sections) => out matches Formatted::Text(text) && text@
                    == crate::listing::listing_text(sections@, sections@.len()),
            },
    {
        match output {
            Output::Rows(result) => {
                let mut cells: Vec<Vec<String>> = Vec::new();
                let mut i: usize = 0;
                while i < result.rows.len()
                    invariant
                        i == cells.len() <= result.rows.len(),
                        forall|k: int|
                            0 <= k < i ==> crate::text::texts((#[trigger] cells@[k])@)
                                == crate::stream_output::row_texts(result.rows@[k]@),
                    decreases result.rows.len() - i,
                {
                    cells.push(cells_of(&result.rows[i]));
                    i = i + 1;
                }
                assert(cells@.map_values(|row: Vec<String>| crate::text::texts(row@))
                    =~= result_cells(result.rows@));
                Formatted::Cells(cells)
            },
            Output::Plan(nodes) => Formatted::Text(format_plan(nodes.as_slice())),
            Output::Opcodes(sections) => Formatted::Text(format_opcodes(sections.as_slice())),
        }
    }

    fn tables_reply(&self) -> (lines: Vec<String>)
        ensures
            crate::text::texts(lines@) == self.engine@.map_values(
                |t: crate::query::TableView<D>| t.name,
            ),
    {
        let names = self.engine.table_names();
        let ghost all = self.engine@.map_values(|t: crate::query::TableView<D>| t.name);
        let mut lines: Vec<String> = Vec::new();
        let mut i: usize = 0;
        assert(crate::text::texts(lines@) =~= all.take(0));
        while i < names.len()
            invariant
                i <= names.len() == all.len(),
                forall|k: int| 0 <= k < names@.len() ==> (#[trigger] names@[k])@ == all[k],
                crate::text::texts(lines@) == all.take(i as int),
            decreases names.len() - i,
        {
            push_line(&mut lines, names[i].to_string());
            i = i + 1;
            assert(all.take(i as int) =~= all.take(i - 1).push(all[i - 1]));
        }
        assert(all.take(names.len() as int) =~= all);
        lines
    }

    fn schema_reply(&self) -> (lines: Vec<String>)
        ensures
            crate::text::texts(lines@) == schema_lines(self.engine@, self.engine@.len()),
    {
        let schemas = self.engine.schemas();
        let ghost tables = self.engine@;
        let mut lines: Vec<String> = Vec::new();
        let mut i: usize = 0;
        assert(crate::text::texts(lines@) =~= schema_lines(tables, 0));
        while i < schemas.len()
            invariant
                i <= schemas.len() == tables.len(),
                forall|k: int|
                    0 <= k < schemas@.len() ==> (#[trigger] schemas@[k]).0@ == tables[k].name
                        && crate::text::texts(schemas@[k].1@) == tables[k].columns,
                crate::text::texts(lines@) == schema_lines(tables, i as nat),
            decreases schemas.len() - i,
        {
            let columns = &schemas[i].1;
            push_line(&mut lines, schemas[i].0.to_string().concat(":"));
            let ghost head = crate::text::texts(lines@);
            let ghost indented = tables[i as int].columns.map_values(|c: Seq<char>| "  "@ + c);
            let mut c: usize = 0;
            assert(crate::text::texts(lines@) =~= head + indented.take(0));
            while c < columns.len()
                invariant
                    c <= columns.len() == indented.len(),
                    crate::text::texts(columns@) == tables[i as int].columns,
                    indented == tables[i as int].columns.map_values(|c: Seq<char>| "  "@ + c),
                    crate::text::texts(lines@) == head + indented.take(c as int),
                decreases columns.len() - c,
            {
                assert(crate::text::texts(columns@)[c as int] == columns@[c as int]@);
                push_line(&mut lines, "  ".to_string().concat(columns[c].as_str()));
                c = c + 1;
                assert(head + indented.take(c as int) =~= (head + indented.take(c - 1)).push(
                    indented[c - 1],
                ));
            }
            assert(indented.take(columns.len() as int) =~= indented);
            i = i + 1;
        }
        lines
    }

    /// Answers the dot-command `name`, of which any abbreviation will do.
    pub fn command(&self, name: &str, arg: &str) -> (reply: CommandReply)
        ensures
            replies(self.engine@, name@, arg@, reply),
    {
        if is_command(name, "tables") {
            return CommandReply::Lines(self.tables_reply());
        }
        if is_command(name, "schema") {
            return CommandReply::Lines(self.schema_reply());
        }
        if is_command(name, "open") {
            if arg.is_empty() {
                return CommandReply::Lines(one_line(".open <path> [AS <name>]"));
            }
            if let Some((path, table)) = split_once(arg, " AS ") {
                return CommandReply::Open {
                    path: trim(path).to_string(),
                    table: Some(trim(table).to_string()),
                };
            }
            if let Some((path, table)) = split_once(arg, " as ") {
                return CommandReply::Open {
                    path: trim(path).to_string(),
                    table: Some(trim(table).to_string()),
                };
            }
            return CommandReply::Open { path: trim(arg).to_string(), table: None };
        }
        if is_command(name, "color") {
            return CommandReply::Lines(one_line("'.color' is not supported by this build's REPL"));
        }
        CommandReply::Unknown
    }
}

/// The lines that `.open` prints once the table is loaded: none, or the error.
pub fn open_reply(outcome: &Result<(), QueryError>) -> (lines: Vec<String>)
    ensures
        match *outcome {
            Ok(_) => lines@.len() == 0,
            Err(e) => crate::text::texts(lines@) == seq!["error: "@ + message_of(e)],
        },
{
    match outcome {
        Ok(()) => Vec::new(),
        Err(e) => {
            let message = e.message();
            let line = "error: ".to_string().concat(message.as_str());
            one_line(line.as_str())
        },
    }
}

/// What `.help` says of this session's own commands.
pub fn help_extra() -> (lines: Vec<String>)
    ensures
        crate::text::texts(lines@) == seq![
            ".tables     List tables (Parquet files)"@,
            ".schema     Show column schema"@,
            ".open <path> [AS <name>]  Load another Parquet file into this session"@,
        ],
{
    let mut lines: Vec<String> = Vec::new();
    lines.push(".tables     List tables (Parquet files)".to_string());
    lines.push(".schema     Show column schema".to_string());
    lines.push(
        ".open <path> [AS <name>]  Load another Parquet file into this session".to_string(),
    );
    assert(crate::text::texts(lines@) =~= seq![
        ".tables     List tables (Parquet files)"@,
        ".schema     Show column schema"@,
        ".open <path> [AS <name>]  Load another Parquet file into this session"@,
    ]);
    lines
}

/// The greeting of a session.
pub fn banner(version: &str) -> (out: String)
    ensures
        out@ == "column-rs "@ + version@
            + " — Parquet analytics\nEnter SQL queries ending with `;`. Type .help for commands.\n"@,
{
    "column-rs ".to_string().concat(version).concat(
        " — Parquet analytics\nEnter SQL queries ending with `;`. Type .help for commands.\n",
    )
}

/// `.open <path> AS <name>` asks for that path and that name, without the white
/// space around either, where the first ` AS ` is the one between them.
pub proof fn law_open_names_the_table(path: Seq<char>, name: Seq<char>)
    requires
        forall|j: int|
            0 <= j < path.len() ==> !crate::text::occurs_at(path + " AS "@ + name, " AS "@, j),
    ensures
        open_request(path + " AS "@ + name) == (
            crate::text::trimmed(path),
            Some(crate::text::trimmed(name)),
        ),
{
    let arg = path + " AS "@ + name;
    let needle = " AS "@;
    let at = path.len() as int;
    assert(arg.subrange(at, at + needle.len()) =~= needle);
    assert(crate::text::first_at(arg, needle, at));
    assert forall|j: int| crate::text::first_at(arg, needle, j) implies j == at by {
        if at < j {
            assert(crate::text::occurs_at(arg, needle, at));
        }
    }
    assert(arg.take(at) =~= path);
    assert(arg.skip(at + needle.len()) =~= name);
}

/// No abbreviation stands for two commands.
pub proof fn law_commands_are_told_apart(name: Seq<char>)
    ensures
        abbreviates(name, "tables"@) ==> !abbreviates(name, "schema"@),
        abbreviates(name, "tables"@) ==> !abbreviates(name, "open"@),
        abbreviates(name, "tables"@) ==> !abbreviates(name, "color"@),
        abbreviates(name, "schema"@) ==> !abbreviates(name, "open"@),
        abbreviates(name, "schema"@) ==> !abbreviates(name, "color"@),
        abbreviates(name, "open"@) ==> !abbreviates(name, "color"@),
{
    reveal_strlit("tables");
    reveal_strlit("schema");
    reveal_strlit("open");
    reveal_strlit("color");
    assert(abbreviates(name, "tables"@) ==> "tables"@.take(name.len() as int)[0] == 't');
    assert(abbreviates(name, "schema"@) ==> "schema"@.take(name.len() as int)[0] == 's');
    assert(abbreviates(name, "open"@) ==> "open"@.take(name.len() as int)[0] == 'o');
    assert(abbreviates(name, "color"@) ==> "color"@.take(name.len() as int)[0] == 'c');
}

/// An input that begins with `EXPLAIN` is described and not run.
pub proof fn law_explain_does_not_run<D>(
    tables: Seq<crate::query::TableView<D>>,
    explain: Explain,
    query: Select,
    request: Request,
)
    requires
        explain != Explain::Absent,
        requests(tables, Ok((explain, query)), request),
    ensures
        request is Plan || request is ListOpcodes,
{
}

/// A command is meant by every non-empty beginning of its name, letter by letter,
/// and by nothing else.
pub proof fn law_every_beginning_abbreviates(name: Seq<char>, full: Seq<char>)
    ensures
        abbreviates(name, full) <==> 0 < name.len() <= full.len() && forall|i: int|
            0 <= i < name.len() ==> #[trigger] name[i] == full[i],
{
    crate::text::law_begins_with_its_characters(full, name);
}

/// `.tables` lists the name of every loaded table, one to a line, in load order.
pub proof fn law_tables_lists_every_table<D>(
    tables: Seq<crate::query::TableView<D>>,
    name: Seq<char>,
    arg: Seq<char>,
    reply: CommandReply,
    i: int,
)
    requires
        abbreviates(name, "tables"@),
        replies(tables, name, arg, reply),
    ensures
        reply matches CommandReply::Lines(lines) && lines@.len() == tables.len() && (0 <= i
            < tables.len() ==> lines@[i]@ == tables[i].name),
{
    let lines = reply->Lines_0@;
    assert(crate::text::texts(lines).len() == lines.len());
    if 0 <= i < tables.len() {
        assert(crate::text::texts(lines)[i] == lines[i]@);
    }
}

/// The lines of `.schema` for one table more: those before it, the table's name with
/// a colon, and below it each of its columns, indented by two blanks.
pub proof fn law_schema_lists_table_by_table<D>(
    tables: Seq<crate::query::TableView<D>>,
    n: nat,
    c: int,
)
    requires
        n < tables.len(),
    ensures
        ({
            let before = schema_lines(tables, n);
            let now = schema_lines(tables, n + 1);
            let columns = tables[n as int].columns;
            &&& schema_lines(tables, 0).len() == 0
            &&& now.len() == before.len() + 1 + columns.len()
            &&& now.take(before.len() as int) == before
            &&& now[before.len() as int] == tables[n as int].name + ":"@
            &&& 0 <= c < columns.len() ==> now[before.len() + 1 + c] == "  "@ + columns[c]
        }),
{
    let before = schema_lines(tables, n);
    let now = schema_lines(tables, n + 1);
    assert(now.take(before.len() as int) =~= before);
}

/// `.schema` prints those lines for all tables, `.color` says that it is not
/// supported, `.open` without an argument says what it takes, and a name that is no
/// beginning of a command is no command.
pub proof fn law_other_commands_are_answered<D>(
    tables: Seq<crate::query::TableView<D>>,
    name: Seq<char>,
    arg: Seq<char>,
    reply: CommandReply,
)
    requires
        replies(tables, name, arg, reply),
    ensures
        abbreviates(name, "schema"@) ==> (reply matches CommandReply::Lines(lines)
            && crate::text::texts(lines@) == schema_lines(tables, tables.len())),
        abbreviates(name, "open"@) && arg.len() == 0 ==> (reply matches CommandReply::Lines(lines)
            && lines@.len() == 1 && lines@[0]@ == ".open <path> [AS <name>]"@),
        abbreviates(name, "color"@) ==> (reply matches CommandReply::Lines(lines) && lines@.len()
            == 1 && lines@[0]@ == "'.color' is not supported by this build's REPL"@),
        !abbreviates(name, "tables"@) && !abbreviates(name, "schema"@) && !abbreviates(
            name,
            "open"@,
        ) && !abbreviates(name, "color"@) <==> reply is Unknown,
        reply is Open <==> abbreviates(name, "open"@) && arg.len() > 0,
{
    law_commands_are_told_apart(name);
    if reply is Lines {
        let lines = reply->Lines_0@;
        assert(crate::text::texts(lines).len() == lines.len());
        if lines.len() > 0 {
            assert(crate::text::texts(lines)[0] == lines[0]@);
        }
    }
}

/// `.open` asks for the path in front of the first ` AS ` under the name behind it,
/// or, where there is no ` AS `, for what stands around the first ` as `; without
/// either it asks for the whole argument under no name. White space around a path or
/// a name is left out.
pub proof fn law_open_asks_for_path_and_name<D>(
    tables: Seq<crate::query::TableView<D>>,
    name: Seq<char>,
    arg: Seq<char>,
    reply: CommandReply,
    path: Seq<char>,
    table: Seq<char>,
)
    requires
        abbreviates(name, "open"@),
        arg.len() > 0,
        replies(tables, name, arg, reply),
    ensures
        reply is Open,
        arg == path + " AS "@ + table && (forall|a: Seq<char>, b: Seq<char>|
            arg == #[trigger] (a + " AS "@ + b) ==> path.len() <= a.len()) ==> (
        reply matches CommandReply::Open { path: p, table: Some(t) } && p@ == crate::text::trimmed(
            path,
        ) && t@ == crate::text::trimmed(table)),
        arg == path + " as "@ + table && (forall|a: Seq<char>, b: Seq<char>|
            arg == #[trigger] (a + " as "@ + b) ==> path.len() <= a.len()) && (forall|
            a: Seq<char>,
            b: Seq<char>,
        |
            arg != #[trigger] (a + " AS "@ + b)) ==> (reply matches CommandReply::Open {
            path: p,
            table: Some(t),
        } && p@ == crate::text::trimmed(path) && t@ == crate::text::trimmed(table)),
        (forall|a: Seq<char>, b: Seq<char>| arg != #[trigger] (a + " AS "@ + b)) && (forall|
            a: Seq<char>,
            b: Seq<char>,
        |
            arg != #[trigger] (a + " as "@ + b)) ==> (reply matches CommandReply::Open {
            path: p,
            table: None,
        } && p@ == crate::text::trimmed(arg)),
{
    law_commands_are_told_apart(name);
    lemma_first_split(arg, " AS "@, path, table);
    lemma_first_split(arg, " as "@, path, table);
    match crate::text::split_at_first(arg, " AS "@) {
        Some((a, b)) => {
            crate::text::law_split_is_the_first(arg, " AS "@, a, b);
            assert(arg == a + " AS "@ + b);
        },
        None => {},
    }
    match crate::text::split_at_first(arg, " as "@) {
        Some((a, b)) => {
            crate::text::law_split_is_the_first(arg, " as "@, a, b);
            assert(arg == a + " as "@ + b);
        },
        None => {},
    }
}

proof fn lemma_first_split(s: Seq<char>, needle: Seq<char>, path: Seq<char>, table: Seq<char>)
    ensures
        s == path + needle + table && (forall|a: Seq<char>, b: Seq<char>|
            s == #[trigger] (a + needle + b) ==> path.len() <= a.len())
            ==> crate::text::split_at_first(s, needle) == Some((path, table)),
{
    if s == path + needle + table && (forall|a: Seq<char>, b: Seq<char>|
        s == #[trigger] (a + needle + b) ==> path.len() <= a.len()) {
        crate::text::law_split_is_the_first(s, needle, path, table);
        let (before, behind) = crate::text::split_at_first(s, needle)->0;
        assert(s == before + needle + behind);
        assert(path.len() == before.len());
        assert(before =~= s.take(path.len() as int));
        assert(path =~= s.take(path.len() as int));
        assert(behind =~= s.skip((path.len() + needle.len()) as int));
        assert(table =~= s.skip((path.len() + needle.len()) as int));
    }
}

/// An input that does not parse is answered with the parser's message, one without
/// a prefix is run, a bare `EXPLAIN` lists opcodes, and an `EXPLAIN QUERY PLAN`
/// begins to describe its own query.
pub proof fn law_an_input_asks_for_what_it_says<D>(
    tables: Seq<crate::query::TableView<D>>,
    parsed: Result<(Explain, Select), String>,
    request: Request,
)
    requires
        requests(tables, parsed, request),
    ensures
        parsed matches Err(m) ==> request == (Request::Refuse { message: m }),
        parsed matches Ok((explain, query)) ==> {
            &&& request is Run <==> explain == Explain::Absent
            &&& request is ListOpcodes <==> explain == Explain::Opcodes
            &&& request is Plan <==> explain == Explain::QueryPlan
            &&& request matches Request::Plan { state, action } ==> crate::explain::explains(
                tables,
                query,
                state,
                action,
            )
        },
{
}

/// A result's cells are the texts of its values, row by row and cell by cell, and an
/// error is read by its own message.
pub proof fn law_a_result_shows_every_cell(
    rows: Seq<Vec<Value<String>>>,
    r: int,
    c: int,
    e: QueryError,
)
    ensures
        result_cells(rows).len() == rows.len(),
        0 <= r < rows.len() ==> result_cells(rows)[r].len() == rows[r]@.len(),
        0 <= r < rows.len() && 0 <= c < rows[r]@.len() ==> result_cells(rows)[r][c]
            == crate::value::value_text(rows[r]@[c]),
        message_of(e) == crate::error::error_text(e@),
{
}

} // verus!
