//! The command line: what the arguments ask for, and what is written in answer.

use crate::error::{QueryError, VmError};
use crate::handler::{ColumnHandler, Explain, Formatted, Output};
use crate::stream_output::{print_chunk, print_result_streaming, Chunk, QueryResult};
use crate::text::join;
use crate::value::Value;
use vstd::prelude::*;
use vstd::string::*;

verus! {

/// What the arguments ask for.
#[derive(Debug)]
pub enum Command {
    Version,
    Help,
    /// `-c "<SQL>" <file...>`: run one query over the files.
    Query { sql: String, paths: Vec<String> },
    /// `codegen "<SQL>" --out <file.rs>`: compile the query ahead of time.
    Codegen { sql: String, out_path: String },
    /// `<file...>`: an interactive session over the files.
    Repl { paths: Vec<String> },
    /// The arguments make no sense: say what was expected.
    Misuse { expected: &'static str },
}

/// What is written to the two output streams, and whether the program succeeds.
#[derive(Debug)]
pub struct Reply {
    pub out: String,
    pub err: String,
    pub success: bool,
}

/// What a streamed query hands out: its column names first, then its rows.
#[derive(Debug)]
pub enum StreamEvent {
    Columns(Vec<String>),
    Chunk(Chunk),
}

/// The program's arguments in general.
pub open spec fn usage_text() -> Seq<char> {
    "[--version] [--help] [-c \"<SQL>\"] <file.parquet> [more.parquet ...]"@
}

/// The arguments of a one-shot query.
pub open spec fn query_usage() -> Seq<char> {
    "-c \"<SQL>\" <file.parquet> [more.parquet ...]"@
}

/// The arguments of ahead-of-time compilation.
pub open spec fn codegen_usage() -> Seq<char> {
    "codegen \"<SQL>\" --out <file.rs>"@
}

/// A success that writes `text`.
pub open spec fn says(reply: Reply, text: Seq<char>) -> bool {
    &&& reply.success
    &&& reply.out@ == text
    &&& reply.err@.len() == 0
}

/// A failure that writes `text` to the error stream.
pub open spec fn complains(reply: Reply, text: Seq<char>) -> bool {
    &&& !reply.success
    &&& reply.out@.len() == 0
    &&& reply.err@ == text
}

/// The command that the arguments ask for. `codegen` looks at no argument behind
/// its output path.
pub open spec fn asks(args: Seq<String>, command: Command) -> bool {
    if args.len() == 0 {
        command matches Command::Misuse { expected } && expected@ == usage_text()
    } else if args[0]@ == "--version"@ || args[0]@ == "-V"@ {
        command is Version
    } else if args[0]@ == "--help"@ || args[0]@ == "-h"@ {
        command is Help
    } else if args[0]@ == "-c"@ {
        if args.len() < 3 {
            command matches Command::Misuse { expected } && expected@ == query_usage()
        } else {
            command matches Command::Query { sql, paths } && sql == args[1] && paths@ == args.skip(
                2,
            )
        }
    } else if args[0]@ == "codegen"@ {
        if args.len() >= 4 && args[2]@ == "--out"@ {
            command matches Command::Codegen { sql, out_path } && sql == args[1] && out_path
                == args[3]
        } else {
            command matches Command::Misuse { expected } && expected@ == codegen_usage()
        }
    } else {
        command matches Command::Repl { paths } && paths@ == args
    }
}

fn is_text(arg: &String, text: &str) -> (yes: bool)
    ensures
        yes == (arg@ == text@),
{
    *arg == text.to_string()
}

fn arguments_from(args: &Vec<String>, first: usize) -> (out: Vec<String>)
    requires
        first <= args.len(),
    ensures
        out@ == args@.skip(first as int),
{
    let mut out: Vec<String> = Vec::new();
    let mut i: usize = first;
    while i < args.len()
        invariant
            first <= i <= args.len(),
            out@ == args@.subrange(first as int, i as int),
        decreases args.len() - i,
    {
        out.push(args[i].clone());
        i = i + 1;
        assert(out@ =~= args@.subrange(first as int, i as int));
    }
    assert(out@ =~= args@.skip(first as int));
    out
}

/// Reads the arguments behind the program's name.
pub fn parse_args(args: &Vec<String>) -> (command: Command)
    ensures
        asks(args@, command),
{
    if args.len() == 0 {
        return Command::Misuse {
            expected: "[--version] [--help] [-c \"<SQL>\"] <file.parquet> [more.parquet ...]",
        };
    }
    if is_text(&args[0], "--version") || is_text(&args[0], "-V") {
        return Command::Version;
    }
    if is_text(&args[0], "--help") || is_text(&args[0], "-h") {
        return Command::Help;
    }
    if is_text(&args[0], "-c") {
        if args.len() < 3 {
            return Command::Misuse { expected: "-c \"<SQL>\" <file.parquet> [more.parquet ...]" };
        }
        return Command::Query { sql: args[1].clone(), paths: arguments_from(args, 2) };
    }
    if is_text(&args[0], "codegen") {
        if args.len() >= 4 && is_text(&args[2], "--out") {
            return Command::Codegen { sql: args[1].clone(), out_path: args[3].clone() };
        }
        return Command::Misuse { expected: "codegen \"<SQL>\" --out <file.rs>" };
    }
    let paths = arguments_from(args, 0);
    assert(args@.skip(0) =~= args@);
    Command::Repl { paths }
}

fn say(text: String) -> (reply: Reply)
    ensures
        says(reply, text@),
{
    Reply { out: text, err: String::new(), success: true }
}

fn complain(text: String) -> (reply: Reply)
    ensures
        complains(reply, text@),
{
    Reply { out: String::new(), err: text, success: false }
}

fn error_line(message: &str) -> (line: String)
    ensures
        line@ == "error: "@ + message@ + "\n"@,
{
    "error: ".to_string().concat(message).concat("\n")
}

/// The answer to `--version`.
pub fn version_reply(version: &str) -> (reply: Reply)
    ensures
        says(reply, "column-rs "@ + version@ + "\n"@),
{
    say("column-rs ".to_string().concat(version).concat("\n"))
}

/// The answer to `--help`: the usage line, requested rather than provoked.
pub fn usage() -> (reply: Reply)
    ensures
        says(reply, "usage: column-rs "@ + usage_text() + "\n"@),
{
    say(
        "usage: column-rs ".to_string().concat(
            "[--version] [--help] [-c \"<SQL>\"] <file.parquet> [more.parquet ...]",
        ).concat("\n"),
    )
}

/// The answer to arguments that make no sense.
pub fn usage_error(expected: &str) -> (reply: Reply)
    ensures
        complains(reply, "usage: column-rs "@ + expected@ + "\n"@),
{
    complain("usage: column-rs ".to_string().concat(expected).concat("\n"))
}

/// The answer to a failure, by its message.
pub fn failure(message: &str) -> (reply: Reply)
    ensures
        complains(reply, "error: "@ + message@ + "\n"@),
{
    complain(error_line(message))
}

/// The answer to files that cannot be loaded.
pub fn open_failure(error: &QueryError) -> (reply: Reply)
    ensures
        complains(reply, "error: "@ + crate::error::error_text(error@) + "\n"@),
{
    failure(error.message().as_str())
}

/// The answer to `codegen`. `generated` is the emitter's error, or the outcome of
/// writing what it made to `out_path`.
pub fn codegen_reply(out_path: &str, generated: &Result<Result<(), String>, String>) -> (reply:
    Reply)
    ensures
        match *generated {
            Ok(Ok(_)) => says(reply, "wrote "@ + out_path@ + "\n"@),
            Ok(Err(e)) => complains(reply, "error: "@ + (out_path@ + ": "@ + e@) + "\n"@),
            Err(e) => complains(reply, "error: "@ + e@ + "\n"@),
        },
{
    match generated {
        Ok(Ok(())) => say("wrote ".to_string().concat(out_path).concat("\n")),
        Ok(Err(e)) => failure(out_path.to_string().concat(": ").concat(e.as_str()).as_str()),
        Err(e) => failure(e.as_str()),
    }
}

/// What a query that was run as a whole writes: a result is tab-separated text,
/// a plan or a listing is written as it is formatted, with a line end behind it.
pub open spec fn output_text(output: Output) -> Seq<char> {
    match output {
        Output::Rows(result) => crate::stream_output::result_text(result),
        Output::Plan(nodes) => crate::plan::plan_text(nodes@) + "\n"@,
        Output::Opcodes(sections) => crate::listing::listing_text(sections@, sections@.len())
            + "\n"@,
    }
}

/// The answer to a one-shot query that was run as a whole.
pub fn query_reply<D>(handler: &ColumnHandler<D>, outcome: &Result<Output, String>) -> (reply:
    Reply)
    requires
        *outcome matches Ok(Output::Plan(nodes)) ==> crate::plan::finite_plan(nodes@),
    ensures
        match *outcome {
            Ok(output) => says(reply, output_text(output)),
            Err(message) => complains(reply, "error: "@ + message@ + "\n"@),
        },
{
    match outcome {
        Ok(Output::Rows(result)) => say(print_result_streaming(result)),
        Ok(output) => match handler.format(output) {
            Formatted::Text(text) => say(text.concat("\n")),
            Formatted::Cells(_) => vstd::pervasive::unreached(),
        },
        Err(message) => failure(message.as_str()),
    }
}

/// Only an input that parses and does not begin with `EXPLAIN` is streamed.
pub open spec fn may_stream(parsed: Result<Explain, String>) -> bool {
    parsed == Ok::<Explain, String>(Explain::Absent)
}

/// Whether an input is worth streaming; `parsed` is what the parser made of it.
pub fn is_streaming_input(parsed: &Result<Explain, String>) -> (yes: bool)
    ensures
        yes == may_stream(*parsed),
{
    match parsed {
        Ok(Explain::Absent) => true,
        _ => false,
    }
}

/// What is written of an event of a streamed query.
pub open spec fn event_text(event: StreamEvent) -> Seq<char> {
    match event {
        StreamEvent::Columns(columns) => crate::text::joined(
            crate::text::texts(columns@),
            "\t"@,
        ) + "\n"@,
        StreamEvent::Chunk(chunk) => crate::stream_output::chunk_text(
            chunk,
            crate::stream_output::chunk_rows(chunk),
        ),
    }
}

/// The text of an event of a streamed query. Notes in `streamed_header` that the
/// column names went out.
pub fn stream_event_text(event: &StreamEvent, streamed_header: &mut bool) -> (out: String)
    ensures
        out@ == event_text(*event),
        *final(streamed_header) == (*old(streamed_header) || *event is Columns),
{
    match event {
        StreamEvent::Columns(columns) => {
            *streamed_header = true;
            join(columns, "\t").concat("\n")
        },
        StreamEvent::Chunk(chunk) => {
            let mut out = String::new();
            print_chunk(&mut out, chunk);
            assert(out@ =~= event_text(*event));
            out
        },
    }
}

/// The error says that the query's shape cannot stream.
pub open spec fn cannot_stream(e: QueryError) -> bool {
    e is NotStreamable || (e matches QueryError::Vm(vm) && vm is NotStreamable)
}

/// What became of streaming a query that ended with `result`: a shape that cannot
/// stream is no failure, as long as no column names went out.
pub open spec fn stream_outcome(
    result: Result<(), QueryError>,
    streamed_header: bool,
    out: Result<bool, QueryError>,
) -> bool {
    match result {
        Ok(_) => out == Ok::<bool, QueryError>(true),
        Err(e) => if cannot_stream(e) && !streamed_header {
            out == Ok::<bool, QueryError>(false)
        } else {
            out == Err::<bool, QueryError>(e)
        },
    }
}

/// What became of streaming a query: it is done (`true`), or nothing was written
/// and the query is to be run as a whole (`false`), or it failed on the way.
pub fn try_stream_query(result: Result<(), QueryError>, streamed_header: bool) -> (out: Result<
    bool,
    QueryError,
>)
    ensures
        stream_outcome(result, streamed_header, out),
{
    match result {
        Ok(()) => Ok(true),
        Err(e) => {
            let shape = match &e {
                QueryError::NotStreamable(_) => true,
                QueryError::Vm(VmError::NotStreamable { .. }) => true,
                _ => false,
            };
            if shape && !streamed_header {
                Ok(false)
            } else {
                Err(e)
            }
        },
    }
}

/// What is left to do once streaming was tried: nothing is, the failure is
/// reported, or (`None`) the query is to be run as a whole.
pub fn after_streaming(tried: Result<bool, QueryError>) -> (next: Option<Reply>)
    ensures
        match tried {
            Ok(true) => next matches Some(reply) && says(reply, Seq::empty()),
            Ok(false) => next is None,
            Err(e) => next matches Some(reply) && complains(
                reply,
                "error: "@ + crate::error::error_text(e@) + "\n"@,
            ),
        },
{
    match tried {
        Ok(true) => Some(say(String::new())),
        Ok(false) => None,
        Err(e) => Some(failure(e.message().as_str())),
    }
}

/// What is written of the first `n` events of a streamed query.
pub open spec fn events_text(events: Seq<StreamEvent>, n: nat) -> Seq<char>
    decreases n,
{
    if n == 0 {
        Seq::empty()
    } else {
        events_text(events, (n - 1) as nat) + event_text(events[n - 1])
    }
}

/// The events are the column names and then chunks, each with the rows of the
/// piece at its place.
pub open spec fn streams(
    events: Seq<StreamEvent>,
    columns: Vec<String>,
    pieces: Seq<Seq<Vec<Value<String>>>>,
) -> bool {
    &&& events.len() == pieces.len() + 1
    &&& events[0] == StreamEvent::Columns(columns)
    &&& forall|k: int|
        1 <= k < events.len() ==> ((#[trigger] events[k]) matches StreamEvent::Chunk(chunk)
            && crate::stream_output::holds_rows(chunk, pieces[k - 1]))
}

/// The chunks as events of a stream.
pub open spec fn chunk_events(chunks: Seq<Chunk>) -> Seq<StreamEvent> {
    chunks.map_values(|chunk: Chunk| StreamEvent::Chunk(chunk))
}

/// A stream begins with the column names, and chunks that follow add the rows that
/// they were cut from.
pub proof fn law_stream_grows_by_rows(
    events: Seq<StreamEvent>,
    columns: Vec<String>,
    pieces: Seq<Seq<Vec<Value<String>>>>,
    chunks: Seq<Chunk>,
    more: Seq<Seq<Vec<Value<String>>>>,
    rows: Seq<Vec<Value<String>>>,
)
    requires
        streams(events, columns, pieces),
        crate::stream_output::cut_into(chunks, more, rows),
    ensures
        streams(seq![StreamEvent::Columns(columns)], columns, Seq::empty()),
        streams(events + chunk_events(chunks), columns, pieces + more),
        crate::stream_output::stacked_rows(pieces + more, (pieces + more).len())
            == crate::stream_output::stacked_rows(pieces, pieces.len()) + rows,
{
    crate::stream_output::lemma_stacked_behind(pieces, more, more.len());
    let all = events + chunk_events(chunks);
    assert forall|k: int| 1 <= k < all.len() implies ((#[trigger] all[k]) matches StreamEvent::Chunk(
        held,
    ) && crate::stream_output::holds_rows(held, (pieces + more)[k - 1])) by {
        if k < events.len() {
            assert(all[k] == events[k]);
        } else {
            let j = k - events.len();
            assert(all[k] == StreamEvent::Chunk(chunks[j]));
            assert(crate::stream_output::holds_rows(chunks[j], more[j]));
        }
    }
}

proof fn lemma_events_text(
    events: Seq<StreamEvent>,
    columns: Vec<String>,
    pieces: Seq<Seq<Vec<Value<String>>>>,
    n: nat,
)
    requires
        streams(events, columns, pieces),
        n <= pieces.len(),
    ensures
        events_text(events, n + 1) == event_text(StreamEvent::Columns(columns))
            + crate::stream_output::rows_text(crate::stream_output::stacked_rows(pieces, n), crate::stream_output::stacked_rows(pieces, n).len()),
    decreases n,
{
    let header = event_text(StreamEvent::Columns(columns));
    if n == 0 {
        assert(events_text(events, 0) =~= Seq::empty());
        assert(events_text(events, 1) =~= header);
        assert(header + Seq::<char>::empty() =~= header);
    } else {
        lemma_events_text(events, columns, pieces, (n - 1) as nat);
        let front = crate::stream_output::stacked_rows(pieces, (n - 1) as nat);
        let back = pieces[n - 1];
        match events[n as int] {
            StreamEvent::Chunk(chunk) => {
                crate::stream_output::law_chunk_prints_as_its_rows(chunk, back);
            },
            StreamEvent::Columns(_) => {},
        }
        crate::stream_output::law_rows_print_one_behind_the_other(front, back);
        assert(events_text(events, n + 1) =~= header + (crate::stream_output::rows_text(
            front,
            front.len(),
        ) + crate::stream_output::rows_text(back, back.len())));
    }
}

/// A query writes the same whether its rows are streamed or collected first.
pub proof fn law_streaming_writes_the_whole_result(
    result: QueryResult,
    events: Seq<StreamEvent>,
    pieces: Seq<Seq<Vec<Value<String>>>>,
)
    requires
        streams(events, result.columns, pieces),
        result.rows@ == crate::stream_output::stacked_rows(pieces, pieces.len()),
    ensures
        events_text(events, events.len()) == output_text(Output::Rows(result)),
{
    lemma_events_text(events, result.columns, pieces, pieces.len());
}

/// A one-shot query and a session always have a file to load, and the output
/// path of a compilation is one of the arguments.
pub proof fn law_commands_have_their_files(args: Seq<String>, command: Command)
    requires
        asks(args, command),
    ensures
        command matches Command::Query { paths, .. } ==> paths@.len() > 0,
        command matches Command::Repl { paths } ==> paths@.len() > 0,
        command matches Command::Codegen { out_path, .. } ==> args.contains(out_path),
{
    if command is Codegen {
        assert(args[3] == command->Codegen_out_path);
    }
}

/// The column names are among the first `n` events.
pub open spec fn header_streamed(events: Seq<StreamEvent>, n: nat) -> bool {
    exists|k: int| 0 <= k < n && (#[trigger] events[k]) is Columns
}

/// Whether the column names went out is known event by event: they had gone out
/// before, or the event at hand is them.
pub proof fn law_header_is_noted(events: Seq<StreamEvent>, n: nat)
    requires
        n < events.len(),
    ensures
        !header_streamed(events, 0),
        header_streamed(events, n + 1) == (header_streamed(events, n) || events[n as int] is Columns),
{
    if header_streamed(events, n + 1) && !(events[n as int] is Columns) {
        let k = choose|k: int| 0 <= k < n + 1 && (#[trigger] events[k]) is Columns;
        assert(k < n);
    }
    if header_streamed(events, n) {
        let k = choose|k: int| 0 <= k < n && (#[trigger] events[k]) is Columns;
        assert(events[k] is Columns);
    }
}

/// A query that is to be run as a whole after all has written nothing, whatever
/// stopped its stream: the column names come first in a stream, and once they
/// went out there is no falling back.
pub proof fn law_fallback_has_written_nothing(
    events: Seq<StreamEvent>,
    n: nat,
    result: Result<(), QueryError>,
    out: Result<bool, QueryError>,
)
    requires
        n <= events.len(),
        events.len() > 0 ==> events[0] is Columns,
        stream_outcome(result, header_streamed(events, n), out),
        out == Ok::<bool, QueryError>(false),
    ensures
        events_text(events, n) == Seq::<char>::empty(),
{
    if n > 0 {
        assert(events[0] is Columns);
        assert(header_streamed(events, n));
    }
}

/// What the arguments ask for, by the first of them: a version or the help in either
/// spelling; a query with every file behind its text; a compilation; or else a session
/// over all of them. What lacks a part is answered with what was expected.
pub proof fn law_arguments_ask_for_a_command(args: Seq<String>, command: Command, i: int)
    requires
        asks(args, command),
    ensures
        args.len() == 0 ==> (command matches Command::Misuse { expected } && expected@
            == "[--version] [--help] [-c \"<SQL>\"] <file.parquet> [more.parquet ...]"@),
        args.len() > 0 && (args[0]@ == "--version"@ || args[0]@ == "-V"@) ==> command is Version,
        args.len() > 0 && (args[0]@ == "--help"@ || args[0]@ == "-h"@) ==> command is Help,
        args.len() > 2 && args[0]@ == "-c"@ ==> (command matches Command::Query { sql, paths }
            && sql == args[1] && paths@.len() == args.len() - 2 && (0 <= i < paths@.len()
            ==> paths@[i] == args[i + 2])),
        0 < args.len() <= 2 && args[0]@ == "-c"@ ==> (command matches Command::Misuse { expected }
            && expected@ == "-c \"<SQL>\" <file.parquet> [more.parquet ...]"@),
        args.len() > 3 && args[0]@ == "codegen"@ && args[2]@ == "--out"@ ==> (
        command matches Command::Codegen { sql, out_path } && sql == args[1] && out_path
            == args[3]),
        args.len() > 0 && args[0]@ == "codegen"@ && (args.len() <= 3 || args[2]@ != "--out"@) ==> (
        command matches Command::Misuse { expected } && expected@
            == "codegen \"<SQL>\" --out <file.rs>"@),
        args.len() > 0 && args[0]@ != "--version"@ && args[0]@ != "-V"@ && args[0]@ != "--help"@
            && args[0]@ != "-h"@ && args[0]@ != "-c"@ && args[0]@ != "codegen"@ ==> (
        command matches Command::Repl { paths } && paths@ == args),
{
    reveal_strlit("--version");
    reveal_strlit("-V");
    reveal_strlit("--help");
    reveal_strlit("-h");
    reveal_strlit("-c");
    reveal_strlit("codegen");
    assert("--version"@.len() == 9 && "--help"@.len() == 6 && "codegen"@.len() == 7);
    assert("-V"@[1] == 'V' && "-h"@[1] == 'h' && "-c"@[1] == 'c');
}

/// A success writes its text and nothing to the error stream; a failure writes its
/// text to the error stream and nothing else.
pub proof fn law_a_reply_goes_to_one_stream(reply: Reply, text: Seq<char>)
    ensures
        says(reply, text) <==> reply.success && reply.out@ == text && reply.err@.len() == 0,
        complains(reply, text) <==> !reply.success && reply.err@ == text && reply.out@.len() == 0,
        usage_text() == "[--version] [--help] [-c \"<SQL>\"] <file.parquet> [more.parquet ...]"@,
{
}

/// A one-shot query writes a result as its header and rows, and a plan or a listing
/// as it is drawn with a line end behind it.
pub proof fn law_a_query_writes_its_output(output: Output)
    ensures
        match output {
            Output::Rows(result) => output_text(output) == crate::text::joined(
                crate::text::texts(result.columns@),
                "\t"@,
            ) + "\n"@ + crate::stream_output::rows_text(result.rows@, result.rows@.len()),
            Output::Plan(nodes) => output_text(output) == crate::plan::plan_text(nodes@) + "\n"@,
            Output::Opcodes(sections) => output_text(output) == crate::listing::listing_text(
                sections@,
                sections@.len(),
            ) + "\n"@,
        },
{
}

/// Only an input that parsed and has no `EXPLAIN` may stream.
pub proof fn law_only_a_bare_query_may_stream(explain: Explain, message: String)
    ensures
        may_stream(Ok(explain)) <==> explain is Absent,
        !may_stream(Err(message)),
{
}

/// A stream is written event by event: the column names with a tab between two of
/// them and a line end, and every row of every chunk.
pub proof fn law_a_stream_is_written_event_by_event(
    events: Seq<StreamEvent>,
    n: nat,
)
    requires
        n < events.len(),
    ensures
        events_text(events, 0) == Seq::<char>::empty(),
        events_text(events, n + 1) == events_text(events, n) + (match events[n as int] {
            StreamEvent::Columns(columns) => crate::text::joined(
                crate::text::texts(columns@),
                "\t"@,
            ) + "\n"@,
            StreamEvent::Chunk(chunk) => crate::stream_output::chunk_text(
                chunk,
                if chunk@.len() == 0 {
                    0
                } else {
                    chunk@[0]@.len()
                },
            ),
        }),
{
}

/// Streaming that succeeds is done. A refusal of the query's shape, by the engine's
/// own check or by the machine's, leads to a run as a whole as long as the header
/// did not go out. Every other error is handed on, and so is any after the header.
pub proof fn law_only_a_refused_shape_falls_back(
    result: Result<(), QueryError>,
    streamed_header: bool,
    out: Result<bool, QueryError>,
)
    requires
        stream_outcome(result, streamed_header, out),
    ensures
        result is Ok ==> out == Ok::<bool, QueryError>(true),
        result matches Err(e) ==> {
            &&& streamed_header ==> out == Err::<bool, QueryError>(e)
            &&& !streamed_header ==> match e {
                QueryError::NotStreamable(_) => out == Ok::<bool, QueryError>(false),
                QueryError::Vm(VmError::NotStreamable { .. }) => out == Ok::<bool, QueryError>(
                    false,
                ),
                _ => out == Err::<bool, QueryError>(e),
            }
        },
{
}

} // verus!
