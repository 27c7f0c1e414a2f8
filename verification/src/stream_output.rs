//! Tab-separated output: one line for each row, without a pass over the whole
//! result to measure it.

use crate::text::join;
use crate::value::{write_value, Value};
use vstd::prelude::*;
use vstd::string::*;

verus! {

/// A piece of a result, column by column.
pub type Chunk = Vec<Vec<Value<String>>>;

/// A query's result, row by row, with its column names.
#[derive(Debug)]
pub struct QueryResult {
    pub columns: Vec<String>,
    pub rows: Vec<Vec<Value<String>>>,
}

/// The texts of a row's cells.
pub open spec fn row_texts(row: Seq<Value<String>>) -> Seq<Seq<char>> {
    row.map_values(|v: Value<String>| crate::value::value_text(v))
}

/// The line of a row: its cells with a tab between two of them.
pub open spec fn row_line(row: Seq<Value<String>>) -> Seq<char> {
    crate::text::joined(row_texts(row), "\t"@) + "\n"@
}

/// The lines of the first `n` rows.
pub open spec fn rows_text(rows: Seq<Vec<Value<String>>>, n: nat) -> Seq<char>
    decreases n,
{
    if n == 0 {
        Seq::empty()
    } else {
        rows_text(rows, (n - 1) as nat) + row_line(rows[n - 1]@)
    }
}

/// A whole result: the line of its column names, then the lines of its rows.
pub open spec fn result_text(result: QueryResult) -> Seq<char> {
    crate::text::joined(crate::text::texts(result.columns@), "\t"@) + "\n"@ + rows_text(
        result.rows@,
        result.rows@.len(),
    )
}

/// The number of rows of a chunk: the length of its first column.
pub open spec fn chunk_rows(chunk: Chunk) -> nat {
    if chunk@.len() == 0 {
        0
    } else {
        chunk@[0]@.len()
    }
}

/// The text of row `r` in column `c`; a column that is too short has an empty cell there.
pub open spec fn cell_text(chunk: Chunk, c: int, r: int) -> Seq<char> {
    if r < chunk@[c]@.len() {
        crate::value::value_text(chunk@[c]@[r])
    } else {
        Seq::empty()
    }
}

/// The line of row `r` of a chunk.
pub open spec fn chunk_line(chunk: Chunk, r: int) -> Seq<char> {
    crate::text::joined(Seq::new(chunk@.len(), |c: int| cell_text(chunk, c, r)), "\t"@) + "\n"@
}

/// The lines of the first `n` rows of a chunk.
pub open spec fn chunk_text(chunk: Chunk, n: nat) -> Seq<char>
    decreases n,
{
    if n == 0 {
        Seq::empty()
    } else {
        chunk_text(chunk, (n - 1) as nat) + chunk_line(chunk, n - 1)
    }
}

fn push_chunk_line(out: &mut String, chunk: &Chunk, r: usize)
    ensures
        final(out)@ == old(out)@ + chunk_line(*chunk, r as int),
{
    let ghost cells = Seq::new(chunk@.len(), |c: int| cell_text(*chunk, c, r as int));
    let ghost start = out@;
    let mut c: usize = 0;
    assert(cells.take(0) =~= Seq::empty());
    assert(out@ =~= start + crate::text::joined(cells.take(0), "\t"@));
    while c < chunk.len()
        invariant
            c <= chunk.len(),
            cells == Seq::new(chunk@.len(), |c: int| cell_text(*chunk, c, r as int)),
            out@ == start + crate::text::joined(cells.take(c as int), "\t"@),
        decreases chunk.len() - c,
    {
        assert(cells.take(c + 1).drop_last() =~= cells.take(c as int));
        assert(cells.take(c + 1).last() == cells[c as int]);
        if c > 0 {
            out.append("\t");
        }
        if r < chunk[c].len() {
            write_value(out, &chunk[c][r]);
        }
        c = c + 1;
        assert(out@ =~= start + crate::text::joined(cells.take(c as int), "\t"@));
    }
    assert(cells.take(chunk.len() as int) =~= cells);
    out.append("\n");
    assert(out@ =~= start + chunk_line(*chunk, r as int));
}

/// Writes a chunk to `out`, one tab-separated line for each row.
pub fn print_chunk(out: &mut String, chunk: &Chunk)
    ensures
        final(out)@ == old(out)@ + chunk_text(*chunk, chunk_rows(*chunk)),
{
    let rows: usize = if chunk.len() == 0 {
        0
    } else {
        chunk[0].len()
    };
    let mut r: usize = 0;
    assert(out@ =~= old(out)@ + chunk_text(*chunk, 0));
    while r < rows
        invariant
            r <= rows,
            out@ == old(out)@ + chunk_text(*chunk, r as nat),
        decreases rows - r,
    {
        push_chunk_line(out, chunk, r);
        r = r + 1;
        assert(out@ =~= old(out)@ + chunk_text(*chunk, r as nat));
    }
}

fn push_row_line(out: &mut String, row: &Vec<Value<String>>)
    ensures
        final(out)@ == old(out)@ + row_line(row@),
{
    let ghost cells = row_texts(row@);
    let ghost start = out@;
    let mut c: usize = 0;
    assert(cells.take(0) =~= Seq::empty());
    assert(out@ =~= start + crate::text::joined(cells.take(0), "\t"@));
    while c < row.len()
        invariant
            c <= row.len(),
            cells == row_texts(row@),
            out@ == start + crate::text::joined(cells.take(c as int), "\t"@),
        decreases row.len() - c,
    {
        assert(cells.take(c + 1).drop_last() =~= cells.take(c as int));
        assert(cells.take(c + 1).last() == cells[c as int]);
        if c > 0 {
            out.append("\t");
        }
        write_value(out, &row[c]);
        c = c + 1;
        assert(out@ =~= start + crate::text::joined(cells.take(c as int), "\t"@));
    }
    assert(cells.take(row.len() as int) =~= cells);
    out.append("\n");
    assert(out@ =~= start + row_line(row@));
}

/// The output of a whole result: the column names, then one line for each row.
pub fn print_result_streaming(result: &QueryResult) -> (out: String)
    ensures
        out@ == result_text(*result),
{
    let mut out = join(&result.columns, "\t");
    out.append("\n");
    let ghost header = out@;
    let mut r: usize = 0;
    assert(out@ =~= header + rows_text(result.rows@, 0));
    while r < result.rows.len()
        invariant
            r <= result.rows.len(),
            out@ == header + rows_text(result.rows@, r as nat),
        decreases result.rows.len() - r,
    {
        push_row_line(&mut out, &result.rows[r]);
        r = r + 1;
        assert(out@ =~= header + rows_text(result.rows@, r as nat));
    }
    out
}

/// `rows` are the rows of a chunk whose columns are all of the same length.
pub open spec fn holds_rows(chunk: Chunk, rows: Seq<Vec<Value<String>>>) -> bool {
    &&& rows.len() == chunk_rows(chunk)
    &&& forall|c: int| 0 <= c < chunk@.len() ==> (#[trigger] chunk@[c])@.len() == rows.len()
    &&& forall|r: int| 0 <= r < rows.len() ==> (#[trigger] rows[r])@.len() == chunk@.len()
    &&& forall|r: int, c: int|
        0 <= r < rows.len() && 0 <= c < chunk@.len() ==> #[trigger] rows[r]@[c] == chunk@[c]@[r]
}

/// Turns rows of `width` cells into a chunk, column by column. Rows without a
/// cell have no chunk.
pub fn chunk_of(width: usize, rows: Vec<Vec<Value<String>>>) -> (out: Chunk)
    requires
        rows@.len() > 0 ==> width > 0,
        forall|r: int| 0 <= r < rows@.len() ==> (#[trigger] rows@[r])@.len() == width,
    ensures
        out@.len() == width,
        holds_rows(out, rows@),
{
    let ghost all = rows@;
    let mut out: Chunk = Vec::new();
    while out.len() < width
        invariant
            out.len() <= width,
            forall|c: int| 0 <= c < out@.len() ==> (#[trigger] out@[c])@.len() == 0,
        decreases width - out.len(),
    {
        out.push(Vec::new());
    }
    for row in it: rows
        invariant
            it.seq() == all,
            out@.len() == width,
            forall|r: int| 0 <= r < all.len() ==> (#[trigger] all[r])@.len() == width,
            forall|c: int| 0 <= c < width ==> (#[trigger] out@[c])@.len() == it.index(),
            forall|r: int, c: int|
                0 <= r < it.index() && 0 <= c < width ==> #[trigger] all[r]@[c] == out@[c]@[r],
    {
        let ghost done = it.index();
        let ghost cells = row@;
        let mut c: usize = 0;
        for cell in at: row
            invariant
                at.seq() == cells,
                c == at.index(),
                cells.len() == width,
                out@.len() == width,
                0 <= done < all.len(),
                all[done]@ == cells,
                forall|c: int|
                    0 <= c < width ==> (#[trigger] out@[c])@.len() == if c < at.index() {
                        done + 1
                    } else {
                        done
                    },
                forall|c: int| 0 <= c < at.index() ==> (#[trigger] out@[c])@[done] == cells[c],
                forall|r: int, c: int|
                    0 <= r < done && 0 <= c < width ==> #[trigger] all[r]@[c] == out@[c]@[r],
        {
            out[c].push(cell);
            c = c + 1;
        }
    }
    out
}

/// The rows of the first `n` pieces, one piece behind the other.
pub open spec fn stacked_rows(pieces: Seq<Seq<Vec<Value<String>>>>, n: nat) -> Seq<
    Vec<Value<String>>,
>
    decreases n,
{
    if n == 0 {
        Seq::empty()
    } else {
        stacked_rows(pieces, (n - 1) as nat) + pieces[n - 1]
    }
}

/// Pieces behind the first `n` do not matter to their rows.
proof fn lemma_stacked_rows(
    pieces: Seq<Seq<Vec<Value<String>>>>,
    more: Seq<Seq<Vec<Value<String>>>>,
    n: nat,
)
    requires
        n <= pieces.len() <= more.len(),
        forall|k: int| 0 <= k < pieces.len() ==> #[trigger] pieces[k] == more[k],
    ensures
        stacked_rows(pieces, n) == stacked_rows(more, n),
    decreases n,
{
    if n > 0 {
        lemma_stacked_rows(pieces, more, (n - 1) as nat);
        assert(pieces[n - 1] == more[n - 1]);
    }
}

/// The rows of two lists of pieces are those of the first and then those of the
/// second.
pub proof fn lemma_stacked_behind(
    front: Seq<Seq<Vec<Value<String>>>>,
    back: Seq<Seq<Vec<Value<String>>>>,
    n: nat,
)
    requires
        n <= back.len(),
    ensures
        stacked_rows(front + back, front.len() + n) == stacked_rows(front, front.len())
            + stacked_rows(back, n),
    decreases n,
{
    if n == 0 {
        lemma_stacked_rows(front, front + back, front.len());
        assert(stacked_rows(front, front.len()) + stacked_rows(back, 0) =~= stacked_rows(
            front,
            front.len(),
        ));
    } else {
        lemma_stacked_behind(front, back, (n - 1) as nat);
        assert((front + back)[front.len() + n - 1] == back[n - 1]);
        assert(stacked_rows(front, front.len()) + stacked_rows(back, n) =~= stacked_rows(
            front,
            front.len(),
        ) + stacked_rows(back, (n - 1) as nat) + back[n - 1]);
    }
}

/// The rows that have a cell.
pub open spec fn with_cells(rows: Seq<Vec<Value<String>>>) -> Seq<Vec<Value<String>>> {
    rows.filter(|row: Vec<Value<String>>| row@.len() > 0)
}

/// Each chunk holds the rows of the piece at its place, and the pieces are `rows`,
/// cut into runs.
pub open spec fn cut_into(
    chunks: Seq<Chunk>,
    pieces: Seq<Seq<Vec<Value<String>>>>,
    rows: Seq<Vec<Value<String>>>,
) -> bool {
    &&& chunks.len() == pieces.len()
    &&& forall|k: int| 0 <= k < chunks.len() ==> holds_rows(#[trigger] chunks[k], pieces[k])
    &&& stacked_rows(pieces, pieces.len()) == rows
}

proof fn lemma_with_cells_grow(rows: Seq<Vec<Value<String>>>, n: int)
    requires
        0 <= n < rows.len(),
    ensures
        with_cells(rows.take(n + 1)) == if rows[n]@.len() > 0 {
            with_cells(rows.take(n)).push(rows[n])
        } else {
            with_cells(rows.take(n))
        },
{
    reveal(Seq::filter);
    assert(rows.take(n + 1).drop_last() =~= rows.take(n));
}

proof fn lemma_all_with_cells(rows: Seq<Vec<Value<String>>>, n: int)
    requires
        0 <= n <= rows.len(),
        forall|r: int| 0 <= r < n ==> (#[trigger] rows[r])@.len() > 0,
    ensures
        with_cells(rows.take(n)) == rows.take(n),
    decreases n,
{
    if n == 0 {
        reveal(Seq::filter);
        assert(rows.take(0) =~= Seq::empty());
    } else {
        lemma_all_with_cells(rows, n - 1);
        lemma_with_cells_grow(rows, n - 1);
        assert(rows.take(n) =~= rows.take(n - 1).push(rows[n - 1]));
    }
}

fn has_width(width: usize, rows: &Vec<Vec<Value<String>>>) -> (yes: bool)
    ensures
        yes == forall|r: int| 0 <= r < rows@.len() ==> (#[trigger] rows@[r])@.len() == width,
{
    let mut r: usize = 0;
    while r < rows.len()
        invariant
            r <= rows.len(),
            forall|k: int| 0 <= k < r ==> (#[trigger] rows@[k])@.len() == width,
        decreases rows.len() - r,
    {
        if rows[r].len() != width {
            return false;
        }
        r = r + 1;
    }
    true
}

/// Turns rows into chunks: into one if they are all of the same length, else into
/// one for each row. Rows without a cell are left out.
pub fn chunks_of(rows: Vec<Vec<Value<String>>>) -> (out: Vec<Chunk>)
    ensures
        exists|pieces: Seq<Seq<Vec<Value<String>>>>|
            #[trigger] cut_into(out@, pieces, with_cells(rows@)),
        rows@.len() > 0 && rows@[0]@.len() > 0 && (forall|r: int|
            0 <= r < rows@.len() ==> (#[trigger] rows@[r])@.len() == rows@[0]@.len())
            ==> out@.len() == 1 && holds_rows(out@[0], rows@),
{
    let ghost all = rows@;
    let mut out: Vec<Chunk> = Vec::new();
    let width: usize = if rows.len() > 0 {
        rows[0].len()
    } else {
        0
    };
    if width > 0 && has_width(width, &rows) {
        out.push(chunk_of(width, rows));
        proof {
            let pieces = seq![all];
            assert(stacked_rows(pieces, 0) =~= Seq::empty());
            assert(stacked_rows(pieces, 1) =~= all);
            assert(all.take(all.len() as int) =~= all);
            lemma_all_with_cells(all, all.len() as int);
            assert(cut_into(out@, pieces, with_cells(all)));
        }
        return out;
    }
    let ghost mut pieces: Seq<Seq<Vec<Value<String>>>> = Seq::empty();
    proof {
        reveal(Seq::filter);
        assert(with_cells(all.take(0)) =~= Seq::empty());
    }
    for row in it: rows
        invariant
            it.seq() == all,
            cut_into(out@, pieces, with_cells(all.take(it.index()))),
    {
        proof {
            lemma_with_cells_grow(all, it.index());
        }
        if row.len() > 0 {
            let ghost before = pieces;
            let ghost chunks = out@;
            let ghost piece = seq![row];
            let cells: usize = row.len();
            let mut alone: Vec<Vec<Value<String>>> = Vec::new();
            alone.push(row);
            assert(alone@ =~= piece);
            out.push(chunk_of(cells, alone));
            proof {
                pieces = before.push(piece);
                lemma_stacked_rows(before, pieces, before.len());
                assert(stacked_rows(before, before.len()) + piece =~= stacked_rows(
                    before,
                    before.len(),
                ).push(row));
                assert forall|k: int| 0 <= k < out@.len() implies holds_rows(
                    #[trigger] out@[k],
                    pieces[k],
                ) by {
                    if k < chunks.len() {
                        assert(out@[k] == chunks[k]);
                    }
                }
            }
        }
    }
    assert(all.take(all.len() as int) =~= all);
    out
}

proof fn lemma_chunk_lines(chunk: Chunk, rows: Seq<Vec<Value<String>>>, n: nat)
    requires
        n <= rows.len(),
        holds_rows(chunk, rows),
    ensures
        chunk_text(chunk, n) == rows_text(rows, n),
    decreases n,
{
    if n > 0 {
        lemma_chunk_lines(chunk, rows, (n - 1) as nat);
        assert(Seq::new(chunk@.len(), |c: int| cell_text(chunk, c, n - 1)) =~= row_texts(
            rows[n - 1]@,
        ));
    }
}

/// Column by column or row by row, the same cells print as the same text.
pub proof fn law_chunk_prints_as_its_rows(chunk: Chunk, rows: Seq<Vec<Value<String>>>)
    requires
        holds_rows(chunk, rows),
    ensures
        chunk_text(chunk, chunk_rows(chunk)) == rows_text(rows, rows.len()),
{
    lemma_chunk_lines(chunk, rows, rows.len());
}

proof fn lemma_rows_behind(
    front: Seq<Vec<Value<String>>>,
    back: Seq<Vec<Value<String>>>,
    n: nat,
)
    requires
        n <= back.len(),
    ensures
        rows_text(front + back, front.len() + n) == rows_text(front, front.len()) + rows_text(
            back,
            n,
        ),
    decreases n,
{
    if n == 0 {
        lemma_rows_in_front(front, back, front.len());
        assert(rows_text(front, front.len()) + rows_text(back, 0) =~= rows_text(
            front,
            front.len(),
        ));
    } else {
        lemma_rows_behind(front, back, (n - 1) as nat);
        assert((front + back)[front.len() + n - 1] == back[n - 1]);
        assert(rows_text(front, front.len()) + rows_text(back, n) =~= rows_text(
            front,
            front.len(),
        ) + rows_text(back, (n - 1) as nat) + row_line(back[n - 1]@));
    }
}

proof fn lemma_rows_in_front(
    front: Seq<Vec<Value<String>>>,
    back: Seq<Vec<Value<String>>>,
    n: nat,
)
    requires
        n <= front.len(),
    ensures
        rows_text(front + back, n) == rows_text(front, n),
    decreases n,
{
    if n > 0 {
        lemma_rows_in_front(front, back, (n - 1) as nat);
    }
}

/// The lines of two lists of rows, one behind the other, are the lines of the
/// first and then those of the second.
pub proof fn law_rows_print_one_behind_the_other(
    front: Seq<Vec<Value<String>>>,
    back: Seq<Vec<Value<String>>>,
)
    ensures
        rows_text(front + back, (front + back).len()) == rows_text(front, front.len())
            + rows_text(back, back.len()),
{
    lemma_rows_behind(front, back, back.len());
}

/// A row prints the text of each of its cells, in order, with a tab between two of
/// them and a line end behind the last; and the texts of a row are those of its cells.
pub proof fn law_a_row_prints_every_cell(row: Vec<Value<String>>, c: int)
    ensures
        row_texts(row@).len() == row@.len(),
        0 <= c < row@.len() ==> row_texts(row@)[c] == crate::value::value_text(row@[c]),
        row_line(row@) == crate::text::joined(row_texts(row@), "\t"@) + "\n"@,
        rows_text(Seq::empty(), 0) == Seq::<char>::empty(),
        rows_text(seq![row], 1) == row_line(row@),
{
    assert(rows_text(seq![row], 0) =~= Seq::empty());
    assert(rows_text(seq![row], 1) =~= row_line(row@));
}

/// A result prints its column names on one line, and below it every row.
pub proof fn law_a_result_prints_header_and_rows(result: QueryResult)
    ensures
        result_text(result) == crate::text::joined(crate::text::texts(result.columns@), "\t"@)
            + "\n"@ + rows_text(result.rows@, result.rows@.len()),
{
}

/// A chunk prints one line for each row of its first column: the text of that row's
/// cell in each column, or nothing where a column is too short, with a tab between
/// two of them.
pub proof fn law_a_chunk_prints_line_by_line(chunk: Chunk, n: nat, cells: Seq<Seq<char>>)
    requires
        cells.len() == chunk@.len(),
        forall|c: int|
            0 <= c < chunk@.len() ==> (#[trigger] cells[c]) == if n < chunk@[c]@.len() {
                crate::value::value_text(chunk@[c]@[n as int])
            } else {
                Seq::empty()
            },
    ensures
        chunk_text(chunk, 0) == Seq::<char>::empty(),
        chunk_text(chunk, n + 1) == chunk_text(chunk, n) + crate::text::joined(cells, "\t"@)
            + "\n"@,
        chunk@.len() == 0 ==> chunk_rows(chunk) == 0,
        chunk@.len() > 0 ==> chunk_rows(chunk) == chunk@[0]@.len(),
{
    assert(Seq::new(chunk@.len(), |c: int| cell_text(chunk, c, n as int)) =~= cells);
    assert(chunk_text(chunk, n + 1) =~= chunk_text(chunk, n) + crate::text::joined(cells, "\t"@)
        + "\n"@);
}

/// A chunk holds rows cell by cell: as many of them as it has, each with a cell for
/// each column, and each cell in its column at its row's place.
pub proof fn law_a_chunk_holds_every_cell(
    chunk: Chunk,
    rows: Seq<Vec<Value<String>>>,
    r: int,
    c: int,
)
    requires
        holds_rows(chunk, rows),
    ensures
        rows.len() > 0 ==> chunk@.len() > 0,
        0 <= c < chunk@.len() ==> chunk@[c]@.len() == rows.len(),
        0 <= r < rows.len() ==> rows[r]@.len() == chunk@.len(),
        0 <= r < rows.len() && 0 <= c < chunk@.len() ==> chunk@[c]@[r] == rows[r]@[c],
{
    if 0 <= r < rows.len() && 0 <= c < chunk@.len() {
        assert(rows[r]@[c] == chunk@[c]@[r]);
    }
}

/// Rows that have a cell are kept, each at its place among them, and only rows
/// without one are left out.
pub proof fn law_only_rows_without_cells_are_left_out(
    front: Seq<Vec<Value<String>>>,
    back: Seq<Vec<Value<String>>>,
    row: Vec<Value<String>>,
)
    ensures
        with_cells(Seq::empty()) == Seq::<Vec<Value<String>>>::empty(),
        with_cells(front + back) == with_cells(front) + with_cells(back),
        row@.len() > 0 ==> with_cells(front.push(row)) == with_cells(front).push(row),
        row@.len() == 0 ==> with_cells(front.push(row)) == with_cells(front),
    decreases back.len(),
{
    reveal(Seq::filter);
    assert(with_cells(Seq::empty()) =~= Seq::empty());
    assert(front.push(row).drop_last() =~= front);
    if back.len() == 0 {
        assert(front + back =~= front);
        assert(with_cells(front) + with_cells(back) =~= with_cells(front));
    } else {
        let rest = back.drop_last();
        law_only_rows_without_cells_are_left_out(front, rest, row);
        assert((front + back).drop_last() =~= front + rest);
        assert((front + back).last() == back.last());
        assert(with_cells(front + back) =~= with_cells(front) + with_cells(back));
    }
}

/// Pieces stack one behind the other, and a cut into chunks loses no row: each chunk
/// holds its piece, and the pieces make up the rows.
pub proof fn law_chunks_make_up_their_rows(
    chunks: Seq<Chunk>,
    pieces: Seq<Seq<Vec<Value<String>>>>,
    rows: Seq<Vec<Value<String>>>,
    n: nat,
)
    requires
        cut_into(chunks, pieces, rows),
    ensures
        chunks.len() == pieces.len(),
        stacked_rows(pieces, 0) == Seq::<Vec<Value<String>>>::empty(),
        n < pieces.len() ==> stacked_rows(pieces, n + 1) == stacked_rows(pieces, n)
            + pieces[n as int],
        stacked_rows(pieces, pieces.len()) == rows,
        n < pieces.len() ==> holds_rows(chunks[n as int], pieces[n as int]),
{
}

} // verus!
