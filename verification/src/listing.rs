//! The opcode listing of a bare `EXPLAIN`: one box-drawn table of
//! `addr | opcode | operands | comment` for each phase of the program.

use crate::text::{byte_len, count_text, push_repeated};
use vstd::prelude::*;
use vstd::string::*;

verus! {

/// One instruction of a listing.
#[derive(Debug)]
pub struct OpcodeRow {
    pub addr: usize,
    pub opcode: &'static str,
    pub operands: String,
    pub comment: String,
    /// The barrier between the parallel per-segment phase and the sequential
    /// merge phase.
    pub is_finalize: bool,
}

/// One phase of a program, such as a join's build side, with its instructions.
#[derive(Debug)]
pub struct OpcodeSection {
    pub label: String,
    pub rows: Vec<OpcodeRow>,
}

/// The headings of a table's columns.
pub open spec fn headings() -> Seq<Seq<char>> {
    seq!["addr"@, "opcode"@, "operands"@, "comment"@]
}

/// The cells of one instruction's row.
pub open spec fn row_cells(row: OpcodeRow) -> Seq<Seq<char>> {
    seq![crate::text::digits(row.addr as nat), row.opcode@, row.operands@, row.comment@]
}

/// The larger of two widths.
pub open spec fn wider(a: nat, b: nat) -> nat {
    if a < b {
        b
    } else {
        a
    }
}

/// The width of column `c`: the bytes of its longest cell, the heading among them.
pub open spec fn column_width(rows: Seq<OpcodeRow>, c: int) -> nat
    decreases rows.len(),
{
    if rows.len() == 0 {
        crate::text::byte_count(headings()[c])
    } else {
        wider(
            column_width(rows.drop_last(), c),
            crate::text::byte_count(row_cells(rows.last())[c]),
        )
    }
}

/// The widths of the four columns of a table over `rows`.
pub open spec fn column_widths(rows: Seq<OpcodeRow>) -> Seq<nat> {
    Seq::new(4, |c: int| column_width(rows, c))
}

/// `cell`, filled up with blanks to `width` characters.
pub open spec fn padded(cell: Seq<char>, width: nat) -> Seq<char> {
    if cell.len() < width {
        cell + crate::text::repeated(" "@, (width - cell.len()) as nat)
    } else {
        cell
    }
}

/// The first `n` cells of a line, each padded to its column's width and closed by a bar.
pub open spec fn cells_text(cells: Seq<Seq<char>>, widths: Seq<nat>, n: nat) -> Seq<char>
    decreases n,
{
    if n == 0 {
        Seq::empty()
    } else {
        cells_text(cells, widths, (n - 1) as nat) + " "@ + padded(cells[n - 1], widths[n - 1])
            + " │"@
    }
}

/// A line of cells between bars.
pub open spec fn row_line(cells: Seq<Seq<char>>, widths: Seq<nat>) -> Seq<char> {
    "│"@ + cells_text(cells, widths, widths.len()) + "\n"@
}

/// The first `n` rules of a border, with `mid` between two of them.
pub open spec fn rules_text(mid: Seq<char>, widths: Seq<nat>, n: nat) -> Seq<char>
    decreases n,
{
    if n == 0 {
        Seq::empty()
    } else {
        rules_text(mid, widths, (n - 1) as nat) + (if n > 1 {
            mid
        } else {
            Seq::empty()
        }) + crate::text::repeated("─"@, widths[n - 1] + 2)
    }
}

/// A horizontal border with the given corners and crossings.
pub open spec fn border_line(
    left: Seq<char>,
    mid: Seq<char>,
    right: Seq<char>,
    widths: Seq<nat>,
) -> Seq<char> {
    left + rules_text(mid, widths, widths.len()) + right + "\n"@
}

/// The border between a table's parts.
pub open spec fn divider(widths: Seq<nat>) -> Seq<char> {
    border_line("├"@, "┼"@, "┤"@, widths)
}

/// The lines of the instructions, with a divider above each barrier.
pub open spec fn body_text(rows: Seq<OpcodeRow>, widths: Seq<nat>) -> Seq<char>
    decreases rows.len(),
{
    if rows.len() == 0 {
        Seq::empty()
    } else {
        body_text(rows.drop_last(), widths) + (if rows.last().is_finalize {
            divider(widths)
        } else {
            Seq::empty()
        }) + row_line(row_cells(rows.last()), widths)
    }
}

/// The table of one section.
pub open spec fn section_table(rows: Seq<OpcodeRow>) -> Seq<char> {
    let widths = column_widths(rows);
    border_line("┌"@, "┬"@, "┐"@, widths) + row_line(headings(), widths) + divider(widths)
        + body_text(rows, widths) + border_line("└"@, "┴"@, "┘"@, widths)
}

/// The first `n` sections of a listing. A label line stands above each table,
/// and an empty line between two sections, if the listing has more than one.
pub open spec fn listing_text(sections: Seq<OpcodeSection>, n: nat) -> Seq<char>
    decreases n,
{
    if n == 0 {
        Seq::empty()
    } else {
        listing_text(sections, (n - 1) as nat) + (if sections.len() > 1 {
            (if n > 1 {
                "\n"@
            } else {
                Seq::empty()
            }) + sections[n - 1].label@ + "\n"@
        } else {
            Seq::empty()
        }) + section_table(sections[n - 1].rows@)
    }
}

fn push_border(out: &mut String, left: &str, mid: &str, right: &str, widths: &Vec<usize>)
    ensures
        final(out)@ == old(out)@ + border_line(
            left@,
            mid@,
            right@,
            widths@.map_values(|w: usize| w as nat),
        ),
{
    let ghost ws = widths@.map_values(|w: usize| w as nat);
    let ghost start = out@ + left@;
    out.append(left);
    let mut i: usize = 0;
    assert(out@ =~= start + rules_text(mid@, ws, 0));
    while i < widths.len()
        invariant
            i <= widths.len(),
            ws == widths@.map_values(|w: usize| w as nat),
            out@ == start + rules_text(mid@, ws, i as nat),
        decreases widths.len() - i,
    {
        if i > 0 {
            out.append(mid);
        }
        push_repeated(out, "─", widths[i]);
        out.append("─");
        out.append("─");
        proof {
            let w = ws[i as int];
            assert(crate::text::repeated("─"@, w + 2) =~= crate::text::repeated("─"@, w)
                + "─"@ + "─"@) by {
                reveal_with_fuel(crate::text::repeated, 3);
            }
            assert(out@ =~= start + rules_text(mid@, ws, (i + 1) as nat));
        }
        i = i + 1;
    }
    out.append(right);
    out.append("\n");
    assert(out@ =~= old(out)@ + border_line(left@, mid@, right@, ws));
}

fn push_row(out: &mut String, cells: &Vec<String>, widths: &Vec<usize>)
    requires
        cells.len() == widths.len(),
    ensures
        final(out)@ == old(out)@ + row_line(
            crate::text::texts(cells@),
            widths@.map_values(|w: usize| w as nat),
        ),
{
    let ghost ws = widths@.map_values(|w: usize| w as nat);
    let ghost cs = crate::text::texts(cells@);
    let ghost start = out@ + "│"@;
    out.append("│");
    let mut i: usize = 0;
    assert(out@ =~= start + cells_text(cs, ws, 0));
    while i < widths.len()
        invariant
            i <= widths.len(),
            cells.len() == widths.len(),
            ws == widths@.map_values(|w: usize| w as nat),
            cs == crate::text::texts(cells@),
            out@ == start + cells_text(cs, ws, i as nat),
        decreases widths.len() - i,
    {
        out.append(" ");
        out.append(cells[i].as_str());
        let used: usize = cells[i].as_str().unicode_len();
        if used < widths[i] {
            push_repeated(out, " ", widths[i] - used);
        }
        out.append(" │");
        assert(out@ =~= start + cells_text(cs, ws, (i + 1) as nat));
        i = i + 1;
    }
    out.append("\n");
    assert(out@ =~= old(out)@ + row_line(cs, ws));
}

fn heading_cells() -> (cells: Vec<String>)
    ensures
        cells.len() == 4,
        crate::text::texts(cells@) == headings(),
{
    let mut cells: Vec<String> = Vec::new();
    cells.push("addr".to_string());
    cells.push("opcode".to_string());
    cells.push("operands".to_string());
    cells.push("comment".to_string());
    assert(crate::text::texts(cells@) =~= headings());
    cells
}

fn cells_of(row: &OpcodeRow) -> (cells: Vec<String>)
    ensures
        cells.len() == 4,
        crate::text::texts(cells@) == row_cells(*row),
{
    let mut cells: Vec<String> = Vec::new();
    cells.push(count_text(row.addr));
    cells.push(row.opcode.to_string());
    cells.push(row.operands.clone());
    cells.push(row.comment.clone());
    assert(crate::text::texts(cells@) =~= row_cells(*row));
    cells
}

fn widen(widths: &mut Vec<usize>, cells: &Vec<String>)
    requires
        old(widths).len() == cells.len(),
    ensures
        final(widths).len() == cells.len(),
        forall|c: int|
            0 <= c < cells.len() ==> final(widths)[c] as nat == wider(
                old(widths)[c] as nat,
                crate::text::byte_count(cells[c]@),
            ),
{
    let mut c: usize = 0;
    while c < cells.len()
        invariant
            c <= cells.len() == widths.len(),
            old(widths).len() == cells.len(),
            forall|k: int|
                0 <= k < c ==> widths[k] as nat == wider(
                    old(widths)[k] as nat,
                    crate::text::byte_count(cells[k]@),
                ),
            forall|k: int| c <= k < cells.len() ==> widths[k] == old(widths)[k],
        decreases cells.len() - c,
    {
        let n: usize = byte_len(cells[c].as_str());
        if widths[c] < n {
            widths.set(c, n);
        }
        c = c + 1;
    }
}

fn measure(headers: &Vec<String>, rows: &Vec<OpcodeRow>) -> (widths: Vec<usize>)
    requires
        headers.len() == 4,
        crate::text::texts(headers@) == headings(),
    ensures
        widths.len() == 4,
        widths@.map_values(|w: usize| w as nat) == column_widths(rows@),
{
    let mut widths: Vec<usize> = Vec::new();
    let mut c: usize = 0;
    while c < 4
        invariant
            c <= 4,
            widths.len() == c,
            headers.len() == 4,
            crate::text::texts(headers@) == headings(),
            forall|k: int| 0 <= k < c ==> widths[k] as nat == column_width(Seq::empty(), k),
        decreases 4 - c,
    {
        assert(crate::text::texts(headers@)[c as int] == headers[c as int]@);
        widths.push(byte_len(headers[c].as_str()));
        c = c + 1;
    }
    let mut i: usize = 0;
    assert(rows@.take(0) =~= Seq::empty());
    while i < rows.len()
        invariant
            i <= rows.len(),
            widths.len() == 4,
            forall|k: int|
                0 <= k < 4 ==> widths[k] as nat == column_width(rows@.take(i as int), k),
        decreases rows.len() - i,
    {
        let cells = cells_of(&rows[i]);
        widen(&mut widths, &cells);
        proof {
            let now = rows@.take(i + 1);
            assert(now.drop_last() =~= rows@.take(i as int));
            assert(now.last() == rows[i as int]);
            assert forall|k: int| 0 <= k < 4 implies widths[k] as nat == column_width(now, k) by {
                assert(crate::text::texts(cells@)[k] == cells[k]@);
            }
        }
        i = i + 1;
    }
    assert(rows@.take(rows.len() as int) =~= rows@);
    assert(widths@.map_values(|w: usize| w as nat) =~= column_widths(rows@));
    widths
}

fn push_section(out: &mut String, rows: &Vec<OpcodeRow>)
    ensures
        final(out)@ == old(out)@ + section_table(rows@),
{
    let headers = heading_cells();
    let widths = measure(&headers, rows);
    let ghost ws = column_widths(rows@);
    push_border(out, "┌", "┬", "┐", &widths);
    push_row(out, &headers, &widths);
    push_border(out, "├", "┼", "┤", &widths);
    let ghost top = out@;
    let mut i: usize = 0;
    assert(rows@.take(0) =~= Seq::empty());
    assert(out@ =~= top + body_text(rows@.take(0), ws));
    while i < rows.len()
        invariant
            i <= rows.len(),
            widths.len() == 4,
            ws == widths@.map_values(|w: usize| w as nat),
            out@ == top + body_text(rows@.take(i as int), ws),
        decreases rows.len() - i,
    {
        let cells = cells_of(&rows[i]);
        if rows[i].is_finalize {
            push_border(out, "├", "┼", "┤", &widths);
        }
        push_row(out, &cells, &widths);
        proof {
            let now = rows@.take(i + 1);
            assert(now.drop_last() =~= rows@.take(i as int));
            assert(out@ =~= top + body_text(now, ws));
        }
        i = i + 1;
    }
    assert(rows@.take(rows.len() as int) =~= rows@);
    push_border(out, "└", "┴", "┘", &widths);
    assert(out@ =~= old(out)@ + section_table(rows@));
}

/// What stands above the table of section `i` of several.
spec fn label_text(section: OpcodeSection, i: nat) -> Seq<char> {
    (if i > 0 {
        "\n"@
    } else {
        Seq::empty()
    }) + section.label@ + "\n"@
}

fn push_label(out: &mut String, section: &OpcodeSection, i: usize)
    ensures
        final(out)@ == old(out)@ + label_text(*section, i as nat),
{
    if i > 0 {
        out.append("\n");
    }
    out.append(section.label.as_str());
    out.append("\n");
    assert(out@ =~= old(out)@ + label_text(*section, i as nat));
}

/// Renders an opcode listing, one table for each section. Several sections (a
/// join's build, probe and body) get a label line each; a divider above the
/// barrier row makes the boundary between the two phases visible.
pub fn format_opcodes(sections: &[OpcodeSection]) -> (out: String)
    ensures
        out@ == listing_text(sections@, sections@.len()),
{
    let mut out = String::new();
    let mut i: usize = 0;
    while i < sections.len()
        invariant
            i <= sections.len(),
            out@ == listing_text(sections@, i as nat),
        decreases sections.len() - i,
    {
        let ghost before = out@;
        if sections.len() > 1 {
            push_label(&mut out, &sections[i], i);
        }
        let ghost label = if sections@.len() > 1 {
            label_text(sections@[i as int], i as nat)
        } else {
            Seq::empty()
        };
        assert(out@ =~= before + label);
        push_section(&mut out, &sections[i].rows);
        i = i + 1;
    }
    out
}

/// The number of characters of a line over the first `n` columns, line end and bars counted.
pub open spec fn line_length(widths: Seq<nat>, n: nat) -> nat
    decreases n,
{
    if n == 0 {
        2
    } else {
        line_length(widths, (n - 1) as nat) + widths[n - 1] + 3
    }
}

/// One character repeated `count` times takes `count` characters.
proof fn lemma_repeated_len(piece: Seq<char>, count: nat)
    requires
        piece.len() == 1,
    ensures
        crate::text::repeated(piece, count).len() == count,
    decreases count,
{
    if count > 0 {
        lemma_repeated_len(piece, (count - 1) as nat);
    }
}

proof fn lemma_cells_len(cells: Seq<Seq<char>>, widths: Seq<nat>, n: nat)
    requires
        n <= widths.len(),
        forall|c: int| 0 <= c < n ==> cells[c].len() <= widths[c],
    ensures
        cells_text(cells, widths, n).len() + 2 == line_length(widths, n),
    decreases n,
{
    if n > 0 {
        lemma_cells_len(cells, widths, (n - 1) as nat);
        reveal_strlit(" ");
        reveal_strlit(" │");
        let c = n - 1;
        assert(cells[c].len() <= widths[c]);
        lemma_repeated_len(" "@, (widths[c] - cells[c].len()) as nat);
    }
}

proof fn lemma_rules_len(mid: Seq<char>, widths: Seq<nat>, n: nat)
    requires
        mid.len() == 1,
        n <= widths.len(),
    ensures
        n > 0 ==> rules_text(mid, widths, n).len() + 3 == line_length(widths, n),
    decreases n,
{
    if n > 0 {
        lemma_rules_len(mid, widths, (n - 1) as nat);
        reveal_strlit("─");
        lemma_repeated_len("─"@, widths[n - 1] + 2);
        assert(rules_text(mid, widths, 0) =~= Seq::empty());
        assert(line_length(widths, 0) == 2);
    }
}

proof fn lemma_widths_cover(rows: Seq<OpcodeRow>, c: int)
    requires
        0 <= c < 4,
    ensures
        headings()[c].len() <= column_width(rows, c),
        forall|i: int|
            0 <= i < rows.len() ==> (#[trigger] row_cells(rows[i]))[c].len() <= column_width(rows, c),
    decreases rows.len(),
{
    if rows.len() == 0 {
        crate::text::lemma_bytes_cover_chars(headings()[c]);
    } else {
        lemma_widths_cover(rows.drop_last(), c);
        crate::text::lemma_bytes_cover_chars(row_cells(rows.last())[c]);
        assert forall|i: int| 0 <= i < rows.len() implies (#[trigger] row_cells(rows[i]))[c].len()
            <= column_width(rows, c) by {
            if i < rows.len() - 1 {
                assert(rows.drop_last()[i] == rows[i]);
                assert(row_cells(rows.drop_last()[i])[c].len() <= column_width(
                    rows.drop_last(),
                    c,
                ));
            }
        }
    }
}

/// A table's lines line up: its three kinds of border, its headings and each of
/// its instructions take the same number of characters, whatever the cells hold.
pub proof fn law_table_lines_align(rows: Seq<OpcodeRow>)
    ensures
        ({
            let widths = column_widths(rows);
            let length = line_length(widths, 4);
            &&& border_line("┌"@, "┬"@, "┐"@, widths).len() == length
            &&& divider(widths).len() == length
            &&& border_line("└"@, "┴"@, "┘"@, widths).len() == length
            &&& row_line(headings(), widths).len() == length
            &&& forall|i: int|
                0 <= i < rows.len() ==> row_line(#[trigger] row_cells(rows[i]), widths).len()
                    == length
        }),
{
    let widths = column_widths(rows);
    reveal_strlit("┌");
    reveal_strlit("┬");
    reveal_strlit("┐");
    reveal_strlit("├");
    reveal_strlit("┼");
    reveal_strlit("┤");
    reveal_strlit("└");
    reveal_strlit("┴");
    reveal_strlit("┘");
    reveal_strlit("│");
    reveal_strlit("\n");
    lemma_rules_len("┬"@, widths, 4);
    lemma_rules_len("┼"@, widths, 4);
    lemma_rules_len("┴"@, widths, 4);
    assert forall|c: int| 0 <= c < 4 implies headings()[c].len() <= widths[c] by {
        lemma_widths_cover(rows, c);
    }
    lemma_cells_len(headings(), widths, 4);
    assert forall|i: int| 0 <= i < rows.len() implies row_line(
        #[trigger] row_cells(rows[i]),
        widths,
    ).len() == line_length(widths, 4) by {
        let cells = row_cells(rows[i]);
        assert forall|c: int| 0 <= c < 4 implies cells[c].len() <= widths[c] by {
            lemma_widths_cover(rows, c);
        }
        lemma_cells_len(cells, widths, 4);
    }
}

/// A listing of one section is its bare table; the label is not shown.
pub proof fn law_single_section_has_no_label(section: OpcodeSection)
    ensures
        listing_text(seq![section], 1) == section_table(section.rows@),
{
    let sections = seq![section];
    assert(listing_text(sections, 0) =~= Seq::empty());
    assert(listing_text(sections, 1) =~= section_table(section.rows@));
}

proof fn lemma_body_grows(rows: Seq<OpcodeRow>, widths: Seq<nat>, n: nat)
    requires
        n <= rows.len(),
    ensures
        crate::text::begins_with(body_text(rows, widths), body_text(rows.take(n as int), widths)),
    decreases rows.len(),
{
    let start = body_text(rows.take(n as int), widths);
    if n < rows.len() {
        let front = rows.drop_last();
        lemma_body_grows(front, widths, n);
        assert(front.take(n as int) =~= rows.take(n as int));
        assert(body_text(rows, widths).take(start.len() as int) =~= body_text(front, widths).take(
            start.len() as int,
        ));
    } else {
        assert(rows.take(n as int) =~= rows);
        assert(start.take(start.len() as int) =~= start);
    }
}

/// The line of each instruction stands directly behind the lines of those before
/// it, but for one divider above a barrier.
pub proof fn law_divider_stands_above_barrier(rows: Seq<OpcodeRow>, widths: Seq<nat>, i: int)
    requires
        0 <= i < rows.len(),
    ensures
        rows[i].is_finalize ==> crate::text::begins_with(
            body_text(rows, widths),
            body_text(rows.take(i), widths) + divider(widths) + row_line(row_cells(rows[i]), widths),
        ),
        !rows[i].is_finalize ==> crate::text::begins_with(
            body_text(rows, widths),
            body_text(rows.take(i), widths) + row_line(row_cells(rows[i]), widths),
        ),
{
    lemma_body_grows(rows, widths, (i + 1) as nat);
    let upto = rows.take(i + 1);
    let line = row_line(row_cells(rows[i]), widths);
    assert(upto.drop_last() =~= rows.take(i));
    assert(upto.last() == rows[i]);
    if !rows[i].is_finalize {
        assert(body_text(upto, widths) =~= body_text(rows.take(i), widths) + line);
    }
}

proof fn lemma_listing_grows(sections: Seq<OpcodeSection>, n: nat, m: nat)
    requires
        n <= m,
    ensures
        crate::text::begins_with(listing_text(sections, m), listing_text(sections, n)),
    decreases m,
{
    let start = listing_text(sections, n);
    if n < m {
        lemma_listing_grows(sections, n, (m - 1) as nat);
        assert(listing_text(sections, m).take(start.len() as int) =~= listing_text(
            sections,
            (m - 1) as nat,
        ).take(start.len() as int));
    } else {
        assert(start.take(start.len() as int) =~= start);
    }
}

/// In a listing of several sections each table stands directly below its label,
/// and from the second section on an empty line stands above the label.
#[verifier::rlimit(40)]
pub proof fn law_sections_are_labelled(sections: Seq<OpcodeSection>, k: int)
    requires
        sections.len() > 1,
        0 <= k < sections.len(),
    ensures
        crate::text::begins_with(
            listing_text(sections, sections.len()),
            listing_text(sections, k as nat) + (if k > 0 {
                "\n"@
            } else {
                Seq::empty()
            }) + sections[k].label@ + "\n"@ + section_table(sections[k].rows@),
        ),
{
    lemma_listing_grows(sections, (k + 1) as nat, sections.len());
    assert(listing_text(sections, (k + 1) as nat) =~= listing_text(sections, k as nat) + (if k
        > 0 {
        "\n"@
    } else {
        Seq::empty()
    }) + sections[k].label@ + "\n"@ + section_table(sections[k].rows@));
}

/// The instruction reduces its rows: to one, or to one for each group.
pub open spec fn reduces(row: OpcodeRow) -> bool {
    row.opcode@ == "Reduce"@ || row.opcode@ == "GroupReduce"@
}

/// Some instruction of the section reduces its rows.
pub open spec fn section_reduces(section: OpcodeSection) -> bool {
    exists|i: int| 0 <= i < section.rows@.len() && reduces(#[trigger] section.rows@[i])
}

/// Some instruction of the program reduces its rows.
pub open spec fn program_reduces(sections: Seq<OpcodeSection>) -> bool {
    exists|k: int| 0 <= k < sections.len() && section_reduces(#[trigger] sections[k])
}

fn is_section_reduced(section: &OpcodeSection) -> (yes: bool)
    ensures
        yes == section_reduces(*section),
{
    let whole = "Reduce".to_string();
    let grouped = "GroupReduce".to_string();
    let mut i: usize = 0;
    while i < section.rows.len()
        invariant
            i <= section.rows.len(),
            whole@ == "Reduce"@,
            grouped@ == "GroupReduce"@,
            forall|k: int| 0 <= k < i ==> !reduces(#[trigger] section.rows@[k]),
        decreases section.rows.len() - i,
    {
        let opcode = section.rows[i].opcode.to_string();
        if opcode == whole || opcode == grouped {
            assert(reduces(section.rows@[i as int]));
            return true;
        }
        i = i + 1;
    }
    false
}

/// Whether a planned program aggregates: it holds an instruction that reduces
/// all of its rows, or the rows of each group.
pub fn is_reduced(sections: &[OpcodeSection]) -> (yes: bool)
    ensures
        yes == program_reduces(sections@),
{
    let mut k: usize = 0;
    while k < sections.len()
        invariant
            k <= sections@.len(),
            forall|j: int| 0 <= j < k ==> !section_reduces(#[trigger] sections@[j]),
        decreases sections@.len() - k,
    {
        if is_section_reduced(&sections[k]) {
            return true;
        }
        k = k + 1;
    }
    false
}

/// The four cells of a row are its address in decimal, its opcode, its operands and
/// its comment, below headings of those names.
pub proof fn law_a_row_shows_its_instruction(row: OpcodeRow)
    ensures
        row_cells(row).len() == 4,
        crate::text::plain_digits(row_cells(row)[0]),
        crate::text::number_read(row_cells(row)[0]) == row.addr,
        row_cells(row)[1] == row.opcode@,
        row_cells(row)[2] == row.operands@,
        row_cells(row)[3] == row.comment@,
        headings().len() == 4,
        headings()[0] == "addr"@,
        headings()[1] == "opcode"@,
        headings()[2] == "operands"@,
        headings()[3] == "comment"@,
{
    crate::text::law_digits_read_back(row.addr as nat);
}

/// A column is as wide as the bytes of its longest cell, heading and all rows
/// counted, and no wider.
pub proof fn law_a_column_fits_its_longest_cell(rows: Seq<OpcodeRow>, c: int, i: int)
    requires
        0 <= c < 4,
    ensures
        column_widths(rows).len() == 4,
        column_widths(rows)[c] >= crate::text::byte_count(headings()[c]),
        0 <= i < rows.len() ==> column_widths(rows)[c] >= crate::text::byte_count(
            row_cells(rows[i])[c],
        ),
        column_widths(rows)[c] == crate::text::byte_count(headings()[c]) || exists|k: int|
            0 <= k < rows.len() && column_widths(rows)[c] == crate::text::byte_count(
                (#[trigger] row_cells(rows[k]))[c],
            ),
    decreases rows.len(),
{
    if rows.len() > 0 {
        let front = rows.drop_last();
        law_a_column_fits_its_longest_cell(front, c, i);
        if 0 <= i < front.len() {
            assert(front[i] == rows[i]);
        }
        let w = column_widths(rows)[c];
        if w == crate::text::byte_count(row_cells(rows.last())[c]) {
            assert(w == crate::text::byte_count(row_cells(rows[rows.len() - 1])[c]));
        } else if w != crate::text::byte_count(headings()[c]) {
            let k = choose|k: int|
                0 <= k < front.len() && column_widths(front)[c] == crate::text::byte_count(
                    (#[trigger] row_cells(front[k]))[c],
                );
            assert(front[k] == rows[k]);
            assert(w == crate::text::byte_count(row_cells(rows[k])[c]));
        }
    }
}

proof fn lemma_blanks(count: nat, k: int)
    requires
        0 <= k < count,
    ensures
        crate::text::repeated(" "@, count).len() == count,
        crate::text::repeated(" "@, count)[k] == ' ',
    decreases count,
{
    reveal_strlit(" ");
    lemma_repeated_len(" "@, count);
    lemma_repeated_len(" "@, (count - 1) as nat);
    if k < count - 1 {
        lemma_blanks((count - 1) as nat, k);
    }
}

/// A cell stands in its column as it is, with blanks behind it up to the column's
/// width and nothing else.
pub proof fn law_a_cell_is_filled_up_with_blanks(cell: Seq<char>, width: nat, k: int)
    ensures
        padded(cell, width).len() == if cell.len() < width {
            width
        } else {
            cell.len()
        },
        0 <= k < cell.len() ==> padded(cell, width)[k] == cell[k],
        cell.len() <= k < width ==> padded(cell, width)[k] == ' ',
{
    if cell.len() < width {
        reveal_strlit(" ");
        lemma_repeated_len(" "@, (width - cell.len()) as nat);
        if cell.len() <= k < width {
            lemma_blanks((width - cell.len()) as nat, k - cell.len());
        }
    }
}

/// A line of a table shows its four cells in order, each between bars.
pub proof fn law_a_line_shows_its_four_cells(cells: Seq<Seq<char>>, widths: Seq<nat>)
    requires
        widths.len() == 4,
    ensures
        row_line(cells, widths) == "│"@ + " "@ + padded(cells[0], widths[0]) + " │"@ + " "@
            + padded(cells[1], widths[1]) + " │"@ + " "@ + padded(cells[2], widths[2]) + " │"@
            + " "@ + padded(cells[3], widths[3]) + " │"@ + "\n"@,
{
    reveal_with_fuel(cells_text, 5);
    assert(row_line(cells, widths) =~= "│"@ + " "@ + padded(cells[0], widths[0]) + " │"@ + " "@
        + padded(cells[1], widths[1]) + " │"@ + " "@ + padded(cells[2], widths[2]) + " │"@ + " "@
        + padded(cells[3], widths[3]) + " │"@ + "\n"@);
}

/// A border rules over its four columns, two wider than each, with a crossing
/// between two of them.
pub proof fn law_a_border_rules_over_four_columns(
    left: Seq<char>,
    mid: Seq<char>,
    right: Seq<char>,
    widths: Seq<nat>,
)
    requires
        widths.len() == 4,
    ensures
        border_line(left, mid, right, widths) == left + crate::text::repeated(
            "─"@,
            widths[0] + 2,
        ) + mid + crate::text::repeated("─"@, widths[1] + 2) + mid + crate::text::repeated(
            "─"@,
            widths[2] + 2,
        ) + mid + crate::text::repeated("─"@, widths[3] + 2) + right + "\n"@,
        divider(widths) == border_line("├"@, "┼"@, "┤"@, widths),
{
    reveal_with_fuel(rules_text, 5);
    assert(border_line(left, mid, right, widths) =~= left + crate::text::repeated(
        "─"@,
        widths[0] + 2,
    ) + mid + crate::text::repeated("─"@, widths[1] + 2) + mid + crate::text::repeated(
        "─"@,
        widths[2] + 2,
    ) + mid + crate::text::repeated("─"@, widths[3] + 2) + right + "\n"@);
}

/// A table's lines are those of its instructions, each below those before it and
/// with a divider above exactly if it is a barrier.
pub proof fn law_a_table_grows_line_by_line(
    rows: Seq<OpcodeRow>,
    row: OpcodeRow,
    widths: Seq<nat>,
)
    ensures
        body_text(Seq::empty(), widths) == Seq::<char>::empty(),
        row.is_finalize ==> body_text(rows.push(row), widths) == body_text(rows, widths)
            + border_line("├"@, "┼"@, "┤"@, widths) + row_line(row_cells(row), widths),
        !row.is_finalize ==> body_text(rows.push(row), widths) == body_text(rows, widths)
            + row_line(row_cells(row), widths),
{
    assert(rows.push(row).drop_last() =~= rows);
    if !row.is_finalize {
        assert(body_text(rows.push(row), widths) =~= body_text(rows, widths) + row_line(
            row_cells(row),
            widths,
        ));
    }
}

/// A section's table has a top border, the headings, a divider, the instructions and
/// a bottom border.
pub proof fn law_a_table_has_its_parts(rows: Seq<OpcodeRow>, widths: Seq<nat>)
    requires
        widths == column_widths(rows),
    ensures
        section_table(rows) == border_line("┌"@, "┬"@, "┐"@, widths) + row_line(
            headings(),
            widths,
        ) + border_line("├"@, "┼"@, "┤"@, widths) + body_text(rows, widths) + border_line(
            "└"@,
            "┴"@,
            "┘"@,
            widths,
        ),
{
}

/// A listing shows every section, each behind those before it: as a bare table if
/// it is the only one, else below its label, with an empty line between two sections.
pub proof fn law_a_listing_shows_every_section(sections: Seq<OpcodeSection>, k: nat)
    requires
        k < sections.len(),
    ensures
        listing_text(sections, 0) == Seq::<char>::empty(),
        sections.len() == 1 ==> listing_text(sections, 1) == section_table(sections[0].rows@),
        sections.len() > 1 && k == 0 ==> listing_text(sections, 1) == sections[0].label@ + "\n"@
            + section_table(sections[0].rows@),
        sections.len() > 1 && k > 0 ==> listing_text(sections, k + 1) == listing_text(sections, k)
            + "\n"@ + sections[k as int].label@ + "\n"@ + section_table(sections[k as int].rows@),
{
    assert(listing_text(sections, 0) =~= Seq::empty());
    if sections.len() == 1 {
        assert(listing_text(sections, 1) =~= section_table(sections[0].rows@));
    } else if k == 0 {
        assert(listing_text(sections, 1) =~= sections[0].label@ + "\n"@ + section_table(
            sections[0].rows@,
        ));
    } else {
        assert(listing_text(sections, k + 1) =~= listing_text(sections, k) + "\n"@
            + sections[k as int].label@ + "\n"@ + section_table(sections[k as int].rows@));
    }
}

/// A program reduces its rows exactly if some instruction of some section, wherever
/// it stands, is a reduction of all rows or of groups.
pub proof fn law_a_reduction_anywhere_counts(sections: Seq<OpcodeSection>, k: int, i: int)
    ensures
        0 <= k < sections.len() && 0 <= i < sections[k].rows@.len() && (
        sections[k].rows@[i].opcode@ == "Reduce"@ || sections[k].rows@[i].opcode@
            == "GroupReduce"@) ==> program_reduces(sections),
        program_reduces(sections) ==> exists|s: int, r: int|
            0 <= s < sections.len() && 0 <= r < sections[s].rows@.len() && (
            #[trigger] sections[s].rows@[r].opcode@ == "Reduce"@ || sections[s].rows@[r].opcode@
                == "GroupReduce"@),
{
    if 0 <= k < sections.len() && 0 <= i < sections[k].rows@.len() && (
    sections[k].rows@[i].opcode@ == "Reduce"@ || sections[k].rows@[i].opcode@
        == "GroupReduce"@) {
        assert(reduces(sections[k].rows@[i]));
        assert(section_reduces(sections[k]));
    }
    if program_reduces(sections) {
        let s = choose|s: int| 0 <= s < sections.len() && section_reduces(#[trigger] sections[s]);
        let r = choose|r: int|
            0 <= r < sections[s].rows@.len() && reduces(#[trigger] sections[s].rows@[r]);
        assert(reduces(sections[s].rows@[r]));
    }
}

} // verus!
