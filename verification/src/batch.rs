//! Row groups as batches of columns: which reader decodes a column, how decoded
//! cells become values, and how row groups become one table.

use crate::columns::{LeafColumn, PhysicalType};
use crate::error::VmError;
use crate::value::Value;
use vstd::prelude::*;

verus! {

/// The reader that decodes a column.
#[derive(Debug, Clone, Copy, PartialEq, Eq, Structural)]
pub enum ColumnReader {
    Int64,
    Int32,
    Double,
    Float,
    Boolean,
    Text,
}

/// The reader of a physical type. Whatever is neither a number nor a boolean is text.
pub open spec fn reader_of(physical_type: PhysicalType) -> ColumnReader {
    match physical_type {
        PhysicalType::Int64 => ColumnReader::Int64,
        PhysicalType::Int32 => ColumnReader::Int32,
        PhysicalType::Double => ColumnReader::Double,
        PhysicalType::Float => ColumnReader::Float,
        PhysicalType::Boolean => ColumnReader::Boolean,
        _ => ColumnReader::Text,
    }
}

/// The reader of a physical type.
pub fn reader_for(physical_type: PhysicalType) -> (reader: ColumnReader)
    ensures
        reader == reader_of(physical_type),
{
    match physical_type {
        PhysicalType::Int64 => ColumnReader::Int64,
        PhysicalType::Int32 => ColumnReader::Int32,
        PhysicalType::Double => ColumnReader::Double,
        PhysicalType::Float => ColumnReader::Float,
        PhysicalType::Boolean => ColumnReader::Boolean,
        _ => ColumnReader::Text,
    }
}

/// A decoded column, as its reader gives it; a missing cell is null. A float is
/// held by the bits of its double-precision value.
#[derive(Debug)]
pub enum ColumnData {
    Int64(Vec<Option<i64>>),
    Int32(Vec<Option<i32>>),
    Double(Vec<Option<u64>>),
    Float(Vec<Option<u64>>),
    Boolean(Vec<Option<bool>>),
    Text(Vec<Option<String>>),
}

impl ColumnData {
    /// The reader that gives such data.
    pub open spec fn reader(self) -> ColumnReader {
        match self {
            ColumnData::Int64(_) => ColumnReader::Int64,
            ColumnData::Int32(_) => ColumnReader::Int32,
            ColumnData::Double(_) => ColumnReader::Double,
            ColumnData::Float(_) => ColumnReader::Float,
            ColumnData::Boolean(_) => ColumnReader::Boolean,
            ColumnData::Text(_) => ColumnReader::Text,
        }
    }

    /// The number of rows decoded.
    pub open spec fn rows(self) -> nat {
        match self {
            ColumnData::Int64(cells) => cells@.len(),
            ColumnData::Int32(cells) => cells@.len(),
            ColumnData::Double(cells) => cells@.len(),
            ColumnData::Float(cells) => cells@.len(),
            ColumnData::Boolean(cells) => cells@.len(),
            ColumnData::Text(cells) => cells@.len(),
        }
    }

    /// The value of row `r`.
    pub open spec fn value_at(self, r: int) -> Value<u64> {
        match self {
            ColumnData::Int64(cells) => match cells@[r] {
                Some(i) => Value::Int(i),
                None => Value::Null,
            },
            ColumnData::Int32(cells) => match cells@[r] {
                Some(i) => Value::Int(i as i64),
                None => Value::Null,
            },
            ColumnData::Double(cells) => match cells@[r] {
                Some(bits) => Value::Float(bits),
                None => Value::Null,
            },
            ColumnData::Float(cells) => match cells@[r] {
                Some(bits) => Value::Float(bits),
                None => Value::Null,
            },
            ColumnData::Boolean(cells) => match cells@[r] {
                Some(b) => Value::Bool(b),
                None => Value::Null,
            },
            ColumnData::Text(cells) => match cells@[r] {
                Some(s) => Value::Str(s),
                None => Value::Null,
            },
        }
    }

    /// The values of all rows.
    pub open spec fn values(self) -> Seq<Value<u64>> {
        Seq::new(self.rows(), |r: int| self.value_at(r))
    }

    fn len(&self) -> (n: usize)
        ensures
            n == self.rows(),
    {
        match self {
            ColumnData::Int64(cells) => cells.len(),
            ColumnData::Int32(cells) => cells.len(),
            ColumnData::Double(cells) => cells.len(),
            ColumnData::Float(cells) => cells.len(),
            ColumnData::Boolean(cells) => cells.len(),
            ColumnData::Text(cells) => cells.len(),
        }
    }

    fn value(&self, r: usize) -> (value: Value<u64>)
        requires
            r < self.rows(),
        ensures
            value == self.value_at(r as int),
    {
        match self {
            ColumnData::Int64(cells) => match cells[r] {
                Some(i) => Value::Int(i),
                None => Value::Null,
            },
            ColumnData::Int32(cells) => match cells[r] {
                Some(i) => Value::Int(i as i64),
                None => Value::Null,
            },
            ColumnData::Double(cells) => match cells[r] {
                Some(bits) => Value::Float(bits),
                None => Value::Null,
            },
            ColumnData::Float(cells) => match cells[r] {
                Some(bits) => Value::Float(bits),
                None => Value::Null,
            },
            ColumnData::Boolean(cells) => match cells[r] {
                Some(b) => Value::Bool(b),
                None => Value::Null,
            },
            ColumnData::Text(cells) => match &cells[r] {
                Some(s) => Value::Str(s.clone()),
                None => Value::Null,
            },
        }
    }

    /// The values of a decoded column, row by row.
    pub fn to_values(&self) -> (out: Vec<Value<u64>>)
        ensures
            out@ == self.values(),
    {
        let mut out: Vec<Value<u64>> = Vec::new();
        let n: usize = self.len();
        let mut r: usize = 0;
        while r < n
            invariant
                r <= n == self.rows(),
                out@ == self.values().take(r as int),
            decreases n - r,
        {
            out.push(self.value(r));
            r = r + 1;
            assert(out@ =~= self.values().take(r as int));
        }
        assert(self.values().take(n as int) =~= self.values());
        out
    }
}

/// One named column of a batch.
#[derive(Debug)]
pub struct BatchColumn {
    pub name: String,
    pub values: Vec<Value<u64>>,
}

/// A batch of rows, column by column. No two of its columns bear the same name.
#[derive(Debug)]
pub struct Batch {
    num_rows: usize,
    entries: Vec<BatchColumn>,
}

spec fn bears(entries: Seq<BatchColumn>, name: Seq<char>, i: int) -> bool {
    0 <= i < entries.len() && entries[i].name@ == name
}

spec fn by_name(entries: Seq<BatchColumn>) -> Map<Seq<char>, Seq<Value<u64>>> {
    Map::new(
        |name: Seq<char>| exists|i: int| bears(entries, name, i),
        |name: Seq<char>| entries[choose|i: int| bears(entries, name, i)].values@,
    )
}

spec fn distinct(entries: Seq<BatchColumn>) -> bool {
    forall|i: int, j: int|
        0 <= i < j < entries.len() ==> (#[trigger] entries[i]).name@ != (
        #[trigger] entries[j]).name@
}

proof fn lemma_by_name(entries: Seq<BatchColumn>, i: int)
    requires
        distinct(entries),
        0 <= i < entries.len(),
    ensures
        by_name(entries).contains_key(entries[i].name@),
        by_name(entries)[entries[i].name@] == entries[i].values@,
{
    let name = entries[i].name@;
    assert(bears(entries, name, i));
    let k = choose|k: int| bears(entries, name, k);
    assert(bears(entries, name, k));
    if k < i {
        assert(entries[k].name@ != entries[i].name@);
    } else if i < k {
        assert(entries[i].name@ != entries[k].name@);
    }
}

/// Writing one entry, in place of the one of its name or behind all others, is
/// an insertion by name.
proof fn lemma_entry_written(
    before: Seq<BatchColumn>,
    after: Seq<BatchColumn>,
    spot: int,
    name: Seq<char>,
)
    requires
        distinct(before),
        0 <= spot <= before.len(),
        spot < before.len() ==> before[spot].name@ == name && after.len() == before.len(),
        spot == before.len() ==> after.len() == before.len() + 1 && forall|k: int|
            !bears(before, name, k),
        after[spot].name@ == name,
        forall|k: int| 0 <= k < before.len() && k != spot ==> after[k] == before[k],
    ensures
        distinct(after),
        by_name(after) == by_name(before).insert(name, after[spot].values@),
{
    assert forall|i: int, j: int| 0 <= i < j < after.len() implies (#[trigger] after[i]).name@ != (
    #[trigger] after[j]).name@ by {
        if j < before.len() {
            assert(before[i].name@ != before[j].name@);
        } else {
            assert(!bears(before, name, i));
        }
    }
    let expected = by_name(before).insert(name, after[spot].values@);
    assert forall|key: Seq<char>| by_name(after).contains_key(key) == expected.contains_key(
        key,
    ) by {
        if by_name(after).contains_key(key) {
            let i = choose|i: int| bears(after, key, i);
            if key != name {
                assert(bears(before, key, i));
            }
        }
        if expected.contains_key(key) {
            if key == name {
                assert(bears(after, name, spot));
            } else {
                let i = choose|i: int| bears(before, key, i);
                assert(bears(after, key, i));
            }
        }
    }
    assert forall|key: Seq<char>| by_name(after).contains_key(key) implies by_name(after)[key]
        == expected[key] by {
        if key == name {
            lemma_by_name(after, spot);
        } else {
            let i = choose|i: int| bears(after, key, i);
            lemma_by_name(after, i);
            lemma_by_name(before, i);
        }
    }
    assert(by_name(after) =~= expected);
}

impl Batch {
    /// The batch's number of rows.
    pub closed spec fn row_count(self) -> nat {
        self.num_rows as nat
    }

    /// The batch's columns by name.
    pub closed spec fn columns(self) -> Map<Seq<char>, Seq<Value<u64>>> {
        by_name(self.entries@)
    }

    /// No two columns bear the same name.
    pub closed spec fn well_formed(self) -> bool {
        distinct(self.entries@)
    }

    /// A batch of `num_rows` rows without a column.
    pub fn new(num_rows: usize) -> (batch: Batch)
        ensures
            batch.well_formed(),
            batch.row_count() == num_rows,
            batch.columns() == Map::<Seq<char>, Seq<Value<u64>>>::empty(),
    {
        let batch = Batch { num_rows, entries: Vec::new() };
        assert(batch.columns() =~= Map::empty());
        batch
    }

    /// The batch's number of rows.
    pub fn num_rows(&self) -> (n: usize)
        ensures
            n == self.row_count(),
    {
        self.num_rows
    }

    fn position(&self, name: &String) -> (at: Option<usize>)
        requires
            self.well_formed(),
        ensures
            match at {
                Some(i) => bears(self.entries@, name@, i as int),
                None => !self.columns().contains_key(name@),
            },
    {
        let mut i: usize = 0;
        while i < self.entries.len()
            invariant
                i <= self.entries.len(),
                forall|k: int| 0 <= k < i ==> !bears(self.entries@, name@, k),
            decreases self.entries.len() - i,
        {
            if self.entries[i].name == *name {
                return Some(i);
            }
            i = i + 1;
        }
        None
    }

    /// The values of the column `name`, if the batch has it.
    pub fn column(&self, name: &String) -> (values: Option<&Vec<Value<u64>>>)
        requires
            self.well_formed(),
        ensures
            match values {
                Some(v) => self.columns().contains_key(name@) && self.columns()[name@] == v@,
                None => !self.columns().contains_key(name@),
            },
    {
        match self.position(name) {
            Some(i) => {
                proof {
                    lemma_by_name(self.entries@, i as int);
                }
                Some(&self.entries[i].values)
            },
            None => None,
        }
    }

    /// The batch's columns, each once, in no particular order.
    pub fn into_columns(self) -> (out: Vec<BatchColumn>)
        requires
            self.well_formed(),
        ensures
            forall|i: int, j: int|
                0 <= i < j < out.len() ==> (#[trigger] out[i]).name@ != (#[trigger] out[j]).name@,
            forall|i: int|
                0 <= i < out.len() ==> self.columns().contains_key((#[trigger] out[i]).name@)
                    && self.columns()[out[i].name@] == out[i].values@,
            forall|name: Seq<char>|
                self.columns().contains_key(name) ==> exists|i: int|
                    0 <= i < out.len() && (#[trigger] out[i]).name@ == name,
    {
        proof {
            assert forall|i: int| 0 <= i < self.entries@.len() implies self.columns().contains_key(
                (#[trigger] self.entries@[i]).name@,
            ) && self.columns()[self.entries@[i].name@] == self.entries@[i].values@ by {
                lemma_by_name(self.entries@, i);
            }
            assert forall|name: Seq<char>| self.columns().contains_key(name) implies exists|i: int|
                0 <= i < self.entries@.len() && (#[trigger] self.entries@[i]).name@ == name by {
                let i = choose|i: int| bears(self.entries@, name, i);
                assert(self.entries@[i].name@ == name);
            }
        }
        self.entries
    }

    /// Adds a column, in place of one of the same name.
    pub fn set_column(&mut self, name: &String, values: Vec<Value<u64>>)
        requires
            old(self).well_formed(),
        ensures
            final(self).well_formed(),
            final(self).row_count() == old(self).row_count(),
            final(self).columns() == old(self).columns().insert(name@, values@),
    {
        let ghost spot: int;
        match self.position(name) {
            Some(i) => {
                proof {
                    spot = i as int;
                }
                self.entries.set(i, BatchColumn { name: name.clone(), values });
            },
            None => {
                proof {
                    spot = self.entries@.len() as int;
                }
                self.entries.push(BatchColumn { name: name.clone(), values });
            },
        }
        proof {
            lemma_entry_written(old(self).entries@, self.entries@, spot, name@);
        }
    }
}

/// What a file's row group gives for a segment's columns: for each of them, in
/// order, the decoded data or why it does not decode.
#[derive(Debug)]
pub struct RowGroupData {
    pub num_rows: usize,
    pub decoded: Vec<Result<ColumnData, String>>,
}

/// One row group of a Parquet file, with the leaf columns to read from it.
#[derive(Debug)]
pub struct RowGroupSegment {
    pub row_group_index: usize,
    pub columns: Vec<LeafColumn>,
}

/// `decoded` holds for each of `columns` what that column's reader gave.
pub open spec fn decoded_as(
    columns: Seq<LeafColumn>,
    decoded: Seq<Result<ColumnData, String>>,
) -> bool {
    decoded.len() == columns.len() && forall|i: int|
        0 <= i < columns.len() ==> ((#[trigger] decoded[i]) matches Ok(data) ==> data.reader()
            == reader_of(columns[i].physical_type))
}

/// The first `n` columns of a row group by name, or the first of them that did
/// not decode, with the reason. Of two columns of the same name the later one counts.
pub open spec fn loaded(
    columns: Seq<LeafColumn>,
    decoded: Seq<Result<ColumnData, String>>,
    n: nat,
) -> Result<Map<Seq<char>, Seq<Value<u64>>>, (Seq<char>, Seq<char>)>
    decreases n,
{
    if n == 0 {
        Ok(Map::empty())
    } else {
        match loaded(columns, decoded, (n - 1) as nat) {
            Err(failure) => Err(failure),
            Ok(before) => match decoded[n - 1] {
                Ok(data) => Ok(before.insert(columns[n - 1].name@, data.values())),
                Err(reason) => Err((columns[n - 1].name@, reason@)),
            },
        }
    }
}

/// The columns of one row group by name. Or why they do not load: the file has no
/// such row group, or one of the columns did not decode.
pub open spec fn group_loaded(
    row_group: nat,
    columns: Seq<LeafColumn>,
    group: Option<RowGroupData>,
) -> Result<Map<Seq<char>, Seq<Value<u64>>>, crate::error::VmErrorView> {
    match group {
        None => Err(
            crate::error::VmErrorView::SegmentLoad {
                row_group,
                column: None,
                reason: "row group index out of range"@,
            },
        ),
        Some(data) => match loaded(columns, data.decoded@, columns.len()) {
            Err((column, reason)) => Err(
                crate::error::VmErrorView::SegmentLoad { row_group, column: Some(column), reason },
            ),
            Ok(by_name) => Ok(by_name),
        },
    }
}

/// The number of rows of a row group.
pub open spec fn group_rows(group: Option<RowGroupData>) -> nat {
    match group {
        None => 0,
        Some(data) => data.num_rows as nat,
    }
}

/// The outcome of [`RowGroupSegment::load`].
pub open spec fn loads_to(
    segment: RowGroupSegment,
    group: Option<RowGroupData>,
    out: Result<Batch, VmError>,
) -> bool {
    match group_loaded(segment.row_group_index as nat, segment.columns@, group) {
        Err(e) => out matches Err(error) && error@ == e,
        Ok(columns) => out matches Ok(batch) && batch.well_formed() && batch.row_count()
            == group_rows(group) && batch.columns() == columns,
    }
}

proof fn lemma_loaded_error_stays(
    columns: Seq<LeafColumn>,
    decoded: Seq<Result<ColumnData, String>>,
    n: nat,
    m: nat,
)
    requires
        n <= m,
        loaded(columns, decoded, n) is Err,
    ensures
        loaded(columns, decoded, m) == loaded(columns, decoded, n),
    decreases m,
{
    if n < m {
        lemma_loaded_error_stays(columns, decoded, n, (m - 1) as nat);
    }
}

/// A row group loads exactly if each of its columns decoded: one that did not is
/// never read as a column of nulls.
pub proof fn law_undecoded_column_is_an_error(
    columns: Seq<LeafColumn>,
    decoded: Seq<Result<ColumnData, String>>,
    n: nat,
)
    requires
        n <= columns.len() == decoded.len(),
    ensures
        loaded(columns, decoded, n) is Ok <==> forall|i: int|
            0 <= i < n ==> (#[trigger] decoded[i]) is Ok,
    decreases n,
{
    if n > 0 {
        law_undecoded_column_is_an_error(columns, decoded, (n - 1) as nat);
        if loaded(columns, decoded, n) is Err && loaded(columns, decoded, (n - 1) as nat) is Ok {
            assert(decoded[n - 1] is Err);
        }
    }
}

impl RowGroupSegment {
    /// Turns what the file gave for this segment into a batch. `group` is
    /// nothing if the file has no such row group. A column that did not decode
    /// is an error that names the row group and the column.
    pub fn load(&self, group: &Option<RowGroupData>) -> (out: Result<Batch, VmError>)
        requires
            *group matches Some(data) ==> decoded_as(self.columns@, data.decoded@),
        ensures
            loads_to(*self, *group, out),
    {
        let data = match group {
            Some(data) => data,
            None => {
                return Err(
                    VmError::SegmentLoad {
                        row_group: self.row_group_index,
                        column: None,
                        reason: "row group index out of range".to_string(),
                    },
                );
            },
        };
        let mut batch = Batch::new(data.num_rows);
        let mut i: usize = 0;
        while i < self.columns.len()
            invariant
                *group == Some(*data),
                i <= self.columns.len() == data.decoded.len(),
                batch.well_formed(),
                batch.row_count() == data.num_rows,
                loaded(self.columns@, data.decoded@, i as nat) == Ok::<
                    Map<Seq<char>, Seq<Value<u64>>>,
                    (Seq<char>, Seq<char>),
                >(batch.columns()),
            decreases self.columns.len() - i,
        {
            match &data.decoded[i] {
                Ok(column) => {
                    batch.set_column(&self.columns[i].name, column.to_values());
                },
                Err(reason) => {
                    proof {
                        lemma_loaded_error_stays(
                            self.columns@,
                            data.decoded@,
                            (i + 1) as nat,
                            self.columns@.len(),
                        );
                    }
                    return Err(
                        VmError::SegmentLoad {
                            row_group: self.row_group_index,
                            column: Some(self.columns[i].name.clone()),
                            reason: reason.clone(),
                        },
                    );
                },
            }
            i = i + 1;
        }
        Ok(batch)
    }
}

fn copy_columns(columns: &[LeafColumn]) -> (out: Vec<LeafColumn>)
    ensures
        out@ == columns@,
{
    let mut out: Vec<LeafColumn> = Vec::new();
    let mut i: usize = 0;
    while i < columns.len()
        invariant
            i <= columns@.len(),
            out@ == columns@.take(i as int),
        decreases columns@.len() - i,
    {
        out.push(columns[i].copy());
        i = i + 1;
        assert(out@ =~= columns@.take(i as int));
    }
    assert(columns@.take(columns@.len() as int) =~= columns@);
    out
}

/// Every row group of a file as a segment over `columns`.
pub fn row_group_segments(num_row_groups: usize, columns: &[LeafColumn]) -> (segments: Vec<
    RowGroupSegment,
>)
    ensures
        segments.len() == num_row_groups,
        forall|i: int|
            0 <= i < segments.len() ==> (#[trigger] segments[i]).row_group_index == i
                && segments[i].columns@ == columns@,
{
    let mut segments: Vec<RowGroupSegment> = Vec::new();
    while segments.len() < num_row_groups
        invariant
            segments.len() <= num_row_groups,
            forall|i: int|
                0 <= i < segments.len() ==> (#[trigger] segments[i]).row_group_index == i
                    && segments[i].columns@ == columns@,
        decreases num_row_groups - segments.len(),
    {
        let row_group_index: usize = segments.len();
        segments.push(RowGroupSegment { row_group_index, columns: copy_columns(columns) });
    }
    segments
}

/// One of the first `n` columns goes by `name`.
pub open spec fn named_among(columns: Seq<LeafColumn>, n: int, name: Seq<char>) -> bool {
    exists|k: int| 0 <= k < n && (#[trigger] columns[k]).name@ == name
}

/// A table without rows: an empty column for each name.
pub open spec fn blank(columns: Seq<LeafColumn>) -> Map<Seq<char>, Seq<Value<u64>>> {
    Map::new(
        |name: Seq<char>| named_among(columns, columns.len() as int, name),
        |name: Seq<char>| Seq::<Value<u64>>::empty(),
    )
}

/// `table` with the columns of the row group `group` behind its own, name by name.
pub open spec fn appended(
    table: Map<Seq<char>, Seq<Value<u64>>>,
    group: Map<Seq<char>, Seq<Value<u64>>>,
) -> Map<Seq<char>, Seq<Value<u64>>> {
    table.map_entries(
        |name: Seq<char>, values: Seq<Value<u64>>|
            if group.contains_key(name) {
                values + group[name]
            } else {
                values
            },
    )
}

/// The columns of the first `n` row groups, one behind the other, or why the
/// first one that fails does not load.
pub open spec fn whole_table(
    columns: Seq<LeafColumn>,
    groups: Seq<Option<RowGroupData>>,
    n: nat,
) -> Result<Map<Seq<char>, Seq<Value<u64>>>, crate::error::VmErrorView>
    decreases n,
{
    if n == 0 {
        Ok(blank(columns))
    } else {
        match whole_table(columns, groups, (n - 1) as nat) {
            Err(e) => Err(e),
            Ok(before) => match group_loaded((n - 1) as nat, columns, groups[n - 1]) {
                Err(e) => Err(e),
                Ok(group) => Ok(appended(before, group)),
            },
        }
    }
}

/// The number of rows of the first `n` row groups.
pub open spec fn total_rows(groups: Seq<Option<RowGroupData>>, n: nat) -> nat
    decreases n,
{
    if n == 0 {
        0
    } else {
        total_rows(groups, (n - 1) as nat) + group_rows(groups[n - 1])
    }
}

proof fn lemma_total_rows_grow(groups: Seq<Option<RowGroupData>>, n: nat, m: nat)
    requires
        n <= m,
    ensures
        total_rows(groups, n) <= total_rows(groups, m),
    decreases m,
{
    if n < m {
        lemma_total_rows_grow(groups, n, (m - 1) as nat);
    }
}

proof fn lemma_whole_table_error_stays(
    columns: Seq<LeafColumn>,
    groups: Seq<Option<RowGroupData>>,
    n: nat,
    m: nat,
)
    requires
        n <= m,
        whole_table(columns, groups, n) is Err,
    ensures
        whole_table(columns, groups, m) == whole_table(columns, groups, n),
    decreases m,
{
    if n < m {
        lemma_whole_table_error_stays(columns, groups, n, (m - 1) as nat);
    }
}

impl Batch {
    /// Appends `values` to the column `name`.
    fn extend_column(&mut self, name: &String, values: &Vec<Value<u64>>)
        requires
            old(self).well_formed(),
            old(self).columns().contains_key(name@),
        ensures
            final(self).well_formed(),
            final(self).row_count() == old(self).row_count(),
            final(self).columns() == old(self).columns().insert(
                name@,
                old(self).columns()[name@] + values@,
            ),
    {
        let ghost first = self.columns()[name@];
        match self.position(name) {
            Some(i) => {
                proof {
                    lemma_by_name(self.entries@, i as int);
                }
                let mut extended: Vec<Value<u64>> = Vec::new();
                std::mem::swap(&mut extended, &mut self.entries[i].values);
                proof {
                    lemma_entry_written(old(self).entries@, self.entries@, i as int, name@);
                }
                let mut k: usize = 0;
                assert(extended@ =~= first + values@.take(0));
                while k < values.len()
                    invariant
                        k <= values.len(),
                        extended@ == first + values@.take(k as int),
                    decreases values.len() - k,
                {
                    extended.push(values[k].copy());
                    k = k + 1;
                    assert(extended@ =~= first + values@.take(k as int));
                }
                assert(values@.take(values.len() as int) =~= values@);
                self.set_column(name, extended);
                assert(self.columns() =~= old(self).columns().insert(name@, first + values@));
            },
            None => {},
        }
    }
}

/// `table` once the row group `group` is appended to those of its columns that
/// the first `n` of `columns` name.
spec fn appended_among(
    table: Map<Seq<char>, Seq<Value<u64>>>,
    group: Map<Seq<char>, Seq<Value<u64>>>,
    columns: Seq<LeafColumn>,
    n: int,
) -> Map<Seq<char>, Seq<Value<u64>>> {
    table.map_entries(
        |name: Seq<char>, values: Seq<Value<u64>>|
            if named_among(columns, n, name) && group.contains_key(name) {
                values + group[name]
            } else {
                values
            },
    )
}

fn is_named_before(columns: &[LeafColumn], n: usize) -> (yes: bool)
    requires
        n < columns@.len(),
    ensures
        yes == named_among(columns@, n as int, columns@[n as int].name@),
{
    let mut k: usize = 0;
    while k < n
        invariant
            k <= n < columns@.len(),
            forall|j: int|
                0 <= j < k ==> (#[trigger] columns@[j]).name@ != columns@[n as int].name@,
        decreases n - k,
    {
        if columns[k].name == columns[n].name {
            return true;
        }
        k = k + 1;
    }
    false
}

fn append_group(table: &mut Batch, columns: &[LeafColumn], group: &Batch)
    requires
        old(table).well_formed(),
        group.well_formed(),
        forall|name: Seq<char>|
            old(table).columns().contains_key(name) <==> named_among(
                columns@,
                columns@.len() as int,
                name,
            ),
    ensures
        final(table).well_formed(),
        final(table).row_count() == old(table).row_count(),
        final(table).columns() == appended(old(table).columns(), group.columns()),
{
    let ghost before = table.columns();
    let mut c: usize = 0;
    assert(before =~= appended_among(before, group.columns(), columns@, 0));
    while c < columns.len()
        invariant
            c <= columns@.len(),
            group.well_formed(),
            table.well_formed(),
            table.row_count() == old(table).row_count(),
            before == old(table).columns(),
            forall|name: Seq<char>|
                before.contains_key(name) <==> named_among(columns@, columns@.len() as int, name),
            table.columns() == appended_among(before, group.columns(), columns@, c as int),
        decreases columns@.len() - c,
    {
        let ghost now = table.columns();
        let ghost wanted = columns@[c as int].name@;
        assert(named_among(columns@, columns@.len() as int, wanted));
        let ghost next = appended_among(before, group.columns(), columns@, c + 1);
        assert forall|name: Seq<char>| name != wanted implies named_among(columns@, c + 1, name)
            == named_among(columns@, c as int, name) by {
            if named_among(columns@, c + 1, name) {
                let k = choose|k: int| 0 <= k < c + 1 && (#[trigger] columns@[k]).name@ == name;
                assert(k != c);
            }
        }
        assert(named_among(columns@, c + 1, wanted));
        if !is_named_before(columns, c) {
            match group.column(&columns[c].name) {
                Some(values) => {
                    table.extend_column(&columns[c].name, values);
                    assert(table.columns() =~= next);
                },
                None => {
                    assert(table.columns() =~= next);
                },
            }
        } else {
            assert(table.columns() =~= next);
        }
        c = c + 1;
    }
    assert(table.columns() =~= appended(before, group.columns()));
}

/// One batch for a whole table: the row groups' columns one behind the other,
/// by name. Window functions, semi-joins and a join's build side need a table
/// whole. `groups` is what the file gave for each of its row groups.
pub fn read_whole_table(columns: &[LeafColumn], groups: &[Option<RowGroupData>]) -> (out: Result<
    Batch,
    VmError,
>)
    requires
        forall|i: int|
            0 <= i < groups@.len() ==> ((#[trigger] groups@[i]) matches Some(data) ==> decoded_as(
                columns@,
                data.decoded@,
            )),
        total_rows(groups@, groups@.len()) <= usize::MAX,
    ensures
        match whole_table(columns@, groups@, groups@.len()) {
            Err(e) => out matches Err(error) && error@ == e,
            Ok(by_name) => out matches Ok(table) && table.well_formed() && table.columns()
                == by_name && table.row_count() == total_rows(groups@, groups@.len()),
        },
{
    let mut table = Batch::new(0);
    let mut i: usize = 0;
    while i < columns.len()
        invariant
            i <= columns@.len(),
            table.well_formed(),
            table.row_count() == 0,
            forall|name: Seq<char>|
                table.columns().contains_key(name) <==> named_among(columns@, i as int, name),
            forall|name: Seq<char>|
                table.columns().contains_key(name) ==> (#[trigger] table.columns()[name])
                    == Seq::<Value<u64>>::empty(),
        decreases columns@.len() - i,
    {
        let ghost before = table.columns();
        let ghost wanted = columns@[i as int].name@;
        table.set_column(&columns[i].name, Vec::new());
        assert forall|name: Seq<char>|
            table.columns().contains_key(name) <==> named_among(columns@, i + 1, name) by {
            if named_among(columns@, i + 1, name) && name != wanted {
                let k = choose|k: int| 0 <= k < i + 1 && (#[trigger] columns@[k]).name@ == name;
                assert(named_among(columns@, i as int, name));
            }
            if table.columns().contains_key(name) {
                if name == wanted {
                    assert(columns@[i as int].name@ == name);
                } else {
                    let k = choose|k: int| 0 <= k < i && (#[trigger] columns@[k]).name@ == name;
                    assert(columns@[k].name@ == name);
                }
            }
        }
        i = i + 1;
    }
    assert(table.columns() =~= blank(columns@));
    let mut g: usize = 0;
    while g < groups.len()
        invariant
            g <= groups@.len(),
            forall|i: int|
                0 <= i < groups@.len() ==> ((#[trigger] groups@[i]) matches Some(data)
                    ==> decoded_as(columns@, data.decoded@)),
            total_rows(groups@, groups@.len()) <= usize::MAX,
            table.well_formed(),
            table.row_count() == total_rows(groups@, g as nat),
            whole_table(columns@, groups@, g as nat) == Ok::<
                Map<Seq<char>, Seq<Value<u64>>>,
                crate::error::VmErrorView,
            >(table.columns()),
            forall|name: Seq<char>|
                table.columns().contains_key(name) <==> named_among(
                    columns@,
                    columns@.len() as int,
                    name,
                ),
        decreases groups@.len() - g,
    {
        let segment = RowGroupSegment { row_group_index: g, columns: copy_columns(columns) };
        let group = match segment.load(&groups[g]) {
            Ok(group) => group,
            Err(e) => {
                proof {
                    lemma_whole_table_error_stays(
                        columns@,
                        groups@,
                        (g + 1) as nat,
                        groups@.len(),
                    );
                }
                return Err(e);
            },
        };
        proof {
            lemma_total_rows_grow(groups@, (g + 1) as nat, groups@.len());
        }
        table.num_rows = table.num_rows + group.num_rows();
        append_group(&mut table, columns, &group);
        g = g + 1;
    }
    Ok(table)
}

/// Column `c` of the first `n` row groups, one behind the other.
pub open spec fn stacked(groups: Seq<Option<RowGroupData>>, c: int, n: nat) -> Seq<Value<u64>>
    decreases n,
{
    if n == 0 {
        Seq::empty()
    } else {
        stacked(groups, c, (n - 1) as nat) + (match groups[n - 1] {
            Some(data) => match data.decoded@[c] {
                Ok(column) => column.values(),
                Err(_) => Seq::empty(),
            },
            None => Seq::empty(),
        })
    }
}

/// Of the columns that go by the same name, column `c` is the last one.
pub open spec fn last_of_name(columns: Seq<LeafColumn>, c: int) -> bool {
    0 <= c < columns.len() && forall|j: int|
        c < j < columns.len() ==> (#[trigger] columns[j]).name@ != columns[c].name@
}

proof fn lemma_last_of_name(columns: Seq<LeafColumn>, n: int, name: Seq<char>) -> (c: int)
    requires
        0 <= n <= columns.len(),
        named_among(columns, n, name),
        forall|j: int| n <= j < columns.len() ==> (#[trigger] columns[j]).name@ != name,
    ensures
        last_of_name(columns, c),
        columns[c].name@ == name,
    decreases n,
{
    if columns[n - 1].name@ == name {
        n - 1
    } else {
        let k = choose|k: int| 0 <= k < n && (#[trigger] columns[k]).name@ == name;
        assert(columns[k].name@ == name);
        lemma_last_of_name(columns, n - 1, name)
    }
}

proof fn lemma_loaded_values(
    columns: Seq<LeafColumn>,
    decoded: Seq<Result<ColumnData, String>>,
    n: nat,
    c: int,
)
    requires
        0 <= c < n <= columns.len() == decoded.len(),
        last_of_name(columns, c),
        loaded(columns, decoded, n) is Ok,
    ensures
        loaded(columns, decoded, n)->Ok_0.contains_key(columns[c].name@),
        decoded[c] matches Ok(data) && loaded(columns, decoded, n)->Ok_0[columns[c].name@]
            == data.values(),
    decreases n,
{
    if c < n - 1 {
        lemma_loaded_values(columns, decoded, (n - 1) as nat, c);
        assert(columns[n - 1].name@ != columns[c].name@);
    }
}

/// A row group that loads holds each column's decoded values under its name, the
/// last column's where several go by the same name.
pub proof fn law_loaded_columns_keep_their_values(
    columns: Seq<LeafColumn>,
    decoded: Seq<Result<ColumnData, String>>,
    c: int,
)
    requires
        columns.len() == decoded.len(),
        last_of_name(columns, c),
        loaded(columns, decoded, columns.len()) is Ok,
    ensures
        loaded(columns, decoded, columns.len())->Ok_0.contains_key(columns[c].name@),
        decoded[c] matches Ok(data) && loaded(
            columns,
            decoded,
            columns.len(),
        )->Ok_0[columns[c].name@] == data.values(),
{
    lemma_loaded_values(columns, decoded, columns.len(), c);
}

proof fn lemma_whole_table_names(
    columns: Seq<LeafColumn>,
    groups: Seq<Option<RowGroupData>>,
    n: nat,
)
    requires
        n <= groups.len(),
        whole_table(columns, groups, n) is Ok,
    ensures
        forall|name: Seq<char>|
            whole_table(columns, groups, n)->Ok_0.contains_key(name) <==> named_among(
                columns,
                columns.len() as int,
                name,
            ),
    decreases n,
{
    if n > 0 {
        lemma_whole_table_names(columns, groups, (n - 1) as nat);
    }
}

proof fn lemma_whole_table(
    columns: Seq<LeafColumn>,
    groups: Seq<Option<RowGroupData>>,
    n: nat,
    c: int,
)
    requires
        n <= groups.len(),
        last_of_name(columns, c),
        forall|g: int|
            0 <= g < groups.len() ==> ((#[trigger] groups[g]) matches Some(data) ==> decoded_as(
                columns,
                data.decoded@,
            )),
        whole_table(columns, groups, n) is Ok,
    ensures
        whole_table(columns, groups, n)->Ok_0.contains_key(columns[c].name@),
        whole_table(columns, groups, n)->Ok_0[columns[c].name@] == stacked(groups, c, n),
    decreases n,
{
    lemma_whole_table_names(columns, groups, n);
    assert(named_among(columns, columns.len() as int, columns[c].name@));
    if n > 0 {
        lemma_whole_table(columns, groups, (n - 1) as nat, c);
        law_loaded_columns_keep_their_values(columns, (groups[n - 1]->0).decoded@, c);
    }
}

/// A whole table has one column for each name: that column of every row group,
/// in row group order. Where several columns go by the same name the last one counts.
pub proof fn law_whole_table_stacks_row_groups(
    columns: Seq<LeafColumn>,
    groups: Seq<Option<RowGroupData>>,
    c: int,
)
    requires
        last_of_name(columns, c),
        forall|g: int|
            0 <= g < groups.len() ==> ((#[trigger] groups[g]) matches Some(data) ==> decoded_as(
                columns,
                data.decoded@,
            )),
        whole_table(columns, groups, groups.len()) is Ok,
    ensures
        whole_table(columns, groups, groups.len())->Ok_0.contains_key(columns[c].name@),
        whole_table(columns, groups, groups.len())->Ok_0[columns[c].name@] == stacked(
            groups,
            c,
            groups.len(),
        ),
        forall|name: Seq<char>|
            whole_table(columns, groups, groups.len())->Ok_0.contains_key(name) <==> named_among(
                columns,
                columns.len() as int,
                name,
            ),
{
    lemma_whole_table(columns, groups, groups.len(), c);
    lemma_whole_table_names(columns, groups, groups.len());
}

/// Each column of the row group has a value for each of its rows.
pub open spec fn fills_rows(group: Option<RowGroupData>) -> bool {
    &&& group matches Some(data)
    &&& forall|c: int|
        0 <= c < data.decoded@.len() ==> ((#[trigger] data.decoded@[c]) matches Ok(column)
            && column.rows() == data.num_rows)
}

proof fn lemma_stacked_len(
    columns: Seq<LeafColumn>,
    groups: Seq<Option<RowGroupData>>,
    c: int,
    n: nat,
)
    requires
        n <= groups.len(),
        0 <= c < columns.len(),
        forall|g: int|
            0 <= g < groups.len() ==> ((#[trigger] groups[g]) matches Some(data) ==> decoded_as(
                columns,
                data.decoded@,
            )),
        forall|g: int| 0 <= g < groups.len() ==> fills_rows(#[trigger] groups[g]),
    ensures
        stacked(groups, c, n).len() == total_rows(groups, n),
    decreases n,
{
    if n > 0 {
        lemma_stacked_len(columns, groups, c, (n - 1) as nat);
        assert(fills_rows(groups[n - 1]));
        assert((groups[n - 1]->0).decoded@[c] is Ok);
    }
}

proof fn lemma_filled_groups_load(
    columns: Seq<LeafColumn>,
    groups: Seq<Option<RowGroupData>>,
    n: nat,
)
    requires
        n <= groups.len(),
        forall|g: int|
            0 <= g < groups.len() ==> ((#[trigger] groups[g]) matches Some(data) ==> decoded_as(
                columns,
                data.decoded@,
            )),
        forall|g: int| 0 <= g < groups.len() ==> fills_rows(#[trigger] groups[g]),
    ensures
        whole_table(columns, groups, n) is Ok,
    decreases n,
{
    if n > 0 {
        lemma_filled_groups_load(columns, groups, (n - 1) as nat);
        assert(fills_rows(groups[n - 1]));
        law_undecoded_column_is_an_error(columns, (groups[n - 1]->0).decoded@, columns.len());
    }
}

/// Where every column of every row group has a value for each of its rows, the
/// whole table loads, and each of its columns has a value for each of the table's
/// rows.
pub proof fn law_whole_table_is_rectangular(
    columns: Seq<LeafColumn>,
    groups: Seq<Option<RowGroupData>>,
    name: Seq<char>,
)
    requires
        forall|g: int|
            0 <= g < groups.len() ==> ((#[trigger] groups[g]) matches Some(data) ==> decoded_as(
                columns,
                data.decoded@,
            )),
        forall|g: int| 0 <= g < groups.len() ==> fills_rows(#[trigger] groups[g]),
    ensures
        whole_table(columns, groups, groups.len()) is Ok,
        whole_table(columns, groups, groups.len())->Ok_0.contains_key(name) ==> whole_table(
            columns,
            groups,
            groups.len(),
        )->Ok_0[name].len() == total_rows(groups, groups.len()),
{
    lemma_filled_groups_load(columns, groups, groups.len());
    lemma_whole_table_names(columns, groups, groups.len());
    if whole_table(columns, groups, groups.len())->Ok_0.contains_key(name) {
        let c = lemma_last_of_name(columns, columns.len() as int, name);
        lemma_whole_table(columns, groups, groups.len(), c);
        lemma_stacked_len(columns, groups, c, groups.len());
    }
}

/// A whole table is read exactly if each of its row groups loads.
pub proof fn law_whole_table_needs_every_row_group(
    columns: Seq<LeafColumn>,
    groups: Seq<Option<RowGroupData>>,
    n: nat,
)
    requires
        n <= groups.len(),
    ensures
        whole_table(columns, groups, n) is Ok <==> forall|g: int|
            0 <= g < n ==> group_loaded(g as nat, columns, #[trigger] groups[g]) is Ok,
    decreases n,
{
    if n > 0 {
        law_whole_table_needs_every_row_group(columns, groups, (n - 1) as nat);
        if whole_table(columns, groups, n) is Err && whole_table(
            columns,
            groups,
            (n - 1) as nat,
        ) is Ok {
            assert(group_loaded((n - 1) as nat, columns, groups[n - 1]) is Err);
        }
    }
}

/// Each kind of decoded column is read cell by cell, and no cell is changed: a
/// truth value as itself, an integer of either width as the same number, a float by
/// its bits, text as it is, and a missing cell as null.
pub proof fn law_values_keep_their_cells(data: ColumnData, r: int)
    ensures
        match data {
            ColumnData::Int64(cells) => data.values().len() == cells@.len() && (0 <= r
                < cells@.len() ==> data.values()[r] == (match cells@[r] {
                Some(i) => Value::<u64>::Int(i),
                None => Value::Null,
            })),
            ColumnData::Int32(cells) => data.values().len() == cells@.len() && (0 <= r
                < cells@.len() ==> (match cells@[r] {
                Some(i) => data.values()[r] matches Value::Int(wide) && wide as int == i as int,
                None => data.values()[r] is Null,
            })),
            ColumnData::Double(cells) => data.values().len() == cells@.len() && (0 <= r
                < cells@.len() ==> data.values()[r] == (match cells@[r] {
                Some(bits) => Value::Float(bits),
                None => Value::Null,
            })),
            ColumnData::Float(cells) => data.values().len() == cells@.len() && (0 <= r
                < cells@.len() ==> data.values()[r] == (match cells@[r] {
                Some(bits) => Value::Float(bits),
                None => Value::Null,
            })),
            ColumnData::Boolean(cells) => data.values().len() == cells@.len() && (0 <= r
                < cells@.len() ==> data.values()[r] == (match cells@[r] {
                Some(b) => Value::<u64>::Bool(b),
                None => Value::Null,
            })),
            ColumnData::Text(cells) => data.values().len() == cells@.len() && (0 <= r
                < cells@.len() ==> data.values()[r] == (match cells@[r] {
                Some(s) => Value::<u64>::Str(s),
                None => Value::Null,
            })),
        },
{
}

/// Two decoded columns of one kind that are read as the same values have the same
/// cells.
pub proof fn law_reading_loses_no_cell(a: ColumnData, b: ColumnData, r: int)
    requires
        a.values() == b.values(),
    ensures
        match (a, b) {
            (ColumnData::Int64(x), ColumnData::Int64(y)) => x@.len() == y@.len() && (0 <= r
                < x@.len() ==> x@[r] == y@[r]),
            (ColumnData::Int32(x), ColumnData::Int32(y)) => x@.len() == y@.len() && (0 <= r
                < x@.len() ==> x@[r] == y@[r]),
            (ColumnData::Double(x), ColumnData::Double(y)) => x@.len() == y@.len() && (0 <= r
                < x@.len() ==> x@[r] == y@[r]),
            (ColumnData::Float(x), ColumnData::Float(y)) => x@.len() == y@.len() && (0 <= r
                < x@.len() ==> x@[r] == y@[r]),
            (ColumnData::Boolean(x), ColumnData::Boolean(y)) => x@.len() == y@.len() && (0 <= r
                < x@.len() ==> x@[r] == y@[r]),
            (ColumnData::Text(x), ColumnData::Text(y)) => x@.len() == y@.len() && (0 <= r
                < x@.len() ==> x@[r] == y@[r]),
            _ => true,
        },
{
    law_values_keep_their_cells(a, r);
    law_values_keep_their_cells(b, r);
}

/// Each physical type has the reader of its own kind, and what the reader gives is
/// of that kind; byte arrays and legacy timestamps are read as text.
pub proof fn law_each_type_has_its_reader(data: ColumnData, physical_type: PhysicalType)
    ensures
        physical_type is Boolean ==> (data.reader() == reader_of(physical_type) <==> data is Boolean),
        physical_type is Int32 ==> (data.reader() == reader_of(physical_type) <==> data is Int32),
        physical_type is Int64 ==> (data.reader() == reader_of(physical_type) <==> data is Int64),
        physical_type is Float ==> (data.reader() == reader_of(physical_type) <==> data is Float),
        physical_type is Double ==> (data.reader() == reader_of(physical_type) <==> data is Double),
        physical_type is Int96 ==> (data.reader() == reader_of(physical_type) <==> data is Text),
        physical_type is ByteArray ==> (data.reader() == reader_of(physical_type) <==> data is Text),
        physical_type is FixedLenByteArray ==> (data.reader() == reader_of(physical_type)
            <==> data is Text),
        reader_of(PhysicalType::Boolean) == ColumnReader::Boolean,
        reader_of(PhysicalType::Int32) == ColumnReader::Int32,
        reader_of(PhysicalType::Int64) == ColumnReader::Int64,
        reader_of(PhysicalType::Float) == ColumnReader::Float,
        reader_of(PhysicalType::Double) == ColumnReader::Double,
        reader_of(PhysicalType::Int96) == ColumnReader::Text,
        reader_of(PhysicalType::ByteArray) == ColumnReader::Text,
        reader_of(PhysicalType::FixedLenByteArray) == ColumnReader::Text,
{
}

proof fn lemma_first_undecoded(
    columns: Seq<LeafColumn>,
    decoded: Seq<Result<ColumnData, String>>,
    n: nat,
) -> (c: int)
    requires
        n <= columns.len() == decoded.len(),
        loaded(columns, decoded, n) is Err,
    ensures
        0 <= c < n,
        decoded[c] matches Err(reason) && loaded(columns, decoded, n)->Err_0 == (
            columns[c].name@,
            reason@,
        ),
        forall|k: int| 0 <= k < c ==> (#[trigger] decoded[k]) is Ok,
    decreases n,
{
    if loaded(columns, decoded, (n - 1) as nat) is Err {
        lemma_first_undecoded(columns, decoded, (n - 1) as nat)
    } else {
        law_undecoded_column_is_an_error(columns, decoded, (n - 1) as nat);
        n - 1
    }
}

proof fn lemma_loaded_names(
    columns: Seq<LeafColumn>,
    decoded: Seq<Result<ColumnData, String>>,
    n: nat,
    name: Seq<char>,
)
    requires
        n <= columns.len() == decoded.len(),
        loaded(columns, decoded, n) is Ok,
    ensures
        loaded(columns, decoded, n)->Ok_0.contains_key(name) <==> named_among(
            columns,
            n as int,
            name,
        ),
    decreases n,
{
    if n > 0 {
        lemma_loaded_names(columns, decoded, (n - 1) as nat, name);
        if named_among(columns, n - 1, name) {
            let k = choose|k: int| 0 <= k < n - 1 && (#[trigger] columns[k]).name@ == name;
            assert(columns[k].name@ == name);
        }
        if columns[n - 1].name@ == name {
            assert(named_among(columns, n as int, name));
        }
        if named_among(columns, n as int, name) && columns[n - 1].name@ != name {
            let k = choose|k: int| 0 <= k < n && (#[trigger] columns[k]).name@ == name;
            assert(k < n - 1);
        }
    }
}

/// A row group whose columns all decoded becomes a batch of its rows, with a column
/// under each name that was asked for and no other, which holds the values of the
/// last column of that name.
pub proof fn law_a_row_group_becomes_a_batch(
    segment: RowGroupSegment,
    data: RowGroupData,
    out: Result<Batch, VmError>,
    c: int,
    name: Seq<char>,
)
    requires
        data.decoded@.len() == segment.columns@.len(),
        loads_to(segment, Some(data), out),
        forall|k: int| 0 <= k < data.decoded@.len() ==> (#[trigger] data.decoded@[k]) is Ok,
    ensures
        out matches Ok(batch) && batch.row_count() == data.num_rows && (batch.columns().contains_key(
            name,
        ) <==> exists|k: int|
            0 <= k < segment.columns@.len() && (#[trigger] segment.columns@[k]).name@ == name),
        0 <= c < segment.columns@.len() && (forall|k: int|
            c < k < segment.columns@.len() ==> (#[trigger] segment.columns@[k]).name@
                != segment.columns@[c].name@) ==> (out matches Ok(batch)
            && batch.columns()[segment.columns@[c].name@] == (data.decoded@[c]->Ok_0).values()),
{
    let columns = segment.columns@;
    law_undecoded_column_is_an_error(columns, data.decoded@, columns.len());
    lemma_loaded_names(columns, data.decoded@, columns.len(), name);
    if 0 <= c < columns.len() && (forall|k: int|
        c < k < columns.len() ==> (#[trigger] columns[k]).name@ != columns[c].name@) {
        assert(last_of_name(columns, c));
        law_loaded_columns_keep_their_values(columns, data.decoded@, c);
    }
}

/// A row group with a column that did not decode is refused: by the first such
/// column, under its name, with its row group and its own reason. So is a row group
/// that the file does not have.
pub proof fn law_a_load_failure_names_its_place(
    segment: RowGroupSegment,
    group: Option<RowGroupData>,
    out: Result<Batch, VmError>,
    c: int,
)
    requires
        loads_to(segment, group, out),
        group matches Some(data) ==> data.decoded@.len() == segment.columns@.len(),
    ensures
        group is None ==> (out matches Err(e) && e@ == (crate::error::VmErrorView::SegmentLoad {
            row_group: segment.row_group_index as nat,
            column: None,
            reason: "row group index out of range"@,
        })),
        group matches Some(data) ==> (0 <= c < data.decoded@.len() && data.decoded@[c] is Err && (
        forall|k: int| 0 <= k < c ==> (#[trigger] data.decoded@[k]) is Ok) ==> (out matches Err(e)
            && e@ == (crate::error::VmErrorView::SegmentLoad {
            row_group: segment.row_group_index as nat,
            column: Some(segment.columns@[c].name@),
            reason: (data.decoded@[c]->Err_0)@,
        }))),
{
    match group {
        Some(data) => {
            if 0 <= c < data.decoded@.len() && data.decoded@[c] is Err && (forall|k: int|
                0 <= k < c ==> (#[trigger] data.decoded@[k]) is Ok) {
                let columns = segment.columns@;
                law_undecoded_column_is_an_error(columns, data.decoded@, columns.len());
                let first = lemma_first_undecoded(columns, data.decoded@, columns.len());
                if first < c {
                    assert(data.decoded@[first] is Ok);
                } else if c < first {
                    assert(data.decoded@[c] is Ok);
                }
            }
        },
        None => {},
    }
}

/// A whole table grows by one row group at a time: each of its columns gets that
/// row group's values of the last column of its name behind what it has, and the
/// table gets as many rows as the row group has. A row group that does not load ends
/// it with that row group's error.
pub proof fn law_whole_table_grows_by_row_groups(
    columns: Seq<LeafColumn>,
    groups: Seq<Option<RowGroupData>>,
    n: nat,
    c: int,
)
    requires
        n < groups.len(),
        0 <= c < columns.len(),
        forall|k: int| c < k < columns.len() ==> (#[trigger] columns[k]).name@ != columns[c].name@,
        groups[n as int] matches Some(data) ==> data.decoded@.len() == columns.len(),
    ensures
        whole_table(columns, groups, 0) matches Ok(none) && none[columns[c].name@].len() == 0,
        total_rows(groups, 0) == 0,
        groups[n as int] matches Some(data) ==> total_rows(groups, n + 1) == total_rows(groups, n)
            + data.num_rows,
        whole_table(columns, groups, n) is Err ==> whole_table(columns, groups, n + 1)
            == whole_table(columns, groups, n),
        whole_table(columns, groups, n) is Ok && groups[n as int] is None ==> whole_table(
            columns,
            groups,
            n + 1,
        ) is Err,
        whole_table(columns, groups, n) matches Ok(before) ==> (groups[n as int] matches Some(data)
            ==> ((forall|k: int| 0 <= k < data.decoded@.len() ==> (#[trigger] data.decoded@[k]) is Ok)
            ==> (whole_table(columns, groups, n + 1) matches Ok(now) && now[columns[c].name@]
            == before[columns[c].name@] + (data.decoded@[c]->Ok_0).values()))),
{
    let name = columns[c].name@;
    assert(named_among(columns, columns.len() as int, name));
    assert(blank(columns).contains_key(name));
    if whole_table(columns, groups, n) is Ok {
        lemma_whole_table_names(columns, groups, n);
        match groups[n as int] {
            Some(data) => {
                if forall|k: int|
                    0 <= k < data.decoded@.len() ==> (#[trigger] data.decoded@[k]) is Ok {
                    assert(last_of_name(columns, c));
                    law_undecoded_column_is_an_error(columns, data.decoded@, columns.len());
                    law_loaded_columns_keep_their_values(columns, data.decoded@, c);
                }
            },
            None => {},
        }
    }
}

/// A whole table has a column under each name that was asked for, and under no
/// other.
pub proof fn law_whole_table_has_the_asked_columns(
    columns: Seq<LeafColumn>,
    groups: Seq<Option<RowGroupData>>,
    n: nat,
    name: Seq<char>,
)
    requires
        n <= groups.len(),
    ensures
        whole_table(columns, groups, n) matches Ok(table) ==> (table.contains_key(name)
            <==> exists|k: int| 0 <= k < columns.len() && (#[trigger] columns[k]).name@ == name),
{
    if whole_table(columns, groups, n) is Ok {
        lemma_whole_table_names(columns, groups, n);
        assert(whole_table(columns, groups, n)->Ok_0.contains_key(name) <==> named_among(
            columns,
            columns.len() as int,
            name,
        ));
    }
}

/// A whole table fails with what its first row group that does not load fails with,
/// under that row group's number.
pub proof fn law_whole_table_fails_as_its_row_group(
    columns: Vec<LeafColumn>,
    groups: Seq<Option<RowGroupData>>,
    n: usize,
    m: nat,
    out: Result<Batch, VmError>,
)
    requires
        n < m <= groups.len(),
        whole_table(columns@, groups, n as nat) is Ok,
        loads_to(RowGroupSegment { row_group_index: n, columns }, groups[n as int], out),
    ensures
        out matches Err(e) ==> whole_table(columns@, groups, m) == Err::<
            Map<Seq<char>, Seq<Value<u64>>>,
            crate::error::VmErrorView,
        >(e@),
        out is Ok ==> whole_table(columns@, groups, n as nat + 1) is Ok,
{
    if out is Err {
        lemma_whole_table_error_stays(columns@, groups, (n + 1) as nat, m);
    }
}

} // verus!
