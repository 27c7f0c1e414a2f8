//! A file's leaf columns, and the columns of a program resolved against them.

use crate::error::QueryError;
use vstd::prelude::*;

verus! {

/// How Parquet stores a leaf column.
#[derive(Debug, Clone, Copy, PartialEq, Eq, Structural)]
pub enum PhysicalType {
    Boolean,
    Int32,
    Int64,
    Int96,
    Float,
    Double,
    ByteArray,
    FixedLenByteArray,
}

/// One element of a file's flattened schema. A group has no physical type.
#[derive(Debug)]
pub struct SchemaElement {
    pub name: String,
    pub physical_type: Option<PhysicalType>,
}

/// A column to read: the name it goes by, its position in the file, its type.
#[derive(Debug)]
pub struct LeafColumn {
    pub name: String,
    pub index: usize,
    pub physical_type: PhysicalType,
}

/// A column name as the query wrote it, possibly qualified (`orders.id`), and
/// the bare column that it names (`id`).
#[derive(Debug)]
pub struct QualifiedName {
    pub name: String,
    pub column: String,
}

impl LeafColumn {
    /// The same column once more.
    pub fn copy(&self) -> (out: LeafColumn)
        ensures
            out == *self,
    {
        LeafColumn {
            name: self.name.clone(),
            index: self.index,
            physical_type: self.physical_type,
        }
    }
}

/// The leaf columns among the first `n` schema elements behind the root. A
/// leaf's index counts every element behind the root that stands before it.
pub open spec fn leaves_among(schema: Seq<SchemaElement>, n: nat) -> Seq<LeafColumn>
    decreases n,
{
    if n == 0 {
        Seq::empty()
    } else {
        let before = leaves_among(schema, (n - 1) as nat);
        let element = schema[n as int];
        match element.physical_type {
            Some(physical_type) => before.push(
                LeafColumn { name: element.name, index: (n - 1) as usize, physical_type },
            ),
            None => before,
        }
    }
}

/// The leaf columns of a schema, whose first element is the root.
pub open spec fn leaves_of(schema: Seq<SchemaElement>) -> Seq<LeafColumn> {
    if schema.len() == 0 {
        Seq::empty()
    } else {
        leaves_among(schema, (schema.len() - 1) as nat)
    }
}

/// The leaf that a bare column name stands for: the last one of that name.
pub open spec fn leaf_named(leaves: Seq<LeafColumn>, column: Seq<char>) -> Option<LeafColumn>
    decreases leaves.len(),
{
    if leaves.len() == 0 {
        None
    } else if leaves.last().name@ == column {
        Some(leaves.last())
    } else {
        leaf_named(leaves.drop_last(), column)
    }
}

/// The leaf's column, under the name that the query wrote.
pub open spec fn shown_as(leaf: LeafColumn, name: String) -> LeafColumn {
    LeafColumn { name, index: leaf.index, physical_type: leaf.physical_type }
}

/// The first `n` names resolved in order, or the first name among them that no leaf bears.
pub open spec fn resolved(leaves: Seq<LeafColumn>, names: Seq<QualifiedName>, n: nat) -> Result<
    Seq<LeafColumn>,
    Seq<char>,
>
    decreases n,
{
    if n == 0 {
        Ok(Seq::empty())
    } else {
        match resolved(leaves, names, (n - 1) as nat) {
            Err(name) => Err(name),
            Ok(columns) => match leaf_named(leaves, names[n - 1].column@) {
                Some(leaf) => Ok(columns.push(shown_as(leaf, names[n - 1].name))),
                None => Err(names[n - 1].name@),
            },
        }
    }
}

/// The outcome of [`resolve_columns`]: the resolved columns, or the error that
/// names the first unknown column.
pub open spec fn resolves_to(
    leaves: Seq<LeafColumn>,
    names: Seq<QualifiedName>,
    out: Result<Vec<LeafColumn>, QueryError>,
) -> bool {
    match resolved(leaves, names, names.len()) {
        Ok(columns) => out matches Ok(found) && found@ == columns,
        Err(name) => out matches Err(e) && e@ == crate::error::QueryErrorView::UnknownColumn(name),
    }
}

/// The leaf columns of a file's schema, in file order.
pub fn leaf_columns(schema: &[SchemaElement]) -> (leaves: Vec<LeafColumn>)
    ensures
        leaves@ == leaves_of(schema@),
{
    let mut leaves: Vec<LeafColumn> = Vec::new();
    if schema.len() == 0 {
        return leaves;
    }
    let mut i: usize = 1;
    while i < schema.len()
        invariant
            1 <= i <= schema@.len(),
            leaves@ == leaves_among(schema@, (i - 1) as nat),
        decreases schema@.len() - i,
    {
        match schema[i].physical_type {
            Some(physical_type) => {
                leaves.push(
                    LeafColumn { name: schema[i].name.clone(), index: i - 1, physical_type },
                );
            },
            None => {},
        }
        i = i + 1;
    }
    leaves
}

fn find_leaf(leaves: &[LeafColumn], column: &String) -> (at: Option<usize>)
    ensures
        match at {
            Some(i) => i < leaves@.len() && leaf_named(leaves@, column@) == Some(leaves@[i as int]),
            None => leaf_named(leaves@, column@) is None,
        },
{
    let mut i: usize = leaves.len();
    assert(leaves@.take(i as int) =~= leaves@);
    while i > 0
        invariant
            i <= leaves@.len(),
            leaf_named(leaves@, column@) == leaf_named(leaves@.take(i as int), column@),
        decreases i,
    {
        assert(leaves@.take(i as int).drop_last() =~= leaves@.take(i - 1));
        i = i - 1;
        if leaves[i].name == *column {
            return Some(i);
        }
    }
    None
}

/// Resolves names against a file's leaf columns, keeping each name as the query
/// wrote it.
pub fn resolve_columns(leaves: &[LeafColumn], names: &[QualifiedName]) -> (out: Result<
    Vec<LeafColumn>,
    QueryError,
>)
    ensures
        resolves_to(leaves@, names@, out),
{
    let mut columns: Vec<LeafColumn> = Vec::new();
    let mut i: usize = 0;
    while i < names.len()
        invariant
            i <= names@.len(),
            resolved(leaves@, names@, i as nat) == Ok::<Seq<LeafColumn>, Seq<char>>(columns@),
        decreases names@.len() - i,
    {
        match find_leaf(leaves, &names[i].column) {
            Some(k) => {
                columns.push(
                    LeafColumn {
                        name: names[i].name.clone(),
                        index: leaves[k].index,
                        physical_type: leaves[k].physical_type,
                    },
                );
            },
            None => {
                proof {
                    lemma_resolved_error_stays(leaves@, names@, (i + 1) as nat, names@.len());
                }
                return Err(QueryError::UnknownColumn(names[i].name.clone()));
            },
        }
        i = i + 1;
    }
    Ok(columns)
}

proof fn lemma_resolved_error_stays(
    leaves: Seq<LeafColumn>,
    names: Seq<QualifiedName>,
    n: nat,
    m: nat,
)
    requires
        n <= m,
        resolved(leaves, names, n) is Err,
    ensures
        resolved(leaves, names, m) == resolved(leaves, names, n),
    decreases m,
{
    if n < m {
        lemma_resolved_error_stays(leaves, names, n, (m - 1) as nat);
    }
}

/// A bare name stands for one of the file's leaves that bears it, and for none
/// only if no leaf bears it.
pub proof fn law_names_stand_for_leaves(leaves: Seq<LeafColumn>, column: Seq<char>)
    ensures
        match leaf_named(leaves, column) {
            Some(leaf) => leaves.contains(leaf) && leaf.name@ == column,
            None => forall|i: int| 0 <= i < leaves.len() ==> (#[trigger] leaves[i]).name@ != column,
        },
    decreases leaves.len(),
{
    if leaves.len() > 0 {
        if leaves.last().name@ != column {
            law_names_stand_for_leaves(leaves.drop_last(), column);
            let rest = leaves.drop_last();
            match leaf_named(leaves, column) {
                Some(leaf) => {
                    let k = choose|k: int| 0 <= k < rest.len() && rest[k] == leaf;
                    assert(leaves[k] == leaf);
                },
                None => {
                    assert forall|i: int| 0 <= i < leaves.len() implies (
                    #[trigger] leaves[i]).name@ != column by {
                        if i < leaves.len() - 1 {
                            assert(rest[i] == leaves[i]);
                        }
                    }
                },
            }
        }
    }
}

proof fn lemma_resolved_columns(leaves: Seq<LeafColumn>, names: Seq<QualifiedName>, n: nat)
    requires
        n <= names.len(),
    ensures
        match resolved(leaves, names, n) {
            Ok(columns) => columns.len() == n && forall|i: int|
                0 <= i < n ==> {
                    &&& leaf_named(leaves, (#[trigger] names[i]).column@) is Some
                    &&& columns[i] == shown_as(
                        leaf_named(leaves, names[i].column@)->0,
                        names[i].name,
                    )
                },
            Err(name) => exists|i: int|
                #![trigger names[i]]
                0 <= i < n && names[i].name@ == name && leaf_named(leaves, names[i].column@) is None
                    && forall|j: int|
                    0 <= j < i ==> leaf_named(leaves, (#[trigger] names[j]).column@) is Some,
        },
    decreases n,
{
    if n > 0 {
        lemma_resolved_columns(leaves, names, (n - 1) as nat);
        let last = names[n - 1];
    }
}

/// Resolving succeeds exactly when every name's column is a leaf of the file.
/// The resolved columns keep the names' order and spelling. A failure names the
/// first column that is unknown.
pub proof fn law_resolving_keeps_names(leaves: Seq<LeafColumn>, names: Seq<QualifiedName>)
    ensures
        match resolved(leaves, names, names.len()) {
            Ok(columns) => columns.len() == names.len() && forall|i: int|
                0 <= i < names.len() ==> {
                    &&& leaf_named(leaves, (#[trigger] names[i]).column@) is Some
                    &&& columns[i] == shown_as(
                        leaf_named(leaves, names[i].column@)->0,
                        names[i].name,
                    )
                },
            Err(name) => exists|i: int|
                #![trigger names[i]]
                0 <= i < names.len() && names[i].name@ == name && leaf_named(
                    leaves,
                    names[i].column@,
                ) is None && forall|j: int|
                    0 <= j < i ==> leaf_named(leaves, (#[trigger] names[j]).column@) is Some,
        },
{
    lemma_resolved_columns(leaves, names, names.len());
}

proof fn lemma_leaves_bounded(schema: Seq<SchemaElement>, n: nat)
    requires
        n < schema.len() <= usize::MAX,
    ensures
        forall|i: int|
            0 <= i < leaves_among(schema, n).len() ==> {
                let leaf = #[trigger] leaves_among(schema, n)[i];
                &&& leaf.index < n
                &&& schema[leaf.index + 1].name == leaf.name
                &&& schema[leaf.index + 1].physical_type == Some(leaf.physical_type)
            },
        forall|i: int, j: int|
            0 <= i < j < leaves_among(schema, n).len() ==> (#[trigger] leaves_among(schema, n)[i]).index
                < (#[trigger] leaves_among(schema, n)[j]).index,
    decreases n,
{
    if n > 0 {
        lemma_leaves_bounded(schema, (n - 1) as nat);
    }
}

/// Leaf columns come in file order, and a leaf's index is the position of its
/// schema element behind the root.
pub proof fn law_leaves_in_file_order(schema: Seq<SchemaElement>)
    requires
        schema.len() <= usize::MAX,
    ensures
        forall|i: int|
            0 <= i < leaves_of(schema).len() ==> {
                let leaf = #[trigger] leaves_of(schema)[i];
                &&& leaf.index + 1 < schema.len()
                &&& schema[leaf.index + 1].name == leaf.name
                &&& schema[leaf.index + 1].physical_type == Some(leaf.physical_type)
            },
        forall|i: int, j: int|
            0 <= i < j < leaves_of(schema).len() ==> (#[trigger] leaves_of(schema)[i]).index < (
            #[trigger] leaves_of(schema)[j]).index,
{
    if schema.len() > 0 {
        lemma_leaves_bounded(schema, (schema.len() - 1) as nat);
    }
}

proof fn lemma_every_leaf_listed(schema: Seq<SchemaElement>, n: nat, k: int)
    requires
        1 <= k <= n < schema.len() <= usize::MAX,
        schema[k].physical_type is Some,
    ensures
        exists|i: int|
            0 <= i < leaves_among(schema, n).len() && (#[trigger] leaves_among(schema, n)[i]).index
                == k - 1,
    decreases n,
{
    let all = leaves_among(schema, n);
    if k == n {
        assert(all[all.len() - 1].index == k - 1);
    } else {
        lemma_every_leaf_listed(schema, (n - 1) as nat, k);
        let before = leaves_among(schema, (n - 1) as nat);
        let i = choose|i: int| 0 <= i < before.len() && (#[trigger] before[i]).index == k - 1;
        assert(all[i] == before[i]);
    }
}

/// Every schema element behind the root that has a physical type is a leaf column,
/// under the position that it has behind the root.
pub proof fn law_every_leaf_is_listed(schema: Seq<SchemaElement>, k: int)
    requires
        schema.len() <= usize::MAX,
        1 <= k < schema.len(),
        schema[k].physical_type is Some,
    ensures
        exists|i: int|
            0 <= i < leaves_of(schema).len() && (#[trigger] leaves_of(schema)[i]).index == k - 1
                && leaves_of(schema)[i].name == schema[k].name && Some(
                leaves_of(schema)[i].physical_type,
            ) == schema[k].physical_type,
{
    let n = (schema.len() - 1) as nat;
    lemma_every_leaf_listed(schema, n, k);
    lemma_leaves_bounded(schema, n);
    let all = leaves_of(schema);
    let i = choose|i: int| 0 <= i < all.len() && (#[trigger] all[i]).index == k - 1;
    assert(schema[all[i].index + 1].name == all[i].name);
}

proof fn lemma_leaf_named_is_last(leaves: Seq<LeafColumn>, column: Seq<char>) -> (at: int)
    requires
        leaf_named(leaves, column) is Some,
    ensures
        0 <= at < leaves.len(),
        leaf_named(leaves, column) == Some(leaves[at]),
        leaves[at].name@ == column,
        forall|k: int| at < k < leaves.len() ==> (#[trigger] leaves[k]).name@ != column,
    decreases leaves.len(),
{
    if leaves.last().name@ == column {
        leaves.len() - 1
    } else {
        let rest = leaves.drop_last();
        let at = lemma_leaf_named_is_last(rest, column);
        assert forall|k: int| at < k < leaves.len() implies (#[trigger] leaves[k]).name@
            != column by {
            if k < leaves.len() - 1 {
                assert(rest[k] == leaves[k]);
            }
        }
        at
    }
}

/// `k` is where a schema has its last leaf called `column`.
pub open spec fn last_leaf_at(schema: Seq<SchemaElement>, column: Seq<char>, k: int) -> bool {
    &&& 1 <= k < schema.len()
    &&& schema[k].physical_type is Some
    &&& schema[k].name@ == column
    &&& forall|j: int|
        k < j < schema.len() && (#[trigger] schema[j]).physical_type is Some ==> schema[j].name@
            != column
}

/// No leaf of a schema is called `column`.
pub open spec fn no_leaf_named(schema: Seq<SchemaElement>, column: Seq<char>) -> bool {
    forall|j: int|
        1 <= j < schema.len() && (#[trigger] schema[j]).physical_type is Some ==> schema[j].name@
            != column
}

proof fn lemma_leaf_of_schema(schema: Seq<SchemaElement>, column: Seq<char>)
    requires
        schema.len() <= usize::MAX,
    ensures
        match leaf_named(leaves_of(schema), column) {
            Some(leaf) => last_leaf_at(schema, column, leaf.index + 1) && Some(leaf.physical_type)
                == schema[leaf.index + 1].physical_type,
            None => no_leaf_named(schema, column),
        },
{
    let all = leaves_of(schema);
    law_leaves_in_file_order(schema);
    law_names_stand_for_leaves(all, column);
    match leaf_named(all, column) {
        Some(leaf) => {
            let at = lemma_leaf_named_is_last(all, column);
            assert(all[at] == leaf);
            assert forall|j: int|
                leaf.index + 1 < j < schema.len() && (
                #[trigger] schema[j]).physical_type is Some implies schema[j].name@ != column by {
                law_every_leaf_is_listed(schema, j);
                let i = choose|i: int|
                    0 <= i < all.len() && (#[trigger] all[i]).index == j - 1 && all[i].name
                        == schema[j].name && Some(all[i].physical_type) == schema[j].physical_type;
                if i < at {
                    assert(all[i].index < all[at].index);
                }
                assert(i != at);
                assert(all[i].name@ != column);
            }
        },
        None => {
            assert forall|j: int|
                1 <= j < schema.len() && (
                #[trigger] schema[j]).physical_type is Some implies schema[j].name@ != column by {
                law_every_leaf_is_listed(schema, j);
                let i = choose|i: int|
                    0 <= i < all.len() && (#[trigger] all[i]).index == j - 1 && all[i].name
                        == schema[j].name && Some(all[i].physical_type) == schema[j].physical_type;
                assert(all[i].name@ != column);
            }
        },
    }
}

/// Resolving names against a file's own schema: each name, spelled as it was, stands
/// for the last leaf that its bare column names, by that leaf's position and type.
/// It fails on the first name whose column is no leaf of the file.
pub proof fn law_names_resolve_to_schema_leaves(
    schema: Seq<SchemaElement>,
    names: Seq<QualifiedName>,
)
    requires
        schema.len() <= usize::MAX,
    ensures
        match resolved(leaves_of(schema), names, names.len()) {
            Ok(columns) => columns.len() == names.len() && forall|i: int|
                0 <= i < names.len() ==> {
                    &&& (#[trigger] columns[i]).name == names[i].name
                    &&& last_leaf_at(schema, names[i].column@, columns[i].index + 1)
                    &&& Some(columns[i].physical_type) == schema[columns[i].index
                        + 1].physical_type
                },
            Err(name) => exists|i: int|
                0 <= i < names.len() && (#[trigger] names[i]).name@ == name && no_leaf_named(
                    schema,
                    names[i].column@,
                ) && forall|j: int|
                    0 <= j < i ==> !no_leaf_named(schema, (#[trigger] names[j]).column@),
        },
{
    let leaves = leaves_of(schema);
    law_resolving_keeps_names(leaves, names);
    match resolved(leaves, names, names.len()) {
        Ok(columns) => {
            assert forall|i: int| 0 <= i < names.len() implies {
                &&& (#[trigger] columns[i]).name == names[i].name
                &&& last_leaf_at(schema, names[i].column@, columns[i].index + 1)
                &&& Some(columns[i].physical_type) == schema[columns[i].index + 1].physical_type
            } by {
                lemma_leaf_of_schema(schema, names[i].column@);
                assert(leaf_named(leaves, names[i].column@) is Some);
            }
        },
        Err(name) => {
            let i = choose|i: int|
                #![trigger names[i]]
                0 <= i < names.len() && names[i].name@ == name && leaf_named(
                    leaves,
                    names[i].column@,
                ) is None && forall|j: int|
                    0 <= j < i ==> leaf_named(leaves, (#[trigger] names[j]).column@) is Some;
            lemma_leaf_of_schema(schema, names[i].column@);
            assert forall|j: int| 0 <= j < i implies !no_leaf_named(
                schema,
                (#[trigger] names[j]).column@,
            ) by {
                lemma_leaf_of_schema(schema, names[j].column@);
                let leaf = leaf_named(leaves, names[j].column@)->0;
                assert(schema[leaf.index + 1].physical_type is Some);
            }
        },
    }
}

/// Of the leaves that bear a name the last one counts, wherever it stands, and under
/// another spelling it keeps its position and its type.
pub proof fn law_the_last_leaf_of_a_name_counts(
    leaves: Seq<LeafColumn>,
    column: Seq<char>,
    k: int,
    spelled: String,
)
    requires
        0 <= k < leaves.len(),
        leaves[k].name@ == column,
        forall|j: int| k < j < leaves.len() ==> (#[trigger] leaves[j]).name@ != column,
    ensures
        leaf_named(leaves, column) == Some(leaves[k]),
        shown_as(leaves[k], spelled).name == spelled,
        shown_as(leaves[k], spelled).index == leaves[k].index,
        shown_as(leaves[k], spelled).physical_type == leaves[k].physical_type,
{
    law_names_stand_for_leaves(leaves, column);
    if leaf_named(leaves, column) is None {
        assert(leaves[k].name@ != column);
    }
    let at = lemma_leaf_named_is_last(leaves, column);
    if at < k {
        assert(leaves[k].name@ != column);
    } else if k < at {
        assert(leaves[at].name@ != column);
    }
}

} // verus!
