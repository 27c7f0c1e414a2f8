//! The plan tree of an `EXPLAIN QUERY PLAN`, drawn with branch markers.

use vstd::prelude::*;
use vstd::string::*;

verus! {

/// One step of a query plan. A node whose `parent` is its own `id` is a root.
#[derive(Debug)]
pub struct PlanNode {
    pub id: u32,
    pub parent: u32,
    pub detail: String,
}

/// `node` hangs directly below the node numbered `parent`.
pub open spec fn hangs_below(node: PlanNode, parent: u32) -> bool {
    node.id != node.parent && node.parent == parent
}

/// The nodes directly below `parent`, in plan order.
pub open spec fn children(nodes: Seq<PlanNode>, parent: u32) -> Seq<PlanNode> {
    nodes.filter(|n: PlanNode| hangs_below(n, parent))
}

/// The descent from `parent` ends within `depth` levels on every branch.
pub open spec fn settles(nodes: Seq<PlanNode>, parent: u32, depth: nat) -> bool
    decreases depth,
{
    depth > 0 && forall|i: int|
        0 <= i < nodes.len() && hangs_below(#[trigger] nodes[i], parent) ==> settles(
            nodes,
            nodes[i].id,
            (depth - 1) as nat,
        )
}

/// The descent from the plan's first node ends on every branch: no node below
/// it is its own ancestor. A plan without nodes has no descent.
pub open spec fn finite_plan(nodes: Seq<PlanNode>) -> bool {
    nodes.len() > 0 ==> exists|depth: nat| settles(nodes, nodes[0].id, depth)
}

/// The marker in front of a node, the last of its siblings or not.
pub open spec fn branch(last: bool) -> Seq<char> {
    if last {
        "└── "@
    } else {
        "├── "@
    }
}

/// What the lines below a node add to its prefix.
pub open spec fn indent(last: bool) -> Seq<char> {
    if last {
        "    "@
    } else {
        "│   "@
    }
}

/// The lines of the first `n` of the sibling nodes `kids`, each followed by the
/// lines of what hangs below it, at most `depth` levels in all.
pub open spec fn siblings_text(
    nodes: Seq<PlanNode>,
    kids: Seq<PlanNode>,
    n: nat,
    prefix: Seq<char>,
    depth: nat,
) -> Seq<char>
    decreases depth, n,
{
    if depth == 0 || n == 0 {
        Seq::empty()
    } else {
        let kid = kids[n - 1];
        let last = n == kids.len();
        let below = children(nodes, kid.id);
        siblings_text(nodes, kids, (n - 1) as nat, prefix, depth) + prefix + branch(last)
            + kid.detail@ + "\n"@ + siblings_text(
            nodes,
            below,
            below.len(),
            prefix + indent(last),
            (depth - 1) as nat,
        )
    }
}

/// The lines of all that hangs below `parent`, at most `depth` levels of it.
pub open spec fn tree_text(nodes: Seq<PlanNode>, parent: u32, prefix: Seq<char>, depth: nat) -> Seq<
    char,
> {
    siblings_text(
        nodes,
        children(nodes, parent),
        children(nodes, parent).len(),
        prefix,
        depth,
    )
}

/// The drawing of a plan: the first node's line, then the tree below it. No
/// branch of a finite plan is longer than the plan has nodes.
pub open spec fn plan_text(nodes: Seq<PlanNode>) -> Seq<char> {
    if nodes.len() == 0 {
        Seq::empty()
    } else {
        nodes[0].detail@ + "\n"@ + tree_text(nodes, nodes[0].id, Seq::empty(), nodes.len() + 1)
    }
}

/// A descent that ends within `depth` levels ends within more of them.
pub proof fn lemma_settles_deeper(nodes: Seq<PlanNode>, parent: u32, depth: nat, deeper: nat)
    requires
        settles(nodes, parent, depth),
        depth <= deeper,
    ensures
        settles(nodes, parent, deeper),
    decreases depth,
{
    assert forall|i: int|
        0 <= i < nodes.len() && hangs_below(#[trigger] nodes[i], parent) implies settles(
        nodes,
        nodes[i].id,
        (deeper - 1) as nat,
    ) by {
        lemma_settles_deeper(nodes, nodes[i].id, (depth - 1) as nat, (deeper - 1) as nat);
    }
}

/// The positions of the nodes from which the descent ends within `depth` levels.
spec fn settled(nodes: Seq<PlanNode>, depth: nat) -> Set<int> {
    Set::new(|i: int| 0 <= i < nodes.len() && settles(nodes, nodes[i].id, depth))
}

proof fn lemma_settled_finite(nodes: Seq<PlanNode>, depth: nat)
    ensures
        settled(nodes, depth).finite(),
        settled(nodes, depth).len() <= nodes.len(),
        settled(nodes, depth).subset_of(settled(nodes, depth + 1)),
{
    let all = vstd::set_lib::set_int_range(0, nodes.len() as int);
    vstd::set_lib::lemma_int_range(0, nodes.len() as int);
    vstd::set_lib::lemma_len_subset(settled(nodes, depth), all);
    assert forall|i: int| settled(nodes, depth).contains(i) implies settled(
        nodes,
        depth + 1,
    ).contains(i) by {
        lemma_settles_deeper(nodes, nodes[i].id, depth, depth + 1);
    }
}

/// Once a further level settles no further node, none does.
proof fn lemma_settled_stable(nodes: Seq<PlanNode>, depth: nat, deeper: nat)
    requires
        settled(nodes, depth) == settled(nodes, depth + 1),
        depth <= deeper,
    ensures
        settled(nodes, deeper) == settled(nodes, depth),
    decreases deeper,
{
    if depth < deeper {
        let before = (deeper - 1) as nat;
        lemma_settled_stable(nodes, depth, before);
        assert forall|i: int| settled(nodes, deeper).contains(i) implies settled(
            nodes,
            depth + 1,
        ).contains(i) by {
            assert forall|k: int|
                0 <= k < nodes.len() && hangs_below(#[trigger] nodes[k], nodes[i].id) implies settles(
                nodes,
                nodes[k].id,
                depth,
            ) by {
                assert(settles(nodes, nodes[k].id, before));
                assert(settled(nodes, before).contains(k));
                assert(settled(nodes, depth).contains(k));
            }
        }
        assert forall|i: int| settled(nodes, depth).contains(i) implies settled(
            nodes,
            deeper,
        ).contains(i) by {
            lemma_settles_deeper(nodes, nodes[i].id, depth, deeper);
        }
        assert(settled(nodes, deeper) =~= settled(nodes, depth));
    }
}

/// Either each of the first `depth` levels settles a node more, or one of them settles none.
proof fn lemma_settled_grows(nodes: Seq<PlanNode>, depth: nat)
    ensures
        settled(nodes, depth).len() >= depth || exists|d: nat|
            d < depth && settled(nodes, d) == #[trigger] settled(nodes, d + 1),
    decreases depth,
{
    if depth > 0 {
        let before = (depth - 1) as nat;
        lemma_settled_grows(nodes, before);
        lemma_settled_finite(nodes, before);
        lemma_settled_finite(nodes, depth);
        if settled(nodes, before).len() >= before {
            if settled(nodes, before) == settled(nodes, before + 1) {
            } else {
                vstd::set_lib::lemma_len_subset(settled(nodes, before), settled(nodes, depth));
                if settled(nodes, before).len() == settled(nodes, depth).len() {
                    vstd::set_lib::lemma_subset_equality(
                        settled(nodes, before),
                        settled(nodes, depth),
                    );
                }
            }
        }
    }
}

/// What settles at all settles within as many levels as there are nodes.
proof fn lemma_settled_within_len(nodes: Seq<PlanNode>, depth: nat)
    ensures
        settled(nodes, depth).subset_of(settled(nodes, nodes.len())),
{
    let n = nodes.len();
    if depth <= n {
        assert forall|i: int| settled(nodes, depth).contains(i) implies settled(nodes, n).contains(
            i,
        ) by {
            lemma_settles_deeper(nodes, nodes[i].id, depth, n);
        }
    } else {
        lemma_settled_grows(nodes, n + 1);
        lemma_settled_finite(nodes, n + 1);
        let d = choose|d: nat|
            d < n + 1 && settled(nodes, d) == #[trigger] settled(nodes, d + 1);
        lemma_settled_stable(nodes, d, n);
        lemma_settled_stable(nodes, d, depth);
    }
}

/// No branch below a node is longer than the plan has nodes, if all of them end.
pub proof fn lemma_settles_within_len(nodes: Seq<PlanNode>, parent: u32, depth: nat)
    requires
        settles(nodes, parent, depth),
    ensures
        settles(nodes, parent, nodes.len() + 1),
{
    let before = (depth - 1) as nat;
    lemma_settled_within_len(nodes, before);
    assert forall|i: int|
        0 <= i < nodes.len() && hangs_below(#[trigger] nodes[i], parent) implies settles(
        nodes,
        nodes[i].id,
        nodes.len(),
    ) by {
        assert(settled(nodes, before).contains(i));
        assert(settled(nodes, nodes.len()).contains(i));
    }
}

/// A deeper look at a tree that ends within `depth` levels draws the same lines.
proof fn lemma_text_settles(
    nodes: Seq<PlanNode>,
    kids: Seq<PlanNode>,
    n: nat,
    prefix: Seq<char>,
    depth: nat,
    deeper: nat,
)
    requires
        0 < depth <= deeper,
        n <= kids.len(),
        forall|i: int|
            0 <= i < kids.len() ==> settles(nodes, (#[trigger] kids[i]).id, (depth - 1) as nat),
    ensures
        siblings_text(nodes, kids, n, prefix, depth) == siblings_text(
            nodes,
            kids,
            n,
            prefix,
            deeper,
        ),
    decreases depth, n,
{
    if n > 0 {
        lemma_text_settles(nodes, kids, (n - 1) as nat, prefix, depth, deeper);
        let kid = kids[n - 1];
        let below = children(nodes, kid.id);
        assert(settles(nodes, kid.id, (depth - 1) as nat));
        lemma_children_settle(nodes, kid.id, (depth - 1) as nat);
        lemma_text_settles(
            nodes,
            below,
            below.len(),
            prefix + indent(n == kids.len()),
            (depth - 1) as nat,
            (deeper - 1) as nat,
        );
    }
}

proof fn lemma_children_settle(nodes: Seq<PlanNode>, parent: u32, depth: nat)
    requires
        settles(nodes, parent, depth),
    ensures
        forall|i: int|
            0 <= i < children(nodes, parent).len() ==> settles(
                nodes,
                (#[trigger] children(nodes, parent)[i]).id,
                (depth - 1) as nat,
            ),
{
    broadcast use vstd::seq_lib::group_filter_ensures;

    let pred = |n: PlanNode| hangs_below(n, parent);
    assert forall|i: int| 0 <= i < children(nodes, parent).len() implies settles(
        nodes,
        (#[trigger] children(nodes, parent)[i]).id,
        (depth - 1) as nat,
    ) by {
        let kid = children(nodes, parent)[i];
        nodes.lemma_filter_contains_rev(pred, kid);
        let k = choose|k: int| 0 <= k < nodes.len() && nodes[k] == kid;
        assert(hangs_below(nodes[k], parent));
    }
}

/// The drawing of what hangs below a node is the same for every number of
/// levels within which the descent from it ends.
pub proof fn law_tree_text_is_whole(
    nodes: Seq<PlanNode>,
    parent: u32,
    prefix: Seq<char>,
    depth: nat,
    deeper: nat,
)
    requires
        settles(nodes, parent, depth),
        depth <= deeper,
    ensures
        tree_text(nodes, parent, prefix, depth) == tree_text(nodes, parent, prefix, deeper),
{
    lemma_children_settle(nodes, parent, depth);
    lemma_text_settles(
        nodes,
        children(nodes, parent),
        children(nodes, parent).len(),
        prefix,
        depth,
        deeper,
    );
}

proof fn lemma_rising_settles(nodes: Seq<PlanNode>, parent: u32)
    requires
        forall|i: int|
            0 <= i < nodes.len() ==> (#[trigger] nodes[i]).parent <= nodes[i].id,
    ensures
        settles(nodes, parent, (0x1_0000_0000 - parent) as nat),
    decreases 0x1_0000_0000 - parent,
{
    let depth = (0x1_0000_0000 - parent) as nat;
    assert forall|i: int|
        0 <= i < nodes.len() && hangs_below(#[trigger] nodes[i], parent) implies settles(
        nodes,
        nodes[i].id,
        (depth - 1) as nat,
    ) by {
        lemma_rising_settles(nodes, nodes[i].id);
        lemma_settles_deeper(
            nodes,
            nodes[i].id,
            (0x1_0000_0000 - nodes[i].id) as nat,
            (depth - 1) as nat,
        );
    }
}

/// A plan whose nodes are numbered from the root down, each node above its
/// children, is finite.
pub proof fn law_numbered_plan_is_finite(nodes: Seq<PlanNode>)
    requires
        forall|i: int|
            0 <= i < nodes.len() ==> (#[trigger] nodes[i]).parent <= nodes[i].id,
    ensures
        finite_plan(nodes),
{
    if nodes.len() > 0 {
        lemma_rising_settles(nodes, nodes[0].id);
    }
}

fn all_settled(nodes: &[PlanNode], done: &Vec<bool>, parent: u32, Ghost(depth): Ghost<nat>) -> (yes:
    bool)
    requires
        done.len() == nodes@.len(),
        forall|i: int| 0 <= i < nodes@.len() ==> done[i] == settles(nodes@, nodes@[i].id, depth),
    ensures
        yes == settles(nodes@, parent, depth + 1),
{
    let mut i: usize = 0;
    while i < nodes.len()
        invariant
            i <= nodes@.len() == done.len(),
            forall|k: int|
                0 <= k < nodes@.len() ==> done[k] == settles(nodes@, nodes@[k].id, depth),
            forall|k: int|
                0 <= k < i && hangs_below(#[trigger] nodes@[k], parent) ==> settles(
                    nodes@,
                    nodes@[k].id,
                    depth,
                ),
        decreases nodes@.len() - i,
    {
        if nodes[i].id != nodes[i].parent && nodes[i].parent == parent && !done[i] {
            assert(hangs_below(nodes@[i as int], parent));
            assert(!settles(nodes@, nodes@[i as int].id, depth));
            return false;
        }
        i = i + 1;
    }
    true
}

/// Whether the descent from the plan's first node ends on every branch.
pub fn is_finite_plan(nodes: &[PlanNode]) -> (yes: bool)
    ensures
        yes == finite_plan(nodes@),
{
    if nodes.len() == 0 {
        return true;
    }
    let mut done: Vec<bool> = Vec::new();
    while done.len() < nodes.len()
        invariant
            done.len() <= nodes@.len(),
            forall|i: int| 0 <= i < done.len() ==> !done[i],
        decreases nodes@.len() - done.len(),
    {
        done.push(false);
    }
    let mut level: usize = 0;
    while level < nodes.len()
        invariant
            level <= nodes@.len() == done.len(),
            forall|i: int|
                0 <= i < nodes@.len() ==> done[i] == settles(nodes@, nodes@[i].id, level as nat),
        decreases nodes@.len() - level,
    {
        let mut next: Vec<bool> = Vec::new();
        while next.len() < nodes.len()
            invariant
                next.len() <= nodes@.len() == done.len(),
                forall|i: int|
                    0 <= i < nodes@.len() ==> done[i] == settles(
                        nodes@,
                        nodes@[i].id,
                        level as nat,
                    ),
                forall|i: int|
                    0 <= i < next.len() ==> next[i] == settles(
                        nodes@,
                        nodes@[i].id,
                        level as nat + 1,
                    ),
            decreases nodes@.len() - next.len(),
        {
            let i: usize = next.len();
            let yes = all_settled(nodes, &done, nodes[i].id, Ghost(level as nat));
            next.push(yes);
        }
        done = next;
        level = level + 1;
    }
    let yes = all_settled(nodes, &done, nodes[0].id, Ghost(level as nat));
    proof {
        if exists|depth: nat| settles(nodes@, nodes@[0].id, depth) {
            let depth = choose|depth: nat| settles(nodes@, nodes@[0].id, depth);
            lemma_settles_within_len(nodes@, nodes@[0].id, depth);
        }
    }
    yes
}

fn child_positions(nodes: &[PlanNode], parent: u32) -> (kids: Vec<usize>)
    ensures
        forall|i: int| 0 <= i < kids.len() ==> (#[trigger] kids[i]) < nodes@.len(),
        kids@.map_values(|k: usize| nodes@[k as int]) == children(nodes@, parent),
{
    let ghost pred = |n: PlanNode| hangs_below(n, parent);
    let mut kids: Vec<usize> = Vec::new();
    let mut i: usize = 0;
    assert(nodes@.take(0) =~= Seq::empty());
    reveal(Seq::filter);
    assert(kids@.map_values(|k: usize| nodes@[k as int]) =~= nodes@.take(0).filter(pred));
    while i < nodes.len()
        invariant
            i <= nodes@.len(),
            pred == |n: PlanNode| hangs_below(n, parent),
            forall|k: int| 0 <= k < kids.len() ==> (#[trigger] kids[k]) < nodes@.len(),
            kids@.map_values(|k: usize| nodes@[k as int]) == nodes@.take(i as int).filter(pred),
        decreases nodes@.len() - i,
    {
        reveal(Seq::filter);
        let ghost before = kids@.map_values(|k: usize| nodes@[k as int]);
        assert(nodes@.take(i + 1).drop_last() =~= nodes@.take(i as int));
        assert(nodes@.take(i + 1).last() == nodes@[i as int]);
        if nodes[i].id != nodes[i].parent && nodes[i].parent == parent {
            kids.push(i);
            assert(kids@.map_values(|k: usize| nodes@[k as int]) =~= before.push(
                nodes@[i as int],
            ));
        }
        i = i + 1;
    }
    assert(nodes@.take(nodes@.len() as int) =~= nodes@);
    kids
}

fn format_children(
    out: &mut String,
    nodes: &[PlanNode],
    parent: u32,
    prefix: &str,
    Ghost(depth): Ghost<nat>,
)
    requires
        settles(nodes@, parent, depth),
    ensures
        final(out)@ == old(out)@ + tree_text(nodes@, parent, prefix@, depth),
    decreases depth,
{
    let kids = child_positions(nodes, parent);
    let ghost below = children(nodes@, parent);
    proof {
        lemma_children_settle(nodes@, parent, depth);
    }
    let ghost start = out@;
    let mut i: usize = 0;
    assert(out@ =~= start + siblings_text(nodes@, below, 0, prefix@, depth));
    while i < kids.len()
        invariant
            i <= kids.len(),
            depth > 0,
            below == kids@.map_values(|k: usize| nodes@[k as int]),
            forall|k: int| 0 <= k < kids.len() ==> (#[trigger] kids[k]) < nodes@.len(),
            forall|k: int|
                0 <= k < below.len() ==> settles(
                    nodes@,
                    (#[trigger] below[k]).id,
                    (depth - 1) as nat,
                ),
            out@ == start + siblings_text(nodes@, below, i as nat, prefix@, depth),
        decreases kids.len() - i,
    {
        let node = &nodes[kids[i]];
        assert(below[i as int] == *node);
        let is_last = i == kids.len() - 1;
        out.append(prefix);
        out.append(if is_last {
            "└── "
        } else {
            "├── "
        });
        out.append(node.detail.as_str());
        out.append("\n");
        let child_prefix = prefix.to_string().concat(
            if is_last {
                "    "
            } else {
                "│   "
            },
        );
        format_children(
            out,
            nodes,
            node.id,
            child_prefix.as_str(),
            Ghost((depth - 1) as nat),
        );
        i = i + 1;
        assert(out@ =~= start + siblings_text(nodes@, below, i as nat, prefix@, depth));
    }
}

/// Draws a plan as a tree, e.g.:
/// ```text
/// QUERY PLAN
/// ├── SCAN events (3 row groups, ~1200000 rows)
/// │   └── LOAD COLUMNS: region, amount
/// └── EMIT: region
/// ```
/// A plan that is not finite has no drawing; [`is_finite_plan`] tells.
pub fn format_plan(nodes: &[PlanNode]) -> (out: String)
    requires
        finite_plan(nodes@),
    ensures
        out@ == plan_text(nodes@),
{
    let mut out = String::new();
    if nodes.len() == 0 {
        return out;
    }
    proof {
        let depth = choose|depth: nat| settles(nodes@, nodes@[0].id, depth);
        lemma_settles_within_len(nodes@, nodes@[0].id, depth);
        reveal_strlit("");
        assert(""@ =~= Seq::empty());
    }
    out.append(nodes[0].detail.as_str());
    out.append("\n");
    format_children(&mut out, nodes, nodes[0].id, "", Ghost((nodes@.len() + 1) as nat));
    assert(out@ =~= plan_text(nodes@));
    out
}

/// `at` lists the positions of all nodes whose parent is `parent`, roots left out,
/// in plan order.
pub open spec fn positions_below(nodes: Seq<PlanNode>, parent: u32, at: Seq<int>) -> bool {
    &&& forall|j: int, k: int| 0 <= j < k < at.len() ==> #[trigger] at[j] < #[trigger] at[k]
    &&& forall|k: int|
        0 <= k < at.len() ==> 0 <= #[trigger] at[k] < nodes.len() && nodes[at[k]].id
            != nodes[at[k]].parent && nodes[at[k]].parent == parent
    &&& forall|i: int|
        0 <= i < nodes.len() && (#[trigger] nodes[i]).id != nodes[i].parent && nodes[i].parent
            == parent ==> at.contains(i)
}

/// The lines of the first `n` of the nodes at the positions `at`, each with what is
/// drawn below it.
pub open spec fn lines_at(
    nodes: Seq<PlanNode>,
    at: Seq<int>,
    n: nat,
    prefix: Seq<char>,
    depth: nat,
) -> Seq<char>
    decreases n,
{
    if n == 0 || depth == 0 {
        Seq::empty()
    } else if n == at.len() {
        lines_at(nodes, at, (n - 1) as nat, prefix, depth) + prefix + "└── "@
            + nodes[at[n - 1]].detail@ + "\n"@ + tree_text(
            nodes,
            nodes[at[n - 1]].id,
            prefix + "    "@,
            (depth - 1) as nat,
        )
    } else {
        lines_at(nodes, at, (n - 1) as nat, prefix, depth) + prefix + "├── "@
            + nodes[at[n - 1]].detail@ + "\n"@ + tree_text(
            nodes,
            nodes[at[n - 1]].id,
            prefix + "│   "@,
            (depth - 1) as nat,
        )
    }
}

proof fn lemma_children_at(nodes: Seq<PlanNode>, parent: u32, at: Seq<int>)
    requires
        positions_below(nodes, parent, at),
    ensures
        children(nodes, parent) == at.map_values(|i: int| nodes[i]),
    decreases nodes.len(),
{
    reveal(Seq::filter);
    let kids = at.map_values(|i: int| nodes[i]);
    if nodes.len() == 0 {
        if at.len() > 0 {
            assert(0 <= at[0] < nodes.len());
        }
        assert(children(nodes, parent) =~= kids);
    } else {
        let front = nodes.drop_last();
        let last = nodes.len() - 1;
        assert(forall|i: int| 0 <= i < front.len() ==> front[i] == #[trigger] nodes[i]);
        if nodes[last].id != nodes[last].parent && nodes[last].parent == parent {
            assert(at.contains(last));
            let k = choose|k: int| 0 <= k < at.len() && at[k] == last;
            if k < at.len() - 1 {
                assert(at[k] < at[at.len() - 1]);
                assert(at[at.len() - 1] < nodes.len());
            }
            let less = at.drop_last();
            assert forall|j: int| 0 <= j < less.len() implies 0 <= #[trigger] less[j] < front.len()
                && front[less[j]].id != front[less[j]].parent && front[less[j]].parent
                == parent by {
                assert(at[j] < at[at.len() - 1]);
                assert(0 <= at[j] < nodes.len());
            }
            assert forall|i: int|
                0 <= i < front.len() && (#[trigger] front[i]).id != front[i].parent
                    && front[i].parent == parent implies less.contains(i) by {
                assert(nodes[i].id != nodes[i].parent);
                assert(at.contains(i));
                let j = choose|j: int| 0 <= j < at.len() && at[j] == i;
                assert(j < at.len() - 1);
                assert(less[j] == i);
            }
            assert(positions_below(front, parent, less));
            lemma_children_at(front, parent, less);
            assert(kids =~= less.map_values(|i: int| front[i]).push(nodes[last]));
        } else {
            assert forall|j: int| 0 <= j < at.len() implies 0 <= #[trigger] at[j] < front.len()
                && front[at[j]].id != front[at[j]].parent && front[at[j]].parent == parent by {
                assert(0 <= at[j] < nodes.len());
                assert(at[j] != last);
            }
            assert forall|i: int|
                0 <= i < front.len() && (#[trigger] front[i]).id != front[i].parent
                    && front[i].parent == parent implies at.contains(i) by {
                assert(nodes[i].id != nodes[i].parent);
            }
            assert(positions_below(front, parent, at));
            lemma_children_at(front, parent, at);
            assert(kids =~= at.map_values(|i: int| front[i]));
        }
    }
}

proof fn lemma_lines_at(
    nodes: Seq<PlanNode>,
    parent: u32,
    at: Seq<int>,
    n: nat,
    prefix: Seq<char>,
    depth: nat,
)
    requires
        positions_below(nodes, parent, at),
        n <= at.len(),
    ensures
        siblings_text(nodes, children(nodes, parent), n, prefix, depth) == lines_at(
            nodes,
            at,
            n,
            prefix,
            depth,
        ),
    decreases n,
{
    lemma_children_at(nodes, parent, at);
    if n > 0 && depth > 0 {
        lemma_lines_at(nodes, parent, at, (n - 1) as nat, prefix, depth);
        assert(children(nodes, parent)[n - 1] == nodes[at[n - 1]]);
    }
}

/// Below a node every node that has it for its parent is drawn, none twice and
/// nothing else: one line each, in plan order, with the last marker on the last of
/// them, and directly behind each line what is drawn below that node in turn.
pub proof fn law_every_node_below_is_drawn(
    nodes: Seq<PlanNode>,
    parent: u32,
    prefix: Seq<char>,
    depth: nat,
    at: Seq<int>,
)
    requires
        positions_below(nodes, parent, at),
    ensures
        tree_text(nodes, parent, prefix, depth) == lines_at(nodes, at, at.len(), prefix, depth),
{
    lemma_children_at(nodes, parent, at);
    lemma_lines_at(nodes, parent, at, at.len(), prefix, depth);
}

proof fn lemma_positions_among(nodes: Seq<PlanNode>, parent: u32, n: int) -> (at: Seq<int>)
    requires
        0 <= n <= nodes.len(),
    ensures
        forall|j: int, k: int| 0 <= j < k < at.len() ==> #[trigger] at[j] < #[trigger] at[k],
        forall|k: int|
            0 <= k < at.len() ==> 0 <= #[trigger] at[k] < n && nodes[at[k]].id
                != nodes[at[k]].parent && nodes[at[k]].parent == parent,
        forall|i: int|
            0 <= i < n && (#[trigger] nodes[i]).id != nodes[i].parent && nodes[i].parent == parent
                ==> at.contains(i),
    decreases n,
{
    if n == 0 {
        Seq::empty()
    } else {
        let before = lemma_positions_among(nodes, parent, n - 1);
        if nodes[n - 1].id != nodes[n - 1].parent && nodes[n - 1].parent == parent {
            let at = before.push(n - 1);
            assert forall|i: int|
                0 <= i < n && (#[trigger] nodes[i]).id != nodes[i].parent && nodes[i].parent
                    == parent implies at.contains(i) by {
                if i == n - 1 {
                    assert(at[before.len() as int] == i);
                } else {
                    assert(before.contains(i));
                    let j = choose|j: int| 0 <= j < before.len() && before[j] == i;
                    assert(at[j] == i);
                }
            }
            at
        } else {
            before
        }
    }
}

/// The positions of the nodes below a parent can always be listed, and each of them
/// is in the list: a node is drawn wherever its parent is.
pub proof fn law_positions_below_are_listed(nodes: Seq<PlanNode>, parent: u32, i: int)
    ensures
        exists|at: Seq<int>| #[trigger] positions_below(nodes, parent, at),
        forall|at: Seq<int>| #[trigger]
            positions_below(nodes, parent, at) ==> (at.contains(i) <==> 0 <= i < nodes.len()
                && nodes[i].id != nodes[i].parent && nodes[i].parent == parent) && at.len()
                == children(nodes, parent).len(),
{
    let at = lemma_positions_among(nodes, parent, nodes.len() as int);
    assert(positions_below(nodes, parent, at));
    assert forall|at: Seq<int>| #[trigger] positions_below(nodes, parent, at) implies (at.contains(
        i,
    ) <==> 0 <= i < nodes.len() && nodes[i].id != nodes[i].parent && nodes[i].parent == parent)
        && at.len() == children(nodes, parent).len() by {
        lemma_children_at(nodes, parent, at);
        if at.contains(i) {
            let k = choose|k: int| 0 <= k < at.len() && at[k] == i;
            assert(0 <= at[k] < nodes.len());
        }
    }
}

/// A plan is drawn as its first node's line and then all that hangs below that node,
/// down to every depth at which the descent has ended.
pub proof fn law_a_plan_begins_with_its_first_node(nodes: Seq<PlanNode>, depth: nat)
    ensures
        nodes.len() == 0 ==> plan_text(nodes) == Seq::<char>::empty(),
        nodes.len() > 0 && settles(nodes, nodes[0].id, depth) ==> plan_text(nodes)
            == nodes[0].detail@ + "\n"@ + tree_text(nodes, nodes[0].id, Seq::empty(), depth),
{
    if nodes.len() > 0 && settles(nodes, nodes[0].id, depth) {
        lemma_settles_within_len(nodes, nodes[0].id, depth);
        let whole = nodes.len() + 1;
        if depth <= whole {
            law_tree_text_is_whole(nodes, nodes[0].id, Seq::empty(), depth, whole);
        } else {
            law_tree_text_is_whole(nodes, nodes[0].id, Seq::empty(), whole, depth);
        }
    }
}

proof fn lemma_ranked_settles(nodes: Seq<PlanNode>, rank: spec_fn(u32) -> nat, parent: u32)
    requires
        forall|i: int|
            0 <= i < nodes.len() && (#[trigger] nodes[i]).id != nodes[i].parent ==> rank(
                nodes[i].id,
            ) < rank(nodes[i].parent),
    ensures
        settles(nodes, parent, rank(parent) + 1),
    decreases rank(parent),
{
    assert forall|i: int|
        0 <= i < nodes.len() && hangs_below(#[trigger] nodes[i], parent) implies settles(
        nodes,
        nodes[i].id,
        rank(parent),
    ) by {
        lemma_ranked_settles(nodes, rank, nodes[i].id);
        lemma_settles_deeper(nodes, nodes[i].id, rank(nodes[i].id) + 1, rank(parent));
    }
}

/// A plan in which every node but a root ranks below its parent, by any ranking, is
/// finite.
pub proof fn law_ranked_plan_is_finite(nodes: Seq<PlanNode>, rank: spec_fn(u32) -> nat)
    requires
        forall|i: int|
            0 <= i < nodes.len() && (#[trigger] nodes[i]).id != nodes[i].parent ==> rank(
                nodes[i].id,
            ) < rank(nodes[i].parent),
    ensures
        finite_plan(nodes),
{
    if nodes.len() > 0 {
        lemma_ranked_settles(nodes, rank, nodes[0].id);
    }
}

proof fn lemma_endless_never_settles(
    nodes: Seq<PlanNode>,
    parent: u32,
    path: spec_fn(nat) -> int,
    n: nat,
    depth: nat,
)
    requires
        forall|k: nat|
            0 <= #[trigger] path(k) < nodes.len() && nodes[path(k)].id != nodes[path(k)].parent,
        nodes[path(n)].parent == parent,
        forall|k: nat| nodes[#[trigger] path(k + 1)].parent == nodes[path(k)].id,
    ensures
        !settles(nodes, parent, depth),
    decreases depth,
{
    if depth > 0 {
        let i = path(n);
        assert(hangs_below(nodes[i], parent));
        assert(nodes[path(n + 1)].parent == nodes[path(n)].id);
        lemma_endless_never_settles(nodes, nodes[i].id, path, n + 1, (depth - 1) as nat);
    }
}

/// A plan with a descent from its first node that never ends is not finite.
pub proof fn law_endless_plan_is_not_finite(nodes: Seq<PlanNode>, path: spec_fn(nat) -> int)
    requires
        nodes.len() > 0,
        forall|k: nat|
            0 <= #[trigger] path(k) < nodes.len() && nodes[path(k)].id != nodes[path(k)].parent,
        nodes[path(0)].parent == nodes[0].id,
        forall|k: nat| nodes[#[trigger] path(k + 1)].parent == nodes[path(k)].id,
    ensures
        !finite_plan(nodes),
{
    assert forall|depth: nat| !settles(nodes, nodes[0].id, depth) by {
        lemma_endless_never_settles(nodes, nodes[0].id, path, 0, depth);
    }
}

} // verus!
