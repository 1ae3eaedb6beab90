//! How deep the playlist tree reaches.

use vstd::prelude::*;

use crate::pdb::{PlaylistTreeNode, PlaylistTreeNodeId};

verus! {

/// Whether the nodes below `id`, looked for among the first `n` nodes, nest at most `depth` levels
/// deep.
pub open spec fn nests_within(
    nodes: Seq<PlaylistTreeNode>,
    id: PlaylistTreeNodeId,
    depth: nat,
    n: nat,
) -> bool
    decreases depth, n,
{
    n == 0 || {
        let node = nodes[n - 1];
        &&& nests_within(nodes, id, depth, (n - 1) as nat)
        &&& node.parent_id == id ==> depth > 0 && nests_within(
            nodes,
            node.id,
            (depth - 1) as nat,
            nodes.len(),
        )
    }
}

/// Whether the tree below the root is finite. A path down the tree that is longer than there are
/// nodes passes one of them twice, and then goes on without end.
pub open spec fn is_finite_tree(nodes: Seq<PlaylistTreeNode>) -> bool {
    nests_within(nodes, PlaylistTreeNodeId(0), nodes.len(), nodes.len())
}

/// What holds of all nodes holds of the first `m`.
pub proof fn lemma_nests_prefix(
    nodes: Seq<PlaylistTreeNode>,
    id: PlaylistTreeNodeId,
    depth: nat,
    n: nat,
    m: nat,
)
    requires
        nests_within(nodes, id, depth, n),
        m <= n,
    ensures
        nests_within(nodes, id, depth, m),
    decreases n,
{
    if m < n {
        lemma_nests_prefix(nodes, id, depth, (n - 1) as nat, m);
    }
}

/// Whether the nodes below `id` nest at most `depth` levels deep.
fn nests(nodes: &Vec<PlaylistTreeNode>, id: PlaylistTreeNodeId, depth: usize) -> (r: bool)
    ensures
        r == nests_within(nodes@, id, depth as nat, nodes@.len()),
    decreases depth,
{
    let mut i: usize = 0;
    while i < nodes.len()
        invariant
            i <= nodes.len(),
            nests_within(nodes@, id, depth as nat, i as nat),
        decreases nodes.len() - i,
    {
        if nodes[i].parent_id == id {
            if depth == 0 || !nests(nodes, nodes[i].id, depth - 1) {
                proof {
                    if nests_within(nodes@, id, depth as nat, nodes@.len()) {
                        lemma_nests_prefix(
                            nodes@,
                            id,
                            depth as nat,
                            nodes@.len(),
                            (i + 1) as nat,
                        );
                    }
                }
                return false;
            }
        }
        i = i + 1;
    }
    true
}

/// Whether the tree below the root is finite.
pub fn tree_is_finite(nodes: &Vec<PlaylistTreeNode>) -> (r: bool)
    ensures
        r == is_finite_tree(nodes@),
{
    nests(nodes, PlaylistTreeNodeId(0), nodes.len())
}

/// Whether there is a way down from `id` that passes `steps` nodes.
pub open spec fn reaches(nodes: Seq<PlaylistTreeNode>, id: PlaylistTreeNodeId, steps: nat) -> bool
    decreases steps,
{
    steps == 0 || exists|r: int|
        0 <= r < nodes.len() && (#[trigger] nodes[r]).parent_id == id && reaches(
            nodes,
            nodes[r].id,
            (steps - 1) as nat,
        )
}

proof fn lemma_nests_each(
    nodes: Seq<PlaylistTreeNode>,
    id: PlaylistTreeNodeId,
    depth: nat,
    n: nat,
)
    requires
        n <= nodes.len(),
    ensures
        nests_within(nodes, id, depth, n) <==> forall|r: int|
            0 <= r < n && (#[trigger] nodes[r]).parent_id == id ==> depth > 0 && nests_within(
                nodes,
                nodes[r].id,
                (depth - 1) as nat,
                nodes.len(),
            ),
    decreases n,
{
    if n > 0 {
        lemma_nests_each(nodes, id, depth, (n - 1) as nat);
    }
}

proof fn lemma_nests_or_reaches(
    nodes: Seq<PlaylistTreeNode>,
    id: PlaylistTreeNodeId,
    depth: nat,
)
    ensures
        nests_within(nodes, id, depth, nodes.len()) <==> !reaches(nodes, id, depth + 1),
    decreases depth,
{
    lemma_nests_each(nodes, id, depth, nodes.len());
    assert forall|r: int| 0 <= r < nodes.len() implies (depth > 0 && nests_within(
        nodes,
        (#[trigger] nodes[r]).id,
        (depth - 1) as nat,
        nodes.len(),
    ) <==> !reaches(nodes, nodes[r].id, depth)) by {
        if depth > 0 {
            lemma_nests_or_reaches(nodes, nodes[r].id, (depth - 1) as nat);
        }
    }
}

/// The identifiers of nodes from which a way of `steps` nodes leads down.
spec fn starts(nodes: Seq<PlaylistTreeNode>, steps: nat) -> Set<PlaylistTreeNodeId> {
    Set::new(
        |id: PlaylistTreeNodeId|
            reaches(nodes, id, steps) && exists|r: int|
                0 <= r < nodes.len() && (#[trigger] nodes[r]).id == id,
    )
}

proof fn lemma_reaches_less(nodes: Seq<PlaylistTreeNode>, id: PlaylistTreeNodeId, steps: nat)
    requires
        reaches(nodes, id, steps + 1),
    ensures
        reaches(nodes, id, steps),
    decreases steps,
{
    if steps > 0 {
        let r = choose|r: int|
            0 <= r < nodes.len() && (#[trigger] nodes[r]).parent_id == id && reaches(
                nodes,
                nodes[r].id,
                steps,
            );
        lemma_reaches_less(nodes, nodes[r].id, (steps - 1) as nat);
        assert(nodes[r].parent_id == id);
    }
}

/// Where the starts of longer ways are the same, those of ways longer by one are the same too.
proof fn lemma_starts_carry_over(nodes: Seq<PlaylistTreeNode>, a: nat, b: nat)
    requires
        starts(nodes, a) == starts(nodes, b),
    ensures
        starts(nodes, a + 1) == starts(nodes, b + 1),
{
    assert forall|id: PlaylistTreeNodeId|
        #[trigger] starts(nodes, a + 1).contains(id) <==> starts(nodes, b + 1).contains(id) by {
        if reaches(nodes, id, a + 1) {
            let r = choose|r: int|
                0 <= r < nodes.len() && (#[trigger] nodes[r]).parent_id == id && reaches(
                    nodes,
                    nodes[r].id,
                    a,
                );
            assert(starts(nodes, a).contains(nodes[r].id));
            assert(starts(nodes, b).contains(nodes[r].id));
        }
        if reaches(nodes, id, b + 1) {
            let r = choose|r: int|
                0 <= r < nodes.len() && (#[trigger] nodes[r]).parent_id == id && reaches(
                    nodes,
                    nodes[r].id,
                    b,
                );
            assert(starts(nodes, b).contains(nodes[r].id));
            assert(starts(nodes, a).contains(nodes[r].id));
        }
    }
    assert(starts(nodes, a + 1) =~= starts(nodes, b + 1));
}

/// Once one more step changes nothing, no number of further steps does.
proof fn lemma_starts_settle(nodes: Seq<PlaylistTreeNode>, k: nat, m: nat)
    requires
        starts(nodes, k) == starts(nodes, k + 1),
        k <= m,
    ensures
        starts(nodes, m) == starts(nodes, k),
    decreases m,
{
    if k < m {
        lemma_starts_settle(nodes, k, (m - 1) as nat);
        lemma_starts_carry_over(nodes, (m - 1) as nat, k);
    }
}

/// Every step either loses a start or changes nothing any more.
proof fn lemma_starts_shrink(nodes: Seq<PlaylistTreeNode>, k: nat)
    ensures
        starts(nodes, k).finite(),
        starts(nodes, k).len() + k <= nodes.len() || starts(nodes, k + 1) == starts(nodes, k),
    decreases k,
{
    let now = starts(nodes, k);
    let next = starts(nodes, k + 1);
    assert(next.subset_of(now)) by {
        assert forall|id: PlaylistTreeNodeId| next.contains(id) implies now.contains(id) by {
            lemma_reaches_less(nodes, id, k);
        }
    }
    if k == 0 {
        let ids = nodes.map_values(|node: PlaylistTreeNode| node.id);
        ids.lemma_cardinality_of_set();
        vstd::seq_lib::seq_to_set_is_finite(ids);
        assert(now.subset_of(ids.to_set())) by {
            assert forall|id: PlaylistTreeNodeId| now.contains(id) implies ids.to_set().contains(
                id,
            ) by {
                let r = choose|r: int| 0 <= r < nodes.len() && (#[trigger] nodes[r]).id == id;
                assert(ids[r] == id);
            }
        }
        vstd::set_lib::lemma_len_subset(now, ids.to_set());
    } else {
        let before = starts(nodes, (k - 1) as nat);
        lemma_starts_shrink(nodes, (k - 1) as nat);
        assert(now.subset_of(before)) by {
            assert forall|id: PlaylistTreeNodeId| now.contains(id) implies before.contains(id) by {
                lemma_reaches_less(nodes, id, (k - 1) as nat);
            }
        }
        vstd::set_lib::lemma_len_subset(now, before);
        if now == before {
            lemma_starts_carry_over(nodes, (k - 1) as nat, k);
        } else {
            let lost = choose|id: PlaylistTreeNodeId| before.contains(id) && !now.contains(id);
            assert(exists|id: PlaylistTreeNodeId| before.contains(id) && !now.contains(id)) by {
                if forall|id: PlaylistTreeNodeId| before.contains(id) ==> now.contains(id) {
                    assert(now =~= before);
                }
            }
            now.lemma_subset_not_in_lt(before, lost);
        }
    }
}

/// A tree that nests within any depth at all is finite: the number of nodes is always depth enough.
pub proof fn law_number_of_nodes_is_depth_enough(nodes: Seq<PlaylistTreeNode>, depth: nat)
    ensures
        nests_within(nodes, PlaylistTreeNodeId(0), depth, nodes.len()) ==> is_finite_tree(nodes),
{
    let root = PlaylistTreeNodeId(0);
    let n = nodes.len();
    lemma_nests_or_reaches(nodes, root, n);
    lemma_nests_or_reaches(nodes, root, depth);
    if reaches(nodes, root, n + 1) {
        let r = choose|r: int|
            0 <= r < n && (#[trigger] nodes[r]).parent_id == root && reaches(nodes, nodes[r].id, n);
        lemma_starts_shrink(nodes, n);
        assert(starts(nodes, n).contains(nodes[r].id));
        if starts(nodes, n).len() == 0 {
            assert(starts(nodes, n) =~= Set::empty());
        }
        assert(starts(nodes, n + 1) == starts(nodes, n));
        if depth >= n {
            lemma_starts_settle(nodes, n, depth);
            assert(starts(nodes, depth).contains(nodes[r].id));
            assert(reaches(nodes, root, depth + 1)) by {
                assert(nodes[r].parent_id == root);
            }
        } else {
            lemma_reaches_fewer(nodes, root, n + 1, depth + 1);
        }
    }
}

proof fn lemma_reaches_fewer(
    nodes: Seq<PlaylistTreeNode>,
    id: PlaylistTreeNodeId,
    steps: nat,
    fewer: nat,
)
    requires
        fewer <= steps,
        reaches(nodes, id, steps),
    ensures
        reaches(nodes, id, fewer),
    decreases steps,
{
    if fewer < steps {
        lemma_reaches_less(nodes, id, (steps - 1) as nat);
        lemma_reaches_fewer(nodes, id, (steps - 1) as nat, fewer);
    }
}

/// The tree is finite just when no way down from the root passes more nodes than there are, and
/// then no way down is longer, however far one looks.
pub proof fn law_finite_trees_end(nodes: Seq<PlaylistTreeNode>, steps: nat)
    ensures
        is_finite_tree(nodes) <==> !reaches(nodes, PlaylistTreeNodeId(0), nodes.len() + 1),
        is_finite_tree(nodes) && steps > nodes.len() ==> !reaches(
            nodes,
            PlaylistTreeNodeId(0),
            steps,
        ),
        !is_finite_tree(nodes) ==> reaches(nodes, PlaylistTreeNodeId(0), steps),
{
    let root = PlaylistTreeNodeId(0);
    let n = nodes.len();
    lemma_nests_or_reaches(nodes, root, n);
    if is_finite_tree(nodes) {
        if steps > n && reaches(nodes, root, steps) {
            lemma_reaches_fewer(nodes, root, steps, n + 1);
        }
    } else if steps > 0 {
        law_number_of_nodes_is_depth_enough(nodes, (steps - 1) as nat);
        lemma_nests_or_reaches(nodes, root, (steps - 1) as nat);
    }
}

} // verus!
