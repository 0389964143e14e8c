//! Facts about the visible rows of a forest.

use crate::model::{
    entry_paths, entry_rows, flag_after, forest_acted, forest_height, forest_paths, forest_rows,
    node_height, paths_upto, prefixed, rows_upto, subtree_paths, valid_path, FlagAction,
    NodeModel,
};
use vstd::prelude::*;

verus! {

/// The rows of the first `i` roots come first among the rows of the first `n`.
pub proof fn lemma_upto_prefix(forest: Seq<NodeModel>, i: nat, n: nat)
    requires
        i <= n <= forest.len(),
    ensures
        paths_upto(forest, i).len() <= paths_upto(forest, n).len(),
        paths_upto(forest, n).subrange(0, paths_upto(forest, i).len() as int) == paths_upto(
            forest,
            i,
        ),
    decreases n,
{
    if i < n {
        lemma_upto_prefix(forest, i, (n - 1) as nat);
    }
    assert(paths_upto(forest, n).subrange(0, paths_upto(forest, i).len() as int) =~= paths_upto(
        forest,
        i,
    ));
}

/// Where the rows of root `i` stand among the rows of the forest: first the
/// root's own row, then the rows below it, each behind the index `i`.
pub proof fn lemma_entry_position(forest: Seq<NodeModel>, i: int)
    requires
        0 <= i < forest.len(),
    ensures
        ({
            let all = forest_paths(forest);
            let base = paths_upto(forest, i as nat).len();
            let below = subtree_paths(forest[i]);
            &&& paths_upto(forest, (i + 1) as nat).len() == base + 1 + below.len()
            &&& base + 1 + below.len() <= all.len()
            &&& all[base as int] == seq![i]
            &&& forall|k: int|
                0 <= k < below.len() ==> #[trigger] all[base + 1 + k] == seq![i] + below[k]
        }),
{
    let all = forest_paths(forest);
    let base = paths_upto(forest, i as nat).len();
    let below = subtree_paths(forest[i]);
    let next = paths_upto(forest, (i + 1) as nat);
    lemma_upto_prefix(forest, (i + 1) as nat, forest.len());
    assert(next == paths_upto(forest, i as nat) + entry_paths(forest[i], i));
    assert(all.subrange(0, next.len() as int) == next);
    assert(all[base as int] == all.subrange(0, next.len() as int)[base as int]);
    assert forall|k: int| 0 <= k < below.len() implies #[trigger] all[base + 1 + k] == seq![i]
        + below[k] by {
        assert(all[base + 1 + k] == all.subrange(0, next.len() as int)[base + 1 + k]);
        assert(next[base + 1 + k] == entry_paths(forest[i], i)[1 + k]);
        assert(entry_paths(forest[i], i)[1 + k] == prefixed(i, below)[k]);
    }
}

/// Which root a visible row belongs to, and where it stands among that
/// root's rows.
pub proof fn lemma_locate(forest: Seq<NodeModel>, n: nat, k: int)
    requires
        n <= forest.len(),
        0 <= k < paths_upto(forest, n).len(),
    ensures
        ({
            let path = paths_upto(forest, n)[k];
            let i = path[0];
            let base = paths_upto(forest, i as nat).len();
            let below = subtree_paths(forest[i]);
            &&& path.len() >= 1
            &&& 0 <= i < n
            &&& base <= k < base + 1 + below.len()
            &&& k == base ==> path == seq![i]
            &&& k > base ==> path == seq![i] + below[k - base - 1]
        }),
    decreases n,
{
    let before = paths_upto(forest, (n - 1) as nat);
    if k < before.len() {
        lemma_locate(forest, (n - 1) as nat, k);
    } else {
        let i = n - 1;
        let below = subtree_paths(forest[i]);
        let entry = entry_paths(forest[i], i);
        assert(paths_upto(forest, n)[k] == entry[k - before.len()]);
        if k > before.len() {
            assert(entry[k - before.len()] == prefixed(i, below)[k - before.len() - 1]);
        }
    }
}

/// Every visible row is a path to a node of the forest.
pub proof fn lemma_paths_valid(forest: Seq<NodeModel>, k: int)
    requires
        0 <= k < forest_paths(forest).len(),
    ensures
        valid_path(forest, forest_paths(forest)[k]),
    decreases forest_paths(forest)[k].len(),
{
    lemma_locate(forest, forest.len(), k);
    let path = forest_paths(forest)[k];
    let i = path[0];
    let base = paths_upto(forest, i as nat).len();
    if k > base {
        let below = subtree_paths(forest[i]);
        assert(path.drop_first() =~= below[k - base - 1]);
        lemma_paths_valid(forest[i].children, k - base - 1);
    }
}

/// The rows of the first `i + 1` roots are those of the first `i`, then the
/// rows of root `i`.
pub proof fn lemma_rows_step(forest: Seq<NodeModel>, i: int, depth: nat)
    requires
        0 <= i < forest.len(),
    ensures
        rows_upto(forest, (i + 1) as nat, depth) == rows_upto(forest, i as nat, depth) + entry_rows(
            forest[i],
            depth,
        ),
{
    let all = forest_paths(forest);
    let base = paths_upto(forest, i as nat).len();
    let below = subtree_paths(forest[i]);
    lemma_entry_position(forest, i);
    let left = rows_upto(forest, (i + 1) as nat, depth);
    let right = rows_upto(forest, i as nat, depth) + entry_rows(forest[i], depth);
    assert(left.len() == right.len());
    assert forall|j: int| 0 <= j < left.len() implies left[j] == right[j] by {
        if j == base {
            assert(all[j] == seq![i]);
        } else if j > base {
            let k = j - base - 1;
            assert(all[base + 1 + k] == seq![i] + below[k]);
            lemma_paths_valid(forest[i].children, k);
            assert((seq![i] + below[k]).drop_first() =~= below[k]);
        }
    }
    assert(left =~= right);
}

/// The rows of all the roots are the rows of the forest.
pub proof fn lemma_rows_all(forest: Seq<NodeModel>, depth: nat)
    ensures
        rows_upto(forest, forest.len(), depth) == forest_rows(forest, depth),
{
    assert(rows_upto(forest, forest.len(), depth) =~= forest_rows(forest, depth));
}

/// A root is no higher than the forest it stands in.
pub proof fn lemma_height_bound(forest: Seq<NodeModel>, i: int, n: nat)
    requires
        0 <= i < n <= forest.len(),
    ensures
        node_height(forest[i]) <= forest_height(forest, n),
    decreases n,
{
    if i < n - 1 {
        lemma_height_bound(forest, i, (n - 1) as nat);
    }
}

/// The children of a root form a lower forest than the root's own.
pub proof fn lemma_height_child(forest: Seq<NodeModel>, i: int)
    requires
        0 <= i < forest.len(),
    ensures
        forest_height(forest[i].children, forest[i].children.len()) < forest_height(
            forest,
            forest.len(),
        ),
{
    lemma_height_bound(forest, i, forest.len());
}

/// An action on the row of root `i` changes that root's flag, and only if
/// the root has children.
pub proof fn lemma_acted_at_root(forest: Seq<NodeModel>, i: int, action: FlagAction)
    requires
        0 <= i < forest.len(),
    ensures
        forest_acted(forest, seq![i], action) == forest.update(
            i,
            if forest[i].children.len() > 0 {
                NodeModel { expanded: flag_after(action, forest[i].expanded), ..forest[i] }
            } else {
                forest[i]
            },
        ),
{
    assert(forest.update(i, forest[i]) =~= forest);
}

/// An action on row `k` below root `i` is that action on row `k` of the
/// root's children.
pub proof fn lemma_acted_below(forest: Seq<NodeModel>, i: int, k: int, action: FlagAction)
    requires
        0 <= i < forest.len(),
        0 <= k < subtree_paths(forest[i]).len(),
    ensures
        ({
            let below = forest_paths(forest[i].children);
            let base = paths_upto(forest, i as nat).len();
            &&& forest[i].expanded
            &&& base + 1 + k < forest_paths(forest).len()
            &&& forest_acted(forest, forest_paths(forest)[base + 1 + k], action) == forest.update(
                i,
                NodeModel {
                    children: forest_acted(forest[i].children, below[k], action),
                    ..forest[i]
                },
            )
        }),
{
    let below = forest_paths(forest[i].children);
    let base = paths_upto(forest, i as nat).len();
    lemma_entry_position(forest, i);
    let path = forest_paths(forest)[base + 1 + k];
    assert(path == seq![i] + below[k]);
    lemma_paths_valid(forest[i].children, k);
    assert(path.drop_first() =~= below[k]);
    assert(forest.update(i, forest[i]) =~= forest);
}

} // verus!
