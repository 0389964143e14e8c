//! What holds of navigation in every tree.

use crate::model::{
    entry_paths, flag_after, forest_get, forest_paths, forest_rows, forest_with_all,
    forest_with_flag, node_with_all, paths_upto, subtree_paths, valid_path, FlagAction, NodeModel,
    RowModel, TreeModel,
};
use crate::paths::{lemma_entry_position, lemma_locate, lemma_paths_valid, lemma_upto_prefix};
use vstd::prelude::*;

verus! {

/// A forest with a root has a first visible row, and it is the first root.
pub proof fn lemma_first_path(forest: Seq<NodeModel>)
    ensures
        forest.len() > 0 ==> forest_paths(forest).len() > 0 && forest_paths(forest)[0] == seq![
            0int,
        ],
        forest.len() == 0 ==> forest_paths(forest).len() == 0,
{
    if forest.len() > 0 {
        lemma_entry_position(forest, 0);
    }
}

/// The node at a path that goes on to child `j` is child `j` of the node at
/// the path.
pub proof fn lemma_get_child(forest: Seq<NodeModel>, path: Seq<int>, j: int)
    requires
        valid_path(forest, path),
    ensures
        forest_get(forest, path + seq![j]) == forest_get(forest, path).children[j],
    decreases path.len(),
{
    let longer = path + seq![j];
    assert(longer[0] == path[0]);
    reveal_with_fuel(forest_get, 2);
    if path.len() == 1 {
        assert(longer.drop_first() =~= seq![j]);
    } else {
        assert(longer.drop_first() =~= path.drop_first() + seq![j]);
        lemma_get_child(forest[path[0]].children, path.drop_first(), j);
    }
}

/// From one visible row to the next the path grows by at most one step, and
/// where it grows the next row is the first child of the row before.
pub proof fn lemma_path_steps(forest: Seq<NodeModel>, k: int)
    requires
        0 <= k,
        k + 1 < forest_paths(forest).len(),
    ensures
        ({
            let here = forest_paths(forest)[k];
            let next = forest_paths(forest)[k + 1];
            &&& next.len() <= here.len() + 1
            &&& next.len() == here.len() + 1 ==> next == here + seq![0int]
            &&& next.len() == here.len() + 1 ==> forest_get(forest, here).expanded
            &&& next.len() == here.len() + 1 ==> forest_get(forest, here).children.len() > 0
        }),
    decreases forest_paths(forest)[k].len(),
{
    let all = forest_paths(forest);
    lemma_locate(forest, forest.len(), k);
    let here = all[k];
    let i = here[0];
    let base = paths_upto(forest, i as nat).len();
    let below = subtree_paths(forest[i]);
    lemma_entry_position(forest, i);
    if k + 1 < base + 1 + below.len() {
        let j = k - base;
        assert(all[base + 1 + j] == seq![i] + below[j]);
        if k == base {
            lemma_first_path(forest[i].children);
            assert(seq![i] + seq![0int] =~= here + seq![0int]);
        } else {
            lemma_path_steps(forest[i].children, j - 1);
            lemma_paths_valid(forest[i].children, j - 1);
            assert(here.drop_first() =~= below[j - 1]);
            if below[j].len() == below[j - 1].len() + 1 {
                assert(seq![i] + (below[j - 1] + seq![0int]) =~= here + seq![0int]);
            }
        }
    } else {
        lemma_upto_prefix(forest, (i + 1) as nat, forest.len());
        if i + 1 == forest.len() {
            assert(false);
        }
        lemma_entry_position(forest, i + 1);
    }
}

/// Between one visible row and the next the depth grows by at most one. Where
/// it grows, the row before is an expanded node and the next row is its first
/// child, exactly one level deeper.
pub proof fn law_depth_steps(tree: TreeModel, k: int)
    requires
        0 <= k,
        k + 1 < tree.rows().len(),
    ensures
        tree.rows().len() == tree.visible_count(),
        tree.rows()[0].depth == 0,
        tree.rows()[k + 1].depth <= tree.rows()[k].depth + 1,
        tree.rows()[k + 1].depth > tree.rows()[k].depth ==> {
            &&& tree.rows()[k].node.expanded
            &&& tree.rows()[k].node.children.len() > 0
            &&& tree.rows()[k + 1].node == tree.rows()[k].node.children[0]
        },
{
    lemma_path_steps(tree.roots, k);
    lemma_paths_valid(tree.roots, k);
    lemma_paths_valid(tree.roots, k + 1);
    lemma_paths_valid(tree.roots, 0);
    lemma_first_path(tree.roots);
    lemma_get_child(tree.roots, tree.paths()[k], 0);
}

/// Every visible row below the roots has its parent among the rows before
/// it: the row of the path without its last step. No row between the two
/// has a shorter path than the row itself.
pub proof fn lemma_parent_path(forest: Seq<NodeModel>, k: int) -> (j: int)
    requires
        0 <= k < forest_paths(forest).len(),
        forest_paths(forest)[k].len() > 1,
    ensures
        0 <= j < k,
        forest_paths(forest)[j] == forest_paths(forest)[k].drop_last(),
        forest_get(forest, forest_paths(forest)[j]).expanded,
        forall|m: int|
            j < m < k ==> (#[trigger] forest_paths(forest)[m]).len() >= forest_paths(
                forest,
            )[k].len(),
    decreases forest_paths(forest)[k].len(),
{
    let all = forest_paths(forest);
    lemma_locate(forest, forest.len(), k);
    let path = all[k];
    let i = path[0];
    let base = paths_upto(forest, i as nat).len();
    let below = subtree_paths(forest[i]);
    let inner = k - base - 1;
    lemma_entry_position(forest, i);
    lemma_paths_valid(forest[i].children, inner);
    if below[inner].len() == 1 {
        assert(path.drop_last() =~= seq![i]);
        assert forall|m: int| base < m < k implies (#[trigger] all[m]).len() >= path.len() by {
            let inside = m - base - 1;
            assert(all[base + 1 + inside] == seq![i] + below[inside]);
            lemma_paths_valid(forest[i].children, inside);
        }
        base as int
    } else {
        let parent = lemma_parent_path(forest[i].children, inner);
        assert(all[base + 1 + parent] == seq![i] + below[parent]);
        assert(path.drop_last() =~= seq![i] + below[inner].drop_last());
        lemma_paths_valid(forest[i].children, parent);
        assert((seq![i] + below[parent]).drop_first() =~= below[parent]);
        assert forall|m: int| base + 1 + parent < m < k implies (#[trigger] all[m]).len()
            >= path.len() by {
            let inside = m - base - 1;
            assert(all[base + 1 + inside] == seq![i] + below[inside]);
            assert(below[inside].len() >= below[inner].len());
        }
        base + 1 + parent
    }
}

/// A visible row that is no root has its parent among the rows before it:
/// an expanded node exactly one level higher, of which the row's node is a
/// child. The parent is the nearest row before it that is less deep: every
/// row between the two is at least as deep as the row itself. The returned
/// number is the parent's row.
pub proof fn law_parent_row(tree: TreeModel, k: int) -> (j: int)
    requires
        0 <= k < tree.rows().len(),
        tree.rows()[k].depth > 0,
    ensures
        0 <= j < k,
        tree.rows()[j].depth + 1 == tree.rows()[k].depth,
        tree.rows()[j].node.expanded,
        0 <= tree.paths()[k].last() < tree.rows()[j].node.children.len(),
        tree.rows()[k].node == tree.rows()[j].node.children[tree.paths()[k].last()],
        forall|m: int| j < m < k ==> (#[trigger] tree.rows()[m]).depth >= tree.rows()[k].depth,
{
    let path = tree.paths()[k];
    lemma_paths_valid(tree.roots, k);
    let j = lemma_parent_path(tree.roots, k);
    lemma_paths_valid(tree.roots, j);
    lemma_get_child(tree.roots, tree.paths()[j], path.last());
    assert(tree.paths()[j] + seq![path.last()] =~= path);
    lemma_valid_child(tree.roots, tree.paths()[j], path.last());
    assert forall|m: int| j < m < k implies (#[trigger] tree.rows()[m]).depth
        >= tree.rows()[k].depth by {
        assert(tree.paths()[m].len() >= path.len());
    }
    j
}

/// The rows at depth 0 are the roots, in the order of the roots: root `i`
/// stands on the row behind the rows of the roots before it, and every row at
/// depth 0 is such a row.
pub proof fn law_root_rows(tree: TreeModel)
    ensures
        forall|i: int|
            0 <= i < tree.roots.len() ==> 0 <= #[trigger] tree.root_row(i) < tree.rows().len()
                && tree.rows()[tree.root_row(i)] == (RowModel { node: tree.roots[i], depth: 0 }),
        forall|i: int, j: int|
            0 <= i < j < tree.roots.len() ==> #[trigger] tree.root_row(i) < #[trigger] tree.root_row(
                j,
            ),
        forall|k: int|
            0 <= k < tree.rows().len() && (#[trigger] tree.rows()[k]).depth == 0 ==> 0
                <= tree.paths()[k][0] < tree.roots.len() && k == tree.root_row(tree.paths()[k][0]),
{
    let roots = tree.roots;
    assert forall|i: int| 0 <= i < roots.len() implies 0 <= #[trigger] tree.root_row(i)
        < tree.rows().len() && tree.rows()[tree.root_row(i)] == (RowModel {
        node: roots[i],
        depth: 0,
    }) by {
        lemma_entry_position(roots, i);
    }
    assert forall|i: int, j: int| 0 <= i < j < roots.len() implies #[trigger] tree.root_row(i)
        < #[trigger] tree.root_row(j) by {
        lemma_entry_position(roots, i);
        lemma_upto_prefix(roots, (i + 1) as nat, j as nat);
    }
    assert forall|k: int|
        0 <= k < tree.rows().len() && (#[trigger] tree.rows()[k]).depth == 0 implies 0
        <= tree.paths()[k][0] < roots.len() && k == tree.root_row(tree.paths()[k][0]) by {
        lemma_locate(roots, roots.len(), k);
        let i = tree.paths()[k][0];
        let base = paths_upto(roots, i as nat).len();
        if k > base {
            lemma_paths_valid(roots[i].children, k - base - 1);
        }
    }
}

/// A valid path that goes one step further is valid if and only if the step
/// is the index of a child.
pub proof fn lemma_valid_child(forest: Seq<NodeModel>, path: Seq<int>, step: int)
    requires
        valid_path(forest, path),
    ensures
        valid_path(forest, path + seq![step]) <==> 0 <= step < forest_get(
            forest,
            path,
        ).children.len(),
    decreases path.len(),
{
    let longer = path + seq![step];
    assert(longer[0] == path[0]);
    reveal_with_fuel(valid_path, 2);
    if path.len() == 1 {
        assert(longer.drop_first() =~= seq![step]);
    } else {
        assert(longer.drop_first() =~= path.drop_first() + seq![step]);
        lemma_valid_child(forest[path[0]].children, path.drop_first(), step);
    }
}

/// The first `n` roots decide the rows of the first `n` roots.
pub proof fn lemma_upto_same(a: Seq<NodeModel>, b: Seq<NodeModel>, n: nat)
    requires
        n <= a.len(),
        n <= b.len(),
        forall|i: int| 0 <= i < n ==> a[i] == b[i],
    ensures
        paths_upto(a, n) == paths_upto(b, n),
    decreases n,
{
    if n > 0 {
        lemma_upto_same(a, b, (n - 1) as nat);
    }
}

/// A new flag on the node of a visible row leaves that row where it was.
pub proof fn lemma_flag_keeps_row(forest: Seq<NodeModel>, k: int, value: bool)
    requires
        0 <= k < forest_paths(forest).len(),
    ensures
        ({
            let after = forest_with_flag(forest, forest_paths(forest)[k], value);
            &&& k < forest_paths(after).len()
            &&& forest_paths(after)[k] == forest_paths(forest)[k]
        }),
    decreases forest_paths(forest)[k].len(),
{
    let all = forest_paths(forest);
    let path = all[k];
    lemma_locate(forest, forest.len(), k);
    let i = path[0];
    let base = paths_upto(forest, i as nat).len();
    let below = subtree_paths(forest[i]);
    let after = forest_with_flag(forest, path, value);
    lemma_upto_same(forest, after, i as nat);
    lemma_entry_position(after, i);
    if k > base {
        let j = k - base - 1;
        lemma_paths_valid(forest[i].children, j);
        assert(path.drop_first() =~= below[j]);
        lemma_flag_keeps_row(forest[i].children, j, value);
        assert(after[i].children == forest_with_flag(forest[i].children, below[j], value));
        assert(forest_paths(after)[base + 1 + j] == seq![i] + subtree_paths(after[i])[j]);
    }
}

/// The node at a path after its flag was set: the same node with that flag.
pub proof fn lemma_get_after_flag(forest: Seq<NodeModel>, path: Seq<int>, value: bool)
    requires
        valid_path(forest, path),
    ensures
        valid_path(forest_with_flag(forest, path, value), path),
        forest_get(forest_with_flag(forest, path, value), path) == (NodeModel {
            expanded: value,
            ..forest_get(forest, path)
        }),
    decreases path.len(),
{
    if path.len() > 1 {
        lemma_get_after_flag(forest[path[0]].children, path.drop_first(), value);
    }
}

/// Of two flags set in turn on one node, the second stands.
pub proof fn lemma_flag_twice(forest: Seq<NodeModel>, path: Seq<int>, first: bool, second: bool)
    requires
        valid_path(forest, path),
    ensures
        forest_with_flag(forest_with_flag(forest, path, first), path, second) == forest_with_flag(
            forest,
            path,
            second,
        ),
    decreases path.len(),
{
    if path.len() > 1 {
        lemma_flag_twice(forest[path[0]].children, path.drop_first(), first, second);
    }
    assert(forest_with_flag(forest_with_flag(forest, path, first), path, second)
        =~= forest_with_flag(forest, path, second));
}

/// Setting the flag that a node has changes nothing.
pub proof fn lemma_flag_same(forest: Seq<NodeModel>, path: Seq<int>)
    requires
        valid_path(forest, path),
    ensures
        forest_with_flag(forest, path, forest_get(forest, path).expanded) == forest,
    decreases path.len(),
{
    if path.len() > 1 {
        lemma_flag_same(forest[path[0]].children, path.drop_first());
    }
    assert(forest_with_flag(forest, path, forest_get(forest, path).expanded) =~= forest);
}

/// An action on the selected node leaves the selected row where it was: the
/// same path is visible at the same place.
pub proof fn lemma_acted_keeps_row(tree: TreeModel, action: FlagAction)
    requires
        tree.cursor < tree.visible_count(),
    ensures
        tree.cursor < tree.acted(action).visible_count(),
        tree.acted(action).paths()[tree.cursor as int] == tree.paths()[tree.cursor as int],
{
    let path = tree.paths()[tree.cursor as int];
    let node = forest_get(tree.roots, path);
    lemma_flag_keeps_row(tree.roots, tree.cursor as int, flag_after(action, node.expanded));
}

/// Toggling the selected node twice gives back the tree as it was.
pub proof fn law_toggle_twice(tree: TreeModel)
    ensures
        tree.acted(FlagAction::Toggle).acted(FlagAction::Toggle) == tree,
{
    if tree.cursor < tree.visible_count() {
        let path = tree.paths()[tree.cursor as int];
        let node = forest_get(tree.roots, path);
        lemma_paths_valid(tree.roots, tree.cursor as int);
        if node.children.len() > 0 {
            let once = tree.acted(FlagAction::Toggle);
            lemma_acted_keeps_row(tree, FlagAction::Toggle);
            lemma_get_after_flag(tree.roots, path, !node.expanded);
            lemma_flag_twice(tree.roots, path, !node.expanded, node.expanded);
            lemma_flag_same(tree.roots, path);
            assert(once.paths()[once.cursor as int] == path);
            assert(once.acted(FlagAction::Toggle).roots == tree.roots);
        }
    }
}

/// After an expand or a collapse of the selected node, the same command
/// again changes nothing, and the selected node, if it has children, has the
/// flag that the command sets.
pub proof fn law_set_flag_settles(tree: TreeModel, action: FlagAction)
    requires
        !(action is Toggle),
    ensures
        tree.acted(action).acted(action) == tree.acted(action),
        tree.acted(action).selected() is Some == tree.selected() is Some,
        tree.selected() matches Some(node) ==> tree.acted(action).selected() == Some(
            NodeModel {
                expanded: if node.children.len() > 0 {
                    action is Expand
                } else {
                    node.expanded
                },
                ..node
            },
        ),
{
    if tree.cursor < tree.visible_count() {
        let path = tree.paths()[tree.cursor as int];
        let node = forest_get(tree.roots, path);
        let value = flag_after(action, node.expanded);
        lemma_paths_valid(tree.roots, tree.cursor as int);
        if node.children.len() > 0 {
            lemma_acted_keeps_row(tree, action);
            lemma_get_after_flag(tree.roots, path, value);
            lemma_flag_twice(tree.roots, path, value, value);
        }
    }
}

/// With every node collapsed, the visible rows are the roots.
pub proof fn lemma_collapsed_paths(forest: Seq<NodeModel>, n: nat)
    requires
        n <= forest.len(),
    ensures
        paths_upto(forest_with_all(forest, false), n) == Seq::new(n, |i: int| seq![i]),
    decreases n,
{
    if n > 0 {
        lemma_collapsed_paths(forest, (n - 1) as nat);
        let last = forest_with_all(forest, false)[n - 1];
        assert(!last.expanded);
        assert(subtree_paths(last) =~= Seq::empty());
        assert(entry_paths(last, n - 1) =~= seq![seq![n - 1]]);
    }
    assert(paths_upto(forest_with_all(forest, false), n) =~= Seq::new(n, |i: int| seq![i]));
}

/// After a collapse of everything the cursor is on the first row and the
/// visible rows are exactly the roots, in their order.
pub proof fn law_collapse_all(tree: TreeModel)
    ensures
        tree.collapsed_all().cursor == 0,
        tree.collapsed_all().visible_count() == tree.roots.len(),
        tree.collapsed_all().paths() == Seq::new(tree.roots.len(), |i: int| seq![i]),
        tree.collapsed_all().wf(),
{
    lemma_collapsed_paths(tree.roots, tree.roots.len());
}

/// With every node expanded there are at least as many visible rows as
/// before.
pub proof fn lemma_expanded_grows(forest: Seq<NodeModel>, n: nat)
    requires
        n <= forest.len(),
    ensures
        paths_upto(forest, n).len() <= paths_upto(forest_with_all(forest, true), n).len(),
    decreases forest, n,
{
    if n > 0 {
        lemma_expanded_grows(forest, (n - 1) as nat);
        let node = forest[n - 1];
        lemma_expanded_grows(node.children, node.children.len());
        let after = forest_with_all(forest, true)[n - 1];
        assert(after == node_with_all(node, true));
        assert(after.children =~= forest_with_all(node.children, true));
        assert(subtree_paths(after) == forest_paths(after.children));
        assert(subtree_paths(node).len() <= subtree_paths(after).len());
        assert(entry_paths(node, n - 1).len() == 1 + subtree_paths(node).len());
        assert(entry_paths(after, n - 1).len() == 1 + subtree_paths(after).len());
    }
}

/// Moving up from the first row changes nothing, and so does moving down
/// from the last.
pub proof fn law_moves_stop_at_ends(tree: TreeModel)
    ensures
        tree.cursor == 0 ==> tree.moved_up() == tree,
        tree.cursor + 1 == tree.visible_count() ==> tree.moved_down() == tree,
        tree.visible_count() == 0 ==> tree.moved_down() == tree,
{
}

/// Every command keeps the cursor on a visible row (or on 0 where no row is
/// visible), and none but the two on the whole tree changes the number of
/// roots.
pub proof fn law_cursor_stays_valid(tree: TreeModel, action: FlagAction)
    requires
        tree.wf(),
    ensures
        tree.moved_up().wf(),
        tree.moved_down().wf(),
        tree.at_top().wf(),
        tree.at_bottom().wf(),
        tree.acted(action).wf(),
        tree.expanded_all().wf(),
        tree.collapsed_all().wf(),
{
    if tree.cursor < tree.visible_count() {
        lemma_acted_keeps_row(tree, action);
    }
    lemma_expanded_grows(tree.roots, tree.roots.len());
}

/// The rows of a forest are as many as its visible paths, and each row holds
/// the node at its path, nested as deep as the path is long.
pub proof fn law_rows_follow_paths(tree: TreeModel, k: int)
    requires
        0 <= k < tree.visible_count(),
    ensures
        tree.rows().len() == tree.visible_count(),
        valid_path(tree.roots, tree.paths()[k]),
        tree.rows()[k].node == forest_get(tree.roots, tree.paths()[k]),
        tree.rows()[k].depth == tree.paths()[k].len() - 1,
        tree.rows() == forest_rows(tree.roots, 0),
{
    lemma_paths_valid(tree.roots, k);
}

} // verus!
