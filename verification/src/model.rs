//! Mathematical model of the display tree and of navigation over it.
//!
//! A tree is a sequence of root nodes (a forest). A position in it is a path:
//! the index of a root, then the index of a child, and so on. The visible rows
//! of a forest are the paths of the nodes that a depth-first, pre-order walk
//! reaches when it enters the children of expanded nodes only.

use vstd::prelude::*;

verus! {

/// What a node stands for; a reference carries the name of its target.
pub enum KindModel {
    Schema,
    Object,
    Array,
    Str,
    Integer,
    Number,
    Boolean,
    Ref(Seq<char>),
    AllOf,
    OneOf,
    AnyOf,
    Unknown,
}

/// The metadata of a node, with every text as a sequence of characters.
pub struct InfoModel {
    pub kind: KindModel,
    pub format: Option<Seq<char>>,
    pub description: Option<Seq<char>>,
    pub required: bool,
    pub constraints: Seq<Seq<char>>,
    pub enum_values: Seq<Seq<char>>,
    pub example: Option<Seq<char>>,
    pub default_val: Option<Seq<char>>,
}

/// A node with its whole subtree.
pub struct NodeModel {
    pub name: Seq<char>,
    pub info: InfoModel,
    pub children: Seq<NodeModel>,
    pub expanded: bool,
}

/// One visible row: a node and how deep it is nested.
pub struct RowModel {
    pub node: NodeModel,
    pub depth: nat,
}

/// Each path of `paths` with the index `i` put in front.
pub open spec fn prefixed(i: int, paths: Seq<Seq<int>>) -> Seq<Seq<int>> {
    Seq::new(paths.len(), |k: int| seq![i] + paths[k])
}

/// The visible rows of a forest, as paths, in display order.
pub open spec fn forest_paths(forest: Seq<NodeModel>) -> Seq<Seq<int>>
    decreases forest, forest.len() + 1,
{
    paths_upto(forest, forest.len())
}

/// The visible rows that belong to the first `n` roots of a forest.
pub open spec fn paths_upto(forest: Seq<NodeModel>, n: nat) -> Seq<Seq<int>>
    decreases forest, n,
{
    if n == 0 || n > forest.len() {
        Seq::empty()
    } else {
        paths_upto(forest, (n - 1) as nat) + entry_paths(forest[n - 1], n - 1)
    }
}

/// The visible rows of the root with index `i`: the root itself, then, if it
/// is expanded, the visible rows among its children.
pub open spec fn entry_paths(node: NodeModel, i: int) -> Seq<Seq<int>>
    decreases node, 1nat,
{
    seq![seq![i]] + prefixed(i, subtree_paths(node))
}

/// The visible rows below a node, as paths that start at its children.
pub open spec fn subtree_paths(node: NodeModel) -> Seq<Seq<int>>
    decreases node, 0nat,
{
    if node.expanded {
        forest_paths(node.children)
    } else {
        Seq::empty()
    }
}

/// Whether a path leads to a node of the forest.
pub open spec fn valid_path(forest: Seq<NodeModel>, path: Seq<int>) -> bool
    decreases path.len(),
{
    &&& path.len() > 0
    &&& 0 <= path[0] < forest.len()
    &&& path.len() > 1 ==> valid_path(forest[path[0]].children, path.drop_first())
}

/// The node that a path leads to.
pub open spec fn forest_get(forest: Seq<NodeModel>, path: Seq<int>) -> NodeModel
    recommends
        valid_path(forest, path),
    decreases path.len(),
{
    if path.len() <= 1 {
        forest[path[0]]
    } else {
        forest_get(forest[path[0]].children, path.drop_first())
    }
}

/// The forest with the flag of the node at `path` set to `value`; a path that
/// leads nowhere changes nothing.
pub open spec fn forest_with_flag(
    forest: Seq<NodeModel>,
    path: Seq<int>,
    value: bool,
) -> Seq<NodeModel>
    decreases path.len(),
{
    if path.len() == 0 || !(0 <= path[0] < forest.len()) {
        forest
    } else if path.len() == 1 {
        forest.update(path[0], NodeModel { expanded: value, ..forest[path[0]] })
    } else {
        forest.update(
            path[0],
            NodeModel {
                children: forest_with_flag(forest[path[0]].children, path.drop_first(), value),
                ..forest[path[0]]
            },
        )
    }
}

/// The node with the flag of every node in its subtree set to `value`.
pub open spec fn node_with_all(node: NodeModel, value: bool) -> NodeModel
    decreases node,
{
    NodeModel {
        children: Seq::new(
            node.children.len(),
            |i: int|
                if 0 <= i < node.children.len() {
                    node_with_all(node.children[i], value)
                } else {
                    arbitrary()
                },
        ),
        expanded: value,
        ..node
    }
}

/// The forest with the flag of every node set to `value`.
pub open spec fn forest_with_all(forest: Seq<NodeModel>, value: bool) -> Seq<NodeModel> {
    Seq::new(forest.len(), |i: int| node_with_all(forest[i], value))
}

/// The visible rows of a forest whose roots are nested `depth` deep.
pub open spec fn forest_rows(forest: Seq<NodeModel>, depth: nat) -> Seq<RowModel> {
    Seq::new(
        forest_paths(forest).len(),
        |k: int|
            RowModel {
                node: forest_get(forest, forest_paths(forest)[k]),
                depth: (depth + forest_paths(forest)[k].len() - 1) as nat,
            },
    )
}

/// The visible rows of one root nested `depth` deep: the root, then, if it is
/// expanded, the visible rows among its children, one level deeper.
pub open spec fn entry_rows(node: NodeModel, depth: nat) -> Seq<RowModel> {
    seq![RowModel { node, depth }] + if node.expanded {
        forest_rows(node.children, depth + 1)
    } else {
        Seq::empty()
    }
}

/// The visible rows that belong to the first `n` roots of a forest.
pub open spec fn rows_upto(forest: Seq<NodeModel>, n: nat, depth: nat) -> Seq<RowModel> {
    forest_rows(forest, depth).subrange(0, paths_upto(forest, n).len() as int)
}

/// The longest chain of nodes from a root of the first `n` roots downwards.
pub open spec fn forest_height(forest: Seq<NodeModel>, n: nat) -> nat
    decreases forest, n,
{
    if n == 0 || n > forest.len() {
        0
    } else {
        let rest = forest_height(forest, (n - 1) as nat);
        let last = node_height(forest[n - 1]);
        if last > rest {
            last
        } else {
            rest
        }
    }
}

/// The longest chain of nodes from this node downwards.
pub open spec fn node_height(node: NodeModel) -> nat
    decreases node,
{
    1 + forest_height(node.children, node.children.len())
}

/// What a command does to the flag of the selected node.
#[derive(Clone, Copy, Debug)]
pub enum FlagAction {
    Toggle,
    Expand,
    Collapse,
}

/// The flag that `action` gives a node whose flag is `expanded`.
pub open spec fn flag_after(action: FlagAction, expanded: bool) -> bool {
    match action {
        FlagAction::Toggle => !expanded,
        FlagAction::Expand => true,
        FlagAction::Collapse => false,
    }
}

/// The forest after `action` on the node at `path`: a node without children
/// keeps its flag.
pub open spec fn forest_acted(
    forest: Seq<NodeModel>,
    path: Seq<int>,
    action: FlagAction,
) -> Seq<NodeModel> {
    let node = forest_get(forest, path);
    if node.children.len() > 0 {
        forest_with_flag(forest, path, flag_after(action, node.expanded))
    } else {
        forest
    }
}

/// The navigator: the roots and the index of the selected visible row.
pub struct TreeModel {
    pub roots: Seq<NodeModel>,
    pub cursor: nat,
}

impl TreeModel {
    /// The visible rows as paths.
    pub open spec fn paths(self) -> Seq<Seq<int>> {
        forest_paths(self.roots)
    }

    /// The visible rows as nodes with their depth; roots have depth 0.
    pub open spec fn rows(self) -> Seq<RowModel> {
        forest_rows(self.roots, 0)
    }

    /// The row on which root `i` stands: behind the rows of the roots before
    /// it.
    pub open spec fn root_row(self, i: int) -> int {
        paths_upto(self.roots, i as nat).len() as int
    }

    /// How many rows are visible.
    pub open spec fn visible_count(self) -> nat {
        self.paths().len()
    }

    /// The cursor selects a visible row, or is 0 where there is none: it is
    /// below the larger of 1 and the number of visible rows.
    pub open spec fn wf(self) -> bool {
        self.cursor < self.visible_count() || self.cursor == 0
    }

    /// The node on the row that the cursor selects, if it selects one.
    pub open spec fn selected(self) -> Option<NodeModel> {
        if self.cursor < self.visible_count() {
            Some(self.rows()[self.cursor as int].node)
        } else {
            None
        }
    }

    /// The cursor one row higher, unless it is on the first row.
    pub open spec fn moved_up(self) -> TreeModel {
        if self.cursor > 0 {
            TreeModel { cursor: (self.cursor - 1) as nat, ..self }
        } else {
            self
        }
    }

    /// The cursor one row lower, unless it is on the last row or beyond.
    pub open spec fn moved_down(self) -> TreeModel {
        if self.cursor + 1 < self.visible_count() {
            TreeModel { cursor: self.cursor + 1, ..self }
        } else {
            self
        }
    }

    /// The cursor on the first row.
    pub open spec fn at_top(self) -> TreeModel {
        TreeModel { cursor: 0, ..self }
    }

    /// The cursor on the last row, or on 0 where no row is visible.
    pub open spec fn at_bottom(self) -> TreeModel {
        if self.visible_count() > 0 {
            TreeModel { cursor: (self.visible_count() - 1) as nat, ..self }
        } else {
            TreeModel { cursor: 0, ..self }
        }
    }

    /// The tree after `action` on the selected node; where no row is
    /// selected nothing changes.
    pub open spec fn acted(self, action: FlagAction) -> TreeModel {
        if self.cursor < self.visible_count() {
            TreeModel {
                roots: forest_acted(self.roots, self.paths()[self.cursor as int], action),
                ..self
            }
        } else {
            self
        }
    }

    /// Every node expanded; the cursor stays.
    pub open spec fn expanded_all(self) -> TreeModel {
        TreeModel { roots: forest_with_all(self.roots, true), ..self }
    }

    /// Every node collapsed, and the cursor on the first row.
    pub open spec fn collapsed_all(self) -> TreeModel {
        TreeModel { roots: forest_with_all(self.roots, false), cursor: 0 }
    }
}

} // verus!
