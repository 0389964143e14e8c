//! The display tree: its nodes, and the navigator that keeps the expansion
//! flags and the cursor.

use crate::laws::{law_collapse_all, law_cursor_stays_valid};
use crate::model::{
    entry_rows, forest_acted, forest_height, forest_paths, forest_with_all, node_with_all,
    paths_upto, rows_upto, FlagAction, InfoModel, KindModel, NodeModel, RowModel, TreeModel,
};
use crate::paths::{
    lemma_acted_at_root, lemma_acted_below, lemma_entry_position, lemma_height_child,
    lemma_rows_all, lemma_rows_step,
};
use vstd::prelude::*;

verus! {

/// Kind of schema node.
#[derive(Debug)]
pub enum NodeKind {
    /// A top-level schema root without a type of its own.
    Schema,
    Object,
    Array,
    Str,
    Integer,
    Number,
    Boolean,
    /// A reference, with the name of the schema it points to.
    Ref(String),
    AllOf,
    OneOf,
    AnyOf,
    Unknown,
}

/// Metadata for a tree node.
#[derive(Debug)]
pub struct NodeInfo {
    pub kind: NodeKind,
    pub format: Option<String>,
    pub description: Option<String>,
    pub required: bool,
    pub constraints: Vec<String>,
    pub enum_values: Vec<String>,
    pub example: Option<String>,
    pub default_val: Option<String>,
}

/// A node in the schema tree.
#[derive(Debug)]
pub struct TreeNode {
    pub name: String,
    pub info: NodeInfo,
    pub children: Vec<TreeNode>,
    pub expanded: bool,
}

impl View for NodeKind {
    type V = KindModel;

    open spec fn view(&self) -> KindModel {
        match self {
            NodeKind::Schema => KindModel::Schema,
            NodeKind::Object => KindModel::Object,
            NodeKind::Array => KindModel::Array,
            NodeKind::Str => KindModel::Str,
            NodeKind::Integer => KindModel::Integer,
            NodeKind::Number => KindModel::Number,
            NodeKind::Boolean => KindModel::Boolean,
            NodeKind::Ref(target) => KindModel::Ref(target@),
            NodeKind::AllOf => KindModel::AllOf,
            NodeKind::OneOf => KindModel::OneOf,
            NodeKind::AnyOf => KindModel::AnyOf,
            NodeKind::Unknown => KindModel::Unknown,
        }
    }
}

impl View for NodeInfo {
    type V = InfoModel;

    open spec fn view(&self) -> InfoModel {
        InfoModel {
            kind: self.kind@,
            format: self.format.deep_view(),
            description: self.description.deep_view(),
            required: self.required,
            constraints: self.constraints.deep_view(),
            enum_values: self.enum_values.deep_view(),
            example: self.example.deep_view(),
            default_val: self.default_val.deep_view(),
        }
    }
}

/// The model of a node: its texts as character sequences, its children as
/// models.
pub open spec fn node_model(node: TreeNode) -> NodeModel
    decreases node,
{
    NodeModel {
        name: node.name@,
        info: node.info@,
        children: Seq::new(
            node.children.len() as nat,
            |i: int|
                if 0 <= i < node.children.len() {
                    node_model(node.children[i])
                } else {
                    arbitrary()
                },
        ),
        expanded: node.expanded,
    }
}

impl View for TreeNode {
    type V = NodeModel;

    open spec fn view(&self) -> NodeModel {
        node_model(*self)
    }
}

/// The models of a sequence of nodes.
pub open spec fn forest_view(nodes: Seq<TreeNode>) -> Seq<NodeModel> {
    Seq::new(nodes.len(), |i: int| nodes[i]@)
}

/// The children of a node's model are the models of its children.
pub proof fn lemma_children_view(node: TreeNode)
    ensures
        node@.children == forest_view(node.children@),
{
    assert(node@.children =~= forest_view(node.children@));
}

/// The text that names a kind: the type's own word, and for a reference an
/// arrow followed by the target.
pub open spec fn kind_label(kind: KindModel) -> Seq<char> {
    match kind {
        KindModel::Schema => "schema"@,
        KindModel::Object => "object"@,
        KindModel::Array => "array"@,
        KindModel::Str => "string"@,
        KindModel::Integer => "integer"@,
        KindModel::Number => "number"@,
        KindModel::Boolean => "boolean"@,
        KindModel::Ref(target) => "\u{2192}"@ + target,
        KindModel::AllOf => "allOf"@,
        KindModel::OneOf => "oneOf"@,
        KindModel::AnyOf => "anyOf"@,
        KindModel::Unknown => "?"@,
    }
}

/// A copy of a text that may be absent.
pub(crate) fn clone_text(text: &Option<String>) -> (res: Option<String>)
    ensures
        res.deep_view() == text.deep_view(),
{
    match text {
        Some(s) => Some(s.clone()),
        None => None,
    }
}

fn clone_texts(texts: &Vec<String>) -> (res: Vec<String>)
    ensures
        res.deep_view() == texts.deep_view(),
{
    let mut res: Vec<String> = Vec::new();
    let mut i: usize = 0;
    while i < texts.len()
        invariant
            i <= texts.len(),
            res.len() == i,
            forall|j: int| 0 <= j < i ==> res[j]@ == texts[j]@,
        decreases texts.len() - i,
    {
        res.push(texts[i].clone());
        i += 1;
    }
    assert(res.deep_view() =~= texts.deep_view());
    res
}

impl Clone for NodeKind {
    fn clone(&self) -> (res: Self)
        ensures
            res@ == self@,
    {
        match self {
            NodeKind::Schema => NodeKind::Schema,
            NodeKind::Object => NodeKind::Object,
            NodeKind::Array => NodeKind::Array,
            NodeKind::Str => NodeKind::Str,
            NodeKind::Integer => NodeKind::Integer,
            NodeKind::Number => NodeKind::Number,
            NodeKind::Boolean => NodeKind::Boolean,
            NodeKind::Ref(target) => NodeKind::Ref(target.clone()),
            NodeKind::AllOf => NodeKind::AllOf,
            NodeKind::OneOf => NodeKind::OneOf,
            NodeKind::AnyOf => NodeKind::AnyOf,
            NodeKind::Unknown => NodeKind::Unknown,
        }
    }
}

impl Clone for NodeInfo {
    fn clone(&self) -> (res: Self)
        ensures
            res@ == self@,
    {
        NodeInfo {
            kind: self.kind.clone(),
            format: clone_text(&self.format),
            description: clone_text(&self.description),
            required: self.required,
            constraints: clone_texts(&self.constraints),
            enum_values: clone_texts(&self.enum_values),
            example: clone_text(&self.example),
            default_val: clone_text(&self.default_val),
        }
    }
}

/// A copy of each node of `nodes`, subtrees included.
pub fn clone_forest(nodes: &Vec<TreeNode>) -> (res: Vec<TreeNode>)
    ensures
        forest_view(res@) == forest_view(nodes@),
    decreases nodes,
{
    let mut res: Vec<TreeNode> = Vec::new();
    let mut i: usize = 0;
    while i < nodes.len()
        invariant
            i <= nodes.len(),
            res.len() == i,
            forall|j: int| 0 <= j < i ==> res[j]@ == nodes[j]@,
        decreases nodes.len() - i,
    {
        res.push(nodes[i].clone());
        i += 1;
    }
    assert(forest_view(res@) =~= forest_view(nodes@));
    res
}

impl Clone for TreeNode {
    fn clone(&self) -> (res: Self)
        ensures
            res@ == self@,
        decreases self,
    {
        let res = TreeNode {
            name: self.name.clone(),
            info: self.info.clone(),
            children: clone_forest(&self.children),
            expanded: self.expanded,
        };
        proof {
            lemma_children_view(res);
            lemma_children_view(*self);
        }
        res
    }
}

impl TreeNode {
    /// Whether the node has children to show.
    pub fn is_expandable(&self) -> (res: bool)
        ensures
            res == (self@.children.len() > 0),
    {
        !self.children.is_empty()
    }

    /// The text that names the node's kind.
    pub fn type_label(&self) -> (res: String)
        ensures
            res@ == kind_label(self@.info.kind),
    {
        match &self.info.kind {
            NodeKind::Schema => "schema".to_owned(),
            NodeKind::Object => "object".to_owned(),
            NodeKind::Array => "array".to_owned(),
            NodeKind::Str => "string".to_owned(),
            NodeKind::Integer => "integer".to_owned(),
            NodeKind::Number => "number".to_owned(),
            NodeKind::Boolean => "boolean".to_owned(),
            NodeKind::Ref(target) => {
                let mut label = "\u{2192}".to_owned();
                label.append(target.as_str());
                label
            },
            NodeKind::AllOf => "allOf".to_owned(),
            NodeKind::OneOf => "oneOf".to_owned(),
            NodeKind::AnyOf => "anyOf".to_owned(),
            NodeKind::Unknown => "?".to_owned(),
        }
    }
}

/// A node in the flattened visible list (borrowed from the tree).
pub struct FlatNode<'a> {
    pub node: &'a TreeNode,
    pub depth: usize,
}

impl<'a> View for FlatNode<'a> {
    type V = RowModel;

    open spec fn view(&self) -> RowModel {
        RowModel { node: self.node@, depth: self.depth as nat }
    }
}

/// The models of a sequence of flattened rows.
pub open spec fn rows_view(rows: Seq<FlatNode<'_>>) -> Seq<RowModel> {
    Seq::new(rows.len(), |i: int| rows[i]@)
}

/// Tree state: all schema roots + cursor into the flat visible list.
pub struct TreeState {
    pub roots: Vec<TreeNode>,
    pub cursor: usize,
}

impl View for TreeState {
    type V = TreeModel;

    open spec fn view(&self) -> TreeModel {
        TreeModel { roots: forest_view(self.roots@), cursor: self.cursor as nat }
    }
}

/// Appends the visible rows of `node` and of what is open below it.
fn flatten_node<'a>(node: &'a TreeNode, depth: usize, out: &mut Vec<FlatNode<'a>>)
    requires
        depth <= old(out).len(),
    ensures
        rows_view(final(out)@) == rows_view(old(out)@) + entry_rows(node@, depth as nat),
    decreases node,
{
    let ghost before = rows_view(out@);
    out.push(FlatNode { node, depth });
    proof {
        lemma_children_view(*node);
        assert(rows_view(out@) =~= before + seq![RowModel { node: node@, depth: depth as nat }]);
    }
    if node.expanded {
        let n: usize = node.children.len();
        let mut i: usize = 0;
        proof {
            assert(rows_upto(node@.children, 0, (depth + 1) as nat) =~= Seq::empty());
        }
        while i < n
            invariant
                n == node.children.len(),
                i <= n,
                depth < out.len(),
                node@.children == forest_view(node.children@),
                rows_view(out@) == before + seq![RowModel { node: node@, depth: depth as nat }]
                    + rows_upto(node@.children, i as nat, (depth + 1) as nat),
            decreases n - i,
        {
            let ghost rows_before = rows_view(out@);
            flatten_node(&node.children[i], depth + 1, out);
            proof {
                assert(rows_view(out@).len() >= rows_before.len());
                lemma_rows_step(node@.children, i as int, (depth + 1) as nat);
            }
            i += 1;
        }
        proof {
            lemma_rows_all(node@.children, (depth + 1) as nat);
        }
    }
}

/// Walks the visible rows of `nodes`, counting from `*counter`, and applies
/// `action` to the row whose number is `target`. Returns whether the row was
/// among them; if not, `*counter` has grown by the number of rows passed.
fn visit_at(
    nodes: &mut Vec<TreeNode>,
    target: usize,
    counter: &mut usize,
    action: FlagAction,
) -> (found: bool)
    requires
        *old(counter) <= target,
    ensures
        ({
            let forest = forest_view(old(nodes)@);
            let paths = forest_paths(forest);
            let k = target - *old(counter);
            &&& found == (k < paths.len())
            &&& found ==> forest_view(final(nodes)@) == forest_acted(forest, paths[k], action)
            &&& !found ==> forest_view(final(nodes)@) == forest
            &&& !found ==> *final(counter) == *old(counter) + paths.len()
        }),
    decreases forest_height(forest_view(old(nodes)@), old(nodes).len() as nat),
{
    let ghost forest = forest_view(nodes@);
    let ghost paths = forest_paths(forest);
    let ghost start = *counter;
    let n: usize = nodes.len();
    let mut i: usize = 0;
    while i < n
        invariant
            n == nodes.len(),
            i <= n,
            forest_view(nodes@) == forest,
            forest == forest_view(old(nodes)@),
            paths == forest_paths(forest),
            start == *old(counter),
            *counter == start + paths_upto(forest, i as nat).len(),
            *counter <= target,
        decreases n - i,
    {
        proof {
            lemma_entry_position(forest, i as int);
            lemma_height_child(forest, i as int);
        }
        let node = &mut nodes[i];
        proof {
            lemma_children_view(*node);
        }
        let ghost before = *node;
        if *counter == target {
            if node.children.len() > 0 {
                node.expanded = match action {
                    FlagAction::Toggle => !node.expanded,
                    FlagAction::Expand => true,
                    FlagAction::Collapse => false,
                };
            }
            proof {
                lemma_children_view(*node);
                lemma_acted_at_root(forest, i as int, action);
                assert(node@ == forest_acted(forest, seq![i as int], action)[i as int]);
                assert(forest_view(nodes@) =~= forest_acted(forest, seq![i as int], action));
            }
            return true;
        }
        *counter += 1;
        if node.expanded {
            let found = visit_at(&mut node.children, target, counter, action);
            if found {
                proof {
                    let k = target - start - paths_upto(forest, i as nat).len() - 1;
                    lemma_children_view(*node);
                    lemma_acted_below(forest, i as int, k, action);
                    assert(node@ == forest_acted(forest, paths[target - start], action)[i as int]);
                    assert(forest_view(nodes@) =~= forest_acted(
                        forest,
                        paths[target - start],
                        action,
                    ));
                }
                return true;
            }
            proof {
                lemma_children_view(*node);
                assert(node@ == before@);
            }
        }
        proof {
            assert(forest_view(nodes@) =~= forest);
        }
        i += 1;
    }
    false
}

/// Applies a toggle to the visible row whose number is `target`.
fn toggle_at(nodes: &mut Vec<TreeNode>, target: usize, counter: &mut usize) -> (found: bool)
    requires
        *old(counter) <= target,
    ensures
        ({
            let forest = forest_view(old(nodes)@);
            let paths = forest_paths(forest);
            let k = target - *old(counter);
            &&& found == (k < paths.len())
            &&& found ==> forest_view(final(nodes)@) == forest_acted(
                forest,
                paths[k],
                FlagAction::Toggle,
            )
            &&& !found ==> forest_view(final(nodes)@) == forest
        }),
{
    visit_at(nodes, target, counter, FlagAction::Toggle)
}

/// Sets the flag of the visible row whose number is `target`.
fn set_expanded_at(
    nodes: &mut Vec<TreeNode>,
    target: usize,
    counter: &mut usize,
    expanded: bool,
) -> (found: bool)
    requires
        *old(counter) <= target,
    ensures
        ({
            let forest = forest_view(old(nodes)@);
            let paths = forest_paths(forest);
            let k = target - *old(counter);
            let action = if expanded {
                FlagAction::Expand
            } else {
                FlagAction::Collapse
            };
            &&& found == (k < paths.len())
            &&& found ==> forest_view(final(nodes)@) == forest_acted(forest, paths[k], action)
            &&& !found ==> forest_view(final(nodes)@) == forest
        }),
{
    if expanded {
        visit_at(nodes, target, counter, FlagAction::Expand)
    } else {
        visit_at(nodes, target, counter, FlagAction::Collapse)
    }
}

/// Sets the flag of every node of `nodes`, at every depth.
fn set_expanded_all(nodes: &mut Vec<TreeNode>, expanded: bool)
    ensures
        forest_view(final(nodes)@) == forest_with_all(forest_view(old(nodes)@), expanded),
    decreases forest_height(forest_view(old(nodes)@), old(nodes).len() as nat),
{
    let ghost forest = forest_view(nodes@);
    let n: usize = nodes.len();
    let mut i: usize = 0;
    while i < n
        invariant
            n == nodes.len(),
            n == old(nodes).len(),
            forest == forest_view(old(nodes)@),
            i <= n,
            forall|j: int| 0 <= j < i ==> nodes[j]@ == node_with_all(forest[j], expanded),
            forall|j: int| i <= j < n ==> nodes[j]@ == forest[j],
        decreases n - i,
    {
        let node = &mut nodes[i];
        let ghost before = *node;
        node.expanded = expanded;
        proof {
            lemma_children_view(before);
            lemma_height_child(forest, i as int);
        }
        set_expanded_all(&mut node.children, expanded);
        proof {
            lemma_children_view(*node);
            let goal = node_with_all(before@, expanded);
            assert(node@.children =~= goal.children);
            assert(node@ == goal);
        }
        i += 1;
    }
    assert(forest_view(nodes@) =~= forest_with_all(forest, expanded));
}

impl TreeState {
    /// A navigator over `roots`, with the cursor on the first row.
    pub fn new(roots: Vec<TreeNode>) -> (res: Self)
        ensures
            res.roots == roots,
            res.cursor == 0,
            res@ == (TreeModel { roots: forest_view(roots@), cursor: 0 }),
            res@.wf(),
    {
        TreeState { roots, cursor: 0 }
    }

    /// Flatten visible nodes depth-first, skipping collapsed subtrees.
    pub fn flatten(&self) -> (res: Vec<FlatNode<'_>>)
        ensures
            rows_view(res@) == self@.rows(),
            res.len() == self@.visible_count(),
    {
        let mut result: Vec<FlatNode<'_>> = Vec::new();
        let n: usize = self.roots.len();
        let mut i: usize = 0;
        proof {
            assert(rows_view(result@) =~= rows_upto(self@.roots, 0, 0));
        }
        while i < n
            invariant
                n == self.roots.len(),
                i <= n,
                rows_view(result@) == rows_upto(self@.roots, i as nat, 0),
            decreases n - i,
        {
            flatten_node(&self.roots[i], 0, &mut result);
            proof {
                lemma_rows_step(self@.roots, i as int, 0);
            }
            i += 1;
        }
        proof {
            lemma_rows_all(self@.roots, 0);
            assert(rows_view(result@).len() == result.len());
        }
        result
    }

    /// The number of visible rows.
    pub fn visible_count(&self) -> (res: usize)
        ensures
            res == self@.visible_count(),
            res == self@.rows().len(),
    {
        let flat = self.flatten();
        flat.len()
    }

    /// The node on the row that the cursor selects, if there is one.
    pub fn selected_node(&self) -> (res: Option<&TreeNode>)
        ensures
            match res {
                Some(node) => self@.selected() == Some(node@),
                None => self@.selected() is None,
            },
    {
        let flat = self.flatten();
        if self.cursor < flat.len() {
            let row = &flat[self.cursor];
            proof {
                assert(rows_view(flat@)[self.cursor as int] == row@);
            }
            Some(row.node)
        } else {
            None
        }
    }

    /// Moves the cursor one row up; on the first row nothing changes.
    pub fn move_up(&mut self)
        ensures
            final(self)@ == old(self)@.moved_up(),
            final(self).roots == old(self).roots,
            old(self)@.wf() ==> final(self)@.wf(),
    {
        if self.cursor > 0 {
            self.cursor -= 1;
        }
    }

    /// Moves the cursor one row down; on the last row nothing changes.
    pub fn move_down(&mut self)
        ensures
            final(self)@ == old(self)@.moved_down(),
            final(self).roots == old(self).roots,
            old(self)@.wf() ==> final(self)@.wf(),
    {
        let count = self.visible_count();
        let max: usize = if count > 0 {
            count - 1
        } else {
            0
        };
        if self.cursor < max {
            self.cursor += 1;
        }
    }

    /// Puts the cursor on the first row.
    pub fn goto_top(&mut self)
        ensures
            final(self)@ == old(self)@.at_top(),
            final(self).roots == old(self).roots,
            old(self)@.wf() ==> final(self)@.wf(),
    {
        self.cursor = 0;
    }

    /// Puts the cursor on the last row.
    pub fn goto_bottom(&mut self)
        ensures
            final(self)@ == old(self)@.at_bottom(),
            final(self).roots == old(self).roots,
            old(self)@.wf() ==> final(self)@.wf(),
    {
        let count = self.visible_count();
        self.cursor = if count > 0 {
            count - 1
        } else {
            0
        };
    }

    /// Toggle expand/collapse on the node at the cursor.
    pub fn toggle_at_cursor(&mut self)
        ensures
            final(self)@ == old(self)@.acted(FlagAction::Toggle),
            final(self).cursor == old(self).cursor,
            final(self).roots.len() == old(self).roots.len(),
            old(self)@.wf() ==> final(self)@.wf(),
    {
        let target = self.cursor;
        let mut counter: usize = 0;
        toggle_at(&mut self.roots, target, &mut counter);
        proof {
            if old(self)@.wf() {
                law_cursor_stays_valid(old(self)@, FlagAction::Toggle);
            }
        }
    }

    /// Expand (only) the node at the cursor.
    pub fn expand_at_cursor(&mut self)
        ensures
            final(self)@ == old(self)@.acted(FlagAction::Expand),
            final(self).cursor == old(self).cursor,
            final(self).roots.len() == old(self).roots.len(),
            old(self)@.wf() ==> final(self)@.wf(),
    {
        let target = self.cursor;
        let mut counter: usize = 0;
        set_expanded_at(&mut self.roots, target, &mut counter, true);
        proof {
            if old(self)@.wf() {
                law_cursor_stays_valid(old(self)@, FlagAction::Expand);
            }
        }
    }

    /// Collapse (only) the node at the cursor.
    pub fn collapse_at_cursor(&mut self)
        ensures
            final(self)@ == old(self)@.acted(FlagAction::Collapse),
            final(self).cursor == old(self).cursor,
            final(self).roots.len() == old(self).roots.len(),
            old(self)@.wf() ==> final(self)@.wf(),
    {
        let target = self.cursor;
        let mut counter: usize = 0;
        set_expanded_at(&mut self.roots, target, &mut counter, false);
        proof {
            if old(self)@.wf() {
                law_cursor_stays_valid(old(self)@, FlagAction::Collapse);
            }
        }
    }

    /// Expand every node in the entire tree.
    pub fn expand_all(&mut self)
        ensures
            final(self)@ == old(self)@.expanded_all(),
            final(self).cursor == old(self).cursor,
            final(self).roots.len() == old(self).roots.len(),
            old(self)@.wf() ==> final(self)@.wf(),
    {
        set_expanded_all(&mut self.roots, true);
        proof {
            assert(forest_view(self.roots@).len() == self.roots.len());
            if old(self)@.wf() {
                law_cursor_stays_valid(old(self)@, FlagAction::Toggle);
            }
        }
    }

    /// Collapse every node and reset cursor to top.
    pub fn collapse_all(&mut self)
        ensures
            final(self)@ == old(self)@.collapsed_all(),
            final(self).cursor == 0,
            final(self).roots.len() == old(self).roots.len(),
            final(self)@.visible_count() == old(self).roots.len(),
            final(self)@.wf(),
    {
        set_expanded_all(&mut self.roots, false);
        self.cursor = 0;
        proof {
            assert(forest_view(self.roots@).len() == self.roots.len());
            law_collapse_all(old(self)@);
        }
    }
}

} // verus!

